//! The syntax tree and the parser that builds it.
//!
//! Trivia attachment ([`extract_token_references`]) turns the flat token
//! sequence into self-contained [`TokenReference`]s; the parsing engine then
//! builds the tree from them.

mod parsers;
pub mod punctuated;
pub mod span;

use vstd::prelude::*;
use vstd::string::StringExecFns;

use crate::ast::punctuated::{Pair, Punctuated};
use crate::ast::span::ContainedSpan;
use crate::tokenizer::{
    spec_is_trivia, tokens_text, tokens_view, lemma_tokens_text_add, lemma_refs_text_add,
    refs_text, refs_view, token_ref_text, token_text, Symbol, Token, TokenModel, TokenRefModel,
    TokenReference, TokenType, TokenTypeModel,
};

verus! {

/// A block of statements, each optionally followed by a semicolon, with an
/// optional final statement restricted to block-terminating forms.
#[derive(Debug, PartialEq)]
pub struct Block {
    pub stmts: Vec<(Stmt, Option<TokenReference>)>,
    pub last_stmt: Option<(LastStmt, Option<TokenReference>)>,
}

/// The last statement of a [`Block`].
#[derive(Debug, PartialEq)]
pub enum LastStmt {
    /// A `break` statement.
    Break(TokenReference),
    /// A `return` statement.
    Return(Return),
}

/// A `return` statement.
#[derive(Debug, PartialEq)]
pub struct Return {
    pub token: TokenReference,
    pub return_values: Punctuated<Expression>,
}

/// A field of a [`TableConstructor`].
#[derive(Debug, PartialEq)]
pub enum Field {
    /// A key in the form `[expression] = value`.
    ExpressionKey {
        /// The `[...]` brackets.
        brackets: ContainedSpan,
        /// The key expression between the brackets.
        key: Expression,
        /// The `=` token.
        equal: TokenReference,
        /// The value assigned.
        value: Expression,
    },
    /// A key in the form `name = value`.
    NameKey {
        /// The name before the `=`.
        key: TokenReference,
        /// The `=` token.
        equal: TokenReference,
        /// The value assigned.
        value: Expression,
    },
    /// A field with no key, just a value.
    NoKey(Expression),
}

/// A field of a table being created, with the separator after it if one
/// exists (`,` or `;`).
pub type TableConstructorField = (Field, Option<TokenReference>);

/// A table being constructed, such as `{ 1, 2, 3 }` or `{ a = 1 }`.
#[derive(Debug, PartialEq)]
pub struct TableConstructor {
    pub braces: ContainedSpan,
    pub fields: Vec<TableConstructorField>,
}

/// The right side of a binary operation: the operator and its right
/// operand.
#[derive(Debug, PartialEq)]
pub struct BinOpRhs {
    pub bin_op: BinOp,
    pub rhs: Box<Expression>,
}

/// An expression.
#[derive(Debug, PartialEq)]
pub enum Expression {
    /// An expression in parentheses, such as `(#list)`.
    Parentheses {
        /// The parentheses.
        contained: ContainedSpan,
        /// The expression inside them.
        expression: Box<Expression>,
    },
    /// A unary operation, such as `#list`.
    UnaryOperator {
        /// The operator.
        unop: UnOp,
        /// The operand.
        expression: Box<Expression>,
    },
    /// A value, optionally followed by a binary operation.
    Value {
        /// The value itself.
        value: Box<Value>,
        /// The `+ 3` part of `2 + 3`, if there is one.
        binop: Option<BinOpRhs>,
    },
}

/// A value that stands inside expressions and statements.
#[derive(Debug, PartialEq)]
pub enum Value {
    /// An anonymous function: the `function` token and its body.
    Function((TokenReference, FunctionBody)),
    /// A call of a function, such as `call()`.
    FunctionCall(FunctionCall),
    /// A table constructor, such as `{ 1, 2, 3 }`.
    TableConstructor(TableConstructor),
    /// A number token, such as `3.3`.
    Number(TokenReference),
    /// A nested expression.
    ParseExpression(Expression),
    /// A string token, such as `"hello"`.
    String(TokenReference),
    /// A symbol, such as `true`.
    Symbol(TokenReference),
    /// A more complex value, such as `call().x`.
    Var(Var),
}

/// A statement that stands alone in a block.
#[derive(Debug, PartialEq)]
pub enum Stmt {
    /// An assignment, such as `x = 1`.
    Assignment(Assignment),
    /// A standalone `do ... end` block.
    Do(Do),
    /// A function call on its own, such as `call()`.
    FunctionCall(FunctionCall),
    /// A function declaration, such as `function x() end`.
    FunctionDeclaration(FunctionDeclaration),
    /// A generic for loop, such as `for k, v in pairs(list) do end`.
    GenericFor(GenericFor),
    /// An if statement.
    If(If),
    /// A local assignment, such as `local x = 1`.
    LocalAssignment(LocalAssignment),
    /// A local function declaration, such as `local function x() end`.
    LocalFunction(LocalFunction),
    /// A numeric for loop, such as `for i = 1, 10 do end`.
    NumericFor(NumericFor),
    /// A repeat loop.
    Repeat(Repeat),
    /// A while loop.
    While(While),
}

/// What a call or an index starts from: the `("foo")` part of
/// `("foo"):upper()`.
#[derive(Debug, PartialEq)]
pub enum Prefix {
    /// A parenthesised expression, such as `("foo")`.
    Expression(Expression),
    /// Just a name, such as `foo`.
    Name(TokenReference),
}

/// The indexing of something, such as `x.y` or `x["y"]`.
#[derive(Debug, PartialEq)]
pub enum Index {
    /// Indexing in the form `x["y"]`.
    Brackets {
        /// The `[...]` brackets.
        brackets: ContainedSpan,
        /// The key expression between them.
        expression: Expression,
    },
    /// Indexing in the form `x.y`.
    Dot {
        /// The `.` token.
        dot: TokenReference,
        /// The name after the dot.
        name: TokenReference,
    },
}

/// The arguments of a function call.
#[derive(Debug, PartialEq)]
pub enum FunctionArgs {
    /// A call in the form `call(1, 2, 3)`.
    Parentheses {
        /// The argument expressions.
        arguments: Punctuated<Expression>,
        /// The parentheses around them.
        parentheses: ContainedSpan,
    },
    /// A call in the form `call "foobar"`.
    String(TokenReference),
    /// A call in the form `call { 1, 2, 3 }`.
    TableConstructor(TableConstructor),
}

/// A numeric for loop, such as `for index = 1, 10 do end`.
#[derive(Debug, PartialEq)]
pub struct NumericFor {
    pub for_token: TokenReference,
    pub index_variable: TokenReference,
    pub equal_token: TokenReference,
    pub start: Expression,
    pub start_end_comma: TokenReference,
    pub end: Expression,
    pub end_step_comma: Option<TokenReference>,
    pub step: Option<Expression>,
    pub do_token: TokenReference,
    pub block: Block,
    pub end_token: TokenReference,
}

/// A generic for loop, such as `for index, value in pairs(list) do end`.
#[derive(Debug, PartialEq)]
pub struct GenericFor {
    pub for_token: TokenReference,
    pub names: Punctuated<TokenReference>,
    pub in_token: TokenReference,
    pub expr_list: Punctuated<Expression>,
    pub do_token: TokenReference,
    pub block: Block,
    pub end_token: TokenReference,
}

/// An if statement.
#[derive(Debug, PartialEq)]
pub struct If {
    pub if_token: TokenReference,
    pub condition: Expression,
    pub then_token: TokenReference,
    pub block: Block,
    pub else_if: Option<Vec<ElseIf>>,
    pub else_token: Option<TokenReference>,
    pub else_block: Option<Block>,
    pub end_token: TokenReference,
}

/// An `elseif` branch of a bigger [`If`] statement.
#[derive(Debug, PartialEq)]
pub struct ElseIf {
    pub else_if_token: TokenReference,
    pub condition: Expression,
    pub then_token: TokenReference,
    pub block: Block,
}

/// A while loop.
#[derive(Debug, PartialEq)]
pub struct While {
    pub while_token: TokenReference,
    pub condition: Expression,
    pub do_token: TokenReference,
    pub block: Block,
    pub end_token: TokenReference,
}

/// A repeat loop.
#[derive(Debug, PartialEq)]
pub struct Repeat {
    pub repeat_token: TokenReference,
    pub block: Block,
    pub until_token: TokenReference,
    pub until: Expression,
}

/// A method call, such as `x:y()`.
#[derive(Debug, PartialEq)]
pub struct MethodCall {
    pub colon_token: TokenReference,
    pub name: TokenReference,
    pub args: FunctionArgs,
}

/// Something being called.
#[derive(Debug, PartialEq)]
pub enum Call {
    /// A function called directly, such as `x(1)`.
    AnonymousCall(FunctionArgs),
    /// A method call, such as `x:y()`.
    MethodCall(MethodCall),
}

/// A function body: everything except `function x` in
/// `function x(a, b, c) call() end`.
#[derive(Debug, PartialEq)]
pub struct FunctionBody {
    pub parameters_parantheses: ContainedSpan,
    pub parameters: Punctuated<Parameter>,
    pub block: Block,
    pub end_token: TokenReference,
}

/// A parameter in a function declaration.
#[derive(Debug, PartialEq)]
pub enum Parameter {
    /// The `...` vararg syntax, as in `function x(...)`.
    Ellipse(TokenReference),
    /// A named parameter, as in `function x(a, b, c)`.
    Name(TokenReference),
}

/// A suffix of a prefix expression: a call or an index.  Suffixes stack, as
/// in `x()()()`.
#[derive(Debug, PartialEq)]
pub enum Suffix {
    /// A call, whether direct or through a method.
    Call(Call),
    /// An index, such as `x.y`.
    Index(Index),
}

/// A prefix with its suffixes, as used by [`Var`].
#[derive(Debug, PartialEq)]
pub struct VarExpression {
    pub prefix: Prefix,
    pub suffixes: Vec<Suffix>,
}

/// What can stand on the left of an assignment, and as a value.
#[derive(Debug, PartialEq)]
pub enum Var {
    /// An expression, such as `x.y.z` or `x()`.
    Expression(VarExpression),
    /// A literal identifier, such as `x`.
    Name(TokenReference),
}

/// An assignment, such as `x = y`; local assignments are
/// [`LocalAssignment`]s.
#[derive(Debug, PartialEq)]
pub struct Assignment {
    pub var_list: Punctuated<Var>,
    pub equal_token: TokenReference,
    pub expr_list: Punctuated<Expression>,
}

/// A declaration of a local function, such as `local function x() end`.
#[derive(Debug, PartialEq)]
pub struct LocalFunction {
    pub local_token: TokenReference,
    pub function_token: TokenReference,
    pub name: TokenReference,
    pub func_body: FunctionBody,
}

/// An assignment to local variables, such as `local x = 1`.
#[derive(Debug, PartialEq)]
pub struct LocalAssignment {
    pub local_token: TokenReference,
    pub name_list: Punctuated<TokenReference>,
    pub equal_token: Option<TokenReference>,
    pub expr_list: Punctuated<Expression>,
}

/// A standalone `do ... end` block.
#[derive(Debug, PartialEq)]
pub struct Do {
    pub do_token: TokenReference,
    pub block: Block,
    pub end_token: TokenReference,
}

/// A function being called, such as `call()`.
#[derive(Debug, PartialEq)]
pub struct FunctionCall {
    pub prefix: Prefix,
    pub suffixes: Vec<Suffix>,
}

/// The name under which a function is declared, such as `x.y.z:a` in
/// `function x.y.z:a() end`.
#[derive(Debug, PartialEq)]
pub struct FunctionName {
    pub names: Punctuated<TokenReference>,
    pub colon_name: Option<(TokenReference, TokenReference)>,
}

/// A function declaration, from `function x() end` to
/// `function x.y.z:a() end`.
#[derive(Debug, PartialEq)]
pub struct FunctionDeclaration {
    pub function_token: TokenReference,
    pub name: FunctionName,
    pub body: FunctionBody,
}

/// An operator that takes two operands, the `+` of `x + y`.
#[derive(Debug, PartialEq)]
pub enum BinOp {
    And(TokenReference),
    Caret(TokenReference),
    GreaterThan(TokenReference),
    GreaterThanEqual(TokenReference),
    LessThan(TokenReference),
    LessThanEqual(TokenReference),
    Minus(TokenReference),
    Or(TokenReference),
    Percent(TokenReference),
    Plus(TokenReference),
    Slash(TokenReference),
    Star(TokenReference),
    TildeEqual(TokenReference),
    TwoDots(TokenReference),
    TwoEqual(TokenReference),
}

/// An operator that takes one operand, the `#` of `#x`.
#[derive(Debug, PartialEq)]
pub enum UnOp {
    Minus(TokenReference),
    Not(TokenReference),
    Hash(TokenReference),
}

impl Return {
    /// The `return` token.
    pub fn token(&self) -> (r: &TokenReference)
        ensures
            r == self.token,
    {
        &self.token
    }

    /// The values being returned.
    pub fn return_values(&self) -> (r: &Punctuated<Expression>)
        ensures
            r == self.return_values,
    {
        &self.return_values
    }

}

impl NumericFor {
    /// The `for` token.
    pub fn for_token(&self) -> (r: &TokenReference)
        ensures
            r == self.for_token,
    {
        &self.for_token
    }

    /// The index variable, `index` in `for index = 1, 10 do end`.
    pub fn index_variable(&self) -> (r: &TokenReference)
        ensures
            r == self.index_variable,
    {
        &self.index_variable
    }

    /// The `=` token.
    pub fn equal_token(&self) -> (r: &TokenReference)
        ensures
            r == self.equal_token,
    {
        &self.equal_token
    }

    /// The starting point of the loop.
    pub fn start(&self) -> (r: &Expression)
        ensures
            r == self.start,
    {
        &self.start
    }

    /// The comma between the starting and ending points.
    pub fn start_end_comma(&self) -> (r: &TokenReference)
        ensures
            r == self.start_end_comma,
    {
        &self.start_end_comma
    }

    /// The ending point of the loop.
    pub fn end(&self) -> (r: &Expression)
        ensures
            r == self.end,
    {
        &self.end
    }

    /// The `do` token.
    pub fn do_token(&self) -> (r: &TokenReference)
        ensures
            r == self.do_token,
    {
        &self.do_token
    }

    /// The code inside the loop.
    pub fn block(&self) -> (r: &Block)
        ensures
            r == self.block,
    {
        &self.block
    }

    /// The `end` token.
    pub fn end_token(&self) -> (r: &TokenReference)
        ensures
            r == self.end_token,
    {
        &self.end_token
    }

}

impl GenericFor {
    /// The `for` token.
    pub fn for_token(&self) -> (r: &TokenReference)
        ensures
            r == self.for_token,
    {
        &self.for_token
    }

    /// The names bound by the loop, `index, value` in `for index, value in pairs(list) do end`.
    pub fn names(&self) -> (r: &Punctuated<TokenReference>)
        ensures
            r == self.names,
    {
        &self.names
    }

    /// The `in` token.
    pub fn in_token(&self) -> (r: &TokenReference)
        ensures
            r == self.in_token,
    {
        &self.in_token
    }

    /// The expressions looped over.
    pub fn expr_list(&self) -> (r: &Punctuated<Expression>)
        ensures
            r == self.expr_list,
    {
        &self.expr_list
    }

    /// The `do` token.
    pub fn do_token(&self) -> (r: &TokenReference)
        ensures
            r == self.do_token,
    {
        &self.do_token
    }

    /// The code inside the loop.
    pub fn block(&self) -> (r: &Block)
        ensures
            r == self.block,
    {
        &self.block
    }

    /// The `end` token.
    pub fn end_token(&self) -> (r: &TokenReference)
        ensures
            r == self.end_token,
    {
        &self.end_token
    }

}

impl If {
    /// The `if` token.
    pub fn if_token(&self) -> (r: &TokenReference)
        ensures
            r == self.if_token,
    {
        &self.if_token
    }

    /// The condition, `condition` in `if condition then`.
    pub fn condition(&self) -> (r: &Expression)
        ensures
            r == self.condition,
    {
        &self.condition
    }

    /// The `then` token.
    pub fn then_token(&self) -> (r: &TokenReference)
        ensures
            r == self.then_token,
    {
        &self.then_token
    }

    /// The block run when the condition holds.
    pub fn block(&self) -> (r: &Block)
        ensures
            r == self.block,
    {
        &self.block
    }

    /// The `end` token.
    pub fn end_token(&self) -> (r: &TokenReference)
        ensures
            r == self.end_token,
    {
        &self.end_token
    }

}

impl ElseIf {
    /// The `elseif` token.
    pub fn else_if_token(&self) -> (r: &TokenReference)
        ensures
            r == self.else_if_token,
    {
        &self.else_if_token
    }

    /// The condition of the branch.
    pub fn condition(&self) -> (r: &Expression)
        ensures
            r == self.condition,
    {
        &self.condition
    }

    /// The `then` token.
    pub fn then_token(&self) -> (r: &TokenReference)
        ensures
            r == self.then_token,
    {
        &self.then_token
    }

    /// The body of the branch.
    pub fn block(&self) -> (r: &Block)
        ensures
            r == self.block,
    {
        &self.block
    }

}

impl While {
    /// The `while` token.
    pub fn while_token(&self) -> (r: &TokenReference)
        ensures
            r == self.while_token,
    {
        &self.while_token
    }

    /// The condition, `condition` in `while condition do`.
    pub fn condition(&self) -> (r: &Expression)
        ensures
            r == self.condition,
    {
        &self.condition
    }

    /// The `do` token.
    pub fn do_token(&self) -> (r: &TokenReference)
        ensures
            r == self.do_token,
    {
        &self.do_token
    }

    /// The code inside the loop.
    pub fn block(&self) -> (r: &Block)
        ensures
            r == self.block,
    {
        &self.block
    }

    /// The `end` token.
    pub fn end_token(&self) -> (r: &TokenReference)
        ensures
            r == self.end_token,
    {
        &self.end_token
    }

}

impl Repeat {
    /// The `repeat` token.
    pub fn repeat_token(&self) -> (r: &TokenReference)
        ensures
            r == self.repeat_token,
    {
        &self.repeat_token
    }

    /// The code inside the `repeat` block.
    pub fn block(&self) -> (r: &Block)
        ensures
            r == self.block,
    {
        &self.block
    }

    /// The `until` token.
    pub fn until_token(&self) -> (r: &TokenReference)
        ensures
            r == self.until_token,
    {
        &self.until_token
    }

    /// The condition ending the loop.
    pub fn until(&self) -> (r: &Expression)
        ensures
            r == self.until,
    {
        &self.until
    }

}

impl MethodCall {
    /// The `:` of `x:y()`.
    pub fn colon_token(&self) -> (r: &TokenReference)
        ensures
            r == self.colon_token,
    {
        &self.colon_token
    }

    /// The arguments of the call.
    pub fn args(&self) -> (r: &FunctionArgs)
        ensures
            r == self.args,
    {
        &self.args
    }

    /// The method being called, the `y` of `x:y()`.
    pub fn name(&self) -> (r: &TokenReference)
        ensures
            r == self.name,
    {
        &self.name
    }

}

impl Assignment {
    /// The expressions being assigned, the `1, 2` of `x, y = 1, 2`.
    pub fn expr_list(&self) -> (r: &Punctuated<Expression>)
        ensures
            r == self.expr_list,
    {
        &self.expr_list
    }

    /// The `=` token.
    pub fn equal_token(&self) -> (r: &TokenReference)
        ensures
            r == self.equal_token,
    {
        &self.equal_token
    }

    /// The variables assigned to, the `x, y` of `x, y = 1, 2`.
    pub fn var_list(&self) -> (r: &Punctuated<Var>)
        ensures
            r == self.var_list,
    {
        &self.var_list
    }

}

impl LocalFunction {
    /// The `local` token.
    pub fn local_token(&self) -> (r: &TokenReference)
        ensures
            r == self.local_token,
    {
        &self.local_token
    }

    /// The `function` token.
    pub fn function_token(&self) -> (r: &TokenReference)
        ensures
            r == self.function_token,
    {
        &self.function_token
    }

    /// The function body.
    pub fn func_body(&self) -> (r: &FunctionBody)
        ensures
            r == self.func_body,
    {
        &self.func_body
    }

    /// The name of the function.
    pub fn name(&self) -> (r: &TokenReference)
        ensures
            r == self.name,
    {
        &self.name
    }

}

impl Do {
    /// The `do` token.
    pub fn do_token(&self) -> (r: &TokenReference)
        ensures
            r == self.do_token,
    {
        &self.do_token
    }

    /// The code inside the `do ... end`.
    pub fn block(&self) -> (r: &Block)
        ensures
            r == self.block,
    {
        &self.block
    }

    /// The `end` token.
    pub fn end_token(&self) -> (r: &TokenReference)
        ensures
            r == self.end_token,
    {
        &self.end_token
    }

}

impl FunctionDeclaration {
    /// The `function` token.
    pub fn function_token(&self) -> (r: &TokenReference)
        ensures
            r == self.function_token,
    {
        &self.function_token
    }

    /// The body of the function.
    pub fn body(&self) -> (r: &FunctionBody)
        ensures
            r == self.body,
    {
        &self.body
    }

    /// The name of the function.
    pub fn name(&self) -> (r: &FunctionName)
        ensures
            r == self.name,
    {
        &self.name
    }

}

impl Block {
    /// The statements of the block, in order, such as `local foo = 1`.
    pub fn iter_stmts(&self) -> (r: Vec<&Stmt>)
        ensures
            r@.len() == self.stmts@.len(),
            forall|i: int| 0 <= i < r@.len() ==> r@[i] == (#[trigger] self.stmts@[i]).0,
    {
        let mut v: Vec<&Stmt> = Vec::new();
        let mut i: usize = 0;
        while i < self.stmts.len()
            invariant
                i <= self.stmts@.len(),
                v@.len() == i,
                forall|k: int| 0 <= k < i ==> v@[k] == (#[trigger] self.stmts@[k]).0,
            decreases self.stmts@.len() - i,
        {
            v.push(&self.stmts[i].0);
            i = i + 1;
        }
        v
    }

    /// The older name of [`Block::last_stmt`].
    pub fn last_stmts(&self) -> (r: Option<&LastStmt>)
        ensures
            match r {
                Some(s) => self.last_stmt matches Some(p) && s == p.0,
                None => self.last_stmt is None,
            },
    {
        self.last_stmt()
    }

    /// The last statement of the block if one exists, such as `return foo`.
    pub fn last_stmt(&self) -> (r: Option<&LastStmt>)
        ensures
            match r {
                Some(s) => self.last_stmt matches Some(p) && s == p.0,
                None => self.last_stmt is None,
            },
    {
        match &self.last_stmt {
            Some(p) => Some(&p.0),
            None => None,
        }
    }
}

impl TableConstructor {
    /// The braces of the constructor.
    pub fn braces(&self) -> (r: &ContainedSpan)
        ensures
            r == self.braces,
    {
        &self.braces
    }

    /// The fields used to create the table, each with its separator.
    pub fn iter_fields(&self) -> (r: Vec<&TableConstructorField>)
        ensures
            r@.len() == self.fields@.len(),
            forall|i: int| 0 <= i < r@.len() ==> r@[i] == #[trigger] self.fields@[i],
    {
        let mut v: Vec<&TableConstructorField> = Vec::new();
        let mut i: usize = 0;
        while i < self.fields.len()
            invariant
                i <= self.fields@.len(),
                v@.len() == i,
                forall|k: int| 0 <= k < i ==> v@[k] == #[trigger] self.fields@[k],
            decreases self.fields@.len() - i,
        {
            v.push(&self.fields[i]);
            i = i + 1;
        }
        v
    }
}

impl BinOpRhs {
    /// The operator used, the `+` of `+ 3`.
    pub fn bin_op(&self) -> (r: &BinOp)
        ensures
            r == self.bin_op,
    {
        &self.bin_op
    }

    /// The right operand, the `3` of `+ 3`.
    pub fn rhs(&self) -> (r: &Expression)
        ensures
            r == self.rhs,
    {
        &self.rhs
    }
}

impl NumericFor {
    /// The comma between the ending point and the step, if a step exists.
    pub fn end_step_comma(&self) -> (r: Option<&TokenReference>)
        ensures
            match r {
                Some(t) => self.end_step_comma matches Some(q) && t == q,
                None => self.end_step_comma is None,
            },
    {
        self.end_step_comma.as_ref()
    }

    /// The step of the loop if one exists, the `2` of `for i = 0, 10, 2 do end`.
    pub fn step(&self) -> (r: Option<&Expression>)
        ensures
            match r {
                Some(e) => self.step matches Some(q) && e == q,
                None => self.step is None,
            },
    {
        self.step.as_ref()
    }
}

impl If {
    /// The `else` token if one exists.
    pub fn else_token(&self) -> (r: Option<&TokenReference>)
        ensures
            match r {
                Some(t) => self.else_token matches Some(q) && t == q,
                None => self.else_token is None,
            },
    {
        self.else_token.as_ref()
    }

    /// The `elseif` branches, if there are any.
    pub fn else_if(&self) -> (r: Option<&Vec<ElseIf>>)
        ensures
            match r {
                Some(v) => self.else_if matches Some(q) && v == q,
                None => self.else_if is None,
            },
    {
        self.else_if.as_ref()
    }

    /// The code of the `else` block if one exists.
    pub fn else_block(&self) -> (r: Option<&Block>)
        ensures
            match r {
                Some(b) => self.else_block matches Some(q) && b == q,
                None => self.else_block is None,
            },
    {
        self.else_block.as_ref()
    }
}

impl FunctionBody {
    /// The parentheses around the parameters.
    pub fn parameters_parantheses(&self) -> (r: &ContainedSpan)
        ensures
            r == self.parameters_parantheses,
    {
        &self.parameters_parantheses
    }

    /// The parameters of the function, in order.
    pub fn iter_parameters(&self) -> (r: Vec<&Parameter>)
        ensures
            r@.len() == self.parameters.pairs@.len(),
            forall|i: int|
                0 <= i < r@.len() ==> r@[i] == crate::ast::punctuated::spec_pair_value(
                    #[trigger] self.parameters.pairs@[i],
                ),
    {
        self.parameters.items()
    }

    /// The code of the function body.
    pub fn block(&self) -> (r: &Block)
        ensures
            r == self.block,
    {
        &self.block
    }

    /// The `end` token.
    pub fn end_token(&self) -> (r: &TokenReference)
        ensures
            r == self.end_token,
    {
        &self.end_token
    }
}

impl VarExpression {
    /// The prefix of the expression, such as a name.
    pub fn prefix(&self) -> (r: &Prefix)
        ensures
            r == self.prefix,
    {
        &self.prefix
    }

    /// The suffixes of the expression, such as indexing or calling, in order.
    pub fn iter_suffixes(&self) -> (r: Vec<&Suffix>)
        ensures
            r@.len() == self.suffixes@.len(),
            forall|i: int| 0 <= i < r@.len() ==> r@[i] == #[trigger] self.suffixes@[i],
    {
        let mut v: Vec<&Suffix> = Vec::new();
        let mut i: usize = 0;
        while i < self.suffixes.len()
            invariant
                i <= self.suffixes@.len(),
                v@.len() == i,
                forall|k: int| 0 <= k < i ==> v@[k] == #[trigger] self.suffixes@[k],
            decreases self.suffixes@.len() - i,
        {
            v.push(&self.suffixes[i]);
            i = i + 1;
        }
        v
    }
}

impl LocalAssignment {
    /// The `local` token.
    pub fn local_token(&self) -> (r: &TokenReference)
        ensures
            r == self.local_token,
    {
        &self.local_token
    }

    /// The `=` token of `local x = y`, if one exists.
    pub fn equal_token(&self) -> (r: Option<&TokenReference>)
        ensures
            match r {
                Some(t) => self.equal_token matches Some(q) && t == q,
                None => self.equal_token is None,
            },
    {
        self.equal_token.as_ref()
    }

    /// The expressions assigned, the `1, 2` of `local x, y = 1, 2`.
    pub fn expr_list(&self) -> (r: &Punctuated<Expression>)
        ensures
            r == self.expr_list,
    {
        &self.expr_list
    }

    /// The names assigned to, the `x, y` of `local x, y = 1, 2`.
    pub fn name_list(&self) -> (r: &Punctuated<TokenReference>)
        ensures
            r == self.name_list,
    {
        &self.name_list
    }

    /// The names assigned to, for mutation: the returned reference starts
    /// at the current list, edits through it land in the node, and every
    /// other field is untouched.
    pub fn name_list_mut(&mut self) -> (r: &mut Punctuated<TokenReference>)
        ensures
            *r == old(self).name_list,
            final(self).name_list == *final(r),
            final(self).local_token == old(self).local_token,
            final(self).equal_token == old(self).equal_token,
            final(self).expr_list == old(self).expr_list,
    {
        &mut self.name_list
    }
}

impl FunctionCall {
    /// The prefix of the call, the `call` of `call()`.
    pub fn prefix(&self) -> (r: &Prefix)
        ensures
            r == self.prefix,
    {
        &self.prefix
    }

    /// The suffixes of the call, the `()` of `call()`, in order.
    pub fn iter_suffixes(&self) -> (r: Vec<&Suffix>)
        ensures
            r@.len() == self.suffixes@.len(),
            forall|i: int| 0 <= i < r@.len() ==> r@[i] == #[trigger] self.suffixes@[i],
    {
        let mut v: Vec<&Suffix> = Vec::new();
        let mut i: usize = 0;
        while i < self.suffixes.len()
            invariant
                i <= self.suffixes@.len(),
                v@.len() == i,
                forall|k: int| 0 <= k < i ==> v@[k] == #[trigger] self.suffixes@[k],
            decreases self.suffixes@.len() - i,
        {
            v.push(&self.suffixes[i]);
            i = i + 1;
        }
        v
    }
}

impl FunctionName {
    /// The colon between the name and the method, the `:` of
    /// `function x:y() end`, if one exists.
    pub fn method_colon(&self) -> (r: Option<&TokenReference>)
        ensures
            match r {
                Some(t) => self.colon_name matches Some(q) && t == q.0,
                None => self.colon_name is None,
            },
    {
        match &self.colon_name {
            Some(p) => Some(&p.0),
            None => None,
        }
    }

    /// The method name, the `y` of `function x:y() end`, if one exists.
    pub fn method_name(&self) -> (r: Option<&TokenReference>)
        ensures
            match r {
                Some(t) => self.colon_name matches Some(q) && t == q.1,
                None => self.colon_name is None,
            },
    {
        match &self.colon_name {
            Some(p) => Some(&p.1),
            None => None,
        }
    }

    /// The names used when declaring the function, the `x.y.z` of
    /// `function x.y.z() end`.
    pub fn names(&self) -> (r: &Punctuated<TokenReference>)
        ensures
            r == self.names,
    {
        &self.names
    }
}

/// The raw text of one token reference.
pub open spec fn ref_text(r: TokenReference) -> Seq<char> {
    token_ref_text(r@)
}

/// The raw text of an optional token reference; nothing when absent.
pub open spec fn opt_ref_text(o: Option<TokenReference>) -> Seq<char> {
    match o {
        Some(r) => ref_text(r),
        None => Seq::empty(),
    }
}

/// The raw text of a binary operator.
pub open spec fn binop_text(op: BinOp) -> Seq<char> {
    match op {
        BinOp::And(t) => ref_text(t),
        BinOp::Caret(t) => ref_text(t),
        BinOp::GreaterThan(t) => ref_text(t),
        BinOp::GreaterThanEqual(t) => ref_text(t),
        BinOp::LessThan(t) => ref_text(t),
        BinOp::LessThanEqual(t) => ref_text(t),
        BinOp::Minus(t) => ref_text(t),
        BinOp::Or(t) => ref_text(t),
        BinOp::Percent(t) => ref_text(t),
        BinOp::Plus(t) => ref_text(t),
        BinOp::Slash(t) => ref_text(t),
        BinOp::Star(t) => ref_text(t),
        BinOp::TildeEqual(t) => ref_text(t),
        BinOp::TwoDots(t) => ref_text(t),
        BinOp::TwoEqual(t) => ref_text(t),
    }
}

/// The raw text of a unary operator.
pub open spec fn unop_text(op: UnOp) -> Seq<char> {
    match op {
        UnOp::Minus(t) => ref_text(t),
        UnOp::Not(t) => ref_text(t),
        UnOp::Hash(t) => ref_text(t),
    }
}

/// The raw text of a parameter.
pub open spec fn parameter_text(p: Parameter) -> Seq<char> {
    match p {
        Parameter::Ellipse(t) => ref_text(t),
        Parameter::Name(t) => ref_text(t),
    }
}

/// The raw text of a block: its statements with their separators, then its
/// last statement with its separator, if any.
pub open spec fn block_text(b: Block) -> Seq<char>
    decreases b, 2int, 0int,
{
    stmts_text_from(b.stmts@, 0) + match b.last_stmt {
        Some(p) => last_stmt_text(p.0) + opt_ref_text(p.1),
        None => Seq::empty(),
    }
}

/// The raw text of the statements from `i` on, each with its separator.
pub open spec fn stmts_text_from(s: Seq<(Stmt, Option<TokenReference>)>, i: int) -> Seq<char>
    decreases s, 1int, s.len() - i,
{
    if 0 <= i < s.len() {
        stmt_text(s[i].0) + opt_ref_text(s[i].1) + stmts_text_from(s, i + 1)
    } else {
        Seq::empty()
    }
}

/// The raw text of one statement.
pub open spec fn stmt_text(st: Stmt) -> Seq<char>
    decreases st, 2int, 0int,
{
    match st {
        Stmt::Assignment(a) => punct_vars_text(a.var_list.pairs@, 0) + ref_text(a.equal_token)
            + punct_exprs_text(a.expr_list.pairs@, 0),
        Stmt::Do(d) => ref_text(d.do_token) + block_text(d.block) + ref_text(d.end_token),
        Stmt::FunctionCall(f) => prefix_text(f.prefix) + suffixes_text_from(f.suffixes@, 0),
        Stmt::FunctionDeclaration(f) => ref_text(f.function_token) + funcname_text(f.name)
            + funcbody_text(f.body),
        Stmt::GenericFor(g) => ref_text(g.for_token) + punct_names_text(g.names.pairs@, 0)
            + ref_text(g.in_token) + punct_exprs_text(g.expr_list.pairs@, 0) + ref_text(g.do_token)
            + block_text(g.block) + ref_text(g.end_token),
        Stmt::If(f) => if_text(f),
        Stmt::LocalAssignment(l) => ref_text(l.local_token) + punct_names_text(l.name_list.pairs@, 0)
            + opt_ref_text(l.equal_token) + punct_exprs_text(l.expr_list.pairs@, 0),
        Stmt::LocalFunction(l) => ref_text(l.local_token) + ref_text(l.function_token) + ref_text(
            l.name,
        ) + funcbody_text(l.func_body),
        Stmt::NumericFor(n) => ref_text(n.for_token) + ref_text(n.index_variable) + ref_text(
            n.equal_token,
        ) + expr_text(n.start) + ref_text(n.start_end_comma) + expr_text(n.end) + opt_ref_text(
            n.end_step_comma,
        ) + match n.step {
            Some(e) => expr_text(e),
            None => Seq::empty(),
        } + ref_text(n.do_token) + block_text(n.block) + ref_text(n.end_token),
        Stmt::Repeat(r) => ref_text(r.repeat_token) + block_text(r.block) + ref_text(r.until_token)
            + expr_text(r.until),
        Stmt::While(w) => ref_text(w.while_token) + expr_text(w.condition) + ref_text(w.do_token)
            + block_text(w.block) + ref_text(w.end_token),
    }
}

/// The raw text of an if statement.
pub open spec fn if_text(f: If) -> Seq<char>
    decreases f, 2int, 0int,
{
    ref_text(f.if_token) + expr_text(f.condition) + ref_text(f.then_token) + block_text(f.block)
        + match f.else_if {
        Some(v) => elseifs_text_from(v@, 0),
        None => Seq::empty(),
    } + opt_ref_text(f.else_token) + match f.else_block {
        Some(b) => block_text(b),
        None => Seq::empty(),
    } + ref_text(f.end_token)
}

/// The raw text of the elseif branches from `i` on.
pub open spec fn elseifs_text_from(s: Seq<ElseIf>, i: int) -> Seq<char>
    decreases s, 1int, s.len() - i,
{
    if 0 <= i < s.len() {
        elseif_text(s[i]) + elseifs_text_from(s, i + 1)
    } else {
        Seq::empty()
    }
}

/// The raw text of one elseif branch.
pub open spec fn elseif_text(e: ElseIf) -> Seq<char>
    decreases e, 2int, 0int,
{
    ref_text(e.else_if_token) + expr_text(e.condition) + ref_text(e.then_token) + block_text(
        e.block,
    )
}

/// The raw text of a last statement.
pub open spec fn last_stmt_text(ls: LastStmt) -> Seq<char>
    decreases ls, 2int, 0int,
{
    match ls {
        LastStmt::Break(t) => ref_text(t),
        LastStmt::Return(r) => ref_text(r.token) + punct_exprs_text(r.return_values.pairs@, 0),
    }
}

/// The raw text of an expression.
pub open spec fn expr_text(e: Expression) -> Seq<char>
    decreases e, 2int, 0int,
{
    match e {
        Expression::Parentheses { contained, expression } => ref_text(contained.tokens.0)
            + expr_text(*expression) + ref_text(contained.tokens.1),
        Expression::UnaryOperator { unop, expression } => unop_text(unop) + expr_text(*expression),
        Expression::Value { value, binop } => value_text(*value) + match binop {
            Some(b) => binop_text(b.bin_op) + expr_text(*b.rhs),
            None => Seq::empty(),
        },
    }
}

/// The raw text of a value.
pub open spec fn value_text(v: Value) -> Seq<char>
    decreases v, 2int, 0int,
{
    match v {
        Value::Function((t, body)) => ref_text(t) + funcbody_text(body),
        Value::FunctionCall(f) => prefix_text(f.prefix) + suffixes_text_from(f.suffixes@, 0),
        Value::TableConstructor(t) => table_text(t),
        Value::Number(t) => ref_text(t),
        Value::ParseExpression(e) => expr_text(e),
        Value::String(t) => ref_text(t),
        Value::Symbol(t) => ref_text(t),
        Value::Var(var) => var_text(var),
    }
}

/// The raw text of a variable.
pub open spec fn var_text(v: Var) -> Seq<char>
    decreases v, 2int, 0int,
{
    match v {
        Var::Expression(ve) => prefix_text(ve.prefix) + suffixes_text_from(ve.suffixes@, 0),
        Var::Name(t) => ref_text(t),
    }
}

/// The raw text of a prefix.
pub open spec fn prefix_text(p: Prefix) -> Seq<char>
    decreases p, 2int, 0int,
{
    match p {
        Prefix::Expression(e) => expr_text(e),
        Prefix::Name(t) => ref_text(t),
    }
}

/// The raw text of the suffixes from `i` on.
pub open spec fn suffixes_text_from(s: Seq<Suffix>, i: int) -> Seq<char>
    decreases s, 1int, s.len() - i,
{
    if 0 <= i < s.len() {
        suffix_text(s[i]) + suffixes_text_from(s, i + 1)
    } else {
        Seq::empty()
    }
}

/// The raw text of one suffix.
pub open spec fn suffix_text(sf: Suffix) -> Seq<char>
    decreases sf, 2int, 0int,
{
    match sf {
        Suffix::Call(c) => call_text(c),
        Suffix::Index(ix) => index_text(ix),
    }
}

/// The raw text of a call suffix.
pub open spec fn call_text(c: Call) -> Seq<char>
    decreases c, 2int, 0int,
{
    match c {
        Call::AnonymousCall(a) => funcargs_text(a),
        Call::MethodCall(m) => ref_text(m.colon_token) + ref_text(m.name) + funcargs_text(m.args),
    }
}

/// The raw text of an index suffix.
pub open spec fn index_text(ix: Index) -> Seq<char>
    decreases ix, 2int, 0int,
{
    match ix {
        Index::Brackets { brackets, expression } => ref_text(brackets.tokens.0) + expr_text(
            expression,
        ) + ref_text(brackets.tokens.1),
        Index::Dot { dot, name } => ref_text(dot) + ref_text(name),
    }
}

/// The raw text of function-call arguments.
pub open spec fn funcargs_text(fa: FunctionArgs) -> Seq<char>
    decreases fa, 2int, 0int,
{
    match fa {
        FunctionArgs::Parentheses { arguments, parentheses } => ref_text(parentheses.tokens.0)
            + punct_exprs_text(arguments.pairs@, 0) + ref_text(parentheses.tokens.1),
        FunctionArgs::String(t) => ref_text(t),
        FunctionArgs::TableConstructor(t) => table_text(t),
    }
}

/// The raw text of a table constructor.
pub open spec fn table_text(tc: TableConstructor) -> Seq<char>
    decreases tc, 2int, 0int,
{
    ref_text(tc.braces.tokens.0) + fields_text_from(tc.fields@, 0) + ref_text(tc.braces.tokens.1)
}

/// The raw text of the table fields from `i` on, each with its separator.
pub open spec fn fields_text_from(s: Seq<(Field, Option<TokenReference>)>, i: int) -> Seq<char>
    decreases s, 1int, s.len() - i,
{
    if 0 <= i < s.len() {
        field_text(s[i].0) + opt_ref_text(s[i].1) + fields_text_from(s, i + 1)
    } else {
        Seq::empty()
    }
}

/// The raw text of one table field.
pub open spec fn field_text(f: Field) -> Seq<char>
    decreases f, 2int, 0int,
{
    match f {
        Field::ExpressionKey { brackets, key, equal, value } => ref_text(brackets.tokens.0)
            + expr_text(key) + ref_text(brackets.tokens.1) + ref_text(equal) + expr_text(value),
        Field::NameKey { key, equal, value } => ref_text(key) + ref_text(equal) + expr_text(value),
        Field::NoKey(e) => expr_text(e),
    }
}

/// The raw text of a function body.
pub open spec fn funcbody_text(fb: FunctionBody) -> Seq<char>
    decreases fb, 2int, 0int,
{
    ref_text(fb.parameters_parantheses.tokens.0) + punct_params_text(fb.parameters.pairs@, 0)
        + ref_text(fb.parameters_parantheses.tokens.1) + block_text(fb.block) + ref_text(
        fb.end_token,
    )
}

/// The raw text of a function name.
pub open spec fn funcname_text(fname: FunctionName) -> Seq<char>
    decreases fname, 2int, 0int,
{
    punct_names_text(fname.names.pairs@, 0) + match fname.colon_name {
        Some(p) => ref_text(p.0) + ref_text(p.1),
        None => Seq::empty(),
    }
}

/// The raw text of a punctuated list of expressions from `i` on.
pub open spec fn punct_exprs_text(s: Seq<Pair<Expression>>, i: int) -> Seq<char>
    decreases s, 1int, s.len() - i,
{
    if 0 <= i < s.len() {
        (match s[i] {
            Pair::End(e) => expr_text(e),
            Pair::Punctuated(e, sep) => expr_text(e) + ref_text(sep),
        }) + punct_exprs_text(s, i + 1)
    } else {
        Seq::empty()
    }
}

/// The raw text of a punctuated list of names from `i` on.
pub open spec fn punct_names_text(s: Seq<Pair<TokenReference>>, i: int) -> Seq<char>
    decreases s, 1int, s.len() - i,
{
    if 0 <= i < s.len() {
        (match s[i] {
            Pair::End(t) => ref_text(t),
            Pair::Punctuated(t, sep) => ref_text(t) + ref_text(sep),
        }) + punct_names_text(s, i + 1)
    } else {
        Seq::empty()
    }
}

/// The raw text of a punctuated list of variables from `i` on.
pub open spec fn punct_vars_text(s: Seq<Pair<Var>>, i: int) -> Seq<char>
    decreases s, 1int, s.len() - i,
{
    if 0 <= i < s.len() {
        (match s[i] {
            Pair::End(v) => var_text(v),
            Pair::Punctuated(v, sep) => var_text(v) + ref_text(sep),
        }) + punct_vars_text(s, i + 1)
    } else {
        Seq::empty()
    }
}

/// The raw text of a punctuated list of parameters from `i` on.
pub open spec fn punct_params_text(s: Seq<Pair<Parameter>>, i: int) -> Seq<char>
    decreases s, 1int, s.len() - i,
{
    if 0 <= i < s.len() {
        (match s[i] {
            Pair::End(p) => parameter_text(p),
            Pair::Punctuated(p, sep) => parameter_text(p) + ref_text(sep),
        }) + punct_params_text(s, i + 1)
    } else {
        Seq::empty()
    }
}

/// The concatenated raw text of the references `refs[a..b]`.
pub open spec fn range_text(refs: Seq<TokenReference>, a: int, b: int) -> Seq<char>
    decreases b - a,
{
    if a < b {
        token_ref_text(refs[a]@) + range_text(refs, a + 1, b)
    } else {
        Seq::empty()
    }
}

/// Range text concatenates over adjacent ranges.
pub proof fn lemma_range_text_concat(refs: Seq<TokenReference>, a: int, b: int, c: int)
    requires
        a <= b <= c,
    ensures
        range_text(refs, a, b) + range_text(refs, b, c) == range_text(refs, a, c),
    decreases b - a,
{
    if a < b {
        lemma_range_text_concat(refs, a + 1, b, c);
        assert(token_ref_text(refs[a]@) + (range_text(refs, a + 1, b) + range_text(refs, b, c))
            =~= (token_ref_text(refs[a]@) + range_text(refs, a + 1, b)) + range_text(refs, b, c));
    } else {
        assert(range_text(refs, a, b) + range_text(refs, b, c) =~= range_text(refs, b, c));
    }
}

/// The text of a single reference as a range.
pub proof fn lemma_range_text_one(refs: Seq<TokenReference>, a: int)
    ensures
        range_text(refs, a, a + 1) == token_ref_text(refs[a]@),
{
    assert(range_text(refs, a, a + 1) =~= token_ref_text(refs[a]@) + range_text(refs, a + 1, a + 1));
    assert(token_ref_text(refs[a]@) + Seq::<char>::empty() =~= token_ref_text(refs[a]@));
}

/// From `i` to the end, range text is the concatenated text of the reference
/// views.
pub proof fn lemma_range_text_is_refs_text(refs: Seq<TokenReference>, i: int)
    requires
        0 <= i <= refs.len(),
    ensures
        range_text(refs, i, refs.len() as int) == refs_text(
            refs_view(refs).subrange(i, refs.len() as int),
        ),
    decreases refs.len() - i,
{
    if i < refs.len() {
        lemma_range_text_is_refs_text(refs, i + 1);
        let models = refs_view(refs).subrange(i, refs.len() as int);
        assert(models[0] == refs[i]@);
        assert(models.drop_first() =~= refs_view(refs).subrange(i + 1, refs.len() as int));
    } else {
        assert(refs_view(refs).subrange(i, refs.len() as int) =~= Seq::<TokenRefModel>::empty());
    }
}

/// Whether a reference's token is the given symbol.
pub open spec fn ref_symbol(r: TokenReference, s: Symbol) -> bool {
    r.token.token_type@ matches TokenTypeModel::Symbol { symbol } && symbol == s
}

/// Whether a reference's token is an identifier.
pub open spec fn ref_is_identifier(r: TokenReference) -> bool {
    r.token.token_type@ is Identifier
}

/// Whether a reference's token is a number literal.
pub open spec fn ref_is_number(r: TokenReference) -> bool {
    r.token.token_type@ is Number
}

/// Whether a reference's token is a string literal.
pub open spec fn ref_is_string(r: TokenReference) -> bool {
    r.token.token_type@ is StringLiteral
}

/// Whether a reference's token is the end-of-file token.
pub open spec fn ref_is_eof(r: TokenReference) -> bool {
    r.token.token_type@ is Eof
}

/// Whether a reference's token is a keyword that commits the parser to one
/// statement form: `do`, `while`, `repeat`, `if`, `for`, `function` or
/// `local`.
pub open spec fn starts_keyword_stmt(r: TokenReference) -> bool {
    ||| ref_symbol(r, Symbol::Do)
    ||| ref_symbol(r, Symbol::While)
    ||| ref_symbol(r, Symbol::Repeat)
    ||| ref_symbol(r, Symbol::If)
    ||| ref_symbol(r, Symbol::For)
    ||| ref_symbol(r, Symbol::Function)
    ||| ref_symbol(r, Symbol::Local)
}

/// Whether an optional statement separator is a semicolon token.
pub open spec fn opt_semicolon_wf(o: Option<TokenReference>) -> bool {
    match o {
        Some(t) => ref_symbol(t, Symbol::Semicolon),
        None => true,
    }
}

/// Well-formedness of a parsed block: every statement is well formed and
/// every separator after one is a semicolon.
pub open spec fn block_wf(b: Block) -> bool
    decreases b, 2int, 0int,
{
    &&& (forall|i: int|
        0 <= i < b.stmts@.len() ==> stmt_wf((#[trigger] b.stmts@[i]).0) && opt_semicolon_wf(
            b.stmts@[i].1,
        ))
    &&& match b.last_stmt {
        Some(p) => last_stmt_wf(p.0) && opt_semicolon_wf(p.1),
        None => true,
    }
}

/// Well-formedness of a parsed statement: the fixed keyword and symbol
/// tokens of each form are what the grammar demands, the lists are
/// non-empty where the grammar demands one item, and every part is well
/// formed in turn.
pub open spec fn stmt_wf(st: Stmt) -> bool
    decreases st, 2int, 0int,
{
    match st {
        Stmt::Assignment(a) => {
            &&& punct_vars_wf(a.var_list.pairs@)
            &&& a.var_list.pairs@.len() >= 1
            &&& ref_symbol(a.equal_token, Symbol::Equal)
            &&& punct_exprs_wf(a.expr_list.pairs@)
            &&& a.expr_list.pairs@.len() >= 1
        },
        Stmt::Do(d) => ref_symbol(d.do_token, Symbol::Do) && block_wf(d.block) && ref_symbol(
            d.end_token,
            Symbol::End,
        ),
        Stmt::FunctionCall(f) => functioncall_wf(f),
        Stmt::FunctionDeclaration(f) => ref_symbol(f.function_token, Symbol::Function)
            && funcname_wf(f.name) && funcbody_wf(f.body),
        Stmt::GenericFor(g) => {
            &&& ref_symbol(g.for_token, Symbol::For)
            &&& punct_names_wf(g.names.pairs@, Symbol::Comma)
            &&& g.names.pairs@.len() >= 1
            &&& ref_symbol(g.in_token, Symbol::In)
            &&& punct_exprs_wf(g.expr_list.pairs@)
            &&& g.expr_list.pairs@.len() >= 1
            &&& ref_symbol(g.do_token, Symbol::Do)
            &&& block_wf(g.block)
            &&& ref_symbol(g.end_token, Symbol::End)
        },
        Stmt::If(f) => if_wf(f),
        Stmt::LocalAssignment(l) => {
            &&& ref_symbol(l.local_token, Symbol::Local)
            &&& punct_names_wf(l.name_list.pairs@, Symbol::Comma)
            &&& l.name_list.pairs@.len() >= 1
            &&& match l.equal_token {
                Some(t) => ref_symbol(t, Symbol::Equal) && punct_exprs_wf(l.expr_list.pairs@)
                    && l.expr_list.pairs@.len() >= 1,
                None => l.expr_list.pairs@.len() == 0,
            }
        },
        Stmt::LocalFunction(l) => ref_symbol(l.local_token, Symbol::Local) && ref_symbol(
            l.function_token,
            Symbol::Function,
        ) && ref_is_identifier(l.name) && funcbody_wf(l.func_body),
        Stmt::NumericFor(n) => {
            &&& ref_symbol(n.for_token, Symbol::For)
            &&& ref_is_identifier(n.index_variable)
            &&& ref_symbol(n.equal_token, Symbol::Equal)
            &&& expr_wf(n.start)
            &&& ref_symbol(n.start_end_comma, Symbol::Comma)
            &&& expr_wf(n.end)
            &&& (n.end_step_comma is Some <==> n.step is Some)
            &&& match n.end_step_comma {
                Some(t) => ref_symbol(t, Symbol::Comma),
                None => true,
            }
            &&& match n.step {
                Some(e) => expr_wf(e),
                None => true,
            }
            &&& ref_symbol(n.do_token, Symbol::Do)
            &&& block_wf(n.block)
            &&& ref_symbol(n.end_token, Symbol::End)
        },
        Stmt::Repeat(rp) => ref_symbol(rp.repeat_token, Symbol::Repeat) && block_wf(rp.block)
            && ref_symbol(rp.until_token, Symbol::Until) && expr_wf(rp.until),
        Stmt::While(w) => ref_symbol(w.while_token, Symbol::While) && expr_wf(w.condition)
            && ref_symbol(w.do_token, Symbol::Do) && block_wf(w.block) && ref_symbol(
            w.end_token,
            Symbol::End,
        ),
    }
}

/// Well-formedness of a parsed if statement, its branches included; an
/// `else` token stands exactly when an `else` block does.
pub open spec fn if_wf(f: If) -> bool
    decreases f, 2int, 0int,
{
    &&& ref_symbol(f.if_token, Symbol::If)
    &&& expr_wf(f.condition)
    &&& ref_symbol(f.then_token, Symbol::Then)
    &&& block_wf(f.block)
    &&& match f.else_if {
        Some(v) => v@.len() >= 1 && (forall|i: int|
            0 <= i < v@.len() ==> elseif_wf(#[trigger] v@[i])),
        None => true,
    }
    &&& (f.else_token is Some <==> f.else_block is Some)
    &&& match f.else_token {
        Some(t) => ref_symbol(t, Symbol::Else),
        None => true,
    }
    &&& match f.else_block {
        Some(b) => block_wf(b),
        None => true,
    }
    &&& ref_symbol(f.end_token, Symbol::End)
}

/// Well-formedness of one elseif branch.
pub open spec fn elseif_wf(e: ElseIf) -> bool
    decreases e, 2int, 0int,
{
    &&& ref_symbol(e.else_if_token, Symbol::ElseIf)
    &&& expr_wf(e.condition)
    &&& ref_symbol(e.then_token, Symbol::Then)
    &&& block_wf(e.block)
}

/// Well-formedness of a parsed last statement.
pub open spec fn last_stmt_wf(ls: LastStmt) -> bool
    decreases ls, 2int, 0int,
{
    match ls {
        LastStmt::Break(t) => ref_symbol(t, Symbol::Break),
        LastStmt::Return(ret) => ref_symbol(ret.token, Symbol::Return) && punct_exprs_wf(
            ret.return_values.pairs@,
        ),
    }
}

/// Well-formedness of a parsed expression.
pub open spec fn expr_wf(e: Expression) -> bool
    decreases e, 2int, 0int,
{
    match e {
        Expression::Parentheses { contained, expression } => ref_symbol(
            contained.tokens.0,
            Symbol::LeftParen,
        ) && expr_wf(*expression) && ref_symbol(contained.tokens.1, Symbol::RightParen),
        Expression::UnaryOperator { unop, expression } => unop_wf(unop) && expr_wf(*expression),
        Expression::Value { value, binop } => value_wf(*value) && match binop {
            Some(b) => binop_wf(b.bin_op) && expr_wf(*b.rhs),
            None => true,
        },
    }
}

/// Well-formedness of a parsed value: literal values hold tokens of their
/// kind, and a lone symbol is one of `true`, `false`, `nil` or `...`.
pub open spec fn value_wf(v: Value) -> bool
    decreases v, 2int, 0int,
{
    match v {
        Value::Function((t, body)) => ref_symbol(t, Symbol::Function) && funcbody_wf(body),
        Value::FunctionCall(f) => functioncall_wf(f),
        Value::TableConstructor(t) => table_wf(t),
        Value::Number(t) => ref_is_number(t),
        Value::ParseExpression(e) => (e is Parentheses) && expr_wf(e),
        Value::String(t) => ref_is_string(t),
        Value::Symbol(t) => ref_symbol(t, Symbol::True) || ref_symbol(t, Symbol::False)
            || ref_symbol(t, Symbol::Nil) || ref_symbol(t, Symbol::Ellipse),
        Value::Var(var) => var_wf(var),
    }
}

/// Well-formedness of a parsed variable: a name is an identifier, and a
/// variable expression's suffixes end in an index.
pub open spec fn var_wf(v: Var) -> bool
    decreases v, 2int, 0int,
{
    match v {
        Var::Expression(ve) => {
            &&& prefix_wf(ve.prefix)
            &&& suffixes_wf(ve.suffixes@)
            &&& ve.suffixes@.len() >= 1
            &&& ve.suffixes@[ve.suffixes@.len() - 1] is Index
        },
        Var::Name(t) => ref_is_identifier(t),
    }
}

/// Well-formedness of a parsed standalone call: at least one suffix, the
/// last of which is a call.
pub open spec fn functioncall_wf(f: FunctionCall) -> bool
    decreases f, 2int, 0int,
{
    &&& prefix_wf(f.prefix)
    &&& suffixes_wf(f.suffixes@)
    &&& f.suffixes@.len() >= 1
    &&& f.suffixes@[f.suffixes@.len() - 1] is Call
}

/// Well-formedness of a parsed prefix: a name is an identifier, and a
/// prefix expression is parenthesised.
pub open spec fn prefix_wf(p: Prefix) -> bool
    decreases p, 2int, 0int,
{
    match p {
        Prefix::Expression(e) => (e is Parentheses) && expr_wf(e),
        Prefix::Name(t) => ref_is_identifier(t),
    }
}

/// Well-formedness of every suffix of a run.
pub open spec fn suffixes_wf(s: Seq<Suffix>) -> bool
    decreases s, 1int, 0int,
{
    forall|i: int| 0 <= i < s.len() ==> suffix_wf(#[trigger] s[i])
}

/// Well-formedness of one suffix.
pub open spec fn suffix_wf(sf: Suffix) -> bool
    decreases sf, 2int, 0int,
{
    match sf {
        Suffix::Call(c) => call_wf(c),
        Suffix::Index(ix) => index_wf(ix),
    }
}

/// Well-formedness of a parsed call suffix: a method call carries its colon
/// and an identifier name.
pub open spec fn call_wf(c: Call) -> bool
    decreases c, 2int, 0int,
{
    match c {
        Call::AnonymousCall(fa) => funcargs_wf(fa),
        Call::MethodCall(m) => ref_symbol(m.colon_token, Symbol::Colon) && ref_is_identifier(
            m.name,
        ) && funcargs_wf(m.args),
    }
}

/// Well-formedness of a parsed index suffix.
pub open spec fn index_wf(ix: Index) -> bool
    decreases ix, 2int, 0int,
{
    match ix {
        Index::Brackets { brackets, expression } => ref_symbol(
            brackets.tokens.0,
            Symbol::LeftBracket,
        ) && expr_wf(expression) && ref_symbol(brackets.tokens.1, Symbol::RightBracket),
        Index::Dot { dot, name } => ref_symbol(dot, Symbol::Dot) && ref_is_identifier(name),
    }
}

/// Well-formedness of parsed call arguments.
pub open spec fn funcargs_wf(fa: FunctionArgs) -> bool
    decreases fa, 2int, 0int,
{
    match fa {
        FunctionArgs::Parentheses { arguments, parentheses } => ref_symbol(
            parentheses.tokens.0,
            Symbol::LeftParen,
        ) && punct_exprs_wf(arguments.pairs@) && ref_symbol(
            parentheses.tokens.1,
            Symbol::RightParen,
        ),
        FunctionArgs::String(t) => ref_is_string(t),
        FunctionArgs::TableConstructor(t) => table_wf(t),
    }
}

/// Well-formedness of a parsed table constructor: real braces around well
/// formed fields, every field except possibly the last followed by a comma
/// or a semicolon.
pub open spec fn table_wf(tc: TableConstructor) -> bool
    decreases tc, 2int, 0int,
{
    &&& ref_symbol(tc.braces.tokens.0, Symbol::LeftBrace)
    &&& (forall|i: int|
        0 <= i < tc.fields@.len() ==> field_wf((#[trigger] tc.fields@[i]).0) && (match tc
            .fields@[i].1 {
            Some(t) => ref_symbol(t, Symbol::Comma) || ref_symbol(t, Symbol::Semicolon),
            None => i == tc.fields@.len() - 1,
        }))
    &&& ref_symbol(tc.braces.tokens.1, Symbol::RightBrace)
}

/// Well-formedness of one table field.
pub open spec fn field_wf(f: Field) -> bool
    decreases f, 2int, 0int,
{
    match f {
        Field::ExpressionKey { brackets, key, equal, value } => ref_symbol(
            brackets.tokens.0,
            Symbol::LeftBracket,
        ) && expr_wf(key) && ref_symbol(brackets.tokens.1, Symbol::RightBracket) && ref_symbol(
            equal,
            Symbol::Equal,
        ) && expr_wf(value),
        Field::NameKey { key, equal, value } => ref_is_identifier(key) && ref_symbol(
            equal,
            Symbol::Equal,
        ) && expr_wf(value),
        Field::NoKey(e) => expr_wf(e),
    }
}

/// Well-formedness of a parsed function body: real parentheses around well
/// formed parameters, and the `end` keyword after the block.
pub open spec fn funcbody_wf(fb: FunctionBody) -> bool
    decreases fb, 2int, 0int,
{
    &&& ref_symbol(fb.parameters_parantheses.tokens.0, Symbol::LeftParen)
    &&& punct_params_wf(fb.parameters.pairs@)
    &&& ref_symbol(fb.parameters_parantheses.tokens.1, Symbol::RightParen)
    &&& block_wf(fb.block)
    &&& ref_symbol(fb.end_token, Symbol::End)
}

/// Well-formedness of a parsed function name: a non-empty dot-separated
/// path of identifiers, and, when a method is named, the colon and an
/// identifier.
pub open spec fn funcname_wf(fname: FunctionName) -> bool
    decreases fname, 2int, 0int,
{
    &&& punct_names_wf(fname.names.pairs@, Symbol::Dot)
    &&& fname.names.pairs@.len() >= 1
    &&& match fname.colon_name {
        Some(p) => ref_symbol(p.0, Symbol::Colon) && ref_is_identifier(p.1),
        None => true,
    }
}

/// Well-formedness of a parsed binary operator: each variant holds the
/// token of its own symbol.
pub open spec fn binop_wf(op: BinOp) -> bool {
    match op {
        BinOp::And(t) => ref_symbol(t, Symbol::And),
        BinOp::Caret(t) => ref_symbol(t, Symbol::Caret),
        BinOp::GreaterThan(t) => ref_symbol(t, Symbol::GreaterThan),
        BinOp::GreaterThanEqual(t) => ref_symbol(t, Symbol::GreaterThanEqual),
        BinOp::LessThan(t) => ref_symbol(t, Symbol::LessThan),
        BinOp::LessThanEqual(t) => ref_symbol(t, Symbol::LessThanEqual),
        BinOp::Minus(t) => ref_symbol(t, Symbol::Minus),
        BinOp::Or(t) => ref_symbol(t, Symbol::Or),
        BinOp::Percent(t) => ref_symbol(t, Symbol::Percent),
        BinOp::Plus(t) => ref_symbol(t, Symbol::Plus),
        BinOp::Slash(t) => ref_symbol(t, Symbol::Slash),
        BinOp::Star(t) => ref_symbol(t, Symbol::Star),
        BinOp::TildeEqual(t) => ref_symbol(t, Symbol::TildeEqual),
        BinOp::TwoDots(t) => ref_symbol(t, Symbol::TwoDots),
        BinOp::TwoEqual(t) => ref_symbol(t, Symbol::TwoEqual),
    }
}

/// Well-formedness of a parsed unary operator.
pub open spec fn unop_wf(op: UnOp) -> bool {
    match op {
        UnOp::Minus(t) => ref_symbol(t, Symbol::Minus),
        UnOp::Not(t) => ref_symbol(t, Symbol::Not),
        UnOp::Hash(t) => ref_symbol(t, Symbol::Hash),
    }
}

/// Well-formedness of a parsed parameter: an identifier, or the `...`
/// symbol.
pub open spec fn parameter_wf(p: Parameter) -> bool {
    match p {
        Parameter::Ellipse(t) => ref_symbol(t, Symbol::Ellipse),
        Parameter::Name(t) => ref_is_identifier(t),
    }
}

/// Well-formedness of a parsed expression list: items well formed, commas
/// between them, no trailing separator — exactly the last entry lacks one.
pub open spec fn punct_exprs_wf(s: Seq<Pair<Expression>>) -> bool
    decreases s, 1int, 0int,
{
    forall|i: int|
        0 <= i < s.len() ==> match #[trigger] s[i] {
            Pair::End(e) => expr_wf(e) && i == s.len() - 1,
            Pair::Punctuated(e, sep) => expr_wf(e) && ref_symbol(sep, Symbol::Comma) && i < s.len()
                - 1,
        }
}

/// Well-formedness of a parsed name list: identifiers with the given
/// separator symbol between them, no trailing separator.
pub open spec fn punct_names_wf(s: Seq<Pair<TokenReference>>, sep: Symbol) -> bool {
    forall|i: int|
        0 <= i < s.len() ==> match #[trigger] s[i] {
            Pair::End(t) => ref_is_identifier(t) && i == s.len() - 1,
            Pair::Punctuated(t, p) => ref_is_identifier(t) && ref_symbol(p, sep) && i < s.len()
                - 1,
        }
}

/// Well-formedness of a parsed variable list: variables with commas between
/// them, no trailing separator.
pub open spec fn punct_vars_wf(s: Seq<Pair<Var>>) -> bool
    decreases s, 1int, 0int,
{
    forall|i: int|
        0 <= i < s.len() ==> match #[trigger] s[i] {
            Pair::End(v) => var_wf(v) && i == s.len() - 1,
            Pair::Punctuated(v, p) => var_wf(v) && ref_symbol(p, Symbol::Comma) && i < s.len() - 1,
        }
}

/// Well-formedness of a parsed parameter list: parameters with commas
/// between them, no trailing separator.
pub open spec fn punct_params_wf(s: Seq<Pair<Parameter>>) -> bool {
    forall|i: int|
        0 <= i < s.len() ==> match #[trigger] s[i] {
            Pair::End(q) => parameter_wf(q) && i == s.len() - 1,
            Pair::Punctuated(q, p) => parameter_wf(q) && ref_symbol(p, Symbol::Comma) && i < s.len()
                - 1,
        }
}

/// Trivia that ends a run of trailing trivia: whitespace that spans a
/// newline.  It and everything after it belong to the next reference's
/// leading trivia.
pub open spec fn is_trailing_break(t: TokenModel) -> bool {
    match t.token_type {
        TokenTypeModel::Whitespace { characters } => characters.contains('\n'),
        _ => false,
    }
}

/// Whether a token model is trivia.
pub open spec fn model_is_trivia(t: TokenModel) -> bool {
    spec_is_trivia(t.token_type)
}

/// The index of the first significant token at or after `i`, if any.
pub open spec fn next_significant(toks: Seq<TokenModel>, i: int) -> Option<int>
    recommends
        0 <= i,
    decreases toks.len() - i,
{
    if i >= toks.len() {
        None
    } else if !model_is_trivia(toks[i]) {
        Some(i)
    } else {
        next_significant(toks, i + 1)
    }
}

/// The end of the run of trailing trivia starting at `j`: the first index
/// holding a significant token or a whitespace trivia that spans a newline.
pub open spec fn scan_trailing(toks: Seq<TokenModel>, j: int) -> int
    recommends
        0 <= j,
    decreases toks.len() - j,
{
    if j < toks.len() && model_is_trivia(toks[j]) && !is_trailing_break(toks[j]) {
        scan_trailing(toks, j + 1)
    } else {
        j
    }
}

/// The token references read from `toks[i..]`: for each significant token,
/// the trivia since the previous reference as leading trivia and the trivia
/// up to the first newline-spanning whitespace as trailing trivia.  Trivia
/// after the last significant token is dropped; a token sequence ending in
/// an end-of-file token never has any.
pub open spec fn spec_extract_from(toks: Seq<TokenModel>, i: int) -> Seq<TokenRefModel>
    recommends
        0 <= i,
    decreases toks.len() - i,
{
    if i >= toks.len() {
        Seq::empty()
    } else {
        match next_significant(toks, i) {
            None => Seq::empty(),
            Some(k) => {
                let m = scan_trailing(toks, k + 1);
                let next = if i < m && m <= toks.len() {
                    m
                } else {
                    i + 1
                };
                let r = TokenRefModel {
                    leading_trivia: toks.subrange(i, k),
                    token: toks[k],
                    trailing_trivia: toks.subrange(k + 1, m),
                };
                seq![r] + spec_extract_from(toks, next)
            },
        }
    }
}

/// The token references of a whole token sequence.
pub open spec fn spec_extract(toks: Seq<TokenModel>) -> Seq<TokenRefModel> {
    spec_extract_from(toks, 0)
}

/// Where the first significant token stands: at or after `i`, with only
/// trivia before it.
pub proof fn lemma_next_significant(toks: Seq<TokenModel>, i: int)
    requires
        0 <= i,
    ensures
        next_significant(toks, i) matches Some(k) ==> i <= k < toks.len() && !model_is_trivia(
            toks[k],
        ) && (forall|j: int| i <= j < k ==> model_is_trivia(#[trigger] toks[j])),
        next_significant(toks, i) is None ==> forall|j: int|
            i <= j < toks.len() ==> model_is_trivia(#[trigger] toks[j]),
    decreases toks.len() - i,
{
    if i < toks.len() && model_is_trivia(toks[i]) {
        lemma_next_significant(toks, i + 1);
    }
}

/// What a run of trailing trivia holds: trivia only, none of it a
/// newline-spanning whitespace.
pub proof fn lemma_scan_trailing(toks: Seq<TokenModel>, j: int)
    requires
        0 <= j,
    ensures
        j <= scan_trailing(toks, j),
        scan_trailing(toks, j) <= toks.len() || j > toks.len(),
        forall|k: int|
            j <= k < scan_trailing(toks, j) ==> model_is_trivia(#[trigger] toks[k])
                && !is_trailing_break(toks[k]),
    decreases toks.len() - j,
{
    if j < toks.len() && model_is_trivia(toks[j]) && !is_trailing_break(toks[j]) {
        lemma_scan_trailing(toks, j + 1);
    }
}

/// The trivia partition invariant: in every reference produced by trivia
/// attachment, the leading and trailing parts hold trivia only, the token is
/// significant, and no trailing element is a whitespace spanning a newline.
pub proof fn lemma_extract_partition(toks: Seq<TokenModel>, i: int)
    requires
        0 <= i,
    ensures
        forall|r: int|
            0 <= r < spec_extract_from(toks, i).len() ==> {
                let rf = #[trigger] spec_extract_from(toks, i)[r];
                &&& !model_is_trivia(rf.token)
                &&& (forall|k: int|
                    0 <= k < rf.leading_trivia.len() ==> model_is_trivia(
                        #[trigger] rf.leading_trivia[k],
                    ))
                &&& (forall|k: int|
                    0 <= k < rf.trailing_trivia.len() ==> model_is_trivia(
                        #[trigger] rf.trailing_trivia[k],
                    ) && !is_trailing_break(rf.trailing_trivia[k]))
            },
    decreases toks.len() - i,
{
    if i < toks.len() {
        match next_significant(toks, i) {
            None => {},
            Some(k) => {
                lemma_next_significant(toks, i);
                lemma_scan_trailing(toks, k + 1);
                let m = scan_trailing(toks, k + 1);
                let next = if i < m && m <= toks.len() {
                    m
                } else {
                    i + 1
                };
                lemma_extract_partition(toks, next);
                let first = TokenRefModel {
                    leading_trivia: toks.subrange(i, k),
                    token: toks[k],
                    trailing_trivia: toks.subrange(k + 1, m),
                };
                let rest = spec_extract_from(toks, next);
                assert(spec_extract_from(toks, i) == seq![first] + rest);
                assert(forall|r: int|
                    1 <= r < spec_extract_from(toks, i).len() ==> #[trigger] spec_extract_from(
                        toks,
                        i,
                    )[r] == rest[r - 1]);
            },
        }
    }
}

/// Trivia attachment is lossless: when the sequence ends in a significant
/// token (as every tokenizer output does, with its end-of-file token), the
/// concatenated text of the references is the concatenated text of the
/// tokens.
pub proof fn lemma_extract_text(toks: Seq<TokenModel>, i: int)
    requires
        0 <= i <= toks.len(),
        toks.len() > 0 ==> !model_is_trivia(toks[toks.len() - 1]),
    ensures
        refs_text(spec_extract_from(toks, i)) == tokens_text(
            toks.subrange(i, toks.len() as int),
        ),
    decreases toks.len() - i,
{
    if i >= toks.len() {
        assert(toks.subrange(i, toks.len() as int) =~= Seq::<TokenModel>::empty());
    } else {
        match next_significant(toks, i) {
            None => {
                lemma_next_significant(toks, i);
                assert(model_is_trivia(toks[toks.len() - 1]));
                assert(false);
            },
            Some(k) => {
                lemma_next_significant(toks, i);
                lemma_scan_trailing(toks, k + 1);
                let m = scan_trailing(toks, k + 1);
                assert(m <= toks.len());
                let next = if i < m && m <= toks.len() {
                    m
                } else {
                    i + 1
                };
                assert(next == m);
                lemma_extract_text(toks, m);
                let first = TokenRefModel {
                    leading_trivia: toks.subrange(i, k),
                    token: toks[k],
                    trailing_trivia: toks.subrange(k + 1, m),
                };
                let rest = spec_extract_from(toks, m);
                lemma_refs_text_add(seq![first], rest);
                assert(seq![first].drop_first() =~= Seq::<TokenRefModel>::empty());
                assert(refs_text(seq![first]) == token_ref_text(first) + refs_text(
                    seq![first].drop_first(),
                ));
                assert(refs_text(seq![first]) =~= token_ref_text(first));
                lemma_token_ref_text_split(toks, i, k, m);
                assert(tokens_text(toks.subrange(i, m)) + tokens_text(
                    toks.subrange(m, toks.len() as int),
                ) =~= tokens_text(toks.subrange(i, toks.len() as int))) by {
                    lemma_tokens_text_add(toks.subrange(i, m), toks.subrange(m, toks.len() as int));
                    assert(toks.subrange(i, m) + toks.subrange(m, toks.len() as int) =~= toks
                        .subrange(i, toks.len() as int));
                }
            },
        }
    }
}

/// The text of one reference is the text of the token range it was built
/// from.
proof fn lemma_token_ref_text_split(toks: Seq<TokenModel>, i: int, k: int, m: int)
    requires
        0 <= i <= k < m <= toks.len(),
    ensures
        token_ref_text(
            TokenRefModel {
                leading_trivia: toks.subrange(i, k),
                token: toks[k],
                trailing_trivia: toks.subrange(k + 1, m),
            },
        ) == tokens_text(toks.subrange(i, m)),
{
    let lead = toks.subrange(i, k);
    let mid = seq![toks[k]];
    let trail = toks.subrange(k + 1, m);
    lemma_tokens_text_add(lead, mid + trail);
    lemma_tokens_text_add(mid, trail);
    assert(lead + (mid + trail) =~= toks.subrange(i, m));
    assert(mid.drop_first() =~= Seq::<TokenModel>::empty());
    assert(tokens_text(mid) == token_text(toks[k]) + tokens_text(mid.drop_first()));
    assert(tokens_text(mid) =~= token_text(toks[k]));
}

/// The executable twin of [`next_significant`].
fn next_significant_exec(toks: &Vec<Token>, i: usize) -> (r: Option<usize>)
    requires
        i <= toks@.len(),
    ensures
        match r {
            Some(k) => next_significant(tokens_view(toks@), i as int) == Some(k as int) && i <= k
                < toks@.len(),
            None => next_significant(tokens_view(toks@), i as int) is None,
        },
    decreases toks@.len() - i,
{
    if i >= toks.len() {
        None
    } else if !toks[i].token_type.is_trivia() {
        Some(i)
    } else {
        next_significant_exec(toks, i + 1)
    }
}

/// Whether a token is whitespace spanning a newline; the executable twin of
/// [`is_trailing_break`].
fn trailing_break(t: &Token) -> (r: bool)
    ensures
        r == is_trailing_break(t@),
{
    match &t.token_type {
        crate::tokenizer::TokenType::Whitespace { characters } => {
            let cs = crate::text::str_to_chars(characters.as_str());
            let mut i: usize = 0;
            let mut found = false;
            while i < cs.len()
                invariant
                    i <= cs@.len(),
                    cs@ == characters@,
                    found == exists|j: int| 0 <= j < i && cs@[j] == '\n',
                decreases cs@.len() - i,
            {
                if cs[i] == '\n' {
                    found = true;
                }
                i = i + 1;
            }
            proof {
                assert(found == characters@.contains('\n'));
            }
            found
        },
        _ => false,
    }
}

/// The executable twin of [`scan_trailing`].
fn scan_trailing_exec(toks: &Vec<Token>, j: usize) -> (r: usize)
    requires
        j <= toks@.len(),
    ensures
        r == scan_trailing(tokens_view(toks@), j as int),
        j <= r <= toks@.len(),
    decreases toks@.len() - j,
{
    if j < toks.len() && toks[j].token_type.is_trivia() && !trailing_break(&toks[j]) {
        scan_trailing_exec(toks, j + 1)
    } else {
        j
    }
}

/// Builds a vector holding clones of `toks[i..k]`.
fn clone_range(toks: &Vec<Token>, i: usize, k: usize) -> (r: Vec<Token>)
    requires
        i <= k <= toks@.len(),
    ensures
        r@.len() == k - i,
        forall|j: int| 0 <= j < k - i ==> r@[j] == toks@[i + j],
{
    let mut v: Vec<Token> = Vec::new();
    let mut j = i;
    while j < k
        invariant
            i <= j <= k <= toks@.len(),
            v@.len() == j - i,
            forall|q: int| 0 <= q < j - i ==> v@[q] == toks@[i + q],
        decreases k - j,
    {
        v.push(toks[j].clone());
        j = j + 1;
    }
    v
}

/// Attaches trivia from `toks[i..]` on, the executable twin of
/// [`spec_extract_from`].
fn extract_from(toks: &Vec<Token>, i: usize) -> (r: Vec<TokenReference>)
    requires
        i <= toks@.len(),
    ensures
        refs_view(r@) == spec_extract_from(tokens_view(toks@), i as int),
    decreases toks@.len() - i,
{
    let ghost s = tokens_view(toks@);
    if i >= toks.len() {
        let v: Vec<TokenReference> = Vec::new();
        proof {
            assert(refs_view(v@) =~= Seq::<TokenRefModel>::empty());
        }
        v
    } else {
        match next_significant_exec(toks, i) {
            None => {
                let v: Vec<TokenReference> = Vec::new();
                proof {
                    assert(refs_view(v@) =~= Seq::<TokenRefModel>::empty());
                }
                v
            },
            Some(k) => {
                let m = scan_trailing_exec(toks, k + 1);
                let leading = clone_range(toks, i, k);
                let trailing = clone_range(toks, k + 1, m);
                let reference = TokenReference {
                    leading_trivia: leading,
                    token: toks[k].clone(),
                    trailing_trivia: trailing,
                };
                let mut rest = extract_from(toks, m);
                let ghost rest_view = rest@;
                rest.insert(0, reference);
                proof {
                    assert(tokens_view(reference.leading_trivia@) =~= s.subrange(
                        i as int,
                        k as int,
                    ));
                    assert(tokens_view(reference.trailing_trivia@) =~= s.subrange(
                        k as int + 1,
                        m as int,
                    ));
                    assert(rest@ =~= seq![reference] + rest_view);
                    assert(refs_view(rest@) =~= seq![reference@] + refs_view(rest_view));
                }
                rest
            },
        }
    }
}

/// Groups the trivia of a token sequence around its significant tokens,
/// following the attachment rule of [`spec_extract`]: trivia after a
/// significant token stays with it as trailing trivia up to (but not
/// including) the first whitespace that spans a newline; everything else
/// leads the next significant token.  Total: it never fails, whatever the
/// tokens.
pub fn extract_token_references(tokens: Vec<Token>) -> (r: Vec<TokenReference>)
    ensures
        refs_view(r@) == spec_extract(tokens_view(tokens@)),
{
    extract_from(&tokens, 0)
}

/// Range text from `a` to `b` is the concatenated text of the reference
/// views of that range.
pub proof fn lemma_range_text_views(refs: Seq<TokenReference>, a: int, b: int)
    requires
        0 <= a <= b <= refs.len(),
    ensures
        range_text(refs, a, b) == refs_text(refs_view(refs).subrange(a, b)),
    decreases b - a,
{
    if a < b {
        lemma_range_text_views(refs, a + 1, b);
        let models = refs_view(refs).subrange(a, b);
        assert(models[0] == refs[a]@);
        assert(models.drop_first() =~= refs_view(refs).subrange(a + 1, b));
    } else {
        assert(refs_view(refs).subrange(a, b) =~= Seq::<TokenRefModel>::empty());
    }
}

/// When the last token is significant, trivia attachment from any index
/// inside the sequence produces at least one reference, and the last
/// reference holds the last token.
pub proof fn lemma_extract_last(toks: Seq<TokenModel>, i: int)
    requires
        0 <= i < toks.len(),
        !model_is_trivia(toks[toks.len() - 1]),
    ensures
        spec_extract_from(toks, i).len() >= 1,
        spec_extract_from(toks, i)[spec_extract_from(toks, i).len() - 1].token == toks[toks.len()
            - 1],
    decreases toks.len() - i,
{
    lemma_next_significant(toks, i);
    match next_significant(toks, i) {
        None => {
            assert(model_is_trivia(toks[toks.len() - 1]));
            assert(false);
        },
        Some(k) => {
            lemma_scan_trailing(toks, k + 1);
            let m = scan_trailing(toks, k + 1);
            let next = if i < m && m <= toks.len() {
                m
            } else {
                i + 1
            };
            let first = TokenRefModel {
                leading_trivia: toks.subrange(i, k),
                token: toks[k],
                trailing_trivia: toks.subrange(k + 1, m),
            };
            let rest = spec_extract_from(toks, next);
            assert(spec_extract_from(toks, i) == seq![first] + rest);
            if k == toks.len() - 1 {
                assert(m <= toks.len());
                if m < toks.len() {
                    assert(model_is_trivia(toks[m]) || !(model_is_trivia(toks[m])
                        && !is_trailing_break(toks[m])));
                }
                assert(m == toks.len()) by {
                    if m < toks.len() {
                        assert(scan_trailing(toks, m) == m);
                    }
                }
                assert(next == m);
                assert(rest =~= Seq::<TokenRefModel>::empty());
                assert(spec_extract_from(toks, i).len() == 1);
                assert(spec_extract_from(toks, i)[0] == first);
            } else {
                assert(m <= toks.len() - 1) by {
                    if m > toks.len() - 1 {
                        assert(model_is_trivia(toks[toks.len() - 1]));
                    }
                }
                assert(next == m);
                lemma_extract_last(toks, m);
                assert(rest.len() >= 1);
                assert(spec_extract_from(toks, i)[spec_extract_from(toks, i).len() - 1]
                    == rest[rest.len() - 1]);
            }
        },
    }
}

/// The shape of a leftover-token failure: some prefix of the references
/// parses as a block, and the error carries the token of the first
/// reference after that prefix, which stands before the end-of-file.
pub open spec fn leftover_witness(token: TokenModel, models: Seq<TokenRefModel>) -> bool {
    exists|b: Block, j: int|
        #![auto]
        {
            &&& 0 <= j < models.len() - 1
            &&& block_text(b) == refs_text(models.subrange(0, j))
            &&& token == models[j].token
        }
}

/// The shape of a leftover-token failure in the expression-only grammar:
/// some prefix of the references parses as an expression, and the error
/// carries the token of the first reference after that prefix, which stands
/// before the end-of-file.
pub open spec fn expr_leftover_witness(token: TokenModel, models: Seq<TokenRefModel>) -> bool {
    exists|e: Expression, j: int|
        #![auto]
        {
            &&& 0 < j < models.len() - 1
            &&& expr_text(e) == refs_text(models.subrange(0, j))
            &&& token == models[j].token
        }
}

/// What can go wrong while building the tree, after tokenization.
#[derive(Clone, Debug, PartialEq)]
pub enum AstError {
    /// No tokens were passed at all; an integration mistake, not a syntax
    /// error.
    Empty,
    /// The tokens passed lack a terminating end-of-file token; an
    /// integration mistake, not a syntax error.
    NoEof,
    /// The one true syntax error: the input is invalid at this token.
    UnexpectedToken {
        /// The token that caused the error.
        token: Token,
        /// Extra information that may help debugging.
        additional: Option<String>,
    },
}

/// An abstract syntax tree: the block of statements, and the flat
/// token-reference sequence it was parsed from, kept for exact
/// reconstruction and for the end-of-input marker.
#[derive(Debug, PartialEq)]
pub struct Ast {
    pub nodes: Block,
    pub tokens: Vec<TokenReference>,
}

impl Ast {
    /// A well-formed tree keeps at least one token reference, the last of
    /// which holds the end-of-file token.
    pub open spec fn wf(self) -> bool {
        self.tokens@.len() >= 1 && ref_is_eof(self.tokens@[self.tokens@.len() - 1])
    }

    /// Builds a tree from tokens.  Fails with `Empty` exactly when no token
    /// was given, with `NoEof` exactly when the last token is not an
    /// end-of-file, and with `UnexpectedToken` on invalid input.  Input
    /// holding no significant token besides the end-of-file always succeeds,
    /// with an empty tree.  On success, rendering the statements and then
    /// the end-of-file reference reproduces the concatenated text of the
    /// tokens exactly.  The only diagnostic hint an error ever carries is
    /// the leftover-token hint, and it names a significant token before the
    /// end-of-file after a prefix that parsed as a block: a definite syntax
    /// error from inside a production surfaces bare.
    pub fn from_tokens(tokens: Vec<Token>) -> (r: Result<Ast, AstError>)
        ensures
            tokens@.len() > 0 && tokens_view(tokens@)[tokens@.len() - 1].token_type is Eof
                && spec_extract(tokens_view(tokens@)).len() == 1 ==> r is Ok,
            match r {
                Ok(ast) => {
                    &&& tokens@.len() > 0
                    &&& tokens_view(tokens@)[tokens@.len() - 1].token_type is Eof
                    &&& ast.wf()
                    &&& refs_view(ast.tokens@) == spec_extract(tokens_view(tokens@))
                    &&& block_text(ast.nodes) + token_ref_text(
                        ast.tokens@[ast.tokens@.len() - 1]@,
                    ) == tokens_text(tokens_view(tokens@))
                    &&& spec_extract(tokens_view(tokens@)).len() == 1 ==> ast.nodes.stmts@.len()
                        == 0 && ast.nodes.last_stmt is None
                    &&& block_wf(ast.nodes)
                },
                Err(e) => {
                    &&& (e is Empty <==> tokens@.len() == 0)
                    &&& (e is NoEof <==> (tokens@.len() > 0 && !(tokens_view(
                        tokens@,
                    )[tokens@.len() - 1].token_type is Eof)))
                    &&& (e matches AstError::UnexpectedToken { token, additional } ==> match
                        additional {
                        Some(h) => h@ == "leftover token"@ && leftover_witness(
                            token@,
                            spec_extract(tokens_view(tokens@)),
                        ),
                        None => true,
                    })
                },
            },
    {
        if tokens.len() == 0 {
            return Err(AstError::Empty);
        }
        let last_is_eof = match &tokens[tokens.len() - 1].token_type {
            TokenType::Eof => true,
            _ => false,
        };
        if !last_is_eof {
            return Err(AstError::NoEof);
        }
        let ghost toks_m = tokens_view(tokens@);
        proof {
            assert(toks_m[toks_m.len() - 1] == tokens@[tokens@.len() - 1]@);
            assert(!model_is_trivia(toks_m[toks_m.len() - 1]));
        }
        let refs = extract_token_references(tokens);
        proof {
            lemma_extract_last(toks_m, 0);
            assert(refs_view(refs@).len() == refs@.len());
        }
        let n = refs.len();
        proof {
            assert(refs_view(refs@)[n - 1] == refs@[n - 1]@);
            assert(refs@[n - 1]@.token.token_type is Eof);
            lemma_range_text_one(refs@, n - 1);
            lemma_range_text_concat(refs@, 0, n - 1, n as int);
            lemma_range_text_views(refs@, 0, n as int);
            assert(refs_view(refs@).subrange(0, n as int) =~= refs_view(refs@));
            lemma_extract_text(toks_m, 0);
            assert(toks_m.subrange(0, toks_m.len() as int) =~= toks_m);
        }
        if n == 1 {
            let ast = Ast { nodes: Block { stmts: Vec::new(), last_stmt: None }, tokens: refs };
            proof {
                assert(block_wf(ast.nodes));
                assert(stmts_text_from(ast.nodes.stmts@, 0) == Seq::<char>::empty());
                assert(block_text(ast.nodes) =~= Seq::<char>::empty());
                assert(range_text(refs@, 0, 0) == Seq::<char>::empty());
                assert(block_text(ast.nodes) + token_ref_text(refs@[0]@) =~= range_text(
                    refs@,
                    0,
                    1,
                ));
            }
            return Ok(ast);
        }
        match crate::ast::parsers::parse_block(&refs, 0) {
            Ok((j, block)) => {
                if j == n - 1 {
                    let ast = Ast { nodes: block, tokens: refs };
                    proof {
                        assert(block_text(ast.nodes) + token_ref_text(
                            ast.tokens@[ast.tokens@.len() - 1]@,
                        ) =~= range_text(ast.tokens@, 0, n as int));
                    }
                    Ok(ast)
                } else if j < n - 1 {
                    proof {
                        lemma_range_text_views(refs@, 0, j as int);
                        assert(refs_view(refs@).subrange(0, j as int) =~= spec_extract(
                            toks_m,
                        ).subrange(0, j as int));
                        assert(block_text(block) == refs_text(
                            spec_extract(toks_m).subrange(0, j as int),
                        ));
                        assert(refs@[j as int]@.token == spec_extract(toks_m)[j as int].token);
                        assert(leftover_witness(refs@[j as int]@.token, spec_extract(toks_m)));
                    }
                    Err(
                        AstError::UnexpectedToken {
                            token: refs[j].token.clone(),
                            additional: Some(String::from_str("leftover token")),
                        },
                    )
                } else {
                    // The grammar never reads past the end-of-file
                    // reference; if the cursor ever stood there, report at
                    // the end marker without a hint.
                    Err(
                        AstError::UnexpectedToken {
                            token: refs[n - 1].token.clone(),
                            additional: None,
                        },
                    )
                }
            },
            Err(parsers::InternalAstError::NoMatch) => Err(
                AstError::UnexpectedToken { token: refs[0].token.clone(), additional: None },
            ),
            Err(parsers::InternalAstError::UnexpectedToken { token, additional }) => Err(
                AstError::UnexpectedToken { token, additional },
            ),
        }
    }

    /// The block of statements of the tree.
    pub fn nodes(&self) -> (r: &Block)
        ensures
            r == self.nodes,
    {
        &self.nodes
    }

    /// The block of statements of the tree, for mutation: the returned
    /// reference starts at the current block, edits through it land in the
    /// tree, and the token-reference list is untouched.
    pub fn nodes_mut(&mut self) -> (r: &mut Block)
        ensures
            *r == old(self).nodes,
            final(self).nodes == *final(r),
            final(self).tokens == old(self).tokens,
    {
        &mut self.nodes
    }

    /// The end-of-file token reference at the end of the tree.
    pub fn eof(&self) -> (r: &TokenReference)
        requires
            self.wf(),
        ensures
            r == self.tokens@[self.tokens@.len() - 1],
    {
        &self.tokens[self.tokens.len() - 1]
    }
}

/// Builds a single expression from tokens, for an expression-only grammar:
/// the whole input but the end-of-file token must be one expression, and any
/// remaining token is reported as a definite `UnexpectedToken` failure.  On
/// success the expression renders back to the concatenated text of every
/// reference before the end-of-file.
pub fn expression_from_tokens(tokens: Vec<Token>) -> (r: Result<Expression, AstError>)
    ensures
        match r {
            Ok(e) => {
                &&& tokens@.len() > 0
                &&& tokens_view(tokens@)[tokens@.len() - 1].token_type is Eof
                &&& spec_extract(tokens_view(tokens@)).len() >= 2
                &&& expr_text(e) == refs_text(
                    spec_extract(tokens_view(tokens@)).subrange(
                        0,
                        spec_extract(tokens_view(tokens@)).len() - 1,
                    ),
                )
                &&& expr_wf(e)
            },
            Err(err) => {
                &&& (err is Empty <==> tokens@.len() == 0)
                &&& (err is NoEof <==> (tokens@.len() > 0 && !(tokens_view(
                    tokens@,
                )[tokens@.len() - 1].token_type is Eof)))
                &&& (err matches AstError::UnexpectedToken { token, additional } ==> match
                    additional {
                    Some(h) => h@ == "leftover token"@ && expr_leftover_witness(
                        token@,
                        spec_extract(tokens_view(tokens@)),
                    ),
                    None => true,
                })
            },
        },
{
    if tokens.len() == 0 {
        return Err(AstError::Empty);
    }
    let last_is_eof = match &tokens[tokens.len() - 1].token_type {
        TokenType::Eof => true,
        _ => false,
    };
    if !last_is_eof {
        return Err(AstError::NoEof);
    }
    let ghost toks_m = tokens_view(tokens@);
    proof {
        assert(toks_m[toks_m.len() - 1] == tokens@[tokens@.len() - 1]@);
    }
    let refs = extract_token_references(tokens);
    proof {
        lemma_extract_last(toks_m, 0);
        assert(refs_view(refs@).len() == refs@.len());
    }
    let n = refs.len();
    if n == 1 {
        return Err(
            AstError::UnexpectedToken { token: refs[0].token.clone(), additional: None },
        );
    }
    match crate::ast::parsers::parse_expression(&refs, 0) {
        Ok((j, e)) => {
            if j == n - 1 {
                proof {
                    lemma_range_text_views(refs@, 0, n - 1);
                    assert(refs_view(refs@).subrange(0, n - 1) =~= spec_extract(
                        toks_m,
                    ).subrange(0, spec_extract(toks_m).len() - 1));
                }
                Ok(e)
            } else if j < n - 1 {
                proof {
                    lemma_range_text_views(refs@, 0, j as int);
                    assert(refs_view(refs@).subrange(0, j as int) =~= spec_extract(
                        toks_m,
                    ).subrange(0, j as int));
                    assert(expr_text(e) == refs_text(
                        spec_extract(toks_m).subrange(0, j as int),
                    ));
                    assert(refs@[j as int]@.token == spec_extract(toks_m)[j as int].token);
                    assert(expr_leftover_witness(refs@[j as int]@.token, spec_extract(toks_m)));
                }
                Err(
                    AstError::UnexpectedToken {
                        token: refs[j].token.clone(),
                        additional: Some(String::from_str("leftover token")),
                    },
                )
            } else {
                // The grammar never reads past the end-of-file reference;
                // if the cursor ever stood there, report at the end marker
                // without a hint.
                Err(
                    AstError::UnexpectedToken {
                        token: refs[n - 1].token.clone(),
                        additional: None,
                    },
                )
            }
        },
        Err(parsers::InternalAstError::NoMatch) => Err(
            AstError::UnexpectedToken { token: refs[0].token.clone(), additional: None },
        ),
        Err(parsers::InternalAstError::UnexpectedToken { token, additional }) => Err(
            AstError::UnexpectedToken { token, additional },
        ),
    }
}

/// Renders a punctuated list of expressions.
fn render_punct_exprs(p: &Punctuated<Expression>) -> (r: String)
    ensures
        r@ == punct_exprs_text(p.pairs@, 0),
    decreases *p,
{
    let mut s = String::new();
    let mut i: usize = 0;
    proof {
        assert(s@ + punct_exprs_text(p.pairs@, 0) =~= punct_exprs_text(p.pairs@, 0));
    }
    while i < p.pairs.len()
        invariant
            i <= p.pairs@.len(),
            s@ + punct_exprs_text(p.pairs@, i as int) == punct_exprs_text(p.pairs@, 0),
        decreases p.pairs@.len() - i,
    {
        let ghost old_s = s@;
        match &p.pairs[i] {
            Pair::End(e) => {
                let piece = e.render();
                s.append(piece.as_str());
                proof {
                    assert(s@ + punct_exprs_text(p.pairs@, i + 1) =~= old_s + (expr_text(*e)
                        + punct_exprs_text(p.pairs@, i + 1)));
                }
            },
            Pair::Punctuated(e, sep) => {
                let piece = e.render();
                s.append(piece.as_str());
                let sep_piece = sep.to_string();
                s.append(sep_piece.as_str());
                proof {
                    assert(s@ + punct_exprs_text(p.pairs@, i + 1) =~= old_s + ((expr_text(*e)
                        + token_ref_text(sep@)) + punct_exprs_text(p.pairs@, i + 1)));
                }
            },
        }
        i = i + 1;
    }
    proof {
        assert(s@ + punct_exprs_text(p.pairs@, p.pairs@.len() as int) =~= s@);
    }
    s
}

/// Renders a punctuated list of names.
fn render_punct_names(p: &Punctuated<TokenReference>) -> (r: String)
    ensures
        r@ == punct_names_text(p.pairs@, 0),
{
    let mut s = String::new();
    let mut i: usize = 0;
    proof {
        assert(s@ + punct_names_text(p.pairs@, 0) =~= punct_names_text(p.pairs@, 0));
    }
    while i < p.pairs.len()
        invariant
            i <= p.pairs@.len(),
            s@ + punct_names_text(p.pairs@, i as int) == punct_names_text(p.pairs@, 0),
        decreases p.pairs@.len() - i,
    {
        let ghost old_s = s@;
        match &p.pairs[i] {
            Pair::End(t) => {
                let piece = t.to_string();
                s.append(piece.as_str());
                proof {
                    assert(s@ + punct_names_text(p.pairs@, i + 1) =~= old_s + (ref_text(*t)
                        + punct_names_text(p.pairs@, i + 1)));
                }
            },
            Pair::Punctuated(t, sep) => {
                let piece = t.to_string();
                s.append(piece.as_str());
                let sep_piece = sep.to_string();
                s.append(sep_piece.as_str());
                proof {
                    assert(s@ + punct_names_text(p.pairs@, i + 1) =~= old_s + ((ref_text(*t)
                        + token_ref_text(sep@)) + punct_names_text(p.pairs@, i + 1)));
                }
            },
        }
        i = i + 1;
    }
    proof {
        assert(s@ + punct_names_text(p.pairs@, p.pairs@.len() as int) =~= s@);
    }
    s
}

/// Renders a punctuated list of variables.
fn render_punct_vars(p: &Punctuated<Var>) -> (r: String)
    ensures
        r@ == punct_vars_text(p.pairs@, 0),
    decreases *p,
{
    let mut s = String::new();
    let mut i: usize = 0;
    proof {
        assert(s@ + punct_vars_text(p.pairs@, 0) =~= punct_vars_text(p.pairs@, 0));
    }
    while i < p.pairs.len()
        invariant
            i <= p.pairs@.len(),
            s@ + punct_vars_text(p.pairs@, i as int) == punct_vars_text(p.pairs@, 0),
        decreases p.pairs@.len() - i,
    {
        let ghost old_s = s@;
        match &p.pairs[i] {
            Pair::End(v) => {
                let piece = v.render();
                s.append(piece.as_str());
                proof {
                    assert(s@ + punct_vars_text(p.pairs@, i + 1) =~= old_s + (var_text(*v)
                        + punct_vars_text(p.pairs@, i + 1)));
                }
            },
            Pair::Punctuated(v, sep) => {
                let piece = v.render();
                s.append(piece.as_str());
                let sep_piece = sep.to_string();
                s.append(sep_piece.as_str());
                proof {
                    assert(s@ + punct_vars_text(p.pairs@, i + 1) =~= old_s + ((var_text(*v)
                        + token_ref_text(sep@)) + punct_vars_text(p.pairs@, i + 1)));
                }
            },
        }
        i = i + 1;
    }
    proof {
        assert(s@ + punct_vars_text(p.pairs@, p.pairs@.len() as int) =~= s@);
    }
    s
}

/// Renders a punctuated list of parameters.
fn render_punct_params(p: &Punctuated<Parameter>) -> (r: String)
    ensures
        r@ == punct_params_text(p.pairs@, 0),
{
    let mut s = String::new();
    let mut i: usize = 0;
    proof {
        assert(s@ + punct_params_text(p.pairs@, 0) =~= punct_params_text(p.pairs@, 0));
    }
    while i < p.pairs.len()
        invariant
            i <= p.pairs@.len(),
            s@ + punct_params_text(p.pairs@, i as int) == punct_params_text(p.pairs@, 0),
        decreases p.pairs@.len() - i,
    {
        let ghost old_s = s@;
        match &p.pairs[i] {
            Pair::End(q) => {
                let piece = q.render();
                s.append(piece.as_str());
                proof {
                    assert(s@ + punct_params_text(p.pairs@, i + 1) =~= old_s + (parameter_text(*q)
                        + punct_params_text(p.pairs@, i + 1)));
                }
            },
            Pair::Punctuated(q, sep) => {
                let piece = q.render();
                s.append(piece.as_str());
                let sep_piece = sep.to_string();
                s.append(sep_piece.as_str());
                proof {
                    assert(s@ + punct_params_text(p.pairs@, i + 1) =~= old_s + ((parameter_text(
                        *q,
                    ) + token_ref_text(sep@)) + punct_params_text(p.pairs@, i + 1)));
                }
            },
        }
        i = i + 1;
    }
    proof {
        assert(s@ + punct_params_text(p.pairs@, p.pairs@.len() as int) =~= s@);
    }
    s
}

/// Renders a run of suffixes.
fn render_suffixes(v: &Vec<Suffix>) -> (r: String)
    ensures
        r@ == suffixes_text_from(v@, 0),
    decreases *v,
{
    let mut s = String::new();
    let mut i: usize = 0;
    proof {
        assert(s@ + suffixes_text_from(v@, 0) =~= suffixes_text_from(v@, 0));
    }
    while i < v.len()
        invariant
            i <= v@.len(),
            s@ + suffixes_text_from(v@, i as int) == suffixes_text_from(v@, 0),
        decreases v@.len() - i,
    {
        let ghost old_s = s@;
        let piece = v[i].render();
        s.append(piece.as_str());
        proof {
            assert(s@ + suffixes_text_from(v@, i + 1) =~= old_s + (suffix_text(v@[i as int])
                + suffixes_text_from(v@, i + 1)));
        }
        i = i + 1;
    }
    proof {
        assert(s@ + suffixes_text_from(v@, v@.len() as int) =~= s@);
    }
    s
}

impl Return {
    /// Renders the node back to the text it was parsed from.
    pub fn render(&self) -> (r: String)
        ensures
            r@ == ref_text(self.token) + punct_exprs_text(self.return_values.pairs@, 0),
        decreases *self,
    {
        let mut s = String::new();
        let piece = self.token.to_string();
        s.append(piece.as_str());
        let piece = render_punct_exprs(&self.return_values);
        s.append(piece.as_str());
        proof {
            assert(s@ =~= ref_text(self.token) + punct_exprs_text(self.return_values.pairs@, 0));
        }
        s
    }
}

impl Do {
    /// Renders the node back to the text it was parsed from.
    pub fn render(&self) -> (r: String)
        ensures
            r@ == ref_text(self.do_token) + block_text(self.block) + ref_text(self.end_token),
        decreases *self,
    {
        let mut s = String::new();
        let piece = self.do_token.to_string();
        s.append(piece.as_str());
        let piece = self.block.render();
        s.append(piece.as_str());
        let piece = self.end_token.to_string();
        s.append(piece.as_str());
        proof {
            assert(s@ =~= ref_text(self.do_token) + block_text(self.block) + ref_text(self.end_token));
        }
        s
    }
}

impl While {
    /// Renders the node back to the text it was parsed from.
    pub fn render(&self) -> (r: String)
        ensures
            r@ == ref_text(self.while_token) + expr_text(self.condition) + ref_text(self.do_token) + block_text(self.block) + ref_text(self.end_token),
        decreases *self,
    {
        let mut s = String::new();
        let piece = self.while_token.to_string();
        s.append(piece.as_str());
        let piece = self.condition.render();
        s.append(piece.as_str());
        let piece = self.do_token.to_string();
        s.append(piece.as_str());
        let piece = self.block.render();
        s.append(piece.as_str());
        let piece = self.end_token.to_string();
        s.append(piece.as_str());
        proof {
            assert(s@ =~= ref_text(self.while_token) + expr_text(self.condition) + ref_text(self.do_token) + block_text(self.block) + ref_text(self.end_token));
        }
        s
    }
}

impl Repeat {
    /// Renders the node back to the text it was parsed from.
    pub fn render(&self) -> (r: String)
        ensures
            r@ == ref_text(self.repeat_token) + block_text(self.block) + ref_text(self.until_token) + expr_text(self.until),
        decreases *self,
    {
        let mut s = String::new();
        let piece = self.repeat_token.to_string();
        s.append(piece.as_str());
        let piece = self.block.render();
        s.append(piece.as_str());
        let piece = self.until_token.to_string();
        s.append(piece.as_str());
        let piece = self.until.render();
        s.append(piece.as_str());
        proof {
            assert(s@ =~= ref_text(self.repeat_token) + block_text(self.block) + ref_text(self.until_token) + expr_text(self.until));
        }
        s
    }
}

impl ElseIf {
    /// Renders the node back to the text it was parsed from.
    pub fn render(&self) -> (r: String)
        ensures
            r@ == ref_text(self.else_if_token) + expr_text(self.condition) + ref_text(self.then_token) + block_text(self.block),
        decreases *self,
    {
        let mut s = String::new();
        let piece = self.else_if_token.to_string();
        s.append(piece.as_str());
        let piece = self.condition.render();
        s.append(piece.as_str());
        let piece = self.then_token.to_string();
        s.append(piece.as_str());
        let piece = self.block.render();
        s.append(piece.as_str());
        proof {
            assert(s@ =~= ref_text(self.else_if_token) + expr_text(self.condition) + ref_text(self.then_token) + block_text(self.block));
        }
        s
    }
}

impl MethodCall {
    /// Renders the node back to the text it was parsed from.
    pub fn render(&self) -> (r: String)
        ensures
            r@ == ref_text(self.colon_token) + ref_text(self.name) + funcargs_text(self.args),
        decreases *self,
    {
        let mut s = String::new();
        let piece = self.colon_token.to_string();
        s.append(piece.as_str());
        let piece = self.name.to_string();
        s.append(piece.as_str());
        let piece = self.args.render();
        s.append(piece.as_str());
        proof {
            assert(s@ =~= ref_text(self.colon_token) + ref_text(self.name) + funcargs_text(self.args));
        }
        s
    }
}

impl Assignment {
    /// Renders the node back to the text it was parsed from.
    pub fn render(&self) -> (r: String)
        ensures
            r@ == punct_vars_text(self.var_list.pairs@, 0) + ref_text(self.equal_token) + punct_exprs_text(self.expr_list.pairs@, 0),
        decreases *self,
    {
        let mut s = String::new();
        let piece = render_punct_vars(&self.var_list);
        s.append(piece.as_str());
        let piece = self.equal_token.to_string();
        s.append(piece.as_str());
        let piece = render_punct_exprs(&self.expr_list);
        s.append(piece.as_str());
        proof {
            assert(s@ =~= punct_vars_text(self.var_list.pairs@, 0) + ref_text(self.equal_token) + punct_exprs_text(self.expr_list.pairs@, 0));
        }
        s
    }
}

impl LocalFunction {
    /// Renders the node back to the text it was parsed from.
    pub fn render(&self) -> (r: String)
        ensures
            r@ == ref_text(self.local_token) + ref_text(self.function_token) + ref_text(self.name) + funcbody_text(self.func_body),
        decreases *self,
    {
        let mut s = String::new();
        let piece = self.local_token.to_string();
        s.append(piece.as_str());
        let piece = self.function_token.to_string();
        s.append(piece.as_str());
        let piece = self.name.to_string();
        s.append(piece.as_str());
        let piece = self.func_body.render();
        s.append(piece.as_str());
        proof {
            assert(s@ =~= ref_text(self.local_token) + ref_text(self.function_token) + ref_text(self.name) + funcbody_text(self.func_body));
        }
        s
    }
}

impl LocalAssignment {
    /// Renders the node back to the text it was parsed from.
    pub fn render(&self) -> (r: String)
        ensures
            r@ == ref_text(self.local_token) + punct_names_text(self.name_list.pairs@, 0) + opt_ref_text(self.equal_token) + punct_exprs_text(self.expr_list.pairs@, 0),
        decreases *self,
    {
        let mut s = String::new();
        let piece = self.local_token.to_string();
        s.append(piece.as_str());
        let piece = render_punct_names(&self.name_list);
        s.append(piece.as_str());
        match &self.equal_token {
            Some(t) => {
                let piece = t.to_string();
                s.append(piece.as_str());
            },
            None => {},
        }
        let piece = render_punct_exprs(&self.expr_list);
        s.append(piece.as_str());
        proof {
            assert(s@ =~= ref_text(self.local_token) + punct_names_text(self.name_list.pairs@, 0) + opt_ref_text(self.equal_token) + punct_exprs_text(self.expr_list.pairs@, 0));
        }
        s
    }
}

impl GenericFor {
    /// Renders the node back to the text it was parsed from.
    pub fn render(&self) -> (r: String)
        ensures
            r@ == ref_text(self.for_token) + punct_names_text(self.names.pairs@, 0) + ref_text(self.in_token) + punct_exprs_text(self.expr_list.pairs@, 0) + ref_text(self.do_token) + block_text(self.block) + ref_text(self.end_token),
        decreases *self,
    {
        let mut s = String::new();
        let piece = self.for_token.to_string();
        s.append(piece.as_str());
        let piece = render_punct_names(&self.names);
        s.append(piece.as_str());
        let piece = self.in_token.to_string();
        s.append(piece.as_str());
        let piece = render_punct_exprs(&self.expr_list);
        s.append(piece.as_str());
        let piece = self.do_token.to_string();
        s.append(piece.as_str());
        let piece = self.block.render();
        s.append(piece.as_str());
        let piece = self.end_token.to_string();
        s.append(piece.as_str());
        proof {
            assert(s@ =~= ref_text(self.for_token) + punct_names_text(self.names.pairs@, 0) + ref_text(self.in_token) + punct_exprs_text(self.expr_list.pairs@, 0) + ref_text(self.do_token) + block_text(self.block) + ref_text(self.end_token));
        }
        s
    }
}

impl FunctionDeclaration {
    /// Renders the node back to the text it was parsed from.
    pub fn render(&self) -> (r: String)
        ensures
            r@ == ref_text(self.function_token) + funcname_text(self.name) + funcbody_text(self.body),
        decreases *self,
    {
        let mut s = String::new();
        let piece = self.function_token.to_string();
        s.append(piece.as_str());
        let piece = self.name.render();
        s.append(piece.as_str());
        let piece = self.body.render();
        s.append(piece.as_str());
        proof {
            assert(s@ =~= ref_text(self.function_token) + funcname_text(self.name) + funcbody_text(self.body));
        }
        s
    }
}

impl BinOpRhs {
    /// Renders the node back to the text it was parsed from.
    pub fn render(&self) -> (r: String)
        ensures
            r@ == binop_text(self.bin_op) + expr_text(*self.rhs),
        decreases *self,
    {
        let mut s = String::new();
        let piece = self.bin_op.render();
        s.append(piece.as_str());
        let piece = self.rhs.render();
        s.append(piece.as_str());
        proof {
            assert(s@ =~= binop_text(self.bin_op) + expr_text(*self.rhs));
        }
        s
    }
}

impl NumericFor {
    /// Renders the node back to the text it was parsed from.
    pub fn render(&self) -> (r: String)
        ensures
            r@ == ref_text(self.for_token) + ref_text(self.index_variable) + ref_text(self.equal_token) + expr_text(self.start) + ref_text(self.start_end_comma) + expr_text(self.end) + opt_ref_text(self.end_step_comma) + (match self.step {
                Some(e) => expr_text(e),
                None => Seq::<char>::empty(),
            }) + ref_text(self.do_token) + block_text(self.block) + ref_text(self.end_token),
        decreases *self,
    {
        let mut s = String::new();
        let piece = self.for_token.to_string();
        s.append(piece.as_str());
        let piece = self.index_variable.to_string();
        s.append(piece.as_str());
        let piece = self.equal_token.to_string();
        s.append(piece.as_str());
        let piece = self.start.render();
        s.append(piece.as_str());
        let piece = self.start_end_comma.to_string();
        s.append(piece.as_str());
        let piece = self.end.render();
        s.append(piece.as_str());
        match &self.end_step_comma {
            Some(t) => {
                let piece = t.to_string();
                s.append(piece.as_str());
            },
            None => {},
        }
        match &self.step {
            Some(e) => {
                let piece = e.render();
                s.append(piece.as_str());
            },
            None => {},
        }
        let piece = self.do_token.to_string();
        s.append(piece.as_str());
        let piece = self.block.render();
        s.append(piece.as_str());
        let piece = self.end_token.to_string();
        s.append(piece.as_str());
        proof {
            assert(s@ =~= ref_text(self.for_token) + ref_text(self.index_variable) + ref_text(self.equal_token) + expr_text(self.start) + ref_text(self.start_end_comma) + expr_text(self.end) + opt_ref_text(self.end_step_comma) + (match self.step {
                Some(e) => expr_text(e),
                None => Seq::<char>::empty(),
            }) + ref_text(self.do_token) + block_text(self.block) + ref_text(self.end_token));
        }
        s
    }
}

impl FunctionBody {
    /// Renders the node back to the text it was parsed from.
    pub fn render(&self) -> (r: String)
        ensures
            r@ == ref_text(self.parameters_parantheses.tokens.0) + punct_params_text(self.parameters.pairs@, 0) + ref_text(self.parameters_parantheses.tokens.1) + block_text(self.block) + ref_text(self.end_token),
        decreases *self,
    {
        let mut s = String::new();
        let piece = self.parameters_parantheses.tokens.0.to_string();
        s.append(piece.as_str());
        let piece = render_punct_params(&self.parameters);
        s.append(piece.as_str());
        let piece = self.parameters_parantheses.tokens.1.to_string();
        s.append(piece.as_str());
        let piece = self.block.render();
        s.append(piece.as_str());
        let piece = self.end_token.to_string();
        s.append(piece.as_str());
        proof {
            assert(s@ =~= ref_text(self.parameters_parantheses.tokens.0) + punct_params_text(self.parameters.pairs@, 0) + ref_text(self.parameters_parantheses.tokens.1) + block_text(self.block) + ref_text(self.end_token));
        }
        s
    }
}

impl VarExpression {
    /// Renders the node back to the text it was parsed from.
    pub fn render(&self) -> (r: String)
        ensures
            r@ == prefix_text(self.prefix) + suffixes_text_from(self.suffixes@, 0),
        decreases *self,
    {
        let mut s = String::new();
        let piece = self.prefix.render();
        s.append(piece.as_str());
        let piece = render_suffixes(&self.suffixes);
        s.append(piece.as_str());
        proof {
            assert(s@ =~= prefix_text(self.prefix) + suffixes_text_from(self.suffixes@, 0));
        }
        s
    }
}

impl FunctionCall {
    /// Renders the node back to the text it was parsed from.
    pub fn render(&self) -> (r: String)
        ensures
            r@ == prefix_text(self.prefix) + suffixes_text_from(self.suffixes@, 0),
        decreases *self,
    {
        let mut s = String::new();
        let piece = self.prefix.render();
        s.append(piece.as_str());
        let piece = render_suffixes(&self.suffixes);
        s.append(piece.as_str());
        proof {
            assert(s@ =~= prefix_text(self.prefix) + suffixes_text_from(self.suffixes@, 0));
        }
        s
    }
}

impl Block {
    /// Renders the block back to the text it was parsed from.
    pub fn render(&self) -> (r: String)
        ensures
            r@ == block_text(*self),
        decreases *self,
    {
        let mut s = String::new();
        let mut i: usize = 0;
        proof {
            assert(s@ + stmts_text_from(self.stmts@, 0) =~= stmts_text_from(self.stmts@, 0));
        }
        while i < self.stmts.len()
            invariant
                i <= self.stmts@.len(),
                s@ + stmts_text_from(self.stmts@, i as int) == stmts_text_from(self.stmts@, 0),
            decreases self.stmts@.len() - i,
        {
            let ghost old_s = s@;
            let piece = self.stmts[i].0.render();
            s.append(piece.as_str());
            match &self.stmts[i].1 {
                Some(t) => {
                    let sep_piece = t.to_string();
                    s.append(sep_piece.as_str());
                },
                None => {},
            }
            proof {
                let e = self.stmts@[i as int];
                assert(s@ =~= old_s + (stmt_text(e.0) + opt_ref_text(e.1)));
                assert(s@ + stmts_text_from(self.stmts@, i + 1) =~= old_s + ((stmt_text(e.0)
                    + opt_ref_text(e.1)) + stmts_text_from(self.stmts@, i + 1)));
                assert((stmt_text(e.0) + opt_ref_text(e.1)) + stmts_text_from(self.stmts@, i + 1)
                    =~= stmt_text(e.0) + opt_ref_text(e.1) + stmts_text_from(self.stmts@, i + 1));
            }
            i = i + 1;
        }
        proof {
            assert(stmts_text_from(self.stmts@, self.stmts@.len() as int) == Seq::<char>::empty());
            assert(s@ + Seq::<char>::empty() =~= s@);
        }
        match &self.last_stmt {
            Some(p) => {
                let ghost old_s = s@;
                let piece = p.0.render();
                s.append(piece.as_str());
                match &p.1 {
                    Some(t) => {
                        let sep_piece = t.to_string();
                        s.append(sep_piece.as_str());
                    },
                    None => {},
                }
                proof {
                    assert(s@ =~= old_s + (last_stmt_text(p.0) + opt_ref_text(p.1)));
                    assert(s@ =~= block_text(*self));
                }
            },
            None => {
                proof {
                    assert(s@ + Seq::<char>::empty() =~= s@);
                    assert(s@ =~= block_text(*self));
                }
            },
        }
        s
    }
}

/// Renders the table fields with their separators.
fn render_fields(v: &Vec<(Field, Option<TokenReference>)>) -> (r: String)
    ensures
        r@ == fields_text_from(v@, 0),
    decreases *v,
{
    let mut s = String::new();
    let mut i: usize = 0;
    proof {
        assert(s@ + fields_text_from(v@, 0) =~= fields_text_from(v@, 0));
    }
    while i < v.len()
        invariant
            i <= v@.len(),
            s@ + fields_text_from(v@, i as int) == fields_text_from(v@, 0),
        decreases v@.len() - i,
    {
        let ghost old_s = s@;
        let piece = v[i].0.render();
        s.append(piece.as_str());
        match &v[i].1 {
            Some(t) => {
                let sep_piece = t.to_string();
                s.append(sep_piece.as_str());
            },
            None => {},
        }
        proof {
            let e = v@[i as int];
            assert(s@ =~= old_s + (field_text(e.0) + opt_ref_text(e.1)));
            assert(s@ + fields_text_from(v@, i + 1) =~= old_s + ((field_text(e.0) + opt_ref_text(
                e.1,
            )) + fields_text_from(v@, i + 1)));
            assert((field_text(e.0) + opt_ref_text(e.1)) + fields_text_from(v@, i + 1)
                =~= field_text(e.0) + opt_ref_text(e.1) + fields_text_from(v@, i + 1));
        }
        i = i + 1;
    }
    proof {
        assert(s@ + fields_text_from(v@, v@.len() as int) =~= s@);
    }
    s
}

/// Renders a run of elseif branches.
fn render_elseifs(v: &Vec<ElseIf>) -> (r: String)
    ensures
        r@ == elseifs_text_from(v@, 0),
    decreases *v,
{
    let mut s = String::new();
    let mut i: usize = 0;
    proof {
        assert(s@ + elseifs_text_from(v@, 0) =~= elseifs_text_from(v@, 0));
    }
    while i < v.len()
        invariant
            i <= v@.len(),
            s@ + elseifs_text_from(v@, i as int) == elseifs_text_from(v@, 0),
        decreases v@.len() - i,
    {
        let piece = v[i].render();
        proof {
            assert((s@ + elseif_text(v@[i as int])) + elseifs_text_from(v@, i + 1) =~= s@ + (
            elseif_text(v@[i as int]) + elseifs_text_from(v@, i + 1)));
        }
        s.append(piece.as_str());
        i = i + 1;
    }
    proof {
        assert(s@ + elseifs_text_from(v@, v@.len() as int) =~= s@);
    }
    s
}

impl If {
    /// Renders the node back to the text it was parsed from.
    pub fn render(&self) -> (r: String)
        ensures
            r@ == if_text(*self),
        decreases *self,
    {
        let mut s = String::new();
        let piece = self.if_token.to_string();
        s.append(piece.as_str());
        let piece = self.condition.render();
        s.append(piece.as_str());
        let piece = self.then_token.to_string();
        s.append(piece.as_str());
        let piece = self.block.render();
        s.append(piece.as_str());
        match &self.else_if {
            Some(v) => {
                let piece = render_elseifs(v);
                s.append(piece.as_str());
            },
            None => {},
        }
        match &self.else_token {
            Some(t) => {
                let piece = t.to_string();
                s.append(piece.as_str());
            },
            None => {},
        }
        match &self.else_block {
            Some(b) => {
                let piece = b.render();
                s.append(piece.as_str());
            },
            None => {},
        }
        let piece = self.end_token.to_string();
        s.append(piece.as_str());
        proof {
            assert(s@ =~= if_text(*self));
        }
        s
    }
}

impl FunctionName {
    /// Renders the node back to the text it was parsed from.
    pub fn render(&self) -> (r: String)
        ensures
            r@ == funcname_text(*self),
        decreases *self,
    {
        let mut s = String::new();
        let piece = render_punct_names(&self.names);
        s.append(piece.as_str());
        match &self.colon_name {
            Some(p) => {
                let piece = p.0.to_string();
                s.append(piece.as_str());
                let piece = p.1.to_string();
                s.append(piece.as_str());
            },
            None => {},
        }
        proof {
            assert(s@ =~= funcname_text(*self));
        }
        s
    }
}

impl TableConstructor {
    /// Renders the node back to the text it was parsed from.
    pub fn render(&self) -> (r: String)
        ensures
            r@ == table_text(*self),
        decreases *self,
    {
        let mut s = String::new();
        let piece = self.braces.tokens.0.to_string();
        s.append(piece.as_str());
        let piece = render_fields(&self.fields);
        s.append(piece.as_str());
        let piece = self.braces.tokens.1.to_string();
        s.append(piece.as_str());
        proof {
            assert(s@ =~= table_text(*self));
        }
        s
    }
}

impl Field {
    /// Renders the node back to the text it was parsed from.
    pub fn render(&self) -> (r: String)
        ensures
            r@ == field_text(*self),
        decreases *self,
    {
        match self {
            Field::ExpressionKey { brackets, key, equal, value } => {
                let mut s = String::new();
                let piece = brackets.tokens.0.to_string();
                s.append(piece.as_str());
                let piece = key.render();
                s.append(piece.as_str());
                let piece = brackets.tokens.1.to_string();
                s.append(piece.as_str());
                let piece = equal.to_string();
                s.append(piece.as_str());
                let piece = value.render();
                s.append(piece.as_str());
                proof {
                    assert(s@ =~= field_text(*self));
                }
                s
            },
            Field::NameKey { key, equal, value } => {
                let mut s = String::new();
                let piece = key.to_string();
                s.append(piece.as_str());
                let piece = equal.to_string();
                s.append(piece.as_str());
                let piece = value.render();
                s.append(piece.as_str());
                proof {
                    assert(s@ =~= field_text(*self));
                }
                s
            },
            Field::NoKey(e) => e.render(),
        }
    }
}

impl Expression {
    /// Renders the node back to the text it was parsed from.
    pub fn render(&self) -> (r: String)
        ensures
            r@ == expr_text(*self),
        decreases *self,
    {
        match self {
            Expression::Parentheses { contained, expression } => {
                let mut s = String::new();
                let piece = contained.tokens.0.to_string();
                s.append(piece.as_str());
                let piece = expression.render();
                s.append(piece.as_str());
                let piece = contained.tokens.1.to_string();
                s.append(piece.as_str());
                proof {
                    assert(s@ =~= expr_text(*self));
                }
                s
            },
            Expression::UnaryOperator { unop, expression } => {
                let mut s = String::new();
                let piece = unop.render();
                s.append(piece.as_str());
                let piece = expression.render();
                s.append(piece.as_str());
                proof {
                    assert(s@ =~= expr_text(*self));
                }
                s
            },
            Expression::Value { value, binop } => {
                let mut s = String::new();
                let piece = value.render();
                s.append(piece.as_str());
                match binop {
                    Some(b) => {
                        let piece = b.render();
                        s.append(piece.as_str());
                    },
                    None => {},
                }
                proof {
                    assert(s@ =~= expr_text(*self));
                }
                s
            },
        }
    }
}

impl Value {
    /// Renders the node back to the text it was parsed from.
    pub fn render(&self) -> (r: String)
        ensures
            r@ == value_text(*self),
        decreases *self,
    {
        match self {
            Value::Function((t, body)) => {
                let mut s = String::new();
                let piece = t.to_string();
                s.append(piece.as_str());
                let piece = body.render();
                s.append(piece.as_str());
                proof {
                    assert(s@ =~= value_text(*self));
                }
                s
            },
            Value::FunctionCall(f) => f.render(),
            Value::TableConstructor(t) => t.render(),
            Value::Number(t) => t.to_string(),
            Value::ParseExpression(e) => e.render(),
            Value::String(t) => t.to_string(),
            Value::Symbol(t) => t.to_string(),
            Value::Var(v) => v.render(),
        }
    }
}

impl Var {
    /// Renders the node back to the text it was parsed from.
    pub fn render(&self) -> (r: String)
        ensures
            r@ == var_text(*self),
        decreases *self,
    {
        match self {
            Var::Expression(ve) => ve.render(),
            Var::Name(t) => t.to_string(),
        }
    }
}

impl Prefix {
    /// Renders the node back to the text it was parsed from.
    pub fn render(&self) -> (r: String)
        ensures
            r@ == prefix_text(*self),
        decreases *self,
    {
        match self {
            Prefix::Expression(e) => e.render(),
            Prefix::Name(t) => t.to_string(),
        }
    }
}

impl Suffix {
    /// Renders the node back to the text it was parsed from.
    pub fn render(&self) -> (r: String)
        ensures
            r@ == suffix_text(*self),
        decreases *self,
    {
        match self {
            Suffix::Call(c) => c.render(),
            Suffix::Index(ix) => ix.render(),
        }
    }
}

impl Call {
    /// Renders the node back to the text it was parsed from.
    pub fn render(&self) -> (r: String)
        ensures
            r@ == call_text(*self),
        decreases *self,
    {
        match self {
            Call::AnonymousCall(fa) => fa.render(),
            Call::MethodCall(m) => m.render(),
        }
    }
}

impl Index {
    /// Renders the node back to the text it was parsed from.
    pub fn render(&self) -> (r: String)
        ensures
            r@ == index_text(*self),
        decreases *self,
    {
        match self {
            Index::Brackets { brackets, expression } => {
                let mut s = String::new();
                let piece = brackets.tokens.0.to_string();
                s.append(piece.as_str());
                let piece = expression.render();
                s.append(piece.as_str());
                let piece = brackets.tokens.1.to_string();
                s.append(piece.as_str());
                proof {
                    assert(s@ =~= index_text(*self));
                }
                s
            },
            Index::Dot { dot, name } => {
                let mut s = String::new();
                let piece = dot.to_string();
                s.append(piece.as_str());
                let piece = name.to_string();
                s.append(piece.as_str());
                proof {
                    assert(s@ =~= index_text(*self));
                }
                s
            },
        }
    }
}

impl FunctionArgs {
    /// Renders the node back to the text it was parsed from.
    pub fn render(&self) -> (r: String)
        ensures
            r@ == funcargs_text(*self),
        decreases *self,
    {
        match self {
            FunctionArgs::Parentheses { arguments, parentheses } => {
                let mut s = String::new();
                let piece = parentheses.tokens.0.to_string();
                s.append(piece.as_str());
                let piece = render_punct_exprs(arguments);
                s.append(piece.as_str());
                let piece = parentheses.tokens.1.to_string();
                s.append(piece.as_str());
                proof {
                    assert(s@ =~= funcargs_text(*self));
                }
                s
            },
            FunctionArgs::String(t) => t.to_string(),
            FunctionArgs::TableConstructor(t) => t.render(),
        }
    }
}

impl LastStmt {
    /// Renders the node back to the text it was parsed from.
    pub fn render(&self) -> (r: String)
        ensures
            r@ == last_stmt_text(*self),
        decreases *self,
    {
        match self {
            LastStmt::Break(t) => t.to_string(),
            LastStmt::Return(ret) => {
                let piece = ret.render();
                proof {
                    assert(piece@ =~= last_stmt_text(*self));
                }
                piece
            },
        }
    }
}

impl Stmt {
    /// Renders the statement back to the text it was parsed from.
    pub fn render(&self) -> (r: String)
        ensures
            r@ == stmt_text(*self),
        decreases *self,
    {
        match self {
            Stmt::Assignment(a) => a.render(),
            Stmt::Do(d) => d.render(),
            Stmt::FunctionCall(f) => f.render(),
            Stmt::FunctionDeclaration(f) => f.render(),
            Stmt::GenericFor(g) => g.render(),
            Stmt::If(f) => f.render(),
            Stmt::LocalAssignment(l) => l.render(),
            Stmt::LocalFunction(l) => l.render(),
            Stmt::NumericFor(n) => n.render(),
            Stmt::Repeat(rp) => rp.render(),
            Stmt::While(w) => w.render(),
        }
    }
}

impl BinOp {
    /// Renders the operator back to the text it was parsed from.
    pub fn render(&self) -> (r: String)
        ensures
            r@ == binop_text(*self),
    {
        match self {
            BinOp::And(t) => t.to_string(),
            BinOp::Caret(t) => t.to_string(),
            BinOp::GreaterThan(t) => t.to_string(),
            BinOp::GreaterThanEqual(t) => t.to_string(),
            BinOp::LessThan(t) => t.to_string(),
            BinOp::LessThanEqual(t) => t.to_string(),
            BinOp::Minus(t) => t.to_string(),
            BinOp::Or(t) => t.to_string(),
            BinOp::Percent(t) => t.to_string(),
            BinOp::Plus(t) => t.to_string(),
            BinOp::Slash(t) => t.to_string(),
            BinOp::Star(t) => t.to_string(),
            BinOp::TildeEqual(t) => t.to_string(),
            BinOp::TwoDots(t) => t.to_string(),
            BinOp::TwoEqual(t) => t.to_string(),
        }
    }
}

impl UnOp {
    /// Renders the operator back to the text it was parsed from.
    pub fn render(&self) -> (r: String)
        ensures
            r@ == unop_text(*self),
    {
        match self {
            UnOp::Minus(t) => t.to_string(),
            UnOp::Not(t) => t.to_string(),
            UnOp::Hash(t) => t.to_string(),
        }
    }
}

impl Parameter {
    /// Renders the parameter back to the text it was parsed from.
    pub fn render(&self) -> (r: String)
        ensures
            r@ == parameter_text(*self),
    {
        match self {
            Parameter::Ellipse(t) => t.to_string(),
            Parameter::Name(t) => t.to_string(),
        }
    }
}

impl Ast {
    /// Renders the whole tree back to its source text, byte for byte: the
    /// concatenated text of its token references.
    pub fn render(&self) -> (r: String)
        ensures
            r@ == refs_text(refs_view(self.tokens@)),
    {
        let mut s = String::new();
        let mut i: usize = 0;
        proof {
            assert(s@ =~= range_text(self.tokens@, 0, 0));
        }
        while i < self.tokens.len()
            invariant
                i <= self.tokens@.len(),
                s@ == range_text(self.tokens@, 0, i as int),
            decreases self.tokens@.len() - i,
        {
            let piece = self.tokens[i].to_string();
            proof {
                lemma_range_text_one(self.tokens@, i as int);
                lemma_range_text_concat(self.tokens@, 0, i as int, i + 1);
            }
            s.append(piece.as_str());
            i = i + 1;
        }
        proof {
            lemma_range_text_views(self.tokens@, 0, self.tokens@.len() as int);
            assert(refs_view(self.tokens@).subrange(0, self.tokens@.len() as int) =~= refs_view(
                self.tokens@,
            ));
        }
        s
    }
}

/// The decimal digit character for `d`.
pub open spec fn dec_digit_char(d: int) -> char {
    if d == 0 {
        '0'
    } else if d == 1 {
        '1'
    } else if d == 2 {
        '2'
    } else if d == 3 {
        '3'
    } else if d == 4 {
        '4'
    } else if d == 5 {
        '5'
    } else if d == 6 {
        '6'
    } else if d == 7 {
        '7'
    } else if d == 8 {
        '8'
    } else {
        '9'
    }
}

/// The decimal text of a nonnegative number.
pub open spec fn dec_text(n: int) -> Seq<char>
    recommends
        n >= 0,
    decreases n,
{
    if n < 10 {
        seq![dec_digit_char(n)]
    } else {
        dec_text(n / 10).push(dec_digit_char(n % 10))
    }
}

/// The decimal digit character for `d`, executable.
fn dec_digit(d: usize) -> (r: char)
    requires
        d < 10,
    ensures
        r == dec_digit_char(d as int),
{
    if d == 0 {
        '0'
    } else if d == 1 {
        '1'
    } else if d == 2 {
        '2'
    } else if d == 3 {
        '3'
    } else if d == 4 {
        '4'
    } else if d == 5 {
        '5'
    } else if d == 6 {
        '6'
    } else if d == 7 {
        '7'
    } else if d == 8 {
        '8'
    } else {
        '9'
    }
}

/// Writes a number in decimal.
fn dec_string(n: usize) -> (r: String)
    ensures
        r@ == dec_text(n as int),
    decreases n,
{
    if n < 10 {
        let mut s = String::new();
        s.push(dec_digit(n));
        proof {
            assert(s@ =~= seq![dec_digit_char(n as int)]);
        }
        s
    } else {
        let mut s = dec_string(n / 10);
        s.push(dec_digit(n % 10));
        s
    }
}

/// The message an error prints: what went wrong, and (for a syntax error)
/// the offending token and its position.
pub open spec fn error_message_text(e: AstError) -> Seq<char> {
    match e {
        AstError::Empty => "tokens passed was empty, which shouldn't happen normally"@,
        AstError::NoEof => "tokens passed had no eof token, which shouldn't happen normally"@,
        AstError::UnexpectedToken { token, additional } => "unexpected token `"@ + token_text(
            token@,
        ) + "`. (starting from line "@ + dec_text(token.start_position.line as int)
            + ", character "@ + dec_text(token.start_position.character as int)
            + " and ending on line "@ + dec_text(token.end_position.line as int)
            + ", character "@ + dec_text(token.end_position.character as int) + ")"@ + match
            additional {
            Some(a) => "\nadditional information: "@ + a@,
            None => Seq::empty(),
        },
    }
}

impl AstError {
    /// The message the error prints.
    pub fn error_message(&self) -> (r: String)
        ensures
            r@ == error_message_text(*self),
    {
        match self {
            AstError::Empty => String::from_str(
                "tokens passed was empty, which shouldn't happen normally",
            ),
            AstError::NoEof => String::from_str(
                "tokens passed had no eof token, which shouldn't happen normally",
            ),
            AstError::UnexpectedToken { token, additional } => {
                let mut s = String::from_str("unexpected token `");
                let piece = token.to_string();
                s.append(piece.as_str());
                s.append("`. (starting from line ");
                let piece = dec_string(token.start_position.line);
                s.append(piece.as_str());
                s.append(", character ");
                let piece = dec_string(token.start_position.character);
                s.append(piece.as_str());
                s.append(" and ending on line ");
                let piece = dec_string(token.end_position.line);
                s.append(piece.as_str());
                s.append(", character ");
                let piece = dec_string(token.end_position.character);
                s.append(piece.as_str());
                s.append(")");
                match additional {
                    Some(a) => {
                        s.append("\nadditional information: ");
                        s.append(a.as_str());
                    },
                    None => {},
                }
                proof {
                    assert(s@ =~= error_message_text(*self));
                }
                s
            },
        }
    }
}

/// All tokens of one reference, in order: leading trivia, the token itself,
/// trailing trivia.
pub open spec fn ref_tokens(r: TokenReference) -> Seq<Token> {
    r.leading_trivia@ + seq![r.token] + r.trailing_trivia@
}

/// All tokens of the references from `i` on, in document order.
pub open spec fn flat_tokens_from(refs: Seq<TokenReference>, i: int) -> Seq<Token>
    decreases refs.len() - i,
{
    if 0 <= i < refs.len() {
        ref_tokens(refs[i]) + flat_tokens_from(refs, i + 1)
    } else {
        Seq::empty()
    }
}

/// Appends clones of all tokens of one reference.
fn push_ref_tokens(v: &mut Vec<Token>, r: &TokenReference)
    ensures
        final(v)@ == old(v)@ + ref_tokens(*r),
{
    let ghost start = v@;
    let mut i: usize = 0;
    while i < r.leading_trivia.len()
        invariant
            i <= r.leading_trivia@.len(),
            v@ == start + r.leading_trivia@.subrange(0, i as int),
        decreases r.leading_trivia@.len() - i,
    {
        v.push(r.leading_trivia[i].clone());
        proof {
            assert(start + r.leading_trivia@.subrange(0, i as int + 1) =~= (start
                + r.leading_trivia@.subrange(0, i as int)).push(r.leading_trivia@[i as int]));
        }
        i = i + 1;
    }
    proof {
        assert(r.leading_trivia@.subrange(0, r.leading_trivia@.len() as int)
            =~= r.leading_trivia@);
    }
    v.push(r.token.clone());
    let ghost mid = v@;
    proof {
        assert(mid =~= start + r.leading_trivia@ + seq![r.token]);
    }
    let mut j: usize = 0;
    while j < r.trailing_trivia.len()
        invariant
            j <= r.trailing_trivia@.len(),
            v@ == mid + r.trailing_trivia@.subrange(0, j as int),
        decreases r.trailing_trivia@.len() - j,
    {
        v.push(r.trailing_trivia[j].clone());
        proof {
            assert(mid + r.trailing_trivia@.subrange(0, j as int + 1) =~= (mid
                + r.trailing_trivia@.subrange(0, j as int)).push(r.trailing_trivia@[j as int]));
        }
        j = j + 1;
    }
    proof {
        assert(r.trailing_trivia@.subrange(0, r.trailing_trivia@.len() as int)
            =~= r.trailing_trivia@);
        assert(v@ =~= start + (r.leading_trivia@ + seq![r.token] + r.trailing_trivia@));
    }
}

impl Ast {
    /// The tokens the tree was created from, in document order, including
    /// the terminal end-of-file token.
    pub fn iter_tokens(&self) -> (r: Vec<Token>)
        ensures
            r@ == flat_tokens_from(self.tokens@, 0),
    {
        let mut v: Vec<Token> = Vec::new();
        let mut i: usize = 0;
        proof {
            assert(v@ + flat_tokens_from(self.tokens@, 0) =~= flat_tokens_from(self.tokens@, 0));
        }
        while i < self.tokens.len()
            invariant
                i <= self.tokens@.len(),
                v@ + flat_tokens_from(self.tokens@, i as int) == flat_tokens_from(self.tokens@, 0),
            decreases self.tokens@.len() - i,
        {
            let ghost old_v = v@;
            push_ref_tokens(&mut v, &self.tokens[i]);
            proof {
                assert(v@ + flat_tokens_from(self.tokens@, i + 1) =~= old_v + (ref_tokens(
                    self.tokens@[i as int],
                ) + flat_tokens_from(self.tokens@, i + 1)));
            }
            i = i + 1;
        }
        proof {
            assert(v@ + flat_tokens_from(self.tokens@, self.tokens@.len() as int) =~= v@);
        }
        v
    }
}

} // verus!
