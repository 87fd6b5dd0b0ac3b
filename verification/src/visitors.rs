//! The traversal capability: a visitor dispatched over every node variant,
//! walking the tree in document order (the order tokens appear in source),
//! entering composite nodes before their children and leaving them after.

use vstd::prelude::*;

use crate::ast::punctuated::{Pair, Punctuated};
use crate::ast::{
    Assignment, BinOp, Block, Call, Do, ElseIf, Expression, Field, FunctionArgs, FunctionBody,
    FunctionCall, FunctionDeclaration, FunctionName, GenericFor, If, Index, LastStmt,
    LocalAssignment, LocalFunction, MethodCall, NumericFor, Parameter, Prefix, Repeat, Return,
    Stmt, Suffix, TableConstructor, UnOp, Value, Var, VarExpression, While,
};
use crate::tokenizer::TokenReference;

verus! {

/// The hooks a traversal calls at each node, in document order.  Every hook
/// has an empty default, so a visitor implements only what it cares about;
/// composite nodes are entered with `visit_*` and left with `visit_*_end`.
pub trait Visitor {
    /// Called when entering a `Block`.
    fn visit_block(&mut self, node: &Block) {
    }

    /// Called when leaving a `Block`.
    fn visit_block_end(&mut self, node: &Block) {
    }

    /// Called when entering a `Do`.
    fn visit_do_stmt(&mut self, node: &Do) {
    }

    /// Called when leaving a `Do`.
    fn visit_do_stmt_end(&mut self, node: &Do) {
    }

    /// Called when entering a `While`.
    fn visit_while_stmt(&mut self, node: &While) {
    }

    /// Called when leaving a `While`.
    fn visit_while_stmt_end(&mut self, node: &While) {
    }

    /// Called when entering a `Repeat`.
    fn visit_repeat_stmt(&mut self, node: &Repeat) {
    }

    /// Called when leaving a `Repeat`.
    fn visit_repeat_stmt_end(&mut self, node: &Repeat) {
    }

    /// Called when entering a `If`.
    fn visit_if_stmt(&mut self, node: &If) {
    }

    /// Called when leaving a `If`.
    fn visit_if_stmt_end(&mut self, node: &If) {
    }

    /// Called when entering a `ElseIf`.
    fn visit_else_if(&mut self, node: &ElseIf) {
    }

    /// Called when leaving a `ElseIf`.
    fn visit_else_if_end(&mut self, node: &ElseIf) {
    }

    /// Called when entering a `NumericFor`.
    fn visit_numeric_for(&mut self, node: &NumericFor) {
    }

    /// Called when leaving a `NumericFor`.
    fn visit_numeric_for_end(&mut self, node: &NumericFor) {
    }

    /// Called when entering a `GenericFor`.
    fn visit_generic_for(&mut self, node: &GenericFor) {
    }

    /// Called when leaving a `GenericFor`.
    fn visit_generic_for_end(&mut self, node: &GenericFor) {
    }

    /// Called when entering a `FunctionDeclaration`.
    fn visit_function_declaration(&mut self, node: &FunctionDeclaration) {
    }

    /// Called when leaving a `FunctionDeclaration`.
    fn visit_function_declaration_end(&mut self, node: &FunctionDeclaration) {
    }

    /// Called when entering a `LocalFunction`.
    fn visit_local_function(&mut self, node: &LocalFunction) {
    }

    /// Called when leaving a `LocalFunction`.
    fn visit_local_function_end(&mut self, node: &LocalFunction) {
    }

    /// Called when entering a `LocalAssignment`.
    fn visit_local_assignment(&mut self, node: &LocalAssignment) {
    }

    /// Called when leaving a `LocalAssignment`.
    fn visit_local_assignment_end(&mut self, node: &LocalAssignment) {
    }

    /// Called when entering a `Assignment`.
    fn visit_assignment(&mut self, node: &Assignment) {
    }

    /// Called when leaving a `Assignment`.
    fn visit_assignment_end(&mut self, node: &Assignment) {
    }

    /// Called when entering a `FunctionCall`.
    fn visit_function_call(&mut self, node: &FunctionCall) {
    }

    /// Called when leaving a `FunctionCall`.
    fn visit_function_call_end(&mut self, node: &FunctionCall) {
    }

    /// Called when entering a `MethodCall`.
    fn visit_method_call(&mut self, node: &MethodCall) {
    }

    /// Called when leaving a `MethodCall`.
    fn visit_method_call_end(&mut self, node: &MethodCall) {
    }

    /// Called when entering a `TableConstructor`.
    fn visit_table_constructor(&mut self, node: &TableConstructor) {
    }

    /// Called when leaving a `TableConstructor`.
    fn visit_table_constructor_end(&mut self, node: &TableConstructor) {
    }

    /// Called when entering a `Expression`.
    fn visit_expression(&mut self, node: &Expression) {
    }

    /// Called when leaving a `Expression`.
    fn visit_expression_end(&mut self, node: &Expression) {
    }

    /// Called when entering a `Value`.
    fn visit_value(&mut self, node: &Value) {
    }

    /// Called when leaving a `Value`.
    fn visit_value_end(&mut self, node: &Value) {
    }

    /// Called when entering a `Var`.
    fn visit_var(&mut self, node: &Var) {
    }

    /// Called when leaving a `Var`.
    fn visit_var_end(&mut self, node: &Var) {
    }

    /// Called when entering a `FunctionBody`.
    fn visit_function_body(&mut self, node: &FunctionBody) {
    }

    /// Called when leaving a `FunctionBody`.
    fn visit_function_body_end(&mut self, node: &FunctionBody) {
    }

    /// Called when entering a `Field`.
    fn visit_field(&mut self, node: &Field) {
    }

    /// Called when leaving a `Field`.
    fn visit_field_end(&mut self, node: &Field) {
    }

    /// Called when entering a `Return`.
    fn visit_return_stmt(&mut self, node: &Return) {
    }

    /// Called when leaving a `Return`.
    fn visit_return_stmt_end(&mut self, node: &Return) {
    }

    /// Called at a `LastStmt`.
    fn visit_last_stmt(&mut self, node: &LastStmt) {
    }

    /// Called at a `Prefix`.
    fn visit_prefix(&mut self, node: &Prefix) {
    }

    /// Called at a `Suffix`.
    fn visit_suffix(&mut self, node: &Suffix) {
    }

    /// Called at a `Index`.
    fn visit_index(&mut self, node: &Index) {
    }

    /// Called at a `FunctionArgs`.
    fn visit_function_args(&mut self, node: &FunctionArgs) {
    }

    /// Called at a `FunctionName`.
    fn visit_function_name(&mut self, node: &FunctionName) {
    }

    /// Called at a `Parameter`.
    fn visit_parameter(&mut self, node: &Parameter) {
    }

    /// Called at a `BinOp`.
    fn visit_bin_op(&mut self, node: &BinOp) {
    }

    /// Called at a `UnOp`.
    fn visit_un_op(&mut self, node: &UnOp) {
    }

    /// Called at a `TokenReference`.
    fn visit_token_reference(&mut self, node: &TokenReference) {
    }

}

/// Walks a punctuated list of expressions, visiting items and separators in
/// order.
#[verifier::loop_isolation(false)]
fn visit_punct_exprs<V: Visitor>(p: &Punctuated<Expression>, v: &mut V)
    decreases *p,
{
    let mut i: usize = 0;
    while i < p.pairs.len()
        decreases p.pairs@.len() - i,
    {
        match &p.pairs[i] {
            Pair::End(e) => {
                e.visit(v);
            },
            Pair::Punctuated(e, sep) => {
                e.visit(v);
                v.visit_token_reference(sep);
            },
        }
        i = i + 1;
    }
}

/// Walks a punctuated list of names.
fn visit_punct_names<V: Visitor>(p: &Punctuated<TokenReference>, v: &mut V) {
    let mut i: usize = 0;
    while i < p.pairs.len()
        decreases p.pairs@.len() - i,
    {
        match &p.pairs[i] {
            Pair::End(t) => {
                v.visit_token_reference(t);
            },
            Pair::Punctuated(t, sep) => {
                v.visit_token_reference(t);
                v.visit_token_reference(sep);
            },
        }
        i = i + 1;
    }
}

/// Walks a punctuated list of variables.
#[verifier::loop_isolation(false)]
fn visit_punct_vars<V: Visitor>(p: &Punctuated<Var>, v: &mut V)
    decreases *p,
{
    let mut i: usize = 0;
    while i < p.pairs.len()
        decreases p.pairs@.len() - i,
    {
        match &p.pairs[i] {
            Pair::End(item) => {
                item.visit(v);
            },
            Pair::Punctuated(item, sep) => {
                item.visit(v);
                v.visit_token_reference(sep);
            },
        }
        i = i + 1;
    }
}

/// Walks a punctuated list of parameters.
fn visit_punct_params<V: Visitor>(p: &Punctuated<Parameter>, v: &mut V) {
    let mut i: usize = 0;
    while i < p.pairs.len()
        decreases p.pairs@.len() - i,
    {
        match &p.pairs[i] {
            Pair::End(q) => {
                v.visit_parameter(q);
            },
            Pair::Punctuated(q, sep) => {
                v.visit_parameter(q);
                v.visit_token_reference(sep);
            },
        }
        i = i + 1;
    }
}

impl Block {
    /// Walks the block in document order.
    #[verifier::loop_isolation(false)]
    pub fn visit<V: Visitor>(&self, v: &mut V)
        decreases *self,
    {
        v.visit_block(self);
        let mut i: usize = 0;
        while i < self.stmts.len()
            decreases self.stmts@.len() - i,
        {
            self.stmts[i].0.visit(v);
            match &self.stmts[i].1 {
                Some(t) => {
                    v.visit_token_reference(t);
                },
                None => {},
            }
            i = i + 1;
        }
        match &self.last_stmt {
            Some(p) => {
                p.0.visit(v);
                match &p.1 {
                    Some(t) => {
                        v.visit_token_reference(t);
                    },
                    None => {},
                }
            },
            None => {},
        }
        v.visit_block_end(self);
    }
}

impl Stmt {
    /// Walks the statement in document order.
    #[verifier::loop_isolation(false)]
    pub fn visit<V: Visitor>(&self, v: &mut V)
        decreases *self,
    {
        match self {
            Stmt::Assignment(a) => {
                v.visit_assignment(a);
                visit_punct_vars(&a.var_list, v);
                v.visit_token_reference(&a.equal_token);
                visit_punct_exprs(&a.expr_list, v);
                v.visit_assignment_end(a);
            },
            Stmt::Do(d) => {
                v.visit_do_stmt(d);
                v.visit_token_reference(&d.do_token);
                d.block.visit(v);
                v.visit_token_reference(&d.end_token);
                v.visit_do_stmt_end(d);
            },
            Stmt::FunctionCall(f) => {
                f.visit(v);
            },
            Stmt::FunctionDeclaration(f) => {
                v.visit_function_declaration(f);
                v.visit_token_reference(&f.function_token);
                v.visit_function_name(&f.name);
                visit_punct_names(&f.name.names, v);
                match &f.name.colon_name {
                    Some(p) => {
                        v.visit_token_reference(&p.0);
                        v.visit_token_reference(&p.1);
                    },
                    None => {},
                }
                f.body.visit(v);
                v.visit_function_declaration_end(f);
            },
            Stmt::GenericFor(g) => {
                v.visit_generic_for(g);
                v.visit_token_reference(&g.for_token);
                visit_punct_names(&g.names, v);
                v.visit_token_reference(&g.in_token);
                visit_punct_exprs(&g.expr_list, v);
                v.visit_token_reference(&g.do_token);
                g.block.visit(v);
                v.visit_token_reference(&g.end_token);
                v.visit_generic_for_end(g);
            },
            Stmt::If(f) => {
                v.visit_if_stmt(f);
                v.visit_token_reference(&f.if_token);
                f.condition.visit(v);
                v.visit_token_reference(&f.then_token);
                f.block.visit(v);
                match &f.else_if {
                    Some(branches) => {
                        let mut i: usize = 0;
                        while i < branches.len()
                            decreases branches@.len() - i,
                        {
                            let b = &branches[i];
                            v.visit_else_if(b);
                            v.visit_token_reference(&b.else_if_token);
                            b.condition.visit(v);
                            v.visit_token_reference(&b.then_token);
                            b.block.visit(v);
                            v.visit_else_if_end(b);
                            i = i + 1;
                        }
                    },
                    None => {},
                }
                match &f.else_token {
                    Some(t) => {
                        v.visit_token_reference(t);
                    },
                    None => {},
                }
                match &f.else_block {
                    Some(b) => {
                        b.visit(v);
                    },
                    None => {},
                }
                v.visit_token_reference(&f.end_token);
                v.visit_if_stmt_end(f);
            },
            Stmt::LocalAssignment(l) => {
                v.visit_local_assignment(l);
                v.visit_token_reference(&l.local_token);
                visit_punct_names(&l.name_list, v);
                match &l.equal_token {
                    Some(t) => {
                        v.visit_token_reference(t);
                    },
                    None => {},
                }
                visit_punct_exprs(&l.expr_list, v);
                v.visit_local_assignment_end(l);
            },
            Stmt::LocalFunction(l) => {
                v.visit_local_function(l);
                v.visit_token_reference(&l.local_token);
                v.visit_token_reference(&l.function_token);
                v.visit_token_reference(&l.name);
                l.func_body.visit(v);
                v.visit_local_function_end(l);
            },
            Stmt::NumericFor(n) => {
                v.visit_numeric_for(n);
                v.visit_token_reference(&n.for_token);
                v.visit_token_reference(&n.index_variable);
                v.visit_token_reference(&n.equal_token);
                n.start.visit(v);
                v.visit_token_reference(&n.start_end_comma);
                n.end.visit(v);
                match &n.end_step_comma {
                    Some(t) => {
                        v.visit_token_reference(t);
                    },
                    None => {},
                }
                match &n.step {
                    Some(e) => {
                        e.visit(v);
                    },
                    None => {},
                }
                v.visit_token_reference(&n.do_token);
                n.block.visit(v);
                v.visit_token_reference(&n.end_token);
                v.visit_numeric_for_end(n);
            },
            Stmt::Repeat(rp) => {
                v.visit_repeat_stmt(rp);
                v.visit_token_reference(&rp.repeat_token);
                rp.block.visit(v);
                v.visit_token_reference(&rp.until_token);
                rp.until.visit(v);
                v.visit_repeat_stmt_end(rp);
            },
            Stmt::While(w) => {
                v.visit_while_stmt(w);
                v.visit_token_reference(&w.while_token);
                w.condition.visit(v);
                v.visit_token_reference(&w.do_token);
                w.block.visit(v);
                v.visit_token_reference(&w.end_token);
                v.visit_while_stmt_end(w);
            },
        }
    }
}

impl LastStmt {
    /// Walks the last statement in document order.
    pub fn visit<V: Visitor>(&self, v: &mut V)
        decreases *self,
    {
        v.visit_last_stmt(self);
        match self {
            LastStmt::Break(t) => {
                v.visit_token_reference(t);
            },
            LastStmt::Return(ret) => {
                v.visit_return_stmt(ret);
                v.visit_token_reference(&ret.token);
                visit_punct_exprs(&ret.return_values, v);
                v.visit_return_stmt_end(ret);
            },
        }
    }
}

impl Expression {
    /// Walks the expression in document order.
    pub fn visit<V: Visitor>(&self, v: &mut V)
        decreases *self,
    {
        v.visit_expression(self);
        match self {
            Expression::Parentheses { contained, expression } => {
                v.visit_token_reference(&contained.tokens.0);
                expression.visit(v);
                v.visit_token_reference(&contained.tokens.1);
            },
            Expression::UnaryOperator { unop, expression } => {
                v.visit_un_op(unop);
                expression.visit(v);
            },
            Expression::Value { value, binop } => {
                value.visit(v);
                match binop {
                    Some(b) => {
                        v.visit_bin_op(&b.bin_op);
                        b.rhs.visit(v);
                    },
                    None => {},
                }
            },
        }
        v.visit_expression_end(self);
    }
}

impl Value {
    /// Walks the value in document order.
    pub fn visit<V: Visitor>(&self, v: &mut V)
        decreases *self,
    {
        v.visit_value(self);
        match self {
            Value::Function((t, body)) => {
                v.visit_token_reference(t);
                body.visit(v);
            },
            Value::FunctionCall(f) => {
                f.visit(v);
            },
            Value::TableConstructor(t) => {
                t.visit(v);
            },
            Value::Number(t) => {
                v.visit_token_reference(t);
            },
            Value::ParseExpression(e) => {
                e.visit(v);
            },
            Value::String(t) => {
                v.visit_token_reference(t);
            },
            Value::Symbol(t) => {
                v.visit_token_reference(t);
            },
            Value::Var(var) => {
                var.visit(v);
            },
        }
        v.visit_value_end(self);
    }
}

impl Var {
    /// Walks the variable in document order.
    #[verifier::loop_isolation(false)]
    pub fn visit<V: Visitor>(&self, v: &mut V)
        decreases *self,
    {
        v.visit_var(self);
        match self {
            Var::Expression(ve) => {
                ve.prefix.visit(v);
                let mut i: usize = 0;
                while i < ve.suffixes.len()
                    decreases ve.suffixes@.len() - i,
                {
                    ve.suffixes[i].visit(v);
                    i = i + 1;
                }
            },
            Var::Name(t) => {
                v.visit_token_reference(t);
            },
        }
        v.visit_var_end(self);
    }
}

impl Prefix {
    /// Walks the prefix in document order.
    pub fn visit<V: Visitor>(&self, v: &mut V)
        decreases *self,
    {
        v.visit_prefix(self);
        match self {
            Prefix::Expression(e) => {
                e.visit(v);
            },
            Prefix::Name(t) => {
                v.visit_token_reference(t);
            },
        }
    }
}

impl Suffix {
    /// Walks the suffix in document order.
    pub fn visit<V: Visitor>(&self, v: &mut V)
        decreases *self,
    {
        v.visit_suffix(self);
        match self {
            Suffix::Call(c) => match c {
                Call::AnonymousCall(fa) => {
                    fa.visit(v);
                },
                Call::MethodCall(m) => {
                    v.visit_method_call(m);
                    v.visit_token_reference(&m.colon_token);
                    v.visit_token_reference(&m.name);
                    m.args.visit(v);
                    v.visit_method_call_end(m);
                },
            },
            Suffix::Index(ix) => {
                v.visit_index(ix);
                match ix {
                    Index::Brackets { brackets, expression } => {
                        v.visit_token_reference(&brackets.tokens.0);
                        expression.visit(v);
                        v.visit_token_reference(&brackets.tokens.1);
                    },
                    Index::Dot { dot, name } => {
                        v.visit_token_reference(dot);
                        v.visit_token_reference(name);
                    },
                }
            },
        }
    }
}

impl FunctionArgs {
    /// Walks the call arguments in document order.
    pub fn visit<V: Visitor>(&self, v: &mut V)
        decreases *self,
    {
        v.visit_function_args(self);
        match self {
            FunctionArgs::Parentheses { arguments, parentheses } => {
                v.visit_token_reference(&parentheses.tokens.0);
                visit_punct_exprs(arguments, v);
                v.visit_token_reference(&parentheses.tokens.1);
            },
            FunctionArgs::String(t) => {
                v.visit_token_reference(t);
            },
            FunctionArgs::TableConstructor(t) => {
                t.visit(v);
            },
        }
    }
}

impl TableConstructor {
    /// Walks the table constructor in document order.
    #[verifier::loop_isolation(false)]
    pub fn visit<V: Visitor>(&self, v: &mut V)
        decreases *self,
    {
        v.visit_table_constructor(self);
        v.visit_token_reference(&self.braces.tokens.0);
        let mut i: usize = 0;
        while i < self.fields.len()
            decreases self.fields@.len() - i,
        {
            let f = &self.fields[i].0;
            v.visit_field(f);
            match f {
                Field::ExpressionKey { brackets, key, equal, value } => {
                    v.visit_token_reference(&brackets.tokens.0);
                    key.visit(v);
                    v.visit_token_reference(&brackets.tokens.1);
                    v.visit_token_reference(equal);
                    value.visit(v);
                },
                Field::NameKey { key, equal, value } => {
                    v.visit_token_reference(key);
                    v.visit_token_reference(equal);
                    value.visit(v);
                },
                Field::NoKey(e) => {
                    e.visit(v);
                },
            }
            v.visit_field_end(f);
            match &self.fields[i].1 {
                Some(t) => {
                    v.visit_token_reference(t);
                },
                None => {},
            }
            i = i + 1;
        }
        v.visit_token_reference(&self.braces.tokens.1);
        v.visit_table_constructor_end(self);
    }
}

impl FunctionBody {
    /// Walks the function body in document order.
    pub fn visit<V: Visitor>(&self, v: &mut V)
        decreases *self,
    {
        v.visit_function_body(self);
        v.visit_token_reference(&self.parameters_parantheses.tokens.0);
        visit_punct_params(&self.parameters, v);
        v.visit_token_reference(&self.parameters_parantheses.tokens.1);
        self.block.visit(v);
        v.visit_token_reference(&self.end_token);
        v.visit_function_body_end(self);
    }
}

impl FunctionCall {
    /// Walks the call in document order.
    #[verifier::loop_isolation(false)]
    pub fn visit<V: Visitor>(&self, v: &mut V)
        decreases *self,
    {
        v.visit_function_call(self);
        self.prefix.visit(v);
        let mut i: usize = 0;
        while i < self.suffixes.len()
            decreases self.suffixes@.len() - i,
        {
            self.suffixes[i].visit(v);
            i = i + 1;
        }
        v.visit_function_call_end(self);
    }
}

} // verus!
