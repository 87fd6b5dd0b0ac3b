//! The parsing engine: cursor-based backtracking recursive descent over the
//! token-reference sequence.
//!
//! Every production takes the reference vector and a cursor, and returns the
//! advanced cursor with the node it built, or one of two failures:
//! [`InternalAstError::NoMatch`] lets the caller try another production at
//! the same cursor, while [`InternalAstError::UnexpectedToken`] is definite
//! and propagates past alternation.  On success, each production's node
//! renders back to exactly the text of the references it consumed.

use vstd::prelude::*;

use crate::ast::punctuated::{pair_has_separator, Pair, Punctuated};
use crate::ast::span::ContainedSpan;
use crate::ast::{
    binop_text, binop_wf, block_text, block_wf, elseif_text, elseif_wf, elseifs_text_from,
    expr_text, expr_wf, field_text, field_wf, fields_text_from, funcargs_text, funcargs_wf,
    funcbody_text, funcbody_wf, funcname_text, funcname_wf, functioncall_wf, if_wf,
    last_stmt_text, last_stmt_wf, lemma_range_text_concat, lemma_range_text_one,
    opt_ref_text, opt_semicolon_wf, parameter_text, parameter_wf, prefix_text, prefix_wf,
    punct_exprs_text, punct_exprs_wf, punct_names_text, punct_names_wf, punct_params_text,
    punct_params_wf, punct_vars_text, punct_vars_wf, range_text, ref_is_identifier,
    ref_is_number, ref_is_string, ref_symbol, ref_text, starts_keyword_stmt, stmt_text, stmt_wf,
    stmts_text_from, suffix_text, suffix_wf, suffixes_text_from, suffixes_wf, table_text,
    table_wf, unop_wf, value_text, value_wf, var_text, var_wf, Assignment, BinOp, BinOpRhs,
    Block, Call, Do, ElseIf, Expression, Field, FunctionArgs, FunctionBody, FunctionCall,
    FunctionDeclaration, FunctionName, GenericFor, If, Index, LastStmt, LocalAssignment,
    LocalFunction, MethodCall, NumericFor, Parameter, Prefix, Repeat, Return, Stmt, Suffix,
    TableConstructor, UnOp, Value, Var, VarExpression, While,
};
use crate::tokenizer::{Symbol, Token, TokenReference, TokenType, TokenTypeModel};

verus! {

/// The engine's two failure kinds: `NoMatch` is recoverable by alternation,
/// `UnexpectedToken` is a definite syntax error.
#[derive(Debug, PartialEq)]
pub(crate) enum InternalAstError {
    /// The production does not apply at the cursor; the caller may try
    /// another at the same place.
    NoMatch,
    /// The input is definitely invalid at this token; alternation must not
    /// swallow this.
    UnexpectedToken {
        /// The offending token.
        token: Token,
        /// Extra context for diagnostics.
        additional: Option<String>,
    },
}

/// Whether an error carries no diagnostic hint: the engine's own failures
/// always surface bare, and only the top level adds a hint.
pub(crate) open spec fn internal_error_bare(e: InternalAstError) -> bool {
    e matches InternalAstError::UnexpectedToken { additional, .. } ==> additional is None
}

/// The symbol of the reference at `i`, if the reference holds one.
fn symbol_at(refs: &Vec<TokenReference>, i: usize) -> (r: Option<Symbol>)
    requires
        i <= refs@.len(),
    ensures
        match r {
            Some(s) => i < refs@.len() && ref_symbol(refs@[i as int], s),
            None => i >= refs@.len() || forall|s: Symbol| !ref_symbol(refs@[i as int], s),
        },
{
    if i < refs.len() {
        match &refs[i].token.token_type {
            TokenType::Symbol { symbol } => Some(*symbol),
            _ => None,
        }
    } else {
        None
    }
}

/// Whether the reference at `i` holds the given symbol.
fn peek_symbol(refs: &Vec<TokenReference>, i: usize, sym: Symbol) -> (r: bool)
    requires
        i <= refs@.len(),
    ensures
        r == (i < refs@.len() && ref_symbol(refs@[i as int], sym)),
{
    if i < refs.len() {
        match &refs[i].token.token_type {
            TokenType::Symbol { symbol } => *symbol == sym,
            _ => false,
        }
    } else {
        false
    }
}

/// Whether the reference at `i` holds an identifier.
fn peek_identifier(refs: &Vec<TokenReference>, i: usize) -> (r: bool)
    requires
        i <= refs@.len(),
    ensures
        r == (i < refs@.len() && ref_is_identifier(refs@[i as int])),
{
    if i < refs.len() {
        match &refs[i].token.token_type {
            TokenType::Identifier { .. } => true,
            _ => false,
        }
    } else {
        false
    }
}

/// A definite failure at the reference at `i` (or at the last reference,
/// when the cursor is past the end).
fn unexpected(refs: &Vec<TokenReference>, i: usize) -> (e: InternalAstError)
    requires
        refs@.len() > 0,
    ensures
        e is UnexpectedToken,
        internal_error_bare(e),
{
    let at = if i < refs.len() {
        i
    } else {
        refs.len() - 1
    };
    InternalAstError::UnexpectedToken { token: refs[at].token.clone(), additional: None }
}

/// Consumes the reference at `i` when it holds the given symbol; a definite
/// failure otherwise.
fn expect_symbol(refs: &Vec<TokenReference>, i: usize, sym: Symbol) -> (r: Result<
    (usize, TokenReference),
    InternalAstError,
>)
    requires
        refs@.len() > 0,
        i <= refs@.len(),
    ensures
        r matches Ok(p) ==> p.0 == i + 1 && i < refs@.len() && ref_symbol(refs@[i as int], sym)
            && p.1@ == refs@[i as int]@ && ref_text(p.1) == range_text(refs@, i as int, i + 1),
        r is Ok <==> (i < refs@.len() && ref_symbol(refs@[i as int], sym)),
        r matches Err(e) ==> e is UnexpectedToken,
        r matches Err(e) ==> internal_error_bare(e),
{
    if i < refs.len() && peek_symbol(refs, i, sym) {
        proof {
            lemma_range_text_one(refs@, i as int);
        }
        Ok((i + 1, refs[i].clone()))
    } else {
        Err(unexpected(refs, i))
    }
}

/// Consumes the reference at `i` when it holds the given symbol.
fn try_symbol(refs: &Vec<TokenReference>, i: usize, sym: Symbol) -> (r: Option<
    (usize, TokenReference),
>)
    requires
        i <= refs@.len(),
    ensures
        r matches Some(p) ==> p.0 == i + 1 && i < refs@.len() && ref_symbol(refs@[i as int], sym)
            && p.1@ == refs@[i as int]@ && ref_text(p.1) == range_text(refs@, i as int, i + 1),
        r is Some <==> (i < refs@.len() && ref_symbol(refs@[i as int], sym)),
{
    if i < refs.len() && peek_symbol(refs, i, sym) {
        proof {
            lemma_range_text_one(refs@, i as int);
        }
        Some((i + 1, refs[i].clone()))
    } else {
        None
    }
}

/// Consumes the reference at `i` when it holds an identifier; a definite
/// failure otherwise.
fn expect_identifier(refs: &Vec<TokenReference>, i: usize) -> (r: Result<
    (usize, TokenReference),
    InternalAstError,
>)
    requires
        refs@.len() > 0,
        i <= refs@.len(),
    ensures
        r matches Ok(p) ==> p.0 == i + 1 && i < refs@.len() && ref_is_identifier(
            refs@[i as int],
        ) && p.1@ == refs@[i as int]@ && ref_text(p.1) == range_text(refs@, i as int, i + 1),
        r is Ok <==> (i < refs@.len() && ref_is_identifier(refs@[i as int])),
        r matches Err(e) ==> e is UnexpectedToken,
        r matches Err(e) ==> internal_error_bare(e),
{
    if i < refs.len() && peek_identifier(refs, i) {
        proof {
            lemma_range_text_one(refs@, i as int);
        }
        Ok((i + 1, refs[i].clone()))
    } else {
        Err(unexpected(refs, i))
    }
}

/// Appending a statement extends the statements' text at the end.
proof fn lemma_stmts_push(s: Seq<(Stmt, Option<TokenReference>)>, x: (Stmt, Option<TokenReference>), k: int)
    requires
        0 <= k <= s.len(),
    ensures
        stmts_text_from(s.push(x), k) == stmts_text_from(s, k) + stmt_text(x.0) + opt_ref_text(
            x.1,
        ),
    decreases s.len() - k,
{
    if k < s.len() {
        assert(s.push(x)[k] == s[k]);
        lemma_stmts_push(s, x, k + 1);
        assert(stmt_text(s[k].0) + opt_ref_text(s[k].1) + (stmts_text_from(s, k + 1) + stmt_text(
            x.0,
        ) + opt_ref_text(x.1)) =~= stmt_text(s[k].0) + opt_ref_text(s[k].1) + stmts_text_from(
            s,
            k + 1,
        ) + stmt_text(x.0) + opt_ref_text(x.1));
    } else {
        assert(s.push(x)[k] == x);
        assert(stmts_text_from(s.push(x), k + 1) == Seq::<char>::empty());
        assert(stmts_text_from(s, k) == Seq::<char>::empty());
        assert(stmts_text_from(s.push(x), k) =~= stmts_text_from(s, k) + stmt_text(x.0)
            + opt_ref_text(x.1));
    }
}

/// Appending a suffix extends the suffixes' text at the end.
proof fn lemma_suffixes_push(s: Seq<Suffix>, x: Suffix, k: int)
    requires
        0 <= k <= s.len(),
    ensures
        suffixes_text_from(s.push(x), k) == suffixes_text_from(s, k) + suffix_text(x),
    decreases s.len() - k,
{
    if k < s.len() {
        assert(s.push(x)[k] == s[k]);
        lemma_suffixes_push(s, x, k + 1);
        assert(suffix_text(s[k]) + (suffixes_text_from(s, k + 1) + suffix_text(x)) =~= suffix_text(
            s[k],
        ) + suffixes_text_from(s, k + 1) + suffix_text(x));
    } else {
        assert(s.push(x)[k] == x);
        assert(suffixes_text_from(s.push(x), k + 1) == Seq::<char>::empty());
        assert(suffixes_text_from(s, k) == Seq::<char>::empty());
        assert(suffixes_text_from(s.push(x), k) =~= suffixes_text_from(s, k) + suffix_text(x));
    }
}

/// Appending a field extends the fields' text at the end.
proof fn lemma_fields_push(s: Seq<(Field, Option<TokenReference>)>, x: (Field, Option<TokenReference>), k: int)
    requires
        0 <= k <= s.len(),
    ensures
        fields_text_from(s.push(x), k) == fields_text_from(s, k) + field_text(x.0) + opt_ref_text(
            x.1,
        ),
    decreases s.len() - k,
{
    if k < s.len() {
        assert(s.push(x)[k] == s[k]);
        lemma_fields_push(s, x, k + 1);
        assert(field_text(s[k].0) + opt_ref_text(s[k].1) + (fields_text_from(s, k + 1) + field_text(
            x.0,
        ) + opt_ref_text(x.1)) =~= field_text(s[k].0) + opt_ref_text(s[k].1) + fields_text_from(
            s,
            k + 1,
        ) + field_text(x.0) + opt_ref_text(x.1));
    } else {
        assert(s.push(x)[k] == x);
        assert(fields_text_from(s.push(x), k + 1) == Seq::<char>::empty());
        assert(fields_text_from(s, k) == Seq::<char>::empty());
        assert(fields_text_from(s.push(x), k) =~= fields_text_from(s, k) + field_text(x.0)
            + opt_ref_text(x.1));
    }
}

/// Appending an elseif branch extends the branches' text at the end.
proof fn lemma_elseifs_push(s: Seq<ElseIf>, x: ElseIf, k: int)
    requires
        0 <= k <= s.len(),
    ensures
        elseifs_text_from(s.push(x), k) == elseifs_text_from(s, k) + elseif_text(x),
    decreases s.len() - k,
{
    if k < s.len() {
        assert(s.push(x)[k] == s[k]);
        lemma_elseifs_push(s, x, k + 1);
        assert(elseif_text(s[k]) + (elseifs_text_from(s, k + 1) + elseif_text(x)) =~= elseif_text(
            s[k],
        ) + elseifs_text_from(s, k + 1) + elseif_text(x));
    } else {
        assert(s.push(x)[k] == x);
        assert(elseifs_text_from(s.push(x), k + 1) == Seq::<char>::empty());
        assert(elseifs_text_from(s, k) == Seq::<char>::empty());
        assert(elseifs_text_from(s.push(x), k) =~= elseifs_text_from(s, k) + elseif_text(x));
    }
}

/// The text of an expression entry.
pub(crate) open spec fn expr_pair_text(p: Pair<Expression>) -> Seq<char> {
    match p {
        Pair::End(e) => expr_text(e),
        Pair::Punctuated(e, sep) => expr_text(e) + ref_text(sep),
    }
}

/// Appending an expression entry extends the list's text at the end.
proof fn lemma_punct_exprs_push(s: Seq<Pair<Expression>>, x: Pair<Expression>, k: int)
    requires
        0 <= k <= s.len(),
    ensures
        punct_exprs_text(s.push(x), k) == punct_exprs_text(s, k) + expr_pair_text(x),
    decreases s.len() - k,
{
    if k < s.len() {
        assert(s.push(x)[k] == s[k]);
        lemma_punct_exprs_push(s, x, k + 1);
        assert(expr_pair_text(s[k]) + (punct_exprs_text(s, k + 1) + expr_pair_text(x))
            =~= expr_pair_text(s[k]) + punct_exprs_text(s, k + 1) + expr_pair_text(x));
    } else {
        assert(s.push(x)[k] == x);
        assert(punct_exprs_text(s.push(x), k + 1) == Seq::<char>::empty());
        assert(punct_exprs_text(s, k) == Seq::<char>::empty());
        assert(punct_exprs_text(s.push(x), k) =~= punct_exprs_text(s, k) + expr_pair_text(x));
    }
}

/// The text of a name entry.
pub(crate) open spec fn name_pair_text(p: Pair<TokenReference>) -> Seq<char> {
    match p {
        Pair::End(t) => ref_text(t),
        Pair::Punctuated(t, sep) => ref_text(t) + ref_text(sep),
    }
}

/// Appending a name entry extends the list's text at the end.
proof fn lemma_punct_names_push(s: Seq<Pair<TokenReference>>, x: Pair<TokenReference>, k: int)
    requires
        0 <= k <= s.len(),
    ensures
        punct_names_text(s.push(x), k) == punct_names_text(s, k) + name_pair_text(x),
    decreases s.len() - k,
{
    if k < s.len() {
        assert(s.push(x)[k] == s[k]);
        lemma_punct_names_push(s, x, k + 1);
        assert(name_pair_text(s[k]) + (punct_names_text(s, k + 1) + name_pair_text(x))
            =~= name_pair_text(s[k]) + punct_names_text(s, k + 1) + name_pair_text(x));
    } else {
        assert(s.push(x)[k] == x);
        assert(punct_names_text(s.push(x), k + 1) == Seq::<char>::empty());
        assert(punct_names_text(s, k) == Seq::<char>::empty());
        assert(punct_names_text(s.push(x), k) =~= punct_names_text(s, k) + name_pair_text(x));
    }
}

/// The text of a variable entry.
pub(crate) open spec fn var_pair_text(p: Pair<Var>) -> Seq<char> {
    match p {
        Pair::End(v) => var_text(v),
        Pair::Punctuated(v, sep) => var_text(v) + ref_text(sep),
    }
}

/// Appending a variable entry extends the list's text at the end.
proof fn lemma_punct_vars_push(s: Seq<Pair<Var>>, x: Pair<Var>, k: int)
    requires
        0 <= k <= s.len(),
    ensures
        punct_vars_text(s.push(x), k) == punct_vars_text(s, k) + var_pair_text(x),
    decreases s.len() - k,
{
    if k < s.len() {
        assert(s.push(x)[k] == s[k]);
        lemma_punct_vars_push(s, x, k + 1);
        assert(var_pair_text(s[k]) + (punct_vars_text(s, k + 1) + var_pair_text(x))
            =~= var_pair_text(s[k]) + punct_vars_text(s, k + 1) + var_pair_text(x));
    } else {
        assert(s.push(x)[k] == x);
        assert(punct_vars_text(s.push(x), k + 1) == Seq::<char>::empty());
        assert(punct_vars_text(s, k) == Seq::<char>::empty());
        assert(punct_vars_text(s.push(x), k) =~= punct_vars_text(s, k) + var_pair_text(x));
    }
}

/// The text of a parameter entry.
pub(crate) open spec fn param_pair_text(p: Pair<Parameter>) -> Seq<char> {
    match p {
        Pair::End(q) => parameter_text(q),
        Pair::Punctuated(q, sep) => parameter_text(q) + ref_text(sep),
    }
}

/// Appending a parameter entry extends the list's text at the end.
proof fn lemma_punct_params_push(s: Seq<Pair<Parameter>>, x: Pair<Parameter>, k: int)
    requires
        0 <= k <= s.len(),
    ensures
        punct_params_text(s.push(x), k) == punct_params_text(s, k) + param_pair_text(x),
    decreases s.len() - k,
{
    if k < s.len() {
        assert(s.push(x)[k] == s[k]);
        lemma_punct_params_push(s, x, k + 1);
        assert(param_pair_text(s[k]) + (punct_params_text(s, k + 1) + param_pair_text(x))
            =~= param_pair_text(s[k]) + punct_params_text(s, k + 1) + param_pair_text(x));
    } else {
        assert(s.push(x)[k] == x);
        assert(punct_params_text(s.push(x), k + 1) == Seq::<char>::empty());
        assert(punct_params_text(s, k) == Seq::<char>::empty());
        assert(punct_params_text(s.push(x), k) =~= punct_params_text(s, k) + param_pair_text(x));
    }
}

/// Whether the reference at `i` holds a number literal.
fn peek_number(refs: &Vec<TokenReference>, i: usize) -> (r: bool)
    requires
        i <= refs@.len(),
    ensures
        r == (i < refs@.len() && ref_is_number(refs@[i as int])),
{
    if i < refs.len() {
        match &refs[i].token.token_type {
            TokenType::Number { .. } => true,
            _ => false,
        }
    } else {
        false
    }
}

/// Whether the reference at `i` holds a string literal.
fn peek_string(refs: &Vec<TokenReference>, i: usize) -> (r: bool)
    requires
        i <= refs@.len(),
    ensures
        r == (i < refs@.len() && ref_is_string(refs@[i as int])),
{
    if i < refs.len() {
        match &refs[i].token.token_type {
            TokenType::StringLiteral { .. } => true,
            _ => false,
        }
    } else {
        false
    }
}

/// Consumes a binary operator at `j`, if one stands there.
fn try_binop(refs: &Vec<TokenReference>, j: usize) -> (r: Option<(usize, BinOp)>)
    requires
        j <= refs@.len(),
    ensures
        r matches Some(p) ==> p.0 == j + 1 && j < refs@.len() && binop_text(p.1) == range_text(
            refs@,
            j as int,
            j + 1,
        ) && binop_wf(p.1),
{
    proof {
        assert(refs@.len() == refs.len());
    }
    if j >= refs.len() {
        return None;
    }
    proof {
        lemma_range_text_one(refs@, j as int);
    }
    match symbol_at(refs, j) {
        Some(s) => match s {
            Symbol::And => Some((j + 1, BinOp::And(refs[j].clone()))),
            Symbol::Caret => Some((j + 1, BinOp::Caret(refs[j].clone()))),
            Symbol::GreaterThan => Some((j + 1, BinOp::GreaterThan(refs[j].clone()))),
            Symbol::GreaterThanEqual => Some((j + 1, BinOp::GreaterThanEqual(refs[j].clone()))),
            Symbol::LessThan => Some((j + 1, BinOp::LessThan(refs[j].clone()))),
            Symbol::LessThanEqual => Some((j + 1, BinOp::LessThanEqual(refs[j].clone()))),
            Symbol::Minus => Some((j + 1, BinOp::Minus(refs[j].clone()))),
            Symbol::Or => Some((j + 1, BinOp::Or(refs[j].clone()))),
            Symbol::Percent => Some((j + 1, BinOp::Percent(refs[j].clone()))),
            Symbol::Plus => Some((j + 1, BinOp::Plus(refs[j].clone()))),
            Symbol::Slash => Some((j + 1, BinOp::Slash(refs[j].clone()))),
            Symbol::Star => Some((j + 1, BinOp::Star(refs[j].clone()))),
            Symbol::TildeEqual => Some((j + 1, BinOp::TildeEqual(refs[j].clone()))),
            Symbol::TwoDots => Some((j + 1, BinOp::TwoDots(refs[j].clone()))),
            Symbol::TwoEqual => Some((j + 1, BinOp::TwoEqual(refs[j].clone()))),
            _ => None,
        },
        None => None,
    }
}

/// Parses an expression: a unary operation, or a value optionally followed
/// by a binary operation.
pub(crate) fn parse_expression(refs: &Vec<TokenReference>, i: usize) -> (r: Result<
    (usize, Expression),
    InternalAstError,
>)
    requires
        refs@.len() > 0,
        i <= refs@.len(),
    ensures
        r matches Ok(p) ==> i < p.0 <= refs@.len() && expr_text(p.1) == range_text(
            refs@,
            i as int,
            p.0 as int,
        ) && expr_wf(p.1),
        r matches Err(e) ==> internal_error_bare(e),
    decreases refs@.len() - i, 7int,
{
    proof {
        assert(refs@.len() == refs.len());
    }
    let is_unop = peek_symbol(refs, i, Symbol::Minus) || peek_symbol(refs, i, Symbol::Not)
        || peek_symbol(refs, i, Symbol::Hash);
    if is_unop {
        let op_ref = refs[i].clone();
        let unop = if peek_symbol(refs, i, Symbol::Minus) {
            UnOp::Minus(op_ref)
        } else if peek_symbol(refs, i, Symbol::Not) {
            UnOp::Not(op_ref)
        } else {
            UnOp::Hash(op_ref)
        };
        match parse_expression(refs, i + 1) {
            Ok((j, expr)) => {
                let node = Expression::UnaryOperator { unop, expression: Box::new(expr) };
                proof {
                    lemma_range_text_one(refs@, i as int);
                    lemma_range_text_concat(refs@, i as int, i + 1, j as int);
                }
                Ok((j, node))
            },
            Err(InternalAstError::NoMatch) => Err(unexpected(refs, i + 1)),
            Err(e) => Err(e),
        }
    } else {
        match parse_value(refs, i) {
            Ok((j, value)) => match try_binop(refs, j) {
                Some((k, bin_op)) => match parse_expression(refs, k) {
                    Ok((m, rhs)) => {
                        let node = Expression::Value {
                            value: Box::new(value),
                            binop: Some(BinOpRhs { bin_op, rhs: Box::new(rhs) }),
                        };
                        proof {
                            lemma_range_text_concat(refs@, j as int, k as int, m as int);
                            lemma_range_text_concat(refs@, i as int, j as int, m as int);
                            assert(expr_text(node) =~= value_text(value) + (binop_text(
                                node->Value_binop->Some_0.bin_op,
                            ) + expr_text(rhs)));
                        }
                        Ok((m, node))
                    },
                    Err(InternalAstError::NoMatch) => Err(unexpected(refs, k)),
                    Err(e) => Err(e),
                },
                None => {
                    let node = Expression::Value { value: Box::new(value), binop: None };
                    proof {
                        assert(expr_text(node) =~= value_text(value));
                    }
                    Ok((j, node))
                },
            },
            Err(e) => Err(e),
        }
    }
}

/// Parses a prefix: a name, or a parenthesised expression.
fn parse_prefix(refs: &Vec<TokenReference>, i: usize) -> (r: Result<
    (usize, Prefix),
    InternalAstError,
>)
    requires
        refs@.len() > 0,
        i <= refs@.len(),
    ensures
        r matches Ok(p) ==> i < p.0 <= refs@.len() && prefix_text(p.1) == range_text(
            refs@,
            i as int,
            p.0 as int,
        ) && prefix_wf(p.1),
        r matches Err(e) ==> internal_error_bare(e),
    decreases refs@.len() - i, 2int,
{
    proof {
        assert(refs@.len() == refs.len());
    }
    if peek_identifier(refs, i) {
        proof {
            lemma_range_text_one(refs@, i as int);
        }
        Ok((i + 1, Prefix::Name(refs[i].clone())))
    } else {
        match try_symbol(refs, i, Symbol::LeftParen) {
            Some((j0, open)) => match parse_expression(refs, j0) {
                Ok((j1, expr)) => match expect_symbol(refs, j1, Symbol::RightParen) {
                    Ok((j2, close)) => {
                        let node = Prefix::Expression(
                            Expression::Parentheses {
                                contained: ContainedSpan::new(open, close),
                                expression: Box::new(expr),
                            },
                        );
                        proof {
                            lemma_range_text_concat(refs@, j0 as int, j1 as int, j2 as int);
                            lemma_range_text_concat(refs@, i as int, j0 as int, j2 as int);
                        }
                        Ok((j2, node))
                    },
                    Err(e) => Err(e),
                },
                Err(InternalAstError::NoMatch) => Err(unexpected(refs, j0)),
                Err(e) => Err(e),
            },
            None => Err(InternalAstError::NoMatch),
        }
    }
}

/// Parses the arguments of a call: parentheses, a lone string, or a table.
fn parse_funcargs(refs: &Vec<TokenReference>, j: usize) -> (r: Result<
    (usize, FunctionArgs),
    InternalAstError,
>)
    requires
        refs@.len() > 0,
        j <= refs@.len(),
    ensures
        r matches Ok(p) ==> j < p.0 <= refs@.len() && funcargs_text(p.1) == range_text(
            refs@,
            j as int,
            p.0 as int,
        ) && funcargs_wf(p.1),
        r matches Err(e) ==> internal_error_bare(e),
    decreases refs@.len() - j, 4int,
{
    proof {
        assert(refs@.len() == refs.len());
    }
    if peek_string(refs, j) {
        proof {
            lemma_range_text_one(refs@, j as int);
        }
        Ok((j + 1, FunctionArgs::String(refs[j].clone())))
    } else {
        match try_symbol(refs, j, Symbol::LeftParen) {
            Some((j0, open)) => match parse_punct_exprs(refs, j0, false) {
                Ok((j1, arguments)) => match expect_symbol(refs, j1, Symbol::RightParen) {
                    Ok((j2, close)) => {
                        let node = FunctionArgs::Parentheses {
                            arguments,
                            parentheses: ContainedSpan::new(open, close),
                        };
                        proof {
                            lemma_range_text_concat(refs@, j0 as int, j1 as int, j2 as int);
                            lemma_range_text_concat(refs@, j as int, j0 as int, j2 as int);
                        }
                        Ok((j2, node))
                    },
                    Err(e) => Err(e),
                },
                Err(e) => Err(e),
            },
            None => match parse_table(refs, j) {
                Ok((j1, table)) => Ok((j1, FunctionArgs::TableConstructor(table))),
                Err(e) => Err(e),
            },
        }
    }
}

/// Parses one suffix at `j` if one starts there: a call (direct, string,
/// table or method) or an index (dot or brackets).
fn parse_suffix(refs: &Vec<TokenReference>, j: usize) -> (r: Result<
    Option<(usize, Suffix)>,
    InternalAstError,
>)
    requires
        refs@.len() > 0,
        j <= refs@.len(),
    ensures
        r matches Ok(Some(p)) ==> j < p.0 <= refs@.len() && suffix_text(p.1) == range_text(
            refs@,
            j as int,
            p.0 as int,
        ) && suffix_wf(p.1),
        r matches Err(e) ==> internal_error_bare(e),
    decreases refs@.len() - j, 5int,
{
    proof {
        assert(refs@.len() == refs.len());
    }
    let starts_args = peek_string(refs, j) || peek_symbol(refs, j, Symbol::LeftParen)
        || peek_symbol(refs, j, Symbol::LeftBrace);
    if starts_args {
        match parse_funcargs(refs, j) {
            Ok((k, fa)) => {
                let node = Suffix::Call(Call::AnonymousCall(fa));
                Ok(Some((k, node)))
            },
            Err(e) => Err(e),
        }
    } else if peek_symbol(refs, j, Symbol::Colon) {
        let colon_token = refs[j].clone();
        proof {
            lemma_range_text_one(refs@, j as int);
        }
        match expect_identifier(refs, j + 1) {
            Ok((j1, name)) => match parse_funcargs(refs, j1) {
                Ok((j2, args)) => {
                    let node = Suffix::Call(
                        Call::MethodCall(MethodCall { colon_token, name, args }),
                    );
                    proof {
                        lemma_range_text_concat(refs@, j + 1, j1 as int, j2 as int);
                        lemma_range_text_concat(refs@, j as int, j + 1, j2 as int);
                    }
                    Ok(Some((j2, node)))
                },
                Err(InternalAstError::NoMatch) => Err(unexpected(refs, j1)),
                Err(e) => Err(e),
            },
            Err(e) => Err(e),
        }
    } else if peek_symbol(refs, j, Symbol::Dot) {
        let dot = refs[j].clone();
        proof {
            lemma_range_text_one(refs@, j as int);
        }
        match expect_identifier(refs, j + 1) {
            Ok((j1, name)) => {
                let node = Suffix::Index(Index::Dot { dot, name });
                proof {
                    lemma_range_text_concat(refs@, j as int, j + 1, j1 as int);
                }
                Ok(Some((j1, node)))
            },
            Err(e) => Err(e),
        }
    } else {
        match try_symbol(refs, j, Symbol::LeftBracket) {
            Some((j0, open)) => match parse_expression(refs, j0) {
                Ok((j1, expr)) => match expect_symbol(refs, j1, Symbol::RightBracket) {
                    Ok((j2, close)) => {
                        let node = Suffix::Index(
                            Index::Brackets {
                                brackets: ContainedSpan::new(open, close),
                                expression: expr,
                            },
                        );
                        proof {
                            lemma_range_text_concat(refs@, j0 as int, j1 as int, j2 as int);
                            lemma_range_text_concat(refs@, j as int, j0 as int, j2 as int);
                        }
                        Ok(Some((j2, node)))
                    },
                    Err(e) => Err(e),
                },
                Err(InternalAstError::NoMatch) => Err(unexpected(refs, j0)),
                Err(e) => Err(e),
            },
            None => Ok(None),
        }
    }
}

/// Parses a prefix and the run of suffixes after it.
fn parse_prefix_suffixes(refs: &Vec<TokenReference>, i: usize) -> (r: Result<
    (usize, Prefix, Vec<Suffix>),
    InternalAstError,
>)
    requires
        refs@.len() > 0,
        i <= refs@.len(),
    ensures
        r matches Ok(p) ==> i < p.0 <= refs@.len() && prefix_text(p.1) + suffixes_text_from(
            p.2@,
            0,
        ) == range_text(refs@, i as int, p.0 as int) && prefix_wf(p.1) && suffixes_wf(p.2@),
        r matches Err(e) ==> internal_error_bare(e),
    decreases refs@.len() - i, 5int,
{
    proof {
        assert(refs@.len() == refs.len());
    }
    match parse_prefix(refs, i) {
        Err(e) => Err(e),
        Ok((j0, prefix)) => {
            let mut suffixes: Vec<Suffix> = Vec::new();
            let mut j = j0;
            proof {
                assert(suffixes_text_from(suffixes@, 0) == Seq::<char>::empty());
                assert(prefix_text(prefix) + suffixes_text_from(suffixes@, 0) =~= prefix_text(
                    prefix,
                ));
            }
            loop
                invariant
                    refs@.len() > 0,
                    i < j <= refs@.len(),
                    prefix_wf(prefix),
                    suffixes_wf(suffixes@),
                    prefix_text(prefix) + suffixes_text_from(suffixes@, 0) == range_text(
                        refs@,
                        i as int,
                        j as int,
                    ),
                decreases refs@.len() - j,
            {
                match parse_suffix(refs, j) {
                    Ok(Some((k, sfx))) => {
                        proof {
                            lemma_suffixes_push(suffixes@, sfx, 0);
                            lemma_range_text_concat(refs@, i as int, j as int, k as int);
                            assert(prefix_text(prefix) + (suffixes_text_from(suffixes@, 0)
                                + suffix_text(sfx)) =~= (prefix_text(prefix) + suffixes_text_from(
                                suffixes@,
                                0,
                            )) + suffix_text(sfx));
                            assert(suffixes_wf(suffixes@.push(sfx))) by {
                                assert(forall|k2: int|
                                    0 <= k2 < suffixes@.len() ==> #[trigger] suffixes@.push(
                                        sfx,
                                    )[k2] == suffixes@[k2]);
                                assert(suffixes@.push(sfx)[suffixes@.len() as int] == sfx);
                            }
                        }
                        suffixes.push(sfx);
                        j = k;
                    },
                    Ok(None) => {
                        return Ok((j, prefix, suffixes));
                    },
                    Err(e) => {
                        return Err(e);
                    },
                }
            }
        },
    }
}

/// Parses a comma-separated list of expressions.  With `require_one` the
/// first expression is demanded (a definite failure when missing); without
/// it, an empty list is allowed.
fn parse_punct_exprs(refs: &Vec<TokenReference>, j: usize, require_one: bool) -> (r: Result<
    (usize, Punctuated<Expression>),
    InternalAstError,
>)
    requires
        refs@.len() > 0,
        j <= refs@.len(),
    ensures
        r matches Ok(p) ==> j <= p.0 <= refs@.len() && p.1.wf() && punct_exprs_text(p.1.pairs@, 0)
            == range_text(refs@, j as int, p.0 as int) && (p.1.pairs@.len() == 0 ==> p.0 == j) && (
        require_one ==> p.1.pairs@.len() >= 1 && j < p.0) && punct_exprs_wf(p.1.pairs@),
        r matches Err(e) ==> e is UnexpectedToken || !require_one,
        r matches Err(e) ==> internal_error_bare(e),
    decreases refs@.len() - j, 8int,
{
    proof {
        assert(refs@.len() == refs.len());
    }
    match parse_expression(refs, j) {
        Err(InternalAstError::NoMatch) => {
            if require_one {
                Err(unexpected(refs, j))
            } else {
                let p = Punctuated::<Expression>::new();
                proof {
                    assert(punct_exprs_text(p.pairs@, 0) =~= Seq::<char>::empty());
                }
                Ok((j, p))
            }
        },
        Err(e) => Err(e),
        Ok((k0, first)) => {
            let mut p = Punctuated::<Expression>::new();
            let mut pending = first;
            let mut k = k0;
            let ghost mut pend_start: int = j as int;
            loop
                invariant
                    refs@.len() > 0,
                    j <= pend_start < k <= refs@.len(),
                    p.wf(),
                    p.pairs@.len() > 0 ==> pair_has_separator(p.pairs@[p.pairs@.len() - 1]),
                    expr_wf(pending),
                    forall|q: int|
                        0 <= q < p.pairs@.len() ==> ((#[trigger] p.pairs@[q]) matches
                        Pair::Punctuated(e2, sp) && expr_wf(e2) && ref_symbol(
                            sp,
                            Symbol::Comma,
                        )),
                    punct_exprs_text(p.pairs@, 0) == range_text(refs@, j as int, pend_start),
                    expr_text(pending) == range_text(refs@, pend_start, k as int),
                decreases refs@.len() - k,
            {
                match try_symbol(refs, k, Symbol::Comma) {
                    Some((m, comma)) => {
                        proof {
                            lemma_punct_exprs_push(p.pairs@, Pair::Punctuated(pending, comma), 0);
                            lemma_range_text_concat(refs@, pend_start, k as int, m as int);
                            lemma_range_text_concat(refs@, j as int, pend_start, m as int);
                            assert(range_text(refs@, j as int, pend_start) + (expr_text(pending)
                                + ref_text(comma)) =~= (range_text(refs@, j as int, pend_start)
                                + expr_text(pending)) + ref_text(comma));
                        }
                        p.push(Pair::Punctuated(pending, comma));
                        match parse_expression(refs, m) {
                            Ok((k2, e2)) => {
                                pending = e2;
                                proof {
                                    pend_start = m as int;
                                }
                                k = k2;
                            },
                            Err(InternalAstError::NoMatch) => {
                                return Err(unexpected(refs, m));
                            },
                            Err(e) => {
                                return Err(e);
                            },
                        }
                    },
                    None => {
                        proof {
                            lemma_punct_exprs_push(p.pairs@, Pair::End(pending), 0);
                            lemma_range_text_concat(refs@, j as int, pend_start, k as int);
                        }
                        p.push(Pair::End(pending));
                        proof {
                            assert(punct_exprs_wf(p.pairs@));
                        }
                        return Ok((k, p));
                    },
                }
            }
        },
    }
}

/// Parses a list of identifiers separated by the given symbol, demanding at
/// least one; a missing identifier is a definite failure.
fn parse_punct_names(refs: &Vec<TokenReference>, j: usize, sep: Symbol) -> (r: Result<
    (usize, Punctuated<TokenReference>),
    InternalAstError,
>)
    requires
        refs@.len() > 0,
        j <= refs@.len(),
    ensures
        r matches Ok(p) ==> j < p.0 <= refs@.len() && p.1.wf() && p.1.pairs@.len() >= 1
            && punct_names_text(p.1.pairs@, 0) == range_text(refs@, j as int, p.0 as int)
            && punct_names_wf(p.1.pairs@, sep),
        r matches Err(e) ==> e is UnexpectedToken,
        r matches Err(e) ==> internal_error_bare(e),
    decreases refs@.len() - j, 8int,
{
    proof {
        assert(refs@.len() == refs.len());
    }
    match expect_identifier(refs, j) {
        Err(e) => Err(e),
        Ok((k0, first)) => {
            let mut p = Punctuated::<TokenReference>::new();
            let mut pending = first;
            let mut k = k0;
            let ghost mut pend_start: int = j as int;
            loop
                invariant
                    refs@.len() > 0,
                    j <= pend_start < k <= refs@.len(),
                    p.wf(),
                    p.pairs@.len() > 0 ==> pair_has_separator(p.pairs@[p.pairs@.len() - 1]),
                    ref_is_identifier(pending),
                    forall|q: int|
                        0 <= q < p.pairs@.len() ==> ((#[trigger] p.pairs@[q]) matches
                        Pair::Punctuated(t2, sp) && ref_is_identifier(t2) && ref_symbol(
                            sp,
                            sep,
                        )),
                    punct_names_text(p.pairs@, 0) == range_text(refs@, j as int, pend_start),
                    ref_text(pending) == range_text(refs@, pend_start, k as int),
                decreases refs@.len() - k,
            {
                match try_symbol(refs, k, sep) {
                    Some((m, sep_ref)) => {
                        proof {
                            lemma_punct_names_push(p.pairs@, Pair::Punctuated(pending, sep_ref), 0);
                            lemma_range_text_concat(refs@, pend_start, k as int, m as int);
                            lemma_range_text_concat(refs@, j as int, pend_start, m as int);
                            assert(range_text(refs@, j as int, pend_start) + (ref_text(pending)
                                + ref_text(sep_ref)) =~= (range_text(refs@, j as int, pend_start)
                                + ref_text(pending)) + ref_text(sep_ref));
                        }
                        p.push(Pair::Punctuated(pending, sep_ref));
                        match expect_identifier(refs, m) {
                            Ok((k2, n2)) => {
                                pending = n2;
                                proof {
                                    pend_start = m as int;
                                }
                                k = k2;
                            },
                            Err(e) => {
                                return Err(e);
                            },
                        }
                    },
                    None => {
                        proof {
                            lemma_punct_names_push(p.pairs@, Pair::End(pending), 0);
                            lemma_range_text_concat(refs@, j as int, pend_start, k as int);
                        }
                        p.push(Pair::End(pending));
                        proof {
                            assert(punct_names_wf(p.pairs@, sep));
                        }
                        return Ok((k, p));
                    },
                }
            }
        },
    }
}

/// Parses a comma-separated list of variables, at least one; whether the
/// first variable is missing is left to the caller as a recoverable
/// failure.
fn parse_punct_vars(refs: &Vec<TokenReference>, j: usize) -> (r: Result<
    (usize, Punctuated<Var>),
    InternalAstError,
>)
    requires
        refs@.len() > 0,
        j <= refs@.len(),
    ensures
        r matches Ok(p) ==> j < p.0 <= refs@.len() && p.1.wf() && p.1.pairs@.len() >= 1
            && punct_vars_text(p.1.pairs@, 0) == range_text(refs@, j as int, p.0 as int)
            && punct_vars_wf(p.1.pairs@),
        r matches Err(e) ==> internal_error_bare(e),
    decreases refs@.len() - j, 8int,
{
    proof {
        assert(refs@.len() == refs.len());
    }
    match parse_var(refs, j) {
        Err(e) => Err(e),
        Ok((k0, first)) => {
            let mut p = Punctuated::<Var>::new();
            let mut pending = first;
            let mut k = k0;
            let ghost mut pend_start: int = j as int;
            loop
                invariant
                    refs@.len() > 0,
                    j <= pend_start < k <= refs@.len(),
                    p.wf(),
                    p.pairs@.len() > 0 ==> pair_has_separator(p.pairs@[p.pairs@.len() - 1]),
                    var_wf(pending),
                    forall|q: int|
                        0 <= q < p.pairs@.len() ==> ((#[trigger] p.pairs@[q]) matches
                        Pair::Punctuated(v2, sp) && var_wf(v2) && ref_symbol(
                            sp,
                            Symbol::Comma,
                        )),
                    punct_vars_text(p.pairs@, 0) == range_text(refs@, j as int, pend_start),
                    var_text(pending) == range_text(refs@, pend_start, k as int),
                decreases refs@.len() - k,
            {
                match try_symbol(refs, k, Symbol::Comma) {
                    Some((m, comma)) => {
                        proof {
                            lemma_punct_vars_push(p.pairs@, Pair::Punctuated(pending, comma), 0);
                            lemma_range_text_concat(refs@, pend_start, k as int, m as int);
                            lemma_range_text_concat(refs@, j as int, pend_start, m as int);
                            assert(range_text(refs@, j as int, pend_start) + (var_text(pending)
                                + ref_text(comma)) =~= (range_text(refs@, j as int, pend_start)
                                + var_text(pending)) + ref_text(comma));
                        }
                        p.push(Pair::Punctuated(pending, comma));
                        match parse_var(refs, m) {
                            Ok((k2, v2)) => {
                                pending = v2;
                                proof {
                                    pend_start = m as int;
                                }
                                k = k2;
                            },
                            Err(e) => {
                                return Err(e);
                            },
                        }
                    },
                    None => {
                        proof {
                            lemma_punct_vars_push(p.pairs@, Pair::End(pending), 0);
                            lemma_range_text_concat(refs@, j as int, pend_start, k as int);
                        }
                        p.push(Pair::End(pending));
                        proof {
                            assert(punct_vars_wf(p.pairs@));
                        }
                        return Ok((k, p));
                    },
                }
            }
        },
    }
}

/// Parses a variable: a name, or a prefix with suffixes ending in an index.
fn parse_var(refs: &Vec<TokenReference>, i: usize) -> (r: Result<
    (usize, Var),
    InternalAstError,
>)
    requires
        refs@.len() > 0,
        i <= refs@.len(),
    ensures
        r matches Ok(p) ==> i < p.0 <= refs@.len() && var_text(p.1) == range_text(
            refs@,
            i as int,
            p.0 as int,
        ) && var_wf(p.1),
        r matches Err(e) ==> internal_error_bare(e),
    decreases refs@.len() - i, 6int,
{
    proof {
        assert(refs@.len() == refs.len());
    }
    match parse_prefix_suffixes(refs, i) {
        Err(e) => Err(e),
        Ok((j, prefix, suffixes)) => {
            if suffixes.len() == 0 {
                match prefix {
                    Prefix::Name(t) => {
                        let node = Var::Name(t);
                        proof {
                            assert(suffixes_text_from(suffixes@, 0) == Seq::<char>::empty());
                            assert(var_text(node) =~= prefix_text(Prefix::Name(node->Name_0))
                                + suffixes_text_from(suffixes@, 0));
                        }
                        Ok((j, node))
                    },
                    Prefix::Expression(_) => Err(InternalAstError::NoMatch),
                }
            } else {
                let is_index = match &suffixes[suffixes.len() - 1] {
                    Suffix::Index(_) => true,
                    _ => false,
                };
                if is_index {
                    let node = Var::Expression(VarExpression { prefix, suffixes });
                    Ok((j, node))
                } else {
                    Err(InternalAstError::NoMatch)
                }
            }
        },
    }
}

/// Parses a value: a literal, an anonymous function, a table, or a prefix
/// expression (a variable, a call, or a parenthesised expression).
fn parse_value(refs: &Vec<TokenReference>, i: usize) -> (r: Result<
    (usize, Value),
    InternalAstError,
>)
    requires
        refs@.len() > 0,
        i <= refs@.len(),
    ensures
        r matches Ok(p) ==> i < p.0 <= refs@.len() && value_text(p.1) == range_text(
            refs@,
            i as int,
            p.0 as int,
        ) && value_wf(p.1),
        r matches Err(e) ==> internal_error_bare(e),
    decreases refs@.len() - i, 6int,
{
    proof {
        assert(refs@.len() == refs.len());
    }
    if peek_number(refs, i) {
        proof {
            lemma_range_text_one(refs@, i as int);
        }
        Ok((i + 1, Value::Number(refs[i].clone())))
    } else if peek_string(refs, i) {
        proof {
            lemma_range_text_one(refs@, i as int);
        }
        Ok((i + 1, Value::String(refs[i].clone())))
    } else if peek_symbol(refs, i, Symbol::True) || peek_symbol(refs, i, Symbol::False)
        || peek_symbol(refs, i, Symbol::Nil) || peek_symbol(refs, i, Symbol::Ellipse) {
        proof {
            lemma_range_text_one(refs@, i as int);
        }
        Ok((i + 1, Value::Symbol(refs[i].clone())))
    } else if peek_symbol(refs, i, Symbol::Function) {
        let ftok = refs[i].clone();
        proof {
            lemma_range_text_one(refs@, i as int);
        }
        match parse_funcbody(refs, i + 1) {
            Ok((j, body)) => {
                let node = Value::Function((ftok, body));
                proof {
                    lemma_range_text_concat(refs@, i as int, i + 1, j as int);
                }
                Ok((j, node))
            },
            Err(e) => Err(e),
        }
    } else if peek_symbol(refs, i, Symbol::LeftBrace) {
        match parse_table(refs, i) {
            Ok((j, table)) => Ok((j, Value::TableConstructor(table))),
            Err(e) => Err(e),
        }
    } else if peek_identifier(refs, i) || peek_symbol(refs, i, Symbol::LeftParen) {
        match parse_prefix_suffixes(refs, i) {
            Err(e) => Err(e),
            Ok((j, prefix, suffixes)) => {
                if suffixes.len() == 0 {
                    match prefix {
                        Prefix::Name(t) => {
                            let node = Value::Var(Var::Name(t));
                            proof {
                                assert(suffixes_text_from(suffixes@, 0) == Seq::<char>::empty());
                                assert(value_text(node) =~= prefix_text(
                                    Prefix::Name(node->Var_0->Name_0),
                                ) + suffixes_text_from(suffixes@, 0));
                            }
                            Ok((j, node))
                        },
                        Prefix::Expression(e) => {
                            let node = Value::ParseExpression(e);
                            proof {
                                assert(suffixes_text_from(suffixes@, 0) == Seq::<char>::empty());
                                assert(value_text(node) =~= prefix_text(
                                    Prefix::Expression(node->ParseExpression_0),
                                ) + suffixes_text_from(suffixes@, 0));
                            }
                            Ok((j, node))
                        },
                    }
                } else {
                    let is_call = match &suffixes[suffixes.len() - 1] {
                        Suffix::Call(_) => true,
                        _ => false,
                    };
                    if is_call {
                        let node = Value::FunctionCall(FunctionCall { prefix, suffixes });
                        Ok((j, node))
                    } else {
                        let node = Value::Var(Var::Expression(VarExpression { prefix, suffixes }));
                        Ok((j, node))
                    }
                }
            },
        }
    } else {
        Err(InternalAstError::NoMatch)
    }
}

/// Parses one table field.
fn parse_field(refs: &Vec<TokenReference>, j: usize) -> (r: Result<
    (usize, Field),
    InternalAstError,
>)
    requires
        refs@.len() > 0,
        j <= refs@.len(),
    ensures
        r matches Ok(p) ==> j < p.0 <= refs@.len() && field_text(p.1) == range_text(
            refs@,
            j as int,
            p.0 as int,
        ) && field_wf(p.1),
        r matches Err(e) ==> internal_error_bare(e),
    decreases refs@.len() - j, 8int,
{
    proof {
        assert(refs@.len() == refs.len());
    }
    match try_symbol(refs, j, Symbol::LeftBracket) {
        Some((j0, open)) => {
            match parse_expression(refs, j0) {
                Ok((j1, key)) => match expect_symbol(refs, j1, Symbol::RightBracket) {
                    Ok((j2, close)) => match expect_symbol(refs, j2, Symbol::Equal) {
                        Ok((j3, equal)) => match parse_expression(refs, j3) {
                            Ok((j4, value)) => {
                                let node = Field::ExpressionKey {
                                    brackets: ContainedSpan::new(open, close),
                                    key,
                                    equal,
                                    value,
                                };
                                proof {
                                    lemma_range_text_concat(refs@, j3 as int, j3 as int, j4 as int);
                                    lemma_range_text_concat(refs@, j2 as int, j3 as int, j4 as int);
                                    lemma_range_text_concat(refs@, j1 as int, j2 as int, j4 as int);
                                    lemma_range_text_concat(refs@, j0 as int, j1 as int, j4 as int);
                                    lemma_range_text_concat(refs@, j as int, j0 as int, j4 as int);
                                }
                                Ok((j4, node))
                            },
                            Err(InternalAstError::NoMatch) => Err(unexpected(refs, j3)),
                            Err(e) => Err(e),
                        },
                        Err(e) => Err(e),
                    },
                    Err(e) => Err(e),
                },
                Err(InternalAstError::NoMatch) => Err(unexpected(refs, j0)),
                Err(e) => Err(e),
            }
        },
        None => {
            let name_key = peek_identifier(refs, j) && j + 1 < refs.len() && peek_symbol(
                refs,
                j + 1,
                Symbol::Equal,
            );
            if name_key {
                let key = refs[j].clone();
                let equal = refs[j + 1].clone();
                proof {
                    lemma_range_text_one(refs@, j as int);
                    lemma_range_text_one(refs@, j + 1);
                }
                match parse_expression(refs, j + 2) {
                    Ok((j1, value)) => {
                        let node = Field::NameKey { key, equal, value };
                        proof {
                            lemma_range_text_concat(refs@, j + 1, j + 2, j1 as int);
                            lemma_range_text_concat(refs@, j as int, j + 1, j1 as int);
                        }
                        Ok((j1, node))
                    },
                    Err(InternalAstError::NoMatch) => Err(unexpected(refs, j + 2)),
                    Err(e) => Err(e),
                }
            } else {
                match parse_expression(refs, j) {
                    Ok((j1, e)) => Ok((j1, Field::NoKey(e))),
                    Err(e) => Err(e),
                }
            }
        },
    }
}

/// Parses a table constructor.
#[verifier::rlimit(100)]
fn parse_table(refs: &Vec<TokenReference>, i: usize) -> (r: Result<
    (usize, TableConstructor),
    InternalAstError,
>)
    requires
        refs@.len() > 0,
        i <= refs@.len(),
    ensures
        r matches Ok(p) ==> i < p.0 <= refs@.len() && table_text(p.1) == range_text(
            refs@,
            i as int,
            p.0 as int,
        ) && table_wf(p.1),
        r matches Err(e) ==> internal_error_bare(e),
    decreases refs@.len() - i, 3int,
{
    proof {
        assert(refs@.len() == refs.len());
    }
    match try_symbol(refs, i, Symbol::LeftBrace) {
        None => Err(InternalAstError::NoMatch),
        Some((j0, open)) => {
            let mut fields: Vec<(Field, Option<TokenReference>)> = Vec::new();
            let mut j = j0;
            proof {
                assert(fields_text_from(fields@, 0) =~= Seq::<char>::empty());
            }
            loop
                invariant
                    refs@.len() > 0,
                    refs@.len() <= usize::MAX,
                    i < j0 <= j <= refs@.len(),
                    ref_symbol(open, Symbol::LeftBrace),
                    ref_text(open) == range_text(refs@, i as int, j0 as int),
                    forall|q: int|
                        0 <= q < fields@.len() ==> field_wf((#[trigger] fields@[q]).0) && (
                        fields@[q].1 matches Some(t2) && (ref_symbol(t2, Symbol::Comma)
                            || ref_symbol(t2, Symbol::Semicolon))),
                    fields_text_from(fields@, 0) == range_text(refs@, j0 as int, j as int),
                decreases refs@.len() - j,
            {
                if peek_symbol(refs, j, Symbol::RightBrace) {
                    break;
                }
                match parse_field(refs, j) {
                    Err(InternalAstError::NoMatch) => {
                        return Err(unexpected(refs, j));
                    },
                    Err(e) => {
                        return Err(e);
                    },
                    Ok((k, field)) => {
                        let is_sep = peek_symbol(refs, k, Symbol::Comma) || peek_symbol(
                            refs,
                            k,
                            Symbol::Semicolon,
                        );
                        if is_sep {
                            let sep = refs[k].clone();
                            proof {
                                lemma_range_text_one(refs@, k as int);
                                lemma_fields_push(fields@, (field, Some(sep)), 0);
                                lemma_range_text_concat(refs@, k as int, k as int + 1, k as int + 1);
                                lemma_range_text_concat(refs@, j as int, k as int, k + 1);
                                lemma_range_text_concat(refs@, j0 as int, j as int, k + 1);
                                assert(range_text(refs@, j0 as int, j as int) + (field_text(field)
                                    + ref_text(sep)) =~= (range_text(refs@, j0 as int, j as int)
                                    + field_text(field)) + ref_text(sep));
                            }
                            fields.push((field, Some(sep)));
                            j = k + 1;
                        } else {
                            proof {
                                lemma_fields_push(fields@, (field, None), 0);
                                lemma_range_text_concat(refs@, j0 as int, j as int, k as int);
                                assert(field_text(field) + opt_ref_text(
                                    None::<TokenReference>,
                                ) =~= field_text(field));
                            }
                            fields.push((field, None));
                            // A field without a separator must be the last:
                            // the closing brace follows at once.
                            match expect_symbol(refs, k, Symbol::RightBrace) {
                                Err(e) => {
                                    return Err(e);
                                },
                                Ok((j1, close)) => {
                                    let node = TableConstructor {
                                        braces: ContainedSpan::new(open, close),
                                        fields,
                                    };
                                    proof {
                                        lemma_range_text_concat(
                                            refs@,
                                            j0 as int,
                                            k as int,
                                            j1 as int,
                                        );
                                        lemma_range_text_concat(
                                            refs@,
                                            i as int,
                                            j0 as int,
                                            j1 as int,
                                        );
                                        assert(table_wf(node));
                                    }
                                    return Ok((j1, node));
                                },
                            }
                        }
                    },
                }
            }
            match expect_symbol(refs, j, Symbol::RightBrace) {
                Err(e) => Err(e),
                Ok((j1, close)) => {
                    let node = TableConstructor {
                        braces: ContainedSpan::new(open, close),
                        fields,
                    };
                    proof {
                        lemma_range_text_concat(refs@, j0 as int, j as int, j1 as int);
                        lemma_range_text_concat(refs@, i as int, j0 as int, j1 as int);
                        assert(table_wf(node));
                    }
                    Ok((j1, node))
                },
            }
        },
    }
}

/// Finishes a function body after its parameters: the closing parenthesis,
/// the block, and `end`.
fn finish_funcbody(
    refs: &Vec<TokenReference>,
    i: usize,
    open: TokenReference,
    params: Punctuated<Parameter>,
    j: usize,
) -> (r: Result<(usize, FunctionBody), InternalAstError>)
    requires
        refs@.len() > 0,
        i < j <= refs@.len(),
        params.wf(),
        punct_params_wf(params.pairs@),
        ref_symbol(open, Symbol::LeftParen),
        ref_text(open) + punct_params_text(params.pairs@, 0) == range_text(
            refs@,
            i as int,
            j as int,
        ),
    ensures
        r matches Ok(p) ==> i < p.0 <= refs@.len() && funcbody_text(p.1) == range_text(
            refs@,
            i as int,
            p.0 as int,
        ) && funcbody_wf(p.1),
        r matches Err(e) ==> e is UnexpectedToken,
        r matches Err(e) ==> internal_error_bare(e),
    decreases refs@.len() - j, 10int,
{
    proof {
        assert(refs@.len() == refs.len());
    }
    match expect_symbol(refs, j, Symbol::RightParen) {
        Err(e) => Err(e),
        Ok((j1, close)) => match parse_block(refs, j1) {
            Err(e) => Err(e),
            Ok((j2, block)) => match expect_symbol(refs, j2, Symbol::End) {
                Err(e) => Err(e),
                Ok((j3, end_token)) => {
                    let node = FunctionBody {
                        parameters_parantheses: ContainedSpan::new(open, close),
                        parameters: params,
                        block,
                        end_token,
                    };
                    proof {
                        lemma_range_text_concat(refs@, j1 as int, j2 as int, j3 as int);
                        lemma_range_text_concat(refs@, j as int, j1 as int, j3 as int);
                        lemma_range_text_concat(refs@, i as int, j as int, j3 as int);
                        assert(funcbody_text(node) =~= (ref_text(node.parameters_parantheses.tokens.0)
                            + punct_params_text(node.parameters.pairs@, 0)) + (ref_text(
                            node.parameters_parantheses.tokens.1,
                        ) + (block_text(node.block) + ref_text(node.end_token))));
                    }
                    Ok((j3, node))
                },
            },
        },
    }
}

/// Parses a function body: parameters in parentheses, the block, and `end`.
#[verifier::rlimit(100)]
fn parse_funcbody(refs: &Vec<TokenReference>, i: usize) -> (r: Result<
    (usize, FunctionBody),
    InternalAstError,
>)
    requires
        refs@.len() > 0,
        i <= refs@.len(),
    ensures
        r matches Ok(p) ==> i < p.0 <= refs@.len() && funcbody_text(p.1) == range_text(
            refs@,
            i as int,
            p.0 as int,
        ) && funcbody_wf(p.1),
        r matches Err(e) ==> e is UnexpectedToken,
        r matches Err(e) ==> internal_error_bare(e),
    decreases refs@.len() - i, 11int,
{
    proof {
        assert(refs@.len() == refs.len());
    }
    match expect_symbol(refs, i, Symbol::LeftParen) {
        Err(e) => Err(e),
        Ok((j0, open)) => {
            if peek_symbol(refs, j0, Symbol::RightParen) {
                let params = Punctuated::<Parameter>::new();
                proof {
                    assert(punct_params_text(params.pairs@, 0) =~= Seq::<char>::empty());
                    assert(punct_params_wf(params.pairs@));
                    assert(ref_text(open) + punct_params_text(params.pairs@, 0) =~= range_text(
                        refs@,
                        i as int,
                        j0 as int,
                    ));
                }
                finish_funcbody(refs, i, open, params, j0)
            } else {
                let mut params = Punctuated::<Parameter>::new();
                let mut j = j0;
                proof {
                    assert(punct_params_text(params.pairs@, 0) =~= Seq::<char>::empty());
                }
                loop
                    invariant
                        refs@.len() > 0,
                        refs@.len() <= usize::MAX,
                        i < j0 <= j <= refs@.len(),
                        params.wf(),
                        params.pairs@.len() > 0 ==> pair_has_separator(
                            params.pairs@[params.pairs@.len() - 1],
                        ),
                        forall|q: int|
                            0 <= q < params.pairs@.len() ==> ((#[trigger] params.pairs@[q]) matches
                            Pair::Punctuated(p2, sp) && parameter_wf(p2) && ref_symbol(
                                sp,
                                Symbol::Comma,
                            )),
                        ref_symbol(open, Symbol::LeftParen),
                        punct_params_text(params.pairs@, 0) == range_text(
                            refs@,
                            j0 as int,
                            j as int,
                        ),
                        ref_text(open) == range_text(refs@, i as int, j0 as int),
                    decreases refs@.len() - j,
                {
                    let param: Parameter = if peek_identifier(refs, j) {
                        Parameter::Name(refs[j].clone())
                    } else if peek_symbol(refs, j, Symbol::Ellipse) {
                        Parameter::Ellipse(refs[j].clone())
                    } else {
                        return Err(unexpected(refs, j));
                    };
                    proof {
                        lemma_range_text_one(refs@, j as int);
                    }
                    match try_symbol(refs, j + 1, Symbol::Comma) {
                        Some((m, comma)) => {
                            proof {
                                lemma_punct_params_push(
                                    params.pairs@,
                                    Pair::Punctuated(param, comma),
                                    0,
                                );
                                lemma_range_text_concat(refs@, j as int, j + 1, m as int);
                                lemma_range_text_concat(refs@, j0 as int, j as int, m as int);
                                assert(range_text(refs@, j0 as int, j as int) + (parameter_text(
                                    param,
                                ) + ref_text(comma)) =~= (range_text(refs@, j0 as int, j as int)
                                    + parameter_text(param)) + ref_text(comma));
                            }
                            params.push(Pair::Punctuated(param, comma));
                            j = m;
                        },
                        None => {
                            proof {
                                lemma_punct_params_push(params.pairs@, Pair::End(param), 0);
                                lemma_range_text_concat(refs@, j0 as int, j as int, j + 1);
                                lemma_range_text_concat(refs@, i as int, j0 as int, j + 1);
                            }
                            params.push(Pair::End(param));
                            proof {
                                assert(punct_params_wf(params.pairs@));
                            }
                            return finish_funcbody(refs, i, open, params, j + 1);
                        },
                    }
                }
            }
        },
    }
}

/// Parses a `do ... end` statement; the `do` is already known to stand at
/// `i`.
fn parse_do_stmt(refs: &Vec<TokenReference>, i: usize) -> (r: Result<
    (usize, Stmt),
    InternalAstError,
>)
    requires
        refs@.len() > 0,
        i < refs@.len(),
        ref_symbol(refs@[i as int], Symbol::Do),
    ensures
        r matches Ok(p) ==> i < p.0 <= refs@.len() && stmt_text(p.1) == range_text(
            refs@,
            i as int,
            p.0 as int,
        ) && stmt_wf(p.1),
        r matches Err(e) ==> e is UnexpectedToken,
        r matches Err(e) ==> internal_error_bare(e),
    decreases refs@.len() - i, 9int,
{
    proof {
        assert(refs@.len() == refs.len());
    }
    let do_token = refs[i].clone();
    proof {
        lemma_range_text_one(refs@, i as int);
    }
    match parse_block(refs, i + 1) {
        Err(e) => Err(e),
        Ok((j, block)) => match expect_symbol(refs, j, Symbol::End) {
            Err(e) => Err(e),
            Ok((j1, end_token)) => {
                let node = Stmt::Do(Do { do_token, block, end_token });
                proof {
                    lemma_range_text_concat(refs@, i + 1, j as int, j1 as int);
                    lemma_range_text_concat(refs@, i as int, i + 1, j1 as int);
                }
                Ok((j1, node))
            },
        },
    }
}

/// Parses a `while` statement; the `while` is already known to stand at `i`.
fn parse_while_stmt(refs: &Vec<TokenReference>, i: usize) -> (r: Result<
    (usize, Stmt),
    InternalAstError,
>)
    requires
        refs@.len() > 0,
        i < refs@.len(),
        ref_symbol(refs@[i as int], Symbol::While),
    ensures
        r matches Ok(p) ==> i < p.0 <= refs@.len() && stmt_text(p.1) == range_text(
            refs@,
            i as int,
            p.0 as int,
        ) && stmt_wf(p.1),
        r matches Err(e) ==> e is UnexpectedToken,
        r matches Err(e) ==> internal_error_bare(e),
    decreases refs@.len() - i, 9int,
{
    proof {
        assert(refs@.len() == refs.len());
    }
    let while_token = refs[i].clone();
    proof {
        lemma_range_text_one(refs@, i as int);
    }
    match parse_expression(refs, i + 1) {
        Err(InternalAstError::NoMatch) => Err(unexpected(refs, i + 1)),
        Err(e) => Err(e),
        Ok((j0, condition)) => match expect_symbol(refs, j0, Symbol::Do) {
            Err(e) => Err(e),
            Ok((j1, do_token)) => match parse_block(refs, j1) {
                Err(e) => Err(e),
                Ok((j2, block)) => match expect_symbol(refs, j2, Symbol::End) {
                    Err(e) => Err(e),
                    Ok((j3, end_token)) => {
                        let node = Stmt::While(
                            While { while_token, condition, do_token, block, end_token },
                        );
                        proof {
                            lemma_range_text_concat(refs@, j1 as int, j2 as int, j3 as int);
                            lemma_range_text_concat(refs@, j0 as int, j1 as int, j3 as int);
                            lemma_range_text_concat(refs@, i + 1, j0 as int, j3 as int);
                            lemma_range_text_concat(refs@, i as int, i + 1, j3 as int);
                        }
                        Ok((j3, node))
                    },
                },
            },
        },
    }
}

/// Parses a `repeat ... until` statement; the `repeat` is already known to
/// stand at `i`.
fn parse_repeat_stmt(refs: &Vec<TokenReference>, i: usize) -> (r: Result<
    (usize, Stmt),
    InternalAstError,
>)
    requires
        refs@.len() > 0,
        i < refs@.len(),
        ref_symbol(refs@[i as int], Symbol::Repeat),
    ensures
        r matches Ok(p) ==> i < p.0 <= refs@.len() && stmt_text(p.1) == range_text(
            refs@,
            i as int,
            p.0 as int,
        ) && stmt_wf(p.1),
        r matches Err(e) ==> e is UnexpectedToken,
        r matches Err(e) ==> internal_error_bare(e),
    decreases refs@.len() - i, 9int,
{
    proof {
        assert(refs@.len() == refs.len());
    }
    let repeat_token = refs[i].clone();
    proof {
        lemma_range_text_one(refs@, i as int);
    }
    match parse_block(refs, i + 1) {
        Err(e) => Err(e),
        Ok((j0, block)) => match expect_symbol(refs, j0, Symbol::Until) {
            Err(e) => Err(e),
            Ok((j1, until_token)) => match parse_expression(refs, j1) {
                Err(InternalAstError::NoMatch) => Err(unexpected(refs, j1)),
                Err(e) => Err(e),
                Ok((j2, until)) => {
                    let node = Stmt::Repeat(Repeat { repeat_token, block, until_token, until });
                    proof {
                        lemma_range_text_concat(refs@, j0 as int, j1 as int, j2 as int);
                        lemma_range_text_concat(refs@, i + 1, j0 as int, j2 as int);
                        lemma_range_text_concat(refs@, i as int, i + 1, j2 as int);
                    }
                    Ok((j2, node))
                },
            },
        },
    }
}

/// Parses an `if` statement with its `elseif` and `else` branches; the `if`
/// is already known to stand at `i`.
#[verifier::rlimit(100)]
fn parse_if_stmt(refs: &Vec<TokenReference>, i: usize) -> (r: Result<
    (usize, Stmt),
    InternalAstError,
>)
    requires
        refs@.len() > 0,
        i < refs@.len(),
        ref_symbol(refs@[i as int], Symbol::If),
    ensures
        r matches Ok(p) ==> i < p.0 <= refs@.len() && stmt_text(p.1) == range_text(
            refs@,
            i as int,
            p.0 as int,
        ) && stmt_wf(p.1),
        r matches Err(e) ==> e is UnexpectedToken,
        r matches Err(e) ==> internal_error_bare(e),
    decreases refs@.len() - i, 9int,
{
    proof {
        assert(refs@.len() == refs.len());
    }
    let if_token = refs[i].clone();
    proof {
        lemma_range_text_one(refs@, i as int);
    }
    let condition: Expression;
    let then_token: TokenReference;
    let block: Block;
    let mut j: usize;
    match parse_expression(refs, i + 1) {
        Err(InternalAstError::NoMatch) => {
            return Err(unexpected(refs, i + 1));
        },
        Err(e) => {
            return Err(e);
        },
        Ok((j0, c)) => match expect_symbol(refs, j0, Symbol::Then) {
            Err(e) => {
                return Err(e);
            },
            Ok((j1, t)) => match parse_block(refs, j1) {
                Err(e) => {
                    return Err(e);
                },
                Ok((j2, b)) => {
                    condition = c;
                    then_token = t;
                    block = b;
                    j = j2;
                    proof {
                        lemma_range_text_concat(refs@, j0 as int, j1 as int, j2 as int);
                        lemma_range_text_concat(refs@, i + 1, j0 as int, j2 as int);
                        lemma_range_text_concat(refs@, i as int, i + 1, j2 as int);
                    }
                },
            },
        },
    }
    let ghost head_end: int = j as int;
    assert(ref_text(if_token) + expr_text(condition) + ref_text(then_token) + block_text(block)
        == range_text(refs@, i as int, head_end));
    assert(ref_symbol(if_token, Symbol::If) && expr_wf(condition) && ref_symbol(
        then_token,
        Symbol::Then,
    ) && block_wf(block));
    let mut elseifs: Vec<ElseIf> = Vec::new();
    proof {
        assert(elseifs_text_from(elseifs@, 0) =~= Seq::<char>::empty());
    }
    loop
        invariant
            refs@.len() > 0,
            i < head_end <= j <= refs@.len(),
            forall|q: int| 0 <= q < elseifs@.len() ==> elseif_wf(#[trigger] elseifs@[q]),
            elseifs_text_from(elseifs@, 0) == range_text(refs@, head_end, j as int),
        decreases refs@.len() - j,
    {
        match try_symbol(refs, j, Symbol::ElseIf) {
            None => {
                break;
            },
            Some((k0, else_if_token)) => match parse_expression(refs, k0) {
                Err(InternalAstError::NoMatch) => {
                    return Err(unexpected(refs, k0));
                },
                Err(e) => {
                    return Err(e);
                },
                Ok((k1, c2)) => match expect_symbol(refs, k1, Symbol::Then) {
                    Err(e) => {
                        return Err(e);
                    },
                    Ok((k2, t2)) => match parse_block(refs, k2) {
                        Err(e) => {
                            return Err(e);
                        },
                        Ok((k3, b2)) => {
                            let branch = ElseIf {
                                else_if_token,
                                condition: c2,
                                then_token: t2,
                                block: b2,
                            };
                            proof {
                                lemma_range_text_concat(refs@, k1 as int, k2 as int, k3 as int);
                                lemma_range_text_concat(refs@, k0 as int, k1 as int, k3 as int);
                                lemma_range_text_concat(refs@, j as int, k0 as int, k3 as int);
                                lemma_elseifs_push(elseifs@, branch, 0);
                                lemma_range_text_concat(refs@, head_end, j as int, k3 as int);
                            }
                            elseifs.push(branch);
                            j = k3;
                        },
                    },
                },
            },
        }
    }
    let ghost elseif_end: int = j as int;
    let else_token: Option<TokenReference>;
    let else_block: Option<Block>;
    match try_symbol(refs, j, Symbol::Else) {
        Some((k0, et)) => match parse_block(refs, k0) {
            Err(e) => {
                return Err(e);
            },
            Ok((k1, eb)) => {
                proof {
                    lemma_range_text_concat(refs@, j as int, k0 as int, k1 as int);
                }
                else_token = Some(et);
                else_block = Some(eb);
                j = k1;
            },
        },
        None => {
            else_token = None;
            else_block = None;
        },
    }
    let ghost else_end: int = j as int;
    match expect_symbol(refs, j, Symbol::End) {
        Err(e) => Err(e),
        Ok((j1, end_token)) => {
            let node = Stmt::If(
                If {
                    if_token,
                    condition,
                    then_token,
                    block,
                    else_if: if elseifs.len() == 0 {
                        None
                    } else {
                        Some(elseifs)
                    },
                    else_token,
                    else_block,
                    end_token,
                },
            );
            proof {
                lemma_range_text_concat(refs@, elseif_end, else_end, j1 as int);
                lemma_range_text_concat(refs@, head_end, elseif_end, j1 as int);
                lemma_range_text_concat(refs@, i as int, head_end, j1 as int);
                if elseifs@.len() == 0 {
                    assert(elseifs_text_from(elseifs@, 0) == Seq::<char>::empty());
                }
            }
            Ok((j1, node))
        },
    }
}

/// Chains the pieces of a generic `for` statement into one text range.
proof fn lemma_generic_for_text(
    refs: Seq<TokenReference>,
    g: GenericFor,
    i: int,
    i1: int,
    j0: int,
    j1: int,
    j2: int,
    j3: int,
    j4: int,
    j5: int,
)
    requires
        i <= i1 <= j0 <= j1 <= j2 <= j3 <= j4 <= j5,
        ref_text(g.for_token) == range_text(refs, i, i1),
        punct_names_text(g.names.pairs@, 0) == range_text(refs, i1, j0),
        ref_text(g.in_token) == range_text(refs, j0, j1),
        punct_exprs_text(g.expr_list.pairs@, 0) == range_text(refs, j1, j2),
        ref_text(g.do_token) == range_text(refs, j2, j3),
        block_text(g.block) == range_text(refs, j3, j4),
        ref_text(g.end_token) == range_text(refs, j4, j5),
    ensures
        stmt_text(Stmt::GenericFor(g)) == range_text(refs, i, j5),
{
    lemma_range_text_concat(refs, i, i1, j0);
    assert(range_text(refs, i, j0) == ref_text(g.for_token) + punct_names_text(
        g.names.pairs@,
        0,
    ));
    lemma_range_text_concat(refs, i, j0, j1);
    assert(range_text(refs, i, j1) == ref_text(g.for_token) + punct_names_text(g.names.pairs@, 0)
        + ref_text(g.in_token));
    lemma_range_text_concat(refs, i, j1, j2);
    assert(range_text(refs, i, j2) == ref_text(g.for_token) + punct_names_text(g.names.pairs@, 0)
        + ref_text(g.in_token) + punct_exprs_text(g.expr_list.pairs@, 0));
    lemma_range_text_concat(refs, i, j2, j3);
    assert(range_text(refs, i, j3) == ref_text(g.for_token) + punct_names_text(g.names.pairs@, 0)
        + ref_text(g.in_token) + punct_exprs_text(g.expr_list.pairs@, 0) + ref_text(g.do_token));
    lemma_range_text_concat(refs, i, j3, j4);
    lemma_range_text_concat(refs, i, j4, j5);
}

/// Parses a numeric or generic `for` statement; the `for` is already known
/// to stand at `i`.
fn parse_for_stmt(refs: &Vec<TokenReference>, i: usize) -> (r: Result<
    (usize, Stmt),
    InternalAstError,
>)
    requires
        refs@.len() > 0,
        i < refs@.len(),
        ref_symbol(refs@[i as int], Symbol::For),
    ensures
        r matches Ok(p) ==> i < p.0 <= refs@.len() && stmt_text(p.1) == range_text(
            refs@,
            i as int,
            p.0 as int,
        ) && stmt_wf(p.1),
        r matches Err(e) ==> e is UnexpectedToken,
        r matches Err(e) ==> internal_error_bare(e),
    decreases refs@.len() - i, 9int,
{
    proof {
        assert(refs@.len() == refs.len());
    }
    let numeric = peek_identifier(refs, i + 1) && i + 2 < refs.len() && peek_symbol(
        refs,
        i + 2,
        Symbol::Equal,
    );
    if numeric {
        parse_numeric_for(refs, i)
    } else {
        parse_generic_for(refs, i)
    }
}

/// Chains the pieces of a numeric `for` statement into one text range.
proof fn lemma_numeric_for_text(
    refs: Seq<TokenReference>,
    n: NumericFor,
    i: int,
    i1: int,
    i2: int,
    i3: int,
    j0: int,
    j1: int,
    j2: int,
    ja: int,
    j: int,
    m0: int,
    m1: int,
    m2: int,
)
    requires
        i <= i1 <= i2 <= i3 <= j0 <= j1 <= j2 <= ja <= j <= m0 <= m1 <= m2,
        ref_text(n.for_token) == range_text(refs, i, i1),
        ref_text(n.index_variable) == range_text(refs, i1, i2),
        ref_text(n.equal_token) == range_text(refs, i2, i3),
        expr_text(n.start) == range_text(refs, i3, j0),
        ref_text(n.start_end_comma) == range_text(refs, j0, j1),
        expr_text(n.end) == range_text(refs, j1, j2),
        opt_ref_text(n.end_step_comma) == range_text(refs, j2, ja),
        (match n.step {
            Some(e) => expr_text(e),
            None => Seq::<char>::empty(),
        }) == range_text(refs, ja, j),
        ref_text(n.do_token) == range_text(refs, j, m0),
        block_text(n.block) == range_text(refs, m0, m1),
        ref_text(n.end_token) == range_text(refs, m1, m2),
    ensures
        stmt_text(Stmt::NumericFor(n)) == range_text(refs, i, m2),
{
    lemma_range_text_concat(refs, i, i1, i2);
    assert(range_text(refs, i, i2) == ref_text(n.for_token) + ref_text(n.index_variable));
    lemma_range_text_concat(refs, i, i2, i3);
    assert(range_text(refs, i, i3) == ref_text(n.for_token) + ref_text(n.index_variable)
        + ref_text(n.equal_token));
    lemma_range_text_concat(refs, i, i3, j0);
    assert(range_text(refs, i, j0) == ref_text(n.for_token) + ref_text(n.index_variable)
        + ref_text(n.equal_token) + expr_text(n.start));
    lemma_range_text_concat(refs, i, j0, j1);
    assert(range_text(refs, i, j1) == ref_text(n.for_token) + ref_text(n.index_variable)
        + ref_text(n.equal_token) + expr_text(n.start) + ref_text(n.start_end_comma));
    lemma_range_text_concat(refs, i, j1, j2);
    assert(range_text(refs, i, j2) == ref_text(n.for_token) + ref_text(n.index_variable)
        + ref_text(n.equal_token) + expr_text(n.start) + ref_text(n.start_end_comma) + expr_text(
        n.end,
    ));
    lemma_range_text_concat(refs, i, j2, ja);
    assert(range_text(refs, i, ja) == ref_text(n.for_token) + ref_text(n.index_variable)
        + ref_text(n.equal_token) + expr_text(n.start) + ref_text(n.start_end_comma) + expr_text(
        n.end,
    ) + opt_ref_text(n.end_step_comma));
    lemma_range_text_concat(refs, i, ja, j);
    assert(range_text(refs, i, j) == ref_text(n.for_token) + ref_text(n.index_variable)
        + ref_text(n.equal_token) + expr_text(n.start) + ref_text(n.start_end_comma) + expr_text(
        n.end,
    ) + opt_ref_text(n.end_step_comma) + (match n.step {
        Some(e) => expr_text(e),
        None => Seq::<char>::empty(),
    }));
    lemma_range_text_concat(refs, i, j, m0);
    lemma_range_text_concat(refs, i, m0, m1);
    lemma_range_text_concat(refs, i, m1, m2);
}

/// Parses a numeric `for` statement, `for i = a, b [, c] do ... end`.
#[verifier::rlimit(100)]
fn parse_numeric_for(refs: &Vec<TokenReference>, i: usize) -> (r: Result<
    (usize, Stmt),
    InternalAstError,
>)
    requires
        refs@.len() > 0,
        i < refs@.len(),
        ref_symbol(refs@[i as int], Symbol::For),
        i + 2 < refs@.len(),
        ref_is_identifier(refs@[i + 1]),
        ref_symbol(refs@[i + 2], Symbol::Equal),
    ensures
        r matches Ok(p) ==> i < p.0 <= refs@.len() && stmt_text(p.1) == range_text(
            refs@,
            i as int,
            p.0 as int,
        ) && stmt_wf(p.1),
        r matches Err(e) ==> e is UnexpectedToken,
        r matches Err(e) ==> internal_error_bare(e),
    decreases refs@.len() - i, 8int,
{
    proof {
        assert(refs@.len() == refs.len());
    }
    let for_token = refs[i].clone();
    let index_variable = refs[i + 1].clone();
    let equal_token = refs[i + 2].clone();
    proof {
        lemma_range_text_one(refs@, i as int);
        lemma_range_text_one(refs@, i + 1);
        lemma_range_text_one(refs@, i + 2);
    }
    match parse_expression(refs, i + 3) {
        Err(InternalAstError::NoMatch) => Err(unexpected(refs, i + 3)),
        Err(e) => Err(e),
        Ok((j0, start)) => match expect_symbol(refs, j0, Symbol::Comma) {
            Err(e) => Err(e),
            Ok((j1, start_end_comma)) => match parse_expression(refs, j1) {
                Err(InternalAstError::NoMatch) => Err(unexpected(refs, j1)),
                Err(e) => Err(e),
                Ok((j2, end)) => {
                    let end_step_comma: Option<TokenReference>;
                    let step: Option<Expression>;
                    let mut j: usize = j2;
                    let ghost mut ja: int = j2 as int;
                    match try_symbol(refs, j2, Symbol::Comma) {
                        Some((k0, c2)) => match parse_expression(refs, k0) {
                            Err(InternalAstError::NoMatch) => {
                                return Err(unexpected(refs, k0));
                            },
                            Err(e) => {
                                return Err(e);
                            },
                            Ok((k1, st)) => {
                                end_step_comma = Some(c2);
                                step = Some(st);
                                j = k1;
                                proof {
                                    ja = k0 as int;
                                }
                            },
                        },
                        None => {
                            end_step_comma = None;
                            step = None;
                        },
                    }
                    assert(opt_ref_text(end_step_comma) == range_text(refs@, j2 as int, ja));
                    assert((match step {
                        Some(e) => expr_text(e),
                        None => Seq::<char>::empty(),
                    }) == range_text(refs@, ja, j as int));
                    match expect_symbol(refs, j, Symbol::Do) {
                        Err(e) => Err(e),
                        Ok((m0, do_token)) => match parse_block(refs, m0) {
                            Err(e) => Err(e),
                            Ok((m1, block)) => match expect_symbol(refs, m1, Symbol::End) {
                                Err(e) => Err(e),
                                Ok((m2, end_token)) => {
                                    let nf = NumericFor {
                                        for_token,
                                        index_variable,
                                        equal_token,
                                        start,
                                        start_end_comma,
                                        end,
                                        end_step_comma,
                                        step,
                                        do_token,
                                        block,
                                        end_token,
                                    };
                                    proof {
                                        lemma_numeric_for_text(
                                            refs@,
                                            nf,
                                            i as int,
                                            i + 1,
                                            i + 2,
                                            i + 3,
                                            j0 as int,
                                            j1 as int,
                                            j2 as int,
                                            ja,
                                            j as int,
                                            m0 as int,
                                            m1 as int,
                                            m2 as int,
                                        );
                                    }
                                    Ok((m2, Stmt::NumericFor(nf)))
                                },
                            },
                        },
                    }
                },
            },
        },
    }
}

/// Parses a generic `for` statement, `for a, b in exprs do ... end`.
#[verifier::rlimit(100)]
fn parse_generic_for(refs: &Vec<TokenReference>, i: usize) -> (r: Result<
    (usize, Stmt),
    InternalAstError,
>)
    requires
        refs@.len() > 0,
        i < refs@.len(),
        ref_symbol(refs@[i as int], Symbol::For),
    ensures
        r matches Ok(p) ==> i < p.0 <= refs@.len() && stmt_text(p.1) == range_text(
            refs@,
            i as int,
            p.0 as int,
        ) && stmt_wf(p.1),
        r matches Err(e) ==> e is UnexpectedToken,
        r matches Err(e) ==> internal_error_bare(e),
    decreases refs@.len() - i, 8int,
{
    proof {
        assert(refs@.len() == refs.len());
    }
    let for_token = refs[i].clone();
    proof {
        lemma_range_text_one(refs@, i as int);
    }
    match parse_punct_names(refs, i + 1, Symbol::Comma) {
        Err(e) => Err(e),
        Ok((j0, names)) => match expect_symbol(refs, j0, Symbol::In) {
            Err(e) => Err(e),
            Ok((j1, in_token)) => match parse_punct_exprs(refs, j1, true) {
                Err(InternalAstError::NoMatch) => Err(unexpected(refs, j1)),
                Err(e) => Err(e),
                Ok((j2, expr_list)) => match expect_symbol(refs, j2, Symbol::Do) {
                    Err(e) => Err(e),
                    Ok((j3, do_token)) => match parse_block(refs, j3) {
                        Err(e) => Err(e),
                        Ok((j4, block)) => match expect_symbol(refs, j4, Symbol::End) {
                            Err(e) => Err(e),
                            Ok((j5, end_token)) => {
                                let gf = GenericFor {
                                    for_token,
                                    names,
                                    in_token,
                                    expr_list,
                                    do_token,
                                    block,
                                    end_token,
                                };
                                proof {
                                    lemma_generic_for_text(
                                        refs@,
                                        gf,
                                        i as int,
                                        i + 1,
                                        j0 as int,
                                        j1 as int,
                                        j2 as int,
                                        j3 as int,
                                        j4 as int,
                                        j5 as int,
                                    );
                                    assert(stmt_wf(Stmt::GenericFor(gf)));
                                }
                                Ok((j5, Stmt::GenericFor(gf)))
                            },
                        },
                    },
                },
            },
        },
    }
}

/// Parses a function name: a dot-separated path, and an optional method
/// name after a colon.
fn parse_funcname(refs: &Vec<TokenReference>, j: usize) -> (r: Result<
    (usize, FunctionName),
    InternalAstError,
>)
    requires
        refs@.len() > 0,
        j <= refs@.len(),
    ensures
        r matches Ok(p) ==> j < p.0 <= refs@.len() && funcname_text(p.1) == range_text(
            refs@,
            j as int,
            p.0 as int,
        ) && funcname_wf(p.1),
        r matches Err(e) ==> e is UnexpectedToken,
        r matches Err(e) ==> internal_error_bare(e),
    decreases refs@.len() - j, 9int,
{
    proof {
        assert(refs@.len() == refs.len());
    }
    match parse_punct_names(refs, j, Symbol::Dot) {
        Err(e) => Err(e),
        Ok((j0, names)) => match try_symbol(refs, j0, Symbol::Colon) {
            Some((j1, colon)) => match expect_identifier(refs, j1) {
                Err(e) => Err(e),
                Ok((j2, method)) => {
                    let node = FunctionName { names, colon_name: Some((colon, method)) };
                    proof {
                        lemma_range_text_concat(refs@, j0 as int, j1 as int, j2 as int);
                        lemma_range_text_concat(refs@, j as int, j0 as int, j2 as int);
                    }
                    Ok((j2, node))
                },
            },
            None => {
                let node = FunctionName { names, colon_name: None };
                proof {
                    assert(funcname_text(node) =~= punct_names_text(node.names.pairs@, 0));
                }
                Ok((j0, node))
            },
        },
    }
}

/// Parses a function declaration; the `function` is already known to stand
/// at `i`.
fn parse_function_decl(refs: &Vec<TokenReference>, i: usize) -> (r: Result<
    (usize, Stmt),
    InternalAstError,
>)
    requires
        refs@.len() > 0,
        i < refs@.len(),
        ref_symbol(refs@[i as int], Symbol::Function),
    ensures
        r matches Ok(p) ==> i < p.0 <= refs@.len() && stmt_text(p.1) == range_text(
            refs@,
            i as int,
            p.0 as int,
        ) && stmt_wf(p.1),
        r matches Err(e) ==> e is UnexpectedToken,
        r matches Err(e) ==> internal_error_bare(e),
    decreases refs@.len() - i, 9int,
{
    proof {
        assert(refs@.len() == refs.len());
    }
    let function_token = refs[i].clone();
    proof {
        lemma_range_text_one(refs@, i as int);
    }
    match parse_funcname(refs, i + 1) {
        Err(e) => Err(e),
        Ok((j0, name)) => match parse_funcbody(refs, j0) {
            Err(e) => Err(e),
            Ok((j1, body)) => {
                let node = Stmt::FunctionDeclaration(
                    FunctionDeclaration { function_token, name, body },
                );
                proof {
                    lemma_range_text_concat(refs@, i + 1, j0 as int, j1 as int);
                    lemma_range_text_concat(refs@, i as int, i + 1, j1 as int);
                }
                Ok((j1, node))
            },
        },
    }
}

/// Parses a local function or a local assignment; the `local` is already
/// known to stand at `i`.
#[verifier::rlimit(100)]
fn parse_local_stmt(refs: &Vec<TokenReference>, i: usize) -> (r: Result<
    (usize, Stmt),
    InternalAstError,
>)
    requires
        refs@.len() > 0,
        i < refs@.len(),
        ref_symbol(refs@[i as int], Symbol::Local),
    ensures
        r matches Ok(p) ==> i < p.0 <= refs@.len() && stmt_text(p.1) == range_text(
            refs@,
            i as int,
            p.0 as int,
        ) && stmt_wf(p.1),
        r matches Err(e) ==> e is UnexpectedToken,
        r matches Err(e) ==> internal_error_bare(e),
    decreases refs@.len() - i, 9int,
{
    proof {
        assert(refs@.len() == refs.len());
    }
    let local_token = refs[i].clone();
    proof {
        lemma_range_text_one(refs@, i as int);
    }
    if peek_symbol(refs, i + 1, Symbol::Function) {
        let function_token = refs[i + 1].clone();
        proof {
            lemma_range_text_one(refs@, i + 1);
        }
        match expect_identifier(refs, i + 2) {
            Err(e) => Err(e),
            Ok((j0, name)) => match parse_funcbody(refs, j0) {
                Err(e) => Err(e),
                Ok((j1, func_body)) => {
                    let node = Stmt::LocalFunction(
                        LocalFunction { local_token, function_token, name, func_body },
                    );
                    proof {
                        lemma_range_text_concat(refs@, i + 2, j0 as int, j1 as int);
                        lemma_range_text_concat(refs@, i + 1, i + 2, j1 as int);
                        lemma_range_text_concat(refs@, i as int, i + 1, j1 as int);
                    }
                    Ok((j1, node))
                },
            },
        }
    } else {
        match parse_punct_names(refs, i + 1, Symbol::Comma) {
            Err(e) => Err(e),
            Ok((j0, name_list)) => match try_symbol(refs, j0, Symbol::Equal) {
                Some((j1, eq)) => match parse_punct_exprs(refs, j1, true) {
                    Err(e) => Err(e),
                    Ok((j2, expr_list)) => {
                        let node = Stmt::LocalAssignment(
                            LocalAssignment {
                                local_token,
                                name_list,
                                equal_token: Some(eq),
                                expr_list,
                            },
                        );
                        proof {
                            lemma_range_text_concat(refs@, j0 as int, j1 as int, j2 as int);
                            lemma_range_text_concat(refs@, i + 1, j0 as int, j2 as int);
                            lemma_range_text_concat(refs@, i as int, i + 1, j2 as int);
                        }
                        Ok((j2, node))
                    },
                },
                None => {
                    let node = Stmt::LocalAssignment(
                        LocalAssignment {
                            local_token,
                            name_list,
                            equal_token: None,
                            expr_list: Punctuated::new(),
                        },
                    );
                    proof {
                        lemma_range_text_concat(refs@, i as int, i + 1, j0 as int);
                        assert(stmt_text(node) =~= range_text(refs@, i as int, j0 as int));
                    }
                    Ok((j0, node))
                },
            },
        }
    }
}

/// Parses one statement, or reports that none starts at `i`.  After a
/// statement keyword the parser is committed: a malformed statement is a
/// definite failure, never a recoverable one.
fn parse_stmt(refs: &Vec<TokenReference>, i: usize) -> (r: Result<
    (usize, Stmt),
    InternalAstError,
>)
    requires
        refs@.len() > 0,
        i <= refs@.len(),
    ensures
        r matches Ok(p) ==> i < p.0 <= refs@.len() && stmt_text(p.1) == range_text(
            refs@,
            i as int,
            p.0 as int,
        ) && stmt_wf(p.1),
        r matches Err(e) && e is NoMatch ==> !(i < refs@.len() && starts_keyword_stmt(
            refs@[i as int],
        )),
        r matches Err(e) ==> internal_error_bare(e),
    decreases refs@.len() - i, 10int,
{
    proof {
        assert(refs@.len() == refs.len());
    }
    if peek_symbol(refs, i, Symbol::Do) {
        parse_do_stmt(refs, i)
    } else if peek_symbol(refs, i, Symbol::While) {
        parse_while_stmt(refs, i)
    } else if peek_symbol(refs, i, Symbol::Repeat) {
        parse_repeat_stmt(refs, i)
    } else if peek_symbol(refs, i, Symbol::If) {
        parse_if_stmt(refs, i)
    } else if peek_symbol(refs, i, Symbol::For) {
        parse_for_stmt(refs, i)
    } else if peek_symbol(refs, i, Symbol::Function) {
        parse_function_decl(refs, i)
    } else if peek_symbol(refs, i, Symbol::Local) {
        parse_local_stmt(refs, i)
    } else {
        match parse_assignment(refs, i) {
            Ok(p) => Ok(p),
            Err(InternalAstError::NoMatch) => parse_call_stmt(refs, i),
            Err(e) => Err(e),
        }
    }
}

/// Parses an assignment: variables, `=`, expressions.  Recoverable until
/// the `=` is seen.
fn parse_assignment(refs: &Vec<TokenReference>, i: usize) -> (r: Result<
    (usize, Stmt),
    InternalAstError,
>)
    requires
        refs@.len() > 0,
        i <= refs@.len(),
    ensures
        r matches Ok(p) ==> i < p.0 <= refs@.len() && stmt_text(p.1) == range_text(
            refs@,
            i as int,
            p.0 as int,
        ) && stmt_wf(p.1),
        r matches Err(e) ==> internal_error_bare(e),
    decreases refs@.len() - i, 9int,
{
    proof {
        assert(refs@.len() == refs.len());
    }
    match parse_punct_vars(refs, i) {
        Err(e) => Err(e),
        Ok((j0, var_list)) => match try_symbol(refs, j0, Symbol::Equal) {
            None => Err(InternalAstError::NoMatch),
            Some((j1, equal_token)) => match parse_punct_exprs(refs, j1, true) {
                Err(e) => Err(e),
                Ok((j2, expr_list)) => {
                    let node = Stmt::Assignment(Assignment { var_list, equal_token, expr_list });
                    proof {
                        lemma_range_text_concat(refs@, j0 as int, j1 as int, j2 as int);
                        lemma_range_text_concat(refs@, i as int, j0 as int, j2 as int);
                    }
                    Ok((j2, node))
                },
            },
        },
    }
}

/// Parses a standalone function call: a prefix whose suffixes end in a
/// call.  Recoverable when the suffixes end otherwise.
fn parse_call_stmt(refs: &Vec<TokenReference>, i: usize) -> (r: Result<
    (usize, Stmt),
    InternalAstError,
>)
    requires
        refs@.len() > 0,
        i <= refs@.len(),
    ensures
        r matches Ok(p) ==> i < p.0 <= refs@.len() && stmt_text(p.1) == range_text(
            refs@,
            i as int,
            p.0 as int,
        ) && stmt_wf(p.1),
        r matches Err(e) ==> internal_error_bare(e),
    decreases refs@.len() - i, 9int,
{
    proof {
        assert(refs@.len() == refs.len());
    }
    match parse_prefix_suffixes(refs, i) {
        Err(e) => Err(e),
        Ok((j, prefix, suffixes)) => {
            if suffixes.len() == 0 {
                return Err(InternalAstError::NoMatch);
            }
            let is_call = match &suffixes[suffixes.len() - 1] {
                Suffix::Call(_) => true,
                _ => false,
            };
            if is_call {
                let node = Stmt::FunctionCall(FunctionCall { prefix, suffixes });
                Ok((j, node))
            } else {
                Err(InternalAstError::NoMatch)
            }
        },
    }
}

/// Parses a block-terminating statement: `return` with its expressions, or
/// `break`.
fn parse_last_stmt(refs: &Vec<TokenReference>, i: usize) -> (r: Result<
    (usize, LastStmt),
    InternalAstError,
>)
    requires
        refs@.len() > 0,
        i <= refs@.len(),
    ensures
        r matches Ok(p) ==> i < p.0 <= refs@.len() && last_stmt_text(p.1) == range_text(
            refs@,
            i as int,
            p.0 as int,
        ) && last_stmt_wf(p.1),
        r matches Err(e) ==> internal_error_bare(e),
    decreases refs@.len() - i, 10int,
{
    proof {
        assert(refs@.len() == refs.len());
    }
    match try_symbol(refs, i, Symbol::Break) {
        Some((j, t)) => Ok((j, LastStmt::Break(t))),
        None => match try_symbol(refs, i, Symbol::Return) {
            Some((j0, token)) => match parse_punct_exprs(refs, j0, false) {
                Err(e) => Err(e),
                Ok((j1, return_values)) => {
                    let node = LastStmt::Return(Return { token, return_values });
                    proof {
                        lemma_range_text_concat(refs@, i as int, j0 as int, j1 as int);
                    }
                    Ok((j1, node))
                },
            },
            None => Err(InternalAstError::NoMatch),
        },
    }
}

/// Parses a block: statements with optional semicolons, then an optional
/// block-terminating statement.  A block matches anywhere (possibly
/// empty), so the only failures it reports are definite ones.
pub(crate) fn parse_block(refs: &Vec<TokenReference>, i: usize) -> (r: Result<
    (usize, Block),
    InternalAstError,
>)
    requires
        refs@.len() > 0,
        i <= refs@.len(),
    ensures
        r matches Ok(p) ==> i <= p.0 <= refs@.len() && block_text(p.1) == range_text(
            refs@,
            i as int,
            p.0 as int,
        ) && block_wf(p.1),
        r matches Err(e) ==> e is UnexpectedToken,
        r matches Err(e) ==> internal_error_bare(e),
    decreases refs@.len() - i, 11int,
{
    proof {
        assert(refs@.len() == refs.len());
    }
    let mut stmts: Vec<(Stmt, Option<TokenReference>)> = Vec::new();
    let mut j: usize = i;
    proof {
        assert(stmts_text_from(stmts@, 0) =~= Seq::<char>::empty());
    }
    loop
        invariant
            refs@.len() > 0,
            i <= j <= refs@.len(),
            forall|q: int|
                0 <= q < stmts@.len() ==> stmt_wf((#[trigger] stmts@[q]).0) && opt_semicolon_wf(
                    stmts@[q].1,
                ),
            stmts_text_from(stmts@, 0) == range_text(refs@, i as int, j as int),
        decreases refs@.len() - j,
    {
        match parse_stmt(refs, j) {
            Err(InternalAstError::NoMatch) => {
                break;
            },
            Err(e) => {
                return Err(e);
            },
            Ok((k, stmt)) => {
                let entry: (Stmt, Option<TokenReference>);
                let m: usize;
                match try_symbol(refs, k, Symbol::Semicolon) {
                    Some((m2, semi)) => {
                        proof {
                            lemma_range_text_concat(refs@, j as int, k as int, m2 as int);
                        }
                        entry = (stmt, Some(semi));
                        m = m2;
                    },
                    None => {
                        entry = (stmt, None);
                        m = k;
                    },
                }
                proof {
                    lemma_stmts_push(stmts@, entry, 0);
                    lemma_range_text_concat(refs@, i as int, j as int, m as int);
                    assert(stmt_text(entry.0) + opt_ref_text(entry.1) == range_text(
                        refs@,
                        j as int,
                        m as int,
                    ));
                    assert(range_text(refs@, i as int, j as int) + (stmt_text(entry.0)
                        + opt_ref_text(entry.1)) =~= (range_text(refs@, i as int, j as int)
                        + stmt_text(entry.0)) + opt_ref_text(entry.1));
                }
                stmts.push(entry);
                j = m;
            },
        }
    }
    let ghost stmts_end: int = j as int;
    match parse_last_stmt(refs, j) {
        Err(InternalAstError::NoMatch) => {
            let node = Block { stmts, last_stmt: None };
            proof {
                assert(block_text(node) =~= stmts_text_from(node.stmts@, 0));
            }
            Ok((j, node))
        },
        Err(e) => Err(e),
        Ok((k, ls)) => {
            let sep: Option<TokenReference>;
            let m: usize;
            match try_symbol(refs, k, Symbol::Semicolon) {
                Some((m2, semi)) => {
                    proof {
                        lemma_range_text_concat(refs@, stmts_end, k as int, m2 as int);
                    }
                    sep = Some(semi);
                    m = m2;
                },
                None => {
                    sep = None;
                    m = k;
                },
            }
            let node = Block { stmts, last_stmt: Some((ls, sep)) };
            proof {
                lemma_range_text_concat(refs@, i as int, stmts_end, m as int);
                assert(last_stmt_text(ls) + opt_ref_text(sep) == range_text(
                    refs@,
                    stmts_end,
                    m as int,
                ));
                assert(block_text(node) =~= stmts_text_from(node.stmts@, 0) + (last_stmt_text(ls)
                    + opt_ref_text(sep)));
            }
            Ok((m, node))
        },
    }
}


} // verus!
