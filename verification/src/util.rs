//! Rendering helpers shared by the tree types: a small capability trait for
//! anything that renders back to source text, and helpers for optional and
//! punctuated parts.

use vstd::prelude::*;
use vstd::string::StringExecFns;

use crate::ast::{
    block_text, elseif_text, expr_text, last_stmt_text, opt_ref_text, ref_text, stmt_text,
    suffix_text, Block, ElseIf, Expression, LastStmt, Stmt, Suffix,
};
use crate::tokenizer::{token_ref_text, TokenReference};

verus! {

/// Something that renders back to exactly the source text it was parsed
/// from.
pub trait Render {
    /// The text the value renders to.
    spec fn render_text(&self) -> Seq<char>;

    /// Renders the value.
    fn render(&self) -> (r: String)
        ensures
            r@ == self.render_text(),
    ;
}

impl Render for TokenReference {
    open spec fn render_text(&self) -> Seq<char> {
        token_ref_text(self@)
    }

    fn render(&self) -> (r: String)
        ensures
            r@ == self.render_text(),
    {
        self.to_string()
    }
}

impl Render for Stmt {
    open spec fn render_text(&self) -> Seq<char> {
        stmt_text(*self)
    }

    fn render(&self) -> (r: String)
        ensures
            r@ == self.render_text(),
    {
        Stmt::render(self)
    }
}

impl Render for LastStmt {
    open spec fn render_text(&self) -> Seq<char> {
        last_stmt_text(*self)
    }

    fn render(&self) -> (r: String)
        ensures
            r@ == self.render_text(),
    {
        LastStmt::render(self)
    }
}

impl Render for Expression {
    open spec fn render_text(&self) -> Seq<char> {
        expr_text(*self)
    }

    fn render(&self) -> (r: String)
        ensures
            r@ == self.render_text(),
    {
        Expression::render(self)
    }
}

impl Render for Block {
    open spec fn render_text(&self) -> Seq<char> {
        block_text(*self)
    }

    fn render(&self) -> (r: String)
        ensures
            r@ == self.render_text(),
    {
        Block::render(self)
    }
}

impl Render for ElseIf {
    open spec fn render_text(&self) -> Seq<char> {
        elseif_text(*self)
    }

    fn render(&self) -> (r: String)
        ensures
            r@ == self.render_text(),
    {
        ElseIf::render(self)
    }
}

impl Render for Suffix {
    open spec fn render_text(&self) -> Seq<char> {
        suffix_text(*self)
    }

    fn render(&self) -> (r: String)
        ensures
            r@ == self.render_text(),
    {
        Suffix::render(self)
    }
}

/// The text of a sequence of items each followed by an optional separator,
/// from `i` on.
pub open spec fn punctuated_vec_text<T: Render>(
    s: Seq<(T, Option<TokenReference>)>,
    i: int,
) -> Seq<char>
    decreases s.len() - i,
{
    if 0 <= i < s.len() {
        s[i].0.render_text() + opt_ref_text(s[i].1) + punctuated_vec_text(s, i + 1)
    } else {
        Seq::empty()
    }
}

/// The text of a sequence of items, from `i` on.
pub open spec fn joined_text<T: Render>(s: Seq<T>, i: int) -> Seq<char>
    decreases s.len() - i,
{
    if 0 <= i < s.len() {
        s[i].render_text() + joined_text(s, i + 1)
    } else {
        Seq::empty()
    }
}

/// Renders an optional value; nothing when absent.
pub fn display_option<T: Render>(option: &Option<T>) -> (r: String)
    ensures
        r@ == match option {
            Some(x) => x.render_text(),
            None => Seq::<char>::empty(),
        },
{
    match option {
        Some(x) => x.render(),
        None => String::new(),
    }
}

/// Renders an item followed by its optional separator token.
pub fn display_optional_punctuated<T: Render>(pair: &(T, Option<TokenReference>)) -> (r: String)
    ensures
        r@ == pair.0.render_text() + opt_ref_text(pair.1),
{
    let mut s = pair.0.render();
    match &pair.1 {
        Some(t) => {
            let piece = t.to_string();
            s.append(piece.as_str());
        },
        None => {
            proof {
                assert(s@ + opt_ref_text(pair.1) =~= s@);
            }
        },
    }
    s
}

/// Renders a whole sequence of items with their optional separators.
pub fn display_optional_punctuated_vec<T: Render>(vec: &Vec<(T, Option<TokenReference>)>) -> (r:
    String)
    ensures
        r@ == punctuated_vec_text(vec@, 0),
{
    let mut s = String::new();
    let mut i: usize = 0;
    proof {
        assert(s@ + punctuated_vec_text(vec@, 0) =~= punctuated_vec_text(vec@, 0));
    }
    while i < vec.len()
        invariant
            i <= vec@.len(),
            s@ + punctuated_vec_text(vec@, i as int) == punctuated_vec_text(vec@, 0),
        decreases vec@.len() - i,
    {
        let ghost old_s = s@;
        let piece = display_optional_punctuated(&vec[i]);
        s.append(piece.as_str());
        proof {
            assert(s@ + punctuated_vec_text(vec@, i + 1) =~= old_s + ((vec@[i as int].0.render_text()
                + opt_ref_text(vec@[i as int].1)) + punctuated_vec_text(vec@, i + 1)));
        }
        i = i + 1;
    }
    proof {
        assert(s@ + punctuated_vec_text(vec@, vec@.len() as int) =~= s@);
    }
    s
}

/// Renders a whole sequence of items, one after the other.
pub fn join_vec<T: Render>(vec: &Vec<T>) -> (r: String)
    ensures
        r@ == joined_text(vec@, 0),
{
    let mut s = String::new();
    let mut i: usize = 0;
    proof {
        assert(s@ + joined_text(vec@, 0) =~= joined_text(vec@, 0));
    }
    while i < vec.len()
        invariant
            i <= vec@.len(),
            s@ + joined_text(vec@, i as int) == joined_text(vec@, 0),
        decreases vec@.len() - i,
    {
        let ghost old_s = s@;
        let piece = vec[i].render();
        s.append(piece.as_str());
        proof {
            assert(s@ + joined_text(vec@, i + 1) =~= old_s + (vec@[i as int].render_text()
                + joined_text(vec@, i + 1)));
        }
        i = i + 1;
    }
    proof {
        assert(s@ + joined_text(vec@, vec@.len() as int) =~= s@);
    }
    s
}

} // verus!
