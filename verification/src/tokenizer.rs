//! Tokenization of Lua source text.
//!
//! [`tokens`] turns a source string into an ordered sequence of [`Token`]s,
//! each carrying its raw text and its start and end positions, ending with
//! exactly one end-of-file token.  Concatenating the raw text of every token
//! reproduces the source exactly; [`spec_tokenize`] is the specification the
//! tokenizer is proved against.

use vstd::prelude::*;
use vstd::string::{StringExecFns, StrSliceExecFns};

use crate::text::string_from_range;

verus! {

/// A position in the source text: byte offset, 1-based line, 1-based column
/// counted in characters.
#[derive(Clone, Copy, Debug, PartialEq, Eq, Structural, Hash)]
pub struct Position {
    pub bytes: usize,
    pub line: usize,
    pub character: usize,
}

impl Position {
    /// The byte offset from the start of the source.
    pub fn bytes(&self) -> (r: usize)
        ensures
            r == self.bytes,
    {
        self.bytes
    }

    /// The 1-based line number.
    pub fn line(&self) -> (r: usize)
        ensures
            r == self.line,
    {
        self.line
    }

    /// The 1-based column, counted in characters.
    pub fn character(&self) -> (r: usize)
        ensures
            r == self.character,
    {
        self.character
    }
}

/// Keywords and punctuation of Lua 5.1, each matched by exact text.
#[derive(Clone, Copy, Debug, PartialEq, Eq, Structural, Hash)]
pub enum Symbol {
    And,
    Break,
    Do,
    Else,
    ElseIf,
    End,
    False,
    For,
    Function,
    If,
    In,
    Local,
    Nil,
    Not,
    Or,
    Repeat,
    Return,
    Then,
    True,
    Until,
    While,
    Caret,
    Colon,
    Comma,
    Dot,
    Ellipse,
    Equal,
    GreaterThan,
    GreaterThanEqual,
    Hash,
    LeftBrace,
    LeftBracket,
    LeftParen,
    LessThan,
    LessThanEqual,
    Minus,
    Percent,
    Plus,
    RightBrace,
    RightBracket,
    RightParen,
    Semicolon,
    Slash,
    Star,
    TildeEqual,
    TwoDots,
    TwoEqual,
}

/// The raw text of a symbol.
pub open spec fn symbol_text(s: Symbol) -> Seq<char> {
    match s {
        Symbol::And => "and"@,
        Symbol::Break => "break"@,
        Symbol::Do => "do"@,
        Symbol::Else => "else"@,
        Symbol::ElseIf => "elseif"@,
        Symbol::End => "end"@,
        Symbol::False => "false"@,
        Symbol::For => "for"@,
        Symbol::Function => "function"@,
        Symbol::If => "if"@,
        Symbol::In => "in"@,
        Symbol::Local => "local"@,
        Symbol::Nil => "nil"@,
        Symbol::Not => "not"@,
        Symbol::Or => "or"@,
        Symbol::Repeat => "repeat"@,
        Symbol::Return => "return"@,
        Symbol::Then => "then"@,
        Symbol::True => "true"@,
        Symbol::Until => "until"@,
        Symbol::While => "while"@,
        Symbol::Caret => "^"@,
        Symbol::Colon => ":"@,
        Symbol::Comma => ","@,
        Symbol::Dot => "."@,
        Symbol::Ellipse => "..."@,
        Symbol::Equal => "="@,
        Symbol::GreaterThan => ">"@,
        Symbol::GreaterThanEqual => ">="@,
        Symbol::Hash => "#"@,
        Symbol::LeftBrace => "{"@,
        Symbol::LeftBracket => "["@,
        Symbol::LeftParen => "("@,
        Symbol::LessThan => "<"@,
        Symbol::LessThanEqual => "<="@,
        Symbol::Minus => "-"@,
        Symbol::Percent => "%"@,
        Symbol::Plus => "+"@,
        Symbol::RightBrace => "}"@,
        Symbol::RightBracket => "]"@,
        Symbol::RightParen => ")"@,
        Symbol::Semicolon => ";"@,
        Symbol::Slash => "/"@,
        Symbol::Star => "*"@,
        Symbol::TildeEqual => "~="@,
        Symbol::TwoDots => ".."@,
        Symbol::TwoEqual => "=="@,
    }
}

impl Symbol {
    /// The raw text of the symbol.
    pub fn to_str(&self) -> (r: &'static str)
        ensures
            r@ == symbol_text(*self),
    {
        match self {
            Symbol::And => "and",
            Symbol::Break => "break",
            Symbol::Do => "do",
            Symbol::Else => "else",
            Symbol::ElseIf => "elseif",
            Symbol::End => "end",
            Symbol::False => "false",
            Symbol::For => "for",
            Symbol::Function => "function",
            Symbol::If => "if",
            Symbol::In => "in",
            Symbol::Local => "local",
            Symbol::Nil => "nil",
            Symbol::Not => "not",
            Symbol::Or => "or",
            Symbol::Repeat => "repeat",
            Symbol::Return => "return",
            Symbol::Then => "then",
            Symbol::True => "true",
            Symbol::Until => "until",
            Symbol::While => "while",
            Symbol::Caret => "^",
            Symbol::Colon => ":",
            Symbol::Comma => ",",
            Symbol::Dot => ".",
            Symbol::Ellipse => "...",
            Symbol::Equal => "=",
            Symbol::GreaterThan => ">",
            Symbol::GreaterThanEqual => ">=",
            Symbol::Hash => "#",
            Symbol::LeftBrace => "{",
            Symbol::LeftBracket => "[",
            Symbol::LeftParen => "(",
            Symbol::LessThan => "<",
            Symbol::LessThanEqual => "<=",
            Symbol::Minus => "-",
            Symbol::Percent => "%",
            Symbol::Plus => "+",
            Symbol::RightBrace => "}",
            Symbol::RightBracket => "]",
            Symbol::RightParen => ")",
            Symbol::Semicolon => ";",
            Symbol::Slash => "/",
            Symbol::Star => "*",
            Symbol::TildeEqual => "~=",
            Symbol::TwoDots => "..",
            Symbol::TwoEqual => "==",
        }
    }
}

/// The kind of a token, with the fields of [`TokenType`] stripped.
#[derive(Clone, Copy, Debug, PartialEq, Eq, Structural, Hash)]
pub enum TokenKind {
    Eof,
    Identifier,
    MultiLineComment,
    Number,
    SingleLineComment,
    StringLiteral,
    Symbol,
    Whitespace,
}

/// The quoting used by a string literal.
#[derive(Clone, Copy, Debug, PartialEq, Eq, Structural, Hash)]
pub enum StringLiteralQuoteType {
    /// A long-bracket string, `[[...]]` or `[=[...]=]`.
    Brackets,
    /// A double-quoted string.
    Double,
    /// A single-quoted string.
    Single,
}

/// A typed lexical token, with the raw text it was read from.
#[derive(Debug, PartialEq)]
pub enum TokenType {
    /// The end of the source text; its text is empty.
    Eof,
    /// An identifier that is not a keyword.
    Identifier { identifier: String },
    /// A `--[[ ... ]]` comment; `blocks` is the number of `=` signs in its
    /// brackets.
    MultiLineComment { blocks: usize, comment: String },
    /// A number literal, kept as written.
    Number { text: String },
    /// A `--` comment running to the end of the line, the `--` not included.
    SingleLineComment { comment: String },
    /// A string literal; `literal` is the text between the quotes, and
    /// `multi_line` the number of `=` signs for a long-bracket string.
    StringLiteral {
        literal: String,
        multi_line: Option<usize>,
        quote_type: StringLiteralQuoteType,
    },
    /// A keyword or a punctuation symbol.
    Symbol { symbol: Symbol },
    /// A run of whitespace; it holds at most one newline, at its end.
    Whitespace { characters: String },
}

/// The mathematical model of a [`TokenType`]: the same variants, with each
/// string read as its character sequence.
pub enum TokenTypeModel {
    Eof,
    Identifier { identifier: Seq<char> },
    MultiLineComment { blocks: usize, comment: Seq<char> },
    Number { text: Seq<char> },
    SingleLineComment { comment: Seq<char> },
    StringLiteral {
        literal: Seq<char>,
        multi_line: Option<usize>,
        quote_type: StringLiteralQuoteType,
    },
    Symbol { symbol: Symbol },
    Whitespace { characters: Seq<char> },
}

/// The mathematical model of a [`Token`].
pub struct TokenModel {
    pub start_position: Position,
    pub end_position: Position,
    pub token_type: TokenTypeModel,
}

/// A sequence of `n` `=` characters, the middle of a long-bracket delimiter.
pub open spec fn eq_signs(n: nat) -> Seq<char>
    decreases n,
{
    if n == 0 {
        Seq::empty()
    } else {
        eq_signs((n - 1) as nat).push('=')
    }
}

/// The raw text of a long-bracket form with `n` `=` signs around `body`.
pub open spec fn long_bracket_text(n: nat, body: Seq<char>) -> Seq<char> {
    seq!['['] + eq_signs(n) + seq!['['] + body + seq![']'] + eq_signs(n) + seq![']']
}

/// The raw text a token type was read from.
pub open spec fn token_type_text(t: TokenTypeModel) -> Seq<char> {
    match t {
        TokenTypeModel::Eof => Seq::empty(),
        TokenTypeModel::Identifier { identifier } => identifier,
        TokenTypeModel::MultiLineComment { blocks, comment } => seq!['-', '-']
            + long_bracket_text(blocks as nat, comment),
        TokenTypeModel::Number { text } => text,
        TokenTypeModel::SingleLineComment { comment } => seq!['-', '-'] + comment,
        TokenTypeModel::StringLiteral { literal, multi_line, quote_type } => match quote_type {
            StringLiteralQuoteType::Brackets => {
                let n = match multi_line {
                    Some(n) => n as nat,
                    None => 0,
                };
                long_bracket_text(n, literal)
            },
            StringLiteralQuoteType::Double => seq!['"'] + literal + seq!['"'],
            StringLiteralQuoteType::Single => seq!['\''] + literal + seq!['\''],
        },
        TokenTypeModel::Symbol { symbol } => symbol_text(symbol),
        TokenTypeModel::Whitespace { characters } => characters,
    }
}

impl View for TokenType {
    type V = TokenTypeModel;

    open spec fn view(&self) -> TokenTypeModel {
        match self {
            TokenType::Eof => TokenTypeModel::Eof,
            TokenType::Identifier { identifier } => TokenTypeModel::Identifier {
                identifier: identifier@,
            },
            TokenType::MultiLineComment { blocks, comment } => TokenTypeModel::MultiLineComment {
                blocks: *blocks,
                comment: comment@,
            },
            TokenType::Number { text } => TokenTypeModel::Number { text: text@ },
            TokenType::SingleLineComment { comment } => TokenTypeModel::SingleLineComment {
                comment: comment@,
            },
            TokenType::StringLiteral { literal, multi_line, quote_type } => {
                TokenTypeModel::StringLiteral {
                    literal: literal@,
                    multi_line: *multi_line,
                    quote_type: *quote_type,
                }
            },
            TokenType::Symbol { symbol } => TokenTypeModel::Symbol { symbol: *symbol },
            TokenType::Whitespace { characters } => TokenTypeModel::Whitespace {
                characters: characters@,
            },
        }
    }
}

impl TokenType {
    /// The kind of the token type, its fields stripped.
    pub fn kind(&self) -> (r: TokenKind)
        ensures
            r == spec_kind(self@),
    {
        match self {
            TokenType::Eof => TokenKind::Eof,
            TokenType::Identifier { .. } => TokenKind::Identifier,
            TokenType::MultiLineComment { .. } => TokenKind::MultiLineComment,
            TokenType::Number { .. } => TokenKind::Number,
            TokenType::SingleLineComment { .. } => TokenKind::SingleLineComment,
            TokenType::StringLiteral { .. } => TokenKind::StringLiteral,
            TokenType::Symbol { .. } => TokenKind::Symbol,
            TokenType::Whitespace { .. } => TokenKind::Whitespace,
        }
    }

    /// Whether the token is trivia: whitespace or a comment, carrying no
    /// grammatical meaning.
    pub fn is_trivia(&self) -> (r: bool)
        ensures
            r == spec_is_trivia(self@),
    {
        match self {
            TokenType::MultiLineComment { .. } => true,
            TokenType::SingleLineComment { .. } => true,
            TokenType::Whitespace { .. } => true,
            _ => false,
        }
    }

    /// Whether the grammar passes over the token: trivia and end-of-file.
    pub fn ignore(&self) -> (r: bool)
        ensures
            r == spec_ignore(self@),
    {
        match self {
            TokenType::Eof => true,
            _ => self.is_trivia(),
        }
    }
}

/// The kind of a token type.
pub open spec fn spec_kind(t: TokenTypeModel) -> TokenKind {
    match t {
        TokenTypeModel::Eof => TokenKind::Eof,
        TokenTypeModel::Identifier { .. } => TokenKind::Identifier,
        TokenTypeModel::MultiLineComment { .. } => TokenKind::MultiLineComment,
        TokenTypeModel::Number { .. } => TokenKind::Number,
        TokenTypeModel::SingleLineComment { .. } => TokenKind::SingleLineComment,
        TokenTypeModel::StringLiteral { .. } => TokenKind::StringLiteral,
        TokenTypeModel::Symbol { .. } => TokenKind::Symbol,
        TokenTypeModel::Whitespace { .. } => TokenKind::Whitespace,
    }
}

/// Whether a token type is trivia.
pub open spec fn spec_is_trivia(t: TokenTypeModel) -> bool {
    match t {
        TokenTypeModel::MultiLineComment { .. } => true,
        TokenTypeModel::SingleLineComment { .. } => true,
        TokenTypeModel::Whitespace { .. } => true,
        _ => false,
    }
}

/// Whether the grammar passes over a token type.
pub open spec fn spec_ignore(t: TokenTypeModel) -> bool {
    t is Eof || spec_is_trivia(t)
}

/// A lexical unit: its type (with raw text) and its start and end positions.
#[derive(Debug, PartialEq)]
pub struct Token {
    pub start_position: Position,
    pub end_position: Position,
    pub token_type: TokenType,
}

/// The raw text of a token.
pub open spec fn token_text(t: TokenModel) -> Seq<char> {
    token_type_text(t.token_type)
}

impl View for Token {
    type V = TokenModel;

    open spec fn view(&self) -> TokenModel {
        TokenModel {
            start_position: self.start_position,
            end_position: self.end_position,
            token_type: self.token_type@,
        }
    }
}

impl Token {
    /// The position of the token's first character.
    pub fn start_position(&self) -> (r: &Position)
        ensures
            r == self.start_position,
    {
        &self.start_position
    }

    /// The position just after the token's last character.
    pub fn end_position(&self) -> (r: &Position)
        ensures
            r == self.end_position,
    {
        &self.end_position
    }

    /// The token's type, holding its raw text.
    pub fn token_type(&self) -> (r: &TokenType)
        ensures
            r == self.token_type,
    {
        &self.token_type
    }

    /// The kind of the token.
    pub fn token_kind(&self) -> (r: TokenKind)
        ensures
            r == spec_kind(self.token_type@),
    {
        self.token_type.kind()
    }
}

impl Clone for TokenType {
    /// A clone is equal to the original.
    fn clone(&self) -> (r: Self)
        ensures
            r == *self,
    {
        match self {
            TokenType::Eof => TokenType::Eof,
            TokenType::Identifier { identifier } => TokenType::Identifier {
                identifier: identifier.clone(),
            },
            TokenType::MultiLineComment { blocks, comment } => TokenType::MultiLineComment {
                blocks: *blocks,
                comment: comment.clone(),
            },
            TokenType::Number { text } => TokenType::Number { text: text.clone() },
            TokenType::SingleLineComment { comment } => TokenType::SingleLineComment {
                comment: comment.clone(),
            },
            TokenType::StringLiteral { literal, multi_line, quote_type } => {
                TokenType::StringLiteral {
                    literal: literal.clone(),
                    multi_line: *multi_line,
                    quote_type: *quote_type,
                }
            },
            TokenType::Symbol { symbol } => TokenType::Symbol { symbol: *symbol },
            TokenType::Whitespace { characters } => TokenType::Whitespace {
                characters: characters.clone(),
            },
        }
    }
}

impl Clone for Token {
    /// A clone is equal to the original.
    fn clone(&self) -> (r: Self)
        ensures
            r == *self,
    {
        Token {
            start_position: self.start_position,
            end_position: self.end_position,
            token_type: self.token_type.clone(),
        }
    }
}

/// A significant token together with the trivia attached around it: the
/// trivia led up to it since the previous reference, and the trivia trailing
/// it on its own line.
#[derive(Debug, PartialEq)]
pub struct TokenReference {
    pub leading_trivia: Vec<Token>,
    pub token: Token,
    pub trailing_trivia: Vec<Token>,
}

/// The mathematical model of a [`TokenReference`].
pub struct TokenRefModel {
    pub leading_trivia: Seq<TokenModel>,
    pub token: TokenModel,
    pub trailing_trivia: Seq<TokenModel>,
}

impl View for TokenReference {
    type V = TokenRefModel;

    open spec fn view(&self) -> TokenRefModel {
        TokenRefModel {
            leading_trivia: tokens_view(self.leading_trivia@),
            token: self.token@,
            trailing_trivia: tokens_view(self.trailing_trivia@),
        }
    }
}

impl Clone for TokenReference {
    /// A clone is equal in view to the original.
    fn clone(&self) -> (r: Self)
        ensures
            r@ == self@,
    {
        let mut leading: Vec<Token> = Vec::new();
        let mut i: usize = 0;
        while i < self.leading_trivia.len()
            invariant
                i <= self.leading_trivia@.len(),
                leading@.len() == i,
                forall|k: int| 0 <= k < i ==> leading@[k] == self.leading_trivia@[k],
            decreases self.leading_trivia@.len() - i,
        {
            leading.push(self.leading_trivia[i].clone());
            i = i + 1;
        }
        let mut trailing: Vec<Token> = Vec::new();
        let mut j: usize = 0;
        while j < self.trailing_trivia.len()
            invariant
                j <= self.trailing_trivia@.len(),
                trailing@.len() == j,
                forall|k: int| 0 <= k < j ==> trailing@[k] == self.trailing_trivia@[k],
            decreases self.trailing_trivia@.len() - j,
        {
            trailing.push(self.trailing_trivia[j].clone());
            j = j + 1;
        }
        let r = TokenReference { leading_trivia: leading, token: self.token.clone(), trailing_trivia: trailing };
        proof {
            assert(r.leading_trivia@ =~= self.leading_trivia@);
            assert(r.trailing_trivia@ =~= self.trailing_trivia@);
        }
        r
    }
}

impl TokenReference {
    /// The significant token itself.
    pub fn token(&self) -> (r: &Token)
        ensures
            r == self.token,
    {
        &self.token
    }

    /// The trivia led up to the token.
    pub fn leading_trivia(&self) -> (r: &Vec<Token>)
        ensures
            r == self.leading_trivia,
    {
        &self.leading_trivia
    }

    /// The trivia trailing the token.
    pub fn trailing_trivia(&self) -> (r: &Vec<Token>)
        ensures
            r == self.trailing_trivia,
    {
        &self.trailing_trivia
    }
}

/// The raw text a token reference was read from: leading trivia, then the
/// token, then trailing trivia.
pub open spec fn token_ref_text(r: TokenRefModel) -> Seq<char> {
    tokens_text(r.leading_trivia) + token_text(r.token) + tokens_text(r.trailing_trivia)
}

/// The concatenated raw text of a sequence of token references.
pub open spec fn refs_text(s: Seq<TokenRefModel>) -> Seq<char>
    decreases s.len(),
{
    if s.len() == 0 {
        Seq::empty()
    } else {
        token_ref_text(s[0]) + refs_text(s.drop_first())
    }
}

/// Concatenated reference text splits over concatenated sequences.
pub proof fn lemma_refs_text_add(a: Seq<TokenRefModel>, b: Seq<TokenRefModel>)
    ensures
        refs_text(a + b) == refs_text(a) + refs_text(b),
    decreases a.len(),
{
    if a.len() == 0 {
        assert(a + b =~= b);
        assert(refs_text(a) + refs_text(b) =~= refs_text(b));
    } else {
        assert((a + b)[0] == a[0]);
        assert((a + b).drop_first() =~= a.drop_first() + b);
        lemma_refs_text_add(a.drop_first(), b);
        assert(token_ref_text(a[0]) + (refs_text(a.drop_first()) + refs_text(b)) =~= (
        token_ref_text(a[0]) + refs_text(a.drop_first())) + refs_text(b));
    }
}

/// The sequence of reference views of a reference vector.
pub open spec fn refs_view(v: Seq<TokenReference>) -> Seq<TokenRefModel> {
    v.map_values(|r: TokenReference| r@)
}


/// Addition on `usize` counters that pins at the largest value instead of
/// wrapping; source positions use it, and no source this machine can hold
/// reaches the pin.
pub open spec fn sat_add(a: usize, b: usize) -> usize {
    if a + b > usize::MAX {
        usize::MAX
    } else {
        (a + b) as usize
    }
}

/// How many bytes the UTF-8 encoding of a character takes.
pub open spec fn char_utf8_len(c: char) -> usize {
    if (c as u32) < 0x80 {
        1
    } else if (c as u32) < 0x800 {
        2
    } else if (c as u32) < 0x10000 {
        3
    } else {
        4
    }
}

/// The position just after `c`, read at `p`.
pub open spec fn advance_pos(p: Position, c: char) -> Position {
    Position {
        bytes: sat_add(p.bytes, char_utf8_len(c)),
        line: if c == '\n' {
            sat_add(p.line, 1)
        } else {
            p.line
        },
        character: if c == '\n' {
            1
        } else {
            sat_add(p.character, 1)
        },
    }
}

/// The position just after reading all of `s`, starting at `p`.
pub open spec fn advance_pos_over(p: Position, s: Seq<char>) -> Position
    decreases s.len(),
{
    if s.len() == 0 {
        p
    } else {
        advance_pos_over(advance_pos(p, s[0]), s.drop_first())
    }
}

/// Reading one more character advances the position by one step.
pub proof fn lemma_advance_pos_over_push(p: Position, s: Seq<char>, c: char)
    ensures
        advance_pos_over(p, s.push(c)) == advance_pos(advance_pos_over(p, s), c),
    decreases s.len(),
{
    if s.len() == 0 {
        assert(s.push(c)[0] == c);
        assert(s.push(c).drop_first() =~= Seq::<char>::empty());
        assert(advance_pos_over(p, s.push(c)) == advance_pos_over(
            advance_pos(p, c),
            Seq::<char>::empty(),
        ));
        assert(advance_pos_over(p, s) == p);
    } else {
        assert(s.push(c)[0] == s[0]);
        assert(s.push(c).drop_first() =~= s.drop_first().push(c));
        lemma_advance_pos_over_push(advance_pos(p, s[0]), s.drop_first(), c);
        assert(advance_pos_over(p, s.push(c)) == advance_pos_over(
            advance_pos(p, s[0]),
            s.drop_first().push(c),
        ));
        assert(advance_pos_over(p, s) == advance_pos_over(advance_pos(p, s[0]), s.drop_first()));
    }
}

/// Whitespace that stays on its line: space, tab, carriage return.
pub open spec fn is_line_ws(c: char) -> bool {
    c == ' ' || c == '\t' || c == '\r'
}

/// A decimal digit.
pub open spec fn is_digit(c: char) -> bool {
    '0' <= c && c <= '9'
}

/// A hexadecimal digit.
pub open spec fn is_hex_digit(c: char) -> bool {
    is_digit(c) || ('a' <= c && c <= 'f') || ('A' <= c && c <= 'F')
}

/// A character that can start an identifier.
pub open spec fn is_ident_start(c: char) -> bool {
    ('a' <= c && c <= 'z') || ('A' <= c && c <= 'Z') || c == '_'
}

/// A character that can continue an identifier.
pub open spec fn is_ident_char(c: char) -> bool {
    is_ident_start(c) || is_digit(c)
}

/// The first index at or after `i` whose character fails `p`, or the end of
/// the text.
pub open spec fn scan_while(s: Seq<char>, i: int, p: spec_fn(char) -> bool) -> int
    recommends
        0 <= i <= s.len(),
    decreases s.len() - i,
{
    if i < s.len() && p(s[i]) {
        scan_while(s, i + 1, p)
    } else {
        i
    }
}

/// End of a run of same-line whitespace.
pub open spec fn scan_line_ws_end(s: Seq<char>, i: int) -> int {
    scan_while(s, i, |c: char| is_line_ws(c))
}

/// End of a run of decimal digits.
pub open spec fn scan_digits_end(s: Seq<char>, i: int) -> int {
    scan_while(s, i, |c: char| is_digit(c))
}

/// End of a run of hexadecimal digits.
pub open spec fn scan_hex_end(s: Seq<char>, i: int) -> int {
    scan_while(s, i, |c: char| is_hex_digit(c))
}

/// End of a run of identifier characters.
pub open spec fn scan_ident_end(s: Seq<char>, i: int) -> int {
    scan_while(s, i, |c: char| is_ident_char(c))
}

/// End of a run of characters other than a newline.
pub open spec fn scan_to_newline(s: Seq<char>, i: int) -> int {
    scan_while(s, i, |c: char| c != '\n')
}

/// End of a run of `=` characters.
pub open spec fn scan_eqs_end(s: Seq<char>, i: int) -> int {
    scan_while(s, i, |c: char| c == '=')
}

/// The keyword spelled exactly `text`, if there is one.
pub open spec fn keyword_symbol(text: Seq<char>) -> Option<Symbol> {
    if text == "and"@ {
        Some(Symbol::And)
    } else if text == "break"@ {
        Some(Symbol::Break)
    } else if text == "do"@ {
        Some(Symbol::Do)
    } else if text == "else"@ {
        Some(Symbol::Else)
    } else if text == "elseif"@ {
        Some(Symbol::ElseIf)
    } else if text == "end"@ {
        Some(Symbol::End)
    } else if text == "false"@ {
        Some(Symbol::False)
    } else if text == "for"@ {
        Some(Symbol::For)
    } else if text == "function"@ {
        Some(Symbol::Function)
    } else if text == "if"@ {
        Some(Symbol::If)
    } else if text == "in"@ {
        Some(Symbol::In)
    } else if text == "local"@ {
        Some(Symbol::Local)
    } else if text == "nil"@ {
        Some(Symbol::Nil)
    } else if text == "not"@ {
        Some(Symbol::Not)
    } else if text == "or"@ {
        Some(Symbol::Or)
    } else if text == "repeat"@ {
        Some(Symbol::Repeat)
    } else if text == "return"@ {
        Some(Symbol::Return)
    } else if text == "then"@ {
        Some(Symbol::Then)
    } else if text == "true"@ {
        Some(Symbol::True)
    } else if text == "until"@ {
        Some(Symbol::Until)
    } else if text == "while"@ {
        Some(Symbol::While)
    } else {
        None
    }
}

/// The number of `=` signs of a long-bracket opener at `i`, if one starts
/// there: `[`, then `=` signs, then `[`.
pub open spec fn long_bracket_level(s: Seq<char>, i: int) -> Option<int> {
    if 0 <= i && i < s.len() && s[i] == '[' {
        let k = scan_eqs_end(s, i + 1);
        if k < s.len() && s[k] == '[' {
            Some(k - (i + 1))
        } else {
            None
        }
    } else {
        None
    }
}

/// Whether `n` `=` signs stand at `i`.
pub open spec fn all_eqs(s: Seq<char>, i: int, n: int) -> bool {
    forall|k: int| 0 <= k < n ==> #[trigger] s[i + k] == '='
}

/// The first index at or after `i` where a long-bracket closer with `n` `=`
/// signs starts: `]`, then `n` `=` signs, then `]`.
pub open spec fn find_long_close(s: Seq<char>, i: int, n: int) -> Option<int>
    recommends
        0 <= i,
        0 <= n,
    decreases s.len() - i,
{
    if i >= s.len() {
        None
    } else if s[i] == ']' && i + n + 1 < s.len() && all_eqs(s, i + 1, n) && s[i + n + 1] == ']' {
        Some(i)
    } else {
        find_long_close(s, i + 1, n)
    }
}

/// The index of the closing quote `q` at or after `i`, skipping over
/// backslash escapes; `None` when a newline or the end of the text comes
/// first.
pub open spec fn find_quote_close(s: Seq<char>, i: int, q: char) -> Option<int>
    recommends
        0 <= i,
    decreases s.len() - i,
{
    if i >= s.len() {
        None
    } else if s[i] == q {
        Some(i)
    } else if s[i] == '\n' {
        None
    } else if s[i] == '\\' {
        if i + 1 < s.len() {
            find_quote_close(s, i + 2, q)
        } else {
            None
        }
    } else {
        find_quote_close(s, i + 1, q)
    }
}

/// The end of the number literal starting at `i`: hexadecimal after `0x`,
/// else digits, an optional fraction led by `.` and a digit, and an optional
/// exponent led by `e` or `E`, an optional sign, and a digit.
pub open spec fn number_end(s: Seq<char>, i: int) -> int {
    if i + 2 < s.len() && s[i] == '0' && (s[i + 1] == 'x' || s[i + 1] == 'X') && is_hex_digit(
        s[i + 2],
    ) {
        scan_hex_end(s, i + 2)
    } else {
        let j = scan_digits_end(s, i);
        let k = if j + 1 < s.len() && s[j] == '.' && is_digit(s[j + 1]) {
            scan_digits_end(s, j + 1)
        } else {
            j
        };
        if k < s.len() && (s[k] == 'e' || s[k] == 'E') {
            let m = if k + 1 < s.len() && (s[k + 1] == '+' || s[k + 1] == '-') {
                k + 2
            } else {
                k + 1
            };
            if m < s.len() && is_digit(s[m]) {
                scan_digits_end(s, m)
            } else {
                k
            }
        } else {
            k
        }
    }
}

/// The token starting at `i` (which must not be past the end): its type and
/// the index just after it, or the lexical error at `pos`.
pub open spec fn spec_next_token(s: Seq<char>, i: int, pos: Position) -> Result<
    (TokenTypeModel, int),
    TokenizerError,
> {
    let c = s[i];
    if c == '\n' {
        Ok((TokenTypeModel::Whitespace { characters: s.subrange(i, i + 1) }, i + 1))
    } else if is_line_ws(c) {
        let j = scan_line_ws_end(s, i);
        let end = if j < s.len() && s[j] == '\n' {
            j + 1
        } else {
            j
        };
        Ok((TokenTypeModel::Whitespace { characters: s.subrange(i, end) }, end))
    } else if is_ident_start(c) {
        let j = scan_ident_end(s, i);
        let text = s.subrange(i, j);
        match keyword_symbol(text) {
            Some(sym) => Ok((TokenTypeModel::Symbol { symbol: sym }, j)),
            None => Ok((TokenTypeModel::Identifier { identifier: text }, j)),
        }
    } else if is_digit(c) || (c == '.' && i + 1 < s.len() && is_digit(s[i + 1])) {
        let j = number_end(s, i);
        Ok((TokenTypeModel::Number { text: s.subrange(i, j) }, j))
    } else if c == '-' {
        if i + 1 < s.len() && s[i + 1] == '-' {
            match long_bracket_level(s, i + 2) {
                Some(n) => match find_long_close(s, i + n + 4, n) {
                    Some(k) => Ok(
                        (
                            TokenTypeModel::MultiLineComment {
                                blocks: n as usize,
                                comment: s.subrange(i + n + 4, k),
                            },
                            k + n + 2,
                        ),
                    ),
                    None => Err(
                        TokenizerError { error: TokenizerErrorType::UnclosedComment, position: pos },
                    ),
                },
                None => {
                    let j = scan_to_newline(s, i + 2);
                    Ok((TokenTypeModel::SingleLineComment { comment: s.subrange(i + 2, j) }, j))
                },
            }
        } else {
            Ok((TokenTypeModel::Symbol { symbol: Symbol::Minus }, i + 1))
        }
    } else if c == '[' {
        match long_bracket_level(s, i) {
            Some(n) => match find_long_close(s, i + n + 2, n) {
                Some(k) => Ok(
                    (
                        TokenTypeModel::StringLiteral {
                            literal: s.subrange(i + n + 2, k),
                            multi_line: Some(n as usize),
                            quote_type: StringLiteralQuoteType::Brackets,
                        },
                        k + n + 2,
                    ),
                ),
                None => Err(
                    TokenizerError { error: TokenizerErrorType::UnclosedString, position: pos },
                ),
            },
            None => Ok((TokenTypeModel::Symbol { symbol: Symbol::LeftBracket }, i + 1)),
        }
    } else if c == '"' || c == '\'' {
        match find_quote_close(s, i + 1, c) {
            Some(k) => Ok(
                (
                    TokenTypeModel::StringLiteral {
                        literal: s.subrange(i + 1, k),
                        multi_line: None,
                        quote_type: if c == '"' {
                            StringLiteralQuoteType::Double
                        } else {
                            StringLiteralQuoteType::Single
                        },
                    },
                    k + 1,
                ),
            ),
            None => Err(TokenizerError { error: TokenizerErrorType::UnclosedString, position: pos }),
        }
    } else if c == '=' {
        if i + 1 < s.len() && s[i + 1] == '=' {
            Ok((TokenTypeModel::Symbol { symbol: Symbol::TwoEqual }, i + 2))
        } else {
            Ok((TokenTypeModel::Symbol { symbol: Symbol::Equal }, i + 1))
        }
    } else if c == '~' {
        if i + 1 < s.len() && s[i + 1] == '=' {
            Ok((TokenTypeModel::Symbol { symbol: Symbol::TildeEqual }, i + 2))
        } else {
            Err(
                TokenizerError {
                    error: TokenizerErrorType::UnexpectedToken('~'),
                    position: pos,
                },
            )
        }
    } else if c == '<' {
        if i + 1 < s.len() && s[i + 1] == '=' {
            Ok((TokenTypeModel::Symbol { symbol: Symbol::LessThanEqual }, i + 2))
        } else {
            Ok((TokenTypeModel::Symbol { symbol: Symbol::LessThan }, i + 1))
        }
    } else if c == '>' {
        if i + 1 < s.len() && s[i + 1] == '=' {
            Ok((TokenTypeModel::Symbol { symbol: Symbol::GreaterThanEqual }, i + 2))
        } else {
            Ok((TokenTypeModel::Symbol { symbol: Symbol::GreaterThan }, i + 1))
        }
    } else if c == '.' {
        if i + 1 < s.len() && s[i + 1] == '.' {
            if i + 2 < s.len() && s[i + 2] == '.' {
                Ok((TokenTypeModel::Symbol { symbol: Symbol::Ellipse }, i + 3))
            } else {
                Ok((TokenTypeModel::Symbol { symbol: Symbol::TwoDots }, i + 2))
            }
        } else {
            Ok((TokenTypeModel::Symbol { symbol: Symbol::Dot }, i + 1))
        }
    } else if c == '^' {
        Ok((TokenTypeModel::Symbol { symbol: Symbol::Caret }, i + 1))
    } else if c == ':' {
        Ok((TokenTypeModel::Symbol { symbol: Symbol::Colon }, i + 1))
    } else if c == ',' {
        Ok((TokenTypeModel::Symbol { symbol: Symbol::Comma }, i + 1))
    } else if c == '#' {
        Ok((TokenTypeModel::Symbol { symbol: Symbol::Hash }, i + 1))
    } else if c == '{' {
        Ok((TokenTypeModel::Symbol { symbol: Symbol::LeftBrace }, i + 1))
    } else if c == '(' {
        Ok((TokenTypeModel::Symbol { symbol: Symbol::LeftParen }, i + 1))
    } else if c == '}' {
        Ok((TokenTypeModel::Symbol { symbol: Symbol::RightBrace }, i + 1))
    } else if c == ']' {
        Ok((TokenTypeModel::Symbol { symbol: Symbol::RightBracket }, i + 1))
    } else if c == ')' {
        Ok((TokenTypeModel::Symbol { symbol: Symbol::RightParen }, i + 1))
    } else if c == ';' {
        Ok((TokenTypeModel::Symbol { symbol: Symbol::Semicolon }, i + 1))
    } else if c == '+' {
        Ok((TokenTypeModel::Symbol { symbol: Symbol::Plus }, i + 1))
    } else if c == '*' {
        Ok((TokenTypeModel::Symbol { symbol: Symbol::Star }, i + 1))
    } else if c == '/' {
        Ok((TokenTypeModel::Symbol { symbol: Symbol::Slash }, i + 1))
    } else if c == '%' {
        Ok((TokenTypeModel::Symbol { symbol: Symbol::Percent }, i + 1))
    } else {
        Err(TokenizerError { error: TokenizerErrorType::UnexpectedToken(c), position: pos })
    }
}

/// The end-of-file token at `pos`.
pub open spec fn eof_model(pos: Position) -> TokenModel {
    TokenModel { start_position: pos, end_position: pos, token_type: TokenTypeModel::Eof }
}

/// The token sequence read from `s` starting at `i` and `pos`, ending with
/// the end-of-file token, or the first lexical error.
pub open spec fn spec_tokenize_from(s: Seq<char>, i: int, pos: Position) -> Result<
    Seq<TokenModel>,
    TokenizerError,
>
    recommends
        0 <= i,
    decreases s.len() - i,
{
    if i >= s.len() {
        Ok(seq![eof_model(pos)])
    } else {
        match spec_next_token(s, i, pos) {
            Err(e) => Err(e),
            Ok((tt, end)) => {
                let end_c = if i < end && end <= s.len() {
                    end
                } else {
                    i + 1
                };
                let new_pos = advance_pos_over(pos, s.subrange(i, end_c));
                match spec_tokenize_from(s, end_c, new_pos) {
                    Err(e) => Err(e),
                    Ok(rest) => Ok(
                        seq![
                            TokenModel {
                                start_position: pos,
                                end_position: new_pos,
                                token_type: tt,
                            },
                        ] + rest,
                    ),
                }
            },
        }
    }
}

/// The token sequence of a whole source text, or its first lexical error.
pub open spec fn spec_tokenize(s: Seq<char>) -> Result<Seq<TokenModel>, TokenizerError> {
    spec_tokenize_from(s, 0, Position { bytes: 0, line: 1, character: 1 })
}

/// The concatenated raw text of a token sequence.
pub open spec fn tokens_text(toks: Seq<TokenModel>) -> Seq<char>
    decreases toks.len(),
{
    if toks.len() == 0 {
        Seq::empty()
    } else {
        token_text(toks[0]) + tokens_text(toks.drop_first())
    }
}

/// Concatenated raw text splits over concatenated token sequences.
pub proof fn lemma_tokens_text_add(a: Seq<TokenModel>, b: Seq<TokenModel>)
    ensures
        tokens_text(a + b) == tokens_text(a) + tokens_text(b),
    decreases a.len(),
{
    if a.len() == 0 {
        assert(a + b =~= b);
        assert(tokens_text(a) + tokens_text(b) =~= tokens_text(b));
    } else {
        assert((a + b)[0] == a[0]);
        assert((a + b).drop_first() =~= a.drop_first() + b);
        lemma_tokens_text_add(a.drop_first(), b);
        assert(token_text(a[0]) + (tokens_text(a.drop_first()) + tokens_text(b)) =~= (token_text(
            a[0],
        ) + tokens_text(a.drop_first())) + tokens_text(b));
    }
}

/// Bounds and contents of a [`scan_while`] run: every character before the
/// result satisfies the predicate, and the character at the result (if any)
/// does not.
pub proof fn lemma_scan_while(s: Seq<char>, i: int, p: spec_fn(char) -> bool)
    requires
        0 <= i <= s.len(),
    ensures
        i <= scan_while(s, i, p) <= s.len(),
        forall|k: int| i <= k < scan_while(s, i, p) ==> p(#[trigger] s[k]),
        scan_while(s, i, p) < s.len() ==> !p(s[scan_while(s, i, p)]),
    decreases s.len() - i,
{
    if i < s.len() && p(s[i]) {
        lemma_scan_while(s, i + 1, p);
    }
}

/// The length and contents of [`eq_signs`].
pub proof fn lemma_eq_signs_chars(n: nat)
    ensures
        eq_signs(n).len() == n,
        forall|k: int| 0 <= k < n ==> eq_signs(n)[k] == '=',
    decreases n,
{
    if n > 0 {
        lemma_eq_signs_chars((n - 1) as nat);
    }
}

/// A run of `=` signs in the text is exactly [`eq_signs`].
pub proof fn lemma_eqs_subrange(s: Seq<char>, a: int, n: int)
    requires
        0 <= a,
        0 <= n,
        a + n <= s.len(),
        all_eqs(s, a, n),
    ensures
        s.subrange(a, a + n) == eq_signs(n as nat),
{
    lemma_eq_signs_chars(n as nat);
    assert forall|j: int| 0 <= j < n implies #[trigger] s.subrange(a, a + n)[j] == eq_signs(
        n as nat,
    )[j] by {
        assert(s[a + j] == '=');
    }
    assert(s.subrange(a, a + n) =~= eq_signs(n as nat));
}

/// What a found long-bracket closer looks like.
pub proof fn lemma_find_long_close(s: Seq<char>, i: int, n: int)
    requires
        0 <= i,
        0 <= n,
    ensures
        find_long_close(s, i, n) matches Some(k) ==> i <= k && k + n + 1 < s.len() && s[k] == ']'
            && all_eqs(s, k + 1, n) && s[k + n + 1] == ']',
    decreases s.len() - i,
{
    if i < s.len() {
        if !(s[i] == ']' && i + n + 1 < s.len() && all_eqs(s, i + 1, n) && s[i + n + 1] == ']') {
            lemma_find_long_close(s, i + 1, n);
        }
    }
}

/// What a found closing quote looks like.
pub proof fn lemma_find_quote_close(s: Seq<char>, i: int, q: char)
    requires
        0 <= i,
    ensures
        find_quote_close(s, i, q) matches Some(k) ==> i <= k < s.len() && s[k] == q,
    decreases s.len() - i,
{
    if i < s.len() {
        if s[i] == q {
        } else if s[i] == '\n' {
        } else if s[i] == '\\' {
            if i + 1 < s.len() {
                lemma_find_quote_close(s, i + 2, q);
            }
        } else {
            lemma_find_quote_close(s, i + 1, q);
        }
    }
}

/// A number literal ends after its first character and inside the text.
pub proof fn lemma_number_end(s: Seq<char>, i: int)
    requires
        0 <= i < s.len(),
        is_digit(s[i]) || (s[i] == '.' && i + 1 < s.len() && is_digit(s[i + 1])),
    ensures
        i < number_end(s, i) <= s.len(),
{
    if i + 2 < s.len() && s[i] == '0' && (s[i + 1] == 'x' || s[i + 1] == 'X') && is_hex_digit(
        s[i + 2],
    ) {
        lemma_scan_while(s, i + 2, |c: char| is_hex_digit(c));
    } else {
        lemma_scan_while(s, i, |c: char| is_digit(c));
        let j = scan_digits_end(s, i);
        if is_digit(s[i]) {
            assert(scan_while(s, i, |c: char| is_digit(c)) == scan_while(
                s,
                i + 1,
                |c: char| is_digit(c),
            ));
            lemma_scan_while(s, i + 1, |c: char| is_digit(c));
        }
        if j + 1 < s.len() && s[j] == '.' && is_digit(s[j + 1]) {
            lemma_scan_while(s, j + 1, |c: char| is_digit(c));
            assert(scan_while(s, j + 1, |c: char| is_digit(c)) == scan_while(
                s,
                j + 2,
                |c: char| is_digit(c),
            ));
            lemma_scan_while(s, j + 2, |c: char| is_digit(c));
        }
        let k = if j + 1 < s.len() && s[j] == '.' && is_digit(s[j + 1]) {
            scan_digits_end(s, j + 1)
        } else {
            j
        };
        if k < s.len() && (s[k] == 'e' || s[k] == 'E') {
            let m = if k + 1 < s.len() && (s[k + 1] == '+' || s[k + 1] == '-') {
                k + 2
            } else {
                k + 1
            };
            if m < s.len() && is_digit(s[m]) {
                lemma_scan_while(s, m, |c: char| is_digit(c));
            }
        }
    }
}

/// The token read at `i` covers exactly the text from `i` to its end: its
/// raw text is that range of the source, and the end lies after `i` and
/// inside the text.
#[verifier::rlimit(100)]
pub proof fn lemma_next_token_text(s: Seq<char>, i: int, pos: Position)
    requires
        0 <= i < s.len(),
        s.len() <= usize::MAX,
    ensures
        spec_next_token(s, i, pos) matches Ok((tt, end)) ==> i < end <= s.len()
            && token_type_text(tt) == s.subrange(i, end),
{
    let c = s[i];
    if c == '\n' {
        assert(s.subrange(i, i + 1) =~= s.subrange(i, i + 1));
    } else if is_line_ws(c) {
        lemma_scan_while(s, i, |ch: char| is_line_ws(ch));
        assert(scan_while(s, i, |ch: char| is_line_ws(ch)) == scan_while(
            s,
            i + 1,
            |ch: char| is_line_ws(ch),
        ));
        lemma_scan_while(s, i + 1, |ch: char| is_line_ws(ch));
    } else if is_ident_start(c) {
        lemma_scan_while(s, i, |ch: char| is_ident_char(ch));
        assert(scan_while(s, i, |ch: char| is_ident_char(ch)) == scan_while(
            s,
            i + 1,
            |ch: char| is_ident_char(ch),
        ));
        lemma_scan_while(s, i + 1, |ch: char| is_ident_char(ch));
        let j = scan_ident_end(s, i);
        let text = s.subrange(i, j);
        match keyword_symbol(text) {
            Some(sym) => {
                assert(token_type_text(TokenTypeModel::Symbol { symbol: sym }) == text);
            },
            None => {},
        }
    } else if is_digit(c) || (c == '.' && i + 1 < s.len() && is_digit(s[i + 1])) {
        lemma_number_end(s, i);
    } else if c == '-' {
        if i + 1 < s.len() && s[i + 1] == '-' {
            match long_bracket_level(s, i + 2) {
                Some(n) => {
                    lemma_scan_while(s, i + 3, |ch: char| ch == '=');
                    let k0 = scan_eqs_end(s, i + 3);
                    assert(n == k0 - (i + 3));
                    match find_long_close(s, i + n + 4, n) {
                        Some(k) => {
                            lemma_find_long_close(s, i + n + 4, n);
                            assert(find_long_close(s, i + n + 4, n) == Some(k));
                            assert(i + n + 4 <= k);
                            assert(k + n + 1 < s.len());
                            assert(s[i + 2] == '[');
                            assert(all_eqs(s, i + 3, n));
                            assert(s[i + 3 + n] == '[');
                            lemma_long_bracket_text(s, i + 2, n, k);
                            assert(s.subrange(i + 2, k + n + 2) == long_bracket_text(
                                n as nat,
                                s.subrange(i + n + 4, k),
                            ));
                            assert(s.subrange(i, k + n + 2) =~= seq!['-', '-'] + s.subrange(
                                i + 2,
                                k + n + 2,
                            ));
                        },
                        None => {},
                    }
                },
                None => {
                    lemma_scan_while(s, i + 2, |ch: char| ch != '\n');
                    let j = scan_to_newline(s, i + 2);
                    assert(s.subrange(i, j) =~= seq!['-', '-'] + s.subrange(i + 2, j));
                },
            }
        } else {
            reveal_strlit("-");
            assert(s.subrange(i, i + 1) =~= "-"@);
        }
    } else if c == '[' {
        match long_bracket_level(s, i) {
            Some(n) => {
                lemma_scan_while(s, i + 1, |ch: char| ch == '=');
                let k0 = scan_eqs_end(s, i + 1);
                assert(n == k0 - (i + 1));
                match find_long_close(s, i + n + 2, n) {
                    Some(k) => {
                        lemma_find_long_close(s, i + n + 2, n);
                        lemma_long_bracket_text(s, i, n, k);
                    },
                    None => {},
                }
            },
            None => {
                reveal_strlit("[");
                assert(s.subrange(i, i + 1) =~= "["@);
            },
        }
    } else if c == '"' || c == '\'' {
        match find_quote_close(s, i + 1, c) {
            Some(k) => {
                lemma_find_quote_close(s, i + 1, c);
                assert(find_quote_close(s, i + 1, c) == Some(k));
                assert(i + 1 <= k < s.len());
                assert(s[k] == c);
                assert(s.subrange(i, k + 1) =~= seq![c] + s.subrange(i + 1, k) + seq![c]);
            },
            None => {},
        }
    } else {
        lemma_symbol_token_text(s, i, pos);
    }
}

/// A long-bracket form in the text is read back as [`long_bracket_text`]:
/// `[`, `n` `=` signs, `[`, the body, `]`, `n` `=` signs, `]`.
pub proof fn lemma_long_bracket_text(s: Seq<char>, a: int, n: int, k: int)
    requires
        0 <= a,
        0 <= n,
        a + n + 1 < s.len(),
        s[a] == '[',
        all_eqs(s, a + 1, n),
        s[a + n + 1] == '[',
        a + n + 2 <= k,
        k + n + 1 < s.len(),
        s[k] == ']',
        all_eqs(s, k + 1, n),
        s[k + n + 1] == ']',
    ensures
        s.subrange(a, k + n + 2) == long_bracket_text(n as nat, s.subrange(a + n + 2, k)),
{
    lemma_eq_signs_chars(n as nat);
    lemma_eqs_subrange(s, a + 1, n);
    lemma_eqs_subrange(s, k + 1, n);
    assert(s.subrange(a, k + n + 2) =~= seq!['['] + eq_signs(n as nat) + seq!['['] + s.subrange(
        a + n + 2,
        k,
    ) + seq![']'] + eq_signs(n as nat) + seq![']']);
}

/// The punctuation cases of [`lemma_next_token_text`].
proof fn lemma_symbol_token_text(s: Seq<char>, i: int, pos: Position)
    requires
        0 <= i < s.len(),
        !(s[i] == '\n' || is_line_ws(s[i]) || is_ident_start(s[i]) || is_digit(s[i]) || (s[i] == '.'
            && i + 1 < s.len() && is_digit(s[i + 1])) || s[i] == '-' || s[i] == '[' || s[i] == '"'
            || s[i] == '\''),
    ensures
        spec_next_token(s, i, pos) matches Ok((tt, end)) ==> i < end <= s.len()
            && token_type_text(tt) == s.subrange(i, end),
{
    let c = s[i];
    reveal_strlit("==");
    reveal_strlit("=");
    reveal_strlit("~=");
    reveal_strlit("<=");
    reveal_strlit("<");
    reveal_strlit(">=");
    reveal_strlit(">");
    reveal_strlit("...");
    reveal_strlit("..");
    reveal_strlit(".");
    reveal_strlit("^");
    reveal_strlit(":");
    reveal_strlit(",");
    reveal_strlit("#");
    reveal_strlit("{");
    reveal_strlit("(");
    reveal_strlit("}");
    reveal_strlit("]");
    reveal_strlit(")");
    reveal_strlit(";");
    reveal_strlit("+");
    reveal_strlit("*");
    reveal_strlit("/");
    reveal_strlit("%");
    if c == '=' {
        if i + 1 < s.len() && s[i + 1] == '=' {
            assert(s.subrange(i, i + 2) =~= "=="@);
        } else {
            assert(s.subrange(i, i + 1) =~= "="@);
        }
    } else if c == '~' {
        if i + 1 < s.len() && s[i + 1] == '=' {
            assert(s.subrange(i, i + 2) =~= "~="@);
        }
    } else if c == '<' {
        if i + 1 < s.len() && s[i + 1] == '=' {
            assert(s.subrange(i, i + 2) =~= "<="@);
        } else {
            assert(s.subrange(i, i + 1) =~= "<"@);
        }
    } else if c == '>' {
        if i + 1 < s.len() && s[i + 1] == '=' {
            assert(s.subrange(i, i + 2) =~= ">="@);
        } else {
            assert(s.subrange(i, i + 1) =~= ">"@);
        }
    } else if c == '.' {
        if i + 1 < s.len() && s[i + 1] == '.' {
            if i + 2 < s.len() && s[i + 2] == '.' {
                assert(s.subrange(i, i + 3) =~= "..."@);
            } else {
                assert(s.subrange(i, i + 2) =~= ".."@);
            }
        } else {
            assert(s.subrange(i, i + 1) =~= "."@);
        }
    } else if c == '^' {
        assert(s.subrange(i, i + 1) =~= "^"@);
    } else if c == ':' {
        assert(s.subrange(i, i + 1) =~= ":"@);
    } else if c == ',' {
        assert(s.subrange(i, i + 1) =~= ","@);
    } else if c == '#' {
        assert(s.subrange(i, i + 1) =~= "#"@);
    } else if c == '{' {
        assert(s.subrange(i, i + 1) =~= "{"@);
    } else if c == '(' {
        assert(s.subrange(i, i + 1) =~= "("@);
    } else if c == '}' {
        assert(s.subrange(i, i + 1) =~= "}"@);
    } else if c == ']' {
        assert(s.subrange(i, i + 1) =~= "]"@);
    } else if c == ')' {
        assert(s.subrange(i, i + 1) =~= ")"@);
    } else if c == ';' {
        assert(s.subrange(i, i + 1) =~= ";"@);
    } else if c == '+' {
        assert(s.subrange(i, i + 1) =~= "+"@);
    } else if c == '*' {
        assert(s.subrange(i, i + 1) =~= "*"@);
    } else if c == '/' {
        assert(s.subrange(i, i + 1) =~= "/"@);
    } else if c == '%' {
        assert(s.subrange(i, i + 1) =~= "%"@);
    }
}

/// Tokenization is lossless: the concatenated raw text of the tokens read
/// from `i` on is exactly the text from `i` on, the sequence ends with the
/// end-of-file token, and no other token is an end-of-file.
#[verifier::rlimit(100)]
pub proof fn lemma_tokenize_from_text(s: Seq<char>, i: int, pos: Position)
    requires
        0 <= i <= s.len(),
        s.len() <= usize::MAX,
    ensures
        spec_tokenize_from(s, i, pos) matches Ok(m) ==> m.len() >= 1 && m[m.len() - 1]
            == eof_model(m[m.len() - 1].start_position) && (forall|k: int|
            0 <= k < m.len() - 1 ==> !((#[trigger] m[k]).token_type is Eof)) && tokens_text(m)
            == s.subrange(i, s.len() as int),
    decreases s.len() - i,
{
    if i >= s.len() {
        let m = seq![eof_model(pos)];
        assert(spec_tokenize_from(s, i, pos) == Ok::<Seq<TokenModel>, TokenizerError>(m));
        assert(m.len() == 1);
        assert(m.drop_first() =~= Seq::<TokenModel>::empty());
        assert(tokens_text(Seq::<TokenModel>::empty()) == Seq::<char>::empty());
        assert(tokens_text(m) == token_text(m[0]) + tokens_text(m.drop_first()));
        assert(tokens_text(m) =~= Seq::<char>::empty());
        assert(s.subrange(i, s.len() as int) =~= Seq::<char>::empty());
    } else {
        match spec_next_token(s, i, pos) {
            Err(_) => {},
            Ok((tt, end)) => {
                lemma_next_token_text(s, i, pos);
                let end_c = if i < end && end <= s.len() {
                    end
                } else {
                    i + 1
                };
                assert(end_c == end);
                let new_pos = advance_pos_over(pos, s.subrange(i, end_c));
                lemma_tokenize_from_text(s, end_c, new_pos);
                match spec_tokenize_from(s, end_c, new_pos) {
                    Err(_) => {},
                    Ok(rest) => {
                        let tok = TokenModel {
                            start_position: pos,
                            end_position: new_pos,
                            token_type: tt,
                        };
                        let m = seq![tok] + rest;
                        lemma_tokens_text_add(seq![tok], rest);
                        assert(seq![tok].drop_first() =~= Seq::<TokenModel>::empty());
                        assert(tokens_text(Seq::<TokenModel>::empty()) == Seq::<char>::empty());
                        assert(tokens_text(seq![tok]) == token_text(tok) + tokens_text(
                            seq![tok].drop_first(),
                        ));
                        assert(tokens_text(seq![tok]) =~= token_text(tok));
                        assert(!(tt is Eof)) by {
                            lemma_next_token_is_not_eof(s, i, pos);
                        }
                        assert(forall|k: int|
                            0 <= k < m.len() - 1 ==> !((#[trigger] m[k]).token_type is Eof)) by {
                            assert(forall|k: int|
                                1 <= k < m.len() - 1 ==> m[k] == rest[k - 1] && !(
                                (#[trigger] m[k]).token_type is Eof));
                        }
                        assert(m.len() == 1 + rest.len());
                        assert(rest.len() >= 1);
                        assert(m[m.len() - 1] == rest[rest.len() - 1]);
                        assert(s.subrange(i, end) + s.subrange(end, s.len() as int) =~= s.subrange(
                            i,
                            s.len() as int,
                        ));
                    },
                }
            },
        }
    }
}

/// The token read inside the text is never the end-of-file token.
proof fn lemma_next_token_is_not_eof(s: Seq<char>, i: int, pos: Position)
    requires
        0 <= i < s.len(),
    ensures
        spec_next_token(s, i, pos) matches Ok((tt, end)) ==> !(tt is Eof),
{
}

/// Tokenization of a whole source is lossless: the concatenated raw text of
/// its tokens is the source, and exactly the last token is an end-of-file.
pub proof fn lemma_tokenize_text(s: Seq<char>)
    requires
        s.len() <= usize::MAX,
    ensures
        spec_tokenize(s) matches Ok(m) ==> m.len() >= 1 && m[m.len() - 1].token_type is Eof && (
        forall|k: int| 0 <= k < m.len() - 1 ==> !((#[trigger] m[k]).token_type is Eof))
            && tokens_text(m) == s,
{
    lemma_tokenize_from_text(s, 0, Position { bytes: 0, line: 1, character: 1 });
    assert(s.subrange(0, s.len() as int) =~= s);
}

/// Saturating addition on `usize`, the executable twin of [`sat_add`].
fn sat_add_usize(a: usize, b: usize) -> (r: usize)
    ensures
        r == sat_add(a, b),
{
    if a > usize::MAX - b {
        usize::MAX
    } else {
        a + b
    }
}

/// Advances a position over one character, the executable twin of
/// [`advance_pos`].
fn advance_pos_exec(p: Position, c: char) -> (r: Position)
    ensures
        r == advance_pos(p, c),
{
    let u = c as u32;
    let len: usize = if u < 0x80 {
        1
    } else if u < 0x800 {
        2
    } else if u < 0x10000 {
        3
    } else {
        4
    };
    Position {
        bytes: sat_add_usize(p.bytes, len),
        line: if c == '\n' {
            sat_add_usize(p.line, 1)
        } else {
            p.line
        },
        character: if c == '\n' {
            1
        } else {
            sat_add_usize(p.character, 1)
        },
    }
}

/// Advances a position over `chars[i..end]`, the executable twin of
/// [`advance_pos_over`].
fn advance_over_exec(chars: &Vec<char>, i: usize, end: usize, pos: Position) -> (r: Position)
    requires
        i <= end <= chars@.len(),
    ensures
        r == advance_pos_over(pos, chars@.subrange(i as int, end as int)),
{
    let mut cur = pos;
    let mut k = i;
    proof {
        assert(chars@.subrange(i as int, i as int) =~= Seq::<char>::empty());
    }
    while k < end
        invariant
            i <= k <= end <= chars@.len(),
            cur == advance_pos_over(pos, chars@.subrange(i as int, k as int)),
        decreases end - k,
    {
        let c = chars[k];
        proof {
            assert(chars@.subrange(i as int, k as int + 1) =~= chars@.subrange(
                i as int,
                k as int,
            ).push(chars@[k as int]));
            lemma_advance_pos_over_push(pos, chars@.subrange(i as int, k as int), chars@[k as int]);
        }
        cur = advance_pos_exec(cur, c);
        k = k + 1;
    }
    cur
}

/// Whether `c` is same-line whitespace; the executable twin of
/// [`is_line_ws`].
fn line_ws(c: char) -> (r: bool)
    ensures
        r == is_line_ws(c),
{
    c == ' ' || c == '\t' || c == '\r'
}

/// Whether `c` is a decimal digit; the executable twin of [`is_digit`].
fn digit(c: char) -> (r: bool)
    ensures
        r == is_digit(c),
{
    let u = c as u32;
    48 <= u && u <= 57
}

/// Whether `c` is a hexadecimal digit; the executable twin of
/// [`is_hex_digit`].
fn hex_digit(c: char) -> (r: bool)
    ensures
        r == is_hex_digit(c),
{
    let u = c as u32;
    (48 <= u && u <= 57) || (97 <= u && u <= 102) || (65 <= u && u <= 70)
}

/// Whether `c` can start an identifier; the executable twin of
/// [`is_ident_start`].
fn ident_start(c: char) -> (r: bool)
    ensures
        r == is_ident_start(c),
{
    let u = c as u32;
    (97 <= u && u <= 122) || (65 <= u && u <= 90) || c == '_'
}

/// Whether `c` can continue an identifier; the executable twin of
/// [`is_ident_char`].
fn ident_char(c: char) -> (r: bool)
    ensures
        r == is_ident_char(c),
{
    ident_start(c) || digit(c)
}

/// The executable twin of [`scan_line_ws_end`].
fn scan_line_ws(chars: &Vec<char>, i: usize) -> (r: usize)
    requires
        i <= chars@.len(),
    ensures
        r == scan_line_ws_end(chars@, i as int),
        i <= r <= chars@.len(),
{
    let ghost s = chars@;
    let mut j = i;
    while j < chars.len() && line_ws(chars[j])
        invariant
            i <= j <= s.len(),
            s == chars@,
            scan_line_ws_end(s, i as int) == scan_line_ws_end(s, j as int),
        decreases chars@.len() - j,
    {
        j = j + 1;
    }
    j
}

/// The executable twin of [`scan_digits_end`].
fn scan_digits(chars: &Vec<char>, i: usize) -> (r: usize)
    requires
        i <= chars@.len(),
    ensures
        r == scan_digits_end(chars@, i as int),
        i <= r <= chars@.len(),
{
    let ghost s = chars@;
    let mut j = i;
    while j < chars.len() && digit(chars[j])
        invariant
            i <= j <= s.len(),
            s == chars@,
            scan_digits_end(s, i as int) == scan_digits_end(s, j as int),
        decreases chars@.len() - j,
    {
        j = j + 1;
    }
    j
}

/// The executable twin of [`scan_hex_end`].
fn scan_hex(chars: &Vec<char>, i: usize) -> (r: usize)
    requires
        i <= chars@.len(),
    ensures
        r == scan_hex_end(chars@, i as int),
        i <= r <= chars@.len(),
{
    let ghost s = chars@;
    let mut j = i;
    while j < chars.len() && hex_digit(chars[j])
        invariant
            i <= j <= s.len(),
            s == chars@,
            scan_hex_end(s, i as int) == scan_hex_end(s, j as int),
        decreases chars@.len() - j,
    {
        j = j + 1;
    }
    j
}

/// The executable twin of [`scan_ident_end`].
fn scan_ident(chars: &Vec<char>, i: usize) -> (r: usize)
    requires
        i <= chars@.len(),
    ensures
        r == scan_ident_end(chars@, i as int),
        i <= r <= chars@.len(),
{
    let ghost s = chars@;
    let mut j = i;
    while j < chars.len() && ident_char(chars[j])
        invariant
            i <= j <= s.len(),
            s == chars@,
            scan_ident_end(s, i as int) == scan_ident_end(s, j as int),
        decreases chars@.len() - j,
    {
        j = j + 1;
    }
    j
}

/// The executable twin of [`scan_to_newline`].
fn scan_nonnewline(chars: &Vec<char>, i: usize) -> (r: usize)
    requires
        i <= chars@.len(),
    ensures
        r == scan_to_newline(chars@, i as int),
        i <= r <= chars@.len(),
{
    let ghost s = chars@;
    let mut j = i;
    while j < chars.len() && chars[j] != '\n'
        invariant
            i <= j <= s.len(),
            s == chars@,
            scan_to_newline(s, i as int) == scan_to_newline(s, j as int),
        decreases chars@.len() - j,
    {
        j = j + 1;
    }
    j
}

/// The executable twin of [`scan_eqs_end`].
fn scan_eqs(chars: &Vec<char>, i: usize) -> (r: usize)
    requires
        i <= chars@.len(),
    ensures
        r == scan_eqs_end(chars@, i as int),
        i <= r <= chars@.len(),
{
    let ghost s = chars@;
    let mut j = i;
    while j < chars.len() && chars[j] == '='
        invariant
            i <= j <= s.len(),
            s == chars@,
            scan_eqs_end(s, i as int) == scan_eqs_end(s, j as int),
        decreases chars@.len() - j,
    {
        j = j + 1;
    }
    j
}

/// The executable twin of [`long_bracket_level`].
fn bracket_level(chars: &Vec<char>, i: usize) -> (r: Option<usize>)
    requires
        i <= chars@.len(),
    ensures
        match r {
            Some(n) => long_bracket_level(chars@, i as int) == Some(n as int) && i + n + 1
                < chars@.len(),
            None => long_bracket_level(chars@, i as int) is None,
        },
{
    if i < chars.len() && chars[i] == '[' {
        let k = scan_eqs(chars, i + 1);
        if k < chars.len() && chars[k] == '[' {
            Some(k - (i + 1))
        } else {
            None
        }
    } else {
        None
    }
}

/// A stretch of text is a run of `=` signs exactly when the scan from its
/// start reaches past it.
proof fn lemma_eqs_run_iff(s: Seq<char>, a: int, n: int)
    requires
        0 <= a <= s.len(),
        0 <= n,
    ensures
        (a + n <= s.len() && all_eqs(s, a, n)) <==> scan_eqs_end(s, a) >= a + n,
{
    lemma_scan_while(s, a, |c: char| c == '=');
    if a + n <= s.len() && all_eqs(s, a, n) {
        lemma_scan_lower_bound(s, a, a + n);
    }
    if scan_eqs_end(s, a) >= a + n {
        assert forall|k: int| 0 <= k < n implies #[trigger] s[a + k] == '=' by {
            assert((|c: char| c == '=')(s[a + k]));
        }
    }
}

/// A run of `=` signs from `a` to `b` makes the scan reach at least `b`.
proof fn lemma_scan_lower_bound(s: Seq<char>, a: int, b: int)
    requires
        0 <= a <= b <= s.len(),
        all_eqs(s, a, b - a),
    ensures
        scan_eqs_end(s, a) >= b,
    decreases b - a,
{
    lemma_scan_while(s, a, |c: char| c == '=');
    if a < b {
        assert(s[a + 0] == '=');
        assert forall|k: int| 0 <= k < b - a - 1 implies #[trigger] s[a + 1 + k] == '=' by {
            assert(s[a + (k + 1)] == '=');
        }
        lemma_scan_lower_bound(s, a + 1, b);
        assert((|c: char| c == '=')(s[a]));
    }
}

/// The executable twin of [`find_long_close`]: searches for `]`, `n` `=`
/// signs, `]`.
fn find_close(chars: &Vec<char>, i: usize, n: usize) -> (r: Option<usize>)
    requires
        i <= chars@.len(),
        n < chars@.len(),
    ensures
        match r {
            Some(k) => find_long_close(chars@, i as int, n as int) == Some(k as int) && i <= k && k
                + n + 1 < chars@.len(),
            None => find_long_close(chars@, i as int, n as int) is None,
        },
    decreases chars@.len() - i,
{
    let ghost s = chars@;
    let ghost ii = i as int;
    let ghost nn = n as int;
    if i >= chars.len() {
        None
    } else {
        let mut ok = false;
        if chars[i] == ']' && n + 1 < chars.len() - i {
            let e = scan_eqs(chars, i + 1);
            proof {
                lemma_eqs_run_iff(s, ii + 1, nn);
            }
            if e - (i + 1) >= n && chars[i + n + 1] == ']' {
                ok = true;
            }
        }
        proof {
            if s[ii] == ']' && ii + nn + 1 < s.len() && all_eqs(s, ii + 1, nn) && s[ii + nn + 1]
                == ']' {
                lemma_eqs_run_iff(s, ii + 1, nn);
                assert(ok);
            }
        }
        if ok {
            Some(i)
        } else {
            find_close(chars, i + 1, n)
        }
    }
}

/// The executable twin of [`find_quote_close`].
fn find_quote(chars: &Vec<char>, i: usize, q: char) -> (r: Option<usize>)
    requires
        i <= chars@.len(),
    ensures
        match r {
            Some(k) => find_quote_close(chars@, i as int, q) == Some(k as int) && i <= k
                < chars@.len(),
            None => find_quote_close(chars@, i as int, q) is None,
        },
    decreases chars@.len() - i,
{
    if i >= chars.len() {
        None
    } else if chars[i] == q {
        Some(i)
    } else if chars[i] == '\n' {
        None
    } else if chars[i] == '\\' {
        if i + 1 < chars.len() {
            find_quote(chars, i + 2, q)
        } else {
            None
        }
    } else {
        find_quote(chars, i + 1, q)
    }
}

/// The executable twin of [`number_end`].
fn number_end_exec(chars: &Vec<char>, i: usize) -> (r: usize)
    requires
        i < chars@.len(),
    ensures
        r == number_end(chars@, i as int),
        i <= r <= chars@.len(),
{
    let n = chars.len();
    if n - i > 2 && chars[i] == '0' && (chars[i + 1] == 'x' || chars[i + 1] == 'X') && hex_digit(
        chars[i + 2],
    ) {
        scan_hex(chars, i + 2)
    } else {
        let j = scan_digits(chars, i);
        let k = if j < n && n - j > 1 && chars[j] == '.' && digit(chars[j + 1]) {
            scan_digits(chars, j + 1)
        } else {
            j
        };
        if k < n && (chars[k] == 'e' || chars[k] == 'E') {
            let m = if n - k > 1 && (chars[k + 1] == '+' || chars[k + 1] == '-') {
                k + 2
            } else {
                k + 1
            };
            if m < n && digit(chars[m]) {
                scan_digits(chars, m)
            } else {
                k
            }
        } else {
            k
        }
    }
}

/// The keyword spelled exactly like `text`, if any; the executable twin of
/// [`keyword_symbol`].
fn keyword_of(text: &String) -> (r: Option<Symbol>)
    ensures
        r == keyword_symbol(text@),
{
    if crate::text::str_eq(text.as_str(), "and") {
        Some(Symbol::And)
    } else if crate::text::str_eq(text.as_str(), "break") {
        Some(Symbol::Break)
    } else if crate::text::str_eq(text.as_str(), "do") {
        Some(Symbol::Do)
    } else if crate::text::str_eq(text.as_str(), "else") {
        Some(Symbol::Else)
    } else if crate::text::str_eq(text.as_str(), "elseif") {
        Some(Symbol::ElseIf)
    } else if crate::text::str_eq(text.as_str(), "end") {
        Some(Symbol::End)
    } else if crate::text::str_eq(text.as_str(), "false") {
        Some(Symbol::False)
    } else if crate::text::str_eq(text.as_str(), "for") {
        Some(Symbol::For)
    } else if crate::text::str_eq(text.as_str(), "function") {
        Some(Symbol::Function)
    } else if crate::text::str_eq(text.as_str(), "if") {
        Some(Symbol::If)
    } else if crate::text::str_eq(text.as_str(), "in") {
        Some(Symbol::In)
    } else if crate::text::str_eq(text.as_str(), "local") {
        Some(Symbol::Local)
    } else if crate::text::str_eq(text.as_str(), "nil") {
        Some(Symbol::Nil)
    } else if crate::text::str_eq(text.as_str(), "not") {
        Some(Symbol::Not)
    } else if crate::text::str_eq(text.as_str(), "or") {
        Some(Symbol::Or)
    } else if crate::text::str_eq(text.as_str(), "repeat") {
        Some(Symbol::Repeat)
    } else if crate::text::str_eq(text.as_str(), "return") {
        Some(Symbol::Return)
    } else if crate::text::str_eq(text.as_str(), "then") {
        Some(Symbol::Then)
    } else if crate::text::str_eq(text.as_str(), "true") {
        Some(Symbol::True)
    } else if crate::text::str_eq(text.as_str(), "until") {
        Some(Symbol::Until)
    } else if crate::text::str_eq(text.as_str(), "while") {
        Some(Symbol::While)
    } else {
        None
    }
}

/// What can go wrong while tokenizing.
#[derive(Clone, Copy, Debug, PartialEq, Eq, Structural)]
pub enum TokenizerErrorType {
    /// A `--[[` comment with no closing brackets.
    UnclosedComment,
    /// A string literal with no closing quote before a newline or the end of
    /// the source.
    UnclosedString,
    /// A character that starts no token.
    UnexpectedToken(char),
}

/// A lexical error: what went wrong, and where.
#[derive(Clone, Copy, Debug, PartialEq, Eq, Structural)]
pub struct TokenizerError {
    pub error: TokenizerErrorType,
    pub position: Position,
}

impl TokenizerError {
    /// What went wrong.
    pub fn error(&self) -> (r: TokenizerErrorType)
        ensures
            r == self.error,
    {
        self.error
    }

    /// Where it went wrong.
    pub fn position(&self) -> (r: Position)
        ensures
            r == self.position,
    {
        self.position
    }
}


/// Reads the token starting at `i`: its type and the index just after it,
/// as [`spec_next_token`] describes, or the lexical error.
fn next_token(chars: &Vec<char>, i: usize, pos: Position) -> (r: Result<
    (TokenType, usize),
    TokenizerError,
>)
    requires
        i < chars@.len(),
    ensures
        match r {
            Ok((tt, end)) => spec_next_token(chars@, i as int, pos) matches Ok((stt, send)) && tt@
                == stt && end == send && i < end <= chars@.len(),
            Err(e) => spec_next_token(chars@, i as int, pos) == Err::<
                (TokenTypeModel, int),
                TokenizerError,
            >(e),
        },
{
    let n = chars.len();
    proof {
        lemma_next_token_text(chars@, i as int, pos);
    }
    let c = chars[i];
    if c == '\n' {
        let characters = string_from_range(chars, i, i + 1);
        Ok((TokenType::Whitespace { characters }, i + 1))
    } else if line_ws(c) {
        let j = scan_line_ws(chars, i);
        let end = if j < n && chars[j] == '\n' {
            j + 1
        } else {
            j
        };
        let characters = string_from_range(chars, i, end);
        Ok((TokenType::Whitespace { characters }, end))
    } else if ident_start(c) {
        let j = scan_ident(chars, i);
        let text = string_from_range(chars, i, j);
        match keyword_of(&text) {
            Some(symbol) => Ok((TokenType::Symbol { symbol }, j)),
            None => Ok((TokenType::Identifier { identifier: text }, j)),
        }
    } else if digit(c) || (c == '.' && n - i > 1 && digit(chars[i + 1])) {
        let j = number_end_exec(chars, i);
        let text = string_from_range(chars, i, j);
        Ok((TokenType::Number { text }, j))
    } else if c == '-' {
        if n - i > 1 && chars[i + 1] == '-' {
            match bracket_level(chars, i + 2) {
                Some(level) => match find_close(chars, i + level + 4, level) {
                    Some(k) => {
                        let comment = string_from_range(chars, i + level + 4, k);
                        Ok((TokenType::MultiLineComment { blocks: level, comment }, k + level + 2))
                    },
                    None => Err(
                        TokenizerError {
                            error: TokenizerErrorType::UnclosedComment,
                            position: pos,
                        },
                    ),
                },
                None => {
                    let j = scan_nonnewline(chars, i + 2);
                    let comment = string_from_range(chars, i + 2, j);
                    Ok((TokenType::SingleLineComment { comment }, j))
                },
            }
        } else {
            Ok((TokenType::Symbol { symbol: Symbol::Minus }, i + 1))
        }
    } else if c == '[' {
        match bracket_level(chars, i) {
            Some(level) => match find_close(chars, i + level + 2, level) {
                Some(k) => {
                    let literal = string_from_range(chars, i + level + 2, k);
                    Ok(
                        (
                            TokenType::StringLiteral {
                                literal,
                                multi_line: Some(level),
                                quote_type: StringLiteralQuoteType::Brackets,
                            },
                            k + level + 2,
                        ),
                    )
                },
                None => Err(
                    TokenizerError { error: TokenizerErrorType::UnclosedString, position: pos },
                ),
            },
            None => Ok((TokenType::Symbol { symbol: Symbol::LeftBracket }, i + 1)),
        }
    } else if c == '"' || c == '\'' {
        match find_quote(chars, i + 1, c) {
            Some(k) => {
                let literal = string_from_range(chars, i + 1, k);
                let quote_type = if c == '"' {
                    StringLiteralQuoteType::Double
                } else {
                    StringLiteralQuoteType::Single
                };
                Ok((TokenType::StringLiteral { literal, multi_line: None, quote_type }, k + 1))
            },
            None => Err(TokenizerError { error: TokenizerErrorType::UnclosedString, position: pos }),
        }
    } else if c == '=' {
        if n - i > 1 && chars[i + 1] == '=' {
            Ok((TokenType::Symbol { symbol: Symbol::TwoEqual }, i + 2))
        } else {
            Ok((TokenType::Symbol { symbol: Symbol::Equal }, i + 1))
        }
    } else if c == '~' {
        if n - i > 1 && chars[i + 1] == '=' {
            Ok((TokenType::Symbol { symbol: Symbol::TildeEqual }, i + 2))
        } else {
            Err(
                TokenizerError {
                    error: TokenizerErrorType::UnexpectedToken('~'),
                    position: pos,
                },
            )
        }
    } else if c == '<' {
        if n - i > 1 && chars[i + 1] == '=' {
            Ok((TokenType::Symbol { symbol: Symbol::LessThanEqual }, i + 2))
        } else {
            Ok((TokenType::Symbol { symbol: Symbol::LessThan }, i + 1))
        }
    } else if c == '>' {
        if n - i > 1 && chars[i + 1] == '=' {
            Ok((TokenType::Symbol { symbol: Symbol::GreaterThanEqual }, i + 2))
        } else {
            Ok((TokenType::Symbol { symbol: Symbol::GreaterThan }, i + 1))
        }
    } else if c == '.' {
        if n - i > 1 && chars[i + 1] == '.' {
            if n - i > 2 && chars[i + 2] == '.' {
                Ok((TokenType::Symbol { symbol: Symbol::Ellipse }, i + 3))
            } else {
                Ok((TokenType::Symbol { symbol: Symbol::TwoDots }, i + 2))
            }
        } else {
            Ok((TokenType::Symbol { symbol: Symbol::Dot }, i + 1))
        }
    } else if c == '^' {
        Ok((TokenType::Symbol { symbol: Symbol::Caret }, i + 1))
    } else if c == ':' {
        Ok((TokenType::Symbol { symbol: Symbol::Colon }, i + 1))
    } else if c == ',' {
        Ok((TokenType::Symbol { symbol: Symbol::Comma }, i + 1))
    } else if c == '#' {
        Ok((TokenType::Symbol { symbol: Symbol::Hash }, i + 1))
    } else if c == '{' {
        Ok((TokenType::Symbol { symbol: Symbol::LeftBrace }, i + 1))
    } else if c == '(' {
        Ok((TokenType::Symbol { symbol: Symbol::LeftParen }, i + 1))
    } else if c == '}' {
        Ok((TokenType::Symbol { symbol: Symbol::RightBrace }, i + 1))
    } else if c == ']' {
        Ok((TokenType::Symbol { symbol: Symbol::RightBracket }, i + 1))
    } else if c == ')' {
        Ok((TokenType::Symbol { symbol: Symbol::RightParen }, i + 1))
    } else if c == ';' {
        Ok((TokenType::Symbol { symbol: Symbol::Semicolon }, i + 1))
    } else if c == '+' {
        Ok((TokenType::Symbol { symbol: Symbol::Plus }, i + 1))
    } else if c == '*' {
        Ok((TokenType::Symbol { symbol: Symbol::Star }, i + 1))
    } else if c == '/' {
        Ok((TokenType::Symbol { symbol: Symbol::Slash }, i + 1))
    } else if c == '%' {
        Ok((TokenType::Symbol { symbol: Symbol::Percent }, i + 1))
    } else {
        Err(TokenizerError { error: TokenizerErrorType::UnexpectedToken(c), position: pos })
    }
}

/// The sequence of token views of a token vector.
pub open spec fn tokens_view(v: Seq<Token>) -> Seq<TokenModel> {
    v.map_values(|t: Token| t@)
}

/// Tokenizes `chars[i..]` at `pos`, as [`spec_tokenize_from`] describes.
fn tokenize_from(chars: &Vec<char>, i: usize, pos: Position) -> (r: Result<
    Vec<Token>,
    TokenizerError,
>)
    requires
        i <= chars@.len(),
    ensures
        match r {
            Ok(v) => spec_tokenize_from(chars@, i as int, pos) matches Ok(m) && tokens_view(v@)
                == m,
            Err(e) => spec_tokenize_from(chars@, i as int, pos) == Err::<
                Seq<TokenModel>,
                TokenizerError,
            >(e),
        },
    decreases chars@.len() - i,
{
    let n = chars.len();
    if i >= n {
        let mut v: Vec<Token> = Vec::new();
        v.push(Token { start_position: pos, end_position: pos, token_type: TokenType::Eof });
        proof {
            assert(tokens_view(v@) =~= seq![eof_model(pos)]);
        }
        Ok(v)
    } else {
        match next_token(chars, i, pos) {
            Err(e) => Err(e),
            Ok((tt, end)) => {
                let new_pos = advance_over_exec(chars, i, end, pos);
                let tok = Token { start_position: pos, end_position: new_pos, token_type: tt };
                match tokenize_from(chars, end, new_pos) {
                    Err(e) => Err(e),
                    Ok(mut rest) => {
                        let ghost rest_view = rest@;
                        rest.insert(0, tok);
                        proof {
                            assert(rest@ =~= seq![tok] + rest_view);
                            assert(tokens_view(rest@) =~= seq![tok@] + tokens_view(rest_view));
                        }
                        Ok(rest)
                    },
                }
            },
        }
    }
}

/// Tokenizes a whole source text: the ordered token sequence ending with
/// exactly one end-of-file token, or the first lexical error.  The tokens
/// and their positions are exactly those of [`spec_tokenize`]; in
/// particular, their concatenated raw text is the source itself.
pub fn tokens(code: &str) -> (r: Result<Vec<Token>, TokenizerError>)
    ensures
        code@.len() <= usize::MAX,
        match r {
            Ok(v) => spec_tokenize(code@) matches Ok(m) && tokens_view(v@) == m,
            Err(e) => spec_tokenize(code@) == Err::<Seq<TokenModel>, TokenizerError>(e),
        },
{
    let chars = crate::text::str_to_chars(code);
    proof {
        assert(chars@.len() == chars.len());
    }
    tokenize_from(&chars, 0, Position { bytes: 0, line: 1, character: 1 })
}

/// Builds the string of `n` `=` signs.
fn eq_signs_string(n: usize) -> (s: String)
    ensures
        s@ == eq_signs(n as nat),
{
    let mut s = String::new();
    let mut i: usize = 0;
    proof {
        assert(s@ =~= eq_signs(0));
    }
    while i < n
        invariant
            i <= n,
            s@ == eq_signs(i as nat),
        decreases n - i,
    {
        s.push('=');
        i = i + 1;
    }
    s
}

/// Builds the raw text of a long-bracket form around `body`.
fn long_bracket_string(n: usize, body: &str) -> (s: String)
    ensures
        s@ == long_bracket_text(n as nat, body@),
{
    let mut s = String::new();
    s.push('[');
    let eqs = eq_signs_string(n);
    s.append(eqs.as_str());
    s.push('[');
    s.append(body);
    s.push(']');
    s.append(eqs.as_str());
    s.push(']');
    proof {
        assert(s@ =~= long_bracket_text(n as nat, body@));
    }
    s
}

impl Token {
    /// The raw text the token was read from.
    pub fn to_string(&self) -> (r: String)
        ensures
            r@ == token_text(self@),
    {
        match &self.token_type {
            TokenType::Eof => String::new(),
            TokenType::Identifier { identifier } => identifier.clone(),
            TokenType::Number { text } => text.clone(),
            TokenType::Symbol { symbol } => {
                let s = String::from_str(symbol.to_str());
                s
            },
            TokenType::Whitespace { characters } => characters.clone(),
            TokenType::SingleLineComment { comment } => {
                let mut s = String::new();
                s.push('-');
                s.push('-');
                s.append(comment.as_str());
                proof {
                    assert(s@ =~= seq!['-', '-'] + comment@);
                }
                s
            },
            TokenType::MultiLineComment { blocks, comment } => {
                let mut s = String::new();
                s.push('-');
                s.push('-');
                let b = long_bracket_string(*blocks, comment.as_str());
                s.append(b.as_str());
                proof {
                    assert(s@ =~= seq!['-', '-'] + long_bracket_text(*blocks as nat, comment@));
                }
                s
            },
            TokenType::StringLiteral { literal, multi_line, quote_type } => {
                match quote_type {
                    StringLiteralQuoteType::Brackets => {
                        let level = match multi_line {
                            Some(n) => *n,
                            None => 0,
                        };
                        long_bracket_string(level, literal.as_str())
                    },
                    StringLiteralQuoteType::Double => {
                        let mut s = String::new();
                        s.push('"');
                        s.append(literal.as_str());
                        s.push('"');
                        proof {
                            assert(s@ =~= seq!['"'] + literal@ + seq!['"']);
                        }
                        s
                    },
                    StringLiteralQuoteType::Single => {
                        let mut s = String::new();
                        s.push('\'');
                        s.append(literal.as_str());
                        s.push('\'');
                        proof {
                            assert(s@ =~= seq!['\''] + literal@ + seq!['\'']);
                        }
                        s
                    },
                }
            },
        }
    }
}

impl TokenReference {
    /// The raw text of the reference: leading trivia, the token, trailing
    /// trivia.
    pub fn to_string(&self) -> (r: String)
        ensures
            r@ == token_ref_text(self@),
    {
        let mut s = String::new();
        let mut i: usize = 0;
        proof {
            assert(tokens_view(self.leading_trivia@).subrange(0, 0) =~= Seq::<TokenModel>::empty());
            assert(s@ =~= tokens_text(tokens_view(self.leading_trivia@).subrange(0, 0)));
        }
        while i < self.leading_trivia.len()
            invariant
                i <= self.leading_trivia@.len(),
                s@ == tokens_text(tokens_view(self.leading_trivia@).subrange(0, i as int)),
            decreases self.leading_trivia@.len() - i,
        {
            let piece = self.leading_trivia[i].to_string();
            proof {
                lemma_tokens_text_snoc(tokens_view(self.leading_trivia@), i as int);
            }
            s.append(piece.as_str());
            i = i + 1;
        }
        proof {
            assert(tokens_view(self.leading_trivia@).subrange(
                0,
                self.leading_trivia@.len() as int,
            ) =~= tokens_view(self.leading_trivia@));
        }
        let tok = self.token.to_string();
        s.append(tok.as_str());
        let ghost mid = s@;
        let mut j: usize = 0;
        proof {
            assert(tokens_view(self.trailing_trivia@).subrange(0, 0)
                =~= Seq::<TokenModel>::empty());
            assert(mid + tokens_text(tokens_view(self.trailing_trivia@).subrange(0, 0)) =~= mid);
        }
        while j < self.trailing_trivia.len()
            invariant
                j <= self.trailing_trivia@.len(),
                s@ == mid + tokens_text(tokens_view(self.trailing_trivia@).subrange(0, j as int)),
            decreases self.trailing_trivia@.len() - j,
        {
            let piece = self.trailing_trivia[j].to_string();
            proof {
                lemma_tokens_text_snoc(tokens_view(self.trailing_trivia@), j as int);
                assert(mid + (tokens_text(tokens_view(self.trailing_trivia@).subrange(
                    0,
                    j as int,
                )) + token_text(tokens_view(self.trailing_trivia@)[j as int])) =~= (mid
                    + tokens_text(tokens_view(self.trailing_trivia@).subrange(0, j as int)))
                    + token_text(tokens_view(self.trailing_trivia@)[j as int]));
            }
            s.append(piece.as_str());
            j = j + 1;
        }
        proof {
            assert(tokens_view(self.trailing_trivia@).subrange(
                0,
                self.trailing_trivia@.len() as int,
            ) =~= tokens_view(self.trailing_trivia@));
        }
        s
    }
}

/// Extending a prefix of a token sequence by one token extends its text at
/// the end.
pub proof fn lemma_tokens_text_snoc(toks: Seq<TokenModel>, i: int)
    requires
        0 <= i < toks.len(),
    ensures
        tokens_text(toks.subrange(0, i + 1)) == tokens_text(toks.subrange(0, i)) + token_text(
            toks[i],
        ),
{
    lemma_tokens_text_add(toks.subrange(0, i), seq![toks[i]]);
    assert(toks.subrange(0, i) + seq![toks[i]] =~= toks.subrange(0, i + 1));
    assert(seq![toks[i]].drop_first() =~= Seq::<TokenModel>::empty());
    assert(tokens_text(seq![toks[i]]) == token_text(toks[i]) + tokens_text(
        seq![toks[i]].drop_first(),
    ));
    assert(tokens_text(seq![toks[i]]) =~= token_text(toks[i]));
}

} // verus!
