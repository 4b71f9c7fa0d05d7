//! Tokens of the surface syntax.

use crate::annot::{Annot, Loc};
use vstd::prelude::*;

verus! {

#[derive(Debug, Clone, PartialEq)]
pub enum TokenKind {
    Ident(String),
    Const(String),
    NumLit(i64),
    StringLit(String),
    Reserved(Reserved),
    Punct(Punct),
    Space,
    Line,
    EOF,
    String,
}

#[allow(non_camel_case_types)]
#[derive(Debug, Clone, Copy, PartialEq, Eq, Structural, Hash)]
pub enum Reserved {
    BEGIN,
    END,
    Alias,
    And,
    Begin,
    Break,
    Case,
    Class,
    Def,
    Defined,
    Do,
    Else,
    Elsif,
    End,
    Ensure,
    False,
    For,
    If,
    In,
    Module,
    Next,
    Nil,
    Not,
    Or,
    Redo,
    Rescue,
    Retry,
    Return,
    Super,
    Then,
    True,
    Undef,
    Unless,
    Until,
    When,
    While,
    Yield,
    __LINE__,
    __FILE__,
}

#[derive(Debug, Clone, Copy, PartialEq, Eq, Structural)]
pub enum Punct {
    Plus,
    Minus,
    Mul,
    Div,
    And,
    Or,
    LParen,
    RParen,
    LBoxBrackets,
    RBoxBrackets,
    Semi,
    Colon,
    Comma,
    Eq,
    NE,
    GT,
    GE,
    LT,
    LE,
    LAnd,
    LOr,
    Assign,
    Comment,
    Dot,
    Pipe,
    At,
    AtAt,
}

/// What a [`TokenKind`] stands for: names and string literals by their
/// characters.
pub enum TokenKindView {
    Ident(Seq<char>),
    Const(Seq<char>),
    NumLit(i64),
    StringLit(Seq<char>),
    Reserved(Reserved),
    Punct(Punct),
    Space,
    Line,
    EOF,
    String,
}

impl View for TokenKind {
    type V = TokenKindView;

    open spec fn view(&self) -> TokenKindView {
        match self {
            TokenKind::Ident(s) => TokenKindView::Ident(s@),
            TokenKind::Const(s) => TokenKindView::Const(s@),
            TokenKind::NumLit(n) => TokenKindView::NumLit(*n),
            TokenKind::StringLit(s) => TokenKindView::StringLit(s@),
            TokenKind::Reserved(r) => TokenKindView::Reserved(*r),
            TokenKind::Punct(p) => TokenKindView::Punct(*p),
            TokenKind::Space => TokenKindView::Space,
            TokenKind::Line => TokenKindView::Line,
            TokenKind::EOF => TokenKindView::EOF,
            TokenKind::String => TokenKindView::String,
        }
    }
}

pub type Token = Annot<TokenKind>;

/// What a token stands for: its kind and its place.
pub type TokenView = (TokenKindView, Loc);

/// What each token of a sequence stands for.
pub open spec fn tokens_view(tokens: Seq<Token>) -> Seq<TokenView> {
    Seq::new(tokens.len(), |i: int| (tokens[i].kind@, tokens[i].loc))
}

impl Token {
    pub fn new_ident(ident: String, loc: Loc) -> (r: Self)
        ensures
            r.kind == TokenKind::Ident(ident),
            r.loc == loc,
    {
        Annot::new(TokenKind::Ident(ident), loc)
    }

    pub fn new_const(ident: String, loc: Loc) -> (r: Self)
        ensures
            r.kind == TokenKind::Const(ident),
            r.loc == loc,
    {
        Annot::new(TokenKind::Const(ident), loc)
    }

    pub fn new_reserved(ident: Reserved, loc: Loc) -> (r: Self)
        ensures
            r.kind == TokenKind::Reserved(ident),
            r.loc == loc,
    {
        Annot::new(TokenKind::Reserved(ident), loc)
    }

    pub fn new_numlit(num: i64, loc: Loc) -> (r: Self)
        ensures
            r.kind == TokenKind::NumLit(num),
            r.loc == loc,
    {
        Annot::new(TokenKind::NumLit(num), loc)
    }

    pub fn new_stringlit(s: String, loc: Loc) -> (r: Self)
        ensures
            r.kind == TokenKind::StringLit(s),
            r.loc == loc,
    {
        Annot::new(TokenKind::StringLit(s), loc)
    }

    pub fn new_comment(loc: Loc) -> (r: Self)
        ensures
            r.kind == TokenKind::Punct(Punct::Comment),
            r.loc == loc,
    {
        Annot::new(TokenKind::Punct(Punct::Comment), loc)
    }

    pub fn new_string(loc: Loc) -> (r: Self)
        ensures
            r.kind == TokenKind::String,
            r.loc == loc,
    {
        Annot::new(TokenKind::String, loc)
    }

    pub fn new_punct(punct: Punct, loc: Loc) -> (r: Self)
        ensures
            r.kind == TokenKind::Punct(punct),
            r.loc == loc,
    {
        Annot::new(TokenKind::Punct(punct), loc)
    }

    pub fn new_space(loc: Loc) -> (r: Self)
        ensures
            r.kind == TokenKind::Space,
            r.loc == loc,
    {
        Annot::new(TokenKind::Space, loc)
    }

    pub fn new_line(loc: Loc) -> (r: Self)
        ensures
            r.kind == TokenKind::Line,
            r.loc == loc,
    {
        Annot::new(TokenKind::Line, loc)
    }

    pub fn new_eof(loc: Loc) -> (r: Self)
        ensures
            r.kind == TokenKind::EOF,
            r.loc == loc,
    {
        Annot::new(TokenKind::EOF, loc)
    }

    pub fn is_space(&self) -> (r: bool)
        ensures
            r == (self.kind is Space),
    {
        matches!(self.kind, TokenKind::Space)
    }

    pub fn is_line_term(&self) -> (r: bool)
        ensures
            r == (self.kind is Line),
    {
        matches!(self.kind, TokenKind::Line)
    }

    pub fn is_comment(&self) -> (r: bool)
        ensures
            r == (self.kind == TokenKind::Punct(Punct::Comment)),
    {
        matches!(self.kind, TokenKind::Punct(Punct::Comment))
    }

    pub fn is_eof(&self) -> (r: bool)
        ensures
            r == (self.kind is EOF),
    {
        matches!(self.kind, TokenKind::EOF)
    }

    /// A statement ends at a line break, at the end of input or at `;`.
    pub fn is_term(&self) -> (r: bool)
        ensures
            r == (self.kind is Line || self.kind is EOF || self.kind == TokenKind::Punct(
                Punct::Semi,
            )),
    {
        matches!(self.kind, TokenKind::Line | TokenKind::EOF | TokenKind::Punct(Punct::Semi))
    }
}

} // verus!
