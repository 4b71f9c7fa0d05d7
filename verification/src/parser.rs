//! The parser: its state, and the steps that read single tokens.

use crate::annot::{Annot, Loc};
use crate::grammar::{
    close_block, cur, expect, expect_first_line_context, expect_line_context_literal, expect_number,
    expect_out_of_method_block_context, get, get_if, get_if_term, get_no_skip_line_term, in_method,
    is_skipped, is_term, name_id, node, open_block, params_loop, parse_array_index, parse_const,
    parse_ident, parse_line, parse_params, parse_then, peek, peek_from, punct, reserved, skip_space,
    tokens_wf, BlockContext, LineContext, Parse, ParseErr, ParseErrorKind, Parsed,
};
use crate::lexer::Lexer;
use crate::scan::Scanner;
use crate::node::{
    lemma_nodes_view_empty, lemma_nodes_view_push, node_view, nodes_view, Node, NodeKind, NodeView,
};
use crate::token::{tokens_view, Punct, Reserved, Token, TokenKind, TokenView};
use crate::util::{IdentId, IdentifierTable};
use vstd::prelude::*;

verus! {

pub type ParseError = Annot<ParseErrorKind>;

/// The parser: the tokenizer, the tokens of the program, and the place in
/// them.
#[derive(Debug)]
pub struct Parser {
    pub lexer: Lexer,
    pub tokens: Vec<Token>,
    pub cursor: usize,
    pub block_context_stack: Vec<BlockContext>,
    pub line_context_stack: Vec<LineContext>,
    pub ident_table: IdentifierTable,
}

impl View for Parser {
    type V = Parse;

    open spec fn view(&self) -> Parse {
        Parse {
            cursor: self.cursor as nat,
            blocks: self.block_context_stack@,
            lines: self.line_context_stack@,
            idents: self.ident_table@,
        }
    }
}

/// Whether a step of the parser that yields a node did what it should.
pub open spec fn parsed_node(expected: Parsed<NodeView>, got: Result<Node, ParseError>, after: Parse) -> bool {
    match expected {
        Ok((p, n)) => got is Ok && node_view(got->Ok_0) == n && after == p,
        Err((k, l)) => got is Err && got->Err_0.kind == k && got->Err_0.loc == l,
    }
}

/// Whether a step of the parser that yields nodes did what it should.
pub open spec fn parsed_nodes(
    expected: Parsed<Seq<NodeView>>,
    got: Result<Vec<Node>, ParseError>,
    after: Parse,
) -> bool {
    match expected {
        Ok((p, n)) => got is Ok && nodes_view(got->Ok_0@) == n && after == p,
        Err((k, l)) => got is Err && got->Err_0.kind == k && got->Err_0.loc == l,
    }
}

/// Whether a step of the parser that yields nothing did what it should.
pub open spec fn parsed_state(expected: Result<Parse, ParseErr>, got: Result<(), ParseError>, after: Parse) -> bool {
    match expected {
        Ok(p) => got is Ok && after == p,
        Err((k, l)) => got is Err && got->Err_0.kind == k && got->Err_0.loc == l,
    }
}

/// Whether a test gave the expected verdict.
pub open spec fn parsed_unit(expected: Result<(), ParseErr>, got: Result<(), ParseError>) -> bool {
    match expected {
        Ok(_) => got is Ok,
        Err((k, l)) => got is Err && got->Err_0.kind == k && got->Err_0.loc == l,
    }
}

/// A copy of a token.
pub fn clone_token(t: &Token) -> (r: Token)
    ensures
        r.kind@ == t.kind@,
        r.loc == t.loc,
{
    let kind = match &t.kind {
        TokenKind::Ident(s) => TokenKind::Ident(s.clone()),
        TokenKind::Const(s) => TokenKind::Const(s.clone()),
        TokenKind::NumLit(n) => TokenKind::NumLit(*n),
        TokenKind::StringLit(s) => TokenKind::StringLit(s.clone()),
        TokenKind::Reserved(r) => TokenKind::Reserved(*r),
        TokenKind::Punct(p) => TokenKind::Punct(*p),
        TokenKind::Space => TokenKind::Space,
        TokenKind::Line => TokenKind::Line,
        TokenKind::EOF => TokenKind::EOF,
        TokenKind::String => TokenKind::String,
    };
    Annot { kind, loc: t.loc }
}

/// Whether a token is the punctuation `p`.
pub fn is_punct(t: &Token, p: Punct) -> (r: bool)
    ensures
        r == (t.kind@ == punct(p)),
{
    match &t.kind {
        TokenKind::Punct(q) => *q == p,
        _ => false,
    }
}

/// Whether a token is the reserved word `w`.
pub fn is_reserved(t: &Token, w: Reserved) -> (r: bool)
    ensures
        r == (t.kind@ == reserved(w)),
{
    match &t.kind {
        TokenKind::Reserved(q) => *q == w,
        _ => false,
    }
}

/// Whether a token is spaces, a comment or a line break.
pub fn skipped(t: &Token) -> (r: bool)
    ensures
        r == is_skipped(t.kind@),
{
    t.is_line_term() || t.is_space() || t.is_comment()
}

/// The failure of the kind `kind` at `loc`.
pub fn error_at<T>(kind: ParseErrorKind, loc: Loc) -> (r: Result<T, ParseError>)
    ensures
        r is Err,
        r->Err_0.kind == kind,
        r->Err_0.loc == loc,
{
    Err(Annot { kind, loc })
}

impl Parser {
    /// The tokens of the program, as the grammar sees them.
    pub open spec fn toks(&self) -> Seq<TokenView> {
        tokens_view(self.tokens@)
    }

    /// The tokens end with the end of input, the cursor is on a token, and
    /// the tokenizer and the identifiers are in order.
    pub open spec fn wf(&self) -> bool {
        &&& tokens_wf(self.toks(), self@)
        &&& self.ident_table.wf()
        &&& self.lexer.wf()
    }

    /// Whether two states of the parser read the same tokens of the same
    /// text.
    pub open spec fn same_input(&self, other: &Self) -> bool {
        self.tokens == other.tokens && self.lexer == other.lexer
    }

    /// A parser that has read nothing yet: its tokenizer stands at the
    /// start of an empty text, and it holds no token, no context and no
    /// identifier. It is ready once it has been given a program.
    pub fn new() -> (r: Self)
        ensures
            r.lexer.wf(),
            r.lexer@ == (Scanner {
                code: Seq::empty(),
                coordinates: Seq::empty(),
                line_start_pos: 0,
                token_start_pos: 0,
                absolute_column_pos: 0,
                relative_column_pos: 0,
                line_pos: 0,
            }),
            r.ident_table.wf(),
            r.tokens@.len() == 0,
            r@ == (Parse {
                cursor: 0,
                blocks: Seq::empty(),
                lines: Seq::empty(),
                idents: Seq::empty(),
            }),
    {
        Parser {
            lexer: Lexer::new(),
            tokens: Vec::new(),
            cursor: 0,
            block_context_stack: Vec::new(),
            line_context_stack: Vec::new(),
            ident_table: IdentifierTable::new(),
        }
    }

    /// The token under the cursor.
    pub fn current(&self) -> (r: &Token)
        requires
            self.wf(),
        ensures
            (r.kind@, r.loc) == cur(self.toks(), self@),
    {
        &self.tokens[self.cursor]
    }

    /// The span of the token under the cursor.
    pub fn loc(&self) -> (r: Loc)
        requires
            self.wf(),
        ensures
            r == cur(self.toks(), self@).1,
    {
        self.tokens[self.cursor].loc
    }

    /// The refusal of the token under the cursor.
    pub fn refuse<T>(&self) -> (r: Result<T, ParseError>)
        requires
            self.wf(),
        ensures
            r is Err,
            r->Err_0.kind == ParseErrorKind::UnexpectedToken,
            r->Err_0.loc == cur(self.toks(), self@).1,
    {
        error_at(ParseErrorKind::UnexpectedToken, self.loc())
    }

    /// Moves the cursor on by one token.
    fn advance(&mut self)
        requires
            old(self).wf(),
            !(cur(old(self).toks(), old(self)@).0 is EOF),
        ensures
            final(self)@ == crate::grammar::step(old(self)@),
            final(self).wf(),
            final(self).same_input(old(self)),
    {
        let n: usize = self.tokens.len();
        assert(self.toks().len() == n);
        self.cursor += 1;
    }

    pub fn is_first_line_context(&self) -> (r: bool)
        ensures
            r == (self@.lines.len() == 0),
    {
        self.line_context_stack.len() == 0
    }

    /// A definition must stand first in its line.
    pub fn expect_first_line_context(&self) -> (r: Result<(), ParseError>)
        requires
            self.wf(),
        ensures
            parsed_unit(expect_first_line_context(self.toks(), self@), r),
    {
        if self.line_context_stack.len() == 0 {
            Ok(())
        } else if self.cursor >= 3 {
            error_at(ParseErrorKind::LiteralBeforeDefinition, self.tokens[self.cursor - 3].loc)
        } else {
            self.refuse()
        }
    }

    /// The line must have held `expected` last; that is taken off.
    pub fn expect_line_context_literal(&mut self, expected: LineContext) -> (r: Result<
        (),
        ParseError,
    >)
        requires
            old(self).wf(),
        ensures
            parsed_state(
                expect_line_context_literal(old(self).toks(), old(self)@, expected),
                r,
                final(self)@,
            ),
            final(self).wf(),
            final(self).same_input(old(self)),
    {
        let n: usize = self.line_context_stack.len();
        if n > 0 && self.line_context_stack[n - 1] == expected {
            self.line_context_stack.pop();
            Ok(())
        } else {
            self.refuse()
        }
    }

    /// Starts a new line.
    pub fn reset_line_context(&mut self)
        ensures
            final(self)@ == (Parse { lines: Seq::empty(), ..old(self)@ }),
            final(self).wf() == old(self).wf(),
            final(self).same_input(old(self)),
    {
        self.line_context_stack = Vec::new();
    }

    pub fn is_out_of_method_block_context(&self) -> (r: bool)
        ensures
            r == !in_method(self@),
    {
        let mut i: usize = 0;
        while i < self.block_context_stack.len()
            invariant
                i <= self.block_context_stack.len(),
                forall|j: int| 0 <= j < i ==> self.block_context_stack@[j] != BlockContext::Method,
            decreases self.block_context_stack.len() - i,
        {
            if self.block_context_stack[i] == BlockContext::Method {
                return false;
            }
            i += 1;
        }
        true
    }

    /// A class cannot be defined inside a method.
    pub fn expect_out_of_method_block_context(&self) -> (r: Result<(), ParseError>)
        requires
            self.wf(),
        ensures
            parsed_unit(expect_out_of_method_block_context(self.toks(), self@), r),
    {
        if self.is_out_of_method_block_context() {
            Ok(())
        } else if self.cursor >= 6 {
            error_at(
                ParseErrorKind::InnerClassDefinitionInMethodDefinition,
                self.tokens[self.cursor - 6].loc,
            )
        } else {
            self.refuse()
        }
    }

    /// Opens a body.
    pub fn open_block(&mut self, b: BlockContext)
        ensures
            final(self)@ == open_block(old(self)@, b),
            final(self).wf() == old(self).wf(),
            final(self).same_input(old(self)),
    {
        self.block_context_stack.push(b);
    }

    /// Closes the innermost body and starts a new line.
    pub fn close_block(&mut self) -> (r: Result<(), ParseError>)
        requires
            old(self).wf(),
        ensures
            parsed_state(close_block(old(self).toks(), old(self)@), r, final(self)@),
            final(self).wf(),
            final(self).same_input(old(self)),
    {
        if self.block_context_stack.len() == 0 {
            return self.refuse();
        }
        self.block_context_stack.pop();
        self.line_context_stack = Vec::new();
        Ok(())
    }

    /// The number of `name`, which is entered into the identifiers if it
    /// is new.
    pub fn name_id(&mut self, name: &str) -> (r: IdentId)
        requires
            old(self).wf(),
        ensures
            (final(self)@, r.0) == name_id(old(self)@, name@),
            final(self).wf(),
            final(self).same_input(old(self)),
    {
        self.ident_table.get_ident_id(name)
    }

    /// Moves past one token of spaces, if the cursor is on one.
    pub fn skip_space(&mut self)
        requires
            old(self).wf(),
        ensures
            final(self)@ == skip_space(old(self).toks(), old(self)@),
            final(self).wf(),
            final(self).same_input(old(self)),
    {
        if self.tokens[self.cursor].is_space() {
            self.advance();
        }
    }

    /// Takes the next token that is neither spaces, a comment nor a line
    /// break. A line break that is passed starts a new line. The end of
    /// input is not passed.
    pub fn get(&mut self) -> (r: Token)
        requires
            old(self).wf(),
        ensures
            (final(self)@, (r.kind@, r.loc)) == get(old(self).toks(), old(self)@),
            final(self).wf(),
            final(self).same_input(old(self)),
            final(self).cursor >= old(self).cursor,
            !(r.kind@ is EOF) ==> final(self).cursor > old(self).cursor,
    {
        loop
            invariant
                self.wf(),
                self.same_input(old(self)),
                self.cursor >= old(self).cursor,
                get(old(self).toks(), old(self)@) == get(self.toks(), self@),
            decreases self.tokens.len() - self.cursor,
        {
            let token = clone_token(&self.tokens[self.cursor]);
            if token.is_eof() {
                return token;
            }
            self.advance();
            if !skipped(&token) {
                return token;
            } else if token.is_line_term() {
                self.reset_line_context();
            }
        }
    }

    /// Looks for the next token that is neither spaces, a comment nor a
    /// line break, without taking it. A line break that is passed starts a
    /// new line; at the end of input the cursor stops.
    pub fn peek(&mut self) -> (r: Token)
        requires
            old(self).wf(),
        ensures
            (final(self)@, (r.kind@, r.loc)) == peek(old(self).toks(), old(self)@),
            final(self).wf(),
            final(self).same_input(old(self)),
            final(self).cursor >= old(self).cursor,
    {
        let mut c: usize = self.cursor;
        loop
            invariant
                self.wf(),
                self.same_input(old(self)),
                self.cursor == old(self).cursor,
                self.cursor <= c < self.tokens.len(),
                peek(old(self).toks(), old(self)@) == peek_from(self.toks(), self@, c as nat),
            decreases self.tokens.len() - c,
        {
            let tok = clone_token(&self.tokens[c]);
            if tok.is_line_term() {
                self.reset_line_context();
                c += 1;
            } else if tok.is_eof() {
                self.cursor = c;
                return tok;
            } else if !tok.is_space() && !tok.is_comment() {
                return tok;
            } else {
                c += 1;
            }
        }
    }

    /// Takes the next token that is no spaces; a line break is taken as it
    /// is.
    pub fn get_no_skip_line_term(&mut self) -> (r: Token)
        requires
            old(self).wf(),
        ensures
            (final(self)@, (r.kind@, r.loc)) == get_no_skip_line_term(old(self).toks(), old(self)@),
            final(self).wf(),
            final(self).same_input(old(self)),
            final(self).cursor >= old(self).cursor,
    {
        self.skip_space();
        let token = clone_token(&self.tokens[self.cursor]);
        if !token.is_eof() {
            self.advance();
        }
        token
    }

    /// Takes the next token if it is the reserved word `expect`.
    pub fn get_if_reserved(&mut self, expect: Reserved) -> (r: bool)
        requires
            old(self).wf(),
        ensures
            (final(self)@, r) == get_if(old(self).toks(), old(self)@, reserved(expect)),
            final(self).wf(),
            final(self).same_input(old(self)),
            final(self).cursor >= old(self).cursor,
    {
        let tok = self.peek();
        if is_reserved(&tok, expect) {
            self.get();
            true
        } else {
            false
        }
    }

    /// Takes the next token if it is the punctuation `expect`.
    pub fn get_if_punct(&mut self, expect: Punct) -> (r: bool)
        requires
            old(self).wf(),
        ensures
            (final(self)@, r) == get_if(old(self).toks(), old(self)@, punct(expect)),
            final(self).wf(),
            final(self).same_input(old(self)),
            final(self).cursor >= old(self).cursor,
    {
        let tok = self.peek();
        if is_punct(&tok, expect) {
            self.get();
            true
        } else {
            false
        }
    }

    /// Takes the next token, which must be the reserved word `expect`.
    pub fn expect_reserved(&mut self, expect: Reserved) -> (r: Result<(), ParseError>)
        requires
            old(self).wf(),
        ensures
            parsed_state(
                crate::grammar::expect(old(self).toks(), old(self)@, reserved(expect)),
                r,
                final(self)@,
            ),
            final(self).wf(),
            final(self).same_input(old(self)),
            final(self).cursor >= old(self).cursor,
    {
        let tok = self.get();
        if is_reserved(&tok, expect) {
            Ok(())
        } else {
            self.refuse()
        }
    }

    /// Takes the next token, which must be the punctuation `expect`.
    pub fn expect_punct(&mut self, expect: Punct) -> (r: Result<(), ParseError>)
        requires
            old(self).wf(),
        ensures
            parsed_state(
                crate::grammar::expect(old(self).toks(), old(self)@, punct(expect)),
                r,
                final(self)@,
            ),
            final(self).wf(),
            final(self).same_input(old(self)),
            final(self).cursor >= old(self).cursor,
    {
        let tok = self.get();
        if is_punct(&tok, expect) {
            Ok(())
        } else {
            self.refuse()
        }
    }

    /// Takes the next token, which must be a number.
    pub fn expect_number(&mut self) -> (r: Result<i64, ParseError>)
        requires
            old(self).wf(),
        ensures
            match expect_number(old(self).toks(), old(self)@) {
                Ok((p, n)) => r == Ok::<i64, ParseError>(n) && final(self)@ == p,
                Err((k, l)) => r is Err && r->Err_0.kind == k && r->Err_0.loc == l,
            },
            final(self).wf(),
            final(self).same_input(old(self)),
            final(self).cursor >= old(self).cursor,
    {
        let tok = self.get();
        match tok.kind {
            TokenKind::NumLit(num) => Ok(num),
            _ => error_at(ParseErrorKind::UnexpectedToken, tok.loc),
        }
    }

    /// Takes the token under the cursor if it ends a statement.
    pub fn get_if_term(&mut self) -> (r: bool)
        requires
            old(self).wf(),
        ensures
            (final(self)@, r) == get_if_term(old(self).toks(), old(self)@),
            final(self).wf(),
            final(self).same_input(old(self)),
            final(self).cursor >= old(self).cursor,
    {
        if self.tokens[self.cursor].is_term() {
            self.get_no_skip_line_term();
            true
        } else {
            false
        }
    }

    /// Takes the next token, which must be a constant, and returns its
    /// name.
    pub fn parse_const(&mut self) -> (r: Result<String, ParseError>)
        requires
            old(self).wf(),
        ensures
            match parse_const(old(self).toks(), old(self)@) {
                Ok((p, s)) => r is Ok && r->Ok_0@ == s && final(self)@ == p,
                Err((k, l)) => r is Err && r->Err_0.kind == k && r->Err_0.loc == l,
            },
            final(self).wf(),
            final(self).same_input(old(self)),
            final(self).cursor >= old(self).cursor,
    {
        let loc = self.loc();
        let tok = self.get();
        match tok.kind {
            TokenKind::Const(s) => Ok(s),
            _ => error_at(ParseErrorKind::UnexpectedToken, loc),
        }
    }

    /// Takes the next token, which must be an identifier.
    pub fn parse_ident(&mut self) -> (r: Result<Node, ParseError>)
        requires
            old(self).wf(),
        ensures
            parsed_node(parse_ident(old(self).toks(), old(self)@), r, final(self)@),
            final(self).wf(),
            final(self).same_input(old(self)),
            final(self).cursor >= old(self).cursor,
    {
        let tok = self.get();
        match &tok.kind {
            TokenKind::Ident(name) => {
                let id = self.name_id(name.as_str());
                Ok(Node::new_identifier(id, tok.loc))
            },
            _ => error_at(ParseErrorKind::UnexpectedToken, tok.loc),
        }
    }

    /// What follows a condition: the end of the statement, or `then`.
    pub fn parse_then(&mut self) -> (r: Result<(), ParseError>)
        requires
            old(self).wf(),
        ensures
            parsed_state(parse_then(old(self).toks(), old(self)@), r, final(self)@),
            final(self).wf(),
            final(self).same_input(old(self)),
            final(self).cursor >= old(self).cursor,
    {
        if self.get_if_term() {
            return Ok(());
        }
        self.expect_reserved(Reserved::Then)
    }

    /// A line break, which `get` never yields: always refused.
    pub fn parse_line(&mut self) -> (r: Result<Node, ParseError>)
        requires
            old(self).wf(),
        ensures
            parsed_node(parse_line(old(self).toks(), old(self)@), r, final(self)@),
            final(self).wf(),
            final(self).same_input(old(self)),
    {
        let loc = self.loc();
        let tok = self.get();
        if tok.is_line_term() {
            Ok(Annot::new(NodeKind::Nil, loc))
        } else {
            error_at(ParseErrorKind::UnexpectedToken, loc)
        }
    }

    /// The index into an array literal, with the cursor on the `[`.
    pub fn parse_array_index(&mut self) -> (r: Result<i64, ParseError>)
        requires
            old(self).wf(),
        ensures
            match parse_array_index(old(self).toks(), old(self)@) {
                Ok((p, n)) => r == Ok::<i64, ParseError>(n) && final(self)@ == p,
                Err((k, l)) => r is Err && r->Err_0.kind == k && r->Err_0.loc == l,
            },
            final(self).wf(),
            final(self).same_input(old(self)),
            final(self).cursor >= old(self).cursor,
    {
        self.get();
        let num = self.expect_number()?;
        if self.get_if_punct(Punct::RBoxBrackets) {
            Ok(num)
        } else {
            self.refuse()
        }
    }

    /// The parameters of a method: nothing, or a list in parentheses.
    pub fn parse_params(&mut self) -> (r: Result<Vec<Node>, ParseError>)
        requires
            old(self).wf(),
        ensures
            parsed_nodes(parse_params(old(self).toks(), old(self)@), r, final(self)@),
            final(self).wf(),
            final(self).same_input(old(self)),
            final(self).cursor >= old(self).cursor,
    {
        let mut args: Vec<Node> = Vec::new();
        proof {
            lemma_nodes_view_empty(args@);
        }
        if !self.get_if_punct(Punct::LParen) {
            return Ok(args);
        }
        if self.get_if_punct(Punct::RParen) {
            return Ok(args);
        }
        let ghost t = self.toks();
        let ghost p2 = self@;
        loop
            invariant_except_break
                params_loop(t, p2, Seq::empty()) == params_loop(t, self@, nodes_view(args@)),
            invariant
                self.wf(),
                self.same_input(old(self)),
                self.cursor >= old(self).cursor,
                t == self.toks(),
                t == old(self).toks(),
                parse_params(t, old(self)@) == (match params_loop(t, p2, Seq::empty()) {
                    Err(e) => Err(e),
                    Ok((p3, params)) => {
                        let (p4, closed) = get_if(t, p3, punct(Punct::RParen));
                        if closed {
                            Ok((p4, params))
                        } else {
                            Err((ParseErrorKind::UnexpectedToken, peek(t, p4).1.1))
                        }
                    },
                }),
            ensures
                params_loop(t, p2, Seq::empty()) == Ok::<(Parse, Seq<NodeView>), ParseErr>(
                    (self@, nodes_view(args@)),
                ),
            decreases self.tokens.len() - self.cursor,
        {
            let start: usize = self.cursor;
            let tok = self.get();
            match &tok.kind {
                TokenKind::Ident(name) => {
                    let id = self.name_id(name.as_str());
                    let ghost before = args@;
                    let n = Node::new_table_identifier(id, tok.loc);
                    args.push(n);
                    proof {
                        lemma_nodes_view_push(before, n);
                    }
                },
                _ => {
                    return error_at(ParseErrorKind::UnexpectedToken, tok.loc);
                },
            }
            if !self.get_if_punct(Punct::Comma) {
                break ;
            }
            if self.cursor <= start {
                return self.refuse();
            }
        }
        if self.get_if_punct(Punct::RParen) {
            Ok(args)
        } else {
            let tok = self.peek();
            error_at(ParseErrorKind::UnexpectedToken, tok.loc)
        }
    }
}

impl Clone for Parser {
    fn clone(&self) -> (r: Self)
        ensures
            r@ == self@,
            r.toks() == self.toks(),
            r.lexer@ == self.lexer@,
            r.wf() == self.wf(),
            r.lexer.wf() == self.lexer.wf(),
            r.ident_table.wf() == self.ident_table.wf(),
    {
        let mut tokens: Vec<Token> = Vec::new();
        let mut i: usize = 0;
        while i < self.tokens.len()
            invariant
                i <= self.tokens.len(),
                tokens@.len() == i,
                forall|j: int|
                    0 <= j < i ==> (#[trigger] tokens@[j]).kind@ == self.tokens@[j].kind@
                        && tokens@[j].loc == self.tokens@[j].loc,
            decreases self.tokens.len() - i,
        {
            tokens.push(clone_token(&self.tokens[i]));
            i += 1;
        }
        assert(tokens_view(tokens@) =~= tokens_view(self.tokens@));
        let mut blocks: Vec<BlockContext> = Vec::new();
        let mut j: usize = 0;
        while j < self.block_context_stack.len()
            invariant
                j <= self.block_context_stack.len(),
                blocks@ == self.block_context_stack@.subrange(0, j as int),
            decreases self.block_context_stack.len() - j,
        {
            blocks.push(self.block_context_stack[j]);
            assert(blocks@ =~= self.block_context_stack@.subrange(0, j + 1));
            j += 1;
        }
        assert(self.block_context_stack@.subrange(0, j as int) =~= self.block_context_stack@);
        let mut lines: Vec<LineContext> = Vec::new();
        let mut k: usize = 0;
        while k < self.line_context_stack.len()
            invariant
                k <= self.line_context_stack.len(),
                lines@ == self.line_context_stack@.subrange(0, k as int),
            decreases self.line_context_stack.len() - k,
        {
            lines.push(self.line_context_stack[k]);
            assert(lines@ =~= self.line_context_stack@.subrange(0, k + 1));
            k += 1;
        }
        assert(self.line_context_stack@.subrange(0, k as int) =~= self.line_context_stack@);
        Parser {
            lexer: self.lexer.clone(),
            tokens,
            cursor: self.cursor,
            block_context_stack: blocks,
            line_context_stack: lines,
            ident_table: self.ident_table.clone(),
        }
    }
}

} // verus!
