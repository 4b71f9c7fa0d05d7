//! What the parser does, as functions on the tokens and an abstract
//! parser state.
//!
//! The functions that can call each other without end take a budget for
//! the depth of nesting: a construct that is nested deeper than the budget
//! allows is refused. Decimal literals are refused as well.

use crate::annot::Loc;
use crate::node::{BinOp, NodeKindView, NodeView, ParsedArgsView};
use crate::token::{Punct, Reserved, TokenKindView, TokenView};
use crate::util::{intern, intern_id};
use vstd::prelude::*;

verus! {

#[derive(Debug, Clone, Copy, PartialEq, Eq, Structural)]
pub enum ParseErrorKind {
    UnexpectedToken,
    LiteralBeforeDefinition,
    InnerClassDefinitionInMethodDefinition,
    EOF,
}

#[derive(Debug, Clone, Copy, PartialEq, Eq, Structural)]
pub enum Literal {
    String,
    Number,
    Array,
}

/// What kind of body the parser is in.
#[derive(Debug, Clone, Copy, PartialEq, Eq, Structural)]
pub enum BlockContext {
    Class,
    Method,
}

/// What the parser has seen in the current line.
#[derive(Debug, Clone, Copy, PartialEq, Eq, Structural)]
pub enum LineContext {
    Literal(Literal),
    Class,
    Method,
}

/// The state of the parser: the position in the tokens, the bodies that are
/// open, what the current line has held so far, and the identifiers.
pub struct Parse {
    pub cursor: nat,
    pub blocks: Seq<BlockContext>,
    pub lines: Seq<LineContext>,
    pub idents: Seq<Seq<char>>,
}

pub type ParseErr = (ParseErrorKind, Loc);

pub type Parsed<T> = Result<(Parse, T), ParseErr>;

/// The tokens end with the end of input, and the cursor is on a token.
pub open spec fn tokens_wf(t: Seq<TokenView>, p: Parse) -> bool {
    &&& t.len() > 0
    &&& t.last().0 is EOF
    &&& p.cursor < t.len()
}

/// The token under the cursor.
pub open spec fn cur(t: Seq<TokenView>, p: Parse) -> TokenView {
    t[p.cursor as int]
}

/// The refusal of the token under the cursor.
pub open spec fn refuse<T>(t: Seq<TokenView>, p: Parse) -> Parsed<T> {
    Err((ParseErrorKind::UnexpectedToken, cur(t, p).1))
}

pub open spec fn step(p: Parse) -> Parse {
    Parse { cursor: p.cursor + 1, ..p }
}

pub open spec fn is_skipped(k: TokenKindView) -> bool {
    k is Line || k is Space || k == TokenKindView::Punct(Punct::Comment)
}

pub open spec fn is_term(k: TokenKindView) -> bool {
    k is Line || k is EOF || k == TokenKindView::Punct(Punct::Semi)
}

/// Moves past one token of spaces, if the cursor is on one.
pub open spec fn skip_space(t: Seq<TokenView>, p: Parse) -> Parse {
    if cur(t, p).0 is Space {
        step(p)
    } else {
        p
    }
}

/// Takes the next token that is neither spaces, a comment nor a line
/// break. A line break that is passed starts a new line. The end of input
/// is not passed.
pub open spec fn get(t: Seq<TokenView>, p: Parse) -> (Parse, TokenView)
    decreases t.len() - p.cursor,
{
    if p.cursor >= t.len() {
        (p, cur(t, p))
    } else if cur(t, p).0 is EOF {
        (p, cur(t, p))
    } else if !is_skipped(cur(t, p).0) {
        (step(p), cur(t, p))
    } else if cur(t, p).0 is Line {
        get(t, Parse { lines: Seq::empty(), ..step(p) })
    } else {
        get(t, step(p))
    }
}

/// Looks from the position `c` on for the next token that is neither
/// spaces, a comment nor a line break, without taking it. A line break
/// that is passed starts a new line; at the end of input the cursor stops.
pub open spec fn peek_from(t: Seq<TokenView>, p: Parse, c: nat) -> (Parse, TokenView)
    decreases t.len() - c,
{
    if c >= t.len() {
        (p, cur(t, p))
    } else if t[c as int].0 is Line {
        peek_from(t, Parse { lines: Seq::empty(), ..p }, c + 1)
    } else if t[c as int].0 is EOF {
        (Parse { cursor: c, ..p }, t[c as int])
    } else if !is_skipped(t[c as int].0) {
        (p, t[c as int])
    } else {
        peek_from(t, p, c + 1)
    }
}

pub open spec fn peek(t: Seq<TokenView>, p: Parse) -> (Parse, TokenView) {
    peek_from(t, p, p.cursor)
}

/// Takes the next token that is no spaces; a line break is taken as it is.
pub open spec fn get_no_skip_line_term(t: Seq<TokenView>, p: Parse) -> (Parse, TokenView) {
    let p1 = skip_space(t, p);
    if cur(t, p1).0 is EOF {
        (p1, cur(t, p1))
    } else {
        (step(p1), cur(t, p1))
    }
}

/// Takes the next token if it is of the kind `k`.
pub open spec fn get_if(t: Seq<TokenView>, p: Parse, k: TokenKindView) -> (Parse, bool) {
    let (p1, tok) = peek(t, p);
    if tok.0 == k {
        (get(t, p1).0, true)
    } else {
        (p1, false)
    }
}

/// Takes the next token, which must be of the kind `k`.
pub open spec fn expect(t: Seq<TokenView>, p: Parse, k: TokenKindView) -> Result<Parse, ParseErr> {
    let (p1, tok) = get(t, p);
    if tok.0 == k {
        Ok(p1)
    } else {
        Err((ParseErrorKind::UnexpectedToken, cur(t, p1).1))
    }
}

pub open spec fn punct(q: Punct) -> TokenKindView {
    TokenKindView::Punct(q)
}

pub open spec fn reserved(r: Reserved) -> TokenKindView {
    TokenKindView::Reserved(r)
}

/// Takes the next token, which must be a number.
pub open spec fn expect_number(t: Seq<TokenView>, p: Parse) -> Parsed<i64> {
    let (p1, tok) = get(t, p);
    match tok.0 {
        TokenKindView::NumLit(n) => Ok((p1, n)),
        _ => Err((ParseErrorKind::UnexpectedToken, tok.1)),
    }
}

/// Takes the token under the cursor if it ends a statement.
pub open spec fn get_if_term(t: Seq<TokenView>, p: Parse) -> (Parse, bool) {
    if is_term(cur(t, p).0) {
        (get_no_skip_line_term(t, p).0, true)
    } else {
        (p, false)
    }
}

/// A definition must stand first in its line.
pub open spec fn expect_first_line_context(t: Seq<TokenView>, p: Parse) -> Result<(), ParseErr> {
    if p.lines.len() == 0 {
        Ok(())
    } else if p.cursor >= 3 {
        Err((ParseErrorKind::LiteralBeforeDefinition, t[p.cursor - 3].1))
    } else {
        Err((ParseErrorKind::UnexpectedToken, cur(t, p).1))
    }
}

/// The line must have held `expected` last; that is taken off.
pub open spec fn expect_line_context_literal(
    t: Seq<TokenView>,
    p: Parse,
    expected: LineContext,
) -> Result<
    Parse,
    ParseErr,
> {
    if p.lines.len() > 0 && p.lines.last() == expected {
        Ok(Parse { lines: p.lines.drop_last(), ..p })
    } else {
        Err((ParseErrorKind::UnexpectedToken, cur(t, p).1))
    }
}

pub open spec fn in_method(p: Parse) -> bool {
    exists|i: int| 0 <= i < p.blocks.len() && p.blocks[i] == BlockContext::Method
}

/// A class cannot be defined inside a method.
pub open spec fn expect_out_of_method_block_context(t: Seq<TokenView>, p: Parse) -> Result<
    (),
    ParseErr,
> {
    if !in_method(p) {
        Ok(())
    } else if p.cursor >= 6 {
        Err((ParseErrorKind::InnerClassDefinitionInMethodDefinition, t[p.cursor - 6].1))
    } else {
        Err((ParseErrorKind::UnexpectedToken, cur(t, p).1))
    }
}

/// Closes the innermost body and starts a new line.
pub open spec fn close_block(t: Seq<TokenView>, p: Parse) -> Result<Parse, ParseErr> {
    if p.blocks.len() > 0 {
        Ok(Parse { blocks: p.blocks.drop_last(), lines: Seq::empty(), ..p })
    } else {
        Err((ParseErrorKind::UnexpectedToken, cur(t, p).1))
    }
}

pub open spec fn open_block(p: Parse, b: BlockContext) -> Parse {
    Parse { blocks: p.blocks.push(b), ..p }
}

/// The state in which `name` has a number, and that number.
pub open spec fn name_id(p: Parse, name: Seq<char>) -> (Parse, usize) {
    (Parse { idents: intern(p.idents, name), ..p }, intern_id(p.idents, name) as usize)
}

pub open spec fn node(kind: NodeKindView, loc: Loc) -> NodeView {
    NodeView { kind, loc }
}

pub open spec fn none_node() -> NodeView {
    node(NodeKindView::Nil, Loc(0, 0))
}

pub open spec fn empty_comp_stmt() -> NodeView {
    node(NodeKindView::CompStmt(Seq::empty()), Loc(0, 0))
}

pub open spec fn binop_node(op: BinOp, lhs: NodeView, rhs: NodeView) -> NodeView {
    node(NodeKindView::BinOp(op, Box::new(lhs), Box::new(rhs)), lhs.loc.merge_spec(rhs.loc))
}

pub open spec fn send_node(
    receiver: NodeView,
    method: NodeView,
    args: ParsedArgsView,
    loc: Loc,
) -> NodeView {
    node(NodeKindView::Send(Box::new(receiver), Box::new(method), Box::new(args)), loc)
}

pub open spec fn only_args(args: Seq<NodeView>) -> ParsedArgsView {
    ParsedArgsView { table: none_node(), node: none_node(), args }
}

/// The parameter of a block as the call holds it: an identifier becomes
/// the push of its number.
pub open spec fn as_table(n: NodeView) -> NodeView {
    match n.kind {
        NodeKindView::Ident(id) => node(NodeKindView::TableIdent(id), n.loc),
        _ => n,
    }
}

/// Takes the next token, which must be a constant, and returns its name.
pub open spec fn parse_const(t: Seq<TokenView>, p: Parse) -> Parsed<Seq<char>> {
    let (p1, tok) = get(t, p);
    match tok.0 {
        TokenKindView::Const(s) => Ok((p1, s)),
        _ => Err((ParseErrorKind::UnexpectedToken, cur(t, p).1)),
    }
}

/// Takes the next token, which must be an identifier.
pub open spec fn parse_ident(t: Seq<TokenView>, p: Parse) -> Parsed<NodeView> {
    let (p1, tok) = get(t, p);
    match tok.0 {
        TokenKindView::Ident(name) => {
            let (p2, id) = name_id(p1, name);
            Ok((p2, node(NodeKindView::Ident(id), tok.1)))
        },
        _ => Err((ParseErrorKind::UnexpectedToken, tok.1)),
    }
}

/// What follows a condition: the end of the statement, or `then`.
pub open spec fn parse_then(t: Seq<TokenView>, p: Parse) -> Result<Parse, ParseErr> {
    let (p1, got) = get_if_term(t, p);
    if got {
        Ok(p1)
    } else {
        expect(t, p1, reserved(Reserved::Then))
    }
}

/// A line break, which `get` never yields: always refused.
pub open spec fn parse_line(t: Seq<TokenView>, p: Parse) -> Parsed<NodeView> {
    let (p1, tok) = get(t, p);
    if tok.0 is Line {
        Ok((p1, node(NodeKindView::Nil, cur(t, p).1)))
    } else {
        Err((ParseErrorKind::UnexpectedToken, cur(t, p).1))
    }
}

/// The parameters of a method from the cursor on, after `acc`, up to the
/// first that no comma follows.
pub open spec fn params_loop(
    t: Seq<TokenView>,
    p: Parse,
    acc: Seq<NodeView>,
) -> Parsed<Seq<NodeView>>
    decreases t.len() - p.cursor,
{
    let (p1, tok) = get(t, p);
    match tok.0 {
        TokenKindView::Ident(name) => {
            let (p2, id) = name_id(p1, name);
            let acc1 = acc.push(node(NodeKindView::TableIdent(id), tok.1));
            let (p3, more) = get_if(t, p2, punct(Punct::Comma));
            if !more {
                Ok((p3, acc1))
            } else if p3.cursor > p.cursor && p3.cursor < t.len() {
                params_loop(t, p3, acc1)
            } else {
                refuse(t, p3)
            }
        },
        _ => Err((ParseErrorKind::UnexpectedToken, tok.1)),
    }
}

/// The parameters of a method: nothing, or a list in parentheses.
pub open spec fn parse_params(t: Seq<TokenView>, p: Parse) -> Parsed<Seq<NodeView>> {
    let (p1, open) = get_if(t, p, punct(Punct::LParen));
    if !open {
        Ok((p1, Seq::empty()))
    } else {
        let (p2, closed) = get_if(t, p1, punct(Punct::RParen));
        if closed {
            Ok((p2, Seq::empty()))
        } else {
            match params_loop(t, p2, Seq::empty()) {
                Err(e) => Err(e),
                Ok((p3, params)) => {
                    let (p4, closed) = get_if(t, p3, punct(Punct::RParen));
                    if closed {
                        Ok((p4, params))
                    } else {
                        Err((ParseErrorKind::UnexpectedToken, peek(t, p4).1.1))
                    }
                },
            }
        }
    }
}


pub open spec fn if_node(cond: NodeView, then_: NodeView, else_: NodeView) -> NodeView {
    node(
        NodeKindView::If(Box::new(cond), Box::new(then_), Box::new(else_)),
        cond.loc.merge_spec(else_.loc),
    )
}

/// The index into an array literal, with the cursor on the `[`.
pub open spec fn parse_array_index(t: Seq<TokenView>, p: Parse) -> Parsed<i64> {
    match expect_number(t, get(t, p).0) {
        Err(e) => Err(e),
        Ok((p1, num)) => {
            let (p2, closed) = get_if(t, p1, punct(Punct::RBoxBrackets));
            if closed {
                Ok((p2, num))
            } else {
                refuse(t, p2)
            }
        },
    }
}

/// The statements of a program: sequences of statements are read until
/// the end of input. A sequence that is followed by something that cannot
/// start a statement is refused.
pub open spec fn parse_program_loop_body(t: Seq<TokenView>, p: Parse, d: nat) -> Parsed<NodeView>
    decreases d, 31nat, t.len() - p.cursor, 0nat,
{
    match parse_comp_stmt(t, p, d) {
        Err(e) => Err(e),
        Ok((p1, n)) => {
            let p2 = skip_space(t, p1);
            if cur(t, p2).0 is EOF {
                Ok((p2, n))
            } else if p2.cursor > p.cursor && p2.cursor < t.len() {
                parse_program_loop(t, p2, d)
            } else {
                refuse(t, p2)
            }
        },
    }
}

/// A sequence of statements. Its span reaches from the token it starts at
/// to its last statement.
pub open spec fn parse_comp_stmt_body(t: Seq<TokenView>, p: Parse, d: nat) -> Parsed<NodeView>
    decreases d, 30nat, 0nat, 0nat,
{
    match comp_stmt_loop(t, p, Seq::empty(), d) {
        Err(e) => Err(e),
        Ok((p1, nodes)) => Ok(
            (
                p1,
                node(
                    NodeKindView::CompStmt(nodes),
                    if nodes.len() > 0 {
                        cur(t, p).1.merge_spec(nodes.last().loc)
                    } else {
                        cur(t, p).1
                    },
                ),
            ),
        ),
    }
}

/// The statements from the cursor on, after `acc`: up to `;`, `end`,
/// `else`, `elsif`, the end of input, or a statement that nothing ends.
pub open spec fn comp_stmt_loop_body(
    t: Seq<TokenView>,
    p: Parse,
    acc: Seq<NodeView>,
    d: nat,
) -> Parsed<Seq<NodeView>>
    decreases d, 29nat, t.len() - p.cursor, 0nat,
{
    let (p1, tok) = peek(t, p);
    if tok.0 == punct(Punct::Semi) || tok.0 is EOF || tok.0 == reserved(Reserved::Else) || tok.0
        == reserved(Reserved::Elsif) || tok.0 == reserved(Reserved::End) {
        Ok((p1, acc))
    } else {
        match parse_expr(t, p1, d) {
            Err(e) => Err(e),
            Ok((p2, n)) => {
                let (p3, more) = get_if_term(t, p2);
                if !more {
                    Ok((p3, acc.push(n)))
                } else if p3.cursor > p.cursor && p3.cursor < t.len() {
                    comp_stmt_loop(t, p3, acc.push(n), d)
                } else {
                    refuse(t, p3)
                }
            },
        }
    }
}

/// An expression.
pub open spec fn parse_expr_body(t: Seq<TokenView>, p: Parse, d: nat) -> Parsed<NodeView>
    decreases d, 28nat, 0nat, 0nat,
{
    parse_arg(t, p, d)
}

/// An argument: an expression without a block.
pub open spec fn parse_arg_body(t: Seq<TokenView>, p: Parse, d: nat) -> Parsed<NodeView>
    decreases d, 27nat, 0nat, 0nat,
{
    parse_arg_assign(t, p, d)
}

/// An assignment, or what stands on its left.
pub open spec fn parse_arg_assign_body(t: Seq<TokenView>, p: Parse, d: nat) -> Parsed<NodeView>
    decreases d, 26nat, 0nat, 0nat,
{
    match parse_arg_logical_or(t, p, d) {
        Err(e) => Err(e),
        Ok((p1, lhs)) => {
            let (p2, got) = get_if(t, p1, punct(Punct::Assign));
            if got {
                if d == 0 {
                    refuse(t, p2)
                } else {
                    match parse_arg(t, p2, (d - 1) as nat) {
                        Err(e) => Err(e),
                        Ok((q, rhs)) => Ok(
                            (
                                q,
                                node(
                                    NodeKindView::Assign(Box::new(lhs), Box::new(rhs)),
                                    lhs.loc.merge_spec(rhs.loc),
                                ),
                            ),
                        ),
                    }
                }
            } else {
                Ok((p2, lhs))
            }
        },
    }
}

/// The level of `||`, which reads `&&`.
pub open spec fn parse_arg_logical_or_body(t: Seq<TokenView>, p: Parse, d: nat) -> Parsed<NodeView>
    decreases d, 25nat, 0nat, 0nat,
{
    match parse_arg_logical_and(t, p, d) {
        Err(e) => Err(e),
        Ok((p1, lhs)) => {
    let (p2, got) = get_if(t, p1, punct(Punct::LAnd));
    if got {
        if d == 0 {
            refuse(t, p2)
        } else {
            match parse_arg_logical_or(t, p2, (d - 1) as nat) {
                Err(e) => Err(e),
                Ok((q, rhs)) => Ok((q, binop_node(BinOp::LAnd, lhs, rhs))),
            }
        }
    } else {
    Ok((p2, lhs))
    }
        },
    }
}

/// The level of `&&`.
pub open spec fn parse_arg_logical_and_body(t: Seq<TokenView>, p: Parse, d: nat) -> Parsed<NodeView>
    decreases d, 24nat, 0nat, 0nat,
{
    match parse_arg_eq(t, p, d) {
        Err(e) => Err(e),
        Ok((p1, lhs)) => {
    let (p2, got) = get_if(t, p1, punct(Punct::LAnd));
    if got {
        if d == 0 {
            refuse(t, p2)
        } else {
            match parse_arg_logical_and(t, p2, (d - 1) as nat) {
                Err(e) => Err(e),
                Ok((q, rhs)) => Ok((q, binop_node(BinOp::LAnd, lhs, rhs))),
            }
        }
    } else {
    Ok((p2, lhs))
    }
        },
    }
}

/// The level of `==` and `!=`.
pub open spec fn parse_arg_eq_body(t: Seq<TokenView>, p: Parse, d: nat) -> Parsed<NodeView>
    decreases d, 23nat, 0nat, 0nat,
{
    match parse_arg_comp(t, p, d) {
        Err(e) => Err(e),
        Ok((p1, lhs)) => {
    let (p2, got) = get_if(t, p1, punct(Punct::Eq));
    if got {
        if d == 0 {
            refuse(t, p2)
        } else {
            match parse_arg_eq(t, p2, (d - 1) as nat) {
                Err(e) => Err(e),
                Ok((q, rhs)) => Ok((q, binop_node(BinOp::Eq, lhs, rhs))),
            }
        }
    } else {
    let (p3, got) = get_if(t, p2, punct(Punct::NE));
    if got {
        if d == 0 {
            refuse(t, p3)
        } else {
            match parse_arg_eq(t, p3, (d - 1) as nat) {
                Err(e) => Err(e),
                Ok((q, rhs)) => Ok((q, binop_node(BinOp::Ne, lhs, rhs))),
            }
        }
    } else {
    Ok((p3, lhs))
    }
    }
        },
    }
}

/// The level of the comparisons.
pub open spec fn parse_arg_comp_body(t: Seq<TokenView>, p: Parse, d: nat) -> Parsed<NodeView>
    decreases d, 22nat, 0nat, 0nat,
{
    match parse_arg_add(t, p, d) {
        Err(e) => Err(e),
        Ok((p1, lhs)) => {
    let (p2, got) = get_if(t, p1, punct(Punct::GE));
    if got {
        if d == 0 {
            refuse(t, p2)
        } else {
            match parse_arg_comp(t, p2, (d - 1) as nat) {
                Err(e) => Err(e),
                Ok((q, rhs)) => Ok((q, binop_node(BinOp::GE, lhs, rhs))),
            }
        }
    } else {
    let (p3, got) = get_if(t, p2, punct(Punct::GT));
    if got {
        if d == 0 {
            refuse(t, p3)
        } else {
            match parse_arg_comp(t, p3, (d - 1) as nat) {
                Err(e) => Err(e),
                Ok((q, rhs)) => Ok((q, binop_node(BinOp::GT, lhs, rhs))),
            }
        }
    } else {
    let (p4, got) = get_if(t, p3, punct(Punct::LE));
    if got {
        if d == 0 {
            refuse(t, p4)
        } else {
            match parse_arg_comp(t, p4, (d - 1) as nat) {
                Err(e) => Err(e),
                Ok((q, rhs)) => Ok((q, binop_node(BinOp::LE, lhs, rhs))),
            }
        }
    } else {
    let (p5, got) = get_if(t, p4, punct(Punct::LT));
    if got {
        if d == 0 {
            refuse(t, p5)
        } else {
            match parse_arg_comp(t, p5, (d - 1) as nat) {
                Err(e) => Err(e),
                Ok((q, rhs)) => Ok((q, binop_node(BinOp::LT, lhs, rhs))),
            }
        }
    } else {
    Ok((p5, lhs))
    }
    }
    }
    }
        },
    }
}

/// The level of `+` and `-`.
pub open spec fn parse_arg_add_body(t: Seq<TokenView>, p: Parse, d: nat) -> Parsed<NodeView>
    decreases d, 21nat, 0nat, 0nat,
{
    match parse_arg_mul(t, p, d) {
        Err(e) => Err(e),
        Ok((p1, lhs)) => {
    let p2 = skip_space(t, p1);
    if cur(t, p2).0 == punct(Punct::Plus) {
        let p3 = get(t, p2).0;
        if d == 0 {
            refuse(t, p3)
        } else {
            match parse_arg_add(t, p3, (d - 1) as nat) {
                Err(e) => Err(e),
                Ok((q, rhs)) => Ok((q, binop_node(BinOp::Add, lhs, rhs))),
            }
        }
    } else if cur(t, p2).0 == punct(Punct::Minus) {
        let p3 = get(t, p2).0;
        if d == 0 {
            refuse(t, p3)
        } else {
            match parse_arg_add(t, p3, (d - 1) as nat) {
                Err(e) => Err(e),
                Ok((q, rhs)) => Ok((q, binop_node(BinOp::Sub, lhs, rhs))),
            }
        }
    } else {
        Ok((p2, lhs))
    }
        },
    }
}

/// The level of `*` and `/`.
pub open spec fn parse_arg_mul_body(t: Seq<TokenView>, p: Parse, d: nat) -> Parsed<NodeView>
    decreases d, 20nat, 0nat, 0nat,
{
    match parse_unary_minus(t, p, d) {
        Err(e) => Err(e),
        Ok((p1, lhs)) => {
    let p2 = skip_space(t, skip_space(t, p1));
    if cur(t, p2).0 == punct(Punct::Mul) {
        let p3 = get(t, p2).0;
        if d == 0 {
            refuse(t, p3)
        } else {
            match parse_arg_mul(t, p3, (d - 1) as nat) {
                Err(e) => Err(e),
                Ok((q, rhs)) => Ok((q, binop_node(BinOp::Mul, lhs, rhs))),
            }
        }
    } else if cur(t, p2).0 == punct(Punct::Div) {
        let p3 = get(t, p2).0;
        if d == 0 {
            refuse(t, p3)
        } else {
            match parse_arg_mul(t, p3, (d - 1) as nat) {
                Err(e) => Err(e),
                Ok((q, rhs)) => Ok((q, binop_node(BinOp::Div, lhs, rhs))),
            }
        }
    } else {
        Ok((p2, lhs))
    }
        },
    }
}

/// A primary, negated where `-` stands before it: the product of the
/// primary and -1.
pub open spec fn parse_unary_minus_body(t: Seq<TokenView>, p: Parse, d: nat) -> Parsed<NodeView>
    decreases d, 19nat, 0nat, 0nat,
{
    let (p1, got) = get_if(t, p, punct(Punct::Minus));
    match parse_primary_ext(t, p1, d) {
        Err(e) => Err(e),
        Ok((p2, lhs)) => if got {
            Ok(
                (
                    p2,
                    binop_node(
                        BinOp::Mul,
                        lhs,
                        node(NodeKindView::Number(-1i64), cur(t, p).1.merge_spec(lhs.loc)),
                    ),
                ),
            )
        } else {
            Ok((p2, lhs))
        },
    }
}

/// A primary and what follows it directly: the arguments of a call of a
/// method of `self`, an index into an array literal, or a chain of method
/// calls.
pub open spec fn parse_primary_ext_body(t: Seq<TokenView>, p: Parse, d: nat) -> Parsed<NodeView>
    decreases d, 18nat, 0nat, 0nat,
{
    match parse_primary(t, p, d) {
        Err(e) => Err(e),
        Ok((p1, n)) => if cur(t, p1).0 == punct(Punct::LParen) {
            match arg_list(t, get(t, p1).0, Punct::RParen, d) {
                Err(e) => Err(e),
                Ok((p2, args)) => Ok(
                    (
                        p2,
                        send_node(
                            node(NodeKindView::SelfValue, cur(t, p).1),
                            n,
                            only_args(args),
                            cur(t, p).1.merge_spec(cur(t, p2).1),
                        ),
                    ),
                ),
            }
        } else if cur(t, p1).0 == punct(Punct::LBoxBrackets) {
            match expect_line_context_literal(t, p1, LineContext::Literal(Literal::Array)) {
                Err(e) => Err(e),
                Ok(p2) => match parse_array_index(t, p2) {
                    Err(e) => Err(e),
                    Ok((p3, num)) => Ok(
                        (
                            p3,
                            node(
                                NodeKindView::ArrayIndex(Box::new(n), num),
                                cur(t, p).1.merge_spec(cur(t, p3).1),
                            ),
                        ),
                    ),
                },
            }
        } else {
            method_chain(t, p1, n, cur(t, p).1, d)
        },
    }
}

/// The method calls that follow `receiver`, each after a `.`.
pub open spec fn method_chain_body(
    t: Seq<TokenView>,
    p: Parse,
    receiver: NodeView,
    start: Loc,
    d: nat,
) -> Parsed<NodeView>
    decreases d, 16nat, t.len() - p.cursor, 0nat,
{
    if cur(t, p).0 == punct(Punct::Dot) {
        match method_call(t, p, receiver, start, d) {
            Err(e) => Err(e),
            Ok((p1, n)) => if p1.cursor > p.cursor && p1.cursor < t.len() {
                method_chain(t, p1, n, start, d)
            } else {
                refuse(t, p1)
            },
        }
    } else {
        Ok((p, receiver))
    }
}

/// One method call on `receiver`, with the cursor on the `.`: the name,
/// and then arguments in parentheses, a block, or nothing.
pub open spec fn method_call_body(
    t: Seq<TokenView>,
    p: Parse,
    receiver: NodeView,
    start: Loc,
    d: nat,
) -> Parsed<NodeView>
    decreases d, 15nat, 0nat, 0nat,
{
    let (p1, tok) = get(t, get(t, p).0);
    match tok.0 {
        TokenKindView::Ident(name) => {
            let (p2, id) = name_id(p1, name);
            let p3 = skip_space(t, p2);
            let method = node(NodeKindView::Ident(id), tok.1);
            if cur(t, p3).0 == punct(Punct::LParen) {
                match arg_list(t, get(t, p3).0, Punct::RParen, d) {
                    Err(e) => Err(e),
                    Ok((p4, args)) => Ok(
                        (
                            p4,
                            send_node(
                                receiver,
                                method,
                                only_args(args),
                                start.merge_spec(cur(t, p4).1),
                            ),
                        ),
                    ),
                }
            } else if cur(t, p3).0 == reserved(Reserved::Do) {
                match parse_do(t, skip_space(t, get(t, p3).0), d) {
                    Err(e) => Err(e),
                    Ok((p4, (body, table))) => Ok(
                        (
                            p4,
                            send_node(
                                receiver,
                                method,
                                ParsedArgsView {
                                    table: as_table(table),
                                    node: body,
                                    args: Seq::empty(),
                                },
                                start.merge_spec(cur(t, p4).1),
                            ),
                        ),
                    ),
                }
            } else {
                Ok(
                    (
                        p3,
                        send_node(
                            receiver,
                            method,
                            only_args(Seq::empty()),
                            start.merge_spec(cur(t, p3).1),
                        ),
                    ),
                )
            }
        },
        TokenKindView::Reserved(Reserved::Class) => {
            let (p2, id) = name_id(p1, "class"@);
            Ok(
                (
                    p2,
                    send_node(
                        receiver,
                        node(NodeKindView::Ident(id), tok.1),
                        only_args(Seq::empty()),
                        start.merge_spec(cur(t, p2).1),
                    ),
                ),
            )
        },
        _ => Err((ParseErrorKind::UnexpectedToken, tok.1)),
    }
}

/// A primary: a variable, a literal, a statement sequence in parentheses,
/// a conditional, or a definition.
pub open spec fn parse_primary_body(t: Seq<TokenView>, p: Parse, d: nat) -> Parsed<NodeView>
    decreases d, 17nat, 0nat, 0nat,
{
    let (p1, tok) = get(t, p);
    match tok.0 {
        TokenKindView::Punct(Punct::AtAt) => {
            let (p2, tok2) = get(t, p1);
            match tok2.0 {
                TokenKindView::Ident(name) => {
                    let (p3, id) = name_id(p2, name);
                    Ok((p3, node(NodeKindView::ClassVar(id), tok2.1)))
                },
                _ => Err((ParseErrorKind::UnexpectedToken, tok2.1)),
            }
        },
        TokenKindView::Punct(Punct::At) => {
            let (p2, tok2) = get(t, p1);
            match tok2.0 {
                TokenKindView::Ident(name) => {
                    let (p3, id) = name_id(p2, name);
                    Ok((p3, node(NodeKindView::InstanceVar(id), tok2.1)))
                },
                _ => Err((ParseErrorKind::UnexpectedToken, tok2.1)),
            }
        },
        TokenKindView::Ident(name) => {
            let (p2, id) = name_id(p1, name);
            if name == "self"@ {
                Ok((p2, node(NodeKindView::SelfValue, tok.1)))
            } else if name == "nil"@ {
                Ok((p2, node(NodeKindView::Nil, tok.1)))
            } else {
                Ok((p2, node(NodeKindView::Ident(id), tok.1)))
            }
        },
        TokenKindView::Const(name) => {
            let (p2, id) = name_id(p1, name);
            Ok((p2, node(NodeKindView::Const(id), tok.1)))
        },
        TokenKindView::NumLit(n) => Ok(
            (
                Parse { lines: p1.lines.push(LineContext::Literal(Literal::Number)), ..p1 },
                node(NodeKindView::Number(n), tok.1),
            ),
        ),
        TokenKindView::StringLit(s) => Ok((p1, node(NodeKindView::String(s), tok.1))),
        TokenKindView::Punct(Punct::LParen) => if d == 0 {
            refuse(t, p1)
        } else {
            match parse_comp_stmt(t, p1, (d - 1) as nat) {
                Err(e) => Err(e),
                Ok((p2, n)) => {
                    let (p3, tok2) = get(t, p2);
                    if tok2.0 == punct(Punct::RParen) {
                        Ok((p3, n))
                    } else {
                        refuse(t, p3)
                    }
                },
            }
        },
        TokenKindView::Punct(Punct::LBoxBrackets) => if p1.lines.len() == 0 {
            match parse_box_brackets_contents(t, p1, d) {
                Err(e) => Err(e),
                Ok((p2, contents)) => Ok(
                    (p2, node(NodeKindView::Array(contents), tok.1.merge_spec(cur(t, p2).1))),
                ),
            }
        } else {
            Err((ParseErrorKind::UnexpectedToken, tok.1))
        },
        TokenKindView::Reserved(Reserved::If) => match parse_if_then(t, p1, d) {
            Err(e) => Err(e),
            Ok((p2, n)) => match expect(t, p2, reserved(Reserved::End)) {
                Err(e) => Err(e),
                Ok(p3) => Ok((p3, n)),
            },
        },
        TokenKindView::Reserved(Reserved::Def) => parse_def(t, p1, d),
        TokenKindView::Reserved(Reserved::Do) => match parse_do(t, p1, d) {
            Err(e) => Err(e),
            Ok((p2, (body, _))) => Ok((p2, body)),
        },
        TokenKindView::Reserved(Reserved::Class) => parse_class(t, p1, d),
        TokenKindView::EOF => Err((ParseErrorKind::EOF, tok.1)),
        _ => Err((ParseErrorKind::UnexpectedToken, tok.1)),
    }
}

/// The elements of an array literal, whose `[` has been taken. A literal
/// with elements leaves its mark on the line.
pub open spec fn parse_box_brackets_contents_body(
    t: Seq<TokenView>,
    p: Parse,
    d: nat,
) -> Parsed<Seq<NodeView>>
    decreases d, 14nat, 0nat, 0nat,
{
    match arg_list(t, p, Punct::RBoxBrackets, d) {
        Err(e) => Err(e),
        Ok((p1, args)) => if args.len() == 0 {
            Ok((p1, args))
        } else {
            Ok((Parse { lines: p1.lines.push(LineContext::Literal(Literal::Array)), ..p1 }, args))
        },
    }
}

/// A list of arguments, separated by commas, up to the closing `close`.
pub open spec fn arg_list_body(
    t: Seq<TokenView>,
    p: Parse,
    close: Punct,
    d: nat,
) -> Parsed<Seq<NodeView>>
    decreases d, 13nat, 0nat, 0nat,
{
    let (p1, closed) = get_if(t, p, punct(close));
    if closed {
        Ok((p1, Seq::empty()))
    } else {
        match arg_list_loop(t, p1, Seq::empty(), d) {
            Err(e) => Err(e),
            Ok((p2, args)) => {
                let (p3, closed) = get_if(t, p2, punct(close));
                if closed {
                    Ok((p3, args))
                } else {
                    refuse(t, p3)
                }
            },
        }
    }
}

/// The arguments from the cursor on, after `acc`, up to the first that no
/// comma follows.
pub open spec fn arg_list_loop_body(
    t: Seq<TokenView>,
    p: Parse,
    acc: Seq<NodeView>,
    d: nat,
) -> Parsed<Seq<NodeView>>
    decreases d, 12nat, t.len() - p.cursor, 0nat,
{
    if d == 0 {
        refuse(t, p)
    } else {
        match parse_arg(t, p, (d - 1) as nat) {
            Err(e) => Err(e),
            Ok((p1, n)) => {
                let (p2, more) = get_if(t, p1, punct(Punct::Comma));
                if !more {
                    Ok((p2, acc.push(n)))
                } else if p2.cursor > p.cursor && p2.cursor < t.len() {
                    arg_list_loop(t, p2, acc.push(n), d)
                } else {
                    refuse(t, p2)
                }
            },
        }
    }
}

/// A conditional after its `if` or `elsif`: the condition, the statements
/// for the case that it holds, and what follows `elsif` or `else`.
pub open spec fn parse_if_then_body(t: Seq<TokenView>, p: Parse, d: nat) -> Parsed<NodeView>
    decreases d, 11nat, 0nat, 0nat,
{
    if d == 0 {
        refuse(t, p)
    } else {
        match parse_expr(t, p, (d - 1) as nat) {
            Err(e) => Err(e),
            Ok((p1, cond)) => match parse_then(t, p1) {
                Err(e) => Err(e),
                Ok(p2) => match parse_comp_stmt(t, p2, (d - 1) as nat) {
                    Err(e) => Err(e),
                    Ok((p3, then_)) => {
                        let (p4, elsif) = get_if(t, p3, reserved(Reserved::Elsif));
                        if elsif {
                            match parse_if_then(t, p4, (d - 1) as nat) {
                                Err(e) => Err(e),
                                Ok((p5, else_)) => Ok((p5, if_node(cond, then_, else_))),
                            }
                        } else {
                            let (p5, has_else) = get_if(t, p4, reserved(Reserved::Else));
                            if has_else {
                                match parse_comp_stmt(t, p5, (d - 1) as nat) {
                                    Err(e) => Err(e),
                                    Ok((p6, else_)) => Ok((p6, if_node(cond, then_, else_))),
                                }
                            } else {
                                Ok((p5, if_node(cond, then_, empty_comp_stmt())))
                            }
                        }
                    },
                },
            },
        }
    }
}

/// A method definition after its `def`.
pub open spec fn parse_def_body(t: Seq<TokenView>, p: Parse, d: nat) -> Parsed<NodeView>
    decreases d, 10nat, 0nat, 0nat,
{
    let p0 = open_block(p, BlockContext::Method);
    match expect_first_line_context(t, p0) {
        Err(e) => Err(e),
        Ok(_) => {
            let (p1, tok) = get(t, p0);
            match tok.0 {
                TokenKindView::Ident(name) => {
                    let (p2, id) = name_id(p1, name);
                    match parse_params(t, p2) {
                        Err(e) => Err(e),
                        Ok((p3, params)) => match block_body(t, p3, d) {
                            Err(e) => Err(e),
                            Ok((p4, body)) => Ok(
                                (
                                    p4,
                                    node(
                                        NodeKindView::FuncDecl(id, params, Box::new(body)),
                                        body.loc,
                                    ),
                                ),
                            ),
                        },
                    }
                },
                _ => Err((ParseErrorKind::UnexpectedToken, cur(t, p0).1)),
            }
        },
    }
}

/// The statements of a body up to its `end`, which closes the body.
pub open spec fn block_body_body(t: Seq<TokenView>, p: Parse, d: nat) -> Parsed<NodeView>
    decreases d, 9nat, 0nat, 0nat,
{
    if d == 0 {
        refuse(t, p)
    } else {
        match parse_comp_stmt(t, p, (d - 1) as nat) {
            Err(e) => Err(e),
            Ok((p1, body)) => match expect(t, p1, reserved(Reserved::End)) {
                Err(e) => Err(e),
                Ok(p2) => match close_block(t, p2) {
                    Err(e) => Err(e),
                    Ok(p3) => Ok((p3, body)),
                },
            },
        }
    }
}

/// A block after its `do`: the parameter between `|`, if any, and the
/// body. Yields the body and the parameter.
pub open spec fn parse_do_body(t: Seq<TokenView>, p: Parse, d: nat) -> Parsed<(NodeView, NodeView)>
    decreases d, 10nat, 0nat, 0nat,
{
    let with_table: Parsed<NodeView> = if cur(t, p).0 == punct(Punct::Pipe) {
        match parse_ident(t, get(t, p).0) {
            Err(e) => Err(e),
            Ok((p1, n)) => match expect(t, p1, punct(Punct::Pipe)) {
                Err(e) => Err(e),
                Ok(p2) => Ok((p2, n)),
            },
        }
    } else {
        Ok((p, none_node()))
    };
    match with_table {
        Err(e) => Err(e),
        Ok((p1, table)) => match block_body(t, open_block(p1, BlockContext::Method), d) {
            Err(e) => Err(e),
            Ok((p2, body)) => Ok(
                (p2, (node(NodeKindView::BlockDecl(Box::new(body)), body.loc), table)),
            ),
        },
    }
}

/// A class definition after its `class`: the name, the parent after `<`,
/// if any, and the body.
pub open spec fn parse_class_body(t: Seq<TokenView>, p: Parse, d: nat) -> Parsed<NodeView>
    decreases d, 10nat, 0nat, 0nat,
{
    match expect_out_of_method_block_context(t, p) {
        Err(e) => Err(e),
        Ok(_) => {
            let p0 = open_block(p, BlockContext::Class);
            match expect_first_line_context(t, p0) {
                Err(e) => Err(e),
                Ok(_) => match parse_const(t, p0) {
                    Err(e) => Err(e),
                    Ok((p1, name)) => {
                        let p2 = skip_space(t, p1);
                        let with_parent: Parsed<Option<usize>> = if cur(t, p2).0 == punct(Punct::LT) {
                            match parse_const(t, get(t, p2).0) {
                                Err(e) => Err(e),
                                Ok((p3, parent)) => Ok((name_id(p3, parent).0, Some(name_id(p3, parent).1))),
                            }
                        } else {
                            Ok((p2, None))
                        };
                        match with_parent {
                            Err(e) => Err(e),
                            Ok((p3, parent)) => {
                                let (p4, id) = name_id(p3, name);
                                match block_body(t, p4, d) {
                                    Err(e) => Err(e),
                                    Ok((p5, body)) => Ok(
                                        (
                                            p5,
                                            node(
                                                NodeKindView::ClassDecl(id, Box::new(body), parent),
                                                body.loc,
                                            ),
                                        ),
                                    ),
                                }
                            },
                        }
                    },
                },
            }
        },
    }
}

/// `parse_program_loop_body`, under a name that is unfolded only on demand.
#[verifier::opaque]
pub open spec fn parse_program_loop(t: Seq<TokenView>, p: Parse, d: nat) -> Parsed<NodeView>
    decreases d, 31nat, t.len() - p.cursor, 1nat,
{
    parse_program_loop_body(t, p, d)
}

/// `parse_comp_stmt_body`, under a name that is unfolded only on demand.
#[verifier::opaque]
pub open spec fn parse_comp_stmt(t: Seq<TokenView>, p: Parse, d: nat) -> Parsed<NodeView>
    decreases d, 30nat, 0nat, 1nat,
{
    parse_comp_stmt_body(t, p, d)
}

/// `comp_stmt_loop_body`, under a name that is unfolded only on demand.
#[verifier::opaque]
pub open spec fn comp_stmt_loop(
    t: Seq<TokenView>,
    p: Parse,
    acc: Seq<NodeView>,
    d: nat,
) -> Parsed<Seq<NodeView>>
    decreases d, 29nat, t.len() - p.cursor, 1nat,
{
    comp_stmt_loop_body(t, p, acc, d)
}

/// `parse_expr_body`, under a name that is unfolded only on demand.
#[verifier::opaque]
pub open spec fn parse_expr(t: Seq<TokenView>, p: Parse, d: nat) -> Parsed<NodeView>
    decreases d, 28nat, 0nat, 1nat,
{
    parse_expr_body(t, p, d)
}

/// `parse_arg_body`, under a name that is unfolded only on demand.
#[verifier::opaque]
pub open spec fn parse_arg(t: Seq<TokenView>, p: Parse, d: nat) -> Parsed<NodeView>
    decreases d, 27nat, 0nat, 1nat,
{
    parse_arg_body(t, p, d)
}

/// `parse_arg_assign_body`, under a name that is unfolded only on demand.
#[verifier::opaque]
pub open spec fn parse_arg_assign(t: Seq<TokenView>, p: Parse, d: nat) -> Parsed<NodeView>
    decreases d, 26nat, 0nat, 1nat,
{
    parse_arg_assign_body(t, p, d)
}

/// `parse_arg_logical_or_body`, under a name that is unfolded only on demand.
#[verifier::opaque]
pub open spec fn parse_arg_logical_or(t: Seq<TokenView>, p: Parse, d: nat) -> Parsed<NodeView>
    decreases d, 25nat, 0nat, 1nat,
{
    parse_arg_logical_or_body(t, p, d)
}

/// `parse_arg_logical_and_body`, under a name that is unfolded only on demand.
#[verifier::opaque]
pub open spec fn parse_arg_logical_and(t: Seq<TokenView>, p: Parse, d: nat) -> Parsed<NodeView>
    decreases d, 24nat, 0nat, 1nat,
{
    parse_arg_logical_and_body(t, p, d)
}

/// `parse_arg_eq_body`, under a name that is unfolded only on demand.
#[verifier::opaque]
pub open spec fn parse_arg_eq(t: Seq<TokenView>, p: Parse, d: nat) -> Parsed<NodeView>
    decreases d, 23nat, 0nat, 1nat,
{
    parse_arg_eq_body(t, p, d)
}

/// `parse_arg_comp_body`, under a name that is unfolded only on demand.
#[verifier::opaque]
pub open spec fn parse_arg_comp(t: Seq<TokenView>, p: Parse, d: nat) -> Parsed<NodeView>
    decreases d, 22nat, 0nat, 1nat,
{
    parse_arg_comp_body(t, p, d)
}

/// `parse_arg_add_body`, under a name that is unfolded only on demand.
#[verifier::opaque]
pub open spec fn parse_arg_add(t: Seq<TokenView>, p: Parse, d: nat) -> Parsed<NodeView>
    decreases d, 21nat, 0nat, 1nat,
{
    parse_arg_add_body(t, p, d)
}

/// `parse_arg_mul_body`, under a name that is unfolded only on demand.
#[verifier::opaque]
pub open spec fn parse_arg_mul(t: Seq<TokenView>, p: Parse, d: nat) -> Parsed<NodeView>
    decreases d, 20nat, 0nat, 1nat,
{
    parse_arg_mul_body(t, p, d)
}

/// `parse_unary_minus_body`, under a name that is unfolded only on demand.
#[verifier::opaque]
pub open spec fn parse_unary_minus(t: Seq<TokenView>, p: Parse, d: nat) -> Parsed<NodeView>
    decreases d, 19nat, 0nat, 1nat,
{
    parse_unary_minus_body(t, p, d)
}

/// `parse_primary_ext_body`, under a name that is unfolded only on demand.
#[verifier::opaque]
pub open spec fn parse_primary_ext(t: Seq<TokenView>, p: Parse, d: nat) -> Parsed<NodeView>
    decreases d, 18nat, 0nat, 1nat,
{
    parse_primary_ext_body(t, p, d)
}

/// `method_chain_body`, under a name that is unfolded only on demand.
#[verifier::opaque]
pub open spec fn method_chain(
    t: Seq<TokenView>,
    p: Parse,
    receiver: NodeView,
    start: Loc,
    d: nat,
) -> Parsed<NodeView>
    decreases d, 16nat, t.len() - p.cursor, 1nat,
{
    method_chain_body(t, p, receiver, start, d)
}

/// `method_call_body`, under a name that is unfolded only on demand.
#[verifier::opaque]
pub open spec fn method_call(
    t: Seq<TokenView>,
    p: Parse,
    receiver: NodeView,
    start: Loc,
    d: nat,
) -> Parsed<NodeView>
    decreases d, 15nat, 0nat, 1nat,
{
    method_call_body(t, p, receiver, start, d)
}

/// `parse_primary_body`, under a name that is unfolded only on demand.
#[verifier::opaque]
pub open spec fn parse_primary(t: Seq<TokenView>, p: Parse, d: nat) -> Parsed<NodeView>
    decreases d, 17nat, 0nat, 1nat,
{
    parse_primary_body(t, p, d)
}

/// `parse_box_brackets_contents_body`, under a name that is unfolded only on demand.
#[verifier::opaque]
pub open spec fn parse_box_brackets_contents(
    t: Seq<TokenView>,
    p: Parse,
    d: nat,
) -> Parsed<Seq<NodeView>>
    decreases d, 14nat, 0nat, 1nat,
{
    parse_box_brackets_contents_body(t, p, d)
}

/// `arg_list_body`, under a name that is unfolded only on demand.
#[verifier::opaque]
pub open spec fn arg_list(
    t: Seq<TokenView>,
    p: Parse,
    close: Punct,
    d: nat,
) -> Parsed<Seq<NodeView>>
    decreases d, 13nat, 0nat, 1nat,
{
    arg_list_body(t, p, close, d)
}

/// `arg_list_loop_body`, under a name that is unfolded only on demand.
#[verifier::opaque]
pub open spec fn arg_list_loop(
    t: Seq<TokenView>,
    p: Parse,
    acc: Seq<NodeView>,
    d: nat,
) -> Parsed<Seq<NodeView>>
    decreases d, 12nat, t.len() - p.cursor, 1nat,
{
    arg_list_loop_body(t, p, acc, d)
}

/// `parse_if_then_body`, under a name that is unfolded only on demand.
#[verifier::opaque]
pub open spec fn parse_if_then(t: Seq<TokenView>, p: Parse, d: nat) -> Parsed<NodeView>
    decreases d, 11nat, 0nat, 1nat,
{
    parse_if_then_body(t, p, d)
}

/// `parse_def_body`, under a name that is unfolded only on demand.
#[verifier::opaque]
pub open spec fn parse_def(t: Seq<TokenView>, p: Parse, d: nat) -> Parsed<NodeView>
    decreases d, 10nat, 0nat, 1nat,
{
    parse_def_body(t, p, d)
}

/// `block_body_body`, under a name that is unfolded only on demand.
#[verifier::opaque]
pub open spec fn block_body(t: Seq<TokenView>, p: Parse, d: nat) -> Parsed<NodeView>
    decreases d, 9nat, 0nat, 1nat,
{
    block_body_body(t, p, d)
}

/// `parse_do_body`, under a name that is unfolded only on demand.
#[verifier::opaque]
pub open spec fn parse_do(t: Seq<TokenView>, p: Parse, d: nat) -> Parsed<(NodeView, NodeView)>
    decreases d, 10nat, 0nat, 1nat,
{
    parse_do_body(t, p, d)
}

/// `parse_class_body`, under a name that is unfolded only on demand.
#[verifier::opaque]
pub open spec fn parse_class(t: Seq<TokenView>, p: Parse, d: nat) -> Parsed<NodeView>
    decreases d, 10nat, 0nat, 1nat,
{
    parse_class_body(t, p, d)
}

/// What `parse_program_loop` is.
pub proof fn lemma_parse_program_loop(t: Seq<TokenView>, p: Parse, d: nat)
    ensures
        parse_program_loop(t, p, d) == parse_program_loop_body(t, p, d),
{
    reveal(parse_program_loop);
}

/// What `parse_comp_stmt` is.
pub proof fn lemma_parse_comp_stmt(t: Seq<TokenView>, p: Parse, d: nat)
    ensures
        parse_comp_stmt(t, p, d) == parse_comp_stmt_body(t, p, d),
{
    reveal(parse_comp_stmt);
}

/// What `comp_stmt_loop` is.
pub proof fn lemma_comp_stmt_loop(t: Seq<TokenView>, p: Parse, acc: Seq<NodeView>, d: nat)
    ensures
        comp_stmt_loop(t, p, acc, d) == comp_stmt_loop_body(t, p, acc, d),
{
    reveal(comp_stmt_loop);
}

/// What `parse_expr` is.
pub proof fn lemma_parse_expr(t: Seq<TokenView>, p: Parse, d: nat)
    ensures
        parse_expr(t, p, d) == parse_expr_body(t, p, d),
{
    reveal(parse_expr);
}

/// What `parse_arg` is.
pub proof fn lemma_parse_arg(t: Seq<TokenView>, p: Parse, d: nat)
    ensures
        parse_arg(t, p, d) == parse_arg_body(t, p, d),
{
    reveal(parse_arg);
}

/// What `parse_arg_assign` is.
pub proof fn lemma_parse_arg_assign(t: Seq<TokenView>, p: Parse, d: nat)
    ensures
        parse_arg_assign(t, p, d) == parse_arg_assign_body(t, p, d),
{
    reveal(parse_arg_assign);
}

/// What `parse_arg_logical_or` is.
pub proof fn lemma_parse_arg_logical_or(t: Seq<TokenView>, p: Parse, d: nat)
    ensures
        parse_arg_logical_or(t, p, d) == parse_arg_logical_or_body(t, p, d),
{
    reveal(parse_arg_logical_or);
}

/// What `parse_arg_logical_and` is.
pub proof fn lemma_parse_arg_logical_and(t: Seq<TokenView>, p: Parse, d: nat)
    ensures
        parse_arg_logical_and(t, p, d) == parse_arg_logical_and_body(t, p, d),
{
    reveal(parse_arg_logical_and);
}

/// What `parse_arg_eq` is.
pub proof fn lemma_parse_arg_eq(t: Seq<TokenView>, p: Parse, d: nat)
    ensures
        parse_arg_eq(t, p, d) == parse_arg_eq_body(t, p, d),
{
    reveal(parse_arg_eq);
}

/// What `parse_arg_comp` is.
pub proof fn lemma_parse_arg_comp(t: Seq<TokenView>, p: Parse, d: nat)
    ensures
        parse_arg_comp(t, p, d) == parse_arg_comp_body(t, p, d),
{
    reveal(parse_arg_comp);
}

/// What `parse_arg_add` is.
pub proof fn lemma_parse_arg_add(t: Seq<TokenView>, p: Parse, d: nat)
    ensures
        parse_arg_add(t, p, d) == parse_arg_add_body(t, p, d),
{
    reveal(parse_arg_add);
}

/// What `parse_arg_mul` is.
pub proof fn lemma_parse_arg_mul(t: Seq<TokenView>, p: Parse, d: nat)
    ensures
        parse_arg_mul(t, p, d) == parse_arg_mul_body(t, p, d),
{
    reveal(parse_arg_mul);
}

/// What `parse_unary_minus` is.
pub proof fn lemma_parse_unary_minus(t: Seq<TokenView>, p: Parse, d: nat)
    ensures
        parse_unary_minus(t, p, d) == parse_unary_minus_body(t, p, d),
{
    reveal(parse_unary_minus);
}

/// What `parse_primary_ext` is.
pub proof fn lemma_parse_primary_ext(t: Seq<TokenView>, p: Parse, d: nat)
    ensures
        parse_primary_ext(t, p, d) == parse_primary_ext_body(t, p, d),
{
    reveal(parse_primary_ext);
}

/// What `method_chain` is.
pub proof fn lemma_method_chain(t: Seq<TokenView>, p: Parse, receiver: NodeView, start: Loc, d: nat)
    ensures
        method_chain(t, p, receiver, start, d) == method_chain_body(t, p, receiver, start, d),
{
    reveal(method_chain);
}

/// What `method_call` is.
pub proof fn lemma_method_call(t: Seq<TokenView>, p: Parse, receiver: NodeView, start: Loc, d: nat)
    ensures
        method_call(t, p, receiver, start, d) == method_call_body(t, p, receiver, start, d),
{
    reveal(method_call);
}

/// What `parse_primary` is.
pub proof fn lemma_parse_primary(t: Seq<TokenView>, p: Parse, d: nat)
    ensures
        parse_primary(t, p, d) == parse_primary_body(t, p, d),
{
    reveal(parse_primary);
}

/// What `parse_box_brackets_contents` is.
pub proof fn lemma_parse_box_brackets_contents(t: Seq<TokenView>, p: Parse, d: nat)
    ensures
        parse_box_brackets_contents(t, p, d) == parse_box_brackets_contents_body(t, p, d),
{
    reveal(parse_box_brackets_contents);
}

/// What `arg_list` is.
pub proof fn lemma_arg_list(t: Seq<TokenView>, p: Parse, close: Punct, d: nat)
    ensures
        arg_list(t, p, close, d) == arg_list_body(t, p, close, d),
{
    reveal(arg_list);
}

/// What `arg_list_loop` is.
pub proof fn lemma_arg_list_loop(t: Seq<TokenView>, p: Parse, acc: Seq<NodeView>, d: nat)
    ensures
        arg_list_loop(t, p, acc, d) == arg_list_loop_body(t, p, acc, d),
{
    reveal(arg_list_loop);
}

/// What `parse_if_then` is.
pub proof fn lemma_parse_if_then(t: Seq<TokenView>, p: Parse, d: nat)
    ensures
        parse_if_then(t, p, d) == parse_if_then_body(t, p, d),
{
    reveal(parse_if_then);
}

/// What `parse_def` is.
pub proof fn lemma_parse_def(t: Seq<TokenView>, p: Parse, d: nat)
    ensures
        parse_def(t, p, d) == parse_def_body(t, p, d),
{
    reveal(parse_def);
}

/// What `block_body` is.
pub proof fn lemma_block_body(t: Seq<TokenView>, p: Parse, d: nat)
    ensures
        block_body(t, p, d) == block_body_body(t, p, d),
{
    reveal(block_body);
}

/// What `parse_do` is.
pub proof fn lemma_parse_do(t: Seq<TokenView>, p: Parse, d: nat)
    ensures
        parse_do(t, p, d) == parse_do_body(t, p, d),
{
    reveal(parse_do);
}

/// What `parse_class` is.
pub proof fn lemma_parse_class(t: Seq<TokenView>, p: Parse, d: nat)
    ensures
        parse_class(t, p, d) == parse_class_body(t, p, d),
{
    reveal(parse_class);
}

} // verus!
