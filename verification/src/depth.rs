//! Laws of the parser: it never moves back in the tokens, and a budget for
//! the depth of nesting of twice the number of tokens is never used up.

use crate::grammar::{
    close_block, cur, expect, expect_line_context_literal, expect_number, get, get_if,
    get_if_term, get_no_skip_line_term, name_id, open_block, params_loop, parse_array_index,
    parse_const, parse_ident, parse_params, parse_then, peek, peek_from, punct, reserved,
    skip_space, tokens_wf, LineContext, Parse, Parsed,
};
use crate::annot::Loc;
use crate::grammar::{
    arg_list, arg_list_loop, block_body, comp_stmt_loop, lemma_arg_list, lemma_arg_list_loop,
    lemma_block_body, lemma_comp_stmt_loop, lemma_method_call, lemma_method_chain,
    lemma_parse_arg, lemma_parse_arg_add, lemma_parse_arg_assign, lemma_parse_arg_comp,
    lemma_parse_arg_eq, lemma_parse_arg_logical_and, lemma_parse_arg_logical_or,
    lemma_parse_arg_mul, lemma_parse_box_brackets_contents, lemma_parse_class,
    lemma_parse_comp_stmt, lemma_parse_def, lemma_parse_do, lemma_parse_expr,
    lemma_parse_if_then, lemma_parse_primary, lemma_parse_primary_ext,
    lemma_parse_program_loop, lemma_parse_unary_minus, method_call, method_chain, parse_arg,
    parse_arg_add, parse_arg_assign, parse_arg_comp, parse_arg_eq, parse_arg_logical_and,
    parse_arg_logical_or, parse_arg_mul, parse_box_brackets_contents, parse_class,
    parse_comp_stmt, parse_def, parse_do, parse_expr, parse_if_then, parse_primary,
    parse_primary_ext, parse_program_loop, parse_unary_minus, BlockContext, Literal,
};
use crate::token::{Punct, Reserved};
use crate::node::NodeView;
use crate::token::{TokenKindView, TokenView};
use vstd::prelude::*;

verus! {

/// Whether `after` is a place in the tokens that is not before `before`.
pub open spec fn onward(t: Seq<TokenView>, before: Parse, after: Parse) -> bool {
    tokens_wf(t, after) && after.cursor >= before.cursor
}

/// Whether `after` is a place in the tokens that is behind `before`.
pub open spec fn further(t: Seq<TokenView>, before: Parse, after: Parse) -> bool {
    tokens_wf(t, after) && after.cursor > before.cursor
}

/// Taking a token does not move back, and moves on unless the cursor is at
/// the end of input.
pub proof fn lemma_get(t: Seq<TokenView>, p: Parse)
    requires
        tokens_wf(t, p),
    ensures
        onward(t, p, get(t, p).0),
        !(cur(t, p).0 is EOF) ==> further(t, p, get(t, p).0),
        !(get(t, p).1.0 is EOF) ==> further(t, p, get(t, p).0),
    decreases t.len() - p.cursor,
{
    if !(cur(t, p).0 is EOF) {
        if crate::grammar::is_skipped(cur(t, p).0) {
            if cur(t, p).0 is Line {
                lemma_get(t, Parse { lines: Seq::empty(), ..crate::grammar::step(p) });
            } else {
                lemma_get(t, crate::grammar::step(p));
            }
        }
    }
}

pub proof fn lemma_peek_from(t: Seq<TokenView>, p: Parse, c: nat)
    requires
        tokens_wf(t, p),
        p.cursor <= c < t.len(),
    ensures
        onward(t, p, peek_from(t, p, c).0),
        !(peek_from(t, p, c).1.0 is EOF) ==> peek_from(t, p, c).0.cursor == p.cursor,
    decreases t.len() - c,
{
    if t[c as int].0 is Line {
        lemma_peek_from(t, Parse { lines: Seq::empty(), ..p }, c + 1);
    } else if t[c as int].0 is EOF {
    } else if !crate::grammar::is_skipped(t[c as int].0) {
    } else {
        lemma_peek_from(t, p, c + 1);
    }
}

/// Looking ahead does not move back; where it finds a token, the cursor
/// stays where it is, and it is not at the end of input.
pub proof fn lemma_peek(t: Seq<TokenView>, p: Parse)
    requires
        tokens_wf(t, p),
    ensures
        onward(t, p, peek(t, p).0),
        !(peek(t, p).1.0 is EOF) ==> peek(t, p).0.cursor == p.cursor && !(cur(t, p).0 is EOF),
{
    lemma_peek_from(t, p, p.cursor);
}

/// Taking a token on condition does not move back, and moves on where it
/// takes one.
pub proof fn lemma_get_if(t: Seq<TokenView>, p: Parse, k: TokenKindView)
    requires
        tokens_wf(t, p),
        !(k is EOF),
    ensures
        onward(t, p, get_if(t, p, k).0),
        get_if(t, p, k).1 ==> further(t, p, get_if(t, p, k).0),
{
    lemma_peek(t, p);
    lemma_get(t, peek(t, p).0);
}

pub proof fn lemma_skip_space(t: Seq<TokenView>, p: Parse)
    requires
        tokens_wf(t, p),
    ensures
        onward(t, p, skip_space(t, p)),
{
}

pub proof fn lemma_expect(t: Seq<TokenView>, p: Parse, k: TokenKindView)
    requires
        tokens_wf(t, p),
        !(k is EOF),
    ensures
        expect(t, p, k) is Ok ==> further(t, p, expect(t, p, k)->Ok_0),
{
    lemma_get(t, p);
}

pub proof fn lemma_get_if_term(t: Seq<TokenView>, p: Parse)
    requires
        tokens_wf(t, p),
    ensures
        onward(t, p, get_if_term(t, p).0),
{
    lemma_skip_space(t, p);
}

pub proof fn lemma_parse_then(t: Seq<TokenView>, p: Parse)
    requires
        tokens_wf(t, p),
    ensures
        parse_then(t, p) is Ok ==> onward(t, p, parse_then(t, p)->Ok_0),
{
    lemma_get_if_term(t, p);
    lemma_expect(t, get_if_term(t, p).0, reserved(crate::token::Reserved::Then));
}

pub proof fn lemma_parse_const(t: Seq<TokenView>, p: Parse)
    requires
        tokens_wf(t, p),
    ensures
        parse_const(t, p) is Ok ==> further(t, p, parse_const(t, p)->Ok_0.0),
{
    lemma_get(t, p);
}

pub proof fn lemma_parse_ident(t: Seq<TokenView>, p: Parse)
    requires
        tokens_wf(t, p),
    ensures
        parse_ident(t, p) is Ok ==> further(t, p, parse_ident(t, p)->Ok_0.0),
{
    lemma_get(t, p);
}

pub proof fn lemma_parse_array_index(t: Seq<TokenView>, p: Parse)
    requires
        tokens_wf(t, p),
    ensures
        parse_array_index(t, p) is Ok ==> onward(t, p, parse_array_index(t, p)->Ok_0.0),
{
    lemma_get(t, p);
    lemma_get(t, get(t, p).0);
    if expect_number(t, get(t, p).0) is Ok {
        lemma_get_if(
            t,
            expect_number(t, get(t, p).0)->Ok_0.0,
            punct(crate::token::Punct::RBoxBrackets),
        );
    }
}

pub proof fn lemma_params_loop(t: Seq<TokenView>, p: Parse, acc: Seq<NodeView>)
    requires
        tokens_wf(t, p),
    ensures
        params_loop(t, p, acc) is Ok ==> onward(t, p, params_loop(t, p, acc)->Ok_0.0),
    decreases t.len() - p.cursor,
{
    lemma_get(t, p);
    let (p1, tok) = get(t, p);
    match tok.0 {
        TokenKindView::Ident(name) => {
            let (p2, id) = name_id(p1, name);
            let acc1 = acc.push(crate::grammar::node(crate::node::NodeKindView::TableIdent(id), tok.1));
            lemma_get_if(t, p2, punct(crate::token::Punct::Comma));
            let (p3, more) = get_if(t, p2, punct(crate::token::Punct::Comma));
            if more && p3.cursor > p.cursor && p3.cursor < t.len() {
                lemma_params_loop(t, p3, acc1);
            }
        },
        _ => {},
    }
}

pub proof fn lemma_parse_params(t: Seq<TokenView>, p: Parse)
    requires
        tokens_wf(t, p),
    ensures
        parse_params(t, p) is Ok ==> onward(t, p, parse_params(t, p)->Ok_0.0),
{
    lemma_get_if(t, p, punct(crate::token::Punct::LParen));
    let (p1, open) = get_if(t, p, punct(crate::token::Punct::LParen));
    if open {
        lemma_get_if(t, p1, punct(crate::token::Punct::RParen));
        let (p2, closed) = get_if(t, p1, punct(crate::token::Punct::RParen));
        if !closed {
            lemma_params_loop(t, p2, Seq::empty());
            if params_loop(t, p2, Seq::empty()) is Ok {
                lemma_get_if(
                    t,
                    params_loop(t, p2, Seq::empty())->Ok_0.0,
                    punct(crate::token::Punct::RParen),
                );
            }
        }
    }
}

/// Whether the budget `d` leaves room for the tokens from the cursor on.
pub open spec fn roomy(t: Seq<TokenView>, p: Parse, d: nat) -> bool {
    d >= 2 * (t.len() - p.cursor)
}

/// Whether the budget `d` leaves room for the tokens from the cursor on
/// and for one level more.
pub open spec fn roomy1(t: Seq<TokenView>, p: Parse, d: nat) -> bool {
    d >= 2 * (t.len() - p.cursor) + 1
}

/// With a budget of twice the number of tokens that are left, a larger
/// budget changes nothing; and the parser does not move back.
pub proof fn deep_parse_program_loop(t: Seq<TokenView>, p: Parse, d: nat, e: nat)
    requires
        tokens_wf(t, p),
        roomy(t, p, d),
        e >= d,
    ensures
        parse_program_loop(t, p, e) == parse_program_loop(t, p, d),
        parse_program_loop(t, p, d) is Ok ==> onward(t, p, parse_program_loop(t, p, d)->Ok_0.0),
    decreases d, 31nat, t.len() - p.cursor,
{
    lemma_parse_program_loop(t, p, d);
    lemma_parse_program_loop(t, p, e);
    deep_parse_comp_stmt(t, p, d, e);
    if parse_comp_stmt(t, p, d) is Ok {
        let p1 = parse_comp_stmt(t, p, d)->Ok_0.0;
        lemma_skip_space(t, p1);
        let p2 = skip_space(t, p1);
        if !(cur(t, p2).0 is EOF) && p2.cursor > p.cursor && p2.cursor < t.len() {
            deep_parse_program_loop(t, p2, d, e);
        }
    }
}

pub proof fn deep_parse_comp_stmt(t: Seq<TokenView>, p: Parse, d: nat, e: nat)
    requires
        tokens_wf(t, p),
        roomy(t, p, d),
        e >= d,
    ensures
        parse_comp_stmt(t, p, e) == parse_comp_stmt(t, p, d),
        parse_comp_stmt(t, p, d) is Ok ==> onward(t, p, parse_comp_stmt(t, p, d)->Ok_0.0),
    decreases d, 30nat, 0nat,
{
    lemma_parse_comp_stmt(t, p, d);
    lemma_parse_comp_stmt(t, p, e);
    deep_comp_stmt_loop(t, p, Seq::empty(), d, e);
}

pub proof fn deep_comp_stmt_loop(t: Seq<TokenView>, p: Parse, acc: Seq<NodeView>, d: nat, e: nat)
    requires
        tokens_wf(t, p),
        roomy(t, p, d),
        e >= d,
    ensures
        comp_stmt_loop(t, p, acc, e) == comp_stmt_loop(t, p, acc, d),
        comp_stmt_loop(t, p, acc, d) is Ok ==> onward(t, p, comp_stmt_loop(t, p, acc, d)->Ok_0.0),
    decreases d, 29nat, t.len() - p.cursor,
{
    lemma_comp_stmt_loop(t, p, acc, d);
    lemma_comp_stmt_loop(t, p, acc, e);
    lemma_peek(t, p);
    let (p1, tok) = peek(t, p);
    if !(tok.0 == punct(Punct::Semi) || tok.0 is EOF || tok.0 == reserved(Reserved::Else) || tok.0
        == reserved(Reserved::Elsif) || tok.0 == reserved(Reserved::End)) {
        deep_parse_expr(t, p1, d, e);
        if parse_expr(t, p1, d) is Ok {
            let (p2, n) = parse_expr(t, p1, d)->Ok_0;
            lemma_get_if_term(t, p2);
            let (p3, more) = get_if_term(t, p2);
            if more && p3.cursor > p.cursor && p3.cursor < t.len() {
                deep_comp_stmt_loop(t, p3, acc.push(n), d, e);
            }
        }
    }
}

pub proof fn deep_parse_expr(t: Seq<TokenView>, p: Parse, d: nat, e: nat)
    requires
        tokens_wf(t, p),
        roomy(t, p, d),
        e >= d,
    ensures
        parse_expr(t, p, e) == parse_expr(t, p, d),
        parse_expr(t, p, d) is Ok ==> onward(t, p, parse_expr(t, p, d)->Ok_0.0),
    decreases d, 28nat, 0nat,
{
    lemma_parse_expr(t, p, d);
    lemma_parse_expr(t, p, e);
    deep_parse_arg(t, p, d, e);
}

pub proof fn deep_parse_arg(t: Seq<TokenView>, p: Parse, d: nat, e: nat)
    requires
        tokens_wf(t, p),
        roomy(t, p, d),
        e >= d,
    ensures
        parse_arg(t, p, e) == parse_arg(t, p, d),
        parse_arg(t, p, d) is Ok ==> onward(t, p, parse_arg(t, p, d)->Ok_0.0),
    decreases d, 27nat, 0nat,
{
    lemma_parse_arg(t, p, d);
    lemma_parse_arg(t, p, e);
    deep_parse_arg_assign(t, p, d, e);
}

pub proof fn deep_parse_arg_assign(t: Seq<TokenView>, p: Parse, d: nat, e: nat)
    requires
        tokens_wf(t, p),
        roomy(t, p, d),
        e >= d,
    ensures
        parse_arg_assign(t, p, e) == parse_arg_assign(t, p, d),
        parse_arg_assign(t, p, d) is Ok ==> onward(t, p, parse_arg_assign(t, p, d)->Ok_0.0),
    decreases d, 26nat, 0nat,
{
    lemma_parse_arg_assign(t, p, d);
    lemma_parse_arg_assign(t, p, e);
    deep_parse_arg_logical_or(t, p, d, e);
    if parse_arg_logical_or(t, p, d) is Ok {
        let p1 = parse_arg_logical_or(t, p, d)->Ok_0.0;
        lemma_get_if(t, p1, punct(Punct::Assign));
        let (p2, got0) = get_if(t, p1, punct(Punct::Assign));
        if got0 {
            deep_parse_arg(t, p2, (d - 1) as nat, (e - 1) as nat);
        }
    }
}

pub proof fn deep_parse_arg_logical_or(t: Seq<TokenView>, p: Parse, d: nat, e: nat)
    requires
        tokens_wf(t, p),
        roomy(t, p, d),
        e >= d,
    ensures
        parse_arg_logical_or(t, p, e) == parse_arg_logical_or(t, p, d),
        parse_arg_logical_or(t, p, d) is Ok ==> onward(t, p, parse_arg_logical_or(t, p, d)->Ok_0.0),
    decreases d, 25nat, 0nat,
{
    lemma_parse_arg_logical_or(t, p, d);
    lemma_parse_arg_logical_or(t, p, e);
    deep_parse_arg_logical_and(t, p, d, e);
    if parse_arg_logical_and(t, p, d) is Ok {
        let p1 = parse_arg_logical_and(t, p, d)->Ok_0.0;
        lemma_get_if(t, p1, punct(Punct::LAnd));
        let (p2, got0) = get_if(t, p1, punct(Punct::LAnd));
        if got0 {
            deep_parse_arg_logical_or(t, p2, (d - 1) as nat, (e - 1) as nat);
        }
    }
}

pub proof fn deep_parse_arg_logical_and(t: Seq<TokenView>, p: Parse, d: nat, e: nat)
    requires
        tokens_wf(t, p),
        roomy(t, p, d),
        e >= d,
    ensures
        parse_arg_logical_and(t, p, e) == parse_arg_logical_and(t, p, d),
        parse_arg_logical_and(t, p, d) is Ok ==> onward(t, p, parse_arg_logical_and(t, p, d)->Ok_0.0),
    decreases d, 24nat, 0nat,
{
    lemma_parse_arg_logical_and(t, p, d);
    lemma_parse_arg_logical_and(t, p, e);
    deep_parse_arg_eq(t, p, d, e);
    if parse_arg_eq(t, p, d) is Ok {
        let p1 = parse_arg_eq(t, p, d)->Ok_0.0;
        lemma_get_if(t, p1, punct(Punct::LAnd));
        let (p2, got0) = get_if(t, p1, punct(Punct::LAnd));
        if got0 {
            deep_parse_arg_logical_and(t, p2, (d - 1) as nat, (e - 1) as nat);
        }
    }
}

pub proof fn deep_parse_arg_eq(t: Seq<TokenView>, p: Parse, d: nat, e: nat)
    requires
        tokens_wf(t, p),
        roomy(t, p, d),
        e >= d,
    ensures
        parse_arg_eq(t, p, e) == parse_arg_eq(t, p, d),
        parse_arg_eq(t, p, d) is Ok ==> onward(t, p, parse_arg_eq(t, p, d)->Ok_0.0),
    decreases d, 23nat, 0nat,
{
    lemma_parse_arg_eq(t, p, d);
    lemma_parse_arg_eq(t, p, e);
    deep_parse_arg_comp(t, p, d, e);
    if parse_arg_comp(t, p, d) is Ok {
        let p1 = parse_arg_comp(t, p, d)->Ok_0.0;
        lemma_get_if(t, p1, punct(Punct::Eq));
        let (p2, got0) = get_if(t, p1, punct(Punct::Eq));
        if got0 {
            deep_parse_arg_eq(t, p2, (d - 1) as nat, (e - 1) as nat);
        } else {
            lemma_get_if(t, p2, punct(Punct::NE));
            let (p3, got1) = get_if(t, p2, punct(Punct::NE));
            if got1 {
                deep_parse_arg_eq(t, p3, (d - 1) as nat, (e - 1) as nat);
            }
        }
    }
}

pub proof fn deep_parse_arg_comp(t: Seq<TokenView>, p: Parse, d: nat, e: nat)
    requires
        tokens_wf(t, p),
        roomy(t, p, d),
        e >= d,
    ensures
        parse_arg_comp(t, p, e) == parse_arg_comp(t, p, d),
        parse_arg_comp(t, p, d) is Ok ==> onward(t, p, parse_arg_comp(t, p, d)->Ok_0.0),
    decreases d, 22nat, 0nat,
{
    lemma_parse_arg_comp(t, p, d);
    lemma_parse_arg_comp(t, p, e);
    deep_parse_arg_add(t, p, d, e);
    if parse_arg_add(t, p, d) is Ok {
        let p1 = parse_arg_add(t, p, d)->Ok_0.0;
        lemma_get_if(t, p1, punct(Punct::GE));
        let (p2, got0) = get_if(t, p1, punct(Punct::GE));
        if got0 {
            deep_parse_arg_comp(t, p2, (d - 1) as nat, (e - 1) as nat);
        } else {
            lemma_get_if(t, p2, punct(Punct::GT));
            let (p3, got1) = get_if(t, p2, punct(Punct::GT));
            if got1 {
                deep_parse_arg_comp(t, p3, (d - 1) as nat, (e - 1) as nat);
            } else {
                lemma_get_if(t, p3, punct(Punct::LE));
                let (p4, got2) = get_if(t, p3, punct(Punct::LE));
                if got2 {
                    deep_parse_arg_comp(t, p4, (d - 1) as nat, (e - 1) as nat);
                } else {
                    lemma_get_if(t, p4, punct(Punct::LT));
                    let (p5, got3) = get_if(t, p4, punct(Punct::LT));
                    if got3 {
                        deep_parse_arg_comp(t, p5, (d - 1) as nat, (e - 1) as nat);
                    }
                }
            }
        }
    }
}

pub proof fn deep_parse_arg_add(t: Seq<TokenView>, p: Parse, d: nat, e: nat)
    requires
        tokens_wf(t, p),
        roomy(t, p, d),
        e >= d,
    ensures
        parse_arg_add(t, p, e) == parse_arg_add(t, p, d),
        parse_arg_add(t, p, d) is Ok ==> onward(t, p, parse_arg_add(t, p, d)->Ok_0.0),
    decreases d, 21nat, 0nat,
{
    lemma_parse_arg_add(t, p, d);
    lemma_parse_arg_add(t, p, e);
    deep_parse_arg_mul(t, p, d, e);
    if parse_arg_mul(t, p, d) is Ok {
        let p1 = parse_arg_mul(t, p, d)->Ok_0.0;
        lemma_skip_space(t, p1);
        let p2 = skip_space(t, p1);
        if cur(t, p2).0 == punct(Punct::Plus) || cur(t, p2).0 == punct(Punct::Minus) {
            lemma_get(t, p2);
            deep_parse_arg_add(t, get(t, p2).0, (d - 1) as nat, (e - 1) as nat);
        }
    }
}

pub proof fn deep_parse_arg_mul(t: Seq<TokenView>, p: Parse, d: nat, e: nat)
    requires
        tokens_wf(t, p),
        roomy(t, p, d),
        e >= d,
    ensures
        parse_arg_mul(t, p, e) == parse_arg_mul(t, p, d),
        parse_arg_mul(t, p, d) is Ok ==> onward(t, p, parse_arg_mul(t, p, d)->Ok_0.0),
    decreases d, 20nat, 0nat,
{
    lemma_parse_arg_mul(t, p, d);
    lemma_parse_arg_mul(t, p, e);
    deep_parse_unary_minus(t, p, d, e);
    if parse_unary_minus(t, p, d) is Ok {
        let p1 = parse_unary_minus(t, p, d)->Ok_0.0;
        lemma_skip_space(t, p1);
        lemma_skip_space(t, skip_space(t, p1));
        let p2 = skip_space(t, skip_space(t, p1));
        if cur(t, p2).0 == punct(Punct::Mul) || cur(t, p2).0 == punct(Punct::Div) {
            lemma_get(t, p2);
            deep_parse_arg_mul(t, get(t, p2).0, (d - 1) as nat, (e - 1) as nat);
        }
    }
}

pub proof fn deep_parse_unary_minus(t: Seq<TokenView>, p: Parse, d: nat, e: nat)
    requires
        tokens_wf(t, p),
        roomy(t, p, d),
        e >= d,
    ensures
        parse_unary_minus(t, p, e) == parse_unary_minus(t, p, d),
        parse_unary_minus(t, p, d) is Ok ==> onward(t, p, parse_unary_minus(t, p, d)->Ok_0.0),
    decreases d, 19nat, 0nat,
{
    lemma_parse_unary_minus(t, p, d);
    lemma_parse_unary_minus(t, p, e);
    lemma_get_if(t, p, punct(Punct::Minus));
    deep_parse_primary_ext(t, get_if(t, p, punct(Punct::Minus)).0, d, e);
}

pub proof fn deep_parse_primary_ext(t: Seq<TokenView>, p: Parse, d: nat, e: nat)
    requires
        tokens_wf(t, p),
        roomy(t, p, d),
        e >= d,
    ensures
        parse_primary_ext(t, p, e) == parse_primary_ext(t, p, d),
        parse_primary_ext(t, p, d) is Ok ==> onward(t, p, parse_primary_ext(t, p, d)->Ok_0.0),
    decreases d, 18nat, 0nat,
{
    lemma_parse_primary_ext(t, p, d);
    lemma_parse_primary_ext(t, p, e);
    deep_parse_primary(t, p, d, e);
    if parse_primary(t, p, d) is Ok {
        let (p1, n) = parse_primary(t, p, d)->Ok_0;
        if cur(t, p1).0 == punct(Punct::LParen) {
            lemma_get(t, p1);
            deep_arg_list(t, get(t, p1).0, Punct::RParen, d, e);
        } else if cur(t, p1).0 == punct(Punct::LBoxBrackets) {
            let q = expect_line_context_literal(t, p1, LineContext::Literal(Literal::Array));
            if q is Ok {
                lemma_parse_array_index(t, q->Ok_0);
            }
        } else {
            deep_method_chain(t, p1, n, cur(t, p).1, d, e);
        }
    }
}

pub proof fn deep_method_chain(t: Seq<TokenView>, p: Parse, receiver: NodeView, start: Loc, d: nat, e: nat)
    requires
        tokens_wf(t, p),
        roomy(t, p, d),
        e >= d,
    ensures
        method_chain(t, p, receiver, start, e) == method_chain(t, p, receiver, start, d),
        method_chain(t, p, receiver, start, d) is Ok ==> onward(t, p, method_chain(t, p, receiver, start, d)->Ok_0.0),
    decreases d, 16nat, t.len() - p.cursor,
{
    lemma_method_chain(t, p, receiver, start, d);
    lemma_method_chain(t, p, receiver, start, e);
    if cur(t, p).0 == punct(Punct::Dot) {
        deep_method_call(t, p, receiver, start, d, e);
        if method_call(t, p, receiver, start, d) is Ok {
            let (p1, n) = method_call(t, p, receiver, start, d)->Ok_0;
            if p1.cursor > p.cursor && p1.cursor < t.len() {
                deep_method_chain(t, p1, n, start, d, e);
            }
        }
    }
}

pub proof fn deep_method_call(t: Seq<TokenView>, p: Parse, receiver: NodeView, start: Loc, d: nat, e: nat)
    requires
        tokens_wf(t, p),
        roomy(t, p, d),
        e >= d,
    ensures
        method_call(t, p, receiver, start, e) == method_call(t, p, receiver, start, d),
        method_call(t, p, receiver, start, d) is Ok ==> onward(t, p, method_call(t, p, receiver, start, d)->Ok_0.0),
    decreases d, 15nat, 0nat,
{
    lemma_method_call(t, p, receiver, start, d);
    lemma_method_call(t, p, receiver, start, e);
    lemma_get(t, p);
    lemma_get(t, get(t, p).0);
    let (p1, tok) = get(t, get(t, p).0);
    match tok.0 {
        TokenKindView::Ident(name) => {
            let (p2, id) = name_id(p1, name);
            lemma_skip_space(t, p2);
            let p3 = skip_space(t, p2);
            if cur(t, p3).0 == punct(Punct::LParen) {
                lemma_get(t, p3);
                deep_arg_list(t, get(t, p3).0, Punct::RParen, d, e);
            } else if cur(t, p3).0 == reserved(Reserved::Do) {
                lemma_get(t, p3);
                lemma_skip_space(t, get(t, p3).0);
                deep_parse_do(t, skip_space(t, get(t, p3).0), d, e);
            }
        },
        _ => {},
    }
}

pub proof fn deep_parse_primary(t: Seq<TokenView>, p: Parse, d: nat, e: nat)
    requires
        tokens_wf(t, p),
        roomy(t, p, d),
        e >= d,
    ensures
        parse_primary(t, p, e) == parse_primary(t, p, d),
        parse_primary(t, p, d) is Ok ==> onward(t, p, parse_primary(t, p, d)->Ok_0.0),
    decreases d, 17nat, 0nat,
{
    lemma_parse_primary(t, p, d);
    lemma_parse_primary(t, p, e);
    lemma_get(t, p);
    let (p1, tok) = get(t, p);
    match tok.0 {
        TokenKindView::Punct(Punct::AtAt) => {
            lemma_get(t, p1);
        },
        TokenKindView::Punct(Punct::At) => {
            lemma_get(t, p1);
        },
        TokenKindView::Punct(Punct::LParen) => {
            deep_parse_comp_stmt(t, p1, (d - 1) as nat, (e - 1) as nat);
            if parse_comp_stmt(t, p1, (d - 1) as nat) is Ok {
                lemma_get(t, parse_comp_stmt(t, p1, (d - 1) as nat)->Ok_0.0);
            }
        },
        TokenKindView::Punct(Punct::LBoxBrackets) => {
            if p1.lines.len() == 0 {
                deep_parse_box_brackets_contents(t, p1, d, e);
            }
        },
        TokenKindView::Reserved(Reserved::If) => {
            deep_parse_if_then(t, p1, d, e);
            if parse_if_then(t, p1, d) is Ok {
                lemma_expect(t, parse_if_then(t, p1, d)->Ok_0.0, reserved(Reserved::End));
            }
        },
        TokenKindView::Reserved(Reserved::Def) => {
            deep_parse_def(t, p1, d, e);
        },
        TokenKindView::Reserved(Reserved::Do) => {
            deep_parse_do(t, p1, d, e);
        },
        TokenKindView::Reserved(Reserved::Class) => {
            deep_parse_class(t, p1, d, e);
        },
        _ => {},
    }
}

pub proof fn deep_parse_box_brackets_contents(t: Seq<TokenView>, p: Parse, d: nat, e: nat)
    requires
        tokens_wf(t, p),
        roomy1(t, p, d),
        e >= d,
    ensures
        parse_box_brackets_contents(t, p, e) == parse_box_brackets_contents(t, p, d),
        parse_box_brackets_contents(t, p, d) is Ok ==> onward(t, p, parse_box_brackets_contents(t, p, d)->Ok_0.0),
    decreases d, 14nat, 0nat,
{
    lemma_parse_box_brackets_contents(t, p, d);
    lemma_parse_box_brackets_contents(t, p, e);
    deep_arg_list(t, p, Punct::RBoxBrackets, d, e);
}

pub proof fn deep_arg_list(t: Seq<TokenView>, p: Parse, close: Punct, d: nat, e: nat)
    requires
        tokens_wf(t, p),
        roomy1(t, p, d),
        e >= d,
    ensures
        arg_list(t, p, close, e) == arg_list(t, p, close, d),
        arg_list(t, p, close, d) is Ok ==> onward(t, p, arg_list(t, p, close, d)->Ok_0.0),
    decreases d, 13nat, 0nat,
{
    lemma_arg_list(t, p, close, d);
    lemma_arg_list(t, p, close, e);
    lemma_get_if(t, p, punct(close));
    let (p1, closed) = get_if(t, p, punct(close));
    if !closed {
        deep_arg_list_loop(t, p1, Seq::empty(), d, e);
        if arg_list_loop(t, p1, Seq::empty(), d) is Ok {
            lemma_get_if(t, arg_list_loop(t, p1, Seq::empty(), d)->Ok_0.0, punct(close));
        }
    }
}

pub proof fn deep_arg_list_loop(t: Seq<TokenView>, p: Parse, acc: Seq<NodeView>, d: nat, e: nat)
    requires
        tokens_wf(t, p),
        roomy1(t, p, d),
        e >= d,
    ensures
        arg_list_loop(t, p, acc, e) == arg_list_loop(t, p, acc, d),
        arg_list_loop(t, p, acc, d) is Ok ==> onward(t, p, arg_list_loop(t, p, acc, d)->Ok_0.0),
    decreases d, 12nat, t.len() - p.cursor,
{
    lemma_arg_list_loop(t, p, acc, d);
    lemma_arg_list_loop(t, p, acc, e);
    deep_parse_arg(t, p, (d - 1) as nat, (e - 1) as nat);
    if parse_arg(t, p, (d - 1) as nat) is Ok {
        let (p1, n) = parse_arg(t, p, (d - 1) as nat)->Ok_0;
        lemma_get_if(t, p1, punct(Punct::Comma));
        let (p2, more) = get_if(t, p1, punct(Punct::Comma));
        if more && p2.cursor > p.cursor && p2.cursor < t.len() {
            deep_arg_list_loop(t, p2, acc.push(n), d, e);
        }
    }
}

pub proof fn deep_parse_if_then(t: Seq<TokenView>, p: Parse, d: nat, e: nat)
    requires
        tokens_wf(t, p),
        roomy1(t, p, d),
        e >= d,
    ensures
        parse_if_then(t, p, e) == parse_if_then(t, p, d),
        parse_if_then(t, p, d) is Ok ==> onward(t, p, parse_if_then(t, p, d)->Ok_0.0),
    decreases d, 11nat, 0nat,
{
    lemma_parse_if_then(t, p, d);
    lemma_parse_if_then(t, p, e);
    deep_parse_expr(t, p, (d - 1) as nat, (e - 1) as nat);
    if parse_expr(t, p, (d - 1) as nat) is Ok {
        let p1 = parse_expr(t, p, (d - 1) as nat)->Ok_0.0;
        lemma_parse_then(t, p1);
        if parse_then(t, p1) is Ok {
            let p2 = parse_then(t, p1)->Ok_0;
            deep_parse_comp_stmt(t, p2, (d - 1) as nat, (e - 1) as nat);
            if parse_comp_stmt(t, p2, (d - 1) as nat) is Ok {
                let p3 = parse_comp_stmt(t, p2, (d - 1) as nat)->Ok_0.0;
                lemma_get_if(t, p3, reserved(Reserved::Elsif));
                let (p4, elsif) = get_if(t, p3, reserved(Reserved::Elsif));
                if elsif {
                    deep_parse_if_then(t, p4, (d - 1) as nat, (e - 1) as nat);
                } else {
                    lemma_get_if(t, p4, reserved(Reserved::Else));
                    let (p5, has_else) = get_if(t, p4, reserved(Reserved::Else));
                    if has_else {
                        deep_parse_comp_stmt(t, p5, (d - 1) as nat, (e - 1) as nat);
                    }
                }
            }
        }
    }
}

pub proof fn deep_block_body(t: Seq<TokenView>, p: Parse, d: nat, e: nat)
    requires
        tokens_wf(t, p),
        roomy1(t, p, d),
        e >= d,
    ensures
        block_body(t, p, e) == block_body(t, p, d),
        block_body(t, p, d) is Ok ==> onward(t, p, block_body(t, p, d)->Ok_0.0),
    decreases d, 9nat, 0nat,
{
    lemma_block_body(t, p, d);
    lemma_block_body(t, p, e);
    deep_parse_comp_stmt(t, p, (d - 1) as nat, (e - 1) as nat);
    if parse_comp_stmt(t, p, (d - 1) as nat) is Ok {
        lemma_expect(t, parse_comp_stmt(t, p, (d - 1) as nat)->Ok_0.0, reserved(Reserved::End));
    }
}

pub proof fn deep_parse_def(t: Seq<TokenView>, p: Parse, d: nat, e: nat)
    requires
        tokens_wf(t, p),
        roomy1(t, p, d),
        e >= d,
    ensures
        parse_def(t, p, e) == parse_def(t, p, d),
        parse_def(t, p, d) is Ok ==> onward(t, p, parse_def(t, p, d)->Ok_0.0),
    decreases d, 10nat, 0nat,
{
    lemma_parse_def(t, p, d);
    lemma_parse_def(t, p, e);
    let p0 = open_block(p, BlockContext::Method);
    lemma_get(t, p0);
    let (p1, tok) = get(t, p0);
    match tok.0 {
        TokenKindView::Ident(name) => {
            let (p2, id) = name_id(p1, name);
            lemma_parse_params(t, p2);
            if parse_params(t, p2) is Ok {
                deep_block_body(t, parse_params(t, p2)->Ok_0.0, d, e);
            }
        },
        _ => {},
    }
}

pub proof fn deep_parse_do(t: Seq<TokenView>, p: Parse, d: nat, e: nat)
    requires
        tokens_wf(t, p),
        roomy1(t, p, d),
        e >= d,
    ensures
        parse_do(t, p, e) == parse_do(t, p, d),
        parse_do(t, p, d) is Ok ==> onward(t, p, parse_do(t, p, d)->Ok_0.0),
    decreases d, 10nat, 0nat,
{
    lemma_parse_do(t, p, d);
    lemma_parse_do(t, p, e);
    if cur(t, p).0 == punct(Punct::Pipe) {
        lemma_get(t, p);
        lemma_parse_ident(t, get(t, p).0);
        if parse_ident(t, get(t, p).0) is Ok {
            let p1 = parse_ident(t, get(t, p).0)->Ok_0.0;
            lemma_expect(t, p1, punct(Punct::Pipe));
            if expect(t, p1, punct(Punct::Pipe)) is Ok {
                deep_block_body(
                    t,
                    open_block(expect(t, p1, punct(Punct::Pipe))->Ok_0, BlockContext::Method),
                    d,
                    e,
                );
            }
        }
    } else {
        deep_block_body(t, open_block(p, BlockContext::Method), d, e);
    }
}

pub proof fn deep_parse_class(t: Seq<TokenView>, p: Parse, d: nat, e: nat)
    requires
        tokens_wf(t, p),
        roomy1(t, p, d),
        e >= d,
    ensures
        parse_class(t, p, e) == parse_class(t, p, d),
        parse_class(t, p, d) is Ok ==> onward(t, p, parse_class(t, p, d)->Ok_0.0),
    decreases d, 10nat, 0nat,
{
    lemma_parse_class(t, p, d);
    lemma_parse_class(t, p, e);
    let p0 = open_block(p, BlockContext::Class);
    lemma_parse_const(t, p0);
    if parse_const(t, p0) is Ok {
        let (p1, name) = parse_const(t, p0)->Ok_0;
        lemma_skip_space(t, p1);
        let p2 = skip_space(t, p1);
        if cur(t, p2).0 == punct(Punct::LT) {
            lemma_get(t, p2);
            lemma_parse_const(t, get(t, p2).0);
            if parse_const(t, get(t, p2).0) is Ok {
                let (p3, parent) = parse_const(t, get(t, p2).0)->Ok_0;
                deep_block_body(t, name_id(name_id(p3, parent).0, name).0, d, e);
            }
        } else {
            deep_block_body(t, name_id(p2, name).0, d, e);
        }
    }
}

/// The tree of a program does not depend on the budget for the depth of
/// nesting, once the budget is twice the number of tokens.
pub proof fn lemma_parse_unbounded(t: Seq<TokenView>, p: Parse, d: nat)
    requires
        tokens_wf(t, p),
        d >= 2 * t.len(),
    ensures
        parse_program_loop(t, p, d) == parse_program_loop(t, p, 2 * t.len()),
{
    deep_parse_program_loop(t, p, 2 * t.len(), d);
}

} // verus!
