//! The parser: the steps that read expressions, statements and
//! definitions.
//!
//! These steps take a budget for the depth of nesting; see the module
//! `grammar`.

use crate::annot::{Annot, Loc};
use crate::grammar::{
    node, only_args, send_node, arg_list, arg_list_loop, as_table, block_body, comp_stmt_loop, get,
    get_if, lemma_arg_list, lemma_arg_list_loop, lemma_block_body, lemma_comp_stmt_loop,
    lemma_method_call, lemma_method_chain, lemma_parse_arg, lemma_parse_arg_add,
    lemma_parse_arg_assign, lemma_parse_arg_comp, lemma_parse_arg_eq, lemma_parse_arg_logical_and,
    lemma_parse_arg_logical_or, lemma_parse_arg_mul, lemma_parse_box_brackets_contents,
    lemma_parse_class, lemma_parse_comp_stmt, lemma_parse_def, lemma_parse_do, lemma_parse_expr,
    lemma_parse_if_then, lemma_parse_primary, lemma_parse_primary_ext, lemma_parse_program_loop,
    lemma_parse_unary_minus, method_call, method_chain, parse_arg, parse_arg_add, parse_arg_assign,
    parse_arg_comp, parse_arg_eq, parse_arg_logical_and, parse_arg_logical_or, parse_arg_mul,
    parse_box_brackets_contents, parse_class, parse_comp_stmt, parse_def, parse_do, parse_expr,
    parse_if_then, parse_primary, parse_primary_ext, parse_program_loop, parse_unary_minus, punct,
    BlockContext, LineContext, Literal, Parse, ParseErr, ParseErrorKind, Parsed,
};
use crate::node::{
    lemma_nodes_view, lemma_nodes_view_empty, lemma_nodes_view_push, node_view, nodes_view,
    parsed_args_view, BinOp, Node, NodeKind, NodeKindView, NodeView, ParsedArgs, ParsedArgsView,
};
use crate::parser::{error_at, is_punct, is_reserved, parsed_node, parsed_nodes, ParseError, Parser};
use crate::token::{Punct, Reserved, TokenKind};
use crate::scan::Error;

use vstd::prelude::*;

verus! {

/// Whether a string holds the characters of `lit`.
pub fn str_is(s: &String, lit: &str) -> (r: bool)
    ensures
        r == (s@ == lit@),
{
    let other: String = lit.to_owned();
    *s == other
}

/// The parameter of a block as the call holds it: an identifier becomes
/// the push of its number.
pub fn table_of(n: Node) -> (r: Node)
    ensures
        node_view(r) == as_table(node_view(n)),
{
    match n.kind {
        NodeKind::Ident(id) => Node::new_table_identifier(id, n.loc),
        _ => n,
    }
}

/// A node without parts.
pub fn leaf(kind: NodeKind, loc: Loc) -> (r: Node)
    requires
        kind is SelfValue || kind is Nil || kind is Number || kind is Ident,
    ensures
        r.loc == loc,
        node_view(r) == node(
            match kind {
                NodeKind::SelfValue => NodeKindView::SelfValue,
                NodeKind::Number(n) => NodeKindView::Number(n),
                NodeKind::Ident(id) => NodeKindView::Ident(id.0),
                _ => NodeKindView::Nil,
            },
            loc,
        ),
{
    Annot::new(kind, loc)
}

/// The arguments of a call without a block.
pub fn plain_args(list: Vec<Node>) -> (r: ParsedArgs)
    ensures
        parsed_args_view(r) == only_args(nodes_view(list@)),
{
    let mut args = ParsedArgs::new();
    args.args = list;
    args
}

/// The arguments of a call with a block and nothing else.
pub fn block_args(body: Node, table: Node) -> (r: ParsedArgs)
    ensures
        parsed_args_view(r) == (ParsedArgsView {
            table: node_view(table),
            node: node_view(body),
            args: Seq::empty(),
        }),
{
    let args: Vec<Node> = Vec::new();
    proof {
        lemma_nodes_view_empty(args@);
    }
    ParsedArgs { table, node: body, args }
}

/// A method call.
pub fn send(receiver: Node, method: Node, args: ParsedArgs, loc: Loc) -> (r: Node)
    ensures
        node_view(r) == send_node(
            node_view(receiver),
            node_view(method),
            parsed_args_view(args),
            loc,
        ),
{
    Node::new_send(receiver, method, args, loc)
}

/// Whether a step of the parser that yields a block did what it should.
pub open spec fn parsed_block(
    expected: Parsed<(NodeView, NodeView)>,
    got: Result<(Node, Node), ParseError>,
    after: Parse,
) -> bool {
    match expected {
        Ok((p, (a, b))) => got is Ok && node_view(got->Ok_0.0) == a && node_view(got->Ok_0.1) == b
            && after == p,
        Err((k, l)) => got is Err && got->Err_0.kind == k && got->Err_0.loc == l,
    }
}

impl Parser {
    /// A sequence of statements.
    pub fn parse_comp_stmt_within(&mut self, d: u64) -> (r: Result<Node, ParseError>)
        requires
            old(self).wf(),
        ensures
            parsed_node(parse_comp_stmt(old(self).toks(), old(self)@, d as nat), r, final(self)@),
            final(self).wf(),
            final(self).same_input(old(self)),
        decreases d, 30nat, 0nat,
    {
        let ghost t = self.toks();
        let ghost p0 = self@;
        proof {
            lemma_parse_comp_stmt(t, p0, d as nat);
        }
        let loc0 = self.loc();
        let mut nodes: Vec<Node> = Vec::new();
        proof {
            lemma_nodes_view_empty(nodes@);
        }
        loop
            invariant_except_break
                comp_stmt_loop(t, p0, Seq::empty(), d as nat) == comp_stmt_loop(
                    t,
                    self@,
                    nodes_view(nodes@),
                    d as nat,
                ),
            invariant
                self.wf(),
                self.same_input(old(self)),
                t == self.toks(),
                t == old(self).toks(),
                p0 == old(self)@,
                parse_comp_stmt(t, p0, d as nat) == crate::grammar::parse_comp_stmt_body(
                    t,
                    p0,
                    d as nat,
                ),
            ensures
                comp_stmt_loop(t, p0, Seq::empty(), d as nat) == Ok::<
                    (Parse, Seq<NodeView>),
                    ParseErr,
                >((self@, nodes_view(nodes@))),
            decreases self.tokens.len() - self.cursor,
        {
            proof {
                lemma_comp_stmt_loop(t, self@, nodes_view(nodes@), d as nat);
            }
            let start: usize = self.cursor;
            let tok = self.peek();
            if is_punct(&tok, Punct::Semi) || tok.is_eof() || is_reserved(&tok, Reserved::Else)
                || is_reserved(&tok, Reserved::Elsif) || is_reserved(&tok, Reserved::End) {
                break ;
            }
            let n = self.parse_expr_within(d)?;
            let ghost before = nodes@;
            proof {
                lemma_nodes_view_push(before, n);
            }
            nodes.push(n);
            if !self.get_if_term() {
                break ;
            }
            if self.cursor <= start {
                return self.refuse();
            }
        }
        proof {
            lemma_nodes_view(nodes@);
        }
        let n: usize = nodes.len();
        let loc = if n > 0 {
            loc0.merge(nodes[n - 1].loc)
        } else {
            loc0
        };
        Ok(Annot { kind: NodeKind::CompStmt(nodes), loc })
    }

    /// An expression.
    pub fn parse_expr_within(&mut self, d: u64) -> (r: Result<Node, ParseError>)
        requires
            old(self).wf(),
        ensures
            parsed_node(parse_expr(old(self).toks(), old(self)@, d as nat), r, final(self)@),
            final(self).wf(),
            final(self).same_input(old(self)),
        decreases d, 28nat, 0nat,
    {
        proof {
            lemma_parse_expr(old(self).toks(), old(self)@, d as nat);
        }
        self.parse_arg_within(d)
    }

    /// An argument: an expression without a block.
    pub fn parse_arg_within(&mut self, d: u64) -> (r: Result<Node, ParseError>)
        requires
            old(self).wf(),
        ensures
            parsed_node(parse_arg(old(self).toks(), old(self)@, d as nat), r, final(self)@),
            final(self).wf(),
            final(self).same_input(old(self)),
        decreases d, 27nat, 0nat,
    {
        proof {
            lemma_parse_arg(old(self).toks(), old(self)@, d as nat);
        }
        self.parse_arg_assign(d)
    }

    /// An assignment, or what stands on its left.
    pub fn parse_arg_assign(&mut self, d: u64) -> (r: Result<Node, ParseError>)
        requires
            old(self).wf(),
        ensures
            parsed_node(parse_arg_assign(old(self).toks(), old(self)@, d as nat), r, final(self)@),
            final(self).wf(),
            final(self).same_input(old(self)),
        decreases d, 26nat, 0nat,
    {
        proof {
            lemma_parse_arg_assign(old(self).toks(), old(self)@, d as nat);
        }
        let lhs = self.parse_arg_logical_or(d)?;
        if self.get_if_punct(Punct::Assign) {
            if d == 0 {
                return self.refuse();
            }
            let rhs = self.parse_arg_within(d - 1)?;
            Ok(Node::new_assign(lhs, rhs))
        } else {
            Ok(lhs)
        }
    }

    /// The level of `||`, which reads `&&`.
    pub fn parse_arg_logical_or(&mut self, d: u64) -> (r: Result<Node, ParseError>)
        requires
            old(self).wf(),
        ensures
            parsed_node(
                parse_arg_logical_or(old(self).toks(), old(self)@, d as nat),
                r,
                final(self)@,
            ),
            final(self).wf(),
            final(self).same_input(old(self)),
        decreases d, 25nat, 0nat,
    {
        proof {
            lemma_parse_arg_logical_or(old(self).toks(), old(self)@, d as nat);
        }
        let lhs = self.parse_arg_logical_and(d)?;
        if self.get_if_punct(Punct::LAnd) {
            if d == 0 {
                return self.refuse();
            }
            let rhs = self.parse_arg_logical_or(d - 1)?;
            Ok(Node::new_binop(BinOp::LAnd, lhs, rhs))
        } else {
            Ok(lhs)
        }
    }

    /// The level of `&&`.
    pub fn parse_arg_logical_and(&mut self, d: u64) -> (r: Result<Node, ParseError>)
        requires
            old(self).wf(),
        ensures
            parsed_node(
                parse_arg_logical_and(old(self).toks(), old(self)@, d as nat),
                r,
                final(self)@,
            ),
            final(self).wf(),
            final(self).same_input(old(self)),
        decreases d, 24nat, 0nat,
    {
        proof {
            lemma_parse_arg_logical_and(old(self).toks(), old(self)@, d as nat);
        }
        let lhs = self.parse_arg_eq(d)?;
        if self.get_if_punct(Punct::LAnd) {
            if d == 0 {
                return self.refuse();
            }
            let rhs = self.parse_arg_logical_and(d - 1)?;
            Ok(Node::new_binop(BinOp::LAnd, lhs, rhs))
        } else {
            Ok(lhs)
        }
    }

    /// The level of `==` and `!=`.
    pub fn parse_arg_eq(&mut self, d: u64) -> (r: Result<Node, ParseError>)
        requires
            old(self).wf(),
        ensures
            parsed_node(parse_arg_eq(old(self).toks(), old(self)@, d as nat), r, final(self)@),
            final(self).wf(),
            final(self).same_input(old(self)),
        decreases d, 23nat, 0nat,
    {
        proof {
            lemma_parse_arg_eq(old(self).toks(), old(self)@, d as nat);
        }
        let lhs = self.parse_arg_comp(d)?;
        if self.get_if_punct(Punct::Eq) {
            if d == 0 {
                return self.refuse();
            }
            let rhs = self.parse_arg_eq(d - 1)?;
            Ok(Node::new_binop(BinOp::Eq, lhs, rhs))
        } else if self.get_if_punct(Punct::NE) {
            if d == 0 {
                return self.refuse();
            }
            let rhs = self.parse_arg_eq(d - 1)?;
            Ok(Node::new_binop(BinOp::Ne, lhs, rhs))
        } else {
            Ok(lhs)
        }
    }

    /// The level of the comparisons.
    pub fn parse_arg_comp(&mut self, d: u64) -> (r: Result<Node, ParseError>)
        requires
            old(self).wf(),
        ensures
            parsed_node(parse_arg_comp(old(self).toks(), old(self)@, d as nat), r, final(self)@),
            final(self).wf(),
            final(self).same_input(old(self)),
        decreases d, 22nat, 0nat,
    {
        proof {
            lemma_parse_arg_comp(old(self).toks(), old(self)@, d as nat);
        }
        let lhs = self.parse_arg_add(d)?;
        let op = if self.get_if_punct(Punct::GE) {
            BinOp::GE
        } else if self.get_if_punct(Punct::GT) {
            BinOp::GT
        } else if self.get_if_punct(Punct::LE) {
            BinOp::LE
        } else if self.get_if_punct(Punct::LT) {
            BinOp::LT
        } else {
            return Ok(lhs);
        };
        if d == 0 {
            return self.refuse();
        }
        let rhs = self.parse_arg_comp(d - 1)?;
        Ok(Node::new_binop(op, lhs, rhs))
    }

    /// The level of `+` and `-`.
    pub fn parse_arg_add(&mut self, d: u64) -> (r: Result<Node, ParseError>)
        requires
            old(self).wf(),
        ensures
            parsed_node(parse_arg_add(old(self).toks(), old(self)@, d as nat), r, final(self)@),
            final(self).wf(),
            final(self).same_input(old(self)),
        decreases d, 21nat, 0nat,
    {
        proof {
            lemma_parse_arg_add(old(self).toks(), old(self)@, d as nat);
        }
        let lhs = self.parse_arg_mul(d)?;
        self.skip_space();
        let op = if is_punct(self.current(), Punct::Plus) {
            BinOp::Add
        } else if is_punct(self.current(), Punct::Minus) {
            BinOp::Sub
        } else {
            return Ok(lhs);
        };
        self.get();
        if d == 0 {
            return self.refuse();
        }
        let rhs = self.parse_arg_add(d - 1)?;
        Ok(Node::new_binop(op, lhs, rhs))
    }

    /// The level of `*` and `/`.
    pub fn parse_arg_mul(&mut self, d: u64) -> (r: Result<Node, ParseError>)
        requires
            old(self).wf(),
        ensures
            parsed_node(parse_arg_mul(old(self).toks(), old(self)@, d as nat), r, final(self)@),
            final(self).wf(),
            final(self).same_input(old(self)),
        decreases d, 20nat, 0nat,
    {
        proof {
            lemma_parse_arg_mul(old(self).toks(), old(self)@, d as nat);
        }
        let lhs = self.parse_unary_minus(d)?;
        self.skip_space();
        self.skip_space();
        let op = if is_punct(self.current(), Punct::Mul) {
            BinOp::Mul
        } else if is_punct(self.current(), Punct::Div) {
            BinOp::Div
        } else {
            return Ok(lhs);
        };
        self.get();
        if d == 0 {
            return self.refuse();
        }
        let rhs = self.parse_arg_mul(d - 1)?;
        Ok(Node::new_binop(op, lhs, rhs))
    }

    /// A primary, negated where `-` stands before it: the product of the
    /// primary and -1.
    pub fn parse_unary_minus(&mut self, d: u64) -> (r: Result<Node, ParseError>)
        requires
            old(self).wf(),
        ensures
            parsed_node(parse_unary_minus(old(self).toks(), old(self)@, d as nat), r, final(self)@),
            final(self).wf(),
            final(self).same_input(old(self)),
        decreases d, 19nat, 0nat,
    {
        proof {
            lemma_parse_unary_minus(old(self).toks(), old(self)@, d as nat);
        }
        let loc = self.loc();
        if self.get_if_punct(Punct::Minus) {
            let lhs = self.parse_primary_ext(d)?;
            let loc = loc.merge(lhs.loc());
            let minus_one = leaf(NodeKind::Number(-1), loc);
            Ok(Node::new_binop(BinOp::Mul, lhs, minus_one))
        } else {
            self.parse_primary_ext(d)
        }
    }

    /// A primary and what follows it directly: the arguments of a call of
    /// a method of `self`, an index into an array literal, or a chain of
    /// method calls.
    pub fn parse_primary_ext(&mut self, d: u64) -> (r: Result<Node, ParseError>)
        requires
            old(self).wf(),
        ensures
            parsed_node(parse_primary_ext(old(self).toks(), old(self)@, d as nat), r, final(self)@),
            final(self).wf(),
            final(self).same_input(old(self)),
        decreases d, 18nat, 0nat,
    {
        proof {
            lemma_parse_primary_ext(old(self).toks(), old(self)@, d as nat);
        }
        let loc = self.loc();
        let node = self.parse_primary(d)?;
        if is_punct(self.current(), Punct::LParen) {
            self.get();
            let list = self.arg_list_within(Punct::RParen, d)?;
            let end_loc = self.loc();
            Ok(send(leaf(NodeKind::SelfValue, loc), node, plain_args(list), loc.merge(end_loc)))
        } else if is_punct(self.current(), Punct::LBoxBrackets) {
            self.expect_line_context_literal(LineContext::Literal(Literal::Array))?;
            let num = self.parse_array_index()?;
            let end_loc = self.loc();
            Ok(Node::new_array_index(node, num, loc.merge(end_loc)))
        } else {
            self.method_chain_within(node, loc, d)
        }
    }

    /// The method calls that follow `receiver`, each after a `.`.
    #[verifier::loop_isolation(false)]
    pub fn method_chain_within(&mut self, receiver: Node, start: Loc, d: u64) -> (r: Result<
        Node,
        ParseError,
    >)
        requires
            old(self).wf(),
        ensures
            parsed_node(
                method_chain(old(self).toks(), old(self)@, node_view(receiver), start, d as nat),
                r,
                final(self)@,
            ),
            final(self).wf(),
            final(self).same_input(old(self)),
        decreases d, 16nat, 0nat,
    {
        let ghost t = self.toks();
        let ghost p0 = self@;
        let ghost r0 = node_view(receiver);
        let mut node = receiver;
        loop
            invariant
                self.wf(),
                self.same_input(old(self)),
                t == self.toks(),
                t == old(self).toks(),
                p0 == old(self)@,
                method_chain(t, p0, r0, start, d as nat) == method_chain(
                    t,
                    self@,
                    node_view(node),
                    start,
                    d as nat,
                ),
            decreases self.tokens.len() - self.cursor,
        {
            proof {
                lemma_method_chain(t, self@, node_view(node), start, d as nat);
            }
            if !is_punct(self.current(), Punct::Dot) {
                return Ok(node);
            }
            let begin: usize = self.cursor;
            node = self.method_call_within(node, start, d)?;
            if self.cursor <= begin {
                return self.refuse();
            }
        }
    }

    /// One method call on `receiver`, with the cursor on the `.`.
    pub fn method_call_within(&mut self, receiver: Node, start: Loc, d: u64) -> (r: Result<
        Node,
        ParseError,
    >)
        requires
            old(self).wf(),
        ensures
            parsed_node(
                method_call(old(self).toks(), old(self)@, node_view(receiver), start, d as nat),
                r,
                final(self)@,
            ),
            final(self).wf(),
            final(self).same_input(old(self)),
        decreases d, 15nat, 0nat,
    {
        proof {
            lemma_method_call(old(self).toks(), old(self)@, node_view(receiver), start, d as nat);
        }
        self.get();
        let tok = self.get();
        match &tok.kind {
            TokenKind::Ident(name) => {
                let id = self.name_id(name.as_str());
                self.skip_space();
                let method = leaf(NodeKind::Ident(id), tok.loc);
                let args = if is_punct(self.current(), Punct::LParen) {
                    self.get();
                    plain_args(self.arg_list_within(Punct::RParen, d)?)
                } else if is_reserved(self.current(), Reserved::Do) {
                    self.get();
                    self.skip_space();
                    let (body, table) = self.parse_do(d)?;
                    block_args(body, table_of(table))
                } else {
                    let none: Vec<Node> = Vec::new();
                    proof {
                        lemma_nodes_view_empty(none@);
                    }
                    plain_args(none)
                };
                let end_loc = self.loc();
                Ok(send(receiver, method, args, start.merge(end_loc)))
            },
            TokenKind::Reserved(Reserved::Class) => {
                let id = self.name_id("class");
                let none: Vec<Node> = Vec::new();
                proof {
                    lemma_nodes_view_empty(none@);
                }
                let end_loc = self.loc();
                Ok(send(receiver, leaf(NodeKind::Ident(id), tok.loc), plain_args(none), start.merge(end_loc)))
            },
            _ => error_at(ParseErrorKind::UnexpectedToken, tok.loc),
        }
    }

    /// A list of arguments, separated by commas, up to the closing
    /// `close`.
    pub fn arg_list_within(&mut self, close: Punct, d: u64) -> (r: Result<Vec<Node>, ParseError>)
        requires
            old(self).wf(),
        ensures
            parsed_nodes(arg_list(old(self).toks(), old(self)@, close, d as nat), r, final(self)@),
            final(self).wf(),
            final(self).same_input(old(self)),
        decreases d, 13nat, 0nat,
    {
        let ghost t = self.toks();
        proof {
            lemma_arg_list(t, old(self)@, close, d as nat);
        }
        let mut args: Vec<Node> = Vec::new();
        proof {
            lemma_nodes_view_empty(args@);
        }
        if self.get_if_punct(close) {
            return Ok(args);
        }
        let ghost p1 = self@;
        loop
            invariant_except_break
                arg_list_loop(t, p1, Seq::empty(), d as nat) == arg_list_loop(
                    t,
                    self@,
                    nodes_view(args@),
                    d as nat,
                ),
            invariant
                self.wf(),
                self.same_input(old(self)),
                t == self.toks(),
                t == old(self).toks(),
                arg_list(t, old(self)@, close, d as nat) == (match arg_list_loop(
                    t,
                    p1,
                    Seq::empty(),
                    d as nat,
                ) {
                    Err(e) => Err(e),
                    Ok((p2, list)) => {
                        let (p3, closed) = get_if(t, p2, punct(close));
                        if closed {
                            Ok((p3, list))
                        } else {
                            crate::grammar::refuse(t, p3)
                        }
                    },
                }),
            ensures
                arg_list_loop(t, p1, Seq::empty(), d as nat) == Ok::<
                    (Parse, Seq<NodeView>),
                    ParseErr,
                >((self@, nodes_view(args@))),
            decreases self.tokens.len() - self.cursor,
        {
            proof {
                lemma_arg_list_loop(t, self@, nodes_view(args@), d as nat);
            }
            let start: usize = self.cursor;
            if d == 0 {
                return self.refuse();
            }
            let n = self.parse_arg_within(d - 1)?;
            let ghost before = args@;
            proof {
                lemma_nodes_view_push(before, n);
            }
            args.push(n);
            if !self.get_if_punct(Punct::Comma) {
                break ;
            }
            if self.cursor <= start {
                return self.refuse();
            }
        }
        if self.get_if_punct(close) {
            Ok(args)
        } else {
            self.refuse()
        }
    }

    /// The elements of an array literal, whose `[` has been taken.
    pub fn parse_box_brackets_contents(&mut self, d: u64) -> (r: Result<Vec<Node>, ParseError>)
        requires
            old(self).wf(),
        ensures
            parsed_nodes(
                parse_box_brackets_contents(old(self).toks(), old(self)@, d as nat),
                r,
                final(self)@,
            ),
            final(self).wf(),
            final(self).same_input(old(self)),
        decreases d, 14nat, 0nat,
    {
        proof {
            lemma_parse_box_brackets_contents(old(self).toks(), old(self)@, d as nat);
        }
        let args = self.arg_list_within(Punct::RBoxBrackets, d)?;
        proof {
            lemma_nodes_view(args@);
        }
        if args.len() > 0 {
            self.line_context_stack.push(LineContext::Literal(Literal::Array));
        }
        Ok(args)
    }

    /// A primary: a variable, a literal, a statement sequence in
    /// parentheses, a conditional, or a definition.
    pub fn parse_primary(&mut self, d: u64) -> (r: Result<Node, ParseError>)
        requires
            old(self).wf(),
        ensures
            parsed_node(parse_primary(old(self).toks(), old(self)@, d as nat), r, final(self)@),
            final(self).wf(),
            final(self).same_input(old(self)),
        decreases d, 17nat, 0nat,
    {
        proof {
            lemma_parse_primary(old(self).toks(), old(self)@, d as nat);
        }
        let tok = self.get();
        let loc = tok.loc;
        match &tok.kind {
            TokenKind::Punct(Punct::AtAt) => {
                let tok = self.get();
                match &tok.kind {
                    TokenKind::Ident(name) => {
                        let id = self.name_id(name.as_str());
                        Ok(Node::new_class_var(id, tok.loc))
                    },
                    _ => error_at(ParseErrorKind::UnexpectedToken, tok.loc),
                }
            },
            TokenKind::Punct(Punct::At) => {
                let tok = self.get();
                match &tok.kind {
                    TokenKind::Ident(name) => {
                        let id = self.name_id(name.as_str());
                        Ok(Node::new_instance_var(id, tok.loc))
                    },
                    _ => error_at(ParseErrorKind::UnexpectedToken, tok.loc),
                }
            },
            TokenKind::Ident(name) => {
                let id = self.name_id(name.as_str());
                if str_is(name, "self") {
                    Ok(Annot::new(NodeKind::SelfValue, loc))
                } else if str_is(name, "nil") {
                    Ok(Annot::new(NodeKind::Nil, loc))
                } else {
                    Ok(Node::new_identifier(id, loc))
                }
            },
            TokenKind::Const(name) => {
                let id = self.name_id(name.as_str());
                Ok(Node::new_const(id, loc))
            },
            TokenKind::NumLit(num) => {
                self.line_context_stack.push(LineContext::Literal(Literal::Number));
                Ok(Node::new_number(*num, loc))
            },
            TokenKind::StringLit(s) => Ok(Node::new_string(s.clone(), loc)),
            TokenKind::Punct(Punct::LParen) => {
                if d == 0 {
                    return self.refuse();
                }
                let node = self.parse_comp_stmt_within(d - 1)?;
                let tok = self.get();
                if is_punct(&tok, Punct::RParen) {
                    Ok(node)
                } else {
                    self.refuse()
                }
            },
            TokenKind::Punct(Punct::LBoxBrackets) => {
                if self.is_first_line_context() {
                    let contents = self.parse_box_brackets_contents(d)?;
                    let end_loc = self.loc();
                    Ok(Node::new_vec(contents, loc.merge(end_loc)))
                } else {
                    error_at(ParseErrorKind::UnexpectedToken, loc)
                }
            },
            TokenKind::Reserved(Reserved::If) => {
                let node = self.parse_if_then_within(d)?;
                self.expect_reserved(Reserved::End)?;
                Ok(node)
            },
            TokenKind::Reserved(Reserved::Def) => self.parse_def(d),
            TokenKind::Reserved(Reserved::Do) => {
                let (node, _) = self.parse_do(d)?;
                Ok(node)
            },
            TokenKind::Reserved(Reserved::Class) => self.parse_class(d),
            TokenKind::EOF => error_at(ParseErrorKind::EOF, loc),
            _ => error_at(ParseErrorKind::UnexpectedToken, loc),
        }
    }

    /// A conditional after its `if` or `elsif`.
    pub fn parse_if_then_within(&mut self, d: u64) -> (r: Result<Node, ParseError>)
        requires
            old(self).wf(),
        ensures
            parsed_node(parse_if_then(old(self).toks(), old(self)@, d as nat), r, final(self)@),
            final(self).wf(),
            final(self).same_input(old(self)),
        decreases d, 11nat, 0nat,
    {
        proof {
            lemma_parse_if_then(old(self).toks(), old(self)@, d as nat);
        }
        if d == 0 {
            return self.refuse();
        }
        let cond = self.parse_expr_within(d - 1)?;
        self.parse_then()?;
        let then_ = self.parse_comp_stmt_within(d - 1)?;
        let else_ = if self.get_if_reserved(Reserved::Elsif) {
            self.parse_if_then_within(d - 1)?
        } else if self.get_if_reserved(Reserved::Else) {
            self.parse_comp_stmt_within(d - 1)?
        } else {
            let empty = Node::new_comp_stmt();
            proof {
                lemma_nodes_view_empty(empty.kind->CompStmt_0@);
            }
            empty
        };
        let loc = cond.loc().merge(else_.loc());
        Ok(Annot::new(NodeKind::If(Box::new(cond), Box::new(then_), Box::new(else_)), loc))
    }

    /// The statements of a body up to its `end`, which closes the body.
    pub fn block_body_within(&mut self, d: u64) -> (r: Result<Node, ParseError>)
        requires
            old(self).wf(),
        ensures
            parsed_node(block_body(old(self).toks(), old(self)@, d as nat), r, final(self)@),
            final(self).wf(),
            final(self).same_input(old(self)),
        decreases d, 9nat, 0nat,
    {
        proof {
            lemma_block_body(old(self).toks(), old(self)@, d as nat);
        }
        if d == 0 {
            return self.refuse();
        }
        let body = self.parse_comp_stmt_within(d - 1)?;
        self.expect_reserved(Reserved::End)?;
        self.close_block()?;
        Ok(body)
    }

    /// A method definition after its `def`.
    pub fn parse_def(&mut self, d: u64) -> (r: Result<Node, ParseError>)
        requires
            old(self).wf(),
        ensures
            parsed_node(parse_def(old(self).toks(), old(self)@, d as nat), r, final(self)@),
            final(self).wf(),
            final(self).same_input(old(self)),
        decreases d, 10nat, 0nat,
    {
        proof {
            lemma_parse_def(old(self).toks(), old(self)@, d as nat);
        }
        self.open_block(BlockContext::Method);
        self.expect_first_line_context()?;
        let loc = self.loc();
        let tok = self.get();
        let id = match &tok.kind {
            TokenKind::Ident(s) => self.name_id(s.as_str()),
            _ => {
                return error_at(ParseErrorKind::UnexpectedToken, loc);
            },
        };
        let args = self.parse_params()?;
        let body = self.block_body_within(d)?;
        Ok(Node::new_method_decl(id, args, body))
    }

    /// A block after its `do`: the parameter between `|`, if any, and the
    /// body. Yields the body and the parameter.
    pub fn parse_do(&mut self, d: u64) -> (r: Result<(Node, Node), ParseError>)
        requires
            old(self).wf(),
        ensures
            parsed_block(parse_do(old(self).toks(), old(self)@, d as nat), r, final(self)@),
            final(self).wf(),
            final(self).same_input(old(self)),
        decreases d, 10nat, 0nat,
    {
        proof {
            lemma_parse_do(old(self).toks(), old(self)@, d as nat);
        }
        let table = if is_punct(self.current(), Punct::Pipe) {
            self.get();
            let node = self.parse_ident()?;
            self.expect_punct(Punct::Pipe)?;
            node
        } else {
            Node::new_none()
        };
        self.open_block(BlockContext::Method);
        let body = self.block_body_within(d)?;
        Ok((Node::new_block_decl(body), table))
    }

    /// A class definition after its `class`.
    pub fn parse_class(&mut self, d: u64) -> (r: Result<Node, ParseError>)
        requires
            old(self).wf(),
        ensures
            parsed_node(parse_class(old(self).toks(), old(self)@, d as nat), r, final(self)@),
            final(self).wf(),
            final(self).same_input(old(self)),
        decreases d, 10nat, 0nat,
    {
        proof {
            lemma_parse_class(old(self).toks(), old(self)@, d as nat);
        }
        self.expect_out_of_method_block_context()?;
        self.open_block(BlockContext::Class);
        self.expect_first_line_context()?;
        let name = self.parse_const()?;
        self.skip_space();
        let parent = if is_punct(self.current(), Punct::LT) {
            self.get();
            let parent_name = self.parse_const()?;
            Some(self.name_id(parent_name.as_str()))
        } else {
            None
        };
        let id = self.name_id(name.as_str());
        let body = self.block_body_within(d)?;
        Ok(Node::new_class_decl(id, body, parent))
    }

    /// The statements of a program, up to the end of input.
    pub fn parse_program_loop(&mut self, d: u64) -> (r: Result<Node, ParseError>)
        requires
            old(self).wf(),
        ensures
            parsed_node(parse_program_loop(old(self).toks(), old(self)@, d as nat), r, final(self)@),
            final(self).wf(),
            final(self).same_input(old(self)),
    {
        let ghost t = self.toks();
        let ghost p0 = self@;
        loop
            invariant
                self.wf(),
                self.same_input(old(self)),
                t == self.toks(),
                t == old(self).toks(),
                p0 == old(self)@,
                parse_program_loop(t, p0, d as nat) == parse_program_loop(t, self@, d as nat),
            decreases self.tokens.len() - self.cursor,
        {
            proof {
                lemma_parse_program_loop(t, self@, d as nat);
            }
            let start: usize = self.cursor;
            let node = self.parse_comp_stmt_within(d)?;
            self.skip_space();
            if self.current().is_eof() {
                return Ok(node);
            }
            if self.cursor <= start {
                return self.refuse();
            }
        }
    }

    /// The tree of `program`, which is tokenized first. The bodies that an
    /// earlier program left open, and the identifiers, stay as they are.
    /// A text that cannot be tokenized is refused: as the end of input
    /// where it breaks off inside a token, and as an unexpected token
    /// otherwise.
    pub fn parse_program(&mut self, program: &str) -> (r: Result<Node, ParseError>)
        requires
            old(self).lexer.wf(),
            old(self).ident_table.wf(),
        ensures
            final(self).lexer.wf(),
            final(self).ident_table.wf(),
            old(self).lexer@.code.len() + program@.len() > usize::MAX ==> {
                &&& r is Err
                &&& r->Err_0.kind == ParseErrorKind::UnexpectedToken
                &&& r->Err_0.loc == Loc(0, 0)
            },
            old(self).lexer@.code.len() + program@.len() <= usize::MAX ==> (match old(
                self,
            ).lexer@.tokenize(program@) {
                Err(e) => {
                    &&& r is Err
                    &&& r->Err_0.kind == (if e == Error::EOF {
                        ParseErrorKind::EOF
                    } else {
                        ParseErrorKind::UnexpectedToken
                    })
                    &&& r->Err_0.loc == Loc(0, 0)
                },
                Ok((s, tokens)) => {
                    &&& final(self).lexer@ == s
                    &&& final(self).toks() == tokens
                    &&& parsed_node(
                        parse_program_loop(
                            tokens,
                            Parse { cursor: 0, ..old(self)@ },
                            u64::MAX as nat,
                        ),
                        r,
                        final(self)@,
                    )
                },
            }),
    {
        let n: usize = program.unicode_len();
        if self.lexer.len > usize::MAX - n {
            return error_at(ParseErrorKind::UnexpectedToken, Loc(0, 0));
        }
        let ghost before = self.lexer@;
        match self.lexer.tokenize(program) {
            Err(e) => {
                if e == Error::EOF {
                    error_at(ParseErrorKind::EOF, Loc(0, 0))
                } else {
                    error_at(ParseErrorKind::UnexpectedToken, Loc(0, 0))
                }
            },
            Ok(result) => {
                proof {
                    crate::lexer::lemma_scan_ends(
                        before.resume(program@),
                        Seq::empty(),
                        (before.code.len() + program@.len() + 1) as nat,
                    );
                }
                self.tokens = result.tokens;
                self.cursor = 0;
                self.parse_program_loop(u64::MAX)
            },
        }
    }

    /// A sequence of statements.
    pub fn parse_comp_stmt(&mut self) -> (r: Result<Node, ParseError>)
        requires
            old(self).wf(),
        ensures
            parsed_node(
                parse_comp_stmt(old(self).toks(), old(self)@, u64::MAX as nat),
                r,
                final(self)@,
            ),
            final(self).wf(),
            final(self).same_input(old(self)),
    {
        self.parse_comp_stmt_within(u64::MAX)
    }

    /// A conditional after its `if` or `elsif`.
    pub fn parse_if_then(&mut self) -> (r: Result<Node, ParseError>)
        requires
            old(self).wf(),
        ensures
            parsed_node(
                parse_if_then(old(self).toks(), old(self)@, u64::MAX as nat),
                r,
                final(self)@,
            ),
            final(self).wf(),
            final(self).same_input(old(self)),
    {
        self.parse_if_then_within(u64::MAX)
    }

    /// An expression.
    pub fn parse_expr(&mut self) -> (r: Result<Node, ParseError>)
        requires
            old(self).wf(),
        ensures
            parsed_node(
                parse_expr(old(self).toks(), old(self)@, u64::MAX as nat),
                r,
                final(self)@,
            ),
            final(self).wf(),
            final(self).same_input(old(self)),
    {
        self.parse_expr_within(u64::MAX)
    }
}

} // verus!
