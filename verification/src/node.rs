//! The syntax tree.

use crate::annot::{Annot, Loc};
use crate::util::IdentId;
use vstd::prelude::*;

verus! {

/// What a node of the syntax tree is. A decimal literal is held as the bit
/// pattern of its 64-bit IEEE 754 representation.
#[derive(Debug)]
pub enum NodeKind {
    Nil,
    SelfValue,
    Number(i64),
    DecimalNumber(u64),
    String(String),
    Add(Box<Node>, Box<Node>),
    Sub(Box<Node>, Box<Node>),
    Mul(Box<Node>, Box<Node>),
    Div(Box<Node>, Box<Node>),
    Assign(Box<Node>, Box<Node>),
    BinOp(BinOp, Box<Node>, Box<Node>),
    CompStmt(Vec<Node>),
    If(Box<Node>, Box<Node>, Box<Node>),
    Ident(IdentId),
    InstanceVar(IdentId),
    ClassVar(IdentId),
    GlobalIdent(IdentId),
    Const(IdentId),
    Param(IdentId),
    TableIdent(IdentId),
    FuncDecl(IdentId, Vec<Node>, Box<Node>),
    ClassDecl(IdentId, Box<Node>, Option<IdentId>),
    BlockDecl(Box<Node>),
    Send(Box<Node>, Box<Node>, Box<ParsedArgs>),
    Table(Box<Node>),
    Array(Vec<Node>),
    ArrayIndex(Box<Node>, i64),
}

#[derive(Debug, Clone, Copy, PartialEq, Eq, Structural)]
pub enum BinOp {
    Add,
    Sub,
    Mul,
    Div,
    Eq,
    Ne,
    GT,
    GE,
    LT,
    LE,
    LAnd,
    LOr,
}

pub type Node = Annot<NodeKind>;

pub type NodeVec = Vec<Node>;

/// The arguments of a method call: the block's parameter (`table`), the
/// block's body (`node`) and the positional arguments. Where the call has no
/// block, both `table` and `node` are the empty node.
#[derive(Debug)]
pub struct ParsedArgs {
    pub table: Node,
    pub node: Node,
    pub args: Vec<Node>,
}

impl ParsedArgs {
    pub fn new() -> (r: Self)
        ensures
            r.table.kind is Nil,
            r.table.loc == Loc(0, 0),
            r.node.kind is Nil,
            r.node.loc == Loc(0, 0),
            r.args@.len() == 0,
    {
        ParsedArgs { table: Node::new_none(), node: Node::new_none(), args: Vec::new() }
    }
}

impl Node {
    pub fn new_none() -> (r: Self)
        ensures
            r.kind is Nil,
            r.loc == Loc(0, 0),
    {
        Annot::new(NodeKind::Nil, Loc(0, 0))
    }

    pub fn new_number(num: i64, loc: Loc) -> (r: Self)
        ensures
            r.kind == NodeKind::Number(num),
            r.loc == loc,
    {
        Annot::new(NodeKind::Number(num), loc)
    }

    /// A decimal literal, given by its bit pattern.
    pub fn new_decimal_number(bits: u64, loc: Loc) -> (r: Self)
        ensures
            r.kind == NodeKind::DecimalNumber(bits),
            r.loc == loc,
    {
        Annot::new(NodeKind::DecimalNumber(bits), loc)
    }

    pub fn new_string(s: String, loc: Loc) -> (r: Self)
        ensures
            r.kind == NodeKind::String(s),
            r.loc == loc,
    {
        Annot::new(NodeKind::String(s), loc)
    }

    /// An empty sequence of statements.
    pub fn new_comp_stmt() -> (r: Self)
        ensures
            r.kind is CompStmt,
            r.kind->CompStmt_0@.len() == 0,
            r.loc == Loc(0, 0),
    {
        Annot::new(NodeKind::CompStmt(Vec::new()), Loc(0, 0))
    }

    pub fn new_binop(op: BinOp, lhs: Node, rhs: Node) -> (r: Self)
        ensures
            r.kind == NodeKind::BinOp(op, Box::new(lhs), Box::new(rhs)),
            r.loc == lhs.loc.merge_spec(rhs.loc),
    {
        let loc = lhs.loc().merge(rhs.loc());
        let kind = NodeKind::BinOp(op, Box::new(lhs), Box::new(rhs));
        Annot::new(kind, loc)
    }

    pub fn new_identifier(id: IdentId, loc: Loc) -> (r: Self)
        ensures
            r.kind == NodeKind::Ident(id),
            r.loc == loc,
    {
        Annot::new(NodeKind::Ident(id), loc)
    }

    pub fn new_table_identifier(id: IdentId, loc: Loc) -> (r: Self)
        ensures
            r.kind == NodeKind::TableIdent(id),
            r.loc == loc,
    {
        Annot::new(NodeKind::TableIdent(id), loc)
    }

    pub fn new_instance_var(id: IdentId, loc: Loc) -> (r: Self)
        ensures
            r.kind == NodeKind::InstanceVar(id),
            r.loc == loc,
    {
        Annot::new(NodeKind::InstanceVar(id), loc)
    }

    pub fn new_class_var(id: IdentId, loc: Loc) -> (r: Self)
        ensures
            r.kind == NodeKind::ClassVar(id),
            r.loc == loc,
    {
        Annot::new(NodeKind::ClassVar(id), loc)
    }

    pub fn new_global_identifier(id: IdentId, loc: Loc) -> (r: Self)
        ensures
            r.kind == NodeKind::GlobalIdent(id),
            r.loc == loc,
    {
        Annot::new(NodeKind::GlobalIdent(id), loc)
    }

    pub fn new_assign(lhs: Node, rhs: Node) -> (r: Self)
        ensures
            r.kind == NodeKind::Assign(Box::new(lhs), Box::new(rhs)),
            r.loc == lhs.loc.merge_spec(rhs.loc),
    {
        let loc = lhs.loc().merge(rhs.loc());
        Annot::new(NodeKind::Assign(Box::new(lhs), Box::new(rhs)), loc)
    }

    pub fn new_method_decl(id: IdentId, params: Vec<Node>, body: Node) -> (r: Self)
        ensures
            r.kind == NodeKind::FuncDecl(id, params, Box::new(body)),
            r.loc == body.loc,
    {
        let loc = body.loc();
        Annot::new(NodeKind::FuncDecl(id, params, Box::new(body)), loc)
    }

    /// A class declaration; `parent` names the class it inherits from.
    pub fn new_class_decl(id: IdentId, body: Node, parent: Option<IdentId>) -> (r: Self)
        ensures
            r.kind == NodeKind::ClassDecl(id, Box::new(body), parent),
            r.loc == body.loc,
    {
        let loc = body.loc();
        Annot::new(NodeKind::ClassDecl(id, Box::new(body), parent), loc)
    }

    pub fn new_block_decl(body: Node) -> (r: Self)
        ensures
            r.kind == NodeKind::BlockDecl(Box::new(body)),
            r.loc == body.loc,
    {
        let loc = body.loc();
        Annot::new(NodeKind::BlockDecl(Box::new(body)), loc)
    }

    pub fn new_const(id: IdentId, loc: Loc) -> (r: Self)
        ensures
            r.kind == NodeKind::Const(id),
            r.loc == loc,
    {
        Annot::new(NodeKind::Const(id), loc)
    }

    pub fn new_send(receiver: Node, method_name: Node, args: ParsedArgs, loc: Loc) -> (r: Self)
        ensures
            r.kind == NodeKind::Send(Box::new(receiver), Box::new(method_name), Box::new(args)),
            r.loc == loc,
    {
        Annot::new(
            NodeKind::Send(Box::new(receiver), Box::new(method_name), Box::new(args)),
            loc,
        )
    }

    /// An array literal.
    pub fn new_vec(contents: Vec<Node>, loc: Loc) -> (r: Self)
        ensures
            r.kind == NodeKind::Array(contents),
            r.loc == loc,
    {
        Annot::new(NodeKind::Array(contents), loc)
    }

    pub fn new_array_index(receiver: Node, num: i64, loc: Loc) -> (r: Self)
        ensures
            r.kind == NodeKind::ArrayIndex(Box::new(receiver), num),
            r.loc == loc,
    {
        Annot::new(NodeKind::ArrayIndex(Box::new(receiver), num), loc)
    }

    pub fn new_table(table: Node) -> (r: Self)
        ensures
            r.kind == NodeKind::Table(Box::new(table)),
            r.loc == table.loc,
    {
        let loc = table.loc();
        Annot::new(NodeKind::Table(Box::new(table)), loc)
    }

    /// The number of a number literal.
    pub fn pick_number(&self) -> (r: i64)
        requires
            self.kind is Number,
        ensures
            r == self.kind->Number_0,
    {
        match self.kind {
            NodeKind::Number(i) => i,
            _ => 0,
        }
    }
}

/// What a [`Node`] stands for: strings by their characters, lists by
/// their elements, identifiers by their numbers.
pub struct NodeView {
    pub kind: NodeKindView,
    pub loc: Loc,
}

pub enum NodeKindView {
    Nil,
    SelfValue,
    Number(i64),
    DecimalNumber(u64),
    String(Seq<char>),
    Add(Box<NodeView>, Box<NodeView>),
    Sub(Box<NodeView>, Box<NodeView>),
    Mul(Box<NodeView>, Box<NodeView>),
    Div(Box<NodeView>, Box<NodeView>),
    Assign(Box<NodeView>, Box<NodeView>),
    BinOp(BinOp, Box<NodeView>, Box<NodeView>),
    CompStmt(Seq<NodeView>),
    If(Box<NodeView>, Box<NodeView>, Box<NodeView>),
    Ident(usize),
    InstanceVar(usize),
    ClassVar(usize),
    GlobalIdent(usize),
    Const(usize),
    Param(usize),
    TableIdent(usize),
    FuncDecl(usize, Seq<NodeView>, Box<NodeView>),
    ClassDecl(usize, Box<NodeView>, Option<usize>),
    BlockDecl(Box<NodeView>),
    Send(Box<NodeView>, Box<NodeView>, Box<ParsedArgsView>),
    Table(Box<NodeView>),
    Array(Seq<NodeView>),
    ArrayIndex(Box<NodeView>, i64),
}

pub struct ParsedArgsView {
    pub table: NodeView,
    pub node: NodeView,
    pub args: Seq<NodeView>,
}

/// What a node stands for.
pub open spec fn node_view(node: Node) -> NodeView
    decreases node,
{
    NodeView {
        kind: match node.kind {
            NodeKind::Nil => NodeKindView::Nil,
            NodeKind::SelfValue => NodeKindView::SelfValue,
            NodeKind::Number(n) => NodeKindView::Number(n),
            NodeKind::DecimalNumber(bits) => NodeKindView::DecimalNumber(bits),
            NodeKind::String(s) => NodeKindView::String(s@),
            NodeKind::Add(a, b) => NodeKindView::Add(
                Box::new(node_view(*a)),
                Box::new(node_view(*b)),
            ),
            NodeKind::Sub(a, b) => NodeKindView::Sub(
                Box::new(node_view(*a)),
                Box::new(node_view(*b)),
            ),
            NodeKind::Mul(a, b) => NodeKindView::Mul(
                Box::new(node_view(*a)),
                Box::new(node_view(*b)),
            ),
            NodeKind::Div(a, b) => NodeKindView::Div(
                Box::new(node_view(*a)),
                Box::new(node_view(*b)),
            ),
            NodeKind::Assign(a, b) => NodeKindView::Assign(
                Box::new(node_view(*a)),
                Box::new(node_view(*b)),
            ),
            NodeKind::BinOp(op, a, b) => NodeKindView::BinOp(
                op,
                Box::new(node_view(*a)),
                Box::new(node_view(*b)),
            ),
            NodeKind::CompStmt(nodes) => NodeKindView::CompStmt(nodes_view(nodes@)),
            NodeKind::If(c, t, e) => NodeKindView::If(
                Box::new(node_view(*c)),
                Box::new(node_view(*t)),
                Box::new(node_view(*e)),
            ),
            NodeKind::Ident(id) => NodeKindView::Ident(id.0),
            NodeKind::InstanceVar(id) => NodeKindView::InstanceVar(id.0),
            NodeKind::ClassVar(id) => NodeKindView::ClassVar(id.0),
            NodeKind::GlobalIdent(id) => NodeKindView::GlobalIdent(id.0),
            NodeKind::Const(id) => NodeKindView::Const(id.0),
            NodeKind::Param(id) => NodeKindView::Param(id.0),
            NodeKind::TableIdent(id) => NodeKindView::TableIdent(id.0),
            NodeKind::FuncDecl(id, params, body) => NodeKindView::FuncDecl(
                id.0,
                nodes_view(params@),
                Box::new(node_view(*body)),
            ),
            NodeKind::ClassDecl(id, body, parent) => NodeKindView::ClassDecl(
                id.0,
                Box::new(node_view(*body)),
                match parent {
                    Some(p) => Some(p.0),
                    None => None,
                },
            ),
            NodeKind::BlockDecl(body) => NodeKindView::BlockDecl(Box::new(node_view(*body))),
            NodeKind::Send(receiver, method, args) => NodeKindView::Send(
                Box::new(node_view(*receiver)),
                Box::new(node_view(*method)),
                Box::new(
                    ParsedArgsView {
                        table: node_view(args.table),
                        node: node_view(args.node),
                        args: nodes_view(args.args@),
                    },
                ),
            ),
            NodeKind::Table(t) => NodeKindView::Table(Box::new(node_view(*t))),
            NodeKind::Array(nodes) => NodeKindView::Array(nodes_view(nodes@)),
            NodeKind::ArrayIndex(receiver, num) => NodeKindView::ArrayIndex(
                Box::new(node_view(*receiver)),
                num,
            ),
        },
        loc: node.loc,
    }
}

/// What each node of a sequence stands for.
pub open spec fn nodes_view(s: Seq<Node>) -> Seq<NodeView>
    decreases s,
{
    Seq::new(
        s.len(),
        |i: int|
            if 0 <= i < s.len() {
                node_view(s[i])
            } else {
                NodeView { kind: NodeKindView::Nil, loc: Loc(0, 0) }
            },
    )
}

/// What a bundle of arguments stands for.
pub open spec fn parsed_args_view(args: ParsedArgs) -> ParsedArgsView {
    ParsedArgsView {
        table: node_view(args.table),
        node: node_view(args.node),
        args: nodes_view(args.args@),
    }
}

/// A sequence of nodes stands for what its members stand for.
pub proof fn lemma_nodes_view(s: Seq<Node>)
    ensures
        nodes_view(s).len() == s.len(),
        forall|i: int| 0 <= i < s.len() ==> #[trigger] nodes_view(s)[i] == node_view(s[i]),
{
}

pub proof fn lemma_nodes_view_push(s: Seq<Node>, n: Node)
    ensures
        nodes_view(s.push(n)) == nodes_view(s).push(node_view(n)),
{
    lemma_nodes_view(s);
    lemma_nodes_view(s.push(n));
    assert(nodes_view(s.push(n)) =~= nodes_view(s).push(node_view(n)));
}

pub proof fn lemma_nodes_view_empty(s: Seq<Node>)
    requires
        s.len() == 0,
    ensures
        nodes_view(s) == Seq::<NodeView>::empty(),
{
    assert(nodes_view(s) =~= Seq::<NodeView>::empty());
}

} // verus!
