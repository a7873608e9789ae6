//! The generic syntax tree that the parser produces, and its mathematical
//! model.
//!
//! `Node` is the executable tree: one variant per construct the grammar can
//! recognize, each composite node owning its children in source order.
//! `SpecNode` is the ghost mirror of `Node`, with `Seq<char>` for names and
//! `Seq<SpecNode>` for child lists; every contract in this crate speaks of
//! trees through `SpecNode`.

use vstd::prelude::*;

verus! {

broadcast use vstd::std_specs::vec::group_vec_axioms, vstd::seq::group_seq_axioms;

/// The kind of a literal: numeric (integer or real), string, or character.
#[derive(Clone, Copy, PartialEq, Eq, Structural, Debug)]
pub enum LitKind {
    Int,
    Real,
    Str,
    Chr,
}

/// A binary operator, in Ada's fixed precedence scheme.
#[derive(Clone, Copy, PartialEq, Eq, Structural, Debug)]
pub enum BinOp {
    And,
    Or,
    Xor,
    Eq,
    Ne,
    Lt,
    Le,
    Gt,
    Ge,
    Add,
    Sub,
    Concat,
    Mul,
    Div,
    Mod,
    Rem,
    Pow,
}

/// A unary operator.
#[derive(Clone, Copy, PartialEq, Eq, Structural, Debug)]
pub enum UnOp {
    Neg,
    Plus,
    Not,
    Abs,
}

/// The mode of a subprogram parameter.
#[derive(Clone, Copy, PartialEq, Eq, Structural, Debug)]
pub enum ParamMode {
    In,
    Out,
    InOut,
}

/// A node of the generic syntax tree.
///
/// Children are owned exclusively by their parent and kept in source order.
/// `Unit` is the explicit "no value" sentinel that the program entry point
/// returns on failure; a successful parse never places it inside a tree.
#[derive(PartialEq, Eq, Debug)]
pub enum Node {
    Unit,
    Ident { name: String },
    Lit { kind: LitKind, value: String },
    Binary { op: BinOp, left: Box<Node>, right: Box<Node> },
    Unary { op: UnOp, operand: Box<Node> },
    Call { name: String, args: Vec<Node> },
    Program { unit: Box<Node> },
    ObjectDecl { name: String, ty: String, constant: bool, init: Option<Box<Node>> },
    TypeDecl { name: String, lo: Box<Node>, hi: Box<Node> },
    Subprogram {
        name: String,
        params: Vec<Node>,
        return_type: Option<String>,
        decls: Vec<Node>,
        body: Vec<Node>,
    },
    Param { name: String, mode: ParamMode, ty: String },
    Package { name: String, decls: Vec<Node> },
    Assign { name: String, value: Box<Node> },
    IfStmt { cond: Box<Node>, then_branch: Vec<Node>, else_branch: Vec<Node> },
    WhileLoop { cond: Box<Node>, body: Vec<Node> },
    PlainLoop { body: Vec<Node> },
    ForLoop { var: String, reverse: bool, lo: Box<Node>, hi: Box<Node>, body: Vec<Node> },
    ReturnStmt { value: Option<Box<Node>> },
    NullStmt,
    Block { decls: Vec<Node>, body: Vec<Node> },
}

/// The ghost mirror of `Node`: names are `Seq<char>`, child lists are
/// `Seq<SpecNode>`.
pub enum SpecNode {
    Unit,
    Ident { name: Seq<char> },
    Lit { kind: LitKind, value: Seq<char> },
    Binary { op: BinOp, left: Box<SpecNode>, right: Box<SpecNode> },
    Unary { op: UnOp, operand: Box<SpecNode> },
    Call { name: Seq<char>, args: Seq<SpecNode> },
    Program { unit: Box<SpecNode> },
    ObjectDecl { name: Seq<char>, ty: Seq<char>, constant: bool, init: Option<Box<SpecNode>> },
    TypeDecl { name: Seq<char>, lo: Box<SpecNode>, hi: Box<SpecNode> },
    Subprogram {
        name: Seq<char>,
        params: Seq<SpecNode>,
        return_type: Option<Seq<char>>,
        decls: Seq<SpecNode>,
        body: Seq<SpecNode>,
    },
    Param { name: Seq<char>, mode: ParamMode, ty: Seq<char> },
    Package { name: Seq<char>, decls: Seq<SpecNode> },
    Assign { name: Seq<char>, value: Box<SpecNode> },
    IfStmt { cond: Box<SpecNode>, then_branch: Seq<SpecNode>, else_branch: Seq<SpecNode> },
    WhileLoop { cond: Box<SpecNode>, body: Seq<SpecNode> },
    PlainLoop { body: Seq<SpecNode> },
    ForLoop { var: Seq<char>, reverse: bool, lo: Box<SpecNode>, hi: Box<SpecNode>, body: Seq<SpecNode> },
    ReturnStmt { value: Option<Box<SpecNode>> },
    NullStmt,
    Block { decls: Seq<SpecNode>, body: Seq<SpecNode> },
}

impl Node {
    /// The mathematical model of this node.
    pub open spec fn model(&self) -> SpecNode
        decreases self,
    {
        match self {
            Node::Unit => SpecNode::Unit,
            Node::Ident { name } => SpecNode::Ident { name: name@ },
            Node::Lit { kind, value } => SpecNode::Lit { kind: *kind, value: value@ },
            Node::Binary { op, left, right } => SpecNode::Binary {
                op: *op,
                left: Box::new(left.model()),
                right: Box::new(right.model()),
            },
            Node::Unary { op, operand } => SpecNode::Unary {
                op: *op,
                operand: Box::new(operand.model()),
            },
            Node::Call { name, args } => SpecNode::Call {
                name: name@,
                args: models(args@),
            },
            Node::Program { unit } => SpecNode::Program { unit: Box::new(unit.model()) },
            Node::ObjectDecl { name, ty, constant, init } => SpecNode::ObjectDecl {
                name: name@,
                ty: ty@,
                constant: *constant,
                init: match init {
                    Some(e) => Some(Box::new(e.model())),
                    None => None,
                },
            },
            Node::TypeDecl { name, lo, hi } => SpecNode::TypeDecl {
                name: name@,
                lo: Box::new(lo.model()),
                hi: Box::new(hi.model()),
            },
            Node::Subprogram { name, params, return_type, decls, body } => SpecNode::Subprogram {
                name: name@,
                params: models(params@),
                return_type: match return_type {
                    Some(t) => Some(t@),
                    None => None,
                },
                decls: models(decls@),
                body: models(body@),
            },
            Node::Param { name, mode, ty } => SpecNode::Param {
                name: name@,
                mode: *mode,
                ty: ty@,
            },
            Node::Package { name, decls } => SpecNode::Package {
                name: name@,
                decls: models(decls@),
            },
            Node::Assign { name, value } => SpecNode::Assign {
                name: name@,
                value: Box::new(value.model()),
            },
            Node::IfStmt { cond, then_branch, else_branch } => SpecNode::IfStmt {
                cond: Box::new(cond.model()),
                then_branch: models(then_branch@),
                else_branch: models(else_branch@),
            },
            Node::WhileLoop { cond, body } => SpecNode::WhileLoop {
                cond: Box::new(cond.model()),
                body: models(body@),
            },
            Node::PlainLoop { body } => SpecNode::PlainLoop {
                body: models(body@),
            },
            Node::ForLoop { var, reverse, lo, hi, body } => SpecNode::ForLoop {
                var: var@,
                reverse: *reverse,
                lo: Box::new(lo.model()),
                hi: Box::new(hi.model()),
                body: models(body@),
            },
            Node::ReturnStmt { value } => SpecNode::ReturnStmt {
                value: match value {
                    Some(e) => Some(Box::new(e.model())),
                    None => None,
                },
            },
            Node::NullStmt => SpecNode::NullStmt,
            Node::Block { decls, body } => SpecNode::Block {
                decls: models(decls@),
                body: models(body@),
            },
        }
    }
}

impl View for Node {
    type V = SpecNode;

    open spec fn view(&self) -> SpecNode {
        self.model()
    }
}

/// The model of a list of nodes, element by element in order.
pub open spec fn models(ns: Seq<Node>) -> Seq<SpecNode>
    decreases ns,
{
    if ns.len() == 0 {
        Seq::empty()
    } else {
        seq![ns[0].model()] + models(ns.drop_first())
    }
}

/// `models` maps a list pointwise: it keeps the length and models each
/// element in place.
pub proof fn lemma_models_index(ns: Seq<Node>)
    ensures
        models(ns).len() == ns.len(),
        forall|i: int| 0 <= i < ns.len() ==> models(ns)[i] == #[trigger] ns[i].model(),
    decreases ns,
{
    if ns.len() > 0 {
        lemma_models_index(ns.drop_first());
        assert forall|i: int| 0 <= i < ns.len() implies models(ns)[i] == #[trigger] ns[i].model() by {
            if i > 0 {
                assert(ns.drop_first()[i - 1] == ns[i]);
            }
        }
    }
}

/// Appending one node to a list appends its model to the list's model.
pub proof fn lemma_models_push(ns: Seq<Node>, n: Node)
    ensures
        models(ns.push(n)) == models(ns).push(n.model()),
    decreases ns,
{
    lemma_models_index(ns);
    lemma_models_index(ns.push(n));
    assert forall|i: int| 0 <= i < ns.len() + 1 implies models(ns.push(n))[i] == models(ns).push(
        n.model(),
    )[i] by {
        assert(models(ns.push(n))[i] == ns.push(n)[i].model());
        if i < ns.len() {
            assert(ns.push(n)[i] == ns[i]);
            assert(models(ns)[i] == ns[i].model());
        } else {
            assert(ns.push(n)[i] == n);
        }
    }
    assert(models(ns.push(n)) =~= models(ns).push(n.model()));
}

} // verus!
