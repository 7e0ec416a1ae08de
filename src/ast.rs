use vstd::prelude::*;

verus! {

broadcast use vstd::std_specs::vec::group_vec_axioms;

/// The mathematical shape of a syntax tree.
pub enum Ast {
    Add(Box<Ast>, Box<Ast>),
    Sub(Box<Ast>, Box<Ast>),
    Mul(Box<Ast>, Box<Ast>),
    Div(Box<Ast>, Box<Ast>),
    Num(i32),
    Eq(Box<Ast>, Box<Ast>),
    Ne(Box<Ast>, Box<Ast>),
    Lt(Box<Ast>, Box<Ast>),
    Le(Box<Ast>, Box<Ast>),
    ExprStmt(Box<Ast>),
    Assign(Box<Ast>, Box<Ast>),
    Var(Seq<char>),
    Return(Box<Ast>),
    Block(Seq<Ast>),
    If(Box<Ast>, Box<Ast>, Option<Box<Ast>>),
    For(Option<Box<Ast>>, Option<Box<Ast>>, Option<Box<Ast>>, Box<Ast>),
}

/// What a node is.
#[derive(Debug, PartialEq, Eq)]
pub enum NodeKind {
    Add,
    Sub,
    Mul,
    Div,
    Num(i32),
    Eq,
    Ne,
    Lt,
    Le,
    ExprStmt,
    Assign,
    Var(String),
    Return,
    Block(Vec<Node>),
    If { cond: Box<Node>, then: Box<Node>, els: Option<Box<Node>> },
    For {
        init: Option<Box<Node>>,
        cond: Option<Box<Node>>,
        inc: Option<Box<Node>>,
        then: Box<Node>,
    },
}

/// One node of a syntax tree: binary and unary shapes use `lhs` / `rhs`,
/// compound shapes carry their parts in `kind`.
#[derive(Debug, PartialEq, Eq)]
pub struct Node {
    pub kind: NodeKind,
    pub lhs: Option<Box<Node>>,
    pub rhs: Option<Box<Node>>,
}

pub open spec fn views_of(s: Seq<Node>) -> Seq<Ast>
    decreases s,
{
    if s.len() == 0 {
        Seq::empty()
    } else {
        views_of(s.drop_last()).push(node_view(s.last()))
    }
}

/// The tree that a node stands for.
pub open spec fn node_view(n: Node) -> Ast
    decreases n,
{
    let l = Box::new(
        match n.lhs {
            Some(c) => node_view(*c),
            None => Ast::Block(Seq::empty()),
        },
    );
    let r = Box::new(
        match n.rhs {
            Some(c) => node_view(*c),
            None => Ast::Block(Seq::empty()),
        },
    );
    match n.kind {
        NodeKind::Add => Ast::Add(l, r),
        NodeKind::Sub => Ast::Sub(l, r),
        NodeKind::Mul => Ast::Mul(l, r),
        NodeKind::Div => Ast::Div(l, r),
        NodeKind::Num(v) => Ast::Num(v),
        NodeKind::Eq => Ast::Eq(l, r),
        NodeKind::Ne => Ast::Ne(l, r),
        NodeKind::Lt => Ast::Lt(l, r),
        NodeKind::Le => Ast::Le(l, r),
        NodeKind::ExprStmt => Ast::ExprStmt(l),
        NodeKind::Assign => Ast::Assign(l, r),
        NodeKind::Var(name) => Ast::Var(name@),
        NodeKind::Return => Ast::Return(l),
        NodeKind::Block(v) => Ast::Block(views_of(v@)),
        NodeKind::If { cond, then, els } => Ast::If(
            Box::new(node_view(*cond)),
            Box::new(node_view(*then)),
            match els {
                Some(e) => Some(Box::new(node_view(*e))),
                None => None,
            },
        ),
        NodeKind::For { init, cond, inc, then } => Ast::For(
            match init {
                Some(e) => Some(Box::new(node_view(*e))),
                None => None,
            },
            match cond {
                Some(e) => Some(Box::new(node_view(*e))),
                None => None,
            },
            match inc {
                Some(e) => Some(Box::new(node_view(*e))),
                None => None,
            },
            Box::new(node_view(*then)),
        ),
    }
}

/// Every node of the list is well formed.
pub open spec fn nodes_wf(s: Seq<Node>) -> bool
    decreases s,
{
    s.len() == 0 || (nodes_wf(s.drop_last()) && node_wf(s.last()))
}

/// Each node has exactly the children its kind needs: both for binary
/// kinds, `lhs` alone for `ExprStmt` and `Return`, none for the others,
/// whose parts, if any, stand in the kind.
pub open spec fn node_wf(n: Node) -> bool
    decreases n,
{
    let lhs_wf = match n.lhs {
        Some(c) => node_wf(*c),
        None => false,
    };
    let rhs_wf = match n.rhs {
        Some(c) => node_wf(*c),
        None => false,
    };
    match n.kind {
        NodeKind::Add | NodeKind::Sub | NodeKind::Mul | NodeKind::Div | NodeKind::Eq | NodeKind::Ne
        | NodeKind::Lt | NodeKind::Le | NodeKind::Assign => lhs_wf && rhs_wf,
        NodeKind::ExprStmt | NodeKind::Return => lhs_wf && n.rhs is None,
        NodeKind::Num(_) | NodeKind::Var(_) => n.lhs is None && n.rhs is None,
        NodeKind::Block(v) => n.lhs is None && n.rhs is None && nodes_wf(v@),
        NodeKind::If { cond, then, els } => {
            &&& n.lhs is None
            &&& n.rhs is None
            &&& node_wf(*cond)
            &&& node_wf(*then)
            &&& match els {
                Some(e) => node_wf(*e),
                None => true,
            }
        },
        NodeKind::For { init, cond, inc, then } => {
            &&& n.lhs is None
            &&& n.rhs is None
            &&& match init {
                Some(e) => node_wf(*e),
                None => true,
            }
            &&& match cond {
                Some(e) => node_wf(*e),
                None => true,
            }
            &&& match inc {
                Some(e) => node_wf(*e),
                None => true,
            }
            &&& node_wf(*then)
        },
    }
}

impl View for Node {
    type V = Ast;

    open spec fn view(&self) -> Ast {
        node_view(*self)
    }
}

} // verus!
