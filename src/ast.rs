use vstd::prelude::*;

use crate::variable::{model_of, Json, RcVar};

verus! {

broadcast use vstd::std_specs::vec::group_vec_axioms;

/// Comparison operators.
#[derive(Clone, Copy, Debug, PartialEq, Eq, Structural)]
pub enum Comparator {
    Equal,
    NotEqual,
    LessThan,
    LessThanEqual,
    GreaterThan,
    GreaterThanEqual,
}

/// The mathematical model of an `Ast`.
#[verifier::ext_equal]
pub enum Expr {
    Comparison { offset: nat, comparator: Comparator, lhs: Box<Expr>, rhs: Box<Expr> },
    Condition { offset: nat, predicate: Box<Expr>, then: Box<Expr> },
    Identity { offset: nat },
    Expref { offset: nat, ast: Box<Expr> },
    Flatten { offset: nat, node: Box<Expr> },
    Function { offset: nat, name: Seq<char>, args: Seq<Expr> },
    Field { offset: nat, name: Seq<char> },
    Index { offset: nat, idx: int },
    Literal { offset: nat, value: Json },
    MultiList { offset: nat, elements: Seq<Expr> },
    MultiHash { offset: nat, pairs: Seq<(Expr, Expr)> },
    Not { offset: nat, node: Box<Expr> },
    Projection { offset: nat, lhs: Box<Expr>, rhs: Box<Expr> },
    ObjectValues { offset: nat, node: Box<Expr> },
    And { offset: nat, lhs: Box<Expr>, rhs: Box<Expr> },
    Or { offset: nat, lhs: Box<Expr>, rhs: Box<Expr> },
    Slice { offset: nat, start: Option<int>, stop: Option<int>, step: int },
    Subexpr { offset: nat, lhs: Box<Expr>, rhs: Box<Expr> },
}

/// A key and value expression of a multi-select hash.
#[derive(Debug)]
pub struct KeyValuePair {
    pub key: Ast,
    pub value: Ast,
}

/// An already parsed query expression. Each node carries the byte offset of
/// its source text, used only for diagnostics.
#[derive(Debug)]
#[allow(inconsistent_fields)]
pub enum Ast {
    Comparison { offset: usize, comparator: Comparator, lhs: Box<Ast>, rhs: Box<Ast> },
    Condition { offset: usize, predicate: Box<Ast>, then: Box<Ast> },
    Identity { offset: usize },
    Expref { offset: usize, ast: Box<Ast> },
    Flatten { offset: usize, node: Box<Ast> },
    Function { offset: usize, name: String, args: Vec<Ast> },
    Field { offset: usize, name: String },
    Index { offset: usize, idx: i32 },
    Literal { offset: usize, value: RcVar },
    MultiList { offset: usize, elements: Vec<Ast> },
    MultiHash { offset: usize, elements: Vec<KeyValuePair> },
    Not { offset: usize, node: Box<Ast> },
    Projection { offset: usize, lhs: Box<Ast>, rhs: Box<Ast> },
    ObjectValues { offset: usize, node: Box<Ast> },
    And { offset: usize, lhs: Box<Ast>, rhs: Box<Ast> },
    Or { offset: usize, lhs: Box<Ast>, rhs: Box<Ast> },
    Slice { offset: usize, start: Option<i32>, stop: Option<i32>, step: i32 },
    Subexpr { offset: usize, lhs: Box<Ast>, rhs: Box<Ast> },
}

pub open spec fn opt_int(o: Option<i32>) -> Option<int> {
    match o {
        Some(x) => Some(x as int),
        None => None,
    }
}

/// The model of a tree.
pub open spec fn expr_of(a: &Ast) -> Expr
    decreases a,
{
    match a {
        Ast::Comparison { offset, comparator, lhs, rhs } => Expr::Comparison {
            offset: *offset as nat,
            comparator: *comparator,
            lhs: Box::new(expr_of(&**lhs)),
            rhs: Box::new(expr_of(&**rhs)),
        },
        Ast::Condition { offset, predicate, then } => Expr::Condition {
            offset: *offset as nat,
            predicate: Box::new(expr_of(&**predicate)),
            then: Box::new(expr_of(&**then)),
        },
        Ast::Identity { offset } => Expr::Identity { offset: *offset as nat },
        Ast::Expref { offset, ast } => Expr::Expref {
            offset: *offset as nat,
            ast: Box::new(expr_of(&**ast)),
        },
        Ast::Flatten { offset, node } => Expr::Flatten {
            offset: *offset as nat,
            node: Box::new(expr_of(&**node)),
        },
        Ast::Function { offset, name, args } => Expr::Function {
            offset: *offset as nat,
            name: name@,
            args: Seq::new(
                args@.len(),
                |i: int|
                    if 0 <= i < args@.len() {
                        expr_of(&args@[i])
                    } else {
                        Expr::Identity { offset: 0 }
                    },
            ),
        },
        Ast::Field { offset, name } => Expr::Field { offset: *offset as nat, name: name@ },
        Ast::Index { offset, idx } => Expr::Index { offset: *offset as nat, idx: *idx as int },
        Ast::Literal { offset, value } => Expr::Literal {
            offset: *offset as nat,
            value: model_of(&**value),
        },
        Ast::MultiList { offset, elements } => Expr::MultiList {
            offset: *offset as nat,
            elements: Seq::new(
                elements@.len(),
                |i: int|
                    if 0 <= i < elements@.len() {
                        expr_of(&elements@[i])
                    } else {
                        Expr::Identity { offset: 0 }
                    },
            ),
        },
        Ast::MultiHash { offset, elements } => Expr::MultiHash {
            offset: *offset as nat,
            pairs: Seq::new(
                elements@.len(),
                |i: int|
                    if 0 <= i < elements@.len() {
                        (expr_of(&elements@[i].key), expr_of(&elements@[i].value))
                    } else {
                        (Expr::Identity { offset: 0 }, Expr::Identity { offset: 0 })
                    },
            ),
        },
        Ast::Not { offset, node } => Expr::Not {
            offset: *offset as nat,
            node: Box::new(expr_of(&**node)),
        },
        Ast::Projection { offset, lhs, rhs } => Expr::Projection {
            offset: *offset as nat,
            lhs: Box::new(expr_of(&**lhs)),
            rhs: Box::new(expr_of(&**rhs)),
        },
        Ast::ObjectValues { offset, node } => Expr::ObjectValues {
            offset: *offset as nat,
            node: Box::new(expr_of(&**node)),
        },
        Ast::And { offset, lhs, rhs } => Expr::And {
            offset: *offset as nat,
            lhs: Box::new(expr_of(&**lhs)),
            rhs: Box::new(expr_of(&**rhs)),
        },
        Ast::Or { offset, lhs, rhs } => Expr::Or {
            offset: *offset as nat,
            lhs: Box::new(expr_of(&**lhs)),
            rhs: Box::new(expr_of(&**rhs)),
        },
        Ast::Slice { offset, start, stop, step } => Expr::Slice {
            offset: *offset as nat,
            start: opt_int(*start),
            stop: opt_int(*stop),
            step: *step as int,
        },
        Ast::Subexpr { offset, lhs, rhs } => Expr::Subexpr {
            offset: *offset as nat,
            lhs: Box::new(expr_of(&**lhs)),
            rhs: Box::new(expr_of(&**rhs)),
        },
    }
    }

impl View for Ast {
    type V = Expr;

    open spec fn view(&self) -> Expr {
        expr_of(self)
    }
}

impl Ast {
    /// The byte offset of the node's source text.
    pub open spec fn spec_offset(&self) -> usize {
        match self {
            Ast::Comparison { offset, .. } => *offset,
            Ast::Condition { offset, .. } => *offset,
            Ast::Identity { offset } => *offset,
            Ast::Expref { offset, .. } => *offset,
            Ast::Flatten { offset, .. } => *offset,
            Ast::Function { offset, .. } => *offset,
            Ast::Field { offset, .. } => *offset,
            Ast::Index { offset, .. } => *offset,
            Ast::Literal { offset, .. } => *offset,
            Ast::MultiList { offset, .. } => *offset,
            Ast::MultiHash { offset, .. } => *offset,
            Ast::Not { offset, .. } => *offset,
            Ast::Projection { offset, .. } => *offset,
            Ast::ObjectValues { offset, .. } => *offset,
            Ast::And { offset, .. } => *offset,
            Ast::Or { offset, .. } => *offset,
            Ast::Slice { offset, .. } => *offset,
            Ast::Subexpr { offset, .. } => *offset,
        }
    }
}

impl Ast {
    /// A copy of the tree with the same model.
    pub fn duplicate(&self) -> (r: Ast)
        ensures
            r@ == self@,
        decreases self,
    {
        match self {
            Ast::Comparison { offset, comparator, lhs, rhs } => Ast::Comparison {
                offset: *offset,
                comparator: *comparator,
                lhs: Box::new(lhs.duplicate()),
                rhs: Box::new(rhs.duplicate()),
            },
            Ast::Condition { offset, predicate, then } => Ast::Condition {
                offset: *offset,
                predicate: Box::new(predicate.duplicate()),
                then: Box::new(then.duplicate()),
            },
            Ast::Identity { offset } => Ast::Identity { offset: *offset },
            Ast::Expref { offset, ast } => Ast::Expref {
                offset: *offset,
                ast: Box::new(ast.duplicate()),
            },
            Ast::Flatten { offset, node } => Ast::Flatten {
                offset: *offset,
                node: Box::new(node.duplicate()),
            },
            Ast::Function { offset, name, args } => {
                let copied = duplicate_nodes(args);
                let r = Ast::Function { offset: *offset, name: name.clone(), args: copied };
                proof {
                    assert(r@->Function_args =~= self@->Function_args);
                }
                r
            },
            Ast::Field { offset, name } => Ast::Field { offset: *offset, name: name.clone() },
            Ast::Index { offset, idx } => Ast::Index { offset: *offset, idx: *idx },
            Ast::Literal { offset, value } => Ast::Literal { offset: *offset, value: value.clone() },
            Ast::MultiList { offset, elements } => {
                let copied = duplicate_nodes(elements);
                let r = Ast::MultiList { offset: *offset, elements: copied };
                proof {
                    assert(r@->MultiList_elements =~= self@->MultiList_elements);
                }
                r
            },
            Ast::MultiHash { offset, elements } => {
                let copied = duplicate_pairs(elements);
                let r = Ast::MultiHash { offset: *offset, elements: copied };
                proof {
                    assert(r@->MultiHash_pairs =~= self@->MultiHash_pairs);
                }
                r
            },
            Ast::Not { offset, node } => Ast::Not {
                offset: *offset,
                node: Box::new(node.duplicate()),
            },
            Ast::Projection { offset, lhs, rhs } => Ast::Projection {
                offset: *offset,
                lhs: Box::new(lhs.duplicate()),
                rhs: Box::new(rhs.duplicate()),
            },
            Ast::ObjectValues { offset, node } => Ast::ObjectValues {
                offset: *offset,
                node: Box::new(node.duplicate()),
            },
            Ast::And { offset, lhs, rhs } => Ast::And {
                offset: *offset,
                lhs: Box::new(lhs.duplicate()),
                rhs: Box::new(rhs.duplicate()),
            },
            Ast::Or { offset, lhs, rhs } => Ast::Or {
                offset: *offset,
                lhs: Box::new(lhs.duplicate()),
                rhs: Box::new(rhs.duplicate()),
            },
            Ast::Slice { offset, start, stop, step } => Ast::Slice {
                offset: *offset,
                start: *start,
                stop: *stop,
                step: *step,
            },
            Ast::Subexpr { offset, lhs, rhs } => Ast::Subexpr {
                offset: *offset,
                lhs: Box::new(lhs.duplicate()),
                rhs: Box::new(rhs.duplicate()),
            },
        }
    }
}

/// Copies each key and value expression, in order.
pub fn duplicate_pairs(v: &Vec<KeyValuePair>) -> (out: Vec<KeyValuePair>)
    ensures
        out@.len() == v@.len(),
        forall|j: int|
            0 <= j < v@.len() ==> (#[trigger] out@[j]).key@ == v@[j].key@ && out@[j].value@
                == v@[j].value@,
    decreases v,
{
    let mut out: Vec<KeyValuePair> = Vec::new();
    let mut i: usize = 0;
    while i < v.len()
        invariant
            i <= v@.len(),
            out@.len() == i,
            forall|j: int|
                0 <= j < i ==> (#[trigger] out@[j]).key@ == v@[j].key@ && out@[j].value@
                    == v@[j].value@,
        decreases v@.len() - i,
    {
        proof {
            assert(decreases_to!(v[i as int] => v[i as int].key));
            assert(decreases_to!(v[i as int] => v[i as int].value));
        }
        let key = v[i].key.duplicate();
        let value = v[i].value.duplicate();
        out.push(KeyValuePair { key, value });
        i = i + 1;
    }
    out
}

/// Copies each node of `v`, in order.
pub fn duplicate_nodes(v: &Vec<Ast>) -> (out: Vec<Ast>)
    ensures
        out@.len() == v@.len(),
        forall|j: int| 0 <= j < v@.len() ==> (#[trigger] out@[j])@ == v@[j]@,
    decreases v,
{
    let mut out: Vec<Ast> = Vec::new();
    let mut i: usize = 0;
    while i < v.len()
        invariant
            i <= v@.len(),
            out@.len() == i,
            forall|j: int| 0 <= j < i ==> (#[trigger] out@[j])@ == v@[j]@,
        decreases v@.len() - i,
    {
        out.push(v[i].duplicate());
        i = i + 1;
    }
    out
}

} // verus!
