//! The meaning of each expression node, stated over the models of values
//! and trees.
use vstd::prelude::*;

use crate::ast::{Comparator, Expr};
use crate::errors::Failure;
use crate::functions::Function;
use crate::variable::{field_of, index_of, json_eq, kind_name, object_insert, truthy, Json};

verus! {

/// Each element of `a` that is an array contributes its elements, every other
/// element itself: one level of flattening.
pub open spec fn flatten_items(a: Seq<Json>) -> Seq<Json>
    decreases a.len(),
{
    if a.len() == 0 {
        a
    } else {
        match a.last() {
            Json::Array(inner) => flatten_items(a.drop_last()) + inner,
            other => flatten_items(a.drop_last()).push(other),
        }
    }
}

/// The values of an object's members, in member order; null for a non-object.
pub open spec fn values_of(v: Json) -> Json {
    match v {
        Json::Object(o) => Json::Array(Seq::new(o.len(), |i: int| o[i].1)),
        _ => Json::Null,
    }
}

/// The result of a comparison: a boolean, or null where the operator does
/// not apply to the operands (ordering applies to numbers only).
pub open spec fn compare_values(op: Comparator, a: Json, b: Json) -> Json {
    match op {
        Comparator::Equal => Json::Bool(json_eq(a, b)),
        Comparator::NotEqual => Json::Bool(!json_eq(a, b)),
        _ => match (a, b) {
            (Json::Number(x), Json::Number(y)) => Json::Bool(
                match op {
                    Comparator::LessThan => x < y,
                    Comparator::LessThanEqual => x <= y,
                    Comparator::GreaterThan => x > y,
                    _ => x >= y,
                },
            ),
            _ => Json::Null,
        },
    }
}

/// A provided slice endpoint brought into range: negative values count from
/// the end, then the result is clamped to the array for the direction of
/// `step`.
pub open spec fn adjust_endpoint(len: int, endpoint: int, step: int) -> int {
    if endpoint < 0 {
        if endpoint + len >= 0 {
            endpoint + len
        } else if step < 0 {
            -1
        } else {
            0
        }
    } else if endpoint < len {
        endpoint
    } else if step < 0 {
        len - 1
    } else {
        len
    }
}

/// Where a slice starts.
pub open spec fn slice_first(len: int, start: Option<int>, step: int) -> int {
    match start {
        Some(s) => adjust_endpoint(len, s, step),
        None => if step < 0 {
            len - 1
        } else {
            0
        },
    }
}

/// Where a slice stops (exclusive).
pub open spec fn slice_last(len: int, stop: Option<int>, step: int) -> int {
    match stop {
        Some(s) => adjust_endpoint(len, s, step),
        None => if step < 0 {
            -1
        } else {
            len
        },
    }
}

/// The elements of `a` at `i`, `i + step`, `i + 2 * step`, ... while the
/// index is below `stop` (a positive step).
pub open spec fn stride_up(a: Seq<Json>, i: int, stop: int, step: int) -> Seq<Json>
    decreases if i < stop {
        stop - i
    } else {
        0
    },
{
    if step > 0 && 0 <= i && i < a.len() && i < stop {
        Seq::empty().push(a[i]) + stride_up(a, i + step, stop, step)
    } else {
        Seq::empty()
    }
}

/// The elements of `a` at `i`, `i + step`, `i + 2 * step`, ... while the
/// index is above `stop` (a negative step).
pub open spec fn stride_down(a: Seq<Json>, i: int, stop: int, step: int) -> Seq<Json>
    decreases if i > stop {
        i - stop
    } else {
        0
    },
{
    if step < 0 && 0 <= i && i < a.len() && i > stop {
        Seq::empty().push(a[i]) + stride_down(a, i + step, stop, step)
    } else {
        Seq::empty()
    }
}

/// The stride through `a` from `i` towards `stop`.
pub open spec fn stride(a: Seq<Json>, i: int, stop: int, step: int) -> Seq<Json> {
    if step > 0 {
        stride_up(a, i, stop, step)
    } else {
        stride_down(a, i, stop, step)
    }
}

/// The slice `a[start:stop:step]`.
pub open spec fn slice_of(a: Seq<Json>, start: Option<int>, stop: Option<int>, step: int) -> Seq<
    Json,
> {
    if a.len() == 0 {
        a
    } else {
        stride(
            a,
            slice_first(a.len() as int, start, step),
            slice_last(a.len() as int, stop, step),
            step,
        )
    }
}

/// The result of evaluating `node` against `data`, given the registered
/// functions by name and the expression text.
pub open spec fn eval<F: Function>(
    data: Json,
    node: Expr,
    reg: Map<Seq<char>, F>,
    text: Seq<char>,
) -> Result<Json, Failure>
    decreases node, 0int,
{
    match node {
        Expr::Identity { .. } => Ok(data),
        Expr::Literal { value, .. } => Ok(value),
        Expr::Field { name, .. } => Ok(field_of(data, name)),
        Expr::Index { idx, .. } => Ok(index_of(data, idx)),
        Expr::Subexpr { lhs, rhs, .. } => match eval(data, *lhs, reg, text) {
            Ok(l) => eval(l, *rhs, reg, text),
            other => other,
        },
        Expr::Or { lhs, rhs, .. } => match eval(data, *lhs, reg, text) {
            Ok(l) => if truthy(l) {
                Ok(l)
            } else {
                eval(data, *rhs, reg, text)
            },
            other => other,
        },
        Expr::And { lhs, rhs, .. } => match eval(data, *lhs, reg, text) {
            Ok(l) => if !truthy(l) {
                Ok(l)
            } else {
                eval(data, *rhs, reg, text)
            },
            other => other,
        },
        Expr::Not { node, .. } => match eval(data, *node, reg, text) {
            Ok(v) => Ok(Json::Bool(!truthy(v))),
            other => other,
        },
        Expr::Condition { predicate, then, .. } => match eval(data, *predicate, reg, text) {
            Ok(c) => if truthy(c) {
                eval(data, *then, reg, text)
            } else {
                Ok(Json::Null)
            },
            other => other,
        },
        Expr::Comparison { comparator, lhs, rhs, .. } => match eval(data, *lhs, reg, text) {
            Ok(l) => match eval(data, *rhs, reg, text) {
                Ok(r) => Ok(compare_values(comparator, l, r)),
                other => other,
            },
            other => other,
        },
        Expr::ObjectValues { node, .. } => match eval(data, *node, reg, text) {
            Ok(v) => Ok(values_of(v)),
            other => other,
        },
        Expr::Projection { lhs, rhs, .. } => match eval(data, *lhs, reg, text) {
            Ok(Json::Array(items)) => match eval_projection(
                items,
                *rhs,
                reg,
                text,
                items.len() as int,
            ) {
                Ok(s) => Ok(Json::Array(s)),
                Err(e) => Err(e),
            },
            Ok(_) => Ok(Json::Null),
            other => other,
        },
        Expr::Flatten { node, .. } => match eval(data, *node, reg, text) {
            Ok(Json::Array(a)) => Ok(Json::Array(flatten_items(a))),
            Ok(_) => Ok(Json::Null),
            other => other,
        },
        Expr::MultiList { elements, .. } => if data == Json::Null {
            Ok(Json::Null)
        } else {
            match eval_list(data, elements, reg, text, elements.len() as int) {
                Ok(s) => Ok(Json::Array(s)),
                Err(e) => Err(e),
            }
        },
        Expr::MultiHash { offset, pairs } => if data == Json::Null {
            Ok(Json::Null)
        } else {
            match eval_pairs(data, pairs, reg, text, offset, pairs.len() as int) {
                Ok(o) => Ok(Json::Object(o)),
                Err(e) => Err(e),
            }
        },
        Expr::Function { offset, name, args } => match eval_list(
            data,
            args,
            reg,
            text,
            args.len() as int,
        ) {
            Ok(a) => if reg.contains_key(name) {
                reg[name].spec_evaluate(a)
            } else {
                Err(Failure::UnknownFunction { offset, expression: text, function: name })
            },
            Err(e) => Err(e),
        },
        Expr::Expref { ast, .. } => Ok(Json::Expref(ast)),
        Expr::Slice { offset, start, stop, step } => if step == 0 {
            Err(Failure::InvalidSlice { offset, expression: text })
        } else {
            match data {
                Json::Array(a) => Ok(Json::Array(slice_of(a, start, stop, step))),
                _ => Ok(Json::Null),
            }
        },
    }
}

/// The results of the first `n` of `nodes`, each evaluated against `data`,
/// left to right; the first failure ends the evaluation.
pub open spec fn eval_list<F: Function>(
    data: Json,
    nodes: Seq<Expr>,
    reg: Map<Seq<char>, F>,
    text: Seq<char>,
    n: int,
) -> Result<Seq<Json>, Failure>
    decreases nodes, n,
{
    if n <= 0 || n > nodes.len() {
        Ok(Seq::empty())
    } else {
        match eval_list(data, nodes, reg, text, n - 1) {
            Ok(prev) => match eval(data, nodes[n - 1], reg, text) {
                Ok(v) => Ok(prev.push(v)),
                Err(e) => Err(e),
            },
            other => other,
        }
    }
}

/// The non-null results of `rhs` on the first `n` of `items`, in order.
pub open spec fn eval_projection<F: Function>(
    items: Seq<Json>,
    rhs: Expr,
    reg: Map<Seq<char>, F>,
    text: Seq<char>,
    n: int,
) -> Result<Seq<Json>, Failure>
    decreases rhs, n,
{
    if n <= 0 || n > items.len() {
        Ok(Seq::empty())
    } else {
        match eval_projection(items, rhs, reg, text, n - 1) {
            Ok(prev) => match eval(items[n - 1], rhs, reg, text) {
                Ok(v) => if v == Json::Null {
                    Ok(prev)
                } else {
                    Ok(prev.push(v))
                },
                Err(e) => Err(e),
            },
            other => other,
        }
    }
}

/// The object built from the first `n` key and value expressions: each key
/// must be a string.
pub open spec fn eval_pairs<F: Function>(
    data: Json,
    pairs: Seq<(Expr, Expr)>,
    reg: Map<Seq<char>, F>,
    text: Seq<char>,
    offset: nat,
    n: int,
) -> Result<Seq<(Seq<char>, Json)>, Failure>
    decreases pairs, n,
{
    if n <= 0 || n > pairs.len() {
        Ok(Seq::empty())
    } else {
        match eval_pairs(data, pairs, reg, text, offset, n - 1) {
            Ok(prev) => match eval(data, pairs[n - 1].0, reg, text) {
                Ok(k) => match eval(data, pairs[n - 1].1, reg, text) {
                    Ok(v) => match k {
                        Json::Str(key) => Ok(object_insert(prev, key, v)),
                        _ => Err(
                            Failure::InvalidKey { offset, expression: text, actual: kind_name(k) },
                        ),
                    },
                    Err(e) => Err(e),
                },
                Err(e) => Err(e),
            },
            other => other,
        }
    }
}

/// Once a list evaluation has failed, the later nodes do not change its outcome.
pub proof fn lemma_list_settled<F: Function>(
    data: Json,
    nodes: Seq<Expr>,
    reg: Map<Seq<char>, F>,
    text: Seq<char>,
    n: int,
    m: int,
)
    requires
        0 <= n <= m <= nodes.len(),
        eval_list(data, nodes, reg, text, n) is Err,
    ensures
        eval_list(data, nodes, reg, text, m) == eval_list(data, nodes, reg, text, n),
    decreases m - n,
{
    if m > n {
        lemma_list_settled(data, nodes, reg, text, n, m - 1);
    }
}

/// Once a projection has failed, the later items do not change its outcome.
pub proof fn lemma_projection_settled<F: Function>(
    items: Seq<Json>,
    rhs: Expr,
    reg: Map<Seq<char>, F>,
    text: Seq<char>,
    n: int,
    m: int,
)
    requires
        0 <= n <= m <= items.len(),
        eval_projection(items, rhs, reg, text, n) is Err,
    ensures
        eval_projection(items, rhs, reg, text, m) == eval_projection(items, rhs, reg, text, n),
    decreases m - n,
{
    if m > n {
        lemma_projection_settled(items, rhs, reg, text, n, m - 1);
    }
}

/// Once building an object has failed, the later pairs do not change its outcome.
pub proof fn lemma_pairs_settled<F: Function>(
    data: Json,
    pairs: Seq<(Expr, Expr)>,
    reg: Map<Seq<char>, F>,
    text: Seq<char>,
    offset: nat,
    n: int,
    m: int,
)
    requires
        0 <= n <= m <= pairs.len(),
        eval_pairs(data, pairs, reg, text, offset, n) is Err,
    ensures
        eval_pairs(data, pairs, reg, text, offset, m) == eval_pairs(
            data,
            pairs,
            reg,
            text,
            offset,
            n,
        ),
    decreases m - n,
{
    if m > n {
        lemma_pairs_settled(data, pairs, reg, text, offset, n, m - 1);
    }
}

} // verus!
