//! Properties of evaluation, proved over the models.
use vstd::prelude::*;

use crate::ast::Expr;
use crate::errors::Failure;
use crate::functions::Function;
use crate::semantics::{
    eval, eval_list, eval_pairs, eval_projection, lemma_pairs_settled, slice_first, slice_last,
    slice_of, stride_down, stride_up,
};
use crate::variable::{keys_ascending, kind_name, lemma_object_insert_ascending, truthy, Json};

verus! {

/// Evaluating the identity node yields the input unchanged.
pub proof fn lemma_identity<F: Function>(v: Json, offset: nat, reg: Map<Seq<char>, F>, text: Seq<char>)
    ensures
        eval(v, Expr::Identity { offset }, reg, text) == Ok::<Json, Failure>(v),
{
}

/// A slice with a zero step always fails; any other step selects
/// `slice_of` from an array and yields null for anything else.
pub proof fn lemma_slice<F: Function>(
    v: Json,
    offset: nat,
    start: Option<int>,
    stop: Option<int>,
    step: int,
    reg: Map<Seq<char>, F>,
    text: Seq<char>,
)
    ensures
        ({
            let r = eval(v, Expr::Slice { offset, start, stop, step }, reg, text);
            if step == 0 {
                r == Err::<Json, Failure>(Failure::InvalidSlice { offset, expression: text })
            } else {
                match v {
                    Json::Array(a) => r ==
                        Ok::<Json, Failure>(Json::Array(slice_of(a, start, stop, step))),
                    _ => r == Ok::<Json, Failure>(Json::Null),
                }
            }
        }),
{
}

/// An upward stride holds `a[i + k * step]` at position `k`, every such
/// index lies in the array and before `stop`, and the next one does not.
pub proof fn lemma_stride_up(a: Seq<Json>, i: int, stop: int, step: int)
    requires
        step > 0,
    ensures
        ({
            let s = stride_up(a, i, stop, step);
            &&& forall|k: int|
                0 <= k < s.len() ==> 0 <= #[trigger] (i + k * step) < a.len() && i + k * step
                    < stop && s[k] == a[i + k * step]
            &&& !(0 <= i + s.len() * step < a.len() && i + s.len() * step < stop)
        }),
    decreases (if i < stop {
        stop - i
    } else {
        0
    }),
{
    if 0 <= i < a.len() && i < stop {
        lemma_stride_up(a, i + step, stop, step);
        let s = stride_up(a, i, stop, step);
        let rest = stride_up(a, i + step, stop, step);
        assert forall|k: int| 0 <= k < s.len() implies 0 <= #[trigger] (i + k * step) < a.len()
            && i + k * step < stop && s[k] == a[i + k * step] by {
            if k > 0 {
                assert(i + k * step == (i + step) + (k - 1) * step) by (nonlinear_arith);
                assert(s[k] == rest[k - 1]);
            }
        }
        assert(i + s.len() * step == (i + step) + rest.len() * step) by (nonlinear_arith)
            requires
                s.len() == rest.len() + 1,
        ;
    }
}

/// A downward stride holds `a[i + k * step]` at position `k`, every such
/// index lies in the array and after `stop`, and the next one does not.
pub proof fn lemma_stride_down(a: Seq<Json>, i: int, stop: int, step: int)
    requires
        step < 0,
    ensures
        ({
            let s = stride_down(a, i, stop, step);
            &&& forall|k: int|
                0 <= k < s.len() ==> 0 <= #[trigger] (i + k * step) < a.len() && i + k * step
                    > stop && s[k] == a[i + k * step]
            &&& !(0 <= i + s.len() * step < a.len() && i + s.len() * step > stop)
        }),
    decreases (if i > stop {
        i - stop
    } else {
        0
    }),
{
    if 0 <= i < a.len() && i > stop {
        lemma_stride_down(a, i + step, stop, step);
        let s = stride_down(a, i, stop, step);
        let rest = stride_down(a, i + step, stop, step);
        assert forall|k: int| 0 <= k < s.len() implies 0 <= #[trigger] (i + k * step) < a.len()
            && i + k * step > stop && s[k] == a[i + k * step] by {
            if k > 0 {
                assert(i + k * step == (i + step) + (k - 1) * step) by (nonlinear_arith);
                assert(s[k] == rest[k - 1]);
            }
        }
        assert(i + s.len() * step == (i + step) + rest.len() * step) by (nonlinear_arith)
            requires
                s.len() == rest.len() + 1,
        ;
    }
}

/// A slice of a non-empty array holds `a[first + k * step]` at position
/// `k`, for the endpoints `slice_first` and `slice_last`; every such index
/// lies in the array and strictly before the stop in the step's direction,
/// and the next one does not.
pub proof fn lemma_slice_elements(a: Seq<Json>, start: Option<int>, stop: Option<int>, step: int)
    requires
        step != 0,
        a.len() > 0,
    ensures
        ({
            let s = slice_of(a, start, stop, step);
            let first = slice_first(a.len() as int, start, step);
            let last = slice_last(a.len() as int, stop, step);
            &&& forall|k: int|
                0 <= k < s.len() ==> 0 <= #[trigger] (first + k * step) < a.len() && (if step > 0 {
                    first + k * step < last
                } else {
                    first + k * step > last
                }) && s[k] == a[first + k * step]
            &&& !(0 <= first + s.len() * step < a.len() && (if step > 0 {
                first + s.len() * step < last
            } else {
                first + s.len() * step > last
            }))
        }),
{
    let first = slice_first(a.len() as int, start, step);
    let last = slice_last(a.len() as int, stop, step);
    if step > 0 {
        lemma_stride_up(a, first, last, step);
    } else {
        lemma_stride_down(a, first, last, step);
    }
}

/// Index -1 yields the last element of a non-empty array and null for an
/// empty one.
pub proof fn lemma_last_index<F: Function>(a: Seq<Json>, offset: nat, reg: Map<Seq<char>, F>, text: Seq<char>)
    ensures
        eval(Json::Array(a), Expr::Index { offset, idx: -1 }, reg, text) ==
            Ok::<Json, Failure>(
                if a.len() > 0 {
                    a.last()
                } else {
                    Json::Null
                },
            ),
{
}

/// The elements of `s` that are not null, in order.
pub open spec fn non_null(s: Seq<Json>) -> Seq<Json> {
    s.filter(|x: Json| x != Json::Null)
}

proof fn lemma_projection_prefix<F: Function>(
    items: Seq<Json>,
    rhs: Expr,
    reg: Map<Seq<char>, F>,
    text: Seq<char>,
    results: Seq<Json>,
    n: int,
)
    requires
        results.len() == items.len(),
        0 <= n <= items.len(),
        forall|i: int|
            0 <= i < items.len() ==> eval(#[trigger] items[i], rhs, reg, text) ==
                Ok::<Json, Failure>(results[i]),
    ensures
        eval_projection(items, rhs, reg, text, n) ==
            Ok::<Seq<Json>, Failure>(non_null(results.take(n))),
    decreases n,
{
    reveal(Seq::filter);
    if n > 0 {
        lemma_projection_prefix(items, rhs, reg, text, results, n - 1);
        let t = results.take(n);
        let prev = non_null(results.take(n - 1));
        assert(t.drop_last() =~= results.take(n - 1));
        assert(t.last() == results[n - 1]);
        assert(eval(items[n - 1], rhs, reg, text) == Ok::<Json, Failure>(results[n - 1]));
        assert(non_null(t) == if results[n - 1] != Json::Null {
            prev.push(results[n - 1])
        } else {
            prev
        });
    } else {
        assert(non_null(results.take(0)) =~= Seq::empty());
    }
}

/// Where `rhs` evaluates on every element of the array that `lhs` yields,
/// a projection keeps exactly the non-null results, in order.
pub proof fn lemma_projection_drops_nulls<F: Function>(
    data: Json,
    offset: nat,
    lhs: Expr,
    rhs: Expr,
    reg: Map<Seq<char>, F>,
    text: Seq<char>,
    items: Seq<Json>,
    results: Seq<Json>,
)
    requires
        eval(data, lhs, reg, text) == Ok::<Json, Failure>(Json::Array(items)),
        results.len() == items.len(),
        forall|i: int|
            0 <= i < items.len() ==> eval(#[trigger] items[i], rhs, reg, text) ==
                Ok::<Json, Failure>(results[i]),
    ensures
        eval(
            data,
            Expr::Projection { offset, lhs: Box::new(lhs), rhs: Box::new(rhs) },
            reg,
            text,
        ) == Ok::<Json, Failure>(Json::Array(non_null(results))),
{
    lemma_projection_prefix(items, rhs, reg, text, results, items.len() as int);
    assert(results.take(items.len() as int) =~= results);
}

/// Every number is true; null, false, the empty string, the empty array and
/// the empty object are false.
pub proof fn lemma_truthiness(n: int)
    ensures
        truthy(Json::Number(n)),
        !truthy(Json::Null),
        !truthy(Json::Bool(false)),
        !truthy(Json::Str(Seq::empty())),
        !truthy(Json::Array(Seq::empty())),
        !truthy(Json::Object(Seq::empty())),
{
}

/// `Or` with a true left side and `And` with a false one yield the left
/// side, whatever the right side would do; otherwise they yield the right
/// side evaluated against the same input.
pub proof fn lemma_short_circuit<F: Function>(
    data: Json,
    offset: nat,
    lhs: Expr,
    rhs: Expr,
    reg: Map<Seq<char>, F>,
    text: Seq<char>,
    v: Json,
)
    requires
        eval(data, lhs, reg, text) == Ok::<Json, Failure>(v),
    ensures
        truthy(v) ==> eval(
            data,
            Expr::Or { offset, lhs: Box::new(lhs), rhs: Box::new(rhs) },
            reg,
            text,
        ) == Ok::<Json, Failure>(v),
        !truthy(v) ==> eval(
            data,
            Expr::And { offset, lhs: Box::new(lhs), rhs: Box::new(rhs) },
            reg,
            text,
        ) == Ok::<Json, Failure>(v),
        !truthy(v) ==> eval(
            data,
            Expr::Or { offset, lhs: Box::new(lhs), rhs: Box::new(rhs) },
            reg,
            text,
        ) == eval(data, rhs, reg, text),
        truthy(v) ==> eval(
            data,
            Expr::And { offset, lhs: Box::new(lhs), rhs: Box::new(rhs) },
            reg,
            text,
        ) == eval(data, rhs, reg, text),
{
}

/// A multi-select hash whose first key evaluates to a non-string fails with
/// an invalid key, whatever its value is.
pub proof fn lemma_invalid_key<F: Function>(
    data: Json,
    offset: nat,
    pairs: Seq<(Expr, Expr)>,
    reg: Map<Seq<char>, F>,
    text: Seq<char>,
    k: Json,
    v: Json,
)
    requires
        data != Json::Null,
        pairs.len() >= 1,
        eval(data, pairs[0].0, reg, text) == Ok::<Json, Failure>(k),
        !(k is Str),
        eval(data, pairs[0].1, reg, text) == Ok::<Json, Failure>(v),
    ensures
        eval(data, Expr::MultiHash { offset, pairs }, reg, text) ==
            Err::<Json, Failure>(Failure::InvalidKey { offset, expression: text, actual: kind_name(k) }),
{
    assert(eval_pairs(data, pairs, reg, text, offset, 0) ==
        Ok::<Seq<(Seq<char>, Json)>, Failure>(Seq::empty()));
    lemma_pairs_settled(data, pairs, reg, text, offset, 1, pairs.len() as int);
}

/// Calling a name that is not registered fails with an unknown function
/// error at the call's offset.
pub proof fn lemma_unknown_function<F: Function>(
    data: Json,
    offset: nat,
    name: Seq<char>,
    reg: Map<Seq<char>, F>,
    text: Seq<char>,
)
    requires
        !reg.contains_key(name),
    ensures
        eval(data, Expr::Function { offset, name, args: Seq::empty() }, reg, text) ==
            Err::<Json, Failure>(Failure::UnknownFunction { offset, expression: text, function: name }),
{
    assert(eval_list(data, Seq::empty(), reg, text, 0) ==
        Ok::<Seq<Json>, Failure>(Seq::empty()));
}

proof fn lemma_pairs_ascending<F: Function>(
    data: Json,
    pairs: Seq<(Expr, Expr)>,
    reg: Map<Seq<char>, F>,
    text: Seq<char>,
    offset: nat,
    n: int,
)
    ensures
        eval_pairs(data, pairs, reg, text, offset, n) matches Ok(o) ==> keys_ascending(o),
    decreases n,
{
    if 0 < n <= pairs.len() {
        lemma_pairs_ascending(data, pairs, reg, text, offset, n - 1);
        if let Ok(prev) = eval_pairs(data, pairs, reg, text, offset, n - 1) {
            if let Ok(Json::Str(key)) = eval(data, pairs[n - 1].0, reg, text) {
                if let Ok(v) = eval(data, pairs[n - 1].1, reg, text) {
                    lemma_object_insert_ascending(prev, key, v);
                }
            }
        }
    }
}

/// A multi-select hash builds an object whose keys are strictly ascending.
pub proof fn lemma_multi_hash_ascending<F: Function>(
    data: Json,
    offset: nat,
    pairs: Seq<(Expr, Expr)>,
    reg: Map<Seq<char>, F>,
    text: Seq<char>,
)
    ensures
        eval(data, Expr::MultiHash { offset, pairs }, reg, text) matches Ok(Json::Object(o))
            ==> keys_ascending(o),
{
    lemma_pairs_ascending(data, pairs, reg, text, offset, pairs.len() as int);
}

} // verus!
