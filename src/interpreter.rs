use vstd::prelude::*;
use vstd::string::StringSliceAdditionalSpecFns;

use crate::ast::{opt_int, Ast, Comparator, Expr, KeyValuePair};
use crate::errors::{Failure, RuntimeError};
use crate::functions::{builtin_map, register_core_functions, Builtins, Function, Functions};
use crate::semantics::{
    adjust_endpoint, compare_values, eval, eval_list, eval_pairs, eval_projection, flatten_items,
    lemma_list_settled, lemma_pairs_settled, lemma_projection_settled, slice_of, stride,
    stride_down, stride_up, values_of,
};
use crate::variable::{
    get_field, get_index, insert_member, lemma_composite_view, member_views, views, Json, RcVar,
    Variable, VariableAllocator,
};

verus! {

broadcast use vstd::std_specs::vec::group_vec_axioms;

pub type SearchResult = Result<RcVar, RuntimeError>;

/// The model of a search result.
pub open spec fn outcome(r: SearchResult) -> Result<Json, Failure> {
    match r {
        Ok(v) => Ok(v@),
        Err(e) => Err(e@),
    }
}

/// Whether `r` is what `expected` says.
pub open spec fn list_agrees(
    expected: Result<Seq<Json>, Failure>,
    r: Result<Vec<RcVar>, RuntimeError>,
) -> bool {
    match expected {
        Ok(s) => r is Ok && views(r->Ok_0@) == s,
        Err(e) => r is Err && r->Err_0@ == e,
    }
}

/// The models of a sequence of trees.
pub open spec fn node_views(s: Seq<Ast>) -> Seq<Expr> {
    Seq::new(s.len(), |i: int| s[i]@)
}

/// The models of a sequence of key and value expressions.
pub open spec fn pair_views(s: Seq<KeyValuePair>) -> Seq<(Expr, Expr)> {
    Seq::new(s.len(), |i: int| (s[i].key@, s[i].value@))
}

/// The state threaded through one evaluation, used for error reporting.
pub struct Context<'a, F> {
    /// The interpreter, for functions that evaluate expressions themselves.
    pub interpreter: &'a TreeInterpreter<F>,
    /// The text of the expression being evaluated.
    pub expression: &'a str,
    /// The byte offset of the node being evaluated.
    pub offset: usize,
}

impl<'a, F> Context<'a, F> {
    /// The line and column of the current offset.
    pub fn create_coordinates(&self) -> (r: Coordinates)
        ensures
            r == coordinates_of(self.expression, self.offset),
    {
        Coordinates::from_offset(self.expression, self.offset)
    }

    /// A context at offset zero.
    pub fn new(expression: &'a str, interpreter: &'a TreeInterpreter<F>) -> (r: Self)
        ensures
            r.expression == expression,
            r.interpreter == interpreter,
            r.offset == 0,
    {
        Context { interpreter, expression, offset: 0 }
    }
}

/// Evaluates expression trees against values.
pub struct TreeInterpreter<F> {
    /// Makes the values that evaluation produces.
    pub allocator: VariableAllocator,
    /// The functions that expressions may call.
    pub functions: Functions<F>,
}

/// A position in an expression's text.
#[derive(Debug)]
pub struct Coordinates {
    /// Byte offset.
    pub offset: usize,
    /// Line, counted from zero.
    pub line: usize,
    /// Byte offset within the line.
    pub column: usize,
}

/// The number of line feeds among the first `n` bytes of `b`.
pub open spec fn lines_before(b: Seq<u8>, n: int) -> nat
    decreases n,
{
    if n <= 0 || n > b.len() {
        0
    } else {
        lines_before(b, n - 1) + if b[n - 1] == 10 {
            1nat
        } else {
            0nat
        }
    }
}

/// Where the line holding position `n` of `b` starts.
pub open spec fn line_start(b: Seq<u8>, n: int) -> int
    decreases n,
{
    if n <= 0 || n > b.len() {
        0
    } else if b[n - 1] == 10 {
        n
    } else {
        line_start(b, n - 1)
    }
}

/// The line and column of byte `offset` of `expression`; an offset past the
/// end counts from the start of the last line.
pub open spec fn coordinates_of(expression: &str, offset: usize) -> Coordinates {
    let b = expression.spec_bytes();
    let n = if offset <= b.len() {
        offset as int
    } else {
        b.len() as int
    };
    Coordinates {
        offset,
        line: lines_before(b, n) as usize,
        column: (offset - line_start(b, n)) as usize,
    }
}

impl Coordinates {
    /// The line and column of byte `offset` of `expression`; an offset past
    /// the end counts from the start of the last line.
    pub fn from_offset(expression: &str, offset: usize) -> (r: Coordinates)
        ensures
            r == coordinates_of(expression, offset),
    {
        let b = expression.as_bytes();
        let n: usize = if offset <= b.len() {
            offset
        } else {
            b.len()
        };
        let mut line: usize = 0;
        let mut start: usize = 0;
        let mut i: usize = 0;
        while i < n
            invariant
                n <= b@.len(),
                i <= n,
                line == lines_before(b@, i as int),
                start == line_start(b@, i as int),
                line <= i,
                start <= i,
            decreases n - i,
        {
            if b[i] == 10 {
                line = line + 1;
                start = i + 1;
            }
            i = i + 1;
        }
        Coordinates { offset, line, column: offset - start }
    }
}

/// Brings a provided slice endpoint into range.
pub fn adjust_slice_endpoint(len: i128, endpoint: i32, step: i32) -> (r: i128)
    requires
        0 <= len <= usize::MAX,
    ensures
        r == adjust_endpoint(len as int, endpoint as int, step as int),
{
    let e = endpoint as i128;
    if e < 0 {
        if e + len >= 0 {
            e + len
        } else if step < 0 {
            -1
        } else {
            0
        }
    } else if e < len {
        e
    } else if step < 0 {
        len - 1
    } else {
        len
    }
}

/// The elements of `array` selected by `start:stop:step`.
pub fn slice(array: &Vec<RcVar>, start: Option<i32>, stop: Option<i32>, step: i32) -> (r: Vec<
    RcVar,
>)
    requires
        step != 0,
    ensures
        views(r@) == slice_of(views(array@), opt_int(start), opt_int(stop), step as int),
{
    let mut result: Vec<RcVar> = Vec::new();
    let len = array.len() as i128;
    if len == 0 {
        assert(views(result@) =~= views(array@));
        return result;
    }
    let first: i128 = match start {
        Some(s) => adjust_slice_endpoint(len, s, step),
        None => if step < 0 {
            len - 1
        } else {
            0
        },
    };
    let last: i128 = match stop {
        Some(s) => adjust_slice_endpoint(len, s, step),
        None => if step < 0 {
            -1
        } else {
            len
        },
    };
    let ghost s = views(array@);
    let ghost full = stride(s, first as int, last as int, step as int);
    let mut i: i128 = first;
    if step > 0 {
        assert(views(result@) + stride_up(s, i as int, last as int, step as int) =~= full);
        while i < last
            invariant
                step > 0,
                len == array@.len(),
                len <= usize::MAX,
                s == views(array@),
                0 <= first <= i,
                last <= len,
                i <= len + step,
                views(result@) + stride_up(s, i as int, last as int, step as int) == full,
            decreases if i < last {
                last - i
            } else {
                0
            },
        {
            let ghost before = views(result@);
            let x = array[i as usize].clone();
            assert(x@ == s[i as int]);
            result.push(x);
            assert(views(result@) =~= before.push(s[i as int]));
            assert(views(result@) + stride_up(s, i + step, last as int, step as int) =~= before
                + stride_up(s, i as int, last as int, step as int));
            i = i + step as i128;
        }
    } else {
        assert(views(result@) + stride_down(s, i as int, last as int, step as int) =~= full);
        while i > last
            invariant
                step < 0,
                len == array@.len(),
                len <= usize::MAX,
                s == views(array@),
                i <= first <= len - 1,
                -1 <= last,
                i >= -1 + step,
                views(result@) + stride_down(s, i as int, last as int, step as int) == full,
            decreases if i > last {
                i - last
            } else {
                0
            },
        {
            let ghost before = views(result@);
            let x = array[i as usize].clone();
            assert(x@ == s[i as int]);
            result.push(x);
            assert(views(result@) =~= before.push(s[i as int]));
            assert(views(result@) + stride_down(s, i + step, last as int, step as int) =~= before
                + stride_down(s, i as int, last as int, step as int));
            i = i + step as i128;
        }
    }
    assert(views(result@) =~= full);
    result
}

/// One level of flattening: array elements contribute their elements.
fn flatten(items: &Vec<RcVar>) -> (r: Vec<RcVar>)
    ensures
        views(r@) == flatten_items(views(items@)),
{
    let ghost s = views(items@);
    let mut out: Vec<RcVar> = Vec::new();
    let mut i: usize = 0;
    assert(s.take(0) =~= Seq::<Json>::empty());
    while i < items.len()
        invariant
            i <= items@.len(),
            s == views(items@),
            views(out@) == flatten_items(s.take(i as int)),
        decreases items@.len() - i,
    {
        assert(s.take(i + 1).drop_last() =~= s.take(i as int));
        proof {
            lemma_composite_view(&*items@[i as int]);
        }
        let ghost before = views(out@);
        let element: &Variable = &items[i];
        match element {
            Variable::Array(inner) => {
                let mut j: usize = 0;
                while j < inner.len()
                    invariant
                        j <= inner@.len(),
                        views(out@) == before + views(inner@).take(j as int),
                    decreases inner@.len() - j,
                {
                    let ghost prev = views(out@);
                    out.push(inner[j].clone());
                    assert(views(out@) =~= prev.push(inner@[j as int]@));
                    assert(views(inner@).take(j + 1) =~= views(inner@).take(j as int).push(
                        inner@[j as int]@,
                    ));
                    assert(views(out@) =~= before + views(inner@).take(j + 1));
                    j = j + 1;
                }
                assert(views(inner@).take(inner@.len() as int) =~= views(inner@));
            },
            _ => {
                out.push(items[i].clone());
                assert(views(out@) =~= before.push(items@[i as int]@));
            },
        }
        i = i + 1;
    }
    assert(s.take(items@.len() as int) =~= s);
    out
}

/// The values of an object's members, in order.
fn member_values(members: &Vec<(String, RcVar)>) -> (r: Vec<RcVar>)
    ensures
        Json::Array(views(r@)) == values_of(Json::Object(member_views(members@))),
{
    let ghost m = member_views(members@);
    let mut out: Vec<RcVar> = Vec::new();
    let mut i: usize = 0;
    while i < members.len()
        invariant
            i <= members@.len(),
            m == member_views(members@),
            views(out@) =~= Seq::new(i as nat, |j: int| m[j].1),
        decreases members@.len() - i,
    {
        let ghost before = views(out@);
        out.push(members[i].1.clone());
        assert(m[i as int].1 == members@[i as int].1@);
        assert(views(out@) =~= before.push(m[i as int].1));
        i = i + 1;
    }
    assert(views(out@) =~= Seq::new(m.len(), |j: int| m[j].1));
    out
}

/// Applies a comparison operator: a boolean, or `None` where the operator
/// does not apply to the operands.
fn compare(op: Comparator, a: &Variable, b: &Variable) -> (r: Option<bool>)
    ensures
        match r {
            Some(x) => Json::Bool(x),
            None => Json::Null,
        } == compare_values(op, a@, b@),
{
    match op {
        Comparator::Equal => Some(a.equals(b)),
        Comparator::NotEqual => Some(!a.equals(b)),
        _ => match (a, b) {
            (Variable::Number(x), Variable::Number(y)) => Some(
                match op {
                    Comparator::LessThan => *x < *y,
                    Comparator::LessThanEqual => *x <= *y,
                    Comparator::GreaterThan => *x > *y,
                    _ => *x >= *y,
                },
            ),
            _ => None,
        },
    }
}

impl<F: Builtins> TreeInterpreter<F> {
    /// An interpreter with the built-in functions.
    pub fn new() -> (r: Self)
        ensures
            r.wf(),
            r.registry() == builtin_map::<F>(),
    {
        let mut functions = Functions::new();
        register_core_functions(&mut functions);
        proof {
            assert(functions@ =~= builtin_map::<F>());
        }
        Self::with_functions(functions)
    }
}

impl<F> TreeInterpreter<F> {
    pub open spec fn wf(&self) -> bool {
        self.functions.wf() && self.allocator.wf()
    }

    /// The registered functions by name.
    pub open spec fn registry(&self) -> Map<Seq<char>, F> {
        self.functions@
    }

    /// An interpreter with the given functions.
    pub fn with_functions(functions: Functions<F>) -> (r: Self)
        requires
            functions.wf(),
        ensures
            r.wf(),
            r.registry() == functions@,
    {
        TreeInterpreter { allocator: VariableAllocator::new(), functions }
    }
}

impl<F: Function> TreeInterpreter<F> {
    /// Evaluates `node` against `data`: the outcome is `eval`'s over the
    /// registered functions.
    pub fn interpret(&self, data: &RcVar, node: &Ast, ctx: &mut Context<F>) -> (r: SearchResult)
        requires
            self.wf(),
        ensures
            outcome(r) == eval(data@, node@, self.registry(), old(ctx).expression@),
            final(ctx).expression == old(ctx).expression,
        decreases node, 0int,
    {
        proof {
            lemma_composite_view(&**data);
        }
        let value: &Variable = data;
        match node {
            Ast::Subexpr { lhs, rhs, offset } => {
                ctx.offset = *offset;
                let left = match self.interpret(data, lhs, ctx) {
                    Ok(v) => v,
                    Err(e) => return Err(e),
                };
                self.interpret(&left, rhs, ctx)
            },
            Ast::Field { name, offset } => {
                ctx.offset = *offset;
                match value {
                    Variable::Object(members) => match get_field(members, name) {
                        Some(v) => Ok(v),
                        None => Ok(self.allocator.alloc_null()),
                    },
                    _ => Ok(self.allocator.alloc_null()),
                }
            },
            Ast::Identity { offset } => {
                ctx.offset = *offset;
                Ok(data.clone())
            },
            Ast::Literal { value, offset } => {
                ctx.offset = *offset;
                Ok(value.clone())
            },
            Ast::Index { idx, offset } => {
                ctx.offset = *offset;
                match value {
                    Variable::Array(items) => match get_index(items, *idx) {
                        Some(v) => Ok(v),
                        None => Ok(self.allocator.alloc_null()),
                    },
                    _ => Ok(self.allocator.alloc_null()),
                }
            },
            Ast::Or { lhs, rhs, offset } => {
                ctx.offset = *offset;
                let left = match self.interpret(data, lhs, ctx) {
                    Ok(v) => v,
                    Err(e) => return Err(e),
                };
                if left.is_truthy() {
                    Ok(left)
                } else {
                    self.interpret(data, rhs, ctx)
                }
            },
            Ast::And { lhs, rhs, offset } => {
                ctx.offset = *offset;
                let left = match self.interpret(data, lhs, ctx) {
                    Ok(v) => v,
                    Err(e) => return Err(e),
                };
                if !left.is_truthy() {
                    Ok(left)
                } else {
                    self.interpret(data, rhs, ctx)
                }
            },
            Ast::Not { node, offset } => {
                ctx.offset = *offset;
                let result = match self.interpret(data, node, ctx) {
                    Ok(v) => v,
                    Err(e) => return Err(e),
                };
                Ok(self.allocator.alloc_bool(!result.is_truthy()))
            },
            Ast::Condition { predicate, then, offset } => {
                ctx.offset = *offset;
                let cond = match self.interpret(data, predicate, ctx) {
                    Ok(v) => v,
                    Err(e) => return Err(e),
                };
                if cond.is_truthy() {
                    self.interpret(data, then, ctx)
                } else {
                    Ok(self.allocator.alloc_null())
                }
            },
            Ast::Comparison { comparator, lhs, rhs, offset } => {
                ctx.offset = *offset;
                let left = match self.interpret(data, lhs, ctx) {
                    Ok(v) => v,
                    Err(e) => return Err(e),
                };
                let right = match self.interpret(data, rhs, ctx) {
                    Ok(v) => v,
                    Err(e) => return Err(e),
                };
                match compare(*comparator, &left, &right) {
                    Some(b) => Ok(self.allocator.alloc_bool(b)),
                    None => Ok(self.allocator.alloc_null()),
                }
            },
            Ast::ObjectValues { node, offset } => {
                ctx.offset = *offset;
                let subject = match self.interpret(data, node, ctx) {
                    Ok(v) => v,
                    Err(e) => return Err(e),
                };
                proof {
                    lemma_composite_view(&*subject);
                }
                let subject: &Variable = &subject;
                match subject {
                    Variable::Object(members) => {
                        let r = Variable::Array(member_values(members));
                        proof {
                            lemma_composite_view(&r);
                        }
                        Ok(self.allocator.allocate(r))
                    },
                    _ => Ok(self.allocator.alloc_null()),
                }
            },
            Ast::Projection { lhs, rhs, offset } => {
                ctx.offset = *offset;
                let left = match self.interpret(data, lhs, ctx) {
                    Ok(v) => v,
                    Err(e) => return Err(e),
                };
                proof {
                    lemma_composite_view(&*left);
                }
                let left: &Variable = &left;
                match left {
                    Variable::Array(items) => match self.interpret_projection(items, rhs, ctx) {
                        Ok(collected) => {
                            let r = Variable::Array(collected);
                            proof {
                                lemma_composite_view(&r);
                            }
                            Ok(self.allocator.allocate(r))
                        },
                        Err(e) => Err(e),
                    },
                    _ => Ok(self.allocator.alloc_null()),
                }
            },
            Ast::Flatten { node, offset } => {
                ctx.offset = *offset;
                let subject = match self.interpret(data, node, ctx) {
                    Ok(v) => v,
                    Err(e) => return Err(e),
                };
                proof {
                    lemma_composite_view(&*subject);
                }
                let subject: &Variable = &subject;
                match subject {
                    Variable::Array(items) => {
                        let r = Variable::Array(flatten(items));
                        proof {
                            lemma_composite_view(&r);
                        }
                        Ok(self.allocator.allocate(r))
                    },
                    _ => Ok(self.allocator.alloc_null()),
                }
            },
            Ast::MultiList { elements, offset } => {
                ctx.offset = *offset;
                if data.is_null() {
                    Ok(self.allocator.alloc_null())
                } else {
                    assert(node@->MultiList_elements =~= node_views(elements@));
                    match self.interpret_list(data, elements, ctx) {
                        Ok(collected) => {
                            let r = Variable::Array(collected);
                            proof {
                                lemma_composite_view(&r);
                            }
                            Ok(self.allocator.allocate(r))
                        },
                        Err(e) => Err(e),
                    }
                }
            },
            Ast::MultiHash { elements, offset } => {
                ctx.offset = *offset;
                if data.is_null() {
                    Ok(self.allocator.alloc_null())
                } else {
                    assert(node@->MultiHash_pairs =~= pair_views(elements@));
                    match self.interpret_pairs(data, elements, *offset, ctx) {
                        Ok(members) => {
                            let r = Variable::Object(members);
                            proof {
                                lemma_composite_view(&r);
                            }
                            Ok(self.allocator.allocate(r))
                        },
                        Err(e) => Err(e),
                    }
                }
            },
            Ast::Function { name, args, offset } => {
                ctx.offset = *offset;
                assert(node@->Function_args =~= node_views(args@));
                let fn_args = match self.interpret_list(data, args, ctx) {
                    Ok(v) => v,
                    Err(e) => return Err(e),
                };
                // The offset names the function again once its arguments are evaluated.
                ctx.offset = *offset;
                match self.functions.get(name.as_str()) {
                    Some(f) => {
                        // The function may move the context; the text stays the expression's.
                        let expression = ctx.expression;
                        let r = f.evaluate(fn_args, ctx);
                        ctx.expression = expression;
                        r
                    },
                    None => Err(
                        RuntimeError::UnknownFunction {
                            offset: *offset,
                            expression: ctx.expression.to_owned(),
                            function: name.clone(),
                        },
                    ),
                }
            },
            Ast::Expref { ast, offset } => {
                ctx.offset = *offset;
                Ok(self.allocator.allocate(Variable::Expref(ast.duplicate())))
            },
            Ast::Slice { start, stop, step, offset } => {
                ctx.offset = *offset;
                if *step == 0 {
                    Err(
                        RuntimeError::InvalidSlice {
                            offset: *offset,
                            expression: ctx.expression.to_owned(),
                        },
                    )
                } else {
                    match value {
                        Variable::Array(items) => {
                            let r = Variable::Array(slice(items, *start, *stop, *step));
                            proof {
                                lemma_composite_view(&r);
                            }
                            Ok(self.allocator.allocate(r))
                        },
                        _ => Ok(self.allocator.alloc_null()),
                    }
                }
            },
        }
    }

    /// Evaluates each of `nodes` against `data`, left to right.
    fn interpret_list(&self, data: &RcVar, nodes: &Vec<Ast>, ctx: &mut Context<F>) -> (r: Result<
        Vec<RcVar>,
        RuntimeError,
    >)
        requires
            self.wf(),
        ensures
            ({
                let expected = eval_list(
                    data@,
                    node_views(nodes@),
                    self.registry(),
                    old(ctx).expression@,
                    nodes@.len() as int,
                );
                list_agrees(expected, r) && final(ctx).expression == old(ctx).expression
            }),
        decreases nodes, 0int,
    {
        let ghost text = ctx.expression@;
        let ghost nv = node_views(nodes@);
        let mut out: Vec<RcVar> = Vec::new();
        let mut i: usize = 0;
        while i < nodes.len()
            invariant
                self.wf(),
                i <= nodes@.len(),
                text == old(ctx).expression@,
                ctx.expression == old(ctx).expression,
                nv == node_views(nodes@),
                match eval_list(data@, nv, self.registry(), text, i as int) {
                    Ok(s) => views(out@) == s,
                    Err(_) => false,
                },
            decreases nodes@.len() - i,
        {
            let v = match self.interpret(data, &nodes[i], ctx) {
                Ok(v) => v,
                Err(e) => {
                    proof {
                        lemma_list_settled(
                            data@,
                            nv,
                            self.registry(),
                            text,
                            i + 1,
                            nodes@.len() as int,
                        );
                    }
                    return Err(e);
                },
            };
            let ghost before = views(out@);
            out.push(v);
            assert(views(out@) =~= before.push(v@));
            i = i + 1;
        }
        Ok(out)
    }

    /// Evaluates `rhs` against each of `items`, keeping the non-null results.
    fn interpret_projection(&self, items: &Vec<RcVar>, rhs: &Ast, ctx: &mut Context<F>) -> (r:
        Result<Vec<RcVar>, RuntimeError>)
        requires
            self.wf(),
        ensures
            ({
                let expected = eval_projection(
                    views(items@),
                    rhs@,
                    self.registry(),
                    old(ctx).expression@,
                    items@.len() as int,
                );
                list_agrees(expected, r) && final(ctx).expression == old(ctx).expression
            }),
        decreases rhs, 1int,
    {
        let ghost text = ctx.expression@;
        let ghost s = views(items@);
        let mut out: Vec<RcVar> = Vec::new();
        let mut i: usize = 0;
        while i < items.len()
            invariant
                self.wf(),
                i <= items@.len(),
                text == old(ctx).expression@,
                ctx.expression == old(ctx).expression,
                s == views(items@),
                match eval_projection(s, rhs@, self.registry(), text, i as int) {
                    Ok(c) => views(out@) == c,
                    Err(_) => false,
                },
            decreases items@.len() - i,
        {
            let v = match self.interpret(&items[i], rhs, ctx) {
                Ok(v) => v,
                Err(e) => {
                    proof {
                        lemma_projection_settled(
                            s,
                            rhs@,
                            self.registry(),
                            text,
                            i + 1,
                            items@.len() as int,
                        );
                    }
                    return Err(e);
                },
            };
            if !v.is_null() {
                let ghost before = views(out@);
                out.push(v);
                assert(views(out@) =~= before.push(v@));
            }
            i = i + 1;
        }
        Ok(out)
    }

    /// Builds an object from key and value expressions evaluated against
    /// `data`; each key must evaluate to a string.
    fn interpret_pairs(
        &self,
        data: &RcVar,
        pairs: &Vec<KeyValuePair>,
        offset: usize,
        ctx: &mut Context<F>,
    ) -> (r: Result<Vec<(String, RcVar)>, RuntimeError>)
        requires
            self.wf(),
        ensures
            ({
                let expected = eval_pairs(
                    data@,
                    pair_views(pairs@),
                    self.registry(),
                    old(ctx).expression@,
                    offset as nat,
                    pairs@.len() as int,
                );
                final(ctx).expression == old(ctx).expression && match expected {
                    Ok(o) => r is Ok && member_views(r->Ok_0@) == o,
                    Err(e) => r is Err && r->Err_0@ == e,
                }
            }),
        decreases pairs, 0int,
    {
        let ghost text = ctx.expression@;
        let ghost pv = pair_views(pairs@);
        let mut out: Vec<(String, RcVar)> = Vec::new();
        let mut i: usize = 0;
        while i < pairs.len()
            invariant
                self.wf(),
                i <= pairs@.len(),
                text == old(ctx).expression@,
                ctx.expression == old(ctx).expression,
                pv == pair_views(pairs@),
                match eval_pairs(data@, pv, self.registry(), text, offset as nat, i as int) {
                    Ok(o) => member_views(out@) == o,
                    Err(_) => false,
                },
            decreases pairs@.len() - i,
        {
            proof {
                assert(decreases_to!(*pairs => pairs[i as int]));
                assert(decreases_to!(pairs[i as int] => pairs[i as int].key));
                assert(decreases_to!(pairs[i as int] => pairs[i as int].value));
            }
            let key = match self.interpret(data, &pairs[i].key, ctx) {
                Ok(v) => v,
                Err(e) => {
                    proof {
                        lemma_pairs_settled(
                            data@,
                            pv,
                            self.registry(),
                            text,
                            offset as nat,
                            i + 1,
                            pairs@.len() as int,
                        );
                    }
                    return Err(e);
                },
            };
            let value = match self.interpret(data, &pairs[i].value, ctx) {
                Ok(v) => v,
                Err(e) => {
                    proof {
                        lemma_pairs_settled(
                            data@,
                            pv,
                            self.registry(),
                            text,
                            offset as nat,
                            i + 1,
                            pairs@.len() as int,
                        );
                    }
                    return Err(e);
                },
            };
            let key_value: &Variable = &key;
            match key_value {
                Variable::String(s) => {
                    out = insert_member(&out, s.clone(), value);
                },
                _ => {
                    // The failure belongs to the hash node, not to the last node evaluated.
                    ctx.offset = offset;
                    proof {
                        lemma_pairs_settled(
                            data@,
                            pv,
                            self.registry(),
                            text,
                            offset as nat,
                            i + 1,
                            pairs@.len() as int,
                        );
                    }
                    return Err(
                        RuntimeError::InvalidKey {
                            offset,
                            expression: ctx.expression.to_owned(),
                            actual: key_value.kind(),
                        },
                    );
                },
            }
            i = i + 1;
        }
        Ok(out)
    }
}

} // verus!
