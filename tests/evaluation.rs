use std::cell::Cell;
use std::rc::Rc;

use jmespath::ast::{Ast, Comparator, KeyValuePair};
use jmespath::errors::{Failure, RuntimeError};
use jmespath::functions::{Builtins, Function, Functions};
use jmespath::interpreter::{slice, Context, Coordinates, SearchResult, TreeInterpreter};
use jmespath::variable::{Json, RcVar, Variable};
use vstd::seq::Seq;

/// A function that always fails.
struct Failing;

impl Function for Failing {
    fn spec_evaluate(&self, _args: Seq<Json>) -> Result<Json, Failure> {
        unreachable!("a specification, never run")
    }

    fn evaluate(&self, _args: Vec<RcVar>, ctx: &mut Context<Self>) -> Result<RcVar, RuntimeError> {
        Err(RuntimeError::NotEnoughArguments {
            offset: ctx.offset,
            expression: ctx.expression.to_string(),
            expected: 1,
            actual: 0,
        })
    }
}

/// A function that counts its calls and returns a fixed number.
struct Counter {
    calls: Rc<Cell<usize>>,
    result: i64,
}

impl Function for Counter {
    fn spec_evaluate(&self, _args: Seq<Json>) -> Result<Json, Failure> {
        unreachable!("a specification, never run")
    }

    fn evaluate(&self, args: Vec<RcVar>, _ctx: &mut Context<Self>) -> Result<RcVar, RuntimeError> {
        self.calls.set(self.calls.get() + 1);
        Ok(Rc::new(Variable::Number(self.result + args.len() as i64)))
    }
}

impl Builtins for Counter {
    fn spec_builtin(_name: Seq<char>) -> Self {
        unreachable!("a specification, never run")
    }

    fn builtin(_name: &str) -> Self {
        Counter { calls: Rc::new(Cell::new(0)), result: 0 }
    }
}

fn num(n: i64) -> RcVar {
    Rc::new(Variable::Number(n))
}

fn text(s: &str) -> RcVar {
    Rc::new(Variable::String(s.to_string()))
}

fn boolean(b: bool) -> RcVar {
    Rc::new(Variable::Bool(b))
}

fn null() -> RcVar {
    Rc::new(Variable::Null)
}

fn array(items: Vec<RcVar>) -> RcVar {
    Rc::new(Variable::Array(items))
}

fn object(members: Vec<(&str, RcVar)>) -> RcVar {
    Rc::new(Variable::Object(members.into_iter().map(|(k, v)| (k.to_string(), v)).collect()))
}

fn field(name: &str, offset: usize) -> Ast {
    Ast::Field { offset, name: name.to_string() }
}

fn boxed(a: Ast) -> Box<Ast> {
    Box::new(a)
}

fn literal(v: RcVar) -> Ast {
    Ast::Literal { offset: 0, value: v }
}

fn plain() -> TreeInterpreter<Counter> {
    TreeInterpreter::with_functions(Functions::new())
}

fn run(interp: &TreeInterpreter<Counter>, data: &RcVar, node: &Ast) -> SearchResult {
    let mut ctx = Context::new("expr", interp);
    interp.interpret(data, node, &mut ctx)
}

fn same(a: &RcVar, b: &RcVar) -> bool {
    a.equals(b)
}

fn numbers(ns: &[i64]) -> RcVar {
    array(ns.iter().map(|n| num(*n)).collect())
}

fn slice_node(start: Option<i32>, stop: Option<i32>, step: i32) -> Ast {
    Ast::Slice { offset: 3, start, stop, step }
}

#[test]
fn identity_returns_input() {
    let interp = plain();
    let data = object(vec![("a", numbers(&[1, 2])), ("b", null())]);
    let r = run(&interp, &data, &Ast::Identity { offset: 0 }).unwrap();
    assert!(same(&r, &data));
}

#[test]
fn slice_forward_and_backward() {
    let interp = plain();
    let data = numbers(&[0, 1, 2, 3, 4]);
    let r = run(&interp, &data, &slice_node(Some(1), Some(4), 1)).unwrap();
    assert!(same(&r, &numbers(&[1, 2, 3])));
    let r = run(&interp, &data, &slice_node(None, None, -1)).unwrap();
    assert!(same(&r, &numbers(&[4, 3, 2, 1, 0])));
    let r = run(&interp, &data, &slice_node(None, None, 2)).unwrap();
    assert!(same(&r, &numbers(&[0, 2, 4])));
    let r = run(&interp, &data, &slice_node(Some(-2), None, 1)).unwrap();
    assert!(same(&r, &numbers(&[3, 4])));
    let r = run(&interp, &data, &slice_node(Some(10), Some(1), -2)).unwrap();
    assert!(same(&r, &numbers(&[4, 2])));
    let r = run(&interp, &data, &slice_node(Some(-10), Some(-10), 1)).unwrap();
    assert!(same(&r, &numbers(&[])));
}

#[test]
fn slice_of_empty_and_non_array() {
    let interp = plain();
    let r = run(&interp, &numbers(&[]), &slice_node(Some(-1), Some(5), -1)).unwrap();
    assert!(same(&r, &numbers(&[])));
    let r = run(&interp, &num(3), &slice_node(None, None, 1)).unwrap();
    assert!(r.is_null());
}

#[test]
fn slice_zero_step_fails() {
    let interp = plain();
    let r = run(&interp, &numbers(&[1, 2]), &slice_node(None, None, 0));
    match r {
        Err(RuntimeError::InvalidSlice { offset, expression }) => {
            assert_eq!(offset, 3);
            assert_eq!(expression, "expr");
        }
        other => panic!("unexpected {:?}", other),
    }
    assert!(matches!(
        run(&interp, &text("abc"), &slice_node(Some(1), None, 0)),
        Err(RuntimeError::InvalidSlice { .. })
    ));
}

#[test]
fn slice_function_directly() {
    let items = vec![num(5), num(6), num(7)];
    let r = slice(&items, Some(-1), None, -1);
    assert!(Rc::ptr_eq(&r[0], &items[2]));
    assert!(same(&array(r), &numbers(&[7, 6, 5])));
}

#[test]
fn negative_index_yields_last() {
    let interp = plain();
    let r = run(&interp, &numbers(&[7, 8, 9]), &Ast::Index { offset: 0, idx: -1 }).unwrap();
    assert!(same(&r, &num(9)));
    let r = run(&interp, &numbers(&[]), &Ast::Index { offset: 0, idx: -1 }).unwrap();
    assert!(r.is_null());
    let r = run(&interp, &numbers(&[7, 8, 9]), &Ast::Index { offset: 0, idx: 1 }).unwrap();
    assert!(same(&r, &num(8)));
    let r = run(&interp, &numbers(&[7, 8, 9]), &Ast::Index { offset: 0, idx: -4 }).unwrap();
    assert!(r.is_null());
    let r = run(&interp, &numbers(&[7]), &Ast::Index { offset: 0, idx: i32::MIN }).unwrap();
    assert!(r.is_null());
}

#[test]
fn projection_drops_nulls() {
    let interp = plain();
    let data = array(vec![
        object(vec![("a", num(1))]),
        object(vec![("b", num(2))]),
        object(vec![("a", num(3))]),
        num(4),
    ]);
    let node = Ast::Projection {
        offset: 0,
        lhs: boxed(Ast::Identity { offset: 0 }),
        rhs: boxed(field("a", 2)),
    };
    let r = run(&interp, &data, &node).unwrap();
    assert!(same(&r, &numbers(&[1, 3])));
    let r = run(&interp, &num(1), &node).unwrap();
    assert!(r.is_null());
}

#[test]
fn flatten_one_level() {
    let interp = plain();
    let data = array(vec![numbers(&[1, 2]), array(vec![num(3), numbers(&[4, 5])])]);
    let node = Ast::Flatten { offset: 0, node: boxed(Ast::Identity { offset: 0 }) };
    let r = run(&interp, &data, &node).unwrap();
    let expected = array(vec![num(1), num(2), num(3), numbers(&[4, 5])]);
    assert!(same(&r, &expected));
    let r = run(&interp, &text("x"), &node).unwrap();
    assert!(r.is_null());
}

#[test]
fn truthiness_rules() {
    assert!(num(0).is_truthy());
    assert!(!text("").is_truthy());
    assert!(!numbers(&[]).is_truthy());
    assert!(!object(vec![]).is_truthy());
    assert!(!boolean(false).is_truthy());
    assert!(!null().is_truthy());
    assert!(text("a").is_truthy());
    let interp = plain();
    let not = Ast::Not { offset: 0, node: boxed(Ast::Identity { offset: 0 }) };
    let r = run(&interp, &num(0), &not).unwrap();
    assert!(same(&r, &boolean(false)));
    let r = run(&interp, &text(""), &not).unwrap();
    assert!(same(&r, &boolean(true)));
}

fn counting_interpreter(calls: &Rc<Cell<usize>>) -> TreeInterpreter<Counter> {
    let mut functions = Functions::new();
    functions.insert("count", Counter { calls: calls.clone(), result: 10 });
    TreeInterpreter::with_functions(functions)
}

fn call_count() -> Ast {
    Ast::Function { offset: 5, name: "count".to_string(), args: vec![] }
}

#[test]
fn or_and_short_circuit() {
    let calls = Rc::new(Cell::new(0));
    let interp = counting_interpreter(&calls);
    let or = Ast::Or { offset: 0, lhs: boxed(literal(num(1))), rhs: boxed(call_count()) };
    let r = run(&interp, &null(), &or).unwrap();
    assert!(same(&r, &num(1)));
    assert_eq!(calls.get(), 0);
    let and = Ast::And { offset: 0, lhs: boxed(literal(text(""))), rhs: boxed(call_count()) };
    let r = run(&interp, &null(), &and).unwrap();
    assert!(same(&r, &text("")));
    assert_eq!(calls.get(), 0);
    let or = Ast::Or { offset: 0, lhs: boxed(literal(boolean(false))), rhs: boxed(call_count()) };
    let r = run(&interp, &null(), &or).unwrap();
    assert!(same(&r, &num(10)));
    assert_eq!(calls.get(), 1);
    let and = Ast::And { offset: 0, lhs: boxed(literal(num(0))), rhs: boxed(call_count()) };
    let r = run(&interp, &null(), &and).unwrap();
    assert!(same(&r, &num(10)));
    assert_eq!(calls.get(), 2);
}

fn hash(key: Ast, value: Ast) -> Ast {
    Ast::MultiHash { offset: 7, elements: vec![KeyValuePair { key, value }] }
}

#[test]
fn multi_hash_rejects_non_string_key() {
    let interp = plain();
    for value in [num(1), null(), boolean(false)] {
        let node = hash(literal(num(3)), literal(value));
        match run(&interp, &num(0), &node) {
            Err(RuntimeError::InvalidKey { offset, actual, .. }) => {
                assert_eq!(offset, 7);
                assert_eq!(actual, "number");
            }
            other => panic!("unexpected {:?}", other),
        }
    }
}

#[test]
fn multi_hash_sorts_keys_and_replaces() {
    let interp = plain();
    let node = Ast::MultiHash {
        offset: 0,
        elements: vec![
            KeyValuePair { key: literal(text("b")), value: literal(num(1)) },
            KeyValuePair { key: literal(text("a")), value: literal(num(2)) },
            KeyValuePair { key: literal(text("c")), value: literal(num(3)) },
            KeyValuePair { key: literal(text("b")), value: literal(num(4)) },
        ],
    };
    let r = run(&interp, &num(0), &node).unwrap();
    let expected = object(vec![("a", num(2)), ("b", num(4)), ("c", num(3))]);
    assert!(same(&r, &expected));
    let r = run(&interp, &null(), &node).unwrap();
    assert!(r.is_null());
}

#[test]
fn field_chain_end_to_end() {
    let interp = plain();
    let node = Ast::Subexpr { offset: 1, lhs: boxed(field("a", 0)), rhs: boxed(field("b", 2)) };
    let r = run(&interp, &object(vec![("a", object(vec![("b", num(5))]))]), &node).unwrap();
    assert!(same(&r, &num(5)));
    let r = run(&interp, &object(vec![("a", null())]), &node).unwrap();
    assert!(r.is_null());
    let r = run(&interp, &object(vec![]), &node).unwrap();
    assert!(r.is_null());
}

#[test]
fn unknown_function_fails_at_its_offset() {
    let interp = plain();
    let node = Ast::Function { offset: 12, name: "unknown_fn".to_string(), args: vec![] };
    for data in [null(), num(1), object(vec![("a", num(1))])] {
        match run(&interp, &data, &node) {
            Err(RuntimeError::UnknownFunction { offset, expression, function }) => {
                assert_eq!(offset, 12);
                assert_eq!(expression, "expr");
                assert_eq!(function, "unknown_fn");
            }
            other => panic!("unexpected {:?}", other),
        }
    }
}

#[test]
fn function_receives_evaluated_arguments() {
    let calls = Rc::new(Cell::new(0));
    let interp = counting_interpreter(&calls);
    let node = Ast::Function {
        offset: 0,
        name: "count".to_string(),
        args: vec![field("a", 0), literal(num(2))],
    };
    let r = run(&interp, &object(vec![("a", num(1))]), &node).unwrap();
    assert!(same(&r, &num(12)));
    assert_eq!(calls.get(), 1);
}

#[test]
fn comparisons() {
    let interp = plain();
    let cmp = |op: Comparator, a: RcVar, b: RcVar| {
        let node = Ast::Comparison { offset: 0, comparator: op, lhs: boxed(literal(a)), rhs: boxed(literal(b)) };
        run(&interp, &null(), &node).unwrap()
    };
    assert!(same(&cmp(Comparator::LessThan, num(1), num(2)), &boolean(true)));
    assert!(same(&cmp(Comparator::GreaterThanEqual, num(1), num(2)), &boolean(false)));
    assert!(cmp(Comparator::LessThan, text("a"), num(2)).is_null());
    assert!(same(&cmp(Comparator::Equal, numbers(&[1, 2]), numbers(&[1, 2])), &boolean(true)));
    assert!(same(&cmp(Comparator::NotEqual, text("a"), text("b")), &boolean(true)));
    assert!(same(&cmp(Comparator::Equal, num(1), text("1")), &boolean(false)));
}

#[test]
fn condition_object_values_and_multi_list() {
    let interp = plain();
    let data = object(vec![("a", num(1)), ("b", num(2))]);
    let cond = Ast::Condition { offset: 0, predicate: boxed(field("a", 0)), then: boxed(field("b", 0)) };
    assert!(same(&run(&interp, &data, &cond).unwrap(), &num(2)));
    let cond = Ast::Condition { offset: 0, predicate: boxed(field("z", 0)), then: boxed(field("b", 0)) };
    assert!(run(&interp, &data, &cond).unwrap().is_null());
    let values = Ast::ObjectValues { offset: 0, node: boxed(Ast::Identity { offset: 0 }) };
    assert!(same(&run(&interp, &data, &values).unwrap(), &numbers(&[1, 2])));
    assert!(run(&interp, &num(1), &values).unwrap().is_null());
    let list = Ast::MultiList { offset: 0, elements: vec![field("b", 0), field("a", 0)] };
    assert!(same(&run(&interp, &data, &list).unwrap(), &numbers(&[2, 1])));
    assert!(run(&interp, &null(), &list).unwrap().is_null());
}

#[test]
fn expref_and_literal() {
    let interp = plain();
    let node = Ast::Expref { offset: 0, ast: boxed(field("a", 4)) };
    let r = run(&interp, &num(1), &node).unwrap();
    match &*r {
        Variable::Expref(ast) => match ast {
            Ast::Field { offset, name } => {
                assert_eq!(*offset, 4);
                assert_eq!(name, "a");
            }
            other => panic!("unexpected {:?}", other),
        },
        other => panic!("unexpected {:?}", other),
    }
    assert!(same(&run(&interp, &num(1), &literal(text("x"))).unwrap(), &text("x")));
}

#[test]
fn builtin_registration() {
    let interp: TreeInterpreter<Counter> = TreeInterpreter::new();
    let node = Ast::Function { offset: 0, name: "length".to_string(), args: vec![] };
    assert!(same(&run(&interp, &null(), &node).unwrap(), &num(0)));
}

#[test]
fn coordinates_from_offset() {
    let c = Coordinates::from_offset("ab\ncd\nef", 7);
    assert_eq!((c.offset, c.line, c.column), (7, 2, 1));
    let c = Coordinates::from_offset("abc", 10);
    assert_eq!((c.offset, c.line, c.column), (10, 0, 10));
    let interp = plain();
    let mut ctx = Context::new("x\ny", &interp);
    ctx.offset = 2;
    let c = ctx.create_coordinates();
    assert_eq!((c.line, c.column), (1, 0));
}

#[test]
fn shared_constants_and_values() {
    let interp = plain();
    let data = object(vec![("a", numbers(&[1, 2]))]);
    let r = run(&interp, &data, &Ast::Identity { offset: 0 }).unwrap();
    assert!(Rc::ptr_eq(&r, &data));
    let r = run(&interp, &data, &field("a", 0)).unwrap();
    assert!(same(&r, &numbers(&[1, 2])));
    let first = run(&interp, &data, &field("missing", 0)).unwrap();
    let second = run(&interp, &num(1), &field("other", 0)).unwrap();
    assert!(Rc::ptr_eq(&first, &second));
    let t = interp.allocator.alloc_bool(true);
    assert!(Rc::ptr_eq(&t, &interp.allocator.alloc_bool(true)));
    assert!(same(&t, &boolean(true)));
}

#[test]
fn function_results_flow_through_nodes() {
    let calls = Rc::new(Cell::new(0));
    let interp = counting_interpreter(&calls);
    let data = numbers(&[1, 2, 3]);
    let node = Ast::Projection {
        offset: 0,
        lhs: boxed(Ast::Identity { offset: 0 }),
        rhs: boxed(call_count()),
    };
    let r = run(&interp, &data, &node).unwrap();
    assert!(same(&r, &numbers(&[10, 10, 10])));
    assert_eq!(calls.get(), 3);
    let hash = Ast::MultiHash {
        offset: 7,
        elements: vec![KeyValuePair { key: literal(boolean(true)), value: call_count() }],
    };
    assert!(matches!(run(&interp, &num(0), &hash), Err(RuntimeError::InvalidKey { offset: 7, .. })));
    assert_eq!(calls.get(), 4);
}

#[test]
fn function_errors_pass_through() {
    let mut functions = Functions::new();
    functions.insert("fail", Failing);
    let interp = TreeInterpreter::with_functions(functions);
    let node = Ast::Not {
        offset: 0,
        node: boxed(Ast::Function { offset: 9, name: "fail".to_string(), args: vec![field("a", 2)] }),
    };
    let mut ctx = Context::new("not fail(a)", &interp);
    match interp.interpret(&num(1), &node, &mut ctx) {
        Err(RuntimeError::NotEnoughArguments { offset, expression, .. }) => {
            assert_eq!(offset, 9);
            assert_eq!(expression, "not fail(a)");
        }
        other => panic!("unexpected {:?}", other),
    }
}

#[test]
fn object_from_orders_keys() {
    let members = vec![
        ("b".to_string(), num(1)),
        ("a".to_string(), num(2)),
        ("b".to_string(), num(3)),
    ];
    let r = Rc::new(Variable::object_from(members));
    assert!(same(&r, &object(vec![("a", num(2)), ("b", num(3))])));
}
