use std::cell::Cell;
use std::rc::Rc;

use jmespath::ast::Ast;
use jmespath::errors::{Failure, RuntimeError};
use jmespath::functions::{Builtins, Function};
use jmespath::interpreter::Context;
use jmespath::runtime::Runtime;
use jmespath::variable::{Json, RcVar, Variable};
use vstd::seq::Seq;

struct Fixed(i64, Rc<Cell<usize>>);

impl Function for Fixed {
    fn spec_evaluate(&self, _args: Seq<Json>) -> Result<Json, Failure> {
        unreachable!("a specification, never run")
    }

    fn evaluate(&self, _args: Vec<RcVar>, _ctx: &mut Context<Self>) -> Result<RcVar, RuntimeError> {
        self.1.set(self.1.get() + 1);
        Ok(Rc::new(Variable::Number(self.0)))
    }
}

impl Builtins for Fixed {
    fn spec_builtin(_name: Seq<char>) -> Self {
        unreachable!("a specification, never run")
    }

    fn builtin(name: &str) -> Self {
        Fixed(name.len() as i64, Rc::new(Cell::new(0)))
    }
}

fn call(name: &str) -> Ast {
    Ast::Function { offset: 0, name: name.to_string(), args: vec![] }
}

#[test]
fn register_get_and_deregister() {
    let mut rt: Runtime<Fixed> = Runtime::new();
    let calls = Rc::new(Cell::new(0));
    assert!(rt.get_function("f").is_none());
    rt.register_function("f", Fixed(1, calls.clone()));
    assert_eq!(rt.get_function("f").map(|f| f.0), Some(1));
    rt.register_function("f", Fixed(2, calls.clone()));
    assert_eq!(rt.get_function("f").map(|f| f.0), Some(2));
    let removed = rt.deregister_function("f");
    assert_eq!(removed.map(|f| f.0), Some(2));
    assert!(rt.get_function("f").is_none());
    assert!(rt.deregister_function("f").is_none());
}

#[test]
fn builtins_are_registered_by_name() {
    let mut rt: Runtime<Fixed> = Runtime::new();
    rt.register_builtin_functions();
    for name in ["abs", "sort_by", "to_number", "values", "type"] {
        assert_eq!(rt.get_function(name).map(|f| f.0), Some(name.len() as i64));
    }
    assert!(rt.get_function("nope").is_none());
}

#[test]
fn compile_and_search() {
    let mut rt: Runtime<Fixed> = Runtime::new();
    let calls = Rc::new(Cell::new(0));
    rt.register_function("seven", Fixed(7, calls.clone()));
    let parsed: Result<Ast, String> = Ok(call("seven"));
    let expr = rt.compile("seven()", parsed).unwrap();
    assert_eq!(expr.expression, "seven()");
    let r = expr.search(&Rc::new(Variable::Null)).unwrap();
    match &*r {
        Variable::Number(n) => assert_eq!(*n, 7),
        other => panic!("unexpected {:?}", other),
    }
    assert_eq!(calls.get(), 1);
    let missing = rt.compile("gone()", Ok::<Ast, String>(call("gone"))).unwrap();
    match missing.search(&Rc::new(Variable::Null)) {
        Err(RuntimeError::UnknownFunction { expression, .. }) => assert_eq!(expression, "gone()"),
        other => panic!("unexpected {:?}", other),
    }
}

#[test]
fn compile_passes_parse_errors_through() {
    let rt: Runtime<Fixed> = Runtime::new();
    let parsed: Result<Ast, String> = Err("bad token".to_string());
    match rt.compile("a.[", parsed) {
        Err(e) => assert_eq!(e, "bad token"),
        Ok(_) => panic!("expected an error"),
    }
}

#[test]
fn default_runtime_is_empty() {
    let rt: Runtime<Fixed> = Runtime::default();
    assert!(rt.get_function("abs").is_none());
}

#[test]
fn builtins_replace_and_keep() {
    let mut rt: Runtime<Fixed> = Runtime::new();
    let calls = Rc::new(Cell::new(0));
    rt.register_function("abs", Fixed(100, calls.clone()));
    rt.register_function("custom", Fixed(5, calls.clone()));
    rt.register_builtin_functions();
    assert_eq!(rt.get_function("abs").map(|f| f.0), Some(3));
    assert_eq!(rt.get_function("custom").map(|f| f.0), Some(5));
    rt.register_builtin_functions();
    assert_eq!(rt.get_function("custom").map(|f| f.0), Some(5));
    assert_eq!(rt.get_function("sum").map(|f| f.0), Some(3));
}
