use vstd::prelude::*;

use crate::ast::Ast;
use crate::functions::{builtin_map, register_core_functions, Builtins, Function, Functions};
use crate::interpreter::{outcome, Context, SearchResult, TreeInterpreter};
use crate::semantics::eval;
use crate::variable::RcVar;

verus! {

/// Holds the functions that expressions may call, and compiles expressions
/// against them.
pub struct Runtime<F> {
    interpreter: TreeInterpreter<F>,
}

/// An expression bound to the runtime that it was compiled with.
pub struct Expression<'a, F> {
    /// The expression's text.
    pub expression: String,
    /// Its tree.
    pub ast: Ast,
    /// The runtime whose functions it calls.
    pub runtime: &'a Runtime<F>,
}

impl<F> Runtime<F> {
    pub closed spec fn wf(&self) -> bool {
        self.interpreter.wf()
    }

    /// The registered functions by name.
    pub closed spec fn registry(&self) -> Map<Seq<char>, F> {
        self.interpreter.registry()
    }

    /// A runtime with no functions.
    pub fn new() -> (r: Self)
        ensures
            r.wf(),
            r.registry() == Map::<Seq<char>, F>::empty(),
    {
        Runtime { interpreter: TreeInterpreter::with_functions(Functions::new()) }
    }

    /// Binds a parsed expression to this runtime; a parse failure is handed
    /// back unchanged.
    pub fn compile<'a, E>(&'a self, expression: &str, parsed: Result<Ast, E>) -> (r: Result<
        Expression<'a, F>,
        E,
    >)
        ensures
            match parsed {
                Ok(ast) => r is Ok && r->Ok_0.ast == ast && r->Ok_0.expression@ == expression@
                    && r->Ok_0.runtime == self,
                Err(e) => r == Err::<Expression<'a, F>, E>(e),
            },
    {
        match parsed {
            Ok(ast) => Ok(Expression { expression: expression.to_owned(), ast, runtime: self }),
            Err(e) => Err(e),
        }
    }

    /// Registers `f` under `name`, replacing what was registered there.
    pub fn register_function(&mut self, name: &str, f: F)
        requires
            old(self).wf(),
        ensures
            final(self).wf(),
            final(self).registry() == old(self).registry().insert(name@, f),
    {
        self.interpreter.functions.insert(name, f);
    }

    /// Removes the function registered under `name` and returns it.
    pub fn deregister_function(&mut self, name: &str) -> (r: Option<F>)
        requires
            old(self).wf(),
        ensures
            final(self).wf(),
            final(self).registry() == old(self).registry().remove(name@),
            r == (if old(self).registry().contains_key(name@) {
                Some(old(self).registry()[name@])
            } else {
                None
            }),
    {
        self.interpreter.functions.remove(name)
    }

    /// The function registered under `name`.
    pub fn get_function(&self, name: &str) -> (r: Option<&F>)
        requires
            self.wf(),
        ensures
            match r {
                Some(f) => self.registry().contains_key(name@) && *f == self.registry()[name@],
                None => !self.registry().contains_key(name@),
            },
    {
        self.interpreter.functions.get(name)
    }

    /// The interpreter that evaluates against this runtime's functions.
    pub fn interpreter(&self) -> (r: &TreeInterpreter<F>)
        ensures
            r.wf() == self.wf(),
            r.registry() == self.registry(),
    {
        &self.interpreter
    }
}

impl<F> Default for Runtime<F> {
    fn default() -> (r: Self)
        ensures
            r.wf(),
            r.registry() == Map::<Seq<char>, F>::empty(),
    {
        Runtime::new()
    }
}

impl<F: Builtins> Runtime<F> {
    /// Registers every built-in function under its name, replacing what was
    /// registered there; functions under other names are kept.
    pub fn register_builtin_functions(&mut self)
        requires
            old(self).wf(),
        ensures
            final(self).wf(),
            final(self).registry() == old(self).registry().union_prefer_right(builtin_map::<F>()),
    {
        register_core_functions(&mut self.interpreter.functions);
    }
}

impl<'a, F: Function> Expression<'a, F> {
    /// Evaluates the expression against `data`.
    pub fn search(&self, data: &RcVar) -> (r: SearchResult)
        requires
            self.runtime.wf(),
        ensures
            outcome(r) == eval(data@, self.ast@, self.runtime.registry(), self.expression@),
    {
        let interpreter = self.runtime.interpreter();
        let mut ctx = Context::new(self.expression.as_str(), interpreter);
        interpreter.interpret(data, &self.ast, &mut ctx)
    }
}

} // verus!
