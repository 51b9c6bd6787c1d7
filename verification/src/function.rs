//! Lowering of whole functions and modules. One function is lowered to the
//! end before the next begins, each with a table of variables of its own, and
//! the first failure ends the lowering.

use vstd::prelude::*;
use crate::ast::{
    Function, FunctionDecl, Located, Module, Range, ResolvedType, Statement, TopLevel,
    UnresolvedType,
};
use crate::codegen::{Env, LLVMCodegenerator, Lowered};
use crate::error::{CompileError, CompileErrorKind};
use crate::instruction::Instruction;
use crate::signature::FunctionSignature;
use crate::expression::{
    base_spec, eval_spec, extends, lemma_base_appends, lemma_eval_appends, lemma_extends_transitive,
    lemma_indexed_appends, place_spec,
};
use crate::statement::{index_of, statement_spec};
use crate::types::resolve_spec;

verus! {

/// Lowers the statements of a body from position `from` on, in order. Each
/// statement sees the variables that the ones before it have bound. The first
/// failure is the result, with the source range of the failing statement as
/// its place; the statements after it are not lowered.
pub open spec fn body_spec(
    env: Env,
    body: Seq<Located<Statement>>,
    from: int,
    stream: Seq<Instruction>,
) -> Lowered
    decreases body.len() - from,
{
    if from < 0 || from >= body.len() {
        Lowered::done(stream, env.variables)
    } else {
        let step = statement_spec(env, body[from].value, stream);
        match step.result {
            Err(_) => step.located(body[from].range),
            Ok(_) => body_spec(
                Env { variables: step.variables, ..env },
                body,
                from + 1,
                step.stream,
            ),
        }
    }
}

/// Lowers the body of the function at position `function` of the signature
/// table: the body is opened, and its statements are lowered starting from no
/// variables at all. Parameters are not variables.
pub open spec fn function_body_spec(
    env: Env,
    function: usize,
    body: Seq<Located<Statement>>,
    stream: Seq<Instruction>,
) -> Lowered {
    body_spec(
        Env { variables: Map::empty(), ..env },
        body,
        0,
        stream.push(Instruction::Begin { function }),
    )
}

/// Whether every parameter type and the return type of a declaration resolve.
pub open spec fn signature_resolves(decl: FunctionDecl) -> bool {
    &&& forall|i: int|
        0 <= i < decl.params@.len() ==> resolve_spec((#[trigger] decl.params@[i]).0.value) is Some
    &&& resolve_spec(decl.return_type.value) is Some
}

/// The position of the first parameter, from `from` on, whose type does not
/// resolve; the number of parameters if there is none.
pub open spec fn first_unresolved_param(
    params: Seq<(Located<UnresolvedType>, String)>,
    from: int,
) -> int
    decreases params.len() - from,
{
    if from < 0 || from >= params.len() {
        params.len() as int
    } else if resolve_spec(params[from].0.value) is None {
        from
    } else {
        first_unresolved_param(params, from + 1)
    }
}

/// The source range of the first type of a declaration that does not
/// resolve: parameters come first, in order, then the return type.
pub open spec fn unresolved_in(decl: FunctionDecl) -> Option<Range> {
    let first = first_unresolved_param(decl.params@, 0);
    if first < decl.params@.len() {
        Some(decl.params@[first].0.range)
    } else if resolve_spec(decl.return_type.value) is None {
        Some(decl.return_type.range)
    } else {
        None
    }
}

/// Whether `signature` is what `decl` declares: the same name, each parameter
/// type resolved, in order, and the return type resolved. Generic parameters
/// leave no trace.
pub open spec fn declares(signature: FunctionSignature, decl: FunctionDecl) -> bool {
    &&& signature.name == decl.name
    &&& signature.params@.len() == decl.params@.len()
    &&& forall|i: int|
        0 <= i < decl.params@.len() ==> resolve_spec((#[trigger] decl.params@[i]).0.value) == Some(
            signature.params@[i],
        )
    &&& resolve_spec(decl.return_type.value) == Some(signature.return_type)
}

pub open spec fn decl_of(toplevel: Located<TopLevel>) -> FunctionDecl {
    match toplevel.value {
        TopLevel::Function(function) => function.decl,
    }
}

pub open spec fn body_of(toplevel: Located<TopLevel>) -> Seq<Located<Statement>> {
    match toplevel.value {
        TopLevel::Function(function) => function.body@,
    }
}

/// The position of the first declaration, from `from` on, whose signature
/// does not resolve; the length of the module if there is none.
pub open spec fn first_unresolved(toplevels: Seq<Located<TopLevel>>, from: int) -> int
    decreases toplevels.len() - from,
{
    if from < 0 || from >= toplevels.len() {
        toplevels.len() as int
    } else if !signature_resolves(decl_of(toplevels[from])) {
        from
    } else {
        first_unresolved(toplevels, from + 1)
    }
}

/// Whether `after` is `before` with the signatures of the first `count`
/// declarations of the module added at its end, in order.
pub open spec fn declared(
    before: Seq<FunctionSignature>,
    after: Seq<FunctionSignature>,
    toplevels: Seq<Located<TopLevel>>,
    count: int,
) -> bool {
    &&& after.len() == before.len() + count
    &&& after.subrange(0, before.len() as int) == before
    &&& forall|j: int|
        before.len() <= j < after.len() ==> declares(
            #[trigger] after[j],
            decl_of(toplevels[j - before.len()]),
        )
}

/// Lowers the bodies of a module from position `from` on. The function at
/// position `from` of the module stands at position `base + from` of the
/// signature table.
pub open spec fn bodies_spec(
    env: Env,
    toplevels: Seq<Located<TopLevel>>,
    from: int,
    base: int,
    stream: Seq<Instruction>,
) -> Lowered
    decreases toplevels.len() - from,
{
    if from < 0 || from >= toplevels.len() {
        Lowered::done(stream, env.variables)
    } else {
        let lowered = function_body_spec(
            env,
            (base + from) as usize,
            body_of(toplevels[from]),
            stream,
        );
        match lowered.result {
            Err(_) => lowered,
            Ok(_) => bodies_spec(
                Env { variables: lowered.variables, ..env },
                toplevels,
                from + 1,
                base,
                lowered.stream,
            ),
        }
    }
}

/// Nothing is unreachable. A `return` that lowers does not end the lowering of
/// the body: the statements after it are lowered as they would be after any
/// other statement, on the stream that the `return` left and with the same
/// variables.
pub proof fn lemma_lowering_goes_on_after_return(
    env: Env,
    body: Seq<Located<Statement>>,
    from: int,
    stream: Seq<Instruction>,
)
    requires
        0 <= from < body.len(),
        body[from].value is Return,
        statement_spec(env, body[from].value, stream).result is Ok,
    ensures
        body_spec(env, body, from, stream) == body_spec(
            env,
            body,
            from + 1,
            statement_spec(env, body[from].value, stream).stream,
        ),
        statement_spec(env, body[from].value, stream).stream.last() is Return
            || statement_spec(env, body[from].value, stream).stream.last() is ReturnVoid,
{
    let step = statement_spec(env, body[from].value, stream);
    assert(step.variables == env.variables);
    assert((Env { variables: step.variables, ..env }) == env);
}

/// A `return` without a value always lowers, to one instruction.
pub proof fn lemma_plain_return_lowers(env: Env, stream: Seq<Instruction>)
    ensures
        statement_spec(env, Statement::Return { expression: None }, stream) == Lowered::done(
            stream.push(Instruction::ReturnVoid),
            env.variables,
        ),
{
}

/// The first failure ends the lowering of a body: the result is that of the
/// failing statement, and nothing is lowered after it.
pub proof fn lemma_first_failure_ends_body(
    env: Env,
    body: Seq<Located<Statement>>,
    from: int,
    stream: Seq<Instruction>,
)
    requires
        0 <= from < body.len(),
        statement_spec(env, body[from].value, stream).result is Err,
    ensures
        body_spec(env, body, from, stream) == statement_spec(
            env,
            body[from].value,
            stream,
        ).located(body[from].range),
{
}

/// Lowering a statement only adds to the stream.
pub proof fn lemma_statement_appends(env: Env, statement: Statement, stream: Seq<Instruction>)
    ensures
        extends(statement_spec(env, statement, stream).stream, stream),
{
    match statement {
        Statement::VariableDecl { ty, name, value } => {
            match resolve_spec(ty.value) {
                None => {},
                Some(declared) => {
                    lemma_eval_appends(env, value.value, Some(declared), stream);
                },
            }
        },
        Statement::Return { expression } => {
            match expression {
                None => {},
                Some(returned) => {
                    lemma_eval_appends(env, returned.value, None, stream);
                },
            }
        },
        Statement::Asignment { deref_count, index_access, name, expression } => {
            let place = place_spec(env, name, deref_count, index_of(index_access), stream);
            let base = base_spec(env, name, deref_count, stream);
            lemma_base_appends(env, name, deref_count, stream);
            match index_access {
                None => {},
                Some(index) => {
                    lemma_indexed_appends(env, name, base, index.value);
                    lemma_extends_transitive(place.stream, base.stream, stream);
                },
            }
            match place.result {
                Err(_) => {},
                Ok((_, target)) => {
                    lemma_eval_appends(env, expression.value, Some(target), place.stream);
                    lemma_extends_transitive(
                        eval_spec(env, expression.value, Some(target), place.stream).stream,
                        place.stream,
                        stream,
                    );
                },
            }
        },
        Statement::Effect { expression } => {
            lemma_eval_appends(env, expression.value, None, stream);
        },
    }
}

/// Lowering a body only adds to the stream, also where it fails: what an
/// earlier statement emitted is never taken back or changed.
pub proof fn lemma_body_appends(
    env: Env,
    body: Seq<Located<Statement>>,
    from: int,
    stream: Seq<Instruction>,
)
    ensures
        extends(body_spec(env, body, from, stream).stream, stream),
    decreases body.len() - from,
{
    if !(from < 0 || from >= body.len()) {
        let step = statement_spec(env, body[from].value, stream);
        lemma_statement_appends(env, body[from].value, stream);
        if step.result is Ok {
            lemma_body_appends(
                Env { variables: step.variables, ..env },
                body,
                from + 1,
                step.stream,
            );
            lemma_extends_transitive(
                body_spec(env, body, from, stream).stream,
                step.stream,
                stream,
            );
        }
    }
}

impl LLVMCodegenerator {
    /// Makes the signature of a declaration known, so that calls can name it.
    /// A type in it that does not resolve is an `UnknownType` at the place of
    /// that type, and then nothing is declared.
    pub fn declare_function(&mut self, decl: &FunctionDecl) -> (r: Result<usize, CompileError>)
        ensures
            final(self).stream() == old(self).stream(),
            match r {
                Ok(index) => {
                    &&& signature_resolves(*decl)
                    &&& index == old(self).env().functions.len()
                    &&& final(self).env().functions.len() == index + 1
                    &&& declares(final(self).env().functions[index as int], *decl)
                    &&& final(self).env() == (Env {
                        functions: old(self).env().functions.push(
                            final(self).env().functions[index as int],
                        ),
                        ..old(self).env()
                    })
                },
                Err(e) => {
                    &&& !signature_resolves(*decl)
                    &&& unresolved_in(*decl) matches Some(range) && e.is_at(
                        CompileErrorKind::UnknownType,
                        range,
                    )
                    &&& final(self).env() == old(self).env()
                },
            },
    {
        let mut params: Vec<ResolvedType> = Vec::new();
        let mut i: usize = 0;
        while i < decl.params.len()
            invariant
                i <= decl.params.len(),
                params@.len() == i,
                forall|k: int|
                    0 <= k < i ==> resolve_spec((#[trigger] decl.params@[k]).0.value) == Some(
                        params@[k],
                    ),
                first_unresolved_param(decl.params@, 0) == first_unresolved_param(
                    decl.params@,
                    i as int,
                ),
            decreases decl.params.len() - i,
        {
            match self.resolve_type(&decl.params[i].0.value) {
                Ok(ty) => {
                    params.push(ty);
                },
                Err(e) => {
                    return Err(e.at(decl.params[i].0.range));
                },
            }
            i += 1;
        }
        let return_type = match self.resolve_type(&decl.return_type.value) {
            Ok(ty) => ty,
            Err(e) => {
                return Err(e.at(decl.return_type.range));
            },
        };
        let signature = FunctionSignature { name: decl.name.clone(), params, return_type };
        Ok(self.add_function(signature))
    }

    /// Lowers the body of the function at position `function` of the
    /// signature table. See `function_body_spec`.
    pub fn gen_body(&mut self, function: usize, body: Vec<Located<Statement>>) -> (r: Result<
        (),
        CompileError,
    >)
        ensures
            function_body_spec(old(self).env(), function, body@, old(self).stream()).describes(
                old(self).env(),
                final(self).env(),
                final(self).stream(),
                r,
            ),
    {
        let ghost before = self.env();
        let ghost statements = body@;
        let ghost whole = function_body_spec(before, function, statements, self.stream());
        self.clear_variables();
        self.emit(Instruction::Begin { function });
        for located in it: body
            invariant
                statements == it.seq(),
                before == old(self).env(),
                self.env() == (Env { variables: self.env().variables, ..before }),
                whole == function_body_spec(before, function, statements, old(self).stream()),
                whole == body_spec(self.env(), statements, it.index() as int, self.stream()),
        {
            match self.gen_statement(located.value) {
                Ok(_) => {},
                Err(e) => {
                    return Err(e.at(located.range));
                },
            }
        }
        Ok(())
    }

    /// Declares a function and lowers its body. If the signature does not
    /// resolve, nothing is declared and nothing is emitted.
    pub fn gen_function(&mut self, function: Function) -> (r: Result<(), CompileError>)
        ensures
            !signature_resolves(function.decl) ==> {
                &&& r matches Err(e) && unresolved_in(function.decl) matches Some(range)
                    && e.is_at(CompileErrorKind::UnknownType, range)
                &&& final(self).env() == old(self).env()
                &&& final(self).stream() == old(self).stream()
            },
            signature_resolves(function.decl) ==> {
                let index = old(self).env().functions.len();
                let known = Env { functions: final(self).env().functions, ..old(self).env() };
                &&& final(self).env().functions.len() == index + 1
                &&& final(self).env().functions.drop_last() == old(self).env().functions
                &&& declares(final(self).env().functions[index as int], function.decl)
                &&& function_body_spec(
                    known,
                    index as usize,
                    function.body@,
                    old(self).stream(),
                ).describes(known, final(self).env(), final(self).stream(), r)
            },
    {
        let index = match self.declare_function(&function.decl) {
            Ok(index) => index,
            Err(e) => {
                return Err(e);
            },
        };
        proof {
            assert(self.env().functions.drop_last() =~= old(self).env().functions);
        }
        self.gen_body(index, function.body)
    }

    /// Lowers a module. First every signature is declared, in order, so that
    /// a call may name a function that stands later in the module; a
    /// signature that does not resolve ends the lowering there with
    /// `UnknownType`, before anything is emitted. Then the bodies are lowered,
    /// in order.
    pub fn gen_module(&mut self, module: Module) -> (r: Result<(), CompileError>)
        ensures
            ({
                let toplevels = module.toplevels@;
                let resolving = first_unresolved(toplevels, 0);
                let known = Env { functions: final(self).env().functions, ..old(self).env() };
                &&& declared(
                    old(self).env().functions,
                    final(self).env().functions,
                    toplevels,
                    resolving,
                )
                &&& resolving < toplevels.len() ==> {
                    &&& r matches Err(e) && unresolved_in(decl_of(toplevels[resolving]))
                        matches Some(range) && e.is_at(CompileErrorKind::UnknownType, range)
                    &&& final(self).env() == known
                    &&& final(self).stream() == old(self).stream()
                }
                &&& resolving >= toplevels.len() ==> bodies_spec(
                    known,
                    toplevels,
                    0,
                    old(self).env().functions.len() as int,
                    old(self).stream(),
                ).describes(known, final(self).env(), final(self).stream(), r)
            }),
    {
        let ghost before = self.env();
        let ghost toplevels = module.toplevels@;
        let base = self.functions().len();
        let mut i: usize = 0;
        assert(before.functions.subrange(0, before.functions.len() as int) =~= before.functions);
        while i < module.toplevels.len()
            invariant
                i <= module.toplevels.len(),
                toplevels == module.toplevels@,
                before == old(self).env(),
                base == before.functions.len(),
                self.stream() == old(self).stream(),
                self.env() == (Env { functions: self.env().functions, ..before }),
                declared(before.functions, self.env().functions, toplevels, i as int),
                first_unresolved(toplevels, 0) == first_unresolved(toplevels, i as int),
            decreases module.toplevels.len() - i,
        {
            let ghost earlier = self.env().functions;
            match &module.toplevels[i].value {
                TopLevel::Function(function) => match self.declare_function(&function.decl) {
                    Ok(_) => {},
                    Err(e) => {
                        return Err(e);
                    },
                },
            }
            proof {
                let now = self.env().functions;
                assert(now.subrange(0, before.functions.len() as int) =~= earlier.subrange(
                    0,
                    before.functions.len() as int,
                ));
                assert forall|j: int| before.functions.len() <= j < now.len() implies declares(
                    #[trigger] now[j],
                    decl_of(toplevels[j - before.functions.len()]),
                ) by {
                    if j < earlier.len() {
                        assert(now[j] == earlier[j]);
                    }
                }
            }
            i += 1;
        }
        let known = self.functions().len();
        assert(base + module.toplevels.len() == known);
        self.gen_bodies(base, module.toplevels)
    }

    /// Lowers the bodies of the functions of a module, in order, the first
    /// of which stands at position `base` of the signature table.
    fn gen_bodies(&mut self, base: usize, toplevels: Vec<Located<TopLevel>>) -> (r: Result<
        (),
        CompileError,
    >)
        requires
            base + toplevels.len() <= usize::MAX,
        ensures
            bodies_spec(old(self).env(), toplevels@, 0, base as int, old(self).stream()).describes(
                old(self).env(),
                final(self).env(),
                final(self).stream(),
                r,
            ),
    {
        let ghost before = self.env();
        let ghost functions = toplevels@;
        let ghost whole = bodies_spec(before, functions, 0, base as int, self.stream());
        let mut k: usize = 0;
        for located in it: toplevels
            invariant
                functions == it.seq(),
                k == it.index(),
                base + functions.len() <= usize::MAX,
                before == old(self).env(),
                self.env() == (Env { variables: self.env().variables, ..before }),
                whole == bodies_spec(before, functions, 0, base as int, old(self).stream()),
                whole == bodies_spec(self.env(), functions, k as int, base as int, self.stream()),
        {
            match located.value {
                TopLevel::Function(function) => match self.gen_body(base + k, function.body) {
                    Ok(_) => {},
                    Err(e) => {
                        return Err(e);
                    },
                },
            }
            k += 1;
        }
        Ok(())
    }
}

} // verus!
