//! The code generator: the instruction stream it has emitted so far, the
//! variables of the function it is lowering, and the signatures it knows.

use vstd::prelude::*;
use crate::ast::{Range, ResolvedType, UnresolvedType};
use crate::bindings::{VariableBinding, VariableTable};
use crate::error::{CompileError, CompileErrorKind, ContextType};
use crate::instruction::Instruction;
use crate::signature::{find_function, lookup_function, FunctionSignature};
use crate::types::{resolve_spec, resolve_type, PointerSize};
use crate::value::StorageHandle;

verus! {

/// What lowering reads and does not write while it evaluates an expression.
pub struct Env {
    pub pointer_size: PointerSize,
    pub variables: Map<Seq<char>, VariableBinding>,
    pub functions: Seq<FunctionSignature>,
}

/// What a step of lowering comes to: the stream as it stands afterwards, and
/// the value of the step or the kind of its failure. A step that fails keeps
/// what it had emitted before it failed.
pub struct Outcome<T> {
    pub stream: Seq<Instruction>,
    pub result: Result<T, CompileErrorKind>,
}

impl<T> Outcome<T> {
    pub open spec fn done(stream: Seq<Instruction>, value: T) -> Outcome<T> {
        Outcome { stream, result: Ok(value) }
    }

    pub open spec fn fail(stream: Seq<Instruction>, kind: CompileErrorKind) -> Outcome<T> {
        Outcome { stream, result: Err(kind) }
    }

    /// Whether a run that ended with `result` and left `stream` behind is the
    /// run described. An error of a single step has passed through no phase.
    pub open spec fn describes(
        self,
        stream: Seq<Instruction>,
        result: Result<T, CompileError>,
    ) -> bool {
        &&& stream == self.stream
        &&& match result {
            Ok(value) => self.result == Ok::<T, CompileErrorKind>(value),
            Err(e) => self.result matches Err(kind) && e.is_plain(kind),
        }
    }
}

/// A failure as it surfaces: its kind, the phases it passed through,
/// innermost first, and its place in the source, if that is known.
pub struct Failure {
    pub kind: CompileErrorKind,
    pub contexts: Seq<ContextType>,
    pub range: Option<Range>,
}

/// What lowering a statement, or a run of statements, comes to: the stream
/// and the variables as they stand afterwards, and whether it failed.
pub struct Lowered {
    pub stream: Seq<Instruction>,
    pub variables: Map<Seq<char>, VariableBinding>,
    pub result: Result<(), Failure>,
}

impl Lowered {
    pub open spec fn done(
        stream: Seq<Instruction>,
        variables: Map<Seq<char>, VariableBinding>,
    ) -> Lowered {
        Lowered { stream, variables, result: Ok(()) }
    }

    /// A failure of the given kind that has passed through no phase yet.
    pub open spec fn fail(
        stream: Seq<Instruction>,
        variables: Map<Seq<char>, VariableBinding>,
        kind: CompileErrorKind,
    ) -> Lowered {
        Lowered {
            stream,
            variables,
            result: Err(Failure { kind, contexts: Seq::empty(), range: None }),
        }
    }

    /// The same, with `phase` added to the trail of a failure.
    pub open spec fn within(self, phase: ContextType) -> Lowered {
        match self.result {
            Ok(_) => self,
            Err(failure) => Lowered {
                result: Err(Failure { contexts: failure.contexts.push(phase), ..failure }),
                ..self
            },
        }
    }

    /// The same, with the place of a failure set to `range`.
    pub open spec fn located(self, range: Range) -> Lowered {
        match self.result {
            Ok(_) => self,
            Err(failure) => Lowered {
                result: Err(Failure { range: Some(range), ..failure }),
                ..self
            },
        }
    }

    /// Whether a run that started in `before`, ended in `after` with `result`
    /// and left `stream` behind is the run described. Lowering changes the
    /// variables of an environment and nothing else of it.
    pub open spec fn describes(
        self,
        before: Env,
        after: Env,
        stream: Seq<Instruction>,
        result: Result<(), CompileError>,
    ) -> bool {
        &&& after == (Env { variables: self.variables, ..before })
        &&& stream == self.stream
        &&& match result {
            Ok(_) => self.result is Ok,
            Err(e) => self.result matches Err(failure) && e.kind == failure.kind && e.contexts@
                =~= failure.contexts && e.range == failure.range,
        }
    }
}

/// The code generator in front of the LLVM backend. It lowers a syntax tree
/// to a stream of instructions shaped after what an LLVM builder offers
/// (stack slots, loads, stores, address arithmetic, integer operations, calls
/// and returns), for the backend to perform one by one. It owns the stream,
/// the variables of the function it is lowering, and the signatures that
/// calls may name.
pub struct LLVMCodegenerator {
    pointer_size: PointerSize,
    instructions: Vec<Instruction>,
    variables: VariableTable,
    functions: Vec<FunctionSignature>,
}

impl LLVMCodegenerator {
    /// The instructions emitted so far.
    pub closed spec fn stream(&self) -> Seq<Instruction> {
        self.instructions@
    }

    /// The target, the variables in scope and the known signatures.
    pub closed spec fn env(&self) -> Env {
        Env {
            pointer_size: self.pointer_size,
            variables: self.variables@,
            functions: self.functions@,
        }
    }

    /// A generator for the given target that has emitted nothing and knows
    /// no variable and no function.
    pub fn new(pointer_size: PointerSize) -> (generator: LLVMCodegenerator)
        ensures
            generator.stream() == Seq::<Instruction>::empty(),
            generator.env() == (Env {
                pointer_size,
                variables: Map::empty(),
                functions: Seq::empty(),
            }),
    {
        LLVMCodegenerator {
            pointer_size,
            instructions: Vec::new(),
            variables: VariableTable::new(),
            functions: Vec::new(),
        }
    }

    pub fn pointer_size(&self) -> (r: PointerSize)
        ensures
            r == self.env().pointer_size,
    {
        self.pointer_size
    }

    pub fn instructions(&self) -> (r: &Vec<Instruction>)
        ensures
            r@ == self.stream(),
    {
        &self.instructions
    }

    pub fn functions(&self) -> (r: &Vec<FunctionSignature>)
        ensures
            r@ == self.env().functions,
    {
        &self.functions
    }

    /// Appends one instruction and tells its position.
    pub fn emit(&mut self, instruction: Instruction) -> (index: usize)
        ensures
            final(self).stream() == old(self).stream().push(instruction),
            final(self).env() == old(self).env(),
            index == old(self).stream().len(),
    {
        let index = self.instructions.len();
        self.instructions.push(instruction);
        index
    }

    /// The binding of a variable, or `UnknownVariable`.
    pub fn find_variable(&self, name: &str) -> (r: Result<&VariableBinding, CompileError>)
        ensures
            match r {
                Ok(binding) => self.env().variables.contains_key(name@) && *binding
                    == self.env().variables[name@],
                Err(e) => !self.env().variables.contains_key(name@) && e.is_plain(
                    CompileErrorKind::UnknownVariable,
                ),
            },
    {
        self.variables.lookup(name)
    }

    /// Binds a variable, in place of whatever the name was bound to.
    pub(crate) fn set_variable(&mut self, name: String, ty: UnresolvedType, storage: StorageHandle)
        ensures
            final(self).stream() == old(self).stream(),
            final(self).env() == (Env {
                variables: old(self).env().variables.insert(
                    name@,
                    VariableBinding { ty, storage },
                ),
                ..old(self).env()
            }),
    {
        self.variables.bind(name, ty, storage);
    }

    /// Forgets every variable: the table of one function ends here.
    pub(crate) fn clear_variables(&mut self)
        ensures
            final(self).stream() == old(self).stream(),
            final(self).env() == (Env { variables: Map::empty(), ..old(self).env() }),
    {
        self.variables = VariableTable::new();
    }

    /// Makes a signature known and tells its position in the table.
    pub fn add_function(&mut self, signature: FunctionSignature) -> (index: usize)
        ensures
            final(self).stream() == old(self).stream(),
            final(self).env() == (Env {
                functions: old(self).env().functions.push(signature),
                ..old(self).env()
            }),
            index == old(self).env().functions.len(),
    {
        let index = self.functions.len();
        self.functions.push(signature);
        index
    }

    /// The position of the signature that a name stands for.
    pub fn find_function(&self, name: &str) -> (r: Option<usize>)
        ensures
            match r {
                Some(i) => find_function(self.env().functions, name@) == Some(i as int) && i
                    < self.env().functions.len(),
                None => find_function(self.env().functions, name@) is None,
            },
    {
        lookup_function(&self.functions, name)
    }

    /// The type as written resolved; see `resolve_spec`.
    pub fn resolve_type(&self, ty: &UnresolvedType) -> (r: Result<ResolvedType, CompileError>)
        ensures
            match r {
                Ok(resolved) => resolve_spec(*ty) == Some(resolved) && resolved.pointer_depth()
                    == ty.pointer_depth(),
                Err(e) => resolve_spec(*ty) is None && e.is_plain(CompileErrorKind::UnknownType),
            },
    {
        resolve_type(ty)
    }
}

} // verus!
