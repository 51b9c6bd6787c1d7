//! Lowering of statements, one at a time and in order. Nothing is rejected
//! for being unreachable: a statement after a `return` is lowered like any
//! other.

use vstd::prelude::*;
use crate::ast::{Expression, Located, ResolvedType, Statement, UnresolvedType};
use crate::bindings::VariableBinding;
use crate::codegen::{Env, LLVMCodegenerator, Lowered, Outcome};
use crate::error::{CompileError, CompileErrorKind, ContextType};
use crate::expression::{eval_spec, place_spec};
use crate::instruction::Instruction;
use crate::types::{resolve_spec, PointerSize};
use crate::value::{Operand, StorageHandle, Value};

verus! {

/// Writes a value of type `ty` to `address`: the integer of an integer, the
/// address of a pointer. `Void` cannot be written (`Unrepresentable`).
pub open spec fn store_spec(
    address: Operand,
    ty: ResolvedType,
    value: Value,
    stream: Seq<Instruction>,
    pointer_size: PointerSize,
) -> Outcome<()> {
    match ty.size_class_of(pointer_size) {
        None => Outcome::fail(stream, CompileErrorKind::Unrepresentable { ty }),
        Some(size) => Outcome::done(
            stream.push(Instruction::Store { address, value: value.operand_of().unwrap(), size }),
            (),
        ),
    }
}

/// A declaration: the type is resolved (`UnknownType`), then the initializer
/// is evaluated with that type expected. For `void` that is all, and the name
/// is bound to the placeholder. Otherwise the initializer must have exactly
/// the declared type (`TypeMismatch`); a slot of the type's size is
/// allocated, the value is stored there, and the name is bound to the slot.
/// Either way the binding replaces any that the name had, and a failure binds
/// nothing.
pub open spec fn variable_decl_spec(
    env: Env,
    ty: UnresolvedType,
    name: String,
    value: Expression,
    stream: Seq<Instruction>,
) -> Lowered {
    match resolve_spec(ty) {
        None => Lowered::fail(stream, env.variables, CompileErrorKind::UnknownType),
        Some(declared) => {
            let initial = eval_spec(env, value, Some(declared), stream);
            match initial.result {
                Err(kind) => Lowered::fail(initial.stream, env.variables, kind),
                Ok(evaluated) => match declared.size_class_of(env.pointer_size) {
                    None => Lowered::done(
                        initial.stream,
                        env.variables.insert(
                            name@,
                            VariableBinding { ty, storage: StorageHandle::Placeholder },
                        ),
                    ),
                    Some(size) => if evaluated.type_of() != declared {
                        Lowered::fail(
                            initial.stream,
                            env.variables,
                            CompileErrorKind::TypeMismatch {
                                expected: declared,
                                actual: evaluated.type_of(),
                            },
                        )
                    } else {
                        let slot = initial.stream.len() as usize;
                        Lowered::done(
                            store_spec(
                                Operand::Value(slot),
                                declared,
                                evaluated,
                                initial.stream.push(Instruction::Alloca { size }),
                                env.pointer_size,
                            ).stream,
                            env.variables.insert(
                                name@,
                                VariableBinding { ty, storage: StorageHandle::Slot(slot) },
                            ),
                        )
                    },
                },
            }
        },
    }
}

/// A return: of the value of the expression, evaluated with no type
/// expected, or of nothing, also where the expression is of type `void`. The
/// value is not held against the return type of the function.
pub open spec fn return_spec(env: Env, expression: Option<Expression>, stream: Seq<Instruction>)
    -> Lowered {
    match expression {
        None => Lowered::done(stream.push(Instruction::ReturnVoid), env.variables),
        Some(returned) => {
            let evaluated = eval_spec(env, returned, None, stream);
            match evaluated.result {
                Err(kind) => Lowered::fail(evaluated.stream, env.variables, kind),
                Ok(value) => Lowered::done(
                    evaluated.stream.push(
                        match value.type_of().size_class_of(env.pointer_size) {
                            Some(size) => Instruction::Return {
                                value: value.operand_of().unwrap(),
                                size,
                            },
                            None => Instruction::ReturnVoid,
                        },
                    ),
                    env.variables,
                ),
            }
        },
    }
}

/// An assignment: the place is found, the right-hand side is evaluated with
/// the type of the place expected, and must come out with exactly that type
/// (`TypeMismatch`, whatever the widths); then it is stored.
pub open spec fn assign_spec(
    env: Env,
    deref_count: u32,
    index: Option<Expression>,
    name: String,
    expression: Expression,
    stream: Seq<Instruction>,
) -> Lowered {
    let place = place_spec(env, name, deref_count, index, stream);
    match place.result {
        Err(kind) => Lowered::fail(place.stream, env.variables, kind),
        Ok((address, target)) => {
            let evaluated = eval_spec(env, expression, Some(target), place.stream);
            match evaluated.result {
                Err(kind) => Lowered::fail(evaluated.stream, env.variables, kind),
                Ok(value) => if value.type_of() != target {
                    Lowered::fail(
                        evaluated.stream,
                        env.variables,
                        CompileErrorKind::TypeMismatch {
                            expected: target,
                            actual: value.type_of(),
                        },
                    )
                } else {
                    let stored = store_spec(
                        address,
                        target,
                        value,
                        evaluated.stream,
                        env.pointer_size,
                    );
                    match stored.result {
                        Err(kind) => Lowered::fail(stored.stream, env.variables, kind),
                        Ok(_) => Lowered::done(stored.stream, env.variables),
                    }
                },
            }
        },
    }
}

/// An expression evaluated for what it does: with no type expected, and the
/// value dropped.
pub open spec fn discard_spec(env: Env, expression: Expression, stream: Seq<Instruction>)
    -> Lowered {
    let evaluated = eval_spec(env, expression, None, stream);
    match evaluated.result {
        Err(kind) => Lowered::fail(evaluated.stream, env.variables, kind),
        Ok(_) => Lowered::done(evaluated.stream, env.variables),
    }
}

/// The index of an assignment, without its source range.
pub open spec fn index_of(index_access: Option<Located<Expression>>) -> Option<Expression> {
    match index_access {
        Some(index) => Some(index.value),
        None => None,
    }
}

/// The phase that a failure in a statement is reported under.
pub open spec fn phase_of(statement: Statement) -> ContextType {
    match statement {
        Statement::VariableDecl { .. } => ContextType::VariableDeclStatement,
        Statement::Return { .. } => ContextType::ReturnStatement,
        Statement::Asignment { .. } => ContextType::AsignStatement,
        Statement::Effect { .. } => ContextType::DiscardedExpressionStatement,
    }
}

/// What lowering one statement comes to. A failure keeps its kind and takes
/// the phase of the statement into its trail.
pub open spec fn statement_spec(env: Env, statement: Statement, stream: Seq<Instruction>)
    -> Lowered {
    match statement {
        Statement::VariableDecl { ty, name, value } => variable_decl_spec(
            env,
            ty.value,
            name,
            value.value,
            stream,
        ),
        Statement::Return { expression } => return_spec(env, index_of(expression), stream),
        Statement::Asignment { deref_count, index_access, name, expression } => assign_spec(
            env,
            deref_count,
            index_of(index_access),
            name,
            expression.value,
            stream,
        ),
        Statement::Effect { expression } => discard_spec(env, expression.value, stream),
    }.within(phase_of(statement))
}

/// Shadowing. After a declaration has been lowered, its name is bound to the
/// type it was declared with, whatever the name was bound to before, and every
/// other name is bound as before. A declaration that fails binds nothing.
pub proof fn lemma_declaration_shadows(
    env: Env,
    ty: UnresolvedType,
    name: String,
    value: Expression,
    stream: Seq<Instruction>,
    other: Seq<char>,
)
    ensures
        ({
            let lowered = variable_decl_spec(env, ty, name, value, stream);
            &&& lowered.result is Ok ==> {
                &&& lowered.variables.contains_key(name@)
                &&& lowered.variables[name@].ty == ty
                &&& other != name@ ==> lowered.variables.contains_key(other)
                    == env.variables.contains_key(other)
                &&& other != name@ && env.variables.contains_key(other)
                    ==> lowered.variables[other] == env.variables[other]
            }
            &&& lowered.result is Err ==> lowered.variables == env.variables
        }),
{
}

/// After a declaration of a type other than `void` has been lowered, the name
/// denotes the slot that the declaration allocated, with the declared type.
pub proof fn lemma_declared_name_denotes_new_slot(
    env: Env,
    ty: UnresolvedType,
    name: String,
    value: Expression,
    stream: Seq<Instruction>,
    later: Seq<Instruction>,
)
    requires
        variable_decl_spec(env, ty, name, value, stream).result is Ok,
        !(resolve_spec(ty) == Some(ResolvedType::Void)),
    ensures
        ({
            let lowered = variable_decl_spec(env, ty, name, value, stream);
            let slot = (lowered.stream.len() - 2) as usize;
            &&& lowered.stream[lowered.stream.len() - 2] is Alloca
            &&& lowered.stream.last() is Store
            &&& crate::expression::base_spec(
                Env { variables: lowered.variables, ..env },
                name,
                0,
                later,
            ) == Outcome::done(later, (Operand::Value(slot), resolve_spec(ty).unwrap()))
        }),
{
    let declared = resolve_spec(ty).unwrap();
    let initial = eval_spec(env, value, Some(declared), stream);
    assert(declared.size_class_of(env.pointer_size) is Some);
}

/// An assignment stores a value of exactly the type of its target: where the
/// right-hand side comes out with another type, nothing is stored.
pub proof fn lemma_assignment_needs_exact_type(
    env: Env,
    deref_count: u32,
    index: Option<Expression>,
    name: String,
    expression: Expression,
    stream: Seq<Instruction>,
)
    requires
        place_spec(env, name, deref_count, index, stream).result is Ok,
        eval_spec(
            env,
            expression,
            Some(place_spec(env, name, deref_count, index, stream).result.unwrap().1),
            place_spec(env, name, deref_count, index, stream).stream,
        ).result is Ok,
    ensures
        ({
            let place = place_spec(env, name, deref_count, index, stream);
            let target = place.result.unwrap().1;
            let evaluated = eval_spec(env, expression, Some(target), place.stream);
            let actual = evaluated.result.unwrap().type_of();
            let lowered = assign_spec(env, deref_count, index, name, expression, stream);
            &&& actual != target ==> lowered == Lowered::fail(
                evaluated.stream,
                env.variables,
                CompileErrorKind::TypeMismatch { expected: target, actual },
            )
            &&& actual == target && !(target is Void) ==> lowered.result is Ok
                && lowered.stream.len() == evaluated.stream.len() + 1 && lowered.stream.last()
                is Store
        }),
{
}

impl LLVMCodegenerator {
    /// Stores an evaluated value of type `ty` at `address`.
    pub(crate) fn store(&mut self, address: Operand, ty: &ResolvedType, value: &Value) -> (r:
        Result<(), CompileError>)
        requires
            value.type_of() == *ty,
        ensures
            final(self).env() == old(self).env(),
            store_spec(
                address,
                *ty,
                *value,
                old(self).stream(),
                old(self).env().pointer_size,
            ).describes(final(self).stream(), r),
    {
        let size = match ty.size_class(self.pointer_size()) {
            Some(size) => size,
            None => {
                return Err(
                    CompileError::from_error_kind(
                        CompileErrorKind::Unrepresentable { ty: ty.clone() },
                    ),
                );
            },
        };
        let stored = if ty.is_integer_type() {
            value.unwrap_int_value()
        } else {
            value.unwrap_pointer_value()
        };
        self.emit(Instruction::Store { address, value: stored, size });
        Ok(())
    }

    /// Lowers a declaration. See `variable_decl_spec`.
    pub fn gen_variable_decl(&mut self, ty: UnresolvedType, name: String, value: Expression) -> (r:
        Result<(), CompileError>)
        ensures
            variable_decl_spec(old(self).env(), ty, name, value, old(self).stream()).describes(
                old(self).env(),
                final(self).env(),
                final(self).stream(),
                r,
            ),
    {
        let declared = match self.resolve_type(&ty) {
            Ok(declared) => declared,
            Err(e) => {
                return Err(e);
            },
        };
        let (actual, evaluated) = match self.eval_expression(&value, Some(&declared)) {
            Ok(found) => found,
            Err(e) => {
                return Err(e);
            },
        };
        match declared.size_class(self.pointer_size()) {
            None => {
                self.set_variable(name, ty, StorageHandle::Placeholder);
                Ok(())
            },
            Some(size) => {
                if !actual.same_as(&declared) {
                    return Err(
                        CompileError::from_error_kind(
                            CompileErrorKind::TypeMismatch { expected: declared, actual },
                        ),
                    );
                }
                let slot = self.emit(Instruction::Alloca { size });
                match self.store(Operand::Value(slot), &declared, &evaluated) {
                    Ok(_) => {
                        self.set_variable(name, ty, StorageHandle::Slot(slot));
                        Ok(())
                    },
                    Err(e) => Err(e),
                }
            },
        }
    }

    /// Lowers a return. See `return_spec`.
    pub fn gen_return(&mut self, opt_expr: Option<Expression>) -> (r: Result<(), CompileError>)
        ensures
            return_spec(old(self).env(), opt_expr, old(self).stream()).describes(
                old(self).env(),
                final(self).env(),
                final(self).stream(),
                r,
            ),
    {
        match opt_expr {
            Some(returned) => {
                let value = match self.eval_expression(&returned, None) {
                    Ok((_, value)) => value,
                    Err(e) => {
                        return Err(e);
                    },
                };
                match value.get_type().size_class(self.pointer_size()) {
                    Some(size) => {
                        self.emit(Instruction::Return { value: value.unwrap_operand(), size });
                    },
                    None => {
                        self.emit(Instruction::ReturnVoid);
                    },
                }
            },
            None => {
                self.emit(Instruction::ReturnVoid);
            },
        }
        Ok(())
    }

    /// Lowers an assignment. See `assign_spec`.
    pub fn gen_asignment(
        &mut self,
        deref_count: u32,
        index_access: Option<Located<Expression>>,
        name: String,
        expression: Located<Expression>,
    ) -> (r: Result<(), CompileError>)
        ensures
            assign_spec(
                old(self).env(),
                deref_count,
                index_of(index_access),
                name,
                expression.value,
                old(self).stream(),
            ).describes(old(self).env(), final(self).env(), final(self).stream(), r),
    {
        let (base, found) = match self.resolve_base(&name, deref_count) {
            Ok(place) => place,
            Err(e) => {
                return Err(e);
            },
        };
        let (address, target) = match index_access {
            None => (base, found),
            Some(index) => match self.index_place(&name, base, found, &index.value) {
                Ok(place) => place,
                Err(e) => {
                    return Err(e);
                },
            },
        };
        let (actual, value) = match self.eval_expression(&expression.value, Some(&target)) {
            Ok(evaluated) => evaluated,
            Err(e) => {
                return Err(e);
            },
        };
        if !actual.same_as(&target) {
            return Err(
                CompileError::from_error_kind(
                    CompileErrorKind::TypeMismatch { expected: target, actual },
                ),
            );
        }
        self.store(address, &target, &value)
    }

    /// Lowers an expression whose value nobody takes. See `discard_spec`.
    pub fn gen_discarded_expression(&mut self, expression: Expression) -> (r: Result<
        (),
        CompileError,
    >)
        ensures
            discard_spec(old(self).env(), expression, old(self).stream()).describes(
                old(self).env(),
                final(self).env(),
                final(self).stream(),
                r,
            ),
    {
        match self.eval_expression(&expression, None) {
            Ok(_) => Ok(()),
            Err(e) => Err(e),
        }
    }

    /// Lowers one statement. A failure is reported under the phase of the
    /// statement, with its kind unchanged. See `statement_spec`.
    pub fn gen_statement(&mut self, statement: Statement) -> (r: Result<(), CompileError>)
        ensures
            statement_spec(old(self).env(), statement, old(self).stream()).describes(
                old(self).env(),
                final(self).env(),
                final(self).stream(),
                r,
            ),
    {
        let (lowered, phase) = match statement {
            Statement::VariableDecl { ty, name, value } => (
                self.gen_variable_decl(ty.value, name, value.value),
                ContextType::VariableDeclStatement,
            ),
            Statement::Return { expression } => (
                self.gen_return(
                    match expression {
                        Some(returned) => Some(returned.value),
                        None => None,
                    },
                ),
                ContextType::ReturnStatement,
            ),
            Statement::Asignment { deref_count, index_access, name, expression } => (
                self.gen_asignment(deref_count, index_access, name, expression),
                ContextType::AsignStatement,
            ),
            Statement::Effect { expression } => (
                self.gen_discarded_expression(expression.value),
                ContextType::DiscardedExpressionStatement,
            ),
        };
        match lowered {
            Ok(_) => Ok(()),
            Err(e) => {
                let ghost plain = e.contexts@;
                let reported = e.with_context(phase);
                assert(plain.push(phase) =~= reported.contexts@);
                Err(reported)
            },
        }
    }
}

} // verus!
