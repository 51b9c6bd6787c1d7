//! The variables of one function: a flat table from names to the declared
//! type and the storage of each. A later binding of a name replaces the
//! earlier one; nothing is ever removed.

use vstd::prelude::*;
use crate::ast::UnresolvedType;
use crate::error::{CompileError, CompileErrorKind};
use crate::text::str_eq;
use crate::value::StorageHandle;

verus! {

/// What a name is bound to: the type it was declared with, as written, and
/// the slot that holds its value.
#[derive(Debug, PartialEq, Eq)]
pub struct VariableBinding {
    pub ty: UnresolvedType,
    pub storage: StorageHandle,
}

struct Entry {
    name: String,
    binding: VariableBinding,
}

pub struct VariableTable {
    entries: Vec<Entry>,
}

/// The mapping that a list of bindings stands for: later entries win.
spec fn mapping(entries: Seq<Entry>) -> Map<Seq<char>, VariableBinding>
    decreases entries.len(),
{
    if entries.len() == 0 {
        Map::empty()
    } else {
        mapping(entries.drop_last()).insert(entries.last().name@, entries.last().binding)
    }
}

/// The entry at `i` decides what `name` maps to when no later entry bears the
/// name; a name that no entry bears is not mapped.
proof fn lemma_mapping_lookup(entries: Seq<Entry>, name: Seq<char>, i: int)
    requires
        -1 <= i < entries.len(),
        i >= 0 ==> entries[i].name@ == name,
        forall|k: int| i < k < entries.len() ==> entries[k].name@ != name,
    ensures
        i >= 0 ==> mapping(entries).contains_key(name) && mapping(entries)[name]
            == entries[i].binding,
        i < 0 ==> !mapping(entries).contains_key(name),
    decreases entries.len(),
{
    if entries.len() > 0 && i < entries.len() - 1 {
        lemma_mapping_lookup(entries.drop_last(), name, i);
    }
}

impl View for VariableTable {
    type V = Map<Seq<char>, VariableBinding>;

    closed spec fn view(&self) -> Map<Seq<char>, VariableBinding> {
        mapping(self.entries@)
    }
}

impl VariableTable {
    pub fn new() -> (table: VariableTable)
        ensures
            table@ == Map::<Seq<char>, VariableBinding>::empty(),
    {
        VariableTable { entries: Vec::new() }
    }

    /// Binds `name`. This always succeeds; a binding that the name had before
    /// is no longer seen.
    pub fn bind(&mut self, name: String, ty: UnresolvedType, storage: StorageHandle)
        ensures
            final(self)@ == old(self)@.insert(name@, VariableBinding { ty, storage }),
    {
        let entry = Entry { name, binding: VariableBinding { ty, storage } };
        proof {
            assert(self.entries@.push(entry).drop_last() =~= self.entries@);
        }
        self.entries.push(entry);
    }

    /// The binding of `name`, or `UnknownVariable` if it has none.
    pub fn lookup(&self, name: &str) -> (r: Result<&VariableBinding, CompileError>)
        ensures
            match r {
                Ok(binding) => self@.contains_key(name@) && *binding == self@[name@],
                Err(e) => !self@.contains_key(name@) && e.is_plain(
                    CompileErrorKind::UnknownVariable,
                ),
            },
    {
        let mut i = self.entries.len();
        while i > 0
            invariant
                i <= self.entries.len(),
                forall|k: int| i <= k < self.entries.len() ==> self.entries[k].name@ != name@,
            decreases i,
        {
            i -= 1;
            if str_eq(self.entries[i].name.as_str(), name) {
                proof {
                    lemma_mapping_lookup(self.entries@, name@, i as int);
                }
                return Ok(&self.entries[i].binding);
            }
        }
        proof {
            lemma_mapping_lookup(self.entries@, name@, -1);
        }
        Err(CompileError::from_error_kind(CompileErrorKind::UnknownVariable))
    }
}

/// Shadowing: once a name is bound anew, the name maps to the new binding
/// alone, whatever it was bound to before, and every other name maps to what
/// it mapped to before.
pub proof fn lemma_bind_shadows(
    before: Map<Seq<char>, VariableBinding>,
    name: Seq<char>,
    binding: VariableBinding,
    other: Seq<char>,
)
    ensures
        before.insert(name, binding).contains_key(name),
        before.insert(name, binding)[name] == binding,
        other != name ==> before.insert(name, binding).contains_key(other) == before.contains_key(
            other,
        ),
        other != name && before.contains_key(other) ==> before.insert(name, binding)[other]
            == before[other],
{
}

} // verus!
