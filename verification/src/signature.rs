//! The signatures of the functions that calls may name.

use vstd::prelude::*;
use crate::ast::ResolvedType;
use crate::text::str_eq;

verus! {

/// What a caller has to know of a function: its name, the types of its
/// parameters in order, and the type of what it returns.
#[derive(Debug, PartialEq, Eq)]
pub struct FunctionSignature {
    pub name: String,
    pub params: Vec<ResolvedType>,
    pub return_type: ResolvedType,
}

/// The position of the signature that `name` stands for: the one declared
/// last under that name.
pub open spec fn find_function(functions: Seq<FunctionSignature>, name: Seq<char>) -> Option<int>
    decreases functions.len(),
{
    if functions.len() == 0 {
        None
    } else if functions.last().name@ == name {
        Some(functions.len() - 1)
    } else {
        find_function(functions.drop_last(), name)
    }
}

/// What `find_function` finds is a position of the table, and the signature
/// there bears the name.
pub proof fn lemma_find_function_in_range(functions: Seq<FunctionSignature>, name: Seq<char>)
    ensures
        find_function(functions, name) matches Some(i) ==> 0 <= i < functions.len()
            && functions[i].name@ == name,
    decreases functions.len(),
{
    if functions.len() > 0 && functions.last().name@ != name {
        lemma_find_function_in_range(functions.drop_last(), name);
    }
}

pub fn lookup_function(functions: &Vec<FunctionSignature>, name: &str) -> (r: Option<usize>)
    ensures
        match r {
            Some(i) => find_function(functions@, name@) == Some(i as int) && i < functions.len(),
            None => find_function(functions@, name@) is None,
        },
{
    let mut i = functions.len();
    assert(functions@.subrange(0, i as int) =~= functions@);
    while i > 0
        invariant
            i <= functions.len(),
            find_function(functions@, name@) == find_function(
                functions@.subrange(0, i as int),
                name@,
            ),
        decreases i,
    {
        proof {
            let prefix = functions@.subrange(0, i as int);
            assert(prefix.last() == functions@[i - 1]);
            assert(prefix.drop_last() =~= functions@.subrange(0, i - 1));
        }
        i -= 1;
        if str_eq(functions[i].name.as_str(), name) {
            return Some(i);
        }
    }
    None
}

} // verus!
