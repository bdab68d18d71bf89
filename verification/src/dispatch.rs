//! The type dispatcher: from a requested type to the place that holds it.

use crate::TypeToken;
use vstd::prelude::*;

verus! {

/// Where a requested type is found.
#[derive(Clone, Copy, Debug, PartialEq, Eq, Structural)]
pub enum Dispatch {
    /// The fixed slot at this position in declaration order.
    Fixed(usize),
    /// No fixed slot is declared for the type; the open extension is keyed by it.
    Open,
    /// No fixed slot is declared for the type and there is no open extension.
    Absent,
}

/// The dispatch decision: the first fixed slot declared for `requested`, and
/// failing that the open extension where there is one.
pub open spec fn dispatch_spec(fixed: Seq<TypeToken>, extensible: bool, requested: TypeToken) -> Dispatch {
    match fixed.index_of_first(requested) {
        Some(i) => Dispatch::Fixed(i as usize),
        None => if extensible {
            Dispatch::Open
        } else {
            Dispatch::Absent
        },
    }
}

/// Compares `requested` against each fixed slot's type in declaration order and
/// stops at the first match.
pub fn dispatch(fixed: &Vec<TypeToken>, extensible: bool, requested: TypeToken) -> (d: Dispatch)
    ensures
        d == dispatch_spec(fixed@, extensible, requested),
        d matches Dispatch::Fixed(i) ==> i < fixed.len() && fixed[i as int] == requested,
        !(d is Fixed) ==> !fixed@.contains(requested),
{
    let mut i: usize = 0;
    while i < fixed.len()
        invariant
            i <= fixed.len(),
            forall|j: int| 0 <= j < i ==> fixed[j] != requested,
        decreases fixed.len() - i,
    {
        if fixed[i] == requested {
            proof {
                fixed@.index_of_first_ensures(requested);
            }
            return Dispatch::Fixed(i);
        }
        i = i + 1;
    }
    proof {
        fixed@.index_of_first_ensures(requested);
    }
    if extensible {
        Dispatch::Open
    } else {
        Dispatch::Absent
    }
}

/// Dispatch finds a fixed slot exactly for the declared types, and then the
/// slot found holds the requested type.
pub proof fn lemma_dispatch_fixed(fixed: Seq<TypeToken>, extensible: bool, requested: TypeToken)
    requires
        fixed.len() <= usize::MAX,
    ensures
        dispatch_spec(fixed, extensible, requested) is Fixed <==> fixed.contains(requested),
        dispatch_spec(fixed, extensible, requested) matches Dispatch::Fixed(i) ==> i < fixed.len()
            && fixed[i as int] == requested && forall|j: int| 0 <= j < i ==> fixed[j] != requested,
        dispatch_spec(fixed, extensible, requested) is Open ==> extensible,
        dispatch_spec(fixed, extensible, requested) is Absent ==> !extensible,
{
    fixed.index_of_first_ensures(requested);
}

} // verus!
