//! The dynamic cell: one entry of the open extension.

use crate::model::Erased;
use crate::TypeToken;
use vstd::prelude::*;

verus! {

/// An owned, type-erased value together with the identity of the type it was
/// built from. The identity is read off the value when the cell is made, and
/// the cell hands out its value for reading only, so a cell never comes to
/// hold a value under a type that it was not built from.
pub struct DynamicCell<V> {
    token: TypeToken,
    value: V,
}

impl<V: Erased> DynamicCell<V> {
    /// The type that the cell was built from.
    pub closed spec fn stored_type(&self) -> TypeToken {
        self.token
    }

    /// The value that the cell holds.
    pub closed spec fn content(&self) -> V {
        self.value
    }

    /// Whether the cell holds a value of the type that it was built from.
    pub open spec fn in_step(&self) -> bool {
        self.content().type_of() == self.stored_type()
    }

    /// Builds the cell for a value: the cell is built from the value's own
    /// type.
    pub fn new(value: V) -> (cell: Self)
        ensures
            cell.stored_type() == value.type_of(),
            cell.content() == value,
            cell.in_step(),
    {
        let token = value.type_token();
        DynamicCell { token, value }
    }

    /// The type that the cell was built from.
    pub fn type_token(&self) -> (t: TypeToken)
        ensures
            t == self.stored_type(),
    {
        self.token
    }

    /// The immutable view of the stored value.
    pub fn value(&self) -> (r: &V)
        ensures
            *r == self.content(),
    {
        &self.value
    }

    /// The mutable view of the stored value. The stored type stays; whoever
    /// writes through the view has to write a value of that type.
    pub(crate) fn value_mut(&mut self) -> (r: &mut V)
        ensures
            *r == old(self).content(),
            final(self).content() == *final(r),
            final(self).stored_type() == old(self).stored_type(),
    {
        &mut self.value
    }

    /// Checked downcast: the value, if the cell was built from `token`'s type.
    pub fn downcast_ref(&self, token: TypeToken) -> (r: Option<&V>)
        ensures
            r == (if self.stored_type() == token {
                Some(&self.content())
            } else {
                None
            }),
    {
        if self.token == token {
            Some(&self.value)
        } else {
            None
        }
    }

    /// Checked downcast by value: the stored value if the cell was built from
    /// `token`'s type, and the cell itself otherwise.
    pub fn downcast(self, token: TypeToken) -> (r: Result<V, DynamicCell<V>>)
        ensures
            r == (if self.stored_type() == token {
                Ok::<V, DynamicCell<V>>(self.content())
            } else {
                Err::<V, DynamicCell<V>>(self)
            }),
    {
        if self.token == token {
            Ok(self.value)
        } else {
            Err(self)
        }
    }
}

} // verus!
