//! Typemaps with a fixed, declared part and an optional open extension.
//!
//! A container is described by a schema ([`schema`]): an ordered list of
//! fields, one per declared type, plus two options (whether values of
//! undeclared types are accepted, and by which capabilities the container can
//! be iterated). The capabilities are listed in order ([`order`]), the names
//! of a schema are resolved ([`names`]) and its layout is planned
//! ([`layout`]). From a layout the container comes in two forms:
//!
//! - as source text ([`emit`]): a struct with one field per declared type, a
//!   dispatch by type identity, and allocation-free iteration by capability;
//! - as a value ([`typemap::TypeMap`]): the same container built at run time,
//!   with the mathematical model of what it holds and what its operations do
//!   ([`model`]).
//!
//! In a [`typemap::TypeMap`] types are told apart by a type-identity token, a
//! plain integer that the user assigns to each type whose values are stored.
//! The container holds its values with the type erased, as values of one type
//! `V` through which every capability sees them. An erased value still carries
//! the identity of its type, and the container keeps key and stored type in
//! step: what it stores for a type is a value of that type. [`typed`] stores
//! and fetches values by their own types.

pub mod access;
pub mod cell;
pub mod dispatch;
pub mod emit;
pub mod example;
pub mod layout;
pub mod model;
pub mod names;
pub mod order;
pub mod schema;
pub mod typed;
pub mod typemap;

use vstd::prelude::*;

verus! {

/// A type-identity token: stands for one stored type, compares by equality and
/// keys the open extension.
pub type TypeToken = u64;

} // verus!
