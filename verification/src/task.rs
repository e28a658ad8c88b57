//! Tasks, and what is known of the types of their futures.
use std::any::TypeId;
use std::cmp::Ordering;
use vstd::prelude::*;

verus! {

/// `std::any::TypeId`, an opaque value to the verifier.
#[verifier::external_type_specification]
#[verifier::external_body]
pub struct ExTypeId(std::any::TypeId);

/// `std::any::TypeId::of`, which returns the identifier of the type it is instantiated with.
///
/// Nothing is claimed of the identifier itself, whose value may differ between compilations.
/// Contracts tie an identifier to its type by naming this function in `call_ensures`.
pub assume_specification<T: ?Sized + 'static>[ TypeId::of::<T> ]() -> TypeId;

/// What is known of the type of a task's future
#[derive(Clone, Copy, Debug)]
pub struct TypeInfo {
    pub type_id: Option<TypeId>,
    pub name: &'static str,
}

impl TypeInfo {
    /// Information on the type `T`, which the host knows under the given name
    pub fn new<T>(name: &'static str) -> (info: Self) where T: 'static
        ensures
            info.name == name,
            info.type_id is Some,
            call_ensures(TypeId::of::<T>, (), info.type_id->0),
    {
        TypeInfo { type_id: Some(TypeId::of::<T>()), name }
    }

    /// Information on a type that may borrow, and of which no type identifier can be had
    pub fn new_non_static(name: &'static str) -> (info: Self)
        ensures
            info == (TypeInfo { type_id: None, name }),
    {
        TypeInfo { type_id: None, name }
    }

    /// Returns the task's type name
    pub fn name(&self) -> (name: &'static str)
        ensures
            name == self.name,
    {
        self.name
    }

    /// Returns the task's [`std::any::TypeId`]
    ///
    /// If it's `None` then the type is not known to have a `'static` lifetime
    pub fn type_id(&self) -> (type_id: Option<TypeId>)
        ensures
            type_id == self.type_id,
    {
        self.type_id
    }
}

/// Task information
///
/// Tasks are told apart, and ordered, by their tokens alone.
#[must_use]
pub struct Task {
    pub token: usize,
    pub type_info: TypeInfo,
}

impl Clone for Task {
    fn clone(&self) -> (copy: Self)
        ensures
            copy == *self,
    {
        Task { token: self.token, type_info: self.type_info }
    }
}

impl PartialEq for Task {
    fn eq(&self, other: &Self) -> (equal: bool) {
        self.token == other.token
    }
}

impl vstd::std_specs::cmp::PartialEqSpecImpl for Task {
    open spec fn obeys_eq_spec() -> bool {
        true
    }

    open spec fn eq_spec(&self, other: &Self) -> bool {
        self.token == other.token
    }
}

impl Eq for Task {

}

impl PartialOrd for Task {
    fn partial_cmp(&self, other: &Self) -> (order: Option<Ordering>) {
        self.token.partial_cmp(&other.token)
    }
}

impl vstd::std_specs::cmp::PartialOrdSpecImpl for Task {
    open spec fn obeys_partial_cmp_spec() -> bool {
        true
    }

    open spec fn partial_cmp_spec(&self, other: &Self) -> Option<Ordering> {
        Some(token_order(self.token, other.token))
    }
}

/// How two tokens compare.
pub open spec fn token_order(left: usize, right: usize) -> Ordering {
    if left < right {
        Ordering::Less
    } else if left == right {
        Ordering::Equal
    } else {
        Ordering::Greater
    }
}

impl Task {
    /// Compares two tasks by their tokens
    pub fn cmp(&self, other: &Self) -> (order: Ordering)
        ensures
            order == token_order(self.token, other.token),
            order == Ordering::Less <==> self.token < other.token,
            order == Ordering::Equal <==> self.token == other.token,
            order == Ordering::Greater <==> self.token > other.token,
    {
        self.token.cmp(&other.token)
    }

    /// What is known of the type of the task's future
    pub fn type_info(&self) -> (info: &TypeInfo)
        ensures
            *info == self.type_info,
    {
        &self.type_info
    }
}

} // verus!
