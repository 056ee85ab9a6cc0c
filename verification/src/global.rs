//! Global variables.

use vstd::prelude::*;
use crate::value::{Value, ValueType};

verus! {

/// The declared type of a global.
#[derive(Clone, Copy, Debug, PartialEq, Eq, Structural)]
pub struct GlobalType {
    pub content_type: ValueType,
    pub mutable: bool,
}

/// Why a global could not be set.
#[derive(Clone, Copy, Debug, PartialEq, Eq, Structural)]
pub enum Error {
    /// The global is immutable.
    Immutable,
    /// The value is not of the global's type.
    TypeMismatch { expected: ValueType, actual: ValueType },
}

/// A global: a value that keeps its declared type for as long as it lives.
#[derive(Debug)]
pub struct GlobalInstance {
    ty: GlobalType,
    value: Value,
}

impl GlobalInstance {
    #[verifier::type_invariant]
    spec fn inv(self) -> bool {
        self.value.value_type() == self.ty.content_type
    }

    /// The value that the global holds.
    pub closed spec fn spec_value(&self) -> Value {
        self.value
    }

    /// The declared type.
    pub closed spec fn spec_ty(&self) -> GlobalType {
        self.ty
    }

    /// A global of type `ty` that holds `value`.
    pub fn new(value: Value, ty: GlobalType) -> (global: GlobalInstance)
        requires
            value.value_type() == ty.content_type,
        ensures
            global.spec_value() == value,
            global.spec_ty() == ty,
    {
        GlobalInstance { ty, value }
    }

    #[verifier::when_used_as_spec(spec_value)]
    pub fn value(&self) -> (v: Value)
        ensures
            v == self.spec_value(),
            v.value_type() == self.spec_ty().content_type,
    {
        proof {
            use_type_invariant(self);
        }
        self.value
    }

    #[verifier::when_used_as_spec(spec_ty)]
    pub fn ty(&self) -> (ty: GlobalType)
        ensures
            ty == self.spec_ty(),
    {
        self.ty
    }

    pub fn is_mutable(&self) -> (mutable: bool)
        ensures
            mutable == self.spec_ty().mutable,
    {
        self.ty.mutable
    }

    /// Sets the value of a mutable global to one of its type; fails, and
    /// changes nothing, for any other.
    pub fn set_value(&mut self, value: Value) -> (r: Result<(), Error>)
        ensures
            r == set_global_result(old(self).spec_ty(), value),
            final(self).spec_ty() == old(self).spec_ty(),
            final(self).spec_value() == (if r is Ok {
                value
            } else {
                old(self).spec_value()
            }),
    {
        if !self.ty.mutable {
            return Err(Error::Immutable);
        }
        if value.value_type() != self.ty.content_type {
            return Err(
                Error::TypeMismatch { expected: self.ty.content_type, actual: value.value_type() },
            );
        }
        self.value = value;
        Ok(())
    }
}

/// What setting a global of type `ty` to `value` returns.
pub open spec fn set_global_result(ty: GlobalType, value: Value) -> Result<(), Error> {
    if !ty.mutable {
        Err(Error::Immutable)
    } else if value.value_type() != ty.content_type {
        Err(Error::TypeMismatch { expected: ty.content_type, actual: value.value_type() })
    } else {
        Ok(())
    }
}

} // verus!
