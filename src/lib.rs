//! A vector that keeps, beside its elements, the positions of the elements of
//! each of two classes, so that the members of a class can be counted, listed or
//! drawn at random without a scan.
use vstd::prelude::*;

mod index_set;
pub mod model;
pub mod signvec;
pub mod views;
mod vec_ops;
mod convert;
pub mod laws;

pub use index_set::{set_members, INDEX_LIMIT};
pub use signvec::SignVec;
pub use views::{SignVecDrain, SignVecValues};

verus! {

/// The two classes an element can fall into.
#[derive(Debug, PartialEq, Eq, Structural, Copy, Clone)]
pub enum Sign {
    Plus,
    Minus,
}

/// The other class.
pub open spec fn flip_spec(s: Sign) -> Sign {
    match s {
        Sign::Plus => Sign::Minus,
        Sign::Minus => Sign::Plus,
    }
}

impl Sign {
    /// The other class.
    pub fn flip(&self) -> (r: Self)
        ensures
            r == flip_spec(*self),
    {
        match self {
            Sign::Plus => Sign::Minus,
            Sign::Minus => Sign::Plus,
        }
    }
}

/// Types whose values are classified by a sign.
pub trait Signable {
    /// The class of a value, as a mathematical function of it.
    spec fn sign_spec(&self) -> Sign;

    /// The class of a value.
    fn sign(&self) -> (r: Sign)
        ensures
            r == self.sign_spec(),
    ;
}

impl Signable for i8 {
    open spec fn sign_spec(&self) -> Sign {
        if *self >= 0 { Sign::Plus } else { Sign::Minus }
    }

    fn sign(&self) -> (r: Sign) {
        if *self >= 0 { Sign::Plus } else { Sign::Minus }
    }
}

impl From<i8> for Sign {
    fn from(num: i8) -> (r: Self) {
        if num >= 0 { Sign::Plus } else { Sign::Minus }
    }
}

impl vstd::std_specs::convert::FromSpecImpl<i8> for Sign {
    open spec fn obeys_from_spec() -> bool {
        true
    }

    open spec fn from_spec(num: i8) -> Self {
        num.sign_spec()
    }
}

impl Signable for i16 {
    open spec fn sign_spec(&self) -> Sign {
        if *self >= 0 { Sign::Plus } else { Sign::Minus }
    }

    fn sign(&self) -> (r: Sign) {
        if *self >= 0 { Sign::Plus } else { Sign::Minus }
    }
}

impl From<i16> for Sign {
    fn from(num: i16) -> (r: Self) {
        if num >= 0 { Sign::Plus } else { Sign::Minus }
    }
}

impl vstd::std_specs::convert::FromSpecImpl<i16> for Sign {
    open spec fn obeys_from_spec() -> bool {
        true
    }

    open spec fn from_spec(num: i16) -> Self {
        num.sign_spec()
    }
}

impl Signable for i32 {
    open spec fn sign_spec(&self) -> Sign {
        if *self >= 0 { Sign::Plus } else { Sign::Minus }
    }

    fn sign(&self) -> (r: Sign) {
        if *self >= 0 { Sign::Plus } else { Sign::Minus }
    }
}

impl From<i32> for Sign {
    fn from(num: i32) -> (r: Self) {
        if num >= 0 { Sign::Plus } else { Sign::Minus }
    }
}

impl vstd::std_specs::convert::FromSpecImpl<i32> for Sign {
    open spec fn obeys_from_spec() -> bool {
        true
    }

    open spec fn from_spec(num: i32) -> Self {
        num.sign_spec()
    }
}

impl Signable for i64 {
    open spec fn sign_spec(&self) -> Sign {
        if *self >= 0 { Sign::Plus } else { Sign::Minus }
    }

    fn sign(&self) -> (r: Sign) {
        if *self >= 0 { Sign::Plus } else { Sign::Minus }
    }
}

impl From<i64> for Sign {
    fn from(num: i64) -> (r: Self) {
        if num >= 0 { Sign::Plus } else { Sign::Minus }
    }
}

impl vstd::std_specs::convert::FromSpecImpl<i64> for Sign {
    open spec fn obeys_from_spec() -> bool {
        true
    }

    open spec fn from_spec(num: i64) -> Self {
        num.sign_spec()
    }
}

impl Signable for i128 {
    open spec fn sign_spec(&self) -> Sign {
        if *self >= 0 { Sign::Plus } else { Sign::Minus }
    }

    fn sign(&self) -> (r: Sign) {
        if *self >= 0 { Sign::Plus } else { Sign::Minus }
    }
}

impl From<i128> for Sign {
    fn from(num: i128) -> (r: Self) {
        if num >= 0 { Sign::Plus } else { Sign::Minus }
    }
}

impl vstd::std_specs::convert::FromSpecImpl<i128> for Sign {
    open spec fn obeys_from_spec() -> bool {
        true
    }

    open spec fn from_spec(num: i128) -> Self {
        num.sign_spec()
    }
}

impl Signable for isize {
    open spec fn sign_spec(&self) -> Sign {
        if *self >= 0 { Sign::Plus } else { Sign::Minus }
    }

    fn sign(&self) -> (r: Sign) {
        if *self >= 0 { Sign::Plus } else { Sign::Minus }
    }
}

impl From<isize> for Sign {
    fn from(num: isize) -> (r: Self) {
        if num >= 0 { Sign::Plus } else { Sign::Minus }
    }
}

impl vstd::std_specs::convert::FromSpecImpl<isize> for Sign {
    open spec fn obeys_from_spec() -> bool {
        true
    }

    open spec fn from_spec(num: isize) -> Self {
        num.sign_spec()
    }
}

} // verus!
