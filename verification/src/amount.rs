use vstd::prelude::*;

verus! {

/// An account identifier: a key type with copy semantics and a decidable
/// equality test that agrees with mathematical equality.
pub trait AccountId: Sized + Copy {
    /// Decides whether two identifiers name the same account.
    fn addr_eq(&self, other: &Self) -> (r: bool)
        ensures
            r == (*self == *other),
    ;
}

/// A balance: a non-negative numeric type, abstracted in specifications as the
/// mathematical integer `as_int`, which always lies in `[0, max_int()]`.
pub trait Amount: Sized + Copy {
    /// The mathematical value this balance stands for.
    spec fn as_int(self) -> int;

    /// The largest value the type can hold.
    spec fn max_int() -> int;

    /// Every value of the type lies between zero and the type's maximum.
    proof fn lemma_in_range(self)
        ensures
            0 <= self.as_int() <= Self::max_int(),
    ;

    /// The zero balance.
    fn zero() -> (r: Self)
        ensures
            r.as_int() == 0,
    ;

    /// Strict comparison.
    fn lt(&self, other: &Self) -> (r: bool)
        ensures
            r == (self.as_int() < other.as_int()),
    ;

    /// Exact subtraction; the caller must know that it cannot underflow.
    fn sub(&self, other: &Self) -> (r: Self)
        requires
            other.as_int() <= self.as_int(),
        ensures
            r.as_int() == self.as_int() - other.as_int(),
    ;

    /// Addition that reports, rather than wraps, a sum beyond the type's range.
    fn checked_add(&self, other: &Self) -> (r: Option<Self>)
        ensures
            r is Some <==> self.as_int() + other.as_int() <= Self::max_int(),
            r matches Some(s) ==> s.as_int() == self.as_int() + other.as_int(),
    ;
}

impl AccountId for u32 {
    fn addr_eq(&self, other: &Self) -> (r: bool) {
        *self == *other
    }
}

impl AccountId for u64 {
    fn addr_eq(&self, other: &Self) -> (r: bool) {
        *self == *other
    }
}

impl Amount for u32 {
    open spec fn as_int(self) -> int {
        self as int
    }

    open spec fn max_int() -> int {
        u32::MAX as int
    }

    proof fn lemma_in_range(self) {
    }

    fn zero() -> (r: Self) {
        0
    }

    fn lt(&self, other: &Self) -> (r: bool) {
        *self < *other
    }

    fn sub(&self, other: &Self) -> (r: Self) {
        *self - *other
    }

    fn checked_add(&self, other: &Self) -> (r: Option<Self>) {
        if *self <= u32::MAX - *other {
            Some(*self + *other)
        } else {
            None
        }
    }
}

impl Amount for u64 {
    open spec fn as_int(self) -> int {
        self as int
    }

    open spec fn max_int() -> int {
        u64::MAX as int
    }

    proof fn lemma_in_range(self) {
    }

    fn zero() -> (r: Self) {
        0
    }

    fn lt(&self, other: &Self) -> (r: bool) {
        *self < *other
    }

    fn sub(&self, other: &Self) -> (r: Self) {
        *self - *other
    }

    fn checked_add(&self, other: &Self) -> (r: Option<Self>) {
        if *self <= u64::MAX - *other {
            Some(*self + *other)
        } else {
            None
        }
    }
}

} // verus!
