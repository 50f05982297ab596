//! Boolean circuit elements and the operations of gates on them.

use vstd::prelude::*;

verus! {

/// A boolean element: 0 or 1, carried in a byte.
pub type Bool = u8;

/// Why an operation could not be evaluated.
#[derive(Clone, Copy, Debug, PartialEq, Eq)]
pub enum GateOpsError {
    /// The element does not support the operation.
    Unsupported,
}

/// The operations that a circuit element has to support.
pub trait GateOps: Sized {
    /// XOR of `self` and `x`.
    fn xor(&self, x: &Self) -> Result<Self, GateOpsError>;

    /// Inverse of `self`.
    fn inv(&self) -> Result<Self, GateOpsError>;

    /// AND of `self` and `x`.
    fn and(&self, x: &Self) -> Result<Self, GateOpsError>;
}

/// Whether `x` is 0 or 1.
pub open spec fn is_bit(x: Bool) -> bool {
    x <= 1
}

/// On bytes the operations work bit by bit. On boolean elements they are
/// the gates: XOR tells whether the two differ, INV flips, AND multiplies.
impl GateOps for Bool {
    fn xor(&self, x: &Bool) -> (r: Result<Bool, GateOpsError>)
        ensures
            r == Ok::<Bool, GateOpsError>(*self ^ *x),
            is_bit(*self) && is_bit(*x) ==> r == Ok::<Bool, GateOpsError>(
                if *self == *x {
                    0
                } else {
                    1
                },
            ),
    {
        let a = *self;
        let b = *x;
        assert(a <= 1 && b <= 1 ==> a ^ b == (if a == b {
            0u8
        } else {
            1u8
        })) by (bit_vector);
        Ok(a ^ b)
    }

    fn inv(&self) -> (r: Result<Bool, GateOpsError>)
        ensures
            r == Ok::<Bool, GateOpsError>(*self ^ 1u8),
            is_bit(*self) ==> r == Ok::<Bool, GateOpsError>((1 - *self) as u8),
    {
        let a = *self;
        assert(a <= 1 ==> a ^ 1u8 == 1u8 - a) by (bit_vector);
        Ok(a ^ 1u8)
    }

    fn and(&self, x: &Bool) -> (r: Result<Bool, GateOpsError>)
        ensures
            r == Ok::<Bool, GateOpsError>(*self & *x),
            is_bit(*self) && is_bit(*x) ==> r == Ok::<Bool, GateOpsError>((*self * *x) as u8),
    {
        let a = *self;
        let b = *x;
        assert(a <= 1 && b <= 1 ==> a & b == (if a == 1 && b == 1 {
            1u8
        } else {
            0u8
        })) by (bit_vector);
        assert(a <= 1 && b <= 1 ==> a * b == (if a == 1 && b == 1 {
            1int
        } else {
            0int
        })) by (nonlinear_arith);
        Ok(a & b)
    }
}

} // verus!
