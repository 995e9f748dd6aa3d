//! Properties of the integer types: whether a type is an integer, whether it
//! is signed, its width, checked arithmetic, and the room its decimal form takes.
use vstd::prelude::*;

verus! {

/// Marks the integer types.
pub trait IsInteger {
    fn is_integer() -> (r: bool)
        ensures
            r,
    {
        true
    }
}

/// Tells whether an integer type is signed.
pub trait IsSigned {
    spec fn signed() -> bool;

    fn is_signed() -> (r: bool)
        ensures
            r == Self::signed(),
    ;
}

/// Gives the width in bits of an integer type.
pub trait BitWidth {
    spec fn width() -> nat;

    fn bit_width() -> (r: u32)
        ensures
            r == Self::width(),
            1 <= r <= 128,
    ;
}

/// Arithmetic that gives `None` instead of overflowing, dividing by zero or
/// shifting by the width or more.
pub trait SafeArith: Sized {
    fn checked_add_ext(self, rhs: Self) -> Option<Self>;

    fn checked_sub_ext(self, rhs: Self) -> Option<Self>;

    fn checked_mul_ext(self, rhs: Self) -> Option<Self>;

    fn checked_div_ext(self, rhs: Self) -> Option<Self>;

    fn checked_rem_ext(self, rhs: Self) -> Option<Self>;

    fn checked_shl_ext(self, rhs: u32) -> Option<Self>;

    fn checked_neg_ext(self) -> Option<Self>;
}

/// Division rounded toward zero.
pub open spec fn trunc_div(a: int, b: int) -> int {
    if a == 0 {
        0
    } else if a > 0 && b > 0 {
        a / b
    } else if a < 0 && b < 0 {
        (a * -1) / (b * -1)
    } else if a < 0 {
        ((a * -1) / b) * -1
    } else {
        (a / (b * -1)) * -1
    }
}

/// The remainder of division rounded toward zero; it has the sign of `a`.
pub open spec fn trunc_rem(a: int, b: int) -> int {
    if a == 0 {
        0
    } else if a > 0 && b > 0 {
        a % b
    } else if a < 0 && b < 0 {
        ((a * -1) % (b * -1)) * -1
    } else if a < 0 {
        ((a * -1) % b) * -1
    } else {
        a % (b * -1)
    }
}

impl IsInteger for i8 {

}

impl IsInteger for i16 {

}

impl IsInteger for i32 {

}

impl IsInteger for i64 {

}

impl IsInteger for i128 {

}

impl IsInteger for isize {

}

impl IsInteger for u8 {

}

impl IsInteger for u16 {

}

impl IsInteger for u32 {

}

impl IsInteger for u64 {

}

impl IsInteger for u128 {

}

impl IsInteger for usize {

}

impl IsSigned for i8 {
    open spec fn signed() -> bool {
        true
    }

    fn is_signed() -> (r: bool) {
        true
    }
}

impl IsSigned for i16 {
    open spec fn signed() -> bool {
        true
    }

    fn is_signed() -> (r: bool) {
        true
    }
}

impl IsSigned for i32 {
    open spec fn signed() -> bool {
        true
    }

    fn is_signed() -> (r: bool) {
        true
    }
}

impl IsSigned for i64 {
    open spec fn signed() -> bool {
        true
    }

    fn is_signed() -> (r: bool) {
        true
    }
}

impl IsSigned for i128 {
    open spec fn signed() -> bool {
        true
    }

    fn is_signed() -> (r: bool) {
        true
    }
}

impl IsSigned for isize {
    open spec fn signed() -> bool {
        true
    }

    fn is_signed() -> (r: bool) {
        true
    }
}

impl IsSigned for u8 {
    open spec fn signed() -> bool {
        false
    }

    fn is_signed() -> (r: bool) {
        false
    }
}

impl IsSigned for u16 {
    open spec fn signed() -> bool {
        false
    }

    fn is_signed() -> (r: bool) {
        false
    }
}

impl IsSigned for u32 {
    open spec fn signed() -> bool {
        false
    }

    fn is_signed() -> (r: bool) {
        false
    }
}

impl IsSigned for u64 {
    open spec fn signed() -> bool {
        false
    }

    fn is_signed() -> (r: bool) {
        false
    }
}

impl IsSigned for u128 {
    open spec fn signed() -> bool {
        false
    }

    fn is_signed() -> (r: bool) {
        false
    }
}

impl IsSigned for usize {
    open spec fn signed() -> bool {
        false
    }

    fn is_signed() -> (r: bool) {
        false
    }
}

impl BitWidth for i8 {
    open spec fn width() -> nat {
        8
    }

    fn bit_width() -> (r: u32) {
        8
    }
}

impl BitWidth for i16 {
    open spec fn width() -> nat {
        16
    }

    fn bit_width() -> (r: u32) {
        16
    }
}

impl BitWidth for i32 {
    open spec fn width() -> nat {
        32
    }

    fn bit_width() -> (r: u32) {
        32
    }
}

impl BitWidth for i64 {
    open spec fn width() -> nat {
        64
    }

    fn bit_width() -> (r: u32) {
        64
    }
}

impl BitWidth for i128 {
    open spec fn width() -> nat {
        128
    }

    fn bit_width() -> (r: u32) {
        128
    }
}

impl BitWidth for u8 {
    open spec fn width() -> nat {
        8
    }

    fn bit_width() -> (r: u32) {
        8
    }
}

impl BitWidth for u16 {
    open spec fn width() -> nat {
        16
    }

    fn bit_width() -> (r: u32) {
        16
    }
}

impl BitWidth for u32 {
    open spec fn width() -> nat {
        32
    }

    fn bit_width() -> (r: u32) {
        32
    }
}

impl BitWidth for u64 {
    open spec fn width() -> nat {
        64
    }

    fn bit_width() -> (r: u32) {
        64
    }
}

impl BitWidth for u128 {
    open spec fn width() -> nat {
        128
    }

    fn bit_width() -> (r: u32) {
        128
    }
}

impl SafeArith for i8 {
    fn checked_add_ext(self, rhs: i8) -> (r: Option<i8>)
        ensures
            r == if i8::MIN <= self + rhs <= i8::MAX {
                Some((self + rhs) as i8)
            } else {
                None
            },
    {
        self.checked_add(rhs)
    }

    fn checked_sub_ext(self, rhs: i8) -> (r: Option<i8>)
        ensures
            r == if i8::MIN <= self - rhs <= i8::MAX {
                Some((self - rhs) as i8)
            } else {
                None
            },
    {
        self.checked_sub(rhs)
    }

    fn checked_mul_ext(self, rhs: i8) -> (r: Option<i8>)
        ensures
            r == if i8::MIN <= self * rhs <= i8::MAX {
                Some((self * rhs) as i8)
            } else {
                None
            },
    {
        self.checked_mul(rhs)
    }

    fn checked_div_ext(self, rhs: i8) -> (r: Option<i8>)
        ensures
            r == if rhs != 0 && i8::MIN <= trunc_div(self as int, rhs as int) <= i8::MAX {
                Some(trunc_div(self as int, rhs as int) as i8)
            } else {
                None
            },
    {
        self.checked_div(rhs)
    }

    fn checked_rem_ext(self, rhs: i8) -> (r: Option<i8>)
        ensures
            r == if rhs != 0 && !(self == i8::MIN && rhs == -1) {
                Some(trunc_rem(self as int, rhs as int) as i8)
            } else {
                None
            },
    {
        self.checked_rem(rhs)
    }

    fn checked_shl_ext(self, rhs: u32) -> (r: Option<i8>)
        ensures
            r == if rhs < 8 {
                Some(self << rhs)
            } else {
                None
            },
    {
        if rhs < 8 {
            Some(self << rhs)
        } else {
            None
        }
    }

    fn checked_neg_ext(self) -> (r: Option<i8>)
        ensures
            r == if self == i8::MIN {
                None
            } else {
                Some((-self) as i8)
            },
    {
        if self == i8::MIN {
            None
        } else {
            Some(-self)
        }
    }
}

impl SafeArith for i16 {
    fn checked_add_ext(self, rhs: i16) -> (r: Option<i16>)
        ensures
            r == if i16::MIN <= self + rhs <= i16::MAX {
                Some((self + rhs) as i16)
            } else {
                None
            },
    {
        self.checked_add(rhs)
    }

    fn checked_sub_ext(self, rhs: i16) -> (r: Option<i16>)
        ensures
            r == if i16::MIN <= self - rhs <= i16::MAX {
                Some((self - rhs) as i16)
            } else {
                None
            },
    {
        self.checked_sub(rhs)
    }

    fn checked_mul_ext(self, rhs: i16) -> (r: Option<i16>)
        ensures
            r == if i16::MIN <= self * rhs <= i16::MAX {
                Some((self * rhs) as i16)
            } else {
                None
            },
    {
        self.checked_mul(rhs)
    }

    fn checked_div_ext(self, rhs: i16) -> (r: Option<i16>)
        ensures
            r == if rhs != 0 && i16::MIN <= trunc_div(self as int, rhs as int) <= i16::MAX {
                Some(trunc_div(self as int, rhs as int) as i16)
            } else {
                None
            },
    {
        self.checked_div(rhs)
    }

    fn checked_rem_ext(self, rhs: i16) -> (r: Option<i16>)
        ensures
            r == if rhs != 0 && !(self == i16::MIN && rhs == -1) {
                Some(trunc_rem(self as int, rhs as int) as i16)
            } else {
                None
            },
    {
        self.checked_rem(rhs)
    }

    fn checked_shl_ext(self, rhs: u32) -> (r: Option<i16>)
        ensures
            r == if rhs < 16 {
                Some(self << rhs)
            } else {
                None
            },
    {
        if rhs < 16 {
            Some(self << rhs)
        } else {
            None
        }
    }

    fn checked_neg_ext(self) -> (r: Option<i16>)
        ensures
            r == if self == i16::MIN {
                None
            } else {
                Some((-self) as i16)
            },
    {
        if self == i16::MIN {
            None
        } else {
            Some(-self)
        }
    }
}

impl SafeArith for i32 {
    fn checked_add_ext(self, rhs: i32) -> (r: Option<i32>)
        ensures
            r == if i32::MIN <= self + rhs <= i32::MAX {
                Some((self + rhs) as i32)
            } else {
                None
            },
    {
        self.checked_add(rhs)
    }

    fn checked_sub_ext(self, rhs: i32) -> (r: Option<i32>)
        ensures
            r == if i32::MIN <= self - rhs <= i32::MAX {
                Some((self - rhs) as i32)
            } else {
                None
            },
    {
        self.checked_sub(rhs)
    }

    fn checked_mul_ext(self, rhs: i32) -> (r: Option<i32>)
        ensures
            r == if i32::MIN <= self * rhs <= i32::MAX {
                Some((self * rhs) as i32)
            } else {
                None
            },
    {
        self.checked_mul(rhs)
    }

    fn checked_div_ext(self, rhs: i32) -> (r: Option<i32>)
        ensures
            r == if rhs != 0 && i32::MIN <= trunc_div(self as int, rhs as int) <= i32::MAX {
                Some(trunc_div(self as int, rhs as int) as i32)
            } else {
                None
            },
    {
        self.checked_div(rhs)
    }

    fn checked_rem_ext(self, rhs: i32) -> (r: Option<i32>)
        ensures
            r == if rhs != 0 && !(self == i32::MIN && rhs == -1) {
                Some(trunc_rem(self as int, rhs as int) as i32)
            } else {
                None
            },
    {
        self.checked_rem(rhs)
    }

    fn checked_shl_ext(self, rhs: u32) -> (r: Option<i32>)
        ensures
            r == if rhs < 32 {
                Some(self << rhs)
            } else {
                None
            },
    {
        if rhs < 32 {
            Some(self << rhs)
        } else {
            None
        }
    }

    fn checked_neg_ext(self) -> (r: Option<i32>)
        ensures
            r == if self == i32::MIN {
                None
            } else {
                Some((-self) as i32)
            },
    {
        if self == i32::MIN {
            None
        } else {
            Some(-self)
        }
    }
}

impl SafeArith for i64 {
    fn checked_add_ext(self, rhs: i64) -> (r: Option<i64>)
        ensures
            r == if i64::MIN <= self + rhs <= i64::MAX {
                Some((self + rhs) as i64)
            } else {
                None
            },
    {
        self.checked_add(rhs)
    }

    fn checked_sub_ext(self, rhs: i64) -> (r: Option<i64>)
        ensures
            r == if i64::MIN <= self - rhs <= i64::MAX {
                Some((self - rhs) as i64)
            } else {
                None
            },
    {
        self.checked_sub(rhs)
    }

    fn checked_mul_ext(self, rhs: i64) -> (r: Option<i64>)
        ensures
            r == if i64::MIN <= self * rhs <= i64::MAX {
                Some((self * rhs) as i64)
            } else {
                None
            },
    {
        self.checked_mul(rhs)
    }

    fn checked_div_ext(self, rhs: i64) -> (r: Option<i64>)
        ensures
            r == if rhs != 0 && i64::MIN <= trunc_div(self as int, rhs as int) <= i64::MAX {
                Some(trunc_div(self as int, rhs as int) as i64)
            } else {
                None
            },
    {
        self.checked_div(rhs)
    }

    fn checked_rem_ext(self, rhs: i64) -> (r: Option<i64>)
        ensures
            r == if rhs != 0 && !(self == i64::MIN && rhs == -1) {
                Some(trunc_rem(self as int, rhs as int) as i64)
            } else {
                None
            },
    {
        self.checked_rem(rhs)
    }

    fn checked_shl_ext(self, rhs: u32) -> (r: Option<i64>)
        ensures
            r == if rhs < 64 {
                Some(self << rhs)
            } else {
                None
            },
    {
        if rhs < 64 {
            Some(self << rhs)
        } else {
            None
        }
    }

    fn checked_neg_ext(self) -> (r: Option<i64>)
        ensures
            r == if self == i64::MIN {
                None
            } else {
                Some((-self) as i64)
            },
    {
        if self == i64::MIN {
            None
        } else {
            Some(-self)
        }
    }
}

impl SafeArith for i128 {
    fn checked_add_ext(self, rhs: i128) -> (r: Option<i128>)
        ensures
            r == if i128::MIN <= self + rhs <= i128::MAX {
                Some((self + rhs) as i128)
            } else {
                None
            },
    {
        self.checked_add(rhs)
    }

    fn checked_sub_ext(self, rhs: i128) -> (r: Option<i128>)
        ensures
            r == if i128::MIN <= self - rhs <= i128::MAX {
                Some((self - rhs) as i128)
            } else {
                None
            },
    {
        self.checked_sub(rhs)
    }

    fn checked_mul_ext(self, rhs: i128) -> (r: Option<i128>)
        ensures
            r == if i128::MIN <= self * rhs <= i128::MAX {
                Some((self * rhs) as i128)
            } else {
                None
            },
    {
        self.checked_mul(rhs)
    }

    fn checked_div_ext(self, rhs: i128) -> (r: Option<i128>)
        ensures
            r == if rhs != 0 && i128::MIN <= trunc_div(self as int, rhs as int) <= i128::MAX {
                Some(trunc_div(self as int, rhs as int) as i128)
            } else {
                None
            },
    {
        self.checked_div(rhs)
    }

    fn checked_rem_ext(self, rhs: i128) -> (r: Option<i128>)
        ensures
            r == if rhs != 0 && !(self == i128::MIN && rhs == -1) {
                Some(trunc_rem(self as int, rhs as int) as i128)
            } else {
                None
            },
    {
        self.checked_rem(rhs)
    }

    fn checked_shl_ext(self, rhs: u32) -> (r: Option<i128>)
        ensures
            r == if rhs < 128 {
                Some(self << rhs)
            } else {
                None
            },
    {
        if rhs < 128 {
            Some(self << rhs)
        } else {
            None
        }
    }

    fn checked_neg_ext(self) -> (r: Option<i128>)
        ensures
            r == if self == i128::MIN {
                None
            } else {
                Some((-self) as i128)
            },
    {
        if self == i128::MIN {
            None
        } else {
            Some(-self)
        }
    }
}

impl SafeArith for isize {
    fn checked_add_ext(self, rhs: isize) -> (r: Option<isize>)
        ensures
            r == if isize::MIN <= self + rhs <= isize::MAX {
                Some((self + rhs) as isize)
            } else {
                None
            },
    {
        self.checked_add(rhs)
    }

    fn checked_sub_ext(self, rhs: isize) -> (r: Option<isize>)
        ensures
            r == if isize::MIN <= self - rhs <= isize::MAX {
                Some((self - rhs) as isize)
            } else {
                None
            },
    {
        self.checked_sub(rhs)
    }

    fn checked_mul_ext(self, rhs: isize) -> (r: Option<isize>)
        ensures
            r == if isize::MIN <= self * rhs <= isize::MAX {
                Some((self * rhs) as isize)
            } else {
                None
            },
    {
        self.checked_mul(rhs)
    }

    fn checked_div_ext(self, rhs: isize) -> (r: Option<isize>)
        ensures
            r == if rhs != 0 && isize::MIN <= trunc_div(self as int, rhs as int) <= isize::MAX {
                Some(trunc_div(self as int, rhs as int) as isize)
            } else {
                None
            },
    {
        self.checked_div(rhs)
    }

    fn checked_rem_ext(self, rhs: isize) -> (r: Option<isize>)
        ensures
            r == if rhs != 0 && !(self == isize::MIN && rhs == -1) {
                Some(trunc_rem(self as int, rhs as int) as isize)
            } else {
                None
            },
    {
        self.checked_rem(rhs)
    }

    fn checked_shl_ext(self, rhs: u32) -> (r: Option<isize>)
        ensures
            r == if rhs < isize::BITS {
                Some(self << rhs)
            } else {
                None
            },
    {
        if rhs < isize::BITS {
            Some(self << rhs)
        } else {
            None
        }
    }

    fn checked_neg_ext(self) -> (r: Option<isize>)
        ensures
            r == if self == isize::MIN {
                None
            } else {
                Some((-self) as isize)
            },
    {
        if self == isize::MIN {
            None
        } else {
            Some(-self)
        }
    }
}

/// The number of decimal digits that suffices for an unsigned value of
/// `bits` bits: `bits * 146 / 485` rounded up, as 146/485 exceeds log10(2).
pub open spec fn strlen_bound(bits: nat) -> nat {
    (bits * 146 + 484) / 485
}

/// The number of decimal digits that suffices for an unsigned value of `bits` bits.
pub fn int_bits_strlen_bound(bits: u32) -> (r: usize)
    ensures
        r == strlen_bound(bits as nat),
{
    let v: u64 = (bits as u64 * 146 + 484) / 485;
    assert(v <= 0x1_0000_0000u64 * 146 / 485);
    v as usize
}

/// The room for the decimal form of a value of type `T`, with its sign and a
/// terminating NUL.
pub open spec fn bufsize_bound(width: nat, signed: bool) -> nat {
    if signed {
        strlen_bound((width - 1) as nat) + 2
    } else {
        strlen_bound(width) + 1
    }
}

/// The room for the decimal form of a value of type `T`, with its sign and a
/// terminating NUL.
pub fn int_bufsize_bound<T: BitWidth + IsSigned>() -> (r: usize)
    ensures
        r == bufsize_bound(T::width(), T::signed()),
{
    let width = T::bit_width();
    let signed = T::is_signed();
    let s: u32 = if signed {
        1
    } else {
        0
    };
    int_bits_strlen_bound(width - s) + s as usize + 1
}

} // verus!
