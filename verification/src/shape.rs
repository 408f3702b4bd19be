//! Shapes and the number of elements that they span.

use vstd::prelude::*;
use vstd::string::*;

use crate::text::{append_decimal, append_signed, decimal, signed_decimal};

verus! {

/// The number of elements that a shape spans: the product of its dimensions.
pub open spec fn product(shape: Seq<i32>) -> int
    decreases shape.len(),
{
    if shape.len() == 0 {
        1
    } else {
        shape[0] * product(shape.skip(1))
    }
}

/// No dimension is negative.
pub open spec fn valid_shape(shape: Seq<i32>) -> bool {
    forall|i: int| 0 <= i < shape.len() ==> 0 <= #[trigger] shape[i]
}

/// The number of elements can be written as an `i64`.
pub open spec fn product_fits(shape: Seq<i32>) -> bool {
    i64::MIN <= product(shape) <= i64::MAX
}

/// The product of two shapes written one after the other.
pub proof fn lemma_product_concat(a: Seq<i32>, b: Seq<i32>)
    ensures
        product(a + b) == product(a) * product(b),
    decreases a.len(),
{
    if a.len() == 0 {
        assert(a + b =~= b);
    } else {
        assert((a + b).skip(1) =~= a.skip(1) + b);
        lemma_product_concat(a.skip(1), b);
        let (x, y, z) = (a[0] as int, product(a.skip(1)), product(b));
        assert(x * (y * z) == (x * y) * z) by (nonlinear_arith);
    }
}

/// Taking one more dimension multiplies the product by it.
proof fn lemma_product_take(shape: Seq<i32>, n: int)
    requires
        0 <= n < shape.len(),
    ensures
        product(shape.take(n + 1)) == product(shape.take(n)) * shape[n],
{
    let last = seq![shape[n]];
    assert(shape.take(n + 1) =~= shape.take(n) + last);
    lemma_product_concat(shape.take(n), last);
    assert(last.skip(1) =~= Seq::<i32>::empty());
    assert(product(last.skip(1)) == 1);
    assert(product(last) == shape[n]);
}

/// No dimensions span one element, and each further dimension multiplies their number, wherever it
/// stands.
pub proof fn each_dimension_multiplies(before: Seq<i32>, dim: i32, behind: Seq<i32>)
    ensures
        product(Seq::<i32>::empty()) == 1,
        product(before + seq![dim] + behind) == product(before + behind) * dim,
{
    let one = seq![dim];
    lemma_product_concat(before + one, behind);
    lemma_product_concat(before, one);
    lemma_product_concat(before, behind);
    assert(one.skip(1) =~= Seq::<i32>::empty());
    assert(product(one.skip(1)) == 1);
    assert(product(one) == dim);
    let (x, y, z) = (product(before), dim as int, product(behind));
    assert((x * y) * z == (x * z) * y) by (nonlinear_arith);
}

/// A shape without negative dimensions spans no negative number of elements.
pub proof fn lemma_product_nonnegative(shape: Seq<i32>)
    requires
        valid_shape(shape),
    ensures
        0 <= product(shape),
    decreases shape.len(),
{
    if shape.len() > 0 {
        assert(valid_shape(shape.skip(1))) by {
            assert forall|i: int| 0 <= i < shape.skip(1).len() implies 0 <= #[trigger] shape.skip(
                1,
            )[i] by {
                assert(shape.skip(1)[i] == shape[i + 1]);
            }
        }
        lemma_product_nonnegative(shape.skip(1));
        let (x, y) = (shape[0] as int, product(shape.skip(1)));
        assert(0 <= x * y) by (nonlinear_arith)
            requires
                0 <= x,
                0 <= y,
        ;
    }
}

/// Why a slice of values cannot fill a shape.
#[derive(Clone, Copy, PartialEq, Eq, Structural, Debug)]
pub enum ShapeError {
    /// The number of values is not the product of the dimensions.
    Mismatch { len: usize, product: i64 },
    /// The product of the dimensions is not within the range of `i64`, in which every number of
    /// values lies.
    Overflow,
}

impl ShapeError {
    /// What the error prints.
    pub open spec fn text(&self) -> Seq<char> {
        match self {
            ShapeError::Mismatch { len, product } => "data length "@ + decimal(*len as nat)
                + " does not match shape product "@ + signed_decimal(*product as int),
            ShapeError::Overflow => "attempt to multiply with overflow"@,
        }
    }

    /// The error as it is shown to people.
    pub fn describe(&self) -> (text: String)
        ensures
            text@ == self.text(),
    {
        match self {
            ShapeError::Mismatch { len, product } => {
                let mut text = String::from_str("data length ");
                append_decimal(&mut text, *len as u64);
                text.append(" does not match shape product ");
                append_signed(&mut text, *product);
                text
            },
            ShapeError::Overflow => String::from_str("attempt to multiply with overflow"),
        }
    }
}

/// Multiplies `total` by `dim`, where `None` stands for a number beyond 2^63 on either side.
fn scale(total: Option<i128>, dim: i32) -> (scaled: Option<i128>)
    requires
        total matches Some(t) ==> -0x8000_0000_0000_0000 <= t <= 0x8000_0000_0000_0000,
    ensures
        match (total, scaled) {
            (Some(t), Some(s)) => {
                s == t * dim && -0x8000_0000_0000_0000 <= s <= 0x8000_0000_0000_0000
            },
            (Some(t), None) => !(-0x8000_0000_0000_0000 <= t * dim <= 0x8000_0000_0000_0000),
            (None, Some(s)) => dim == 0 && s == 0,
            (None, None) => dim != 0,
        },
{
    match total {
        Some(t) => {
            assert(-0x8000_0000_0000_0000 * 0x8000_0000 <= t * dim <= 0x8000_0000_0000_0000
                * 0x8000_0000) by (nonlinear_arith)
                requires
                    -0x8000_0000_0000_0000 <= t <= 0x8000_0000_0000_0000,
                    -0x8000_0000 <= dim <= 0x7fff_ffff,
            ;
            let next: i128 = t * (dim as i128);
            if -0x8000_0000_0000_0000 <= next && next <= 0x8000_0000_0000_0000 {
                Some(next)
            } else {
                None
            }
        },
        None => if dim == 0 {
            Some(0)
        } else {
            None
        },
    }
}

/// The product of the dimensions, or `None` if it is not within the range of `i64`.
///
/// A product that leaves the range on the way may come back: a zero brings it back from anywhere,
/// and a minus sign from the one number that has no negative.
pub fn shape_product(shape: &[i32]) -> (result: Option<i64>)
    ensures
        match result {
            Some(n) => product_fits(shape@) && n == product(shape@),
            None => !product_fits(shape@),
        },
{
    let mut total: Option<i128> = Some(1);
    let mut i: usize = 0;
    assert(shape@.take(0) =~= Seq::<i32>::empty());
    while i < shape.len()
        invariant
            i <= shape@.len(),
            match total {
                Some(t) => {
                    &&& t == product(shape@.take(i as int))
                    &&& -0x8000_0000_0000_0000 <= t <= 0x8000_0000_0000_0000
                },
                None => !(-0x8000_0000_0000_0000 <= product(shape@.take(i as int))
                    <= 0x8000_0000_0000_0000),
            },
        decreases shape@.len() - i,
    {
        proof {
            lemma_product_take(shape@, i as int);
            let (x, d) = (product(shape@.take(i as int)), shape@[i as int] as int);
            assert(d == 0 ==> x * d == 0) by (nonlinear_arith);
            assert(d != 0 && x > 0x8000_0000_0000_0000 ==> x * d > 0x8000_0000_0000_0000 || x * d
                < -0x8000_0000_0000_0000) by (nonlinear_arith);
            assert(d != 0 && x < -0x8000_0000_0000_0000 ==> x * d > 0x8000_0000_0000_0000 || x * d
                < -0x8000_0000_0000_0000) by (nonlinear_arith);
        }
        total = scale(total, shape[i]);
        i = i + 1;
    }
    assert(shape@.take(i as int) =~= shape@);
    match total {
        Some(t) => if t < 0x8000_0000_0000_0000 {
            Some(t as i64)
        } else {
            None
        },
        None => None,
    }
}

/// Checks that `len` values fill `shape` exactly.
pub fn check_len(len: usize, shape: &[i32]) -> (result: Result<(), ShapeError>)
    ensures
        match result {
            Ok(_) => product_fits(shape@) && product(shape@) == len,
            Err(ShapeError::Mismatch { len: l, product: p }) => {
                &&& product_fits(shape@)
                &&& product(shape@) != len
                &&& l == len
                &&& p == product(shape@)
            },
            Err(ShapeError::Overflow) => !product_fits(shape@),
        },
{
    match shape_product(shape) {
        Some(n) => {
            if n as i128 == len as i128 {
                Ok(())
            } else {
                Err(ShapeError::Mismatch { len, product: n })
            }
        },
        None => Err(ShapeError::Overflow),
    }
}

} // verus!
