use vstd::prelude::*;
use vstd::arithmetic::power2::{is_pow2, is_pow2_exists, is_pow2_equiv, pow2, lemma_pow2, lemma_pow2_unfold, lemma_pow2_strictly_increases, lemma2_to64};

verus! {

/// An axis-aligned rectangle of pixels: its top-left corner and its extent.
#[derive(Clone, Copy, PartialEq, Eq, Structural, Debug)]
pub struct Rectangle {
    pub x: u32,
    pub y: u32,
    pub width: u32,
    pub height: u32,
}

impl Default for Rectangle {
    /// The empty rectangle at the origin.
    fn default() -> (r: Self)
        ensures
            r == (Rectangle { x: 0, y: 0, width: 0, height: 0 }),
    {
        Rectangle { x: 0, y: 0, width: 0, height: 0 }
    }
}

impl Rectangle {
    /// A rectangle with a non-zero extent, or `None` when either side is zero.
    pub fn with(x: u32, y: u32, width: u32, height: u32) -> (r: Option<Rectangle>)
        ensures
            width == 0 || height == 0 ==> r is None,
            width != 0 && height != 0 ==> r == Some(Rectangle { x, y, width, height }),
    {
        if width == 0 || height == 0 {
            None
        } else {
            Some(Rectangle { x, y, width, height })
        }
    }

    /// A rectangle covers no pixel when either side is zero.
    pub open spec fn spec_is_empty(&self) -> bool {
        self.width == 0 || self.height == 0
    }

    #[verifier::when_used_as_spec(spec_is_empty)]
    pub fn is_empty(&self) -> (r: bool)
        ensures
            r == self.spec_is_empty(),
    {
        self.width == 0 || self.height == 0
    }
}

/// A width and a height in pixels.
#[derive(Clone, Copy, PartialEq, Eq, Structural, Debug)]
pub struct Size {
    pub width: u32,
    pub height: u32,
}

impl Size {
    pub fn new(width: u32, height: u32) -> (r: Size)
        ensures
            r == (Size { width, height }),
    {
        Size { width, height }
    }

    /// A size with no zero side, or `None`.
    pub fn with(width: u32, height: u32) -> (r: Option<Size>)
        ensures
            width == 0 || height == 0 ==> r is None,
            width != 0 && height != 0 ==> r == Some(Size { width, height }),
    {
        if width == 0 || height == 0 {
            None
        } else {
            Some(Size { width, height })
        }
    }
}

/// Tells whether `n` is a power of two (`1, 2, 4, ...`); zero is not.
pub fn is_power_2(n: u32) -> (r: bool)
    ensures
        r == is_pow2(n as int),
{
    let mut m: u32 = n;
    while m > 1 && m % 2 == 0
        invariant
            is_pow2(m as int) == is_pow2(n as int),
        decreases m,
    {
        proof {
            reveal(is_pow2);
        }
        m = m / 2;
    }
    proof {
        reveal(is_pow2);
    }
    m == 1
}

/// The smallest power of two that is at least `n`.
pub fn ceil_power_2(n: u32) -> (r: u32)
    requires
        1 <= n <= 0x8000_0000,
    ensures
        is_pow2(r as int),
        r >= n,
        r == 1 || r / 2 < n,
        forall|q: int| is_pow2(q) && q >= n ==> q >= r,
{
    let mut p: u32 = 1;
    let ghost mut k: nat = 0;
    proof {
        lemma2_to64();
    }
    while p < n
        invariant
            1 <= n <= 0x8000_0000,
            p as nat == pow2(k),
            p >= 1,
            p == 1 || p / 2 < n,
        decreases 0x1_0000_0000 - p,
    {
        proof {
            lemma2_to64();
            if k >= 31 {
                if k > 31 {
                    lemma_pow2_strictly_increases(31, k);
                }
                assert(false);
            }
            if k < 30 {
                lemma_pow2_strictly_increases(k, 30);
            }
            lemma_pow2_unfold(k + 1);
        }
        p = p * 2;
        proof {
            k = k + 1;
        }
    }
    proof {
        lemma_pow2(k);
        assert(is_pow2_exists(p as int));
        is_pow2_equiv(p as int);
        assert forall|q: int| is_pow2(q) && q >= n implies q >= p by {
            lemma_power_above_half(q, k);
        }
    }
    p
}

/// A power of two that exceeds half of `2^k` is at least `2^k`.
proof fn lemma_power_above_half(q: int, k: nat)
    requires
        is_pow2(q),
        k == 0 || q > pow2(k) / 2,
    ensures
        q >= pow2(k),
{
    is_pow2_equiv(q);
    let a = choose|i: nat| vstd::arithmetic::power::pow(2, i) == q;
    lemma_pow2(a);
    if k == 0 {
        lemma2_to64();
        vstd::arithmetic::power2::lemma_pow2_pos(a);
    } else if a < k {
        lemma_pow2_unfold(k);
        if a < (k - 1) as nat {
            lemma_pow2_strictly_increases(a, (k - 1) as nat);
        }
        assert(false);
    } else if a > k {
        lemma_pow2_strictly_increases(k, a);
    }
}

} // verus!
