//! Index permutations of the fast Fourier transform: bit-reversal tables and the reordering
//! they describe, for transforms of power-of-two sizes.

use vstd::prelude::*;

use vstd::std_specs::bits::u32_leading_zeros;

verus! {

/// Whether `n` is a power of two.
pub open spec fn is_power_of_two(n: usize) -> bool {
    n != 0 && n & ((n - 1) as usize) == 0
}

/// The bits of `x` in reverse order: bit `j` of the result is bit `15 - j` of `x`.
pub open spec fn reverse_bits16(x: u16) -> u16 {
    ((x & 0x0001u16) << 15u16) | ((x & 0x0002u16) << 13u16) | ((x & 0x0004u16) << 11u16) | ((x
        & 0x0008u16) << 9u16) | ((x & 0x0010u16) << 7u16) | ((x & 0x0020u16) << 5u16) | ((x
        & 0x0040u16) << 3u16) | ((x & 0x0080u16) << 1u16) | ((x & 0x0100u16) >> 1u16) | ((x
        & 0x0200u16) >> 3u16) | ((x & 0x0400u16) >> 5u16) | ((x & 0x0800u16) >> 7u16) | ((x
        & 0x1000u16) >> 9u16) | ((x & 0x2000u16) >> 11u16) | ((x & 0x4000u16) >> 13u16) | ((x
        & 0x8000u16) >> 15u16)
}

/// The shift that brings a 16-bit reversal down to the low `log2(n)` bits, for a power of two
/// `n` from 2 to 65536: `16 - log2(n)`.
pub open spec fn perm_shift(n: u32) -> u16 {
    (u32_leading_zeros(n) - 15) as u16
}

/// The index that `i` moves to in the bit-reversal permutation of size `n`: the low
/// `log2(n)` bits of `i` in reverse order.
pub open spec fn bit_reverse_index(i: u16, n: u32) -> u16 {
    reverse_bits16(i) >> perm_shift(n)
}

/// Reverses the bits of a 16-bit value.
fn reverse_bits(x: u16) -> (r: u16)
    ensures
        r == reverse_bits16(x),
{
    ((x & 0x0001) << 15) | ((x & 0x0002) << 13) | ((x & 0x0004) << 11) | ((x & 0x0008) << 9) | ((x
        & 0x0010) << 7) | ((x & 0x0020) << 5) | ((x & 0x0040) << 3) | ((x & 0x0080) << 1) | ((x
        & 0x0100) >> 1) | ((x & 0x0200) >> 3) | ((x & 0x0400) >> 5) | ((x & 0x0800) >> 7) | ((x
        & 0x1000) >> 9) | ((x & 0x2000) >> 11) | ((x & 0x4000) >> 13) | ((x & 0x8000) >> 15)
}

/// For a power of two `n` from 2 to 65536, `leading_zeros(n)` lies in `15..=30`, and the
/// indices below `n` are those whose bits from `31 - leading_zeros(n)` up are clear.
proof fn lemma_pow2_shift(n: u32)
    requires
        2 <= n <= 0x1_0000,
        n & ((n - 1) as u32) == 0,
    ensures
        15 <= u32_leading_zeros(n) <= 30,
        forall|i: u16| (i as u32) < n <==> #[trigger] ((i as u32) >> ((31 - u32_leading_zeros(n)) as u32)) == 0,
{
    vstd::std_specs::bits::axiom_u32_leading_zeros(n);
    let lz = u32_leading_zeros(n);
    let hi = (31 - lz) as u32;
    let top = (32 - lz) as u32;
    assert(15 <= lz <= 30) by (bit_vector)
        requires
            2 <= n <= 0x1_0000,
            lz <= 32,
            lz < 32 ==> (n >> hi) & 1u32 != 0u32,
            n >> top == 0,
            lz < 32 ==> hi == 31 - lz,
            top == 32 - lz,
            n != 0 ==> lz < 32,
    ;
    assert forall|i: u16| (i as u32) < n <==> #[trigger] ((i as u32) >> hi) == 0 by {
        assert((i as u32) < n <==> ((i as u32) >> hi) == 0) by (bit_vector)
            requires
                2 <= n <= 0x1_0000,
                n & ((n - 1) as u32) == 0,
                15 <= lz <= 30,
                hi == 31 - lz,
                top == 32 - lz,
                (n >> hi) & 1u32 != 0u32,
                n >> top == 0,
        ;
    }
}

/// The bit-reversal permutation is an involution on the indices below a power of two: an index
/// moves to an index below the size, and moving it again brings it back.
pub proof fn law_bit_reverse_involution(n: u32, i: u16)
    requires
        2 <= n <= 0x1_0000,
        n & ((n - 1) as u32) == 0,
        (i as u32) < n,
    ensures
        (bit_reverse_index(i, n) as u32) < n,
        bit_reverse_index(bit_reverse_index(i, n), n) == i,
{
    lemma_pow2_shift(n);
    let s = perm_shift(n);
    let k = (31 - u32_leading_zeros(n)) as u32;
    let j = bit_reverse_index(i, n);
    assert(j == reverse_bits16(i) >> s);
    assert((i as u32) >> k == 0);
    assert(((reverse_bits16(i) >> s) as u32) >> k == 0) by (bit_vector)
        requires
            s <= 15,
            k == 16 - s,
    ;
    assert(reverse_bits16(reverse_bits16(i) >> s) >> s == i) by (bit_vector)
        requires
            s <= 15,
            k == 16 - s,
            (i as u32) >> k == 0,
    ;
    assert((j as u32) >> k == 0);
}

/// The bit-reversal permutation of size `n` as a sequence: entry `i` is the index `i` moves to.
pub open spec fn bit_reverse_table(n: u32) -> Seq<u16> {
    Seq::new(n as nat, |i: int| bit_reverse_index(i as u16, n))
}

/// A bit-reversal table of a power of two from 2 to 65536.
pub open spec fn is_perm_table(perm: Seq<u16>, n: usize) -> bool {
    &&& 2 <= n <= 0x1_0000
    &&& is_power_of_two(n)
    &&& perm == bit_reverse_table(n as u32)
}

/// A power of two from 2 to 65536 as a `u32` is still a power of two.
proof fn lemma_pow2_u32(n: usize)
    requires
        2 <= n <= 0x1_0000,
        is_power_of_two(n),
    ensures
        (n as u32) == n,
        (n as u32) & (((n as u32) - 1) as u32) == 0,
{
    let n32 = n as u32;
    assert(n32 & ((n32 - 1) as u32) == 0) by (bit_vector)
        requires
            n32 == n as u32,
            2 <= n <= 0x1_0000,
            n & ((n - 1) as usize) == 0,
    ;
}

/// The entries of a bit-reversal table lie below its size, and applying it twice is the
/// identity.
proof fn lemma_table_involution(perm: Seq<u16>, n: usize)
    requires
        is_perm_table(perm, n),
    ensures
        perm.len() == n,
        forall|k: int| 0 <= k < n ==> #[trigger] perm[k] < n && perm[perm[k] as int] == k,
{
    lemma_pow2_u32(n);
    let n32 = n as u32;
    assert forall|k: int| 0 <= k < n implies #[trigger] perm[k] < n && perm[perm[k] as int] == k by {
        law_bit_reverse_involution(n32, k as u16);
    }
}

/// `x` with each element moved to its bit-reversed index: element `i` of the result is element
/// `perm[i]` of `x`.
pub open spec fn bit_reversed<T>(perm: Seq<u16>, x: Seq<T>) -> Seq<T> {
    Seq::new(x.len(), |i: int| x[perm[i] as int])
}

/// Reordering a sequence by a bit-reversal table twice gives the sequence back.
pub proof fn law_bit_reverse_twice<T>(perm: Seq<u16>, x: Seq<T>)
    requires
        x.len() <= 0x1_0000,
        is_perm_table(perm, x.len() as usize),
    ensures
        bit_reversed(perm, bit_reversed(perm, x)) == x,
{
    let n = x.len() as usize;
    lemma_table_involution(perm, n);
    let y = bit_reversed(perm, x);
    assert forall|i: int| 0 <= i < x.len() implies #[trigger] bit_reversed(perm, y)[i] == x[i] by {
        let j = perm[i] as int;
        assert(perm[j] == i);
        assert(y[j] == x[perm[j] as int]);
    }
    assert(bit_reversed(perm, y) =~= x);
}

/// Computes the bit-reversal permutation table for a transform of size `n`.
fn make_perm(n: usize) -> (r: Vec<u16>)
    requires
        2 <= n <= 0x1_0000,
        is_power_of_two(n),
    ensures
        is_perm_table(r@, n),
{
    proof {
        lemma_pow2_u32(n);
    }
    let n32 = n as u32;
    proof {
        lemma_pow2_shift(n32);
    }
    let shift = (n32.leading_zeros() - 15) as u16;
    let mut perm: Vec<u16> = Vec::with_capacity(n);
    let mut i: u32 = 0;
    while i < n32
        invariant
            i <= n32,
            n32 == n,
            n32 <= 0x1_0000,
            shift == perm_shift(n32),
            shift <= 15,
            perm@.len() == i,
            forall|k: int| 0 <= k < i ==> #[trigger] perm@[k] == bit_reverse_index(k as u16, n32),
        decreases n32 - i,
    {
        perm.push(reverse_bits(i as u16) >> shift);
        i = i + 1;
    }
    assert(perm@ =~= bit_reverse_table(n as u32));
    perm
}

/// Moves each element of `x` to its bit-reversed index, in place: afterwards element `i` is the
/// element that was at index `perm[i]`. Swaps each pair once, from the lower index.
pub fn bit_reverse_inplace<T: Copy>(perm: &Vec<u16>, x: &mut [T])
    requires
        is_perm_table(perm@, old(x)@.len() as usize),
    ensures
        final(x)@.len() == old(x)@.len(),
        forall|i: int| 0 <= i < old(x)@.len() ==> #[trigger] final(x)@[i] == old(x)@[perm@[i] as int],
        final(x)@ == bit_reversed(perm@, old(x)@),
{
    let len = x.len();
    let ghost n = x@.len();
    proof {
        lemma_table_involution(perm@, len);
    }
    let mut i: usize = 0;
    while i < len
        invariant
            i <= len,
            len == n,
            x@.len() == n,
            perm@.len() == n,
            forall|k: int| 0 <= k < n ==> #[trigger] perm@[k] < n && perm@[perm@[k] as int] == k,
            forall|k: int|
                0 <= k < n ==> #[trigger] x@[k] == if k < i || perm@[k] < i {
                    old(x)@[perm@[k] as int]
                } else {
                    old(x)@[k]
                },
        decreases len - i,
    {
        let j = perm[i] as usize;
        if i < j {
            let a = x[i];
            let b = x[j];
            x[i] = b;
            x[j] = a;
        }
        assert forall|k: int| 0 <= k < n implies #[trigger] x@[k] == if k < i + 1 || perm@[k] < i + 1 {
            old(x)@[perm@[k] as int]
        } else {
            old(x)@[k]
        } by {
            if perm@[k] == i {
                assert(perm@[perm@[k] as int] == k);
            }
        }
        i = i + 1;
    }
    assert(x@ =~= bit_reversed(perm@, old(x)@));
}

/// Writes the elements of `x` to `y` in bit-reversed order: element `i` of `y` becomes element
/// `perm[i]` of `x`.
pub fn bit_reverse_copy<T: Copy>(perm: &Vec<u16>, x: &[T], y: &mut [T])
    requires
        is_perm_table(perm@, x@.len() as usize),
        old(y)@.len() == x@.len(),
    ensures
        final(y)@.len() == x@.len(),
        forall|i: int| 0 <= i < x@.len() ==> #[trigger] final(y)@[i] == x@[perm@[i] as int],
        final(y)@ == bit_reversed(perm@, x@),
{
    let len = x.len();
    let ghost n = x@.len();
    proof {
        lemma_table_involution(perm@, len);
    }
    let mut i: usize = 0;
    while i < len
        invariant
            i <= len,
            len == n,
            x@.len() == n,
            y@.len() == n,
            perm@.len() == n,
            forall|k: int| 0 <= k < n ==> #[trigger] perm@[k] < n,
            forall|k: int| 0 <= k < i ==> #[trigger] y@[k] == x@[perm@[k] as int],
        decreases len - i,
    {
        y[i] = x[perm[i] as usize];
        i = i + 1;
    }
    assert(y@ =~= bit_reversed(perm@, x@));
}

/// The size and permutation table of a transform of size `n`: tables are kept for sizes above
/// 4096, where the transform is built from 4096-point base cases.
pub open spec fn transform_tables_ok(size: u32, perm: Option<Seq<u16>>) -> bool {
    &&& is_power_of_two(size as usize)
    &&& (size > 4096 ==> (perm matches Some(p) && is_perm_table(p, size as usize)))
    &&& (size <= 4096 ==> perm is None)
}

/// Complex forward FFT of a power-of-two size up to 65536.
pub struct Fft {
    size: u32,
    perm: Option<Vec<u16>>,
}

impl Fft {
    /// The size of the transform.
    pub closed spec fn spec_size(&self) -> nat {
        self.size as nat
    }

    /// The bit-reversal table, kept for sizes above 4096.
    pub closed spec fn spec_perm(&self) -> Option<Seq<u16>> {
        match self.perm {
            Some(p) => Some(p@),
            None => None,
        }
    }

    /// The transform's invariant.
    pub open spec fn wf(&self) -> bool {
        transform_tables_ok(self.spec_size() as u32, self.spec_perm()) && self.spec_size() <= 0x1_0000
    }

    /// Creates a transform of size `n`, which must be a power of two of at most 65536.
    pub fn new(n: usize) -> (r: Self)
        requires
            is_power_of_two(n),
            n <= 0x1_0000,
        ensures
            r.wf(),
            r.spec_size() == n,
    {
        let perm = if n > 4096 { Some(make_perm(n)) } else { None };
        Fft { size: n as u32, perm }
    }

    /// Gets the size of the transform.
    pub fn size(&self) -> (r: usize)
        ensures
            r == self.spec_size(),
    {
        self.size as usize
    }

    /// Gets the bit-reversal table, kept for sizes above 4096.
    pub fn perm(&self) -> (r: Option<&Vec<u16>>)
        ensures
            r matches Some(p) ==> self.spec_perm() == Some(p@),
            r is None ==> self.spec_perm() is None,
    {
        match &self.perm {
            Some(p) => Some(p),
            None => None,
        }
    }
}

/// Complex inverse FFT of a power-of-two size up to 65536.
pub struct Ifft {
    size: u32,
    perm: Option<Vec<u16>>,
}

impl Ifft {
    /// The size of the transform.
    pub closed spec fn spec_size(&self) -> nat {
        self.size as nat
    }

    /// The bit-reversal table, kept for sizes above 4096.
    pub closed spec fn spec_perm(&self) -> Option<Seq<u16>> {
        match self.perm {
            Some(p) => Some(p@),
            None => None,
        }
    }

    /// The transform's invariant.
    pub open spec fn wf(&self) -> bool {
        transform_tables_ok(self.spec_size() as u32, self.spec_perm()) && self.spec_size() <= 0x1_0000
    }

    /// Creates a transform of size `n`, which must be a power of two of at most 65536.
    pub fn new(n: usize) -> (r: Self)
        requires
            is_power_of_two(n),
            n <= 0x1_0000,
        ensures
            r.wf(),
            r.spec_size() == n,
    {
        let perm = if n > 4096 { Some(make_perm(n)) } else { None };
        Ifft { size: n as u32, perm }
    }

    /// Gets the size of the transform.
    pub fn size(&self) -> (r: usize)
        ensures
            r == self.spec_size(),
    {
        self.size as usize
    }

    /// Gets the bit-reversal table, kept for sizes above 4096.
    pub fn perm(&self) -> (r: Option<&Vec<u16>>)
        ensures
            r matches Some(p) ==> self.spec_perm() == Some(p@),
            r is None ==> self.spec_perm() is None,
    {
        match &self.perm {
            Some(p) => Some(p),
            None => None,
        }
    }
}

} // verus!
