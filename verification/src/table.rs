//! The colour lookup table: one byte intensity for every march step count.

use vstd::prelude::*;

verus! {

/// Number of entries of the table: one for each index in `0..=256`.
pub const TABLE_LEN: usize = 257;

/// Fourth power.
pub open spec fn pow4(x: int) -> int {
    x * x * x * x
}

/// Fifth power.
pub open spec fn pow5(x: int) -> int {
    x * x * x * x * x
}

/// `t` is the integer nearest to `i` raised to the power 0.8, that is,
/// `t - 1/2 <= i^(4/5) < t + 1/2`.  Raising to the fifth power and clearing
/// the halves gives the integer form below.  An index `i` stands for the
/// fraction `i / 256`, and the scale of the table is `256^0.8`, so that entry
/// `i` is `i^0.8` rounded.
pub open spec fn is_gamma_rounded(i: int, t: int) -> bool {
    0 <= t && pow5(2 * t - 1) <= 32 * pow4(i) < pow5(2 * t + 1)
}

/// The intensity for index `i`: the integer nearest to `i^0.8`.
pub open spec fn gamma_rounded(i: int) -> int {
    choose|t: int| is_gamma_rounded(i, t)
}

/// Fifth powers preserve order.
pub proof fn lemma_pow5_monotonic(a: int, b: int)
    requires
        a <= b,
    ensures
        pow5(a) <= pow5(b),
{
    if 0 <= a {
        lemma_pow5_monotonic_nonneg(a, b);
    } else if b <= 0 {
        lemma_pow5_monotonic_nonneg(-b, -a);
        lemma_pow5_odd(a);
        lemma_pow5_odd(b);
    } else {
        lemma_pow5_monotonic_nonneg(0, -a);
        lemma_pow5_monotonic_nonneg(0, b);
        lemma_pow5_odd(a);
    }
}

proof fn lemma_pow5_odd(a: int)
    ensures
        pow5(-a) == -pow5(a),
{
    assert((-a) * (-a) * (-a) * (-a) * (-a) == -(a * a * a * a * a)) by (nonlinear_arith);
}

proof fn lemma_pow5_monotonic_nonneg(a: int, b: int)
    requires
        0 <= a <= b,
    ensures
        0 <= pow5(a) <= pow5(b),
{
    let a2: int = a * a;
    let b2: int = b * b;
    assert(0 <= a2 <= b2) by (nonlinear_arith)
        requires
            0 <= a <= b,
            a2 == a * a,
            b2 == b * b,
    ;
    let a4: int = a2 * a2;
    let b4: int = b2 * b2;
    assert(0 <= a4 <= b4) by (nonlinear_arith)
        requires
            0 <= a2 <= b2,
            a4 == a2 * a2,
            b4 == b2 * b2,
    ;
    assert(0 <= a4 * a <= b4 * b) by (nonlinear_arith)
        requires
            0 <= a4 <= b4,
            0 <= a <= b,
    ;
    assert(pow5(a) == a4 * a) by (nonlinear_arith)
        requires
            a4 == (a * a) * (a * a),
    ;
    assert(pow5(b) == b4 * b) by (nonlinear_arith)
        requires
            b4 == (b * b) * (b * b),
    ;
}

/// Fourth powers preserve order on the non-negative integers.
pub proof fn lemma_pow4_monotonic(a: int, b: int)
    requires
        0 <= a <= b,
    ensures
        0 <= pow4(a) <= pow4(b),
{
    let a2: int = a * a;
    let b2: int = b * b;
    assert(0 <= a2 <= b2) by (nonlinear_arith)
        requires
            0 <= a <= b,
            a2 == a * a,
            b2 == b * b,
    ;
    assert(0 <= a2 * a2 <= b2 * b2) by (nonlinear_arith)
        requires
            0 <= a2 <= b2,
    ;
    assert(pow4(a) == a2 * a2) by (nonlinear_arith)
        requires
            a2 == a * a,
    ;
    assert(pow4(b) == b2 * b2) by (nonlinear_arith)
        requires
            b2 == b * b,
    ;
}

/// At most one integer is nearest to `i^0.8`.
pub proof fn lemma_gamma_rounded_unique(i: int, t1: int, t2: int)
    requires
        is_gamma_rounded(i, t1),
        is_gamma_rounded(i, t2),
    ensures
        t1 == t2,
{
    if t1 < t2 {
        lemma_pow5_monotonic(2 * t1 + 1, 2 * t2 - 1);
    } else if t2 < t1 {
        lemma_pow5_monotonic(2 * t2 + 1, 2 * t1 - 1);
    }
}

/// Whoever exhibits the nearest integer has found `gamma_rounded`.
pub proof fn lemma_gamma_rounded_is(i: int, t: int)
    requires
        is_gamma_rounded(i, t),
    ensures
        gamma_rounded(i) == t,
{
    lemma_gamma_rounded_unique(i, t, gamma_rounded(i));
}

/// Just above the fifth power of twice an index lies more than 32 times
/// its fourth power: the search for the nearest integer ends by `i`.
proof fn lemma_search_bound(i: int)
    requires
        0 <= i,
    ensures
        pow5(2 * i + 1) > 32 * pow4(i),
{
    let i4: int = pow4(i);
    lemma_pow4_monotonic(0, i);
    assert(pow5(2 * i + 1) == 32 * (i4 * i) + 80 * i4 + 80 * (i * i * i) + 40 * (i * i) + 10 * i + 1)
        by (nonlinear_arith)
        requires
            i4 == i * i * i * i,
    ;
    assert(i4 * i >= 0 && i * i * i >= 0 && i * i >= 0) by (nonlinear_arith)
        requires
            0 <= i,
            0 <= i4,
    ;
}

proof fn lemma_search(i: int, t: int) -> (found: int)
    requires
        0 <= t <= i,
        pow5(2 * t - 1) <= 32 * pow4(i),
    ensures
        is_gamma_rounded(i, found),
    decreases i - t,
{
    if pow5(2 * t + 1) > 32 * pow4(i) {
        t
    } else {
        if t == i {
            lemma_search_bound(i);
        }
        lemma_search(i, t + 1)
    }
}

/// Every index has a nearest integer to its power 0.8.
pub proof fn lemma_gamma_rounded_exists(i: int)
    requires
        0 <= i,
    ensures
        is_gamma_rounded(i, gamma_rounded(i)),
{
    lemma_pow4_monotonic(0, i);
    assert(pow5(-1) == -1) by (nonlinear_arith);
    let found: int = lemma_search(i, 0);
}

/// The intensities never decrease with the index.
pub proof fn lemma_gamma_rounded_monotonic(i: int, j: int)
    requires
        0 <= i <= j,
    ensures
        gamma_rounded(i) <= gamma_rounded(j),
{
    lemma_gamma_rounded_exists(i);
    lemma_gamma_rounded_exists(j);
    lemma_pow4_monotonic(i, j);
    let ti: int = gamma_rounded(i);
    let tj: int = gamma_rounded(j);
    if tj < ti {
        lemma_pow5_monotonic(2 * tj + 1, 2 * ti - 1);
    }
}

fn fourth_power(x: u64) -> (r: u64)
    requires
        x <= 1024,
    ensures
        r == pow4(x as int),
        r <= 0x100_0000_0000,
{
    assert(x * x <= 0x10_0000) by (nonlinear_arith)
        requires
            x <= 1024,
    ;
    let x2: u64 = x * x;
    assert(x2 * x2 <= 0x100_0000_0000 && x2 * x2 == x * x * x * x) by (nonlinear_arith)
        requires
            x2 <= 0x10_0000,
            x2 == x * x,
    ;
    x2 * x2
}

fn fifth_power(x: u64) -> (r: u64)
    requires
        x <= 1024,
    ensures
        r == pow5(x as int),
{
    let x4: u64 = fourth_power(x);
    assert(x4 * x <= 0x4_0000_0000_0000 && x4 * x == x * x * x * x * x) by (nonlinear_arith)
        requires
            x4 <= 0x100_0000_0000,
            x <= 1024,
            x4 == x * x * x * x,
    ;
    x4 * x
}

/// The byte intensities for the indices `0..=256`, built once and read by
/// every pixel.
pub struct ColorLookupTable {
    entries: Vec<u8>,
}

impl View for ColorLookupTable {
    type V = Seq<u8>;

    closed spec fn view(&self) -> Seq<u8> {
        self.entries@
    }
}

impl ColorLookupTable {
    /// The table holds, for each index, the integer nearest to its power 0.8.
    pub open spec fn wf(self) -> bool {
        &&& self@.len() == TABLE_LEN
        &&& forall|i: int| 0 <= i < TABLE_LEN ==> #[trigger] self@[i] == gamma_rounded(i)
    }

    #[verifier::type_invariant]
    closed spec fn inv(self) -> bool {
        self.wf()
    }

    /// Builds the table.
    pub fn new() -> (table: ColorLookupTable)
        ensures
            table.wf(),
            forall|i: int, j: int| 0 <= i <= j < TABLE_LEN ==> table@[i] <= table@[j],
    {
        let mut entries: Vec<u8> = Vec::new();
        let mut t: u64 = 0;
        let mut i: u64 = 0;
        proof {
            assert(pow5(-1) == -1) by (nonlinear_arith);
            assert(pow4(0) == 0) by (nonlinear_arith);
        }
        while i < 257
            invariant
                i <= 257,
                entries@.len() == i,
                forall|k: int| 0 <= k < i ==> #[trigger] entries@[k] == gamma_rounded(k),
                t <= i,
                t <= 128,
                pow5(2 * t - 1) <= 32 * pow4(i as int),
            decreases 257 - i,
        {
            let target: u64 = 32 * fourth_power(i);
            while fifth_power(2 * t + 1) <= target
                invariant
                    i < 257,
                    t <= i,
                    t <= 128,
                    target == 32 * pow4(i as int),
                    pow5(2 * t - 1) <= target,
                decreases i - t,
            {
                proof {
                    if t == i {
                        lemma_search_bound(i as int);
                    }
                    if t == 128 {
                        lemma_pow4_monotonic(i as int, 256);
                        assert(pow5(257) > 32 * pow4(256)) by (nonlinear_arith);
                    }
                }
                t = t + 1;
            }
            proof {
                assert(is_gamma_rounded(i as int, t as int));
                lemma_gamma_rounded_is(i as int, t as int);
                lemma_pow4_monotonic(i as int, i + 1);
            }
            entries.push(t as u8);
            i = i + 1;
        }
        let table = ColorLookupTable { entries };
        proof {
            assert(table.wf());
            assert forall|k: int, l: int| 0 <= k <= l < TABLE_LEN implies table@[k] <= table@[l] by {
                lemma_gamma_rounded_monotonic(k, l);
            }
        }
        table
    }

    /// The intensity for `index`.
    pub fn get(&self, index: usize) -> (value: u8)
        requires
            index < TABLE_LEN,
        ensures
            value == self@[index as int],
            value == gamma_rounded(index as int),
    {
        proof {
            use_type_invariant(self);
        }
        self.entries[index]
    }

    /// All intensities, in index order.
    pub fn to_vec(&self) -> (values: Vec<u8>)
        ensures
            values@ == self@,
    {
        self.entries.clone()
    }
}

} // verus!
