use vstd::prelude::*;
use vstd::string::StringSliceAdditionalSpecFns;

verus! {

/// Atomic units in one whole unit of the native currency.
pub const LAMPORTS_PER_SOL: u64 = 1_000_000_000;

/// Why the text of an amount was refused.
#[derive(Clone, Copy, Debug, PartialEq, Eq, Structural)]
pub enum AmountError {
    /// Not a non-negative decimal number: digits with at most one point and
    /// at least one digit.
    Malformed,
    /// The amount in atomic units does not fit in a `u64`.
    TooLarge,
}

pub open spec fn is_digit(c: u8) -> bool {
    48 <= c && c <= 57
}

pub open spec fn all_digits(s: Seq<u8>) -> bool {
    forall|i: int| 0 <= i < s.len() ==> is_digit(#[trigger] s[i])
}

/// The number that a run of decimal digits writes.
pub open spec fn digits_value(s: Seq<u8>) -> nat
    decreases s.len(),
{
    if s.len() == 0 {
        0
    } else {
        digits_value(s.drop_last()) * 10 + (s.last() - 48) as nat
    }
}

pub open spec fn pow10(n: nat) -> nat
    decreases n,
{
    if n == 0 {
        1
    } else {
        10 * pow10((n - 1) as nat)
    }
}

/// `s` is digits up to `p`, and is either over there or goes on with a point
/// and more digits.
pub open spec fn split_at_point(s: Seq<u8>, p: int) -> bool {
    &&& 0 <= p <= s.len()
    &&& all_digits(s.take(p))
    &&& (p == s.len() || (s[p] == 46 && all_digits(s.skip(p + 1))))
}

pub open spec fn well_formed(s: Seq<u8>) -> bool {
    exists|p: int| split_at_point(s, p) && (p > 0 || p + 1 < s.len())
}

/// The fraction digits in atomic units: the first nine places, the rest cut.
pub open spec fn fraction_atomic(f: Seq<u8>) -> nat {
    if f.len() >= 9 {
        digits_value(f.take(9))
    } else {
        digits_value(f) * pow10((9 - f.len()) as nat)
    }
}

/// `floor(a * 10^9)` for the decimal number `a` that `s` writes, split at `p`.
pub open spec fn atomic_value(s: Seq<u8>, p: int) -> nat {
    digits_value(s.take(p)) * 1_000_000_000 + fraction_atomic(
        if p < s.len() { s.skip(p + 1) } else { seq![] },
    )
}

/// What the text `s` of a human amount is in atomic units.
pub open spec fn amount_of(s: Seq<u8>) -> Result<u64, AmountError> {
    if !well_formed(s) {
        Err(AmountError::Malformed)
    } else {
        let v = atomic_value(s, choose|p: int| split_at_point(s, p));
        if v > u64::MAX {
            Err(AmountError::TooLarge)
        } else {
            Ok(v as u64)
        }
    }
}

proof fn lemma_digits_step(s: Seq<u8>, i: int)
    requires
        0 <= i < s.len(),
    ensures
        digits_value(s.take(i + 1)) == digits_value(s.take(i)) * 10 + (s[i] - 48) as nat,
{
    assert(s.take(i + 1).drop_last() =~= s.take(i));
}

proof fn lemma_digits_bound(s: Seq<u8>)
    requires
        all_digits(s),
    ensures
        digits_value(s) < pow10(s.len()),
    decreases s.len(),
{
    if s.len() > 0 {
        let t = s.drop_last();
        assert(all_digits(t)) by {
            assert forall|i: int| 0 <= i < t.len() implies is_digit(#[trigger] t[i]) by {
                assert(t[i] == s[i]);
            }
        }
        lemma_digits_bound(t);
        assert(is_digit(s[s.len() - 1]));
    }
}

proof fn lemma_digits_grow(s: Seq<u8>, cap: nat)
    requires
        digits_value(s) >= cap,
        s.len() > 0,
    ensures
        digits_value(s.drop_last()) * 10 + (s.last() - 48) as nat >= cap,
{
}

/// The point, or the end, is the only place where the text can be split.
proof fn lemma_split_unique(s: Seq<u8>, p: int)
    requires
        0 <= p <= s.len(),
        all_digits(s.take(p)),
        p == s.len() || !is_digit(s[p]),
    ensures
        forall|q: int| #[trigger] split_at_point(s, q) ==> q == p,
{
    assert forall|q: int| #[trigger] split_at_point(s, q) implies q == p by {
        if q < p {
            assert(s.take(p)[q] == s[q]);
        } else if q > p {
            assert(s.take(q)[p] == s[p]);
        }
    }
}

proof fn lemma_pow10_add(a: nat, b: nat)
    ensures
        pow10(a) * pow10(b) == pow10(a + b),
    decreases a,
{
    if a > 0 {
        let a1 = (a - 1) as nat;
        lemma_pow10_add(a1, b);
        assert((a1 + b) as nat == (a + b - 1) as nat);
        assert(pow10(a + b) == 10 * pow10((a + b - 1) as nat));
        let x = pow10(a1);
        let y = pow10(b);
        assert(pow10(a) == 10 * x);
        assert((10 * x) * y == 10 * (x * y)) by (nonlinear_arith);
        assert(x * y == pow10(a1 + b));
    } else {
        assert(pow10(a) == 1);
        assert(1 * pow10(b) == pow10(b));
    }
}

proof fn lemma_pow10_nine()
    ensures
        pow10(9) == 1_000_000_000,
{
    reveal_with_fuel(pow10, 10);
}

/// Reads a human amount, a non-negative decimal number such as `0.5`, as
/// atomic units: `floor(a * 10^9)`, digits past the ninth place cut.
pub fn parse_amount(text: &str) -> (r: Result<u64, AmountError>)
    ensures
        r == amount_of(text.spec_bytes()),
{
    let b = text.as_bytes();
    let ghost s = b@;
    let n = b.len();
    let cap: u128 = 18_446_744_073_709_551_616;
    let mut i: usize = 0;
    let mut whole: u128 = 0;
    while i < n && b[i] >= 48 && b[i] <= 57
        invariant
            s == b@,
            n == s.len(),
            i <= n,
            all_digits(s.take(i as int)),
            cap == 18_446_744_073_709_551_616u128,
            whole <= cap,
            whole == if digits_value(s.take(i as int)) < cap { digits_value(s.take(i as int)) } else { cap as nat },
        decreases n - i,
    {
        proof {
            lemma_digits_step(s, i as int);
            assert forall|j: int| 0 <= j < i + 1 implies is_digit(#[trigger] s.take(i + 1)[j]) by {
                if j < i {
                    assert(s.take(i as int)[j] == s[j]);
                }
            }
        }
        let d = (b[i] - 48) as u128;
        let next = whole * 10 + d;
        whole = if next < cap { next } else { cap };
        i = i + 1;
    }
    let p = i;
    proof {
        lemma_split_unique(s, p as int);
    }
    let mut frac: u64 = 0;
    let mut places: usize = 0;
    if p < n {
        if b[p] != 46 {
            return Err(AmountError::Malformed);
        }
        i = p + 1;
        while i < n
            invariant
                s == b@,
                s == text.spec_bytes(),
                n == s.len(),
                p < n,
                s[p as int] == 46,
                forall|q: int| #[trigger] split_at_point(s, q) ==> q == p,
                p + 1 <= i <= n,
                places == if i - (p + 1) < 9 { i - (p + 1) } else { 9 },
                all_digits(s.subrange(p + 1, i as int)),
                frac == digits_value(s.subrange(p + 1, p + 1 + places)),
            decreases n - i,
        {
            if b[i] < 48 || b[i] > 57 {
                proof {
                    if well_formed(s) {
                        let q = choose|q: int| split_at_point(s, q) && (q > 0 || q + 1 < s.len());
                        assert(q == p);
                        assert(split_at_point(s, p as int));
                        assert(s.skip(p + 1)[i - (p + 1)] == s[i as int]);
                        assert(is_digit(s.skip(p + 1)[i - (p + 1)]));
                        assert(false);
                    }
                }
                return Err(AmountError::Malformed);
            }
            proof {
                let t = s.subrange(p + 1, i + 1);
                assert forall|j: int| 0 <= j < t.len() implies is_digit(#[trigger] t[j]) by {
                    if j < i - (p + 1) {
                        assert(s.subrange(p + 1, i as int)[j] == t[j]);
                    }
                }
            }
            if places < 9 {
                proof {
                    let f = s.subrange(p + 1, p + 1 + places);
                    assert(all_digits(f)) by {
                        assert forall|j: int| 0 <= j < f.len() implies is_digit(#[trigger] f[j]) by {
                            assert(s.subrange(p + 1, i as int)[j] == f[j]);
                        }
                    }
                    lemma_digits_bound(f);
                    assert(pow10(places as nat) <= 100_000_000) by {
                        reveal_with_fuel(pow10, 10);
                    }
                    let g = s.subrange(p + 1, p + 1 + places + 1);
                    assert(g.drop_last() =~= f);
                }
                frac = frac * 10 + (b[i] - 48) as u64;
                places = places + 1;
            }
            i = i + 1;
        }
    }
    if p == 0 && n <= 1 {
        return Err(AmountError::Malformed);
    }
    let mut scale: u64 = 1;
    let mut k: usize = places;
    while k < 9
        invariant
            places <= k <= 9,
            scale == pow10((k - places) as nat),
        decreases 9 - k,
    {
        proof {
            assert(pow10((k - places) as nat) <= 100_000_000) by {
                reveal_with_fuel(pow10, 10);
            }
        }
        scale = scale * 10;
        k = k + 1;
    }
    proof {
        let f = if p < n { s.skip(p + 1) } else { seq![] };
        let taken = if p < n { s.subrange(p + 1, p + 1 + places) } else { seq![] };
        if p < n {
            assert(all_digits(f));
            assert(split_at_point(s, p as int));
            if f.len() >= 9 {
                assert(f.take(9) =~= taken);
            } else {
                assert(f =~= taken);
            }
        } else {
            assert(s.take(p as int) =~= s);
            assert(split_at_point(s, p as int));
            assert(taken =~= f);
        }
        assert(well_formed(s));
        assert(all_digits(taken)) by {
            assert forall|j: int| 0 <= j < taken.len() implies is_digit(#[trigger] taken[j]) by {
                if p < n {
                    assert(f[j] == taken[j]);
                }
            }
        }
        lemma_digits_bound(taken);
        assert(frac * scale < 1_000_000_000) by {
            reveal_with_fuel(pow10, 10);
            lemma_pow10_add(places as nat, (9 - places) as nat);
            assert(frac * scale < pow10(places as nat) * pow10((9 - places) as nat)) by (nonlinear_arith)
                requires frac < pow10(places as nat), scale == pow10((9 - places) as nat), scale > 0;
        }
        lemma_pow10_nine();
        assert(frac == digits_value(taken));
        if f.len() >= 9 {
            assert(places == 9);
            assert(scale == 1);
            assert(taken == f.take(9));
            assert(fraction_atomic(f) == frac);
            assert(frac * scale == frac) by (nonlinear_arith)
                requires scale == 1;
        } else {
            assert(places == f.len());
            assert(taken == f);
            assert(fraction_atomic(f) == digits_value(f) * pow10((9 - f.len()) as nat));
        }
        assert(fraction_atomic(f) == frac * scale);
        let v = atomic_value(s, p as int);
        assert((choose|q: int| split_at_point(s, q)) == p);
        let dv = digits_value(s.take(p as int));
        if dv >= cap {
            assert(dv * 1_000_000_000 >= cap * 1_000_000_000) by (nonlinear_arith)
                requires dv >= cap;
            assert(whole == cap);
        } else {
            assert(whole == dv);
        }
    }
    let total: u128 = whole * 1_000_000_000 + (frac * scale) as u128;
    if total > u64::MAX as u128 {
        Err(AmountError::TooLarge)
    } else {
        Ok(total as u64)
    }
}

} // verus!
