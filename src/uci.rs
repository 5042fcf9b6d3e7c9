//! Options that the UCI front end declares, with bounds checked on update.
use vstd::prelude::*;
use vstd::string::{StringExecFns, StringSliceAdditionalSpecFns};

verus! {

/// Whether every byte is an ASCII digit.
pub open spec fn all_digits(d: Seq<u8>) -> bool {
    forall|i: int| 0 <= i < d.len() ==> 48 <= #[trigger] d[i] <= 57
}

/// The number that a string of decimal digits spells.
pub open spec fn digits_value(d: Seq<u8>) -> int
    decreases d.len(),
{
    if d.len() == 0 {
        0
    } else {
        digits_value(d.drop_last()) * 10 + (d.last() - 48)
    }
}

/// The digits of a number, past its sign if it has one.
pub open spec fn sign_stripped(b: Seq<u8>) -> Seq<u8> {
    if b.len() > 0 && (b[0] == 45 || b[0] == 43) { b.drop_first() } else { b }
}

/// The `i32` a decimal string spells: an optional `+` or `-`, then one or
/// more digits, with a value in range.
pub open spec fn spec_parse_i32(b: Seq<u8>) -> Option<i32> {
    let neg = b.len() > 0 && b[0] == 45;
    let d = sign_stripped(b);
    let v = if neg { -digits_value(d) } else { digits_value(d) };
    if d.len() == 0 || !all_digits(d) || v < i32::MIN || v > i32::MAX {
        None
    } else {
        Some(v as i32)
    }
}

proof fn lemma_digits_prefix(d: Seq<u8>, k: int)
    requires
        0 <= k <= d.len(),
        all_digits(d),
    ensures
        0 <= digits_value(d.take(k)) <= digits_value(d),
    decreases d.len() - k,
{
    if k < d.len() {
        lemma_digits_prefix(d, k + 1);
        assert(d.take(k + 1).drop_last() =~= d.take(k));
        assert(48 <= d[k] <= 57);
    } else {
        assert(d.take(k) =~= d);
        lemma_digits_nonneg(d);
    }
}

proof fn lemma_digits_nonneg(d: Seq<u8>)
    requires
        all_digits(d),
    ensures
        digits_value(d) >= 0,
    decreases d.len(),
{
    if d.len() > 0 {
        assert(all_digits(d.drop_last())) by {
            assert forall|i: int| 0 <= i < d.drop_last().len() implies 48 <= #[trigger] d.drop_last()[i] <= 57 by {
                assert(d.drop_last()[i] == d[i]);
            }
        }
        lemma_digits_nonneg(d.drop_last());
        assert(48 <= d[d.len() - 1] <= 57);
    }
}

/// Parses a decimal `i32`, as `str::parse` does.
pub fn parse_i32(s: &str) -> (r: Option<i32>)
    ensures
        r == spec_parse_i32(s.spec_bytes()),
{
    let b = s.as_bytes();
    let n = b.len();
    if n == 0 {
        return None;
    }
    let neg = b[0] == 45;
    let start: usize = if b[0] == 45 || b[0] == 43 { 1 } else { 0 };
    let ghost d = sign_stripped(b@);
    assert(d =~= b@.skip(start as int));
    if start == n {
        return None;
    }
    let mut acc: i64 = 0;
    let mut i: usize = start;
    while i < n
        invariant
            start <= i <= n,
            n == b@.len(),
            d == b@.skip(start as int),
            d == sign_stripped(b@),
            b@ == s.spec_bytes(),
            neg == (b@.len() > 0 && b@[0] == 45),
            0 <= acc <= 2_147_483_648,
            acc == digits_value(d.take(i - start)),
            all_digits(d.take(i - start)),
        decreases n - i,
    {
        let c = b[i];
        if c < 48 || c > 57 {
            assert(d[i - start] == c);
            assert(!(48 <= d[i - start] <= 57));
            assert(!all_digits(d));
            assert(spec_parse_i32(b@) is None);
            return None;
        }
        proof {
            assert(d.take(i - start + 1).drop_last() =~= d.take(i - start));
            assert(d.take(i - start + 1).last() == c);
        }
        acc = acc * 10 + (c - 48) as i64;
        i = i + 1;
        assert(all_digits(d.take(i - start))) by {
            assert forall|k: int| 0 <= k < d.take(i - start).len() implies 48 <= #[trigger] d.take(i - start)[k] <= 57 by {
                if k < i - start - 1 {
                    assert(d.take(i - start)[k] == d.take(i - start - 1)[k]);
                }
            }
        }
        if acc > 2_147_483_648 {
            proof {
                if all_digits(d) {
                    lemma_digits_prefix(d, i - start);
                }
                assert(spec_parse_i32(b@) is None);
            }
            return None;
        }
    }
    assert(d.take(n - start) =~= d);
    if neg {
        Some((-acc) as i32)
    } else if acc > 2_147_483_647 {
        None
    } else {
        Some(acc as i32)
    }
}

/// A declared engine option: its type, default, bounds and current value.
#[derive(Debug, Clone)]
pub struct ExtendedOption {
    pub option_type: String,
    pub default: Option<String>,
    pub min: Option<i32>,
    pub max: Option<i32>,
    pub value: Option<String>,
}

pub open spec fn same_text(a: Option<String>, b: Option<&str>) -> bool {
    match (a, b) {
        (Some(x), Some(y)) => x@ == y@,
        (None, None) => true,
        _ => false,
    }
}

/// Whether `value` may be stored in an option with these bounds: when both
/// bounds are set it must spell an `i32` between them, inclusive.
pub open spec fn spec_value_allowed(min: Option<i32>, max: Option<i32>, value: Seq<u8>) -> bool {
    match (min, max) {
        (Some(lo), Some(hi)) => match spec_parse_i32(value) {
            Some(x) => lo <= x <= hi,
            None => false,
        },
        _ => true,
    }
}

impl ExtendedOption {
    /// A new option with no value set.
    pub fn new(option_type: &str, default: Option<&str>, min: Option<i32>, max: Option<i32>) -> (r: Self)
        ensures
            r.option_type@ == option_type@,
            same_text(r.default, default),
            r.min == min,
            r.max == max,
            r.value is None,
    {
        let default = match default {
            Some(d) => Some(String::from_str(d)),
            None => None,
        };
        ExtendedOption { option_type: String::from_str(option_type), default, min, max, value: None }
    }

    /// Stores `value` when the bounds allow it (see `spec_value_allowed`)
    /// and tells whether it did; a refused value leaves the option as it was.
    pub fn set_value(&mut self, value: &str) -> (accepted: bool)
        ensures
            accepted == spec_value_allowed(old(self).min, old(self).max, value.spec_bytes()),
            final(self).option_type == old(self).option_type,
            final(self).default == old(self).default,
            final(self).min == old(self).min,
            final(self).max == old(self).max,
            accepted ==> (final(self).value matches Some(v) && v@ == value@),
            !accepted ==> final(self).value == old(self).value,
    {
        if let (Some(min), Some(max)) = (self.min, self.max) {
            match parse_i32(value) {
                Some(x) => {
                    if x < min || x > max {
                        return false;
                    }
                },
                None => {
                    return false;
                },
            }
        }
        self.value = Some(String::from_str(value));
        true
    }
}

} // verus!
