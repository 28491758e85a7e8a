//! Parsing of a resolution argument of the form `<width>x<height>`.
//!
//! The string must hold exactly one `'x'`; each side of it must be a
//! decimal numeral (an optional leading `'+'`, then at least one digit)
//! whose value fits `u32` and is not zero. Anything else is rejected.

use vstd::prelude::*;
use vstd::string::StrSliceExecFns;

verus! {

/// Whether `c` is an ASCII decimal digit (codes 48 through 57).
pub open spec fn is_digit(c: char) -> bool {
    48 <= (c as u32) <= 57
}

/// The value of an ASCII decimal digit.
pub open spec fn digit_val(c: char) -> int {
    (c as u32) - 48
}

/// Whether every character of `s` is an ASCII decimal digit.
pub open spec fn all_digits(s: Seq<char>) -> bool {
    forall|i: int| 0 <= i < s.len() ==> is_digit(s[i])
}

/// The value of a string of decimal digits, most significant first.
pub open spec fn digits_val(s: Seq<char>) -> int
    decreases s.len(),
{
    if s.len() == 0 {
        0
    } else {
        digits_val(s.drop_last()) * 10 + digit_val(s.last())
    }
}

/// The numeral with an optional leading `'+'` removed.
pub open spec fn strip_plus(s: Seq<char>) -> Seq<char> {
    if s.len() > 0 && s[0] == '+' {
        s.subrange(1, s.len() as int)
    } else {
        s
    }
}

/// The value of a decimal numeral when it is well-formed (after an
/// optional `'+'`, a nonempty run of digits) and fits `u32`; `None`
/// otherwise.
pub open spec fn spec_parse_u32(s: Seq<char>) -> Option<u32> {
    let d = strip_plus(s);
    if d.len() > 0 && all_digits(d) && digits_val(d) <= u32::MAX {
        Some(digits_val(d) as u32)
    } else {
        None
    }
}

/// Whether position `i` holds the only `'x'` of `s`.
pub open spec fn is_only_x(s: Seq<char>, i: int) -> bool {
    &&& 0 <= i < s.len()
    &&& s[i] == 'x'
    &&& forall|j: int| 0 <= j < s.len() && j != i ==> s[j] != 'x'
}

/// The dimensions a resolution string denotes: the parts left and right of
/// the only `'x'`, each a nonzero numeral that fits `u32`; `None` when the
/// string has no `'x'`, several, or a malformed or zero part.
pub open spec fn spec_parse_dimensions(s: Seq<char>) -> Option<(u32, u32)> {
    if exists|i: int| is_only_x(s, i) {
        let i = choose|i: int| is_only_x(s, i);
        match (spec_parse_u32(s.subrange(0, i)), spec_parse_u32(s.subrange(i + 1, s.len() as int))) {
            (Some(w), Some(h)) => if w != 0 && h != 0 {
                Some((w, h))
            } else {
                None
            },
            _ => None,
        }
    } else {
        None
    }
}

/// A string of digits has a non-negative value.
proof fn lemma_digits_val_nonneg(s: Seq<char>)
    requires
        all_digits(s),
    ensures
        digits_val(s) >= 0,
    decreases s.len(),
{
    if s.len() > 0 {
        assert(all_digits(s.drop_last()));
        lemma_digits_val_nonneg(s.drop_last());
    }
}

/// Extending a string of digits never shrinks its value.
proof fn lemma_digits_val_prefix_le(s: Seq<char>, n: int)
    requires
        all_digits(s),
        0 <= n <= s.len(),
    ensures
        digits_val(s.subrange(0, n)) <= digits_val(s),
    decreases s.len() - n,
{
    if n == s.len() {
        assert(s.subrange(0, n) =~= s);
    } else {
        let shorter = s.subrange(0, n);
        let longer = s.subrange(0, n + 1);
        assert(longer.drop_last() =~= shorter);
        assert(all_digits(shorter));
        lemma_digits_val_nonneg(shorter);
        assert(digits_val(longer) == digits_val(shorter) * 10 + digit_val(longer.last()));
        assert(digits_val(shorter) <= digits_val(shorter) * 10) by (nonlinear_arith)
            requires
                digits_val(shorter) >= 0,
        ;
        lemma_digits_val_prefix_le(s, n + 1);
    }
}

/// Parses the characters `lo ..< hi` of `fmt` as a decimal numeral.
#[verifier::loop_isolation(false)]
fn parse_u32_range(fmt: &str, lo: usize, hi: usize) -> (r: Option<u32>)
    requires
        lo <= hi <= fmt@.len(),
    ensures
        r == spec_parse_u32(fmt@.subrange(lo as int, hi as int)),
{
    let ghost part = fmt@.subrange(lo as int, hi as int);
    let mut start = lo;
    if lo < hi && fmt.get_char(lo) == '+' {
        start = lo + 1;
    }
    proof {
        assert(strip_plus(part) =~= fmt@.subrange(start as int, hi as int));
    }
    let ghost d = fmt@.subrange(start as int, hi as int);
    if start == hi {
        return None;
    }
    let mut acc: u64 = 0;
    let mut k = start;
    while k < hi
        invariant
            start <= k <= hi,
            acc <= u32::MAX,
            all_digits(fmt@.subrange(start as int, k as int)),
            acc == digits_val(fmt@.subrange(start as int, k as int)),
        decreases hi - k,
    {
        let c = fmt.get_char(k);
        let v = c as u32;
        if v < 48 || v > 57 {
            proof {
                assert(d[k as int - start as int] == fmt@[k as int]);
                assert(!all_digits(d));
            }
            return None;
        }
        proof {
            assert(fmt@.subrange(start as int, k as int + 1).drop_last() =~= fmt@.subrange(
                start as int,
                k as int,
            ));
        }
        acc = acc * 10 + ((v - 48) as u64);
        k = k + 1;
        if acc > 0xffff_ffff {
            proof {
                if all_digits(d) {
                    assert(fmt@.subrange(start as int, k as int) =~= d.subrange(
                        0,
                        k as int - start as int,
                    ));
                    lemma_digits_val_prefix_le(d, k as int - start as int);
                }
            }
            return None;
        }
    }
    proof {
        assert(fmt@.subrange(start as int, k as int) =~= d);
    }
    Some(acc as u32)
}

/// Parses a resolution of the form `<width>x<height>`, as
/// [`spec_parse_dimensions`] describes: `None` unless the string splits on
/// a single `'x'` into two nonzero numerals that fit `u32`.
#[verifier::loop_isolation(false)]
pub fn parse_dimensions(fmt: &str) -> (r: Option<(u32, u32)>)
    ensures
        r == spec_parse_dimensions(fmt@),
{
    let len = fmt.unicode_len();
    let mut xpos = len;
    let mut i: usize = 0;
    while i < len
        invariant
            i <= len,
            xpos == len || (xpos < i && fmt@[xpos as int] == 'x'),
            forall|j: int| 0 <= j < i && j != xpos ==> fmt@[j] != 'x',
        decreases len - i,
    {
        if fmt.get_char(i) == 'x' {
            if xpos < len {
                proof {
                    assert forall|p: int| !is_only_x(fmt@, p) by {
                        if p != xpos {
                            assert(fmt@[xpos as int] == 'x');
                        } else {
                            assert(fmt@[i as int] == 'x');
                        }
                    }
                }
                return None;
            }
            xpos = i;
        }
        i = i + 1;
    }
    if xpos == len {
        proof {
            assert forall|p: int| !is_only_x(fmt@, p) by {
                if 0 <= p < fmt@.len() {
                    assert(fmt@[p] != 'x');
                }
            }
        }
        return None;
    }
    proof {
        assert(is_only_x(fmt@, xpos as int));
        let w = choose|p: int| is_only_x(fmt@, p);
        assert(w == xpos as int);
    }
    let w = parse_u32_range(fmt, 0, xpos);
    let h = parse_u32_range(fmt, xpos + 1, len);
    match (w, h) {
        (Some(w), Some(h)) => if w != 0 && h != 0 {
            Some((w, h))
        } else {
            None
        },
        _ => None,
    }
}

} // verus!
