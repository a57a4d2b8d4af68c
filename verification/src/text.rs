//! Verified reading of decimal and hexadecimal text, as the scan report
//! stores timestamps, small counters and address pieces.

use vstd::prelude::*;

verus! {

/// Is `c` a decimal digit?
pub open spec fn is_dec_digit(c: char) -> bool {
    48 <= c as u32 <= 57
}

/// The value of one decimal digit.
pub open spec fn dec_digit_val(c: char) -> nat {
    (c as u32 - 48) as nat
}

/// Does `s` consist of decimal digits only?
pub open spec fn all_dec_digits(s: Seq<char>) -> bool {
    forall|i: int| 0 <= i < s.len() ==> is_dec_digit(#[trigger] s[i])
}

/// The value of a decimal digit string.
pub open spec fn dec_val(s: Seq<char>) -> nat
    decreases s.len(),
{
    if s.len() == 0 {
        0
    } else {
        dec_val(s.drop_last()) * 10 + dec_digit_val(s.last())
    }
}

/// Every prefix of a digit string has a value no larger than the whole.
pub proof fn lemma_dec_val_prefix_le(s: Seq<char>, j: int)
    requires
        0 <= j <= s.len(),
    ensures
        dec_val(s.take(j)) <= dec_val(s),
    decreases s.len() - j,
{
    if j == s.len() {
        assert(s.take(j) =~= s);
    } else {
        assert(s.take(j + 1).drop_last() =~= s.take(j));
        assert(s.take(j + 1).last() == s[j]);
        assert(dec_val(s.take(j)) <= dec_val(s.take(j + 1)));
        lemma_dec_val_prefix_le(s, j + 1);
    }
}

/// The characters of `s`, one by one, as an owned vector.
pub fn chars_of(s: &str) -> (r: Vec<char>)
    ensures
        r@ == s@,
{
    let n = s.unicode_len();
    let mut r: Vec<char> = Vec::new();
    let mut i: usize = 0;
    while i < n
        invariant
            i <= n,
            n == s@.len(),
            r@ == s@.take(i as int),
        decreases n - i,
    {
        let c = s.get_char(i);
        r.push(c);
        proof {
            assert(r@ =~= s@.take(i as int + 1));
        }
        i = i + 1;
    }
    proof {
        assert(s@.take(n as int) =~= s@);
    }
    r
}

/// The decimal value of `v`, if `v` is one or more digits and the value is
/// at most `bound`; `None` otherwise.
pub fn dec_val_up_to(v: &Vec<char>, bound: u64) -> (r: Option<u64>)
    ensures
        match r {
            Some(x) => v@.len() >= 1 && all_dec_digits(v@) && dec_val(v@) <= bound && x == dec_val(
                v@,
            ),
            None => !(v@.len() >= 1 && all_dec_digits(v@) && dec_val(v@) <= bound),
        },
{
    let n = v.len();
    if n == 0 {
        return None;
    }
    let mut acc: u64 = 0;
    let mut i: usize = 0;
    proof {
        assert(v@.take(0) =~= Seq::<char>::empty());
    }
    while i < n
        invariant
            i <= n,
            n == v@.len(),
            all_dec_digits(v@.take(i as int)),
            acc == dec_val(v@.take(i as int)),
            acc <= bound,
        decreases n - i,
    {
        let c = v[i];
        let u = c as u32;
        if u < 48 || u > 57 {
            return None;
        }
        let d = (u - 48) as u64;
        proof {
            assert(v@.take(i as int + 1).drop_last() =~= v@.take(i as int));
            assert(v@.take(i as int + 1).last() == v@[i as int]);
        }
        if acc > bound / 10 {
            proof {
                assert(bound == (bound / 10) * 10 + bound % 10);
                assert(acc * 10 >= (bound / 10 + 1) * 10);
                assert(dec_val(v@.take(i as int + 1)) > bound);
                lemma_dec_val_prefix_le(v@, i as int + 1);
            }
            return None;
        }
        proof {
            assert(acc * 10 <= (bound / 10) * 10);
            assert((bound / 10) * 10 <= bound);
        }
        let acc10 = acc * 10;
        if d > bound - acc10 {
            proof {
                assert(dec_val(v@.take(i as int + 1)) > bound);
                lemma_dec_val_prefix_le(v@, i as int + 1);
            }
            return None;
        }
        acc = acc10 + d;
        i = i + 1;
    }
    proof {
        assert(v@.take(n as int) =~= v@);
    }
    Some(acc)
}

/// The value of `s` read as a signed 64-bit decimal integer: an optional
/// sign, then one or more digits, with the result in range.
pub open spec fn spec_parse_i64(s: Seq<char>) -> Option<i64> {
    if s.len() >= 1 && (s[0] == '-' || s[0] == '+') {
        let digits = s.skip(1);
        if digits.len() >= 1 && all_dec_digits(digits) {
            if s[0] == '-' {
                if dec_val(digits) <= 0x8000_0000_0000_0000 {
                    Some((0 - dec_val(digits) as int) as i64)
                } else {
                    None
                }
            } else {
                if dec_val(digits) <= 0x7fff_ffff_ffff_ffff {
                    Some(dec_val(digits) as i64)
                } else {
                    None
                }
            }
        } else {
            None
        }
    } else {
        if s.len() >= 1 && all_dec_digits(s) {
            if dec_val(s) <= 0x7fff_ffff_ffff_ffff {
                Some(dec_val(s) as i64)
            } else {
                None
            }
        } else {
            None
        }
    }
}

/// Reads a signed 64-bit decimal integer, exactly as `spec_parse_i64` says.
pub fn parse_i64(s: &str) -> (r: Option<i64>)
    ensures
        r == spec_parse_i64(s@),
{
    let v = chars_of(s);
    if v.len() == 0 {
        return None;
    }
    let c0 = v[0];
    let signed = c0 == '-' || c0 == '+';
    let neg = c0 == '-';
    let digits: Vec<char> = if signed {
        let mut w = chars_of(s);
        w.remove(0);
        proof {
            assert(w@ =~= s@.skip(1));
        }
        w
    } else {
        v
    };
    let bound: u64 = if neg {
        0x8000_0000_0000_0000
    } else {
        0x7fff_ffff_ffff_ffff
    };
    match dec_val_up_to(&digits, bound) {
        None => None,
        Some(x) => {
            if neg {
                if x == 0x8000_0000_0000_0000 {
                    Some(i64::MIN)
                } else {
                    Some(-(x as i64))
                }
            } else {
                Some(x as i64)
            }
        },
    }
}

/// The value of `s` read as an unsigned 8-bit decimal integer: an optional
/// leading plus sign, then one or more digits, with the result at most 255.
pub open spec fn spec_parse_u8(s: Seq<char>) -> Option<u8> {
    if s.len() >= 1 && s[0] == '+' {
        let digits = s.skip(1);
        if digits.len() >= 1 && all_dec_digits(digits) && dec_val(digits) <= 255 {
            Some(dec_val(digits) as u8)
        } else {
            None
        }
    } else {
        if s.len() >= 1 && all_dec_digits(s) && dec_val(s) <= 255 {
            Some(dec_val(s) as u8)
        } else {
            None
        }
    }
}

/// Reads an unsigned 8-bit decimal integer, exactly as `spec_parse_u8` says.
pub fn parse_u8(s: &str) -> (r: Option<u8>)
    ensures
        r == spec_parse_u8(s@),
{
    let v = chars_of(s);
    if v.len() == 0 {
        return None;
    }
    let digits: Vec<char> = if v[0] == '+' {
        let mut w = chars_of(s);
        w.remove(0);
        proof {
            assert(w@ =~= s@.skip(1));
        }
        w
    } else {
        v
    };
    match dec_val_up_to(&digits, 255) {
        None => None,
        Some(x) => Some(x as u8),
    }
}

/// Is `c` a hexadecimal digit?
pub open spec fn is_hex_digit(c: char) -> bool {
    48 <= c as u32 <= 57 || 97 <= c as u32 <= 102 || 65 <= c as u32 <= 70
}

/// The value of one hexadecimal digit.
pub open spec fn hex_digit_val(c: char) -> nat {
    if 48 <= c as u32 <= 57 {
        (c as u32 - 48) as nat
    } else if 97 <= c as u32 <= 102 {
        (c as u32 - 87) as nat
    } else {
        (c as u32 - 55) as nat
    }
}

/// Does `s` consist of hexadecimal digits only?
pub open spec fn all_hex_digits(s: Seq<char>) -> bool {
    forall|i: int| 0 <= i < s.len() ==> is_hex_digit(#[trigger] s[i])
}

/// The value of a hexadecimal digit string.
pub open spec fn hex_val(s: Seq<char>) -> nat
    decreases s.len(),
{
    if s.len() == 0 {
        0
    } else {
        hex_val(s.drop_last()) * 16 + hex_digit_val(s.last())
    }
}

/// Is `p` the text of one 16-bit group: one to four hexadecimal digits?
pub open spec fn is_h16_text(p: Seq<char>) -> bool {
    1 <= p.len() <= 4 && all_hex_digits(p)
}

/// Reads one 16-bit group, exactly as `is_h16_text` and `hex_val` say.
pub fn parse_h16(v: &Vec<char>) -> (r: Option<u16>)
    ensures
        match r {
            Some(x) => is_h16_text(v@) && x == hex_val(v@),
            None => !is_h16_text(v@),
        },
{
    let n = v.len();
    if n == 0 || n > 4 {
        return None;
    }
    let mut acc: u32 = 0;
    let mut i: usize = 0;
    proof {
        assert(v@.take(0) =~= Seq::<char>::empty());
    }
    while i < n
        invariant
            i <= n,
            n == v@.len(),
            n <= 4,
            all_hex_digits(v@.take(i as int)),
            acc == hex_val(v@.take(i as int)),
            acc < 0x10000,
        decreases n - i,
    {
        let c = v[i];
        let u = c as u32;
        let d: u32 = if 48 <= u && u <= 57 {
            u - 48
        } else if 97 <= u && u <= 102 {
            u - 87
        } else if 65 <= u && u <= 70 {
            u - 55
        } else {
            return None;
        };
        proof {
            assert(v@.take(i as int + 1).drop_last() =~= v@.take(i as int));
            assert(v@.take(i as int + 1).last() == v@[i as int]);
            lemma_hex_val_bound(v@.take(i as int));
        }
        acc = acc * 16 + d;
        i = i + 1;
        proof {
            lemma_hex_val_bound(v@.take(i as int));
        }
    }
    proof {
        assert(v@.take(n as int) =~= v@);
    }
    Some(acc as u16)
}

/// A hexadecimal string of at most four digits has a value below 16^4.
pub proof fn lemma_hex_val_bound(s: Seq<char>)
    requires
        all_hex_digits(s),
    ensures
        s.len() == 0 ==> hex_val(s) == 0,
        s.len() <= 1 ==> hex_val(s) < 0x10,
        s.len() <= 2 ==> hex_val(s) < 0x100,
        s.len() <= 3 ==> hex_val(s) < 0x1000,
        s.len() <= 4 ==> hex_val(s) < 0x10000,
    decreases s.len(),
{
    if s.len() > 0 {
        assert(all_hex_digits(s.drop_last())) by {
            assert(forall|i: int|
                0 <= i < s.len() - 1 ==> s.drop_last()[i] == #[trigger] s[i]);
        }
        lemma_hex_val_bound(s.drop_last());
        assert(is_hex_digit(s.last()));
        assert(hex_digit_val(s.last()) < 16);
    }
}

} // verus!
