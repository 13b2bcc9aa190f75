use vstd::prelude::*;

verus! {

/// A decimal digit.
pub open spec fn is_dec_digit(c: char) -> bool {
    48 <= c as u32 && c as u32 <= 57
}

/// The numeric value of a decimal digit.
pub open spec fn digit_value(c: char) -> int {
    c as u32 - 48
}

/// Every character of `s` is a decimal digit.
pub open spec fn all_dec_digits(s: Seq<char>) -> bool {
    forall|i: int| 0 <= i < s.len() ==> is_dec_digit(#[trigger] s[i])
}

/// The value of a run of decimal digits, most significant first.
pub open spec fn digits_value(s: Seq<char>) -> int
    decreases s.len(),
{
    if s.len() == 0 {
        0
    } else {
        digits_value(s.drop_last()) * 10 + digit_value(s.last())
    }
}

/// The index where the digits of an integer literal begin: after one
/// optional leading sign.
pub open spec fn int_body_offset(s: Seq<char>) -> int {
    if s.len() > 0 && (s[0] == '-' || s[0] == '+') {
        1
    } else {
        0
    }
}

/// `s` is the text of a signed decimal integer: an optional single leading
/// `-` or `+`, then one or more decimal digits and nothing else.
pub open spec fn is_int_text(s: Seq<char>) -> bool {
    s.len() > int_body_offset(s) && all_dec_digits(
        s.subrange(int_body_offset(s), s.len() as int),
    )
}

/// The value of a signed decimal integer literal.
pub open spec fn int_text_value(s: Seq<char>) -> int
    recommends
        is_int_text(s),
{
    let magnitude = digits_value(s.subrange(int_body_offset(s), s.len() as int));
    if s.len() > 0 && s[0] == '-' {
        -magnitude
    } else {
        magnitude
    }
}

/// `v` lies within the range of 64-bit signed integers.
pub open spec fn fits_i64(v: int) -> bool {
    i64::MIN <= v && v <= i64::MAX
}

/// The value of a run of digits is non-negative and no prefix of it is
/// worth more than the whole run.
pub proof fn lemma_digits_value_bounds(s: Seq<char>, k: int)
    requires
        0 <= k <= s.len(),
        all_dec_digits(s),
    ensures
        0 <= digits_value(s.subrange(0, k)) <= digits_value(s),
    decreases s.len(),
{
    if k == s.len() {
        assert(s.subrange(0, k) =~= s);
        if s.len() > 0 {
            assert(all_dec_digits(s.drop_last()));
            lemma_digits_value_bounds(s.drop_last(), k - 1);
            assert(s.drop_last().subrange(0, k - 1) =~= s.drop_last());
        }
    } else {
        assert(all_dec_digits(s.drop_last()));
        lemma_digits_value_bounds(s.drop_last(), k);
        assert(s.drop_last().subrange(0, k) =~= s.subrange(0, k));
        lemma_digits_value_bounds(s.drop_last(), s.len() - 1);
        assert(s.drop_last().subrange(0, s.len() - 1) =~= s.drop_last());
    }
}

/// Parses `s` as a signed decimal integer: `Some` exactly when `s` is such
/// a literal and its value fits a 64-bit signed integer, and then the value
/// itself; `None` on any other text and on overflow.
pub fn parse_int_text(s: &str) -> (r: Option<i64>)
    ensures
        r is Some <==> is_int_text(s@) && fits_i64(int_text_value(s@)),
        r matches Some(v) ==> v == int_text_value(s@),
{
    let len = s.unicode_len();
    if len == 0 {
        return None;
    }
    let first = s.get_char(0);
    let neg = first == '-';
    let off: usize = if neg || first == '+' {
        1
    } else {
        0
    };
    if off == len {
        // a bare sign carries no digits
        return None;
    }
    let mut acc: i64 = 0;
    let mut i: usize = off;
    proof {
        assert(s@.subrange(off as int, off as int) =~= Seq::<char>::empty());
    }
    while i < len
        invariant
            off <= i <= len,
            off < len,
            len == s@.len(),
            off as int == int_body_offset(s@),
            neg == (s@[0] == '-'),
            all_dec_digits(s@.subrange(off as int, i as int)),
            acc == if neg {
                -digits_value(s@.subrange(off as int, i as int))
            } else {
                digits_value(s@.subrange(off as int, i as int))
            },
        decreases len - i,
    {
        let ghost done = s@.subrange(off as int, i as int);
        let ghost body = s@.subrange(off as int, len as int);
        let c = s.get_char(i);
        let u = c as u32;
        if u < 48 || u > 57 {
            proof {
                assert(body[i - off] == s@[i as int]);
                assert(!is_int_text(s@));
            }
            return None;
        }
        let d = (u - 48) as i64;
        let ghost scanned = s@.subrange(off as int, i + 1);
        proof {
            assert(scanned.drop_last() =~= done);
            assert(scanned.last() == s@[i as int]);
            assert(digits_value(scanned) == digits_value(done) * 10 + d);
            lemma_digits_value_bounds(done, i - off);
            assert(digits_value(done) >= 0);
        }
        let next = match acc.checked_mul(10) {
            Some(a) => if neg {
                a.checked_sub(d)
            } else {
                a.checked_add(d)
            },
            None => None,
        };
        match next {
            Some(a) => {
                acc = a;
            },
            None => {
                proof {
                    // the digits scanned so far already overflow, and further
                    // digits can only push the magnitude higher
                    assert(digits_value(scanned) > i64::MAX || -digits_value(scanned)
                        < i64::MIN);
                    if is_int_text(s@) {
                        assert(scanned =~= body.subrange(0, i + 1 - off));
                        lemma_digits_value_bounds(body, i + 1 - off);
                        assert(!fits_i64(int_text_value(s@)));
                    }
                }
                return None;
            },
        }
        i = i + 1;
    }
    proof {
        assert(s@.subrange(off as int, len as int) =~= s@.subrange(off as int, i as int));
    }
    Some(acc)
}

} // verus!
