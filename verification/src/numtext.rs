//! Decimal text: rendering integers as strings (for slugs and token
//! subjects) and parsing signed 32-bit integers back out of strings.

use vstd::prelude::*;
use vstd::string::StrSliceExecFns;
use vstd::string::StringExecFns;

verus! {

/// The character for one decimal digit.
pub open spec fn digit_char(d: int) -> char {
    if d == 0 {
        '0'
    } else if d == 1 {
        '1'
    } else if d == 2 {
        '2'
    } else if d == 3 {
        '3'
    } else if d == 4 {
        '4'
    } else if d == 5 {
        '5'
    } else if d == 6 {
        '6'
    } else if d == 7 {
        '7'
    } else if d == 8 {
        '8'
    } else {
        '9'
    }
}

/// The decimal digits of `n >= 0`, most significant first.
pub open spec fn dec_digits(n: int) -> Seq<char>
    decreases n,
{
    if n < 10 {
        seq![digit_char(n)]
    } else {
        dec_digits(n / 10).push(digit_char(n % 10))
    }
}

/// The decimal string of `n`, with a leading minus sign when negative.
pub open spec fn int_str(n: int) -> Seq<char> {
    if n < 0 {
        seq!['-'] + dec_digits(-n)
    } else {
        dec_digits(n)
    }
}

/// The digits collected by `u64_to_string`, read back most significant
/// first: the last-extracted digit comes first.
spec fn rev_digit_chars(ds: Seq<u64>) -> Seq<char>
    decreases ds.len(),
{
    if ds.len() == 0 {
        Seq::empty()
    } else {
        seq![digit_char(ds.last() as int)] + rev_digit_chars(ds.drop_last())
    }
}

/// A one-character string for one decimal digit.
fn digit_str(d: u64) -> (r: &'static str)
    requires
        d < 10,
    ensures
        r@ == seq![digit_char(d as int)],
{
    let r: &'static str = if d == 0 {
        "0"
    } else if d == 1 {
        "1"
    } else if d == 2 {
        "2"
    } else if d == 3 {
        "3"
    } else if d == 4 {
        "4"
    } else if d == 5 {
        "5"
    } else if d == 6 {
        "6"
    } else if d == 7 {
        "7"
    } else if d == 8 {
        "8"
    } else {
        "9"
    };
    proof {
        reveal_strlit("0");
        reveal_strlit("1");
        reveal_strlit("2");
        reveal_strlit("3");
        reveal_strlit("4");
        reveal_strlit("5");
        reveal_strlit("6");
        reveal_strlit("7");
        reveal_strlit("8");
        reveal_strlit("9");
        assert(r@ =~= seq![digit_char(d as int)]);
    }
    r
}

/// Renders `n` in decimal.
pub fn u64_to_string(n: u64) -> (r: String)
    ensures
        r@ == dec_digits(n as int),
{
    let mut digits: Vec<u64> = Vec::new();
    let mut m = n;
    proof {
        assert(dec_digits(n as int) =~= dec_digits(n as int) + rev_digit_chars(Seq::empty()));
    }
    loop
        invariant_except_break
            dec_digits(n as int) =~= dec_digits(m as int) + rev_digit_chars(digits@),
            forall|k: int| 0 <= k < digits@.len() ==> digits@[k] < 10,
        ensures
            dec_digits(n as int) =~= rev_digit_chars(digits@),
            forall|k: int| 0 <= k < digits@.len() ==> digits@[k] < 10,
        decreases m,
    {
        let d = m % 10;
        let m2 = m / 10;
        let ghost pre = digits@;
        digits.push(d);
        proof {
            assert(digits@.last() == d);
            assert(digits@.drop_last() =~= pre);
            assert(rev_digit_chars(digits@) =~= seq![digit_char(d as int)] + rev_digit_chars(pre));
        }
        if m2 == 0 {
            proof {
                assert(m < 10);
                assert(dec_digits(m as int) =~= seq![digit_char(d as int)]);
                assert(dec_digits(n as int) =~= rev_digit_chars(digits@));
            }
            break ;
        }
        proof {
            assert(m >= 10);
            assert(dec_digits(m as int) =~= dec_digits(m2 as int) + seq![digit_char(d as int)]);
            assert(dec_digits(n as int) =~= dec_digits(m2 as int) + rev_digit_chars(digits@));
        }
        m = m2;
    }
    let mut out = String::new();
    let ghost ds = digits@;
    let mut i = digits.len();
    proof {
        assert(ds.take(i as int) =~= ds);
        assert(out@ + rev_digit_chars(ds) =~= rev_digit_chars(ds));
    }
    while i > 0
        invariant
            i <= digits@.len(),
            ds == digits@,
            forall|k: int| 0 <= k < ds.len() ==> ds[k] < 10,
            out@ + rev_digit_chars(ds.take(i as int)) =~= rev_digit_chars(ds),
            dec_digits(n as int) =~= rev_digit_chars(ds),
        decreases i,
    {
        let d = digits[i - 1];
        proof {
            assert(ds.take(i as int).last() == ds[i - 1]);
            assert(ds.take(i as int).drop_last() =~= ds.take(i - 1));
        }
        out.append(digit_str(d));
        i -= 1;
    }
    proof {
        assert(ds.take(0) =~= Seq::<u64>::empty());
        assert(out@ =~= dec_digits(n as int));
    }
    out
}

/// Renders `n` in decimal, with a leading minus sign when negative.
pub fn i64_to_string(n: i64) -> (r: String)
    ensures
        r@ == int_str(n as int),
{
    if n >= 0 {
        u64_to_string(n as u64)
    } else {
        let mag: u64 = if n == i64::MIN {
            9223372036854775808u64
        } else {
            (-n) as u64
        };
        proof {
            assert(mag == -(n as int));
        }
        let mut out = String::from_str("-");
        proof {
            reveal_strlit("-");
            assert(out@ =~= seq!['-']);
        }
        out.append(u64_to_string(mag).as_str());
        out
    }
}

/// Whether `c` is a decimal digit.
pub open spec fn is_digit(c: char) -> bool {
    48 <= c as int && c as int <= 57
}

/// Whether every character of `s` is a decimal digit.
pub open spec fn all_digits(s: Seq<char>) -> bool {
    forall|i: int| 0 <= i < s.len() ==> is_digit(s[i])
}

/// The value of a digit string, most significant first.
pub open spec fn digits_val(s: Seq<char>) -> int
    decreases s.len(),
{
    if s.len() == 0 {
        0
    } else {
        digits_val(s.drop_last()) * 10 + (s.last() as int - 48)
    }
}

/// What parsing a signed 32-bit decimal accepts: an optional sign, then at
/// least one digit, and a value inside the type's range.
pub open spec fn parse_i32_spec(s: Seq<char>) -> Option<int> {
    let signed = s.len() > 0 && (s[0] == '-' || s[0] == '+');
    let rest = if signed {
        s.drop_first()
    } else {
        s
    };
    let sign: int = if s.len() > 0 && s[0] == '-' {
        -1
    } else {
        1
    };
    if rest.len() == 0 || !all_digits(rest) {
        None
    } else {
        let v = sign * digits_val(rest);
        if -2147483648 <= v && v <= 2147483647 {
            Some(v)
        } else {
            None
        }
    }
}

proof fn lemma_digits_val_nonneg(s: Seq<char>)
    requires
        all_digits(s),
    ensures
        digits_val(s) >= 0,
    decreases s.len(),
{
    if s.len() > 0 {
        assert(all_digits(s.drop_last()));
        lemma_digits_val_nonneg(s.drop_last());
        assert(is_digit(s.last()));
    }
}

proof fn lemma_digits_val_mono(s: Seq<char>, i: int, j: int)
    requires
        all_digits(s),
        0 <= i <= j <= s.len(),
    ensures
        digits_val(s.take(i)) <= digits_val(s.take(j)),
    decreases j - i,
{
    if i < j {
        lemma_digits_val_mono(s, i, j - 1);
        assert(s.take(j).drop_last() =~= s.take(j - 1));
        assert(all_digits(s.take(j - 1))) by {
            assert(forall|k: int| 0 <= k < j - 1 ==> s.take(j - 1)[k] == s[k]);
        }
        lemma_digits_val_nonneg(s.take(j - 1));
        assert(is_digit(s.take(j).last()));
    }
}

proof fn lemma_parse_rest(s: Seq<char>, rest: Seq<char>, start: int)
    requires
        s.len() > 0,
        start == 0 || start == 1,
        start == 1 <==> (s[0] == '-' || s[0] == '+'),
        rest == s.subrange(start, s.len() as int),
    ensures
        rest == (if s.len() > 0 && (s[0] == '-' || s[0] == '+') {
            s.drop_first()
        } else {
            s
        }),
{
    if start == 1 {
        assert(rest =~= s.drop_first());
    } else {
        assert(rest =~= s);
    }
}

/// Parses `s` as a signed 32-bit decimal integer.
pub fn parse_i32(s: &str) -> (r: Option<i32>)
    ensures
        match r {
            Some(v) => parse_i32_spec(s@) == Some(v as int),
            None => parse_i32_spec(s@) is None,
        },
{
    let len = s.unicode_len();
    if len == 0 {
        return None;
    }
    let c0 = s.get_char(0);
    let neg = c0 == '-';
    let start: usize = if c0 == '-' || c0 == '+' {
        1
    } else {
        0
    };
    if start == len {
        return None;
    }
    let ghost rest = if start == 1 {
        s@.drop_first()
    } else {
        s@
    };
    proof {
        assert(rest =~= s@.subrange(start as int, len as int));
    }
    let mut acc: i64 = 0;
    let mut i = start;
    while i < len
        invariant
            start <= i <= len,
            start == 0 || start == 1,
            len == s@.len(),
            start == 1 ==> (s@[0] == '-' || s@[0] == '+'),
            start == 0 ==> !(s@[0] == '-' || s@[0] == '+'),
            neg == (s@[0] == '-'),
            rest == s@.subrange(start as int, len as int),
            rest.len() > 0,
            all_digits(rest.take(i - start)),
            acc == digits_val(rest.take(i - start)),
            0 <= acc <= 2147483648,
        decreases len - i,
    {
        let c = s.get_char(i);
        let code: u32 = c as u32;
        proof {
            assert(rest[i - start] == s@[i as int]);
        }
        if code < 48 || code > 57 {
            proof {
                assert(!is_digit(rest[i - start]));
                assert(!all_digits(rest));
                lemma_parse_rest(s@, rest, start as int);
            }
            return None;
        }
        let d: i64 = (code - 48) as i64;
        acc = acc * 10 + d;
        proof {
            assert(rest.take(i + 1 - start).drop_last() =~= rest.take(i - start));
            assert(rest.take(i + 1 - start).last() == rest[i - start]);
        }
        if acc > 2147483648 {
            proof {
                assert(digits_val(rest.take(i + 1 - start)) == acc);
                if all_digits(rest) {
                    lemma_digits_val_mono(rest, i + 1 - start, rest.len() as int);
                    assert(rest.take(rest.len() as int) =~= rest);
                    assert(digits_val(rest) > 2147483648);
                }
                lemma_parse_rest(s@, rest, start as int);
                let signed = s@.len() > 0 && (s@[0] == '-' || s@[0] == '+');
                let sr = if signed {
                    s@.drop_first()
                } else {
                    s@
                };
                assert(sr == rest);
                assert(sr.len() > 0);
                let sign: int = if s@.len() > 0 && s@[0] == '-' {
                    -1
                } else {
                    1
                };
                if all_digits(sr) {
                    assert(digits_val(sr) > 2147483648);
                    assert(sign * digits_val(sr) > 2147483647 || sign * digits_val(sr)
                        < -2147483648);
                }
                assert(parse_i32_spec(s@) is None);
            }
            return None;
        }
        i += 1;
    }
    proof {
        assert(rest.take(rest.len() as int) =~= rest);
        assert(all_digits(rest));
        assert(acc == digits_val(rest));
        lemma_parse_rest(s@, rest, start as int);
    }
    if neg {
        let v: i64 = -acc;
        proof {
            let sign: int = if s@.len() > 0 && s@[0] == '-' {
                -1
            } else {
                1
            };
            assert(sign == -1);
            assert(sign * digits_val(rest) == v as int);
            assert(parse_i32_spec(s@) == Some(v as int));
        }
        Some(v as i32)
    } else {
        if acc > 2147483647 {
            proof {
                let sign: int = if s@.len() > 0 && s@[0] == '-' {
                    -1
                } else {
                    1
                };
                assert(sign == 1);
                assert(sign * digits_val(rest) == 2147483648);
                assert(parse_i32_spec(s@) is None);
            }
            return None;
        }
        proof {
            let sign: int = if s@.len() > 0 && s@[0] == '-' {
                -1
            } else {
                1
            };
            assert(sign == 1);
            assert(sign * digits_val(rest) == acc as int);
            assert(parse_i32_spec(s@) == Some(acc as int));
        }
        Some(acc as i32)
    }
}

} // verus!
