//! Decimal text of signed integers: rendering, parsing, and the lemmas that
//! connect the two.
//!
//! `spec_nat_chars` and `spec_int_chars` give the canonical decimal text of a
//! number; `spec_digits_value` and `spec_int_value` read a digit sequence
//! back. `int_to_string` and `parse_i64_range` are the verified executable
//! counterparts.

use vstd::prelude::*;
use vstd::string::StrSliceExecFns;
use vstd::string::StringExecFns;

verus! {

/// The character of one decimal digit (0 through 9).
pub open spec fn digit_char(d: int) -> char {
    if d == 0 {
        '0'
    } else if d == 1 {
        '1'
    } else if d == 2 {
        '2'
    } else if d == 3 {
        '3'
    } else if d == 4 {
        '4'
    } else if d == 5 {
        '5'
    } else if d == 6 {
        '6'
    } else if d == 7 {
        '7'
    } else if d == 8 {
        '8'
    } else {
        '9'
    }
}

/// The numeric value of a decimal digit character, or -1 for any other
/// character.
pub open spec fn digit_value(c: char) -> int {
    if c == '0' {
        0
    } else if c == '1' {
        1
    } else if c == '2' {
        2
    } else if c == '3' {
        3
    } else if c == '4' {
        4
    } else if c == '5' {
        5
    } else if c == '6' {
        6
    } else if c == '7' {
        7
    } else if c == '8' {
        8
    } else if c == '9' {
        9
    } else {
        -1
    }
}

/// Whether `c` is a decimal digit character.
pub open spec fn is_digit(c: char) -> bool {
    digit_value(c) >= 0
}

/// The decimal digits of `n >= 0`, most significant first, no leading
/// zeros (zero itself is a single `'0'`).
pub open spec fn spec_nat_chars(n: int) -> Seq<char>
    decreases n,
{
    if n < 10 {
        seq![digit_char(n)]
    } else {
        spec_nat_chars(n / 10).push(digit_char(n % 10))
    }
}

/// The decimal text of a signed integer: a `'-'` before the digits of its
/// magnitude when negative.
pub open spec fn spec_int_chars(v: int) -> Seq<char> {
    if v < 0 {
        seq!['-'] + spec_nat_chars(-v)
    } else {
        spec_nat_chars(v)
    }
}

/// The value of a digit sequence read most significant first; 0 when empty.
pub open spec fn spec_digits_value(s: Seq<char>) -> int
    decreases s.len(),
{
    if s.len() == 0 {
        0
    } else {
        spec_digits_value(s.drop_last()) * 10 + digit_value(s.last())
    }
}

/// Every character of `s` is a decimal digit.
pub open spec fn all_digits(s: Seq<char>) -> bool {
    forall|i: int| 0 <= i < s.len() ==> is_digit(s[i])
}

/// `s` is the text of a signed integer: an optional `'-'` or `'+'`, then at
/// least one digit and nothing else.
pub open spec fn is_int_text(s: Seq<char>) -> bool {
    if s.len() >= 1 && (s[0] == '-' || s[0] == '+') {
        s.len() >= 2 && all_digits(s.subrange(1, s.len() as int))
    } else {
        s.len() >= 1 && all_digits(s)
    }
}

/// The signed value of an integer text.
pub open spec fn spec_int_value(s: Seq<char>) -> int {
    if s.len() >= 1 && s[0] == '-' {
        -spec_digits_value(s.subrange(1, s.len() as int))
    } else if s.len() >= 1 && s[0] == '+' {
        spec_digits_value(s.subrange(1, s.len() as int))
    } else {
        spec_digits_value(s)
    }
}

/// `s` is an integer text whose value fits in an `i64`.
pub open spec fn parses_to_i64(s: Seq<char>) -> bool {
    is_int_text(s) && i64::MIN <= spec_int_value(s) <= i64::MAX
}

/// A digit character carries the digit it was made from.
pub proof fn lemma_digit_char_value(d: int)
    requires
        0 <= d <= 9,
    ensures
        digit_value(digit_char(d)) == d,
        is_digit(digit_char(d)),
{
}

/// The digits of a nonnegative number are digit characters.
pub proof fn lemma_nat_chars_all_digits(n: int)
    requires
        n >= 0,
    ensures
        all_digits(spec_nat_chars(n)),
        spec_nat_chars(n).len() >= 1,
    decreases n,
{
    if n < 10 {
        lemma_digit_char_value(n);
    } else {
        lemma_nat_chars_all_digits(n / 10);
        lemma_digit_char_value(n % 10);
    }
}

/// Reading the digits of `n` back yields `n`.
pub proof fn lemma_nat_chars_value(n: int)
    requires
        n >= 0,
    ensures
        spec_digits_value(spec_nat_chars(n)) == n,
    decreases n,
{
    if n < 10 {
        lemma_digit_char_value(n);
        let s = spec_nat_chars(n);
        assert(s == seq![digit_char(n)]);
        assert(s.len() == 1);
        assert(s.drop_last() =~= Seq::<char>::empty());
        assert(s.last() == digit_char(n));
        assert(spec_digits_value(Seq::<char>::empty()) == 0);
        assert(spec_digits_value(s) == 0 * 10 + digit_value(digit_char(n)));
    } else {
        lemma_nat_chars_value(n / 10);
        lemma_digit_char_value(n % 10);
        vstd::arithmetic::div_mod::lemma_fundamental_div_mod(n, 10);
        vstd::arithmetic::div_mod::lemma_mod_bound(n, 10);
        let s = spec_nat_chars(n);
        assert(s == spec_nat_chars(n / 10).push(digit_char(n % 10)));
        assert(s.len() == spec_nat_chars(n / 10).len() + 1);
        assert(s.drop_last() =~= spec_nat_chars(n / 10));
        assert(s.last() == digit_char(n % 10));
        assert(spec_digits_value(s) == spec_digits_value(s.drop_last()) * 10 + digit_value(
            s.last(),
        ));
        assert(spec_digits_value(s) == (n / 10) * 10 + (n % 10));
    }
}

/// The value of an all-digit sequence is nonnegative.
pub proof fn lemma_digits_value_nonneg(s: Seq<char>)
    requires
        all_digits(s),
    ensures
        spec_digits_value(s) >= 0,
    decreases s.len(),
{
    if s.len() > 0 {
        assert(all_digits(s.drop_last()));
        lemma_digits_value_nonneg(s.drop_last());
    }
}

/// Extending an all-digit sequence never shrinks its value.
pub proof fn lemma_digits_prefix_le(s: Seq<char>, i: int, j: int)
    requires
        all_digits(s),
        0 <= i <= j <= s.len(),
    ensures
        spec_digits_value(s.subrange(0, i)) <= spec_digits_value(s.subrange(0, j)),
    decreases j - i,
{
    if i < j {
        lemma_digits_prefix_le(s, i, j - 1);
        let t = s.subrange(0, j);
        assert(t.drop_last() =~= s.subrange(0, j - 1));
        assert(all_digits(s.subrange(0, j - 1)));
        lemma_digits_value_nonneg(s.subrange(0, j - 1));
    }
}

/// A digit character is none of the punctuation used around a number.
pub proof fn lemma_digit_is_plain(c: char)
    requires
        is_digit(c),
    ensures
        c != '(' && c != ')' && c != ',' && c != ' ' && c != '-' && c != '+',
{
}

/// The text of `v` is a well-formed integer text, it reads back as `v`,
/// and it holds only digits and a possible leading `'-'`.
pub proof fn lemma_int_chars_text(v: int)
    ensures
        is_int_text(spec_int_chars(v)),
        spec_int_value(spec_int_chars(v)) == v,
        forall|i: int| 0 <= i < spec_int_chars(v).len() ==> (spec_int_chars(v)[i] == '-'
            || is_digit(#[trigger] spec_int_chars(v)[i])),
        spec_int_chars(v).len() >= 1,
{
    if v < 0 {
        lemma_nat_chars_all_digits(-v);
        lemma_nat_chars_value(-v);
        let s = spec_int_chars(v);
        let d = spec_nat_chars(-v);
        assert(s == seq!['-'] + d);
        assert(s[0] == '-');
        assert(s.subrange(1, s.len() as int) =~= d);
        assert(forall|i: int| 1 <= i < s.len() ==> s[i] == d[i - 1]);
        assert(is_digit(d[0]));
        lemma_digit_is_plain(d[0]);
        assert(spec_int_value(s) == -spec_digits_value(d));
    } else {
        lemma_nat_chars_all_digits(v);
        lemma_nat_chars_value(v);
        let s = spec_int_chars(v);
        assert(is_digit(s[0]));
        lemma_digit_is_plain(s[0]);
        assert(spec_int_value(s) == spec_digits_value(s));
    }
}

/// Appends one digit character to `s`.
fn append_digit(s: &mut String, d: u8)
    requires
        d < 10,
    ensures
        final(s)@ == old(s)@ + seq![digit_char(d as int)],
{
    if d == 0 {
        proof {
            reveal_strlit("0");
        }
        s.append("0");
    } else if d == 1 {
        proof {
            reveal_strlit("1");
        }
        s.append("1");
    } else if d == 2 {
        proof {
            reveal_strlit("2");
        }
        s.append("2");
    } else if d == 3 {
        proof {
            reveal_strlit("3");
        }
        s.append("3");
    } else if d == 4 {
        proof {
            reveal_strlit("4");
        }
        s.append("4");
    } else if d == 5 {
        proof {
            reveal_strlit("5");
        }
        s.append("5");
    } else if d == 6 {
        proof {
            reveal_strlit("6");
        }
        s.append("6");
    } else if d == 7 {
        proof {
            reveal_strlit("7");
        }
        s.append("7");
    } else if d == 8 {
        proof {
            reveal_strlit("8");
        }
        s.append("8");
    } else {
        proof {
            reveal_strlit("9");
        }
        s.append("9");
    }
    proof {
        assert(s@ =~= old(s)@ + seq![digit_char(d as int)]);
    }
}

/// The digit characters of `ds`, read from its end to its start.
spec fn rev_digit_chars(ds: Seq<u8>) -> Seq<char>
    decreases ds.len(),
{
    if ds.len() == 0 {
        Seq::empty()
    } else {
        seq![digit_char(ds.last() as int)] + rev_digit_chars(ds.drop_last())
    }
}

proof fn lemma_rev_digit_chars_len(ds: Seq<u8>)
    ensures
        rev_digit_chars(ds).len() == ds.len(),
    decreases ds.len(),
{
    if ds.len() > 0 {
        lemma_rev_digit_chars_len(ds.drop_last());
    }
}

proof fn lemma_rev_digit_chars_index(ds: Seq<u8>, k: int)
    requires
        0 <= k < ds.len(),
    ensures
        rev_digit_chars(ds).len() == ds.len(),
        rev_digit_chars(ds)[k] == digit_char(ds[ds.len() - 1 - k] as int),
    decreases ds.len(),
{
    lemma_rev_digit_chars_len(ds);
    if k > 0 {
        lemma_rev_digit_chars_index(ds.drop_last(), k - 1);
    }
}

/// Appends the decimal digits of `n`, most significant first.
fn append_nat(s: &mut String, n: u64)
    ensures
        final(s)@ == old(s)@ + spec_nat_chars(n as int),
{
    let mut digits: Vec<u8> = Vec::new();
    let mut m = n;
    loop
        invariant_except_break
            spec_nat_chars(n as int) == spec_nat_chars(m as int) + rev_digit_chars(digits@),
        invariant
            m <= n,
            forall|i: int| 0 <= i < digits@.len() ==> digits@[i] < 10,
        ensures
            spec_nat_chars(n as int) == rev_digit_chars(digits@),
            forall|i: int| 0 <= i < digits@.len() ==> digits@[i] < 10,
        decreases m,
    {
        let d = (m % 10) as u8;
        let m2 = m / 10;
        let ghost pre = digits@;
        digits.push(d);
        proof {
            assert(digits@.drop_last() =~= pre);
            assert(rev_digit_chars(digits@) == seq![digit_char(d as int)] + rev_digit_chars(pre));
            if m2 == 0 {
                assert(spec_nat_chars(m as int) =~= seq![digit_char(d as int)]);
                assert(spec_nat_chars(n as int) =~= rev_digit_chars(digits@));
            } else {
                assert(m >= 10);
                assert(spec_nat_chars(m as int) == spec_nat_chars(m as int / 10).push(
                    digit_char(m as int % 10),
                ));
                assert(spec_nat_chars(m as int) =~= spec_nat_chars(m2 as int) + seq![
                    digit_char(d as int),
                ]);
                assert(spec_nat_chars(n as int) =~= spec_nat_chars(m2 as int) + rev_digit_chars(
                    digits@,
                ));
            }
        }
        if m2 == 0 {
            break;
        }
        m = m2;
    }
    let ghost s0 = s@;
    let len = digits.len();
    let mut i = len;
    proof {
        lemma_rev_digit_chars_len(digits@);
        assert(rev_digit_chars(digits@).subrange(0, 0) =~= Seq::<char>::empty());
        assert(s@ =~= s0 + rev_digit_chars(digits@).subrange(0, 0));
    }
    while i > 0
        invariant
            i <= len,
            len == digits@.len(),
            forall|k: int| 0 <= k < digits@.len() ==> digits@[k] < 10,
            rev_digit_chars(digits@).len() == len,
            s@ == s0 + rev_digit_chars(digits@).subrange(0, len - i),
        decreases i,
    {
        i = i - 1;
        append_digit(s, digits[i]);
        proof {
            lemma_rev_digit_chars_index(digits@, len - 1 - i);
            assert(rev_digit_chars(digits@).subrange(0, len - i) =~= rev_digit_chars(
                digits@,
            ).subrange(0, len - i - 1).push(rev_digit_chars(digits@)[len - 1 - i]));
            assert(s@ =~= s0 + rev_digit_chars(digits@).subrange(0, len - i));
        }
    }
    proof {
        assert(rev_digit_chars(digits@).subrange(0, len as int) =~= rev_digit_chars(digits@));
    }
}

/// Renders `v` as signed decimal text.
pub fn int_to_string(v: i64) -> (s: String)
    ensures
        s@ == spec_int_chars(v as int),
{
    let mut s = String::new();
    if v < 0 {
        proof {
            reveal_strlit("-");
        }
        s.append("-");
        let a: u64 = ((-(v + 1)) as u64) + 1;
        append_nat(&mut s, a);
        proof {
            assert(s@ =~= spec_int_chars(v as int));
        }
    } else {
        append_nat(&mut s, v as u64);
    }
    s
}

/// Parses `s[from..to]` as a signed decimal `i64`; `None` when the range is
/// not an integer text or its value does not fit.
pub fn parse_i64_range(s: &String, from: usize, to: usize) -> (r: Option<i64>)
    requires
        from <= to <= s@.len(),
    ensures
        match r {
            Some(v) => parses_to_i64(s@.subrange(from as int, to as int)) && v as int
                == spec_int_value(s@.subrange(from as int, to as int)),
            None => !parses_to_i64(s@.subrange(from as int, to as int)),
        },
{
    let ghost t = s@.subrange(from as int, to as int);
    if to == from {
        return None;
    }
    let c0 = s.as_str().get_char(from);
    let neg: bool = c0 == '-';
    let signed: bool = c0 == '-' || c0 == '+';
    let dstart: usize = if signed {
        from + 1
    } else {
        from
    };
    if dstart == to {
        // a sign with no digits
        return None;
    }
    let ghost dg = s@.subrange(dstart as int, to as int);
    proof {
        assert(t[0] == s@[from as int]);
        assert(t.len() == to - from);
        if signed {
            assert(dg =~= t.subrange(1, t.len() as int));
        } else {
            assert(dg =~= t);
        }
    }
    let mut acc: u64 = 0;
    let mut idx = dstart;
    while idx < to
        invariant
            dstart <= idx <= to <= s@.len(),
            from <= dstart <= from + 1,
            t == s@.subrange(from as int, to as int),
            t.len() >= 1,
            signed == (t[0] == '-' || t[0] == '+'),
            neg == (t[0] == '-'),
            dstart == if signed { from + 1 } else { from as int },
            dstart < to,
            dg == s@.subrange(dstart as int, to as int),
            signed ==> dg == t.subrange(1, t.len() as int),
            !signed ==> dg == t,
            acc <= 0x8000000000000000u64,
            forall|j: int| dstart <= j < idx ==> is_digit(#[trigger] s@[j]),
            acc as int == spec_digits_value(s@.subrange(dstart as int, idx as int)),
        decreases to - idx,
    {
        let c = s.as_str().get_char(idx);
        let d: u64 = if c == '0' {
            0
        } else if c == '1' {
            1
        } else if c == '2' {
            2
        } else if c == '3' {
            3
        } else if c == '4' {
            4
        } else if c == '5' {
            5
        } else if c == '6' {
            6
        } else if c == '7' {
            7
        } else if c == '8' {
            8
        } else if c == '9' {
            9
        } else {
            // a non-digit: not an integer text
            proof {
                assert(dg[idx - dstart] == s@[idx as int]);
                assert(!is_digit(dg[idx - dstart]));
                assert(!is_int_text(t));
            }
            return None;
        };
        proof {
            assert(is_digit(s@[idx as int]) && digit_value(s@[idx as int]) == d);
            assert(s@.subrange(dstart as int, idx + 1).drop_last() =~= s@.subrange(
                dstart as int,
                idx as int,
            ));
        }
        let limit = (0x8000000000000000u64 - d) / 10;
        proof {
            vstd::arithmetic::div_mod::lemma_fundamental_div_mod(
                0x8000000000000000 - d as int,
                10,
            );
            vstd::arithmetic::div_mod::lemma_mod_bound(0x8000000000000000 - d as int, 10);
        }
        if acc > limit {
            // the digits read so far already exceed the i64 range
            proof {
                assert(acc * 10 + d > 0x8000000000000000);
                if is_int_text(t) {
                    assert(all_digits(dg));
                    lemma_digits_prefix_le(dg, idx + 1 - dstart, dg.len() as int);
                    assert(dg.subrange(0, idx + 1 - dstart) =~= s@.subrange(
                        dstart as int,
                        idx + 1,
                    ));
                    assert(dg.subrange(0, dg.len() as int) =~= dg);
                    assert(spec_digits_value(s@.subrange(dstart as int, idx + 1))
                        == acc * 10 + d);
                    assert(spec_digits_value(dg) >= acc * 10 + d);
                    if neg {
                        assert(spec_int_value(t) < i64::MIN);
                    } else {
                        lemma_digits_value_nonneg(dg);
                        assert(spec_int_value(t) > i64::MAX);
                    }
                }
            }
            return None;
        }
        proof {
            assert(acc * 10 + d <= 0x8000000000000000);
        }
        acc = acc * 10 + d;
        idx = idx + 1;
    }
    proof {
        assert(s@.subrange(dstart as int, to as int) =~= dg);
        assert(all_digits(dg));
        assert(is_int_text(t));
        assert(spec_digits_value(dg) == acc as int);
        if neg {
            assert(spec_int_value(t) == -(acc as int));
        } else {
            assert(spec_int_value(t) == acc as int);
        }
    }
    if neg {
        if acc == 0x8000000000000000u64 {
            Some(i64::MIN)
        } else {
            Some(-(acc as i64))
        }
    } else {
        if acc > 0x7FFFFFFFFFFFFFFFu64 {
            // too large for a positive i64
            return None;
        }
        Some(acc as i64)
    }
}

} // verus!
