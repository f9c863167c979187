//! Decimal numbers as text: rendering a count for display and parsing a
//! 1-based index typed by the user.

use vstd::prelude::*;

verus! {

/// The character for the decimal digit `d`.
pub open spec fn digit_char(d: int) -> char {
    if d == 0 {
        '0'
    } else if d == 1 {
        '1'
    } else if d == 2 {
        '2'
    } else if d == 3 {
        '3'
    } else if d == 4 {
        '4'
    } else if d == 5 {
        '5'
    } else if d == 6 {
        '6'
    } else if d == 7 {
        '7'
    } else if d == 8 {
        '8'
    } else {
        '9'
    }
}

/// The decimal rendering of `n`, most significant digit first, without
/// leading zeros (except for `0` itself).
pub open spec fn spec_decimal(n: nat) -> Seq<char>
    decreases n,
{
    if n < 10 {
        seq![digit_char(n as int)]
    } else {
        spec_decimal(n / 10) + seq![digit_char((n % 10) as int)]
    }
}

/// The digit characters of `ds`, last digit first: the digits come out of
/// repeated division in reverse order.
pub open spec fn spec_digits_reversed(ds: Seq<usize>) -> Seq<char> {
    Seq::new(ds.len(), |i: int| digit_char(ds[ds.len() - 1 - i] as int))
}

pub fn digit_str(d: usize) -> (s: &'static str)
    requires
        d < 10,
    ensures
        s@ == seq![digit_char(d as int)],
{
    proof {
        reveal_strlit("0");
        reveal_strlit("1");
        reveal_strlit("2");
        reveal_strlit("3");
        reveal_strlit("4");
        reveal_strlit("5");
        reveal_strlit("6");
        reveal_strlit("7");
        reveal_strlit("8");
        reveal_strlit("9");
    }
    let r = match d {
        0 => "0",
        1 => "1",
        2 => "2",
        3 => "3",
        4 => "4",
        5 => "5",
        6 => "6",
        7 => "7",
        8 => "8",
        _ => "9",
    };
    proof {
        assert(r@ =~= seq![digit_char(d as int)]);
    }
    r
}

/// Render `n` in decimal.
pub fn usize_to_string(n: usize) -> (s: String)
    ensures
        s@ == spec_decimal(n as nat),
{
    let mut ds: Vec<usize> = Vec::new();
    let mut m = n;
    loop
        invariant_except_break
            spec_decimal(n as nat) == spec_decimal(m as nat) + spec_digits_reversed(ds@),
        invariant
            forall|k: int| 0 <= k < ds@.len() ==> ds@[k] < 10,
        ensures
            spec_decimal(n as nat) == spec_digits_reversed(ds@),
            forall|k: int| 0 <= k < ds@.len() ==> ds@[k] < 10,
        decreases m,
    {
        let d = m % 10;
        let m2 = m / 10;
        proof {
            let old_ds = ds@;
            assert(spec_digits_reversed(old_ds.push(d)) =~= seq![digit_char(d as int)]
                + spec_digits_reversed(old_ds));
            if m2 == 0 {
                assert(spec_decimal(m as nat) == seq![digit_char(d as int)]);
                assert(spec_decimal(n as nat) =~= spec_decimal(m as nat)
                    + spec_digits_reversed(old_ds));
                assert(spec_decimal(n as nat) =~= spec_digits_reversed(old_ds.push(d)));
            } else {
                assert(m >= 10);
                assert(spec_decimal(m as nat) == spec_decimal(m2 as nat) + seq![
                    digit_char(d as int),
                ]);
                assert(spec_decimal(m2 as nat) + spec_digits_reversed(old_ds.push(d))
                    =~= spec_decimal(m as nat) + spec_digits_reversed(old_ds));
            }
        }
        ds.push(d);
        if m2 == 0 {
            break;
        }
        m = m2;
    }
    let len = ds.len();
    let mut s = String::new();
    let mut j = len;
    while j > 0
        invariant
            j <= len,
            len == ds@.len(),
            forall|k: int| 0 <= k < ds@.len() ==> ds@[k] < 10,
            s@ == spec_digits_reversed(ds@).take(len - j),
        decreases j,
    {
        let piece = digit_str(ds[j - 1]);
        s.append(piece);
        proof {
            assert(s@ =~= spec_digits_reversed(ds@).take(len - (j - 1)));
        }
        j = j - 1;
    }
    proof {
        assert(spec_digits_reversed(ds@).take(len as int) =~= spec_digits_reversed(ds@));
    }
    s
}

/// Whether `c` is a decimal digit.
pub open spec fn spec_is_digit(c: char) -> bool {
    ||| c == '0'
    ||| c == '1'
    ||| c == '2'
    ||| c == '3'
    ||| c == '4'
    ||| c == '5'
    ||| c == '6'
    ||| c == '7'
    ||| c == '8'
    ||| c == '9'
}

/// The value of the digit character `c`.
pub open spec fn spec_digit_val(c: char) -> int {
    if c == '0' {
        0
    } else if c == '1' {
        1
    } else if c == '2' {
        2
    } else if c == '3' {
        3
    } else if c == '4' {
        4
    } else if c == '5' {
        5
    } else if c == '6' {
        6
    } else if c == '7' {
        7
    } else if c == '8' {
        8
    } else {
        9
    }
}

/// The value of a sequence of digit characters read in decimal.
pub open spec fn spec_digits_val(s: Seq<char>) -> int
    decreases s.len(),
{
    if s.len() == 0 {
        0
    } else {
        spec_digits_val(s.drop_last()) * 10 + spec_digit_val(s.last())
    }
}

/// What a run of digit characters parses to: its value, when every character
/// is a digit, there is at least one, and the value fits in `usize`.
pub open spec fn spec_parse_digits(body: Seq<char>) -> Option<int> {
    if body.len() > 0 && (forall|k: int| 0 <= k < body.len() ==> spec_is_digit(body[k]))
        && spec_digits_val(body) <= usize::MAX {
        Some(spec_digits_val(body))
    } else {
        None
    }
}

/// What parsing an unsigned decimal number accepts, exactly as the standard
/// parser for `usize` does: an optional leading `+`, then one or more digits,
/// rejected when the value does not fit.
pub open spec fn spec_parse_usize(s: Seq<char>) -> Option<int> {
    spec_parse_digits(
        if s.len() > 0 && s[0] == '+' {
            s.drop_first()
        } else {
            s
        },
    )
}

proof fn lemma_digits_val_nonneg(s: Seq<char>)
    ensures
        spec_digits_val(s) >= 0,
    decreases s.len(),
{
    if s.len() > 0 {
        lemma_digits_val_nonneg(s.drop_last());
    }
}

/// Every prefix of a digit string reads as a value no larger than the whole.
proof fn lemma_digits_val_prefix(s: Seq<char>, j: int)
    requires
        0 <= j <= s.len(),
    ensures
        spec_digits_val(s.take(j)) <= spec_digits_val(s),
    decreases s.len() - j,
{
    if j == s.len() {
        assert(s.take(j) =~= s);
    } else {
        lemma_digits_val_prefix(s, j + 1);
        let t = s.take(j + 1);
        assert(t.drop_last() =~= s.take(j));
        lemma_digits_val_nonneg(s.take(j));
        assert(spec_digits_val(t) == spec_digits_val(s.take(j)) * 10 + spec_digit_val(t.last()));
        assert(spec_digits_val(s.take(j)) * 10 >= spec_digits_val(s.take(j)));
        assert(spec_digit_val(t.last()) >= 0);
    }
}

fn digit_of(c: char) -> (r: Option<usize>)
    ensures
        match r {
            Some(d) => spec_is_digit(c) && d == spec_digit_val(c) && d < 10,
            None => !spec_is_digit(c),
        },
{
    match c {
        '0' => Some(0),
        '1' => Some(1),
        '2' => Some(2),
        '3' => Some(3),
        '4' => Some(4),
        '5' => Some(5),
        '6' => Some(6),
        '7' => Some(7),
        '8' => Some(8),
        '9' => Some(9),
        _ => None,
    }
}

/// Parse an unsigned decimal number, as the standard parser for `usize`
/// would: an optional leading `+`, then one or more digits; `None` on
/// anything else or on a value too large for `usize`.
pub fn parse_usize(s: &str) -> (r: Option<usize>)
    ensures
        match r {
            Some(v) => spec_parse_usize(s@) == Some(v as int),
            None => spec_parse_usize(s@) is None,
        },
{
    let n = s.unicode_len();
    let start: usize = if n > 0 && s.get_char(0) == '+' {
        1
    } else {
        0
    };
    let ghost body = if s@.len() > 0 && s@[0] == '+' {
        s@.drop_first()
    } else {
        s@
    };
    proof {
        assert(body =~= s@.subrange(start as int, n as int));
    }
    if start >= n {
        return None;
    }
    let mut acc: usize = 0;
    let mut i = start;
    while i < n
        invariant
            start <= 1,
            start <= i <= n,
            n == s@.len(),
            start == 1 ==> n > 0 && s@[0] == '+',
            start == 0 ==> !(n > 0 && s@[0] == '+'),
            body == s@.subrange(start as int, n as int),
            forall|k: int| start <= k < i ==> spec_is_digit(s@[k]),
            acc == spec_digits_val(s@.subrange(start as int, i as int)),
        decreases n - i,
    {
        let c = s.get_char(i);
        let ghost pre = s@.subrange(start as int, i as int);
        let ghost cur = s@.subrange(start as int, i + 1);
        proof {
            assert(cur.drop_last() =~= pre);
            assert(cur.last() == s@[i as int]);
        }
        match digit_of(c) {
            None => {
                proof {
                    assert(body[i - start] == s@[i as int]);
                    assert(!spec_is_digit(body[i - start]));
                    assert(spec_parse_usize(s@) == spec_parse_digits(body));
                    assert(spec_parse_digits(body) is None);
                }
                return None;
            },
            Some(d) => {
                let shifted = match acc.checked_mul(10) {
                    Some(v) => v,
                    None => {
                        proof {
                            assert(body.take(i + 1 - start) =~= cur);
                            lemma_digits_val_prefix(body, i + 1 - start);
                            assert(spec_digit_val(cur.last()) >= 0);
                            assert(spec_digits_val(cur) == acc * 10 + spec_digit_val(cur.last()));
                            assert(spec_digits_val(cur) > usize::MAX);
                            assert(spec_digits_val(body) > usize::MAX);
                            if start == 1 {
                                assert(body =~= s@.drop_first());
                            } else {
                                assert(body =~= s@);
                            }
                            assert(spec_parse_usize(s@) == spec_parse_digits(body));
                            assert(spec_parse_digits(body) is None);
                        }
                        return None;
                    },
                };
                let next = match shifted.checked_add(d) {
                    Some(v) => v,
                    None => {
                        proof {
                            assert(body.take(i + 1 - start) =~= cur);
                            lemma_digits_val_prefix(body, i + 1 - start);
                            assert(spec_digits_val(cur) == acc * 10 + spec_digit_val(cur.last()));
                            assert(spec_digits_val(cur) > usize::MAX);
                            assert(spec_digits_val(body) > usize::MAX);
                            if start == 1 {
                                assert(body =~= s@.drop_first());
                            } else {
                                assert(body =~= s@);
                            }
                            assert(spec_parse_usize(s@) == spec_parse_digits(body));
                            assert(spec_parse_digits(body) is None);
                        }
                        return None;
                    },
                };
                acc = next;
            },
        }
        i = i + 1;
    }
    proof {
        assert(s@.subrange(start as int, n as int) =~= body);
        assert(forall|k: int| 0 <= k < body.len() ==> spec_is_digit(body[k]));
    }
    Some(acc)
}

} // verus!
