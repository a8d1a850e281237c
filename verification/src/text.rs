//! Text helpers shared by the pages: decimal numbers as the pages print
//! them, and the payload of a `data:` URL as a file reader returns it.

use vstd::prelude::*;
use vstd::std_specs::iter::IteratorSpec;

verus! {

/// The character of a decimal digit.
pub open spec fn digit_char(d: int) -> char {
    (d + 48) as char
}

/// The decimal digits of `n`, most significant first, without leading zeros.
pub open spec fn decimal_digits(n: nat) -> Seq<char>
    decreases n,
{
    if n < 10 {
        seq![digit_char(n as int)]
    } else {
        decimal_digits(n / 10).push(digit_char((n % 10) as int))
    }
}

/// A signed integer in decimal, with a leading `-` when it is negative.
pub open spec fn signed_decimal(n: int) -> Seq<char> {
    if n < 0 {
        seq!['-'] + decimal_digits((-n) as nat)
    } else {
        decimal_digits(n as nat)
    }
}

/// The number that a string of decimal digits stands for.
pub open spec fn digits_value(s: Seq<char>) -> int
    decreases s.len(),
{
    if s.len() == 0 {
        0
    } else {
        10 * digits_value(s.drop_last()) + (s.last() as int - '0' as int)
    }
}

/// The decimal text of a number is made of the digits `0` to `9` only,
/// reads back as that number, and has no leading zero.
pub proof fn law_decimal_digits(n: nat)
    ensures
        decimal_digits(n).len() >= 1,
        forall|k: int| 0 <= k < decimal_digits(n).len() ==> '0' <= #[trigger] decimal_digits(n)[k] <= '9',
        digits_value(decimal_digits(n)) == n,
        decimal_digits(n).len() > 1 ==> decimal_digits(n)[0] != '0',
    decreases n,
{
    let d = decimal_digits(n);
    if n < 10 {
        assert(d.drop_last() =~= Seq::<char>::empty());
        assert(digits_value(d.drop_last()) == 0);
        assert(d.last() == digit_char(n as int));
        assert(digit_char(n as int) as int == n + 48);
        assert(digits_value(d) == 10 * digits_value(d.drop_last()) + (d.last() as int - '0' as int));
    } else {
        let q = n / 10;
        let r = (n % 10) as int;
        law_decimal_digits(q);
        let h = decimal_digits(q);
        assert(d == h.push(digit_char(r)));
        assert(d.drop_last() =~= h);
        assert(digit_char(r) as int == r + 48);
        assert(digits_value(d) == 10 * digits_value(h) + r);
        assert(10 * q + r == n);
        assert forall|k: int| 0 <= k < d.len() implies '0' <= #[trigger] d[k] <= '9' by {
            if k < h.len() {
                assert(d[k] == h[k]);
            }
        }
        assert(d[0] == h[0]);
        if h.len() == 1 {
            assert(q < 10) by {
                if q >= 10 {
                    assert(decimal_digits(q).len() == decimal_digits(q / 10).len() + 1);
                    law_decimal_digits(q / 10);
                }
            }
            assert(h[0] == digit_char(q as int));
            assert(digit_char(q as int) as int == q + 48);
        }
    }
}

/// A signed number in decimal: a `-` and the digits of its magnitude when it
/// is negative, its digits alone otherwise; either way it reads back as the
/// number.
pub proof fn law_signed_decimal(n: int)
    ensures
        n >= 0 ==> signed_decimal(n) == decimal_digits(n as nat) && digits_value(signed_decimal(n)) == n,
        n < 0 ==> signed_decimal(n)[0] == '-' && digits_value(signed_decimal(n).skip(1)) == -n,
        n < 0 ==> signed_decimal(n).len() >= 2,
{
    if n >= 0 {
        law_decimal_digits(n as nat);
    } else {
        law_decimal_digits((-n) as nat);
        assert(signed_decimal(n).skip(1) =~= decimal_digits((-n) as nat));
    }
}

fn append_digit(out: &mut String, d: u64)
    requires
        d < 10,
    ensures
        final(out)@ == old(out)@.push(digit_char(d as int)),
{
    match d {
        0 => {
            out.append("0");
            proof { reveal_strlit("0"); }
        },
        1 => {
            out.append("1");
            proof { reveal_strlit("1"); }
        },
        2 => {
            out.append("2");
            proof { reveal_strlit("2"); }
        },
        3 => {
            out.append("3");
            proof { reveal_strlit("3"); }
        },
        4 => {
            out.append("4");
            proof { reveal_strlit("4"); }
        },
        5 => {
            out.append("5");
            proof { reveal_strlit("5"); }
        },
        6 => {
            out.append("6");
            proof { reveal_strlit("6"); }
        },
        7 => {
            out.append("7");
            proof { reveal_strlit("7"); }
        },
        8 => {
            out.append("8");
            proof { reveal_strlit("8"); }
        },
        _ => {
            out.append("9");
            proof { reveal_strlit("9"); }
        },
    }
    assert(final(out)@ =~= old(out)@.push(digit_char(d as int)));
}

/// Appends the decimal digits of `n` to `out`.
pub fn append_decimal(out: &mut String, n: u64)
    ensures
        final(out)@ == old(out)@ + decimal_digits(n as nat),
    decreases n,
{
    if n >= 10 {
        append_decimal(out, n / 10);
        append_digit(out, n % 10);
        assert(final(out)@ =~= old(out)@ + decimal_digits(n as nat));
    } else {
        append_digit(out, n);
        assert(final(out)@ =~= old(out)@ + decimal_digits(n as nat));
    }
}

/// An unsigned number in decimal.
pub fn decimal_text(n: u64) -> (s: String)
    ensures
        s@ == decimal_digits(n as nat),
{
    let mut s = String::new();
    append_decimal(&mut s, n);
    assert(s@ =~= decimal_digits(n as nat));
    s
}

/// A signed number in decimal.
pub fn signed_decimal_text(n: i64) -> (s: String)
    ensures
        s@ == signed_decimal(n as int),
{
    let mut s = String::new();
    if n < 0 {
        s.append("-");
        proof { reveal_strlit("-"); }
        let m: u64 = (0i128 - (n as i128)) as u64;
        append_decimal(&mut s, m);
        assert(s@ =~= signed_decimal(n as int));
    } else {
        append_decimal(&mut s, n as u64);
        assert(s@ =~= signed_decimal(n as int));
    }
    s
}

/// The index of the first comma of `s` at or after `from`, or the length of
/// `s` when there is none.
pub open spec fn next_comma(s: Seq<char>, from: int) -> int
    decreases s.len() - from,
{
    if from < 0 || from >= s.len() {
        s.len() as int
    } else if s[from] == ',' {
        from
    } else {
        next_comma(s, from + 1)
    }
}

/// The second comma-separated field of `s` (what `s.split(',').nth(1)`
/// gives): the text between the first comma and the next one, or the end.
/// For a `data:` URL this is the encoded payload.
pub open spec fn second_field(s: Seq<char>) -> Option<Seq<char>> {
    let i = next_comma(s, 0);
    if i >= s.len() {
        None
    } else {
        Some(s.subrange(i + 1, next_comma(s, i + 1)))
    }
}

proof fn lemma_next_comma_bounds(s: Seq<char>, from: int)
    requires
        0 <= from <= s.len(),
    ensures
        from <= next_comma(s, from) <= s.len(),
        next_comma(s, from) < s.len() ==> s[next_comma(s, from)] == ',',
    decreases s.len() - from,
{
    if from < s.len() && s[from] != ',' {
        lemma_next_comma_bounds(s, from + 1);
    }
}

proof fn lemma_next_comma_skips(s: Seq<char>, from: int)
    requires
        0 <= from <= s.len(),
    ensures
        from <= next_comma(s, from) <= s.len(),
        next_comma(s, from) < s.len() ==> s[next_comma(s, from)] == ',',
        forall|k: int| #![trigger s[k]] from <= k < next_comma(s, from) ==> s[k] != ',',
    decreases s.len() - from,
{
    if from < s.len() && s[from] != ',' {
        lemma_next_comma_skips(s, from + 1);
    }
}

/// The payload, said over the characters: there is none when the text has
/// no comma; otherwise it is exactly the text after the first comma, up to
/// (not including) the next comma or the end.
pub proof fn law_second_field(s: Seq<char>)
    ensures
        (forall|k: int| #![trigger s[k]] 0 <= k < s.len() ==> s[k] != ',') ==> second_field(s) is None,
        forall|i: int| #![trigger s[i]] 0 <= i < s.len() && s[i] == ',' && (forall|k: int| #![trigger s[k]] 0 <= k < i ==> s[k] != ',')
            ==> (second_field(s) matches Some(p) && {
                &&& i + 1 + p.len() <= s.len()
                &&& p == s.subrange(i + 1, i + 1 + p.len())
                &&& forall|k: int| #![trigger p[k]] 0 <= k < p.len() ==> p[k] != ','
                &&& (i + 1 + p.len() == s.len() || s[i + 1 + p.len()] == ',')
            }),
{
    lemma_next_comma_skips(s, 0);
    let i = next_comma(s, 0);
    if i < s.len() {
        lemma_next_comma_skips(s, i + 1);
        let p = s.subrange(i + 1, next_comma(s, i + 1));
        assert forall|k: int| #![trigger p[k]] 0 <= k < p.len() implies p[k] != ',' by {
            assert(p[k] == s[i + 1 + k]);
        }
        assert(p =~= s.subrange(i + 1, i + 1 + p.len()));
    }
    assert forall|j: int| #![trigger s[j]] 0 <= j < s.len() && s[j] == ',' && (forall|k: int| #![trigger s[k]] 0 <= k < j ==> s[k] != ',')
        implies j == next_comma(s, 0) by {
        if j < next_comma(s, 0) {
        } else if j > next_comma(s, 0) {
            assert(s[next_comma(s, 0)] == ',');
        }
    }
}

/// The payload of a `data:` URL such as `data:text/plain;base64,SGk=`: the
/// text after its first comma, up to a further comma if there is one.
pub fn data_url_payload(data_url: &str) -> (payload: Option<String>)
    ensures
        match payload {
            Some(p) => second_field(data_url@) == Some(p@),
            None => second_field(data_url@) is None,
        },
        (forall|k: int| #![trigger data_url@[k]] 0 <= k < data_url@.len() ==> data_url@[k] != ',') ==> (match payload { Some(q) => Some(q@), None => None::<Seq<char>> }) is None,
        forall|i: int| #![trigger data_url@[i]] 0 <= i < data_url@.len() && data_url@[i] == ',' && (forall|k: int| #![trigger data_url@[k]] 0 <= k < i ==> data_url@[k] != ',')
            ==> ((match payload { Some(q) => Some(q@), None => None::<Seq<char>> }) matches Some(p) && {
                &&& i + 1 + p.len() <= data_url@.len()
                &&& p == data_url@.subrange(i + 1, i + 1 + p.len())
                &&& forall|k: int| #![trigger p[k]] 0 <= k < p.len() ==> p[k] != ','
                &&& (i + 1 + p.len() == data_url@.len() || data_url@[i + 1 + p.len()] == ',')
            }),
{
    broadcast use vstd::string::group_string_axioms;
    proof {
        law_second_field(data_url@);
    }
    let ghost s = data_url@;
    let len: usize = data_url.unicode_len();
    let mut it = data_url.chars();
    let mut idx: usize = 0;
    let mut first: Option<usize> = None;
    proof {
        assert(s.skip(0) =~= s);
    }
    while idx < len
        invariant
            s == data_url@,
            len == s.len(),
            idx <= len,
            it.remaining() == s.skip(idx as int),
            it.obeys_prophetic_iter_laws(),
            match first {
                None => next_comma(s, 0) == next_comma(s, idx as int),
                Some(i) => i < idx && i == next_comma(s, 0) && next_comma(s, i + 1) == next_comma(s, idx as int),
            },
        decreases len - idx,
    {
        let c = match it.next() {
            Some(c) => c,
            None => {
                proof {
                    assert(false);
                }
                return None;
            },
        };
        proof {
            assert(s.skip(idx as int)[0] == s[idx as int]);
            assert(s.skip(idx as int).drop_first() =~= s.skip(idx + 1));
            assert(c == s[idx as int]);
            if c != ',' {
                assert(next_comma(s, idx as int) == next_comma(s, idx + 1));
            } else {
                assert(next_comma(s, idx as int) == idx);
            }
        }
        if c == ',' {
            match first {
                None => {
                    first = Some(idx);
                },
                Some(i) => {
                    let p = data_url.substring_char(i + 1, idx);
                    proof {
                        law_second_field(data_url@);
                    }
                    return Some(String::from_str(p));
                },
            }
        }
        idx = idx + 1;
    }
    match first {
        None => None,
        Some(i) => {
            proof {
                lemma_next_comma_bounds(s, i + 1);
            }
            let p = data_url.substring_char(i + 1, len);
            Some(String::from_str(p))
        },
    }
}

} // verus!
