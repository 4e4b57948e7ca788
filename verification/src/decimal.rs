//! Decimal rendering and parsing of integers.
//!
//! Precision-sensitive 64-bit integers travel as decimal strings on the wire,
//! and the statement compiler renders LIMIT counts and the envelope layer
//! renders payload lengths in decimal.

use vstd::prelude::*;

verus! {

/// The character for one decimal digit.
pub open spec fn dec_digit(d: nat) -> char
    recommends
        d < 10,
{
    if d == 0 {
        '0'
    } else if d == 1 {
        '1'
    } else if d == 2 {
        '2'
    } else if d == 3 {
        '3'
    } else if d == 4 {
        '4'
    } else if d == 5 {
        '5'
    } else if d == 6 {
        '6'
    } else if d == 7 {
        '7'
    } else if d == 8 {
        '8'
    } else {
        '9'
    }
}

/// Decimal rendering of a natural number, most significant digit first,
/// without leading zeroes (`0` renders as "0").
pub open spec fn spec_udec(n: nat) -> Seq<char>
    decreases n,
{
    if n < 10 {
        seq![dec_digit(n)]
    } else {
        spec_udec(n / 10) + seq![dec_digit(n % 10)]
    }
}

/// Decimal rendering of an integer: a minus sign before the magnitude when
/// negative.
pub open spec fn spec_idec(i: int) -> Seq<char> {
    if i >= 0 {
        spec_udec(i as nat)
    } else {
        seq!['-'] + spec_udec((-i) as nat)
    }
}

/// The one-character string for a decimal digit.
pub(crate) fn digit_str(d: u64) -> (r: &'static str)
    requires
        d < 10,
    ensures
        r@ == seq![dec_digit(d as nat)],
{
    proof {
        reveal_strlit("0");
        reveal_strlit("1");
        reveal_strlit("2");
        reveal_strlit("3");
        reveal_strlit("4");
        reveal_strlit("5");
        reveal_strlit("6");
        reveal_strlit("7");
        reveal_strlit("8");
        reveal_strlit("9");
    }
    let r = match d {
        0 => "0",
        1 => "1",
        2 => "2",
        3 => "3",
        4 => "4",
        5 => "5",
        6 => "6",
        7 => "7",
        8 => "8",
        _ => "9",
    };
    proof {
        assert(r@ =~= seq![dec_digit(d as nat)]);
    }
    r
}

/// Renders an unsigned 64-bit integer in decimal.
pub fn u64_to_dec(n: u64) -> (r: String)
    ensures
        r@ == spec_udec(n as nat),
    decreases n,
{
    if n < 10 {
        digit_str(n).to_owned()
    } else {
        let mut r = u64_to_dec(n / 10);
        r.append(digit_str(n % 10));
        proof {
            assert(r@ =~= spec_udec(n as nat));
        }
        r
    }
}

/// Renders a usize in decimal.
pub fn usize_to_dec(n: usize) -> (r: String)
    ensures
        r@ == spec_udec(n as nat),
{
    u64_to_dec(n as u64)
}

/// Renders a signed 64-bit integer in decimal.
pub fn i64_to_dec(i: i64) -> (r: String)
    ensures
        r@ == spec_idec(i as int),
{
    if i >= 0 {
        u64_to_dec(i as u64)
    } else {
        let mag: u64 = (-(i as i128)) as u64;
        proof {
            reveal_strlit("-");
        }
        let mut r = "-".to_owned();
        r.append(u64_to_dec(mag).as_str());
        proof {
            assert(r@ =~= spec_idec(i as int));
        }
        r
    }
}

/// Whether a character is a decimal digit.
pub open spec fn is_digit(c: char) -> bool {
    48 <= c as u32 <= 57
}

/// The value of one decimal digit character.
pub open spec fn digit_val(c: char) -> nat
    recommends
        is_digit(c),
{
    (c as u32 - 48) as nat
}

/// Whether a character sequence is one or more decimal digits.
pub open spec fn is_dec_seq(s: Seq<char>) -> bool {
    s.len() > 0 && forall|i: int| 0 <= i < s.len() ==> is_digit(#[trigger] s[i])
}

/// The value of a digit sequence, most significant digit first.
pub open spec fn dec_seq_val(s: Seq<char>) -> nat
    decreases s,
{
    if s.len() == 0 {
        0
    } else {
        dec_seq_val(s.drop_last()) * 10 + digit_val(s.last())
    }
}

/// A digit sequence is worth at least any of its prefixes.
proof fn lemma_dec_prefix(s: Seq<char>, j: int)
    requires
        0 <= j <= s.len(),
    ensures
        dec_seq_val(s.take(j)) <= dec_seq_val(s),
    decreases s.len() - j,
{
    if j < s.len() {
        lemma_dec_prefix(s, j + 1);
        assert(s.take(j + 1).drop_last() =~= s.take(j));
        assert(dec_seq_val(s.take(j + 1)) == dec_seq_val(s.take(j)) * 10 + digit_val(
            s.take(j + 1).last(),
        ));
    } else {
        assert(s.take(j) =~= s);
    }
}

/// What a decimal string denotes as a 64-bit signed integer: an optional
/// leading minus, then one or more digits, denoting a value in range;
/// anything else is `None`.
pub open spec fn spec_parse_i64(s: Seq<char>) -> Option<i64> {
    let neg = s.len() > 0 && s[0] == '-';
    let ds = if neg {
        s.subrange(1, s.len() as int)
    } else {
        s
    };
    if !is_dec_seq(ds) {
        None
    } else if neg {
        if dec_seq_val(ds) <= 0x8000000000000000 {
            Some((-(dec_seq_val(ds) as int)) as i64)
        } else {
            None
        }
    } else {
        if dec_seq_val(ds) <= 0x7fffffffffffffff {
            Some(dec_seq_val(ds) as i64)
        } else {
            None
        }
    }
}

/// Parses a decimal string as a 64-bit signed integer, exactly as
/// [`spec_parse_i64`] reads it.
#[verifier::loop_isolation(false)]
pub fn parse_i64_dec(s: &str) -> (r: Option<i64>)
    ensures
        r == spec_parse_i64(s@),
{
    let n = s.unicode_len();
    if n == 0 {
        return None;
    }
    let first = s.get_char(0);
    let neg = first == '-';
    let start: usize = if neg {
        1
    } else {
        0
    };
    let ghost ds = if neg {
        s@.subrange(1, s@.len() as int)
    } else {
        s@
    };
    if start >= n {
        proof {
            assert(ds.len() == 0);
        }
        return None;
    }
    let limit: u128 = if neg {
        0x8000000000000000
    } else {
        0x7fffffffffffffff
    };
    let mut acc: u64 = 0;
    let mut i: usize = start;
    while i < n
        invariant
            start <= i <= n,
            acc as nat == dec_seq_val(s@.subrange(start as int, i as int)),
            acc as nat <= limit as nat,
            forall|j: int| start <= j < i ==> is_digit(#[trigger] s@[j]),
        decreases n - i,
    {
        let c = s.get_char(i);
        let cv = c as u32;
        if cv < 48 || cv > 57 {
            proof {
                assert(ds[i - start] == s@[i as int]);
                assert(!is_digit(ds[i - start]));
            }
            return None;
        }
        let d: u64 = (cv - 48) as u64;
        let wide: u128 = acc as u128 * 10 + d as u128;
        proof {
            let pre = s@.subrange(start as int, i as int);
            let ext = s@.subrange(start as int, i + 1);
            assert(ext.drop_last() =~= pre);
            assert(ext.last() == s@[i as int]);
            assert(dec_seq_val(ext) == dec_seq_val(pre) * 10 + digit_val(s@[i as int]));
        }
        if wide > limit {
            proof {
                let ext = s@.subrange(start as int, i + 1);
                if is_dec_seq(ds) {
                    assert(ext =~= ds.take(i + 1 - start));
                    lemma_dec_prefix(ds, i + 1 - start);
                    assert(dec_seq_val(ds) >= wide as nat);
                }
            }
            return None;
        }
        acc = wide as u64;
        i = i + 1;
    }
    proof {
        assert(s@.subrange(start as int, n as int) =~= ds);
        assert(is_dec_seq(ds));
    }
    if neg {
        if acc == 0x8000000000000000 {
            Some(i64::MIN)
        } else {
            Some(-(acc as i64))
        }
    } else {
        Some(acc as i64)
    }
}

} // verus!
