//! Character-level text building.
//!
//! Every derived name, address and document in this crate is assembled as a
//! `Vec<char>` whose view is pinned exactly, and only turned into a `String`
//! at the very end.

use vstd::prelude::*;

verus! {

/// The decimal digit character for `n` (0 through 9).
pub open spec fn dig(n: int) -> char {
    if n == 0 {
        '0'
    } else if n == 1 {
        '1'
    } else if n == 2 {
        '2'
    } else if n == 3 {
        '3'
    } else if n == 4 {
        '4'
    } else if n == 5 {
        '5'
    } else if n == 6 {
        '6'
    } else if n == 7 {
        '7'
    } else if n == 8 {
        '8'
    } else {
        '9'
    }
}

/// The lower-case hexadecimal digit character for `n` (0 through 15).
pub open spec fn hexdig(n: int) -> char {
    if n < 10 {
        dig(n)
    } else if n == 10 {
        'a'
    } else if n == 11 {
        'b'
    } else if n == 12 {
        'c'
    } else if n == 13 {
        'd'
    } else if n == 14 {
        'e'
    } else {
        'f'
    }
}

/// The decimal digit string of `n`, most significant digit first.
pub open spec fn dec_digits(n: nat) -> Seq<char>
    decreases n,
{
    if n < 10 {
        seq![dig(n as int)]
    } else {
        dec_digits(n / 10).push(dig((n % 10) as int))
    }
}

/// The decimal string of a possibly negative integer.
pub open spec fn int_digits(n: int) -> Seq<char> {
    if n < 0 {
        seq!['-'] + dec_digits((-n) as nat)
    } else {
        dec_digits(n as nat)
    }
}

/// `s` read back to front.
pub open spec fn rev_chars(s: Seq<char>) -> Seq<char> {
    Seq::new(s.len(), |i: int| s[s.len() - 1 - i])
}

/// The decimal digit character for `d`.
pub fn dig_char(d: u64) -> (c: char)
    requires
        d < 10,
    ensures
        c == dig(d as int),
{
    match d {
        0 => '0',
        1 => '1',
        2 => '2',
        3 => '3',
        4 => '4',
        5 => '5',
        6 => '6',
        7 => '7',
        8 => '8',
        _ => '9',
    }
}

/// The lower-case hexadecimal digit character for `d`.
pub fn hex_char(d: u32) -> (c: char)
    requires
        d < 16,
    ensures
        c == hexdig(d as int),
{
    match d {
        0 => '0',
        1 => '1',
        2 => '2',
        3 => '3',
        4 => '4',
        5 => '5',
        6 => '6',
        7 => '7',
        8 => '8',
        9 => '9',
        10 => 'a',
        11 => 'b',
        12 => 'c',
        13 => 'd',
        14 => 'e',
        _ => 'f',
    }
}

/// Appends the decimal digits of `n` to `out`.
pub fn push_dec(out: &mut Vec<char>, n: u64)
    ensures
        final(out)@ == old(out)@ + dec_digits(n as nat),
{
    let mut tmp: Vec<char> = Vec::new();
    let mut m: u64 = n;
    while m >= 10
        invariant
            dec_digits(n as nat) == dec_digits(m as nat) + rev_chars(tmp@),
        decreases m,
    {
        let d = dig_char(m % 10);
        proof {
            assert(dec_digits(m as nat) == dec_digits((m as nat) / 10).push(dig((m % 10) as int)));
            assert(rev_chars(tmp@.push(d)) =~= seq![d] + rev_chars(tmp@));
            assert(dec_digits((m / 10) as nat) + rev_chars(tmp@.push(d)) =~= dec_digits(m as nat)
                + rev_chars(tmp@));
        }
        tmp.push(d);
        m = m / 10;
    }
    let d = dig_char(m);
    proof {
        assert(dec_digits(m as nat) == seq![dig(m as int)]);
        assert(seq![d] + rev_chars(tmp@) =~= dec_digits(m as nat) + rev_chars(tmp@));
    }
    out.push(d);
    let ghost base = out@;
    let mut k: usize = 0;
    while k < tmp.len()
        invariant
            k <= tmp.len(),
            base == old(out)@ + seq![d],
            dec_digits(n as nat) == seq![d] + rev_chars(tmp@),
            out@ == base + rev_chars(tmp@).take(k as int),
        decreases tmp.len() - k,
    {
        let c = tmp[tmp.len() - 1 - k];
        proof {
            assert(rev_chars(tmp@)[k as int] == tmp@[tmp@.len() - 1 - k]);
            assert(rev_chars(tmp@).take(k as int).push(c) =~= rev_chars(tmp@).take(k as int + 1));
        }
        out.push(c);
        k += 1;
    }
    proof {
        assert(rev_chars(tmp@).take(tmp@.len() as int) =~= rev_chars(tmp@));
        assert(out@ =~= old(out)@ + dec_digits(n as nat));
    }
}

/// Appends the decimal digits of a possibly negative `n` to `out`.
pub fn push_int_digits(out: &mut Vec<char>, n: i64)
    ensures
        final(out)@ == old(out)@ + int_digits(n as int),
{
    if n < 0 {
        out.push('-');
        let m: u64 = if n == i64::MIN {
            9223372036854775808u64
        } else {
            (-n) as u64
        };
        push_dec(out, m);
        proof {
            assert(out@ =~= old(out)@ + int_digits(n as int));
        }
    } else {
        push_dec(out, n as u64);
    }
}

/// The characters of `s` as a vector.
pub fn chars_of(s: &str) -> (r: Vec<char>)
    ensures
        r@ == s@,
{
    let n = s.unicode_len();
    let mut out: Vec<char> = Vec::new();
    let mut i: usize = 0;
    while i < n
        invariant
            i <= n,
            n == s@.len(),
            out@ == s@.take(i as int),
        decreases n - i,
    {
        let c = s.get_char(i);
        proof {
            assert(s@.take(i as int).push(c) =~= s@.take(i as int + 1));
        }
        out.push(c);
        i += 1;
    }
    proof {
        assert(s@.take(n as int) =~= s@);
    }
    out
}

/// Appends every character of `s` to `out`.
pub fn push_chars(out: &mut Vec<char>, s: &str)
    ensures
        final(out)@ == old(out)@ + s@,
{
    let n = s.unicode_len();
    let mut i: usize = 0;
    while i < n
        invariant
            i <= n,
            n == s@.len(),
            out@ == old(out)@ + s@.take(i as int),
        decreases n - i,
    {
        let c = s.get_char(i);
        proof {
            assert((old(out)@ + s@.take(i as int)).push(c) =~= old(out)@ + s@.take(i as int + 1));
        }
        out.push(c);
        i += 1;
    }
    proof {
        assert(s@.take(n as int) =~= s@);
    }
}

/// Relies on `String`'s `FromIterator<char>` implementation: collecting an
/// iterator over characters yields the string of exactly those characters,
/// in order.
#[verifier::external_body]
pub fn string_from_chars(cs: &Vec<char>) -> (r: String)
    ensures
        r@ == cs@,
{
    cs.iter().collect()
}

} // verus!
