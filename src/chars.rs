//! Character-level building blocks: strings to and from character vectors,
//! decimal notation, and joining pieces with a separator.
use vstd::prelude::*;

use crate::text::views;

verus! {

/// The characters of `s`, in order.
pub fn chars_of(s: &str) -> (r: Vec<char>)
    ensures
        r@ == s@,
{
    let mut r: Vec<char> = Vec::new();
    for c in it: s.chars()
        invariant
            r@ == it.seq().take(it.index() as int),
    {
        r.push(c);
    }
    r
}

/// Relies on `String: FromIterator<char>`: the string holds the characters in order.
#[verifier::external_body]
pub(crate) fn string_from_chars(v: &Vec<char>) -> (r: String)
    ensures
        r@ == v@,
{
    v.iter().collect()
}

/// The decimal digit character for `d`, for `d < 10`.
pub open spec fn digit_char(d: nat) -> char {
    if d == 0 { '0' }
    else if d == 1 { '1' }
    else if d == 2 { '2' }
    else if d == 3 { '3' }
    else if d == 4 { '4' }
    else if d == 5 { '5' }
    else if d == 6 { '6' }
    else if d == 7 { '7' }
    else if d == 8 { '8' }
    else { '9' }
}

/// The decimal notation of `n`, most significant digit first, with no leading zero.
pub open spec fn decimal(n: nat) -> Seq<char>
    decreases n,
{
    if n < 10 {
        seq![digit_char(n)]
    } else {
        decimal(n / 10).push(digit_char(n % 10))
    }
}

/// The decimal notation of a signed integer: a minus sign before a negative one.
pub open spec fn signed_decimal(n: int) -> Seq<char> {
    if n < 0 {
        seq!['-'] + decimal((-n) as nat)
    } else {
        decimal(n as nat)
    }
}

fn digit(d: u64) -> (c: char)
    requires
        d < 10,
    ensures
        c == digit_char(d as nat),
{
    if d == 0 { '0' }
    else if d == 1 { '1' }
    else if d == 2 { '2' }
    else if d == 3 { '3' }
    else if d == 4 { '4' }
    else if d == 5 { '5' }
    else if d == 6 { '6' }
    else if d == 7 { '7' }
    else if d == 8 { '8' }
    else { '9' }
}

/// Appends the decimal notation of `n` to `out`.
pub fn push_decimal(out: &mut Vec<char>, n: u64)
    ensures
        final(out)@ == old(out)@ + decimal(n as nat),
    decreases n,
{
    if n >= 10 {
        push_decimal(out, n / 10);
    }
    out.push(digit(n % 10));
    proof {
        if n >= 10 {
            assert(old(out)@ + decimal(n as nat) =~= old(out)@ + decimal((n / 10) as nat) + seq![
                digit_char((n % 10) as nat),
            ]);
        }
    }
}

/// The digit character for a value below ten.
pub fn digit_of(d: u128) -> (c: char)
    requires
        d < 10,
    ensures
        c == digit_char(d as nat),
{
    digit(d as u64)
}

/// Appends the decimal notation of a wide `n` to `out`.
pub fn push_decimal_wide(out: &mut Vec<char>, n: u128)
    ensures
        final(out)@ == old(out)@ + decimal(n as nat),
    decreases n,
{
    if n >= 10 {
        push_decimal_wide(out, n / 10);
    }
    out.push(digit((n % 10) as u64));
    proof {
        if n >= 10 {
            assert(old(out)@ + decimal(n as nat) =~= old(out)@ + decimal((n / 10) as nat) + seq![
                digit_char((n % 10) as nat),
            ]);
        }
    }
}

/// Appends the decimal notation of the signed `n` to `out`.
pub fn push_signed_decimal(out: &mut Vec<char>, n: i32)
    ensures
        final(out)@ == old(out)@ + signed_decimal(n as int),
{
    if n < 0 {
        out.push('-');
        let m: i64 = n as i64;
        push_decimal(out, (-m) as u64);
        assert(out@ =~= old(out)@ + signed_decimal(n as int));
    } else {
        push_decimal(out, n as u64);
    }
}

/// Appends every character of `s` to `out`.
pub fn push_str(out: &mut Vec<char>, s: &str)
    ensures
        final(out)@ == old(out)@ + s@,
{
    let v = chars_of(s);
    let mut i: usize = 0;
    while i < v.len()
        invariant
            i <= v.len(),
            v@ == s@,
            out@ == old(out)@ + v@.take(i as int),
        decreases v.len() - i,
    {
        out.push(v[i]);
        i += 1;
        assert(v@.take(i as int) =~= v@.take((i - 1) as int).push(v@[i - 1]));
    }
    assert(v@.take(i as int) =~= v@);
}

/// The views of a sequence of strings.
pub open spec fn string_views(v: Seq<String>) -> Seq<Seq<char>> {
    v.map_values(|s: String| s@)
}

/// The pieces `ws` joined by `sep`.
pub open spec fn joined_with(ws: Seq<Seq<char>>, sep: char) -> Seq<char>
    decreases ws.len(),
{
    if ws.len() == 0 {
        seq![]
    } else if ws.len() == 1 {
        ws[0]
    } else {
        joined_with(ws.drop_last(), sep) + seq![sep] + ws.last()
    }
}

/// The pieces of `ws` up to `k`, joined by `sep`.
pub fn join_with(ws: &Vec<Vec<char>>, k: usize, sep: char) -> (r: Vec<char>)
    requires
        k <= ws.len(),
    ensures
        r@ == joined_with(views(ws@).take(k as int), sep),
{
    let mut out: Vec<char> = Vec::new();
    if k == 0 {
        assert(views(ws@).take(0) =~= Seq::<Seq<char>>::empty());
        return out;
    }
    let mut j: usize = 0;
    while j < ws[0].len()
        invariant
            k <= ws.len(),
            k > 0,
            j <= ws[0].len(),
            out@ == ws[0]@.take(j as int),
        decreases ws[0].len() - j,
    {
        out.push(ws[0][j]);
        j += 1;
        assert(out@ =~= ws[0]@.take(j as int));
    }
    assert(ws[0]@.take(j as int) =~= ws[0]@);
    assert(views(ws@).take(1) =~= seq![ws[0]@]);
    let mut i: usize = 1;
    while i < k
        invariant
            1 <= i <= k <= ws.len(),
            out@ == joined_with(views(ws@).take(i as int), sep),
        decreases k - i,
    {
        let ghost before = out@;
        out.push(sep);
        let w = &ws[i];
        let mut j: usize = 0;
        while j < w.len()
            invariant
                j <= w.len(),
                out@ == before + seq![sep] + w@.take(j as int),
            decreases w.len() - j,
        {
            out.push(w[j]);
            j += 1;
            assert(out@ =~= before + seq![sep] + w@.take(j as int));
        }
        assert(w@.take(j as int) =~= w@);
        assert(views(ws@).take(i + 1).drop_last() =~= views(ws@).take(i as int));
        assert(views(ws@).take(i + 1).last() == w@);
        i += 1;
    }
    out
}

} // verus!
