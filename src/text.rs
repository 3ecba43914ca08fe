use vstd::prelude::*;
use vstd::string::StrSliceExecFns;

verus! {

/// The characters of `s`.
pub fn chars_of(s: &str) -> (r: Vec<char>)
    ensures
        r@ == s@,
{
    let n = s.unicode_len();
    let mut out: Vec<char> = Vec::new();
    let mut i: usize = 0;
    while i < n
        invariant
            i <= n,
            n == s@.len(),
            out@ == s@.subrange(0, i as int),
        decreases n - i,
    {
        out.push(s.get_char(i));
        i = i + 1;
        assert(out@ =~= s@.subrange(0, i as int));
    }
    assert(out@ =~= s@);
    out
}

/// The decimal digit for `d < 10`.
pub open spec fn digit_char(d: nat) -> char {
    if d == 0 { '0' }
    else if d == 1 { '1' }
    else if d == 2 { '2' }
    else if d == 3 { '3' }
    else if d == 4 { '4' }
    else if d == 5 { '5' }
    else if d == 6 { '6' }
    else if d == 7 { '7' }
    else if d == 8 { '8' }
    else { '9' }
}

/// The decimal numeral of `n`, without leading zeros.
pub open spec fn decimal(n: nat) -> Seq<char>
    decreases n,
{
    if n < 10 {
        seq![digit_char(n)]
    } else {
        decimal(n / 10).push(digit_char(n % 10))
    }
}

fn digit(d: usize) -> (c: char)
    requires
        d < 10,
    ensures
        c == digit_char(d as nat),
{
    if d == 0 { '0' }
    else if d == 1 { '1' }
    else if d == 2 { '2' }
    else if d == 3 { '3' }
    else if d == 4 { '4' }
    else if d == 5 { '5' }
    else if d == 6 { '6' }
    else if d == 7 { '7' }
    else if d == 8 { '8' }
    else { '9' }
}

/// The decimal numeral of `n`.
pub fn decimal_chars(n: usize) -> (r: Vec<char>)
    ensures
        r@ == decimal(n as nat),
    decreases n,
{
    if n < 10 {
        let mut v: Vec<char> = Vec::new();
        v.push(digit(n));
        assert(v@ =~= decimal(n as nat));
        v
    } else {
        let mut v = decimal_chars(n / 10);
        v.push(digit(n % 10));
        v
    }
}

/// `n` spaces.
pub open spec fn spaces(n: nat) -> Seq<char> {
    Seq::new(n, |i: int| ' ')
}

/// Appends `n` spaces to `v`.
pub fn push_spaces(v: &mut Vec<char>, n: usize)
    ensures
        final(v)@ == old(v)@ + spaces(n as nat),
{
    let mut i: usize = 0;
    while i < n
        invariant
            i <= n,
            v@ == old(v)@ + spaces(i as nat),
        decreases n - i,
    {
        v.push(' ');
        i = i + 1;
        assert(v@ =~= old(v)@ + spaces(i as nat));
    }
}

/// Appends the characters of `w` to `v`.
pub fn push_all(v: &mut Vec<char>, w: &Vec<char>)
    ensures
        final(v)@ == old(v)@ + w@,
{
    let mut i: usize = 0;
    while i < w.len()
        invariant
            i <= w@.len(),
            v@ == old(v)@ + w@.subrange(0, i as int),
        decreases w@.len() - i,
    {
        v.push(w[i]);
        i = i + 1;
        assert(v@ =~= old(v)@ + w@.subrange(0, i as int));
    }
    assert(w@.subrange(0, w@.len() as int) =~= w@);
}

/// The first `n` characters of `s`, or all of them where `s` is shorter.
pub open spec fn prefix(s: Seq<char>, n: int) -> Seq<char> {
    if n < s.len() {
        s.subrange(0, n)
    } else {
        s
    }
}

/// Cuts `v` to its first `n` characters.
pub fn truncate_chars(v: &mut Vec<char>, n: usize)
    ensures
        final(v)@ == prefix(old(v)@, n as int),
{
    v.truncate(n);
}

} // verus!
