//! Character-level text utilities shared by the parsers: the characters of a
//! string, Unicode-whitespace trimming, ASCII case mapping and comparison.
use vstd::prelude::*;

verus! {

/// The characters of `s`, in order.
pub fn chars_of(s: &str) -> (r: Vec<char>)
    ensures
        r@ == s@,
{
    let mut out: Vec<char> = Vec::new();
    for c in it: s.chars()
        invariant
            out@ == it.seq().take(it.index() as int),
            it.seq() == s@,
    {
        out.push(c);
    }
    out
}

/// Appends one character to a string (`String::push`).
#[verifier::external_body]
fn push_char(s: &mut String, c: char)
    ensures
        final(s)@ == old(s)@.push(c),
{
    s.push(c);
}

/// The string whose characters are `v`.
pub fn string_of(v: &Vec<char>) -> (r: String)
    ensures
        r@ == v@,
{
    let mut out = String::new();
    let n = v.len();
    for i in 0..n
        invariant
            n == v@.len(),
            out@ == v@.take(i as int),
    {
        push_char(&mut out, v[i]);
        assert(v@.take(i + 1) == v@.take(i as int).push(v@[i as int]));
    }
    assert(v@.take(n as int) == v@);
    out
}

/// The strings `a`, `b` and `c`, one after the other.
pub fn concat3(a: &str, b: &str, c: &str) -> (r: String)
    ensures
        r@ == a@ + b@ + c@,
{
    let va = chars_of(a);
    let vb = chars_of(b);
    let vc = chars_of(c);
    let mut all: Vec<char> = Vec::new();
    let mut i: usize = 0;
    while i < va.len()
        invariant
            0 <= i <= va@.len(),
            all@ == va@.take(i as int),
        decreases va@.len() - i,
    {
        all.push(va[i]);
        assert(va@.take(i + 1) == va@.take(i as int).push(va@[i as int]));
        i = i + 1;
    }
    assert(va@.take(va@.len() as int) == va@);
    let mut j: usize = 0;
    while j < vb.len()
        invariant
            0 <= j <= vb@.len(),
            all@ == va@ + vb@.take(j as int),
        decreases vb@.len() - j,
    {
        all.push(vb[j]);
        assert(vb@.take(j + 1) == vb@.take(j as int).push(vb@[j as int]));
        j = j + 1;
    }
    assert(vb@.take(vb@.len() as int) == vb@);
    let mut k: usize = 0;
    while k < vc.len()
        invariant
            0 <= k <= vc@.len(),
            all@ == va@ + vb@ + vc@.take(k as int),
        decreases vc@.len() - k,
    {
        all.push(vc[k]);
        assert(vc@.take(k + 1) == vc@.take(k as int).push(vc@[k as int]));
        k = k + 1;
    }
    assert(vc@.take(vc@.len() as int) == vc@);
    string_of(&all)
}

/// Unicode `White_Space`, the property that `char::is_whitespace` tests.
pub open spec fn is_white_space(c: char) -> bool {
    let u = c as u32;
    ||| 0x09 <= u <= 0x0d
    ||| u == 0x20
    ||| u == 0x85
    ||| u == 0xa0
    ||| u == 0x1680
    ||| 0x2000 <= u <= 0x200a
    ||| u == 0x2028
    ||| u == 0x2029
    ||| u == 0x202f
    ||| u == 0x205f
    ||| u == 0x3000
}

pub fn white_space(c: char) -> (r: bool)
    ensures
        r == is_white_space(c),
{
    let u = c as u32;
    (0x09 <= u && u <= 0x0d) || u == 0x20 || u == 0x85 || u == 0xa0 || u == 0x1680 || (0x2000
        <= u && u <= 0x200a) || u == 0x2028 || u == 0x2029 || u == 0x202f || u == 0x205f || u
        == 0x3000
}

/// `s` without its leading white space.
pub open spec fn trim_start(s: Seq<char>) -> Seq<char>
    decreases s.len(),
{
    if s.len() > 0 && is_white_space(s[0]) {
        trim_start(s.drop_first())
    } else {
        s
    }
}

/// `s` without its trailing white space.
pub open spec fn trim_end(s: Seq<char>) -> Seq<char>
    decreases s.len(),
{
    if s.len() > 0 && is_white_space(s.last()) {
        trim_end(s.drop_last())
    } else {
        s
    }
}

/// `s` without leading and trailing white space (`str::trim`).
pub open spec fn trim(s: Seq<char>) -> Seq<char> {
    trim_end(trim_start(s))
}

/// The characters of `v` from index `lo` up to, not including, `hi`.
pub fn slice_chars(v: &Vec<char>, lo: usize, hi: usize) -> (r: Vec<char>)
    requires
        lo <= hi <= v@.len(),
    ensures
        r@ == v@.subrange(lo as int, hi as int),
{
    let mut out: Vec<char> = Vec::new();
    let mut i = lo;
    while i < hi
        invariant
            lo <= i <= hi <= v@.len(),
            out@ == v@.subrange(lo as int, i as int),
        decreases hi - i,
    {
        out.push(v[i]);
        assert(v@.subrange(lo as int, i + 1) == v@.subrange(lo as int, i as int).push(v@[i as int]));
        i = i + 1;
    }
    out
}

/// `v` without leading and trailing white space.
pub fn trim_chars(v: &Vec<char>) -> (r: Vec<char>)
    ensures
        r@ == trim(v@),
{
    let n = v.len();
    let mut lo: usize = 0;
    assert(v@.subrange(0, n as int) == v@);
    while lo < n && white_space(v[lo])
        invariant
            n == v@.len(),
            0 <= lo <= n,
            trim_start(v@.subrange(lo as int, n as int)) == trim_start(v@),
        decreases n - lo,
    {
        assert(v@.subrange(lo as int, n as int).drop_first() == v@.subrange(lo + 1, n as int));
        lo = lo + 1;
    }
    assert(trim_start(v@) == v@.subrange(lo as int, n as int));
    let ghost t = v@.subrange(lo as int, n as int);
    let mut hi: usize = n;
    while hi > lo && white_space(v[hi - 1])
        invariant
            n == v@.len(),
            lo <= hi <= n,
            t == v@.subrange(lo as int, n as int),
            trim_end(v@.subrange(lo as int, hi as int)) == trim_end(t),
        decreases hi - lo,
    {
        assert(v@.subrange(lo as int, hi as int).drop_last() == v@.subrange(lo as int, hi - 1));
        hi = hi - 1;
    }
    assert(trim_end(t) == v@.subrange(lo as int, hi as int));
    slice_chars(v, lo, hi)
}

/// ASCII upper-case letters mapped to lower case (`char::to_ascii_lowercase`).
pub open spec fn ascii_lower_char(c: char) -> char {
    if 'A' <= c && c <= 'Z' {
        ((c as u32) + 32) as char
    } else {
        c
    }
}

/// ASCII lower-case letters mapped to upper case (`char::to_ascii_uppercase`).
pub open spec fn ascii_upper_char(c: char) -> char {
    if 'a' <= c && c <= 'z' {
        ((c as u32) - 32) as char
    } else {
        c
    }
}

pub open spec fn ascii_lowercase(s: Seq<char>) -> Seq<char> {
    s.map_values(|c: char| ascii_lower_char(c))
}

pub open spec fn ascii_uppercase(s: Seq<char>) -> Seq<char> {
    s.map_values(|c: char| ascii_upper_char(c))
}

pub fn to_ascii_lower_char(c: char) -> (r: char)
    ensures
        r == ascii_lower_char(c),
{
    if 'A' <= c && c <= 'Z' {
        let b: u8 = c as u8;
        (b + 32) as char
    } else {
        c
    }
}

pub fn to_ascii_upper_char(c: char) -> (r: char)
    ensures
        r == ascii_upper_char(c),
{
    if 'a' <= c && c <= 'z' {
        let b: u8 = c as u8;
        (b - 32) as char
    } else {
        c
    }
}

/// `v` with ASCII letters in lower case (`str::to_ascii_lowercase`).
pub fn lowercase_chars(v: &Vec<char>) -> (r: Vec<char>)
    ensures
        r@ == ascii_lowercase(v@),
{
    let mut out: Vec<char> = Vec::new();
    let n = v.len();
    for i in 0..n
        invariant
            n == v@.len(),
            out@ == ascii_lowercase(v@.take(i as int)),
    {
        out.push(to_ascii_lower_char(v[i]));
        assert(ascii_lowercase(v@.take(i + 1)) == ascii_lowercase(v@.take(i as int)).push(
            ascii_lower_char(v@[i as int]),
        ));
    }
    assert(v@.take(n as int) == v@);
    out
}

/// `v` with ASCII letters in upper case (`str::to_ascii_uppercase`).
pub fn uppercase_chars(v: &Vec<char>) -> (r: Vec<char>)
    ensures
        r@ == ascii_uppercase(v@),
{
    let mut out: Vec<char> = Vec::new();
    let n = v.len();
    for i in 0..n
        invariant
            n == v@.len(),
            out@ == ascii_uppercase(v@.take(i as int)),
    {
        out.push(to_ascii_upper_char(v[i]));
        assert(ascii_uppercase(v@.take(i + 1)) == ascii_uppercase(v@.take(i as int)).push(
            ascii_upper_char(v@[i as int]),
        ));
    }
    assert(v@.take(n as int) == v@);
    out
}

/// `s` trimmed of white space, with ASCII letters in lower case: the key
/// under which command-line words and model replies are compared.
pub open spec fn lower_key(s: Seq<char>) -> Seq<char> {
    ascii_lowercase(trim(s))
}

/// `s` trimmed of white space, with ASCII letters in upper case.
pub open spec fn upper_key(s: Seq<char>) -> Seq<char> {
    ascii_uppercase(trim(s))
}

/// A word with no white space at either end is its own trimmed form.
pub proof fn lemma_trim_plain(s: Seq<char>)
    requires
        s.len() > 0,
        !is_white_space(s[0]),
        !is_white_space(s.last()),
    ensures
        trim(s) == s,
{
}

/// The lower-case key of `s`.
pub fn lower_key_of(s: &str) -> (r: Vec<char>)
    ensures
        r@ == lower_key(s@),
{
    lowercase_chars(&trim_chars(&chars_of(s)))
}

/// The upper-case key of `s`.
pub fn upper_key_of(s: &str) -> (r: Vec<char>)
    ensures
        r@ == upper_key(s@),
{
    uppercase_chars(&trim_chars(&chars_of(s)))
}

/// Whether `v` holds exactly the characters of `s`.
pub fn chars_eq_str(v: &Vec<char>, s: &str) -> (r: bool)
    ensures
        r == (v@ == s@),
{
    let w = chars_of(s);
    if v.len() != w.len() {
        return false;
    }
    let n = v.len();
    for i in 0..n
        invariant
            n == v@.len(),
            n == w@.len(),
            w@ == s@,
            forall|k: int| 0 <= k < i ==> v@[k] == w@[k],
    {
        if v[i] != w[i] {
            return false;
        }
    }
    assert(v@ == w@);
    true
}

} // verus!
