//! Reading list-valued command-line arguments such as `--n-levels-values 2,3,4,5`.
use vstd::prelude::*;

use crate::text::{chars_of, trim, trim_chars};

verus! {

/// Separators between the items of a command-line list.
pub open spec fn is_list_separator(c: char) -> bool {
    c == ',' || c == ' '
}

/// The items of a command-line list: the maximal runs of non-separator
/// characters of `s`, in order (the non-empty pieces of splitting `s` at every
/// `,` and every space).
pub open spec fn list_items(s: Seq<char>) -> Seq<Seq<char>>
    decreases s.len(),
{
    if s.len() == 0 {
        Seq::empty()
    } else {
        let p = s.drop_last();
        let t = list_items(p);
        if is_list_separator(s.last()) {
            t
        } else if p.len() > 0 && !is_list_separator(p.last()) {
            t.update(t.len() - 1, t.last().push(s.last()))
        } else {
            t.push(seq![s.last()])
        }
    }
}

pub open spec fn is_decimal_digit(c: char) -> bool {
    '0' <= c && c <= '9'
}

/// The value of the decimal numeral `d`.
pub open spec fn decimal_value(d: Seq<char>) -> int
    decreases d.len(),
{
    if d.len() == 0 {
        0
    } else {
        decimal_value(d.drop_last()) * 10 + (d.last() as int - '0' as int)
    }
}

/// `t` without a leading `+`.
pub open spec fn without_plus(t: Seq<char>) -> Seq<char> {
    if t.len() > 0 && t[0] == '+' {
        t.drop_first()
    } else {
        t
    }
}

/// The `u8` that the text `t` denotes, as `str::parse::<u8>` reads it: an
/// optional `+`, then one or more ASCII decimal digits whose value is at most
/// 255.
pub open spec fn u8_named(t: Seq<char>) -> Option<u8> {
    let d = without_plus(t);
    if d.len() > 0 && (forall|i: int| 0 <= i < d.len() ==> is_decimal_digit(#[trigger] d[i]))
        && decimal_value(d) <= 255 {
        Some(decimal_value(d) as u8)
    } else {
        None
    }
}

/// The values of the items that denote a `u8` once trimmed, in order; the
/// others are skipped.
pub open spec fn u8_items(items: Seq<Seq<char>>) -> Seq<u8>
    decreases items.len(),
{
    if items.len() == 0 {
        Seq::empty()
    } else {
        let r = u8_items(items.drop_last());
        match u8_named(trim(items.last())) {
            Some(v) => r.push(v),
            None => r,
        }
    }
}

proof fn lemma_decimal_value_nonneg(d: Seq<char>)
    requires
        forall|i: int| 0 <= i < d.len() ==> is_decimal_digit(#[trigger] d[i]),
    ensures
        decimal_value(d) >= 0,
    decreases d.len(),
{
    if d.len() > 0 {
        lemma_decimal_value_nonneg(d.drop_last());
    }
}

/// A prefix of an all-digit numeral has no greater value.
proof fn lemma_decimal_value_prefix(d: Seq<char>, j: int)
    requires
        0 <= j <= d.len(),
        forall|i: int| 0 <= i < d.len() ==> is_decimal_digit(#[trigger] d[i]),
    ensures
        decimal_value(d.take(j)) <= decimal_value(d),
    decreases d.len(),
{
    if j < d.len() {
        let p = d.drop_last();
        assert(d.take(j) == p.take(j));
        lemma_decimal_value_prefix(p, j);
        lemma_decimal_value_nonneg(p);
    } else {
        assert(d.take(j) == d);
    }
}

/// Read one list item as a `u8` (`str::parse::<u8>`).
fn parse_u8_item(t: &Vec<char>) -> (r: Option<u8>)
    ensures
        r == u8_named(t@),
{
    let n = t.len();
    let start: usize = if n > 0 && t[0] == '+' {
        1
    } else {
        0
    };
    let ghost d = without_plus(t@);
    assert(d == t@.subrange(start as int, n as int));
    if start == n {
        return None;
    }
    let mut acc: u32 = 0;
    let mut i = start;
    while i < n
        invariant
            n == t@.len(),
            start < n,
            start <= i <= n,
            d == t@.subrange(start as int, n as int),
            d == without_plus(t@),
            acc <= 255,
            forall|k: int| 0 <= k < i - start ==> is_decimal_digit(#[trigger] d[k]),
            acc as int == decimal_value(d.take(i - start)),
        decreases n - i,
    {
        let c = t[i];
        if !('0' <= c && c <= '9') {
            assert(d[i - start] == c);
            assert(!is_decimal_digit(d[i - start]));
            assert(!(forall|k: int| 0 <= k < d.len() ==> is_decimal_digit(#[trigger] d[k])));
            assert(u8_named(t@) is None);
            return None;
        }
        let digit = (c as u32) - ('0' as u32);
        assert(d.take(i - start + 1).drop_last() == d.take(i - start));
        assert(d.take(i - start + 1).last() == c);
        acc = acc * 10 + digit;
        assert(acc as int == decimal_value(d.take(i - start + 1)));
        if acc > 255 {
            proof {
                if forall|k: int| 0 <= k < d.len() ==> is_decimal_digit(#[trigger] d[k]) {
                    lemma_decimal_value_prefix(d, i - start + 1);
                    assert(decimal_value(d) > 255);
                }
                assert(u8_named(t@) is None);
            }
            return None;
        }
        i = i + 1;
    }
    assert(d.take(n - start) == d);
    Some(acc as u8)
}

/// Parse a comma- or space-separated list of `u8` values, skipping empty
/// items and items that are not a `u8` once trimmed.
pub fn parse_u8_list(s: &str) -> (r: Vec<u8>)
    ensures
        r@ == u8_items(list_items(s@)),
{
    let v = chars_of(s);
    let n = v.len();
    let mut out: Vec<u8> = Vec::new();
    let mut cur: Vec<char> = Vec::new();
    let ghost mut done: Seq<Seq<char>> = Seq::empty();
    for i in 0..n
        invariant
            n == v@.len(),
            v@ == s@,
            list_items(v@.take(i as int)) == (if cur@.len() > 0 {
                done.push(cur@)
            } else {
                done
            }),
            cur@.len() > 0 <==> (i > 0 && !is_list_separator(v@[i - 1])),
            out@ == u8_items(done),
    {
        let c = v[i];
        let ghost pre = v@.take(i as int);
        assert(v@.take(i + 1).drop_last() == pre);
        assert(v@.take(i + 1).last() == c);
        if c == ',' || c == ' ' {
            if cur.len() > 0 {
                let item = trim_chars(&cur);
                match parse_u8_item(&item) {
                    Some(x) => out.push(x),
                    None => {},
                }
                proof {
                    assert(done.push(cur@).drop_last() == done);
                    done = done.push(cur@);
                }
                cur = Vec::new();
            }
        } else {
            proof {
                if i > 0 && !is_list_separator(v@[i - 1]) {
                    assert(pre.last() == v@[i - 1]);
                    let t = list_items(pre);
                    assert(t.update(t.len() - 1, t.last().push(c)) == done.push(cur@.push(c)));
                } else {
                    assert(list_items(pre) == done);
                    assert(cur@.push(c) == seq![c]);
                }
            }
            cur.push(c);
        }
    }
    assert(v@.take(n as int) == v@);
    if cur.len() > 0 {
        let item = trim_chars(&cur);
        match parse_u8_item(&item) {
            Some(x) => out.push(x),
            None => {},
        }
        proof {
            assert(done.push(cur@).drop_last() == done);
        }
    }
    out
}

} // verus!
