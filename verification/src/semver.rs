//! Parsing of `major.minor.patch` version strings.

use crate::text::chars_of;
use vstd::prelude::*;

verus! {

/// Whether `c` is an ASCII decimal digit.
pub open spec fn is_digit(c: char) -> bool {
    '0' <= c && c <= '9'
}

/// The value of the decimal digit `c`.
pub open spec fn digit_value(c: char) -> nat {
    (c as int - '0' as int) as nat
}

/// The value of a string of decimal digits, most significant first.
pub open spec fn decimal_value(d: Seq<char>) -> nat
    decreases d.len(),
{
    if d.len() == 0 {
        0
    } else {
        decimal_value(d.drop_last()) * 10 + digit_value(d.last())
    }
}

/// Whether every character of `d` is a decimal digit.
pub open spec fn all_digits(d: Seq<char>) -> bool {
    forall|i: int| 0 <= i < d.len() ==> is_digit(#[trigger] d[i])
}

/// What the standard parse of a `u32` accepts: an optional leading `+`,
/// then one or more decimal digits whose value fits in a `u32`.
pub open spec fn spec_parse_u32(s: Seq<char>) -> Option<u32> {
    let digits = if s.len() > 0 && s[0] == '+' { s.drop_first() } else { s };
    if digits.len() > 0 && all_digits(digits) && decimal_value(digits) <= u32::MAX {
        Some(decimal_value(digits) as u32)
    } else {
        None
    }
}

/// The pieces of `s` between occurrences of `sep`: one more piece than
/// there are separators, empty pieces included.
pub open spec fn split_on(s: Seq<char>, sep: char) -> Seq<Seq<char>>
    decreases s.len(),
{
    if s.len() == 0 {
        seq![Seq::empty()]
    } else {
        let p = split_on(s.drop_last(), sep);
        if s.last() == sep {
            p.push(Seq::empty())
        } else {
            p.update(p.len() - 1, p.last().push(s.last()))
        }
    }
}

/// A `major.minor.patch` string: exactly three dot-separated pieces, each a
/// `u32` as the standard parse reads it.
pub open spec fn spec_parse_semver(s: Seq<char>) -> Option<(u32, u32, u32)> {
    let parts = split_on(s, '.');
    if parts.len() == 3 && spec_parse_u32(parts[0]) is Some && spec_parse_u32(parts[1]) is Some
        && spec_parse_u32(parts[2]) is Some {
        Some(
            (
                spec_parse_u32(parts[0]).unwrap(),
                spec_parse_u32(parts[1]).unwrap(),
                spec_parse_u32(parts[2]).unwrap(),
            ),
        )
    } else {
        None
    }
}

proof fn lemma_split_on_nonempty(s: Seq<char>, sep: char)
    ensures
        split_on(s, sep).len() >= 1,
    decreases s.len(),
{
    if s.len() > 0 {
        lemma_split_on_nonempty(s.drop_last(), sep);
    }
}

proof fn lemma_decimal_value_prefix(d: Seq<char>, k: int)
    requires
        0 <= k <= d.len(),
    ensures
        decimal_value(d.subrange(0, k)) <= decimal_value(d),
    decreases d.len(),
{
    if k < d.len() {
        lemma_decimal_value_prefix(d.drop_last(), k);
        assert(d.drop_last().subrange(0, k) =~= d.subrange(0, k));
    } else {
        assert(d.subrange(0, k) =~= d);
    }
}

/// Parse `cs[start..end]` as the standard parse of a `u32` does.
fn parse_u32_range(cs: &Vec<char>, start: usize, end: usize) -> (r: Option<u32>)
    requires
        start <= end <= cs.len(),
    ensures
        r == spec_parse_u32(cs@.subrange(start as int, end as int)),
{
    let ghost s = cs@.subrange(start as int, end as int);
    let mut i = start;
    if i < end && cs[i] == '+' {
        i = i + 1;
    }
    let ghost digits = cs@.subrange(i as int, end as int);
    proof {
        if s.len() > 0 && s[0] == '+' {
            assert(digits =~= s.drop_first());
        } else {
            assert(digits =~= s);
        }
    }
    if i == end {
        return None;
    }
    let first = i;
    let mut v: u64 = 0;
    while i < end
        invariant
            first <= i <= end <= cs.len(),
            digits == cs@.subrange(first as int, end as int),
            s == cs@.subrange(start as int, end as int),
            digits == (if s.len() > 0 && s[0] == '+' { s.drop_first() } else { s }),
            digits.len() > 0,
            all_digits(cs@.subrange(first as int, i as int)),
            v == decimal_value(cs@.subrange(first as int, i as int)),
            v <= u32::MAX,
        decreases end - i,
    {
        let c = cs[i];
        if !('0' <= c && c <= '9') {
            proof {
                assert(digits[i - first] == c);
            }
            return None;
        }
        let d = (c as u32 - '0' as u32) as u64;
        let ghost pre = cs@.subrange(first as int, i as int);
        let ghost next = cs@.subrange(first as int, i + 1);
        proof {
            assert(next.drop_last() =~= pre);
            assert(next.last() == c);
            assert(all_digits(next));
        }
        v = v * 10 + d;
        i = i + 1;
        if v > u32::MAX as u64 {
            proof {
                if all_digits(digits) {
                    lemma_decimal_value_prefix(digits, (i - first) as int);
                    assert(digits.subrange(0, (i - first) as int) =~= next);
                }
            }
            return None;
        }
    }
    proof {
        assert(cs@.subrange(first as int, i as int) =~= digits);
    }
    Some(v as u32)
}

/// Parse a `major.minor.patch` version string.
///
/// Returns `None` unless the string holds exactly three dot-separated
/// pieces that each parse as a `u32`.
pub fn parse_semver(s: &str) -> (r: Option<(u32, u32, u32)>)
    ensures
        r == spec_parse_semver(s@),
{
    let cs = chars_of(s);
    let n = cs.len();
    // Boundaries of the pieces closed so far: starts[k]..ends[k].
    let mut starts: Vec<usize> = Vec::new();
    let mut ends: Vec<usize> = Vec::new();
    let mut cur: usize = 0;
    let ghost mut pieces: Seq<Seq<char>> = Seq::empty();
    assert(cs@.subrange(0, 0) =~= Seq::<char>::empty());
    assert(split_on(cs@.subrange(0, 0), '.') =~= pieces.push(cs@.subrange(0, 0)));
    for i in 0..n
        invariant
            n == cs.len(),
            cs@ == s@,
            starts.len() == ends.len(),
            pieces.len() == starts.len(),
            cur <= i,
            forall|k: int| 0 <= k < starts.len() ==> #[trigger] starts@[k] <= ends@[k],
            forall|k: int| 0 <= k < ends.len() ==> #[trigger] ends@[k] <= cur,
            forall|k: int|
                0 <= k < starts.len() ==> #[trigger] pieces[k] == cs@.subrange(
                    starts@[k] as int,
                    ends@[k] as int,
                ),
            split_on(cs@.subrange(0, i as int), '.') == pieces.push(cs@.subrange(cur as int, i as int)),
    {
        let ghost prefix = cs@.subrange(0, i + 1);
        proof {
            assert(prefix.drop_last() =~= cs@.subrange(0, i as int));
            assert(prefix.last() == cs@[i as int]);
        }
        if cs[i] == '.' {
            let ghost closed = cs@.subrange(cur as int, i as int);
            let ghost old_starts = starts@;
            let ghost old_ends = ends@;
            let ghost old_pieces = pieces;
            starts.push(cur);
            ends.push(i);
            cur = i + 1;
            proof {
                pieces = pieces.push(closed);
                assert forall|k: int| 0 <= k < starts.len() implies #[trigger] starts@[k] <= ends@[k]
                    && ends@[k] <= cur by {
                    if k < old_starts.len() {
                        assert(starts@[k] == old_starts[k] && ends@[k] == old_ends[k]);
                    }
                }
                assert forall|k: int| 0 <= k < starts.len() implies #[trigger] pieces[k]
                    == cs@.subrange(starts@[k] as int, ends@[k] as int) by {
                    if k < old_starts.len() {
                        assert(starts@[k] == old_starts[k] && ends@[k] == old_ends[k]);
                        assert(pieces[k] == old_pieces[k]);
                    }
                }
                assert(cs@.subrange(cur as int, i + 1) =~= Seq::<char>::empty());
                assert(split_on(prefix, '.') =~= pieces.push(cs@.subrange(cur as int, i + 1)));
            }
        } else {
            proof {
                lemma_split_on_nonempty(cs@.subrange(0, i as int), '.');
                assert(cs@.subrange(cur as int, i as int).push(cs@[i as int]) =~= cs@.subrange(
                    cur as int,
                    i + 1,
                ));
                assert(split_on(prefix, '.') =~= pieces.push(cs@.subrange(cur as int, i + 1)));
            }
        }
    }
    proof {
        assert(cs@.subrange(0, n as int) =~= s@);
    }
    if starts.len() != 2 {
        return None;
    }
    let major = parse_u32_range(&cs, starts[0], ends[0]);
    let minor = parse_u32_range(&cs, starts[1], ends[1]);
    let patch = parse_u32_range(&cs, cur, n);
    match (major, minor, patch) {
        (Some(a), Some(b), Some(c)) => Some((a, b, c)),
        _ => None,
    }
}

} // verus!
