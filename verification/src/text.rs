//! Byte-level text helpers: ASCII case folding, case-insensitive substring
//! search (the semantics of the repository's name filters), byte-string
//! equality, and parsing of comma-separated lists of signed decimal ids.

use std::collections::HashSet;

use vstd::prelude::*;
use vstd::string::StringSliceAdditionalSpecFns;

verus! {

broadcast use vstd::std_specs::hash::group_hash_axioms;

/// ASCII case folding of a single byte: upper-case letters map to their
/// lower-case counterparts, every other byte is left alone.
pub open spec fn lower_byte(b: u8) -> u8 {
    if 65 <= b && b <= 90 {
        (b + 32) as u8
    } else {
        b
    }
}

/// ASCII case folding of a byte string.
pub open spec fn lower_bytes(s: Seq<u8>) -> Seq<u8> {
    s.map_values(|b: u8| lower_byte(b))
}

/// `needle` occurs in `haystack` when both are folded to ASCII lower case.
pub open spec fn contains_ci(haystack: Seq<u8>, needle: Seq<u8>) -> bool {
    exists|i: int|
        0 <= i && i + needle.len() <= haystack.len() && lower_bytes(
            #[trigger] haystack.subrange(i, i + needle.len()),
        ) == lower_bytes(needle)
}

fn lower(b: u8) -> (r: u8)
    ensures
        r == lower_byte(b),
{
    if 65 <= b && b <= 90 {
        b + 32
    } else {
        b
    }
}

/// The candidate match of `needle` at position `i` of `haystack`, compared
/// byte for byte under ASCII case folding.
fn matches_at(haystack: &[u8], needle: &[u8], i: usize) -> (r: bool)
    requires
        i + needle@.len() <= haystack@.len(),
    ensures
        r == (lower_bytes(haystack@.subrange(i as int, i + needle@.len())) == lower_bytes(
            needle@,
        )),
{
    let n = needle.len();
    let h = haystack.len();
    let mut j: usize = 0;
    while j < n
        invariant
            j <= n,
            i + n <= h,
            h == haystack@.len(),
            n == needle@.len(),
            forall|k: int|
                0 <= k < j ==> lower_byte(haystack@[i + k]) == lower_byte(needle@[k]),
        decreases n - j,
    {
        if lower(haystack[i + j]) != lower(needle[j]) {
            proof {
                let lhs = lower_bytes(haystack@.subrange(i as int, i + n));
                let rhs = lower_bytes(needle@);
                assert(lhs[j as int] != rhs[j as int]);
            }
            return false;
        }
        j += 1;
    }
    proof {
        assert(lower_bytes(haystack@.subrange(i as int, i + n)) =~= lower_bytes(needle@));
    }
    true
}

/// Whether `needle` occurs anywhere in `haystack`, ignoring ASCII case.
pub fn bytes_contain_ci(haystack: &[u8], needle: &[u8]) -> (r: bool)
    ensures
        r == contains_ci(haystack@, needle@),
{
    let n = needle.len();
    let h = haystack.len();
    if n > h {
        return false;
    }
    if n == 0 {
        proof {
            assert(lower_bytes(haystack@.subrange(0, 0 + needle@.len() as int)) =~= lower_bytes(
                needle@,
            ));
            assert(contains_ci(haystack@, needle@));
        }
        return true;
    }
    let count = h - n + 1;
    let mut i: usize = 0;
    while i < count
        invariant
            1 <= n <= h,
            h == haystack@.len(),
            n == needle@.len(),
            count == h - n + 1,
            i <= count,
            forall|k: int|
                0 <= k < i ==> lower_bytes(#[trigger] haystack@.subrange(k, k + n as int))
                    != lower_bytes(needle@),
        decreases count - i,
    {
        if matches_at(haystack, needle, i) {
            return true;
        }
        i += 1;
    }
    false
}

/// Byte-for-byte equality of two byte strings.
pub fn bytes_equal(a: &[u8], b: &[u8]) -> (r: bool)
    ensures
        r == (a@ == b@),
{
    if a.len() != b.len() {
        return false;
    }
    let n = a.len();
    let mut i: usize = 0;
    while i < n
        invariant
            i <= n,
            n == a@.len(),
            n == b@.len(),
            forall|k: int| 0 <= k < i ==> a@[k] == b@[k],
        decreases n - i,
    {
        if a[i] != b[i] {
            return false;
        }
        i += 1;
    }
    proof {
        assert(a@ =~= b@);
    }
    true
}

/// UTF-8 encoding is injective, so equal encodings mean equal strings.
pub proof fn lemma_encode_utf8_injective(a: Seq<char>, b: Seq<char>)
    requires
        vstd::utf8::encode_utf8(a) == vstd::utf8::encode_utf8(b),
    ensures
        a == b,
{
    vstd::utf8::encode_utf8_decode_utf8(a);
    vstd::utf8::encode_utf8_decode_utf8(b);
}

/// Whether a row's name passes a filter: an empty filter passes everything,
/// any other filter must occur in the name ignoring ASCII case.
pub open spec fn name_matches(name: Seq<char>, filter: Seq<char>) -> bool {
    filter.len() == 0 || contains_ci(vstd::utf8::encode_utf8(name), vstd::utf8::encode_utf8(filter))
}

/// The executable side of `name_matches`, on `&str` values.
pub fn str_matches_filter(name: &str, filter: &str) -> (r: bool)
    ensures
        r == name_matches(name@, filter@),
{
    if filter.is_empty() {
        return true;
    }
    bytes_contain_ci(name.as_bytes(), filter.as_bytes())
}

/// An ASCII decimal digit byte.
pub open spec fn is_digit(b: u8) -> bool {
    48 <= b && b <= 57
}

pub open spec fn all_digits(s: Seq<u8>) -> bool {
    forall|i: int| 0 <= i < s.len() ==> is_digit(#[trigger] s[i])
}

/// The unsigned value of a digit string.
pub open spec fn digits_value(s: Seq<u8>) -> int
    decreases s.len(),
{
    if s.len() == 0 {
        0
    } else {
        digits_value(s.drop_last()) * 10 + (s.last() - 48)
    }
}

/// The meaning of a signed decimal literal, with the grammar of
/// `str::parse::<i64>`: an optional sign, then one or more ASCII digits,
/// and a value within the range of `i64`.
pub open spec fn spec_parse_i64(s: Seq<u8>) -> Option<i64> {
    if s.len() > 0 && s[0] == 45 {
        let d = s.drop_first();
        if d.len() > 0 && all_digits(d) && -digits_value(d) >= i64::MIN {
            Some((-digits_value(d)) as i64)
        } else {
            None
        }
    } else {
        let d = if s.len() > 0 && s[0] == 43 {
            s.drop_first()
        } else {
            s
        };
        if d.len() > 0 && all_digits(d) && digits_value(d) <= i64::MAX {
            Some(digits_value(d) as i64)
        } else {
            None
        }
    }
}

proof fn lemma_digits_value_nonneg(s: Seq<u8>)
    requires
        all_digits(s),
    ensures
        digits_value(s) >= 0,
    decreases s.len(),
{
    if s.len() > 0 {
        assert(all_digits(s.drop_last()));
        lemma_digits_value_nonneg(s.drop_last());
        assert(digits_value(s.drop_last()) * 10 >= 0) by (nonlinear_arith)
            requires
                digits_value(s.drop_last()) >= 0,
        ;
    }
}

/// The value of a digit string is at least the value of any of its prefixes.
proof fn lemma_digits_value_prefix(s: Seq<u8>, k: int)
    requires
        all_digits(s),
        0 <= k <= s.len(),
    ensures
        digits_value(s.subrange(0, k)) <= digits_value(s),
    decreases s.len() - k,
{
    if k < s.len() {
        let p = s.subrange(0, k);
        let q = s.subrange(0, k + 1);
        assert(q.drop_last() =~= p);
        assert(all_digits(q));
        lemma_digits_value_nonneg(p);
        assert(digits_value(p) <= digits_value(p) * 10) by (nonlinear_arith)
            requires
                digits_value(p) >= 0,
        ;
        assert(digits_value(p) <= digits_value(q));
        lemma_digits_value_prefix(s, k + 1);
        assert(s.subrange(0, s.len() as int) =~= s);
    } else {
        assert(s.subrange(0, k) =~= s);
    }
}

/// Parses the digit run of a literal, accumulating the magnitude with the
/// sign already applied, so that `i64::MIN` is reachable.
fn parse_digits(d: &[u8], negative: bool) -> (r: Option<i64>)
    ensures
        r == (if d@.len() > 0 && all_digits(d@) {
            if negative {
                if -digits_value(d@) >= i64::MIN {
                    Some((-digits_value(d@)) as i64)
                } else {
                    None::<i64>
                }
            } else {
                if digits_value(d@) <= i64::MAX {
                    Some(digits_value(d@) as i64)
                } else {
                    None::<i64>
                }
            }
        } else {
            None::<i64>
        }),
{
    let n = d.len();
    if n == 0 {
        return None;
    }
    let mut acc: i64 = 0;
    let mut j: usize = 0;
    while j < n
        invariant
            j <= n,
            n == d@.len(),
            n > 0,
            all_digits(d@.subrange(0, j as int)),
            negative ==> acc == -digits_value(d@.subrange(0, j as int)),
            !negative ==> acc == digits_value(d@.subrange(0, j as int)),
        decreases n - j,
    {
        let b = d[j];
        if b < 48 || 57 < b {
            return None;
        }
        let dig = (b - 48) as i64;
        proof {
            assert(d@.subrange(0, j + 1).drop_last() =~= d@.subrange(0, j as int));
        }
        let overflowed: bool;
        match acc.checked_mul(10) {
            Some(m) => {
                let step = if negative {
                    m.checked_sub(dig)
                } else {
                    m.checked_add(dig)
                };
                match step {
                    Some(v) => {
                        acc = v;
                        overflowed = false;
                    },
                    None => {
                        overflowed = true;
                    },
                }
            },
            None => {
                overflowed = true;
            },
        }
        if overflowed {
            proof {
                let p = d@.subrange(0, j + 1);
                lemma_digits_value_nonneg(d@.subrange(0, j as int));
                if all_digits(d@) {
                    lemma_digits_value_prefix(d@, j + 1);
                    lemma_digits_value_nonneg(d@);
                    if negative {
                        assert(-digits_value(d@) < i64::MIN);
                    } else {
                        assert(digits_value(d@) > i64::MAX);
                    }
                }
            }
            return None;
        }
        j += 1;
    }
    proof {
        assert(d@.subrange(0, n as int) =~= d@);
    }
    Some(acc)
}

/// Parses a signed decimal literal, with the exact grammar and range of
/// `str::parse::<i64>`.
pub fn parse_i64(s: &[u8]) -> (r: Option<i64>)
    ensures
        r == spec_parse_i64(s@),
{
    if s.len() == 0 {
        return None;
    }
    let first = s[0];
    if first == 45 || first == 43 {
        let mut rest: Vec<u8> = Vec::new();
        let n = s.len();
        let mut i: usize = 1;
        while i < n
            invariant
                1 <= i <= n,
                n == s@.len(),
                rest@ == s@.subrange(1, i as int),
            decreases n - i,
        {
            rest.push(s[i]);
            proof {
                assert(s@.subrange(1, i + 1) =~= s@.subrange(1, i as int).push(s@[i as int]));
            }
            i += 1;
        }
        proof {
            assert(s@.subrange(1, n as int) =~= s@.drop_first());
        }
        parse_digits(rest.as_slice(), first == 45)
    } else {
        parse_digits(s, false)
    }
}

/// The segments of a byte string split on commas; splitting an empty string
/// yields one empty segment, as `str::split` does.
pub open spec fn split_commas(s: Seq<u8>) -> Seq<Seq<u8>>
    decreases s.len(),
{
    if s.len() == 0 {
        seq![Seq::<u8>::empty()]
    } else if s.last() == 44 {
        split_commas(s.drop_last()).push(Seq::<u8>::empty())
    } else {
        let r = split_commas(s.drop_last());
        r.update(r.len() - 1, r.last().push(s.last()))
    }
}

/// The ids collected from a sequence of segments: every segment that is a
/// well-formed decimal literal contributes its value, the rest are skipped.
pub open spec fn ids_in_segments(segs: Seq<Seq<u8>>) -> Set<i64>
    decreases segs.len(),
{
    if segs.len() == 0 {
        Set::empty()
    } else {
        let r = ids_in_segments(segs.drop_last());
        match spec_parse_i64(segs.last()) {
            Some(v) => r.insert(v),
            None => r,
        }
    }
}

/// The set of member ids denoted by a comma-separated list.
pub open spec fn parsed_id_set(s: Seq<u8>) -> Set<i64> {
    ids_in_segments(split_commas(s))
}

/// Splits a form field on commas and parses each piece as a player id,
/// silently skipping pieces that are not well-formed decimal literals.
pub fn parse_member_ids(s: &str) -> (r: HashSet<i64>)
    ensures
        r@ == parsed_id_set(s.spec_bytes()),
{
    let bytes = s.as_bytes();
    let mut ids: HashSet<i64> = HashSet::new();
    let mut cur: Vec<u8> = Vec::new();
    let ghost mut done: Seq<Seq<u8>> = Seq::empty();
    let n = bytes.len();
    let mut i: usize = 0;
    while i < n
        invariant
            i <= n,
            n == bytes@.len(),
            ids@ == ids_in_segments(done),
            split_commas(bytes@.subrange(0, i as int)) == done.push(cur@),
        decreases n - i,
    {
        let b = bytes[i];
        proof {
            assert(bytes@.subrange(0, i + 1).drop_last() =~= bytes@.subrange(0, i as int));
        }
        if b == 44 {
            match parse_i64(cur.as_slice()) {
                Some(v) => {
                    ids.insert(v);
                },
                None => {},
            }
            proof {
                let next = done.push(cur@);
                assert(next.drop_last() =~= done);
                assert(next.last() == cur@);
                done = next;
            }
            cur = Vec::new();
            proof {
                assert(split_commas(bytes@.subrange(0, i + 1)) =~= done.push(cur@));
            }
        } else {
            let ghost old_cur = cur@;
            cur.push(b);
            proof {
                let prev = done.push(old_cur);
                let next = split_commas(bytes@.subrange(0, i + 1));
                assert(next =~= prev.update(prev.len() - 1, prev.last().push(b)));
                assert(prev.update(prev.len() - 1, old_cur.push(b)) =~= done.push(cur@));
            }
        }
        i += 1;
    }
    match parse_i64(cur.as_slice()) {
        Some(v) => {
            ids.insert(v);
        },
        None => {},
    }
    proof {
        assert(bytes@.subrange(0, n as int) =~= bytes@);
        let full = done.push(cur@);
        assert(full.drop_last() =~= done);
    }
    ids
}

} // verus!
