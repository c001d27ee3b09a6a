//! Parsing of `application/x-www-form-urlencoded` data.
//!
//! A form (or a query string) is a `&`-separated list of segments; each
//! non-empty segment is a `key=value` pair (a segment without `=` is a key
//! with an empty value), and both sides are percent-decoded: `+` becomes a
//! space and `%XY` with two hexadecimal digits becomes the byte `0xXY`.  An
//! invalid percent escape is kept literally.

use vstd::prelude::*;

verus! {

/// `&`, the separator between pairs.
pub const AMPERSAND: u8 = 38;

/// `=`, the separator between a key and its value.
pub const EQUALS_SIGN: u8 = 61;

/// `+`, which decodes to a space.
pub const PLUS_SIGN: u8 = 43;

/// `%`, which starts a two-digit escape.
pub const PERCENT_SIGN: u8 = 37;

/// The space character that `+` decodes to.
pub const SPACE: u8 = 32;

/// The byte is an ASCII hexadecimal digit.
pub open spec fn is_hex_digit(b: u8) -> bool {
    (48 <= b <= 57) || (65 <= b <= 70) || (97 <= b <= 102)
}

/// Numeric value of an ASCII hexadecimal digit.
pub open spec fn hex_val(b: u8) -> u8 {
    if 48 <= b <= 57 {
        (b - 48) as u8
    } else if 65 <= b <= 70 {
        (b - 55) as u8
    } else {
        (b - 87) as u8
    }
}

/// Percent-decoding of one key or value: `+` becomes a space, a valid
/// `%XY` escape becomes its byte, and anything else is kept as it is.
pub open spec fn pct_decode(s: Seq<u8>) -> Seq<u8>
    decreases s.len(),
{
    if s.len() == 0 {
        Seq::empty()
    } else if s[0] == PLUS_SIGN {
        seq![SPACE] + pct_decode(s.skip(1))
    } else if s[0] == PERCENT_SIGN && s.len() >= 3 && is_hex_digit(s[1]) && is_hex_digit(s[2]) {
        seq![(16 * hex_val(s[1]) + hex_val(s[2])) as u8] + pct_decode(s.skip(3))
    } else {
        seq![s[0]] + pct_decode(s.skip(1))
    }
}

/// Index of the first occurrence of `c` in `s`, or `s.len()` if absent.
pub open spec fn first_at(s: Seq<u8>, c: u8) -> int
    decreases s.len(),
{
    if s.len() == 0 {
        0
    } else if s[0] == c {
        0
    } else {
        1 + first_at(s.skip(1), c)
    }
}

/// `first_at` lands in bounds, points at `c`, and nothing before it is `c`.
pub proof fn lemma_first_at_bounds(s: Seq<u8>, c: u8)
    ensures
        0 <= first_at(s, c) <= s.len(),
        first_at(s, c) < s.len() ==> s[first_at(s, c)] == c,
        forall|k: int| 0 <= k < first_at(s, c) ==> s[k] != c,
    decreases s.len(),
{
    if s.len() == 0 {
    } else if s[0] == c {
    } else {
        lemma_first_at_bounds(s.skip(1), c);
        assert forall|k: int| 0 <= k < first_at(s, c) implies s[k] != c by {
            if k > 0 {
                assert(s.skip(1)[k - 1] == s[k]);
            }
        }
    }
}

/// An index that points at `c` with no earlier `c` is `first_at`.
pub proof fn lemma_first_at_is(s: Seq<u8>, c: u8, i: int)
    requires
        0 <= i <= s.len(),
        i < s.len() ==> s[i] == c,
        forall|k: int| 0 <= k < i ==> s[k] != c,
    ensures
        first_at(s, c) == i,
    decreases s.len(),
{
    if s.len() == 0 {
    } else if s[0] == c {
    } else {
        assert forall|k: int| 0 <= k < i - 1 implies s.skip(1)[k] != c by {
            assert(s.skip(1)[k] == s[k + 1]);
        }
        if i - 1 < s.skip(1).len() {
            assert(s.skip(1)[i - 1] == s[i]);
        }
        lemma_first_at_is(s.skip(1), c, i - 1);
    }
}

/// The decoded `(key, value)` pair of one non-empty segment.
pub open spec fn pair_of(seg: Seq<u8>) -> (Seq<u8>, Seq<u8>) {
    let i = first_at(seg, EQUALS_SIGN);
    if i == seg.len() {
        (pct_decode(seg), Seq::empty())
    } else {
        (pct_decode(seg.take(i)), pct_decode(seg.skip(i + 1)))
    }
}

/// The decoded pairs of a whole form: split on `&`, drop empty segments,
/// and decode each remaining segment as a `key=value` pair.
pub open spec fn form_pairs(s: Seq<u8>) -> Seq<(Seq<u8>, Seq<u8>)>
    decreases s.len(),
    via form_pairs_decreases
{
    let i = first_at(s, AMPERSAND);
    let rest = if i == s.len() {
        Seq::empty()
    } else {
        form_pairs(s.skip(i + 1))
    };
    if i == 0 {
        rest
    } else {
        seq![pair_of(s.take(i))] + rest
    }
}

#[via_fn]
proof fn form_pairs_decreases(s: Seq<u8>) {
    lemma_first_at_bounds(s, AMPERSAND);
}

/// The byte sequences behind a vector of parsed pairs.
pub open spec fn pairs_view(ps: Seq<(Vec<u8>, Vec<u8>)>) -> Seq<(Seq<u8>, Seq<u8>)> {
    ps.map_values(|p: (Vec<u8>, Vec<u8>)| (p.0@, p.1@))
}

/// The values of all pairs whose key is `key`, in order.
pub open spec fn values_for(pairs: Seq<(Seq<u8>, Seq<u8>)>, key: Seq<u8>) -> Seq<Seq<u8>>
    decreases pairs.len(),
{
    if pairs.len() == 0 {
        Seq::empty()
    } else {
        let front = values_for(pairs.drop_last(), key);
        if pairs.last().0 == key {
            front.push(pairs.last().1)
        } else {
            front
        }
    }
}

/// A prefix never holds more values for a key than the whole sequence.
pub proof fn lemma_values_for_prefix(pairs: Seq<(Seq<u8>, Seq<u8>)>, key: Seq<u8>, j: int)
    requires
        0 <= j <= pairs.len(),
    ensures
        values_for(pairs.take(j), key).len() <= values_for(pairs, key).len(),
    decreases pairs.len(),
{
    if j == pairs.len() {
        assert(pairs.take(j) =~= pairs);
    } else {
        assert(pairs.drop_last().take(j) =~= pairs.take(j));
        lemma_values_for_prefix(pairs.drop_last(), key, j);
    }
}

/// Whether the byte is an ASCII hexadecimal digit.
fn hex_digit(b: u8) -> (r: bool)
    ensures
        r == is_hex_digit(b),
{
    (48 <= b && b <= 57) || (65 <= b && b <= 70) || (97 <= b && b <= 102)
}

/// Numeric value of an ASCII hexadecimal digit.
fn hex_value(b: u8) -> (r: u8)
    requires
        is_hex_digit(b),
    ensures
        r == hex_val(b),
        r < 16,
{
    if 48 <= b && b <= 57 {
        b - 48
    } else if 65 <= b && b <= 70 {
        b - 55
    } else {
        b - 87
    }
}

/// Percent-decode one key or value.
pub fn decode_component(s: &[u8]) -> (r: Vec<u8>)
    ensures
        r@ == pct_decode(s@),
{
    let mut out: Vec<u8> = Vec::new();
    let mut i: usize = 0;
    proof {
        assert(s@.skip(0) =~= s@);
        assert(out@ + pct_decode(s@) =~= pct_decode(s@));
    }
    while i < s.len()
        invariant
            i <= s@.len(),
            pct_decode(s@) == out@ + pct_decode(s@.skip(i as int)),
        decreases s@.len() - i,
    {
        let b = *vstd::slice::slice_index_get(s, i);
        proof {
            assert(s@.skip(i as int)[0] == s@[i as int]);
        }
        if b == PLUS_SIGN {
            out.push(SPACE);
            proof {
                assert(s@.skip(i as int).skip(1) =~= s@.skip(i as int + 1));
            }
            i = i + 1;
        } else if b == PERCENT_SIGN && s.len() - i >= 3 && hex_digit(*vstd::slice::slice_index_get(s, i + 1))
            && hex_digit(*vstd::slice::slice_index_get(s, i + 2)) {
            let hi = hex_value(*vstd::slice::slice_index_get(s, i + 1));
            let lo = hex_value(*vstd::slice::slice_index_get(s, i + 2));
            out.push(16 * hi + lo);
            proof {
                assert(s@.skip(i as int)[1] == s@[i as int + 1]);
                assert(s@.skip(i as int)[2] == s@[i as int + 2]);
                assert(s@.skip(i as int).skip(3) =~= s@.skip(i as int + 3));
            }
            i = i + 3;
        } else {
            out.push(b);
            proof {
                if b == PERCENT_SIGN {
                    if s@.skip(i as int).len() >= 3 {
                        assert(s@.skip(i as int)[1] == s@[i as int + 1]);
                        assert(s@.skip(i as int)[2] == s@[i as int + 2]);
                    }
                }
                assert(s@.skip(i as int).skip(1) =~= s@.skip(i as int + 1));
            }
            i = i + 1;
        }
    }
    proof {
        assert(s@.skip(s@.len() as int) =~= Seq::<u8>::empty());
        assert(out@ =~= pct_decode(s@));
    }
    out
}

/// Index of the first occurrence of `c` in `s` at or after `from`,
/// or `s.len()` if there is none.
fn find_byte(s: &[u8], from: usize, c: u8) -> (r: usize)
    requires
        from <= s@.len(),
    ensures
        from <= r <= s@.len(),
        forall|k: int| from <= k < r ==> s@[k] != c,
        r < s@.len() ==> s@[r as int] == c,
{
    let mut i: usize = from;
    while i < s.len()
        invariant
            from <= i <= s@.len(),
            forall|k: int| from <= k < i ==> s@[k] != c,
        decreases s@.len() - i,
    {
        if *vstd::slice::slice_index_get(s, i) == c {
            return i;
        }
        i = i + 1;
    }
    i
}

/// Whether two byte slices hold the same bytes.
pub fn bytes_eq(a: &[u8], b: &[u8]) -> (r: bool)
    ensures
        r == (a@ == b@),
{
    if a.len() != b.len() {
        return false;
    }
    let mut i: usize = 0;
    while i < a.len()
        invariant
            a@.len() == b@.len(),
            i <= a@.len(),
            forall|k: int| 0 <= k < i ==> a@[k] == b@[k],
        decreases a@.len() - i,
    {
        if *vstd::slice::slice_index_get(a, i) != *vstd::slice::slice_index_get(b, i) {
            return false;
        }
        i = i + 1;
    }
    proof {
        assert(a@ =~= b@);
    }
    true
}

/// Parse a whole form or query string into its decoded pairs.
pub fn parse_form(input: &[u8]) -> (pairs: Vec<(Vec<u8>, Vec<u8>)>)
    ensures
        pairs_view(pairs@) == form_pairs(input@),
{
    let mut out: Vec<(Vec<u8>, Vec<u8>)> = Vec::new();
    let mut pos: usize = 0;
    proof {
        assert(input@.skip(0) =~= input@);
        assert(pairs_view(out@) + form_pairs(input@) =~= form_pairs(input@));
    }
    while pos < input.len()
        invariant
            pos <= input@.len(),
            form_pairs(input@) == pairs_view(out@) + form_pairs(input@.skip(pos as int)),
        decreases input@.len() - pos,
    {
        let ghost tail = input@.skip(pos as int);
        let e = find_byte(input, pos, AMPERSAND);
        proof {
            assert forall|k: int| 0 <= k < e - pos implies tail[k] != AMPERSAND by {
                assert(tail[k] == input@[pos + k]);
            }
            if e - pos < tail.len() {
                assert(tail[e - pos] == input@[e as int]);
            }
            lemma_first_at_is(tail, AMPERSAND, e - pos);
        }
        if e == pos {
            // Empty segment: only the separator is consumed.
            proof {
                assert(tail.skip(1) =~= input@.skip(pos as int + 1));
            }
            pos = pos + 1;
        } else {
            let seg = vstd::slice::slice_subrange(input, pos, e);
            let m = find_byte(seg, 0, EQUALS_SIGN);
            proof {
                lemma_first_at_is(seg@, EQUALS_SIGN, m as int);
            }
            let key = decode_component(vstd::slice::slice_subrange(seg, 0, m));
            let value = if m == seg.len() {
                Vec::new()
            } else {
                decode_component(vstd::slice::slice_subrange(seg, m + 1, seg.len()))
            };
            proof {
                assert(seg@ =~= tail.take(e - pos));
                assert(seg@.take(m as int) =~= seg@.subrange(0, m as int));
                if m as int == seg@.len() {
                    assert(seg@.subrange(0, m as int) =~= seg@);
                }
                if (m as int) < seg@.len() {
                    assert(seg@.skip(m as int + 1) =~= seg@.subrange(m as int + 1, seg@.len() as int));
                }
                assert(pair_of(seg@) == (key@, value@));
            }
            let ghost prev = out@;
            out.push((key, value));
            proof {
                assert(pairs_view(out@) =~= pairs_view(prev).push((key@, value@)));
                if e < input@.len() {
                    assert(tail.skip(e - pos + 1) =~= input@.skip(e + 1));
                } else {
                    assert(tail.skip(e - pos) =~= input@.skip(e as int));
                    assert(input@.skip(e as int) =~= Seq::<u8>::empty());
                }
                assert(form_pairs(input@) == pairs_view(out@) + form_pairs(
                    input@.skip(if e < input@.len() { e + 1 } else { e as int }),
                ));
            }
            pos = if e == input.len() {
                e
            } else {
                e + 1
            };
        }
    }
    proof {
        assert(input@.skip(input@.len() as int) =~= Seq::<u8>::empty());
        assert(form_pairs(input@) =~= pairs_view(out@));
    }
    out
}

/// Look a key up among parsed pairs: `None` for a repeated key,
/// `Some(None)` for an absent one, and `Some(Some(v))` for exactly one
/// occurrence with value `v`.
pub fn find_unique(pairs: &Vec<(Vec<u8>, Vec<u8>)>, key: &[u8]) -> (r: Option<Option<Vec<u8>>>)
    ensures
        match r {
            None => values_for(pairs_view(pairs@), key@).len() >= 2,
            Some(None) => values_for(pairs_view(pairs@), key@).len() == 0,
            Some(Some(v)) => values_for(pairs_view(pairs@), key@) == seq![v@],
        },
{
    let ghost pv = pairs_view(pairs@);
    let mut found: Option<Vec<u8>> = None;
    let mut i: usize = 0;
    proof {
        assert(pv.take(0) =~= Seq::<(Seq<u8>, Seq<u8>)>::empty());
    }
    while i < pairs.len()
        invariant
            i <= pairs@.len(),
            pv == pairs_view(pairs@),
            found is None ==> values_for(pv.take(i as int), key@).len() == 0,
            found matches Some(v) ==> values_for(pv.take(i as int), key@) == seq![v@],
        decreases pairs@.len() - i,
    {
        proof {
            assert(pv.take(i as int + 1).drop_last() =~= pv.take(i as int));
            assert(pv.take(i as int + 1).last() == (pairs@[i as int].0@, pairs@[i as int].1@));
        }
        if bytes_eq(pairs[i].0.as_slice(), key) {
            if found.is_some() {
                proof {
                    lemma_values_for_prefix(pv, key@, i as int + 1);
                }
                return None;
            }
            found = Some(vstd::slice::slice_to_vec(pairs[i].1.as_slice()));
        }
        i = i + 1;
    }
    proof {
        assert(pv.take(pairs@.len() as int) =~= pv);
    }
    match found {
        None => Some(None),
        Some(v) => Some(Some(v)),
    }
}

} // verus!
