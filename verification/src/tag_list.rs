//! The compact key/value tag encoding and its codec.
//!
//! A tag list is stored as a byte range holding zero or more key/value
//! string pairs: each string is UTF-8 bytes terminated by a single NUL byte,
//! a pair is `key NUL value NUL`, and pairs repeat until the range's end. No
//! pair count is stored; the boundary is external. A pair whose key or value
//! is not valid UTF-8 is dropped — only that pair — and decoding continues
//! with the next pair.

use vstd::prelude::*;
use vstd::slice::slice_subrange;
use vstd::string::StringSliceAdditionalSpecFns;
use vstd::utf8::{decode_utf8, encode_utf8_decode_utf8, encode_utf8_valid_utf8, valid_utf8};

use crate::wire::append_bytes;

verus! {

/// The index of the first NUL byte at or after `o`, or `s.len()` when the
/// rest of the range holds none.
pub open spec fn find_nul(s: Seq<u8>, o: int) -> int
    decreases s.len() - o when 0 <= o
{
    if o >= s.len() {
        s.len() as int
    } else if s[o] == 0 {
        o
    } else {
        find_nul(s, o + 1)
    }
}

/// What [`find_nul`] returns: the nearest NUL position, within bounds, with
/// no NUL before it.
pub proof fn lemma_find_nul(s: Seq<u8>, o: int)
    requires
        0 <= o <= s.len(),
    ensures
        o <= find_nul(s, o) <= s.len(),
        find_nul(s, o) < s.len() ==> s[find_nul(s, o)] == 0,
        forall|i: int| o <= i < find_nul(s, o) ==> s[i] != 0,
    decreases s.len() - o,
{
    if o < s.len() && s[o] != 0 {
        lemma_find_nul(s, o + 1);
    }
}

/// [`find_nul`] finds a NUL known to be first in its range.
proof fn lemma_find_nul_value(s: Seq<u8>, o: int, e: int)
    requires
        0 <= o <= e < s.len(),
        s[e] == 0,
        forall|i: int| o <= i < e ==> s[i] != 0,
    ensures
        find_nul(s, o) == e,
    decreases e - o,
{
    if o < e {
        lemma_find_nul_value(s, o + 1, e);
    }
}

/// The raw key/value byte pairs encoded from offset `o` on: each string runs
/// to the next NUL, and pairs repeat while both terminators lie within the
/// range. A trailing fragment without both terminators encodes no pair.
pub open spec fn raw_pairs_from(s: Seq<u8>, o: int) -> Seq<(Seq<u8>, Seq<u8>)>
    decreases s.len() - o when 0 <= o <= s.len() via raw_pairs_from_decreases
{
    if o < s.len() {
        let key_end = find_nul(s, o);
        if key_end < s.len() {
            let value_end = find_nul(s, key_end + 1);
            if value_end < s.len() {
                seq![(s.subrange(o, key_end), s.subrange(key_end + 1, value_end))] + raw_pairs_from(
                    s,
                    value_end + 1,
                )
            } else {
                Seq::empty()
            }
        } else {
            Seq::empty()
        }
    } else {
        Seq::empty()
    }
}

#[via_fn]
proof fn raw_pairs_from_decreases(s: Seq<u8>, o: int) {
    if 0 <= o && o < s.len() {
        lemma_find_nul(s, o);
        let key_end = find_nul(s, o);
        if key_end < s.len() {
            lemma_find_nul(s, key_end + 1);
        }
    }
}

/// Decodes raw byte pairs to string pairs: a pair is kept exactly when both
/// its key and its value are valid UTF-8; any other pair is dropped.
pub open spec fn decode_pairs(ps: Seq<(Seq<u8>, Seq<u8>)>) -> Seq<(Seq<char>, Seq<char>)>
    decreases ps.len(),
{
    if ps.len() == 0 {
        Seq::empty()
    } else {
        let rest = decode_pairs(ps.drop_first());
        if valid_utf8(ps[0].0) && valid_utf8(ps[0].1) {
            seq![(decode_utf8(ps[0].0), decode_utf8(ps[0].1))] + rest
        } else {
            rest
        }
    }
}

/// The key/value string pairs a tag byte range holds, in order.
pub open spec fn tags_of(s: Seq<u8>) -> Seq<(Seq<char>, Seq<char>)> {
    decode_pairs(raw_pairs_from(s, 0))
}

/// First-match lookup among decoded pairs: tag lists are not guaranteed
/// sorted or deduplicated, so the first matching key wins.
pub open spec fn lookup(ps: Seq<(Seq<char>, Seq<char>)>, key: Seq<char>) -> Option<Seq<char>>
    decreases ps.len(),
{
    if ps.len() == 0 {
        None
    } else if ps[0].0 == key {
        Some(ps[0].1)
    } else {
        lookup(ps.drop_first(), key)
    }
}

/// From offset `o` to the end, the bytes are a whole number of complete
/// `key NUL value NUL` pairs: what the owned encoder maintains.
pub open spec fn wf_pairs_from(s: Seq<u8>, o: int) -> bool
    decreases s.len() - o when 0 <= o <= s.len() via wf_pairs_from_decreases
{
    if o == s.len() {
        true
    } else {
        let key_end = find_nul(s, o);
        if key_end < s.len() {
            let value_end = find_nul(s, key_end + 1);
            if value_end < s.len() {
                wf_pairs_from(s, value_end + 1)
            } else {
                false
            }
        } else {
            false
        }
    }
}

#[via_fn]
proof fn wf_pairs_from_decreases(s: Seq<u8>, o: int) {
    if 0 <= o && o < s.len() {
        lemma_find_nul(s, o);
        let key_end = find_nul(s, o);
        if key_end < s.len() {
            lemma_find_nul(s, key_end + 1);
        }
    }
}

/// How many raw pairs encoded from offset `o` on are dropped by decoding:
/// those with invalid UTF-8 on either side.
pub open spec fn dropped_from(s: Seq<u8>, o: int) -> int {
    raw_pairs_from(s, o).len() - decode_pairs(raw_pairs_from(s, o)).len()
}

/// Decoding never yields more pairs than were encoded.
proof fn lemma_decode_pairs_len(ps: Seq<(Seq<u8>, Seq<u8>)>)
    ensures
        decode_pairs(ps).len() <= ps.len(),
    decreases ps.len(),
{
    if ps.len() > 0 {
        lemma_decode_pairs_len(ps.drop_first());
    }
}

/// Each encoded pair takes at least two bytes, so a range holds at most half
/// its length in pairs.
proof fn lemma_raw_pairs_bound(s: Seq<u8>, o: int)
    requires
        0 <= o <= s.len(),
    ensures
        2 * raw_pairs_from(s, o).len() <= s.len() - o,
    decreases s.len() - o,
{
    if o < s.len() {
        lemma_find_nul(s, o);
        let key_end = find_nul(s, o);
        if key_end < s.len() {
            lemma_find_nul(s, key_end + 1);
            let value_end = find_nul(s, key_end + 1);
            if value_end < s.len() {
                lemma_raw_pairs_bound(s, value_end + 1);
            }
        }
    }
}

/// Splitting off the leading pair of a raw byte range.
proof fn lemma_decode_pairs_cons(p: (Seq<u8>, Seq<u8>), rest: Seq<(Seq<u8>, Seq<u8>)>)
    ensures
        decode_pairs(seq![p] + rest) == if valid_utf8(p.0) && valid_utf8(p.1) {
            seq![(decode_utf8(p.0), decode_utf8(p.1))] + decode_pairs(rest)
        } else {
            decode_pairs(rest)
        },
{
    let ps = seq![p] + rest;
    assert(ps[0] == p);
    assert(ps.drop_first() =~= rest);
}

/// Appending one raw pair appends its decoding (or nothing, when the pair
/// holds invalid UTF-8).
proof fn lemma_decode_pairs_push(ps: Seq<(Seq<u8>, Seq<u8>)>, p: (Seq<u8>, Seq<u8>))
    ensures
        decode_pairs(ps.push(p)) == if valid_utf8(p.0) && valid_utf8(p.1) {
            decode_pairs(ps).push((decode_utf8(p.0), decode_utf8(p.1)))
        } else {
            decode_pairs(ps)
        },
    decreases ps.len(),
{
    if ps.len() == 0 {
        assert(ps.push(p)[0] == p);
        assert(ps.push(p).drop_first() =~= Seq::<(Seq<u8>, Seq<u8>)>::empty());
        assert(decode_pairs(Seq::<(Seq<u8>, Seq<u8>)>::empty()) == Seq::<(
            Seq<char>,
            Seq<char>,
        )>::empty());
        if valid_utf8(p.0) && valid_utf8(p.1) {
            assert(decode_pairs(ps.push(p)) =~= decode_pairs(ps).push(
                (decode_utf8(p.0), decode_utf8(p.1)),
            ));
        } else {
            assert(decode_pairs(ps.push(p)) =~= decode_pairs(ps));
        }
    } else {
        assert(ps.push(p)[0] == ps[0]);
        assert(ps.push(p).drop_first() =~= ps.drop_first().push(p));
        lemma_decode_pairs_push(ps.drop_first(), p);
        if valid_utf8(p.0) && valid_utf8(p.1) {
            assert(decode_pairs(ps.push(p)) =~= decode_pairs(ps).push(
                (decode_utf8(p.0), decode_utf8(p.1)),
            ));
        } else {
            assert(decode_pairs(ps.push(p)) =~= decode_pairs(ps));
        }
    }
}

/// Appending one complete `key NUL value NUL` pair to a byte range made of
/// complete pairs appends exactly that raw pair to the encoded list.
pub proof fn lemma_pairs_append(s: Seq<u8>, k: Seq<u8>, v: Seq<u8>, o: int)
    requires
        0 <= o <= s.len(),
        wf_pairs_from(s, o),
        !k.contains(0u8),
        !v.contains(0u8),
    ensures
        wf_pairs_from(s + k + seq![0u8] + v + seq![0u8], o),
        raw_pairs_from(s + k + seq![0u8] + v + seq![0u8], o) == raw_pairs_from(s, o).push((k, v)),
    decreases s.len() - o,
{
    let t = s + k + seq![0u8] + v + seq![0u8];
    if o == s.len() {
        let key_end = o + k.len();
        let value_end = key_end + 1 + v.len();
        assert(t[key_end] == 0);
        assert(t[value_end] == 0);
        assert forall|i: int| o <= i < key_end implies t[i] != 0 by {
            assert(t[i] == k[i - o]);
            assert(k.contains(k[i - o]) || k[i - o] != 0) by {
                if k[i - o] == 0 {
                    assert(k.contains(0u8));
                }
            }
        }
        assert forall|i: int| key_end + 1 <= i < value_end implies t[i] != 0 by {
            assert(t[i] == v[i - (key_end + 1)]);
            if v[i - (key_end + 1)] == 0 {
                assert(v.contains(0u8));
            }
        }
        lemma_find_nul_value(t, o, key_end);
        lemma_find_nul_value(t, key_end + 1, value_end);
        assert(value_end + 1 == t.len());
        assert(t.subrange(o, key_end) =~= k);
        assert(t.subrange(key_end + 1, value_end) =~= v);
        assert(wf_pairs_from(t, t.len() as int));
        assert(raw_pairs_from(t, t.len() as int) =~= Seq::<(Seq<u8>, Seq<u8>)>::empty());
        assert(raw_pairs_from(s, o) =~= Seq::<(Seq<u8>, Seq<u8>)>::empty());
        assert(raw_pairs_from(t, o) =~= raw_pairs_from(s, o).push((k, v)));
    } else {
        let key_end = find_nul(s, o);
        lemma_find_nul(s, o);
        assert(key_end < s.len());
        let value_end = find_nul(s, key_end + 1);
        lemma_find_nul(s, key_end + 1);
        assert(value_end < s.len());
        lemma_find_nul_value(t, o, key_end);
        lemma_find_nul_value(t, key_end + 1, value_end);
        assert(t.subrange(o, key_end) =~= s.subrange(o, key_end));
        assert(t.subrange(key_end + 1, value_end) =~= s.subrange(key_end + 1, value_end));
        lemma_pairs_append(s, k, v, value_end + 1);
        assert(raw_pairs_from(t, o) =~= raw_pairs_from(s, o).push((k, v)));
    }
}

/// Relies on `core::str::from_utf8`: it succeeds exactly on valid UTF-8 and
/// yields the characters those bytes encode; the result is copied into an
/// owned string.
#[verifier::external_body]
fn utf8_to_string(bytes: &[u8]) -> (r: Option<String>)
    ensures
        match r {
            Some(s) => valid_utf8(bytes@) && s@ == decode_utf8(bytes@),
            None => !valid_utf8(bytes@),
        },
{
    match core::str::from_utf8(bytes) {
        Ok(s) => Some(s.to_string()),
        Err(_) => None,
    }
}

/// The position of the first NUL byte at or after `from`, or the slice's
/// length when there is none.
fn find_nul_from(s: &[u8], from: usize) -> (r: usize)
    requires
        from <= s@.len(),
    ensures
        r as int == find_nul(s@, from as int),
        from <= r <= s@.len(),
{
    let n: usize = s.len();
    let mut i: usize = from;
    loop
        invariant
            from <= i <= n,
            n == s@.len(),
            find_nul(s@, from as int) == find_nul(s@, i as int),
        decreases n - i,
    {
        if i == n {
            return i;
        }
        if s[i] == 0 {
            return i;
        }
        i = i + 1;
    }
}

/// Whether the bytes contain a NUL.
fn contains_nul(s: &[u8]) -> (r: bool)
    ensures
        r == s@.contains(0u8),
{
    let n: usize = s.len();
    let mut i: usize = 0;
    loop
        invariant
            i <= n,
            n == s@.len(),
            forall|j: int| 0 <= j < i ==> s@[j] != 0,
        decreases n - i,
    {
        if i == n {
            assert(!s@.contains(0u8));
            return false;
        }
        if s[i] == 0 {
            assert(s@.contains(0u8));
            return true;
        }
        i = i + 1;
    }
}

/// Reports whether the bytes are a whole number of complete
/// `key NUL value NUL` pairs.
fn check_pairs(s: &[u8]) -> (r: bool)
    ensures
        r == wf_pairs_from(s@, 0),
{
    let n: usize = s.len();
    let mut o: usize = 0;
    loop
        invariant
            o <= n,
            n == s@.len(),
            wf_pairs_from(s@, 0) <==> wf_pairs_from(s@, o as int),
        decreases n - o,
    {
        if o == n {
            return true;
        }
        let key_end = find_nul_from(s, o);
        if key_end == n {
            return false;
        }
        let value_end = find_nul_from(s, key_end + 1);
        if value_end == n {
            return false;
        }
        o = value_end + 1;
    }
}

/// A string in quotes.
pub open spec fn quoted(s: Seq<char>) -> Seq<char> {
    seq!['"'] + s + seq!['"']
}

/// The map-shaped rendering of the pairs from position `i` on: each entry is
/// the quoted key, a colon, and the quoted value, entries separated by
/// commas. Keys and values are quoted, not escaped.
pub open spec fn tags_debug_from(ps: Seq<(Seq<char>, Seq<char>)>, i: int) -> Seq<char>
    decreases ps.len() - i when 0 <= i
{
    if 0 <= i < ps.len() {
        (if i > 0 {
            seq![',', ' ']
        } else {
            Seq::empty()
        }) + quoted(ps[i].0) + seq![':', ' '] + quoted(ps[i].1) + tags_debug_from(ps, i + 1)
    } else {
        Seq::empty()
    }
}

/// The map-shaped rendering of decoded pairs, in braces.
pub open spec fn tags_debug(ps: Seq<(Seq<char>, Seq<char>)>) -> Seq<char> {
    seq!['{'] + tags_debug_from(ps, 0) + seq!['}']
}

/// Renders decoded pairs as a map-shaped string, for diagnostics: braces
/// around comma-separated `"key": "value"` entries, in order.
pub fn debug(pairs: &Vec<(String, String)>) -> (r: String)
    ensures
        r@ == tags_debug(pairs@.map_values(|p: (String, String)| (p.0@, p.1@))),
{
    proof {
        reveal_strlit("{");
        reveal_strlit("}");
        reveal_strlit(", ");
        reveal_strlit("\"");
        reveal_strlit(": ");
    }
    let ghost ps = pairs@.map_values(|p: (String, String)| (p.0@, p.1@));
    let mut out = String::new();
    out.append("{");
    let n: usize = pairs.len();
    let mut i: usize = 0;
    while i < n
        invariant
            i <= n,
            n == pairs@.len(),
            ps == pairs@.map_values(|p: (String, String)| (p.0@, p.1@)),
            out@ + tags_debug_from(ps, i as int) == seq!['{'] + tags_debug_from(ps, 0),
        decreases n - i,
    {
        proof {
            reveal_strlit("{");
            reveal_strlit(", ");
            reveal_strlit("\"");
            reveal_strlit(": ");
        }
        if i > 0 {
            out.append(", ");
        }
        let kv: &(String, String) = &pairs[i];
        out.append("\"");
        out.append(kv.0.as_str());
        out.append("\"");
        out.append(": ");
        out.append("\"");
        out.append(kv.1.as_str());
        out.append("\"");
        proof {
            assert(ps[i as int] == (kv.0@, kv.1@));
            assert(out@ + tags_debug_from(ps, i + 1) =~= seq!['{'] + tags_debug_from(ps, 0));
        }
        i = i + 1;
    }
    out.append("}");
    proof {
        assert(out@ =~= tags_debug(ps));
    }
    out
}

/// A tag list: a map from tag keys to their values, stored as NUL-terminated
/// key/value string pairs in one byte range. Its view is that byte range.
pub struct TagList {
    /// The raw underlying memory. See the module description for its layout.
    pub bytes: Vec<u8>,
}

impl View for TagList {
    type V = Seq<u8>;

    open spec fn view(&self) -> Seq<u8> {
        self.bytes@
    }
}

impl TagList {
    /// Lookup a key's value: a linear scan; on duplicate keys the first
    /// match wins.
    pub fn get(&self, key: &str) -> (r: Option<String>)
        ensures
            match r {
                Some(v) => lookup(tags_of(self@), key@) == Some(v@),
                None => lookup(tags_of(self@), key@) is None,
            },
    {
        let key_owned: String = key.to_owned();
        let mut it = self.iter();
        loop
            invariant
                key_owned@ == key@,
                lookup(tags_of(self@), key@) == lookup(it.remaining(), key@),
            decreases it.remaining().len(),
        {
            match it.next() {
                None => {
                    return None;
                },
                Some((k, v)) => {
                    if k == key_owned {
                        return Some(v);
                    }
                },
            }
        }
    }

    /// Are there any bytes at all? True iff the range is empty.
    pub fn is_empty(&self) -> (r: bool)
        ensures
            r == (self@.len() == 0),
    {
        self.bytes.is_empty()
    }

    /// Get the raw underlying memory as a slice.
    pub fn as_bytes(&self) -> (r: &[u8])
        ensures
            r@ == self@,
    {
        self.bytes.as_slice()
    }

    /// A lazy, restartable walk over the decoded key/value pairs.
    pub fn iter(&self) -> (r: TagIterator)
        ensures
            r.remaining() == tags_of(self@),
    {
        TagIterator { bytes: self.bytes.as_slice(), current: 0, skipped: 0 }
    }

    /// All decoded key/value pairs, in encoding order, each pair with
    /// invalid UTF-8 dropped.
    pub fn pairs(&self) -> (r: Vec<(String, String)>)
        ensures
            r@.len() == tags_of(self@).len(),
            forall|i: int|
                0 <= i < r@.len() ==> (#[trigger] r@[i].0@, r@[i].1@) == tags_of(self@)[i],
    {
        let mut it = self.iter();
        collect_pairs(&mut it)
    }

    /// Renders the decoded pairs as a map-shaped string, for diagnostics.
    pub fn debug_string(&self) -> (r: String)
        ensures
            r@ == tags_debug(tags_of(self@)),
    {
        let pairs = self.pairs();
        proof {
            assert(pairs@.map_values(|p: (String, String)| (p.0@, p.1@)) =~= tags_of(self@));
        }
        debug(&pairs)
    }
}

/// Drains an iterator into a vector of decoded pairs.
fn collect_pairs(it: &mut TagIterator) -> (r: Vec<(String, String)>)
    ensures
        r@.len() == old(it).remaining().len(),
        forall|i: int|
            0 <= i < r@.len() ==> (#[trigger] r@[i].0@, r@[i].1@) == old(it).remaining()[i],
        final(it).remaining().len() == 0,
{
    let mut out: Vec<(String, String)> = Vec::new();
    loop
        invariant
            out@.len() + it.remaining().len() == old(it).remaining().len(),
            forall|i: int|
                0 <= i < out@.len() ==> (#[trigger] out@[i].0@, out@[i].1@) == old(
                    it,
                ).remaining()[i],
            it.remaining() == old(it).remaining().skip(out@.len() as int),
        decreases it.remaining().len(),
    {
        let ghost done = out@.len() as int;
        match it.next() {
            None => {
                return out;
            },
            Some((k, v)) => {
                proof {
                    assert(it.remaining() =~= old(it).remaining().skip(done + 1));
                }
                out.push((k, v));
            },
        }
    }
}

/// Iterator over a tag range's key/value pairs.
///
/// The iterator holds cursor state over the byte range and converts each
/// NUL-terminated string pair into owned strings. A pair that does not hold
/// valid UTF-8 is skipped and counted in [`skipped`](TagIterator::skipped).
pub struct TagIterator<'a> {
    bytes: &'a [u8],
    current: usize,
    skipped: usize,
}

impl<'a> TagIterator<'a> {
    #[verifier::type_invariant]
    spec fn inv(self) -> bool {
        &&& self.current <= self.bytes@.len()
        &&& self.skipped as int == self.spec_skipped()
    }

    /// The decoded pairs not yet yielded, in the order they will come.
    pub closed spec fn remaining(self) -> Seq<(Seq<char>, Seq<char>)> {
        decode_pairs(raw_pairs_from(self.bytes@, self.current as int))
    }

    /// How many pairs the cursor has passed over and dropped for invalid
    /// UTF-8.
    pub closed spec fn spec_skipped(self) -> int {
        dropped_from(self.bytes@, 0) - dropped_from(self.bytes@, self.current as int)
    }

    /// How many pairs were dropped for invalid UTF-8 so far: the diagnostic
    /// for the skipping decode policy.
    pub fn skipped(&self) -> (r: usize)
        ensures
            r as int == self.spec_skipped(),
    {
        proof {
            use_type_invariant(&*self);
        }
        self.skipped
    }

    /// Decodes the next key/value pair, skipping over pairs with invalid
    /// UTF-8; returns `None` exactly when no complete pair is left.
    pub fn next(&mut self) -> (r: Option<(String, String)>)
        ensures
            match r {
                Some(p) => {
                    &&& old(self).remaining().len() > 0
                    &&& (p.0@, p.1@) == old(self).remaining()[0]
                    &&& final(self).remaining() == old(self).remaining().drop_first()
                },
                None => {
                    &&& old(self).remaining().len() == 0
                    &&& final(self).remaining() == old(self).remaining()
                },
            },
    {
        proof {
            use_type_invariant(&*self);
        }
        let s: &[u8] = self.bytes;
        let n: usize = s.len();
        let mut cur: usize = self.current;
        let mut skipped: usize = self.skipped;
        loop
            invariant
                cur <= n,
                n == s@.len(),
                self.bytes == old(self).bytes,
                self.current == old(self).current,
                self.skipped == old(self).skipped,
                self.current <= self.bytes@.len(),
                s@ == self.bytes@,
                decode_pairs(raw_pairs_from(s@, cur as int)) == old(self).remaining(),
                skipped as int == dropped_from(s@, 0) - dropped_from(s@, cur as int),
            decreases n - cur,
        {
            if cur >= n {
                *self = TagIterator { bytes: s, current: cur, skipped };
                return None;
            }
            let key_end = find_nul_from(s, cur);
            if key_end == n {
                *self = TagIterator { bytes: s, current: cur, skipped };
                return None;
            }
            let value_end = find_nul_from(s, key_end + 1);
            if value_end == n {
                *self = TagIterator { bytes: s, current: cur, skipped };
                return None;
            }
            let kb: &[u8] = slice_subrange(s, cur, key_end);
            let vb: &[u8] = slice_subrange(s, key_end + 1, value_end);
            proof {
                assert(raw_pairs_from(s@, cur as int) == seq![(kb@, vb@)] + raw_pairs_from(
                    s@,
                    value_end + 1,
                ));
                lemma_decode_pairs_cons((kb@, vb@), raw_pairs_from(s@, value_end + 1));
            }
            let k_opt = utf8_to_string(kb);
            let v_opt = utf8_to_string(vb);
            match (k_opt, v_opt) {
                (Some(k), Some(v)) => {
                    *self = TagIterator { bytes: s, current: value_end + 1, skipped };
                    proof {
                        assert(final(self).remaining() =~= old(self).remaining().drop_first());
                    }
                    return Some((k, v));
                },
                _ => {
                    proof {
                        lemma_raw_pairs_bound(s@, 0);
                        lemma_decode_pairs_len(raw_pairs_from(s@, 0));
                        lemma_decode_pairs_len(raw_pairs_from(s@, value_end + 1));
                    }
                    cur = value_end + 1;
                    skipped = skipped + 1;
                },
            }
        }
    }
}

/// Error returned when a key or value handed to the encoder contains an
/// embedded NUL byte, which the encoding cannot represent.
#[derive(Copy, Clone, Debug, PartialEq, Eq, Structural)]
pub enum TagEncodeError {
    /// The key or the value holds a NUL byte.
    EmbeddedNul,
}

/// Appends `string NUL` to `out`, rejecting strings with embedded NUL bytes.
fn push_str(out: &mut Vec<u8>, string: &str) -> (r: Result<(), TagEncodeError>)
    ensures
        match r {
            Ok(()) => !string.spec_bytes().contains(0u8) && final(out)@ == old(out)@
                + string.spec_bytes() + seq![0u8],
            Err(e) => string.spec_bytes().contains(0u8) && e == TagEncodeError::EmbeddedNul
                && final(out)@ == old(out)@,
        },
{
    let bytes: &[u8] = string.as_bytes();
    if contains_nul(bytes) {
        return Err(TagEncodeError::EmbeddedNul);
    }
    append_bytes(out, bytes);
    out.push(0u8);
    proof {
        assert(out@ =~= old(out)@ + string.spec_bytes() + seq![0u8]);
    }
    Ok(())
}

/// An owned tag list, for building tag data in memory.
///
/// The data is stored exactly as in [`TagList`] — complete
/// `key NUL value NUL` pairs — but the list manages its own memory. Its view
/// is that byte range.
pub struct OwnedTagList {
    bytes: Vec<u8>,
}

impl View for OwnedTagList {
    type V = Seq<u8>;

    closed spec fn view(&self) -> Seq<u8> {
        self.bytes@
    }
}

impl OwnedTagList {
    #[verifier::type_invariant]
    spec fn inv(self) -> bool {
        wf_pairs_from(self@, 0)
    }

    /// Constructs a new, empty list. It does not allocate until a pair is
    /// pushed onto it.
    pub fn new() -> (r: OwnedTagList)
        ensures
            r@ == Seq::<u8>::empty(),
    {
        OwnedTagList { bytes: Vec::new() }
    }

    /// The encoded bytes: complete `key NUL value NUL` pairs.
    pub fn as_bytes(&self) -> (r: &[u8])
        ensures
            r@ == self@,
    {
        self.bytes.as_slice()
    }

    /// Add a new key-value pair to the list.
    ///
    /// This method does not check for duplicate keys; it simply appends the
    /// new pair. A key or value containing an embedded NUL byte is rejected
    /// with an error and the list stays unchanged — never silently
    /// truncated.
    pub fn push_pair(&mut self, key: &str, value: &str) -> (r: Result<(), TagEncodeError>)
        ensures
            match r {
                Ok(()) => {
                    &&& !key.spec_bytes().contains(0u8)
                    &&& !value.spec_bytes().contains(0u8)
                    &&& final(self)@ == old(self)@ + key.spec_bytes() + seq![0u8]
                        + value.spec_bytes() + seq![0u8]
                    &&& tags_of(final(self)@) == tags_of(old(self)@).push((key@, value@))
                },
                Err(e) => {
                    &&& key.spec_bytes().contains(0u8) || value.spec_bytes().contains(0u8)
                    &&& e == TagEncodeError::EmbeddedNul
                    &&& final(self)@ == old(self)@
                },
            },
    {
        proof {
            use_type_invariant(&*self);
        }
        if contains_nul(key.as_bytes()) {
            return Err(TagEncodeError::EmbeddedNul);
        }
        if contains_nul(value.as_bytes()) {
            return Err(TagEncodeError::EmbeddedNul);
        }
        let ghost old_bytes = self.bytes@;
        let mut b: Vec<u8> = Vec::new();
        core::mem::swap(&mut b, &mut self.bytes);
        let r1 = push_str(&mut b, key);
        let r2 = push_str(&mut b, value);
        proof {
            assert(r1 is Ok && r2 is Ok);
            assert(b@ =~= old_bytes + key.spec_bytes() + seq![0u8] + value.spec_bytes()
                + seq![0u8]);
            lemma_pairs_append(old_bytes, key.spec_bytes(), value.spec_bytes(), 0);
            encode_utf8_valid_utf8(key@);
            encode_utf8_valid_utf8(value@);
            encode_utf8_decode_utf8(key@);
            encode_utf8_decode_utf8(value@);
            lemma_decode_pairs_push(
                raw_pairs_from(old_bytes, 0),
                (key.spec_bytes(), value.spec_bytes()),
            );
        }
        core::mem::swap(&mut b, &mut self.bytes);
        Ok(())
    }

    /// Copies a tag range's memory into an owned list. Returns `None` when
    /// the range is not a whole number of complete pairs, which an owned
    /// list always is.
    pub fn from_tag_list(tags: &TagList) -> (r: Option<OwnedTagList>)
        ensures
            match r {
                Some(o) => wf_pairs_from(tags@, 0) && o@ == tags@,
                None => !wf_pairs_from(tags@, 0),
            },
    {
        if check_pairs(tags.as_bytes()) {
            let bytes: Vec<u8> = vstd::slice::slice_to_vec(tags.as_bytes());
            Some(OwnedTagList { bytes })
        } else {
            None
        }
    }

    /// A lazy, restartable walk over the decoded key/value pairs.
    pub fn iter(&self) -> (r: TagIterator)
        ensures
            r.remaining() == tags_of(self@),
    {
        TagIterator { bytes: self.bytes.as_slice(), current: 0, skipped: 0 }
    }

    /// All decoded key/value pairs, in insertion order.
    pub fn pairs(&self) -> (r: Vec<(String, String)>)
        ensures
            r@.len() == tags_of(self@).len(),
            forall|i: int|
                0 <= i < r@.len() ==> (#[trigger] r@[i].0@, r@[i].1@) == tags_of(self@)[i],
    {
        let mut it = self.iter();
        collect_pairs(&mut it)
    }

    /// Renders the decoded pairs as a map-shaped string, for diagnostics.
    pub fn debug_string(&self) -> (r: String)
        ensures
            r@ == tags_debug(tags_of(self@)),
    {
        let pairs = self.pairs();
        proof {
            assert(pairs@.map_values(|p: (String, String)| (p.0@, p.1@)) =~= tags_of(self@));
        }
        debug(&pairs)
    }
}

} // verus!
