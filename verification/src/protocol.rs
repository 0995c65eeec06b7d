//! The `Sec-WebSocket-Protocol` header through which a browser passes its
//! token and the project password: comma-separated entries, each either a
//! protocol name or a `key.value` pair.

use vstd::prelude::*;

use crate::auth::HttpErrors;
use crate::text::{chars_of, is_ws, lemma_trim_unpadded, substring, trim_bounds, trim_spec};

verus! {

/// The first `c` in `s` at or after `i`, or the length of `s`.
pub open spec fn find_char(s: Seq<char>, c: char, i: int) -> int
    decreases s.len() - i,
{
    if i >= s.len() {
        s.len() as int
    } else if s[i] == c {
        i
    } else {
        find_char(s, c, i + 1)
    }
}

pub proof fn lemma_find_char_bounds(s: Seq<char>, c: char, i: int)
    requires
        0 <= i <= s.len(),
    ensures
        i <= find_char(s, c, i) <= s.len(),
        find_char(s, c, i) < s.len() ==> s[find_char(s, c, i)] == c,
        forall|j: int| i <= j < find_char(s, c, i) ==> s[j] != c,
    decreases s.len() - i,
{
    if i < s.len() && s[i] != c {
        lemma_find_char_bounds(s, c, i + 1);
    }
}

/// The pieces of `s` from `p` on between the separators `c`, as
/// `str::split` gives them.
pub open spec fn split_from(s: Seq<char>, c: char, p: int) -> Seq<Seq<char>>
    decreases s.len() - p,
    when 0 <= p <= s.len()
{
    let j = find_char(s, c, p);
    proof {
        lemma_find_char_bounds(s, c, p);
    }
    if j >= s.len() {
        seq![s.subrange(p, s.len() as int)]
    } else {
        seq![s.subrange(p, j)] + split_from(s, c, j + 1)
    }
}

/// What one entry of the header is, once trimmed.
pub enum Entry {
    Empty,
    Protocol(Seq<char>),
    Pair(Seq<char>, Seq<char>),
    Malformed,
}

pub open spec fn classify(piece: Seq<char>) -> Entry {
    let t = trim_spec(piece);
    let d = find_char(t, '.', 0);
    if t.len() == 0 {
        Entry::Empty
    } else if d >= t.len() {
        Entry::Protocol(t)
    } else if d == 0 || d + 1 == t.len() {
        Entry::Malformed
    } else {
        Entry::Pair(t.subrange(0, d), t.subrange(d + 1, t.len() as int))
    }
}

/// The protocols and the `key.value` pairs of the entries, in order;
/// `None` when an entry has an empty key or value.
pub open spec fn entries_of(pieces: Seq<Seq<char>>) -> Option<
    (Seq<Seq<char>>, Seq<(Seq<char>, Seq<char>)>),
>
    decreases pieces.len(),
{
    if pieces.len() == 0 {
        Some((Seq::empty(), Seq::empty()))
    } else {
        match entries_of(pieces.drop_last()) {
            None => None,
            Some((ps, kvs)) => match classify(pieces.last()) {
                Entry::Empty => Some((ps, kvs)),
                Entry::Protocol(t) => Some((ps.push(t), kvs)),
                Entry::Pair(k, v) => Some((ps, kvs.push((k, v)))),
                Entry::Malformed => None,
            },
        }
    }
}

pub open spec fn strings_view(v: Seq<String>) -> Seq<Seq<char>> {
    v.map_values(|s: String| s@)
}

pub open spec fn pairs_view(v: Seq<(String, String)>) -> Seq<(Seq<char>, Seq<char>)> {
    v.map_values(|p: (String, String)| (p.0@, p.1@))
}

/// The first `c` in `cs` at or after `i`, or the length.
fn find_char_from(cs: &Vec<char>, c: char, i: usize) -> (r: usize)
    requires
        i <= cs@.len(),
    ensures
        r == find_char(cs@, c, i as int),
{
    let mut k = i;
    while k < cs.len()
        invariant
            i <= k <= cs@.len(),
            find_char(cs@, c, i as int) == find_char(cs@, c, k as int),
        decreases cs@.len() - k,
    {
        if cs[k] == c {
            return k;
        }
        k = k + 1;
    }
    k
}

/// Parses the header: its protocols and its `key.value` pairs, in order.
/// A missing header, or an entry with an empty key or value, is reported as
/// `NoTokenProvided`.
pub fn parse_protocol_header(header: Option<&str>) -> (r: Result<
    (Vec<String>, Vec<(String, String)>),
    HttpErrors,
>)
    ensures
        header is None ==> r == Err::<(Vec<String>, Vec<(String, String)>), HttpErrors>(
            HttpErrors::NoTokenProvided,
        ),
        header matches Some(h) ==> match entries_of(split_from(h@, ',', 0)) {
            None => r == Err::<(Vec<String>, Vec<(String, String)>), HttpErrors>(
                HttpErrors::NoTokenProvided,
            ),
            Some((ps, kvs)) => r matches Ok((protocols, pairs)) && strings_view(protocols@) == ps
                && pairs_view(pairs@) == kvs,
        },
{
    let h = match header {
        Some(h) => h,
        None => {
            return Err(HttpErrors::NoTokenProvided);
        },
    };
    let cs = chars_of(h);
    let ghost all = split_from(cs@, ',', 0);
    let mut protocols: Vec<String> = Vec::new();
    let mut pairs: Vec<(String, String)> = Vec::new();
    let mut ok = true;
    let mut finished = false;
    let mut p: usize = 0;
    let ghost mut done: Seq<Seq<char>> = Seq::empty();
    assert(done + all =~= all);
    while !finished
        invariant
            p <= cs@.len(),
            cs@ == h@,
            all == split_from(cs@, ',', 0),
            finished ==> done == all,
            !finished ==> done + split_from(cs@, ',', p as int) == all,
            ok ==> entries_of(done) == Some((strings_view(protocols@), pairs_view(pairs@))),
            !ok ==> entries_of(done) is None,
        decreases cs@.len() - p + (if finished { 0int } else { 1int }),
    {
        let j = find_char_from(&cs, ',', p);
        proof {
            lemma_find_char_bounds(cs@, ',', p as int);
        }
        let ghost piece = cs@.subrange(p as int, j as int);
        let ghost ps0 = strings_view(protocols@);
        let ghost kv0 = pairs_view(pairs@);
        let (lo, hi) = trim_bounds(&cs, p, j);
        let ghost t = trim_spec(piece);
        if ok && lo < hi {
            let d = find_char_from(&cs, '.', lo);
            proof {
                lemma_find_char_bounds(cs@, '.', lo as int);
                lemma_find_char_shift(cs@, '.', lo as int, hi as int);
                assert(t =~= cs@.subrange(lo as int, hi as int));
            }
            if d >= hi {
                let name = substring(&cs, lo, hi);
                protocols.push(name);
                assert(strings_view(protocols@) =~= ps0.push(t));
            } else if d == lo || d + 1 == hi {
                ok = false;
            } else {
                let key = substring(&cs, lo, d);
                let value = substring(&cs, d + 1, hi);
                proof {
                    assert(key@ =~= t.subrange(0, d - lo));
                    assert(value@ =~= t.subrange(d - lo + 1, t.len() as int));
                }
                pairs.push((key, value));
                assert(pairs_view(pairs@) =~= kv0.push((t.subrange(0, d - lo), t.subrange(d - lo + 1, t.len() as int))));
            }
        }
        proof {
            let nd = done.push(piece);
            assert(nd.drop_last() =~= done);
            assert(nd.last() == piece);
            done = nd;
        }
        if j >= cs.len() {
            finished = true;
            proof {
                assert(done =~= all);
            }
        } else {
            proof {
                assert(done + split_from(cs@, ',', j + 1) =~= all);
            }
            p = j + 1;
        }
    }
    if ok {
        Ok((protocols, pairs))
    } else {
        Err(HttpErrors::NoTokenProvided)
    }
}

/// A header made of one `key.value` entry (a key without `.`, a non-empty
/// value, no `,`, nothing to trim at either end) yields exactly that pair,
/// the value being the whole text after the first `.`, dots and length
/// whatever they are.
pub proof fn single_pair_entry_yields_key_and_whole_value(key: Seq<char>, value: Seq<char>)
    requires
        key.len() > 0,
        value.len() > 0,
        !key.contains('.'),
        !key.contains(','),
        !value.contains(','),
        !is_ws(key[0]),
        !is_ws(value[value.len() - 1]),
    ensures
        entries_of(split_from(key + seq!['.'] + value, ',', 0)) == Some(
            (Seq::<Seq<char>>::empty(), seq![(key, value)]),
        ),
{
    let h = key + seq!['.'] + value;
    let k = key.len() as int;
    lemma_find_char_bounds(h, ',', 0);
    if find_char(h, ',', 0) < h.len() {
        let j = find_char(h, ',', 0);
        if j < k {
            assert(key[j] == h[j]);
        } else if j > k {
            assert(value[j - k - 1] == h[j]);
        }
    }
    assert(split_from(h, ',', 0) == seq![h.subrange(0, h.len() as int)]);
    assert(h.subrange(0, h.len() as int) =~= h);
    assert(h[h.len() - 1] == value[value.len() - 1]);
    lemma_trim_unpadded(h);
    lemma_find_char_bounds(h, '.', 0);
    let d = find_char(h, '.', 0);
    assert(h[k] == '.');
    if d < k {
        assert(key[d] == h[d]);
    }
    assert(d == k);
    assert(h.subrange(0, k) =~= key);
    assert(h.subrange(k + 1, h.len() as int) =~= value);
    let pieces = seq![h];
    assert(pieces.drop_last() =~= Seq::<Seq<char>>::empty());
    assert(pieces.last() == h);
    assert(classify(h) == Entry::Pair(key, value));
    let none_kv = Seq::<(Seq<char>, Seq<char>)>::empty();
    let none_ps = Seq::<Seq<char>>::empty();
    assert(entries_of(none_ps) == Some((none_ps, none_kv)));
    assert(entries_of(pieces.drop_last()) == Some((none_ps, none_kv)));
    assert(entries_of(pieces) == Some((none_ps, none_kv.push((key, value)))));
    assert(none_kv.push((key, value)) =~= seq![(key, value)]);
    assert(split_from(h, ',', 0) =~= pieces);
}

/// A header made of one entry without `.` (no `,`, nothing to trim at either
/// end) yields exactly that protocol name and no pair.
pub proof fn single_plain_entry_yields_protocol(name: Seq<char>)
    requires
        name.len() > 0,
        !name.contains('.'),
        !name.contains(','),
        !is_ws(name[0]),
        !is_ws(name[name.len() - 1]),
    ensures
        entries_of(split_from(name, ',', 0)) == Some(
            (seq![name], Seq::<(Seq<char>, Seq<char>)>::empty()),
        ),
{
    lemma_find_char_bounds(name, ',', 0);
    if find_char(name, ',', 0) < name.len() {
        assert(name[find_char(name, ',', 0)] == ',');
    }
    assert(name.subrange(0, name.len() as int) =~= name);
    lemma_trim_unpadded(name);
    lemma_find_char_bounds(name, '.', 0);
    if find_char(name, '.', 0) < name.len() {
        assert(name[find_char(name, '.', 0)] == '.');
    }
    let pieces = seq![name];
    assert(split_from(name, ',', 0) =~= pieces);
    let none_kv = Seq::<(Seq<char>, Seq<char>)>::empty();
    let none_ps = Seq::<Seq<char>>::empty();
    assert(pieces.drop_last() =~= none_ps);
    assert(entries_of(none_ps) == Some((none_ps, none_kv)));
    assert(entries_of(pieces) == Some((none_ps.push(name), none_kv)));
    assert(none_ps.push(name) =~= seq![name]);
}

/// Searching `s[lo..hi]` from its start finds what searching `s` from `lo`
/// finds, bounded by `hi`.
pub proof fn lemma_find_char_shift(s: Seq<char>, c: char, lo: int, hi: int)
    requires
        0 <= lo <= hi <= s.len(),
    ensures
        find_char(s.subrange(lo, hi), c, 0) == (if find_char(s, c, lo) < hi {
            find_char(s, c, lo)
        } else {
            hi
        }) - lo,
{
    lemma_find_char_shift_from(s, c, lo, hi, lo);
}

proof fn lemma_find_char_shift_from(s: Seq<char>, c: char, lo: int, hi: int, k: int)
    requires
        0 <= lo <= k <= hi <= s.len(),
    ensures
        find_char(s.subrange(lo, hi), c, k - lo) == (if find_char(s, c, k) < hi {
            find_char(s, c, k)
        } else {
            hi
        }) - lo,
    decreases hi - k,
{
    lemma_find_char_bounds(s, c, k);
    if k < hi && s[k] != c {
        lemma_find_char_shift_from(s, c, lo, hi, k + 1);
    }
}

} // verus!
