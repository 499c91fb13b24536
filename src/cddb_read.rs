//! The disc-level text blob: `KEY=value` lines, `#` comments, repeated keys
//! continued.
use vstd::prelude::*;
use crate::err::Error;
use crate::text::{
    chars_of, contains, vec_eq, first_at, lemma_split_once_at, occurs_at, split_once, split_once_chars,
    string_of,
};

verus! {

/// The map after one more line of a blob, or `None` where the line is
/// malformed. Blank lines and `#` comments change nothing; otherwise the line
/// needs an `=`, what precedes the first `=` is the key and what follows is
/// the value; an empty value changes nothing, and a value for a key already
/// present is appended to it.
pub open spec fn blob_step(m: Map<Seq<char>, Seq<char>>, line: Seq<char>) -> Option<
    Map<Seq<char>, Seq<char>>,
> {
    if line.len() == 0 || line[0] == '#' {
        Some(m)
    } else {
        match split_once(line, "="@) {
            None => None,
            Some((k, v)) => if v.len() == 0 {
                Some(m)
            } else if m.contains_key(k) {
                Some(m.insert(k, m[k] + v))
            } else {
                Some(m.insert(k, v))
            },
        }
    }
}

/// The map from key to accumulated value that the blob `lines` holds, or
/// `None` where one of its lines is malformed.
pub open spec fn blob_of(lines: Seq<Seq<char>>) -> Option<Map<Seq<char>, Seq<char>>>
    decreases lines.len(),
{
    if lines.len() == 0 {
        Some(Map::empty())
    } else {
        match blob_of(lines.drop_last()) {
            None => None,
            Some(m) => blob_step(m, lines.last()),
        }
    }
}

/// The map that a list of key-value pairs gives, later pairs winning.
pub open spec fn pairs_map(s: Seq<(Seq<char>, Seq<char>)>) -> Map<Seq<char>, Seq<char>>
    decreases s.len(),
{
    if s.len() == 0 {
        Map::empty()
    } else {
        pairs_map(s.drop_last()).insert(s.last().0, s.last().1)
    }
}

/// The last index of a pair with key `k`, or -1.
pub open spec fn key_index(s: Seq<(Seq<char>, Seq<char>)>, k: Seq<char>) -> int
    decreases s.len(),
{
    if s.len() == 0 {
        -1
    } else if s.last().0 == k {
        s.len() - 1
    } else {
        key_index(s.drop_last(), k)
    }
}

/// No two pairs share a key.
pub open spec fn unique_keys(s: Seq<(Seq<char>, Seq<char>)>) -> bool {
    forall|i: int, j: int| 0 <= i < j < s.len() ==> #[trigger] s[i].0 != #[trigger] s[j].0
}

proof fn lemma_key_index(s: Seq<(Seq<char>, Seq<char>)>, k: Seq<char>)
    ensures
        -1 <= key_index(s, k) < s.len(),
        key_index(s, k) >= 0 ==> s[key_index(s, k)].0 == k,
        key_index(s, k) >= 0 <==> pairs_map(s).contains_key(k),
        key_index(s, k) >= 0 ==> pairs_map(s)[k] == s[key_index(s, k)].1,
        key_index(s, k) < 0 ==> forall|i: int| 0 <= i < s.len() ==> #[trigger] s[i].0 != k,
    decreases s.len(),
{
    if s.len() > 0 {
        lemma_key_index(s.drop_last(), k);
        if key_index(s, k) < 0 {
            assert forall|i: int| 0 <= i < s.len() implies #[trigger] s[i].0 != k by {
                if i < s.len() - 1 {
                    assert(s.drop_last()[i] == s[i]);
                }
            }
        }
    }
}

proof fn lemma_update_value(s: Seq<(Seq<char>, Seq<char>)>, i: int, v: Seq<char>)
    requires
        unique_keys(s),
        0 <= i < s.len(),
    ensures
        pairs_map(s.update(i, (s[i].0, v))) == pairs_map(s).insert(s[i].0, v),
        unique_keys(s.update(i, (s[i].0, v))),
    decreases s.len(),
{
    let t = s.update(i, (s[i].0, v));
    assert(unique_keys(t)) by {
        assert forall|a: int, b: int| 0 <= a < b < t.len() implies #[trigger] t[a].0
            != #[trigger] t[b].0 by {
            assert(t[a].0 == s[a].0 && t[b].0 == s[b].0);
        }
    }
    if i == s.len() - 1 {
        assert(t.drop_last() =~= s.drop_last());
        assert(pairs_map(t) =~= pairs_map(s).insert(s[i].0, v));
    } else {
        let d = s.drop_last();
        assert(unique_keys(d)) by {
            assert forall|a: int, b: int| 0 <= a < b < d.len() implies #[trigger] d[a].0
                != #[trigger] d[b].0 by {
                assert(d[a] == s[a] && d[b] == s[b]);
            }
        }
        lemma_update_value(d, i, v);
        assert(t.drop_last() =~= d.update(i, (d[i].0, v)));
        assert(s[i].0 != s.last().0);
        assert(pairs_map(t) =~= pairs_map(s).insert(s[i].0, v));
    }
}

/// The key-value pairs of a disc blob, each key once, in the order of its
/// first line.
pub struct DiscBlob {
    entries: Vec<(String, String)>,
}

impl DiscBlob {
    /// The pairs, as character sequences.
    pub closed spec fn pairs(&self) -> Seq<(Seq<char>, Seq<char>)> {
        self.entries@.map_values(|e: (String, String)| (e.0@, e.1@))
    }

    /// The blob as a map from key to value.
    pub closed spec fn view(&self) -> Map<Seq<char>, Seq<char>> {
        pairs_map(self.pairs())
    }

    /// No key is held twice.
    pub closed spec fn wf(&self) -> bool {
        unique_keys(self.pairs())
    }

    /// An empty blob.
    pub fn new() -> (r: DiscBlob)
        ensures
            r.wf(),
            r.view() == Map::<Seq<char>, Seq<char>>::empty(),
    {
        let r = DiscBlob { entries: Vec::new() };
        assert(r.pairs() =~= Seq::<(Seq<char>, Seq<char>)>::empty());
        r
    }

    fn index_of(&self, key: &Vec<char>) -> (r: Option<usize>)
        ensures
            match r {
                Some(i) => key_index(self.pairs(), key@) == i,
                None => key_index(self.pairs(), key@) < 0,
            },
    {
        let mut i = self.entries.len();
        assert(self.pairs().take(i as int) =~= self.pairs());
        while i > 0
            invariant
                i <= self.entries.len(),
                key_index(self.pairs(), key@) == key_index(self.pairs().take(i as int), key@),
            decreases i,
        {
            let k = chars_of(self.entries[i - 1].0.as_str());
            let ghost t = self.pairs().take(i as int);
            assert(t.last().0 == k@);
            assert(t.drop_last() =~= self.pairs().take(i - 1));
            if vec_eq(&k, key) {
                return Some(i - 1);
            }
            i = i - 1;
        }
        assert(self.pairs().take(0) =~= Seq::<(Seq<char>, Seq<char>)>::empty());
        None
    }

    /// The value held for `key`.
    pub fn get(&self, key: &str) -> (r: Option<String>)
        ensures
            match r {
                Some(v) => self.view().contains_key(key@) && self.view()[key@] == v@,
                None => !self.view().contains_key(key@),
            },
    {
        let k = chars_of(key);
        proof {
            lemma_key_index(self.pairs(), key@);
        }
        match self.index_of(&k) {
            Some(i) => Some(self.entries[i].1.clone()),
            None => None,
        }
    }

    /// Appends `v` to the value of `k`, or adds `k` with value `v`.
    fn add(&mut self, k: Vec<char>, v: Vec<char>)
        requires
            old(self).wf(),
        ensures
            final(self).wf(),
            final(self).view() == (if old(self).view().contains_key(k@) {
                old(self).view().insert(k@, old(self).view()[k@] + v@)
            } else {
                old(self).view().insert(k@, v@)
            }),
    {
        proof {
            lemma_key_index(self.pairs(), k@);
        }
        match self.index_of(&k) {
            Some(i) => {
                let ghost s = self.pairs();
                let mut joined = self.entries[i].1.clone();
                let tail = string_of(&v);
                joined.append(tail.as_str());
                let key = self.entries[i].0.clone();
                proof {
                    lemma_update_value(s, i as int, s[i as int].1 + v@);
                }
                self.entries.set(i, (key, joined));
                assert(self.pairs() =~= s.update(i as int, (s[i as int].0, s[i as int].1 + v@)));
            },
            None => {
                let ghost s = self.pairs();
                self.entries.push((string_of(&k), string_of(&v)));
                assert(self.pairs() =~= s.push((k@, v@)));
                assert(self.pairs().drop_last() =~= s);
            },
        }
    }
}

/// Reads a disc blob from its lines.
pub fn read_cddb(lines: &Vec<String>) -> (r: Result<DiscBlob, Error>)
    ensures
        match blob_of(lines.deep_view()) {
            Some(m) => r matches Ok(b) && b.wf() && b.view() == m,
            None => r matches Err(Error::ParseCddb),
        },
{
    let mut res = DiscBlob::new();
    let mut i: usize = 0;
    while i < lines.len()
        invariant
            i <= lines.len(),
            res.wf(),
            blob_of(lines.deep_view().take(i as int)) == Some(res.view()),
        decreases lines.len() - i,
    {
        let ghost pre = lines.deep_view().take(i as int);
        assert(lines.deep_view().take(i + 1).drop_last() =~= pre);
        assert(lines.deep_view().take(i + 1).last() == lines@[i as int]@);
        let l = chars_of(lines[i].as_str());
        if l.len() == 0 || l[0] == '#' {
            i = i + 1;
            continue;
        }
        match split_once_chars(&l, "=") {
            None => {
                proof {
                    lemma_blob_stays_none(lines.deep_view(), i as int + 1);
                }
                return Err(Error::ParseCddb);
            },
            Some((k, v)) => {
                if v.len() > 0 {
                    res.add(k, v);
                }
            },
        }
        i = i + 1;
    }
    assert(lines.deep_view().take(i as int) =~= lines.deep_view());
    Ok(res)
}

proof fn lemma_blob_stays_none(lines: Seq<Seq<char>>, i: int)
    requires
        0 <= i <= lines.len(),
        blob_of(lines.take(i)) is None,
    ensures
        blob_of(lines) is None,
    decreases lines.len() - i,
{
    if i < lines.len() {
        assert(lines.take(i + 1).drop_last() =~= lines.take(i));
        lemma_blob_stays_none(lines, i + 1);
    } else {
        assert(lines.take(i) =~= lines);
    }
}

/// A repeated key continues its value: after lines that read to the map
/// `m`, one more line `k=w`, with a key `k` that is not empty, starts with no
/// `#` and holds no `=`, and a non-empty value `w`, appends `w` to the value
/// held for `k`, or starts it where `k` was not yet held. It never replaces
/// the earlier value.
pub proof fn lemma_repeated_key_appends(lines: Seq<Seq<char>>, k: Seq<char>, w: Seq<char>)
    requires
        blob_of(lines) is Some,
        k.len() > 0,
        k[0] != '#',
        !contains(k, "="@),
        w.len() > 0,
    ensures
        ({
            let m = blob_of(lines)->0;
            blob_of(lines.push(k + "="@ + w)) == Some(
                if m.contains_key(k) {
                    m.insert(k, m[k] + w)
                } else {
                    m.insert(k, w)
                },
            )
        }),
{
    reveal_strlit("=");
    let line = k + "="@ + w;
    let eq = "="@;
    assert(lines.push(line).drop_last() =~= lines);
    assert(line.subrange(k.len() as int, k.len() as int + 1) =~= eq);
    assert forall|j: int| 0 <= j < k.len() implies !#[trigger] occurs_at(line, eq, j) by {
        if occurs_at(line, eq, j) {
            assert(line.subrange(j, j + 1)[0] == '=');
            assert(k.subrange(j, j + 1) =~= eq);
            assert(occurs_at(k, eq, j));
        }
    }
    assert(first_at(line, eq, k.len() as int));
    lemma_split_once_at(line, eq, k.len() as int);
    assert(line.take(k.len() as int) =~= k);
    assert(line.skip(k.len() as int + 1) =~= w);
    assert(line[0] == k[0]);
}

} // verus!
