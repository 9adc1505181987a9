//! The decoded body of a POST: form fields, each key once, in the order in
//! which the form decoder walks them.
use vstd::prelude::*;
use crate::render::{debug_of, debug_quoted, entry_debug, joined, lemma_joined_push, map_debug};

verus! {

/// No key stands in two entries.
pub open spec fn keys_distinct(s: Seq<(Seq<char>, Seq<char>)>) -> bool {
    forall|i: int, j: int| 0 <= i < j < s.len() ==> #[trigger] s[i].0 != #[trigger] s[j].0
}

/// Position of the last entry with key `k`, or -1 where there is none.
pub open spec fn key_index(s: Seq<(Seq<char>, Seq<char>)>, k: Seq<char>) -> int
    decreases s.len(),
{
    if s.len() == 0 {
        -1
    } else if s.last().0 == k {
        s.len() - 1
    } else {
        key_index(s.drop_last(), k)
    }
}

/// The entries after setting `k` to `v`: an entry with that key takes the new
/// value where it stands; otherwise the pair goes at the end.
pub open spec fn inserted(s: Seq<(Seq<char>, Seq<char>)>, k: Seq<char>, v: Seq<char>) -> Seq<
    (Seq<char>, Seq<char>),
> {
    let i = key_index(s, k);
    if i < 0 {
        s.push((k, v))
    } else {
        s.update(i, (k, v))
    }
}

/// The mapping that the entries hold.
pub open spec fn entries_map(s: Seq<(Seq<char>, Seq<char>)>) -> Map<Seq<char>, Seq<char>>
    decreases s.len(),
{
    if s.len() == 0 {
        Map::empty()
    } else {
        entries_map(s.drop_last()).insert(s.last().0, s.last().1)
    }
}

/// Where `key_index` points, and that with distinct keys it finds the one
/// entry of the key.
pub proof fn lemma_key_index(s: Seq<(Seq<char>, Seq<char>)>, k: Seq<char>)
    ensures
        -1 <= key_index(s, k) < s.len(),
        key_index(s, k) >= 0 ==> s[key_index(s, k)].0 == k,
        key_index(s, k) < 0 ==> forall|j: int| 0 <= j < s.len() ==> #[trigger] s[j].0 != k,
        keys_distinct(s) ==> forall|j: int|
            0 <= j < s.len() && #[trigger] s[j].0 == k ==> key_index(s, k) == j,
    decreases s.len(),
{
    if s.len() > 0 {
        lemma_key_index(s.drop_last(), k);
        assert forall|j: int| 0 <= j < s.len() - 1 implies #[trigger] s[j] == s.drop_last()[j] by {}
    }
}

/// With distinct keys the mapping has one key per entry, and holds exactly
/// the entries' keys.
pub proof fn lemma_entries_map(s: Seq<(Seq<char>, Seq<char>)>)
    requires
        keys_distinct(s),
    ensures
        entries_map(s).dom().finite(),
        entries_map(s).len() == s.len(),
        forall|i: int| 0 <= i < s.len() ==> #[trigger] entries_map(s).contains_key(s[i].0),
        forall|i: int| 0 <= i < s.len() ==> #[trigger] entries_map(s)[s[i].0] == s[i].1,
        forall|k: Seq<char>| #[trigger] entries_map(s).contains_key(k) ==> exists|i: int|
            0 <= i < s.len() && s[i].0 == k,
    decreases s.len(),
{
    if s.len() > 0 {
        let p = s.drop_last();
        let n = s.len() - 1;
        assert forall|i: int, j: int| 0 <= i < j < p.len() implies #[trigger] p[i].0 != #[trigger] p[j].0 by {
            assert(p[i] == s[i] && p[j] == s[j]);
        }
        lemma_entries_map(p);
        let m = entries_map(p);
        if m.contains_key(s[n].0) {
            let i = choose|i: int| 0 <= i < p.len() && p[i].0 == s[n].0;
            assert(s[i].0 == s[n].0);
        }
        assert(entries_map(s).dom() =~= m.dom().insert(s[n].0));
        assert forall|i: int| 0 <= i < s.len() implies #[trigger] entries_map(s).contains_key(s[i].0) by {
            if i < n {
                assert(p[i] == s[i]);
            }
        }
        assert forall|i: int| 0 <= i < s.len() implies #[trigger] entries_map(s)[s[i].0] == s[i].1 by {
            if i < n {
                assert(p[i] == s[i]);
                assert(s[i].0 != s[n].0);
            }
        }
        assert forall|k: Seq<char>| #[trigger] entries_map(s).contains_key(k) implies exists|i: int|
            0 <= i < s.len() && s[i].0 == k by {
            if k != s[n].0 {
                let i = choose|i: int| 0 <= i < p.len() && p[i].0 == k;
                assert(s[i] == p[i]);
            }
        }
    }
}

proof fn lemma_update_map(s: Seq<(Seq<char>, Seq<char>)>, i: int, k: Seq<char>, v: Seq<char>)
    requires
        keys_distinct(s),
        0 <= i < s.len(),
        s[i].0 == k,
    ensures
        entries_map(s.update(i, (k, v))) == entries_map(s).insert(k, v),
    decreases s.len(),
{
    let n = s.len() - 1;
    let p = s.drop_last();
    let u = s.update(i, (k, v));
    if i == n {
        assert(u.drop_last() =~= p);
        assert(entries_map(u) =~= entries_map(s).insert(k, v));
    } else {
        assert forall|a: int, b: int| 0 <= a < b < p.len() implies #[trigger] p[a].0 != #[trigger] p[b].0 by {
            assert(p[a] == s[a] && p[b] == s[b]);
        }
        lemma_update_map(p, i, k, v);
        assert(u.drop_last() =~= p.update(i, (k, v)));
        assert(s[n].0 != k);
        assert(entries_map(u) =~= entries_map(s).insert(k, v));
    }
}

pub struct Payload {
    entries: Vec<(String, String)>,
}

impl View for Payload {
    type V = Seq<(Seq<char>, Seq<char>)>;

    closed spec fn view(&self) -> Seq<(Seq<char>, Seq<char>)> {
        self.entries.deep_view()
    }
}

impl Payload {
    pub open spec fn wf(&self) -> bool {
        keys_distinct(self@)
    }

    /// The mapping from keys to values.
    pub open spec fn map(&self) -> Map<Seq<char>, Seq<char>> {
        entries_map(self@)
    }

    /// A payload without fields.
    pub fn new() -> (r: Payload)
        ensures
            r.wf(),
            r@ == Seq::<(Seq<char>, Seq<char>)>::empty(),
    {
        let r = Payload { entries: Vec::new() };
        assert(r@ =~= Seq::<(Seq<char>, Seq<char>)>::empty());
        r
    }

    /// Number of fields.
    pub fn len(&self) -> (r: usize)
        ensures
            r == self@.len(),
    {
        self.entries.len()
    }

    /// Sets `key` to `value`: a later value for a key replaces the earlier one.
    pub fn insert(&mut self, key: String, value: String)
        requires
            old(self).wf(),
        ensures
            final(self).wf(),
            final(self)@ == inserted(old(self)@, key@, value@),
            final(self).map() == old(self).map().insert(key@, value@),
    {
        let ghost s = self@;
        let ghost k = key@;
        let ghost v = value@;
        proof {
            lemma_key_index(s, k);
        }
        let mut j: usize = 0;
        while j < self.entries.len()
            invariant
                j <= self.entries.len(),
                self@ == s,
                old(self)@ == s,
                self.entries.len() == s.len(),
                keys_distinct(s),
                key@ == k,
                value@ == v,
                forall|m: int| 0 <= m < j ==> #[trigger] s[m].0 != k,
            decreases self.entries.len() - j,
        {
            if self.entries[j].0 == key {
                assert(s[j as int].0 == k);
                proof {
                    lemma_key_index(s, k);
                }
                self.entries.set(j, (key, value));
                assert(self@ =~= s.update(j as int, (k, v)));
                assert(inserted(s, k, v) == s.update(j as int, (k, v)));
                proof {
                    lemma_update_map(s, j as int, k, v);
                }
                return;
            }
            assert(s[j as int] == self.entries[j as int].deep_view());
            j = j + 1;
        }
        self.entries.push((key, value));
        assert(self@ =~= s.push((k, v)));
        assert(self@.drop_last() =~= s);
    }

    /// The fields in order, as `{:?}` renders a string map walked in that order.
    pub fn render(&self) -> (r: String)
        ensures
            r@ == map_debug(self@),
    {
        let ghost parts = self@.map_values(|e: (Seq<char>, Seq<char>)| entry_debug(e));
        let mut out = String::from_str("{");
        let mut i: usize = 0;
        while i < self.entries.len()
            invariant
                i <= self.entries.len(),
                parts.len() == self.entries.len(),
                forall|m: int| 0 <= m < self.entries.len() ==> #[trigger] parts[m] == entry_debug(self@[m]),
                out@ == "{"@ + joined(parts.take(i as int)),
            decreases self.entries.len() - i,
        {
            let ghost before = out@;
            if i > 0 {
                out.append(", ");
            }
            let kq = debug_quoted(self.entries[i].0.as_str());
            let vq = debug_quoted(self.entries[i].1.as_str());
            out.append(kq.as_str());
            out.append(": ");
            out.append(vq.as_str());
            proof {
                assert(self@[i as int] == self.entries[i as int].deep_view());
                assert(parts.take(i as int + 1) =~= parts.take(i as int).push(parts[i as int]));
                if i > 0 {
                    lemma_joined_push(parts.take(i as int), parts[i as int]);
                    assert(out@ =~= before + ", "@ + parts[i as int]);
                } else {
                    assert(parts.take(1) =~= seq![parts[0]]);
                    assert(out@ =~= before + parts[i as int]);
                }
            }
            i = i + 1;
        }
        out.append("}");
        assert(parts.take(self.entries.len() as int) =~= parts);
        out
    }
}

} // verus!
