//! A store of text values keyed by `(chat, key)`, kept in insertion order
//! with at most one entry per key.
use vstd::prelude::*;
use crate::text::{contains, contains_chars, chars_of, same_text};

verus! {

/// An entry as `(chat, key, value)`.
pub type EntryView = (i64, Seq<char>, Seq<char>);

/// Lexicographic order of character sequences by code point (the order of
/// `String`'s `<`).
pub open spec fn key_lt(a: Seq<char>, b: Seq<char>) -> bool
    decreases a.len(),
{
    if a.len() == 0 {
        b.len() > 0
    } else if b.len() == 0 {
        false
    } else if a[0] != b[0] {
        a[0] < b[0]
    } else {
        key_lt(a.drop_first(), b.drop_first())
    }
}

pub proof fn lemma_key_lt_trans(a: Seq<char>, b: Seq<char>, c: Seq<char>)
    requires
        key_lt(a, b),
        key_lt(b, c),
    ensures
        key_lt(a, c),
    decreases a.len(),
{
    if a.len() > 0 && b.len() > 0 && c.len() > 0 && a[0] == b[0] && b[0] == c[0] {
        lemma_key_lt_trans(a.drop_first(), b.drop_first(), c.drop_first());
    }
}

pub proof fn lemma_key_lt_total(a: Seq<char>, b: Seq<char>)
    ensures
        a == b || key_lt(a, b) || key_lt(b, a),
        !(key_lt(a, b) && key_lt(b, a)),
        !key_lt(a, a),
    decreases a.len(),
{
    if a.len() == 0 && b.len() == 0 {
        assert(a =~= b);
    } else if a.len() > 0 && b.len() > 0 {
        if a[0] == b[0] {
            lemma_key_lt_total(a.drop_first(), b.drop_first());
            if a.drop_first() == b.drop_first() {
                assert(a =~= seq![a[0]] + a.drop_first());
                assert(b =~= seq![b[0]] + b.drop_first());
            }
        } else {
        }
    }
    if a.len() > 0 {
        lemma_key_lt_total(a.drop_first(), a.drop_first());
    }
}

/// Whether `a` comes before `b`.
pub fn chars_lt(a: &Vec<char>, b: &Vec<char>) -> (r: bool)
    ensures
        r == key_lt(a@, b@),
{
    let mut i: usize = 0;
    assert(a@.skip(0) =~= a@ && b@.skip(0) =~= b@);
    while i < a.len() && i < b.len() && a[i] == b[i]
        invariant
            i <= a.len(),
            i <= b.len(),
            key_lt(a@, b@) == key_lt(a@.skip(i as int), b@.skip(i as int)),
        decreases a.len() - i,
    {
        proof {
            assert(a@.skip(i as int).drop_first() =~= a@.skip(i + 1));
            assert(b@.skip(i as int).drop_first() =~= b@.skip(i + 1));
        }
        i = i + 1;
    }
    if i == a.len() {
        i < b.len()
    } else if i == b.len() {
        false
    } else {
        a[i] < b[i]
    }
}

/// Entry `i` of `s` has the key `(chat, key)`.
pub open spec fn key_at(s: Seq<EntryView>, i: int, chat: i64, key: Seq<char>) -> bool {
    0 <= i < s.len() && s[i].0 == chat && s[i].1 == key
}

/// No two entries of `s` share a key.
pub open spec fn unique_keys(s: Seq<EntryView>) -> bool {
    forall|i: int, j: int|
        0 <= i < s.len() && 0 <= j < s.len() && i != j ==> !(s[i].0 == s[j].0 && s[i].1 == s[j].1)
}

/// The position of the entry with key `(chat, key)`.
pub open spec fn index_of(s: Seq<EntryView>, chat: i64, key: Seq<char>) -> Option<int> {
    if exists|i: int| key_at(s, i, chat, key) {
        Some(choose|i: int| key_at(s, i, chat, key))
    } else {
        None
    }
}

/// The value stored under `(chat, key)`.
pub open spec fn lookup(s: Seq<EntryView>, chat: i64, key: Seq<char>) -> Option<Seq<char>> {
    match index_of(s, chat, key) {
        Some(i) => Some(s[i].2),
        None => None,
    }
}

/// `s` after storing `value` under `(chat, key)`: an entry with that key
/// keeps its place and takes the new value; otherwise the entry is appended.
pub open spec fn upsert(s: Seq<EntryView>, chat: i64, key: Seq<char>, value: Seq<char>) -> Seq<
    EntryView,
> {
    match index_of(s, chat, key) {
        Some(i) => s.update(i, (chat, key, value)),
        None => s.push((chat, key, value)),
    }
}

/// `s` without the entry for `(chat, key)`, the others in order.
pub open spec fn without(s: Seq<EntryView>, chat: i64, key: Seq<char>) -> Seq<EntryView> {
    match index_of(s, chat, key) {
        Some(i) => s.remove(i),
        None => s,
    }
}

/// The `(key, value)` pairs of chat `chat`, in insertion order.
pub open spec fn chat_entries(s: Seq<EntryView>, chat: i64) -> Seq<(Seq<char>, Seq<char>)>
    decreases s.len(),
{
    if s.len() == 0 {
        seq![]
    } else {
        let r = chat_entries(s.drop_last(), chat);
        if s.last().0 == chat {
            r.push((s.last().1, s.last().2))
        } else {
            r
        }
    }
}

/// The value of the first entry of chat `chat`, in insertion order, whose
/// key occurs in `text`.
pub open spec fn first_contained(s: Seq<EntryView>, chat: i64, text: Seq<char>) -> Option<
    Seq<char>,
>
    decreases s.len(),
{
    if s.len() == 0 {
        None
    } else if s[0].0 == chat && contains(text, s[0].1) {
        Some(s[0].2)
    } else {
        first_contained(s.drop_first(), chat, text)
    }
}

/// `ps` is in strictly ascending order of key.
pub open spec fn sorted_by_key(ps: Seq<(Seq<char>, Seq<char>)>) -> bool {
    forall|i: int, j: int| 0 <= i < j < ps.len() ==> key_lt(ps[i].0, ps[j].0)
}

pub proof fn lemma_index_of(s: Seq<EntryView>, chat: i64, key: Seq<char>, i: int)
    requires
        unique_keys(s),
        key_at(s, i, chat, key),
    ensures
        index_of(s, chat, key) == Some(i),
{
    let j = choose|j: int| key_at(s, j, chat, key);
    assert(key_at(s, j, chat, key));
}

/// The keys of one chat's entries are distinct.
pub proof fn lemma_chat_entries_unique(s: Seq<EntryView>, chat: i64)
    requires
        unique_keys(s),
    ensures
        forall|i: int, j: int|
            0 <= i < j < chat_entries(s, chat).len() ==> chat_entries(s, chat)[i].0
                != chat_entries(s, chat)[j].0,
    decreases s.len(),
{
    if s.len() > 0 {
        let p = s.drop_last();
        assert forall|i: int, j: int|
            0 <= i < p.len() && 0 <= j < p.len() && i != j implies !(p[i].0 == p[j].0 && p[i].1
            == p[j].1) by {
            assert(p[i] == s[i] && p[j] == s[j]);
        }
        lemma_chat_entries_unique(p, chat);
        if s.last().0 == chat {
            let r = chat_entries(p, chat);
            assert forall|i: int| 0 <= i < r.len() implies r[i].0 != s.last().1 by {
                let w = lemma_chat_entry_from(p, chat, i);
                assert(s[w] == p[w]);
                assert(s.last() == s[s.len() - 1]);
            }
        }
    }
}

/// Pair `i` of `chat_entries(s, chat)` comes from entry `w` of chat `chat`;
/// the result is that `w`.
pub proof fn lemma_chat_entry_from(s: Seq<EntryView>, chat: i64, i: int) -> (w: int)
    requires
        0 <= i < chat_entries(s, chat).len(),
    ensures
        0 <= w < s.len(),
        s[w].0 == chat,
        s[w].1 == chat_entries(s, chat)[i].0,
    decreases s.len(),
{
    let p = s.drop_last();
    let rp = chat_entries(p, chat);
    if i < rp.len() {
        let w = lemma_chat_entry_from(p, chat, i);
        assert(s[w] == p[w]);
        w
    } else {
        s.len() - 1
    }
}

proof fn lemma_first_contained_update(s: Seq<EntryView>, i: int, e: EntryView, chat: i64, text: Seq<
    char,
>)
    requires
        0 <= i < s.len(),
        s[i].0 != chat,
        e.0 != chat,
    ensures
        first_contained(s.update(i, e), chat, text) == first_contained(s, chat, text),
    decreases s.len(),
{
    let u = s.update(i, e);
    if i > 0 {
        assert(u.drop_first() =~= s.drop_first().update(i - 1, e));
        lemma_first_contained_update(s.drop_first(), i - 1, e, chat, text);
    } else {
        assert(u.drop_first() =~= s.drop_first());
    }
}

proof fn lemma_first_contained_push(s: Seq<EntryView>, e: EntryView, chat: i64, text: Seq<char>)
    requires
        e.0 != chat,
    ensures
        first_contained(s.push(e), chat, text) == first_contained(s, chat, text),
    decreases s.len(),
{
    if s.len() > 0 {
        assert(s.push(e).drop_first() =~= s.drop_first().push(e));
        assert(s.push(e)[0] == s[0]);
        lemma_first_contained_push(s.drop_first(), e, chat, text);
    } else {
        assert(s.push(e).drop_first() =~= Seq::<EntryView>::empty());
        assert(s.push(e)[0] == e);
        assert(first_contained(Seq::<EntryView>::empty(), chat, text) is None);
    }
}

/// Storing a value in one chat changes nothing that another chat sees:
/// neither its exact lookups nor which of its keys a text contains first.
pub proof fn law_store_isolation(
    s: Seq<EntryView>,
    chat: i64,
    key: Seq<char>,
    value: Seq<char>,
    other: i64,
    other_key: Seq<char>,
    text: Seq<char>,
)
    requires
        unique_keys(s),
        chat != other,
    ensures
        lookup(upsert(s, chat, key, value), other, other_key) == lookup(s, other, other_key),
        first_contained(upsert(s, chat, key, value), other, text) == first_contained(
            s,
            other,
            text,
        ),
{
    let t = upsert(s, chat, key, value);
    lemma_upsert_unique(s, chat, key, value);
    match index_of(s, chat, key) {
        Some(i) => {
            let j = choose|j: int| key_at(s, j, chat, key);
            assert(key_at(s, j, chat, key));
            lemma_first_contained_update(s, i, (chat, key, value), other, text);
            if exists|w: int| key_at(s, w, other, other_key) {
                let w = choose|w: int| key_at(s, w, other, other_key);
                lemma_index_of(s, other, other_key, w);
                assert(key_at(t, w, other, other_key));
                lemma_index_of(t, other, other_key, w);
            } else {
                assert forall|w: int| !key_at(t, w, other, other_key) by {
                    if 0 <= w < t.len() && w != i {
                        assert(t[w] == s[w]);
                        assert(!key_at(s, w, other, other_key));
                    } else if w == i {
                        assert(t[w].0 == chat);
                    }
                }
            }
        },
        None => {
            lemma_first_contained_push(s, (chat, key, value), other, text);
            if exists|w: int| key_at(s, w, other, other_key) {
                let w = choose|w: int| key_at(s, w, other, other_key);
                lemma_index_of(s, other, other_key, w);
                assert(t[w] == s[w]);
                assert(key_at(t, w, other, other_key));
                lemma_index_of(t, other, other_key, w);
            } else {
                assert forall|w: int| !key_at(t, w, other, other_key) by {
                    if 0 <= w < s.len() {
                        assert(t[w] == s[w]);
                        assert(!key_at(s, w, other, other_key));
                    } else if w == s.len() {
                        assert(t[w].0 == chat);
                    }
                }
            }
        },
    }
}

/// Storing keeps each key unique.
pub proof fn lemma_upsert_unique(s: Seq<EntryView>, chat: i64, key: Seq<char>, value: Seq<char>)
    requires
        unique_keys(s),
    ensures
        unique_keys(upsert(s, chat, key, value)),
{
    let t = upsert(s, chat, key, value);
    match index_of(s, chat, key) {
        Some(i) => {
            let j = choose|j: int| key_at(s, j, chat, key);
            assert(key_at(s, j, chat, key));
            assert forall|a: int, b: int|
                0 <= a < t.len() && 0 <= b < t.len() && a != b implies !(t[a].0 == t[b].0
                && t[a].1 == t[b].1) by {
                if a != i && b != i {
                    assert(t[a] == s[a] && t[b] == s[b]);
                } else if a == i {
                    assert(t[b] == s[b]);
                } else {
                    assert(t[a] == s[a]);
                }
            }
        },
        None => {
            assert forall|a: int, b: int|
                0 <= a < t.len() && 0 <= b < t.len() && a != b implies !(t[a].0 == t[b].0
                && t[a].1 == t[b].1) by {
                if a == s.len() {
                    assert(!key_at(s, b, chat, key));
                    assert(t[b] == s[b]);
                } else if b == s.len() {
                    assert(!key_at(s, a, chat, key));
                    assert(t[a] == s[a]);
                } else {
                    assert(t[a] == s[a] && t[b] == s[b]);
                }
            }
        },
    }
}

/// Text values keyed by `(chat, key)`.
pub struct ChatStore {
    entries: Vec<(i64, String, String)>,
}

impl View for ChatStore {
    type V = Seq<EntryView>;

    closed spec fn view(&self) -> Seq<EntryView> {
        self.entries@.map_values(|e: (i64, String, String)| (e.0, e.1@, e.2@))
    }
}

impl ChatStore {
    /// Each key occurs once.
    pub open spec fn wf(&self) -> bool {
        unique_keys(self@)
    }

    pub fn new() -> (r: ChatStore)
        ensures
            r.wf(),
            r@ == Seq::<EntryView>::empty(),
    {
        let r = ChatStore { entries: Vec::new() };
        assert(r@ =~= Seq::<EntryView>::empty());
        r
    }

    /// The position of the entry with key `(chat, key)`.
    fn find(&self, chat: i64, key: &str) -> (r: Option<usize>)
        requires
            self.wf(),
        ensures
            match r {
                Some(i) => index_of(self@, chat, key@) == Some(i as int),
                None => index_of(self@, chat, key@) is None,
            },
    {
        let mut i: usize = 0;
        while i < self.entries.len()
            invariant
                i <= self.entries.len(),
                self.wf(),
                forall|j: int| 0 <= j < i ==> !key_at(self@, j, chat, key@),
            decreases self.entries.len() - i,
        {
            let e = &self.entries[i];
            assert(self@[i as int] == (e.0, e.1@, e.2@));
            if e.0 == chat && same_text(e.1.as_str(), key) {
                proof {
                    lemma_index_of(self@, chat, key@, i as int);
                }
                return Some(i);
            }
            i = i + 1;
        }
        None
    }

    /// The value stored under `(chat, key)`.
    pub fn get(&self, chat: i64, key: &str) -> (r: Option<String>)
        requires
            self.wf(),
        ensures
            match r {
                Some(v) => lookup(self@, chat, key@) == Some(v@),
                None => lookup(self@, chat, key@) is None,
            },
    {
        match self.find(chat, key) {
            Some(i) => {
                assert(self@[i as int].2 == self.entries@[i as int].2@);
                Some(self.entries[i].2.clone())
            },
            None => None,
        }
    }

    /// Stores `value` under `(chat, key)`, replacing an earlier value.
    pub fn set(&mut self, chat: i64, key: String, value: String)
        requires
            old(self).wf(),
        ensures
            final(self).wf(),
            final(self)@ == upsert(old(self)@, chat, key@, value@),
    {
        match self.find(chat, key.as_str()) {
            Some(i) => {
                let ghost before = self@;
                let ghost k = key@;
                let ghost v = value@;
                self.entries.set(i, (chat, key, value));
                assert(self@ =~= before.update(i as int, (chat, k, v)));
                assert forall|a: int, b: int|
                    0 <= a < self@.len() && 0 <= b < self@.len() && a != b implies !(self@[a].0
                    == self@[b].0 && self@[a].1 == self@[b].1) by {
                    if a != i && b != i {
                        assert(self@[a] == before[a] && self@[b] == before[b]);
                    } else if a == i {
                        assert(self@[b] == before[b]);
                        assert(before[i as int].0 == chat && before[i as int].1 == k);
                    } else {
                        assert(self@[a] == before[a]);
                        assert(before[i as int].0 == chat && before[i as int].1 == k);
                    }
                }
            },
            None => {
                let ghost before = self@;
                let ghost k = key@;
                let ghost v = value@;
                self.entries.push((chat, key, value));
                assert(self@ =~= before.push((chat, k, v)));
                assert forall|a: int, b: int|
                    0 <= a < self@.len() && 0 <= b < self@.len() && a != b implies !(self@[a].0
                    == self@[b].0 && self@[a].1 == self@[b].1) by {
                    if a == before.len() {
                        assert(!key_at(before, b, chat, k));
                    } else if b == before.len() {
                        assert(!key_at(before, a, chat, k));
                    }
                }
            },
        }
    }

    /// Removes the entry for `(chat, key)`; whether there was one.
    pub fn remove(&mut self, chat: i64, key: &str) -> (r: bool)
        requires
            old(self).wf(),
        ensures
            final(self).wf(),
            r == (lookup(old(self)@, chat, key@) is Some),
            final(self)@ == without(old(self)@, chat, key@),
    {
        match self.find(chat, key) {
            Some(i) => {
                let ghost before = self@;
                self.entries.remove(i);
                assert(self@ =~= before.remove(i as int));
                assert forall|a: int, b: int|
                    0 <= a < self@.len() && 0 <= b < self@.len() && a != b implies !(self@[a].0
                    == self@[b].0 && self@[a].1 == self@[b].1) by {
                    let a2 = if a < i { a } else { a + 1 };
                    let b2 = if b < i { b } else { b + 1 };
                    assert(self@[a] == before[a2] && self@[b] == before[b2]);
                }
                true
            },
            None => false,
        }
    }

    /// The `(key, value)` pairs of chat `chat`, in insertion order.
    pub fn scan(&self, chat: i64) -> (r: Vec<(String, String)>)
        ensures
            r@.map_values(|p: (String, String)| (p.0@, p.1@)) == chat_entries(self@, chat),
    {
        let mut out: Vec<(String, String)> = Vec::new();
        let mut i: usize = 0;
        assert(self@.take(0) =~= Seq::<EntryView>::empty());
        while i < self.entries.len()
            invariant
                i <= self.entries.len(),
                out@.map_values(|p: (String, String)| (p.0@, p.1@)) == chat_entries(
                    self@.take(i as int),
                    chat,
                ),
            decreases self.entries.len() - i,
        {
            let e = &self.entries[i];
            assert(self@.take(i + 1).drop_last() =~= self@.take(i as int));
            assert(self@.take(i + 1).last() == (e.0, e.1@, e.2@));
            if e.0 == chat {
                let ghost before = out@.map_values(|p: (String, String)| (p.0@, p.1@));
                out.push((e.1.clone(), e.2.clone()));
                assert(out@.map_values(|p: (String, String)| (p.0@, p.1@)) =~= before.push(
                    (e.1@, e.2@),
                ));
            }
            i = i + 1;
        }
        assert(self@.take(self.entries.len() as int) =~= self@);
        out
    }

    /// The value of the first entry of chat `chat`, in insertion order, whose
    /// key occurs in `text`.
    pub fn first_contained_in(&self, chat: i64, text: &Vec<char>) -> (r: Option<String>)
        ensures
            match r {
                Some(v) => first_contained(self@, chat, text@) == Some(v@),
                None => first_contained(self@, chat, text@) is None,
            },
    {
        let mut i: usize = 0;
        assert(self@.skip(0) =~= self@);
        while i < self.entries.len()
            invariant
                i <= self.entries.len(),
                first_contained(self@.skip(i as int), chat, text@) == first_contained(
                    self@,
                    chat,
                    text@,
                ),
            decreases self.entries.len() - i,
        {
            let e = &self.entries[i];
            let ghost rest = self@.skip(i as int);
            assert(rest[0] == (e.0, e.1@, e.2@));
            assert(rest.drop_first() =~= self@.skip(i + 1));
            if e.0 == chat {
                let k = chars_of(e.1.as_str());
                if contains_chars(text, &k) {
                    return Some(e.2.clone());
                }
            }
            i = i + 1;
        }
        assert(self@.skip(i as int) =~= Seq::<EntryView>::empty());
        None
    }
}

/// Sorts `(key, value)` pairs with distinct keys into ascending key order.
pub fn sort_by_key(ps: Vec<(String, String)>) -> (r: Vec<(String, String)>)
    requires
        forall|i: int, j: int| 0 <= i < j < ps.len() ==> ps@[i].0@ != ps@[j].0@,
    ensures
        sorted_by_key(r@.map_values(|p: (String, String)| (p.0@, p.1@))),
        r@.map_values(|p: (String, String)| (p.0@, p.1@)).to_multiset() =~= ps@.map_values(
            |p: (String, String)| (p.0@, p.1@),
        ).to_multiset(),
{
    let ghost src = ps@.map_values(|p: (String, String)| (p.0@, p.1@));
    let mut out: Vec<(String, String)> = Vec::new();
    let mut i: usize = 0;
    proof {
        assert(src.take(0) =~= Seq::<(Seq<char>, Seq<char>)>::empty());
        assert(out@.map_values(|p: (String, String)| (p.0@, p.1@)) =~= Seq::<
            (Seq<char>, Seq<char>),
        >::empty());
    }
    while i < ps.len()
        invariant
            i <= ps.len(),
            src == ps@.map_values(|p: (String, String)| (p.0@, p.1@)),
            forall|a: int, b: int| 0 <= a < b < ps.len() ==> ps@[a].0@ != ps@[b].0@,
            sorted_by_key(out@.map_values(|p: (String, String)| (p.0@, p.1@))),
            out@.map_values(|p: (String, String)| (p.0@, p.1@)).to_multiset() =~= src.take(
                i as int,
            ).to_multiset(),
        decreases ps.len() - i,
    {
        let ghost cur = out@.map_values(|p: (String, String)| (p.0@, p.1@));
        let key = chars_of(ps[i].0.as_str());
        let mut p: usize = 0;
        while p < out.len() && chars_lt(&chars_of(out[p].0.as_str()), &key)
            invariant
                p <= out.len(),
                cur == out@.map_values(|p: (String, String)| (p.0@, p.1@)),
                key@ == ps@[i as int].0@,
                i < ps.len(),
                forall|q: int| 0 <= q < p ==> key_lt(#[trigger] cur[q].0, key@),
            decreases out.len() - p,
        {
            p = p + 1;
        }
        proof {
            // No kept key equals the new one: each came from an earlier pair.
            broadcast use vstd::seq_lib::group_to_multiset_ensures;

            assert forall|q: int| 0 <= q < cur.len() implies cur[q].0 != key@ by {
                assert(cur.contains(cur[q]));
                assert(cur.to_multiset().count(cur[q]) > 0);
                assert(src.take(i as int).to_multiset().count(cur[q]) > 0);
                assert(src.take(i as int).contains(cur[q]));
                let w = choose|w: int| 0 <= w < i && src.take(i as int)[w] == cur[q];
                assert(src[w].0 == ps@[w].0@);
            }
            if p < cur.len() {
                lemma_key_lt_total(cur[p as int].0, key@);
            }
        }
        let item = (ps[i].0.clone(), ps[i].1.clone());
        let ghost iv = (item.0@, item.1@);
        out.insert(p, item);
        proof {
            let nw = out@.map_values(|p: (String, String)| (p.0@, p.1@));
            assert(nw =~= cur.insert(p as int, iv));
            assert(iv == src[i as int]);
            assert(src.take(i + 1) =~= src.take(i as int).push(src[i as int]));
            assert(cur.insert(p as int, iv).to_multiset() =~= cur.to_multiset().insert(iv));
            assert forall|a: int, b: int| 0 <= a < b < nw.len() implies key_lt(
                nw[a].0,
                nw[b].0,
            ) by {
                if b < p {
                } else if b == p {
                    assert(nw[a] == cur[a]);
                } else if a == p {
                    assert(nw[b] == cur[b - 1]);
                    if b - 1 > p {
                        lemma_key_lt_trans(key@, cur[p as int].0, cur[b - 1].0);
                    }
                } else if a < p {
                    assert(nw[a] == cur[a] && nw[b] == cur[b - 1]);
                } else {
                    assert(nw[a] == cur[a - 1] && nw[b] == cur[b - 1]);
                }
            }
        }
        i = i + 1;
    }
    assert(src.take(ps.len() as int) =~= src);
    out
}

} // verus!
