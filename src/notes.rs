//! Notes: per chat, named texts fetched with `/get name` or with a message
//! that starts with `#name`.
use vstd::prelude::*;
use crate::store::{
    chat_entries, key_lt, lookup, sort_by_key, upsert, without, ChatStore,
    EntryView,
};
use crate::text::{
    chars_of, join_from, join_words, lower_of, lowercase, split_words, strip_hashes,
    strip_hashes_string, views, words,
};

verus! {

/// The notes of every chat.
pub struct NoteStore {
    store: ChatStore,
}

impl View for NoteStore {
    type V = Seq<EntryView>;

    closed spec fn view(&self) -> Seq<EntryView> {
        self.store@
    }
}

/// An empty note store.
pub fn new_note_store() -> (r: NoteStore)
    ensures
        r.wf(),
        r@ == Seq::<EntryView>::empty(),
{
    NoteStore { store: ChatStore::new() }
}

/// The note name that a message starting with `#` asks for: its first word
/// without the leading `#` characters, lower-cased; none when the message
/// does not start with `#` or that name is empty.
pub open spec fn hashtag_name(text: Seq<char>) -> Option<Seq<char>> {
    if text.len() > 0 && text[0] == '#' && words(text).len() > 0 && lower_of(
        strip_hashes(words(text)[0]),
    ).len() > 0 {
        Some(lower_of(strip_hashes(words(text)[0])))
    } else {
        None
    }
}

/// The note that a `#name` message fetches from `notes` in chat `chat`.
pub open spec fn hashtag_note(notes: Seq<EntryView>, chat: i64, text: Seq<char>) -> Option<
    Seq<char>,
> {
    match hashtag_name(text) {
        Some(n) => lookup(notes, chat, n),
        None => None,
    }
}

/// The keys of `ps`, in order.
pub open spec fn names_of(ps: Seq<(Seq<char>, Seq<char>)>) -> Seq<Seq<char>> {
    ps.map_values(|p: (Seq<char>, Seq<char>)| p.0)
}

impl NoteStore {
    pub closed spec fn wf(&self) -> bool {
        self.store.wf()
    }

    /// Stores `content` under the lower-cased `name` in chat `chat`,
    /// replacing an earlier note; returns the stored name.
    pub fn save_note(&mut self, chat: i64, name: &str, content: &str) -> (r: String)
        requires
            old(self).wf(),
        ensures
            final(self).wf(),
            r@ == lower_of(name@),
            final(self)@ == upsert(old(self)@, chat, lower_of(name@), content@),
    {
        let key = lowercase(name);
        self.store.set(chat, key.clone(), content.to_owned());
        key
    }

    /// `/note name content words...`: stores the first argument as the name
    /// and the others, joined by spaces, as the content. With fewer than two
    /// arguments nothing is stored and the result is `None`.
    pub fn save_note_from_args(&mut self, chat: i64, args: &Vec<String>) -> (r: Option<
        (String, String),
    >)
        requires
            old(self).wf(),
        ensures
            final(self).wf(),
            args.len() < 2 ==> r is None && final(self)@ == old(self)@,
            args.len() >= 2 ==> match r {
                Some(p) => p.0@ == lower_of(args@[0]@) && p.1@ == join_words(views(args@).skip(1)),
                None => false,
            },
            args.len() >= 2 ==> final(self)@ == upsert(
                old(self)@,
                chat,
                lower_of(args@[0]@),
                join_words(views(args@).skip(1)),
            ),
    {
        if args.len() < 2 {
            return None;
        }
        let content = join_from(args, 1);
        let key = self.save_note(chat, args[0].as_str(), content.as_str());
        Some((key, content))
    }

    /// `/get name`: the note named by the lower-cased `raw` without its
    /// leading `#` characters.
    pub fn get_note(&self, chat: i64, raw: &str) -> (r: Option<String>)
        requires
            self.wf(),
        ensures
            match r {
                Some(v) => lookup(self@, chat, strip_hashes(lower_of(raw@))) == Some(v@),
                None => lookup(self@, chat, strip_hashes(lower_of(raw@))) is None,
            },
    {
        let lower = lowercase(raw);
        let name = strip_hashes_string(lower.as_str());
        self.store.get(chat, name.as_str())
    }

    /// Removes the note with the lower-cased `name`; whether there was one.
    pub fn delete_note(&mut self, chat: i64, name: &str) -> (r: bool)
        requires
            old(self).wf(),
        ensures
            final(self).wf(),
            r == (lookup(old(self)@, chat, lower_of(name@)) is Some),
            final(self)@ == without(old(self)@, chat, lower_of(name@)),
    {
        let key = lowercase(name);
        self.store.remove(chat, key.as_str())
    }

    /// The note names of chat `chat`, in ascending order.
    pub fn list_notes(&self, chat: i64) -> (r: Vec<String>)
        requires
            self.wf(),
        ensures
            r.len() == chat_entries(self@, chat).len(),
            forall|i: int, j: int| 0 <= i < j < r.len() ==> key_lt(r@[i]@, r@[j]@),
            forall|i: int|
                0 <= i < r.len() ==> #[trigger] names_of(chat_entries(self@, chat)).contains(
                    r@[i]@,
                ),
    {
        let ps = self.store.scan(chat);
        let ghost pv = ps@.map_values(|p: (String, String)| (p.0@, p.1@));
        proof {
            crate::store::lemma_chat_entries_unique(self@, chat);
            assert forall|i: int, j: int| 0 <= i < j < ps.len() implies ps@[i].0@ != ps@[j].0@ by {
                assert(pv[i].0 == ps@[i].0@ && pv[j].0 == ps@[j].0@);
            }
        }
        let sorted = sort_by_key(ps);
        let ghost sv = sorted@.map_values(|p: (String, String)| (p.0@, p.1@));
        let mut names: Vec<String> = Vec::new();
        let mut i: usize = 0;
        while i < sorted.len()
            invariant
                i <= sorted.len(),
                names.len() == i,
                sv == sorted@.map_values(|p: (String, String)| (p.0@, p.1@)),
                forall|k: int| 0 <= k < i ==> #[trigger] names@[k]@ == sv[k].0,
            decreases sorted.len() - i,
        {
            names.push(sorted[i].0.clone());
            i = i + 1;
        }
        proof {
            broadcast use vstd::seq_lib::group_to_multiset_ensures;

            let ce = chat_entries(self@, chat);
            assert(sv.len() == ce.len()) by {
                assert(sv.to_multiset().len() == ce.to_multiset().len());
            }
            assert forall|k: int| 0 <= k < names.len() implies #[trigger] names_of(ce).contains(
                names@[k]@,
            ) by {
                assert(sv.contains(sv[k]));
                assert(sv.to_multiset().count(sv[k]) > 0);
                assert(ce.to_multiset().count(sv[k]) > 0);
                assert(ce.contains(sv[k]));
                let j = choose|j: int| 0 <= j < ce.len() && ce[j] == sv[k];
                assert(ce[j].0 == names@[k]@);
                assert(names_of(ce)[j] == names@[k]@);
            }
            assert forall|a: int, b: int| 0 <= a < b < names.len() implies key_lt(
                names@[a]@,
                names@[b]@,
            ) by {
                assert(names@[a]@ == sv[a].0 && names@[b]@ == sv[b].0);
            }
        }
        names
    }

    /// The note fetched by a message that starts with `#name`.
    pub fn check_hashtag_note(&self, chat: i64, text: &str) -> (r: Option<String>)
        requires
            self.wf(),
        ensures
            match r {
                Some(v) => hashtag_note(self@, chat, text@) == Some(v@),
                None => hashtag_note(self@, chat, text@) is None,
            },
    {
        let cs = chars_of(text);
        if cs.len() == 0 || cs[0] != '#' {
            return None;
        }
        let ws = split_words(text);
        if ws.len() == 0 {
            return None;
        }
        assert(views(ws@)[0] == ws@[0]@);
        let stripped = strip_hashes_string(ws[0].as_str());
        let name = lowercase(stripped.as_str());
        if name.as_str().unicode_len() == 0 {
            return None;
        }
        self.store.get(chat, name.as_str())
    }
}

} // verus!
