//! Keyword filters: per chat, a lower-cased keyword and the reply sent when
//! a message contains it.
use vstd::prelude::*;
use crate::store::{
    chat_entries, first_contained, lookup, sort_by_key, sorted_by_key, upsert, without, ChatStore,
    EntryView,
};
use crate::text::{join_from, join_words, lower_of, lowercase, views};

verus! {

/// The filters of every chat.
pub struct FilterStore {
    store: ChatStore,
}

impl View for FilterStore {
    type V = Seq<EntryView>;

    closed spec fn view(&self) -> Seq<EntryView> {
        self.store@
    }
}

/// An empty filter store.
pub fn new_filter_store() -> (r: FilterStore)
    ensures
        r.wf(),
        r@ == Seq::<EntryView>::empty(),
{
    FilterStore { store: ChatStore::new() }
}

impl FilterStore {
    pub closed spec fn wf(&self) -> bool {
        self.store.wf()
    }

    /// Stores `response` for the lower-cased `keyword` in chat `chat`,
    /// replacing an earlier response; returns the stored keyword.
    pub fn set_filter(&mut self, chat: i64, keyword: &str, response: &str) -> (r: String)
        requires
            old(self).wf(),
        ensures
            final(self).wf(),
            r@ == lower_of(keyword@),
            final(self)@ == upsert(old(self)@, chat, lower_of(keyword@), response@),
    {
        let key = lowercase(keyword);
        self.store.set(chat, key.clone(), response.to_owned());
        key
    }

    /// `/filter keyword response words...`: stores the first argument as the
    /// keyword and the others, joined by spaces, as the response. With fewer
    /// than two arguments nothing is stored and the result is `None`.
    pub fn set_filter_from_args(&mut self, chat: i64, args: &Vec<String>) -> (r: Option<
        (String, String),
    >)
        requires
            old(self).wf(),
        ensures
            final(self).wf(),
            args.len() < 2 ==> r is None && final(self)@ == old(self)@,
            args.len() >= 2 ==> match r {
                Some(p) => p.0@ == lower_of(args@[0]@) && p.1@ == join_words(views(args@).skip(1)),
                None => false,
            },
            args.len() >= 2 ==> final(self)@ == upsert(
                old(self)@,
                chat,
                lower_of(args@[0]@),
                join_words(views(args@).skip(1)),
            ),
    {
        if args.len() < 2 {
            return None;
        }
        let response = join_from(args, 1);
        let key = self.set_filter(chat, args[0].as_str(), response.as_str());
        Some((key, response))
    }

    /// Removes the filter for the lower-cased `keyword`; whether there was one.
    pub fn delete_filter(&mut self, chat: i64, keyword: &str) -> (r: bool)
        requires
            old(self).wf(),
        ensures
            final(self).wf(),
            r == (lookup(old(self)@, chat, lower_of(keyword@)) is Some),
            final(self)@ == without(old(self)@, chat, lower_of(keyword@)),
    {
        let key = lowercase(keyword);
        self.store.remove(chat, key.as_str())
    }

    /// The response stored for exactly the lower-cased `keyword`.
    pub fn get_filter(&self, chat: i64, keyword: &str) -> (r: Option<String>)
        requires
            self.wf(),
        ensures
            match r {
                Some(v) => lookup(self@, chat, lower_of(keyword@)) == Some(v@),
                None => lookup(self@, chat, lower_of(keyword@)) is None,
            },
    {
        let key = lowercase(keyword);
        self.store.get(chat, key.as_str())
    }

    /// The `(keyword, response)` pairs of chat `chat`, in ascending keyword
    /// order.
    pub fn list_filters(&self, chat: i64) -> (r: Vec<(String, String)>)
        requires
            self.wf(),
        ensures
            sorted_by_key(r@.map_values(|p: (String, String)| (p.0@, p.1@))),
            r@.map_values(|p: (String, String)| (p.0@, p.1@)).to_multiset() == chat_entries(
                self@,
                chat,
            ).to_multiset(),
    {
        let ps = self.store.scan(chat);
        proof {
            crate::store::lemma_chat_entries_unique(self@, chat);
            let pv = ps@.map_values(|p: (String, String)| (p.0@, p.1@));
            assert forall|i: int, j: int| 0 <= i < j < ps.len() implies ps@[i].0@ != ps@[j].0@ by {
                assert(pv[i].0 == ps@[i].0@ && pv[j].0 == ps@[j].0@);
            }
        }
        sort_by_key(ps)
    }

    /// The response of the first filter of chat `chat`, in insertion order,
    /// whose keyword occurs in the lower-cased `text`.
    pub fn check_filters(&self, chat: i64, text: &str) -> (r: Option<String>)
        ensures
            match r {
                Some(v) => first_contained(self@, chat, lower_of(text@)) == Some(v@),
                None => first_contained(self@, chat, lower_of(text@)) is None,
            },
    {
        let lower = lowercase(text);
        let cs = crate::text::chars_of(lower.as_str());
        self.store.first_contained_in(chat, &cs)
    }
}

} // verus!
