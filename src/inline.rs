//! Inline queries: which kind of answer a query asks for, and the search of
//! a table of entries for a query.
use vstd::prelude::*;
use crate::text::{
    chars_of, contains, contains_str, has_prefix, lower_of, lowercase, slice_string,
    starts_with_str, trim, trim_string,
};

verus! {

/// The kinds of inline answers.
#[derive(Clone, Copy, Debug, PartialEq, Eq, Structural)]
pub enum InlineTopic {
    /// An empty query: a featured selection.
    Featured,
    /// `method:`, `fn ` or `bot.` followed by a search term.
    Methods,
    /// A query about sending messages or media.
    Messaging,
    /// A query about moderation or members.
    Moderation,
    Jokes,
    Facts,
    About,
    /// Anything else: a general search.
    Search,
}

/// `s` without every leading repetition of `p`.
pub open spec fn strip_all(s: Seq<char>, p: Seq<char>) -> Seq<char>
    decreases s.len(),
{
    if p.len() > 0 && has_prefix(s, p) {
        strip_all(s.skip(p.len() as int), p)
    } else {
        s
    }
}

/// The normalized query: trimmed, then lower-cased.
pub open spec fn normalized(query: Seq<char>) -> Seq<char> {
    lower_of(trim(query))
}

/// The kind of answer that the normalized query `q` asks for; the first
/// rule that applies decides.
pub open spec fn topic_of(q: Seq<char>) -> InlineTopic {
    if q.len() == 0 {
        InlineTopic::Featured
    } else if has_prefix(q, "method:"@) || has_prefix(q, "fn "@) || has_prefix(q, "bot."@) {
        InlineTopic::Methods
    } else if contains(q, "send"@) || contains(q, "message"@) || contains(q, "photo"@) || contains(
        q,
        "video"@,
    ) || contains(q, "media"@) {
        InlineTopic::Messaging
    } else if contains(q, "ban"@) || contains(q, "mute"@) || contains(q, "kick"@) || contains(
        q,
        "restrict"@,
    ) || contains(q, "admin"@) || contains(q, "promote"@) || contains(q, "member"@) {
        InlineTopic::Moderation
    } else if contains(q, "joke"@) || contains(q, "fun"@) || contains(q, "lol"@) {
        InlineTopic::Jokes
    } else if contains(q, "fact"@) || contains(q, "rust"@) || contains(q, "memory"@) || contains(
        q,
        "linux"@,
    ) {
        InlineTopic::Facts
    } else if contains(q, "about"@) || contains(q, "bot"@) || contains(q, "tgbotrs"@) || contains(
        q,
        "lib"@,
    ) {
        InlineTopic::About
    } else {
        InlineTopic::Search
    }
}

/// The search term of the normalized query `q`: for a method search the
/// text after the `method:`, `fn ` and `bot.` prefixes, trimmed; else `q`.
pub open spec fn term_of(q: Seq<char>) -> Seq<char> {
    if topic_of(q) == InlineTopic::Methods {
        trim(strip_all(strip_all(strip_all(q, "method:"@), "fn "@), "bot."@))
    } else {
        q
    }
}

/// `s` without every leading repetition of `p`.
fn strip_all_str(s: &str, p: &str) -> (r: String)
    ensures
        r@ == strip_all(s@, p@),
{
    let cs = chars_of(s);
    let pl = p.unicode_len();
    let mut a: usize = 0;
    assert(s@.skip(0) =~= s@);
    if pl == 0 {
        return slice_string(s, 0, cs.len());
    }
    while a < cs.len()
        invariant
            cs@ == s@,
            a <= cs.len(),
            pl == p@.len(),
            pl > 0,
            strip_all(s@.skip(a as int), p@) == strip_all(s@, p@),
        decreases cs.len() - a,
    {
        let rest = slice_string(s, a, cs.len());
        let rc = chars_of(rest.as_str());
        assert(rest@ =~= s@.skip(a as int));
        if !starts_with_str(&rc, p) {
            assert(s@.subrange(a as int, cs.len() as int) =~= s@.skip(a as int));
            return rest;
        }
        assert(s@.skip(a as int).skip(pl as int) =~= s@.skip(a + pl));
        a = a + pl;
    }
    assert(s@.skip(a as int) =~= Seq::<char>::empty());
    slice_string(s, a, cs.len())
}

/// Classifies an inline query; returns its kind and its search term.
pub fn inline_topic(query: &str) -> (r: (InlineTopic, String))
    ensures
        r.0 == topic_of(normalized(query@)),
        r.1@ == term_of(normalized(query@)),
{
    let t = trim_string(query);
    let q = lowercase(t.as_str());
    let qc = chars_of(q.as_str());
    let topic = if qc.len() == 0 {
        InlineTopic::Featured
    } else if starts_with_str(&qc, "method:") || starts_with_str(&qc, "fn ") || starts_with_str(
        &qc,
        "bot.",
    ) {
        InlineTopic::Methods
    } else if contains_str(&qc, "send") || contains_str(&qc, "message") || contains_str(&qc, "photo")
        || contains_str(&qc, "video") || contains_str(&qc, "media") {
        InlineTopic::Messaging
    } else if contains_str(&qc, "ban") || contains_str(&qc, "mute") || contains_str(&qc, "kick")
        || contains_str(&qc, "restrict") || contains_str(&qc, "admin") || contains_str(
        &qc,
        "promote",
    ) || contains_str(&qc, "member") {
        InlineTopic::Moderation
    } else if contains_str(&qc, "joke") || contains_str(&qc, "fun") || contains_str(&qc, "lol") {
        InlineTopic::Jokes
    } else if contains_str(&qc, "fact") || contains_str(&qc, "rust") || contains_str(&qc, "memory")
        || contains_str(&qc, "linux") {
        InlineTopic::Facts
    } else if contains_str(&qc, "about") || contains_str(&qc, "bot") || contains_str(&qc, "tgbotrs")
        || contains_str(&qc, "lib") {
        InlineTopic::About
    } else {
        InlineTopic::Search
    };
    if topic == InlineTopic::Methods {
        let a = strip_all_str(q.as_str(), "method:");
        let b = strip_all_str(a.as_str(), "fn ");
        let c = strip_all_str(b.as_str(), "bot.");
        (topic, trim_string(c.as_str()))
    } else {
        (topic, q)
    }
}

/// One entry of a searchable table: its text fields and a tag.
#[derive(Clone, Debug)]
pub struct SearchRow {
    pub fields: Vec<String>,
    pub tag: String,
}

/// A row as `(fields, tag)`.
pub type RowView = (Seq<Seq<char>>, Seq<char>);

pub open spec fn rows_view(rows: Seq<SearchRow>) -> Seq<RowView> {
    rows.map_values(|r: SearchRow| (r.fields@.map_values(|f: String| f@), r.tag@))
}

/// A row matches when one of its fields, lower-cased, contains `q`, or
/// when a tag text `t` is given and the row's tag contains it.
pub open spec fn row_matches(
    fields: Seq<Seq<char>>,
    tag: Seq<char>,
    q: Seq<char>,
    t: Option<Seq<char>>,
) -> bool {
    (exists|j: int| 0 <= j < fields.len() && contains(lower_of(#[trigger] fields[j]), q)) || (
    t is Some && contains(tag, t->0))
}

/// The indices of the matching rows, in order.
pub open spec fn hits(rows: Seq<RowView>, q: Seq<char>, t: Option<Seq<char>>) -> Seq<int>
    decreases rows.len(),
{
    if rows.len() == 0 {
        seq![]
    } else {
        let h = hits(rows.drop_last(), q, t);
        if row_matches(rows.last().0, rows.last().1, q, t) {
            h.push(rows.len() - 1)
        } else {
            h
        }
    }
}

pub open spec fn opt_text(t: Option<&str>) -> Option<Seq<char>> {
    match t {
        Some(s) => Some(s@),
        None => None,
    }
}

/// Whether one row matches.
fn matches_row(row: &SearchRow, q: &Vec<char>, tag: Option<&str>) -> (r: bool)
    ensures
        r == row_matches(row.fields@.map_values(|f: String| f@), row.tag@, q@, opt_text(tag)),
{
    let ghost fv = row.fields@.map_values(|f: String| f@);
    let mut j: usize = 0;
    while j < row.fields.len()
        invariant
            j <= row.fields.len(),
            fv == row.fields@.map_values(|f: String| f@),
            forall|k: int| 0 <= k < j ==> !contains(lower_of(#[trigger] fv[k]), q@),
        decreases row.fields.len() - j,
    {
        let l = lowercase(row.fields[j].as_str());
        let lc = chars_of(l.as_str());
        assert(fv[j as int] == row.fields@[j as int]@);
        if crate::text::contains_chars(&lc, q) {
            assert(contains(lower_of(fv[j as int]), q@));
            return true;
        }
        j = j + 1;
    }
    match tag {
        Some(t) => {
            let tc = chars_of(row.tag.as_str());
            contains_str(&tc, t)
        },
        None => false,
    }
}

/// The indices of the first `limit` rows that match the normalized query
/// `q`, in order.
pub fn search(rows: &Vec<SearchRow>, q: &str, tag: Option<&str>, limit: usize) -> (r: Vec<usize>)
    ensures
        r@.map_values(|i: usize| i as int) == {
            let h = hits(rows_view(rows@), q@, opt_text(tag));
            if h.len() <= limit {
                h
            } else {
                h.take(limit as int)
            }
        },
{
    let qc = chars_of(q);
    let ghost rv = rows_view(rows@);
    let ghost t = opt_text(tag);
    let mut out: Vec<usize> = Vec::new();
    let mut i: usize = 0;
    assert(rv.take(0) =~= Seq::<RowView>::empty());
    assert(out@.map_values(|i: usize| i as int) =~= Seq::<int>::empty());
    while i < rows.len()
        invariant
            i <= rows.len(),
            qc@ == q@,
            rv == rows_view(rows@),
            t == opt_text(tag),
            out@.map_values(|i: usize| i as int) == {
                let h = hits(rv.take(i as int), q@, t);
                if h.len() <= limit {
                    h
                } else {
                    h.take(limit as int)
                }
            },
        decreases rows.len() - i,
    {
        let ghost h0 = hits(rv.take(i as int), q@, t);
        let m = matches_row(&rows[i], &qc, tag);
        assert(rv.take(i + 1).drop_last() =~= rv.take(i as int));
        assert(rv.take(i + 1).last() == rv[i as int]);
        proof {
            lemma_hits_len(rv.take(i as int), q@, t);
        }
        if m && out.len() < limit {
            let ghost before = out@.map_values(|i: usize| i as int);
            out.push(i);
            assert(out@.map_values(|i: usize| i as int) =~= before.push(i as int));
        } else if m {
            assert(h0.push(i as int).take(limit as int) =~= h0.take(limit as int));
        }
        i = i + 1;
    }
    assert(rv.take(rows.len() as int) =~= rv);
    out
}

proof fn lemma_hits_len(rows: Seq<RowView>, q: Seq<char>, t: Option<Seq<char>>)
    ensures
        hits(rows, q, t).len() <= rows.len(),
    decreases rows.len(),
{
    if rows.len() > 0 {
        lemma_hits_len(rows.drop_last(), q, t);
    }
}

} // verus!
