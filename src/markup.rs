//! The button markup of `/send`-style commands: lines holding
//! `[label | target]` groups become rows of buttons, the other lines the
//! message body.
use vstd::prelude::*;
use crate::text::{
    chars_of, has_prefix, join_lines, lines, slice_string, split_lines, starts_with_chars, trim,
    trim_string, views,
};

verus! {

/// What pressing a button does.
#[derive(Clone, Copy, Debug, PartialEq, Eq, Structural)]
pub enum ButtonKind {
    /// Sends the target back to the bot as callback data.
    Callback,
    /// Opens the target as a link.
    Link,
}

/// One button of a grid.
#[derive(Clone, Debug)]
pub struct Button {
    pub label: String,
    pub target: String,
    pub kind: ButtonKind,
}

/// A button as `(label, target, kind)`.
pub type ButtonView = (Seq<char>, Seq<char>, ButtonKind);

impl View for Button {
    type V = ButtonView;

    open spec fn view(&self) -> ButtonView {
        (self.label@, self.target@, self.kind)
    }
}

pub open spec fn row_view(r: Seq<Button>) -> Seq<ButtonView> {
    r.map_values(|b: Button| b@)
}

pub open spec fn grid_view(g: Seq<Vec<Button>>) -> Seq<Seq<ButtonView>> {
    g.map_values(|r: Vec<Button>| row_view(r@))
}

/// Index of the first `c` in `s`, or its length when there is none.
pub open spec fn first_index(s: Seq<char>, c: char) -> nat
    decreases s.len(),
{
    if s.len() == 0 || s[0] == c {
        0
    } else {
        1 + first_index(s.drop_first(), c)
    }
}

pub proof fn lemma_first_index_bound(s: Seq<char>, c: char)
    ensures
        first_index(s, c) <= s.len(),
    decreases s.len(),
{
    if s.len() > 0 && s[0] != c {
        lemma_first_index_bound(s.drop_first(), c);
    }
}

pub proof fn lemma_first_index_is(s: Seq<char>, c: char, k: int)
    requires
        0 <= k <= s.len(),
        forall|i: int| 0 <= i < k ==> #[trigger] s[i] != c,
        k == s.len() || s[k] == c,
    ensures
        first_index(s, c) == k,
    decreases k,
{
    if k > 0 {
        lemma_first_index_is(s.drop_first(), c, k - 1);
    }
}

/// A target opens as a link when it starts with `http://`, `https://` or
/// `tg://`.
pub open spec fn is_link(t: Seq<char>) -> bool {
    has_prefix(t, seq!['h', 't', 't', 'p', ':', '/', '/']) || has_prefix(
        t,
        seq!['h', 't', 't', 'p', 's', ':', '/', '/'],
    ) || has_prefix(t, seq!['t', 'g', ':', '/', '/'])
}

/// The button that the inside of one bracket group stands for: the trimmed
/// text before the first `|` is the label, the trimmed text after it the
/// target; a group without `|`, or with an empty label or target, is none.
pub open spec fn group_button(inner: Seq<char>) -> Option<ButtonView> {
    let p = first_index(inner, '|');
    if p < inner.len() {
        let label = trim(inner.take(p as int));
        let target = trim(inner.skip(p as int + 1));
        if label.len() > 0 && target.len() > 0 {
            Some((label, target, if is_link(target) { ButtonKind::Link } else { ButtonKind::Callback }))
        } else {
            None
        }
    } else {
        None
    }
}

/// The buttons of one line, left to right: each `[` up to the next `]`
/// encloses a group; scanning stops at a `[` that no `]` follows.
pub open spec fn row_buttons(line: Seq<char>) -> Seq<ButtonView>
    decreases line.len(),
{
    let op = first_index(line, '[');
    if op < line.len() {
        let after = line.skip(op as int + 1);
        let cl = first_index(after, ']');
        if cl < after.len() {
            let tail = row_buttons(after.skip(cl as int + 1));
            match group_button(after.take(cl as int)) {
                Some(b) => seq![b] + tail,
                None => tail,
            }
        } else {
            seq![]
        }
    } else {
        seq![]
    }
}

/// A line is markup when it holds a `[`, a `|` and a `]`, in any order.
pub open spec fn is_markup_line(l: Seq<char>) -> bool {
    l.contains('[') && l.contains('|') && l.contains(']')
}

/// The rows that the markup lines among `ls` give, in order; a markup line
/// without a valid group gives no row.
pub open spec fn button_rows(ls: Seq<Seq<char>>) -> Seq<Seq<ButtonView>>
    decreases ls.len(),
{
    if ls.len() == 0 {
        seq![]
    } else {
        let r = button_rows(ls.drop_last());
        let l = ls.last();
        if is_markup_line(l) && row_buttons(l).len() > 0 {
            r.push(row_buttons(l))
        } else {
            r
        }
    }
}

/// The lines among `ls` that are not markup, in order.
pub open spec fn body_lines(ls: Seq<Seq<char>>) -> Seq<Seq<char>>
    decreases ls.len(),
{
    if ls.len() == 0 {
        seq![]
    } else {
        let r = body_lines(ls.drop_last());
        if is_markup_line(ls.last()) {
            r
        } else {
            r.push(ls.last())
        }
    }
}

/// The body of a markup text: its other lines joined by newlines, trimmed.
pub open spec fn message_body(raw: Seq<char>) -> Seq<char> {
    trim(join_lines(body_lines(lines(raw))))
}

/// The button grid of a markup text.
pub open spec fn message_rows(raw: Seq<char>) -> Seq<Seq<ButtonView>> {
    button_rows(lines(raw))
}

/// Index of the first `c` in `cs[from..]`, as an index of `cs`.
pub fn find_char(cs: &Vec<char>, from: usize, c: char) -> (r: usize)
    requires
        from <= cs.len(),
    ensures
        from <= r <= cs.len(),
        r - from == first_index(cs@.skip(from as int), c),
{
    let n = cs.len();
    let mut i: usize = from;
    while i < n && cs[i] != c
        invariant
            from <= i <= n,
            n == cs.len(),
            forall|t: int| from <= t < i ==> #[trigger] cs@[t] != c,
        decreases n - i,
    {
        i = i + 1;
    }
    proof {
        lemma_first_index_is(cs@.skip(from as int), c, i - from);
    }
    i
}

/// Whether `c` occurs in `cs`.
fn has_char(cs: &Vec<char>, c: char) -> (r: bool)
    ensures
        r == cs@.contains(c),
{
    let i = find_char(cs, 0, c);
    proof {
        assert(cs@.skip(0) =~= cs@);
        if i < cs.len() {
            lemma_first_index_found(cs@, c);
        } else {
            lemma_first_index_absent(cs@, c);
        }
    }
    i < cs.len()
}

proof fn lemma_first_index_found(s: Seq<char>, c: char)
    requires
        first_index(s, c) < s.len(),
    ensures
        s[first_index(s, c) as int] == c,
    decreases s.len(),
{
    if s.len() > 0 && s[0] != c {
        lemma_first_index_found(s.drop_first(), c);
    }
}

proof fn lemma_first_index_absent(s: Seq<char>, c: char)
    requires
        first_index(s, c) >= s.len(),
    ensures
        !s.contains(c),
    decreases s.len(),
{
    if s.len() > 0 {
        if s[0] != c {
            lemma_first_index_absent(s.drop_first(), c);
            assert forall|i: int| 0 <= i < s.len() implies s[i] != c by {
                if i > 0 {
                    assert(s[i] == s.drop_first()[i - 1]);
                }
            }
        }
    }
}

/// Whether a target opens as a link.
fn link_target(t: &String) -> (r: bool)
    ensures
        r == is_link(t@),
{
    let cs = chars_of(t.as_str());
    let http = chars_of("http://");
    let https = chars_of("https://");
    let tg = chars_of("tg://");
    proof {
        reveal_strlit("http://");
        reveal_strlit("https://");
        reveal_strlit("tg://");
        assert(http@ =~= seq!['h', 't', 't', 'p', ':', '/', '/']);
        assert(https@ =~= seq!['h', 't', 't', 'p', 's', ':', '/', '/']);
        assert(tg@ =~= seq!['t', 'g', ':', '/', '/']);
    }
    starts_with_chars(&cs, &http) || starts_with_chars(&cs, &https) || starts_with_chars(&cs, &tg)
}

/// The button for the group `line[a..b]` (the text between `[` and `]`).
fn parse_group(line: &str, cs: &Vec<char>, a: usize, b: usize) -> (r: Option<Button>)
    requires
        cs@ == line@,
        a <= b <= cs.len(),
    ensures
        match r {
            Some(btn) => group_button(line@.subrange(a as int, b as int)) == Some(btn@),
            None => group_button(line@.subrange(a as int, b as int)) is None,
        },
{
    let ghost inner = line@.subrange(a as int, b as int);
    let p = find_char(cs, a, '|');
    let p = if p > b {
        b
    } else {
        p
    };
    proof {
        let k = first_index(cs@.skip(a as int), '|');
        lemma_first_index_prefix(cs@.skip(a as int), '|', b - a);
        assert(cs@.skip(a as int).take(b - a) =~= inner);
    }
    if p >= b {
        return None;
    }
    let label_raw = slice_string(line, a, p);
    let target_raw = slice_string(line, p + 1, b);
    let label = trim_string(label_raw.as_str());
    let target = trim_string(target_raw.as_str());
    proof {
        assert(label_raw@ =~= inner.take(p - a));
        assert(target_raw@ =~= inner.skip(p - a + 1));
    }
    if label.as_str().unicode_len() == 0 || target.as_str().unicode_len() == 0 {
        return None;
    }
    let kind = if link_target(&target) {
        ButtonKind::Link
    } else {
        ButtonKind::Callback
    };
    Some(Button { label, target, kind })
}

proof fn lemma_first_index_prefix(s: Seq<char>, c: char, m: int)
    requires
        0 <= m <= s.len(),
    ensures
        first_index(s.take(m), c) == if first_index(s, c) < m {
            first_index(s, c) as int
        } else {
            m
        },
    decreases m,
{
    if m > 0 && s[0] != c {
        lemma_first_index_prefix(s.drop_first(), c, m - 1);
        assert(s.take(m).drop_first() =~= s.drop_first().take(m - 1));
    }
}

/// The buttons of one line, left to right.
pub fn parse_row(line: &str) -> (r: Vec<Button>)
    ensures
        row_view(r@) == row_buttons(line@),
{
    let cs = chars_of(line);
    let n = cs.len();
    let mut out: Vec<Button> = Vec::new();
    let mut pos: usize = 0;
    assert(line@.skip(0) =~= line@);
    assert(row_view(out@) + row_buttons(line@) =~= row_buttons(line@));
    while pos < n
        invariant
            cs@ == line@,
            n == cs.len(),
            pos <= n,
            row_view(out@) + row_buttons(line@.skip(pos as int)) == row_buttons(line@),
        decreases n - pos,
    {
        let ghost rest = line@.skip(pos as int);
        let op = find_char(&cs, pos, '[');
        let cl = if op < n {
            find_char(&cs, op + 1, ']')
        } else {
            n
        };
        if op < n {
            assert(rest.skip(op - pos + 1) =~= line@.skip(op + 1));
        }
        if cl >= n {
            // No complete group is left on the line.
            assert(row_buttons(rest) =~= Seq::<ButtonView>::empty());
            assert(row_view(out@) + seq![] =~= row_view(out@));
            assert(line@.skip(n as int) =~= Seq::<char>::empty());
            pos = n;
        } else {
            proof {
                let after = line@.skip(op + 1);
                assert(after.take(cl - op - 1) =~= line@.subrange(op + 1, cl as int));
                assert(after.skip(cl - op - 1 + 1) =~= line@.skip(cl + 1));
            }
            let g = parse_group(line, &cs, op + 1, cl);
            let ghost before = row_view(out@);
            if let Some(b) = g {
                out.push(b);
                assert(row_view(out@) =~= before.push(b@));
                assert(before.push(b@) + row_buttons(line@.skip(cl + 1)) =~= before + (seq![b@]
                    + row_buttons(line@.skip(cl + 1))));
            }
            pos = cl + 1;
        }
    }
    assert(line@.skip(n as int) =~= Seq::<char>::empty());
    assert(row_buttons(line@.skip(n as int)) =~= Seq::<ButtonView>::empty());
    assert(row_view(out@) + seq![] =~= row_view(out@));
    out
}

/// Whether a line is markup.
pub fn markup_line(line: &str) -> (r: bool)
    ensures
        r == is_markup_line(line@),
{
    let cs = chars_of(line);
    has_char(&cs, '[') && has_char(&cs, '|') && has_char(&cs, ']')
}

/// The rows of buttons that the markup lines among `lines` give.
pub fn parse_button_rows(lines: &Vec<String>) -> (r: Vec<Vec<Button>>)
    ensures
        grid_view(r@) == button_rows(views(lines@)),
{
    let mut out: Vec<Vec<Button>> = Vec::new();
    let mut i: usize = 0;
    assert(views(lines@).take(0) =~= Seq::<Seq<char>>::empty());
    while i < lines.len()
        invariant
            i <= lines.len(),
            grid_view(out@) == button_rows(views(lines@).take(i as int)),
        decreases lines.len() - i,
    {
        let l = lines[i].as_str();
        assert(views(lines@).take(i + 1).drop_last() =~= views(lines@).take(i as int));
        assert(views(lines@).take(i + 1).last() == l@);
        if markup_line(l) {
            let row = parse_row(l);
            if row.len() > 0 {
                let ghost before = grid_view(out@);
                out.push(row);
                assert(grid_view(out@) =~= before.push(row_view(row@)));
            }
        }
        i = i + 1;
    }
    assert(views(lines@).take(lines.len() as int) =~= views(lines@));
    out
}

/// Splits a markup text into its body and its button grid.
pub fn split_body_buttons(raw: &str) -> (r: (String, Vec<Vec<Button>>))
    ensures
        r.0@ == message_body(raw@),
        grid_view(r.1@) == message_rows(raw@),
{
    let ls = split_lines(raw);
    let mut joined = String::new();
    let mut count: usize = 0;
    let mut i: usize = 0;
    proof {
        reveal_strlit("\n");
    }
    assert(views(ls@).take(0) =~= Seq::<Seq<char>>::empty());
    while i < ls.len()
        invariant
            i <= ls.len(),
            count <= i,
            count == body_lines(views(ls@).take(i as int)).len(),
            joined@ == join_lines(body_lines(views(ls@).take(i as int))),
            "\n"@ =~= seq!['\n'],
        decreases ls.len() - i,
    {
        let l = ls[i].as_str();
        let ghost prev = body_lines(views(ls@).take(i as int));
        assert(views(ls@).take(i + 1).drop_last() =~= views(ls@).take(i as int));
        assert(views(ls@).take(i + 1).last() == l@);
        if !markup_line(l) {
            let ghost next = prev.push(l@);
            assert(next.drop_last() =~= prev);
            if count > 0 {
                joined.append("\n");
            }
            joined.append(l);
            assert(next.len() == 1 ==> next[0] == l@);
            count = count + 1;
        }
        i = i + 1;
    }
    assert(views(ls@).take(ls.len() as int) =~= views(ls@));
    let body = trim_string(joined.as_str());
    let rows = parse_button_rows(&ls);
    (body, rows)
}

} // verus!
