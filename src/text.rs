//! Character-level text helpers: Unicode white space, word splitting,
//! trimming, line splitting, HTML escaping, integer parsing and substring
//! search, each stated over `Seq<char>`.
use vstd::prelude::*;

verus! {

/// Unicode `White_Space`: the characters that `char::is_whitespace` accepts.
pub open spec fn is_space(c: char) -> bool {
    let u = c as u32;
    (0x09 <= u <= 0x0D) || u == 0x20 || u == 0x85 || u == 0xA0 || u == 0x1680 || (0x2000 <= u
        <= 0x200A) || u == 0x2028 || u == 0x2029 || u == 0x202F || u == 0x205F || u == 0x3000
}

pub fn is_space_char(c: char) -> (r: bool)
    ensures
        r == is_space(c),
{
    let u = c as u32;
    (0x09 <= u && u <= 0x0D) || u == 0x20 || u == 0x85 || u == 0xA0 || u == 0x1680 || (0x2000 <= u
        && u <= 0x200A) || u == 0x2028 || u == 0x2029 || u == 0x202F || u == 0x205F || u == 0x3000
}

/// Views of a sequence of strings.
pub open spec fn views(v: Seq<String>) -> Seq<Seq<char>> {
    v.map_values(|t: String| t@)
}

/// The characters of `s`, in order.
pub fn chars_of(s: &str) -> (r: Vec<char>)
    ensures
        r@ == s@,
{
    let mut v: Vec<char> = Vec::new();
    for c in it: s.chars()
        invariant
            v@ == it.seq().take(it.index() as int),
    {
        v.push(c);
    }
    v
}

/// An owned copy of the characters `a..b` of `s`.
pub fn slice_string(s: &str, a: usize, b: usize) -> (r: String)
    requires
        a <= b <= s@.len(),
    ensures
        r@ == s@.subrange(a as int, b as int),
{
    s.substring_char(a, b).to_owned()
}

/// Whether `a` and `b` hold the same characters.
pub fn same_text(a: &str, b: &str) -> (r: bool)
    ensures
        r == (a@ == b@),
{
    let x = chars_of(a);
    let y = chars_of(b);
    if x.len() != y.len() {
        return false;
    }
    let mut i: usize = 0;
    while i < x.len()
        invariant
            x@ == a@,
            y@ == b@,
            x.len() == y.len(),
            i <= x.len(),
            forall|j: int| 0 <= j < i ==> x@[j] == y@[j],
        decreases x.len() - i,
    {
        if x[i] != y[i] {
            assert(x@[i as int] != y@[i as int]);
            return false;
        }
        i = i + 1;
    }
    assert(x@ =~= y@);
    true
}

// ---------------------------------------------------------------- words

/// Number of leading characters of `s` that are not white space.
pub open spec fn word_len(s: Seq<char>) -> nat
    decreases s.len(),
{
    if s.len() == 0 || is_space(s[0]) {
        0
    } else {
        1 + word_len(s.drop_first())
    }
}

pub proof fn lemma_word_len_bound(s: Seq<char>)
    ensures
        word_len(s) <= s.len(),
        s.len() > 0 && !is_space(s[0]) ==> word_len(s) >= 1,
    decreases s.len(),
{
    if s.len() > 0 && !is_space(s[0]) {
        lemma_word_len_bound(s.drop_first());
    }
}

/// The maximal runs of non-white-space characters of `s`, left to right
/// (what `str::split_whitespace` yields).
pub open spec fn words(s: Seq<char>) -> Seq<Seq<char>>
    decreases s.len(),
{
    if s.len() == 0 {
        seq![]
    } else if is_space(s[0]) {
        words(s.drop_first())
    } else {
        let k = word_len(s);
        if 0 < k <= s.len() {
            seq![s.take(k as int)] + words(s.skip(k as int))
        } else {
            seq![]
        }
    }
}

pub proof fn lemma_word_len_is(s: Seq<char>, k: int)
    requires
        0 <= k <= s.len(),
        forall|i: int| 0 <= i < k ==> !is_space(#[trigger] s[i]),
        k == s.len() || is_space(s[k]),
    ensures
        word_len(s) == k,
    decreases k,
{
    if k > 0 {
        lemma_word_len_is(s.drop_first(), k - 1);
    }
}

/// The words of `s`, split at white space.
pub fn split_words(s: &str) -> (r: Vec<String>)
    ensures
        views(r@) == words(s@),
{
    let cs = chars_of(s);
    let n = cs.len();
    let mut out: Vec<String> = Vec::new();
    let mut i: usize = 0;
    assert(s@.skip(0) =~= s@);
    assert(views(out@) + words(s@) =~= words(s@));
    while i < n
        invariant
            cs@ == s@,
            n == cs.len(),
            i <= n,
            views(out@) + words(s@.skip(i as int)) == words(s@),
        decreases n - i,
    {
        let ghost rest = s@.skip(i as int);
        if is_space_char(cs[i]) {
            assert(rest.drop_first() =~= s@.skip(i + 1));
            i = i + 1;
        } else {
            let mut j: usize = i + 1;
            while j < n && !is_space_char(cs[j])
                invariant
                    cs@ == s@,
                    n == cs.len(),
                    i < j <= n,
                    forall|t: int| i <= t < j ==> !is_space(#[trigger] s@[t]),
                decreases n - j,
            {
                j = j + 1;
            }
            proof {
                lemma_word_len_is(rest, j - i);
                assert(rest.take(j - i) =~= s@.subrange(i as int, j as int));
                assert(rest.skip(j - i) =~= s@.skip(j as int));
            }
            let w = slice_string(s, i, j);
            let ghost before = views(out@);
            out.push(w);
            assert(views(out@) =~= before.push(w@));
            assert(before.push(w@) + words(s@.skip(j as int)) =~= before + (seq![w@] + words(
                s@.skip(j as int),
            )));
            i = j;
        }
    }
    assert(s@.skip(n as int) =~= Seq::<char>::empty());
    assert(views(out@) + seq![] =~= views(out@));
    out
}

// ---------------------------------------------------------------- trim

pub open spec fn trim_start(s: Seq<char>) -> Seq<char>
    decreases s.len(),
{
    if s.len() > 0 && is_space(s[0]) {
        trim_start(s.drop_first())
    } else {
        s
    }
}

pub open spec fn trim_end(s: Seq<char>) -> Seq<char>
    decreases s.len(),
{
    if s.len() > 0 && is_space(s.last()) {
        trim_end(s.drop_last())
    } else {
        s
    }
}

/// `s` without leading and trailing white space (what `str::trim` gives).
pub open spec fn trim(s: Seq<char>) -> Seq<char> {
    trim_end(trim_start(s))
}

pub proof fn lemma_trim_start_skip(s: Seq<char>, a: int)
    requires
        0 <= a <= s.len(),
        forall|i: int| 0 <= i < a ==> is_space(#[trigger] s[i]),
        a == s.len() || !is_space(s[a]),
    ensures
        trim_start(s) == s.skip(a),
    decreases a,
{
    if a > 0 {
        lemma_trim_start_skip(s.drop_first(), a - 1);
        assert(s.drop_first().skip(a - 1) =~= s.skip(a));
    } else {
        assert(s.skip(0) =~= s);
    }
}

proof fn lemma_trim_end_take(s: Seq<char>, b: int)
    requires
        0 <= b <= s.len(),
        forall|i: int| b <= i < s.len() ==> is_space(#[trigger] s[i]),
        b == 0 || !is_space(s[b - 1]),
    ensures
        trim_end(s) == s.take(b),
    decreases s.len() - b,
{
    if b < s.len() {
        lemma_trim_end_take(s.drop_last(), b);
        assert(s.drop_last().take(b) =~= s.take(b));
    } else {
        assert(s.take(b) =~= s);
    }
}

/// The bounds `(a, b)` of `trim(cs)` inside `cs`.
fn trim_bounds(cs: &Vec<char>) -> (r: (usize, usize))
    ensures
        r.0 <= r.1 <= cs.len(),
        trim(cs@) == cs@.subrange(r.0 as int, r.1 as int),
{
    let n = cs.len();
    let mut a: usize = 0;
    while a < n && is_space_char(cs[a])
        invariant
            a <= n,
            n == cs.len(),
            forall|i: int| 0 <= i < a ==> is_space(#[trigger] cs@[i]),
        decreases n - a,
    {
        a = a + 1;
    }
    let mut b: usize = n;
    while b > a && is_space_char(cs[b - 1])
        invariant
            a <= b <= n,
            n == cs.len(),
            forall|i: int| b <= i < n ==> is_space(#[trigger] cs@[i]),
        decreases b,
    {
        b = b - 1;
    }
    proof {
        lemma_trim_start_skip(cs@, a as int);
        let t = cs@.skip(a as int);
        assert forall|i: int| (b - a) <= i < t.len() implies is_space(#[trigger] t[i]) by {
            assert(t[i] == cs@[i + a]);
        }
        if b > a {
            assert(t[b - a - 1] == cs@[b - 1]);
        }
        lemma_trim_end_take(t, b - a);
        assert(t.take(b - a) =~= cs@.subrange(a as int, b as int));
    }
    (a, b)
}

/// `s` without leading and trailing white space.
pub fn trim_string(s: &str) -> (r: String)
    ensures
        r@ == trim(s@),
{
    let cs = chars_of(s);
    let (a, b) = trim_bounds(&cs);
    slice_string(s, a, b)
}

// ---------------------------------------------------------------- lines

/// Index of the first `'\n'` of `s`, or its length when there is none.
pub open spec fn line_len(s: Seq<char>) -> nat
    decreases s.len(),
{
    if s.len() == 0 || s[0] == '\n' {
        0
    } else {
        1 + line_len(s.drop_first())
    }
}

pub proof fn lemma_line_len_bound(s: Seq<char>)
    ensures
        line_len(s) <= s.len(),
        line_len(s) < s.len() ==> s[line_len(s) as int] == '\n',
    decreases s.len(),
{
    if s.len() > 0 && s[0] != '\n' {
        lemma_line_len_bound(s.drop_first());
    }
}

proof fn lemma_line_len_is(s: Seq<char>, k: int)
    requires
        0 <= k <= s.len(),
        forall|i: int| 0 <= i < k ==> #[trigger] s[i] != '\n',
        k == s.len() || s[k] == '\n',
    ensures
        line_len(s) == k,
    decreases k,
{
    if k > 0 {
        lemma_line_len_is(s.drop_first(), k - 1);
    }
}

/// A line without the `'\r'` of a `"\r\n"` ending.
pub open spec fn strip_cr(l: Seq<char>) -> Seq<char> {
    if l.len() > 0 && l.last() == '\r' {
        l.drop_last()
    } else {
        l
    }
}

/// The lines of `s` (what `str::lines` yields): split at `'\n'`, a `'\r'`
/// before it dropped, and no empty line after a final `'\n'`.
pub open spec fn lines(s: Seq<char>) -> Seq<Seq<char>>
    decreases s.len(),
{
    if s.len() == 0 {
        seq![]
    } else {
        let k = line_len(s);
        if k < s.len() {
            seq![strip_cr(s.take(k as int))] + lines(s.skip(k + 1 as int))
        } else {
            seq![s]
        }
    }
}

/// The lines of `s`.
pub fn split_lines(s: &str) -> (r: Vec<String>)
    ensures
        views(r@) == lines(s@),
{
    let cs = chars_of(s);
    let n = cs.len();
    let mut out: Vec<String> = Vec::new();
    let mut i: usize = 0;
    assert(s@.skip(0) =~= s@);
    assert(views(out@) + lines(s@) =~= lines(s@));
    while i < n
        invariant
            cs@ == s@,
            n == cs.len(),
            i <= n,
            views(out@) + lines(s@.skip(i as int)) == lines(s@),
        decreases n - i,
    {
        let ghost rest = s@.skip(i as int);
        let mut j: usize = i;
        while j < n && cs[j] != '\n'
            invariant
                cs@ == s@,
                n == cs.len(),
                i <= j <= n,
                forall|t: int| i <= t < j ==> #[trigger] s@[t] != '\n',
            decreases n - j,
        {
            j = j + 1;
        }
        proof {
            lemma_line_len_is(rest, j - i);
        }
        let ghost before = views(out@);
        if j < n {
            let e: usize = if j > i && cs[j - 1] == '\r' {
                j - 1
            } else {
                j
            };
            let w = slice_string(s, i, e);
            proof {
                assert(strip_cr(rest.take(j - i)) =~= s@.subrange(i as int, e as int));
                assert(rest.skip(j - i + 1) =~= s@.skip(j + 1));
            }
            out.push(w);
            assert(views(out@) =~= before.push(w@));
            assert(before.push(w@) + lines(s@.skip(j + 1)) =~= before + (seq![w@] + lines(
                s@.skip(j + 1),
            )));
            i = j + 1;
        } else {
            let w = slice_string(s, i, n);
            assert(rest =~= s@.subrange(i as int, n as int));
            out.push(w);
            assert(views(out@) =~= before.push(w@));
            assert(s@.skip(n as int) =~= Seq::<char>::empty());
            assert(views(out@) + lines(s@.skip(n as int)) =~= before + seq![w@]);
            i = n;
        }
    }
    assert(s@.skip(n as int) =~= Seq::<char>::empty());
    assert(views(out@) + seq![] =~= views(out@));
    out
}

/// `ls` joined with `'\n'` between neighbours (what `join("\n")` gives).
pub open spec fn join_lines(ls: Seq<Seq<char>>) -> Seq<char>
    decreases ls.len(),
{
    if ls.len() == 0 {
        seq![]
    } else if ls.len() == 1 {
        ls[0]
    } else {
        join_lines(ls.drop_last()) + seq!['\n'] + ls.last()
    }
}

/// `ws` joined with one space between neighbours (what `join(" ")` gives).
pub open spec fn join_words(ws: Seq<Seq<char>>) -> Seq<char>
    decreases ws.len(),
{
    if ws.len() == 0 {
        seq![]
    } else if ws.len() == 1 {
        ws[0]
    } else {
        join_words(ws.drop_last()) + seq![' '] + ws.last()
    }
}

/// The strings `v[from..]` joined with one space between neighbours.
pub fn join_from(v: &Vec<String>, from: usize) -> (r: String)
    requires
        from <= v.len(),
    ensures
        r@ == join_words(views(v@).skip(from as int)),
{
    let mut r = String::new();
    let mut i: usize = from;
    proof {
        reveal_strlit(" ");
    }
    assert(views(v@).subrange(from as int, from as int) =~= Seq::<Seq<char>>::empty());
    while i < v.len()
        invariant
            from <= i <= v.len(),
            r@ == join_words(views(v@).subrange(from as int, i as int)),
            " "@ =~= seq![' '],
        decreases v.len() - i,
    {
        let ghost prev = views(v@).subrange(from as int, i as int);
        let ghost next = views(v@).subrange(from as int, i + 1);
        assert(next.drop_last() =~= prev);
        assert(next.last() == v@[i as int]@);
        if i > from {
            r.append(" ");
        }
        r.append(v[i].as_str());
        i = i + 1;
    }
    assert(views(v@).subrange(from as int, v.len() as int) =~= views(v@).skip(from as int));
    r
}

/// `s` without its leading `#` characters (what `trim_start_matches('#')`
/// gives).
pub open spec fn strip_hashes(s: Seq<char>) -> Seq<char>
    decreases s.len(),
{
    if s.len() > 0 && s[0] == '#' {
        strip_hashes(s.drop_first())
    } else {
        s
    }
}

/// `s` without its leading `#` characters.
pub fn strip_hashes_string(s: &str) -> (r: String)
    ensures
        r@ == strip_hashes(s@),
{
    let cs = chars_of(s);
    let mut a: usize = 0;
    assert(s@.skip(0) =~= s@);
    while a < cs.len() && cs[a] == '#'
        invariant
            cs@ == s@,
            a <= cs.len(),
            strip_hashes(s@.skip(a as int)) == strip_hashes(s@),
        decreases cs.len() - a,
    {
        assert(s@.skip(a as int).drop_first() =~= s@.skip(a + 1));
        a = a + 1;
    }
    assert(s@.skip(a as int) =~= s@.subrange(a as int, s@.len() as int));
    slice_string(s, a, cs.len())
}

/// Bound in UTF-8 bytes of a display preview.
pub const PREVIEW_BYTES: usize = 35;

/// The number of bytes that `c` takes in UTF-8.
pub open spec fn utf8_width(c: char) -> nat {
    let u = c as u32;
    if u < 0x80 {
        1
    } else if u < 0x800 {
        2
    } else if u < 0x10000 {
        3
    } else {
        4
    }
}

/// The number of bytes that `c` takes in UTF-8.
pub fn utf8_width_of(c: char) -> (r: usize)
    ensures
        r == utf8_width(c),
        1 <= r <= 4,
{
    let u = c as u32;
    if u < 0x80 {
        1
    } else if u < 0x800 {
        2
    } else if u < 0x10000 {
        3
    } else {
        4
    }
}

/// The number of leading characters of `s` whose UTF-8 encoding fits in
/// `n` bytes: the last character boundary at or before byte `n`.
pub open spec fn fit_len(s: Seq<char>, n: nat) -> nat
    decreases s.len(),
{
    if s.len() == 0 || utf8_width(s[0]) > n {
        0
    } else {
        1 + fit_len(s.drop_first(), (n - utf8_width(s[0])) as nat)
    }
}

/// A display preview of `s`: when `s` takes more than `PREVIEW_BYTES` bytes
/// in UTF-8, its longest prefix that fits in `PREVIEW_BYTES` bytes followed
/// by an ellipsis; else `s` itself.
pub open spec fn preview_of(s: Seq<char>) -> Seq<char> {
    let k = fit_len(s, PREVIEW_BYTES as nat);
    if k < s.len() {
        s.take(k as int) + seq!['\u{2026}']
    } else {
        s
    }
}

/// A display preview of `s`.
pub fn preview(s: &str) -> (r: String)
    ensures
        r@ == preview_of(s@),
{
    let cs = chars_of(s);
    let n = cs.len();
    let mut i: usize = 0;
    let mut room: usize = PREVIEW_BYTES;
    assert(s@.skip(0) =~= s@);
    while i < n && utf8_width_of(cs[i]) <= room
        invariant
            cs@ == s@,
            n == cs.len(),
            i <= n,
            room <= PREVIEW_BYTES,
            fit_len(s@, PREVIEW_BYTES as nat) == i + fit_len(s@.skip(i as int), room as nat),
        decreases n - i,
    {
        let w = utf8_width_of(cs[i]);
        assert(s@.skip(i as int)[0] == cs@[i as int]);
        assert(s@.skip(i as int).drop_first() =~= s@.skip(i + 1));
        room = room - w;
        i = i + 1;
    }
    if i < n {
        assert(s@.skip(i as int)[0] == cs@[i as int]);
    } else {
        assert(s@.skip(i as int) =~= Seq::<char>::empty());
    }
    if i < n {
        let mut r = slice_string(s, 0, i);
        proof {
            reveal_strlit("\u{2026}");
        }
        r.append("\u{2026}");
        assert(r@ =~= s@.take(i as int) + seq!['\u{2026}']);
        r
    } else {
        assert(s@.subrange(0, n as int) =~= s@);
        slice_string(s, 0, n)
    }
}

// ---------------------------------------------------------------- HTML

/// The HTML escape of one character: `&`, `<` and `>` become entities.
pub open spec fn escape_char(c: char) -> Seq<char> {
    if c == '&' {
        seq!['&', 'a', 'm', 'p', ';']
    } else if c == '<' {
        seq!['&', 'l', 't', ';']
    } else if c == '>' {
        seq!['&', 'g', 't', ';']
    } else {
        seq![c]
    }
}

/// `s` with each character replaced by its escape.
pub open spec fn html_escaped(s: Seq<char>) -> Seq<char>
    decreases s.len(),
{
    if s.len() == 0 {
        seq![]
    } else {
        html_escaped(s.drop_last()) + escape_char(s.last())
    }
}

/// Escapes `&`, `<` and `>` for text sent in HTML parse mode.
pub fn html_escape(s: &str) -> (r: String)
    ensures
        r@ == html_escaped(s@),
{
    let cs = chars_of(s);
    let n = cs.len();
    let mut r = String::new();
    let mut i: usize = 0;
    while i < n
        invariant
            cs@ == s@,
            n == cs.len(),
            i <= n,
            r@ == html_escaped(s@.take(i as int)),
        decreases n - i,
    {
        let c = cs[i];
        let ghost before = r@;
        if c == '&' {
            proof {
                reveal_strlit("&amp;");
            }
            r.append("&amp;");
            assert(r@ =~= before + escape_char(c));
        } else if c == '<' {
            proof {
                reveal_strlit("&lt;");
            }
            r.append("&lt;");
            assert(r@ =~= before + escape_char(c));
        } else if c == '>' {
            proof {
                reveal_strlit("&gt;");
            }
            r.append("&gt;");
            assert(r@ =~= before + escape_char(c));
        } else {
            r.append(s.substring_char(i, i + 1));
            assert(r@ =~= before + escape_char(c));
        }
        assert(s@.take(i + 1).drop_last() =~= s@.take(i as int));
        i = i + 1;
    }
    assert(s@.take(n as int) =~= s@);
    r
}

// ---------------------------------------------------------------- integers

pub open spec fn is_digit(c: char) -> bool {
    48 <= (c as u32) <= 57
}

pub open spec fn all_digits(s: Seq<char>) -> bool {
    forall|i: int| 0 <= i < s.len() ==> is_digit(#[trigger] s[i])
}

/// The decimal value of a sequence of digits.
pub open spec fn digits_value(s: Seq<char>) -> int
    decreases s.len(),
{
    if s.len() == 0 {
        0
    } else {
        digits_value(s.drop_last()) * 10 + ((s.last() as u32) - 48)
    }
}

/// The value of `s` read as an optional `+` and one or more digits.
pub open spec fn unsigned_value(s: Seq<char>) -> Option<int> {
    let d = if s.len() > 0 && s[0] == '+' {
        s.drop_first()
    } else {
        s
    };
    if d.len() > 0 && all_digits(d) {
        Some(digits_value(d))
    } else {
        None
    }
}

/// The value of `s` read as an optional sign and one or more digits.
pub open spec fn signed_value(s: Seq<char>) -> Option<int> {
    if s.len() > 0 && s[0] == '-' {
        let d = s.drop_first();
        if d.len() > 0 && all_digits(d) {
            Some(-digits_value(d))
        } else {
            None
        }
    } else {
        unsigned_value(s)
    }
}

/// What `str::parse::<i64>` accepts: a signed decimal within range.
pub open spec fn i64_of(s: Seq<char>) -> Option<i64> {
    match signed_value(s) {
        Some(v) => if i64::MIN <= v <= i64::MAX {
            Some(v as i64)
        } else {
            None
        },
        None => None,
    }
}

/// What `str::parse::<u16>` accepts: an unsigned decimal within range.
pub open spec fn u16_of(s: Seq<char>) -> Option<u16> {
    match unsigned_value(s) {
        Some(v) => if v <= u16::MAX {
            Some(v as u16)
        } else {
            None
        },
        None => None,
    }
}

proof fn lemma_digits_value_grows(s: Seq<char>, k: int)
    requires
        0 <= k <= s.len(),
        all_digits(s),
    ensures
        0 <= digits_value(s.take(k)) <= digits_value(s),
    decreases s.len() - k,
{
    if k < s.len() {
        lemma_digits_value_grows(s, k + 1);
        assert(s.take(k + 1).drop_last() =~= s.take(k));
        assert(s.take(k + 1).last() == s[k]);
        assert(is_digit(s[k]));
    } else {
        assert(s.take(k) =~= s);
        lemma_digits_value_nonneg(s);
    }
}

proof fn lemma_digits_value_nonneg(s: Seq<char>)
    requires
        all_digits(s),
    ensures
        digits_value(s) >= 0,
    decreases s.len(),
{
    if s.len() > 0 {
        assert(is_digit(s.last()));
        lemma_digits_value_nonneg(s.drop_last());
    }
}

/// The value of the digits `cs[start..]`, when they are one or more digits
/// and the value fits in `u64`.
fn digits_from(cs: &Vec<char>, start: usize) -> (r: Option<u64>)
    requires
        start <= cs.len(),
    ensures
        r is Some <==> (start < cs.len() && all_digits(cs@.skip(start as int)) && digits_value(
            cs@.skip(start as int),
        ) <= u64::MAX),
        r is Some ==> r->0 == digits_value(cs@.skip(start as int)),
{
    let n = cs.len();
    if start >= n {
        return None;
    }
    let ghost d = cs@.skip(start as int);
    let mut acc: u64 = 0;
    let mut i: usize = start;
    while i < n
        invariant
            start <= i <= n,
            n == cs.len(),
            d == cs@.skip(start as int),
            all_digits(d.take(i - start)),
            acc == digits_value(d.take(i - start)),
        decreases n - i,
    {
        let c = cs[i];
        let u = c as u32;
        assert(d[i - start] == c);
        if u < 48 || u > 57 {
            assert(!is_digit(d[i - start]));
            return None;
        }
        let dv = (u - 48) as u64;
        assert(d.take(i - start + 1).drop_last() =~= d.take(i - start));
        assert(all_digits(d.take(i - start + 1))) by {
            assert forall|t: int| 0 <= t < i - start + 1 implies is_digit(
                #[trigger] d.take(i - start + 1)[t],
            ) by {
                if t < i - start {
                    assert(d.take(i - start + 1)[t] == d.take(i - start)[t]);
                }
            }
        }
        if acc > (u64::MAX - dv) / 10 {
            proof {
                assert(acc * 10 + dv > u64::MAX) by (nonlinear_arith)
                    requires
                        acc > (u64::MAX - dv) / 10,
                        dv <= 9,
                ;
                if all_digits(d) {
                    lemma_digits_value_grows(d, i - start + 1);
                }
            }
            return None;
        }
        assert(acc * 10 + dv <= u64::MAX) by (nonlinear_arith)
            requires
                acc <= (u64::MAX - dv) / 10,
                dv <= 9,
        ;
        acc = acc * 10 + dv;
        i = i + 1;
    }
    assert(d.take(n - start) =~= d);
    Some(acc)
}

/// Parses a signed decimal `i64`, as `str::parse::<i64>` does.
pub fn parse_i64(s: &str) -> (r: Option<i64>)
    ensures
        r == i64_of(s@),
{
    let cs = chars_of(s);
    if cs.len() > 0 && cs[0] == '-' {
        assert(cs@.skip(1) =~= s@.drop_first());
        match digits_from(&cs, 1) {
            Some(v) => {
                if v <= 9223372036854775808u64 {
                    let w = (0i128 - (v as i128)) as i64;
                    Some(w)
                } else {
                    None
                }
            },
            None => {
                proof {
                    if s@.drop_first().len() > 0 && all_digits(s@.drop_first()) {
                        lemma_digits_value_nonneg(s@.drop_first());
                    }
                }
                None
            },
        }
    } else {
        let start: usize = if cs.len() > 0 && cs[0] == '+' {
            1
        } else {
            0
        };
        assert(cs@.skip(1) =~= s@.drop_first());
        assert(cs@.skip(0) =~= s@);
        match digits_from(&cs, start) {
            Some(v) => {
                if v <= 9223372036854775807u64 {
                    Some(v as i64)
                } else {
                    None
                }
            },
            None => None,
        }
    }
}

/// Parses an unsigned decimal `u16`, as `str::parse::<u16>` does.
pub fn parse_u16(s: &str) -> (r: Option<u16>)
    ensures
        r == u16_of(s@),
{
    let cs = chars_of(s);
    let start: usize = if cs.len() > 0 && cs[0] == '+' {
        1
    } else {
        0
    };
    assert(cs@.skip(1) =~= s@.drop_first());
    assert(cs@.skip(0) =~= s@);
    match digits_from(&cs, start) {
        Some(v) => {
            if v <= 65535 {
                Some(v as u16)
            } else {
                None
            }
        },
        None => None,
    }
}

// ---------------------------------------------------------------- search

/// `k` occurs in `t` starting at index `i`.
pub open spec fn occurs_at(t: Seq<char>, k: Seq<char>, i: int) -> bool {
    0 <= i && i + k.len() <= t.len() && t.subrange(i, i + k.len()) == k
}

/// `k` is a substring of `t`.
pub open spec fn contains(t: Seq<char>, k: Seq<char>) -> bool {
    exists|i: int| occurs_at(t, k, i)
}

/// `k` is a prefix of `t`.
pub open spec fn has_prefix(t: Seq<char>, k: Seq<char>) -> bool {
    k.len() <= t.len() && t.take(k.len() as int) == k
}

/// Whether `k` occurs in `t` at `i`.
fn matches_at(t: &Vec<char>, k: &Vec<char>, i: usize) -> (r: bool)
    requires
        i + k.len() <= t.len(),
    ensures
        r == occurs_at(t@, k@, i as int),
{
    let m = k.len();
    let mut j: usize = 0;
    while j < m
        invariant
            j <= m,
            m == k.len(),
            i + m <= t.len(),
            forall|q: int| 0 <= q < j ==> t@[i + q] == k@[q],
        decreases m - j,
    {
        if t[i + j] != k[j] {
            assert(t@.subrange(i as int, i + m)[j as int] != k@[j as int]);
            return false;
        }
        j = j + 1;
    }
    assert(t@.subrange(i as int, i + m) =~= k@);
    true
}

/// Whether `k` is a substring of `t`.
pub fn contains_chars(t: &Vec<char>, k: &Vec<char>) -> (r: bool)
    ensures
        r == contains(t@, k@),
{
    let n = t.len();
    let m = k.len();
    if m > n {
        return false;
    }
    let mut i: usize = 0;
    while i <= n - m
        invariant
            m <= n,
            n == t.len(),
            m == k.len(),
            i <= n - m + 1,
            forall|q: int| 0 <= q < i ==> !occurs_at(t@, k@, q),
        decreases n - m + 1 - i,
    {
        if matches_at(t, k, i) {
            return true;
        }
        if i == n - m {
            return false;
        }
        i = i + 1;
    }
    false
}

/// Whether `k` is a prefix of `t`.
pub fn starts_with_chars(t: &Vec<char>, k: &Vec<char>) -> (r: bool)
    ensures
        r == has_prefix(t@, k@),
{
    if k.len() > t.len() {
        return false;
    }
    let r = matches_at(t, k, 0);
    assert(t@.subrange(0, k@.len() as int) =~= t@.take(k@.len() as int));
    r
}

/// Whether the text `w` occurs in `t`.
pub fn contains_str(t: &Vec<char>, w: &str) -> (r: bool)
    ensures
        r == contains(t@, w@),
{
    let k = chars_of(w);
    contains_chars(t, &k)
}

/// Whether `t` starts with the text `w`.
pub fn starts_with_str(t: &Vec<char>, w: &str) -> (r: bool)
    ensures
        r == has_prefix(t@, w@),
{
    let k = chars_of(w);
    starts_with_chars(t, &k)
}

// ---------------------------------------------------------------- case

/// What `str::to_lowercase` returns for the characters `s`.
pub uninterp spec fn lower_of(s: Seq<char>) -> Seq<char>;

/// Relies on `str::to_lowercase`: the lower-case form of `s`, which depends
/// on its characters alone.
#[verifier::external_body]
pub(crate) fn lowercase(s: &str) -> (r: String)
    ensures
        r@ == lower_of(s@),
{
    s.to_lowercase()
}

} // verus!
