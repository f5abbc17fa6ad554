//! Moderation: the per-user warning counter with its automatic ban at the
//! limit, resolution of the user an action targets, and the plans of the
//! member actions that the platform then carries out.
use vstd::prelude::*;
use crate::duration::{expiry_of, parse_duration_at};
use crate::text::{i64_of, parse_i64, views};

verus! {

/// Warnings that trigger an automatic ban.
pub const WARN_LIMIT: u8 = 3;

/// A warning record as `(chat, user, count)`.
pub type WarnView = (i64, i64, u8);

pub open spec fn warn_at(s: Seq<WarnView>, i: int, chat: i64, user: i64) -> bool {
    0 <= i < s.len() && s[i].0 == chat && s[i].1 == user
}

/// The warnings of `user` in `chat`: the stored count, or 0 when none is
/// stored.
pub open spec fn warn_count(s: Seq<WarnView>, chat: i64, user: i64) -> nat {
    if exists|i: int| warn_at(s, i, chat, user) {
        s[choose|i: int| warn_at(s, i, chat, user)].2 as nat
    } else {
        0
    }
}

/// Each `(chat, user)` occurs once, with a count below the limit.
pub open spec fn warns_wf(s: Seq<WarnView>) -> bool {
    &&& forall|i: int, j: int|
        0 <= i < s.len() && 0 <= j < s.len() && i != j ==> !(s[i].0 == s[j].0 && s[i].1 == s[j].1)
    &&& forall|i: int| 0 <= i < s.len() ==> #[trigger] s[i].2 < WARN_LIMIT
}

proof fn lemma_count_at(s: Seq<WarnView>, chat: i64, user: i64, i: int)
    requires
        warns_wf(s),
        warn_at(s, i, chat, user),
    ensures
        warn_count(s, chat, user) == s[i].2,
{
    let j = choose|j: int| warn_at(s, j, chat, user);
    assert(warn_at(s, j, chat, user));
}

proof fn lemma_count_absent(s: Seq<WarnView>, chat: i64, user: i64)
    requires
        forall|i: int| 0 <= i < s.len() ==> !warn_at(s, i, chat, user),
    ensures
        warn_count(s, chat, user) == 0,
{
}

/// What one warning did.
#[derive(Clone, Copy, Debug, PartialEq, Eq, Structural)]
pub struct Warned {
    /// The count after the warning.
    pub count: u8,
    /// The count reached the limit: the record was cleared and the user is
    /// to be banned.
    pub threshold_reached: bool,
}

/// One warning of `user` in `chat` took the records from `before` to
/// `after` and reported `w`: the count grew by one; at the limit the record
/// was cleared and the limit reported; other records are unchanged.
pub open spec fn warn_step(
    before: Seq<WarnView>,
    after: Seq<WarnView>,
    chat: i64,
    user: i64,
    w: Warned,
) -> bool {
    &&& w.count == warn_count(before, chat, user) + 1
    &&& w.threshold_reached == (w.count >= WARN_LIMIT)
    &&& warn_count(after, chat, user) == if w.threshold_reached {
        0
    } else {
        w.count as nat
    }
    &&& forall|c2: i64, u2: i64|
        !(c2 == chat && u2 == user) ==> #[trigger] warn_count(after, c2, u2) == warn_count(
            before,
            c2,
            u2,
        )
}

/// Three warnings of a user without warnings give the counts 1, 2 and 3;
/// the third reaches the limit, after which the user has no warnings.
pub proof fn law_warn_threshold(
    s0: Seq<WarnView>,
    s1: Seq<WarnView>,
    s2: Seq<WarnView>,
    s3: Seq<WarnView>,
    chat: i64,
    user: i64,
    w1: Warned,
    w2: Warned,
    w3: Warned,
)
    requires
        warn_count(s0, chat, user) == 0,
        warn_step(s0, s1, chat, user, w1),
        warn_step(s1, s2, chat, user, w2),
        warn_step(s2, s3, chat, user, w3),
    ensures
        w1.count == 1 && !w1.threshold_reached,
        w2.count == 2 && !w2.threshold_reached,
        w3.count == 3 && w3.threshold_reached,
        warn_count(s3, chat, user) == 0,
{
}

/// A warning in one chat leaves the counts of every other chat as they
/// were.
pub proof fn law_warn_isolation(
    before: Seq<WarnView>,
    after: Seq<WarnView>,
    chat: i64,
    user: i64,
    w: Warned,
    other: i64,
    other_user: i64,
)
    requires
        warn_step(before, after, chat, user, w),
        other != chat,
    ensures
        warn_count(after, other, other_user) == warn_count(before, other, other_user),
{
}

/// Warning counts per `(chat, user)`.
pub struct WarnStore {
    entries: Vec<(i64, i64, u8)>,
}

impl View for WarnStore {
    type V = Seq<WarnView>;

    closed spec fn view(&self) -> Seq<WarnView> {
        self.entries@
    }
}

/// An empty warning store.
pub fn new_warn_store() -> (r: WarnStore)
    ensures
        r.wf(),
        forall|c: i64, u: i64| warn_count(r@, c, u) == 0,
{
    WarnStore { entries: Vec::new() }
}

impl WarnStore {
    pub open spec fn wf(&self) -> bool {
        warns_wf(self@)
    }

    /// The count of `user` in `chat`, for this store.
    pub open spec fn count(&self, chat: i64, user: i64) -> nat {
        warn_count(self@, chat, user)
    }

    fn find(&self, chat: i64, user: i64) -> (r: Option<usize>)
        requires
            self.wf(),
        ensures
            match r {
                Some(i) => warn_at(self@, i as int, chat, user),
                None => forall|i: int| 0 <= i < self@.len() ==> !warn_at(self@, i, chat, user),
            },
    {
        let mut i: usize = 0;
        while i < self.entries.len()
            invariant
                i <= self.entries.len(),
                forall|j: int| 0 <= j < i ==> !warn_at(self@, j, chat, user),
            decreases self.entries.len() - i,
        {
            if self.entries[i].0 == chat && self.entries[i].1 == user {
                return Some(i);
            }
            i = i + 1;
        }
        None
    }

    /// Sets the count of `(chat, user)` to `c` (0 clears the record).
    fn put(&mut self, chat: i64, user: i64, c: u8)
        requires
            old(self).wf(),
            c < WARN_LIMIT,
        ensures
            final(self).wf(),
            final(self).count(chat, user) == c,
            forall|c2: i64, u2: i64|
                !(c2 == chat && u2 == user) ==> #[trigger] warn_count(final(self)@, c2, u2)
                    == warn_count(old(self)@, c2, u2),
    {
        let ghost before = self@;
        match self.find(chat, user) {
            Some(i) => {
                if c == 0 {
                    self.entries.remove(i);
                    assert(self@ =~= before.remove(i as int));
                    assert forall|a: int, b: int|
                        0 <= a < self@.len() && 0 <= b < self@.len() && a != b implies !(
                        self@[a].0 == self@[b].0 && self@[a].1 == self@[b].1) by {
                        let a2 = if a < i { a } else { a + 1 };
                        let b2 = if b < i { b } else { b + 1 };
                        assert(self@[a] == before[a2] && self@[b] == before[b2]);
                    }
                    assert forall|a: int| 0 <= a < self@.len() implies #[trigger] self@[a].2
                        < WARN_LIMIT by {
                        let a2 = if a < i { a } else { a + 1 };
                        assert(self@[a] == before[a2]);
                    }
                    assert forall|k: int| 0 <= k < self@.len() implies !warn_at(
                        self@,
                        k,
                        chat,
                        user,
                    ) by {
                        let k2 = if k < i { k } else { k + 1 };
                        assert(self@[k] == before[k2]);
                    }
                    assert forall|c2: i64, u2: i64| !(c2 == chat && u2 == user) implies #[trigger] warn_count(
                        self@,
                        c2,
                        u2,
                    ) == warn_count(before, c2, u2) by {
                        if exists|k: int| warn_at(before, k, c2, u2) {
                            let k = choose|k: int| warn_at(before, k, c2, u2);
                            lemma_count_at(before, c2, u2, k);
                            assert(k != i);
                            let k2 = if k < i { k } else { k - 1 };
                            assert(self@[k2] == before[k]);
                            lemma_count_at(self@, c2, u2, k2);
                        } else {
                            assert forall|k: int| 0 <= k < self@.len() implies !warn_at(
                                self@,
                                k,
                                c2,
                                u2,
                            ) by {
                                let k2 = if k < i { k } else { k + 1 };
                                assert(self@[k] == before[k2]);
                                assert(!warn_at(before, k2, c2, u2));
                            }
                        }
                    }
                } else {
                    self.entries.set(i, (chat, user, c));
                    assert(self@ =~= before.update(i as int, (chat, user, c)));
                    assert(warn_at(self@, i as int, chat, user));
                    assert forall|a: int, b: int|
                        0 <= a < self@.len() && 0 <= b < self@.len() && a != b implies !(
                        self@[a].0 == self@[b].0 && self@[a].1 == self@[b].1) by {
                        if a != i && b != i {
                            assert(self@[a] == before[a] && self@[b] == before[b]);
                        } else if a == i {
                            assert(self@[b] == before[b]);
                        } else {
                            assert(self@[a] == before[a]);
                        }
                    }
                    proof {
                        lemma_count_at(self@, chat, user, i as int);
                    }
                    assert forall|c2: i64, u2: i64| !(c2 == chat && u2 == user) implies #[trigger] warn_count(
                        self@,
                        c2,
                        u2,
                    ) == warn_count(before, c2, u2) by {
                        if exists|k: int| warn_at(before, k, c2, u2) {
                            let k = choose|k: int| warn_at(before, k, c2, u2);
                            lemma_count_at(before, c2, u2, k);
                            lemma_count_at(self@, c2, u2, k);
                        } else {
                            assert forall|k: int| 0 <= k < self@.len() implies !warn_at(
                                self@,
                                k,
                                c2,
                                u2,
                            ) by {
                                assert(!warn_at(before, k, c2, u2));
                            }
                        }
                    }
                }
            },
            None => {
                if c != 0 {
                    self.entries.push((chat, user, c));
                    assert(self@ =~= before.push((chat, user, c)));
                    assert(warn_at(self@, before.len() as int, chat, user));
                    assert forall|a: int, b: int|
                        0 <= a < self@.len() && 0 <= b < self@.len() && a != b implies !(
                        self@[a].0 == self@[b].0 && self@[a].1 == self@[b].1) by {
                        if a == before.len() {
                            assert(!warn_at(before, b, chat, user));
                        } else if b == before.len() {
                            assert(!warn_at(before, a, chat, user));
                        }
                    }
                    proof {
                        lemma_count_at(self@, chat, user, before.len() as int);
                    }
                    assert forall|c2: i64, u2: i64| !(c2 == chat && u2 == user) implies #[trigger] warn_count(
                        self@,
                        c2,
                        u2,
                    ) == warn_count(before, c2, u2) by {
                        if exists|k: int| warn_at(before, k, c2, u2) {
                            let k = choose|k: int| warn_at(before, k, c2, u2);
                            lemma_count_at(before, c2, u2, k);
                            lemma_count_at(self@, c2, u2, k);
                        } else {
                            assert forall|k: int| 0 <= k < self@.len() implies !warn_at(
                                self@,
                                k,
                                c2,
                                u2,
                            ) by {
                                if k < before.len() {
                                    assert(!warn_at(before, k, c2, u2));
                                }
                            }
                        }
                    }
                } else {
                    proof {
                        lemma_count_absent(self@, chat, user);
                    }
                }
            },
        }
    }

    /// The warnings of `user` in `chat` (0 when none were given).
    pub fn check_warns(&self, chat: i64, user: i64) -> (r: u8)
        requires
            self.wf(),
        ensures
            r == self.count(chat, user),
            r < WARN_LIMIT,
    {
        match self.find(chat, user) {
            Some(i) => {
                proof {
                    lemma_count_at(self@, chat, user, i as int);
                }
                self.entries[i].2
            },
            None => {
                proof {
                    lemma_count_absent(self@, chat, user);
                }
                0
            },
        }
    }

    /// Adds one warning. At the limit the record is cleared and the result
    /// says so; the caller then bans the user.
    pub fn warn(&mut self, chat: i64, user: i64) -> (r: Warned)
        requires
            old(self).wf(),
        ensures
            final(self).wf(),
            warn_step(old(self)@, final(self)@, chat, user, r),
    {
        let c = self.check_warns(chat, user) + 1;
        if c >= WARN_LIMIT {
            self.put(chat, user, 0);
            Warned { count: c, threshold_reached: true }
        } else {
            self.put(chat, user, c);
            Warned { count: c, threshold_reached: false }
        }
    }

    /// Takes one warning away; a count of 0 stays 0. Returns the new count.
    pub fn unwarn(&mut self, chat: i64, user: i64) -> (r: u8)
        requires
            old(self).wf(),
        ensures
            final(self).wf(),
            r == if old(self).count(chat, user) > 0 {
                old(self).count(chat, user) - 1
            } else {
                0
            },
            final(self).count(chat, user) == r,
            forall|c2: i64, u2: i64|
                !(c2 == chat && u2 == user) ==> #[trigger] warn_count(final(self)@, c2, u2)
                    == warn_count(old(self)@, c2, u2),
    {
        let c = self.check_warns(chat, user);
        let n = if c > 0 {
            c - 1
        } else {
            0
        };
        self.put(chat, user, n);
        n
    }
}

// ---------------------------------------------------------------- targets

/// The user an admin or moderation command acts on, as `(id, name, k)`
/// where the command's own arguments start at `args[k]`: the author of the
/// replied-to message when there is one (named "User" when the name is
/// unknown), else a numeric first argument, else none.
pub open spec fn target_of(reply_id: Option<i64>, reply_name: Option<Seq<char>>, args: Seq<
    Seq<char>,
>) -> Option<(i64, Seq<char>, int)> {
    match reply_id {
        Some(id) => Some(
            (
                id,
                match reply_name {
                    Some(n) => n,
                    None => seq!['U', 's', 'e', 'r'],
                },
                0,
            ),
        ),
        None => if args.len() > 0 && i64_of(args[0]) is Some {
            Some((i64_of(args[0])->0, args[0], 1))
        } else {
            None
        },
    }
}

pub open spec fn opt_view(o: Option<&str>) -> Option<Seq<char>> {
    match o {
        Some(s) => Some(s@),
        None => None,
    }
}

/// Resolves the target of a command: the replied-to user wins over a
/// numeric first argument. The result is `(id, name, k)`, the command's own
/// arguments starting at `args[k]`.
pub fn resolve(reply_id: Option<i64>, reply_name: Option<&str>, args: &Vec<String>) -> (r: Option<
    (i64, String, usize),
>)
    ensures
        match r {
            Some(t) => target_of(reply_id, opt_view(reply_name), views(args@)) == Some(
                (t.0, t.1@, t.2 as int),
            ),
            None => target_of(reply_id, opt_view(reply_name), views(args@)) is None,
        },
        reply_id is Some ==> match r {
            Some(t) => t.0 == reply_id->0,
            None => false,
        },
{
    match reply_id {
        Some(id) => {
            let name = match reply_name {
                Some(n) => n.to_owned(),
                None => {
                    proof {
                        reveal_strlit("User");
                    }
                    let u = "User".to_owned();
                    assert(u@ =~= seq!['U', 's', 'e', 'r']);
                    u
                },
            };
            Some((id, name, 0))
        },
        None => {
            if args.len() == 0 {
                return None;
            }
            assert(views(args@)[0] == args@[0]@);
            match parse_i64(args[0].as_str()) {
                Some(id) => Some((id, args[0].clone(), 1)),
                None => None,
            }
        },
    }
}

// ---------------------------------------------------------------- plans

/// A ban or mute to carry out: the target, the expiry (none: permanent)
/// and the duration token that named it.
#[derive(Clone, Debug)]
pub struct Restriction {
    pub target_id: i64,
    pub target_name: String,
    pub until: Option<i64>,
    pub duration: Option<String>,
}

/// Plans a ban or mute at time `now`: the resolved target, and an expiry
/// from the first of the command's own arguments when that is a duration
/// token. `None` when no target resolves (the caller shows the usage).
pub fn plan_restriction(
    reply_id: Option<i64>,
    reply_name: Option<&str>,
    args: &Vec<String>,
    now: i64,
) -> (r: Option<Restriction>)
    ensures
        match target_of(reply_id, opt_view(reply_name), views(args@)) {
            None => r is None,
            Some(t) => match r {
                None => false,
                Some(p) => {
                    &&& p.target_id == t.0
                    &&& p.target_name@ == t.1
                    &&& p.until == if t.2 < args.len() {
                        expiry_of(args@[t.2]@, now as int)
                    } else {
                        None
                    }
                    &&& (p.duration is Some <==> p.until is Some)
                    &&& p.duration is Some ==> p.duration->0@ == args@[t.2]@
                },
            },
        },
{
    match resolve(reply_id, reply_name, args) {
        None => None,
        Some((id, name, k)) => {
            proof {
                if k < args.len() {
                    assert(views(args@)[k as int] == args@[k as int]@);
                }
            }
            let (until, duration) = if k < args.len() {
                let u = parse_duration_at(Some(args[k].as_str()), now);
                match u {
                    Some(t) => (Some(t), Some(args[k].clone())),
                    None => (None, None),
                }
            } else {
                (None, None)
            };
            Some(Restriction { target_id: id, target_name: name, until, duration })
        },
    }
}

/// Member rights in a chat, as the platform's permission set names them.
#[derive(Clone, Copy, Debug, PartialEq, Eq, Structural)]
pub struct ChatRights {
    pub send_messages: bool,
    pub send_audios: bool,
    pub send_documents: bool,
    pub send_photos: bool,
    pub send_videos: bool,
    pub send_video_notes: bool,
    pub send_voice_notes: bool,
    pub send_polls: bool,
    pub send_other_messages: bool,
    pub add_web_page_previews: bool,
    pub change_info: bool,
    pub invite_users: bool,
    pub pin_messages: bool,
    pub manage_topics: bool,
}

impl ChatRights {
    /// Every content-sending right granted.
    pub open spec fn can_send_all(&self) -> bool {
        &&& self.send_messages && self.send_audios && self.send_documents && self.send_photos
        &&& self.send_videos && self.send_video_notes && self.send_voice_notes && self.send_polls
        &&& self.send_other_messages && self.add_web_page_previews
    }

    /// No right granted at all.
    pub open spec fn is_none(&self) -> bool {
        &&& !self.send_messages && !self.send_audios && !self.send_documents && !self.send_photos
        &&& !self.send_videos && !self.send_video_notes && !self.send_voice_notes
            && !self.send_polls
        &&& !self.send_other_messages && !self.add_web_page_previews
        &&& !self.change_info && !self.invite_users && !self.pin_messages && !self.manage_topics
    }
}

/// The rights of a muted member or of a read-only chat: none.
pub fn no_perms() -> (r: ChatRights)
    ensures
        r.is_none(),
{
    ChatRights {
        send_messages: false,
        send_audios: false,
        send_documents: false,
        send_photos: false,
        send_videos: false,
        send_video_notes: false,
        send_voice_notes: false,
        send_polls: false,
        send_other_messages: false,
        add_web_page_previews: false,
        change_info: false,
        invite_users: false,
        pin_messages: false,
        manage_topics: false,
    }
}

/// The standard rights of a member: all content-sending rights and
/// inviting users; not changing the chat's info, pinning or managing
/// topics.
pub fn all_perms() -> (r: ChatRights)
    ensures
        r.can_send_all(),
        r.invite_users,
        !r.change_info && !r.pin_messages && !r.manage_topics,
{
    ChatRights {
        send_messages: true,
        send_audios: true,
        send_documents: true,
        send_photos: true,
        send_videos: true,
        send_video_notes: true,
        send_voice_notes: true,
        send_polls: true,
        send_other_messages: true,
        add_web_page_previews: true,
        change_info: false,
        invite_users: true,
        pin_messages: false,
        manage_topics: false,
    }
}

/// The steps of a kick: a ban, then an unban so that the user may rejoin.
#[derive(Clone, Copy, Debug, PartialEq, Eq, Structural)]
pub enum KickState {
    Start,
    Banned,
    Done,
}

/// What a kick asks of the platform next.
#[derive(Clone, Copy, Debug, PartialEq, Eq, Structural)]
pub enum KickAction {
    CallBan,
    CallUnban,
    ReportKicked,
    ReportFailed,
}

/// The next step of a kick, given whether the last platform call
/// succeeded: a failed ban is reported and no unban is tried; after the
/// unban, whatever its outcome, the kick is reported.
pub fn kick_step(state: KickState, last_ok: bool) -> (r: (KickState, KickAction))
    ensures
        state == KickState::Start ==> r == (KickState::Banned, KickAction::CallBan),
        state == KickState::Banned && last_ok ==> r == (KickState::Done, KickAction::CallUnban),
        state == KickState::Banned && !last_ok ==> r == (KickState::Done, KickAction::ReportFailed),
        state == KickState::Done ==> r == (KickState::Done, KickAction::ReportKicked),
{
    match state {
        KickState::Start => (KickState::Banned, KickAction::CallBan),
        KickState::Banned => if last_ok {
            (KickState::Done, KickAction::CallUnban)
        } else {
            (KickState::Done, KickAction::ReportFailed)
        },
        KickState::Done => (KickState::Done, KickAction::ReportKicked),
    }
}

} // verus!
