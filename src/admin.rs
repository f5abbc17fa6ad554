//! Admin commands: promotion with an optional custom title, custom titles,
//! and the user-info lookup.
use vstd::prelude::*;
use crate::moderation::{opt_view, resolve, target_of};
use crate::text::{chars_of, i64_of, join_from, join_words, parse_i64, same_text, views};

pub use crate::text::html_escape;

verus! {

/// Longest custom admin title, in characters.
pub const TITLE_MAX: usize = 16;

/// Why `/title` cannot go ahead.
#[derive(Clone, Copy, Debug, PartialEq, Eq, Structural)]
pub enum TitleError {
    /// No target resolved.
    Usage,
    /// No title was given.
    Missing,
    /// The title is longer than `TITLE_MAX` characters.
    TooLong,
}

/// A custom title to set.
#[derive(Clone, Debug)]
pub struct TitlePlan {
    pub target_id: i64,
    pub target_name: String,
    pub title: String,
}

/// A promotion to carry out, with the custom title to set afterwards.
#[derive(Clone, Debug)]
pub struct PromotePlan {
    pub target_id: i64,
    pub target_name: String,
    pub title: Option<String>,
}

/// Plans `/promote`: the resolved target, and as custom title the
/// command's own arguments joined by spaces, when there are any.
pub fn plan_promote(reply_id: Option<i64>, reply_name: Option<&str>, args: &Vec<String>) -> (r:
    Option<PromotePlan>)
    ensures
        match target_of(reply_id, opt_view(reply_name), views(args@)) {
            None => r is None,
            Some(t) => match r {
                None => false,
                Some(p) => {
                    &&& p.target_id == t.0
                    &&& p.target_name@ == t.1
                    &&& if t.2 < args.len() {
                        p.title is Some && p.title->0@ == join_words(views(args@).skip(t.2))
                    } else {
                        p.title is None
                    }
                },
            },
        },
{
    match resolve(reply_id, reply_name, args) {
        None => None,
        Some((id, name, k)) => {
            let title = if k < args.len() {
                Some(join_from(args, k))
            } else {
                None
            };
            Some(PromotePlan { target_id: id, target_name: name, title })
        },
    }
}

/// Plans `/title`: the resolved target and the command's own arguments
/// joined by spaces, which must be present and at most `TITLE_MAX`
/// characters long.
pub fn plan_title(reply_id: Option<i64>, reply_name: Option<&str>, args: &Vec<String>) -> (r:
    Result<TitlePlan, TitleError>)
    ensures
        match target_of(reply_id, opt_view(reply_name), views(args@)) {
            None => r == Err::<TitlePlan, TitleError>(TitleError::Usage),
            Some(t) => if t.2 >= args.len() {
                r == Err::<TitlePlan, TitleError>(TitleError::Missing)
            } else if join_words(views(args@).skip(t.2)).len() > TITLE_MAX {
                r == Err::<TitlePlan, TitleError>(TitleError::TooLong)
            } else {
                match r {
                    Ok(p) => p.target_id == t.0 && p.target_name@ == t.1 && p.title@ == join_words(
                        views(args@).skip(t.2),
                    ),
                    Err(_) => false,
                }
            },
        },
{
    match resolve(reply_id, reply_name, args) {
        None => Err(TitleError::Usage),
        Some((id, name, k)) => {
            if k >= args.len() {
                return Err(TitleError::Missing);
            }
            let title = join_from(args, k);
            if title.as_str().unicode_len() > TITLE_MAX {
                return Err(TitleError::TooLong);
            }
            Ok(TitlePlan { target_id: id, target_name: name, title })
        },
    }
}

/// Whom `/userinfo` asks the platform about.
#[derive(Clone, Debug)]
pub enum UserQuery {
    /// A user id: the replied-to user, or a numeric argument.
    Id(i64),
    /// An `@handle` that the platform resolves to a chat.
    Handle(String),
    /// Nothing usable: the usage is shown.
    Usage,
}

/// The query of `/userinfo`: the replied-to user first, then a numeric
/// argument, then an argument starting with `@`.
pub open spec fn user_query_of(reply_id: Option<i64>, arg: Option<Seq<char>>) -> (Option<i64>, Option<
    Seq<char>,
>) {
    match reply_id {
        Some(id) => (Some(id), None),
        None => match arg {
            Some(a) => if i64_of(a) is Some {
                (i64_of(a), None)
            } else if a.len() > 0 && a[0] == '@' {
                (None, Some(a))
            } else {
                (None, None)
            },
            None => (None, None),
        },
    }
}

/// Decides whom `/userinfo` asks about.
pub fn userinfo_query(reply_id: Option<i64>, arg: Option<&str>) -> (r: UserQuery)
    ensures
        match r {
            UserQuery::Id(id) => user_query_of(reply_id, opt_view(arg)) == (
                Some(id),
                None::<Seq<char>>,
            ),
            UserQuery::Handle(h) => user_query_of(reply_id, opt_view(arg)) == (
                None::<i64>,
                Some(h@),
            ),
            UserQuery::Usage => user_query_of(reply_id, opt_view(arg)) == (
                None::<i64>,
                None::<Seq<char>>,
            ),
        },
{
    if let Some(id) = reply_id {
        return UserQuery::Id(id);
    }
    match arg {
        None => UserQuery::Usage,
        Some(a) => match parse_i64(a) {
            Some(id) => UserQuery::Id(id),
            None => {
                let cs = chars_of(a);
                if cs.len() > 0 && cs[0] == '@' {
                    UserQuery::Handle(a.to_owned())
                } else {
                    UserQuery::Usage
                }
            },
        },
    }
}

/// A chat member's status as the platform names it.
#[derive(Clone, Copy, Debug, PartialEq, Eq, Structural)]
pub enum MemberStatus {
    Creator,
    Administrator,
    Member,
    Restricted,
    Left,
    Banned,
    Unknown,
}

/// The status that the platform's name `s` stands for.
pub open spec fn member_status_of(s: Seq<char>) -> MemberStatus {
    if s == "creator"@ {
        MemberStatus::Creator
    } else if s == "administrator"@ {
        MemberStatus::Administrator
    } else if s == "member"@ {
        MemberStatus::Member
    } else if s == "restricted"@ {
        MemberStatus::Restricted
    } else if s == "left"@ {
        MemberStatus::Left
    } else if s == "kicked"@ {
        MemberStatus::Banned
    } else {
        MemberStatus::Unknown
    }
}

/// Reads a member status name.
pub fn member_status(s: &str) -> (r: MemberStatus)
    ensures
        r == member_status_of(s@),
{
    if same_text(s, "creator") {
        MemberStatus::Creator
    } else if same_text(s, "administrator") {
        MemberStatus::Administrator
    } else if same_text(s, "member") {
        MemberStatus::Member
    } else if same_text(s, "restricted") {
        MemberStatus::Restricted
    } else if same_text(s, "left") {
        MemberStatus::Left
    } else if same_text(s, "kicked") {
        MemberStatus::Banned
    } else {
        MemberStatus::Unknown
    }
}

} // verus!
