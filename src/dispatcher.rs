//! Routing of inbound events: the command table, the order in which a
//! message is offered to notes, filters and commands, and the table of
//! button-click tokens.
use vstd::prelude::*;
use crate::filters::FilterStore;
use crate::markup::{find_char, first_index};
use crate::moderation::WarnStore;
use crate::notes::{hashtag_note, NoteStore};
use crate::store::{first_contained, EntryView};
use crate::text::{
    chars_of, contains, contains_chars, is_space_char, lemma_trim_start_skip,
    lemma_word_len_is, lower_of, lowercase, same_text, slice_string, split_words, trim,
    trim_start, trim_string, views, word_len, words,
};

verus! {

/// The stores that message handling reads and changes.
pub struct Stores {
    pub warn: WarnStore,
    pub filter: FilterStore,
    pub note: NoteStore,
}

impl Stores {
    pub open spec fn wf(&self) -> bool {
        self.warn.wf() && self.filter.wf() && self.note.wf()
    }
}

/// Empty stores.
pub fn new_stores() -> (r: Stores)
    ensures
        r.wf(),
        r.filter@ == Seq::<EntryView>::empty(),
        r.note@ == Seq::<EntryView>::empty(),
        forall|c: i64, u: i64| r.warn.count(c, u) == 0,
{
    Stores {
        warn: crate::moderation::new_warn_store(),
        filter: crate::filters::new_filter_store(),
        note: crate::notes::new_note_store(),
    }
}

/// The commands that the bot knows.
#[derive(Clone, Copy, Debug, PartialEq, Eq, Structural)]
pub enum Command {
    Start,
    Help,
    About,
    Library,
    TextStyles,
    Stats,
    Dice,
    Darts,
    Bowling,
    Basketball,
    Football,
    Slots,
    Fact,
    Joke,
    Magic8,
    Coinflip,
    Photo,
    Animation,
    Location,
    Venue,
    Contact,
    Poll,
    BotInfo,
    WebhookInfo,
    MemberCount,
    Admins,
    InviteLink,
    MyCommands,
    MyProfile,
    Promote,
    Demote,
    Title,
    UserInfo,
    ModHelp,
    Ban,
    Unban,
    Kick,
    Mute,
    Unmute,
    Warn,
    Unwarn,
    Warns,
    Delete,
    Pin,
    Unpin,
    ReadOnly,
    ReadWrite,
    SetFilter,
    DelFilter,
    ListFilters,
    SaveNote,
    GetNote,
    ListNotes,
    DelNote,
    Send,
    Post,
    Img,
    Vid,
    Aud,
    Doc,
    Buttons,
    SendHelp,
    Ping,
    SetCommands,
    DeleteCommands,
    DeleteWebhook,
}

/// The command that a token names.
pub open spec fn command_of(tok: Seq<char>) -> Option<Command> {
    if tok == "/start"@ || tok == "/menu"@ {
        Some(Command::Start)
    } else if tok == "/help"@ {
        Some(Command::Help)
    } else if tok == "/about"@ {
        Some(Command::About)
    } else if tok == "/library"@ {
        Some(Command::Library)
    } else if tok == "/textstyles"@ {
        Some(Command::TextStyles)
    } else if tok == "/stats"@ {
        Some(Command::Stats)
    } else if tok == "/dice"@ {
        Some(Command::Dice)
    } else if tok == "/darts"@ {
        Some(Command::Darts)
    } else if tok == "/bowling"@ {
        Some(Command::Bowling)
    } else if tok == "/basketball"@ {
        Some(Command::Basketball)
    } else if tok == "/football"@ {
        Some(Command::Football)
    } else if tok == "/slots"@ {
        Some(Command::Slots)
    } else if tok == "/fact"@ {
        Some(Command::Fact)
    } else if tok == "/joke"@ {
        Some(Command::Joke)
    } else if tok == "/magic8"@ {
        Some(Command::Magic8)
    } else if tok == "/coinflip"@ {
        Some(Command::Coinflip)
    } else if tok == "/photo"@ {
        Some(Command::Photo)
    } else if tok == "/animation"@ {
        Some(Command::Animation)
    } else if tok == "/location"@ {
        Some(Command::Location)
    } else if tok == "/venue"@ {
        Some(Command::Venue)
    } else if tok == "/contact"@ {
        Some(Command::Contact)
    } else if tok == "/poll"@ {
        Some(Command::Poll)
    } else if tok == "/botinfo"@ {
        Some(Command::BotInfo)
    } else if tok == "/webhookinfo"@ {
        Some(Command::WebhookInfo)
    } else if tok == "/membercount"@ {
        Some(Command::MemberCount)
    } else if tok == "/admins"@ {
        Some(Command::Admins)
    } else if tok == "/invitelink"@ {
        Some(Command::InviteLink)
    } else if tok == "/mycommands"@ {
        Some(Command::MyCommands)
    } else if tok == "/myprofile"@ {
        Some(Command::MyProfile)
    } else if tok == "/promote"@ {
        Some(Command::Promote)
    } else if tok == "/demote"@ {
        Some(Command::Demote)
    } else if tok == "/title"@ {
        Some(Command::Title)
    } else if tok == "/userinfo"@ || tok == "/whois"@ {
        Some(Command::UserInfo)
    } else if tok == "/modhelp"@ {
        Some(Command::ModHelp)
    } else if tok == "/ban"@ {
        Some(Command::Ban)
    } else if tok == "/unban"@ {
        Some(Command::Unban)
    } else if tok == "/kick"@ {
        Some(Command::Kick)
    } else if tok == "/mute"@ {
        Some(Command::Mute)
    } else if tok == "/unmute"@ {
        Some(Command::Unmute)
    } else if tok == "/warn"@ {
        Some(Command::Warn)
    } else if tok == "/unwarn"@ {
        Some(Command::Unwarn)
    } else if tok == "/warns"@ {
        Some(Command::Warns)
    } else if tok == "/delete"@ || tok == "/del"@ {
        Some(Command::Delete)
    } else if tok == "/pin"@ {
        Some(Command::Pin)
    } else if tok == "/unpin"@ {
        Some(Command::Unpin)
    } else if tok == "/ro"@ {
        Some(Command::ReadOnly)
    } else if tok == "/unro"@ {
        Some(Command::ReadWrite)
    } else if tok == "/filter"@ {
        Some(Command::SetFilter)
    } else if tok == "/delfilter"@ {
        Some(Command::DelFilter)
    } else if tok == "/filters"@ {
        Some(Command::ListFilters)
    } else if tok == "/note"@ {
        Some(Command::SaveNote)
    } else if tok == "/get"@ {
        Some(Command::GetNote)
    } else if tok == "/notes"@ {
        Some(Command::ListNotes)
    } else if tok == "/delnote"@ {
        Some(Command::DelNote)
    } else if tok == "/send"@ {
        Some(Command::Send)
    } else if tok == "/post"@ {
        Some(Command::Post)
    } else if tok == "/img"@ {
        Some(Command::Img)
    } else if tok == "/vid"@ {
        Some(Command::Vid)
    } else if tok == "/aud"@ {
        Some(Command::Aud)
    } else if tok == "/doc"@ {
        Some(Command::Doc)
    } else if tok == "/buttons"@ {
        Some(Command::Buttons)
    } else if tok == "/sendhelp"@ {
        Some(Command::SendHelp)
    } else if tok == "/ping"@ {
        Some(Command::Ping)
    } else if tok == "/setcommands"@ {
        Some(Command::SetCommands)
    } else if tok == "/deletecommands"@ {
        Some(Command::DeleteCommands)
    } else if tok == "/deletewebhook"@ {
        Some(Command::DeleteWebhook)
    } else {
        None
    }
}

/// Looks a command token up in the command table.
pub fn lookup_command(tok: &str) -> (r: Option<Command>)
    ensures
        r == command_of(tok@),
{
    if same_text(tok, "/start") || same_text(tok, "/menu") {
        Some(Command::Start)
    } else if same_text(tok, "/help") {
        Some(Command::Help)
    } else if same_text(tok, "/about") {
        Some(Command::About)
    } else if same_text(tok, "/library") {
        Some(Command::Library)
    } else if same_text(tok, "/textstyles") {
        Some(Command::TextStyles)
    } else if same_text(tok, "/stats") {
        Some(Command::Stats)
    } else if same_text(tok, "/dice") {
        Some(Command::Dice)
    } else if same_text(tok, "/darts") {
        Some(Command::Darts)
    } else if same_text(tok, "/bowling") {
        Some(Command::Bowling)
    } else if same_text(tok, "/basketball") {
        Some(Command::Basketball)
    } else if same_text(tok, "/football") {
        Some(Command::Football)
    } else if same_text(tok, "/slots") {
        Some(Command::Slots)
    } else if same_text(tok, "/fact") {
        Some(Command::Fact)
    } else if same_text(tok, "/joke") {
        Some(Command::Joke)
    } else if same_text(tok, "/magic8") {
        Some(Command::Magic8)
    } else if same_text(tok, "/coinflip") {
        Some(Command::Coinflip)
    } else if same_text(tok, "/photo") {
        Some(Command::Photo)
    } else if same_text(tok, "/animation") {
        Some(Command::Animation)
    } else if same_text(tok, "/location") {
        Some(Command::Location)
    } else if same_text(tok, "/venue") {
        Some(Command::Venue)
    } else if same_text(tok, "/contact") {
        Some(Command::Contact)
    } else if same_text(tok, "/poll") {
        Some(Command::Poll)
    } else if same_text(tok, "/botinfo") {
        Some(Command::BotInfo)
    } else if same_text(tok, "/webhookinfo") {
        Some(Command::WebhookInfo)
    } else if same_text(tok, "/membercount") {
        Some(Command::MemberCount)
    } else if same_text(tok, "/admins") {
        Some(Command::Admins)
    } else if same_text(tok, "/invitelink") {
        Some(Command::InviteLink)
    } else if same_text(tok, "/mycommands") {
        Some(Command::MyCommands)
    } else if same_text(tok, "/myprofile") {
        Some(Command::MyProfile)
    } else if same_text(tok, "/promote") {
        Some(Command::Promote)
    } else if same_text(tok, "/demote") {
        Some(Command::Demote)
    } else if same_text(tok, "/title") {
        Some(Command::Title)
    } else if same_text(tok, "/userinfo") || same_text(tok, "/whois") {
        Some(Command::UserInfo)
    } else if same_text(tok, "/modhelp") {
        Some(Command::ModHelp)
    } else if same_text(tok, "/ban") {
        Some(Command::Ban)
    } else if same_text(tok, "/unban") {
        Some(Command::Unban)
    } else if same_text(tok, "/kick") {
        Some(Command::Kick)
    } else if same_text(tok, "/mute") {
        Some(Command::Mute)
    } else if same_text(tok, "/unmute") {
        Some(Command::Unmute)
    } else if same_text(tok, "/warn") {
        Some(Command::Warn)
    } else if same_text(tok, "/unwarn") {
        Some(Command::Unwarn)
    } else if same_text(tok, "/warns") {
        Some(Command::Warns)
    } else if same_text(tok, "/delete") || same_text(tok, "/del") {
        Some(Command::Delete)
    } else if same_text(tok, "/pin") {
        Some(Command::Pin)
    } else if same_text(tok, "/unpin") {
        Some(Command::Unpin)
    } else if same_text(tok, "/ro") {
        Some(Command::ReadOnly)
    } else if same_text(tok, "/unro") {
        Some(Command::ReadWrite)
    } else if same_text(tok, "/filter") {
        Some(Command::SetFilter)
    } else if same_text(tok, "/delfilter") {
        Some(Command::DelFilter)
    } else if same_text(tok, "/filters") {
        Some(Command::ListFilters)
    } else if same_text(tok, "/note") {
        Some(Command::SaveNote)
    } else if same_text(tok, "/get") {
        Some(Command::GetNote)
    } else if same_text(tok, "/notes") {
        Some(Command::ListNotes)
    } else if same_text(tok, "/delnote") {
        Some(Command::DelNote)
    } else if same_text(tok, "/send") {
        Some(Command::Send)
    } else if same_text(tok, "/post") {
        Some(Command::Post)
    } else if same_text(tok, "/img") {
        Some(Command::Img)
    } else if same_text(tok, "/vid") {
        Some(Command::Vid)
    } else if same_text(tok, "/aud") {
        Some(Command::Aud)
    } else if same_text(tok, "/doc") {
        Some(Command::Doc)
    } else if same_text(tok, "/buttons") {
        Some(Command::Buttons)
    } else if same_text(tok, "/sendhelp") {
        Some(Command::SendHelp)
    } else if same_text(tok, "/ping") {
        Some(Command::Ping)
    } else if same_text(tok, "/setcommands") {
        Some(Command::SetCommands)
    } else if same_text(tok, "/deletecommands") {
        Some(Command::DeleteCommands)
    } else if same_text(tok, "/deletewebhook") {
        Some(Command::DeleteWebhook)
    } else {
        None
    }
}

/// The demonstration buttons whose click is answered with a notice alone.
#[derive(Clone, Copy, Debug, PartialEq, Eq, Structural)]
pub enum Showcase {
    /// `btn_color`, `btn_shape`: a short notice.
    Pretty,
    /// `alert_demo`: a pop-up alert.
    Alert,
    /// `toast_demo`, `notif_demo`: a notice without pop-up.
    Toast,
    /// `cb_url_demo`: a notice that the callback arrived.
    CallbackReceived,
}

/// The navigation and demonstration actions of button clicks.
#[derive(Clone, Copy, Debug, PartialEq, Eq, Structural)]
pub enum CallbackAction {
    MainMenu,
    About,
    Library,
    StatsInfo,
    FunMenu,
    Dice,
    Darts,
    Bowling,
    Basketball,
    Football,
    Slots,
    Fact,
    Joke,
    Magic8,
    Coinflip,
    ApiMenu,
    WebhookInfo,
    BotDetails,
    Botinfo,
    MemberCount,
    Admins,
    InviteLink,
    MyCommands,
    MyProfile,
    Stars,
    ToolsMenu,
    Location,
    Venue,
    Contact,
    Poll,
    TextStyles,
    Countdown,
    Checklist,
    WebappInfo,
    MediaMenu,
    SendPhoto,
    SendAnimation,
    AudioInfo,
    VideoInfo,
    VoiceInfo,
    DocInfo,
    StickerInfo,
    MediaGroupInfo,
    AlertsMenu,
}

/// Where a button click goes.
#[derive(Clone, Copy, Debug, PartialEq, Eq, Structural)]
pub enum CallbackRoute {
    Showcase(Showcase),
    Action(CallbackAction),
    /// An unknown token: acknowledged with an "unknown" notice.
    Unknown,
}

/// The route of a click on a button with callback token `data`.
pub open spec fn callback_route_of(data: Seq<char>) -> CallbackRoute {
    if data == "btn_color"@ || data == "btn_shape"@ {
        CallbackRoute::Showcase(Showcase::Pretty)
    } else if data == "alert_demo"@ {
        CallbackRoute::Showcase(Showcase::Alert)
    } else if data == "toast_demo"@ || data == "notif_demo"@ {
        CallbackRoute::Showcase(Showcase::Toast)
    } else if data == "cb_url_demo"@ {
        CallbackRoute::Showcase(Showcase::CallbackReceived)
    } else if data == "main_menu"@ {
        CallbackRoute::Action(CallbackAction::MainMenu)
    } else if data == "about"@ {
        CallbackRoute::Action(CallbackAction::About)
    } else if data == "library"@ {
        CallbackRoute::Action(CallbackAction::Library)
    } else if data == "stats_info"@ {
        CallbackRoute::Action(CallbackAction::StatsInfo)
    } else if data == "fun_menu"@ {
        CallbackRoute::Action(CallbackAction::FunMenu)
    } else if data == "dice"@ {
        CallbackRoute::Action(CallbackAction::Dice)
    } else if data == "darts"@ {
        CallbackRoute::Action(CallbackAction::Darts)
    } else if data == "bowling"@ {
        CallbackRoute::Action(CallbackAction::Bowling)
    } else if data == "basketball"@ {
        CallbackRoute::Action(CallbackAction::Basketball)
    } else if data == "football"@ {
        CallbackRoute::Action(CallbackAction::Football)
    } else if data == "slots"@ {
        CallbackRoute::Action(CallbackAction::Slots)
    } else if data == "fact"@ {
        CallbackRoute::Action(CallbackAction::Fact)
    } else if data == "joke"@ {
        CallbackRoute::Action(CallbackAction::Joke)
    } else if data == "magic8"@ {
        CallbackRoute::Action(CallbackAction::Magic8)
    } else if data == "coinflip"@ {
        CallbackRoute::Action(CallbackAction::Coinflip)
    } else if data == "api_menu"@ {
        CallbackRoute::Action(CallbackAction::ApiMenu)
    } else if data == "webhook_info"@ {
        CallbackRoute::Action(CallbackAction::WebhookInfo)
    } else if data == "bot_details"@ {
        CallbackRoute::Action(CallbackAction::BotDetails)
    } else if data == "botinfo"@ {
        CallbackRoute::Action(CallbackAction::Botinfo)
    } else if data == "member_count"@ {
        CallbackRoute::Action(CallbackAction::MemberCount)
    } else if data == "admins"@ {
        CallbackRoute::Action(CallbackAction::Admins)
    } else if data == "invite_link"@ {
        CallbackRoute::Action(CallbackAction::InviteLink)
    } else if data == "my_commands"@ {
        CallbackRoute::Action(CallbackAction::MyCommands)
    } else if data == "my_profile"@ {
        CallbackRoute::Action(CallbackAction::MyProfile)
    } else if data == "stars"@ {
        CallbackRoute::Action(CallbackAction::Stars)
    } else if data == "tools_menu"@ {
        CallbackRoute::Action(CallbackAction::ToolsMenu)
    } else if data == "location"@ {
        CallbackRoute::Action(CallbackAction::Location)
    } else if data == "venue"@ {
        CallbackRoute::Action(CallbackAction::Venue)
    } else if data == "contact"@ {
        CallbackRoute::Action(CallbackAction::Contact)
    } else if data == "poll"@ {
        CallbackRoute::Action(CallbackAction::Poll)
    } else if data == "text_styles"@ {
        CallbackRoute::Action(CallbackAction::TextStyles)
    } else if data == "countdown"@ {
        CallbackRoute::Action(CallbackAction::Countdown)
    } else if data == "checklist"@ {
        CallbackRoute::Action(CallbackAction::Checklist)
    } else if data == "webapp_info"@ {
        CallbackRoute::Action(CallbackAction::WebappInfo)
    } else if data == "media_menu"@ {
        CallbackRoute::Action(CallbackAction::MediaMenu)
    } else if data == "send_photo"@ {
        CallbackRoute::Action(CallbackAction::SendPhoto)
    } else if data == "send_animation"@ {
        CallbackRoute::Action(CallbackAction::SendAnimation)
    } else if data == "audio_info"@ {
        CallbackRoute::Action(CallbackAction::AudioInfo)
    } else if data == "video_info"@ {
        CallbackRoute::Action(CallbackAction::VideoInfo)
    } else if data == "voice_info"@ {
        CallbackRoute::Action(CallbackAction::VoiceInfo)
    } else if data == "doc_info"@ {
        CallbackRoute::Action(CallbackAction::DocInfo)
    } else if data == "sticker_info"@ {
        CallbackRoute::Action(CallbackAction::StickerInfo)
    } else if data == "media_group_info"@ {
        CallbackRoute::Action(CallbackAction::MediaGroupInfo)
    } else if data == "alerts_menu"@ {
        CallbackRoute::Action(CallbackAction::AlertsMenu)
    } else {
        CallbackRoute::Unknown
    }
}

/// Routes a button click by its callback token.
pub fn route_callback(data: &str) -> (r: CallbackRoute)
    ensures
        r == callback_route_of(data@),
{
    if same_text(data, "btn_color") || same_text(data, "btn_shape") {
        CallbackRoute::Showcase(Showcase::Pretty)
    } else if same_text(data, "alert_demo") {
        CallbackRoute::Showcase(Showcase::Alert)
    } else if same_text(data, "toast_demo") || same_text(data, "notif_demo") {
        CallbackRoute::Showcase(Showcase::Toast)
    } else if same_text(data, "cb_url_demo") {
        CallbackRoute::Showcase(Showcase::CallbackReceived)
    } else if same_text(data, "main_menu") {
        CallbackRoute::Action(CallbackAction::MainMenu)
    } else if same_text(data, "about") {
        CallbackRoute::Action(CallbackAction::About)
    } else if same_text(data, "library") {
        CallbackRoute::Action(CallbackAction::Library)
    } else if same_text(data, "stats_info") {
        CallbackRoute::Action(CallbackAction::StatsInfo)
    } else if same_text(data, "fun_menu") {
        CallbackRoute::Action(CallbackAction::FunMenu)
    } else if same_text(data, "dice") {
        CallbackRoute::Action(CallbackAction::Dice)
    } else if same_text(data, "darts") {
        CallbackRoute::Action(CallbackAction::Darts)
    } else if same_text(data, "bowling") {
        CallbackRoute::Action(CallbackAction::Bowling)
    } else if same_text(data, "basketball") {
        CallbackRoute::Action(CallbackAction::Basketball)
    } else if same_text(data, "football") {
        CallbackRoute::Action(CallbackAction::Football)
    } else if same_text(data, "slots") {
        CallbackRoute::Action(CallbackAction::Slots)
    } else if same_text(data, "fact") {
        CallbackRoute::Action(CallbackAction::Fact)
    } else if same_text(data, "joke") {
        CallbackRoute::Action(CallbackAction::Joke)
    } else if same_text(data, "magic8") {
        CallbackRoute::Action(CallbackAction::Magic8)
    } else if same_text(data, "coinflip") {
        CallbackRoute::Action(CallbackAction::Coinflip)
    } else if same_text(data, "api_menu") {
        CallbackRoute::Action(CallbackAction::ApiMenu)
    } else if same_text(data, "webhook_info") {
        CallbackRoute::Action(CallbackAction::WebhookInfo)
    } else if same_text(data, "bot_details") {
        CallbackRoute::Action(CallbackAction::BotDetails)
    } else if same_text(data, "botinfo") {
        CallbackRoute::Action(CallbackAction::Botinfo)
    } else if same_text(data, "member_count") {
        CallbackRoute::Action(CallbackAction::MemberCount)
    } else if same_text(data, "admins") {
        CallbackRoute::Action(CallbackAction::Admins)
    } else if same_text(data, "invite_link") {
        CallbackRoute::Action(CallbackAction::InviteLink)
    } else if same_text(data, "my_commands") {
        CallbackRoute::Action(CallbackAction::MyCommands)
    } else if same_text(data, "my_profile") {
        CallbackRoute::Action(CallbackAction::MyProfile)
    } else if same_text(data, "stars") {
        CallbackRoute::Action(CallbackAction::Stars)
    } else if same_text(data, "tools_menu") {
        CallbackRoute::Action(CallbackAction::ToolsMenu)
    } else if same_text(data, "location") {
        CallbackRoute::Action(CallbackAction::Location)
    } else if same_text(data, "venue") {
        CallbackRoute::Action(CallbackAction::Venue)
    } else if same_text(data, "contact") {
        CallbackRoute::Action(CallbackAction::Contact)
    } else if same_text(data, "poll") {
        CallbackRoute::Action(CallbackAction::Poll)
    } else if same_text(data, "text_styles") {
        CallbackRoute::Action(CallbackAction::TextStyles)
    } else if same_text(data, "countdown") {
        CallbackRoute::Action(CallbackAction::Countdown)
    } else if same_text(data, "checklist") {
        CallbackRoute::Action(CallbackAction::Checklist)
    } else if same_text(data, "webapp_info") {
        CallbackRoute::Action(CallbackAction::WebappInfo)
    } else if same_text(data, "media_menu") {
        CallbackRoute::Action(CallbackAction::MediaMenu)
    } else if same_text(data, "send_photo") {
        CallbackRoute::Action(CallbackAction::SendPhoto)
    } else if same_text(data, "send_animation") {
        CallbackRoute::Action(CallbackAction::SendAnimation)
    } else if same_text(data, "audio_info") {
        CallbackRoute::Action(CallbackAction::AudioInfo)
    } else if same_text(data, "video_info") {
        CallbackRoute::Action(CallbackAction::VideoInfo)
    } else if same_text(data, "voice_info") {
        CallbackRoute::Action(CallbackAction::VoiceInfo)
    } else if same_text(data, "doc_info") {
        CallbackRoute::Action(CallbackAction::DocInfo)
    } else if same_text(data, "sticker_info") {
        CallbackRoute::Action(CallbackAction::StickerInfo)
    } else if same_text(data, "media_group_info") {
        CallbackRoute::Action(CallbackAction::MediaGroupInfo)
    } else if same_text(data, "alerts_menu") {
        CallbackRoute::Action(CallbackAction::AlertsMenu)
    } else {
        CallbackRoute::Unknown
    }
}

/// The command token of a message: its first word, up to its first `@`
/// (which starts the bot name in `/cmd@bot`).
pub open spec fn command_token(text: Seq<char>) -> Seq<char> {
    if words(text).len() > 0 {
        words(text)[0].take(first_index(words(text)[0], '@') as int)
    } else {
        seq![]
    }
}

/// The arguments of a command: the words after the first.
pub open spec fn command_args(text: Seq<char>) -> Seq<Seq<char>> {
    if words(text).len() > 0 {
        words(text).skip(1)
    } else {
        seq![]
    }
}

/// The text after the first word, trimmed.
pub open spec fn rest_of_line(text: Seq<char>) -> Seq<char> {
    trim(trim_start(text).skip(word_len(trim_start(text)) as int))
}

/// A message split into command token, arguments and the rest of the line.
pub fn split_command(text: &str) -> (r: (String, Vec<String>, String))
    ensures
        r.0@ == command_token(text@),
        views(r.1@) == command_args(text@),
        r.2@ == rest_of_line(text@),
{
    let ws = split_words(text);
    let tok = if ws.len() > 0 {
        let w = chars_of(ws[0].as_str());
        let k = find_char(&w, 0, '@');
        proof {
            assert(w@.skip(0) =~= w@);
            assert(views(ws@)[0] == ws@[0]@);
        }
        slice_string(ws[0].as_str(), 0, k)
    } else {
        String::new()
    };
    proof {
        if ws.len() > 0 {
            assert(tok@ =~= command_token(text@));
        } else {
            assert(tok@ =~= command_token(text@));
        }
    }
    let mut args: Vec<String> = Vec::new();
    let mut i: usize = 1;
    assert(views(args@) =~= Seq::<Seq<char>>::empty());
    while i < ws.len()
        invariant
            1 <= i,
            ws.len() > 0 ==> i <= ws.len(),
            ws.len() == 0 ==> args.len() == 0,
            views(ws@) == words(text@),
            ws.len() > 0 ==> views(args@) == views(ws@).subrange(1, i as int),
        decreases ws.len() - i,
    {
        let ghost before = views(args@);
        args.push(ws[i].clone());
        assert(views(args@) =~= before.push(ws@[i as int]@));
        assert(views(ws@).subrange(1, i + 1) =~= views(ws@).subrange(1, i as int).push(
            ws@[i as int]@,
        ));
        i = i + 1;
    }
    proof {
        if ws.len() > 0 {
            assert(views(ws@).subrange(1, ws.len() as int) =~= views(ws@).skip(1));
        } else {
            assert(views(args@) =~= Seq::<Seq<char>>::empty());
        }
    }
    let cs = chars_of(text);
    let n = cs.len();
    let mut a: usize = 0;
    while a < n && is_space_char(cs[a])
        invariant
            cs@ == text@,
            n == cs.len(),
            a <= n,
            forall|t: int| 0 <= t < a ==> crate::text::is_space(#[trigger] cs@[t]),
        decreases n - a,
    {
        a = a + 1;
    }
    let mut b: usize = a;
    while b < n && !is_space_char(cs[b])
        invariant
            cs@ == text@,
            n == cs.len(),
            a <= b <= n,
            forall|t: int| a <= t < b ==> !crate::text::is_space(#[trigger] cs@[t]),
        decreases n - b,
    {
        b = b + 1;
    }
    proof {
        lemma_trim_start_skip(text@, a as int);
        let ts = text@.skip(a as int);
        lemma_word_len_is(ts, b - a);
        assert(ts.skip(b - a) =~= text@.subrange(b as int, n as int));
    }
    let tail = slice_string(text, b, n);
    let rest = trim_string(tail.as_str());
    (tok, args, rest)
}

/// Where a text message goes.
#[derive(Clone, Debug)]
pub enum Route {
    /// Send the note that a `#name` message fetched.
    Note(String),
    /// Send the reply of the matching filter.
    Filter(String),
    /// Run a known command.
    Command(Command),
    /// An unknown command in a one-to-one chat: one usage hint naming it.
    UnknownCommand(String),
    /// Plain text in a one-to-one chat: the canned reply.
    Echo,
    /// Nothing is sent.
    Silent,
}

/// A route with its texts as character sequences.
pub enum RouteView {
    Note(Seq<char>),
    Filter(Seq<char>),
    Command(Command),
    UnknownCommand(Seq<char>),
    Echo,
    Silent,
}

impl View for Route {
    type V = RouteView;

    open spec fn view(&self) -> RouteView {
        match self {
            Route::Note(c) => RouteView::Note(c@),
            Route::Filter(c) => RouteView::Filter(c@),
            Route::Command(c) => RouteView::Command(*c),
            Route::UnknownCommand(t) => RouteView::UnknownCommand(t@),
            Route::Echo => RouteView::Echo,
            Route::Silent => RouteView::Silent,
        }
    }
}

/// The route of text message `text` in chat `chat`: a `#name` note first,
/// then the first matching filter, then the command table; an unknown
/// `/command` or plain text gets a reply in a one-to-one chat only.
pub open spec fn route_of(
    notes: Seq<EntryView>,
    filters: Seq<EntryView>,
    chat: i64,
    text: Seq<char>,
    is_private: bool,
) -> RouteView {
    match hashtag_note(notes, chat, text) {
        Some(c) => RouteView::Note(c),
        None => match first_contained(filters, chat, lower_of(text)) {
            Some(r) => RouteView::Filter(r),
            None => {
                let tok = command_token(text);
                match command_of(tok) {
                    Some(c) => RouteView::Command(c),
                    None => if !is_private {
                        RouteView::Silent
                    } else if tok.len() > 0 && tok[0] == '/' {
                        RouteView::UnknownCommand(tok)
                    } else {
                        RouteView::Echo
                    },
                }
            },
        },
    }
}

/// Routes text message `text` of chat `chat`.
pub fn route_message(
    notes: &NoteStore,
    filters: &FilterStore,
    chat: i64,
    text: &str,
    is_private: bool,
) -> (r: Route)
    requires
        notes.wf(),
    ensures
        r@ == route_of(notes@, filters@, chat, text@, is_private),
{
    if let Some(c) = notes.check_hashtag_note(chat, text) {
        return Route::Note(c);
    }
    if let Some(v) = filters.check_filters(chat, text) {
        return Route::Filter(v);
    }
    let (tok, _args, _rest) = split_command(text);
    match lookup_command(tok.as_str()) {
        Some(c) => Route::Command(c),
        None => {
            if !is_private {
                Route::Silent
            } else {
                let tc = chars_of(tok.as_str());
                if tc.len() > 0 && tc[0] == '/' {
                    Route::UnknownCommand(tok)
                } else {
                    Route::Echo
                }
            }
        },
    }
}

/// The canned replies to plain text in a one-to-one chat.
#[derive(Clone, Copy, Debug, PartialEq, Eq, Structural)]
pub enum EchoKind {
    /// The text mentions Rust or the crab.
    Rust,
    /// The text holds a greeting.
    Greeting,
    /// The text asks for help.
    Help,
    /// The text thanks the bot.
    Thanks,
    /// Anything else: the text is echoed back.
    Plain,
}

/// The reply that plain text gets, by what its lower-cased form contains,
/// in this order: `rust` or the crab, `hello`/`hi`/`hey`, `help`, `thank`.
pub open spec fn echo_kind_of(text: Seq<char>) -> EchoKind {
    let l = lower_of(text);
    if contains(l, "rust"@) || contains(l, "\u{1F980}"@) {
        EchoKind::Rust
    } else if contains(l, "hello"@) || contains(l, "hi"@) || contains(l, "hey"@) {
        EchoKind::Greeting
    } else if contains(l, "help"@) {
        EchoKind::Help
    } else if contains(l, "thank"@) {
        EchoKind::Thanks
    } else {
        EchoKind::Plain
    }
}

/// Whether the lower-cased text holds `word`.
fn has_word(l: &Vec<char>, word: &str) -> (r: bool)
    ensures
        r == contains(l@, word@),
{
    let w = chars_of(word);
    contains_chars(l, &w)
}

/// Picks the canned reply to plain text.
pub fn echo_kind(text: &str) -> (r: EchoKind)
    ensures
        r == echo_kind_of(text@),
{
    let lower = lowercase(text);
    let l = chars_of(lower.as_str());
    if has_word(&l, "rust") || has_word(&l, "\u{1F980}") {
        EchoKind::Rust
    } else if has_word(&l, "hello") || has_word(&l, "hi") || has_word(&l, "hey") {
        EchoKind::Greeting
    } else if has_word(&l, "help") {
        EchoKind::Help
    } else if has_word(&l, "thank") {
        EchoKind::Thanks
    } else {
        EchoKind::Plain
    }
}

/// Whether the bot's new membership status in a chat (`member` or
/// `administrator`) earns the chat a welcome message.
pub fn welcomes(status: &str) -> (r: bool)
    ensures
        r == (status@ == "member"@ || status@ == "administrator"@),
{
    same_text(status, "member") || same_text(status, "administrator")
}

/// The hashtag note check runs before the filters: a message that fetches
/// a note is answered with that note whatever filters match it.
pub proof fn law_note_before_filter(
    notes: Seq<EntryView>,
    filters: Seq<EntryView>,
    chat: i64,
    text: Seq<char>,
    is_private: bool,
)
    requires
        hashtag_note(notes, chat, text) is Some,
    ensures
        route_of(notes, filters, chat, text, is_private) == RouteView::Note(
            hashtag_note(notes, chat, text)->0,
        ),
{
}

/// An unknown `/command` that no filter answers is silent in a group chat
/// and gets exactly one usage hint in a one-to-one chat.
pub proof fn law_unknown_command(
    notes: Seq<EntryView>,
    filters: Seq<EntryView>,
    chat: i64,
    text: Seq<char>,
)
    requires
        command_token(text).len() > 0,
        command_token(text)[0] == '/',
        command_of(command_token(text)) is None,
        first_contained(filters, chat, lower_of(text)) is None,
    ensures
        route_of(notes, filters, chat, text, false) == RouteView::Silent,
        route_of(notes, filters, chat, text, true) == RouteView::UnknownCommand(
            command_token(text),
        ),
{
    lemma_command_text_no_hashtag(text);
}

proof fn lemma_command_text_no_hashtag(text: Seq<char>)
    requires
        command_token(text).len() > 0,
        command_token(text)[0] == '/',
    ensures
        !(text.len() > 0 && text[0] == '#'),
{
    if text.len() > 0 && text[0] == '#' {
        crate::text::lemma_word_len_bound(text);
        assert(!crate::text::is_space(text[0]));
        let k = word_len(text);
        assert(words(text) == seq![text.take(k as int)] + words(text.skip(k as int)));
        assert(words(text)[0] == text.take(k as int));
        assert(words(text)[0][0] == '#');
        let w0 = words(text)[0];
        assert(command_token(text) == w0.take(first_index(w0, '@') as int));
        crate::markup::lemma_first_index_bound(w0, '@');
        assert(command_token(text)[0] == w0[0]);
    }
}

} // verus!
