use rustace::admin::{member_status, plan_promote, plan_title, userinfo_query, MemberStatus, TitleError, UserQuery};
use rustace::config::{BotMode, Config, ConfigError, Settings};
use rustace::dispatcher::{
    echo_kind, new_stores, route_callback, route_message, split_command, welcomes, CallbackAction,
    CallbackRoute, Command, EchoKind, Route, Showcase,
};
use rustace::moderation::{all_perms, kick_step, no_perms, plan_restriction, resolve, KickAction, KickState};

fn words(ws: &[&str]) -> Vec<String> {
    ws.iter().map(|w| w.to_string()).collect()
}

#[test]
fn hashtag_note_beats_filter() {
    let mut s = new_stores();
    s.note.save_note(1, "rules", "note text");
    s.filter.set_filter(1, "rules", "filter text");
    match route_message(&s.note, &s.filter, 1, "#rules", false) {
        Route::Note(c) => assert_eq!(c, "note text"),
        other => panic!("unexpected route {:?}", other),
    }
    match route_message(&s.note, &s.filter, 1, "the rules", false) {
        Route::Filter(c) => assert_eq!(c, "filter text"),
        other => panic!("unexpected route {:?}", other),
    }
}

#[test]
fn unknown_command_silent_in_groups() {
    let s = new_stores();
    assert!(matches!(route_message(&s.note, &s.filter, 1, "/xyz", false), Route::Silent));
    match route_message(&s.note, &s.filter, 1, "/xyz", true) {
        Route::UnknownCommand(t) => assert_eq!(t, "/xyz"),
        other => panic!("unexpected route {:?}", other),
    }
}

#[test]
fn plain_text_echo_only_in_private() {
    let s = new_stores();
    assert!(matches!(route_message(&s.note, &s.filter, 1, "hello", true), Route::Echo));
    assert!(matches!(route_message(&s.note, &s.filter, 1, "hello", false), Route::Silent));
}

#[test]
fn known_commands_route() {
    let s = new_stores();
    assert!(matches!(route_message(&s.note, &s.filter, 1, "/ban@RustaceBot 7d", false), Route::Command(Command::Ban)));
    assert!(matches!(route_message(&s.note, &s.filter, 1, "/menu", true), Route::Command(Command::Start)));
    assert!(matches!(route_message(&s.note, &s.filter, 1, "/whois 5", true), Route::Command(Command::UserInfo)));
    assert!(matches!(route_message(&s.note, &s.filter, 1, "/del", true), Route::Command(Command::Delete)));
}

#[test]
fn filter_checked_before_commands() {
    let mut s = new_stores();
    s.filter.set_filter(1, "ban", "no bans here");
    assert!(matches!(route_message(&s.note, &s.filter, 1, "/ban 7d", false), Route::Filter(_)));
    assert!(matches!(route_message(&s.note, &s.filter, 2, "/ban 7d", false), Route::Command(Command::Ban)));
}

#[test]
fn command_split() {
    let (tok, args, rest) = split_command("  /send@bot Hello there\n[A|a]");
    assert_eq!(tok, "/send");
    assert_eq!(args, vec!["Hello", "there", "[A|a]"]);
    assert_eq!(rest, "Hello there\n[A|a]");
    let (tok, args, rest) = split_command("");
    assert_eq!(tok, "");
    assert!(args.is_empty());
    assert_eq!(rest, "");
}

#[test]
fn reply_target_wins() {
    let args = words(&["123", "x"]);
    assert_eq!(resolve(Some(5), Some("Ann"), &args), Some((5, "Ann".to_string(), 0)));
    assert_eq!(resolve(Some(5), None, &args), Some((5, "User".to_string(), 0)));
    assert_eq!(resolve(None, None, &args), Some((123, "123".to_string(), 1)));
    assert_eq!(resolve(None, None, &words(&["abc"])), None);
    assert_eq!(resolve(None, None, &words(&[])), None);
}

#[test]
fn restriction_plans() {
    let p = plan_restriction(Some(9), Some("Bob"), &words(&["2h"]), 100).unwrap();
    assert_eq!((p.target_id, p.until, p.duration.as_deref()), (9, Some(7_300), Some("2h")));
    let p = plan_restriction(None, None, &words(&["42", "1d"]), 0).unwrap();
    assert_eq!((p.target_id, p.until), (42, Some(86_400)));
    let p = plan_restriction(Some(9), Some("Bob"), &words(&["soon"]), 0).unwrap();
    assert_eq!((p.until, p.duration), (None, None));
    assert!(plan_restriction(None, None, &words(&[]), 0).is_none());
}

#[test]
fn kick_protocol() {
    let (s, a) = kick_step(KickState::Start, true);
    assert_eq!((s, a), (KickState::Banned, KickAction::CallBan));
    assert_eq!(kick_step(KickState::Banned, true), (KickState::Done, KickAction::CallUnban));
    assert_eq!(kick_step(KickState::Banned, false), (KickState::Done, KickAction::ReportFailed));
    assert_eq!(kick_step(KickState::Done, false), (KickState::Done, KickAction::ReportKicked));
}

#[test]
fn permission_sets() {
    let none = no_perms();
    assert!(!none.send_messages && !none.invite_users && !none.pin_messages);
    let all = all_perms();
    assert!(all.send_messages && all.send_polls && all.invite_users);
    assert!(!all.change_info && !all.pin_messages && !all.manage_topics);
}

#[test]
fn titles() {
    assert_eq!(plan_title(None, None, &words(&[])).unwrap_err(), TitleError::Usage);
    assert_eq!(plan_title(Some(1), Some("A"), &words(&[])).unwrap_err(), TitleError::Missing);
    assert_eq!(
        plan_title(Some(1), Some("A"), &words(&["a", "very", "long", "title", "here"])).unwrap_err(),
        TitleError::TooLong
    );
    let t = plan_title(None, None, &words(&["77", "Guard", "Dog"])).unwrap();
    assert_eq!((t.target_id, t.title.as_str()), (77, "Guard Dog"));
    let p = plan_promote(Some(3), Some("C"), &words(&["Boss"])).unwrap();
    assert_eq!(p.title.as_deref(), Some("Boss"));
    let p = plan_promote(None, None, &words(&["3"])).unwrap();
    assert_eq!((p.target_id, p.title), (3, None));
}

#[test]
fn userinfo_targets() {
    assert!(matches!(userinfo_query(Some(4), Some("@x")), UserQuery::Id(4)));
    assert!(matches!(userinfo_query(None, Some("-100")), UserQuery::Id(-100)));
    match userinfo_query(None, Some("@someone")) {
        UserQuery::Handle(h) => assert_eq!(h, "@someone"),
        other => panic!("unexpected {:?}", other),
    }
    assert!(matches!(userinfo_query(None, Some("someone")), UserQuery::Usage));
    assert!(matches!(userinfo_query(None, None), UserQuery::Usage));
    assert_eq!(member_status("kicked"), MemberStatus::Banned);
    assert_eq!(member_status("creator"), MemberStatus::Creator);
    assert_eq!(member_status("owner"), MemberStatus::Unknown);
}

#[test]
fn callbacks() {
    assert_eq!(route_callback("btn_color"), CallbackRoute::Showcase(Showcase::Pretty));
    assert_eq!(route_callback("notif_demo"), CallbackRoute::Showcase(Showcase::Toast));
    assert_eq!(route_callback("main_menu"), CallbackRoute::Action(CallbackAction::MainMenu));
    assert_eq!(route_callback("media_group_info"), CallbackRoute::Action(CallbackAction::MediaGroupInfo));
    assert_eq!(route_callback("nope"), CallbackRoute::Unknown);
}

#[test]
fn echo_kinds() {
    assert_eq!(echo_kind("I love RUST"), EchoKind::Rust);
    assert_eq!(echo_kind("Hey you"), EchoKind::Greeting);
    assert_eq!(echo_kind("help me"), EchoKind::Help);
    assert_eq!(echo_kind("Thanks!"), EchoKind::Thanks);
    assert_eq!(echo_kind("good morning"), EchoKind::Plain);
    assert!(welcomes("member") && welcomes("administrator") && !welcomes("left"));
}

fn empty_settings() -> Settings {
    Settings {
        bot_token: None,
        bot_mode: None,
        polling_timeout: None,
        polling_limit: None,
        webhook_url: None,
        webhook_port: None,
        webhook_path: None,
        webhook_secret: None,
        webhook_max_connections: None,
        webhook_drop_pending: None,
        admin_id: None,
        api_url: None,
    }
}

#[test]
fn config_needs_token() {
    assert_eq!(Config::from_settings(&empty_settings()).unwrap_err(), ConfigError::MissingToken);
}

#[test]
fn config_defaults_and_values() {
    let mut s = empty_settings();
    s.bot_token = Some("SECRET-REDACTED".to_string());
    let c = Config::from_settings(&s).unwrap();
    assert_eq!(c.mode, BotMode::Polling);
    assert_eq!((c.polling.timeout, c.polling.limit), (30, 100));
    assert_eq!((c.webhook.url.as_str(), c.webhook.port, c.webhook.path.as_str()), ("https://example.com", 8080, "/webhook"));
    assert_eq!((c.webhook.max_connections, c.webhook.drop_pending), (40, false));
    s.bot_mode = Some("WebHook".to_string());
    s.webhook_port = Some("not a port".to_string());
    s.polling_timeout = Some("5".to_string());
    s.webhook_drop_pending = Some("TRUE".to_string());
    s.admin_id = Some("42".to_string());
    let c = Config::from_settings(&s).unwrap();
    assert_eq!(c.mode, BotMode::Webhook);
    assert_eq!((c.webhook.port, c.polling.timeout, c.webhook.drop_pending), (8080, 5, true));
    assert_eq!(c.admin_id, Some(42));
}
