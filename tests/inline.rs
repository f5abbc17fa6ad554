use rustace::inline::{inline_topic, search, InlineTopic, SearchRow};

fn row(fields: &[&str], tag: &str) -> SearchRow {
    SearchRow { fields: fields.iter().map(|f| f.to_string()).collect(), tag: tag.to_string() }
}

#[test]
fn inline_topics() {
    assert_eq!(inline_topic("   ").0, InlineTopic::Featured);
    let (t, term) = inline_topic("  Method:fn  Send ");
    assert_eq!(t, InlineTopic::Methods);
    assert_eq!(term, "send");
    let (t, term) = inline_topic("bot.bot.ban_chat");
    assert_eq!((t, term.as_str()), (InlineTopic::Methods, "ban_chat"));
    assert_eq!(inline_topic("Photo tips").0, InlineTopic::Messaging);
    assert_eq!(inline_topic("how to BAN").0, InlineTopic::Moderation);
    assert_eq!(inline_topic("lol").0, InlineTopic::Jokes);
    assert_eq!(inline_topic("linux").0, InlineTopic::Facts);
    assert_eq!(inline_topic("tgbotrs").0, InlineTopic::About);
    let (t, term) = inline_topic("Weather");
    assert_eq!((t, term.as_str()), (InlineTopic::Search, "weather"));
}

#[test]
fn table_search() {
    let rows = vec![
        row(&["send_message", "Send a TEXT"], "Messaging"),
        row(&["ban_chat_member", "Ban a user"], "Chat"),
        row(&["send_photo", "Send a photo"], "Media"),
        row(&["get_me", "Bot info"], "Chat"),
    ];
    assert_eq!(search(&rows, "send", None, 10), vec![0, 2]);
    assert_eq!(search(&rows, "send", None, 1), vec![0]);
    assert_eq!(search(&rows, "text", None, 10), vec![0]);
    assert_eq!(search(&rows, "zzz", Some("Chat"), 10), vec![1, 3]);
    assert!(search(&rows, "zzz", None, 10).is_empty());
    assert!(search(&rows, "send", None, 0).is_empty());
}
