use rustace::filters::new_filter_store;
use rustace::moderation::{new_warn_store, WARN_LIMIT};
use rustace::notes::new_note_store;

#[test]
fn warn_three_times_bans() {
    let mut s = new_warn_store();
    let w1 = s.warn(1, 7);
    let w2 = s.warn(1, 7);
    let w3 = s.warn(1, 7);
    assert_eq!((w1.count, w1.threshold_reached), (1, false));
    assert_eq!((w2.count, w2.threshold_reached), (2, false));
    assert_eq!((w3.count, w3.threshold_reached), (3, true));
    assert_eq!(w3.count, WARN_LIMIT);
    assert_eq!(s.check_warns(1, 7), 0);
}

#[test]
fn unwarn_floor_is_zero() {
    let mut s = new_warn_store();
    assert_eq!(s.unwarn(1, 7), 0);
    assert_eq!(s.check_warns(1, 7), 0);
    s.warn(1, 7);
    s.warn(1, 7);
    assert_eq!(s.unwarn(1, 7), 1);
    assert_eq!(s.unwarn(1, 7), 0);
    assert_eq!(s.unwarn(1, 7), 0);
}

#[test]
fn warns_are_per_chat_and_user() {
    let mut s = new_warn_store();
    s.warn(100, 7);
    s.warn(100, 7);
    assert_eq!(s.check_warns(200, 7), 0);
    assert_eq!(s.check_warns(100, 8), 0);
    assert_eq!(s.check_warns(100, 7), 2);
}

#[test]
fn filters_isolated_by_chat() {
    let mut f = new_filter_store();
    f.set_filter(100, "hello", "hi!");
    assert_eq!(f.check_filters(200, "hello"), None);
    assert_eq!(f.get_filter(200, "hello"), None);
    assert_eq!(f.check_filters(100, "hello"), Some("hi!".to_string()));
}

#[test]
fn notes_isolated_by_chat() {
    let mut n = new_note_store();
    n.save_note(100, "rules", "be kind");
    assert_eq!(n.get_note(200, "rules"), None);
    assert_eq!(n.check_hashtag_note(200, "#rules"), None);
    assert_eq!(n.get_note(100, "rules"), Some("be kind".to_string()));
}

#[test]
fn filter_keyword_is_lower_cased() {
    let mut f = new_filter_store();
    let k = f.set_filter(1, "HeLLo", "hey");
    assert_eq!(k, "hello");
    assert_eq!(f.check_filters(1, "well HELLO there"), Some("hey".to_string()));
    assert_eq!(f.check_filters(1, "goodbye"), None);
}

#[test]
fn first_filter_by_insertion_wins() {
    let mut f = new_filter_store();
    f.set_filter(1, "b", "second");
    f.set_filter(1, "a", "first");
    assert_eq!(f.check_filters(1, "ab"), Some("second".to_string()));
    f.set_filter(1, "b", "updated");
    assert_eq!(f.check_filters(1, "ab"), Some("updated".to_string()));
}

#[test]
fn delete_and_list_filters() {
    let mut f = new_filter_store();
    f.set_filter(1, "zeta", "z");
    f.set_filter(1, "alpha", "a");
    f.set_filter(2, "beta", "b");
    let l = f.list_filters(1);
    assert_eq!(l, vec![("alpha".to_string(), "a".to_string()), ("zeta".to_string(), "z".to_string())]);
    assert!(f.delete_filter(1, "ZETA"));
    assert!(!f.delete_filter(1, "zeta"));
    assert_eq!(f.list_filters(1).len(), 1);
    assert!(f.list_filters(3).is_empty());
}

#[test]
fn filter_from_args() {
    let mut f = new_filter_store();
    let args = vec!["Rules".to_string(), "read".to_string(), "them".to_string()];
    assert_eq!(f.set_filter_from_args(5, &args), Some(("rules".to_string(), "read them".to_string())));
    assert_eq!(f.set_filter_from_args(5, &vec!["only".to_string()]), None);
    assert_eq!(f.get_filter(5, "only"), None);
}

#[test]
fn notes_by_name_and_hashtag() {
    let mut n = new_note_store();
    let args = vec!["Welcome".to_string(), "hi".to_string(), "all".to_string()];
    assert_eq!(n.save_note_from_args(1, &args), Some(("welcome".to_string(), "hi all".to_string())));
    assert_eq!(n.get_note(1, "#WELCOME"), Some("hi all".to_string()));
    assert_eq!(n.check_hashtag_note(1, "#welcome please"), Some("hi all".to_string()));
    assert_eq!(n.check_hashtag_note(1, "##Welcome"), Some("hi all".to_string()));
    assert_eq!(n.check_hashtag_note(1, "welcome"), None);
    assert_eq!(n.check_hashtag_note(1, "# welcome"), None);
    assert_eq!(n.save_note_from_args(1, &vec![]), None);
}

#[test]
fn list_and_delete_notes() {
    let mut n = new_note_store();
    n.save_note(1, "b", "2");
    n.save_note(1, "a", "1");
    n.save_note(1, "c", "3");
    assert_eq!(n.list_notes(1), vec!["a", "b", "c"]);
    assert!(n.delete_note(1, "B"));
    assert!(!n.delete_note(1, "b"));
    assert_eq!(n.list_notes(1), vec!["a", "c"]);
    assert!(n.list_notes(2).is_empty());
}
