//! The rule store, the mention-stripping message adapter and the matcher's
//! disambiguation policy, on concrete rule sets.

use xddmod::persistence::FirstMatching;
use xddmod::persistence::Handler;
use xddmod::persistence::MatchableMessage;
use xddmod::persistence::PersistenceError;
use xddmod::persistence::Reply;
use xddmod::persistence::ReplyStore;

fn rule(pattern: &str, case_insensitive: bool, channel: Option<&str>) -> Reply {
    Reply {
        id: 0,
        handler: Some(Handler::Npc),
        pattern: pattern.to_string(),
        case_insensitive,
        template: "hi".to_string(),
        channel: channel.map(|c| c.to_string()),
        enabled: true,
        additional_inputs: None,
        created_by: "test".to_string(),
        created_at: 0,
        updated_at: 0,
    }
}

fn message(channel: &str, text: &str, parent: Option<&str>) -> MatchableMessage {
    MatchableMessage {
        channel: channel.to_string(),
        message_text: text.to_string(),
        reply_parent_login: parent.map(|p| p.to_string()),
    }
}

#[test]
fn matchable_message_text_works_as_expected() {
    assert_eq!("@foo bar", message("baz", "@foo bar", None).text().as_str());
    assert_eq!("bar", message("baz", "@foo bar", Some("foo")).text().as_str());
    assert_eq!("@foo bar", message("baz", "@foo bar", Some("baz")).text().as_str());
}

#[test]
fn mention_stripping_twice_changes_nothing_more() {
    let once = message("c", "@foo   bar", Some("foo")).text();
    let twice = message("c", once.as_str(), Some("foo")).text();
    assert_eq!(once, twice);
}

#[test]
fn no_match_and_no_regex_error_is_a_no_op() {
    let mut store = ReplyStore::new();
    store.insert(rule("^!stats$", false, None));
    let m = message("chan", "hello there", None);
    let r = Reply::first_matching(Handler::Npc, &m, &store);
    assert!(matches!(r, Ok(None)));
}

#[test]
fn a_single_match_wins_even_beside_regex_errors() {
    let mut store = ReplyStore::new();
    store.insert(rule("(", false, None));
    store.insert(rule("^hello", false, None));
    let m = message("chan", "hello there", None);
    match Reply::first_matching(Handler::Npc, &m, &store) {
        Ok(Some(FirstMatching { reply, message, regex_errors })) => {
            assert_eq!(reply.pattern, "^hello");
            assert_eq!(message, "hello there");
            assert_eq!(regex_errors.len(), 1);
        },
        other => panic!("expected a single match, got {:?}", other.map(|_| ())),
    }
}

#[test]
fn no_match_with_regex_errors_is_an_error() {
    let mut store = ReplyStore::new();
    store.insert(rule("(", false, None));
    let m = message("chan", "hello there", None);
    match Reply::first_matching(Handler::Npc, &m, &store) {
        Err(PersistenceError::NoReplyAndErrors { message, regex_errors }) => {
            assert_eq!(message, "hello there");
            assert_eq!(regex_errors.len(), 1);
        },
        _ => panic!("expected NoReplyAndErrors"),
    }
}

#[test]
fn two_matches_are_ambiguous() {
    let mut store = ReplyStore::new();
    store.insert(rule("hello", false, None));
    store.insert(rule("there", false, None));
    let m = message("chan", "hello there", None);
    match Reply::first_matching(Handler::Npc, &m, &store) {
        Err(PersistenceError::MultipleReplies { replies, .. }) => {
            assert_eq!(replies.len(), 2);
        },
        _ => panic!("expected MultipleReplies"),
    }
}

#[test]
fn case_insensitive_rules_match_across_case() {
    let mut store = ReplyStore::new();
    store.insert(rule("^hello$", true, None));
    let matched = Reply::matching(Handler::Npc, &message("chan", "HELLO", None), &store);
    assert_eq!(matched.len(), 1);
    let mut strict = ReplyStore::new();
    strict.insert(rule("^hello$", false, None));
    let matched = Reply::matching(Handler::Npc, &message("chan", "HELLO", None), &strict);
    assert!(matched.is_empty());
}

#[test]
fn a_rule_without_channel_answers_every_channel() {
    let mut store = ReplyStore::new();
    let id = store.insert(rule(".*", false, None));
    for chan in ["foo", "bar", "anything"] {
        let matched = Reply::matching(Handler::Npc, &message(chan, "x", None), &store);
        assert_eq!(matched.len(), 1);
        assert_eq!(matched[0].id, id);
    }
}

#[test]
fn a_channel_scoped_rule_answers_only_its_channel() {
    let mut store = ReplyStore::new();
    let id = store.insert(rule(".*", false, Some("foo")));
    let matched = Reply::matching(Handler::Npc, &message("foo", "x", None), &store);
    assert_eq!(matched.len(), 1);
    assert_eq!(matched[0].id, id);
    let matched = Reply::matching(Handler::Npc, &message("bar", "x", None), &store);
    assert!(matched.is_empty());
}

#[test]
fn disabled_rules_and_foreign_handlers_are_ignored() {
    let mut store = ReplyStore::new();
    let mut off = rule(".*", false, None);
    off.enabled = false;
    store.insert(off);
    let mut other = rule(".*", false, None);
    other.handler = Some(Handler::Gg);
    store.insert(other);
    let mut unscoped = rule(".*", false, None);
    unscoped.handler = None;
    let id = store.insert(unscoped);
    let matched = Reply::matching(Handler::Npc, &message("chan", "x", None), &store);
    assert_eq!(matched.len(), 1);
    assert_eq!(matched[0].id, id);
}

#[test]
fn match_warnings_surface_as_an_error_value() {
    let with_warnings = FirstMatching {
        reply: rule("x", false, None),
        message: "x".to_string(),
        regex_errors: vec!["bad".to_string()],
    };
    assert!(matches!(
        PersistenceError::from_first_matching(with_warnings),
        Some(PersistenceError::SingleReplyAndErrors { .. })
    ));
    let clean = FirstMatching {
        reply: rule("x", false, None),
        message: "x".to_string(),
        regex_errors: vec![],
    };
    assert!(PersistenceError::from_first_matching(clean).is_none());
}
