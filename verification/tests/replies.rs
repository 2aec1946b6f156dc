use golem::codefall::{Code, LookupError, QueryError};
use golem::currency::{format_cents, format_u64};
use golem::handler::{CommandHandler, Dispatch};

fn handler() -> CommandHandler {
    CommandHandler::new(
        "^~",
        String::from("https://pump19.eu/commands"),
        String::from("https://pump19.eu/bingo"),
        String::from("https://pump19.eu/codefall"),
        vec![String::from("#alpha"), String::from("#beta")],
    )
    .unwrap()
}

#[test]
fn currency_rendering() {
    assert_eq!(format_u64(0).as_str(), "0");
    assert_eq!(format_u64(1000).as_str(), "1000");
    assert_eq!(format_cents(0).as_str(), "0.00");
    assert_eq!(format_cents(7).as_str(), "0.07");
    assert_eq!(format_cents(550).as_str(), "5.50");
    assert_eq!(format_cents(100000).as_str(), "1000.00");
}

#[test]
fn help_reply_text() {
    let h = handler();
    assert_eq!(
        h.handle_help().as_str(),
        "Pump19 is run by Twisted Pear. Check https://pump19.eu/commands for a list of supported commands."
    );
}

#[test]
fn bingo_reply_text() {
    let h = handler();
    assert_eq!(
        h.handle_bingo().as_str(),
        "Check out https://pump19.eu/bingo for our interactive Trope Bingo cards."
    );
}

#[test]
fn multiple_reply_for_ten_dollars() {
    let h = handler();
    let reply = h.handle_multiple(1000).unwrap();
    assert_eq!(
        reply.as_str(),
        "Multiples of $10.00 | $20.00 | $30.00 | $40.00 | $50.00 | $60.00 | $70.00 | $80.00 | $90.00 | $100.00 | $250.00 | $500.00 | $1000.00"
    );
}

#[test]
fn multiple_over_a_thousand_is_silent() {
    let h = handler();
    assert!(h.handle_multiple(100001).is_none());
    assert!(h.handle_multiple(u64::MAX).is_none());
    assert!(h.handle_multiple(100000).is_some());
}

#[test]
fn codefall_reply_with_entries_in_order() {
    let h = handler();
    let codes = vec![
        Code::new(
            String::from("Game A"),
            String::from("Steam"),
            String::from("abc"),
        ),
        Code::new(
            String::from("Game B"),
            String::from("GOG"),
            String::from("xyz"),
        ),
    ];
    let reply = h.handle_codefall(&Ok(codes)).unwrap();
    assert_eq!(
        reply.as_str(),
        "Codefall | Game A (Steam) https://pump19.eu/codefall/abc | Game B (GOG) https://pump19.eu/codefall/xyz"
    );
}

#[test]
fn codefall_reply_when_nothing_unclaimed() {
    let h = handler();
    let reply = h.handle_codefall(&Ok(vec![])).unwrap();
    assert_eq!(
        reply.as_str(),
        "Could not find any unclaimed codes. Visit https://pump19.eu/codefall to add new entries"
    );
}

#[test]
fn codefall_query_failure_is_swallowed() {
    let h = handler();
    assert!(h.handle_codefall(&Err(QueryError)).is_none());
}

#[test]
fn announcement_goes_to_every_channel_in_order() {
    let h = handler();
    let code = Code::new(
        String::from("Game A"),
        String::from("Steam"),
        String::from("abc"),
    );
    let sends = h.announce_codefall(&Ok(code));
    assert_eq!(sends.len(), 2);
    assert_eq!(sends[0].0.as_str(), "#alpha");
    assert_eq!(sends[1].0.as_str(), "#beta");
    let line = "Codefall | Game A (Steam) https://pump19.eu/codefall/abc";
    assert_eq!(sends[0].1.as_str(), line);
    assert_eq!(sends[1].1.as_str(), line);
}

#[test]
fn announcement_for_missing_key_sends_nothing() {
    let h = handler();
    let sends = h.announce_codefall(&Err(LookupError::NotFound));
    assert!(sends.is_empty());
    let sends = h.announce_codefall(&Err(LookupError::Query(QueryError)));
    assert!(sends.is_empty());
}

#[test]
fn privmsg_without_trigger_is_dropped() {
    let h = handler();
    assert_eq!(h.process_privmsg("alice", "help"), Dispatch::NoReply);
}

#[test]
fn privmsg_help_gets_the_help_reply() {
    let h = handler();
    match h.process_privmsg("alice", "~help") {
        Dispatch::Reply(t) => assert_eq!(
            t.as_str(),
            "Pump19 is run by Twisted Pear. Check https://pump19.eu/commands for a list of supported commands."
        ),
        other => panic!("unexpected dispatch: {:?}", other),
    }
}

#[test]
fn privmsg_codefall_asks_for_a_query() {
    let h = handler();
    assert_eq!(
        h.process_privmsg("alice", "~codefall 2"),
        Dispatch::QueryCodefall {
            user: String::from("alice"),
            limit: 2
        }
    );
}

#[test]
fn privmsg_unknown_command_is_silent() {
    let h = handler();
    assert_eq!(h.process_privmsg("alice", "~frobnicate"), Dispatch::NoReply);
}

#[test]
fn bad_trigger_pattern_is_a_config_error() {
    let r = CommandHandler::new(
        "(",
        String::new(),
        String::new(),
        String::new(),
        vec![],
    );
    assert!(r.is_err());
}
