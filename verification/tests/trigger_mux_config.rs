use golem::config::{verify, ConfigError};
use golem::mux::{Multiplexer, Source};
use golem::trigger::TriggerExtractor;

#[test]
fn trigger_strips_through_first_match() {
    let t = TriggerExtractor::new("^~").unwrap();
    assert_eq!(t.extract("~codefall"), Some("codefall"));
}

#[test]
fn text_without_trigger_yields_no_command() {
    let t = TriggerExtractor::new("^~").unwrap();
    assert_eq!(t.extract("codefall"), None);
    assert_eq!(t.extract("say ~nothing"), None);
}

#[test]
fn trigger_uses_first_match_only() {
    let t = TriggerExtractor::new("bot, ").unwrap();
    assert_eq!(t.extract("hey bot, bot, help"), Some("bot, help"));
}

#[test]
fn invalid_trigger_pattern_is_rejected() {
    assert!(TriggerExtractor::new("(").is_none());
}

#[test]
fn mux_is_biased_but_bounded() {
    let mut m = Multiplexer::new(2);
    // both sources always pending: the notification source is preferred,
    // but after two consecutive services the chat source gets a turn
    assert_eq!(m.pick(true, true), Some(Source::Codefall));
    assert_eq!(m.pick(true, true), Some(Source::Codefall));
    assert_eq!(m.pick(true, true), Some(Source::Chat));
    assert_eq!(m.pick(true, true), Some(Source::Codefall));
}

#[test]
fn mux_services_the_only_pending_source() {
    let mut m = Multiplexer::new(2);
    assert_eq!(m.pick(true, false), Some(Source::Chat));
    assert_eq!(m.pick(true, false), Some(Source::Chat));
    assert_eq!(m.pick(true, false), Some(Source::Chat));
    assert_eq!(m.pick(false, true), Some(Source::Codefall));
    assert_eq!(m.pick(false, false), None);
}

#[test]
fn config_with_every_value_passes() {
    let values: Vec<Option<String>> = (0..10).map(|i| Some(format!("value{}", i))).collect();
    assert!(verify(&values).is_ok());
}

#[test]
fn config_reports_first_missing_value() {
    let mut values: Vec<Option<String>> = (0..10).map(|i| Some(format!("value{}", i))).collect();
    values[3] = None;
    values[7] = None;
    assert_eq!(verify(&values), Err(ConfigError::MissingValue(3)));
}
