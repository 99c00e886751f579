use escape::stop_switch::{Comptroller, StopSwitch};
use escape::types::Verbosity;
use escape::error::EscapeError;

#[test]
fn stop_switch_stays_set() {
    let mut s = StopSwitch::new();
    assert!(!s.stop());
    assert!(!s.trigger());
    assert!(s.stop());
    assert!(s.trigger());
    assert!(s.stop());
}

#[test]
fn comptroller_halts() {
    let mut c = Comptroller::new();
    assert!(!c.stop());
    c.halt();
    assert!(c.stop());
    c.halt();
    assert!(c.stop());
}

#[test]
fn verbosity_names_parse() {
    let names = ["off", "error", "warn", "info", "debug", "trace"];
    let levels = [Verbosity::Off, Verbosity::Error, Verbosity::Warn, Verbosity::Info, Verbosity::Debug, Verbosity::Trace];
    for (n, l) in names.iter().zip(levels.iter()) {
        assert_eq!(Verbosity::parse(n).unwrap(), *l);
        assert_eq!(n.parse::<Verbosity>().unwrap(), *l);
    }
}

#[test]
fn unknown_verbosity_is_an_error_carrying_the_text() {
    match Verbosity::parse("loud") {
        Err(EscapeError::VerbosityParse(t)) => assert_eq!(t, "loud"),
        other => panic!("unexpected {:?}", other),
    }
    assert!(Verbosity::parse("Info").is_err());
    assert!(Verbosity::parse("").is_err());
}

#[test]
fn default_verbosity_is_info() {
    assert_eq!(Verbosity::default(), Verbosity::Info);
}
