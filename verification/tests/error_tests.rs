use live_mix::error::ParseError;

#[test]
fn report_keeps_the_message() {
    assert_eq!(ParseError::report("boom").message(), "boom");
    assert_eq!(ParseError::report("").message(), "");
}

#[test]
fn report_string_keeps_the_message() {
    assert_eq!(ParseError::report_string(String::from("no pipe")).message(), "no pipe");
}

#[test]
fn report_with_appends_the_content() {
    assert_eq!(ParseError::report_with("Unknown command: ", "fly").message(), "Unknown command: fly");
}

#[test]
fn annotate_puts_the_context_in_front() {
    let inner = ParseError::report("Incorrect number of arguments");
    let outer = inner.annotate("block.generate");
    assert_eq!(outer.message(), "block.generate: Incorrect number of arguments");
    assert_eq!(inner.message(), "Incorrect number of arguments");
}

#[test]
fn annotate_chains_outermost_first() {
    let e = ParseError::report("cause").annotate("inner").annotate("outer");
    assert_eq!(e.message(), "outer: inner: cause");
}

#[test]
fn errors_can_be_cloned_and_printed() {
    let e = ParseError::report("x");
    let f = e.clone();
    assert_eq!(f.message(), "x");
    assert!(format!("{:?}", f).contains("x"));
}

#[test]
fn errors_come_from_strings() {
    let a: ParseError = "No pipe found: x".into();
    let b: ParseError = String::from("No pipe found: x").into();
    assert_eq!(a.message(), "No pipe found: x");
    assert_eq!(b.message(), "No pipe found: x");
    assert_eq!(ParseError::from("").message(), "");
}
