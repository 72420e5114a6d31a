use osc_address::address::Matcher;
use osc_address::errors::OscError;
use osc_address::message::OscMessage;

fn message(addr: &str) -> OscMessage {
    OscMessage { addr: addr.to_string() }
}

#[test]
fn test_matcher() {
    let matcher = Matcher::new("/oscillator/[0-9]/*/pre[!1234?*]post/{frequency,phase}/x?")
        .expect("Matcher::new");
    assert_eq!(
        matcher.match_message(&OscMessage {
            addr: "/oscillator/1/something/preXpost/phase/xy".to_string(),
        }),
        true
    );
    assert_eq!(
        matcher.match_message(&OscMessage {
            addr: "/oscillator/1/something/pre1post/phase/xy".to_string(),
        }),
        false
    );
}

#[test]
fn test_bad_address_pattern() {
    let expected_err = "bad OSC address pattern: bad address pattern";
    assert_eq!(Matcher::new("").unwrap_err().to_string(), expected_err);
    assert_eq!(Matcher::new("/").unwrap_err().to_string(), expected_err);
    assert_eq!(Matcher::new("//empty/parts/").unwrap_err().to_string(), expected_err);
    assert_eq!(Matcher::new("////").unwrap_err().to_string(), expected_err);
    assert_eq!(Matcher::new("/{unclosed,alternative").unwrap_err().to_string(), expected_err);
    assert_eq!(Matcher::new("/unclosed/[range-").unwrap_err().to_string(), expected_err);
}

#[test]
fn malformed_patterns_are_bad_address_patterns() {
    let bad = [
        "",
        "/",
        "//a/",
        "////",
        "/{unclosed",
        "/[unclosed",
        "a",
        "a/b",
        "/a/",
        "/a//b",
        "/a b",
        "/a\tb",
        "/a\nb",
        "/a\rb",
        "/a/ ",
        "/[]",
        "/{}",
        "/[!",
        "/abc[def",
        "/abc{def",
        "/a/b{c,d",
    ];
    for pattern in bad {
        match Matcher::new(pattern) {
            Err(OscError::BadAddressPattern(msg)) => assert_eq!(msg, "bad address pattern"),
            other => panic!("{:?} gave {:?}", pattern, other),
        }
    }
}

#[test]
fn refused_class_is_a_regex_error() {
    match Matcher::new("/[z-a]") {
        Err(OscError::RegexError(msg)) => assert!(msg.contains("invalid character class range")),
        other => panic!("gave {:?}", other),
    }
    let line = Matcher::new("/ok/[z-a]").unwrap_err().to_string();
    assert!(line.starts_with("OSC address pattern regex error: "));
    assert!(line.len() > "OSC address pattern regex error: ".len());
}

#[test]
fn grammar_errors_come_before_refusals() {
    match Matcher::new("/[z-a]/{open") {
        Err(OscError::BadAddressPattern(_)) => {}
        other => panic!("gave {:?}", other),
    }
}

#[test]
fn first_refused_part_gives_the_reason() {
    let both = Matcher::new("/[z-a]/[9-0]").unwrap_err();
    let first = Matcher::new("/[z-a]").unwrap_err();
    let second = Matcher::new("/[9-0]").unwrap_err();
    assert_eq!(both, first);
    assert_ne!(both, second);
}

#[test]
fn wildcard_gives_back_what_later_rules_need() {
    let matcher = Matcher::new("/a*b").unwrap();
    assert!(matcher.match_message(&message("/aXXbYYb")));
    assert!(matcher.match_message(&message("/ab")));
    assert!(!matcher.match_message(&message("/aXXbYYc")));
    assert!(!matcher.match_message(&message("/XaXXb")));
}

#[test]
fn alternatives_match_exactly() {
    let matcher = Matcher::new("/{frequency,phase}").unwrap();
    assert!(matcher.match_message(&message("/frequency")));
    assert!(matcher.match_message(&message("/phase")));
    assert!(!matcher.match_message(&message("/freq")));
    assert!(!matcher.match_message(&message("/frequencyx")));
    assert!(!matcher.match_message(&message("/xphase")));
}

#[test]
fn alternatives_are_taken_literally() {
    let matcher = Matcher::new("/{a.c,d+}").unwrap();
    assert!(matcher.match_message(&message("/a.c")));
    assert!(matcher.match_message(&message("/d+")));
    assert!(!matcher.match_message(&message("/abc")));
    assert!(!matcher.match_message(&message("/dd")));
}

#[test]
fn empty_alternative_matches_nothing_more() {
    let matcher = Matcher::new("/x{,foo}").unwrap();
    assert!(matcher.match_message(&message("/x")));
    assert!(matcher.match_message(&message("/xfoo")));
    assert!(!matcher.match_message(&message("/xf")));
}

#[test]
fn question_mark_is_exactly_one_word_character() {
    let matcher = Matcher::new("/x?").unwrap();
    assert!(matcher.match_message(&message("/xy")));
    assert!(matcher.match_message(&message("/x_")));
    assert!(matcher.match_message(&message("/x7")));
    assert!(!matcher.match_message(&message("/x")));
    assert!(!matcher.match_message(&message("/xyz")));
    assert!(!matcher.match_message(&message("/x-")));
}

#[test]
fn star_is_any_run_of_word_characters() {
    let matcher = Matcher::new("/*").unwrap();
    assert!(matcher.match_message(&message("/something")));
    assert!(matcher.match_message(&message("/some_thing_42")));
    assert!(!matcher.match_message(&message("/some-thing")));
    assert!(!matcher.match_message(&message("/some.thing")));
    assert!(!matcher.match_message(&message("/\u{e9}t\u{e9}")));
    let framed = Matcher::new("/a*").unwrap();
    assert!(framed.match_message(&message("/a")));
    assert!(framed.match_message(&message("/abc")));
    assert!(!framed.match_message(&message("/ba")));
}

#[test]
fn literal_text_is_not_read_as_an_expression() {
    let matcher = Matcher::new("/a.b").unwrap();
    assert!(matcher.match_message(&message("/a.b")));
    assert!(!matcher.match_message(&message("/aXb")));
    let plus = Matcher::new("/a+").unwrap();
    assert!(plus.match_message(&message("/a+")));
    assert!(!plus.match_message(&message("/aa")));
    let group = Matcher::new("/(a|b)").unwrap();
    assert!(group.match_message(&message("/(a|b)")));
    assert!(!group.match_message(&message("/a")));
}

#[test]
fn escaped_characters_still_match_themselves() {
    let matcher = Matcher::new("/a-b~c&d^e$f\\g").unwrap();
    assert!(matcher.match_message(&message("/a-b~c&d^e$f\\g")));
    assert!(!matcher.match_message(&message("/a-b~c&d^e$f")));
    let accented = Matcher::new("/caf\u{e9}/{na\u{ef}ve,x}").unwrap();
    assert!(accented.match_message(&message("/caf\u{e9}/na\u{ef}ve")));
    assert!(!accented.match_message(&message("/cafe/naive")));
    let stray = Matcher::new("/a]b}c").unwrap();
    assert!(stray.match_parts(&vec!["a]b}c".to_string()]));
}

#[test]
fn a_part_must_be_matched_as_a_whole() {
    let matcher = Matcher::new("/tempo").unwrap();
    assert!(matcher.match_message(&message("/tempo")));
    assert!(!matcher.match_message(&message("/tempos")));
    assert!(!matcher.match_message(&message("/atempo")));
    assert!(!matcher.match_message(&message("/temp")));
}

#[test]
fn classes_and_negated_classes() {
    let digit = Matcher::new("/[0-9]").unwrap();
    assert!(digit.match_message(&message("/0")));
    assert!(digit.match_message(&message("/9")));
    assert!(!digit.match_message(&message("/a")));
    assert!(!digit.match_message(&message("/10")));
    let not_digit = Matcher::new("/[!0-9]").unwrap();
    assert!(not_digit.match_message(&message("/a")));
    assert!(!not_digit.match_message(&message("/5")));
    let bang = Matcher::new("/[!]").unwrap();
    assert!(bang.match_message(&message("/!")));
    assert!(!bang.match_message(&message("/a")));
    let set = Matcher::new("/[abc]x").unwrap();
    assert!(set.match_message(&message("/bx")));
    assert!(!set.match_message(&message("/dx")));
}

#[test]
fn another_number_of_parts_never_matches() {
    let matcher = Matcher::new("/*/*").unwrap();
    assert!(matcher.match_message(&message("/a/b")));
    assert!(!matcher.match_message(&message("/a")));
    assert!(!matcher.match_message(&message("/a/b/c")));
    let one = Matcher::new("/*").unwrap();
    assert!(!one.match_message(&message("/a/b")));
}

#[test]
fn doc_example_of_the_oscillator() {
    let matcher = Matcher::new("/oscillator/[0-9]/{frequency,phase}").unwrap();
    assert!(matcher.match_message(&message("/oscillator/1/frequency")));
    assert!(matcher.match_message(&message("/oscillator/8/phase")));
    assert_eq!(matcher.match_message(&message("/oscillator/4/detune")), false);
    Matcher::new("/tempo").expect("valid address");
    Matcher::new("").expect_err("address does not start with a slash");
}

#[test]
fn compiling_twice_decides_alike() {
    let pattern = "/oscillator/[0-9]/*/pre[!1234?*]post/{frequency,phase}/x?";
    let first = Matcher::new(pattern).unwrap();
    let second = Matcher::new(pattern).unwrap();
    let addresses = [
        "/oscillator/1/something/preXpost/phase/xy",
        "/oscillator/1/something/pre1post/phase/xy",
        "/oscillator/1/something/preXpost/frequency/xz",
        "/oscillator/x/something/preXpost/phase/xy",
        "/oscillator/1",
        "/a/b/c/d/e/f",
    ];
    for address in addresses {
        assert_eq!(first.match_address(address), second.match_address(address));
    }
    assert_eq!(first.segments().len(), second.segments().len());
    for i in 0..first.segments().len() {
        assert_eq!(first.segments()[i].rules(), second.segments()[i].rules());
    }
    assert_eq!(Matcher::new("/[z-a]").unwrap_err(), Matcher::new("/[z-a]").unwrap_err());
    assert_eq!(Matcher::new("//").unwrap_err(), Matcher::new("//").unwrap_err());
}

#[test]
fn match_address_tells_bad_addresses_from_mismatches() {
    let matcher = Matcher::new("/a/*").unwrap();
    assert_eq!(matcher.match_address("/a/b"), Ok(true));
    assert_eq!(matcher.match_address("/b/b"), Ok(false));
    assert_eq!(matcher.match_address("/a"), Ok(false));
    let bad = [
        "", "a", "a/b", "/", "/a/", "//a", "/a//b", "/a b", "/a\tb", "/a\rb", "/a\nb", "/a#", "/a*",
        "/a,b", "/a?", "/[a]", "/a]", "/{a}", "/a}",
    ];
    for address in bad {
        match matcher.match_address(address) {
            Err(OscError::BadAddress(msg)) => assert_eq!(msg, "bad address"),
            other => panic!("{:?} gave {:?}", address, other),
        }
    }
    assert_eq!(
        matcher.match_address("").unwrap_err().to_string(),
        "bad OSC address: bad address"
    );
}

#[test]
fn error_lines() {
    assert_eq!(
        OscError::BadAddressPattern("m".to_string()).to_string(),
        "bad OSC address pattern: m"
    );
    assert_eq!(OscError::BadAddress("m".to_string()).to_string(), "bad OSC address: m");
    assert_eq!(
        OscError::RegexError("m".to_string()).to_string(),
        "OSC address pattern regex error: m"
    );
}

#[test]
fn match_parts_takes_the_parts_as_they_are() {
    let matcher = Matcher::new("/a/[0-9]").unwrap();
    assert!(matcher.match_parts(&vec!["a".to_string(), "5".to_string()]));
    assert!(!matcher.match_parts(&vec!["a".to_string(), "x".to_string()]));
    assert!(!matcher.match_parts(&vec!["a".to_string()]));
    assert!(!matcher.match_parts(&vec![]));
}
