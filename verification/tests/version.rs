use java_runtimes::error::ErrorKind;
use java_runtimes::JavaRuntime;

#[test]
fn test_extract_version() {
    assert_eq!(
        JavaRuntime::extract_version("17.0.4.1").unwrap(),
        "17.0.4.1"
    );
    assert_eq!(
        JavaRuntime::extract_version("\"17.0.4.1\"").unwrap(),
        "17.0.4.1"
    );
    assert_eq!(
        JavaRuntime::extract_version("1.8.0_333").unwrap(),
        "1.8.0_333"
    );
    assert_eq!(
        JavaRuntime::extract_version("\"1.8.0_333\"").unwrap(),
        "1.8.0_333"
    );

    let output: String = String::from(
        r#"java version "1.8.0_333"
Java(TM) SE Runtime Environment (build 1.8.0_333-b02)
Java HotSpot(TM) 64-Bit Server VM (build 25.333-b02, mixed mode)"#,
    );
    assert_eq!(JavaRuntime::extract_version(&output).unwrap(), "1.8.0_333");

    let output: String = String::from(
        r#"java version "17.0.4.1"
Java(TM) SE Runtime Environment (build 1.8.0_333-b02)
Java HotSpot(TM) 64-Bit Server VM (build 25.333-b02, mixed mode)"#,
    );
    assert_eq!(JavaRuntime::extract_version(&output).unwrap(), "17.0.4.1");
}

#[test]
fn extracts_a_token_from_a_sentence() {
    let text = "java version \"17.0.4.1\" 2022-08-18 LTS";
    assert_eq!(JavaRuntime::extract_version(text).unwrap(), "17.0.4.1");
    let text = "openjdk version \"21.0.3\" 2024-04-16\nOpenJDK Runtime Environment";
    assert_eq!(JavaRuntime::extract_version(text).unwrap(), "21.0.3");
}

#[test]
fn extracts_a_token_on_a_later_line() {
    let text = "Picked up JAVA_TOOL_OPTIONS: -Xmx1g\njava version \"11.0.2\"\n";
    assert_eq!(JavaRuntime::extract_version(text).unwrap(), "11.0.2");
}

#[test]
fn extracts_a_token_that_only_opens_with_a_quote() {
    assert_eq!(
        JavaRuntime::extract_version("\"17.0.4.1").unwrap(),
        "17.0.4.1"
    );
    assert_eq!(
        JavaRuntime::extract_version("java version \"17.0.4.1").unwrap(),
        "17.0.4.1"
    );
}

#[test]
fn extracts_a_token_that_only_closes_with_a_quote() {
    assert_eq!(
        JavaRuntime::extract_version("17.0.4.1\" and more").unwrap(),
        "17.0.4.1"
    );
}

#[test]
fn extracts_the_first_of_two_quoted_tokens() {
    assert_eq!(
        JavaRuntime::extract_version("\"1.2\" and \"3.4\"").unwrap(),
        "1.2"
    );
    assert_eq!(
        JavaRuntime::extract_version("1.2\"3.4\"").unwrap(),
        "1.2"
    );
}

#[test]
fn skips_quoted_text_that_is_no_token() {
    assert_eq!(
        JavaRuntime::extract_version("say \"hi\" then \"9.0.1\"").unwrap(),
        "9.0.1"
    );
    assert_eq!(
        JavaRuntime::extract_version("\"17\" \"17.\" \"17.0\"").unwrap(),
        "17.0"
    );
}

#[test]
fn accepts_the_shortest_token() {
    assert_eq!(JavaRuntime::extract_version("1.8").unwrap(), "1.8");
    assert_eq!(JavaRuntime::extract_version("0.0").unwrap(), "0.0");
}

#[test]
fn accepts_digits_underscores_and_periods_after_the_minor() {
    assert_eq!(JavaRuntime::extract_version("1.8_").unwrap(), "1.8_");
    assert_eq!(JavaRuntime::extract_version("1.8.").unwrap(), "1.8.");
    assert_eq!(JavaRuntime::extract_version("1.8..0__1").unwrap(), "1.8..0__1");
    assert_eq!(
        JavaRuntime::extract_version("123.456.789_0").unwrap(),
        "123.456.789_0"
    );
}

#[test]
fn extracting_twice_changes_nothing() {
    let texts = [
        "java version \"17.0.4.1\" 2022-08-18 LTS",
        "1.8.0_333",
        "\"21.0.3\"",
    ];
    for text in texts {
        let once = JavaRuntime::extract_version(text).unwrap();
        let twice = JavaRuntime::extract_version(&once).unwrap();
        assert_eq!(once, twice);
    }
}

fn is_no_version(text: &str) -> bool {
    match JavaRuntime::extract_version(text) {
        Ok(_) => false,
        Err(e) => matches!(e.kind, ErrorKind::NoJavaVersionStringFound),
    }
}

#[test]
fn rejects_text_without_a_digit_period_digit() {
    assert!(is_no_version(""));
    assert!(is_no_version("no version here"));
    assert!(is_no_version("\"\""));
    assert!(is_no_version("17"));
    assert!(is_no_version("\"17\""));
    assert!(is_no_version("17."));
    assert!(is_no_version(".5"));
    assert!(is_no_version("a.b"));
    assert!(is_no_version("1,8"));
}

#[test]
fn rejects_a_single_number() {
    assert!(is_no_version("21"));
    assert!(is_no_version("java version \"21\" 2023-09-19 LTS"));
}

#[test]
fn rejects_a_token_that_no_quote_encloses() {
    assert!(is_no_version("version 1.8.0"));
    assert!(is_no_version("1.8.0 is installed"));
    assert!(is_no_version(" 1.8.0"));
    assert!(is_no_version("1.8.0\n"));
    assert!(is_no_version("(build 1.8.0_333-b02)"));
}

#[test]
fn rejects_other_characters_in_a_token() {
    assert!(is_no_version("\"1.8-b02\""));
    assert!(is_no_version("\"1.8.0+1\""));
    assert!(is_no_version("\"1.x\""));
    assert!(is_no_version("\"v1.8\""));
    assert!(is_no_version("\"_1.8\""));
    assert!(is_no_version("\"1_0.8\""));
}

#[test]
fn rejects_digits_that_are_not_ascii() {
    assert!(is_no_version("\u{0661}\u{0667}.\u{0660}"));
    assert!(is_no_version("\"\u{ff11}.\u{ff18}\""));
}

#[test]
fn keeps_text_around_a_token_out_of_the_version() {
    let text = "\u{00e9}t\u{00e9} \"17.0.4.1\" \u{65e5}\u{672c}";
    assert_eq!(JavaRuntime::extract_version(text).unwrap(), "17.0.4.1");
}
