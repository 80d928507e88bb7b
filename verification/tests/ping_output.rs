use ping_pong_latency::ping_output::{interpret_ping_output, latency_text, ping_args, PingOutcome};
use ping_pong_latency::text::first_non_empty;

/// The round-trip time in milliseconds, read the way the application reads it.
fn parse_latency_ms(output: &str) -> Option<f64> {
    latency_text(output).and_then(|value| value.parse::<f64>().ok())
}

#[test]
fn parses_windows_latency() {
    let output = "Reply from 1.1.1.1: bytes=32 time=11ms TTL=58";
    assert_eq!(parse_latency_ms(output), Some(11.0));
}

#[test]
fn parses_sub_millisecond_windows_latency() {
    let output = "Reply from 192.168.1.1: bytes=32 time<1ms TTL=64";
    assert_eq!(parse_latency_ms(output), Some(1.0));
}

#[test]
fn parses_unix_latency() {
    let output = "64 bytes from 1.1.1.1: icmp_seq=0 ttl=57 time=8.432 ms";
    assert_eq!(parse_latency_ms(output), Some(8.432));
}

#[test]
fn latency_text_is_the_number_as_written() {
    assert_eq!(latency_text("time=8.432 ms").as_deref(), Some("8.432"));
    assert_eq!(latency_text("time= \t 12 ms").as_deref(), Some("12"));
    assert_eq!(latency_text("time<1ms").as_deref(), Some("1"));
}

#[test]
fn latency_text_takes_the_leftmost_match() {
    let output = "time=x time=3ms time=4ms";
    assert_eq!(latency_text(output).as_deref(), Some("3"));
}

#[test]
fn latency_text_rejects_near_misses() {
    assert_eq!(latency_text(""), None);
    assert_eq!(latency_text("time 5ms"), None);
    assert_eq!(latency_text("time=ms"), None);
    assert_eq!(latency_text("time=5.ms"), None);
    assert_eq!(latency_text("time=5 s"), None);
    assert_eq!(latency_text("Time=5ms"), None);
    assert_eq!(latency_text("Request timed out."), None);
}

#[test]
fn latency_text_drops_a_dot_without_digits_only_when_ms_follows_directly() {
    // `time=5.` followed by something else than digits cannot match at all.
    assert_eq!(latency_text("time=5.x ms"), None);
    // A fraction is part of the number when digits follow the dot.
    assert_eq!(latency_text("time=5.25ms").as_deref(), Some("5.25"));
}

#[test]
fn latency_text_accepts_unicode_digits_and_spaces() {
    // `\d` and `\s` are Unicode classes: Arabic-Indic digits and a
    // no-break space are matched too.
    assert_eq!(latency_text("time=\u{a0}\u{663}ms").as_deref(), Some("\u{663}"));
    // Such a number does not parse as a float.
    assert_eq!(parse_latency_ms("time=\u{663}ms"), None);
}

#[test]
fn latency_text_agrees_with_the_regular_expression() {
    let re = regex::Regex::new(r"time[=<]\s*(\d+(?:\.\d+)?)\s*ms").unwrap();
    let samples = [
        "Reply from 1.1.1.1: bytes=32 time=11ms TTL=58",
        "Reply from 192.168.1.1: bytes=32 time<1ms TTL=64",
        "64 bytes from 1.1.1.1: icmp_seq=0 ttl=57 time=8.432 ms",
        "time=1.2.3ms",
        "time=1.2.3 ms time=4ms",
        "time==5ms time<6ms",
        "timetime=7ms",
        "time=\u{2003}9\u{2003}ms",
        "time=\u{ff11}\u{ff12}ms",
        "time=12 .5ms time=3 ms",
        "time=12.5.ms",
        "no latency here",
        "time=",
        "time=5m",
        "time=\n5\nms",
        "tim=5ms time=6msx",
    ];
    for sample in samples {
        let expected = re
            .captures(sample)
            .and_then(|caps| caps.get(1))
            .map(|m| m.as_str().to_string());
        assert_eq!(latency_text(sample), expected, "sample {:?}", sample);
    }
}

#[test]
fn first_non_empty_returns_the_first_line_with_text() {
    assert_eq!(
        first_non_empty("\n  \r\n  hello world \r\nnext").as_deref(),
        Some("hello world")
    );
    assert_eq!(first_non_empty("one\ntwo").as_deref(), Some("one"));
    assert_eq!(first_non_empty("  a\tb  ").as_deref(), Some("a\tb"));
}

#[test]
fn first_non_empty_finds_nothing_in_blank_text() {
    assert_eq!(first_non_empty(""), None);
    assert_eq!(first_non_empty(" \n\t\r\n \u{3000}"), None);
}

#[test]
fn successful_ping_with_latency() {
    match interpret_ping_output(true, "time=8.432 ms", "") {
        PingOutcome::Latency(text) => assert_eq!(text, "8.432"),
        _ => panic!("expected a latency"),
    }
}

#[test]
fn successful_ping_without_latency() {
    assert!(matches!(
        interpret_ping_output(true, "all good", "warning"),
        PingOutcome::LatencyMissing
    ));
}

#[test]
fn failed_ping_prefers_the_error_output() {
    match interpret_ping_output(false, "stdout line", "\n ping: unknown host \n") {
        PingOutcome::Failed(message) => assert_eq!(message, "ping: unknown host"),
        _ => panic!("expected a failure"),
    }
}

#[test]
fn failed_ping_falls_back_to_standard_output() {
    match interpret_ping_output(false, "\nRequest timed out.\n", "  \n") {
        PingOutcome::Failed(message) => assert_eq!(message, "Request timed out."),
        _ => panic!("expected a failure"),
    }
}

#[test]
fn failed_ping_without_output_says_ping_failed() {
    match interpret_ping_output(false, "", "") {
        PingOutcome::Failed(message) => assert_eq!(message, "Ping failed"),
        _ => panic!("expected a failure"),
    }
}

#[test]
fn failed_ping_ignores_a_latency_in_its_output() {
    match interpret_ping_output(false, "time=5ms", "") {
        PingOutcome::Failed(message) => assert_eq!(message, "time=5ms"),
        _ => panic!("expected a failure"),
    }
}

#[test]
fn ping_arguments_send_one_request() {
    assert_eq!(ping_args(true, "example.com"), vec!["-n", "1", "-w", "1500", "example.com"]);
    assert_eq!(ping_args(false, "10.0.0.1"), vec!["-c", "1", "-W", "2", "10.0.0.1"]);
}
