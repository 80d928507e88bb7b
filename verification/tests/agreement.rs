//! Checks the library against direct std and `regex` formulations of the
//! same rules, on many generated inputs.

use ping_pong_latency::ping_output::latency_text;
use ping_pong_latency::target::normalize_target;
use ping_pong_latency::text::{first_non_empty, trimmed};

struct Lcg(u64);

impl Lcg {
    fn next(&mut self) -> u64 {
        self.0 = self.0.wrapping_mul(6364136223846793005).wrapping_add(1442695040888963407);
        self.0 >> 33
    }

    fn text(&mut self, alphabet: &[char], max_len: u64) -> String {
        let len = self.next() % (max_len + 1);
        (0..len)
            .map(|_| alphabet[(self.next() % alphabet.len() as u64) as usize])
            .collect()
    }
}

fn plain_first_non_empty(value: &str) -> Option<String> {
    value
        .lines()
        .map(str::trim)
        .find(|line| !line.is_empty())
        .map(ToString::to_string)
}

fn plain_normalize_target(target: &str) -> Result<String, String> {
    let target = target.trim().to_lowercase();
    if target.is_empty() {
        return Err("Target is required".to_string());
    }
    if target.len() > 253 {
        return Err("Target is too long".to_string());
    }
    if target
        .chars()
        .all(|c| c.is_ascii_alphanumeric() || matches!(c, '.' | '-' | ':'))
    {
        Ok(target)
    } else {
        Err("Use a hostname, IPv4 address, or IPv6 address".to_string())
    }
}

#[test]
fn latency_text_agrees_with_regex_on_generated_output() {
    let re = regex::Regex::new(r"time[=<]\s*(\d+(?:\.\d+)?)\s*ms").unwrap();
    let alphabet = [
        't', 'i', 'm', 'e', '=', '<', ' ', '\t', '1', '7', '.', 'm', 's', 'x', '\u{a0}',
        '\u{663}', '\u{ff15}', '\n',
    ];
    let mut rng = Lcg(7);
    for _ in 0..20000 {
        let mut sample = rng.text(&alphabet, 8);
        sample.push_str(&["time=", "time<", "time= ", ""][(rng.next() % 4) as usize]);
        sample.push_str(&rng.text(&alphabet, 10));
        let expected = re
            .captures(&sample)
            .and_then(|caps| caps.get(1))
            .map(|m| m.as_str().to_string());
        assert_eq!(latency_text(&sample), expected, "sample {:?}", sample);
    }
}

#[test]
fn first_non_empty_agrees_with_lines_and_trim() {
    let alphabet = ['a', 'b', ' ', '\n', '\r', '\t', '\u{85}', '\u{2028}', '\u{3000}', 'é'];
    let mut rng = Lcg(11);
    for _ in 0..20000 {
        let sample = rng.text(&alphabet, 12);
        assert_eq!(first_non_empty(&sample), plain_first_non_empty(&sample), "sample {:?}", sample);
        assert_eq!(trimmed(&sample), sample.trim(), "sample {:?}", sample);
    }
}

#[test]
fn normalize_target_agrees_with_trim_and_to_lowercase() {
    let alphabet = [
        'a', 'Z', '0', '.', '-', ':', ' ', '_', 'É', '\u{212a}', 'Σ', '\u{130}', '\t', 'ß',
    ];
    let mut rng = Lcg(13);
    for _ in 0..20000 {
        let sample = rng.text(&alphabet, 10);
        assert_eq!(normalize_target(&sample), plain_normalize_target(&sample), "sample {:?}", sample);
    }
    let ascii = ['a', 'Z', '0', '.', '-', ':', ' ', '_', '\t', 'q', 'M'];
    for _ in 0..5000 {
        let sample = rng.text(&ascii, 12);
        assert_eq!(normalize_target(&sample.to_ascii_uppercase()), normalize_target(&sample));
        assert_eq!(normalize_target(&format!(" \n{}\t", sample)), normalize_target(&sample));
    }
    for n in [252usize, 253, 254] {
        for c in ['a', 'é', '\u{212a}'] {
            let sample: String = std::iter::repeat(c).take(n / c.len_utf8()).collect();
            assert_eq!(normalize_target(&sample), plain_normalize_target(&sample));
        }
    }
}
