use hammond::text::{
    chars_of, decimal_of, parse_i32, replace_extra_spaces, split_chars, trim_str,
    url_cleaner,
};

fn chars(s: &str) -> Vec<char> {
    s.chars().collect()
}

#[test]
fn trim_removes_unicode_whitespace_at_both_ends() {
    assert_eq!(trim_str("  \t hello world \n"), "hello world");
    assert_eq!(trim_str("\u{3000}\u{a0}x\u{2009}"), "x");
    assert_eq!(trim_str("   "), "");
    assert_eq!(trim_str(""), "");
    for s in ["  a b  ", "\u{85}z\u{2028}", "plain", " \u{1680} "] {
        assert_eq!(trim_str(s), s.trim());
    }
}

#[test]
fn trim_twice_is_trim_once() {
    for s in ["  a  ", "\t\nb c\r\n", "", "x"] {
        let once = trim_str(s);
        assert_eq!(trim_str(&once), once);
    }
}

#[test]
fn replace_extra_spaces_collapses_runs() {
    assert_eq!(replace_extra_spaces("1   2   3        4  5"), "1 2 3 4 5");
    assert_eq!(replace_extra_spaces("  a\t b  \n  c  "), "a b\nc");
    assert_eq!(replace_extra_spaces("line one\n\n\nline two"), "line one\nline two");
    assert_eq!(replace_extra_spaces("tabs\tare\tdropped"), "tabsaredropped");
    assert_eq!(replace_extra_spaces("   "), "");
    assert_eq!(replace_extra_spaces("</p>\n<p>Plus"), "</p>\n<p>Plus");
}

#[test]
fn replace_extra_spaces_is_idempotent() {
    for s in ["  a \t b \n\n c ", "x  y", "\n \n", "one"] {
        let once = replace_extra_spaces(s);
        assert_eq!(replace_extra_spaces(&once), once);
    }
}

#[test]
fn url_cleaner_drops_query_and_fragment() {
    assert_eq!(
        url_cleaner("http://traffic.megaphone.fm/PPY6458293736.mp3?updated=1505258264"),
        "http://traffic.megaphone.fm/PPY6458293736.mp3"
    );
    assert_eq!(url_cleaner("https://a.org/x#frag?not-a-query"), "https://a.org/x");
    assert_eq!(
        url_cleaner("http://www.jupiterbroadcasting.com/"),
        "http://www.jupiterbroadcasting.com/"
    );
    let once = url_cleaner("http://e.com/a?b#c");
    assert_eq!(url_cleaner(&once), once);
}

#[test]
fn parse_i32_agrees_with_std() {
    for s in [
        "42", "-42", "+7", "", "-", "+", "2147483647", "2147483648", "-2147483648",
        "-2147483649", "00012", "1a", " 1", "99999999999999999999", "+-3", "0",
    ] {
        assert_eq!(parse_i32(&chars(s)), s.parse::<i32>().ok(), "input {:?}", s);
    }
}

#[test]
fn decimal_round_trips_through_parse() {
    for n in [0i64, 7, -7, 60, 2147483647, -2147483648, 1000000] {
        let text = decimal_of(n);
        assert_eq!(text, chars(&n.to_string()));
        assert_eq!(parse_i32(&text), Some(n as i32));
    }
    assert_eq!(decimal_of(i64::MIN), chars(&i64::MIN.to_string()));
}

#[test]
fn split_chars_matches_str_split() {
    for s in ["01:02:03", "5:30", "", ":", "a::b:", "nocolon"] {
        let parts: Vec<String> = split_chars(&chars(s), ':').iter().map(|p| p.iter().collect()).collect();
        let expected: Vec<String> = s.split(':').map(String::from).collect();
        assert_eq!(parts, expected);
    }
}

#[test]
fn chars_and_string_round_trip() {
    let s = "Blackwater’s — ñ";
    assert_eq!(chars_of(s), s.chars().collect::<Vec<char>>());
    assert_eq!(trim_str(s), s);
}
