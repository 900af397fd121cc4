use shadow_os::text_wrap::{split_lines, wrap_text};

fn oracle(text: &str, max_chars: usize) -> Vec<String> {
    let mut lines = Vec::new();
    for paragraph in text.lines() {
        let mut current = String::new();
        for word in paragraph.split_whitespace() {
            let candidate_len = if current.is_empty() {
                word.chars().count()
            } else {
                current.chars().count() + 1 + word.chars().count()
            };
            if candidate_len > max_chars && !current.is_empty() {
                lines.push(current);
                current = word.to_string();
            } else {
                if !current.is_empty() {
                    current.push(' ');
                }
                current.push_str(word);
            }
        }
        lines.push(current);
    }
    lines
}

#[test]
fn lines_follow_line_feeds_and_drop_carriage_returns() {
    assert!(split_lines("").is_empty());
    assert_eq!(split_lines("a\r\nb\n"), vec!["a", "b"]);
    assert_eq!(split_lines("a\n\nb"), vec!["a", "", "b"]);
    assert_eq!(split_lines("\n"), vec![""]);
    assert_eq!(split_lines("x\ry"), vec!["x\ry"]);
}

#[test]
fn words_fill_lines_greedily() {
    assert!(wrap_text("", 10).is_empty());
    assert_eq!(wrap_text("hello world", 20), vec!["hello world"]);
    assert_eq!(wrap_text("hello world", 5), vec!["hello", "world"]);
    assert_eq!(wrap_text("a\n\nb c", 1), vec!["a", "", "b", "c"]);
    assert_eq!(wrap_text("supercalifragilistic x", 5), vec!["supercalifragilistic", "x"]);
    assert_eq!(wrap_text("  spaced   out  ", 20), vec!["spaced out"]);
    assert_eq!(wrap_text("   \n", 4), vec![""]);
}

#[test]
fn wrapping_agrees_with_the_line_filling_rule() {
    let samples = [
        "Launch an app when you want one. The shell stays resident here.",
        "Mouse, arrows, Tab, Enter. Home returns from the foreground app.",
        "one\ntwo three four\r\n\nfive  six\tseven",
        "Warm apps: Timeline  \u{2022}  Counter",
    ];
    for text in samples {
        for max in [1usize, 4, 9, 16, 40, 200] {
            assert_eq!(wrap_text(text, max), oracle(text, max), "{text:?} at {max}");
        }
    }
}

#[test]
fn wrapped_lines_fit_unless_a_word_is_longer() {
    let text = "Shelving keeps the live draft warm. Full restart reloads cached notes.";
    for max in [3usize, 8, 12] {
        for line in wrap_text(text, max) {
            assert!(line.chars().count() <= max || text.split_whitespace().any(|w| w == line), "{line:?}");
        }
    }
}

#[test]
fn wrapping_keeps_every_word_in_order() {
    let text = "Tab or arrows move focus.\r\nSpace toggles.\n\n  Release to increment";
    for max in [1usize, 6, 30] {
        let wrapped = wrap_text(text, max);
        let words: Vec<&str> = wrapped.iter().flat_map(|line| line.split_whitespace()).collect();
        assert_eq!(words, text.split_whitespace().collect::<Vec<_>>());
    }
}
