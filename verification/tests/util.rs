use os3_bridge::clock::{now_ms, read_clock, to_signed, to_unsigned};
use os3_bridge::text::is_white_space;
use os3_bridge::util::{compact_whitespace, now_unix_millis, truncate_on_char_boundary};

#[test]
fn raises_a_mid_character_offset_to_the_next_boundary() {
    // 'a' is byte 0; 'é' occupies bytes 1..3, so byte 2 splits it.
    let mut text = "aébc".to_string();
    truncate_on_char_boundary(&mut text, 2);
    assert_eq!(text, "aé");
}

#[test]
fn keeps_an_exact_boundary_offset() {
    let mut text = "aébc".to_string();
    truncate_on_char_boundary(&mut text, 3);
    assert_eq!(text, "aé");
}

#[test]
fn leaves_a_string_shorter_than_the_limit_untouched() {
    let mut text = "hi 😀".to_string();
    let before = text.clone();
    truncate_on_char_boundary(&mut text, 100);
    assert_eq!(text, before);
}

#[test]
fn truncation_keeps_a_prefix_close_to_the_target() {
    let whole = "a😀é漢b";
    for target in 0..=whole.len() {
        let mut text = whole.to_string();
        truncate_on_char_boundary(&mut text, target);
        assert!(whole.starts_with(&text));
        assert!(text.len() >= target && text.len() < target + 4);
        let once = text.clone();
        truncate_on_char_boundary(&mut text, target);
        assert_eq!(text, once);
    }
}

#[test]
fn truncation_to_nothing_and_to_the_exact_length() {
    let mut text = "abc".to_string();
    truncate_on_char_boundary(&mut text, 0);
    assert_eq!(text, "");
    let mut text = "abc".to_string();
    truncate_on_char_boundary(&mut text, 3);
    assert_eq!(text, "abc");
}

#[test]
fn compacts_runs_of_white_space() {
    assert_eq!(compact_whitespace("  a \t b\n\nc  "), "a b c");
    assert_eq!(compact_whitespace("a\u{a0}\u{2003}b\u{3000}"), "a b");
    assert_eq!(compact_whitespace(""), "");
    assert_eq!(compact_whitespace(" \u{85}\n"), "");
    assert_eq!(compact_whitespace("word"), "word");
}

#[test]
fn compacting_agrees_with_the_standard_splitting() {
    for text in ["", " x ", "a  b", "\ta\rb\u{b}c\u{c}", "é  漢\u{2028}😀", "a\u{200b}b", "one two"] {
        let expected = text.split_whitespace().collect::<Vec<_>>().join(" ");
        let once = compact_whitespace(text);
        assert_eq!(once, expected);
        assert_eq!(compact_whitespace(&once), once);
    }
}

#[test]
fn white_space_is_that_of_the_standard_library() {
    for code in 0..=0x10ffffu32 {
        if let Some(c) = char::from_u32(code) {
            assert_eq!(is_white_space(c), c.is_whitespace());
        }
    }
}

#[test]
fn readings_wrap_to_64_bits() {
    assert_eq!(to_unsigned(None), 0);
    assert_eq!(to_unsigned(Some(1_700_000_000_000)), 1_700_000_000_000);
    assert_eq!(to_unsigned(Some((1u128 << 64) + 5)), 5);
    assert_eq!(to_signed(None), 0);
    assert_eq!(to_signed(Some(1_700_000_000_000)), 1_700_000_000_000);
    assert_eq!(to_signed(Some(1u128 << 63)), i64::MIN);
    assert_eq!(to_signed(Some((1u128 << 64) - 1)), -1);
}

#[test]
fn the_clock_moves_forward_from_the_epoch() {
    let reading = read_clock();
    assert!(matches!(reading, Some(ms) if ms > 1_600_000_000_000));
    let a = now_ms();
    let b = now_unix_millis();
    assert!(a > 1_600_000_000_000);
    assert!(b >= 0 && (b as u64) >= a && (b as u64) - a < 60_000);
}

#[test]
fn the_smaller_of_two_targets_decides() {
    let whole = "a😀é漢b";
    for larger in 0..=whole.len() + 1 {
        for smaller in 0..=larger {
            let mut twice = whole.to_string();
            truncate_on_char_boundary(&mut twice, larger);
            truncate_on_char_boundary(&mut twice, smaller);
            let mut once = whole.to_string();
            truncate_on_char_boundary(&mut once, smaller);
            assert_eq!(twice, once);
        }
    }
}
