use onnx_tts_server::utils::{is_space_char, is_terminator_char, split_sentences};

#[test]
fn empty_text_has_no_utterances() {
    assert!(split_sentences("").is_empty());
}

#[test]
fn punctuation_only_has_no_utterances() {
    assert!(split_sentences("...").is_empty());
    assert!(split_sentences("?!.").is_empty());
}

#[test]
fn blank_text_has_no_utterances() {
    assert!(split_sentences("   ").is_empty());
    assert!(split_sentences(" \t\n . ! ").is_empty());
}

#[test]
fn terminators_become_full_stops() {
    assert_eq!(
        split_sentences("Hello world. How are you?"),
        vec!["Hello world.".to_string(), "How are you.".to_string()]
    );
}

#[test]
fn exclamation_and_trailing_text() {
    assert_eq!(
        split_sentences("Stop! Wait ?and then"),
        vec!["Stop.".to_string(), "Wait.".to_string(), "and then.".to_string()]
    );
}

#[test]
fn inner_whitespace_is_kept() {
    assert_eq!(split_sentences("  a  b  "), vec!["a  b.".to_string()]);
}

#[test]
fn unicode_whitespace_is_trimmed() {
    assert_eq!(split_sentences("\u{3000}Hi\u{a0}!"), vec!["Hi.".to_string()]);
    assert_eq!(split_sentences("\u{2003}x\u{2028}"), vec!["x.".to_string()]);
}

#[test]
fn non_latin_text() {
    assert_eq!(
        split_sentences("こんにちは。 Ça va? Да!"),
        vec!["こんにちは。 Ça va.".to_string(), "Да.".to_string()]
    );
}

#[test]
fn utterances_keep_the_order_of_the_text() {
    let a = "one. two";
    let b = "three! four";
    let joined = format!("{}?{}", a, b);
    let mut expected = split_sentences(a);
    expected.extend(split_sentences(b));
    assert_eq!(split_sentences(&joined), expected);
}

#[test]
fn every_utterance_has_one_full_stop() {
    for text in ["a.b!c?d", "  x  .  y  ", "...a...b...", "no terminator"] {
        for u in split_sentences(text) {
            assert!(u.ends_with('.'));
            let body = &u[..u.len() - 1];
            assert!(!body.is_empty());
            assert_eq!(body.trim(), body);
            assert!(!body.contains(['.', '!', '?']));
        }
    }
}

#[test]
fn character_classes() {
    assert!(is_terminator_char('.'));
    assert!(is_terminator_char('!'));
    assert!(is_terminator_char('?'));
    assert!(!is_terminator_char(','));
    for c in [' ', '\t', '\n', '\r', '\u{b}', '\u{c}', '\u{85}', '\u{a0}', '\u{1680}', '\u{2000}',
        '\u{200a}', '\u{2028}', '\u{2029}', '\u{202f}', '\u{205f}', '\u{3000}'] {
        assert!(is_space_char(c));
        assert!(c.is_whitespace());
    }
    for c in ['a', '.', '\u{200b}', '\u{feff}', '\u{180e}'] {
        assert!(!is_space_char(c));
        assert_eq!(c.is_whitespace(), is_space_char(c));
    }
}

#[test]
fn space_class_matches_std_for_every_char() {
    for v in 0..=0x10ffffu32 {
        if let Some(c) = char::from_u32(v) {
            assert_eq!(is_space_char(c), c.is_whitespace(), "{:#x}", v);
        }
    }
}

#[test]
fn trimming_matches_std() {
    for text in ["\u{3000} a \u{85}. \u{2029}b\u{a0}!\t c \n?", " x ", "\u{200b}y\u{200b}."] {
        let expected: Vec<String> = text
            .split(['.', '!', '?'])
            .filter(|s| !s.trim().is_empty())
            .map(|s| s.trim().to_string() + ".")
            .collect();
        assert_eq!(split_sentences(text), expected);
    }
}
