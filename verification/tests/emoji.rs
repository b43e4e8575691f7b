use std::str::FromStr;

use quwue::emoji::Emoji;

#[test]
fn from_str() {
    assert_eq!(Emoji::from_str("thumbsup"), Ok(Emoji::ThumbsUp));
}

#[test]
fn from_str_unknown() {
    assert!(Emoji::from_str("shrug").is_err());
}

#[test]
fn name() {
    assert_eq!(Emoji::ThumbsUp.name(), "thumbsup");
}

#[test]
fn unicode() {
    assert_eq!(Emoji::ThumbsUp.char(), '👍');
}

#[test]
fn markup() {
    assert_eq!(Emoji::ThumbsUp.markup(), ":thumbsup:");
}

#[test]
fn from_chars() {
    assert_eq!(Emoji::from_chars("👍"), Some(Emoji::ThumbsUp));
    assert_eq!(Emoji::from_chars("👎"), Some(Emoji::ThumbsDown));
    assert_eq!(Emoji::from_chars("🦀"), None);
    assert_eq!(Emoji::from_chars(""), None);
    assert_eq!(Emoji::from_chars("👍👍"), None);
}
