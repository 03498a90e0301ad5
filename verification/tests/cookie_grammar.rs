use peroxide::cookies::{find_cookie, header_ok};

#[test]
fn header_ok_accepts_visible_ascii() {
    assert!(header_ok(b""));
    assert!(header_ok(b"a=b; jwt-token=abc"));
    assert!(!header_ok(b"a=b\x07"));
    assert!(!header_ok(b"caf\xc3\xa9=x"));
    assert!(!header_ok(b"a=b\r\n"));
}

#[test]
fn finds_the_named_cookie() {
    assert_eq!(
        find_cookie(b"jwt-token=abc", b"jwt-token"),
        Some(b"abc".to_vec())
    );
    assert_eq!(
        find_cookie(b"theme=dark; jwt-token=abc; lang=en", b"jwt-token"),
        Some(b"abc".to_vec())
    );
    assert_eq!(
        find_cookie(b"  jwt-token=abc  ", b"jwt-token"),
        Some(b"abc".to_vec())
    );
}

#[test]
fn value_is_everything_after_the_first_equals() {
    assert_eq!(
        find_cookie(b"jwt-token=a=b=c", b"jwt-token"),
        Some(b"a=b=c".to_vec())
    );
    assert_eq!(find_cookie(b"jwt-token=", b"jwt-token"), Some(b"".to_vec()));
}

#[test]
fn absent_or_mismatched_names_find_nothing() {
    assert_eq!(find_cookie(b"", b"jwt-token"), None);
    assert_eq!(find_cookie(b"theme=dark; lang=en", b"jwt-token"), None);
    assert_eq!(find_cookie(b"jwt-token2=abc", b"jwt-token"), None);
    assert_eq!(find_cookie(b"jwt-tokenabc", b"jwt-token"), None);
    assert_eq!(find_cookie(b"; ; ;", b"jwt-token"), None);
}

#[test]
fn first_match_wins() {
    assert_eq!(
        find_cookie(b"jwt-token=first; jwt-token=second", b"jwt-token"),
        Some(b"first".to_vec())
    );
}
