use handlr_regex::{decide_ext_mime, mime_table, Error, MimeOrExtension, MimeType, UserPath};

#[test]
fn user_input() {
    assert_eq!(MimeOrExtension::from_str(".pdf").unwrap().0.essence(), "application/pdf");
    assert_eq!(MimeOrExtension::from_str("image/jpeg").unwrap().0.essence(), "image/jpeg");

    "image//jpg".parse::<MimeOrExtension>().unwrap_err();
    "image".parse::<MimeOrExtension>().unwrap_err();
}

#[test]
fn from_ext() {
    assert_eq!(".mp3".parse::<MimeOrExtension>().unwrap().0.essence(), "audio/mpeg");
    assert_eq!("audio/mpeg".parse::<MimeOrExtension>().unwrap().0.essence(), "audio/mpeg");
    ".".parse::<MimeOrExtension>().unwrap_err();
    "audio/".parse::<MimeOrExtension>().unwrap_err();
}

#[test]
fn wildcard_mime_is_accepted() {
    let m = MimeOrExtension::from_str("image/*").unwrap().0;
    assert_eq!(m.essence(), "image/*");
    assert!(m.is_wildcard());
}

#[test]
fn malformed_mime_is_invalid() {
    match MimeOrExtension::from_str("image") {
        Err(Error::InvalidMime(s)) => assert_eq!(s, "image"),
        other => panic!("unexpected {:?}", other),
    }
}

#[test]
fn unknown_extension_is_ambiguous() {
    match MimeOrExtension::from_str(".zzqqxx-no-such-ext") {
        Err(Error::Ambiguous(s)) => assert_eq!(s, ".zzqqxx-no-such-ext"),
        other => panic!("unexpected {:?}", other),
    }
}

#[test]
fn extension_guesses_decide() {
    let octet = MimeType::new("application", "octet-stream");
    let pdf = MimeType::new("application", "pdf");
    match decide_ext_mime(".", &vec![octet]) {
        Err(Error::Ambiguous(s)) => assert_eq!(s, "."),
        other => panic!("unexpected {:?}", other),
    }
    assert!(matches!(decide_ext_mime(".x", &vec![]), Err(Error::Ambiguous(_))));
    assert_eq!(decide_ext_mime(".pdf", &vec![pdf]).unwrap().essence(), "application/pdf");
    let two = vec![MimeType::new("application", "octet-stream"), MimeType::new("text", "plain")];
    assert_eq!(decide_ext_mime(".y", &two).unwrap().essence(), "application/octet-stream");
}

#[test]
fn empty_mime_table_succeeds() {
    assert!(mime_table(&vec![]).unwrap().is_empty());
}

#[test]
fn missing_file_fails_the_table_with_its_path() {
    let paths = vec![UserPath::from_str("https://a.b").unwrap(), UserPath::File("/nonexistent-dir/zz.zzqqxx".to_string())];
    match mime_table(&paths) {
        Err(Error::Ambiguous(s)) => assert_eq!(s, "/nonexistent-dir/zz.zzqqxx"),
        other => panic!("unexpected {:?}", other),
    }
}
