use handlr_regex::{
    assets_dir, decide_file_mime, group_by_handler, mime_table, select_from_output, AssocStore, Error,
    Handler, MimeType, RegexRule, RegexTable, Resolution, Resolver, UserPath,
};

fn h(id: &str) -> Handler {
    Handler::new(id)
}

fn m(t: &str, s: &str) -> MimeType {
    MimeType::new(t, s)
}

fn resolver(user: AssocStore, system: AssocStore, rules: Vec<RegexRule>, sel: bool) -> Resolver {
    Resolver::new(user, system, RegexTable::new(rules), sel)
}

fn used(r: Result<Resolution, Error>) -> String {
    match r {
        Ok(Resolution::Use(x)) => x.name(),
        other => panic!("unexpected {:?}", other),
    }
}

#[test]
fn set_then_get_returns_exactly_the_handler() {
    let mut user = AssocStore::new();
    user.add_handler(m("text", "plain"), h("a.desktop"));
    user.add_handler(m("text", "plain"), h("b.desktop"));
    let mut r = resolver(user, AssocStore::new(), vec![], true);
    r.set_handler(m("text", "plain"), h("vim.desktop"));
    assert_eq!(used(r.get_handler(&m("text", "plain"))), "vim.desktop");
    assert_eq!(r.user.lookup(&m("text", "plain")).unwrap().len(), 1);
}

#[test]
fn add_twice_keeps_length() {
    let mut user = AssocStore::new();
    user.add_handler(m("image", "png"), h("feh.desktop"));
    user.add_handler(m("image", "png"), h("gimp.desktop"));
    assert_eq!(user.lookup(&m("image", "png")).unwrap().len(), 2);
    user.add_handler(m("image", "png"), h("gimp.desktop"));
    let list = user.lookup(&m("image", "png")).unwrap();
    assert_eq!(list.len(), 2);
    assert_eq!(list[0].name(), "feh.desktop");
    assert_eq!(list[1].name(), "gimp.desktop");
}

#[test]
fn remove_missing_is_not_found_and_unchanged() {
    let mut user = AssocStore::new();
    user.set_handler(m("image", "png"), h("feh.desktop"));
    match user.remove_handler(&m("image", "jpeg")) {
        Err(Error::NotFound(s)) => assert_eq!(s, "image/jpeg"),
        other => panic!("unexpected {:?}", other),
    }
    assert_eq!(user.entry_count(), 1);
    assert_eq!(user.lookup(&m("image", "png")).unwrap()[0].name(), "feh.desktop");
}

#[test]
fn remove_deletes_whole_entry() {
    let mut user = AssocStore::new();
    user.add_handler(m("image", "png"), h("feh.desktop"));
    user.add_handler(m("image", "png"), h("gimp.desktop"));
    user.set_handler(m("text", "plain"), h("vim.desktop"));
    assert!(user.remove_handler(&m("image", "png")).is_ok());
    assert!(user.lookup(&m("image", "png")).is_none());
    assert_eq!(user.entry_count(), 1);
}

#[test]
fn tiers_short_circuit_in_order() {
    let mut user = AssocStore::new();
    user.set_handler(m("image", "png"), h("user-exact"));
    user.set_handler(m("image", "*"), h("user-wild"));
    let mut system = AssocStore::new();
    system.set_handler(m("image", "png"), h("sys-exact"));
    system.set_handler(m("image", "*"), h("sys-wild"));
    let mut r = resolver(user, system, vec![], false);
    assert_eq!(used(r.get_handler(&m("image", "png"))), "user-exact");
    r.remove_handler(&m("image", "png")).unwrap();
    assert_eq!(used(r.get_handler(&m("image", "png"))), "user-wild");
    r.remove_handler(&m("image", "*")).unwrap();
    assert_eq!(used(r.get_handler(&m("image", "png"))), "sys-exact");
    assert_eq!(used(r.get_handler(&m("image", "gif"))), "sys-wild");
    match r.get_handler(&m("video", "mp4")) {
        Err(Error::NotFound(s)) => assert_eq!(s, "video/mp4"),
        other => panic!("unexpected {:?}", other),
    }
}

#[test]
fn several_candidates_go_to_the_selector_when_enabled() {
    let mut user = AssocStore::new();
    user.add_handler(m("text", "html"), h("firefox.desktop"));
    user.add_handler(m("text", "html"), h("chromium.desktop"));
    let on = resolver(user, AssocStore::new(), vec![], true);
    match on.get_handler(&m("text", "html")) {
        Ok(Resolution::Select(c)) => {
            assert_eq!(c.len(), 2);
            assert_eq!(c[0].name(), "firefox.desktop");
            assert_eq!(select_from_output(&c, Some("chromium.desktop")).unwrap().name(), "chromium.desktop");
            assert!(matches!(select_from_output(&c, Some("")), Err(Error::Cancelled)));
            assert!(matches!(select_from_output(&c, None), Err(Error::Cancelled)));
        },
        other => panic!("unexpected {:?}", other),
    }
    let mut user = AssocStore::new();
    user.add_handler(m("text", "html"), h("firefox.desktop"));
    user.add_handler(m("text", "html"), h("chromium.desktop"));
    let off = resolver(user, AssocStore::new(), vec![], false);
    assert_eq!(used(off.get_handler(&m("text", "html"))), "firefox.desktop");
}

#[test]
fn first_regex_rule_wins() {
    let rules = vec![RegexRule::new(r".*\.iso$", h("H1")), RegexRule::new(r".*backup.*", h("H2"))];
    let r = resolver(AssocStore::new(), AssocStore::new(), rules, false);
    assert_eq!(used(r.resolve_resource("my-backup.iso", Err(Error::Ambiguous("my-backup.iso".to_string())))), "H1");
    assert_eq!(used(r.resolve_resource("old-backup.tar", Ok(m("application", "x-tar")))), "H2");
    assert_eq!(r.regex.get_handler("notes.txt").map(|x| x.name()), None);
}

#[test]
fn regex_miss_falls_back_to_mimetype() {
    let mut user = AssocStore::new();
    user.set_handler(m("application", "pdf"), h("zathura.desktop"));
    let rules = vec![RegexRule::new(r"^https://", h("browser"))];
    let r = resolver(user, AssocStore::new(), rules, false);
    assert_eq!(used(r.resolve_resource("a.pdf", Ok(m("application", "pdf")))), "zathura.desktop");
    assert!(matches!(
        r.resolve_resource("a.zzz", Err(Error::Ambiguous("a.zzz".to_string()))),
        Err(Error::Ambiguous(_))
    ));
}

#[test]
fn invalid_regex_never_matches() {
    let rules = vec![RegexRule::new("(unclosed", h("bad")), RegexRule::new("unclosed", h("good"))];
    let t = RegexTable::new(rules);
    assert_eq!(t.get_handler("(unclosed").unwrap().name(), "good");
}

#[test]
fn dispatcher_groups_by_handler() {
    let pairs = vec![
        (h("Hpdf"), "a.pdf".to_string()),
        (h("Hpdf"), "b.pdf".to_string()),
        (h("Hjpg"), "c.jpg".to_string()),
    ];
    let groups = group_by_handler(&pairs);
    assert_eq!(groups.len(), 2);
    let pdf: Vec<_> = groups.iter().filter(|g| g.0.name() == "Hpdf").collect();
    let jpg: Vec<_> = groups.iter().filter(|g| g.0.name() == "Hjpg").collect();
    assert_eq!(pdf.len(), 1);
    assert_eq!(pdf[0].1, vec!["a.pdf".to_string(), "b.pdf".to_string()]);
    assert_eq!(jpg.len(), 1);
    assert_eq!(jpg[0].1, vec!["c.jpg".to_string()]);
}

#[test]
fn dispatcher_on_nothing() {
    assert!(group_by_handler(&vec![]).is_empty());
}

#[test]
fn url_classifies_by_scheme() {
    let p = UserPath::from_str("https://example.com").unwrap();
    assert!(matches!(p, UserPath::Url { .. }));
    assert_eq!(p.get_mime().unwrap().essence(), "x-scheme-handler/https");
    assert_eq!(p.to_string(), "https://example.com/");
    let rows = mime_table(&vec![p, UserPath::from_str("mailto:a@b.c").unwrap()]).unwrap();
    assert_eq!(rows[0].1, "x-scheme-handler/https");
    assert_eq!(rows[1].1, "x-scheme-handler/mailto");
}

#[test]
fn file_urls_and_plain_paths() {
    assert!(matches!(UserPath::from_str("file:///tmp/a.txt").unwrap(), UserPath::File(p) if p == "/tmp/a.txt"));
    assert!(matches!(UserPath::from_str("./notes.md").unwrap(), UserPath::File(p) if p == "./notes.md"));
    match UserPath::from_str("file://remote-host/x/y") {
        Err(Error::BadPath(s)) => assert_eq!(s, "/x/y"),
        other => panic!("unexpected {:?}", other),
    }
}

#[test]
fn directory_is_classified() {
    assert_eq!(UserPath::from_str(".").unwrap().get_mime().unwrap().essence(), "inode/directory");
}

#[test]
fn unconfident_guesses_are_ambiguous() {
    let octet = || Some(m("application", "octet-stream"));
    let zero = || Some(m("application", "x-zerosize"));
    assert!(matches!(decide_file_mime("f.zzz", octet(), zero()), Err(Error::Ambiguous(s)) if s == "f.zzz"));
    assert!(matches!(decide_file_mime("f.zzz", None, None), Err(Error::Ambiguous(_))));
    assert_eq!(decide_file_mime("f", octet(), Some(m("text", "x-shellscript"))).unwrap().essence(), "text/x-shellscript");
    assert_eq!(decide_file_mime("f.txt", Some(m("text", "plain")), octet()).unwrap().essence(), "text/plain");
}

#[test]
fn assets_below_root() {
    assert_eq!(assets_dir("/home/me/handlr"), "/home/me/handlr/assets");
    assert_eq!(assets_dir("/home/me/handlr/"), "/home/me/handlr/assets");
    assert_eq!(assets_dir(""), "assets");
}

#[test]
fn error_messages_name_the_input() {
    assert!(Error::NotFound("text/plain".to_string()).message().contains("text/plain"));
    assert!(Error::Cancelled.is_cancelled());
    assert!(!Error::BadPath("x".to_string()).is_cancelled());
}
