use handlr_regex::{
    invocations_for, load_rules, load_section, parse_line, parse_pair, render_line, render_section, setting, Handler,
    MimeType,
};

fn lines(text: &str) -> Vec<String> {
    text.lines().map(|l| l.to_string()).collect()
}

fn words(v: &[&str]) -> Vec<String> {
    v.iter().map(|s| s.to_string()).collect()
}

#[test]
fn line_is_parsed() {
    let (m, hs) = parse_line("text/plain=vim.desktop;;nano.desktop;").unwrap();
    assert_eq!(m.essence(), "text/plain");
    let names: Vec<String> = hs.iter().map(|h| h.name()).collect();
    assert_eq!(names, words(&["vim.desktop", "nano.desktop"]));
    assert!(parse_line("no equals sign").is_none());
    assert!(parse_line("noslash=a.desktop").is_none());
    let (w, _) = parse_line("image/*=feh.desktop").unwrap();
    assert!(w.is_wildcard());
}

#[test]
fn section_is_loaded() {
    let text = "[Added Associations]\ntext/plain=other.desktop;\n[Default Applications]\ntext/plain=vim.desktop;nano.desktop;vim.desktop;\n# note\nimage/png=feh.desktop\n";
    let store = load_section(&lines(text), "Default Applications");
    assert_eq!(store.entry_count(), 2);
    let list = store.lookup(&MimeType::new("text", "plain")).unwrap();
    let names: Vec<String> = list.iter().map(|h| h.name()).collect();
    assert_eq!(names, words(&["vim.desktop", "nano.desktop"]));
    assert_eq!(store.lookup(&MimeType::new("image", "png")).unwrap()[0].name(), "feh.desktop");
    assert_eq!(load_section(&lines(text), "Missing").entry_count(), 0);
}

#[test]
fn section_is_rendered() {
    let mut store = handlr_regex::AssocStore::new();
    store.add_handler(MimeType::new("text", "plain"), Handler::new("vim.desktop"));
    store.add_handler(MimeType::new("text", "plain"), Handler::new("nano.desktop"));
    let out = render_section(&store, "Default Applications");
    assert_eq!(out, words(&["[Default Applications]", "text/plain=vim.desktop;nano.desktop;"]));
    let back = load_section(&out, "Default Applications");
    assert_eq!(back.lookup(&MimeType::new("text", "plain")).unwrap().len(), 2);
    assert_eq!(render_line(&MimeType::new("a", "b"), &vec![]), "a/b=");
}

#[test]
fn multi_argument_command_spawns_once() {
    let r = invocations_for("mpv --force-window %U", &words(&["a.mp4", "b.mp4"]));
    assert_eq!(r, vec![words(&["mpv", "--force-window", "a.mp4", "b.mp4"])]);
}

#[test]
fn single_argument_command_spawns_per_argument() {
    let r = invocations_for("zathura %f %i", &words(&["a.pdf", "b.pdf"]));
    assert_eq!(r, vec![words(&["zathura", "a.pdf"]), words(&["zathura", "b.pdf"])]);
    let none = invocations_for("zathura %f", &vec![]);
    assert_eq!(none, vec![words(&["zathura"])]);
}

#[test]
fn command_without_placeholder_gets_arguments_appended() {
    let r = invocations_for("xterm  -e", &words(&["htop"]));
    assert_eq!(r, vec![words(&["xterm", "-e", "htop"])]);
}

#[test]
fn settings_and_rules_are_read() {
    let text = "[Settings]\nenable_selector=false\nselector=rofi -dmenu\nenable_selector=true\n[Regex Handlers]\nmpv.desktop=.*\\.iso$\nbackup.desktop=.*backup.*\n=nothing\n[Other]\nx.desktop=y\n";
    let ls = lines(text);
    assert_eq!(setting(&ls, "Settings", "enable_selector"), Some("true".to_string()));
    assert_eq!(setting(&ls, "Settings", "selector"), Some("rofi -dmenu".to_string()));
    assert_eq!(setting(&ls, "Settings", "missing"), None);
    let table = load_rules(&ls, "Regex Handlers");
    assert_eq!(table.rules.len(), 2);
    assert_eq!(table.rules[0].pattern, ".*\\.iso$");
    assert_eq!(table.rules[0].handler.name(), "mpv.desktop");
    assert_eq!(table.get_handler("my-backup.iso").unwrap().name(), "mpv.desktop");
    assert_eq!(parse_pair("a=b=c"), Some(("a".to_string(), "b=c".to_string())));
    assert_eq!(parse_pair("=b"), None);
}

#[test]
fn terminal_wraps_the_command() {
    let r = handlr_regex::in_terminal("alacritty  --class x", &words(&["htop", "-d", "5"]));
    assert_eq!(r, words(&["alacritty", "--class", "x", "-e", "htop", "-d", "5"]));
}
