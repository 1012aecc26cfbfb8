use lazyssh::parser::{parse_target, parse_words, split_words};
use lazyssh::text::chars_of;
use lazyssh::ui::Ui;

fn words_of(line: &str) -> Vec<String> {
    split_words(&chars_of(line)).iter().map(|w| w.iter().collect::<String>()).collect()
}

#[test]
fn test_split_words_on_white_space() {
    assert_eq!(words_of("ssh  -p 22\tuser@host\n"), vec!["ssh", "-p", "22", "user@host"]);
    assert_eq!(words_of(""), Vec::<String>::new());
    assert_eq!(words_of("   "), Vec::<String>::new());
    assert_eq!(words_of("a"), vec!["a"]);
    // A no-break space and an ideographic space separate words as well.
    assert_eq!(words_of("ssh\u{a0}user@host\u{3000}x"), vec!["ssh", "user@host", "x"]);
}

#[test]
fn test_parse_skips_options() {
    let host = Ui::parse_ssh_command("  ssh -v -4 user@host extra words").unwrap();
    assert_eq!(host.user, "user");
    assert_eq!(host.host, "host");
    assert_eq!(host.port, Some(22));
    assert_eq!(host.name, "user@host");
    assert_eq!(host.password, None);
    assert_eq!(host.command, None);
}

#[test]
fn test_parse_port_pairs() {
    let host = Ui::parse_ssh_command("ssh -p 1 -p 65535 u@h").unwrap();
    assert_eq!(host.port, Some(65535));
    let host = Ui::parse_ssh_command("ssh -p +8022 u@h").unwrap();
    assert_eq!(host.port, Some(8022));
    // A port that cannot be read is no port: `-p` is passed over as an
    // option and the next word is the target.
    assert!(Ui::parse_ssh_command("ssh -p 65536 u@h").is_none());
    assert!(Ui::parse_ssh_command("ssh -p abc u@h").is_none());
    let host = Ui::parse_ssh_command("ssh -p u@h").unwrap();
    assert_eq!(host.port, Some(22));
    assert_eq!(host.user, "u");
    // `-p` as the last word is an option without a value.
    assert!(Ui::parse_ssh_command("ssh -p").is_none());
    let host = Ui::parse_ssh_command("ssh u@h -p 2222").unwrap();
    assert_eq!(host.port, Some(22));
}

#[test]
fn test_parse_rejects_other_shapes() {
    assert!(Ui::parse_ssh_command("").is_none());
    assert!(Ui::parse_ssh_command("   ").is_none());
    assert!(Ui::parse_ssh_command("SSH user@host").is_none());
    assert!(Ui::parse_ssh_command("sshd user@host").is_none());
    assert!(Ui::parse_ssh_command("ssh host").is_none());
    assert!(Ui::parse_ssh_command("ssh -v").is_none());
    assert!(Ui::parse_ssh_command("ssh @").is_none());
    assert!(Ui::parse_ssh_command("ssh host user@host").is_none());
    // One `@` and no more.
    assert!(Ui::parse_ssh_command("ssh a@b@c").is_none());
    assert!(Ui::parse_ssh_command("ssh a@@b").is_none());
}

#[test]
fn test_parse_keeps_unicode_names() {
    let host = Ui::parse_ssh_command("ssh jürgen@münchen.example").unwrap();
    assert_eq!(host.user, "jürgen");
    assert_eq!(host.host, "münchen.example");
    assert_eq!(host.name, "jürgen@münchen.example");
}

#[test]
fn test_parse_target_and_words() {
    let h = parse_target(&chars_of("me@box"), 7).unwrap();
    assert_eq!(h.user, "me");
    assert_eq!(h.host, "box");
    assert_eq!(h.port, Some(7));
    assert!(parse_target(&chars_of("mebox"), 7).is_none());
    assert!(parse_target(&chars_of("@box"), 7).is_none());
    assert!(parse_target(&chars_of("me@"), 7).is_none());
    assert!(parse_target(&chars_of(""), 7).is_none());
    let words = split_words(&chars_of("ssh -p 2222 user@host"));
    let h = parse_words(&words).unwrap();
    assert_eq!(h.port, Some(2222));
    assert!(parse_words(&Vec::new()).is_none());
}
