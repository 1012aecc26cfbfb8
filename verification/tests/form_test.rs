use lazyssh::config::Host;
use lazyssh::form::{FormState, FormStep};
use lazyssh::input::{Key, KeyPress};
use lazyssh::ui::{connection_string, Action, FormField};

fn values(form: &FormState) -> Vec<String> {
    form.fields().iter().map(|f| f.value.clone()).collect()
}

#[test]
fn test_field_at_end() {
    let field = FormField::at_end("Name", "aé".to_string(), true);
    assert_eq!(field.label, "Name");
    assert_eq!(field.value, "aé");
    assert_eq!(field.cursor_pos, 3);
    assert!(field.is_multiline);
}

#[test]
fn test_form_for_add_and_edit() {
    let form = FormState::for_add();
    assert_eq!(values(&form), vec!["", "", "", "22", "", ""]);
    assert_eq!(form.selected(), 0);
    assert_eq!(form.editing_host_idx(), None);
    let host = Host {
        name: "n".into(),
        user: "u".into(),
        host: "h".into(),
        port: Some(0),
        password: None,
        command: Some("c".into()),
    };
    let form = FormState::for_edit(4, &host);
    assert_eq!(values(&form), vec!["n", "u", "h", "0", "", "c"]);
    assert_eq!(form.editing_host_idx(), Some(4));
    assert!(form.fields().iter().all(|f| f.cursor_pos == f.value.len()));
}

#[test]
fn test_form_steps() {
    let mut form = FormState::for_add();
    assert!(matches!(form.handle_key(KeyPress::plain(Key::Char('x'))), FormStep::Continue));
    assert!(matches!(form.handle_key(KeyPress::plain(Key::Other)), FormStep::Continue));
    assert_eq!(values(&form)[0], "x");
    assert!(matches!(form.handle_key(KeyPress::plain(Key::Esc)), FormStep::Cancel));
    assert_eq!(values(&form)[0], "x");
    match form.handle_key(KeyPress::plain(Key::Enter)) {
        FormStep::Submit(Action::Add(h)) => {
            assert_eq!(h.name, "x");
            assert_eq!(h.port, Some(22));
        }
        other => panic!("unexpected step {:?}", other),
    }
    let host = Host {
        name: "n".into(),
        user: "u".into(),
        host: "h".into(),
        port: None,
        password: None,
        command: None,
    };
    let mut form = FormState::for_edit(2, &host);
    match form.handle_key(KeyPress::plain(Key::Enter)) {
        FormStep::Submit(Action::Edit(index, h)) => {
            assert_eq!(index, 2);
            assert_eq!(h.port, Some(22));
        }
        other => panic!("unexpected step {:?}", other),
    }
}

#[test]
fn test_connection_string() {
    let mut host = Host {
        name: "n".into(),
        user: "me".into(),
        host: "box.example".into(),
        port: Some(65535),
        password: Some("secret".into()),
        command: None,
    };
    assert_eq!(connection_string(&host), "ssh -p 65535 me@box.example");
    host.port = None;
    assert_eq!(connection_string(&host), "ssh -p 22 me@box.example");
}

#[test]
fn test_backspace_takes_back_what_was_typed() {
    let host = Host {
        name: "aé中😀".into(),
        user: "u".into(),
        host: "h".into(),
        port: None,
        password: None,
        command: None,
    };
    for steps_left in 0..5 {
        for c in ['x', 'ß', '中', '😀', '\n'] {
            let mut form = FormState::for_edit(0, &host);
            for _ in 0..steps_left {
                form.handle_key(KeyPress::plain(Key::Left));
            }
            let cursor = form.fields()[0].cursor_pos;
            form.handle_key(KeyPress::plain(Key::Char(c)));
            assert_eq!(form.fields()[0].value.len(), "aé中😀".len() + c.len_utf8());
            assert_eq!(form.fields()[0].cursor_pos, cursor + c.len_utf8());
            form.handle_key(KeyPress::plain(Key::Backspace));
            assert_eq!(form.fields()[0].value, "aé中😀");
            assert_eq!(form.fields()[0].cursor_pos, cursor);
        }
    }
}

#[test]
fn test_copied_command_is_read_back() {
    let host = Host {
        name: "my server".into(),
        user: "jürgen".into(),
        host: "box.example".into(),
        port: Some(2200),
        password: Some("secret".into()),
        command: Some("ls".into()),
    };
    let read = lazyssh::ui::Ui::parse_ssh_command(&connection_string(&host)).unwrap();
    assert_eq!(read.name, "jürgen@box.example");
    assert_eq!(read.user, "jürgen");
    assert_eq!(read.host, "box.example");
    assert_eq!(read.port, Some(2200));
    assert_eq!(read.password, None);
    assert_eq!(read.command, None);
}
