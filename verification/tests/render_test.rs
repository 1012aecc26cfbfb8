use lazyssh::config::Host;
use lazyssh::i18n::{I18n, LangEnv};
use lazyssh::input::{Key, KeyPress};
use lazyssh::render::{
    boxed_string, confirm_line_strings, detail_line_strings, field_label_string,
    list_row_strings, render, single_line_string, Panel,
};
use lazyssh::ui::{AppState, FormField};

fn english() -> I18n {
    I18n::with_lang(Some("en"), &LangEnv::empty())
}

fn chinese() -> I18n {
    I18n::with_lang(Some("zh"), &LangEnv::empty())
}

fn sample_hosts() -> Vec<Host> {
    vec![
        Host {
            name: "web".to_string(),
            user: "deploy".to_string(),
            host: "web.example.com".to_string(),
            port: Some(2222),
            password: Some("hunter2".to_string()),
            command: Some("cd /srv".to_string()),
        },
        Host {
            name: "db".to_string(),
            user: "root".to_string(),
            host: "10.0.0.5".to_string(),
            port: None,
            password: None,
            command: None,
        },
    ]
}

fn press(app: &mut AppState, key: Key) {
    app.handle_key(KeyPress::plain(key));
}

const TOP: &str = "┌──────────────────────────────────────────┐";
const BLANK: &str = "│                                          │";
const BOTTOM: &str = "└──────────────────────────────────────────┘";
const RULE: &str = "│  ────────────────────────────────────────│";

#[test]
fn test_list_rows_mark_selection() {
    let rows = list_row_strings(&sample_hosts(), 1);
    assert_eq!(rows, vec!["  web @ web.example.com", "▶ db @ 10.0.0.5"]);
    let rows = list_row_strings(&sample_hosts(), 5);
    assert_eq!(rows, vec!["  web @ web.example.com", "  db @ 10.0.0.5"]);
    assert!(list_row_strings(&Vec::new(), 0).is_empty());
}

#[test]
fn test_detail_panel() {
    let hosts = sample_hosts();
    let lines = detail_line_strings(&hosts[0]);
    let expected = vec![
        "┌─ Host Information ──────────────────────┐".to_string(),
        format!("│ Name:    {:40} │", "web"),
        format!("│ User:    {:40} │", "deploy"),
        format!("│ Host:    {:40} │", "web.example.com"),
        format!("│ Port:    {:40} │", "2222"),
        format!("│ Password: {:39} │", "hunter2"),
        format!("│ Command: {:40} │", "cd /srv"),
        BOTTOM.to_string(),
    ];
    assert_eq!(lines, expected);
    let lines = detail_line_strings(&hosts[1]);
    assert_eq!(lines[4], format!("│ Port:    {:40} │", "22"));
    assert_eq!(lines[5], format!("│ Password: {:39} │", "(not set)"));
    assert_eq!(lines[6], format!("│ Command: {:40} │", "(none)"));
}

#[test]
fn test_detail_panel_truncates_long_values() {
    let mut host = sample_hosts().remove(0);
    host.name = "n".repeat(41);
    host.password = Some("p".repeat(40));
    let lines = detail_line_strings(&host);
    assert_eq!(lines[1], format!("│ Name:    {}... │", "n".repeat(37)));
    assert_eq!(lines[5], format!("│ Password: {}... │", "p".repeat(36)));
}

#[test]
fn test_screen_in_normal_mode() {
    let mut app = AppState::new(sample_hosts());
    let screen = render(&app, &english());
    assert_eq!(screen.panel, Panel::Details);
    assert_eq!(screen.panel_title, "ℹ️  Host Details");
    assert_eq!(screen.selected_row, 0);
    assert_eq!(screen.rows, vec!["▶ web @ web.example.com", "  db @ 10.0.0.5"]);
    assert_eq!(screen.panel_lines, detail_line_strings(&sample_hosts()[0]));
    assert_eq!(screen.help, "  ↑/↓/j/k: Navigate  │  Enter: Connect  │  a: Add  │  e: Edit  │  d: Delete  │  y: Copy  │  p: Paste  │  q/Ctrl+C: Quit");
    press(&mut app, Key::Down);
    let screen = render(&app, &english());
    assert_eq!(screen.selected_row, 1);
    assert_eq!(screen.panel_lines, detail_line_strings(&sample_hosts()[1]));
}

#[test]
fn test_screen_of_empty_list() {
    let app = AppState::new(Vec::new());
    let screen = render(&app, &english());
    assert_eq!(screen.panel, Panel::NoSelection);
    assert_eq!(screen.panel_title, "ℹ️  Host Details");
    assert!(screen.rows.is_empty());
    assert_eq!(
        screen.panel_lines,
        vec![
            TOP,
            BLANK,
            "│         No host selected                 │",
            BLANK,
            "│     Press 'a' to add a new host         │",
            BLANK,
            BOTTOM,
        ]
    );
}

#[test]
fn test_field_lines() {
    assert_eq!(field_label_string("Name", true), format!("│▶ {:12}: ", "Name"));
    assert_eq!(field_label_string("Password", false), format!("│  {:12}: ", "Password"));
    assert_eq!(boxed_string("ab", "cd", 4), "abcd   │");
    let mut field = FormField {
        label: "User".to_string(),
        value: "röot".to_string(),
        cursor_pos: 2,
        is_multiline: false,
    };
    // The cursor stands inside `ö`: it is shown behind it.
    assert_eq!(single_line_string(&field, true), format!("│▶ {:12}: {:38} │", "User", "rö▊ot"));
    assert_eq!(single_line_string(&field, false), format!("│  {:12}: {:38} │", "User", "röot"));
    assert_eq!(field.cursor_pos, 2);
    field.cursor_pos = 99;
    assert_eq!(single_line_string(&field, true), format!("│▶ {:12}: {:38} │", "User", "röot▊"));
    field.value = String::new();
    assert_eq!(single_line_string(&field, true), format!("│▶ {:12}: {:38} │", "User", "▊"));
    assert_eq!(single_line_string(&field, false), format!("│  {:12}: {:38} │", "User", "(empty)"));
    field.value = "x".repeat(40);
    field.cursor_pos = 0;
    assert_eq!(
        single_line_string(&field, false),
        format!("│  {:12}: {}... │", "User", "x".repeat(35))
    );
    // The cursor mark takes three of the 38 bytes but one of the 38 columns.
    let shown = format!("▊{}...", "x".repeat(32));
    assert_eq!(single_line_string(&field, true), format!("│▶ {:12}: {:38} │", "User", shown));
}

#[test]
fn test_add_form_panel() {
    let mut app = AppState::new(sample_hosts());
    press(&mut app, Key::Char('a'));
    let screen = render(&app, &english());
    assert_eq!(screen.panel, Panel::AddForm);
    assert_eq!(screen.panel_title, "➕ Add New Host");
    let expected = vec![
        "┌─ ➕ Add New Host ────────────────────────────────┐".to_string(),
        format!("│▶ {:12}: {:38} │", "Name", "▊"),
        RULE.to_string(),
        format!("│  {:12}: {:38} │", "User", "(empty)"),
        format!("│  {:12}: {:38} │", "Host", "(empty)"),
        format!("│  {:12}: {:38} │", "Port", "22"),
        format!("│  {:12}: {:38} │", "Password", "(empty)"),
        format!("│  {:12}: ", "Command"),
        "│             (empty)".to_string(),
        BOTTOM.to_string(),
    ];
    assert_eq!(screen.panel_lines, expected);
    assert_eq!(screen.help, "  ←/→: Move Cursor  │  Home/End: Jump  │  Tab/↓: Next  │  Shift+Tab/↑: Prev  │  Enter: Save  │  Esc: Cancel");
    // The state is only read.
    assert_eq!(app.hosts.len(), 2);
}

#[test]
fn test_edit_form_panel_with_command_lines() {
    let mut hosts = sample_hosts();
    hosts[0].command = Some("cd /srv\n\nls -l".to_string());
    let mut app = AppState::new(hosts);
    press(&mut app, Key::Char('e'));
    press(&mut app, Key::BackTab);
    let screen = render(&app, &english());
    assert_eq!(screen.panel, Panel::EditForm);
    assert_eq!(screen.panel_title, "✏️  Edit Host");
    let expected = vec![
        "┌─ ✏️  Edit Host ────────────────────────────────┐".to_string(),
        format!("│  {:12}: {:38} │", "Name", "web"),
        format!("│  {:12}: {:38} │", "User", "deploy"),
        format!("│  {:12}: {:38} │", "Host", "web.example.com"),
        format!("│  {:12}: {:38} │", "Port", "2222"),
        format!("│  {:12}: {:38} │", "Password", "hunter2"),
        format!("│▶ {:12}: ", "Command"),
        "│  1 │ cd /srv".to_string(),
        "│  2 │ ".to_string(),
        "│  3 │ ls -l▊".to_string(),
        BOTTOM.to_string(),
    ];
    assert_eq!(screen.panel_lines, expected);
    assert_eq!(screen.help, "  ←/→: Move Cursor  │  ↑/↓: Move Line  │  Shift+Enter: New Line  │  Enter: Save  │  Esc: Cancel");
    press(&mut app, Key::Up);
    let screen = render(&app, &english());
    assert_eq!(screen.panel_lines[7], "│  1 │ cd /srv");
    assert_eq!(screen.panel_lines[8], "│  2 │ ▊");
    assert_eq!(screen.panel_lines[9], "│  3 │ ls -l");
    press(&mut app, Key::Up);
    press(&mut app, Key::Left);
    let screen = render(&app, &english());
    assert_eq!(screen.panel_lines[7], "│  1 │ ▊cd /srv");
    // Emptied, the field shows the cursor alone.
    let mut app = AppState::new(sample_hosts());
    press(&mut app, Key::Char('a'));
    press(&mut app, Key::BackTab);
    let screen = render(&app, &english());
    assert_eq!(screen.panel_lines[6], format!("│▶ {:12}: ", "Command"));
    assert_eq!(screen.panel_lines[7], "│             ▊");
    assert_eq!(screen.panel_lines[8], BOTTOM);
}

#[test]
fn test_confirm_panel() {
    let mut app = AppState::new(sample_hosts());
    press(&mut app, Key::Char('d'));
    let screen = render(&app, &english());
    assert_eq!(screen.panel, Panel::ConfirmDelete);
    assert_eq!(screen.panel_title, "⚠️  删除确认");
    let expected = vec![
        TOP.to_string(),
        BLANK.to_string(),
        format!("│  Confirm delete host: {:30} │", "web"),
        BLANK.to_string(),
        "│  Press 'y' to confirm, 'n' to cancel     │".to_string(),
        BLANK.to_string(),
        BOTTOM.to_string(),
    ];
    assert_eq!(screen.panel_lines, expected);
    assert_eq!(screen.help, "  y: Confirm Delete  │  n/Esc: Cancel");
    let screen = render(&app, &chinese());
    assert_eq!(screen.panel_lines[2], format!("│  确认删除主机: {:30} │", "web"));
    assert_eq!(screen.panel_lines[4], "│  按 'y' 确认删除，按 'n' 取消           │");
    assert_eq!(screen.help, "  y: 确认删除  │  n/Esc: 取消");
    let long = "h".repeat(31);
    let lines = confirm_line_strings(&english(), &long);
    let shown = format!("{}...", "h".repeat(27));
    assert_eq!(lines[2], format!("│  Confirm delete host: {:30} │", shown));
}
