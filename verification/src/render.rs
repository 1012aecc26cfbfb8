//! What is shown: the list of profiles, the panel beside it and the line of
//! keys below, as lines of text. Showing them is left to the caller.
use crate::config::{host_views, Host, HostView};
use crate::cursor::{normalize, normalize_pos};
use crate::i18n::{
    confirm_delete_host_text, confirm_delete_text, press_y_to_confirm_text, I18n,
};
use crate::text::{
    char_line_end, chars_of, decimal_string, decimal_text, find_char_line_end,
    lemma_char_line_end, lines_text, padded, padded_left, push_line, push_padded,
    push_padded_left, split_text, text_before, text_from, text_of_range,
};
use crate::form::{FormState, FormView, FIELD_COUNT};
use crate::ui::{
    field_views, truncate, truncated, AppMode, AppState, FieldView, FormField, ModeView,
    StateView,
};
use vstd::prelude::*;
use vstd::string::*;
use vstd::utf8::*;

verus! {

/// The widest value that the panel shows in full, in bytes.
pub const VALUE_WIDTH: usize = 38;

/// The kind of panel that stands beside the list.
#[derive(Clone, Copy, Debug, PartialEq, Eq)]
pub enum Panel {
    /// The profile that is selected.
    Details,
    /// The list is empty.
    NoSelection,
    /// The form for a new profile.
    AddForm,
    /// The form for a profile of the list.
    EditForm,
    /// The question before a deletion.
    ConfirmDelete,
}

/// What is shown.
#[derive(Debug)]
pub struct Screen {
    /// One row for each profile.
    pub rows: Vec<String>,
    /// The row that is highlighted.
    pub selected_row: usize,
    pub panel: Panel,
    pub panel_title: String,
    pub panel_lines: Vec<String>,
    /// The keys that can be pressed.
    pub help: String,
}

/// What is shown, as plain values.
pub struct ScreenView {
    pub rows: Seq<Seq<char>>,
    pub selected_row: usize,
    pub panel: Panel,
    pub panel_title: Seq<char>,
    pub panel_lines: Seq<Seq<char>>,
    pub help: Seq<char>,
}

impl View for Screen {
    type V = ScreenView;

    open spec fn view(&self) -> ScreenView {
        ScreenView {
            rows: lines_text(self.rows@),
            selected_row: self.selected_row,
            panel: self.panel,
            panel_title: self.panel_title@,
            panel_lines: lines_text(self.panel_lines@),
            help: self.help@,
        }
    }
}

/// The row of a profile in the list; the row that is selected has a mark.
pub open spec fn list_row(host: HostView, selected: bool) -> Seq<char> {
    (if selected {
        "▶ "@
    } else {
        "  "@
    }) + host.name + " @ "@ + host.host
}

/// The rows of the list.
pub open spec fn list_rows(hosts: Seq<HostView>, list_index: usize) -> Seq<Seq<char>> {
    Seq::new(hosts.len(), |i: int| list_row(hosts[i], i == list_index))
}

/// A line of a box: a label, a value filled up to `width` characters, and
/// the right edge.
pub open spec fn boxed(label: Seq<char>, value: Seq<char>, width: int) -> Seq<char> {
    label + padded(value, width) + " │"@
}

/// The password as the panel shows it.
pub open spec fn shown_password(password: Option<Seq<char>>) -> Seq<char> {
    match password {
        Some(p) => truncated(p, 39),
        None => "(not set)"@,
    }
}

/// The command as the panel shows it.
pub open spec fn shown_command(command: Option<Seq<char>>) -> Seq<char> {
    match command {
        Some(c) => truncated(c, 40),
        None => truncated("(none)"@, 40),
    }
}

/// The panel for the profile that is selected.
pub open spec fn detail_lines(host: HostView) -> Seq<Seq<char>> {
    seq![
        "┌─ Host Information ──────────────────────┐"@,
        boxed("│ Name:    "@, truncated(host.name, 40), 40),
        boxed("│ User:    "@, truncated(host.user, 40), 40),
        boxed("│ Host:    "@, truncated(host.host, 40), 40),
        boxed("│ Port:    "@, decimal_text(host.port_or_default() as nat), 40),
        boxed("│ Password: "@, shown_password(host.password), 39),
        boxed("│ Command: "@, shown_command(host.command), 40),
        "└──────────────────────────────────────────┘"@,
    ]
}

/// The panel of an empty list.
pub open spec fn no_selection_lines() -> Seq<Seq<char>> {
    seq![
        "┌──────────────────────────────────────────┐"@,
        "│                                          │"@,
        "│         No host selected                 │"@,
        "│                                          │"@,
        "│     Press 'a' to add a new host         │"@,
        "│                                          │"@,
        "└──────────────────────────────────────────┘"@,
    ]
}

/// The title of the form.
pub open spec fn form_title(editing: bool) -> Seq<char> {
    if editing {
        "✏️  Edit Host"@
    } else {
        "➕ Add New Host"@
    }
}

/// The label of a field; the field that is selected has a mark.
pub open spec fn field_label(label: Seq<char>, selected: bool) -> Seq<char> {
    (if selected {
        "│▶"@
    } else {
        "│ "@
    }) + " "@ + padded(label, 12) + ": "@
}

/// The text with the cursor shown at the byte offset `at`.
pub open spec fn with_cursor_shown(value: Seq<char>, at: int) -> Seq<char> {
    text_before(value, at) + "▊"@ + text_from(value, at)
}

/// What a field of one line shows: its text, with the cursor where the
/// field is selected; an empty field says so, or shows the cursor alone.
pub open spec fn single_display(field: FieldView, selected: bool) -> Seq<char> {
    if field.value.len() == 0 {
        if selected {
            "▊"@
        } else {
            "(empty)"@
        }
    } else if selected {
        with_cursor_shown(field.value, normalize_pos(field.bytes(), field.cursor_pos))
    } else {
        field.value
    }
}

/// The line of a field of one line.
pub open spec fn single_line(field: FieldView, selected: bool) -> Seq<char> {
    boxed(
        field_label(field.label, selected),
        truncated(single_display(field, selected), VALUE_WIDTH as int),
        VALUE_WIDTH as int,
    )
}

/// The row of the line that starts at the character `start`: its number and
/// its text, with the cursor where it stands in this line. `cursor` counts
/// characters.
pub open spec fn text_row(
    chars: Seq<char>,
    cursor: int,
    selected: bool,
    start: int,
    number: nat,
) -> Seq<char> {
    let end = char_line_end(chars, start);
    let display = if selected && start <= cursor <= end {
        chars.subrange(start, cursor) + "▊"@ + chars.subrange(cursor, end)
    } else {
        chars.subrange(start, end)
    };
    "│ "@ + padded_left(decimal_text(number), 2) + " │ "@ + truncated(display, VALUE_WIDTH as int)
}

/// The rows of the lines that start at the character `i` or after it;
/// `number` is the number of the first of them. A line starts at 0 and
/// after each line feed.
pub open spec fn text_rows_from(
    chars: Seq<char>,
    cursor: int,
    selected: bool,
    i: int,
    number: nat,
) -> Seq<Seq<char>>
    decreases chars.len() + 1 - i,
{
    if i < 0 || i > chars.len() {
        Seq::empty()
    } else if i == 0 || chars[i - 1] == '\n' {
        seq![text_row(chars, cursor, selected, i, number)] + text_rows_from(
            chars,
            cursor,
            selected,
            i + 1,
            number + 1,
        )
    } else {
        text_rows_from(chars, cursor, selected, i + 1, number)
    }
}

/// The number of characters before the cursor of a field.
pub open spec fn cursor_chars(field: FieldView) -> int {
    text_before(field.value, normalize_pos(field.bytes(), field.cursor_pos)).len() as int
}

/// What a field of several lines shows below its label: a numbered row for
/// each line; an empty field says so, or shows the cursor alone.
pub open spec fn multiline_rows(field: FieldView, selected: bool) -> Seq<Seq<char>> {
    if field.value.len() == 0 {
        if selected {
            seq!["│             ▊"@]
        } else {
            seq!["│             (empty)"@]
        }
    } else {
        text_rows_from(field.value, cursor_chars(field), selected, 0, 1)
    }
}

/// The lines of one field. Below the field that is selected stands a rule,
/// unless it is the last.
pub open spec fn field_lines(field: FieldView, selected: bool, last: bool) -> Seq<Seq<char>> {
    (if field.is_multiline {
        seq![field_label(field.label, selected)] + multiline_rows(field, selected)
    } else {
        seq![single_line(field, selected)]
    }) + (if selected && !last {
        seq!["│  ────────────────────────────────────────│"@]
    } else {
        Seq::empty()
    })
}

/// The lines of the first `count` fields of a form.
pub open spec fn fields_lines(form: FormView, count: int) -> Seq<Seq<char>>
    decreases count,
{
    if count <= 0 {
        Seq::empty()
    } else {
        fields_lines(form, count - 1) + field_lines(
            form.fields[count - 1],
            form.selected == count - 1,
            count == form.fields.len(),
        )
    }
}

/// The panel of the form.
pub open spec fn form_lines(form: FormView) -> Seq<Seq<char>> {
    seq!["┌─ "@ + form_title(form.editing_host_idx is Some) + " ────────────────────────────────┐"@] + fields_lines(
        form,
        form.fields.len() as int,
    ) + seq!["└──────────────────────────────────────────┘"@]
}

/// The panel of the question before a deletion.
pub open spec fn confirm_lines(is_chinese: bool, host_name: Seq<char>) -> Seq<Seq<char>> {
    seq![
        "┌──────────────────────────────────────────┐"@,
        "│                                          │"@,
        confirm_delete_host_text(is_chinese, truncated(host_name, 30)),
        "│                                          │"@,
        press_y_to_confirm_text(is_chinese),
        "│                                          │"@,
        "└──────────────────────────────────────────┘"@,
    ]
}

/// The keys that can be pressed in a mode; in the form they depend on
/// whether the field that is selected has several lines.
pub open spec fn help_text(mode: ModeView, is_chinese: bool) -> Seq<char> {
    match mode {
        ModeView::Normal => "  ↑/↓/j/k: Navigate  │  Enter: Connect  │  a: Add  │  e: Edit  │  d: Delete  │  y: Copy  │  p: Paste  │  q/Ctrl+C: Quit"@,
        ModeView::ConfirmDelete { host_idx, host_name } => confirm_delete_text(is_chinese),
        ModeView::Form(form) => if form.current().is_multiline {
            "  ←/→: Move Cursor  │  ↑/↓: Move Line  │  Shift+Enter: New Line  │  Enter: Save  │  Esc: Cancel"@
        } else {
            "  ←/→: Move Cursor  │  Home/End: Jump  │  Tab/↓: Next  │  Shift+Tab/↑: Prev  │  Enter: Save  │  Esc: Cancel"@
        },
    }
}

/// The kind of panel that a state shows.
pub open spec fn panel_of(s: StateView) -> Panel {
    match s.mode {
        ModeView::Normal => if s.selected() is Some {
            Panel::Details
        } else {
            Panel::NoSelection
        },
        ModeView::Form(form) => if form.editing_host_idx is Some {
            Panel::EditForm
        } else {
            Panel::AddForm
        },
        ModeView::ConfirmDelete { host_idx, host_name } => Panel::ConfirmDelete,
    }
}

/// The title of a panel.
pub open spec fn panel_title(panel: Panel) -> Seq<char> {
    match panel {
        Panel::Details => "ℹ️  Host Details"@,
        Panel::NoSelection => "ℹ️  Host Details"@,
        Panel::AddForm => "➕ Add New Host"@,
        Panel::EditForm => "✏️  Edit Host"@,
        Panel::ConfirmDelete => "⚠️  删除确认"@,
    }
}

/// The lines of the panel that a state shows.
pub open spec fn panel_lines(s: StateView, is_chinese: bool) -> Seq<Seq<char>> {
    match s.mode {
        ModeView::Normal => match s.selected() {
            Some(host) => detail_lines(host),
            None => no_selection_lines(),
        },
        ModeView::Form(form) => form_lines(form),
        ModeView::ConfirmDelete { host_idx, host_name } => confirm_lines(is_chinese, host_name),
    }
}

/// What a state shows. Nothing of the state changes.
pub open spec fn screen_of(s: StateView, is_chinese: bool) -> ScreenView {
    ScreenView {
        rows: list_rows(s.hosts, s.list_index),
        selected_row: s.list_index,
        panel: panel_of(s),
        panel_title: panel_title(panel_of(s)),
        panel_lines: panel_lines(s, is_chinese),
        help: help_text(s.mode, is_chinese),
    }
}

/// Where no line starts between `i` and `j`, the rows from `i` on are the
/// rows from `j` on.
pub proof fn lemma_no_rows_between(
    chars: Seq<char>,
    cursor: int,
    selected: bool,
    i: int,
    j: int,
    number: nat,
)
    requires
        0 < i <= j <= chars.len() + 1,
        forall|k: int| i - 1 <= k < j - 1 ==> chars[k] != '\n',
    ensures
        text_rows_from(chars, cursor, selected, i, number) == text_rows_from(
            chars,
            cursor,
            selected,
            j,
            number,
        ),
    decreases j - i,
{
    if i < j {
        lemma_no_rows_between(chars, cursor, selected, i + 1, j, number);
    }
}

/// The row of a profile in the list.
pub fn list_row_string(host: &Host, selected: bool) -> (r: String)
    ensures
        r@ == list_row(host@, selected),
{
    let mut out = if selected {
        "▶ ".to_owned()
    } else {
        "  ".to_owned()
    };
    out.append(host.name.as_str());
    out.append(" @ ");
    out.append(host.host.as_str());
    out
}

/// The rows of the list.
pub fn list_row_strings(hosts: &Vec<Host>, list_index: usize) -> (r: Vec<String>)
    ensures
        lines_text(r@) == list_rows(host_views(hosts@), list_index),
{
    let mut out: Vec<String> = Vec::new();
    let mut i: usize = 0;
    while i < hosts.len()
        invariant
            i <= hosts.len(),
            out@.len() == i,
            forall|k: int| 0 <= k < i ==> (#[trigger] out@[k])@ == list_row(hosts@[k]@, k == list_index),
        decreases hosts.len() - i,
    {
        out.push(list_row_string(&hosts[i], i == list_index));
        i = i + 1;
    }
    proof {
        assert(lines_text(out@) =~= list_rows(host_views(hosts@), list_index));
    }
    out
}

/// A line of a box.
pub fn boxed_string(label: &str, value: &str, width: usize) -> (r: String)
    ensures
        r@ == boxed(label@, value@, width as int),
{
    let mut out = label.to_owned();
    push_padded(&mut out, value, width);
    out.append(" │");
    out
}

/// The panel for the profile that is selected.
pub fn detail_line_strings(host: &Host) -> (r: Vec<String>)
    ensures
        lines_text(r@) == detail_lines(host@),
{
    let password = match &host.password {
        Some(p) => truncate(p.as_str(), 39),
        None => "(not set)".to_owned(),
    };
    let command = match &host.command {
        Some(c) => truncate(c.as_str(), 40),
        None => truncate("(none)", 40),
    };
    let port = decimal_string(host.port_or_default() as u128);
    let mut out: Vec<String> = Vec::new();
    push_line(&mut out, "┌─ Host Information ──────────────────────┐".to_owned());
    push_line(&mut out, boxed_string("│ Name:    ", truncate(host.name.as_str(), 40).as_str(), 40));
    push_line(&mut out, boxed_string("│ User:    ", truncate(host.user.as_str(), 40).as_str(), 40));
    push_line(&mut out, boxed_string("│ Host:    ", truncate(host.host.as_str(), 40).as_str(), 40));
    push_line(&mut out, boxed_string("│ Port:    ", port.as_str(), 40));
    push_line(&mut out, boxed_string("│ Password: ", password.as_str(), 39));
    push_line(&mut out, boxed_string("│ Command: ", command.as_str(), 40));
    push_line(&mut out, "└──────────────────────────────────────────┘".to_owned());
    proof {
        assert(lines_text(out@) =~= detail_lines(host@));
    }
    out
}

/// The panel of an empty list.
pub fn no_selection_line_strings() -> (r: Vec<String>)
    ensures
        lines_text(r@) == no_selection_lines(),
{
    let mut out: Vec<String> = Vec::new();
    push_line(&mut out, "┌──────────────────────────────────────────┐".to_owned());
    push_line(&mut out, "│                                          │".to_owned());
    push_line(&mut out, "│         No host selected                 │".to_owned());
    push_line(&mut out, "│                                          │".to_owned());
    push_line(&mut out, "│     Press 'a' to add a new host         │".to_owned());
    push_line(&mut out, "│                                          │".to_owned());
    push_line(&mut out, "└──────────────────────────────────────────┘".to_owned());
    proof {
        assert(lines_text(out@) =~= no_selection_lines());
    }
    out
}

/// The label of a field.
pub fn field_label_string(label: &str, selected: bool) -> (r: String)
    ensures
        r@ == field_label(label@, selected),
{
    let mut out = if selected {
        "│▶".to_owned()
    } else {
        "│ ".to_owned()
    };
    out.append(" ");
    push_padded(&mut out, label, 12);
    out.append(": ");
    out
}

/// The line of a field of one line.
pub fn single_line_string(field: &FormField, selected: bool) -> (r: String)
    ensures
        r@ == single_line(field@, selected),
{
    let value = field.value.as_str();
    let display = if value.is_empty() {
        if selected {
            "▊".to_owned()
        } else {
            "(empty)".to_owned()
        }
    } else if selected {
        let at = normalize(value, field.cursor_pos);
        let (before, after) = split_text(value, at);
        let mut shown = before.to_owned();
        shown.append("▊");
        shown.append(after);
        shown
    } else {
        value.to_owned()
    };
    let label = field_label_string(field.label.as_str(), selected);
    boxed_string(label.as_str(), truncate(display.as_str(), VALUE_WIDTH).as_str(), VALUE_WIDTH)
}

/// The row of the line that starts at the character `start`.
fn text_row_string(chars: &Vec<char>, cursor: usize, selected: bool, start: usize, number: u128) -> (r:
    String)
    requires
        start <= chars@.len(),
    ensures
        r@ == text_row(chars@, cursor as int, selected, start as int, number as nat),
{
    let end = find_char_line_end(chars, start);
    let display = if selected && start <= cursor && cursor <= end {
        let mut shown = text_of_range(chars, start, cursor);
        shown.append("▊");
        shown.append(text_of_range(chars, cursor, end).as_str());
        shown
    } else {
        text_of_range(chars, start, end)
    };
    let mut out = "│ ".to_owned();
    push_padded_left(&mut out, decimal_string(number).as_str(), 2);
    out.append(" │ ");
    out.append(truncate(display.as_str(), VALUE_WIDTH).as_str());
    out
}

/// Appends the numbered rows of a text of several lines.
fn push_text_rows(out: &mut Vec<String>, chars: &Vec<char>, cursor: usize, selected: bool)
    ensures
        lines_text(final(out)@) == lines_text(old(out)@) + text_rows_from(
            chars@,
            cursor as int,
            selected,
            0,
            1,
        ),
{
    let ghost goal = lines_text(old(out)@) + text_rows_from(chars@, cursor as int, selected, 0, 1);
    let n = chars.len();
    let mut start: usize = 0;
    let mut number: u128 = 1;
    loop
        invariant
            n == chars@.len(),
            start <= n,
            1 <= number <= start + 1,
            start == 0 || chars@[start - 1] == '\n',
            goal == lines_text(old(out)@) + text_rows_from(chars@, cursor as int, selected, 0, 1),
            lines_text(out@) + text_rows_from(
                chars@,
                cursor as int,
                selected,
                start as int,
                number as nat,
            ) == goal,
        decreases n - start,
    {
        let end = find_char_line_end(chars, start);
        let ghost before = lines_text(out@);
        let ghost row = text_row(chars@, cursor as int, selected, start as int, number as nat);
        push_line(out, text_row_string(chars, cursor, selected, start, number));
        proof {
            lemma_char_line_end(chars@, start as int);
            lemma_no_rows_between(
                chars@,
                cursor as int,
                selected,
                start + 1,
                end + 1,
                (number + 1) as nat,
            );
            assert(before.push(row) + text_rows_from(
                chars@,
                cursor as int,
                selected,
                end + 1,
                (number + 1) as nat,
            ) =~= goal);
        }
        if end >= n {
            proof {
                assert(lines_text(out@) =~= goal);
            }
            return ;
        }
        start = end + 1;
        number = number + 1;
    }
}

/// Appends the lines of one field.
fn push_field_lines(out: &mut Vec<String>, field: &FormField, selected: bool, last: bool)
    ensures
        lines_text(final(out)@) == lines_text(old(out)@) + field_lines(field@, selected, last),
{
    let ghost before = lines_text(old(out)@);
    if field.is_multiline {
        push_line(out, field_label_string(field.label.as_str(), selected));
        let value = field.value.as_str();
        if value.is_empty() {
            if selected {
                push_line(out, "│             ▊".to_owned());
            } else {
                push_line(out, "│             (empty)".to_owned());
            }
        } else {
            let at = normalize(value, field.cursor_pos);
            let (head, _) = split_text(value, at);
            let cursor = head.unicode_len();
            let chars = chars_of(value);
            push_text_rows(out, &chars, cursor, selected);
        }
        proof {
            assert(lines_text(out@) =~= before + (seq![field_label(field@.label, selected)]
                + multiline_rows(field@, selected)));
        }
    } else {
        push_line(out, single_line_string(field, selected));
        proof {
            assert(lines_text(out@) =~= before + seq![single_line(field@, selected)]);
        }
    }
    if selected && !last {
        push_line(out, "│  ────────────────────────────────────────│".to_owned());
    }
    proof {
        assert(lines_text(out@) =~= before + field_lines(field@, selected, last));
    }
}

/// The panel of the form.
pub fn form_line_strings(form: &FormState) -> (r: Vec<String>)
    ensures
        lines_text(r@) == form_lines(form@),
{
    let fields = form.fields();
    let selected = form.selected();
    let mut head = "┌─ ".to_owned();
    if form.editing_host_idx().is_some() {
        head.append("✏️  Edit Host");
    } else {
        head.append("➕ Add New Host");
    }
    head.append(" ────────────────────────────────┐");
    let mut out: Vec<String> = Vec::new();
    push_line(&mut out, head);
    let mut i: usize = 0;
    while i < FIELD_COUNT
        invariant
            i <= FIELD_COUNT,
            fields@.len() == FIELD_COUNT,
            field_views(fields@) == form@.fields,
            selected == form@.selected,
            lines_text(out@) == seq![head@] + fields_lines(form@, i as int),
        decreases FIELD_COUNT - i,
    {
        let ghost before = lines_text(out@);
        push_field_lines(&mut out, &fields[i], i == selected, i + 1 == FIELD_COUNT);
        proof {
            assert(form@.fields[i as int] == fields@[i as int]@);
            assert(lines_text(out@) =~= seq![head@] + fields_lines(form@, i + 1));
        }
        i = i + 1;
    }
    push_line(&mut out, "└──────────────────────────────────────────┘".to_owned());
    proof {
        assert(lines_text(out@) =~= form_lines(form@));
    }
    out
}

/// The panel of the question before a deletion.
pub fn confirm_line_strings(i18n: &I18n, host_name: &str) -> (r: Vec<String>)
    ensures
        lines_text(r@) == confirm_lines(i18n.is_chinese, host_name@),
{
    let mut out: Vec<String> = Vec::new();
    push_line(&mut out, "┌──────────────────────────────────────────┐".to_owned());
    push_line(&mut out, "│                                          │".to_owned());
    push_line(&mut out, i18n.confirm_delete_host(truncate(host_name, 30).as_str()));
    push_line(&mut out, "│                                          │".to_owned());
    push_line(&mut out, i18n.press_y_to_confirm().to_owned());
    push_line(&mut out, "│                                          │".to_owned());
    push_line(&mut out, "└──────────────────────────────────────────┘".to_owned());
    proof {
        assert(lines_text(out@) =~= confirm_lines(i18n.is_chinese, host_name@));
    }
    out
}

/// The title of a panel.
pub fn panel_title_string(panel: Panel) -> (r: String)
    ensures
        r@ == panel_title(panel),
{
    match panel {
        Panel::Details => "ℹ️  Host Details".to_owned(),
        Panel::NoSelection => "ℹ️  Host Details".to_owned(),
        Panel::AddForm => "➕ Add New Host".to_owned(),
        Panel::EditForm => "✏️  Edit Host".to_owned(),
        Panel::ConfirmDelete => "⚠️  删除确认".to_owned(),
    }
}

/// What a state shows: the rows of the list, the panel and the keys. The
/// state is only read.
pub fn render(state: &AppState, i18n: &I18n) -> (r: Screen)
    ensures
        r@ == screen_of(state@, i18n.is_chinese),
{
    let rows = list_row_strings(&state.hosts, state.list_index);
    let (panel, panel_lines, help) = match &state.mode {
        AppMode::Normal => {
            let help = "  ↑/↓/j/k: Navigate  │  Enter: Connect  │  a: Add  │  e: Edit  │  d: Delete  │  y: Copy  │  p: Paste  │  q/Ctrl+C: Quit".to_owned();
            match state.selected_host() {
                Some(host) => (Panel::Details, detail_line_strings(host), help),
                None => (Panel::NoSelection, no_selection_line_strings(), help),
            }
        },
        AppMode::Form(form) => {
            let panel = if form.editing_host_idx().is_some() {
                Panel::EditForm
            } else {
                Panel::AddForm
            };
            let fields = form.fields();
            let selected = form.selected();
            proof {
                assert(form@.current() == fields@[selected as int]@);
            }
            let help = if fields[selected].is_multiline {
                "  ←/→: Move Cursor  │  ↑/↓: Move Line  │  Shift+Enter: New Line  │  Enter: Save  │  Esc: Cancel".to_owned()
            } else {
                "  ←/→: Move Cursor  │  Home/End: Jump  │  Tab/↓: Next  │  Shift+Tab/↑: Prev  │  Enter: Save  │  Esc: Cancel".to_owned()
            };
            (panel, form_line_strings(form), help)
        },
        AppMode::ConfirmDelete { host_name, .. } => (
            Panel::ConfirmDelete,
            confirm_line_strings(i18n, host_name.as_str()),
            i18n.confirm_delete().to_owned(),
        ),
    };
    Screen {
        rows,
        selected_row: state.list_index,
        panel,
        panel_title: panel_title_string(panel),
        panel_lines,
        help,
    }
}

} // verus!
