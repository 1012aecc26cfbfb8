//! The interface as a state machine: the list of profiles, the form that
//! edits one, and the question before one is deleted.
//!
//! A session is driven from outside: it hands each key press to
//! [`AppState::handle_key`] and does what the [`Outcome`] asks for. Nothing
//! here reads a terminal or a clipboard.
use crate::config::{host_views, opt_host_view, Host, HostView};
use crate::cursor::{
    boundary_at_or_before, lemma_boundary_at_or_before, normalize, normalize_pos, step_left_pos,
    step_right_pos, vertical_pos, Direction,
};
use crate::form::{
    add_form, edit_form, form_step, host_of_fields, lemma_default_port_text,
    lemma_form_step_keeps_cursors, lemma_new_forms_are_sound, text_or_empty, FormState, FormStep,
    FormStepView, FormView, FIELD_COUNT,
};
use crate::i18n::{clipboard_parse_error_text, invalid_host_format_text, I18n};
use crate::input::{Key, KeyPress};
use crate::parser::{
    first_at_sign, is_flag, is_port_pair, lemma_first_at_sign, lemma_parsed_host_is_complete,
    lemma_word_at, parse_ssh_text, parse_words, split_words, target_from, words, words_from,
    DEFAULT_PORT,
};
use crate::text::{
    chars_of, decimal_text, is_digit, is_space, lemma_decimal_text_digits,
    lemma_decimal_text_parses, lemma_split_at_boundary, parse_u16, push_decimal, split_text,
    text_before, with_char_inserted, with_range_removed,
};
use vstd::prelude::*;
use vstd::string::*;
use vstd::utf8::*;

verus! {

/// What a session ends with, or reports.
#[derive(Debug)]
pub enum Action {
    Connect(Host),
    Add(Host),
    Edit(usize, Host),
    Delete(usize),
    Copy,
    Quit,
}

/// An action, as plain values.
pub enum ActionView {
    Connect(HostView),
    Add(HostView),
    Edit(usize, HostView),
    Delete(usize),
    Copy,
    Quit,
}

impl View for Action {
    type V = ActionView;

    open spec fn view(&self) -> ActionView {
        match *self {
            Action::Connect(h) => ActionView::Connect(h@),
            Action::Add(h) => ActionView::Add(h@),
            Action::Edit(i, h) => ActionView::Edit(i, h@),
            Action::Delete(i) => ActionView::Delete(i),
            Action::Copy => ActionView::Copy,
            Action::Quit => ActionView::Quit,
        }
    }
}

/// The functions of the interface that stand alone.
pub struct Ui;

/// One line of the form: a label, the text typed so far and the cursor in
/// it, as a byte offset.
#[derive(Debug)]
pub struct FormField {
    pub label: String,
    pub value: String,
    pub cursor_pos: usize,
    pub is_multiline: bool,
}

/// A field of the form, as plain values.
pub struct FieldView {
    pub label: Seq<char>,
    pub value: Seq<char>,
    pub cursor_pos: int,
    pub is_multiline: bool,
}

impl View for FormField {
    type V = FieldView;

    open spec fn view(&self) -> FieldView {
        FieldView {
            label: self.label@,
            value: self.value@,
            cursor_pos: self.cursor_pos as int,
            is_multiline: self.is_multiline,
        }
    }
}

impl FieldView {
    /// The bytes of the text.
    pub open spec fn bytes(self) -> Seq<u8> {
        encode_utf8(self.value)
    }

    /// The cursor is valid: it lies in the text, on a character boundary.
    pub open spec fn cursor_on_boundary(self) -> bool {
        is_char_boundary(self.bytes(), self.cursor_pos)
    }

    /// The field with the cursor at `pos`.
    pub open spec fn with_cursor(self, pos: int) -> FieldView {
        FieldView { cursor_pos: pos, ..self }
    }

    /// The field with its cursor brought onto the text.
    pub open spec fn normalized(self) -> FieldView {
        self.with_cursor(normalize_pos(self.bytes(), self.cursor_pos))
    }

    /// The field with the cursor one character to the left.
    pub open spec fn moved_left(self) -> FieldView {
        self.with_cursor(step_left_pos(self.bytes(), self.cursor_pos))
    }

    /// The field with the cursor one character to the right.
    pub open spec fn moved_right(self) -> FieldView {
        self.with_cursor(step_right_pos(self.bytes(), self.cursor_pos))
    }

    /// The field with the cursor one line up or down.
    pub open spec fn moved_vertically(self, direction: Direction) -> FieldView {
        self.with_cursor(vertical_pos(self.bytes(), self.cursor_pos, direction))
    }

    /// The field with the cursor at the start of its text.
    pub open spec fn moved_home(self) -> FieldView {
        self.with_cursor(0)
    }

    /// The field with the cursor at the end of its text.
    pub open spec fn moved_end(self) -> FieldView {
        self.with_cursor(self.bytes().len() as int)
    }

    /// The field after `c` was typed: `c` stands where the cursor was, and
    /// the cursor stands behind it.
    pub open spec fn with_insert(self, c: char) -> FieldView {
        FieldView {
            value: with_char_inserted(self.value, self.cursor_pos, c),
            cursor_pos: self.cursor_pos + encode_scalar(c as u32).len(),
            ..self
        }
    }

    /// The field after Backspace: the character that ended at the cursor is
    /// gone, and the cursor stands where it began. At the start nothing
    /// changes.
    pub open spec fn with_backspace(self) -> FieldView {
        if self.cursor_pos > 0 {
            let start = step_left_pos(self.bytes(), self.cursor_pos);
            FieldView {
                value: with_range_removed(self.value, start, self.cursor_pos),
                cursor_pos: start,
                ..self
            }
        } else {
            self
        }
    }

    /// The field after Delete: the character that began at the cursor is
    /// gone, and the cursor has not moved. At the end nothing changes.
    pub open spec fn with_delete(self) -> FieldView {
        if self.cursor_pos < self.bytes().len() {
            let end = step_right_pos(self.bytes(), self.cursor_pos);
            FieldView { value: with_range_removed(self.value, self.cursor_pos, end), ..self }
        } else {
            self
        }
    }
}

/// A field with the cursor at the end of its text.
pub open spec fn field_at_end(label: Seq<char>, value: Seq<char>, is_multiline: bool) -> FieldView {
    FieldView { label, value, cursor_pos: encode_utf8(value).len() as int, is_multiline }
}

/// The fields of a list, as plain values.
pub open spec fn field_views(fields: Seq<FormField>) -> Seq<FieldView> {
    fields.map_values(|f: FormField| f@)
}

impl FormField {
    /// A field with the cursor at the end of its text.
    pub fn at_end(label: &str, value: String, is_multiline: bool) -> (r: FormField)
        ensures
            r@ == field_at_end(label@, value@, is_multiline),
    {
        let cursor_pos = value.as_str().as_bytes().len();
        FormField { label: label.to_owned(), value, cursor_pos, is_multiline }
    }
}

impl Ui {
    /// Brings the cursor of a field onto its text: a cursor beyond the end
    /// goes to the end, a cursor inside a character goes to the end of that
    /// character. Nothing else changes.
    pub fn normalize_cursor_pos(field: &mut FormField)
        ensures
            final(field)@ == old(field)@.normalized(),
            final(field)@.cursor_on_boundary(),
            final(field).cursor_pos <= encode_utf8(old(field).value@).len(),
    {
        let pos = normalize(field.value.as_str(), field.cursor_pos);
        field.cursor_pos = pos;
    }

    /// The profile that the fields of a form describe.
    pub fn create_host_from_fields(fields: &[FormField]) -> (r: Host)
        requires
            fields@.len() >= FIELD_COUNT,
        ensures
            r@ == host_of_fields(field_views(fields@)),
    {
        let port_text = chars_of(fields[3].value.as_str());
        let port = match parse_u16(&port_text) {
            Some(p) => p,
            None => DEFAULT_PORT,
        };
        let password = if fields[4].value.as_str().is_empty() {
            None
        } else {
            Some(fields[4].value.clone())
        };
        let command = if fields[5].value.as_str().is_empty() {
            None
        } else {
            Some(fields[5].value.clone())
        };
        Host {
            name: fields[0].value.clone(),
            user: fields[1].value.clone(),
            host: fields[2].value.clone(),
            port: Some(port),
            password,
            command,
        }
    }

    /// Reads a connection command such as `ssh -p 2222 user@host`. A
    /// profile that is returned has a user and a host, the port of the
    /// command or else 22, and neither password nor command.
    pub fn parse_ssh_command(cmd: &str) -> (r: Option<Host>)
        ensures
            opt_host_view(r) == parse_ssh_text(cmd@),
            r is Some ==> r.unwrap()@.is_complete(),
    {
        let chars = chars_of(cmd);
        let words = split_words(&chars);
        proof {
            if parse_ssh_text(cmd@) is Some {
                lemma_parsed_host_is_complete(cmd@);
            }
        }
        parse_words(&words)
    }
}

/// A text cut down for display to at most `max_len` bytes: a text that fits
/// stays as it is; of a longer one the characters that fit into `max_len - 3`
/// bytes stay, and three dots follow.
pub open spec fn truncated(text: Seq<char>, max_len: int) -> Seq<char> {
    let bytes = encode_utf8(text);
    if bytes.len() <= max_len {
        text
    } else {
        let keep = if max_len >= 3 {
            max_len - 3
        } else {
            0
        };
        text_before(text, boundary_at_or_before(bytes, keep)) + "..."@
    }
}

/// What is left of a text that is cut down is a row of whole characters from
/// its start, in no more bytes than `max_len - 3`; a text that fits is not
/// cut.
pub proof fn lemma_truncated_keeps_whole_characters(text: Seq<char>, max_len: int)
    requires
        0 <= max_len,
    ensures
        encode_utf8(text).len() <= max_len ==> truncated(text, max_len) == text,
        encode_utf8(text).len() > max_len ==> exists|count: int|
            0 <= count <= text.len() && #[trigger] text.take(count) + "..."@ == truncated(
                text,
                max_len,
            ) && encode_utf8(text.take(count)).len() <= max_len,
{
    let bytes = encode_utf8(text);
    if bytes.len() > max_len {
        let keep = if max_len >= 3 {
            max_len - 3
        } else {
            0
        };
        let cut = boundary_at_or_before(bytes, keep);
        encode_utf8_valid_utf8(text);
        lemma_boundary_at_or_before(bytes, keep);
        lemma_split_at_boundary(text, cut);
        let head = text_before(text, cut);
        assert(text.take(head.len() as int) =~= head);
    }
}

/// Cuts a text down for display. The cut never falls inside a character.
pub fn truncate(s: &str, max_len: usize) -> (r: String)
    ensures
        r@ == truncated(s@, max_len as int),
{
    let ghost bytes = encode_utf8(s@);
    let n = s.as_bytes().len();
    if n <= max_len {
        return s.to_owned();
    }
    let keep: usize = if max_len >= 3 {
        max_len - 3
    } else {
        0
    };
    proof {
        encode_utf8_valid_utf8(s@);
        lemma_boundary_at_or_before(bytes, keep as int);
    }
    let mut cut: usize = keep;
    while cut > 0 && !s.is_char_boundary(cut)
        invariant
            bytes == encode_utf8(s@),
            cut <= keep < n == bytes.len(),
            boundary_at_or_before(bytes, cut as int) == boundary_at_or_before(bytes, keep as int),
        decreases cut,
    {
        cut = cut - 1;
    }
    let (head, _) = split_text(s, cut);
    let mut out = head.to_owned();
    out.append("...");
    out
}

/// What the interface is doing.
#[derive(Debug)]
pub enum AppMode {
    /// The list is browsed.
    Normal,
    /// A profile is added or edited.
    Form(FormState),
    /// The profile at `host_idx` is about to be deleted; `host_name` is its
    /// name at the time the question was put.
    ConfirmDelete { host_idx: usize, host_name: String },
}

/// A mode, as plain values.
pub enum ModeView {
    Normal,
    Form(FormView),
    ConfirmDelete { host_idx: usize, host_name: Seq<char> },
}

impl View for AppMode {
    type V = ModeView;

    open spec fn view(&self) -> ModeView {
        match *self {
            AppMode::Normal => ModeView::Normal,
            AppMode::Form(form) => ModeView::Form(form@),
            AppMode::ConfirmDelete { host_idx, host_name } => ModeView::ConfirmDelete {
                host_idx,
                host_name: host_name@,
            },
        }
    }
}

/// Why a session cannot go on.
#[derive(Clone, Copy, Debug, PartialEq, Eq)]
pub enum UiError {
    /// The profile to be pasted lacks a user or a host.
    InvalidHost,
    /// The text on the clipboard is no connection command.
    ClipboardParse,
}

/// What the caller has to do after a key.
#[derive(Debug)]
pub enum Outcome {
    /// Nothing; the session goes on.
    Continue,
    /// Put this text on the system clipboard and report `Action::Copy`; the
    /// session goes on.
    Copied(String),
    /// Read the text of the system clipboard and hand it to
    /// [`AppState::paste_text`]; where it cannot be read, the session goes
    /// on.
    ReadClipboard,
    /// Report this action; the session is over.
    Finish(Action),
    /// Leave the terminal, print the message of this error and end the
    /// program with a failure.
    Fatal(UiError),
}

/// An outcome, as plain values.
pub enum OutcomeView {
    Continue,
    Copied(Seq<char>),
    ReadClipboard,
    Finish(ActionView),
    Fatal(UiError),
}

impl View for Outcome {
    type V = OutcomeView;

    open spec fn view(&self) -> OutcomeView {
        match *self {
            Outcome::Continue => OutcomeView::Continue,
            Outcome::Copied(text) => OutcomeView::Copied(text@),
            Outcome::ReadClipboard => OutcomeView::ReadClipboard,
            Outcome::Finish(action) => OutcomeView::Finish(action@),
            Outcome::Fatal(error) => OutcomeView::Fatal(error),
        }
    }
}

/// The state of a session: the profiles, the one that is selected, the mode,
/// and the profile that was copied last.
#[derive(Debug)]
pub struct AppState {
    pub hosts: Vec<Host>,
    pub list_index: usize,
    pub mode: AppMode,
    pub clipboard: Option<Host>,
}

/// The state of a session, as plain values.
pub struct StateView {
    pub hosts: Seq<HostView>,
    pub list_index: usize,
    pub mode: ModeView,
    pub clipboard: Option<HostView>,
}

impl View for AppState {
    type V = StateView;

    open spec fn view(&self) -> StateView {
        StateView {
            hosts: host_views(self.hosts@),
            list_index: self.list_index,
            mode: self.mode@,
            clipboard: opt_host_view(self.clipboard),
        }
    }
}

/// The command that connects to a profile, as it is put on the clipboard.
pub open spec fn connection_text(host: HostView) -> Seq<char> {
    "ssh -p "@ + decimal_text(host.port_or_default() as nat) + " "@ + host.user + "@"@ + host.host
}

impl StateView {
    /// The profile that is selected; none where the list is empty.
    pub open spec fn selected(self) -> Option<HostView> {
        if self.list_index < self.hosts.len() {
            Some(self.hosts[self.list_index as int])
        } else {
            None
        }
    }

    /// The state with the selection one down; at the last profile it stays.
    pub open spec fn moved_next(self) -> StateView {
        if self.list_index + 1 < self.hosts.len() {
            StateView { list_index: (self.list_index + 1) as usize, ..self }
        } else {
            self
        }
    }

    /// The state with the selection one up; at the first profile it stays.
    pub open spec fn moved_prev(self) -> StateView {
        if self.list_index > 0 {
            StateView { list_index: (self.list_index - 1) as usize, ..self }
        } else {
            self
        }
    }

    /// The state in another mode.
    pub open spec fn with_mode(self, mode: ModeView) -> StateView {
        StateView { mode, ..self }
    }

    /// Enter on the list: connect to the profile that is selected.
    pub open spec fn connect(self) -> (StateView, OutcomeView) {
        match self.selected() {
            Some(host) => (self, OutcomeView::Finish(ActionView::Connect(host))),
            None => (self, OutcomeView::Continue),
        }
    }

    /// `y` on the list: keep a copy of the profile that is selected and hand
    /// out its connection command.
    pub open spec fn copy(self) -> (StateView, OutcomeView) {
        match self.selected() {
            Some(host) => (
                StateView { clipboard: Some(host), ..self },
                OutcomeView::Copied(connection_text(host)),
            ),
            None => (self, OutcomeView::Continue),
        }
    }

    /// `p` on the list: add the profile that was copied, if it has a user
    /// and a host; where none was copied, ask for the system clipboard.
    pub open spec fn paste(self) -> (StateView, OutcomeView) {
        match self.clipboard {
            Some(host) => if host.is_complete() {
                (self, OutcomeView::Finish(ActionView::Add(host)))
            } else {
                (self, OutcomeView::Fatal(UiError::InvalidHost))
            },
            None => (self, OutcomeView::ReadClipboard),
        }
    }

    /// `e` on the list: open the form for the profile that is selected.
    pub open spec fn edit(self) -> (StateView, OutcomeView) {
        match self.selected() {
            Some(host) => (
                self.with_mode(ModeView::Form(edit_form(self.list_index, host))),
                OutcomeView::Continue,
            ),
            None => (self, OutcomeView::Continue),
        }
    }

    /// `d` on the list: ask before the profile that is selected is deleted.
    pub open spec fn ask_delete(self) -> (StateView, OutcomeView) {
        match self.selected() {
            Some(host) => (
                self.with_mode(
                    ModeView::ConfirmDelete { host_idx: self.list_index, host_name: host.name },
                ),
                OutcomeView::Continue,
            ),
            None => (self, OutcomeView::Continue),
        }
    }
}

/// What a key does while the list is browsed.
pub open spec fn normal_step(s: StateView, key: KeyPress) -> (StateView, OutcomeView) {
    match key.code {
        Key::Up => (s.moved_prev(), OutcomeView::Continue),
        Key::Down => (s.moved_next(), OutcomeView::Continue),
        Key::Esc => (s, OutcomeView::Finish(ActionView::Quit)),
        Key::Enter => s.connect(),
        Key::Char(c) => if c == 'k' {
            (s.moved_prev(), OutcomeView::Continue)
        } else if c == 'j' {
            (s.moved_next(), OutcomeView::Continue)
        } else if c == 'q' {
            (s, OutcomeView::Finish(ActionView::Quit))
        } else if c == 'y' {
            s.copy()
        } else if c == 'p' {
            s.paste()
        } else if c == 'a' {
            (s.with_mode(ModeView::Form(add_form())), OutcomeView::Continue)
        } else if c == 'e' {
            s.edit()
        } else if c == 'd' {
            s.ask_delete()
        } else {
            (s, OutcomeView::Continue)
        },
        _ => (s, OutcomeView::Continue),
    }
}

/// What a key does while the question before a deletion is open: `y`
/// deletes the profile that the question was about, `n` and Escape go back
/// to the list.
pub open spec fn confirm_step(s: StateView, host_idx: usize, key: KeyPress) -> (
    StateView,
    OutcomeView,
) {
    match key.code {
        Key::Esc => (s.with_mode(ModeView::Normal), OutcomeView::Continue),
        Key::Char(c) => if c == 'y' {
            (s, OutcomeView::Finish(ActionView::Delete(host_idx)))
        } else if c == 'n' {
            (s.with_mode(ModeView::Normal), OutcomeView::Continue)
        } else {
            (s, OutcomeView::Continue)
        },
        _ => (s, OutcomeView::Continue),
    }
}

/// What a key does while the form is open: the form takes the key; giving
/// it up or committing it leads back to the list.
pub open spec fn form_mode_step(s: StateView, form: FormView, key: KeyPress) -> (
    StateView,
    OutcomeView,
) {
    let (after, step) = form_step(form, key);
    match step {
        FormStepView::Continue => (s.with_mode(ModeView::Form(after)), OutcomeView::Continue),
        FormStepView::Cancel => (s.with_mode(ModeView::Normal), OutcomeView::Continue),
        FormStepView::Submit(action) => (s.with_mode(ModeView::Normal), OutcomeView::Finish(action)),
    }
}

/// The state machine: the state after a key, and what the caller has to do.
/// The interrupt chord ends the session in every mode.
pub open spec fn app_step(s: StateView, key: KeyPress) -> (StateView, OutcomeView) {
    if key.is_interrupt() {
        (s, OutcomeView::Finish(ActionView::Quit))
    } else {
        match s.mode {
            ModeView::Normal => normal_step(s, key),
            ModeView::Form(form) => form_mode_step(s, form, key),
            ModeView::ConfirmDelete { host_idx, host_name } => confirm_step(s, host_idx, key),
        }
    }
}

/// What the text of the system clipboard does: a connection command adds
/// its profile, which is also kept as the profile copied last; any other
/// text ends the program.
pub open spec fn paste_step(s: StateView, text: Seq<char>) -> (StateView, OutcomeView) {
    match parse_ssh_text(text) {
        Some(host) => (
            StateView { clipboard: Some(host), ..s },
            OutcomeView::Finish(ActionView::Add(host)),
        ),
        None => (s, OutcomeView::Fatal(UiError::ClipboardParse)),
    }
}

/// The command that connects to a profile, as it is put on the clipboard.
pub fn connection_string(host: &Host) -> (r: String)
    ensures
        r@ == connection_text(host@),
{
    let mut out = "ssh -p ".to_owned();
    push_decimal(&mut out, host.port_or_default() as u128);
    out.append(" ");
    out.append(host.user.as_str());
    out.append("@");
    out.append(host.host.as_str());
    out
}

impl UiError {
    /// The message that is printed for this error.
    pub fn message<'a>(&self, i18n: &'a I18n) -> (r: &'a str)
        ensures
            r@ == (match *self {
                UiError::InvalidHost => invalid_host_format_text(i18n.is_chinese),
                UiError::ClipboardParse => clipboard_parse_error_text(i18n.is_chinese),
            }),
    {
        match self {
            UiError::InvalidHost => i18n.invalid_host_format(),
            UiError::ClipboardParse => i18n.clipboard_parse_error(),
        }
    }
}

impl AppState {
    /// A session over these profiles: the first is selected, the list is
    /// browsed, nothing has been copied.
    pub fn new(hosts: Vec<Host>) -> (r: Self)
        ensures
            r@ == (StateView {
                hosts: host_views(hosts@),
                list_index: 0,
                mode: ModeView::Normal,
                clipboard: None,
            }),
    {
        Self { hosts, list_index: 0, mode: AppMode::Normal, clipboard: None }
    }

    /// The profile that is selected; none where the list is empty.
    pub fn selected_host(&self) -> (r: Option<&Host>)
        ensures
            match r {
                Some(host) => self@.selected() == Some(host@),
                None => self@.selected() is None,
            },
    {
        if self.list_index < self.hosts.len() {
            Some(&self.hosts[self.list_index])
        } else {
            None
        }
    }

    /// Moves the selection one down; at the last profile it stays.
    pub fn move_next(&mut self)
        ensures
            final(self)@ == old(self)@.moved_next(),
    {
        if self.hosts.len() > 0 && self.list_index < self.hosts.len() - 1 {
            self.list_index = self.list_index + 1;
        }
    }

    /// Moves the selection one up; at the first profile it stays.
    pub fn move_prev(&mut self)
        ensures
            final(self)@ == old(self)@.moved_prev(),
    {
        if self.list_index > 0 {
            self.list_index = self.list_index - 1;
        }
    }

    /// Applies a key while the list is browsed.
    fn handle_normal_key(&mut self, key: KeyPress) -> (r: Outcome)
        requires
            old(self)@.mode == ModeView::Normal,
        ensures
            final(self)@ == normal_step(old(self)@, key).0,
            r@ == normal_step(old(self)@, key).1,
    {
        match key.code {
            Key::Up => {
                self.move_prev();
                Outcome::Continue
            },
            Key::Down => {
                self.move_next();
                Outcome::Continue
            },
            Key::Esc => Outcome::Finish(Action::Quit),
            Key::Enter => {
                match self.selected_host() {
                    Some(host) => Outcome::Finish(Action::Connect(host.clone())),
                    None => Outcome::Continue,
                }
            },
            Key::Char(c) => {
                if c == 'k' {
                    self.move_prev();
                    Outcome::Continue
                } else if c == 'j' {
                    self.move_next();
                    Outcome::Continue
                } else if c == 'q' {
                    Outcome::Finish(Action::Quit)
                } else if c == 'y' {
                    let copied = match self.selected_host() {
                        Some(host) => Some((host.clone(), connection_string(host))),
                        None => None,
                    };
                    match copied {
                        Some((host, text)) => {
                            self.clipboard = Some(host);
                            Outcome::Copied(text)
                        },
                        None => Outcome::Continue,
                    }
                } else if c == 'p' {
                    match &self.clipboard {
                        Some(host) => {
                            if host.is_complete() {
                                Outcome::Finish(Action::Add(host.clone()))
                            } else {
                                Outcome::Fatal(UiError::InvalidHost)
                            }
                        },
                        None => Outcome::ReadClipboard,
                    }
                } else if c == 'a' {
                    self.mode = AppMode::Form(FormState::for_add());
                    Outcome::Continue
                } else if c == 'e' {
                    let form = match self.selected_host() {
                        Some(host) => Some(FormState::for_edit(self.list_index, host)),
                        None => None,
                    };
                    match form {
                        Some(form) => {
                            self.mode = AppMode::Form(form);
                        },
                        None => {},
                    }
                    Outcome::Continue
                } else if c == 'd' {
                    let name = match self.selected_host() {
                        Some(host) => Some(host.name.clone()),
                        None => None,
                    };
                    match name {
                        Some(host_name) => {
                            self.mode = AppMode::ConfirmDelete {
                                host_idx: self.list_index,
                                host_name,
                            };
                        },
                        None => {},
                    }
                    Outcome::Continue
                } else {
                    Outcome::Continue
                }
            },
            _ => Outcome::Continue,
        }
    }

    /// Applies a key while the question before a deletion is open.
    fn handle_confirm_key(&mut self, host_idx: usize, key: KeyPress) -> (r: Outcome)
        ensures
            final(self)@ == confirm_step(old(self)@, host_idx, key).0,
            r@ == confirm_step(old(self)@, host_idx, key).1,
    {
        match key.code {
            Key::Esc => {
                self.mode = AppMode::Normal;
                Outcome::Continue
            },
            Key::Char(c) => {
                if c == 'y' {
                    Outcome::Finish(Action::Delete(host_idx))
                } else if c == 'n' {
                    self.mode = AppMode::Normal;
                    Outcome::Continue
                } else {
                    Outcome::Continue
                }
            },
            _ => Outcome::Continue,
        }
    }

    /// Applies a key to the session and says what the caller has to do.
    pub fn handle_key(&mut self, key: KeyPress) -> (r: Outcome)
        ensures
            final(self)@ == app_step(old(self)@, key).0,
            r@ == app_step(old(self)@, key).1,
    {
        if key.interrupts() {
            return Outcome::Finish(Action::Quit);
        }
        let step = match &mut self.mode {
            AppMode::Normal => None,
            AppMode::Form(form) => Some(form.handle_key(key)),
            AppMode::ConfirmDelete { host_idx, .. } => {
                let host_idx = *host_idx;
                return self.handle_confirm_key(host_idx, key);
            },
        };
        match step {
            None => self.handle_normal_key(key),
            Some(FormStep::Continue) => Outcome::Continue,
            Some(FormStep::Cancel) => {
                self.mode = AppMode::Normal;
                Outcome::Continue
            },
            Some(FormStep::Submit(action)) => {
                self.mode = AppMode::Normal;
                Outcome::Finish(action)
            },
        }
    }

    /// Takes the text that was read from the system clipboard after
    /// [`Outcome::ReadClipboard`].
    pub fn paste_text(&mut self, text: &str) -> (r: Outcome)
        ensures
            final(self)@ == paste_step(old(self)@, text@).0,
            r@ == paste_step(old(self)@, text@).1,
    {
        match Ui::parse_ssh_command(text) {
            Some(host) => {
                self.clipboard = Some(host.clone());
                Outcome::Finish(Action::Add(host))
            },
            None => Outcome::Fatal(UiError::ClipboardParse),
        }
    }
}


impl StateView {
    /// Where there are profiles, one of them is selected.
    pub open spec fn selection_in_list(self) -> bool {
        self.hosts.len() > 0 ==> self.list_index < self.hosts.len()
    }

    /// An open form has six fields, one of them selected, and every cursor
    /// on a character boundary.
    pub open spec fn form_is_sound(self) -> bool {
        match self.mode {
            ModeView::Form(form) => form.wf() && form.cursors_on_boundaries(),
            _ => true,
        }
    }
}

/// What `y` puts on the clipboard, `p` reads back: for a profile whose user
/// and host are not empty and hold neither white space nor `@`, and whose
/// user does not begin with `-`, the connection command parses to a profile
/// with the same user, host and port, named `user@host`, without password
/// and command.
pub proof fn lemma_connection_text_parses(host: HostView)
    requires
        host.user.len() > 0,
        host.host.len() > 0,
        host.user[0] != '-',
        forall|i: int| 0 <= i < host.user.len() ==> !is_space(#[trigger] host.user[i]) && host.user[i] != '@',
        forall|i: int| 0 <= i < host.host.len() ==> !is_space(#[trigger] host.host[i]) && host.host[i] != '@',
    ensures
        parse_ssh_text(connection_text(host)) == Some(
            HostView {
                name: host.user + seq!['@'] + host.host,
                user: host.user,
                host: host.host,
                port: Some(host.port_or_default()),
                password: None,
                command: None,
            },
        ),
{
    reveal_strlit("ssh -p ");
    reveal_strlit("ssh");
    reveal_strlit("-p");
    reveal_strlit(" ");
    reveal_strlit("@");
    let port = host.port_or_default();
    let digits = decimal_text(port as nat);
    let target = host.user + seq!['@'] + host.host;
    let line = connection_text(host);
    let ssh = "ssh"@;
    let dash_p = "-p"@;
    lemma_decimal_text_digits(port as nat);
    lemma_decimal_text_parses(port);
    let d = digits.len() as int;
    let t = target.len() as int;
    assert(ssh =~= seq!['s', 's', 'h']);
    assert(dash_p =~= seq!['-', 'p']);
    assert(line =~= seq!['s', 's', 'h', ' ', '-', 'p', ' '] + digits + seq![' '] + target);
    assert(line.len() == 8 + d + t);
    assert(line.subrange(0, 3) =~= ssh);
    assert(line.subrange(4, 6) =~= dash_p);
    assert(line.subrange(7, 7 + d) =~= digits);
    assert(line.subrange(8 + d, 8 + d + t) =~= target);
    assert forall|k: int| 0 <= k < d implies !is_space(#[trigger] digits[k]) by {
        assert(is_digit(digits[k]));
    }
    assert forall|k: int| 0 <= k < t implies !is_space(#[trigger] target[k]) by {
        if k < host.user.len() {
            assert(target[k] == host.user[k]);
        } else if k > host.user.len() {
            assert(target[k] == host.host[k - host.user.len() - 1]);
        }
    }
    lemma_word_at(line, 0, ssh);
    lemma_word_at(line, 4, dash_p);
    lemma_word_at(line, 7, digits);
    lemma_word_at(line, 8 + d, target);
    assert(is_space(line[3]) && is_space(line[6]) && is_space(line[7 + d]));
    let ws = words(line);
    assert(words_from(line, 8 + d + t) =~= Seq::<Seq<char>>::empty());
    assert(ws =~= seq![ssh, dash_p, digits, target]);
    assert(is_port_pair(ws, 1));
    assert(target[0] == host.user[0]);
    assert(!is_flag(target));
    assert(target_from(ws, 3, port) == Some((target, port)));
    assert(target_from(ws, 1, DEFAULT_PORT) == Some((target, port)));
    let at = host.user.len() as int;
    assert(first_at_sign(target, 0) == at) by {
        lemma_first_at_sign(target, 0);
        assert(target[at] == '@');
        assert forall|k: int| 0 <= k < at implies target[k] != '@' by {
            assert(target[k] == host.user[k]);
        }
    }
    assert(first_at_sign(target, at + 1) >= t) by {
        lemma_first_at_sign(target, at + 1);
        assert forall|k: int| at + 1 <= k < t implies target[k] != '@' by {
            assert(target[k] == host.host[k - at - 1]);
        }
    }
    assert(target.subrange(0, at) =~= host.user);
    assert(target.subrange(at + 1, t) =~= host.host);
}

/// Whatever the key, the list of profiles stays as it is, a selection that
/// was inside the list stays inside it, and a form that was sound stays
/// sound.
pub proof fn lemma_app_step_keeps_state_sound(s: StateView, key: KeyPress)
    ensures
        app_step(s, key).0.hosts == s.hosts,
        s.selection_in_list() ==> app_step(s, key).0.selection_in_list(),
        s.form_is_sound() ==> app_step(s, key).0.form_is_sound(),
{
    if !key.is_interrupt() {
        match s.mode {
            ModeView::Normal => {
                if s.list_index < s.hosts.len() {
                    lemma_new_forms_are_sound(s.list_index, s.hosts[s.list_index as int]);
                } else {
                    lemma_new_forms_are_sound(0, arbitrary());
                }
            },
            ModeView::Form(form) => {
                if form.wf() {
                    lemma_form_step_keeps_cursors(form, key);
                }
            },
            ModeView::ConfirmDelete { host_idx, host_name } => {},
        }
    }
}

/// In a list of profiles the keys Down and `j` move the selection one down
/// and stop at the last profile; Up and `k` move it one up and stop at the
/// first. Nothing else changes, and the session goes on.
pub proof fn lemma_list_navigation(s: StateView, key: KeyPress)
    requires
        s.mode == ModeView::Normal,
        s.hosts.len() <= usize::MAX,
        !key.is_interrupt(),
    ensures
        key.code == Key::Down || key.code == Key::Char('j') ==> app_step(s, key) == (
            s.moved_next(),
            OutcomeView::Continue,
        ),
        key.code == Key::Up || key.code == Key::Char('k') ==> app_step(s, key) == (
            s.moved_prev(),
            OutcomeView::Continue,
        ),
        s.list_index + 1 < s.hosts.len() ==> s.moved_next().list_index == s.list_index + 1,
        s.list_index + 1 >= s.hosts.len() ==> s.moved_next().list_index == s.list_index,
        s.list_index > 0 ==> s.moved_prev().list_index == s.list_index - 1,
        s.list_index == 0 ==> s.moved_prev().list_index == 0,
{
}

/// From the list, `a` opens the form for a new profile: six fields, all
/// empty but the port, which holds `22` with the cursor behind it; the first
/// field is selected and no profile is being edited.
pub proof fn lemma_add_opens_empty_form(s: StateView, key: KeyPress)
    requires
        s.mode == ModeView::Normal,
        key.code == Key::Char('a'),
    ensures
        app_step(s, key) == (s.with_mode(ModeView::Form(add_form())), OutcomeView::Continue),
        add_form().fields.len() == 6,
        add_form().selected == 0,
        add_form().editing_host_idx is None,
        add_form().fields[3].label == "Port"@,
        add_form().fields[3].value == "22"@,
        add_form().fields[3].cursor_pos == 2,
        forall|i: int|
            0 <= i < 6 && i != 3 ==> (#[trigger] add_form().fields[i]).value.len() == 0
                && add_form().fields[i].cursor_pos == 0,
        forall|i: int| 0 <= i < 6 ==> (#[trigger] add_form().fields[i]).is_multiline == (i == 5),
        host_of_fields(add_form().fields).port == Some(DEFAULT_PORT),
{
    lemma_default_port_text();
    let e = Seq::<char>::empty();
    assert(encode_utf8(e).len() == 0);
}

/// From the list, `e` on the profile `i` opens the form for it: the six
/// fields hold its name, user, host, port (22 where it has none), password
/// and command (empty where it has none), each cursor stands at the end of
/// its field, and the form remembers `i`. Committing the form at once gives
/// the profile back for the place `i`, with the port written out.
pub proof fn lemma_edit_opens_filled_form(s: StateView, key: KeyPress)
    requires
        s.mode == ModeView::Normal,
        key.code == Key::Char('e'),
        s.list_index < s.hosts.len(),
    ensures
        ({
            let host = s.hosts[s.list_index as int];
            let form = edit_form(s.list_index, host);
            &&& app_step(s, key) == (s.with_mode(ModeView::Form(form)), OutcomeView::Continue)
            &&& form.fields.len() == 6
            &&& form.editing_host_idx == Some(s.list_index)
            &&& form.fields[0].value == host.name
            &&& form.fields[1].value == host.user
            &&& form.fields[2].value == host.host
            &&& form.fields[3].value == decimal_text(host.port_or_default() as nat)
            &&& form.fields[4].value == text_or_empty(host.password)
            &&& form.fields[5].value == text_or_empty(host.command)
            &&& forall|i: int|
                0 <= i < 6 ==> (#[trigger] form.fields[i]).cursor_pos == encode_utf8(
                    form.fields[i].value,
                ).len()
            &&& host_of_fields(form.fields).name == host.name
            &&& host_of_fields(form.fields).user == host.user
            &&& host_of_fields(form.fields).host == host.host
            &&& host_of_fields(form.fields).port == Some(host.port_or_default())
        }),
{
    let host = s.hosts[s.list_index as int];
    lemma_decimal_text_parses(host.port_or_default());
}

/// While the question before a deletion is open, `n` and Escape lead back
/// to the list and change nothing else: the profiles, the selection and the
/// copied profile stay as they are, and the session goes on. `y` ends the
/// session with the deletion of the profile that the question was opened
/// for, and leaves the state as it is.
pub proof fn lemma_confirm_delete(s: StateView, key: KeyPress)
    requires
        s.mode is ConfirmDelete,
        !key.is_interrupt(),
    ensures
        key.code == Key::Char('n') || key.code == Key::Esc ==> app_step(s, key) == (
            s.with_mode(ModeView::Normal),
            OutcomeView::Continue,
        ),
        key.code == Key::Char('y') ==> app_step(s, key) == (
            s,
            OutcomeView::Finish(ActionView::Delete(s.mode->host_idx)),
        ),
        s.with_mode(ModeView::Normal).hosts == s.hosts,
        s.with_mode(ModeView::Normal).list_index == s.list_index,
        s.with_mode(ModeView::Normal).clipboard == s.clipboard,
{
}

/// From the list, `d` on the profile `i` opens the question with `i` and
/// the name of that profile; `y` then asks for the deletion of `i`.
pub proof fn lemma_delete_names_selected(s: StateView, d: KeyPress, y: KeyPress)
    requires
        s.mode == ModeView::Normal,
        s.list_index < s.hosts.len(),
        d.code == Key::Char('d'),
        y.code == Key::Char('y'),
    ensures
        app_step(s, d) == (
            s.with_mode(
                ModeView::ConfirmDelete {
                    host_idx: s.list_index,
                    host_name: s.hosts[s.list_index as int].name,
                },
            ),
            OutcomeView::Continue,
        ),
        app_step(app_step(s, d).0, y).1 == OutcomeView::Finish(ActionView::Delete(s.list_index)),
        app_step(app_step(s, d).0, y).0.hosts == s.hosts,
{
}

} // verus!
