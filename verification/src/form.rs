//! The form that adds or edits a profile: six fields of text, one of them
//! selected, and what each key does to them.
use crate::config::{Host, HostView};
use crate::cursor::{
    lemma_boundary_at_or_before, lemma_normalize_idempotent, lemma_step_left, lemma_step_right,
    lemma_vertical_pos_is_boundary, normalize, step_left, step_left_pos, step_right,
    step_right_pos, vertical_step, Direction,
};
use crate::input::{Key, KeyPress};
use crate::parser::DEFAULT_PORT;
use crate::text::{
    decimal_string, decimal_text, digits_value, insert_char, lemma_decimal_text_parses,
    lemma_encode_single, lemma_insert_char, lemma_inserted_char_is_whole, lemma_remove_range,
    lemma_split_at_boundary, parse_u16_text, remove_range,
};
use crate::ui::{field_at_end, field_views, Action, ActionView, FieldView, FormField, Ui};
use vstd::prelude::*;
use vstd::utf8::*;

verus! {

/// The number of fields of the form.
pub const FIELD_COUNT: usize = 6;

/// The text of an optional text; nothing for none.
pub open spec fn text_or_empty(t: Option<Seq<char>>) -> Seq<char> {
    match t {
        Some(s) => s,
        None => Seq::empty(),
    }
}

/// A text that is not empty; none for the empty text.
pub open spec fn nonempty_text(t: Seq<char>) -> Option<Seq<char>> {
    if t.len() == 0 {
        None
    } else {
        Some(t)
    }
}

/// The profile that the fields of a form describe: name, user, host, port,
/// password and command in this order. A port that cannot be read is 22; an
/// empty password or command is none.
pub open spec fn host_of_fields(fields: Seq<FieldView>) -> HostView {
    HostView {
        name: fields[0].value,
        user: fields[1].value,
        host: fields[2].value,
        port: Some(
            match parse_u16_text(fields[3].value) {
                Some(p) => p,
                None => DEFAULT_PORT,
            },
        ),
        password: nonempty_text(fields[4].value),
        command: nonempty_text(fields[5].value),
    }
}

/// The form, as plain values.
pub struct FormView {
    pub fields: Seq<FieldView>,
    pub selected: int,
    pub editing_host_idx: Option<usize>,
}

/// What a key did to the form.
pub enum FormStepView {
    /// The form stays open.
    Continue,
    /// The form was given up.
    Cancel,
    /// The form was committed; the action carries the profile.
    Submit(ActionView),
}

impl FormView {
    /// Six fields, one of them selected.
    pub open spec fn wf(self) -> bool {
        self.fields.len() == FIELD_COUNT && 0 <= self.selected < FIELD_COUNT
    }

    /// The field that is selected.
    pub open spec fn current(self) -> FieldView {
        self.fields[self.selected]
    }

    /// The form with another value for the selected field.
    pub open spec fn with_current(self, field: FieldView) -> FormView {
        FormView { fields: self.fields.update(self.selected, field), ..self }
    }

    /// The form with the field `index` selected and its cursor brought onto
    /// its text.
    pub open spec fn with_selected(self, index: int) -> FormView {
        FormView {
            fields: self.fields.update(index, self.fields[index].normalized()),
            selected: index,
            ..self
        }
    }

    /// The form with the next field selected; after the last comes the
    /// first.
    pub open spec fn next_selected(self) -> FormView {
        self.with_selected((self.selected + 1) % (FIELD_COUNT as int))
    }

    /// The form with the field before selected; before the first comes the
    /// last.
    pub open spec fn previous_selected(self) -> FormView {
        self.with_selected((self.selected + FIELD_COUNT - 1) % (FIELD_COUNT as int))
    }

    /// The action that committing the form gives: the profile replaces the
    /// one that is edited, or is added.
    pub open spec fn commit_action(self) -> ActionView {
        match self.editing_host_idx {
            Some(index) => ActionView::Edit(index, host_of_fields(self.fields)),
            None => ActionView::Add(host_of_fields(self.fields)),
        }
    }
}

/// The empty form for a new profile: the port is 22, with the cursor behind
/// it.
pub open spec fn add_form() -> FormView {
    FormView {
        fields: seq![
            field_at_end("Name"@, Seq::empty(), false),
            field_at_end("User"@, Seq::empty(), false),
            field_at_end("Host"@, Seq::empty(), false),
            field_at_end("Port"@, "22"@, false),
            field_at_end("Password"@, Seq::empty(), false),
            field_at_end("Command"@, Seq::empty(), true),
        ],
        selected: 0,
        editing_host_idx: None,
    }
}

/// The form for the profile `host`, which stands at `index` in the list:
/// each field holds what the profile holds, with the cursor at its end.
pub open spec fn edit_form(index: usize, host: HostView) -> FormView {
    FormView {
        fields: seq![
            field_at_end("Name"@, host.name, false),
            field_at_end("User"@, host.user, false),
            field_at_end("Host"@, host.host, false),
            field_at_end("Port"@, decimal_text(host.port_or_default() as nat), false),
            field_at_end("Password"@, text_or_empty(host.password), false),
            field_at_end("Command"@, text_or_empty(host.command), true),
        ],
        selected: 0,
        editing_host_idx: Some(index),
    }
}

/// What a key does to the form. The cursor of the selected field is brought
/// onto its text before anything else.
pub open spec fn form_step(form: FormView, key: KeyPress) -> (FormView, FormStepView) {
    let f = form.with_selected(form.selected);
    let field = f.current();
    match key.code {
        Key::Tab => (f.next_selected(), FormStepView::Continue),
        Key::BackTab => (f.previous_selected(), FormStepView::Continue),
        Key::Up => if field.is_multiline {
            (f.with_current(field.moved_vertically(Direction::Up)), FormStepView::Continue)
        } else {
            (f.previous_selected(), FormStepView::Continue)
        },
        Key::Down => if field.is_multiline {
            (f.with_current(field.moved_vertically(Direction::Down)), FormStepView::Continue)
        } else {
            (f.next_selected(), FormStepView::Continue)
        },
        Key::Left => (f.with_current(field.moved_left()), FormStepView::Continue),
        Key::Right => (f.with_current(field.moved_right()), FormStepView::Continue),
        Key::Home => (f.with_current(field.moved_home()), FormStepView::Continue),
        Key::End => (f.with_current(field.moved_end()), FormStepView::Continue),
        Key::Enter => if field.is_multiline && key.shift {
            (f.with_current(field.with_insert('\n')), FormStepView::Continue)
        } else {
            (f, FormStepView::Submit(f.commit_action()))
        },
        Key::Esc => (f, FormStepView::Cancel),
        Key::Backspace => (f.with_current(field.with_backspace()), FormStepView::Continue),
        Key::Delete => (f.with_current(field.with_delete()), FormStepView::Continue),
        Key::Char(c) => (f.with_current(field.with_insert(c)), FormStepView::Continue),
        Key::Other => (f, FormStepView::Continue),
    }
}

/// What a key did to the form.
#[derive(Debug)]
pub enum FormStep {
    /// The form stays open.
    Continue,
    /// The form was given up.
    Cancel,
    /// The form was committed; the action carries the profile.
    Submit(Action),
}

impl View for FormStep {
    type V = FormStepView;

    open spec fn view(&self) -> FormStepView {
        match *self {
            FormStep::Continue => FormStepView::Continue,
            FormStep::Cancel => FormStepView::Cancel,
            FormStep::Submit(a) => FormStepView::Submit(a@),
        }
    }
}

/// The form that adds or edits a profile: six fields, one of them selected.
#[derive(Debug)]
pub struct FormState {
    fields: Vec<FormField>,
    selected: usize,
    editing_host_idx: Option<usize>,
}

impl View for FormState {
    type V = FormView;

    closed spec fn view(&self) -> FormView {
        FormView {
            fields: field_views(self.fields@),
            selected: self.selected as int,
            editing_host_idx: self.editing_host_idx,
        }
    }
}

impl FormState {
    #[verifier::type_invariant]
    spec fn inv(&self) -> bool {
        self.fields@.len() == FIELD_COUNT && self.selected < FIELD_COUNT
    }

    /// The empty form for a new profile.
    pub fn for_add() -> (r: FormState)
        ensures
            r@ == add_form(),
            r@.wf(),
    {
        let mut fields: Vec<FormField> = Vec::new();
        fields.push(FormField::at_end("Name", String::new(), false));
        fields.push(FormField::at_end("User", String::new(), false));
        fields.push(FormField::at_end("Host", String::new(), false));
        fields.push(FormField::at_end("Port", "22".to_owned(), false));
        fields.push(FormField::at_end("Password", String::new(), false));
        fields.push(FormField::at_end("Command", String::new(), true));
        proof {
            assert(field_views(fields@) =~= add_form().fields);
        }
        FormState { fields, selected: 0, editing_host_idx: None }
    }

    /// The form for the profile `host`, which stands at `index` in the list.
    pub fn for_edit(index: usize, host: &Host) -> (r: FormState)
        ensures
            r@ == edit_form(index, host@),
            r@.wf(),
    {
        let password = match &host.password {
            Some(p) => p.clone(),
            None => String::new(),
        };
        let command = match &host.command {
            Some(c) => c.clone(),
            None => String::new(),
        };
        let mut fields: Vec<FormField> = Vec::new();
        fields.push(FormField::at_end("Name", host.name.clone(), false));
        fields.push(FormField::at_end("User", host.user.clone(), false));
        fields.push(FormField::at_end("Host", host.host.clone(), false));
        fields.push(FormField::at_end("Port", decimal_string(host.port_or_default() as u128), false));
        fields.push(FormField::at_end("Password", password, false));
        fields.push(FormField::at_end("Command", command, true));
        proof {
            assert(field_views(fields@) =~= edit_form(index, host@).fields);
        }
        FormState { fields, selected: 0, editing_host_idx: Some(index) }
    }

    /// The fields, in order.
    pub fn fields(&self) -> (r: &Vec<FormField>)
        ensures
            field_views(r@) == self@.fields,
            r@.len() == FIELD_COUNT,
    {
        proof {
            use_type_invariant(self);
        }
        &self.fields
    }

    /// The index of the field that is selected.
    pub fn selected(&self) -> (r: usize)
        ensures
            r == self@.selected,
            r < FIELD_COUNT,
    {
        proof {
            use_type_invariant(self);
        }
        self.selected
    }

    /// The index of the profile that is edited; none where one is added.
    pub fn editing_host_idx(&self) -> (r: Option<usize>)
        ensures
            r == self@.editing_host_idx,
    {
        self.editing_host_idx
    }
}


impl FormState {
    /// The field that is selected.
    fn field(&self) -> (r: &FormField)
        ensures
            r@ == self@.current(),
    {
        proof {
            use_type_invariant(self);
        }
        &self.fields[self.selected]
    }

    /// Selects the field `index` and brings its cursor onto its text.
    fn select(&mut self, index: usize)
        requires
            index < FIELD_COUNT,
        ensures
            final(self)@ == old(self)@.with_selected(index as int),
            final(self)@.current().cursor_on_boundary(),
    {
        proof {
            use_type_invariant(&*self);
        }
        let pos = normalize(self.fields[index].value.as_str(), self.fields[index].cursor_pos);
        self.fields[index].cursor_pos = pos;
        self.selected = index;
        proof {
            assert(field_views(self.fields@) =~= old(self)@.with_selected(index as int).fields);
        }
    }

    /// Moves the cursor of the selected field.
    fn set_cursor(&mut self, pos: usize)
        ensures
            final(self)@ == old(self)@.with_current(old(self)@.current().with_cursor(pos as int)),
    {
        proof {
            use_type_invariant(&*self);
        }
        let i = self.selected;
        self.fields[i].cursor_pos = pos;
        proof {
            assert(field_views(self.fields@) =~= old(self)@.with_current(
                old(self)@.current().with_cursor(pos as int),
            ).fields);
        }
    }

    /// Replaces the text of the selected field and moves its cursor.
    fn set_text(&mut self, value: String, pos: usize)
        ensures
            final(self)@ == old(self)@.with_current(
                FieldView { value: value@, cursor_pos: pos as int, ..old(self)@.current() },
            ),
    {
        proof {
            use_type_invariant(&*self);
        }
        let i = self.selected;
        self.fields[i].value = value;
        self.fields[i].cursor_pos = pos;
        proof {
            assert(field_views(self.fields@) =~= old(self)@.with_current(
                FieldView { value: value@, cursor_pos: pos as int, ..old(self)@.current() },
            ).fields);
        }
    }

    /// The action that committing the form gives.
    fn commit(&self) -> (r: Action)
        ensures
            r@ == self@.commit_action(),
    {
        proof {
            use_type_invariant(self);
        }
        let host = Ui::create_host_from_fields(self.fields.as_slice());
        match self.editing_host_idx {
            Some(index) => Action::Edit(index, host),
            None => Action::Add(host),
        }
    }

    /// Applies a key to the form. Whatever the key, the cursor of the
    /// selected field is brought onto its text first; after the call the
    /// cursor of the selected field lies on a character boundary.
    pub fn handle_key(&mut self, key: KeyPress) -> (r: FormStep)
        ensures
            final(self)@ == form_step(old(self)@, key).0,
            r@ == form_step(old(self)@, key).1,
            final(self)@.wf(),
            final(self)@.current().cursor_on_boundary(),
    {
        proof {
            use_type_invariant(&*self);
        }
        let current = self.selected;
        self.select(current);
        let ghost f = self@;
        let ghost bytes = f.current().bytes();
        let pos = self.field().cursor_pos;
        let multiline = self.field().is_multiline;
        proof {
            encode_utf8_valid_utf8(f.current().value);
            lemma_normalize_idempotent(bytes, pos as int);
            lemma_step_left(bytes, pos as int);
            lemma_step_right(bytes, pos as int);
            is_char_boundary_start_end_of_seq(bytes);
            assert(f.fields.update(f.selected, f.current()) =~= f.fields);
        }
        let step = match key.code {
            Key::Tab => {
                self.select((current + 1) % FIELD_COUNT);
                FormStep::Continue
            },
            Key::BackTab => {
                self.select((current + FIELD_COUNT - 1) % FIELD_COUNT);
                FormStep::Continue
            },
            Key::Up => {
                if multiline {
                    let to = vertical_step(self.field().value.as_str(), pos, Direction::Up);
                    self.set_cursor(to);
                } else {
                    self.select((current + FIELD_COUNT - 1) % FIELD_COUNT);
                }
                FormStep::Continue
            },
            Key::Down => {
                if multiline {
                    let to = vertical_step(self.field().value.as_str(), pos, Direction::Down);
                    self.set_cursor(to);
                } else {
                    self.select((current + 1) % FIELD_COUNT);
                }
                FormStep::Continue
            },
            Key::Left => {
                let to = step_left(self.field().value.as_str(), pos);
                self.set_cursor(to);
                FormStep::Continue
            },
            Key::Right => {
                let to = step_right(self.field().value.as_str(), pos);
                self.set_cursor(to);
                FormStep::Continue
            },
            Key::Home => {
                self.set_cursor(0);
                FormStep::Continue
            },
            Key::End => {
                let to = self.field().value.as_str().as_bytes().len();
                self.set_cursor(to);
                FormStep::Continue
            },
            Key::Enter => {
                if multiline && key.shift {
                    let (value, to) = insert_char(self.field().value.as_str(), pos, '\n');
                    self.set_text(value, to);
                    FormStep::Continue
                } else {
                    FormStep::Submit(self.commit())
                }
            },
            Key::Esc => FormStep::Cancel,
            Key::Backspace => {
                if pos > 0 {
                    let start = step_left(self.field().value.as_str(), pos);
                    let value = remove_range(self.field().value.as_str(), start, pos);
                    self.set_text(value, start);
                }
                FormStep::Continue
            },
            Key::Delete => {
                if pos < self.field().value.as_str().as_bytes().len() {
                    let end = step_right(self.field().value.as_str(), pos);
                    let value = remove_range(self.field().value.as_str(), pos, end);
                    self.set_text(value, pos);
                }
                FormStep::Continue
            },
            Key::Char(c) => {
                let (value, to) = insert_char(self.field().value.as_str(), pos, c);
                self.set_text(value, to);
                FormStep::Continue
            },
            Key::Other => FormStep::Continue,
        };
        proof {
            use_type_invariant(&*self);
        }
        step
    }
}

impl FormView {
    /// Every cursor of the form lies on a character boundary of its text.
    pub open spec fn cursors_on_boundaries(self) -> bool {
        forall|i: int| 0 <= i < self.fields.len() ==> (#[trigger] self.fields[i]).cursor_on_boundary()
    }
}

/// A field with the cursor at the end of its text has its cursor on a
/// boundary.
pub proof fn lemma_field_at_end(label: Seq<char>, value: Seq<char>, is_multiline: bool)
    ensures
        field_at_end(label, value, is_multiline).cursor_on_boundary(),
{
    encode_utf8_valid_utf8(value);
    is_char_boundary_start_end_of_seq(encode_utf8(value));
}

/// The text `22` takes two bytes.
pub proof fn lemma_default_port_text()
    ensures
        "22"@ == seq!['2', '2'],
        encode_utf8("22"@).len() == 2,
        parse_u16_text("22"@) == Some(DEFAULT_PORT),
{
    reveal_strlit("22");
    let t = "22"@;
    assert(t =~= seq!['2', '2']);
    assert(is_ascii_chars(t));
    is_ascii_chars_encode_utf8(t);
    reveal_with_fuel(digits_value, 3);
    assert(t.drop_last() =~= seq!['2']);
    assert(t.drop_last().drop_last() =~= Seq::<char>::empty());
}

/// On a field whose cursor lies on a character boundary, every movement
/// and every edit leaves the cursor on a character boundary.
pub proof fn lemma_field_keeps_cursor(field: FieldView, c: char, direction: Direction)
    requires
        field.cursor_on_boundary(),
    ensures
        field.moved_left().cursor_on_boundary(),
        field.moved_right().cursor_on_boundary(),
        field.moved_vertically(direction).cursor_on_boundary(),
        field.moved_home().cursor_on_boundary(),
        field.moved_end().cursor_on_boundary(),
        field.with_insert(c).cursor_on_boundary(),
        field.with_backspace().cursor_on_boundary(),
        field.with_delete().cursor_on_boundary(),
{
    let bytes = field.bytes();
    let pos = field.cursor_pos;
    encode_utf8_valid_utf8(field.value);
    is_char_boundary_start_end_of_seq(bytes);
    lemma_step_left(bytes, pos);
    lemma_step_right(bytes, pos);
    lemma_vertical_pos_is_boundary(bytes, pos, direction);
    lemma_insert_char(field.value, pos, c);
    if pos > 0 {
        lemma_remove_range(field.value, step_left_pos(bytes, pos), pos);
    }
    if pos < bytes.len() {
        lemma_remove_range(field.value, pos, step_right_pos(bytes, pos));
    }
}

/// Backspace takes back what was typed: on a field whose cursor lies on a
/// character boundary, typing a character and then pressing Backspace gives
/// the field as it was, text and cursor.
pub proof fn lemma_backspace_undoes_typing(field: FieldView, c: char)
    requires
        field.cursor_on_boundary(),
    ensures
        field.with_insert(c).with_backspace() == field,
{
    let at = field.cursor_pos;
    let bytes = field.bytes();
    let typed = field.with_insert(c);
    let width = encode_scalar(c as u32).len() as int;
    lemma_insert_char(field.value, at, c);
    lemma_inserted_char_is_whole(field.value, at, c);
    lemma_encode_single(c);
    let after = typed.bytes();
    encode_utf8_valid_utf8(typed.value);
    assert(width > 0);
    lemma_boundary_at_or_before(after, at + width - 1);
    assert(step_left_pos(after, typed.cursor_pos) == at);
    lemma_split_at_boundary(field.value, at);
    lemma_split_at_boundary(typed.value, at);
    lemma_split_at_boundary(typed.value, at + width);
    assert(after.subrange(0, at) =~= bytes.subrange(0, at));
    assert(after.subrange(at + width, after.len() as int) =~= bytes.subrange(
        at,
        bytes.len() as int,
    ));
}

/// Replacing the selected field by one whose cursor lies on a boundary
/// moves no other cursor.
pub proof fn lemma_with_current_keeps_cursors(form: FormView, field: FieldView)
    requires
        form.wf(),
        field.cursor_on_boundary(),
    ensures
        form.with_current(field).wf(),
        form.with_current(field).current() == field,
        form.with_current(field).editing_host_idx == form.editing_host_idx,
        form.cursors_on_boundaries() ==> form.with_current(field).cursors_on_boundaries(),
{
    let after = form.with_current(field);
    if form.cursors_on_boundaries() {
        assert forall|i: int| 0 <= i < after.fields.len() implies (#[trigger] after.fields[i]).cursor_on_boundary() by {
            if i != form.selected {
                assert(form.fields[i].cursor_on_boundary());
            }
        }
    }
}

/// Selecting a field of a form with six fields puts its cursor on a
/// boundary and moves no other cursor.
pub proof fn lemma_with_selected_keeps_cursors(form: FormView, index: int)
    requires
        form.fields.len() == FIELD_COUNT,
        0 <= index < FIELD_COUNT,
    ensures
        form.with_selected(index).wf(),
        form.with_selected(index).current().cursor_on_boundary(),
        form.with_selected(index).editing_host_idx == form.editing_host_idx,
        form.cursors_on_boundaries() ==> form.with_selected(index).cursors_on_boundaries(),
{
    lemma_selected_field_on_boundary(form, index);
    let after = form.with_selected(index);
    if form.cursors_on_boundaries() {
        assert forall|i: int| 0 <= i < after.fields.len() implies (#[trigger] after.fields[i]).cursor_on_boundary() by {
            if i != index {
                assert(form.fields[i].cursor_on_boundary());
            }
        }
    }
}

/// Whatever the key, a form with six fields keeps six fields and a selected
/// field, and the cursor of the selected field lies on a character boundary
/// afterwards. Where every cursor lay on a boundary before, every cursor
/// does so afterwards.
pub proof fn lemma_form_step_keeps_cursors(form: FormView, key: KeyPress)
    requires
        form.wf(),
    ensures
        form_step(form, key).0.wf(),
        form_step(form, key).0.current().cursor_on_boundary(),
        form.cursors_on_boundaries() ==> form_step(form, key).0.cursors_on_boundaries(),
        form_step(form, key).0.editing_host_idx == form.editing_host_idx,
{
    lemma_with_selected_keeps_cursors(form, form.selected);
    let f = form.with_selected(form.selected);
    let field = f.current();
    let next = (f.selected + 1) % (FIELD_COUNT as int);
    let previous = (f.selected + FIELD_COUNT - 1) % (FIELD_COUNT as int);
    match key.code {
        Key::Tab => {
            lemma_with_selected_keeps_cursors(f, next);
        },
        Key::BackTab => {
            lemma_with_selected_keeps_cursors(f, previous);
        },
        Key::Up => {
            lemma_field_keeps_cursor(field, ' ', Direction::Up);
            lemma_with_current_keeps_cursors(f, field.moved_vertically(Direction::Up));
            lemma_with_selected_keeps_cursors(f, previous);
        },
        Key::Down => {
            lemma_field_keeps_cursor(field, ' ', Direction::Down);
            lemma_with_current_keeps_cursors(f, field.moved_vertically(Direction::Down));
            lemma_with_selected_keeps_cursors(f, next);
        },
        Key::Left => {
            lemma_field_keeps_cursor(field, ' ', Direction::Up);
            lemma_with_current_keeps_cursors(f, field.moved_left());
        },
        Key::Right => {
            lemma_field_keeps_cursor(field, ' ', Direction::Up);
            lemma_with_current_keeps_cursors(f, field.moved_right());
        },
        Key::Home => {
            lemma_field_keeps_cursor(field, ' ', Direction::Up);
            lemma_with_current_keeps_cursors(f, field.moved_home());
        },
        Key::End => {
            lemma_field_keeps_cursor(field, ' ', Direction::Up);
            lemma_with_current_keeps_cursors(f, field.moved_end());
        },
        Key::Enter => {
            lemma_field_keeps_cursor(field, '\n', Direction::Up);
            lemma_with_current_keeps_cursors(f, field.with_insert('\n'));
        },
        Key::Esc => {},
        Key::Backspace => {
            lemma_field_keeps_cursor(field, ' ', Direction::Up);
            lemma_with_current_keeps_cursors(f, field.with_backspace());
        },
        Key::Delete => {
            lemma_field_keeps_cursor(field, ' ', Direction::Up);
            lemma_with_current_keeps_cursors(f, field.with_delete());
        },
        Key::Char(c) => {
            lemma_field_keeps_cursor(field, c, Direction::Up);
            lemma_with_current_keeps_cursors(f, field.with_insert(c));
        },
        Key::Other => {},
    }
}

/// Selecting a field puts its cursor on a boundary and moves no other.
pub proof fn lemma_selected_field_on_boundary(form: FormView, index: int)
    requires
        0 <= index < form.fields.len(),
    ensures
        form.with_selected(index).current().cursor_on_boundary(),
        form.with_selected(index).fields.len() == form.fields.len(),
        forall|i: int|
            0 <= i < form.fields.len() && i != index ==> form.with_selected(index).fields[i]
                == form.fields[i],
{
    let field = form.fields[index];
    encode_utf8_valid_utf8(field.value);
    lemma_normalize_idempotent(field.bytes(), field.cursor_pos);
}

/// The forms that the list opens are sound: six fields, the first selected,
/// every cursor at the end of its text.
pub proof fn lemma_new_forms_are_sound(index: usize, host: HostView)
    ensures
        add_form().wf(),
        add_form().cursors_on_boundaries(),
        edit_form(index, host).wf(),
        edit_form(index, host).cursors_on_boundaries(),
{
    let a = add_form();
    assert forall|i: int| 0 <= i < a.fields.len() implies (#[trigger] a.fields[i]).cursor_on_boundary() by {
        lemma_field_at_end(a.fields[i].label, a.fields[i].value, a.fields[i].is_multiline);
    }
    let e = edit_form(index, host);
    assert forall|i: int| 0 <= i < e.fields.len() implies (#[trigger] e.fields[i]).cursor_on_boundary() by {
        lemma_field_at_end(e.fields[i].label, e.fields[i].value, e.fields[i].is_multiline);
    }
}

} // verus!
