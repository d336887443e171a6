//! The dialogs shown over the table: the record editor, the delete confirmation and
//! notifications, with the way each one answers keys.
use vstd::prelude::*;
use tui_input::Input;
use tui_input::InputRequest as R;
use ratatui::widgets::ScrollbarState;
use super::{Key, KeyPress, MountAction, RunState, TableRow, TableRowView};
use crate::mount::{MountConfiguration, MountConfigurationView, mapping_name, mapping_for, lemma_mapping_name_shape};
use crate::text::chars_of;

verus! {

broadcast use vstd::string::group_string_axioms;

// ---------------------------------------------------------------------------
// Text fields
// ---------------------------------------------------------------------------

#[verifier::external_type_specification]
#[verifier::external_body]
pub struct ExInput(Input);

/// The text held by a text field (`Input::value`).
pub uninterp spec fn input_text(input: Input) -> Seq<char>;

/// The cursor of a text field, counted in characters before it (`Input::cursor`).
pub uninterp spec fn input_cursor(input: Input) -> usize;

/// The text that a field's paste inserts: what the last cuts removed (the private cut
/// buffer of `Input`).
pub uninterp spec fn input_cut_buffer(input: Input) -> Seq<char>;

/// A field is well formed when its cursor lies within its text.
pub open spec fn input_wf(input: Input) -> bool {
    input_cursor(input) <= input_text(input).len()
}

/// An editing request for a text field, as `tui_input::InputRequest` defines them.
#[derive(Clone, Copy, PartialEq, Eq, Debug, Structural)]
pub enum TextEdit {
    SetCursor(usize),
    InsertChar(char),
    GoToPrevChar,
    GoToNextChar,
    GoToPrevWord,
    GoToNextWord,
    GoToStart,
    GoToEnd,
    DeletePrevChar,
    DeleteNextChar,
    DeletePrevWord,
    DeleteNextWord,
    DeleteLine,
    DeleteTillEnd,
    DeleteFromStart,
    Yank,
}

/// The text and cursor that `Input::handle` gives a field holding `text` with the cursor
/// at `cursor` for the request `req` (a pasting request excepted, which also reads the
/// field's cut buffer).
pub uninterp spec fn input_edit_result(text: Seq<char>, cursor: usize, req: TextEdit) -> (Seq<char>, usize);

/// Whether `req` can put text into the field's cut buffer.
pub open spec fn is_cut(req: TextEdit) -> bool {
    match req {
        TextEdit::DeleteLine | TextEdit::DeletePrevWord | TextEdit::DeleteNextWord
        | TextEdit::DeleteTillEnd | TextEdit::DeleteFromStart => true,
        _ => false,
    }
}

/// What handling `req` does to a text field: the result depends on the text, the cursor
/// and the request alone (pasting excepted), moves keep the text, inserting, clearing,
/// cutting at the cursor and pasting change it as named, only cuts change the cut buffer,
/// and a cut to the end, from the start or of the whole line leaves the removed text at
/// the matching end of the buffer. For moves and deletions by grapheme or word only the
/// cursor's staying in the text is stated beside that; what a cut leaves in the buffer
/// before or after the removed text depends on whether the previous request was a cut as
/// well, which is not stated.
pub open spec fn text_edit_post(old: Input, new: Input, req: TextEdit) -> bool {
    let t = input_text(old);
    let c = input_cursor(old);
    &&& input_wf(new)
    &&& req != TextEdit::Yank ==> (input_text(new), input_cursor(new)) == input_edit_result(t, c, req)
    &&& match req {
        TextEdit::SetCursor(p) => input_text(new) == t && input_cursor(new) == if p <= t.len() {
            p as int
        } else {
            t.len() as int
        },
        TextEdit::InsertChar(ch) => input_text(new) == t.insert(c as int, ch) && input_cursor(new)
            == c + 1,
        TextEdit::GoToPrevChar | TextEdit::GoToNextChar | TextEdit::GoToPrevWord
        | TextEdit::GoToNextWord => input_text(new) == t,
        TextEdit::GoToStart => input_text(new) == t && input_cursor(new) == 0,
        TextEdit::GoToEnd => input_text(new) == t && input_cursor(new) == t.len(),
        TextEdit::DeleteLine => input_text(new) == Seq::<char>::empty() && input_cursor(new) == 0,
        TextEdit::DeleteTillEnd => input_text(new) == t.take(c as int) && input_cursor(new) == c,
        TextEdit::DeleteFromStart => input_text(new) == t.skip(c as int) && input_cursor(new) == 0,
        TextEdit::Yank => {
            let b = input_cut_buffer(old);
            &&& input_text(new) == t.take(c as int) + b + t.skip(c as int)
            &&& input_cursor(new) == c + b.len()
        },
        _ => true,
    }
    &&& !is_cut(req) ==> input_cut_buffer(new) == input_cut_buffer(old)
    &&& req == TextEdit::DeleteTillEnd ==> exists|p: Seq<char>| input_cut_buffer(new) == p + t.skip(c as int)
    &&& (req == TextEdit::DeleteFromStart && c > 0) ==> exists|p: Seq<char>| input_cut_buffer(new) == t.take(c as int) + p
    &&& (req == TextEdit::DeleteLine && t.len() > 0) ==> exists|p: Seq<char>| if c == t.len() {
        input_cut_buffer(new) == t + p
    } else {
        input_cut_buffer(new) == p + t
    }
}

/// `Input::new`: a field holding `value`, with the cursor after its last character.
#[verifier::external_body]
fn new_input(value: String) -> (r: Input)
    ensures
        input_text(r) == value@,
        input_cursor(r) == value@.len(),
        input_cut_buffer(r) == Seq::<char>::empty(),
{
    Input::new(value)
}

/// `Input::value`: the text held by the field.
#[verifier::external_body]
fn input_value(input: &Input) -> (r: &str)
    ensures
        r@ == input_text(*input),
{
    input.value()
}

/// `Input::handle`: applies an editing request to the field. What a cut adds to the cut
/// buffer beside the removed text, and what word- or grapheme-wise requests do beyond
/// depending on text, cursor and request alone, is not stated.
#[verifier::external_body]
fn input_handle(input: &mut Input, req: TextEdit)
    requires
        input_wf(*old(input)),
    ensures
        req != TextEdit::Yank ==> (input_text(*final(input)), input_cursor(*final(input)))
            == input_edit_result(input_text(*old(input)), input_cursor(*old(input)), req),
        text_edit_post(*old(input), *final(input), req),
{
    let r = match req {
        TextEdit::SetCursor(p) => R::SetCursor(p), TextEdit::InsertChar(c) => R::InsertChar(c),
        TextEdit::GoToPrevChar => R::GoToPrevChar, TextEdit::GoToNextChar => R::GoToNextChar,
        TextEdit::GoToPrevWord => R::GoToPrevWord, TextEdit::GoToNextWord => R::GoToNextWord,
        TextEdit::GoToStart => R::GoToStart, TextEdit::GoToEnd => R::GoToEnd,
        TextEdit::DeletePrevChar => R::DeletePrevChar, TextEdit::DeleteNextChar => R::DeleteNextChar,
        TextEdit::DeletePrevWord => R::DeletePrevWord, TextEdit::DeleteNextWord => R::DeleteNextWord,
        TextEdit::DeleteLine => R::DeleteLine, TextEdit::DeleteTillEnd => R::DeleteTillEnd,
        TextEdit::DeleteFromStart => R::DeleteFromStart, TextEdit::Yank => R::Yank,
    };
    input.handle(r);
}

// ---------------------------------------------------------------------------
// Selection inside the record editor
// ---------------------------------------------------------------------------

/// The element of the record editor that has the focus.
#[derive(Clone, Copy, PartialEq, Eq, Debug, Structural)]
pub enum EditSelection {
    Name,
    Device,
    MountPoint,
    LuksName,
    Filesystem,
    AcceptButton,
    DiscardButton,
}

/// The focus after the Up key.
pub open spec fn up_of(s: EditSelection, is_mounted: bool) -> EditSelection {
    match s {
        EditSelection::Name | EditSelection::Device => EditSelection::Name,
        EditSelection::MountPoint => EditSelection::Device,
        EditSelection::LuksName => EditSelection::MountPoint,
        EditSelection::Filesystem => EditSelection::LuksName,
        EditSelection::AcceptButton | EditSelection::DiscardButton => if is_mounted {
            EditSelection::Name
        } else {
            EditSelection::Filesystem
        },
    }
}

/// The focus after the Down key.
pub open spec fn down_of(s: EditSelection, is_mounted: bool) -> EditSelection {
    match s {
        EditSelection::Name => if is_mounted {
            EditSelection::AcceptButton
        } else {
            EditSelection::Device
        },
        EditSelection::Device => EditSelection::MountPoint,
        EditSelection::MountPoint => EditSelection::LuksName,
        EditSelection::LuksName => EditSelection::Filesystem,
        EditSelection::Filesystem | EditSelection::AcceptButton => EditSelection::AcceptButton,
        EditSelection::DiscardButton => EditSelection::DiscardButton,
    }
}

/// The focus after the Left key.
pub open spec fn left_of(s: EditSelection) -> EditSelection {
    match s {
        EditSelection::DiscardButton => EditSelection::AcceptButton,
        x => x,
    }
}

/// The focus after the Right key.
pub open spec fn right_of(s: EditSelection) -> EditSelection {
    match s {
        EditSelection::AcceptButton => EditSelection::DiscardButton,
        x => x,
    }
}

/// The focus after the Tab key.
pub open spec fn next_of(s: EditSelection, is_mounted: bool) -> EditSelection {
    match s {
        EditSelection::Name => if is_mounted {
            EditSelection::AcceptButton
        } else {
            EditSelection::Device
        },
        EditSelection::Device => EditSelection::MountPoint,
        EditSelection::MountPoint => EditSelection::LuksName,
        EditSelection::LuksName => EditSelection::Filesystem,
        EditSelection::Filesystem => EditSelection::AcceptButton,
        EditSelection::AcceptButton | EditSelection::DiscardButton => EditSelection::DiscardButton,
    }
}

/// The focus after the Back-Tab key.
pub open spec fn previous_of(s: EditSelection, is_mounted: bool) -> EditSelection {
    match s {
        EditSelection::Name | EditSelection::Device => EditSelection::Name,
        EditSelection::MountPoint => EditSelection::Device,
        EditSelection::LuksName => EditSelection::MountPoint,
        EditSelection::Filesystem => EditSelection::LuksName,
        EditSelection::AcceptButton => if is_mounted {
            EditSelection::Name
        } else {
            EditSelection::Filesystem
        },
        EditSelection::DiscardButton => EditSelection::AcceptButton,
    }
}

/// Whether the focus is on one of the two buttons.
pub open spec fn is_button_spec(s: EditSelection) -> bool {
    s == EditSelection::AcceptButton || s == EditSelection::DiscardButton
}

impl Default for EditSelection {
    fn default() -> (r: Self)
        ensures
            r == EditSelection::Name,
    {
        EditSelection::Name
    }
}

impl EditSelection {
    pub fn is_button(self) -> (r: bool)
        ensures
            r == is_button_spec(self),
    {
        match self {
            EditSelection::AcceptButton | EditSelection::DiscardButton => true,
            _ => false,
        }
    }

    pub fn up(self, is_mounted: bool) -> (r: Self)
        ensures
            r == up_of(self, is_mounted),
    {
        match self {
            EditSelection::Name | EditSelection::Device => EditSelection::Name,
            EditSelection::MountPoint => EditSelection::Device,
            EditSelection::LuksName => EditSelection::MountPoint,
            EditSelection::Filesystem => EditSelection::LuksName,
            EditSelection::AcceptButton | EditSelection::DiscardButton => if is_mounted {
                EditSelection::Name
            } else {
                EditSelection::Filesystem
            },
        }
    }

    pub fn down(self, is_mounted: bool) -> (r: Self)
        ensures
            r == down_of(self, is_mounted),
    {
        match self {
            EditSelection::Name => if is_mounted {
                EditSelection::AcceptButton
            } else {
                EditSelection::Device
            },
            EditSelection::Device => EditSelection::MountPoint,
            EditSelection::MountPoint => EditSelection::LuksName,
            EditSelection::LuksName => EditSelection::Filesystem,
            EditSelection::Filesystem | EditSelection::AcceptButton => EditSelection::AcceptButton,
            EditSelection::DiscardButton => EditSelection::DiscardButton,
        }
    }

    pub fn left(self) -> (r: Self)
        ensures
            r == left_of(self),
    {
        match self {
            EditSelection::DiscardButton => EditSelection::AcceptButton,
            x => x,
        }
    }

    pub fn right(self) -> (r: Self)
        ensures
            r == right_of(self),
    {
        match self {
            EditSelection::AcceptButton => EditSelection::DiscardButton,
            x => x,
        }
    }

    pub fn next(self, is_mounted: bool) -> (r: Self)
        ensures
            r == next_of(self, is_mounted),
    {
        match self {
            EditSelection::Name => if is_mounted {
                EditSelection::AcceptButton
            } else {
                EditSelection::Device
            },
            EditSelection::Device => EditSelection::MountPoint,
            EditSelection::MountPoint => EditSelection::LuksName,
            EditSelection::LuksName => EditSelection::Filesystem,
            EditSelection::Filesystem => EditSelection::AcceptButton,
            EditSelection::AcceptButton | EditSelection::DiscardButton => EditSelection::DiscardButton,
        }
    }

    pub fn previous(self, is_mounted: bool) -> (r: Self)
        ensures
            r == previous_of(self, is_mounted),
    {
        match self {
            EditSelection::Name | EditSelection::Device => EditSelection::Name,
            EditSelection::MountPoint => EditSelection::Device,
            EditSelection::LuksName => EditSelection::MountPoint,
            EditSelection::Filesystem => EditSelection::LuksName,
            EditSelection::AcceptButton => if is_mounted {
                EditSelection::Name
            } else {
                EditSelection::Filesystem
            },
            EditSelection::DiscardButton => EditSelection::AcceptButton,
        }
    }
}

/// For a mounted configuration only the name can be edited: from the name field or a
/// button, every move of the focus stays on the name field or a button.
pub proof fn lemma_mounted_focus_stays(s: EditSelection)
    requires
        s == EditSelection::Name || is_button_spec(s),
    ensures
        ({
            let ok = |t: EditSelection| t == EditSelection::Name || is_button_spec(t);
            &&& ok(up_of(s, true))
            &&& ok(down_of(s, true))
            &&& ok(left_of(s))
            &&& ok(right_of(s))
            &&& ok(next_of(s, true))
            &&& ok(previous_of(s, true))
        }),
{
}

/// Back-Tab undoes Tab, and Tab undoes Back-Tab, wherever the focus can move both ways.
pub proof fn lemma_next_previous_inverse(s: EditSelection, is_mounted: bool)
    ensures
        s != EditSelection::DiscardButton && !(is_mounted && s == EditSelection::Filesystem)
            ==> previous_of(next_of(s, is_mounted), is_mounted) == s,
        s != EditSelection::Name && !(is_mounted && s == EditSelection::Device)
            ==> next_of(previous_of(s, is_mounted), is_mounted) == s,
        s != EditSelection::DiscardButton ==> left_of(right_of(s)) == s,
        s != EditSelection::AcceptButton ==> right_of(left_of(s)) == s,
        !is_button_spec(s) ==> left_of(s) == s && right_of(s) == s,
{
}

// ---------------------------------------------------------------------------
// The record editor
// ---------------------------------------------------------------------------

/// The dialog in which a row is edited.
#[derive(Debug)]
pub struct EditModal {
    pub name: Input,
    pub device: Input,
    pub mount_point: Input,
    pub luks_name: Input,
    pub filesystem: Input,
    pub is_mounted: bool,
    pub needs_mount: MountAction,
    pub selected: EditSelection,
}

/// Every field's cursor lies within its text.
pub open spec fn edit_modal_wf(m: EditModal) -> bool {
    &&& input_wf(m.name)
    &&& input_wf(m.device)
    &&& input_wf(m.mount_point)
    &&& input_wf(m.luks_name)
    &&& input_wf(m.filesystem)
}

/// The text of an optional value, empty when there is none.
pub open spec fn text_or_empty(o: Option<Seq<char>>) -> Seq<char> {
    match o {
        Some(t) => t,
        None => Seq::empty(),
    }
}

/// A field freshly opened on `text`: it holds the text, with the cursor at its end and
/// nothing cut yet.
pub open spec fn field_opened(i: Input, text: Seq<char>) -> bool {
    input_text(i) == text && input_cursor(i) == text.len() && input_cut_buffer(i) == Seq::<char>::empty()
}

/// `m` is the editor as opened on `row`: the name, device, mount point and filesystem
/// fields hold the row's values, the LUKS field holds the device-mapper name under which
/// an encrypted row is opened (derived from the row's name, the name it is saved under;
/// empty when the row is not encrypted), and the focus is on the name.
pub open spec fn opened_for(m: EditModal, row: TableRowView) -> bool {
    &&& field_opened(m.name, row.name)
    &&& field_opened(m.device, row.config.device)
    &&& field_opened(m.mount_point, row.config.mount_point)
    &&& field_opened(m.luks_name, if row.config.is_luks_encrypted {
        mapping_name(row.name)
    } else {
        Seq::empty()
    })
    &&& field_opened(m.filesystem, text_or_empty(row.config.filesystem))
    &&& m.is_mounted == row.is_mounted
    &&& m.needs_mount == row.needs_mount
    &&& m.selected == EditSelection::Name
}

/// The row that the editor's current contents describe: an empty LUKS field means an
/// unencrypted configuration and an empty filesystem field means no filesystem type.
pub open spec fn modal_row(m: EditModal) -> TableRowView {
    let name = input_text(m.name);
    let fs = input_text(m.filesystem);
    TableRowView {
        name: name,
        config: MountConfigurationView {
            name: name,
            device: input_text(m.device),
            is_luks_encrypted: input_text(m.luks_name).len() > 0,
            mount_point: input_text(m.mount_point),
            filesystem: if fs.len() == 0 {
                Option::None
            } else {
                Some(fs)
            },
        },
        is_mounted: m.is_mounted,
        needs_mount: m.needs_mount,
    }
}

/// The editor after the key `press` made an edit of the focused field (or nothing, when
/// the key makes no edit or the focus is on a button).
pub open spec fn field_edited(old: EditModal, edit: Option<TextEdit>, new: EditModal) -> bool {
    match edit {
        Option::None => new == old,
        Some(req) => match old.selected {
            EditSelection::Name => text_edit_post(old.name, new.name, req)
                && new == (EditModal { name: new.name, ..old }),
            EditSelection::Device => text_edit_post(old.device, new.device, req)
                && new == (EditModal { device: new.device, ..old }),
            EditSelection::MountPoint => text_edit_post(old.mount_point, new.mount_point, req)
                && new == (EditModal { mount_point: new.mount_point, ..old }),
            EditSelection::LuksName => text_edit_post(old.luks_name, new.luks_name, req)
                && new == (EditModal { luks_name: new.luks_name, ..old }),
            EditSelection::Filesystem => text_edit_post(old.filesystem, new.filesystem, req)
                && new == (EditModal { filesystem: new.filesystem, ..old }),
            EditSelection::AcceptButton | EditSelection::DiscardButton => new == old,
        },
    }
}

/// The editor moved its focus to `to`.
pub open spec fn focus_moved(old: EditModal, to: EditSelection, new: EditModal) -> bool {
    new == (EditModal { selected: to, ..old })
}

/// How the editor answers a key press: Escape discards; Enter accepts or discards on the
/// buttons; arrows and Tab move the focus (Left and Right only between the buttons);
/// every other key edits the focused field.
pub open spec fn edit_step(old: EditModal, press: KeyPress, new: EditModal, r: RunState<TableRow>) -> bool {
    match press.key {
        Key::Esc => r is Abort && new == old,
        Key::Enter => new == old && match old.selected {
            EditSelection::AcceptButton => r matches RunState::Complete(row) && row@ == modal_row(old),
            EditSelection::DiscardButton => r is Abort,
            _ => r is Running,
        },
        Key::Up => r is Running && focus_moved(old, up_of(old.selected, old.is_mounted), new),
        Key::Down => r is Running && focus_moved(old, down_of(old.selected, old.is_mounted), new),
        Key::Tab => r is Running && focus_moved(old, next_of(old.selected, old.is_mounted), new),
        Key::BackTab => r is Running && focus_moved(old, previous_of(old.selected, old.is_mounted), new),
        Key::Left if is_button_spec(old.selected) => r is Running && focus_moved(old, left_of(old.selected), new),
        Key::Right if is_button_spec(old.selected) => r is Running && focus_moved(old, right_of(old.selected), new),
        _ => r is Running && field_edited(old, press.edit, new),
    }
}

/// Opening the editor on a row and accepting it unchanged gives back the row, when the
/// row's configuration carries the row's name and does not hold an empty filesystem type.
pub proof fn lemma_edit_round_trip(m: EditModal, row: TableRowView)
    requires
        opened_for(m, row),
        row.config.name == row.name,
        row.config.filesystem != Some(Seq::<char>::empty()),
    ensures
        modal_row(m) == row,
{
    lemma_mapping_name_shape(row.name);
    match row.config.filesystem {
        Some(f) => {
            assert(f.len() > 0) by {
                if f.len() == 0 {
                    assert(f =~= Seq::<char>::empty());
                }
            }
        },
        Option::None => {},
    }
}

/// The display columns between a field's scroll position and its cursor (none when the
/// cursor is scrolled out to the left).
pub open spec fn cursor_offset(visual_cursor: usize, scroll: usize) -> int {
    if visual_cursor > scroll {
        visual_cursor - scroll
    } else {
        0
    }
}

/// The screen column of a field's text cursor: the field's left edge plus the cursor's
/// offset taken as a screen coordinate (that is, modulo 2^16), or `None` where the sum
/// does not fit a screen coordinate.
pub open spec fn cursor_column_spec(area_x: u16, visual_cursor: usize, scroll: usize) -> Option<u16> {
    let col = area_x + cursor_offset(visual_cursor, scroll) % 0x10000;
    if col <= u16::MAX {
        Some(col as u16)
    } else {
        Option::None
    }
}

/// The screen column at which the cursor of a field that starts at `area_x`, scrolled by
/// `scroll` display columns, with its cursor at display column `visual_cursor`, is drawn.
pub fn cursor_column(area_x: u16, visual_cursor: usize, scroll: usize) -> (r: Option<u16>)
    ensures
        r == cursor_column_spec(area_x, visual_cursor, scroll),
{
    let x: usize = if visual_cursor > scroll { visual_cursor - scroll } else { 0 };
    let low: u16 = (x % 0x10000) as u16;
    area_x.checked_add(low)
}

/// How a field of the editor is drawn.
#[derive(Clone, Copy, PartialEq, Eq, Debug, Structural)]
pub enum FieldStyle {
    Highlighted,
    Disabled,
    Plain,
}

/// The focused field is highlighted; for a mounted configuration every field but the name
/// is shown disabled; the rest are plain.
pub open spec fn field_style_of(m: EditModal, field: EditSelection) -> FieldStyle {
    if m.selected == field {
        FieldStyle::Highlighted
    } else if m.is_mounted && field != EditSelection::Name {
        FieldStyle::Disabled
    } else {
        FieldStyle::Plain
    }
}

/// The focus is on the name field or on a button.
pub open spec fn on_name_or_button(s: EditSelection) -> bool {
    s == EditSelection::Name || is_button_spec(s)
}

/// Editing a mounted configuration can only rename it: over any run of key presses, the
/// focus stays on the name field or a button, and the device, mount point, LUKS and
/// filesystem fields keep what they held when the run began.
pub proof fn lemma_mounted_edit_run(ms: Seq<EditModal>, presses: Seq<KeyPress>, rs: Seq<RunState<TableRow>>)
    requires
        ms.len() == presses.len() + 1,
        rs.len() == presses.len(),
        ms[0].is_mounted,
        on_name_or_button(ms[0].selected),
        forall|i: int| 0 <= i < presses.len() ==> edit_step(#[trigger] ms[i], presses[i], ms[i + 1], rs[i]),
    ensures
        forall|i: int| 0 <= i < ms.len() ==> {
            &&& on_name_or_button((#[trigger] ms[i]).selected)
            &&& ms[i].is_mounted
            &&& ms[i].device == ms[0].device
            &&& ms[i].mount_point == ms[0].mount_point
            &&& ms[i].luks_name == ms[0].luks_name
            &&& ms[i].filesystem == ms[0].filesystem
        },
    decreases presses.len(),
{
    if presses.len() > 0 {
        let k = presses.len() - 1;
        lemma_mounted_edit_run(ms.drop_last(), presses.drop_last(), rs.drop_last());
        assert forall|i: int| 0 <= i < ms.len() implies {
            &&& on_name_or_button((#[trigger] ms[i]).selected)
            &&& ms[i].is_mounted
            &&& ms[i].device == ms[0].device
            &&& ms[i].mount_point == ms[0].mount_point
            &&& ms[i].luks_name == ms[0].luks_name
            &&& ms[i].filesystem == ms[0].filesystem
        } by {
            if i < ms.len() - 1 {
                assert(ms.drop_last()[i] == ms[i]);
            } else {
                assert(ms.drop_last()[k] == ms[k]);
                let prev = ms[k];
                assert(edit_step(ms[k], presses[k], ms[k + 1], rs[k]));
                lemma_mounted_focus_stays(prev.selected);
            }
        }
    }
}

/// A key that the editor does not take for navigation, on a text field: every key but
/// Escape, Enter, the arrows and Tab (Left and Right only move between the buttons).
pub open spec fn is_editing_key(k: Key) -> bool {
    match k {
        Key::Esc | Key::Enter | Key::Up | Key::Down | Key::Tab | Key::BackTab => false,
        _ => true,
    }
}

/// An editing key applies its request to the focused field and to no other: with the focus
/// on the name, device, mount point, LUKS or filesystem field, that field's text and
/// cursor change as the request says (a typed character is inserted at its cursor), every
/// other field and the focus stay, and the editor keeps running.
pub proof fn lemma_edit_goes_to_focused_field(old: EditModal, press: KeyPress, new: EditModal,
    r: RunState<TableRow>, req: TextEdit)
    requires
        edit_step(old, press, new, r),
        is_editing_key(press.key),
        press.edit == Some(req),
        !is_button_spec(old.selected),
        edit_modal_wf(old),
    ensures
        r is Running,
        new.selected == old.selected,
        new.is_mounted == old.is_mounted,
        new.needs_mount == old.needs_mount,
        old.selected == EditSelection::Name ==> text_edit_post(old.name, new.name, req)
            && new.device == old.device && new.mount_point == old.mount_point
            && new.luks_name == old.luks_name && new.filesystem == old.filesystem,
        old.selected == EditSelection::Device ==> text_edit_post(old.device, new.device, req)
            && new.name == old.name && new.mount_point == old.mount_point
            && new.luks_name == old.luks_name && new.filesystem == old.filesystem,
        old.selected == EditSelection::MountPoint ==> text_edit_post(old.mount_point, new.mount_point, req)
            && new.name == old.name && new.device == old.device
            && new.luks_name == old.luks_name && new.filesystem == old.filesystem,
        old.selected == EditSelection::LuksName ==> text_edit_post(old.luks_name, new.luks_name, req)
            && new.name == old.name && new.device == old.device
            && new.mount_point == old.mount_point && new.filesystem == old.filesystem,
        old.selected == EditSelection::Filesystem ==> text_edit_post(old.filesystem, new.filesystem, req)
            && new.name == old.name && new.device == old.device
            && new.mount_point == old.mount_point && new.luks_name == old.luks_name,
        forall|ch: char| req == TextEdit::InsertChar(ch) && old.selected == EditSelection::Filesystem
            ==> input_text(new.filesystem) == input_text(old.filesystem).insert(
            input_cursor(old.filesystem) as int, ch),
        forall|ch: char| req == TextEdit::InsertChar(ch) && old.selected == EditSelection::Name
            ==> input_text(new.name) == input_text(old.name).insert(input_cursor(old.name) as int, ch),
{
}

impl EditModal {
    /// The editor opened on `row`.
    pub fn new(row: &TableRow) -> (m: Self)
        ensures
            opened_for(m, row@),
            edit_modal_wf(m),
    {
        let luks = if row.config.is_luks_encrypted {
            mapping_for(row.name.as_str())
        } else {
            String::new()
        };
        let fs = match &row.config.filesystem {
            Some(f) => f.clone(),
            Option::None => String::new(),
        };
        EditModal {
            name: new_input(row.name.clone()),
            device: new_input(row.config.device.clone()),
            mount_point: new_input(row.config.mount_point.clone()),
            luks_name: new_input(luks),
            filesystem: new_input(fs),
            is_mounted: row.is_mounted,
            needs_mount: row.needs_mount,
            selected: EditSelection::Name,
        }
    }

    /// How the field `field` is drawn.
    pub fn field_style(&self, field: EditSelection) -> (r: FieldStyle)
        ensures
            r == field_style_of(*self, field),
    {
        if self.selected == field {
            FieldStyle::Highlighted
        } else if self.is_mounted && field != EditSelection::Name {
            FieldStyle::Disabled
        } else {
            FieldStyle::Plain
        }
    }

    /// The row that the editor's current contents describe.
    pub fn to_row(&self) -> (r: TableRow)
        ensures
            r@ == modal_row(*self),
    {
        let name = input_value(&self.name);
        let luks = input_value(&self.luks_name);
        let fs = input_value(&self.filesystem);
        TableRow {
            name: name.to_owned(),
            config: MountConfiguration {
                name: name.to_owned(),
                device: input_value(&self.device).to_owned(),
                is_luks_encrypted: !luks.is_empty(),
                mount_point: input_value(&self.mount_point).to_owned(),
                filesystem: if fs.is_empty() {
                    Option::None
                } else {
                    Some(fs.to_owned())
                },
            },
            is_mounted: self.is_mounted,
            needs_mount: self.needs_mount,
        }
    }

    /// Answers one key press.
    pub fn handle_key(&mut self, press: KeyPress) -> (r: RunState<TableRow>)
        requires
            edit_modal_wf(*old(self)),
        ensures
            edit_step(*old(self), press, *final(self), r),
            edit_modal_wf(*final(self)),
    {
        match press.key {
            Key::Esc => return RunState::Abort,
            Key::Enter => match self.selected {
                EditSelection::AcceptButton => return RunState::Complete(self.to_row()),
                EditSelection::DiscardButton => return RunState::Abort,
                _ => {},
            },
            Key::Up => self.selected = self.selected.up(self.is_mounted),
            Key::Down => self.selected = self.selected.down(self.is_mounted),
            Key::Left if self.selected.is_button() => self.selected = self.selected.left(),
            Key::Right if self.selected.is_button() => self.selected = self.selected.right(),
            Key::Tab => self.selected = self.selected.next(self.is_mounted),
            Key::BackTab => self.selected = self.selected.previous(self.is_mounted),
            _ => match press.edit {
                Some(req) => match self.selected {
                    EditSelection::Name => input_handle(&mut self.name, req),
                    EditSelection::Device => input_handle(&mut self.device, req),
                    EditSelection::MountPoint => input_handle(&mut self.mount_point, req),
                    EditSelection::LuksName => input_handle(&mut self.luks_name, req),
                    EditSelection::Filesystem => input_handle(&mut self.filesystem, req),
                    EditSelection::AcceptButton | EditSelection::DiscardButton => {},
                },
                Option::None => {},
            },
        }
        RunState::Running
    }
}

// ---------------------------------------------------------------------------
// Confirmation and notification dialogs
// ---------------------------------------------------------------------------

/// A yes/no question.
#[derive(Debug)]
pub struct ConfirmModal {
    pub text: String,
    pub yes_selected: bool,
}

/// How the confirmation answers a key: Escape cancels, Enter answers with the selected
/// button, Left selects yes and Right selects no.
pub open spec fn confirm_step(old: ConfirmModal, key: Key, new: ConfirmModal, r: RunState<bool>) -> bool {
    match key {
        Key::Esc => r is Abort && new == old,
        Key::Enter => r == RunState::Complete(old.yes_selected) && new == old,
        Key::Right => r is Running && new == (ConfirmModal { yes_selected: false, ..old }),
        Key::Left => r is Running && new == (ConfirmModal { yes_selected: true, ..old }),
        _ => r is Running && new == old,
    }
}

impl ConfirmModal {
    pub fn new(text: String) -> (r: Self)
        ensures
            r.text == text,
            !r.yes_selected,
    {
        ConfirmModal { text, yes_selected: false }
    }

    /// Answers one key press.
    pub fn handle_key(&mut self, key: Key) -> (r: RunState<bool>)
        ensures
            confirm_step(*old(self), key, *final(self), r),
    {
        match key {
            Key::Esc => return RunState::Abort,
            Key::Enter => return RunState::Complete(self.yes_selected),
            Key::Right => self.yes_selected = false,
            Key::Left => self.yes_selected = true,
            _ => {},
        }
        RunState::Running
    }
}

/// The number of times `c` occurs in `s`.
pub open spec fn count_char(s: Seq<char>, c: char) -> nat
    decreases s.len(),
{
    if s.len() == 0 {
        0
    } else {
        count_char(s.drop_last(), c) + if s.last() == c {
            1nat
        } else {
            0nat
        }
    }
}

/// `ScrollbarState::next` on a scrollbar of `length` items at `position`: one step
/// further, but not past the last item.
#[verifier::external_body]
fn scroll_next(length: usize, position: usize) -> (r: usize)
    ensures
        r == if position + 1 < length {
            position + 1
        } else if length == 0 {
            0
        } else {
            length - 1
        },
{
    let mut s = ScrollbarState::new(length).position(position);
    s.next();
    s.get_position()
}

/// `ScrollbarState::prev`: one step back, but not before the first item.
#[verifier::external_body]
fn scroll_prev(length: usize, position: usize) -> (r: usize)
    ensures
        r == if position == 0 {
            0
        } else {
            position - 1
        },
{
    let mut s = ScrollbarState::new(length).position(position);
    s.prev();
    s.get_position()
}

/// A message with a title, scrolled line by line.
#[derive(Debug)]
pub struct NotifyModal {
    pub title: String,
    pub text: String,
    /// The scrollbar's length: the number of line feeds in the text.
    pub scroll_length: usize,
    pub scroll_position: usize,
}

/// How a notification answers a key: Escape and Enter close it, Up and Down scroll.
pub open spec fn notify_step(old: NotifyModal, key: Key, new: NotifyModal, r: RunState<()>) -> bool {
    match key {
        Key::Esc => r is Abort && new == old,
        Key::Enter => r is Complete && new == old,
        Key::Up => r is Running && new == (NotifyModal {
            scroll_position: if old.scroll_position == 0 { 0 } else { (old.scroll_position - 1) as usize },
            ..old
        }),
        Key::Down => r is Running && new == (NotifyModal {
            scroll_position: if old.scroll_position + 1 < old.scroll_length {
                (old.scroll_position + 1) as usize
            } else if old.scroll_length == 0 {
                0
            } else {
                (old.scroll_length - 1) as usize
            },
            ..old
        }),
        _ => r is Running && new == old,
    }
}

/// Scrolling keeps a notification's position on one of its lines (or at the top).
pub proof fn lemma_scroll_stays_in_text(old: NotifyModal, key: Key, new: NotifyModal, r: RunState<()>)
    requires
        notify_step(old, key, new, r),
        old.scroll_position < old.scroll_length || old.scroll_position == 0,
    ensures
        new.scroll_position < new.scroll_length || new.scroll_position == 0,
        new.scroll_length == old.scroll_length,
{
}

impl NotifyModal {
    pub fn new(title: &str, text: String) -> (r: Self)
        ensures
            r.title@ == title@,
            r.text == text,
            r.scroll_length == count_char(text@, '\n'),
            r.scroll_position == 0,
    {
        let chars = chars_of(text.as_str());
        let mut n: usize = 0;
        for i in 0..chars.len()
            invariant
                chars@ == text@,
                n == count_char(chars@.take(i as int), '\n'),
                n <= i,
        {
            assert(chars@.take(i + 1).drop_last() =~= chars@.take(i as int));
            if chars[i] == '\n' {
                n = n + 1;
            }
        }
        assert(chars@.take(chars.len() as int) =~= chars@);
        NotifyModal { title: title.to_owned(), text, scroll_length: n, scroll_position: 0 }
    }

    /// Answers one key press.
    pub fn handle_key(&mut self, key: Key) -> (r: RunState<()>)
        ensures
            notify_step(*old(self), key, *final(self), r),
    {
        match key {
            Key::Esc => return RunState::Abort,
            Key::Enter => return RunState::Complete(()),
            Key::Up => self.scroll_position = scroll_prev(self.scroll_length, self.scroll_position),
            Key::Down => self.scroll_position = scroll_next(self.scroll_length, self.scroll_position),
            _ => {},
        }
        RunState::Running
    }
}

/// The dialog shown over the table, if any.
#[derive(Debug)]
pub enum ModalState {
    Closed,
    EditModal(EditModal),
    DeleteConfirmModal(ConfirmModal),
    Notification(NotifyModal),
}

impl Default for ModalState {
    fn default() -> (r: Self)
        ensures
            r is Closed,
    {
        ModalState::Closed
    }
}

} // verus!
