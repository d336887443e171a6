//! The terminal interface's model: the table of configurations, the actions chosen on
//! it, and the state machine that answers key presses.
use vstd::prelude::*;
use crate::mount::{ConfigFile, MountConfiguration, MountConfigurationView, opt_text, texts};
use crate::order::{Named, names_sorted, lower_bound, sort_by_name, sort_records};
use ratatui::widgets::TableState;
use modal::{ModalState, EditModal, ConfirmModal, NotifyModal, edit_modal_wf, opened_for, edit_step,
    confirm_step, notify_step, count_char};
use crate::text::{compare_text, text_lt, text_le, TextOrder, lemma_text_lt_total,
    lemma_text_lt_irreflexive, lemma_text_le_transitive};

pub mod modal;

verus! {

/// A key, as far as the interface tells keys apart.
#[derive(Clone, Copy, PartialEq, Eq, Debug, Structural)]
pub enum Key {
    Esc,
    Enter,
    Up,
    Down,
    Left,
    Right,
    Tab,
    BackTab,
    Delete,
    Char(char),
    Other,
}

/// A key press, with the editing request that a text field makes of it, if any.
#[derive(Clone, Copy, PartialEq, Eq, Debug, Structural)]
pub struct KeyPress {
    pub key: Key,
    pub edit: Option<modal::TextEdit>,
}

/// Describes the state of a currently running screen or dialog.
pub enum RunState<T> {
    Running,
    Complete(T),
    Abort,
}

/// What applying the table will do to a configuration's mount state.
#[derive(Clone, Copy, PartialEq, Eq, Debug, Structural)]
pub enum MountAction {
    NoChange,
    Mount,
    Unmount,
}

#[derive(Debug)]
pub struct TableRow {
    pub name: String,
    pub config: MountConfiguration,
    pub is_mounted: bool,
    pub needs_mount: MountAction,
}

pub struct TableRowView {
    pub name: Seq<char>,
    pub config: MountConfigurationView,
    pub is_mounted: bool,
    pub needs_mount: MountAction,
}

impl View for TableRow {
    type V = TableRowView;

    open spec fn view(&self) -> TableRowView {
        TableRowView {
            name: self.name@,
            config: self.config@,
            is_mounted: self.is_mounted,
            needs_mount: self.needs_mount,
        }
    }
}

broadcast use vstd::string::group_string_axioms;

/// Whether the action changes the mount state.
pub open spec fn changed_spec(a: MountAction) -> bool {
    a != MountAction::NoChange
}

impl MountAction {
    pub fn changed(self) -> (r: bool)
        ensures
            r == changed_spec(self),
    {
        match self {
            MountAction::Mount | MountAction::Unmount => true,
            MountAction::NoChange => false,
        }
    }
}

/// The text shown for a yes/no value.
pub open spec fn boolean_text(b: bool) -> Seq<char> {
    if b {
        "Yes"@
    } else {
        "No"@
    }
}

pub fn display_boolean(b: bool) -> (r: &'static str)
    ensures
        r@ == boolean_text(b),
{
    if b {
        "Yes"
    } else {
        "No"
    }
}

/// The action after toggling, for a row whose configuration is mounted or not.
pub open spec fn toggled_action(a: MountAction, is_mounted: bool) -> MountAction {
    match a {
        MountAction::NoChange => if is_mounted {
            MountAction::Unmount
        } else {
            MountAction::Mount
        },
        MountAction::Mount | MountAction::Unmount => MountAction::NoChange,
    }
}

/// The pending action agrees with the mount state: only an unmounted configuration
/// can be waiting to be mounted, and only a mounted one to be unmounted.
pub open spec fn action_consistent(r: TableRowView) -> bool {
    &&& r.needs_mount == MountAction::Mount ==> !r.is_mounted
    &&& r.needs_mount == MountAction::Unmount ==> r.is_mounted
}

/// Whether the configuration will be mounted once the pending action is applied.
pub open spec fn target_mounted(r: TableRowView) -> bool {
    r.is_mounted != changed_spec(r.needs_mount)
}

/// The text of the table's "Mounted:" column: the state after applying, marked when
/// it differs from the current one.
pub open spec fn mounted_cell_text(r: TableRowView) -> Seq<char> {
    if changed_spec(r.needs_mount) {
        boolean_text(target_mounted(r)) + " *"@
    } else {
        boolean_text(target_mounted(r))
    }
}

/// The configuration of a fresh, empty row.
pub open spec fn empty_config_view() -> MountConfigurationView {
    MountConfigurationView {
        name: Seq::empty(),
        device: Seq::empty(),
        is_luks_encrypted: false,
        mount_point: Seq::empty(),
        filesystem: Option::None,
    }
}

/// The problems that keep a row from being a usable configuration, in order.
pub open spec fn validation_errors(r: TableRowView) -> Seq<Seq<char>> {
    (if r.name.len() == 0 {
        seq!["The 'name' field cannot be empty."@]
    } else {
        Seq::empty()
    }) + (if r.config.device.len() == 0 {
        seq!["The 'device' field cannot be empty."@]
    } else {
        Seq::empty()
    }) + (if r.config.mount_point.len() == 0 {
        seq!["The 'mount_point' field cannot be empty."@]
    } else {
        Seq::empty()
    })
}

/// A row holds nothing that the user entered or that the system reported.
pub open spec fn row_is_empty(r: TableRowView) -> bool {
    &&& r.name.len() == 0
    &&& r.config.device.len() == 0
    &&& !r.config.is_luks_encrypted
    &&& r.config.mount_point.len() == 0
    &&& r.config.filesystem is None
    &&& !r.is_mounted
    &&& r.needs_mount == MountAction::NoChange
}

impl TableRow {
    pub fn new() -> (r: Self)
        ensures
            r@ == (TableRowView {
                name: Seq::empty(),
                config: empty_config_view(),
                is_mounted: false,
                needs_mount: MountAction::NoChange,
            }),
    {
        TableRow {
            name: String::new(),
            config: MountConfiguration {
                name: String::new(),
                device: String::new(),
                is_luks_encrypted: false,
                mount_point: String::new(),
                filesystem: Option::None,
            },
            is_mounted: false,
            needs_mount: MountAction::NoChange,
        }
    }

    pub fn toggle_mount(&mut self)
        ensures
            final(self).needs_mount == toggled_action(old(self).needs_mount, old(self).is_mounted),
            final(self).name == old(self).name,
            final(self).config == old(self).config,
            final(self).is_mounted == old(self).is_mounted,
    {
        self.needs_mount = match self.needs_mount {
            MountAction::NoChange => if self.is_mounted {
                MountAction::Unmount
            } else {
                MountAction::Mount
            },
            MountAction::Mount | MountAction::Unmount => MountAction::NoChange,
        };
    }

    /// Check whether the fields in this row make sense.
    pub fn validate(&self) -> (errors: Vec<String>)
        ensures
            texts(errors@) == validation_errors(self@),
    {
        let mut errors: Vec<String> = Vec::new();
        if self.name.as_str().is_empty() {
            errors.push(String::from_str("The 'name' field cannot be empty."));
        }
        if self.config.device.as_str().is_empty() {
            errors.push(String::from_str("The 'device' field cannot be empty."));
        }
        if self.config.mount_point.as_str().is_empty() {
            errors.push(String::from_str("The 'mount_point' field cannot be empty."));
        }
        assert(texts(errors@) =~= validation_errors(self@));
        errors
    }

    pub fn is_empty(&self) -> (r: bool)
        ensures
            r == row_is_empty(self@),
    {
        self.name.as_str().is_empty() && self.config.device.as_str().is_empty()
            && !self.config.is_luks_encrypted && self.config.mount_point.as_str().is_empty()
            && self.config.filesystem.is_none() && !self.is_mounted
            && self.needs_mount == MountAction::NoChange
    }

    /// The text of the table's "Mounted:" column for this row.
    pub fn mounted_cell(&self) -> (r: String)
        ensures
            r@ == mounted_cell_text(self@),
    {
        let changed = self.needs_mount.changed();
        let mut s = String::from_str(display_boolean(self.is_mounted != changed));
        if changed {
            s.append(" *");
        }
        s
    }
}

impl Clone for TableRow {
    fn clone(&self) -> (r: Self)
        ensures
            r == *self,
    {
        TableRow {
            name: self.name.clone(),
            config: self.config.clone(),
            is_mounted: self.is_mounted,
            needs_mount: self.needs_mount,
        }
    }
}

impl Default for MountAction {
    fn default() -> (r: Self)
        ensures
            r == MountAction::NoChange,
    {
        MountAction::NoChange
    }
}

impl Named for TableRow {
    open spec fn name_view(&self) -> Seq<char> {
        self.name@
    }

    fn name_str(&self) -> (r: &str) {
        self.name.as_str()
    }
}

/// Toggling a row whose pending action agrees with its mount state keeps it agreeing,
/// flips whether the configuration will be mounted, and toggling again undoes it.
pub proof fn lemma_toggle_twice(r: TableRowView)
    requires
        action_consistent(r),
    ensures
        ({
            let once = TableRowView { needs_mount: toggled_action(r.needs_mount, r.is_mounted), ..r };
            &&& action_consistent(once)
            &&& target_mounted(once) == !target_mounted(r)
            &&& toggled_action(once.needs_mount, r.is_mounted) == r.needs_mount
        }),
{
}

// ---------------------------------------------------------------------------
// Building the table and reading the result
// ---------------------------------------------------------------------------

/// Whether two paths are equal, component by component (`Path::eq`).
pub uninterp spec fn same_path(a: Seq<char>, b: Seq<char>) -> bool;

/// `<Path as PartialEq>::eq`: compares two paths by their components.
#[verifier::external_body]
fn paths_equal(a: &str, b: &str) -> (r: bool)
    ensures
        r == same_path(a@, b@),
        a@ == b@ ==> r,
{
    std::path::Path::new(a) == std::path::Path::new(b)
}

/// Whether a configuration mounted at `mount_point` is among `mounted`.
pub open spec fn is_mounted_at(mounted: Seq<MountConfiguration>, mount_point: Seq<char>) -> bool {
    exists|k: int| 0 <= k < mounted.len() && same_path(#[trigger] mounted[k].mount_point@, mount_point)
}

/// The row that shows configuration `c`, given what is mounted.
pub open spec fn row_for(c: MountConfiguration, mounted: Seq<MountConfiguration>) -> TableRowView {
    TableRowView {
        name: c.name@,
        config: c@,
        is_mounted: is_mounted_at(mounted, c.mount_point@),
        needs_mount: MountAction::NoChange,
    }
}

/// The rows of a table: one per saved configuration, in the store's order.
pub fn make_table_rows(config: &ConfigFile, mounted: &[MountConfiguration]) -> (rows: Vec<TableRow>)
    ensures
        rows@.len() == config@.len(),
        forall|i: int| 0 <= i < rows@.len() ==> #[trigger] rows@[i]@ == row_for(config@[i], mounted@),
{
    let configs = config.iter();
    let mut rows: Vec<TableRow> = Vec::new();
    for i in 0..configs.len()
        invariant
            configs@ == config@,
            rows@.len() == i,
            forall|k: int| 0 <= k < i ==> #[trigger] rows@[k]@ == row_for(config@[k], mounted@),
    {
        let c = &configs[i];
        let mut found = false;
        for k in 0..mounted.len()
            invariant
                found == exists|m: int| 0 <= m < k && same_path(#[trigger] mounted@[m].mount_point@, c.mount_point@),
        {
            if paths_equal(mounted[k].mount_point.as_str(), c.mount_point.as_str()) {
                found = true;
            }
        }
        rows.push(TableRow {
            name: c.name.clone(),
            config: c.clone(),
            is_mounted: found,
            needs_mount: MountAction::NoChange,
        });
    }
    rows
}

/// The set of actions that were specified on the interface.
#[derive(Debug)]
pub struct TuiActions {
    /// The configurations to save, one per name, sorted by name.
    pub configurations: Vec<MountConfiguration>,
    /// The names of configurations that need to be mounted.
    pub to_mount: Vec<String>,
    /// The names of configurations that need to be unmounted.
    pub to_unmount: Vec<String>,
}

impl Default for TuiActions {
    fn default() -> (r: Self)
        ensures
            r.configurations@.len() == 0,
            r.to_mount@.len() == 0,
            r.to_unmount@.len() == 0,
    {
        TuiActions { configurations: Vec::new(), to_mount: Vec::new(), to_unmount: Vec::new() }
    }
}

/// The configuration saved for a row: its configuration under the row's name.
pub open spec fn saved_config(r: TableRowView) -> MountConfigurationView {
    MountConfigurationView { name: r.name, ..r.config }
}

/// `j` is the last row named `n`.
pub open spec fn last_named(rows: Seq<TableRow>, n: Seq<char>, j: int) -> bool {
    &&& 0 <= j < rows.len()
    &&& rows[j].name@ == n
    &&& forall|m: int| j < m < rows.len() ==> rows[m].name@ != n
}

/// Every name comes strictly before the names of all later records.
pub open spec fn names_strictly_sorted(s: Seq<MountConfiguration>) -> bool {
    forall|i: int, j: int| 0 <= i < j < s.len() ==> text_lt(#[trigger] s[i].name@, #[trigger] s[j].name@)
}

/// Some configuration of `conf` is named `n`.
pub open spec fn has_name(conf: Seq<MountConfiguration>, n: Seq<char>) -> bool {
    exists|i: int| 0 <= i < conf.len() && #[trigger] conf[i].name@ == n
}

/// `c` is what the last row of its name saves.
pub open spec fn saved_from_last(rows: Seq<TableRow>, c: MountConfiguration) -> bool {
    exists|j: int| last_named(rows, c.name@, j) && c@ == saved_config(#[trigger] rows[j]@)
}

/// The configurations that applying `rows` saves: one per name, sorted by name, each
/// taken from the row that comes last under that name.
pub open spec fn saves(conf: Seq<MountConfiguration>, rows: Seq<TableRow>) -> bool {
    &&& names_strictly_sorted(conf)
    &&& forall|i: int| 0 <= i < conf.len() ==> saved_from_last(rows, #[trigger] conf[i])
    &&& forall|j: int| 0 <= j < rows.len() ==> has_name(conf, #[trigger] rows[j].name@)
}

/// The names of the rows whose pending action is `a`, in table order.
pub open spec fn names_with_action(rows: Seq<TableRow>, a: MountAction) -> Seq<Seq<char>>
    decreases rows.len(),
{
    if rows.len() == 0 {
        Seq::empty()
    } else {
        let rest = names_with_action(rows.drop_last(), a);
        if rows.last().needs_mount == a {
            rest.push(rows.last().name@)
        } else {
            rest
        }
    }
}

proof fn lemma_last_named_push(rows: Seq<TableRow>, row: TableRow, n: Seq<char>, j: int)
    requires
        last_named(rows, n, j),
        row.name@ != n,
    ensures
        last_named(rows.push(row), n, j),
{
    assert forall|m: int| j < m < rows.push(row).len() implies rows.push(row)[m].name@ != n by {
        if m < rows.len() {
            assert(rows.push(row)[m] == rows[m]);
        }
    }
}

/// A configuration saved from an earlier row stays saved from it when a row of
/// another name follows.
proof fn lemma_saved_from_last_push(rows: Seq<TableRow>, row: TableRow, c: MountConfiguration)
    requires
        saved_from_last(rows, c),
        c.name@ != row.name@,
    ensures
        saved_from_last(rows.push(row), c),
{
    let j = choose|j: int| last_named(rows, c.name@, j) && c@ == saved_config(#[trigger] rows[j]@);
    lemma_last_named_push(rows, row, c.name@, j);
    assert(rows.push(row)[j] == rows[j]);
}

/// A name present among the saved configurations stays present after an update that
/// keeps names.
proof fn lemma_names_cover_push(old_conf: Seq<MountConfiguration>, conf: Seq<MountConfiguration>,
    prefix: Seq<TableRow>, row: TableRow)
    requires
        forall|j: int| 0 <= j < prefix.len() ==> has_name(old_conf, #[trigger] prefix[j].name@),
        forall|a: int| 0 <= a < old_conf.len() ==> has_name(conf, #[trigger] old_conf[a].name@),
        has_name(conf, row.name@),
    ensures
        forall|j: int| 0 <= j < prefix.push(row).len() ==> has_name(conf, #[trigger] prefix.push(row)[j].name@),
{
    assert forall|j: int| 0 <= j < prefix.push(row).len() implies has_name(conf, #[trigger] prefix.push(row)[j].name@) by {
        if j < prefix.len() {
            assert(prefix.push(row)[j] == prefix[j]);
            assert(has_name(old_conf, prefix[j].name@));
            let a = choose|a: int| 0 <= a < old_conf.len() && #[trigger] old_conf[a].name@ == prefix[j].name@;
            assert(has_name(conf, old_conf[a].name@));
        }
    }
}

/// The saved configurations after a row whose name is already saved.
proof fn lemma_saves_replace(old_conf: Seq<MountConfiguration>, prefix: Seq<TableRow>, row: TableRow,
    k: int, entry: MountConfiguration)
    requires
        saves(old_conf, prefix),
        0 <= k < old_conf.len(),
        old_conf[k].name@ == row.name@,
        entry@ == saved_config(row@),
    ensures
        saves(old_conf.update(k, entry), prefix.push(row)),
{
    let next = prefix.push(row);
    let conf = old_conf.update(k, entry);
    assert(last_named(next, row.name@, prefix.len() as int));
    assert(next[prefix.len() as int] == row);
    assert forall|a: int, b: int| 0 <= a < b < conf.len() implies
        text_lt(#[trigger] conf[a].name@, #[trigger] conf[b].name@) by {
        assert(text_lt(old_conf[a].name@, old_conf[b].name@));
    }
    assert forall|a: int| 0 <= a < conf.len() implies saved_from_last(next, #[trigger] conf[a]) by {
        if a == k {
            assert(last_named(next, conf[a].name@, prefix.len() as int));
        } else {
            assert(conf[a] == old_conf[a]);
            lemma_text_lt_irreflexive(row.name@);
            if a < k {
                assert(text_lt(old_conf[a].name@, old_conf[k].name@));
            } else {
                assert(text_lt(old_conf[k].name@, old_conf[a].name@));
            }
            assert(saved_from_last(prefix, old_conf[a]));
            lemma_saved_from_last_push(prefix, row, old_conf[a]);
        }
    }
    assert forall|a: int| 0 <= a < old_conf.len() implies has_name(conf, #[trigger] old_conf[a].name@) by {
        assert(conf[a].name@ == old_conf[a].name@);
    }
    assert(conf[k].name@ == row.name@);
    lemma_names_cover_push(old_conf, conf, prefix, row);
}

/// Where a new name is inserted, every earlier name comes before it and every later
/// name after it.
proof fn lemma_insert_position(old_conf: Seq<MountConfiguration>, n: Seq<char>, k: int)
    requires
        names_strictly_sorted(old_conf),
        0 <= k <= old_conf.len(),
        forall|m: int| 0 <= m < k ==> text_lt(#[trigger] old_conf[m].name@, n),
        forall|m: int| k <= m < old_conf.len() ==> !text_lt(#[trigger] old_conf[m].name@, n),
        k == old_conf.len() || old_conf[k].name@ != n,
    ensures
        forall|m: int| k <= m < old_conf.len() ==> text_lt(n, #[trigger] old_conf[m].name@),
        forall|m: int| 0 <= m < old_conf.len() ==> #[trigger] old_conf[m].name@ != n,
{
    assert forall|m: int| k <= m < old_conf.len() implies text_lt(n, #[trigger] old_conf[m].name@) by {
        lemma_text_lt_total(old_conf[k].name@, n);
        if m > k {
            assert(text_lt(old_conf[k].name@, old_conf[m].name@));
            lemma_text_le_transitive(n, old_conf[k].name@, old_conf[m].name@);
        }
    }
    assert forall|m: int| 0 <= m < old_conf.len() implies #[trigger] old_conf[m].name@ != n by {
        lemma_text_lt_irreflexive(n);
    }
}

/// The saved configurations after a row whose name is not saved yet, inserted at the
/// position that keeps the names in order.
#[verifier::rlimit(30)]
proof fn lemma_saves_insert(old_conf: Seq<MountConfiguration>, prefix: Seq<TableRow>, row: TableRow,
    k: int, entry: MountConfiguration)
    requires
        saves(old_conf, prefix),
        0 <= k <= old_conf.len(),
        forall|m: int| 0 <= m < k ==> text_lt(#[trigger] old_conf[m].name@, row.name@),
        forall|m: int| k <= m < old_conf.len() ==> !text_lt(#[trigger] old_conf[m].name@, row.name@),
        k == old_conf.len() || old_conf[k].name@ != row.name@,
        entry@ == saved_config(row@),
    ensures
        saves(old_conf.insert(k, entry), prefix.push(row)),
{
    let next = prefix.push(row);
    let conf = old_conf.insert(k, entry);
    let n = row.name@;
    lemma_insert_position(old_conf, n, k);
    assert(next[prefix.len() as int] == row);
    assert(conf[k] == entry);
    assert forall|a: int, b: int| 0 <= a < b < conf.len() implies
        text_lt(#[trigger] conf[a].name@, #[trigger] conf[b].name@) by {
        if b < k {
            assert(text_lt(old_conf[a].name@, old_conf[b].name@));
        } else if b == k {
        } else if a < k {
            assert(conf[b] == old_conf[b - 1]);
            lemma_text_le_transitive(old_conf[a].name@, n, old_conf[b - 1].name@);
        } else if a == k {
            assert(conf[b] == old_conf[b - 1]);
        } else {
            assert(conf[a] == old_conf[a - 1]);
            assert(conf[b] == old_conf[b - 1]);
            assert(text_lt(old_conf[a - 1].name@, old_conf[b - 1].name@));
        }
    }
    assert forall|a: int| 0 <= a < conf.len() implies saved_from_last(next, #[trigger] conf[a]) by {
        if a == k {
            assert(last_named(next, conf[a].name@, prefix.len() as int));
        } else {
            let o = if a < k { a } else { a - 1 };
            assert(conf[a] == old_conf[o]);
            assert(old_conf[o].name@ != n);
            assert(saved_from_last(prefix, old_conf[o]));
            lemma_saved_from_last_push(prefix, row, old_conf[o]);
        }
    }
    assert forall|a: int| 0 <= a < old_conf.len() implies has_name(conf, #[trigger] old_conf[a].name@) by {
        if a < k {
            assert(conf[a] == old_conf[a]);
        } else {
            assert(conf[a + 1] == old_conf[a]);
        }
    }
    assert(conf[k].name@ == n);
    lemma_names_cover_push(old_conf, conf, prefix, row);
}

impl TuiActions {
    /// Reads the result of the table: every row's configuration under the row's name
    /// (the last row of a name wins), and the names to mount and to unmount.
    pub fn from_rows(rows: Vec<TableRow>) -> (r: Self)
        ensures
            saves(r.configurations@, rows@),
            texts(r.to_mount@) == names_with_action(rows@, MountAction::Mount),
            texts(r.to_unmount@) == names_with_action(rows@, MountAction::Unmount),
    {
        let ghost orig = rows@;
        let n = rows.len();
        let mut rest = rows;
        let mut conf: Vec<MountConfiguration> = Vec::new();
        let mut to_mount: Vec<String> = Vec::new();
        let mut to_unmount: Vec<String> = Vec::new();
        let mut i: usize = 0;
        assert(orig.skip(0) =~= orig);
        assert(orig.take(0) =~= Seq::<TableRow>::empty());
        while i < n
            invariant
                n == orig.len(),
                i <= n,
                rest@ == orig.skip(i as int),
                saves(conf@, orig.take(i as int)),
                texts(to_mount@) == names_with_action(orig.take(i as int), MountAction::Mount),
                texts(to_unmount@) == names_with_action(orig.take(i as int), MountAction::Unmount),
            decreases n - i,
        {
            let row = rest.remove(0);
            let ghost prefix = orig.take(i as int);
            let ghost next = orig.take(i + 1);
            proof {
                assert(row == orig[i as int]);
                assert(rest@ =~= orig.skip(i + 1));
                assert(next =~= prefix.push(row));
                assert(next.drop_last() =~= prefix);
            }
            match row.needs_mount {
                MountAction::Mount => to_mount.push(row.name.clone()),
                MountAction::Unmount => to_unmount.push(row.name.clone()),
                MountAction::NoChange => {},
            }
            assert(texts(to_mount@) =~= names_with_action(next, MountAction::Mount));
            assert(texts(to_unmount@) =~= names_with_action(next, MountAction::Unmount));
            let ghost row_v = row;
            let TableRow { name, config, is_mounted: _, needs_mount: _ } = row;
            let MountConfiguration { name: _, device, is_luks_encrypted, mount_point, filesystem } = config;
            let entry = MountConfiguration { name, device, is_luks_encrypted, mount_point, filesystem };
            assert(entry@ == saved_config(row_v@));
            proof {
                assert(names_sorted(conf@)) by {
                    assert forall|a: int, b: int| 0 <= a < b < conf@.len() implies
                        text_le(#[trigger] conf@[a].name_view(), #[trigger] conf@[b].name_view()) by {
                        assert(text_lt(conf@[a].name@, conf@[b].name@));
                    }
                }
            }
            let k = lower_bound(&conf, entry.name.as_str());
            assert(next =~= prefix.push(row_v));
            let ghost old_conf = conf@;
            let replace = k < conf.len() && compare_text(conf[k].name.as_str(), entry.name.as_str()) == TextOrder::Same;
            proof {
                assert forall|m: int| 0 <= m < k implies text_lt(#[trigger] old_conf[m].name@, row_v.name@) by {
                    assert(text_lt(conf@[m].name_view(), entry.name@));
                }
                assert forall|m: int| k <= m < old_conf.len() implies !text_lt(#[trigger] old_conf[m].name@, row_v.name@) by {
                    assert(!text_lt(conf@[m].name_view(), entry.name@));
                }
            }
            if replace {
                proof {
                    lemma_saves_replace(old_conf, prefix, row_v, k as int, entry);
                }
                conf.set(k, entry);
            } else {
                proof {
                    lemma_saves_insert(old_conf, prefix, row_v, k as int, entry);
                }
                conf.insert(k, entry);
            }
            i = i + 1;
        }
        assert(orig.take(n as int) =~= orig);
        TuiActions { configurations: conf, to_mount, to_unmount }
    }
}

// ---------------------------------------------------------------------------
// The interface's state machine
// ---------------------------------------------------------------------------

/// `TableState::select_next`: the row after the selected one, or the first row when
/// none is selected.
#[verifier::external_body]
fn select_next_row(selected: Option<usize>) -> (r: Option<usize>)
    ensures
        r == Some(next_row_index(selected)),
{
    let mut s = TableState::default().with_selected(selected);
    s.select_next();
    s.selected()
}

/// `TableState::select_previous`: the row before the selected one, or the last possible
/// row when none is selected.
#[verifier::external_body]
fn select_previous_row(selected: Option<usize>) -> (r: Option<usize>)
    ensures
        r == Some(previous_row_index(selected)),
{
    let mut s = TableState::default().with_selected(selected);
    s.select_previous();
    s.selected()
}

/// The row selected after moving down.
pub open spec fn next_row_index(selected: Option<usize>) -> usize {
    match selected {
        Option::None => 0,
        Some(i) => if i == usize::MAX {
            i
        } else {
            (i + 1) as usize
        },
    }
}

/// The row selected after moving up.
pub open spec fn previous_row_index(selected: Option<usize>) -> usize {
    match selected {
        Option::None => usize::MAX,
        Some(i) => if i == 0 {
            0
        } else {
            (i - 1) as usize
        },
    }
}

/// The abstract state of the interface: the table's rows, the selected row, and the
/// dialog shown over the table.
pub struct MountTuiView {
    pub rows: Seq<TableRow>,
    pub selected: Option<usize>,
    pub modal: ModalState,
}

/// A dialog that acts on the selected row is only open while a row is selected.
pub open spec fn tui_wf(v: MountTuiView) -> bool {
    match v.modal {
        ModalState::EditModal(m) => edit_modal_wf(m) && (v.selected matches Some(i) && i < v.rows.len()),
        ModalState::DeleteConfirmModal(_) => v.selected matches Some(i) && i < v.rows.len(),
        _ => true,
    }
}

/// The selected row, when the selection points at one.
pub open spec fn selected_row(v: MountTuiView) -> Option<int> {
    match v.selected {
        Some(i) => if i < v.rows.len() {
            Some(i as int)
        } else {
            Option::None
        },
        Option::None => Option::None,
    }
}

/// The question asked before deleting the row named `name`.
pub open spec fn delete_question(name: Seq<char>) -> Seq<char> {
    "Are you sure you want to delete '"@ + name + "'?"@
}

/// The title of the program information.
pub open spec fn info_title() -> Seq<char> {
    "Stirrup \u{1F434}"@
}

/// The program information.
pub open spec fn info_text() -> Seq<char> {
    "Stirrup: A TUI Mount Manager\n\nWhen you need to mount up, put your foot in the stirrup\n            \nCopyright (C) 2026 Joseph Skubal\n\nThis program is free software: you can redistribute it and/or modify\nit under the terms of the GNU General Public License as published by\nthe Free Software Foundation, either version 3 of the License, or\nany later version.\n\nThis program is distributed in the hope that it will be useful,\nbut WITHOUT ANY WARRANTY; without even the implied warranty of\nMERCHANTABILITY or FITNESS FOR A PARTICULAR PURPOSE.  See the\nGNU General Public License for more details."@
}

/// The message shown when two configurations share the name `name`.
pub open spec fn duplicate_message(name: Seq<char>) -> Seq<char> {
    "Configuration '"@ + name + "' is duplicated.\n    \nConfiguration names must be unique. If you save the configurations\nwithout fixing this, one variant may overwrite another"@
}

/// The name shared by the first two neighbouring rows that have the same name.
pub open spec fn first_duplicate(rows: Seq<TableRow>) -> Option<Seq<char>>
    decreases rows.len(),
{
    if rows.len() < 2 {
        Option::None
    } else if rows[0].name@ == rows[1].name@ {
        Some(rows[0].name@)
    } else {
        first_duplicate(rows.drop_first())
    }
}

/// The texts of `list`, with `sep` between neighbours.
pub open spec fn join_texts(list: Seq<Seq<char>>, sep: Seq<char>) -> Seq<char>
    decreases list.len(),
{
    if list.len() == 0 {
        Seq::empty()
    } else if list.len() == 1 {
        list[0]
    } else {
        join_texts(list.drop_last(), sep) + sep + list.last()
    }
}

/// `n` is a notification titled `title` showing `text`, scrolled to the top.
pub open spec fn notification_of(n: NotifyModal, title: Seq<char>, text: Seq<char>) -> bool {
    &&& n.title@ == title
    &&& n.text@ == text
    &&& n.scroll_length == count_char(text, '\n')
    &&& n.scroll_position == 0
}

/// Space toggles the pending action of the selected row.
pub open spec fn toggled(old: MountTuiView, new: MountTuiView) -> bool {
    match selected_row(old) {
        Some(i) => new == (MountTuiView {
            rows: old.rows.update(i, TableRow {
                needs_mount: toggled_action(old.rows[i].needs_mount, old.rows[i].is_mounted),
                ..old.rows[i]
            }),
            ..old
        }),
        Option::None => new == old,
    }
}

/// Delete asks whether to delete the selected row.
pub open spec fn delete_asked(old: MountTuiView, new: MountTuiView) -> bool {
    match selected_row(old) {
        Some(i) => {
            &&& new.rows == old.rows
            &&& new.selected == old.selected
            &&& (new.modal matches ModalState::DeleteConfirmModal(c) && c.text@ == delete_question(
                old.rows[i].name@,
            ) && !c.yes_selected)
        },
        Option::None => new == old,
    }
}

/// `+` or `n` appends an empty row, selects it and opens the editor on it.
pub open spec fn record_added(old: MountTuiView, new: MountTuiView) -> bool {
    let n = old.rows.len();
    &&& n < usize::MAX
    &&& new.rows.len() == n + 1
    &&& new.rows.take(n as int) == old.rows
    &&& new.rows[n as int]@ == (TableRowView {
        name: Seq::empty(),
        config: empty_config_view(),
        is_mounted: false,
        needs_mount: MountAction::NoChange,
    })
    &&& new.selected == Some(n as usize)
    &&& (new.modal matches ModalState::EditModal(m) && opened_for(m, new.rows[n as int]@))
}

/// `e` opens the editor on the selected row.
pub open spec fn edit_opened(old: MountTuiView, new: MountTuiView) -> bool {
    match selected_row(old) {
        Some(i) => {
            &&& new.rows == old.rows
            &&& new.selected == old.selected
            &&& (new.modal matches ModalState::EditModal(m) && opened_for(m, old.rows[i]@))
        },
        Option::None => new == old,
    }
}

/// `i` shows the program information.
pub open spec fn info_opened(old: MountTuiView, new: MountTuiView) -> bool {
    &&& new.rows == old.rows
    &&& new.selected == old.selected
    &&& (new.modal matches ModalState::Notification(n) && notification_of(n, info_title(), info_text()))
}

/// How the table answers a key when no dialog is open.
pub open spec fn main_key_step(old: MountTuiView, key: Key, new: MountTuiView, r: RunState<()>) -> bool {
    match key {
        Key::Esc => r is Abort && new == old,
        Key::Enter => r is Complete && new == old,
        Key::Up => r is Running && new == (MountTuiView {
            selected: Some(previous_row_index(old.selected)),
            ..old
        }),
        Key::Down => r is Running && new == (MountTuiView {
            selected: Some(next_row_index(old.selected)),
            ..old
        }),
        Key::Char(' ') => r is Running && toggled(old, new),
        Key::Char('-') | Key::Delete => r is Running && delete_asked(old, new),
        Key::Char('+') | Key::Char('n') => r is Running && record_added(old, new),
        Key::Char('e') => r is Running && edit_opened(old, new),
        Key::Char('i') => r is Running && info_opened(old, new),
        _ => r is Running && new == old,
    }
}

/// The errors reported after editing: the edited row's own problems, then a duplicated
/// name among the sorted rows.
pub open spec fn edit_errors(row: TableRowView, sorted: Seq<TableRow>) -> Seq<Seq<char>> {
    validation_errors(row) + match first_duplicate(sorted) {
        Some(n) => seq![duplicate_message(n)],
        Option::None => Seq::empty(),
    }
}

/// Accepting the editor stores the row in place of the selected one, sorts the rows by
/// name, and reports any errors.
pub open spec fn edit_finished(old: MountTuiView, row: TableRow, new: MountTuiView) -> bool {
    let i = old.selected->0 as int;
    let sorted = sort_by_name(old.rows.update(i, row));
    let errors = edit_errors(row@, sorted);
    &&& new.rows == sorted
    &&& new.selected == old.selected
    &&& if errors.len() == 0 {
        new.modal is Closed
    } else {
        (new.modal matches ModalState::Notification(n) && notification_of(n, "Error"@, join_texts(errors, "\n\n"@)))
    }
}

/// Discarding the editor removes the selected row if it is empty and closes the editor.
pub open spec fn edit_discarded(old: MountTuiView, new: MountTuiView) -> bool {
    let i = old.selected->0 as int;
    &&& new.rows == if row_is_empty(old.rows[i]@) {
        old.rows.remove(i)
    } else {
        old.rows
    }
    &&& new.selected == old.selected
    &&& new.modal is Closed
}

/// The interface after the editor answered a key.
pub open spec fn after_edit(old: MountTuiView, m: EditModal, er: RunState<TableRow>, new: MountTuiView) -> bool {
    match er {
        RunState::Running => new == (MountTuiView { modal: ModalState::EditModal(m), ..old }),
        RunState::Complete(row) => edit_finished(old, row, new),
        RunState::Abort => edit_discarded(old, new),
    }
}

/// The interface after the delete confirmation answered a key: yes deletes the selected
/// row, no and Escape keep it.
pub open spec fn after_confirm(old: MountTuiView, c: ConfirmModal, cr: RunState<bool>, new: MountTuiView) -> bool {
    match cr {
        RunState::Running => new == (MountTuiView { modal: ModalState::DeleteConfirmModal(c), ..old }),
        RunState::Complete(true) => new == (MountTuiView {
            rows: old.rows.remove(old.selected->0 as int),
            modal: ModalState::Closed,
            ..old
        }),
        _ => new == (MountTuiView { modal: ModalState::Closed, ..old }),
    }
}

/// The interface after a notification answered a key.
pub open spec fn after_notify(old: MountTuiView, n: NotifyModal, nr: RunState<()>, new: MountTuiView) -> bool {
    match nr {
        RunState::Running => new == (MountTuiView { modal: ModalState::Notification(n), ..old }),
        _ => new == (MountTuiView { modal: ModalState::Closed, ..old }),
    }
}

/// How the interface answers a key press: the open dialog gets it, or the table when
/// no dialog is open. Only the table ends the interface.
pub open spec fn tui_step(old: MountTuiView, press: KeyPress, new: MountTuiView, r: RunState<()>) -> bool {
    match old.modal {
        ModalState::Closed => main_key_step(old, press.key, new, r),
        ModalState::EditModal(m) => r is Running && exists|m2: EditModal, er: RunState<TableRow>|
            edit_step(m, press, m2, er) && after_edit(old, m2, er, new),
        ModalState::DeleteConfirmModal(c) => r is Running && exists|c2: ConfirmModal, cr: RunState<bool>|
            confirm_step(c, press.key, c2, cr) && after_confirm(old, c2, cr, new),
        ModalState::Notification(n) => r is Running && exists|n2: NotifyModal, nr: RunState<()>|
            notify_step(n, press.key, n2, nr) && after_notify(old, n2, nr, new),
    }
}

/// The interface: the table of configurations and the dialog over it.
pub struct MountTui {
    rows: Vec<TableRow>,
    selected: Option<usize>,
    modal: ModalState,
}

impl View for MountTui {
    type V = MountTuiView;

    closed spec fn view(&self) -> MountTuiView {
        MountTuiView { rows: self.rows@, selected: self.selected, modal: self.modal }
    }
}

/// The first name shared by two neighbouring rows.
fn find_duplicate(rows: &Vec<TableRow>) -> (r: Option<String>)
    ensures
        opt_text(r) == first_duplicate(rows@),
{
    let mut i: usize = 0;
    assert(rows@.skip(0) =~= rows@);
    while i < rows.len() && i + 1 < rows.len()
        invariant
            i <= rows.len(),
            first_duplicate(rows@) == first_duplicate(rows@.skip(i as int)),
        decreases rows.len() - i,
    {
        assert(rows@.skip(i as int).drop_first() =~= rows@.skip(i + 1));
        if compare_text(rows[i].name.as_str(), rows[i + 1].name.as_str()) == TextOrder::Same {
            return Some(rows[i].name.clone());
        }
        i = i + 1;
    }
    Option::None
}

/// Joins `list` with `sep` between neighbours.
fn join_strings(list: &Vec<String>, sep: &str) -> (r: String)
    ensures
        r@ == join_texts(texts(list@), sep@),
{
    let mut r = String::new();
    for i in 0..list.len()
        invariant
            r@ == join_texts(texts(list@.take(i as int)), sep@),
    {
        assert(texts(list@.take(i + 1)).drop_last() =~= texts(list@.take(i as int)));
        if i > 0 {
            r.append(sep);
        } else {
            assert(texts(list@.take(i as int)) =~= Seq::<Seq<char>>::empty());
        }
        r.append(list[i].as_str());
    }
    assert(list@.take(list.len() as int) =~= list@);
    r
}

impl MountTui {
    #[verifier::type_invariant]
    spec fn wf(self) -> bool {
        tui_wf(self@)
    }

    /// The interface over the saved configurations, given what is mounted.
    pub fn new(config: &ConfigFile, mounted: &[MountConfiguration]) -> (r: Self)
        ensures
            r@.rows.len() == config@.len(),
            forall|i: int| 0 <= i < r@.rows.len() ==> #[trigger] r@.rows[i]@ == row_for(config@[i], mounted@),
            r@.selected is None,
            r@.modal is Closed,
    {
        MountTui { rows: make_table_rows(config, mounted), selected: Option::None, modal: ModalState::Closed }
    }

    pub fn rows(&self) -> (r: &[TableRow])
        ensures
            r@ == self@.rows,
    {
        self.rows.as_slice()
    }

    pub fn selected(&self) -> (r: Option<usize>)
        ensures
            r == self@.selected,
    {
        self.selected
    }

    pub fn modal(&self) -> (r: &ModalState)
        ensures
            *r == self@.modal,
    {
        &self.modal
    }

    /// Takes the selection as the drawn table reports it. While a dialog that acts on the
    /// selected row is open, the selection stays where it is.
    pub fn set_selected(&mut self, selected: Option<usize>)
        ensures
            final(self)@ == if old(self)@.modal is EditModal || old(self)@.modal is DeleteConfirmModal {
                old(self)@
            } else {
                MountTuiView { selected, ..old(self)@ }
            },
    {
        proof {
            use_type_invariant(&*self);
        }
        match &self.modal {
            ModalState::EditModal(_) | ModalState::DeleteConfirmModal(_) => {},
            _ => self.selected = selected,
        }
    }

    fn toggle_mounted(&mut self)
        requires
            old(self)@.modal is Closed,
        ensures
            toggled(old(self)@, final(self)@),
    {
        if let Some(idx) = self.selected {
            if idx < self.rows.len() {
                let mut rows = Vec::new();
                std::mem::swap(&mut rows, &mut self.rows);
                let mut row = rows.remove(idx);
                row.toggle_mount();
                rows.insert(idx, row);
                self.rows = rows;
                assert(self@.rows =~= old(self)@.rows.update(idx as int, row));
            }
        }
    }

    fn open_delete_modal(&mut self)
        requires
            old(self)@.modal is Closed,
        ensures
            delete_asked(old(self)@, final(self)@),
    {
        if let Some(idx) = self.selected {
            if idx < self.rows.len() {
                let mut text = String::from_str("Are you sure you want to delete '");
                text.append(self.rows[idx].name.as_str());
                text.append("'?");
                self.modal = ModalState::DeleteConfirmModal(ConfirmModal::new(text));
            }
        }
    }

    fn open_info_modal(&mut self)
        ensures
            info_opened(old(self)@, final(self)@),
    {
        let text = String::from_str("Stirrup: A TUI Mount Manager\n\nWhen you need to mount up, put your foot in the stirrup\n            \nCopyright (C) 2026 Joseph Skubal\n\nThis program is free software: you can redistribute it and/or modify\nit under the terms of the GNU General Public License as published by\nthe Free Software Foundation, either version 3 of the License, or\nany later version.\n\nThis program is distributed in the hope that it will be useful,\nbut WITHOUT ANY WARRANTY; without even the implied warranty of\nMERCHANTABILITY or FITNESS FOR A PARTICULAR PURPOSE.  See the\nGNU General Public License for more details.");
        self.modal = ModalState::Notification(NotifyModal::new("Stirrup \u{1F434}", text));
    }

    fn add_record(&mut self)
        requires
            old(self)@.modal is Closed,
        ensures
            record_added(old(self)@, final(self)@),
    {
        let row = TableRow::new();
        let m = EditModal::new(&row);
        let mut rows = Vec::new();
        std::mem::swap(&mut rows, &mut self.rows);
        rows.push(row);
        self.rows = rows;
        assert(self@.rows.take(old(self)@.rows.len() as int) =~= old(self)@.rows);
        self.selected = Some(self.rows.len() - 1);
        self.modal = ModalState::EditModal(m);
    }

    fn edit_record(&mut self)
        requires
            old(self)@.modal is Closed,
        ensures
            edit_opened(old(self)@, final(self)@),
    {
        if let Some(idx) = self.selected {
            if idx < self.rows.len() {
                let m = EditModal::new(&self.rows[idx]);
                self.modal = ModalState::EditModal(m);
            }
        }
    }

    fn handle_main_key(&mut self, key: Key) -> (r: RunState<()>)
        requires
            old(self)@.modal is Closed,
        ensures
            main_key_step(old(self)@, key, final(self)@, r),
    {
        match key {
            Key::Esc => return RunState::Abort,
            Key::Enter => return RunState::Complete(()),
            Key::Up => self.selected = select_previous_row(self.selected),
            Key::Down => self.selected = select_next_row(self.selected),
            Key::Char(' ') => self.toggle_mounted(),
            Key::Char('-') | Key::Delete => self.open_delete_modal(),
            Key::Char('+') | Key::Char('n') => self.add_record(),
            Key::Char('e') => self.edit_record(),
            Key::Char('i') => self.open_info_modal(),
            _ => {},
        }
        RunState::Running
    }

    fn finish_edit(&mut self, row: TableRow)
        requires
            old(self)@.modal is Closed,
            old(self)@.selected matches Some(i) && i < old(self)@.rows.len(),
        ensures
            edit_finished(old(self)@, row, final(self)@),
    {
        let ghost row_copy = row;
        let errors_row = row.validate();
        let idx = self.selected.unwrap();
        let mut rows = Vec::new();
        std::mem::swap(&mut rows, &mut self.rows);
        rows.set(idx, row);
        self.rows = sort_records(rows);
        let mut errors = errors_row;
        match find_duplicate(&self.rows) {
            Some(x) => {
                let mut message = String::from_str("Configuration '");
                message.append(x.as_str());
                message.append("' is duplicated.\n    \nConfiguration names must be unique. If you save the configurations\nwithout fixing this, one variant may overwrite another");
                errors.push(message);
            },
            Option::None => {},
        }
        assert(texts(errors@) =~= edit_errors(row_copy@, self@.rows));
        if errors.len() > 0 {
            let text = join_strings(&errors, "\n\n");
            self.modal = ModalState::Notification(NotifyModal::new("Error", text));
        }
    }

    fn discard_edit(&mut self)
        requires
            old(self)@.modal is Closed,
            old(self)@.selected matches Some(i) && i < old(self)@.rows.len(),
        ensures
            edit_discarded(old(self)@, final(self)@),
    {
        let idx = self.selected.unwrap();
        if self.rows[idx].is_empty() {
            let mut rows = Vec::new();
            std::mem::swap(&mut rows, &mut self.rows);
            rows.remove(idx);
            self.rows = rows;
        }
    }

    /// Answers one key press.
    pub fn handle_key(&mut self, press: KeyPress) -> (r: RunState<()>)
        ensures
            tui_step(old(self)@, press, final(self)@, r),
    {
        proof {
            use_type_invariant(&*self);
        }
        let ghost old_view = self@;
        let mut modal = ModalState::Closed;
        std::mem::swap(&mut modal, &mut self.modal);
        match modal {
            ModalState::Closed => {
                return self.handle_main_key(press.key);
            },
            ModalState::EditModal(mut m) => {
                let ghost m_before = m;
                let er = m.handle_key(press);
                let ghost er_copy = er;
                match er {
                    RunState::Running => {
                        self.modal = ModalState::EditModal(m);
                    },
                    RunState::Complete(row) => {
                        self.finish_edit(row);
                    },
                    RunState::Abort => {
                        self.discard_edit();
                    },
                }
                assert(edit_step(m_before, press, m, er_copy) && after_edit(old_view, m, er_copy, self@));
            },
            ModalState::DeleteConfirmModal(mut c) => {
                let ghost c_before = c;
                let cr = c.handle_key(press.key);
                match cr {
                    RunState::Running => {
                        self.modal = ModalState::DeleteConfirmModal(c);
                    },
                    RunState::Complete(true) => {
                        let idx = self.selected.unwrap();
                        let mut rows = Vec::new();
                        std::mem::swap(&mut rows, &mut self.rows);
                        rows.remove(idx);
                        self.rows = rows;
                    },
                    _ => {},
                }
                assert(confirm_step(c_before, press.key, c, cr) && after_confirm(old_view, c, cr, self@));
            },
            ModalState::Notification(mut n) => {
                let ghost n_before = n;
                let nr = n.handle_key(press.key);
                match nr {
                    RunState::Running => {
                        self.modal = ModalState::Notification(n);
                    },
                    _ => {},
                }
                assert(notify_step(n_before, press.key, n, nr) && after_notify(old_view, n, nr, self@));
            },
        }
        RunState::Running
    }

    /// The actions chosen on the interface: every row's configuration under the row's
    /// name, and the names to mount and to unmount.
    pub fn into_actions(self) -> (r: TuiActions)
        ensures
            saves(r.configurations@, self@.rows),
            texts(r.to_mount@) == names_with_action(self@.rows, MountAction::Mount),
            texts(r.to_unmount@) == names_with_action(self@.rows, MountAction::Unmount),
    {
        let mut tui = self;
        tui.modal = ModalState::Closed;
        let mut rows = Vec::new();
        std::mem::swap(&mut rows, &mut tui.rows);
        TuiActions::from_rows(rows)
    }
}

/// After the editor is accepted the table is sorted by name and holds the same rows as
/// before, with the edited one in place of the selected row.
pub proof fn lemma_edit_keeps_table_sorted(old: MountTuiView, row: TableRow, new: MountTuiView)
    requires
        edit_finished(old, row, new),
        old.selected matches Some(i) && i < old.rows.len(),
    ensures
        names_sorted(new.rows),
        new.rows.to_multiset() == old.rows.update(old.selected->0 as int, row).to_multiset(),
        new.rows.len() == old.rows.len(),
{
    let upd = old.rows.update(old.selected->0 as int, row);
    crate::order::lemma_sort_is_sorted(upd);
    crate::order::lemma_sort_is_permutation(upd);
}

/// Confirming a deletion removes exactly the selected row; any other answer keeps the
/// table as it was.
pub proof fn lemma_delete_removes_selected(old: MountTuiView, c: ConfirmModal, cr: RunState<bool>, new: MountTuiView)
    requires
        after_confirm(old, c, cr, new),
        old.selected matches Some(i) && i < old.rows.len(),
    ensures
        cr == RunState::Complete(true) ==> new.rows.len() == old.rows.len() - 1
            && new.rows == old.rows.remove(old.selected->0 as int),
        cr != RunState::<bool>::Complete(true) ==> new.rows == old.rows,
{
}

/// Every key keeps the interface well formed: a dialog that acts on the selected row is
/// only ever open while that row exists, and the editor's cursors stay in their texts.
pub proof fn lemma_step_keeps_wf(old: MountTuiView, press: KeyPress, new: MountTuiView, r: RunState<()>)
    requires
        tui_wf(old),
        tui_step(old, press, new, r),
    ensures
        tui_wf(new),
{
    match old.modal {
        ModalState::Closed => {
            if let Some(i) = selected_row(old) {
                assert(old.rows.update(i, TableRow {
                    needs_mount: toggled_action(old.rows[i].needs_mount, old.rows[i].is_mounted),
                    ..old.rows[i]
                }).len() == old.rows.len());
            }
        },
        ModalState::EditModal(m) => {
            let (m2, er) = choose|m2: EditModal, er: RunState<TableRow>|
                edit_step(m, press, m2, er) && after_edit(old, m2, er, new);
            assert(edit_step(m, press, m2, er));
        },
        _ => {},
    }
}

/// While the editor opened by adding a record stays open, the table holds the old rows
/// followed by the new, still empty row, and that row stays selected.
pub open spec fn editing_new_row(start: MountTuiView, v: MountTuiView) -> bool {
    let n = start.rows.len();
    &&& v.rows.len() == n + 1
    &&& v.rows.take(n as int) == start.rows
    &&& v.rows[n as int]@ == (TableRowView {
        name: Seq::empty(),
        config: empty_config_view(),
        is_mounted: false,
        needs_mount: MountAction::NoChange,
    })
    &&& v.selected == Some(n as usize)
    &&& v.modal is EditModal
}

proof fn lemma_editor_keeps_new_row(start: MountTuiView, states: Seq<MountTuiView>, presses: Seq<KeyPress>,
    rs: Seq<RunState<()>>, j: int)
    requires
        states.len() == presses.len() + 1,
        rs.len() == presses.len(),
        record_added(start, states[0]),
        forall|i: int| 0 <= i < presses.len() ==> tui_step(#[trigger] states[i], presses[i], states[i + 1], rs[i]),
        forall|i: int| 0 <= i < states.len() - 1 ==> (#[trigger] states[i]).modal is EditModal,
        0 <= j < states.len() - 1,
    ensures
        editing_new_row(start, states[j]),
    decreases j,
{
    if j > 0 {
        lemma_editor_keeps_new_row(start, states, presses, rs, j - 1);
        let prev = states[j - 1];
        assert(tui_step(states[j - 1], presses[j - 1], states[j], rs[j - 1]));
        assert(states[j].modal is EditModal);
        let m = prev.modal->EditModal_0;
        let (m2, er) = choose|m2: EditModal, er: RunState<TableRow>|
            edit_step(m, presses[j - 1], m2, er) && after_edit(prev, m2, er, states[j]);
        assert(er is Running);
    }
}

/// Adding a record and then leaving the editor without accepting (Escape, or Enter on
/// Discard), whatever was typed meanwhile, gives back the table as it was and closes the
/// editor.
pub proof fn lemma_add_then_discard(start: MountTuiView, states: Seq<MountTuiView>, presses: Seq<KeyPress>,
    rs: Seq<RunState<()>>)
    requires
        start.modal is Closed,
        presses.len() >= 1,
        states.len() == presses.len() + 1,
        rs.len() == presses.len(),
        record_added(start, states[0]),
        forall|i: int| 0 <= i < presses.len() ==> tui_step(#[trigger] states[i], presses[i], states[i + 1], rs[i]),
        forall|i: int| 0 <= i < states.len() - 1 ==> (#[trigger] states[i]).modal is EditModal,
        presses.last().key == Key::Esc || (presses.last().key == Key::Enter
            && states[presses.len() - 1].modal->EditModal_0.selected == modal::EditSelection::DiscardButton),
    ensures
        states.last().rows == start.rows,
        states.last().modal is Closed,
{
    let k = presses.len() - 1;
    lemma_editor_keeps_new_row(start, states, presses, rs, k);
    let prev = states[k];
    let n = start.rows.len();
    assert(tui_step(states[k], presses[k], states[k + 1], rs[k]));
    let m = prev.modal->EditModal_0;
    let (m2, er) = choose|m2: EditModal, er: RunState<TableRow>|
        edit_step(m, presses[k], m2, er) && after_edit(prev, m2, er, states[k + 1]);
    assert(er is Abort);
    assert(row_is_empty(prev.rows[n as int]@));
    assert(prev.rows.remove(n as int) =~= prev.rows.take(n as int));
    assert(prev.selected->0 as int == n);
    assert(edit_discarded(prev, states[k + 1]));
    assert(states[k + 1].rows == prev.rows.remove(n as int));
    assert(states.last() == states[k + 1]);
}

/// A table row shows its configuration as saved, under the configuration's name, with
/// nothing pending, and is marked mounted exactly when some mount-table record has the
/// same mount point (by path), whether or not the configuration is encrypted.
pub proof fn lemma_row_marks_mount_point(c: MountConfiguration, mounted: Seq<MountConfiguration>)
    ensures
        row_for(c, mounted).is_mounted <==> exists|k: int|
            0 <= k < mounted.len() && same_path(#[trigger] mounted[k].mount_point@, c.mount_point@),
        row_for(c, mounted).name == c.name@,
        row_for(c, mounted).config.name == c.name@,
        row_for(c, mounted).config.device == c.device@,
        row_for(c, mounted).config.is_luks_encrypted == c.is_luks_encrypted,
        row_for(c, mounted).config.mount_point == c.mount_point@,
        row_for(c, mounted).config.filesystem == opt_text(c.filesystem),
        row_for(c, mounted).needs_mount == MountAction::NoChange,
{
}

/// Every saved configuration is, field by field, the configuration of the last row that
/// carries its name: its name is that row's name, and its device, encryption flag, mount
/// point and filesystem type are that row's own.
pub proof fn lemma_saved_fields(conf: Seq<MountConfiguration>, rows: Seq<TableRow>)
    requires
        saves(conf, rows),
    ensures
        forall|i: int| 0 <= i < conf.len() ==> exists|j: int| {
            &&& 0 <= j < rows.len()
            &&& rows[j].name@ == (#[trigger] conf[i]).name@
            &&& forall|m: int| j < m < rows.len() ==> rows[m].name@ != conf[i].name@
            &&& conf[i].device@ == rows[j].config.device@
            &&& conf[i].is_luks_encrypted == rows[j].config.is_luks_encrypted
            &&& conf[i].mount_point@ == rows[j].config.mount_point@
            &&& opt_text(conf[i].filesystem) == opt_text(rows[j].config.filesystem)
        },
{
    assert forall|i: int| 0 <= i < conf.len() implies exists|j: int| {
        &&& 0 <= j < rows.len()
        &&& rows[j].name@ == (#[trigger] conf[i]).name@
        &&& forall|m: int| j < m < rows.len() ==> rows[m].name@ != conf[i].name@
        &&& conf[i].device@ == rows[j].config.device@
        &&& conf[i].is_luks_encrypted == rows[j].config.is_luks_encrypted
        &&& conf[i].mount_point@ == rows[j].config.mount_point@
        &&& opt_text(conf[i].filesystem) == opt_text(rows[j].config.filesystem)
    } by {
        assert(saved_from_last(rows, conf[i]));
        let j = choose|j: int| last_named(rows, conf[i].name@, j) && conf[i]@ == saved_config(#[trigger] rows[j]@);
        assert(conf[i]@.filesystem == rows[j]@.config.filesystem);
    }
}

/// With no dialog open and a row selected, `e` opens the editor on that row: its fields
/// hold the selected row's name, device, mount point and filesystem type, the table and
/// the selection stay as they were, and the interface keeps running.
pub proof fn lemma_edit_key_opens_selected(old: MountTuiView, new: MountTuiView, r: RunState<()>, i: usize)
    requires
        old.modal is Closed,
        old.selected == Some(i),
        i < old.rows.len(),
        main_key_step(old, Key::Char('e'), new, r),
    ensures
        r is Running,
        new.rows == old.rows,
        new.selected == old.selected,
        new.modal is EditModal,
        modal::input_text(new.modal->EditModal_0.name) == old.rows[i as int].name@,
        modal::input_text(new.modal->EditModal_0.device) == old.rows[i as int].config.device@,
        modal::input_text(new.modal->EditModal_0.mount_point) == old.rows[i as int].config.mount_point@,
        modal::input_text(new.modal->EditModal_0.filesystem) == match old.rows[i as int].config.filesystem {
            Some(f) => f@,
            Option::None => Seq::<char>::empty(),
        },
        new.modal->EditModal_0.is_mounted == old.rows[i as int].is_mounted,
        new.modal->EditModal_0.needs_mount == old.rows[i as int].needs_mount,
{
    assert(selected_row(old) == Some(i as int));
}

/// The duplicate reported after sorting is found among neighbouring rows: there is one
/// exactly when some row has the same name as the row right after it, and then it is the
/// name of the first such pair.
pub proof fn lemma_first_duplicate_is_first_pair(rows: Seq<TableRow>)
    ensures
        first_duplicate(rows) is Some <==> exists|k: int| 0 <= k < rows.len() - 1
            && #[trigger] rows[k].name@ == rows[k + 1].name@,
        first_duplicate(rows) matches Some(n) ==> exists|k: int| {
            &&& 0 <= k < rows.len() - 1
            &&& #[trigger] rows[k].name@ == rows[k + 1].name@
            &&& n == rows[k].name@
            &&& forall|m: int| 0 <= m < k ==> #[trigger] rows[m].name@ != rows[m + 1].name@
        },
    decreases rows.len(),
{
    if rows.len() >= 2 {
        let rest = rows.drop_first();
        lemma_first_duplicate_is_first_pair(rest);
        if rows[0].name@ != rows[1].name@ {
            assert forall|k: int| 0 <= k < rest.len() - 1 implies
                (#[trigger] rest[k].name@ == rest[k + 1].name@) == (rows[k + 1].name@ == rows[k + 2].name@) by {
                assert(rest[k] == rows[k + 1]);
                assert(rest[k + 1] == rows[k + 2]);
            }
            if exists|k: int| 0 <= k < rows.len() - 1 && #[trigger] rows[k].name@ == rows[k + 1].name@ {
                let k = choose|k: int| 0 <= k < rows.len() - 1 && #[trigger] rows[k].name@ == rows[k + 1].name@;
                assert(k >= 1);
                assert(rest[k - 1].name@ == rest[k].name@);
            }
            if let Some(n) = first_duplicate(rows) {
                let k = choose|k: int| {
                    &&& 0 <= k < rest.len() - 1
                    &&& #[trigger] rest[k].name@ == rest[k + 1].name@
                    &&& n == rest[k].name@
                    &&& forall|m: int| 0 <= m < k ==> #[trigger] rest[m].name@ != rest[m + 1].name@
                };
                assert(rows[k + 1].name@ == rows[k + 2].name@);
                assert forall|m: int| 0 <= m < k + 1 implies #[trigger] rows[m].name@ != rows[m + 1].name@ by {
                    if m > 0 {
                        assert(rest[m - 1] == rows[m]);
                        assert(rest[m] == rows[m + 1]);
                    }
                }
            }
        } else {
            assert(rows[0].name@ == rows[1].name@);
        }
    }
}

} // verus!
