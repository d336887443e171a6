use stirrup::interface::modal::{
    cursor_column, ConfirmModal, EditModal, EditSelection, FieldStyle, ModalState, NotifyModal,
    TextEdit,
};
use stirrup::interface::{
    display_boolean, make_table_rows, Key, KeyPress, MountAction, MountTui, RunState, TableRow,
    TuiActions,
};
use stirrup::mount::{
    failure_message, mapping_for, missing_data_msg, parse_mtab, stops_after_failure, CommandKind,
    ConfigFile, MountConfiguration, MtabError,
};
use stirrup::order::sort_records;
use stirrup::text::{compare_text, split_lines, split_words, TextOrder};

fn config(name: &str, device: &str, luks: bool, mount_point: &str, fs: Option<&str>) -> MountConfiguration {
    MountConfiguration {
        name: name.to_string(),
        device: device.to_string(),
        is_luks_encrypted: luks,
        mount_point: mount_point.to_string(),
        filesystem: fs.map(|s| s.to_string()),
    }
}

fn names(v: &[MountConfiguration]) -> Vec<String> {
    v.iter().map(|c| c.name.clone()).collect()
}

fn press(key: Key) -> KeyPress {
    KeyPress { key, edit: None }
}

fn typed(c: char) -> KeyPress {
    KeyPress { key: Key::Char(c), edit: Some(TextEdit::InsertChar(c)) }
}

#[test]
fn text_order_is_lexicographic() {
    assert_eq!(compare_text("abc", "abd"), TextOrder::Before);
    assert_eq!(compare_text("abc", "ab"), TextOrder::After);
    assert_eq!(compare_text("", ""), TextOrder::Same);
    assert_eq!(compare_text("", "a"), TextOrder::Before);
    assert_eq!(compare_text("B", "a"), TextOrder::Before);
    assert_eq!(compare_text("nas", "nas"), TextOrder::Same);
}

#[test]
fn config_file_sorts_by_name_and_keeps_equal_names_in_order() {
    let file = ConfigFile::new(vec![
        config("usb", "/dev/sdb1", false, "/mnt/usb", None),
        config("backup", "/dev/sdc1", true, "/mnt/backup", Some("ext4")),
        config("nas", "nas:/a", false, "/mnt/nas", Some("nfs")),
        config("backup", "/dev/sdd1", false, "/mnt/b2", None),
    ]);
    assert_eq!(names(file.iter()), vec!["backup", "backup", "nas", "usb"]);
    assert_eq!(file.iter()[0].device, "/dev/sdc1");
    assert_eq!(file.iter()[1].device, "/dev/sdd1");
}

#[test]
fn get_config_finds_the_first_of_a_name() {
    let file = ConfigFile::new(vec![
        config("usb", "/dev/sdb1", false, "/mnt/usb", None),
        config("backup", "/dev/sdc1", true, "/mnt/backup", None),
        config("backup", "/dev/sdd1", false, "/mnt/b2", None),
    ]);
    assert_eq!(file.get_config("backup").unwrap().device, "/dev/sdc1");
    assert_eq!(file.get_config("usb").unwrap().mount_point, "/mnt/usb");
    assert!(file.get_config("nas").is_none());
    assert!(file.get_config("").is_none());
    assert!(ConfigFile::default().get_config("usb").is_none());
}

#[test]
fn sorting_empty_and_single() {
    let v: Vec<MountConfiguration> = sort_records(Vec::new());
    assert!(v.is_empty());
    let v = sort_records(vec![config("a", "d", false, "m", None)]);
    assert_eq!(names(&v), vec!["a"]);
}

#[test]
fn cryptsetup_mapping_replaces_other_characters() {
    let c = config("my disk!", "/dev/sdb1", true, "/mnt/x", None);
    assert_eq!(c.cryptsetup_mapping(), "stirrup-my_disk_");
    let c = config("Backup2", "/dev/sdb1", true, "/mnt/x", None);
    assert_eq!(c.cryptsetup_mapping(), "stirrup-Backup2");
    let c = config("é-x", "/dev/sdb1", true, "/mnt/x", None);
    assert_eq!(c.cryptsetup_mapping(), "stirrup-__x");
    let c = config("", "/dev/sdb1", true, "/mnt/x", None);
    assert_eq!(c.cryptsetup_mapping(), "stirrup-");
}

#[test]
fn mount_command_of_a_plain_device() {
    let c = config("usb", "/dev/sdb1", false, "/mnt/usb", None);
    assert_eq!(c.mount_command(), vec!["sudo", "mount", "/dev/sdb1", "/mnt/usb"]);
    let c = config("nas", "nas:/share", false, "/mnt/nas", Some("nfs"));
    assert_eq!(c.mount_command(), vec!["sudo", "mount", "-t", "nfs", "nas:/share", "/mnt/nas"]);
}

#[test]
fn mount_command_of_an_encrypted_device_uses_the_mapping() {
    let c = config("secure", "/dev/sdc1", true, "/mnt/secure", Some("ext4"));
    assert_eq!(
        c.mount_command(),
        vec!["sudo", "mount", "-t", "ext4", "/dev/mapper/stirrup-secure", "/mnt/secure"]
    );
    assert_eq!(
        c.decrypt_command(),
        vec!["sudo", "cryptsetup", "luksOpen", "/dev/sdc1", "stirrup-secure"]
    );
    assert_eq!(c.encrypt_command(), vec!["sudo", "cryptsetup", "luksClose", "stirrup-secure"]);
    assert_eq!(c.unmount_command(), vec!["sudo", "umount", "/mnt/secure"]);
}

#[test]
fn failure_messages() {
    assert_eq!(failure_message(CommandKind::Mount), "mount command did not exit successfully");
    assert_eq!(failure_message(CommandKind::Unmount), "umount command did not exit successfully");
    assert_eq!(
        failure_message(CommandKind::Decrypt),
        "cryptsetup luksOpen ommand did not exit successfully"
    );
    assert_eq!(
        failure_message(CommandKind::Encrypt),
        "cryptsetup luksClose command did not exit successfully"
    );
}

#[test]
fn lines_and_fields() {
    let lines = split_lines("a b\nc\n\nd");
    let lines: Vec<String> = lines.iter().map(|l| l.iter().collect()).collect();
    assert_eq!(lines, vec!["a b", "c", "", "d"]);
    assert!(split_lines("").is_empty());
    assert_eq!(split_lines("x\n").len(), 1);
    let words = split_words(&"  proc\t/proc  proc rw 0 0\r".chars().collect());
    assert_eq!(words, vec!["proc", "/proc", "proc", "rw", "0", "0"]);
    assert!(split_words(&Vec::new()).is_empty());
}

#[test]
fn parse_mtab_reads_three_fields_per_line() {
    let data = "sysfs /sys sysfs rw,nosuid 0 0\n/dev/sda1 / ext4 rw 0 0\n";
    let v = parse_mtab(data).unwrap();
    assert_eq!(v.len(), 2);
    assert_eq!(v[0].device, "sysfs");
    assert_eq!(v[0].mount_point, "/sys");
    assert_eq!(v[0].filesystem.as_deref(), Some("sysfs"));
    assert_eq!(v[1].device, "/dev/sda1");
    assert_eq!(v[1].mount_point, "/");
    assert_eq!(v[1].name, "");
    assert!(!v[1].is_luks_encrypted);
    assert!(parse_mtab("").unwrap().is_empty());
}

#[test]
fn parse_mtab_reports_the_first_missing_field() {
    assert_eq!(parse_mtab("a b c\n\n").unwrap_err(), MtabError::MissingDevice);
    assert_eq!(parse_mtab("a\n").unwrap_err(), MtabError::MissingMountPoint);
    assert_eq!(parse_mtab("a b c\na b\nx\n").unwrap_err(), MtabError::MissingFilesystem);
    assert_eq!(MtabError::MissingDevice.message(), "no device found in mtab record");
    assert_eq!(MtabError::MissingMountPoint.message(), "no mount point found in mtab record");
    assert_eq!(MtabError::MissingFilesystem.message(), "no filesystem found in mtab record");
}

#[test]
fn missing_data_msg_passes_data_or_reports() {
    assert_eq!(missing_data_msg(Some("x".to_string()), MtabError::MissingDevice), Ok("x".to_string()));
    assert_eq!(missing_data_msg(None, MtabError::MissingFilesystem), Err(MtabError::MissingFilesystem));
}

#[test]
fn table_row_new_is_empty_and_invalid() {
    let row = TableRow::new();
    assert!(row.is_empty());
    assert_eq!(
        row.validate(),
        vec![
            "The 'name' field cannot be empty.",
            "The 'device' field cannot be empty.",
            "The 'mount_point' field cannot be empty.",
        ]
    );
    let mut row = TableRow::new();
    row.name = "x".to_string();
    assert!(!row.is_empty());
    assert_eq!(row.validate().len(), 2);
}

#[test]
fn toggle_mount_twice_restores() {
    let mut row = TableRow::new();
    row.toggle_mount();
    assert_eq!(row.needs_mount, MountAction::Mount);
    assert_eq!(row.mounted_cell(), "Yes *");
    row.toggle_mount();
    assert_eq!(row.needs_mount, MountAction::NoChange);
    assert_eq!(row.mounted_cell(), "No");
    row.is_mounted = true;
    row.toggle_mount();
    assert_eq!(row.needs_mount, MountAction::Unmount);
    assert_eq!(row.mounted_cell(), "No *");
    assert!(MountAction::Unmount.changed());
    assert!(!MountAction::NoChange.changed());
    assert_eq!(display_boolean(true), "Yes");
    assert_eq!(display_boolean(false), "No");
}

#[test]
fn edit_selection_moves() {
    assert_eq!(EditSelection::Name.down(false), EditSelection::Device);
    assert_eq!(EditSelection::Name.down(true), EditSelection::AcceptButton);
    assert_eq!(EditSelection::AcceptButton.up(true), EditSelection::Name);
    assert_eq!(EditSelection::DiscardButton.up(false), EditSelection::Filesystem);
    assert_eq!(EditSelection::Filesystem.next(false), EditSelection::AcceptButton);
    assert_eq!(EditSelection::AcceptButton.next(false), EditSelection::DiscardButton);
    assert_eq!(EditSelection::DiscardButton.previous(false), EditSelection::AcceptButton);
    assert_eq!(EditSelection::AcceptButton.previous(true), EditSelection::Name);
    assert_eq!(EditSelection::AcceptButton.right(), EditSelection::DiscardButton);
    assert_eq!(EditSelection::DiscardButton.left(), EditSelection::AcceptButton);
    assert_eq!(EditSelection::Device.left(), EditSelection::Device);
    assert!(EditSelection::AcceptButton.is_button());
    assert!(!EditSelection::LuksName.is_button());
    for s in [EditSelection::Name, EditSelection::Device, EditSelection::MountPoint, EditSelection::LuksName, EditSelection::Filesystem, EditSelection::AcceptButton] {
        if s != EditSelection::Filesystem {
            assert_eq!(s.next(false).previous(false), s);
        }
    }
}

#[test]
fn confirm_modal_defaults_to_no() {
    let mut c = ConfirmModal::new("Delete?".to_string());
    assert!(matches!(c.handle_key(Key::Enter), RunState::Complete(false)));
    assert!(matches!(c.handle_key(Key::Left), RunState::Running));
    assert!(matches!(c.handle_key(Key::Enter), RunState::Complete(true)));
    assert!(matches!(c.handle_key(Key::Right), RunState::Running));
    assert!(!c.yes_selected);
    assert!(matches!(c.handle_key(Key::Esc), RunState::Abort));
}

#[test]
fn notify_modal_counts_lines_and_scrolls_within_them() {
    let mut n = NotifyModal::new("Error", "a\nb\nc".to_string());
    assert_eq!(n.scroll_length, 2);
    assert_eq!(n.scroll_position, 0);
    n.handle_key(Key::Up);
    assert_eq!(n.scroll_position, 0);
    n.handle_key(Key::Down);
    n.handle_key(Key::Down);
    n.handle_key(Key::Down);
    assert_eq!(n.scroll_position, 1);
    assert!(matches!(n.handle_key(Key::Enter), RunState::Complete(())));
    let n = NotifyModal::new("t", String::new());
    assert_eq!(n.scroll_length, 0);
}

#[test]
fn edit_modal_round_trip_and_editing() {
    let mut row = TableRow::new();
    row.name = "secure".to_string();
    row.config = config("secure", "/dev/sdc1", true, "/mnt/s", Some("ext4"));
    let mut m = EditModal::new(&row);
    assert_eq!(m.luks_name.value(), "stirrup-secure");
    let back = m.to_row();
    assert_eq!(back.name, "secure");
    assert_eq!(back.config.device, "/dev/sdc1");
    assert!(back.config.is_luks_encrypted);
    assert_eq!(back.config.filesystem.as_deref(), Some("ext4"));
    // type into the name field, then accept
    m.handle_key(typed('2'));
    m.handle_key(KeyPress { key: Key::Left, edit: Some(TextEdit::GoToPrevChar) });
    m.handle_key(typed('-'));
    assert_eq!(m.name.value(), "secure-2");
    for _ in 0..5 {
        m.handle_key(press(Key::Tab));
    }
    assert_eq!(m.selected, EditSelection::AcceptButton);
    match m.handle_key(press(Key::Enter)) {
        RunState::Complete(r) => assert_eq!(r.name, "secure-2"),
        _ => panic!("expected the editor to complete"),
    }
}

#[test]
fn edit_modal_clears_and_discards() {
    let row = TableRow::new();
    let mut m = EditModal::new(&row);
    m.handle_key(typed('a'));
    m.handle_key(typed('b'));
    m.handle_key(KeyPress { key: Key::Other, edit: Some(TextEdit::DeleteLine) });
    assert_eq!(m.name.value(), "");
    m.handle_key(press(Key::Down));
    m.handle_key(KeyPress { key: Key::Char('x'), edit: Some(TextEdit::InsertChar('x')) });
    assert_eq!(m.device.value(), "x");
    assert!(matches!(m.handle_key(press(Key::Esc)), RunState::Abort));
}

#[test]
fn table_rows_mark_mounted_configurations() {
    let file = ConfigFile::new(vec![
        config("usb", "/dev/sdb1", false, "/mnt/usb/", None),
        config("nas", "nas:/a", false, "/mnt/nas", Some("nfs")),
    ]);
    let mounted = parse_mtab("/dev/sdb1 /mnt/usb vfat rw 0 0\n").unwrap();
    let rows = make_table_rows(&file, &mounted);
    assert_eq!(rows.len(), 2);
    assert_eq!(rows[0].name, "nas");
    assert!(!rows[0].is_mounted);
    assert_eq!(rows[1].name, "usb");
    assert!(rows[1].is_mounted);
    assert_eq!(rows[1].needs_mount, MountAction::NoChange);
}

#[test]
fn actions_keep_the_last_row_of_each_name() {
    let mut a = TableRow::new();
    a.name = "b".to_string();
    a.config = config("", "/dev/1", false, "/m/1", None);
    a.needs_mount = MountAction::Mount;
    let mut b = TableRow::new();
    b.name = "a".to_string();
    b.config = config("", "/dev/2", false, "/m/2", None);
    b.is_mounted = true;
    b.needs_mount = MountAction::Unmount;
    let mut c = TableRow::new();
    c.name = "b".to_string();
    c.config = config("", "/dev/3", false, "/m/3", None);
    let actions = TuiActions::from_rows(vec![a, b, c]);
    assert_eq!(names(&actions.configurations), vec!["a", "b"]);
    assert_eq!(actions.configurations[1].device, "/dev/3");
    assert_eq!(actions.configurations[0].name, "a");
    assert_eq!(actions.to_mount, vec!["b"]);
    assert_eq!(actions.to_unmount, vec!["a"]);
}

#[test]
fn interface_adds_a_record_and_sorts() {
    let file = ConfigFile::new(vec![config("m", "/dev/m", false, "/mnt/m", None)]);
    let mut tui = MountTui::new(&file, &[]);
    assert!(matches!(tui.handle_key(press(Key::Char('n'))), RunState::Running));
    assert_eq!(tui.rows().len(), 2);
    assert_eq!(tui.selected(), Some(1));
    assert!(matches!(tui.modal(), ModalState::EditModal(_)));
    tui.handle_key(typed('a'));
    tui.handle_key(press(Key::Tab));
    tui.handle_key(typed('d'));
    tui.handle_key(press(Key::Tab));
    tui.handle_key(typed('p'));
    tui.handle_key(press(Key::Tab));
    tui.handle_key(press(Key::Tab));
    tui.handle_key(press(Key::Tab));
    tui.handle_key(press(Key::Enter));
    assert!(matches!(tui.modal(), ModalState::Closed));
    let names: Vec<String> = tui.rows().iter().map(|r| r.name.clone()).collect();
    assert_eq!(names, vec!["a", "m"]);
    assert!(matches!(tui.handle_key(press(Key::Enter)), RunState::Complete(())));
    let actions = tui.into_actions();
    assert_eq!(actions.configurations.len(), 2);
    assert_eq!(actions.configurations[0].device, "d");
    assert_eq!(actions.configurations[0].mount_point, "p");
}

#[test]
fn interface_reports_invalid_and_duplicate_rows() {
    let file = ConfigFile::new(vec![config("a", "/dev/a", false, "/mnt/a", None)]);
    let mut tui = MountTui::new(&file, &[]);
    tui.handle_key(press(Key::Char('+')));
    tui.handle_key(typed('a'));
    tui.handle_key(press(Key::BackTab));
    tui.handle_key(press(Key::Down));
    tui.handle_key(press(Key::Down));
    tui.handle_key(press(Key::Down));
    tui.handle_key(press(Key::Down));
    tui.handle_key(press(Key::Down));
    tui.handle_key(press(Key::Enter));
    match tui.modal() {
        ModalState::Notification(n) => {
            assert_eq!(n.title, "Error");
            assert!(n.text.starts_with(
                "The 'device' field cannot be empty.\n\nThe 'mount_point' field cannot be empty.\n\nConfiguration 'a' is duplicated."
            ));
        }
        _ => panic!("expected an error notification"),
    }
    tui.handle_key(press(Key::Esc));
    assert!(matches!(tui.modal(), ModalState::Closed));
}

#[test]
fn interface_discarding_a_new_record_removes_it() {
    let file = ConfigFile::new(Vec::new());
    let mut tui = MountTui::new(&file, &[]);
    tui.handle_key(press(Key::Char('n')));
    assert_eq!(tui.rows().len(), 1);
    tui.handle_key(press(Key::Esc));
    assert_eq!(tui.rows().len(), 0);
    assert!(matches!(tui.modal(), ModalState::Closed));
    assert!(matches!(tui.handle_key(press(Key::Esc)), RunState::Abort));
}

#[test]
fn interface_toggles_and_deletes_the_selected_row() {
    let file = ConfigFile::new(vec![
        config("a", "/dev/a", false, "/mnt/a", None),
        config("b", "/dev/b", false, "/mnt/b", None),
    ]);
    let mut tui = MountTui::new(&file, &[]);
    tui.handle_key(press(Key::Char(' ')));
    assert_eq!(tui.rows()[0].needs_mount, MountAction::NoChange);
    tui.handle_key(press(Key::Down));
    assert_eq!(tui.selected(), Some(0));
    tui.handle_key(press(Key::Down));
    assert_eq!(tui.selected(), Some(1));
    tui.handle_key(press(Key::Char(' ')));
    assert_eq!(tui.rows()[1].needs_mount, MountAction::Mount);
    tui.handle_key(press(Key::Delete));
    match tui.modal() {
        ModalState::DeleteConfirmModal(c) => assert_eq!(c.text, "Are you sure you want to delete 'b'?"),
        _ => panic!("expected a confirmation"),
    }
    tui.set_selected(Some(0));
    assert_eq!(tui.selected(), Some(1));
    tui.handle_key(press(Key::Left));
    tui.handle_key(press(Key::Enter));
    assert_eq!(tui.rows().len(), 1);
    assert_eq!(tui.rows()[0].name, "a");
    tui.set_selected(Some(0));
    assert_eq!(tui.selected(), Some(0));
    tui.handle_key(press(Key::Up));
    assert_eq!(tui.selected(), Some(0));
    tui.handle_key(press(Key::Char('i')));
    match tui.modal() {
        ModalState::Notification(n) => {
            assert_eq!(n.title, "Stirrup \u{1F434}");
            assert!(n.text.starts_with("Stirrup: A TUI Mount Manager"));
        }
        _ => panic!("expected the program information"),
    }
}

#[test]
fn interface_up_without_selection_selects_the_last_possible_row() {
    let file = ConfigFile::new(Vec::new());
    let mut tui = MountTui::new(&file, &[]);
    tui.handle_key(press(Key::Up));
    assert_eq!(tui.selected(), Some(usize::MAX));
    tui.handle_key(press(Key::Char('e')));
    assert!(matches!(tui.modal(), ModalState::Closed));
}

#[test]
fn edit_modal_luks_field_follows_the_row_name() {
    let mut row = TableRow::new();
    row.name = "new name".to_string();
    row.config = config("old", "/dev/sdc1", true, "/mnt/s", None);
    let m = EditModal::new(&row);
    assert_eq!(m.luks_name.value(), "stirrup-new_name");
    assert_eq!(mapping_for("new name"), "stirrup-new_name");
    row.config.is_luks_encrypted = false;
    let m = EditModal::new(&row);
    assert_eq!(m.luks_name.value(), "");
}

#[test]
fn edit_modal_field_styles() {
    let mut row = TableRow::new();
    row.is_mounted = true;
    let m = EditModal::new(&row);
    assert_eq!(m.field_style(EditSelection::Name), FieldStyle::Highlighted);
    assert_eq!(m.field_style(EditSelection::Device), FieldStyle::Disabled);
    let m = EditModal::new(&TableRow::new());
    assert_eq!(m.field_style(EditSelection::Device), FieldStyle::Plain);
}

#[test]
fn mount_and_unmount_steps() {
    let plain = config("usb", "/dev/sdb1", false, "/mnt/usb", None);
    assert_eq!(plain.mount_steps(), vec![CommandKind::Mount]);
    assert_eq!(plain.unmount_steps(), vec![CommandKind::Unmount]);
    let luks = config("s", "/dev/sdc1", true, "/mnt/s", None);
    assert_eq!(luks.mount_steps(), vec![CommandKind::Decrypt, CommandKind::Mount]);
    assert_eq!(luks.unmount_steps(), vec![CommandKind::Unmount, CommandKind::Encrypt]);
    assert!(stops_after_failure(CommandKind::Decrypt));
    assert!(!stops_after_failure(CommandKind::Unmount));
    assert!(!stops_after_failure(CommandKind::Mount));
    assert_eq!(luks.command(CommandKind::Encrypt), vec!["sudo", "cryptsetup", "luksClose", "stirrup-s"]);
    assert_eq!(plain.command(CommandKind::Unmount), vec!["sudo", "umount", "/mnt/usb"]);
}

#[test]
fn cursor_column_is_offset_past_the_scroll() {
    assert_eq!(cursor_column(10, 7, 3), Some(14));
    assert_eq!(cursor_column(10, 2, 3), Some(10));
    assert_eq!(cursor_column(0, 0, 0), Some(0));
    assert_eq!(cursor_column(u16::MAX, 1, 0), None);
    assert_eq!(cursor_column(5, 0x10000 + 2, 0), Some(7));
}

#[test]
fn paste_inserts_what_was_cut() {
    let mut row = TableRow::new();
    row.name = "hello world".to_string();
    let mut m = EditModal::new(&row);
    let edit = |e| KeyPress { key: Key::Other, edit: Some(e) };
    m.handle_key(edit(TextEdit::Yank));
    assert_eq!(m.name.value(), "hello world");
    m.handle_key(edit(TextEdit::SetCursor(5)));
    m.handle_key(edit(TextEdit::DeleteTillEnd));
    assert_eq!(m.name.value(), "hello");
    m.handle_key(edit(TextEdit::GoToStart));
    m.handle_key(edit(TextEdit::Yank));
    assert_eq!(m.name.value(), " worldhello");
    assert_eq!(m.name.cursor(), 6);
}

#[test]
fn adding_then_discarding_restores_the_table() {
    let file = ConfigFile::new(vec![config("a", "/dev/a", false, "/mnt/a", None)]);
    let mut tui = MountTui::new(&file, &[]);
    tui.handle_key(press(Key::Char('n')));
    tui.handle_key(typed('x'));
    tui.handle_key(press(Key::Down));
    tui.handle_key(typed('y'));
    tui.handle_key(press(Key::Esc));
    assert_eq!(tui.rows().len(), 1);
    assert_eq!(tui.rows()[0].name, "a");
    assert!(matches!(tui.modal(), ModalState::Closed));
}

#[test]
fn a_mounted_row_can_only_be_renamed() {
    let mut row = TableRow::new();
    row.name = "usb".to_string();
    row.config = config("usb", "/dev/sdb1", false, "/mnt/usb", None);
    row.is_mounted = true;
    let mut m = EditModal::new(&row);
    for key in [Key::Down, Key::Tab, Key::BackTab, Key::Up, Key::Right, Key::Left, Key::Down, Key::Down] {
        m.handle_key(KeyPress { key, edit: Some(TextEdit::InsertChar('z')) });
        assert!(matches!(
            m.selected,
            EditSelection::Name | EditSelection::AcceptButton | EditSelection::DiscardButton
        ));
    }
    assert_eq!(m.device.value(), "/dev/sdb1");
    assert_eq!(m.mount_point.value(), "/mnt/usb");
}
