//! Mount configurations, the sorted configuration store, the command lines that
//! mount, unmount, open and close a configuration, and the mount-table parser.
use vstd::prelude::*;
use crate::order::{Named, names_sorted, sort_by_name, sort_records, find_first_named,
    lemma_sort_is_sorted, lemma_sort_is_permutation};
use crate::text::{push_char, append_str, split_lines, split_words, text_lines, ascii_words};

verus! {

broadcast use vstd::string::group_string_axioms;

/// One saved mount: a device, where it is mounted, and how.
#[derive(Debug)]
pub struct MountConfiguration {
    pub name: String,
    pub device: String,
    pub is_luks_encrypted: bool,
    pub mount_point: String,
    pub filesystem: Option<String>,
}

/// The abstract value of a [`MountConfiguration`].
pub struct MountConfigurationView {
    pub name: Seq<char>,
    pub device: Seq<char>,
    pub is_luks_encrypted: bool,
    pub mount_point: Seq<char>,
    pub filesystem: Option<Seq<char>>,
}

/// The characters of an optional string.
pub open spec fn opt_text(o: Option<String>) -> Option<Seq<char>> {
    match o {
        Some(s) => Some(s@),
        None => None,
    }
}

/// The characters of each string in `v`.
pub open spec fn texts(v: Seq<String>) -> Seq<Seq<char>> {
    v.map_values(|a: String| a@)
}

impl View for MountConfiguration {
    type V = MountConfigurationView;

    open spec fn view(&self) -> MountConfigurationView {
        MountConfigurationView {
            name: self.name@,
            device: self.device@,
            is_luks_encrypted: self.is_luks_encrypted,
            mount_point: self.mount_point@,
            filesystem: opt_text(self.filesystem),
        }
    }
}

impl Named for MountConfiguration {
    open spec fn name_view(&self) -> Seq<char> {
        self.name@
    }

    fn name_str(&self) -> (r: &str) {
        self.name.as_str()
    }
}

impl Clone for MountConfiguration {
    fn clone(&self) -> (r: Self)
        ensures
            r == *self,
    {
        MountConfiguration {
            name: self.name.clone(),
            device: self.device.clone(),
            is_luks_encrypted: self.is_luks_encrypted,
            mount_point: self.mount_point.clone(),
            filesystem: match &self.filesystem {
                Some(f) => Some(f.clone()),
                None => None,
            },
        }
    }
}

/// The configurations of a sequence, by value.
pub open spec fn config_views(s: Seq<MountConfiguration>) -> Seq<MountConfigurationView> {
    s.map_values(|c: MountConfiguration| c@)
}

// ---------------------------------------------------------------------------
// Device-mapper names and command lines
// ---------------------------------------------------------------------------

/// ASCII letters and digits.
pub open spec fn is_ascii_alphanumeric(c: char) -> bool {
    ('0' <= c && c <= '9') || ('A' <= c && c <= 'Z') || ('a' <= c && c <= 'z')
}

/// A name character as it appears in a device-mapper name: letters and digits stay,
/// everything else becomes an underscore.
pub open spec fn mapping_char(c: char) -> char {
    if is_ascii_alphanumeric(c) {
        c
    } else {
        '_'
    }
}

/// The device-mapper name under which an encrypted configuration named `name` is opened.
pub open spec fn mapping_name(name: Seq<char>) -> Seq<char> {
    "stirrup-"@ + name.map_values(|c: char| mapping_char(c))
}

/// The device that `mount` is given: the opened mapping for an encrypted configuration,
/// the configured device otherwise.
pub open spec fn mount_device(c: MountConfigurationView) -> Seq<char> {
    if c.is_luks_encrypted {
        "/dev/mapper/"@ + mapping_name(c.name)
    } else {
        c.device
    }
}

/// The command line that mounts `c`.
pub open spec fn mount_command_line(c: MountConfigurationView) -> Seq<Seq<char>> {
    seq!["sudo"@, "mount"@] + match c.filesystem {
        Some(t) => seq!["-t"@, t],
        None => Seq::<Seq<char>>::empty(),
    } + seq![mount_device(c), c.mount_point]
}

/// The command line that unmounts `c`.
pub open spec fn unmount_command_line(c: MountConfigurationView) -> Seq<Seq<char>> {
    seq!["sudo"@, "umount"@, c.mount_point]
}

/// The command line that opens the encrypted device of `c`.
pub open spec fn decrypt_command_line(c: MountConfigurationView) -> Seq<Seq<char>> {
    seq!["sudo"@, "cryptsetup"@, "luksOpen"@, c.device, mapping_name(c.name)]
}

/// The command line that closes the opened mapping of `c`.
pub open spec fn encrypt_command_line(c: MountConfigurationView) -> Seq<Seq<char>> {
    seq!["sudo"@, "cryptsetup"@, "luksClose"@, mapping_name(c.name)]
}

/// The four commands that act on a configuration.
#[derive(Clone, Copy, PartialEq, Eq, Debug, Structural)]
pub enum CommandKind {
    Mount,
    Unmount,
    Decrypt,
    Encrypt,
}

/// The error reported when a command exits unsuccessfully.
pub open spec fn failure_text(k: CommandKind) -> Seq<char> {
    match k {
        CommandKind::Mount => "mount command did not exit successfully"@,
        CommandKind::Unmount => "umount command did not exit successfully"@,
        CommandKind::Decrypt => "cryptsetup luksOpen ommand did not exit successfully"@,
        CommandKind::Encrypt => "cryptsetup luksClose command did not exit successfully"@,
    }
}

/// The error reported when a command of kind `k` exits unsuccessfully.
pub fn failure_message(k: CommandKind) -> (r: String)
    ensures
        r@ == failure_text(k),
{
    match k {
        CommandKind::Mount => String::from_str("mount command did not exit successfully"),
        CommandKind::Unmount => String::from_str("umount command did not exit successfully"),
        CommandKind::Decrypt => String::from_str("cryptsetup luksOpen ommand did not exit successfully"),
        CommandKind::Encrypt => String::from_str("cryptsetup luksClose command did not exit successfully"),
    }
}

/// The commands that mount `c`, in order: an encrypted device is opened first.
pub open spec fn mount_steps_of(c: MountConfigurationView) -> Seq<CommandKind> {
    if c.is_luks_encrypted {
        seq![CommandKind::Decrypt, CommandKind::Mount]
    } else {
        seq![CommandKind::Mount]
    }
}

/// The commands that unmount `c`, in order: an encrypted device is closed afterwards.
pub open spec fn unmount_steps_of(c: MountConfigurationView) -> Seq<CommandKind> {
    if c.is_luks_encrypted {
        seq![CommandKind::Unmount, CommandKind::Encrypt]
    } else {
        seq![CommandKind::Unmount]
    }
}

/// Only a device that could not be opened stops the remaining steps: nothing is mounted
/// from it. A failed unmount still closes the device.
pub open spec fn stops_after_failure_spec(k: CommandKind) -> bool {
    k == CommandKind::Decrypt
}

/// Whether the remaining steps are skipped when a command of kind `k` fails.
pub fn stops_after_failure(k: CommandKind) -> (r: bool)
    ensures
        r == stops_after_failure_spec(k),
{
    match k {
        CommandKind::Decrypt => true,
        _ => false,
    }
}

/// Whether `c` is an ASCII letter or digit.
pub fn is_ascii_alphanumeric_char(c: char) -> (r: bool)
    ensures
        r == is_ascii_alphanumeric(c),
{
    ('0' <= c && c <= '9') || ('A' <= c && c <= 'Z') || ('a' <= c && c <= 'z')
}

/// The device-mapper name under which an encrypted configuration named `name` is opened.
pub fn mapping_for(name: &str) -> (r: String)
    ensures
        r@ == mapping_name(name@),
{
    let mut prefix = String::from_str("stirrup-");
    let ghost start = prefix@;
    for c in it: name.chars()
        invariant
            it.seq() == name@,
            start == "stirrup-"@,
            prefix@ == start + it.seq().take(it.index() as int).map_values(|c: char| mapping_char(c)),
    {
        let m = if is_ascii_alphanumeric_char(c) { c } else { '_' };
        push_char(&mut prefix, m);
        proof {
            let i = it.index() as int;
            assert(it.seq().take(i + 1).map_values(|c: char| mapping_char(c))
                =~= it.seq().take(i).map_values(|c: char| mapping_char(c)).push(mapping_char(c)));
        }
    }
    assert(name@.take(name@.len() as int) =~= name@);
    prefix
}

impl MountConfiguration {
    /// The name that will be used when creating a cryptsetup mapping.
    pub fn cryptsetup_mapping(&self) -> (r: String)
        ensures
            r@ == mapping_name(self.name@),
    {
        mapping_for(self.name.as_str())
    }

    /// The commands that mount this configuration, in order.
    pub fn mount_steps(&self) -> (r: Vec<CommandKind>)
        ensures
            r@ == mount_steps_of(self@),
    {
        let mut r: Vec<CommandKind> = Vec::new();
        if self.is_luks_encrypted {
            r.push(CommandKind::Decrypt);
        }
        r.push(CommandKind::Mount);
        assert(r@ =~= mount_steps_of(self@));
        r
    }

    /// The commands that unmount this configuration, in order.
    pub fn unmount_steps(&self) -> (r: Vec<CommandKind>)
        ensures
            r@ == unmount_steps_of(self@),
    {
        let mut r: Vec<CommandKind> = Vec::new();
        r.push(CommandKind::Unmount);
        if self.is_luks_encrypted {
            r.push(CommandKind::Encrypt);
        }
        assert(r@ =~= unmount_steps_of(self@));
        r
    }

    /// The command line (program first) for a command of kind `k`.
    pub fn command(&self, k: CommandKind) -> (r: Vec<String>)
        ensures
            texts(r@) == match k {
                CommandKind::Mount => mount_command_line(self@),
                CommandKind::Unmount => unmount_command_line(self@),
                CommandKind::Decrypt => decrypt_command_line(self@),
                CommandKind::Encrypt => encrypt_command_line(self@),
            },
    {
        match k {
            CommandKind::Mount => self.mount_command(),
            CommandKind::Unmount => self.unmount_command(),
            CommandKind::Decrypt => self.decrypt_command(),
            CommandKind::Encrypt => self.encrypt_command(),
        }
    }

    /// The command line (program first) that mounts this configuration.
    pub fn mount_command(&self) -> (r: Vec<String>)
        ensures
            texts(r@) == mount_command_line(self@),
    {
        let mut r: Vec<String> = Vec::new();
        r.push(String::from_str("sudo"));
        r.push(String::from_str("mount"));
        match &self.filesystem {
            Some(t) => {
                r.push(String::from_str("-t"));
                r.push(t.clone());
            },
            None => {},
        }
        let device = if self.is_luks_encrypted {
            let mut d = String::from_str("/dev/mapper/");
            let m = self.cryptsetup_mapping();
            append_str(&mut d, m.as_str());
            d
        } else {
            self.device.clone()
        };
        r.push(device);
        r.push(self.mount_point.clone());
        assert(texts(r@) =~= mount_command_line(self@));
        r
    }

    /// The command line (program first) that unmounts this configuration.
    pub fn unmount_command(&self) -> (r: Vec<String>)
        ensures
            texts(r@) == unmount_command_line(self@),
    {
        let mut r: Vec<String> = Vec::new();
        r.push(String::from_str("sudo"));
        r.push(String::from_str("umount"));
        r.push(self.mount_point.clone());
        assert(texts(r@) =~= unmount_command_line(self@));
        r
    }

    /// The command line (program first) that opens the encrypted device.
    pub fn decrypt_command(&self) -> (r: Vec<String>)
        ensures
            texts(r@) == decrypt_command_line(self@),
    {
        let mut r: Vec<String> = Vec::new();
        r.push(String::from_str("sudo"));
        r.push(String::from_str("cryptsetup"));
        r.push(String::from_str("luksOpen"));
        r.push(self.device.clone());
        r.push(self.cryptsetup_mapping());
        assert(texts(r@) =~= decrypt_command_line(self@));
        r
    }

    /// The command line (program first) that closes the opened mapping.
    pub fn encrypt_command(&self) -> (r: Vec<String>)
        ensures
            texts(r@) == encrypt_command_line(self@),
    {
        let mut r: Vec<String> = Vec::new();
        r.push(String::from_str("sudo"));
        r.push(String::from_str("cryptsetup"));
        r.push(String::from_str("luksClose"));
        r.push(self.cryptsetup_mapping());
        assert(texts(r@) =~= encrypt_command_line(self@));
        r
    }
}

/// A device-mapper name is "stirrup-" followed by one letter, digit or underscore per
/// character of the configuration's name.
pub proof fn lemma_mapping_name_shape(name: Seq<char>)
    ensures
        mapping_name(name).len() == name.len() + 8,
        mapping_name(name).take(8) == "stirrup-"@,
        forall|i: int| 8 <= i < mapping_name(name).len() ==> {
            let c = #[trigger] mapping_name(name)[i];
            is_ascii_alphanumeric(c) || c == '_'
        },
{
    reveal_strlit("stirrup-");
    assert(mapping_name(name).take(8) =~= "stirrup-"@);
}

/// An encrypted configuration is mounted from the mapping that its decrypt command opens
/// and its encrypt command closes; an unencrypted one is mounted from its device.
pub proof fn lemma_commands_agree(c: MountConfigurationView)
    ensures
        ({
            let m = mount_command_line(c);
            let d = decrypt_command_line(c);
            let e = encrypt_command_line(c);
            &&& m[m.len() - 1] == c.mount_point
            &&& c.is_luks_encrypted ==> m[m.len() - 2] == "/dev/mapper/"@ + d[d.len() - 1]
            &&& !c.is_luks_encrypted ==> m[m.len() - 2] == c.device
            &&& e[e.len() - 1] == d[d.len() - 1]
            &&& d[d.len() - 2] == c.device
            &&& unmount_command_line(c)[2] == c.mount_point
        }),
{
}

// ---------------------------------------------------------------------------
// The configuration store
// ---------------------------------------------------------------------------

/// The saved configurations, kept sorted by name.
#[derive(Debug)]
pub struct ConfigFile {
    mounts: Vec<MountConfiguration>,
}

impl View for ConfigFile {
    type V = Seq<MountConfiguration>;

    closed spec fn view(&self) -> Seq<MountConfiguration> {
        self.mounts@
    }
}

impl ConfigFile {
    #[verifier::type_invariant]
    spec fn wf(self) -> bool {
        names_sorted(self.mounts@)
    }

    /// A store holding `mounts`, sorted by name (records with equal names keep
    /// their order).
    pub fn new(mounts: Vec<MountConfiguration>) -> (r: Self)
        ensures
            r@ == sort_by_name(mounts@),
            names_sorted(r@),
            r@.to_multiset() == mounts@.to_multiset(),
    {
        proof {
            lemma_sort_is_sorted(mounts@);
            lemma_sort_is_permutation(mounts@);
        }
        let sorted = sort_records(mounts);
        ConfigFile { mounts: sorted }
    }

    /// The first configuration named `name`, if there is one.
    pub fn get_config(&self, name: &str) -> (r: Option<&MountConfiguration>)
        ensures
            r is None <==> forall|k: int| 0 <= k < self@.len() ==> self@[k].name@ != name@,
            r matches Some(c) ==> exists|k: int| 0 <= k < self@.len() && self@[k] == *c
                && c.name@ == name@
                && forall|m: int| 0 <= m < k ==> self@[m].name@ != name@,
    {
        proof {
            use_type_invariant(self);
        }
        match find_first_named(&self.mounts, name) {
            Some(k) => Some(&self.mounts[k]),
            None => None,
        }
    }

    /// The configurations, in name order.
    pub fn iter(&self) -> (r: &[MountConfiguration])
        ensures
            r@ == self@,
            names_sorted(r@),
    {
        proof {
            use_type_invariant(self);
        }
        self.mounts.as_slice()
    }
}

impl Default for ConfigFile {
    fn default() -> (r: Self)
        ensures
            r@ == Seq::<MountConfiguration>::empty(),
    {
        ConfigFile { mounts: Vec::new() }
    }
}

/// Storing configurations neither loses nor invents a name: the store has a
/// configuration named `n` exactly when the stored ones had.
pub proof fn lemma_store_keeps_names(mounts: Seq<MountConfiguration>, n: Seq<char>)
    ensures
        (exists|k: int| 0 <= k < sort_by_name(mounts).len() && #[trigger] sort_by_name(mounts)[k].name@ == n)
            <==> (exists|k: int| 0 <= k < mounts.len() && #[trigger] mounts[k].name@ == n),
{
    broadcast use vstd::seq_lib::group_to_multiset_ensures;
    lemma_sort_is_permutation(mounts);
    let s = sort_by_name(mounts);
    if exists|k: int| 0 <= k < s.len() && #[trigger] s[k].name@ == n {
        let k = choose|k: int| 0 <= k < s.len() && #[trigger] s[k].name@ == n;
        assert(s.contains(s[k]));
        assert(mounts.to_multiset().count(s[k]) > 0);
        assert(mounts.contains(s[k]));
        let j = choose|j: int| 0 <= j < mounts.len() && mounts[j] == s[k];
        assert(mounts[j].name@ == n);
    }
    if exists|k: int| 0 <= k < mounts.len() && #[trigger] mounts[k].name@ == n {
        let k = choose|k: int| 0 <= k < mounts.len() && #[trigger] mounts[k].name@ == n;
        assert(mounts.contains(mounts[k]));
        assert(s.to_multiset().count(mounts[k]) > 0);
        assert(s.contains(mounts[k]));
        let j = choose|j: int| 0 <= j < s.len() && s[j] == mounts[k];
        assert(s[j].name@ == n);
    }
}

// ---------------------------------------------------------------------------
// The mount table
// ---------------------------------------------------------------------------

/// Why a mount-table record could not be read.
#[derive(Clone, Copy, PartialEq, Eq, Debug, Structural)]
pub enum MtabError {
    MissingDevice,
    MissingMountPoint,
    MissingFilesystem,
}

/// The message that describes a mount-table error.
pub open spec fn mtab_error_text(e: MtabError) -> Seq<char> {
    match e {
        MtabError::MissingDevice => "no device found in mtab record"@,
        MtabError::MissingMountPoint => "no mount point found in mtab record"@,
        MtabError::MissingFilesystem => "no filesystem found in mtab record"@,
    }
}

impl MtabError {
    /// The message that describes this error.
    pub fn message(&self) -> (r: String)
        ensures
            r@ == mtab_error_text(*self),
    {
        match self {
            MtabError::MissingDevice => String::from_str("no device found in mtab record"),
            MtabError::MissingMountPoint => String::from_str("no mount point found in mtab record"),
            MtabError::MissingFilesystem => String::from_str("no filesystem found in mtab record"),
        }
    }
}

/// The configuration that one mount-table record, split into fields, describes: the
/// first three fields are the device, the mount point and the filesystem type.
pub open spec fn mtab_record(fields: Seq<Seq<char>>) -> Result<MountConfigurationView, MtabError> {
    if fields.len() < 1 {
        Err(MtabError::MissingDevice)
    } else if fields.len() < 2 {
        Err(MtabError::MissingMountPoint)
    } else if fields.len() < 3 {
        Err(MtabError::MissingFilesystem)
    } else {
        Ok(MountConfigurationView {
            name: Seq::empty(),
            device: fields[0],
            is_luks_encrypted: false,
            mount_point: fields[1],
            filesystem: Some(fields[2]),
        })
    }
}

/// The configurations that the lines of a mount table describe, or the error of the first
/// line that lacks a field.
pub open spec fn mtab_records(lines: Seq<Seq<char>>) -> Result<Seq<MountConfigurationView>, MtabError>
    decreases lines.len(),
{
    if lines.len() == 0 {
        Ok(Seq::empty())
    } else {
        match mtab_record(ascii_words(lines[0])) {
            Err(e) => Err(e),
            Ok(r) => match mtab_records(lines.drop_first()) {
                Ok(rest) => Ok(seq![r] + rest),
                Err(e) => Err(e),
            },
        }
    }
}

/// The result of reading the mount table `data`.
pub open spec fn mtab_parse(data: Seq<char>) -> Result<Seq<MountConfigurationView>, MtabError> {
    mtab_records(text_lines(data))
}

/// `data` when there is some, the error `err` otherwise.
pub fn missing_data_msg(data: Option<String>, err: MtabError) -> (r: Result<String, MtabError>)
    ensures
        r matches Ok(s) ==> data matches Some(d) && s == d,
        r matches Err(e) ==> data is None && e == err,
        r is Ok <==> data is Some,
{
    match data {
        Some(d) => Ok(d),
        None => Err(err),
    }
}

/// The field at position `i`, if the record has that many.
fn field(fields: &Vec<String>, i: usize) -> (r: Option<String>)
    ensures
        r matches Some(f) ==> f@ == fields@[i as int]@,
        r is Some <==> i < fields@.len(),
{
    if i < fields.len() {
        Some(fields[i].clone())
    } else {
        None
    }
}

/// Reads the records of a mount table (the text of `/etc/mtab`) as configurations.
pub fn parse_mtab(data: &str) -> (r: Result<Vec<MountConfiguration>, MtabError>)
    ensures
        r matches Ok(v) ==> mtab_parse(data@) == Ok::<Seq<MountConfigurationView>, MtabError>(config_views(v@)),
        r matches Err(e) ==> mtab_parse(data@) == Err::<Seq<MountConfigurationView>, MtabError>(e),
{
    let lines = split_lines(data);
    let ghost ls = text_lines(data@);
    let mut configs: Vec<MountConfiguration> = Vec::new();
    let mut i: usize = 0;
    assert(ls.skip(0) =~= ls);
    while i < lines.len()
        invariant
            lines@.map_values(|l: Vec<char>| l@) == ls,
            i <= lines.len(),
            mtab_parse(data@) == match mtab_records(ls.skip(i as int)) {
                Ok(rest) => Ok(config_views(configs@) + rest),
                Err(e) => Err(e),
            },
        decreases lines.len() - i,
    {
        let fields = split_words(&lines[i]);
        let ghost fs = ascii_words(ls[i as int]);
        assert(fields@.map_values(|w: String| w@) == fs);
        proof {
            assert(ls.skip(i as int)[0] == ls[i as int]);
            assert(ls.skip(i as int).drop_first() =~= ls.skip(i + 1));
        }
        let device = match missing_data_msg(field(&fields, 0), MtabError::MissingDevice) {
            Ok(d) => d,
            Err(e) => return Err(e),
        };
        let mount_point = match missing_data_msg(field(&fields, 1), MtabError::MissingMountPoint) {
            Ok(d) => d,
            Err(e) => return Err(e),
        };
        let filesystem = match missing_data_msg(field(&fields, 2), MtabError::MissingFilesystem) {
            Ok(d) => d,
            Err(e) => return Err(e),
        };
        let c = MountConfiguration {
            name: String::new(),
            device,
            is_luks_encrypted: false,
            mount_point,
            filesystem: Some(filesystem),
        };
        let ghost before = configs@;
        configs.push(c);
        proof {
            assert(config_views(configs@) =~= config_views(before).push(c@));
            assert(mtab_record(fs) == Ok::<MountConfigurationView, MtabError>(c@));
            match mtab_records(ls.skip(i + 1)) {
                Ok(rest) => {
                    assert(config_views(before) + (seq![c@] + rest) =~= config_views(configs@) + rest);
                },
                Err(e) => {},
            }
        }
        i = i + 1;
    }
    assert(ls.skip(i as int) =~= Seq::<Seq<char>>::empty());
    assert(config_views(configs@) + Seq::<MountConfigurationView>::empty() =~= config_views(configs@));
    Ok(configs)
}

/// A mount table that reads without error gives one unnamed, unencrypted configuration
/// per line, each with a filesystem type.
pub proof fn lemma_mtab_one_per_line(lines: Seq<Seq<char>>)
    ensures
        mtab_records(lines) matches Ok(v) ==> v.len() == lines.len() && forall|i: int| 0 <= i < v.len() ==> {
            &&& (#[trigger] v[i]).name.len() == 0
            &&& !v[i].is_luks_encrypted
            &&& v[i].filesystem is Some
            &&& ascii_words(lines[i]).len() >= 3
        },
    decreases lines.len(),
{
    if lines.len() > 0 {
        lemma_mtab_one_per_line(lines.drop_first());
        if let Ok(v) = mtab_records(lines) {
            let rest = mtab_records(lines.drop_first())->Ok_0;
            assert forall|i: int| 0 <= i < v.len() implies {
                &&& (#[trigger] v[i]).name.len() == 0
                &&& !v[i].is_luks_encrypted
                &&& v[i].filesystem is Some
                &&& ascii_words(lines[i]).len() >= 3
            } by {
                if i > 0 {
                    assert(v[i] == rest[i - 1]);
                    assert(lines[i] == lines.drop_first()[i - 1]);
                }
            }
        }
    }
}

} // verus!
