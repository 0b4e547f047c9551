//! Listing one directory: the drive-root shortcut, the checks on the target,
//! and the best-effort collection of scanned entries.

use vstd::prelude::*;
use crate::settings::{SettingsStore, SettingsView};
use crate::text::joined;

verus! {

/// The value the attribute query returns when it fails.
pub const INVALID_FILE_ATTRIBUTES: u32 = 0xFFFF_FFFF;

/// The attribute bit that marks a file or directory hidden.
pub const FILE_ATTRIBUTE_HIDDEN: u32 = 0x2;

/// Whether file attributes, as the OS attribute query returned them, mark
/// the file hidden. A failed query counts as not hidden.
pub fn is_hidden_windows(attributes: u32) -> (r: bool)
    ensures
        r == (attributes != INVALID_FILE_ATTRIBUTES && attributes & FILE_ATTRIBUTE_HIDDEN != 0),
{
    if attributes == INVALID_FILE_ATTRIBUTES {
        return false;
    }
    (attributes & FILE_ATTRIBUTE_HIDDEN) != 0
}

/// Hidden status from the attributes, if the platform has any: without
/// attributes nothing is hidden.
pub open spec fn hidden_from(attributes: Option<u32>) -> bool {
    match attributes {
        Some(a) => a != INVALID_FILE_ATTRIBUTES && a & FILE_ATTRIBUTE_HIDDEN != 0,
        None => false,
    }
}

/// One child of a listed directory.
pub struct FileEntry {
    pub name: String,
    pub path: String,
    pub is_dir: bool,
    pub hidden: bool,
}

/// The value of a [`FileEntry`].
pub struct FileEntryView {
    pub name: Seq<char>,
    pub path: Seq<char>,
    pub is_dir: bool,
    pub hidden: bool,
}

impl View for FileEntry {
    type V = FileEntryView;

    open spec fn view(&self) -> FileEntryView {
        FileEntryView { name: self.name@, path: self.path@, is_dir: self.is_dir, hidden: self.hidden }
    }
}

/// The values of the entries.
pub open spec fn entry_views(v: Seq<FileEntry>) -> Seq<FileEntryView> {
    v.map_values(|e: FileEntry| e@)
}

/// What the OS says of one directory entry during a scan.
pub struct ScannedEntry {
    /// The entry's name, or `None` where it could not be decoded.
    pub name: Option<String>,
    pub path: String,
    pub is_dir: bool,
    /// The file attributes, on a platform that has them.
    pub attributes: Option<u32>,
}

/// What the OS says the listed path is.
pub enum PathKind {
    Missing,
    Directory,
    NotDirectory,
}

/// Why a listing failed.
pub enum DirError {
    /// The path does not exist.
    NotFound,
    /// The path exists and is not a directory.
    NotADirectory,
    /// The directory could not be opened; the cause.
    Io(String),
}

/// A drive root written exactly as an upper-case letter, a colon and a
/// backslash (`C:\`). Nothing else counts: not a lower-case letter, not a
/// forward slash, not a longer path.
pub open spec fn drive_root(p: Seq<char>) -> bool {
    &&& p.len() == 3
    &&& 'A' <= p[0] <= 'Z'
    &&& p[1] == ':'
    &&& p[2] == '\\'
}

/// The drive letter of `path`: its first character, or `C` for an empty path.
pub open spec fn drive_letter(path: Seq<char>) -> char {
    if path.len() > 0 {
        path[0]
    } else {
        'C'
    }
}

/// The root of the drive named by `path`: its drive letter, a colon and a
/// backslash.
pub open spec fn root_of(path: Seq<char>) -> Seq<char> {
    seq![drive_letter(path)] + ":\\"@
}

/// The fixed folders listed for the drive of `path`, in order.
pub open spec fn drive_root_listing(path: Seq<char>) -> Seq<FileEntryView> {
    let root = root_of(path);
    seq![
        FileEntryView { name: "Program Files"@, path: root + "Program Files"@, is_dir: true, hidden: false },
        FileEntryView {
            name: "Program Files (x86)"@,
            path: root + "Program Files (x86)"@,
            is_dir: true,
            hidden: false,
        },
        FileEntryView { name: "Users"@, path: root + "Users"@, is_dir: true, hidden: false },
        FileEntryView { name: "Windows"@, path: root + "Windows"@, is_dir: true, hidden: false },
    ]
}

/// The entries kept from a scan, in scan order: an entry that failed, or
/// whose name could not be decoded, is skipped.
pub open spec fn kept(scan: Seq<Option<ScannedEntry>>) -> Seq<FileEntryView>
    decreases scan.len(),
{
    if scan.len() == 0 {
        Seq::empty()
    } else {
        let rest = kept(scan.drop_last());
        match scan.last() {
            Some(e) => match e.name {
                Some(n) => rest.push(
                    FileEntryView {
                        name: n@,
                        path: e.path@,
                        is_dir: e.is_dir,
                        hidden: hidden_from(e.attributes),
                    },
                ),
                None => rest,
            },
            None => rest,
        }
    }
}

/// Whether `path` is a drive root (see [`drive_root`]).
pub fn is_drive_root(path: &str) -> (r: bool)
    ensures
        r == drive_root(path@),
{
    if path.unicode_len() != 3 {
        return false;
    }
    let c0 = path.get_char(0);
    let c1 = path.get_char(1);
    let c2 = path.get_char(2);
    'A' <= c0 && c0 <= 'Z' && c1 == ':' && c2 == '\\'
}

fn root_entry(root: &str, name: &str) -> (r: FileEntry)
    ensures
        r@ == (FileEntryView { name: name@, path: root@ + name@, is_dir: true, hidden: false }),
{
    FileEntry { name: name.to_owned(), path: joined(root, name), is_dir: true, hidden: false }
}

/// The fixed listing of the drive that `path` names by its first character
/// (`C` for an empty path), returned without touching the disk.
pub fn read_drive_root(path: &str) -> (r: Vec<FileEntry>)
    ensures
        entry_views(r@) == drive_root_listing(path@),
{
    let letter: &str = if path.unicode_len() > 0 {
        path.substring_char(0, 1)
    } else {
        "C"
    };
    proof {
        reveal_strlit("C");
        assert(letter@ =~= seq![drive_letter(path@)]);
    }
    let root = joined(letter, ":\\");
    let r = vec![
        root_entry(root.as_str(), "Program Files"),
        root_entry(root.as_str(), "Program Files (x86)"),
        root_entry(root.as_str(), "Users"),
        root_entry(root.as_str(), "Windows"),
    ];
    assert(entry_views(r@) =~= drive_root_listing(path@));
    r
}

/// The entries kept from a scan (see [`kept`]).
pub fn collect_entries(scan: &Vec<Option<ScannedEntry>>) -> (r: Vec<FileEntry>)
    ensures
        entry_views(r@) == kept(scan@),
{
    let mut r: Vec<FileEntry> = Vec::new();
    let mut i: usize = 0;
    while i < scan.len()
        invariant
            i <= scan@.len(),
            entry_views(r@) == kept(scan@.subrange(0, i as int)),
        decreases scan@.len() - i,
    {
        let ghost next = scan@.subrange(0, i + 1);
        assert(next.drop_last() =~= scan@.subrange(0, i as int));
        match &scan[i] {
            Some(e) => match &e.name {
                Some(n) => {
                    let hidden = match e.attributes {
                        Some(a) => is_hidden_windows(a),
                        None => false,
                    };
                    let ghost before = r@;
                    r.push(FileEntry { name: n.clone(), path: e.path.clone(), is_dir: e.is_dir, hidden });
                    assert(entry_views(r@) =~= entry_views(before).push(r@.last()@));
                },
                None => {},
            },
            None => {},
        }
        i += 1;
    }
    assert(scan@.subrange(0, scan@.len() as int) =~= scan@);
    r
}

/// A drive root is its own root: the listing of `C:\` holds `C:\Program Files`
/// and so on, the path as given followed by the folder's name.
pub proof fn lemma_drive_root_is_its_own_root(path: Seq<char>)
    requires
        drive_root(path),
    ensures
        root_of(path) == path,
{
    reveal_strlit(":\\");
    assert(root_of(path) =~= path);
}

/// Lists the directory `path`, given what the OS says the path is and what a
/// scan of it gave (consulted only for a directory that is not a drive root).
/// A drive root gets its fixed listing; a missing path is `NotFound`; a path
/// that is no directory is `NotADirectory`; a scan that could not start is
/// `Io` with its cause; otherwise the scanned entries are kept as
/// [`collect_entries`] does. Success, and only success, records `path` as the
/// last folder browsed.
pub fn read_dir(
    settings: &mut SettingsStore,
    path: &str,
    kind: PathKind,
    scan: Result<Vec<Option<ScannedEntry>>, String>,
) -> (r: Result<Vec<FileEntry>, DirError>)
    ensures
        drive_root(path@) ==> (r matches Ok(v) && entry_views(v@) == drive_root_listing(path@)),
        !drive_root(path@) ==> match kind {
            PathKind::Missing => r matches Err(DirError::NotFound),
            PathKind::NotDirectory => r matches Err(DirError::NotADirectory),
            PathKind::Directory => match scan {
                Ok(s) => (r matches Ok(v) && entry_views(v@) == kept(s@)),
                Err(c) => (r matches Err(DirError::Io(d)) && d@ == c@),
            },
        },
        r is Ok ==> final(settings)@ == (SettingsView { last_folder_path: path@, ..old(settings)@ }),
        r is Err ==> final(settings)@ == old(settings)@,
{
    if is_drive_root(path) {
        let entries = read_drive_root(path);
        settings.update_last_folder_path(path);
        return Ok(entries);
    }
    match kind {
        PathKind::Missing => Err(DirError::NotFound),
        PathKind::NotDirectory => Err(DirError::NotADirectory),
        PathKind::Directory => match scan {
            Ok(s) => {
                let entries = collect_entries(&s);
                settings.update_last_folder_path(path);
                Ok(entries)
            },
            Err(cause) => Err(DirError::Io(cause)),
        },
    }
}

} // verus!
