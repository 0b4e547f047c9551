//! The settings record and the store that holds it.

use vstd::prelude::*;
use crate::text::str_eq;

verus! {

/// User preferences: fonts, theme and the folders the browser remembers.
pub struct AppSettings {
    pub last_folder_path: String,
    pub favorite_folders: Vec<String>,
    pub font_family: String,
    pub font_size: u32,
    pub word_wrap: bool,
    pub show_line_numbers: bool,
    pub show_minimap: bool,
    pub theme: String,
    pub accessible_folders: Vec<String>,
}

/// The value of an [`AppSettings`].
pub struct SettingsView {
    pub last_folder_path: Seq<char>,
    pub favorite_folders: Seq<Seq<char>>,
    pub font_family: Seq<char>,
    pub font_size: u32,
    pub word_wrap: bool,
    pub show_line_numbers: bool,
    pub show_minimap: bool,
    pub theme: Seq<char>,
    pub accessible_folders: Seq<Seq<char>>,
}

/// The characters of each string.
pub open spec fn texts(v: Seq<String>) -> Seq<Seq<char>> {
    v.map_values(|s: String| s@)
}

impl View for AppSettings {
    type V = SettingsView;

    open spec fn view(&self) -> SettingsView {
        SettingsView {
            last_folder_path: self.last_folder_path@,
            favorite_folders: texts(self.favorite_folders@),
            font_family: self.font_family@,
            font_size: self.font_size,
            word_wrap: self.word_wrap,
            show_line_numbers: self.show_line_numbers,
            show_minimap: self.show_minimap,
            theme: self.theme@,
            accessible_folders: texts(self.accessible_folders@),
        }
    }
}

/// The settings used when none have been saved.
pub open spec fn default_view() -> SettingsView {
    SettingsView {
        last_folder_path: "C:\\"@,
        favorite_folders: Seq::empty(),
        font_family: "Consolas"@,
        font_size: 14,
        word_wrap: false,
        show_line_numbers: true,
        show_minimap: true,
        theme: "dark"@,
        accessible_folders: seq!["C:\\"@, "D:\\"@],
    }
}

/// `list` with `p` appended, unless it already holds `p`.
pub open spec fn with_folder(list: Seq<Seq<char>>, p: Seq<char>) -> Seq<Seq<char>> {
    if list.contains(p) {
        list
    } else {
        list.push(p)
    }
}

/// `list` without any element equal to `p`, the others in order.
pub open spec fn without_folder(list: Seq<Seq<char>>, p: Seq<char>) -> Seq<Seq<char>>
    decreases list.len(),
{
    if list.len() == 0 {
        list
    } else if list.last() == p {
        without_folder(list.drop_last(), p)
    } else {
        without_folder(list.drop_last(), p).push(list.last())
    }
}

/// How many elements of `list` equal `p`.
pub open spec fn occurrences(list: Seq<Seq<char>>, p: Seq<char>) -> nat
    decreases list.len(),
{
    if list.len() == 0 {
        0
    } else {
        occurrences(list.drop_last(), p) + if list.last() == p {
            1nat
        } else {
            0nat
        }
    }
}

/// What reading the settings file gave.
pub enum SettingsFile {
    /// There is no settings file.
    Missing,
    /// The file was read and decoded.
    Parsed(AppSettings),
    /// The file was read but could not be decoded; the cause.
    Corrupt(String),
}

/// Why a settings operation failed.
pub enum SettingsError {
    /// The settings could not be encoded or decoded; the cause.
    Serialization(String),
    /// The settings file could not be created or written; the cause.
    Io(String),
    /// The settings lock could not be taken.
    LockUnavailable,
}

/// The settings after loading `file` over `current`.
pub open spec fn loaded(current: SettingsView, file: SettingsFile) -> SettingsView {
    match file {
        SettingsFile::Missing => default_view(),
        SettingsFile::Parsed(s) => s@,
        SettingsFile::Corrupt(_) => current,
    }
}

fn copy_strings(v: &Vec<String>) -> (r: Vec<String>)
    ensures
        r@ == v@,
{
    let mut r: Vec<String> = Vec::new();
    let mut i: usize = 0;
    while i < v.len()
        invariant
            i <= v@.len(),
            r@ == v@.subrange(0, i as int),
        decreases v@.len() - i,
    {
        r.push(v[i].clone());
        i += 1;
    }
    assert(r@ =~= v@);
    r
}

fn contains_text(v: &Vec<String>, p: &str) -> (r: bool)
    ensures
        r == texts(v@).contains(p@),
{
    let mut i: usize = 0;
    while i < v.len()
        invariant
            i <= v@.len(),
            forall|k: int| 0 <= k < i ==> texts(v@)[k] != p@,
        decreases v@.len() - i,
    {
        if str_eq(v[i].as_str(), p) {
            assert(texts(v@)[i as int] == p@);
            return true;
        }
        i += 1;
    }
    false
}

fn push_text(v: &mut Vec<String>, p: &str)
    ensures
        texts(final(v)@) == texts(old(v)@).push(p@),
{
    v.push(p.to_owned());
    assert(texts(v@) =~= texts(old(v)@).push(p@));
}

impl AppSettings {
    /// The settings used when none have been saved.
    pub fn default_settings() -> (r: AppSettings)
        ensures
            r@ == default_view(),
    {
        let r = AppSettings {
            last_folder_path: "C:\\".to_owned(),
            favorite_folders: Vec::new(),
            font_family: "Consolas".to_owned(),
            font_size: 14,
            word_wrap: false,
            show_line_numbers: true,
            show_minimap: true,
            theme: "dark".to_owned(),
            accessible_folders: vec!["C:\\".to_owned(), "D:\\".to_owned()],
        };
        assert(r@.favorite_folders =~= default_view().favorite_folders);
        assert(r@.accessible_folders =~= default_view().accessible_folders);
        r
    }

    /// A field-by-field copy.
    pub fn copy(&self) -> (r: AppSettings)
        ensures
            r@ == self@,
    {
        AppSettings {
            last_folder_path: self.last_folder_path.clone(),
            favorite_folders: copy_strings(&self.favorite_folders),
            font_family: self.font_family.clone(),
            font_size: self.font_size,
            word_wrap: self.word_wrap,
            show_line_numbers: self.show_line_numbers,
            show_minimap: self.show_minimap,
            theme: self.theme.clone(),
            accessible_folders: copy_strings(&self.accessible_folders),
        }
    }
}

/// The one live settings record.
pub struct SettingsStore {
    settings: AppSettings,
}

impl View for SettingsStore {
    type V = SettingsView;

    closed spec fn view(&self) -> SettingsView {
        self.settings@
    }
}

impl SettingsStore {
    /// A store holding the default settings, before anything is loaded.
    pub fn new() -> (r: SettingsStore)
        ensures
            r@ == default_view(),
    {
        SettingsStore { settings: AppSettings::default_settings() }
    }

    /// Adopts what reading the settings file gave. With no file the defaults
    /// are adopted and `Ok(true)` says that they are to be written; a decoded
    /// file is adopted as it is, with `Ok(false)`; an undecodable one is an
    /// error and changes nothing.
    pub fn load_settings(&mut self, file: SettingsFile) -> (r: Result<bool, SettingsError>)
        ensures
            final(self)@ == loaded(old(self)@, file),
            r matches Ok(write) ==> write == (file is Missing),
            r is Err <==> file is Corrupt,
            r matches Err(e) ==> (e matches SettingsError::Serialization(c) && file
                matches SettingsFile::Corrupt(d) && c@ == d@),
    {
        match file {
            SettingsFile::Missing => {
                self.settings = AppSettings::default_settings();
                Ok(true)
            },
            SettingsFile::Parsed(s) => {
                self.settings = s;
                Ok(false)
            },
            SettingsFile::Corrupt(cause) => Err(SettingsError::Serialization(cause)),
        }
    }

    /// A copy of the current settings; also the record that is saved.
    pub fn get_settings(&self) -> (r: AppSettings)
        ensures
            r@ == self@,
    {
        self.settings.copy()
    }

    /// Replaces the whole record.
    pub fn update_settings(&mut self, settings: AppSettings)
        ensures
            final(self)@ == settings@,
    {
        self.settings = settings;
    }

    /// Remembers the folder last browsed.
    pub fn update_last_folder_path(&mut self, path: &str)
        ensures
            final(self)@ == (SettingsView { last_folder_path: path@, ..old(self)@ }),
    {
        self.settings.last_folder_path = path.to_owned();
    }

    /// Adds a favorite folder; one already there is left as it is.
    pub fn add_favorite_folder(&mut self, path: &str)
        ensures
            final(self)@ == (SettingsView {
                favorite_folders: with_folder(old(self)@.favorite_folders, path@),
                ..old(self)@
            }),
    {
        if !contains_text(&self.settings.favorite_folders, path) {
            push_text(&mut self.settings.favorite_folders, path);
        }
    }

    /// Removes a favorite folder; an absent one is no error.
    pub fn remove_favorite_folder(&mut self, path: &str)
        ensures
            final(self)@ == (SettingsView {
                favorite_folders: without_folder(old(self)@.favorite_folders, path@),
                ..old(self)@
            }),
    {
        let old_list = &self.settings.favorite_folders;
        let mut kept: Vec<String> = Vec::new();
        let mut i: usize = 0;
        while i < old_list.len()
            invariant
                i <= old_list@.len(),
                texts(kept@) == without_folder(texts(old_list@).subrange(0, i as int), path@),
            decreases old_list@.len() - i,
        {
            let ghost prefix = texts(old_list@).subrange(0, i as int);
            let ghost next = texts(old_list@).subrange(0, i + 1);
            assert(next.drop_last() =~= prefix);
            if !str_eq(old_list[i].as_str(), path) {
                let ghost before = kept@;
                kept.push(old_list[i].clone());
                assert(texts(kept@) =~= texts(before).push(old_list@[i as int]@));
            }
            i += 1;
        }
        assert(texts(old_list@).subrange(0, old_list@.len() as int) =~= texts(old_list@));
        self.settings.favorite_folders = kept;
    }

    /// Adds a folder the browser may open; one already there is left as it is.
    pub fn add_accessible_folder(&mut self, path: &str)
        ensures
            final(self)@ == (SettingsView {
                accessible_folders: with_folder(old(self)@.accessible_folders, path@),
                ..old(self)@
            }),
    {
        if !contains_text(&self.settings.accessible_folders, path) {
            push_text(&mut self.settings.accessible_folders, path);
        }
    }
}

} // verus!
