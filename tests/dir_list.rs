use maulwurf::dir_list::{
    collect_entries, is_drive_root, is_hidden_windows, read_dir, read_drive_root, DirError,
    FileEntry, PathKind, ScannedEntry,
};
use maulwurf::settings::SettingsStore;

fn summary(v: &[FileEntry]) -> Vec<(String, String, bool, bool)> {
    v.iter()
        .map(|e| (e.name.clone(), e.path.clone(), e.is_dir, e.hidden))
        .collect()
}

fn scanned(name: Option<&str>, path: &str, is_dir: bool, attributes: Option<u32>) -> ScannedEntry {
    ScannedEntry { name: name.map(|n| n.to_string()), path: path.to_string(), is_dir, attributes }
}

#[test]
fn drive_root_gets_fixed_listing() {
    let mut st = SettingsStore::new();
    let r = read_dir(&mut st, "C:\\", PathKind::Missing, Err("unused".to_string()));
    let v = match r {
        Ok(v) => v,
        Err(_) => panic!("drive root must list"),
    };
    assert_eq!(
        summary(&v),
        vec![
            ("Program Files".to_string(), "C:\\Program Files".to_string(), true, false),
            ("Program Files (x86)".to_string(), "C:\\Program Files (x86)".to_string(), true, false),
            ("Users".to_string(), "C:\\Users".to_string(), true, false),
            ("Windows".to_string(), "C:\\Windows".to_string(), true, false),
        ]
    );
    assert_eq!(st.get_settings().last_folder_path, "C:\\");
}

#[test]
fn other_drive_letter_roots_its_entries() {
    let v = read_drive_root("D:\\");
    assert_eq!(v.len(), 4);
    assert_eq!(v[3].path, "D:\\Windows");
}

#[test]
fn drive_root_match_is_narrow() {
    assert!(is_drive_root("C:\\"));
    assert!(is_drive_root("Z:\\"));
    assert!(!is_drive_root("c:\\"));
    assert!(!is_drive_root("C:/"));
    assert!(!is_drive_root("C:"));
    assert!(!is_drive_root("C:\\Users"));
    assert!(!is_drive_root(""));
}

#[test]
fn missing_path_is_not_found_and_keeps_last_folder() {
    let mut st = SettingsStore::new();
    st.update_last_folder_path("/home/me");
    let r = read_dir(&mut st, "/does/not/exist", PathKind::Missing, Ok(vec![]));
    assert!(matches!(r, Err(DirError::NotFound)));
    assert_eq!(st.get_settings().last_folder_path, "/home/me");
}

#[test]
fn file_path_is_not_a_directory() {
    let mut st = SettingsStore::new();
    let r = read_dir(&mut st, "/etc/hosts", PathKind::NotDirectory, Ok(vec![]));
    assert!(matches!(r, Err(DirError::NotADirectory)));
    assert_eq!(st.get_settings().last_folder_path, "C:\\");
}

#[test]
fn failed_open_is_io_error_with_cause() {
    let mut st = SettingsStore::new();
    let r = read_dir(&mut st, "/root", PathKind::Directory, Err("permission denied".to_string()));
    match r {
        Err(DirError::Io(c)) => assert_eq!(c, "permission denied"),
        _ => panic!("expected an I/O error"),
    }
}

#[test]
fn scan_skips_bad_entries_and_records_folder() {
    let mut st = SettingsStore::new();
    let scan = vec![
        Some(scanned(Some("a.txt"), "/p/a.txt", false, None)),
        None,
        Some(scanned(None, "/p/??", false, None)),
        Some(scanned(Some("sub"), "/p/sub", true, Some(0x12))),
    ];
    let r = read_dir(&mut st, "/p", PathKind::Directory, Ok(scan));
    let v = match r {
        Ok(v) => v,
        Err(_) => panic!("scan must succeed"),
    };
    assert_eq!(
        summary(&v),
        vec![
            ("a.txt".to_string(), "/p/a.txt".to_string(), false, false),
            ("sub".to_string(), "/p/sub".to_string(), true, true),
        ]
    );
    assert_eq!(st.get_settings().last_folder_path, "/p");
}

#[test]
fn empty_scan_lists_nothing() {
    assert!(collect_entries(&vec![]).is_empty());
}

#[test]
fn hidden_attribute_bit() {
    assert!(is_hidden_windows(0x2));
    assert!(is_hidden_windows(0x22));
    assert!(!is_hidden_windows(0x10));
    assert!(!is_hidden_windows(0));
    assert!(!is_hidden_windows(u32::MAX));
}

#[test]
fn failed_attribute_query_is_not_hidden() {
    let v = collect_entries(&vec![Some(scanned(Some("x"), "/x", false, Some(u32::MAX)))]);
    assert!(!v[0].hidden);
}

#[test]
fn empty_path_lists_drive_c() {
    let v = read_drive_root("");
    assert_eq!(v.len(), 4);
    assert_eq!(v[0].path, "C:\\Program Files");
    assert_eq!(v[3].path, "C:\\Windows");
}

#[test]
fn longer_path_lists_its_drive() {
    let v = read_drive_root("D:\\x");
    assert_eq!(
        summary(&v),
        vec![
            ("Program Files".to_string(), "D:\\Program Files".to_string(), true, false),
            ("Program Files (x86)".to_string(), "D:\\Program Files (x86)".to_string(), true, false),
            ("Users".to_string(), "D:\\Users".to_string(), true, false),
            ("Windows".to_string(), "D:\\Windows".to_string(), true, false),
        ]
    );
}
