use maulwurf::commands::{get_dropped_file_path, get_system_fonts, get_terminal_logs, greet};
use maulwurf::dir_list::DirError;

#[test]
fn greeting() {
    assert_eq!(greet("Ann"), "Hello, Ann! You've been greeted from Rust!");
}

#[test]
fn dropped_path_passes_through() {
    assert_eq!(get_dropped_file_path("/tmp/x.rs"), "/tmp/x.rs");
}

#[test]
fn terminal_logs_are_empty() {
    assert!(get_terminal_logs().is_empty());
}

#[test]
fn error_texts() {
    assert_eq!(DirError::NotFound.describe("/x"), "경로가 존재하지 않습니다: /x");
    assert_eq!(DirError::NotADirectory.describe("/x"), "경로가 디렉토리가 아닙니다: /x");
    assert_eq!(
        DirError::Io("denied".to_string()).describe("/x"),
        "디렉토리 읽기 오류: /x: denied"
    );
}

#[test]
fn font_catalog_is_fixed() {
    let fonts = get_system_fonts();
    assert_eq!(fonts.len(), 7);
    assert_eq!(fonts[0], "Consolas");
    assert!(fonts.contains(&"D2Coding".to_string()));
}
