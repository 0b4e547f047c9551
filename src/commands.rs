//! Small operations offered to the front end.

use vstd::prelude::*;
use crate::dir_list::DirError;
use crate::text::joined;

verus! {

/// The greeting for `name`.
pub fn greet(name: &str) -> (r: String)
    ensures
        r@ == "Hello, "@ + name@ + "! You've been greeted from Rust!"@,
{
    joined("Hello, ", name).concat("! You've been greeted from Rust!")
}

/// The path of a file dropped on the window, as it was handed in.
pub fn get_dropped_file_path(file_path: &str) -> (r: String)
    ensures
        r@ == file_path@,
{
    file_path.to_owned()
}

/// The terminal lines kept for the front end: none are kept, since the
/// console side consumes them.
pub fn get_terminal_logs() -> (r: Vec<String>)
    ensures
        r@.len() == 0,
{
    Vec::new()
}

/// The fonts offered in the font picker, in order.
pub open spec fn font_catalog() -> Seq<Seq<char>> {
    seq![
        "Consolas"@,
        "Courier New"@,
        "D2Coding"@,
        "Fira Code"@,
        "JetBrains Mono"@,
        "Nanum Gothic Coding"@,
        "Source Code Pro"@,
    ]
}

/// The fonts offered in the font picker: a fixed catalog, not a query of
/// the system.
pub fn get_system_fonts() -> (r: Vec<String>)
    ensures
        r@.map_values(|s: String| s@) == font_catalog(),
{
    let r = vec![
        "Consolas".to_owned(),
        "Courier New".to_owned(),
        "D2Coding".to_owned(),
        "Fira Code".to_owned(),
        "JetBrains Mono".to_owned(),
        "Nanum Gothic Coding".to_owned(),
        "Source Code Pro".to_owned(),
    ];
    assert(r@.map_values(|s: String| s@) =~= font_catalog());
    r
}

/// The human-readable text of a listing failure for `path`.
pub open spec fn dir_error_text(e: DirError, path: Seq<char>) -> Seq<char> {
    match e {
        DirError::NotFound => "경로가 존재하지 않습니다: "@ + path,
        DirError::NotADirectory => "경로가 디렉토리가 아닙니다: "@ + path,
        DirError::Io(cause) => "디렉토리 읽기 오류: "@ + path + ": "@ + cause@,
    }
}

impl DirError {
    /// The human-readable text of this failure for `path`.
    pub fn describe(&self, path: &str) -> (r: String)
        ensures
            r@ == dir_error_text(*self, path@),
    {
        match self {
            DirError::NotFound => joined("경로가 존재하지 않습니다: ", path),
            DirError::NotADirectory => joined("경로가 디렉토리가 아닙니다: ", path),
            DirError::Io(cause) => joined("디렉토리 읽기 오류: ", path).concat(": ").concat(cause.as_str()),
        }
    }
}

} // verus!
