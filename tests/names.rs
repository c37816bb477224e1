use diary_cli::config::{get_arguments, get_editor, Mode};
use diary_cli::date::{date_name, get_daily_filename, Day};
use diary_cli::error::Error;
use diary_cli::listing::{
    get_date_from_index, get_files_in_directory, get_files_with_extension, list_data_files, DirItem,
};
use diary_cli::paths::{extension, get_data_path, join, stem, with_extension};
use diary_cli::sweep::backup_check;

fn strings(v: &[&str]) -> Vec<String> {
    v.iter().map(|s| s.to_string()).collect()
}

#[test]
fn data_path_prefers_xdg() {
    let p = get_data_path(Some("/x/data".to_string()), Some("/home/u".to_string()));
    assert_eq!(p, Ok("/x/data/diary-cli".to_string()));
}

#[test]
fn data_path_falls_back_to_home() {
    let p = get_data_path(None, Some("/home/u".to_string()));
    assert_eq!(p, Ok("/home/u/.local/share/diary-cli".to_string()));
    let p = get_data_path(None, Some("/home/u/".to_string()));
    assert_eq!(p, Ok("/home/u/.local/share/diary-cli".to_string()));
}

#[test]
fn data_path_without_home_is_an_error() {
    let p = get_data_path(None, None);
    assert_eq!(p, Err(Error::RequiredEnvVarNotFound("HOME".to_string())));
}

#[test]
fn join_components() {
    assert_eq!(join("", "a"), "a");
    assert_eq!(join("/", "a"), "/a");
    assert_eq!(join("/d", "a.txt"), "/d/a.txt");
}

#[test]
fn extensions_and_stems() {
    assert_eq!(extension("2026-10-18.txt"), Some("txt".to_string()));
    assert_eq!(extension("a.tar.gz"), Some("gz".to_string()));
    assert_eq!(extension(".hidden"), None);
    assert_eq!(extension(".."), None);
    assert_eq!(extension("plain"), None);
    assert_eq!(extension("a."), Some(String::new()));
    assert_eq!(stem("2026-10-18.backup"), "2026-10-18");
    assert_eq!(stem(".hidden"), ".hidden");
    assert_eq!(with_extension("2026-10-18", "txt"), "2026-10-18.txt");
}

#[test]
fn files_in_directory_keeps_regular_files() {
    let items = vec![
        Some(DirItem { name: "a.txt".to_string(), is_file: true }),
        Some(DirItem { name: "sub".to_string(), is_file: false }),
        None,
        Some(DirItem { name: "b.backup".to_string(), is_file: true }),
    ];
    assert_eq!(get_files_in_directory(&items), strings(&["a.txt", "b.backup"]));
    assert!(get_files_in_directory(&Vec::new()).is_empty());
}

#[test]
fn files_with_extension_filters() {
    let names = strings(&["a.txt", "b.backup", "c.txt", "txt", ".txt", "d.txt.old"]);
    assert_eq!(get_files_with_extension(&names, "txt"), strings(&["a.txt", "c.txt"]));
    assert_eq!(get_files_with_extension(&names, "backup"), strings(&["b.backup"]));
}

#[test]
fn list_is_sorted_by_date() {
    let names = strings(&[
        "2026-10-18.txt",
        "2025-12-31.txt",
        "2026-10-18.backup",
        "2026-01-02.txt",
    ]);
    assert_eq!(
        list_data_files(&names),
        strings(&["2025-12-31", "2026-01-02", "2026-10-18"])
    );
    assert!(list_data_files(&strings(&["x.backup"])).is_empty());
}

#[test]
fn index_selects_in_sorted_order() {
    let names = strings(&["2026-10-18.txt", "2025-12-31.txt", "notes.md"]);
    assert_eq!(get_date_from_index(&names, 0), Some("2025-12-31".to_string()));
    assert_eq!(get_date_from_index(&names, 1), Some("2026-10-18".to_string()));
    assert_eq!(get_date_from_index(&names, 2), None);
    assert_eq!(get_date_from_index(&Vec::new(), 0), None);
}

#[test]
fn sweep_plan_lists_each_backup() {
    let names = strings(&["a.backup", "a.txt", "b.backup", "c.txt"]);
    let plan = backup_check(&names);
    assert_eq!(plan.len(), 2);
    assert_eq!(plan[0].backup, "a.backup");
    assert_eq!(plan[0].entry, "a.txt");
    assert!(plan[0].entry_exists);
    assert_eq!(plan[1].backup, "b.backup");
    assert_eq!(plan[1].entry, "b.txt");
    assert!(!plan[1].entry_exists);
    assert!(backup_check(&strings(&["a.txt", "backup", ".backup"])).is_empty());
}

#[test]
fn date_names_are_iso() {
    assert_eq!(date_name(Day { year: 2026, month: 10, day: 18 }), "2026-10-18");
    assert_eq!(date_name(Day { year: 987, month: 1, day: 5 }), "0987-01-05");
    assert_eq!(date_name(Day { year: 2024, month: 2, day: 29 }), "2024-02-29");
    assert_eq!(date_name(Day { year: -44, month: 3, day: 15 }), "-0044-03-15");
}

#[test]
fn daily_filename_has_iso_shape() {
    let d = get_daily_filename();
    let b = d.as_bytes();
    assert_eq!(b.len(), 10);
    assert_eq!(b[4], b'-');
    assert_eq!(b[7], b'-');
    assert!(b.iter().enumerate().all(|(i, c)| i == 4 || i == 7 || c.is_ascii_digit()));
}

#[test]
fn arguments_select_mode() {
    let c = get_arguments(true, false, None);
    assert!(c.debug);
    assert_eq!(c.mode, Mode::Today);
    assert_eq!(get_arguments(false, true, None).mode, Mode::List);
    assert_eq!(get_arguments(false, false, Some(3)).mode, Mode::Show(3));
}

#[test]
fn editor_is_required() {
    assert_eq!(get_editor(Some("vi".to_string())), Ok("vi".to_string()));
    assert_eq!(
        get_editor(None),
        Err(Error::RequiredEnvVarNotFound("EDITOR".to_string()))
    );
}

#[test]
fn error_messages() {
    let e = Error::RequiredEnvVarNotFound("EDITOR".to_string());
    assert_eq!(e.message(), "Required environment variable 'EDITOR' was not found.");
    let e = Error::InvalidPath("/x".to_string());
    assert_eq!(e.message(), "Invalid path '/x' was found.");
}
