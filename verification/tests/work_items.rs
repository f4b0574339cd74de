use file_backup::work::{
    files_done_message, files_progress_message, files_start_message, found_file,
    found_file_given, paste_file_path, relative_folder, source_indices, source_parent, Backup, BackupFile, File,
    FileResult, WorkState,
};

#[test]
fn file_new_splits_sources() {
    let f = File::new("D:/backup", "C:/a\nC:/b");
    assert_eq!(f.state, WorkState::Idle);
    assert_eq!(f.file_paste, "D:/backup");
    assert_eq!(f.file_copies, vec!["C:/a".to_string(), "C:/b".to_string()]);
}

#[test]
fn file_new_keeps_empty_lines() {
    let f = File::new("", "x\n\ny\n");
    assert_eq!(
        f.file_copies,
        vec!["x".to_string(), String::new(), "y".to_string(), String::new()]
    );
}

#[test]
fn incorrect_path_given_picks_first_non_folder() {
    let f = File::new("dst", "a\nb\nc");
    assert_eq!(f.incorrect_path_given(&vec![false, false, false, false]), "dst");
    assert_eq!(f.incorrect_path_given(&vec![true, true, false, false]), "b");
    assert_eq!(f.incorrect_path_given(&vec![true, true, true, false]), "c");
    assert_eq!(f.incorrect_path_given(&vec![true, true, true, true]), "");
}

#[test]
fn incorrect_path_on_disk() {
    let ok = File::new("/", "/");
    assert_eq!(ok.get_incorrect_path(), "");
    let bad_dest = File::new("/no/such/folder/for/backup", "/");
    assert_eq!(bad_dest.get_incorrect_path(), "/no/such/folder/for/backup");
    let bad_source = File::new("/", "/\n/no/such/source\n/also/missing");
    assert_eq!(bad_source.get_incorrect_path(), "/no/such/source");
    let empty_line = File::new("/", "/\n");
    assert_eq!(empty_line.get_incorrect_path(), "");
}

#[test]
fn file_result_new_keeps_fields() {
    let files = vec![BackupFile::new("p", "c")];
    let r = FileResult::new(WorkState::Busy, "msg", files);
    assert_eq!(r.state, WorkState::Busy);
    assert_eq!(r.message, "msg");
    assert_eq!(r.files.len(), 1);
    assert_eq!(r.files[0].paste_file, "p");
}

#[test]
fn backup_file_new_is_waiting() {
    let b = BackupFile::new("D:/x/01_a/f", "C:/a/f");
    assert_eq!(b.paste_file, "D:/x/01_a/f");
    assert_eq!(b.copy_file, "C:/a/f");
    assert!(!b.is_done);
}

#[test]
fn backup_clear_resets_everything() {
    let mut b = Backup {
        bu_files: vec![BackupFile::new("p", "c")],
        state: WorkState::Done,
        all_num: 3,
        assign_num: 2,
        done_num: 1,
    };
    b.clear();
    assert!(b.bu_files.is_empty());
    assert_eq!(b.state, WorkState::Idle);
    assert_eq!((b.all_num, b.assign_num, b.done_num), (0, 0, 0));
}

#[test]
fn backup_default_is_empty() {
    let b = Backup::default();
    assert!(b.bu_files.is_empty());
    assert_eq!(b.state, WorkState::Idle);
    assert_eq!(WorkState::default(), WorkState::Idle);
}

#[test]
fn source_indices_skip_empty_lines() {
    let f = File::new("d", "a\n\nb\n");
    assert_eq!(source_indices(&f), vec![0, 2]);
    let none = File::new("d", "");
    assert_eq!(source_indices(&none), Vec::<usize>::new());
}

#[test]
fn relative_folder_strips_source_parent() {
    assert_eq!(relative_folder("C:/data", "C:/data/docs/sub"), "/docs/sub");
    assert_eq!(relative_folder("", "docs"), "docs");
}

#[test]
fn paste_path_numbers_source_lines() {
    assert_eq!(paste_file_path("D:/bk", 0, "/docs/sub", "f.txt"), "D:/bk/01_docs/sub/f.txt");
    assert_eq!(paste_file_path("D:/bk", 9, "docs", "f.txt"), "D:/bk/10_docs/f.txt");
    assert_eq!(paste_file_path("D:/bk", 99, "/d", "g"), "D:/bk/100_d/g");
}

#[test]
fn paste_paths_of_different_sources_differ() {
    let a = paste_file_path("D", 0, "/x", "n");
    let b = paste_file_path("D", 1, "/x", "n");
    assert_ne!(a, b);
    let c = paste_file_path("D", 9, "/0_x", "n");
    let d = paste_file_path("D", 99, "/x", "n");
    assert_ne!(c, d);
}

#[test]
fn search_messages() {
    assert_eq!(files_start_message(), "ファイルを取得中...");
    assert_eq!(files_progress_message(12), "ファイルを取得中...12");
    assert_eq!(files_done_message(3), "3ファイルを取得しました");
}

#[test]
fn empty_source_line_does_not_hide_a_missing_source() {
    let f = File::new("D:/bk", "C:/ok\n\nC:/missing");
    assert_eq!(f.incorrect_path_given(&vec![true, true, false, false]), "C:/missing");
    let on_disk = File::new("/", "/\n\n/no/such/source/after/blank");
    assert_eq!(on_disk.get_incorrect_path(), "/no/such/source/after/blank");
}

#[test]
fn empty_destination_is_skipped_by_the_check() {
    let f = File::new("", "a\nb");
    assert_eq!(f.incorrect_path_given(&vec![false, true, true]), "");
    assert_eq!(f.incorrect_path_given(&vec![false, true, false]), "b");
}

#[test]
fn dir_flags_cover_every_path() {
    let f = File::new("/", "/\n\n/no/such/dir");
    assert_eq!(
        f.dir_flags(),
        vec![
            ("/".to_string(), true),
            ("/".to_string(), true),
            (String::new(), false),
            ("/no/such/dir".to_string(), false),
        ]
    );
}

#[test]
fn file_default_is_empty() {
    let f = File::default();
    assert_eq!(f.state, WorkState::Idle);
    assert!(f.file_paste.is_empty());
    assert!(f.file_copies.is_empty());
}

#[test]
fn found_file_given_builds_destination() {
    let b = found_file_given("D:/bk", 0, "C:/data", "C:/data/docs/f.txt", Some("C:/data/docs"), Some("f.txt"))
        .expect("found");
    assert_eq!(b.paste_file, "D:/bk/01_docs/f.txt");
    assert_eq!(b.copy_file, "C:/data/docs/f.txt");
    assert!(!b.is_done);
    assert!(found_file_given("D:/bk", 0, "C:/data", "x", None, Some("f")).is_none());
    assert!(found_file_given("D:/bk", 0, "C:/data", "x", Some("C:/data"), None).is_none());
    assert!(found_file_given("D:/bk", 0, "C:/data", "x", Some("C:/data"), Some("f")).is_none());
}

#[test]
fn found_file_reads_path_parts() {
    let b = found_file("/bk", 2, "/home", "/home/user/docs/a.txt").expect("found");
    assert_eq!(b.paste_file, "/bk/03_user/docs/a.txt");
    assert!(found_file("/bk", 0, "/home/user", "/home/user/a.txt").is_none());
}

#[test]
fn removing_the_source_parent_can_merge_folders() {
    let a = found_file("/bk", 0, "/s", "/s/t/s/u/f.txt").expect("found");
    let b = found_file("/bk", 0, "/s", "/s/t/u/f.txt").expect("found");
    assert_eq!(a.paste_file, "/bk/01_t/u/f.txt");
    assert_eq!(a.paste_file, b.paste_file);
}

#[test]
fn same_source_different_files_differ() {
    let a = paste_file_path("D", 0, "/x", "a.txt");
    let b = paste_file_path("D", 0, "/x", "b.txt");
    let c = paste_file_path("D", 0, "/x/y", "a.txt");
    assert_ne!(a, b);
    assert_ne!(a, c);
}

#[test]
fn source_parent_is_leading_part() {
    assert_eq!(source_parent("/home/user"), Some("/home".to_string()));
    assert_eq!(source_parent("docs"), Some(String::new()));
    assert_eq!(source_parent("/"), None);
    assert_eq!(source_parent(""), None);
}
