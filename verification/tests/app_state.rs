use file_backup::app::{
    backup_tick, event_handler, finished_message_string, progress_message_string,
    use_effect_backup, App, BackupAction, Progress, WindowChange, WindowInfo,
};
use file_backup::icon::{decode_icon, icon_from_decoded};
use file_backup::ui::{
    apply_file_result, choose_backup_path, close_dialog, is_running, missing_path_message,
    set_backup_path, set_backup_text, start_run, start_run_with, toggle_dialog, RunStart,
};
use file_backup::work::{Backup, BackupFile, FileResult, WorkState};

fn files(n: usize) -> Vec<BackupFile> {
    (0..n).map(|i| BackupFile::new(&format!("p{}", i), &format!("c{}", i))).collect()
}

/// The progress of the finished count after `finished` more copies report, as
/// the window works it out in single-precision floating point.
fn pct(app: &App, finished: usize) -> Progress {
    let done = app.backup.done_num + finished;
    let ratio = done as f32 / app.backup.all_num as f32 * 100.0;
    Progress { shown: ratio as usize, taskbar: ratio as u64 }
}

/// One step with the progress worked out as the window does.
fn tick(app: &mut App, finished: usize, running: usize, cpus: usize, now: i64) -> BackupAction {
    let p = pct(app, finished);
    backup_tick(app, finished, running, cpus, now, p)
}

fn running_app(n: usize) -> App {
    let mut app = App::default();
    app.backup = Backup { bu_files: files(n), state: WorkState::Busy, all_num: n, assign_num: 0, done_num: 0 };
    app
}

#[test]
fn default_app_is_empty() {
    let app = App::default();
    assert_eq!(app.settings.wi, WindowInfo { width: 0, height: 0, pos_x: 0, pos_y: 0 });
    assert_eq!(app.gui.result_message, "");
    assert!(!app.gui.is_show_dialog);
    assert_eq!(app.backup.state, WorkState::Idle);
    assert_eq!(app.file.state, WorkState::Idle);
}

#[test]
fn window_events_update_settings() {
    let mut app = App::default();
    assert!(!event_handler(&WindowChange::Resized { width: 800, height: 600 }, &mut app));
    assert!(!event_handler(&WindowChange::Moved { x: -5, y: 20 }, &mut app));
    assert_eq!(app.settings.wi, WindowInfo { width: 800, height: 600, pos_x: -5, pos_y: 20 });
    assert!(!event_handler(&WindowChange::Other, &mut app));
    assert!(event_handler(&WindowChange::CloseRequested, &mut app));
    assert_eq!(app.settings.wi, WindowInfo { width: 800, height: 600, pos_x: -5, pos_y: 20 });
}

#[test]
fn tick_does_nothing_when_idle() {
    let mut app = App::default();
    assert!(matches!(tick(&mut app, 0, 0, 4, 0), BackupAction::Idle));
    assert_eq!(app.backup.done_num, 0);
    assert_eq!(app.gui.result_message, "");
}

#[test]
fn tick_hands_out_within_cpu_limit() {
    let mut app = running_app(5);
    match tick(&mut app, 0, 0, 1, 0) {
        BackupAction::Copy { progress, spawn } => {
            assert_eq!(progress, 0);
            assert_eq!(spawn, vec![0, 1]);
        }
        other => panic!("unexpected {:?}", other),
    }
    assert_eq!(app.backup.assign_num, 2);
    assert_eq!(app.gui.result_message, "バックアップ中...(0/5) 00%");
    let done: Vec<bool> = app.backup.bu_files.iter().map(|f| f.is_done).collect();
    assert_eq!(done, vec![true, true, false, false, false]);
}

#[test]
fn tick_counts_finished_and_continues() {
    let mut app = running_app(4);
    tick(&mut app, 0, 0, 8, 0);
    assert_eq!(app.backup.assign_num, 4);
    match tick(&mut app, 1, 3, 8, 0) {
        BackupAction::Copy { progress, spawn } => {
            assert_eq!(progress, 25);
            assert!(spawn.is_empty());
        }
        other => panic!("unexpected {:?}", other),
    }
    assert_eq!(app.backup.done_num, 1);
    assert_eq!(app.gui.result_message, "バックアップ中...(1/4) 25%");
}

#[test]
fn tick_does_not_start_when_cpus_busy() {
    let mut app = running_app(3);
    match tick(&mut app, 0, 5, 4, 0) {
        BackupAction::Copy { spawn, .. } => assert!(spawn.is_empty()),
        other => panic!("unexpected {:?}", other),
    }
    assert_eq!(app.backup.assign_num, 0);
}

#[test]
fn tick_stops_at_all_assigned() {
    let mut app = running_app(3);
    app.backup.all_num = 2;
    match tick(&mut app, 0, 0, 16, 0) {
        BackupAction::Copy { spawn, .. } => assert_eq!(spawn, vec![0, 1]),
        other => panic!("unexpected {:?}", other),
    }
}

#[test]
fn tick_finishes_with_elapsed_time() {
    let mut app = running_app(2);
    app.gui.start_sec = 100;
    tick(&mut app, 0, 0, 4, 100);
    assert!(matches!(tick(&mut app, 2, 0, 4, 100 + 65), BackupAction::Finished));
    assert_eq!(app.backup.state, WorkState::Done);
    assert_eq!(app.gui.result_message, "バックアップが終了しました。経過時間: 1 分 5 秒");
    assert!(matches!(tick(&mut app, 0, 0, 4, 0), BackupAction::Idle));
}

#[test]
fn empty_backup_finishes_at_once() {
    let mut app = running_app(0);
    app.gui.start_sec = 7;
    assert!(matches!(tick(&mut app, 0, 0, 4, 7), BackupAction::Finished));
    assert_eq!(app.gui.result_message, finished_message_string(7, 7));
}

#[test]
fn whole_backup_runs_to_done() {
    let mut app = running_app(10);
    let mut running = 0usize;
    let mut steps = 0;
    loop {
        let finished = running;
        running = 0;
        match { let p = pct(&app, finished); use_effect_backup(&mut app, finished, running, 0, p) } {
            BackupAction::Copy { spawn, .. } => running += spawn.len(),
            BackupAction::Finished => break,
            BackupAction::Idle => panic!("backup stopped"),
        }
        assert!(app.backup.done_num <= app.backup.assign_num);
        assert!(app.backup.assign_num <= app.backup.all_num);
        steps += 1;
        assert!(steps < 100);
    }
    assert_eq!(app.backup.done_num, 10);
    assert!(app.backup.bu_files.iter().all(|f| f.is_done));
}

#[test]
fn progress_message_text() {
    assert_eq!(progress_message_string(3, 12, 25), "バックアップ中...(3/12) 25%");
}

#[test]
fn file_result_starts_backup_when_done() {
    let mut app = App::default();
    apply_file_result(&mut app, FileResult::new(WorkState::Busy, "ファイルを取得中...1", files(1)));
    assert_eq!(app.file.state, WorkState::Busy);
    assert_eq!(app.backup.state, WorkState::Idle);
    assert!(is_running(&app));
    apply_file_result(&mut app, FileResult::new(WorkState::Done, "3ファイルを取得しました", files(3)));
    assert_eq!(app.gui.result_message, "3ファイルを取得しました");
    assert_eq!(app.backup.all_num, 3);
    assert_eq!(app.backup.state, WorkState::Busy);
    assert!(is_running(&app));
}

#[test]
fn inputs_take_slashes() {
    let mut app = App::default();
    set_backup_path(&mut app, "D:\\bk");
    set_backup_text(&mut app, "C:\\a\nC:\\b");
    assert_eq!(app.settings.backup_path, "D:/bk");
    assert_eq!(app.settings.backup_text, "C:/a\nC:/b");
    app.gui.result_message = "old".to_string();
    choose_backup_path(&mut app, None);
    assert_eq!(app.settings.backup_path, "D:/bk");
    assert_eq!(app.gui.result_message, "");
    choose_backup_path(&mut app, Some("E:\\x"));
    assert_eq!(app.settings.backup_path, "E:/x");
}

#[test]
fn dialog_toggles() {
    let mut app = App::default();
    toggle_dialog(&mut app);
    assert!(app.gui.is_show_dialog);
    toggle_dialog(&mut app);
    assert!(!app.gui.is_show_dialog);
    toggle_dialog(&mut app);
    close_dialog(&mut app);
    assert!(!app.gui.is_show_dialog);
}

#[test]
fn run_warns_about_missing_path() {
    let mut app = App::default();
    app.settings.backup_path = "/".to_string();
    app.settings.backup_text = "/\n/no/such/source/dir".to_string();
    app.backup.done_num = 4;
    match start_run(&mut app, 1700000000) {
        RunStart::Warning(msg) => assert_eq!(msg, "パスが存在しません！\n/no/such/source/dir"),
        RunStart::Started => panic!("should warn"),
    }
    assert_eq!(app.backup.done_num, 4);
    assert_eq!(app.file.file_copies.len(), 2);
}

#[test]
fn run_starts_when_all_paths_exist() {
    let mut app = App::default();
    app.settings.backup_path = "/".to_string();
    app.settings.backup_text = "/".to_string();
    app.backup.done_num = 4;
    assert!(matches!(start_run(&mut app, 1700000000), RunStart::Started));
    assert_eq!(app.backup.done_num, 0);
    assert_eq!(app.gui.start_sec, 1700000000);
}

#[test]
fn missing_path_text() {
    assert_eq!(missing_path_message("C:/x"), "パスが存在しません！\nC:/x");
}

#[test]
fn icon_decodes_png() {
    let img = image::RgbaImage::from_pixel(2, 3, image::Rgba([1, 2, 3, 4]));
    let mut bytes: Vec<u8> = Vec::new();
    img.write_to(&mut std::io::Cursor::new(&mut bytes), image::ImageFormat::Png).unwrap();
    let icon = decode_icon(&bytes).expect("decodes");
    assert_eq!((icon.width, icon.height), (2, 3));
    assert_eq!(icon.pixels.len(), 24);
    assert_eq!(&icon.pixels[0..4], &[1, 2, 3, 4]);
}

#[test]
fn icon_rejects_garbage() {
    assert!(decode_icon(&[0, 1, 2, 3]).is_none());
    assert!(decode_icon(&[]).is_none());
}

#[test]
fn icon_from_decoder_output() {
    assert!(icon_from_decoded(None).is_none());
    let icon = icon_from_decoded(Some((vec![9, 8, 7, 6], 1, 1))).expect("present");
    assert_eq!(icon.pixels, vec![9, 8, 7, 6]);
    assert_eq!((icon.width, icon.height), (1, 1));
}

#[test]
fn icon_grey_png_has_one_byte_per_pixel() {
    let img = image::GrayImage::from_pixel(3, 2, image::Luma([200]));
    let mut bytes: Vec<u8> = Vec::new();
    img.write_to(&mut std::io::Cursor::new(&mut bytes), image::ImageFormat::Png).unwrap();
    let icon = decode_icon(&bytes).expect("decodes");
    assert_eq!((icon.width, icon.height), (3, 2));
    assert_eq!(icon.pixels, vec![200; 6]);
}

#[test]
fn run_decision_warns_on_bad_path() {
    let mut app = running_app(2);
    app.gui.start_sec = 5;
    match start_run_with(&mut app, "C:/missing", 99) {
        RunStart::Warning(msg) => assert_eq!(msg, "パスが存在しません！\nC:/missing"),
        RunStart::Started => panic!("should warn"),
    }
    assert_eq!(app.gui.start_sec, 5);
    assert_eq!(app.backup.all_num, 2);
}

#[test]
fn run_decision_starts_clock() {
    let mut app = running_app(2);
    assert!(matches!(start_run_with(&mut app, "", 1234), RunStart::Started));
    assert_eq!(app.gui.start_sec, 1234);
    assert_eq!(app.backup.all_num, 0);
    assert!(app.backup.bu_files.is_empty());
}

#[test]
fn run_warns_about_source_after_blank_line() {
    let mut app = App::default();
    app.settings.backup_path = "/".to_string();
    app.settings.backup_text = "/\n\n/no/such/source/dir".to_string();
    match start_run(&mut app, 1700000000) {
        RunStart::Warning(msg) => assert_eq!(msg, "パスが存在しません！\n/no/such/source/dir"),
        RunStart::Started => panic!("should warn"),
    }
}

#[test]
fn running_copies_are_accounted_for() {
    let mut app = running_app(6);
    let mut running = 0usize;
    for _ in 0..20 {
        let finished = running.min(2);
        running -= finished;
        let act = tick(&mut app, finished, running, 1, 0);
        if let BackupAction::Copy { spawn, .. } = &act {
            running += spawn.len();
        }
        let handed = app.backup.bu_files.iter().filter(|f| f.is_done).count();
        assert_eq!(app.backup.done_num + running, app.backup.assign_num);
        assert_eq!(handed, app.backup.assign_num);
        assert!(app.backup.assign_num <= app.backup.all_num);
        if matches!(act, BackupAction::Finished) {
            assert_eq!(running, 0);
            break;
        }
    }
    assert_eq!(app.backup.state, WorkState::Done);
}

#[test]
fn progress_follows_the_float_percentage() {
    let mut app = running_app(100);
    app.backup.assign_num = 100;
    for f in app.backup.bu_files.iter_mut() {
        f.is_done = true;
    }
    let p = pct(&app, 53);
    match backup_tick(&mut app, 53, 47, 4, 0, p) {
        BackupAction::Copy { progress, spawn } => {
            assert_eq!(progress, 52);
            assert!(spawn.is_empty());
        }
        other => panic!("unexpected {:?}", other),
    }
    assert_eq!(app.gui.result_message, "バックアップ中...(53/100) 52%");
}
