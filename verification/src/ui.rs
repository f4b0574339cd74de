//! What the window's controls do to the application state.

use vstd::prelude::*;
use crate::app::App;
use crate::text::{slash_path, split_lines, to_slash_path};
use crate::work::{incorrect_path, File, FileResult, WorkState};

verus! {

/// Whether a search or a backup is under way (the inputs are locked then).
pub fn is_running(app: &App) -> (res: bool)
    ensures
        res == (app.file.state == WorkState::Busy || app.backup.state == WorkState::Busy),
{
    app.file.state == WorkState::Busy || app.backup.state == WorkState::Busy
}

/// Takes in a report of the file search: shows its message, records its state
/// and files, and once the search is done starts the backup of all found files.
pub fn apply_file_result(app: &mut App, res: FileResult)
    ensures
        final(app).gui.result_message == res.message,
        final(app).gui.start_sec == old(app).gui.start_sec,
        final(app).gui.is_show_dialog == old(app).gui.is_show_dialog,
        final(app).settings == old(app).settings,
        final(app).file.state == res.state,
        final(app).file.file_paste == old(app).file.file_paste,
        final(app).file.file_copies == old(app).file.file_copies,
        final(app).backup.bu_files == res.files,
        final(app).backup.assign_num == old(app).backup.assign_num,
        final(app).backup.done_num == old(app).backup.done_num,
        res.state == WorkState::Done ==> final(app).backup.all_num == res.files@.len()
            && final(app).backup.state == WorkState::Busy,
        res.state != WorkState::Done ==> final(app).backup.all_num == old(app).backup.all_num
            && final(app).backup.state == old(app).backup.state,
{
    app.gui.result_message = res.message;
    app.file.state = res.state;
    app.backup.bu_files = res.files;
    if app.file.state == WorkState::Done {
        let all_num = app.backup.bu_files.len();
        app.backup.all_num = all_num;
        app.backup.state = WorkState::Busy;
    }
}

/// Takes the typed destination, with backslashes turned into slashes.
pub fn set_backup_path(app: &mut App, input: &str)
    ensures
        final(app).settings.backup_path@ == slash_path(input@),
        final(app).settings.backup_text == old(app).settings.backup_text,
        final(app).settings.wi == old(app).settings.wi,
        final(app).gui == old(app).gui,
        final(app).file == old(app).file,
        final(app).backup == old(app).backup,
{
    app.settings.backup_path = to_slash_path(input);
}

/// Takes the typed source list, with backslashes turned into slashes.
pub fn set_backup_text(app: &mut App, input: &str)
    ensures
        final(app).settings.backup_text@ == slash_path(input@),
        final(app).settings.backup_path == old(app).settings.backup_path,
        final(app).settings.wi == old(app).settings.wi,
        final(app).gui == old(app).gui,
        final(app).file == old(app).file,
        final(app).backup == old(app).backup,
{
    app.settings.backup_text = to_slash_path(input);
}

/// Takes the outcome of the folder picker: a chosen folder becomes the
/// destination (with slashes); either way the message is cleared.
pub fn choose_backup_path(app: &mut App, picked: Option<&str>)
    ensures
        match picked {
            Some(p) => final(app).settings.backup_path@ == slash_path(p@),
            None => final(app).settings.backup_path == old(app).settings.backup_path,
        },
        final(app).gui.result_message@.len() == 0,
        final(app).gui.start_sec == old(app).gui.start_sec,
        final(app).gui.is_show_dialog == old(app).gui.is_show_dialog,
        final(app).settings.backup_text == old(app).settings.backup_text,
        final(app).settings.wi == old(app).settings.wi,
        final(app).file == old(app).file,
        final(app).backup == old(app).backup,
{
    match picked {
        Some(p) => {
            app.settings.backup_path = to_slash_path(p);
        },
        None => {},
    }
    app.gui.result_message = String::new();
}

/// Shows the credits dialog if it is hidden, hides it if it is shown.
pub fn toggle_dialog(app: &mut App)
    ensures
        final(app).gui.is_show_dialog == !old(app).gui.is_show_dialog,
        final(app).gui.result_message == old(app).gui.result_message,
        final(app).gui.start_sec == old(app).gui.start_sec,
        final(app).settings == old(app).settings,
        final(app).file == old(app).file,
        final(app).backup == old(app).backup,
{
    app.gui.is_show_dialog = !app.gui.is_show_dialog;
}

/// Hides the credits dialog.
pub fn close_dialog(app: &mut App)
    ensures
        !final(app).gui.is_show_dialog,
        final(app).gui.result_message == old(app).gui.result_message,
        final(app).gui.start_sec == old(app).gui.start_sec,
        final(app).settings == old(app).settings,
        final(app).file == old(app).file,
        final(app).backup == old(app).backup,
{
    app.gui.is_show_dialog = false;
}

/// The warning for a path that is not an existing folder.
pub open spec fn missing_path_text(path: Seq<char>) -> Seq<char> {
    "パスが存在しません！\n"@ + path
}

/// The warning for `path` (see `missing_path_text`).
pub fn missing_path_message(path: &str) -> (res: String)
    ensures
        res@ == missing_path_text(path@),
{
    let mut s = String::from_str("パスが存在しません！\n");
    s.append(path);
    s
}

/// The outcome of pressing the run button.
#[derive(Debug)]
pub enum RunStart {
    /// A path is not an existing folder: warn with this text and do nothing else.
    Warning(String),
    /// Every path is a folder: the search for files is to start now.
    Started,
}

/// What pressing the run button does once the path check has given `bad` and
/// the clock reads `now` (the request itself is not touched): with a path to
/// warn about, the warning names it and nothing else changes; otherwise the
/// clock is started at `now` and the backup counters are cleared.
pub open spec fn run_start_post(old_app: App, new_app: App, res: RunStart, bad: Seq<char>, now: i64) -> bool {
    &&& new_app.settings == old_app.settings
    &&& new_app.gui.result_message == old_app.gui.result_message
    &&& new_app.gui.is_show_dialog == old_app.gui.is_show_dialog
    &&& if bad.len() > 0 {
        &&& res matches RunStart::Warning(msg) && msg@ == missing_path_text(bad)
        &&& new_app.gui.start_sec == old_app.gui.start_sec
        &&& new_app.backup == old_app.backup
    } else {
        &&& res is Started
        &&& new_app.gui.start_sec == now
        &&& new_app.backup.bu_files@.len() == 0
        &&& new_app.backup.state == WorkState::Idle
        &&& new_app.backup.all_num == 0
        &&& new_app.backup.assign_num == 0
        &&& new_app.backup.done_num == 0
    }
}

/// A destination that is not a folder stops the run: whatever the source lines
/// are, pressing the run button with a non-empty destination that the disk does
/// not report as a folder warns about that destination, leaves the clock and
/// the backup counters as they were, and starts nothing.
pub proof fn lemma_missing_destination_stops_run(
    old_app: App,
    new_app: App,
    res: RunStart,
    paste: Seq<char>,
    copies: Seq<Seq<char>>,
    dirs: Seq<bool>,
    now: i64,
)
    requires
        dirs.len() == copies.len() + 1,
        paste.len() > 0,
        !dirs[0],
        run_start_post(old_app, new_app, res, incorrect_path(paste, copies, dirs), now),
    ensures
        res matches RunStart::Warning(msg) && msg@ == missing_path_text(paste),
        new_app.gui.start_sec == old_app.gui.start_sec,
        new_app.backup == old_app.backup,
{
    crate::work::lemma_incorrect_path_order(paste, copies, dirs);
}

/// The run button's decision once the path check has given `bad` (empty when
/// all paths are fine) and the clock reads `now` (see `run_start_post`).
pub fn start_run_with(app: &mut App, bad: &str, now: i64) -> (res: RunStart)
    ensures
        run_start_post(*old(app), *final(app), res, bad@, now),
        final(app).file == old(app).file,
{
    if !bad.is_empty() {
        RunStart::Warning(missing_path_message(bad))
    } else {
        app.gui.start_sec = now;
        app.backup.clear();
        RunStart::Started
    }
}

/// Pressing the run button with the clock reading `now`: the request is read
/// from the inputs, its paths are checked on the disk, and `start_run_with`
/// decides with the path found.
pub fn start_run(app: &mut App, now: i64) -> (res: RunStart)
    ensures
        final(app).file.state == WorkState::Idle,
        final(app).file.file_paste@ == old(app).settings.backup_path@,
        final(app).file.copies() == split_lines(old(app).settings.backup_text@),
        exists|dirs: Seq<bool>|
            dirs.len() == final(app).file.file_copies@.len() + 1 && #[trigger] run_start_post(
                *old(app),
                *final(app),
                res,
                incorrect_path(final(app).file.file_paste@, final(app).file.copies(), dirs),
                now,
            ),
{
    app.file = File::new(app.settings.backup_path.as_str(), app.settings.backup_text.as_str());
    let bad = app.file.get_incorrect_path();
    let ghost mid = *app;
    let res = start_run_with(app, bad.as_str(), now);
    proof {
        let dirs = choose|dirs: Seq<bool>|
            dirs.len() == mid.file.file_copies.len() + 1 && bad@ == #[trigger] incorrect_path(
                mid.file.file_paste@,
                mid.file.copies(),
                dirs,
            );
        assert(run_start_post(*old(app), *app, res, incorrect_path(app.file.file_paste@, app.file.copies(), dirs), now));
    }
    res
}

} // verus!
