//! The application state and the rules of one step of a running backup.

use vstd::prelude::*;
use crate::text::{decimal, push_char, push_decimal};
use crate::utility::{duration_text, elapsed_secs, percent_text};
use crate::work::{Backup, BackupFile, File, WorkState};

verus! {

/// The size and position of the main window.
#[derive(Debug, Clone, Copy, PartialEq, Eq, Structural)]
pub struct WindowInfo {
    pub width: u32,
    pub height: u32,
    pub pos_x: i32,
    pub pos_y: i32,
}

/// What the user has entered and where the window stands; kept between runs.
#[derive(Debug, Clone)]
pub struct Settings {
    pub wi: WindowInfo,
    pub backup_path: String,
    pub backup_text: String,
}

impl Default for Settings {
    fn default() -> (res: Settings)
        ensures
            res.wi == (WindowInfo { width: 0, height: 0, pos_x: 0, pos_y: 0 }),
            res.backup_path@.len() == 0,
            res.backup_text@.len() == 0,
    {
        Settings {
            wi: WindowInfo { width: 0, height: 0, pos_x: 0, pos_y: 0 },
            backup_path: String::new(),
            backup_text: String::new(),
        }
    }
}

/// What the window shows besides the inputs.
#[derive(Debug, Clone)]
pub struct Gui {
    pub result_message: String,
    pub start_sec: i64,
    pub is_show_dialog: bool,
}

impl Default for Gui {
    fn default() -> (res: Gui)
        ensures
            res.result_message@.len() == 0,
            res.start_sec == 0,
            !res.is_show_dialog,
    {
        Gui { result_message: String::new(), start_sec: 0, is_show_dialog: false }
    }
}

/// The whole state of the tool.
#[derive(Debug, Clone)]
pub struct App {
    pub settings: Settings,
    pub gui: Gui,
    pub file: File,
    pub backup: Backup,
}

impl Default for App {
    fn default() -> (res: App)
        ensures
            res.settings.wi == (WindowInfo { width: 0, height: 0, pos_x: 0, pos_y: 0 }),
            res.settings.backup_path@.len() == 0,
            res.settings.backup_text@.len() == 0,
            res.gui.result_message@.len() == 0,
            res.gui.start_sec == 0,
            !res.gui.is_show_dialog,
            res.file.state == WorkState::Idle,
            res.file.file_paste@.len() == 0,
            res.file.file_copies@.len() == 0,
            res.backup.bu_files@.len() == 0,
            res.backup.state == WorkState::Idle,
            res.backup.all_num == 0,
            res.backup.assign_num == 0,
            res.backup.done_num == 0,
    {
        App {
            settings: Settings::default(),
            gui: Gui::default(),
            file: File { state: WorkState::Idle, file_paste: String::new(), file_copies: Vec::new() },
            backup: Backup::default(),
        }
    }
}

/// A change to the main window.
#[derive(Debug, Clone, Copy, PartialEq, Eq, Structural)]
pub enum WindowChange {
    Resized { width: u32, height: u32 },
    Moved { x: i32, y: i32 },
    CloseRequested,
    Other,
}

/// Records a resize or a move of the window in the settings. Returns whether the
/// settings are to be saved, which is when the window is being closed.
pub fn event_handler(event: &WindowChange, app: &mut App) -> (save: bool)
    ensures
        save == (*event == WindowChange::CloseRequested),
        final(app).settings.wi == (match *event {
            WindowChange::Resized { width, height } => WindowInfo {
                width: width,
                height: height,
                ..old(app).settings.wi
            },
            WindowChange::Moved { x, y } => WindowInfo { pos_x: x, pos_y: y, ..old(app).settings.wi },
            _ => old(app).settings.wi,
        }),
        final(app).settings.backup_path == old(app).settings.backup_path,
        final(app).settings.backup_text == old(app).settings.backup_text,
        final(app).gui == old(app).gui,
        final(app).file == old(app).file,
        final(app).backup == old(app).backup,
{
    match event {
        WindowChange::Resized { width, height } => {
            app.settings.wi.width = *width;
            app.settings.wi.height = *height;
            false
        },
        WindowChange::Moved { x, y } => {
            app.settings.wi.pos_x = *x;
            app.settings.wi.pos_y = *y;
            false
        },
        WindowChange::CloseRequested => true,
        WindowChange::Other => false,
    }
}


/// How far a running backup has got, in whole percent of its files, as the
/// caller works it out in floating point from the finished count and the total:
/// `shown` goes into the message and `taskbar` onto the taskbar button.
#[derive(Debug, Clone, Copy, PartialEq, Eq, Structural)]
pub struct Progress {
    pub shown: usize,
    pub taskbar: u64,
}

/// What the caller is to do after one step of a running backup.
#[derive(Debug)]
pub enum BackupAction {
    /// No backup is running.
    Idle,
    /// Every copy has finished.
    Finished,
    /// Show `progress` (whole percent) and start copying the listed files.
    Copy { progress: u64, spawn: Vec<usize> },
}

/// How many of the first `i` files have not been handed out yet.
pub open spec fn open_before(files: Seq<BackupFile>, i: int) -> nat
    decreases i,
{
    if i <= 0 {
        0
    } else {
        open_before(files, i - 1) + if !files[i - 1].is_done {
            1nat
        } else {
            0nat
        }
    }
}

/// How many more copies may run beside `running` ones on `cpus` processors: the
/// tool keeps starting copies while no more than `cpus` are running.
pub open spec fn cpu_slots(running: nat, cpus: nat) -> nat {
    if running > cpus {
        0
    } else {
        (cpus - running + 1) as nat
    }
}

/// How many more copies may be handed out before `all` have been: none beyond
/// `all`, and no limit (beyond the `len` files) once the count has passed it.
pub open spec fn assign_slots(assign: nat, all: nat, len: nat) -> nat {
    if assign <= all {
        (all - assign) as nat
    } else {
        len
    }
}

/// The smaller of two numbers.
pub open spec fn min_nat(a: nat, b: nat) -> nat {
    if a <= b {
        a
    } else {
        b
    }
}

/// How many copies one step starts: as many files as are waiting, within the
/// processor and count limits.
pub open spec fn spawn_cap(b: Backup, running: nat, cpus: nat) -> nat {
    min_nat(
        cpu_slots(running, cpus),
        assign_slots(b.assign_num as nat, b.all_num as nat, b.bu_files@.len()),
    )
}

/// The message shown while copies run: `"バックアップ中...(done/all) pp%"`,
/// with `shown` the percentage.
pub open spec fn progress_message(done: nat, all: nat, shown: nat) -> Seq<char> {
    "バックアップ中...("@ + decimal(done) + "/"@ + decimal(all) + ") "@ + percent_text(shown)
}

/// The message shown when the backup has finished after `elapsed` seconds.
pub open spec fn finished_message(elapsed: nat) -> Seq<char> {
    "バックアップが終了しました。経過時間: "@ + duration_text(elapsed)
}

/// Everything but the backup counters and the message stays as it was.
pub open spec fn same_outside_backup(old_app: App, new_app: App) -> bool {
    &&& new_app.settings == old_app.settings
    &&& new_app.gui.start_sec == old_app.gui.start_sec
    &&& new_app.gui.is_show_dialog == old_app.gui.is_show_dialog
    &&& new_app.file == old_app.file
}

/// One step of a running backup, when `finished` copies have reported since the
/// last step, `running` copies are still running, the machine has `cpus`
/// processors and the clock reads `now`:
/// - with no backup running nothing changes;
/// - otherwise the finished copies are counted; when all files are done the
///   backup is over and the message tells how long it took;
/// - else the message shows the progress, and the first waiting files, as many
///   as `spawn_cap` allows, are handed out in order and listed for copying.
pub open spec fn tick_post(
    old_app: App,
    new_app: App,
    act: BackupAction,
    finished: nat,
    running: nat,
    cpus: nat,
    now: i64,
    pct: Progress,
) -> bool {
    let ob = old_app.backup;
    let nb = new_app.backup;
    let done = (ob.done_num + finished) as nat;
    if ob.state != WorkState::Busy {
        &&& new_app == old_app
        &&& act is Idle
    } else if done == ob.all_num {
        &&& same_outside_backup(old_app, new_app)
        &&& nb.bu_files == ob.bu_files
        &&& nb.state == WorkState::Done
        &&& nb.all_num == ob.all_num
        &&& nb.assign_num == ob.assign_num
        &&& nb.done_num == done
        &&& new_app.gui.result_message@ == finished_message(
            elapsed_secs(old_app.gui.start_sec, now),
        )
        &&& act is Finished
    } else {
        let files = ob.bu_files@;
        let cap = spawn_cap(ob, (running as nat), cpus);
        let k = min_nat(open_before(files, files.len() as int), cap);
        &&& same_outside_backup(old_app, new_app)
        &&& nb.state == ob.state
        &&& nb.all_num == ob.all_num
        &&& nb.done_num == done
        &&& nb.assign_num == ob.assign_num + k
        &&& new_app.gui.result_message@ == progress_message(done, ob.all_num as nat, pct.shown as nat)
        &&& nb.bu_files@.len() == files.len()
        &&& forall|i: int|
            0 <= i < files.len() ==> {
                &&& (#[trigger] nb.bu_files@[i]).paste_file == files[i].paste_file
                &&& nb.bu_files@[i].copy_file == files[i].copy_file
                &&& nb.bu_files@[i].is_done == (files[i].is_done || open_before(files, i) < cap)
            }
        &&& match act {
            BackupAction::Copy { progress, spawn } => {
                &&& progress == pct.taskbar
                &&& spawn@.len() == k
                &&& forall|t: int|
                    0 <= t < k ==> {
                        &&& (#[trigger] spawn@[t]) < files.len()
                        &&& !files[spawn@[t] as int].is_done
                        &&& open_before(files, spawn@[t] as int) == t
                    }
            },
            _ => false,
        }
    }
}

/// The counters a step changes stay within machine integers: in a running
/// backup the finished count fits, and when files are handed out beyond the
/// total (which a consistent backup never does) the handed-out count fits too.
pub open spec fn tick_fits(b: Backup, finished: nat) -> bool {
    &&& b.state == WorkState::Busy ==> b.done_num + finished <= usize::MAX
    &&& (b.state == WorkState::Busy && b.done_num + finished != b.all_num && b.assign_num
        > b.all_num) ==> b.assign_num + b.bu_files@.len() <= usize::MAX
}

/// One more waiting file among the first `i + 1` exactly when file `i` waits.
proof fn lemma_open_before_step(files: Seq<BackupFile>, i: int)
    requires
        0 <= i,
    ensures
        open_before(files, i + 1) == open_before(files, i) + if !files[i].is_done {
            1nat
        } else {
            0nat
        },
{
}

/// The count of waiting files never exceeds the number of files looked at.
proof fn lemma_open_before_le(files: Seq<BackupFile>, i: int)
    requires
        0 <= i,
    ensures
        open_before(files, i) <= i,
    decreases i,
{
    if i > 0 {
        lemma_open_before_le(files, i - 1);
    }
}

/// Hands out the first waiting files of `b`, at most `cap` of them; returns
/// their indices in order.
fn hand_out(b: &mut Backup, running: usize, cpus: usize) -> (spawn: Vec<usize>)
    requires
        old(b).assign_num <= old(b).all_num || old(b).assign_num + old(b).bu_files@.len()
            <= usize::MAX,
    ensures
        ({
            let files = old(b).bu_files@;
            let cap = spawn_cap(*old(b), running as nat, cpus as nat);
            let k = min_nat(open_before(files, files.len() as int), cap);
            &&& final(b).state == old(b).state
            &&& final(b).all_num == old(b).all_num
            &&& final(b).done_num == old(b).done_num
            &&& final(b).assign_num == old(b).assign_num + k
            &&& final(b).bu_files@.len() == files.len()
            &&& forall|i: int|
                0 <= i < files.len() ==> {
                    &&& (#[trigger] final(b).bu_files@[i]).paste_file == files[i].paste_file
                    &&& final(b).bu_files@[i].copy_file == files[i].copy_file
                    &&& final(b).bu_files@[i].is_done == (files[i].is_done || open_before(files, i)
                        < cap)
                }
            &&& spawn@.len() == k
            &&& forall|t: int|
                0 <= t < k ==> {
                    &&& (#[trigger] spawn@[t]) < files.len()
                    &&& !files[spawn@[t] as int].is_done
                    &&& open_before(files, spawn@[t] as int) == t
                }
        }),
{
    let ghost files = b.bu_files@;
    let ghost cap = spawn_cap(*b, running as nat, cpus as nat);
    let ghost assign0 = b.assign_num;
    let n = b.bu_files.len();
    let mut spawn: Vec<usize> = Vec::new();
    let mut j: usize = 0;
    let mut u: usize = 0;
    while u < n
        invariant
            n == files.len(),
            b.bu_files@.len() == n,
            u <= n,
            assign0 <= b.all_num || assign0 + n <= usize::MAX,
            cap == spawn_cap(*old(b), running as nat, cpus as nat),
            files == old(b).bu_files@,
            b.state == old(b).state,
            b.all_num == old(b).all_num,
            b.done_num == old(b).done_num,
            assign0 == old(b).assign_num,
            j == min_nat(open_before(files, u as int), cap),
            b.assign_num == assign0 + j,
            spawn@.len() == j,
            forall|i: int|
                0 <= i < n ==> {
                    &&& (#[trigger] b.bu_files@[i]).paste_file == files[i].paste_file
                    &&& b.bu_files@[i].copy_file == files[i].copy_file
                    &&& b.bu_files@[i].is_done == if i < u {
                        files[i].is_done || open_before(files, i) < cap
                    } else {
                        files[i].is_done
                    }
                },
            forall|t: int|
                0 <= t < j ==> {
                    &&& (#[trigger] spawn@[t]) < u
                    &&& !files[spawn@[t] as int].is_done
                    &&& open_before(files, spawn@[t] as int) == t
                },
        decreases n - u,
    {
        proof {
            lemma_open_before_step(files, u as int);
            lemma_open_before_le(files, u as int);
        }
        let waiting = !b.bu_files[u].is_done;
        let cpu_free = running <= cpus && j <= cpus - running;
        let count_free = b.assign_num != b.all_num;
        proof {
            assert(cpu_free == (j < cpu_slots(running as nat, cpus as nat)));
            assert(count_free == (j < assign_slots(assign0 as nat, b.all_num as nat, n as nat))) by {
                assert(j <= open_before(files, u as int));
            }
        }
        if waiting && cpu_free && count_free {
            b.bu_files[u].is_done = true;
            b.assign_num = b.assign_num + 1;
            spawn.push(u);
            j = j + 1;
            proof {
                assert(spawn@[spawn@.len() - 1] == u);
            }
        }
        u = u + 1;
    }
    spawn
}


/// The message shown while copies run (see `progress_message`).
pub fn progress_message_string(done: usize, all: usize, shown: usize) -> (res: String)
    ensures
        res@ == progress_message(done as nat, all as nat, shown as nat),
{
    let mut s = String::from_str("バックアップ中...(");
    push_decimal(&mut s, done as u64);
    s.append("/");
    push_decimal(&mut s, all as u64);
    s.append(") ");
    let p = crate::utility::get_percent(shown);
    s.append(p.as_str());
    s
}

/// The message shown when the backup is over (see `finished_message`).
pub fn finished_message_string(start_sec: i64, now: i64) -> (res: String)
    ensures
        res@ == finished_message(elapsed_secs(start_sec, now)),
{
    let mut s = String::from_str("バックアップが終了しました。経過時間: ");
    let t = crate::utility::get_time_string(start_sec, now);
    s.append(t.as_str());
    s
}

/// One step of a running backup (see `tick_post`), given how many copies have
/// finished since the last step, how many are still running, the number of
/// processors, the clock and the progress percentage of the new finished count.
pub fn backup_tick(
    app: &mut App,
    finished: usize,
    running: usize,
    cpus: usize,
    now: i64,
    pct: Progress,
) -> (act: BackupAction)
    requires
        tick_fits(old(app).backup, finished as nat),
    ensures
        tick_post(
            *old(app),
            *final(app),
            act,
            finished as nat,
            running as nat,
            cpus as nat,
            now,
            pct,
        ),
{
    if app.backup.state != WorkState::Busy {
        return BackupAction::Idle;
    }
    app.backup.done_num = app.backup.done_num + finished;
    if app.backup.done_num == app.backup.all_num {
        app.backup.state = WorkState::Done;
        app.gui.result_message = finished_message_string(app.gui.start_sec, now);
        return BackupAction::Finished;
    }
    let msg = progress_message_string(app.backup.done_num, app.backup.all_num, pct.shown);
    app.gui.result_message = msg;
    let spawn = hand_out(&mut app.backup, running, cpus);
    BackupAction::Copy { progress: pct.taskbar, spawn }
}

/// `num_cpus::get`: the number of processors this process may use, which the
/// crate documents to be at least 1.
#[verifier::external_body]
fn cpu_count() -> (n: usize)
    ensures
        n >= 1,
{
    num_cpus::get()
}

/// One step of a running backup on this machine: `backup_tick` with the
/// processor count read here, given the clock `now` and the progress `pct`.
pub fn use_effect_backup(
    app: &mut App,
    finished: usize,
    running: usize,
    now: i64,
    pct: Progress,
) -> (act: BackupAction)
    requires
        tick_fits(old(app).backup, finished as nat),
    ensures
        exists|cpus: nat|
            cpus >= 1 && #[trigger] tick_post(
                *old(app),
                *final(app),
                act,
                finished as nat,
                running as nat,
                cpus,
                now,
                pct,
            ),
{
    let cpus = cpu_count();
    backup_tick(app, finished, running, cpus, now, pct)
}


/// The counters of a backup agree with its files while `running` copies are
/// out: the files handed out number `assign_num`, each of them has either
/// finished (`done_num`) or is still running, and no more are handed out than
/// the total.
pub open spec fn backup_consistent(b: Backup, running: nat) -> bool {
    &&& b.done_num + running == b.assign_num
    &&& b.assign_num + open_before(b.bu_files@, b.bu_files@.len() as int) == b.bu_files@.len()
    &&& b.assign_num <= b.all_num
}

/// How many copies are out after a step that saw `finished` of them report and
/// left `running` others going: none are started when no backup runs (and none
/// were collected), and the listed ones are added otherwise.
pub open spec fn running_after(act: BackupAction, finished: nat, running: nat) -> nat {
    match act {
        BackupAction::Idle => finished + running,
        BackupAction::Finished => running,
        BackupAction::Copy { spawn, .. } => running + spawn@.len(),
    }
}

/// After a step the files still waiting among the first `i` are those that were
/// waiting, less the ones handed out.
proof fn lemma_open_after_hand_out(old_files: Seq<BackupFile>, new_files: Seq<BackupFile>, cap: nat, i: int)
    requires
        0 <= i <= old_files.len(),
        new_files.len() == old_files.len(),
        forall|j: int|
            0 <= j < old_files.len() ==> (#[trigger] new_files[j]).is_done == (old_files[j].is_done
                || open_before(old_files, j) < cap),
    ensures
        open_before(new_files, i) + min_nat(open_before(old_files, i), cap) == open_before(old_files, i),
    decreases i,
{
    if i > 0 {
        lemma_open_after_hand_out(old_files, new_files, cap, i - 1);
        assert(new_files[i - 1].is_done == (old_files[i - 1].is_done || open_before(old_files, i - 1) < cap));
    }
}

/// Every step keeps the counters consistent with the files and the copies that
/// are out: when `finished` copies have reported and `running` are still going,
/// afterwards the finished, the running and the started copies account for
/// every handed-out file. When the backup finishes, no copy is running any more
/// and every counted file has been handed out.
pub proof fn lemma_tick_keeps_consistent(
    old_app: App,
    new_app: App,
    act: BackupAction,
    finished: nat,
    running: nat,
    cpus: nat,
    now: i64,
    pct: Progress,
)
    requires
        backup_consistent(old_app.backup, finished + running),
        tick_post(old_app, new_app, act, finished, running, cpus, now, pct),
    ensures
        backup_consistent(new_app.backup, running_after(act, finished, running)),
        act is Finished ==> running == 0 && new_app.backup.assign_num == new_app.backup.all_num,
{
    let ob = old_app.backup;
    if ob.state == WorkState::Busy && ob.done_num + finished != ob.all_num {
        let files = ob.bu_files@;
        let cap = spawn_cap(ob, running, cpus);
        lemma_open_after_hand_out(files, new_app.backup.bu_files@, cap, files.len() as int);
    }
}

/// Each step hands out only waiting files, each at most once: a file listed for
/// copying was waiting before the step and is handed out after it, files handed
/// out before stay handed out, and no file is listed twice.
pub proof fn lemma_tick_hands_out_once(
    old_app: App,
    new_app: App,
    act: BackupAction,
    finished: nat,
    running: nat,
    cpus: nat,
    now: i64,
    pct: Progress,
)
    requires
        tick_post(old_app, new_app, act, finished, running, cpus, now, pct),
    ensures
        forall|i: int|
            0 <= i < old_app.backup.bu_files@.len() && (#[trigger] old_app.backup.bu_files@[i]).is_done
                ==> new_app.backup.bu_files@[i].is_done,
        act matches BackupAction::Copy { spawn, .. } ==> forall|t: int|
            0 <= t < spawn@.len() ==> {
                &&& !old_app.backup.bu_files@[#[trigger] spawn@[t] as int].is_done
                &&& new_app.backup.bu_files@[spawn@[t] as int].is_done
            },
        act matches BackupAction::Copy { spawn, .. } ==> forall|t: int, u: int|
            0 <= t < u < spawn@.len() ==> #[trigger] spawn@[t] != #[trigger] spawn@[u],
{
    let ob = old_app.backup;
    if ob.state == WorkState::Busy && ob.done_num + finished != ob.all_num {
        let files = ob.bu_files@;
        let cap = spawn_cap(ob, running, cpus);
        let k = min_nat(open_before(files, files.len() as int), cap);
        assert forall|i: int|
            0 <= i < files.len() && (#[trigger] old_app.backup.bu_files@[i]).is_done implies new_app.backup.bu_files@[i].is_done by {
            assert(new_app.backup.bu_files@[i].is_done == (files[i].is_done || open_before(files, i) < cap));
        }
        if let BackupAction::Copy { spawn, .. } = act {
            assert forall|t: int| 0 <= t < spawn@.len() implies {
                &&& !old_app.backup.bu_files@[#[trigger] spawn@[t] as int].is_done
                &&& new_app.backup.bu_files@[spawn@[t] as int].is_done
            } by {
                let i = spawn@[t] as int;
                assert(new_app.backup.bu_files@[i].is_done == (files[i].is_done || open_before(files, i) < cap));
                assert(open_before(files, i) == t);
            }
        }
    }
}

/// A step never starts more copies than the processors allow: afterwards at most
/// one more copy than there are processors is running, unless more were already.
pub proof fn lemma_tick_respects_cpus(
    old_app: App,
    new_app: App,
    act: BackupAction,
    finished: nat,
    running: nat,
    cpus: nat,
    now: i64,
    pct: Progress,
)
    requires
        tick_post(old_app, new_app, act, finished, running, cpus, now, pct),
    ensures
        act matches BackupAction::Copy { spawn, .. } ==> (running + spawn@.len() <= cpus + 1
            || spawn@.len() == 0),
{
}

/// A step starts as many copies as it may, and no more: with `w` files waiting,
/// it starts at most `w`, never brings more than one copy beyond the processor
/// count into running, never hands out beyond the total, and stops short of `w`
/// only where one of the other two limits is reached. No copy starts while more
/// copies than processors are running.
pub proof fn lemma_tick_fills_processors(
    old_app: App,
    new_app: App,
    act: BackupAction,
    finished: nat,
    running: nat,
    cpus: nat,
    now: i64,
    pct: Progress,
)
    requires
        old_app.backup.state == WorkState::Busy,
        old_app.backup.done_num + finished != old_app.backup.all_num,
        tick_post(old_app, new_app, act, finished, running, cpus, now, pct),
    ensures
        act matches BackupAction::Copy { spawn, .. } && {
            let b = old_app.backup;
            let w = open_before(b.bu_files@, b.bu_files@.len() as int);
            let n = spawn@.len();
            &&& n <= w
            &&& running > cpus ==> n == 0
            &&& running <= cpus ==> running + n <= cpus + 1
            &&& b.assign_num <= b.all_num ==> b.assign_num + n <= b.all_num
            &&& (n == w || running + n == cpus + 1 || running > cpus || (b.assign_num
                <= b.all_num && b.assign_num + n == b.all_num))
        },
{
    let files = old_app.backup.bu_files@;
    lemma_open_before_le(files, files.len() as int);
}

/// A backup is over exactly when all its files have reported: a running backup
/// becomes done at the step where the finished count reaches the total, and at
/// no other step.
pub proof fn lemma_tick_finishes_when_all_done(
    old_app: App,
    new_app: App,
    act: BackupAction,
    finished: nat,
    running: nat,
    cpus: nat,
    now: i64,
    pct: Progress,
)
    requires
        old_app.backup.state == WorkState::Busy,
        tick_post(old_app, new_app, act, finished, running, cpus, now, pct),
    ensures
        (new_app.backup.state == WorkState::Done) <==> (old_app.backup.done_num + finished
            == old_app.backup.all_num),
        (act is Finished) <==> (old_app.backup.done_num + finished == old_app.backup.all_num),
{
}

/// A step makes progress while work remains: when files wait, a processor is
/// free and the count allows, at least one file is handed out.
pub proof fn lemma_tick_makes_progress(
    old_app: App,
    new_app: App,
    act: BackupAction,
    finished: nat,
    running: nat,
    cpus: nat,
    now: i64,
    pct: Progress,
)
    requires
        old_app.backup.state == WorkState::Busy,
        backup_consistent(old_app.backup, finished + running),
        old_app.backup.all_num == old_app.backup.bu_files@.len(),
        old_app.backup.done_num + finished < old_app.backup.all_num,
        old_app.backup.assign_num < old_app.backup.all_num,
        running <= cpus,
        tick_post(old_app, new_app, act, finished, running, cpus, now, pct),
    ensures
        act matches BackupAction::Copy { spawn, .. } && spawn@.len() >= 1,
        new_app.backup.assign_num > old_app.backup.assign_num,
{
}

/// A finished search starts a consistent backup: after the counters are cleared,
/// taking in a done report of files none of which is handed out yet leaves the
/// backup running with every file waiting.
pub proof fn lemma_search_result_starts_consistent(b: Backup)
    requires
        b.state == WorkState::Busy,
        b.assign_num == 0,
        b.done_num == 0,
        b.all_num == b.bu_files@.len(),
        forall|i: int| 0 <= i < b.bu_files@.len() ==> !(#[trigger] b.bu_files@[i]).is_done,
    ensures
        backup_consistent(b, 0),
{
    lemma_all_waiting(b.bu_files@, b.bu_files@.len() as int);
}

/// When no file is handed out, all of them wait.
proof fn lemma_all_waiting(files: Seq<BackupFile>, i: int)
    requires
        0 <= i <= files.len(),
        forall|j: int| 0 <= j < files.len() ==> !(#[trigger] files[j]).is_done,
    ensures
        open_before(files, i) == i,
    decreases i,
{
    if i > 0 {
        lemma_all_waiting(files, i - 1);
        assert(!files[i - 1].is_done);
    }
}

} // verus!
