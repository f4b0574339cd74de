//! The work items: the folders to back up, the files found in them, and the
//! counters of a running backup.

use vstd::prelude::*;
use crate::text::{
    decimal, push_char, push_decimal, remove_all, remove_all_of, split_lines, split_lines_of,
    zero_pad2,
};

verus! {

/// Where a piece of work stands.
#[derive(Debug, Clone, Copy, PartialEq, Eq, Structural)]
pub enum WorkState {
    Idle,
    Busy,
    Done,
}

impl Default for WorkState {
    fn default() -> (res: WorkState)
        ensures
            res == WorkState::Idle,
    {
        WorkState::Idle
    }
}

/// The backup request: one destination folder and the source folders, one per line.
#[derive(Debug, Clone)]
pub struct File {
    pub state: WorkState,
    pub file_paste: String,
    pub file_copies: Vec<String>,
}

/// The texts of a list of strings.
pub open spec fn texts(v: Seq<String>) -> Seq<Seq<char>> {
    v.map_values(|s: String| s@)
}

impl Default for File {
    fn default() -> (res: File)
        ensures
            res.state == WorkState::Idle,
            res.file_paste@.len() == 0,
            res.file_copies@.len() == 0,
    {
        File { state: WorkState::Idle, file_paste: String::new(), file_copies: Vec::new() }
    }
}

impl File {
    /// The source folders as texts.
    pub open spec fn copies(&self) -> Seq<Seq<char>> {
        texts(self.file_copies@)
    }

    /// Every path of the request: the destination first, then the sources.
    pub open spec fn all_paths(&self) -> Seq<Seq<char>> {
        seq![self.file_paste@] + self.copies()
    }

    /// A request for the destination `file_paste` and the sources listed in
    /// `file_copies`, one per line.
    pub fn new(file_paste: &str, file_copies: &str) -> (res: File)
        ensures
            res.state == WorkState::Idle,
            res.file_paste@ == file_paste@,
            res.copies() == split_lines(file_copies@),
    {
        let lines = split_lines_of(file_copies);
        File { state: WorkState::Idle, file_paste: String::from_str(file_paste), file_copies: lines }
    }

    /// The path to warn about, given for each path whether it is an existing
    /// folder (`dirs[0]` for the destination, `dirs[i + 1]` for source `i`): the
    /// destination if it is not a folder, else the first non-empty source line
    /// that is not a folder, else the empty text. Empty paths are skipped, as
    /// the file search skips empty source lines.
    pub fn incorrect_path_given(&self, dirs: &Vec<bool>) -> (res: String)
        requires
            dirs.len() == self.file_copies.len() + 1,
        ensures
            res@ == incorrect_path(self.file_paste@, self.copies(), dirs@),
    {
        if !self.file_paste.as_str().is_empty() && !dirs[0] {
            return self.file_paste.clone();
        }
        let ghost cs = self.copies();
        let ghost ds = dirs@.drop_first();
        let mut i: usize = 0;
        assert(incorrect_path(self.file_paste@, cs, dirs@) == first_missing_source(cs, ds));
        assert(cs.skip(0) =~= cs);
        assert(ds.skip(0) =~= ds);
        while i < self.file_copies.len()
            invariant
                cs == self.copies(),
                ds == dirs@.drop_first(),
                dirs.len() == self.file_copies.len() + 1,
                i <= self.file_copies.len(),
                incorrect_path(self.file_paste@, cs, dirs@) == first_missing_source(cs, ds),
                first_missing_source(cs, ds) == first_missing_source(cs.skip(i as int), ds.skip(i as int)),
            decreases self.file_copies.len() - i,
        {
            assert(cs.skip(i as int)[0] == self.file_copies@[i as int]@);
            assert(ds.skip(i as int)[0] == dirs@[i + 1]);
            assert(cs.skip(i as int).drop_first() =~= cs.skip(i + 1));
            assert(ds.skip(i as int).drop_first() =~= ds.skip(i + 1));
            if !self.file_copies[i].as_str().is_empty() && !dirs[i + 1] {
                assert(first_missing_source(cs.skip(i as int), ds.skip(i as int)) == cs.skip(i as int)[0]);
                return self.file_copies[i].clone();
            }
            i = i + 1;
        }
        assert(cs.skip(i as int).len() == 0);
        String::new()
    }

    /// For the destination and then each source line, the path checked on the
    /// disk and whether it names an existing folder.
    pub fn dir_flags(&self) -> (checks: Vec<(String, bool)>)
        ensures
            checks@.len() == self.file_copies@.len() + 1,
            forall|i: int| 0 <= i < checks@.len() ==> (#[trigger] checks@[i]).0@ == self.all_paths()[i],
    {
        let mut checks: Vec<(String, bool)> = Vec::new();
        checks.push(dir_check(self.file_paste.as_str()));
        let mut i: usize = 0;
        while i < self.file_copies.len()
            invariant
                i <= self.file_copies.len(),
                checks@.len() == i + 1,
                forall|j: int| 0 <= j < checks@.len() ==> (#[trigger] checks@[j]).0@ == self.all_paths()[j],
            decreases self.file_copies.len() - i,
        {
            let c = dir_check(self.file_copies[i].as_str());
            checks.push(c);
            proof {
                assert(self.all_paths()[i + 1] == self.file_copies@[i as int]@);
                assert(checks@[i + 1] == c);
            }
            i = i + 1;
        }
        checks
    }

    /// The path to warn about: the destination if it is not an existing folder,
    /// else the first non-empty source line that is not one, else the empty
    /// text (see `incorrect_path`). Every path of the request is checked on the
    /// disk, each once, in order.
    pub fn get_incorrect_path(&self) -> (res: String)
        ensures
            exists|dirs: Seq<bool>|
                dirs.len() == self.file_copies.len() + 1 && res@ == #[trigger] incorrect_path(
                    self.file_paste@,
                    self.copies(),
                    dirs,
                ),
    {
        let checks = self.dir_flags();
        let mut dirs: Vec<bool> = Vec::new();
        let mut i: usize = 0;
        while i < checks.len()
            invariant
                i <= checks.len(),
                dirs@.len() == i,
            decreases checks.len() - i,
        {
            dirs.push(checks[i].1);
            i = i + 1;
        }
        self.incorrect_path_given(&dirs)
    }
}

/// The first non-empty source line whose flag in `dirs` is false, or the empty
/// text.
pub open spec fn first_missing_source(copies: Seq<Seq<char>>, dirs: Seq<bool>) -> Seq<char>
    decreases copies.len(),
{
    if copies.len() == 0 || dirs.len() == 0 {
        Seq::<char>::empty()
    } else if copies[0].len() > 0 && !dirs[0] {
        copies[0]
    } else {
        first_missing_source(copies.drop_first(), dirs.drop_first())
    }
}

/// The path to warn about for the destination `paste` and the source lines
/// `copies`, given which of them are folders (`dirs[0]` for the destination,
/// `dirs[i + 1]` for source `i`).
pub open spec fn incorrect_path(paste: Seq<char>, copies: Seq<Seq<char>>, dirs: Seq<bool>) -> Seq<
    char,
> {
    if dirs.len() == 0 {
        Seq::<char>::empty()
    } else if paste.len() > 0 && !dirs[0] {
        paste
    } else {
        first_missing_source(copies, dirs.drop_first())
    }
}

/// `first_missing_source` is empty exactly when every non-empty source line is
/// a folder, and otherwise it is a non-empty source line that is not one.
proof fn lemma_first_missing_source(copies: Seq<Seq<char>>, dirs: Seq<bool>)
    requires
        dirs.len() == copies.len(),
    ensures
        (first_missing_source(copies, dirs).len() == 0) <==> (forall|i: int|
            0 <= i < copies.len() && copies[i].len() > 0 ==> #[trigger] dirs[i]),
        first_missing_source(copies, dirs).len() > 0 ==> exists|i: int|
            0 <= i < copies.len() && !dirs[i] && #[trigger] copies[i] == first_missing_source(
                copies,
                dirs,
            ),
    decreases copies.len(),
{
    if copies.len() > 0 {
        let c2 = copies.drop_first();
        let d2 = dirs.drop_first();
        lemma_first_missing_source(c2, d2);
        if copies[0].len() > 0 && !dirs[0] {
        } else {
            assert forall|i: int| 0 <= i < copies.len() && copies[i].len() > 0 && (forall|j: int|
                0 <= j < c2.len() && c2[j].len() > 0 ==> #[trigger] d2[j]) implies #[trigger] dirs[i] by {
                if i > 0 {
                    assert(c2[i - 1] == copies[i]);
                    assert(d2[i - 1] == dirs[i]);
                }
            }
            if (forall|i: int| 0 <= i < copies.len() && copies[i].len() > 0 ==> #[trigger] dirs[i]) {
                assert forall|j: int| 0 <= j < c2.len() && c2[j].len() > 0 implies #[trigger] d2[j] by {
                    assert(copies[j + 1] == c2[j]);
                    assert(dirs[j + 1] == d2[j]);
                }
            }
            if first_missing_source(c2, d2).len() > 0 {
                let j = choose|j: int|
                    0 <= j < c2.len() && !d2[j] && #[trigger] c2[j] == first_missing_source(c2, d2);
                assert(copies[j + 1] == c2[j]);
                assert(dirs[j + 1] == d2[j]);
            }
        }
    }
}

/// What the path check means: it finds nothing exactly when the destination is
/// a folder (or empty) and every non-empty source line is a folder; what it
/// finds is the destination or a source line that is not a folder.
pub proof fn lemma_incorrect_path_meaning(paste: Seq<char>, copies: Seq<Seq<char>>, dirs: Seq<bool>)
    requires
        dirs.len() == copies.len() + 1,
    ensures
        (incorrect_path(paste, copies, dirs).len() == 0) <==> ((dirs[0] || paste.len() == 0)
            && forall|i: int| 0 <= i < copies.len() && copies[i].len() > 0 ==> #[trigger] dirs[i
            + 1]),
        incorrect_path(paste, copies, dirs).len() > 0 ==> (!dirs[0] && incorrect_path(
            paste,
            copies,
            dirs,
        ) == paste) || exists|i: int|
            0 <= i < copies.len() && !dirs[i + 1] && #[trigger] copies[i] == incorrect_path(
                paste,
                copies,
                dirs,
            ),
{
    let d2 = dirs.drop_first();
    lemma_first_missing_source(copies, d2);
    assert forall|i: int| 0 <= i < copies.len() implies #[trigger] dirs[i + 1] == d2[i] by {}
    if (dirs[0] || paste.len() == 0) && first_missing_source(copies, d2).len() > 0 {
        let j = choose|j: int|
            0 <= j < copies.len() && !d2[j] && #[trigger] copies[j] == first_missing_source(copies, d2);
        assert(dirs[j + 1] == d2[j]);
    }
}

/// A missing source line that is reported is the first non-empty one that is
/// not a folder.
proof fn lemma_first_missing_source_is_first(copies: Seq<Seq<char>>, dirs: Seq<bool>)
    requires
        dirs.len() == copies.len(),
        first_missing_source(copies, dirs).len() > 0,
    ensures
        exists|i: int|
            0 <= i < copies.len() && copies[i].len() > 0 && !dirs[i] && #[trigger] copies[i]
                == first_missing_source(copies, dirs) && forall|j: int|
                0 <= j < i && copies[j].len() > 0 ==> #[trigger] dirs[j],
    decreases copies.len(),
{
    let m = first_missing_source(copies, dirs);
    if copies[0].len() > 0 && !dirs[0] {
        assert(copies[0] == m);
    } else {
        let c2 = copies.drop_first();
        let d2 = dirs.drop_first();
        lemma_first_missing_source_is_first(c2, d2);
        let k = choose|k: int|
            0 <= k < c2.len() && c2[k].len() > 0 && !d2[k] && #[trigger] c2[k]
                == first_missing_source(c2, d2) && forall|j: int|
                0 <= j < k && c2[j].len() > 0 ==> #[trigger] d2[j];
        assert(copies[k + 1] == c2[k]);
        assert forall|j: int| 0 <= j < k + 1 && copies[j].len() > 0 implies #[trigger] dirs[j] by {
            if j > 0 {
                assert(copies[j] == c2[j - 1]);
                assert(dirs[j] == d2[j - 1]);
            }
        }
    }
}

/// The path check looks at the destination first: a non-empty destination that
/// is not a folder is what it reports, whatever the source lines are. Only when
/// the destination is a folder (or empty) does it report a source line, and
/// then the first non-empty one, in the order of the lines, that is not a
/// folder.
pub proof fn lemma_incorrect_path_order(paste: Seq<char>, copies: Seq<Seq<char>>, dirs: Seq<bool>)
    requires
        dirs.len() == copies.len() + 1,
    ensures
        paste.len() > 0 && !dirs[0] ==> incorrect_path(paste, copies, dirs) == paste,
        (dirs[0] || paste.len() == 0) && incorrect_path(paste, copies, dirs).len() > 0 ==> exists|
            i: int,
        |
            0 <= i < copies.len() && copies[i].len() > 0 && !dirs[i + 1] && #[trigger] copies[i]
                == incorrect_path(paste, copies, dirs) && forall|j: int|
                0 <= j < i && copies[j].len() > 0 ==> #[trigger] dirs[j + 1],
{
    let d2 = dirs.drop_first();
    if (dirs[0] || paste.len() == 0) && first_missing_source(copies, d2).len() > 0 {
        lemma_first_missing_source_is_first(copies, d2);
        let k = choose|k: int|
            0 <= k < copies.len() && copies[k].len() > 0 && !d2[k] && #[trigger] copies[k]
                == first_missing_source(copies, d2) && forall|j: int|
                0 <= j < k && copies[j].len() > 0 ==> #[trigger] d2[j];
        assert(dirs[k + 1] == d2[k]);
        assert forall|j: int| 0 <= j < k && copies[j].len() > 0 implies #[trigger] dirs[j + 1] by {
            assert(dirs[j + 1] == d2[j]);
        }
    }
}

/// `std::path::Path::is_dir` on `path`: hands back the path it checked and
/// whether it names an existing folder. Nothing is stated of the answer: it
/// depends on the disk.
#[verifier::external_body]
fn dir_check(path: &str) -> (res: (String, bool))
    ensures
        res.0@ == path@,
{
    (path.to_string(), std::path::Path::new(path).is_dir())
}


/// One report of the file search: its state, the text to show, and the files
/// found so far.
#[derive(Debug, Clone)]
pub struct FileResult {
    pub state: WorkState,
    pub message: String,
    pub files: Vec<BackupFile>,
}

impl FileResult {
    /// A report with the given state, message and files.
    pub fn new(state: WorkState, message: &str, files: Vec<BackupFile>) -> (res: FileResult)
        ensures
            res.state == state,
            res.message@ == message@,
            res.files@ == files@,
    {
        FileResult { state: state, message: String::from_str(message), files: files }
    }
}

/// The counters of a backup: the files to copy, how many there are, how many
/// copies have been started, and how many have finished.
#[derive(Debug, Clone)]
pub struct Backup {
    pub bu_files: Vec<BackupFile>,
    pub state: WorkState,
    pub all_num: usize,
    pub assign_num: usize,
    pub done_num: usize,
}

impl Default for Backup {
    fn default() -> (res: Backup)
        ensures
            res.bu_files@.len() == 0,
            res.state == WorkState::Idle,
            res.all_num == 0,
            res.assign_num == 0,
            res.done_num == 0,
    {
        Backup {
            bu_files: Vec::new(),
            state: WorkState::Idle,
            all_num: 0,
            assign_num: 0,
            done_num: 0,
        }
    }
}

impl Backup {
    /// Forgets every file and counter.
    pub fn clear(&mut self)
        ensures
            final(self).bu_files@.len() == 0,
            final(self).state == WorkState::Idle,
            final(self).all_num == 0,
            final(self).assign_num == 0,
            final(self).done_num == 0,
    {
        self.bu_files.clear();
        self.state = WorkState::Idle;
        self.all_num = 0;
        self.assign_num = 0;
        self.done_num = 0;
    }
}

/// One file to copy: where it goes, where it comes from, and whether its copy
/// has been handed out.
#[derive(Debug, Clone)]
pub struct BackupFile {
    pub paste_file: String,
    pub copy_file: String,
    pub is_done: bool,
}

impl BackupFile {
    /// A file to copy from `copy_file` to `paste_file`, not yet handed out.
    pub fn new(paste_file: &str, copy_file: &str) -> (res: BackupFile)
        ensures
            res.paste_file@ == paste_file@,
            res.copy_file@ == copy_file@,
            !res.is_done,
    {
        BackupFile {
            paste_file: String::from_str(paste_file),
            copy_file: String::from_str(copy_file),
            is_done: false,
        }
    }
}

/// The indices of the source lines that name something (empty lines are skipped).
pub open spec fn is_source_index(file: File, i: int) -> bool {
    0 <= i < file.file_copies@.len() && file.file_copies@[i]@.len() > 0
}

/// The indices of the non-empty source lines, in order.
pub fn source_indices(file: &File) -> (res: Vec<usize>)
    ensures
        forall|k: int| 0 <= k < res@.len() ==> is_source_index(*file, #[trigger] res@[k] as int),
        forall|k: int, l: int| 0 <= k < l < res@.len() ==> res@[k] < res@[l],
        forall|i: int| is_source_index(*file, i) ==> res@.contains(i as usize),
{
    let mut res: Vec<usize> = Vec::new();
    let mut i: usize = 0;
    while i < file.file_copies.len()
        invariant
            i <= file.file_copies.len(),
            forall|k: int| 0 <= k < res@.len() ==> is_source_index(*file, #[trigger] res@[k] as int),
            forall|k: int| 0 <= k < res@.len() ==> #[trigger] res@[k] < i,
            forall|k: int, l: int| 0 <= k < l < res@.len() ==> res@[k] < res@[l],
            forall|j: int| 0 <= j < i && is_source_index(*file, j) ==> res@.contains(j as usize),
        decreases file.file_copies.len() - i,
    {
        let ghost old_res = res@;
        if !file.file_copies[i].as_str().is_empty() {
            res.push(i);
            assert(res@[res@.len() - 1] == i);
        }
        assert forall|j: int| 0 <= j < i + 1 && is_source_index(*file, j) implies res@.contains(
            j as usize,
        ) by {
            if j < i {
                let k = choose|k: int| 0 <= k < old_res.len() && old_res[k] == j as usize;
                assert(res@[k] == old_res[k]);
            } else {
                assert(res@[res@.len() - 1] == i);
            }
        }
        i = i + 1;
    }
    res
}

/// The folder part of a found file relative to the folder above its source:
/// the file's folder with every occurrence of the source's parent removed
/// (`tmp_folder.replace(copy_oya_folder, "")`).
pub fn relative_folder(copy_oya_folder: &str, tmp_folder: &str) -> (res: String)
    ensures
        res@ == remove_all(tmp_folder@, copy_oya_folder@),
{
    remove_all_of(tmp_folder, copy_oya_folder)
}

/// A relative folder without its leading `'/'`, if it has one.
pub open spec fn strip_slash(folder: Seq<char>) -> Seq<char> {
    if folder.len() > 0 && folder[0] == '/' {
        folder.drop_first()
    } else {
        folder
    }
}

/// Where a found file is copied to: `"{file_paste}/{nn}_{folder}/{file_name}"`,
/// where `nn` is the 1-based number of its source line, zero-padded to two
/// digits, and `folder` its relative folder without a leading `'/'`.
pub open spec fn paste_path(
    file_paste: Seq<char>,
    index: nat,
    copy_folder: Seq<char>,
    file_name: Seq<char>,
) -> Seq<char> {
    file_paste.push('/') + zero_pad2(decimal(index + 1)).push('_') + strip_slash(copy_folder).push(
        '/',
    ) + file_name
}

/// The destination path of a found file (see `paste_path`). The relative folder
/// must not be empty.
pub fn paste_file_path(file_paste: &str, index: usize, copy_folder: &str, file_name: &str) -> (res:
    String)
    requires
        index < usize::MAX,
        copy_folder@.len() > 0,
    ensures
        res@ == paste_path(file_paste@, index as nat, copy_folder@, file_name@),
{
    let folder = crate::text::chars_of(copy_folder);
    let mut s = String::from_str(file_paste);
    push_char(&mut s, '/');
    let ghost a = s@;
    let n: u64 = (index as u64) + 1;
    if n < 10 {
        push_char(&mut s, '0');
    }
    push_decimal(&mut s, n);
    push_char(&mut s, '_');
    proof {
        crate::text::lemma_decimal_digits(n as nat);
        assert(s@ =~= a + zero_pad2(decimal(n as nat)).push('_'));
    }
    let ghost b = s@;
    let start: usize = if folder[0] == '/' { 1 } else { 0 };
    let mut i: usize = start;
    while i < folder.len()
        invariant
            folder@ == copy_folder@,
            start <= i <= folder.len(),
            s@ == b + folder@.subrange(start as int, i as int),
        decreases folder.len() - i,
    {
        push_char(&mut s, folder[i]);
        i = i + 1;
        assert(s@ =~= b + folder@.subrange(start as int, i as int));
    }
    assert(folder@.subrange(start as int, folder.len() as int) =~= strip_slash(copy_folder@));
    push_char(&mut s, '/');
    s.append(file_name);
    assert(s@ =~= paste_path(file_paste@, index as nat, copy_folder@, file_name@));
    s
}

/// The message shown while the file search starts.
pub fn files_start_message() -> (res: String)
    ensures
        res@ == "ファイルを取得中..."@,
{
    String::from_str("ファイルを取得中...")
}

/// The message shown after `n` files have been found.
pub fn files_progress_message(n: usize) -> (res: String)
    ensures
        res@ == "ファイルを取得中..."@ + decimal(n as nat),
{
    let mut s = String::from_str("ファイルを取得中...");
    push_decimal(&mut s, n as u64);
    s
}

/// The message shown when the search has found `n` files in all.
pub fn files_done_message(n: usize) -> (res: String)
    ensures
        res@ == decimal(n as nat) + "ファイルを取得しました"@,
{
    let mut s = crate::text::decimal_string(n as u64);
    s.append("ファイルを取得しました");
    s
}


/// The two-digit folder number is made of digits only.
proof fn lemma_folder_number_digits(n: nat)
    ensures
        forall|i: int|
            0 <= i < zero_pad2(decimal(n)).len() ==> '0' <= #[trigger] zero_pad2(decimal(n))[i]
                <= '9',
{
    crate::text::lemma_decimal_digits(n);
    let d = decimal(n);
    let z = zero_pad2(d);
    assert forall|i: int| 0 <= i < z.len() implies '0' <= #[trigger] z[i] <= '9' by {
        if d.len() < 2 && i > 0 {
            assert(z[i] == d[i - 1]);
        }
    }
}

/// Files found under different source lines never get the same destination: the
/// numbered folder `nn_` of the destination tells the source line apart.
pub proof fn lemma_paste_path_distinct_sources(
    file_paste: Seq<char>,
    i: nat,
    j: nat,
    folder_i: Seq<char>,
    folder_j: Seq<char>,
    name_i: Seq<char>,
    name_j: Seq<char>,
)
    requires
        i != j,
    ensures
        paste_path(file_paste, i, folder_i, name_i) != paste_path(file_paste, j, folder_j, name_j),
{
    let a = zero_pad2(decimal(i + 1));
    let b = zero_pad2(decimal(j + 1));
    let pi = paste_path(file_paste, i, folder_i, name_i);
    let pj = paste_path(file_paste, j, folder_j, name_j);
    let base: int = file_paste.len() as int + 1;
    lemma_folder_number_digits(i + 1);
    lemma_folder_number_digits(j + 1);
    if pi == pj {
        if a.len() == b.len() {
            assert(a =~= pi.subrange(base, base + a.len()));
            assert(b =~= pj.subrange(base, base + b.len()));
            crate::text::lemma_zero_pad2_injective(i + 1, j + 1);
        } else if a.len() < b.len() {
            assert(pi[base + a.len()] == '_');
            assert(pj[base + a.len()] == b[a.len() as int]);
        } else {
            assert(pj[base + b.len()] == '_');
            assert(pi[base + b.len()] == a[b.len() as int]);
        }
    }
}


/// Within one source line, files with different relative folders or different
/// names get different destinations, as long as names hold no `'/'` (a file
/// name never does). Files whose folders become equal once the source's parent
/// is removed from them still collide; that removal is the path rule itself.
pub proof fn lemma_paste_path_distinct_in_source(
    file_paste: Seq<char>,
    i: nat,
    folder_a: Seq<char>,
    folder_b: Seq<char>,
    name_a: Seq<char>,
    name_b: Seq<char>,
)
    requires
        !name_a.contains('/'),
        !name_b.contains('/'),
        strip_slash(folder_a) != strip_slash(folder_b) || name_a != name_b,
    ensures
        paste_path(file_paste, i, folder_a, name_a) != paste_path(file_paste, i, folder_b, name_b),
{
    let pre = file_paste.push('/') + zero_pad2(decimal(i + 1)).push('_');
    let fa = strip_slash(folder_a);
    let fb = strip_slash(folder_b);
    let pa = paste_path(file_paste, i, folder_a, name_a);
    let pb = paste_path(file_paste, i, folder_b, name_b);
    assert(pa =~= pre + fa.push('/') + name_a);
    assert(pb =~= pre + fb.push('/') + name_b);
    if pa == pb {
        let la = pa.len() - name_a.len();
        let lb = pb.len() - name_b.len();
        if name_a.len() == name_b.len() {
            assert(name_a =~= pa.subrange(la, pa.len() as int));
            assert(name_b =~= pb.subrange(lb, pb.len() as int));
            assert(fa =~= pa.subrange(pre.len() as int, la - 1));
            assert(fb =~= pb.subrange(pre.len() as int, lb - 1));
        } else if name_a.len() < name_b.len() {
            assert(pa[la - 1] == '/');
            assert(pb[la - 1] == name_b[la - 1 - lb]);
        } else {
            assert(pb[lb - 1] == '/');
            assert(pa[lb - 1] == name_a[lb - 1 - la]);
        }
    }
}


/// `num` writes the line number `n` as the destination folders do: at least two
/// decimal digits that read back as `n`, with a `'0'` in front only to make up
/// two digits.
pub open spec fn is_line_number(num: Seq<char>, n: nat) -> bool {
    &&& num.len() >= 2
    &&& forall|i: int| 0 <= i < num.len() ==> '0' <= #[trigger] num[i] <= '9'
    &&& crate::text::digits_value(num) == n
    &&& num.len() > 2 ==> num[0] != '0'
}

/// What a destination is made of: the backup folder, `'/'`, the 1-based number
/// of the source line, `'_'`, the relative folder (without its first character
/// when that is `'/'`, and whole otherwise), `'/'` and the file name.
pub proof fn lemma_paste_path_parts(
    file_paste: Seq<char>,
    index: nat,
    folder: Seq<char>,
    name: Seq<char>,
)
    ensures
        exists|num: Seq<char>|
            #[trigger] is_line_number(num, index + 1) && (folder.len() > 0 && folder[0] == '/'
                ==> paste_path(file_paste, index, folder, name) == file_paste + seq!['/'] + num
                + seq!['_'] + folder.drop_first() + seq!['/'] + name) && (!(folder.len() > 0
                && folder[0] == '/') ==> paste_path(file_paste, index, folder, name) == file_paste
                + seq!['/'] + num + seq!['_'] + folder + seq!['/'] + name),
{
    let n = index + 1;
    let d = decimal(n);
    let num = zero_pad2(d);
    crate::text::lemma_decimal_digits(n);
    crate::text::lemma_decimal_value(n);
    lemma_folder_number_digits(n);
    if d.len() < 2 {
        crate::text::lemma_leading_zero_value(d);
    }
    assert(is_line_number(num, n));
    let p = paste_path(file_paste, index, folder, name);
    if folder.len() > 0 && folder[0] == '/' {
        assert(p =~= file_paste + seq!['/'] + num + seq!['_'] + folder.drop_first() + seq!['/']
            + name);
    } else {
        assert(p =~= file_paste + seq!['/'] + num + seq!['_'] + folder + seq!['/'] + name);
    }
}

/// `std::path::Path::parent`, as text: the path without its final component,
/// or `None` when there is none (a root, a prefix, the empty path) or it is
/// not valid text. What comes back is a shorter leading part of `path`; where
/// `path` is split depends on the platform and is not stated.
#[verifier::external_body]
fn path_parent(path: &str) -> (res: Option<String>)
    ensures
        res matches Some(p) ==> is_proper_prefix(p@, path@),
{
    std::path::Path::new(path).parent().and_then(|p| p.to_str()).map(|p| p.to_string())
}

/// `std::path::Path::file_name`, as text: the final component of `path`, or
/// `None` when there is none (it ends in `..`, or is a root) or it is not
/// valid text. A component is never empty and holds no `'/'`; which
/// component is final depends on the platform and is not stated.
#[verifier::external_body]
fn path_file_name(path: &str) -> (res: Option<String>)
    ensures
        res matches Some(n) ==> is_file_name(n@),
{
    std::path::Path::new(path).file_name().and_then(|p| p.to_str()).map(|p| p.to_string())
}

/// `p` is a shorter leading part of `path`.
pub open spec fn is_proper_prefix(p: Seq<char>, path: Seq<char>) -> bool {
    p.len() < path.len() && path.take(p.len() as int) == p
}

/// `n` can be the final component of a path: not empty and without `'/'`.
pub open spec fn is_file_name(n: Seq<char>) -> bool {
    n.len() > 0 && !n.contains('/')
}

/// The text of an optional string.
pub open spec fn opt_text(o: Option<&str>) -> Option<Seq<char>> {
    match o {
        Some(t) => Some(t@),
        None => None,
    }
}

/// The file to back up for `copy_file`, found under source line `index` whose
/// parent folder is `copy_oya_folder`, given the folder `parent` holding it and
/// its `name`: with both present and a non-empty relative folder (the folder
/// with the source's parent removed) it goes to
/// `paste_path(file_paste, index, folder, name)`; otherwise there is none.
pub open spec fn found_file_post(
    file_paste: Seq<char>,
    index: nat,
    copy_oya_folder: Seq<char>,
    copy_file: Seq<char>,
    parent: Option<Seq<char>>,
    name: Option<Seq<char>>,
    res: Option<BackupFile>,
) -> bool {
    match (parent, name) {
        (Some(tmp_folder), Some(file_name)) => {
            let folder = remove_all(tmp_folder, copy_oya_folder);
            if folder.len() > 0 {
                res matches Some(b) && b.paste_file@ == paste_path(
                    file_paste,
                    index,
                    folder,
                    file_name,
                ) && b.copy_file@ == copy_file && !b.is_done
            } else {
                res is None
            }
        },
        _ => res is None,
    }
}

/// The file to back up for `copy_file` given its folder and name (see
/// `found_file_post`).
pub fn found_file_given(
    file_paste: &str,
    index: usize,
    copy_oya_folder: &str,
    copy_file: &str,
    parent: Option<&str>,
    name: Option<&str>,
) -> (res: Option<BackupFile>)
    requires
        index < usize::MAX,
    ensures
        found_file_post(
            file_paste@,
            index as nat,
            copy_oya_folder@,
            copy_file@,
            opt_text(parent),
            opt_text(name),
            res,
        ),
        (parent is Some && name is Some && remove_all(parent.unwrap()@, copy_oya_folder@).len()
            > 0) ==> (res is Some && res.unwrap().paste_file@ == paste_path(
            file_paste@,
            index as nat,
            remove_all(parent.unwrap()@, copy_oya_folder@),
            name.unwrap()@,
        ) && res.unwrap().copy_file@ == copy_file@ && !res.unwrap().is_done),
        (parent is None || name is None || remove_all(parent.unwrap()@, copy_oya_folder@).len()
            == 0) ==> res is None,
        ({
            let rel = remove_all(parent.unwrap()@, copy_oya_folder@);
            parent is Some && name is Some && rel.len() > 0 && rel[0] != '/'
        }) ==> exists|num: Seq<char>|
            #[trigger] is_line_number(num, (index + 1) as nat) && res.unwrap().paste_file@ == file_paste@
                + seq!['/'] + num + seq!['_'] + remove_all(parent.unwrap()@, copy_oya_folder@)
                + seq!['/'] + name.unwrap()@,
        ({
            let rel = remove_all(parent.unwrap()@, copy_oya_folder@);
            parent is Some && name is Some && rel.len() > 0 && rel[0] == '/'
        }) ==> exists|num: Seq<char>|
            #[trigger] is_line_number(num, (index + 1) as nat) && res.unwrap().paste_file@ == file_paste@
                + seq!['/'] + num + seq!['_'] + remove_all(
                parent.unwrap()@,
                copy_oya_folder@,
            ).drop_first() + seq!['/'] + name.unwrap()@,
{
    match (parent, name) {
        (Some(tmp_folder), Some(file_name)) => {
            let folder = relative_folder(copy_oya_folder, tmp_folder);
            if folder.as_str().is_empty() {
                None
            } else {
                proof {
                    lemma_paste_path_parts(file_paste@, index as nat, folder@, file_name@);
                }
                let paste_file = paste_file_path(file_paste, index, folder.as_str(), file_name);
                Some(BackupFile::new(paste_file.as_str(), copy_file))
            }
        },
        _ => None,
    }
}

/// The file to back up for `copy_file` (already with slashes), found under
/// source line `index` whose parent folder is `copy_oya_folder`: the folder
/// and name of `copy_file` are read with the platform's path rules, and
/// `found_file_given` decides with them. The folder read is a shorter leading
/// part of `copy_file` and the name a non-empty component.
pub fn found_file(file_paste: &str, index: usize, copy_oya_folder: &str, copy_file: &str) -> (res:
    Option<BackupFile>)
    requires
        index < usize::MAX,
    ensures
        exists|parent: Option<Seq<char>>, name: Option<Seq<char>>|
            {
                &&& (parent matches Some(p) ==> is_proper_prefix(p, copy_file@))
                &&& (name matches Some(n) ==> is_file_name(n))
                &&& #[trigger] found_file_post(
                    file_paste@,
                    index as nat,
                    copy_oya_folder@,
                    copy_file@,
                    parent,
                    name,
                    res,
                )
            },
{
    let parent = path_parent(copy_file);
    let name = path_file_name(copy_file);
    let p = match &parent {
        Some(t) => Some(t.as_str()),
        None => None,
    };
    let n = match &name {
        Some(t) => Some(t.as_str()),
        None => None,
    };
    let res = found_file_given(file_paste, index, copy_oya_folder, copy_file, p, n);
    assert(found_file_post(
        file_paste@,
        index as nat,
        copy_oya_folder@,
        copy_file@,
        opt_text(p),
        opt_text(n),
        res,
    ));
    res
}

/// The folder holding a source folder, read with the platform's path rules: a
/// shorter leading part of `path`, or `None` when it has none.
pub fn source_parent(path: &str) -> (res: Option<String>)
    ensures
        res matches Some(p) ==> is_proper_prefix(p@, path@),
{
    path_parent(path)
}

} // verus!
