//! Auto-save: periodic saves with dirty tracking.

use vstd::prelude::*;
use vstd::string::*;
use crate::text::{chars_of, decimal, has_prefix, push_decimal, starts_with_text};

verus! {

/// `std::time::Instant`, a reading of the monotonic clock.
#[verifier::external_type_specification]
#[verifier::external_body]
pub struct ExInstant(std::time::Instant);

/// The monotonic clock's current reading; nothing is stated of it.
#[verifier::external_body]
fn instant_now() -> std::time::Instant {
    std::time::Instant::now()
}

/// `Instant::elapsed`: the time passed since `t` on the monotonic clock;
/// nothing is stated of the value.
#[verifier::external_body]
fn instant_elapsed(t: &std::time::Instant) -> std::time::Duration {
    t.elapsed()
}

/// `Duration::as_secs`: the whole seconds of a span; nothing is stated of the
/// value, as a `Duration` is opaque here.
#[verifier::external_body]
pub(crate) fn duration_whole_secs(d: &std::time::Duration) -> u64 {
    d.as_secs()
}

/// `Duration::as_nanos`: the whole nanoseconds of a span; nothing is stated
/// of the value, as a `Duration` is opaque here.
#[verifier::external_body]
fn duration_as_nanos(d: &std::time::Duration) -> u128 {
    d.as_nanos()
}

/// `Duration::new`: a span of `secs` seconds and `nanos` nanoseconds. It
/// panics only when carrying whole seconds out of `nanos` overflows, which
/// `nanos` below one second rules out. Nothing is stated of the result, as a
/// `Duration` is opaque here.
#[verifier::external_body]
fn duration_new(secs: u64, nanos: u32) -> std::time::Duration
    requires
        nanos < 1_000_000_000,
{
    std::time::Duration::new(secs, nanos)
}

/// Auto-save configuration.
pub struct AutoSaveConfig {
    /// Enable auto-save.
    pub enabled: bool,
    /// Interval between saves (seconds).
    pub interval_secs: u64,
    /// Save on focus lost / app switch.
    pub save_on_blur: bool,
    /// Maximum number of backup versions to keep.
    pub max_backups: usize,
    /// Backup directory.
    pub backup_dir: String,
}

impl Default for AutoSaveConfig {
    fn default() -> (res: Self)
        ensures
            res.enabled,
            res.interval_secs == 30,
            res.save_on_blur,
            res.max_backups == 10,
            res.backup_dir@ == "~/.local/share/snotes/backups"@,
    {
        AutoSaveConfig {
            enabled: true,
            interval_secs: 30,
            save_on_blur: true,
            max_backups: 10,
            backup_dir: "~/.local/share/snotes/backups".to_string(),
        }
    }
}

/// Dirty tracking: which pages and notebooks need saving. Identifiers are the
/// 128-bit values of the pages' and notebooks' UUIDs.
pub struct DirtyTracker {
    pub dirty_pages: Vec<u128>,
    pub dirty_notebooks: Vec<u128>,
    pub last_save: Option<std::time::Instant>,
    pub last_modify: Option<std::time::Instant>,
    pub stroke_count_since_save: u32,
}

/// `s` with `x` added at the end unless it is already there.
pub open spec fn add_once(s: Seq<u128>, x: u128) -> Seq<u128> {
    if s.contains(x) {
        s
    } else {
        s.push(x)
    }
}

/// `x` added to the vector unless it is already there.
fn push_once(v: &mut Vec<u128>, x: u128)
    ensures
        final(v)@ == add_once(old(v)@, x),
{
    let mut i: usize = 0;
    while i < v.len()
        invariant
            v@ == old(v)@,
            i <= v@.len(),
            forall|j: int| 0 <= j < i ==> v@[j] != x,
        decreases v@.len() - i,
    {
        if v[i] == x {
            assert(v@[i as int] == x);
            return;
        }
        i = i + 1;
    }
    v.push(x);
}

impl DirtyTracker {
    /// Whether anything needs saving.
    pub open spec fn dirty(&self) -> bool {
        self.dirty_pages@.len() > 0 || self.dirty_notebooks@.len() > 0
    }

    /// A tracker with nothing dirty and no recorded save or change.
    pub fn new() -> (res: Self)
        ensures
            res.dirty_pages@.len() == 0,
            res.dirty_notebooks@.len() == 0,
            res.last_save is None,
            res.last_modify is None,
            res.stroke_count_since_save == 0,
    {
        DirtyTracker {
            dirty_pages: Vec::new(),
            dirty_notebooks: Vec::new(),
            last_save: None,
            last_modify: None,
            stroke_count_since_save: 0,
        }
    }

    /// Mark a page as dirty (needs saving) and count the change.
    pub fn mark_page_dirty(&mut self, page_id: u128)
        requires
            old(self).stroke_count_since_save < u32::MAX,
        ensures
            final(self).dirty_pages@ == add_once(old(self).dirty_pages@, page_id),
            final(self).dirty_notebooks@ == old(self).dirty_notebooks@,
            final(self).last_save == old(self).last_save,
            final(self).last_modify is Some,
            final(self).stroke_count_since_save == old(self).stroke_count_since_save + 1,
    {
        push_once(&mut self.dirty_pages, page_id);
        self.last_modify = Some(instant_now());
        self.stroke_count_since_save = self.stroke_count_since_save + 1;
    }

    /// Mark a notebook as dirty.
    pub fn mark_notebook_dirty(&mut self, notebook_id: u128)
        ensures
            final(self).dirty_notebooks@ == add_once(old(self).dirty_notebooks@, notebook_id),
            final(self).dirty_pages@ == old(self).dirty_pages@,
            final(self).last_save == old(self).last_save,
            final(self).last_modify is Some,
            final(self).stroke_count_since_save == old(self).stroke_count_since_save,
    {
        push_once(&mut self.dirty_notebooks, notebook_id);
        self.last_modify = Some(instant_now());
    }

    /// Whether anything needs saving.
    pub fn is_dirty(&self) -> (res: bool)
        ensures
            res == self.dirty(),
    {
        self.dirty_pages.len() > 0 || self.dirty_notebooks.len() > 0
    }

    /// Clear all dirty flags after a successful save.
    pub fn mark_saved(&mut self)
        ensures
            final(self).dirty_pages@.len() == 0,
            final(self).dirty_notebooks@.len() == 0,
            final(self).last_save is Some,
            final(self).last_modify == old(self).last_modify,
            final(self).stroke_count_since_save == 0,
    {
        self.dirty_pages.clear();
        self.dirty_notebooks.clear();
        self.last_save = Some(instant_now());
        self.stroke_count_since_save = 0;
    }

    /// Whether to save now, given how many whole seconds have passed since the
    /// last save: only when enabled and dirty; then when a save was made, once
    /// the interval has passed since it, and otherwise when a change was made.
    pub fn should_save_after(&self, config: &AutoSaveConfig, secs_since_save: u64) -> (res: bool)
        ensures
            res == (config.enabled && self.dirty() && if self.last_save is Some {
                secs_since_save >= config.interval_secs
            } else {
                self.last_modify is Some
            }),
    {
        if !config.enabled || !self.is_dirty() {
            return false;
        }
        if self.last_save.is_some() {
            return secs_since_save >= config.interval_secs;
        }
        self.last_modify.is_some()
    }

    /// Whether to save now, reading the clock for the time since the last save.
    pub fn should_save(&self, config: &AutoSaveConfig) -> (res: bool)
        ensures
            !config.enabled || !self.dirty() ==> !res,
            config.enabled && self.dirty() && self.last_save is None ==> res == (
            self.last_modify is Some),
            res ==> config.enabled && self.dirty(),
    {
        let secs = match &self.last_save {
            Some(last) => {
                let elapsed = instant_elapsed(last);
                duration_whole_secs(&elapsed)
            },
            None => 0,
        };
        self.should_save_after(config, secs)
    }

    /// Nanoseconds until the next auto-save, given the nanoseconds elapsed
    /// since the last save: none when disabled or clean; zero before the
    /// first save; otherwise what is left of the interval, floored at zero.
    pub fn time_until_save_after(&self, config: &AutoSaveConfig, elapsed_nanos: u128) -> (res:
        Option<u128>)
        ensures
            res == if !config.enabled || !self.dirty() {
                None
            } else if self.last_save is None {
                Some(0u128)
            } else if elapsed_nanos >= config.interval_secs * 1_000_000_000 {
                Some(0u128)
            } else {
                Some((config.interval_secs * 1_000_000_000 - elapsed_nanos) as u128)
            },
    {
        if !config.enabled || !self.is_dirty() {
            return None;
        }
        if self.last_save.is_none() {
            return Some(0);
        }
        let interval: u128 = (config.interval_secs as u128) * 1_000_000_000;
        if elapsed_nanos >= interval {
            Some(0)
        } else {
            Some(interval - elapsed_nanos)
        }
    }

    /// Time until the next auto-save (for display): none when disabled or
    /// clean; zero before the first save; otherwise what is left of the
    /// interval since the last save, read from the clock. The span is the one
    /// `time_until_save_after` gives for the elapsed time read.
    pub fn time_until_save(&self, config: &AutoSaveConfig) -> (res: Option<std::time::Duration>)
        ensures
            res is None <==> (!config.enabled || !self.dirty()),
    {
        let elapsed_nanos: u128 = match &self.last_save {
            Some(last) => {
                let elapsed = instant_elapsed(last);
                duration_as_nanos(&elapsed)
            },
            None => 0,
        };
        match self.time_until_save_after(config, elapsed_nanos) {
            Some(left) => {
                let secs = left / 1_000_000_000;
                let nanos = left % 1_000_000_000;
                assert(secs <= config.interval_secs);
                Some(duration_new(secs as u64, nanos as u32))
            },
            None => None,
        }
    }
}

impl Default for DirtyTracker {
    fn default() -> (res: Self)
        ensures
            res.dirty_pages@.len() == 0,
            res.dirty_notebooks@.len() == 0,
            res.last_save is None,
            res.last_modify is None,
            res.stroke_count_since_save == 0,
    {
        Self::new()
    }
}

/// `dir` with each `~` replaced by the home directory `home`.
pub open spec fn expand_home(dir: Seq<char>, home: Seq<char>) -> Seq<char>
    decreases dir.len(),
{
    if dir.len() == 0 {
        Seq::empty()
    } else {
        expand_home(dir.drop_last(), home) + if dir.last() == '~' {
            home
        } else {
            seq![dir.last()]
        }
    }
}

/// The file name of a backup of `file_name` made at `secs` seconds since the
/// Unix epoch: `{file_name}.{secs}.bak`.
pub open spec fn backup_name(file_name: Seq<char>, secs: nat) -> Seq<char> {
    file_name + seq!['.'] + decimal(secs) + ".bak"@
}

/// Auto-save manager: configuration, dirty tracking and the backup directory.
pub struct AutoSaveManager {
    pub config: AutoSaveConfig,
    pub tracker: DirtyTracker,
    /// The directory backups go to.
    pub backup_dir: String,
}

impl AutoSaveManager {
    /// A manager for `config` whose backup directory is the configured one with
    /// each `~` replaced by the home directory `home`.
    pub fn with_home(config: AutoSaveConfig, home: &str) -> (res: Self)
        ensures
            res.config == config,
            res.backup_dir@ == expand_home(config.backup_dir@, home@),
            res.tracker.dirty_pages@.len() == 0,
            res.tracker.dirty_notebooks@.len() == 0,
            res.tracker.last_save is None,
            res.tracker.last_modify is None,
            res.tracker.stroke_count_since_save == 0,
    {
        let cs = chars_of(config.backup_dir.as_str());
        let mut dir = String::new();
        let mut i: usize = 0;
        while i < cs.len()
            invariant
                cs@ == config.backup_dir@,
                i <= cs@.len(),
                dir@ == expand_home(cs@.take(i as int), home@),
            decreases cs@.len() - i,
        {
            assert(cs@.take(i + 1).drop_last() =~= cs@.take(i as int));
            if cs[i] == '~' {
                dir.append(home);
            } else {
                dir.push(cs[i]);
            }
            i = i + 1;
        }
        assert(cs@.take(i as int) =~= cs@);
        AutoSaveManager { config, tracker: DirtyTracker::new(), backup_dir: dir }
    }

    /// The file name for a backup of `file_name` made at `secs` seconds since
    /// the Unix epoch.
    pub fn backup_file_name(file_name: &str, secs: u64) -> (res: String)
        ensures
            res@ == backup_name(file_name@, secs as nat),
    {
        let mut name = file_name.to_string();
        name.push('.');
        push_decimal(&mut name, secs);
        name.append(".bak");
        name
    }
}


/// A file in the backup directory: its name and when it was last modified,
/// in nanoseconds from the Unix epoch (negative before it; the epoch itself
/// when the time could not be read).
pub struct BackupFile {
    pub name: String,
    pub modified: i128,
}

/// A file is a backup of `base` when its name starts with it.
pub open spec fn is_backup_of(f: BackupFile, base: Seq<char>) -> bool {
    has_prefix(f.name@, base)
}

/// File `j` comes before file `i` when backups are ordered newest first,
/// files modified at the same time keeping their listing order.
pub open spec fn comes_before(fs: Seq<BackupFile>, j: int, i: int) -> bool {
    fs[j].modified > fs[i].modified || (fs[j].modified == fs[i].modified && j < i)
}

/// How many backups of `base` among the first `n` files come before file `i`.
pub open spec fn rank_among(fs: Seq<BackupFile>, base: Seq<char>, i: int, n: int) -> nat
    decreases n,
{
    if n <= 0 {
        0
    } else {
        rank_among(fs, base, i, n - 1) + if is_backup_of(fs[n - 1], base) && comes_before(
            fs,
            n - 1,
            i,
        ) {
            1nat
        } else {
            0nat
        }
    }
}

/// File `i` is a backup of `base` past the newest `keep` ones.
pub open spec fn is_excess(fs: Seq<BackupFile>, base: Seq<char>, keep: int, i: int) -> bool {
    is_backup_of(fs[i], base) && rank_among(fs, base, i, fs.len() as int) >= keep
}

/// The positions among the first `n` files of the excess backups, in order.
pub open spec fn excess_upto(fs: Seq<BackupFile>, base: Seq<char>, keep: int, n: int) -> Seq<usize>
    decreases n,
{
    if n <= 0 {
        Seq::empty()
    } else {
        let r = excess_upto(fs, base, keep, n - 1);
        if is_excess(fs, base, keep, n - 1) {
            r.push((n - 1) as usize)
        } else {
            r
        }
    }
}

/// The rank of a file is at most the number of files looked at.
proof fn lemma_rank_bound(fs: Seq<BackupFile>, base: Seq<char>, i: int, n: int)
    requires
        n >= 0,
    ensures
        rank_among(fs, base, i, n) <= n,
    decreases n,
{
    if n > 0 {
        lemma_rank_bound(fs, base, i, n - 1);
    }
}

/// The positions in the backup directory listing `files` of the backups of
/// `base` to delete: all but the `max_backups` most recently modified.
pub fn backups_to_prune(files: &Vec<BackupFile>, base: &str, max_backups: usize) -> (res: Vec<usize>)
    ensures
        res@ == excess_upto(files@, base@, max_backups as int, files@.len() as int),
{
    let n = files.len();
    let mut flags: Vec<bool> = Vec::new();
    let mut k: usize = 0;
    while k < n
        invariant
            n == files@.len(),
            k <= n,
            flags@.len() == k,
            forall|m: int| 0 <= m < k ==> flags@[m] == is_backup_of(files@[m], base@),
        decreases n - k,
    {
        flags.push(starts_with_text(files[k].name.as_str(), base));
        k = k + 1;
    }
    let mut out: Vec<usize> = Vec::new();
    let mut i: usize = 0;
    while i < n
        invariant
            n == files@.len(),
            i <= n,
            flags@.len() == n,
            forall|m: int| 0 <= m < n ==> flags@[m] == is_backup_of(files@[m], base@),
            out@ == excess_upto(files@, base@, max_backups as int, i as int),
        decreases n - i,
    {
        if flags[i] {
            let mut count: usize = 0;
            let mut j: usize = 0;
            while j < n
                invariant
                    n == files@.len(),
                    i < n,
                    j <= n,
                    flags@.len() == n,
                    forall|m: int| 0 <= m < n ==> flags@[m] == is_backup_of(files@[m], base@),
                    count == rank_among(files@, base@, i as int, j as int),
                decreases n - j,
            {
                proof {
                    lemma_rank_bound(files@, base@, i as int, j as int);
                }
                let before = files[j].modified > files[i].modified || (files[j].modified
                    == files[i].modified && j < i);
                if flags[j] && before {
                    count = count + 1;
                }
                j = j + 1;
            }
            if count >= max_backups {
                out.push(i);
            }
        }
        i = i + 1;
    }
    out
}


/// Coming before is transitive.
proof fn lemma_comes_before_trans(fs: Seq<BackupFile>, a: int, b: int, c: int)
    requires
        comes_before(fs, a, b),
        comes_before(fs, b, c),
    ensures
        comes_before(fs, a, c),
{
}

/// A file that comes before `i` ranks below it: every backup before it is
/// before `i` too, and it is one more.
proof fn lemma_rank_step(fs: Seq<BackupFile>, base: Seq<char>, i: int, j: int, n: int)
    requires
        0 <= n,
        comes_before(fs, j, i),
    ensures
        rank_among(fs, base, i, n) >= rank_among(fs, base, j, n) + if 0 <= j < n && is_backup_of(
            fs[j],
            base,
        ) {
            1int
        } else {
            0int
        },
    decreases n,
{
    if n > 0 {
        lemma_rank_step(fs, base, i, j, n - 1);
        let k = n - 1;
        if is_backup_of(fs[k], base) && comes_before(fs, k, j) {
            lemma_comes_before_trans(fs, k, j, i);
        }
    }
}

/// The positions of the backups of `base` that pruning keeps.
pub open spec fn kept_backups(fs: Seq<BackupFile>, base: Seq<char>, keep: int) -> Set<int> {
    Set::new(
        |i: int| 0 <= i < fs.len() && is_backup_of(fs[i], base) && !is_excess(fs, base, keep, i),
    )
}

/// Pruning keeps the newest backups: each kept backup of `base` is newer
/// than each one deleted (or as new and listed earlier).
pub proof fn lemma_prune_keeps_newest(
    fs: Seq<BackupFile>,
    base: Seq<char>,
    keep: int,
    i: int,
    j: int,
)
    requires
        0 <= i < fs.len(),
        0 <= j < fs.len(),
        is_backup_of(fs[i], base),
        !is_excess(fs, base, keep, i),
        is_excess(fs, base, keep, j),
    ensures
        comes_before(fs, i, j),
{
    if !comes_before(fs, i, j) {
        lemma_rank_step(fs, base, i, j, fs.len() as int);
    }
}

/// Pruning leaves at most `keep` backups of `base`.
pub proof fn lemma_prune_keeps_at_most(fs: Seq<BackupFile>, base: Seq<char>, keep: int)
    requires
        keep >= 0,
    ensures
        kept_backups(fs, base, keep).finite(),
        kept_backups(fs, base, keep).len() <= keep,
{
    let k = kept_backups(fs, base, keep);
    let n = fs.len() as int;
    let f = |i: int| rank_among(fs, base, i, n) as int;
    vstd::set_lib::lemma_int_range(0, n);
    assert(k.subset_of(vstd::set_lib::set_int_range(0, n)));
    vstd::set_lib::lemma_set_subset_finite(vstd::set_lib::set_int_range(0, n), k);
    assert forall|x: int, y: int| k.contains(x) && k.contains(y) && #[trigger] f(x) == #[trigger] f(y)
        implies x == y by {
        if x != y {
            if comes_before(fs, y, x) {
                lemma_rank_step(fs, base, x, y, n);
            } else {
                lemma_rank_step(fs, base, y, x, n);
            }
        }
    }
    let r = k.map(f);
    vstd::set_lib::lemma_map_size(k, r, f);
    vstd::set_lib::lemma_int_range(0, keep);
    assert(r.subset_of(vstd::set_lib::set_int_range(0, keep)));
    vstd::set_lib::lemma_len_subset(r, vstd::set_lib::set_int_range(0, keep));
}

} // verus!
