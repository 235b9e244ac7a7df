//! Conflict resolution: handles sync conflicts between local and remote
//! versions of a file.

use vstd::prelude::*;
use vstd::string::*;
use crate::text::{
    concat2, decimal, is_digit_char, lemma_decimal_numeral, lemma_two_digits_numeral, numeral_value,
    push_decimal, push_two_digits, same_text, two_digits,
};
use crate::storage::autosave::duration_whole_secs;

verus! {

/// Conflict resolution strategy.
#[derive(Debug, Clone, Copy, PartialEq, Eq, Structural)]
pub enum ConflictStrategy {
    /// Keep the local version, discard remote.
    KeepLocal,
    /// Keep the remote version, discard local.
    KeepRemote,
    /// Keep the newest version (by timestamp).
    KeepNewest,
    /// Keep both: rename the older one with a conflict suffix.
    KeepBoth,
    /// Ask the user (shows a dialog).
    AskUser,
}

impl Default for ConflictStrategy {
    fn default() -> (res: Self)
        ensures
            res == ConflictStrategy::KeepBoth,
    {
        ConflictStrategy::KeepBoth
    }
}

/// A detected sync conflict.
pub struct SyncConflict {
    pub id: String,
    pub file_path: String,
    pub local_modified: i64,
    pub remote_modified: i64,
    pub local_size: u64,
    pub remote_size: u64,
    pub local_etag: Option<String>,
    pub remote_etag: Option<String>,
    pub resolved: bool,
    pub resolution: Option<ConflictStrategy>,
}

/// Action to take after resolving a conflict.
pub enum ConflictAction {
    /// Upload the local version to the remote.
    UploadLocal,
    /// Download the remote version to local.
    DownloadRemote,
    /// Keep both, with a renamed conflict copy.
    KeepBothRename { conflict_suffix: String },
    /// Not yet resolved: waiting for user input.
    Pending,
}

/// The conflict stamp for a time given in seconds since the Unix epoch:
/// `{days}-{hours}{minutes}{seconds}`, the last three zero-padded to two digits.
pub open spec fn conflict_stamp(now: nat) -> Seq<char> {
    decimal(now / 86400) + seq!['-'] + two_digits((now / 3600) % 24) + two_digits((now / 60) % 60)
        + two_digits(now % 60)
}

/// A conflict stamp reads back as its time: the part before the last seven
/// characters is the day count, followed by `-` and the hour of the day
/// (0 to 23), the minute and the second, each as two digits; together they
/// give back `now` seconds.
pub proof fn lemma_conflict_stamp_reads_back(now: nat)
    ensures
        ({
            let t = conflict_stamp(now);
            let l = t.len() as int;
            &&& l >= 8
            &&& t[l - 7] == '-'
            &&& forall|i: int| 0 <= i < l - 7 ==> is_digit_char(#[trigger] t[i])
            &&& forall|i: int| l - 6 <= i < l ==> is_digit_char(#[trigger] t[i])
            &&& numeral_value(t.subrange(l - 6, l - 4)) < 24
            &&& numeral_value(t.subrange(l - 4, l - 2)) < 60
            &&& numeral_value(t.subrange(l - 2, l)) < 60
            &&& numeral_value(t.subrange(0, l - 7)) * 86400 + numeral_value(t.subrange(l - 6, l - 4))
                * 3600 + numeral_value(t.subrange(l - 4, l - 2)) * 60 + numeral_value(
                t.subrange(l - 2, l),
            ) == now
        }),
{
    let a = now / 60;
    let b = now / 3600;
    let d = now / 86400;
    let h = (now / 3600) % 24;
    let m = (now / 60) % 60;
    let sec = now % 60;
    vstd::arithmetic::div_mod::lemma_div_denominator(now as int, 60, 60);
    vstd::arithmetic::div_mod::lemma_div_denominator(now as int, 3600, 24);
    vstd::arithmetic::div_mod::lemma_fundamental_div_mod(now as int, 60);
    vstd::arithmetic::div_mod::lemma_fundamental_div_mod(a as int, 60);
    vstd::arithmetic::div_mod::lemma_fundamental_div_mod(b as int, 24);
    assert(a / 60 == b);
    assert(b / 24 == d);
    assert(now == d * 86400 + h * 3600 + m * 60 + sec);
    lemma_decimal_numeral(d);
    lemma_two_digits_numeral(h);
    lemma_two_digits_numeral(m);
    lemma_two_digits_numeral(sec);
    let t = conflict_stamp(now);
    let k = decimal(d).len() as int;
    let l = t.len() as int;
    assert(l == k + 7);
    assert(t.subrange(0, l - 7) =~= decimal(d));
    assert(t.subrange(l - 6, l - 4) =~= two_digits(h));
    assert(t.subrange(l - 4, l - 2) =~= two_digits(m));
    assert(t.subrange(l - 2, l) =~= two_digits(sec));
    assert forall|i: int| 0 <= i < l - 7 implies is_digit_char(#[trigger] t[i]) by {
        assert(t[i] == decimal(d)[i]);
    }
    assert forall|i: int| l - 6 <= i < l implies is_digit_char(#[trigger] t[i]) by {
        if i < l - 4 {
            assert(t[i] == two_digits(h)[i - (l - 6)]);
        } else if i < l - 2 {
            assert(t[i] == two_digits(m)[i - (l - 4)]);
        } else {
            assert(t[i] == two_digits(sec)[i - (l - 2)]);
        }
    }
}

/// Distinct times give distinct conflict stamps.
pub proof fn lemma_conflict_stamp_distinct(a: nat, b: nat)
    requires
        conflict_stamp(a) == conflict_stamp(b),
    ensures
        a == b,
{
    lemma_conflict_stamp_reads_back(a);
    lemma_conflict_stamp_reads_back(b);
}

/// Whether `a` is the action that resolving with `strategy` calls for, for a
/// conflict with the given modification times, at time `now`.
pub open spec fn resolves_to(
    a: ConflictAction,
    strategy: ConflictStrategy,
    local_modified: i64,
    remote_modified: i64,
    now: nat,
) -> bool {
    match strategy {
        ConflictStrategy::KeepLocal => a is UploadLocal,
        ConflictStrategy::KeepRemote => a is DownloadRemote,
        ConflictStrategy::KeepNewest => if local_modified >= remote_modified {
            a is UploadLocal
        } else {
            a is DownloadRemote
        },
        ConflictStrategy::KeepBoth => a matches ConflictAction::KeepBothRename { conflict_suffix }
            && conflict_suffix@ == "conflict-"@ + conflict_stamp(now),
        ConflictStrategy::AskUser => a is Pending,
    }
}

/// `c` after being resolved with `strategy`: the strategy is recorded as the
/// resolution, and the conflict is marked resolved, except with `AskUser`,
/// which leaves it unresolved until the user decides.
pub open spec fn marked_resolved(c: SyncConflict, strategy: ConflictStrategy) -> SyncConflict {
    match strategy {
        ConflictStrategy::AskUser => SyncConflict { resolution: Some(strategy), ..c },
        _ => SyncConflict { resolved: true, resolution: Some(strategy), ..c },
    }
}

/// A lower-case hexadecimal digit.
pub open spec fn is_lower_hex(c: char) -> bool {
    ('0' <= c && c <= '9') || ('a' <= c && c <= 'f')
}

/// The hyphenated lower-case text of a version-4 UUID: 36 characters, with
/// hyphens at positions 8, 13, 18 and 23 and lower-case hexadecimal digits
/// elsewhere; the version digit (position 14) is `4` and the variant digit
/// (position 19) is one of `8`, `9`, `a`, `b`.
pub open spec fn is_v4_uuid_text(s: Seq<char>) -> bool {
    &&& s.len() == 36
    &&& forall|i: int|
        0 <= i < 36 ==> if i == 8 || i == 13 || i == 18 || i == 23 {
            s[i] == '-'
        } else {
            is_lower_hex(#[trigger] s[i])
        }
    &&& s[14] == '4'
    &&& (s[19] == '8' || s[19] == '9' || s[19] == 'a' || s[19] == 'b')
}

/// A fresh identifier: a random version-4 UUID (`uuid::Uuid::new_v4`) in
/// its hyphenated lower-case text form (`Display`). `new_v4` sets the
/// version to 4 and the RFC 4122 variant; the other digits are chance, so
/// only the form is stated.
#[verifier::external_body]
fn new_conflict_id() -> (res: String)
    ensures
        is_v4_uuid_text(res@),
{
    uuid::Uuid::new_v4().to_string()
}

/// `std::time::SystemTime`, a reading of the system clock.
#[verifier::external_type_specification]
#[verifier::external_body]
pub struct ExSystemTime(std::time::SystemTime);

/// `std::time::SystemTimeError`, returned when a clock reading lies before
/// the time it is measured from.
#[verifier::external_type_specification]
#[verifier::external_body]
pub struct ExSystemTimeError(std::time::SystemTimeError);

/// `SystemTime::now`: the system clock's current reading; nothing is stated
/// of it.
#[verifier::external_body]
fn system_now() -> std::time::SystemTime {
    std::time::SystemTime::now()
}

/// `SystemTime::duration_since(UNIX_EPOCH)`: the span from the Unix epoch to
/// `t`, or an error when `t` is earlier; nothing is stated of either, as it
/// rests on the clock.
#[verifier::external_body]
fn since_unix_epoch(t: &std::time::SystemTime) -> Result<
    std::time::Duration,
    std::time::SystemTimeError,
> {
    t.duration_since(std::time::UNIX_EPOCH)
}

/// `Duration::default()`, the zero-length span; nothing is stated of it, as
/// a `Duration` is opaque here.
#[verifier::external_body]
fn default_duration() -> std::time::Duration {
    std::time::Duration::default()
}

/// The current time in whole seconds since the Unix epoch, 0 when the clock
/// reads earlier than the epoch.
fn unix_time_secs() -> u64 {
    let now = system_now();
    let span = match since_unix_epoch(&now) {
        Ok(d) => d,
        Err(_) => default_duration(),
    };
    duration_whole_secs(&span)
}

/// The conflict stamp for `now` seconds since the Unix epoch.
pub fn conflict_stamp_at(now: u64) -> (res: String)
    ensures
        res@ == conflict_stamp(now as nat),
{
    let mut s = String::new();
    push_decimal(&mut s, now / 86400);
    s.push('-');
    push_two_digits(&mut s, (now / 3600) % 24);
    push_two_digits(&mut s, (now / 60) % 60);
    push_two_digits(&mut s, now % 60);
    assert(s@ =~= conflict_stamp(now as nat));
    s
}

/// A timestamp-like text for conflict suffixes, read from the clock.
fn chrono_ish_timestamp() -> (res: String)
    ensures
        exists|now: nat| res@ == conflict_stamp(now),
{
    let now = unix_time_secs();
    conflict_stamp_at(now)
}

impl SyncConflict {
    /// A new unresolved conflict for `file_path`, with a fresh random id, zero
    /// sizes and no etags.
    pub fn new(file_path: &str, local_modified: i64, remote_modified: i64) -> (res: Self)
        ensures
            is_v4_uuid_text(res.id@),
            res.file_path@ == file_path@,
            res.local_modified == local_modified,
            res.remote_modified == remote_modified,
            res.local_size == 0,
            res.remote_size == 0,
            res.local_etag is None,
            res.remote_etag is None,
            !res.resolved,
            res.resolution is None,
    {
        SyncConflict {
            id: new_conflict_id(),
            file_path: file_path.to_string(),
            local_modified,
            remote_modified,
            local_size: 0,
            remote_size: 0,
            local_etag: None,
            remote_etag: None,
            resolved: false,
            resolution: None,
        }
    }

    /// Resolve with `strategy`, taking `now` (seconds since the Unix epoch) as
    /// the time for a conflict-copy suffix. The strategy is recorded as the
    /// resolution; `AskUser` leaves the conflict unresolved and answers
    /// `Pending`.
    pub fn resolve_at(&mut self, strategy: ConflictStrategy, now: u64) -> (res: ConflictAction)
        ensures
            *final(self) == marked_resolved(*old(self), strategy),
            resolves_to(res, strategy, old(self).local_modified, old(self).remote_modified, now as nat),
    {
        if !matches!(strategy, ConflictStrategy::AskUser) {
            self.resolved = true;
        }
        self.resolution = Some(strategy);
        match strategy {
            ConflictStrategy::KeepLocal => ConflictAction::UploadLocal,
            ConflictStrategy::KeepRemote => ConflictAction::DownloadRemote,
            ConflictStrategy::KeepNewest => {
                if self.local_modified >= self.remote_modified {
                    ConflictAction::UploadLocal
                } else {
                    ConflictAction::DownloadRemote
                }
            },
            ConflictStrategy::KeepBoth => {
                let stamp = conflict_stamp_at(now);
                ConflictAction::KeepBothRename {
                    conflict_suffix: concat2("conflict-", stamp.as_str()),
                }
            },
            ConflictStrategy::AskUser => ConflictAction::Pending,
        }
    }

    /// Auto-resolve using the given strategy; a conflict copy is stamped with
    /// the current time.
    pub fn auto_resolve(&mut self, strategy: ConflictStrategy) -> (res: ConflictAction)
        ensures
            *final(self) == marked_resolved(*old(self), strategy),
            exists|now: nat|
                resolves_to(res, strategy, old(self).local_modified, old(self).remote_modified, now),
    {
        let now = unix_time_secs();
        self.resolve_at(strategy, now)
    }
}

/// The unresolved conflicts of `s`, in order.
pub open spec fn unresolved_of(s: Seq<SyncConflict>) -> Seq<SyncConflict>
    decreases s.len(),
{
    if s.len() == 0 {
        Seq::empty()
    } else {
        let rest = unresolved_of(s.drop_last());
        if s.last().resolved {
            rest
        } else {
            rest.push(s.last())
        }
    }
}

/// `s` with every unresolved conflict resolved with `strategy`.
pub open spec fn all_resolved(s: Seq<SyncConflict>, strategy: ConflictStrategy) -> Seq<
    SyncConflict,
> {
    s.map_values(
        |c: SyncConflict|
            if c.resolved {
                c
            } else {
                marked_resolved(c, strategy)
            },
    )
}

/// After every conflict is resolved with a strategy other than `AskUser`,
/// none is left unresolved.
pub proof fn lemma_all_resolved_leaves_none(s: Seq<SyncConflict>, strategy: ConflictStrategy)
    requires
        !(strategy is AskUser),
    ensures
        unresolved_of(all_resolved(s, strategy)).len() == 0,
    decreases s.len(),
{
    if s.len() > 0 {
        lemma_all_resolved_leaves_none(s.drop_last(), strategy);
        assert(all_resolved(s, strategy).drop_last() =~= all_resolved(s.drop_last(), strategy));
    }
}

/// Resolving with `AskUser` leaves every conflict's resolved flag as it was,
/// so all the unresolved ones stay unresolved.
pub proof fn lemma_ask_user_leaves_all(s: Seq<SyncConflict>)
    ensures
        all_resolved(s, ConflictStrategy::AskUser).len() == s.len(),
        forall|k: int|
            0 <= k < s.len() ==> (#[trigger] all_resolved(s, ConflictStrategy::AskUser)[k]).resolved
                == s[k].resolved,
        unresolved_of(all_resolved(s, ConflictStrategy::AskUser)).len() == unresolved_of(s).len(),
    decreases s.len(),
{
    if s.len() > 0 {
        lemma_ask_user_leaves_all(s.drop_last());
        assert(all_resolved(s, ConflictStrategy::AskUser).drop_last() =~= all_resolved(
            s.drop_last(),
            ConflictStrategy::AskUser,
        ));
    }
}

/// Clearing the resolved conflicts keeps exactly the unresolved ones, so
/// afterwards every remaining conflict is unresolved.
pub proof fn lemma_unresolved_are_unresolved(s: Seq<SyncConflict>)
    ensures
        forall|k: int| 0 <= k < unresolved_of(s).len() ==> !(#[trigger] unresolved_of(s)[k]).resolved,
        unresolved_of(unresolved_of(s)) == unresolved_of(s),
    decreases s.len(),
{
    if s.len() > 0 {
        lemma_unresolved_are_unresolved(s.drop_last());
        let r = unresolved_of(s.drop_last());
        if !s.last().resolved {
            assert(r.push(s.last()).drop_last() =~= r);
        }
    }
}

/// Whether `c` is the conflict recorded by a detection with these inputs.
pub open spec fn detected(
    c: SyncConflict,
    file_path: Seq<char>,
    local_modified: i64,
    remote_modified: i64,
    local_etag: Option<&str>,
    remote_etag: Option<&str>,
) -> bool {
    &&& c.file_path@ == file_path
    &&& c.local_modified == local_modified
    &&& c.remote_modified == remote_modified
    &&& c.local_size == 0
    &&& c.remote_size == 0
    &&& match (c.local_etag, local_etag) {
        (Some(a), Some(b)) => a@ == b@,
        (None, None) => true,
        _ => false,
    }
    &&& match (c.remote_etag, remote_etag) {
        (Some(a), Some(b)) => a@ == b@,
        (None, None) => true,
        _ => false,
    }
    &&& !c.resolved
    &&& c.resolution is None
}

/// The given etags are both present and equal.
pub open spec fn same_etags(local_etag: Option<&str>, remote_etag: Option<&str>) -> bool {
    match (local_etag, remote_etag) {
        (Some(a), Some(b)) => a@ == b@,
        _ => false,
    }
}

/// Conflict resolver: manages a queue of conflicts.
pub struct ConflictResolver {
    pub default_strategy: ConflictStrategy,
    pub conflicts: Vec<SyncConflict>,
}

/// A copy of an optional text.
fn owned_opt(s: Option<&str>) -> (res: Option<String>)
    ensures
        match (res, s) {
            (Some(a), Some(b)) => a@ == b@,
            (None, None) => true,
            _ => false,
        },
{
    match s {
        Some(t) => Some(t.to_string()),
        None => None,
    }
}

/// The file name of `path` with its stem, as `Path::file_stem` reads it; the
/// name stands for the standard library's path parsing.
pub uninterp spec fn file_stem_of(path: Seq<char>) -> Option<Seq<char>>;

/// The extension of `path`, as `Path::extension` reads it.
pub uninterp spec fn extension_of(path: Seq<char>) -> Option<Seq<char>>;

/// `path` with its file name replaced, as `Path::with_file_name` builds it.
pub uninterp spec fn with_file_name_of(path: Seq<char>, name: Seq<char>) -> Seq<char>;

/// `std::path::Path::file_stem` of a UTF-8 path. The result is a function of
/// the path alone; its parsing rules are left to the name.
#[verifier::external_body]
fn path_file_stem(path: &str) -> (res: Option<String>)
    ensures
        match res {
            Some(s) => file_stem_of(path@) == Some(s@),
            None => file_stem_of(path@) is None,
        },
{
    match std::path::Path::new(path).file_stem() {
        Some(s) => Some(s.to_string_lossy().into_owned()),
        None => None,
    }
}

/// `std::path::Path::extension` of a UTF-8 path. The result is a function of
/// the path alone; its parsing rules are left to the name.
#[verifier::external_body]
fn path_extension(path: &str) -> (res: Option<String>)
    ensures
        match res {
            Some(s) => extension_of(path@) == Some(s@),
            None => extension_of(path@) is None,
        },
{
    match std::path::Path::new(path).extension() {
        Some(s) => Some(s.to_string_lossy().into_owned()),
        None => None,
    }
}

/// `std::path::Path::with_file_name` of a UTF-8 path and name. The result is
/// a function of the two alone; its rules are left to the name.
#[verifier::external_body]
fn path_with_file_name(path: &str, name: &str) -> (res: String)
    ensures
        res@ == with_file_name_of(path@, name@),
{
    std::path::Path::new(path).with_file_name(name).to_string_lossy().into_owned()
}

/// The file name given to a conflict copy: `{stem} ({suffix}){.ext}`.
pub open spec fn conflict_file_name(path: Seq<char>, suffix: Seq<char>) -> Seq<char> {
    let stem = match file_stem_of(path) {
        Some(s) => s,
        None => Seq::empty(),
    };
    let ext = match extension_of(path) {
        Some(e) => seq!['.'] + e,
        None => Seq::empty(),
    };
    stem + " ("@ + suffix + seq![')'] + ext
}

impl ConflictResolver {
    /// An empty resolver with the given default strategy.
    pub fn new(strategy: ConflictStrategy) -> (res: Self)
        ensures
            res.default_strategy == strategy,
            res.conflicts@.len() == 0,
    {
        ConflictResolver { default_strategy: strategy, conflicts: Vec::new() }
    }

    /// Detect a conflict between local and remote versions: none when both
    /// etags are present and equal, or when the modification times agree;
    /// otherwise a new conflict is queued and returned.
    pub fn detect_conflict(
        &mut self,
        file_path: &str,
        local_modified: i64,
        remote_modified: i64,
        local_etag: Option<&str>,
        remote_etag: Option<&str>,
    ) -> (res: Option<&SyncConflict>)
        ensures
            final(self).default_strategy == old(self).default_strategy,
            same_etags(local_etag, remote_etag) || local_modified == remote_modified ==> {
                &&& res is None
                &&& final(self).conflicts@ == old(self).conflicts@
            },
            !(same_etags(local_etag, remote_etag) || local_modified == remote_modified) ==> {
                &&& final(self).conflicts@.len() == old(self).conflicts@.len() + 1
                &&& final(self).conflicts@.drop_last() == old(self).conflicts@
                &&& detected(
                    final(self).conflicts@.last(),
                    file_path@,
                    local_modified,
                    remote_modified,
                    local_etag,
                    remote_etag,
                )
                &&& res matches Some(c) && *c == final(self).conflicts@.last()
            },
    {
        match (local_etag, remote_etag) {
            (Some(le), Some(re)) => {
                if same_text(le, re) {
                    return None;
                }
            },
            _ => {},
        }
        if local_modified != remote_modified {
            let conflict = SyncConflict {
                id: new_conflict_id(),
                file_path: file_path.to_string(),
                local_modified,
                remote_modified,
                local_size: 0,
                remote_size: 0,
                local_etag: owned_opt(local_etag),
                remote_etag: owned_opt(remote_etag),
                resolved: false,
                resolution: None,
            };
            self.conflicts.push(conflict);
            assert(self.conflicts@.drop_last() =~= old(self).conflicts@);
            let last = self.conflicts.len() - 1;
            return Some(&self.conflicts[last]);
        }
        None
    }

    /// Auto-resolve all pending conflicts with the default strategy, giving
    /// each one's file path and action, in queue order.
    pub fn resolve_all(&mut self) -> (res: Vec<(String, ConflictAction)>)
        ensures
            final(self).default_strategy == old(self).default_strategy,
            final(self).conflicts@ == all_resolved(old(self).conflicts@, old(self).default_strategy),
            res@.len() == unresolved_of(old(self).conflicts@).len(),
            forall|k: int|
                0 <= k < res@.len() ==> {
                    let c = #[trigger] unresolved_of(old(self).conflicts@)[k];
                    &&& res@[k].0@ == c.file_path@
                    &&& exists|now: nat|
                        resolves_to(
                            res@[k].1,
                            old(self).default_strategy,
                            c.local_modified,
                            c.remote_modified,
                            now,
                        )
                },
    {
        let strategy = self.default_strategy;
        let ghost orig = self.conflicts@;
        let mut out: Vec<(String, ConflictAction)> = Vec::new();
        let mut i: usize = 0;
        while i < self.conflicts.len()
            invariant
                self.default_strategy == strategy,
                strategy == old(self).default_strategy,
                orig == old(self).conflicts@,
                self.conflicts@.len() == orig.len(),
                i <= orig.len(),
                forall|j: int|
                    0 <= j < i ==> #[trigger] self.conflicts@[j] == (if orig[j].resolved {
                        orig[j]
                    } else {
                        marked_resolved(orig[j], strategy)
                    }),
                forall|j: int| i <= j < orig.len() ==> #[trigger] self.conflicts@[j] == orig[j],
                out@.len() == unresolved_of(orig.take(i as int)).len(),
                forall|k: int|
                    0 <= k < out@.len() ==> {
                        let c = #[trigger] unresolved_of(orig.take(i as int))[k];
                        &&& out@[k].0@ == c.file_path@
                        &&& exists|now: nat|
                            resolves_to(
                                out@[k].1,
                                strategy,
                                c.local_modified,
                                c.remote_modified,
                                now,
                            )
                    },
            decreases orig.len() - i,
        {
            assert(orig.take(i + 1).drop_last() =~= orig.take(i as int));
            assert(orig.take(i + 1).last() == orig[i as int]);
            if !self.conflicts[i].resolved {
                let mut c = self.conflicts.remove(i);
                assert(c == orig[i as int]);
                let action = c.auto_resolve(strategy);
                let path = c.file_path.clone();
                assert(path@ == orig[i as int].file_path@);
                assert(exists|now: nat|
                    resolves_to(
                        action,
                        strategy,
                        orig[i as int].local_modified,
                        orig[i as int].remote_modified,
                        now,
                    ));
                self.conflicts.insert(i, c);
                let ghost before = out@;
                let ghost a0 = action;
                let ghost p0 = path@;
                out.push((path, action));
                assert forall|k: int| 0 <= k < out@.len() implies {
                    let c = #[trigger] unresolved_of(orig.take(i + 1))[k];
                    &&& out@[k].0@ == c.file_path@
                    &&& exists|now: nat|
                        resolves_to(out@[k].1, strategy, c.local_modified, c.remote_modified, now)
                } by {
                    assert(unresolved_of(orig.take(i + 1)) == unresolved_of(orig.take(i as int)).push(
                        orig[i as int],
                    ));
                    if k < before.len() {
                        assert(out@[k] == before[k]);
                        assert(unresolved_of(orig.take(i + 1))[k] == unresolved_of(
                            orig.take(i as int),
                        )[k]);
                    } else {
                        assert(k == before.len());
                        assert(out@[k].1 == a0);
                        assert(out@[k].0@ == p0);
                        let now0 = choose|now: nat|
                            resolves_to(
                                a0,
                                strategy,
                                orig[i as int].local_modified,
                                orig[i as int].remote_modified,
                                now,
                            );
                        assert(unresolved_of(orig.take(i + 1))[k] == orig[i as int]);
                        assert(resolves_to(
                            out@[k].1,
                            strategy,
                            orig[i as int].local_modified,
                            orig[i as int].remote_modified,
                            now0,
                        ));
                    }
                }
            }
            i = i + 1;
        }
        assert(orig.take(i as int) =~= orig);
        assert(self.conflicts@ =~= all_resolved(orig, strategy));
        out
    }

    /// Resolve the first conflict with the given id, if there is one.
    pub fn resolve_one(&mut self, conflict_id: &str, strategy: ConflictStrategy) -> (res: Option<
        ConflictAction,
    >)
        ensures
            final(self).default_strategy == old(self).default_strategy,
            match res {
                Some(a) => exists|i: int|
                    {
                        &&& 0 <= i < old(self).conflicts@.len()
                        &&& #[trigger] old(self).conflicts@[i].id@ == conflict_id@
                        &&& forall|j: int| 0 <= j < i ==> old(self).conflicts@[j].id@ != conflict_id@
                        &&& final(self).conflicts@ == old(self).conflicts@.update(
                            i,
                            marked_resolved(old(self).conflicts@[i], strategy),
                        )
                        &&& exists|now: nat|
                            resolves_to(
                                a,
                                strategy,
                                old(self).conflicts@[i].local_modified,
                                old(self).conflicts@[i].remote_modified,
                                now,
                            )
                    },
                None => {
                    &&& forall|i: int|
                        0 <= i < old(self).conflicts@.len() ==> #[trigger] old(
                            self,
                        ).conflicts@[i].id@ != conflict_id@
                    &&& final(self).conflicts@ == old(self).conflicts@
                },
            },
    {
        let mut i: usize = 0;
        while i < self.conflicts.len()
            invariant
                self.conflicts@ == old(self).conflicts@,
                self.default_strategy == old(self).default_strategy,
                i <= self.conflicts@.len(),
                forall|j: int| 0 <= j < i ==> #[trigger] self.conflicts@[j].id@ != conflict_id@,
            decreases self.conflicts@.len() - i,
        {
            if same_text(self.conflicts[i].id.as_str(), conflict_id) {
                let mut c = self.conflicts.remove(i);
                let action = c.auto_resolve(strategy);
                self.conflicts.insert(i, c);
                assert(self.conflicts@ =~= old(self).conflicts@.update(
                    i as int,
                    marked_resolved(old(self).conflicts@[i as int], strategy),
                ));
                return Some(action);
            }
            i = i + 1;
        }
        None
    }

    /// All unresolved conflicts, in queue order.
    pub fn unresolved(&self) -> (res: Vec<&SyncConflict>)
        ensures
            res@.map_values(|c: &SyncConflict| *c) == unresolved_of(self.conflicts@),
    {
        let mut out: Vec<&SyncConflict> = Vec::new();
        let mut i: usize = 0;
        while i < self.conflicts.len()
            invariant
                i <= self.conflicts@.len(),
                out@.map_values(|c: &SyncConflict| *c) == unresolved_of(
                    self.conflicts@.take(i as int),
                ),
            decreases self.conflicts@.len() - i,
        {
            assert(self.conflicts@.take(i + 1).drop_last() =~= self.conflicts@.take(i as int));
            if !self.conflicts[i].resolved {
                out.push(&self.conflicts[i]);
            }
            assert(out@.map_values(|c: &SyncConflict| *c) =~= unresolved_of(
                self.conflicts@.take(i + 1),
            ));
            i = i + 1;
        }
        assert(self.conflicts@.take(i as int) =~= self.conflicts@);
        out
    }

    /// The path of the conflict copy of `original`: the same directory, with
    /// the file name `{stem} ({suffix}){.ext}`.
    pub fn conflict_path(original: &str, suffix: &str) -> (res: String)
        ensures
            res@ == with_file_name_of(original@, conflict_file_name(original@, suffix@)),
    {
        let stem = match path_file_stem(original) {
            Some(s) => s,
            None => String::new(),
        };
        let ext = match path_extension(original) {
            Some(e) => concat2(".", e.as_str()),
            None => String::new(),
        };
        let mut name = stem;
        name.append(" (");
        name.append(suffix);
        name.push(')');
        name.append(ext.as_str());
        proof {
            reveal_strlit(".");
        }
        assert(name@ =~= conflict_file_name(original@, suffix@));
        path_with_file_name(original, name.as_str())
    }

    /// Drop the resolved conflicts, keeping the others in order.
    pub fn clear_resolved(&mut self)
        ensures
            final(self).default_strategy == old(self).default_strategy,
            final(self).conflicts@ == unresolved_of(old(self).conflicts@),
    {
        let mut rest: Vec<SyncConflict> = Vec::new();
        std::mem::swap(&mut rest, &mut self.conflicts);
        let ghost orig = rest@;
        let mut kept: Vec<SyncConflict> = Vec::new();
        let ghost mut n: int = 0;
        while rest.len() > 0
            invariant
                0 <= n <= orig.len(),
                rest@ == orig.skip(n),
                kept@ == unresolved_of(orig.take(n)),
            decreases rest@.len(),
        {
            let c = rest.remove(0);
            proof {
                assert(orig.take(n + 1).drop_last() =~= orig.take(n));
                assert(orig.take(n + 1).last() == orig[n]);
                assert(rest@ =~= orig.skip(n + 1));
            }
            if !c.resolved {
                kept.push(c);
            }
            proof {
                n = n + 1;
            }
        }
        assert(orig.take(n) =~= orig);
        self.conflicts = kept;
    }
}

} // verus!
