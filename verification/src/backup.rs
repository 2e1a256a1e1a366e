//! Backup rotation for the catalog's store file. At each startup the store
//! file is copied into the backup directory under a timestamped name, and
//! the oldest backups beyond a retention count of five are deleted. This
//! module decides which files to delete; the caller lists the directory,
//! copies and removes.
use chrono::{Datelike, Timelike};
use vstd::prelude::*;

use crate::text::{
    spec_decimal2, spec_decimal4, spec_ends_with, spec_starts_with, str_ends_with,
    str_starts_with, u64_to_string2, u64_to_string4,
};

verus! {

/// How many backup files each rotation retains.
pub const BACKUP_RETAIN: usize = 5;

/// A calendar date and clock time, split into plain fields.
#[derive(Debug, Clone, Copy, PartialEq, Eq, Structural)]
pub struct ClockParts {
    pub year: i32,
    pub month: u32,
    pub day: u32,
    pub hour: u32,
    pub minute: u32,
    pub second: u32,
}

/// Relies on `chrono::Local::now` and the `Datelike` / `Timelike`
/// accessors: the local calendar date and clock time, with the ranges
/// their documentation states (month 1–12, day 1–31, hour 0–23, minute
/// 0–59, second 0–59). Nothing can be promised about which instant comes
/// back.
#[verifier::external_body]
pub fn local_time_parts() -> (r: ClockParts)
    ensures
        1 <= r.month <= 12,
        1 <= r.day <= 31,
        r.hour < 24,
        r.minute < 60,
        r.second < 60,
{
    let t = chrono::Local::now();
    ClockParts {
        year: t.year(),
        month: t.month(),
        day: t.day(),
        hour: t.hour(),
        minute: t.minute(),
        second: t.second(),
    }
}

/// Relies on `chrono::Utc::now` and the `Datelike` / `Timelike`
/// accessors: the current UTC calendar date and clock time, with the same
/// documented ranges as `local_time_parts`.
#[verifier::external_body]
pub fn utc_time_parts() -> (r: ClockParts)
    ensures
        1 <= r.month <= 12,
        1 <= r.day <= 31,
        r.hour < 24,
        r.minute < 60,
        r.second < 60,
{
    let t = chrono::Utc::now();
    ClockParts {
        year: t.year(),
        month: t.month(),
        day: t.day(),
        hour: t.hour(),
        minute: t.minute(),
        second: t.second(),
    }
}

/// The four-digit year field: the year zero-padded to four digits, with
/// years before zero rendered as zeros.
pub open spec fn spec_year4(y: int) -> Seq<char> {
    if y >= 0 {
        spec_decimal4(y as nat)
    } else {
        seq!['0', '0', '0', '0']
    }
}

/// The eight-digit date field: year, month, day.
pub open spec fn spec_date8(p: ClockParts) -> Seq<char> {
    spec_year4(p.year as int) + spec_decimal2(p.month as nat) + spec_decimal2(p.day as nat)
}

/// The six-digit time field: hour, minute, second.
pub open spec fn spec_time6(p: ClockParts) -> Seq<char> {
    spec_decimal2(p.hour as nat) + spec_decimal2(p.minute as nat) + spec_decimal2(p.second as nat)
}

/// A backup file's name: the stem, an underscore, the date, an
/// underscore, the time, a dot, the extension.
pub open spec fn spec_backup_file_name(stem: Seq<char>, ext: Seq<char>, p: ClockParts) -> Seq<
    char,
> {
    stem + seq!['_'] + spec_date8(p) + seq!['_'] + spec_time6(p) + seq!['.'] + ext
}

/// The compact fourteen-digit stamp used inside generated archive file
/// names.
pub open spec fn spec_compact_stamp(p: ClockParts) -> Seq<char> {
    spec_date8(p) + spec_time6(p)
}

fn year4(y: i32) -> (r: String)
    ensures
        r@ == spec_year4(y as int),
{
    if y >= 0 {
        let r = u64_to_string4(y as u64);
        proof {
            assert((y as u64) as nat == y as int as nat);
        }
        r
    } else {
        proof {
            reveal_strlit("0000");
        }
        let r = String::from_str("0000");
        proof {
            assert(r@ =~= seq!['0', '0', '0', '0']);
        }
        r
    }
}

fn date8(p: &ClockParts) -> (r: String)
    ensures
        r@ == spec_date8(*p),
{
    let mut s = year4(p.year);
    let mo = u64_to_string2(p.month as u64);
    let d = u64_to_string2(p.day as u64);
    s.append(mo.as_str());
    s.append(d.as_str());
    proof {
        assert(s@ =~= spec_date8(*p));
    }
    s
}

fn time6(p: &ClockParts) -> (r: String)
    ensures
        r@ == spec_time6(*p),
{
    let mut s = u64_to_string2(p.hour as u64);
    let mi = u64_to_string2(p.minute as u64);
    let sec = u64_to_string2(p.second as u64);
    s.append(mi.as_str());
    s.append(sec.as_str());
    proof {
        assert(s@ =~= spec_time6(*p));
    }
    s
}

/// The timestamped name a new backup file gets.
pub fn backup_file_name(stem: &str, ext: &str, p: &ClockParts) -> (r: String)
    ensures
        r@ == spec_backup_file_name(stem@, ext@, *p),
{
    let mut s = String::from_str(stem);
    proof {
        reveal_strlit("_");
        reveal_strlit(".");
    }
    s.append("_");
    let d = date8(p);
    s.append(d.as_str());
    s.append("_");
    let t = time6(p);
    s.append(t.as_str());
    s.append(".");
    s.append(ext);
    proof {
        assert(s@ =~= spec_backup_file_name(stem@, ext@, *p));
    }
    s
}

/// The compact stamp used inside generated archive file names.
pub fn compact_stamp(p: &ClockParts) -> (r: String)
    ensures
        r@ == spec_compact_stamp(*p),
{
    let mut s = date8(p);
    let t = time6(p);
    s.append(t.as_str());
    proof {
        assert(s@ =~= spec_compact_stamp(*p));
    }
    s
}

/// Whether a directory entry's name has the shape of a backup of the
/// store file: the stem, an underscore, anything, a dot, the extension.
pub fn matches_backup_name(name: &str, stem: &str, ext: &str) -> (r: bool)
    ensures
        r == (spec_starts_with(name@, stem@ + seq!['_']) && spec_ends_with(
            name@,
            seq!['.'] + ext@,
        )),
{
    proof {
        reveal_strlit("_");
        reveal_strlit(".");
    }
    let mut prefix = String::from_str(stem);
    prefix.append("_");
    let mut suffix = String::from_str(".");
    suffix.append(ext);
    let r = str_starts_with(name, prefix.as_str()) && str_ends_with(name, suffix.as_str());
    proof {
        assert(prefix@ =~= stem@ + seq!['_']);
        assert(suffix@ =~= seq!['.'] + ext@);
    }
    r
}

/// One backup file found in the backup directory: its name and its
/// modification time, as seconds (or any monotone unit) chosen by the
/// caller.
#[derive(Debug, Clone)]
pub struct BackupEntry {
    pub name: String,
    pub modified: u64,
}

/// The ghost value of a `BackupEntry`.
pub ghost struct BackupEntryView {
    pub name: Seq<char>,
    pub modified: u64,
}

impl View for BackupEntry {
    type V = BackupEntryView;

    open spec fn view(&self) -> BackupEntryView {
        BackupEntryView { name: self.name@, modified: self.modified }
    }
}

impl DeepView for BackupEntry {
    type V = BackupEntryView;

    open spec fn deep_view(&self) -> BackupEntryView {
        self.view()
    }
}

/// Splits the backup directory's entries into the ones to keep and the
/// ones to delete: when more than the retention count are present, exactly
/// the retention count remain — the most recent by modification time —
/// and all older ones are deleted; otherwise everything is kept. Together
/// the two sides hold exactly the entries given.
pub fn plan_backup_rotation(entries: Vec<BackupEntry>) -> (r: (Vec<BackupEntry>, Vec<BackupEntry>))
    ensures
        r.0.deep_view().to_multiset().add(r.1.deep_view().to_multiset()) == entries.deep_view()
            .to_multiset(),
        entries.deep_view().len() <= BACKUP_RETAIN ==> r.1.deep_view().len() == 0,
        entries.deep_view().len() > BACKUP_RETAIN ==> r.0.deep_view().len() == BACKUP_RETAIN
            && r.1.deep_view().len() == entries.deep_view().len() - BACKUP_RETAIN,
        forall|i: int, j: int|
            0 <= i < r.0.deep_view().len() && 0 <= j < r.1.deep_view().len()
                ==> r.0.deep_view()[i].modified >= r.1.deep_view()[j].modified,
{
    broadcast use vstd::seq_lib::group_to_multiset_ensures;

    let ghost orig = entries.deep_view();
    let mut rest = entries;
    let mut sorted: Vec<BackupEntry> = Vec::new();
    while rest.len() > 0
        invariant
            sorted.deep_view().to_multiset().add(rest.deep_view().to_multiset())
                == orig.to_multiset(),
            forall|i: int, j: int|
                0 <= i < j < sorted.deep_view().len() ==> sorted.deep_view()[i].modified
                    <= sorted.deep_view()[j].modified,
            forall|i: int, j: int|
                0 <= i < sorted.deep_view().len() && 0 <= j < rest.deep_view().len()
                    ==> sorted.deep_view()[i].modified <= rest.deep_view()[j].modified,
        decreases rest@.len(),
    {
        let mut mi: usize = 0;
        let n = rest.len();
        let mut k: usize = 1;
        while k < n
            invariant
                n == rest@.len(),
                mi < k <= n,
                forall|j: int| 0 <= j < k ==> rest.deep_view()[mi as int].modified
                    <= rest.deep_view()[j].modified,
            decreases n - k,
        {
            proof {
                assert(rest.deep_view()[k as int] == rest@[k as int]@);
                assert(rest.deep_view()[mi as int] == rest@[mi as int]@);
            }
            if rest[k].modified < rest[mi].modified {
                mi = k;
            }
            k += 1;
        }
        let ghost rest_before = rest.deep_view();
        let ghost rest_before_raw = rest@;
        let e = rest.remove(mi);
        let ghost sorted_before = sorted.deep_view();
        sorted.push(e);
        proof {
            assert forall|j: int| 0 <= j < rest_before_raw.len() implies #[trigger] rest_before[j]
                == rest_before_raw[j]@ by {}
            assert(e@ == rest_before[mi as int]);
            assert forall|j: int| 0 <= j < rest@.len() implies #[trigger] rest.deep_view()[j]
                == rest@[j]@ by {}
            assert(rest.deep_view() =~= rest_before.remove(mi as int));
            assert forall|j: int| 0 <= j < sorted@.len() implies #[trigger] sorted.deep_view()[j]
                == sorted@[j]@ by {}
            assert(sorted.deep_view() =~= sorted_before.push(e@));
            vstd::seq_lib::to_multiset_build(sorted_before, e@);
            vstd::seq_lib::to_multiset_remove(rest_before, mi as int);
            assert(sorted.deep_view().to_multiset() == sorted_before.to_multiset().insert(e@));
            assert(rest.deep_view().to_multiset() == rest_before.to_multiset().remove(e@));
            vstd::seq_lib::to_multiset_contains(rest_before, e@);
            assert(rest_before.contains(e@)) by {
                assert(rest_before[mi as int] == e@);
            }
            assert(rest_before.to_multiset().count(e@) > 0);
            assert(sorted.deep_view().to_multiset().add(rest.deep_view().to_multiset())
                =~= orig.to_multiset());
            assert forall|i: int, j: int|
                0 <= i < sorted.deep_view().len() && 0 <= j < rest.deep_view().len() implies
                sorted.deep_view()[i].modified <= rest.deep_view()[j].modified by {
                let j2: int = if j < mi as int {
                    j
                } else {
                    j + 1
                };
                assert(rest.deep_view()[j] == rest_before[j2]);
                if i < sorted_before.len() {
                    assert(sorted.deep_view()[i] == sorted_before[i]);
                } else {
                    assert(sorted.deep_view()[i] == e@);
                    assert(e@.modified <= rest_before[j2].modified);
                }
            }
        }
    }
    // the oldest entries beyond the retention count are deleted
    let total = sorted.len();
    let cut = if total > BACKUP_RETAIN {
        total - BACKUP_RETAIN
    } else {
        0
    };
    let mut removed: Vec<BackupEntry> = Vec::new();
    let mut kept: Vec<BackupEntry> = Vec::new();
    let mut i: usize = 0;
    while i < cut
        invariant
            cut <= total == sorted@.len(),
            i <= cut,
            removed@.len() == i,
            forall|j: int| 0 <= j < i ==> removed.deep_view()[j] == sorted.deep_view()[j],
        decreases cut - i,
    {
        removed.push(sorted[i].clone_entry());
        proof {
            assert forall|j: int| 0 <= j < removed@.len() implies #[trigger] removed.deep_view()[j]
                == removed@[j]@ by {}
            assert forall|j: int| 0 <= j < sorted@.len() implies #[trigger] sorted.deep_view()[j]
                == sorted@[j]@ by {}
        }
        i += 1;
    }
    let mut i2: usize = cut;
    while i2 < total
        invariant
            cut <= total == sorted@.len(),
            cut <= i2 <= total,
            kept@.len() == i2 - cut,
            forall|j: int| 0 <= j < i2 - cut ==> kept.deep_view()[j] == sorted.deep_view()[cut
                + j],
        decreases total - i2,
    {
        let ghost kept_before = kept.deep_view();
        let ghost kept_before_raw = kept@;
        kept.push(sorted[i2].clone_entry());
        proof {
            assert forall|j: int| 0 <= j < kept_before_raw.len() implies #[trigger] kept_before[j]
                == kept_before_raw[j]@ by {}
            assert forall|j: int| 0 <= j < kept@.len() implies #[trigger] kept.deep_view()[j]
                == kept@[j]@ by {}
            assert forall|j: int| 0 <= j < sorted@.len() implies #[trigger] sorted.deep_view()[j]
                == sorted@[j]@ by {}
            assert forall|j: int| 0 <= j < i2 + 1 - cut implies kept.deep_view()[j]
                == sorted.deep_view()[cut + j] by {
                if j < i2 - cut {
                    assert(kept.deep_view()[j] == kept_before[j]);
                } else {
                    assert(kept.deep_view()[j] == sorted@[i2 as int]@);
                }
            }
        }
        i2 += 1;
    }
    proof {
        assert(removed.deep_view() =~= sorted.deep_view().take(cut as int));
        assert(kept.deep_view() =~= sorted.deep_view().skip(cut as int));
        assert(sorted.deep_view().take(cut as int) + sorted.deep_view().skip(cut as int)
            =~= sorted.deep_view());
        vstd::seq_lib::lemma_multiset_commutative(
            sorted.deep_view().take(cut as int),
            sorted.deep_view().skip(cut as int),
        );
        vstd::seq_lib::lemma_multiset_commutative(
            sorted.deep_view().skip(cut as int),
            sorted.deep_view().take(cut as int),
        );
        assert(kept.deep_view().to_multiset().add(removed.deep_view().to_multiset())
            =~= sorted.deep_view().to_multiset());
        vstd::seq_lib::to_multiset_len(rest.deep_view());
        vstd::seq_lib::to_multiset_len(sorted.deep_view());
        vstd::seq_lib::to_multiset_len(orig);
        assert(rest.deep_view().len() == 0) by {
            assert forall|j: int| 0 <= j < rest@.len() implies #[trigger] rest.deep_view()[j]
                == rest@[j]@ by {}
        }
        assert(rest.deep_view().to_multiset().len() == 0);
        assert(sorted.deep_view().to_multiset() =~= orig.to_multiset());
        assert(sorted.deep_view().len() == orig.len());
        assert(kept.deep_view().len() == total - cut);
        assert(removed.deep_view().len() == cut);
    }
    (kept, removed)
}

impl BackupEntry {
    /// A field-by-field copy of this entry, equal to it.
    pub fn clone_entry(&self) -> (r: BackupEntry)
        ensures
            r@ == self@,
    {
        BackupEntry { name: self.name.clone(), modified: self.modified }
    }
}

/// The number of backup files after a number of startup cycles, starting
/// from `start` files: each cycle copies one new backup into the
/// directory, then the rotation keeps at most the retention count.
pub open spec fn spec_cycle_count(start: nat, cycles: nat) -> nat
    decreases cycles,
{
    if cycles == 0 {
        start
    } else {
        let grown = spec_cycle_count(start, (cycles - 1) as nat) + 1;
        if grown > BACKUP_RETAIN {
            BACKUP_RETAIN as nat
        } else {
            grown
        }
    }
}

/// The convergence law of backup rotation: after at least five startup
/// cycles, exactly five backup files remain, however many were present at
/// the start — and `plan_backup_rotation` keeps exactly the five most
/// recent of them.
pub proof fn lemma_backup_rotation_converges(start: nat, cycles: nat)
    requires
        cycles >= BACKUP_RETAIN,
    ensures
        spec_cycle_count(start, cycles) == BACKUP_RETAIN,
    decreases cycles,
{
    if cycles == BACKUP_RETAIN {
        lemma_cycle_count_min(start, cycles);
    } else {
        lemma_backup_rotation_converges(start, (cycles - 1) as nat);
    }
}

/// After any cycles at all, the count is the lesser of the retention
/// count and the starting count plus the cycles run.
proof fn lemma_cycle_count_min(start: nat, cycles: nat)
    requires
        cycles >= 1,
    ensures
        spec_cycle_count(start, cycles) == if start + cycles > BACKUP_RETAIN {
            BACKUP_RETAIN as nat
        } else {
            (start + cycles) as nat
        },
    decreases cycles,
{
    if cycles > 1 {
        lemma_cycle_count_min(start, (cycles - 1) as nat);
    } else {
        assert(spec_cycle_count(start, 0) == start);
    }
}

} // verus!
