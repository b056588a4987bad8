//! Keeping the history index and the managed export directory in step: which saved files the
//! history may remember, marking entries deleted, and removing the files of deleted entries
//! before their entries are compacted away. Removing files and saving the index happen
//! outside; the caller reports what each removal did.

use crate::export_job::{last_component, name_extension};
use crate::history::{HistoryEntry, HistoryEntryState, HistoryEntryView};
use crate::history_store::entry_views;
use crate::hotkey::join_relative;
use crate::model::ImageId;
use crate::scan::views_of;
use crate::text::{chars_equal, chars_of, push_text};
use vstd::prelude::*;

verus! {

/// A file name that may stand for a managed history file: one path component, no separator of
/// either kind, with the extension `png`.
pub open spec fn managed_name(name: Seq<char>) -> bool {
    &&& name.len() > 0
    &&& forall|i: int| 0 <= i < name.len() ==> name[i] != '/' && name[i] != '\\'
    &&& name_extension(name) == Some("png"@)
}

fn png_extension(name: &Vec<char>) -> (b: bool)
    ensures
        b == (name_extension(name@) == Some("png"@)),
{
    let n = name.len();
    let mut k: usize = 0;
    let ghost rev = name@.reverse();
    while k < n && name[n - 1 - k] != '.'
        invariant
            k <= n == name@.len(),
            rev == name@.reverse(),
            crate::scan::find_from(rev, '.', 0) == crate::scan::find_from(rev, '.', k as int),
        decreases n - k,
    {
        assert(rev[k as int] == name@[n - 1 - k]);
        k += 1;
    }
    if k < n {
        assert(rev[k as int] == name@[n - 1 - k]);
    }
    assert(crate::scan::find_from(rev, '.', k as int) == k);
    if chars_equal(name, &chars_of("..")) || k >= n || k == n - 1 {
        return false;
    }
    let mut ext: Vec<char> = Vec::new();
    let mut i: usize = n - k;
    while i < n
        invariant
            k < n,
            n - k <= i <= n == name@.len(),
            ext@ == name@.subrange(n - k, i as int),
        decreases n - i,
    {
        ext.push(name[i]);
        assert(ext@ =~= name@.subrange(n - k, i + 1));
        i += 1;
    }
    chars_equal(&ext, &chars_of("png"))
}

fn is_managed_name(name: &Vec<char>) -> (b: bool)
    ensures
        b == managed_name(name@),
{
    if name.len() == 0 {
        return false;
    }
    let mut i: usize = 0;
    while i < name.len()
        invariant
            i <= name@.len(),
            forall|k: int| 0 <= k < i ==> name@[k] != '/' && name@[k] != '\\',
        decreases name@.len() - i,
    {
        if name[i] == '/' || name[i] == '\\' {
            return false;
        }
        i += 1;
    }
    png_extension(name)
}

fn join_path(base: &str, rel: &str) -> (p: String)
    ensures
        p@ == join_relative(base@, rel@),
{
    let mut p = String::new();
    push_text(&mut p, base);
    let n = base.unicode_len();
    if n > 0 && base.get_char(n - 1) != '/' {
        push_text(&mut p, "/");
        proof {
            reveal_strlit("/");
        }
    }
    push_text(&mut p, rel);
    assert(p@ =~= join_relative(base@, rel@));
    p
}

/// The path of a history file below the managed export directory, where its name is one the
/// history may hold.
pub fn managed_history_png_path(export_dir: &str, file_name: &str) -> (p: Option<String>)
    ensures
        managed_name(file_name@) ==> (p matches Some(path) && path@ == join_relative(
            export_dir@,
            file_name@,
        )),
        !managed_name(file_name@) ==> p is None,
{
    if !is_managed_name(&chars_of(file_name)) {
        return None;
    }
    Some(join_path(export_dir, file_name))
}

/// The file name under which a saved file enters the history: the path's last component,
/// where the path is exactly that name joined to the managed export directory and the name
/// has the extension `png`. Paths are compared as text.
pub open spec fn managed_file_of(export_dir: Seq<char>, path: Seq<char>) -> Option<Seq<char>> {
    let name = last_component(path);
    if name.len() > 0 && name != "."@ && name != ".."@ && path == join_relative(export_dir, name)
        && name_extension(name) == Some("png"@) {
        Some(name)
    } else {
        None
    }
}

fn last_name(path: &Vec<char>) -> (name: Vec<char>)
    ensures
        name@ == last_component(path@),
{
    let mut start: usize = path.len();
    while start > 0 && path[start - 1] != '/'
        invariant
            start <= path@.len(),
            forall|k: int| start <= k < path@.len() ==> path@[k] != '/',
        decreases start,
    {
        start -= 1;
    }
    proof {
        lemma_last_component(path@, start as int);
    }
    crate::scan::slice_chars(path, start, path.len())
}

proof fn lemma_last_component(path: Seq<char>, start: int)
    requires
        0 <= start <= path.len(),
        forall|k: int| start <= k < path.len() ==> path[k] != '/',
        start == 0 || path[start - 1] == '/',
    ensures
        last_component(path) == path.subrange(start, path.len() as int),
    decreases path.len(),
{
    if path.len() == start {
        if path.len() > 0 {
            assert(path.last() == '/');
        }
        assert(path.subrange(start, path.len() as int) =~= Seq::<char>::empty());
    } else {
        let shorter = path.drop_last();
        assert forall|k: int| start <= k < shorter.len() implies shorter[k] != '/' by {
            assert(shorter[k] == path[k]);
        }
        if start > 0 {
            assert(shorter[start - 1] == path[start - 1]);
        }
        lemma_last_component(shorter, start);
        assert(path.subrange(start, path.len() as int) =~= shorter.subrange(
            start,
            shorter.len() as int,
        ).push(path.last()));
    }
}

/// The history file name of a file saved at `path`, if the save landed directly in the
/// managed export directory as a PNG.
pub fn managed_png_file_name(export_dir: &str, path: &str) -> (name: Option<String>)
    ensures
        match managed_file_of(export_dir@, path@) {
            Some(n) => name matches Some(s) && s@ == n,
            None => name is None,
        },
{
    let name = last_name(&chars_of(path));
    if name.len() == 0 || chars_equal(&name, &chars_of(".")) || chars_equal(
        &name,
        &chars_of(".."),
    ) {
        return None;
    }
    let text = crate::scan::string_of(&name);
    let joined = join_path(export_dir, text.as_str());
    if !chars_equal(&chars_of(joined.as_str()), &chars_of(path)) {
        return None;
    }
    if !png_extension(&name) {
        return None;
    }
    Some(text)
}

/// The entries with the first active entry for `id` turned into a tombstone.
pub open spec fn first_active_with(es: Seq<HistoryEntryView>, id: u64) -> Option<int> {
    if exists|i: int|
        0 <= i < es.len() && es[i].image_id == id && es[i].state == HistoryEntryState::Active {
        Some(
            choose|i: int|
                0 <= i < es.len() && es[i].image_id == id && es[i].state
                    == HistoryEntryState::Active && forall|j: int|
                    0 <= j < i ==> !(es[j].image_id == id && es[j].state
                        == HistoryEntryState::Active),
        )
    } else {
        None
    }
}

proof fn lemma_first_active(es: Seq<HistoryEntryView>, id: u64, i: int)
    requires
        0 <= i < es.len(),
        es[i].image_id == id && es[i].state == HistoryEntryState::Active,
        forall|j: int| 0 <= j < i ==> !(es[j].image_id == id && es[j].state == HistoryEntryState::Active),
    ensures
        first_active_with(es, id) == Some(i),
{
    let c = choose|c: int|
        0 <= c < es.len() && es[c].image_id == id && es[c].state == HistoryEntryState::Active
            && forall|j: int|
            0 <= j < c ==> !(es[j].image_id == id && es[j].state == HistoryEntryState::Active);
    assert(0 <= c < es.len() && es[c].image_id == id && es[c].state == HistoryEntryState::Active
        && forall|j: int|
        0 <= j < c ==> !(es[j].image_id == id && es[j].state == HistoryEntryState::Active));
    if c < i {
    } else if c > i {
    }
}

pub open spec fn tombstoned(e: HistoryEntryView) -> HistoryEntryView {
    HistoryEntryView { state: HistoryEntryState::Tombstone, ..e }
}

fn copy_entry(e: &HistoryEntry) -> (c: HistoryEntry)
    ensures
        c@ == e@,
{
    HistoryEntry {
        image_id: e.image_id,
        generation: e.generation,
        created_at_ms: e.created_at_ms,
        display: e.display.clone(),
        source_rect: e.source_rect,
        file_name: e.file_name.clone(),
        byte_len: e.byte_len,
        digest: e.digest,
        ocr: e.ocr,
        state: e.state,
    }
}

/// Marks the first active entry of `image_id` deleted; `None`, and no change, where there is
/// none. Its file stays until a cleanup removes it.
pub fn mark_deleted(entries: &mut Vec<HistoryEntry>, image_id: ImageId) -> (r: Option<usize>)
    ensures
        first_active_with(entry_views(old(entries)@), image_id.raw) is None ==> r is None
            && final(entries)@ == old(entries)@,
        first_active_with(entry_views(old(entries)@), image_id.raw) matches Some(i) ==> (r == Some(
            i as usize,
        ) && entry_views(final(entries)@) == entry_views(old(entries)@).update(
            i,
            tombstoned(entry_views(old(entries)@)[i]),
        )),
{
    let ghost es = entry_views(entries@);
    let mut i: usize = 0;
    while i < entries.len()
        invariant
            i <= entries@.len(),
            es == entry_views(entries@),
            entries@ == old(entries)@,
            forall|j: int|
                0 <= j < i ==> !(es[j].image_id == image_id.raw && es[j].state
                    == HistoryEntryState::Active),
        decreases entries@.len() - i,
    {
        if entries[i].image_id.raw == image_id.raw && entries[i].is_active() {
            proof {
                lemma_first_active(es, image_id.raw, i as int);
            }
            let mut e = copy_entry(&entries[i]);
            assert(e@ == entries@[i as int]@);
            e.state = HistoryEntryState::Tombstone;
            entries.set(i, e);
            assert(es[i as int].image_id == image_id.raw);
            assert(entry_views(entries@) =~= es.update(i as int, tombstoned(es[i as int])));
            return Some(i);
        }
        i += 1;
    }
    assert(first_active_with(es, image_id.raw) is None);
    None
}

/// Marks every active entry deleted; returns how many there were.
pub fn mark_all_deleted(entries: &mut Vec<HistoryEntry>) -> (n: usize)
    ensures
        entry_views(final(entries)@) == entry_views(old(entries)@).map_values(
            |e: HistoryEntryView| tombstoned(e),
        ),
        n == count_active(entry_views(old(entries)@)),
{
    let ghost es = entry_views(entries@);
    let mut n: usize = 0;
    let mut i: usize = 0;
    while i < entries.len()
        invariant
            i <= entries@.len() == es.len(),
            n <= i,
            n == count_active(es.subrange(0, i as int)),
            forall|j: int| 0 <= j < i ==> entries@[j]@ == tombstoned(es[j]),
            forall|j: int| i <= j < entries@.len() ==> entries@[j]@ == es[j],
        decreases entries@.len() - i,
    {
        let active = entries[i].is_active();
        let mut e = copy_entry(&entries[i]);
        assert(e@ == es[i as int]);
        e.state = HistoryEntryState::Tombstone;
        entries.set(i, e);
        assert(es.subrange(0, i + 1).drop_last() =~= es.subrange(0, i as int));
        if active {
            n += 1;
        }
        i += 1;
    }
    assert(es.subrange(0, es.len() as int) =~= es);
    assert(entry_views(entries@) =~= es.map_values(|e: HistoryEntryView| tombstoned(e)));
    n
}

pub open spec fn count_active(es: Seq<HistoryEntryView>) -> nat
    decreases es.len(),
{
    if es.len() == 0 {
        0
    } else {
        count_active(es.drop_last()) + if es.last().state == HistoryEntryState::Active {
            1nat
        } else {
            0nat
        }
    }
}

/// What a cleanup does with one deleted file name.
#[derive(Debug, Clone, PartialEq, Eq)]
pub enum CleanupAction {
    /// An active entry still uses the name: the file stays.
    Protected,
    /// The name cannot stand for a managed file: nothing is touched.
    Unmanaged,
    /// Remove the file at this path.
    Remove(String),
}

/// One deleted file name and what happens to it.
#[derive(Debug, Clone, PartialEq, Eq)]
pub struct CleanupStep {
    pub file_name: String,
    pub action: CleanupAction,
}

pub open spec fn name_in(es: Seq<HistoryEntryView>, name: Seq<char>, active: bool) -> bool {
    exists|i: int|
        0 <= i < es.len() && es[i].file_name == name && (es[i].state == HistoryEntryState::Active)
            == active
}

/// The distinct file names of the deleted entries among the first `n`, in order of first
/// appearance.
pub open spec fn deleted_names(es: Seq<HistoryEntryView>, n: int) -> Seq<Seq<char>>
    decreases n,
{
    if n <= 0 {
        Seq::empty()
    } else {
        let before = deleted_names(es, n - 1);
        let e = es[n - 1];
        if e.state == HistoryEntryState::Tombstone && !before.contains(e.file_name) {
            before.push(e.file_name)
        } else {
            before
        }
    }
}

pub open spec fn step_action(es: Seq<HistoryEntryView>, export_dir: Seq<char>, name: Seq<char>) -> Option<
    Option<Seq<char>>,
> {
    if name_in(es, name, true) {
        None
    } else if !managed_name(name) {
        Some(None)
    } else {
        Some(Some(join_relative(export_dir, name)))
    }
}

pub open spec fn step_matches(
    s: CleanupStep,
    es: Seq<HistoryEntryView>,
    export_dir: Seq<char>,
    name: Seq<char>,
) -> bool {
    &&& s.file_name@ == name
    &&& match step_action(es, export_dir, name) {
        None => s.action == CleanupAction::Protected,
        Some(None) => s.action == CleanupAction::Unmanaged,
        Some(Some(p)) => s.action matches CleanupAction::Remove(q) && q@ == p,
    }
}

fn contains_text(list: &Vec<Vec<char>>, name: &Vec<char>) -> (b: bool)
    ensures
        b == views_of(list@).contains(name@),
{
    let mut i: usize = 0;
    while i < list.len()
        invariant
            i <= list@.len(),
            forall|k: int| 0 <= k < i ==> list@[k]@ != name@,
        decreases list@.len() - i,
    {
        if chars_equal(&list[i], name) {
            assert(views_of(list@)[i as int] == name@);
            return true;
        }
        i += 1;
    }
    assert(!views_of(list@).contains(name@)) by {
        if views_of(list@).contains(name@) {
            let k = choose|k: int|
                0 <= k < list@.len() && #[trigger] views_of(list@)[k] == name@;
            assert(list@[k]@ != name@);
        }
    }
    false
}

fn has_active_named(entries: &Vec<HistoryEntry>, name: &Vec<char>) -> (b: bool)
    ensures
        b == name_in(entry_views(entries@), name@, true),
{
    let ghost es = entry_views(entries@);
    let mut i: usize = 0;
    while i < entries.len()
        invariant
            i <= entries@.len(),
            es == entry_views(entries@),
            forall|k: int| 0 <= k < i ==> !(es[k].file_name == name@ && es[k].state
                == HistoryEntryState::Active),
        decreases entries@.len() - i,
    {
        if entries[i].is_active() && chars_equal(&chars_of(entries[i].file_name.as_str()), name) {
            assert(es[i as int].file_name == name@);
            return true;
        }
        i += 1;
    }
    false
}

/// What a cleanup of the deleted entries does, one step per distinct deleted file name, in
/// order: names still used by an active entry are protected, names that cannot be managed
/// files are left alone, and the rest are removed from the export directory.
pub fn plan_cleanup(entries: &Vec<HistoryEntry>, export_dir: &str) -> (steps: Vec<CleanupStep>)
    ensures
        ({
            let es = entry_views(entries@);
            let names = deleted_names(es, es.len() as int);
            &&& steps@.len() == names.len()
            &&& forall|k: int|
                0 <= k < steps@.len() ==> step_matches(#[trigger] steps@[k], es, export_dir@, names[k])
        }),
{
    let ghost es = entry_views(entries@);
    let mut seen: Vec<Vec<char>> = Vec::new();
    let mut steps: Vec<CleanupStep> = Vec::new();
    let mut i: usize = 0;
    while i < entries.len()
        invariant
            i <= entries@.len(),
            es == entry_views(entries@),
            views_of(seen@) == deleted_names(es, i as int),
            steps@.len() == seen@.len(),
            forall|k: int|
                0 <= k < steps@.len() ==> step_matches(
                    #[trigger] steps@[k],
                    es,
                    export_dir@,
                    deleted_names(es, i as int)[k],
                ),
        decreases entries@.len() - i,
    {
        let e = &entries[i];
        let name = chars_of(e.file_name.as_str());
        assert(es[i as int].file_name == name@);
        if !e.is_active() && !contains_text(&seen, &name) {
            let action = if has_active_named(entries, &name) {
                CleanupAction::Protected
            } else {
                match managed_history_png_path(export_dir, e.file_name.as_str()) {
                    Some(path) => CleanupAction::Remove(path),
                    None => CleanupAction::Unmanaged,
                }
            };
            let ghost before = views_of(seen@);
            let ghost old_steps = steps@;
            steps.push(CleanupStep { file_name: e.file_name.clone(), action });
            seen.push(name);
            assert(views_of(seen@) =~= before.push(es[i as int].file_name));
            assert forall|k: int| 0 <= k < steps@.len() implies step_matches(
                #[trigger] steps@[k],
                es,
                export_dir@,
                deleted_names(es, i + 1)[k],
            ) by {
                if k < old_steps.len() {
                    assert(steps@[k] == old_steps[k]);
                }
            }
        }
        i += 1;
    }
    steps
}

/// What removing one file did.
#[derive(Debug, Clone, Copy, PartialEq, Eq, Structural)]
pub enum RemovalOutcome {
    /// The file was removed.
    Removed,
    /// There was no file.
    Missing,
    /// The path holds something that is not a file, or the removal failed.
    Failed,
}

/// The tally of a cleanup.
#[derive(Debug, Default, Clone, Copy, PartialEq, Eq, Structural)]
pub struct HistoryCleanup {
    pub removed_files: usize,
    pub missing_files: usize,
    pub protected_files: usize,
    pub failed_files: usize,
    pub compacted_entries: usize,
}

pub open spec fn step_kind(s: CleanupStep, o: RemovalOutcome) -> int {
    match s.action {
        CleanupAction::Protected => 2,
        CleanupAction::Unmanaged => 3,
        CleanupAction::Remove(_) => match o {
            RemovalOutcome::Removed => 0,
            RemovalOutcome::Missing => 1,
            RemovalOutcome::Failed => 3,
        },
    }
}

/// How many of the first `n` steps ended as `kind` (0 removed, 1 missing, 2 protected,
/// 3 failed).
pub open spec fn count_kind(steps: Seq<CleanupStep>, outcomes: Seq<RemovalOutcome>, n: int, kind: int) -> nat
    decreases n,
{
    if n <= 0 {
        0
    } else {
        count_kind(steps, outcomes, n - 1, kind) + if step_kind(steps[n - 1], outcomes[n - 1])
            == kind {
            1nat
        } else {
            0nat
        }
    }
}

/// The names whose file is gone: removed now, or already missing.
pub open spec fn completed(steps: Seq<CleanupStep>, outcomes: Seq<RemovalOutcome>, name: Seq<char>) -> bool {
    exists|k: int|
        0 <= k < steps.len() && steps[k].file_name@ == name && (step_kind(steps[k], outcomes[k])
            == 0 || step_kind(steps[k], outcomes[k]) == 1)
}

/// An entry that a cleanup compacts away: deleted, and its file is gone.
pub open spec fn compacted_away(
    e: HistoryEntryView,
    steps: Seq<CleanupStep>,
    outcomes: Seq<RemovalOutcome>,
) -> bool {
    e.state == HistoryEntryState::Tombstone && completed(steps, outcomes, e.file_name)
}

/// The entries that remain after compaction, in order.
pub open spec fn kept_entries(
    es: Seq<HistoryEntryView>,
    steps: Seq<CleanupStep>,
    outcomes: Seq<RemovalOutcome>,
) -> Seq<HistoryEntryView>
    decreases es.len(),
{
    if es.len() == 0 {
        Seq::empty()
    } else {
        let before = kept_entries(es.drop_last(), steps, outcomes);
        if compacted_away(es.last(), steps, outcomes) {
            before
        } else {
            before.push(es.last())
        }
    }
}

/// The active entries of `es`, in order.
pub open spec fn actives(es: Seq<HistoryEntryView>) -> Seq<HistoryEntryView>
    decreases es.len(),
{
    if es.len() == 0 {
        Seq::empty()
    } else if es.last().state == HistoryEntryState::Active {
        actives(es.drop_last()).push(es.last())
    } else {
        actives(es.drop_last())
    }
}

/// A cleanup never drops an active entry: the active entries after it are those before it,
/// in the same order, whatever the removals did.
pub proof fn cleanup_keeps_active_entries(
    es: Seq<HistoryEntryView>,
    steps: Seq<CleanupStep>,
    outcomes: Seq<RemovalOutcome>,
)
    ensures
        actives(kept_entries(es, steps, outcomes)) == actives(es),
    decreases es.len(),
{
    if es.len() > 0 {
        cleanup_keeps_active_entries(es.drop_last(), steps, outcomes);
        let before = kept_entries(es.drop_last(), steps, outcomes);
        if !compacted_away(es.last(), steps, outcomes) {
            assert(before.push(es.last()).drop_last() =~= before);
        }
    }
}

/// A deleted entry stays in the index while its file could not be removed.
pub proof fn failed_removal_keeps_the_tombstone(
    es: Seq<HistoryEntryView>,
    steps: Seq<CleanupStep>,
    outcomes: Seq<RemovalOutcome>,
    i: int,
)
    requires
        0 <= i < es.len(),
        !completed(steps, outcomes, es[i].file_name),
    ensures
        kept_entries(es, steps, outcomes).contains(es[i]),
    decreases es.len(),
{
    let before = kept_entries(es.drop_last(), steps, outcomes);
    if i < es.len() - 1 {
        failed_removal_keeps_the_tombstone(es.drop_last(), steps, outcomes, i);
        assert(es.drop_last()[i] == es[i]);
        if !compacted_away(es.last(), steps, outcomes) {
            let j = choose|j: int| 0 <= j < before.len() && before[j] == es[i];
            assert(before.push(es.last())[j] == es[i]);
        }
    } else {
        assert(before.push(es.last())[before.len() as int] == es[i]);
    }
}

fn step_done(steps: &Vec<CleanupStep>, outcomes: &Vec<RemovalOutcome>, name: &Vec<char>) -> (b:
    bool)
    requires
        outcomes@.len() == steps@.len(),
    ensures
        b == completed(steps@, outcomes@, name@),
{
    let mut k: usize = 0;
    while k < steps.len()
        invariant
            k <= steps@.len() == outcomes@.len(),
            forall|j: int|
                0 <= j < k ==> !(steps@[j].file_name@ == name@ && (step_kind(
                    steps@[j],
                    outcomes@[j],
                ) == 0 || step_kind(steps@[j], outcomes@[j]) == 1)),
        decreases steps@.len() - k,
    {
        let gone = match &steps[k].action {
            CleanupAction::Remove(_) => match outcomes[k] {
                RemovalOutcome::Removed => true,
                RemovalOutcome::Missing => true,
                RemovalOutcome::Failed => false,
            },
            _ => false,
        };
        if gone && chars_equal(&chars_of(steps[k].file_name.as_str()), name) {
            return true;
        }
        k += 1;
    }
    false
}

/// Settles a cleanup once the caller has tried each removal (`outcomes[k]` for `steps[k]`;
/// ignored where nothing was to be removed): tallies the steps and drops the deleted entries
/// whose file is gone. The caller saves the index where entries were dropped, and puts the
/// previous entries back if that save fails.
pub fn settle_cleanup(
    entries: &mut Vec<HistoryEntry>,
    steps: &Vec<CleanupStep>,
    outcomes: &Vec<RemovalOutcome>,
) -> (tally: HistoryCleanup)
    requires
        outcomes@.len() == steps@.len(),
    ensures
        tally.removed_files == count_kind(steps@, outcomes@, steps@.len() as int, 0),
        tally.missing_files == count_kind(steps@, outcomes@, steps@.len() as int, 1),
        tally.protected_files == count_kind(steps@, outcomes@, steps@.len() as int, 2),
        tally.failed_files == count_kind(steps@, outcomes@, steps@.len() as int, 3),
        entry_views(final(entries)@) == kept_entries(entry_views(old(entries)@), steps@, outcomes@),
        tally.compacted_entries == old(entries)@.len() - final(entries)@.len(),
{
    let mut tally = HistoryCleanup {
        removed_files: 0,
        missing_files: 0,
        protected_files: 0,
        failed_files: 0,
        compacted_entries: 0,
    };
    let mut k: usize = 0;
    while k < steps.len()
        invariant
            k <= steps@.len() == outcomes@.len(),
            tally.removed_files == count_kind(steps@, outcomes@, k as int, 0),
            tally.missing_files == count_kind(steps@, outcomes@, k as int, 1),
            tally.protected_files == count_kind(steps@, outcomes@, k as int, 2),
            tally.failed_files == count_kind(steps@, outcomes@, k as int, 3),
            tally.removed_files + tally.missing_files + tally.protected_files + tally.failed_files
                == k,
            tally.compacted_entries == 0,
        decreases steps@.len() - k,
    {
        match &steps[k].action {
            CleanupAction::Protected => {
                tally.protected_files += 1;
            },
            CleanupAction::Unmanaged => {
                tally.failed_files += 1;
            },
            CleanupAction::Remove(_) => match outcomes[k] {
                RemovalOutcome::Removed => {
                    tally.removed_files += 1;
                },
                RemovalOutcome::Missing => {
                    tally.missing_files += 1;
                },
                RemovalOutcome::Failed => {
                    tally.failed_files += 1;
                },
            },
        }
        k += 1;
    }
    let ghost es = entry_views(entries@);
    let mut kept: Vec<HistoryEntry> = Vec::new();
    let mut i: usize = 0;
    while i < entries.len()
        invariant
            i <= entries@.len(),
            es == entry_views(entries@),
            kept@.len() <= i,
            entry_views(kept@) == kept_entries(es.subrange(0, i as int), steps@, outcomes@),
            outcomes@.len() == steps@.len(),
        decreases entries@.len() - i,
    {
        let e = &entries[i];
        assert(es.subrange(0, i + 1).drop_last() =~= es.subrange(0, i as int));
        assert(es.subrange(0, i + 1).last() == e@);
        let gone = !e.is_active() && step_done(steps, outcomes, &chars_of(e.file_name.as_str()));
        if !gone {
            let ghost before = kept@;
            kept.push(copy_entry(e));
            assert(entry_views(kept@) =~= entry_views(before).push(e@));
        }
        i += 1;
    }
    assert(es.subrange(0, es.len() as int) =~= es);
    let removed = entries.len() - kept.len();
    tally.compacted_entries = removed;
    *entries = kept;
    tally
}

} // verus!
