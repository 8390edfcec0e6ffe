//! What a run does to the files, where the caller does as it is told and no
//! write or removal fails: the files are a map from path to text, and a run
//! is followed through its stages on that map.

use vstd::prelude::*;
use crate::error::Reason;
use crate::mutate;
use crate::mutate::{
    after_answer, after_backup, after_load, after_overwrite, backup_of, Job, Outcome,
};
use crate::paths::{
    in_mirror, law_backup_lies_under_root, law_restored_path_of_backup, live_path, mirror_root,
    mirrored, no_double_separator, restored,
};
use crate::pattern::substituted;
use crate::restore;
use crate::restore::{
    after_inspection, after_read, after_removal, after_visit, after_write, skipping, Restored,
    Visit, Walk,
};
use crate::text::{contains_ignoring_case, trimmed};

verus! {

/// The files, each path with its text.
pub type Store = Map<Seq<char>, Seq<char>>;

/// The files at the end of a run, and how it ended.
pub struct Run<T> {
    pub store: Store,
    pub end: Result<T, Reason<()>>,
}

/// What reading `path` gives: its text, or a failure where there is no such
/// file.
pub open spec fn read(store: Store, path: Seq<char>) -> Result<Seq<char>, ()> {
    if store.contains_key(path) {
        Ok(store[path])
    } else {
        Err(())
    }
}

/// How many stages may still follow `stage`.
pub open spec fn stages_left(stage: mutate::Stage<()>) -> nat {
    match stage {
        mutate::Stage::Confirm(_) => 3,
        mutate::Stage::Backup(_) => 2,
        mutate::Stage::Overwrite(_) => 1,
        mutate::Stage::Done(_) => 0,
    }
}

/// A replacement followed from `stage` to its end: `answer` is what the user
/// types if asked, and each text that is to be saved is saved.
pub open spec fn replacing_from(stage: mutate::Stage<()>, store: Store, answer: Seq<char>) -> Run<
    Outcome,
>
    decreases stages_left(stage),
{
    match stage {
        mutate::Stage::Confirm(held) => replacing_from(
            after_answer(held, Ok(answer)),
            store,
            answer,
        ),
        mutate::Stage::Backup(held) => replacing_from(
            after_backup(held, Ok(())),
            store.insert(backup_of(held).path, backup_of(held).text),
            answer,
        ),
        mutate::Stage::Overwrite(write) => replacing_from(
            after_overwrite(Ok(())),
            store.insert(write.path, write.text),
            answer,
        ),
        mutate::Stage::Done(end) => Run { store, end },
    }
}

/// The replacement `job` run on `store` from its beginning.
pub open spec fn replacing(store: Store, job: Job, answer: Seq<char>) -> Run<Outcome> {
    replacing_from(after_load(job, read(store, job.path)), store, answer)
}

/// Where the file does not hold the text to replace, whatever the case of
/// either, the run ends well and every file is as it was: no backup is made.
pub proof fn law_no_match_changes_nothing(store: Store, job: Job, answer: Seq<char>)
    requires
        store.contains_key(job.path),
        !contains_ignoring_case(trimmed(store[job.path]), job.old),
    ensures
        replacing(store, job, answer) == (Run { store, end: Ok(Outcome::NoMatch) }),
{
}

/// A run that ends for want of a match, or because the user declined,
/// leaves every file as it was.
pub proof fn law_abort_changes_nothing(store: Store, job: Job, answer: Seq<char>)
    ensures
        replacing(store, job, answer).end == Ok::<Outcome, Reason<()>>(Outcome::NoMatch)
            || replacing(store, job, answer).end == Ok::<Outcome, Reason<()>>(Outcome::Declined)
            ==> replacing(store, job, answer).store == store,
{
    reveal_with_fuel(replacing_from, 4);
}

/// The live file is overwritten only after its backup: no stage asks for it
/// but the one that follows a saved backup.
pub proof fn law_overwrite_follows_backup<E>(
    job: Job,
    read: Result<Seq<char>, E>,
    held: mutate::Held,
    answer: Result<Seq<char>, E>,
    saved: Result<(), E>,
)
    ensures
        !(after_load(job, read) is Overwrite),
        !(after_answer(held, answer) is Overwrite),
        after_backup(held, saved) is Overwrite ==> saved is Ok,
        after_load(job, read) matches mutate::Stage::Backup(h) ==> h.job == job && h.content
            == trimmed(read->Ok_0),
        after_load(job, read) matches mutate::Stage::Confirm(h) ==> h.job == job && h.content
            == trimmed(read->Ok_0),
        after_answer(held, answer) matches mutate::Stage::Backup(h) ==> h == held,
{
}

/// After a run that replaced, the backup holds the text that the file had,
/// trimmed and otherwise unchanged. This needs the backup to lie elsewhere
/// than the file: where the two paths are one, the new text is written over
/// the backup.
pub proof fn law_backup_holds_first_text(store: Store, job: Job, answer: Seq<char>)
    requires
        replacing(store, job, answer).end == Ok::<Outcome, Reason<()>>(Outcome::Replaced),
        mirrored(job.backup_dir, job.path) != job.path,
    ensures
        store.contains_key(job.path),
        replacing(store, job, answer).store.contains_key(mirrored(job.backup_dir, job.path)),
        replacing(store, job, answer).store[mirrored(job.backup_dir, job.path)] == trimmed(
            store[job.path],
        ),
{
    reveal_with_fuel(replacing_from, 4);
}

/// After a run that replaced, the file holds its trimmed text with every
/// match of `old` replaced by `new`, and no file but it and its backup has
/// changed.
pub proof fn law_replaced_file_holds_substitution(store: Store, job: Job, answer: Seq<char>)
    requires
        replacing(store, job, answer).end == Ok::<Outcome, Reason<()>>(Outcome::Replaced),
    ensures
        store.contains_key(job.path),
        replacing(store, job, answer).store.contains_key(job.path),
        replacing(store, job, answer).store[job.path] == substituted(
            job.old,
            trimmed(store[job.path]),
            job.new,
        ),
        forall|other: Seq<char>|
            other != job.path && other != mirrored(job.backup_dir, job.path) ==> (
            #[trigger] replacing(store, job, answer).store.contains_key(other)
                == store.contains_key(other)) && replacing(store, job, answer).store[other]
                == store[other],
{
    reveal_with_fuel(replacing_from, 4);
}

/// What the walk of a mirror comes to, one entry at a time.
pub enum Found {
    /// A regular file, by its path.
    File(Seq<char>),
    /// A directory, or whatever else is no regular file, by its path.
    Other(Seq<char>),
    /// An entry that cannot be inspected, by its path.
    Hidden(Seq<char>),
    /// An entry that the walk cannot read.
    Unreadable,
}

/// `store` without the files below the root of the mirror under
/// `backup_dir`.
pub open spec fn without_mirror(store: Store, backup_dir: Seq<char>) -> Store {
    store.remove_keys(Set::new(|path: Seq<char>| in_mirror(backup_dir, path)))
}

/// What the walk hands over for `found`.
pub open spec fn visit_of(found: Found) -> Visit {
    match found {
        Found::File(entry) | Found::Other(entry) | Found::Hidden(entry) => Visit::Entry(entry),
        Found::Unreadable => Visit::Unreadable,
    }
}

/// What inspecting `found` gives.
pub open spec fn inspection_of(found: Found) -> Result<bool, ()> {
    match found {
        Found::File(_) => Ok(true),
        Found::Other(_) => Ok(false),
        Found::Hidden(_) | Found::Unreadable => Err(()),
    }
}

/// The visit of one entry followed until the walk goes on or the run ends:
/// the stage reached, and the files then.
pub open spec fn visiting(walk: Walk, store: Store, found: Found) -> (restore::Stage<()>, Store) {
    match after_visit::<()>(walk, visit_of(found)) {
        restore::Stage::Inspect(at) => match after_inspection(at, inspection_of(found)) {
            restore::Stage::Read(backup) => match after_read(backup, read(store, backup.entry)) {
                restore::Stage::Write(pending) => (
                    after_write(pending, Ok(())),
                    store.insert(pending.write.path, pending.write.text),
                ),
                stage => (stage, store),
            },
            stage => (stage, store),
        },
        stage => (stage, store),
    }
}

/// A restore followed from a walk that has `finds` before it to its end:
/// each backup is read and written to its live path, and at the end of the
/// walk the mirror is removed.
pub open spec fn restoring_from(walk: Walk, store: Store, finds: Seq<Found>) -> Run<Restored>
    decreases finds.len(),
{
    if finds.len() == 0 {
        match after_visit::<()>(walk, Visit::End) {
            restore::Stage::Remove(mirror) => match after_removal(mirror, Ok(())) {
                restore::Stage::Done(end) => Run {
                    store: without_mirror(store, mirror.backup_dir),
                    end,
                },
                _ => arbitrary(),
            },
            _ => arbitrary(),
        }
    } else {
        match visiting(walk, store, finds.first()) {
            (restore::Stage::Next(next), written) => restoring_from(
                next,
                written,
                finds.drop_first(),
            ),
            (restore::Stage::Done(end), written) => Run { store: written, end },
            _ => arbitrary(),
        }
    }
}

/// The restore of the mirror under `backup_dir` run on `store` from its
/// beginning, the walk coming to `finds` in that order.
pub open spec fn restoring(store: Store, backup_dir: Seq<char>, finds: Seq<Found>) -> Run<
    Restored,
> {
    restoring_from(Walk { backup_dir, skipped: 0 }, store, finds)
}

/// Every regular file among `finds` is a file of `store` below the mirror's
/// root, and the live path it belongs to lies outside the mirror.
pub open spec fn mirror_files(store: Store, backup_dir: Seq<char>, finds: Seq<Found>) -> bool {
    forall|k: int|
        0 <= k < finds.len() ==> (#[trigger] finds[k] matches Found::File(entry) ==> {
            &&& store.contains_key(entry)
            &&& in_mirror(backup_dir, entry)
            &&& !in_mirror(backup_dir, live_path(backup_dir, entry))
        })
}

/// `path` is the live path of a regular file among `finds`.
pub open spec fn is_target(backup_dir: Seq<char>, finds: Seq<Found>, path: Seq<char>) -> bool {
    exists|k: int|
        0 <= k < finds.len() && #[trigger] finds[k] == Found::File(mirror_root(backup_dir) + path)
}

/// How many of `finds` a restore passes over: those that cannot be read or
/// inspected.
pub open spec fn passed_over(finds: Seq<Found>) -> nat
    decreases finds.len(),
{
    if finds.len() == 0 {
        0
    } else {
        let rest = passed_over(finds.drop_first());
        match finds.first() {
            Found::Hidden(_) | Found::Unreadable => rest + 1,
            _ => rest,
        }
    }
}

/// A count as a restore reports it: it stops at `usize::MAX`.
pub open spec fn capped(count: nat) -> usize {
    if count < usize::MAX {
        count as usize
    } else {
        usize::MAX
    }
}

/// `path` is a file of both or of neither, with one text.
pub open spec fn same_at(a: Store, b: Store, path: Seq<char>) -> bool {
    &&& a.contains_key(path) == b.contains_key(path)
    &&& a.contains_key(path) ==> a[path] == b[path]
}

/// A path below the mirror's root begins with that root.
pub proof fn lemma_in_mirror_begins_with_root(backup_dir: Seq<char>, path: Seq<char>)
    requires
        in_mirror(backup_dir, path),
    ensures
        restored(backup_dir, path) == Some(live_path(backup_dir, path)),
        path == mirror_root(backup_dir) + live_path(backup_dir, path),
{
    let root = mirror_root(backup_dir);
    let prefix = root + seq!['/'];
    assert(prefix == path.subrange(0, prefix.len() as int));
    assert(root =~= path.subrange(0, root.len() as int)) by {
        assert forall|i: int| 0 <= i < root.len() implies root[i] == path[i] by {
            assert(prefix[i] == root[i]);
        }
    }
    assert(path =~= root + path.skip(root.len() as int));
}

/// The general form of [`law_restore_writes_back`], from any point of the
/// walk: `store` is the files then, `first` the files at the beginning, and
/// the two agree below the mirror's root.
pub proof fn lemma_restoring_from(walk: Walk, store: Store, finds: Seq<Found>, first: Store)
    requires
        mirror_files(first, walk.backup_dir, finds),
        walk.skipped <= usize::MAX,
        forall|path: Seq<char>|
            in_mirror(walk.backup_dir, path) ==> #[trigger] same_at(store, first, path),
    ensures
        restoring_from(walk, store, finds).end == Ok::<Restored, Reason<()>>(
            Restored { skipped: capped(walk.skipped + passed_over(finds)) },
        ),
        forall|k: int|
            0 <= k < finds.len() ==> (#[trigger] finds[k] matches Found::File(entry) ==> {
                let target = live_path(walk.backup_dir, entry);
                &&& restoring_from(walk, store, finds).store.contains_key(target)
                &&& restoring_from(walk, store, finds).store[target] == trimmed(first[entry])
            }),
        forall|path: Seq<char>|
            in_mirror(walk.backup_dir, path) ==> !(#[trigger] restoring_from(
                walk,
                store,
                finds,
            ).store.contains_key(path)),
        forall|path: Seq<char>|
            !in_mirror(walk.backup_dir, path) && !is_target(walk.backup_dir, finds, path)
                ==> #[trigger] same_at(restoring_from(walk, store, finds).store, store, path),
    decreases finds.len(),
{
    let dir = walk.backup_dir;
    let root = mirror_root(dir);
    let run = restoring_from(walk, store, finds);
    if finds.len() > 0 {
        let rest = finds.drop_first();
        let (stage, written) = visiting(walk, store, finds.first());
        assert(finds.first() == finds[0]);
        let next = match finds.first() {
            Found::Hidden(_) | Found::Unreadable => skipping(walk),
            _ => walk,
        };
        if let Found::File(entry) = finds.first() {
            lemma_in_mirror_begins_with_root(dir, entry);
            assert(same_at(store, first, entry));
            assert(written == store.insert(live_path(dir, entry), trimmed(first[entry])));
        } else {
            assert(written == store);
        }
        assert(stage == restore::Stage::<()>::Next(next));
        assert(run == restoring_from(next, written, rest));
        assert(capped(next.skipped + passed_over(rest)) == capped(
            walk.skipped + passed_over(finds),
        ));
        assert forall|k: int| 0 <= k < rest.len() implies (#[trigger] rest[k] matches Found::File(
            entry,
        ) ==> {
            &&& first.contains_key(entry)
            &&& in_mirror(dir, entry)
            &&& !in_mirror(dir, live_path(dir, entry))
        }) by {
            assert(rest[k] == finds[k + 1]);
        }
        assert forall|path: Seq<char>| in_mirror(dir, path) implies #[trigger] same_at(
            written,
            first,
            path,
        ) by {
            assert(same_at(store, first, path));
        }
        lemma_restoring_from(next, written, rest, first);
        assert forall|k: int| 0 <= k < finds.len() implies (#[trigger] finds[k] matches Found::File(
            entry,
        ) ==> {
            let target = live_path(dir, entry);
            &&& run.store.contains_key(target)
            &&& run.store[target] == trimmed(first[entry])
        }) by {
            if k > 0 {
                assert(finds[k] == rest[k - 1]);
            } else if let Found::File(entry) = finds[0] {
                let target = live_path(dir, entry);
                if !is_target(dir, rest, target) {
                    assert(same_at(run.store, written, target));
                    assert(written.contains_key(target));
                } else {
                    let j = choose|j: int|
                        0 <= j < rest.len() && #[trigger] rest[j] == Found::File(root + target);
                    assert(rest[j] == finds[0]);
                }
            }
        }
        assert forall|path: Seq<char>|
            !in_mirror(dir, path) && !is_target(dir, finds, path) implies #[trigger] same_at(
            run.store,
            store,
            path,
        ) by {
            if let Found::File(entry) = finds[0] {
                assert(path != live_path(dir, entry));
            }
            if is_target(dir, rest, path) {
                let j = choose|j: int|
                    0 <= j < rest.len() && #[trigger] rest[j] == Found::File(root + path);
                assert(rest[j] == finds[j + 1]);
            }
            assert(same_at(run.store, written, path));
        }
    }
}

/// A restore writes every backup back and removes the mirror, whatever
/// else the walk comes to. Where each regular file that the walk finds lies
/// below the mirror's root and is the backup of a path outside the mirror,
/// the run ends well, in whatever order the entries come and however often,
/// and then: each live path holds the trimmed text of its backup; no file is
/// left below the mirror's root; every other file is as it was; and the
/// entries that could not be read or inspected are counted, none of them
/// having stopped the walk.
pub proof fn law_restore_writes_back(store: Store, backup_dir: Seq<char>, finds: Seq<Found>)
    requires
        mirror_files(store, backup_dir, finds),
    ensures
        restoring(store, backup_dir, finds).end == Ok::<Restored, Reason<()>>(
            Restored { skipped: capped(passed_over(finds)) },
        ),
        forall|k: int|
            0 <= k < finds.len() ==> (#[trigger] finds[k] matches Found::File(entry) ==> {
                let target = live_path(backup_dir, entry);
                &&& restored(backup_dir, entry) == Some(target)
                &&& restoring(store, backup_dir, finds).store.contains_key(target)
                &&& restoring(store, backup_dir, finds).store[target] == trimmed(store[entry])
            }),
        forall|path: Seq<char>|
            in_mirror(backup_dir, path) ==> !(#[trigger] restoring(
                store,
                backup_dir,
                finds,
            ).store.contains_key(path)),
        forall|path: Seq<char>|
            !in_mirror(backup_dir, path) && !is_target(backup_dir, finds, path)
                ==> #[trigger] same_at(restoring(store, backup_dir, finds).store, store, path),
{
    lemma_restoring_from(Walk { backup_dir, skipped: 0 }, store, finds, store);
    assert forall|k: int| 0 <= k < finds.len() implies (#[trigger] finds[k] matches Found::File(
        entry,
    ) ==> restored(backup_dir, entry) == Some(live_path(backup_dir, entry))) by {
        if let Found::File(entry) = finds[k] {
            lemma_in_mirror_begins_with_root(backup_dir, entry);
        }
    }
}

/// A text saved as the backup of `path` comes back to `path`, and the mirror
/// is gone. `path` is to begin with a separator and lie outside the mirror,
/// and neither it nor `backup_dir` may hold a doubled separator. What comes
/// back is the text trimmed: the text itself where no whitespace stands
/// around it, as in every backup that a replacement has saved.
pub proof fn law_backup_round_trip(
    store: Store,
    backup_dir: Seq<char>,
    path: Seq<char>,
    text: Seq<char>,
)
    requires
        no_double_separator(backup_dir),
        no_double_separator(path),
        path.len() > 0 && path.first() == '/',
        !in_mirror(backup_dir, path),
    ensures
        ({
            let backup = mirrored(backup_dir, path);
            let run = restoring(store.insert(backup, text), backup_dir, seq![Found::File(backup)]);
            &&& run.end == Ok::<Restored, Reason<()>>(Restored { skipped: 0 })
            &&& run.store.contains_key(path)
            &&& run.store[path] == trimmed(text)
            &&& trimmed(text) == text ==> run.store[path] == text
            &&& forall|other: Seq<char>|
                in_mirror(backup_dir, other) ==> !(#[trigger] run.store.contains_key(other))
        }),
{
    let backup = mirrored(backup_dir, path);
    let saved = store.insert(backup, text);
    let finds = seq![Found::File(backup)];
    law_backup_lies_under_root(backup_dir, path);
    law_restored_path_of_backup(backup_dir, path);
    assert(finds[0] == Found::File(backup));
    reveal_with_fuel(passed_over, 2);
    law_restore_writes_back(saved, backup_dir, finds);
}

} // verus!
