//! Writing every backup in the mirror back to its live path, then removing
//! the mirror.
//!
//! As with a replacement, nothing here reads or writes: each state names one
//! thing for the caller to do and takes what came of it.

use vstd::prelude::*;
use crate::caller::{end_view, text_view, Write};
use crate::error::{Failure, Reason};
use crate::paths::{restored, target_path};
use crate::text::{trim, trimmed};

verus! {

/// What a finished restore reports.
#[derive(Debug, Clone, Copy, PartialEq, Eq, Structural)]
pub struct Restored {
    /// How many entries could not be read or inspected and were passed
    /// over: their backups are not written back.
    /// It stops counting at `usize::MAX`.
    pub skipped: usize,
}

/// What the walk of the mirror came to next.
pub enum Walked {
    /// An entry, by its path.
    Entry(String),
    /// An entry whose path is no text.
    Unnamed,
    /// An entry that could not be read.
    Unreadable,
    /// Nothing: every entry has been visited.
    End,
}

/// The view of a [`Walked`].
pub enum Visit {
    Entry(Seq<char>),
    Unnamed,
    Unreadable,
    End,
}

impl View for Walked {
    type V = Visit;

    open spec fn view(&self) -> Visit {
        match *self {
            Walked::Entry(path) => Visit::Entry(path@),
            Walked::Unnamed => Visit::Unnamed,
            Walked::Unreadable => Visit::Unreadable,
            Walked::End => Visit::End,
        }
    }
}

/// A walk of the mirror under `backup_dir`, `skipped` of whose entries were
/// passed over so far.
pub struct Walk {
    pub backup_dir: Seq<char>,
    pub skipped: nat,
}

/// A walk that stands at the entry `entry`.
pub struct At {
    pub walk: Walk,
    pub entry: Seq<char>,
}

/// A walk that stands at the regular file `entry`, the backup of the live
/// file at `target`.
pub struct Found {
    pub walk: Walk,
    pub entry: Seq<char>,
    pub target: Seq<char>,
}

/// A walk that is about to write a backup's text to its live path.
pub struct Pending {
    pub walk: Walk,
    pub write: Write,
}

/// Where a restore stands: the view of a [`Step`].
pub enum Stage<E> {
    Next(Walk),
    Inspect(At),
    Read(Found),
    Write(Pending),
    Remove(Walk),
    Done(Result<Restored, Reason<E>>),
}

/// A restore that waits for the next entry of the walk.
pub struct Restoration {
    backup_dir: String,
    skipped: usize,
}

/// A restore that waits to learn whether an entry is a regular file.
pub struct Inspection {
    walk: Restoration,
    entry: String,
}

/// A restore that waits for the text of a backup.
pub struct Reading {
    walk: Restoration,
    entry: String,
    target: String,
}

/// A restore that waits for a live file to be written.
pub struct Writing {
    walk: Restoration,
    path: String,
    text: String,
}

/// A restore that waits for the mirror to be removed.
pub struct Removal {
    walk: Restoration,
}

/// What the caller is to do next, or how the restore ended.
pub enum Step<E> {
    /// Take the next entry of the walk below [`Restoration::backup_dir`], to
    /// any depth, and hand it to [`Restoration::visited`].
    Next(Restoration),
    /// Find out whether [`Inspection::entry`] is a regular file, and hand the
    /// answer to [`Inspection::inspected`].
    Inspect(Inspection),
    /// Read the file at [`Reading::entry`], and hand its text to
    /// [`Reading::loaded`].
    Read(Reading),
    /// Save [`Writing::text`] at [`Writing::path`], making the directories on
    /// the way there, and hand the result to [`Writing::saved`].
    Write(Writing),
    /// Remove the tree at [`Removal::backup_dir`], and hand the result to
    /// [`Removal::removed`].
    Remove(Removal),
    /// Nothing is left to do.
    Done(Result<Restored, Failure<E>>),
}

impl View for Restoration {
    type V = Walk;

    closed spec fn view(&self) -> Walk {
        Walk { backup_dir: self.backup_dir@, skipped: self.skipped as nat }
    }
}

impl View for Inspection {
    type V = At;

    closed spec fn view(&self) -> At {
        At { walk: self.walk@, entry: self.entry@ }
    }
}

impl View for Reading {
    type V = Found;

    closed spec fn view(&self) -> Found {
        Found { walk: self.walk@, entry: self.entry@, target: self.target@ }
    }
}

impl View for Writing {
    type V = Pending;

    closed spec fn view(&self) -> Pending {
        Pending { walk: self.walk@, write: Write { path: self.path@, text: self.text@ } }
    }
}

impl View for Removal {
    type V = Walk;

    closed spec fn view(&self) -> Walk {
        self.walk@
    }
}

impl<E> View for Step<E> {
    type V = Stage<E>;

    open spec fn view(&self) -> Stage<E> {
        match *self {
            Step::Next(w) => Stage::Next(w@),
            Step::Inspect(i) => Stage::Inspect(i@),
            Step::Read(r) => Stage::Read(r@),
            Step::Write(w) => Stage::Write(w@),
            Step::Remove(r) => Stage::Remove(r@),
            Step::Done(end) => Stage::Done(end_view(end)),
        }
    }
}

/// `walk` with one more entry passed over.
pub open spec fn skipping(walk: Walk) -> Walk {
    Walk {
        backup_dir: walk.backup_dir,
        skipped: if walk.skipped < usize::MAX {
            walk.skipped + 1
        } else {
            walk.skipped
        },
    }
}

/// The stage after the walk came to `visit`. An entry is inspected; one that
/// could not be read is passed over and counted; one whose path is no text
/// ends the run; at the end of the walk the mirror is to be removed.
pub open spec fn after_visit<E>(walk: Walk, visit: Visit) -> Stage<E> {
    match visit {
        Visit::Entry(entry) => Stage::Inspect(At { walk, entry }),
        Visit::Unnamed => Stage::Done(Err(Reason::InvalidPath)),
        Visit::Unreadable => Stage::Next(skipping(walk)),
        Visit::End => Stage::Remove(walk),
    }
}

/// The stage after an entry was inspected. An entry that could not be
/// inspected is passed over and counted. What is no regular file is left
/// alone. A regular file is read next, as the backup of the live path that is
/// its own path without the mirror's root; one whose path does not begin with
/// that root ends the run.
pub open spec fn after_inspection<E>(at: At, is_file: Result<bool, E>) -> Stage<E> {
    match is_file {
        Err(_) => Stage::Next(skipping(at.walk)),
        Ok(false) => Stage::Next(at.walk),
        Ok(true) => match restored(at.walk.backup_dir, at.entry) {
            Some(target) => Stage::Read(Found { walk: at.walk, entry: at.entry, target }),
            None => Stage::Done(Err(Reason::InvalidPath)),
        },
    }
}

/// The stage after a backup was read. A backup that could not be read is
/// passed over and counted. Else the text, trimmed, is to be written to the
/// live path.
pub open spec fn after_read<E>(found: Found, read: Result<Seq<char>, E>) -> Stage<E> {
    match read {
        Err(_) => Stage::Next(skipping(found.walk)),
        Ok(raw) => Stage::Write(
            Pending {
                walk: found.walk,
                write: Write { path: found.target, text: trimmed(raw) },
            },
        ),
    }
}

/// The stage after a live file was to be written. A failed write ends the
/// run: no further entry is visited and the mirror stays. Else the walk goes
/// on.
pub open spec fn after_write<E>(pending: Pending, saved: Result<(), E>) -> Stage<E> {
    match saved {
        Err(e) => Stage::Done(Err(Reason::Io(e))),
        Ok(_) => Stage::Next(pending.walk),
    }
}

/// The stage after the mirror was to be removed: the end.
pub open spec fn after_removal<E>(walk: Walk, removed: Result<(), E>) -> Stage<E> {
    match removed {
        Err(e) => Stage::Done(Err(Reason::Io(e))),
        Ok(_) => Stage::Done(Ok(Restored { skipped: walk.skipped as usize })),
    }
}

/// Begins to restore every backup under `backup_dir`. The caller is to walk
/// that directory and hand each entry to [`Restoration::visited`].
pub fn restore_backup(backup_dir: &str) -> (r: Restoration)
    ensures
        r@ == (Walk { backup_dir: backup_dir@, skipped: 0 }),
{
    Restoration { backup_dir: backup_dir.to_owned(), skipped: 0 }
}

impl Restoration {
    /// The directory to walk.
    pub fn backup_dir(&self) -> (r: &str)
        ensures
            r@ == self@.backup_dir,
    {
        self.backup_dir.as_str()
    }

    /// How many entries were passed over so far.
    pub fn skipped(&self) -> (r: usize)
        ensures
            r == self@.skipped,
    {
        self.skipped
    }

    /// Takes what the walk came to next.
    pub fn visited<E>(self, walked: Walked) -> (step: Step<E>)
        ensures
            step@ == after_visit::<E>(self@, walked@),
    {
        match walked {
            Walked::Entry(entry) => Step::Inspect(Inspection { walk: self, entry }),
            Walked::Unnamed => Step::Done(Err(Failure::InvalidPath)),
            Walked::Unreadable => Step::Next(self.skip()),
            Walked::End => Step::Remove(Removal { walk: self }),
        }
    }

    /// The same walk with one more entry passed over.
    fn skip(self) -> (r: Restoration)
        ensures
            r@ == skipping(self@),
    {
        let skipped: usize = if self.skipped < usize::MAX {
            self.skipped + 1
        } else {
            self.skipped
        };
        Restoration { backup_dir: self.backup_dir, skipped }
    }
}

impl Inspection {
    /// The entry to inspect.
    pub fn entry(&self) -> (r: &str)
        ensures
            r@ == self@.entry,
    {
        self.entry.as_str()
    }

    /// Takes whether the entry is a regular file, or why that could not be
    /// found out, which is not held against the run.
    pub fn inspected<E>(self, is_file: Result<bool, E>) -> (step: Step<E>)
        ensures
            step@ == after_inspection(self@, is_file),
    {
        match is_file {
            Err(_) => Step::Next(self.walk.skip()),
            Ok(false) => Step::Next(self.walk),
            Ok(true) => {
                match target_path(self.walk.backup_dir.as_str(), self.entry.as_str()) {
                    Some(target) => Step::Read(
                        Reading { walk: self.walk, entry: self.entry, target },
                    ),
                    None => Step::Done(Err(Failure::InvalidPath)),
                }
            },
        }
    }
}

impl Reading {
    /// The backup to read.
    pub fn entry(&self) -> (r: &str)
        ensures
            r@ == self@.entry,
    {
        self.entry.as_str()
    }

    /// The live path that the backup belongs to.
    pub fn target(&self) -> (r: &str)
        ensures
            r@ == self@.target,
    {
        self.target.as_str()
    }

    /// Takes the text of the backup as it was read, or why it could not be,
    /// which is not held against the run.
    pub fn loaded<E>(self, read: Result<String, E>) -> (step: Step<E>)
        ensures
            step@ == after_read(self@, text_view(read)),
    {
        match read {
            Err(_) => Step::Next(self.walk.skip()),
            Ok(raw) => {
                let text = trim(raw.as_str());
                Step::Write(Writing { walk: self.walk, path: self.target, text })
            },
        }
    }
}

impl Writing {
    /// The live path to write.
    pub fn path(&self) -> (r: &str)
        ensures
            r@ == self@.write.path,
    {
        self.path.as_str()
    }

    /// The text to write there.
    pub fn text(&self) -> (r: &str)
        ensures
            r@ == self@.write.text,
    {
        self.text.as_str()
    }

    /// Takes what came of writing the live file.
    pub fn saved<E>(self, saved: Result<(), E>) -> (step: Step<E>)
        ensures
            step@ == after_write(self@, saved),
    {
        match saved {
            Err(e) => Step::Done(Err(Failure::Io(e))),
            Ok(_) => Step::Next(self.walk),
        }
    }
}

impl Removal {
    /// The directory to remove with all that is in it.
    pub fn backup_dir(&self) -> (r: &str)
        ensures
            r@ == self@.backup_dir,
    {
        self.walk.backup_dir.as_str()
    }

    /// Takes what came of removing the mirror.
    pub fn removed<E>(self, removed: Result<(), E>) -> (step: Step<E>)
        ensures
            step@ == after_removal(self@, removed),
    {
        match removed {
            Err(e) => Step::Done(Err(Failure::Io(e))),
            Ok(_) => Step::Done(Ok(Restored { skipped: self.walk.skipped })),
        }
    }
}

} // verus!
