//! Replacing text in one file, with what it held saved first.
//!
//! Nothing here reads or writes. A replacement is a chain of states: each
//! state names one thing for the caller to do, and takes what came of it to
//! give the next state. The live file is asked to be overwritten only from a
//! state that is reached after the caller has reported the backup as saved.

use vstd::prelude::*;
use crate::caller::{end_view, text_view, Write};
use crate::error::{Failure, Reason};
use crate::paths::{backup_path, mirrored};
use crate::pattern::{substitute, substitution};
use crate::text::{affirmative, contains_ignoring_case, is_affirmative, mentions, trim, trimmed};

verus! {

/// How a replacement ended where nothing failed.
#[derive(Debug, Clone, Copy, PartialEq, Eq, Structural)]
pub enum Outcome {
    /// The backup was saved and the file rewritten.
    Replaced,
    /// The file does not hold the text to replace: nothing was written.
    NoMatch,
    /// The file holds the new text already and the user did not confirm:
    /// nothing was written.
    Declined,
}

/// What was asked for: replace `old` by `new` in the file at `path`, with the
/// backup under `backup_dir`.
pub struct Job {
    pub path: Seq<char>,
    pub old: Seq<char>,
    pub new: Seq<char>,
    pub backup_dir: Seq<char>,
}

/// A job together with the trimmed text of its file.
pub struct Held {
    pub job: Job,
    pub content: Seq<char>,
}

/// The backup that `held` asks for: the text of the file, at the place under
/// the backup directory that mirrors the file's path.
pub open spec fn backup_of(held: Held) -> Write {
    Write { path: mirrored(held.job.backup_dir, held.job.path), text: held.content }
}

/// Where a replacement stands: the view of a [`Step`].
pub enum Stage<E> {
    Confirm(Held),
    Backup(Held),
    Overwrite(Write),
    Done(Result<Outcome, Reason<E>>),
}

/// A replacement that waits for the text of its file.
pub struct Replacement {
    path: String,
    old: String,
    new: String,
    backup_dir: String,
}

/// A replacement that waits for the user's answer: the file holds the new
/// text already.
pub struct Confirmation {
    job: Replacement,
    content: String,
}

/// A replacement that waits for its backup to be saved.
pub struct Backup {
    job: Replacement,
    content: String,
}

/// A replacement that waits for the live file to be overwritten.
pub struct Overwrite {
    path: String,
    text: String,
}

/// What the caller is to do next, or how the replacement ended.
pub enum Step<E> {
    /// Ask the user whether to go on, and hand the line to
    /// [`Confirmation::answered`].
    Confirm(Confirmation),
    /// Save [`Backup::text`] at [`Backup::path`], making the directories on
    /// the way there, and hand the result to [`Backup::saved`].
    Backup(Backup),
    /// Save [`Overwrite::text`] at [`Overwrite::path`] in place of what the
    /// file holds, and hand the result to [`Overwrite::saved`].
    Overwrite(Overwrite),
    /// Nothing is left to do.
    Done(Result<Outcome, Failure<E>>),
}

impl View for Replacement {
    type V = Job;

    closed spec fn view(&self) -> Job {
        Job { path: self.path@, old: self.old@, new: self.new@, backup_dir: self.backup_dir@ }
    }
}

impl View for Confirmation {
    type V = Held;

    closed spec fn view(&self) -> Held {
        Held { job: self.job@, content: self.content@ }
    }
}

impl View for Backup {
    type V = Held;

    closed spec fn view(&self) -> Held {
        Held { job: self.job@, content: self.content@ }
    }
}

impl View for Overwrite {
    type V = Write;

    closed spec fn view(&self) -> Write {
        Write { path: self.path@, text: self.text@ }
    }
}

impl<E> View for Step<E> {
    type V = Stage<E>;

    open spec fn view(&self) -> Stage<E> {
        match *self {
            Step::Confirm(c) => Stage::Confirm(c@),
            Step::Backup(b) => Stage::Backup(b@),
            Step::Overwrite(o) => Stage::Overwrite(o@),
            Step::Done(end) => Stage::Done(end_view(end)),
        }
    }
}

/// What a substitution gave, as characters and without the cause of a
/// failure.
pub open spec fn substitution_view(outcome: Result<String, regex::Error>) -> Option<Seq<char>> {
    match outcome {
        Ok(text) => Some(text@),
        Err(_) => None,
    }
}

/// The stage after the file was read. A failed read ends the run. Else the
/// text is trimmed: without `old` in it the run ends with nothing written;
/// with `new` in it the user is asked first; otherwise the backup comes next.
/// Both are looked for without regard to case.
pub open spec fn after_load<E>(job: Job, read: Result<Seq<char>, E>) -> Stage<E> {
    match read {
        Err(e) => Stage::Done(Err(Reason::Io(e))),
        Ok(raw) => {
            let content = trimmed(raw);
            if !contains_ignoring_case(content, job.old) {
                Stage::Done(Ok(Outcome::NoMatch))
            } else if contains_ignoring_case(content, job.new) {
                Stage::Confirm(Held { job, content })
            } else {
                Stage::Backup(Held { job, content })
            }
        },
    }
}

/// The stage after the user was asked. A failed read ends the run; so does
/// any answer but `y`, with nothing written.
pub open spec fn after_answer<E>(held: Held, answer: Result<Seq<char>, E>) -> Stage<E> {
    match answer {
        Err(e) => Stage::Done(Err(Reason::Io(e))),
        Ok(line) => if affirmative(line) {
            Stage::Backup(held)
        } else {
            Stage::Done(Ok(Outcome::Declined))
        },
    }
}

/// The stage after a substitution in the file at `path` gave `outcome`: the
/// new text is to be written there, or the run ends because the pattern did
/// not compile.
pub open spec fn after_substitution<E>(path: Seq<char>, outcome: Option<Seq<char>>) -> Stage<E> {
    match outcome {
        Some(text) => Stage::Overwrite(Write { path, text }),
        None => Stage::Done(Err(Reason::Pattern)),
    }
}

/// The stage after the backup was to be saved. A failed save ends the run
/// with the live file as it was. Else `old` is substituted by `new` in the
/// text.
pub open spec fn after_backup<E>(held: Held, saved: Result<(), E>) -> Stage<E> {
    match saved {
        Err(e) => Stage::Done(Err(Reason::Io(e))),
        Ok(_) => after_substitution(
            held.job.path,
            substitution(held.job.old, held.content, held.job.new),
        ),
    }
}

/// The stage after the live file was to be overwritten: the end.
pub open spec fn after_overwrite<E>(saved: Result<(), E>) -> Stage<E> {
    match saved {
        Err(e) => Stage::Done(Err(Reason::Io(e))),
        Ok(_) => Stage::Done(Ok(Outcome::Replaced)),
    }
}

/// Begins the replacement of `old` by `new` in the file at `path`, with the
/// backup under `backup_dir`. The caller is to read the whole of that file
/// as text and hand it to [`Replacement::loaded`].
pub fn replace(path: &str, old: &str, new: &str, backup_dir: &str) -> (r: Replacement)
    ensures
        r@ == (Job { path: path@, old: old@, new: new@, backup_dir: backup_dir@ }),
{
    Replacement {
        path: path.to_owned(),
        old: old.to_owned(),
        new: new.to_owned(),
        backup_dir: backup_dir.to_owned(),
    }
}

impl Replacement {
    /// The file to read.
    pub fn path(&self) -> (r: &str)
        ensures
            r@ == self@.path,
    {
        self.path.as_str()
    }

    /// Takes the text of the file as it was read, or why it could not be.
    pub fn loaded<E>(self, read: Result<String, E>) -> (step: Step<E>)
        ensures
            step@ == after_load(self@, text_view(read)),
    {
        match read {
            Err(e) => Step::Done(Err(Failure::Io(e))),
            Ok(raw) => {
                let content = trim(raw.as_str());
                if !mentions(content.as_str(), self.old.as_str()) {
                    Step::Done(Ok(Outcome::NoMatch))
                } else if mentions(content.as_str(), self.new.as_str()) {
                    Step::Confirm(Confirmation { job: self, content })
                } else {
                    Step::Backup(Backup { job: self, content })
                }
            },
        }
    }
}

impl Confirmation {
    /// The file that holds the new text already.
    pub fn path(&self) -> (r: &str)
        ensures
            r@ == self@.job.path,
    {
        self.job.path.as_str()
    }

    /// The new text that the file holds already.
    pub fn new_text(&self) -> (r: &str)
        ensures
            r@ == self@.job.new,
    {
        self.job.new.as_str()
    }

    /// Takes the line that the user typed, or why none could be read.
    pub fn answered<E>(self, answer: Result<String, E>) -> (step: Step<E>)
        ensures
            step@ == after_answer(self@, text_view(answer)),
    {
        match answer {
            Err(e) => Step::Done(Err(Failure::Io(e))),
            Ok(line) => {
                if is_affirmative(line.as_str()) {
                    Step::Backup(Backup { job: self.job, content: self.content })
                } else {
                    Step::Done(Ok(Outcome::Declined))
                }
            },
        }
    }
}

impl Backup {
    /// Where to save the backup.
    pub fn path(&self) -> (r: String)
        ensures
            r@ == backup_of(self@).path,
    {
        backup_path(self.job.backup_dir.as_str(), self.job.path.as_str())
    }

    /// What to save there: the text of the file, trimmed and otherwise
    /// unchanged.
    pub fn text(&self) -> (r: &str)
        ensures
            r@ == backup_of(self@).text,
    {
        self.content.as_str()
    }

    /// Takes what came of saving the backup. Once it is saved, the
    /// substitution is made.
    pub fn saved<E>(self, saved: Result<(), E>) -> (step: Step<E>)
        ensures
            step@ == after_backup(self@, saved),
    {
        match saved {
            Err(e) => Step::Done(Err(Failure::Io(e))),
            Ok(_) => {
                let outcome = substitute(
                    self.job.old.as_str(),
                    self.content.as_str(),
                    self.job.new.as_str(),
                );
                self.substituted(outcome)
            },
        }
    }

    /// Takes what the substitution gave, the backup being saved: the new text
    /// is to be written over the live file, or the run ends with the
    /// pattern's failure. [`Backup::saved`] hands over what the regular
    /// expression gave.
    pub fn substituted<E>(self, outcome: Result<String, regex::Error>) -> (step: Step<E>)
        ensures
            step@ == after_substitution::<E>(self@.job.path, substitution_view(outcome)),
            outcome matches Err(cause) ==> step == Step::<E>::Done(Err(Failure::Pattern(cause))),
    {
        match outcome {
            Ok(text) => Step::Overwrite(Overwrite { path: self.job.path, text }),
            Err(cause) => Step::Done(Err(Failure::Pattern(cause))),
        }
    }
}

impl Overwrite {
    /// The live file.
    pub fn path(&self) -> (r: &str)
        ensures
            r@ == self@.path,
    {
        self.path.as_str()
    }

    /// Its new text.
    pub fn text(&self) -> (r: &str)
        ensures
            r@ == self@.text,
    {
        self.text.as_str()
    }

    /// Takes what came of overwriting the live file.
    pub fn saved<E>(self, saved: Result<(), E>) -> (step: Step<E>)
        ensures
            step@ == after_overwrite(saved),
    {
        match saved {
            Err(e) => Step::Done(Err(Failure::Io(e))),
            Ok(_) => Step::Done(Ok(Outcome::Replaced)),
        }
    }
}

} // verus!
