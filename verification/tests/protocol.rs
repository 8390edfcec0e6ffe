use recholera::error::Failure;
use recholera::mutate::{self, Outcome};
use recholera::restore::{self, Restored, Walked};
use recholera::text::trim;
use recholera::{replace, restore_backup};
use std::collections::BTreeMap;

/// Files kept in memory, by their paths. As on a disk, separators that
/// follow one another count as one.
struct Disk {
    files: BTreeMap<String, String>,
    /// Every write to a path that begins with this fails.
    read_only: Option<String>,
    /// Removing a tree fails.
    keeps_trees: bool,
    /// Inspecting this path fails.
    hidden: Option<String>,
    /// This path is a regular file that cannot be read.
    unreadable: Option<String>,
    /// Paths in the order they were written.
    written: Vec<String>,
}

fn plain(path: &str) -> String {
    let mut out = String::new();
    for c in path.chars() {
        if !(c == '/' && out.ends_with('/')) {
            out.push(c);
        }
    }
    out
}

fn below(root: &str) -> String {
    let mut prefix = plain(root);
    if !prefix.ends_with('/') {
        prefix.push('/');
    }
    prefix
}

impl Disk {
    fn new() -> Disk {
        Disk {
            files: BTreeMap::new(),
            read_only: None,
            keeps_trees: false,
            hidden: None,
            unreadable: None,
            written: Vec::new(),
        }
    }

    fn read(&self, path: &str) -> Result<String, String> {
        match self.files.get(&plain(path)) {
            Some(text) => Ok(text.clone()),
            None => Err(format!("{}: no such file", path)),
        }
    }

    fn write(&mut self, path: &str, text: &str) -> Result<(), String> {
        if let Some(part) = &self.read_only {
            if path.starts_with(part.as_str()) {
                return Err(format!("{}: read-only", path));
            }
        }
        self.files.insert(plain(path), String::from(text));
        self.written.push(plain(path));
        Ok(())
    }

    fn is_file(&self, path: &str) -> Result<bool, String> {
        if self.hidden.as_deref() == Some(path) {
            return Err(format!("{}: cannot inspect", path));
        }
        Ok(self.files.contains_key(&plain(path)) || self.unreadable.as_deref() == Some(path))
    }

    /// The root as it was given, then every directory and file below it,
    /// each by the root and its path from there.
    fn walk(&self, root: &str) -> Vec<Walked> {
        let prefix = below(root);
        let mut found = vec![Walked::Entry(String::from(root))];
        let mut seen: Vec<String> = Vec::new();
        for key in self.files.keys() {
            if let Some(rest) = key.strip_prefix(prefix.as_str()) {
                let mut at = if root.ends_with('/') {
                    String::from(&root[..root.len() - 1])
                } else {
                    String::from(root)
                };
                for part in rest.split('/') {
                    at.push('/');
                    at.push_str(part);
                    if !seen.contains(&at) {
                        seen.push(at.clone());
                        found.push(Walked::Entry(at.clone()));
                    }
                }
            }
        }
        found
    }

    fn remove_tree(&mut self, root: &str) -> Result<(), String> {
        if self.keeps_trees {
            return Err(format!("{}: cannot remove", root));
        }
        let prefix = below(root);
        self.files.retain(|key, _| !key.starts_with(prefix.as_str()));
        Ok(())
    }
}

fn save_file(disk: &mut Disk, path: &str, data: &str) -> Result<(), String> {
    disk.write(path, data)
}

fn load_file(disk: &Disk, path: &str) -> Result<String, String> {
    disk.read(path).map(|raw| trim(&raw))
}

/// Runs a replacement on `disk`; `answer` is what the user types if asked.
fn run_replace(
    disk: &mut Disk,
    path: &str,
    old: &str,
    new: &str,
    backup_dir: &str,
    answer: &str,
) -> Result<Outcome, Failure<String>> {
    let start = replace(path, old, new, backup_dir);
    let read = disk.read(start.path());
    let mut step = start.loaded(read);
    loop {
        step = match step {
            mutate::Step::Confirm(ask) => ask.answered(Ok(String::from(answer))),
            mutate::Step::Backup(backup) => {
                let saved = disk.write(&backup.path(), backup.text());
                backup.saved(saved)
            }
            mutate::Step::Overwrite(file) => {
                let saved = disk.write(file.path(), file.text());
                file.saved(saved)
            }
            mutate::Step::Done(end) => return end,
        }
    }
}

/// Runs a restore on `disk`, the walk coming to `entries` in that order.
fn run_restore_over(
    disk: &mut Disk,
    backup_dir: &str,
    entries: Vec<Walked>,
) -> Result<Restored, Failure<String>> {
    let mut entries = entries.into_iter();
    let mut step: restore::Step<String> = restore::Step::Next(restore_backup(backup_dir));
    loop {
        step = match step {
            restore::Step::Next(walk) => walk.visited(entries.next().unwrap_or(Walked::End)),
            restore::Step::Inspect(entry) => {
                let is_file = disk.is_file(entry.entry());
                entry.inspected(is_file)
            }
            restore::Step::Read(backup) => {
                let read = disk.read(backup.entry());
                backup.loaded(read)
            }
            restore::Step::Write(file) => {
                let saved = disk.write(file.path(), file.text());
                file.saved(saved)
            }
            restore::Step::Remove(mirror) => {
                let removed = disk.remove_tree(mirror.backup_dir());
                mirror.removed(removed)
            }
            restore::Step::Done(end) => return end,
        }
    }
}

fn run_restore(disk: &mut Disk, backup_dir: &str) -> Result<Restored, Failure<String>> {
    let entries = disk.walk(backup_dir);
    run_restore_over(disk, backup_dir, entries)
}

fn get_tmp_path(tmp_dir: &tempdir::TempDir, file_name: &str) -> String {
    let file_path = tmp_dir.path().join(file_name);
    file_path.to_str().unwrap().to_string()
}

#[test]
fn test_load_file() {
    let tmp_dir = tempdir::TempDir::new("test").unwrap();
    let file_path = get_tmp_path(&tmp_dir, "load_file");
    let mut disk = Disk::new();
    let _ = disk.write(&file_path, "test");
    let output = load_file(&disk, &file_path).unwrap();

    assert_eq!(output, "test");
}

#[test]
fn test_save_file() {
    let tmp_dir = tempdir::TempDir::new("test").unwrap();
    let file_path = get_tmp_path(&tmp_dir, "save_file");
    let mut disk = Disk::new();
    let _ = save_file(&mut disk, &file_path, "test");
    let output = load_file(&disk, &file_path);

    assert_eq!(output.unwrap(), "test");
}

#[test]
fn test_save_creating_dirs() {
    let tmp_dir = tempdir::TempDir::new("test").unwrap();
    let file_path = get_tmp_path(&tmp_dir, "save_creating_dirs");
    let mut disk = Disk::new();
    let _ = save_file(&mut disk, &file_path, "test");
    let output = load_file(&disk, &file_path);

    assert_eq!(output.unwrap(), "test");
}

#[test]
fn test_replace() {
    let tmp_dir = tempdir::TempDir::new("test").unwrap();
    let file_path = get_tmp_path(&tmp_dir, "replace");
    let backup_path = get_tmp_path(&tmp_dir, "backup/");
    let mut disk = Disk::new();
    let _ = save_file(&mut disk, &file_path, "#FF00FF");
    let _ = run_replace(&mut disk, &file_path, "#FF00FF", "#00FF00", &backup_path, "");
    let output = load_file(&disk, &file_path);

    assert_eq!(output.unwrap(), "#00FF00");
}

#[test]
fn test_replace_case_insensitive() {
    let tmp_dir = tempdir::TempDir::new("test").unwrap();
    let file_path = get_tmp_path(&tmp_dir, "replace_case_insensitive");
    let backup_path = get_tmp_path(&tmp_dir, "backup/");
    let mut disk = Disk::new();
    let _ = save_file(&mut disk, &file_path, "#FF00FF");
    let _ = run_replace(&mut disk, &file_path, "#ff00ff", "#00ff00", &backup_path, "");
    let output = load_file(&disk, &file_path);

    assert_eq!(output.unwrap(), "#00ff00");
}

#[test]
fn test_replace_creating_backup() {
    let tmp_dir = tempdir::TempDir::new("test").unwrap();
    let file_path = get_tmp_path(&tmp_dir, "replace_creating_backup");
    let backup_path = get_tmp_path(&tmp_dir, "backup/");
    let mut disk = Disk::new();
    let _ = save_file(&mut disk, &file_path, "#ff00ff");
    let _ = run_replace(&mut disk, &file_path, "#ff00ff", "#00ff00", &backup_path, "");
    let output = load_file(&disk, &(backup_path + &file_path));

    assert_eq!(output.unwrap(), "#ff00ff");
}

#[test]
fn test_restore_backup() {
    let tmp_dir = tempdir::TempDir::new("test").unwrap();
    let tmp_backup_dir = tempdir::TempDir::new("backup").unwrap();
    let target_file = get_tmp_path(&tmp_dir, "restore_backup");
    let backup_file = get_tmp_path(&tmp_backup_dir, &target_file[1..]);
    let mut disk = Disk::new();
    let _ = save_file(&mut disk, &backup_file, "#ff00ff");
    let _ = run_restore(&mut disk, tmp_backup_dir.path().to_str().unwrap());
    let output = load_file(&disk, &target_file);

    assert_eq!(output.unwrap(), "#ff00ff");
}

#[test]
fn load_file_trims_what_was_saved() {
    let mut disk = Disk::new();
    let _ = save_file(&mut disk, "/tmp/load_file", "\n \ttest  \r\n\n");
    let output = load_file(&disk, "/tmp/load_file");

    assert_eq!(output.unwrap(), "test");
}

#[test]
fn replace_keeps_the_backup_under_a_relative_directory() {
    let mut disk = Disk::new();
    let _ = save_file(&mut disk, "colors.css", "#FF00FF");
    let end = run_replace(&mut disk, "colors.css", "#FF00FF", "#00FF00", "backup/", "");

    assert!(matches!(end, Ok(Outcome::Replaced)));
    assert_eq!(load_file(&disk, "colors.css").unwrap(), "#00FF00");
    assert_eq!(load_file(&disk, "backup/colors.css").unwrap(), "#FF00FF");
    assert_eq!(disk.files.len(), 2);
}

#[test]
fn replace_reports_what_it_did() {
    let mut disk = Disk::new();
    disk.write("/site/style.css", "a { color: #FF00FF; }\n").unwrap();
    let end = run_replace(&mut disk, "/site/style.css", "#ff00ff", "#00ff00", "./backup/", "");

    assert!(matches!(end, Ok(Outcome::Replaced)));
    assert_eq!(disk.read("/site/style.css").unwrap(), "a { color: #00ff00; }");
    assert_eq!(disk.read("./backup/site/style.css").unwrap(), "a { color: #FF00FF; }");
}

#[test]
fn replace_saves_the_backup_before_the_file() {
    let mut disk = Disk::new();
    disk.write("/site/style.css", "#FF00FF").unwrap();
    disk.written.clear();
    let end = run_replace(&mut disk, "/site/style.css", "#FF00FF", "#00FF00", "./backup/", "");

    assert!(matches!(end, Ok(Outcome::Replaced)));
    assert_eq!(disk.written, vec!["./backup/site/style.css", "/site/style.css"]);
}

#[test]
fn replace_asks_for_the_backup_at_the_collapsed_path() {
    let step: mutate::Step<String> =
        replace("/tmp/x", "a", "b", "./backup/").loaded(Ok(String::from(" a \n")));
    match step {
        mutate::Step::Backup(backup) => {
            assert_eq!(backup.path(), "./backup/tmp/x");
            assert_eq!(backup.text(), "a");
        }
        _ => panic!("the backup comes next"),
    }
}

#[test]
fn replace_replaces_every_match() {
    let mut disk = Disk::new();
    disk.write("/f", "red Red RED reddish").unwrap();
    let end = run_replace(&mut disk, "/f", "red", "blue", "/b/", "");

    assert!(matches!(end, Ok(Outcome::Replaced)));
    assert_eq!(disk.read("/f").unwrap(), "blue blue blue bluedish");
}

#[test]
fn replace_writes_the_trimmed_text() {
    let mut disk = Disk::new();
    disk.write("/f", "\n  #FF00FF;\n\n").unwrap();
    let end = run_replace(&mut disk, "/f", "#FF00FF", "#00FF00", "/b/", "");

    assert!(matches!(end, Ok(Outcome::Replaced)));
    assert_eq!(disk.read("/f").unwrap(), "#00FF00;");
    assert_eq!(disk.read("/b/f").unwrap(), "#FF00FF;");
}

#[test]
fn replace_takes_the_old_text_as_a_pattern() {
    let mut disk = Disk::new();
    disk.write("/f", "#F0F and #f0f0f0 and #f.f").unwrap();
    let end = run_replace(&mut disk, "/f", "#f.f", "x", "/b/", "");

    assert!(matches!(end, Ok(Outcome::Replaced)));
    assert_eq!(disk.read("/f").unwrap(), "x and x0f0 and x");
}

#[test]
fn replace_without_a_match_changes_nothing() {
    let mut disk = Disk::new();
    disk.write("/f", "#FF00FF").unwrap();
    disk.written.clear();
    let end = run_replace(&mut disk, "/f", "#123456", "#00FF00", "/b/", "y");

    assert!(matches!(end, Ok(Outcome::NoMatch)));
    assert_eq!(disk.read("/f").unwrap(), "#FF00FF");
    assert!(disk.written.is_empty());
    assert_eq!(disk.files.len(), 1);
}

#[test]
fn replace_asks_when_the_new_text_is_there() {
    let step: mutate::Step<String> =
        replace("/f", "#ff00ff", "#00FF00", "/b/").loaded(Ok(String::from("#FF00FF #00ff00")));
    match step {
        mutate::Step::Confirm(ask) => {
            assert_eq!(ask.path(), "/f");
            assert_eq!(ask.new_text(), "#00FF00");
        }
        _ => panic!("the user is asked first"),
    }
}

#[test]
fn replace_declined_changes_nothing() {
    for answer in ["", "\n", "n\n", "no", "yes\n", "N"] {
        let mut disk = Disk::new();
        disk.write("/f", "#FF00FF #00FF00").unwrap();
        disk.written.clear();
        let end = run_replace(&mut disk, "/f", "#FF00FF", "#00FF00", "/b/", answer);

        assert!(matches!(end, Ok(Outcome::Declined)));
        assert_eq!(disk.read("/f").unwrap(), "#FF00FF #00FF00");
        assert!(disk.written.is_empty());
    }
}

#[test]
fn replace_confirmed_goes_on() {
    for answer in ["y", "Y", "y\n", " Y \r\n"] {
        let mut disk = Disk::new();
        disk.write("/f", "#FF00FF #00FF00").unwrap();
        let end = run_replace(&mut disk, "/f", "#FF00FF", "#00FF00", "/b/", answer);

        assert!(matches!(end, Ok(Outcome::Replaced)));
        assert_eq!(disk.read("/f").unwrap(), "#00FF00 #00FF00");
        assert_eq!(disk.read("/b/f").unwrap(), "#FF00FF #00FF00");
    }
}

#[test]
fn replace_fails_where_the_answer_cannot_be_read() {
    let step: mutate::Step<String> =
        replace("/f", "a", "b", "/b/").loaded(Ok(String::from("a b")));
    let end = match step {
        mutate::Step::Confirm(ask) => ask.answered(Err(String::from("closed"))),
        _ => panic!("the user is asked first"),
    };

    assert!(matches!(end, mutate::Step::Done(Err(Failure::Io(cause))) if cause == "closed"));
}

#[test]
fn replace_fails_on_a_missing_file() {
    let mut disk = Disk::new();
    let end = run_replace(&mut disk, "/missing", "a", "b", "/b/", "");

    assert!(matches!(end, Err(Failure::Io(cause)) if cause == "/missing: no such file"));
    assert!(disk.files.is_empty());
}

#[test]
fn replace_leaves_the_file_where_the_backup_fails() {
    let mut disk = Disk::new();
    disk.write("/site/f", "#FF00FF").unwrap();
    disk.read_only = Some(String::from("/b/"));
    disk.written.clear();
    let end = run_replace(&mut disk, "/site/f", "#FF00FF", "#00FF00", "/b/", "");

    assert!(matches!(end, Err(Failure::Io(cause)) if cause == "/b/site/f: read-only"));
    assert_eq!(disk.read("/site/f").unwrap(), "#FF00FF");
    assert!(disk.written.is_empty());
}

#[test]
fn replace_fails_where_the_file_cannot_be_written() {
    let mut disk = Disk::new();
    disk.write("/site/f", "#FF00FF").unwrap();
    disk.read_only = Some(String::from("/site/"));
    let end = run_replace(&mut disk, "/site/f", "#FF00FF", "#00FF00", "/b/", "");

    assert!(matches!(end, Err(Failure::Io(cause)) if cause == "/site/f: read-only"));
    assert_eq!(disk.read("/site/f").unwrap(), "#FF00FF");
    assert_eq!(disk.read("/b/site/f").unwrap(), "#FF00FF");
}

#[test]
fn replace_fails_on_a_malformed_pattern_after_the_backup() {
    let mut disk = Disk::new();
    disk.write("/f", "rgb(1, 2, 3)").unwrap();
    let end = run_replace(&mut disk, "/f", "rgb(", "hsl(", "/b/", "");

    assert!(matches!(end, Err(Failure::Pattern(regex::Error::Syntax(_)))));
    assert_eq!(disk.read("/f").unwrap(), "rgb(1, 2, 3)");
    assert_eq!(disk.read("/b/f").unwrap(), "rgb(1, 2, 3)");
}

#[test]
fn substituted_takes_either_outcome() {
    let backup = |text: &str| -> mutate::Backup {
        let step: mutate::Step<String> =
            replace("/f", "a", "b", "/b/").loaded(Ok(String::from(text)));
        match step {
            mutate::Step::Backup(backup) => backup,
            _ => panic!("the backup comes next"),
        }
    };

    let step: mutate::Step<String> = backup("a").substituted(Ok(String::from("new text")));
    match step {
        mutate::Step::Overwrite(file) => {
            assert_eq!(file.path(), "/f");
            assert_eq!(file.text(), "new text");
        }
        _ => panic!("the file is written next"),
    }

    let cause = regex::Error::Syntax(String::from("bad"));
    let step: mutate::Step<String> = backup("a").substituted(Err(cause.clone()));
    assert!(matches!(step, mutate::Step::Done(Err(Failure::Pattern(found))) if found == cause));
}

#[test]
fn replace_expands_groups_in_the_new_text() {
    let mut disk = Disk::new();
    disk.write("/f", "a-b").unwrap();
    let end = run_replace(&mut disk, "/f", "(a)-(b)", "$2-$1", "/b/", "");

    assert!(matches!(end, Ok(Outcome::NoMatch)));

    disk.write("/g", "(a)-(b) a-b").unwrap();
    let end = run_replace(&mut disk, "/g", "(a)-(b)", "$2+$1", "/b/", "");

    assert!(matches!(end, Ok(Outcome::Replaced)));
    assert_eq!(disk.read("/g").unwrap(), "(a)-(b) b+a");
}

#[test]
fn restore_writes_every_backup_back_and_removes_the_mirror() {
    let mut disk = Disk::new();
    disk.write("./backup/site/a.css", "#FF00FF").unwrap();
    disk.write("./backup/site/deep/er/b.css", "#00FF00\n").unwrap();
    disk.write("/site/a.css", "changed").unwrap();
    disk.write("/elsewhere", "kept").unwrap();
    let end = run_restore(&mut disk, "./backup/");

    assert!(matches!(end, Ok(Restored { skipped: 0 })));
    assert_eq!(disk.read("/site/a.css").unwrap(), "#FF00FF");
    assert_eq!(disk.read("/site/deep/er/b.css").unwrap(), "#00FF00");
    assert_eq!(disk.read("/elsewhere").unwrap(), "kept");
    assert_eq!(disk.files.len(), 3);
}

#[test]
fn restore_undoes_replace() {
    for backup_dir in ["./backup/", "./backup"] {
        let mut disk = Disk::new();
        disk.write("/site/a.css", "#FF00FF").unwrap();
        let end = run_replace(&mut disk, "/site/a.css", "#ff00ff", "#00ff00", backup_dir, "");
        assert!(matches!(end, Ok(Outcome::Replaced)));
        assert_eq!(disk.read("/site/a.css").unwrap(), "#00ff00");

        let end = run_restore(&mut disk, backup_dir);
        assert!(matches!(end, Ok(Restored { skipped: 0 })));
        assert_eq!(disk.read("/site/a.css").unwrap(), "#FF00FF");
        assert_eq!(disk.files.len(), 1);
    }
}

#[test]
fn restore_passes_over_what_is_no_file() {
    let mut disk = Disk::new();
    disk.write("/b/x/y", "text").unwrap();
    disk.written.clear();
    let end = run_restore(&mut disk, "/b");

    assert!(matches!(end, Ok(Restored { skipped: 0 })));
    assert_eq!(disk.written, vec!["/x/y"]);
}

#[test]
fn restore_counts_unreadable_entries_and_goes_on() {
    let mut disk = Disk::new();
    disk.write("/b/x", "one").unwrap();
    disk.write("/b/y", "two").unwrap();
    let entries = vec![
        Walked::Unreadable,
        Walked::Entry(String::from("/b/x")),
        Walked::Unreadable,
        Walked::Entry(String::from("/b/y")),
    ];
    let end = run_restore_over(&mut disk, "/b/", entries);

    assert!(matches!(end, Ok(Restored { skipped: 2 })));
    assert_eq!(disk.read("/x").unwrap(), "one");
    assert_eq!(disk.read("/y").unwrap(), "two");
    assert_eq!(disk.files.len(), 2);
}

#[test]
fn restore_of_an_empty_walk_removes_the_mirror() {
    let mut disk = Disk::new();
    disk.write("/b/x", "one").unwrap();
    let end = run_restore_over(&mut disk, "/b/", Vec::new());

    assert!(matches!(end, Ok(Restored { skipped: 0 })));
    assert!(disk.files.is_empty());
}

#[test]
fn restore_stops_at_a_path_that_is_no_text() {
    let mut disk = Disk::new();
    disk.write("/b/x", "one").unwrap();
    disk.write("/b/y", "two").unwrap();
    let entries =
        vec![Walked::Entry(String::from("/b/x")), Walked::Unnamed, Walked::Entry(String::from("/b/y"))];
    let end = run_restore_over(&mut disk, "/b/", entries);

    assert!(matches!(end, Err(Failure::InvalidPath)));
    assert_eq!(disk.read("/x").unwrap(), "one");
    assert!(disk.read("/y").is_err());
    assert_eq!(disk.read("/b/y").unwrap(), "two");
}

#[test]
fn restore_stops_at_a_file_outside_the_mirror() {
    let mut disk = Disk::new();
    disk.write("/other/x", "one").unwrap();
    let end = run_restore_over(&mut disk, "/b/", vec![Walked::Entry(String::from("/other/x"))]);

    assert!(matches!(end, Err(Failure::InvalidPath)));
    assert_eq!(disk.files.len(), 1);
}

#[test]
fn restore_passes_over_an_entry_that_cannot_be_inspected() {
    let walk = restore_backup("/b/");
    let step: restore::Step<String> = walk.visited(Walked::Entry(String::from("/b/x")));
    let next = match step {
        restore::Step::Inspect(entry) => {
            assert_eq!(entry.entry(), "/b/x");
            entry.inspected(Err(String::from("gone")))
        }
        _ => panic!("the entry is inspected next"),
    };

    match next {
        restore::Step::Next(walk) => {
            assert_eq!(walk.backup_dir(), "/b/");
            assert_eq!(walk.skipped(), 1);
        }
        _ => panic!("the walk goes on"),
    }
}

#[test]
fn restore_goes_on_after_an_entry_that_cannot_be_inspected() {
    let mut disk = Disk::new();
    disk.write("/b/x", "one").unwrap();
    disk.write("/b/y", "two").unwrap();
    disk.hidden = Some(String::from("/b/x"));
    let end = run_restore(&mut disk, "/b/");

    assert!(matches!(end, Ok(Restored { skipped: 1 })));
    assert!(disk.read("/x").is_err());
    assert_eq!(disk.read("/y").unwrap(), "two");
    assert_eq!(disk.files.len(), 1);
}

#[test]
fn restore_passes_over_a_backup_that_cannot_be_read() {
    let disk = Disk::new();
    let walk = restore_backup("/b/");
    let step: restore::Step<String> = walk.visited(Walked::Entry(String::from("/b/x")));
    let step: restore::Step<String> = match step {
        restore::Step::Inspect(entry) => entry.inspected(Ok(true)),
        _ => panic!("the entry is inspected next"),
    };
    let next = match step {
        restore::Step::Read(backup) => {
            assert_eq!(backup.entry(), "/b/x");
            assert_eq!(backup.target(), "/x");
            let read = disk.read(backup.entry());
            backup.loaded(read)
        }
        _ => panic!("the backup is read next"),
    };

    match next {
        restore::Step::Next(walk) => assert_eq!(walk.skipped(), 1),
        _ => panic!("the walk goes on"),
    }
}

#[test]
fn restore_goes_on_after_a_backup_that_cannot_be_read() {
    let mut disk = Disk::new();
    disk.write("/b/y", "two").unwrap();
    let entries = vec![Walked::Entry(String::from("/b/x")), Walked::Entry(String::from("/b/y"))];
    disk.unreadable = Some(String::from("/b/x"));
    let end = run_restore_over(&mut disk, "/b/", entries);

    assert!(matches!(end, Ok(Restored { skipped: 1 })));
    assert!(disk.read("/x").is_err());
    assert_eq!(disk.files.get("/y").unwrap(), "two");
    assert_eq!(disk.files.len(), 1);
}

#[test]
fn restore_stops_at_a_failed_write_and_keeps_the_mirror() {
    let mut disk = Disk::new();
    disk.write("/b/site/a", "one").unwrap();
    disk.write("/b/site/b", "two").unwrap();
    disk.write("/b/tmp/c", "three").unwrap();
    disk.read_only = Some(String::from("/site/b"));
    let end = run_restore(&mut disk, "/b/");

    assert!(matches!(end, Err(Failure::Io(cause)) if cause == "/site/b: read-only"));
    assert_eq!(disk.read("/site/a").unwrap(), "one");
    assert!(disk.read("/tmp/c").is_err());
    assert_eq!(disk.read("/b/site/a").unwrap(), "one");
    assert_eq!(disk.read("/b/site/b").unwrap(), "two");
    assert_eq!(disk.read("/b/tmp/c").unwrap(), "three");
}

#[test]
fn restore_reports_a_mirror_that_cannot_be_removed() {
    let mut disk = Disk::new();
    disk.write("/b/x", "one").unwrap();
    disk.keeps_trees = true;
    let end = run_restore(&mut disk, "/b/");

    assert!(matches!(end, Err(Failure::Io(cause)) if cause == "/b/: cannot remove"));
    assert_eq!(disk.read("/x").unwrap(), "one");
    assert_eq!(disk.read("/b/x").unwrap(), "one");
}

#[test]
fn restore_begins_with_nothing_passed_over() {
    let walk = restore_backup("./backup/");

    assert_eq!(walk.backup_dir(), "./backup/");
    assert_eq!(walk.skipped(), 0);
}

#[test]
fn restore_writes_the_trimmed_text() {
    let mut disk = Disk::new();
    disk.write("/b/x", "  one\n").unwrap();
    let end = run_restore(&mut disk, "/b/");

    assert!(matches!(end, Ok(Restored { skipped: 0 })));
    assert_eq!(disk.read("/x").unwrap(), "one");
}
