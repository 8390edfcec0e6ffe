//! How a live path maps into the backup mirror and back.

use vstd::prelude::*;
use crate::text::chars_of;

verus! {

/// `s` after one pass from the left in which each `//` becomes `/`. A
/// separator that the pass has written is not read again, so `///` becomes
/// `//`.
pub open spec fn collapsed(s: Seq<char>) -> Seq<char>
    decreases s.len(),
{
    if s.len() < 2 {
        s
    } else if s[0] == '/' && s[1] == '/' {
        seq!['/'] + collapsed(s.skip(2))
    } else {
        seq![s[0]] + collapsed(s.skip(1))
    }
}

/// Where the backup of `path` lies under `backup_dir`.
pub open spec fn mirrored(backup_dir: Seq<char>, path: Seq<char>) -> Seq<char> {
    collapsed(backup_dir + path)
}

/// `backup_dir` without the one separator it may end with.
pub open spec fn mirror_root(backup_dir: Seq<char>) -> Seq<char> {
    if backup_dir.len() > 0 && backup_dir.last() == '/' {
        backup_dir.drop_last()
    } else {
        backup_dir
    }
}

/// `entry` without as many characters in front as the mirror's root has.
pub open spec fn live_path(backup_dir: Seq<char>, entry: Seq<char>) -> Seq<char> {
    entry.skip(mirror_root(backup_dir).len() as int)
}

/// The live path that the mirror entry `entry` is the backup of: `entry`
/// without the mirror's root in front. There is none where `entry` does not
/// begin with that root.
pub open spec fn restored(backup_dir: Seq<char>, entry: Seq<char>) -> Option<Seq<char>> {
    if mirror_root(backup_dir).is_prefix_of(entry) {
        Some(live_path(backup_dir, entry))
    } else {
        None
    }
}

/// No two separators stand side by side in `s`.
pub open spec fn no_double_separator(s: Seq<char>) -> bool {
    forall|i: int| 0 <= i < s.len() - 1 ==> !(#[trigger] s[i] == '/' && s[i + 1] == '/')
}

/// `path` lies below the root of the mirror under `backup_dir`.
pub open spec fn in_mirror(backup_dir: Seq<char>, path: Seq<char>) -> bool {
    (mirror_root(backup_dir) + seq!['/']).is_prefix_of(path)
}

/// A text without doubled separators collapses to itself.
pub proof fn lemma_collapsed_without_double(s: Seq<char>)
    requires
        no_double_separator(s),
    ensures
        collapsed(s) == s,
    decreases s.len(),
{
    if s.len() >= 2 {
        assert(no_double_separator(s.skip(1)));
        lemma_collapsed_without_double(s.skip(1));
    }
}

/// Collapsing passes over a front part in which, and at whose end, no
/// doubled separator begins.
pub proof fn lemma_collapsed_after_prefix(front: Seq<char>, back: Seq<char>)
    requires
        no_double_separator(front),
        front.len() > 0 && back.len() > 0 ==> !(front.last() == '/' && back.first() == '/'),
    ensures
        collapsed(front + back) == front + collapsed(back),
    decreases front.len(),
{
    let s = front + back;
    if front.len() == 0 {
    } else if back.len() == 0 {
        lemma_collapsed_without_double(front);
    } else {
        assert(!(s[0] == '/' && s[1] == '/'));
        assert(s.skip(1) == front.skip(1) + back);
        assert(no_double_separator(front.skip(1)));
        lemma_collapsed_after_prefix(front.skip(1), back);
    }
}

/// A backup lies under the mirror's root by its own path: where neither
/// `backup_dir` nor `path` holds a doubled separator and `path` begins with
/// one, the backup of `path` is the root followed by `path`, whether or not
/// `backup_dir` ends with a separator.
pub proof fn law_backup_lies_under_root(backup_dir: Seq<char>, path: Seq<char>)
    requires
        no_double_separator(backup_dir),
        no_double_separator(path),
        path.len() > 0 && path.first() == '/',
    ensures
        mirrored(backup_dir, path) == mirror_root(backup_dir) + path,
        in_mirror(backup_dir, mirrored(backup_dir, path)),
{
    let root = mirror_root(backup_dir);
    if backup_dir.len() > 0 && backup_dir.last() == '/' {
        let back = seq!['/'] + path;
        assert(backup_dir + path == root + back);
        assert(no_double_separator(root));
        lemma_collapsed_after_prefix(root, back);
        assert(back.skip(2) == path.skip(1));
        assert(no_double_separator(path.skip(1)));
        lemma_collapsed_without_double(path.skip(1));
    } else {
        assert(no_double_separator(backup_dir + path));
        lemma_collapsed_without_double(backup_dir + path);
    }
}

/// Joining a backup directory that ends with a separator and a path that
/// begins with one leaves one separator between them.
pub proof fn law_join_keeps_one_separator(root: Seq<char>, rest: Seq<char>)
    requires
        no_double_separator(root + seq!['/']),
        no_double_separator(seq!['/'] + rest),
    ensures
        mirrored(root + seq!['/'], seq!['/'] + rest) == root + seq!['/'] + rest,
{
    law_backup_lies_under_root(root + seq!['/'], seq!['/'] + rest);
}

/// The way into the mirror and the way back agree: the live path of the
/// backup of `path` is `path`.
pub proof fn law_restored_path_of_backup(backup_dir: Seq<char>, path: Seq<char>)
    requires
        no_double_separator(backup_dir),
        no_double_separator(path),
        path.len() > 0 && path.first() == '/',
    ensures
        restored(backup_dir, mirrored(backup_dir, path)) == Some(path),
{
    law_backup_lies_under_root(backup_dir, path);
}

/// Calls `String::push`, which appends one character to the end of a
/// string.
#[verifier::external_body]
fn push_char(s: &mut String, c: char)
    ensures
        final(s)@ == old(s)@.push(c),
{
    s.push(c);
}

/// The path under `backup_dir` that holds the backup of `path`.
pub fn backup_path(backup_dir: &str, path: &str) -> (r: String)
    ensures
        r@ == mirrored(backup_dir@, path@),
{
    let mut joined = chars_of(backup_dir);
    let mut tail = chars_of(path);
    joined.append(&mut tail);
    let n: usize = joined.len();
    let mut out = String::new();
    let mut i: usize = 0;
    assert(joined@.skip(0) == joined@);
    while i < n
        invariant
            i <= n,
            n == joined@.len(),
            joined@ == backup_dir@ + path@,
            collapsed(joined@) == out@ + collapsed(joined@.skip(i as int)),
        decreases n - i,
    {
        let ghost rest = joined@.skip(i as int);
        if joined[i] == '/' && i + 1 < n && joined[i + 1] == '/' {
            assert(rest.skip(2) == joined@.skip(i + 2));
            push_char(&mut out, '/');
            i += 2;
        } else {
            assert(rest.skip(1) == joined@.skip(i + 1));
            assert(collapsed(rest) == seq![rest[0]] + collapsed(rest.skip(1)));
            push_char(&mut out, joined[i]);
            i += 1;
        }
    }
    out
}

/// The live path that the mirror entry `entry` is the backup of, if `entry`
/// begins with the root of the mirror.
pub fn target_path(backup_dir: &str, entry: &str) -> (r: Option<String>)
    ensures
        match r {
            Some(t) => restored(backup_dir@, entry@) == Some(t@),
            None => restored(backup_dir@, entry@) is None,
        },
{
    let dir = chars_of(backup_dir);
    let found = chars_of(entry);
    let base_len: usize = if dir.len() > 0 && dir[dir.len() - 1] == '/' {
        dir.len() - 1
    } else {
        dir.len()
    };
    let ghost root = mirror_root(backup_dir@);
    if found.len() < base_len {
        return None;
    }
    let mut k: usize = 0;
    while k < base_len
        invariant
            k <= base_len <= found@.len(),
            base_len <= dir@.len(),
            root == dir@.take(base_len as int),
            root == mirror_root(backup_dir@),
            found@ == entry@,
            forall|t: int| 0 <= t < k ==> found@[t] == dir@[t],
        decreases base_len - k,
    {
        if found[k] != dir[k] {
            assert(root[k as int] != found@.subrange(0, root.len() as int)[k as int]);
            return None;
        }
        k += 1;
    }
    Some(entry.substring_char(base_len, found.len()).to_owned())
}

} // verus!
