//! Tab completion for the shell's input line.
//!
//! The word before the cursor is completed against the built-in commands and
//! the scripts in /usr/bin (for the first word) or against file and directory
//! names (for later words). One match is completed outright, several are
//! completed as far as they agree, and otherwise listed.
use vstd::prelude::*;
use vstd::slice::slice_to_vec;
use crate::text::{
    byte_views, bytes_from, bytes_to, find, find_byte, has_prefix, rfind, rfind_byte, str_from_utf8,
};

verus! {

// ─── Byte-string order ────────────────────────────────────────────────────────

/// `a` and `b` agree on their first `k` bytes and `a` is smaller at `k`: `a`
/// ends there and `b` does not, or `a`'s byte is smaller.
pub open spec fn lex_lt_at(a: Seq<u8>, b: Seq<u8>, k: int) -> bool {
    &&& 0 <= k <= a.len()
    &&& k <= b.len()
    &&& a.take(k) == b.take(k)
    &&& ((k == a.len() && k < b.len()) || (k < a.len() && k < b.len() && a[k] < b[k]))
}

/// Byte-wise lexicographic order, the order of `String`'s `Ord`.
pub open spec fn lex_lt(a: Seq<u8>, b: Seq<u8>) -> bool {
    exists|k: int| lex_lt_at(a, b, k)
}

/// Every element is smaller than every later one.
pub open spec fn strictly_sorted(s: Seq<Seq<u8>>) -> bool {
    forall|i: int, j: int| 0 <= i < j < s.len() ==> lex_lt(#[trigger] s[i], #[trigger] s[j])
}

proof fn lemma_take_agree(a: Seq<u8>, b: Seq<u8>, k: int, j: int)
    requires
        0 <= j < k,
        k <= a.len(),
        k <= b.len(),
        a.take(k) == b.take(k),
    ensures
        a[j] == b[j],
{
    assert(a.take(k)[j] == a[j]);
    assert(b.take(k)[j] == b[j]);
    assert(a.take(k)[j] == b.take(k)[j]);
}

/// The order is transitive.
pub proof fn lemma_lex_lt_transitive(a: Seq<u8>, b: Seq<u8>, c: Seq<u8>)
    requires
        lex_lt(a, b),
        lex_lt(b, c),
    ensures
        lex_lt(a, c),
{
    let i = choose|k: int| lex_lt_at(a, b, k);
    let j = choose|k: int| lex_lt_at(b, c, k);
    if i < j {
        assert forall|t: int| 0 <= t < i implies a.take(i)[t] == c.take(i)[t] by {
            lemma_take_agree(a, b, i, t);
            lemma_take_agree(b, c, j, t);
        }
        assert(a.take(i) =~= c.take(i));
        if i < a.len() {
            lemma_take_agree(b, c, j, i);
        }
        assert(lex_lt_at(a, c, i));
    } else if j < i {
        assert forall|t: int| 0 <= t < j implies a.take(j)[t] == c.take(j)[t] by {
            lemma_take_agree(a, b, i, t);
            lemma_take_agree(b, c, j, t);
        }
        assert(a.take(j) =~= c.take(j));
        lemma_take_agree(a, b, i, j);
        assert(lex_lt_at(a, c, j));
    } else {
        assert forall|t: int| 0 <= t < i implies a.take(i)[t] == c.take(i)[t] by {
            lemma_take_agree(a, b, i, t);
            lemma_take_agree(b, c, j, t);
        }
        assert(a.take(i) =~= c.take(i));
        assert(lex_lt_at(a, c, i));
    }
}

pub proof fn lemma_lex_lt_irreflexive(a: Seq<u8>)
    ensures
        !lex_lt(a, a),
{
}

/// How two byte strings compare.
pub enum Cmp {
    Less,
    Equal,
    Greater,
}

/// Compare two byte strings lexicographically.
pub fn compare_bytes(a: &Vec<u8>, b: &Vec<u8>) -> (r: Cmp)
    ensures
        r is Less ==> lex_lt(a@, b@),
        r is Greater ==> lex_lt(b@, a@),
        r is Equal ==> a@ == b@,
{
    let mut i: usize = 0;
    while i < a.len() && i < b.len() && a[i] == b[i]
        invariant
            i <= a@.len(),
            i <= b@.len(),
            a@.take(i as int) == b@.take(i as int),
        decreases a@.len() - i,
    {
        i = i + 1;
        assert(a@.take(i as int) =~= b@.take(i as int)) by {
            assert forall|t: int| 0 <= t < i implies a@.take(i as int)[t] == b@.take(i as int)[t] by {
                if t < i - 1 {
                    assert(a@.take(i - 1)[t] == b@.take(i - 1)[t]);
                }
            }
        }
    }
    if i == a.len() && i == b.len() {
        assert(a@ =~= a@.take(i as int));
        assert(b@ =~= b@.take(i as int));
        Cmp::Equal
    } else if i == a.len() {
        assert(lex_lt_at(a@, b@, i as int));
        Cmp::Less
    } else if i == b.len() {
        assert(lex_lt_at(b@, a@, i as int));
        Cmp::Greater
    } else if a[i] < b[i] {
        assert(lex_lt_at(a@, b@, i as int));
        Cmp::Less
    } else {
        assert(lex_lt_at(b@, a@, i as int));
        Cmp::Greater
    }
}

/// Add `x` to a sorted list of distinct strings, keeping it sorted; a string
/// already there is not added again.
pub fn insert_sorted(m: &mut Vec<Vec<u8>>, x: Vec<u8>)
    requires
        strictly_sorted(byte_views(old(m)@)),
    ensures
        strictly_sorted(byte_views(final(m)@)),
        forall|t: Seq<u8>|
            byte_views(final(m)@).contains(t) <==> (byte_views(old(m)@).contains(t) || t == x@),
{
    let ghost old_views = byte_views(m@);
    let mut j: usize = 0;
    while j < m.len()
        invariant
            m@ == old(m)@,
            old_views == byte_views(m@),
            strictly_sorted(old_views),
            j <= m@.len(),
            forall|k: int| 0 <= k < j ==> lex_lt(#[trigger] old_views[k], x@),
        ensures
            m@ == old(m)@,
            old_views == byte_views(m@),
            j <= m@.len(),
            forall|k: int| 0 <= k < j ==> lex_lt(#[trigger] old_views[k], x@),
            j == m@.len() || lex_lt(x@, old_views[j as int]),
        decreases m@.len() - j,
    {
        match compare_bytes(&m[j], &x) {
            Cmp::Less => {
                assert(old_views[j as int] == m@[j as int]@);
            },
            Cmp::Equal => {
                assert(old_views[j as int] == x@);
                assert forall|t: Seq<u8>| byte_views(m@).contains(t) <==> (old_views.contains(t) || t
                    == x@) by {
                    if t == x@ {
                        assert(old_views[j as int] == t);
                    }
                }
                return;
            },
            Cmp::Greater => {
                assert(old_views[j as int] == m@[j as int]@);
                break;
            },
        }
        j = j + 1;
    }
    let ghost xv = x@;
    m.insert(j, x);
    let ghost nv = byte_views(m@);
    assert(nv =~= old_views.insert(j as int, xv));
    assert forall|a: int, b: int| 0 <= a < b < nv.len() implies lex_lt(#[trigger] nv[a], #[trigger] nv[b]) by {
        if b < j {
            assert(nv[a] == old_views[a] && nv[b] == old_views[b]);
        } else if b == j {
            assert(nv[a] == old_views[a]);
        } else if a == j {
            assert(nv[b] == old_views[b - 1]);
            if b - 1 > j {
                assert(lex_lt(old_views[j as int], old_views[b - 1]));
                lemma_lex_lt_transitive(xv, old_views[j as int], old_views[b - 1]);
            }
        } else if a < j {
            assert(nv[a] == old_views[a] && nv[b] == old_views[b - 1]);
        } else {
            assert(nv[a] == old_views[a - 1] && nv[b] == old_views[b - 1]);
        }
    }
    assert forall|t: Seq<u8>| nv.contains(t) <==> (old_views.contains(t) || t == xv) by {
        if nv.contains(t) {
            let k = choose|k: int| 0 <= k < nv.len() && nv[k] == t;
            if k < j {
                assert(old_views[k] == t);
            } else if k > j {
                assert(old_views[k - 1] == t);
            }
        }
        if old_views.contains(t) {
            let k = choose|k: int| 0 <= k < old_views.len() && old_views[k] == t;
            if k < j {
                assert(nv[k] == t);
            } else {
                assert(nv[k + 1] == t);
            }
        }
        if t == xv {
            assert(nv[j as int] == t);
        }
    }
}

// ─── Candidates ───────────────────────────────────────────────────────────────

/// The shell's built-in commands.
pub open spec fn builtin_commands() -> Seq<Seq<u8>> {
    seq![
        seq![0x63u8, 0x6c, 0x65, 0x61, 0x72],
        seq![0x70u8, 0x77, 0x64],
        seq![0x70u8, 0x69, 0x6e, 0x67],
        seq![0x6eu8, 0x73, 0x6c, 0x6f, 0x6f, 0x6b, 0x75, 0x70],
        seq![0x6eu8, 0x6f, 0x64, 0x65],
        seq![0x68u8, 0x65, 0x6c, 0x70],
        seq![0x6cu8, 0x73],
        seq![0x63u8, 0x61, 0x74],
        seq![0x65u8, 0x63, 0x68, 0x6f],
        seq![0x63u8, 0x6f, 0x77, 0x73, 0x61, 0x79],
        seq![0x73u8, 0x79, 0x73, 0x69, 0x6e, 0x66, 0x6f],
        seq![0x69u8, 0x70],
        seq![0x6eu8, 0x65, 0x74, 0x73, 0x74, 0x61, 0x74],
        seq![0x6du8, 0x65, 0x6d, 0x73, 0x74, 0x61, 0x74, 0x73],
        seq![0x75u8, 0x70, 0x74, 0x69, 0x6d, 0x65],
        seq![0x77u8, 0x72, 0x69, 0x74, 0x65],
        seq![0x77u8, 0x67, 0x65, 0x74],
        seq![0x63u8, 0x64],
        seq![0x73u8, 0x68, 0x75, 0x74, 0x64, 0x6f, 0x77, 0x6e],
    ]
}

pub const BUILTIN_COUNT: usize = 19;

fn builtin_command(i: usize) -> (r: Vec<u8>)
    requires
        i < BUILTIN_COUNT,
    ensures
        r@ == builtin_commands()[i as int],
{
    match i {
        0 => slice_to_vec(&[0x63u8, 0x6c, 0x65, 0x61, 0x72]),
        1 => slice_to_vec(&[0x70u8, 0x77, 0x64]),
        2 => slice_to_vec(&[0x70u8, 0x69, 0x6e, 0x67]),
        3 => slice_to_vec(&[0x6eu8, 0x73, 0x6c, 0x6f, 0x6f, 0x6b, 0x75, 0x70]),
        4 => slice_to_vec(&[0x6eu8, 0x6f, 0x64, 0x65]),
        5 => slice_to_vec(&[0x68u8, 0x65, 0x6c, 0x70]),
        6 => slice_to_vec(&[0x6cu8, 0x73]),
        7 => slice_to_vec(&[0x63u8, 0x61, 0x74]),
        8 => slice_to_vec(&[0x65u8, 0x63, 0x68, 0x6f]),
        9 => slice_to_vec(&[0x63u8, 0x6f, 0x77, 0x73, 0x61, 0x79]),
        10 => slice_to_vec(&[0x73u8, 0x79, 0x73, 0x69, 0x6e, 0x66, 0x6f]),
        11 => slice_to_vec(&[0x69u8, 0x70]),
        12 => slice_to_vec(&[0x6eu8, 0x65, 0x74, 0x73, 0x74, 0x61, 0x74]),
        13 => slice_to_vec(&[0x6du8, 0x65, 0x6d, 0x73, 0x74, 0x61, 0x74, 0x73]),
        14 => slice_to_vec(&[0x75u8, 0x70, 0x74, 0x69, 0x6d, 0x65]),
        15 => slice_to_vec(&[0x77u8, 0x72, 0x69, 0x74, 0x65]),
        16 => slice_to_vec(&[0x77u8, 0x67, 0x65, 0x74]),
        17 => slice_to_vec(&[0x63u8, 0x64]),
        _ => slice_to_vec(&[0x73u8, 0x68, 0x75, 0x74, 0x64, 0x6f, 0x77, 0x6e]),
    }
}

/// Where scripts live.
pub open spec fn usr_bin() -> Seq<u8> {
    seq![0x2fu8, 0x75, 0x73, 0x72, 0x2f, 0x62, 0x69, 0x6e, 0x2f]
}

/// A completion for the first word: a built-in command or a script in
/// /usr/bin whose name starts with the word.
pub open spec fn is_command_candidate(c: Seq<u8>, word: Seq<u8>, files: Seq<Seq<u8>>) -> bool {
    word.is_prefix_of(c) && (builtin_commands().contains(c) || exists|k: int|
        0 <= k < files.len() && usr_bin().is_prefix_of(#[trigger] files[k]) && c == files[k].skip(
            usr_bin().len() as int,
        ))
}

/// The directory to search and the name prefix to complete, from the path
/// being completed: the part before and after its last '/' (the root when the
/// path has no '/' or only a leading one).
pub open spec fn split_dir(p: Seq<u8>) -> (Seq<u8>, Seq<u8>) {
    match rfind(p, 0x2f) {
        Some(k) => if k == 0 {
            (seq![0x2fu8], p.skip(1))
        } else {
            (p.take(k), p.skip(k + 1))
        },
        None => (seq![0x2fu8], p),
    }
}

/// What the file named `f` offers when completing `prefix` inside `dir`: its
/// first path component below `dir`, with a '/' after it when more of the path
/// follows (a directory), if that component is non-empty and starts with
/// `prefix`. The byte after a directory other than the root is skipped, as
/// the path separator.
pub open spec fn child_completion(f: Seq<u8>, dir: Seq<u8>, prefix: Seq<u8>) -> Option<Seq<u8>> {
    let root = dir == seq![0x2fu8];
    if !dir.is_prefix_of(f) {
        None
    } else if !root && f.len() <= dir.len() + 1 {
        None
    } else {
        let rel = if root {
            f.skip(1)
        } else {
            f.skip(dir.len() + 1 as int)
        };
        let child = match find(rel, 0x2f) {
            Some(k) => rel.take(k),
            None => rel,
        };
        if child.len() == 0 || !prefix.is_prefix_of(child) {
            None
        } else if rel.len() > child.len() {
            Some(child.push(0x2f))
        } else {
            Some(child)
        }
    }
}

/// A completion for a later word, inside the directory of `path`.
pub open spec fn is_path_candidate(c: Seq<u8>, path: Seq<u8>, files: Seq<Seq<u8>>) -> bool {
    let (dir, prefix) = split_dir(path);
    exists|k: int| 0 <= k < files.len() && child_completion(#[trigger] files[k], dir, prefix) == Some(c)
}

/// Where the word being completed starts: after the line's last space.
pub open spec fn word_start(input: Seq<u8>) -> int {
    match rfind(input, 0x20) {
        Some(k) => k + 1,
        None => 0,
    }
}

/// The word being completed.
pub open spec fn completion_word(input: Seq<u8>) -> Seq<u8> {
    input.skip(word_start(input))
}

/// Whether the word is the command (no space before it).
pub open spec fn completing_command(input: Seq<u8>) -> bool {
    rfind(input, 0x20) is None
}

/// The path a later word stands for: itself when absolute, else `resolved`
/// (the word resolved against the working directory).
pub open spec fn completion_path(input: Seq<u8>, resolved: Seq<u8>) -> Seq<u8> {
    let w = completion_word(input);
    if w.len() > 0 && w[0] == 0x2f {
        w
    } else {
        resolved
    }
}

/// The completions of the line `input` given the file system's names.
pub open spec fn is_tab_candidate(c: Seq<u8>, input: Seq<u8>, files: Seq<Seq<u8>>, resolved: Seq<u8>) -> bool {
    if completing_command(input) {
        is_command_candidate(c, completion_word(input), files)
    } else {
        is_path_candidate(c, completion_path(input, resolved), files)
    }
}

fn command_matches(word: &Vec<u8>, files: &Vec<Vec<u8>>) -> (m: Vec<Vec<u8>>)
    ensures
        strictly_sorted(byte_views(m@)),
        forall|t: Seq<u8>|
            byte_views(m@).contains(t) <==> is_command_candidate(t, word@, byte_views(files@)),
{
    let mut m: Vec<Vec<u8>> = Vec::new();
    let mut i: usize = 0;
    while i < BUILTIN_COUNT
        invariant
            i <= BUILTIN_COUNT,
            strictly_sorted(byte_views(m@)),
            forall|t: Seq<u8>|
                byte_views(m@).contains(t) <==> (word@.is_prefix_of(t) && exists|k: int|
                    0 <= k < i && builtin_commands()[k] == t),
        decreases BUILTIN_COUNT - i,
    {
        let name = builtin_command(i);
        let ghost before = byte_views(m@);
        let ghost nv = name@;
        let matched = has_prefix(&name, word.as_slice());
        if matched {
            insert_sorted(&mut m, name);
        }
        i = i + 1;
        proof {
            assert(nv == builtin_commands()[i - 1]);
            assert forall|t: Seq<u8>| byte_views(m@).contains(t) <==> (word@.is_prefix_of(t) && exists|
                k: int,
            | 0 <= k < i && builtin_commands()[k] == t) by {
                if word@.is_prefix_of(t) && exists|k: int| 0 <= k < i && builtin_commands()[k] == t {
                    let k = choose|k: int| 0 <= k < i && builtin_commands()[k] == t;
                    if k < i - 1 {
                        assert(before.contains(t));
                    }
                }
                if byte_views(m@).contains(t) {
                    if !before.contains(t) {
                        assert(t == nv);
                        assert(builtin_commands()[i - 1] == t);
                        assert(matched);
                        assert(word@.is_prefix_of(t));
                    } else {
                        assert(word@.is_prefix_of(t));
                        assert(exists|k: int| 0 <= k < i - 1 && builtin_commands()[k] == t);
                    }
                }
            }
        }
    }
    proof {
        assert forall|t: Seq<u8>| builtin_commands().contains(t) <==> exists|k: int|
            0 <= k < BUILTIN_COUNT && builtin_commands()[k] == t by {
            if builtin_commands().contains(t) {
                let k = choose|k: int| 0 <= k < builtin_commands().len() && builtin_commands()[k] == t;
            }
        }
    }
    let ghost fv = byte_views(files@);
    let mut j: usize = 0;
    while j < files.len()
        invariant
            j <= files@.len(),
            fv == byte_views(files@),
            strictly_sorted(byte_views(m@)),
            forall|t: Seq<u8>|
                byte_views(m@).contains(t) <==> (word@.is_prefix_of(t) && (builtin_commands().contains(t)
                    || exists|k: int|
                    0 <= k < j && usr_bin().is_prefix_of(#[trigger] fv[k]) && t == fv[k].skip(
                        usr_bin().len() as int,
                    ))),
        decreases files@.len() - j,
    {
        let f = &files[j];
        assert(f@ == fv[j as int]);
        let ghost before = byte_views(m@);
        if has_prefix(f, &[0x2fu8, 0x75, 0x73, 0x72, 0x2f, 0x62, 0x69, 0x6e, 0x2f]) {
            assert(seq![0x2fu8, 0x75, 0x73, 0x72, 0x2f, 0x62, 0x69, 0x6e, 0x2f] == usr_bin());
            let name = bytes_from(f, 9);
            if has_prefix(&name, word.as_slice()) {
                insert_sorted(&mut m, name);
            }
        }
        proof {
            assert forall|t: Seq<u8>| byte_views(m@).contains(t) <==> (word@.is_prefix_of(t) && (
            builtin_commands().contains(t) || exists|k: int|
                0 <= k < j + 1 && usr_bin().is_prefix_of(#[trigger] fv[k]) && t == fv[k].skip(
                    usr_bin().len() as int,
                ))) by {
                if exists|k: int|
                    0 <= k < j + 1 && usr_bin().is_prefix_of(#[trigger] fv[k]) && t == fv[k].skip(
                        usr_bin().len() as int,
                    ) {
                    let k = choose|k: int|
                        0 <= k < j + 1 && usr_bin().is_prefix_of(#[trigger] fv[k]) && t == fv[k].skip(
                            usr_bin().len() as int,
                        );
                    if k < j && word@.is_prefix_of(t) {
                        assert(before.contains(t));
                    }
                }
            }
        }
        j = j + 1;
    }
    m
}

fn split_dir_exec(p: &Vec<u8>) -> (r: (Vec<u8>, Vec<u8>))
    ensures
        (r.0@, r.1@) == split_dir(p@),
{
    let plen = p.len();
    match rfind_byte(p, 0x2f) {
        Some(k) => if k == 0 {
            (slice_to_vec(&[0x2fu8]), bytes_from(p, 1))
        } else {
            (bytes_to(p, k), bytes_from(p, k + 1))
        },
        None => (slice_to_vec(&[0x2fu8]), p.clone()),
    }
}

fn child_completion_exec(f: &Vec<u8>, dir: &Vec<u8>, prefix: &Vec<u8>) -> (r: Option<Vec<u8>>)
    ensures
        match r {
            Some(c) => child_completion(f@, dir@, prefix@) == Some(c@),
            None => child_completion(f@, dir@, prefix@) is None,
        },
{
    let root = dir.len() == 1 && dir[0] == 0x2f;
    proof {
        if root {
            assert(dir@ =~= seq![0x2fu8]);
        }
    }
    if !has_prefix(f, dir.as_slice()) {
        return None;
    }
    if !root && f.len() - dir.len() <= 1 {
        return None;
    }
    let rel = if root {
        bytes_from(f, 1)
    } else {
        bytes_from(f, dir.len() + 1)
    };
    let mut child = match find_byte(&rel, 0x2f) {
        Some(k) => bytes_to(&rel, k),
        None => rel.clone(),
    };
    if child.len() == 0 || !has_prefix(&child, prefix.as_slice()) {
        return None;
    }
    if rel.len() > child.len() {
        child.push(0x2f);
    }
    Some(child)
}

fn path_matches(path: &Vec<u8>, files: &Vec<Vec<u8>>) -> (m: Vec<Vec<u8>>)
    ensures
        strictly_sorted(byte_views(m@)),
        forall|t: Seq<u8>| byte_views(m@).contains(t) <==> is_path_candidate(t, path@, byte_views(files@)),
{
    let (dir, prefix) = split_dir_exec(path);
    let ghost fv = byte_views(files@);
    let mut m: Vec<Vec<u8>> = Vec::new();
    let mut j: usize = 0;
    while j < files.len()
        invariant
            j <= files@.len(),
            fv == byte_views(files@),
            (dir@, prefix@) == split_dir(path@),
            strictly_sorted(byte_views(m@)),
            forall|t: Seq<u8>|
                byte_views(m@).contains(t) <==> exists|k: int|
                    0 <= k < j && child_completion(#[trigger] fv[k], dir@, prefix@) == Some(t),
        decreases files@.len() - j,
    {
        let f = &files[j];
        assert(f@ == fv[j as int]);
        let ghost before = byte_views(m@);
        match child_completion_exec(f, &dir, &prefix) {
            Some(c) => insert_sorted(&mut m, c),
            None => {},
        }
        proof {
            assert forall|t: Seq<u8>| byte_views(m@).contains(t) <==> exists|k: int|
                0 <= k < j + 1 && child_completion(#[trigger] fv[k], dir@, prefix@) == Some(t) by {
                if exists|k: int| 0 <= k < j + 1 && child_completion(#[trigger] fv[k], dir@, prefix@) == Some(t) {
                    let k = choose|k: int| 0 <= k < j + 1 && child_completion(#[trigger] fv[k], dir@, prefix@) == Some(t);
                    if k < j {
                        assert(before.contains(t));
                    }
                }
            }
        }
        j = j + 1;
    }
    m
}

// ─── Common prefix ────────────────────────────────────────────────────────────

/// Length of the common prefix of `a` and `b`, counting from `i` (where they
/// are known to agree before `i`).
pub open spec fn common_len_from(a: Seq<u8>, b: Seq<u8>, i: int) -> int
    decreases a.len() - i,
{
    if 0 <= i && i < a.len() && i < b.len() && a[i] == b[i] {
        common_len_from(a, b, i + 1)
    } else {
        i
    }
}

/// Length of the common prefix of `a` and `b`.
pub open spec fn common_len(a: Seq<u8>, b: Seq<u8>) -> int {
    common_len_from(a, b, 0)
}

/// Length of the longest prefix all of `m` share.
pub open spec fn lcp_len(m: Seq<Seq<u8>>) -> int
    decreases m.len(),
{
    if m.len() == 0 {
        0
    } else if m.len() == 1 {
        m[0].len() as int
    } else {
        let r = lcp_len(m.drop_last());
        let c = common_len(m[0], m.last());
        if c < r {
            c
        } else {
            r
        }
    }
}

proof fn lemma_common_len_from(a: Seq<u8>, b: Seq<u8>, i: int, j: int)
    requires
        0 <= i <= j,
        j <= a.len(),
        j <= b.len(),
        forall|t: int| i <= t < j ==> a[t] == b[t],
    ensures
        common_len_from(a, b, i) == common_len_from(a, b, j),
        common_len_from(a, b, j) >= j,
    decreases j - i, a.len() - j,
{
    if i < j {
        lemma_common_len_from(a, b, i + 1, j);
    } else if j < a.len() && j < b.len() && a[j] == b[j] {
        lemma_common_len_from(a, b, j + 1, j + 1);
    }
}

proof fn lemma_lcp_bound(m: Seq<Seq<u8>>)
    requires
        m.len() > 0,
    ensures
        0 <= lcp_len(m) <= m[0].len(),
    decreases m.len(),
{
    if m.len() > 1 {
        lemma_lcp_bound(m.drop_last());
        lemma_common_len_from(m[0], m.last(), 0, 0);
    }
}

/// The longest prefix all of `strings` share (empty for no strings).
pub fn find_common_prefix(strings: &Vec<Vec<u8>>) -> (r: Vec<u8>)
    ensures
        strings@.len() == 0 ==> r@.len() == 0,
        strings@.len() > 0 ==> r@ == strings@[0]@.take(lcp_len(byte_views(strings@))),
{
    if strings.len() == 0 {
        return Vec::new();
    }
    let ghost v = byte_views(strings@);
    let first = &strings[0];
    let mut prefix_len: usize = first.len();
    let mut idx: usize = 1;
    assert(v.take(1).len() == 1);
    while idx < strings.len()
        invariant
            v == byte_views(strings@),
            strings@.len() > 0,
            first@ == v[0],
            1 <= idx <= strings@.len(),
            prefix_len == lcp_len(v.take(idx as int)),
            prefix_len <= first@.len(),
        decreases strings@.len() - idx,
    {
        let s = &strings[idx];
        assert(s@ == v[idx as int]);
        let mut common: usize = 0;
        while common < first.len() && common < s.len() && first[common] == s[common] && common < prefix_len
            invariant
                common <= prefix_len,
                prefix_len <= first@.len(),
                common <= s@.len(),
                forall|t: int| 0 <= t < common ==> first@[t] == s@[t],
            decreases prefix_len - common,
        {
            common = common + 1;
        }
        proof {
            lemma_common_len_from(first@, s@, 0, common as int);
            assert(v.take(idx + 1).drop_last() =~= v.take(idx as int));
            assert(v.take(idx + 1)[0] == v[0]);
            assert(v.take(idx + 1).last() == s@);
        }
        prefix_len = common;
        idx = idx + 1;
    }
    assert(v.take(strings@.len() as int) =~= v);
    bytes_to(first, prefix_len)
}

// ─── Completing the line ─────────────────────────────────────────────────────

/// What a Tab did.
pub struct TabOutcome {
    /// The line's new length.
    pub new_len: usize,
    /// What to echo: the text added to the line.
    pub echo: Vec<u8>,
    /// The completions, sorted.
    pub matches: Vec<Vec<u8>>,
    /// The completions are to be listed, four to a row in 16-column cells,
    /// followed by the prompt and the line again.
    pub listed: bool,
}

/// What was typed of the name being completed: the word itself for a
/// command, the part after the directory for a path.
pub open spec fn typed_prefix(input: Seq<u8>, resolved: Seq<u8>) -> Seq<u8> {
    if completing_command(input) {
        completion_word(input)
    } else {
        split_dir(completion_path(input, resolved)).1
    }
}

/// Every completion starts with what was typed of it.
pub proof fn lemma_candidate_extends_typed(c: Seq<u8>, input: Seq<u8>, files: Seq<Seq<u8>>, resolved: Seq<u8>)
    requires
        is_tab_candidate(c, input, files, resolved),
    ensures
        typed_prefix(input, resolved).is_prefix_of(c),
{
    if !completing_command(input) {
        let (dir, prefix) = split_dir(completion_path(input, resolved));
        let k = choose|k: int| 0 <= k < files.len() && child_completion(#[trigger] files[k], dir, prefix) == Some(c);
        let f = files[k];
        let root = dir == seq![0x2fu8];
        let rel = if root {
            f.skip(1)
        } else {
            f.skip(dir.len() + 1 as int)
        };
        let child = match find(rel, 0x2f) {
            Some(j) => rel.take(j),
            None => rel,
        };
        if rel.len() > child.len() {
            assert(c == child.push(0x2f));
            assert forall|i: int| 0 <= i < prefix.len() implies c[i] == prefix[i] by {
                assert(c[i] == child[i]);
            }
        }
    }
}

/// How the matches `m` change the line `b0[..len]` (in a buffer of `b0.len()`
/// bytes) when `wlen` bytes of the name were typed: a lone match adds the rest
/// of itself (and a space after a command); several add as much as they share
/// beyond what was typed, or else are listed. Text that does not fit in the
/// buffer is not added.
pub open spec fn completion_applied(
    b0: Seq<u8>,
    len: int,
    wlen: int,
    command: bool,
    m: Seq<Seq<u8>>,
    b1: Seq<u8>,
    new_len: int,
    echo: Seq<u8>,
    listed: bool,
) -> bool {
    let unchanged = b1 == b0 && new_len == len && echo.len() == 0;
    if m.len() == 0 {
        unchanged && !listed
    } else if m.len() == 1 {
        let add = m[0].skip(wlen);
        let nl = len + add.len();
        &&& !listed
        &&& if nl <= b0.len() {
            if command && nl + 1 <= b0.len() {
                &&& b1 == b0.take(len) + add + seq![0x20u8] + b0.skip(nl + 1)
                &&& new_len == nl + 1
                &&& echo == add.push(0x20)
            } else {
                &&& b1 == b0.take(len) + add + b0.skip(nl)
                &&& new_len == nl
                &&& echo == add
            }
        } else {
            unchanged
        }
    } else {
        let common = m[0].take(lcp_len(m));
        if common.len() > wlen {
            let add = common.skip(wlen);
            let nl = len + add.len();
            &&& !listed
            &&& if nl <= b0.len() {
                &&& b1 == b0.take(len) + add + b0.skip(nl)
                &&& new_len == nl
                &&& echo == add
            } else {
                unchanged
            }
        } else {
            unchanged && listed
        }
    }
}

fn write_at(buffer: &mut Vec<u8>, pos: usize, add: &Vec<u8>)
    requires
        pos + add@.len() <= old(buffer)@.len(),
    ensures
        final(buffer)@ == old(buffer)@.take(pos as int) + add@ + old(buffer)@.skip(pos + add@.len()),
{
    let n = buffer.len();
    let mut i: usize = 0;
    while i < add.len()
        invariant
            pos + add@.len() <= old(buffer)@.len(),
            n == old(buffer)@.len(),
            buffer@.len() == old(buffer)@.len(),
            i <= add@.len(),
            forall|k: int| 0 <= k < pos ==> buffer@[k] == old(buffer)@[k],
            forall|k: int| 0 <= k < i ==> buffer@[pos + k] == add@[k],
            forall|k: int| pos + i <= k < buffer@.len() ==> buffer@[k] == old(buffer)@[k],
        decreases add@.len() - i,
    {
        buffer.set(pos + i, add[i]);
        i = i + 1;
    }
    assert(buffer@ =~= old(buffer)@.take(pos as int) + add@ + old(buffer)@.skip(pos + add@.len()));
}

/// Complete the word before the cursor in `buffer[..len]`.
///
/// `files` are the names the file system lists (full paths) and `resolved` is
/// the word resolved against the working directory (used for a later word
/// that is not an absolute path). An empty line, or one that is not UTF-8,
/// stays as it is.
pub fn handle_tab_completion(buffer: &mut Vec<u8>, len: usize, files: &Vec<Vec<u8>>, resolved: &Vec<u8>) -> (r: TabOutcome)
    requires
        len <= old(buffer)@.len(),
    ensures
        final(buffer)@.len() == old(buffer)@.len(),
        ({
            let input = old(buffer)@.take(len as int);
            if len == 0 || !vstd::utf8::valid_utf8(input) {
                &&& final(buffer)@ == old(buffer)@
                &&& r.new_len == len
                &&& r.echo@.len() == 0
                &&& r.matches@.len() == 0
                &&& !r.listed
            } else {
                &&& strictly_sorted(byte_views(r.matches@))
                &&& forall|t: Seq<u8>|
                    byte_views(r.matches@).contains(t) <==> is_tab_candidate(
                        t,
                        input,
                        byte_views(files@),
                        resolved@,
                    )
                &&& completion_applied(
                    old(buffer)@,
                    len as int,
                    typed_prefix(input, resolved@).len() as int,
                    completing_command(input),
                    byte_views(r.matches@),
                    final(buffer)@,
                    r.new_len as int,
                    r.echo@,
                    r.listed,
                )
            }
        }),
{
    let nothing = TabOutcome { new_len: len, echo: Vec::new(), matches: Vec::new(), listed: false };
    if len == 0 {
        return nothing;
    }
    let input = bytes_to(buffer, len);
    if str_from_utf8(input.as_slice()).is_none() {
        return nothing;
    }
    let last_space = rfind_byte(&input, 0x20);
    let is_command = last_space.is_none();
    let start: usize = match last_space {
        Some(p) => p + 1,
        None => 0,
    };
    let word = bytes_from(&input, start);
    let (matches, typed) = if is_command {
        (command_matches(&word, files), word.len())
    } else {
        let path = if word.len() > 0 && word[0] == 0x2f {
            word.clone()
        } else {
            resolved.clone()
        };
        let (_dir, prefix) = split_dir_exec(&path);
        (path_matches(&path, files), prefix.len())
    };
    let cap = buffer.len();
    let ghost mv = byte_views(matches@);
    let ghost input_v = input@;
    assert(forall|t: Seq<u8>| mv.contains(t) <==> is_tab_candidate(t, input_v, byte_views(files@), resolved@));
    assert(typed == typed_prefix(input_v, resolved@).len());
    if matches.len() == 0 {
        return TabOutcome { new_len: len, echo: Vec::new(), matches, listed: false };
    }
    if matches.len() == 1 {
        let c = &matches[0];
        proof {
            assert(mv[0] == c@);
            assert(mv.contains(c@));
            assert forall|d: Seq<u8>| is_tab_candidate(d, input_v, byte_views(files@), resolved@) implies d == c@ by {
                assert(mv.contains(d));
            }
            assert(is_tab_candidate(c@, input_v, byte_views(files@), resolved@));
            lemma_candidate_extends_typed(c@, input_v, byte_views(files@), resolved@);
        }
        let add = bytes_from(c, typed);
        if add.len() <= cap - len {
            let nl = len + add.len();
            write_at(buffer, len, &add);
            if is_command && nl < cap {
                let ghost mid = buffer@;
                buffer.set(nl, 0x20);
                let mut echo = add;
                echo.push(0x20);
                assert(buffer@ =~= old(buffer)@.take(len as int) + c@.skip(typed as int) + seq![
                    0x20u8,
                ] + old(buffer)@.skip(nl + 1));
                return TabOutcome { new_len: nl + 1, echo, matches, listed: false };
            }
            return TabOutcome { new_len: nl, echo: add, matches, listed: false };
        }
        return TabOutcome { new_len: len, echo: Vec::new(), matches, listed: false };
    }
    let common = find_common_prefix(&matches);
    proof {
        lemma_lcp_bound(mv);
    }
    if common.len() > typed {
        let add = bytes_from(&common, typed);
        if add.len() <= cap - len {
            let nl = len + add.len();
            write_at(buffer, len, &add);
            return TabOutcome { new_len: nl, echo: add, matches, listed: false };
        }
        return TabOutcome { new_len: len, echo: Vec::new(), matches, listed: false };
    }
    TabOutcome { new_len: len, echo: Vec::new(), matches, listed: true }
}

} // verus!
