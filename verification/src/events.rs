//! Filesystem notifications as the core sees them, and the replay-file
//! filter: which paths name a freshly created replay.
//!
//! A path is a sequence of bytes. Its file name is what follows the last
//! separator; its extension is what follows the last dot of the file name,
//! provided that dot is not the file name's first byte (a leading dot marks
//! a hidden file, not an extension). A replay file is one whose extension,
//! compared without regard to ASCII case, is `wowsreplay`.

use vstd::prelude::*;

verus! {

pub const SLASH: u8 = 47;

pub const DOT: u8 = 46;

/// What a filesystem notification reports happened.
#[derive(Clone, Copy, Debug, PartialEq, Eq, Structural)]
pub enum EventKind {
    Created,
    Modified,
    Removed,
    Other,
}

/// One filesystem notification: what happened, and the affected paths.
#[derive(Clone, Debug, PartialEq, Eq)]
pub struct FsEvent {
    pub kind: EventKind,
    pub paths: Vec<Vec<u8>>,
}

/// Why the watch subsystem failed: either when a watch was established or
/// torn down, or — polled from the event queue — because the running watch
/// itself has gone stale.
#[derive(Clone, Copy, Debug, PartialEq, Eq, Structural)]
pub enum WatchError {
    PathNotFound,
    WatchNotFound,
    ResourceLimit,
    Other,
}

/// The file name: the longest suffix holding no separator.
pub open spec fn file_name_of(p: Seq<u8>) -> Seq<u8>
    decreases p.len(),
{
    if p.len() == 0 {
        p
    } else if p.last() == SLASH {
        Seq::empty()
    } else {
        file_name_of(p.drop_last()).push(p.last())
    }
}

/// The directory part: what precedes the last separator, or nothing when the
/// path holds no separator.
pub open spec fn dir_of(p: Seq<u8>) -> Option<Seq<u8>>
    decreases p.len(),
{
    if p.len() == 0 {
        Option::None
    } else if p.last() == SLASH {
        Option::Some(p.drop_last())
    } else {
        dir_of(p.drop_last())
    }
}

/// The extension of a file name: what follows its last dot, provided that
/// dot is preceded by at least one byte. `Some(empty)` for a name that ends
/// in a dot; nothing for a dotless or hidden-file name.
pub open spec fn ext_of(n: Seq<u8>) -> Option<Seq<u8>>
    decreases n.len(),
{
    if n.len() == 0 {
        Option::None
    } else if n.last() == DOT {
        if n.len() >= 2 {
            Option::Some(Seq::empty())
        } else {
            Option::None
        }
    } else {
        match ext_of(n.drop_last()) {
            Option::Some(e) => Option::Some(e.push(n.last())),
            Option::None => Option::None,
        }
    }
}

/// ASCII lower-casing of one byte.
pub open spec fn lower_byte(c: u8) -> u8 {
    if 65 <= c <= 90 {
        (c + 32) as u8
    } else {
        c
    }
}

/// The bytes of `wowsreplay`, the recognized replay extension.
pub open spec fn replay_ext() -> Seq<u8> {
    seq![119u8, 111u8, 119u8, 115u8, 114u8, 101u8, 112u8, 108u8, 97u8, 121u8]
}

/// Whether `p` names a replay file: it has an extension, and that extension
/// is the recognized one, ASCII case notwithstanding.
pub open spec fn is_replay_path(p: Seq<u8>) -> bool {
    match ext_of(file_name_of(p)) {
        Option::Some(e) => e.map_values(|c: u8| lower_byte(c)) == replay_ext(),
        Option::None => false,
    }
}

/// A suffix free of separators that begins at a separator (or at the start)
/// is the file name.
proof fn lemma_file_name_at(p: Seq<u8>, s: int)
    requires
        0 <= s <= p.len(),
        forall|j: int| s <= j < p.len() ==> p[j] != SLASH,
        s == 0 || p[s - 1] == SLASH,
    ensures
        file_name_of(p) == p.subrange(s, p.len() as int),
    decreases p.len(),
{
    if p.len() == s {
        if s == 0 {
            assert(file_name_of(p) =~= p.subrange(0, 0));
        } else {
            assert(p.last() == SLASH);
            assert(file_name_of(p) =~= p.subrange(s, s));
        }
    } else {
        assert(p.last() != SLASH);
        lemma_file_name_at(p.drop_last(), s);
        assert(p.drop_last().subrange(s, p.len() - 1).push(p.last()) =~= p.subrange(
            s,
            p.len() as int,
        ));
    }
}

/// A path free of separators has no directory part.
proof fn lemma_dir_of_none(p: Seq<u8>)
    requires
        forall|j: int| 0 <= j < p.len() ==> p[j] != SLASH,
    ensures
        dir_of(p) is None,
    decreases p.len(),
{
    if p.len() > 0 {
        lemma_dir_of_none(p.drop_last());
    }
}

/// The directory part reaches up to the last separator.
proof fn lemma_dir_of_at(p: Seq<u8>, s: int)
    requires
        0 <= s < p.len(),
        p[s] == SLASH,
        forall|j: int| s < j < p.len() ==> p[j] != SLASH,
    ensures
        dir_of(p) == Option::Some(p.subrange(0, s)),
    decreases p.len(),
{
    if s == p.len() - 1 {
        assert(p.drop_last() =~= p.subrange(0, s));
    } else {
        assert(p.last() != SLASH);
        lemma_dir_of_at(p.drop_last(), s);
        assert(p.drop_last().subrange(0, s) =~= p.subrange(0, s));
    }
}

/// A dot at `d`, with only dotless bytes after it, yields the extension that
/// follows it.
proof fn lemma_ext_at(n: Seq<u8>, d: int)
    requires
        1 <= d < n.len(),
        n[d] == DOT,
        forall|j: int| d < j < n.len() ==> n[j] != DOT,
    ensures
        ext_of(n) == Option::Some(n.subrange(d + 1, n.len() as int)),
    decreases n.len(),
{
    if d == n.len() - 1 {
        assert(ext_of(n) == Option::Some(Seq::<u8>::empty()));
        assert(Seq::<u8>::empty() =~= n.subrange(d + 1, n.len() as int));
    } else {
        assert(n.last() != DOT);
        lemma_ext_at(n.drop_last(), d);
        assert(n.drop_last().subrange(d + 1, n.len() - 1).push(n.last()) =~= n.subrange(
            d + 1,
            n.len() as int,
        ));
    }
}

/// A name without an interior dot has no extension.
proof fn lemma_ext_none(n: Seq<u8>)
    requires
        forall|j: int| 1 <= j < n.len() ==> n[j] != DOT,
    ensures
        ext_of(n) is None,
    decreases n.len(),
{
    if n.len() == 0 {
    } else if n.last() == DOT {
        assert(n.len() < 2);
    } else {
        lemma_ext_none(n.drop_last());
    }
}

/// The index right after the last separator: the file name starts here.
fn file_name_start(p: &Vec<u8>) -> (s: usize)
    ensures
        s <= p@.len(),
        file_name_of(p@) == p@.subrange(s as int, p@.len() as int),
        s == 0 ==> dir_of(p@) is None,
        s >= 1 ==> dir_of(p@) == Option::Some(p@.subrange(0, s - 1)),
{
    let mut k: usize = p.len();
    while k > 0
        invariant
            0 <= k <= p@.len(),
            forall|j: int| k <= j < p@.len() ==> p@[j] != SLASH,
        decreases k,
    {
        if p[k - 1] == SLASH {
            proof {
                lemma_file_name_at(p@, k as int);
                lemma_dir_of_at(p@, k - 1);
            }
            return k;
        }
        k = k - 1;
    }
    proof {
        lemma_file_name_at(p@, 0);
        lemma_dir_of_none(p@);
    }
    0
}

/// ASCII lower-casing of one byte, at runtime.
fn lower_byte_exec(c: u8) -> (r: u8)
    ensures
        r == lower_byte(c),
{
    if 65 <= c && c <= 90 {
        c + 32
    } else {
        c
    }
}

/// The bytes of the recognized extension, as a runtime value.
fn replay_ext_bytes() -> (v: Vec<u8>)
    ensures
        v@ == replay_ext(),
{
    let mut v: Vec<u8> = Vec::new();
    v.push(119u8);
    v.push(111u8);
    v.push(119u8);
    v.push(115u8);
    v.push(114u8);
    v.push(101u8);
    v.push(112u8);
    v.push(108u8);
    v.push(97u8);
    v.push(121u8);
    proof {
        assert(v@ =~= replay_ext());
    }
    v
}

/// Whether `p` names a replay file: the extension test the intake handler
/// applies, insensitive to ASCII case.
pub fn has_replay_extension(p: &Vec<u8>) -> (b: bool)
    ensures
        b == is_replay_path(p@),
{
    let s = file_name_start(p);
    let ghost name = file_name_of(p@);
    // Find the dot that starts the extension: the last one, as long as it is
    // not the file name's first byte.
    let mut k: usize = p.len();
    while k > 0 && k - 1 > s && p[k - 1] != DOT
        invariant
            s <= p@.len(),
            k <= p@.len(),
            forall|j: int| k <= j < p@.len() ==> p@[j] != DOT,
        decreases k,
    {
        k = k - 1;
    }
    if !(k > 0 && k - 1 > s) {
        proof {
            assert forall|j: int| 1 <= j < name.len() implies name[j] != DOT by {
                assert(name[j] == p@[s + j]);
            }
            lemma_ext_none(name);
        }
        return false;
    }
    let dot = k - 1;
    proof {
        assert(name[dot - s] == DOT);
        assert forall|j: int| dot - s < j < name.len() implies name[j] != DOT by {
            assert(name[j] == p@[s + j]);
        }
        lemma_ext_at(name, dot - s);
    }
    let ghost ext = name.subrange(dot - s + 1, name.len() as int);
    proof {
        assert(ext.map_values(|c: u8| lower_byte(c)).len() == ext.len());
        assert(ext =~= p@.subrange(dot + 1, p@.len() as int));
    }
    // Compare the extension, lower-cased, with the recognized one.
    let expected = replay_ext_bytes();
    if p.len() - dot - 1 != expected.len() {
        return false;
    }
    let mut i: usize = 0;
    while i < expected.len()
        invariant
            0 <= i <= expected@.len(),
            expected@ == replay_ext(),
            ext.len() == expected@.len(),
            dot + 1 + ext.len() == p@.len(),
            p@.len() <= usize::MAX,
            s <= dot < p@.len(),
            ext == p@.subrange(dot + 1, p@.len() as int),
            ext_of(file_name_of(p@)) == Option::Some(ext),
            forall|j: int| 0 <= j < i ==> lower_byte(ext[j]) == replay_ext()[j],
        decreases expected@.len() - i,
    {
        let c = lower_byte_exec(p[dot + 1 + i]);
        if c != expected[i] {
            proof {
                assert(ext[i as int] == p@[dot + 1 + i]);
                assert(ext.map_values(|c: u8| lower_byte(c))[i as int] != replay_ext()[i as int]);
            }
            return false;
        }
        i = i + 1;
    }
    proof {
        assert(ext.map_values(|c: u8| lower_byte(c)) =~= replay_ext());
    }
    true
}

/// Whether `p` lies directly in directory `dir`: the watch is non-recursive,
/// so only such paths belong to it.
pub fn in_directory(p: &Vec<u8>, dir: &Vec<u8>) -> (b: bool)
    ensures
        b == (dir_of(p@) == Option::Some(dir@)),
{
    let s = file_name_start(p);
    if s == 0 {
        return false;
    }
    if s - 1 != dir.len() {
        proof {
            assert(dir_of(p@) matches Option::Some(d) && d.len() == s - 1);
        }
        return false;
    }
    let mut i: usize = 0;
    while i < dir.len()
        invariant
            0 <= i <= dir@.len(),
            dir@.len() == s - 1,
            1 <= s <= p@.len(),
            dir_of(p@) == Option::Some(p@.subrange(0, s - 1)),
            forall|j: int| 0 <= j < i ==> p@[j] == dir@[j],
        decreases dir@.len() - i,
    {
        if p[i] != dir[i] {
            proof {
                assert(p@.subrange(0, s - 1)[i as int] != dir@[i as int]);
            }
            return false;
        }
        i = i + 1;
    }
    proof {
        assert(p@.subrange(0, s - 1) =~= dir@);
    }
    true
}

} // verus!
