//! The list of recently opened ROM files, most recent first: as loaded
//! from the stored list, and after opening a file.

use vstd::prelude::*;

verus! {

/// Most paths the recent-files list keeps.
pub const MAX_RECENT_FILES: usize = 10;

/// The entries among the first `n` of `recent` whose `same` flag is not
/// set, in order.
pub open spec fn kept_recent(recent: Seq<Seq<char>>, same: Seq<bool>, n: int) -> Seq<Seq<char>>
    decreases n,
{
    if n <= 0 {
        seq![]
    } else {
        kept_recent(recent, same, n - 1) + if same[n - 1] {
            seq![]
        } else {
            seq![recent[n - 1]]
        }
    }
}

/// The recent list after opening `path`: `path` first, then the entries of
/// `recent` not flagged in `same` as naming it, cut to
/// `MAX_RECENT_FILES`.
pub open spec fn recent_after_open(recent: Seq<Seq<char>>, path: Seq<char>, same: Seq<bool>) -> Seq<
    Seq<char>,
> {
    let all = seq![path] + kept_recent(recent, same, recent.len() as int);
    if all.len() > MAX_RECENT_FILES {
        all.take(MAX_RECENT_FILES as int)
    } else {
        all
    }
}

/// The paths of a list of strings, as character sequences.
pub open spec fn paths_of(v: Seq<String>) -> Seq<Seq<char>> {
    v.map_values(|s: String| s@)
}

/// Move `path` to the front of the recent list, given for each entry
/// whether it names the same file as `path` (`same`), and keep at most
/// `MAX_RECENT_FILES` entries.
pub fn recent_with_path(recent: &Vec<String>, path: &str, same: &Vec<bool>) -> (out: Vec<String>)
    requires
        same@.len() == recent@.len(),
    ensures
        paths_of(out@) == recent_after_open(paths_of(recent@), path@, same@),
{
    let mut out: Vec<String> = Vec::new();
    out.push(path.to_owned());
    let mut i: usize = 0;
    while i < recent.len()
        invariant
            same@.len() == recent@.len(),
            i <= recent@.len(),
            paths_of(out@) == seq![path@] + kept_recent(paths_of(recent@), same@, i as int),
        decreases recent@.len() - i,
    {
        let ghost before = out@;
        if !same[i] {
            let entry = recent[i].clone();
            out.push(entry);
            assert(paths_of(out@) =~= paths_of(before).push(recent@[i as int]@));
        }
        proof {
            assert(paths_of(recent@)[i as int] == recent@[i as int]@);
            assert(paths_of(out@) =~= seq![path@] + kept_recent(paths_of(recent@), same@, i as int + 1));
        }
        i += 1;
    }
    if out.len() > MAX_RECENT_FILES {
        let ghost before = out@;
        out.truncate(MAX_RECENT_FILES);
        assert(out@ == before.subrange(0, MAX_RECENT_FILES as int));
        assert(paths_of(out@) =~= paths_of(before).take(MAX_RECENT_FILES as int));
    }
    out
}

/// A path whose components the same rules give on every platform: no `\`
/// or `:` (no Windows separator or drive prefix) and no leading `//` (no
/// network-share prefix).
pub open spec fn portable_path(s: Seq<char>) -> bool {
    &&& forall|i: int| 0 <= i < s.len() ==> #[trigger] s[i] != '\\' && s[i] != ':'
    &&& !(s.len() >= 2 && s[0] == '/' && s[1] == '/')
}

/// `s` split at each `/` (one more segment than it has slashes).
pub open spec fn split_slash(s: Seq<char>) -> Seq<Seq<char>>
    decreases s.len(),
{
    if s.len() == 0 {
        seq![seq![]]
    } else {
        let init = split_slash(s.drop_last());
        if s.last() == '/' {
            init.push(seq![])
        } else {
            init.update(init.len() - 1, init.last().push(s.last()))
        }
    }
}

/// The path starts at the root.
pub open spec fn rooted(s: Seq<char>) -> bool {
    s.len() > 0 && s[0] == '/'
}

/// The components of a path after its root: its `/`-separated segments
/// with empty and `.` segments dropped, except that a relative path
/// starting with a `.` segment keeps that one first.
pub open spec fn path_segments(s: Seq<char>) -> Seq<Seq<char>> {
    let segs = split_slash(s);
    let kept = segs.filter(|g: Seq<char>| g.len() > 0 && g != seq!['.']);
    if !rooted(s) && segs[0] == seq!['.'] {
        seq![seq!['.']] + kept
    } else {
        kept
    }
}

/// Two paths with the same components: both rooted or neither, and the
/// same segments.
pub open spec fn same_components(a: Seq<char>, b: Seq<char>) -> bool {
    rooted(a) == rooted(b) && path_segments(a) == path_segments(b)
}

/// `std::path::Path` equality of two paths, which compares their
/// components as `Path::components` yields them: repeated separators are
/// ignored, a trailing `/` and `.` segments other than a leading one are
/// normalised away. Claimed here: a path equals itself, and two portable
/// paths are equal exactly when they have the same components. How paths
/// with `\`, `:` or a leading `//` split depends on the platform and is
/// left unsaid.
#[verifier::external_body]
fn same_path(a: &str, b: &str) -> (same: bool)
    ensures
        a@ == b@ ==> same,
        portable_path(a@) && portable_path(b@) ==> (same <==> same_components(a@, b@)),
{
    std::path::Path::new(a) == std::path::Path::new(b)
}

/// The recent list after opening `path`: `path` first, every entry naming
/// the same file removed, at most `MAX_RECENT_FILES` entries. Which
/// entries name the same file is decided by the platform's path
/// comparison; an entry spelled exactly as `path` is always removed, and
/// between portable paths exactly those with the same components.
pub fn add_to_recent(recent: &Vec<String>, path: &str) -> (out: Vec<String>)
    ensures
        exists|same: Seq<bool>|
            {
                &&& same.len() == recent@.len()
                &&& forall|i: int| 0 <= i < recent@.len() && #[trigger] recent@[i]@ == path@ ==> same[i]
                &&& forall|i: int|
                    0 <= i < recent@.len() && portable_path(path@) && portable_path(#[trigger] recent@[i]@) ==> (
                    same[i] <==> same_components(recent@[i]@, path@))
                &&& paths_of(out@) == recent_after_open(paths_of(recent@), path@, same)
            },
{
    let mut same: Vec<bool> = Vec::new();
    let mut i: usize = 0;
    while i < recent.len()
        invariant
            i <= recent@.len(),
            same@.len() == i,
            forall|j: int| 0 <= j < i && #[trigger] recent@[j]@ == path@ ==> same@[j],
            forall|j: int|
                0 <= j < i && portable_path(path@) && portable_path(#[trigger] recent@[j]@) ==> (same@[j]
                    <==> same_components(recent@[j]@, path@)),
        decreases recent@.len() - i,
    {
        let s = same_path(recent[i].as_str(), path);
        same.push(s);
        i += 1;
    }
    recent_with_path(recent, path, &same)
}

/// The entries among the first `n` of `files` whose `exists` flag is set,
/// in order.
pub open spec fn existing_upto(files: Seq<Seq<char>>, exists: Seq<bool>, n: int) -> Seq<Seq<char>>
    decreases n,
{
    if n <= 0 {
        seq![]
    } else {
        existing_upto(files, exists, n - 1) + if exists[n - 1] {
            seq![files[n - 1]]
        } else {
            seq![]
        }
    }
}

/// The recent list as loaded: the stored paths whose file still exists
/// (`exists`, one flag per stored path), in order, at most
/// `MAX_RECENT_FILES` of them.
pub open spec fn loaded_recent(files: Seq<Seq<char>>, exists: Seq<bool>) -> Seq<Seq<char>> {
    let all = existing_upto(files, exists, files.len() as int);
    if all.len() > MAX_RECENT_FILES {
        all.take(MAX_RECENT_FILES as int)
    } else {
        all
    }
}

/// Keep the stored recent paths whose file still exists, at most
/// `MAX_RECENT_FILES`, given for each whether it exists.
pub fn recent_from_stored(files: &Vec<String>, exists: &Vec<bool>) -> (out: Vec<String>)
    requires
        exists@.len() == files@.len(),
    ensures
        paths_of(out@) == loaded_recent(paths_of(files@), exists@),
{
    let mut out: Vec<String> = Vec::new();
    let mut i: usize = 0;
    while i < files.len()
        invariant
            exists@.len() == files@.len(),
            i <= files@.len(),
            paths_of(out@) == existing_upto(paths_of(files@), exists@, i as int),
        decreases files@.len() - i,
    {
        let ghost before = out@;
        if exists[i] {
            let entry = files[i].clone();
            out.push(entry);
            assert(paths_of(out@) =~= paths_of(before).push(files@[i as int]@));
        }
        proof {
            assert(paths_of(files@)[i as int] == files@[i as int]@);
            assert(paths_of(out@) =~= existing_upto(paths_of(files@), exists@, i as int + 1));
        }
        i += 1;
    }
    if out.len() > MAX_RECENT_FILES {
        let ghost before = out@;
        out.truncate(MAX_RECENT_FILES);
        assert(out@ == before.subrange(0, MAX_RECENT_FILES as int));
        assert(paths_of(out@) =~= paths_of(before).take(MAX_RECENT_FILES as int));
    }
    out
}

} // verus!
