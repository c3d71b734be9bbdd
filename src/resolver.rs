//! Finding an executable by name along an ordered list of directories.
use vstd::prelude::*;
use vstd::string::{StrSliceExecFns, StringExecFns};
use crate::text::texts;
use crate::text::{joined, opt_text};

verus! {

/// At least one of the user, group and other execute bits is set.
pub open spec fn executable_mode(mode: u32) -> bool {
    mode & 0o100 != 0 || mode & 0o010 != 0 || mode & 0o001 != 0
}

/// A probe shows an executable regular file.
pub open spec fn executable_probe(p: Option<u32>) -> bool {
    p is Some && executable_mode(p->0)
}

/// The path of `name` inside `dir`.
pub open spec fn spec_join_path(dir: Seq<char>, name: Seq<char>) -> Seq<char> {
    dir + seq!['/'] + name
}

/// The resolution of `name` along `dirs`, where `probes[i]` is the permission
/// mode of `<dirs[i]>/<name>` if that is a regular file: the first directory
/// whose probe shows an execute bit.
pub open spec fn resolution(dirs: Seq<Seq<char>>, name: Seq<char>, probes: Seq<Option<u32>>) -> Option<Seq<char>>
    decreases dirs.len(),
{
    if dirs.len() == 0 || probes.len() == 0 {
        None
    } else if executable_probe(probes[0]) {
        Some(spec_join_path(dirs[0], name))
    } else {
        resolution(dirs.drop_first(), name, probes.drop_first())
    }
}

/// The entries of a search-path value, split on every `:`.
pub open spec fn path_entries(s: Seq<char>) -> Seq<Seq<char>>
    decreases s.len(),
{
    if s.len() == 0 {
        seq![Seq::empty()]
    } else {
        let rest = path_entries(s.drop_last());
        if s.last() == ':' {
            rest.push(Seq::empty())
        } else {
            rest.update(rest.len() - 1, rest.last().push(s.last()))
        }
    }
}

/// Whether a permission mode has any execute bit set.
pub fn is_executable_mode(mode: u32) -> (r: bool)
    ensures
        r == executable_mode(mode),
{
    mode & 0o100 != 0 || mode & 0o010 != 0 || mode & 0o001 != 0
}

/// The path `<dir>/<name>`.
pub fn join_path(dir: &str, name: &str) -> (r: String)
    ensures
        r@ == spec_join_path(dir@, name@),
{
    let mut r = joined(dir, "/");
    proof {
        reveal_strlit("/");
    }
    r.append(name);
    r
}

/// The directories of a search-path value, in order.
pub fn split_search_path(path: &str) -> (r: Vec<String>)
    ensures
        texts(r@) == path_entries(path@),
{
    let n = path.unicode_len();
    let mut r: Vec<String> = Vec::new();
    let mut start: usize = 0;
    let mut i: usize = 0;
    assert(path@.subrange(0, 0) =~= Seq::<char>::empty());
    assert(texts(r@) =~= Seq::<Seq<char>>::empty());
    assert(texts(r@).push(path@.subrange(0, 0)) =~= path_entries(path@.subrange(0, 0)));
    while i < n
        invariant
            n == path@.len(),
            start <= i <= n,
            texts(r@).push(path@.subrange(start as int, i as int)) == path_entries(path@.subrange(0, i as int)),
        decreases n - i,
    {
        let ghost pre = path@.subrange(0, i + 1);
        let ghost old_r = texts(r@);
        let ghost cur = path@.subrange(start as int, i as int);
        let ghost rest = path_entries(path@.subrange(0, i as int));
        assert(pre.drop_last() =~= path@.subrange(0, i as int));
        assert(pre.last() == path@[i as int]);
        let c = path.get_char(i);
        if c == ':' {
            let piece = path.substring_char(start, i);
            r.push(String::from_str(piece));
            start = i + 1;
            assert(texts(r@) =~= old_r.push(cur));
            assert(path_entries(pre) == rest.push(Seq::empty()));
            assert(path@.subrange(start as int, i + 1) =~= Seq::<char>::empty());
            assert(texts(r@).push(path@.subrange(start as int, i + 1)) =~= path_entries(pre));
        } else {
            assert(path_entries(pre) == rest.update(rest.len() - 1, rest.last().push(c)));
            assert(path@.subrange(start as int, i + 1) =~= cur.push(c));
            assert(texts(r@).push(path@.subrange(start as int, i + 1)) =~= path_entries(pre));
        }
        i = i + 1;
    }
    let piece = path.substring_char(start, n);
    let ghost old_r = texts(r@);
    r.push(String::from_str(piece));
    assert(texts(r@) =~= old_r.push(path@.subrange(start as int, n as int)));
    assert(path@.subrange(0, n as int) =~= path@);
    assert(texts(r@) =~= path_entries(path@));
    r
}

/// Resolves `name` along `dirs`: `probes[i]` is the permission mode of
/// `<dirs[i]>/<name>` where that is a regular file, `None` where it is not.
pub fn find_excutable(name: &str, dirs: &[String], probes: &[Option<u32>]) -> (r: Option<String>)
    requires
        dirs@.len() == probes@.len(),
    ensures
        opt_text(r) == resolution(texts(dirs@), name@, probes@),
{
    let n = dirs.len();
    let mut i: usize = 0;
    assert(texts(dirs@).subrange(0, n as int) =~= texts(dirs@));
    assert(probes@.subrange(0, n as int) =~= probes@);
    while i < n
        invariant
            n == dirs@.len(),
            n == probes@.len(),
            i <= n,
            resolution(texts(dirs@), name@, probes@) == resolution(
                texts(dirs@).subrange(i as int, n as int),
                name@,
                probes@.subrange(i as int, n as int),
            ),
        decreases n - i,
    {
        let ghost d = texts(dirs@).subrange(i as int, n as int);
        let ghost p = probes@.subrange(i as int, n as int);
        assert(d[0] == dirs@[i as int]@);
        assert(p[0] == probes@[i as int]);
        if let Some(mode) = probes[i] {
            if is_executable_mode(mode) {
                return Some(join_path(dirs[i].as_str(), name));
            }
        }
        assert(d.drop_first() =~= texts(dirs@).subrange(i + 1, n as int));
        assert(p.drop_first() =~= probes@.subrange(i + 1, n as int));
        i = i + 1;
    }
    None
}

/// The first directory whose probe shows an executable file wins, whatever
/// the later directories hold.
pub proof fn lemma_first_match_wins(dirs: Seq<Seq<char>>, name: Seq<char>, probes: Seq<Option<u32>>, i: int)
    requires
        dirs.len() == probes.len(),
        0 <= i < dirs.len(),
        executable_probe(probes[i]),
        forall|j: int| 0 <= j < i ==> !executable_probe(#[trigger] probes[j]),
    ensures
        resolution(dirs, name, probes) == Some(spec_join_path(dirs[i], name)),
    decreases i,
{
    if i > 0 {
        assert(!executable_probe(probes[0]));
        lemma_first_match_wins(dirs.drop_first(), name, probes.drop_first(), i - 1);
    }
}

/// A resolved path always belongs to a directory whose probe shows an
/// execute bit: a file without one is never returned.
pub proof fn lemma_only_executables(dirs: Seq<Seq<char>>, name: Seq<char>, probes: Seq<Option<u32>>)
    requires
        dirs.len() == probes.len(),
        resolution(dirs, name, probes) is Some,
    ensures
        exists|i: int|
            0 <= i < dirs.len() && #[trigger] executable_probe(probes[i])
                && resolution(dirs, name, probes) == Some(spec_join_path(dirs[i], name)),
    decreases dirs.len(),
{
    if !executable_probe(probes[0]) {
        let d = dirs.drop_first();
        let p = probes.drop_first();
        lemma_only_executables(d, name, p);
        let i = choose|i: int|
            0 <= i < d.len() && #[trigger] executable_probe(p[i])
                && resolution(d, name, p) == Some(spec_join_path(d[i], name));
        assert(executable_probe(probes[i + 1]));
    } else {
        assert(executable_probe(probes[0]));
    }
}

} // verus!
