//! The download path resolver: given the contents of the destination
//! directory, pick a collision-free file name, inserting a `" (n)"`
//! counter before the extension when renaming is allowed.
use vstd::prelude::*;
use vstd::seq_lib::*;
use vstd::set_lib::*;
use crate::decimal::{dec_digits, lemma_dec_digits_injective, u64_to_string};
use crate::text::str_eq;

verus! {

/// What an entry of the destination directory is.
#[derive(Clone, Copy, Debug, PartialEq, Eq, Structural)]
pub enum EntryKind {
    File,
    Directory,
}

/// One entry of the destination directory listing.
#[derive(Debug)]
pub struct DirEntry {
    pub name: String,
    pub kind: EntryKind,
}

/// How collisions at the requested name are treated.
#[derive(Clone, Copy, Debug, PartialEq, Eq, Structural)]
pub enum ResolveMode {
    Exact,
    AutoRename,
}

/// Why no output path could be resolved.
#[derive(Debug)]
pub enum PathResolveError {
    /// The destination directory itself does not exist.
    MissingParent,
    /// Exact mode, and something already sits at the requested name.
    TargetExists(String),
    /// A directory sits at the requested or renamed target name.
    DirectoryInTheWay(String),
}

/// Some entry carries this name.
pub open spec fn has_name(l: Seq<DirEntry>, name: Seq<char>) -> bool {
    exists|i: int| 0 <= i < l.len() && (#[trigger] l[i].name)@ == name
}

/// A directory entry carries this name.
pub open spec fn dir_at(l: Seq<DirEntry>, name: Seq<char>) -> bool {
    exists|i: int|
        0 <= i < l.len() && (#[trigger] l[i].name)@ == name && l[i].kind is Directory
}

/// Entry names are pairwise distinct, as they are in a real directory.
pub open spec fn unique_names(l: Seq<DirEntry>) -> bool {
    forall|i: int, j: int|
        0 <= i < j < l.len() ==> (#[trigger] l[i].name)@ != (#[trigger] l[j].name)@
}

/// The last position of `c` in `s`, or `-1`.
pub open spec fn last_index_of(s: Seq<char>, c: char) -> int
    decreases s.len(),
{
    if s.len() == 0 {
        -1
    } else if s.last() == c {
        s.len() - 1
    } else {
        last_index_of(s.drop_last(), c)
    }
}

/// Where the extension starts: at the last dot, provided it is not the
/// leading character; otherwise the name has no extension.
pub open spec fn split_pos(name: Seq<char>) -> int {
    let p = last_index_of(name, '.');
    if p > 0 {
        p
    } else {
        name.len() as int
    }
}

/// The name without its extension.
pub open spec fn stem_of(name: Seq<char>) -> Seq<char> {
    name.take(split_pos(name))
}

/// The extension, including its dot; empty if there is none.
pub open spec fn ext_of(name: Seq<char>) -> Seq<char> {
    name.skip(split_pos(name))
}

/// The n-th rename candidate: `stem (n)ext`.
pub open spec fn renamed(name: Seq<char>, n: nat) -> Seq<char> {
    stem_of(name) + seq![' ', '('] + dec_digits(n) + seq![')'] + ext_of(name)
}

/// Every candidate below `n` is taken by a plain file.
pub open spec fn blocked_below(l: Seq<DirEntry>, name: Seq<char>, n: nat) -> bool {
    forall|m: nat|
        1 <= m < n ==> has_name(l, #[trigger] renamed(name, m)) && !dir_at(l, renamed(name, m))
}

/// Distinct counters give distinct rename candidates.
pub proof fn lemma_renamed_injective(name: Seq<char>, n1: nat, n2: nat)
    requires
        renamed(name, n1) == renamed(name, n2),
    ensures
        n1 == n2,
{
    let st = stem_of(name);
    let ex = ext_of(name);
    let d1 = dec_digits(n1);
    let d2 = dec_digits(n2);
    assert(renamed(name, n1).len() == st.len() + 2 + d1.len() + 1 + ex.len());
    assert(renamed(name, n2).len() == st.len() + 2 + d2.len() + 1 + ex.len());
    assert(d1.len() == d2.len());
    assert forall|k: int| 0 <= k < d1.len() implies d1[k] == d2[k] by {
        assert(renamed(name, n1)[st.len() + 2 + k] == d1[k]);
        assert(renamed(name, n2)[st.len() + 2 + k] == d2[k]);
    }
    assert(d1 =~= d2);
    lemma_dec_digits_injective(n1, n2);
}

/// The last position of `c` in `s`, scanned from the end.
pub fn find_last_char(s: &str, c: char) -> (r: Option<usize>)
    ensures
        match r {
            Some(i) => i == last_index_of(s@, c),
            None => last_index_of(s@, c) == -1,
        },
{
    let len = s.unicode_len();
    let mut i: usize = len;
    assert(s@.take(len as int) =~= s@);
    while i > 0
        invariant
            len == s@.len(),
            0 <= i <= len,
            last_index_of(s@, c) == last_index_of(s@.take(i as int), c),
        decreases i,
    {
        let ch = s.get_char(i - 1);
        assert(s@.take(i as int).last() == s@[i - 1]);
        if ch == c {
            return Some(i - 1);
        }
        assert(s@.take(i as int).drop_last() =~= s@.take(i - 1));
        i = i - 1;
    }
    None
}

/// Where the extension of `name` starts (`split_pos`).
pub fn split_point(name: &str) -> (p: usize)
    ensures
        p == split_pos(name@),
        p <= name@.len(),
{
    let len = name.unicode_len();
    match find_last_char(name, '.') {
        Some(i) => {
            if i > 0 {
                proof {
                    lemma_last_index_of_in_range(name@, '.');
                }
                i
            } else {
                len
            }
        },
        None => len,
    }
}

/// `last_index_of` stays inside the sequence.
pub proof fn lemma_last_index_of_in_range(s: Seq<char>, c: char)
    ensures
        -1 <= last_index_of(s, c) < s.len(),
    decreases s.len(),
{
    if s.len() > 0 && s.last() != c {
        lemma_last_index_of_in_range(s.drop_last(), c);
    }
}

/// Build the n-th rename candidate for `name`.
pub fn renamed_name(name: &str, n: u64) -> (r: String)
    ensures
        r@ == renamed(name@, n as nat),
{
    let len = name.unicode_len();
    let p = split_point(name);
    let stem = name.substring_char(0, p);
    let ext = name.substring_char(p, len);
    let mut out = String::from_str(stem);
    out.append(" (");
    let counter = u64_to_string(n);
    out.append(counter.as_str());
    out.append(")");
    out.append(ext);
    proof {
        reveal_strlit(" (");
        reveal_strlit(")");
        assert(" ("@ =~= seq![' ', '(']);
        assert(")"@ =~= seq![')']);
        assert(stem@ =~= stem_of(name@));
        assert(ext@ =~= ext_of(name@));
        assert(out@ =~= renamed(name@, n as nat));
    }
    out
}

/// The index of the entry named `name`, if any.
fn find_entry(l: &Vec<DirEntry>, name: &str) -> (r: Option<usize>)
    requires
        unique_names(l@),
    ensures
        match r {
            Some(i) => i < l@.len() && l@[i as int].name@ == name@ && (l@[i as int].kind
                is Directory <==> dir_at(l@, name@)) && has_name(l@, name@),
            None => !has_name(l@, name@),
        },
{
    let mut i: usize = 0;
    while i < l.len()
        invariant
            unique_names(l@),
            0 <= i <= l@.len(),
            forall|j: int| 0 <= j < i ==> (#[trigger] l@[j].name)@ != name@,
        decreases l@.len() - i,
    {
        if str_eq(l[i].name.as_str(), name) {
            return Some(i);
        }
        i = i + 1;
    }
    None
}

/// Pick the output name for `filename` inside a destination directory
/// whose contents are `listing`. In `Exact` mode any entry at the name is
/// an error. In `AutoRename` mode a plain file at the name is dodged by
/// appending `" (n)"` before the extension, with the smallest counter `n`
/// whose candidate is free; a directory at the requested or candidate name
/// is an error. `parent_exists` reports whether the destination directory
/// itself is there; without it, resolution is refused.
pub fn resolve_target_name(
    filename: &str,
    listing: &Vec<DirEntry>,
    mode: ResolveMode,
    parent_exists: bool,
) -> (r: Result<String, PathResolveError>)
    requires
        unique_names(listing@),
        listing@.len() + 2 <= usize::MAX,
    ensures
        !parent_exists <==> r matches Err(PathResolveError::MissingParent),
        parent_exists && !has_name(listing@, filename@) ==> (r matches Ok(out) && out@
            == filename@),
        parent_exists && has_name(listing@, filename@) && mode is Exact ==> (r matches Err(e)
            && e matches PathResolveError::TargetExists(t) && t@ == filename@),
        parent_exists && has_name(listing@, filename@) && mode is AutoRename && dir_at(
            listing@,
            filename@,
        ) ==> (r matches Err(e) && e matches PathResolveError::DirectoryInTheWay(t) && t@
            == filename@),
        parent_exists && has_name(listing@, filename@) && mode is AutoRename && !dir_at(
            listing@,
            filename@,
        ) ==> match r {
            Ok(out) => exists|n: nat|
                1 <= n && out@ == renamed(filename@, n) && !has_name(
                    listing@,
                    #[trigger] renamed(filename@, n),
                ) && blocked_below(listing@, filename@, n),
            Err(e) => e matches PathResolveError::DirectoryInTheWay(t) && exists|n: nat|
                1 <= n && t@ == renamed(filename@, n) && dir_at(
                    listing@,
                    #[trigger] renamed(filename@, n),
                ) && blocked_below(listing@, filename@, n),
        },
{
    if !parent_exists {
        return Err(PathResolveError::MissingParent);
    }
    match find_entry(listing, filename) {
        None => Ok(String::from_str(filename)),
        Some(idx) => {
            match mode {
                ResolveMode::Exact => Err(
                    PathResolveError::TargetExists(String::from_str(filename)),
                ),
                ResolveMode::AutoRename => {
                    if matches!(listing[idx].kind, EntryKind::Directory) {
                        return Err(
                            PathResolveError::DirectoryInTheWay(String::from_str(filename)),
                        );
                    }
                    let bound: u64 = (listing.len() as u64) + 1;
                    let mut n: u64 = 1;
                    let ghost mut hits: Seq<int> = Seq::empty();
                    while n <= bound
                        invariant
                            parent_exists,
                            mode is AutoRename,
                            has_name(listing@, filename@),
                            !dir_at(listing@, filename@),
                            unique_names(listing@),
                            listing@.len() + 2 <= usize::MAX,
                            bound == listing@.len() + 1,
                            1 <= n <= bound + 1,
                            hits.len() == n - 1,
                            forall|m: int|
                                0 <= m < hits.len() ==> 0 <= #[trigger] hits[m] < listing@.len()
                                    && listing@[hits[m]].name@ == renamed(
                                    filename@,
                                    (m + 1) as nat,
                                ),
                            blocked_below(listing@, filename@, n as nat),
                            hits.no_duplicates(),
                        decreases bound + 1 - n,
                    {
                        let cand = renamed_name(filename, n);
                        match find_entry(listing, cand.as_str()) {
                            None => {
                                return Ok(cand);
                            },
                            Some(i) => {
                                if matches!(listing[i].kind, EntryKind::Directory) {
                                    return Err(PathResolveError::DirectoryInTheWay(cand));
                                }
                                proof {
                                    assert forall|m: int| 0 <= m < hits.len() implies hits[m]
                                        != i as int by {
                                        if hits[m] == i as int {
                                            lemma_renamed_injective(
                                                filename@,
                                                (m + 1) as nat,
                                                n as nat,
                                            );
                                        }
                                    }
                                    hits = hits.push(i as int);
                                    assert forall|m: nat| 1 <= m < n + 1 implies has_name(
                                        listing@,
                                        #[trigger] renamed(filename@, m),
                                    ) && !dir_at(listing@, renamed(filename@, m)) by {
                                        if m == n {
                                            assert(listing@[i as int].name@ == renamed(
                                                filename@,
                                                m,
                                            ));
                                        }
                                    }
                                }
                                n = n + 1;
                            },
                        }
                    }
                    proof {
                        hits.unique_seq_to_set();
                        lemma_int_range(0, listing@.len() as int);
                        assert(hits.to_set().subset_of(set_int_range(0, listing@.len() as int)));
                        lemma_len_subset(
                            hits.to_set(),
                            set_int_range(0, listing@.len() as int),
                        );
                        assert(false);
                    }
                    Err(PathResolveError::MissingParent)
                },
            }
        },
    }
}

} // verus!
