//! Deriving a file name from a source URL when the caller supplied none:
//! the last non-empty path segment, excluding trailing `file` tokens, with
//! `download` as the fallback.
use vstd::prelude::*;
use crate::pathres::last_index_of;
use crate::text::str_eq;

verus! {

/// The token a requested filename may use to mean "no name given".
pub open spec fn file_token() -> Seq<char> {
    seq!['f', 'i', 'l', 'e']
}

/// The fallback name when the URL yields no usable segment.
pub open spec fn download_token() -> Seq<char> {
    seq!['d', 'o', 'w', 'n', 'l', 'o', 'a', 'd']
}

/// Position of the first `?` or `#`, i.e. where the URL's path part ends.
pub open spec fn cut_pos(u: Seq<char>) -> int
    decreases u.len(),
{
    if u.len() == 0 {
        0
    } else if u[0] == '?' || u[0] == '#' {
        0
    } else {
        1 + cut_pos(u.skip(1))
    }
}

/// A segment can serve as a file name: non-empty and not the bare `file`
/// token.
pub open spec fn usable_segment(seg: Seq<char>) -> bool {
    seg.len() > 0 && seg != file_token()
}

/// The name derived from the path part `s`: its last `/`-separated
/// segment that is usable, or the fallback.
pub open spec fn picked_segment(s: Seq<char>) -> Seq<char>
    decreases s.len(),
    via picked_segment_decreases
{
    let p = last_index_of(s, '/');
    if p < 0 {
        if usable_segment(s) {
            s
        } else {
            download_token()
        }
    } else {
        let seg = s.skip(p + 1);
        if usable_segment(seg) {
            seg
        } else {
            picked_segment(s.take(p))
        }
    }
}

#[via_fn]
proof fn picked_segment_decreases(s: Seq<char>) {
    crate::pathres::lemma_last_index_of_in_range(s, '/');
}

/// The name derived from a full URL.
pub open spec fn derived_filename(url: Seq<char>) -> Seq<char> {
    picked_segment(url.take(cut_pos(url)))
}

/// The filename a download request settles on: the requested name, unless
/// it is empty or the bare `file` token, in which case the name is derived
/// from the URL.
pub open spec fn effective_name(requested: Seq<char>, url: Seq<char>) -> Seq<char> {
    if requested.len() > 0 && requested != file_token() {
        requested
    } else {
        derived_filename(url)
    }
}

/// `cut_pos` is the first position holding `?` or `#`.
proof fn lemma_cut_pos_characterization(u: Seq<char>, i: int)
    requires
        0 <= i <= u.len(),
        forall|j: int| 0 <= j < i ==> u[j] != '?' && u[j] != '#',
        i < u.len() ==> u[i] == '?' || u[i] == '#',
    ensures
        cut_pos(u) == i,
    decreases u.len(),
{
    if u.len() == 0 {
    } else if u[0] == '?' || u[0] == '#' {
    } else {
        assert(i >= 1);
        let t = u.skip(1);
        assert forall|j: int| 0 <= j < i - 1 implies t[j] != '?' && t[j] != '#' by {
            assert(t[j] == u[j + 1]);
        }
        lemma_cut_pos_characterization(t, i - 1);
    }
}

/// The path part of the URL: everything before the first `?` or `#`.
fn url_path_part<'a>(url: &'a str) -> (r: &'a str)
    ensures
        r@ == url@.take(cut_pos(url@)),
{
    let len = url.unicode_len();
    let mut i: usize = 0;
    while i < len
        invariant
            len == url@.len(),
            0 <= i <= len,
            forall|j: int| 0 <= j < i ==> url@[j] != '?' && url@[j] != '#',
        decreases len - i,
    {
        let c = url.get_char(i);
        if c == '?' || c == '#' {
            proof {
                lemma_cut_pos_characterization(url@, i as int);
            }
            return url.substring_char(0, i);
        }
        i = i + 1;
    }
    proof {
        lemma_cut_pos_characterization(url@, len as int);
    }
    let r = url.substring_char(0, len);
    proof {
        assert(r@ =~= url@.take(cut_pos(url@)));
    }
    r
}

/// Whether `seg` is non-empty and not the bare `file` token.
fn usable_segment_exec(seg: &str) -> (r: bool)
    ensures
        r == usable_segment(seg@),
{
    proof {
        reveal_strlit("file");
        assert("file"@ =~= file_token());
    }
    seg.unicode_len() > 0 && !str_eq(seg, "file")
}

/// The last usable `/`-separated segment of `s`, or the fallback.
fn picked_segment_exec(s: &str) -> (r: String)
    ensures
        r@ == picked_segment(s@),
    decreases s@.len(),
{
    let len = s.unicode_len();
    match crate::pathres::find_last_char(s, '/') {
        None => {
            if usable_segment_exec(s) {
                String::from_str(s)
            } else {
                proof {
                    reveal_strlit("download");
                    assert("download"@ =~= download_token());
                }
                String::from_str("download")
            }
        },
        Some(p) => {
            proof {
                crate::pathres::lemma_last_index_of_in_range(s@, '/');
            }
            let seg = s.substring_char(p + 1, len);
            assert(seg@ =~= s@.skip(p + 1));
            if usable_segment_exec(seg) {
                String::from_str(seg)
            } else {
                let prefix = s.substring_char(0, p);
                assert(prefix@ =~= s@.take(p as int));
                picked_segment_exec(prefix)
            }
        },
    }
}

/// The filename to use for a request (`effective_name`): the requested
/// name, or, when that is empty or the bare `file` token, the name derived
/// from the URL's last usable path segment, falling back to `download`.
pub fn effective_filename(requested: &str, url: &str) -> (r: String)
    ensures
        r@ == effective_name(requested@, url@),
{
    proof {
        reveal_strlit("file");
        assert("file"@ =~= file_token());
    }
    if requested.unicode_len() > 0 && !str_eq(requested, "file") {
        String::from_str(requested)
    } else {
        let path = url_path_part(url);
        picked_segment_exec(path)
    }
}

} // verus!
