//! The archive extraction reporter's decision logic: dispatch by
//! lower-cased file extension, zip entry handling, and integer progress
//! arithmetic. The filesystem work itself is done by the embedding
//! application against these rulings.
use vstd::prelude::*;
use crate::pathres::{last_index_of, lemma_last_index_of_in_range};
use crate::text::{lower, lower_char, lower_char_exec};

verus! {

/// Why an extraction failed.
#[derive(Debug)]
pub enum ArchiveError {
    Io(String),
    UnsupportedFormat(String),
    InvalidArchive(String),
}

impl ArchiveError {
    /// A human-readable description of the failure.
    pub fn message(&self) -> (r: String)
        ensures
            self matches ArchiveError::Io(e) ==> r@ == "IO error: "@ + e@,
            self matches ArchiveError::UnsupportedFormat(e) ==> r@ == "Unsupported format: "@
                + e@,
            self matches ArchiveError::InvalidArchive(e) ==> r@ == "Invalid archive: "@ + e@,
    {
        match self {
            ArchiveError::Io(e) => {
                let mut s = String::from_str("IO error: ");
                s.append(e.as_str());
                s
            },
            ArchiveError::UnsupportedFormat(e) => {
                let mut s = String::from_str("Unsupported format: ");
                s.append(e.as_str());
                s
            },
            ArchiveError::InvalidArchive(e) => {
                let mut s = String::from_str("Invalid archive: ");
                s.append(e.as_str());
                s
            },
        }
    }
}

/// The extraction backends.
#[derive(Clone, Copy, Debug, PartialEq, Eq, Structural)]
pub enum ArchiveKind {
    Zip,
    SevenZ,
    Rar,
}

/// The file-name part of a path: everything after the last `/`.
pub open spec fn base_name(path: Seq<char>) -> Seq<char> {
    path.skip(last_index_of(path, '/') + 1)
}

/// The extension of a path, without its dot: the part of the base name
/// after its last dot, provided that dot is neither leading nor absent.
pub open spec fn extension_of(path: Seq<char>) -> Option<Seq<char>> {
    let base = base_name(path);
    let p = last_index_of(base, '.');
    if p > 0 {
        Some(base.skip(p + 1))
    } else {
        None
    }
}

/// Which backend a lower-cased extension selects.
pub open spec fn kind_for_extension(ext: Seq<char>) -> Option<ArchiveKind> {
    if lower(ext) == "zip"@ {
        Some(ArchiveKind::Zip)
    } else if lower(ext) == "7z"@ {
        Some(ArchiveKind::SevenZ)
    } else if lower(ext) == "rar"@ {
        Some(ArchiveKind::Rar)
    } else {
        None
    }
}

/// The extension of `path`, lower-cased, or `None` if there is none.
fn extract_extension(path: &str) -> (r: Option<String>)
    ensures
        match r {
            Some(e) => extension_of(path@) matches Some(x) && e@ == lower(x),
            None => extension_of(path@) is None,
        },
{
    let len = path.unicode_len();
    let base_start: usize = match crate::pathres::find_last_char(path, '/') {
        Some(i) => {
            proof {
                lemma_last_index_of_in_range(path@, '/');
            }
            i + 1
        },
        None => 0,
    };
    let base = path.substring_char(base_start, len);
    proof {
        assert(base@ =~= base_name(path@));
    }
    let base_len = base.unicode_len();
    match crate::pathres::find_last_char(base, '.') {
        Some(p) if p > 0 => {
            proof {
                lemma_last_index_of_in_range(base@, '.');
            }
            let ext = base.substring_char(p + 1, base_len);
            proof {
                assert(ext@ =~= base_name(path@).skip(p + 1));
            }
            let mut out = String::new();
            let mut i: usize = 0;
            let ext_len = ext.unicode_len();
            while i < ext_len
                invariant
                    ext_len == ext@.len(),
                    0 <= i <= ext_len,
                    out@ =~= lower(ext@.take(i as int)),
                decreases ext_len - i,
            {
                let c = lower_char_exec(ext.get_char(i));
                let piece = char_to_string(c);
                out.append(piece.as_str());
                proof {
                    assert(out@ =~= lower(ext@.take(i + 1)));
                }
                i = i + 1;
            }
            proof {
                assert(ext@.take(ext_len as int) =~= ext@);
            }
            Some(out)
        },
        _ => None,
    }
}

/// A one-character string.
fn char_to_string(c: char) -> (r: String)
    ensures
        r@ =~= seq![c],
{
    let mut s = String::new();
    char_push(&mut s, c);
    s
}

/// Relies on std's String::push: appends exactly the one character to
/// the end of the string.
#[verifier::external_body]
fn char_push(s: &mut String, c: char)
    ensures
        final(s)@ == old(s)@.push(c),
{
    s.push(c);
}

/// Pick the backend for `path` by its lower-cased extension. A path with
/// no extension, or with one no backend serves, is refused before any
/// filesystem mutation beyond output-directory creation.
pub fn classify_archive(path: &str) -> (r: Result<ArchiveKind, ArchiveError>)
    ensures
        extension_of(path@) is None ==> (r matches Err(e) && e matches
            ArchiveError::UnsupportedFormat(m) && m@ == "No file extension"@),
        extension_of(path@) matches Some(x) ==> match kind_for_extension(x) {
            Some(k) => r == Ok::<ArchiveKind, ArchiveError>(k),
            None => r matches Err(e) && e matches ArchiveError::UnsupportedFormat(m) && m@
                == "Unsupported file format: "@ + lower(x),
        },
{
    match extract_extension(path) {
        None => Err(ArchiveError::UnsupportedFormat(String::from_str("No file extension"))),
        Some(ext) => {
            proof {
                reveal_strlit("zip");
                reveal_strlit("7z");
                reveal_strlit("rar");
            }
            if crate::text::str_eq(ext.as_str(), "zip") {
                proof {
                    lemma_lower_idempotent(ext@);
                }
                Ok(ArchiveKind::Zip)
            } else if crate::text::str_eq(ext.as_str(), "7z") {
                proof {
                    lemma_lower_idempotent(ext@);
                }
                Ok(ArchiveKind::SevenZ)
            } else if crate::text::str_eq(ext.as_str(), "rar") {
                proof {
                    lemma_lower_idempotent(ext@);
                }
                Ok(ArchiveKind::Rar)
            } else {
                proof {
                    lemma_lower_idempotent(ext@);
                }
                let mut m = String::from_str("Unsupported file format: ");
                m.append(ext.as_str());
                Err(ArchiveError::UnsupportedFormat(m))
            }
        },
    }
}

/// Lower-casing is idempotent.
proof fn lemma_lower_idempotent(s: Seq<char>)
    ensures
        lower(lower(s)) == lower(s),
{
    assert forall|i: int| 0 <= i < s.len() implies lower_char(lower(s)[i]) == lower(s)[i] by {
        assert(lower(s)[i] == lower_char(s[i]));
    }
    assert(lower(lower(s)) =~= lower(s));
}

/// What a zip entry asks of the filesystem: entries whose name ends in
/// `/` are directories, all others are files whose parents are created
/// first.
#[derive(Clone, Copy, Debug, PartialEq, Eq, Structural)]
pub enum EntryAction {
    MakeDirectory,
    WriteFile,
}

/// Decide how one zip entry is materialised.
pub fn zip_entry_action(name: &str) -> (r: EntryAction)
    ensures
        r is MakeDirectory <==> (name@.len() > 0 && name@.last() == '/'),
{
    let len = name.unicode_len();
    if len > 0 && name.get_char(len - 1) == '/' {
        EntryAction::MakeDirectory
    } else {
        EntryAction::WriteFile
    }
}

/// The percentage reported after finishing entry `done` of `total`,
/// rounded down.
pub fn entry_progress(done: usize, total: usize) -> (p: u8)
    requires
        1 <= total,
        done <= total,
    ensures
        p == (done * 100) / (total as int),
        p <= 100,
{
    let d = done as u128;
    let t = total as u128;
    let q = (d * 100) / t;
    proof {
        let dd = d as int;
        let tt = t as int;
        assert(dd * 100 <= tt * 100) by (nonlinear_arith)
            requires
                dd <= tt,
                0 <= dd,
        ;
        assert((dd * 100) / tt <= (tt * 100) / tt) by (nonlinear_arith)
            requires
                dd * 100 <= tt * 100,
                tt >= 1,
                0 <= dd,
        ;
        assert((tt * 100) / tt == 100) by (nonlinear_arith)
            requires
                tt >= 1,
        ;
    }
    q as u8
}

} // verus!
