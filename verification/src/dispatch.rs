//! The download dispatcher's decision logic: validate the source URL,
//! plan how a provider is executed (script, command or native), and judge
//! the outcome of an external provider process under the layered success
//! check.
use vstd::prelude::*;
use crate::manifest::PluginManifest;
use crate::protocol::{
    json_parses, json_string_field, opt_view, stdin_document, build_stdin_document,
};
use crate::text::{contains_seq, contains_sub, str_eq};

verus! {

/// Why a download attempt failed before or after running its provider.
#[derive(Debug)]
pub enum DownloadError {
    /// The source URL is malformed or has no host.
    InvalidUrl(String),
    /// No plugin serves the request, or the manifest's strategy cannot be
    /// executed as configured.
    UnsupportedProvider(String),
    /// The provider ran and did not produce the file.
    DownloadFailed(String),
}

/// One whitespace character, as command lines use them.
pub open spec fn is_space(c: char) -> bool {
    c == ' ' || c == '\t' || c == '\n' || c == '\r'
}

/// The number of leading whitespace characters.
pub open spec fn leading_spaces(s: Seq<char>) -> int
    decreases s.len(),
{
    if s.len() == 0 {
        0
    } else if !is_space(s[0]) {
        0
    } else {
        1 + leading_spaces(s.skip(1))
    }
}

/// The position of the first whitespace character, or the length.
pub open spec fn first_space(s: Seq<char>) -> int
    decreases s.len(),
{
    if s.len() == 0 {
        0
    } else if is_space(s[0]) {
        0
    } else {
        1 + first_space(s.skip(1))
    }
}

/// The first whitespace-separated token of `s`; a string of nothing but
/// whitespace stands for itself.
pub open spec fn first_token(s: Seq<char>) -> Seq<char> {
    let a = leading_spaces(s);
    if a == s.len() {
        s
    } else {
        s.subrange(a, a + first_space(s.skip(a)))
    }
}

proof fn lemma_leading_spaces_characterization(s: Seq<char>, i: int)
    requires
        0 <= i <= s.len(),
        forall|j: int| 0 <= j < i ==> is_space(#[trigger] s[j]),
        i < s.len() ==> !is_space(s[i]),
    ensures
        leading_spaces(s) == i,
    decreases s.len(),
{
    if s.len() == 0 {
    } else if !is_space(s[0]) {
        assert(i == 0);
    } else {
        assert(i >= 1);
        let t = s.skip(1);
        assert forall|j: int| 0 <= j < i - 1 implies is_space(#[trigger] t[j]) by {
            assert(t[j] == s[j + 1]);
        }
        lemma_leading_spaces_characterization(t, i - 1);
    }
}

proof fn lemma_first_space_characterization(s: Seq<char>, i: int)
    requires
        0 <= i <= s.len(),
        forall|j: int| 0 <= j < i ==> !is_space(#[trigger] s[j]),
        i < s.len() ==> is_space(s[i]),
    ensures
        first_space(s) == i,
    decreases s.len(),
{
    if s.len() == 0 {
    } else if is_space(s[0]) {
        assert(i == 0);
    } else {
        assert(i >= 1);
        let t = s.skip(1);
        assert forall|j: int| 0 <= j < i - 1 implies !is_space(#[trigger] t[j]) by {
            assert(t[j] == s[j + 1]);
        }
        lemma_first_space_characterization(t, i - 1);
    }
}

/// Executable whitespace test.
fn is_space_exec(c: char) -> (r: bool)
    ensures
        r == is_space(c),
{
    c == ' ' || c == '\t' || c == '\n' || c == '\r'
}

/// The first whitespace-separated token of `s` (`first_token`).
pub fn first_token_exec(s: &str) -> (r: String)
    ensures
        r@ == first_token(s@),
{
    let len = s.unicode_len();
    let mut a: usize = 0;
    while a < len && is_space_exec(s.get_char(a))
        invariant
            len == s@.len(),
            0 <= a <= len,
            forall|j: int| 0 <= j < a ==> is_space(#[trigger] s@[j]),
        decreases len - a,
    {
        a = a + 1;
    }
    proof {
        lemma_leading_spaces_characterization(s@, a as int);
    }
    if a == len {
        return String::from_str(s);
    }
    let mut b: usize = a;
    while b < len && !is_space_exec(s.get_char(b))
        invariant
            len == s@.len(),
            a <= b <= len,
            forall|j: int| a <= j < b ==> !is_space(#[trigger] s@[j]),
        decreases len - b,
    {
        b = b + 1;
    }
    proof {
        let t = s@.skip(a as int);
        assert forall|j: int| 0 <= j < b - a implies !is_space(#[trigger] t[j]) by {
            assert(t[j] == s@[a + j]);
        }
        if b < len {
            assert(t[b - a] == s@[b as int]);
        }
        lemma_first_space_characterization(t, b - a);
    }
    let tok = s.substring_char(a, b);
    proof {
        assert(tok@ =~= first_token(s@));
    }
    String::from_str(tok)
}

/// `s` with every occurrence of `pat` replaced by `rep`, scanning left to
/// right without revisiting replacements.
pub open spec fn replaced(s: Seq<char>, pat: Seq<char>, rep: Seq<char>) -> Seq<char>
    decreases s.len(),
    when pat.len() > 0
{
    if s.len() < pat.len() {
        s
    } else if s.subrange(0, pat.len() as int) == pat {
        rep + replaced(s.skip(pat.len() as int), pat, rep)
    } else {
        seq![s[0]] + replaced(s.skip(1), pat, rep)
    }
}

/// Whether `pat` occurs in `s` starting at `i`.
fn matches_at(s: &str, i: usize, pat: &str) -> (r: bool)
    requires
        i <= s@.len(),
    ensures
        r == (i + pat@.len() <= s@.len() && s@.subrange(i as int, i + pat@.len()) == pat@),
{
    let len = s.unicode_len();
    let plen = pat.unicode_len();
    if plen > len - i {
        return false;
    }
    let mut j: usize = 0;
    while j < plen
        invariant
            len == s@.len(),
            plen == pat@.len(),
            i + plen <= len,
            0 <= j <= plen,
            forall|m: int| 0 <= m < j ==> s@[i + m] == pat@[m],
        decreases plen - j,
    {
        if s.get_char(i + j) != pat.get_char(j) {
            assert(s@.subrange(i as int, i + pat@.len())[j as int] != pat@[j as int]);
            return false;
        }
        j = j + 1;
    }
    assert(s@.subrange(i as int, i + pat@.len()) =~= pat@);
    true
}

/// Replace every occurrence of `pat` in `s` by `rep` (`replaced`).
pub fn replace_all(s: &str, pat: &str, rep: &str) -> (r: String)
    requires
        pat@.len() > 0,
    ensures
        r@ == replaced(s@, pat@, rep@),
{
    let len = s.unicode_len();
    let plen = pat.unicode_len();
    let mut out = String::new();
    let mut i: usize = 0;
    proof {
        assert(s@.skip(0int) =~= s@);
    }
    while i < len
        invariant
            len == s@.len(),
            plen == pat@.len(),
            plen > 0,
            0 <= i <= len,
            replaced(s@, pat@, rep@) == out@ + replaced(s@.skip(i as int), pat@, rep@),
        decreases len - i,
    {
        let ghost rest = s@.skip(i as int);
        if matches_at(s, i, pat) {
            out.append(rep);
            proof {
                assert(rest.subrange(0, pat@.len() as int) =~= s@.subrange(
                    i as int,
                    i + pat@.len(),
                ));
                assert(replaced(rest, pat@, rep@) == rep@ + replaced(
                    rest.skip(plen as int),
                    pat@,
                    rep@,
                ));
                assert(rest.skip(plen as int) =~= s@.skip(i + plen));
                assert(out@ + replaced(s@.skip(i + plen), pat@, rep@) =~= replaced(
                    s@,
                    pat@,
                    rep@,
                ));
            }
            i = i + plen;
        } else {
            let piece = s.substring_char(i, i + 1);
            out.append(piece);
            proof {
                if rest.len() >= pat@.len() {
                    assert(rest.subrange(0, pat@.len() as int) =~= s@.subrange(
                        i as int,
                        i + pat@.len(),
                    ));
                    assert(replaced(rest, pat@, rep@) == seq![rest[0]] + replaced(
                        rest.skip(1),
                        pat@,
                        rep@,
                    ));
                } else {
                    assert(replaced(rest, pat@, rep@) == rest);
                    assert(rest.skip(1).len() < pat@.len());
                    assert(replaced(rest.skip(1), pat@, rep@) == rest.skip(1));
                    assert(rest =~= seq![rest[0]] + rest.skip(1));
                }
                assert(piece@ =~= seq![rest[0]]);
                assert(rest.skip(1) =~= s@.skip(i + 1));
                assert(out@ + replaced(s@.skip(i + 1), pat@, rep@) =~= replaced(s@, pat@, rep@));
            }
            i = i + 1;
        }
    }
    proof {
        assert(s@.skip(len as int) =~= Seq::<char>::empty());
        assert(replaced(Seq::<char>::empty(), pat@, rep@) == Seq::<char>::empty());
        assert(out@ =~= replaced(s@, pat@, rep@));
    }
    out
}

/// The position of the first `://` in `u`, or `-1`.
pub open spec fn scheme_sep(u: Seq<char>) -> int
    decreases u.len(),
{
    if u.len() < 3 {
        -1
    } else if u[0] == ':' && u[1] == '/' && u[2] == '/' {
        0
    } else {
        let r = scheme_sep(u.skip(1));
        if r < 0 {
            -1
        } else {
            1 + r
        }
    }
}

/// A well-formed download source: a non-empty scheme, `://`, and a
/// non-empty host part.
pub open spec fn url_valid(u: Seq<char>) -> bool {
    let p = scheme_sep(u);
    p >= 1 && p + 3 < u.len() && u[p + 3] != '/' && u[p + 3] != '?' && u[p + 3] != '#'
}

proof fn lemma_scheme_sep_characterization(u: Seq<char>, i: int)
    requires
        0 <= i,
        i + 3 <= u.len(),
        forall|j: int|
            0 <= j < i ==> !(#[trigger] u[j] == ':' && u[j + 1] == '/' && u[j + 2] == '/'),
        u[i] == ':' && u[i + 1] == '/' && u[i + 2] == '/',
    ensures
        scheme_sep(u) == i,
    decreases u.len(),
{
    if i == 0 {
    } else {
        let t = u.skip(1);
        assert forall|j: int|
            0 <= j < i - 1 implies !(#[trigger] t[j] == ':' && t[j + 1] == '/' && t[j + 2]
            == '/') by {
            assert(t[j] == u[j + 1]);
            assert(t[j + 1] == u[j + 2]);
            assert(t[j + 2] == u[j + 3]);
            assert(!(u[j + 1] == ':' && u[j + 2] == '/' && u[j + 3] == '/'));
        }
        assert(t[i - 1] == u[i] && t[i] == u[i + 1] && t[i + 1] == u[i + 2]);
        lemma_scheme_sep_characterization(t, i - 1);
        assert(!(u[0] == ':' && u[1] == '/' && u[2] == '/'));
    }
}

proof fn lemma_scheme_sep_none(u: Seq<char>)
    requires
        forall|j: int|
            0 <= j && j + 3 <= u.len() ==> !(#[trigger] u[j] == ':' && u[j + 1] == '/' && u[j + 2]
                == '/'),
    ensures
        scheme_sep(u) == -1,
    decreases u.len(),
{
    if u.len() >= 3 {
        assert(!(u[0] == ':' && u[1] == '/' && u[2] == '/'));
        let t = u.skip(1);
        assert forall|j: int|
            0 <= j && j + 3 <= t.len() implies !(#[trigger] t[j] == ':' && t[j + 1] == '/' && t[j
            + 2] == '/') by {
            assert(t[j] == u[j + 1]);
            assert(t[j + 1] == u[j + 2]);
            assert(t[j + 2] == u[j + 3]);
            assert(!(u[j + 1] == ':' && u[j + 2] == '/' && u[j + 3] == '/'));
        }
        lemma_scheme_sep_none(t);
    }
}

/// Check that `url` names a host (`url_valid`); a malformed or hostless
/// source is refused before any provider runs.
pub fn validate_download_url(url: &str) -> (r: Result<(), DownloadError>)
    ensures
        r is Ok <==> url_valid(url@),
        r matches Err(e) ==> e matches DownloadError::InvalidUrl(m) && m@
            == "Invalid or hostless URL: "@ + url@,
{
    let len = url.unicode_len();
    let mut i: usize = 0;
    let mut sep: usize = 0;
    let mut found = false;
    while !found && len - i >= 3
        invariant
            len == url@.len(),
            0 <= i,
            !found ==> i <= len,
            found ==> sep + 3 <= len && url@[sep as int] == ':' && url@[sep + 1] == '/'
                && url@[sep + 2] == '/' && scheme_sep(url@) == sep,
            !found ==> forall|j: int|
                0 <= j < i ==> !(#[trigger] url@[j] == ':' && url@[j + 1] == '/' && url@[j + 2]
                    == '/'),
        decreases len - i + (if found { 0int } else { 1int }),
    {
        if url.get_char(i) == ':' && url.get_char(i + 1) == '/' && url.get_char(i + 2) == '/' {
            sep = i;
            found = true;
            proof {
                lemma_scheme_sep_characterization(url@, i as int);
            }
        } else {
            i = i + 1;
        }
    }
    let ok: bool = if !found {
        proof {
            lemma_scheme_sep_none(url@);
        }
        false
    } else {
        if sep >= 1 && sep + 3 < len {
            let h = url.get_char(sep + 3);
            h != '/' && h != '?' && h != '#'
        } else {
            false
        }
    };
    if ok {
        Ok(())
    } else {
        let mut m = String::from_str("Invalid or hostless URL: ");
        m.append(url);
        Err(DownloadError::InvalidUrl(m))
    }
}

/// How many leading characters of `s` belong to a host name: everything
/// before the first `/`, `?` or `#`.
pub open spec fn host_len(s: Seq<char>) -> int
    decreases s.len(),
{
    if s.len() == 0 {
        0
    } else if s[0] == '/' || s[0] == '?' || s[0] == '#' {
        0
    } else {
        1 + host_len(s.skip(1))
    }
}

/// The host part of a URL that `url_valid` accepts: what stands between
/// `://` and the first `/`, `?` or `#`.
pub open spec fn host_part(u: Seq<char>) -> Seq<char> {
    let start = scheme_sep(u) + 3;
    u.subrange(start, start + host_len(u.skip(start)))
}

proof fn lemma_host_len_characterization(s: Seq<char>, i: int)
    requires
        0 <= i <= s.len(),
        forall|j: int| 0 <= j < i ==> #[trigger] s[j] != '/' && s[j] != '?' && s[j] != '#',
        i < s.len() ==> (s[i] == '/' || s[i] == '?' || s[i] == '#'),
    ensures
        host_len(s) == i,
    decreases s.len(),
{
    if s.len() == 0 {
    } else if s[0] == '/' || s[0] == '?' || s[0] == '#' {
        assert(i == 0);
    } else {
        assert(i >= 1);
        let t = s.skip(1);
        assert forall|j: int| 0 <= j < i - 1 implies #[trigger] t[j] != '/' && t[j] != '?' && t[j]
            != '#' by {
            assert(t[j] == s[j + 1]);
        }
        lemma_host_len_characterization(t, i - 1);
    }
}

/// The host named by `url`, or `None` for a source that `url_valid`
/// refuses.
pub fn url_host(url: &str) -> (r: Option<String>)
    ensures
        match r {
            Some(h) => url_valid(url@) && h@ == host_part(url@),
            None => !url_valid(url@),
        },
{
    if validate_download_url(url).is_err() {
        return None;
    }
    let len = url.unicode_len();
    let mut i: usize = 0;
    let mut sep: usize = 0;
    let mut found = false;
    while !found && len - i >= 3
        invariant
            len == url@.len(),
            0 <= i,
            !found ==> i <= len,
            found ==> sep + 3 <= len && url@[sep as int] == ':' && url@[sep + 1] == '/'
                && url@[sep + 2] == '/' && scheme_sep(url@) == sep,
            !found ==> forall|j: int|
                0 <= j < i ==> !(#[trigger] url@[j] == ':' && url@[j + 1] == '/' && url@[j + 2]
                    == '/'),
        decreases len - i + (if found { 0int } else { 1int }),
    {
        if url.get_char(i) == ':' && url.get_char(i + 1) == '/' && url.get_char(i + 2) == '/' {
            sep = i;
            found = true;
            proof {
                lemma_scheme_sep_characterization(url@, i as int);
            }
        } else {
            i = i + 1;
        }
    }
    if !found {
        proof {
            lemma_scheme_sep_none(url@);
        }
        return None;
    }
    let start = sep + 3;
    let mut end = start;
    while end < len && url.get_char(end) != '/' && url.get_char(end) != '?' && url.get_char(end)
        != '#'
        invariant
            len == url@.len(),
            start <= end <= len,
            forall|j: int|
                start <= j < end ==> #[trigger] url@[j] != '/' && url@[j] != '?' && url@[j]
                    != '#',
        decreases len - end,
    {
        end = end + 1;
    }
    proof {
        let t = url@.skip(start as int);
        assert forall|j: int| 0 <= j < end - start implies #[trigger] t[j] != '/' && t[j] != '?'
            && t[j] != '#' by {
            assert(t[j] == url@[start + j]);
        }
        if end < len {
            assert(t[end - start] == url@[end as int]);
        }
        lemma_host_len_characterization(t, end - start);
    }
    let host = url.substring_char(start, end);
    proof {
        assert(host@ =~= host_part(url@));
    }
    Some(String::from_str(host))
}

/// What `shlex::split` returns: POSIX-shell word splitting, a function
/// of the string alone; `None` reports erroneous quoting.
pub uninterp spec fn shell_split(s: Seq<char>) -> Option<Seq<Seq<char>>>;

/// Relies on shlex::split: shell-quote-aware tokenization of a command
/// line; `None` on erroneous input.
#[verifier::external_body]
fn shlex_split(s: &str) -> (r: Option<Vec<String>>)
    ensures
        match r {
            Some(v) => shell_split(s@) matches Some(w) && v.deep_view() == w,
            None => shell_split(s@) is None,
        },
{
    shlex::split(s)
}

/// The words of a split entry point after the first, or nothing where
/// the split failed or was empty.
pub open spec fn entry_args(entry_point: Seq<char>) -> Seq<Seq<char>> {
    match shell_split(entry_point) {
        Some(parts) => if parts.len() >= 1 {
            parts.skip(1)
        } else {
            Seq::empty()
        },
        None => Seq::empty(),
    }
}

/// Clone the words after the first; an empty or failed split gives no
/// words (`entry_args`).
fn entry_args_exec(entry_point: &str) -> (r: Vec<String>)
    ensures
        r.deep_view() == entry_args(entry_point@),
{
    let parts = shlex_split(entry_point);
    let mut out: Vec<String> = Vec::new();
    match parts {
        None => {
            proof {
                assert(out.deep_view() =~= entry_args(entry_point@));
            }
            out
        },
        Some(v) => {
            if v.len() == 0 {
                proof {
                    assert(out.deep_view() =~= entry_args(entry_point@));
                }
                out
            } else {
                let mut i: usize = 1;
                while i < v.len()
                    invariant
                        1 <= i <= v@.len(),
                        out@.len() == i - 1,
                        forall|j: int| 0 <= j < i - 1 ==> (#[trigger] out@[j])@ == v@[j + 1]@,
                    decreases v@.len() - i,
                {
                    out.push(v[i].clone());
                    i = i + 1;
                }
                proof {
                    assert(out.deep_view() =~= entry_args(entry_point@));
                }
                out
            }
        },
    }
}


/// How one dispatch is to be executed: the strategies of §the manifest's
/// `plugin_type`. `Script` carries the standard-input document; `Native`
/// names a built-in provider the host supplies.
#[derive(Debug)]
pub enum DispatchPlan {
    Script { program: String, args: Vec<String>, stdin_doc: String },
    Command { program: String, args: Vec<String> },
    Native { provider_id: String },
}

/// The interpreter a manifest's explicit language hint selects.
pub open spec fn lang_table(l: Seq<char>) -> Option<Seq<char>> {
    if l == "python"@ {
        Some("python"@)
    } else if l == "bash"@ {
        Some("bash"@)
    } else if l == "node"@ {
        Some("node"@)
    } else {
        None
    }
}

/// The interpreter a script file's extension selects.
pub open spec fn ext_table(program: Seq<char>) -> Option<Seq<char>> {
    if program.len() >= 3 && program.skip(program.len() - 3) == ".py"@ {
        Some("python"@)
    } else if program.len() >= 3 && program.skip(program.len() - 3) == ".sh"@ {
        Some("bash"@)
    } else if program.len() >= 3 && program.skip(program.len() - 3) == ".js"@ {
        Some("node"@)
    } else {
        None
    }
}

/// The interpreter for a non-external script plugin: the explicit
/// language hint rules; without one, the script extension decides; an
/// unmatched case is an error, never a silent guess.
pub open spec fn interpreter_of(language: Option<Seq<char>>, program: Seq<char>) -> Option<
    Seq<char>,
> {
    match language {
        Some(l) => lang_table(l),
        None => ext_table(program),
    }
}

/// Exact-suffix test.
fn ends_with_exact(s: &str, suffix: &str) -> (r: bool)
    ensures
        r == (s@.len() >= suffix@.len() && s@.skip(s@.len() - suffix@.len()) == suffix@),
{
    let s_len = s.unicode_len();
    let suf_len = suffix.unicode_len();
    if s_len < suf_len {
        return false;
    }
    let tail = s.substring_char(s_len - suf_len, s_len);
    let r = str_eq(tail, suffix);
    proof {
        assert(tail@ =~= s@.skip(s@.len() - suffix@.len()));
    }
    r
}

/// Executable counterpart of `interpreter_of`.
fn interpreter_exec(language: Option<&String>, program: &str) -> (r: Option<&'static str>)
    ensures
        match r {
            Some(i) => interpreter_of(
                match language {
                    Some(l) => Some(l@),
                    None => None,
                },
                program@,
            ) == Some(i@),
            None => interpreter_of(
                match language {
                    Some(l) => Some(l@),
                    None => None,
                },
                program@,
            ) is None,
        },
{
    proof {
        reveal_strlit("python");
        reveal_strlit("bash");
        reveal_strlit("node");
        reveal_strlit(".py");
        reveal_strlit(".sh");
        reveal_strlit(".js");
    }
    match language {
        Some(l) => {
            if str_eq(l.as_str(), "python") {
                Some("python")
            } else if str_eq(l.as_str(), "bash") {
                Some("bash")
            } else if str_eq(l.as_str(), "node") {
                Some("node")
            } else {
                None
            }
        },
        None => {
            if ends_with_exact(program, ".py") {
                Some("python")
            } else if ends_with_exact(program, ".sh") {
                Some("bash")
            } else if ends_with_exact(program, ".js") {
                Some("node")
            } else {
                None
            }
        },
    }
}

/// The path of a script inside the plugin directory.
pub open spec fn joined_path(dir: Seq<char>, name: Seq<char>) -> Seq<char> {
    dir + seq!['/'] + name
}

/// The language hint's view.
pub open spec fn language_view(language: Option<String>) -> Option<Seq<char>> {
    match language {
        Some(l) => Some(l@),
        None => None,
    }
}

/// The command line of a command-strategy manifest after substituting
/// the source URL and target path into its entry-point template.
pub open spec fn substituted_command(
    entry_point: Seq<char>,
    url: Seq<char>,
    target_path: Seq<char>,
) -> Seq<char> {
    replaced(replaced(entry_point, "{{download_url}}"@, url), "{{output}}"@, target_path)
}

/// Plan how a provider executes one download. The URL must name a host;
/// a `script` manifest resolves to its external binary or to an
/// interpreter plus the script under `plugins_dir`, with the protocol
/// document on standard input; a `command` manifest has its template
/// substituted and shell-tokenized; `native` defers to a built-in
/// provider the host supplies; any other strategy is refused.
pub fn plan_dispatch(
    manifest: &PluginManifest,
    action: &str,
    url: &str,
    target_path: &str,
    download_id: &str,
    plugins_dir: &str,
    options_json: Option<&str>,
) -> (r: Result<DispatchPlan, DownloadError>)
    ensures
        !url_valid(url@) ==> (r matches Err(e) && e matches DownloadError::InvalidUrl(m) && m@
            == "Invalid or hostless URL: "@ + url@),
        url_valid(url@) && manifest.plugin_type@ == "script"@ && manifest.external_binary ==> (
        match manifest.binary_path {
            None => r matches Err(e) && e matches DownloadError::DownloadFailed(m) && m@
                == "Missing binary path"@,
            Some(bp) => r matches Ok(p) && p matches DispatchPlan::Script {
                program,
                args,
                stdin_doc,
            } && program@ == bp@ && args.deep_view() == entry_args(manifest.entry_point@)
                && stdin_doc@ == stdin_document(
                action@,
                url@,
                target_path@,
                download_id@,
                opt_view(options_json),
            ),
        }),
        url_valid(url@) && manifest.plugin_type@ == "script"@ && !manifest.external_binary ==> (
        match interpreter_of(
            language_view(manifest.language),
            first_token(manifest.entry_point@),
        ) {
            None => r matches Err(e) && e matches DownloadError::UnsupportedProvider(m) && m@
                == "No interpreter for script plugin: "@ + manifest.id@,
            Some(interp) => r matches Ok(p) && p matches DispatchPlan::Script {
                program,
                args,
                stdin_doc,
            } && program@ == interp && args.deep_view() == seq![
                joined_path(plugins_dir@, first_token(manifest.entry_point@)),
            ] + entry_args(manifest.entry_point@) && stdin_doc@ == stdin_document(
                action@,
                url@,
                target_path@,
                download_id@,
                opt_view(options_json),
            ),
        }),
        url_valid(url@) && manifest.plugin_type@ == "command"@ ==> (match shell_split(
            substituted_command(manifest.entry_point@, url@, target_path@),
        ) {
            None => r matches Err(e) && e matches DownloadError::DownloadFailed(m) && m@
                == "Invalid command format"@,
            Some(parts) => if parts.len() == 0 {
                r matches Err(e) && e matches DownloadError::DownloadFailed(m) && m@
                    == "Empty command"@
            } else {
                r matches Ok(p) && p matches DispatchPlan::Command { program, args } && program@
                    == parts[0] && args.deep_view() == parts.skip(1)
            }
        }),
        url_valid(url@) && manifest.plugin_type@ == "native"@ ==> (r matches Ok(p) && p matches
            DispatchPlan::Native { provider_id } && provider_id@ == manifest.id@),
        url_valid(url@) && manifest.plugin_type@ != "script"@ && manifest.plugin_type@
            != "command"@ && manifest.plugin_type@ != "native"@ ==> (r matches Err(e) && e matches
            DownloadError::UnsupportedProvider(m) && m@ == "Unsupported plugin type: "@
            + manifest.plugin_type@),
{
    proof {
        reveal_strlit("script");
        reveal_strlit("command");
        reveal_strlit("native");
        assert("script"@.len() == 6 && "command"@.len() == 7 && "native"@.len() == 6);
        assert("script"@[0] == 's' && "native"@[0] == 'n' && "command"@[0] == 'c');
        assert("script"@ != "command"@ && "script"@ != "native"@ && "command"@ != "native"@);
    }
    if let Err(e) = validate_download_url(url) {
        return Err(e);
    }
    if str_eq(manifest.plugin_type.as_str(), "script") {
        let stdin_doc = build_stdin_document(action, url, target_path, download_id, options_json);
        if manifest.external_binary {
            match &manifest.binary_path {
                None => Err(DownloadError::DownloadFailed(String::from_str("Missing binary path"))),
                Some(bp) => {
                    let args = entry_args_exec(manifest.entry_point.as_str());
                    Ok(DispatchPlan::Script { program: bp.clone(), args, stdin_doc })
                },
            }
        } else {
            let program_tok = first_token_exec(manifest.entry_point.as_str());
            match interpreter_exec(manifest.language.as_ref(), program_tok.as_str()) {
                None => {
                    let mut m = String::from_str("No interpreter for script plugin: ");
                    m.append(manifest.id.as_str());
                    Err(DownloadError::UnsupportedProvider(m))
                },
                Some(interp) => {
                    let mut script_path = String::from_str(plugins_dir);
                    script_path.append("/");
                    script_path.append(program_tok.as_str());
                    proof {
                        reveal_strlit("/");
                        assert("/"@ =~= seq!['/']);
                        assert(script_path@ =~= joined_path(
                            plugins_dir@,
                            first_token(manifest.entry_point@),
                        ));
                    }
                    let tail = entry_args_exec(manifest.entry_point.as_str());
                    let mut args: Vec<String> = Vec::new();
                    args.push(script_path);
                    let mut i: usize = 0;
                    while i < tail.len()
                        invariant
                            0 <= i <= tail@.len(),
                            args@.len() == i + 1,
                            args.deep_view()[0] == joined_path(
                                plugins_dir@,
                                first_token(manifest.entry_point@),
                            ),
                            forall|j: int|
                                0 <= j < i ==> (#[trigger] args@[j + 1])@ == tail@[j]@,
                        decreases tail@.len() - i,
                    {
                        args.push(tail[i].clone());
                        i = i + 1;
                    }
                    proof {
                        assert(args.deep_view() =~= seq![
                            joined_path(plugins_dir@, first_token(manifest.entry_point@)),
                        ] + tail.deep_view());
                    }
                    Ok(
                        DispatchPlan::Script {
                            program: String::from_str(interp),
                            args,
                            stdin_doc,
                        },
                    )
                },
            }
        }
    } else if str_eq(manifest.plugin_type.as_str(), "command") {
        proof {
            reveal_strlit("{{download_url}}");
            reveal_strlit("{{output}}");
        }
        let step = replace_all(manifest.entry_point.as_str(), "{{download_url}}", url);
        let cmd = replace_all(step.as_str(), "{{output}}", target_path);
        proof {
            assert(cmd@ == substituted_command(manifest.entry_point@, url@, target_path@));
        }
        match shlex_split(cmd.as_str()) {
            None => Err(DownloadError::DownloadFailed(String::from_str("Invalid command format"))),
            Some(parts) => {
                if parts.len() == 0 {
                    Err(DownloadError::DownloadFailed(String::from_str("Empty command")))
                } else {
                    let program = parts[0].clone();
                    let mut args: Vec<String> = Vec::new();
                    let mut i: usize = 1;
                    while i < parts.len()
                        invariant
                            1 <= i <= parts@.len(),
                            args@.len() == i - 1,
                            forall|j: int|
                                0 <= j < i - 1 ==> (#[trigger] args@[j])@ == parts@[j + 1]@,
                        decreases parts@.len() - i,
                    {
                        args.push(parts[i].clone());
                        i = i + 1;
                    }
                    proof {
                        assert(args.deep_view() =~= parts.deep_view().skip(1));
                    }
                    Ok(DispatchPlan::Command { program, args })
                }
            },
        }
    } else if str_eq(manifest.plugin_type.as_str(), "native") {
        Ok(DispatchPlan::Native { provider_id: manifest.id.clone() })
    } else {
        let mut m = String::from_str("Unsupported plugin type: ");
        m.append(manifest.plugin_type.as_str());
        Err(DownloadError::UnsupportedProvider(m))
    }
}

/// Judge a command-strategy run: success requires a zero exit status and
/// the target file on disk; anything else is a failure naming the defect.
pub fn judge_command_outcome(target_path: &str, exit_zero: bool, target_exists: bool) -> (r:
    Result<String, DownloadError>)
    ensures
        exit_zero && target_exists ==> (r matches Ok(p) && p@ == target_path@),
        !exit_zero ==> (r matches Err(e) && e matches DownloadError::DownloadFailed(m) && m@
            == "Command exited with a non-zero status"@),
        exit_zero && !target_exists ==> (r matches Err(e) && e matches
            DownloadError::DownloadFailed(m) && m@ == "File not found at path: "@
            + target_path@),
{
    if !exit_zero {
        Err(
            DownloadError::DownloadFailed(
                String::from_str("Command exited with a non-zero status"),
            ),
        )
    } else if !target_exists {
        let mut m = String::from_str("File not found at path: ");
        m.append(target_path);
        Err(DownloadError::DownloadFailed(m))
    } else {
        Ok(String::from_str(target_path))
    }
}

/// Judge a script-plugin run under the layered success check, in
/// precedence order: (1) the target file on disk is success, whatever
/// the output says; (2) else a declared success marker found in the
/// output makes the URL-derived file under the download directory the
/// result, its absence a failure; (3) else the output must be the JSON
/// object `{"status":"success","path":…}`, and empty output, invalid
/// JSON, a reported error, a missing path, or any other shape is a
/// failure naming the defect. The captured output is expected with
/// terminal control sequences already stripped.
pub fn judge_script_outcome(
    target_path: &str,
    target_exists: bool,
    output: &str,
    success_marker: Option<&str>,
    derived_path: &str,
    derived_exists: bool,
) -> (r: Result<String, DownloadError>)
    ensures
        target_exists ==> (r matches Ok(p) && p@ == target_path@),
        !target_exists && (success_marker matches Some(mk) && contains_seq(output@, mk@))
            ==> (if derived_exists {
            r matches Ok(p) && p@ == derived_path@
        } else {
            r matches Err(e) && e matches DownloadError::DownloadFailed(m) && m@
                == "Success marker found but expected file is missing: "@ + derived_path@
        }),
        !target_exists && !(success_marker matches Some(mk) && contains_seq(output@, mk@)) ==> (
        if output@.len() == 0 {
            r matches Err(e) && e matches DownloadError::DownloadFailed(m) && m@
                == "Plugin returned empty output"@
        } else if !json_parses(output@) {
            r matches Err(e) && e matches DownloadError::DownloadFailed(m) && m@
                == "Invalid plugin output"@
        } else if json_string_field(output@, "status"@) == Some("success"@) {
            match json_string_field(output@, "path"@) {
                Some(p0) => r matches Ok(p) && p@ == p0,
                None => r matches Err(e) && e matches DownloadError::DownloadFailed(m) && m@
                    == "Plugin response missing path"@,
            }
        } else {
            match json_string_field(output@, "error"@) {
                Some(err) => r matches Err(e) && e matches DownloadError::DownloadFailed(m)
                    && m@ == "Plugin error: "@ + err,
                None => r matches Err(e) && e matches DownloadError::DownloadFailed(m) && m@
                    == "Plugin response was not successful"@,
            }
        }),
{
    proof {
        reveal_strlit("status");
        reveal_strlit("path");
        reveal_strlit("error");
        reveal_strlit("success");
    }
    if target_exists {
        return Ok(String::from_str(target_path));
    }
    let marker_hit = match success_marker {
        Some(mk) => contains_sub(output, mk),
        None => false,
    };
    if marker_hit {
        if derived_exists {
            return Ok(String::from_str(derived_path));
        } else {
            let mut m = String::from_str("Success marker found but expected file is missing: ");
            m.append(derived_path);
            return Err(DownloadError::DownloadFailed(m));
        }
    }
    if output.unicode_len() == 0 {
        return Err(DownloadError::DownloadFailed(String::from_str("Plugin returned empty output")));
    }
    if !crate::protocol::json_is_valid(output) {
        return Err(DownloadError::DownloadFailed(String::from_str("Invalid plugin output")));
    }
    let status = crate::protocol::json_field_string(output, "status");
    let is_success = match &status {
        Some(st) => str_eq(st.as_str(), "success"),
        None => false,
    };
    if is_success {
        match crate::protocol::json_field_string(output, "path") {
            Some(p) => Ok(p),
            None => Err(
                DownloadError::DownloadFailed(String::from_str("Plugin response missing path")),
            ),
        }
    } else {
        match crate::protocol::json_field_string(output, "error") {
            Some(err) => {
                let mut m = String::from_str("Plugin error: ");
                m.append(err.as_str());
                Err(DownloadError::DownloadFailed(m))
            },
            None => Err(
                DownloadError::DownloadFailed(
                    String::from_str("Plugin response was not successful"),
                ),
            ),
        }
    }
}

} // verus!
