//! Stripping terminal colour/control sequences from captured plugin
//! output: every run of the shape `ESC [ <digits-or-semicolons> <letter>`
//! is removed, scanning left to right.
use vstd::prelude::*;

verus! {

/// The escape character that opens a control sequence.
pub open spec fn esc_char() -> char {
    '\x1B'
}

/// A character allowed in the parameter body of a control sequence.
pub open spec fn is_csi_body(c: char) -> bool {
    ('0' <= c && c <= '9') || c == ';'
}

/// The letter that closes a control sequence.
pub open spec fn is_ascii_letter(c: char) -> bool {
    ('A' <= c && c <= 'Z') || ('a' <= c && c <= 'z')
}

/// How many leading characters of `s` are parameter-body characters.
pub open spec fn body_run(s: Seq<char>) -> int
    decreases s.len(),
{
    if s.len() > 0 && is_csi_body(s[0]) {
        1 + body_run(s.skip(1))
    } else {
        0
    }
}

/// The length of the control sequence starting at the head of `s`, or
/// `-1` if none starts there.
pub open spec fn csi_match_len(s: Seq<char>) -> int {
    if s.len() >= 2 && s[0] == esc_char() && s[1] == '[' {
        let k = body_run(s.skip(2));
        if 2 + k < s.len() && is_ascii_letter(s[2 + k]) {
            3 + k
        } else {
            -1
        }
    } else {
        -1
    }
}

/// `body_run` stays inside the sequence.
pub proof fn lemma_body_run_range(s: Seq<char>)
    ensures
        0 <= body_run(s) <= s.len(),
    decreases s.len(),
{
    if s.len() > 0 && is_csi_body(s[0]) {
        lemma_body_run_range(s.skip(1));
    }
}

/// `s` with every control sequence removed, left to right.
pub open spec fn strip_ansi(s: Seq<char>) -> Seq<char>
    decreases s.len(),
    via strip_ansi_decreases
{
    if s.len() == 0 {
        s
    } else {
        let m = csi_match_len(s);
        if m > 0 {
            strip_ansi(s.skip(m))
        } else {
            seq![s[0]] + strip_ansi(s.skip(1))
        }
    }
}

#[via_fn]
proof fn strip_ansi_decreases(s: Seq<char>) {
    if s.len() > 0 {
        lemma_body_run_range(s.skip(2));
    }
}

/// `body_run` is the first position whose character is not a body
/// character.
proof fn lemma_body_run_characterization(s: Seq<char>, k: int)
    requires
        0 <= k <= s.len(),
        forall|m: int| 0 <= m < k ==> is_csi_body(#[trigger] s[m]),
        k < s.len() ==> !is_csi_body(s[k]),
    ensures
        body_run(s) == k,
    decreases s.len(),
{
    if s.len() == 0 {
    } else if !is_csi_body(s[0]) {
        assert(k == 0);
    } else {
        assert(k >= 1);
        let t = s.skip(1);
        assert forall|m: int| 0 <= m < k - 1 implies is_csi_body(#[trigger] t[m]) by {
            assert(t[m] == s[m + 1]);
        }
        lemma_body_run_characterization(t, k - 1);
    }
}

/// Executable test for a parameter-body character.
fn is_csi_body_exec(c: char) -> (r: bool)
    ensures
        r == is_csi_body(c),
{
    ('0' <= c && c <= '9') || c == ';'
}

/// Executable test for a closing letter.
fn is_ascii_letter_exec(c: char) -> (r: bool)
    ensures
        r == is_ascii_letter(c),
{
    ('A' <= c && c <= 'Z') || ('a' <= c && c <= 'z')
}

/// Remove terminal colour/control sequences (`strip_ansi`) from captured
/// plugin output.
pub fn strip_ansi_codes(input: &str) -> (r: String)
    ensures
        r@ == strip_ansi(input@),
{
    let len = input.unicode_len();
    let mut out = String::new();
    let mut i: usize = 0;
    proof {
        assert(input@.skip(0) =~= input@);
    }
    while i < len
        invariant
            len == input@.len(),
            0 <= i <= len,
            strip_ansi(input@) == out@ + strip_ansi(input@.skip(i as int)),
        decreases len - i,
    {
        let c = input.get_char(i);
        let mut match_end: usize = 0;
        let mut have_match = false;
        if c == '\x1B' && i + 1 < len && input.get_char(i + 1) == '[' {
            let mut j = i + 2;
            while j < len && is_csi_body_exec(input.get_char(j))
                invariant
                    len == input@.len(),
                    i + 2 <= j <= len,
                    forall|m: int| i + 2 <= m < j ==> is_csi_body(#[trigger] input@[m]),
                decreases len - j,
            {
                j = j + 1;
            }
            proof {
                let t = input@.skip(i + 2);
                assert forall|m: int| 0 <= m < j - (i + 2) implies is_csi_body(
                    #[trigger] t[m],
                ) by {
                    assert(t[m] == input@[i + 2 + m]);
                }
                if j < len {
                    assert(t[j - (i + 2)] == input@[j as int]);
                }
                lemma_body_run_characterization(t, j - (i + 2));
                assert(input@.skip(i as int).skip(2) =~= t);
            }
            if j < len && is_ascii_letter_exec(input.get_char(j)) {
                assert(input@.skip(i as int)[2 + (j - (i + 2))] == input@[j as int]);
                assert(csi_match_len(input@.skip(i as int)) == j + 1 - i);
                have_match = true;
                match_end = j + 1;
            } else {
                proof {
                    if j < len {
                        assert(input@.skip(i as int)[2 + (j - (i + 2))] == input@[j as int]);
                    }
                    assert(csi_match_len(input@.skip(i as int)) == -1);
                }
            }
        }
        if have_match {
            proof {
                let rest = input@.skip(i as int);
                assert(strip_ansi(rest) == strip_ansi(rest.skip(csi_match_len(rest))));
                assert(rest.skip(match_end - i) =~= input@.skip(match_end as int));
            }
            i = match_end;
        } else {
            proof {
                let rest = input@.skip(i as int);
                if rest.len() >= 2 && rest[0] == esc_char() && rest[1] == '[' {
                    assert(csi_match_len(rest) == -1);
                } else {
                    assert(csi_match_len(rest) <= 0);
                }
                assert(strip_ansi(rest) == seq![rest[0]] + strip_ansi(rest.skip(1)));
                assert(rest[0] == input@[i as int]);
                assert(rest.skip(1) =~= input@.skip(i + 1));
            }
            let piece = input.substring_char(i, i + 1);
            out.append(piece);
            proof {
                assert(piece@ =~= seq![input@[i as int]]);
                assert(out@ + strip_ansi(input@.skip(i + 1)) =~= strip_ansi(input@));
            }
            i = i + 1;
        }
    }
    proof {
        assert(input@.skip(len as int) =~= Seq::<char>::empty());
        assert(out@ =~= strip_ansi(input@));
    }
    out
}

} // verus!
