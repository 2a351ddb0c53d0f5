//! The script-plugin wire protocol: the JSON document written to a
//! plugin's standard input, and reading the JSON object a plugin may
//! print on its standard output.
use vstd::prelude::*;

verus! {

/// The character for one hexadecimal digit.
pub open spec fn hex_digit(d: nat) -> char {
    if d == 0 {
        '0'
    } else if d == 1 {
        '1'
    } else if d == 2 {
        '2'
    } else if d == 3 {
        '3'
    } else if d == 4 {
        '4'
    } else if d == 5 {
        '5'
    } else if d == 6 {
        '6'
    } else if d == 7 {
        '7'
    } else if d == 8 {
        '8'
    } else if d == 9 {
        '9'
    } else if d == 10 {
        'a'
    } else if d == 11 {
        'b'
    } else if d == 12 {
        'c'
    } else if d == 13 {
        'd'
    } else if d == 14 {
        'e'
    } else {
        'f'
    }
}

/// How one character appears inside a JSON string literal.
pub open spec fn json_escape_char(c: char) -> Seq<char> {
    if c == '"' {
        seq!['\\', '"']
    } else if c == '\\' {
        seq!['\\', '\\']
    } else if c == '\n' {
        seq!['\\', 'n']
    } else if c == '\r' {
        seq!['\\', 'r']
    } else if c == '\t' {
        seq!['\\', 't']
    } else if (c as u32) < 32 {
        seq!['\\', 'u', '0', '0', hex_digit((c as u32) as nat / 16), hex_digit(
            (c as u32) as nat % 16,
        )]
    } else {
        seq![c]
    }
}

/// A whole string escaped for a JSON string literal.
pub open spec fn json_escaped(s: Seq<char>) -> Seq<char>
    decreases s.len(),
{
    if s.len() == 0 {
        s
    } else {
        json_escaped(s.drop_last()) + json_escape_char(s.last())
    }
}

/// The two characters of a `\u00..` escape for a control character.
fn control_escape_tail(v: u32) -> (r: &'static str)
    requires
        v < 32,
    ensures
        r@ == seq![hex_digit(v as nat / 16), hex_digit(v as nat % 16)],
{
    let r = match v {
        0 => "00",
        1 => "01",
        2 => "02",
        3 => "03",
        4 => "04",
        5 => "05",
        6 => "06",
        7 => "07",
        8 => "08",
        9 => "09",
        10 => "0a",
        11 => "0b",
        12 => "0c",
        13 => "0d",
        14 => "0e",
        15 => "0f",
        16 => "10",
        17 => "11",
        18 => "12",
        19 => "13",
        20 => "14",
        21 => "15",
        22 => "16",
        23 => "17",
        24 => "18",
        25 => "19",
        26 => "1a",
        27 => "1b",
        28 => "1c",
        29 => "1d",
        30 => "1e",
        _ => "1f",
    };
    proof {
        reveal_strlit("00");
        reveal_strlit("01");
        reveal_strlit("02");
        reveal_strlit("03");
        reveal_strlit("04");
        reveal_strlit("05");
        reveal_strlit("06");
        reveal_strlit("07");
        reveal_strlit("08");
        reveal_strlit("09");
        reveal_strlit("0a");
        reveal_strlit("0b");
        reveal_strlit("0c");
        reveal_strlit("0d");
        reveal_strlit("0e");
        reveal_strlit("0f");
        reveal_strlit("10");
        reveal_strlit("11");
        reveal_strlit("12");
        reveal_strlit("13");
        reveal_strlit("14");
        reveal_strlit("15");
        reveal_strlit("16");
        reveal_strlit("17");
        reveal_strlit("18");
        reveal_strlit("19");
        reveal_strlit("1a");
        reveal_strlit("1b");
        reveal_strlit("1c");
        reveal_strlit("1d");
        reveal_strlit("1e");
        reveal_strlit("1f");
        assert(r@ =~= seq![hex_digit(v as nat / 16), hex_digit(v as nat % 16)]);
    }
    r
}

/// Escape a string for inclusion in a JSON string literal.
pub fn escape_json(s: &str) -> (r: String)
    ensures
        r@ == json_escaped(s@),
{
    let len = s.unicode_len();
    let mut out = String::new();
    let mut i: usize = 0;
    proof {
        assert(s@.take(0int) =~= Seq::<char>::empty());
    }
    while i < len
        invariant
            len == s@.len(),
            0 <= i <= len,
            out@ == json_escaped(s@.take(i as int)),
        decreases len - i,
    {
        let c = s.get_char(i);
        if c == '"' {
            out.append("\\\"");
            proof {
                reveal_strlit("\\\"");
                assert("\\\""@ =~= json_escape_char(c));
            }
        } else if c == '\\' {
            out.append("\\\\");
            proof {
                reveal_strlit("\\\\");
                assert("\\\\"@ =~= json_escape_char(c));
            }
        } else if c == '\n' {
            out.append("\\n");
            proof {
                reveal_strlit("\\n");
                assert("\\n"@ =~= json_escape_char(c));
            }
        } else if c == '\r' {
            out.append("\\r");
            proof {
                reveal_strlit("\\r");
                assert("\\r"@ =~= json_escape_char(c));
            }
        } else if c == '\t' {
            out.append("\\t");
            proof {
                reveal_strlit("\\t");
                assert("\\t"@ =~= json_escape_char(c));
            }
        } else if (c as u32) < 32 {
            out.append("\\u00");
            out.append(control_escape_tail(c as u32));
            proof {
                reveal_strlit("\\u00");
                assert("\\u00"@ + seq![
                    hex_digit((c as u32) as nat / 16),
                    hex_digit((c as u32) as nat % 16),
                ] =~= json_escape_char(c));
            }
        } else {
            let piece = s.substring_char(i, i + 1);
            out.append(piece);
            proof {
                assert(piece@ =~= seq![s@[i as int]]);
                assert(piece@ =~= json_escape_char(c));
            }
        }
        proof {
            assert(s@.take(i + 1).drop_last() =~= s@.take(i as int));
            assert(s@.take(i + 1).last() == s@[i as int]);
            assert(out@ =~= json_escaped(s@.take(i + 1)));
        }
        i = i + 1;
    }
    proof {
        assert(s@.take(len as int) =~= s@);
    }
    out
}

/// The JSON document handed to a script plugin on its standard input:
/// `{"action":…,"url":…,"file_path":…,"download_id":…,"options":…}`,
/// with `options` carried verbatim as a JSON value and defaulting to an
/// empty object.
pub open spec fn stdin_document(
    action: Seq<char>,
    url: Seq<char>,
    file_path: Seq<char>,
    download_id: Seq<char>,
    options: Option<Seq<char>>,
) -> Seq<char> {
    "{\"action\":\""@ + json_escaped(action) + "\",\"url\":\""@ + json_escaped(url)
        + "\",\"file_path\":\""@ + json_escaped(file_path) + "\",\"download_id\":\""@
        + json_escaped(download_id) + "\",\"options\":"@ + (match options {
        Some(o) => o,
        None => "{}"@,
    }) + "}"@
}

/// The view of an optional string argument.
pub open spec fn opt_view(o: Option<&str>) -> Option<Seq<char>> {
    match o {
        Some(s) => Some(s@),
        None => None,
    }
}

/// The view of an optional owned string.
pub open spec fn opt_string_view(o: Option<String>) -> Option<Seq<char>> {
    match o {
        Some(s) => Some(s@),
        None => None,
    }
}

/// Build the standard-input document for a script plugin.
pub fn build_stdin_document(
    action: &str,
    url: &str,
    file_path: &str,
    download_id: &str,
    options_json: Option<&str>,
) -> (r: String)
    ensures
        r@ == stdin_document(action@, url@, file_path@, download_id@, opt_view(options_json)),
{
    let mut out = String::from_str("{\"action\":\"");
    out.append(escape_json(action).as_str());
    out.append("\",\"url\":\"");
    out.append(escape_json(url).as_str());
    out.append("\",\"file_path\":\"");
    out.append(escape_json(file_path).as_str());
    out.append("\",\"download_id\":\"");
    out.append(escape_json(download_id).as_str());
    out.append("\",\"options\":");
    match options_json {
        Some(o) => out.append(o),
        None => out.append("{}"),
    }
    out.append("}");
    out
}

/// Whether a string parses as JSON; a function of the string alone.
pub uninterp spec fn json_parses(s: Seq<char>) -> bool;

/// The string value at `key` of the top-level JSON object of `s`, or
/// `None` when `s` does not parse, is not an object, lacks the key, or
/// holds a non-string there; a function of document and key alone.
pub uninterp spec fn json_string_field(s: Seq<char>, key: Seq<char>) -> Option<Seq<char>>;

/// Relies on serde_json::from_str::<Value>: whether a document is valid
/// JSON depends on its text alone.
#[verifier::external_body]
pub fn json_is_valid(s: &str) -> (r: bool)
    ensures
        r == json_parses(s@),
{
    serde_json::from_str::<serde_json::Value>(s).is_ok()
}

/// Relies on serde_json::from_str::<Value>, Value::get and Value::as_str:
/// the string value at `key` of the top-level object, which is a function
/// of document and key alone; a field is only found in a document that
/// parses.
#[verifier::external_body]
pub fn json_field_string(s: &str, key: &str) -> (r: Option<String>)
    ensures
        opt_string_view(r) == json_string_field(s@, key@),
        r is Some ==> json_parses(s@),
{
    match serde_json::from_str::<serde_json::Value>(s) {
        Ok(v) => v.get(key).and_then(|f| f.as_str()).map(|x| x.to_string()),
        Err(_) => None,
    }
}

} // verus!
