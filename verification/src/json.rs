//! JSON text: string literals as serde_json writes them, and the parsing and
//! re-rendering of JSON documents, which serde_json does.
use vstd::prelude::*;

verus! {

/// The lowercase hexadecimal digit for `d < 16`.
pub open spec fn hex_digit(d: nat) -> char {
    if d < 10 {
        ((48 + d) as u32) as char
    } else {
        ((87 + d) as u32) as char
    }
}

/// How one character appears inside a JSON string literal written by serde_json:
/// quote and backslash are escaped, the control characters U+0000..U+001F use the
/// short escapes `\b \t \n \f \r` where JSON has them and `\u00xx` otherwise, and
/// every other character stands as it is.
pub open spec fn json_escape_char(c: char) -> Seq<char> {
    let u = c as u32;
    if c == '"' {
        seq!['\\', '"']
    } else if c == '\\' {
        seq!['\\', '\\']
    } else if u == 0x08 {
        seq!['\\', 'b']
    } else if u == 0x09 {
        seq!['\\', 't']
    } else if u == 0x0A {
        seq!['\\', 'n']
    } else if u == 0x0C {
        seq!['\\', 'f']
    } else if u == 0x0D {
        seq!['\\', 'r']
    } else if u < 0x20 {
        seq!['\\', 'u', '0', '0', hex_digit((u / 16) as nat), hex_digit((u % 16) as nat)]
    } else {
        seq![c]
    }
}

/// The escaped contents of a JSON string literal for `s`.
pub open spec fn json_escape(s: Seq<char>) -> Seq<char>
    decreases s.len(),
{
    if s.len() == 0 {
        Seq::empty()
    } else {
        json_escape(s.drop_last()) + json_escape_char(s.last())
    }
}

/// The JSON string literal for `s`, quotes included.
pub open spec fn json_string(s: Seq<char>) -> Seq<char> {
    seq!['"'] + json_escape(s) + seq!['"']
}

fn hex_char(d: u32) -> (c: char)
    requires
        d < 16,
    ensures
        c == hex_digit(d as nat),
{
    if d < 10 {
        ((48 + d) as u8) as char
    } else {
        ((87 + d) as u8) as char
    }
}

/// Appends the escaped form of `c` to `out`.
fn push_escaped(out: &mut Vec<char>, c: char)
    ensures
        final(out)@ == old(out)@ + json_escape_char(c),
{
    let u = c as u32;
    let ghost e = json_escape_char(c);
    if c == '"' {
        out.push('\\');
        out.push('"');
    } else if c == '\\' {
        out.push('\\');
        out.push('\\');
    } else if u == 0x08 {
        out.push('\\');
        out.push('b');
    } else if u == 0x09 {
        out.push('\\');
        out.push('t');
    } else if u == 0x0A {
        out.push('\\');
        out.push('n');
    } else if u == 0x0C {
        out.push('\\');
        out.push('f');
    } else if u == 0x0D {
        out.push('\\');
        out.push('r');
    } else if u < 0x20 {
        out.push('\\');
        out.push('u');
        out.push('0');
        out.push('0');
        out.push(hex_char(u / 16));
        out.push(hex_char(u % 16));
    } else {
        out.push(c);
    }
    assert(final(out)@ =~= old(out)@ + e);
}

/// Appends the JSON string literal for `s` to `out`.
pub fn push_json_string(out: &mut Vec<char>, s: &str)
    ensures
        final(out)@ == old(out)@ + json_string(s@),
{
    out.push('"');
    let ghost start = out@;
    for c in it: s.chars()
        invariant
            it.seq() == s@,
            out@ == start + json_escape(s@.take(it.index() as int)),
    {
        let ghost i = it.index();
        push_escaped(out, c);
        proof {
            assert(s@.take(i + 1).drop_last() =~= s@.take(i));
            assert(s@.take(i + 1).last() == c);
        }
    }
    assert(s@.take(s@.len() as int) =~= s@);
    out.push('"');
    assert(final(out)@ =~= old(out)@ + json_string(s@));
}

/// The JSON string literal for `s` (what `serde_json::to_string` gives for a `&str`).
pub fn json_string_of(s: &str) -> (r: String)
    ensures
        r@ == json_string(s@),
{
    let mut out: Vec<char> = Vec::new();
    push_json_string(&mut out, s);
    crate::text::string_of(&out)
}

/// What serde_json makes of the text `s` when it parses it as a JSON value and
/// renders that value again with `to_string_pretty`: `None` when `s` is not JSON;
/// otherwise whether the value is an object or an array, and the pretty text.
pub uninterp spec fn pretty_json(s: Seq<char>) -> Option<(bool, Seq<char>)>;

/// Like `pretty_json`, with the value rendered by the compact `to_string`.
pub uninterp spec fn compact_json(s: Seq<char>) -> Option<(bool, Seq<char>)>;

/// Parses `s` with `serde_json::from_str::<serde_json::Value>`; when that succeeds,
/// tells whether the value is an object or an array and renders it with
/// `serde_json::to_string_pretty` (which cannot fail on a `Value`; the text `s`
/// stands in for it if it did). The contract only names the result: it is a
/// function of `s` alone, and serde_json's grammar and layout are not restated here.
#[verifier::external_body]
pub(crate) fn json_pretty(s: &str) -> (r: Option<(bool, String)>)
    ensures
        match r {
            Some((container, text)) => pretty_json(s@) == Some((container, text@)),
            None => pretty_json(s@) is None,
        },
{
    match serde_json::from_str::<serde_json::Value>(s) {
        Ok(v) => {
            let container = matches!(v, serde_json::Value::Object(_) | serde_json::Value::Array(_));
            let text = match serde_json::to_string_pretty(&v) {
                Ok(t) => t,
                Err(_) => s.to_string(),
            };
            Some((container, text))
        },
        Err(_) => None,
    }
}

/// Parses `s` with `serde_json::from_str::<serde_json::Value>`; when that succeeds,
/// tells whether the value is an object or an array and renders it with
/// `serde_json::to_string` (which cannot fail on a `Value`; the text `s` stands in
/// for it if it did). The contract only names the result, a function of `s` alone.
#[verifier::external_body]
pub(crate) fn json_compact(s: &str) -> (r: Option<(bool, String)>)
    ensures
        match r {
            Some((container, text)) => compact_json(s@) == Some((container, text@)),
            None => compact_json(s@) is None,
        },
{
    match serde_json::from_str::<serde_json::Value>(s) {
        Ok(v) => {
            let container = matches!(v, serde_json::Value::Object(_) | serde_json::Value::Array(_));
            let text = match serde_json::to_string(&v) {
                Ok(t) => t,
                Err(_) => s.to_string(),
            };
            Some((container, text))
        },
        Err(_) => None,
    }
}

} // verus!
