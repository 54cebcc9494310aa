//! The decisions the web pages make about what they show: badge colours, values
//! pretty-printed when they are JSON, and text quoted for inline scripts.
use vstd::prelude::*;

use crate::json::{json_pretty, pretty_json};
use crate::text::{push_str, replace, replace_seq, str_eq};

verus! {

/// The badge classes for an HTTP method.
pub open spec fn method_class(method: Seq<char>) -> Seq<char> {
    if method == "GET"@ {
        "bg-blue near-black"@
    } else if method == "POST"@ {
        "bg-catch-green near-black"@
    } else if method == "PUT"@ {
        "bg-gold near-black"@
    } else if method == "DELETE"@ {
        "bg-red white"@
    } else {
        "bg-moon-gray near-black"@
    }
}

/// The badge classes for an HTTP status: success, redirection, client error, other.
pub open spec fn status_class(status: u16) -> Seq<char> {
    if 200 <= status < 300 {
        "bg-catch-green near-black"@
    } else if 300 <= status < 400 {
        "bg-blue near-black"@
    } else if 400 <= status < 500 {
        "bg-gold near-black"@
    } else {
        "bg-red white"@
    }
}

/// Every success status (200 to 299, 200 included) gets the green badge, every
/// redirection the blue one and every client error the gold one; the red badge
/// is for the statuses outside 200 to 499 and for no other.
pub proof fn law_status_badges(status: u16)
    ensures
        200 <= status < 300 ==> status_class(status) == "bg-catch-green near-black"@,
        300 <= status < 400 ==> status_class(status) == "bg-blue near-black"@,
        400 <= status < 500 ==> status_class(status) == "bg-gold near-black"@,
        (status < 200 || 500 <= status) <==> status_class(status) == "bg-red white"@,
{
    reveal_strlit("bg-red white");
    reveal_strlit("bg-catch-green near-black");
    reveal_strlit("bg-blue near-black");
    reveal_strlit("bg-gold near-black");
    assert("bg-red white"@[3] != "bg-catch-green near-black"@[3]);
    assert("bg-red white"@[3] != "bg-blue near-black"@[3]);
    assert("bg-red white"@[3] != "bg-gold near-black"@[3]);
}

/// The badge classes for an HTTP method.
pub fn method_badge_class(method: &str) -> (r: &'static str)
    ensures
        r@ == method_class(method@),
{
    if str_eq(method, "GET") {
        "bg-blue near-black"
    } else if str_eq(method, "POST") {
        "bg-catch-green near-black"
    } else if str_eq(method, "PUT") {
        "bg-gold near-black"
    } else if str_eq(method, "DELETE") {
        "bg-red white"
    } else {
        "bg-moon-gray near-black"
    }
}

/// The badge classes for an HTTP status.
pub fn status_badge_class(status: u16) -> (r: &'static str)
    ensures
        r@ == status_class(status),
{
    if 200 <= status && status < 300 {
        "bg-catch-green near-black"
    } else if 300 <= status && status < 400 {
        "bg-blue near-black"
    } else if 400 <= status && status < 500 {
        "bg-gold near-black"
    } else {
        "bg-red white"
    }
}

/// The bundled assets, by name, with the content type each is served with.
pub open spec fn asset_type(name: Seq<char>) -> Option<Seq<char>> {
    if name == "t.css"@ || name == "prism-tomorrow.min.css"@ {
        Some("text/css; charset=utf-8"@)
    } else if name == "h.js"@ || name == "prism.min.js"@ || name == "prism-javascript.min.js"@ || name
        == "copy-button.js"@ {
        Some("application/javascript; charset=utf-8"@)
    } else if name == "favicon.ico"@ {
        Some("image/x-icon"@)
    } else {
        None
    }
}

/// The content type a bundled asset is served with; none for an unknown name.
pub fn asset_content_type(name: &str) -> (r: Option<&'static str>)
    ensures
        match r {
            Some(t) => asset_type(name@) == Some(t@),
            None => asset_type(name@) is None,
        },
{
    if str_eq(name, "t.css") || str_eq(name, "prism-tomorrow.min.css") {
        Some("text/css; charset=utf-8")
    } else if str_eq(name, "h.js") || str_eq(name, "prism.min.js") || str_eq(
        name,
        "prism-javascript.min.js",
    ) || str_eq(name, "copy-button.js") {
        Some("application/javascript; charset=utf-8")
    } else if str_eq(name, "favicon.ico") {
        Some("image/x-icon")
    } else {
        None
    }
}

/// A stored value for display: JSON pretty-printed, anything else as it is.
pub open spec fn displayed_value(value: Seq<char>) -> Seq<char> {
    match pretty_json(value) {
        Some((_, text)) => text,
        None => value,
    }
}

/// A stored value for display: pretty-printed when it is JSON, else as it is.
pub fn pretty_print_value(value: &str) -> (r: String)
    ensures
        r@ == displayed_value(value@),
{
    match json_pretty(value) {
        Some((_, text)) => text,
        None => String::from_str(value),
    }
}

/// Text as a single-quoted JavaScript string literal for an inline handler:
/// single quotes and line feeds escaped with a backslash.
pub open spec fn js_quoted(s: Seq<char>) -> Seq<char> {
    "'"@ + replace_seq(replace_seq(s, "'"@, "\\'"@), "\n"@, "\\n"@) + "'"@
}

/// Text as a single-quoted JavaScript string literal (`'…'`).
pub fn js_single_quoted(s: &str) -> (r: String)
    ensures
        r@ == js_quoted(s@),
{
    proof {
        reveal_strlit("'");
        reveal_strlit("\n");
    }
    let a = replace(s, "'", "\\'");
    let b = replace(a.as_str(), "\n", "\\n");
    let mut out = String::from_str("'");
    push_str(&mut out, b.as_str());
    push_str(&mut out, "'");
    out
}

} // verus!
