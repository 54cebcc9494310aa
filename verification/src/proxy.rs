//! Proxied HTTP calls: how the target URL is built, which headers pass, and how a
//! recorded call is written out as JSON and as a Hurl file.
use vstd::prelude::*;

use crate::config::Server;
use crate::json::{json_pretty, json_string, pretty_json, push_json_string};
use crate::keyed::KeyedVec;
use crate::order::{stable_sort_by_keys, stably_sorted};
use crate::stamp::{
    clock_reading, random_bytes, rfc3339_utc, timestamp_of, timestamp_text, uuid_of, uuid_text,
    uuid_v4_text,
};
use crate::text::{
    chars_of, contains_char, contains_char_in, contains_seq, find_from, first_index, lemma_first_index,
    occurs_at, decimal, decimal_string, lowercase_text, push_chars, push_decimal, push_str, replace, replace_seq,
    starts_with, starts_with_seq, str_eq, string_of, to_lowercase, trim, trim_seq,
};

verus! {

/// Header names and values, in the order they were recorded.
pub type Headers = KeyedVec<String>;

/// The texts of recorded header entries.
pub open spec fn pairs_view(s: Seq<(String, String)>) -> Seq<(Seq<char>, Seq<char>)> {
    s.map_values(|p: (String, String)| (p.0@, p.1@))
}

/// The mathematical content of a recorded call.
pub struct ProxyCallModel {
    pub id: Seq<char>,
    pub timestamp: Seq<char>,
    pub method: Seq<char>,
    pub path: Seq<char>,
    pub query: Seq<char>,
    pub target_url: Seq<char>,
    pub request_headers: Seq<(Seq<char>, Seq<char>)>,
    pub request_body: Seq<char>,
    pub response_status: u16,
    pub response_headers: Seq<(Seq<char>, Seq<char>)>,
    pub response_body: Seq<char>,
}

/// One HTTP call that went through the proxy, with what came back.
#[derive(Debug)]
pub struct ProxyCall {
    id: String,
    timestamp: String,
    method: String,
    path: String,
    query: String,
    target_url: String,
    request_headers: Headers,
    request_body: String,
    response_status: u16,
    response_headers: Headers,
    response_body: String,
}

impl View for ProxyCall {
    type V = ProxyCallModel;

    closed spec fn view(&self) -> ProxyCallModel {
        ProxyCallModel {
            id: self.id@,
            timestamp: self.timestamp@,
            method: self.method@,
            path: self.path@,
            query: self.query@,
            target_url: self.target_url@,
            request_headers: pairs_view(self.request_headers.entries()),
            request_body: self.request_body@,
            response_status: self.response_status,
            response_headers: pairs_view(self.response_headers.entries()),
            response_body: self.response_body@,
        }
    }
}

/// Headers that a Hurl file leaves out: connection-specific or generated ones.
pub open spec fn skips_in_hurl(name: Seq<char>) -> bool {
    name == "host"@ || name == "connection"@ || name == "content-length"@ || starts_with_seq(
        name,
        "x-forwarded"@,
    )
}

/// Request headers that are passed on to the target.
pub open spec fn forwards_request_header(name: Seq<char>) -> bool {
    name != "host"@ && name != "connection"@ && name != "x-proxy-target"@ && !starts_with_seq(
        name,
        "x-forwarded"@,
    )
}

/// Response headers that are passed back to the client.
pub open spec fn forwards_response_header(name: Seq<char>) -> bool {
    name != "connection"@ && name != "transfer-encoding"@
}

/// Whether a (lowercased) header name stays out of a Hurl file.
pub fn should_skip_hurl_header(name: &str) -> (r: bool)
    ensures
        r == skips_in_hurl(name@),
{
    str_eq(name, "host") || str_eq(name, "connection") || str_eq(name, "content-length")
        || starts_with(name, "x-forwarded")
}

/// Whether a request header is forwarded to the proxy target.
pub fn should_forward_header(name: &str) -> (r: bool)
    ensures
        r == forwards_request_header(name@),
{
    !str_eq(name, "host") && !str_eq(name, "connection") && !str_eq(name, "x-proxy-target")
        && !starts_with(name, "x-forwarded")
}

/// Whether a response header is passed back to the client.
pub fn should_forward_response_header(name: &str) -> (r: bool)
    ensures
        r == forwards_response_header(name@),
{
    !str_eq(name, "connection") && !str_eq(name, "transfer-encoding")
}

/// `name` names a header that a Hurl file leaves out: `host`, `connection`,
/// `content-length`, or any name that begins with `x-forwarded`.
pub open spec fn hop_or_generated(name: Seq<char>) -> bool {
    name == seq!['h', 'o', 's', 't'] || name == seq!['c', 'o', 'n', 'n', 'e', 'c', 't', 'i', 'o', 'n']
        || name == seq!['c', 'o', 'n', 't', 'e', 'n', 't', '-', 'l', 'e', 'n', 'g', 't', 'h'] || (
    name.len() >= 11 && name.take(11) == seq!['x', '-', 'f', 'o', 'r', 'w', 'a', 'r', 'd', 'e', 'd'])
}

/// The Hurl file of a call carries no request header whose lowercased name is
/// `host`, `connection` or `content-length` or begins with `x-forwarded`: adding
/// such a header to a call leaves its Hurl file as it was. Adding any other
/// header adds its line `name: value` after the lines of the headers before it.
pub proof fn law_hurl_request_headers(c: ProxyCallModel, name: Seq<char>, value: Seq<char>)
    ensures
        hop_or_generated(lowercase_text(name)) ==> hurl_text(
            (ProxyCallModel { request_headers: c.request_headers.push((name, value)), ..c }),
        ) == hurl_text(c),
        hop_or_generated(lowercase_text(name)) ==> hurl_header_lines(
            c.request_headers.push((name, value)),
        ) == hurl_header_lines(c.request_headers),
        !hop_or_generated(lowercase_text(name)) ==> hurl_header_lines(
            c.request_headers.push((name, value)),
        ) == hurl_header_lines(c.request_headers) + name + ": "@ + value + "\n"@,
{
    let h = c.request_headers;
    let hp = h.push((name, value));
    assert(hp.drop_last() =~= h);
    law_hurl_filter(lowercase_text(name));
}

/// The Hurl filter answers yes for exactly the names that `hop_or_generated`
/// lists, `connection` among them.
pub proof fn law_hurl_filter(name: Seq<char>)
    ensures
        skips_in_hurl(name) <==> hop_or_generated(name),
{
    reveal_strlit("host");
    reveal_strlit("connection");
    reveal_strlit("content-length");
    reveal_strlit("x-forwarded");
    if name.len() >= 11 {
        assert(name.subrange(0, 11) =~= name.take(11));
    }
    assert("host"@ =~= seq!['h', 'o', 's', 't']);
    assert("connection"@ =~= seq!['c', 'o', 'n', 'n', 'e', 'c', 't', 'i', 'o', 'n']);
    assert("content-length"@ =~= seq!['c', 'o', 'n', 't', 'e', 'n', 't', '-', 'l', 'e', 'n', 'g', 't', 'h']);
    assert("x-forwarded"@ =~= seq!['x', '-', 'f', 'o', 'r', 'w', 'a', 'r', 'd', 'e', 'd']);
}

/// The proxy never passes on the headers of the hop to this service: `host`,
/// `connection`, its own `x-proxy-target`, and every header whose name begins
/// with `x-forwarded`; every other request header is forwarded.
pub proof fn law_forwarded_request_headers(name: Seq<char>)
    ensures
        !forwards_request_header(name) <==> (name == seq!['h', 'o', 's', 't'] || name == seq![
            'c',
            'o',
            'n',
            'n',
            'e',
            'c',
            't',
            'i',
            'o',
            'n',
        ] || name == seq!['x', '-', 'p', 'r', 'o', 'x', 'y', '-', 't', 'a', 'r', 'g', 'e', 't'] || (
        name.len() >= 11 && name.take(11) == seq!['x', '-', 'f', 'o', 'r', 'w', 'a', 'r', 'd', 'e', 'd'])),
{
    reveal_strlit("host");
    reveal_strlit("connection");
    reveal_strlit("x-proxy-target");
    reveal_strlit("x-forwarded");
    if name.len() >= 11 {
        assert(name.subrange(0, 11) =~= name.take(11));
    }
    assert("host"@ =~= seq!['h', 'o', 's', 't']);
    assert("connection"@ =~= seq!['c', 'o', 'n', 'n', 'e', 'c', 't', 'i', 'o', 'n']);
    assert("x-proxy-target"@ =~= seq!['x', '-', 'p', 'r', 'o', 'x', 'y', '-', 't', 'a', 'r', 'g', 'e', 't']);
    assert("x-forwarded"@ =~= seq!['x', '-', 'f', 'o', 'r', 'w', 'a', 'r', 'd', 'e', 'd']);
}

/// One JSON object member `"key":"value"`.
pub open spec fn json_member(p: (Seq<char>, Seq<char>)) -> Seq<char> {
    json_string(p.0) + ":"@ + json_string(p.1)
}

/// The members of a JSON object of strings, comma-separated, in order.
pub open spec fn json_members(h: Seq<(Seq<char>, Seq<char>)>) -> Seq<char>
    decreases h.len(),
{
    if h.len() == 0 {
        Seq::empty()
    } else if h.len() == 1 {
        json_member(h[0])
    } else {
        json_members(h.drop_last()) + ","@ + json_member(h.last())
    }
}

/// A JSON object of strings.
pub open spec fn json_object(h: Seq<(Seq<char>, Seq<char>)>) -> Seq<char> {
    "{"@ + json_members(h) + "}"@
}

/// The JSON record of a call, field by field in declaration order, compact.
pub open spec fn proxy_call_json(c: ProxyCallModel) -> Seq<char> {
    "{\"id\":"@ + json_string(c.id) + ",\"timestamp\":"@ + json_string(c.timestamp)
        + ",\"method\":"@ + json_string(c.method) + ",\"path\":"@ + json_string(c.path)
        + ",\"query\":"@ + json_string(c.query) + ",\"target_url\":"@ + json_string(c.target_url)
        + ",\"request_headers\":"@ + json_object(c.request_headers) + ",\"request_body\":"@
        + json_string(c.request_body) + ",\"response_status\":"@ + decimal(
        c.response_status as nat,
    ) + ",\"response_headers\":"@ + json_object(c.response_headers) + ",\"response_body\":"@
        + json_string(c.response_body) + "}"@
}

/// The request-header lines of a Hurl file: `name: value` for each header whose
/// lowercased name is not left out.
pub open spec fn hurl_header_lines(h: Seq<(Seq<char>, Seq<char>)>) -> Seq<char>
    decreases h.len(),
{
    if h.len() == 0 {
        Seq::empty()
    } else {
        hurl_header_lines(h.drop_last()) + if skips_in_hurl(lowercase_text(h.last().0)) {
            Seq::empty()
        } else {
            h.last().0 + ": "@ + h.last().1 + "\n"@
        }
    }
}

/// The request body of a Hurl file: a JSON object or array pretty-printed, anything
/// else trimmed between backticks, nothing for an empty body.
pub open spec fn hurl_body(b: Seq<char>) -> Seq<char> {
    if b.len() == 0 {
        Seq::empty()
    } else {
        match pretty_json(b) {
            Some((true, text)) => text + "\n"@,
            _ => "`"@ + trim_seq(b) + "`\n"@,
        }
    }
}

/// The commented assertion lines for `content-type` response headers.
pub open spec fn hurl_assert_lines(h: Seq<(Seq<char>, Seq<char>)>) -> Seq<char>
    decreases h.len(),
{
    if h.len() == 0 {
        Seq::empty()
    } else {
        hurl_assert_lines(h.drop_last()) + if lowercase_text(h.last().0) == "content-type"@ {
            "# header \""@ + h.last().0 + "\" == \""@ + h.last().1 + "\"\n"@
        } else {
            Seq::empty()
        }
    }
}

/// The commented assertions section, present when the response had headers.
pub open spec fn hurl_asserts(h: Seq<(Seq<char>, Seq<char>)>) -> Seq<char> {
    if h.len() == 0 {
        Seq::empty()
    } else {
        "\n# [Asserts]\n"@ + hurl_assert_lines(h)
    }
}

/// The commented response body, present when it is a JSON object or array.
pub open spec fn hurl_response_body(b: Seq<char>) -> Seq<char> {
    if b.len() == 0 {
        Seq::empty()
    } else {
        match pretty_json(b) {
            Some((true, text)) => "# body == ```\n"@ + "# "@ + replace_seq(text, "\n"@, "\n# "@)
                + "\n"@ + "# ```\n"@,
            _ => Seq::empty(),
        }
    }
}

/// The Hurl file that replays a recorded call.
pub open spec fn hurl_text(c: ProxyCallModel) -> Seq<char> {
    "# Proxy call recorded at "@ + c.timestamp + "\n"@ + "# ID: "@ + c.id + "\n\n"@ + c.method
        + " "@ + c.target_url + "\n"@ + hurl_header_lines(c.request_headers) + hurl_body(
        c.request_body,
    ) + "HTTP "@ + decimal(c.response_status as nat) + "\n"@ + hurl_asserts(c.response_headers)
        + hurl_response_body(c.response_body)
}

/// The pattern that separates a URL's scheme from the rest.
pub open spec fn scheme_sep() -> Seq<char> {
    seq![':', '/', '/']
}

/// The second piece of `t` split at `://` (`t.split("://").nth(1)`): the text after
/// the first `://` up to the next one, if `t` has a `://` at all.
pub open spec fn after_scheme(t: Seq<char>) -> Option<Seq<char>> {
    if contains_seq(t, scheme_sep()) {
        let rest = t.skip(first_index(t, scheme_sep()) + 3);
        if contains_seq(rest, scheme_sep()) {
            Some(rest.take(first_index(rest, scheme_sep())))
        } else {
            Some(rest)
        }
    } else {
        None
    }
}

/// A proxy target with a path of its own is used as it is; a bare base URL
/// gets the request path appended.
pub open spec fn target_has_path(t: Seq<char>) -> bool {
    match after_scheme(t) {
        Some(seg) => contains_char(seg, '/'),
        None => false,
    }
}

/// The query part of a forwarded URL: `?` and the query, or nothing.
pub open spec fn query_suffix(q: Option<Seq<char>>) -> Seq<char> {
    match q {
        Some(q) => "?"@ + q,
        None => Seq::empty(),
    }
}

/// The URL a request is forwarded to, from the target, the request path and the
/// query suffix.
pub open spec fn forward_url(target: Seq<char>, path: Seq<char>, query: Seq<char>) -> Seq<char> {
    if target_has_path(target) {
        target + query
    } else {
        target + path + query
    }
}

/// The query suffix of a forwarded URL: `?` and the query when the request has one.
pub fn query_suffix_of(query: Option<&str>) -> (r: String)
    ensures
        r@ == query_suffix(match query {
            Some(q) => Some(q@),
            None => None,
        }),
{
    match query {
        Some(q) => {
            let mut out = String::from_str("?");
            push_str(&mut out, q);
            proof {
                reveal_strlit("?");
            }
            out
        },
        None => {
            let out = String::new();
            out
        },
    }
}

/// Whether the proxy target carries a path of its own.
pub fn has_own_path(target: &str) -> (r: bool)
    ensures
        r == target_has_path(target@),
{
    let t = chars_of(target);
    let sep = chars_of("://");
    proof {
        reveal_strlit("://");
        assert(sep@ =~= scheme_sep());
    }
    match find_from(&t, 0, &sep) {
        None => {
            assert(!contains_seq(t@, scheme_sep()));
            false
        },
        Some(i) => {
            proof {
                lemma_first_index(t@, scheme_sep(), i as int);
            }
            let start = i + 3;
            let ghost rest = t@.skip(start as int);
            match find_from(&t, start, &sep) {
                None => {
                    proof {
                        assert forall|j: int| !occurs_at(rest, scheme_sep(), j) by {
                            if occurs_at(rest, scheme_sep(), j) {
                                assert(rest.skip(j) =~= t@.skip(start + j));
                                assert(occurs_at(t@, scheme_sep(), start + j));
                            }
                        }
                        assert(rest =~= t@.subrange(start as int, t@.len() as int));
                    }
                    contains_char_in(&t, start, t.len(), '/')
                },
                Some(k) => {
                    proof {
                        assert(t@.skip(k as int) =~= rest.skip(k - start));
                        assert(occurs_at(rest, scheme_sep(), k - start));
                        assert forall|j: int| 0 <= j < k - start implies !occurs_at(rest, scheme_sep(), j) by {
                            assert(rest.skip(j) =~= t@.skip(start + j));
                            assert(!occurs_at(t@, scheme_sep(), start + j));
                        }
                        lemma_first_index(rest, scheme_sep(), k - start);
                        assert(rest.take(k - start) =~= t@.subrange(start as int, k as int));
                    }
                    contains_char_in(&t, start, k, '/')
                },
            }
        },
    }
}

/// The URL a request is forwarded to: a target with a path of its own gets only
/// the query suffix; a base URL gets the request path and the query suffix.
pub fn build_target_url(target: &str, path: &str, query: &str) -> (r: String)
    ensures
        r@ == forward_url(target@, path@, query@),
{
    let mut out = String::from_str(target);
    if has_own_path(target) {
        push_str(&mut out, query);
    } else {
        push_str(&mut out, path);
        push_str(&mut out, query);
    }
    out
}

/// The proxy target for a request: its `X-Proxy-Target` header when present,
/// else the configured target.
pub fn select_target(header: Option<&str>, config: &Server) -> (r: Option<String>)
    ensures
        match header {
            Some(h) => r is Some && r->0@ == h@,
            None => match config@.proxy_target {
                Some(t) => r is Some && r->0@ == t,
                None => r is None,
            },
        },
{
    match header {
        Some(h) => Some(String::from_str(h)),
        None => match config.proxy_target() {
            Some(t) => Some(String::from_str(t)),
            None => None,
        },
    }
}

/// Where a request is proxied to: the target (header first, else configuration)
/// with the request path and query, or nothing when no target is known.
pub fn plan_proxy_url(header: Option<&str>, config: &Server, path: &str, query: Option<&str>) -> (r:
    Option<String>)
    ensures
        match header {
            Some(h) => r is Some && r->0@ == forward_url(
                h@,
                path@,
                query_suffix(
                    match query {
                        Some(q) => Some(q@),
                        None => None,
                    },
                ),
            ),
            None => match config@.proxy_target {
                Some(t) => r is Some && r->0@ == forward_url(
                    t,
                    path@,
                    query_suffix(
                        match query {
                            Some(q) => Some(q@),
                            None => None,
                        },
                    ),
                ),
                None => r is None,
            },
        },
{
    match select_target(header, config) {
        None => None,
        Some(target) => {
            let q = query_suffix_of(query);
            Some(build_target_url(target.as_str(), path, q.as_str()))
        },
    }
}

/// The status answered to the client: the target's, when it is a valid HTTP status
/// code (100 to 999), else 500.
pub open spec fn client_status(status: u16) -> u16 {
    if 100 <= status <= 999 {
        status
    } else {
        500
    }
}

/// The client is always answered with a valid HTTP status code.
pub proof fn law_client_status_is_valid(status: u16)
    ensures
        100 <= client_status(status) <= 999,
        100 <= status <= 999 ==> client_status(status) == status,
{
}

/// The status answered to the client for the target's status.
pub fn forwarded_status(status: u16) -> (r: u16)
    ensures
        r == client_status(status),
{
    if 100 <= status && status <= 999 {
        status
    } else {
        500
    }
}

/// The timestamps of recorded calls.
pub open spec fn timestamps_of(calls: Seq<ProxyCall>) -> Seq<Seq<char>> {
    calls.map_values(|c: ProxyCall| c@.timestamp)
}

/// Recorded calls, newest first: sorted by timestamp, descending; calls with equal
/// timestamps keep their order.
pub fn newest_first(calls: Vec<ProxyCall>) -> (r: Vec<ProxyCall>)
    ensures
        exists|p: Seq<int>|
            #[trigger] stably_sorted(
                calls@,
                timestamps_of(calls@),
                r@,
                true,
                p,
            ),
{
    let mut keys: Vec<Vec<char>> = Vec::new();
    let mut i: usize = 0;
    while i < calls.len()
        invariant
            i <= calls.len(),
            keys.len() == i,
            forall|k: int| 0 <= k < i ==> (#[trigger] keys@[k])@ == calls@[k]@.timestamp,
        decreases calls.len() - i,
    {
        keys.push(chars_of(calls[i].timestamp()));
        i = i + 1;
    }
    let ghost src = calls@;
    assert(keys@.map_values(|k: Vec<char>| k@) =~= timestamps_of(src));
    let (sorted, Ghost(p)) = stable_sort_by_keys(calls, keys, true);
    assert(stably_sorted(src, timestamps_of(src), sorted@, true, p));
    sorted
}

/// Appends the JSON object of the headers `h` to `out`.
fn push_json_object(out: &mut Vec<char>, h: &Headers)
    requires
        h.wf(),
    ensures
        final(out)@ == old(out)@ + json_object(pairs_view(h.entries())),
{
    let ghost hs = pairs_view(h.entries());
    push_chars(out, "{");
    let ghost start = out@;
    let n = h.len();
    let mut i: usize = 0;
    while i < n
        invariant
            h.wf(),
            n == h.entries().len(),
            hs == pairs_view(h.entries()),
            i <= n,
            out@ == start + json_members(hs.take(i as int)),
        decreases n - i,
    {
        let ghost before = out@;
        if i > 0 {
            push_chars(out, ",");
        }
        push_json_string(out, h.key_at(i).as_str());
        push_chars(out, ":");
        push_json_string(out, h.value_at(i).as_str());
        proof {
            let t = hs.take(i + 1);
            assert(t.drop_last() =~= hs.take(i as int));
            assert(t.last() == hs[i as int]);
            if i == 0 {
                assert(hs.take(0) =~= Seq::<(Seq<char>, Seq<char>)>::empty());
                assert(out@ =~= start + json_members(t));
            } else {
                assert(out@ =~= start + json_members(t));
            }
        }
        i = i + 1;
    }
    assert(hs.take(n as int) =~= hs);
    push_chars(out, "}");
    assert(final(out)@ =~= old(out)@ + json_object(hs));
}

impl ProxyCall {
    /// Headers are well formed (each name once).
    pub closed spec fn wf(&self) -> bool {
        self.request_headers.wf() && self.response_headers.wf()
    }

    /// A call with every field given.
    pub fn from_parts(
        id: String,
        timestamp: String,
        method: String,
        path: String,
        query: String,
        target_url: String,
        request_headers: Headers,
        request_body: String,
        response_status: u16,
        response_headers: Headers,
        response_body: String,
    ) -> (r: Self)
        requires
            request_headers.wf(),
            response_headers.wf(),
        ensures
            r.wf(),
            r@ == (ProxyCallModel {
                id: id@,
                timestamp: timestamp@,
                method: method@,
                path: path@,
                query: query@,
                target_url: target_url@,
                request_headers: pairs_view(request_headers.entries()),
                request_body: request_body@,
                response_status,
                response_headers: pairs_view(response_headers.entries()),
                response_body: response_body@,
            }),
    {
        ProxyCall {
            id,
            timestamp,
            method,
            path,
            query,
            target_url,
            request_headers,
            request_body,
            response_status,
            response_headers,
            response_body,
        }
    }

    /// A call recorded at `timestamp` under the UUID `uuid`: its id is the
    /// timestamp, a hyphen and the UUID.
    pub fn recorded(
        timestamp: String,
        uuid: String,
        method: String,
        path: String,
        query: String,
        target_url: String,
        request_headers: Headers,
        request_body: String,
        response_status: u16,
        response_headers: Headers,
        response_body: String,
    ) -> (r: Self)
        requires
            request_headers.wf(),
            response_headers.wf(),
        ensures
            r.wf(),
            r@.timestamp == timestamp@,
            r@.id == timestamp@ + seq!['-'] + uuid@,
            r@.method == method@,
            r@.path == path@,
            r@.query == query@,
            r@.target_url == target_url@,
            r@.request_headers == pairs_view(request_headers.entries()),
            r@.request_body == request_body@,
            r@.response_status == response_status,
            r@.response_headers == pairs_view(response_headers.entries()),
            r@.response_body == response_body@,
    {
        let mut id_chars: Vec<char> = Vec::new();
        push_chars(&mut id_chars, timestamp.as_str());
        id_chars.push('-');
        push_chars(&mut id_chars, uuid.as_str());
        assert(id_chars@ =~= timestamp@ + seq!['-'] + uuid@);
        let id = string_of(&id_chars);
        ProxyCall::from_parts(
            id,
            timestamp,
            method,
            path,
            query,
            target_url,
            request_headers,
            request_body,
            response_status,
            response_headers,
            response_body,
        )
    }

    /// A call recorded at the clock reading `since_epoch` (whole seconds and
    /// nanoseconds after the Unix epoch) under an id drawn from the random bytes
    /// `random`. `None` when either is missing, or when the reading is past what
    /// chrono can write; otherwise the timestamp is chrono's RFC 3339 text of the
    /// reading and the id is that text, a hyphen and the bytes' version-4 UUID.
    pub fn recorded_at(
        since_epoch: Option<(u64, u32)>,
        random: Option<[u8; 16]>,
        method: String,
        path: String,
        query: String,
        target_url: String,
        request_headers: Headers,
        request_body: String,
        response_status: u16,
        response_headers: Headers,
        response_body: String,
    ) -> (r: Option<Self>)
        requires
            request_headers.wf(),
            response_headers.wf(),
        ensures
            r is Some <==> timestamp_of(since_epoch) is Some && random is Some,
            r matches Some(c) ==> {
                &&& c.wf()
                &&& timestamp_of(since_epoch) == Some(c@.timestamp)
                &&& rfc3339_utc(c@.timestamp)
                &&& c@.id == c@.timestamp + seq!['-'] + uuid_of(random->0)
                &&& uuid_v4_text(uuid_of(random->0))
                &&& c@.method == method@
                &&& c@.path == path@
                &&& c@.query == query@
                &&& c@.target_url == target_url@
                &&& c@.request_headers == pairs_view(request_headers.entries())
                &&& c@.request_body == request_body@
                &&& c@.response_status == response_status
                &&& c@.response_headers == pairs_view(response_headers.entries())
                &&& c@.response_body == response_body@
            },
            since_epoch matches Some((s, n)) && s < 253_402_300_800 && n < 1_000_000_000
                && random is Some ==> r is Some,
    {
        let timestamp = match timestamp_text(since_epoch) {
            Some(t) => t,
            None => return None,
        };
        let uuid = match uuid_text(random) {
            Some(u) => u,
            None => return None,
        };
        Some(
            ProxyCall::recorded(
                timestamp,
                uuid,
                method,
                path,
                query,
                target_url,
                request_headers,
                request_body,
                response_status,
                response_headers,
                response_body,
            ),
        )
    }

    /// A call recorded now: the timestamp is the current time in RFC 3339 form, and
    /// the id is the timestamp, a hyphen and a fresh random version-4 UUID. `None`
    /// when the clock reads before the Unix epoch or past what chrono can write, or
    /// when the operating system's random source fails.
    pub fn new(
        method: String,
        path: String,
        query: String,
        target_url: String,
        request_headers: Headers,
        request_body: String,
        response_status: u16,
        response_headers: Headers,
        response_body: String,
    ) -> (r: Option<Self>)
        requires
            request_headers.wf(),
            response_headers.wf(),
        ensures
            r matches Some(c) ==> {
                &&& c.wf()
                &&& rfc3339_utc(c@.timestamp)
                &&& c@.id.len() == c@.timestamp.len() + 37
                &&& c@.id.take(c@.timestamp.len() + 1 as int) == c@.timestamp.push('-')
                &&& uuid_v4_text(c@.id.skip(c@.timestamp.len() + 1 as int))
                &&& c@.method == method@
                &&& c@.path == path@
                &&& c@.query == query@
                &&& c@.target_url == target_url@
                &&& c@.request_headers == pairs_view(request_headers.entries())
                &&& c@.request_body == request_body@
                &&& c@.response_status == response_status
                &&& c@.response_headers == pairs_view(response_headers.entries())
                &&& c@.response_body == response_body@
            },
    {
        let reading = clock_reading();
        let random = random_bytes();
        let r = ProxyCall::recorded_at(
            reading,
            random,
            method,
            path,
            query,
            target_url,
            request_headers,
            request_body,
            response_status,
            response_headers,
            response_body,
        );
        if let Some(c) = &r {
            let ghost t = c@.timestamp;
            assert(c@.id.take(t.len() + 1 as int) =~= t.push('-'));
            assert(c@.id.skip(t.len() + 1 as int) =~= uuid_of(random->0));
        }
        r
    }

    /// The call's id; for a call made by `new`, its timestamp, a hyphen and a
    /// lowercase hyphenated version-4 UUID (see the contract of `new`).
    pub fn id(&self) -> (r: &str)
        ensures
            r@ == self@.id,
    {
        self.id.as_str()
    }

    pub fn timestamp(&self) -> (r: &str)
        ensures
            r@ == self@.timestamp,
    {
        self.timestamp.as_str()
    }

    pub fn method(&self) -> (r: &str)
        ensures
            r@ == self@.method,
    {
        self.method.as_str()
    }

    pub fn path(&self) -> (r: &str)
        ensures
            r@ == self@.path,
    {
        self.path.as_str()
    }

    pub fn query(&self) -> (r: &str)
        ensures
            r@ == self@.query,
    {
        self.query.as_str()
    }

    pub fn target_url(&self) -> (r: &str)
        ensures
            r@ == self@.target_url,
    {
        self.target_url.as_str()
    }

    pub fn request_headers(&self) -> (r: &Headers)
        ensures
            pairs_view(r.entries()) == self@.request_headers,
            self.wf() ==> r.wf(),
    {
        &self.request_headers
    }

    pub fn request_body(&self) -> (r: &str)
        ensures
            r@ == self@.request_body,
    {
        self.request_body.as_str()
    }

    pub fn response_status(&self) -> (r: u16)
        ensures
            r == self@.response_status,
    {
        self.response_status
    }

    pub fn response_headers(&self) -> (r: &Headers)
        ensures
            pairs_view(r.entries()) == self@.response_headers,
            self.wf() ==> r.wf(),
    {
        &self.response_headers
    }

    pub fn response_body(&self) -> (r: &str)
        ensures
            r@ == self@.response_body,
    {
        self.response_body.as_str()
    }

    /// The Hurl file that replays the call: a comment with the time and id, the
    /// request line, the request headers that a replay needs, the body (JSON objects
    /// and arrays pretty-printed, anything else between backticks), the expected
    /// status, and commented assertions on the content type and the JSON body.
    pub fn to_hurl(&self) -> (r: String)
        requires
            self.wf(),
        ensures
            r@ == hurl_text(self@),
    {
        let ghost c = self@;
        let mut out = String::new();
        push_str(&mut out, "# Proxy call recorded at ");
        push_str(&mut out, self.timestamp.as_str());
        push_str(&mut out, "\n");
        push_str(&mut out, "# ID: ");
        push_str(&mut out, self.id.as_str());
        push_str(&mut out, "\n\n");
        push_str(&mut out, self.method.as_str());
        push_str(&mut out, " ");
        push_str(&mut out, self.target_url.as_str());
        push_str(&mut out, "\n");
        // Request headers.
        let ghost head = out@;
        let ghost hs = c.request_headers;
        let n = self.request_headers.len();
        let mut i: usize = 0;
        while i < n
            invariant
                self.wf(),
                c == self@,
                hs == c.request_headers,
                n == hs.len(),
                i <= n,
                out@ == head + hurl_header_lines(hs.take(i as int)),
            decreases n - i,
        {
            let ghost before = out@;
            let key = self.request_headers.key_at(i);
            let value = self.request_headers.value_at(i);
            let lower = to_lowercase(key.as_str());
            if !should_skip_hurl_header(lower.as_str()) {
                push_str(&mut out, key.as_str());
                push_str(&mut out, ": ");
                push_str(&mut out, value.as_str());
                push_str(&mut out, "\n");
            }
            proof {
                let t = hs.take(i + 1);
                assert(t.drop_last() =~= hs.take(i as int));
                assert(t.last() == hs[i as int]);
                assert(out@ =~= head + hurl_header_lines(t));
            }
            i = i + 1;
        }
        assert(hs.take(n as int) =~= hs);
        // Request body.
        let ghost after_headers = out@;
        if !self.request_body.as_str().is_empty() {
            match json_pretty(self.request_body.as_str()) {
                Some((true, text)) => {
                    push_str(&mut out, text.as_str());
                    push_str(&mut out, "\n");
                },
                _ => {
                    push_str(&mut out, "`");
                    let trimmed = trim(self.request_body.as_str());
                    push_str(&mut out, trimmed.as_str());
                    push_str(&mut out, "`\n");
                },
            }
        }
        assert(out@ =~= after_headers + hurl_body(c.request_body));
        // Expected status.
        push_str(&mut out, "HTTP ");
        let status = decimal_string(self.response_status as u64);
        push_str(&mut out, status.as_str());
        push_str(&mut out, "\n");
        // Assertions on response headers.
        let ghost before_asserts = out@;
        let ghost rs = c.response_headers;
        let m = self.response_headers.len();
        if m > 0 {
            push_str(&mut out, "\n# [Asserts]\n");
            let ghost start = out@;
            let mut j: usize = 0;
            while j < m
                invariant
                    self.wf(),
                    c == self@,
                    rs == c.response_headers,
                    m == rs.len(),
                    j <= m,
                    out@ == start + hurl_assert_lines(rs.take(j as int)),
                decreases m - j,
            {
                let key = self.response_headers.key_at(j);
                let value = self.response_headers.value_at(j);
                let lower = to_lowercase(key.as_str());
                if str_eq(lower.as_str(), "content-type") {
                    push_str(&mut out, "# header \"");
                    push_str(&mut out, key.as_str());
                    push_str(&mut out, "\" == \"");
                    push_str(&mut out, value.as_str());
                    push_str(&mut out, "\"\n");
                }
                proof {
                    let t = rs.take(j + 1);
                    assert(t.drop_last() =~= rs.take(j as int));
                    assert(t.last() == rs[j as int]);
                    assert(out@ =~= start + hurl_assert_lines(t));
                }
                j = j + 1;
            }
            assert(rs.take(m as int) =~= rs);
        }
        assert(out@ =~= before_asserts + hurl_asserts(rs));
        // Commented response body.
        let ghost before_body = out@;
        if !self.response_body.as_str().is_empty() {
            match json_pretty(self.response_body.as_str()) {
                Some((true, text)) => {
                    push_str(&mut out, "# body == ```\n");
                    push_str(&mut out, "# ");
                    proof {
                        reveal_strlit("\n");
                    }
                    let commented = replace(text.as_str(), "\n", "\n# ");
                    push_str(&mut out, commented.as_str());
                    push_str(&mut out, "\n");
                    push_str(&mut out, "# ```\n");
                },
                _ => {},
            }
        }
        assert(out@ =~= before_body + hurl_response_body(c.response_body));
        out
    }

    /// The JSON record of the call, as serde_json writes the struct (headers in
    /// their recorded order).
    pub fn as_json(&self) -> (r: String)
        requires
            self.wf(),
        ensures
            r@ == proxy_call_json(self@),
    {
        let mut out: Vec<char> = Vec::new();
        push_chars(&mut out, "{\"id\":");
        push_json_string(&mut out, self.id.as_str());
        push_chars(&mut out, ",\"timestamp\":");
        push_json_string(&mut out, self.timestamp.as_str());
        push_chars(&mut out, ",\"method\":");
        push_json_string(&mut out, self.method.as_str());
        push_chars(&mut out, ",\"path\":");
        push_json_string(&mut out, self.path.as_str());
        push_chars(&mut out, ",\"query\":");
        push_json_string(&mut out, self.query.as_str());
        push_chars(&mut out, ",\"target_url\":");
        push_json_string(&mut out, self.target_url.as_str());
        push_chars(&mut out, ",\"request_headers\":");
        push_json_object(&mut out, &self.request_headers);
        push_chars(&mut out, ",\"request_body\":");
        push_json_string(&mut out, self.request_body.as_str());
        push_chars(&mut out, ",\"response_status\":");
        push_decimal(&mut out, self.response_status as u64);
        push_chars(&mut out, ",\"response_headers\":");
        push_json_object(&mut out, &self.response_headers);
        push_chars(&mut out, ",\"response_body\":");
        push_json_string(&mut out, self.response_body.as_str());
        push_chars(&mut out, "}");
        string_of(&out)
    }
}

} // verus!
