//! The service's configuration and its start-up banner.
use vstd::prelude::*;

use crate::text::{chars_of, decimal, push_chars, push_decimal, string_of};

verus! {

/// The banner's text before the service address.
pub const BANNER_HEAD: &'static str = "\n        __| |_________________| |__\n        __   _________________   __\n          | |                 | |       Catch your http requests\n          | | ╔═╗┌─┐┌┬┐┌─┐┬ ┬ | |\n          | | ║  ├─┤ │ │  ├─┤ | |       https://github.com/SilenLoc/catch\n          | | ╚═╝┴ ┴ ┴ └─┘┴ ┴ | |\n        __| |_________________| |__     ";

/// The banner's text after the service address.
pub const BANNER_TAIL: &'static str = "\n        __   _________________   __\n          | |                 | |\n        ";

/// The mathematical content of a configuration.
pub struct ServerModel {
    pub host: Seq<char>,
    pub port: u16,
    pub log_level: Seq<char>,
    pub proxy_target: Option<Seq<char>>,
}

/// Where the service listens, how much it logs, and where it proxies to.
pub struct Server {
    adress: (String, u16),
    log_level: String,
    proxy_target: Option<String>,
}

/// The view of an optional string.
pub open spec fn opt_view(o: Option<String>) -> Option<Seq<char>> {
    match o {
        Some(s) => Some(s@),
        None => None,
    }
}

impl View for Server {
    type V = ServerModel;

    closed spec fn view(&self) -> ServerModel {
        ServerModel {
            host: self.adress.0@,
            port: self.adress.1,
            log_level: self.log_level@,
            proxy_target: opt_view(self.proxy_target),
        }
    }
}

/// The base URL the service answers on.
pub open spec fn service_url(host: Seq<char>, port: u16) -> Seq<char> {
    "http://"@ + host + ":"@ + decimal(port as nat)
}

/// The start-up banner for a service at `host:port`.
pub open spec fn banner(host: Seq<char>, port: u16) -> Seq<char> {
    BANNER_HEAD@ + service_url(host, port) + BANNER_TAIL@
}

/// The port used when none is given or the given one is not a port number.
pub const DEFAULT_PORT: u16 = 8111;

/// An ASCII decimal digit.
pub open spec fn is_ascii_digit(c: char) -> bool {
    '0' <= c && c <= '9'
}

/// The number that a sequence of decimal digits writes.
pub open spec fn digits_value(d: Seq<char>) -> nat
    decreases d.len(),
{
    if d.len() == 0 {
        0
    } else {
        (digits_value(d.drop_last()) * 10 + ((d.last() as int) - 48)) as nat
    }
}

/// The digits of an unsigned number's text: all of it but a leading `+`.
pub open spec fn unsigned_digits(s: Seq<char>) -> Seq<char> {
    if s.len() > 0 && s[0] == '+' {
        s.skip(1)
    } else {
        s
    }
}

/// Every character of `d` is a decimal digit.
pub open spec fn all_digits(d: Seq<char>) -> bool {
    forall|i: int| 0 <= i < d.len() ==> is_ascii_digit(#[trigger] d[i])
}

/// `s` as `str::parse::<u16>` reads it: an optional `+`, then at least one decimal
/// digit and nothing else, for a number of at most 65535.
pub open spec fn parse_u16(s: Seq<char>) -> Option<u16> {
    let d = unsigned_digits(s);
    if d.len() > 0 && all_digits(d) && digits_value(d) <= 65535 {
        Some(digits_value(d) as u16)
    } else {
        None
    }
}

/// The port of a configuration: the given text read as a port number, or
/// `DEFAULT_PORT` when there is none or it is not one.
pub open spec fn port_setting(port: Option<Seq<char>>) -> u16 {
    match port {
        Some(p) => match parse_u16(p) {
            Some(n) => n,
            None => DEFAULT_PORT,
        },
        None => DEFAULT_PORT,
    }
}

/// The value of a run of digits is at least that of each of its prefixes.
proof fn lemma_digits_value_grows(d: Seq<char>, k: int)
    requires
        0 <= k <= d.len(),
        all_digits(d),
    ensures
        digits_value(d.take(k)) <= digits_value(d),
    decreases d.len(),
{
    if k < d.len() {
        let e = d.drop_last();
        assert(e.take(k) =~= d.take(k));
        assert(all_digits(e)) by {
            assert forall|i: int| 0 <= i < e.len() implies is_ascii_digit(#[trigger] e[i]) by {
                assert(e[i] == d[i]);
            }
        }
        lemma_digits_value_grows(e, k);
    } else {
        assert(d.take(k) =~= d);
    }
}

/// `s` read as a `u16` by the rules of `str::parse::<u16>`.
pub fn parse_port(s: &str) -> (r: Option<u16>)
    ensures
        r == parse_u16(s@),
{
    let v = chars_of(s);
    let start: usize = if v.len() > 0 && v[0] == '+' {
        1
    } else {
        0
    };
    let ghost d = unsigned_digits(s@);
    assert(d =~= v@.skip(start as int));
    if start >= v.len() {
        return None;
    }
    let mut acc: u32 = 0;
    let mut i: usize = start;
    while i < v.len()
        invariant
            v@ == s@,
            d == v@.skip(start as int),
            d == unsigned_digits(s@),
            start <= i <= v.len(),
            acc <= 65535,
            acc == digits_value(d.take(i - start)),
            forall|j: int| 0 <= j < i - start ==> is_ascii_digit(#[trigger] d[j]),
        decreases v.len() - i,
    {
        let c = v[i];
        assert(c == d[i - start]);
        if !('0' <= c && c <= '9') {
            assert(!is_ascii_digit(d[i - start]));
            assert(!all_digits(d));
            return None;
        }
        let digit: u32 = (c as u32) - 48;
        assert(d.take(i - start + 1).drop_last() =~= d.take(i - start));
        acc = acc * 10 + digit;
        i = i + 1;
        if acc > 65535 {
            proof {
                assert(acc == digits_value(d.take(i - start)));
                if all_digits(d) {
                    lemma_digits_value_grows(d, i - start);
                    assert(digits_value(d) > 65535);
                }
            }
            return None;
        }
    }
    assert(d.take(i - start) =~= d);
    assert(all_digits(d));
    Some(acc as u16)
}

/// The configuration from its settings as the environment gives them: the port
/// (`DEFAULT_PORT` when missing or not a port number), the log level (`info` when
/// missing), and the proxy target, on every interface.
pub fn server_from(port: Option<String>, log_level: Option<String>, proxy_target: Option<String>) -> (r: Server)
    ensures
        r@.host == "0.0.0.0"@,
        r@.port == port_setting(opt_view(port)),
        r@.log_level == match log_level {
            Some(l) => l@,
            None => "info"@,
        },
        r@.proxy_target == opt_view(proxy_target),
{
    let port_number = match &port {
        Some(p) => match parse_port(p.as_str()) {
            Some(n) => n,
            None => DEFAULT_PORT,
        },
        None => DEFAULT_PORT,
    };
    let level = match log_level {
        Some(l) => l,
        None => "info".to_string(),
    };
    Server::new(("0.0.0.0".to_string(), port_number), level, proxy_target)
}

impl Server {
    pub fn new(adress: (String, u16), log_level: String, proxy_target: Option<String>) -> (r: Self)
        ensures
            r@.host == adress.0@,
            r@.port == adress.1,
            r@.log_level == log_level@,
            r@.proxy_target == opt_view(proxy_target),
    {
        Server { adress, log_level, proxy_target }
    }

    /// The host and port to bind to.
    pub fn adress(&self) -> (r: (String, u16))
        ensures
            r.0@ == self@.host,
            r.1 == self@.port,
    {
        (self.adress.0.clone(), self.adress.1)
    }

    pub fn log_level(&self) -> (r: &str)
        ensures
            r@ == self@.log_level,
    {
        self.log_level.as_str()
    }

    /// The configured proxy target, if any.
    pub fn proxy_target(&self) -> (r: Option<&str>)
        ensures
            match r {
                Some(t) => self@.proxy_target == Some(t@),
                None => self@.proxy_target is None,
            },
    {
        match &self.proxy_target {
            Some(t) => Some(t.as_str()),
            None => None,
        }
    }
}

/// The start-up banner, with the address the service answers on.
pub fn ascii(server: &Server) -> (r: String)
    ensures
        r@ == banner(server@.host, server@.port),
{
    let (root, port) = server.adress();
    let mut out: Vec<char> = Vec::new();
    push_chars(&mut out, BANNER_HEAD);
    push_chars(&mut out, "http://");
    push_chars(&mut out, root.as_str());
    push_chars(&mut out, ":");
    push_decimal(&mut out, port as u64);
    push_chars(&mut out, BANNER_TAIL);
    string_of(&out)
}

} // verus!
