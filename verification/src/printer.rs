//! Which local printers the relay may reach, and the checks made before a
//! job is sent to one.

use vstd::prelude::*;
use crate::text::{decimal, decimal_text, same_text};
use crate::ipv4::{
    has_private_prefix, has_private_prefix_text, ipv4_octets, ipv4_text, is_private,
    is_private_ipv4, lemma_ipv4_text_has_no_colon, lemma_ipv4_text_read_back,
    lemma_private_prefix_of_address, parse_ipv4,
};
use crate::http_status::{is_success, is_success_code, status_line, status_text};

verus! {

/// A host may be reached when it is the dotted-decimal text of an IPv4
/// address in one of the private networks of RFC 1918.
pub open spec fn host_allowed(host: Seq<char>) -> bool {
    ipv4_octets(host) matches Some(q) && is_private_ipv4(q)
}

/// Whether the relay may send to `host`.
pub fn is_allowed_host(host: &str) -> (b: bool)
    ensures
        b == host_allowed(host@),
{
    match parse_ipv4(host) {
        Some(q) => is_private(q),
        None => false,
    }
}

/// Only private networks: a host is allowed exactly when it is the
/// dotted-decimal text of an IPv4 address in 10.0.0.0/8, 172.16.0.0/12 or
/// 192.168.0.0/16. Names such as `10.evil.example` and loopback addresses
/// are refused.
pub proof fn lemma_allowed_hosts_are_private_addresses(host: Seq<char>)
    ensures
        host_allowed(host) <==> exists|q: (u8, u8, u8, u8)|
            host == #[trigger] ipv4_text(q) && is_private_ipv4(q),
{
    if exists|q: (u8, u8, u8, u8)| host == #[trigger] ipv4_text(q) && is_private_ipv4(q) {
        let q = choose|q: (u8, u8, u8, u8)| host == #[trigger] ipv4_text(q) && is_private_ipv4(q);
        lemma_ipv4_text_read_back(q);
    }
    if host_allowed(host) {
        let q = ipv4_octets(host)->0;
        assert(host == ipv4_text(q));
    }
}

/// The text of an IPv4 address is allowed exactly when the address is private.
pub proof fn lemma_address_allowed_iff_private(q: (u8, u8, u8, u8))
    ensures
        host_allowed(ipv4_text(q)) == is_private_ipv4(q),
        host_allowed(ipv4_text(q)) <==> (q.0 == 10 || (q.0 == 172 && 16 <= q.1 <= 31) || (q.0
            == 192 && q.1 == 168)),
{
    lemma_ipv4_text_read_back(q);
}

/// No IPv6 text (nor any text holding a `:`) is allowed.
pub proof fn lemma_ipv6_hosts_refused(host: Seq<char>)
    requires
        host.contains(':'),
    ensures
        !host_allowed(host),
{
    lemma_ipv4_text_has_no_colon(host);
}

/// The ports on which network printers take raw print data.
pub open spec fn allowed_tcp_ports() -> Seq<u16> {
    seq![9100u16, 6101u16, 515u16, 9101u16]
}

/// Whether the relay may send to `port`.
pub fn is_allowed_port(port: u16) -> (b: bool)
    ensures
        b == allowed_tcp_ports().contains(port),
{
    let r = port == 9100 || port == 6101 || port == 515 || port == 9101;
    proof {
        if r {
            if port == 9100 { assert(allowed_tcp_ports()[0] == port); }
            if port == 6101 { assert(allowed_tcp_ports()[1] == port); }
            if port == 515 { assert(allowed_tcp_ports()[2] == port); }
            if port == 9101 { assert(allowed_tcp_ports()[3] == port); }
        }
    }
    r
}

/// What a TCP print to `host:port` is answered before any connection is
/// made. A host without a private-network prefix is refused by name; one
/// with such a prefix that is not the text of an IPv4 address cannot be
/// made into a socket address.
pub open spec fn tcp_target_verdict(host: Seq<char>, port: u16) -> Result<(), Seq<char>> {
    if !has_private_prefix(host) {
        Err("Host "@ + host + " not allowed"@)
    } else if !allowed_tcp_ports().contains(port) {
        Err("Port "@ + decimal_text(port as nat) + " not allowed"@)
    } else if ipv4_octets(host) is None {
        Err("Invalid address: invalid socket address syntax"@)
    } else {
        Ok(())
    }
}

/// The view of a result whose error is text.
pub open spec fn text_result<T>(r: Result<T, String>) -> Result<T, Seq<char>> {
    match r {
        Ok(t) => Ok(t),
        Err(e) => Err(e@),
    }
}

/// Checks that a raw TCP print may go to `host:port`: the host must be the
/// text of a private IPv4 address and the port a printer port.
pub fn check_tcp_target(host: &str, port: u16) -> (r: Result<(), String>)
    ensures
        text_result(r) == tcp_target_verdict(host@, port),
{
    if !has_private_prefix_text(host) {
        let mut msg = String::from_str("Host ");
        msg.append(host);
        msg.append(" not allowed");
        return Err(msg);
    }
    if !is_allowed_port(port) {
        let mut msg = String::from_str("Port ");
        let digits = decimal(port as u64);
        msg.append(digits.as_str());
        msg.append(" not allowed");
        return Err(msg);
    }
    if parse_ipv4(host).is_none() {
        return Err(String::from_str("Invalid address: invalid socket address syntax"));
    }
    Ok(())
}

} // verus!

verus! {

/// Why a URL could not be parsed; the variants of `url::ParseError`.
#[derive(Clone, Copy, Debug, PartialEq, Eq)]
pub enum UrlParseError {
    EmptyHost,
    IdnaError,
    InvalidPort,
    InvalidIpv4Address,
    InvalidIpv6Address,
    InvalidDomainCharacter,
    RelativeUrlWithoutBase,
    RelativeUrlWithCannotBeABaseBase,
    SetHostOnCannotBeABaseUrl,
    Overflow,
    /// A variant that a later `url` release may add.
    Unlisted,
}

impl UrlParseError {
    /// The text that `url::ParseError` displays for this error.
    pub open spec fn text(self) -> Seq<char> {
        match self {
            UrlParseError::EmptyHost => "empty host"@,
            UrlParseError::IdnaError => "invalid international domain name"@,
            UrlParseError::InvalidPort => "invalid port number"@,
            UrlParseError::InvalidIpv4Address => "invalid IPv4 address"@,
            UrlParseError::InvalidIpv6Address => "invalid IPv6 address"@,
            UrlParseError::InvalidDomainCharacter => "invalid domain character"@,
            UrlParseError::RelativeUrlWithoutBase => "relative URL without a base"@,
            UrlParseError::RelativeUrlWithCannotBeABaseBase => "relative URL with a cannot-be-a-base base"@,
            UrlParseError::SetHostOnCannotBeABaseUrl => "a cannot-be-a-base URL doesn’t have a host to set"@,
            UrlParseError::Overflow => "URLs more than 4 GB are not supported"@,
            UrlParseError::Unlisted => "unlisted URL parse error"@,
        }
    }

    /// The text that `url::ParseError` displays for this error.
    pub fn message(&self) -> (s: &'static str)
        ensures
            s@ == self.text(),
    {
        match self {
            UrlParseError::EmptyHost => "empty host",
            UrlParseError::IdnaError => "invalid international domain name",
            UrlParseError::InvalidPort => "invalid port number",
            UrlParseError::InvalidIpv4Address => "invalid IPv4 address",
            UrlParseError::InvalidIpv6Address => "invalid IPv6 address",
            UrlParseError::InvalidDomainCharacter => "invalid domain character",
            UrlParseError::RelativeUrlWithoutBase => "relative URL without a base",
            UrlParseError::RelativeUrlWithCannotBeABaseBase => "relative URL with a cannot-be-a-base base",
            UrlParseError::SetHostOnCannotBeABaseUrl => "a cannot-be-a-base URL doesn’t have a host to set",
            UrlParseError::Overflow => "URLs more than 4 GB are not supported",
            UrlParseError::Unlisted => "unlisted URL parse error",
        }
    }
}

/// The kind of host a parsed URL has, as `url::Url::host` tells it.
#[derive(Clone, Copy, Debug, PartialEq, Eq)]
pub enum UrlHost {
    /// An IPv4 address, by its four octets.
    Ipv4([u8; 4]),
    /// An IPv6 address.
    Ipv6,
    /// A domain name.
    Domain,
}

/// The parts of a parsed URL that the relay reads: the scheme, the host
/// text and the kind of host.
pub type UrlParts = (String, Option<String>, Option<UrlHost>);

/// What `url::Url::parse` makes of a text: its scheme, host text and kind of
/// host, or the error.
pub uninterp spec fn parsed_url(input: Seq<char>) -> Result<(Seq<char>, Option<Seq<char>>, Option<UrlHost>), UrlParseError>;

/// The view of the parsed parts of a URL.
pub open spec fn url_parts_view(r: Result<UrlParts, UrlParseError>) -> Result<(Seq<char>, Option<Seq<char>>, Option<UrlHost>), UrlParseError> {
    match r {
        Ok((scheme, host, kind)) => Ok((scheme@, match host {
            Some(h) => Some(h@),
            None => None,
        }, kind)),
        Err(e) => Err(e),
    }
}

/// Calls `url::Url::parse` and reads `Url::scheme`, `Url::host_str` and
/// `Url::host` of the result (an IPv4 host by `Ipv4Addr::octets`). The
/// contract claims that the outcome is the one named `parsed_url(input)`,
/// and, as the `url` source documents for `Host::Ipv4`, that an IPv4 host's
/// text is its four octets in decimal separated by dots. The WHATWG parsing
/// rules are not stated.
#[verifier::external_body]
fn parse_url_parts(input: &str) -> (r: Result<UrlParts, UrlParseError>)
    ensures
        url_parts_view(r) == parsed_url(input@),
        r matches Ok((_, host, Some(UrlHost::Ipv4(o)))) ==> host matches Some(t) && t@ == ipv4_text(
            (o@[0], o@[1], o@[2], o@[3]),
        ),
{
    match url::Url::parse(input) {
        Ok(u) => {
            let kind = match u.host() {
                Some(url::Host::Ipv4(a)) => Some(UrlHost::Ipv4(a.octets())),
                Some(url::Host::Ipv6(_)) => Some(UrlHost::Ipv6),
                Some(url::Host::Domain(_)) => Some(UrlHost::Domain),
                None => None,
            };
            Ok((u.scheme().to_string(), u.host_str().map(str::to_string), kind))
        },
        Err(e) => Err(convert_url_error(e)),
    }
}

/// The error type of `url::Url::parse`, carried opaquely.
#[verifier::external_type_specification]
#[verifier::external_body]
pub struct ExUrlParseError(url::ParseError);

/// Tells the variants of `url::ParseError` apart, one arm each.
#[verifier::external_body]
fn convert_url_error(e: url::ParseError) -> UrlParseError {
    match e {
        url::ParseError::EmptyHost => UrlParseError::EmptyHost,
        url::ParseError::IdnaError => UrlParseError::IdnaError,
        url::ParseError::InvalidPort => UrlParseError::InvalidPort,
        url::ParseError::InvalidIpv4Address => UrlParseError::InvalidIpv4Address,
        url::ParseError::InvalidIpv6Address => UrlParseError::InvalidIpv6Address,
        url::ParseError::InvalidDomainCharacter => UrlParseError::InvalidDomainCharacter,
        url::ParseError::RelativeUrlWithoutBase => UrlParseError::RelativeUrlWithoutBase,
        url::ParseError::RelativeUrlWithCannotBeABaseBase => UrlParseError::RelativeUrlWithCannotBeABaseBase,
        url::ParseError::SetHostOnCannotBeABaseUrl => UrlParseError::SetHostOnCannotBeABaseUrl,
        url::ParseError::Overflow => UrlParseError::Overflow,
        _ => UrlParseError::Unlisted,
    }
}

/// What `str::to_uppercase` makes of a text.
pub uninterp spec fn uppercased(s: Seq<char>) -> Seq<char>;

/// Whether every character of `s` is ASCII.
pub open spec fn all_ascii(s: Seq<char>) -> bool {
    forall|i: int| 0 <= i < s.len() ==> (#[trigger] s[i] as int) < 128
}

/// `s` with the ASCII letters `a` to `z` made upper case.
pub open spec fn ascii_uppercased(s: Seq<char>) -> Seq<char> {
    s.map_values(|c: char| if 'a' <= c && c <= 'z' { (c as int - 32) as char } else { c })
}

/// Calls `str::to_uppercase`. The contract claims that the result is the
/// one named `uppercased(s)`, and, as std documents for ASCII text, that
/// such text has its letters `a` to `z` made upper case; the Unicode case
/// tables for other characters are not stated.
#[verifier::external_body]
fn to_uppercase(s: &str) -> (r: String)
    ensures
        r@ == uppercased(s@),
        all_ascii(s@) ==> r@ == ascii_uppercased(s@),
{
    s.to_uppercase()
}

/// The HTTP methods that a local printer is sent.
#[derive(Clone, Copy, Debug, PartialEq, Eq)]
pub enum HttpMethod {
    Post,
    Get,
}

/// Whether a URL's host is an IPv4 address in a private network of RFC 1918.
pub open spec fn url_host_allowed(kind: Option<UrlHost>) -> bool {
    kind matches Some(UrlHost::Ipv4(o)) && is_private_ipv4((o@[0], o@[1], o@[2], o@[3]))
}

/// What an HTTP print to `url` with `method` is answered before any request
/// is sent, given what parsing the URL and upper-casing the method gave.
pub open spec fn http_target_verdict(
    parsed: Result<(Seq<char>, Option<Seq<char>>, Option<UrlHost>), UrlParseError>,
    method: Seq<char>,
    method_upper: Seq<char>,
) -> Result<HttpMethod, Seq<char>> {
    match parsed {
        Err(e) => Err("Invalid URL: "@ + e.text()),
        Ok((scheme, host_opt, kind)) => {
            let host = match host_opt {
                Some(h) => h,
                None => Seq::<char>::empty(),
            };
            if !url_host_allowed(kind) {
                Err("Host "@ + host + " not allowed"@)
            } else if scheme != "http"@ {
                Err("Only http:// allowed for local printers"@)
            } else if method_upper == "POST"@ {
                Ok(HttpMethod::Post)
            } else if method_upper == "GET"@ {
                Ok(HttpMethod::Get)
            } else {
                Err("Unsupported method: "@ + method)
            }
        },
    }
}

/// Whether a URL's host is an IPv4 address in a private network of RFC 1918.
fn is_allowed_url_host(kind: Option<UrlHost>) -> (b: bool)
    ensures
        b == url_host_allowed(kind),
{
    match kind {
        Some(UrlHost::Ipv4(o)) => is_private((o[0], o[1], o[2], o[3])),
        _ => false,
    }
}

/// Decides an HTTP print target from the parsed URL and the upper-cased
/// method: the host must be a private IPv4 address, the scheme `http`, and
/// the method `POST` or `GET`.
pub fn http_target_from_parts(
    parsed: Result<UrlParts, UrlParseError>,
    method: &str,
    method_upper: &str,
) -> (r: Result<HttpMethod, String>)
    ensures
        text_result(r) == http_target_verdict(url_parts_view(parsed), method@, method_upper@),
{
    match parsed {
        Err(e) => {
            let mut msg = String::from_str("Invalid URL: ");
            msg.append(e.message());
            Err(msg)
        },
        Ok((scheme, host_opt, kind)) => {
            let host = match host_opt {
                Some(h) => h,
                None => String::new(),
            };
            if !is_allowed_url_host(kind) {
                let mut msg = String::from_str("Host ");
                msg.append(host.as_str());
                msg.append(" not allowed");
                return Err(msg);
            }
            if !same_text(scheme.as_str(), "http") {
                return Err(String::from_str("Only http:// allowed for local printers"));
            }
            if same_text(method_upper, "POST") {
                Ok(HttpMethod::Post)
            } else if same_text(method_upper, "GET") {
                Ok(HttpMethod::Get)
            } else {
                let mut msg = String::from_str("Unsupported method: ");
                msg.append(method);
                Err(msg)
            }
        },
    }
}

/// Checks that an HTTP print may go to `url` with `method`, as the relay does
/// before sending: parse the URL, then decide on its host, scheme and method.
pub fn check_http_target(url: &str, method: &str) -> (r: Result<HttpMethod, String>)
    ensures
        text_result(r) == http_target_verdict(parsed_url(url@), method@, uppercased(method@)),
{
    let parsed = parse_url_parts(url);
    let upper = to_uppercase(method);
    http_target_from_parts(parsed, method, upper.as_str())
}

/// The headers of an HTTP print: the entries whose value is text, in order.
pub open spec fn text_headers(entries: Seq<(Seq<char>, Option<Seq<char>>)>) -> Seq<(Seq<char>, Seq<char>)>
    decreases entries.len(),
{
    if entries.len() == 0 {
        Seq::empty()
    } else {
        let rest = text_headers(entries.drop_last());
        match entries.last().1 {
            Some(v) => rest.push((entries.last().0, v)),
            None => rest,
        }
    }
}

/// Keeps the header entries whose value is text; the others are skipped.
pub fn select_headers(entries: &Vec<(String, Option<String>)>) -> (r: Vec<(String, String)>)
    ensures
        r.deep_view() == text_headers(entries.deep_view()),
{
    let mut out: Vec<(String, String)> = Vec::new();
    let mut i: usize = 0;
    while i < entries.len()
        invariant
            i <= entries@.len(),
            out.deep_view() == text_headers(entries.deep_view().subrange(0, i as int)),
        decreases entries@.len() - i,
    {
        let (k, v) = &entries[i];
        proof {
            assert(entries.deep_view().subrange(0, i + 1).drop_last() =~= entries.deep_view().subrange(0, i as int));
        }
        match v {
            Some(val) => {
                out.push((k.clone(), val.clone()));
            },
            None => {},
        }
        i += 1;
    }
    assert(entries.deep_view().subrange(0, entries@.len() as int) =~= entries.deep_view());
    out
}

/// What an HTTP print is answered once the printer has replied: success
/// codes are accepted, any other code is reported with its status line.
pub open spec fn http_reply_verdict(code: u16) -> Result<(), Seq<char>> {
    if is_success_code(code) {
        Ok(())
    } else {
        Err("HTTP "@ + status_text(code))
    }
}

/// A printer's reply is accepted exactly for the codes 200 to 299; any other
/// code is an error that begins with `HTTP `.
pub proof fn lemma_http_reply_accepted_iff_2xx(code: u16)
    ensures
        (200 <= code && code < 300) ==> http_reply_verdict(code) == Ok::<(), Seq<char>>(()),
        !(200 <= code && code < 300) ==> (http_reply_verdict(code) matches Err(msg)
            && "HTTP "@.is_prefix_of(msg)),
{
    if !(200 <= code && code < 300) {
        let msg = http_reply_verdict(code)->Err_0;
        assert(msg.subrange(0, "HTTP "@.len() as int) =~= "HTTP "@);
    }
}

/// Judges the printer's reply to an HTTP print.
pub fn check_http_reply(code: u16) -> (r: Result<(), String>)
    ensures
        text_result(r) == http_reply_verdict(code),
{
    if is_success(code) {
        Ok(())
    } else {
        let mut msg = String::from_str("HTTP ");
        let line = status_line(code);
        msg.append(line.as_str());
        Err(msg)
    }
}

} // verus!

verus! {

/// A raw TCP print is let through exactly when its host is the text of a
/// private IPv4 address and its port is one of the printer ports.
pub proof fn lemma_tcp_target_accepted(host: Seq<char>, port: u16)
    ensures
        tcp_target_verdict(host, port) is Ok <==> host_allowed(host)
            && allowed_tcp_ports().contains(port),
{
    if let Some(q) = ipv4_octets(host) {
        assert(host == ipv4_text(q));
        lemma_private_prefix_of_address(q);
    }
}

/// Every private IPv4 host is served: an `http` URL whose host is an
/// address in 10.0.0.0/8, 172.16.0.0/12 or 192.168.0.0/16 is accepted, with
/// `Post` for `POST` and `Get` for `GET`, whatever its host text.
pub proof fn lemma_private_http_targets_accepted(
    host_text: Option<Seq<char>>,
    o: [u8; 4],
    method: Seq<char>,
    method_upper: Seq<char>,
)
    requires
        o@[0] == 10 || (o@[0] == 172 && 16 <= o@[1] <= 31) || (o@[0] == 192 && o@[1] == 168),
    ensures
        method_upper == "POST"@ ==> http_target_verdict(
            Ok(("http"@, host_text, Some(UrlHost::Ipv4(o)))),
            method,
            method_upper,
        ) == Ok::<HttpMethod, Seq<char>>(HttpMethod::Post),
        method_upper == "GET"@ ==> http_target_verdict(
            Ok(("http"@, host_text, Some(UrlHost::Ipv4(o)))),
            method,
            method_upper,
        ) == Ok::<HttpMethod, Seq<char>>(HttpMethod::Get),
{
    reveal_strlit("GET");
    reveal_strlit("POST");
    assert("GET"@[0] != "POST"@[0]);
}

/// Every header whose value is text is sent, with its key and value, in the
/// order given; the others are left out. That is, the headers sent are the
/// text-valued entries, filtered out of the entries and nothing else.
pub proof fn lemma_text_headers_are_the_text_entries(entries: Seq<(Seq<char>, Option<Seq<char>>)>)
    ensures
        text_headers(entries) == entries.filter(
            |e: (Seq<char>, Option<Seq<char>>)| e.1 is Some,
        ).map_values(|e: (Seq<char>, Option<Seq<char>>)| (e.0, e.1->0)),
    decreases entries.len(),
{
    reveal_with_fuel(Seq::<_>::filter, 1);
    let pred = |e: (Seq<char>, Option<Seq<char>>)| e.1 is Some;
    let f = |e: (Seq<char>, Option<Seq<char>>)| (e.0, e.1->0);
    if entries.len() == 0 {
        assert(entries.filter(pred) =~= entries);
        assert(entries.filter(pred).map_values(f) =~= Seq::empty());
    } else {
        lemma_text_headers_are_the_text_entries(entries.drop_last());
        let sub = entries.drop_last().filter(pred);
        if pred(entries.last()) {
            assert(entries.filter(pred) == sub.push(entries.last()));
            assert(sub.push(entries.last()).map_values(f) =~= sub.map_values(f).push(f(entries.last())));
        } else {
            assert(entries.filter(pred) == sub);
        }
    }
}

/// An HTTP print is let through only for a URL that parsed, whose scheme is
/// `http` and whose host is an IPv4 address in a private network of RFC
/// 1918, with the method `POST` or `GET` once upper-cased. The port is not
/// restricted.
pub proof fn lemma_http_target_accepted(
    parsed: Result<(Seq<char>, Option<Seq<char>>, Option<UrlHost>), UrlParseError>,
    method: Seq<char>,
    method_upper: Seq<char>,
)
    ensures
        http_target_verdict(parsed, method, method_upper) is Ok ==> {
            &&& parsed matches Ok((scheme, _, Some(UrlHost::Ipv4(o))))
            &&& scheme == "http"@
            &&& is_private_ipv4((o@[0], o@[1], o@[2], o@[3]))
            &&& method_upper == "POST"@ || method_upper == "GET"@
        },
{
}

} // verus!
