//! Validation of the JSON-RPC endpoint a client asks the debugger to use.
//!
//! Only http(s) URLs without credentials are accepted; local host names and
//! private, loopback, link-local, multicast, unspecified and broadcast IPv4
//! addresses are refused, and so are loopback, unspecified, multicast, unique
//! local and link-local IPv6 addresses; an optional allowlist narrows the
//! accepted hosts.
use crate::text::{
    decimal, ends_with, ends_with_spec, lowercase_spec, push_char,
    push_decimal, push_str, str_eq, to_ascii_lowercase, trim, trim_spec,
};
use vstd::prelude::*;
use vstd::string::*;

verus! {

/// The parts of a parsed URL that the checks read.
pub struct UrlParts {
    /// The whole URL, as the parser serializes it.
    pub serialization: String,
    pub scheme: String,
    pub username: String,
    pub password: Option<String>,
    /// The host as text; an IPv6 host is in square brackets.
    pub host: Option<String>,
    /// The host's octets when the host is an IPv4 address.
    pub host_ipv4: Option<[u8; 4]>,
    /// The host's 16-bit segments when the host is an IPv6 address.
    pub host_ipv6: Option<[u16; 8]>,
    /// The port, or the scheme's default port when it has one.
    pub port: Option<u16>,
}

pub struct UrlPartsView {
    pub serialization: Seq<char>,
    pub scheme: Seq<char>,
    pub username: Seq<char>,
    pub password: Option<Seq<char>>,
    pub host: Option<Seq<char>>,
    pub host_ipv4: Option<Seq<u8>>,
    pub host_ipv6: Option<Seq<u16>>,
    pub port: Option<u16>,
}

pub open spec fn opt_string_view(s: Option<String>) -> Option<Seq<char>> {
    match s {
        Some(x) => Some(x@),
        None => None,
    }
}

impl View for UrlParts {
    type V = UrlPartsView;

    open spec fn view(&self) -> UrlPartsView {
        UrlPartsView {
            serialization: self.serialization@,
            scheme: self.scheme@,
            username: self.username@,
            password: opt_string_view(self.password),
            host: opt_string_view(self.host),
            host_ipv4: match self.host_ipv4 {
                Some(a) => Some(a@),
                None => None,
            },
            host_ipv6: match self.host_ipv6 {
                Some(a) => Some(a@),
                None => None,
            },
            port: self.port,
        }
    }
}

impl UrlParts {
    /// The URL's scheme.
    pub fn scheme(&self) -> (r: &str)
        ensures
            r@ == self.scheme@,
    {
        self.scheme.as_str()
    }

    /// The URL as text.
    pub fn as_str(&self) -> (r: &str)
        ensures
            r@ == self.serialization@,
    {
        self.serialization.as_str()
    }
}

pub open spec fn parts_view(p: Option<UrlParts>) -> Option<UrlPartsView> {
    match p {
        Some(x) => Some(x@),
        None => None,
    }
}

/// What `url::Url::parse` makes of a text: `None` when it is no URL.
pub uninterp spec fn parsed_url(input: Seq<char>) -> Option<UrlPartsView>;

/// Calls `url::Url::parse` and reads back the parts the checks use.
/// Claimed: the result is `parsed_url` of the input; nothing more is said of
/// the WHATWG URL grammar.
#[verifier::external_body]
pub(crate) fn parse_url(input: &str) -> (r: Option<UrlParts>)
    ensures
        parts_view(r) == parsed_url(input@),
{
    let u = url::Url::parse(input).ok()?;
    let (host_ipv4, host_ipv6) = match u.host() {
        Some(url::Host::Ipv4(a)) => (Some(a.octets()), None),
        Some(url::Host::Ipv6(a)) => (None, Some(a.segments())),
        _ => (None, None),
    };
    Some(UrlParts {
        serialization: u.as_str().to_string(), scheme: u.scheme().to_string(),
        username: u.username().to_string(), password: u.password().map(String::from),
        host: u.host_str().map(String::from), host_ipv4, host_ipv6, port: u.port_or_known_default(),
    })
}

/// An IP address, as octets or as 16-bit segments.
pub enum IpAddress {
    V4([u8; 4]),
    V6([u16; 8]),
}

/// Refused IPv4 addresses: private (10/8, 172.16/12, 192.168/16), loopback
/// (127/8), link-local (169.254/16), multicast (224/4), unspecified (0.0.0.0)
/// and broadcast (255.255.255.255).
pub open spec fn blocked_ipv4(o: Seq<u8>) -> bool {
    ||| o[0] == 10
    ||| o[0] == 172 && 16 <= o[1] <= 31
    ||| o[0] == 192 && o[1] == 168
    ||| o[0] == 127
    ||| o[0] == 169 && o[1] == 254
    ||| 224 <= o[0] <= 239
    ||| o[0] == 0 && o[1] == 0 && o[2] == 0 && o[3] == 0
    ||| o[0] == 255 && o[1] == 255 && o[2] == 255 && o[3] == 255
}

/// Refused IPv6 addresses: loopback (::1), unspecified (::), multicast
/// (ff00::/8), unique local (fc00::/7) and unicast link-local (fe80::/10).
pub open spec fn blocked_ipv6(s: Seq<u16>) -> bool {
    let zero_prefix = s[0] == 0 && s[1] == 0 && s[2] == 0 && s[3] == 0 && s[4] == 0 && s[5] == 0
        && s[6] == 0;
    ||| zero_prefix && s[7] == 1
    ||| zero_prefix && s[7] == 0
    ||| s[0] >= 0xff00
    ||| 0xfc00 <= s[0] <= 0xfdff
    ||| 0xfe80 <= s[0] <= 0xfebf
}

pub open spec fn blocked_ip(ip: IpAddress) -> bool {
    match ip {
        IpAddress::V4(o) => blocked_ipv4(o@),
        IpAddress::V6(s) => blocked_ipv6(s@),
    }
}

/// Whether the debugger refuses to contact this address.
pub fn is_blocked_ip(ip: IpAddress) -> (b: bool)
    ensures
        b == blocked_ip(ip),
{
    match ip {
        IpAddress::V4(o) => {
            let (a, b, c, d) = (o[0], o[1], o[2], o[3]);
            a == 10 || (a == 172 && 16 <= b && b <= 31) || (a == 192 && b == 168) || a == 127 || (a
                == 169 && b == 254) || (224 <= a && a <= 239) || (a == 0 && b == 0 && c == 0 && d
                == 0) || (a == 255 && b == 255 && c == 255 && d == 255)
        },
        IpAddress::V6(s) => {
            let zero_prefix = s[0] == 0 && s[1] == 0 && s[2] == 0 && s[3] == 0 && s[4] == 0 && s[5]
                == 0 && s[6] == 0;
            (zero_prefix && s[7] == 1) || (zero_prefix && s[7] == 0) || s[0] >= 0xff00 || (0xfc00
                <= s[0] && s[0] <= 0xfdff) || (0xfe80 <= s[0] && s[0] <= 0xfebf)
        },
    }
}

/// Refused host names: `localhost` and names under `.localhost` or `.local`,
/// in any ASCII case.
pub open spec fn blocked_hostname(host: Seq<char>) -> bool {
    let h = lowercase_spec(host);
    ||| h == "localhost"@
    ||| ends_with_spec(h, ".localhost"@)
    ||| ends_with_spec(h, ".local"@)
}

/// Whether the debugger refuses to contact this host name.
pub fn is_blocked_hostname(host: &str) -> (b: bool)
    ensures
        b == blocked_hostname(host@),
{
    let h = to_ascii_lowercase(host);
    str_eq(h.as_str(), "localhost") || ends_with(h.as_str(), ".localhost") || ends_with(
        h.as_str(),
        ".local",
    )
}

/// `host:port` in lower case, as an allowlist entry names a host with a port.
pub open spec fn host_port(host: Seq<char>, port: u16) -> Seq<char> {
    lowercase_spec(host) + seq![':'] + decimal(port as nat)
}

/// An allowlist entry admits a host when it is the host's lower-case name, or
/// that name with the port.
pub open spec fn allowlist_admits(allowlist: Seq<Seq<char>>, host: Seq<char>, port: u16) -> bool {
    exists|i: int|
        0 <= i < allowlist.len() && (#[trigger] allowlist[i] == lowercase_spec(host)
            || allowlist[i] == host_port(host, port))
}

pub open spec fn strings_of(v: Seq<String>) -> Seq<Seq<char>> {
    v.map_values(|s: String| s@)
}

/// Whether an allowlist entry names this host, with or without this port.
pub fn allowlist_matches(allowlist: &Vec<String>, host: &str, port: u16) -> (b: bool)
    ensures
        b == allowlist_admits(strings_of(allowlist@), host@, port),
{
    let h = to_ascii_lowercase(host);
    let mut hp = h.clone();
    push_char(&mut hp, ':');
    push_decimal(&mut hp, port as u64);
    let ghost list = strings_of(allowlist@);
    proof {
        assert(hp@ =~= host_port(host@, port));
    }
    for i in 0..allowlist.len()
        invariant
            list == strings_of(allowlist@),
            h@ == lowercase_spec(host@),
            hp@ == host_port(host@, port),
            forall|k: int|
                0 <= k < i ==> !(#[trigger] list[k] == lowercase_spec(host@) || list[k] == host_port(
                    host@,
                    port,
                )),
    {
        let e = &allowlist[i];
        if *e == h || *e == hp {
            proof {
                assert(list[i as int] == e@);
            }
            return true;
        }
    }
    false
}

/// The comma-separated pieces of a text, empty pieces included.
pub open spec fn split_commas(s: Seq<char>) -> Seq<Seq<char>>
    decreases s.len(),
{
    if s.len() == 0 {
        seq![Seq::empty()]
    } else {
        let rest = split_commas(s.drop_last());
        if s.last() == ',' {
            rest.push(Seq::empty())
        } else {
            rest.update(rest.len() - 1, rest.last().push(s.last()))
        }
    }
}

proof fn lemma_split_nonempty(s: Seq<char>)
    ensures
        split_commas(s).len() >= 1,
    decreases s.len(),
{
    if s.len() > 0 {
        lemma_split_nonempty(s.drop_last());
    }
}

/// The allowlist entries of pieces: each trimmed, the empty ones dropped, the
/// rest in lower case.
pub open spec fn allowlist_entries(pieces: Seq<Seq<char>>) -> Seq<Seq<char>>
    decreases pieces.len(),
{
    if pieces.len() == 0 {
        Seq::empty()
    } else {
        let rest = allowlist_entries(pieces.drop_last());
        let t = trim_spec(pieces.last());
        if t.len() > 0 {
            rest.push(lowercase_spec(t))
        } else {
            rest
        }
    }
}

/// The allowlist that the value of the allowlist setting gives: `None` when
/// the setting is absent or names no entry.
pub open spec fn allowlist_of(raw: Option<Seq<char>>) -> Option<Seq<Seq<char>>> {
    match raw {
        None => None,
        Some(s) => {
            let e = allowlist_entries(split_commas(s));
            if e.len() == 0 {
                None
            } else {
                Some(e)
            }
        },
    }
}

pub open spec fn opt_strings_of(v: Option<Vec<String>>) -> Option<Seq<Seq<char>>> {
    match v {
        Some(x) => Some(strings_of(x@)),
        None => None,
    }
}

/// Splits the text at commas, keeping empty pieces.
pub(crate) fn split_at_commas(s: &str) -> (r: Vec<String>)
    ensures
        strings_of(r@) == split_commas(s@),
{
    let n = s.unicode_len();
    let mut done: Vec<String> = Vec::new();
    let mut cur = String::new();
    for i in 0..n
        invariant
            n == s@.len(),
            strings_of(done@).push(cur@) == split_commas(s@.take(i as int)),
    {
        let c = s.get_char(i);
        proof {
            assert(s@.take(i + 1).drop_last() =~= s@.take(i as int));
            lemma_split_nonempty(s@.take(i as int));
        }
        if c == ',' {
            let piece = cur;
            done.push(piece);
            cur = String::new();
            proof {
                assert(strings_of(done@).push(cur@) =~= split_commas(s@.take(i + 1)));
            }
        } else {
            let ghost before = strings_of(done@).push(cur@);
            push_char(&mut cur, c);
            proof {
                assert(strings_of(done@).push(cur@) =~= before.update(
                    before.len() - 1,
                    before.last().push(c),
                ));
            }
        }
    }
    done.push(cur);
    proof {
        assert(s@.take(n as int) =~= s@);
        assert(strings_of(done@) =~= split_commas(s@));
    }
    done
}

/// The allowlist given by the value of the allowlist setting (the process
/// reads `EVM_DEBUGGER_RPC_ALLOWLIST` and hands it over): comma-separated
/// entries, trimmed and lower-cased, empty ones dropped; `None` when the
/// setting is absent or names no entry.
pub fn parse_allowlist_env(raw: Option<&str>) -> (r: Option<Vec<String>>)
    ensures
        opt_strings_of(r) == allowlist_of(
            match raw {
                Some(s) => Some(s@),
                None => None,
            },
        ),
{
    let s = match raw {
        Some(s) => s,
        None => return None,
    };
    let pieces = split_at_commas(s);
    let ghost ps = strings_of(pieces@);
    let mut list: Vec<String> = Vec::new();
    for i in 0..pieces.len()
        invariant
            ps == strings_of(pieces@),
            ps == split_commas(s@),
            strings_of(list@) == allowlist_entries(ps.take(i as int)),
    {
        let t = trim(pieces[i].as_str());
        proof {
            assert(ps.take(i + 1).drop_last() =~= ps.take(i as int));
            assert(ps.take(i + 1).last() == pieces@[i as int]@);
        }
        if t.unicode_len() > 0 {
            let l = to_ascii_lowercase(t);
            list.push(l);
            proof {
                assert(strings_of(list@) =~= allowlist_entries(ps.take(i as int)).push(
                    lowercase_spec(trim_spec(pieces@[i as int]@)),
                ));
            }
        }
    }
    proof {
        assert(ps.take(pieces@.len() as int) =~= ps);
    }
    if list.len() == 0 {
        None
    } else {
        Some(list)
    }
}

/// Why an RPC URL was refused.
pub enum RpcUrlError {
    /// The text is no URL.
    Parse { input: String },
    /// The scheme is neither `http` nor `https`.
    UnsupportedScheme { scheme: String },
    /// The URL carries a user name or a password.
    Credentials,
    /// The URL has no host.
    MissingHost,
    /// The host name is a local one.
    HostNotAllowed { host: String },
    /// The host is a refused IPv4 address.
    IpNotAllowed { ip: [u8; 4] },
    /// The host is a refused IPv6 address, written as in the URL.
    Ipv6NotAllowed { host: String },
    /// An allowlist is set but the URL has no port.
    MissingPort,
    /// An allowlist is set and does not admit the host.
    NotInAllowlist { host: String },
}

pub enum RpcUrlErrorView {
    Parse { input: Seq<char> },
    UnsupportedScheme { scheme: Seq<char> },
    Credentials,
    MissingHost,
    HostNotAllowed { host: Seq<char> },
    IpNotAllowed { ip: Seq<u8> },
    Ipv6NotAllowed { host: Seq<char> },
    MissingPort,
    NotInAllowlist { host: Seq<char> },
}

impl View for RpcUrlError {
    type V = RpcUrlErrorView;

    open spec fn view(&self) -> RpcUrlErrorView {
        match self {
            RpcUrlError::Parse { input } => RpcUrlErrorView::Parse { input: input@ },
            RpcUrlError::UnsupportedScheme { scheme } => RpcUrlErrorView::UnsupportedScheme {
                scheme: scheme@,
            },
            RpcUrlError::Credentials => RpcUrlErrorView::Credentials,
            RpcUrlError::MissingHost => RpcUrlErrorView::MissingHost,
            RpcUrlError::HostNotAllowed { host } => RpcUrlErrorView::HostNotAllowed { host: host@ },
            RpcUrlError::IpNotAllowed { ip } => RpcUrlErrorView::IpNotAllowed { ip: ip@ },
            RpcUrlError::Ipv6NotAllowed { host } => RpcUrlErrorView::Ipv6NotAllowed { host: host@ },
            RpcUrlError::MissingPort => RpcUrlErrorView::MissingPort,
            RpcUrlError::NotInAllowlist { host } => RpcUrlErrorView::NotInAllowlist { host: host@ },
        }
    }
}

/// Dotted-decimal text of IPv4 octets.
pub open spec fn dotted_quad(o: Seq<u8>) -> Seq<char> {
    decimal(o[0] as nat) + seq!['.'] + decimal(o[1] as nat) + seq!['.'] + decimal(o[2] as nat)
        + seq!['.'] + decimal(o[3] as nat)
}

/// The text of an error, as a person reads it.
pub open spec fn error_message(e: RpcUrlErrorView) -> Seq<char> {
    match e {
        RpcUrlErrorView::Parse { input } => "parsing RPC URL: "@ + input,
        RpcUrlErrorView::UnsupportedScheme { scheme } => "unsupported RPC URL scheme: "@ + scheme,
        RpcUrlErrorView::Credentials => "RPC URL must not include username/password"@,
        RpcUrlErrorView::MissingHost => "RPC URL missing host"@,
        RpcUrlErrorView::HostNotAllowed { host } => "RPC URL host is not allowed: "@ + host,
        RpcUrlErrorView::IpNotAllowed { ip } => "RPC URL IP is not allowed: "@ + dotted_quad(ip),
        RpcUrlErrorView::Ipv6NotAllowed { host } => "RPC URL IP is not allowed: "@ + host,
        RpcUrlErrorView::MissingPort => "RPC URL missing port"@,
        RpcUrlErrorView::NotInAllowlist { host } => "RPC URL host is not in allowlist: "@ + host,
    }
}

impl RpcUrlError {
    /// The text of the error.
    pub fn message(&self) -> (r: String)
        ensures
            r@ == error_message(self@),
    {
        match self {
            RpcUrlError::Parse { input } => {
                let mut r = String::from_str("parsing RPC URL: ");
                push_str(&mut r, input.as_str());
                r
            },
            RpcUrlError::UnsupportedScheme { scheme } => {
                let mut r = String::from_str("unsupported RPC URL scheme: ");
                push_str(&mut r, scheme.as_str());
                r
            },
            RpcUrlError::Credentials => String::from_str("RPC URL must not include username/password"),
            RpcUrlError::MissingHost => String::from_str("RPC URL missing host"),
            RpcUrlError::HostNotAllowed { host } => {
                let mut r = String::from_str("RPC URL host is not allowed: ");
                push_str(&mut r, host.as_str());
                r
            },
            RpcUrlError::IpNotAllowed { ip } => {
                let mut r = String::from_str("RPC URL IP is not allowed: ");
                let ghost start = r@;
                push_decimal(&mut r, ip[0] as u64);
                push_char(&mut r, '.');
                push_decimal(&mut r, ip[1] as u64);
                push_char(&mut r, '.');
                push_decimal(&mut r, ip[2] as u64);
                push_char(&mut r, '.');
                push_decimal(&mut r, ip[3] as u64);
                proof {
                    assert(r@ =~= start + dotted_quad(ip@));
                }
                r
            },
            RpcUrlError::Ipv6NotAllowed { host } => {
                let mut r = String::from_str("RPC URL IP is not allowed: ");
                push_str(&mut r, host.as_str());
                r
            },
            RpcUrlError::MissingPort => String::from_str("RPC URL missing port"),
            RpcUrlError::NotInAllowlist { host } => {
                let mut r = String::from_str("RPC URL host is not in allowlist: ");
                push_str(&mut r, host.as_str());
                r
            },
        }
    }
}

/// The verdict on the parts of a parsed URL, given the allowlist in force:
/// the first check that fails, in this order, or `None` when all pass.
pub open spec fn url_refusal(u: UrlPartsView, allowlist: Option<Seq<Seq<char>>>) -> Option<
    RpcUrlErrorView,
> {
    if !(u.scheme == "http"@ || u.scheme == "https"@) {
        Some(RpcUrlErrorView::UnsupportedScheme { scheme: u.scheme })
    } else if u.username.len() != 0 || u.password is Some {
        Some(RpcUrlErrorView::Credentials)
    } else if u.host is None {
        Some(RpcUrlErrorView::MissingHost)
    } else if blocked_hostname(u.host->0) {
        Some(RpcUrlErrorView::HostNotAllowed { host: u.host->0 })
    } else if u.host_ipv4 matches Some(o) && blocked_ipv4(o) {
        Some(RpcUrlErrorView::IpNotAllowed { ip: u.host_ipv4->0 })
    } else if u.host_ipv6 matches Some(sg) && blocked_ipv6(sg) {
        Some(RpcUrlErrorView::Ipv6NotAllowed { host: u.host->0 })
    } else if allowlist is Some && u.port is None {
        Some(RpcUrlErrorView::MissingPort)
    } else if allowlist matches Some(list) && !allowlist_admits(list, u.host->0, u.port->0) {
        Some(RpcUrlErrorView::NotInAllowlist { host: u.host->0 })
    } else {
        None
    }
}

/// Applies the checks to the parts of a parsed URL; the parts come back
/// unchanged when every check passes.
pub fn check_rpc_url(url: UrlParts, allowlist: Option<Vec<String>>) -> (r: Result<
    UrlParts,
    RpcUrlError,
>)
    ensures
        match url_refusal(url@, opt_strings_of(allowlist)) {
            None => r matches Ok(u) && u@ == url@,
            Some(e) => r matches Err(x) && x@ == e,
        },
{
    let http = str_eq(url.scheme.as_str(), "http");
    let https = str_eq(url.scheme.as_str(), "https");
    if !(http || https) {
        return Err(RpcUrlError::UnsupportedScheme { scheme: url.scheme.clone() });
    }
    if url.username.as_str().unicode_len() != 0 || url.password.is_some() {
        return Err(RpcUrlError::Credentials);
    }
    let host = match &url.host {
        Some(h) => h.clone(),
        None => return Err(RpcUrlError::MissingHost),
    };
    if is_blocked_hostname(host.as_str()) {
        return Err(RpcUrlError::HostNotAllowed { host });
    }
    if let Some(o) = url.host_ipv4 {
        if is_blocked_ip(IpAddress::V4(o)) {
            return Err(RpcUrlError::IpNotAllowed { ip: o });
        }
    }
    if let Some(sg) = url.host_ipv6 {
        if is_blocked_ip(IpAddress::V6(sg)) {
            return Err(RpcUrlError::Ipv6NotAllowed { host });
        }
    }
    if let Some(list) = &allowlist {
        let port = match url.port {
            Some(p) => p,
            None => return Err(RpcUrlError::MissingPort),
        };
        if !allowlist_matches(list, host.as_str(), port) {
            return Err(RpcUrlError::NotInAllowlist { host });
        }
    }
    Ok(url)
}

/// The verdict on an RPC URL text, given the value of the allowlist setting.
pub open spec fn rpc_url_verdict(input: Seq<char>, allowlist_raw: Option<Seq<char>>) -> Result<
    UrlPartsView,
    RpcUrlErrorView,
> {
    match parsed_url(input) {
        None => Err(RpcUrlErrorView::Parse { input }),
        Some(u) => match url_refusal(u, allowlist_of(allowlist_raw)) {
            None => Ok(u),
            Some(e) => Err(e),
        },
    }
}

/// Parses and checks an RPC URL; `allowlist_raw` is the value of the
/// allowlist setting, if any.
pub fn validate_rpc_url(rpc_url: &str, allowlist_raw: Option<&str>) -> (r: Result<
    UrlParts,
    RpcUrlError,
>)
    ensures
        match rpc_url_verdict(
            rpc_url@,
            match allowlist_raw {
                Some(s) => Some(s@),
                None => None,
            },
        ) {
            Ok(u) => r matches Ok(x) && x@ == u,
            Err(e) => r matches Err(x) && x@ == e,
        },
{
    let parts = match parse_url(rpc_url) {
        Some(p) => p,
        None => return Err(RpcUrlError::Parse { input: String::from_str(rpc_url) }),
    };
    let allowlist = parse_allowlist_env(allowlist_raw);
    check_rpc_url(parts, allowlist)
}

proof fn lemma_lowercase_idempotent(s: Seq<char>)
    ensures
        lowercase_spec(lowercase_spec(s)) == lowercase_spec(s),
{
    assert(lowercase_spec(lowercase_spec(s)) =~= lowercase_spec(s));
}

/// With no allowlist, an http(s) URL without credentials whose host is no
/// local host name and is an IPv4 address outside the refused ranges
/// (10/8, 172.16/12, 192.168/16, 127/8, 169.254/16, 224/4, 0.0.0.0 and
/// 255.255.255.255) is accepted; one whose IPv4 address lies in them is
/// refused with that address.
pub proof fn lemma_ipv4_host_verdict(u: UrlPartsView)
    requires
        u.scheme == "http"@ || u.scheme == "https"@,
        u.username.len() == 0,
        u.password is None,
        u.host matches Some(h) && !blocked_hostname(h),
        u.host_ipv4 matches Some(o) && o.len() == 4,
        u.host_ipv6 is None,
    ensures
        ({
            let o = u.host_ipv4->0;
            let refused_range = o[0] == 10 || (o[0] == 172 && 16 <= o[1] && o[1] <= 31) || (o[0]
                == 192 && o[1] == 168) || o[0] == 127 || (o[0] == 169 && o[1] == 254) || (224
                <= o[0] && o[0] <= 239) || (o[0] == 0 && o[1] == 0 && o[2] == 0 && o[3] == 0) || (
            o[0] == 255 && o[1] == 255 && o[2] == 255 && o[3] == 255);
            &&& !refused_range ==> url_refusal(u, None) is None
            &&& refused_range ==> url_refusal(u, None) == Some(
                RpcUrlErrorView::IpNotAllowed { ip: o },
            )
        }),
{
}

/// Host names are compared without regard to ASCII case: by the local-name
/// check and by the allowlist.
pub proof fn lemma_host_checks_ignore_case(host: Seq<char>, allowlist: Seq<Seq<char>>, port: u16)
    ensures
        blocked_hostname(lowercase_spec(host)) == blocked_hostname(host),
        allowlist_admits(allowlist, lowercase_spec(host), port) == allowlist_admits(allowlist, host, port),
{
    lemma_lowercase_idempotent(host);
    assert(host_port(lowercase_spec(host), port) == host_port(host, port));
}

proof fn lemma_entries_normalized(pieces: Seq<Seq<char>>)
    ensures
        forall|i: int|
            0 <= i < allowlist_entries(pieces).len() ==> (#[trigger] allowlist_entries(pieces)[i]).len()
                > 0 && lowercase_spec(allowlist_entries(pieces)[i]) == allowlist_entries(pieces)[i],
    decreases pieces.len(),
{
    if pieces.len() > 0 {
        let rest = allowlist_entries(pieces.drop_last());
        lemma_entries_normalized(pieces.drop_last());
        let t = trim_spec(pieces.last());
        lemma_lowercase_idempotent(t);
        let e = allowlist_entries(pieces);
        assert forall|i: int| 0 <= i < e.len() implies (#[trigger] e[i]).len() > 0 && lowercase_spec(
            e[i],
        ) == e[i] by {
            if i < rest.len() {
                assert(e[i] == rest[i]);
            } else {
                assert(e[i] == lowercase_spec(t));
                assert(lowercase_spec(t).len() == t.len());
            }
        }
    }
}

/// Every allowlist entry is non-empty and in lower case.
pub proof fn lemma_allowlist_normalized(raw: Seq<char>)
    ensures
        allowlist_of(Some(raw)) matches Some(e) ==> e.len() > 0 && forall|i: int|
            0 <= i < e.len() ==> (#[trigger] e[i]).len() > 0 && lowercase_spec(e[i]) == e[i],
{
    lemma_entries_normalized(split_commas(raw));
}

/// A URL that passes is an http(s) URL without credentials, with a host that
/// is no local name and no refused IP address, and admitted by the
/// allowlist when one is set.
pub proof fn lemma_accepted_url(input: Seq<char>, allowlist_raw: Option<Seq<char>>)
    requires
        rpc_url_verdict(input, allowlist_raw) is Ok,
    ensures
        ({
            let u = rpc_url_verdict(input, allowlist_raw)->Ok_0;
            &&& parsed_url(input) == Some(u)
            &&& u.scheme == "http"@ || u.scheme == "https"@
            &&& u.username.len() == 0 && u.password is None
            &&& u.host matches Some(h) && !blocked_hostname(h)
            &&& u.host_ipv4 matches Some(o) ==> !blocked_ipv4(o)
            &&& u.host_ipv6 matches Some(sg) ==> !blocked_ipv6(sg)
            &&& allowlist_of(allowlist_raw) matches Some(list) ==> u.port is Some
                && allowlist_admits(list, u.host->0, u.port->0)
        }),
{
}

} // verus!
