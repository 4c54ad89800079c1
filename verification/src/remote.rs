//! The remote-control API: server settings, pairing tokens, request parsing and
//! the small records the API exchanges.
use crate::text::{
    append_chars, append_str, chars_of, decimal, decimal_chars, eq_ignore_ascii_case,
    find_char, find_char_index, has_prefix, is_digit, is_word, is_word_ignoring_ascii_case,
    parse_unsigned, parse_unsigned_range, same_chars, slice_of, split_on, split_ranges,
    starts_with, string_of, trim, trim_range,
    zero_padded, zero_padded_chars,
};
use crate::timer::{timer_display, timer_phase, timer_phase_name, warning_sum_fits, TimerPhase, TimerState, MAX_DURATION_NANOS};
use crate::navigation::SlideNavigation;
use crate::order::{buffer_views, lex_leq, sort_buffers};
use vstd::prelude::*;

verus! {

/// Remote API configuration.
#[derive(Debug, Clone)]
pub struct RemoteConfig {
    pub enabled: bool,
    pub host: String,
    pub port: u16,
    /// The access token; empty means a pairing code is generated at start.
    pub token: String,
    pub allow_unauthenticated_loopback: bool,
}

/// CLI-friendly remote endpoint selection.
#[derive(Debug, Clone)]
pub struct RemoteEndpoint {
    pub host: String,
    pub port: u16,
    pub token: Option<String>,
}

impl Default for RemoteEndpoint {
    fn default() -> (r: Self)
        ensures
            r.host@ == "127.0.0.1"@,
            r.port == 4317,
            r.token is None,
    {
        RemoteEndpoint { host: "127.0.0.1".to_owned(), port: 4317, token: None }
    }
}

/// Runtime override values supplied by CLI flags.
#[derive(Debug, Clone)]
pub struct RemoteOverrides {
    pub enabled: bool,
    pub host: Option<String>,
    pub port: Option<u16>,
}

impl Default for RemoteOverrides {
    fn default() -> (r: Self)
        ensures
            !r.enabled,
            r.host is None,
            r.port is None,
    {
        RemoteOverrides { enabled: false, host: None, port: None }
    }
}

/// Effective server settings after config and CLI overrides.
#[derive(Debug, Clone)]
pub struct ServerSettings {
    pub enabled: bool,
    pub host: String,
    pub port: u16,
    pub token: String,
    pub generated_token: bool,
    pub allow_unauthenticated_loopback: bool,
}

/// Why the remote server refuses its token.
#[derive(Debug, Clone, Copy, PartialEq, Eq, Structural)]
pub enum TokenError {
    /// A generated pairing code that is not one.
    InvalidPairingCode,
    /// A configured token with characters other than ASCII letters and digits.
    InvalidCustomToken,
}

impl TokenError {
    /// The error message.
    pub fn message(&self) -> (r: &'static str)
        ensures
            r@ == match self {
                TokenError::InvalidPairingCode => "generated remote API pairing code is invalid"@,
                TokenError::InvalidCustomToken =>
                    "configured remote API token may only contain ASCII letters and digits"@,
            },
    {
        match self {
            TokenError::InvalidPairingCode => "generated remote API pairing code is invalid",
            TokenError::InvalidCustomToken =>
                "configured remote API token may only contain ASCII letters and digits",
        }
    }
}

/// Checks the token before the remote server starts: a generated token must be
/// a pairing code, a configured one only ASCII letters and digits.
pub fn check_server_token(settings: &ServerSettings) -> (r: Result<(), TokenError>)
    ensures
        settings.generated_token ==> (r is Ok <==> is_pairing_code(settings.token@)) && (r is Err
            ==> r == Err::<(), TokenError>(TokenError::InvalidPairingCode)),
        !settings.generated_token ==> (r is Ok <==> valid_custom_token(settings.token@)) && (r is Err
            ==> r == Err::<(), TokenError>(TokenError::InvalidCustomToken)),
{
    if settings.generated_token {
        if !generated_pairing_code_is_valid(settings.token.as_str()) {
            return Err(TokenError::InvalidPairingCode);
        }
    } else if !custom_token_is_valid(settings.token.as_str()) {
        return Err(TokenError::InvalidCustomToken);
    }
    Ok(())
}

/// `http://host:port/remote`.
pub open spec fn remote_url(host: Seq<char>, port: u16) -> Seq<char> {
    "http://"@ + host + ":"@ + decimal(port as nat) + "/remote"@
}

/// The addresses a server bound to `addr` can be reached at, before sorting: on
/// an unspecified address the loopback one and the LAN one; otherwise the bound
/// address itself, and the LAN one too unless it is a loopback address.
pub open spec fn url_candidates(
    addr: Seq<char>,
    port: u16,
    loopback: bool,
    unspecified: bool,
    lan_ip: Option<Seq<char>>,
) -> Seq<Seq<char>> {
    let lan = match lan_ip {
        Some(ip) => seq![remote_url(ip, port)],
        None => seq![],
    };
    if unspecified {
        seq![remote_url("127.0.0.1"@, port)] + lan
    } else if loopback {
        seq!["http://"@ + addr + "/remote"@]
    } else {
        seq!["http://"@ + addr + "/remote"@] + lan
    }
}

/// `s` without repeats of the same text in a row.
pub open spec fn dedup_runs(s: Seq<Seq<char>>) -> Seq<Seq<char>>
    decreases s.len(),
{
    if s.len() == 0 {
        s
    } else {
        let d = dedup_runs(s.drop_last());
        if d.len() > 0 && d.last() == s.last() {
            d
        } else {
            d.push(s.last())
        }
    }
}

/// `http://host:port/remote` as characters.
fn remote_url_chars(host: &Vec<char>, port: u16) -> (r: Vec<char>)
    ensures
        r@ == remote_url(host@, port),
{
    let mut out: Vec<char> = Vec::new();
    append_str(&mut out, "http://");
    append_chars(&mut out, host);
    append_str(&mut out, ":");
    let p = decimal_chars(port as u64);
    append_chars(&mut out, &p);
    append_str(&mut out, "/remote");
    out
}

/// The URLs the remote control page is served at, sorted and without repeats.
/// `addr` is the bound socket address as text, `lan_ip` the address the machine
/// has on the local network, if one was found.
pub fn remote_urls(
    addr: &str,
    port: u16,
    loopback: bool,
    unspecified: bool,
    lan_ip: Option<&str>,
) -> (r: Vec<String>)
    ensures
        r@.map_values(|u: String| u@) == dedup_runs(
            url_candidates(
                addr@,
                port,
                loopback,
                unspecified,
                match lan_ip {
                    Some(ip) => Some(ip@),
                    None => None,
                },
            ).sort_by(lex_leq()),
        ),
{
    let ghost lan_view: Option<Seq<char>> = match lan_ip {
        Some(ip) => Some(ip@),
        None => None,
    };
    let mut urls: Vec<Vec<char>> = Vec::new();
    if unspecified {
        urls.push(remote_url_chars(&chars_of("127.0.0.1"), port));
    } else {
        let mut own: Vec<char> = Vec::new();
        append_str(&mut own, "http://");
        append_str(&mut own, addr);
        append_str(&mut own, "/remote");
        urls.push(own);
    }
    if unspecified || !loopback {
        match lan_ip {
            Some(ip) => {
                urls.push(remote_url_chars(&chars_of(ip), port));
            },
            None => {},
        }
    }
    assert(buffer_views(urls@) =~= url_candidates(addr@, port, loopback, unspecified, lan_view));
    let sorted = sort_buffers(urls);
    let ghost sv = buffer_views(sorted@);
    let mut out: Vec<String> = Vec::new();
    let mut last: Option<Vec<char>> = None;
    let mut i: usize = 0;
    while i < sorted.len()
        invariant
            i <= sorted@.len(),
            sv == buffer_views(sorted@),
            out@.map_values(|u: String| u@) == dedup_runs(sv.take(i as int)),
            match last {
                Some(l) => out@.len() > 0 && l@ == out@.last()@,
                None => out@.len() == 0,
            },
        decreases sorted@.len() - i,
    {
        let cur = &sorted[i];
        let repeat = match &last {
            Some(l) => same_chars(l, cur),
            None => false,
        };
        proof {
            assert(sv.take(i + 1).drop_last() =~= sv.take(i as int));
            assert(sv.take(i + 1).last() == cur@);
        }
        if !repeat {
            let ghost before = out@;
            out.push(string_of(cur));
            let copy = slice_of(cur, 0, cur.len());
            assert(copy@ =~= cur@);
            last = Some(copy);
            proof {
                assert(out@.map_values(|u: String| u@) =~= before.map_values(|u: String| u@).push(
                    cur@,
                ));
            }
        }
        i += 1;
    }
    assert(sv.take(sorted@.len() as int) =~= sv);
    out
}

/// What the standard library's address parser reports of an IP address.
#[derive(Debug)]
pub struct IpFacts {
    /// The address's bytes (four for IPv4, sixteen for IPv6).
    pub octets: Vec<u8>,
    /// It is a loopback address.
    pub is_loopback: bool,
    /// It is the unspecified (wildcard) address.
    pub is_unspecified: bool,
}

/// Whether a request's host name may reach a server bound to `bind_ip`:
/// `localhost`, any loopback address, the bound address itself, or any address
/// when the server is bound to the wildcard address. `name_ip` and `bind_ip` are
/// the parsed host name and bind host, where they parse as addresses.
pub open spec fn host_name_ok(name: Seq<char>, name_ip: Option<IpFacts>, bind_ip: Option<IpFacts>) -> bool {
    if eq_ignore_ascii_case(name, "localhost"@) {
        true
    } else {
        match name_ip {
            None => false,
            Some(h) => h.is_loopback || match bind_ip {
                None => false,
                Some(b) => h.octets@ == b.octets@ || b.is_unspecified,
            },
        }
    }
}

/// Whether two byte lists are equal.
fn same_bytes(a: &Vec<u8>, b: &Vec<u8>) -> (r: bool)
    ensures
        r == (a@ == b@),
{
    if a.len() != b.len() {
        return false;
    }
    let mut i: usize = 0;
    while i < a.len()
        invariant
            a@.len() == b@.len(),
            i <= a@.len(),
            forall|k: int| 0 <= k < i ==> a@[k] == b@[k],
        decreases a@.len() - i,
    {
        if a[i] != b[i] {
            return false;
        }
        i += 1;
    }
    assert(a@ =~= b@);
    true
}

/// Whether a request's host name is allowed (see `host_name_ok`).
pub fn host_name_allowed(name: &str, name_ip: &Option<IpFacts>, bind_ip: &Option<IpFacts>) -> (r: bool)
    ensures
        r == host_name_ok(name@, *name_ip, *bind_ip),
{
    if is_word_ignoring_ascii_case(&chars_of(name), "localhost") {
        return true;
    }
    match name_ip {
        None => false,
        Some(h) => {
            if h.is_loopback {
                return true;
            }
            match bind_ip {
                None => false,
                Some(b) => same_bytes(&h.octets, &b.octets) || b.is_unspecified,
            }
        },
    }
}

/// The host name of a `Host` header to check further: present only when the
/// header names a host and the server's port.
pub fn host_header_name(host: Option<&str>, port: u16) -> (r: Option<String>)
    ensures
        match r {
            Some(name) => host matches Some(h) && host_port(h@) == Some((name@, port)),
            None => !(host matches Some(h) && host_port(h@) matches Some(hp) && hp.1 == port),
        },
{
    match host {
        None => None,
        Some(h) => match split_host_port(h) {
            Some((name, p)) => if p == port {
                Some(name)
            } else {
                None
            },
            None => None,
        },
    }
}

/// The pages a remote client fetches ahead: the current page, and the first page
/// of the next logical slide when there is one.
pub open spec fn pages_to_preload(nav: SlideNavigation) -> Seq<usize> {
    let next = nav.current_logical_slide + 1;
    if nav.current_logical_slide < usize::MAX && next < nav.slide_groups@.len()
        && nav.slide_groups@[next].pages@.len() > 0 {
        seq![nav.current_page, nav.slide_groups@[next].pages@[0]]
    } else {
        seq![nav.current_page]
    }
}

/// The pages to render ahead of a remote client's next request.
pub fn preloaded_pages(nav: &SlideNavigation) -> (r: Vec<usize>)
    ensures
        r@ == pages_to_preload(*nav),
{
    let mut pages: Vec<usize> = Vec::new();
    pages.push(nav.current_page);
    let next = nav.current_logical_slide.saturating_add(1);
    if nav.current_logical_slide < usize::MAX && next < nav.slide_groups.len()
        && nav.slide_groups[next].pages.len() > 0 {
        pages.push(nav.slide_groups[next].pages[0]);
    }
    pages
}

/// The timer as the remote API reports it.
#[derive(Debug, Clone, PartialEq)]
pub struct RemoteTimerState {
    pub running: bool,
    pub elapsed_seconds: u64,
    pub display_seconds: u64,
    pub phase: String,
}

/// Counters of the remote API.
#[derive(Debug, Clone, PartialEq, Eq)]
pub struct RemoteStatus {
    pub active_event_clients: usize,
    pub last_command: Option<String>,
}

/// The answer to a remote command.
#[derive(Debug, Clone, PartialEq, Eq)]
pub struct CommandResponse {
    pub ok: bool,
    pub message: String,
}

/// Drawing tools the remote can select.
#[derive(Debug, Clone, Copy, PartialEq, Eq, Structural)]
pub enum DrawTool {
    Pen,
    Highlighter,
    Eraser,
}

// ---------------------------------------------------------------------------
// Pairing tokens
// ---------------------------------------------------------------------------

/// Whether `c` is an ASCII letter or digit.
pub open spec fn is_ascii_alnum(c: char) -> bool {
    ('0' <= c <= '9') || ('a' <= c <= 'z') || ('A' <= c <= 'Z')
}

/// A configured token: non-empty, ASCII letters and digits only.
pub open spec fn valid_custom_token(t: Seq<char>) -> bool {
    t.len() > 0 && forall|i: int| 0 <= i < t.len() ==> is_ascii_alnum(#[trigger] t[i])
}

/// A pairing code: four digits, `-`, four digits.
pub open spec fn is_pairing_code(t: Seq<char>) -> bool {
    &&& t.len() == 9
    &&& t[4] == '-'
    &&& forall|i: int| 0 <= i < 9 && i != 4 ==> is_digit(#[trigger] t[i])
}

/// The pairing code of a number below 100 000 000: its upper and lower four
/// decimal digits, zero-padded, joined by `-`.
pub open spec fn pairing_code(code: nat) -> Seq<char> {
    zero_padded(code / 10_000, 4) + seq!['-'] + zero_padded(code % 10_000, 4)
}

/// Whether a configured token is acceptable.
pub fn custom_token_is_valid(token: &str) -> (r: bool)
    ensures
        r == valid_custom_token(token@),
{
    let chars = chars_of(token);
    if chars.len() == 0 {
        return false;
    }
    let mut i: usize = 0;
    while i < chars.len()
        invariant
            i <= chars@.len(),
            chars@ == token@,
            forall|j: int| 0 <= j < i ==> is_ascii_alnum(#[trigger] chars@[j]),
        decreases chars@.len() - i,
    {
        let c = chars[i];
        if !(('0' <= c && c <= '9') || ('a' <= c && c <= 'z') || ('A' <= c && c <= 'Z')) {
            return false;
        }
        i += 1;
    }
    true
}

/// Whether a token has the shape of a generated pairing code.
pub fn generated_pairing_code_is_valid(token: &str) -> (r: bool)
    ensures
        r == is_pairing_code(token@),
{
    let chars = chars_of(token);
    if chars.len() != 9 || chars[4] != '-' {
        return false;
    }
    let mut i: usize = 0;
    while i < 9
        invariant
            i <= 9,
            chars@.len() == 9,
            chars@ == token@,
            forall|j: int| 0 <= j < i && j != 4 ==> is_digit(#[trigger] chars@[j]),
        decreases 9 - i,
    {
        if i != 4 && !('0' <= chars[i] && chars[i] <= '9') {
            return false;
        }
        i += 1;
    }
    true
}

/// `fastrand::u32(0..bound)`: a random number below `bound`.
#[verifier::external_body]
fn random_below(bound: u32) -> (r: u32)
    requires
        bound > 0,
    ensures
        r < bound,
{
    fastrand::u32(0..bound)
}

/// The pairing code of `code` (see `pairing_code`).
pub fn pairing_code_text(code: u32) -> (r: String)
    requires
        code < 100_000_000,
    ensures
        r@ == pairing_code(code as nat),
{
    let mut out = zero_padded_chars((code / 10_000) as u64, 4);
    out.push('-');
    let low = zero_padded_chars((code % 10_000) as u64, 4);
    append_chars(&mut out, &low);
    string_of(&out)
}

/// A fresh random pairing code.
pub fn generate_token() -> (r: String)
    ensures
        exists|code: nat| code < 100_000_000 && r@ == pairing_code(code),
        is_pairing_code(r@),
{
    let code = random_below(100_000_000);
    proof {
        law_pairing_codes_are_valid(code as nat);
    }
    pairing_code_text(code)
}

/// The decimal digits of a number below 10 000 are at most four digits.
proof fn lemma_decimal_small(n: nat)
    requires
        n < 10_000,
    ensures
        decimal(n).len() <= 4,
        forall|i: int| 0 <= i < decimal(n).len() ==> is_digit(#[trigger] decimal(n)[i]),
{
    reveal_with_fuel(decimal, 5);
    let d0 = decimal(n);
    if n >= 10 {
        let d1 = decimal(n / 10);
        if n / 10 >= 10 {
            let d2 = decimal(n / 100);
            assert(n / 10 / 10 == n / 100);
            if n / 100 >= 10 {
                assert(n / 100 / 10 == n / 1000);
                assert(d2 == decimal(n / 1000).push(crate::text::digit_char((n / 100) % 10)));
            }
        }
    }
}

/// The zero-padded digits of a number below 10 000 are four digits.
proof fn lemma_zero_padded_four(n: nat)
    requires
        n < 10_000,
    ensures
        zero_padded(n, 4).len() == 4,
        forall|i: int| 0 <= i < 4 ==> is_digit(#[trigger] zero_padded(n, 4)[i]),
{
    lemma_decimal_small(n);
    let d = decimal(n);
    let z = zero_padded(n, 4);
    if d.len() < 4 {
        let pad = Seq::new((4 - d.len()) as nat, |i: int| '0');
        assert(z == pad + d);
        assert forall|i: int| 0 <= i < 4 implies is_digit(#[trigger] z[i]) by {
            if i < pad.len() {
                assert(z[i] == '0');
            } else {
                assert(z[i] == d[i - pad.len()]);
            }
        }
    }
}

/// Every generated pairing code is accepted as a pairing code.
pub proof fn law_pairing_codes_are_valid(code: nat)
    requires
        code < 100_000_000,
    ensures
        is_pairing_code(pairing_code(code)),
{
    lemma_zero_padded_four(code / 10_000);
    lemma_zero_padded_four(code % 10_000);
    let t = pairing_code(code);
    let hi = zero_padded(code / 10_000, 4);
    let lo = zero_padded(code % 10_000, 4);
    assert forall|i: int| 0 <= i < 9 && i != 4 implies is_digit(#[trigger] t[i]) by {
        if i < 4 {
            assert(t[i] == hi[i]);
        } else {
            assert(t[i] == lo[i - 5]);
        }
    }
}

impl ServerSettings {
    /// The settings of the config with the CLI overrides applied; an empty
    /// configured token means a fresh pairing code.
    pub fn from_config(config: &RemoteConfig, overrides: &RemoteOverrides) -> (r: Self)
        ensures
            r.enabled == (overrides.enabled || config.enabled),
            r.host@ == match overrides.host {
                Some(h) => h@,
                None => config.host@,
            },
            r.port == match overrides.port {
                Some(p) => p,
                None => config.port,
            },
            r.generated_token == (config.token@.len() == 0),
            r.generated_token ==> is_pairing_code(r.token@),
            !r.generated_token ==> r.token@ == config.token@,
            r.allow_unauthenticated_loopback == config.allow_unauthenticated_loopback,
    {
        let host = match &overrides.host {
            Some(h) => h.clone(),
            None => config.host.clone(),
        };
        let port = match overrides.port {
            Some(p) => p,
            None => config.port,
        };
        let enabled = overrides.enabled || config.enabled;
        let generated_token = config.token.as_str().is_empty();
        let token = if generated_token {
            generate_token()
        } else {
            config.token.clone()
        };
        ServerSettings {
            enabled,
            host,
            port,
            token,
            generated_token,
            allow_unauthenticated_loopback: config.allow_unauthenticated_loopback,
        }
    }
}

// ---------------------------------------------------------------------------
// Requests
// ---------------------------------------------------------------------------

/// The value of the first `key=value` part of a query whose key is `token`;
/// parts without `=` are skipped, and a part splits at its first `=`.
pub open spec fn token_in_parts(parts: Seq<Seq<char>>) -> Option<Seq<char>>
    decreases parts.len(),
{
    if parts.len() == 0 {
        None
    } else {
        let p = parts[0];
        match find_char(p, '=') {
            Some(i) => if p.take(i) == "token"@ {
                Some(p.skip(i + 1))
            } else {
                token_in_parts(parts.drop_first())
            },
            None => token_in_parts(parts.drop_first()),
        }
    }
}

/// The `token` parameter of a query string.
pub open spec fn query_token_of(query: Option<Seq<char>>) -> Option<Seq<char>> {
    match query {
        Some(q) => token_in_parts(split_on(q, '&')),
        None => None,
    }
}

/// The characters of an optional string.
pub open spec fn str_view(s: Option<&str>) -> Option<Seq<char>> {
    match s {
        Some(t) => Some(t@),
        None => None,
    }
}

/// The `token` parameter of a request's query string, if any.
pub fn query_token(query: Option<&str>) -> (r: Option<String>)
    ensures
        match r {
            Some(t) => query_token_of(str_view(query)) == Some(t@),
            None => query_token_of(str_view(query)) is None,
        },
{
    let q = match query {
        Some(q) => q,
        None => {
            return None;
        },
    };
    let chars = chars_of(q);
    let parts = split_ranges(&chars, 0, chars.len(), '&');
    assert(chars@.subrange(0, chars@.len() as int) =~= chars@);
    let ghost all = split_on(chars@, '&');
    assert(all.skip(0) =~= all);
    let mut k: usize = 0;
    while k < parts.len()
        invariant
            k <= parts@.len(),
            parts@.len() == all.len(),
            all == split_on(chars@, '&'),
            chars@ == q@,
            query == Some(q),
            forall|j: int|
                0 <= j < parts@.len() ==> (#[trigger] parts@[j]).0 <= parts@[j].1 <= chars@.len()
                    && chars@.subrange(parts@[j].0 as int, parts@[j].1 as int) == all[j],
            token_in_parts(all) == token_in_parts(all.skip(k as int)),
        decreases parts@.len() - k,
    {
        let (a, b) = parts[k];
        let part = slice_of(&chars, a, b);
        let ghost rest = all.skip(k as int);
        assert(rest[0] == part@);
        assert(rest.drop_first() =~= all.skip(k + 1));
        match find_char_index(&part, '=') {
            Some(i) => {
                let key = slice_of(&part, 0, i);
                assert(key@ =~= part@.take(i as int));
                if is_word(&key, "token") {
                    let value = slice_of(&part, i + 1, part.len());
                    assert(value@ =~= part@.skip(i + 1));
                    assert(token_in_parts(rest) == Some(value@));
                    return Some(string_of(&value));
                }
            },
            None => {},
        }
        k += 1;
    }
    assert(all.skip(parts@.len() as int) =~= Seq::<Seq<char>>::empty());
    None
}

/// The last index of `c` in `s`, if any.
pub open spec fn rfind_char(s: Seq<char>, c: char) -> Option<int>
    decreases s.len(),
{
    if s.len() == 0 {
        None
    } else if s.last() == c {
        Some(s.len() - 1)
    } else {
        rfind_char(s.drop_last(), c)
    }
}

/// Whether `c` is a square bracket.
pub open spec fn is_bracket(c: char) -> bool {
    c == '[' || c == ']'
}

/// `s` without leading and trailing square brackets.
pub open spec fn trim_brackets(s: Seq<char>) -> Seq<char>
    decreases s.len(),
{
    if s.len() > 0 && is_bracket(s[0]) {
        trim_brackets(s.drop_first())
    } else if s.len() > 0 && is_bracket(s.last()) {
        trim_brackets(s.drop_last())
    } else {
        s
    }
}

/// The host name and port of a `Host` header value: split at the last `:`, the
/// name stripped of brackets, the port a decimal `u16`.
pub open spec fn host_port(s: Seq<char>) -> Option<(Seq<char>, u16)> {
    let h = trim(s);
    match rfind_char(h, ':') {
        None => None,
        Some(i) => match parse_unsigned(h.skip(i + 1), 65535) {
            None => None,
            Some(p) => Some((trim_brackets(h.take(i)), p as u16)),
        },
    }
}

/// The bounds of `s[lo..hi]` without leading and trailing brackets.
fn trim_bracket_range(s: &Vec<char>, lo: usize, hi: usize) -> (r: (usize, usize))
    requires
        lo <= hi <= s@.len(),
    ensures
        lo <= r.0 <= r.1 <= hi,
        s@.subrange(r.0 as int, r.1 as int) == trim_brackets(s@.subrange(lo as int, hi as int)),
    decreases hi - lo,
{
    if lo < hi && (s[lo] == '[' || s[lo] == ']') {
        assert(s@.subrange(lo as int, hi as int).drop_first() =~= s@.subrange(lo + 1, hi as int));
        trim_bracket_range(s, lo + 1, hi)
    } else if lo < hi && (s[hi - 1] == '[' || s[hi - 1] == ']') {
        assert(s@.subrange(lo as int, hi as int).drop_last() =~= s@.subrange(lo as int, hi - 1));
        trim_bracket_range(s, lo, hi - 1)
    } else {
        (lo, hi)
    }
}

/// The position of the last `c` in `s[lo..hi]`, counted from `lo`.
fn last_index_of(s: &Vec<char>, lo: usize, hi: usize, c: char) -> (r: Option<usize>)
    requires
        lo <= hi <= s@.len(),
    ensures
        match r {
            Some(i) => lo <= i < hi && rfind_char(s@.subrange(lo as int, hi as int), c) == Some(
                i - lo,
            ),
            None => rfind_char(s@.subrange(lo as int, hi as int), c) is None,
        },
{
    let mut k = hi;
    while k > lo && s[k - 1] != c
        invariant
            lo <= k <= hi <= s@.len(),
            rfind_char(s@.subrange(lo as int, hi as int), c) == rfind_char(
                s@.subrange(lo as int, k as int),
                c,
            ),
        decreases k - lo,
    {
        assert(s@.subrange(lo as int, k as int).drop_last() =~= s@.subrange(lo as int, k - 1));
        k -= 1;
    }
    if k == lo {
        None
    } else {
        Some(k - 1)
    }
}

/// Splits a `Host` header value into host name and port.
pub fn split_host_port(host: &str) -> (r: Option<(String, u16)>)
    ensures
        match r {
            Some((name, port)) => host_port(host@) == Some((name@, port)),
            None => host_port(host@) is None,
        },
{
    let chars = chars_of(host);
    let (lo, hi) = trim_range(&chars, 0, chars.len());
    assert(chars@.subrange(0, chars@.len() as int) =~= chars@);
    let ghost h = chars@.subrange(lo as int, hi as int);
    let colon = match last_index_of(&chars, lo, hi, ':') {
        None => {
            return None;
        },
        Some(i) => i,
    };
    assert(h.skip(colon - lo + 1) =~= chars@.subrange(colon + 1, hi as int));
    assert(h.take(colon - lo) =~= chars@.subrange(lo as int, colon as int));
    let (na, nb) = trim_bracket_range(&chars, lo, colon);
    match parse_unsigned_range(&chars, colon + 1, hi, 65535) {
        None => None,
        Some(p) => {
            proof {
                let t = chars@.subrange(colon + 1, hi as int);
                crate::text::lemma_digits_value_nonneg(crate::text::unsigned_digits(t));
            }
            let name = slice_of(&chars, na, nb);
            Some((string_of(&name), p as u16))
        },
    }
}

/// The port the server answers on.
pub fn effective_port(settings: &ServerSettings) -> (r: u16)
    ensures
        r == settings.port,
{
    settings.port
}

/// The token a request carries: the query's `token` parameter, else the
/// `Authorization` header (without a `Bearer ` prefix), else the `X-Dais-Token`
/// header.
pub open spec fn request_token_of(
    query: Option<Seq<char>>,
    authorization: Option<Seq<char>>,
    dais_token: Option<Seq<char>>,
) -> Option<Seq<char>> {
    match query_token_of(query) {
        Some(t) => Some(t),
        None => match authorization {
            Some(auth) => Some(
                if has_prefix(auth, "Bearer "@) {
                    auth.skip(7)
                } else {
                    auth
                },
            ),
            None => dais_token,
        },
    }
}

/// The token a request carries, from its query string and its `Authorization`
/// and `X-Dais-Token` headers (as text, where present).
pub fn request_token(query: Option<&str>, authorization: Option<&str>, dais_token: Option<&str>) -> (r:
    Option<String>)
    ensures
        match r {
            Some(t) => request_token_of(str_view(query), str_view(authorization), str_view(dais_token))
                == Some(t@),
            None => request_token_of(str_view(query), str_view(authorization), str_view(dais_token))
                is None,
        },
{
    match query_token(query) {
        Some(t) => {
            return Some(t);
        },
        None => {},
    }
    match authorization {
        Some(auth) => {
            let chars = chars_of(auth);
            let bearer = chars_of("Bearer ");
            proof {
                reveal_strlit("Bearer ");
            }
            if starts_with(&chars, &bearer) {
                let rest = slice_of(&chars, 7, chars.len());
                assert(rest@ =~= chars@.skip(7));
                Some(string_of(&rest))
            } else {
                Some(auth.to_string())
            }
        },
        None => match dais_token {
            Some(t) => Some(t.to_string()),
            None => None,
        },
    }
}

/// Whether a request may use the API: a loopback peer when the settings exempt
/// loopback requests, else a request carrying the server's token.
pub fn is_authorized(
    query: Option<&str>,
    authorization: Option<&str>,
    dais_token: Option<&str>,
    peer_is_loopback: bool,
    settings: &ServerSettings,
) -> (r: bool)
    ensures
        r == ((settings.allow_unauthenticated_loopback && peer_is_loopback) || request_token_of(
            str_view(query),
            str_view(authorization),
            str_view(dais_token),
        ) == Some(settings.token@)),
{
    if settings.allow_unauthenticated_loopback && peer_is_loopback {
        return true;
    }
    match request_token(query, authorization, dais_token) {
        Some(token) => {
            let given = chars_of(token.as_str());
            let expected = chars_of(settings.token.as_str());
            same_chars(&given, &expected)
        },
        None => false,
    }
}

/// Whether a request's `Origin` header (if any) is its own host, over HTTP or HTTPS.
pub open spec fn origin_allowed_of(origin: Option<Seq<char>>, host: Option<Seq<char>>) -> bool {
    match origin {
        None => true,
        Some(o) => match host {
            None => false,
            Some(h) => o == "http://"@ + h || o == "https://"@ + h,
        },
    }
}

/// Whether a request's `Origin` header allows it, given its `Host` header.
pub fn origin_allowed(origin: Option<&str>, host: Option<&str>) -> (r: bool)
    ensures
        r == origin_allowed_of(str_view(origin), str_view(host)),
{
    let o = match origin {
        Some(o) => o,
        None => {
            return true;
        },
    };
    let h = match host {
        Some(h) => h,
        None => {
            return false;
        },
    };
    let given = chars_of(o);
    let mut http = chars_of("http://");
    append_str(&mut http, h);
    let mut https = chars_of("https://");
    append_str(&mut https, h);
    same_chars(&given, &http) || same_chars(&given, &https)
}

/// Whether requests from the loopback interface need no token: allowed by the
/// settings, and the configured host is `localhost` (any ASCII case) or an IP
/// address that `parsed_host_is_loopback` (the result of parsing the host as an
/// IP address, done by the caller) says is a loopback address.
pub fn server_settings_allow_loopback(settings: &ServerSettings, parsed_host_is_loopback: bool) -> (r:
    bool)
    ensures
        r == (settings.allow_unauthenticated_loopback && (eq_ignore_ascii_case(
            settings.host@,
            "localhost"@,
        ) || parsed_host_is_loopback)),
{
    if !settings.allow_unauthenticated_loopback {
        return false;
    }
    let chars = chars_of(settings.host.as_str());
    is_word_ignoring_ascii_case(&chars, "localhost") || parsed_host_is_loopback
}

/// The URL of an API path on an endpoint.
pub fn endpoint_url(endpoint: &RemoteEndpoint, path: &str) -> (r: String)
    ensures
        r@ == "http://"@ + endpoint.host@ + ":"@ + decimal(endpoint.port as nat) + path@,
{
    let mut out: Vec<char> = Vec::new();
    append_str(&mut out, "http://");
    append_str(&mut out, endpoint.host.as_str());
    append_str(&mut out, ":");
    let digits = decimal_chars(endpoint.port as u64);
    append_chars(&mut out, &digits);
    append_str(&mut out, path);
    string_of(&out)
}

/// The API path that triggers a named action.
pub fn action_path(action: &str) -> (r: String)
    ensures
        r@ == "/api/v1/actions/"@ + action@,
{
    let mut out: Vec<char> = Vec::new();
    append_str(&mut out, "/api/v1/actions/");
    append_str(&mut out, action);
    string_of(&out)
}

/// A successful command response.
pub fn ok_response(message: &str) -> (r: CommandResponse)
    ensures
        r.ok,
        r.message@ == message@,
{
    CommandResponse { ok: true, message: message.to_owned() }
}

/// The wire name of a drawing tool.
pub fn draw_tool_name(tool: DrawTool) -> (r: &'static str)
    ensures
        r@ == match tool {
            DrawTool::Pen => "pen"@,
            DrawTool::Highlighter => "highlighter"@,
            DrawTool::Eraser => "eraser"@,
        },
{
    match tool {
        DrawTool::Pen => "pen",
        DrawTool::Highlighter => "highlighter",
        DrawTool::Eraser => "eraser",
    }
}

/// The timer as the remote API reports it: whole seconds elapsed and shown, and
/// the phase's name.
pub fn remote_timer_state(timer: &TimerState) -> (r: RemoteTimerState)
    requires
        timer.wf(),
        warning_sum_fits(*timer),
    ensures
        r.running == timer.running,
        r.elapsed_seconds == timer.elapsed / 1_000_000_000,
        r.display_seconds == timer_display(*timer) / 1_000_000_000,
        r.phase@ == match timer_phase(*timer) {
            TimerPhase::Normal => "normal"@,
            TimerPhase::Warning => "warning"@,
            TimerPhase::Overrun => "overrun"@,
        },
{
    let shown = timer.display_time();
    let phase = timer.phase();
    RemoteTimerState {
        running: timer.running,
        elapsed_seconds: (timer.elapsed / 1_000_000_000) as u64,
        display_seconds: (shown / 1_000_000_000) as u64,
        phase: timer_phase_name(phase).to_owned(),
    }
}

impl RemoteStatus {
    /// No event clients and no command yet.
    pub fn new() -> (r: Self)
        ensures
            r.active_event_clients == 0,
            r.last_command is None,
    {
        RemoteStatus { active_event_clients: 0, last_command: None }
    }

    /// Records the last command received.
    pub fn set_last_command(&mut self, command: String)
        ensures
            final(self).last_command == Some(command),
            final(self).active_event_clients == old(self).active_event_clients,
    {
        self.last_command = Some(command);
    }

    /// Counts a newly connected event client.
    pub fn add_event_client(&mut self)
        requires
            old(self).active_event_clients < usize::MAX,
        ensures
            final(self).active_event_clients == old(self).active_event_clients + 1,
            final(self).last_command == old(self).last_command,
    {
        self.active_event_clients += 1;
    }

    /// Counts a disconnected event client (never below zero).
    pub fn remove_event_client(&mut self)
        ensures
            final(self).active_event_clients == if old(self).active_event_clients == 0 {
                0
            } else {
                (old(self).active_event_clients - 1) as usize
            },
            final(self).last_command == old(self).last_command,
    {
        self.active_event_clients = self.active_event_clients.saturating_sub(1);
    }
}

impl Default for RemoteStatus {
    fn default() -> (r: Self)
        ensures
            r.active_event_clients == 0,
            r.last_command is None,
    {
        RemoteStatus::new()
    }
}

/// A pairing code is never accepted as a configured token (its `-` is not a
/// letter or digit), so the two kinds of token cannot be confused.
pub proof fn law_pairing_code_is_not_custom_token(t: Seq<char>)
    requires
        is_pairing_code(t),
    ensures
        !valid_custom_token(t),
{
    assert(!is_ascii_alnum(t[4]));
}

} // verus!
