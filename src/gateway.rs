//! The desktop shell's gateway handshake: the connect parameters it sends,
//! and where the gateway's address and credentials come from.

use vstd::prelude::*;
use vstd::string::StringExecFns;
use crate::labels::str_eq;
use crate::shell::{trim, strip, CharClass, GatewayConnectOptions, GatewayInfo, normalize_profile, normalized_profile};
use crate::text::{lower_of, to_lower};
use crate::memory::clone_opt;

verus! {

pub const PROTOCOL_VERSION: u32 = 3;
pub const DEFAULT_GATEWAY_PORT: u16 = 18789;

/// Client identifiers the gateway accepts.
pub open spec fn client_ids() -> Seq<Seq<char>> {
    seq!["webchat-ui"@, "openclaw-control-ui"@, "webchat"@, "cli"@, "gateway-client"@, "openclaw-macos"@, "openclaw-ios"@, "openclaw-android"@, "node-host"@, "test"@, "fingerprint"@, "openclaw-probe"@]
}

/// Client modes the gateway accepts.
pub open spec fn client_modes() -> Seq<Seq<char>> {
    seq!["webchat"@, "cli"@, "ui"@, "backend"@, "node"@, "probe"@, "test"@]
}

fn client_id_at(i: usize) -> (r: &'static str)
    requires
        i < 12,
    ensures
        r@ == client_ids()[i as int],
{
    match i {
        0 => "webchat-ui",
        1 => "openclaw-control-ui",
        2 => "webchat",
        3 => "cli",
        4 => "gateway-client",
        5 => "openclaw-macos",
        6 => "openclaw-ios",
        7 => "openclaw-android",
        8 => "node-host",
        9 => "test",
        10 => "fingerprint",
        11 => "openclaw-probe",
        _ => "openclaw-probe",
    }
}

fn client_mode_at(i: usize) -> (r: &'static str)
    requires
        i < 7,
    ensures
        r@ == client_modes()[i as int],
{
    match i {
        0 => "webchat",
        1 => "cli",
        2 => "ui",
        3 => "backend",
        4 => "node",
        5 => "probe",
        6 => "test",
        _ => "test",
    }
}

} // verus!

verus! {

/// Whether the gateway accepts `s` as a client identifier.
fn listed_ids(s: &str) -> (r: bool)
    ensures
        r == client_ids().contains(s@),
{
    let mut i: usize = 0;
    while i < 12
        invariant
            i <= 12,
            client_ids().len() == 12,
            forall|k: int| 0 <= k < i ==> client_ids()[k] != s@,
        decreases 12 - i,
    {
        if str_eq(s, client_id_at(i)) {
            assert(client_ids()[i as int] == s@);
            return true;
        }
        i = i + 1;
    }
    false
}

fn listed_modes(s: &str) -> (r: bool)
    ensures
        r == client_modes().contains(s@),
{
    let mut i: usize = 0;
    while i < 7
        invariant
            i <= 7,
            client_modes().len() == 7,
            forall|k: int| 0 <= k < i ==> client_modes()[k] != s@,
        decreases 7 - i,
    {
        if str_eq(s, client_mode_at(i)) {
            assert(client_modes()[i as int] == s@);
            return true;
        }
        i = i + 1;
    }
    false
}

/// The parameters of the gateway's `connect` request.
pub struct ConnectParams {
    pub min_protocol: u32,
    pub max_protocol: u32,
    pub client_id: String,
    pub display_name: String,
    pub version: String,
    pub platform: String,
    pub mode: String,
    pub instance_id: Option<String>,
    pub role: String,
    pub scopes: Vec<String>,
    pub token: Option<String>,
    pub password: Option<String>,
    pub user_agent: Option<String>,
    pub locale: Option<String>,
}

pub open spec fn or_default(o: Option<String>, d: Seq<char>) -> Seq<char> {
    match o {
        Some(s) => s@,
        None => d,
    }
}

/// A credential as sent: trimmed, and left out when nothing remains.
pub open spec fn credential(o: Option<String>) -> Option<Seq<char>> {
    match o {
        Some(s) => if strip(s@, CharClass::White).len() > 0 {
            Some(strip(s@, CharClass::White))
        } else {
            None
        },
        None => None,
    }
}

pub open spec fn opt_chars(o: Option<String>) -> Option<Seq<char>> {
    match o {
        Some(s) => Some(s@),
        None => None,
    }
}

/// The client identifier sent: the lowercased client name (by default
/// `webchat-ui`) where the gateway accepts it, else `webchat-ui`.
pub open spec fn client_id_of(name: Option<String>) -> Seq<char> {
    let raw = lower_of(or_default(name, "webchat-ui"@));
    if client_ids().contains(raw) {
        raw
    } else {
        "webchat-ui"@
    }
}

pub open spec fn client_mode_of(mode: Option<String>) -> Seq<char> {
    let raw = lower_of(or_default(mode, "webchat"@));
    if client_modes().contains(raw) {
        raw
    } else {
        "webchat"@
    }
}

fn or_default_string(o: &Option<String>, d: &str) -> (r: String)
    ensures
        r@ == or_default(*o, d@),
{
    match o {
        Some(s) => s.clone(),
        None => String::from_str(d),
    }
}

fn credential_of(o: &Option<String>) -> (r: Option<String>)
    ensures
        opt_chars(r) == credential(*o),
{
    match o {
        Some(s) => {
            let t = trim(s.as_str());
            if t.unicode_len() > 0 {
                Some(t)
            } else {
                None
            }
        },
        None => None,
    }
}

/// Builds the `connect` parameters from the shell's options: client name and
/// mode are lowercased and replaced by defaults where the gateway does not
/// accept them; version, platform, role and scopes have defaults; token and
/// password are trimmed and sent only when non-empty.
pub fn build_connect_params(options: &GatewayConnectOptions) -> (r: ConnectParams)
    ensures
        r.min_protocol == PROTOCOL_VERSION,
        r.max_protocol == PROTOCOL_VERSION,
        r.client_id@ == client_id_of(options.client_name),
        r.display_name@ == "Dieah"@,
        r.version@ == or_default(options.client_version, "dev"@),
        r.platform@ == or_default(options.platform, "desktop"@),
        r.mode@ == client_mode_of(options.mode),
        opt_chars(r.instance_id) == opt_chars(options.instance_id),
        r.role@ == or_default(options.role, "operator"@),
        match options.scopes {
            Some(s) => r.scopes@ == s@,
            None => r.scopes@.len() == 3 && r.scopes@[0]@ == "operator.admin"@
                && r.scopes@[1]@ == "operator.approvals"@ && r.scopes@[2]@ == "operator.pairing"@,
        },
        opt_chars(r.token) == credential(options.token),
        opt_chars(r.password) == credential(options.password),
        opt_chars(r.user_agent) == opt_chars(options.user_agent),
        opt_chars(r.locale) == opt_chars(options.locale),
{
    let raw_id = to_lower(or_default_string(&options.client_name, "webchat-ui").as_str());
    let client_id = if listed_ids(raw_id.as_str()) { raw_id } else { String::from_str("webchat-ui") };
    let raw_mode = to_lower(or_default_string(&options.mode, "webchat").as_str());
    let mode = if listed_modes(raw_mode.as_str()) { raw_mode } else { String::from_str("webchat") };
    let scopes = match &options.scopes {
        Some(s) => s.clone(),
        None => {
            let mut v: Vec<String> = Vec::new();
            v.push(String::from_str("operator.admin"));
            v.push(String::from_str("operator.approvals"));
            v.push(String::from_str("operator.pairing"));
            v
        },
    };
    proof {
        if options.scopes is Some {
            assert(scopes@ =~= options.scopes->Some_0@);
        }
    }
    ConnectParams {
        min_protocol: PROTOCOL_VERSION,
        max_protocol: PROTOCOL_VERSION,
        client_id,
        display_name: String::from_str("Dieah"),
        version: or_default_string(&options.client_version, "dev"),
        platform: or_default_string(&options.platform, "desktop"),
        mode,
        instance_id: clone_opt(&options.instance_id),
        role: or_default_string(&options.role, "operator"),
        scopes,
        token: credential_of(&options.token),
        password: credential_of(&options.password),
        user_agent: clone_opt(&options.user_agent),
        locale: clone_opt(&options.locale),
    }
}

} // verus!

verus! {

pub open spec fn is_digit(c: char) -> bool {
    '0' <= c && c <= '9'
}

/// The value of a string of decimal digits.
pub open spec fn digits_value(s: Seq<char>) -> nat
    decreases s.len(),
{
    if s.len() == 0 {
        0
    } else {
        digits_value(s.drop_last()) * 10 + (s.last() as nat - '0' as nat) as nat
    }
}

/// What `u16`'s `from_str` accepts: an optional `+`, then one or more
/// decimal digits whose value fits.
pub open spec fn unsigned_part(s: Seq<char>) -> Seq<char> {
    if s.len() > 0 && s[0] == '+' {
        s.subrange(1, s.len() as int)
    } else {
        s
    }
}

pub open spec fn all_digits(d: Seq<char>) -> bool {
    forall|i: int| 0 <= i < d.len() ==> is_digit(#[trigger] d[i])
}

pub open spec fn u16_of_text(s: Seq<char>) -> Option<u16> {
    let d = unsigned_part(s);
    if d.len() > 0 && all_digits(d) && digits_value(d) <= 65535 {
        Some(digits_value(d) as u16)
    } else {
        None
    }
}

pub open spec fn cap(n: nat) -> nat {
    if n > 65536 { 65536 } else { n }
}

/// Parses a decimal port number.
pub fn parse_u16(s: &str) -> (r: Option<u16>)
    ensures
        r == u16_of_text(s@),
{
    let n = s.unicode_len();
    let start: usize = if n > 0 && s.get_char(0) == '+' { 1 } else { 0 };
    let ghost d = unsigned_part(s@);
    assert(d == s@.subrange(start as int, n as int));
    if start == n {
        assert(d.len() == 0);
        return None;
    }
    let mut v: u32 = 0;
    let mut i: usize = start;
    while i < n
        invariant
            start <= i <= n,
            n == s@.len(),
            d == unsigned_part(s@),
            d == s@.subrange(start as int, n as int),
            forall|k: int| start <= k < i ==> is_digit(#[trigger] s@[k]),
            v as nat == cap(digits_value(s@.subrange(start as int, i as int))),
        decreases n - i,
    {
        let c = s.get_char(i);
        if !('0' <= c && c <= '9') {
            assert(!is_digit(d[i - start]));
            return None;
        }
        let digit: u32 = (c as u32) - ('0' as u32);
        let ghost prev = digits_value(s@.subrange(start as int, i as int));
        assert(s@.subrange(start as int, i + 1).drop_last() =~= s@.subrange(start as int, i as int));
        assert(digits_value(s@.subrange(start as int, i + 1)) == prev * 10 + digit);
        let next: u32 = v * 10 + digit;
        v = if next > 65536 { 65536 } else { next };
        assert(s@.subrange(start as int, i + 1)[i - start] == c);
        i = i + 1;
    }
    assert(s@.subrange(start as int, n as int) =~= d);
    if v > 65535 {
        None
    } else {
        Some(v as u16)
    }
}

} // verus!

verus! {

pub open spec fn digit_char(d: nat) -> char {
    if d == 0 { '0' } else if d == 1 { '1' } else if d == 2 { '2' } else if d == 3 { '3' }
    else if d == 4 { '4' } else if d == 5 { '5' } else if d == 6 { '6' } else if d == 7 { '7' }
    else if d == 8 { '8' } else { '9' }
}

/// The decimal text of a number, without leading zeros.
pub open spec fn decimal(n: nat) -> Seq<char>
    decreases n,
{
    if n < 10 {
        seq![digit_char(n)]
    } else {
        decimal(n / 10) + seq![digit_char(n % 10)]
    }
}

fn digit_text(d: u16) -> (r: &'static str)
    requires
        d < 10,
    ensures
        r@ == seq![digit_char(d as nat)],
{
    proof {
        reveal_strlit("0");
        reveal_strlit("1");
        reveal_strlit("2");
        reveal_strlit("3");
        reveal_strlit("4");
        reveal_strlit("5");
        reveal_strlit("6");
        reveal_strlit("7");
        reveal_strlit("8");
        reveal_strlit("9");
    }
    match d {
        0 => "0",
        1 => "1",
        2 => "2",
        3 => "3",
        4 => "4",
        5 => "5",
        6 => "6",
        7 => "7",
        8 => "8",
        _ => "9",
    }
}

/// Appends the decimal text of `n`.
fn append_decimal(out: &mut String, n: u16)
    ensures
        final(out)@ == old(out)@ + decimal(n as nat),
    decreases n,
{
    if n >= 10 {
        append_decimal(out, n / 10);
    }
    out.append(digit_text(n % 10));
    proof {
        if n < 10 {
            assert(n % 10 == n);
        }
    }
}

/// What the shell reads from the environment and the gateway's
/// configuration, as plain values.
pub struct GatewaySettings {
    pub env_port: Option<String>,
    pub env_token: Option<String>,
    pub env_password: Option<String>,
    pub config_port: Option<u64>,
    pub config_auth_mode: Option<String>,
    pub config_token: Option<String>,
    pub config_password: Option<String>,
}

/// The port: the environment's when no profile is named and it parses,
/// else the configured one when it fits, else the default.
pub open spec fn gateway_port(named: bool, s: GatewaySettings) -> (u16, Seq<char>) {
    let env = if named { None } else {
        match s.env_port {
            Some(p) => u16_of_text(p@),
            None => None,
        }
    };
    match env {
        Some(p) => (p, "port: env OPENCLAW_GATEWAY_PORT"@),
        None => match s.config_port {
            Some(c) => if c <= 65535 {
                (c as u16, "port: config gateway.port"@)
            } else {
                (DEFAULT_GATEWAY_PORT, "port: default 18789"@)
            },
            None => (DEFAULT_GATEWAY_PORT, "port: default 18789"@),
        },
    }
}

/// A credential from the environment counts only when no profile is named.
pub open spec fn env_credential(named: bool, o: Option<String>) -> Option<Seq<char>> {
    if named { None } else { credential(o) }
}

pub open spec fn first_of(a: Option<Seq<char>>, b: Option<Seq<char>>) -> Option<Seq<char>> {
    match a {
        Some(x) => Some(x),
        None => b,
    }
}

/// The notes on where each credential came from.
pub open spec fn auth_sources(named: bool, s: GatewaySettings) -> Seq<Seq<char>> {
    (if env_credential(named, s.env_token) is Some {
        seq!["auth: env OPENCLAW_GATEWAY_TOKEN"@]
    } else if credential(s.config_token) is Some {
        seq!["auth: config gateway.auth.token"@]
    } else {
        seq![]
    }) + (if env_credential(named, s.env_password) is Some {
        seq!["auth: env OPENCLAW_GATEWAY_PASSWORD"@]
    } else if credential(s.config_password) is Some {
        seq!["auth: config gateway.auth.password"@]
    } else {
        seq![]
    })
}

fn env_credential_of(named: bool, o: &Option<String>) -> (r: Option<String>)
    ensures
        opt_chars(r) == env_credential(named, *o),
{
    if named {
        None
    } else {
        credential_of(o)
    }
}

/// Where the gateway listens and how to authenticate, for a profile (or the
/// default one), from the environment and the configuration.
pub fn gateway_info(profile: Option<&str>, settings: &GatewaySettings) -> (r: GatewayInfo)
    ensures
        ({
            let p = normalized_profile(match profile { Some(x) => Some(x@), None => None });
            let named = p is Some;
            let (port, port_note) = gateway_port(named, *settings);
            &&& r.port == port
            &&& r.url@ == "ws://127.0.0.1:"@ + decimal(port as nat)
            &&& opt_chars(r.auth_mode) == opt_chars(settings.config_auth_mode)
            &&& opt_chars(r.token) == first_of(env_credential(named, settings.env_token), credential(settings.config_token))
            &&& opt_chars(r.password) == first_of(env_credential(named, settings.env_password), credential(settings.config_password))
            &&& r.source@.len() >= 2
            &&& r.source@[0]@ == "profile: "@ + (match p { Some(x) => x, None => "default"@ })
            &&& r.source@[1]@ == port_note
            &&& r.source@.subrange(2, r.source@.len() as int).map_values(|x: String| x@) == auth_sources(named, *settings)
        }),
{
    let profile = normalize_profile(profile);
    let named = profile.is_some();
    let mut source: Vec<String> = Vec::new();
    let mut first = String::from_str("profile: ");
    match &profile {
        Some(p) => first.append(p.as_str()),
        None => first.append("default"),
    }
    source.push(first);
    let env_port = if named {
        None
    } else {
        match &settings.env_port {
            Some(p) => parse_u16(p.as_str()),
            None => None,
        }
    };
    let port: u16 = match env_port {
        Some(p) => {
            source.push(String::from_str("port: env OPENCLAW_GATEWAY_PORT"));
            p
        },
        None => match settings.config_port {
            Some(c) if c <= 65535 => {
                source.push(String::from_str("port: config gateway.port"));
                c as u16
            },
            _ => {
                source.push(String::from_str("port: default 18789"));
                DEFAULT_GATEWAY_PORT
            },
        },
    };
    let ghost head = source@;
    let env_token = env_credential_of(named, &settings.env_token);
    let env_password = env_credential_of(named, &settings.env_password);
    let config_token = credential_of(&settings.config_token);
    let config_password = credential_of(&settings.config_password);
    if env_token.is_some() {
        source.push(String::from_str("auth: env OPENCLAW_GATEWAY_TOKEN"));
    } else if config_token.is_some() {
        source.push(String::from_str("auth: config gateway.auth.token"));
    }
    let ghost mid = source@;
    if env_password.is_some() {
        source.push(String::from_str("auth: env OPENCLAW_GATEWAY_PASSWORD"));
    } else if config_password.is_some() {
        source.push(String::from_str("auth: config gateway.auth.password"));
    }
    assert(source@.subrange(2, source@.len() as int).map_values(|x: String| x@) =~= auth_sources(named, *settings));
    let token = match env_token {
        Some(t) => Some(t),
        None => config_token,
    };
    let password = match env_password {
        Some(t) => Some(t),
        None => config_password,
    };
    let mut url = String::from_str("ws://127.0.0.1:");
    append_decimal(&mut url, port);
    GatewayInfo {
        url,
        port,
        auth_mode: clone_opt(&settings.config_auth_mode),
        token,
        password,
        source,
    }
}

} // verus!
