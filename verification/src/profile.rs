//! Connection profiles: the choices a user makes for a tunnel, their
//! defaults, the command line the core is started with, the Zero Trust
//! credential handed over through the environment, and the copy of a
//! profile that may be stored.
use vstd::prelude::*;
use crate::addr::{model_text, parse_model, parse_socket_addr, socket_addr_text};
use crate::tun::{TUN_FWMARK_STR, TUN_MTU};
use crate::text::{
    lacks, all_digits, chars_eq, chars_of, dec_val, digit_val, is_digit, owned, split, split_chars,
    string_of, trim, trim_str, trimmed, views,
};

verus! {

// ---------------------------------------------------------------------------
// Choices
// ---------------------------------------------------------------------------

/// Tunnel protocol. `Auto` resolves to the core's own default (MASQUE).
#[derive(Clone, Copy, Debug, PartialEq, Eq, Structural)]
pub enum Protocol {
    Auto,
    Masque,
    Wireguard,
    Gool,
    Mim,
}

pub open spec fn protocol_menu_choice(p: Protocol) -> Seq<char> {
    match p {
        Protocol::Auto | Protocol::Masque => "1"@,
        Protocol::Wireguard => "2"@,
        Protocol::Gool => "3"@,
        Protocol::Mim => "4"@,
    }
}

/// MASQUE, MASQUE-in-MASQUE and `Auto` (which is MASQUE).
pub open spec fn masque_family(p: Protocol) -> bool {
    p == Protocol::Auto || p == Protocol::Masque || p == Protocol::Mim
}

/// WireGuard and WARP-in-WARP (gool).
pub open spec fn wg_family(p: Protocol) -> bool {
    p == Protocol::Wireguard || p == Protocol::Gool
}

/// The protocols for which a pinned `--peer` is forwarded.
pub open spec fn takes_peer(p: Protocol) -> bool {
    p == Protocol::Auto || p == Protocol::Masque || p == Protocol::Wireguard
}

impl Protocol {
    /// The answer the core expects at its "Protocol:" prompt.
    pub fn as_menu_choice(&self) -> (r: &'static str)
        ensures
            r@ == protocol_menu_choice(*self),
    {
        match self {
            Protocol::Auto | Protocol::Masque => "1",
            Protocol::Wireguard => "2",
            Protocol::Gool => "3",
            Protocol::Mim => "4",
        }
    }

    /// MASQUE-family protocols share the MASQUE noize table, transport and
    /// evasion flags; WireGuard and gool share the WireGuard ones.
    pub fn is_masque_family(&self) -> (r: bool)
        ensures
            r == masque_family(*self),
    {
        match self {
            Protocol::Auto | Protocol::Masque | Protocol::Mim => true,
            _ => false,
        }
    }
}

/// How thoroughly the core looks for a working route.
#[derive(Clone, Copy, Debug, PartialEq, Eq, Structural)]
pub enum ScanMode {
    Turbo,
    Balanced,
    Thorough,
    Stealth,
    Ironclad,
}

pub open spec fn scan_menu_choice(m: ScanMode) -> Seq<char> {
    match m {
        ScanMode::Turbo => "1"@,
        ScanMode::Balanced => "2"@,
        ScanMode::Thorough => "3"@,
        ScanMode::Stealth => "4"@,
        ScanMode::Ironclad => "5"@,
    }
}

impl ScanMode {
    pub fn as_menu_choice(&self) -> (r: &'static str)
        ensures
            r@ == scan_menu_choice(*self),
    {
        match self {
            ScanMode::Turbo => "1",
            ScanMode::Balanced => "2",
            ScanMode::Thorough => "3",
            ScanMode::Stealth => "4",
            ScanMode::Ironclad => "5",
        }
    }
}

#[derive(Clone, Copy, Debug, PartialEq, Eq, Structural)]
pub enum IpVersion {
    V4,
    V6,
    Both,
}

pub open spec fn ip_menu_choice(v: IpVersion) -> Seq<char> {
    match v {
        IpVersion::V4 => "1"@,
        IpVersion::V6 => "2"@,
        IpVersion::Both => "3"@,
    }
}

impl IpVersion {
    pub fn as_menu_choice(&self) -> (r: &'static str)
        ensures
            r@ == ip_menu_choice(*self),
    {
        match self {
            IpVersion::V4 => "1",
            IpVersion::V6 => "2",
            IpVersion::Both => "3",
        }
    }
}

/// Obfuscation profile for MASQUE connections.
#[derive(Clone, Copy, Debug, PartialEq, Eq, Structural)]
pub enum MasqueNoize {
    Firewall,
    Gfw,
    Off,
}

pub open spec fn masque_noize_flag(n: MasqueNoize) -> Seq<char> {
    match n {
        MasqueNoize::Firewall => "firewall"@,
        MasqueNoize::Gfw => "gfw"@,
        MasqueNoize::Off => "off"@,
    }
}

impl MasqueNoize {
    pub fn as_flag(&self) -> (r: &'static str)
        ensures
            r@ == masque_noize_flag(*self),
    {
        match self {
            MasqueNoize::Firewall => "firewall",
            MasqueNoize::Gfw => "gfw",
            MasqueNoize::Off => "off",
        }
    }
}

/// Obfuscation profile for WireGuard and gool connections.
#[derive(Clone, Copy, Debug, PartialEq, Eq, Structural)]
pub enum WgNoize {
    Balanced,
    Aggressive,
    Light,
    Off,
}

pub open spec fn wg_noize_flag(n: WgNoize) -> Seq<char> {
    match n {
        WgNoize::Balanced => "balanced"@,
        WgNoize::Aggressive => "aggressive"@,
        WgNoize::Light => "light"@,
        WgNoize::Off => "off"@,
    }
}

impl WgNoize {
    pub fn as_flag(&self) -> (r: &'static str)
        ensures
            r@ == wg_noize_flag(*self),
    {
        match self {
            WgNoize::Balanced => "balanced",
            WgNoize::Aggressive => "aggressive",
            WgNoize::Light => "light",
            WgNoize::Off => "off",
        }
    }
}

/// Which Zero Trust credential is in use.
#[derive(Clone, Copy, Debug, PartialEq, Eq, Structural)]
pub enum ZeroTrustAuth {
    Email,
    Service,
    Token,
}

// ---------------------------------------------------------------------------
// The profile
// ---------------------------------------------------------------------------

/// Everything a connection is started with.
#[derive(Clone, Debug, PartialEq, Eq)]
pub struct ConnectionProfile {
    pub protocol: Protocol,
    pub scan_mode: ScanMode,
    pub ip_version: IpVersion,
    /// Re-test the last working gateway before a full scan.
    pub quick_reconnect: bool,
    /// MASQUE over HTTP/2; handed to the core through the environment.
    pub masque_http2: bool,
    /// Split the TLS ClientHello (`--fragment`); MASQUE family only.
    pub fragment: bool,
    /// `n` or `a-b`; forwarded with `fragment` when it has that shape.
    pub fragment_size: String,
    pub fragment_delay: String,
    /// Encrypted Client Hello config (`--ech`); empty disables it.
    pub ech: String,
    pub masque_noize: MasqueNoize,
    pub wg_noize: WgNoize,
    /// WireGuard keepalive in seconds; empty keeps the core default.
    pub wg_keepalive: String,
    /// Pinned endpoint (`--peer`, `ip:port`).
    pub peer: String,
    pub wg_peer: String,
    pub wiw_outer: String,
    pub wiw_inner: String,
    pub mim_outer: String,
    pub mim_inner: String,
    /// Local SOCKS5 listen address (`--bind`).
    pub bind_address: String,
    pub http_proxy_enabled: bool,
    pub http_proxy_address: String,
    /// Resolvers used inside the tunnel, comma-separated.
    pub dns: String,
    pub zero_trust_team: String,
    pub zero_trust_auth: ZeroTrustAuth,
    pub access_email: String,
    pub access_client_id: String,
    pub access_client_secret: String,
    pub access_token: String,
    pub zero_trust_gateway: bool,
    pub route_block: String,
    pub route_direct: String,
    /// Also send the baked-in Iranian destinations straight out.
    pub direct_iran: bool,
    pub routes_file: String,
    pub autostart: bool,
    pub auto_connect: bool,
    /// Layer a TUN device over the proxy.
    pub vpn_mode: bool,
    pub tun_mtu: u32,
}

/// The SOCKS5 address the core listens on unless told otherwise.
pub open spec fn default_bind_text() -> Seq<char> {
    "127.0.0.1:1819"@
}

pub open spec fn default_http_proxy_text() -> Seq<char> {
    "127.0.0.1:1820"@
}

/// `private` plus high-traffic Iranian destinations, sent straight out
/// when `direct_iran` is on.
pub const IR_DIRECT_PRESET: &'static str = "private,digikala.com,aparat.com,filimo.com,telewebion.com,varzesh3.com,snapp.ir,cafebazaar.ir,divar.ir,namava.ir,shad.ir";

pub fn default_true() -> (r: bool)
    ensures
        r,
{
    true
}

pub fn default_masque_noize() -> (r: MasqueNoize)
    ensures
        r == MasqueNoize::Firewall,
{
    MasqueNoize::Firewall
}

pub fn default_wg_noize() -> (r: WgNoize)
    ensures
        r == WgNoize::Balanced,
{
    WgNoize::Balanced
}

pub fn default_bind_address() -> (r: String)
    ensures
        r@ == default_bind_text(),
{
    owned("127.0.0.1:1819")
}

pub fn default_http_proxy_address() -> (r: String)
    ensures
        r@ == default_http_proxy_text(),
{
    owned("127.0.0.1:1820")
}

pub fn default_tun_mtu() -> (r: u32)
    ensures
        r == 1500,
{
    TUN_MTU
}

pub fn default_zero_trust_auth() -> (r: ZeroTrustAuth)
    ensures
        r == ZeroTrustAuth::Email,
{
    ZeroTrustAuth::Email
}

/// The profile a first run starts from, which mirrors the core's own defaults.
pub open spec fn is_default_profile(p: ConnectionProfile) -> bool {
    &&& p.protocol == Protocol::Auto
    &&& p.scan_mode == ScanMode::Balanced
    &&& p.ip_version == IpVersion::V4
    &&& p.quick_reconnect
    &&& !p.masque_http2
    &&& !p.fragment
    &&& p.fragment_size@.len() == 0
    &&& p.fragment_delay@.len() == 0
    &&& p.ech@.len() == 0
    &&& p.masque_noize == MasqueNoize::Firewall
    &&& p.wg_noize == WgNoize::Balanced
    &&& p.wg_keepalive@.len() == 0
    &&& p.peer@.len() == 0
    &&& p.wg_peer@.len() == 0
    &&& p.wiw_outer@.len() == 0
    &&& p.wiw_inner@.len() == 0
    &&& p.mim_outer@.len() == 0
    &&& p.mim_inner@.len() == 0
    &&& p.bind_address@ == default_bind_text()
    &&& !p.http_proxy_enabled
    &&& p.http_proxy_address@ == default_http_proxy_text()
    &&& p.dns@.len() == 0
    &&& p.zero_trust_team@.len() == 0
    &&& p.zero_trust_auth == ZeroTrustAuth::Email
    &&& p.access_email@.len() == 0
    &&& p.access_client_id@.len() == 0
    &&& p.access_client_secret@.len() == 0
    &&& p.access_token@.len() == 0
    &&& !p.zero_trust_gateway
    &&& p.route_block@.len() == 0
    &&& p.route_direct@.len() == 0
    &&& !p.direct_iran
    &&& p.routes_file@.len() == 0
    &&& !p.autostart
    &&& !p.auto_connect
    &&& !p.vpn_mode
    &&& p.tun_mtu == 1500
}

impl Default for ConnectionProfile {
    fn default() -> (r: Self)
        ensures
            is_default_profile(r),
    {
        ConnectionProfile {
            protocol: Protocol::Auto,
            scan_mode: ScanMode::Balanced,
            ip_version: IpVersion::V4,
            quick_reconnect: default_true(),
            masque_http2: false,
            fragment: false,
            fragment_size: String::new(),
            fragment_delay: String::new(),
            ech: String::new(),
            masque_noize: default_masque_noize(),
            wg_noize: default_wg_noize(),
            wg_keepalive: String::new(),
            peer: String::new(),
            wg_peer: String::new(),
            wiw_outer: String::new(),
            wiw_inner: String::new(),
            mim_outer: String::new(),
            mim_inner: String::new(),
            bind_address: default_bind_address(),
            http_proxy_enabled: false,
            http_proxy_address: default_http_proxy_address(),
            dns: String::new(),
            zero_trust_team: String::new(),
            zero_trust_auth: default_zero_trust_auth(),
            access_email: String::new(),
            access_client_id: String::new(),
            access_client_secret: String::new(),
            access_token: String::new(),
            zero_trust_gateway: false,
            route_block: String::new(),
            route_direct: String::new(),
            direct_iran: false,
            routes_file: String::new(),
            autostart: false,
            auto_connect: false,
            vpn_mode: false,
            tun_mtu: default_tun_mtu(),
        }
    }
}

// ---------------------------------------------------------------------------
// Validated values
// ---------------------------------------------------------------------------

/// A pinned endpoint as it is forwarded: the trimmed text must be an
/// `ip:port` socket address, and it is forwarded in canonical form.
pub open spec fn endpoint_spec(s: Seq<char>) -> Option<Seq<char>> {
    let t = trim(s);
    if t.len() == 0 {
        None
    } else {
        match parse_model(t) {
            Some(m) => Some(model_text(m)),
            None => None,
        }
    }
}

/// A decimal numeral of a positive integer (leading zeros allowed).
pub open spec fn positive_numeral(t: Seq<char>) -> bool {
    t.len() > 0 && all_digits(t) && dec_val(t) > 0
}

/// `n` or `a-b` of positive integers, after trimming.
pub open spec fn range_spec(s: Seq<char>) -> Option<Seq<char>> {
    let t = trim(s);
    let parts = split(t, '-');
    if t.len() == 0 {
        None
    } else if (parts.len() == 1 || parts.len() == 2) && (forall|i: int|
        0 <= i < parts.len() ==> #[trigger] positive_numeral(parts[i])) {
        Some(t)
    } else {
        None
    }
}

pub open spec fn opt_text(r: Option<String>) -> Option<Seq<char>> {
    match r {
        Some(s) => Some(s@),
        None => None,
    }
}

/// Accept only `ip:port`: hostnames and bare addresses are dropped.
pub fn validated_endpoint(s: &str) -> (r: Option<String>)
    ensures
        opt_text(r) == endpoint_spec(s@),
{
    let t = trimmed(s);
    if t.len() == 0 {
        return None;
    }
    match parse_socket_addr(&t) {
        Some(a) => Some(string_of(&socket_addr_text(&a))),
        None => None,
    }
}

/// Whether every character of `t` is a decimal digit.
pub fn all_digit_chars(t: &Vec<char>) -> (r: bool)
    ensures
        r == all_digits(t@),
{
    let mut i: usize = 0;
    while i < t.len()
        invariant
            i <= t.len(),
            forall|k: int| 0 <= k < i ==> is_digit(#[trigger] t@[k]),
        decreases t.len() - i,
    {
        let u = t[i] as u32;
        if u < 48 || u > 57 {
            assert(!is_digit(t@[i as int]));
            return false;
        }
        i = i + 1;
    }
    true
}

/// A numeral of digits is worth more than zero exactly when one of its
/// digits is not `0`.
proof fn lemma_dec_val_positive(t: Seq<char>)
    requires
        all_digits(t),
    ensures
        dec_val(t) > 0 <==> exists|i: int| 0 <= i < t.len() && (#[trigger] t[i] as u32) != 48,
    decreases t.len(),
{
    if t.len() > 0 {
        let u = t.drop_last();
        assert(all_digits(u)) by {
            assert forall|k: int| 0 <= k < u.len() implies is_digit(#[trigger] u[k]) by {
                assert(u[k] == t[k]);
            }
        }
        lemma_dec_val_positive(u);
        let c = t[t.len() - 1];
        assert(is_digit(c));
        assert(dec_val(t) == dec_val(u) * 10 + digit_val(c));
        assert(digit_val(c) > 0 <==> (c as u32) != 48);
        if exists|i: int| 0 <= i < u.len() && (#[trigger] u[i] as u32) != 48 {
            let i = choose|i: int| 0 <= i < u.len() && (#[trigger] u[i] as u32) != 48;
            assert(t[i] == u[i]);
            assert(dec_val(u) > 0);
            assert(dec_val(t) > 0);
        } else if (c as u32) != 48 {
            assert((t[t.len() - 1] as u32) != 48);
        } else {
            assert(dec_val(u) == 0);
            assert(dec_val(t) == 0);
            assert forall|i: int| 0 <= i < t.len() implies (#[trigger] t[i] as u32) == 48 by {
                if i < u.len() {
                    assert(u[i] == t[i]);
                }
            }
        }
    }
}

/// Whether the digits `t` denote a positive integer.
fn is_positive_numeral(t: &Vec<char>) -> (r: bool)
    ensures
        r == positive_numeral(t@),
{
    if t.len() == 0 || !all_digit_chars(t) {
        return false;
    }
    proof {
        lemma_dec_val_positive(t@);
    }
    let mut i: usize = 0;
    while i < t.len()
        invariant
            i <= t.len(),
            t@.len() > 0,
            all_digits(t@),
            dec_val(t@) > 0 <==> exists|k: int| 0 <= k < t@.len() && (#[trigger] t@[k] as u32) != 48,
            forall|k: int| 0 <= k < i ==> (#[trigger] t@[k] as u32) == 48,
        decreases t.len() - i,
    {
        if (t[i] as u32) != 48 {
            assert((t@[i as int] as u32) != 48);
            return true;
        }
        i = i + 1;
    }
    assert(!exists|k: int| 0 <= k < t@.len() && (#[trigger] t@[k] as u32) != 48);
    false
}

/// Accept `n` or `a-b` of positive integers (fragment sizes and delays).
pub fn validated_range(s: &str) -> (r: Option<String>)
    ensures
        opt_text(r) == range_spec(s@),
{
    let t = trimmed(s);
    if t.len() == 0 {
        return None;
    }
    let parts = split_chars(&t, '-');
    let ghost ps = split(t@, '-');
    if parts.len() != 1 && parts.len() != 2 {
        return None;
    }
    let mut i: usize = 0;
    while i < parts.len()
        invariant
            i <= parts.len(),
            views(parts@) == ps,
            ps == split(t@, '-'),
            t@ == trim(s@),
            t@.len() > 0,
            forall|k: int| 0 <= k < i ==> #[trigger] positive_numeral(ps[k]),
        decreases parts.len() - i,
    {
        assert(parts@[i as int]@ == ps[i as int]);
        if !is_positive_numeral(&parts[i]) {
            return None;
        }
        i = i + 1;
    }
    Some(string_of(&t))
}

// ---------------------------------------------------------------------------
// The command line
// ---------------------------------------------------------------------------

/// The texts of a vector of strings.
pub open spec fn texts(v: Seq<String>) -> Seq<Seq<char>> {
    v.map_values(|s: String| s@)
}

pub open spec fn opt_flag(flag: Seq<char>, v: Option<Seq<char>>) -> Seq<Seq<char>> {
    match v {
        Some(x) => seq![flag, x],
        None => seq![],
    }
}

/// `flag t` when `t` is not empty.
pub open spec fn text_flag(flag: Seq<char>, t: Seq<char>) -> Seq<Seq<char>> {
    if t.len() > 0 {
        seq![flag, t]
    } else {
        seq![]
    }
}

pub open spec fn protocol_args(p: ConnectionProfile) -> Seq<Seq<char>> {
    match p.protocol {
        Protocol::Auto => seq![],
        Protocol::Masque => seq!["--masque"@],
        Protocol::Wireguard => seq!["--wg"@],
        Protocol::Gool => seq!["--gool"@],
        Protocol::Mim => seq!["--mim"@],
    }
}

pub open spec fn scan_flag(m: ScanMode) -> Seq<char> {
    match m {
        ScanMode::Turbo => "--turbo"@,
        ScanMode::Balanced => "--balanced"@,
        ScanMode::Thorough => "--thorough"@,
        ScanMode::Stealth => "--stealth"@,
        ScanMode::Ironclad => "--ironclad"@,
    }
}

pub open spec fn ip_flag(v: IpVersion) -> Seq<char> {
    match v {
        IpVersion::V4 => "-4"@,
        IpVersion::V6 => "-6"@,
        IpVersion::Both => "--dual"@,
    }
}

pub open spec fn quick_flag(quick: bool) -> Seq<char> {
    if quick {
        "--quick-reconnect"@
    } else {
        "--no-quick-reconnect"@
    }
}

/// The noize profile of the active protocol family.
pub open spec fn noize_value(p: ConnectionProfile) -> Seq<char> {
    if masque_family(p.protocol) {
        masque_noize_flag(p.masque_noize)
    } else {
        wg_noize_flag(p.wg_noize)
    }
}

/// Mode, address family, reconnect and noize: always present.
pub open spec fn core_args(p: ConnectionProfile) -> Seq<Seq<char>> {
    protocol_args(p) + seq![
        scan_flag(p.scan_mode),
        ip_flag(p.ip_version),
        quick_flag(p.quick_reconnect),
        "--noize"@,
        noize_value(p),
    ]
}

/// Pinned endpoints, each only for the protocol family it belongs to.
pub open spec fn pin_args(p: ConnectionProfile) -> Seq<Seq<char>> {
    (if takes_peer(p.protocol) {
        opt_flag("--peer"@, endpoint_spec(p.peer@))
    } else {
        seq![]
    }) + (if wg_family(p.protocol) {
        opt_flag("--wg-peer"@, endpoint_spec(p.wg_peer@))
    } else {
        seq![]
    }) + (if p.protocol == Protocol::Gool {
        opt_flag("--wiw-outer"@, endpoint_spec(p.wiw_outer@)) + opt_flag(
            "--wiw-inner"@,
            endpoint_spec(p.wiw_inner@),
        )
    } else {
        seq![]
    }) + (if p.protocol == Protocol::Mim {
        opt_flag("--mim-outer"@, endpoint_spec(p.mim_outer@)) + opt_flag(
            "--mim-inner"@,
            endpoint_spec(p.mim_inner@),
        )
    } else {
        seq![]
    })
}

/// WireGuard keepalive: WireGuard family only, digits only.
pub open spec fn keepalive_args(p: ConnectionProfile) -> Seq<Seq<char>> {
    let k = trim(p.wg_keepalive@);
    if wg_family(p.protocol) && k.len() > 0 && all_digits(k) {
        seq!["--keepalive"@, k]
    } else {
        seq![]
    }
}

/// ClientHello fragmentation and ECH: MASQUE family only.
pub open spec fn evasion_args(p: ConnectionProfile) -> Seq<Seq<char>> {
    if masque_family(p.protocol) {
        (if p.fragment {
            seq!["--fragment"@] + opt_flag("--fragment-size"@, range_spec(p.fragment_size@))
                + opt_flag("--fragment-delay"@, range_spec(p.fragment_delay@))
        } else {
            seq![]
        }) + text_flag("--ech"@, trim(p.ech@))
    } else {
        seq![]
    }
}

/// `--bind` only when the address differs from the default and parses.
pub open spec fn bind_args(p: ConnectionProfile) -> Seq<Seq<char>> {
    if p.bind_address@ != default_bind_text() && parse_model(p.bind_address@) is Some {
        seq!["--bind"@, p.bind_address@]
    } else {
        seq![]
    }
}

/// `--http-proxy` only when enabled with an address that parses.
pub open spec fn http_proxy_args(p: ConnectionProfile) -> Seq<Seq<char>> {
    if p.http_proxy_enabled && parse_model(p.http_proxy_address@) is Some {
        seq!["--http-proxy"@, p.http_proxy_address@]
    } else {
        seq![]
    }
}

/// Resolvers, Zero Trust team (never its credentials) and block list.
pub open spec fn team_args(p: ConnectionProfile) -> Seq<Seq<char>> {
    let team = trim(p.zero_trust_team@);
    if team.len() > 0 {
        seq!["--team"@, team] + (if p.zero_trust_gateway {
            seq!["--gateway"@]
        } else {
            seq![]
        })
    } else {
        seq![]
    }
}

/// The direct list: the user's own entries first, the preset after them.
pub open spec fn direct_list(p: ConnectionProfile) -> Seq<char> {
    let user = trim(p.route_direct@);
    if p.direct_iran {
        if user.len() > 0 {
            user + seq![','] + IR_DIRECT_PRESET@
        } else {
            IR_DIRECT_PRESET@
        }
    } else {
        user
    }
}

/// `--mark` keeps the core's own sockets out of the TUN; only on Linux,
/// the one host whose core has the option.
pub open spec fn mark_args(p: ConnectionProfile, on_linux: bool) -> Seq<Seq<char>> {
    if p.vpn_mode && on_linux {
        seq!["--mark"@, TUN_FWMARK_STR@]
    } else {
        seq![]
    }
}

pub open spec fn routing_args(p: ConnectionProfile) -> Seq<Seq<char>> {
    text_flag("--route-block"@, trim(p.route_block@)) + text_flag("--route-direct"@, direct_list(p))
        + text_flag("--routes"@, trim(p.routes_file@))
}

/// Everything on the command line but the Linux-only mark.
pub open spec fn base_args(p: ConnectionProfile) -> Seq<Seq<char>> {
    core_args(p) + pin_args(p) + keepalive_args(p) + evasion_args(p) + bind_args(p)
        + http_proxy_args(p) + text_flag("--dns"@, trim(p.dns@)) + team_args(p) + routing_args(p)
}

/// The whole command line of the core for `p`.
pub open spec fn args_spec(p: ConnectionProfile, on_linux: bool) -> Seq<Seq<char>> {
    base_args(p) + mark_args(p, on_linux)
}

fn append_args(out: &mut Vec<String>, more: Vec<String>)
    ensures
        texts(final(out)@) == texts(old(out)@) + texts(more@),
{
    let mut more = more;
    let ghost a = out@;
    let ghost b = more@;
    out.append(&mut more);
    assert(texts(out@) =~= texts(a) + texts(b));
}

fn flag_only(flag: &str) -> (r: Vec<String>)
    ensures
        texts(r@) == seq![flag@],
{
    let mut r: Vec<String> = Vec::new();
    r.push(owned(flag));
    assert(texts(r@) =~= seq![flag@]);
    r
}

fn flag_and(flag: &str, value: String) -> (r: Vec<String>)
    ensures
        texts(r@) == seq![flag@, value@],
{
    let mut r: Vec<String> = Vec::new();
    r.push(owned(flag));
    r.push(value);
    assert(texts(r@) =~= seq![flag@, value@]);
    r
}

fn opt_flag_args(flag: &str, v: Option<String>) -> (r: Vec<String>)
    ensures
        texts(r@) == opt_flag(flag@, opt_text(v)),
{
    match v {
        Some(x) => flag_and(flag, x),
        None => {
            let r: Vec<String> = Vec::new();
            assert(texts(r@) =~= seq![]);
            r
        },
    }
}

fn text_flag_args(flag: &str, t: Vec<char>) -> (r: Vec<String>)
    ensures
        texts(r@) == text_flag(flag@, t@),
{
    if t.len() > 0 {
        flag_and(flag, string_of(&t))
    } else {
        let r: Vec<String> = Vec::new();
        assert(texts(r@) =~= seq![]);
        r
    }
}

fn no_args() -> (r: Vec<String>)
    ensures
        texts(r@) == Seq::<Seq<char>>::empty(),
{
    let r: Vec<String> = Vec::new();
    assert(texts(r@) =~= seq![]);
    r
}

/// Whether `s` parses as a socket address.
pub fn is_socket_addr(s: &str) -> (r: bool)
    ensures
        r == parse_model(s@) is Some,
{
    parse_socket_addr(&chars_of(s)).is_some()
}

impl ConnectionProfile {
    fn core_part(&self) -> (r: Vec<String>)
        ensures
            texts(r@) == core_args(*self),
    {
        let mut args: Vec<String> = match self.protocol {
            Protocol::Auto => no_args(),
            Protocol::Masque => flag_only("--masque"),
            Protocol::Wireguard => flag_only("--wg"),
            Protocol::Gool => flag_only("--gool"),
            Protocol::Mim => flag_only("--mim"),
        };
        let scan = match self.scan_mode {
            ScanMode::Turbo => "--turbo",
            ScanMode::Balanced => "--balanced",
            ScanMode::Thorough => "--thorough",
            ScanMode::Stealth => "--stealth",
            ScanMode::Ironclad => "--ironclad",
        };
        append_args(&mut args, flag_only(scan));
        let ip = match self.ip_version {
            IpVersion::V4 => "-4",
            IpVersion::V6 => "-6",
            IpVersion::Both => "--dual",
        };
        append_args(&mut args, flag_only(ip));
        let quick = if self.quick_reconnect {
            "--quick-reconnect"
        } else {
            "--no-quick-reconnect"
        };
        append_args(&mut args, flag_only(quick));
        let noize = if self.protocol.is_masque_family() {
            self.masque_noize.as_flag()
        } else {
            self.wg_noize.as_flag()
        };
        append_args(&mut args, flag_and("--noize", owned(noize)));
        assert(texts(args@) =~= core_args(*self));
        args
    }

    fn pin_part(&self) -> (r: Vec<String>)
        ensures
            texts(r@) == pin_args(*self),
    {
        let mut args = match self.protocol {
            Protocol::Auto | Protocol::Masque | Protocol::Wireguard => opt_flag_args(
                "--peer",
                validated_endpoint(self.peer.as_str()),
            ),
            _ => no_args(),
        };
        let wg = match self.protocol {
            Protocol::Wireguard | Protocol::Gool => opt_flag_args(
                "--wg-peer",
                validated_endpoint(self.wg_peer.as_str()),
            ),
            _ => no_args(),
        };
        append_args(&mut args, wg);
        if self.protocol == Protocol::Gool {
            append_args(
                &mut args,
                opt_flag_args("--wiw-outer", validated_endpoint(self.wiw_outer.as_str())),
            );
            append_args(
                &mut args,
                opt_flag_args("--wiw-inner", validated_endpoint(self.wiw_inner.as_str())),
            );
        }
        if self.protocol == Protocol::Mim {
            append_args(
                &mut args,
                opt_flag_args("--mim-outer", validated_endpoint(self.mim_outer.as_str())),
            );
            append_args(
                &mut args,
                opt_flag_args("--mim-inner", validated_endpoint(self.mim_inner.as_str())),
            );
        }
        assert(texts(args@) =~= pin_args(*self));
        args
    }

    fn keepalive_part(&self) -> (r: Vec<String>)
        ensures
            texts(r@) == keepalive_args(*self),
    {
        match self.protocol {
            Protocol::Wireguard | Protocol::Gool => {
                let k = trimmed(self.wg_keepalive.as_str());
                if k.len() > 0 && all_digit_chars(&k) {
                    flag_and("--keepalive", string_of(&k))
                } else {
                    no_args()
                }
            },
            _ => no_args(),
        }
    }

    fn evasion_part(&self) -> (r: Vec<String>)
        ensures
            texts(r@) == evasion_args(*self),
    {
        if !self.protocol.is_masque_family() {
            return no_args();
        }
        let mut args = no_args();
        if self.fragment {
            append_args(&mut args, flag_only("--fragment"));
            append_args(
                &mut args,
                opt_flag_args("--fragment-size", validated_range(self.fragment_size.as_str())),
            );
            append_args(
                &mut args,
                opt_flag_args("--fragment-delay", validated_range(self.fragment_delay.as_str())),
            );
        }
        append_args(&mut args, text_flag_args("--ech", trimmed(self.ech.as_str())));
        assert(texts(args@) =~= evasion_args(*self));
        args
    }

    fn listener_part(&self) -> (r: Vec<String>)
        ensures
            texts(r@) == bind_args(*self) + http_proxy_args(*self),
    {
        let mut args = no_args();
        let default_bind = default_bind_address();
        if !chars_eq(&chars_of(self.bind_address.as_str()), &chars_of(default_bind.as_str()))
            && is_socket_addr(self.bind_address.as_str()) {
            append_args(&mut args, flag_and("--bind", self.bind_address.clone()));
        }
        if self.http_proxy_enabled && is_socket_addr(self.http_proxy_address.as_str()) {
            append_args(&mut args, flag_and("--http-proxy", self.http_proxy_address.clone()));
        }
        assert(texts(args@) =~= bind_args(*self) + http_proxy_args(*self));
        args
    }

    fn team_part(&self) -> (r: Vec<String>)
        ensures
            texts(r@) == team_args(*self),
    {
        let team = trimmed(self.zero_trust_team.as_str());
        if team.len() == 0 {
            return no_args();
        }
        let mut args = flag_and("--team", string_of(&team));
        if self.zero_trust_gateway {
            append_args(&mut args, flag_only("--gateway"));
        }
        assert(texts(args@) =~= team_args(*self));
        args
    }

    /// The direct list (see `direct_list`).
    pub fn direct_routes(&self) -> (r: Vec<char>)
        ensures
            r@ == direct_list(*self),
    {
        let mut direct = trimmed(self.route_direct.as_str());
        if self.direct_iran {
            if direct.len() > 0 {
                direct.push(',');
            }
            let preset = chars_of(IR_DIRECT_PRESET);
            crate::text::extend_chars(&mut direct, &preset);
        }
        direct
    }

    fn routing_part(&self) -> (r: Vec<String>)
        ensures
            texts(r@) == routing_args(*self),
    {
        let mut args = text_flag_args("--route-block", trimmed(self.route_block.as_str()));
        append_args(&mut args, text_flag_args("--route-direct", self.direct_routes()));
        append_args(&mut args, text_flag_args("--routes", trimmed(self.routes_file.as_str())));
        assert(texts(args@) =~= routing_args(*self));
        args
    }

    /// The core's command line for this profile. The whole profile is
    /// passed up front, so the core's interactive prompts never appear.
    /// `on_linux` says whether the host is Linux, the one system whose
    /// core accepts `--mark`.
    pub fn as_args(&self, on_linux: bool) -> (r: Vec<String>)
        ensures
            texts(r@) == args_spec(*self, on_linux),
    {
        let mut args = self.core_part();
        append_args(&mut args, self.pin_part());
        append_args(&mut args, self.keepalive_part());
        append_args(&mut args, self.evasion_part());
        append_args(&mut args, self.listener_part());
        append_args(&mut args, text_flag_args("--dns", trimmed(self.dns.as_str())));
        append_args(&mut args, self.team_part());
        append_args(&mut args, self.routing_part());
        assert(texts(args@) =~= base_args(*self));
        if self.vpn_mode && on_linux {
            append_args(&mut args, flag_and("--mark", owned(TUN_FWMARK_STR)));
        }
        assert(texts(args@) =~= args_spec(*self, on_linux));
        args
    }
}

// ---------------------------------------------------------------------------
// Zero Trust credentials and the stored copy
// ---------------------------------------------------------------------------

/// The one credential handed to the core through its environment: only
/// with a Zero Trust team, and only the e-mail or token method (the
/// service id and secret need two variables, so they never come out here).
pub open spec fn zero_trust_env_spec(p: ConnectionProfile) -> Option<(Seq<char>, Seq<char>)> {
    if trim(p.zero_trust_team@).len() == 0 {
        None
    } else {
        match p.zero_trust_auth {
            ZeroTrustAuth::Email => if trim(p.access_email@).len() > 0 {
                Some(("AETHER_ACCESS_EMAIL"@, trim(p.access_email@)))
            } else {
                None
            },
            ZeroTrustAuth::Service => None,
            ZeroTrustAuth::Token => if trim(p.access_token@).len() > 0 {
                Some(("AETHER_ACCESS_TOKEN"@, trim(p.access_token@)))
            } else {
                None
            },
        }
    }
}

/// The settings of a profile other than its access credentials.
pub open spec fn same_settings(a: ConnectionProfile, b: ConnectionProfile) -> bool {
    &&& a.protocol == b.protocol
    &&& a.scan_mode == b.scan_mode
    &&& a.ip_version == b.ip_version
    &&& a.quick_reconnect == b.quick_reconnect
    &&& a.masque_http2 == b.masque_http2
    &&& a.fragment == b.fragment
    &&& a.fragment_size@ == b.fragment_size@
    &&& a.fragment_delay@ == b.fragment_delay@
    &&& a.ech@ == b.ech@
    &&& a.masque_noize == b.masque_noize
    &&& a.wg_noize == b.wg_noize
    &&& a.wg_keepalive@ == b.wg_keepalive@
    &&& a.peer@ == b.peer@
    &&& a.wg_peer@ == b.wg_peer@
    &&& a.wiw_outer@ == b.wiw_outer@
    &&& a.wiw_inner@ == b.wiw_inner@
    &&& a.mim_outer@ == b.mim_outer@
    &&& a.mim_inner@ == b.mim_inner@
    &&& a.bind_address@ == b.bind_address@
    &&& a.http_proxy_enabled == b.http_proxy_enabled
    &&& a.http_proxy_address@ == b.http_proxy_address@
    &&& a.dns@ == b.dns@
    &&& a.zero_trust_team@ == b.zero_trust_team@
    &&& a.zero_trust_auth == b.zero_trust_auth
    &&& a.zero_trust_gateway == b.zero_trust_gateway
    &&& a.route_block@ == b.route_block@
    &&& a.route_direct@ == b.route_direct@
    &&& a.direct_iran == b.direct_iran
    &&& a.routes_file@ == b.routes_file@
    &&& a.autostart == b.autostart
    &&& a.auto_connect == b.auto_connect
    &&& a.vpn_mode == b.vpn_mode
    &&& a.tun_mtu == b.tun_mtu
}

/// No access credential is held.
pub open spec fn holds_no_credentials(p: ConnectionProfile) -> bool {
    &&& p.access_email@.len() == 0
    &&& p.access_client_id@.len() == 0
    &&& p.access_client_secret@.len() == 0
    &&& p.access_token@.len() == 0
}

impl ConnectionProfile {
    /// The Zero Trust credential to hand over as an environment variable
    /// (name, value), so that it never shows on the command line.
    pub fn zero_trust_env(&self) -> (r: Option<(&'static str, &str)>)
        ensures
            match r {
                Some((k, v)) => zero_trust_env_spec(*self) == Some((k@, v@)),
                None => zero_trust_env_spec(*self) is None,
            },
    {
        let team = trimmed(self.zero_trust_team.as_str());
        if team.len() == 0 {
            return None;
        }
        match self.zero_trust_auth {
            ZeroTrustAuth::Email => {
                let e = trim_str(self.access_email.as_str());
                if e.is_empty() {
                    None
                } else {
                    Some(("AETHER_ACCESS_EMAIL", e))
                }
            },
            ZeroTrustAuth::Service => None,
            ZeroTrustAuth::Token => {
                let t = trim_str(self.access_token.as_str());
                if t.is_empty() {
                    None
                } else {
                    Some(("AETHER_ACCESS_TOKEN", t))
                }
            },
        }
    }

    /// The copy of a successful profile that may be stored: every setting
    /// kept, every access credential erased, so that no e-mail address,
    /// service secret or token is ever written out.
    pub fn without_credentials(&self) -> (r: ConnectionProfile)
        ensures
            same_settings(r, *self),
            holds_no_credentials(r),
    {
        ConnectionProfile {
            protocol: self.protocol,
            scan_mode: self.scan_mode,
            ip_version: self.ip_version,
            quick_reconnect: self.quick_reconnect,
            masque_http2: self.masque_http2,
            fragment: self.fragment,
            fragment_size: self.fragment_size.clone(),
            fragment_delay: self.fragment_delay.clone(),
            ech: self.ech.clone(),
            masque_noize: self.masque_noize,
            wg_noize: self.wg_noize,
            wg_keepalive: self.wg_keepalive.clone(),
            peer: self.peer.clone(),
            wg_peer: self.wg_peer.clone(),
            wiw_outer: self.wiw_outer.clone(),
            wiw_inner: self.wiw_inner.clone(),
            mim_outer: self.mim_outer.clone(),
            mim_inner: self.mim_inner.clone(),
            bind_address: self.bind_address.clone(),
            http_proxy_enabled: self.http_proxy_enabled,
            http_proxy_address: self.http_proxy_address.clone(),
            dns: self.dns.clone(),
            zero_trust_team: self.zero_trust_team.clone(),
            zero_trust_auth: self.zero_trust_auth,
            access_email: String::new(),
            access_client_id: String::new(),
            access_client_secret: String::new(),
            access_token: String::new(),
            zero_trust_gateway: self.zero_trust_gateway,
            route_block: self.route_block.clone(),
            route_direct: self.route_direct.clone(),
            direct_iran: self.direct_iran,
            routes_file: self.routes_file.clone(),
            autostart: self.autostart,
            auto_connect: self.auto_connect,
            vpn_mode: self.vpn_mode,
            tun_mtu: self.tun_mtu,
        }
    }
}

// ---------------------------------------------------------------------------
// Laws
// ---------------------------------------------------------------------------

/// One of the two quick-reconnect flags is always on the command line, the
/// one that matches the profile, so the core never asks about it.
pub proof fn law_quick_reconnect_flag_always_passed(p: ConnectionProfile, on_linux: bool)
    ensures
        args_spec(p, on_linux).contains(quick_flag(p.quick_reconnect)),
{
    let k: int = protocol_args(p).len() as int + 2;
    assert(core_args(p)[k] == quick_flag(p.quick_reconnect));
    assert(args_spec(p, on_linux)[k] == core_args(p)[k]);
}

/// The settings that the command line is made from.
pub open spec fn same_cli_settings(a: ConnectionProfile, b: ConnectionProfile) -> bool {
    &&& a.protocol == b.protocol
    &&& a.scan_mode == b.scan_mode
    &&& a.ip_version == b.ip_version
    &&& a.quick_reconnect == b.quick_reconnect
    &&& a.fragment == b.fragment
    &&& a.fragment_size@ == b.fragment_size@
    &&& a.fragment_delay@ == b.fragment_delay@
    &&& a.ech@ == b.ech@
    &&& a.masque_noize == b.masque_noize
    &&& a.wg_noize == b.wg_noize
    &&& a.wg_keepalive@ == b.wg_keepalive@
    &&& a.peer@ == b.peer@
    &&& a.wg_peer@ == b.wg_peer@
    &&& a.wiw_outer@ == b.wiw_outer@
    &&& a.wiw_inner@ == b.wiw_inner@
    &&& a.mim_outer@ == b.mim_outer@
    &&& a.mim_inner@ == b.mim_inner@
    &&& a.bind_address@ == b.bind_address@
    &&& a.http_proxy_enabled == b.http_proxy_enabled
    &&& a.http_proxy_address@ == b.http_proxy_address@
    &&& a.dns@ == b.dns@
    &&& a.zero_trust_team@ == b.zero_trust_team@
    &&& a.zero_trust_gateway == b.zero_trust_gateway
    &&& a.route_block@ == b.route_block@
    &&& a.route_direct@ == b.route_direct@
    &&& a.direct_iran == b.direct_iran
    &&& a.routes_file@ == b.routes_file@
}

proof fn lemma_base_args_from_cli_settings(p: ConnectionProfile, q: ConnectionProfile)
    requires
        same_cli_settings(p, q),
    ensures
        base_args(p) == base_args(q),
{
    assert(core_args(p) == core_args(q));
    assert(pin_args(p) == pin_args(q));
    assert(keepalive_args(p) == keepalive_args(q));
    assert(evasion_args(p) == evasion_args(q));
    assert(bind_args(p) == bind_args(q));
    assert(http_proxy_args(p) == http_proxy_args(q));
    assert(team_args(p) == team_args(q));
    assert(direct_list(p) == direct_list(q));
    assert(routing_args(p) == routing_args(q));
}

/// The command line depends on the settings alone: two profiles with the
/// same settings, whatever access credentials either holds, start the core
/// the same way. No e-mail, service id, secret or token is ever on it.
pub proof fn law_command_line_holds_no_credentials(
    p: ConnectionProfile,
    q: ConnectionProfile,
    on_linux: bool,
)
    requires
        same_settings(p, q),
    ensures
        args_spec(p, on_linux) == args_spec(q, on_linux),
{
    lemma_base_args_from_cli_settings(p, q);
    assert(mark_args(p, on_linux) == mark_args(q, on_linux));
}

/// A pinned `--peer` only reaches the core for Auto, MASQUE and WireGuard:
/// for any other protocol the peer setting changes nothing.
pub proof fn law_peer_pin_stays_in_its_family(p: ConnectionProfile, peer: String, on_linux: bool)
    requires
        !takes_peer(p.protocol),
    ensures
        args_spec(ConnectionProfile { peer, ..p }, on_linux) == args_spec(p, on_linux),
{
    let q = ConnectionProfile { peer, ..p };
    assert(pin_args(q) =~= pin_args(p));
    assert(core_args(q) =~= core_args(p));
}

/// The WireGuard peer, WARP-in-WARP hops, keepalive and WireGuard noize only
/// reach the core for WireGuard and gool.
pub proof fn law_wireguard_settings_stay_in_their_family(
    p: ConnectionProfile,
    wg_peer: String,
    wiw_outer: String,
    wiw_inner: String,
    wg_keepalive: String,
    wg_noize: WgNoize,
    on_linux: bool,
)
    requires
        !wg_family(p.protocol),
    ensures
        args_spec(
            ConnectionProfile { wg_peer, wiw_outer, wiw_inner, wg_keepalive, wg_noize, ..p },
            on_linux,
        ) == args_spec(p, on_linux),
{
    let q = ConnectionProfile { wg_peer, wiw_outer, wiw_inner, wg_keepalive, wg_noize, ..p };
    assert(masque_family(p.protocol));
    assert(core_args(q) =~= core_args(p));
    assert(pin_args(q) =~= pin_args(p));
    assert(keepalive_args(q) =~= keepalive_args(p));
}

/// MASQUE-in-MASQUE hops only reach the core for the `mim` protocol.
pub proof fn law_mim_hops_stay_in_their_protocol(
    p: ConnectionProfile,
    mim_outer: String,
    mim_inner: String,
    on_linux: bool,
)
    requires
        p.protocol != Protocol::Mim,
    ensures
        args_spec(ConnectionProfile { mim_outer, mim_inner, ..p }, on_linux) == args_spec(
            p,
            on_linux,
        ),
{
    let q = ConnectionProfile { mim_outer, mim_inner, ..p };
    assert(pin_args(q) =~= pin_args(p));
}

/// Fragmentation, ECH and the MASQUE noize only reach the core for the
/// MASQUE family; WireGuard has no ClientHello to fragment.
pub proof fn law_masque_evasion_stays_in_its_family(
    p: ConnectionProfile,
    fragment: bool,
    fragment_size: String,
    fragment_delay: String,
    ech: String,
    masque_noize: MasqueNoize,
    on_linux: bool,
)
    requires
        !masque_family(p.protocol),
    ensures
        args_spec(
            ConnectionProfile { fragment, fragment_size, fragment_delay, ech, masque_noize, ..p },
            on_linux,
        ) == args_spec(p, on_linux),
{
    let q = ConnectionProfile { fragment, fragment_size, fragment_delay, ech, masque_noize, ..p };
    assert(core_args(q) =~= core_args(p));
    assert(evasion_args(q) =~= evasion_args(p));
}

/// VPN mode never reaches the core as a flag of its own: off Linux it
/// changes nothing, on Linux it adds exactly `--mark 0x9e` at the end.
pub proof fn law_vpn_mode_adds_only_the_mark(p: ConnectionProfile)
    ensures
        args_spec(ConnectionProfile { vpn_mode: true, ..p }, false) == args_spec(
            ConnectionProfile { vpn_mode: false, ..p },
            false,
        ),
        args_spec(ConnectionProfile { vpn_mode: true, ..p }, true) == args_spec(
            ConnectionProfile { vpn_mode: false, ..p },
            true,
        ) + seq!["--mark"@, TUN_FWMARK_STR@],
{
    let on = ConnectionProfile { vpn_mode: true, ..p };
    let off = ConnectionProfile { vpn_mode: false, ..p };
    lemma_base_args_from_cli_settings(on, off);
    assert(args_spec(on, false) =~= args_spec(off, false));
    assert(args_spec(on, true) =~= args_spec(off, true) + seq!["--mark"@, TUN_FWMARK_STR@]);
}

/// The Iranian preset is merged with the user's own direct entries, never
/// in place of them: the list starts with the user's entries, and the
/// preset follows them whenever the switch is on.
pub proof fn law_iran_preset_merges_with_user_list(p: ConnectionProfile)
    ensures
        trim(p.route_direct@).is_prefix_of(direct_list(p)),
        p.direct_iran ==> IR_DIRECT_PRESET@.is_suffix_of(direct_list(p)),
        !p.direct_iran ==> direct_list(p) == trim(p.route_direct@),
{
    let user = trim(p.route_direct@);
    let d = direct_list(p);
    if p.direct_iran {
        if user.len() > 0 {
            assert(d.subrange(0, user.len() as int) =~= user);
            assert(d.subrange(d.len() - IR_DIRECT_PRESET@.len(), d.len() as int)
                =~= IR_DIRECT_PRESET@);
        } else {
            assert(d.subrange(0, 0) =~= user);
            assert(d.subrange(0, d.len() as int) =~= d);
        }
    } else {
        assert(d.subrange(0, user.len() as int) =~= user);
    }
}

/// A stored profile hands no credential to the core: with every access
/// credential erased, the environment gets nothing either.
pub proof fn law_stored_profile_hands_over_nothing(p: ConnectionProfile)
    requires
        holds_no_credentials(p),
    ensures
        zero_trust_env_spec(p) is None,
{
    assert(trim(p.access_email@) =~= Seq::<char>::empty());
    assert(trim(p.access_token@) =~= Seq::<char>::empty());
}

/// The flags that only this app may put on the command line: `--mark`, and
/// the `--vpn` / `--tun` that the core does not have.
pub open spec fn reserved_flag(t: Seq<char>) -> bool {
    t == "--vpn"@ || t == "--tun"@ || t == "--mark"@
}

/// None of the free-text fields that reach the command line as typed
/// (ECH, resolvers, team, block list, direct list, routes file) trims to a
/// reserved flag.
pub open spec fn free_text_unreserved(p: ConnectionProfile) -> bool {
    &&& !reserved_flag(trim(p.ech@))
    &&& !reserved_flag(trim(p.dns@))
    &&& !reserved_flag(trim(p.zero_trust_team@))
    &&& !reserved_flag(trim(p.route_block@))
    &&& !reserved_flag(trim(p.route_direct@))
    &&& !reserved_flag(trim(p.routes_file@))
}

/// No element of `a` is a reserved flag.
pub open spec fn unreserved(a: Seq<Seq<char>>) -> bool {
    forall|i: int| 0 <= i < a.len() ==> !reserved_flag(#[trigger] a[i])
}

proof fn lemma_unreserved_concat(a: Seq<Seq<char>>, b: Seq<Seq<char>>)
    requires
        unreserved(a),
        unreserved(b),
    ensures
        unreserved(a + b),
{
    assert forall|i: int| 0 <= i < (a + b).len() implies !reserved_flag(#[trigger] (a + b)[i]) by {
        if i < a.len() {
            assert((a + b)[i] == a[i]);
        } else {
            assert((a + b)[i] == b[i - a.len()]);
        }
    }
}

proof fn lemma_reveal_reserved()
    ensures
        "--vpn"@ == seq!['-', '-', 'v', 'p', 'n'],
        "--tun"@ == seq!['-', '-', 't', 'u', 'n'],
        "--mark"@ == seq!['-', '-', 'm', 'a', 'r', 'k'],
{
    reveal_strlit("--vpn");
    reveal_strlit("--tun");
    reveal_strlit("--mark");
}

/// A text whose first character is not a dash, or that holds a comma, or
/// a colon, is no reserved flag.
proof fn lemma_not_reserved(t: Seq<char>)
    ensures
        (t.len() > 0 && t[0] != '-') ==> !reserved_flag(t),
        (exists|i: int| 0 <= i < t.len() && (#[trigger] t[i] == ',' || t[i] == ':'))
            ==> !reserved_flag(t),
        reserved_flag(t) ==> lacks(t, ':') && t.len() > 0 && t[0] == '-' && t[0] != '[',
{
    lemma_reveal_reserved();
}

proof fn lemma_core_unreserved(p: ConnectionProfile)
    ensures
        unreserved(core_args(p)),
{
    lemma_reveal_reserved();
    reveal_strlit("--masque");
    reveal_strlit("--wg");
    reveal_strlit("--gool");
    reveal_strlit("--mim");
    reveal_strlit("--turbo");
    reveal_strlit("--balanced");
    reveal_strlit("--thorough");
    reveal_strlit("--stealth");
    reveal_strlit("--ironclad");
    reveal_strlit("-4");
    reveal_strlit("-6");
    reveal_strlit("--dual");
    reveal_strlit("--quick-reconnect");
    reveal_strlit("--no-quick-reconnect");
    reveal_strlit("--noize");
    reveal_strlit("firewall");
    reveal_strlit("gfw");
    reveal_strlit("off");
    reveal_strlit("balanced");
    reveal_strlit("aggressive");
    reveal_strlit("light");
    let a = core_args(p);
    assert forall|i: int| 0 <= i < a.len() implies !reserved_flag(#[trigger] a[i]) by {
        lemma_not_reserved(a[i]);
    }
}

proof fn lemma_opt_endpoint_unreserved(flag: Seq<char>, s: Seq<char>)
    requires
        flag.len() > 0 && flag[0] == '-' && !reserved_flag(flag),
    ensures
        unreserved(opt_flag(flag, endpoint_spec(s))),
{
    crate::canonical::lemma_endpoint_not_dashed(s);
    if let Some(t) = endpoint_spec(s) {
        lemma_not_reserved(t);
        assert(opt_flag(flag, endpoint_spec(s))[1] == t);
    }
}

proof fn lemma_pin_unreserved(p: ConnectionProfile)
    ensures
        unreserved(pin_args(p)),
{
    lemma_reveal_reserved();
    reveal_strlit("--peer");
    reveal_strlit("--wg-peer");
    reveal_strlit("--wiw-outer");
    reveal_strlit("--wiw-inner");
    reveal_strlit("--mim-outer");
    reveal_strlit("--mim-inner");
    let e = Seq::<Seq<char>>::empty();
    assert(unreserved(e));
    lemma_opt_endpoint_unreserved("--peer"@, p.peer@);
    lemma_opt_endpoint_unreserved("--wg-peer"@, p.wg_peer@);
    lemma_opt_endpoint_unreserved("--wiw-outer"@, p.wiw_outer@);
    lemma_opt_endpoint_unreserved("--wiw-inner"@, p.wiw_inner@);
    lemma_opt_endpoint_unreserved("--mim-outer"@, p.mim_outer@);
    lemma_opt_endpoint_unreserved("--mim-inner"@, p.mim_inner@);
    let a = if takes_peer(p.protocol) {
        opt_flag("--peer"@, endpoint_spec(p.peer@))
    } else {
        e
    };
    let b = if wg_family(p.protocol) {
        opt_flag("--wg-peer"@, endpoint_spec(p.wg_peer@))
    } else {
        e
    };
    let c = if p.protocol == Protocol::Gool {
        opt_flag("--wiw-outer"@, endpoint_spec(p.wiw_outer@)) + opt_flag(
            "--wiw-inner"@,
            endpoint_spec(p.wiw_inner@),
        )
    } else {
        e
    };
    let d = if p.protocol == Protocol::Mim {
        opt_flag("--mim-outer"@, endpoint_spec(p.mim_outer@)) + opt_flag(
            "--mim-inner"@,
            endpoint_spec(p.mim_inner@),
        )
    } else {
        e
    };
    lemma_unreserved_concat(
        opt_flag("--wiw-outer"@, endpoint_spec(p.wiw_outer@)),
        opt_flag("--wiw-inner"@, endpoint_spec(p.wiw_inner@)),
    );
    lemma_unreserved_concat(
        opt_flag("--mim-outer"@, endpoint_spec(p.mim_outer@)),
        opt_flag("--mim-inner"@, endpoint_spec(p.mim_inner@)),
    );
    lemma_unreserved_concat(a, b);
    lemma_unreserved_concat(a + b, c);
    lemma_unreserved_concat(a + b + c, d);
    assert(pin_args(p) == a + b + c + d);
}

/// A text whose first dash-separated piece is not empty does not start
/// with a dash.
proof fn lemma_first_piece_not_empty(t: Seq<char>)
    requires
        t.len() > 0,
        split(t, '-')[0].len() > 0,
    ensures
        t[0] != '-',
{
    if t[0] == '-' {
        let e = Seq::<char>::empty();
        assert(t =~= e + seq!['-'] + t.drop_first());
        crate::text::lemma_split_concat(e, t.drop_first(), '-');
        assert(split(e, '-') =~= seq![e]);
    }
}

proof fn lemma_opt_range_unreserved(flag: Seq<char>, s: Seq<char>)
    requires
        !reserved_flag(flag),
    ensures
        unreserved(opt_flag(flag, range_spec(s))),
{
    if let Some(t) = range_spec(s) {
        assert(positive_numeral(split(t, '-')[0]));
        lemma_first_piece_not_empty(t);
        lemma_not_reserved(t);
    }
}

proof fn lemma_text_flag_unreserved(flag: Seq<char>, t: Seq<char>)
    requires
        !reserved_flag(flag),
        !reserved_flag(t),
    ensures
        unreserved(text_flag(flag, t)),
{
}

proof fn lemma_middle_unreserved(p: ConnectionProfile)
    requires
        free_text_unreserved(p),
    ensures
        unreserved(keepalive_args(p)),
        unreserved(evasion_args(p)),
        unreserved(bind_args(p)),
        unreserved(http_proxy_args(p)),
        unreserved(text_flag("--dns"@, trim(p.dns@))),
        unreserved(team_args(p)),
{
    lemma_reveal_reserved();
    reveal_strlit("--keepalive");
    reveal_strlit("--fragment");
    reveal_strlit("--fragment-size");
    reveal_strlit("--fragment-delay");
    reveal_strlit("--ech");
    reveal_strlit("--bind");
    reveal_strlit("--http-proxy");
    reveal_strlit("--dns");
    reveal_strlit("--team");
    reveal_strlit("--gateway");
    let k = trim(p.wg_keepalive@);
    if k.len() > 0 && all_digits(k) {
        assert(is_digit(k[0]));
        lemma_not_reserved(k);
    }
    lemma_opt_range_unreserved("--fragment-size"@, p.fragment_size@);
    lemma_opt_range_unreserved("--fragment-delay"@, p.fragment_delay@);
    let e = Seq::<Seq<char>>::empty();
    assert(unreserved(seq!["--fragment"@]));
    lemma_unreserved_concat(seq!["--fragment"@], opt_flag("--fragment-size"@, range_spec(p.fragment_size@)));
    lemma_unreserved_concat(
        seq!["--fragment"@] + opt_flag("--fragment-size"@, range_spec(p.fragment_size@)),
        opt_flag("--fragment-delay"@, range_spec(p.fragment_delay@)),
    );
    let frag = if p.fragment {
        seq!["--fragment"@] + opt_flag("--fragment-size"@, range_spec(p.fragment_size@))
            + opt_flag("--fragment-delay"@, range_spec(p.fragment_delay@))
    } else {
        e
    };
    lemma_text_flag_unreserved("--ech"@, trim(p.ech@));
    lemma_unreserved_concat(frag, text_flag("--ech"@, trim(p.ech@)));
    lemma_not_reserved(p.bind_address@);
    if reserved_flag(p.bind_address@) {
        crate::text::lemma_split_single(p.bind_address@, ':');
    }
    lemma_not_reserved(p.http_proxy_address@);
    if reserved_flag(p.http_proxy_address@) {
        crate::text::lemma_split_single(p.http_proxy_address@, ':');
    }
    lemma_text_flag_unreserved("--dns"@, trim(p.dns@));
    let team = trim(p.zero_trust_team@);
    if team.len() > 0 {
        lemma_unreserved_concat(
            seq!["--team"@, team],
            if p.zero_trust_gateway {
                seq!["--gateway"@]
            } else {
                e
            },
        );
    }
}

proof fn lemma_routing_unreserved(p: ConnectionProfile)
    requires
        free_text_unreserved(p),
    ensures
        unreserved(routing_args(p)),
{
    lemma_reveal_reserved();
    reveal_strlit("--route-block");
    reveal_strlit("--route-direct");
    reveal_strlit("--routes");
    reveal_strlit("private,digikala.com,aparat.com,filimo.com,telewebion.com,varzesh3.com,snapp.ir,cafebazaar.ir,divar.ir,namava.ir,shad.ir");
    let user = trim(p.route_direct@);
    let d = direct_list(p);
    if p.direct_iran && user.len() > 0 {
        assert(d[user.len() as int] == ',');
        lemma_not_reserved(d);
    }
    if p.direct_iran && user.len() == 0 {
        assert(d[0] == 'p');
        lemma_not_reserved(d);
    }
    assert(!reserved_flag(d));
    lemma_text_flag_unreserved("--route-block"@, trim(p.route_block@));
    lemma_text_flag_unreserved("--route-direct"@, d);
    lemma_text_flag_unreserved("--routes"@, trim(p.routes_file@));
    lemma_unreserved_concat(
        text_flag("--route-block"@, trim(p.route_block@)),
        text_flag("--route-direct"@, d),
    );
    lemma_unreserved_concat(
        text_flag("--route-block"@, trim(p.route_block@)) + text_flag("--route-direct"@, d),
        text_flag("--routes"@, trim(p.routes_file@)),
    );
}

/// VPN mode never reaches the core as a bare `--vpn` or `--tun` flag, and
/// `--mark` appears exactly when VPN mode is on and the host is Linux, as
/// the last two arguments `--mark 0x9e` (given free-text fields that do
/// not themselves trim to one of these flags).
pub proof fn law_no_bare_vpn_flag(p: ConnectionProfile, on_linux: bool)
    requires
        free_text_unreserved(p),
    ensures
        forall|i: int|
            0 <= i < args_spec(p, on_linux).len() ==> #[trigger] args_spec(p, on_linux)[i]
                != "--vpn"@ && args_spec(p, on_linux)[i] != "--tun"@,
        (exists|i: int|
            0 <= i < args_spec(p, on_linux).len() && #[trigger] args_spec(p, on_linux)[i]
                == "--mark"@) <==> (p.vpn_mode && on_linux),
        (p.vpn_mode && on_linux) ==> args_spec(p, on_linux).len() >= 2 && args_spec(
            p,
            on_linux,
        ).subrange(args_spec(p, on_linux).len() - 2, args_spec(p, on_linux).len() as int)
            == seq!["--mark"@, TUN_FWMARK_STR@],
{
    lemma_reveal_reserved();
    reveal_strlit("0x9e");
    reveal_strlit("--dns");
    lemma_core_unreserved(p);
    lemma_pin_unreserved(p);
    lemma_middle_unreserved(p);
    lemma_routing_unreserved(p);
    let b = base_args(p);
    lemma_unreserved_concat(core_args(p), pin_args(p));
    lemma_unreserved_concat(core_args(p) + pin_args(p), keepalive_args(p));
    lemma_unreserved_concat(core_args(p) + pin_args(p) + keepalive_args(p), evasion_args(p));
    lemma_unreserved_concat(
        core_args(p) + pin_args(p) + keepalive_args(p) + evasion_args(p),
        bind_args(p),
    );
    lemma_unreserved_concat(
        core_args(p) + pin_args(p) + keepalive_args(p) + evasion_args(p) + bind_args(p),
        http_proxy_args(p),
    );
    lemma_unreserved_concat(
        core_args(p) + pin_args(p) + keepalive_args(p) + evasion_args(p) + bind_args(p)
            + http_proxy_args(p),
        text_flag("--dns"@, trim(p.dns@)),
    );
    lemma_unreserved_concat(
        core_args(p) + pin_args(p) + keepalive_args(p) + evasion_args(p) + bind_args(p)
            + http_proxy_args(p) + text_flag("--dns"@, trim(p.dns@)),
        team_args(p),
    );
    lemma_unreserved_concat(
        core_args(p) + pin_args(p) + keepalive_args(p) + evasion_args(p) + bind_args(p)
            + http_proxy_args(p) + text_flag("--dns"@, trim(p.dns@)) + team_args(p),
        routing_args(p),
    );
    assert(unreserved(b));
    let a = args_spec(p, on_linux);
    let m = mark_args(p, on_linux);
    assert(a == b + m);
    assert forall|i: int| 0 <= i < a.len() implies #[trigger] a[i] != "--vpn"@ && a[i] != "--tun"@ by {
        if i < b.len() {
            assert(a[i] == b[i]);
        } else {
            assert(a[i] == m[i - b.len()]);
        }
    }
    if p.vpn_mode && on_linux {
        assert(a[b.len() as int] == "--mark"@);
        assert(a.subrange(a.len() - 2, a.len() as int) =~= seq!["--mark"@, TUN_FWMARK_STR@]);
    } else {
        assert(m.len() == 0);
        assert forall|i: int| 0 <= i < a.len() implies #[trigger] a[i] != "--mark"@ by {
            assert(a[i] == b[i]);
        }
    }
}

/// The scan modes in the order of the core's scan-mode menu.
pub open spec fn scan_menu() -> Seq<ScanMode> {
    seq![ScanMode::Turbo, ScanMode::Balanced, ScanMode::Thorough, ScanMode::Stealth, ScanMode::Ironclad]
}

/// Where the scan-mode flag stands: first, or right after the protocol flag
/// when the protocol is not `Auto`.
pub open spec fn scan_flag_position(p: ConnectionProfile) -> int {
    if p.protocol == Protocol::Auto {
        0
    } else {
        1
    }
}

/// The scan mode at position `i` of the core's menu is answered at its
/// prompt with the single digit `i + 1`, and is asked for on the command
/// line, right after the optional protocol flag, with the core's flag of
/// that mode: `--turbo`, `--balanced`, `--thorough`, `--stealth`,
/// `--ironclad` in menu order.
pub proof fn law_scan_mode_is_its_menu_entry(p: ConnectionProfile, on_linux: bool, i: int)
    requires
        0 <= i < 5,
        p.scan_mode == scan_menu()[i],
    ensures
        scan_menu_choice(p.scan_mode).len() == 1,
        is_digit(scan_menu_choice(p.scan_mode)[0]),
        digit_val(scan_menu_choice(p.scan_mode)[0]) == i + 1,
        args_spec(p, on_linux).len() > scan_flag_position(p),
        args_spec(p, on_linux)[scan_flag_position(p)] == seq![
            "--turbo"@,
            "--balanced"@,
            "--thorough"@,
            "--stealth"@,
            "--ironclad"@,
        ][i],
{
    reveal_strlit("1");
    reveal_strlit("2");
    reveal_strlit("3");
    reveal_strlit("4");
    reveal_strlit("5");
    let k = scan_flag_position(p);
    assert(core_args(p)[k] == scan_flag(p.scan_mode));
    assert(args_spec(p, on_linux)[k] == core_args(p)[k]);
}

/// Different scan modes give different prompt answers and, for the same
/// protocol, different scan flags: no mode is ever asked for as another.
pub proof fn law_scan_modes_are_told_apart(
    p: ConnectionProfile,
    q: ConnectionProfile,
    on_linux: bool,
)
    requires
        p.protocol == q.protocol,
        p.scan_mode != q.scan_mode,
    ensures
        scan_menu_choice(p.scan_mode) != scan_menu_choice(q.scan_mode),
        args_spec(p, on_linux)[scan_flag_position(p)] != args_spec(q, on_linux)[scan_flag_position(q)],
{
    reveal_strlit("1");
    reveal_strlit("2");
    reveal_strlit("3");
    reveal_strlit("4");
    reveal_strlit("5");
    reveal_strlit("--turbo");
    reveal_strlit("--balanced");
    reveal_strlit("--thorough");
    reveal_strlit("--stealth");
    reveal_strlit("--ironclad");
    let k = scan_flag_position(p);
    assert(core_args(p)[k] == scan_flag(p.scan_mode));
    assert(args_spec(p, on_linux)[k] == core_args(p)[k]);
    assert(core_args(q)[k] == scan_flag(q.scan_mode));
    assert(args_spec(q, on_linux)[k] == core_args(q)[k]);
    if scan_menu_choice(p.scan_mode) == scan_menu_choice(q.scan_mode) {
        assert(scan_menu_choice(p.scan_mode)[0] == scan_menu_choice(q.scan_mode)[0]);
    }
    if scan_flag(p.scan_mode) == scan_flag(q.scan_mode) {
        assert(scan_flag(p.scan_mode).len() == scan_flag(q.scan_mode).len());
        assert(scan_flag(p.scan_mode)[2] == scan_flag(q.scan_mode)[2]);
        assert(scan_flag(p.scan_mode)[3] == scan_flag(q.scan_mode)[3]);
    }
}

/// The protocols in the order of the core's protocol menu (`Auto` is
/// MASQUE, the core's default, and is answered as such).
pub open spec fn protocol_menu() -> Seq<Protocol> {
    seq![Protocol::Masque, Protocol::Wireguard, Protocol::Gool, Protocol::Mim]
}

/// The address families in the order of the core's IP-version menu.
pub open spec fn ip_menu() -> Seq<IpVersion> {
    seq![IpVersion::V4, IpVersion::V6, IpVersion::Both]
}

/// The protocol at position `i` of the core's menu is answered with the
/// single digit `i + 1` (`Auto` with MASQUE's `1`) and, but for `Auto`,
/// asked for first on the command line with its own flag: `--masque`,
/// `--wg`, `--gool`, `--mim` in menu order.
pub proof fn law_protocol_is_its_menu_entry(p: ConnectionProfile, on_linux: bool, i: int)
    requires
        0 <= i < 4,
        p.protocol == protocol_menu()[i] || (p.protocol == Protocol::Auto && i == 0),
    ensures
        protocol_menu_choice(p.protocol).len() == 1,
        is_digit(protocol_menu_choice(p.protocol)[0]),
        digit_val(protocol_menu_choice(p.protocol)[0]) == i + 1,
        p.protocol != Protocol::Auto ==> args_spec(p, on_linux)[0] == seq![
            "--masque"@,
            "--wg"@,
            "--gool"@,
            "--mim"@,
        ][i],
        p.protocol == Protocol::Auto ==> args_spec(p, on_linux)[0] == scan_flag(p.scan_mode),
{
    reveal_strlit("1");
    reveal_strlit("2");
    reveal_strlit("3");
    reveal_strlit("4");
    assert(args_spec(p, on_linux)[0] == core_args(p)[0]);
}

/// After the scan flag come, in this order: the address family's flag
/// (`-4`, `-6`, `--dual` in the order of the core's menu, whose prompt is
/// answered with the digit `i + 1`), the quick-reconnect flag that matches
/// the setting, and `--noize` with the profile of the active family:
/// `firewall`, `gfw`, `off` for MASQUE; `balanced`, `aggressive`, `light`,
/// `off` for WireGuard and gool.
pub proof fn law_core_flags_follow_the_settings(p: ConnectionProfile, on_linux: bool, i: int)
    requires
        0 <= i < 3,
        p.ip_version == ip_menu()[i],
    ensures
        digit_val(ip_menu_choice(p.ip_version)[0]) == i + 1,
        ip_menu_choice(p.ip_version).len() == 1,
        ({
            let a = args_spec(p, on_linux);
            let k = scan_flag_position(p);
            &&& a.len() > k + 4
            &&& a[k + 1] == seq!["-4"@, "-6"@, "--dual"@][i]
            &&& a[k + 2] == (if p.quick_reconnect {
                "--quick-reconnect"@
            } else {
                "--no-quick-reconnect"@
            })
            &&& a[k + 3] == "--noize"@
            &&& a[k + 4] == if p.protocol == Protocol::Auto || p.protocol == Protocol::Masque
                || p.protocol == Protocol::Mim {
                match p.masque_noize {
                    MasqueNoize::Firewall => "firewall"@,
                    MasqueNoize::Gfw => "gfw"@,
                    MasqueNoize::Off => "off"@,
                }
            } else {
                match p.wg_noize {
                    WgNoize::Balanced => "balanced"@,
                    WgNoize::Aggressive => "aggressive"@,
                    WgNoize::Light => "light"@,
                    WgNoize::Off => "off"@,
                }
            }
        }),
{
    reveal_strlit("1");
    reveal_strlit("2");
    reveal_strlit("3");
    let k = scan_flag_position(p);
    let a = args_spec(p, on_linux);
    assert(a[k + 1] == core_args(p)[k + 1]);
    assert(a[k + 2] == core_args(p)[k + 2]);
    assert(a[k + 3] == core_args(p)[k + 3]);
    assert(a[k + 4] == core_args(p)[k + 4]);
}

} // verus!
