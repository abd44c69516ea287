//! VPN mode: the decisions around the TUN layer that sits between the
//! system and the core's SOCKS5 port. Where the forwarder dials, its
//! configuration file, the arguments of the privileged helper scripts,
//! the quoting of an elevated PowerShell launch, and what each outcome
//! means for the session and its log.
use vstd::prelude::*;
use crate::addr::{
    ip_text, ip_text_of, is_unspecified, is_unspecified_addr, parse_dec, parse_model,
    parse_socket_addr, port_number, port_of, sub_chars,
};
use crate::profile::texts;
use crate::text::{
    all_digits, chars_of, dec_text, dec_val, extend_chars, extend_str, is_ws_char, lacks,
    lemma_split_nonempty, owned, push_dec, split, split_chars, string_of, trim, trim_chars,
    trim_end, trimmed, views,
};

verus! {

/// Kernel interface / adapter name (deliberately not `tun0`).
pub const TUN_NAME: &'static str = "aether0";

/// Address of the TUN interface (reserved TEST-NET space).
pub const TUN_IPV4: &'static str = "198.18.0.1";

/// ULA address of the adapter for IPv6.
pub const TUN_IPV6: &'static str = "fc00::1";

/// MTU of the TUN adapter unless the profile sets one.
pub const TUN_MTU: u32 = 1500;

/// Firewall mark shared by the core's `--mark` and the forwarder's `mark:`.
pub const TUN_FWMARK: u32 = 0x9e;

pub const TUN_FWMARK_STR: &'static str = "0x9e";

/// Resolvers used while the VPN is up when the profile names none.
pub const FALLBACK_DNS: &'static str = "1.1.1.1,1.0.0.1";

/// Exit code the elevated launcher reports when the UAC prompt is declined.
pub const UAC_CANCELLED_CODE: i32 = 1223;

pub const HEV_PID_FILE: &'static str = "hev.pid";

pub const HEV_CONFIG_FILE: &'static str = "hev-tunnel.yml";

pub const HEV_LOG_FILE: &'static str = "hev.log";

// ---------------------------------------------------------------------------
// Status
// ---------------------------------------------------------------------------

/// What the VPN layer is doing.
#[derive(Clone, Debug)]
pub struct VpnStatus {
    pub active: bool,
    pub iface: String,
    pub detail: String,
}

/// The status for a forwarder that is (`alive`) or is not running and an
/// interface that does (`iface`) or does not exist: active only with both.
pub open spec fn status_detail(alive: bool, iface: bool) -> Seq<char> {
    if alive && iface {
        "TUN aether0 via hev-socks5-tunnel"@
    } else if alive {
        "hev running but interface missing"@
    } else if iface {
        "stale aether0 interface, hev not running"@
    } else {
        "down"@
    }
}

/// The status of the VPN layer (see `status_detail`).
pub fn status(alive: bool, iface: bool) -> (r: VpnStatus)
    ensures
        r.active == (alive && iface),
        r.iface@ == TUN_NAME@,
        r.detail@ == status_detail(alive, iface),
{
    let detail = if alive && iface {
        owned("TUN aether0 via hev-socks5-tunnel")
    } else if alive {
        owned("hev running but interface missing")
    } else if iface {
        owned("stale aether0 interface, hev not running")
    } else {
        owned("down")
    };
    VpnStatus { active: alive && iface, iface: owned(TUN_NAME), detail }
}

// ---------------------------------------------------------------------------
// Where the forwarder dials
// ---------------------------------------------------------------------------

/// The SOCKS5 host and port the forwarder dials for a `--bind` address:
/// the bound address itself, except that a wildcard bind is dialed back
/// over loopback; an address that does not parse falls back to the
/// default `127.0.0.1:1819`.
pub open spec fn socks_target_spec(bind: Seq<char>) -> (Seq<char>, u16) {
    match parse_model(bind) {
        Some(m) => (
            if is_unspecified(m) {
                "127.0.0.1"@
            } else {
                ip_text(m)
            },
            port_of(m),
        ),
        None => ("127.0.0.1"@, 1819),
    }
}

pub fn socks_target(bind_address: &str) -> (r: (String, u16))
    ensures
        (r.0@, r.1) == socks_target_spec(bind_address@),
{
    match parse_socket_addr(&chars_of(bind_address)) {
        Some(a) => {
            let host = if is_unspecified_addr(&a) {
                owned("127.0.0.1")
            } else {
                string_of(&ip_text_of(&a))
            };
            (host, port_number(&a))
        },
        None => (owned("127.0.0.1"), 1819),
    }
}

// ---------------------------------------------------------------------------
// Forwarder configuration
// ---------------------------------------------------------------------------

/// The forwarder's YAML configuration. Windows carries an IPv6 address and
/// no `mark:` line (there is no socket mark there); elsewhere the mark
/// keeps the forwarder's own traffic out of the tunnel.
pub open spec fn hev_config_text(host: Seq<char>, port: u16, log: Seq<char>, for_windows: bool) -> Seq<char> {
    "# Generated by Aethery VPN mode \u{2014} do not edit (regenerated per connect).\ntunnel:\n name: aether0\n mtu: 1500\n multi-queue: false\n ipv4: 198.18.0.1\n"@
        + (if for_windows {
        " ipv6: 'fc00::1'\n"@
    } else {
        Seq::empty()
    }) + "socks5:\n address: "@ + host + "\n port: "@ + dec_text(port as nat)
        + "\n udp: 'udp'\n"@ + (if for_windows {
        Seq::empty()
    } else {
        " mark: 158\n"@
    }) + "misc:\n log-file: '"@ + log + "'\n log-level: warn\n task-stack-size: 86016\n"@
}

/// The forwarder configuration for a SOCKS5 target and a log file path.
pub fn hev_config(host: &str, port: u16, log_file: &str, for_windows: bool) -> (r: String)
    ensures
        r@ == hev_config_text(host@, port, log_file@, for_windows),
{
    let mut out: Vec<char> = Vec::new();
    extend_str(
        &mut out,
        "# Generated by Aethery VPN mode \u{2014} do not edit (regenerated per connect).\ntunnel:\n name: aether0\n mtu: 1500\n multi-queue: false\n ipv4: 198.18.0.1\n",
    );
    if for_windows {
        extend_str(&mut out, " ipv6: 'fc00::1'\n");
    }
    extend_str(&mut out, "socks5:\n address: ");
    extend_str(&mut out, host);
    extend_str(&mut out, "\n port: ");
    push_dec(&mut out, port as u64);
    extend_str(&mut out, "\n udp: 'udp'\n");
    if !for_windows {
        extend_str(&mut out, " mark: 158\n");
    }
    extend_str(&mut out, "misc:\n log-file: '");
    extend_str(&mut out, log_file);
    extend_str(&mut out, "'\n log-level: warn\n task-stack-size: 86016\n");
    assert(out@ =~= hev_config_text(host@, port, log_file@, for_windows));
    string_of(&out)
}

/// `std::path::Path`, carried through unread.
#[verifier::external_type_specification]
#[verifier::external_body]
pub struct ExPath(std::path::Path);

/// A plain file name: no separator of any system (`/`, `\`), no drive
/// colon, and neither `.` nor `..`.
pub open spec fn plain_file_name(name: Seq<char>) -> bool {
    &&& lacks(name, '/')
    &&& lacks(name, '\\')
    &&& lacks(name, ':')
    &&& name != "."@
    &&& name != ".."@
}

/// `t` ends with `suffix`.
pub open spec fn ends_with(t: Seq<char>, suffix: Seq<char>) -> bool {
    t.len() >= suffix.len() && t.subrange(t.len() - suffix.len(), t.len() as int) == suffix
}

/// Calls `Path::join` on `dir` and `name`, then `Path::display`, and gives
/// the text. Joining a plain relative file name appends it as the last
/// component, so the text ends with `name`; what comes before it (the
/// directory and the separator) depends on the host system and is not
/// stated.
#[verifier::external_body]
fn path_in(dir: &std::path::Path, name: &str) -> (r: String)
    requires
        plain_file_name(name@),
    ensures
        ends_with(r@, name@),
{
    dir.join(name).display().to_string()
}

/// The forwarder configuration, its log file `hev.log` kept in the data
/// directory `data`. The directory part of the log path is whatever
/// `Path::join` makes of `data`; the rest of the text is fixed by the target.
pub fn hev_config_for(host: &str, port: u16, data: &std::path::Path, for_windows: bool) -> (r: String)
    ensures
        exists|log: Seq<char>|
            ends_with(log, HEV_LOG_FILE@) && r@ == hev_config_text(host@, port, log, for_windows),
{
    proof {
        reveal_strlit("hev.log");
        reveal_strlit(".");
        reveal_strlit("..");
    }
    let log = path_in(data, HEV_LOG_FILE);
    let r = hev_config(host, port, log.as_str(), for_windows);
    assert(ends_with(log@, HEV_LOG_FILE@) && r@ == hev_config_text(host@, port, log@, for_windows));
    r
}

// ---------------------------------------------------------------------------
// Helper-script arguments
// ---------------------------------------------------------------------------

/// The resolvers for the system while the VPN is up.
pub open spec fn tun_dns_spec(dns: Seq<char>) -> Seq<char> {
    if trim(dns).len() == 0 {
        FALLBACK_DNS@
    } else {
        trim(dns)
    }
}

pub fn tun_dns(dns: &str) -> (r: String)
    ensures
        r@ == tun_dns_spec(dns@),
{
    let d = trimmed(dns);
    if d.len() == 0 {
        owned(FALLBACK_DNS)
    } else {
        string_of(&d)
    }
}

/// Arguments of the bring-up script: data dir, forwarder, its config and
/// the interface, then DNS and the core's process id on Windows (for the
/// bypass routes), or the firewall mark and DNS elsewhere.
pub open spec fn up_args_spec(
    data: Seq<char>,
    hev: Seq<char>,
    config: Seq<char>,
    dns: Seq<char>,
    pid: u32,
    for_windows: bool,
) -> Seq<Seq<char>> {
    if for_windows {
        seq![data, hev, config, TUN_NAME@, dns, dec_text(pid as nat)]
    } else {
        seq![data, hev, config, TUN_NAME@, TUN_FWMARK_STR@, dns]
    }
}

pub fn tun_up_args(
    data: &str,
    hev: &str,
    config: &str,
    dns: &str,
    aether_pid: u32,
    for_windows: bool,
) -> (r: Vec<String>)
    ensures
        texts(r@) == up_args_spec(data@, hev@, config@, dns@, aether_pid, for_windows),
{
    let mut r: Vec<String> = Vec::new();
    r.push(owned(data));
    r.push(owned(hev));
    r.push(owned(config));
    r.push(owned(TUN_NAME));
    if for_windows {
        r.push(owned(dns));
        let mut pid: Vec<char> = Vec::new();
        push_dec(&mut pid, aether_pid as u64);
        assert(pid@ =~= dec_text(aether_pid as nat));
        r.push(string_of(&pid));
    } else {
        r.push(owned(TUN_FWMARK_STR));
        r.push(owned(dns));
    }
    assert(texts(r@) =~= up_args_spec(data@, hev@, config@, dns@, aether_pid, for_windows));
    r
}

/// Arguments of the tear-down script.
pub open spec fn down_args_spec(data: Seq<char>, for_windows: bool) -> Seq<Seq<char>> {
    if for_windows {
        seq![data, TUN_NAME@]
    } else {
        seq![data, TUN_NAME@, TUN_FWMARK_STR@]
    }
}

pub fn tun_down_args(data: &str, for_windows: bool) -> (r: Vec<String>)
    ensures
        texts(r@) == down_args_spec(data@, for_windows),
{
    let mut r: Vec<String> = Vec::new();
    r.push(owned(data));
    r.push(owned(TUN_NAME));
    if !for_windows {
        r.push(owned(TUN_FWMARK_STR));
    }
    assert(texts(r@) =~= down_args_spec(data@, for_windows));
    r
}

// ---------------------------------------------------------------------------
// Elevated PowerShell launch
// ---------------------------------------------------------------------------

/// `s` with every single quote doubled.
pub open spec fn double_quotes(s: Seq<char>) -> Seq<char>
    decreases s.len(),
{
    if s.len() == 0 {
        Seq::empty()
    } else {
        double_quotes(s.drop_last()) + (if s.last() == '\'' {
            seq!['\'', '\'']
        } else {
            seq![s.last()]
        })
    }
}

/// `s` as a PowerShell single-quoted string.
pub open spec fn ps_quoted(s: Seq<char>) -> Seq<char> {
    seq!['\''] + double_quotes(s) + seq!['\'']
}

/// Quote one argument for a PowerShell single-quoted string.
pub fn ps_quote(s: &str) -> (r: String)
    ensures
        r@ == ps_quoted(s@),
{
    let v = chars_of(s);
    let mut out: Vec<char> = Vec::new();
    out.push('\'');
    let mut i: usize = 0;
    while i < v.len()
        invariant
            i <= v.len(),
            out@ == seq!['\''] + double_quotes(v@.take(i as int)),
        decreases v.len() - i,
    {
        if v[i] == '\'' {
            out.push('\'');
            out.push('\'');
        } else {
            out.push(v[i]);
        }
        assert(v@.take(i + 1).drop_last() =~= v@.take(i as int));
        assert(out@ =~= seq!['\''] + double_quotes(v@.take(i + 1)));
        i = i + 1;
    }
    assert(v@.take(v.len() as int) =~= v@);
    out.push('\'');
    string_of(&out)
}

/// Every single quote of `t` is one of a doubled pair, so that `t` can
/// stand inside a single-quoted string.
pub open spec fn quotes_paired(t: Seq<char>) -> bool
    decreases t.len(),
{
    if t.len() == 0 {
        true
    } else if t.last() == '\'' {
        t.len() >= 2 && t[t.len() - 2] == '\'' && quotes_paired(t.take(t.len() - 2))
    } else {
        quotes_paired(t.drop_last())
    }
}

/// What PowerShell reads from the body of a single-quoted string whose
/// quotes are paired: each doubled quote stands for one quote.
pub open spec fn ps_unquoted(t: Seq<char>) -> Seq<char>
    decreases t.len(),
{
    if t.len() == 0 {
        Seq::empty()
    } else if t.len() >= 2 && t.last() == '\'' && t[t.len() - 2] == '\'' {
        ps_unquoted(t.take(t.len() - 2)) + seq!['\'']
    } else {
        ps_unquoted(t.drop_last()) + seq![t.last()]
    }
}

/// A quoted argument is one single-quoted PowerShell string that reads
/// back as the argument itself, whatever quotes the argument holds.
pub proof fn law_ps_quote_reads_back(s: Seq<char>)
    ensures
        ps_quoted(s)[0] == '\'',
        ps_quoted(s).last() == '\'',
        ps_quoted(s).subrange(1, ps_quoted(s).len() - 1) == double_quotes(s),
        quotes_paired(double_quotes(s)),
        ps_unquoted(double_quotes(s)) == s,
    decreases s.len(),
{
    let q = ps_quoted(s);
    assert(q.subrange(1, q.len() - 1) =~= double_quotes(s));
    if s.len() > 0 {
        law_ps_quote_reads_back(s.drop_last());
        let x = double_quotes(s.drop_last());
        let t = double_quotes(s);
        if s.last() == '\'' {
            assert(t.take(t.len() - 2) =~= x);
        } else {
            assert(t.drop_last() =~= x);
        }
        assert(ps_unquoted(t) =~= s);
    }
}

/// Texts joined by commas.
pub open spec fn join_commas(parts: Seq<Seq<char>>) -> Seq<char>
    decreases parts.len(),
{
    if parts.len() == 0 {
        Seq::empty()
    } else if parts.len() == 1 {
        parts[0]
    } else {
        join_commas(parts.drop_last()) + seq![','] + parts.last()
    }
}

/// The arguments of the elevated PowerShell process: the fixed switches,
/// the script and its own arguments, each quoted.
pub open spec fn elevated_argv(script: Seq<char>, args: Seq<Seq<char>>) -> Seq<Seq<char>> {
    let argv = seq!["-NoProfile"@, "-ExecutionPolicy"@, "Bypass"@, "-File"@, script] + args;
    Seq::new(argv.len(), |i: int| ps_quoted(argv[i]))
}

/// The launcher command that asks UAC to run the script elevated; a
/// declined prompt exits with the cancellation code.
pub open spec fn elevation_command_spec(script: Seq<char>, args: Seq<Seq<char>>) -> Seq<char> {
    "try { $p = Start-Process -FilePath 'powershell.exe' -ArgumentList "@ + join_commas(
        elevated_argv(script, args),
    ) + " -Verb RunAs -PassThru; exit 0 } catch { exit "@ + dec_text(1223) + " }"@
}

pub fn elevation_command(script: &str, args: &Vec<String>) -> (r: String)
    ensures
        r@ == elevation_command_spec(script@, texts(args@)),
{
    let mut argv: Vec<String> = Vec::new();
    argv.push(owned("-NoProfile"));
    argv.push(owned("-ExecutionPolicy"));
    argv.push(owned("Bypass"));
    argv.push(owned("-File"));
    argv.push(owned(script));
    let mut i: usize = 0;
    while i < args.len()
        invariant
            i <= args.len(),
            texts(argv@) == seq!["-NoProfile"@, "-ExecutionPolicy"@, "Bypass"@, "-File"@, script@]
                + texts(args@).take(i as int),
        decreases args.len() - i,
    {
        let ghost before = argv@;
        argv.push(args[i].clone());
        assert(texts(argv@) =~= texts(before).push(args@[i as int]@));
        assert(texts(args@).take(i + 1) =~= texts(args@).take(i as int).push(args@[i as int]@));
        assert(texts(argv@) =~= seq!["-NoProfile"@, "-ExecutionPolicy"@, "Bypass"@, "-File"@, script@]
            + texts(args@).take(i + 1));
        i = i + 1;
    }
    assert(texts(args@).take(args.len() as int) =~= texts(args@));
    let ghost quoted = elevated_argv(script@, texts(args@));
    let mut out: Vec<char> = Vec::new();
    extend_str(&mut out, "try { $p = Start-Process -FilePath 'powershell.exe' -ArgumentList ");
    let ghost prefix = out@;
    let mut k: usize = 0;
    while k < argv.len()
        invariant
            k <= argv.len(),
            quoted.len() == argv.len(),
            forall|j: int| 0 <= j < argv.len() ==> #[trigger] quoted[j] == ps_quoted(argv@[j]@),
            out@ == prefix + join_commas(quoted.take(k as int)),
        decreases argv.len() - k,
    {
        if k > 0 {
            out.push(',');
        }
        let q = ps_quote(argv[k].as_str());
        let qv = chars_of(q.as_str());
        extend_chars(&mut out, &qv);
        assert(quoted.take(k + 1).drop_last() =~= quoted.take(k as int));
        assert(quoted.take(k + 1).last() == quoted[k as int]);
        if k > 0 {
            assert(out@ =~= prefix + join_commas(quoted.take(k + 1)));
        } else {
            assert(quoted.take(1)[0] == quoted[0]);
            assert(out@ =~= prefix + join_commas(quoted.take(k + 1)));
        }
        k = k + 1;
    }
    assert(quoted.take(argv.len() as int) =~= quoted);
    extend_str(&mut out, " -Verb RunAs -PassThru; exit 0 } catch { exit ");
    push_dec(&mut out, 1223);
    extend_str(&mut out, " }");
    assert(out@ =~= elevation_command_spec(script@, texts(args@)));
    string_of(&out)
}

// ---------------------------------------------------------------------------
// Outcomes
// ---------------------------------------------------------------------------

/// The first line that is not blank, trimmed.
pub open spec fn first_nonblank(ps: Seq<Seq<char>>) -> Option<Seq<char>>
    decreases ps.len(),
{
    if ps.len() == 0 {
        None
    } else if trim(ps[0]).len() > 0 {
        Some(trim(ps[0]))
    } else {
        first_nonblank(ps.drop_first())
    }
}

/// Signed decimal text.
pub open spec fn int_text(c: int) -> Seq<char> {
    if c < 0 {
        seq!['-'] + dec_text((-c) as nat)
    } else {
        dec_text(c as nat)
    }
}

fn push_int(out: &mut Vec<char>, c: i32)
    ensures
        final(out)@ == old(out)@ + int_text(c as int),
{
    if c < 0 {
        out.push('-');
        let m: i64 = -(c as i64);
        push_dec(out, m as u64);
    } else {
        push_dec(out, c as u64);
    }
    assert(final(out)@ =~= old(out)@ + int_text(c as int));
}

/// The first non-blank line of `text`, trimmed.
pub fn first_nonblank_line(text: &str) -> (r: Option<Vec<char>>)
    ensures
        match r {
            Some(l) => first_nonblank(split(text@, '\n')) == Some(l@),
            None => first_nonblank(split(text@, '\n')) is None,
        },
{
    let lines = split_chars(&chars_of(text), '\n');
    let ghost ls = split(text@, '\n');
    let mut i: usize = 0;
    assert(ls.skip(0) =~= ls);
    while i < lines.len()
        invariant
            i <= lines.len(),
            views(lines@) == ls,
            ls == split(text@, '\n'),
            first_nonblank(ls) == first_nonblank(ls.skip(i as int)),
        decreases lines.len() - i,
    {
        assert(lines@[i as int]@ == ls[i as int]);
        let t = trim_chars(&lines[i]);
        assert(ls.skip(i as int)[0] == ls[i as int]);
        if t.len() > 0 {
            return Some(t);
        }
        assert(ls.skip(i as int).drop_first() =~= ls.skip(i + 1));
        i = i + 1;
    }
    assert(ls.skip(i as int) =~= Seq::<Seq<char>>::empty());
    None
}

pub open spec fn declined_text() -> Seq<char> {
    "Administrator approval was declined \u{2014} proxy still works"@
}

/// What an elevated helper's exit code and transcript amount to: success
/// with the transcript, the declined prompt, or a failure quoting the
/// transcript's first non-blank line.
pub open spec fn elevated_outcome_spec(code: i32, transcript: Seq<char>) -> Result<
    Seq<char>,
    Seq<char>,
> {
    if code == 0 {
        Ok(transcript)
    } else if code == UAC_CANCELLED_CODE {
        Err(declined_text())
    } else {
        Err(
            "elevated VPN step failed (exit "@ + int_text(code as int) + "): "@ + match first_nonblank(
                split(transcript, '\n'),
            ) {
                Some(l) => l,
                None => "see log"@,
            },
        )
    }
}

pub open spec fn result_text(r: Result<String, String>) -> Result<Seq<char>, Seq<char>> {
    match r {
        Ok(s) => Ok(s@),
        Err(e) => Err(e@),
    }
}

pub fn elevated_outcome(code: i32, transcript: String) -> (r: Result<String, String>)
    ensures
        result_text(r) == elevated_outcome_spec(code, transcript@),
{
    if code == 0 {
        return Ok(transcript);
    }
    if code == UAC_CANCELLED_CODE {
        return Err(owned("Administrator approval was declined \u{2014} proxy still works"));
    }
    let mut out: Vec<char> = Vec::new();
    extend_str(&mut out, "elevated VPN step failed (exit ");
    push_int(&mut out, code);
    extend_str(&mut out, "): ");
    match first_nonblank_line(transcript.as_str()) {
        Some(l) => extend_chars(&mut out, &l),
        None => extend_str(&mut out, "see log"),
    }
    assert(out@ =~= elevated_outcome_spec(code, transcript@)->Err_0);
    Err(string_of(&out))
}

/// What the launcher's own exit code means before the helper has run:
/// `None` to go on waiting for the helper, or the reason to stop.
pub open spec fn launcher_refusal_spec(code: Option<i32>) -> Option<Seq<char>> {
    match code {
        Some(c) => if c == UAC_CANCELLED_CODE {
            Some(declined_text())
        } else if c != 0 {
            Some(
                "could not request elevation (launcher exit "@ + int_text(c as int)
                    + ") \u{2014} proxy still works"@,
            )
        } else {
            None
        },
        None => None,
    }
}

pub fn launcher_refusal(code: Option<i32>) -> (r: Option<String>)
    ensures
        match r {
            Some(s) => launcher_refusal_spec(code) == Some(s@),
            None => launcher_refusal_spec(code) is None,
        },
{
    match code {
        Some(c) => {
            if c == UAC_CANCELLED_CODE {
                Some(owned("Administrator approval was declined \u{2014} proxy still works"))
            } else if c != 0 {
                let mut out: Vec<char> = Vec::new();
                extend_str(&mut out, "could not request elevation (launcher exit ");
                push_int(&mut out, c);
                extend_str(&mut out, ") \u{2014} proxy still works");
                Some(string_of(&out))
            } else {
                None
            }
        },
        None => None,
    }
}

/// The first line of `text`, trimmed, or `see log` when there is none.
pub open spec fn first_line_or_hint(text: Seq<char>) -> Seq<char> {
    if text.len() == 0 {
        "see log"@
    } else {
        trim(split(text, '\n')[0])
    }
}

/// What a privileged helper's run amounts to: its output on success, or a
/// failure naming the exit status and the first line of its errors.
pub open spec fn privileged_outcome_spec(
    success: bool,
    stdout: Seq<char>,
    status: Seq<char>,
    stderr: Seq<char>,
) -> Result<Seq<char>, Seq<char>> {
    if success {
        Ok(stdout)
    } else {
        Err("privileged VPN step failed ("@ + status + "): "@ + first_line_or_hint(stderr))
    }
}

pub fn privileged_outcome(success: bool, stdout: String, status: &str, stderr: &str) -> (r: Result<
    String,
    String,
>)
    ensures
        result_text(r) == privileged_outcome_spec(success, stdout@, status@, stderr@),
{
    if success {
        return Ok(stdout);
    }
    let mut out: Vec<char> = Vec::new();
    extend_str(&mut out, "privileged VPN step failed (");
    extend_str(&mut out, status);
    extend_str(&mut out, "): ");
    let e = chars_of(stderr);
    if e.len() == 0 {
        extend_str(&mut out, "see log");
    } else {
        let lines = split_chars(&e, '\n');
        proof {
            lemma_split_nonempty(e@, '\n');
        }
        assert(lines@[0]@ == split(e@, '\n')[0]);
        let first = trim_chars(&lines[0]);
        extend_chars(&mut out, &first);
    }
    assert(out@ =~= privileged_outcome_spec(success, stdout@, status@, stderr@)->Err_0);
    Err(string_of(&out))
}

/// Log entries for a helper's output: each non-blank line, trimmed, tagged.
pub open spec fn tagged_lines(ps: Seq<Seq<char>>) -> Seq<Seq<char>>
    decreases ps.len(),
{
    if ps.len() == 0 {
        Seq::empty()
    } else {
        tagged_lines(ps.drop_last()) + (if trim(ps.last()).len() > 0 {
            seq!["[tun] "@ + trim(ps.last())]
        } else {
            Seq::empty()
        })
    }
}

pub fn tun_log_lines(text: &str) -> (r: Vec<String>)
    ensures
        texts(r@) == tagged_lines(split(text@, '\n')),
{
    let lines = split_chars(&chars_of(text), '\n');
    let ghost ls = split(text@, '\n');
    let mut r: Vec<String> = Vec::new();
    let mut i: usize = 0;
    assert(ls.take(0) =~= Seq::<Seq<char>>::empty());
    while i < lines.len()
        invariant
            i <= lines.len(),
            views(lines@) == ls,
            ls == split(text@, '\n'),
            texts(r@) == tagged_lines(ls.take(i as int)),
        decreases lines.len() - i,
    {
        assert(lines@[i as int]@ == ls[i as int]);
        assert(ls.take(i + 1).drop_last() =~= ls.take(i as int));
        let t = trim_chars(&lines[i]);
        if t.len() > 0 {
            let mut line: Vec<char> = Vec::new();
            extend_str(&mut line, "[tun] ");
            extend_chars(&mut line, &t);
            let ghost before = r@;
            r.push(string_of(&line));
            assert(texts(r@) =~= texts(before).push(line@));
        }
        assert(texts(r@) =~= tagged_lines(ls.take(i + 1)));
        i = i + 1;
    }
    assert(ls.take(lines.len() as int) =~= ls);
    r
}

/// Whether traffic now flows through the TUN, and the log line that says
/// so, after the bring-up script ran: only a successful run that left the
/// interface up counts; anything else keeps a plain proxy.
pub open spec fn up_report_spec(result: Result<Seq<char>, Seq<char>>, iface_up: bool) -> (
    bool,
    Seq<char>,
) {
    match result {
        Ok(_) => if iface_up {
            (true, "[tun] aether0 up \u{2014} system traffic via tunnel"@)
        } else {
            (false, "[tun] setup ran but interface is not up \u{2014} proxy still works"@)
        },
        Err(e) => (false, "[tun] not activated ("@ + e + ") \u{2014} proxy still works"@),
    }
}

pub fn up_report(result: &Result<String, String>, iface_up: bool) -> (r: (bool, String))
    ensures
        (r.0, r.1@) == up_report_spec(result_text(*result), iface_up),
{
    match result {
        Ok(_) => if iface_up {
            (true, owned("[tun] aether0 up \u{2014} system traffic via tunnel"))
        } else {
            (false, owned("[tun] setup ran but interface is not up \u{2014} proxy still works"))
        },
        Err(e) => {
            let mut out: Vec<char> = Vec::new();
            extend_str(&mut out, "[tun] not activated (");
            extend_str(&mut out, e.as_str());
            extend_str(&mut out, ") \u{2014} proxy still works");
            assert(out@ =~= "[tun] not activated ("@ + e@ + ") \u{2014} proxy still works"@);
            (false, string_of(&out))
        },
    }
}

/// The log line after the tear-down script ran.
pub open spec fn down_report_spec(result: Result<Seq<char>, Seq<char>>) -> Seq<char> {
    match result {
        Ok(_) => "[tun] aether0 down \u{2014} routes/DNS restored"@,
        Err(e) => "[tun] teardown issue ("@ + e + ")"@,
    }
}

pub fn down_report(result: &Result<String, String>) -> (r: String)
    ensures
        r@ == down_report_spec(result_text(*result)),
{
    match result {
        Ok(_) => owned("[tun] aether0 down \u{2014} routes/DNS restored"),
        Err(e) => {
            let mut out: Vec<char> = Vec::new();
            extend_str(&mut out, "[tun] teardown issue (");
            extend_str(&mut out, e.as_str());
            extend_str(&mut out, ")");
            assert(out@ =~= "[tun] teardown issue ("@ + e@ + ")"@);
            string_of(&out)
        },
    }
}

// ---------------------------------------------------------------------------
// Reading what helpers and system tools report
// ---------------------------------------------------------------------------

/// The value of an optionally signed decimal numeral (`+` or `-` first).
pub open spec fn signed_value(t: Seq<char>) -> Option<int> {
    if t.len() > 0 && t[0] == '-' {
        let d = t.drop_first();
        if d.len() >= 1 && all_digits(d) {
            Some(-dec_val(d))
        } else {
            None
        }
    } else {
        let d = if t.len() > 0 && t[0] == '+' {
            t.drop_first()
        } else {
            t
        };
        if d.len() >= 1 && all_digits(d) {
            Some(dec_val(d) as int)
        } else {
            None
        }
    }
}

/// `str::parse::<i32>`: an optionally signed numeral within range.
pub open spec fn i32_text_value(t: Seq<char>) -> Option<i32> {
    match signed_value(t) {
        Some(v) => if i32::MIN <= v <= i32::MAX {
            Some(v as i32)
        } else {
            None
        },
        None => None,
    }
}

/// `str::parse::<u32>`: a numeral with an optional `+`, within range.
pub open spec fn u32_text_value(t: Seq<char>) -> Option<u32> {
    if t.len() > 0 && t[0] == '-' {
        None
    } else {
        match signed_value(t) {
            Some(v) => if 0 <= v <= u32::MAX {
                Some(v as u32)
            } else {
                None
            },
            None => None,
        }
    }
}

/// The number in `text` after trimming, read as an `i32`.
pub fn parse_i32(text: &str) -> (r: Option<i32>)
    ensures
        r == i32_text_value(trim(text@)),
{
    let t = trimmed(text);
    if t.len() > 0 && t[0] == '-' {
        let d = sub_rest(&t);
        match parse_dec(&d, 2147483648) {
            Some(v) => {
                let neg: i64 = -(v as i64);
                Some(neg as i32)
            },
            None => {
                assert(!(d@.len() >= 1 && all_digits(d@)) || dec_val(d@) > 2147483648);
                None
            },
        }
    } else {
        let d = if t.len() > 0 && t[0] == '+' {
            sub_rest(&t)
        } else {
            t
        };
        match parse_dec(&d, 2147483647) {
            Some(v) => Some(v as i32),
            None => None,
        }
    }
}

/// The number in `text` after trimming, read as a `u32`.
pub fn parse_u32(text: &str) -> (r: Option<u32>)
    ensures
        r == u32_text_value(trim(text@)),
{
    let t = trimmed(text);
    if t.len() > 0 && t[0] == '-' {
        return None;
    }
    let d = if t.len() > 0 && t[0] == '+' {
        sub_rest(&t)
    } else {
        t
    };
    match parse_dec(&d, 0xffff_ffff) {
        Some(v) => Some(v as u32),
        None => None,
    }
}

/// All of `t` but its first character.
fn sub_rest(t: &Vec<char>) -> (r: Vec<char>)
    requires
        t.len() > 0,
    ensures
        r@ == t@.drop_first(),
{
    let r = sub_chars(t, 1, t.len());
    assert(r@ =~= t@.drop_first());
    r
}

/// The process id in a pid file: its trimmed text as a number, 0 when
/// there is none.
pub fn pid_in_file(text: &str) -> (r: i32)
    ensures
        r == match i32_text_value(trim(text@)) {
            Some(v) => v,
            None => 0,
        },
{
    match parse_i32(text) {
        Some(v) => v,
        None => 0,
    }
}

/// A line as `str::lines` yields it: without one trailing carriage return.
pub open spec fn line_text(piece: Seq<char>) -> Seq<char> {
    if piece.len() > 0 && piece.last() == '\r' {
        piece.drop_last()
    } else {
        piece
    }
}

/// `s` without leading and trailing double quotes (`trim_matches('"')`).
pub open spec fn strip_quotes_start(s: Seq<char>) -> Seq<char>
    decreases s.len(),
{
    if s.len() > 0 && s[0] == '"' {
        strip_quotes_start(s.drop_first())
    } else {
        s
    }
}

pub open spec fn strip_quotes_end(s: Seq<char>) -> Seq<char>
    decreases s.len(),
{
    if s.len() > 0 && s.last() == '"' {
        strip_quotes_end(s.drop_last())
    } else {
        s
    }
}

pub open spec fn strip_quotes(s: Seq<char>) -> Seq<char> {
    strip_quotes_end(strip_quotes_start(s))
}

/// A CSV line of `tasklist` names the process `pid` in its second field.
pub open spec fn csv_line_names_pid(line: Seq<char>, pid: u32) -> bool {
    let fields = split(line, ',');
    fields.len() >= 2 && strip_quotes(fields[1]) == dec_text(pid as nat)
}

/// Some line of the `tasklist` output names the process `pid` exactly (a
/// substring search would take pid 123 for 1234).
pub open spec fn tasklist_names_pid(output: Seq<char>, pid: u32) -> bool {
    exists|i: int|
        0 <= i < split(output, '\n').len() && csv_line_names_pid(
            line_text(#[trigger] split(output, '\n')[i]),
            pid,
        )
}

fn strip_quotes_chars(s: &Vec<char>) -> (r: Vec<char>)
    ensures
        r@ == strip_quotes(s@),
{
    let n = s.len();
    let mut i: usize = 0;
    assert(s@.skip(0) =~= s@);
    while i < n && s[i] == '"'
        invariant
            n == s@.len(),
            i <= n,
            strip_quotes_start(s@) == strip_quotes_start(s@.skip(i as int)),
        decreases n - i,
    {
        assert(s@.skip(i as int).drop_first() =~= s@.skip(i + 1));
        i = i + 1;
    }
    assert(strip_quotes_start(s@) == s@.skip(i as int));
    assert(s@.subrange(i as int, n as int) =~= s@.skip(i as int));
    let mut j: usize = n;
    while j > i && s[j - 1] == '"'
        invariant
            n == s@.len(),
            i <= j <= n,
            strip_quotes(s@) == strip_quotes_end(s@.subrange(i as int, j as int)),
        decreases j,
    {
        assert(s@.subrange(i as int, j as int).drop_last() =~= s@.subrange(i as int, j - 1));
        j = j - 1;
    }
    sub_chars(s, i, j)
}

/// Whether the `tasklist` CSV output lists the process `pid`.
pub fn tasklist_lists_pid(output: &str, pid: u32) -> (r: bool)
    ensures
        r == tasklist_names_pid(output@, pid),
{
    let mut want: Vec<char> = Vec::new();
    push_dec(&mut want, pid as u64);
    let lines = split_chars(&chars_of(output), '\n');
    let ghost ls = split(output@, '\n');
    let mut i: usize = 0;
    while i < lines.len()
        invariant
            i <= lines.len(),
            views(lines@) == ls,
            ls == split(output@, '\n'),
            want@ == dec_text(pid as nat),
            forall|k: int| 0 <= k < i ==> !csv_line_names_pid(line_text(#[trigger] ls[k]), pid),
        decreases lines.len() - i,
    {
        assert(lines@[i as int]@ == ls[i as int]);
        let raw = &lines[i];
        let line = if raw.len() > 0 && raw[raw.len() - 1] == '\r' {
            sub_chars(raw, 0, raw.len() - 1)
        } else {
            sub_chars(raw, 0, raw.len())
        };
        assert(line@ =~= line_text(ls[i as int]));
        let fields = split_chars(&line, ',');
        if fields.len() >= 2 {
            assert(fields@[1]@ == split(line@, ',')[1]);
            let f = strip_quotes_chars(&fields[1]);
            if crate::text::chars_eq(&f, &want) {
                assert(csv_line_names_pid(line_text(ls[i as int]), pid));
                return true;
            }
        }
        i = i + 1;
    }
    false
}

/// `t` ends with ` aether0`.
pub open spec fn ends_with_adapter(t: Seq<char>) -> bool {
    let suffix = " aether0"@;
    t.len() >= suffix.len() && t.subrange(t.len() - suffix.len(), t.len() as int) == suffix
}

/// Some line of the `netsh` listing names the adapter exactly (as the whole
/// line or its last column), not as a prefix of another name.
pub open spec fn netsh_names_adapter(output: Seq<char>) -> bool {
    exists|i: int|
        0 <= i < split(output, '\n').len() && {
            let t = trim_end(#[trigger] split(output, '\n')[i]);
            t == TUN_NAME@ || ends_with_adapter(t)
        }
}

/// `trim_end` of `s`.
fn trim_end_chars(s: &Vec<char>) -> (r: Vec<char>)
    ensures
        r@ == trim_end(s@),
{
    let n = s.len();
    let mut j: usize = n;
    assert(s@.subrange(0, n as int) =~= s@);
    while j > 0 && is_ws_char(s[j - 1])
        invariant
            n == s@.len(),
            j <= n,
            trim_end(s@) == trim_end(s@.subrange(0, j as int)),
        decreases j,
    {
        assert(s@.subrange(0, j as int).drop_last() =~= s@.subrange(0, j - 1));
        j = j - 1;
    }
    sub_chars(s, 0, j)
}

/// Whether the `netsh interface show interface` output lists the adapter.
pub fn netsh_lists_adapter(output: &str) -> (r: bool)
    ensures
        r == netsh_names_adapter(output@),
{
    let name = chars_of(TUN_NAME);
    let suffix = chars_of(" aether0");
    let lines = split_chars(&chars_of(output), '\n');
    let ghost ls = split(output@, '\n');
    let mut i: usize = 0;
    while i < lines.len()
        invariant
            i <= lines.len(),
            views(lines@) == ls,
            ls == split(output@, '\n'),
            name@ == TUN_NAME@,
            suffix@ == " aether0"@,
            forall|k: int|
                0 <= k < i ==> {
                    let t = trim_end(#[trigger] ls[k]);
                    !(t == TUN_NAME@ || ends_with_adapter(t))
                },
        decreases lines.len() - i,
    {
        assert(lines@[i as int]@ == ls[i as int]);
        let t = trim_end_chars(&lines[i]);
        let whole = crate::text::chars_eq(&t, &name);
        let tail = if t.len() >= suffix.len() {
            let end = sub_chars(&t, t.len() - suffix.len(), t.len());
            crate::text::chars_eq(&end, &suffix)
        } else {
            false
        };
        if whole || tail {
            return true;
        }
        i = i + 1;
    }
    false
}

// ---------------------------------------------------------------------------
// Per-platform names
// ---------------------------------------------------------------------------

/// The forwarder's executable name and the hint shown when it is missing.
pub fn hev_binary(for_windows: bool) -> (r: (&'static str, &'static str))
    ensures
        for_windows ==> r.0@ == "hev.exe"@ && r.1@
            == "tun2socks binary not found (run src-tauri/binaries/fetch-hev.ps1)"@,
        !for_windows ==> r.0@ == "hev"@ && r.1@
            == "tun2socks binary not found (run src-tauri/binaries/fetch-hev.sh)"@,
{
    if for_windows {
        ("hev.exe", "tun2socks binary not found (run src-tauri/binaries/fetch-hev.ps1)")
    } else {
        ("hev", "tun2socks binary not found (run src-tauri/binaries/fetch-hev.sh)")
    }
}

/// The bring-up script and what the user is about to be asked for.
pub fn up_script(for_windows: bool) -> (r: (&'static str, &'static str))
    ensures
        for_windows ==> r.0@ == "tun-up.ps1"@ && r.1@ == "UAC prompt expected"@,
        !for_windows ==> r.0@ == "tun-up.sh"@ && r.1@ == "polkit prompt expected"@,
{
    if for_windows {
        ("tun-up.ps1", "UAC prompt expected")
    } else {
        ("tun-up.sh", "polkit prompt expected")
    }
}

/// The tear-down script.
pub fn down_script(for_windows: bool) -> (r: &'static str)
    ensures
        for_windows ==> r@ == "tun-down.ps1"@,
        !for_windows ==> r@ == "tun-down.sh"@,
{
    if for_windows {
        "tun-down.ps1"
    } else {
        "tun-down.sh"
    }
}

} // verus!
