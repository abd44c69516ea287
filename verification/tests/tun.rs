use std::path::Path;

use aether_gui::autostart::{autostart_state, boot_sync_action};
use aether_gui::tun::{
    down_report, down_script, elevated_outcome, elevation_command, first_nonblank_line,
    hev_binary, hev_config, hev_config_for, launcher_refusal, netsh_lists_adapter, parse_i32,
    parse_u32, pid_in_file, privileged_outcome, ps_quote, socks_target, tasklist_lists_pid,
    tun_dns, tun_down_args, tun_log_lines, tun_up_args, up_report, up_script, status,
};

#[test]
fn loopback_bind_targets_loopback() {
    assert_eq!(socks_target("127.0.0.1:1819"), ("127.0.0.1".into(), 1819));
}

#[test]
fn wildcard_bind_dials_back_over_loopback() {
    assert_eq!(socks_target("0.0.0.0:1919"), ("127.0.0.1".into(), 1919));
}

#[test]
fn garbage_bind_falls_back_to_default() {
    assert_eq!(socks_target("127.0.0.1:"), ("127.0.0.1".into(), 1819));
}

#[test]
fn config_points_at_socks_and_names_tun() {
    let cfg = hev_config_for("127.0.0.1", 1819, Path::new("/tmp/x"), false);
    assert!(cfg.contains("name: aether0"), "{cfg}");
    assert!(cfg.contains("address: 127.0.0.1"), "{cfg}");
    assert!(cfg.contains("port: 1819"), "{cfg}");
    assert!(cfg.contains("mark: 158"), "{cfg}");
}

#[test]
fn windows_config_has_no_mark_but_has_ipv6() {
    let cfg = hev_config_for("127.0.0.1", 1819, Path::new("/tmp/x"), true);
    assert!(cfg.contains("name: aether0"), "{cfg}");
    assert!(cfg.contains("address: 127.0.0.1"), "{cfg}");
    assert!(!cfg.contains("mark:"), "{cfg}");
    assert!(cfg.contains("ipv6:"), "{cfg}");
}

// ---------------------------------------------------------------------------

#[test]
fn ipv6_binds_target_their_address() {
    assert_eq!(socks_target("[::1]:1080"), ("::1".into(), 1080));
    assert_eq!(socks_target("[::]:1080"), ("127.0.0.1".into(), 1080));
    assert_eq!(socks_target("[fe80::1%3]:9"), ("fe80::1".into(), 9));
    assert_eq!(socks_target("localhost:1080"), ("127.0.0.1".into(), 1819));
}

#[test]
fn config_text_is_exact() {
    let cfg = hev_config("127.0.0.1", 1819, "/tmp/x/hev.log", false);
    let expected = "# Generated by Aethery VPN mode \u{2014} do not edit (regenerated per connect).\n\
         tunnel:\n\
         \u{20}name: aether0\n\
         \u{20}mtu: 1500\n\
         \u{20}multi-queue: false\n\
         \u{20}ipv4: 198.18.0.1\n\
         socks5:\n\
         \u{20}address: 127.0.0.1\n\
         \u{20}port: 1819\n\
         \u{20}udp: 'udp'\n\
         \u{20}mark: 158\n\
         misc:\n\
         \u{20}log-file: '/tmp/x/hev.log'\n\
         \u{20}log-level: warn\n\
         \u{20}task-stack-size: 86016\n";
    assert_eq!(cfg, expected);
    let win = hev_config("10.0.0.2", 7, "C:\\data\\hev.log", true);
    assert!(win.contains(" ipv4: 198.18.0.1\n ipv6: 'fc00::1'\nsocks5:\n"), "{win}");
    assert!(win.contains(" port: 7\n udp: 'udp'\nmisc:\n"), "{win}");
    assert!(win.contains("log-file: 'C:\\data\\hev.log'"), "{win}");
}

#[test]
fn config_log_file_lives_in_the_data_dir() {
    let cfg = hev_config_for("127.0.0.1", 1819, Path::new("/tmp/x"), false);
    assert!(cfg.contains("log-file: '/tmp/x/hev.log'"), "{cfg}");
}

#[test]
fn status_is_active_only_with_both_halves() {
    let s = status(true, true);
    assert!(s.active);
    assert_eq!(s.iface, "aether0");
    assert_eq!(s.detail, "TUN aether0 via hev-socks5-tunnel");
    let s = status(true, false);
    assert!(!s.active);
    assert_eq!(s.detail, "hev running but interface missing");
    let s = status(false, true);
    assert!(!s.active);
    assert_eq!(s.detail, "stale aether0 interface, hev not running");
    let s = status(false, false);
    assert!(!s.active);
    assert_eq!(s.detail, "down");
}

#[test]
fn dns_falls_back_when_blank() {
    assert_eq!(tun_dns("  "), "1.1.1.1,1.0.0.1");
    assert_eq!(tun_dns(" 9.9.9.9 "), "9.9.9.9");
}

#[test]
fn helper_script_arguments() {
    assert_eq!(
        tun_up_args("/d", "/d/hev", "/d/hev-tunnel.yml", "1.1.1.1", 4242, false),
        vec!["/d", "/d/hev", "/d/hev-tunnel.yml", "aether0", "0x9e", "1.1.1.1"]
    );
    assert_eq!(
        tun_up_args("C:\\d", "C:\\d\\hev.exe", "C:\\d\\c.yml", "1.1.1.1", 4242, true),
        vec!["C:\\d", "C:\\d\\hev.exe", "C:\\d\\c.yml", "aether0", "1.1.1.1", "4242"]
    );
    assert_eq!(tun_down_args("/d", false), vec!["/d", "aether0", "0x9e"]);
    assert_eq!(tun_down_args("C:\\d", true), vec!["C:\\d", "aether0"]);
}

#[test]
fn powershell_quoting_doubles_single_quotes() {
    assert_eq!(ps_quote("it's"), "'it''s'");
    assert_eq!(ps_quote(""), "''");
    assert_eq!(ps_quote("C:\\a b"), "'C:\\a b'");
    assert_eq!(ps_quote("''"), "''''''");
    assert_eq!(ps_quote("a'b'"), "'a''b'''");
}

#[test]
fn elevation_command_quotes_every_argument() {
    let cmd = elevation_command("C:\\s\\tun-up.ps1", &vec!["a'b".to_string(), "c".to_string()]);
    assert_eq!(
        cmd,
        "try { $p = Start-Process -FilePath 'powershell.exe' -ArgumentList \
         '-NoProfile','-ExecutionPolicy','Bypass','-File','C:\\s\\tun-up.ps1','a''b','c' \
         -Verb RunAs -PassThru; exit 0 } catch { exit 1223 }"
    );
}

#[test]
fn elevated_outcomes() {
    assert_eq!(elevated_outcome(0, "done".into()), Ok("done".to_string()));
    assert_eq!(
        elevated_outcome(1223, "x".into()),
        Err("Administrator approval was declined \u{2014} proxy still works".to_string())
    );
    assert_eq!(
        elevated_outcome(2, "\n  \r\n  route add failed \r\nmore".into()),
        Err("elevated VPN step failed (exit 2): route add failed".to_string())
    );
    assert_eq!(
        elevated_outcome(-5, "".into()),
        Err("elevated VPN step failed (exit -5): see log".to_string())
    );
    assert_eq!(launcher_refusal(None), None);
    assert_eq!(launcher_refusal(Some(0)), None);
    assert_eq!(
        launcher_refusal(Some(1223)),
        Some("Administrator approval was declined \u{2014} proxy still works".to_string())
    );
    assert_eq!(
        launcher_refusal(Some(7)),
        Some("could not request elevation (launcher exit 7) \u{2014} proxy still works".to_string())
    );
}

#[test]
fn privileged_outcomes() {
    assert_eq!(
        privileged_outcome(true, "ok".into(), "exit status: 0", ""),
        Ok("ok".to_string())
    );
    assert_eq!(
        privileged_outcome(false, "".into(), "exit status: 1", " boom \nsecond"),
        Err("privileged VPN step failed (exit status: 1): boom".to_string())
    );
    assert_eq!(
        privileged_outcome(false, "".into(), "exit status: 1", ""),
        Err("privileged VPN step failed (exit status: 1): see log".to_string())
    );
}

#[test]
fn log_lines_are_trimmed_tagged_and_skip_blanks() {
    assert_eq!(
        tun_log_lines("one\n\n  two \r\n"),
        vec!["[tun] one".to_string(), "[tun] two".to_string()]
    );
    assert_eq!(first_nonblank_line(" \n x \n").map(|v| v.into_iter().collect::<String>()), Some("x".to_string()));
    assert_eq!(first_nonblank_line(" \n "), None);
}

#[test]
fn bring_up_and_down_reports() {
    assert_eq!(
        up_report(&Ok(String::new()), true),
        (true, "[tun] aether0 up \u{2014} system traffic via tunnel".to_string())
    );
    assert_eq!(
        up_report(&Ok(String::new()), false),
        (false, "[tun] setup ran but interface is not up \u{2014} proxy still works".to_string())
    );
    assert_eq!(
        up_report(&Err("UAC".to_string()), true),
        (false, "[tun] not activated (UAC) \u{2014} proxy still works".to_string())
    );
    assert_eq!(
        down_report(&Ok(String::new())),
        "[tun] aether0 down \u{2014} routes/DNS restored"
    );
    assert_eq!(down_report(&Err("x".to_string())), "[tun] teardown issue (x)");
}

#[test]
fn autostart_reconciliation() {
    assert_eq!(boot_sync_action(Some(true), true), None);
    assert_eq!(boot_sync_action(Some(false), true), Some(true));
    assert_eq!(boot_sync_action(Some(true), false), Some(false));
    assert_eq!(boot_sync_action(None, true), None);
    assert!(autostart_state(Some(true), false));
    assert!(!autostart_state(Some(false), true));
    assert!(autostart_state(None, true));
}

#[test]
fn numbers_in_files() {
    assert_eq!(parse_i32(" 42\n"), Some(42));
    assert_eq!(parse_i32("-7"), Some(-7));
    assert_eq!(parse_i32("+7"), Some(7));
    assert_eq!(parse_i32("-2147483648"), Some(i32::MIN));
    assert_eq!(parse_i32("2147483648"), None);
    assert_eq!(parse_i32("-"), None);
    assert_eq!(parse_i32("1 2"), None);
    assert_eq!(parse_u32("4294967295"), Some(u32::MAX));
    assert_eq!(parse_u32("4294967296"), None);
    assert_eq!(parse_u32("-1"), None);
    assert_eq!(parse_u32("-0"), None);
    assert_eq!(pid_in_file("1234\n"), 1234);
    assert_eq!(pid_in_file("garbage"), 0);
    assert_eq!(pid_in_file(""), 0);
}

#[test]
fn tasklist_matches_the_exact_pid() {
    let out = "\"hev.exe\",\"1234\",\"Console\",\"1\",\"5,000 K\"\r\n";
    assert!(tasklist_lists_pid(out, 1234));
    assert!(!tasklist_lists_pid(out, 123));
    assert!(!tasklist_lists_pid(out, 12345));
    assert!(!tasklist_lists_pid("INFO: No tasks are running.\r\n", 1234));
    assert!(tasklist_lists_pid("\"a\",\"77\"\r\n", 77));
}

#[test]
fn netsh_matches_the_whole_adapter_name() {
    let out = "Admin State    State          Type             Interface Name\r\n\
               -------------------------------------------------------------------------\r\n\
               Enabled        Connected      Dedicated        aether0   \r\n";
    assert!(netsh_lists_adapter(out));
    assert!(!netsh_lists_adapter("Enabled  Connected  Dedicated  aether01\r\n"));
    assert!(netsh_lists_adapter("aether0"));
    assert!(!netsh_lists_adapter("xaether0"));
}

#[test]
fn platform_names() {
    assert_eq!(hev_binary(true).0, "hev.exe");
    assert_eq!(hev_binary(false).0, "hev");
    assert_eq!(up_script(true), ("tun-up.ps1", "UAC prompt expected"));
    assert_eq!(up_script(false), ("tun-up.sh", "polkit prompt expected"));
    assert_eq!(down_script(true), "tun-down.ps1");
    assert_eq!(down_script(false), "tun-down.sh");
}
