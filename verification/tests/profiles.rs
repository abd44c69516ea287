use aether_gui::profile::{
    ConnectionProfile, IpVersion, MasqueNoize, Protocol, ScanMode, WgNoize, ZeroTrustAuth,
    IR_DIRECT_PRESET,
};
use aether_gui::tun::TUN_FWMARK_STR;

/// The command line as a Linux build of the app produces it.
fn linux_args(p: &ConnectionProfile) -> Vec<String> {
    p.as_args(true)
}

fn flag_value(args: &[String], flag: &str) -> Option<String> {
    args.iter()
        .position(|a| a == flag)
        .and_then(|i| args.get(i + 1).cloned())
}

#[test]
fn default_omits_bind_flag() {
    let p = ConnectionProfile::default();
    let args = linux_args(&p);
    assert!(!args.iter().any(|a| a == "--bind"), "args={args:?}");
}

#[test]
fn custom_port_emits_bind() {
    let p = ConnectionProfile {
        bind_address: "127.0.0.1:1919".into(),
        ..Default::default()
    };
    let args = linux_args(&p);
    let i = args
        .iter()
        .position(|a| a == "--bind")
        .expect("missing --bind");
    assert_eq!(args.get(i + 1).map(String::as_str), Some("127.0.0.1:1919"));
}

#[test]
fn lan_bind_emits_bind() {
    let p = ConnectionProfile {
        bind_address: "0.0.0.0:1819".into(),
        ..Default::default()
    };
    let args = linux_args(&p);
    let i = args
        .iter()
        .position(|a| a == "--bind")
        .expect("missing --bind");
    assert_eq!(args.get(i + 1).map(String::as_str), Some("0.0.0.0:1819"));
}

#[test]
fn lan_with_custom_port_emits_bind() {
    let p = ConnectionProfile {
        bind_address: "0.0.0.0:9999".into(),
        ..Default::default()
    };
    let args = linux_args(&p);
    let i = args
        .iter()
        .position(|a| a == "--bind")
        .expect("missing --bind");
    assert_eq!(args.get(i + 1).map(String::as_str), Some("0.0.0.0:9999"));
}

#[test]
fn invalid_bind_is_not_forwarded() {
    let p = ConnectionProfile {
        bind_address: "127.0.0.1:".into(),
        ..Default::default()
    };
    let args = linux_args(&p);
    assert!(!args.iter().any(|a| a == "--bind"), "args={args:?}");
}

#[test]
fn default_emits_noize() {
    let p = ConnectionProfile::default();
    let args = linux_args(&p);
    let i = args
        .iter()
        .position(|a| a == "--noize")
        .expect("missing --noize");
    assert_eq!(args.get(i + 1).map(String::as_str), Some("firewall"));
}

#[test]
fn v150_options_emit_without_credentials() {
    let p = ConnectionProfile {
        dns: "9.9.9.9,1.1.1.1".into(),
        zero_trust_team: "acme".into(),
        zero_trust_gateway: true,
        route_block: "ads.example".into(),
        route_direct: "private".into(),
        routes_file: "C:/routes.txt".into(),
        ..Default::default()
    };
    assert_eq!(
        linux_args(&p),
        vec![
            "--balanced",
            "-4",
            "--quick-reconnect",
            "--noize",
            "firewall",
            "--dns",
            "9.9.9.9,1.1.1.1",
            "--team",
            "acme",
            "--gateway",
            "--route-block",
            "ads.example",
            "--route-direct",
            "private",
            "--routes",
            "C:/routes.txt"
        ]
    );
}

#[test]
fn zero_trust_email_is_provided_as_an_environment_value() {
    let p = ConnectionProfile {
        zero_trust_team: "acme".into(),
        access_email: "me@example.com".into(),
        ..Default::default()
    };
    assert_eq!(
        p.zero_trust_env(),
        Some(("AETHER_ACCESS_EMAIL", "me@example.com"))
    );
    assert!(!linux_args(&p).iter().any(|arg| arg.contains("me@example.com")));
}

#[test]
fn default_profile_has_no_mark_flag() {
    let args = linux_args(&ConnectionProfile::default());
    assert!(!args.iter().any(|a| a == "--mark"), "args={args:?}");
}

#[test]
fn vpn_mode_never_leaks_a_bare_vpn_flag() {
    let p = ConnectionProfile {
        vpn_mode: true,
        ..Default::default()
    };
    let args = linux_args(&p);
    assert!(
        !args.iter().any(|a| a == "--vpn" || a == "--tun"),
        "args={args:?}"
    );
}

#[test]
fn vpn_mode_emits_mark_for_loop_avoidance() {
    let p = ConnectionProfile {
        vpn_mode: true,
        ..Default::default()
    };
    let args = p.as_args(true);
    let i = args
        .iter()
        .position(|a| a == "--mark")
        .expect("missing --mark");
    assert_eq!(args.get(i + 1).map(String::as_str), Some(TUN_FWMARK_STR));
}

#[test]
fn vpn_mode_emits_no_mark_on_windows() {
    let p = ConnectionProfile {
        vpn_mode: true,
        ..Default::default()
    };
    let args = p.as_args(false);
    assert!(!args.iter().any(|a| a == "--mark"), "args={args:?}");
}

#[test]
fn default_emits_none_of_the_new_flags() {
    let args = linux_args(&ConnectionProfile::default());
    for f in [
        "--peer",
        "--wg-peer",
        "--wiw-outer",
        "--wiw-inner",
        "--mim-outer",
        "--mim-inner",
        "--mim",
        "--fragment",
        "--fragment-size",
        "--fragment-delay",
        "--ech",
        "--keepalive",
    ] {
        assert!(!args.iter().any(|a| a == f), "{f} leaked: {args:?}");
    }
    assert!(!args.iter().any(|a| a == "--route-direct"), "args={args:?}");
}

#[test]
fn peer_pin_emitted_for_masque_and_validated() {
    let p = ConnectionProfile {
        protocol: Protocol::Masque,
        peer: "162.159.196.1:443".into(),
        ..Default::default()
    };
    assert_eq!(
        flag_value(&linux_args(&p), "--peer").as_deref(),
        Some("162.159.196.1:443")
    );
    for bad in ["example.com:443", "162.159.196.1", "not an address", ""] {
        let p = ConnectionProfile {
            peer: bad.into(),
            ..Default::default()
        };
        assert!(
            flag_value(&linux_args(&p), "--peer").is_none(),
            "bad peer {bad:?} leaked"
        );
    }
}

#[test]
fn peer_pin_never_leaks_across_protocol_families() {
    let p = ConnectionProfile {
        protocol: Protocol::Gool,
        peer: "162.159.196.1:443".into(),
        wiw_outer: "162.159.192.1:2408".into(),
        wiw_inner: "188.114.96.1:2408".into(),
        ..Default::default()
    };
    let args = linux_args(&p);
    assert!(flag_value(&args, "--peer").is_none(), "args={args:?}");
    assert_eq!(
        flag_value(&args, "--wiw-outer").as_deref(),
        Some("162.159.192.1:2408")
    );
    assert_eq!(
        flag_value(&args, "--wiw-inner").as_deref(),
        Some("188.114.96.1:2408")
    );
}

#[test]
fn mim_selects_mim_flag_and_masque_noize() {
    let p = ConnectionProfile {
        protocol: Protocol::Mim,
        mim_outer: "162.159.192.1:443".into(),
        ..Default::default()
    };
    let args = linux_args(&p);
    assert!(args.iter().any(|a| a == "--mim"), "args={args:?}");
    assert_eq!(
        flag_value(&args, "--mim-outer").as_deref(),
        Some("162.159.192.1:443")
    );
    assert_eq!(flag_value(&args, "--noize").as_deref(), Some("firewall"));
    assert_eq!(Protocol::Mim.as_menu_choice(), "4");
}

#[test]
fn fragment_and_ech_stay_in_masque_family() {
    let p = ConnectionProfile {
        protocol: Protocol::Masque,
        fragment: true,
        fragment_size: "8-16".into(),
        fragment_delay: "1-5".into(),
        ech: "auto".into(),
        ..Default::default()
    };
    let args = linux_args(&p);
    assert!(args.iter().any(|a| a == "--fragment"), "args={args:?}");
    assert_eq!(flag_value(&args, "--fragment-size").as_deref(), Some("8-16"));
    assert_eq!(flag_value(&args, "--fragment-delay").as_deref(), Some("1-5"));
    assert_eq!(flag_value(&args, "--ech").as_deref(), Some("auto"));
    let p = ConnectionProfile {
        fragment_size: "abc".into(),
        ..p
    };
    assert!(flag_value(&linux_args(&p), "--fragment-size").is_none());
    let p = ConnectionProfile {
        protocol: Protocol::Wireguard,
        fragment: true,
        ech: "auto".into(),
        ..Default::default()
    };
    let args = linux_args(&p);
    assert!(!args.iter().any(|a| a == "--fragment"), "args={args:?}");
    assert!(flag_value(&args, "--ech").is_none(), "args={args:?}");
}

#[test]
fn keepalive_emitted_for_wireguard_only() {
    let p = ConnectionProfile {
        protocol: Protocol::Gool,
        wg_keepalive: "25".into(),
        ..Default::default()
    };
    assert_eq!(
        flag_value(&linux_args(&p), "--keepalive").as_deref(),
        Some("25")
    );
    let p = ConnectionProfile {
        protocol: Protocol::Masque,
        wg_keepalive: "25".into(),
        ..Default::default()
    };
    assert!(flag_value(&linux_args(&p), "--keepalive").is_none());
    let p = ConnectionProfile {
        protocol: Protocol::Wireguard,
        wg_keepalive: "soon".into(),
        ..Default::default()
    };
    assert!(flag_value(&linux_args(&p), "--keepalive").is_none());
}

#[test]
fn iran_preset_merges_with_user_direct_list() {
    let p = ConnectionProfile {
        direct_iran: true,
        ..Default::default()
    };
    let v = flag_value(&linux_args(&p), "--route-direct").expect("missing");
    assert!(v.starts_with("private,"), "{v}");
    assert!(v.contains("snapp.ir"), "{v}");
    let p = ConnectionProfile {
        route_direct: "mybank.ir".into(),
        direct_iran: true,
        ..Default::default()
    };
    let v = flag_value(&linux_args(&p), "--route-direct").expect("missing");
    assert!(v.starts_with("mybank.ir,private,"), "{v}");
}

// ---------------------------------------------------------------------------

#[test]
fn default_profile_mirrors_the_core_defaults() {
    let p = ConnectionProfile::default();
    assert_eq!(p.protocol, Protocol::Auto);
    assert_eq!(p.scan_mode, ScanMode::Balanced);
    assert_eq!(p.ip_version, IpVersion::V4);
    assert!(p.quick_reconnect);
    assert_eq!(p.bind_address, "127.0.0.1:1819");
    assert_eq!(p.http_proxy_address, "127.0.0.1:1820");
    assert_eq!(p.masque_noize, MasqueNoize::Firewall);
    assert_eq!(p.wg_noize, WgNoize::Balanced);
    assert_eq!(p.zero_trust_auth, ZeroTrustAuth::Email);
    assert_eq!(p.tun_mtu, 1500);
    assert!(!p.autostart && !p.auto_connect && !p.vpn_mode && !p.direct_iran);
    assert!(p.peer.is_empty() && p.wg_keepalive.is_empty() && p.ech.is_empty());
    assert_eq!(
        linux_args(&p),
        vec!["--balanced", "-4", "--quick-reconnect", "--noize", "firewall"]
    );
}

#[test]
fn menu_choices_and_flags() {
    assert_eq!(Protocol::Auto.as_menu_choice(), "1");
    assert_eq!(Protocol::Masque.as_menu_choice(), "1");
    assert_eq!(Protocol::Wireguard.as_menu_choice(), "2");
    assert_eq!(Protocol::Gool.as_menu_choice(), "3");
    assert_eq!(ScanMode::Ironclad.as_menu_choice(), "5");
    assert_eq!(ScanMode::Turbo.as_menu_choice(), "1");
    assert_eq!(IpVersion::Both.as_menu_choice(), "3");
    assert_eq!(MasqueNoize::Gfw.as_flag(), "gfw");
    assert_eq!(WgNoize::Aggressive.as_flag(), "aggressive");
    assert!(Protocol::Auto.is_masque_family());
    assert!(Protocol::Mim.is_masque_family());
    assert!(!Protocol::Gool.is_masque_family());
}

#[test]
fn quick_reconnect_flag_is_always_present() {
    for quick in [true, false] {
        for protocol in [Protocol::Auto, Protocol::Wireguard, Protocol::Mim] {
            let p = ConnectionProfile {
                protocol,
                quick_reconnect: quick,
                ..Default::default()
            };
            let args = linux_args(&p);
            let want = if quick { "--quick-reconnect" } else { "--no-quick-reconnect" };
            assert!(args.iter().any(|a| a == want), "args={args:?}");
        }
    }
}

#[test]
fn wireguard_uses_its_own_noize_and_protocol_flag() {
    let p = ConnectionProfile {
        protocol: Protocol::Wireguard,
        wg_noize: WgNoize::Light,
        scan_mode: ScanMode::Stealth,
        ip_version: IpVersion::Both,
        quick_reconnect: false,
        ..Default::default()
    };
    assert_eq!(
        linux_args(&p),
        vec!["--wg", "--stealth", "--dual", "--no-quick-reconnect", "--noize", "light"]
    );
}

#[test]
fn credentials_change_nothing_on_the_command_line() {
    let base = ConnectionProfile {
        zero_trust_team: "acme".into(),
        ..Default::default()
    };
    let with = ConnectionProfile {
        access_email: "me@example.com".into(),
        access_client_id: "id".into(),
        access_client_secret: "hunter2".into(),
        access_token: "jwt".into(),
        zero_trust_auth: ZeroTrustAuth::Token,
        ..base.clone()
    };
    assert_eq!(linux_args(&base), linux_args(&with));
}

#[test]
fn zero_trust_env_picks_only_the_selected_method() {
    let p = ConnectionProfile {
        zero_trust_team: " acme ".into(),
        zero_trust_auth: ZeroTrustAuth::Token,
        access_email: "me@example.com".into(),
        access_token: "  tok  ".into(),
        ..Default::default()
    };
    assert_eq!(p.zero_trust_env(), Some(("AETHER_ACCESS_TOKEN", "tok")));
    let service = ConnectionProfile {
        zero_trust_auth: ZeroTrustAuth::Service,
        access_client_id: "id".into(),
        access_client_secret: "s".into(),
        ..p.clone()
    };
    assert_eq!(service.zero_trust_env(), None);
    let no_team = ConnectionProfile {
        zero_trust_team: "   ".into(),
        ..p.clone()
    };
    assert_eq!(no_team.zero_trust_env(), None);
    let empty_email = ConnectionProfile {
        zero_trust_auth: ZeroTrustAuth::Email,
        access_email: " ".into(),
        ..p
    };
    assert_eq!(empty_email.zero_trust_env(), None);
}

#[test]
fn stored_copy_keeps_settings_and_drops_credentials() {
    let p = ConnectionProfile {
        protocol: Protocol::Gool,
        dns: "1.1.1.1".into(),
        zero_trust_team: "acme".into(),
        access_email: "me@example.com".into(),
        access_client_id: "id".into(),
        access_client_secret: "hunter2".into(),
        access_token: "jwt".into(),
        autostart: true,
        ..Default::default()
    };
    let stored = p.without_credentials();
    assert!(stored.access_email.is_empty());
    assert!(stored.access_client_id.is_empty());
    assert!(stored.access_client_secret.is_empty());
    assert!(stored.access_token.is_empty());
    assert_eq!(stored.zero_trust_env(), None);
    assert_eq!(stored.dns, "1.1.1.1");
    assert_eq!(stored.protocol, Protocol::Gool);
    assert!(stored.autostart);
    assert_eq!(linux_args(&stored), linux_args(&p));
}

#[test]
fn vpn_mode_only_appends_the_mark_on_linux() {
    let off = ConnectionProfile::default();
    let on = ConnectionProfile {
        vpn_mode: true,
        ..Default::default()
    };
    let mut expected = off.as_args(true);
    expected.push("--mark".into());
    expected.push("0x9e".into());
    assert_eq!(on.as_args(true), expected);
    assert_eq!(on.as_args(false), off.as_args(false));
}

#[test]
fn endpoints_are_forwarded_in_canonical_form() {
    let p = ConnectionProfile {
        protocol: Protocol::Wireguard,
        peer: "  162.159.196.1:0443 ".into(),
        wg_peer: "[2606:4700:0:0:0:0:0:1]:2408".into(),
        ..Default::default()
    };
    let args = linux_args(&p);
    assert_eq!(flag_value(&args, "--peer").as_deref(), Some("162.159.196.1:443"));
    assert_eq!(
        flag_value(&args, "--wg-peer").as_deref(),
        Some("[2606:4700::1]:2408")
    );
}

#[test]
fn http_proxy_only_when_enabled_and_parseable() {
    let p = ConnectionProfile {
        http_proxy_enabled: true,
        ..Default::default()
    };
    assert_eq!(
        flag_value(&linux_args(&p), "--http-proxy").as_deref(),
        Some("127.0.0.1:1820")
    );
    let p = ConnectionProfile {
        http_proxy_enabled: true,
        http_proxy_address: "localhost:1820".into(),
        ..Default::default()
    };
    assert!(flag_value(&linux_args(&p), "--http-proxy").is_none());
    let p = ConnectionProfile {
        http_proxy_enabled: false,
        http_proxy_address: "0.0.0.0:1820".into(),
        ..Default::default()
    };
    assert!(flag_value(&linux_args(&p), "--http-proxy").is_none());
}

#[test]
fn iran_preset_alone_is_the_whole_list() {
    let p = ConnectionProfile {
        direct_iran: true,
        route_direct: "   ".into(),
        ..Default::default()
    };
    assert_eq!(
        flag_value(&linux_args(&p), "--route-direct").as_deref(),
        Some(IR_DIRECT_PRESET)
    );
}

#[test]
fn team_without_gateway_and_blank_values_are_skipped() {
    let p = ConnectionProfile {
        zero_trust_team: " acme ".into(),
        dns: "  ".into(),
        route_block: "\t".into(),
        routes_file: " ".into(),
        ech: "auto".into(),
        ..Default::default()
    };
    assert_eq!(
        linux_args(&p),
        vec![
            "--balanced",
            "-4",
            "--quick-reconnect",
            "--noize",
            "firewall",
            "--ech",
            "auto",
            "--team",
            "acme"
        ]
    );
}

#[test]
fn vpn_mode_adds_mark_last_and_only_on_linux() {
    for vpn_mode in [false, true] {
        let p = ConnectionProfile {
            vpn_mode,
            protocol: Protocol::Gool,
            dns: "1.1.1.1".into(),
            route_direct: "private".into(),
            ..Default::default()
        };
        for on_linux in [false, true] {
            let args = p.as_args(on_linux);
            assert!(!args.iter().any(|a| a == "--vpn" || a == "--tun"), "{args:?}");
            let marked = args.iter().any(|a| a == "--mark");
            assert_eq!(marked, vpn_mode && on_linux, "{args:?}");
            if marked {
                assert_eq!(&args[args.len() - 2..], ["--mark", "0x9e"]);
            }
        }
    }
}
