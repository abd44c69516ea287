use aether_gui::tun::hev_config;
use aether_gui::vpn_flow::{
    down_action, down_begin, down_next, exit_file_wait, launcher_wait, privileged_wait, up_action,
    up_begin, up_next, ChildPoll, DownAction, DownEvent, DownRequest, DownState, PollStep,
    UpAction, UpEvent, UpRequest, UpState,
};

fn linux_request() -> UpRequest {
    UpRequest {
        supported: true,
        for_windows: false,
        bind_address: "127.0.0.1:1919".into(),
        dns: "  ".into(),
        aether_pid: 4242,
        data: "/data".into(),
        config_path: "/data/hev-tunnel.yml".into(),
        log_path: "/data/hev.log".into(),
    }
}

fn windows_request() -> UpRequest {
    UpRequest {
        for_windows: true,
        dns: "9.9.9.9".into(),
        data: "C:\\data".into(),
        config_path: "C:\\data\\hev-tunnel.yml".into(),
        log_path: "C:\\data\\hev.log".into(),
        ..linux_request()
    }
}

/// Drives a bring-up with the given answers; returns the log and the final
/// action's verdict, if the run stopped.
fn drive_up(req: &UpRequest, answers: Vec<UpEvent>) -> (Vec<String>, Option<bool>) {
    let mut log = Vec::new();
    let (mut state, line) = up_begin(req);
    log.extend(line);
    for event in answers {
        if let UpAction::Stop { active } = up_action(req, &state) {
            return (log, Some(active));
        }
        let (next, line) = up_next(req, state, event);
        log.extend(line);
        state = next;
    }
    match up_action(req, &state) {
        UpAction::Stop { active } => (log, Some(active)),
        _ => (log, None),
    }
}

#[test]
fn bring_up_asks_for_each_step_in_order() {
    let req = linux_request();
    let (state, line) = up_begin(&req);
    assert!(line.is_none());
    assert!(matches!(up_action(&req, &state), UpAction::CreateDataDir));
    let (state, _) = up_next(&req, state, UpEvent::DataDir(Ok(())));
    assert!(matches!(up_action(&req, &state), UpAction::CheckUp));
    let (state, _) = up_next(&req, state, UpEvent::UpCheck(false));
    match up_action(&req, &state) {
        UpAction::FindForwarder { exe, missing } => {
            assert_eq!(exe, "hev");
            assert_eq!(
                missing,
                "tun2socks binary not found (run src-tauri/binaries/fetch-hev.sh)"
            );
        }
        _ => panic!("expected the forwarder lookup"),
    }
    let (state, _) = up_next(&req, state, UpEvent::Forwarder(Ok("/opt/hev".into())));
    match up_action(&req, &state) {
        UpAction::FindScript { name } => assert_eq!(name, "tun-up.sh"),
        _ => panic!("expected the script lookup"),
    }
    let (state, _) = up_next(&req, state, UpEvent::Script(true));
    match up_action(&req, &state) {
        UpAction::WriteConfig { path, text } => {
            assert_eq!(path, "/data/hev-tunnel.yml");
            assert_eq!(text, hev_config("127.0.0.1", 1919, "/data/hev.log", false));
        }
        _ => panic!("expected the config write"),
    }
    let (state, line) = up_next(&req, state, UpEvent::ConfigWrite(Ok(())));
    assert_eq!(
        line.as_deref(),
        Some("[tun] bringing up aether0 via 127.0.0.1:1919 (polkit prompt expected)\u{2026}")
    );
    match up_action(&req, &state) {
        UpAction::RunHelper { args, timeout_secs } => {
            assert_eq!(
                args,
                vec!["/data", "/opt/hev", "/data/hev-tunnel.yml", "aether0", "0x9e", "1.1.1.1,1.0.0.1"]
            );
            assert_eq!(timeout_secs, 120);
        }
        _ => panic!("expected the helper run"),
    }
    let (state, line) = up_next(&req, state, UpEvent::Helper(Ok("ok".into())));
    assert!(line.is_none());
    assert!(matches!(up_action(&req, &state), UpAction::CheckIface));
    let (state, line) = up_next(&req, state, UpEvent::IfaceCheck(true));
    assert_eq!(line.as_deref(), Some("[tun] aether0 up \u{2014} system traffic via tunnel"));
    assert!(matches!(up_action(&req, &state), UpAction::Stop { active: true }));
}

#[test]
fn windows_bring_up_hands_the_core_pid_to_the_helper() {
    let req = windows_request();
    let (state, _) = up_begin(&req);
    let (state, _) = up_next(&req, state, UpEvent::DataDir(Ok(())));
    let (state, _) = up_next(&req, state, UpEvent::UpCheck(false));
    match up_action(&req, &state) {
        UpAction::FindForwarder { exe, .. } => assert_eq!(exe, "hev.exe"),
        _ => panic!("expected the forwarder lookup"),
    }
    let (state, _) = up_next(&req, state, UpEvent::Forwarder(Ok("C:\\app\\hev.exe".into())));
    let (state, _) = up_next(&req, state, UpEvent::Script(true));
    match up_action(&req, &state) {
        UpAction::WriteConfig { text, .. } => {
            assert!(text.contains("ipv6: 'fc00::1'"), "{text}");
            assert!(!text.contains("mark:"), "{text}");
            assert!(text.contains("log-file: 'C:\\data\\hev.log'"), "{text}");
        }
        _ => panic!("expected the config write"),
    }
    let (state, line) = up_next(&req, state, UpEvent::ConfigWrite(Ok(())));
    assert_eq!(
        line.as_deref(),
        Some("[tun] bringing up aether0 via 127.0.0.1:1919 (UAC prompt expected)\u{2026}")
    );
    match up_action(&req, &state) {
        UpAction::RunHelper { args, .. } => assert_eq!(
            args,
            vec![
                "C:\\data",
                "C:\\app\\hev.exe",
                "C:\\data\\hev-tunnel.yml",
                "aether0",
                "9.9.9.9",
                "4242"
            ]
        ),
        _ => panic!("expected the helper run"),
    }
}

#[test]
fn unsupported_system_keeps_the_proxy() {
    let req = UpRequest { supported: false, ..linux_request() };
    let (log, verdict) = drive_up(&req, vec![]);
    assert_eq!(
        log,
        vec!["[tun] VPN mode is not supported on this OS \u{2014} proxy still works"]
    );
    assert_eq!(verdict, Some(false));
}

#[test]
fn an_interface_already_up_is_reused() {
    let req = linux_request();
    let (log, verdict) = drive_up(&req, vec![UpEvent::DataDir(Ok(())), UpEvent::UpCheck(true)]);
    assert_eq!(log, vec!["[tun] aether0 already up"]);
    assert_eq!(verdict, Some(true));
}

#[test]
fn declined_prompt_keeps_the_proxy() {
    let req = windows_request();
    let declined = "Administrator approval was declined \u{2014} proxy still works";
    let (log, verdict) = drive_up(
        &req,
        vec![
            UpEvent::DataDir(Ok(())),
            UpEvent::UpCheck(false),
            UpEvent::Forwarder(Ok("hev.exe".into())),
            UpEvent::Script(true),
            UpEvent::ConfigWrite(Ok(())),
            UpEvent::Helper(Err(declined.into())),
        ],
    );
    assert_eq!(log.len(), 2);
    assert_eq!(
        log[1],
        format!("[tun] not activated ({declined}) \u{2014} proxy still works")
    );
    assert_eq!(verdict, Some(false));
}

#[test]
fn helper_ran_but_no_interface_keeps_the_proxy() {
    let req = linux_request();
    let (log, verdict) = drive_up(
        &req,
        vec![
            UpEvent::DataDir(Ok(())),
            UpEvent::UpCheck(false),
            UpEvent::Forwarder(Ok("/opt/hev".into())),
            UpEvent::Script(true),
            UpEvent::ConfigWrite(Ok(())),
            UpEvent::Helper(Ok(String::new())),
            UpEvent::IfaceCheck(false),
        ],
    );
    assert_eq!(
        log.last().map(String::as_str),
        Some("[tun] setup ran but interface is not up \u{2014} proxy still works")
    );
    assert_eq!(verdict, Some(false));
}

#[test]
fn each_failed_step_is_logged_and_keeps_the_proxy() {
    let req = windows_request();
    let (log, verdict) = drive_up(&req, vec![UpEvent::DataDir(Err("denied".into()))]);
    assert_eq!(log, vec!["[tun] cannot use data dir: denied"]);
    assert_eq!(verdict, Some(false));

    let (log, verdict) = drive_up(
        &req,
        vec![
            UpEvent::DataDir(Ok(())),
            UpEvent::UpCheck(false),
            UpEvent::Forwarder(Err("wintun.dll missing next to hev.exe (re-run fetch-hev.ps1)".into())),
        ],
    );
    assert_eq!(log, vec!["[tun] wintun.dll missing next to hev.exe (re-run fetch-hev.ps1)"]);
    assert_eq!(verdict, Some(false));

    let (log, verdict) = drive_up(
        &req,
        vec![
            UpEvent::DataDir(Ok(())),
            UpEvent::UpCheck(false),
            UpEvent::Forwarder(Ok("hev.exe".into())),
            UpEvent::Script(false),
        ],
    );
    assert_eq!(log, vec!["[tun] VPN helper script missing: scripts/tun-up.ps1"]);
    assert_eq!(verdict, Some(false));

    let (log, verdict) = drive_up(
        &req,
        vec![
            UpEvent::DataDir(Ok(())),
            UpEvent::UpCheck(false),
            UpEvent::Forwarder(Ok("hev.exe".into())),
            UpEvent::Script(true),
            UpEvent::ConfigWrite(Err("disk full".into())),
        ],
    );
    assert_eq!(log, vec!["[tun] cannot write hev config: disk full"]);
    assert_eq!(verdict, Some(false));
}

#[test]
fn an_answer_out_of_turn_ends_the_bring_up() {
    let req = linux_request();
    let (log, verdict) = drive_up(&req, vec![UpEvent::IfaceCheck(true)]);
    assert!(log.is_empty());
    assert_eq!(verdict, Some(false));
}

#[test]
fn bring_up_ends_within_seven_answers() {
    let req = linux_request();
    let answers = vec![
        UpEvent::DataDir(Ok(())),
        UpEvent::UpCheck(false),
        UpEvent::Forwarder(Ok("/opt/hev".into())),
        UpEvent::Script(true),
        UpEvent::ConfigWrite(Ok(())),
        UpEvent::Helper(Ok(String::new())),
        UpEvent::IfaceCheck(true),
    ];
    let mut helper_requests = 0;
    let (mut state, _) = up_begin(&req);
    for event in answers {
        if matches!(up_action(&req, &state), UpAction::RunHelper { .. }) {
            helper_requests += 1;
        }
        state = up_next(&req, state, event).0;
    }
    assert_eq!(helper_requests, 1);
    assert!(matches!(state, UpState::Finished { active: true }));
}

fn down_request(for_windows: bool) -> DownRequest {
    DownRequest { supported: true, for_windows, data: "/data".into() }
}

#[test]
fn bring_down_is_prompt_free_when_already_down() {
    let req = down_request(false);
    let state = down_begin(&req);
    assert!(matches!(down_action(&req, state), DownAction::CheckPid));
    let (state, line) = down_next(&req, state, DownEvent::PidAlive(false));
    assert!(line.is_none());
    assert!(matches!(down_action(&req, state), DownAction::CheckIface));
    let (state, line) = down_next(&req, state, DownEvent::IfaceExists(false));
    assert!(line.is_none());
    assert_eq!(state, DownState::Finished);
    assert!(matches!(down_action(&req, state), DownAction::Stop));
}

#[test]
fn bring_down_runs_the_helper_when_something_is_left() {
    let req = down_request(true);
    let state = down_begin(&req);
    let (state, _) = down_next(&req, state, DownEvent::PidAlive(true));
    match down_action(&req, state) {
        DownAction::FindScript { name } => assert_eq!(name, "tun-down.ps1"),
        _ => panic!("expected the script lookup"),
    }
    let (state, _) = down_next(&req, state, DownEvent::Script(true));
    match down_action(&req, state) {
        DownAction::RunHelper { args, timeout_secs } => {
            assert_eq!(args, vec!["/data", "aether0"]);
            assert_eq!(timeout_secs, 60);
        }
        _ => panic!("expected the helper run"),
    }
    let (state, line) = down_next(&req, state, DownEvent::Helper(Ok(String::new())));
    assert_eq!(line.as_deref(), Some("[tun] aether0 down \u{2014} routes/DNS restored"));
    assert_eq!(state, DownState::Finished);

    let req = down_request(false);
    let (state, _) = down_next(&req, DownState::Iface, DownEvent::IfaceExists(true));
    match down_action(&req, state) {
        DownAction::FindScript { name } => assert_eq!(name, "tun-down.sh"),
        _ => panic!("expected the script lookup"),
    }
    let (state, _) = down_next(&req, state, DownEvent::Script(true));
    match down_action(&req, state) {
        DownAction::RunHelper { args, timeout_secs } => {
            assert_eq!(args, vec!["/data", "aether0", "0x9e"]);
            assert_eq!(timeout_secs, 30);
        }
        _ => panic!("expected the helper run"),
    }
    let (_, line) = down_next(&req, state, DownEvent::Helper(Err("boom".into())));
    assert_eq!(line.as_deref(), Some("[tun] teardown issue (boom)"));
}

#[test]
fn bring_down_logs_a_missing_script() {
    let req = down_request(false);
    let (state, line) = down_next(&req, DownState::Script, DownEvent::Script(false));
    assert_eq!(state, DownState::Finished);
    assert_eq!(line.as_deref(), Some("[tun] VPN helper script missing: scripts/tun-down.sh"));
    let unsupported = DownRequest { supported: false, ..down_request(false) };
    assert_eq!(down_begin(&unsupported), DownState::Finished);
}

fn reason(step: PollStep) -> (char, String) {
    match step {
        PollStep::Sleep => ('s', String::new()),
        PollStep::Proceed => ('p', String::new()),
        PollStep::Kill { reason } => ('k', reason),
        PollStep::Fail { reason } => ('f', reason),
    }
}

#[test]
fn waiting_on_pkexec() {
    assert_eq!(reason(privileged_wait(ChildPoll::Exited(Some(1)), true)).0, 'p');
    assert_eq!(reason(privileged_wait(ChildPoll::Exited(None), false)).0, 'p');
    assert_eq!(reason(privileged_wait(ChildPoll::Running, false)).0, 's');
    assert_eq!(
        reason(privileged_wait(ChildPoll::Running, true)),
        ('k', "privileged VPN step timed out".to_string())
    );
    assert_eq!(
        reason(privileged_wait(ChildPoll::Failed("gone".into()), false)),
        ('f', "waiting on pkexec: gone".to_string())
    );
}

#[test]
fn waiting_on_the_elevation_launcher() {
    assert_eq!(reason(launcher_wait(ChildPoll::Exited(Some(0)), false)).0, 'p');
    assert_eq!(reason(launcher_wait(ChildPoll::Exited(None), false)).0, 'p');
    assert_eq!(
        reason(launcher_wait(ChildPoll::Exited(Some(1223)), false)),
        ('f', "Administrator approval was declined \u{2014} proxy still works".to_string())
    );
    assert_eq!(
        reason(launcher_wait(ChildPoll::Exited(Some(-5)), false)),
        (
            'f',
            "could not request elevation (launcher exit -5) \u{2014} proxy still works".to_string()
        )
    );
    assert_eq!(reason(launcher_wait(ChildPoll::Running, false)).0, 's');
    assert_eq!(
        reason(launcher_wait(ChildPoll::Running, true)),
        ('k', "elevated VPN step timed out".to_string())
    );
    assert_eq!(
        reason(launcher_wait(ChildPoll::Failed("denied".into()), true)),
        ('f', "waiting on elevation prompt: denied".to_string())
    );
}

#[test]
fn waiting_on_the_exit_code_file() {
    assert_eq!(exit_file_wait(Some(" 0\r\n".into()), true), Ok(Some(0)));
    assert_eq!(exit_file_wait(Some("1223".into()), false), Ok(Some(1223)));
    assert_eq!(exit_file_wait(Some("-1".into()), false), Ok(Some(-1)));
    assert_eq!(exit_file_wait(Some("".into()), false), Ok(None));
    assert_eq!(exit_file_wait(None, false), Ok(None));
    assert_eq!(
        exit_file_wait(Some("partial".into()), true),
        Err("elevated VPN step timed out".to_string())
    );
    assert_eq!(exit_file_wait(None, true), Err("elevated VPN step timed out".to_string()));
}
