use goose::headroom::{
    active_probe_address,
    default_auto_start, default_command, default_port, get_command_and_args, get_config, is_active,
    is_proxy_candidate, next_path_probe, proxy_address, resolve_command, rewrite_url_if_needed, start_proxy_step,
    HeadroomConfig, StartAction, StartEvent,
};
use goose::wait::{path_probe_command, wait_decision, WaitDecision};

#[test]
fn test_default_config() {
    let config = HeadroomConfig::default();
    assert!(!config.enabled);
    assert!(config.auto_start);
    assert_eq!(config.port, 8787);
    assert_eq!(config.command, "headroom");
    assert!(config.custom_hosts.is_empty());
}

fn enabled_config() -> HeadroomConfig {
    let mut c = HeadroomConfig::default();
    c.enabled = true;
    c
}

#[test]
fn test_rewrite_url_disabled() {
    let original = "https://api.openai.com/v1/chat/completions";
    let rewritten = rewrite_url_if_needed(original, &HeadroomConfig::default(), false);
    assert_eq!(rewritten, original);

    let config = enabled_config();
    let rewritten = rewrite_url_if_needed(original, &config, true);
    let port = config.port;
    assert_eq!(rewritten, format!("http://127.0.0.1:{}/v1/chat/completions", port));
}

#[test]
fn test_rewrite_url_google() {
    let original = "https://generativelanguage.googleapis.com/v1beta/models/gemini-2.5-flash:generateContent";
    let rewritten = rewrite_url_if_needed(original, &HeadroomConfig::default(), false);
    assert_eq!(rewritten, original);

    let config = enabled_config();
    let rewritten = rewrite_url_if_needed(original, &config, true);
    let port = config.port;
    assert_eq!(
        rewritten,
        format!("http://127.0.0.1:{}/v1beta/models/gemini-2.5-flash:generateContent", port)
    );
}

#[test]
fn test_rewrite_url_unsupported() {
    let original = "https://example.com/api";
    let rewritten = rewrite_url_if_needed(original, &HeadroomConfig::default(), false);
    assert_eq!(rewritten, original);
    let rewritten = rewrite_url_if_needed(original, &enabled_config(), true);
    assert_eq!(rewritten, original);
}

#[test]
fn rewrite_keeps_query_and_uses_port() {
    let mut config = enabled_config();
    config.port = 9001;
    let r = rewrite_url_if_needed("https://api.anthropic.com/messages?beta=1#frag", &config, true);
    assert_eq!(r, "http://127.0.0.1:9001/messages?beta=1");
    let r = rewrite_url_if_needed("https://api.anthropic.com/messages", &config, false);
    assert_eq!(r, "https://api.anthropic.com/messages");
}

#[test]
fn custom_hosts_are_supported() {
    let mut config = enabled_config();
    config.custom_hosts = vec!["nadirclaw".to_string(), "custom-proxy.internal".to_string()];
    assert!(is_proxy_candidate("http://custom-proxy.internal/v1/x", &config));
    assert!(!is_proxy_candidate("http://other.internal/v1/x", &config));
    let r = rewrite_url_if_needed("http://nadirclaw:9/v1/x", &config, true);
    assert_eq!(r, "http://127.0.0.1:8787/v1/x");
    assert!(!is_proxy_candidate("https://api.openai.com/v1", &HeadroomConfig::default()));
}

#[test]
fn rewrite_twice_is_rewrite_once() {
    let mut config = enabled_config();
    for port in [8787u16, 9001] {
        config.port = port;
        for u in [
            "https://api.openai.com/v1/chat/completions?x=1",
            "https://generativelanguage.googleapis.com/v1beta/models",
            "https://example.com/api",
        ] {
            let once = rewrite_url_if_needed(u, &config, true);
            let twice = rewrite_url_if_needed(&once, &config, true);
            assert_eq!(once, twice);
        }
    }
}

#[test]
fn unparsable_url_is_kept() {
    let r = rewrite_url_if_needed("api.openai.com/v1/chat", &enabled_config(), true);
    assert_eq!(r, "api.openai.com/v1/chat");
}

#[test]
fn defaults_and_config_choice() {
    assert!(default_auto_start());
    assert_eq!(default_port(), 8787);
    assert_eq!(default_command(), "headroom");
    let c = get_config(None);
    assert_eq!(c.port, 8787);
    let mut mine = HeadroomConfig::default();
    mine.port = 1234;
    assert_eq!(get_config(Some(mine)).port, 1234);
}

#[test]
fn command_resolution() {
    let sub = vec!["proxy".to_string()];
    let c = HeadroomConfig::default();
    let (cmd, args) = resolve_command(&c, &sub, true, true, true);
    assert_eq!(cmd, "headroom");
    assert_eq!(args, vec!["proxy"]);
    let (cmd, args) = resolve_command(&c, &sub, false, true, true);
    assert_eq!(cmd, "uvx");
    assert_eq!(args, vec!["--python", "python3.13", "--from", "headroom-ai[proxy,mcp]", "headroom", "proxy"]);
    let (cmd, args) = resolve_command(&c, &sub, false, false, true);
    assert_eq!(cmd, "uv");
    assert_eq!(
        args,
        vec!["tool", "run", "--python", "python3.13", "--from", "headroom-ai[proxy,mcp]", "headroom", "proxy"]
    );
    let (cmd, args) = resolve_command(&c, &sub, false, false, false);
    assert_eq!(cmd, "headroom");
    assert_eq!(args, vec!["proxy"]);

    let mut custom = HeadroomConfig::default();
    custom.command = "/opt/bin/headroom".to_string();
    let (cmd, args) = get_command_and_args(&custom, &sub);
    assert_eq!(cmd, "/opt/bin/headroom");
    assert_eq!(args, vec!["proxy"]);
}

#[test]
fn probe_names_in_order() {
    let c = HeadroomConfig::default();
    assert_eq!(next_path_probe(&c, &vec![]), Some("headroom".to_string()));
    assert_eq!(next_path_probe(&c, &vec![true]), None);
    assert_eq!(next_path_probe(&c, &vec![false]), Some("uvx".to_string()));
    assert_eq!(next_path_probe(&c, &vec![false, true]), None);
    assert_eq!(next_path_probe(&c, &vec![false, false]), Some("uv".to_string()));
    assert_eq!(next_path_probe(&c, &vec![false, false, false]), None);
    let mut custom = HeadroomConfig::default();
    custom.command = "hr".to_string();
    assert_eq!(next_path_probe(&custom, &vec![]), None);
}

#[test]
fn activity_and_address() {
    assert_eq!(proxy_address(8787), "127.0.0.1:8787");
    assert_eq!(proxy_address(0), "127.0.0.1:0");
    assert_eq!(active_probe_address(&HeadroomConfig::default()), None);
    let mut c = enabled_config();
    c.port = 65535;
    assert_eq!(active_probe_address(&c), Some("127.0.0.1:65535".to_string()));
    assert!(is_active(&enabled_config(), true));
    assert!(!is_active(&enabled_config(), false));
    assert!(!is_active(&HeadroomConfig::default(), true));
}

#[test]
fn start_procedure_steps() {
    assert!(matches!(start_proxy_step(&HeadroomConfig::default(), StartEvent::Begin), StartAction::Finish));
    let mut c = enabled_config();
    c.port = 4242;
    assert!(matches!(start_proxy_step(&c, StartEvent::Begin), StartAction::CheckSlot));
    assert!(matches!(start_proxy_step(&c, StartEvent::SlotChecked { occupied: true }), StartAction::Finish));
    match start_proxy_step(&c, StartEvent::SlotChecked { occupied: false }) {
        StartAction::ProbePort { address } => assert_eq!(address, "127.0.0.1:4242"),
        _ => panic!("expected a probe"),
    }
    assert!(matches!(
        start_proxy_step(&c, StartEvent::PortProbed { answers: true }),
        StartAction::AdoptRunning { port: 4242 }
    ));
    c.command = "my-headroom".to_string();
    match start_proxy_step(&c, StartEvent::PortProbed { answers: false }) {
        StartAction::Spawn { command, args, log_dir, log_file } => {
            assert_eq!(command, "my-headroom");
            assert_eq!(args, vec!["proxy", "--port", "4242"]);
            assert_eq!(log_dir, "logs");
            assert_eq!(log_file, "headroom.log");
        }
        _ => panic!("expected a spawn"),
    }
    c.auto_start = false;
    assert!(matches!(
        start_proxy_step(&c, StartEvent::PortProbed { answers: false }),
        StartAction::KeepExternal { port: 4242 }
    ));
    assert!(matches!(start_proxy_step(&c, StartEvent::SpawnFinished { spawned: false }), StartAction::Fail));
    match start_proxy_step(&c, StartEvent::SpawnFinished { spawned: true }) {
        StartAction::Settle { wait_ms, address } => {
            assert_eq!(wait_ms, 500);
            assert_eq!(address, "127.0.0.1:4242");
        }
        _ => panic!("expected a settle"),
    }
    assert!(matches!(
        start_proxy_step(&c, StartEvent::Settled { answers: false }),
        StartAction::RecordSpawned { port: 4242, answering: false }
    ));
}

#[test]
fn wait_decisions() {
    assert_eq!(wait_decision(true, true), WaitDecision::ReportExit);
    assert_eq!(wait_decision(false, true), WaitDecision::Kill);
    assert_eq!(wait_decision(false, false), WaitDecision::Sleep);
    let (prog, args) = path_probe_command();
    assert_eq!(prog, "bash");
    assert_eq!(args, vec!["-l", "-i", "-c", "echo $PATH"]);
}
