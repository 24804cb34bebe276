use xray_supervisor::config::{FileEntry, IConfig, PortConfig, UserConfigValue};
use xray_supervisor::path::AppPath;
use xray_supervisor::synth::{synthesize, ConfigError};
use xray_supervisor::sys::{ProxySetting, SysError, Sysopt};
use xray_supervisor::xray::{parse_pid, pid_record_content, str_contains, term_decision, TermOutcome, Xray};

fn paths() -> AppPath {
    AppPath::new(String::from("/home/user"), String::from("/opt/app"))
}

fn store(routing: &str, outbound: &str, sys: bool, auto: bool, ports: PortConfig) -> IConfig {
    IConfig {
        active_routing: String::from(routing),
        active_outbound: String::from(outbound),
        sys_port_enable: sys,
        auto_launch_enable: auto,
        port_config: Some(ports),
    }
}

fn both_ports() -> PortConfig {
    PortConfig {
        http_port: Some(10809),
        socks_port: Some(10808),
    }
}

// ------------------------------------------------------------------
// Persisted store: parsing.
// ------------------------------------------------------------------

#[test]
fn user_config_defaults_when_absent() {
    let v = IConfig::get_init_user_config(None);
    assert_eq!(v.active_routing, "");
    assert_eq!(v.active_outbound, "");
    assert!(v.sys_port_enable);
    assert!(v.auto_launch_enable);
}

#[test]
fn user_config_defaults_when_corrupt() {
    for bad in [
        "",
        "not json",
        "{",
        "{}",
        "{\"active_routing\":\"a\"}",
        "{\"active_routing\":\"a\",\"active_outbound\":\"b\",\"sys_port_enable\":true,\"auto_launch_enable\":true,}",
        "{\"active_routing\":\"a\",\"active_outbound\":\"b\",\"sys_port_enable\":true,\"auto_launch_enable\":true} x",
        "{\"active_routing\":\"a\",\"active_routing\":\"b\",\"active_outbound\":\"b\",\"sys_port_enable\":true,\"auto_launch_enable\":true}",
        "{\"active_routing\":\"a\",\"active_outbound\":\"b\",\"sys_port_enable\":1,\"auto_launch_enable\":true}",
        "{\"unknown\":\"a\",\"active_routing\":\"a\",\"active_outbound\":\"b\",\"sys_port_enable\":true,\"auto_launch_enable\":true}",
    ] {
        let v = IConfig::get_init_user_config(Some(bad));
        assert_eq!(v.active_routing, "", "input: {bad}");
        assert_eq!(v.active_outbound, "");
        assert!(v.sys_port_enable);
        assert!(v.auto_launch_enable);
    }
}

#[test]
fn user_config_parses_canonical_document() {
    let text = "{\"active_routing\":\"cn.json\",\"active_outbound\":\"direct.json\",\"sys_port_enable\":false,\"auto_launch_enable\":true}";
    let v = IConfig::get_init_user_config(Some(text));
    assert_eq!(v.active_routing, "cn.json");
    assert_eq!(v.active_outbound, "direct.json");
    assert!(!v.sys_port_enable);
    assert!(v.auto_launch_enable);
}

#[test]
fn user_config_parses_any_key_order_and_whitespace() {
    let text = " { \"auto_launch_enable\" : false ,\n \"sys_port_enable\" : true ,\t\"active_outbound\" : \"o\" , \"active_routing\" : \"r\" } ";
    let v = IConfig::get_init_user_config(Some(text));
    assert_eq!(v.active_routing, "r");
    assert_eq!(v.active_outbound, "o");
    assert!(v.sys_port_enable);
    assert!(!v.auto_launch_enable);
}

#[test]
fn user_config_decodes_escapes() {
    let text = "{\"active_routing\":\"a\\\"b\\\\c\",\"active_outbound\":\"x\\ny\",\"sys_port_enable\":true,\"auto_launch_enable\":false}";
    let v = IConfig::get_init_user_config(Some(text));
    assert_eq!(v.active_routing, "a\"b\\c");
    assert_eq!(v.active_outbound, "x\ny");
}

// ------------------------------------------------------------------
// Persisted store: rendering and round trip.
// ------------------------------------------------------------------

#[test]
fn write_config_renders_exact_text() {
    let c = store("cn.json", "direct.json", true, false, both_ports());
    assert_eq!(
        c.write_config(),
        "{\"active_routing\":\"cn.json\",\"active_outbound\":\"direct.json\",\"sys_port_enable\":true,\"auto_launch_enable\":false}"
    );
}

#[test]
fn write_config_escapes_quotes_and_backslashes() {
    let c = store("a\"b", "c\\d", false, true, both_ports());
    assert_eq!(
        c.write_config(),
        "{\"active_routing\":\"a\\\"b\",\"active_outbound\":\"c\\\\d\",\"sys_port_enable\":false,\"auto_launch_enable\":true}"
    );
}

#[test]
fn store_round_trips_through_its_rendering() {
    for (r, o, s, a) in [
        ("cn.json", "direct.json", true, true),
        ("", "", false, false),
        ("with\"quote", "with\\slash", true, false),
    ] {
        let c = store(r, o, s, a, both_ports());
        let text = c.write_config();
        let v: UserConfigValue = IConfig::get_init_user_config(Some(text.as_str()));
        assert_eq!(v.active_routing, r);
        assert_eq!(v.active_outbound, o);
        assert_eq!(v.sys_port_enable, s);
        assert_eq!(v.auto_launch_enable, a);
    }
}

#[test]
fn init_config_combines_store_and_ports() {
    let text = "{\"active_routing\":\"r.json\",\"active_outbound\":\"o.json\",\"sys_port_enable\":true,\"auto_launch_enable\":true}";
    let c = IConfig::init_config(Some(text), both_ports());
    assert_eq!(c.active_routing(), "r.json");
    assert_eq!(c.active_outbound(), "o.json");
    assert!(c.sys_port_enable());
    assert!(c.auto_launch_enable());
    let pc = c.port_config().unwrap();
    assert_eq!(pc.http_port, Some(10809));
    assert_eq!(pc.socks_port, Some(10808));
}

#[test]
fn setters_update_one_field_each() {
    let mut c = store("r", "o", false, true, both_ports());
    c.set_active_routing(String::from("r2.json"));
    assert_eq!(c.active_routing(), "r2.json");
    assert_eq!(c.active_outbound(), "o");
    c.set_active_outbound(String::from("o2.json"));
    assert_eq!(c.active_outbound(), "o2.json");
    c.set_sys_port_enable(true);
    assert!(c.sys_port_enable());
    assert!(c.auto_launch_enable());
}

// ------------------------------------------------------------------
// Port discovery.
// ------------------------------------------------------------------

#[test]
fn port_discovery_reads_fixed_fragment() {
    let text = "{\"inbounds\":[{\"port\":10809,\"protocol\":\"http\"},{\"port\":10808,\"protocol\":\"socks\"}]}";
    let pc = IConfig::get_init_port_config(Some(text));
    assert_eq!(pc.http_port, Some(10809));
    assert_eq!(pc.socks_port, Some(10808));
}

#[test]
fn port_discovery_takes_first_entry_per_protocol() {
    let text = "{\"inbounds\":[{\"protocol\":\"http\",\"port\":1},{\"port\":2,\"protocol\":\"http\"},{\"port\":3,\"protocol\":\"socks\"}]}";
    let pc = IConfig::get_init_port_config(Some(text));
    assert_eq!(pc.http_port, Some(1));
    assert_eq!(pc.socks_port, Some(3));
}

#[test]
fn port_discovery_ignores_other_protocols_and_scalar_fields() {
    let text = "{\"comment\":\"preset\",\"inbounds\":[{\"port\":9,\"protocol\":\"dokodemo\",\"tag\":\"in\"},{\"port\":7,\"protocol\":\"socks\",\"listen\":\"127.0.0.1\"}]}";
    let pc = IConfig::get_init_port_config(Some(text));
    assert_eq!(pc.http_port, None);
    assert_eq!(pc.socks_port, Some(7));
}

#[test]
fn port_discovery_steps_over_nested_members() {
    let text = "{\"log\":{\"loglevel\":\"warning\"},\"inbounds\":[{\"port\":10808,\"protocol\":\"socks\",\"settings\":{\"auth\":\"noauth\",\"udp\":true},\"sniffing\":{\"enabled\":true,\"destOverride\":[\"http\",\"tls\"]}},{\"tag\":\"web\",\"listen\":\"127.0.0.1\",\"port\":10809,\"protocol\":\"http\",\"settings\":{\"timeout\":300}}]}";
    let pc = IConfig::get_init_port_config(Some(text));
    assert_eq!(pc.http_port, Some(10809));
    assert_eq!(pc.socks_port, Some(10808));
}

#[test]
fn port_discovery_rejects_unbalanced_nesting() {
    let text = "{\"inbounds\":[{\"port\":1,\"protocol\":\"http\",\"settings\":{\"a\":[1,2}]}";
    let pc = IConfig::get_init_port_config(Some(text));
    assert_eq!(pc.http_port, None);
    assert_eq!(pc.socks_port, None);
}

#[test]
fn port_discovery_empty_on_bad_input() {
    for bad in [
        None,
        Some(""),
        Some("{}"),
        Some("{\"inbounds\":[{\"port\":70000,\"protocol\":\"http\"}]}"),
        Some("{\"inbounds\":[{\"protocol\":\"http\"}]}"),
        Some("not json"),
    ] {
        let pc = IConfig::get_init_port_config(bad);
        assert_eq!(pc.http_port, None, "input: {bad:?}");
        assert_eq!(pc.socks_port, None);
    }
}

// ------------------------------------------------------------------
// Fragment catalogs.
// ------------------------------------------------------------------

fn entry(name: &str, is_file: bool) -> FileEntry {
    FileEntry {
        name: String::from(name),
        is_file,
    }
}

#[test]
fn routing_list_keeps_json_files_only() {
    let entries = vec![
        entry("cn.json", true),
        entry("notes.txt", true),
        entry("dir.json", false),
        entry(".json", true),
        entry("all.routes.json", true),
    ];
    let r = IConfig::get_routing_list(&entries);
    assert_eq!(r, vec!["cn.json", "all.routes.json"]);
}

#[test]
fn outbound_list_keeps_all_regular_files() {
    let entries = vec![entry("direct.json", true), entry("sub", false), entry("x.txt", true)];
    let r = IConfig::get_outbound_list(&entries);
    assert_eq!(r, vec!["direct.json", "x.txt"]);
}

// ------------------------------------------------------------------
// Paths.
// ------------------------------------------------------------------

#[test]
fn path_layout_is_fixed() {
    let p = paths();
    assert_eq!(p.app_home_dir(), "/home/user/.config/tauri-xray");
    assert_eq!(p.app_core_dir(), "/opt/app/resources");
    assert_eq!(p.app_log_dir(), "/home/user/.config/tauri-xray/logs");
    assert_eq!(p.xray_preset_config_dir(), "/opt/app/resources/confdir");
    assert_eq!(p.xray_temp_config_dir(), "/home/user/.config/tauri-xray/confdir");
    assert_eq!(p.xray_preset_asset_dir(), "/opt/app/resources/asset");
    assert_eq!(p.xray_routing_dir(), "/home/user/.config/tauri-xray/routing");
    assert_eq!(p.xray_outbound_dir(), "/home/user/.config/tauri-xray/outbound");
    assert_eq!(p.xray_pid_path(), "/home/user/.config/tauri-xray/xray.pid");
    assert_eq!(p.config_json(), "/home/user/.config/tauri-xray/conig.json");
}

// ------------------------------------------------------------------
// Synthesis.
// ------------------------------------------------------------------

fn names(list: &[&str]) -> Vec<String> {
    list.iter().map(|s| String::from(*s)).collect()
}

#[test]
fn synthesize_plans_copies_in_load_order() {
    let p = paths();
    let base = names(&["00_log.json", "05_inbounds.json"]);
    let outbound = names(&["direct.json", "proxy.json"]);
    let routing = names(&["cn.json"]);
    let plan = synthesize(&p, &base, &outbound, &routing, "direct.json", "cn.json").unwrap();
    assert_eq!(plan.scratch_dir, "/home/user/.config/tauri-xray/confdir");
    assert_eq!(plan.base_copies.len(), 2);
    assert_eq!(plan.base_copies[0].from, "/opt/app/resources/confdir/00_log.json");
    assert_eq!(plan.base_copies[0].to, "/home/user/.config/tauri-xray/confdir/00_log.json");
    assert_eq!(
        plan.outbound_copy.from,
        "/home/user/.config/tauri-xray/outbound/direct.json"
    );
    assert_eq!(
        plan.outbound_copy.to,
        "/home/user/.config/tauri-xray/confdir/98.outbounds.json"
    );
    assert_eq!(plan.routing_copy.from, "/home/user/.config/tauri-xray/routing/cn.json");
    assert_eq!(
        plan.routing_copy.to,
        "/home/user/.config/tauri-xray/confdir/99.routing.json"
    );
}

#[test]
fn synthesized_fragments_sort_last_whatever_the_bases() {
    let p = paths();
    let base = names(&["00_log.json", "01_api.json", "05_inbounds.json", "06_policy.json"]);
    let outbound = names(&["direct.json"]);
    let routing = names(&["cn.json"]);
    let plan = synthesize(&p, &base, &outbound, &routing, "direct.json", "cn.json").unwrap();
    let mut file_names: Vec<String> = base.clone();
    file_names.push(String::from("98.outbounds.json"));
    file_names.push(String::from("99.routing.json"));
    file_names.sort();
    assert_eq!(file_names[file_names.len() - 1], "99.routing.json");
    assert_eq!(file_names[file_names.len() - 2], "98.outbounds.json");
    assert!(plan.routing_copy.to.ends_with("99.routing.json"));
    assert!(plan.outbound_copy.to.ends_with("98.outbounds.json"));
}

#[test]
fn synthesize_is_deterministic() {
    let p = paths();
    let base = names(&["00_log.json"]);
    let outbound = names(&["direct.json"]);
    let routing = names(&["cn.json"]);
    let a = synthesize(&p, &base, &outbound, &routing, "direct.json", "cn.json").unwrap();
    let b = synthesize(&p, &base, &outbound, &routing, "direct.json", "cn.json").unwrap();
    assert_eq!(a.scratch_dir, b.scratch_dir);
    assert_eq!(a.base_copies.len(), b.base_copies.len());
    for (x, y) in a.base_copies.iter().zip(b.base_copies.iter()) {
        assert_eq!(x.from, y.from);
        assert_eq!(x.to, y.to);
    }
    assert_eq!(a.outbound_copy.from, b.outbound_copy.from);
    assert_eq!(a.outbound_copy.to, b.outbound_copy.to);
    assert_eq!(a.routing_copy.from, b.routing_copy.from);
    assert_eq!(a.routing_copy.to, b.routing_copy.to);
}

#[test]
fn synthesize_rejects_unlisted_fragments() {
    let p = paths();
    let base = names(&["00_log.json"]);
    let outbound = names(&["direct.json"]);
    let routing = names(&["cn.json"]);
    let e = synthesize(&p, &base, &outbound, &routing, "missing.json", "cn.json").unwrap_err();
    assert_eq!(e, ConfigError::OutboundFragmentMissing);
    let e = synthesize(&p, &base, &outbound, &routing, "direct.json", "missing.json").unwrap_err();
    assert_eq!(e, ConfigError::RoutingFragmentMissing);
    let e = synthesize(&p, &base, &outbound, &routing, "", "cn.json").unwrap_err();
    assert_eq!(e, ConfigError::OutboundFragmentMissing);
}

// ------------------------------------------------------------------
// Pid records.
// ------------------------------------------------------------------

#[test]
fn pid_record_renders_decimal() {
    assert_eq!(pid_record_content(0), "0");
    assert_eq!(pid_record_content(7), "7");
    assert_eq!(pid_record_content(4321), "4321");
    assert_eq!(pid_record_content(u32::MAX), "4294967295");
}

#[test]
fn pid_record_parses_digits_only() {
    assert_eq!(parse_pid("12345"), Some(12345));
    assert_eq!(parse_pid("0"), Some(0));
    assert_eq!(parse_pid("007"), Some(7));
    assert_eq!(parse_pid("4294967295"), Some(u32::MAX));
    assert_eq!(parse_pid("4294967296"), None);
    assert_eq!(parse_pid(""), None);
    assert_eq!(parse_pid("12a"), None);
    assert_eq!(parse_pid(" 12"), None);
    assert_eq!(parse_pid("-5"), None);
}

#[test]
fn pid_record_round_trips() {
    for pid in [0u32, 1, 10, 65535, 123456, u32::MAX] {
        let text = pid_record_content(pid);
        assert_eq!(parse_pid(text.as_str()), Some(pid));
    }
}

#[test]
fn engine_name_containment() {
    assert!(str_contains("xray", "xray"));
    assert!(str_contains("some-xray-core", "xray"));
    assert!(!str_contains("proxy", "xray"));
    assert!(str_contains("anything", ""));
    assert!(!str_contains("xr", "xray"));
}

// ------------------------------------------------------------------
// Supervisor.
// ------------------------------------------------------------------

#[test]
fn terminate_decision_covers_every_finding() {
    let record = String::from("4321");
    let garbage = String::from("???");
    let engine = String::from("xray-core");
    let stranger = String::from("bash");
    assert_eq!(term_decision(None, None), TermOutcome::NoRecord);
    assert_eq!(term_decision(None, Some(&engine)), TermOutcome::NoRecord);
    assert_eq!(term_decision(Some(&garbage), Some(&engine)), TermOutcome::BadRecord);
    assert_eq!(term_decision(Some(&record), None), TermOutcome::NotRunning);
    assert_eq!(term_decision(Some(&record), Some(&stranger)), TermOutcome::NameMismatch);
    assert_eq!(term_decision(Some(&record), Some(&engine)), TermOutcome::Killed(4321));
}

#[test]
fn terminate_stale_tolerates_no_record() {
    let mut x = Xray::new();
    assert_eq!(x.kill_old(None), TermOutcome::NoRecord);
    assert_eq!(x.kill_old(None), TermOutcome::NoRecord);
}

#[test]
fn terminate_stale_tolerates_bad_record() {
    let mut x = Xray::new();
    let record = String::from("not-a-pid");
    assert_eq!(x.kill_old(Some(&record)), TermOutcome::BadRecord);
    assert_eq!(x.kill_old(Some(&record)), TermOutcome::BadRecord);
}

#[test]
fn reload_terminates_then_plans_launch() {
    let mut x = Xray::new();
    let p = paths();
    let c = store("cn.json", "direct.json", true, true, both_ports());
    let base = names(&["00_log.json"]);
    let outbound = names(&["direct.json"]);
    let routing = names(&["cn.json"]);
    let (outcome, plan) = x
        .reload_xray(None, &p, &c, &base, &outbound, &routing)
        .unwrap();
    assert_eq!(outcome, TermOutcome::NoRecord);
    assert_eq!(plan.binary, "xray");
    assert_eq!(plan.asset_env.0, "XRAY_LOCATION_ASSET");
    assert_eq!(plan.asset_env.1, "/opt/app/resources/asset");
    assert_eq!(plan.confdir_env.0, "XRAY_LOCATION_CONFDIR");
    assert_eq!(plan.confdir_env.1, "/home/user/.config/tauri-xray/confdir");
    assert!(plan.synthesis.routing_copy.to.ends_with("99.routing.json"));
}

#[test]
fn reload_propagates_synthesis_failure() {
    let mut x = Xray::new();
    let p = paths();
    let c = store("cn.json", "absent.json", true, true, both_ports());
    let base = names(&["00_log.json"]);
    let outbound = names(&["direct.json"]);
    let routing = names(&["cn.json"]);
    let e = x
        .reload_xray(None, &p, &c, &base, &outbound, &routing)
        .unwrap_err();
    assert_eq!(e, ConfigError::OutboundFragmentMissing);
}

// ------------------------------------------------------------------
// System-proxy manager (OS-free paths).
// ------------------------------------------------------------------

fn fresh_sysopt() -> Sysopt {
    Sysopt::new(String::from("localhost;127.*"))
}

#[test]
fn sysopt_starts_empty() {
    let s = fresh_sysopt();
    assert!(s.previous.is_none());
    assert!(s.current.is_none());
    assert!(!s.guard_running);
    assert_eq!(s.bypass, "localhost;127.*");
}

#[test]
fn init_disabled_is_a_noop() {
    let mut s = fresh_sysopt();
    assert!(s.init(false, Some(both_ports()), None).is_ok());
    assert!(s.previous.is_none());
    assert!(s.current.is_none());
}

#[test]
fn init_reports_each_missing_port() {
    let mut s = fresh_sysopt();
    assert_eq!(s.init(true, None, None), Err(SysError::MissingPortConfig));
    let no_http = PortConfig {
        http_port: None,
        socks_port: Some(1),
    };
    assert_eq!(s.init(true, Some(no_http), None), Err(SysError::MissingHttpPort));
    let no_socks = PortConfig {
        http_port: Some(1),
        socks_port: None,
    };
    assert_eq!(s.init(true, Some(no_socks), None), Err(SysError::MissingSocksPort));
    assert!(s.previous.is_none());
    assert!(s.current.is_none());
}

#[test]
fn update_before_init_degrades_to_init() {
    let mut a = fresh_sysopt();
    let mut b = fresh_sysopt();
    let observed = ProxySetting {
        is_enabled: true,
        host: String::from("10.0.0.1"),
        port: 8080,
        bypass: String::from(""),
    };
    let ra = a.update(false, Some(both_ports()), Some(observed.clone()));
    let rb = b.init(false, Some(both_ports()), Some(observed));
    assert_eq!(ra.is_ok(), rb.is_ok());
    assert_eq!(a.previous.is_none(), b.previous.is_none());
    assert_eq!(a.current.is_none(), b.current.is_none());
    let ra = a.update(true, None, None);
    let rb = b.init(true, None, None);
    assert_eq!(ra, rb);
}

#[test]
fn reset_on_empty_state_is_a_noop() {
    let mut s = fresh_sysopt();
    let restored = s.reset();
    assert!(restored.is_none());
    assert!(s.previous.is_none());
    assert!(s.current.is_none());
}

#[test]
fn init_from_os_reports_missing_ports_untouched() {
    let mut s = fresh_sysopt();
    let c = IConfig {
        active_routing: String::new(),
        active_outbound: String::new(),
        sys_port_enable: true,
        auto_launch_enable: true,
        port_config: None,
    };
    assert_eq!(s.init_from_os(&c), Err(SysError::MissingPortConfig));
    assert!(s.previous.is_none());
    assert!(s.current.is_none());
    assert_eq!(s.update_from_os(&c), Err(SysError::MissingPortConfig));
}

#[test]
fn init_from_os_disabled_is_a_noop() {
    let mut s = fresh_sysopt();
    let c = IConfig {
        active_routing: String::new(),
        active_outbound: String::new(),
        sys_port_enable: false,
        auto_launch_enable: true,
        port_config: Some(both_ports()),
    };
    assert!(s.init_from_os(&c).is_ok());
    assert!(s.previous.is_none());
    assert!(s.current.is_none());
}

#[test]
fn guard_loop_is_not_reentrant() {
    let mut s = fresh_sysopt();
    assert!(s.guard_start());
    assert!(!s.guard_start());
    assert!(s.guard_running);
}

#[test]
fn guard_tick_stops_on_disable_without_pushing() {
    let mut s = fresh_sysopt();
    assert!(s.guard_start());
    let keep_running = s.guard_tick(false, Some(both_ports()));
    assert!(!keep_running);
    assert!(!s.guard_running);
    assert!(s.current.is_none());
    let keep_running = s.guard_tick(false, Some(both_ports()));
    assert!(!keep_running);
    assert!(s.guard_start());
}

#[test]
fn sync_proxy_fails_only_when_enabled_without_ports() {
    let mut s = fresh_sysopt();
    let c = IConfig {
        active_routing: String::new(),
        active_outbound: String::new(),
        sys_port_enable: true,
        auto_launch_enable: true,
        port_config: None,
    };
    assert_eq!(s.sync_proxy(&c), Err(SysError::MissingPortConfig));
    assert!(s.current.is_none());
}
