use netlock::ctl::{token_from_report, ExecError, Reply, Request};
use netlock::loader::Loader;
use netlock::manager::{Ctl, Job, Manager, Step};
use netlock::rules::Rules;
use netlock::tools::Direction;

fn toggle_loader() -> Loader {
    Loader::new("/tmp/netlock", Manager::new(Ctl::new("/sbin/pfctl", "/etc/pf.conf"), Rules::default()))
}

fn token_loader() -> Loader {
    Loader::new(
        "/tmp/netlock",
        Manager::new(Ctl::new_token("/sbin/pfctl", "/etc/pf.conf"), Rules::default()),
    )
}

fn out(stdout: &str, stderr: &str) -> Reply {
    Reply::Output { stdout: stdout.to_string(), stderr: stderr.to_string() }
}

fn run_args(step: &Step) -> Vec<String> {
    match step {
        Step::Do(Request::Run(args)) => args.clone(),
        _ => panic!("expected a run of the control utility"),
    }
}

fn strs(v: &[&str]) -> Vec<String> {
    v.iter().map(|s| s.to_string()).collect()
}

fn is_ok(step: &Step) -> bool {
    matches!(step, Step::Done(Ok(())))
}

#[test]
fn minimal_enable_on_toggle_platform() {
    let mut loader = toggle_loader();
    let policy = loader.manager().policy().build_at(5);
    let mut job: Job = loader.enable_at(None, 5);
    let mut enables = 0;
    let mut loads = 0;
    let mut step = loader.step(&mut job, Reply::Start);
    match &step {
        Step::Do(Request::Read(p)) => assert_eq!(p, "/tmp/netlock/settings.conf"),
        _ => panic!("settings are read first"),
    }
    step = loader.step(&mut job, Reply::Missing);
    assert_eq!(run_args(&step), strs(&["-s", "info"]));
    step = loader.step(&mut job, out("Status: Disabled", ""));
    assert_eq!(run_args(&step), strs(&["-e"]));
    enables += 1;
    step = loader.step(&mut job, out("", "pf enabled"));
    match &step {
        Step::Do(Request::Feed(args, text)) => {
            assert_eq!(args, &strs(&["-f", "-"]));
            assert_eq!(text, &policy);
            loads += 1;
        }
        _ => panic!("the policy is fed on standard input"),
    }
    step = loader.step(&mut job, out("", ""));
    assert_eq!(run_args(&step), strs(&["-F", "states"]));
    step = loader.step(&mut job, out("", ""));
    match &step {
        Step::Do(Request::Write(p, text)) => {
            assert_eq!(p, "/tmp/netlock/firewall.conf");
            assert_eq!(text, &policy);
        }
        _ => panic!("the compiled policy is saved"),
    }
    step = loader.step(&mut job, Reply::Written);
    match &step {
        Step::Do(Request::Write(p, text)) => {
            assert_eq!(p, "/tmp/netlock/settings.conf");
            assert_eq!(text, "MANAGER_STATE:true\nMANAGER_ANCHOR:\nCTL_STATE:true\n");
        }
        _ => panic!("the settings are saved"),
    }
    step = loader.step(&mut job, Reply::Written);
    assert!(is_ok(&step));
    assert_eq!(enables, 1);
    assert_eq!(loads, 1);
    assert!(loader.manager().state());
    assert_eq!(loader.manager().anchor(), "");
    let again = loader.step(&mut job, Reply::Written);
    assert!(matches!(again, Step::Done(Err(ExecError::OutOfTurn))));
}

#[test]
fn enable_skips_enable_when_already_on() {
    let mut loader = toggle_loader();
    let mut job = loader.enable_at(Some("$.vpn"), 0);
    loader.step(&mut job, Reply::Start);
    loader.step(&mut job, Reply::Missing);
    let step = loader.step(&mut job, out("Status: Enabled for 1 days", ""));
    match &step {
        Step::Do(Request::Feed(args, _)) => {
            assert_eq!(args, &strs(&["-f", "-", "-a", "248.netlock.vpn"]))
        }
        _ => panic!("loads straight away"),
    }
}

#[test]
fn enable_switching_anchor_resets_previous() {
    let mut loader = toggle_loader();
    let mut job = loader.enable_at(Some("$.b"), 0);
    loader.step(&mut job, Reply::Start);
    let settings = "MANAGER_STATE:true\nMANAGER_ANCHOR:248.netlock.a\nCTL_STATE:true\n";
    let step = loader.step(&mut job, Reply::Text(settings.to_string()));
    assert_eq!(run_args(&step), strs(&["-s", "info"]));
    loader.step(&mut job, out("status: enabled", ""));
    let step = loader.step(&mut job, out("", ""));
    assert_eq!(run_args(&step), strs(&["-F", "all", "-a", "248.netlock.a"]));
    let step = loader.step(&mut job, out("", ""));
    assert_eq!(run_args(&step), strs(&["-F", "states"]));
    assert_eq!(loader.manager().anchor(), "248.netlock.b");
}

#[test]
fn token_enable_parses_token() {
    let mut loader = token_loader();
    let mut job = loader.enable_at(None, 0);
    loader.step(&mut job, Reply::Start);
    let step = loader.step(&mut job, Reply::Missing);
    assert_eq!(run_args(&step), strs(&["-E"]));
    let step = loader.step(
        &mut job,
        out("", "No ALTQ support in kernel\npf enabled\nToken : 1234567890\n"),
    );
    assert!(matches!(step, Step::Do(Request::Feed(_, _))));
    assert_eq!(loader.manager().ctl().token(), "1234567890");
}

#[test]
fn token_enable_rejects_malformed_token() {
    let mut loader = token_loader();
    let mut job = loader.enable_at(None, 0);
    loader.step(&mut job, Reply::Start);
    loader.step(&mut job, Reply::Missing);
    let step = loader.step(&mut job, out("", "Token : abc\n"));
    assert!(matches!(step, Step::Done(Err(ExecError::Malformed(_)))));
}

#[test]
fn disable_not_owned_token_platform() {
    let mut loader = token_loader();
    let mut job = loader.disable();
    loader.step(&mut job, Reply::Start);
    let settings = "MANAGER_STATE:true\nMANAGER_ANCHOR:248.netlock.vpn\nCTL_TOKEN:42\n";
    let step = loader.step(&mut job, Reply::Text(settings.to_string()));
    assert_eq!(run_args(&step), strs(&["-s", "References"]));
    let step = loader.step(&mut job, out("PID  Token\n 77  99\n", ""));
    let args = run_args(&step);
    assert_eq!(args, strs(&["-F", "all", "-a", "248.netlock.vpn"]));
    assert!(!args.contains(&"-X".to_string()));
    let step = loader.step(&mut job, out("", ""));
    match &step {
        Step::Do(Request::Write(_, text)) => {
            assert_eq!(text, "MANAGER_STATE:false\nMANAGER_ANCHOR:248.netlock.vpn\nCTL_TOKEN:42\n")
        }
        _ => panic!("settings are saved"),
    }
    assert!(is_ok(&loader.step(&mut job, Reply::Written)));
    assert!(!loader.manager().state());
}

#[test]
fn disable_with_empty_token_resets_main_ruleset() {
    let mut loader = token_loader();
    let mut job = loader.disable();
    loader.step(&mut job, Reply::Start);
    let step = loader.step(&mut job, Reply::Missing);
    assert_eq!(run_args(&step), strs(&["-f", "/etc/pf.conf"]));
}

#[test]
fn disable_owned_token_platform() {
    let mut loader = token_loader();
    let mut job = loader.disable();
    loader.step(&mut job, Reply::Start);
    loader.step(&mut job, Reply::Text("CTL_TOKEN:42\nMANAGER_STATE:true\n".to_string()));
    let step = loader.step(&mut job, out("PID  Token\n 77  42\n", ""));
    assert_eq!(run_args(&step), strs(&["-X", "42"]));
    let step = loader.step(&mut job, out("", "pf disabled"));
    assert_eq!(run_args(&step), strs(&["-f", "/etc/pf.conf"]));
    assert_eq!(loader.manager().ctl().token(), "");
}

#[test]
fn disable_owned_toggle_platform() {
    let mut loader = toggle_loader();
    let mut job = loader.disable();
    loader.step(&mut job, Reply::Start);
    loader.step(&mut job, Reply::Text("CTL_STATE:true\nMANAGER_STATE:true\n".to_string()));
    let step = loader.step(&mut job, out("Status: Enabled", ""));
    assert_eq!(run_args(&step), strs(&["-d"]));
}

#[test]
fn failure_propagates() {
    let mut loader = toggle_loader();
    let mut job = loader.load(None);
    loader.step(&mut job, Reply::Start);
    loader.step(&mut job, Reply::Missing);
    let step = loader.step(&mut job, Reply::Failed(ExecError::Status("boom".to_string())));
    match step {
        Step::Done(Err(ExecError::Status(m))) => assert_eq!(m, "boom"),
        _ => panic!("the failure comes back unchanged"),
    }
}

#[test]
fn load_uses_saved_policy_file() {
    let mut loader = toggle_loader();
    let mut job = loader.load(None);
    loader.step(&mut job, Reply::Start);
    loader.step(&mut job, Reply::Missing);
    let step = loader.step(&mut job, out("Status: Enabled", ""));
    assert_eq!(run_args(&step), strs(&["-f", "/tmp/netlock/firewall.conf"]));
    loader.step(&mut job, out("", ""));
    let step = loader.step(&mut job, out("", ""));
    assert!(matches!(step, Step::Do(Request::Write(_, _))));
}

#[test]
fn status_checks_tables() {
    let mut loader = toggle_loader();
    let mut job = loader.get_status();
    loader.step(&mut job, Reply::Start);
    let step = loader.step(&mut job, Reply::Text("MANAGER_STATE:true\n".to_string()));
    assert_eq!(run_args(&step), strs(&["-s", "rules"]));
    let main = "block drop in quick from <netlock_block> to any\npass in quick from <netlock_pass_in> to any\npass out quick from any to <netlock_pass_out>\n";
    let step = loader.step(&mut job, out(main, ""));
    assert_eq!(run_args(&step), strs(&["-s", "Tables"]));
    let step = loader.step(&mut job, out("netlock_block\nnetlock_pass_in\nnetlock_pass_out\n", ""));
    assert_eq!(run_args(&step), strs(&["-s", "info"]));
    let step = loader.step(&mut job, out("Status: Enabled", ""));
    assert!(is_ok(&step));
    let status = job.status();
    assert!(status.firewall_state());
    assert!(status.netlock_state());
    assert_eq!(status.rules().len(), 1);
    assert_eq!(status.rules()[0].0, "");
}

#[test]
fn status_flags_missing_table() {
    let mut loader = toggle_loader();
    let mut job = loader.get_status();
    loader.step(&mut job, Reply::Start);
    loader.step(&mut job, Reply::Text("MANAGER_STATE:true\n".to_string()));
    let step = loader.step(&mut job, out("pass all\n", ""));
    assert_eq!(run_args(&step), strs(&["-s", "info"]));
    loader.step(&mut job, out("Status: Disabled", ""));
    assert!(!job.status().netlock_state());
    assert!(!job.status().firewall_state());
}

#[test]
fn status_lists_anchors() {
    let mut loader = toggle_loader();
    let mut job = loader.get_status();
    loader.step(&mut job, Reply::Start);
    loader.step(&mut job, Reply::Text("MANAGER_ANCHOR:248.netlock.vpn\n".to_string()));
    let step = loader.step(&mut job, out("anchor \"248.netlock.vpn\" all\n", ""));
    assert_eq!(run_args(&step), strs(&["-s", "Anchors", "-v"]));
    let step = loader.step(&mut job, out("  248.netlock.vpn\n  other\n", ""));
    assert_eq!(run_args(&step), strs(&["-s", "rules", "-a", "248.netlock.vpn"]));
    let step = loader.step(&mut job, out("pass all\n", ""));
    assert_eq!(run_args(&step), strs(&["-s", "rules", "-a", "other"]));
    let step = loader.step(&mut job, out("", ""));
    assert_eq!(run_args(&step), strs(&["-s", "info"]));
    loader.step(&mut job, out("Status: Enabled", ""));
    let rules = job.status().rules();
    assert_eq!(rules.len(), 2);
    assert_eq!(rules[1].0, "248.netlock.vpn");
    assert_eq!(rules[1].1, "pass all\n");
}

#[test]
fn anchor_round_trip() {
    let mut loader = toggle_loader();
    assert!(loader.manager().set_anchor("$.vpn"));
    assert_eq!(loader.manager().anchor(), "248.netlock.vpn");
    let mut job = loader.enable_at(None, 0);
    loader.step(&mut job, Reply::Start);
    loader.step(&mut job, Reply::Missing);
    loader.step(&mut job, out("Status: Enabled", ""));
    loader.step(&mut job, out("", ""));
    assert!(loader.manager().state());
    assert!(!loader.manager().set_anchor("$.other"));
    assert_eq!(loader.manager().anchor(), "248.netlock.vpn");
}

#[test]
fn format_anchor_replaces_every_placeholder() {
    assert_eq!(Manager::format_anchor("$/$"), "248.netlock/248.netlock");
    assert_eq!(Manager::format_anchor("plain"), "plain");
}

#[test]
fn settings_round_trip() {
    let mut a = Manager::new(Ctl::new_token("/sbin/pfctl", "/etc/pf.conf"), Rules::default());
    a.set_anchor("$.vpn");
    a.apply_settings("CTL_TOKEN:777\nMANAGER_STATE:true\n");
    let text = a.settings_text();
    assert_eq!(text, "MANAGER_STATE:true\nMANAGER_ANCHOR:248.netlock.vpn\nCTL_TOKEN:777\n");
    let mut b = Manager::new(Ctl::new_token("/sbin/pfctl", "/etc/pf.conf"), Rules::default());
    b.apply_settings(&text);
    assert_eq!(b.state(), a.state());
    assert_eq!(b.anchor(), a.anchor());
    assert_eq!(b.ctl().token(), "777");
}

#[test]
fn settings_ignore_bad_lines() {
    let mut m = Manager::new(Ctl::new("/sbin/pfctl", "/etc/pf.conf"), Rules::default());
    m.apply_settings("# comment\nMANAGER_STATE:maybe\nMANAGER_ANCHOR:a:b\nUNKNOWN:1\nCTL_TOKEN:5\nMANAGER_ANCHOR:x\n");
    assert!(!m.state());
    assert_eq!(m.anchor(), "x");
    assert_eq!(m.ctl().token(), "");
    assert_eq!(m.settings_text(), "MANAGER_STATE:false\nMANAGER_ANCHOR:x\nCTL_STATE:false\n");
}

#[test]
fn loopback_with_anchor_passes_interfaces() {
    let mut m = Manager::new(Ctl::new("/sbin/pfctl", "/etc/pf.conf"), Rules::default());
    m.set_anchor("$.vpn");
    let req = m.set_skipass_loopback();
    match req {
        Some(Request::Run(args)) => assert_eq!(args, strs(&["-s", "Interfaces", "-v", "-i", "lo"])),
        _ => panic!("the loopback interfaces are listed"),
    }
    m.add_loopback_interfaces("lo\nlo0 (skip)\n");
    let rules = m.policy();
    assert!(rules.skip_interfaces.is_empty());
    assert_eq!(rules.pass_interfaces.len(), 1);
    assert!(rules.pass_interfaces[0].has_no_direction());
    assert_eq!(rules.pass_interfaces[0].safe_unwrap(), "lo0");
}

#[test]
fn loopback_without_anchor_skips_group() {
    let mut m = Manager::new(Ctl::new("/sbin/pfctl", "/etc/pf.conf"), Rules::default());
    assert!(m.set_skipass_loopback().is_none());
    assert!(m.set_skipass_loopback().is_none());
    assert_eq!(m.policy().skip_interfaces, vec!["lo".to_string()]);
    assert!(m.policy().pass_interfaces.is_empty());
}

#[test]
fn token_parsing() {
    assert_eq!(token_from_report("pf enabled\nToken : 42\n"), Some("42".to_string()));
    assert_eq!(token_from_report("pf enabled\n"), None);
    assert_eq!(token_from_report("TOKEN : 12a\n"), None);
    assert_eq!(token_from_report("token : \n"), None);
}

#[test]
fn loader_paths() {
    let l = Loader::new("/etc/netlock/", Manager::new(Ctl::new("/sbin/pfctl", "/etc/pf.conf"), Rules::default()));
    assert_eq!(l.get_firewall_conf_path(), "/etc/netlock/firewall.conf");
    assert_eq!(l.get_settings_conf_path(), "/etc/netlock/settings.conf");
    let mut d = Direction::new("x");
    d = d.to_in();
    assert!(d.is_in());
}

#[test]
fn manager_enable_without_settings_file() {
    let mut m = Manager::new(Ctl::new("/sbin/pfctl", "/etc/pf.conf"), Rules::default());
    let mut job = m.enable(None, 3);
    let step = m.step(&mut job, Reply::Start);
    assert_eq!(run_args(&step), strs(&["-s", "info"]));
    let step = m.step(&mut job, out("Status: Disabled", ""));
    assert_eq!(run_args(&step), strs(&["-e"]));
    let step = m.step(&mut job, out("", ""));
    assert!(matches!(step, Step::Do(Request::Feed(_, _))));
    let step = m.step(&mut job, out("", ""));
    assert_eq!(run_args(&step), strs(&["-F", "states"]));
    let step = m.step(&mut job, out("", ""));
    assert!(is_ok(&step));
    assert!(m.state());
    let mut off = m.disable();
    let step = m.step(&mut off, Reply::Start);
    assert_eq!(run_args(&step), strs(&["-s", "info"]));
    let step = m.step(&mut off, out("Status: Enabled", ""));
    assert_eq!(run_args(&step), strs(&["-d"]));
    let step = m.step(&mut off, out("", ""));
    assert_eq!(run_args(&step), strs(&["-f", "/etc/pf.conf"]));
    let step = m.step(&mut off, out("", ""));
    assert!(is_ok(&step));
    assert!(!m.state());
    let mut st = m.get_status();
    let step = m.step(&mut st, Reply::Start);
    assert_eq!(run_args(&step), strs(&["-s", "rules"]));
}

#[test]
fn unreadable_settings_fail_the_job() {
    let mut loader = toggle_loader();
    let mut job = loader.disable();
    loader.step(&mut job, Reply::Start);
    let step = loader.step(&mut job, Reply::Failed(ExecError::Io("permission denied".to_string())));
    match step {
        Step::Done(Err(ExecError::Io(m))) => assert_eq!(m, "permission denied"),
        _ => panic!("the read failure comes back"),
    }
    assert!(!loader.manager().state());
}
