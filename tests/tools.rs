use netlock::ctl::{flush_request, info_says_enabled, show_request, status_enabled, FlushModifier, Request, ShowModifier};
use netlock::tools::{Direction, Owner};
use netlock::utils::{expanduser, Color};

#[test]
fn direction_parsing() {
    let d = Direction::new("in:eth0");
    assert!(d.is_in() && !d.is_out() && !d.has_no_direction());
    assert_eq!(d.safe_unwrap(), "eth0");
    assert_eq!(d.value(), "in:eth0");
    let o = Direction::new("out:1.2.3.4");
    assert!(o.is_out());
    assert_eq!(o.safe_unwrap(), "1.2.3.4");
    let a = Direction::new("host");
    assert!(a.has_no_direction());
    assert_eq!(a.value(), "host");
    assert_eq!(a.to_in_string(), "in:host");
    assert_eq!(a.to_out_string(), "out:host");
    assert!(a.to_out().is_out());
    assert_eq!(a.to_out().safe_unwrap(), "host");
}

#[test]
fn owner_parsing() {
    let g = Owner::new("g:wheel");
    assert!(g.is_group() && !g.is_user());
    assert_eq!(g.safe_unwrap(), "wheel");
    assert_eq!(g.value(), "g:wheel");
    let u = Owner::new("u:root");
    assert!(u.is_user());
    assert_eq!(u.safe_unwrap(), "root");
    let bare = Owner::new("nobody");
    assert!(bare.is_user());
    assert_eq!(bare.value(), "u:nobody");
}

#[test]
fn expanduser_cases() {
    assert_eq!(expanduser("~", Some("/home/a")), "/home/a");
    assert_eq!(expanduser("~/x/y", Some("/home/a")), "/home/a/x/y");
    assert_eq!(expanduser("~/x", Some("/home/a/")), "/home/a/x");
    assert_eq!(expanduser("~/x", None), "~/x");
    assert_eq!(expanduser("/etc", Some("/home/a")), "/etc");
    assert_eq!(expanduser("~x", Some("/home/a")), "~x");
}

#[test]
fn colors_render() {
    assert_eq!(Color::Red("DISABLED".to_string()).render(), "\x1b[31mDISABLED\x1b[0m");
    assert_eq!(Color::Green("ENABLED".to_string()).render(), "\x1b[32mENABLED\x1b[0m");
}

#[test]
fn status_phrase_ignores_case() {
    assert!(info_says_enabled("Status: Enabled for 0 days"));
    assert!(!info_says_enabled("Status: Disabled"));
    assert!(status_enabled("status: enabled"));
    assert!(!status_enabled("Status: Enabled"));
}

#[test]
fn request_shapes() {
    match flush_request(FlushModifier::Tables, "a") {
        Request::Run(args) => assert_eq!(args, vec!["-F", "Tables", "-a", "a"]),
        _ => panic!(),
    }
    match show_request(ShowModifier::Labels, "", true) {
        Request::Run(args) => assert_eq!(args, vec!["-s", "labels", "-v"]),
        _ => panic!(),
    }
}
