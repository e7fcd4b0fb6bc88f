use netlock::rules::{
    Action, Antispoofing, BlockPolicy, Lan, Multicast, Rules, StatePolicy, TableNames, ICMP,
};
use netlock::tools::{Direction, Owner};

fn lines_of(text: &str) -> Vec<String> {
    text.lines().map(|l| l.to_string()).collect()
}

const DEFAULT_TEXT: &str = "# HEADER
# 0

# OPTIONS
set block-policy drop
set state-policy floating

# SCRUB
scrub in all

# INCOMING
block drop in  all

# OUTGOING
block return out  all

# ANTISPOOFING
block drop in  quick from urpf-failed to any label \"ANTISPOOFING\"

# BLOCKLIST
table <netlock_block> {  } 
block drop in quick from <netlock_block> to any label \"BLOCKLIST_IN\"
block return out quick from any to <netlock_block> label \"BLOCKLIST_OUT\"

# INTERFACES

# OWNERS

# IPV6

# LAN
block return out quick inet proto { tcp, udp } from 169.254.0.0/16 to 169.254.0.0/16 port domain
block return out quick inet proto { tcp, udp } from 192.168.0.0/16 to 192.168.0.0/16 port domain
block return out quick inet proto { tcp, udp } from 172.16.0.0/12 to 172.16.0.0/12 port domain
block return out quick inet proto { tcp, udp } from 10.0.0.0/8 to 10.0.0.0/8 port domain
block return out quick inet6 proto { tcp, udp } from fe80::/10 to fe80::/10 port domain
block return out quick inet6 proto { tcp, udp } from fc00::/7 to fc00::/7 port domain
pass quick inet from 169.254.0.0/16 to { 169.254.0.0/16, 255.255.255.255, 224.0.0.0/24 }
pass quick inet from 192.168.0.0/16 to { 192.168.0.0/16, 255.255.255.255, 224.0.0.0/24 }
pass quick inet from 172.16.0.0/12 to { 172.16.0.0/12, 255.255.255.255, 224.0.0.0/24 }
pass quick inet from 10.0.0.0/8 to { 10.0.0.0/8, 255.255.255.255, 224.0.0.0/24 }
pass quick inet from 0.0.0.0 to { 255.255.255.255, 224.0.0.0/24 }
pass quick inet6 from fe80::/10 to { fe80::/10, ff02::/16, ff12::/16 }
pass quick inet6 from fc00::/7 to { fc00::/7, ff02::/16, ff12::/16 }
pass quick inet6 from :: to { ff02::/16, ff12::/16 }

# ICMP
pass quick inet proto icmp all icmp-type echoreq label \"ICMP\"
pass quick inet6 proto icmp6 all icmp6-type echoreq label \"ICMP6\"

# DESTINATIONS
table <netlock_pass_in> {  } 
table <netlock_pass_out> {  } 
pass in quick from <netlock_pass_in> to any
pass out quick from any to <netlock_pass_out>

";

#[test]
fn default_policy_compiles_exactly() {
    let rules = Rules::default();
    assert_eq!(rules.build_at(0), DEFAULT_TEXT);
}

#[test]
fn header_carries_timestamp() {
    let rules = Rules::default();
    let text = rules.build_at(1700000000);
    assert_eq!(lines_of(&text)[1], "# 1700000000");
}

#[test]
fn build_stamps_some_time() {
    let rules = Rules::default();
    let text = rules.build();
    let stamp = lines_of(&text)[1].clone();
    assert!(stamp.starts_with("# "));
    assert!(stamp[2..].parse::<u64>().is_ok());
    assert_eq!(lines_of(&text)[2..], lines_of(DEFAULT_TEXT)[2..]);
}

#[test]
fn determinism_modulo_timestamp() {
    let mut a = Rules::default();
    let mut b = Rules::default();
    for r in [&mut a, &mut b] {
        r.skip_interfaces.push("lo0".to_string());
        r.block_destinations.push("10.0.0.5".to_string());
        r.pass_interfaces.push(Direction::new("out:en0"));
    }
    let ta = a.build_at(1);
    let tb = b.build_at(2);
    assert_ne!(ta, tb);
    let la = lines_of(&ta);
    let lb = lines_of(&tb);
    assert_eq!(la.len(), lb.len());
    for i in 0..la.len() {
        if i != 1 {
            assert_eq!(la[i], lb[i]);
        }
    }
    assert_eq!(a.build_at(7), b.build_at(7));
}

#[test]
fn deny_list_separates_addresses_and_files() {
    let mut rules = Rules::default();
    rules.block_destinations.push("10.0.0.5".to_string());
    rules.block_destinations.push("/tmp/list.txt".to_string());
    let text = rules.build_at(0);
    let line = lines_of(&text)
        .into_iter()
        .find(|l| l.starts_with("table <netlock_block>"))
        .unwrap();
    assert_eq!(line, "table <netlock_block> { 10.0.0.5 } file \"/tmp/list.txt\"");
    let (inside, after) = line.split_once(" } ").unwrap();
    assert!(inside.contains("10.0.0.5") && !inside.contains("/tmp/list.txt"));
    assert!(after.contains("file \"/tmp/list.txt\"") && !after.contains("10.0.0.5"));
}

#[test]
fn directive_order_holds() {
    let mut rules = Rules::default();
    rules.pass_interfaces.push(Direction::new("en0"));
    rules.pass_destinations.push(Direction::new("in:1.2.3.4"));
    rules.icmp = Some(ICMP::All);
    let ls = lines_of(&rules.build_at(0));
    let pos = |p: &str| ls.iter().position(|l| l.starts_with(p)).unwrap();
    let deny = pos("block drop in quick from <netlock_block>");
    let iface_in = pos("pass in quick on {");
    let iface_out = pos("pass out quick on {");
    let lan = pos("pass quick inet from 169.254.0.0/16");
    let icmp = pos("pass quick inet proto icmp all label");
    let allow_in = pos("pass in quick from <netlock_pass_in>");
    let allow_out = pos("pass out quick from any to <netlock_pass_out>");
    assert!(deny < iface_in && iface_in < iface_out);
    assert!(iface_out < lan && lan < icmp);
    assert!(icmp < allow_in && allow_in < allow_out);
}

#[test]
fn empty_sets_are_suppressed() {
    let mut rules = Rules::default();
    rules.antispoofing = None;
    rules.lan = None;
    rules.icmp = None;
    let text = rules.build_at(0);
    assert!(!text.contains("set skip on"));
    assert!(!text.contains("quick on {"));
    assert!(!text.contains("user {") && !text.contains("group {"));
    assert!(!text.contains("ANTISPOOFING\""));
    assert!(!text.contains("pass quick inet"));
    assert!(!text.contains("icmp"));
    assert!(text.contains("# LAN\n\n# ICMP\n\n# DESTINATIONS"));
}

#[test]
fn ipv6_blocking_suppresses_ipv6_passthrough() {
    let mut rules = Rules::default();
    rules.is_block_ipv6 = true;
    let text = rules.build_at(0);
    assert!(text.contains("block drop in quick inet6 all\nblock return out quick inet6 all\n"));
    assert!(!text.contains("pass quick inet6"));
    assert!(!text.contains("icmp6"));
    assert!(!text.contains("proto { tcp, udp } from fe80::/10"));
    assert!(text.contains("pass quick inet from 0.0.0.0 to { 255.255.255.255, 224.0.0.0/24 }"));
}

#[test]
fn skip_interfaces_use_macros() {
    let mut rules = Rules::default();
    rules.skip_interfaces.push("lo0".to_string());
    rules.skip_interfaces.push("utun 1".to_string());
    let text = rules.build_at(0);
    assert!(text.contains(
        "set state-policy floating\nskip0_if = \"lo0\"\nskip1_if = \"utun 1\"\nset skip on { $skip0_if, $skip1_if }\n\n# SCRUB"
    ));
}

#[test]
fn interfaces_by_direction() {
    let mut rules = Rules::default();
    rules.pass_interfaces.push(Direction::new("in:en0"));
    rules.pass_interfaces.push(Direction::new("out:en1"));
    rules.pass_interfaces.push(Direction::new("en2"));
    let text = rules.build_at(0);
    assert!(text.contains(
        "# INTERFACES\npass_in0_if = \"en0\"\npass_in1_if = \"en2\"\npass_out0_if = \"en1\"\npass_out1_if = \"en2\"\npass in quick on { $pass_in0_if, $pass_in1_if } all\npass out quick on { $pass_out0_if, $pass_out1_if } all\n\n"
    ));
}

#[test]
fn owners_by_kind() {
    let mut rules = Rules::default();
    rules.pass_owners.push(Owner::new("root"));
    rules.pass_owners.push(Owner::new("g:wheel"));
    rules.pass_owners.push(Owner::new("u:nobody"));
    let text = rules.build_at(0);
    assert!(text.contains(
        "# OWNERS\npass quick all user { root, nobody }\npass quick all group { wheel }\n\n"
    ));
}

#[test]
fn scrub_ttl_logging_and_policies() {
    let mut rules = Rules::default();
    rules.min_ttl = 64;
    rules.is_enable_log = true;
    rules.block_policy = BlockPolicy::Return;
    rules.state_policy = StatePolicy::IfBound;
    rules.antispoofing = Some(Antispoofing::NoRoute);
    let text = rules.build_at(0);
    assert!(text.contains("set block-policy return\nset state-policy if-bound\n"));
    assert!(text.contains("scrub in all\nscrub out all min-ttl 64\n"));
    assert!(text.contains("block return in log all\n"));
    assert!(text.contains("block return out log all\n"));
    assert!(text.contains("block drop in log quick from no-route to any label \"ANTISPOOFING\"\n"));
}

#[test]
fn pass_actions_and_all_multicast() {
    let mut rules = Rules::default();
    rules.incoming = Action::Pass;
    rules.outgoing = Action::Pass;
    rules.lan = Some(Lan { is_block_out_dns: false, multicast: Multicast::All });
    let text = rules.build_at(0);
    assert!(text.contains("# INCOMING\npass in all\n"));
    assert!(text.contains("# OUTGOING\npass out all\n"));
    assert!(!text.contains("port domain"));
    assert!(text.contains("pass quick inet from 10.0.0.0/8 to { 10.0.0.0/8, 255.255.255.255, 224.0.0.0/4 }"));
    assert!(text.contains("pass quick inet6 from fc00::/7 to { fc00::/7, ff00::/8 }"));
    assert!(text.contains("pass quick inet from 0.0.0.0 to { 255.255.255.255, 224.0.0.0/24 }"));
}

#[test]
fn destinations_by_direction() {
    let mut rules = Rules::default();
    rules.pass_destinations.push(Direction::new("in:1.1.1.1"));
    rules.pass_destinations.push(Direction::new("out:/etc/hosts.allow"));
    rules.pass_destinations.push(Direction::new("vpn.example.com"));
    let text = rules.build_at(0);
    assert!(text.contains("table <netlock_pass_in> { 1.1.1.1, vpn.example.com } \n"));
    assert!(text.contains(
        "table <netlock_pass_out> { vpn.example.com } file \"/etc/hosts.allow\"\n"
    ));
}

#[test]
fn custom_table_names() {
    let rules = Rules::new("deny", "allow_in", "allow_out");
    assert_eq!(rules.block_table_name(), "deny");
    assert_eq!(rules.in_table_name(), "allow_in");
    assert_eq!(rules.out_table_name(), "allow_out");
    let text = rules.build_at(0);
    assert!(text.contains("block drop in quick from <deny> to any label \"BLOCKLIST_IN\""));
    assert!(text.contains("pass out quick from any to <allow_out>"));
    let t = TableNames::new("a", "b", "c");
    assert_eq!(t.block_name(), "a");
}
