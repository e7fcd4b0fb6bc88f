use netlock::manager::{Ctl, Manager};
use netlock::rules::Rules;
use netlock::tools::{destinations_from_ovpn, routing_info_from_table};

const TABLE: &str = "Routing tables

Internet:
Destination        Gateway            Flags        Netif Expire
0/1                10.8.0.1           UGScg        utun3
default            192.168.1.1        UGScg          en0
10.8/24            10.8.0.2           UGSc         utun3
127                127.0.0.1          UCS            lo0
128.0/1            10.8.0.1           UGSc         utun3
185.1.2.3/32       192.168.1.1        UGSc           en0
";

fn widen(table: &str) -> String {
    table
        .lines()
        .map(|l| {
            let f: Vec<&str> = l.split_whitespace().collect();
            if f.len() == 5 {
                format!("{} {} x {} a b c {}", f[0], f[1], f[2], f[3])
            } else if f.len() == 4 {
                format!("{} {} x {} a b c {}", f[0], f[1], f[2], f[3])
            } else {
                l.to_string()
            }
        })
        .collect::<Vec<_>>()
        .join("\n")
}

#[test]
fn routing_table_gives_interface_and_server() {
    let info = routing_info_from_table(&widen(TABLE));
    assert_eq!(info.interface(), "utun3");
    assert_eq!(info.destination(), "185.1.2.3/32");
}

#[test]
fn routing_table_without_vpn() {
    let t = "Destination Gateway Use Flags a b c Netif\ndefault 192.168.1.1 x UGSc a b c en0\n";
    let info = routing_info_from_table(t);
    assert_eq!(info.interface(), "");
    assert_eq!(info.destination(), "");
}

#[test]
fn ovpn_remotes_in_order() {
    let text = "client\nremote vpn1.example.com 1194\n# remote commented 1\nremote  \nremote 10.0.0.9 443 udp\n";
    assert_eq!(destinations_from_ovpn(text), vec!["vpn1.example.com".to_string(), "10.0.0.9".to_string()]);
}

#[test]
fn extend_from_routing_and_files() {
    let mut m = Manager::new(Ctl::new("/sbin/pfctl", "/etc/pf.conf"), Rules::default());
    let info = routing_info_from_table(&widen(TABLE));
    m.extend_rules_from_routing_table(&info);
    m.extend_rules_from_configuration_files(&vec!["vpn.example.com".to_string()]);
    let r = m.policy();
    assert_eq!(r.pass_interfaces.len(), 1);
    assert!(r.pass_interfaces[0].is_out());
    assert_eq!(r.pass_interfaces[0].safe_unwrap(), "utun3");
    assert_eq!(r.pass_destinations.len(), 2);
    assert_eq!(r.pass_destinations[0].value(), "out:185.1.2.3/32");
    assert_eq!(r.pass_destinations[1].value(), "out:vpn.example.com");
    let text = r.build_at(0);
    assert!(text.contains("table <netlock_pass_out> { 185.1.2.3/32, vpn.example.com } \n"));
}
