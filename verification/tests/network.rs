use deskbridge::log::{format_timestamp, get_timestamp, log_line, Moment, SESSION_HEADER};
use deskbridge::mdns::{registration, DiscoveredNode, MdnsState, SERVICE_TYPE};
use deskbridge::net::{
    dotted_string, get_local_info, get_network_interfaces, get_robust_local_ip,
    is_virtual_interface, is_virtual_name, Interface, ListedInterface,
};
use deskbridge::number::{parse_u64, push_decimal};
use deskbridge::text::{contains, lines, split_on, trim, words};

fn chars(s: &str) -> Vec<char> {
    s.chars().collect()
}

fn strings(lists: Vec<Vec<char>>) -> Vec<String> {
    lists.into_iter().map(|list| list.into_iter().collect()).collect()
}

fn interface(name: &str, ipv4: Option<[u8; 4]>) -> Interface {
    Interface { name: name.to_string(), ipv4 }
}

fn node(hostname: &str, ip: &str, port: u16) -> DiscoveredNode {
    DiscoveredNode { hostname: hostname.to_string(), ip: ip.to_string(), port }
}

#[test]
fn timestamps() {
    let at = |secs, millis| format_timestamp(Some(Moment { secs, millis }));
    assert_eq!(at(0, 0), "00:00:00.000");
    assert_eq!(at(86399, 999), "23:59:59.999");
    assert_eq!(at(86400, 7), "00:00:00.007");
    assert_eq!(at(3661, 45), "01:01:01.045");
    assert_eq!(at(1_700_000_000, 123), "22:13:20.123");
    assert_eq!(format_timestamp(None), "00:00:00.000");
}

#[test]
fn the_clock_is_read() {
    let text = get_timestamp();
    assert_eq!(text.len(), 12);
    let fields: Vec<u32> = text.split([':', '.']).map(|part| part.parse().unwrap()).collect();
    assert_eq!(fields.len(), 4);
    assert!(fields[0] < 24 && fields[1] < 60 && fields[2] < 60 && fields[3] < 1000);
}

#[test]
fn log_lines() {
    assert_eq!(
        log_line("12:00:00.000", "INFO", "KVM Host: ready"),
        "[12:00:00.000] [INFO] KVM Host: ready\n"
    );
    assert_eq!(SESSION_HEADER, "=== DeskBridge Session Started at UTC ===\n");
}

#[test]
fn virtual_interfaces() {
    assert!(is_virtual_interface("vEthernet (WSL)"));
    assert!(is_virtual_interface("VirtualBox Host-Only Network"));
    assert!(is_virtual_interface("VMware Network Adapter VMnet8"));
    assert!(is_virtual_interface("Loopback Pseudo-Interface 1"));
    assert!(is_virtual_interface("Teredo Tunneling"));
    assert!(is_virtual_interface("ISATAP"));
    assert!(is_virtual_interface("vbox0"));
    assert!(!is_virtual_interface("Ethernet"));
    assert!(!is_virtual_interface("wlan0"));
    assert!(!is_virtual_interface(""));
    assert!(is_virtual_name("a wsl b"));
    assert!(!is_virtual_name("WSL"));
}

#[test]
fn addresses() {
    assert_eq!(dotted_string(&[192, 168, 0, 255]), "192.168.0.255");
    assert_eq!(dotted_string(&[0, 0, 0, 0]), "0.0.0.0");
}

#[test]
fn the_local_address() {
    let list = vec![
        interface("eth6", None),
        interface("lo", Some([127, 0, 0, 1])),
        interface("vEthernet", Some([172, 20, 0, 1])),
        interface("wlan0", Some([192, 168, 1, 7])),
        interface("eth0", Some([10, 0, 0, 1])),
    ];
    assert_eq!(get_robust_local_ip(Some("10.9.8.7".to_string()), None), "10.9.8.7");
    assert_eq!(get_robust_local_ip(None, Some(list.clone())), "192.168.1.7");
    assert_eq!(get_robust_local_ip(None, Some(list[..3].to_vec())), "127.0.0.1");
    assert_eq!(get_robust_local_ip(None, None), "127.0.0.1");
    assert_eq!(
        get_network_interfaces(&list),
        vec![
            ListedInterface {
                name: "vEthernet".to_string(),
                ip: "172.20.0.1".to_string(),
                is_virtual: true
            },
            ListedInterface {
                name: "wlan0".to_string(),
                ip: "192.168.1.7".to_string(),
                is_virtual: false
            },
            ListedInterface {
                name: "eth0".to_string(),
                ip: "10.0.0.1".to_string(),
                is_virtual: false
            },
        ]
    );
}

#[test]
fn local_info() {
    let info = get_local_info(Some("desk".to_string()), "10.0.0.1".to_string());
    assert_eq!((info.hostname.as_str(), info.ip.as_str()), ("desk", "10.0.0.1"));
    assert_eq!(get_local_info(None, "10.0.0.1".to_string()).hostname, "unknown");
}

#[test]
fn registering() {
    let r = registration(Some("my.desk.lan".to_string()), Some("10.0.0.1".to_string()), 53200);
    assert_eq!(r.hostname, "my.desk.lan");
    assert_eq!(r.instance_name, "my_desk_lan._deskbridge._tcp.local.");
    assert_eq!(r.host_name, "my_desk_lan.local.");
    assert_eq!((r.ip.as_str(), r.port), ("10.0.0.1", 53200));
    let unknown = registration(None, None, 1);
    assert_eq!(unknown.hostname, "unknown-host");
    assert_eq!(unknown.ip, "127.0.0.1");
    assert!(unknown.instance_name.ends_with(SERVICE_TYPE));
}

#[test]
fn finding_nodes() {
    let mut state = MdnsState::new();
    assert_eq!(state.get_discovered_nodes(), vec![]);
    let mine = registration(Some("desk".to_string()), Some("10.0.0.1".to_string()), 53200);
    let mut find = |ip: Option<&str>, port: u16, name: &str| {
        state.resolve(&mine.ip, mine.port, ip.map(|ip| ip.to_string()), port, name)
    };
    assert_eq!(find(Some("10.0.0.1"), 53200, "desk._deskbridge._tcp.local."), None);
    let b = node("b", "10.0.0.2", 53200);
    assert_eq!(find(Some("10.0.0.2"), 53200, "b._deskbridge._tcp.local."), Some(b.clone()));
    // Found again, under another name: announced, but not listed anew.
    let again = node("b2", "10.0.0.2", 53200);
    assert_eq!(find(Some("10.0.0.2"), 53200, "b2.x"), Some(again));
    let other_port = node("c", "10.0.0.2", 53201);
    assert_eq!(find(Some("10.0.0.2"), 53201, "c"), Some(other_port.clone()));
    let nowhere = node("", "", 5);
    assert_eq!(find(None, 5, ".x"), Some(nowhere.clone()));
    assert_eq!(state.get_discovered_nodes(), vec![b, other_port, nowhere]);
}

#[test]
fn registered_names_are_found() {
    let r = registration(Some("a.b".to_string()), None, 1);
    let found = MdnsState::new().resolve("x", 1, None, 1, &r.instance_name).unwrap();
    assert_eq!(found.hostname, "a_b");
}

#[test]
fn numbers() {
    let mut text = "n=".to_string();
    push_decimal(&mut text, 0);
    push_decimal(&mut text, 1090);
    assert_eq!(text, "n=01090");
    assert_eq!(parse_u64(&chars("007")), Some(7));
    assert_eq!(parse_u64(&chars("+12")), Some(12));
    for bad in ["", "+", "-1", "1 ", "1_000", "18446744073709551616", "99999999999999999999999"] {
        assert_eq!(parse_u64(&chars(bad)), None);
    }
    assert_eq!(parse_u64(&chars("18446744073709551615")), Some(u64::MAX));
}

#[test]
fn texts() {
    assert_eq!(strings(split_on(&chars("a,,b,"), ',')), vec!["a", "", "b", ""]);
    assert_eq!(strings(split_on(&chars(""), ',')), vec![""]);
    assert_eq!(strings(lines(&chars("a\r\nb\n\nc\r"))), vec!["a", "b", "", "c\r"]);
    assert_eq!(strings(lines(&chars(""))), Vec::<String>::new());
    assert_eq!(strings(words(&chars(" a\u{a0}b \t"))), vec!["a", "b"]);
    assert_eq!(trim(&chars("\u{3000} x y \n")), chars("x y"));
    assert_eq!(trim(&chars("  ")), Vec::<char>::new());
    assert!(contains(&chars("abc"), ""));
    assert!(contains(&chars("abc"), "bc"));
    assert!(!contains(&chars("abc"), "cb"));
    assert!(!contains(&chars(""), "a"));
}

#[test]
fn white_space_is_that_of_the_standard_library() {
    for c in (0..0x11_0000u32).filter_map(char::from_u32) {
        assert_eq!(deskbridge::text::is_white(c), c.is_whitespace(), "{:?}", c);
    }
}
