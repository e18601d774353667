use sniffy::cli::{export_filename, CliArgs};
use sniffy::packet::{PacketInfo, PacketType, TcpFlags};
use sniffy::ui::device::{find_device_index, non_loopback_devices};
use sniffy::ui::filter::{get_bpf_filter_suggestions, QuitError};
use sniffy::ui::gui_state::{detect_interface_type, suggested_filters, InterfaceKind, ProtocolDisplay};
use sniffy::ui::input::{handle_menu_navigation, key_action, open_filter_menu, toggle_help, Key, KeyAction, NavRequest};
use sniffy::ui::log::{display_packet_info, format_packet_line, PacketLog};
use sniffy::ui::state::{UiMode, UiState};

#[test]
fn interface_kind_follows_name() {
    assert_eq!(detect_interface_type("lo0"), InterfaceKind::Loopback);
    assert_eq!(detect_interface_type("eth0"), InterfaceKind::Ethernet);
    assert_eq!(detect_interface_type("enp3s0"), InterfaceKind::Ethernet);
    assert_eq!(detect_interface_type("wwan1"), InterfaceKind::Unknown);
}

#[test]
fn suggested_filters_fit_the_interface_kind() {
    let lo = suggested_filters("lo0");
    assert_eq!(lo, vec!["tcp", "udp", "port 53", "ip", "icmp"]);
    let en = suggested_filters("eth0");
    assert_eq!(en.len(), 7);
    assert!(en.contains(&"port 443".to_string()));
    let unknown = suggested_filters("wwan1");
    assert_eq!(unknown, vec!["ip", "tcp"]);
}

#[test]
fn bpf_suggestions_differ_for_loopback() {
    let regular = get_bpf_filter_suggestions("eth0");
    assert_eq!(regular.len(), 8);
    assert_eq!(regular[0].0, "All traffic (no filter)");
    assert_eq!(regular[0].1, "");
    assert_eq!(regular[7], ("DNS traffic".to_string(), "port 53".to_string()));
    let loopback = get_bpf_filter_suggestions("lo0");
    assert_eq!(loopback.len(), 5);
    assert_eq!(loopback[4].1, "ip and src net 127.0.0.1");
    let utun = get_bpf_filter_suggestions("utun3");
    assert_eq!(utun.len(), 5);
}

#[test]
fn protocol_display_maps_categories() {
    assert_eq!(ProtocolDisplay::from_packet_type(PacketType::DNS), ProtocolDisplay::DNS);
    assert_eq!(ProtocolDisplay::from_packet_type(PacketType::Other(9)), ProtocolDisplay::Other);
    assert_eq!(ProtocolDisplay::DNS.label(), "DNS:");
    assert_eq!(ProtocolDisplay::Ethernet.label(), "Ethernet:");
}

#[test]
fn ui_state_messages_behave() {
    let mut st = UiState::new();
    assert!(st.error_msg.is_none() && st.info_msg.is_none());
    st.set_error("boom".to_string());
    assert_eq!(st.error_msg.as_deref(), Some("boom"));
    st.set_info("done".to_string());
    assert_eq!(st.info_msg.as_deref(), Some("done"));
    assert!(st.error_msg.is_none());
    st.clear_info();
    assert!(st.info_msg.is_none());
    st.set_error("again".to_string());
    st.clear_error();
    assert!(st.error_msg.is_none());
}

#[test]
fn help_overlay_toggles() {
    let mut st = UiState::new();
    toggle_help(&mut st);
    assert!(matches!(st.mode, UiMode::HelpOverlay));
    toggle_help(&mut st);
    assert!(matches!(st.mode, UiMode::Capture));
}

#[test]
fn filter_menu_opens_for_selected_device() {
    let mut st = UiState::new();
    st.mode = UiMode::DeviceMenu {
        options: vec!["eth0".to_string(), "wlan1".to_string()],
        selected: 0,
    };
    open_filter_menu(&mut st);
    match &st.mode {
        UiMode::FilterMenu { interface, input, cursor_pos, options, selected } => {
            assert_eq!(interface, "eth0");
            assert_eq!(input, "");
            assert_eq!(*cursor_pos, 0);
            assert_eq!(options.len(), 8);
            assert_eq!(*selected, 0);
        },
        _ => panic!("expected the filter menu"),
    }
}

#[test]
fn device_menu_navigation_moves_and_selects() {
    let mut st = UiState::new();
    st.mode = UiMode::DeviceMenu {
        options: vec!["eth0".to_string(), "wlan1".to_string()],
        selected: 0,
    };
    assert!(handle_menu_navigation(&mut st, Key::Up).is_none());
    assert!(matches!(&st.mode, UiMode::DeviceMenu { selected: 0, .. }));
    assert!(handle_menu_navigation(&mut st, Key::Down).is_none());
    assert!(matches!(&st.mode, UiMode::DeviceMenu { selected: 1, .. }));
    assert!(handle_menu_navigation(&mut st, Key::Down).is_none());
    assert!(matches!(&st.mode, UiMode::DeviceMenu { selected: 1, .. }));
    let request = handle_menu_navigation(&mut st, Key::Enter);
    match request {
        Some(NavRequest::SwitchDevice(d)) => assert_eq!(d, "wlan1"),
        _ => panic!("expected a device switch request"),
    }
    assert!(matches!(st.mode, UiMode::Capture));
}

#[test]
fn filter_menu_enter_requests_the_selected_filter() {
    let mut st = UiState::new();
    st.mode = UiMode::FilterMenu {
        interface: "eth0".to_string(),
        input: String::new(),
        cursor_pos: 0,
        options: get_bpf_filter_suggestions("eth0"),
        selected: 1,
    };
    let request = handle_menu_navigation(&mut st, Key::Enter);
    match request {
        Some(NavRequest::ApplyFilter { expr, label }) => {
            assert_eq!(expr, "tcp");
            assert_eq!(label, "TCP only");
        },
        _ => panic!("expected a filter request"),
    }
    assert!(matches!(st.mode, UiMode::Capture));
}

#[test]
fn escape_leaves_menus() {
    let mut st = UiState::new();
    st.mode = UiMode::DeviceMenu { options: vec![], selected: 0 };
    assert!(handle_menu_navigation(&mut st, Key::Esc).is_none());
    assert!(matches!(st.mode, UiMode::Capture));
    st.mode = UiMode::HelpOverlay;
    assert!(handle_menu_navigation(&mut st, Key::Esc).is_none());
    assert!(matches!(st.mode, UiMode::Capture));
}

#[test]
fn keys_dispatch_as_documented() {
    assert_eq!(key_action(Key::Char('q')), KeyAction::Quit);
    assert_eq!(key_action(Key::Char('Q')), KeyAction::Quit);
    assert_eq!(key_action(Key::Char('?')), KeyAction::ToggleHelp);
    assert_eq!(key_action(Key::Char('/')), KeyAction::OpenFilterMenu);
    assert_eq!(key_action(Key::Up), KeyAction::Navigate);
    assert_eq!(key_action(Key::Esc), KeyAction::Navigate);
    assert_eq!(key_action(Key::Char('x')), KeyAction::Ignore);
}

#[test]
fn packet_line_formats_every_section() {
    let info = PacketInfo {
        packet_type: PacketType::TCP,
        src_mac: Some([0x00, 0x1a, 0x2b, 0x3c, 0x4d, 0x5e]),
        dst_mac: Some([0xff, 0xee, 0xdd, 0xcc, 0xbb, 0xaa]),
        src_ip: Some("1.2.3.4".to_string()),
        dst_ip: Some("5.6.7.8".to_string()),
        src_port: Some(80),
        dst_port: Some(443),
        tcp_flags: Some(TcpFlags {
            urg: false,
            ack: true,
            psh: false,
            rst: false,
            syn: true,
            fin: false,
        }),
        dns_queries: None,
    };
    assert_eq!(
        format_packet_line(&info),
        "TCP | MAC 00:1a:2b:3c:4d:5e -> ff:ee:dd:cc:bb:aa | 1.2.3.4 -> 5.6.7.8 | ports 80 -> 443 | TCP Flags: [ACK|SYN]"
    );
}

#[test]
fn packet_line_handles_absent_fields_and_queries() {
    let info = PacketInfo {
        packet_type: PacketType::DNS,
        src_mac: None,
        dst_mac: None,
        src_ip: None,
        dst_ip: None,
        src_port: None,
        dst_port: None,
        tcp_flags: None,
        dns_queries: Some(vec!["a.example".to_string(), "b.example".to_string()]),
    };
    assert_eq!(
        format_packet_line(&info),
        "DNS | MAC [n/a] | [no IP] |  | DNS: a.example, b.example"
    );
}

#[test]
fn packet_log_keeps_the_most_recent_lines() {
    let mut log = PacketLog::new();
    let info = PacketInfo {
        packet_type: PacketType::Ethernet,
        src_mac: None,
        dst_mac: None,
        src_ip: None,
        dst_ip: None,
        src_port: None,
        dst_port: None,
        tcp_flags: None,
        dns_queries: None,
    };
    for _ in 0..35 {
        display_packet_info(&mut log, &info);
    }
    assert_eq!(log.lines().len(), 30);
    assert_eq!(log.lines()[0], format_packet_line(&info));
}

#[test]
fn flags_join_with_pipes() {
    let f = TcpFlags { urg: true, ack: false, psh: true, rst: false, syn: false, fin: true };
    assert_eq!(f.flags_string(), "URG|PSH|FIN");
    let none = TcpFlags { urg: false, ack: false, psh: false, rst: false, syn: false, fin: false };
    assert_eq!(none.flags_string(), "");
}

#[test]
fn quit_error_names_itself() {
    assert_eq!(QuitError.message(), "User requested to quit");
}

#[test]
fn export_filename_follows_the_flag() {
    assert!(export_filename(&CliArgs { export: None }).is_none());
    assert!(export_filename(&CliArgs { export: Some("  ".to_string()) }).is_none());
    assert_eq!(
        export_filename(&CliArgs { export: Some("capture.pcap".to_string()) }).as_deref(),
        Some("capture.pcap")
    );
}

#[test]
fn loopback_devices_are_filtered_out() {
    let names = vec![
        "eth0".to_string(),
        "lo".to_string(),
        "wwan1".to_string(),
        "Loopback Adapter".to_string(),
    ];
    assert_eq!(non_loopback_devices(names), vec!["eth0", "wwan1"]);
}

#[test]
fn device_lookup_finds_the_first_match() {
    let names = vec!["eth0".to_string(), "wlan1".to_string(), "eth0".to_string()];
    assert_eq!(find_device_index(&names, "wlan1"), Some(1));
    assert_eq!(find_device_index(&names, "eth0"), Some(0));
    assert_eq!(find_device_index(&names, "tun9"), None);
}
