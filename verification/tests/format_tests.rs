use socktab::model::{AddressFamily, ProcessInfo, Protocol, SocketInfo, TcpState};
use socktab::render::{format_u64, pad_left, pad_right, process_label, render_tcp_line, render_udp_line, state_name};

#[test]
fn decimal_rendering() {
    assert_eq!(format_u64(0), "0");
    assert_eq!(format_u64(7), "7");
    assert_eq!(format_u64(80), "80");
    assert_eq!(format_u64(65535), "65535");
    assert_eq!(format_u64(18446744073709551615), "18446744073709551615");
}

#[test]
fn padding() {
    assert_eq!(pad_left("abc", 5), "  abc");
    assert_eq!(pad_right("abc", 5), "abc  ");
    assert_eq!(pad_left("abcdef", 5), "abcdef");
    assert_eq!(pad_right("abcdef", 5), "abcdef");
    assert_eq!(pad_left("", 3), "   ");
    assert_eq!(pad_right("", 3), "   ");
}

#[test]
fn state_names() {
    assert_eq!(state_name(TcpState::Listen), "Listen");
    assert_eq!(state_name(TcpState::Established), "Established");
    assert_eq!(state_name(TcpState::CloseWait), "CloseWait");
    assert_eq!(state_name(TcpState::Unknown), "Unknown");
}

#[test]
fn process_label_first_process_only() {
    let procs = vec![
        ProcessInfo { pid: 1234, name: String::from("sshd") },
        ProcessInfo { pid: 99, name: String::from("other") },
    ];
    assert_eq!(process_label(&procs), "sshd (1234)");
}

#[test]
fn process_label_empty_list() {
    let procs: Vec<ProcessInfo> = Vec::new();
    assert_eq!(process_label(&procs), "Unknown Process");
}

fn tcp_record(state: Option<TcpState>) -> SocketInfo {
    SocketInfo {
        processes: vec![ProcessInfo { pid: 4, name: String::from("nginx") }],
        local_port: 80,
        local_addr: String::from("0.0.0.0"),
        remote_port: Some(443),
        remote_addr: Some(String::from("10.0.0.9")),
        protocol: Protocol::Tcp,
        state,
        family: AddressFamily::V4,
    }
}

#[test]
fn listen_line_prints_no_remote_endpoint() {
    let line = render_tcp_line(&tcp_record(Some(TcpState::Listen)));
    assert!(!line.contains("->"));
    assert!(!line.contains("443"));
    assert!(!line.contains("10.0.0.9"));
    let expected = format!(
        "TCP4 {:>30}:{:<5}    {:<30} [Listen]",
        "0.0.0.0", 80, "nginx (4)"
    );
    assert_eq!(line, expected);
}

#[test]
fn listen_line_same_with_or_without_remote() {
    let mut without = tcp_record(Some(TcpState::Listen));
    without.remote_port = None;
    without.remote_addr = None;
    assert_eq!(
        render_tcp_line(&tcp_record(Some(TcpState::Listen))),
        render_tcp_line(&without)
    );
}

#[test]
fn connected_line_prints_remote_endpoint() {
    let line = render_tcp_line(&tcp_record(Some(TcpState::Established)));
    let expected = format!(
        "TCP4 {:>30}:{:<5} -> {:>6}:{:<30} [Established]",
        "0.0.0.0", 80, 443, "10.0.0.9"
    );
    assert_eq!(line, expected);
}

#[test]
fn missing_state_renders_unknown_placeholder() {
    let line = render_tcp_line(&tcp_record(None));
    assert!(line.ends_with("[UNKNOWN]"));
}

#[test]
fn missing_remote_fields_render_placeholders() {
    let mut rec = tcp_record(Some(TcpState::SynSent));
    rec.remote_port = None;
    rec.remote_addr = None;
    let line = render_tcp_line(&rec);
    let expected = format!(
        "TCP4 {:>30}:{:<5} -> {:>6}:{:<30} [SynSent]",
        "0.0.0.0", 80, 0, "-"
    );
    assert_eq!(line, expected);
}

#[test]
fn udp_line_has_no_state_and_no_remote() {
    let rec = SocketInfo {
        processes: vec![ProcessInfo { pid: 5, name: String::from("dnsmasq") }],
        local_port: 53,
        local_addr: String::from("0.0.0.0"),
        remote_port: None,
        remote_addr: None,
        protocol: Protocol::Udp,
        state: None,
        family: AddressFamily::V6,
    };
    let line = render_udp_line(&rec);
    let expected = format!("UDP6 {:>30}:{:<8} {}", "0.0.0.0", 53, "dnsmasq (5)");
    assert_eq!(line, expected);
}
