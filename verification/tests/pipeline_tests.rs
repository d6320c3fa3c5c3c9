use socktab::join::{ProcessTable, join_socket, join_sockets};
use socktab::model::{
    AddressFamily, ProcessInfo, Protocol, ProtocolSocketData, RawSocket, SocketInfo, TcpState,
};
use socktab::report::build_report;
use socktab::sort::sort_by_local_port;

fn table(entries: Vec<(u32, &str)>) -> ProcessTable {
    ProcessTable {
        procs: entries
            .into_iter()
            .map(|(pid, name)| ProcessInfo { pid, name: String::from(name) })
            .collect(),
    }
}

fn tcp_raw(local: &str, port: u16, state: TcpState, pids: Vec<u32>) -> RawSocket {
    RawSocket {
        data: ProtocolSocketData::Tcp {
            local_addr: String::from(local),
            local_port: port,
            remote_addr: String::from("0.0.0.0"),
            remote_port: 0,
            state,
        },
        associated_pids: pids,
    }
}

fn udp_raw(local: &str, port: u16, pids: Vec<u32>) -> RawSocket {
    RawSocket {
        data: ProtocolSocketData::Udp { local_addr: String::from(local), local_port: port },
        associated_pids: pids,
    }
}

#[test]
fn join_resolves_known_pid() {
    let t = table(vec![(1234, "sshd")]);
    let rec = join_socket(&tcp_raw("1.2.3.4", 22, TcpState::Established, vec![1234]), AddressFamily::V4, &t);
    assert_eq!(rec.processes.len(), 1);
    assert_eq!(rec.processes[0].pid, 1234);
    assert_eq!(rec.processes[0].name, "sshd");
    assert_eq!(socktab::render::process_label(&rec.processes), "sshd (1234)");
}

#[test]
fn join_unresolved_pid_gets_empty_name() {
    let t = table(vec![(1234, "sshd")]);
    let rec = join_socket(&tcp_raw("1.2.3.4", 22, TcpState::Established, vec![777]), AddressFamily::V4, &t);
    assert_eq!(rec.processes.len(), 1);
    assert_eq!(rec.processes[0].pid, 777);
    assert_eq!(rec.processes[0].name, "");
}

#[test]
fn join_no_pids_renders_unknown_process() {
    let t = table(vec![]);
    let rec = join_socket(&tcp_raw("1.2.3.4", 22, TcpState::Established, vec![]), AddressFamily::V4, &t);
    assert!(rec.processes.is_empty());
    assert_eq!(socktab::render::process_label(&rec.processes), "Unknown Process");
}

#[test]
fn join_tcp_carries_state_and_remote() {
    let t = table(vec![]);
    let rec = join_socket(&tcp_raw("1.2.3.4", 22, TcpState::Listen, vec![]), AddressFamily::V4, &t);
    assert_eq!(rec.protocol, Protocol::Tcp);
    assert_eq!(rec.state, Some(TcpState::Listen));
    assert_eq!(rec.remote_port.is_some(), rec.remote_addr.is_some());
    assert!(rec.remote_port.is_some());
}

#[test]
fn join_udp_has_no_state_and_no_remote() {
    let t = table(vec![]);
    let rec = join_socket(&udp_raw("1.2.3.4", 53, vec![]), AddressFamily::V6, &t);
    assert_eq!(rec.protocol, Protocol::Udp);
    assert_eq!(rec.state, None);
    assert_eq!(rec.remote_port, None);
    assert!(rec.remote_addr.is_none());
    assert_eq!(rec.remote_port.is_some(), rec.remote_addr.is_some());
}

fn rec_with_port(port: u16, tag: &str) -> SocketInfo {
    SocketInfo {
        processes: Vec::new(),
        local_port: port,
        local_addr: String::from(tag),
        remote_port: None,
        remote_addr: None,
        protocol: Protocol::Udp,
        state: None,
        family: AddressFamily::V4,
    }
}

#[test]
fn sort_orders_by_local_port() {
    let v = vec![rec_with_port(80, "a"), rec_with_port(22, "b"), rec_with_port(443, "c")];
    let sorted = sort_by_local_port(v);
    let ports: Vec<u16> = sorted.iter().map(|r| r.local_port).collect();
    assert_eq!(ports, vec![22, 80, 443]);
}

#[test]
fn sort_keeps_input_order_on_ties() {
    let v = vec![
        rec_with_port(80, "first"),
        rec_with_port(22, "x"),
        rec_with_port(80, "second"),
        rec_with_port(80, "third"),
    ];
    let sorted = sort_by_local_port(v);
    let tags: Vec<&str> = sorted.iter().map(|r| r.local_addr.as_str()).collect();
    assert_eq!(tags, vec!["x", "first", "second", "third"]);
}

#[test]
fn join_batch_keeps_collector_order() {
    let t = table(vec![]);
    let recs = join_sockets(
        &vec![udp_raw("a", 9, vec![]), udp_raw("b", 5, vec![])],
        AddressFamily::V4,
        &t,
    );
    assert_eq!(recs.len(), 2);
    assert_eq!(recs[0].local_addr, "a");
    assert_eq!(recs[1].local_addr, "b");
    assert_eq!(recs[0].family, AddressFamily::V4);
}

#[test]
fn end_to_end_report() {
    let t = table(vec![(4, "nginx"), (5, "dnsmasq")]);
    let raws4 = vec![
        tcp_raw("0.0.0.0", 80, TcpState::Listen, vec![4]),
        udp_raw("0.0.0.0", 53, vec![5]),
    ];
    let raws6: Vec<RawSocket> = Vec::new();
    let report = build_report(&raws4, &raws6, &t);

    let tcp_line = format!("TCP4 {:>30}:{:<5}    {:<30} [Listen]", "0.0.0.0", 80, "nginx (4)");
    let udp_line = format!("UDP4 {:>30}:{:<8} {}", "0.0.0.0", 53, "dnsmasq (5)");
    let expected = format!(
        "------------------------------\nTCP socket information\n------------------------------\n{}\n\n------------------------------\nUDP socket information\n------------------------------\n{}\n",
        tcp_line, udp_line
    );
    assert_eq!(report, expected);
    assert!(tcp_line.contains("80"));
    assert!(tcp_line.contains("nginx (4)"));
    assert!(tcp_line.contains("Listen"));
    assert!(!tcp_line.contains("->"));
}

#[test]
fn empty_snapshot_report_has_only_headers() {
    let t = table(vec![]);
    let none: Vec<RawSocket> = Vec::new();
    let report = build_report(&none, &none, &t);
    let expected = "------------------------------\nTCP socket information\n------------------------------\n\n------------------------------\nUDP socket information\n------------------------------\n";
    assert_eq!(report, expected);
}

#[test]
fn pipeline_is_deterministic_on_equal_snapshots() {
    let make = || {
        (
            vec![
                tcp_raw("10.0.0.1", 443, TcpState::Established, vec![4]),
                udp_raw("0.0.0.0", 53, vec![5]),
                tcp_raw("0.0.0.0", 22, TcpState::Listen, vec![]),
            ],
            vec![tcp_raw("::1", 22, TcpState::Listen, vec![4])],
            table(vec![(4, "nginx"), (5, "dnsmasq")]),
        )
    };
    let (a4, a6, at) = make();
    let (b4, b6, bt) = make();
    assert_eq!(build_report(&a4, &a6, &at), build_report(&b4, &b6, &bt));
}

#[test]
fn both_families_interleave_before_sorting() {
    let t = table(vec![]);
    let raws4 = vec![udp_raw("v4", 100, vec![])];
    let raws6 = vec![udp_raw("v6", 10, vec![])];
    let report = build_report(&raws4, &raws6, &t);
    let v6_pos = report.find("UDP6").unwrap();
    let v4_pos = report.find("UDP4 ").unwrap();
    assert!(v6_pos < v4_pos, "lower port must come first even across families");
}
