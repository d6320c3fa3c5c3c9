//! Rendering the joined records as the fixed-format text report: decimal
//! numbers, column padding, one line per socket, and the two report sections.

use vstd::prelude::*;
use vstd::string::{StrSliceExecFns, StringExecFns};
use crate::model::{AddressFamily, ProcRow, ProcessInfo, Protocol, SocketInfo, SocketRow, TcpState};

verus! {

/// The decimal digit character for `d`.
pub open spec fn spec_digit(d: int) -> char {
    if d == 0 {
        '0'
    } else if d == 1 {
        '1'
    } else if d == 2 {
        '2'
    } else if d == 3 {
        '3'
    } else if d == 4 {
        '4'
    } else if d == 5 {
        '5'
    } else if d == 6 {
        '6'
    } else if d == 7 {
        '7'
    } else if d == 8 {
        '8'
    } else {
        '9'
    }
}

/// Decimal rendering of `n`, without sign or padding.
pub open spec fn spec_dec(n: nat) -> Seq<char>
    decreases n,
{
    if n < 10 {
        seq![spec_digit(n as int)]
    } else {
        spec_dec(n / 10) + seq![spec_digit((n % 10) as int)]
    }
}

fn digit_str(d: u8) -> (r: &'static str)
    requires
        d < 10,
    ensures
        r@ == seq![spec_digit(d as int)],
{
    proof {
        reveal_strlit("0");
        reveal_strlit("1");
        reveal_strlit("2");
        reveal_strlit("3");
        reveal_strlit("4");
        reveal_strlit("5");
        reveal_strlit("6");
        reveal_strlit("7");
        reveal_strlit("8");
        reveal_strlit("9");
    }
    let r: &'static str = if d == 0 {
        "0"
    } else if d == 1 {
        "1"
    } else if d == 2 {
        "2"
    } else if d == 3 {
        "3"
    } else if d == 4 {
        "4"
    } else if d == 5 {
        "5"
    } else if d == 6 {
        "6"
    } else if d == 7 {
        "7"
    } else if d == 8 {
        "8"
    } else {
        "9"
    };
    proof {
        assert(r@ =~= seq![spec_digit(d as int)]);
    }
    r
}

/// Render `n` in decimal.
pub fn format_u64(n: u64) -> (r: String)
    ensures
        r@ == spec_dec(n as nat),
    decreases n,
{
    if n < 10 {
        String::from_str(digit_str(n as u8))
    } else {
        let mut r = format_u64(n / 10);
        r.append(digit_str((n % 10) as u8));
        r
    }
}

/// A run of `n` spaces.
pub open spec fn spec_spaces(n: nat) -> Seq<char>
    decreases n,
{
    if n == 0 {
        Seq::empty()
    } else {
        spec_spaces((n - 1) as nat) + seq![' ']
    }
}

fn spaces(n: usize) -> (r: String)
    ensures
        r@ == spec_spaces(n as nat),
{
    let mut r = String::new();
    let mut i: usize = 0;
    while i < n
        invariant
            0 <= i <= n,
            r@ == spec_spaces(i as nat),
        decreases n - i,
    {
        r.append(" ");
        proof {
            reveal_strlit(" ");
            assert(" "@ =~= seq![' ']);
        }
        i += 1;
    }
    r
}

/// `s` padded on the left with spaces to width `w` (right-aligned); `s`
/// unchanged if it is already at least `w` characters wide.
pub open spec fn spec_pad_left(s: Seq<char>, w: nat) -> Seq<char> {
    if s.len() >= w {
        s
    } else {
        spec_spaces((w - s.len()) as nat) + s
    }
}

/// `s` padded on the right with spaces to width `w` (left-aligned); `s`
/// unchanged if it is already at least `w` characters wide.
pub open spec fn spec_pad_right(s: Seq<char>, w: nat) -> Seq<char> {
    if s.len() >= w {
        s
    } else {
        s + spec_spaces((w - s.len()) as nat)
    }
}

/// Right-align `s` in a field of `w` characters.
pub fn pad_left(s: &str, w: usize) -> (r: String)
    ensures
        r@ == spec_pad_left(s@, w as nat),
{
    let n = s.unicode_len();
    if n >= w {
        String::from_str(s)
    } else {
        let mut r = spaces(w - n);
        r.append(s);
        r
    }
}

/// Left-align `s` in a field of `w` characters.
pub fn pad_right(s: &str, w: usize) -> (r: String)
    ensures
        r@ == spec_pad_right(s@, w as nat),
{
    let n = s.unicode_len();
    let mut r = String::from_str(s);
    if n < w {
        let fill = spaces(w - n);
        r.append(fill.as_str());
    }
    r
}

/// Symbolic name of a TCP state, as it appears in the report.
pub open spec fn spec_state_name(st: TcpState) -> Seq<char> {
    match st {
        TcpState::Closed => "Closed"@,
        TcpState::Listen => "Listen"@,
        TcpState::SynSent => "SynSent"@,
        TcpState::SynReceived => "SynReceived"@,
        TcpState::Established => "Established"@,
        TcpState::FinWait1 => "FinWait1"@,
        TcpState::FinWait2 => "FinWait2"@,
        TcpState::CloseWait => "CloseWait"@,
        TcpState::Closing => "Closing"@,
        TcpState::LastAck => "LastAck"@,
        TcpState::TimeWait => "TimeWait"@,
        TcpState::DeleteTcb => "DeleteTcb"@,
        TcpState::Unknown => "Unknown"@,
    }
}

/// The symbolic name of a TCP state.
pub fn state_name(st: TcpState) -> (r: &'static str)
    ensures
        r@ == spec_state_name(st),
{
    match st {
        TcpState::Closed => "Closed",
        TcpState::Listen => "Listen",
        TcpState::SynSent => "SynSent",
        TcpState::SynReceived => "SynReceived",
        TcpState::Established => "Established",
        TcpState::FinWait1 => "FinWait1",
        TcpState::FinWait2 => "FinWait2",
        TcpState::CloseWait => "CloseWait",
        TcpState::Closing => "Closing",
        TcpState::LastAck => "LastAck",
        TcpState::TimeWait => "TimeWait",
        TcpState::DeleteTcb => "DeleteTcb",
        TcpState::Unknown => "Unknown",
    }
}

/// State column text: the state's name, or "UNKNOWN" when a TCP record
/// carries no state (defensive; the join never produces such a record).
pub open spec fn spec_state_label(st: Option<TcpState>) -> Seq<char> {
    match st {
        Some(s) => spec_state_name(s),
        None => "UNKNOWN"@,
    }
}

/// Address-family tag: "4" for IPv4, "6" for IPv6.
pub open spec fn spec_family_tag(f: AddressFamily) -> Seq<char> {
    match f {
        AddressFamily::V4 => "4"@,
        AddressFamily::V6 => "6"@,
    }
}

fn family_tag(f: AddressFamily) -> (r: &'static str)
    ensures
        r@ == spec_family_tag(f),
{
    match f {
        AddressFamily::V4 => "4",
        AddressFamily::V6 => "6",
    }
}

/// Process column text: "name (pid)" for the first owning process, or
/// "Unknown Process" when no process is associated with the socket.
pub open spec fn spec_process_label(ps: Seq<ProcRow>) -> Seq<char> {
    if ps.len() == 0 {
        "Unknown Process"@
    } else {
        ps[0].name + " ("@ + spec_dec(ps[0].pid as nat) + ")"@
    }
}

/// Render the process column for a record's owning-process list.
pub fn process_label(procs: &Vec<ProcessInfo>) -> (r: String)
    ensures
        r@ == spec_process_label(procs.deep_view()),
{
    if procs.len() == 0 {
        String::from_str("Unknown Process")
    } else {
        proof {
            assert(procs.deep_view()[0] == procs@[0]@);
        }
        let mut r = String::from_str(procs[0].name.as_str());
        r.append(" (");
        let num = format_u64(procs[0].pid as u64);
        r.append(num.as_str());
        r.append(")");
        r
    }
}

/// Remote-address column text: the address, or "-" when it is absent.
pub open spec fn spec_remote_addr_label(a: Option<Seq<char>>) -> Seq<char> {
    match a {
        Some(s) => s,
        None => "-"@,
    }
}

/// Remote port as printed: the port, or 0 when it is absent.
pub open spec fn spec_remote_port_value(p: Option<u16>) -> nat {
    match p {
        Some(v) => v as nat,
        None => 0,
    }
}

/// Report line of a TCP record in the Listen state: no remote endpoint is
/// printed.
pub open spec fn spec_tcp_listen_line(s: SocketRow) -> Seq<char> {
    "TCP"@ + spec_family_tag(s.family) + " "@ + spec_pad_left(s.local_addr, 30) + ":"@
        + spec_pad_right(spec_dec(s.local_port as nat), 5) + "    "@ + spec_pad_right(
        spec_process_label(s.processes),
        30,
    ) + " ["@ + spec_state_label(s.state) + "]"@
}

/// Report line of any other TCP record: remote port and address are printed
/// between the local endpoint and the state.
pub open spec fn spec_tcp_connected_line(s: SocketRow) -> Seq<char> {
    "TCP"@ + spec_family_tag(s.family) + " "@ + spec_pad_left(s.local_addr, 30) + ":"@
        + spec_pad_right(spec_dec(s.local_port as nat), 5) + " -> "@ + spec_pad_left(
        spec_dec(spec_remote_port_value(s.remote_port)),
        6,
    ) + ":"@ + spec_pad_right(spec_remote_addr_label(s.remote_addr), 30) + " ["@
        + spec_state_label(s.state) + "]"@
}

/// Report line of a TCP record.
pub open spec fn spec_tcp_line(s: SocketRow) -> Seq<char> {
    if s.state == Some(TcpState::Listen) {
        spec_tcp_listen_line(s)
    } else {
        spec_tcp_connected_line(s)
    }
}

/// Report line of a UDP record: no state and no remote endpoint.
pub open spec fn spec_udp_line(s: SocketRow) -> Seq<char> {
    "UDP"@ + spec_family_tag(s.family) + " "@ + spec_pad_left(s.local_addr, 30) + ":"@
        + spec_pad_right(spec_dec(s.local_port as nat), 8) + " "@ + spec_process_label(s.processes)
}

/// Render the report line of a TCP record. Works on any record: a missing
/// state is rendered as "UNKNOWN", a missing remote endpoint as "-" and 0.
pub fn render_tcp_line(s: &SocketInfo) -> (r: String)
    ensures
        r@ == spec_tcp_line(s@),
{
    let mut r = String::from_str("TCP");
    r.append(family_tag(s.family));
    r.append(" ");
    let addr = pad_left(s.local_addr.as_str(), 30);
    r.append(addr.as_str());
    r.append(":");
    let port_num = format_u64(s.local_port as u64);
    let port = pad_right(port_num.as_str(), 5);
    r.append(port.as_str());
    let is_listen = match s.state {
        Some(TcpState::Listen) => true,
        _ => false,
    };
    if is_listen {
        r.append("    ");
        let label = process_label(&s.processes);
        let label_col = pad_right(label.as_str(), 30);
        r.append(label_col.as_str());
    } else {
        r.append(" -> ");
        let rport: u16 = match s.remote_port {
            Some(p) => p,
            None => 0,
        };
        let rport_num = format_u64(rport as u64);
        let rport_col = pad_left(rport_num.as_str(), 6);
        r.append(rport_col.as_str());
        r.append(":");
        let raddr = match &s.remote_addr {
            Some(a) => String::from_str(a.as_str()),
            None => String::from_str("-"),
        };
        let raddr_col = pad_right(raddr.as_str(), 30);
        r.append(raddr_col.as_str());
    }
    r.append(" [");
    let state = match s.state {
        Some(st) => state_name(st),
        None => "UNKNOWN",
    };
    r.append(state);
    r.append("]");
    r
}

/// Render the report line of a UDP record.
pub fn render_udp_line(s: &SocketInfo) -> (r: String)
    ensures
        r@ == spec_udp_line(s@),
{
    let mut r = String::from_str("UDP");
    r.append(family_tag(s.family));
    r.append(" ");
    let addr = pad_left(s.local_addr.as_str(), 30);
    r.append(addr.as_str());
    r.append(":");
    let port_num = format_u64(s.local_port as u64);
    let port = pad_right(port_num.as_str(), 8);
    r.append(port.as_str());
    r.append(" ");
    let label = process_label(&s.processes);
    r.append(label.as_str());
    r
}

/// The TCP section body: one line, newline-terminated, per TCP record, in
/// sequence order; records of other protocols contribute nothing.
pub open spec fn spec_tcp_section(rows: Seq<SocketRow>) -> Seq<char>
    decreases rows.len(),
{
    if rows.len() == 0 {
        Seq::empty()
    } else {
        spec_tcp_section(rows.drop_last()) + (if rows.last().protocol is Tcp {
            spec_tcp_line(rows.last()) + "\n"@
        } else {
            Seq::empty()
        })
    }
}

/// The UDP section body: one line, newline-terminated, per UDP record, in
/// sequence order.
pub open spec fn spec_udp_section(rows: Seq<SocketRow>) -> Seq<char>
    decreases rows.len(),
{
    if rows.len() == 0 {
        Seq::empty()
    } else {
        spec_udp_section(rows.drop_last()) + (if rows.last().protocol is Udp {
            spec_udp_line(rows.last()) + "\n"@
        } else {
            Seq::empty()
        })
    }
}

/// Render the TCP section body for the given records.
pub fn render_tcp_section(sockets: &Vec<SocketInfo>) -> (r: String)
    ensures
        r@ == spec_tcp_section(sockets.deep_view()),
{
    let n = sockets.len();
    let mut r = String::new();
    let mut i: usize = 0;
    while i < n
        invariant
            n == sockets.len(),
            0 <= i <= n,
            r@ == spec_tcp_section(sockets.deep_view().take(i as int)),
        decreases n - i,
    {
        proof {
            assert(sockets.deep_view().take(i + 1).drop_last() =~= sockets.deep_view().take(
                i as int,
            ));
            assert(sockets.deep_view().take(i + 1).last() == sockets@[i as int]@);
        }
        let is_tcp = match sockets[i].protocol {
            Protocol::Tcp => true,
            Protocol::Udp => false,
        };
        if is_tcp {
            let line = render_tcp_line(&sockets[i]);
            r.append(line.as_str());
            r.append("\n");
        }
        proof {
            assert(r@ =~= spec_tcp_section(sockets.deep_view().take(i + 1)));
        }
        i += 1;
    }
    proof {
        assert(sockets.deep_view().take(n as int) =~= sockets.deep_view());
    }
    r
}

/// Render the UDP section body for the given records.
pub fn render_udp_section(sockets: &Vec<SocketInfo>) -> (r: String)
    ensures
        r@ == spec_udp_section(sockets.deep_view()),
{
    let n = sockets.len();
    let mut r = String::new();
    let mut i: usize = 0;
    while i < n
        invariant
            n == sockets.len(),
            0 <= i <= n,
            r@ == spec_udp_section(sockets.deep_view().take(i as int)),
        decreases n - i,
    {
        proof {
            assert(sockets.deep_view().take(i + 1).drop_last() =~= sockets.deep_view().take(
                i as int,
            ));
            assert(sockets.deep_view().take(i + 1).last() == sockets@[i as int]@);
        }
        let is_udp = match sockets[i].protocol {
            Protocol::Udp => true,
            Protocol::Tcp => false,
        };
        if is_udp {
            let line = render_udp_line(&sockets[i]);
            r.append(line.as_str());
            r.append("\n");
        }
        proof {
            assert(r@ =~= spec_udp_section(sockets.deep_view().take(i + 1)));
        }
        i += 1;
    }
    proof {
        assert(sockets.deep_view().take(n as int) =~= sockets.deep_view());
    }
    r
}

/// The whole report: the TCP section under its header, a blank line, then
/// the UDP section under its header.
pub open spec fn spec_report(rows: Seq<SocketRow>) -> Seq<char> {
    "------------------------------\nTCP socket information\n------------------------------\n"@
        + spec_tcp_section(rows)
        + "\n------------------------------\nUDP socket information\n------------------------------\n"@
        + spec_udp_section(rows)
}

/// Render the whole report for the given records (already sorted by the
/// caller).
pub fn render_report(sockets: &Vec<SocketInfo>) -> (r: String)
    ensures
        r@ == spec_report(sockets.deep_view()),
{
    let mut r = String::from_str(
        "------------------------------\nTCP socket information\n------------------------------\n",
    );
    let tcp = render_tcp_section(sockets);
    r.append(tcp.as_str());
    r.append(
        "\n------------------------------\nUDP socket information\n------------------------------\n",
    );
    let udp = render_udp_section(sockets);
    r.append(udp.as_str());
    r
}

/// The TCP section is a filtering pass: it is the same whether it reads the
/// whole record sequence or only the records whose protocol is TCP.
pub proof fn lemma_tcp_section_filters(rows: Seq<SocketRow>)
    ensures
        spec_tcp_section(rows) == spec_tcp_section(
            rows.filter(|r: SocketRow| r.protocol is Tcp),
        ),
    decreases rows.len(),
{
    reveal_with_fuel(Seq::filter, 2);
    let pred = |r: SocketRow| r.protocol is Tcp;
    if rows.len() == 0 {
    } else {
        lemma_tcp_section_filters(rows.drop_last());
        let f = rows.filter(pred);
        if pred(rows.last()) {
            assert(f == rows.drop_last().filter(pred).push(rows.last()));
            assert(f.drop_last() =~= rows.drop_last().filter(pred));
            assert(f.last() == rows.last());
            assert(f.len() > 0);
        } else {
            assert(f == rows.drop_last().filter(pred));
            assert(spec_tcp_section(rows) =~= spec_tcp_section(rows.drop_last()));
        }
    }
}

/// The UDP section is a filtering pass: it is the same whether it reads the
/// whole record sequence or only the records whose protocol is UDP.
pub proof fn lemma_udp_section_filters(rows: Seq<SocketRow>)
    ensures
        spec_udp_section(rows) == spec_udp_section(
            rows.filter(|r: SocketRow| r.protocol is Udp),
        ),
    decreases rows.len(),
{
    reveal_with_fuel(Seq::filter, 2);
    let pred = |r: SocketRow| r.protocol is Udp;
    if rows.len() == 0 {
    } else {
        lemma_udp_section_filters(rows.drop_last());
        let f = rows.filter(pred);
        if pred(rows.last()) {
            assert(f == rows.drop_last().filter(pred).push(rows.last()));
            assert(f.drop_last() =~= rows.drop_last().filter(pred));
            assert(f.last() == rows.last());
            assert(f.len() > 0);
        } else {
            assert(f == rows.drop_last().filter(pred));
            assert(spec_udp_section(rows) =~= spec_udp_section(rows.drop_last()));
        }
    }
}

/// A TCP record in the Listen state renders without its remote endpoint:
/// two records that differ only in their remote fields render to the same
/// line.
pub proof fn lemma_listen_line_ignores_remote(a: SocketRow, b: SocketRow)
    requires
        a.state == Some(TcpState::Listen),
        b == (SocketRow { remote_port: b.remote_port, remote_addr: b.remote_addr, ..a }),
    ensures
        spec_tcp_line(a) == spec_tcp_line(b),
{
}

} // verus!
