//! Data model: processes, raw socket entries as the OS reports them, and the
//! joined records that the report is rendered from.

use vstd::prelude::*;

verus! {

/// Transport protocol of a socket.
#[derive(Clone, Copy, Debug, PartialEq, Eq, Structural)]
pub enum Protocol {
    Tcp,
    Udp,
}

/// Address family of a socket.
#[derive(Clone, Copy, Debug, PartialEq, Eq, Structural)]
pub enum AddressFamily {
    V4,
    V6,
}

/// Connection state of a TCP socket.
#[derive(Clone, Copy, Debug, PartialEq, Eq, Structural)]
pub enum TcpState {
    Closed,
    Listen,
    SynSent,
    SynReceived,
    Established,
    FinWait1,
    FinWait2,
    CloseWait,
    Closing,
    LastAck,
    TimeWait,
    DeleteTcb,
    Unknown,
}

/// One process owning a socket: its id and its name.
#[derive(Debug)]
pub struct ProcessInfo {
    pub pid: u32,
    pub name: String,
}

/// Mathematical value of a `ProcessInfo`.
pub struct ProcRow {
    pub pid: u32,
    pub name: Seq<char>,
}

impl View for ProcessInfo {
    type V = ProcRow;

    open spec fn view(&self) -> ProcRow {
        ProcRow { pid: self.pid, name: self.name@ }
    }
}

impl DeepView for ProcessInfo {
    type V = ProcRow;

    open spec fn deep_view(&self) -> ProcRow {
        self.view()
    }
}

/// Protocol-specific part of a raw socket entry. Addresses are carried in
/// their textual form, as the collector hands them over.
#[derive(Debug)]
pub enum ProtocolSocketData {
    Tcp {
        local_addr: String,
        local_port: u16,
        remote_addr: String,
        remote_port: u16,
        state: TcpState,
    },
    Udp {
        local_addr: String,
        local_port: u16,
    },
}

/// Mathematical value of a `ProtocolSocketData`.
pub enum DataRow {
    Tcp {
        local_addr: Seq<char>,
        local_port: u16,
        remote_addr: Seq<char>,
        remote_port: u16,
        state: TcpState,
    },
    Udp {
        local_addr: Seq<char>,
        local_port: u16,
    },
}

impl View for ProtocolSocketData {
    type V = DataRow;

    open spec fn view(&self) -> DataRow {
        match self {
            ProtocolSocketData::Tcp { local_addr, local_port, remote_addr, remote_port, state } => (DataRow::Tcp {
                local_addr: local_addr@,
                local_port: *local_port,
                remote_addr: remote_addr@,
                remote_port: *remote_port,
                state: *state,
            }),
            ProtocolSocketData::Udp { local_addr, local_port } => (DataRow::Udp {
                local_addr: local_addr@,
                local_port: *local_port,
            }),
        }
    }
}

/// One raw socket entry: protocol-specific data plus the ids of the processes
/// the OS associates with the socket.
#[derive(Debug)]
pub struct RawSocket {
    pub data: ProtocolSocketData,
    pub associated_pids: Vec<u32>,
}

/// Mathematical value of a `RawSocket`.
pub struct RawRow {
    pub data: DataRow,
    pub associated_pids: Seq<u32>,
}

impl View for RawSocket {
    type V = RawRow;

    open spec fn view(&self) -> RawRow {
        RawRow { data: self.data@, associated_pids: self.associated_pids@ }
    }
}

impl DeepView for RawSocket {
    type V = RawRow;

    open spec fn deep_view(&self) -> RawRow {
        self.view()
    }
}

/// A joined socket record, ready for sorting and rendering.
#[derive(Debug)]
pub struct SocketInfo {
    pub processes: Vec<ProcessInfo>,
    pub local_port: u16,
    pub local_addr: String,
    pub remote_port: Option<u16>,
    pub remote_addr: Option<String>,
    pub protocol: Protocol,
    pub state: Option<TcpState>,
    pub family: AddressFamily,
}

/// Mathematical value of a `SocketInfo`.
pub struct SocketRow {
    pub processes: Seq<ProcRow>,
    pub local_port: u16,
    pub local_addr: Seq<char>,
    pub remote_port: Option<u16>,
    pub remote_addr: Option<Seq<char>>,
    pub protocol: Protocol,
    pub state: Option<TcpState>,
    pub family: AddressFamily,
}

impl View for SocketInfo {
    type V = SocketRow;

    open spec fn view(&self) -> SocketRow {
        SocketRow {
            processes: self.processes.deep_view(),
            local_port: self.local_port,
            local_addr: self.local_addr@,
            remote_port: self.remote_port,
            remote_addr: match self.remote_addr {
                Some(a) => Some(a@),
                None => None,
            },
            protocol: self.protocol,
            state: self.state,
            family: self.family,
        }
    }
}

impl DeepView for SocketInfo {
    type V = SocketRow;

    open spec fn deep_view(&self) -> SocketRow {
        self.view()
    }
}

/// Well-formedness of a joined record: the remote fields are both present or
/// both absent; a UDP record carries no state and no remote endpoint; a TCP
/// record carries both.
pub open spec fn wf_socket(s: SocketRow) -> bool {
    &&& s.remote_port is Some <==> s.remote_addr is Some
    &&& s.protocol is Udp ==> s.state is None && s.remote_port is None && s.remote_addr is None
    &&& s.protocol is Tcp ==> s.state is Some && s.remote_port is Some && s.remote_addr is Some
}

} // verus!
