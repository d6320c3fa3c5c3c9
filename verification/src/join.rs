//! Joining raw socket entries with the process-table snapshot.

use vstd::prelude::*;
use crate::model::{
    AddressFamily, DataRow, ProcRow, ProcessInfo, Protocol, ProtocolSocketData, RawRow, RawSocket,
    SocketInfo, SocketRow, wf_socket,
};

verus! {

/// Snapshot of the process table: every running process the collector could
/// inspect, as (pid, name) records.
pub struct ProcessTable {
    pub procs: Vec<ProcessInfo>,
}

impl View for ProcessTable {
    type V = Seq<ProcRow>;

    open spec fn view(&self) -> Seq<ProcRow> {
        self.procs.deep_view()
    }
}

/// Name recorded for `pid` in the snapshot: the first matching entry, or
/// `None` if no entry carries that pid.
pub open spec fn spec_lookup(procs: Seq<ProcRow>, pid: u32) -> Option<Seq<char>>
    decreases procs.len(),
{
    if procs.len() == 0 {
        None
    } else if procs[0].pid == pid {
        Some(procs[0].name)
    } else {
        spec_lookup(procs.drop_first(), pid)
    }
}

/// Display name a joined record carries for `pid`: the snapshot's name, or
/// the empty string when the pid cannot be resolved.
pub open spec fn spec_name_for(procs: Seq<ProcRow>, pid: u32) -> Seq<char> {
    match spec_lookup(procs, pid) {
        Some(n) => n,
        None => Seq::empty(),
    }
}

proof fn lemma_lookup_skip(procs: Seq<ProcRow>, pid: u32, i: int)
    requires
        0 <= i <= procs.len(),
        forall|k: int| 0 <= k < i ==> procs[k].pid != pid,
    ensures
        spec_lookup(procs, pid) == spec_lookup(procs.skip(i), pid),
    decreases i,
{
    if i > 0 {
        assert(procs[0].pid != pid);
        assert(procs.drop_first().skip(i - 1) =~= procs.skip(i));
        lemma_lookup_skip(procs.drop_first(), pid, i - 1);
    } else {
        assert(procs.skip(0) =~= procs);
    }
}

impl ProcessTable {
    /// Look a pid up in the snapshot, returning the first matching name.
    pub fn lookup(&self, pid: u32) -> (r: Option<String>)
        ensures
            match r {
                Some(n) => spec_lookup(self@, pid) == Some(n@),
                None => spec_lookup(self@, pid) is None,
            },
    {
        let n = self.procs.len();
        let mut i: usize = 0;
        while i < n
            invariant
                n == self.procs.len(),
                0 <= i <= n,
                forall|k: int| 0 <= k < i ==> self@[k].pid != pid,
            decreases n - i,
        {
            if self.procs[i].pid == pid {
                proof {
                    lemma_lookup_skip(self@, pid, i as int);
                    assert(self@.skip(i as int)[0] == self@[i as int]);
                }
                return Some(self.procs[i].name.clone());
            }
            i += 1;
        }
        proof {
            lemma_lookup_skip(self@, pid, n as int);
            assert(self@.skip(n as int) =~= Seq::<ProcRow>::empty());
        }
        None
    }
}

/// Processes a joined record carries for the given associated pids: each pid
/// with its resolved name, unresolved pids with the empty name.
pub open spec fn spec_join_processes(pids: Seq<u32>, procs: Seq<ProcRow>) -> Seq<ProcRow> {
    pids.map_values(|pid: u32| ProcRow { pid, name: spec_name_for(procs, pid) })
}

/// The joined record for one raw socket entry: processes resolved against the
/// snapshot, remote endpoint and state present exactly for TCP.
pub open spec fn spec_join(raw: RawRow, family: AddressFamily, procs: Seq<ProcRow>) -> SocketRow {
    match raw.data {
        DataRow::Tcp { local_addr, local_port, remote_addr, remote_port, state } => (SocketRow {
            processes: spec_join_processes(raw.associated_pids, procs),
            local_port,
            local_addr,
            remote_port: Some(remote_port),
            remote_addr: Some(remote_addr),
            protocol: Protocol::Tcp,
            state: Some(state),
            family,
        }),
        DataRow::Udp { local_addr, local_port } => (SocketRow {
            processes: spec_join_processes(raw.associated_pids, procs),
            local_port,
            local_addr,
            remote_port: None,
            remote_addr: None,
            protocol: Protocol::Udp,
            state: None,
            family,
        }),
    }
}

/// Every record the join produces is well formed: remote port and address
/// are paired, TCP records carry a state and a remote endpoint, UDP records
/// carry neither.
pub proof fn lemma_join_wf(raw: RawRow, family: AddressFamily, procs: Seq<ProcRow>)
    ensures
        wf_socket(spec_join(raw, family, procs)),
{
}

fn join_processes(pids: &Vec<u32>, table: &ProcessTable) -> (r: Vec<ProcessInfo>)
    ensures
        r.deep_view() == spec_join_processes(pids@, table@),
{
    let n = pids.len();
    let mut r: Vec<ProcessInfo> = Vec::new();
    let mut i: usize = 0;
    while i < n
        invariant
            n == pids.len(),
            0 <= i <= n,
            r@.len() == i,
            forall|k: int|
                0 <= k < i ==> r@[k]@ == (ProcRow {
                    pid: pids@[k],
                    name: spec_name_for(table@, pids@[k]),
                }),
        decreases n - i,
    {
        let pid = pids[i];
        let name = match table.lookup(pid) {
            Some(n) => n,
            None => String::new(),
        };
        r.push(ProcessInfo { pid, name });
        i += 1;
    }
    proof {
        assert forall|k: int| 0 <= k < r@.len() implies r.deep_view()[k] == spec_join_processes(
            pids@,
            table@,
        )[k] by {
            assert(r.deep_view()[k] == r@[k]@);
        }
        assert(r.deep_view() =~= spec_join_processes(pids@, table@));
    }
    r
}

/// Join one raw socket entry with the process snapshot, producing the record
/// the report is rendered from.
pub fn join_socket(raw: &RawSocket, family: AddressFamily, table: &ProcessTable) -> (r: SocketInfo)
    ensures
        r@ == spec_join(raw@, family, table@),
        wf_socket(r@),
{
    let processes = join_processes(&raw.associated_pids, table);
    match &raw.data {
        ProtocolSocketData::Tcp { local_addr, local_port, remote_addr, remote_port, state } => (SocketInfo {
            processes,
            local_port: *local_port,
            local_addr: local_addr.clone(),
            remote_port: Some(*remote_port),
            remote_addr: Some(remote_addr.clone()),
            protocol: Protocol::Tcp,
            state: Some(*state),
            family,
        }),
        ProtocolSocketData::Udp { local_addr, local_port } => (SocketInfo {
            processes,
            local_port: *local_port,
            local_addr: local_addr.clone(),
            remote_port: None,
            remote_addr: None,
            protocol: Protocol::Udp,
            state: None,
            family,
        }),
    }
}

/// The joined records for a whole per-family batch of raw entries, in the
/// order the collector produced them.
pub open spec fn spec_join_batch(raws: Seq<RawRow>, family: AddressFamily, procs: Seq<ProcRow>) -> Seq<SocketRow> {
    raws.map_values(|raw: RawRow| spec_join(raw, family, procs))
}

/// Join a whole per-family batch of raw socket entries.
pub fn join_sockets(raws: &Vec<RawSocket>, family: AddressFamily, table: &ProcessTable) -> (r: Vec<SocketInfo>)
    ensures
        r.deep_view() == spec_join_batch(raws.deep_view(), family, table@),
{
    let n = raws.len();
    let mut r: Vec<SocketInfo> = Vec::new();
    let mut i: usize = 0;
    while i < n
        invariant
            n == raws.len(),
            0 <= i <= n,
            r@.len() == i,
            forall|k: int| 0 <= k < i ==> r@[k]@ == spec_join(raws@[k]@, family, table@),
        decreases n - i,
    {
        let rec = join_socket(&raws[i], family, table);
        r.push(rec);
        i += 1;
    }
    proof {
        assert forall|k: int| 0 <= k < r@.len() implies r.deep_view()[k] == spec_join_batch(
            raws.deep_view(),
            family,
            table@,
        )[k] by {
            assert(r.deep_view()[k] == r@[k]@);
            assert(raws.deep_view()[k] == raws@[k]@);
        }
        assert(r.deep_view() =~= spec_join_batch(raws.deep_view(), family, table@));
    }
    r
}

} // verus!
