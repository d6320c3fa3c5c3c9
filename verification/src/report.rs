//! The whole pipeline: join both per-family batches, sort, render.

use vstd::prelude::*;
use crate::join::{ProcessTable, join_sockets, spec_join_batch};
use crate::model::{AddressFamily, ProcRow, RawRow, RawSocket, SocketInfo};
use crate::render::{render_report, spec_report};
use crate::sort::{sort_by_local_port, spec_sort};

verus! {

/// The report text for a snapshot: the IPv4 and IPv6 batches joined with the
/// process table, concatenated, sorted by local port, and rendered.
pub open spec fn spec_pipeline(raws4: Seq<RawRow>, raws6: Seq<RawRow>, procs: Seq<ProcRow>) -> Seq<
    char,
> {
    spec_report(
        spec_sort(
            spec_join_batch(raws4, AddressFamily::V4, procs) + spec_join_batch(
                raws6,
                AddressFamily::V6,
                procs,
            ),
        ),
    )
}

/// Produce the whole report for one snapshot of the socket and process
/// tables.
pub fn build_report(raws4: &Vec<RawSocket>, raws6: &Vec<RawSocket>, table: &ProcessTable) -> (r:
    String)
    ensures
        r@ == spec_pipeline(raws4.deep_view(), raws6.deep_view(), table@),
{
    let mut sockets = join_sockets(raws4, AddressFamily::V4, table);
    let mut sockets6 = join_sockets(raws6, AddressFamily::V6, table);
    let ghost before4 = sockets.deep_view();
    let ghost before6 = sockets6.deep_view();
    sockets.append(&mut sockets6);
    proof {
        assert forall|k: int| 0 <= k < sockets@.len() implies sockets.deep_view()[k] == (before4
            + before6)[k] by {
            assert(sockets.deep_view()[k] == sockets@[k]@);
        }
        assert(sockets.deep_view() =~= before4 + before6);
    }
    let sorted = sort_by_local_port(sockets);
    render_report(&sorted)
}

/// The report is a function of the snapshot alone: equal snapshots give
/// equal reports, so a second run over an unchanged snapshot repeats the
/// first run's output exactly.
pub proof fn lemma_pipeline_deterministic(
    a4: Seq<RawRow>,
    a6: Seq<RawRow>,
    ap: Seq<ProcRow>,
    b4: Seq<RawRow>,
    b6: Seq<RawRow>,
    bp: Seq<ProcRow>,
)
    requires
        a4 == b4,
        a6 == b6,
        ap == bp,
    ensures
        spec_pipeline(a4, a6, ap) == spec_pipeline(b4, b6, bp),
{
}

} // verus!
