//! The event loop's routing decision: what the dispatcher's results mean
//! for the connection table — which packets go to which socket, and which
//! connections are marked for removal.

use crate::server::ServerResult;
use crate::server::ServerResultModel;
use vstd::prelude::*;

verus! {

/// The outbound packets among `rs`, in order, as (target, bytes).
pub open spec fn spec_packets(rs: Seq<ServerResultModel>) -> Seq<(int, Seq<u8>)>
    decreases rs.len(),
{
    if rs.len() == 0 {
        Seq::empty()
    } else {
        let rest = spec_packets(rs.drop_last());
        match rs.last() {
            ServerResultModel::OutboundPacket { target_connection_id, bytes } => rest.push(
                (target_connection_id, bytes),
            ),
            ServerResultModel::DisconnectConnection { .. } => rest,
        }
    }
}

/// The connections ordered disconnected by `rs`, in order.
pub open spec fn spec_disconnects(rs: Seq<ServerResultModel>) -> Seq<int>
    decreases rs.len(),
{
    if rs.len() == 0 {
        Seq::empty()
    } else {
        let rest = spec_disconnects(rs.drop_last());
        match rs.last() {
            ServerResultModel::OutboundPacket { .. } => rest,
            ServerResultModel::DisconnectConnection { connection_id } => rest.push(connection_id),
        }
    }
}

pub open spec fn spec_results(rs: Seq<ServerResult>) -> Seq<ServerResultModel> {
    rs.map_values(|r: ServerResult| r@)
}

pub open spec fn spec_pairs(ps: Seq<(usize, Vec<u8>)>) -> Seq<(int, Seq<u8>)> {
    ps.map_values(|p: (usize, Vec<u8>)| (p.0 as int, p.1@))
}

pub open spec fn spec_ids(ids: Seq<usize>) -> Seq<int> {
    ids.map_values(|i: usize| i as int)
}

/// Splits the dispatcher's results for one iteration: every outbound packet
/// queued for write in order, every disconnect order marked for removal in
/// order, nothing else and nothing lost.
pub fn route_results(results: Vec<ServerResult>) -> (out: (Vec<(usize, Vec<u8>)>, Vec<usize>))
    ensures
        spec_pairs(out.0@) == spec_packets(spec_results(results@)),
        spec_ids(out.1@) == spec_disconnects(spec_results(results@)),
{
    let ghost all = results@;
    let total = results.len();
    proof {
        assert(all.len() == total);
    }
    let mut results = results;
    let mut packets: Vec<(usize, Vec<u8>)> = Vec::new();
    let mut to_clear: Vec<usize> = Vec::new();
    let mut i: usize = 0;
    while results.len() > 0
        invariant
            all.len() <= usize::MAX,
            i + results@.len() == all.len(),
            results@ == all.subrange(i as int, all.len() as int),
            spec_pairs(packets@) == spec_packets(spec_results(all.take(i as int))),
            spec_ids(to_clear@) == spec_disconnects(spec_results(all.take(i as int))),
        decreases results@.len(),
    {
        let r = results.remove(0);
        proof {
            assert(r == all[i as int]);
            assert(results@ =~= all.subrange(i as int + 1, all.len() as int));
            assert(spec_results(all.take(i as int + 1)).drop_last() =~= spec_results(
                all.take(i as int),
            ));
            assert(spec_results(all.take(i as int + 1)).last() == all[i as int]@);
        }
        match r {
            ServerResult::OutboundPacket { target_connection_id, bytes } => {
                packets.push((target_connection_id, bytes));
                proof {
                    assert(spec_pairs(packets@) =~= spec_packets(
                        spec_results(all.take(i as int + 1)),
                    ));
                    assert(spec_ids(to_clear@) =~= spec_disconnects(
                        spec_results(all.take(i as int + 1)),
                    ));
                }
            },
            ServerResult::DisconnectConnection { connection_id } => {
                to_clear.push(connection_id);
                proof {
                    assert(spec_pairs(packets@) =~= spec_packets(
                        spec_results(all.take(i as int + 1)),
                    ));
                    assert(spec_ids(to_clear@) =~= spec_disconnects(
                        spec_results(all.take(i as int + 1)),
                    ));
                }
            },
        }
        i += 1;
    }
    proof {
        assert(all.take(all.len() as int) =~= all);
    }
    (packets, to_clear)
}

} // verus!
