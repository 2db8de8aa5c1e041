//! Routing of the Ethernet frames read from the server's TAP device to the
//! outboxes of admitted clients.
use crate::mac::{mac_eq, mac_in, Mac, BROADCAST};
use crate::table::{enqueue, ClientTable};
use vstd::prelude::*;
use vstd::slice::slice_to_vec;

verus! {

/// Frames shorter than an Ethernet header are invalid.
pub const MIN_ETHERNET_FRAME: usize = 14;

/// The destination address of a frame.
pub open spec fn dst_of(frame: Seq<u8>) -> Seq<u8> {
    frame.subrange(0, 6)
}

/// The source address of a frame.
pub open spec fn src_of(frame: Seq<u8>) -> Seq<u8> {
    frame.subrange(6, 12)
}

/// The MACs whose outboxes receive a frame read from the TAP device whose
/// own address is `tap_mac`: none for a frame shorter than a header or sent
/// by the TAP itself; every client for broadcast; otherwise the
/// destination, when it is registered.
pub open spec fn route_spec(frame: Seq<u8>, tap_mac: Seq<u8>, macs: Seq<Mac>) -> Seq<Seq<u8>> {
    if frame.len() < MIN_ETHERNET_FRAME || src_of(frame) == tap_mac {
        Seq::empty()
    } else if dst_of(frame) == BROADCAST@ {
        macs.map_values(|m: Mac| m@)
    } else if mac_in(macs, dst_of(frame)) {
        seq![dst_of(frame)]
    } else {
        Seq::empty()
    }
}

/// Number of `true` entries.
pub open spec fn count_true(s: Seq<bool>) -> nat
    decreases s.len(),
{
    if s.len() == 0 {
        0
    } else {
        count_true(s.drop_last()) + if s.last() {
            1nat
        } else {
            0nat
        }
    }
}

/// What became of one frame handed to the demultiplexer.
pub struct Dispatch {
    /// The MACs the frame was routed to, in table order.
    pub targets: Vec<Mac>,
    /// For each target, whether its outbox took the copy.
    pub queued: Vec<bool>,
    /// Copies queued.
    pub delivered: usize,
    /// Copies whose outbox had closed.
    pub failed: usize,
    /// For each target, the bytes handed to its outbox.
    pub copies: Ghost<Seq<Seq<u8>>>,
}

/// The six bytes of `frame` from `start`.
fn mac_at(frame: &[u8], start: usize) -> (r: Mac)
    requires
        start + 6 <= frame@.len(),
    ensures
        r@ == frame@.subrange(start as int, start + 6),
{
    let r: Mac = [
        frame[start],
        frame[start + 1],
        frame[start + 2],
        frame[start + 3],
        frame[start + 4],
        frame[start + 5],
    ];
    assert(r@ =~= frame@.subrange(start as int, start + 6));
    r
}

/// The MACs whose outboxes receive `frame`.
pub fn route_targets(table: &ClientTable, tap_mac: &Mac, frame: &[u8]) -> (r: Vec<Mac>)
    requires
        table.wf(),
    ensures
        r@.map_values(|m: Mac| m@) == route_spec(frame@, tap_mac@, table.macs()),
{
    let none: Vec<Mac> = Vec::new();
    if frame.len() < MIN_ETHERNET_FRAME {
        assert(none@.map_values(|m: Mac| m@) =~= Seq::<Seq<u8>>::empty());
        return none;
    }
    let dst = mac_at(frame, 0);
    let src = mac_at(frame, 6);
    if mac_eq(&src, tap_mac) {
        assert(none@.map_values(|m: Mac| m@) =~= Seq::<Seq<u8>>::empty());
        return none;
    }
    let bcast = BROADCAST;
    if mac_eq(&dst, &bcast) {
        let all = table.all_macs();
        return all;
    }
    let macs = table.all_macs();
    if crate::mac::contains_mac(macs.as_slice(), &dst) {
        let mut one: Vec<Mac> = Vec::new();
        one.push(dst);
        assert(one@.map_values(|m: Mac| m@) =~= seq![dst@]);
        one
    } else {
        assert(none@.map_values(|m: Mac| m@) =~= Seq::<Seq<u8>>::empty());
        none
    }
}

/// Routes one frame read from the TAP device and hands a copy of it to the
/// outbox of each MAC it is routed to. A closed outbox loses its copy and
/// does not affect the others.
pub fn dispatch_frame(table: &ClientTable, tap_mac: &Mac, frame: &[u8]) -> (r: Dispatch)
    requires
        table.wf(),
    ensures
        r.targets@.map_values(|m: Mac| m@) == route_spec(frame@, tap_mac@, table.macs()),
        r.queued@.len() == r.targets@.len(),
        r.copies@.len() == r.targets@.len(),
        forall|i: int| 0 <= i < r.copies@.len() ==> #[trigger] r.copies@[i] == frame@,
        r.delivered == count_true(r.queued@),
        r.delivered + r.failed == r.targets@.len(),
{
    let targets = route_targets(table, tap_mac, frame);
    let ghost routed = route_spec(frame@, tap_mac@, table.macs());
    let mut queued: Vec<bool> = Vec::new();
    let ghost mut copies: Seq<Seq<u8>> = Seq::empty();
    let mut delivered: usize = 0;
    let mut failed: usize = 0;
    let mut i: usize = 0;
    while i < targets.len()
        invariant
            table.wf(),
            i <= targets@.len(),
            queued@.len() == i,
            copies.len() == i,
            forall|k: int| 0 <= k < copies.len() ==> #[trigger] copies[k] == frame@,
            delivered == count_true(queued@),
            delivered + failed == i,
            targets@.map_values(|m: Mac| m@) == routed,
            routed == route_spec(frame@, tap_mac@, table.macs()),
            forall|k: int| 0 <= k < routed.len() ==> mac_in(table.macs(), #[trigger] routed[k]),
        decreases targets@.len() - i,
    {
        assert(routed[i as int] == targets@[i as int]@);
        let t = targets[i];
        proof {
            let j = choose|j: int|
                0 <= j < table.macs().len() && (#[trigger] table.macs()[j])@ == t@;
            assert(table.macs()[j] == table.entries()[j].mac);
        }
        let copy = slice_to_vec(frame);
        proof {
            copies = copies.push(copy@);
        }
        let ok = match table.get(t) {
            Some(client) => enqueue(&client.sender, copy),
            None => {
                // Every target is registered, so this arm is never taken.
                assert(false);
                false
            },
        };
        let ghost before = queued@;
        queued.push(ok);
        assert(queued@.drop_last() =~= before);
        if ok {
            delivered = delivered + 1;
        } else {
            failed = failed + 1;
        }
        i = i + 1;
    }
    Dispatch { targets, queued, delivered, failed, copies: Ghost(copies) }
}

} // verus!

verus! {

/// A broadcast frame from another host is routed to every registered
/// client, once each.
pub proof fn lemma_broadcast_fans_out(frame: Seq<u8>, tap_mac: Seq<u8>, macs: Seq<Mac>)
    requires
        frame.len() >= MIN_ETHERNET_FRAME,
        src_of(frame) != tap_mac,
        dst_of(frame) == BROADCAST@,
    ensures
        route_spec(frame, tap_mac, macs).len() == macs.len(),
        forall|i: int|
            0 <= i < macs.len() ==> #[trigger] route_spec(frame, tap_mac, macs)[i] == macs[i]@,
{
}

/// A unicast frame for a MAC that no client holds is routed nowhere.
pub proof fn lemma_unknown_unicast_dropped(frame: Seq<u8>, tap_mac: Seq<u8>, macs: Seq<Mac>)
    requires
        dst_of(frame) != BROADCAST@,
        !mac_in(macs, dst_of(frame)),
    ensures
        route_spec(frame, tap_mac, macs).len() == 0,
{
}

/// A frame whose source is the TAP device's own address is routed nowhere.
pub proof fn lemma_self_source_dropped(frame: Seq<u8>, tap_mac: Seq<u8>, macs: Seq<Mac>)
    requires
        src_of(frame) == tap_mac,
    ensures
        route_spec(frame, tap_mac, macs).len() == 0,
{
}

/// A frame shorter than an Ethernet header is routed nowhere.
pub proof fn lemma_short_frame_dropped(frame: Seq<u8>, tap_mac: Seq<u8>, macs: Seq<Mac>)
    requires
        frame.len() < MIN_ETHERNET_FRAME,
    ensures
        route_spec(frame, tap_mac, macs).len() == 0,
{
}

} // verus!
