//! The server's table of admitted clients, keyed by the MAC each was given.
use crate::mac::{generate_mac, is_local_unicast, mac_eq, mac_in, Mac, LOCAL_UNICAST_SPACE};
use crossbeam_channel::Sender;
use vstd::prelude::*;

verus! {

/// crossbeam_channel's `Sender`, the writing end of an outbox, carried
/// through opaquely.
#[verifier::external_type_specification]
#[verifier::external_body]
#[verifier::reject_recursive_types(T)]
pub struct ExSender<T>(crossbeam_channel::Sender<T>);

/// Relies on crossbeam_channel's `Sender::send`: the frame is queued unless
/// the receiving side is gone, which is reported as `false`.
#[verifier::external_body]
pub(crate) fn enqueue(outbox: &Sender<Vec<u8>>, frame: Vec<u8>) -> (r: bool) {
    outbox.send(frame).is_ok()
}

/// One admitted client: its MAC, the peer address it connected from, and
/// the queue of plaintext Ethernet frames waiting to be sent to it.
pub struct ClientInfo {
    pub mac: Mac,
    pub addr: String,
    pub sender: Sender<Vec<u8>>,
}

/// No two entries share a MAC.
pub open spec fn unique_macs(entries: Seq<ClientInfo>) -> bool {
    forall|i: int, j: int|
        0 <= i < entries.len() && 0 <= j < entries.len() && i != j ==> (#[trigger] entries[i]).mac@
            != (#[trigger] entries[j]).mac@
}

/// The MACs of the entries, in table order.
pub open spec fn macs_of(entries: Seq<ClientInfo>) -> Seq<Mac> {
    entries.map_values(|c: ClientInfo| c.mac)
}

/// The admitted clients.
pub struct ClientTable {
    clients: Vec<ClientInfo>,
}

impl ClientTable {
    /// The entries, in the order they were registered.
    pub closed spec fn entries(&self) -> Seq<ClientInfo> {
        self.clients@
    }

    /// The table's invariant: MACs are unique.
    pub open spec fn wf(&self) -> bool {
        unique_macs(self.entries())
    }

    /// The registered MACs.
    pub open spec fn macs(&self) -> Seq<Mac> {
        macs_of(self.entries())
    }

    /// An empty table.
    pub fn new() -> (r: ClientTable)
        ensures
            r.wf(),
            r.entries().len() == 0,
    {
        ClientTable { clients: Vec::new() }
    }

    /// Number of registered clients.
    pub fn len(&self) -> (r: usize)
        ensures
            r == self.entries().len(),
    {
        self.clients.len()
    }

    /// Position of the entry with MAC `mac`, if any.
    fn position(&self, mac: &Mac) -> (r: Option<usize>)
        ensures
            match r {
                Some(k) => k < self.entries().len() && self.entries()[k as int].mac@ == mac@,
                None => !mac_in(self.macs(), mac@),
            },
    {
        let mut i: usize = 0;
        while i < self.clients.len()
            invariant
                i <= self.clients@.len(),
                forall|j: int| 0 <= j < i ==> (#[trigger] self.clients@[j]).mac@ != mac@,
            decreases self.clients@.len() - i,
        {
            if mac_eq(&self.clients[i].mac, mac) {
                return Some(i);
            }
            i = i + 1;
        }
        proof {
            assert forall|j: int| 0 <= j < self.macs().len() implies (#[trigger] self.macs()[j])@
                != mac@ by {
                assert(self.macs()[j] == self.clients@[j].mac);
            }
        }
        None
    }

    /// Registers `info` under its MAC, replacing any entry with that MAC.
    pub fn insert(&mut self, info: ClientInfo)
        requires
            old(self).wf(),
        ensures
            final(self).wf(),
            match old(self).position_spec(info.mac@) {
                Some(k) => final(self).entries() == old(self).entries().update(k, info),
                None => final(self).entries() == old(self).entries().push(info),
            },
    {
        match self.position(&info.mac) {
            Some(k) => {
                proof {
                    old(self).lemma_position_unique(k as int);
                }
                self.clients.set(k, info);
            },
            None => {
                proof {
                    old(self).lemma_position_none(info.mac@);
                }
                self.clients.push(info);
            },
        }
    }

    /// The position of the entry with MAC `m`, if any.
    pub open spec fn position_spec(&self, m: Seq<u8>) -> Option<int> {
        if exists|k: int| 0 <= k < self.entries().len() && (#[trigger] self.entries()[k]).mac@ == m {
            Some(choose|k: int| 0 <= k < self.entries().len() && (#[trigger] self.entries()[k]).mac@ == m)
        } else {
            None
        }
    }

    proof fn lemma_position_unique(&self, k: int)
        requires
            self.wf(),
            0 <= k < self.entries().len(),
        ensures
            self.position_spec(self.entries()[k].mac@) == Some(k),
    {
        let m = self.entries()[k].mac@;
        let c = choose|c: int| 0 <= c < self.entries().len() && (#[trigger] self.entries()[c]).mac@ == m;
        assert(c == k);
    }

    proof fn lemma_position_none(&self, m: Seq<u8>)
        requires
            !mac_in(self.macs(), m),
        ensures
            self.position_spec(m) is None,
    {
        assert forall|k: int| 0 <= k < self.entries().len() implies (#[trigger] self.entries()[k]).mac@
            != m by {
            assert(self.macs()[k] == self.entries()[k].mac);
        }
    }

    /// Removes the entry with MAC `mac` and hands it back; removing a MAC
    /// that is not registered changes nothing.
    pub fn remove(&mut self, mac: Mac) -> (r: Option<ClientInfo>)
        requires
            old(self).wf(),
        ensures
            final(self).wf(),
            match old(self).position_spec(mac@) {
                Some(k) => r == Some(old(self).entries()[k]) && final(self).entries() == old(
                    self,
                ).entries().remove(k),
                None => r is None && final(self).entries() == old(self).entries(),
            },
            !mac_in(final(self).macs(), mac@),
    {
        match self.position(&mac) {
            Some(k) => {
                proof {
                    old(self).lemma_position_unique(k as int);
                }
                let info = self.clients.remove(k);
                proof {
                    let e = old(self).entries();
                    assert forall|j: int| 0 <= j < self.macs().len() implies (
                    #[trigger] self.macs()[j])@ != mac@ by {
                        assert(self.macs()[j] == self.clients@[j].mac);
                        if j < k {
                            assert(self.clients@[j] == e[j]);
                        } else {
                            assert(self.clients@[j] == e[j + 1]);
                        }
                    }
                }
                Some(info)
            },
            None => {
                proof {
                    old(self).lemma_position_none(mac@);
                }
                None
            },
        }
    }

    /// The entry registered under `mac`, if any.
    pub fn get(&self, mac: Mac) -> (r: Option<&ClientInfo>)
        requires
            self.wf(),
        ensures
            match self.position_spec(mac@) {
                Some(k) => r == Some(&self.entries()[k]),
                None => r is None,
            },
    {
        match self.position(&mac) {
            Some(k) => {
                proof {
                    self.lemma_position_unique(k as int);
                }
                Some(&self.clients[k])
            },
            None => {
                proof {
                    self.lemma_position_none(mac@);
                }
                None
            },
        }
    }

    /// The registered MACs, in table order.
    pub fn all_macs(&self) -> (r: Vec<Mac>)
        ensures
            r@ == self.macs(),
    {
        let mut out: Vec<Mac> = Vec::new();
        let mut i: usize = 0;
        while i < self.clients.len()
            invariant
                i <= self.clients@.len(),
                out@ == macs_of(self.clients@.subrange(0, i as int)),
            decreases self.clients@.len() - i,
        {
            out.push(self.clients[i].mac);
            i = i + 1;
            assert(macs_of(self.clients@.subrange(0, i as int)) =~= macs_of(
                self.clients@.subrange(0, i - 1),
            ).push(self.clients@[i - 1].mac));
        }
        assert(self.clients@.subrange(0, self.clients@.len() as int) == self.clients@);
        out
    }

    /// A locally-administered unicast MAC that no entry holds.
    pub fn generate_unique_mac(&self) -> (r: Mac)
        requires
            self.entries().len() < LOCAL_UNICAST_SPACE,
        ensures
            is_local_unicast(r@),
            !mac_in(self.macs(), r@),
    {
        let macs = self.all_macs();
        generate_mac(macs.as_slice())
    }

    /// Registers a newly admitted client under a fresh MAC, which it returns.
    pub fn add_new_client(&mut self, addr: String, sender: Sender<Vec<u8>>) -> (r: Mac)
        requires
            old(self).wf(),
            old(self).entries().len() < LOCAL_UNICAST_SPACE,
        ensures
            final(self).wf(),
            is_local_unicast(r@),
            !mac_in(old(self).macs(), r@),
            final(self).entries() == old(self).entries().push(
                ClientInfo { mac: r, addr: addr, sender: sender },
            ),
    {
        let mac = self.generate_unique_mac();
        proof {
            assert forall|j: int| 0 <= j < self.entries().len() implies (
            #[trigger] self.entries()[j]).mac@ != mac@ by {
                assert(self.macs()[j] == self.entries()[j].mac);
            }
        }
        self.clients.push(ClientInfo { mac, addr, sender });
        mac
    }
}

/// At every moment no two entries of a well-formed table share a MAC, and
/// a MAC is registered at most once.
pub proof fn lemma_table_macs_unique(t: &ClientTable, i: int, j: int)
    requires
        t.wf(),
        0 <= i < t.entries().len(),
        0 <= j < t.entries().len(),
        i != j,
    ensures
        t.entries()[i].mac@ != t.entries()[j].mac@,
{
}

} // verus!
