//! MAC addresses, and the allocation of fresh locally-administered unicast
//! addresses.
use rand::RngCore;
use vstd::prelude::*;
use vstd::set_lib::lemma_len_subset;

verus! {

/// A six-byte Ethernet address.
pub type Mac = [u8; 6];

/// The broadcast address `FF:FF:FF:FF:FF:FF`.
pub const BROADCAST: Mac = [0xff, 0xff, 0xff, 0xff, 0xff, 0xff];

/// Number of distinct locally-administered unicast addresses: the six
/// high bits of byte 0 and the other five bytes are free.
pub const LOCAL_UNICAST_SPACE: u64 = 0x4000_0000_0000;

/// Random tries before the allocator falls back to a deterministic scan.
pub const RANDOM_TRIES: usize = 16;

/// Byte 0 has bit 1 set (locally administered) and bit 0 clear (unicast).
pub open spec fn is_local_unicast(m: Seq<u8>) -> bool {
    m.len() == 6 && m[0] & 3u8 == 2u8
}

/// Whether `m` is one of the addresses in `macs`.
pub open spec fn mac_in(macs: Seq<Mac>, m: Seq<u8>) -> bool {
    exists|i: int| 0 <= i < macs.len() && (#[trigger] macs[i])@ == m
}

/// The address `raw` with the unicast bit cleared and the
/// locally-administered bit set.
pub open spec fn local_unicast_of(raw: Seq<u8>) -> Seq<u8> {
    raw.update(0, (raw[0] & 0xfeu8) | 0x02u8)
}

/// The position of a locally-administered unicast address in the
/// allocator's fallback order.
pub open spec fn mac_index(m: Seq<u8>) -> int {
    (m[0] >> 2u8) * 0x100_0000_0000 + m[1] * 0x1_0000_0000 + m[2] * 0x100_0000 + m[3] * 0x1_0000
        + m[4] * 0x100 + m[5]
}

/// Relies on rand's `thread_rng` and `RngCore::fill_bytes`: six random
/// bytes, of which nothing is promised.
#[verifier::external_body]
fn random_bytes() -> (r: Mac) {
    let mut mac = [0u8; 6];
    rand::thread_rng().fill_bytes(&mut mac);
    mac
}

/// Compares two addresses byte by byte.
pub fn mac_eq(a: &Mac, b: &Mac) -> (r: bool)
    ensures
        r == (a@ == b@),
{
    let mut i: usize = 0;
    while i < 6
        invariant
            i <= 6,
            forall|j: int| 0 <= j < i ==> a@[j] == b@[j],
        decreases 6 - i,
    {
        if a[i] != b[i] {
            return false;
        }
        i = i + 1;
    }
    assert(a@ =~= b@);
    true
}

/// Whether `m` is among `macs`.
pub fn contains_mac(macs: &[Mac], m: &Mac) -> (r: bool)
    ensures
        r == mac_in(macs@, m@),
{
    let mut i: usize = 0;
    while i < macs.len()
        invariant
            i <= macs@.len(),
            forall|j: int| 0 <= j < i ==> (#[trigger] macs@[j])@ != m@,
        decreases macs@.len() - i,
    {
        if mac_eq(&macs[i], m) {
            return true;
        }
        i = i + 1;
    }
    false
}

/// Forces the locally-administered bit on and the multicast bit off.
pub fn local_unicast(raw: Mac) -> (r: Mac)
    ensures
        r@ == local_unicast_of(raw@),
        is_local_unicast(r@),
{
    let mut mac = raw;
    let r0: u8 = raw[0];
    let b: u8 = (r0 & 0xfe) | 0x02;
    assert(b & 3u8 == 2u8) by (bit_vector)
        requires
            b == (r0 & 0xfeu8) | 0x02u8,
    ;
    mac[0] = b;
    assert(mac@ =~= local_unicast_of(raw@));
    mac
}

/// A random locally-administered unicast address.
pub fn random_mac() -> (r: Mac)
    ensures
        is_local_unicast(r@),
{
    local_unicast(random_bytes())
}

/// The address at position `i` of the fallback order.
fn indexed_mac(i: u64) -> (r: Mac)
    requires
        i < LOCAL_UNICAST_SPACE,
    ensures
        is_local_unicast(r@),
        mac_index(r@) == i,
{
    let q1: u64 = i / 0x100;
    let q2: u64 = q1 / 0x100;
    let q3: u64 = q2 / 0x100;
    let q4: u64 = q3 / 0x100;
    let q5: u64 = q4 / 0x100;
    assert(i == q1 * 0x100 + i % 0x100);
    assert(q1 == q2 * 0x100 + q1 % 0x100);
    assert(q2 == q3 * 0x100 + q2 % 0x100);
    assert(q3 == q4 * 0x100 + q3 % 0x100);
    assert(q4 == q5 * 0x100 + q4 % 0x100);
    assert(q5 < 64);
    let hi: u8 = q5 as u8;
    let b0: u8 = (hi << 2u8) | 2u8;
    assert(b0 & 3u8 == 2u8 && b0 >> 2u8 == hi) by (bit_vector)
        requires
            hi < 64u8,
            b0 == (hi << 2u8) | 2u8,
    ;
    let mac: Mac = [
        b0,
        (q4 % 0x100) as u8,
        (q3 % 0x100) as u8,
        (q2 % 0x100) as u8,
        (q1 % 0x100) as u8,
        (i % 0x100) as u8,
    ];
    mac
}

/// A locally-administered unicast address that is not among `existing`.
/// A few random addresses are tried first; should all of them be taken,
/// the first free address in a fixed order is returned, which exists as
/// long as `existing` does not fill the whole space.
pub fn generate_mac(existing: &[Mac]) -> (r: Mac)
    requires
        existing@.len() < LOCAL_UNICAST_SPACE,
    ensures
        is_local_unicast(r@),
        !mac_in(existing@, r@),
{
    let mut tries: usize = 0;
    while tries < RANDOM_TRIES
        invariant
            tries <= RANDOM_TRIES,
        decreases RANDOM_TRIES - tries,
    {
        let mac = random_mac();
        if !contains_mac(existing, &mac) {
            return mac;
        }
        tries = tries + 1;
    }
    let n: u64 = existing.len() as u64;
    let ghost taken: Set<Seq<u8>> = existing@.map_values(|m: Mac| m@).to_set();
    let ghost mut tried: Set<Seq<u8>> = Set::empty();
    proof {
        existing@.map_values(|m: Mac| m@).lemma_cardinality_of_set();
    }
    let mut i: u64 = 0;
    while i <= n
        invariant
            n == existing@.len(),
            n < LOCAL_UNICAST_SPACE,
            i <= n + 1,
            taken == existing@.map_values(|m: Mac| m@).to_set(),
            taken.len() <= n,
            tried.finite(),
            tried.len() == i,
            tried.subset_of(taken),
            forall|s: Seq<u8>| #[trigger] tried.contains(s) ==> mac_index(s) < i,
        decreases n + 1 - i,
    {
        let mac = indexed_mac(i);
        if !contains_mac(existing, &mac) {
            return mac;
        }
        proof {
            let k = choose|k: int| 0 <= k < existing@.len() && (#[trigger] existing@[k])@ == mac@;
            assert(existing@.map_values(|m: Mac| m@)[k] == mac@);
            assert(taken.contains(mac@));
            assert(!tried.contains(mac@));
            tried = tried.insert(mac@);
        }
        i = i + 1;
    }
    proof {
        lemma_len_subset(tried, taken);
    }
    indexed_mac(0)
}

} // verus!
