use blackwire::mac::{contains_mac, generate_mac, local_unicast, mac_eq, random_mac, Mac};
use blackwire::table::{ClientInfo, ClientTable};

fn outbox() -> crossbeam_channel::Sender<Vec<u8>> {
    crossbeam_channel::unbounded::<Vec<u8>>().0
}

#[test]
fn local_unicast_sets_and_clears_bits() {
    assert_eq!(local_unicast([0xff, 1, 2, 3, 4, 5]), [0xfe, 1, 2, 3, 4, 5]);
    assert_eq!(local_unicast([0x00, 9, 9, 9, 9, 9]), [0x02, 9, 9, 9, 9, 9]);
    assert_eq!(local_unicast([0x01, 0, 0, 0, 0, 0]), [0x02, 0, 0, 0, 0, 0]);
}

#[test]
fn random_macs_are_local_unicast() {
    for _ in 0..500 {
        let m = random_mac();
        assert_eq!(m[0] & 0x03, 0x02);
    }
}

#[test]
fn generated_mac_avoids_existing() {
    let existing: Vec<Mac> = (0..50).map(|_| random_mac()).collect();
    for _ in 0..200 {
        let m = generate_mac(&existing);
        assert_eq!(m[0] & 0x03, 0x02);
        assert!(!contains_mac(&existing, &m));
    }
}

#[test]
fn mac_comparison() {
    assert!(mac_eq(&[1, 2, 3, 4, 5, 6], &[1, 2, 3, 4, 5, 6]));
    assert!(!mac_eq(&[1, 2, 3, 4, 5, 6], &[1, 2, 3, 4, 5, 7]));
    assert!(contains_mac(&[[1; 6], [2; 6]], &[2; 6]));
    assert!(!contains_mac(&[[1; 6], [2; 6]], &[3; 6]));
}

#[test]
fn added_clients_get_unique_macs() {
    let mut table = ClientTable::new();
    let mut macs = Vec::new();
    for i in 0..100 {
        let m = table.add_new_client(format!("10.0.0.{}:5000", i), outbox());
        assert_eq!(m[0] & 0x03, 0x02);
        assert!(!macs.contains(&m));
        macs.push(m);
    }
    assert_eq!(table.len(), 100);
    assert_eq!(table.all_macs(), macs);
}

#[test]
fn get_and_remove() {
    let mut table = ClientTable::new();
    let m = table.add_new_client("1.2.3.4:9".to_string(), outbox());
    assert_eq!(table.get(m).unwrap().addr, "1.2.3.4:9");
    assert_eq!(table.get(m).unwrap().mac, m);
    let mut other = m;
    other[5] ^= 1;
    assert!(table.get(other).is_none());
    let removed = table.remove(m).unwrap();
    assert_eq!(removed.mac, m);
    assert!(table.get(m).is_none());
    assert!(table.remove(m).is_none());
    assert_eq!(table.len(), 0);
}

#[test]
fn insert_replaces_same_mac() {
    let mut table = ClientTable::new();
    let mac: Mac = [2, 0, 0, 0, 0, 1];
    table.insert(ClientInfo { mac, addr: "a".to_string(), sender: outbox() });
    table.insert(ClientInfo { mac, addr: "b".to_string(), sender: outbox() });
    assert_eq!(table.len(), 1);
    assert_eq!(table.get(mac).unwrap().addr, "b");
    let unique = table.generate_unique_mac();
    assert!(!mac_eq(&unique, &mac));
}
