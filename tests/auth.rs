use blackwire::auth::{
    bytes_eq, check_keys_setup, decode_key, load_allowed_clients, parse_key_file,
    setup_key_files, Auth,
};
use blackwire::ProtoError;

fn hex32(b: u8) -> String {
    let mut s = String::new();
    for _ in 0..32 {
        s.push_str(&format!("{:02x}", b));
    }
    s
}

#[test]
fn decode_key_reads_both_cases() {
    assert_eq!(decode_key("00ff10Ab"), Ok(vec![0x00, 0xff, 0x10, 0xab]));
    assert_eq!(decode_key(""), Ok(vec![]));
    assert_eq!(decode_key("abc"), Err(ProtoError::InvalidKey));
    assert_eq!(decode_key("zz"), Err(ProtoError::InvalidKey));
}

#[test]
fn key_file_is_trimmed() {
    assert_eq!(parse_key_file("  0a0b\n"), Ok(vec![0x0a, 0x0b]));
    assert_eq!(parse_key_file("\t0a0b  \r\n"), Ok(vec![0x0a, 0x0b]));
    assert_eq!(parse_key_file("0a 0b"), Err(ProtoError::InvalidKey));
}

#[test]
fn key_file_trims_unicode_white_space() {
    assert_eq!(parse_key_file("\u{3000}\u{a0}0a0b\u{2028}\u{85}"), Ok(vec![0x0a, 0x0b]));
    assert_eq!(parse_key_file("\u{200b}0a0b"), Err(ProtoError::InvalidKey));
}

#[test]
fn allowed_list_skips_bad_files() {
    let files = vec![
        ("alice".to_string(), format!("{}\n", hex32(1))),
        ("junk".to_string(), "not hex".to_string()),
        ("bob".to_string(), hex32(2)),
    ];
    let allowed = load_allowed_clients(&files);
    assert_eq!(allowed.len(), 2);
    assert_eq!(allowed[0], ("alice".to_string(), vec![1u8; 32]));
    assert_eq!(allowed[1], ("bob".to_string(), vec![2u8; 32]));
}

#[test]
fn load_builds_the_store() {
    let files = vec![("alice".to_string(), hex32(7))];
    let auth = Auth::load(&hex32(1), &format!(" {} ", hex32(2)), &files, 100).unwrap();
    assert_eq!(auth.keypair.private, vec![1u8; 32]);
    assert_eq!(auth.keypair.public, vec![2u8; 32]);
    assert_eq!(auth.last_loaded, 100);
    assert!(auth.is_allowed(&[7u8; 32]));
    assert!(!auth.is_allowed(&[8u8; 32]));
    assert_eq!(auth.get_pub("alice"), Some(&[7u8; 32][..]));
    assert_eq!(auth.get_pub("server"), None);
}

#[test]
fn load_rejects_bad_key_files() {
    assert_eq!(Auth::load("xyz", &hex32(2), &[], 0).err(), Some(ProtoError::InvalidKey));
    assert_eq!(Auth::load(&hex32(1), "0", &[], 0).err(), Some(ProtoError::InvalidKey));
}

#[test]
fn reload_only_when_directory_is_newer() {
    let mut auth = Auth::load(&hex32(1), &hex32(2), &[], 100).unwrap();
    let files = vec![("carol".to_string(), hex32(3))];
    assert!(!auth.is_stale(100));
    assert!(!auth.reload_if_modified(100, &files));
    assert!(!auth.is_allowed(&[3u8; 32]));
    assert!(auth.is_stale(101));
    assert!(auth.reload_if_modified(101, &files));
    assert!(auth.is_allowed(&[3u8; 32]));
    assert_eq!(auth.last_loaded, 101);
    assert!(!auth.reload_if_modified(101, &[]));
    assert!(auth.is_allowed(&[3u8; 32]));
    assert_eq!(auth.keypair.private, vec![1u8; 32]);
}

#[test]
fn setup_needed_unless_all_present() {
    assert!(!check_keys_setup(true, true, true));
    assert!(check_keys_setup(false, true, true));
    assert!(check_keys_setup(true, false, true));
    assert!(check_keys_setup(true, true, false));
    assert!(check_keys_setup(false, false, false));
}

#[test]
fn setup_files_load_back() {
    let files = setup_key_files().unwrap();
    assert_eq!(files.private_hex.len(), 64);
    assert_eq!(files.public_hex.len(), 64);
    assert!(files.private_hex.chars().all(|c| c.is_ascii_hexdigit() && !c.is_ascii_uppercase()));
    let auth = Auth::load(&files.private_hex, &files.public_hex, &[], 0).unwrap();
    assert_eq!(auth.keypair.private.len(), 32);
    assert_eq!(auth.keypair.public.len(), 32);
}

#[test]
fn byte_comparison() {
    assert!(bytes_eq(&[1, 2], &[1, 2]));
    assert!(!bytes_eq(&[1, 2], &[1, 2, 3]));
    assert!(!bytes_eq(&[1, 2], &[1, 3]));
}
