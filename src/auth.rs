//! The key store: the local static key pair and the allow-list of peer
//! static keys. Files are read by the caller; this module parses their
//! contents and decides what the store holds.
use crate::error::ProtoError;
use crate::noise::{generate_static_keypair, KeyPair, KEY_LEN};
use vstd::prelude::*;

verus! {

/// hex's `FromHexError`, which callers here map to `ProtoError`.
#[verifier::external_type_specification]
#[verifier::external_body]
pub struct ExFromHexError(hex::FromHexError);

/// The value of a hex digit of either case.
pub open spec fn hex_digit_value(c: char) -> Option<int> {
    if '0' <= c && c <= '9' {
        Some(c as int - '0' as int)
    } else if 'a' <= c && c <= 'f' {
        Some(c as int - 'a' as int + 10)
    } else if 'A' <= c && c <= 'F' {
        Some(c as int - 'A' as int + 10)
    } else {
        None
    }
}

/// The bytes that a string of hex digit pairs spells, or `None` for an odd
/// length or a character that is not a hex digit.
pub open spec fn hex_decode_spec(s: Seq<char>) -> Option<Seq<u8>>
    decreases s.len(),
{
    if s.len() % 2 != 0 {
        None
    } else if s.len() == 0 {
        Some(Seq::empty())
    } else {
        match (hex_digit_value(s[0]), hex_digit_value(s[1]), hex_decode_spec(s.subrange(2, s.len() as int))) {
            (Some(h), Some(l), Some(rest)) => Some(seq![(h * 16 + l) as u8] + rest),
            _ => None,
        }
    }
}

/// The lowercase hex digit for `n` in `0..16`.
pub open spec fn hex_digit(n: int) -> char {
    if n < 10 {
        ('0' as int + n) as char
    } else {
        ('a' as int + n - 10) as char
    }
}

/// Two lowercase hex digits per byte.
pub open spec fn hex_encode_spec(b: Seq<u8>) -> Seq<char>
    decreases b.len(),
{
    if b.len() == 0 {
        Seq::empty()
    } else {
        seq![hex_digit(b[0] as int / 16), hex_digit(b[0] as int % 16)] + hex_encode_spec(b.subrange(1, b.len() as int))
    }
}

/// Whether `c` has the Unicode White_Space property.
pub open spec fn is_white_space(c: char) -> bool {
    ('\u{9}' <= c && c <= '\u{d}') || c == ' ' || c == '\u{85}' || c == '\u{a0}' || c
        == '\u{1680}' || ('\u{2000}' <= c && c <= '\u{200a}') || c == '\u{2028}' || c
        == '\u{2029}' || c == '\u{202f}' || c == '\u{205f}' || c == '\u{3000}'
}

/// `s` without its leading white space.
pub open spec fn trim_start_spec(s: Seq<char>) -> Seq<char>
    decreases s.len(),
{
    if s.len() > 0 && is_white_space(s[0]) {
        trim_start_spec(s.drop_first())
    } else {
        s
    }
}

/// `s` without its trailing white space.
pub open spec fn trim_end_spec(s: Seq<char>) -> Seq<char>
    decreases s.len(),
{
    if s.len() > 0 && is_white_space(s.last()) {
        trim_end_spec(s.drop_last())
    } else {
        s
    }
}

/// `s` without leading and trailing white space.
pub open spec fn trim_spec(s: Seq<char>) -> Seq<char> {
    trim_end_spec(trim_start_spec(s))
}

/// Relies on `str::trim`: leading and trailing characters with the Unicode
/// White_Space property are removed.
#[verifier::external_body]
fn trim(s: &str) -> (r: &str)
    ensures
        r@ == trim_spec(s@),
{
    s.trim()
}

/// Relies on `hex::decode`: digit pairs of either case become bytes; an odd
/// length or any other character is an error.
#[verifier::external_body]
fn hex_decode(s: &str) -> (r: Result<Vec<u8>, hex::FromHexError>)
    ensures
        match r {
            Ok(v) => hex_decode_spec(s@) == Some(v@),
            Err(_) => hex_decode_spec(s@) is None,
        },
{
    hex::decode(s)
}

/// Relies on `hex::encode`: two lowercase hex digits per byte.
#[verifier::external_body]
fn hex_encode(b: &[u8]) -> (r: String)
    ensures
        r@ == hex_encode_spec(b@),
{
    hex::encode(b)
}

/// Decodes an already trimmed hex key.
pub fn decode_key(text: &str) -> (r: Result<Vec<u8>, ProtoError>)
    ensures
        match r {
            Ok(k) => hex_decode_spec(text@) == Some(k@),
            Err(e) => hex_decode_spec(text@) is None && e == ProtoError::InvalidKey,
        },
{
    match hex_decode(text) {
        Ok(k) => Ok(k),
        Err(_) => Err(ProtoError::InvalidKey),
    }
}

/// The key a key file holds: its contents, trimmed, as hex.
pub open spec fn key_file_spec(contents: Seq<char>) -> Option<Seq<u8>> {
    hex_decode_spec(trim_spec(contents))
}

/// Parses the contents of a key file.
pub fn parse_key_file(contents: &str) -> (r: Result<Vec<u8>, ProtoError>)
    ensures
        match r {
            Ok(k) => key_file_spec(contents@) == Some(k@),
            Err(e) => key_file_spec(contents@) is None && e == ProtoError::InvalidKey,
        },
{
    decode_key(trim(contents))
}

/// The allow-list entries that a directory listing yields: one per file
/// whose contents parse as a key, labelled with the file's name, in order.
pub open spec fn allowed_spec(files: Seq<(String, String)>) -> Seq<(Seq<char>, Seq<u8>)>
    decreases files.len(),
{
    if files.len() == 0 {
        Seq::empty()
    } else {
        let init = allowed_spec(files.drop_last());
        let (name, contents) = files.last();
        match key_file_spec(contents@) {
            Some(k) => init.push((name@, k)),
            None => init,
        }
    }
}

/// The label and key of each allow-list entry.
pub open spec fn entries_view(allowed: Seq<(String, Vec<u8>)>) -> Seq<(Seq<char>, Seq<u8>)> {
    allowed.map_values(|e: (String, Vec<u8>)| (e.0@, e.1@))
}

/// Parses the files of the allow-list directory, given as (file name,
/// contents) pairs; files that do not hold a hex key are skipped.
pub fn load_allowed_clients(files: &[(String, String)]) -> (r: Vec<(String, Vec<u8>)>)
    ensures
        entries_view(r@) == allowed_spec(files@),
{
    let mut out: Vec<(String, Vec<u8>)> = Vec::new();
    let mut i: usize = 0;
    while i < files.len()
        invariant
            i <= files@.len(),
            entries_view(out@) == allowed_spec(files@.subrange(0, i as int)),
        decreases files@.len() - i,
    {
        let ghost seen = files@.subrange(0, i + 1);
        assert(seen.drop_last() == files@.subrange(0, i as int));
        assert(seen.last() == files@[i as int]);
        match parse_key_file(files[i].1.as_str()) {
            Ok(k) => {
                let name = files[i].0.clone();
                out.push((name, k));
                assert(entries_view(out@) =~= entries_view(out@.drop_last()).push((name@, k@)));
            },
            Err(_) => {},
        }
        i = i + 1;
    }
    assert(files@.subrange(0, files@.len() as int) == files@);
    out
}

/// Compares two byte strings.
pub fn bytes_eq(a: &[u8], b: &[u8]) -> (r: bool)
    ensures
        r == (a@ == b@),
{
    if a.len() != b.len() {
        return false;
    }
    let mut i: usize = 0;
    while i < a.len()
        invariant
            i <= a@.len(),
            a@.len() == b@.len(),
            forall|j: int| 0 <= j < i ==> a@[j] == b@[j],
        decreases a@.len() - i,
    {
        if a[i] != b[i] {
            return false;
        }
        i = i + 1;
    }
    assert(a@ =~= b@);
    true
}

/// Whether some entry of the allow-list holds `key`.
pub open spec fn allows(allowed: Seq<(String, Vec<u8>)>, key: Seq<u8>) -> bool {
    exists|i: int| 0 <= i < allowed.len() && (#[trigger] allowed[i]).1@ == key
}

/// The local key pair, the allow-list, and when the allow-list directory
/// was last read (its modification time, in nanoseconds since the epoch).
pub struct Auth {
    pub keypair: KeyPair,
    pub allowed: Vec<(String, Vec<u8>)>,
    pub last_loaded: u64,
}

impl Auth {
    /// Builds the store from the contents of the private and public key
    /// files, the files of the allow-list directory and that directory's
    /// modification time. A key file that does not hold hex is `InvalidKey`.
    pub fn load(
        private_contents: &str,
        public_contents: &str,
        allowed_files: &[(String, String)],
        mtime: u64,
    ) -> (r: Result<Auth, ProtoError>)
        ensures
            match r {
                Ok(a) => {
                    &&& key_file_spec(private_contents@) == Some(a.keypair.private@)
                    &&& key_file_spec(public_contents@) == Some(a.keypair.public@)
                    &&& entries_view(a.allowed@) == allowed_spec(allowed_files@)
                    &&& a.last_loaded == mtime
                },
                Err(e) => e == ProtoError::InvalidKey && (key_file_spec(private_contents@) is None
                    || key_file_spec(public_contents@) is None),
            },
    {
        let private = parse_key_file(private_contents)?;
        let public = parse_key_file(public_contents)?;
        let allowed = load_allowed_clients(allowed_files);
        Ok(Auth { keypair: KeyPair { private, public }, allowed, last_loaded: mtime })
    }

    /// Whether the allow-list directory changed since it was last read.
    pub fn is_stale(&self, dir_mtime: u64) -> (r: bool)
        ensures
            r == (dir_mtime > self.last_loaded),
    {
        dir_mtime > self.last_loaded
    }

    /// Replaces the allow-list with the given directory listing when the
    /// directory's modification time is newer than the last load; returns
    /// whether it did. The key pair is never touched.
    pub fn reload_if_modified(&mut self, dir_mtime: u64, files: &[(String, String)]) -> (r: bool)
        ensures
            r == (dir_mtime > old(self).last_loaded),
            final(self).keypair == old(self).keypair,
            r ==> entries_view(final(self).allowed@) == allowed_spec(files@)
                && final(self).last_loaded == dir_mtime,
            !r ==> final(self).allowed == old(self).allowed && final(self).last_loaded == old(
                self,
            ).last_loaded,
    {
        if !self.is_stale(dir_mtime) {
            return false;
        }
        self.allowed = load_allowed_clients(files);
        self.last_loaded = dir_mtime;
        true
    }

    /// Whether `key` is on the allow-list.
    pub fn is_allowed(&self, key: &[u8]) -> (r: bool)
        ensures
            r == allows(self.allowed@, key@),
    {
        let mut i: usize = 0;
        while i < self.allowed.len()
            invariant
                i <= self.allowed@.len(),
                forall|j: int| 0 <= j < i ==> (#[trigger] self.allowed@[j]).1@ != key@,
            decreases self.allowed@.len() - i,
        {
            if bytes_eq(self.allowed[i].1.as_slice(), key) {
                return true;
            }
            i = i + 1;
        }
        false
    }

    /// The key of the first allow-list entry labelled `name`.
    pub fn get_pub(&self, name: &str) -> (r: Option<&[u8]>)
        ensures
            match r {
                Some(k) => exists|i: int|
                    0 <= i < self.allowed@.len() && (#[trigger] self.allowed@[i]).0@ == name@
                        && self.allowed@[i].1@ == k@ && forall|j: int|
                        0 <= j < i ==> (#[trigger] self.allowed@[j]).0@ != name@,
                None => forall|i: int|
                    0 <= i < self.allowed@.len() ==> (#[trigger] self.allowed@[i]).0@ != name@,
            },
    {
        let wanted = name.to_owned();
        let mut i: usize = 0;
        while i < self.allowed.len()
            invariant
                i <= self.allowed@.len(),
                wanted@ == name@,
                forall|j: int| 0 <= j < i ==> (#[trigger] self.allowed@[j]).0@ != name@,
            decreases self.allowed@.len() - i,
        {
            if self.allowed[i].0 == wanted {
                return Some(self.allowed[i].1.as_slice());
            }
            i = i + 1;
        }
        None
    }
}

/// Whether the key directory still has to be set up: unless the private
/// key file, the public key file and the allow-list directory all exist.
pub fn check_keys_setup(private_exists: bool, public_exists: bool, allowed_exists: bool) -> (r:
    bool)
    ensures
        r == !(private_exists && public_exists && allowed_exists),
{
    !(private_exists && public_exists && allowed_exists)
}

/// The contents of the two key files of a fresh key pair.
pub struct KeyFiles {
    pub private_hex: String,
    pub public_hex: String,
}

/// Generates a static key pair and hex-encodes both halves for the key
/// files.
pub fn setup_key_files() -> (r: Result<KeyFiles, ProtoError>)
    ensures
        match r {
            Ok(f) => exists|private: Seq<u8>, public: Seq<u8>|
                #![trigger hex_encode_spec(private), hex_encode_spec(public)]
                private.len() == KEY_LEN && public.len() == KEY_LEN && f.private_hex@
                    == hex_encode_spec(private) && f.public_hex@ == hex_encode_spec(public),
            Err(e) => e == ProtoError::HandshakeFailed,
        },
{
    let kp = generate_static_keypair()?;
    let private_hex = hex_encode(kp.private.as_slice());
    let public_hex = hex_encode(kp.public.as_slice());
    Ok(KeyFiles { private_hex, public_hex })
}

/// Hex encoding doubles the length.
pub proof fn lemma_hex_encode_len(b: Seq<u8>)
    ensures
        hex_encode_spec(b).len() == 2 * b.len(),
    decreases b.len(),
{
    if b.len() > 0 {
        lemma_hex_encode_len(b.subrange(1, b.len() as int));
    }
}

proof fn lemma_hex_digit_value(n: int)
    requires
        0 <= n < 16,
    ensures
        hex_digit_value(hex_digit(n)) == Some(n),
{
}

/// What hex encoding writes, hex decoding reads back: the key files that
/// setup writes hold the key pair that load parses.
pub proof fn lemma_hex_round_trip(b: Seq<u8>)
    ensures
        hex_decode_spec(hex_encode_spec(b)) == Some(b),
    decreases b.len(),
{
    if b.len() > 0 {
        let rest = b.subrange(1, b.len() as int);
        lemma_hex_round_trip(rest);
        lemma_hex_encode_len(b);
        let e = hex_encode_spec(b);
        let h = b[0] as int / 16;
        let l = b[0] as int % 16;
        lemma_hex_digit_value(h);
        lemma_hex_digit_value(l);
        assert(e.subrange(2, e.len() as int) =~= hex_encode_spec(rest));
        assert((h * 16 + l) as u8 == b[0]);
        assert(seq![b[0]] + rest =~= b);
    }
}

} // verus!
