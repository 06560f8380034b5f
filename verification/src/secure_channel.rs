//! Layers three and four of the secure channel: ChaCha20-Poly1305 AEAD
//! encryption, and replay protection by binding a sequence number and a
//! UNIX timestamp into the associated data. A frame is
//! `[seq (8 bytes LE)][timestamp (8 bytes LE)][nonce (12 bytes)][ciphertext
//! with tag]`. The receiver rejects a frame whose timestamp is more than
//! thirty seconds off its clock, a sequence number it has already accepted,
//! and a frame that fails authentication (tampered, or sealed under another
//! key). TLS and mutual authentication (layers one and two) are the
//! caller's.

use vstd::prelude::*;
use vstd::bytes::{
    lemma_auto_spec_u64_to_from_le_bytes, spec_u64_from_le_bytes, spec_u64_to_le_bytes,
    u64_from_le_bytes, u64_to_le_bytes,
};
use vstd::slice::{slice_subrange, slice_to_vec};
use vstd::string::StringExecFns;

use chacha20poly1305::aead::{Aead, KeyInit, Payload};
use chacha20poly1305::{ChaCha20Poly1305, Key, Nonce};
use rand::TryRng;

use std::collections::BTreeSet;
use vstd::laws_cmp::obeys_cmp;
use vstd::std_specs::btree::{axiom_increasing_seq_meaning, increasing_seq};
use vstd::std_specs::cmp::OrdSpec;
use vstd::std_specs::iter::IteratorSpec;

use crate::text::{decimal_text, u64_to_decimal};

verus! {

broadcast use vstd::std_specs::btree::group_btree_axioms;

/// How far (in seconds) a frame's timestamp may be from the receiver's
/// clock.
pub const FRESHNESS_WINDOW_SECS: u64 = 30;

/// How many accepted sequence numbers the receiver remembers; beyond that
/// the smallest is forgotten.
pub const MAX_TRACKED_SEQ: usize = 10_000;

#[verifier::external_type_specification]
#[verifier::external_body]
pub struct ExAeadError(chacha20poly1305::Error);

#[verifier::external_type_specification]
#[verifier::external_body]
pub struct ExSysError(rand::rngs::SysError);

/// The ciphertext (with its 16-byte tag appended) that ChaCha20-Poly1305
/// produces for a key, nonce, associated data and plaintext.
pub uninterp spec fn chacha20poly1305_sealed(
    key: Seq<u8>,
    nonce: Seq<u8>,
    aad: Seq<u8>,
    plaintext: Seq<u8>,
) -> Seq<u8>;

/// What ChaCha20-Poly1305 decryption yields for a key, nonce, associated
/// data and ciphertext: the plaintext when the tag authenticates, `None`
/// otherwise.
pub uninterp spec fn chacha20poly1305_opened(
    key: Seq<u8>,
    nonce: Seq<u8>,
    aad: Seq<u8>,
    ciphertext: Seq<u8>,
) -> Option<Seq<u8>>;

/// `ChaCha20Poly1305::new` on `key`, then `Aead::encrypt` (chacha20poly1305
/// 0.11). Trusted: it fails exactly when the plaintext has `u32::MAX` or
/// more 64-byte blocks (the counter limit in the crate's `cipher.rs`);
/// otherwise the ciphertext is the named ChaCha20-Poly1305 result, 16 bytes
/// (the tag) longer than the plaintext. Encryption itself is not stated.
#[verifier::external_body]
fn aead_encrypt(key: &[u8; 32], nonce: &[u8], aad: &[u8], plaintext: &[u8]) -> (r: Result<
    Vec<u8>,
    chacha20poly1305::Error,
>)
    requires
        nonce@.len() == 12,
        plaintext@.len() + 16 <= usize::MAX,
    ensures
        r is Ok <==> plaintext@.len() / 64 < u32::MAX,
        r matches Ok(ct) ==> ct@ == chacha20poly1305_sealed(key@, nonce@, aad@, plaintext@)
            && ct@.len() == plaintext@.len() + 16,
{
    let cipher = ChaCha20Poly1305::new(&Key::from(*key));
    let nonce = Nonce::try_from(nonce).expect("12-byte nonce");
    cipher.encrypt(&nonce, Payload { msg: plaintext, aad })
}

/// Whether `altered` is `original` with only its last 16 bytes (the
/// authentication tag) changed.
pub open spec fn tag_altered(original: Seq<u8>, altered: Seq<u8>) -> bool {
    &&& altered.len() == original.len()
    &&& altered.len() >= 16
    &&& altered.subrange(0, altered.len() - 16) == original.subrange(0, original.len() - 16)
    &&& altered != original
}

/// `ChaCha20Poly1305::new` on `key`, then `Aead::decrypt` (chacha20poly1305
/// 0.11). Besides, a ciphertext whose tag alone differs from that of a
/// sealed message is refused: the crate recomputes the tag over the
/// unchanged ciphertext body, which gives the original tag, and compares it
/// with the one given. Trusted: the result is the named ChaCha20-Poly1305 decryption,
/// and (AEAD correctness) a ciphertext that this crate's encryption produced
/// for some plaintext under the same key, nonce and associated data
/// decrypts to that plaintext. That a forged or altered ciphertext fails is
/// not stated (it holds only with overwhelming probability).
#[verifier::external_body]
fn aead_decrypt(key: &[u8; 32], nonce: &[u8], aad: &[u8], ciphertext: &[u8]) -> (r: Result<
    Vec<u8>,
    chacha20poly1305::Error,
>)
    requires
        nonce@.len() == 12,
    ensures
        r is Ok <==> chacha20poly1305_opened(key@, nonce@, aad@, ciphertext@) is Some,
        r matches Ok(p) ==> chacha20poly1305_opened(key@, nonce@, aad@, ciphertext@) == Some(
            p@,
        ),
        r is Ok <== exists|m: Seq<u8>|
            m.len() / 64 < u32::MAX && ciphertext@ == chacha20poly1305_sealed(
                key@,
                nonce@,
                aad@,
                m,
            ),
        r matches Ok(p) ==> forall|m: Seq<u8>|
            m.len() / 64 < u32::MAX && ciphertext@ == chacha20poly1305_sealed(
                key@,
                nonce@,
                aad@,
                m,
            ) ==> p@ == m,
        forall|m: Seq<u8>|
            m.len() / 64 < u32::MAX && tag_altered(
                #[trigger] chacha20poly1305_sealed(key@, nonce@, aad@, m),
                ciphertext@,
            ) ==> r is Err,
{
    let cipher = ChaCha20Poly1305::new(&Key::from(*key));
    let nonce = Nonce::try_from(nonce).expect("12-byte nonce");
    cipher.decrypt(&nonce, Payload { msg: ciphertext, aad })
}

/// The `Display` text of the crate's error (`aead::Error`). Trusted: the
/// crate's `Display` impl writes the fixed text `aead::Error`.
#[verifier::external_body]
fn aead_error_text(e: &chacha20poly1305::Error) -> (s: String)
    ensures
        s@ == "aead::Error"@,
{
    format!("{e}")
}

/// Twelve bytes from the operating system's random source, through
/// `TryRng::try_fill_bytes` on rand's `SysRng` (rand 0.10, getrandom 0.4),
/// which reports a failing source as an error instead of panicking.
/// Nothing is stated of the bytes.
#[verifier::external_body]
fn random_nonce() -> (r: Result<[u8; 12], rand::rngs::SysError>) {
    let mut nonce = [0u8; 12];
    rand::rngs::SysRng.try_fill_bytes(&mut nonce[..]).map(|()| nonce)
}

/// The current UNIX time in seconds from `SystemTime::now` (0 when the clock
/// is before the epoch). Nothing is stated of it.
#[verifier::external_body]
fn now_secs() -> (t: u64) {
    std::time::SystemTime::now().duration_since(std::time::UNIX_EPOCH).map(|d| d.as_secs()).unwrap_or(0)
}

pub open spec fn abs_diff(a: u64, b: u64) -> nat {
    if a >= b {
        (a - b) as nat
    } else {
        (b - a) as nat
    }
}

/// Whether a timestamp is within the freshness window of `now`.
pub open spec fn is_fresh(timestamp: u64, now: u64) -> bool {
    abs_diff(now, timestamp) <= FRESHNESS_WINDOW_SECS
}

/// The smallest of a set of numbers.
pub open spec fn set_min(s: Set<u64>) -> u64 {
    choose|x: u64| s.contains(x) && forall|y: u64| s.contains(y) ==> x <= y
}

/// The accepted sequence numbers after accepting `seq`: it is added, and
/// the smallest is forgotten when more than [`MAX_TRACKED_SEQ`] are held.
pub open spec fn recorded(seen: Set<u64>, seq: u64) -> Set<u64> {
    let t = seen.insert(seq);
    if t.len() > MAX_TRACKED_SEQ {
        t.remove(set_min(t))
    } else {
        t
    }
}

pub open spec fn stale_message(now: u64, timestamp: u64) -> Seq<char> {
    "timestamp outside freshness window (diff="@ + decimal_text(abs_diff(now, timestamp)) + "s)"@
}

pub open spec fn replay_message(seq: u64) -> Seq<char> {
    "replayed sequence number: "@ + decimal_text(seq as nat)
}

/// A finite set of numbers that is not empty has a smallest element.
proof fn lemma_set_min_exists(s: Set<u64>)
    requires
        s.finite(),
        s.len() > 0,
    ensures
        s.contains(set_min(s)),
        forall|y: u64| s.contains(y) ==> set_min(s) <= y,
    decreases s.len(),
{
    let a = s.choose();
    assert(s.contains(a));
    let r = s.remove(a);
    if r.len() == 0 {
        assert forall|y: u64| s.contains(y) implies a <= y by {
            if y != a {
                assert(r.contains(y));
            }
        }
    } else {
        lemma_set_min_exists(r);
        let m = set_min(r);
        if m < a {
            assert forall|y: u64| s.contains(y) implies m <= y by {
                if y != a {
                    assert(r.contains(y));
                }
            }
        } else {
            assert forall|y: u64| s.contains(y) implies a <= y by {
                if y != a {
                    assert(r.contains(y));
                }
            }
        }
    }
}

/// The smallest number of a set, if it has any.
fn smallest_seq(s: &BTreeSet<u64>) -> (r: Option<u64>)
    ensures
        r matches Some(x) ==> s@.contains(x) && forall|y: u64| s@.contains(y) ==> x <= y,
        r is None ==> s@.is_empty(),
{
    assert(obeys_cmp::<u64>());
    assert(obeys_cmp::<&u64>());
    let mut best: Option<u64> = None;
    for x in it: s.iter()
        invariant
            it.seq().unref().to_set() == s@,
            increasing_seq(it.seq()),
            it.index() == 0 ==> best is None,
            it.index() > 0 ==> best is Some,
            best matches Some(b) ==> s@.contains(b) && forall|y: u64| s@.contains(y) ==> b <= y,
    {
        if best.is_none() {
            proof {
                let k = it.seq().unref();
                assert(k[0] == *x);
                assert(k.to_set().contains(k[0]));
                assert forall|y: u64| s@.contains(y) implies *x <= y by {
                    assert(k.to_set().contains(y));
                    let j = choose|j: int| 0 <= j < k.len() && k[j] == y;
                    if j > 0 {
                        assert(obeys_cmp::<u64>());
                        assert(obeys_cmp::<&u64>());
                        axiom_increasing_seq_meaning(it.seq());
                        assert(OrdSpec::cmp_spec(&it.seq()[0], &it.seq()[j]) is Less);
                    }
                }
            }
            best = Some(*x);
        }
    }
    best
}

/// The accepted sequence numbers of a receiver.
struct ReplayGuard {
    seen: BTreeSet<u64>,
}

impl ReplayGuard {
    closed spec fn wf(&self) -> bool {
        self.seen@.finite() && self.seen@.len() <= MAX_TRACKED_SEQ
    }

    fn new() -> (g: Self)
        ensures
            g.wf(),
            g.seen@ == Set::<u64>::empty(),
    {
        ReplayGuard { seen: BTreeSet::new() }
    }

    /// Checks a frame's sequence number and timestamp against `now`; on
    /// success remembers the sequence number.
    fn check_and_record(&mut self, seq: u64, timestamp_secs: u64, now: u64) -> (r: Result<(), String>)
        requires
            old(self).wf(),
        ensures
            final(self).wf(),
            !is_fresh(timestamp_secs, now) ==> (r matches Err(e) && e@ == stale_message(
                now,
                timestamp_secs,
            )) && final(self).seen@ == old(self).seen@,
            is_fresh(timestamp_secs, now) && old(self).seen@.contains(seq) ==> (r matches Err(e)
                && e@ == replay_message(seq)) && final(self).seen@ == old(self).seen@,
            is_fresh(timestamp_secs, now) && !old(self).seen@.contains(seq) ==> r is Ok
                && final(self).seen@ == recorded(old(self).seen@, seq),
    {
        assert(obeys_cmp::<u64>());
        let diff = if now >= timestamp_secs {
            now - timestamp_secs
        } else {
            timestamp_secs - now
        };
        if diff > FRESHNESS_WINDOW_SECS {
            let mut msg = "timestamp outside freshness window (diff=".to_owned();
            let digits = u64_to_decimal(diff);
            msg.append(digits.as_str());
            msg.append("s)");
            return Err(msg);
        }
        if self.seen.contains(&seq) {
            let mut msg = "replayed sequence number: ".to_owned();
            let digits = u64_to_decimal(seq);
            msg.append(digits.as_str());
            return Err(msg);
        }
        let ghost t = self.seen@.insert(seq);
        self.seen.insert(seq);
        assert(self.seen@ == t);
        if self.seen.len() > MAX_TRACKED_SEQ {
            proof {
                lemma_set_min_exists(t);
            }
            match smallest_seq(&self.seen) {
                Some(m) => {
                    assert(m == set_min(t)) by {
                        assert(m <= set_min(t));
                        assert(set_min(t) <= m);
                    }
                    self.seen.remove(&m);
                },
                None => {},
            }
        }
        Ok(())
    }
}

/// The sequence number a frame carries (its first eight bytes, LE).
pub open spec fn frame_seq(frame: Seq<u8>) -> u64 {
    spec_u64_from_le_bytes(frame.subrange(0, 8))
}

/// The associated data bound into a frame: sequence number and timestamp.
pub open spec fn frame_aad(seq: u64, timestamp: u64) -> Seq<u8> {
    spec_u64_to_le_bytes(seq) + spec_u64_to_le_bytes(timestamp)
}

/// The frame for a sequence number, timestamp, nonce and ciphertext.
pub open spec fn frame_bytes(seq: u64, timestamp: u64, nonce: Seq<u8>, ciphertext: Seq<u8>) -> Seq<
    u8,
> {
    frame_aad(seq, timestamp) + nonce + ciphertext
}

/// The frame that sealing `plaintext` under `key` gives.
pub open spec fn sealed_frame(
    key: Seq<u8>,
    seq: u64,
    timestamp: u64,
    nonce: Seq<u8>,
    plaintext: Seq<u8>,
) -> Seq<u8> {
    frame_bytes(
        seq,
        timestamp,
        nonce,
        chacha20poly1305_sealed(key, nonce, frame_aad(seq, timestamp), plaintext),
    )
}

pub open spec fn encryption_failed_message() -> Seq<char> {
    "encryption failed: "@ + "aead::Error"@
}

/// The error when the operating system's random source gave no nonce.
pub open spec fn nonce_unavailable_message() -> Seq<char> {
    "encryption failed: the system random source gave no nonce"@
}

pub open spec fn decryption_failed_message() -> Seq<char> {
    "decryption/authentication failed: "@ + "aead::Error"@
}

/// The state of one end of a channel: its key, the next sequence number it
/// sends, and the sequence numbers it has accepted.
pub struct SecureChannelState {
    pub key: Seq<u8>,
    pub next_seq: u64,
    pub seen: Set<u64>,
}

/// Layers three (AEAD) and four (replay protection) of a channel; both ends
/// build it from the same shared key.
pub struct SecureChannel {
    key: [u8; 32],
    next_seq: u64,
    guard: ReplayGuard,
}

impl View for SecureChannel {
    type V = SecureChannelState;

    closed spec fn view(&self) -> SecureChannelState {
        SecureChannelState { key: self.key@, next_seq: self.next_seq, seen: self.guard.seen@ }
    }
}

impl SecureChannel {
    pub closed spec fn wf(&self) -> bool {
        self.guard.wf()
    }

    pub fn new(shared_key: &[u8; 32]) -> (c: Self)
        ensures
            c.wf(),
            c@.key == shared_key@,
            c@.next_seq == 0,
            c@.seen == Set::<u64>::empty(),
    {
        SecureChannel { key: *shared_key, next_seq: 0, guard: ReplayGuard::new() }
    }

    /// Seals `plaintext` as the next frame, at the given time and with the
    /// given nonce.
    pub fn encrypt_with(&mut self, plaintext: &[u8], timestamp: u64, nonce: [u8; 12]) -> (r: Result<
        Vec<u8>,
        String,
    >)
        requires
            old(self).wf(),
            old(self)@.next_seq < u64::MAX,
            plaintext@.len() + 16 <= usize::MAX,
        ensures
            final(self).wf(),
            final(self)@ == (SecureChannelState {
                next_seq: (old(self)@.next_seq + 1) as u64,
                ..old(self)@
            }),
            r is Ok <==> plaintext@.len() / 64 < u32::MAX,
            r matches Ok(frame) ==> frame@ == sealed_frame(
                old(self)@.key,
                old(self)@.next_seq,
                timestamp,
                nonce@,
                plaintext@,
            ),
            r matches Err(e) ==> e@ == encryption_failed_message(),
    {
        let seq = self.next_seq;
        self.next_seq = self.next_seq + 1;
        let mut aad = u64_to_le_bytes(seq);
        let mut ts_bytes = u64_to_le_bytes(timestamp);
        aad.append(&mut ts_bytes);
        match aead_encrypt(&self.key, nonce.as_slice(), aad.as_slice(), plaintext) {
            Ok(ciphertext) => {
                let mut frame = aad;
                let mut nonce_bytes = slice_to_vec(nonce.as_slice());
                frame.append(&mut nonce_bytes);
                let mut ct = ciphertext;
                frame.append(&mut ct);
                Ok(frame)
            },
            Err(e) => {
                let mut msg = "encryption failed: ".to_owned();
                let text = aead_error_text(&e);
                msg.append(text.as_str());
                Err(msg)
            },
        }
    }

    /// Seals `plaintext` as the next frame, stamped with the current time
    /// and a random nonce.
    pub fn encrypt(&mut self, plaintext: &[u8]) -> (r: Result<Vec<u8>, String>)
        requires
            old(self).wf(),
            old(self)@.next_seq < u64::MAX,
            plaintext@.len() + 16 <= usize::MAX,
        ensures
            final(self).wf(),
            final(self)@ == (SecureChannelState {
                next_seq: (old(self)@.next_seq + 1) as u64,
                ..old(self)@
            }),
            r is Ok ==> plaintext@.len() / 64 < u32::MAX,
            plaintext@.len() / 64 >= u32::MAX ==> r is Err,
            r matches Ok(frame) ==> exists|timestamp: u64, nonce: Seq<u8>|
                nonce.len() == 12 && frame@ == sealed_frame(
                    old(self)@.key,
                    old(self)@.next_seq,
                    timestamp,
                    nonce,
                    plaintext@,
                ),
            r matches Err(e) ==> e@ == encryption_failed_message() || e@
                == nonce_unavailable_message(),
    {
        let timestamp = now_secs();
        match random_nonce() {
            Ok(nonce) => self.encrypt_with(plaintext, timestamp, nonce),
            Err(_) => {
                self.next_seq = self.next_seq + 1;
                Err("encryption failed: the system random source gave no nonce".to_owned())
            },
        }
    }

    /// Checks and opens a frame as received at time `now`: refused when it
    /// is shorter than 28 bytes, stale, a replay, or not authentic under
    /// this channel's key. The sequence number is remembered once it passes
    /// the freshness and replay checks, before authentication. A frame that
    /// this channel's key sealed opens to its plaintext; the same frame with
    /// its tag (last 16 bytes) altered is always refused.
    pub fn decrypt_at(&mut self, frame: &[u8], now: u64) -> (r: Result<Vec<u8>, String>)
        requires
            old(self).wf(),
        ensures
            final(self).wf(),
            final(self)@.key == old(self)@.key,
            final(self)@.next_seq == old(self)@.next_seq,
            frame@.len() < 28 ==> (r matches Err(e) && e@ == "frame too short"@) && final(self)@
                == old(self)@,
            frame@.len() >= 28 ==> ({
                let seq = spec_u64_from_le_bytes(frame@.subrange(0, 8));
                let timestamp = spec_u64_from_le_bytes(frame@.subrange(8, 16));
                let opened = chacha20poly1305_opened(
                    old(self)@.key,
                    frame@.subrange(16, 28),
                    frame@.subrange(0, 16),
                    frame@.subrange(28, frame@.len() as int),
                );
                &&& !is_fresh(timestamp, now) ==> (r matches Err(e) && e@ == stale_message(
                    now,
                    timestamp,
                )) && final(self)@ == old(self)@
                &&& is_fresh(timestamp, now) && old(self)@.seen.contains(seq) ==> (r matches Err(e)
                    && e@ == replay_message(seq)) && final(self)@ == old(self)@
                &&& is_fresh(timestamp, now) && !old(self)@.seen.contains(seq) ==> {
                    &&& final(self)@.seen == recorded(old(self)@.seen, seq)
                    &&& r is Ok <==> opened is Some
                    &&& r matches Ok(p) ==> opened == Some(p@)
                    &&& r matches Err(e) ==> e@ == decryption_failed_message()
                }
            }),
            forall|seq: u64, timestamp: u64, nonce: Seq<u8>, m: Seq<u8>|
                nonce.len() == 12 && m.len() / 64 < u32::MAX && frame@ == sealed_frame(
                    old(self)@.key,
                    seq,
                    timestamp,
                    nonce,
                    m,
                ) && is_fresh(timestamp, now) && !old(self)@.seen.contains(seq) ==> (r matches Ok(p)
                    && p@ == m),
            forall|seq: u64, timestamp: u64, nonce: Seq<u8>, m: Seq<u8>|
                nonce.len() == 12 && m.len() / 64 < u32::MAX && frame@.len() >= 44 && tag_altered(
                    #[trigger] sealed_frame(old(self)@.key, seq, timestamp, nonce, m),
                    frame@,
                ) ==> r is Err,
    {
        proof {
            lemma_auto_spec_u64_to_from_le_bytes();
        }
        if frame.len() < 28 {
            return Err("frame too short".to_owned());
        }
        let seq_bytes = slice_subrange(frame, 0, 8);
        let ts_bytes = slice_subrange(frame, 8, 16);
        let seq = u64_from_le_bytes(seq_bytes);
        let timestamp = u64_from_le_bytes(ts_bytes);
        let nonce = slice_subrange(frame, 16, 28);
        let ciphertext = slice_subrange(frame, 28, frame.len());
        let aad = slice_subrange(frame, 0, 16);
        proof {
            assert forall|s: u64, t: u64, nc: Seq<u8>, m: Seq<u8>|
                nc.len() == 12 && frame@ == #[trigger] sealed_frame(self@.key, s, t, nc, m)
                implies s == seq && t == timestamp && nc == nonce@ && aad@ == frame_aad(s, t)
                && ciphertext@ == chacha20poly1305_sealed(self@.key, nc, frame_aad(s, t), m) by {
                let sb = spec_u64_to_le_bytes(s);
                let tb = spec_u64_to_le_bytes(t);
                let ct = chacha20poly1305_sealed(self@.key, nc, frame_aad(s, t), m);
                assert(frame@ =~= sb + tb + nc + ct);
                assert(seq_bytes@ =~= sb);
                assert(ts_bytes@ =~= tb);
                assert(nonce@ =~= nc);
                assert(aad@ =~= sb + tb);
                assert(ciphertext@ =~= ct);
            }
            assert forall|s: u64, t: u64, nc: Seq<u8>, m: Seq<u8>|
                nc.len() == 12 && frame@.len() >= 44 && tag_altered(
                    #[trigger] sealed_frame(self@.key, s, t, nc, m),
                    frame@,
                ) implies nc == nonce@ && aad@ == frame_aad(s, t) && tag_altered(
                chacha20poly1305_sealed(self@.key, nc, frame_aad(s, t), m),
                ciphertext@,
            ) by {
                let sb = spec_u64_to_le_bytes(s);
                let tb = spec_u64_to_le_bytes(t);
                let ct = chacha20poly1305_sealed(self@.key, nc, frame_aad(s, t), m);
                let orig = sealed_frame(self@.key, s, t, nc, m);
                let n = frame@.len() as int;
                assert(orig =~= sb + tb + nc + ct);
                assert(frame@.subrange(0, n - 16) == orig.subrange(0, n - 16));
                assert(frame@.subrange(0, 28) =~= frame@.subrange(0, n - 16).subrange(0, 28));
                assert(orig.subrange(0, 28) =~= orig.subrange(0, n - 16).subrange(0, 28));
                assert(orig.subrange(0, 28) =~= sb + tb + nc);
                assert(nonce@ =~= frame@.subrange(16, 28));
                assert(nonce@ =~= nc) by {
                    assert(nonce@ =~= frame@.subrange(0, 28).subrange(16, 28));
                    assert(nc =~= orig.subrange(0, 28).subrange(16, 28));
                }
                assert(aad@ =~= sb + tb) by {
                    assert(aad@ =~= frame@.subrange(0, 28).subrange(0, 16));
                    assert(sb + tb =~= orig.subrange(0, 28).subrange(0, 16));
                }
                assert(ct =~= orig.subrange(28, n));
                assert(ciphertext@ =~= frame@.subrange(28, n));
                let cl = ciphertext@.len() as int;
                assert(ciphertext@.subrange(0, cl - 16) =~= frame@.subrange(0, n - 16).subrange(28, n - 16));
                assert(ct.subrange(0, cl - 16) =~= orig.subrange(0, n - 16).subrange(28, n - 16));
                assert(ciphertext@ != ct) by {
                    if ciphertext@ == ct {
                        assert(frame@ =~= frame@.subrange(0, 28) + ciphertext@);
                        assert(orig =~= orig.subrange(0, 28) + ct);
                    }
                }
            }
        }
        match self.guard.check_and_record(seq, timestamp, now) {
            Ok(()) => {},
            Err(e) => {
                return Err(e);
            },
        }
        match aead_decrypt(&self.key, nonce, aad, ciphertext) {
            Ok(p) => Ok(p),
            Err(e) => {
                let mut msg = "decryption/authentication failed: ".to_owned();
                let text = aead_error_text(&e);
                msg.append(text.as_str());
                Err(msg)
            },
        }
    }

    /// Checks and opens a frame as received now (see [`Self::decrypt_at`]).
    /// Whatever the clock says, an accepted frame's sequence number is
    /// recorded, and a frame whose sequence number is remembered is refused.
    pub fn decrypt(&mut self, frame: &[u8]) -> (r: Result<Vec<u8>, String>)
        requires
            old(self).wf(),
        ensures
            final(self).wf(),
            final(self)@.key == old(self)@.key,
            final(self)@.next_seq == old(self)@.next_seq,
            frame@.len() < 28 ==> (r matches Err(e) && e@ == "frame too short"@) && final(self)@
                == old(self)@,
            r is Ok ==> frame@.len() >= 28 && chacha20poly1305_opened(
                old(self)@.key,
                frame@.subrange(16, 28),
                frame@.subrange(0, 16),
                frame@.subrange(28, frame@.len() as int),
            ) == Some(r->Ok_0@),
            frame@.len() >= 28 && old(self)@.seen.contains(frame_seq(frame@)) ==> r is Err
                && final(self)@ == old(self)@,
            r is Ok ==> !old(self)@.seen.contains(frame_seq(frame@)) && final(self)@.seen == recorded(
                old(self)@.seen,
                frame_seq(frame@),
            ),
            final(self)@.seen == old(self)@.seen || (frame@.len() >= 28 && !old(self)@.seen.contains(
                frame_seq(frame@),
            ) && final(self)@.seen == recorded(old(self)@.seen, frame_seq(frame@))),
    {
        let now = now_secs();
        self.decrypt_at(frame, now)
    }
}

/// An accepted sequence number is rejected when it comes again: after the
/// receiver records it, it is among the remembered numbers, unless it is
/// the smallest of a full set of [`MAX_TRACKED_SEQ`] numbers and so
/// forgotten at once. The remembered numbers stay at most
/// [`MAX_TRACKED_SEQ`].
pub proof fn lemma_accepted_sequence_number_is_remembered(seen: Set<u64>, seq: u64)
    requires
        seen.finite(),
        seen.len() <= MAX_TRACKED_SEQ,
        !seen.contains(seq),
        seen.len() < MAX_TRACKED_SEQ || exists|y: u64| seen.contains(y) && y < seq,
    ensures
        recorded(seen, seq).contains(seq),
        recorded(seen, seq).finite(),
        recorded(seen, seq).len() <= MAX_TRACKED_SEQ,
{
    let t = seen.insert(seq);
    assert(t.len() == seen.len() + 1);
    if t.len() > MAX_TRACKED_SEQ {
        lemma_set_min_exists(t);
        let y = choose|y: u64| seen.contains(y) && y < seq;
        assert(t.contains(y));
        assert(set_min(t) <= y);
        assert(set_min(t) != seq);
    }
}

} // verus!
