//! The record format of the write-ahead transaction log: each record is
//! `[4-byte length (LE)][4-byte CRC-32 (LE)][payload]`. Reading a log
//! returns the complete records whose checksum matches, in order, and stops
//! at the first record that is cut short or fails its checksum, so a torn
//! final write is treated as never written. Opening, appending and syncing
//! the file is left to the caller.

use vstd::prelude::*;
use vstd::bytes::{
    lemma_auto_spec_u32_to_from_le_bytes, spec_u32_from_le_bytes, spec_u32_to_le_bytes,
    u32_from_le_bytes, u32_to_le_bytes,
};
use vstd::slice::{slice_subrange, slice_to_vec};

verus! {

/// One step of the bitwise (reflected, polynomial `0xEDB88320`) CRC-32
/// register update.
pub open spec fn crc_step(crc: u32) -> u32 {
    if crc & 1 == 1 {
        (crc >> 1) ^ 0xEDB8_8320u32
    } else {
        crc >> 1
    }
}

/// `k` register steps.
pub open spec fn crc_steps(crc: u32, k: nat) -> u32
    decreases k,
{
    if k == 0 {
        crc
    } else {
        crc_step(crc_steps(crc, (k - 1) as nat))
    }
}

/// The CRC-32 register after the bytes of `data`, starting from all ones.
pub open spec fn crc_register(data: Seq<u8>) -> u32
    decreases data.len(),
{
    if data.len() == 0 {
        0xFFFF_FFFFu32
    } else {
        crc_steps(crc_register(data.drop_last()) ^ (data.last() as u32), 8)
    }
}

/// CRC-32 (IEEE 802.3, as in zlib and PNG) of `data`.
pub open spec fn spec_crc32(data: Seq<u8>) -> u32 {
    !crc_register(data)
}

/// CRC-32 (IEEE 802.3 polynomial, the table-free bitwise form).
pub fn crc32(data: &[u8]) -> (c: u32)
    ensures
        c == spec_crc32(data@),
{
    let mut crc: u32 = 0xFFFF_FFFF;
    let n = data.len();
    let mut i: usize = 0;
    while i < n
        invariant
            n == data@.len(),
            i <= n,
            crc == crc_register(data@.subrange(0, i as int)),
        decreases n - i,
    {
        let byte = data[i];
        let ghost start = crc ^ (byte as u32);
        crc = crc ^ (byte as u32);
        let mut k: u32 = 0;
        while k < 8
            invariant
                k <= 8,
                crc == crc_steps(start, k as nat),
            decreases 8 - k,
        {
            let low = crc & 1;
            let mask = 0u32.wrapping_sub(low);
            proof {
                assert(low == 0 || low == 1) by (bit_vector)
                    requires
                        low == crc & 1,
                ;
                let c = crc;
                if low == 1 {
                    assert(mask == 0xFFFF_FFFFu32);
                    assert((c >> 1) ^ (0xEDB8_8320u32 & 0xFFFF_FFFFu32) == (c >> 1) ^ 0xEDB8_8320u32)
                        by (bit_vector);
                } else {
                    assert(mask == 0u32);
                    assert((c >> 1) ^ (0xEDB8_8320u32 & 0u32) == c >> 1) by (bit_vector);
                }
            }
            crc = (crc >> 1) ^ (0xEDB8_8320 & mask);
            k = k + 1;
        }
        proof {
            assert(data@.subrange(0, i + 1).drop_last() =~= data@.subrange(0, i as int));
            assert(data@.subrange(0, i + 1).last() == byte);
        }
        i = i + 1;
    }
    assert(data@.subrange(0, n as int) =~= data@);
    !crc
}

/// The bytes of one log record for `payload`: its length as a 32-bit
/// little-endian number, its CRC-32, then the payload itself.
pub open spec fn spec_record(payload: Seq<u8>) -> Seq<u8> {
    spec_u32_to_le_bytes(payload.len() as u32) + spec_u32_to_le_bytes(spec_crc32(payload))
        + payload
}

/// The bytes of one log record for `payload` (see [`spec_record`]).
pub fn encode_record(payload: &[u8]) -> (record: Vec<u8>)
    ensures
        record@ == spec_record(payload@),
{
    let len = payload.len() as u32;
    let crc = crc32(payload);
    let mut record = u32_to_le_bytes(len);
    let mut crc_bytes = u32_to_le_bytes(crc);
    record.append(&mut crc_bytes);
    let mut body = slice_to_vec(payload);
    record.append(&mut body);
    record
}

/// The records that can be read back from the bytes of a log: complete
/// records with matching checksums, in order, up to the first record that
/// is cut short or corrupt.
pub open spec fn spec_valid_records(buf: Seq<u8>) -> Seq<Seq<u8>>
    decreases buf.len(),
{
    if buf.len() < 8 {
        Seq::empty()
    } else {
        let len = spec_u32_from_le_bytes(buf.subrange(0, 4)) as int;
        let crc = spec_u32_from_le_bytes(buf.subrange(4, 8));
        if 8 + len > buf.len() {
            Seq::empty()
        } else if spec_crc32(buf.subrange(8, 8 + len)) != crc {
            Seq::empty()
        } else {
            seq![buf.subrange(8, 8 + len)] + spec_valid_records(buf.subrange(8 + len, buf.len() as int))
        }
    }
}

/// Reads the complete, checksum-verified records of a log's bytes, in
/// order, stopping at the first truncated or corrupt record.
pub fn decode_valid_records(buf: &[u8]) -> (records: Vec<Vec<u8>>)
    ensures
        records@.map_values(|r: Vec<u8>| r@) == spec_valid_records(buf@),
{
    let n = buf.len();
    let mut records: Vec<Vec<u8>> = Vec::new();
    let mut offset: usize = 0;
    assert(buf@.subrange(0, n as int) =~= buf@);
    assert(records@.map_values(|r: Vec<u8>| r@) + spec_valid_records(buf@) =~= spec_valid_records(buf@));
    let mut stop = false;
    while !stop && n - offset >= 8
        invariant
            n == buf@.len(),
            offset <= n,
            stop ==> spec_valid_records(buf@.subrange(offset as int, n as int)) =~= Seq::<
                Seq<u8>,
            >::empty(),
            spec_valid_records(buf@) == records@.map_values(|r: Vec<u8>| r@) + spec_valid_records(
                buf@.subrange(offset as int, n as int),
            ),
        decreases n - offset, (if stop { 0int } else { 1int }),
    {
        let ghost rest = buf@.subrange(offset as int, n as int);
        let len_bytes = slice_subrange(buf, offset, offset + 4);
        let crc_bytes = slice_subrange(buf, offset + 4, offset + 8);
        assert(len_bytes@ =~= rest.subrange(0, 4));
        assert(crc_bytes@ =~= rest.subrange(4, 8));
        let len = u32_from_le_bytes(len_bytes) as usize;
        let stored_crc = u32_from_le_bytes(crc_bytes);
        let payload_start = offset + 8;
        if len > n - payload_start {
            stop = true;
            continue;
        }
        let payload_end = payload_start + len;
        let payload = slice_subrange(buf, payload_start, payload_end);
        assert(payload@ =~= rest.subrange(8, 8 + len));
        if crc32(payload) != stored_crc {
            stop = true;
            continue;
        }
        let ghost before = records@.map_values(|r: Vec<u8>| r@);
        records.push(slice_to_vec(payload));
        proof {
            assert(rest.subrange(8 + len, rest.len() as int) =~= buf@.subrange(
                payload_end as int,
                n as int,
            ));
            assert(records@.map_values(|r: Vec<u8>| r@) =~= before.push(payload@));
            assert(before + (seq![payload@] + spec_valid_records(
                buf@.subrange(payload_end as int, n as int),
            )) =~= before.push(payload@) + spec_valid_records(
                buf@.subrange(payload_end as int, n as int),
            ));
        }
        offset = payload_end;
    }
    proof {
        let rest = buf@.subrange(offset as int, n as int);
        assert(spec_valid_records(rest) =~= Seq::<Seq<u8>>::empty());
        assert(records@.map_values(|r: Vec<u8>| r@) + Seq::<Seq<u8>>::empty()
            =~= records@.map_values(|r: Vec<u8>| r@));
    }
    records
}

/// The bytes of a log holding the records for `payloads`, in order.
pub open spec fn spec_log(payloads: Seq<Seq<u8>>) -> Seq<u8>
    decreases payloads.len(),
{
    if payloads.len() == 0 {
        Seq::empty()
    } else {
        spec_log(payloads.drop_last()) + spec_record(payloads.last())
    }
}

/// A record read back in front of other bytes: the record's payload comes
/// first, then whatever those bytes hold.
pub proof fn lemma_read_record_then_rest(payload: Seq<u8>, rest: Seq<u8>)
    requires
        payload.len() <= u32::MAX,
    ensures
        spec_valid_records(spec_record(payload) + rest) == seq![payload] + spec_valid_records(rest),
{
    lemma_auto_spec_u32_to_from_le_bytes();
    let buf = spec_record(payload) + rest;
    let lb = spec_u32_to_le_bytes(payload.len() as u32);
    let cb = spec_u32_to_le_bytes(spec_crc32(payload));
    assert(buf.subrange(0, 4) =~= lb);
    assert(buf.subrange(4, 8) =~= cb);
    assert(spec_u32_from_le_bytes(lb) == payload.len() as u32);
    let len = payload.len() as int;
    assert(buf.subrange(8, 8 + len) =~= payload);
    assert(buf.subrange(8 + len, buf.len() as int) =~= rest);
}

/// Reading back what was appended: the bytes of a log of records, followed
/// by any other bytes, read as the records' payloads in the order they were
/// appended, followed by what those other bytes hold.
pub proof fn lemma_read_back_appended_records(payloads: Seq<Seq<u8>>, tail: Seq<u8>)
    requires
        forall|k: int| 0 <= k < payloads.len() ==> (#[trigger] payloads[k]).len() <= u32::MAX,
    ensures
        spec_valid_records(spec_log(payloads) + tail) == payloads + spec_valid_records(tail),
    decreases payloads.len(),
{
    if payloads.len() == 0 {
        assert(spec_log(payloads) + tail =~= tail);
        assert(payloads + spec_valid_records(tail) =~= spec_valid_records(tail));
    } else {
        let init = payloads.drop_last();
        let last = payloads.last();
        assert(payloads[payloads.len() - 1] == last);
        let rest = spec_record(last) + tail;
        assert(spec_log(payloads) + tail =~= spec_log(init) + rest);
        assert forall|k: int| 0 <= k < init.len() implies (#[trigger] init[k]).len() <= u32::MAX by {
            assert(init[k] == payloads[k]);
        }
        lemma_read_back_appended_records(init, rest);
        lemma_read_record_then_rest(last, tail);
        assert(init + (seq![last] + spec_valid_records(tail)) =~= payloads + spec_valid_records(
            tail,
        ));
    }
}

/// A log whose records were all written completely reads back exactly the
/// appended payloads, in order; a torn last write (fewer than eight bytes,
/// or a length running past the end) adds nothing.
pub proof fn lemma_torn_tail_is_ignored(payloads: Seq<Seq<u8>>, tail: Seq<u8>)
    requires
        forall|k: int| 0 <= k < payloads.len() ==> (#[trigger] payloads[k]).len() <= u32::MAX,
        tail.len() < 8 || 8 + spec_u32_from_le_bytes(tail.subrange(0, 4)) > tail.len(),
    ensures
        spec_valid_records(spec_log(payloads) + tail) == payloads,
{
    lemma_read_back_appended_records(payloads, tail);
    assert(spec_valid_records(tail) =~= Seq::<Seq<u8>>::empty());
    assert(payloads + Seq::<Seq<u8>>::empty() =~= payloads);
}

proof fn lemma_crc_step_xor(a: u32, b: u32)
    ensures
        crc_step(a ^ b) == crc_step(a) ^ crc_step(b),
{
    assert(crc_step(a ^ b) == crc_step(a) ^ crc_step(b)) by (bit_vector);
}

proof fn lemma_crc_step_nonzero(a: u32)
    requires
        a != 0,
    ensures
        crc_step(a) != 0,
{
    assert(a != 0 ==> crc_step(a) != 0) by (bit_vector);
}

proof fn lemma_xor_facts(r: u32, x: u32, y: u32)
    ensures
        (r ^ x) ^ (r ^ y) == x ^ y,
        (x ^ y == 0) <==> (x == y),
        r ^ x ^ (r ^ x) == 0,
{
    assert((r ^ x) ^ (r ^ y) == x ^ y) by (bit_vector);
    assert((x ^ y == 0) <==> (x == y)) by (bit_vector);
    assert(r ^ x ^ (r ^ x) == 0) by (bit_vector);
}

/// The register steps are linear over GF(2).
proof fn lemma_crc_steps_xor(a: u32, b: u32, k: nat)
    ensures
        crc_steps(a ^ b, k) == crc_steps(a, k) ^ crc_steps(b, k),
    decreases k,
{
    if k > 0 {
        lemma_crc_steps_xor(a, b, (k - 1) as nat);
        lemma_crc_step_xor(crc_steps(a, (k - 1) as nat), crc_steps(b, (k - 1) as nat));
    }
}

/// The register steps never turn a non-zero register into zero.
proof fn lemma_crc_steps_nonzero(a: u32, k: nat)
    requires
        a != 0,
    ensures
        crc_steps(a, k) != 0,
    decreases k,
{
    if k > 0 {
        lemma_crc_steps_nonzero(a, (k - 1) as nat);
        lemma_crc_step_nonzero(crc_steps(a, (k - 1) as nat));
    }
}

/// Two byte strings of the same length that differ in exactly one byte
/// leave different CRC registers.
proof fn lemma_crc_register_one_byte_differs(p: Seq<u8>, q: Seq<u8>, i: int)
    requires
        p.len() == q.len(),
        0 <= i < p.len(),
        p[i] != q[i],
        forall|j: int| 0 <= j < p.len() && j != i ==> p[j] == q[j],
    ensures
        crc_register(p) != crc_register(q),
    decreases p.len(),
{
    let n = p.len() as int;
    let pp = p.drop_last();
    let qq = q.drop_last();
    let x = p.last() as u32;
    let y = q.last() as u32;
    let rp = crc_register(pp);
    let rq = crc_register(qq);
    lemma_crc_steps_xor(rp ^ x, rq ^ y, 8);
    if i == n - 1 {
        assert(pp =~= qq) by {
            assert forall|j: int| 0 <= j < pp.len() implies pp[j] == qq[j] by {
                assert(p[j] == q[j]);
            }
        }
        lemma_xor_facts(rp, x, y);
        assert(x != y);
        lemma_crc_steps_nonzero(x ^ y, 8);
    } else {
        assert forall|j: int| 0 <= j < pp.len() && j != i implies pp[j] == qq[j] by {
            assert(p[j] == q[j]);
        }
        lemma_crc_register_one_byte_differs(pp, qq, i);
        assert(p[n - 1] == q[n - 1]);
        assert(x == y);
        lemma_xor_facts(rp, x, x);
        lemma_xor_facts(x, rp, rq);
        assert((rp ^ x) ^ (rq ^ x) == rp ^ rq) by (bit_vector);
        assert(rp ^ rq != 0);
        lemma_crc_steps_nonzero(rp ^ rq, 8);
    }
    lemma_xor_facts(0, crc_steps(rp ^ x, 8), crc_steps(rq ^ y, 8));
}

/// Changing one byte of a payload changes its CRC-32.
pub proof fn lemma_crc32_detects_a_changed_byte(p: Seq<u8>, q: Seq<u8>, i: int)
    requires
        p.len() == q.len(),
        0 <= i < p.len(),
        p[i] != q[i],
        forall|j: int| 0 <= j < p.len() && j != i ==> p[j] == q[j],
    ensures
        spec_crc32(p) != spec_crc32(q),
{
    lemma_crc_register_one_byte_differs(p, q, i);
    let a = crc_register(p);
    let b = crc_register(q);
    assert(a != b ==> !a != !b) by (bit_vector);
}

/// A record whose payload had one byte changed after it was written (a bit
/// flip on disk) fails its checksum: reading the log returns the records
/// before it and nothing from it onwards.
pub proof fn lemma_corrupted_record_is_excluded(
    before: Seq<Seq<u8>>,
    payload: Seq<u8>,
    corrupted: Seq<u8>,
    i: int,
    rest: Seq<u8>,
)
    requires
        forall|k: int| 0 <= k < before.len() ==> (#[trigger] before[k]).len() <= u32::MAX,
        payload.len() <= u32::MAX,
        payload.len() == corrupted.len(),
        0 <= i < payload.len(),
        payload[i] != corrupted[i],
        forall|j: int| 0 <= j < payload.len() && j != i ==> payload[j] == corrupted[j],
    ensures
        spec_valid_records(
            spec_log(before) + (spec_u32_to_le_bytes(payload.len() as u32) + spec_u32_to_le_bytes(
                spec_crc32(payload),
            ) + corrupted) + rest,
        ) == before,
{
    lemma_auto_spec_u32_to_from_le_bytes();
    let tail = spec_u32_to_le_bytes(payload.len() as u32) + spec_u32_to_le_bytes(spec_crc32(payload))
        + corrupted + rest;
    assert(spec_log(before) + (spec_u32_to_le_bytes(payload.len() as u32) + spec_u32_to_le_bytes(
        spec_crc32(payload),
    ) + corrupted) + rest =~= spec_log(before) + tail);
    lemma_read_back_appended_records(before, tail);
    let len = payload.len() as int;
    assert(tail.subrange(0, 4) =~= spec_u32_to_le_bytes(payload.len() as u32));
    assert(tail.subrange(4, 8) =~= spec_u32_to_le_bytes(spec_crc32(payload)));
    assert(tail.subrange(8, 8 + len) =~= corrupted);
    lemma_crc32_detects_a_changed_byte(payload, corrupted, i);
    assert(spec_valid_records(tail) =~= Seq::<Seq<u8>>::empty());
    assert(before + Seq::<Seq<u8>>::empty() =~= before);
}

} // verus!
