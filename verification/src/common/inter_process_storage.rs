//! The layout of the shared-memory record that the daemon's processes share:
//! an eight-byte little-endian length, then that many bytes of encoded data.
use vstd::prelude::*;

verus! {

/// The size of the shared-memory segment.
pub const SHMEM_SIZE: usize = 65536;

/// The bytes at the start of the segment that hold the initialization flag.
pub const INIT_FLAG_SIZE: usize = 8;

/// Where the lock lies in the segment, after the initialization flag.
pub const MUTEX_OFFSET: usize = 8;

/// The size of the length header at the start of the data area.
pub const LENGTH_HEADER_SIZE: usize = 8;

/// The number that `bytes` encode, least significant byte first.
pub open spec fn le_value(bytes: Seq<u8>) -> nat
    decreases bytes.len(),
{
    if bytes.len() == 0 {
        0
    } else {
        bytes[0] as nat + 256 * le_value(bytes.drop_first())
    }
}

/// `256` to the power `n`.
pub open spec fn byte_scale(n: nat) -> nat
    decreases n,
{
    if n == 0 {
        1
    } else {
        256 * byte_scale((n - 1) as nat)
    }
}

proof fn lemma_byte_scale_eight()
    ensures
        byte_scale(8) == 0x1_0000_0000_0000_0000,
{
    reveal_with_fuel(byte_scale, 9);
}

proof fn lemma_byte_scale_grows(a: nat, b: nat)
    requires
        a <= b,
    ensures
        byte_scale(a) <= byte_scale(b),
    decreases b,
{
    if a < b {
        lemma_byte_scale_grows(a, (b - 1) as nat);
    }
}

/// The length that the header at the start of `buffer` gives.
pub open spec fn header_length(buffer: Seq<u8>) -> nat {
    le_value(buffer.take(LENGTH_HEADER_SIZE as int))
}

proof fn lemma_le_value_bound(bytes: Seq<u8>)
    ensures
        le_value(bytes) < byte_scale(bytes.len()),
    decreases bytes.len(),
{
    if bytes.len() > 0 {
        lemma_le_value_bound(bytes.drop_first());
        let p = byte_scale((bytes.len() - 1) as nat);
        let rest = le_value(bytes.drop_first());
        let b = bytes[0] as nat;
        assert(b + 256 * rest < 256 * p) by (nonlinear_arith)
            requires
                rest < p,
                b < 256,
        ;
    }
}

proof fn lemma_le_value_push_front(b: u8, bytes: Seq<u8>)
    ensures
        le_value(seq![b] + bytes) == b as nat + 256 * le_value(bytes),
{
    assert((seq![b] + bytes).drop_first() =~= bytes);
}

/// The length in the header at the start of `buffer`.
pub fn read_length(buffer: &[u8]) -> (r: u64)
    requires
        buffer@.len() >= LENGTH_HEADER_SIZE,
    ensures
        r as nat == header_length(buffer@),
{
    let ghost header = buffer@.take(8);
    let mut acc: u64 = 0;
    let mut i: usize = 8;
    proof {
        assert(header.subrange(8, 8) =~= Seq::<u8>::empty());
    }
    while i > 0
        invariant
            0 <= i <= 8,
            buffer@.len() >= 8,
            header == buffer@.take(8),
            acc as nat == le_value(header.subrange(i as int, 8)),
            acc < byte_scale((8 - i) as nat),
        decreases i,
    {
        i = i - 1;
        let b = buffer[i];
        proof {
            let p = byte_scale((7 - i) as nat);
            assert(byte_scale((8 - i) as nat) == 256 * p);
            assert(header.subrange(i as int, 8) =~= seq![b] + header.subrange(i + 1, 8));
            lemma_le_value_push_front(b, header.subrange(i + 1, 8));
            lemma_byte_scale_grows((8 - i) as nat, 8);
            lemma_byte_scale_eight();
            assert(b + 256 * (acc as int) < 256 * p) by (nonlinear_arith)
                requires
                    acc < p,
                    b < 256,
            ;
        }
        acc = acc * 256 + b as u64;
    }
    proof {
        assert(header.subrange(0, 8) =~= header);
    }
    acc
}

/// The header that records `length`.
pub fn encode_length(length: u64) -> (r: Vec<u8>)
    ensures
        r@.len() == LENGTH_HEADER_SIZE,
        le_value(r@) == length,
{
    let mut digits: Vec<u8> = Vec::new();
    let mut rest: u64 = length;
    let mut i: usize = 0;
    let ghost mut scale: nat = 1;
    while i < 8
        invariant
            i <= 8,
            digits@.len() == i,
            scale == byte_scale(i as nat),
            length == le_value(digits@) + scale * rest,
            rest * scale < 0x1_0000_0000_0000_0000,
        decreases 8 - i,
    {
        let b = (rest % 256) as u8;
        let ghost before = digits@;
        let ghost old_rest = rest;
        digits.push(b);
        rest = rest / 256;
        proof {
                assert(le_value(digits@) == le_value(before) + scale * (b as nat)) by {
                lemma_le_value_append(before, b);
            }
            assert(old_rest == 256 * rest + b);
            assert(scale * old_rest == scale * (b as nat) + (scale * 256) * rest) by (nonlinear_arith)
                requires
                    old_rest == 256 * rest + b,
            ;
            assert(rest * (scale * 256) == old_rest * scale - b * scale) by (nonlinear_arith)
                requires
                    old_rest == 256 * rest + b,
            ;
            assert(b * scale >= 0) by (nonlinear_arith)
                requires
                    scale >= 0,
            ;
            scale = scale * 256;
        }
        i = i + 1;
    }
    proof {
        lemma_byte_scale_eight();
        assert(rest == 0) by (nonlinear_arith)
            requires
                rest * scale < 0x1_0000_0000_0000_0000,
                scale == 0x1_0000_0000_0000_0000,
        ;
    }
    digits
}

proof fn lemma_le_value_append(bytes: Seq<u8>, b: u8)
    ensures
        le_value(bytes.push(b)) == le_value(bytes) + byte_scale(bytes.len()) * (b as nat),
    decreases bytes.len(),
{
    if bytes.len() == 0 {
        assert(bytes.push(b).drop_first() =~= Seq::<u8>::empty());
        assert(bytes.push(b)[0] == b);
        assert(le_value(Seq::<u8>::empty()) == 0);
    } else {
        assert(bytes.push(b).drop_first() =~= bytes.drop_first().push(b));
        assert(bytes.push(b)[0] == bytes[0]);
        lemma_le_value_append(bytes.drop_first(), b);
        let p = byte_scale((bytes.len() - 1) as nat);
        assert(byte_scale(bytes.len()) == 256 * p);
        assert(256 * (le_value(bytes.drop_first()) + p * (b as nat)) == 256 * le_value(bytes.drop_first()) + (256 * p) * (b as nat)) by (nonlinear_arith);
    }
}

/// The record bytes that an update of the data area `area` starts from: none
/// when the header gives a length of zero or one larger than the area holds
/// after it, else the bytes that follow the header.
pub open spec fn update_start(area: Seq<u8>) -> Option<Seq<u8>> {
    let n = header_length(area);
    if n == 0 || n > area.len() - LENGTH_HEADER_SIZE {
        None
    } else {
        Some(area.subrange(LENGTH_HEADER_SIZE as int, LENGTH_HEADER_SIZE + n))
    }
}

/// Why the shared record could not be used.
#[derive(Clone, Copy, Debug, PartialEq, Eq, Structural)]
pub enum FrameError {
    /// The header gives more bytes than the data area holds after it.
    InconsistentLength { length: u64, size: usize },
    /// The encoded record does not fit in the data area after the header.
    TooLarge { length: usize, capacity: usize },
}

/// The bytes of the stored record, as a read finds them in the data area
/// `buffer`: none when the header gives a length of zero (the record then
/// has its default value), else the bytes that follow the header.
pub fn stored_payload(buffer: &[u8]) -> (r: Result<Option<Vec<u8>>, FrameError>)
    requires
        buffer@.len() >= LENGTH_HEADER_SIZE,
    ensures
        header_length(buffer@) == 0 ==> r == Ok::<Option<Vec<u8>>, FrameError>(None),
        header_length(buffer@) > 0 && header_length(buffer@) > buffer@.len() - LENGTH_HEADER_SIZE ==> r
            == Err::<Option<Vec<u8>>, FrameError>(
            FrameError::InconsistentLength {
                length: header_length(buffer@) as u64,
                size: buffer@.len() as usize,
            },
        ),
        header_length(buffer@) > 0 && header_length(buffer@) <= buffer@.len() - LENGTH_HEADER_SIZE ==> (
        r matches Ok(Some(p)) && p@ == buffer@.subrange(
            LENGTH_HEADER_SIZE as int,
            LENGTH_HEADER_SIZE + header_length(buffer@),
        )),
        header_length(buffer@) <= buffer@.len() - LENGTH_HEADER_SIZE ==> match r {
            Ok(Some(p)) => update_start(buffer@) == Some(p@),
            Ok(None) => update_start(buffer@) is None,
            Err(_) => false,
        },
{
    let length = read_length(buffer);
    if length == 0 {
        return Ok(None);
    }
    let size = buffer.len();
    if length > (size - LENGTH_HEADER_SIZE) as u64 {
        return Err(FrameError::InconsistentLength { length, size });
    }
    let end = LENGTH_HEADER_SIZE + length as usize;
    Ok(Some(copy_range(buffer, LENGTH_HEADER_SIZE, end)))
}

/// The bytes of the stored record that an update starts from: none when the
/// header gives a length of zero, or a length larger than the data area holds
/// after it (the record is then taken as corrupted, and the update starts
/// afresh from the default value); else the bytes that follow the header.
pub fn payload_for_update(buffer: &[u8]) -> (r: Option<Vec<u8>>)
    requires
        buffer@.len() >= LENGTH_HEADER_SIZE,
    ensures
        r matches Some(p) ==> update_start(buffer@) == Some(p@),
        r is None ==> update_start(buffer@) is None,
{
    let length = read_length(buffer);
    if length == 0 {
        return None;
    }
    let size = buffer.len();
    if length > (size - LENGTH_HEADER_SIZE) as u64 {
        return None;
    }
    let end = LENGTH_HEADER_SIZE + length as usize;
    Some(copy_range(buffer, LENGTH_HEADER_SIZE, end))
}

/// What an update writes at the start of a data area of `size` bytes: the
/// header with the encoded record's length, then the record; `TooLarge`
/// when the record does not fit after the header.
pub fn frame(payload: &Vec<u8>, size: usize) -> (r: Result<Vec<u8>, FrameError>)
    requires
        size >= LENGTH_HEADER_SIZE,
    ensures
        payload@.len() > size - LENGTH_HEADER_SIZE ==> r == Err::<Vec<u8>, FrameError>(
            FrameError::TooLarge { length: payload@.len() as usize, capacity: (size - LENGTH_HEADER_SIZE) as usize },
        ),
        payload@.len() <= size - LENGTH_HEADER_SIZE ==> (r matches Ok(bytes) && bytes@.len()
            == LENGTH_HEADER_SIZE + payload@.len() && header_length(bytes@) == payload@.len()
            && bytes@.subrange(LENGTH_HEADER_SIZE as int, bytes@.len() as int) == payload@),
{
    let capacity = size - LENGTH_HEADER_SIZE;
    if payload.len() > capacity {
        return Err(FrameError::TooLarge { length: payload.len(), capacity });
    }
    let mut bytes = encode_length(payload.len() as u64);
    let ghost header = bytes@;
    let mut i: usize = 0;
    while i < payload.len()
        invariant
            i <= payload@.len(),
            bytes@ == header + payload@.take(i as int),
        decreases payload@.len() - i,
    {
        bytes.push(payload[i]);
        proof {
            assert(payload@.take(i + 1int) =~= payload@.take(i as int).push(payload@[i as int]));
        }
        i = i + 1;
    }
    proof {
        assert(payload@.take(payload@.len() as int) =~= payload@);
        assert(bytes@.take(8) =~= header);
        assert(bytes@.subrange(8, bytes@.len() as int) =~= payload@);
    }
    Ok(bytes)
}

/// A copy of `buffer[from..to]`.
fn copy_range(buffer: &[u8], from: usize, to: usize) -> (r: Vec<u8>)
    requires
        from <= to <= buffer@.len(),
    ensures
        r@ == buffer@.subrange(from as int, to as int),
{
    let mut r: Vec<u8> = Vec::new();
    let mut i: usize = from;
    while i < to
        invariant
            from <= i <= to,
            to <= buffer@.len(),
            r@ == buffer@.subrange(from as int, i as int),
        decreases to - i,
    {
        r.push(buffer[i]);
        proof {
            assert(buffer@.subrange(from as int, i + 1int) =~= buffer@.subrange(from as int, i as int).push(buffer@[i as int]));
        }
        i = i + 1;
    }
    r
}

/// What a write records, a read gives back: once the frame of a record is
/// copied to the start of the data area, the area's header gives the
/// record's length, the bytes after it are the record, and the length is
/// within the area (a record of no bytes reads as the default value).
pub proof fn law_read_gives_back_write(payload: Seq<u8>, bytes: Seq<u8>, area: Seq<u8>)
    requires
        bytes.len() == LENGTH_HEADER_SIZE + payload.len(),
        header_length(bytes) == payload.len(),
        bytes.subrange(LENGTH_HEADER_SIZE as int, bytes.len() as int) == payload,
        bytes.len() <= area.len(),
        area.take(bytes.len() as int) == bytes,
    ensures
        header_length(area) == payload.len(),
        header_length(area) <= area.len() - LENGTH_HEADER_SIZE,
        area.subrange(LENGTH_HEADER_SIZE as int, LENGTH_HEADER_SIZE + header_length(area)) == payload,
        holds_record(area, payload),
{
    assert(area.take(LENGTH_HEADER_SIZE as int) =~= bytes.take(LENGTH_HEADER_SIZE as int));
    assert(area.subrange(LENGTH_HEADER_SIZE as int, bytes.len() as int) =~= bytes.subrange(
        LENGTH_HEADER_SIZE as int,
        bytes.len() as int,
    ));
}

/// The data area `area` holds `payload`: its header gives the payload's
/// length, and the payload follows the header.
pub open spec fn holds_record(area: Seq<u8>, payload: Seq<u8>) -> bool {
    &&& area.len() >= LENGTH_HEADER_SIZE + payload.len()
    &&& header_length(area) == payload.len()
    &&& area.subrange(LENGTH_HEADER_SIZE as int, LENGTH_HEADER_SIZE + payload.len()) == payload
}

/// What the next read or update finds once `payload` is stored: the payload,
/// or none (the default value) when it has no bytes.
pub open spec fn found_after_storing(payload: Seq<u8>) -> Option<Seq<u8>> {
    if payload.len() == 0 {
        None
    } else {
        Some(payload)
    }
}

/// The record that a run of updates leaves, from a fresh data area: each
/// update maps what it starts from (none standing for the default value) to
/// the bytes it stores.
pub open spec fn record_after(updates: Seq<spec_fn(Option<Seq<u8>>) -> Seq<u8>>) -> Option<Seq<u8>>
    decreases updates.len(),
{
    if updates.len() == 0 {
        None
    } else {
        found_after_storing(updates.last()(record_after(updates.drop_last())))
    }
}

/// An area that holds a record is read back consistently: its header is
/// within the area, and an update or a read starts from that record.
pub proof fn law_stored_record_is_found(area: Seq<u8>, payload: Seq<u8>)
    requires
        holds_record(area, payload),
    ensures
        header_length(area) <= area.len() - LENGTH_HEADER_SIZE,
        update_start(area) == found_after_storing(payload),
{
}

/// Updates compose: starting from a fresh data area (header zero), when each
/// update stores what it makes of the record the previous ones left, every
/// update starts from the record of all updates before it, and a read after
/// the last one finds the record of them all, with its header within the
/// area. A fresh area gives the default value.
pub proof fn law_updates_compose(
    areas: Seq<Seq<u8>>,
    updates: Seq<spec_fn(Option<Seq<u8>>) -> Seq<u8>>,
)
    requires
        areas.len() == updates.len() + 1,
        areas[0].len() >= LENGTH_HEADER_SIZE,
        header_length(areas[0]) == 0,
        forall|k: int|
            0 <= k < updates.len() ==> holds_record(
                #[trigger] areas[k + 1],
                updates[k](update_start(areas[k])),
            ),
    ensures
        forall|k: int| 0 <= k < areas.len() ==> update_start(#[trigger] areas[k]) == record_after(updates.take(k)),
        header_length(areas.last()) <= areas.last().len() - LENGTH_HEADER_SIZE,
        update_start(areas.last()) == record_after(updates),
    decreases updates.len(),
{
    if updates.len() == 0 {
        assert(updates.take(0) =~= updates);
    } else {
        let n = updates.len() - 1;
        let init_areas = areas.drop_last();
        let init_updates = updates.drop_last();
        assert forall|k: int| 0 <= k < init_updates.len() implies holds_record(
            #[trigger] init_areas[k + 1],
            init_updates[k](update_start(init_areas[k])),
        ) by {
            assert(holds_record(areas[k + 1], updates[k](update_start(areas[k]))));
        }
        law_updates_compose(init_areas, init_updates);
        assert(init_updates.take(n) =~= init_updates);
        assert(update_start(areas[n]) == record_after(init_updates));
        assert(holds_record(areas[n + 1], updates[n](update_start(areas[n]))));
        law_stored_record_is_found(areas[n + 1], updates[n](update_start(areas[n])));
        assert forall|k: int| 0 <= k < areas.len() implies update_start(#[trigger] areas[k]) == record_after(
            updates.take(k),
        ) by {
            if k < areas.len() - 1 {
                assert(init_areas[k] == areas[k]);
                assert(init_updates.take(k) =~= updates.take(k));
            } else {
                assert(updates.take(k) =~= updates);
            }
        }
    }
}

} // verus!
