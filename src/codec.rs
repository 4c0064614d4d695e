//! The section buffer format.
//!
//! Layout of a buffer:
//! - byte 0: the number of members the writer knew of;
//! - then one little-endian `u16` per member: the end of its payload,
//!   relative to the end of the header;
//! - then the payloads, back to back, and zero bytes up to the end.
//!
//! A member whose start equals its end is absent, and so is every member
//! whose index is at least the stored count: an all-zero buffer holds no
//! member at all.

use vstd::prelude::*;
use vstd::string::StringSliceAdditionalSpecFns;
use vstd::utf8::{decode_utf8, encode_utf8, encode_utf8_decode_utf8, encode_utf8_valid_utf8, valid_utf8};

verus! {

/// Default size of the section buffer in bytes.
pub const BUFFER_SIZE: usize = 512;

/// Number of members this version of the format defines.
pub const MEMBER_COUNT: usize = 9;

/// Size of the header of a buffer that declares `n` members.
pub open spec fn header_len(n: int) -> int {
    1 + 2 * n
}

/// Header size for a buffer that declares `num_members` members:
/// one count byte and two offset bytes per member.
pub fn header_size(num_members: usize) -> (r: usize)
    requires
        num_members <= (usize::MAX - 1) / 2,
    ensures
        r == header_len(num_members as int),
{
    1 + num_members * 2
}

/// The members a section buffer can hold, by their fixed index.
///
/// Indices never change between versions: members are only ever appended.
#[derive(Clone, Copy, Debug, PartialEq, Eq)]
pub enum Member {
    GitSha,
    GitDescribe,
    GitBranch,
    GitCommitTimestamp,
    GitCommitDate,
    GitCommitMsg,
    BuildTimestamp,
    BuildDate,
    Custom,
}

impl Member {
    /// Number of members in the version data.
    pub const COUNT: usize = 9;

    /// The stable index of a member.
    pub open spec fn spec_index(self) -> usize {
        match self {
            Member::GitSha => 0,
            Member::GitDescribe => 1,
            Member::GitBranch => 2,
            Member::GitCommitTimestamp => 3,
            Member::GitCommitDate => 4,
            Member::GitCommitMsg => 5,
            Member::BuildTimestamp => 6,
            Member::BuildDate => 7,
            Member::Custom => 8,
        }
    }

    /// The stable index of this member.
    #[verifier::when_used_as_spec(spec_index)]
    pub fn index(self) -> (r: usize)
        ensures
            r == self.spec_index(),
            r < MEMBER_COUNT,
    {
        match self {
            Member::GitSha => 0,
            Member::GitDescribe => 1,
            Member::GitBranch => 2,
            Member::GitCommitTimestamp => 3,
            Member::GitCommitDate => 4,
            Member::GitCommitMsg => 5,
            Member::BuildTimestamp => 6,
            Member::BuildDate => 7,
            Member::Custom => 8,
        }
    }
}


/// Why a buffer cannot be decoded at some index.
///
/// Each of these means the buffer was built wrongly or for another layout;
/// none of them arises from a member that is merely absent.
#[derive(Clone, Copy, Debug, PartialEq, Eq, Structural)]
pub enum SectionError {
    /// A header byte that the member needs lies at `offset`, past the end of
    /// the buffer.
    HeaderOutOfBounds { offset: usize },
    /// The member's end offset lies before its start offset.
    InvalidRange { start: usize, end: usize },
    /// The member's end offset lies past the buffer's length `len`.
    EndOutOfBounds { end: usize, len: usize },
    /// The member's bytes are not valid UTF-8.
    InvalidUtf8,
}

/// What decoding one member yields, with the member's bytes when present.
pub type Decoded = Result<Option<Seq<u8>>, SectionError>;

/// The little-endian `u16` stored at `pos` and `pos + 1`.
pub open spec fn u16_le_at(b: Seq<u8>, pos: int) -> int {
    b[pos] as int + 256 * (b[pos + 1] as int)
}

/// Position of the end offset of member `idx` in the header.
pub open spec fn end_offset_pos(idx: int) -> int {
    1 + 2 * idx
}

/// Absolute end of member `idx`, as the buffer's header states it.
pub open spec fn stored_end(b: Seq<u8>, idx: int) -> int {
    header_len(b[0] as int) + u16_le_at(b, end_offset_pos(idx))
}

/// Absolute start of member `idx`: the end of the member before it, or the
/// end of the header for the first member.
pub open spec fn stored_start(b: Seq<u8>, idx: int) -> int {
    if idx == 0 {
        header_len(b[0] as int)
    } else {
        stored_end(b, idx - 1)
    }
}

/// What decoding member `idx` of buffer `b` yields: absent, the member's
/// bytes, or the reason the buffer is corrupt.
pub open spec fn decode_spec(b: Seq<u8>, idx: int) -> Decoded {
    if b.len() == 0 {
        Err(SectionError::HeaderOutOfBounds { offset: 0 })
    } else if b[0] == 0 || idx >= b[0] {
        Ok(None)
    } else if end_offset_pos(idx) + 1 >= b.len() {
        Err(
            SectionError::HeaderOutOfBounds {
                offset: (if end_offset_pos(idx) >= b.len() {
                    end_offset_pos(idx)
                } else {
                    end_offset_pos(idx) + 1
                }) as usize,
            },
        )
    } else {
        let start = stored_start(b, idx);
        let end = stored_end(b, idx);
        if start == end {
            Ok(None)
        } else if end < start {
            Err(SectionError::InvalidRange { start: start as usize, end: end as usize })
        } else if end > b.len() {
            Err(SectionError::EndOutOfBounds { end: end as usize, len: b.len() as usize })
        } else if !valid_utf8(b.subrange(start, end)) {
            Err(SectionError::InvalidUtf8)
        } else {
            Ok(Some(b.subrange(start, end)))
        }
    }
}

/// A decoding result seen as bytes.
pub open spec fn decoded_bytes(r: Result<Option<&str>, SectionError>) -> Result<
    Option<Seq<u8>>,
    SectionError,
> {
    match r {
        Ok(Some(s)) => Ok(Some(s.spec_bytes())),
        Ok(None) => Ok(None),
        Err(e) => Err(e),
    }
}

/// An optional string seen as bytes.
pub open spec fn opt_str_bytes(r: Option<&str>) -> Option<Seq<u8>> {
    match r {
        Some(s) => Some(s.spec_bytes()),
        None => None,
    }
}

/// Relies on `core::hint::black_box`, an identity function that the
/// optimiser must treat as opaque: reads through its result are performed
/// even where the compiler believes it knows the memory's contents.
#[verifier::external_body]
fn opaque_bytes<'a>(b: &'a [u8]) -> (r: &'a [u8])
    ensures
        r@ == b@,
{
    core::hint::black_box(b)
}

/// Relies on `core::str::from_utf8`: it succeeds exactly on valid UTF-8, and
/// then returns a string slice over the same bytes.
#[verifier::external_body]
fn str_from_utf8<'a>(b: &'a [u8]) -> (r: Option<&'a str>)
    ensures
        r is Some <==> valid_utf8(b@),
        r matches Some(s) ==> s.spec_bytes() == b@,
{
    core::str::from_utf8(b).ok()
}

proof fn lemma_u16_from_bytes(lo: u16, hi: u16)
    requires
        lo < 256,
        hi < 256,
    ensures
        lo | (hi << 8) == lo + 256 * hi,
{
    assert(lo | (hi << 8) == lo + 256 * hi) by (bit_vector)
        requires
            lo < 256,
            hi < 256,
    ;
}

impl Member {
    /// Reads one byte of the buffer through an optimisation barrier: the
    /// buffer is rewritten after linking, so its compile-time contents must
    /// not be assumed.
    fn read_buffer_byte(buffer: &[u8], offset: usize) -> (r: u8)
        requires
            offset < buffer@.len(),
        ensures
            r == buffer@[offset as int],
    {
        let b = opaque_bytes(buffer);
        b[offset]
    }

    /// Reads the little-endian `u16` at `offset`.
    pub fn read_buffer_u16(buffer: &[u8], offset: usize) -> (r: u16)
        requires
            offset + 1 < buffer@.len(),
        ensures
            r == u16_le_at(buffer@, offset as int),
    {
        let len = buffer.len();
        let lo = Self::read_buffer_byte(buffer, offset) as u16;
        let hi = Self::read_buffer_byte(buffer, offset + 1) as u16;
        proof {
            lemma_u16_from_bytes(lo, hi);
        }
        lo | (hi << 8)
    }

    /// Decodes member `idx` of a buffer of any length.
    ///
    /// Returns `Ok(None)` when the member is absent (the buffer declares fewer
    /// members, or the member's range is empty), `Ok(Some(s))` with its text
    /// when present, and an error when the buffer is corrupt.
    pub fn decode_idx(idx: usize, buffer: &[u8]) -> (r: Result<Option<&str>, SectionError>)
        ensures
            decoded_bytes(r) == decode_spec(buffer@, idx as int),
    {
        let len = buffer.len();
        if len == 0 {
            return Err(SectionError::HeaderOutOfBounds { offset: 0 });
        }
        let actual_num_members = Self::read_buffer_byte(buffer, 0) as usize;
        if actual_num_members == 0 || idx >= actual_num_members {
            return Ok(None);
        }
        let actual_header_size = header_size(actual_num_members);
        let end_offset_pos = 1 + idx * 2;
        if end_offset_pos + 1 >= len {
            let offset = if end_offset_pos >= len {
                end_offset_pos
            } else {
                end_offset_pos + 1
            };
            return Err(SectionError::HeaderOutOfBounds { offset });
        }
        let end = actual_header_size + Self::read_buffer_u16(buffer, end_offset_pos) as usize;
        let start = if idx == 0 {
            actual_header_size
        } else {
            actual_header_size + Self::read_buffer_u16(buffer, end_offset_pos - 2) as usize
        };
        if start == end {
            return Ok(None);
        }
        if end < start {
            return Err(SectionError::InvalidRange { start, end });
        }
        if end > len {
            return Err(SectionError::EndOutOfBounds { end, len });
        }
        let bytes = opaque_bytes(&buffer[start..end]);
        match str_from_utf8(bytes) {
            Some(s) => Ok(Some(s)),
            None => Err(SectionError::InvalidUtf8),
        }
    }
}


/// The smallest and largest buffer sizes the format allows: the header of
/// every member must fit with room to spare, and offsets are `u16`.
pub open spec fn valid_buffer_size(size: int) -> bool {
    32 < size <= 65535
}

/// The UTF-8 bytes a member contributes to the payload.
pub open spec fn member_bytes(m: Option<String>) -> Seq<u8> {
    match m {
        Some(s) => encode_utf8(s@),
        None => Seq::empty(),
    }
}

/// The payloads of the first `n` members, back to back.
pub open spec fn payload(data: Seq<Option<String>>, n: nat) -> Seq<u8>
    decreases n,
{
    if n == 0 {
        Seq::empty()
    } else {
        payload(data, (n - 1) as nat) + member_bytes(data[n - 1])
    }
}

/// Bytes that the encoding of `data` needs: the header and every payload.
pub open spec fn encoded_len(data: Seq<Option<String>>) -> int {
    header_len(MEMBER_COUNT as int) + payload(data, MEMBER_COUNT as nat).len()
}

/// `b` is the encoding of `data` in a buffer of `size` bytes: the member
/// count, each member's cumulative end offset, the payloads, then zeros.
pub open spec fn is_encoding(b: Seq<u8>, data: Seq<Option<String>>, size: int) -> bool {
    let h = header_len(MEMBER_COUNT as int);
    let p = payload(data, MEMBER_COUNT as nat);
    &&& b.len() == size
    &&& b[0] == MEMBER_COUNT
    &&& forall|i: int|
        0 <= i < MEMBER_COUNT ==> #[trigger] u16_le_at(b, end_offset_pos(i)) == payload(
            data,
            (i + 1) as nat,
        ).len()
    &&& b.subrange(h, h + p.len()) == p
    &&& forall|j: int| h + p.len() <= j < size ==> #[trigger] b[j] == 0
}

/// The encoded data would not fit in the requested buffer.
#[derive(Clone, Copy, Debug, PartialEq, Eq, Structural)]
pub struct SectionTooLarge {
    /// Bytes needed up to and including the first member that did not fit.
    pub needed: usize,
    /// The buffer size that was requested.
    pub max: usize,
}

proof fn lemma_u16_to_bytes(e: u16)
    ensures
        (e & 0xff) < 256,
        (e >> 8) < 256,
        ((e & 0xff) as u8) as int + 256 * (((e >> 8) as u8) as int) == e,
{
    assert((e & 0xff) < 256) by (bit_vector);
    assert((e >> 8) < 256) by (bit_vector);
    assert(((e & 0xff) as u8) as int + 256 * (((e >> 8) as u8) as int) == e) by (bit_vector);
}

proof fn lemma_payload_monotone(data: Seq<Option<String>>, m: nat, n: nat)
    requires
        m <= n,
    ensures
        payload(data, m).len() <= payload(data, n).len(),
        payload(data, n).subrange(0, payload(data, m).len() as int) == payload(data, m),
    decreases n - m,
{
    if m < n {
        lemma_payload_monotone(data, m, (n - 1) as nat);
        let p = payload(data, (n - 1) as nat);
        assert(payload(data, n).subrange(0, p.len() as int) =~= p);
        assert(payload(data, n).subrange(0, payload(data, m).len() as int) =~= p.subrange(
            0,
            payload(data, m).len() as int,
        ));
    } else {
        assert(payload(data, n).subrange(0, payload(data, m).len() as int) =~= payload(data, m));
    }
}

/// Encodes member data into a buffer of `buffer_size` bytes.
///
/// The first byte holds the writer's member count; each member's end offset is
/// recorded whether or not it is present, so an absent member repeats the
/// previous offset. Fails, without truncating anything, when the header and
/// the payloads together exceed `buffer_size`.
pub fn build_section_buffer(member_data: &[Option<String>; MEMBER_COUNT], buffer_size: usize) -> (r:
    Result<Vec<u8>, SectionTooLarge>)
    requires
        valid_buffer_size(buffer_size as int),
    ensures
        r is Ok <==> encoded_len(member_data@) <= buffer_size,
        r matches Ok(b) ==> is_encoding(b@, member_data@, buffer_size as int),
        r matches Err(e) ==> e.max == buffer_size && buffer_size < e.needed <= encoded_len(
            member_data@,
        ),
{
    let ghost data = member_data@;
    let header_sz = header_size(MEMBER_COUNT);
    let mut ends: Vec<u16> = Vec::new();
    let mut relative_offset: usize = 0;
    let mut i: usize = 0;
    while i < MEMBER_COUNT
        invariant
            0 <= i <= MEMBER_COUNT,
            data == member_data@,
            valid_buffer_size(buffer_size as int),
            header_sz == header_len(MEMBER_COUNT as int),
            ends@.len() == i,
            relative_offset == payload(data, i as nat).len(),
            header_sz + relative_offset <= buffer_size,
            forall|k: int| 0 <= k < i ==> ends@[k] == payload(data, (k + 1) as nat).len(),
        decreases MEMBER_COUNT - i,
    {
        let n: usize = match &member_data[i] {
            Some(s) => {
                let t = s.as_str();
                assert(t.spec_bytes() == member_bytes(data[i as int]));
                t.as_bytes().len()
            },
            None => {
                assert(member_bytes(data[i as int]).len() == 0);
                0
            },
        };
        assert(n == member_bytes(data[i as int]).len());
        assert(payload(data, (i + 1) as nat) == payload(data, i as nat) + member_bytes(data[i as int]));
        if n > buffer_size - header_sz - relative_offset {
            proof {
                lemma_payload_monotone(data, (i + 1) as nat, MEMBER_COUNT as nat);
            }
            return Err(
                SectionTooLarge { needed: (header_sz + relative_offset).saturating_add(n), max: buffer_size },
            );
        }
        relative_offset = relative_offset + n;
        ends.push(relative_offset as u16);
        i = i + 1;
    }
    let ghost p = payload(data, MEMBER_COUNT as nat);
    // Header: the member count, then each end offset as little-endian u16.
    let mut buffer: Vec<u8> = Vec::new();
    buffer.push(MEMBER_COUNT as u8);
    let mut i: usize = 0;
    while i < MEMBER_COUNT
        invariant
            0 <= i <= MEMBER_COUNT,
            ends@.len() == MEMBER_COUNT,
            forall|k: int| 0 <= k < MEMBER_COUNT ==> ends@[k] == payload(data, (k + 1) as nat).len(),
            buffer@.len() == 1 + 2 * i,
            buffer@[0] == MEMBER_COUNT,
            forall|k: int| 0 <= k < i ==> #[trigger] u16_le_at(buffer@, end_offset_pos(k)) == ends@[k],
        decreases MEMBER_COUNT - i,
    {
        let e = ends[i];
        proof {
            lemma_u16_to_bytes(e);
        }
        let ghost prev = buffer@;
        buffer.push((e & 0xff) as u8);
        buffer.push((e >> 8) as u8);
        assert forall|k: int| 0 <= k < i + 1 implies #[trigger] u16_le_at(buffer@, end_offset_pos(k))
            == ends@[k] by {
            if k < i {
                assert(u16_le_at(buffer@, end_offset_pos(k)) == u16_le_at(prev, end_offset_pos(k)));
            }
        }
        i = i + 1;
    }
    let ghost header = buffer@;
    // Payloads, back to back.
    let mut i: usize = 0;
    while i < MEMBER_COUNT
        invariant
            0 <= i <= MEMBER_COUNT,
            data == member_data@,
            buffer@ == header + payload(data, i as nat),
            header_sz + payload(data, MEMBER_COUNT as nat).len() <= buffer_size,
            header.len() == header_sz,
            header[0] == MEMBER_COUNT,
            header_sz == header_len(MEMBER_COUNT as int),
        decreases MEMBER_COUNT - i,
    {
        proof {
            lemma_payload_monotone(data, (i + 1) as nat, MEMBER_COUNT as nat);
        }
        match &member_data[i] {
            Some(s) => {
                let bytes = s.as_str().as_bytes();
                let ghost before = buffer@;
                let mut j: usize = 0;
                while j < bytes.len()
                    invariant
                        0 <= j <= bytes@.len(),
                        buffer@ == before + bytes@.subrange(0, j as int),
                    decreases bytes@.len() - j,
                {
                    buffer.push(bytes[j]);
                    assert(buffer@ =~= before + bytes@.subrange(0, j + 1));
                    j = j + 1;
                }
                assert(bytes@.subrange(0, bytes@.len() as int) =~= bytes@);
            },
            None => {},
        }
        assert(payload(data, (i + 1) as nat) == payload(data, i as nat) + member_bytes(data[i as int]));
        assert(buffer@ =~= header + payload(data, (i + 1) as nat));
        i = i + 1;
    }
    // Zero fill up to the buffer size.
    let ghost filled = buffer@;
    while buffer.len() < buffer_size
        invariant
            filled.len() <= buffer@.len() <= buffer_size,
            filled == header + p,
            buffer@.subrange(0, filled.len() as int) == filled,
            forall|j: int| filled.len() <= j < buffer@.len() ==> #[trigger] buffer@[j] == 0,
        decreases buffer_size - buffer@.len(),
    {
        buffer.push(0);
        assert(buffer@.subrange(0, filled.len() as int) =~= filled);
    }
    proof {
        let h = header_sz as int;
        assert(buffer@.subrange(h, h + p.len()) =~= filled.subrange(h, h + p.len()));
        assert(filled.subrange(h, h + p.len()) =~= p);
        assert(buffer@[0] == filled[0]);
        assert(filled[0] == header[0]);
        assert forall|k: int| 0 <= k < MEMBER_COUNT implies #[trigger] u16_le_at(buffer@, end_offset_pos(k))
            == payload(data, (k + 1) as nat).len() by {
            assert(buffer@[end_offset_pos(k)] == filled[end_offset_pos(k)]);
            assert(buffer@[end_offset_pos(k) + 1] == filled[end_offset_pos(k) + 1]);
            assert(u16_le_at(header, end_offset_pos(k)) == ends@[k]);
        }
    }
    Ok(buffer)
}


/// What member `idx` of `data` should decode to: its bytes when it is a
/// non-empty string, absent otherwise.
pub open spec fn expected_member(data: Seq<Option<String>>, idx: int) -> Option<Seq<u8>> {
    if 0 <= idx < MEMBER_COUNT && member_bytes(data[idx]).len() > 0 {
        Some(member_bytes(data[idx]))
    } else {
        None
    }
}

/// Round trip: decoding any index of a buffer that encodes `data` gives back
/// exactly the member that was encoded there, as bytes and as characters,
/// and absent past the last member.
///
/// An empty string is stored as an empty range, which reads back as absent,
/// so the law is stated for data without empty strings.
pub proof fn lemma_round_trip(b: Seq<u8>, data: Seq<Option<String>>, size: int, idx: int)
    requires
        data.len() == MEMBER_COUNT,
        valid_buffer_size(size),
        is_encoding(b, data, size),
        encoded_len(data) <= size,
        forall|i: int| 0 <= i < MEMBER_COUNT && #[trigger] data[i] is Some ==> data[i]->Some_0@.len() > 0,
        0 <= idx,
    ensures
        decode_spec(b, idx) == Decoded::Ok(
            if idx < MEMBER_COUNT && data[idx] is Some {
                Some(member_bytes(data[idx]))
            } else {
                None
            },
        ),
        decode_spec(b, idx) matches Ok(Some(bytes)) ==> decode_utf8(bytes) == data[idx]->Some_0@,
{
    broadcast use encode_utf8_valid_utf8, encode_utf8_decode_utf8;

    if idx < MEMBER_COUNT {
        let p = payload(data, MEMBER_COUNT as nat);
        let h = header_len(MEMBER_COUNT as int);
        let pi = payload(data, idx as nat);
        let pe = payload(data, (idx + 1) as nat);
        lemma_payload_monotone(data, idx as nat, (idx + 1) as nat);
        lemma_payload_monotone(data, (idx + 1) as nat, MEMBER_COUNT as nat);
        assert(pe == pi + member_bytes(data[idx]));
        assert(stored_end(b, idx) == h + pe.len());
        if idx > 0 {
            assert(u16_le_at(b, end_offset_pos(idx - 1)) == payload(data, idx as nat).len());
        }
        assert(stored_start(b, idx) == h + pi.len());
        if data[idx] is Some {
            assert(member_bytes(data[idx]).len() > 0) by {
                let s = data[idx]->Some_0@;
                if encode_utf8(s).len() == 0 {
                    assert(decode_utf8(encode_utf8(s)) =~= Seq::<char>::empty());
                }
            }
            assert(b.subrange(h + pi.len(), h + pe.len()) =~= p.subrange(
                pi.len() as int,
                pe.len() as int,
            ));
            assert(p.subrange(pi.len() as int, pe.len() as int) =~= pe.subrange(
                pi.len() as int,
                pe.len() as int,
            ));
            assert(pe.subrange(pi.len() as int, pe.len() as int) =~= member_bytes(data[idx]));
        }
    }
}

/// A never-patched buffer: every index of an all-zero buffer of a valid size
/// decodes as absent.
pub proof fn lemma_zero_buffer_absent(b: Seq<u8>, idx: int)
    requires
        valid_buffer_size(b.len() as int),
        forall|j: int| 0 <= j < b.len() ==> #[trigger] b[j] == 0,
    ensures
        decode_spec(b, idx) == Decoded::Ok(None),
{
    assert(b[0] == 0);
}

/// Forward compatibility: a buffer that declares `k` members decodes every
/// index at or past `k` as absent, whatever the reader's own member count.
pub proof fn lemma_forward_compatible(b: Seq<u8>, idx: int)
    requires
        b.len() > 0,
        idx >= b[0],
    ensures
        decode_spec(b, idx) == Decoded::Ok(None),
{
}


/// Corruption is never mistaken for data: for a member the buffer declares,
/// an end before its start, a non-empty range reaching past the buffer, or
/// bytes that are not UTF-8 make decoding fail.
pub proof fn lemma_corruption_detected(b: Seq<u8>, idx: int)
    requires
        b.len() > 0,
        0 <= idx < b[0],
        end_offset_pos(idx) + 1 < b.len(),
    ensures
        stored_end(b, idx) < stored_start(b, idx) ==> decode_spec(b, idx) == Decoded::Err(
            SectionError::InvalidRange {
                start: stored_start(b, idx) as usize,
                end: stored_end(b, idx) as usize,
            },
        ),
        stored_start(b, idx) < stored_end(b, idx) && stored_end(b, idx) > b.len() ==> decode_spec(
            b,
            idx,
        ) == Decoded::Err(
            SectionError::EndOutOfBounds { end: stored_end(b, idx) as usize, len: b.len() as usize },
        ),
        stored_start(b, idx) < stored_end(b, idx) <= b.len() && !valid_utf8(
            b.subrange(stored_start(b, idx), stored_end(b, idx)),
        ) ==> decode_spec(b, idx) == Decoded::Err(SectionError::InvalidUtf8),
{
}

/// Member `idx` of `b` can be read without the buffer being corrupt.
pub open spec fn decodes_cleanly(b: Seq<u8>, idx: int) -> bool {
    decode_spec(b, idx) is Ok
}

impl Member {
    /// Reads this member from a section buffer.
    ///
    /// The buffer must not be corrupt at this member's index; use
    /// [`Member::decode_idx`] to find out.
    pub fn get_from_buffer<'a>(&self, buffer: &'a [u8; BUFFER_SIZE]) -> (r: Option<&'a str>)
        requires
            decodes_cleanly(buffer@, self.spec_index() as int),
        ensures
            Decoded::Ok(opt_str_bytes(r)) == decode_spec(buffer@, self.spec_index() as int),
    {
        let idx = self.index();
        Self::get_idx_from_buffer(idx, buffer)
    }

    /// Reads member `idx` from a section buffer; takes an index rather than a
    /// member so that every slot, known or not, can be read.
    pub fn get_idx_from_buffer(idx: usize, buffer: &[u8; BUFFER_SIZE]) -> (r: Option<&str>)
        requires
            decodes_cleanly(buffer@, idx as int),
        ensures
            Decoded::Ok(opt_str_bytes(r)) == decode_spec(buffer@, idx as int),
    {
        match Self::decode_idx(idx, buffer.as_slice()) {
            Ok(r) => r,
            Err(_) => None,
        }
    }
}

} // verus!
