//! Packets and the search for the parts of the transaction that one carries.

use vstd::prelude::*;
use vstd::slice::slice_subrange;
use crate::outside;
use crate::outside::{
    discard_flag, hash_size, message_header_length, message_version_prefix, pubkey_size,
    signature_size, simple_vote_tx_flag, vote_program_id,
};
use crate::wire;

verus! {

/// What is known of a packet besides its bytes.
#[derive(Debug, Clone, Copy, PartialEq, Eq)]
pub struct Meta {
    /// How many bytes of the buffer the packet fills.
    pub size: usize,
    /// The packet's flags, one bit each.
    pub flags: u8,
}

impl Meta {
    /// Bit 0 of the flags: the packet is to be ignored and its bytes are not to be read.
    pub open spec fn is_discarded(self) -> bool {
        self.flags & 0x01 == 0x01
    }

    /// Bit 3 of the flags: the packet carries a simple vote transaction.
    pub open spec fn is_simple_vote(self) -> bool {
        self.flags & 0x08 == 0x08
    }

    /// Whether the packet is to be ignored.
    pub fn discard(&self) -> (yes: bool)
        ensures
            yes == self.is_discarded(),
            yes <==> self.flags & 0x01 != 0,
    {
        let ghost flags = self.flags;
        assert(flags & 0x01 != 0 <==> flags & 0x01 == 0x01) by (bit_vector);
        self.flags & discard_flag() == discard_flag()
    }

    /// Whether the packet is known to carry a simple vote transaction.
    pub fn is_simple_vote_tx(&self) -> (yes: bool)
        ensures
            yes == self.is_simple_vote(),
            yes <==> self.flags & 0x08 != 0,
    {
        let ghost flags = self.flags;
        assert(flags & 0x08 != 0 <==> flags & 0x08 == 0x08) by (bit_vector);
        self.flags & simple_vote_tx_flag() == simple_vote_tx_flag()
    }
}

/// A network packet: a buffer of fixed size, of which the first `meta.size` bytes are filled.
#[derive(Debug, Clone, PartialEq, Eq)]
pub struct Packet {
    pub buffer: [u8; solana_packet::PACKET_DATA_SIZE],
    pub meta: Meta,
}

impl Packet {
    /// The bytes that may be read: the filled part of the buffer, unless the packet is discarded
    /// or claims to fill more than the buffer holds.
    pub open spec fn payload(self) -> Option<Seq<u8>> {
        if self.meta.is_discarded() || self.meta.size > self.buffer@.len() {
            None
        } else {
            Some(self.buffer@.take(self.meta.size as int))
        }
    }

    /// The packet with the simple vote flag set.
    pub open spec fn marked(self) -> Packet {
        Packet { meta: Meta { flags: self.meta.flags | 0x08, ..self.meta }, ..self }
    }

    pub fn new(buffer: [u8; solana_packet::PACKET_DATA_SIZE], meta: Meta) -> (packet: Packet)
        ensures
            packet.buffer == buffer,
            packet.meta == meta,
    {
        Packet { buffer, meta }
    }

    /// All bytes that may be read.
    pub fn data(&self) -> (bytes: Option<&[u8]>)
        ensures
            match bytes {
                Some(bytes) => self.payload() == Some(bytes@),
                None => self.payload() is None,
            },
            bytes is Some <==> self.meta.flags & 0x01 == 0 && self.meta.size <= 1232,
            bytes matches Some(bytes) ==> bytes@ == self.buffer@.subrange(
                0,
                self.meta.size as int,
            ),
    {
        if self.meta.discard() || self.meta.size > self.buffer.as_slice().len() {
            None
        } else {
            Some(slice_subrange(self.buffer.as_slice(), 0, self.meta.size))
        }
    }

    /// The byte at `index`, if it may be read.
    pub fn data_at(&self, index: usize) -> (byte: Option<u8>)
        ensures
            byte == match self.payload() {
                Some(bytes) if index < bytes.len() => Some(bytes[index as int]),
                _ => None,
            },
    {
        match self.data() {
            Some(bytes) => if index < bytes.len() { Some(bytes[index]) } else { None },
            None => None,
        }
    }

    /// The bytes from `start` up to `end`, if all of them may be read.
    pub fn data_range(&self, start: usize, end: usize) -> (part: Option<&[u8]>)
        ensures
            match self.payload() {
                Some(bytes) if start <= end <= bytes.len() => part matches Some(part) && part@
                    == bytes.subrange(start as int, end as int),
                _ => part is None,
            },
    {
        match self.data() {
            Some(bytes) => if start <= end && end <= bytes.len() {
                Some(slice_subrange(bytes, start, end))
            } else {
                None
            },
            None => None,
        }
    }

    /// The bytes from `start` on, if `start` is not past their end.
    pub fn data_from(&self, start: usize) -> (part: Option<&[u8]>)
        ensures
            match self.payload() {
                Some(bytes) if start <= bytes.len() => part matches Some(part) && part@
                    == bytes.skip(start as int),
                _ => part is None,
            },
    {
        match self.data() {
            Some(bytes) => if start <= bytes.len() {
                Some(slice_subrange(bytes, start, bytes.len()))
            } else {
                None
            },
            None => None,
        }
    }
}

/// Where the parts of a transaction stand. Starts count from the beginning of the buffer that
/// holds the packet, lengths count items.
#[derive(Debug, PartialEq, Eq, Structural)]
pub struct PacketOffsets {
    pub sig_len: u32,
    pub sig_start: u32,
    pub msg_start: u32,
    pub pubkey_start: u32,
    pub pubkey_len: u32,
}

impl PacketOffsets {
    pub fn new(
        sig_len: u32,
        sig_start: u32,
        msg_start: u32,
        pubkey_start: u32,
        pubkey_len: u32,
    ) -> (offsets: Self)
        ensures
            offsets == (PacketOffsets { sig_len, sig_start, msg_start, pubkey_start, pubkey_len }),
    {
        Self { sig_len, sig_start, msg_start, pubkey_start, pubkey_len }
    }
}

/// Where the parts of a transaction stand, counted from its first byte.
pub struct Layout {
    pub sig_len: int,
    pub sig_start: int,
    pub msg_start: int,
    pub pubkey_start: int,
    pub pubkey_len: int,
}

/// Why a packet was not accepted.
#[derive(Debug, PartialEq, Eq, Structural)]
pub enum PacketError {
    InvalidLen,
    InvalidPubkeyLen,
    InvalidShortVec,
    InvalidSignatureLen,
    MismatchSignatureLen,
    PayerNotWritable,
    InvalidProgramIdIndex,
    InvalidProgramLen,
    UnsupportedVersion,
}

/// What cannot be decoded is an invalid compact length.
impl std::convert::From<std::boxed::Box<bincode::ErrorKind>> for PacketError {
    fn from(_e: std::boxed::Box<bincode::ErrorKind>) -> (error: PacketError) {
        PacketError::InvalidShortVec
    }
}

impl vstd::std_specs::convert::FromSpecImpl<std::boxed::Box<bincode::ErrorKind>> for PacketError {
    open spec fn obeys_from_spec() -> bool {
        true
    }

    open spec fn from_spec(_e: std::boxed::Box<bincode::ErrorKind>) -> PacketError {
        PacketError::InvalidShortVec
    }
}

/// A number that does not fit is an invalid length.
impl std::convert::From<std::num::TryFromIntError> for PacketError {
    fn from(_e: std::num::TryFromIntError) -> (error: Self) {
        Self::InvalidLen
    }
}

impl vstd::std_specs::convert::FromSpecImpl<std::num::TryFromIntError> for PacketError {
    open spec fn obeys_from_spec() -> bool {
        true
    }

    open spec fn from_spec(_e: std::num::TryFromIntError) -> Self {
        PacketError::InvalidLen
    }
}

/// The parts of a message whose header stands at `header_start`, behind the signatures.
///
/// The header's first two bytes are the number of signatures that the message asks for and the
/// number of signers among them that are read-only. The first signer pays for the transaction,
/// so not all of them may be read-only. The account keys follow the header's third byte.
pub open spec fn message_layout(
    data: Seq<u8>,
    sig_len: int,
    sig_start: int,
    msg_start: int,
    header_start: int,
) -> Result<Layout, PacketError> {
    if header_start + 4 > data.len() {
        Err(PacketError::InvalidSignatureLen)
    } else if data[header_start] <= data[header_start + 1] {
        Err(PacketError::PayerNotWritable)
    } else if data[header_start] != sig_len {
        Err(PacketError::MismatchSignatureLen)
    } else {
        match wire::short_u16(data.skip(header_start + 3)) {
            None => Err(PacketError::InvalidShortVec),
            Some((pubkey_len, len_size)) => {
                let pubkey_start = header_start + 3 + len_size;
                if pubkey_start + 32 * pubkey_len > data.len() || pubkey_len < sig_len {
                    Err(PacketError::InvalidPubkeyLen)
                } else {
                    Ok(Layout { sig_len, sig_start, msg_start, pubkey_start, pubkey_len })
                }
            },
        }
    }
}

/// The parts of a transaction: a compact count of signatures, the signatures, and the message,
/// whose first byte is a version prefix if its top bit is set. Version 0 is the only one known.
pub open spec fn transaction_layout(data: Seq<u8>) -> Result<Layout, PacketError> {
    match wire::short_u16(data) {
        None => Err(PacketError::InvalidShortVec),
        Some((sig_len, sig_start)) => {
            let msg_start = sig_start + 64 * sig_len;
            if msg_start >= data.len() {
                Err(PacketError::InvalidSignatureLen)
            } else if data[msg_start] < 0x80 {
                message_layout(data, sig_len, sig_start, msg_start, msg_start)
            } else if data[msg_start] == 0x80 {
                message_layout(data, sig_len, sig_start, msg_start, msg_start + 1)
            } else {
                Err(PacketError::UnsupportedVersion)
            }
        },
    }
}

/// The parts of the transaction in `packet`. One signature and the count take 65 bytes.
pub open spec fn packet_layout(packet: Packet) -> Result<Layout, PacketError> {
    if packet.meta.size < 65 {
        Err(PacketError::InvalidLen)
    } else {
        match packet.payload() {
            None => Err(PacketError::InvalidShortVec),
            Some(data) => transaction_layout(data),
        }
    }
}

/// The layout moved `current_offset` bytes on, if every start then fits.
pub open spec fn placed(layout: Layout, current_offset: int) -> Result<PacketOffsets, PacketError> {
    if current_offset + layout.pubkey_start > u32::MAX {
        Err(PacketError::InvalidLen)
    } else {
        Ok(
            PacketOffsets {
                sig_len: layout.sig_len as u32,
                sig_start: (current_offset + layout.sig_start) as u32,
                msg_start: (current_offset + layout.msg_start) as u32,
                pubkey_start: (current_offset + layout.pubkey_start) as u32,
                pubkey_len: layout.pubkey_len as u32,
            },
        )
    }
}

/// The offsets of the transaction in `packet`, which starts at `current_offset`.
pub open spec fn packet_offsets(packet: Packet, current_offset: int) -> Result<
    PacketOffsets,
    PacketError,
> {
    match packet_layout(packet) {
        Err(error) => Err(error),
        Ok(layout) => placed(layout, current_offset),
    }
}

/// What the top bit of a message's first byte and the bits below it say of its value.
proof fn lemma_version_prefix(byte: u8)
    ensures
        byte & 0x80 != 0 <==> byte >= 0x80,
        byte >= 0x80 ==> (byte & !0x80u8 != 0 <==> byte != 0x80),
{
    assert(byte & 0x80 != 0 <==> byte >= 0x80) by (bit_vector);
    assert(byte >= 0x80 ==> (byte & !0x80u8 != 0 <==> byte != 0x80)) by (bit_vector);
}

/// `start` and `count` items of `item_size` bytes, unless that is too large to count.
fn items_end(start: usize, count: usize, item_size: usize) -> (end: Option<usize>)
    ensures
        end == if start + count * item_size <= usize::MAX {
            Some((start + count * item_size) as usize)
        } else {
            None
        },
{
    match count.checked_mul(item_size) {
        Some(bytes) => bytes.checked_add(start),
        None => {
            assert(count * item_size > usize::MAX);
            None
        },
    }
}

/// `start` as an offset that the device can take.
fn offset_u32(start: usize) -> (offset: Result<u32, PacketError>)
    ensures
        offset == if start <= u32::MAX {
            Ok::<u32, PacketError>(start as u32)
        } else {
            Err(PacketError::InvalidLen)
        },
{
    match u32::try_from(start) {
        Ok(offset) => Ok(offset),
        Err(error) => Err(PacketError::from(error)),
    }
}

/// The compact length at `start`, with the number of bytes that it takes.
fn short_len_at(packet: &Packet, start: usize) -> (decoded: Option<(usize, usize)>)
    ensures
        match packet.payload() {
            Some(data) if start <= data.len() => match wire::short_u16(data.skip(start as int)) {
                Some((value, len)) => decoded == Some((value as usize, len as usize)),
                None => decoded is None,
            },
            _ => decoded is None,
        },
{
    match packet.data_from(start) {
        Some(bytes) => match solana_short_vec::decode_shortu16_len(bytes) {
            Ok(decoded) => Some(decoded),
            Err(_) => None,
        },
        None => None,
    }
}

/// Finds the parts of the transaction in `packet`, which starts at `current_offset` of the buffer
/// that the offsets point into.
pub fn do_get_packet_offsets(packet: &Packet, current_offset: usize) -> (found: Result<
    PacketOffsets,
    PacketError,
>)
    ensures
        found == packet_offsets(*packet, current_offset as int),
{
    // at least one signature and the number of signatures
    if packet.meta.size < signature_size() + 1 {
        return Err(PacketError::InvalidLen);
    }

    let (sig_len_untrusted, sig_size) = match short_len_at(packet, 0) {
        Some(decoded) => decoded,
        None => return Err(PacketError::InvalidShortVec),
    };
    // The count is not to be trusted; verifying the signatures will settle that.
    let msg_start_offset: usize = match items_end(sig_size, sig_len_untrusted, signature_size()) {
        Some(end) => end,
        None => return Err(PacketError::InvalidLen),
    };

    if msg_start_offset >= packet.meta.size {
        return Err(PacketError::InvalidSignatureLen);
    }
    let message_prefix: u8 = match packet.data_at(msg_start_offset) {
        Some(byte) => byte,
        None => return Err(PacketError::InvalidSignatureLen),
    };
    proof {
        lemma_version_prefix(message_prefix);
        assert(packet.payload().unwrap().skip(0) == packet.payload().unwrap());
    }
    let msg_header_offset: usize = if message_prefix & message_version_prefix() != 0 {
        if message_prefix & !message_version_prefix() != 0 {
            return Err(PacketError::UnsupportedVersion);
        }
        msg_start_offset + 1
    } else {
        msg_start_offset
    };

    // the header and one byte of the number of account keys
    if packet.meta.size - msg_header_offset < message_header_length() + 1 {
        return Err(PacketError::InvalidSignatureLen);
    }
    let sig_len_maybe_trusted: u8 = match packet.data_at(msg_header_offset) {
        Some(byte) => byte,
        None => return Err(PacketError::InvalidSignatureLen),
    };
    let readonly_signers: u8 = match packet.data_at(msg_header_offset + 1) {
        Some(byte) => byte,
        None => return Err(PacketError::InvalidSignatureLen),
    };
    // the first account pays, and must be writable for that
    if sig_len_maybe_trusted <= readonly_signers {
        return Err(PacketError::PayerNotWritable);
    }
    if usize::from(sig_len_maybe_trusted) != sig_len_untrusted {
        return Err(PacketError::MismatchSignatureLen);
    }

    let message_account_keys_len_offset: usize = msg_header_offset + message_header_length();
    let (pubkey_len, pubkey_len_size) = match short_len_at(
        packet,
        message_account_keys_len_offset,
    ) {
        Some(decoded) => decoded,
        None => return Err(PacketError::InvalidShortVec),
    };
    let pubkey_start: usize = message_account_keys_len_offset + pubkey_len_size;
    match items_end(pubkey_start, pubkey_len, pubkey_size()) {
        Some(end) if end <= packet.meta.size => {},
        _ => return Err(PacketError::InvalidPubkeyLen),
    }
    if pubkey_len < sig_len_untrusted {
        return Err(PacketError::InvalidPubkeyLen);
    }

    let starts = (
        current_offset.checked_add(sig_size),
        current_offset.checked_add(msg_start_offset),
        current_offset.checked_add(pubkey_start),
    );
    match starts {
        (Some(sig_start), Some(msg_start), Some(pubkey_start)) => Ok(
            PacketOffsets::new(
                offset_u32(sig_len_untrusted)?,
                offset_u32(sig_start)?,
                offset_u32(msg_start)?,
                offset_u32(pubkey_start)?,
                offset_u32(pubkey_len)?,
            ),
        ),
        _ => Err(PacketError::InvalidLen),
    }
}

/// Whether a message's only instruction runs the vote program.
///
/// Behind the account keys stand a hash of 32 bytes and the compact number of instructions. An
/// instruction starts with the index of its program among the account keys.
pub open spec fn runs_vote_program(data: Seq<u8>, pubkey_start: int, pubkey_len: int) -> Result<
    bool,
    PacketError,
> {
    let count_start = pubkey_start + 32 * pubkey_len + 32;
    if count_start >= data.len() {
        Err(PacketError::InvalidLen)
    } else {
        match wire::short_u16(data.skip(count_start)) {
            None => Err(PacketError::InvalidLen),
            Some((count, count_size)) => {
                let instruction_start = count_start + count_size;
                if count != 1 {
                    Err(PacketError::InvalidProgramLen)
                } else if instruction_start >= data.len() {
                    Err(PacketError::InvalidLen)
                } else if data[instruction_start] >= pubkey_len {
                    Err(PacketError::InvalidProgramIdIndex)
                } else {
                    let program_start = pubkey_start + 32 * data[instruction_start];
                    Ok(data.subrange(program_start, program_start + 32) == outside::vote_program())
                }
            },
        }
    }
}

/// Whether the packet with these offsets carries a simple vote: a legacy message with one or two
/// signatures and one instruction, which runs the vote program.
pub open spec fn simple_vote(packet: Packet, offsets: PacketOffsets, current_offset: int) -> Result<
    bool,
    PacketError,
> {
    let msg_start = offsets.msg_start - current_offset;
    let pubkey_start = offsets.pubkey_start - current_offset;
    if offsets.sig_len > 2 {
        Err(PacketError::InvalidSignatureLen)
    } else {
        match packet.payload() {
            Some(data) if 0 <= msg_start < data.len() => {
                if data[msg_start] >= 0x80 {
                    Ok(false)
                } else if pubkey_start < 0 {
                    Err(PacketError::InvalidLen)
                } else {
                    runs_vote_program(data, pubkey_start, offsets.pubkey_len as int)
                }
            },
            _ => Err(PacketError::InvalidLen),
        }
    }
}

/// The packet as it is once its transaction has been looked for.
pub open spec fn screened(packet: Packet, current_offset: int) -> Packet {
    match packet_offsets(packet, current_offset) {
        Ok(offsets) if simple_vote(packet, offsets, current_offset) == Ok::<bool, PacketError>(
            true,
        ) => packet.marked(),
        _ => packet,
    }
}

/// The offsets that are used for the packet: all zero where there is nothing to verify.
pub open spec fn accepted_offsets(
    packet: Packet,
    current_offset: int,
    reject_non_vote: bool,
) -> PacketOffsets {
    match packet_offsets(packet, current_offset) {
        Ok(offsets) if !reject_non_vote || screened(packet, current_offset).meta.is_simple_vote() =>
            offsets,
        _ => PacketOffsets { sig_len: 0, sig_start: 0, msg_start: 0, pubkey_start: 0, pubkey_len: 0 },
    }
}

/// Whether two slices hold the same bytes.
fn same_bytes(left: &[u8], right: &[u8]) -> (same: bool)
    ensures
        same == (left@ == right@),
{
    if left.len() != right.len() {
        return false;
    }
    let mut i: usize = 0;
    while i < left.len()
        invariant
            i <= left.len(),
            left.len() == right.len(),
            forall|j: int| 0 <= j < i ==> left@[j] == right@[j],
        decreases left.len() - i,
    {
        if left[i] != right[i] {
            return false;
        }
        i += 1;
    }
    assert(left@ =~= right@);
    true
}

/// Marks the packet if it carries a simple vote. `packet_offsets` are the packet's offsets in the
/// buffer in which it starts at `current_offset`.
pub fn check_for_simple_vote_transaction(
    packet: &mut Packet,
    packet_offsets: &PacketOffsets,
    current_offset: usize,
) -> (checked: Result<(), PacketError>)
    ensures
        match simple_vote(*old(packet), *packet_offsets, current_offset as int) {
            Ok(is_vote) => {
                &&& checked is Ok
                &&& *final(packet) == if is_vote { old(packet).marked() } else { *old(packet) }
            },
            Err(error) => {
                &&& checked == Err::<(), PacketError>(error)
                &&& *final(packet) == *old(packet)
            },
        },
        final(packet).buffer == old(packet).buffer,
        final(packet).meta.size == old(packet).meta.size,
        final(packet).meta.flags == old(packet).meta.flags || final(packet).meta.flags == old(
            packet,
        ).meta.flags | 0x08,
{
    // a vote has one or two signatures; none was ruled out when the offsets were found
    if packet_offsets.sig_len > 2 {
        return Err(PacketError::InvalidSignatureLen);
    }

    // a simple vote has a legacy message
    let msg_start: usize = match (packet_offsets.msg_start as usize).checked_sub(current_offset) {
        Some(start) => start,
        None => return Err(PacketError::InvalidLen),
    };
    let message_prefix: u8 = match packet.data_at(msg_start) {
        Some(byte) => byte,
        None => return Err(PacketError::InvalidLen),
    };
    proof {
        lemma_version_prefix(message_prefix);
    }
    if message_prefix & message_version_prefix() != 0 {
        return Ok(());
    }

    let pubkey_len: usize = packet_offsets.pubkey_len as usize;
    let pubkey_start: usize = match (packet_offsets.pubkey_start as usize).checked_sub(
        current_offset,
    ) {
        Some(start) => start,
        None => return Err(PacketError::InvalidLen),
    };
    let instructions_len_offset: usize = match items_end(pubkey_start, pubkey_len, pubkey_size()) {
        Some(end) => match end.checked_add(hash_size()) {
            Some(offset) => offset,
            None => return Err(PacketError::InvalidLen),
        },
        None => return Err(PacketError::InvalidLen),
    };

    // at least one byte of the number of instructions
    if instructions_len_offset >= packet.meta.size {
        return Err(PacketError::InvalidLen);
    }
    let (instruction_len, instruction_len_size) = match short_len_at(
        packet,
        instructions_len_offset,
    ) {
        Some(decoded) => decoded,
        None => return Err(PacketError::InvalidLen),
    };
    if instruction_len != 1 {
        return Err(PacketError::InvalidProgramLen);
    }

    // at least one byte of the instruction, the index of its program
    let instruction_start: usize = instructions_len_offset + instruction_len_size;
    if instruction_start >= packet.meta.size {
        return Err(PacketError::InvalidLen);
    }
    let program_id_index: usize = match packet.data_at(instruction_start) {
        Some(byte) => usize::from(byte),
        None => return Err(PacketError::InvalidLen),
    };
    if program_id_index >= pubkey_len {
        return Err(PacketError::InvalidProgramIdIndex);
    }

    let program_id_start: usize = match items_end(pubkey_start, program_id_index, pubkey_size()) {
        Some(start) => start,
        None => return Err(PacketError::InvalidLen),
    };
    let program_id_end: usize = match program_id_start.checked_add(pubkey_size()) {
        Some(end) => end,
        None => return Err(PacketError::InvalidLen),
    };
    let is_vote: bool = match packet.data_range(program_id_start, program_id_end) {
        Some(program_id) => same_bytes(program_id, vote_program_id().as_slice()),
        None => return Err(PacketError::InvalidLen),
    };
    if is_vote {
        packet.meta.flags = packet.meta.flags | simple_vote_tx_flag();
    }
    Ok(())
}

/// Finds the parts of the transaction in `packet`, and marks the packet if it carries a simple
/// vote. The offsets are all zero, which makes the verification fail, where the packet holds no
/// transaction or `reject_non_vote` holds and the packet is not marked.
pub fn get_packet_offsets(
    packet: &mut Packet,
    current_offset: usize,
    reject_non_vote: bool,
) -> (offsets: PacketOffsets)
    ensures
        offsets == accepted_offsets(*old(packet), current_offset as int, reject_non_vote),
        *final(packet) == screened(*old(packet), current_offset as int),
        final(packet).buffer == old(packet).buffer,
        final(packet).meta.size == old(packet).meta.size,
        final(packet).meta.flags == old(packet).meta.flags || final(packet).meta.flags == old(
            packet,
        ).meta.flags | 0x08,
        reject_non_vote && final(packet).meta.flags & 0x08 == 0 ==> offsets.sig_len == 0,
{
    if let Ok(offsets) = do_get_packet_offsets(packet, current_offset) {
        let _ = check_for_simple_vote_transaction(packet, &offsets, current_offset);
        if !reject_non_vote || packet.meta.is_simple_vote_tx() {
            return offsets;
        }
    }
    PacketOffsets::new(0, 0, 0, 0, 0)
}

} // verus!
