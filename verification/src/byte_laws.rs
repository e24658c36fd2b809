//! What the library does, said of buffers, sizes and flag bits alone.
//!
//! A packet's buffer holds 1232 bytes, so a transaction that fits has fewer than 20 signatures
//! and fewer than 39 account keys, and both counts take one byte. With `k` signatures and `m`
//! account keys the bytes of a packet are
//!   - `k`, and from byte 1 on the signatures;
//!   - from byte `1 + 64 * k` on the message: the prefix 0x80 if it is versioned, then `k`, the
//!     number of read-only signers, one more byte, `m`, and the account keys.

use vstd::prelude::*;
use vstd::std_specs::convert::FromSpec;
use crate::batch;
use crate::batch::{Batch, Contribution};
use crate::laws;
use crate::outside;
use crate::packet;
use crate::packet::{Packet, PacketError, PacketOffsets};
use crate::wire;
use crate::wire::Transaction;

verus! {

/// The bytes of a packet can be read exactly where bit 0 of its flags is clear and it is no longer
/// than the buffer, and then they are the first `size` bytes of the buffer.
pub proof fn law_readable_bytes(packet: Packet)
    ensures
        packet.meta.flags & 0x01 == 0 && packet.meta.size <= 1232 ==> packet.payload() == Some(
            packet.buffer@.subrange(0, packet.meta.size as int),
        ),
        packet.meta.flags & 0x01 != 0 || packet.meta.size > 1232 ==> packet.payload() is None,
{
    let flags = packet.meta.flags;
    assert(flags & 0x01 == 0 || flags & 0x01 == 1) by (bit_vector);
    assert(packet.buffer@.take(packet.meta.size as int) == packet.buffer@.subrange(
        0,
        packet.meta.size as int,
    ));
}

/// A packet is discarded exactly where bit 0 of its flags is set, and a simple vote exactly where
/// bit 3 is; no other bit has a bearing on either.
pub proof fn law_flag_bits(packet: Packet)
    ensures
        packet.meta.is_discarded() <==> packet.meta.flags % 2 == 1,
        packet.meta.is_discarded() <==> packet.meta.flags & 0x01 != 0,
        packet.meta.is_simple_vote() <==> packet.meta.flags / 8 % 2 == 1,
        packet.meta.is_simple_vote() <==> packet.meta.flags & 0x08 != 0,
{
    let flags = packet.meta.flags;
    assert((flags & 0x01 == 0x01) == (flags % 2 == 1)) by (bit_vector);
    assert((flags & 0x01 == 0x01) == (flags & 0x01 != 0)) by (bit_vector);
    assert((flags & 0x08 == 0x08) == (flags / 8 % 2 == 1)) by (bit_vector);
    assert((flags & 0x08 == 0x08) == (flags & 0x08 != 0)) by (bit_vector);
}

/// Marking a packet sets bit 3 of its flags, and leaves every other bit, the buffer and the size
/// as they were, whatever these are.
pub proof fn law_marking_sets_one_bit(packet: Packet)
    ensures
        packet.marked().meta.flags == packet.meta.flags | 0x08,
        packet.marked().meta.flags & 0x08 != 0,
        packet.marked().meta.flags & 0xf7 == packet.meta.flags & 0xf7,
        packet.marked().meta.size == packet.meta.size,
        packet.marked().buffer == packet.buffer,
{
    let flags = packet.meta.flags;
    assert((flags | 0x08) & 0x08 != 0) by (bit_vector);
    assert((flags | 0x08) & 0xf7 == flags & 0xf7) by (bit_vector);
}

/// A transaction in the buffer is found wherever the packet starts, as far as the offsets fit, and
/// all five offsets are those of its parts.
pub proof fn law_found_where_it_stands(
    packet: Packet,
    current_offset: int,
    k: int,
    m: int,
    versioned: bool,
)
    requires
        0 <= current_offset,
        packet.meta.flags & 0x01 == 0,
        packet.meta.size <= 1232,
        ({
            let b = packet.buffer@;
            let h = 1 + 64 * k + if versioned { 1int } else { 0 };
            &&& 1 <= k <= m
            &&& h + 4 + 32 * m <= packet.meta.size
            &&& b[0] == k
            &&& versioned ==> b[1 + 64 * k] == 0x80
            &&& b[h] == k
            &&& b[h + 1] < k
            &&& b[h + 3] == m
        }),
    ensures
        ({
            let h = 1 + 64 * k + if versioned { 1int } else { 0 };
            match packet::packet_offsets(packet, current_offset) {
                Ok(offsets) => {
                    &&& current_offset + h + 4 <= u32::MAX
                    &&& offsets.sig_len == k
                    &&& offsets.sig_start == current_offset + 1
                    &&& offsets.msg_start == current_offset + 1 + 64 * k
                    &&& offsets.pubkey_start == current_offset + h + 4
                    &&& offsets.pubkey_len == m
                },
                Err(error) => {
                    &&& current_offset + h + 4 > u32::MAX
                    &&& error == PacketError::InvalidLen
                },
            }
        }),
{
    law_readable_bytes(packet);
}

/// Where offsets are found, the buffer holds a transaction with its parts there.
pub proof fn law_what_was_found_is_there(packet: Packet, current_offset: int)
    requires
        0 <= current_offset,
        packet::packet_offsets(packet, current_offset) is Ok,
    ensures
        ({
            let offsets = packet::packet_offsets(packet, current_offset)->Ok_0;
            let b = packet.buffer@;
            let k = offsets.sig_len as int;
            let m = offsets.pubkey_len as int;
            let versioned = b[1 + 64 * k] == 0x80;
            let h = 1 + 64 * k + if versioned { 1int } else { 0 };
            &&& packet.meta.flags & 0x01 == 0
            &&& packet.meta.size <= 1232
            &&& 1 <= k <= m
            &&& h + 4 + 32 * m <= packet.meta.size
            &&& b[0] == k
            &&& b[h] == k
            &&& b[h + 1] < k
            &&& b[h + 3] == m
            &&& offsets.sig_start == current_offset + 1
            &&& offsets.msg_start == current_offset + 1 + 64 * k
            &&& offsets.pubkey_start == current_offset + h + 4
        }),
{
    law_readable_bytes(packet);
}

/// What is too short for a signature is `InvalidLen`, and what cannot be read is
/// `InvalidShortVec`.
pub proof fn law_unreadable_packets(packet: Packet, current_offset: int)
    ensures
        packet.meta.size < 65 ==> packet::packet_offsets(packet, current_offset) == Err::<
            PacketOffsets,
            PacketError,
        >(PacketError::InvalidLen),
        packet.meta.size >= 65 && (packet.meta.flags & 0x01 != 0 || packet.meta.size > 1232)
            ==> packet::packet_offsets(packet, current_offset) == Err::<PacketOffsets, PacketError>(
            PacketError::InvalidShortVec,
        ),
{
    law_readable_bytes(packet);
}

/// What is wrong before the message's header: a first byte from 0x80 on starts a count that is
/// unreadable or too large for a packet, signatures may fill the packet, and the message may have
/// an unknown version.
pub proof fn law_signature_section_errors(packet: Packet, current_offset: int)
    requires
        packet.meta.flags & 0x01 == 0,
        65 <= packet.meta.size <= 1232,
    ensures
        ({
            let b = packet.buffer@;
            let q = 1 + 64 * b[0];
            let found = packet::packet_offsets(packet, current_offset);
            let is_count = 0 < b[1] < 0x80 || (b[1] >= 0x80 && 0 < b[2] < 4);
            &&& b[0] >= 0x80 && !is_count ==> found == Err::<PacketOffsets, PacketError>(
                PacketError::InvalidShortVec,
            )
            &&& b[0] >= 0x80 && is_count ==> found == Err::<PacketOffsets, PacketError>(
                PacketError::InvalidSignatureLen,
            )
            &&& b[0] < 0x80 && q >= packet.meta.size ==> found == Err::<PacketOffsets, PacketError>(
                PacketError::InvalidSignatureLen,
            )
            &&& b[0] < 0x80 && q < packet.meta.size && b[q] > 0x80 ==> found == Err::<
                PacketOffsets,
                PacketError,
            >(PacketError::UnsupportedVersion)
        }),
{
    law_readable_bytes(packet);
}

/// What is wrong from the message's header on, in the order in which it is looked at. `versioned`
/// says whether the header stands behind a prefix.
pub proof fn law_message_errors(packet: Packet, current_offset: int, versioned: bool)
    requires
        packet.meta.flags & 0x01 == 0,
        65 <= packet.meta.size <= 1232,
        ({
            let b = packet.buffer@;
            &&& 1 + 64 * b[0] < packet.meta.size
            &&& versioned ==> b[1 + 64 * b[0]] == 0x80
            &&& !versioned ==> b[1 + 64 * b[0]] < 0x80
        }),
    ensures
        ({
            let b = packet.buffer@;
            let size = packet.meta.size as int;
            let h = 1 + 64 * b[0] + if versioned { 1int } else { 0 };
            let found = packet::packet_offsets(packet, current_offset);
            let is_count = (h + 4 < size && 0 < b[h + 4] < 0x80) || (h + 5 < size && b[h + 4] >= 0x80
                && 0 < b[h + 5] < 4);
            if h + 4 > size {
                found == Err::<PacketOffsets, PacketError>(PacketError::InvalidSignatureLen)
            } else if b[h + 1] >= b[h] {
                found == Err::<PacketOffsets, PacketError>(PacketError::PayerNotWritable)
            } else if b[h] != b[0] {
                found == Err::<PacketOffsets, PacketError>(PacketError::MismatchSignatureLen)
            } else if b[h + 3] >= 0x80 && !is_count {
                found == Err::<PacketOffsets, PacketError>(PacketError::InvalidShortVec)
            } else {
                h + 4 + 32 * b[h + 3] > size || b[h + 3] < b[0] ==> found == Err::<
                    PacketOffsets,
                    PacketError,
                >(PacketError::InvalidPubkeyLen)
            }
        }),
{
    law_readable_bytes(packet);
}

/// Where no offsets are found, nothing of the packet changes.
pub proof fn law_refused_packets_are_left_alone(packet: Packet, current_offset: int)
    requires
        packet::packet_offsets(packet, current_offset) is Err,
    ensures
        packet::screened(packet, current_offset).buffer == packet.buffer,
        packet::screened(packet, current_offset).meta.size == packet.meta.size,
        packet::screened(packet, current_offset).meta.flags == packet.meta.flags,
{
}

/// A packet with a transaction whose offsets fit gets bit 3 of its flags exactly where the message
/// is a legacy one with one or two signatures and one instruction, which runs the vote program.
/// Nothing else of the packet changes.
pub proof fn law_votes_get_their_bit(
    packet: Packet,
    current_offset: int,
    k: int,
    m: int,
    versioned: bool,
)
    requires
        0 <= current_offset,
        packet.meta.flags & 0x01 == 0,
        packet.meta.size <= 1232,
        ({
            let b = packet.buffer@;
            let h = 1 + 64 * k + if versioned { 1int } else { 0 };
            &&& 1 <= k <= m
            &&& h + 4 + 32 * m <= packet.meta.size
            &&& b[0] == k
            &&& versioned ==> b[1 + 64 * k] == 0x80
            &&& b[h] == k
            &&& b[h + 1] < k
            &&& b[h + 3] == m
            &&& current_offset + h + 4 <= u32::MAX
        }),
    ensures
        ({
            let b = packet.buffer@;
            let keys = 5 + 64 * k;
            let e = keys + 32 * m + 32;
            let vote = {
                &&& !versioned
                &&& k <= 2
                &&& e + 2 <= packet.meta.size
                &&& b[e] == 1
                &&& b[e + 1] < m
                &&& b.subrange(keys + 32 * b[e + 1], keys + 32 * b[e + 1] + 32)
                    == outside::vote_program()
            };
            let after = packet::screened(packet, current_offset);
            &&& after.meta.flags == if vote { packet.meta.flags | 0x08 } else { packet.meta.flags }
            &&& after.meta.size == packet.meta.size
            &&& after.buffer == packet.buffer
        }),
{
    law_found_where_it_stands(packet, current_offset, k, m, versioned);
    let offsets = packet::packet_offsets(packet, current_offset)->Ok_0;
    law_vote_check(packet, offsets, current_offset);
    law_marking_sets_one_bit(packet);
}

/// What the check for a simple vote says of any offsets, by the bytes at which they point.
pub proof fn law_vote_check(packet: Packet, offsets: PacketOffsets, current_offset: int)
    ensures
        ({
            let b = packet.buffer@;
            let size = packet.meta.size as int;
            let msg = offsets.msg_start - current_offset;
            let keys = offsets.pubkey_start - current_offset;
            let e = keys + 32 * offsets.pubkey_len + 32;
            let is_count = (e + 1 < size && 0 < b[e + 1] < 0x80) || (e + 2 < size && b[e + 1] >= 0x80
                && 0 < b[e + 2] < 4);
            let answer = packet::simple_vote(packet, offsets, current_offset);
            if offsets.sig_len > 2 {
                answer == Err::<bool, PacketError>(PacketError::InvalidSignatureLen)
            } else if packet.meta.flags & 0x01 != 0 || size > 1232 || msg < 0 || msg >= size {
                answer == Err::<bool, PacketError>(PacketError::InvalidLen)
            } else if b[msg] >= 0x80 {
                answer == Ok::<bool, PacketError>(false)
            } else if keys < 0 || e >= size || (b[e] >= 0x80 && !is_count) {
                answer == Err::<bool, PacketError>(PacketError::InvalidLen)
            } else if b[e] != 1 {
                answer == Err::<bool, PacketError>(PacketError::InvalidProgramLen)
            } else if e + 1 >= size {
                answer == Err::<bool, PacketError>(PacketError::InvalidLen)
            } else if b[e + 1] >= offsets.pubkey_len {
                answer == Err::<bool, PacketError>(PacketError::InvalidProgramIdIndex)
            } else {
                answer == Ok::<bool, PacketError>(
                    b.subrange(keys + 32 * b[e + 1], keys + 32 * b[e + 1] + 32)
                        == outside::vote_program(),
                )
            }
        }),
{
    law_readable_bytes(packet);
    let b = packet.buffer@;
    let size = packet.meta.size as int;
    let keys = offsets.pubkey_start - current_offset;
    let e = keys + 32 * offsets.pubkey_len + 32;
    if packet.payload() is Some && 0 <= keys && e + 1 < size && b[e + 1] < offsets.pubkey_len {
        let start = keys + 32 * b[e + 1];
        assert(b.subrange(0, size).subrange(start, start + 32) =~= b.subrange(start, start + 32));
    }
}

/// A transaction in the buffer that is a simple vote by its parts gets bit 3 of the packet's
/// flags, one that is not leaves the flags alone.
pub proof fn law_vote_transactions_get_their_bit(packet: Packet, transaction: Transaction)
    requires
        transaction.well_formed(),
        packet.meta.flags & 0x01 == 0,
        packet.meta.size == transaction.bytes().len() <= 1232,
        packet.buffer@.subrange(0, packet.meta.size as int) == transaction.bytes(),
    ensures
        packet::screened(packet, 0).meta.flags == if transaction.only_runs(
            outside::vote_program(),
        ) {
            packet.meta.flags | 0x08
        } else {
            packet.meta.flags
        },
        packet::screened(packet, 0).meta.size == packet.meta.size,
        packet::screened(packet, 0).buffer == packet.buffer,
{
    law_readable_bytes(packet);
    laws::law_simple_votes_are_marked(packet, transaction);
    law_marking_sets_one_bit(packet);
}

/// The offsets that are used are those that were found, all five of them, unless only votes may
/// pass and bit 3 of the flags is clear by then. Where there are none, or they are not used, all
/// five are zero.
pub proof fn law_used_offsets_are_the_found_ones(
    packet: Packet,
    current_offset: int,
    reject_non_vote: bool,
)
    ensures
        ({
            let used = packet::accepted_offsets(packet, current_offset, reject_non_vote);
            let bit = packet::screened(packet, current_offset).meta.flags & 0x08;
            match packet::packet_offsets(packet, current_offset) {
                Ok(found) if !reject_non_vote || bit != 0 => {
                    &&& used.sig_len == found.sig_len
                    &&& used.sig_start == found.sig_start
                    &&& used.msg_start == found.msg_start
                    &&& used.pubkey_start == found.pubkey_start
                    &&& used.pubkey_len == found.pubkey_len
                },
                _ => {
                    &&& used.sig_len == 0
                    &&& used.sig_start == 0
                    &&& used.msg_start == 0
                    &&& used.pubkey_start == 0
                    &&& used.pubkey_len == 0
                },
            }
        }),
{
    law_flag_bits(packet::screened(packet, current_offset));
}

/// The bytes of a transaction that fits in a packet, by their places.
pub proof fn law_transactions_by_bytes(transaction: Transaction)
    requires
        transaction.well_formed(),
        transaction.bytes().len() <= 1232,
    ensures
        ({
            let b = transaction.bytes();
            let k = transaction.required_signatures as int;
            let m = transaction.pubkey_len;
            let h = 1 + 64 * k + if transaction.versioned { 1int } else { 0 };
            &&& 1 <= k <= m < 39
            &&& b.len() == h + 4 + 32 * m + transaction.rest.len()
            &&& b[0] == k
            &&& b.subrange(1, 1 + 64 * k) == transaction.signatures
            &&& transaction.versioned ==> b[1 + 64 * k] == 0x80
            &&& b[h] == k
            &&& b[h + 1] == transaction.readonly_signed
            &&& b[h + 2] == transaction.readonly_unsigned
            &&& b[h + 3] == m
            &&& b.subrange(h + 4, h + 4 + 32 * m) == transaction.pubkeys
            &&& b.skip(h + 4 + 32 * m) == transaction.rest
            &&& b.skip(1 + 64 * k) == transaction.message()
            &&& transaction.readonly_signed < k
        }),
{
    laws::lemma_transaction_bytes(transaction);
    let b = transaction.bytes();
    let k = transaction.required_signatures as int;
    assert(transaction.pubkey_len < 39);
    assert(b.skip(1 + 64 * k) =~= transaction.message());
}

/// The offsets that are used for a transaction are the places of its parts, moved on by
/// `current_offset`, unless only votes may pass and the packet has bit 3 clear and does not get
/// it.
pub proof fn law_used_offsets_of_a_transaction(
    packet: Packet,
    transaction: Transaction,
    current_offset: int,
    reject_non_vote: bool,
)
    requires
        0 <= current_offset,
        transaction.well_formed(),
        packet.meta.flags & 0x01 == 0,
        packet.meta.size == transaction.bytes().len() <= 1232,
        packet.buffer@.subrange(0, packet.meta.size as int) == transaction.bytes(),
        current_offset + 5 + 64 * transaction.required_signatures + (if transaction.versioned {
            1int
        } else {
            0
        }) <= u32::MAX,
        !reject_non_vote || packet.meta.flags & 0x08 != 0 || transaction.only_runs(
            outside::vote_program(),
        ),
    ensures
        ({
            let used = packet::accepted_offsets(packet, current_offset, reject_non_vote);
            let k = transaction.required_signatures as int;
            &&& used.sig_len == k
            &&& used.sig_start == current_offset + 1
            &&& used.msg_start == current_offset + 1 + 64 * k
            &&& used.pubkey_start == current_offset + 5 + 64 * k + if transaction.versioned {
                1int
            } else {
                0
            }
            &&& used.pubkey_len == transaction.pubkey_len
        }),
{
    law_transactions_by_bytes(transaction);
    let b = packet.buffer@;
    let data = transaction.bytes();
    let k = transaction.required_signatures as int;
    let h = 1 + 64 * k + if transaction.versioned { 1int } else { 0 };
    assert(b[0] == data[0] && b[1 + 64 * k] == data[1 + 64 * k]);
    assert(b[h] == data[h] && b[h + 1] == data[h + 1] && b[h + 3] == data[h + 3]);
    law_found_where_it_stands(
        packet,
        current_offset,
        k,
        transaction.pubkey_len,
        transaction.versioned,
    );
    law_found_where_it_stands(packet, 0, k, transaction.pubkey_len, transaction.versioned);
    laws::law_offsets_move_with_the_packet(packet, current_offset);
    law_vote_transactions_get_their_bit(packet, transaction);
    law_used_offsets_are_the_found_ones(packet, current_offset, reject_non_vote);
    let flags = packet.meta.flags;
    assert((flags | 0x08) & 0x08 != 0) by (bit_vector);
}

/// A packet with a transaction that may pass adds its `k` signatures, the first `k` account keys,
/// and the message up to the end of the packet, all as they stand in the buffer. One whose
/// transaction may not pass adds nothing.
pub proof fn law_what_a_transaction_adds(
    packet: Packet,
    k: int,
    m: int,
    versioned: bool,
    reject_non_vote: bool,
)
    requires
        packet.meta.flags & 0x01 == 0,
        packet.meta.size <= 1232,
        ({
            let b = packet.buffer@;
            let h = 1 + 64 * k + if versioned { 1int } else { 0 };
            &&& 1 <= k <= m
            &&& h + 4 + 32 * m <= packet.meta.size
            &&& b[0] == k
            &&& versioned ==> b[1 + 64 * k] == 0x80
            &&& b[h] == k
            &&& b[h + 1] < k
            &&& b[h + 3] == m
        }),
    ensures
        ({
            let b = packet.buffer@;
            let h = 1 + 64 * k + if versioned { 1int } else { 0 };
            let keys = 5 + 64 * k;
            let e = keys + 32 * m + 32;
            let vote = {
                &&& !versioned
                &&& k <= 2
                &&& e + 2 <= packet.meta.size
                &&& b[e] == 1
                &&& b[e + 1] < m
                &&& b.subrange(keys + 32 * b[e + 1], keys + 32 * b[e + 1] + 32)
                    == outside::vote_program()
            };
            let part = batch::contribution(packet, reject_non_vote);
            if !reject_non_vote || packet.meta.flags & 0x08 != 0 || vote {
                &&& part.ok
                &&& part.signatures == b.subrange(1, 1 + 64 * k)
                &&& part.pubkeys == b.subrange(h + 4, h + 4 + 32 * k)
                &&& part.message == b.subrange(1 + 64 * k, packet.meta.size as int)
                &&& part.sig_count == k
            } else {
                &&& !part.ok
                &&& part.signatures.len() == 0
                &&& part.pubkeys.len() == 0
                &&& part.message.len() == 0
                &&& part.sig_count == 0
            }
        }),
{
    law_readable_bytes(packet);
    law_found_where_it_stands(packet, 0, k, m, versioned);
    law_votes_get_their_bit(packet, 0, k, m, versioned);
    law_used_offsets_are_the_found_ones(packet, 0, reject_non_vote);
    let flags = packet.meta.flags;
    assert((flags | 0x08) & 0x08 != 0) by (bit_vector);
    let b = packet.buffer@;
    let size = packet.meta.size as int;
    let h = 1 + 64 * k + if versioned { 1int } else { 0 };
    let data = b.subrange(0, size);
    assert(data.subrange(1, 1 + 64 * k) =~= b.subrange(1, 1 + 64 * k));
    assert(data.subrange(h + 4, h + 4 + 32 * k) =~= b.subrange(h + 4, h + 4 + 32 * k));
    assert(data.skip(1 + 64 * k) =~= b.subrange(1 + 64 * k, size));
}

/// A packet in which no transaction is found adds nothing. That is so of every packet with bit 0
/// of its flags set, with more bytes than the buffer holds, or with too few for a signature.
pub proof fn law_what_other_packets_add(packet: Packet, reject_non_vote: bool)
    requires
        packet.meta.flags & 0x01 != 0 || packet.meta.size > 1232 || packet.meta.size < 65
            || packet::packet_offsets(packet, 0) is Err,
    ensures
        !batch::contribution(packet, reject_non_vote).ok,
        batch::contribution(packet, reject_non_vote).signatures.len() == 0,
        batch::contribution(packet, reject_non_vote).pubkeys.len() == 0,
        batch::contribution(packet, reject_non_vote).message.len() == 0,
        batch::contribution(packet, reject_non_vote).sig_count == 0,
{
    law_unreadable_packets(packet, 0);
    law_used_offsets_are_the_found_ones(packet, 0, reject_non_vote);
}

/// Where only votes may pass, a packet whose flags have bit 3 clear and which holds a transaction
/// that does not only run the vote program adds nothing and does not pass, whatever its other
/// flags and whatever the device reports.
pub proof fn law_other_transactions_are_rejected(
    packets: Seq<Packet>,
    i: int,
    transaction: Transaction,
    code: i32,
    results: Seq<u8>,
)
    requires
        0 <= i < packets.len(),
        packets[i].meta.flags & 0x08 == 0,
        transaction.well_formed(),
        !transaction.only_runs(outside::vote_program()),
        packets[i].meta.size == transaction.bytes().len() <= 1232,
        packets[i].buffer@.subrange(0, packets[i].meta.size as int) == transaction.bytes(),
    ensures
        ({
            let part = batch::contribution(packets[i], true);
            let batch = batch::batch_of(batch::contributions(packets, true));
            &&& !part.ok
            &&& part.signatures.len() == 0
            &&& part.pubkeys.len() == 0
            &&& part.message.len() == 0
            &&& part.sig_count == 0
            &&& !batch.packet_ok[i]
            &&& batch.msg_sizes[i] == 0
            &&& batch.sig_counts[i] == 0
            &&& !batch::verdicts(batch.packet_ok, code, results)[i]
        }),
{
    let packet = packets[i];
    let flags = packet.meta.flags;
    assert(flags & 0x01 == 0 || flags & 0x01 == 1) by (bit_vector);
    if flags & 0x01 == 0 {
        law_vote_transactions_get_their_bit(packet, transaction);
        law_used_offsets_are_the_found_ones(packet, 0, true);
    } else {
        law_what_other_packets_add(packet, true);
    }
    law_verdicts(batch::batch_of(batch::contributions(packets, true)).packet_ok, code, results, i);
}

/// A packet whose bytes can be read and are those of a transaction is accepted where no votes are
/// asked for, or where it has bit 3 of its flags or is a simple vote: it adds the parts of its
/// transaction.
pub proof fn law_transactions_are_accepted(
    packet: Packet,
    transaction: Transaction,
    reject_non_vote: bool,
)
    requires
        transaction.well_formed(),
        packet.meta.flags & 0x01 == 0,
        packet.meta.size == transaction.bytes().len() <= 1232,
        packet.buffer@.subrange(0, packet.meta.size as int) == transaction.bytes(),
        !reject_non_vote || packet.meta.flags & 0x08 != 0 || transaction.only_runs(
            outside::vote_program(),
        ),
    ensures
        ({
            let part = batch::contribution(packet, reject_non_vote);
            &&& part.ok
            &&& part.signatures == transaction.signatures
            &&& part.pubkeys == transaction.pubkeys.take(32 * transaction.required_signatures)
            &&& part.message == transaction.message()
            &&& part.sig_count == transaction.required_signatures
        }),
{
    law_readable_bytes(packet);
    law_transactions_by_bytes(transaction);
    law_used_offsets_of_a_transaction(packet, transaction, 0, reject_non_vote);
    let data = transaction.bytes();
    let k = transaction.required_signatures as int;
    let keys = 5 + 64 * k + if transaction.versioned { 1int } else { 0 };
    assert(data.subrange(keys, keys + 32 * k) =~= data.subrange(
        keys,
        keys + 32 * transaction.pubkey_len,
    ).take(32 * k));
}

/// A row without packets makes an empty batch.
pub proof fn law_no_packets(reject_non_vote: bool)
    ensures
        ({
            let batch = batch::batch_of(batch::contributions(Seq::empty(), reject_non_vote));
            &&& batch.signatures.len() == 0
            &&& batch.pubkeys.len() == 0
            &&& batch.messages.len() == 0
            &&& batch.msg_offsets.len() == 0
            &&& batch.msg_sizes.len() == 0
            &&& batch.sig_array_offsets.len() == 0
            &&& batch.sig_counts.len() == 0
            &&& batch.packet_ok.len() == 0
            &&& batch.total_signatures == 0
        }),
{
}

/// One more packet at the end of a row leaves all that is in the batch where it is, appends what
/// the packet adds, and notes where this starts, in 32 bits, and how much it is.
pub proof fn law_one_more_packet(packets: Seq<Packet>, packet: Packet, reject_non_vote: bool)
    ensures
        ({
            let batch = batch::batch_of(batch::contributions(packets, reject_non_vote));
            let longer = batch::batch_of(
                batch::contributions(packets.push(packet), reject_non_vote),
            );
            let part = batch::contribution(packet, reject_non_vote);
            let n = packets.len() as int;
            &&& batch.packet_ok.len() == n
            &&& longer.signatures == batch.signatures + part.signatures
            &&& longer.pubkeys == batch.pubkeys + part.pubkeys
            &&& longer.messages == batch.messages + part.message
            &&& longer.msg_offsets.len() == n + 1
            &&& longer.msg_offsets.take(n) == batch.msg_offsets
            &&& longer.msg_offsets[n] == batch.messages.len() as int % 0x1_0000_0000
            &&& longer.msg_sizes.len() == n + 1
            &&& longer.msg_sizes.take(n) == batch.msg_sizes
            &&& longer.msg_sizes[n] == part.message.len()
            &&& longer.sig_array_offsets.len() == n + 1
            &&& longer.sig_array_offsets.take(n) == batch.sig_array_offsets
            &&& longer.sig_array_offsets[n] == batch.total_signatures % 0x1_0000_0000
            &&& longer.sig_counts.len() == n + 1
            &&& longer.sig_counts.take(n) == batch.sig_counts
            &&& longer.sig_counts[n] == part.sig_count
            &&& longer.packet_ok.len() == n + 1
            &&& longer.packet_ok.take(n) == batch.packet_ok
            &&& longer.packet_ok[n] == part.ok
            &&& longer.total_signatures == batch.total_signatures + part.sig_count
        }),
{
    let parts = batch::contributions(packets, reject_non_vote);
    let part = batch::contribution(packet, reject_non_vote);
    assert(batch::contributions(packets.push(packet), reject_non_vote) =~= parts.push(part));
    assert(part.message.len() <= 1232 && 0 <= part.sig_count <= u32::MAX) by {
        law_readable_bytes(packet);
    }
    lemma_one_more_part(parts, part);
}

/// The batch of `parts` and one more, by its fields.
proof fn lemma_one_more_part(parts: Seq<Contribution>, part: Contribution)
    requires
        part.message.len() <= 1232,
        0 <= part.sig_count <= u32::MAX,
    ensures
        ({
            let batch = batch::batch_of(parts);
            let longer = batch::batch_of(parts.push(part));
            let n = parts.len() as int;
            &&& longer.signatures == batch.signatures + part.signatures
            &&& longer.pubkeys == batch.pubkeys + part.pubkeys
            &&& longer.messages == batch.messages + part.message
            &&& longer.msg_offsets.take(n) == batch.msg_offsets
            &&& longer.msg_offsets[n] == batch.messages.len() as int % 0x1_0000_0000
            &&& longer.msg_sizes.take(n) == batch.msg_sizes
            &&& longer.msg_sizes[n] == part.message.len()
            &&& longer.sig_array_offsets.take(n) == batch.sig_array_offsets
            &&& longer.sig_array_offsets[n] == batch.total_signatures % 0x1_0000_0000
            &&& longer.sig_counts.take(n) == batch.sig_counts
            &&& longer.sig_counts[n] == part.sig_count
            &&& longer.packet_ok.take(n) == batch.packet_ok
            &&& longer.packet_ok[n] == part.ok
            &&& longer.total_signatures == batch.total_signatures + part.sig_count
        }),
{
    let more = parts.push(part);
    let n = parts.len() as int;
    assert(more.drop_last() =~= parts);
    assert(more.take(n) =~= parts);
    assert forall|i: int| 0 <= i < n implies #[trigger] more.take(i) == parts.take(i) by {
        assert(more.take(i) =~= parts.take(i));
    }
    let batch = batch::batch_of(parts);
    let longer = batch::batch_of(more);
    assert(longer.msg_offsets.take(n) =~= batch.msg_offsets);
    assert(longer.msg_sizes.take(n) =~= batch.msg_sizes);
    assert(longer.sig_array_offsets.take(n) =~= batch.sig_array_offsets);
    assert(longer.sig_counts.take(n) =~= batch.sig_counts);
    assert(longer.packet_ok.take(n) =~= batch.packet_ok);
}

/// There is one verdict for each packet, and packet `i` passes exactly where it can, the device has
/// not failed, and the device has written a byte other than zero for it.
pub proof fn law_verdicts(packet_ok: Seq<bool>, code: i32, results: Seq<u8>, i: int)
    ensures
        batch::verdicts(packet_ok, code, results).len() == packet_ok.len(),
        0 <= i < packet_ok.len() ==> (batch::verdicts(packet_ok, code, results)[i] <==> packet_ok[i]
            && code == 0 && i < results.len() && results[i] != 0),
{
}

/// There is one verdict for each packet of a row, whatever the packets hold and whatever the device
/// reports; and one entry for each packet in every array that has entries by packet.
pub proof fn law_one_verdict_per_packet(
    packets: Seq<Packet>,
    reject_non_vote: bool,
    code: i32,
    results: Seq<u8>,
)
    ensures
        ({
            let batch = batch::batch_of(batch::contributions(packets, reject_non_vote));
            &&& batch::contributions(packets, reject_non_vote).len() == packets.len()
            &&& batch.packet_ok.len() == packets.len()
            &&& batch.msg_offsets.len() == packets.len()
            &&& batch.msg_sizes.len() == packets.len()
            &&& batch.sig_array_offsets.len() == packets.len()
            &&& batch.sig_counts.len() == packets.len()
            &&& batch::verdicts(batch.packet_ok, code, results).len() == packets.len()
        }),
{
}

/// The verdict on one packet with a transaction, by its bytes and flags and by what the device
/// reports.
pub proof fn law_verdict_on_a_transaction(
    packets: Seq<Packet>,
    i: int,
    k: int,
    m: int,
    versioned: bool,
    reject_non_vote: bool,
    code: i32,
    results: Seq<u8>,
)
    requires
        0 <= i < packets.len(),
        packets[i].meta.flags & 0x01 == 0,
        packets[i].meta.size <= 1232,
        ({
            let b = packets[i].buffer@;
            let h = 1 + 64 * k + if versioned { 1int } else { 0 };
            &&& 1 <= k <= m
            &&& h + 4 + 32 * m <= packets[i].meta.size
            &&& b[0] == k
            &&& versioned ==> b[1 + 64 * k] == 0x80
            &&& b[h] == k
            &&& b[h + 1] < k
            &&& b[h + 3] == m
        }),
    ensures
        ({
            let b = packets[i].buffer@;
            let keys = 5 + 64 * k;
            let e = keys + 32 * m + 32;
            let vote = {
                &&& !versioned
                &&& k <= 2
                &&& e + 2 <= packets[i].meta.size
                &&& b[e] == 1
                &&& b[e + 1] < m
                &&& b.subrange(keys + 32 * b[e + 1], keys + 32 * b[e + 1] + 32)
                    == outside::vote_program()
            };
            let batch = batch::batch_of(batch::contributions(packets, reject_non_vote));
            let may_pass = !reject_non_vote || packets[i].meta.flags & 0x08 != 0 || vote;
            &&& batch.packet_ok[i] == may_pass
            &&& batch.sig_counts[i] == if may_pass { k } else { 0 }
            &&& batch.msg_sizes[i] == if may_pass { packets[i].meta.size - 1 - 64 * k } else { 0 }
            &&& batch::verdicts(batch.packet_ok, code, results)[i] <==> may_pass && code == 0 && i
                < results.len() && results[i] != 0
        }),
{
    law_what_a_transaction_adds(packets[i], k, m, versioned, reject_non_vote);
    lemma_entries(packets, i, reject_non_vote);
    law_verdicts(
        batch::batch_of(batch::contributions(packets, reject_non_vote)).packet_ok,
        code,
        results,
        i,
    );
}

/// What a batch notes of one packet.
proof fn lemma_entries(packets: Seq<Packet>, i: int, reject_non_vote: bool)
    requires
        0 <= i < packets.len(),
        0 <= batch::contribution(packets[i], reject_non_vote).sig_count <= u32::MAX,
        batch::contribution(packets[i], reject_non_vote).message.len() <= u32::MAX,
    ensures
        ({
            let batch = batch::batch_of(batch::contributions(packets, reject_non_vote));
            let part = batch::contribution(packets[i], reject_non_vote);
            &&& batch.packet_ok.len() == packets.len()
            &&& batch.packet_ok[i] == part.ok
            &&& batch.sig_counts[i] == part.sig_count
            &&& batch.msg_sizes[i] == part.message.len()
        }),
{
}

/// The fields of a batch are what is said of it.
pub proof fn law_batch_fields(batch: Batch)
    ensures
        batch@.signatures == batch.signatures@,
        batch@.pubkeys == batch.pubkeys@,
        batch@.messages == batch.messages@,
        batch@.msg_offsets == batch.msg_offsets@,
        batch@.msg_sizes == batch.msg_sizes@,
        batch@.sig_array_offsets == batch.sig_array_offsets@,
        batch@.sig_counts == batch.sig_counts@,
        batch@.packet_ok == batch.packet_ok@,
        batch@.total_signatures == batch.total_signatures,
{
}

/// The number that the first `n` of `digits` write in base `base`, the highest digit first.
pub open spec fn number(base: int, digits: Seq<u8>, n: int) -> int
    decreases n,
{
    if n <= 0 {
        0
    } else {
        base * number(base, digits, n - 1) + digits[n - 1]
    }
}

/// The vote program's address has 32 bytes, which write the number that in base 58 has the digits
/// 28, 46, 51 and 37 and then 39 zeros: `Vote` and 39 times `1`.
pub proof fn law_vote_program_address()
    ensures
        outside::vote_program().len() == 32,
        number(0x100, outside::vote_program(), 32) == number(
            58,
            Seq::new(
                43,
                |i: int|
                    if i == 0 {
                        28u8
                    } else if i == 1 {
                        46
                    } else if i == 2 {
                        51
                    } else if i == 3 {
                        37
                    } else {
                        0
                    },
            ),
            43,
        ),
{
    reveal_with_fuel(number, 44);
}

/// A count that cannot be read is `InvalidShortVec`, a number that does not fit is `InvalidLen`.
pub proof fn law_errors_of_others(
    unreadable: std::boxed::Box<bincode::ErrorKind>,
    too_large: std::num::TryFromIntError,
)
    ensures
        PacketError::from_spec(unreadable) == PacketError::InvalidShortVec,
        PacketError::from_spec(too_large) == PacketError::InvalidLen,
{
}

/// A count takes one to three bytes, seven bits in each from the low end on, with the top bit set
/// in all but the last. It fits in 16 bits, and its last byte is not zero unless it is the only
/// one.
pub proof fn law_counts_by_bytes(bytes: Seq<u8>)
    ensures
        ({
            let count = wire::short_u16(bytes);
            if bytes.len() >= 1 && bytes[0] < 0x80 {
                count == Some((bytes[0] as int, 1int))
            } else if bytes.len() >= 2 && bytes[0] >= 0x80 && 0 < bytes[1] < 0x80 {
                count == Some((bytes[0] - 0x80 + 0x80 * bytes[1], 2int))
            } else if bytes.len() >= 3 && bytes[0] >= 0x80 && bytes[1] >= 0x80 && 0 < bytes[2] < 4 {
                count == Some(
                    (bytes[0] - 0x80 + 0x80 * (bytes[1] - 0x80) + 0x4000 * bytes[2], 3int),
                )
            } else {
                count is None
            }
        }),
{
}

} // verus!
