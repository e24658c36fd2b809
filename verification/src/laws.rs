//! What holds of the library as a whole.

use vstd::prelude::*;
use crate::batch;
use crate::batch::{BatchView, Contribution};
use crate::outside;
use crate::packet;
use crate::packet::{Layout, Packet, PacketError, PacketOffsets};
use crate::wire;
use crate::wire::Transaction;

verus! {

/// A compact length reads back as the number that was written, whatever follows it.
pub proof fn law_short_u16_reads_back(n: int, rest: Seq<u8>)
    requires
        0 <= n < 0x1_0000,
    ensures
        wire::short_u16(wire::short_u16_bytes(n) + rest) == Some(
            (n, wire::short_u16_bytes(n).len() as int),
        ),
{
}

/// A number has one compact form: what was read is what would be written. It takes one to three
/// bytes.
pub proof fn law_short_u16_is_canonical(bytes: Seq<u8>)
    requires
        wire::short_u16(bytes) is Some,
    ensures
        ({
            let (n, len) = wire::short_u16(bytes).unwrap();
            &&& 0 <= n < 0x1_0000
            &&& 1 <= len <= 3
            &&& len <= bytes.len()
            &&& bytes.take(len) == wire::short_u16_bytes(n)
        }),
{
    let (n, len) = wire::short_u16(bytes).unwrap();
    if len == 1 {
        assert(bytes.take(1) =~= wire::short_u16_bytes(n));
    } else if len == 2 {
        assert(n % 0x80 == bytes[0] - 0x80);
        assert(n / 0x80 == bytes[1]);
        assert(bytes.take(2) =~= wire::short_u16_bytes(n));
    } else {
        assert(n % 0x80 == bytes[0] - 0x80);
        assert(n / 0x80 % 0x80 == bytes[1] - 0x80);
        assert(n / 0x4000 == bytes[2]);
        assert(bytes.take(3) =~= wire::short_u16_bytes(n));
    }
}

/// Where offsets are found, the packet can be read and holds all that they point at: at least one
/// signature, the message directly behind the signatures, and behind the message's header no
/// fewer account keys than signatures.
pub proof fn law_offsets_stay_inside(packet: Packet, current_offset: int)
    requires
        packet::packet_offsets(packet, current_offset) is Ok,
        0 <= current_offset,
    ensures
        ({
            let offsets = packet::packet_offsets(packet, current_offset)->Ok_0;
            let sig_start = offsets.sig_start - current_offset;
            let msg_start = offsets.msg_start - current_offset;
            let pubkey_start = offsets.pubkey_start - current_offset;
            &&& packet.payload() is Some
            &&& 1 <= offsets.sig_len <= offsets.pubkey_len
            &&& 0 < sig_start
            &&& sig_start + 64 * offsets.sig_len == msg_start
            &&& msg_start + 4 <= pubkey_start
            &&& pubkey_start + 32 * offsets.pubkey_len <= packet.meta.size
        }),
{
}

/// Where the parts of `transaction` stand on the wire.
pub open spec fn layout_of(transaction: Transaction) -> Layout {
    let count_size = wire::short_u16_bytes(transaction.required_signatures as int).len() as int;
    let msg_start = transaction.signature_section().len() as int;
    Layout {
        sig_len: transaction.required_signatures as int,
        sig_start: count_size,
        msg_start,
        pubkey_start: msg_start + transaction.message_head().len(),
        pubkey_len: transaction.pubkey_len,
    }
}

/// How the bytes of a transaction are read: the count of signatures, the message's first bytes
/// and the count of account keys.
pub(crate) proof fn lemma_transaction_bytes(transaction: Transaction)
    requires
        transaction.well_formed(),
    ensures
        ({
            let data = transaction.bytes();
            let layout = layout_of(transaction);
            let header_start = layout.msg_start + if transaction.versioned { 1int } else { 0 };
            &&& wire::short_u16(data) == Some((layout.sig_len, layout.sig_start))
            &&& layout.msg_start == layout.sig_start + 64 * layout.sig_len
            &&& transaction.versioned ==> data[layout.msg_start] == 0x80
            &&& data[header_start] == transaction.required_signatures
            &&& data[header_start + 1] == transaction.readonly_signed
            &&& wire::short_u16(data.skip(header_start + 3)) == Some(
                (layout.pubkey_len, layout.pubkey_start - header_start - 3),
            )
            &&& layout.pubkey_start + 32 * layout.pubkey_len + transaction.rest.len() == data.len()
            &&& data.subrange(layout.sig_start, layout.msg_start) == transaction.signatures
            &&& data.subrange(
                layout.pubkey_start,
                layout.pubkey_start + 32 * layout.pubkey_len,
            ) == transaction.pubkeys
            &&& data.skip(layout.pubkey_start + 32 * layout.pubkey_len) == transaction.rest
        }),
{
    let data = transaction.bytes();
    let layout = layout_of(transaction);
    let header_start = layout.msg_start + if transaction.versioned { 1int } else { 0 };
    let count = wire::short_u16_bytes(transaction.required_signatures as int);
    let key_count = wire::short_u16_bytes(transaction.pubkey_len);

    let behind_count = transaction.signatures + transaction.message_head() + transaction.pubkeys
        + transaction.rest;
    assert(data =~= count + behind_count);
    law_short_u16_reads_back(transaction.required_signatures as int, behind_count);

    let behind_key_count = transaction.pubkeys + transaction.rest;
    assert(data.skip(header_start + 3) =~= key_count + behind_key_count);
    law_short_u16_reads_back(transaction.pubkey_len, behind_key_count);

    assert(data.subrange(layout.sig_start, layout.msg_start) =~= transaction.signatures);
    assert(data.subrange(layout.pubkey_start, layout.pubkey_start + 32 * layout.pubkey_len)
        =~= transaction.pubkeys);
    assert(data.skip(layout.pubkey_start + 32 * layout.pubkey_len) =~= transaction.rest);
}

/// A packet that holds a well-formed transaction is accepted, and the parts are found where they
/// stand.
pub proof fn law_transactions_are_found(packet: Packet, transaction: Transaction)
    requires
        transaction.well_formed(),
        packet.payload() == Some(transaction.bytes()),
    ensures
        packet::packet_layout(packet) == Ok::<Layout, PacketError>(layout_of(transaction)),
{
    lemma_transaction_bytes(transaction);
}

/// Nothing else is accepted: where parts are found, the packet holds a well-formed transaction
/// with its parts there.
pub proof fn law_only_transactions_are_found(packet: Packet) -> (transaction: Transaction)
    requires
        packet::packet_layout(packet) is Ok,
    ensures
        transaction.well_formed(),
        packet.payload() == Some(transaction.bytes()),
        packet::packet_layout(packet) == Ok::<Layout, PacketError>(layout_of(transaction)),
{
    let data = packet.payload().unwrap();
    let layout = packet::packet_layout(packet)->Ok_0;
    let versioned = data[layout.msg_start] == 0x80;
    let header_start = layout.msg_start + if versioned { 1int } else { 0 };
    let keys_end = layout.pubkey_start + 32 * layout.pubkey_len;
    let transaction = Transaction {
        signatures: data.subrange(layout.sig_start, layout.msg_start),
        versioned,
        required_signatures: data[header_start],
        readonly_signed: data[header_start + 1],
        readonly_unsigned: data[header_start + 2],
        pubkeys: data.subrange(layout.pubkey_start, keys_end),
        pubkey_len: layout.pubkey_len,
        rest: data.skip(keys_end),
    };
    law_short_u16_is_canonical(data);
    law_short_u16_is_canonical(data.skip(header_start + 3));
    assert(data.take(layout.msg_start) =~= transaction.signature_section());
    let key_count = wire::short_u16_bytes(layout.pubkey_len);
    assert(data.subrange(header_start + 3, layout.pubkey_start) =~= key_count);
    assert(data.subrange(layout.msg_start, layout.pubkey_start) =~= transaction.message_head());
    assert(transaction.bytes() =~= data);
    transaction
}

/// A packet that holds a transaction is marked exactly where the transaction is a simple vote: a
/// legacy message with one or two signatures and one instruction, which runs the vote program.
pub proof fn law_simple_votes_are_marked(packet: Packet, transaction: Transaction)
    requires
        transaction.well_formed(),
        packet.payload() == Some(transaction.bytes()),
    ensures
        packet::screened(packet, 0) == if transaction.only_runs(outside::vote_program()) {
            packet.marked()
        } else {
            packet
        },
{
    let data = transaction.bytes();
    let layout = layout_of(transaction);
    law_transactions_are_found(packet, transaction);
    lemma_transaction_bytes(transaction);
    let keys_end = layout.pubkey_start + 32 * layout.pubkey_len;
    if transaction.rest.len() > 32 {
        assert(data.skip(keys_end + 32) =~= transaction.rest.skip(32));
        if transaction.rest.len() > 33 {
            let program = transaction.first_program();
            assert(data[keys_end + 33] == data.skip(keys_end)[33]);
            if program < layout.pubkey_len {
                let start = layout.pubkey_start + 32 * program;
                assert(data.subrange(start, start + 32) =~= data.subrange(
                    layout.pubkey_start,
                    keys_end,
                ).subrange(32 * program, 32 * program + 32));
            }
        }
    }
}

/// A packet that holds no transaction is left as it is.
pub proof fn law_other_packets_are_not_marked(packet: Packet, current_offset: int)
    requires
        packet::packet_layout(packet) is Err,
    ensures
        packet::screened(packet, current_offset) == packet,
{
}

/// The offsets of a packet, moved `distance` bytes on.
pub open spec fn moved(offsets: PacketOffsets, distance: int) -> PacketOffsets {
    PacketOffsets {
        sig_start: (offsets.sig_start + distance) as u32,
        msg_start: (offsets.msg_start + distance) as u32,
        pubkey_start: (offsets.pubkey_start + distance) as u32,
        ..offsets
    }
}

/// Offsets move with the packet, as far as they fit, and where the packet starts has no bearing on
/// whether it carries a simple vote.
pub proof fn law_offsets_move_with_the_packet(packet: Packet, current_offset: int)
    requires
        0 <= current_offset,
    ensures
        match packet::packet_offsets(packet, 0) {
            Ok(offsets) if offsets.pubkey_start + current_offset <= u32::MAX => {
                &&& packet::packet_offsets(packet, current_offset) == Ok::<
                    PacketOffsets,
                    PacketError,
                >(moved(offsets, current_offset))
                &&& packet::screened(packet, current_offset) == packet::screened(packet, 0)
            },
            Ok(_) => packet::packet_offsets(packet, current_offset) == Err::<
                PacketOffsets,
                PacketError,
            >(PacketError::InvalidLen),
            Err(error) => packet::packet_offsets(packet, current_offset) == Err::<
                PacketOffsets,
                PacketError,
            >(error),
        },
{
    if packet::packet_offsets(packet, 0) is Ok {
        law_offsets_stay_inside(packet, 0);
    }
}

/// Looking for a transaction changes nothing of a packet but bit 3 of its flags, and never clears
/// that.
pub proof fn law_only_the_vote_flag_changes(packet: Packet, current_offset: int)
    ensures
        ({
            let after = packet::screened(packet, current_offset);
            &&& after.buffer == packet.buffer
            &&& after.meta.size == packet.meta.size
            &&& after.meta.flags & !0x08u8 == packet.meta.flags & !0x08u8
            &&& packet.meta.is_simple_vote() ==> after.meta.is_simple_vote()
            &&& after != packet ==> after.meta.is_simple_vote()
            &&& after.payload() == packet.payload()
        }),
{
    let flags = packet.meta.flags;
    assert((flags | 0x08) & !0x08u8 == flags & !0x08u8) by (bit_vector);
    assert((flags | 0x08) & 0x08 == 0x08) by (bit_vector);
    assert((flags | 0x08) & 0x01 == flags & 0x01) by (bit_vector);
}

/// Looking at a packet a second time gives the same offsets and leaves the packet alone.
pub proof fn law_a_second_look_changes_nothing(
    packet: Packet,
    current_offset: int,
    reject_non_vote: bool,
)
    ensures
        ({
            let after = packet::screened(packet, current_offset);
            &&& packet::screened(after, current_offset) == after
            &&& packet::accepted_offsets(after, current_offset, reject_non_vote)
                == packet::accepted_offsets(packet, current_offset, reject_non_vote)
        }),
{
    let flags = packet.meta.flags;
    assert((flags | 0x08) | 0x08 == flags | 0x08) by (bit_vector);
    law_only_the_vote_flag_changes(packet, current_offset);
}

/// The number of signatures is zero exactly where the packet is refused, and the other offsets
/// are zero then too: no transaction is mistaken for a refused packet.
pub proof fn law_zero_offsets_mean_refusal(
    packet: Packet,
    current_offset: int,
    reject_non_vote: bool,
)
    requires
        0 <= current_offset,
    ensures
        ({
            let offsets = packet::accepted_offsets(packet, current_offset, reject_non_vote);
            let refused = packet::packet_offsets(packet, current_offset) is Err || (reject_non_vote
                && !packet::screened(packet, current_offset).meta.is_simple_vote());
            &&& offsets.sig_len == 0 <==> refused
            &&& offsets.sig_len == 0 ==> offsets == (PacketOffsets {
                sig_len: 0,
                sig_start: 0,
                msg_start: 0,
                pubkey_start: 0,
                pubkey_len: 0,
            })
        }),
{
    if packet::packet_offsets(packet, current_offset) is Ok {
        law_offsets_stay_inside(packet, current_offset);
    }
}

/// A packet that can pass adds at least one signature, a key for each, and a message that is not
/// empty and no longer than a packet. One that cannot pass adds nothing.
pub proof fn law_packets_add_whole_pairs(packet: Packet, reject_non_vote: bool)
    ensures
        ({
            let part = batch::contribution(packet, reject_non_vote);
            &&& part.signatures.len() == 64 * part.sig_count
            &&& part.pubkeys.len() == 32 * part.sig_count
            &&& part.sig_count >= 0
            &&& part.ok <==> part.sig_count >= 1
            &&& part.ok <==> part.message.len() >= 1
            &&& part.message.len() + part.signatures.len() <= 1232
            &&& !part.ok ==> part == batch::nothing()
        }),
{
    let offsets = packet::accepted_offsets(packet, 0, reject_non_vote);
    if offsets.sig_len != 0 {
        law_offsets_stay_inside(packet, 0);
    }
}

/// A packet can pass exactly where a transaction is found in it and, with `reject_non_vote`, it is
/// marked as a simple vote by then. A discarded packet never can.
pub proof fn law_which_packets_can_pass(packet: Packet, reject_non_vote: bool)
    ensures
        batch::contribution(packet, reject_non_vote).ok <==> {
            &&& packet::packet_layout(packet) is Ok
            &&& !reject_non_vote || packet::screened(packet, 0).meta.is_simple_vote()
        },
        packet.meta.is_discarded() ==> !batch::contribution(packet, reject_non_vote).ok,
{
    law_zero_offsets_mean_refusal(packet, 0, reject_non_vote);
    if packet::packet_offsets(packet, 0) is Ok {
        law_offsets_stay_inside(packet, 0);
    }
}

/// A part with a signature and a key for each signature that it counts, and a message that a
/// packet can hold.
spec fn whole_pairs(part: Contribution) -> bool {
    &&& part.signatures.len() == 64 * part.sig_count
    &&& part.pubkeys.len() == 32 * part.sig_count
    &&& 0 <= part.sig_count <= 1232
    &&& part.message.len() <= 1232
}

proof fn lemma_contributions_whole(packets: Seq<Packet>, reject_non_vote: bool)
    ensures
        ({
            let parts = batch::contributions(packets, reject_non_vote);
            forall|i: int| 0 <= i < parts.len() ==> whole_pairs(#[trigger] parts[i])
        }),
{
    let parts = batch::contributions(packets, reject_non_vote);
    assert forall|i: int| 0 <= i < parts.len() implies whole_pairs(#[trigger] parts[i]) by {
        law_packets_add_whole_pairs(packets[i], reject_non_vote);
    }
}

/// The signatures and keys of `parts` that are each made of whole pairs.
proof fn lemma_whole_pairs(parts: Seq<Contribution>)
    requires
        forall|i: int| 0 <= i < parts.len() ==> whole_pairs(#[trigger] parts[i]),
    ensures
        batch::all_signatures(parts).len() == 64 * batch::total_sigs(parts),
        batch::all_pubkeys(parts).len() == 32 * batch::total_sigs(parts),
        batch::total_sigs(parts) >= 0,
        batch::total_sigs(parts) == 0 ==> forall|i: int|
            0 <= i < parts.len() ==> (#[trigger] parts[i]).sig_count == 0,
    decreases parts.len(),
{
    if parts.len() > 0 {
        let front = parts.drop_last();
        assert(forall|i: int| 0 <= i < front.len() ==> front[i] == parts[i]);
        lemma_whole_pairs(front);
        assert forall|i: int| 0 <= i < parts.len() && batch::total_sigs(parts) == 0 implies (
        #[trigger] parts[i]).sig_count == 0 by {
            if i < front.len() {
                assert(front[i].sig_count == 0);
            }
        }
    }
}

/// Every packet has its place in each of the arrays, and the arrays hold the signatures that are
/// counted and as many keys.
pub proof fn law_array_sizes(packets: Seq<Packet>, reject_non_vote: bool)
    ensures
        ({
            let batch = batch::batch_of(batch::contributions(packets, reject_non_vote));
            &&& batch.signatures.len() == 64 * batch.total_signatures
            &&& batch.pubkeys.len() == 32 * batch.total_signatures
            &&& batch.msg_offsets.len() == packets.len()
            &&& batch.msg_sizes.len() == packets.len()
            &&& batch.sig_array_offsets.len() == packets.len()
            &&& batch.sig_counts.len() == packets.len()
            &&& batch.packet_ok.len() == packets.len()
        }),
{
    let parts = batch::contributions(packets, reject_non_vote);
    lemma_contributions_whole(packets, reject_non_vote);
    lemma_whole_pairs(parts);
}

/// What part `i` adds stands behind what the parts before it add.
proof fn lemma_part_stands_behind(parts: Seq<Contribution>, i: int)
    requires
        0 <= i < parts.len(),
    ensures
        ({
            let before = parts.take(i);
            let start = batch::all_signatures(before).len() as int;
            &&& start + parts[i].signatures.len() <= batch::all_signatures(parts).len()
            &&& batch::all_signatures(parts).subrange(start, start + parts[i].signatures.len())
                == parts[i].signatures
        }),
        ({
            let before = parts.take(i);
            let start = batch::all_pubkeys(before).len() as int;
            &&& start + parts[i].pubkeys.len() <= batch::all_pubkeys(parts).len()
            &&& batch::all_pubkeys(parts).subrange(start, start + parts[i].pubkeys.len())
                == parts[i].pubkeys
        }),
        ({
            let before = parts.take(i);
            let start = batch::all_messages(before).len() as int;
            &&& start + parts[i].message.len() <= batch::all_messages(parts).len()
            &&& batch::all_messages(parts).subrange(start, start + parts[i].message.len())
                == parts[i].message
        }),
    decreases parts.len(),
{
    let front = parts.drop_last();
    if i == parts.len() - 1 {
        assert(parts.take(i) =~= front);
    } else {
        lemma_part_stands_behind(front, i);
        assert(front.take(i) =~= parts.take(i));
    }
    let sigs = batch::all_signatures(parts.take(i)).len() as int;
    assert(batch::all_signatures(parts).subrange(sigs, sigs + parts[i].signatures.len())
        =~= parts[i].signatures) by {
        if i < parts.len() - 1 {
            assert(batch::all_signatures(parts).subrange(sigs, sigs + parts[i].signatures.len())
                =~= batch::all_signatures(front).subrange(sigs, sigs + parts[i].signatures.len()));
        }
    }
    let keys = batch::all_pubkeys(parts.take(i)).len() as int;
    assert(batch::all_pubkeys(parts).subrange(keys, keys + parts[i].pubkeys.len())
        =~= parts[i].pubkeys) by {
        if i < parts.len() - 1 {
            assert(batch::all_pubkeys(parts).subrange(keys, keys + parts[i].pubkeys.len())
                =~= batch::all_pubkeys(front).subrange(keys, keys + parts[i].pubkeys.len()));
        }
    }
    let text = batch::all_messages(parts.take(i)).len() as int;
    assert(batch::all_messages(parts).subrange(text, text + parts[i].message.len())
        =~= parts[i].message) by {
        if i < parts.len() - 1 {
            assert(batch::all_messages(parts).subrange(text, text + parts[i].message.len())
                =~= batch::all_messages(front).subrange(text, text + parts[i].message.len()));
        }
    }
}

/// Where the arrays say that part `i` is, it is.
proof fn lemma_part_is_found(parts: Seq<Contribution>, i: int)
    requires
        0 <= i < parts.len(),
        forall|j: int| 0 <= j < parts.len() ==> whole_pairs(#[trigger] parts[j]),
        batch::all_messages(parts.take(i)).len() < 0x1_0000_0000,
        batch::total_sigs(parts.take(i)) < 0x1_0000_0000,
    ensures
        ({
            let batch = batch::batch_of(parts);
            let first = batch.sig_array_offsets[i];
            let behind = first + batch.sig_counts[i];
            let text = batch.msg_offsets[i];
            &&& 64 * behind <= batch.signatures.len()
            &&& batch.signatures.subrange(64 * first, 64 * behind) == parts[i].signatures
            &&& 32 * behind <= batch.pubkeys.len()
            &&& batch.pubkeys.subrange(32 * first, 32 * behind) == parts[i].pubkeys
            &&& text + batch.msg_sizes[i] <= batch.messages.len()
            &&& batch.messages.subrange(text as int, text + batch.msg_sizes[i])
                == parts[i].message
        }),
{
    let before = parts.take(i);
    assert(forall|j: int| 0 <= j < before.len() ==> before[j] == parts[j]);
    lemma_whole_pairs(before);
    lemma_part_stands_behind(parts, i);
    assert(whole_pairs(parts[i]));
}

/// The device finds each packet's signatures, keys and message where the arrays say that they
/// are, as long as what stands before them can be counted in 32 bits.
pub proof fn law_the_device_finds_each_packet(packets: Seq<Packet>, reject_non_vote: bool, i: int)
    requires
        0 <= i < packets.len(),
        batch::all_messages(batch::contributions(packets, reject_non_vote).take(i)).len()
            < 0x1_0000_0000,
        batch::total_sigs(batch::contributions(packets, reject_non_vote).take(i)) < 0x1_0000_0000,
    ensures
        ({
            let batch = batch::batch_of(batch::contributions(packets, reject_non_vote));
            let part = batch::contribution(packets[i], reject_non_vote);
            let first = batch.sig_array_offsets[i];
            let behind = first + batch.sig_counts[i];
            let text = batch.msg_offsets[i];
            &&& 64 * behind <= batch.signatures.len()
            &&& batch.signatures.subrange(64 * first, 64 * behind) == part.signatures
            &&& 32 * behind <= batch.pubkeys.len()
            &&& batch.pubkeys.subrange(32 * first, 32 * behind) == part.pubkeys
            &&& text + batch.msg_sizes[i] <= batch.messages.len()
            &&& batch.messages.subrange(text as int, text + batch.msg_sizes[i]) == part.message
        }),
{
    lemma_contributions_whole(packets, reject_non_vote);
    lemma_part_is_found(batch::contributions(packets, reject_non_vote), i);
}

/// Where there is no signature to verify, no packet passes, so the device need not be asked.
pub proof fn law_no_signature_no_pass(packets: Seq<Packet>, reject_non_vote: bool, i: int)
    requires
        0 <= i < packets.len(),
        batch::total_sigs(batch::contributions(packets, reject_non_vote)) == 0,
    ensures
        !batch::batch_of(batch::contributions(packets, reject_non_vote)).packet_ok[i],
{
    let parts = batch::contributions(packets, reject_non_vote);
    lemma_contributions_whole(packets, reject_non_vote);
    lemma_whole_pairs(parts);
    law_packets_add_whole_pairs(packets[i], reject_non_vote);
    assert(parts[i].sig_count == 0);
}

/// A packet passes exactly where a transaction is found in it, it is marked as a simple vote if
/// only those may pass, the device has not failed, and the device's byte for it is not zero.
pub proof fn law_what_passes(
    packets: Seq<Packet>,
    reject_non_vote: bool,
    code: i32,
    results: Seq<u8>,
    i: int,
)
    requires
        0 <= i < packets.len(),
    ensures
        batch::verdicts(
            batch::batch_of(batch::contributions(packets, reject_non_vote)).packet_ok,
            code,
            results,
        )[i] <==> {
            &&& packet::packet_layout(packets[i]) is Ok
            &&& !reject_non_vote || packet::screened(packets[i], 0).meta.is_simple_vote()
            &&& code == 0
            &&& i < results.len()
            &&& results[i] != 0
        },
{
    law_which_packets_can_pass(packets[i], reject_non_vote);
}

/// Where the device fails, no packet passes.
pub proof fn law_a_failed_device_passes_nothing(
    packet_ok: Seq<bool>,
    code: i32,
    results: Seq<u8>,
    i: int,
)
    requires
        code != 0,
        0 <= i < packet_ok.len(),
    ensures
        !batch::verdicts(packet_ok, code, results)[i],
{
}

/// A packet is judged by itself: what stands around it in the row has no bearing on whether it can
/// pass, nor on how many signatures and how much of a message it adds.
pub proof fn law_packets_are_judged_alone(
    row: Seq<Packet>,
    other: Seq<Packet>,
    reject_non_vote: bool,
    i: int,
    j: int,
)
    requires
        0 <= i < row.len(),
        0 <= j < other.len(),
        row[i] == other[j],
    ensures
        ({
            let left = batch::batch_of(batch::contributions(row, reject_non_vote));
            let right = batch::batch_of(batch::contributions(other, reject_non_vote));
            &&& left.packet_ok[i] == right.packet_ok[j]
            &&& left.sig_counts[i] == right.sig_counts[j]
            &&& left.msg_sizes[i] == right.msg_sizes[j]
        }),
{
}

/// Whether signature `k` of `signatures` is right for key `k` of `pubkeys` and `message`, if
/// `right` says so of a signature, a key and a message.
pub open spec fn pair_is_right(
    right: spec_fn(Seq<u8>, Seq<u8>, Seq<u8>) -> bool,
    signatures: Seq<u8>,
    pubkeys: Seq<u8>,
    message: Seq<u8>,
    k: int,
) -> bool {
    right(
        signatures.subrange(64 * k, 64 * k + 64),
        pubkeys.subrange(32 * k, 32 * k + 32),
        message,
    )
}

/// Whether the first `count` signatures are right.
pub open spec fn all_right(
    right: spec_fn(Seq<u8>, Seq<u8>, Seq<u8>) -> bool,
    signatures: Seq<u8>,
    pubkeys: Seq<u8>,
    message: Seq<u8>,
    count: int,
) -> bool {
    forall|k: int|
        0 <= k < count ==> #[trigger] pair_is_right(right, signatures, pubkeys, message, k)
}

/// Whether the device's byte for packet `i` is not zero exactly where all signatures are right
/// that the arrays hold for it.
pub open spec fn device_is_right(
    right: spec_fn(Seq<u8>, Seq<u8>, Seq<u8>) -> bool,
    batch: BatchView,
    results: Seq<u8>,
    i: int,
) -> bool {
    let first = batch.sig_array_offsets[i];
    let behind = first + batch.sig_counts[i];
    let text = batch.msg_offsets[i];
    i < results.len() && (results[i] != 0 <==> all_right(
        right,
        batch.signatures.subrange(64 * first, 64 * behind),
        batch.pubkeys.subrange(32 * first, 32 * behind),
        batch.messages.subrange(text as int, text + batch.msg_sizes[i]),
        batch.sig_counts[i] as int,
    ))
}

/// With a device that judges what it is given rightly, a packet with a transaction passes exactly
/// where all signatures of that transaction are right for its first account keys and its message
/// and, with `reject_non_vote`, the packet is marked as a simple vote.
pub proof fn law_right_signatures_pass(
    right: spec_fn(Seq<u8>, Seq<u8>, Seq<u8>) -> bool,
    packets: Seq<Packet>,
    reject_non_vote: bool,
    results: Seq<u8>,
    i: int,
    transaction: Transaction,
)
    requires
        0 <= i < packets.len(),
        transaction.well_formed(),
        packets[i].payload() == Some(transaction.bytes()),
        batch::all_messages(batch::contributions(packets, reject_non_vote).take(i)).len()
            < 0x1_0000_0000,
        batch::total_sigs(batch::contributions(packets, reject_non_vote).take(i)) < 0x1_0000_0000,
        device_is_right(
            right,
            batch::batch_of(batch::contributions(packets, reject_non_vote)),
            results,
            i,
        ),
    ensures
        batch::verdicts(
            batch::batch_of(batch::contributions(packets, reject_non_vote)).packet_ok,
            0,
            results,
        )[i] <==> {
            &&& !reject_non_vote || packet::screened(packets[i], 0).meta.is_simple_vote()
            &&& all_right(
                right,
                transaction.signatures,
                transaction.pubkeys,
                transaction.message(),
                transaction.required_signatures as int,
            )
        },
{
    let parts = batch::contributions(packets, reject_non_vote);
    law_transactions_are_found(packets[i], transaction);
    law_what_passes(packets, reject_non_vote, 0, results, i);
    lemma_contributions_whole(packets, reject_non_vote);
    lemma_judged_by_its_part(right, parts, results, i);
    if !reject_non_vote || packet::screened(packets[i], 0).meta.is_simple_vote() {
        lemma_transaction_part(packets[i], reject_non_vote, transaction);
        lemma_first_keys(
            right,
            transaction.signatures,
            transaction.pubkeys,
            transaction.message(),
            transaction.required_signatures as int,
        );
    }
}

/// A device that judges rightly what the arrays hold for part `i` judges that part.
proof fn lemma_judged_by_its_part(
    right: spec_fn(Seq<u8>, Seq<u8>, Seq<u8>) -> bool,
    parts: Seq<Contribution>,
    results: Seq<u8>,
    i: int,
)
    requires
        0 <= i < parts.len(),
        forall|j: int| 0 <= j < parts.len() ==> whole_pairs(#[trigger] parts[j]),
        batch::all_messages(parts.take(i)).len() < 0x1_0000_0000,
        batch::total_sigs(parts.take(i)) < 0x1_0000_0000,
        device_is_right(right, batch::batch_of(parts), results, i),
    ensures
        i < results.len(),
        results[i] != 0 <==> all_right(
            right,
            parts[i].signatures,
            parts[i].pubkeys,
            parts[i].message,
            parts[i].sig_count,
        ),
{
    lemma_part_is_found(parts, i);
    assert(whole_pairs(parts[i]));
}

/// Keys behind the first `count` have no bearing on the first `count` signatures.
proof fn lemma_first_keys(
    right: spec_fn(Seq<u8>, Seq<u8>, Seq<u8>) -> bool,
    signatures: Seq<u8>,
    pubkeys: Seq<u8>,
    message: Seq<u8>,
    count: int,
)
    requires
        0 <= count,
        32 * count <= pubkeys.len(),
    ensures
        all_right(right, signatures, pubkeys.take(32 * count), message, count) <==> all_right(
            right,
            signatures,
            pubkeys,
            message,
            count,
        ),
{
    let first = pubkeys.take(32 * count);
    assert forall|k: int| 0 <= k < count implies pair_is_right(
        right,
        signatures,
        first,
        message,
        k,
    ) == #[trigger] pair_is_right(right, signatures, pubkeys, message, k) by {
        assert(first.subrange(32 * k, 32 * k + 32) =~= pubkeys.subrange(32 * k, 32 * k + 32));
    }
    if all_right(right, signatures, first, message, count) {
        assert forall|k: int| 0 <= k < count implies #[trigger] pair_is_right(
            right,
            signatures,
            pubkeys,
            message,
            k,
        ) by {
            assert(pair_is_right(right, signatures, first, message, k));
        }
    }
    if all_right(right, signatures, pubkeys, message, count) {
        assert forall|k: int| 0 <= k < count implies #[trigger] pair_is_right(
            right,
            signatures,
            first,
            message,
            k,
        ) by {
            assert(pair_is_right(right, signatures, pubkeys, message, k));
        }
    }
}

/// What a packet with `transaction` adds, where it is accepted.
proof fn lemma_transaction_part(packet: Packet, reject_non_vote: bool, transaction: Transaction)
    requires
        transaction.well_formed(),
        packet.payload() == Some(transaction.bytes()),
        !reject_non_vote || packet::screened(packet, 0).meta.is_simple_vote(),
    ensures
        ({
            let part = batch::contribution(packet, reject_non_vote);
            let count = transaction.required_signatures as int;
            &&& part.sig_count == count
            &&& part.signatures == transaction.signatures
            &&& part.pubkeys == transaction.pubkeys.take(32 * count)
            &&& part.message == transaction.message()
        }),
{
    let data = transaction.bytes();
    let layout = layout_of(transaction);
    let count = transaction.required_signatures as int;
    law_transactions_are_found(packet, transaction);
    lemma_transaction_bytes(transaction);
    assert(data.skip(layout.msg_start) =~= transaction.message());
    assert(data.subrange(layout.pubkey_start, layout.pubkey_start + 32 * count)
        =~= transaction.pubkeys.take(32 * count));
}

} // verus!
