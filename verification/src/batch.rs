//! Batches: what the device reads of a row of packets, and what it reports back.

use vstd::prelude::*;
use crate::laws;
use crate::outside::{packet_data_size, pubkey_size, signature_size};
use crate::packet;
use crate::packet::{get_packet_offsets, Packet, PacketOffsets};

verus! {

/// What one packet adds to a batch.
#[verifier::ext_equal]
pub struct Contribution {
    /// Whether the packet can pass: it can where there is something to verify.
    pub ok: bool,
    /// 64 bytes for each signature.
    pub signatures: Seq<u8>,
    /// 32 bytes for each signature: the key to verify it with.
    pub pubkeys: Seq<u8>,
    /// What has been signed.
    pub message: Seq<u8>,
    pub sig_count: int,
}

/// What a packet adds that cannot pass.
pub open spec fn nothing() -> Contribution {
    Contribution {
        ok: false,
        signatures: Seq::empty(),
        pubkeys: Seq::empty(),
        message: Seq::empty(),
        sig_count: 0,
    }
}

/// What `packet` adds to a batch: all signatures of its transaction, as many account keys from
/// the front, and the message up to the end of the packet.
pub open spec fn contribution(packet: Packet, reject_non_vote: bool) -> Contribution {
    let offsets = packet::accepted_offsets(packet, 0, reject_non_vote);
    match packet.payload() {
        Some(data) if offsets.sig_len != 0 => Contribution {
            ok: true,
            signatures: data.subrange(offsets.sig_start as int, offsets.msg_start as int),
            pubkeys: data.subrange(
                offsets.pubkey_start as int,
                offsets.pubkey_start + 32 * offsets.sig_len,
            ),
            message: data.skip(offsets.msg_start as int),
            sig_count: offsets.sig_len as int,
        },
        _ => nothing(),
    }
}

/// What each of `packets` adds to a batch.
pub open spec fn contributions(packets: Seq<Packet>, reject_non_vote: bool) -> Seq<Contribution> {
    packets.map_values(|packet: Packet| contribution(packet, reject_non_vote))
}

/// The signatures of all `parts`, one behind the other.
pub open spec fn all_signatures(parts: Seq<Contribution>) -> Seq<u8>
    decreases parts.len(),
{
    if parts.len() == 0 {
        Seq::empty()
    } else {
        all_signatures(parts.drop_last()) + parts.last().signatures
    }
}

/// The keys of all `parts`, one behind the other.
pub open spec fn all_pubkeys(parts: Seq<Contribution>) -> Seq<u8>
    decreases parts.len(),
{
    if parts.len() == 0 {
        Seq::empty()
    } else {
        all_pubkeys(parts.drop_last()) + parts.last().pubkeys
    }
}

/// The messages of all `parts`, one behind the other.
pub open spec fn all_messages(parts: Seq<Contribution>) -> Seq<u8>
    decreases parts.len(),
{
    if parts.len() == 0 {
        Seq::empty()
    } else {
        all_messages(parts.drop_last()) + parts.last().message
    }
}

/// How many signatures `parts` hold together.
pub open spec fn total_sigs(parts: Seq<Contribution>) -> int
    decreases parts.len(),
{
    if parts.len() == 0 {
        0
    } else {
        total_sigs(parts.drop_last()) + parts.last().sig_count
    }
}

/// `n` in the 32 bits that the device has for a position.
pub open spec fn low32(n: int) -> u32 {
    (n % 0x1_0000_0000) as u32
}

/// What a batch holds.
#[verifier::ext_equal]
pub struct BatchView {
    pub signatures: Seq<u8>,
    pub pubkeys: Seq<u8>,
    pub messages: Seq<u8>,
    pub msg_offsets: Seq<u32>,
    pub msg_sizes: Seq<u32>,
    pub sig_array_offsets: Seq<u32>,
    pub sig_counts: Seq<u32>,
    pub packet_ok: Seq<bool>,
    pub total_signatures: int,
}

/// The batch of `parts`.
pub open spec fn batch_of(parts: Seq<Contribution>) -> BatchView {
    BatchView {
        signatures: all_signatures(parts),
        pubkeys: all_pubkeys(parts),
        messages: all_messages(parts),
        msg_offsets: Seq::new(parts.len(), |i: int| low32(all_messages(parts.take(i)).len() as int)),
        msg_sizes: Seq::new(parts.len(), |i: int| parts[i].message.len() as u32),
        sig_array_offsets: Seq::new(parts.len(), |i: int| low32(total_sigs(parts.take(i)))),
        sig_counts: Seq::new(parts.len(), |i: int| parts[i].sig_count as u32),
        packet_ok: Seq::new(parts.len(), |i: int| parts[i].ok),
        total_signatures: total_sigs(parts),
    }
}

impl BatchView {
    /// The batch with one more packet, which adds `part`.
    spec fn plus(self, part: Contribution) -> BatchView {
        BatchView {
            signatures: self.signatures + part.signatures,
            pubkeys: self.pubkeys + part.pubkeys,
            messages: self.messages + part.message,
            msg_offsets: self.msg_offsets.push(low32(self.messages.len() as int)),
            msg_sizes: self.msg_sizes.push(part.message.len() as u32),
            sig_array_offsets: self.sig_array_offsets.push(low32(self.total_signatures)),
            sig_counts: self.sig_counts.push(part.sig_count as u32),
            packet_ok: self.packet_ok.push(part.ok),
            total_signatures: self.total_signatures + part.sig_count,
        }
    }

    /// Every signature that is counted is there.
    spec fn covers_count(self) -> bool {
        64 * self.total_signatures <= self.signatures.len()
    }
}

/// The batch of `parts` and one more is the batch of `parts` with that one added.
proof fn lemma_batch_push(parts: Seq<Contribution>, part: Contribution)
    ensures
        batch_of(parts.push(part)) == batch_of(parts).plus(part),
{
    let longer = parts.push(part);
    assert(longer.drop_last() =~= parts);
    assert(longer.take(parts.len() as int) =~= parts);
    assert forall|i: int| 0 <= i < parts.len() implies #[trigger] longer.take(i) == parts.take(
        i,
    ) by {
        assert(longer.take(i) =~= parts.take(i));
    }
    assert(batch_of(longer) =~= batch_of(parts).plus(part));
}

/// The arrays that the device reads. It finds the signatures of packet `i` from signature
/// `sig_array_offsets[i]` on, `sig_counts[i]` of them, their keys at the same places in `pubkeys`,
/// and the message that they sign at byte `msg_offsets[i]`, `msg_sizes[i]` bytes long.
#[derive(Debug, PartialEq, Eq)]
pub struct Batch {
    /// All signatures, 64 bytes each.
    pub signatures: Vec<u8>,
    /// All keys, 32 bytes each.
    pub pubkeys: Vec<u8>,
    /// All messages, one behind the other.
    pub messages: Vec<u8>,
    pub msg_offsets: Vec<u32>,
    pub msg_sizes: Vec<u32>,
    pub sig_array_offsets: Vec<u32>,
    pub sig_counts: Vec<u32>,
    /// Which packets can pass.
    pub packet_ok: Vec<bool>,
    pub total_signatures: usize,
}

impl View for Batch {
    type V = BatchView;

    open spec fn view(&self) -> BatchView {
        BatchView {
            signatures: self.signatures@,
            pubkeys: self.pubkeys@,
            messages: self.messages@,
            msg_offsets: self.msg_offsets@,
            msg_sizes: self.msg_sizes@,
            sig_array_offsets: self.sig_array_offsets@,
            sig_counts: self.sig_counts@,
            packet_ok: self.packet_ok@,
            total_signatures: self.total_signatures as int,
        }
    }
}

/// The signatures and keys that are read of `data`, `count` of each: signatures from `sig_start`
/// on, keys from `pubkey_start` on. Reading ends where either runs out.
spec fn read_pairs(data: Seq<u8>, sig_start: int, pubkey_start: int, count: int) -> (
    Seq<u8>,
    Seq<u8>,
    int,
)
    decreases count,
{
    if count <= 0 || sig_start + 64 > data.len() {
        (Seq::empty(), Seq::empty(), 0)
    } else if pubkey_start + 32 > data.len() {
        (data.subrange(sig_start, sig_start + 64), Seq::empty(), 0)
    } else {
        let rest = read_pairs(data, sig_start + 64, pubkey_start + 32, count - 1);
        (
            data.subrange(sig_start, sig_start + 64) + rest.0,
            data.subrange(pubkey_start, pubkey_start + 32) + rest.1,
            1 + rest.2,
        )
    }
}

/// What a packet adds whose transaction stands at `offsets`, wherever those point.
spec fn read_transaction(packet: Packet, offsets: PacketOffsets) -> Contribution {
    match packet.payload() {
        Some(data) if offsets.msg_start < data.len() => {
            let pairs = read_pairs(
                data,
                offsets.sig_start as int,
                offsets.pubkey_start as int,
                offsets.sig_len as int,
            );
            Contribution {
                ok: pairs.2 == offsets.sig_len,
                signatures: pairs.0,
                pubkeys: pairs.1,
                message: data.skip(offsets.msg_start as int),
                sig_count: pairs.2,
            }
        },
        _ => nothing(),
    }
}

/// Each pair that is counted brings a signature and a key; no more are counted than asked for.
proof fn lemma_read_pairs_len(data: Seq<u8>, sig_start: int, pubkey_start: int, count: int)
    requires
        0 <= sig_start,
        0 <= pubkey_start,
        0 <= count,
    ensures
        ({
            let pairs = read_pairs(data, sig_start, pubkey_start, count);
            &&& 0 <= pairs.2 <= count
            &&& pairs.0.len() >= 64 * pairs.2
            &&& pairs.1.len() == 32 * pairs.2
        }),
    decreases count,
{
    if count > 0 && sig_start + 64 <= data.len() && pubkey_start + 32 <= data.len() {
        lemma_read_pairs_len(data, sig_start + 64, pubkey_start + 32, count - 1);
    }
}

/// Where all signatures and keys are there, they are read as they stand.
proof fn lemma_read_pairs_whole(data: Seq<u8>, sig_start: int, pubkey_start: int, count: int)
    requires
        0 <= sig_start,
        0 <= pubkey_start,
        0 <= count,
        sig_start + 64 * count <= data.len(),
        pubkey_start + 32 * count <= data.len(),
    ensures
        read_pairs(data, sig_start, pubkey_start, count) == (
            data.subrange(sig_start, sig_start + 64 * count),
            data.subrange(pubkey_start, pubkey_start + 32 * count),
            count,
        ),
    decreases count,
{
    if count == 0 {
        assert(data.subrange(sig_start, sig_start) =~= Seq::empty());
        assert(data.subrange(pubkey_start, pubkey_start) =~= Seq::empty());
    } else {
        lemma_read_pairs_whole(data, sig_start + 64, pubkey_start + 32, count - 1);
        assert(data.subrange(sig_start, sig_start + 64 * count) =~= data.subrange(
            sig_start,
            sig_start + 64,
        ) + data.subrange(sig_start + 64, sig_start + 64 * count));
        assert(data.subrange(pubkey_start, pubkey_start + 32 * count) =~= data.subrange(
            pubkey_start,
            pubkey_start + 32,
        ) + data.subrange(pubkey_start + 32, pubkey_start + 32 * count));
    }
}

/// A packet adds what is read at its offsets, and nothing where these are zero.
proof fn lemma_contribution(packet: Packet, reject_non_vote: bool)
    ensures
        ({
            let offsets = packet::accepted_offsets(packet, 0, reject_non_vote);
            contribution(packet, reject_non_vote) == if offsets.sig_len == 0 {
                nothing()
            } else {
                read_transaction(packet, offsets)
            }
        }),
{
    let offsets = packet::accepted_offsets(packet, 0, reject_non_vote);
    if offsets.sig_len != 0 {
        laws::law_offsets_stay_inside(packet, 0);
        lemma_read_pairs_whole(
            packet.payload().unwrap(),
            offsets.sig_start as int,
            offsets.pubkey_start as int,
            offsets.sig_len as int,
        );
    }
}

/// Appends `bytes` to `buffer`.
fn append(buffer: &mut Vec<u8>, bytes: &[u8])
    ensures
        final(buffer)@ == old(buffer)@ + bytes@,
{
    buffer.extend_from_slice(bytes);
    assert(buffer@ =~= old(buffer)@ + bytes@);
}

/// The low 32 bits of `n`.
fn low32_of(n: usize) -> (low: u32)
    ensures
        low == low32(n as int),
{
    let m: u64 = n as u64;
    assert(m as u32 == m % 0x1_0000_0000) by (bit_vector);
    m as u32
}

impl Batch {
    fn new() -> (batch: Batch)
        ensures
            batch@ == batch_of(Seq::empty()),
    {
        let batch = Batch {
            signatures: Vec::new(),
            pubkeys: Vec::new(),
            messages: Vec::new(),
            msg_offsets: Vec::new(),
            msg_sizes: Vec::new(),
            sig_array_offsets: Vec::new(),
            sig_counts: Vec::new(),
            packet_ok: Vec::new(),
            total_signatures: 0,
        };
        assert(batch@ =~= batch_of(Seq::empty()));
        batch
    }

    /// Adds a packet that cannot pass. It takes a place in the arrays so that packets keep their
    /// indices.
    fn push_nothing(&mut self)
        ensures
            final(self)@ == old(self)@.plus(nothing()),
    {
        self.packet_ok.push(false);
        self.msg_offsets.push(low32_of(self.messages.len()));
        self.msg_sizes.push(0);
        self.sig_array_offsets.push(low32_of(self.total_signatures));
        self.sig_counts.push(0);
        assert(self@ =~= old(self)@.plus(nothing()));
    }

    /// Adds a packet whose transaction stands at `offsets`.
    fn push_transaction(&mut self, packet: &Packet, offsets: &PacketOffsets)
        requires
            old(self)@.covers_count(),
        ensures
            final(self)@ == old(self)@.plus(read_transaction(*packet, *offsets)),
            final(self)@.covers_count(),
    {
        let ghost part = read_transaction(*packet, *offsets);
        let msg_start: usize = offsets.msg_start as usize;
        if packet.meta.size <= msg_start {
            self.push_nothing();
            return;
        }
        let msg_end: usize = if packet.meta.size < packet_data_size() {
            packet.meta.size
        } else {
            packet_data_size()
        };
        let message = match packet.data_range(msg_start, msg_end) {
            Some(message) => message,
            None => {
                self.push_nothing();
                return;
            },
        };
        let ghost data = packet.payload().unwrap();
        self.msg_offsets.push(low32_of(self.messages.len()));
        append(&mut self.messages, message);
        self.msg_sizes.push(message.len() as u32);
        self.sig_array_offsets.push(low32_of(self.total_signatures));

        let mut sig_start: usize = offsets.sig_start as usize;
        let mut pubkey_start: usize = offsets.pubkey_start as usize;
        let mut sig_count: u32 = 0;
        proof {
            lemma_read_pairs_len(
                data,
                offsets.sig_start as int,
                offsets.pubkey_start as int,
                offsets.sig_len as int,
            );
        }
        let ghost all = read_pairs(
            data,
            offsets.sig_start as int,
            offsets.pubkey_start as int,
            offsets.sig_len as int,
        );
        let ghost signatures0 = self.signatures@;
        let ghost pubkeys0 = self.pubkeys@;
        while sig_count < offsets.sig_len
            invariant_except_break
                sig_count <= offsets.sig_len,
                ({
                    let rest = read_pairs(
                        data,
                        sig_start as int,
                        pubkey_start as int,
                        offsets.sig_len - sig_count,
                    );
                    &&& signatures0 + all.0 == self.signatures@ + rest.0
                    &&& pubkeys0 + all.1 == self.pubkeys@ + rest.1
                    &&& all.2 == sig_count + rest.2
                }),
            invariant
                packet.payload() == Some(data),
                self.messages@ == old(self).messages@ + message@,
                self.msg_offsets@ == old(self).msg_offsets@.push(
                    low32(old(self).messages@.len() as int),
                ),
                self.msg_sizes@ == old(self).msg_sizes@.push(message@.len() as u32),
                self.sig_array_offsets@ == old(self).sig_array_offsets@.push(
                    low32(old(self).total_signatures as int),
                ),
                self.sig_counts@ == old(self).sig_counts@,
                self.packet_ok@ == old(self).packet_ok@,
                self.total_signatures == old(self).total_signatures,
            ensures
                signatures0 + all.0 == self.signatures@,
                pubkeys0 + all.1 == self.pubkeys@,
                all.2 == sig_count,
            decreases offsets.sig_len - sig_count,
        {
            let sig_end: usize = match sig_start.checked_add(signature_size()) {
                Some(end) => end,
                None => break,
            };
            let sig_bytes = match packet.data_range(sig_start, sig_end) {
                Some(bytes) => bytes,
                None => break,
            };
            append(&mut self.signatures, sig_bytes);

            let pubkey_end: usize = pubkey_start.saturating_add(pubkey_size());
            let pubkey_bytes = match packet.data_range(pubkey_start, pubkey_end) {
                Some(bytes) => bytes,
                None => break,
            };
            append(&mut self.pubkeys, pubkey_bytes);

            sig_start = sig_end;
            pubkey_start = pubkey_end;
            sig_count = sig_count + 1;
        }
        assert(64 * (self.total_signatures + sig_count) <= self.signatures.len());
        self.packet_ok.push(sig_count == offsets.sig_len);
        self.sig_counts.push(sig_count);
        self.total_signatures = self.total_signatures + sig_count as usize;
        assert(self@ =~= old(self)@.plus(part));
    }

    /// Adds `packet` to the batch, and marks it if it carries a simple vote.
    fn push_packet(&mut self, packet: &mut Packet, reject_non_vote: bool)
        requires
            old(self)@.covers_count(),
        ensures
            final(self)@ == old(self)@.plus(contribution(*old(packet), reject_non_vote)),
            final(self)@.covers_count(),
            *final(packet) == packet::screened(*old(packet), 0),
    {
        proof {
            lemma_contribution(*packet, reject_non_vote);
            laws::law_only_the_vote_flag_changes(*packet, 0);
        }
        if packet.meta.discard() {
            self.push_nothing();
            return;
        }
        let offsets = get_packet_offsets(packet, 0, reject_non_vote);
        if offsets.sig_len == 0 {
            self.push_nothing();
            return;
        }
        self.push_transaction(packet, &offsets);
    }
}

/// Lays out what is to be verified of `packets`, and marks those that carry a simple vote. With
/// `reject_non_vote` none of the others can pass.
pub fn gather(packets: &mut [Packet], reject_non_vote: bool) -> (batch: Batch)
    ensures
        batch@ == batch_of(contributions(old(packets)@, reject_non_vote)),
        final(packets)@ == old(packets)@.map_values(
            |packet: Packet| packet::screened(packet, 0),
        ),
        final(packets)@.len() == old(packets)@.len(),
        batch.msg_offsets@.len() == old(packets)@.len(),
        batch.msg_sizes@.len() == old(packets)@.len(),
        batch.sig_array_offsets@.len() == old(packets)@.len(),
        batch.sig_counts@.len() == old(packets)@.len(),
        batch.packet_ok@.len() == old(packets)@.len(),
{
    let mut batch = Batch::new();
    let ghost before = packets@;
    let ghost parts = contributions(before, reject_non_vote);
    let count: usize = packets.len();
    let mut i: usize = 0;
    assert(parts.take(0) =~= Seq::empty());
    while i < count
        invariant
            i <= count,
            count == before.len(),
            packets@.len() == count,
            before == old(packets)@,
            parts == contributions(before, reject_non_vote),
            batch@ == batch_of(parts.take(i as int)),
            batch@.covers_count(),
            forall|j: int| 0 <= j < i ==> #[trigger] packets@[j] == packet::screened(before[j], 0),
            forall|j: int| i <= j < count ==> #[trigger] packets@[j] == before[j],
        decreases count - i,
    {
        proof {
            lemma_batch_push(parts.take(i as int), parts[i as int]);
            assert(parts.take(i + 1) =~= parts.take(i as int).push(parts[i as int]));
        }
        batch.push_packet(&mut packets[i], reject_non_vote);
        i += 1;
    }
    assert(parts.take(count as int) =~= parts);
    assert(packets@ =~= before.map_values(|packet: Packet| packet::screened(packet, 0)));
    batch
}

/// The verdicts once the device has reported `code` and `results`. Where `code` is not zero the
/// device has failed, and nothing passes. `results` has a byte for each packet, zero where a
/// signature is wrong; a byte that the device has not written counts as zero.
pub open spec fn verdicts(packet_ok: Seq<bool>, code: i32, results: Seq<u8>) -> Seq<bool> {
    Seq::new(
        packet_ok.len(),
        |i: int| packet_ok[i] && code == 0 && i < results.len() && results[i] != 0,
    )
}

/// Turns what the device reports of a batch into one verdict for each packet. `packet_ok` says
/// which packets of the batch can pass.
pub fn settle(packet_ok: Vec<bool>, code: i32, results: &[u8]) -> (passed: Vec<bool>)
    ensures
        passed@ == verdicts(packet_ok@, code, results@),
        passed@.len() == packet_ok@.len(),
        forall|i: int|
            0 <= i < packet_ok@.len() ==> (#[trigger] passed@[i] <==> packet_ok@[i] && code == 0 && i
                < results@.len() && results@[i] != 0),
{
    let mut passed: Vec<bool> = packet_ok;
    let count: usize = passed.len();
    let mut i: usize = 0;
    while i < count
        invariant
            i <= count,
            count == packet_ok@.len(),
            passed@.len() == count,
            forall|j: int|
                0 <= j < i ==> #[trigger] passed@[j] == verdicts(packet_ok@, code, results@)[j],
            forall|j: int| i <= j < count ==> #[trigger] passed@[j] == packet_ok@[j],
        decreases count - i,
    {
        if code != 0 || i >= results.len() || results[i] == 0 {
            passed[i] = false;
        }
        i += 1;
    }
    assert(passed@ =~= verdicts(packet_ok@, code, results@));
    passed
}

/// Verifies the signatures of `packets` on the device, marks the packets that carry a simple
/// vote, and says of each packet whether it passed. With `reject_non_vote` none of the others
/// does.
///
/// `run_device` hands a batch to the device, and returns the device's status code and the result
/// bytes. It is not called where there is no signature to verify.
pub fn ed25519_verify_fpga_batch<F: FnOnce(&Batch) -> (i32, Vec<u8>)>(
    packets: &mut [Packet],
    reject_non_vote: bool,
    run_device: F,
) -> (passed: Vec<bool>)
    requires
        total_sigs(contributions(old(packets)@, reject_non_vote)) != 0 ==> forall|batch: &Batch|
            batch@ == batch_of(contributions(old(packets)@, reject_non_vote))
                ==> #[trigger] call_requires(run_device, (batch,)),
    ensures
        passed@.len() == old(packets)@.len(),
        final(packets)@.len() == old(packets)@.len(),
        final(packets)@ == old(packets)@.map_values(
            |packet: Packet| packet::screened(packet, 0),
        ),
        ({
            let wanted = batch_of(contributions(old(packets)@, reject_non_vote));
            if wanted.total_signatures == 0 {
                passed@ == wanted.packet_ok
            } else {
                exists|batch: Batch, report: (i32, Vec<u8>)|
                    {
                        &&& batch@ == wanted
                        &&& #[trigger] call_ensures(run_device, (&batch,), report)
                        &&& passed@ == verdicts(wanted.packet_ok, report.0, report.1@)
                    }
            }
        }),
{
    let batch = gather(packets, reject_non_vote);
    if batch.total_signatures == 0 {
        return batch.packet_ok;
    }
    let report = run_device(&batch);
    settle(batch.packet_ok, report.0, report.1.as_slice())
}

} // verus!
