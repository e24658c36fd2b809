use fpga::batch::{gather, settle, Batch};
use fpga::{ed25519_verify_fpga_batch, is_available};
use fpga::packet::{Meta, Packet};
use solana_keypair::Keypair;
use solana_pubkey::Pubkey;
use solana_signature::Signature;
use solana_signer::Signer;

/// Does in software what the device does with a batch: a packet's byte is 1 where all of its
/// signatures are right.
fn software_device(batch: &Batch) -> (i32, Vec<u8>) {
    let mut results = vec![0u8; batch.sig_counts.len()];
    for (i, result) in results.iter_mut().enumerate() {
        let text = batch.msg_offsets[i] as usize;
        let message = &batch.messages[text..text + batch.msg_sizes[i] as usize];
        let first = batch.sig_array_offsets[i] as usize;
        let all_right = (first..first + batch.sig_counts[i] as usize).all(|k| {
            let signature = Signature::try_from(&batch.signatures[64 * k..64 * (k + 1)]).unwrap();
            signature.verify(&batch.pubkeys[32 * k..32 * (k + 1)], message)
        });
        *result = all_right as u8;
    }
    (0, results)
}

/// The packet as it came from the network.
fn received(packet: &solana_packet::Packet) -> Packet {
    let mut buffer = [0u8; 1232];
    let data = packet.data(..).unwrap();
    buffer[..data.len()].copy_from_slice(data);
    Packet::new(buffer, Meta { size: packet.meta().size, flags: packet.meta().flags.bits() })
}

fn packet_of(bytes: &[u8]) -> Packet {
    let mut buffer = [0u8; 1232];
    buffer[..bytes.len()].copy_from_slice(bytes);
    Packet::new(buffer, Meta { size: bytes.len(), flags: 0 })
}

/// A legacy transaction with `sigs` signatures and one more account key.
fn transaction(sigs: u8, fill: u8) -> Vec<u8> {
    let mut bytes = vec![sigs];
    for i in 0..sigs {
        bytes.extend_from_slice(&[fill + i; 64]);
    }
    bytes.extend_from_slice(&[sigs, 0, 1, sigs + 1]);
    for i in 0..sigs + 1 {
        bytes.extend_from_slice(&[fill + 0x10 + i; 32]);
    }
    bytes.extend_from_slice(&[0x55; 32]);
    bytes.push(0);
    bytes
}

fn direct_entry(batch: &mut Batch, message: &[u8], signers: &[(&Keypair, Signature)]) {
    batch.msg_offsets.push(batch.messages.len() as u32);
    batch.msg_sizes.push(message.len() as u32);
    batch.messages.extend_from_slice(message);
    batch.sig_array_offsets.push(batch.total_signatures as u32);
    batch.sig_counts.push(signers.len() as u32);
    for (key, signature) in signers {
        batch.signatures.extend_from_slice(signature.as_ref());
        batch.pubkeys.extend_from_slice(key.pubkey().as_ref());
    }
    batch.total_signatures += signers.len();
    batch.packet_ok.push(true);
}

/// Hands arrays directly to the verification, without packets: 0 where every verdict is right,
/// else the number of the first that is not.
fn run_fpga_ed25519_test() -> i32 {
    let (alice, bob) = (Keypair::new(), Keypair::new());
    let mut batch = Batch {
        signatures: vec![],
        pubkeys: vec![],
        messages: vec![],
        msg_offsets: vec![],
        msg_sizes: vec![],
        sig_array_offsets: vec![],
        sig_counts: vec![],
        packet_ok: vec![],
        total_signatures: 0,
    };
    let (first, second) = (b"a message".as_slice(), b"another one".as_slice());
    direct_entry(&mut batch, first, &[(&alice, alice.sign_message(first))]);
    direct_entry(&mut batch, second, &[(&alice, alice.sign_message(first))]);
    direct_entry(
        &mut batch,
        second,
        &[(&alice, alice.sign_message(second)), (&bob, bob.sign_message(second))],
    );
    direct_entry(
        &mut batch,
        second,
        &[(&alice, alice.sign_message(second)), (&bob, Signature::default())],
    );
    let (code, results) = software_device(&batch);
    if code != 0 {
        return code;
    }
    let passed = settle(batch.packet_ok, code, &results);
    let expected = [true, false, true, false];
    match passed.iter().zip(expected).position(|(got, want)| *got != want) {
        Some(i) => i as i32 + 1,
        None => 0,
    }
}

#[test]
fn test_fpga_ed25519_direct() {
    let res = run_fpga_ed25519_test();
    assert_eq!(res, 0, "run_fpga_ed25519_test returned {}", res);
}

#[test]
fn test_ed25519_verify_fpga_batch() {
    let keypair = Keypair::new();
    let recent_blockhash = solana_hash::Hash::new_unique();
    let tx = solana_system_transaction::transfer(
        &keypair,
        &Pubkey::new_unique(),
        42,
        recent_blockhash,
    );

    let valid_packet = received(
        &solana_packet::Packet::from_data(None, &tx).expect("Packet::from_data should succeed"),
    );

    let mut invalid_tx = tx.clone();
    invalid_tx.signatures[0] = Signature::default();

    let invalid_packet = received(
        &solana_packet::Packet::from_data(None, &invalid_tx)
            .expect("Packet::from_data should succeed"),
    );

    let results = ed25519_verify_fpga_batch(
        &mut [valid_packet.clone(), invalid_packet.clone()],
        false,
        software_device,
    );
    assert_eq!(results, vec![true, false], "Expected valid to pass, invalid to fail");

    let results_reject =
        ed25519_verify_fpga_batch(&mut [valid_packet, invalid_packet], true, software_device);
    assert_eq!(
        results_reject,
        vec![false, false],
        "Expected both packets to fail when non-votes are rejected"
    );
}

#[test]
fn the_device_is_available() {
    assert!(is_available());
}

#[test]
fn arrays_of_a_batch() {
    let (one, two) = (transaction(1, 0x20), transaction(2, 0x40));
    let mut discarded = packet_of(&one);
    discarded.meta.flags = 0x01;
    let mut packets = [packet_of(&one), discarded, packet_of(&[1; 65]), packet_of(&two)];
    let before = packets.clone();
    let batch = gather(&mut packets, false);
    assert_eq!(packets, before);

    assert_eq!(batch.packet_ok, vec![true, false, false, true]);
    assert_eq!(batch.total_signatures, 3);
    assert_eq!(batch.signatures, [[0x20; 64], [0x40; 64], [0x41; 64]].concat());
    assert_eq!(batch.pubkeys, [[0x30; 32], [0x50; 32], [0x51; 32]].concat());
    let messages = [&one[65..], &two[129..]].concat();
    assert_eq!(batch.messages, messages);
    let first = one.len() as u32 - 65;
    assert_eq!(batch.msg_offsets, vec![0, first, first, first]);
    assert_eq!(batch.msg_sizes, vec![first, 0, 0, two.len() as u32 - 129]);
    assert_eq!(batch.sig_array_offsets, vec![0, 1, 1, 1]);
    assert_eq!(batch.sig_counts, vec![1, 0, 0, 2]);
}

#[test]
fn a_full_packet_is_gathered_whole() {
    let mut bytes = transaction(1, 0x20);
    bytes.resize(1232, 0x77);
    let batch = gather(&mut [packet_of(&bytes)], false);
    assert_eq!(batch.msg_sizes, vec![1232 - 65]);
    assert_eq!(batch.messages, bytes[65..]);

    let mut oversized = packet_of(&bytes);
    oversized.meta.size = 1233;
    let batch = gather(&mut [oversized], false);
    assert_eq!(batch.packet_ok, vec![false]);
    assert_eq!(batch.total_signatures, 0);
}

#[test]
fn a_batch_of_no_packets() {
    let batch = gather(&mut [], true);
    assert_eq!(batch.total_signatures, 0);
    assert_eq!(batch.packet_ok, vec![]);
    let passed = ed25519_verify_fpga_batch(&mut [], true, |_| panic!("nothing to verify"));
    assert_eq!(passed, vec![]);
}

#[test]
fn no_signature_is_not_sent() {
    let mut packets = [packet_of(&[]), packet_of(&transaction(1, 0x20))];
    let passed = ed25519_verify_fpga_batch(&mut packets, true, |_| panic!("nothing to verify"));
    assert_eq!(passed, vec![false, false]);
}

#[test]
fn votes_pass_where_only_votes_may() {
    let keypair = Keypair::new();
    let vote = solana_sdk_ids::vote::id();
    let message = [
        [1, 0, 1, 2].as_slice(),
        keypair.pubkey().as_ref(),
        vote.as_ref(),
        &[0x55; 32],
        &[1, 1, 0, 0],
    ]
    .concat();
    let signature = keypair.sign_message(&message);
    let bytes = [[1].as_slice(), signature.as_ref(), &message].concat();
    let mut packets = [packet_of(&transaction(1, 0x20)), packet_of(&bytes)];
    let passed = ed25519_verify_fpga_batch(&mut packets, true, software_device);
    assert_eq!(passed, vec![false, true]);
    assert_eq!(packets[0].meta.flags, 0);
    assert_eq!(packets[1].meta.flags, 0x08);
}

#[test]
fn verdicts_of_the_device() {
    let ok = vec![true, true, false, true];
    assert_eq!(settle(ok.clone(), 0, &[1, 0, 1, 0xff]), vec![true, false, false, true]);
    // a byte that is missing counts as zero
    assert_eq!(settle(ok.clone(), 0, &[1]), vec![true, false, false, false]);
    // a device that failed passes nothing
    assert_eq!(settle(ok, -1, &[1, 1, 1, 1]), vec![false; 4]);
}

#[test]
fn a_failed_device_fails_the_batch() {
    let mut packets = [packet_of(&transaction(1, 0x20)), packet_of(&transaction(2, 0x40))];
    let passed = ed25519_verify_fpga_batch(&mut packets, false, |batch| {
        assert_eq!(batch.total_signatures, 3);
        (5, vec![1, 1])
    });
    assert_eq!(passed, vec![false, false]);
}

/// A legacy transaction that `signers` sign, with `tail` at its end.
fn signed(signers: &[&Keypair], tail: u8) -> Vec<u8> {
    let count = signers.len() as u8;
    let mut message = vec![count, 0, 1, count + 1];
    for signer in signers {
        message.extend_from_slice(signer.pubkey().as_ref());
    }
    message.extend_from_slice(&[0x66; 32]);
    message.extend_from_slice(&[0x55; 32]);
    message.extend_from_slice(&[1, count, 0, 1, tail]);
    let mut bytes = vec![count];
    for signer in signers {
        bytes.extend_from_slice(signer.sign_message(&message).as_ref());
    }
    bytes.extend_from_slice(&message);
    bytes
}

#[test]
fn each_packet_is_judged_by_its_own_signatures() {
    let (alice, bob, carol) = (Keypair::new(), Keypair::new(), Keypair::new());
    let both = signed(&[&alice, &bob], 1);
    let mut swapped = both.clone();
    swapped[1..65].copy_from_slice(&both[65..129]);
    swapped[65..129].copy_from_slice(&both[1..65]);
    let mut tampered = signed(&[&carol], 2);
    *tampered.last_mut().unwrap() ^= 1;
    let all = signed(&[&alice, &bob, &carol], 3);

    let mut packets = [
        packet_of(&both),
        packet_of(&swapped),
        packet_of(&[0; 100]),
        packet_of(&tampered),
        packet_of(&all),
    ];
    let passed = ed25519_verify_fpga_batch(&mut packets, false, software_device);
    assert_eq!(passed, vec![true, false, false, false, true]);

    packets.reverse();
    let passed = ed25519_verify_fpga_batch(&mut packets, false, software_device);
    assert_eq!(passed, vec![true, false, false, false, true]);
    packets.swap(0, 1);
    let passed = ed25519_verify_fpga_batch(&mut packets[..2], false, software_device);
    assert_eq!(passed, vec![false, true]);
}
