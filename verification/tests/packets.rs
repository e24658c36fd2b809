use fpga::packet::{
    check_for_simple_vote_transaction, do_get_packet_offsets, get_packet_offsets, Meta, Packet,
    PacketError, PacketOffsets,
};

const DISCARD: u8 = 0x01;
const SIMPLE_VOTE: u8 = 0x08;

const VOTE_PROGRAM: [u8; 32] = [
    7, 97, 72, 29, 53, 116, 116, 187, 124, 77, 118, 36, 235, 211, 189, 179, 216, 53, 94, 115, 209,
    16, 67, 252, 13, 163, 83, 128, 0, 0, 0, 0,
];

fn packet_of(bytes: &[u8]) -> Packet {
    let mut buffer = [0u8; 1232];
    buffer[..bytes.len()].copy_from_slice(bytes);
    Packet::new(buffer, Meta { size: bytes.len(), flags: 0 })
}

/// A transaction with `sigs` signatures, an optional version prefix, a header and account keys.
fn transaction(sigs: u8, prefix: Option<u8>, header: [u8; 3], keys: &[[u8; 32]], rest: &[u8]) -> Vec<u8> {
    let mut bytes = vec![sigs];
    for i in 0..sigs {
        bytes.extend_from_slice(&[0xa0 + i; 64]);
    }
    bytes.extend(prefix);
    bytes.extend_from_slice(&header);
    bytes.push(keys.len() as u8);
    for key in keys {
        bytes.extend_from_slice(key);
    }
    bytes.extend_from_slice(rest);
    bytes
}

/// A blockhash, the number of instructions, and the program index of the first.
fn instructions(count: &[u8], program: &[u8]) -> Vec<u8> {
    let mut bytes = vec![0x55; 32];
    bytes.extend_from_slice(count);
    bytes.extend_from_slice(program);
    bytes
}

fn vote_bytes() -> Vec<u8> {
    transaction(1, None, [1, 0, 1], &[[1; 32], VOTE_PROGRAM], &instructions(&[1], &[1, 9, 9]))
}

fn error_of(bytes: &[u8]) -> PacketError {
    do_get_packet_offsets(&packet_of(bytes), 0).unwrap_err()
}

fn vote_error(bytes: &[u8]) -> PacketError {
    let mut packet = packet_of(bytes);
    let offsets = do_get_packet_offsets(&packet, 0).unwrap();
    let before = packet.clone();
    let error = check_for_simple_vote_transaction(&mut packet, &offsets, 0).unwrap_err();
    assert_eq!(packet, before);
    error
}

#[test]
fn offsets_of_a_legacy_transaction() {
    let bytes = transaction(2, None, [2, 1, 0], &[[1; 32], [2; 32], [3; 32]], &[7; 40]);
    let found = do_get_packet_offsets(&packet_of(&bytes), 0);
    assert_eq!(found, Ok(PacketOffsets::new(2, 1, 129, 133, 3)));
}

#[test]
fn offsets_of_a_versioned_transaction() {
    let bytes = transaction(1, Some(0x80), [1, 0, 0], &[[1; 32]], &[7; 40]);
    let found = do_get_packet_offsets(&packet_of(&bytes), 0);
    assert_eq!(found, Ok(PacketOffsets::new(1, 1, 65, 70, 1)));
}

#[test]
fn offsets_move_with_the_packet() {
    let packet = packet_of(&vote_bytes());
    assert_eq!(do_get_packet_offsets(&packet, 0), Ok(PacketOffsets::new(1, 1, 65, 69, 2)));
    assert_eq!(
        do_get_packet_offsets(&packet, 1000),
        Ok(PacketOffsets::new(1, 1001, 1065, 1069, 2))
    );
    let last = u32::MAX as usize - 69;
    assert_eq!(
        do_get_packet_offsets(&packet, last),
        Ok(PacketOffsets::new(1, u32::MAX - 68, u32::MAX - 4, u32::MAX, 2))
    );
    assert_eq!(do_get_packet_offsets(&packet, last + 1), Err(PacketError::InvalidLen));
    assert_eq!(do_get_packet_offsets(&packet, usize::MAX), Err(PacketError::InvalidLen));
}

#[test]
fn too_short_for_a_signature() {
    assert_eq!(error_of(&[]), PacketError::InvalidLen);
    assert_eq!(error_of(&[1; 64]), PacketError::InvalidLen);
}

#[test]
fn count_of_signatures_not_readable() {
    // two ways to write zero, and a count above 65535
    assert_eq!(error_of(&[[0x80, 0x00].as_slice(), &[0; 70]].concat()), PacketError::InvalidShortVec);
    assert_eq!(
        error_of(&[[0xff, 0xff, 0x04].as_slice(), &[0; 70]].concat()),
        PacketError::InvalidShortVec
    );
    assert_eq!(
        error_of(&[[0x80, 0x80, 0x80, 0x01].as_slice(), &[0; 70]].concat()),
        PacketError::InvalidShortVec
    );
}

#[test]
fn bytes_not_readable() {
    let mut discarded = packet_of(&vote_bytes());
    discarded.meta.flags = DISCARD;
    assert_eq!(do_get_packet_offsets(&discarded, 0), Err(PacketError::InvalidShortVec));
    let mut oversized = packet_of(&vote_bytes());
    oversized.meta.size = 1233;
    assert_eq!(do_get_packet_offsets(&oversized, 0), Err(PacketError::InvalidShortVec));
    oversized.meta.size = 1232;
    assert!(do_get_packet_offsets(&oversized, 0).is_ok());
}

#[test]
fn signatures_or_header_run_past_the_end() {
    assert_eq!(error_of(&[1; 65]), PacketError::InvalidSignatureLen);
    // 19 signatures and their count fill 1217 bytes, 20 do not fit
    assert_eq!(error_of(&[20; 1232]), PacketError::InvalidSignatureLen);
    // 128 in two bytes
    assert_eq!(
        error_of(&[[0x80, 0x01].as_slice(), &[0; 1000]].concat()),
        PacketError::InvalidSignatureLen
    );
    // 16384 in three bytes
    assert_eq!(
        error_of(&[[0x80, 0x80, 0x01].as_slice(), &[0; 1000]].concat()),
        PacketError::InvalidSignatureLen
    );
    let bytes = transaction(1, None, [1, 0, 0], &[[1; 32]], &[]);
    assert_eq!(error_of(&bytes[..68]), PacketError::InvalidSignatureLen);
    let bytes = transaction(1, Some(0x80), [1, 0, 0], &[[1; 32]], &[]);
    assert_eq!(error_of(&bytes[..69]), PacketError::InvalidSignatureLen);
    assert_eq!(error_of(&bytes[..70]), PacketError::InvalidPubkeyLen);
}

#[test]
fn unknown_version() {
    let bytes = transaction(1, Some(0x81), [1, 0, 0], &[[1; 32]], &[7; 40]);
    assert_eq!(error_of(&bytes), PacketError::UnsupportedVersion);
}

#[test]
fn payer_must_be_writable() {
    let bytes = transaction(1, None, [1, 1, 0], &[[1; 32]], &[7; 40]);
    assert_eq!(error_of(&bytes), PacketError::PayerNotWritable);
    let bytes = transaction(0, None, [0, 0, 0], &[[1; 32]], &[7; 40]);
    assert_eq!(error_of(&bytes), PacketError::PayerNotWritable);
}

#[test]
fn counts_of_signatures_must_agree() {
    let bytes = transaction(1, None, [2, 1, 0], &[[1; 32], [2; 32]], &[7; 40]);
    assert_eq!(error_of(&bytes), PacketError::MismatchSignatureLen);
}

#[test]
fn count_of_account_keys_not_readable() {
    let mut bytes = transaction(1, None, [1, 0, 0], &[], &[]);
    bytes[68] = 0x80;
    assert_eq!(error_of(&bytes), PacketError::InvalidShortVec);
    bytes.push(0x00);
    assert_eq!(error_of(&bytes), PacketError::InvalidShortVec);
}

#[test]
fn account_keys_must_be_there() {
    let bytes = transaction(2, None, [2, 0, 0], &[[1; 32]], &[7; 40]);
    assert_eq!(error_of(&bytes), PacketError::InvalidPubkeyLen);
    let bytes = transaction(1, None, [1, 0, 0], &[[1; 32]], &[]);
    assert_eq!(error_of(&bytes[..bytes.len() - 1]), PacketError::InvalidPubkeyLen);
    assert!(do_get_packet_offsets(&packet_of(&bytes), 0).is_ok());
}

#[test]
fn a_vote_is_marked() {
    let mut packet = packet_of(&vote_bytes());
    packet.meta.flags = 0x42;
    let offsets = get_packet_offsets(&mut packet, 0, true);
    assert_eq!(offsets, PacketOffsets::new(1, 1, 65, 69, 2));
    assert_eq!(packet.meta.flags, 0x42 | SIMPLE_VOTE);
    assert_eq!(packet.buffer, packet_of(&vote_bytes()).buffer);
    assert!(packet.meta.is_simple_vote_tx());
    // a second look changes nothing
    let marked = packet.clone();
    assert_eq!(get_packet_offsets(&mut packet, 0, true), offsets);
    assert_eq!(packet, marked);
    // nor does it matter where the packet starts
    let mut packet = packet_of(&vote_bytes());
    assert_eq!(get_packet_offsets(&mut packet, 500, true), PacketOffsets::new(1, 501, 565, 569, 2));
    assert_eq!(packet.meta.flags, SIMPLE_VOTE);
}

#[test]
fn the_vote_program_is_the_known_one() {
    assert_eq!(solana_sdk_ids::vote::id().to_bytes(), VOTE_PROGRAM);
    let mut almost = VOTE_PROGRAM;
    almost[31] = 1;
    let bytes =
        transaction(1, None, [1, 0, 1], &[[1; 32], almost], &instructions(&[1], &[1]));
    let mut packet = packet_of(&bytes);
    let offsets = do_get_packet_offsets(&packet, 0).unwrap();
    assert_eq!(check_for_simple_vote_transaction(&mut packet, &offsets, 0), Ok(()));
    assert_eq!(packet.meta.flags, 0);
}

#[test]
fn a_versioned_vote_is_not_marked() {
    let bytes = transaction(
        1,
        Some(0x80),
        [1, 0, 1],
        &[[1; 32], VOTE_PROGRAM],
        &instructions(&[1], &[1]),
    );
    let mut packet = packet_of(&bytes);
    let offsets = do_get_packet_offsets(&packet, 0).unwrap();
    assert_eq!(check_for_simple_vote_transaction(&mut packet, &offsets, 0), Ok(()));
    assert_eq!(packet.meta.flags, 0);
}

#[test]
fn too_many_signatures_for_a_vote() {
    let keys = [[1; 32], [2; 32], [3; 32], VOTE_PROGRAM];
    let two = transaction(2, None, [2, 0, 1], &keys, &instructions(&[1], &[3]));
    let mut packet = packet_of(&two);
    assert_eq!(get_packet_offsets(&mut packet, 0, true).sig_len, 2);
    assert_eq!(packet.meta.flags, SIMPLE_VOTE);
    let three = transaction(3, None, [3, 0, 1], &keys, &instructions(&[1], &[3]));
    assert_eq!(vote_error(&three), PacketError::InvalidSignatureLen);
}

#[test]
fn instructions_of_a_vote_must_be_there() {
    let keys = [[1; 32], VOTE_PROGRAM];
    let none = transaction(1, None, [1, 0, 1], &keys, &[0x55; 32]);
    assert_eq!(vote_error(&none), PacketError::InvalidLen);
    let unreadable = transaction(1, None, [1, 0, 1], &keys, &instructions(&[0x80], &[]));
    assert_eq!(vote_error(&unreadable), PacketError::InvalidLen);
    let two = transaction(1, None, [1, 0, 1], &keys, &instructions(&[2], &[1, 1]));
    assert_eq!(vote_error(&two), PacketError::InvalidProgramLen);
    let cut = transaction(1, None, [1, 0, 1], &keys, &instructions(&[1], &[]));
    assert_eq!(vote_error(&cut), PacketError::InvalidLen);
    let outside = transaction(1, None, [1, 0, 1], &keys, &instructions(&[1], &[2]));
    assert_eq!(vote_error(&outside), PacketError::InvalidProgramIdIndex);
}

#[test]
fn offsets_that_do_not_fit_the_packet() {
    let mut packet = packet_of(&vote_bytes());
    let before = packet.clone();
    let offsets = PacketOffsets::new(1, 1, 65, 69, 2);
    assert_eq!(
        check_for_simple_vote_transaction(&mut packet, &offsets, 66),
        Err(PacketError::InvalidLen)
    );
    let low_keys = PacketOffsets::new(1, 1, 75, 5, 2);
    assert_eq!(
        check_for_simple_vote_transaction(&mut packet, &low_keys, 10),
        Err(PacketError::InvalidLen)
    );
    let many_keys = PacketOffsets::new(1, 1, 65, 69, u32::MAX);
    assert_eq!(
        check_for_simple_vote_transaction(&mut packet, &many_keys, 0),
        Err(PacketError::InvalidLen)
    );
    let past_the_end = PacketOffsets::new(1, 1, 2000, 2069, 2);
    assert_eq!(
        check_for_simple_vote_transaction(&mut packet, &past_the_end, 0),
        Err(PacketError::InvalidLen)
    );
    assert_eq!(packet, before);
}

#[test]
fn refused_packets_have_zero_offsets() {
    let zero = PacketOffsets::new(0, 0, 0, 0, 0);
    let mut broken = packet_of(&[1; 65]);
    assert_eq!(get_packet_offsets(&mut broken, 7, false), zero);
    let bytes = transaction(1, None, [1, 0, 0], &[[1; 32], [2; 32]], &instructions(&[1], &[1]));
    let mut transfer = packet_of(&bytes);
    assert_eq!(get_packet_offsets(&mut transfer, 0, true), zero);
    assert_eq!(transfer.meta.flags, 0);
    assert_eq!(get_packet_offsets(&mut transfer, 0, false), PacketOffsets::new(1, 1, 65, 69, 2));
    // a packet that was marked before counts as a vote
    transfer.meta.flags = SIMPLE_VOTE;
    assert_eq!(get_packet_offsets(&mut transfer, 0, true), PacketOffsets::new(1, 1, 65, 69, 2));
}

#[test]
fn reading_a_packet() {
    let mut packet = packet_of(&[10, 11, 12, 13]);
    assert_eq!(packet.data(), Some([10, 11, 12, 13].as_slice()));
    assert_eq!(packet.data_at(3), Some(13));
    assert_eq!(packet.data_at(4), None);
    assert_eq!(packet.data_range(1, 3), Some([11, 12].as_slice()));
    assert_eq!(packet.data_range(4, 4), Some([].as_slice()));
    assert_eq!(packet.data_range(3, 1), None);
    assert_eq!(packet.data_range(4, 5), None);
    assert_eq!(packet.data_from(2), Some([12, 13].as_slice()));
    assert_eq!(packet.data_from(5), None);
    packet.meta.flags = 0xfe;
    assert!(!packet.meta.discard());
    packet.meta.flags = 0xf7;
    assert!(packet.meta.discard());
    assert!(!packet.meta.is_simple_vote_tx());
    assert_eq!(packet.data(), None);
    assert_eq!(packet.data_at(0), None);
    assert_eq!(packet.data_range(0, 0), None);
    assert_eq!(packet.data_from(0), None);
}

#[test]
fn reading_agrees_with_the_network_packet() {
    let bytes = vote_bytes();
    let mut wire = solana_packet::Packet::new(packet_of(&bytes).buffer, Default::default());
    wire.meta_mut().size = bytes.len();
    let mut ours = packet_of(&bytes);
    for flags in [0u8, 1, 2, 8, 9, 255] {
        wire.meta_mut().flags = solana_packet::PacketFlags::from_bits_retain(flags);
        ours.meta.flags = flags;
        assert_eq!(ours.data(), wire.data(..));
        assert_eq!(ours.data_at(7), wire.data(7).copied());
        assert_eq!(ours.data_range(3, 9), wire.data(3..9));
        assert_eq!(ours.data_from(9), wire.data(9..));
        assert_eq!(ours.meta.discard(), wire.meta().discard());
        assert_eq!(ours.meta.is_simple_vote_tx(), wire.meta().is_simple_vote_tx());
    }
}

#[test]
fn errors_from_elsewhere() {
    let error = PacketError::from(Box::new(bincode::ErrorKind::SizeLimit));
    assert_eq!(error, PacketError::InvalidShortVec);
    let error = PacketError::from(u32::try_from(u64::MAX).unwrap_err());
    assert_eq!(error, PacketError::InvalidLen);
}
