//! What the library takes from the crates around it.
//!
//! The contracts in this module are taken on trust: they restate what those crates document.

use vstd::prelude::*;
use crate::wire;

verus! {

/// `bincode`'s error, carried as an opaque value.
#[verifier::external_type_specification]
#[verifier::external_body]
pub struct ExBincodeErrorKind(bincode::ErrorKind);

/// `solana_short_vec::decode_shortu16_len` returns the compact length at the front of `bytes`
/// with the number of bytes that it takes, and fails exactly where there is none.
pub assume_specification [solana_short_vec::decode_shortu16_len] (bytes: &[u8]) -> (decoded: Result<
    (usize, usize),
    (),
>)
    ensures
        match decoded {
            Ok((value, len)) => wire::short_u16(bytes@) == Some((value as int, len as int)),
            Err(_) => wire::short_u16(bytes@) is None,
        },
;

/// `solana_packet::PACKET_DATA_SIZE`, the capacity of a packet's buffer, is 1232.
#[verifier::external_body]
pub(crate) fn packet_data_size() -> (size: usize)
    ensures
        size == 1232,
{
    solana_packet::PACKET_DATA_SIZE
}

/// `solana_packet::PacketFlags::DISCARD` is bit 0 of a packet's flags.
#[verifier::external_body]
pub(crate) fn discard_flag() -> (flag: u8)
    ensures
        flag == 0x01,
{
    solana_packet::PacketFlags::DISCARD.bits()
}

/// `solana_packet::PacketFlags::SIMPLE_VOTE_TX` is bit 3 of a packet's flags.
#[verifier::external_body]
pub(crate) fn simple_vote_tx_flag() -> (flag: u8)
    ensures
        flag == 0x08,
{
    solana_packet::PacketFlags::SIMPLE_VOTE_TX.bits()
}

/// `solana_message::MESSAGE_HEADER_LENGTH`: a message header takes 3 bytes.
#[verifier::external_body]
pub(crate) fn message_header_length() -> (len: usize)
    ensures
        len == 3,
{
    solana_message::MESSAGE_HEADER_LENGTH
}

/// `solana_message::MESSAGE_VERSION_PREFIX`: the top bit of a message's first byte says that the
/// message is versioned.
#[verifier::external_body]
pub(crate) fn message_version_prefix() -> (mask: u8)
    ensures
        mask == 0x80,
{
    solana_message::MESSAGE_VERSION_PREFIX
}

/// The size of `solana_signature::Signature`, a transparent wrapper of 64 bytes.
#[verifier::external_body]
pub(crate) fn signature_size() -> (size: usize)
    ensures
        size == 64,
{
    std::mem::size_of::<solana_signature::Signature>()
}

/// The size of `solana_pubkey::Pubkey`, a transparent wrapper of 32 bytes.
#[verifier::external_body]
pub(crate) fn pubkey_size() -> (size: usize)
    ensures
        size == 32,
{
    std::mem::size_of::<solana_pubkey::Pubkey>()
}

/// The size of `solana_hash::Hash`, a transparent wrapper of 32 bytes.
#[verifier::external_body]
pub(crate) fn hash_size() -> (size: usize)
    ensures
        size == 32,
{
    std::mem::size_of::<solana_hash::Hash>()
}

/// The bytes of the vote program's address, `Vote111111111111111111111111111111111111111` in
/// base 58.
pub open spec fn vote_program() -> Seq<u8> {
    seq![
        7u8, 97, 72, 29, 53, 116, 116, 187, 124, 77, 118, 36, 235, 211, 189, 179,
        216, 53, 94, 115, 209, 16, 67, 252, 13, 163, 83, 128, 0, 0, 0, 0,
    ]
}

/// `solana_sdk_ids::vote::id` is the vote program's address.
#[verifier::external_body]
pub(crate) fn vote_program_id() -> (id: [u8; 32])
    ensures
        id@ == vote_program(),
{
    solana_sdk_ids::vote::id().to_bytes()
}

} // verus!
