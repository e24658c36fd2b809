//! The part of the transaction wire format that the library reads.

use vstd::prelude::*;

verus! {

/// The compact length at the front of `bytes`, and how many bytes it takes.
///
/// A length below 65536 is written seven bits at a time, the lowest first. Every byte but the
/// last has its top bit set, and the last is not zero unless it stands alone:
///   - `0xxxxxxx`
///   - `1xxxxxxx 0yyyyyyy`
///   - `1xxxxxxx 1yyyyyyy 000000zz`
pub open spec fn short_u16(bytes: Seq<u8>) -> Option<(int, int)> {
    if bytes.len() >= 1 && bytes[0] < 0x80 {
        Some((bytes[0] as int, 1))
    } else if bytes.len() >= 2 && 0 < bytes[1] < 0x80 {
        Some((bytes[0] - 0x80 + 0x80 * bytes[1], 2))
    } else if bytes.len() >= 3 && bytes[1] >= 0x80 && 0 < bytes[2] < 4 {
        Some((bytes[0] - 0x80 + 0x80 * (bytes[1] - 0x80) + 0x4000 * bytes[2], 3))
    } else {
        None
    }
}

/// `n` as a compact length.
pub open spec fn short_u16_bytes(n: int) -> Seq<u8> {
    if n < 0x80 {
        seq![n as u8]
    } else if n < 0x4000 {
        seq![(0x80 + n % 0x80) as u8, (n / 0x80) as u8]
    } else {
        seq![(0x80 + n % 0x80) as u8, (0x80 + n / 0x80 % 0x80) as u8, (n / 0x4000) as u8]
    }
}

/// A transaction by its parts.
pub struct Transaction {
    /// The signatures, 64 bytes each.
    pub signatures: Seq<u8>,
    /// Whether the message starts with the prefix of version 0; a legacy message has none.
    pub versioned: bool,
    /// The header: how many signatures the message asks for, and how many accounts are read-only
    /// among those that sign and among the others.
    pub required_signatures: u8,
    pub readonly_signed: u8,
    pub readonly_unsigned: u8,
    /// The account keys, 32 bytes each.
    pub pubkeys: Seq<u8>,
    pub pubkey_len: int,
    /// What follows: a hash of 32 bytes, the compact number of instructions, the instructions.
    pub rest: Seq<u8>,
}

impl Transaction {
    /// What stands before the message.
    pub open spec fn signature_section(self) -> Seq<u8> {
        short_u16_bytes(self.required_signatures as int) + self.signatures
    }

    /// The first part of the message, up to the account keys.
    pub open spec fn message_head(self) -> Seq<u8> {
        (if self.versioned {
            seq![0x80u8]
        } else {
            Seq::empty()
        }) + seq![self.required_signatures, self.readonly_signed, self.readonly_unsigned]
            + short_u16_bytes(self.pubkey_len)
    }

    /// The message: what the signatures sign.
    pub open spec fn message(self) -> Seq<u8> {
        self.message_head() + self.pubkeys + self.rest
    }

    /// The transaction on the wire.
    pub open spec fn bytes(self) -> Seq<u8> {
        self.signature_section() + self.message()
    }

    /// The counts fit the parts, the first signer is writable, and a legacy message does not look
    /// like a versioned one.
    pub open spec fn well_formed(self) -> bool {
        &&& self.signatures.len() == 64 * self.required_signatures
        &&& self.readonly_signed < self.required_signatures <= self.pubkey_len < 0x1_0000
        &&& self.pubkeys.len() == 32 * self.pubkey_len
        &&& !self.versioned ==> self.required_signatures < 0x80
    }

    /// The program that the first instruction runs, by its index among the account keys.
    pub open spec fn first_program(self) -> int {
        self.rest[33] as int
    }

    /// A legacy message with at most two signatures, whose only instruction runs the program with
    /// the key `program`.
    pub open spec fn only_runs(self, program: Seq<u8>) -> bool {
        &&& !self.versioned
        &&& self.required_signatures <= 2
        &&& self.rest.len() >= 34
        &&& self.rest[32] == 1
        &&& self.first_program() < self.pubkey_len
        &&& self.pubkeys.subrange(32 * self.first_program(), 32 * self.first_program() + 32)
            == program
    }
}

} // verus!
