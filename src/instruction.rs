use vstd::bytes::{spec_u64_from_le_bytes, u64_from_le_bytes};
use vstd::prelude::*;
use vstd::slice::slice_subrange;

use crate::error::MultisigWalletError;
use crate::state::{Pubkey, KEY_LEN};

verus! {

/// Tag of the command that initializes a wallet.
pub const TAG_INIT_WALLET: u8 = 0;

/// Tag of the command that creates a transfer request.
pub const TAG_REQUEST: u8 = 1;

/// Tag of the command that approves a transfer request.
pub const TAG_SIGN: u8 = 2;

/// A decoded command.
pub enum MultisigWalletInstruction {
    /// Initialize a wallet with approval threshold `m`.
    InitWallet { m: u8 },
    /// Create a request to transfer `amount` to `to_pub_key`.
    Request { amount: u64, to_pub_key: Pubkey },
    /// Approve a request.
    Sign,
}

/// Whether `s` is a well-formed command: a known tag followed by at least
/// the payload that the tag needs. Bytes after the payload are ignored.
pub open spec fn is_command(s: Seq<u8>) -> bool {
    &&& s.len() >= 1
    &&& {
        ||| s[0] == TAG_INIT_WALLET && s.len() >= 2
        ||| s[0] == TAG_REQUEST && s.len() >= 1 + 8 + KEY_LEN
        ||| s[0] == TAG_SIGN
    }
}

/// Whether the command `s` decodes to `ins`: the threshold is one byte, the
/// amount eight little-endian bytes, the receiver thirty-two bytes.
pub open spec fn decodes_to(s: Seq<u8>, ins: MultisigWalletInstruction) -> bool {
    match ins {
        MultisigWalletInstruction::InitWallet { m } => s[0] == TAG_INIT_WALLET && m == s[1],
        MultisigWalletInstruction::Request { amount, to_pub_key } => {
            &&& s[0] == TAG_REQUEST
            &&& amount == spec_u64_from_le_bytes(s.subrange(1, 9))
            &&& to_pub_key@ == s.subrange(9, 9 + KEY_LEN)
        },
        MultisigWalletInstruction::Sign => s[0] == TAG_SIGN,
    }
}

impl MultisigWalletInstruction {
    /// Decodes a command buffer; fails with `InvalidInstruction` on an
    /// unknown tag or a short payload.
    pub fn unpack(input: &[u8]) -> (r: Result<Self, MultisigWalletError>)
        ensures
            r is Ok <==> is_command(input@),
            r matches Ok(ins) ==> decodes_to(input@, ins),
            r matches Err(e) ==> e == MultisigWalletError::InvalidInstruction,
    {
        if input.len() == 0 {
            return Err(MultisigWalletError::InvalidInstruction);
        }
        let tag = input[0];
        let rest = slice_subrange(input, 1, input.len());
        if tag == TAG_INIT_WALLET {
            let m = Self::unpack_m(rest)?;
            Ok(MultisigWalletInstruction::InitWallet { m })
        } else if tag == TAG_REQUEST {
            let amount = Self::unpack_amount(rest)?;
            if rest.len() < 8 {
                return Err(MultisigWalletError::InvalidInstruction);
            }
            let to_pub_key = Self::unpack_to_pub_key(slice_subrange(rest, 8, rest.len()))?;
            proof {
                assert(input@.subrange(1, 9) =~= rest@.subrange(0, 8));
                assert(input@.subrange(9, 9 + KEY_LEN) =~= rest@.subrange(8, rest@.len() as int).subrange(0, KEY_LEN as int));
            }
            Ok(MultisigWalletInstruction::Request { amount, to_pub_key })
        } else if tag == TAG_SIGN {
            Ok(MultisigWalletInstruction::Sign)
        } else {
            Err(MultisigWalletError::InvalidInstruction)
        }
    }

    fn unpack_m(input: &[u8]) -> (r: Result<u8, MultisigWalletError>)
        ensures
            r is Ok <==> input@.len() >= 1,
            r matches Ok(m) ==> m == input@[0],
            r matches Err(e) ==> e == MultisigWalletError::InvalidInstruction,
    {
        if input.len() < 1 {
            return Err(MultisigWalletError::InvalidInstruction);
        }
        Ok(input[0])
    }

    fn unpack_amount(input: &[u8]) -> (r: Result<u64, MultisigWalletError>)
        ensures
            r is Ok <==> input@.len() >= 8,
            r matches Ok(a) ==> a == spec_u64_from_le_bytes(input@.subrange(0, 8)),
            r matches Err(e) ==> e == MultisigWalletError::InvalidInstruction,
    {
        if input.len() < 8 {
            return Err(MultisigWalletError::InvalidInstruction);
        }
        Ok(u64_from_le_bytes(slice_subrange(input, 0, 8)))
    }

    fn unpack_to_pub_key(input: &[u8]) -> (r: Result<Pubkey, MultisigWalletError>)
        ensures
            r is Ok <==> input@.len() >= KEY_LEN,
            r matches Ok(k) ==> k@ == input@.subrange(0, KEY_LEN as int),
            r matches Err(e) ==> e == MultisigWalletError::InvalidInstruction,
    {
        if input.len() < KEY_LEN {
            return Err(MultisigWalletError::InvalidInstruction);
        }
        Ok(read_key(input, 0))
    }
}

/// The identity held in `data` from `start` on.
pub fn read_key(data: &[u8], start: usize) -> (k: Pubkey)
    requires
        start + KEY_LEN <= data@.len(),
    ensures
        k@ == data@.subrange(start as int, start + KEY_LEN),
{
    let mut bytes = [0u8; 32];
    let mut j: usize = 0;
    while j < KEY_LEN
        invariant
            0 <= j <= KEY_LEN,
            start + KEY_LEN <= data.len(),
            bytes@.len() == KEY_LEN,
            forall|t: int| 0 <= t < j ==> bytes@[t] == data@[start + t],
        decreases KEY_LEN - j,
    {
        bytes[j] = data[start + j];
        j = j + 1;
    }
    assert(bytes@ =~= data@.subrange(start as int, start + KEY_LEN));
    Pubkey { bytes }
}

} // verus!
