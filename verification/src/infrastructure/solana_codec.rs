//! The calls into the Solana crates and into `bincode` that the block
//! processor makes: text forms of keys and signatures, decoding of binary
//! transactions, and decoding of system-program instruction data.

use crate::domain::block::{
    CompiledInstruction, EncodedTransaction, EncodedTransactionView, Message,
    SystemInstructionKind, TransactionBinaryEncoding, VersionedMessage, VersionedTransaction,
    VersionedTransactionView,
};
use crate::domain::models::{Pubkey, Signature};
use solana_sdk::instruction::CompiledInstruction as SolCompiledInstruction;
use solana_sdk::message::VersionedMessage as SolVersionedMessage;
use solana_sdk::pubkey::Pubkey as SolPubkey;
use solana_sdk::signature::Signature as SolSignature;
use solana_sdk::system_instruction::SystemInstruction;
use solana_sdk::transaction::VersionedTransaction as SolVersionedTransaction;
use solana_transaction_status::EncodedTransaction as SolEncodedTransaction;
use solana_transaction_status::TransactionBinaryEncoding as SolBinaryEncoding;
use vstd::prelude::*;

verus! {

/// The Solana SDK's decoded transaction, carried through the conversion below.
#[verifier::external_type_specification]
#[verifier::external_body]
pub struct ExSolVersionedTransaction(SolVersionedTransaction);

/// The Solana SDK's account address, carried through the conversion below.
#[verifier::external_type_specification]
#[verifier::external_body]
pub struct ExSolPubkey(SolPubkey);

/// The Solana SDK's compiled instruction, carried through the conversion below.
#[verifier::external_type_specification]
#[verifier::external_body]
pub struct ExSolCompiledInstruction(SolCompiledInstruction);

/// The base-58 text of a 32-byte address, as `Display` of the SDK's `Pubkey` writes it.
pub uninterp spec fn pubkey_text(key: Seq<u8>) -> Seq<char>;

/// The base-58 text of a 64-byte signature, as `Display` of the SDK's `Signature` writes it.
pub uninterp spec fn signature_text(signature: Seq<u8>) -> Seq<char>;

/// What `EncodedTransaction::decode` of `solana-transaction-status` gives for a
/// transaction: the transaction when the text decodes, deserializes and
/// passes sanitization, and nothing otherwise.
pub uninterp spec fn decoded_transaction(encoded: EncodedTransactionView) -> Option<
    VersionedTransactionView,
>;

/// What `bincode::deserialize::<SystemInstruction>` makes of instruction data,
/// each system instruction taken to the kind the aggregator tells apart, and
/// `None` where deserialization fails.
pub uninterp spec fn system_instruction_of(data: Seq<u8>) -> Option<SystemInstructionKind>;

/// The little-endian `u32` in the first four bytes.
pub open spec fn le_u32_prefix(data: Seq<u8>) -> int {
    data[0] + 256 * data[1] + 65536 * data[2] + 16777216 * data[3]
}

/// The little-endian `u64` in the eight bytes from `at`.
pub open spec fn le_u64_at(data: Seq<u8>, at: int) -> int {
    data[at] + 256 * (data[at + 1] + 256 * (data[at + 2] + 256 * (data[at + 3] + 256 * (data[at
        + 4] + 256 * (data[at + 5] + 256 * (data[at + 6] + 256 * data[at + 7]))))))
}

/// `Display` of the SDK's `Pubkey` (base-58). The text is named by
/// [`pubkey_text`]; nothing more is claimed of it.
#[verifier::external_body]
pub(crate) fn pubkey_to_string(key: &Pubkey) -> (text: String)
    ensures
        text@ == pubkey_text(key@),
{
    SolPubkey::new_from_array(key.bytes).to_string()
}

/// `Display` of the SDK's `Signature` (base-58). The text is named by
/// [`signature_text`]; nothing more is claimed of it.
#[verifier::external_body]
pub(crate) fn signature_to_string(signature: &Signature) -> (text: String)
    ensures
        text@ == signature_text(signature@),
{
    SolSignature::from(signature.bytes).to_string()
}

/// `EncodedTransaction::decode` of `solana-transaction-status`. Its result is
/// named by [`decoded_transaction`]. The source returns `None` for the JSON
/// forms, which carry no raw transaction; that is claimed too.
#[verifier::external_body]
pub(crate) fn decode_transaction(encoded: &EncodedTransaction) -> (decoded: Option<VersionedTransaction>)
    ensures
        decoded matches Some(tx) ==> decoded_transaction(encoded@) == Some(tx@),
        decoded is None ==> decoded_transaction(encoded@) is None,
        encoded@ is Json || encoded@ is Accounts ==> decoded is None,
{
    let sol = match encoded {
        EncodedTransaction::LegacyBinary(blob) => SolEncodedTransaction::LegacyBinary(blob.clone()),
        EncodedTransaction::Binary(blob, TransactionBinaryEncoding::Base58) => {
            SolEncodedTransaction::Binary(blob.clone(), SolBinaryEncoding::Base58)
        },
        EncodedTransaction::Binary(blob, TransactionBinaryEncoding::Base64) => {
            SolEncodedTransaction::Binary(blob.clone(), SolBinaryEncoding::Base64)
        },
        EncodedTransaction::Json | EncodedTransaction::Accounts => return None,
    };
    sol.decode().map(convert_transaction)
}

/// Converts the SDK's decoded transaction field for field: the signatures'
/// bytes, and the message, legacy or version 0, with its account keys and
/// instructions.
#[verifier::external_body]
fn convert_transaction(tx: SolVersionedTransaction) -> VersionedTransaction {
    let signatures = tx.signatures.iter().map(|s| Signature { bytes: (*s).into() }).collect();
    let message = match tx.message {
        SolVersionedMessage::Legacy(m) => VersionedMessage::Legacy(
            convert_message(m.account_keys, m.instructions),
        ),
        SolVersionedMessage::V0(m) => VersionedMessage::V0(
            convert_message(m.account_keys, m.instructions),
        ),
    };
    VersionedTransaction { signatures, message }
}

/// Converts the SDK's account keys and compiled instructions field for field.
#[verifier::external_body]
fn convert_message(
    account_keys: Vec<SolPubkey>,
    instructions: Vec<SolCompiledInstruction>,
) -> Message {
    Message {
        account_keys: account_keys.iter().map(|k| Pubkey { bytes: k.to_bytes() }).collect(),
        instructions: instructions.into_iter().map(|i| CompiledInstruction {
            program_id_index: i.program_id_index,
            accounts: i.accounts,
            data: i.data,
        }).collect(),
    }
}

/// `bincode::deserialize::<SystemInstruction>` on instruction data, the
/// instruction taken to its kind. The result is named by
/// [`system_instruction_of`]. Of bincode's format (a little-endian `u32`
/// variant index, then the fields; trailing bytes allowed) the contract
/// states the two variants the aggregator reads: `CreateAccount` (index 0,
/// lamports, space, a 32-byte owner) and `Transfer` (index 2, lamports).
#[verifier::external_body]
pub(crate) fn parse_system_instruction(data: &Vec<u8>) -> (kind: Option<SystemInstructionKind>)
    ensures
        kind == system_instruction_of(data@),
        data@.len() >= 12 && le_u32_prefix(data@) == 2 ==> kind == Some(
            SystemInstructionKind::Transfer { lamports: le_u64_at(data@, 4) as u64 },
        ),
        data@.len() >= 52 && le_u32_prefix(data@) == 0 ==> kind == Some(
            SystemInstructionKind::CreateAccount { lamports: le_u64_at(data@, 4) as u64 },
        ),
        kind matches Some(SystemInstructionKind::Transfer { .. }) ==> data@.len() >= 12
            && le_u32_prefix(data@) == 2,
        kind matches Some(SystemInstructionKind::CreateAccount { .. }) ==> data@.len() >= 52
            && le_u32_prefix(data@) == 0,
{
    match bincode::deserialize::<SystemInstruction>(data) {
        Ok(SystemInstruction::Transfer { lamports }) => Some(
            SystemInstructionKind::Transfer { lamports },
        ),
        Ok(SystemInstruction::CreateAccount { lamports, .. }) => Some(
            SystemInstructionKind::CreateAccount { lamports },
        ),
        Ok(_) => Some(SystemInstructionKind::Other),
        Err(_) => None,
    }
}

} // verus!
