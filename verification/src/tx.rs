//! The transaction data the validation logic reads, as plain values.
//!
//! A consensus-encoded Bitcoin transaction is decoded by outside code
//! (hex digits to bytes, bytes to a structured transaction); the logic
//! here works only on the plain fields it needs: the input list with
//! each input's previous-output reference and witness stack, the output
//! values, and the virtual size.

use vstd::prelude::*;

verus! {

/// One transaction input: the reference to the previous output it spends
/// (transaction id bytes and output index) and its witness stack.
#[derive(Debug)]
pub struct TxInput {
    pub prev_txid: Vec<u8>,
    pub prev_vout: u32,
    pub witness: Vec<Vec<u8>>,
}

/// A decoded transaction: inputs, output values in satoshis, and the
/// serialized virtual size in virtual bytes.
#[derive(Debug)]
pub struct Tx {
    pub inputs: Vec<TxInput>,
    pub outputs: Vec<u64>,
    pub vsize: u64,
}

/// Mathematical model of one transaction input.
pub struct TxInputModel {
    pub prev_txid: Seq<u8>,
    pub prev_vout: u32,
    pub witness: Seq<Seq<u8>>,
}

/// Mathematical model of a decoded transaction.
pub struct TxModel {
    pub inputs: Seq<TxInputModel>,
    pub outputs: Seq<u64>,
    pub vsize: u64,
}

impl View for TxInput {
    type V = TxInputModel;

    open spec fn view(&self) -> TxInputModel {
        TxInputModel {
            prev_txid: self.prev_txid@,
            prev_vout: self.prev_vout,
            witness: self.witness.deep_view(),
        }
    }
}

impl View for Tx {
    type V = TxModel;

    open spec fn view(&self) -> TxModel {
        TxModel {
            inputs: self.inputs@.map_values(|i: TxInput| i@),
            outputs: self.outputs@,
            vsize: self.vsize,
        }
    }
}

/// Whether `c` is a hexadecimal digit, in either case.
pub open spec fn is_hex_digit(c: char) -> bool {
    ('0' as int <= c as int && c as int <= '9' as int)
        || ('a' as int <= c as int && c as int <= 'f' as int)
        || ('A' as int <= c as int && c as int <= 'F' as int)
}

/// The numeric value of a hexadecimal digit.
pub open spec fn hex_digit_value(c: char) -> int {
    if '0' as int <= c as int && c as int <= '9' as int {
        c as int - '0' as int
    } else if 'a' as int <= c as int && c as int <= 'f' as int {
        c as int - 'a' as int + 10
    } else {
        c as int - 'A' as int + 10
    }
}

/// Whether every character of `s` is a hexadecimal digit.
pub open spec fn all_hex_digits(s: Seq<char>) -> bool {
    forall|i: int| 0 <= i < s.len() ==> is_hex_digit(#[trigger] s[i])
}

/// The bytes an even-length hexadecimal string stands for: one byte per
/// digit pair, high nibble first.
pub open spec fn hex_decoded(s: Seq<char>) -> Seq<u8>
    decreases s.len(),
{
    if s.len() < 2 {
        Seq::empty()
    } else {
        seq![(16 * hex_digit_value(s[0]) + hex_digit_value(s[1])) as u8] + hex_decoded(
            s.skip(2),
        )
    }
}

/// The structured transaction that a byte string consensus-decodes to, if
/// any. The decoding is done by outside code; this name stands for its
/// result, which depends on the bytes alone.
pub uninterp spec fn tx_of(bytes: Seq<u8>) -> Option<TxModel>;

/// Relies on `hex::decode`: it succeeds exactly on even-length strings of
/// hexadecimal digits (either case) and yields one byte per digit pair,
/// high nibble first.
#[verifier::external_body]
fn decode_hex(s: &str) -> (r: Option<Vec<u8>>)
    ensures
        r is Some <==> (s@.len() % 2 == 0 && all_hex_digits(s@)),
        r matches Some(b) ==> b@ == hex_decoded(s@),
{
    hex::decode(s).ok()
}

/// Relies on `bdk::bitcoin::consensus::encode::deserialize` for the
/// structured transaction, a function of the input bytes alone, named
/// `tx_of` here; and on `Transaction::vsize`, which counts at least the
/// fixed version and lock-time fields, so it is never zero.
#[verifier::external_body]
fn parse_tx(bytes: &Vec<u8>) -> (r: Option<Tx>)
    ensures
        r is Some <==> tx_of(bytes@) is Some,
        r matches Some(t) ==> Some(t@) == tx_of(bytes@) && t.vsize >= 1,
{
    let t: bdk::bitcoin::Transaction =
        match bdk::bitcoin::consensus::encode::deserialize(bytes.as_slice()) {
            Ok(t) => t,
            Err(_) => return None,
        };
    let inputs = t.input.iter().map(|i| TxInput {
        prev_txid: bdk::bitcoin::hashes::Hash::to_byte_array(i.previous_output.txid).to_vec(),
        prev_vout: i.previous_output.vout,
        witness: i.witness.to_vec(),
    }).collect();
    let outputs = t.output.iter().map(|o| o.value).collect();
    Some(Tx { inputs, outputs, vsize: t.vsize() as u64 })
}

/// The transaction a hex string stands for: `None` when the string is not
/// even-length hex, or its bytes do not consensus-decode.
pub open spec fn spec_parse(s: Seq<char>) -> Option<TxModel> {
    if s.len() % 2 == 0 && all_hex_digits(s) {
        tx_of(hex_decoded(s))
    } else {
        None
    }
}

/// Decode a hex-encoded transaction into the plain transaction data.
pub fn parse_transaction_hex(s: &str) -> (r: Option<Tx>)
    ensures
        r is Some <==> spec_parse(s@) is Some,
        r matches Some(t) ==> Some(t@) == spec_parse(s@) && t.vsize >= 1,
{
    match decode_hex(s) {
        None => None,
        Some(b) => parse_tx(&b),
    }
}

} // verus!
