//! The multi-step validation pipeline over a hex-encoded transaction.
//!
//! Checks run in a fixed order and stop at the first failure: decode,
//! shape (exactly one input and one output), previous-output value,
//! fee rate against the declared minimum, sighash type, spent status.
//! The two oracle answers (previous-output value and spent status) enter
//! as plain values, so everything decided here is decided for every
//! possible answer; the caller performs the queries between the stages.

use vstd::prelude::*;
use crate::fee::FeeRate;
use crate::tx::{Tx, TxModel, spec_parse, parse_transaction_hex};

verus! {

/// Why a submission was rejected. Every rejection is an answer to the
/// submitter, never a crash, and none of them touches the registry.
#[derive(Clone, Copy, PartialEq, Eq, Structural, Debug)]
pub enum RejectReason {
    /// The hex or the consensus encoding could not be decoded.
    MalformedTransaction,
    /// Input or output count is not exactly one each.
    WrongShape,
    /// The previous output's value could not be resolved.
    UnresolvableInput,
    /// The fee rate really paid is below the declared minimum.
    FeeBelowDeclared,
    /// The witness is not a two-item stack whose signature ends in the one
    /// permitted sighash byte.
    WrongSighashType,
    /// The previous output is no longer unspent.
    DoubleSpend,
}

/// The trailing signature byte for "sign only this input and this output,
/// allow other inputs to be added" — the property that makes independent
/// merging of submissions safe.
pub const SIGHASH_SINGLE_ANYONECANPAY: u8 = 0x83;

/// Exactly one input and one output.
pub open spec fn spec_shape_ok(t: TxModel) -> bool {
    t.inputs.len() == 1 && t.outputs.len() == 1
}

/// The single input's witness carries exactly a signature and a public
/// key, and the signature's trailing byte is the one permitted sighash
/// type.
pub open spec fn spec_sighash_ok(t: TxModel) -> bool {
    &&& t.inputs.len() >= 1
    &&& t.inputs[0].witness.len() == 2
    &&& t.inputs[0].witness[0].len() >= 1
    &&& t.inputs[0].witness[0].last() == SIGHASH_SINGLE_ANYONECANPAY
}

/// The number of inputs and outputs of a transaction.
pub fn get_num_inputs_and_outputs(tx: &Tx) -> (r: (usize, usize))
    ensures
        r.0 == tx@.inputs.len(),
        r.1 == tx@.outputs.len(),
{
    (tx.inputs.len(), tx.outputs.len())
}

/// Whether the transaction's first input carries the two-item witness
/// closed by the one permitted sighash byte.
pub fn check_sighash_single_anyone_can_pay(tx: &Tx) -> (r: bool)
    requires
        tx@.inputs.len() >= 1,
    ensures
        r == spec_sighash_ok(tx@),
{
    let input = &tx.inputs[0];
    if input.witness.len() != 2 {
        return false;
    }
    let sig = &input.witness[0];
    if sig.len() == 0 {
        return false;
    }
    sig[sig.len() - 1] == SIGHASH_SINGLE_ANYONECANPAY
}

/// A parsed submission that passed the structural checks and still awaits
/// the oracle's answers about its previous output.
#[derive(Debug)]
pub struct PendingSubmission {
    pub tx: Tx,
    pub declared_min: FeeRate,
}

impl PendingSubmission {
    pub open spec fn wf(self) -> bool {
        spec_shape_ok(self.tx@) && self.declared_min.wf() && self.tx.vsize >= 1
    }

    /// The previous-output reference (transaction id bytes, output index)
    /// the oracle is asked about.
    pub fn previous_output(&self) -> (r: (&Vec<u8>, u32))
        requires
            self.wf(),
        ensures
            r.0@ == self.tx@.inputs[0].prev_txid,
            r.1 == self.tx@.inputs[0].prev_vout,
    {
        (&self.tx.inputs[0].prev_txid, self.tx.inputs[0].prev_vout)
    }
}

/// A fully validated submission: the transaction together with the real
/// fee rate it pays and the minimum it declared. Built only by successful
/// validation, never mutated afterwards.
#[derive(Debug)]
pub struct ValidatedSubmission {
    pub tx: Tx,
    pub real_fee: FeeRate,
    pub declared_min: FeeRate,
}

/// Mathematical model of a validated submission.
pub struct SubmissionModel {
    pub tx: TxModel,
    pub real_fee: FeeRate,
    pub declared_min: FeeRate,
}

impl SubmissionModel {
    pub open spec fn wf(self) -> bool {
        &&& spec_shape_ok(self.tx)
        &&& spec_sighash_ok(self.tx)
        &&& self.real_fee.wf()
        &&& self.declared_min.wf()
        &&& self.declared_min.spec_le(self.real_fee)
        &&& self.real_fee.vbytes == self.tx.vsize
    }
}

impl View for ValidatedSubmission {
    type V = SubmissionModel;

    open spec fn view(&self) -> SubmissionModel {
        SubmissionModel { tx: self.tx@, real_fee: self.real_fee, declared_min: self.declared_min }
    }
}

impl ValidatedSubmission {
    pub open spec fn wf(self) -> bool {
        self@.wf()
    }
}

/// Steps one and two of the pipeline: what decoding and the shape check
/// answer for a hex string.
pub open spec fn spec_parse_outcome(s: Seq<char>) -> Result<TxModel, RejectReason> {
    match spec_parse(s) {
        None => Err(RejectReason::MalformedTransaction),
        Some(t) => if !spec_shape_ok(t) {
            Err(RejectReason::WrongShape)
        } else {
            Ok(t)
        },
    }
}

/// Whether the fee really paid meets the declared minimum:
/// `declared <= (prev_value - out_value) / vsize` as exact rationals. A
/// previous output worth less than the output pays a negative fee, which
/// no nonnegative declared minimum can meet.
pub open spec fn spec_fee_ok(
    declared: FeeRate,
    prev_value: u64,
    out_value: u64,
    vsize: u64,
) -> bool {
    prev_value >= out_value && declared.spec_le(
        (FeeRate { sats: (prev_value - out_value) as u64, vbytes: vsize }),
    )
}

/// Steps three to six of the pipeline, given the oracle's two answers: a
/// zero value is unresolvable; then the fee check, the sighash check, and
/// the spent check, in that order.
pub open spec fn spec_oracle_outcome(
    declared: FeeRate,
    t: TxModel,
    prev_value: u64,
    prev_unspent: bool,
) -> Result<FeeRate, RejectReason> {
    if prev_value == 0 {
        Err(RejectReason::UnresolvableInput)
    } else if !spec_fee_ok(declared, prev_value, t.outputs[0], t.vsize) {
        Err(RejectReason::FeeBelowDeclared)
    } else if !spec_sighash_ok(t) {
        Err(RejectReason::WrongSighashType)
    } else if !prev_unspent {
        Err(RejectReason::DoubleSpend)
    } else {
        Ok(FeeRate { sats: (prev_value - t.outputs[0]) as u64, vbytes: t.vsize })
    }
}

/// The whole pipeline on plain values: what validation answers for a
/// declared minimum, a hex string, and the oracle's two answers.
pub open spec fn spec_validate(
    declared: FeeRate,
    s: Seq<char>,
    prev_value: u64,
    prev_unspent: bool,
) -> Result<(TxModel, FeeRate), RejectReason> {
    match spec_parse_outcome(s) {
        Err(e) => Err(e),
        Ok(t) => match spec_oracle_outcome(declared, t, prev_value, prev_unspent) {
            Err(e) => Err(e),
            Ok(f) => Ok((t, f)),
        },
    }
}

/// Decode the hex transaction and check its shape (pipeline steps one and
/// two). No oracle answer is needed before this step succeeds.
pub fn parse_and_check_shape(declared_min: &FeeRate, tx_hex: &str) -> (r: Result<
    PendingSubmission,
    RejectReason,
>)
    requires
        declared_min.wf(),
    ensures
        r matches Ok(p) ==> p.wf() && p.declared_min == *declared_min && spec_parse_outcome(
            tx_hex@,
        ) == Ok::<TxModel, RejectReason>(p.tx@),
        r matches Err(e) ==> spec_parse_outcome(tx_hex@) == Err::<TxModel, RejectReason>(e),
{
    let t = match parse_transaction_hex(tx_hex) {
        None => {
            return Err(RejectReason::MalformedTransaction);
        },
        Some(t) => t,
    };
    let (num_inputs, num_outputs) = get_num_inputs_and_outputs(&t);
    if !(num_inputs == 1 && num_outputs == 1) {
        return Err(RejectReason::WrongShape);
    }
    Ok(PendingSubmission { tx: t, declared_min: *declared_min })
}

/// Pipeline steps three to six, on the oracle's answers for the pending
/// submission's previous output: `prev_value` is that output's value in
/// satoshis (zero when the oracle could not resolve it), `prev_unspent`
/// whether it is still unspent.
pub fn resolve_with_oracle_answers(
    pending: PendingSubmission,
    prev_value: u64,
    prev_unspent: bool,
) -> (r: Result<ValidatedSubmission, RejectReason>)
    requires
        pending.wf(),
    ensures
        r matches Ok(v) ==> spec_oracle_outcome(pending.declared_min, pending.tx@, prev_value,
            prev_unspent) == Ok::<FeeRate, RejectReason>(v.real_fee) && v.wf() && v.tx
            == pending.tx && v.declared_min == pending.declared_min,
        r matches Err(e) ==> spec_oracle_outcome(pending.declared_min, pending.tx@, prev_value,
            prev_unspent) == Err::<FeeRate, RejectReason>(e),
{
    if prev_value == 0 {
        return Err(RejectReason::UnresolvableInput);
    }
    let out_value = pending.tx.outputs[0];
    let fee_ok = if prev_value >= out_value {
        let real_rate = FeeRate::new(prev_value - out_value, pending.tx.vsize);
        pending.declared_min.le(&real_rate)
    } else {
        false
    };
    if !fee_ok {
        return Err(RejectReason::FeeBelowDeclared);
    }
    if !check_sighash_single_anyone_can_pay(&pending.tx) {
        return Err(RejectReason::WrongSighashType);
    }
    if !prev_unspent {
        return Err(RejectReason::DoubleSpend);
    }
    let real_fee = FeeRate::new(prev_value - out_value, pending.tx.vsize);
    Ok(ValidatedSubmission { tx: pending.tx, real_fee, declared_min: pending.declared_min })
}

/// Validate a hex-encoded transaction against the declared minimum fee
/// rate, with the oracle's two answers about its previous output given as
/// plain values. Success means: exactly one input and one output, a real
/// fee rate at least the declared one, the one permitted sighash type,
/// and a previous output still unspent.
pub fn validate_tx_query_one_to_one_single_anyone_can_pay(
    min_fee_rate: &FeeRate,
    tx_hex: &str,
    prev_value: u64,
    prev_unspent: bool,
) -> (r: Result<ValidatedSubmission, RejectReason>)
    requires
        min_fee_rate.wf(),
    ensures
        r matches Ok(v) ==> spec_validate(*min_fee_rate, tx_hex@, prev_value, prev_unspent)
            == Ok::<(TxModel, FeeRate), RejectReason>((v.tx@, v.real_fee)) && v.wf()
            && v.declared_min == *min_fee_rate,
        r matches Err(e) ==> spec_validate(*min_fee_rate, tx_hex@, prev_value, prev_unspent)
            == Err::<(TxModel, FeeRate), RejectReason>(e),
{
    let pending = match parse_and_check_shape(min_fee_rate, tx_hex) {
        Err(e) => {
            return Err(e);
        },
        Ok(p) => p,
    };
    resolve_with_oracle_answers(pending, prev_value, prev_unspent)
}

/// Validation short-circuit: a transaction stopped by decoding or by the
/// shape check is rejected the same way whatever the oracle would have
/// answered — no oracle query can influence (or is needed for) its fate.
pub proof fn lemma_validation_short_circuit(
    declared: FeeRate,
    s: Seq<char>,
    v1: u64,
    u1: bool,
    v2: u64,
    u2: bool,
)
    requires
        spec_parse_outcome(s) is Err,
    ensures
        spec_validate(declared, s, v1, u1) == spec_validate(declared, s, v2, u2),
        spec_validate(declared, s, v1, u1) matches Err(e) && spec_parse_outcome(s) == Err::<
            TxModel,
            RejectReason,
        >(e),
{
}

/// Fee-cheating rejection: when the declared minimum exceeds the fee the
/// transaction really pays, it is rejected as `FeeBelowDeclared`,
/// whatever its sighash type and spent status.
pub proof fn lemma_fee_cheating_rejected(
    declared: FeeRate,
    t: TxModel,
    prev_value: u64,
    prev_unspent: bool,
)
    requires
        prev_value >= 1,
        !spec_fee_ok(declared, prev_value, t.outputs[0], t.vsize),
    ensures
        spec_oracle_outcome(declared, t, prev_value, prev_unspent) == Err::<
            FeeRate,
            RejectReason,
        >(RejectReason::FeeBelowDeclared),
{
}

/// Sighash gate: a transaction whose witness is not the two-item stack
/// closed by the one permitted sighash byte is rejected as
/// `WrongSighashType`, even when every other check passes.
pub proof fn lemma_sighash_gate(
    declared: FeeRate,
    t: TxModel,
    prev_value: u64,
    prev_unspent: bool,
)
    requires
        prev_value >= 1,
        spec_fee_ok(declared, prev_value, t.outputs[0], t.vsize),
        !spec_sighash_ok(t),
    ensures
        spec_oracle_outcome(declared, t, prev_value, prev_unspent) == Err::<
            FeeRate,
            RejectReason,
        >(RejectReason::WrongSighashType),
{
}

} // verus!
