use vstd::prelude::*;

use crate::offer::{
    bounds_error, closed, create_error, fill_error, filled, offer_wf, prop_send, status_error,
    updated, SwapView,
};
use crate::types::{FeeView, KeyView, OfferStatus, OfferView, SwapError};

verus! {

/// Whether every fill in `amounts`, made in order on `o`, succeeds.
pub open spec fn fills_succeed(fee: Option<FeeView>, o: OfferView, amounts: Seq<int>) -> bool
    decreases amounts.len(),
{
    if amounts.len() == 0 {
        true
    } else {
        fill_error(fee, o, amounts[0]) is None && fills_succeed(
            fee,
            filled(o, amounts[0]),
            amounts.drop_first(),
        )
    }
}

/// The record after the fills in `amounts`, made in order on `o`.
pub open spec fn after_fills(o: OfferView, amounts: Seq<int>) -> OfferView
    decreases amounts.len(),
{
    if amounts.len() == 0 {
        o
    } else {
        after_fills(filled(o, amounts[0]), amounts.drop_first())
    }
}

/// The sum of what the escrow releases over the fills in `amounts`.
pub open spec fn total_released(o: OfferView, amounts: Seq<int>) -> int
    decreases amounts.len(),
{
    if amounts.len() == 0 {
        0
    } else {
        prop_send(o, amounts[0]) + total_released(filled(o, amounts[0]), amounts.drop_first())
    }
}

/// The sum of the amounts in `amounts`.
pub open spec fn total_paid(amounts: Seq<int>) -> int
    decreases amounts.len(),
{
    if amounts.len() == 0 {
        0
    } else {
        amounts[0] + total_paid(amounts.drop_first())
    }
}

/// A successful fill keeps a record well formed: in particular an offer
/// that stays active still has its floor at or below what it asks.
pub proof fn lemma_fill_keeps_floor(fee: Option<FeeView>, o: OfferView, amount: int)
    requires
        offer_wf(o),
        fill_error(fee, o, amount) is None,
    ensures
        offer_wf(filled(o, amount)),
        filled(o, amount).status == OfferStatus::Active ==> filled(o, amount).min_recv_amount
            <= filled(o, amount).recv_amount,
{
    crate::offer::lemma_prop_send_bounds(o, amount);
}

/// Over any run of successful fills on one offer, the escrow releases no
/// more than the offer held, and the amounts paid add up to exactly what
/// the asked amount went down by.
pub proof fn lemma_conservation(fee: Option<FeeView>, o: OfferView, amounts: Seq<int>)
    requires
        offer_wf(o),
        fills_succeed(fee, o, amounts),
    ensures
        total_released(o, amounts) <= o.send_amount,
        total_released(o, amounts) == o.send_amount - after_fills(o, amounts).send_amount,
        total_paid(amounts) == o.recv_amount - after_fills(o, amounts).recv_amount,
    decreases amounts.len(),
{
    if amounts.len() > 0 {
        lemma_fill_keeps_floor(fee, o, amounts[0]);
        lemma_conservation(fee, filled(o, amounts[0]), amounts.drop_first());
    }
}

/// An operation on a single offer, as the ledger applies it.
pub enum OfferOp {
    Accept { amount: int },
    Update { recv: int, min: int },
    Close,
}

/// First failing condition of `op` on the stored record `o`: the same
/// conditions `accept`, `update` and `close` check once the key is found.
pub open spec fn op_error(fee: Option<FeeView>, o: OfferView, op: OfferOp) -> Option<SwapError> {
    match op {
        OfferOp::Accept { amount } => fill_error(fee, o, amount),
        OfferOp::Update { recv, min } => if bounds_error(recv, min) is Some {
            bounds_error(recv, min)
        } else {
            status_error(o)
        },
        OfferOp::Close => status_error(o),
    }
}

/// The record after a successful `op`.
pub open spec fn op_result(o: OfferView, op: OfferOp) -> OfferView {
    match op {
        OfferOp::Accept { amount } => filled(o, amount),
        OfferOp::Update { recv, min } => updated(o, recv, min),
        OfferOp::Close => closed(o),
    }
}

/// Whether every operation in `ops`, applied in order to `o`, succeeds.
pub open spec fn ops_succeed(fee: Option<FeeView>, o: OfferView, ops: Seq<OfferOp>) -> bool
    decreases ops.len(),
{
    if ops.len() == 0 {
        true
    } else {
        op_error(fee, o, ops[0]) is None && ops_succeed(fee, op_result(o, ops[0]), ops.drop_first())
    }
}

/// The record after the operations in `ops`, applied in order to `o`.
pub open spec fn after_ops(o: OfferView, ops: Seq<OfferOp>) -> OfferView
    decreases ops.len(),
{
    if ops.len() == 0 {
        o
    } else {
        after_ops(op_result(o, ops[0]), ops.drop_first())
    }
}

/// Whether no update in `ops`, applied in order to `o`, asks for more than
/// the record asked for just before it.
pub open spec fn no_raising_update(o: OfferView, ops: Seq<OfferOp>) -> bool
    decreases ops.len(),
{
    if ops.len() == 0 {
        true
    } else {
        (match ops[0] {
            OfferOp::Update { recv, min } => recv <= o.recv_amount,
            _ => true,
        }) && no_raising_update(op_result(o, ops[0]), ops.drop_first())
    }
}

/// Over the lifetime of an offer the escrowed amount never grows, the
/// asked amount never grows except where an update raises it, and the
/// status never returns to active: a finished offer takes no further
/// operation at all.
pub proof fn lemma_lifetime_monotone(fee: Option<FeeView>, o: OfferView, ops: Seq<OfferOp>)
    requires
        offer_wf(o),
        ops_succeed(fee, o, ops),
    ensures
        offer_wf(after_ops(o, ops)),
        after_ops(o, ops).send_amount <= o.send_amount,
        no_raising_update(o, ops) ==> after_ops(o, ops).recv_amount <= o.recv_amount,
        after_ops(o, ops).status == OfferStatus::Active ==> o.status == OfferStatus::Active,
        o.status != OfferStatus::Active ==> ops.len() == 0,
    decreases ops.len(),
{
    if ops.len() > 0 {
        let n = op_result(o, ops[0]);
        match ops[0] {
            OfferOp::Accept { amount } => {
                lemma_fill_keeps_floor(fee, o, amount);
                crate::offer::lemma_prop_send_bounds(o, amount);
            },
            _ => {},
        }
        lemma_lifetime_monotone(fee, n, ops.drop_first());
    }
}

/// The sum of what the escrow releases over the fills among `ops`,
/// applied in order to `o`.
pub open spec fn ops_released(o: OfferView, ops: Seq<OfferOp>) -> int
    decreases ops.len(),
{
    if ops.len() == 0 {
        0
    } else {
        (match ops[0] {
            OfferOp::Accept { amount } => prop_send(o, amount),
            _ => 0,
        }) + ops_released(op_result(o, ops[0]), ops.drop_first())
    }
}

/// Updates and closes between fills do not touch the escrow: over any run
/// of successful operations on one offer, the fills release exactly what
/// the escrowed amount went down by, never more than it held, and no fill
/// releases a negative amount.
pub proof fn lemma_escrow_conservation(fee: Option<FeeView>, o: OfferView, ops: Seq<OfferOp>)
    requires
        offer_wf(o),
        ops_succeed(fee, o, ops),
    ensures
        0 <= ops_released(o, ops),
        ops_released(o, ops) == o.send_amount - after_ops(o, ops).send_amount,
        ops_released(o, ops) <= o.send_amount,
    decreases ops.len(),
{
    if ops.len() > 0 {
        let n = op_result(o, ops[0]);
        match ops[0] {
            OfferOp::Accept { amount } => {
                lemma_fill_keeps_floor(fee, o, amount);
                crate::offer::lemma_prop_send_bounds(o, amount);
            },
            _ => {},
        }
        lemma_escrow_conservation(fee, n, ops.drop_first());
        lemma_lifetime_monotone(fee, n, ops.drop_first());
    }
}

/// `create` never replaces a stored record: on a key already in use it
/// fails, and a failing `create` leaves the ledger as it was.
pub proof fn lemma_create_keeps_existing(s: SwapView, k: KeyView, send: int, recv: int, min: int)
    requires
        s.offers.contains_key(k),
    ensures
        create_error(s, k, send, recv, min) is Some,
        s.fee is Some && s.allowed.contains(k.send_token) && s.allowed.contains(k.recv_token)
            ==> create_error(s, k, send, recv, min) == Some(SwapError::DuplicateOffer),
{
}

} // verus!
