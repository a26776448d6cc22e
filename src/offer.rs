use vstd::prelude::*;

use crate::allow::{allow_get, allow_reset, allow_set, AllowStore};
use crate::book::OfferBook;
use crate::fee::{fee_get, fee_init, fee_set, FeeStore};
use crate::types::{
    copy_bytes, fits_i128, transfers_view, FeeInfo, FeeView, KeyView, OfferInfo, OfferKey,
    OfferStatus, OfferView, Party, PartyView, SwapError, Transfer, TransferView, FEE_SCALE,
};

verus! {

/// The fee on `amount` at `rate`: `amount * rate / FEE_SCALE`, truncated
/// toward zero.
pub open spec fn fee_of(amount: int, rate: int) -> int {
    let p = amount * rate;
    if p >= 0 {
        p / (FEE_SCALE as int)
    } else {
        -((-p) / (FEE_SCALE as int))
    }
}

/// The key that the four identifying arguments of an operation name.
pub open spec fn key_of(offeror: Seq<u8>, send_token: Seq<u8>, recv_token: Seq<u8>, timestamp: u64) -> KeyView {
    KeyView { offeror, send_token, recv_token, timestamp }
}

/// What holds of every stored record: amounts never go negative, and an
/// active offer still asks for something and its floor does not exceed it.
pub open spec fn offer_wf(o: OfferView) -> bool {
    &&& o.send_amount >= 0
    &&& o.recv_amount >= 0
    &&& o.status == OfferStatus::Active ==> 0 < o.recv_amount && o.min_recv_amount <= o.recv_amount
}

/// A record carries the identities of the key it is stored under.
pub open spec fn record_matches(k: KeyView, o: OfferView) -> bool {
    &&& o.offeror == k.offeror
    &&& o.send_token == k.send_token
    &&& o.recv_token == k.recv_token
}

/// The ledger as a whole: fee record, allowed tokens and offers.
pub struct SwapView {
    pub fee: Option<FeeView>,
    pub allowed: Set<Seq<u8>>,
    pub offers: Map<KeyView, OfferView>,
}

/// First failing condition of `create`, in the order they are checked.
pub open spec fn create_error(s: SwapView, k: KeyView, send: int, recv: int, min: int) -> Option<SwapError> {
    if s.fee is None {
        Some(SwapError::NotInitialized)
    } else if !s.allowed.contains(k.send_token) || !s.allowed.contains(k.recv_token) {
        Some(SwapError::NotAllowed)
    } else if s.offers.contains_key(k) {
        Some(SwapError::DuplicateOffer)
    } else if send == 0 || recv == 0 {
        Some(SwapError::ZeroAmount)
    } else if min > recv {
        Some(SwapError::InvalidBounds)
    } else if send < 0 || recv < 0 {
        Some(SwapError::NegativeAmount)
    } else if !fits_i128(send * s.fee->Some_0.rate) {
        Some(SwapError::Overflow)
    } else {
        None
    }
}

/// The record that `create` stores.
pub open spec fn created(k: KeyView, send: int, recv: int, min: int) -> OfferView {
    OfferView {
        offeror: k.offeror,
        send_token: k.send_token,
        recv_token: k.recv_token,
        send_amount: send,
        recv_amount: recv,
        min_recv_amount: min,
        status: OfferStatus::Active,
    }
}

/// What `create` moves: the offered amount into escrow, then the fee on it
/// to the fee wallet, both in the offered token and from the offeror.
pub open spec fn create_transfers(fee: FeeView, k: KeyView, send: int) -> Seq<TransferView> {
    seq![
        TransferView {
            token: k.send_token,
            from: PartyView::Account(k.offeror),
            to: PartyView::Escrow,
            amount: send,
        },
        TransferView {
            token: k.send_token,
            from: PartyView::Account(k.offeror),
            to: PartyView::Account(fee.wallet),
            amount: fee_of(send, fee.rate),
        },
    ]
}

/// The part of the escrow that a fill of `amount` releases:
/// `amount * send_amount / recv_amount`, rounded down, on the balances that
/// remain at the moment of the fill.
pub open spec fn prop_send(o: OfferView, amount: int) -> int {
    (amount * o.send_amount) / o.recv_amount
}

/// First failing condition of a fill of `amount` on record `o`, in the
/// order they are checked.
pub open spec fn fill_error(fee: Option<FeeView>, o: OfferView, amount: int) -> Option<SwapError> {
    if fee is None {
        Some(SwapError::NotInitialized)
    } else if o.status != OfferStatus::Active {
        Some(SwapError::OfferNotAvailable)
    } else if o.recv_amount < amount {
        Some(SwapError::ExceedsAvailable)
    } else if amount < o.min_recv_amount {
        Some(SwapError::BelowMinimum)
    } else if amount < 0 {
        Some(SwapError::NegativeAmount)
    } else if !fits_i128(amount * fee->Some_0.rate) || !fits_i128(amount * o.send_amount) {
        Some(SwapError::Overflow)
    } else {
        None
    }
}

/// The record after a fill of `amount`: both balances shrink, the offer
/// completes when nothing more is asked, and otherwise the floor is lowered
/// to what is still asked when it exceeds it.
pub open spec fn filled(o: OfferView, amount: int) -> OfferView {
    let send = o.send_amount - prop_send(o, amount);
    let recv = o.recv_amount - amount;
    OfferView {
        send_amount: send,
        recv_amount: recv,
        min_recv_amount: if recv != 0 && recv < o.min_recv_amount {
            recv
        } else {
            o.min_recv_amount
        },
        status: if recv == 0 {
            OfferStatus::Complete
        } else {
            o.status
        },
        ..o
    }
}

/// What a fill moves, in order: the fee on `amount` and `amount` itself,
/// both in the asked token from the acceptor, to the fee wallet and to the
/// offeror; then the released part of the escrow to the acceptor.
pub open spec fn fill_transfers(fee: FeeView, o: OfferView, acceptor: Seq<u8>, amount: int) -> Seq<TransferView> {
    seq![
        TransferView {
            token: o.recv_token,
            from: PartyView::Account(acceptor),
            to: PartyView::Account(fee.wallet),
            amount: fee_of(amount, fee.rate),
        },
        TransferView {
            token: o.recv_token,
            from: PartyView::Account(acceptor),
            to: PartyView::Account(o.offeror),
            amount: amount,
        },
        TransferView {
            token: o.send_token,
            from: PartyView::Escrow,
            to: PartyView::Account(acceptor),
            amount: prop_send(o, amount),
        },
    ]
}

/// First failing condition of `accept`.
pub open spec fn accept_error(s: SwapView, k: KeyView, amount: int) -> Option<SwapError> {
    if !s.offers.contains_key(k) {
        Some(SwapError::NotFound)
    } else {
        fill_error(s.fee, s.offers[k], amount)
    }
}

/// The check shared by `update` and `close`: only an active offer changes.
pub open spec fn status_error(o: OfferView) -> Option<SwapError> {
    if o.status != OfferStatus::Active {
        Some(SwapError::OfferNotAvailable)
    } else {
        None
    }
}

/// The checks of `update` on its two amounts alone, in order.
pub open spec fn bounds_error(recv: int, min: int) -> Option<SwapError> {
    if recv == 0 {
        Some(SwapError::ZeroAmount)
    } else if min > recv {
        Some(SwapError::InvalidBounds)
    } else if recv < 0 {
        Some(SwapError::NegativeAmount)
    } else {
        None
    }
}

/// First failing condition of `update`, in the order they are checked.
pub open spec fn update_error(s: SwapView, k: KeyView, recv: int, min: int) -> Option<SwapError> {
    if bounds_error(recv, min) is Some {
        bounds_error(recv, min)
    } else if !s.offers.contains_key(k) {
        Some(SwapError::NotFound)
    } else {
        status_error(s.offers[k])
    }
}

/// The record after `update`: both asked amounts replaced, all else kept.
pub open spec fn updated(o: OfferView, recv: int, min: int) -> OfferView {
    OfferView { recv_amount: recv, min_recv_amount: min, ..o }
}

/// First failing condition of `close`.
pub open spec fn close_error(s: SwapView, k: KeyView) -> Option<SwapError> {
    if !s.offers.contains_key(k) {
        Some(SwapError::NotFound)
    } else {
        status_error(s.offers[k])
    }
}

/// The record after `close`.
pub open spec fn closed(o: OfferView) -> OfferView {
    OfferView { status: OfferStatus::Cancelled, ..o }
}

/// What `close` moves: the whole remaining escrow back to the offeror.
pub open spec fn close_transfers(o: OfferView) -> Seq<TransferView> {
    seq![
        TransferView {
            token: o.send_token,
            from: PartyView::Escrow,
            to: PartyView::Account(o.offeror),
            amount: o.send_amount,
        },
    ]
}

/// A fill never releases more than the escrow holds, nor a negative part.
pub proof fn lemma_prop_send_bounds(o: OfferView, amount: int)
    requires
        0 <= amount <= o.recv_amount,
        0 < o.recv_amount,
        0 <= o.send_amount,
    ensures
        0 <= prop_send(o, amount) <= o.send_amount,
{
    let a = amount;
    let b = o.send_amount;
    let c = o.recv_amount;
    assert(0 <= a * b <= c * b) by (nonlinear_arith)
        requires
            0 <= a <= c,
            0 <= b,
    ;
    assert(0 <= (a * b) / c <= b) by (nonlinear_arith)
        requires
            0 <= a * b <= c * b,
            0 < c,
    ;
}

/// The escrow-backed swap ledger.
pub struct TokenSwap {
    pub fee: FeeStore,
    pub allow: AllowStore,
    pub offers: OfferBook,
}

impl View for TokenSwap {
    type V = SwapView;

    open spec fn view(&self) -> SwapView {
        SwapView { fee: self.fee@, allowed: self.allow@, offers: self.offers@ }
    }
}

impl TokenSwap {
    /// The stores are consistent and every record satisfies `offer_wf`
    /// and matches its key.
    pub open spec fn wf(&self) -> bool {
        &&& self.allow.wf()
        &&& self.offers.wf()
        &&& forall|k: KeyView| #[trigger]
            self.offers@.contains_key(k) ==> offer_wf(self.offers@[k]) && record_matches(
                k,
                self.offers@[k],
            )
    }

    /// An empty ledger: no fee record, no allowed token, no offer.
    pub fn new() -> (r: TokenSwap)
        ensures
            r.wf(),
            r@.fee is None,
            r@.allowed == Set::<Seq<u8>>::empty(),
            r@.offers == Map::<KeyView, OfferView>::empty(),
    {
        TokenSwap { fee: FeeStore::new(), allow: AllowStore::new(), offers: OfferBook::new() }
    }

    /// Sets the fee record once; fails with `AlreadyInitialized` after that.
    pub fn init_fee(&mut self, fee_rate: u32, fee_wallet: Vec<u8>) -> (r: Result<(), SwapError>)
        requires
            old(self).wf(),
        ensures
            final(self).wf(),
            final(self)@.allowed == old(self)@.allowed,
            final(self)@.offers == old(self)@.offers,
            old(self)@.fee is Some ==> r == Err::<(), SwapError>(SwapError::AlreadyInitialized)
                && final(self)@.fee == old(self)@.fee,
            old(self)@.fee is None ==> r is Ok && final(self)@.fee == Some(
                FeeView { rate: fee_rate as int, wallet: fee_wallet@ },
            ),
    {
        fee_init(&mut self.fee, FeeInfo { fee_rate, fee_wallet })
    }

    /// Replaces rate and wallet together; fails with `NotInitialized` when no
    /// fee record exists yet.
    pub fn set_fee(&mut self, fee_rate: u32, fee_wallet: Vec<u8>) -> (r: Result<(), SwapError>)
        requires
            old(self).wf(),
        ensures
            final(self).wf(),
            final(self)@.allowed == old(self)@.allowed,
            final(self)@.offers == old(self)@.offers,
            old(self)@.fee is None ==> r == Err::<(), SwapError>(SwapError::NotInitialized)
                && final(self)@.fee is None,
            old(self)@.fee is Some ==> r is Ok && final(self)@.fee == Some(
                FeeView { rate: fee_rate as int, wallet: fee_wallet@ },
            ),
    {
        fee_set(&mut self.fee, FeeInfo { fee_rate, fee_wallet })
    }

    /// Allows offers to use `token`.
    pub fn allow_token(&mut self, token: Vec<u8>)
        requires
            old(self).wf(),
        ensures
            final(self).wf(),
            final(self)@ == (SwapView { allowed: old(self)@.allowed.insert(token@), ..old(self)@ }),
    {
        allow_set(&mut self.allow, &token);
    }

    /// Stops new offers from using `token`.
    pub fn disallow_token(&mut self, token: Vec<u8>)
        requires
            old(self).wf(),
        ensures
            final(self).wf(),
            final(self)@ == (SwapView { allowed: old(self)@.allowed.remove(token@), ..old(self)@ }),
    {
        allow_reset(&mut self.allow, &token);
    }

    /// A copy of the record stored under `key`, if any.
    pub fn offer(&self, key: &OfferKey) -> (r: Option<OfferInfo>)
        requires
            self.offers.wf(),
        ensures
            match r {
                Some(o) => self@.offers.contains_key(key@) && o@ == self@.offers[key@],
                None => !self@.offers.contains_key(key@),
            },
    {
        match self.offers.find(key) {
            Some(i) => Some(self.offers.infos[i].copy()),
            None => None,
        }
    }

    /// Opens an offer: `send_amount` of `send_token` for `recv_amount` of
    /// `recv_token`, each fill bringing at least `min_recv_amount`.
    ///
    /// On success the record is stored as active and the result lists the
    /// transfers to carry out: the offered amount into escrow and the fee on
    /// it to the fee wallet. On failure nothing changes.
    pub fn create(
        &mut self,
        offeror: Vec<u8>,
        send_token: Vec<u8>,
        recv_token: Vec<u8>,
        timestamp: u64,
        send_amount: i128,
        recv_amount: i128,
        min_recv_amount: i128,
    ) -> (r: Result<Vec<Transfer>, SwapError>)
        requires
            old(self).wf(),
        ensures
            final(self).wf(),
            ({
                let k = key_of(offeror@, send_token@, recv_token@, timestamp);
                match r {
                    Ok(ts) => {
                        &&& create_error(old(self)@, k, send_amount as int, recv_amount as int, min_recv_amount as int) is None
                        &&& final(self)@ == (SwapView {
                            offers: old(self)@.offers.insert(
                                k,
                                created(k, send_amount as int, recv_amount as int, min_recv_amount as int),
                            ),
                            ..old(self)@
                        })
                        &&& transfers_view(ts@) == create_transfers(old(self)@.fee->Some_0, k, send_amount as int)
                    },
                    Err(e) => {
                        &&& create_error(old(self)@, k, send_amount as int, recv_amount as int, min_recv_amount as int) == Some(e)
                        &&& final(self)@ == old(self)@
                    },
                }
            }),
    {
        let fee_info = match fee_get(&self.fee) {
            Ok(f) => f,
            Err(e) => return Err(e),
        };
        if !allow_get(&self.allow, &send_token) || !allow_get(&self.allow, &recv_token) {
            return Err(SwapError::NotAllowed);
        }
        let key = OfferKey { offeror, send_token, recv_token, timestamp };
        if self.offers.find(&key).is_some() {
            return Err(SwapError::DuplicateOffer);
        }
        if send_amount == 0 || recv_amount == 0 {
            return Err(SwapError::ZeroAmount);
        }
        if min_recv_amount > recv_amount {
            return Err(SwapError::InvalidBounds);
        }
        if send_amount < 0 || recv_amount < 0 {
            return Err(SwapError::NegativeAmount);
        }
        let fee_amount = match Self::calculate_fee(&fee_info, send_amount) {
            Ok(f) => f,
            Err(e) => return Err(e),
        };
        let mut transfers: Vec<Transfer> = Vec::new();
        transfers.push(
            Transfer {
                token: copy_bytes(&key.send_token),
                from: Party::Account(copy_bytes(&key.offeror)),
                to: Party::Escrow,
                amount: send_amount,
            },
        );
        transfers.push(
            Transfer {
                token: copy_bytes(&key.send_token),
                from: Party::Account(copy_bytes(&key.offeror)),
                to: Party::Account(fee_info.fee_wallet),
                amount: fee_amount,
            },
        );
        let info = OfferInfo {
            offeror: copy_bytes(&key.offeror),
            send_token: copy_bytes(&key.send_token),
            recv_token: copy_bytes(&key.recv_token),
            send_amount,
            recv_amount,
            min_recv_amount,
            status: OfferStatus::Active,
        };
        let ghost k = key@;
        self.offers.insert_new(key, info);
        proof {
            let f = old(self)@.fee->Some_0;
            assert(transfers_view(transfers@) =~= create_transfers(f, k, send_amount as int));
            assert forall|k2: KeyView| #[trigger] self.offers@.contains_key(k2) implies offer_wf(
                self.offers@[k2],
            ) && record_matches(k2, self.offers@[k2]) by {
                if k2 != k {
                    assert(old(self).offers@.contains_key(k2));
                }
            }
        }
        Ok(transfers)
    }

    /// Fills the offer under the key with `amount` of the asked token.
    ///
    /// On success the record shrinks as `filled` says and the result lists
    /// the three transfers of `fill_transfers`. On failure nothing changes.
    pub fn accept(
        &mut self,
        offeror: Vec<u8>,
        send_token: Vec<u8>,
        recv_token: Vec<u8>,
        timestamp: u64,
        acceptor: Vec<u8>,
        amount: i128,
    ) -> (r: Result<Vec<Transfer>, SwapError>)
        requires
            old(self).wf(),
        ensures
            final(self).wf(),
            ({
                let k = key_of(offeror@, send_token@, recv_token@, timestamp);
                match r {
                    Ok(ts) => {
                        &&& accept_error(old(self)@, k, amount as int) is None
                        &&& final(self)@ == (SwapView {
                            offers: old(self)@.offers.insert(k, filled(old(self)@.offers[k], amount as int)),
                            ..old(self)@
                        })
                        &&& transfers_view(ts@) == fill_transfers(
                            old(self)@.fee->Some_0,
                            old(self)@.offers[k],
                            acceptor@,
                            amount as int,
                        )
                    },
                    Err(e) => {
                        &&& accept_error(old(self)@, k, amount as int) == Some(e)
                        &&& final(self)@ == old(self)@
                    },
                }
            }),
    {
        let key = OfferKey { offeror, send_token, recv_token, timestamp };
        let i = match self.offers.find(&key) {
            Some(i) => i,
            None => return Err(SwapError::NotFound),
        };
        let fee_info = match fee_get(&self.fee) {
            Ok(f) => f,
            Err(e) => return Err(e),
        };
        let offer = &self.offers.infos[i];
        if offer.status != OfferStatus::Active {
            return Err(SwapError::OfferNotAvailable);
        }
        if offer.recv_amount < amount {
            return Err(SwapError::ExceedsAvailable);
        }
        if amount < offer.min_recv_amount {
            return Err(SwapError::BelowMinimum);
        }
        if amount < 0 {
            return Err(SwapError::NegativeAmount);
        }
        let fee_amount = match Self::calculate_fee(&fee_info, amount) {
            Ok(f) => f,
            Err(e) => return Err(e),
        };
        let product = match amount.checked_mul(offer.send_amount) {
            Some(p) => p,
            None => return Err(SwapError::Overflow),
        };
        let ghost o = offer@;
        proof {
            assert(self@.offers.contains_key(key@));
            lemma_prop_send_bounds(o, amount as int);
        }
        let prop_send_amount = match product.checked_div(offer.recv_amount) {
            Some(q) => q,
            None => return Err(SwapError::Overflow),
        };
        let send_amount = offer.send_amount - prop_send_amount;
        let recv_amount = offer.recv_amount - amount;
        let mut min_recv_amount = offer.min_recv_amount;
        let mut status = offer.status;
        if recv_amount == 0 {
            status = OfferStatus::Complete;
        } else if recv_amount < min_recv_amount {
            min_recv_amount = recv_amount;
        }
        let mut transfers: Vec<Transfer> = Vec::new();
        transfers.push(
            Transfer {
                token: copy_bytes(&offer.recv_token),
                from: Party::Account(copy_bytes(&acceptor)),
                to: Party::Account(fee_info.fee_wallet),
                amount: fee_amount,
            },
        );
        transfers.push(
            Transfer {
                token: copy_bytes(&offer.recv_token),
                from: Party::Account(copy_bytes(&acceptor)),
                to: Party::Account(copy_bytes(&offer.offeror)),
                amount,
            },
        );
        transfers.push(
            Transfer {
                token: copy_bytes(&offer.send_token),
                from: Party::Escrow,
                to: Party::Account(acceptor),
                amount: prop_send_amount,
            },
        );
        let info = OfferInfo {
            offeror: copy_bytes(&offer.offeror),
            send_token: copy_bytes(&offer.send_token),
            recv_token: copy_bytes(&offer.recv_token),
            send_amount,
            recv_amount,
            min_recv_amount,
            status,
        };
        let ghost k = key@;
        assert(self.offers.keys@[i as int]@ == k);
        self.offers.replace(i, info);
        proof {
            let f = old(self)@.fee->Some_0;
            assert(info@ == filled(o, amount as int));
            assert(transfers_view(transfers@) =~= fill_transfers(f, o, acceptor@, amount as int));
            assert forall|k2: KeyView| #[trigger] self.offers@.contains_key(k2) implies offer_wf(
                self.offers@[k2],
            ) && record_matches(k2, self.offers@[k2]) by {
                if k2 != k {
                    assert(old(self).offers@.contains_key(k2));
                }
            }
        }
        Ok(transfers)
    }

    /// Re-prices what remains of an active offer: replaces `recv_amount` and
    /// `min_recv_amount` and keeps the escrowed `send_amount`. On failure
    /// nothing changes.
    pub fn update(
        &mut self,
        offeror: Vec<u8>,
        send_token: Vec<u8>,
        recv_token: Vec<u8>,
        timestamp: u64,
        recv_amount: i128,
        min_recv_amount: i128,
    ) -> (r: Result<(), SwapError>)
        requires
            old(self).wf(),
        ensures
            final(self).wf(),
            ({
                let k = key_of(offeror@, send_token@, recv_token@, timestamp);
                match r {
                    Ok(_) => {
                        &&& update_error(old(self)@, k, recv_amount as int, min_recv_amount as int) is None
                        &&& final(self)@ == (SwapView {
                            offers: old(self)@.offers.insert(
                                k,
                                updated(old(self)@.offers[k], recv_amount as int, min_recv_amount as int),
                            ),
                            ..old(self)@
                        })
                    },
                    Err(e) => {
                        &&& update_error(old(self)@, k, recv_amount as int, min_recv_amount as int) == Some(e)
                        &&& final(self)@ == old(self)@
                    },
                }
            }),
    {
        if recv_amount == 0 {
            return Err(SwapError::ZeroAmount);
        }
        if min_recv_amount > recv_amount {
            return Err(SwapError::InvalidBounds);
        }
        if recv_amount < 0 {
            return Err(SwapError::NegativeAmount);
        }
        let key = OfferKey { offeror, send_token, recv_token, timestamp };
        let i = match self.offers.find(&key) {
            Some(i) => i,
            None => return Err(SwapError::NotFound),
        };
        let offer = &self.offers.infos[i];
        if offer.status != OfferStatus::Active {
            return Err(SwapError::OfferNotAvailable);
        }
        let ghost o = offer@;
        let info = OfferInfo {
            offeror: copy_bytes(&offer.offeror),
            send_token: copy_bytes(&offer.send_token),
            recv_token: copy_bytes(&offer.recv_token),
            send_amount: offer.send_amount,
            recv_amount,
            min_recv_amount,
            status: offer.status,
        };
        let ghost k = key@;
        assert(self.offers.keys@[i as int]@ == k);
        self.offers.replace(i, info);
        proof {
            assert(self@.offers.contains_key(k));
            assert(info@ == updated(o, recv_amount as int, min_recv_amount as int));
            assert forall|k2: KeyView| #[trigger] self.offers@.contains_key(k2) implies offer_wf(
                self.offers@[k2],
            ) && record_matches(k2, self.offers@[k2]) by {
                if k2 != k {
                    assert(old(self).offers@.contains_key(k2));
                }
            }
        }
        Ok(())
    }

    /// Cancels an active offer. On success the record is marked cancelled
    /// and the result lists the one transfer of `close_transfers`: the whole
    /// remaining escrow back to the offeror. On failure nothing changes.
    pub fn close(&mut self, offeror: Vec<u8>, send_token: Vec<u8>, recv_token: Vec<u8>, timestamp: u64) -> (r:
        Result<Vec<Transfer>, SwapError>)
        requires
            old(self).wf(),
        ensures
            final(self).wf(),
            ({
                let k = key_of(offeror@, send_token@, recv_token@, timestamp);
                match r {
                    Ok(ts) => {
                        &&& close_error(old(self)@, k) is None
                        &&& final(self)@ == (SwapView {
                            offers: old(self)@.offers.insert(k, closed(old(self)@.offers[k])),
                            ..old(self)@
                        })
                        &&& transfers_view(ts@) == close_transfers(old(self)@.offers[k])
                    },
                    Err(e) => {
                        &&& close_error(old(self)@, k) == Some(e)
                        &&& final(self)@ == old(self)@
                    },
                }
            }),
    {
        let key = OfferKey { offeror, send_token, recv_token, timestamp };
        let i = match self.offers.find(&key) {
            Some(i) => i,
            None => return Err(SwapError::NotFound),
        };
        let offer = &self.offers.infos[i];
        if offer.status != OfferStatus::Active {
            return Err(SwapError::OfferNotAvailable);
        }
        let ghost o = offer@;
        let mut transfers: Vec<Transfer> = Vec::new();
        transfers.push(
            Transfer {
                token: copy_bytes(&offer.send_token),
                from: Party::Escrow,
                to: Party::Account(copy_bytes(&offer.offeror)),
                amount: offer.send_amount,
            },
        );
        let info = OfferInfo {
            offeror: copy_bytes(&offer.offeror),
            send_token: copy_bytes(&offer.send_token),
            recv_token: copy_bytes(&offer.recv_token),
            send_amount: offer.send_amount,
            recv_amount: offer.recv_amount,
            min_recv_amount: offer.min_recv_amount,
            status: OfferStatus::Cancelled,
        };
        let ghost k = key@;
        assert(self.offers.keys@[i as int]@ == k);
        self.offers.replace(i, info);
        proof {
            assert(self@.offers.contains_key(k));
            assert(info@ == closed(o));
            assert(transfers_view(transfers@) =~= close_transfers(o));
            assert forall|k2: KeyView| #[trigger] self.offers@.contains_key(k2) implies offer_wf(
                self.offers@[k2],
            ) && record_matches(k2, self.offers@[k2]) by {
                if k2 != k {
                    assert(old(self).offers@.contains_key(k2));
                }
            }
        }
        Ok(transfers)
    }

    /// The fee that `fee_info` charges on `amount`; fails with `Overflow`
    /// when `amount * fee_rate` does not fit in an `i128`.
    pub fn calculate_fee(fee_info: &FeeInfo, amount: i128) -> (r: Result<i128, SwapError>)
        ensures
            fits_i128(amount * fee_info@.rate) ==> r == Ok::<i128, SwapError>(
                fee_of(amount as int, fee_info@.rate) as i128,
            ),
            !fits_i128(amount * fee_info@.rate) ==> r == Err::<i128, SwapError>(SwapError::Overflow),
            0 <= amount * fee_info@.rate < FEE_SCALE ==> r == Ok::<i128, SwapError>(0),
    {
        match amount.checked_mul(fee_info.fee_rate as i128) {
            None => Err(SwapError::Overflow),
            Some(p) => match p.checked_div(FEE_SCALE) {
                Some(f) => Ok(f),
                None => Err(SwapError::Overflow),
            },
        }
    }
}

} // verus!
