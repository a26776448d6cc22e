use vstd::prelude::*;

verus! {

/// Fee rates carry this many decimal places.
pub const FEE_DECIMALS: u32 = 4;

/// Denominator of a fee rate: ten to the power `FEE_DECIMALS`.
pub const FEE_SCALE: i128 = 10000;

/// True when `x` is representable as an `i128`.
pub open spec fn fits_i128(x: int) -> bool {
    i128::MIN <= x <= i128::MAX
}

/// Every failure an operation of the swap can end in.
///
/// `Unauthorized` and `TransferFailed` come from the authorization and
/// transfer services that run around the ledger. `NegativeAmount` rejects an
/// amount that no transfer could carry, and `Overflow` a product of amounts
/// that does not fit in an `i128`.
#[derive(Clone, Copy, Debug, PartialEq, Eq, Structural)]
pub enum SwapError {
    AlreadyInitialized,
    NotInitialized,
    NotAllowed,
    DuplicateOffer,
    ZeroAmount,
    NegativeAmount,
    InvalidBounds,
    NotFound,
    OfferNotAvailable,
    ExceedsAvailable,
    BelowMinimum,
    Overflow,
    Unauthorized,
    TransferFailed,
}

/// Lifecycle of an offer: `Active` moves to one of the two terminal states.
#[derive(Clone, Copy, Debug, PartialEq, Eq, Structural)]
pub enum OfferStatus {
    Active,
    Complete,
    Cancelled,
}

/// The configured fee: a rate in units of `1 / FEE_SCALE` and the account
/// that collects it.
pub struct FeeInfo {
    pub fee_rate: u32,
    pub fee_wallet: Vec<u8>,
}

pub struct FeeView {
    pub rate: int,
    pub wallet: Seq<u8>,
}

impl View for FeeInfo {
    type V = FeeView;

    open spec fn view(&self) -> FeeView {
        FeeView { rate: self.fee_rate as int, wallet: self.fee_wallet@ }
    }
}

/// Identity of an offer: who offers, which token pair, and a nonce.
pub struct OfferKey {
    pub offeror: Vec<u8>,
    pub send_token: Vec<u8>,
    pub recv_token: Vec<u8>,
    pub timestamp: u64,
}

pub struct KeyView {
    pub offeror: Seq<u8>,
    pub send_token: Seq<u8>,
    pub recv_token: Seq<u8>,
    pub timestamp: u64,
}

impl View for OfferKey {
    type V = KeyView;

    open spec fn view(&self) -> KeyView {
        KeyView {
            offeror: self.offeror@,
            send_token: self.send_token@,
            recv_token: self.recv_token@,
            timestamp: self.timestamp,
        }
    }
}

/// The stored state of one offer.
///
/// `send_amount` is what is still held in escrow for acceptors,
/// `recv_amount` what the offeror still asks for in return, and
/// `min_recv_amount` the smallest amount one fill may bring.
pub struct OfferInfo {
    pub offeror: Vec<u8>,
    pub send_token: Vec<u8>,
    pub recv_token: Vec<u8>,
    pub send_amount: i128,
    pub recv_amount: i128,
    pub min_recv_amount: i128,
    pub status: OfferStatus,
}

pub struct OfferView {
    pub offeror: Seq<u8>,
    pub send_token: Seq<u8>,
    pub recv_token: Seq<u8>,
    pub send_amount: int,
    pub recv_amount: int,
    pub min_recv_amount: int,
    pub status: OfferStatus,
}

impl View for OfferInfo {
    type V = OfferView;

    open spec fn view(&self) -> OfferView {
        OfferView {
            offeror: self.offeror@,
            send_token: self.send_token@,
            recv_token: self.recv_token@,
            send_amount: self.send_amount as int,
            recv_amount: self.recv_amount as int,
            min_recv_amount: self.min_recv_amount as int,
            status: self.status,
        }
    }
}

/// One side of a transfer: the ledger's own escrow holding or an account.
#[derive(Debug, PartialEq, Eq)]
pub enum Party {
    Escrow,
    Account(Vec<u8>),
}

pub enum PartyView {
    Escrow,
    Account(Seq<u8>),
}

impl View for Party {
    type V = PartyView;

    open spec fn view(&self) -> PartyView {
        match self {
            Party::Escrow => PartyView::Escrow,
            Party::Account(a) => PartyView::Account(a@),
        }
    }
}

/// A movement of `amount` units of `token` that an operation asks the
/// transfer service to carry out.
#[derive(Debug, PartialEq, Eq)]
pub struct Transfer {
    pub token: Vec<u8>,
    pub from: Party,
    pub to: Party,
    pub amount: i128,
}

pub struct TransferView {
    pub token: Seq<u8>,
    pub from: PartyView,
    pub to: PartyView,
    pub amount: int,
}

impl View for Transfer {
    type V = TransferView;

    open spec fn view(&self) -> TransferView {
        TransferView { token: self.token@, from: self.from@, to: self.to@, amount: self.amount as int }
    }
}

/// The views of a list of transfers, in order.
pub open spec fn transfers_view(ts: Seq<Transfer>) -> Seq<TransferView> {
    ts.map_values(|t: Transfer| t@)
}

/// Copies an identifier byte for byte.
pub fn copy_bytes(v: &Vec<u8>) -> (r: Vec<u8>)
    ensures
        r@ == v@,
{
    let r = v.clone();
    assert(r@ =~= v@);
    r
}

/// Compares two identifiers byte for byte.
pub fn same_bytes(a: &Vec<u8>, b: &Vec<u8>) -> (r: bool)
    ensures
        r == (a@ == b@),
{
    if a.len() != b.len() {
        return false;
    }
    let mut i: usize = 0;
    while i < a.len()
        invariant
            a.len() == b.len(),
            0 <= i <= a.len(),
            forall|j: int| 0 <= j < i ==> a@[j] == b@[j],
        decreases a.len() - i,
    {
        if a[i] != b[i] {
            return false;
        }
        i = i + 1;
    }
    assert(a@ =~= b@);
    true
}

impl FeeInfo {
    /// A copy of this fee configuration.
    pub fn copy(&self) -> (r: FeeInfo)
        ensures
            r@ == self@,
    {
        FeeInfo { fee_rate: self.fee_rate, fee_wallet: copy_bytes(&self.fee_wallet) }
    }
}

impl OfferKey {
    /// Whether two keys name the same offer.
    pub fn same(&self, other: &OfferKey) -> (r: bool)
        ensures
            r == (self@ == other@),
    {
        self.timestamp == other.timestamp && same_bytes(&self.offeror, &other.offeror)
            && same_bytes(&self.send_token, &other.send_token) && same_bytes(
            &self.recv_token,
            &other.recv_token,
        )
    }
}

impl OfferInfo {
    /// A copy of this record.
    pub fn copy(&self) -> (r: OfferInfo)
        ensures
            r@ == self@,
    {
        OfferInfo {
            offeror: copy_bytes(&self.offeror),
            send_token: copy_bytes(&self.send_token),
            recv_token: copy_bytes(&self.recv_token),
            send_amount: self.send_amount,
            recv_amount: self.recv_amount,
            min_recv_amount: self.min_recv_amount,
            status: self.status,
        }
    }
}

} // verus!
