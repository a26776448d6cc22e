use vstd::prelude::*;

use crate::types::{FeeInfo, FeeView, SwapError};

verus! {

/// The single fee record: absent until initialized.
pub struct FeeStore {
    pub info: Option<FeeInfo>,
}

impl View for FeeStore {
    type V = Option<FeeView>;

    open spec fn view(&self) -> Option<FeeView> {
        match self.info {
            Some(f) => Some(f@),
            None => None,
        }
    }
}

impl FeeStore {
    /// A store that holds no fee record yet.
    pub fn new() -> (r: FeeStore)
        ensures
            r@ is None,
    {
        FeeStore { info: None }
    }
}

/// Stores the first fee record; fails if one is already there.
pub fn fee_init(store: &mut FeeStore, fee_info: FeeInfo) -> (r: Result<(), SwapError>)
    ensures
        old(store)@ is Some ==> r == Err::<(), SwapError>(SwapError::AlreadyInitialized) && final(store)@ == old(store)@,
        old(store)@ is None ==> r is Ok && final(store)@ == Some(fee_info@),
{
    if fee_check(store) {
        return Err(SwapError::AlreadyInitialized);
    }
    fee_write(store, fee_info);
    Ok(())
}

/// Whether a fee record has been stored.
pub fn fee_check(store: &FeeStore) -> (r: bool)
    ensures
        r == (store@ is Some),
{
    store.info.is_some()
}

/// A copy of the stored fee record; fails if there is none.
pub fn fee_get(store: &FeeStore) -> (r: Result<FeeInfo, SwapError>)
    ensures
        match store@ {
            Some(f) => r is Ok && r->Ok_0@ == f,
            None => r == Err::<FeeInfo, SwapError>(SwapError::NotInitialized),
        },
{
    match &store.info {
        Some(f) => Ok(f.copy()),
        None => Err(SwapError::NotInitialized),
    }
}

/// Replaces both fields of the stored fee record; fails if there is none.
pub fn fee_set(store: &mut FeeStore, fee_info: FeeInfo) -> (r: Result<(), SwapError>)
    ensures
        old(store)@ is None ==> r == Err::<(), SwapError>(SwapError::NotInitialized) && final(store)@ is None,
        old(store)@ is Some ==> r is Ok && final(store)@ == Some(fee_info@),
{
    if !fee_check(store) {
        return Err(SwapError::NotInitialized);
    }
    fee_write(store, fee_info);
    Ok(())
}

fn fee_write(store: &mut FeeStore, fee_info: FeeInfo)
    ensures
        final(store)@ == Some(fee_info@),
{
    store.info = Some(fee_info);
}

} // verus!
