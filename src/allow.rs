use vstd::prelude::*;

use crate::types::{copy_bytes, same_bytes};

verus! {

/// The tokens that offers may use. Each token is listed at most once.
pub struct AllowStore {
    pub tokens: Vec<Vec<u8>>,
}

/// Whether `t` occurs in `tokens`.
pub open spec fn listed(tokens: Seq<Vec<u8>>, t: Seq<u8>) -> bool {
    exists|i: int| 0 <= i < tokens.len() && #[trigger] tokens[i]@ == t
}

impl View for AllowStore {
    type V = Set<Seq<u8>>;

    open spec fn view(&self) -> Set<Seq<u8>> {
        Set::new(|t: Seq<u8>| listed(self.tokens@, t))
    }
}

impl AllowStore {
    /// No token is listed twice.
    pub open spec fn wf(&self) -> bool {
        forall|i: int, j: int|
            0 <= i < j < self.tokens@.len() ==> #[trigger] self.tokens@[i]@ != #[trigger] self.tokens@[j]@
    }

    /// A store in which no token is allowed.
    pub fn new() -> (r: AllowStore)
        ensures
            r.wf(),
            r@ == Set::<Seq<u8>>::empty(),
    {
        let r = AllowStore { tokens: Vec::new() };
        assert(r@ =~= Set::<Seq<u8>>::empty());
        r
    }

    /// The position of `token` in the list, if it is listed.
    fn position(&self, token: &Vec<u8>) -> (r: Option<usize>)
        ensures
            match r {
                Some(i) => i < self.tokens@.len() && self.tokens@[i as int]@ == token@,
                None => !listed(self.tokens@, token@),
            },
    {
        let mut i: usize = 0;
        while i < self.tokens.len()
            invariant
                0 <= i <= self.tokens@.len(),
                forall|j: int| 0 <= j < i ==> #[trigger] self.tokens@[j]@ != token@,
            decreases self.tokens@.len() - i,
        {
            if same_bytes(&self.tokens[i], token) {
                return Some(i);
            }
            i = i + 1;
        }
        None
    }
}

/// Marks `token` as allowed; allowing it again changes nothing.
pub fn allow_set(store: &mut AllowStore, token: &Vec<u8>)
    requires
        old(store).wf(),
    ensures
        final(store).wf(),
        final(store)@ == old(store)@.insert(token@),
{
    match store.position(token) {
        Some(_) => {
            assert(store@ =~= old(store)@.insert(token@));
        },
        None => {
            let ghost before = store.tokens@;
            store.tokens.push(copy_bytes(token));
            assert(store.tokens@[before.len() as int]@ == token@);
            assert forall|t: Seq<u8>| listed(store.tokens@, t) == (listed(before, t) || t == token@) by {
                if listed(before, t) {
                    let i = choose|i: int| 0 <= i < before.len() && #[trigger] before[i]@ == t;
                    assert(store.tokens@[i] == before[i]);
                }
                if listed(store.tokens@, t) && t != token@ {
                    let i = choose|i: int| 0 <= i < store.tokens@.len() && #[trigger] store.tokens@[i]@ == t;
                    assert(before[i] == store.tokens@[i]);
                }
            }
            assert(store@ =~= old(store)@.insert(token@));
        },
    }
}

/// Marks `token` as not allowed; disallowing it again changes nothing.
pub fn allow_reset(store: &mut AllowStore, token: &Vec<u8>)
    requires
        old(store).wf(),
    ensures
        final(store).wf(),
        final(store)@ == old(store)@.remove(token@),
{
    match store.position(token) {
        Some(k) => {
            let ghost before = store.tokens@;
            store.tokens.remove(k);
            assert forall|t: Seq<u8>| listed(store.tokens@, t) == (listed(before, t) && t != token@) by {
                if listed(before, t) && t != token@ {
                    let i = choose|i: int| 0 <= i < before.len() && #[trigger] before[i]@ == t;
                    if i < k {
                        assert(store.tokens@[i] == before[i]);
                    } else {
                        assert(store.tokens@[i - 1] == before[i]);
                    }
                }
                if listed(store.tokens@, t) {
                    let i = choose|i: int| 0 <= i < store.tokens@.len() && #[trigger] store.tokens@[i]@ == t;
                    if i < k {
                        assert(before[i] == store.tokens@[i]);
                    } else {
                        assert(before[i + 1] == store.tokens@[i]);
                    }
                }
            }
            assert forall|i: int, j: int|
                0 <= i < j < store.tokens@.len() implies #[trigger] store.tokens@[i]@
                != #[trigger] store.tokens@[j]@ by {
                let i0 = if i < k { i } else { i + 1 };
                let j0 = if j < k { j } else { j + 1 };
                assert(before[i0]@ != before[j0]@);
            }
            assert(store@ =~= old(store)@.remove(token@));
        },
        None => {
            assert(store@ =~= old(store)@.remove(token@));
        },
    }
}

/// Whether `token` is allowed; a token never allowed is not.
pub fn allow_get(store: &AllowStore, token: &Vec<u8>) -> (r: bool)
    ensures
        r == store@.contains(token@),
{
    store.position(token).is_some()
}

} // verus!
