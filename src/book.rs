use vstd::prelude::*;

use crate::types::{KeyView, OfferInfo, OfferKey, OfferView};

verus! {

/// The map from keys to records that two parallel lists describe; a later
/// entry for a key shadows an earlier one.
pub open spec fn book_map(ks: Seq<KeyView>, vs: Seq<OfferView>) -> Map<KeyView, OfferView>
    decreases ks.len(),
{
    if ks.len() == 0 {
        Map::empty()
    } else {
        book_map(ks.drop_last(), vs.drop_last()).insert(ks.last(), vs[ks.len() - 1])
    }
}

/// No key occurs twice.
pub open spec fn keys_distinct(ks: Seq<KeyView>) -> bool {
    forall|i: int, j: int| 0 <= i < j < ks.len() ==> #[trigger] ks[i] != #[trigger] ks[j]
}

proof fn lemma_book_domain(ks: Seq<KeyView>, vs: Seq<OfferView>, k: KeyView)
    requires
        ks.len() == vs.len(),
    ensures
        book_map(ks, vs).contains_key(k) <==> exists|i: int| 0 <= i < ks.len() && ks[i] == k,
    decreases ks.len(),
{
    if ks.len() > 0 {
        lemma_book_domain(ks.drop_last(), vs.drop_last(), k);
        if exists|i: int| 0 <= i < ks.drop_last().len() && ks.drop_last()[i] == k {
            let i = choose|i: int| 0 <= i < ks.drop_last().len() && ks.drop_last()[i] == k;
            assert(ks[i] == k);
        }
        if exists|i: int| 0 <= i < ks.len() && ks[i] == k {
            let i = choose|i: int| 0 <= i < ks.len() && ks[i] == k;
            if i < ks.len() - 1 {
                assert(ks.drop_last()[i] == k);
            }
        }
    }
}

proof fn lemma_book_value(ks: Seq<KeyView>, vs: Seq<OfferView>, i: int)
    requires
        ks.len() == vs.len(),
        keys_distinct(ks),
        0 <= i < ks.len(),
    ensures
        book_map(ks, vs).contains_key(ks[i]),
        book_map(ks, vs)[ks[i]] == vs[i],
    decreases ks.len(),
{
    if i < ks.len() - 1 {
        assert(ks.drop_last()[i] == ks[i]);
        assert(keys_distinct(ks.drop_last())) by {
            assert forall|a: int, b: int| 0 <= a < b < ks.drop_last().len() implies
                #[trigger] ks.drop_last()[a] != #[trigger] ks.drop_last()[b] by {
                assert(ks[a] != ks[b]);
            }
        }
        lemma_book_value(ks.drop_last(), vs.drop_last(), i);
        assert(ks[i] != ks.last());
    }
}

proof fn lemma_book_update(ks: Seq<KeyView>, vs: Seq<OfferView>, i: int, v: OfferView)
    requires
        ks.len() == vs.len(),
        keys_distinct(ks),
        0 <= i < ks.len(),
    ensures
        book_map(ks, vs.update(i, v)) == book_map(ks, vs).insert(ks[i], v),
    decreases ks.len(),
{
    if i == ks.len() - 1 {
        assert(vs.update(i, v).drop_last() =~= vs.drop_last());
        lemma_book_domain(ks.drop_last(), vs.drop_last(), ks[i]);
        assert(book_map(ks, vs.update(i, v)) =~= book_map(ks, vs).insert(ks[i], v));
    } else {
        assert(vs.update(i, v).drop_last() =~= vs.drop_last().update(i, v));
        assert(ks.drop_last()[i] == ks[i]);
        assert(keys_distinct(ks.drop_last())) by {
            assert forall|a: int, b: int| 0 <= a < b < ks.drop_last().len() implies
                #[trigger] ks.drop_last()[a] != #[trigger] ks.drop_last()[b] by {
                assert(ks[a] != ks[b]);
            }
        }
        lemma_book_update(ks.drop_last(), vs.drop_last(), i, v);
        assert(ks[i] != ks.last());
        assert(book_map(ks, vs.update(i, v)) =~= book_map(ks, vs).insert(ks[i], v));
    }
}

/// Every offer record, by key.
pub struct OfferBook {
    pub keys: Vec<OfferKey>,
    pub infos: Vec<OfferInfo>,
}

impl View for OfferBook {
    type V = Map<KeyView, OfferView>;

    open spec fn view(&self) -> Map<KeyView, OfferView> {
        book_map(self.key_views(), self.info_views())
    }
}

impl OfferBook {
    pub open spec fn key_views(&self) -> Seq<KeyView> {
        self.keys@.map_values(|k: OfferKey| k@)
    }

    pub open spec fn info_views(&self) -> Seq<OfferView> {
        self.infos@.map_values(|o: OfferInfo| o@)
    }

    /// The two lists match up and no key is stored twice.
    pub open spec fn wf(&self) -> bool {
        &&& self.keys@.len() == self.infos@.len()
        &&& keys_distinct(self.key_views())
    }

    /// A book with no offers.
    pub fn new() -> (r: OfferBook)
        ensures
            r.wf(),
            r@ == Map::<KeyView, OfferView>::empty(),
    {
        let r = OfferBook { keys: Vec::new(), infos: Vec::new() };
        assert(r.key_views() =~= Seq::<KeyView>::empty());
        r
    }

    /// The position of the record stored under `key`, if there is one.
    pub fn find(&self, key: &OfferKey) -> (r: Option<usize>)
        requires
            self.wf(),
        ensures
            match r {
                Some(i) => {
                    &&& i < self.infos@.len()
                    &&& self.keys@[i as int]@ == key@
                    &&& self@.contains_key(key@)
                    &&& self@[key@] == self.infos@[i as int]@
                },
                None => !self@.contains_key(key@),
            },
    {
        let mut i: usize = 0;
        while i < self.keys.len()
            invariant
                self.wf(),
                0 <= i <= self.keys@.len(),
                forall|j: int| 0 <= j < i ==> #[trigger] self.keys@[j]@ != key@,
            decreases self.keys@.len() - i,
        {
            if self.keys[i].same(key) {
                proof {
                    lemma_book_value(self.key_views(), self.info_views(), i as int);
                }
                return Some(i);
            }
            i = i + 1;
        }
        proof {
            lemma_book_domain(self.key_views(), self.info_views(), key@);
            if exists|j: int| 0 <= j < self.keys@.len() && self.key_views()[j] == key@ {
                let j = choose|j: int| 0 <= j < self.keys@.len() && self.key_views()[j] == key@;
                assert(self.keys@[j]@ == key@);
            }
        }
        None
    }

    /// Stores a record under a key that has none yet.
    pub fn insert_new(&mut self, key: OfferKey, info: OfferInfo)
        requires
            old(self).wf(),
            !old(self)@.contains_key(key@),
        ensures
            final(self).wf(),
            final(self)@ == old(self)@.insert(key@, info@),
    {
        let ghost k = key@;
        let ghost v = info@;
        proof {
            lemma_book_domain(self.key_views(), self.info_views(), k);
        }
        self.keys.push(key);
        self.infos.push(info);
        assert(self.key_views() =~= old(self).key_views().push(k));
        assert(self.info_views() =~= old(self).info_views().push(v));
        assert(self.key_views().drop_last() =~= old(self).key_views());
        assert(self.info_views().drop_last() =~= old(self).info_views());
        assert forall|a: int, b: int| 0 <= a < b < self.key_views().len() implies
            #[trigger] self.key_views()[a] != #[trigger] self.key_views()[b] by {
            if b == self.key_views().len() - 1 {
                assert(old(self).key_views()[a] == self.key_views()[a]);
            } else {
                assert(old(self).key_views()[a] != old(self).key_views()[b]);
            }
        }
    }

    /// Replaces the record at position `i`.
    pub fn replace(&mut self, i: usize, info: OfferInfo)
        requires
            old(self).wf(),
            i < old(self).infos@.len(),
        ensures
            final(self).wf(),
            final(self)@ == old(self)@.insert(old(self).keys@[i as int]@, info@),
    {
        let ghost v = info@;
        self.infos.set(i, info);
        assert(self.info_views() =~= old(self).info_views().update(i as int, v));
        assert(self.key_views() =~= old(self).key_views());
        proof {
            lemma_book_update(old(self).key_views(), old(self).info_views(), i as int, v);
        }
    }
}

} // verus!
