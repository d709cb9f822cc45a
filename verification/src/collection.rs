//! An ordered collection of entities, each found by its identifier.

use vstd::prelude::*;
use crate::id::Id;

verus! {

/// An entity that carries an identifier, which stays the same for as long as
/// the entity lives.
pub trait HasId {
    /// The entity's identifier.
    spec fn spec_id(&self) -> Id;

    /// The entity's identifier.
    fn id(&self) -> (r: Id)
        ensures
            r == self.spec_id(),
    ;
}

/// Whether no two entities of a sequence share an identifier.
pub open spec fn distinct_ids<T: HasId>(items: Seq<T>) -> bool {
    forall|i: int, j: int|
        0 <= i < j < items.len() ==>
            (#[trigger] items[i]).spec_id() != (#[trigger] items[j]).spec_id()
}

/// Whether some entity of a sequence has the identifier.
pub open spec fn has_id<T: HasId>(items: Seq<T>, id: Id) -> bool {
    exists|i: int| 0 <= i < items.len() && (#[trigger] items[i]).spec_id() == id
}

/// Where in a sequence the entity with the identifier stands, if there is
/// one.
pub open spec fn index_of<T: HasId>(items: Seq<T>, id: Id) -> int {
    choose|i: int| 0 <= i < items.len() && (#[trigger] items[i]).spec_id() == id
}

/// The identifiers of a sequence of entities, in order.
pub open spec fn ids_of<T: HasId>(items: Seq<T>) -> Seq<Id> {
    Seq::new(items.len(), |i: int| items[i].spec_id())
}

/// A sequence after an entity was inserted: an entity whose identifier is
/// new stands at the end, one whose identifier was held already stands in
/// the place of its holder.
pub open spec fn inserted<T: HasId>(items: Seq<T>, entity: T) -> Seq<T> {
    if has_id(items, entity.spec_id()) {
        items.update(index_of(items, entity.spec_id()), entity)
    } else {
        items.push(entity)
    }
}

/// Among distinct identifiers, the entity with a given identifier stands at
/// one place only.
pub proof fn lemma_index_of<T: HasId>(items: Seq<T>, i: int)
    requires
        distinct_ids(items),
        0 <= i < items.len(),
    ensures
        has_id(items, items[i].spec_id()),
        index_of(items, items[i].spec_id()) == i,
{
    let id = items[i].spec_id();
    let j = index_of(items, id);
    assert(0 <= j < items.len() && items[j].spec_id() == id);
}

/// The items of a sequence whose flag is set, in their order.
pub open spec fn chosen<T>(items: Seq<T>, flags: Seq<bool>) -> Seq<T>
    recommends
        flags.len() == items.len(),
    decreases items.len(),
{
    if items.len() == 0 || flags.len() != items.len() {
        Seq::empty()
    } else {
        let rest = chosen(items.drop_last(), flags.drop_last());
        if flags.last() {
            rest.push(items.last())
        } else {
            rest
        }
    }
}

/// Choosing from a sequence extended by one item.
pub proof fn lemma_chosen_push<T>(items: Seq<T>, flags: Seq<bool>, item: T, flag: bool)
    requires
        flags.len() == items.len(),
    ensures
        chosen(items.push(item), flags.push(flag)) == if flag {
            chosen(items, flags).push(item)
        } else {
            chosen(items, flags)
        },
{
    assert(items.push(item).drop_last() =~= items);
    assert(flags.push(flag).drop_last() =~= flags);
}

/// Where the flags say what a predicate says of each item, choosing is
/// filtering.
pub proof fn lemma_chosen_is_filter<T>(items: Seq<T>, flags: Seq<bool>, pred: spec_fn(T) -> bool)
    requires
        flags.len() == items.len(),
        forall|i: int| 0 <= i < items.len() ==> #[trigger] flags[i] == pred(items[i]),
    ensures
        chosen(items, flags) == items.filter(pred),
    decreases items.len(),
{
    reveal(Seq::filter);
    if items.len() > 0 {
        assert(flags.last() == pred(items.last()));
        assert forall|i: int| 0 <= i < items.drop_last().len()
            implies #[trigger] flags.drop_last()[i]
            == pred(items.drop_last()[i]) by {
            assert(flags[i] == pred(items[i]));
        }
        lemma_chosen_is_filter(items.drop_last(), flags.drop_last(), pred);
    }
}

/// Filtering is choosing by the flags that the predicate gives.
pub proof fn lemma_filter_is_chosen<T>(items: Seq<T>, pred: spec_fn(T) -> bool)
    ensures
        items.filter(pred) == chosen(items, Seq::new(items.len(), |i: int| pred(items[i]))),
{
    lemma_chosen_is_filter(items, Seq::new(items.len(), |i: int| pred(items[i])), pred);
}

/// Whether `item` stands in the sequence at a place whose flag is set.
pub open spec fn flagged<T>(items: Seq<T>, flags: Seq<bool>, item: T) -> bool {
    exists|w: int| 0 <= w < items.len() && 0 <= w < flags.len() && #[trigger] flags[w]
        && items[w] == item
}

/// Every item chosen is an item of the sequence whose flag is set, and
/// every item whose flag is set is chosen.
pub proof fn lemma_chosen_members<T>(items: Seq<T>, flags: Seq<bool>)
    requires
        flags.len() == items.len(),
    ensures
        forall|k: int|
            0 <= k < chosen(items, flags).len() ==> flagged(
                items,
                flags,
                #[trigger] chosen(items, flags)[k],
            ),
        forall|w: int|
            0 <= w < items.len() && #[trigger] flags[w] ==> chosen(items, flags).contains(items[w]),
    decreases items.len(),
{
    if items.len() > 0 {
        let front = items.drop_last();
        let front_flags = flags.drop_last();
        lemma_chosen_members(front, front_flags);
        let kept = chosen(front, front_flags);
        let all = chosen(items, flags);
        assert forall|k: int| 0 <= k < all.len()
            implies flagged(items, flags, #[trigger] all[k]) by {
            if k < kept.len() {
                assert(all[k] == kept[k]);
                assert(flagged(front, front_flags, kept[k]));
                let w = choose|w: int|
                    0 <= w < front.len() && 0 <= w < front_flags.len() && #[trigger] front_flags[w]
                        && front[w] == kept[k];
                assert(flags[w] && items[w] == all[k]);
            } else {
                let w = items.len() - 1;
                assert(flags[w] && items[w] == all[k]);
            }
        }
        assert forall|w: int| 0 <= w < items.len() && #[trigger] flags[w] implies all.contains(
            items[w],
        ) by {
            if w < front.len() {
                assert(front_flags[w]);
                assert(kept.contains(front[w]));
                let k = choose|k: int| 0 <= k < kept.len() && kept[k] == front[w];
                assert(all[k] == items[w]);
            } else {
                assert(all[all.len() - 1] == items[w]);
            }
        }
    }
}

/// Choosing from a sequence without duplicates leaves no duplicates.
pub proof fn lemma_chosen_no_duplicates<T>(items: Seq<T>, flags: Seq<bool>)
    requires
        items.no_duplicates(),
        flags.len() == items.len(),
    ensures
        chosen(items, flags).no_duplicates(),
    decreases items.len(),
{
    if items.len() > 0 {
        let front = items.drop_last();
        let front_flags = flags.drop_last();
        assert(front.no_duplicates()) by {
            assert forall|i: int, j: int| 0 <= i < front.len() && 0 <= j < front.len() && i
                != j implies front[i] != front[j] by {
                assert(front[i] == items[i] && front[j] == items[j]);
            }
        }
        lemma_chosen_no_duplicates(front, front_flags);
        lemma_chosen_members(front, front_flags);
        let kept = chosen(front, front_flags);
        let all = chosen(items, flags);
        assert forall|i: int, j: int| 0 <= i < all.len() && 0 <= j < all.len() && i != j
            implies all[i]
            != all[j] by {
            if i < kept.len() && j < kept.len() {
                assert(all[i] == kept[i] && all[j] == kept[j]);
            } else {
                let k = if i < kept.len() {
                    i
                } else {
                    j
                };
                assert(all[k] == kept[k]);
                assert(flagged(front, front_flags, kept[k]));
                let w = choose|w: int|
                    0 <= w < front.len() && 0 <= w < front_flags.len() && #[trigger] front_flags[w]
                        && front[w] == kept[k];
                assert(items[w] == kept[k]);
                assert(items[items.len() - 1] == all[all.len() - 1]);
            }
        }
    }
}

/// Choosing from a sequence with distinct identifiers leaves the
/// identifiers distinct, and every entity chosen was there before.
pub proof fn lemma_chosen_distinct<T: HasId>(items: Seq<T>, flags: Seq<bool>)
    requires
        distinct_ids(items),
        flags.len() == items.len(),
    ensures
        distinct_ids(chosen(items, flags)),
        forall|k: int|
            0 <= k < chosen(items, flags).len() ==> has_id(
                items,
                (#[trigger] chosen(items, flags)[k]).spec_id(),
            ),
    decreases items.len(),
{
    if items.len() > 0 {
        let front = items.drop_last();
        let last = items.last();
        assert forall|i: int, j: int| 0 <= i < j < front.len()
            implies (#[trigger] front[i]).spec_id()
            != (#[trigger] front[j]).spec_id() by {
            assert(front[i] == items[i]);
            assert(front[j] == items[j]);
        }
        lemma_chosen_distinct(front, flags.drop_last());
        let kept = chosen(front, flags.drop_last());
        assert forall|k: int| 0 <= k < kept.len()
            implies has_id(items, (#[trigger] kept[k]).spec_id())
            && kept[k].spec_id() != last.spec_id() by {
            let id = kept[k].spec_id();
            let j = index_of(front, id);
            assert(0 <= j < front.len() && front[j].spec_id() == id);
            assert(items[j] == front[j]);
            assert(items[items.len() - 1] == last);
        }
        if flags.last() {
            let all = kept.push(last);
            assert(chosen(items, flags) == all);
            assert forall|k: int| 0 <= k < all.len() implies has_id(
                items,
                (#[trigger] all[k]).spec_id(),
            ) by {
                if k < kept.len() {
                    assert(all[k] == kept[k]);
                } else {
                    assert(items[items.len() - 1] == last);
                }
            }
            assert forall|i: int, j: int| 0 <= i < j < all.len()
                implies (#[trigger] all[i]).spec_id()
                != (#[trigger] all[j]).spec_id() by {
                assert(all[i] == kept[i]);
                if j < kept.len() {
                    assert(all[j] == kept[j]);
                }
            }
        } else {
            assert(chosen(items, flags) == kept);
        }
    }
}

/// Entities in the order in which they were inserted, no two of them with
/// the same identifier.
pub struct Collection<T: HasId> {
    items: Vec<T>,
}

impl<T: HasId> View for Collection<T> {
    type V = Seq<T>;

    closed spec fn view(&self) -> Seq<T> {
        self.items@
    }
}

impl<T: HasId> Collection<T> {
    #[verifier::type_invariant]
    spec fn unique(self) -> bool {
        distinct_ids(self.items@)
    }

    /// An empty collection.
    pub fn new() -> (r: Self)
        ensures
            r@ == Seq::<T>::empty(),
    {
        Collection { items: Vec::new() }
    }

    /// Lets a caller's proof use what every collection maintains: no two
    /// of its entities share an identifier. Does nothing when run.
    pub fn unique_ids(&self)
        ensures
            distinct_ids(self@),
    {
        proof {
            use_type_invariant(self);
        }
    }

    /// Number of entities.
    pub fn len(&self) -> (r: usize)
        ensures
            r == self@.len(),
    {
        self.items.len()
    }

    /// Whether the collection holds nothing.
    pub fn is_empty(&self) -> (r: bool)
        ensures
            r == (self@.len() == 0),
    {
        self.items.len() == 0
    }

    /// The entity at a place in the order of insertion.
    pub fn at(&self, index: usize) -> (r: &T)
        requires
            index < self@.len(),
        ensures
            *r == self@[index as int],
    {
        &self.items[index]
    }

    /// The place of the entity with the identifier.
    pub fn position(&self, id: &Id) -> (r: Option<usize>)
        ensures
            match r {
                Some(i) => i < self@.len() && self@[i as int].spec_id() == *id && i == index_of(
                    self@,
                    *id,
                ),
                None => !has_id(self@, *id),
            },
            r.is_some() == has_id(self@, *id),
    {
        proof {
            use_type_invariant(self);
        }
        let mut i: usize = 0;
        while i < self.items.len()
            invariant
                i <= self.items@.len(),
                distinct_ids(self.items@),
                forall|k: int| 0 <= k < i ==> (#[trigger] self.items@[k]).spec_id() != *id,
            decreases self.items@.len() - i,
        {
            if self.items[i].id() == *id {
                proof {
                    lemma_index_of(self.items@, i as int);
                }
                return Some(i);
            }
            i += 1;
        }
        None
    }

    /// The entity with the identifier.
    pub fn get(&self, id: &Id) -> (r: Option<&T>)
        ensures
            match r {
                Some(e) => has_id(self@, *id) && *e == self@[index_of(self@, *id)],
                None => !has_id(self@, *id),
            },
    {
        match self.position(id) {
            Some(i) => Some(&self.items[i]),
            None => None,
        }
    }

    /// Puts a changed entity in the place of the one it was made from.
    pub fn set(&mut self, index: usize, entity: T)
        requires
            index < old(self)@.len(),
            entity.spec_id() == old(self)@[index as int].spec_id(),
        ensures
            final(self)@ == old(self)@.update(index as int, entity),
    {
        proof {
            use_type_invariant(&*self);
        }
        let mut items: Vec<T> = Vec::new();
        std::mem::swap(&mut items, &mut self.items);
        items.set(index, entity);
        self.items = items;
    }

    /// Inserts an entity. One whose identifier is new goes to the end; one
    /// whose identifier is held already takes the place of its holder.
    pub fn insert(&mut self, entity: T)
        ensures
            final(self)@ == inserted(old(self)@, entity),
    {
        proof {
            use_type_invariant(&*self);
        }
        let id = entity.id();
        let place = self.position(&id);
        let mut items: Vec<T> = Vec::new();
        std::mem::swap(&mut items, &mut self.items);
        match place {
            Some(i) => {
                items.set(i, entity);
            },
            None => {
                items.push(entity);
            },
        }
        self.items = items;
    }

    /// Removes the entity with the identifier and returns it.
    pub fn remove(&mut self, id: &Id) -> (r: Option<T>)
        ensures
            match r {
                Some(e) => has_id(old(self)@, *id) && e == old(self)@[index_of(old(self)@, *id)]
                    && final(self)@ == old(self)@.remove(index_of(old(self)@, *id)),
                None => !has_id(old(self)@, *id) && final(self)@ == old(self)@,
            },
    {
        proof {
            use_type_invariant(&*self);
        }
        match self.position(id) {
            Some(i) => {
                let mut items: Vec<T> = Vec::new();
                std::mem::swap(&mut items, &mut self.items);
                let entity = items.remove(i);
                self.items = items;
                Some(entity)
            },
            None => None,
        }
    }

    /// Keeps the entities for which `keep` answers true, in their order,
    /// and drops the others. `keep` is asked once about each entity.
    pub fn retain<F: Fn(&T) -> bool>(&mut self, keep: F)
        requires
            forall|e: &T| #[trigger] keep.requires((e,)),
        ensures
            exists|flags: Seq<bool>|
                flags.len() == old(self)@.len() && (forall|i: int|
                    0 <= i < flags.len() ==> keep.ensures((&old(self)@[i],), #[trigger] flags[i]))
                    && final(self)@ == #[trigger] chosen(old(self)@, flags),
    {
        proof {
            use_type_invariant(&*self);
        }
        let mut items: Vec<T> = Vec::new();
        std::mem::swap(&mut items, &mut self.items);
        let ghost before = items@;
        let ghost mut flags: Seq<bool> = Seq::empty();
        let mut i: usize = 0;
        proof {
            assert(before.skip(0) =~= before);
            assert(chosen(before.take(0), flags) =~= Seq::<T>::empty());
        }
        while i < items.len()
            invariant
                0 <= flags.len() <= before.len(),
                i == chosen(before.take(flags.len() as int), flags).len(),
                items@ == chosen(before.take(flags.len() as int), flags) + before.skip(
                    flags.len() as int,
                ),
                forall|a: int|
                    0 <= a < flags.len() ==> keep.ensures((&before[a],), #[trigger] flags[a]),
                forall|e: &T| #[trigger] keep.requires((e,)),
                self.items@.len() == 0,
            decreases before.len() - flags.len(),
        {
            let ghost done = flags.len() as int;
            let ghost kept = chosen(before.take(done), flags);
            proof {
                assert(before.take(done + 1) =~= before.take(done).push(before[done]));
                assert(items@[i as int] == before[done]);
            }
            let answer = keep(&items[i]);
            proof {
                lemma_chosen_push(before.take(done), flags, before[done], answer);
                flags = flags.push(answer);
            }
            if answer {
                proof {
                    assert(items@ =~= kept.push(before[done]) + before.skip(done + 1));
                }
                i += 1;
            } else {
                items.remove(i);
                proof {
                    assert(items@ =~= kept + before.skip(done + 1));
                }
            }
        }
        proof {
            assert(before.take(flags.len() as int) =~= before);
            assert(items@ =~= chosen(before, flags));
            lemma_chosen_distinct(before, flags);
        }
        self.items = items;
        proof {
            assert(before == old(self)@);
            assert(self@ == chosen(old(self)@, flags));
        }
    }

    /// The identifiers of the entities, in order.
    pub fn ids(&self) -> (r: Vec<Id>)
        ensures
            r@ == ids_of(self@),
    {
        let mut out: Vec<Id> = Vec::new();
        let mut i: usize = 0;
        while i < self.items.len()
            invariant
                i <= self.items@.len(),
                out@ == ids_of(self.items@.take(i as int)),
            decreases self.items@.len() - i,
        {
            out.push(self.items[i].id());
            proof {
                assert(out@ =~= ids_of(self.items@.take(i + 1)));
            }
            i += 1;
        }
        proof {
            assert(self.items@.take(i as int) =~= self.items@);
        }
        out
    }
}

} // verus!
