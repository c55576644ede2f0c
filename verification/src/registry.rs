//! The credential registry: the distinct credentials of a batch, and the call
//! counter that belongs to each of them.

use vstd::prelude::*;
use crate::text::{texts, optional_texts};

verus! {

/// The credentials that `keys` mentions, each once, in the order in which
/// they first appear.
pub open spec fn distinct(keys: Seq<Option<Seq<char>>>) -> Seq<Seq<char>>
    decreases keys.len(),
{
    if keys.len() == 0 {
        Seq::empty()
    } else {
        let earlier = distinct(keys.drop_last());
        match keys.last() {
            Some(key) => if earlier.contains(key) {
                earlier
            } else {
                earlier.push(key)
            },
            None => earlier,
        }
    }
}

/// The slot of a credential among `names`: the first place that holds it.
pub open spec fn slot_of(names: Seq<Seq<char>>, key: Option<Seq<char>>) -> Option<usize> {
    match key {
        Some(name) => Some(names.index_of(name) as usize),
        None => None,
    }
}

/// The slot of every key of a batch among the distinct credentials of that
/// batch.
pub open spec fn slots_of(keys: Seq<Option<Seq<char>>>) -> Seq<Option<usize>> {
    keys.map_values(|key: Option<Seq<char>>| slot_of(distinct(keys), key))
}

/// No credential stands twice among the distinct ones, and a credential
/// stands among them exactly if some operation of the batch uses it.
pub proof fn lemma_distinct(keys: Seq<Option<Seq<char>>>)
    ensures
        distinct(keys).no_duplicates(),
        distinct(keys).len() <= keys.len(),
        forall|name: Seq<char>| #[trigger] distinct(keys).contains(name) <==> keys.contains(Some(name)),
    decreases keys.len(),
{
    if keys.len() > 0 {
        let front = keys.drop_last();
        let earlier = distinct(front);
        lemma_distinct(front);
        assert forall|name: Seq<char>| #[trigger] distinct(keys).contains(name) <==> keys.contains(
            Some(name),
        ) by {
            if keys.contains(Some(name)) {
                let at = choose|i: int| 0 <= i < keys.len() && keys[i] == Some(name);
                if at < keys.len() - 1 {
                    assert(front[at] == Some(name));
                    assert(front.contains(Some(name)));
                    assert(earlier.contains(name));
                    let found = choose|i: int| 0 <= i < earlier.len() && earlier[i] == name;
                    assert(distinct(keys)[found] == name);
                } else {
                    if !earlier.contains(name) {
                        assert(distinct(keys)[earlier.len() as int] == name);
                    } else {
                        let found = choose|i: int| 0 <= i < earlier.len() && earlier[i] == name;
                        assert(distinct(keys)[found] == name);
                    }
                }
            }
            if distinct(keys).contains(name) {
                let found = choose|i: int| 0 <= i < distinct(keys).len() && distinct(keys)[i] == name;
                if found < earlier.len() {
                    assert(earlier[found] == name);
                    assert(earlier.contains(name));
                    assert(front.contains(Some(name)));
                    let at = choose|i: int| 0 <= i < front.len() && front[i] == Some(name);
                    assert(keys[at] == Some(name));
                } else {
                    assert(keys[keys.len() - 1] == Some(name));
                }
            }
        }
    }
}

/// The call counter of one credential.
pub struct Counter {
    calls: usize,
}

impl Counter {
    /// The number of calls counted so far.
    pub closed spec fn value(&self) -> nat {
        self.calls as nat
    }

    /// A counter that starts at `offset`.
    pub fn new(offset: usize) -> (counter: Self)
        ensures
            counter.value() == offset,
    {
        Counter { calls: offset }
    }

    /// Reads the counter.
    pub fn read(&self) -> (calls: usize)
        ensures
            calls == self.value(),
    {
        self.calls
    }

    /// Counts one more call.
    pub fn increment(&mut self)
        requires
            old(self).value() < usize::MAX,
        ensures
            final(self).value() == old(self).value() + 1,
    {
        self.calls = self.calls + 1;
    }
}

/// Where no name stands twice, a name has the place at which it is found.
pub proof fn lemma_place_is_unique(names: Seq<Seq<char>>, name: Seq<char>, at: int)
    requires
        names.no_duplicates(),
        0 <= at < names.len(),
        names[at] == name,
    ensures
        names.index_of(name) == at,
{
}

/// Looks a credential up among `names`: the first place that holds it.
pub fn find(names: &Vec<String>, key: &String) -> (slot: Option<usize>)
    ensures
        slot is Some <==> texts(names@).contains(key@),
        slot matches Some(at) ==> at < names.len() && names[at as int]@ == key@ && forall|j: int|
            0 <= j < at ==> texts(names@)[j] != key@,
{
    let mut i: usize = 0;
    while i < names.len()
        invariant
            i <= names.len(),
            forall|j: int| 0 <= j < i ==> texts(names@)[j] != key@,
        decreases names.len() - i,
    {
        if names[i] == *key {
            assert(texts(names@)[i as int] == key@);
            return Some(i);
        }
        i = i + 1;
    }
    None
}

/// The distinct credentials of a batch, with the count at which each counter
/// starts.
pub struct Registry {
    names: Vec<String>,
    offset: usize,
}

impl Registry {
    /// The credentials, each once, in the order of their slots.
    pub closed spec fn credentials(&self) -> Seq<Seq<char>> {
        texts(self.names@)
    }

    /// The count at which every counter starts.
    pub closed spec fn start(&self) -> nat {
        self.offset as nat
    }

    /// Scans a batch once: `keys` holds the credential of each operation, in
    /// the order of submission. The registry gets one slot for each distinct
    /// credential, in the order in which they first appear, and the second
    /// result names the slot of each operation, `None` for an operation
    /// without a credential.
    pub fn scan(keys: &Vec<Option<String>>, offset: usize) -> (scanned: (Self, Vec<Option<usize>>))
        ensures
            scanned.0.credentials() == distinct(optional_texts(keys@)),
            scanned.0.start() == offset,
            scanned.1@ == slots_of(optional_texts(keys@)),
    {
        let ghost all = optional_texts(keys@);
        let mut names: Vec<String> = Vec::new();
        let mut slots: Vec<Option<usize>> = Vec::new();
        let mut i: usize = 0;
        while i < keys.len()
            invariant
                i <= keys.len(),
                all == optional_texts(keys@),
                texts(names@) == distinct(all.take(i as int)),
                slots@.len() == i,
                forall|j: int| 0 <= j < i ==> #[trigger] slots@[j] == slot_of(texts(names@), all[j]),
            decreases keys.len() - i,
        {
            let ghost before = texts(names@);
            proof {
                assert(all.take(i + 1).drop_last() =~= all.take(i as int));
                lemma_distinct(all.take(i as int));
                assert(before.len() <= i);
            }
            match &keys[i] {
                Some(key) => {
                    let slot = match find(&names, key) {
                        Some(at) => at,
                        None => {
                            names.push(key.clone());
                            names.len() - 1
                        },
                    };
                    slots.push(Some(slot));
                    proof {
                        let after = texts(names@);
                        assert(all[i as int] == Some(key@));
                        if before.contains(key@) {
                            assert(after =~= before);
                        } else {
                            assert(after =~= before.push(key@));
                        }
                        assert(after == distinct(all.take(i + 1)));
                        lemma_distinct(all.take(i + 1));
                        lemma_place_is_unique(after, key@, slot as int);
                    }
                },
                None => {
                    slots.push(None);
                    assert(texts(names@) == distinct(all.take(i + 1)));
                },
            }
            proof {
                let after = texts(names@);
                assert forall|j: int| 0 <= j < i + 1 implies #[trigger] slots@[j] == slot_of(
                    after,
                    all[j],
                ) by {
                    if j < i {
                        match all[j] {
                            Some(name) => {
                                lemma_distinct(all.take(i as int));
                                assert(all.take(i as int)[j] == Some(name));
                                assert(all.take(i as int).contains(Some(name)));
                                assert(before.contains(name));
                                let at = before.index_of(name);
                                assert(after[at] == name);
                                lemma_distinct(all.take(i + 1));
                                lemma_place_is_unique(after, name, at);
                            },
                            None => {},
                        }
                    }
                }
            }
            i = i + 1;
        }
        proof {
            assert(all.take(keys.len() as int) =~= all);
            assert(slots@ =~= slots_of(all));
        }
        (Registry { names, offset }, slots)
    }

    /// The number of slots.
    pub fn len(&self) -> (count: usize)
        ensures
            count == self.credentials().len(),
    {
        self.names.len()
    }

    /// The credential of a slot.
    pub fn credential(&self, slot: usize) -> (name: &String)
        requires
            slot < self.credentials().len(),
        ensures
            name@ == self.credentials()[slot as int],
    {
        &self.names[slot]
    }

    /// The count at which every counter starts.
    pub fn offset(&self) -> (offset: usize)
        ensures
            offset == self.start(),
    {
        self.offset
    }

    /// One fresh counter for each slot.
    pub fn counters(&self) -> (fresh: Vec<Counter>)
        ensures
            fresh.len() == self.credentials().len(),
            forall|slot: int| 0 <= slot < fresh.len() ==> (#[trigger] fresh[slot]).value() == self.start(),
    {
        let mut fresh: Vec<Counter> = Vec::new();
        while fresh.len() < self.names.len()
            invariant
                fresh.len() <= self.names.len(),
                forall|slot: int| 0 <= slot < fresh.len() ==> (#[trigger] fresh[slot]).value() == self.start(),
            decreases self.names.len() - fresh.len(),
        {
            fresh.push(Counter::new(self.offset));
        }
        fresh
    }
}

} // verus!
