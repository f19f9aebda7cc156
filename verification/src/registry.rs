//! The table behind a session registry: at most one session per identifier.
//!
//! The identifiers are compared as texts, so the table is kept as a list with
//! no identifier twice. Its view is the map from identifier to session.

use vstd::prelude::*;

verus! {

struct Entry<T> {
    id: String,
    session: T,
}

/// Sessions by identifier.
pub struct SessionTable<T> {
    entries: Vec<Entry<T>>,
}

spec fn distinct_ids<T>(entries: Seq<Entry<T>>) -> bool {
    forall|i: int, j: int|
        0 <= i < j < entries.len() ==> (#[trigger] entries[i]).id@ != (#[trigger] entries[j]).id@
}

spec fn has_id<T>(entries: Seq<Entry<T>>, k: Seq<char>) -> bool {
    exists|i: int| 0 <= i < entries.len() && (#[trigger] entries[i]).id@ == k
}

spec fn index_of<T>(entries: Seq<Entry<T>>, k: Seq<char>) -> int {
    choose|i: int| 0 <= i < entries.len() && (#[trigger] entries[i]).id@ == k
}

spec fn map_of<T>(entries: Seq<Entry<T>>) -> Map<Seq<char>, T> {
    Map::new(|k: Seq<char>| has_id(entries, k), |k: Seq<char>| entries[index_of(entries, k)].session)
}

proof fn lemma_index_of<T>(entries: Seq<Entry<T>>, i: int)
    requires
        distinct_ids(entries),
        0 <= i < entries.len(),
    ensures
        has_id(entries, entries[i].id@),
        index_of(entries, entries[i].id@) == i,
        map_of(entries).contains_key(entries[i].id@),
        map_of(entries)[entries[i].id@] == entries[i].session,
{
    let k = entries[i].id@;
    assert(has_id(entries, k));
    let j = index_of(entries, k);
    assert(0 <= j < entries.len() && entries[j].id@ == k);
    if j < i {
        assert(entries[j].id@ != entries[i].id@);
    } else if i < j {
        assert(entries[i].id@ != entries[j].id@);
    }
}

proof fn lemma_push<T>(entries: Seq<Entry<T>>, e: Entry<T>)
    requires
        distinct_ids(entries),
        !has_id(entries, e.id@),
    ensures
        distinct_ids(entries.push(e)),
        map_of(entries.push(e)) == map_of(entries).insert(e.id@, e.session),
{
    let after = entries.push(e);
    assert forall|i: int, j: int| 0 <= i < j < after.len() implies (#[trigger] after[i]).id@ != (
    #[trigger] after[j]).id@ by {
        if j < entries.len() {
            assert(entries[i].id@ != entries[j].id@);
        } else {
            assert(after[i] == entries[i]);
            if entries[i].id@ == e.id@ {
                assert(has_id(entries, e.id@));
            }
        }
    }
    assert forall|k: Seq<char>| #[trigger]
        map_of(after).contains_key(k) == map_of(entries).insert(e.id@, e.session).contains_key(
            k,
        ) by {
        if has_id(after, k) {
            let i = index_of(after, k);
            if i < entries.len() {
                assert(entries[i] == after[i]);
                assert(has_id(entries, k));
            }
        }
        if has_id(entries, k) {
            let i = index_of(entries, k);
            assert(after[i] == entries[i]);
            assert(has_id(after, k));
        }
        if k == e.id@ {
            assert(after[entries.len() as int] == e);
            assert(has_id(after, k));
        }
    }
    assert forall|k: Seq<char>| #[trigger] map_of(after).contains_key(k) implies map_of(after)[k]
        == map_of(entries).insert(e.id@, e.session)[k] by {
        let i = index_of(after, k);
        lemma_index_of(after, i);
        if i < entries.len() {
            assert(after[i] == entries[i]);
            lemma_index_of(entries, i);
            assert(k != e.id@);
        } else {
            assert(after[i] == e);
        }
    }
    assert(map_of(after) =~= map_of(entries).insert(e.id@, e.session));
}

proof fn lemma_remove<T>(entries: Seq<Entry<T>>, i: int)
    requires
        distinct_ids(entries),
        0 <= i < entries.len(),
    ensures
        distinct_ids(entries.remove(i)),
        map_of(entries.remove(i)) == map_of(entries).remove(entries[i].id@),
{
    let after = entries.remove(i);
    let gone = entries[i].id@;
    assert forall|a: int, b: int| 0 <= a < b < after.len() implies (#[trigger] after[a]).id@ != (
    #[trigger] after[b]).id@ by {
        let a0 = if a < i { a } else { a + 1 };
        let b0 = if b < i { b } else { b + 1 };
        assert(after[a] == entries[a0]);
        assert(after[b] == entries[b0]);
        assert(entries[a0].id@ != entries[b0].id@);
    }
    assert forall|k: Seq<char>| #[trigger]
        map_of(after).contains_key(k) == map_of(entries).remove(gone).contains_key(k) by {
        if has_id(after, k) {
            let a = index_of(after, k);
            let a0 = if a < i { a } else { a + 1 };
            assert(after[a] == entries[a0]);
            assert(has_id(entries, k));
            if a0 < i {
                assert(entries[a0].id@ != entries[i].id@);
            } else {
                assert(entries[i].id@ != entries[a0].id@);
            }
        }
        if has_id(entries, k) && k != gone {
            let b0 = index_of(entries, k);
            let b = if b0 < i { b0 } else { b0 - 1 };
            assert(after[b] == entries[b0]);
            assert(has_id(after, k));
        }
    }
    assert forall|k: Seq<char>| #[trigger] map_of(after).contains_key(k) implies map_of(after)[k]
        == map_of(entries).remove(gone)[k] by {
        let a = index_of(after, k);
        lemma_index_of(after, a);
        let a0 = if a < i { a } else { a + 1 };
        assert(after[a] == entries[a0]);
        lemma_index_of(entries, a0);
    }
    assert(map_of(after) =~= map_of(entries).remove(gone));
}

impl<T> SessionTable<T> {
    #[verifier::type_invariant]
    spec fn no_id_twice(self) -> bool {
        distinct_ids(self.entries@)
    }

    /// The sessions by identifier.
    pub closed spec fn view(&self) -> Map<Seq<char>, T> {
        map_of(self.entries@)
    }

    /// A table without sessions.
    pub fn new() -> (table: SessionTable<T>)
        ensures
            table@ == Map::<Seq<char>, T>::empty(),
    {
        let table = SessionTable { entries: Vec::new() };
        assert(table@ =~= Map::<Seq<char>, T>::empty());
        table
    }

    fn position(&self, id: &str) -> (at: Option<usize>)
        ensures
            match at {
                Some(i) => i < self.entries.len() && self.entries[i as int].id@ == id@,
                None => !has_id(self.entries@, id@),
            },
    {
        let mut i: usize = 0;
        while i < self.entries.len()
            invariant
                i <= self.entries.len(),
                forall|j: int| 0 <= j < i ==> (#[trigger] self.entries@[j]).id@ != id@,
            decreases self.entries.len() - i,
        {
            if str_equal(self.entries[i].id.as_str(), id) {
                return Some(i);
            }
            i += 1;
        }
        None
    }

    /// The number of sessions.
    pub fn len(&self) -> (n: usize)
        ensures
            n == self@.len(),
            self@.dom().finite(),
    {
        proof {
            use_type_invariant(self);
            lemma_len(self.entries@);
        }
        self.entries.len()
    }

    /// Whether a session is registered under `id`.
    pub fn contains(&self, id: &str) -> (found: bool)
        ensures
            found == self@.contains_key(id@),
    {
        proof {
            use_type_invariant(self);
        }
        match self.position(id) {
            Some(i) => {
                proof {
                    lemma_index_of(self.entries@, i as int);
                }
                true
            },
            None => false,
        }
    }

    /// The session registered under `id`.
    pub fn get(&self, id: &str) -> (found: Option<&T>)
        ensures
            match found {
                Some(session) => self@.contains_key(id@) && self@[id@] == *session,
                None => !self@.contains_key(id@),
            },
    {
        proof {
            use_type_invariant(self);
        }
        match self.position(id) {
            Some(i) => {
                proof {
                    lemma_index_of(self.entries@, i as int);
                }
                Some(&self.entries[i].session)
            },
            None => None,
        }
    }

    /// Registers `session` under `id` and hands back the session that was
    /// registered there before.
    pub fn insert(&mut self, id: String, session: T) -> (previous: Option<T>)
        ensures
            final(self)@ == old(self)@.insert(id@, session),
            previous == if old(self)@.contains_key(id@) {
                Some(old(self)@[id@])
            } else {
                None::<T>
            },
    {
        let previous = self.remove(id.as_str());
        proof {
            use_type_invariant(&*self);
            assert(!self@.contains_key(id@));
            assert(!has_id(self.entries@, id@));
            lemma_push(self.entries@, Entry { id, session });
            assert(old(self)@.remove(id@).insert(id@, session) =~= old(self)@.insert(id@, session));
        }
        let mut entries: Vec<Entry<T>> = Vec::new();
        core::mem::swap(&mut self.entries, &mut entries);
        entries.push(Entry { id, session });
        core::mem::swap(&mut self.entries, &mut entries);
        previous
    }

    /// Takes the session registered under `id` out of the table.
    pub fn remove(&mut self, id: &str) -> (removed: Option<T>)
        ensures
            final(self)@ == old(self)@.remove(id@),
            removed == if old(self)@.contains_key(id@) {
                Some(old(self)@[id@])
            } else {
                None::<T>
            },
    {
        proof {
            use_type_invariant(&*self);
        }
        match self.position(id) {
            Some(i) => {
                proof {
                    lemma_index_of(self.entries@, i as int);
                    lemma_remove(self.entries@, i as int);
                }
                let mut entries: Vec<Entry<T>> = Vec::new();
                core::mem::swap(&mut self.entries, &mut entries);
                let entry = entries.remove(i);
                core::mem::swap(&mut self.entries, &mut entries);
                Some(entry.session)
            },
            None => {
                assert(self@.remove(id@) =~= self@);
                None
            },
        }
    }

    /// The identifiers of the registered sessions, in no particular order.
    pub fn ids(&self) -> (ids: Vec<String>)
        ensures
            ids.len() == self@.len(),
            forall|k: Seq<char>|
                self@.contains_key(k) <==> exists|i: int|
                    0 <= i < ids.len() && (#[trigger] ids[i])@ == k,
    {
        let mut ids: Vec<String> = Vec::new();
        let mut i: usize = 0;
        while i < self.entries.len()
            invariant
                i <= self.entries.len(),
                ids.len() == i,
                forall|j: int| 0 <= j < i ==> (#[trigger] ids[j])@ == self.entries@[j].id@,
            decreases self.entries.len() - i,
        {
            ids.push(self.entries[i].id.clone());
            i += 1;
        }
        proof {
            use_type_invariant(self);
            lemma_len(self.entries@);
            assert forall|k: Seq<char>|
                self@.contains_key(k) <==> exists|i: int|
                    0 <= i < ids.len() && (#[trigger] ids[i])@ == k by {
                if self@.contains_key(k) {
                    let j = index_of(self.entries@, k);
                    assert(ids[j]@ == k);
                }
                if exists|i: int| 0 <= i < ids.len() && (#[trigger] ids[i])@ == k {
                    let j = choose|i: int| 0 <= i < ids.len() && (#[trigger] ids[i])@ == k;
                    assert(self.entries@[j].id@ == k);
                }
            }
        }
        ids
    }
}

proof fn lemma_len<T>(entries: Seq<Entry<T>>)
    requires
        distinct_ids(entries),
    ensures
        map_of(entries).dom().finite(),
        map_of(entries).len() == entries.len(),
    decreases entries.len(),
{
    if entries.len() == 0 {
        assert(map_of(entries) =~= Map::<Seq<char>, T>::empty());
    } else {
        let last = entries.last();
        let front = entries.drop_last();
        assert forall|i: int, j: int| 0 <= i < j < front.len() implies (#[trigger] front[i]).id@ != (
        #[trigger] front[j]).id@ by {
            assert(front[i] == entries[i]);
            assert(front[j] == entries[j]);
        }
        lemma_len(front);
        if has_id(front, last.id@) {
            let i = index_of(front, last.id@);
            assert(front[i] == entries[i]);
            assert(entries[i].id@ != entries[entries.len() - 1].id@);
        }
        assert(front.push(last) =~= entries);
        lemma_push(front, last);
    }
}

/// Whether two texts are the same.
pub fn str_equal(a: &str, b: &str) -> (same: bool)
    ensures
        same == (a@ == b@),
{
    let x = String::from_str(a);
    let y = String::from_str(b);
    x == y
}

} // verus!
