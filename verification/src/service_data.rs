//! The service data of an advertisement: for each advertised service, named
//! by its UUID as text, the bytes that the device sent for it.

use vstd::prelude::*;
use vstd::string::*;

verus! {

/// The table that a list of entries stands for, an entry further back
/// replacing one before it with the same key.
pub open spec fn table_of(entries: Seq<(String, Vec<u8>)>) -> Map<Seq<char>, Seq<u8>>
    decreases entries.len(),
{
    if entries.len() == 0 {
        Map::empty()
    } else {
        table_of(entries.drop_last()).insert(entries.last().0@, entries.last().1@)
    }
}

/// Whether no key occurs twice among `entries`.
pub open spec fn distinct_keys(entries: Seq<(String, Vec<u8>)>) -> bool {
    forall|i: int, j: int|
        0 <= i < j < entries.len() ==> (#[trigger] entries[i]).0@ != (#[trigger] entries[j]).0@
}

/// The keys of the table are the keys of the entries.
pub proof fn lemma_table_keys(entries: Seq<(String, Vec<u8>)>, key: Seq<char>)
    ensures
        table_of(entries).contains_key(key) <==> exists|i: int|
            0 <= i < entries.len() && (#[trigger] entries[i]).0@ == key,
    decreases entries.len(),
{
    if entries.len() > 0 {
        let front = entries.drop_last();
        lemma_table_keys(front, key);
        if table_of(entries).contains_key(key) {
            if entries.last().0@ == key {
                assert(entries[entries.len() - 1].0@ == key);
            } else {
                let i = choose|i: int| 0 <= i < front.len() && (#[trigger] front[i]).0@ == key;
                assert(entries[i].0@ == key);
            }
        }
        if exists|i: int| 0 <= i < entries.len() && (#[trigger] entries[i]).0@ == key {
            let i = choose|i: int| 0 <= i < entries.len() && (#[trigger] entries[i]).0@ == key;
            if i < front.len() {
                assert(front[i].0@ == key);
            }
        }
    }
}

/// Where no key occurs twice, the table holds each entry's value under its
/// key.
pub proof fn lemma_table_value(entries: Seq<(String, Vec<u8>)>, i: int)
    requires
        distinct_keys(entries),
        0 <= i < entries.len(),
    ensures
        table_of(entries).contains_key(entries[i].0@),
        table_of(entries)[entries[i].0@] == entries[i].1@,
    decreases entries.len(),
{
    let front = entries.drop_last();
    if i < entries.len() - 1 {
        assert(distinct_keys(front)) by {
            assert forall|a: int, b: int| 0 <= a < b < front.len() implies (#[trigger] front[a]).0@
                != (#[trigger] front[b]).0@ by {
                assert(front[a] == entries[a] && front[b] == entries[b]);
            }
        }
        lemma_table_value(front, i);
        assert(front[i] == entries[i]);
        assert(entries[i].0@ != entries[entries.len() - 1].0@);
    }
}

/// Replacing the value of an entry in place is an insertion under its key.
pub proof fn lemma_table_replace(entries: Seq<(String, Vec<u8>)>, i: int, entry: (String, Vec<u8>))
    requires
        distinct_keys(entries),
        0 <= i < entries.len(),
        entry.0@ == entries[i].0@,
    ensures
        distinct_keys(entries.update(i, entry)),
        table_of(entries.update(i, entry)) == table_of(entries).insert(entry.0@, entry.1@),
    decreases entries.len(),
{
    let after = entries.update(i, entry);
    assert(distinct_keys(after)) by {
        assert forall|a: int, b: int| 0 <= a < b < after.len() implies (#[trigger] after[a]).0@
            != (#[trigger] after[b]).0@ by {
            assert(after[a].0@ == entries[a].0@ && after[b].0@ == entries[b].0@);
        }
    }
    let front = entries.drop_last();
    if i == entries.len() - 1 {
        assert(after.drop_last() =~= front);
        assert(table_of(after) =~= table_of(entries).insert(entry.0@, entry.1@));
    } else {
        assert(distinct_keys(front)) by {
            assert forall|a: int, b: int| 0 <= a < b < front.len() implies (#[trigger] front[a]).0@
                != (#[trigger] front[b]).0@ by {
                assert(front[a] == entries[a] && front[b] == entries[b]);
            }
        }
        assert(front[i] == entries[i]);
        lemma_table_replace(front, i, entry);
        assert(after.drop_last() =~= front.update(i, entry));
        assert(after.last() == entries.last());
        assert(entries[i].0@ != entries[entries.len() - 1].0@);
        assert(table_of(after) =~= table_of(entries).insert(entry.0@, entry.1@));
    }
}

/// The position of `key` among `entries`, if it occurs there.
fn position_of(entries: &Vec<(String, Vec<u8>)>, key: &String) -> (r: Option<usize>)
    ensures
        match r {
            Some(i) => i < entries@.len() && entries@[i as int].0@ == key@,
            None => forall|i: int| 0 <= i < entries@.len() ==> (#[trigger] entries@[i]).0@ != key@,
        },
{
    let mut i: usize = 0;
    while i < entries.len()
        invariant
            i <= entries@.len(),
            forall|j: int| 0 <= j < i ==> (#[trigger] entries@[j]).0@ != key@,
        decreases entries@.len() - i,
    {
        if entries[i].0 == *key {
            return Some(i);
        }
        i += 1;
    }
    None
}

/// Service data of an advertisement. No service occurs in it twice.
#[derive(Debug)]
pub struct ServiceData {
    entries: Vec<(String, Vec<u8>)>,
}

impl View for ServiceData {
    type V = Map<Seq<char>, Seq<u8>>;

    closed spec fn view(&self) -> Map<Seq<char>, Seq<u8>> {
        table_of(self.entries@)
    }
}

impl ServiceData {
    #[verifier::type_invariant]
    spec fn no_key_twice(&self) -> bool {
        distinct_keys(self.entries@)
    }

    /// Service data without any entry.
    pub fn new() -> (data: Self)
        ensures
            data@ == Map::<Seq<char>, Seq<u8>>::empty(),
    {
        ServiceData { entries: Vec::new() }
    }

    /// The same data with `bytes` as the data of `service`, in place of what
    /// was there for that service before, if anything.
    pub fn insert(self, service: String, bytes: Vec<u8>) -> (data: Self)
        ensures
            data@ == self@.insert(service@, bytes@),
    {
        proof {
            use_type_invariant(&self);
        }
        let mut entries = self.entries;
        let ghost before = entries@;
        match position_of(&entries, &service) {
            Some(i) => {
                proof {
                    lemma_table_replace(before, i as int, (service, bytes));
                }
                entries.set(i, (service, bytes));
            },
            None => {
                entries.push((service, bytes));
                assert(entries@.drop_last() =~= before);
            },
        }
        ServiceData { entries }
    }

    /// The bytes sent for `service`, if any were.
    pub fn get(&self, service: &str) -> (r: Option<&Vec<u8>>)
        ensures
            match r {
                Some(bytes) => self@.contains_key(service@) && self@[service@] == bytes@,
                None => !self@.contains_key(service@),
            },
    {
        proof {
            use_type_invariant(self);
            lemma_table_keys(self.entries@, service@);
        }
        let key = String::from_str(service);
        match position_of(&self.entries, &key) {
            Some(i) => {
                proof {
                    lemma_table_value(self.entries@, i as int);
                }
                Some(&self.entries[i].1)
            },
            None => None,
        }
    }

    /// How many services the data names.
    pub fn len(&self) -> (n: usize)
        ensures
            n == self@.dom().len(),
            self@.dom().finite(),
    {
        proof {
            use_type_invariant(self);
            lemma_table_size(self.entries@);
        }
        self.entries.len()
    }

    /// The entries, each service once, in the order in which each service
    /// first came in.
    pub fn into_entries(self) -> (entries: Vec<(String, Vec<u8>)>)
        ensures
            distinct_keys(entries@),
            table_of(entries@) == self@,
    {
        proof {
            use_type_invariant(&self);
        }
        self.entries
    }
}

/// Where no key occurs twice, the table has as many keys as there are
/// entries.
pub proof fn lemma_table_size(entries: Seq<(String, Vec<u8>)>)
    requires
        distinct_keys(entries),
    ensures
        table_of(entries).dom().finite(),
        table_of(entries).dom().len() == entries.len(),
    decreases entries.len(),
{
    if entries.len() > 0 {
        let front = entries.drop_last();
        assert(distinct_keys(front)) by {
            assert forall|a: int, b: int| 0 <= a < b < front.len() implies (#[trigger] front[a]).0@
                != (#[trigger] front[b]).0@ by {
                assert(front[a] == entries[a] && front[b] == entries[b]);
            }
        }
        lemma_table_size(front);
        lemma_table_keys(front, entries.last().0@);
        if table_of(front).contains_key(entries.last().0@) {
            let i = choose|i: int| 0 <= i < front.len() && (#[trigger] front[i]).0@ == entries.last().0@;
            assert(front[i] == entries[i]);
            assert(entries[i].0@ != entries[entries.len() - 1].0@);
        }
        assert(table_of(entries).dom() =~= table_of(front).dom().insert(entries.last().0@));
    }
}

/// Whether two lists of entries hold the same keys and bytes, place by place.
pub open spec fn same_entries(a: Seq<(String, Vec<u8>)>, b: Seq<(String, Vec<u8>)>) -> bool {
    &&& a.len() == b.len()
    &&& forall|i: int|
        0 <= i < a.len() ==> (#[trigger] a[i]).0@ == b[i].0@ && a[i].1@ == (#[trigger] b[i]).1@
}

/// Lists that hold the same keys and bytes stand for the same table.
pub proof fn lemma_table_of_same_entries(a: Seq<(String, Vec<u8>)>, b: Seq<(String, Vec<u8>)>)
    requires
        same_entries(a, b),
    ensures
        table_of(a) == table_of(b),
        distinct_keys(a) ==> distinct_keys(b),
    decreases a.len(),
{
    if a.len() > 0 {
        assert(same_entries(a.drop_last(), b.drop_last())) by {
            assert forall|i: int| 0 <= i < a.len() - 1 implies (#[trigger] a.drop_last()[i]).0@
                == b.drop_last()[i].0@ && a.drop_last()[i].1@ == (#[trigger] b.drop_last()[i]).1@ by {
                assert(a.drop_last()[i] == a[i] && b.drop_last()[i] == b[i]);
            }
        }
        lemma_table_of_same_entries(a.drop_last(), b.drop_last());
        assert(a.last() == a[a.len() - 1] && b.last() == b[b.len() - 1]);
    }
    if distinct_keys(a) {
        assert forall|i: int, j: int| 0 <= i < j < b.len() implies (#[trigger] b[i]).0@ != (
        #[trigger] b[j]).0@ by {
            assert(a[i].0@ == b[i].0@ && a[j].0@ == b[j].0@);
        }
    }
}

impl Clone for ServiceData {
    fn clone(&self) -> (copy: Self)
        ensures
            copy@ == self@,
    {
        proof {
            use_type_invariant(self);
        }
        let mut entries: Vec<(String, Vec<u8>)> = Vec::new();
        let mut i: usize = 0;
        while i < self.entries.len()
            invariant
                i <= self.entries@.len(),
                same_entries(self.entries@.take(i as int), entries@),
            decreases self.entries@.len() - i,
        {
            let service = self.entries[i].0.clone();
            let bytes = self.entries[i].1.clone();
            entries.push((service, bytes));
            i += 1;
        }
        proof {
            assert(self.entries@.take(i as int) =~= self.entries@);
            lemma_table_of_same_entries(self.entries@, entries@);
        }
        ServiceData { entries }
    }
}

} // verus!
