//! A small map from group names to values that keeps the groups in the
//! order in which they were first inserted.

use vstd::prelude::*;
use vstd::string::StringExecFns;

verus! {

/// One named group and what is kept for it.
#[derive(Debug, Clone)]
pub struct Group<V> {
    pub name: String,
    pub value: V,
}

/// A map from group names to values, in insertion order.
///
/// No name occurs twice: inserting under a name that is present replaces
/// the value kept for it.
#[derive(Debug, Clone)]
pub struct GroupMap<V> {
    entries: Vec<Group<V>>,
}

/// The index of the last occurrence of `name` in `names`, or -1.
pub open spec fn index_in(names: Seq<Seq<char>>, name: Seq<char>) -> int
    decreases names.len(),
{
    if names.len() == 0 {
        -1
    } else if names.last() == name {
        names.len() - 1
    } else {
        index_in(names.drop_last(), name)
    }
}

/// No name occurs twice.
pub open spec fn distinct(names: Seq<Seq<char>>) -> bool {
    forall|i: int, j: int| 0 <= i < j < names.len() ==> names[i] != names[j]
}

/// `index_in` finds a name exactly where the name occurs.
pub proof fn lemma_index_in(names: Seq<Seq<char>>, name: Seq<char>)
    ensures
        -1 <= index_in(names, name) < names.len(),
        index_in(names, name) >= 0 ==> names[index_in(names, name)] == name,
        index_in(names, name) < 0 ==> forall|i: int| 0 <= i < names.len() ==> names[i] != name,
        forall|i: int| index_in(names, name) < i < names.len() ==> names[i] != name,
    decreases names.len(),
{
    if names.len() > 0 && names.last() != name {
        lemma_index_in(names.drop_last(), name);
        assert forall|i: int| 0 <= i < names.len() && index_in(names, name) < 0 implies names[i]
            != name by {
            if i < names.len() - 1 {
                assert(names.drop_last()[i] == names[i]);
            }
        }
        assert forall|i: int| index_in(names, name) < i < names.len() implies names[i] != name by {
            if i < names.len() - 1 {
                assert(names.drop_last()[i] == names[i]);
            }
        }
    }
}

impl<V> GroupMap<V> {
    /// The names of the groups, in insertion order.
    pub closed spec fn names(&self) -> Seq<Seq<char>> {
        Seq::new(self.entries@.len(), |i: int| self.entries@[i].name@)
    }

    /// The values of the groups, in the order of `names`.
    pub closed spec fn values(&self) -> Seq<V> {
        Seq::new(self.entries@.len(), |i: int| self.entries@[i].value)
    }

    /// No name occurs twice.
    pub open spec fn wf(&self) -> bool {
        distinct(self.names())
    }

    /// The map as a mathematical map from names to values.
    pub open spec fn view(&self) -> Map<Seq<char>, V> {
        Map::new(
            |name: Seq<char>| index_in(self.names(), name) >= 0,
            |name: Seq<char>| self.values()[index_in(self.names(), name)],
        )
    }

    /// There are as many values as names, and no more than a machine can
    /// count.
    pub proof fn lemma_same_len(&self)
        ensures
            self.names().len() == self.values().len(),
            self.names().len() <= usize::MAX,
    {
        assert(self.entries@.len() == self.entries.len());
    }

    /// An empty map.
    pub fn new() -> (m: Self)
        ensures
            m.wf(),
            m.names() == Seq::<Seq<char>>::empty(),
            m.values() == Seq::<V>::empty(),
    {
        let m = GroupMap { entries: Vec::new() };
        assert(m.names() =~= Seq::<Seq<char>>::empty());
        assert(m.values() =~= Seq::<V>::empty());
        m
    }

    /// The number of groups.
    pub fn len(&self) -> (n: usize)
        ensures
            n == self.names().len(),
            n == self.values().len(),
    {
        self.entries.len()
    }

    /// The position of the group called `name`, where there is one.
    pub fn position(&self, name: &str) -> (found: Option<usize>)
        ensures
            match found {
                Some(i) => i < self.names().len() && i == index_in(self.names(), name@),
                None => index_in(self.names(), name@) == -1,
            },
    {
        let ghost names = self.names();
        let wanted = String::from_str(name);
        let mut i: usize = self.entries.len();
        assert(names.take(names.len() as int) == names);
        while i > 0
            invariant
                i <= self.entries.len(),
                names == self.names(),
                wanted@ == name@,
                index_in(names, name@) == index_in(names.take(i as int), name@),
            decreases i,
        {
            let ghost head = names.take(i as int);
            assert(head.last() == names[i - 1]);
            assert(head.drop_last() == names.take(i - 1));
            if self.entries[i - 1].name == wanted {
                return Some(i - 1);
            }
            i = i - 1;
        }
        assert(names.take(0).len() == 0);
        None
    }

    /// Keeps `value` for the group called `name`.
    ///
    /// A group that is present keeps its place and hands back the value it
    /// held before; a new group is added at the end.
    pub fn insert(&mut self, name: String, value: V) -> (previous: Option<V>)
        requires
            old(self).wf(),
        ensures
            final(self).wf(),
            final(self)@ == old(self)@.insert(name@, value),
            match previous {
                Some(before) => {
                    let i = index_in(old(self).names(), name@);
                    &&& 0 <= i < old(self).names().len()
                    &&& before == old(self).values()[i]
                    &&& final(self).names() == old(self).names()
                    &&& final(self).values() == old(self).values().update(i, value)
                },
                None => {
                    &&& index_in(old(self).names(), name@) == -1
                    &&& final(self).names() == old(self).names().push(name@)
                    &&& final(self).values() == old(self).values().push(value)
                },
            },
    {
        match self.position(name.as_str()) {
            Some(i) => {
                let mut value = value;
                std::mem::swap(&mut self.entries[i].value, &mut value);
                assert(self.names() =~= old(self).names());
                assert(self.values() =~= old(self).values().update(i as int, self.values()[i as int]));
                proof {
                    lemma_index_in(self.names(), name@);
                    assert forall|key: Seq<char>| key != name@ implies index_in(self.names(), key)
                        != i by {
                        lemma_index_in(self.names(), key);
                    }
                    assert forall|key: Seq<char>| index_in(self.names(), key) < self.names().len() by {
                        lemma_index_in(self.names(), key);
                    }
                    assert(self@ =~= old(self)@.insert(name@, self.values()[i as int]));
                }
                Some(value)
            },
            None => {
                proof {
                    lemma_index_in(self.names(), name@);
                }
                self.entries.push(Group { name, value });
                assert(self.names() =~= old(self).names().push(name@));
                assert(self.values() =~= old(self).values().push(value));
                proof {
                    assert(self.names().drop_last() =~= old(self).names());
                    assert forall|key: Seq<char>| key != name@ implies index_in(self.names(), key)
                        == index_in(old(self).names(), key) by {}
                    assert forall|key: Seq<char>|
                        index_in(old(self).names(), key) < old(self).names().len() by {
                        lemma_index_in(old(self).names(), key);
                    }
                    assert(self@ =~= old(self)@.insert(name@, value));
                }
                None
            },
        }
    }

    /// The value of the group at position `i`, for changing it in place.
    pub fn value_at_mut(&mut self, i: usize) -> (value: &mut V)
        requires
            i < old(self).values().len(),
        ensures
            *value == old(self).values()[i as int],
            final(self).names() == old(self).names(),
            final(self).values() == old(self).values().update(i as int, *final(value)),
    {
        &mut self.entries[i].value
    }

    /// A map with the same names in the same order, each with an empty list.
    pub fn empty_lists<W>(&self) -> (lists: GroupMap<Vec<W>>)
        requires
            self.wf(),
        ensures
            lists.wf(),
            lists.names() == self.names(),
            lists.values().len() == self.names().len(),
            forall|i: int| 0 <= i < lists.values().len() ==> (#[trigger] lists.values()[i])@.len() == 0,
    {
        let mut entries: Vec<Group<Vec<W>>> = Vec::new();
        let mut i: usize = 0;
        while i < self.entries.len()
            invariant
                i <= self.entries.len(),
                entries@.len() == i,
                forall|j: int| 0 <= j < i ==> (#[trigger] entries@[j]).name@ == self.entries@[j].name@,
                forall|j: int| 0 <= j < i ==> (#[trigger] entries@[j]).value@.len() == 0,
            decreases self.entries.len() - i,
        {
            entries.push(Group { name: self.entries[i].name.clone(), value: Vec::new() });
            i = i + 1;
        }
        let lists = GroupMap { entries };
        assert(lists.names() =~= self.names());
        lists
    }

    /// The name of the group at position `i`.
    pub fn name_at(&self, i: usize) -> (name: &str)
        requires
            i < self.names().len(),
        ensures
            name@ == self.names()[i as int],
    {
        self.entries[i].name.as_str()
    }

    /// The value of the group at position `i`.
    pub fn value_at(&self, i: usize) -> (value: &V)
        requires
            i < self.values().len(),
        ensures
            *value == self.values()[i as int],
    {
        &self.entries[i].value
    }

    /// The value kept for the group called `name`, where there is one.
    pub fn get(&self, name: &str) -> (value: Option<&V>)
        ensures
            match value {
                Some(v) => self@.contains_key(name@) && *v == self@[name@],
                None => !self@.contains_key(name@),
            },
    {
        match self.position(name) {
            Some(i) => {
                let value = &self.entries[i].value;
                assert(*value == self.values()[i as int]);
                Some(value)
            },
            None => None,
        }
    }
}

} // verus!
