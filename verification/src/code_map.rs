//! Values filed under codes.

use vstd::prelude::*;

use crate::code::{JobCode, TaskCode};

verus! {

/// A code values can be filed under.
pub trait Code: View<V = Seq<char>> {
    /// Whether the two codes are the same.
    fn is_same(&self, other: &Self) -> (same: bool)
        ensures
            same == (self@ == other@),
    ;
}

impl Code for JobCode {
    fn is_same(&self, other: &Self) -> (same: bool) {
        self.equals(other)
    }
}

impl Code for TaskCode {
    fn is_same(&self, other: &Self) -> (same: bool) {
        self.equals(other)
    }
}

/// Values by the codes they are filed under, in the order the codes came in.
#[derive(Debug)]
pub struct CodeMap<K, V> {
    items: Vec<(K, V)>,
}

/// The value each code stands for, a later one replacing an earlier one.
pub open spec fn filed<K: View<V = Seq<char>>, V>(items: Seq<(K, V)>) -> Map<Seq<char>, V>
    decreases items.len(),
{
    if items.len() == 0 {
        Map::empty()
    } else {
        filed(items.drop_last()).insert(items.last().0@, items.last().1)
    }
}

/// A code stands for a value exactly where some item names it.
proof fn lemma_filed_codes<K: View<V = Seq<char>>, V>(items: Seq<(K, V)>, code: Seq<char>)
    ensures
        filed(items).contains_key(code) <==> exists|i: int|
            0 <= i < items.len() && (#[trigger] items[i]).0@ == code,
    decreases items.len(),
{
    if items.len() > 0 {
        let rest = items.drop_last();
        lemma_filed_codes(rest, code);
        if filed(rest).contains_key(code) {
            let i = choose|i: int| 0 <= i < rest.len() && (#[trigger] rest[i]).0@ == code;
            assert(items[i].0@ == code);
        }
        if exists|i: int| 0 <= i < items.len() && (#[trigger] items[i]).0@ == code {
            let i = choose|i: int| 0 <= i < items.len() && (#[trigger] items[i]).0@ == code;
            if i < rest.len() {
                assert(rest[i].0@ == code);
            }
        }
    }
}

/// Where no code is named twice, every item holds.
proof fn lemma_filed_value<K: View<V = Seq<char>>, V>(items: Seq<(K, V)>, i: int)
    requires
        0 <= i < items.len(),
        are_distinct(items),
    ensures
        filed(items).contains_key(items[i].0@),
        filed(items)[items[i].0@] == items[i].1,
    decreases items.len(),
{
    if i < items.len() - 1 {
        let rest = items.drop_last();
        lemma_filed_value(rest, i);
        assert(items[i].0@ != items[items.len() - 1].0@);
    }
}

/// Replacing the value of one item replaces what its code stands for.
proof fn lemma_filed_replaced<K: View<V = Seq<char>>, V>(items: Seq<(K, V)>, i: int, item: (K, V))
    requires
        0 <= i < items.len(),
        are_distinct(items),
        item.0@ == items[i].0@,
    ensures
        filed(items.update(i, item)) == filed(items).insert(item.0@, item.1),
        are_distinct(items.update(i, item)),
    decreases items.len(),
{
    let after = items.update(i, item);
    if i == items.len() - 1 {
        assert(after.drop_last() =~= items.drop_last());
        assert(filed(after) =~= filed(items).insert(item.0@, item.1));
    } else {
        let rest = items.drop_last();
        lemma_filed_replaced(rest, i, item);
        assert(after.drop_last() =~= rest.update(i, item));
        assert(items[i].0@ != items[items.len() - 1].0@);
        assert(filed(after) =~= filed(items).insert(item.0@, item.1));
    }
    assert forall|j: int, k: int| 0 <= j < k < after.len() implies (#[trigger] after[j]).0@ != (
    #[trigger] after[k]).0@ by {
        assert(after[j].0@ == items[j].0@);
        assert(after[k].0@ == items[k].0@);
    }
}

/// Whether no code is named twice.
pub open spec fn are_distinct<K: View<V = Seq<char>>, V>(items: Seq<(K, V)>) -> bool {
    forall|i: int, j: int|
        0 <= i < j < items.len() ==> (#[trigger] items[i]).0@ != (#[trigger] items[j]).0@
}

impl<K: Code, V> View for CodeMap<K, V> {
    type V = Map<Seq<char>, V>;

    closed spec fn view(&self) -> Map<Seq<char>, V> {
        filed(self.items@)
    }
}

impl<K: Code, V> CodeMap<K, V> {
    /// Whether no code is filed twice.
    pub closed spec fn well_formed(&self) -> bool {
        are_distinct(self.items@)
    }

    /// The codes, in the order they came in.
    pub closed spec fn codes(&self) -> Seq<Seq<char>> {
        self.items@.map_values(|item: (K, V)| item.0@)
    }

    /// An empty map.
    pub fn new() -> (map: Self)
        ensures
            map.well_formed(),
            map@ == Map::<Seq<char>, V>::empty(),
            map.codes() == Seq::<Seq<char>>::empty(),
    {
        let map = CodeMap { items: Vec::new() };
        assert(map.codes() =~= Seq::empty());
        map
    }

    /// How many codes there are.
    pub fn len(&self) -> (len: usize)
        ensures
            len == self.codes().len(),
    {
        self.items.len()
    }

    /// The code that came in at `index`.
    pub fn code_at(&self, index: usize) -> (code: &K)
        requires
            index < self.codes().len(),
        ensures
            code@ == self.codes()[index as int],
    {
        &self.items[index].0
    }

    /// The value of the code that came in at `index`.
    pub fn value_at(&self, index: usize) -> (value: &V)
        requires
            self.well_formed(),
            index < self.codes().len(),
        ensures
            *value == self@[self.codes()[index as int]],
            self@.contains_key(self.codes()[index as int]),
    {
        proof {
            lemma_filed_value(self.items@, index as int);
        }
        &self.items[index].1
    }

    /// Where `code` is filed.
    fn position(&self, code: &K) -> (position: Option<usize>)
        ensures
            position matches Some(i) ==> i < self.items@.len() && self.items@[i as int].0@ == code@,
            position is None ==> forall|i: int|
                0 <= i < self.items@.len() ==> (#[trigger] self.items@[i]).0@ != code@,
    {
        let mut i: usize = 0;
        while i < self.items.len()
            invariant
                i <= self.items@.len(),
                forall|j: int| 0 <= j < i ==> (#[trigger] self.items@[j]).0@ != code@,
            decreases self.items@.len() - i,
        {
            if self.items[i].0.is_same(code) {
                return Some(i);
            }
            i = i + 1;
        }
        None
    }

    /// The value filed under `code`.
    pub fn get(&self, code: &K) -> (value: Option<&V>)
        requires
            self.well_formed(),
        ensures
            value is Some <==> self@.contains_key(code@),
            value matches Some(value) ==> *value == self@[code@],
    {
        match self.position(code) {
            Some(i) => {
                proof {
                    lemma_filed_value(self.items@, i as int);
                }
                Some(&self.items[i].1)
            },
            None => {
                proof {
                    lemma_filed_codes(self.items@, code@);
                }
                None
            },
        }
    }

    /// Files `value` under `code`, in place of what was filed there before.
    pub fn insert(&mut self, code: K, value: V)
        requires
            old(self).well_formed(),
        ensures
            final(self).well_formed(),
            final(self)@ == old(self)@.insert(code@, value),
            final(self).codes() == if old(self)@.contains_key(code@) {
                old(self).codes()
            } else {
                old(self).codes().push(code@)
            },
    {
        let ghost before = self.items@;
        let ghost codes = self.codes();
        proof {
            lemma_filed_codes(before, code@);
        }
        match self.position(&code) {
            Some(i) => {
                proof {
                    assert(before[i as int].0@ == code@);
                    lemma_filed_replaced(before, i as int, (code, value));
                }
                self.items.set(i, (code, value));
                assert(self.codes() =~= codes);
            },
            None => {
                self.items.push((code, value));
                assert(self.items@.drop_last() =~= before);
                assert(self.codes() =~= codes.push(code@));
            },
        }
    }

    /// Every code is filed, and nothing else is.
    pub proof fn law_codes_are_filed(&self)
        requires
            self.well_formed(),
        ensures
            forall|code: Seq<char>| #[trigger]
                self@.contains_key(code) <==> self.codes().contains(code),
            self.codes().no_duplicates(),
    {
        assert forall|code: Seq<char>| #[trigger]
            self@.contains_key(code) <==> self.codes().contains(code) by {
            lemma_filed_codes(self.items@, code);
            if self@.contains_key(code) {
                let i = choose|i: int|
                    0 <= i < self.items@.len() && (#[trigger] self.items@[i]).0@ == code;
                assert(self.codes()[i] == code);
            }
            if self.codes().contains(code) {
                let i = choose|i: int| 0 <= i < self.codes().len() && self.codes()[i] == code;
                assert(self.items@[i].0@ == code);
            }
        }
        assert forall|i: int, j: int|
            0 <= i < self.codes().len() && 0 <= j < self.codes().len() && i
                != j implies self.codes()[i] != self.codes()[j] by {
            assert(self.codes()[i] == self.items@[i].0@);
            assert(self.codes()[j] == self.items@[j].0@);
        }
    }
}

/// Items with the same codes and values, in the same order, file the same.
proof fn lemma_filed_same<K: View<V = Seq<char>>, V>(some: Seq<(K, V)>, others: Seq<(K, V)>)
    requires
        some.len() == others.len(),
        forall|j: int|
            0 <= j < some.len() ==> (#[trigger] some[j]).0@ == others[j].0@ && some[j].1
                == others[j].1,
    ensures
        filed(some) == filed(others),
    decreases some.len(),
{
    if some.len() > 0 {
        assert(some.last().0@ == others.last().0@ && some.last().1 == others.last().1) by {
            assert(some[some.len() - 1].0@ == others[some.len() - 1].0@);
        }
        lemma_filed_same(some.drop_last(), others.drop_last());
    }
}

impl Clone for CodeMap<TaskCode, u64> {
    fn clone(&self) -> (copy: Self)
        ensures
            copy@ == self@,
            self.well_formed() ==> copy.well_formed(),
    {
        let mut items: Vec<(TaskCode, u64)> = Vec::new();
        let mut i: usize = 0;
        while i < self.items.len()
            invariant
                i <= self.items@.len(),
                items@.len() == i,
                forall|j: int|
                    0 <= j < i ==> (#[trigger] items@[j]).0@ == self.items@[j].0@ && items@[j].1
                        == self.items@[j].1,
            decreases self.items@.len() - i,
        {
            items.push((self.items[i].0.clone(), self.items[i].1));
            i = i + 1;
        }
        proof {
            lemma_filed_same(items@, self.items@);
        }
        CodeMap { items }
    }
}

} // verus!
