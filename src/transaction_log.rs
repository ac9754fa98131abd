//! Logs of text entries: a queue that is read from the front, and a log
//! that can be walked in both directions.

use vstd::prelude::*;

verus! {

/// The text of each entry.
pub open spec fn texts(v: Seq<String>) -> Seq<Seq<char>> {
    v.map_values(|s: String| s@)
}

/// A copy of every entry, in order.
pub fn clone_entries(v: &Vec<String>) -> (r: Vec<String>)
    ensures
        r@.len() == v@.len(),
        texts(r@) == texts(v@),
{
    let mut r: Vec<String> = Vec::new();
    let mut i: usize = 0;
    while i < v.len()
        invariant
            i <= v@.len(),
            r@.len() == i,
            texts(r@) == texts(v@.take(i as int)),
        decreases v@.len() - i,
    {
        r.push(v[i].clone());
        assert(texts(v@.take(i + 1)) =~= texts(v@.take(i as int)).push(v@[i as int]@));
        assert(texts(r@) =~= texts(v@.take(i as int)).push(v@[i as int]@));
        i = i + 1;
    }
    assert(v@.take(v@.len() as int) =~= v@);
    r
}

/// Entries appended at the back and taken from the front.
pub struct TransactionLog {
    items: Vec<String>,
    pub length: u64,
}

impl View for TransactionLog {
    type V = Seq<Seq<char>>;

    /// The entries' texts, oldest first.
    closed spec fn view(&self) -> Seq<Seq<char>> {
        texts(self.items@)
    }
}

impl TransactionLog {
    /// `length` counts the entries.
    pub closed spec fn well_formed(&self) -> bool {
        self.length == self.items@.len()
    }

    /// An empty log.
    pub fn new_empty() -> (r: TransactionLog)
        ensures
            r.well_formed(),
            r@ == Seq::<Seq<char>>::empty(),
    {
        let r = TransactionLog { items: Vec::new(), length: 0 };
        assert(r@ =~= Seq::<Seq<char>>::empty());
        r
    }

    /// Appends an entry at the back.
    pub fn append(&mut self, value: String)
        requires
            old(self).well_formed(),
            old(self)@.len() < u64::MAX,
        ensures
            final(self).well_formed(),
            final(self)@ == old(self)@.push(value@),
    {
        self.items.push(value);
        self.length += 1;
        assert(self@ =~= old(self)@.push(value@));
    }

    /// Removes and returns the oldest entry; `None` when empty.
    pub fn pop(&mut self) -> (r: Option<String>)
        requires
            old(self).well_formed(),
        ensures
            final(self).well_formed(),
            old(self)@.len() == 0 ==> r is None && final(self)@ == old(self)@,
            old(self)@.len() > 0 ==> r is Some && r->Some_0@ == old(self)@[0] && final(self)@
                == old(self)@.drop_first(),
    {
        if self.items.len() == 0 {
            None
        } else {
            let head = self.items.remove(0);
            self.length -= 1;
            assert(self@ =~= old(self)@.drop_first());
            Some(head)
        }
    }

    /// A copy of the oldest entry; `None` when empty.
    pub fn peek(&self) -> (r: Option<String>)
        ensures
            self@.len() == 0 ==> r is None,
            self@.len() > 0 ==> r is Some && r->Some_0@ == self@[0],
    {
        if self.items.len() == 0 {
            None
        } else {
            Some(self.items[0].clone())
        }
    }

    /// Copies of all entries, oldest first.
    pub fn get_all(&self) -> (r: Vec<String>)
        ensures
            texts(r@) == self@,
    {
        clone_entries(&self.items)
    }
}

/// Entries appended at the back, walked from either end.
#[derive(Clone)]
pub struct BetterTransactionLog {
    items: Vec<String>,
    length: u64,
}

impl View for BetterTransactionLog {
    type V = Seq<Seq<char>>;

    /// The entries' texts, oldest first.
    closed spec fn view(&self) -> Seq<Seq<char>> {
        texts(self.items@)
    }
}

/// A cursor over a snapshot of a log's entries.
pub struct ListIterator {
    items: Vec<String>,
    current: Option<usize>,
}

impl View for ListIterator {
    type V = (Seq<Seq<char>>, Option<int>);

    /// The entries' texts and the position of the cursor, if it is on one.
    closed spec fn view(&self) -> (Seq<Seq<char>>, Option<int>) {
        (
            texts(self.items@),
            match self.current {
                Some(i) => Some(i as int),
                None => None,
            },
        )
    }
}

impl BetterTransactionLog {
    /// The entry count matches the entries.
    pub closed spec fn well_formed(&self) -> bool {
        self.length == self.items@.len()
    }

    /// An empty log.
    pub fn new() -> (r: BetterTransactionLog)
        ensures
            r.well_formed(),
            r@ == Seq::<Seq<char>>::empty(),
    {
        let r = BetterTransactionLog { items: Vec::new(), length: 0 };
        assert(r@ =~= Seq::<Seq<char>>::empty());
        r
    }

    /// Appends an entry at the back.
    pub fn append(&mut self, value: String)
        requires
            old(self).well_formed(),
            old(self)@.len() < u64::MAX,
        ensures
            final(self).well_formed(),
            final(self)@ == old(self)@.push(value@),
    {
        self.items.push(value);
        self.length += 1;
        assert(self@ =~= old(self)@.push(value@));
    }

    /// A cursor on the oldest entry.
    pub fn iter(&self) -> (r: ListIterator)
        requires
            self.well_formed(),
        ensures
            r.well_formed(),
            r@.0 == self@,
            r@.1 == if self@.len() == 0 {
                None::<int>
            } else {
                Some(0int)
            },
    {
        let start = if self.items.len() == 0 {
            None
        } else {
            Some(0)
        };
        ListIterator::new(clone_entries(&self.items), start)
    }

    /// A cursor on the newest entry.
    pub fn iter_back(&self) -> (r: ListIterator)
        requires
            self.well_formed(),
        ensures
            r.well_formed(),
            r@.0 == self@,
            r@.1 == if self@.len() == 0 {
                None::<int>
            } else {
                Some(self@.len() - 1)
            },
    {
        let n = self.items.len();
        let start = if n == 0 {
            None
        } else {
            Some(n - 1)
        };
        ListIterator::new(clone_entries(&self.items), start)
    }

    /// The number of entries.
    pub fn len(&self) -> (r: u64)
        requires
            self.well_formed(),
        ensures
            r == self@.len(),
    {
        self.length
    }
}

impl ListIterator {
    /// The cursor, if any, is on an entry.
    pub closed spec fn well_formed(&self) -> bool {
        match self.current {
            Some(i) => i < self.items@.len(),
            None => true,
        }
    }

    /// A cursor over `items` placed at `start_at`.
    pub fn new(items: Vec<String>, start_at: Option<usize>) -> (r: ListIterator)
        requires
            match start_at {
                Some(i) => i < items@.len(),
                None => true,
            },
        ensures
            r.well_formed(),
            r@.0 == texts(items@),
            r@.1 == match start_at {
                Some(i) => Some(i as int),
                None => None,
            },
    {
        ListIterator { items, current: start_at }
    }

    /// The entry under the cursor, then the cursor moves to the next newer
    /// one (off the end after the newest).
    pub fn next(&mut self) -> (r: Option<String>)
        requires
            old(self).well_formed(),
        ensures
            final(self).well_formed(),
            final(self)@.0 == old(self)@.0,
            match old(self)@.1 {
                None => r is None && final(self)@.1 is None,
                Some(i) => r is Some && r->Some_0@ == old(self)@.0[i] && final(self)@.1 == if i + 1
                    < old(self)@.0.len() {
                    Some(i + 1)
                } else {
                    None
                },
            },
    {
        match self.current {
            None => None,
            Some(i) => {
                let result = self.items[i].clone();
                let n = self.items.len();
                self.current = if i < n - 1 {
                    Some(i + 1)
                } else {
                    None
                };
                Some(result)
            },
        }
    }

    /// The entry under the cursor, then the cursor moves to the next older
    /// one (off the end after the oldest).
    pub fn next_back(&mut self) -> (r: Option<String>)
        requires
            old(self).well_formed(),
        ensures
            final(self).well_formed(),
            final(self)@.0 == old(self)@.0,
            match old(self)@.1 {
                None => r is None && final(self)@.1 is None,
                Some(i) => r is Some && r->Some_0@ == old(self)@.0[i] && final(self)@.1 == if i > 0 {
                    Some(i - 1)
                } else {
                    None
                },
            },
    {
        match self.current {
            None => None,
            Some(i) => {
                let result = self.items[i].clone();
                self.current = if i > 0 {
                    Some(i - 1)
                } else {
                    None
                };
                Some(result)
            },
        }
    }
}

} // verus!
