//! An append-only skip list of `(offset, command)` entries, for jumping to
//! a point in a log. Nodes live in a vector and link to each other by index;
//! every link points forward, to a node tall enough for its level.

use vstd::prelude::*;

verus! {

/// A link to a node, by its index in the list's node vector.
pub type Link = Option<usize>;

pub struct Node {
    pub next: Vec<Link>,
    pub offset: u64,
    pub command: String,
}

pub struct SkipList {
    pub head: Link,
    pub tails: Vec<Link>,
    pub max_level: usize,
    pub length: usize,
    pub nodes: Vec<Node>,
}

/// Relies on `rand::random::<bool>`: a coin toss; nothing is promised of it.
#[verifier::external_body]
fn toss() -> bool {
    rand::random::<bool>()
}

/// The height of node `i`.
pub open spec fn height(nodes: Seq<Node>, i: int) -> int {
    nodes[i].next@.len() as int
}

/// Whether `link`, followed at level `l`, leads to a node after `from` that
/// is tall enough for `l`.
pub open spec fn link_ok(nodes: Seq<Node>, link: Link, from: int, l: int) -> bool {
    match link {
        None => true,
        Some(j) => from < j < nodes.len() && height(nodes, j as int) > l,
    }
}

impl SkipList {
    /// The entries, in the order they were appended.
    pub open spec fn entries(&self) -> Seq<(u64, Seq<char>)> {
        self.nodes@.map_values(|n: Node| (n.offset, n.command@))
    }


    /// The list's shape: one tail per level, the head is the first node and
    /// as tall as the list, every link leads forward to a tall enough node.
    pub open spec fn well_formed(&self) -> bool {
        &&& 1 <= self.max_level < usize::MAX
        &&& self.tails@.len() == self.max_level
        &&& self.length == self.nodes@.len()
        &&& (self.nodes@.len() == 0 <==> self.head is None)
        &&& (self.nodes@.len() > 0 ==> self.head == Some(0usize) && height(self.nodes@, 0)
            == self.max_level)
        &&& forall|i: int| 0 <= i < self.nodes@.len() ==> 1 <= #[trigger] height(self.nodes@, i) <= self.max_level
        &&& forall|i: int, l: int|
            0 <= i < self.nodes@.len() && 0 <= l < height(self.nodes@, i) ==> link_ok(self.nodes@, 
                #[trigger] self.nodes@[i].next@[l],
                i,
                l,
            )
        &&& forall|l: int| 0 <= l < self.max_level ==> link_ok(self.nodes@, #[trigger] self.tails@[l], -1, l)
        &&& forall|i: int|
            0 <= i < self.nodes@.len() ==> (#[trigger] self.nodes@[i].next@[0]) == if i + 1
                < self.nodes@.len() {
                Some((i + 1) as usize)
            } else {
                None
            }
        &&& self.tails@[0] == if self.nodes@.len() > 0 {
            Some((self.nodes@.len() - 1) as usize)
        } else {
            None
        }
    }

    /// The offsets increase from each entry to the next.
    pub open spec fn offsets_increase(&self) -> bool {
        forall|i: int, j: int|
            0 <= i < j < self.nodes@.len() ==> (#[trigger] self.nodes@[i].offset) < (#[trigger] self.nodes@[j].offset)
    }

    /// A random height: 1, then one more for each head tossed, up to
    /// `max_level`.
    pub fn get_level(&self) -> (r: usize)
        requires
            self.max_level >= 1,
        ensures
            1 <= r <= self.max_level,
    {
        let mut level: usize = 1;
        while toss() && level < self.max_level
            invariant
                1 <= level <= self.max_level,
            decreases self.max_level - level,
        {
            level += 1;
        }
        level
    }

    /// Points node `at`'s link at level `l` to node `to`.
    fn set_link(&mut self, at: usize, l: usize, to: usize)
        requires
            at < old(self).nodes@.len(),
            l < height(old(self).nodes@, at as int),
        ensures
            final(self).nodes@.len() == old(self).nodes@.len(),
            forall|i: int|
                0 <= i < final(self).nodes@.len() && i != at ==> #[trigger] final(self).nodes@[i]
                    == old(self).nodes@[i],
            final(self).nodes@[at as int].next@ == old(self).nodes@[at as int].next@.update(
                l as int,
                Some(to),
            ),
            final(self).nodes@[at as int].offset == old(self).nodes@[at as int].offset,
            final(self).nodes@[at as int].command@ == old(self).nodes@[at as int].command@,
            final(self).entries() == old(self).entries(),
            final(self).head == old(self).head,
            final(self).tails == old(self).tails,
            final(self).max_level == old(self).max_level,
            final(self).length == old(self).length,
    {
        let n = self.nodes[at].next.len();
        let mut next: Vec<Link> = Vec::new();
        let mut i: usize = 0;
        while i < n
            invariant
                at < self.nodes@.len(),
                *self == *old(self),
                n == self.nodes@[at as int].next@.len(),
                i <= n,
                next@ == self.nodes@[at as int].next@.take(i as int),
            decreases n - i,
        {
            next.push(self.nodes[at].next[i]);
            assert(self.nodes@[at as int].next@.take(i + 1) =~= self.nodes@[at as int].next@.take(
                i as int,
            ).push(self.nodes@[at as int].next@[i as int]));
            i = i + 1;
        }
        next.set(l, Some(to));
        let node = Node {
            next,
            offset: self.nodes[at].offset,
            command: self.nodes[at].command.clone(),
        };
        self.nodes.set(at, node);
        assert(self.entries() =~= old(self).entries());
    }

    /// Appends an entry. The first node is as tall as the list; later ones
    /// get a random height.
    pub fn append(&mut self, offset: u64, command: String)
        requires
            old(self).well_formed(),
        ensures
            final(self).well_formed(),
            final(self).entries() == old(self).entries().push((offset, command@)),
            final(self).max_level == old(self).max_level,
    {
        let level = 1 + if self.head.is_none() {
            self.max_level
        } else {
            self.get_level()
        };
        let level = if level < self.max_level {
            level
        } else {
            self.max_level
        };

        let mut next: Vec<Link> = Vec::new();
        let mut i: usize = 0;
        while i < level
            invariant
                i <= level,
                next@.len() == i,
                forall|k: int| 0 <= k < i ==> (#[trigger] next@[k]) is None,
            decreases level - i,
        {
            next.push(None);
            i = i + 1;
        }
        let k = self.nodes.len();
        self.nodes.push(Node { next, offset, command });
        assert(self.entries() =~= old(self).entries().push((offset, command@)));
        assert forall|j: int| 0 <= j < k implies #[trigger] self.nodes@[j] == old(self).nodes@[j] by {}
        assert forall|j: int| 0 <= j <= k implies (#[trigger] self.nodes@[j].next@[0]) == if j + 1 < k {
            Some((j + 1) as usize)
        } else {
            None
        } by {
            if j < k {
                assert(self.nodes@[j] == old(self).nodes@[j]);
            }
        }
        assert forall|j: int, l: int|
            0 <= j <= k && 0 <= l < height(self.nodes@, j) implies link_ok(self.nodes@, 
            #[trigger] self.nodes@[j].next@[l],
            j,
            l,
        ) by {
            if j < k {
                assert(self.nodes@[j] == old(self).nodes@[j]);
                assert(link_ok(old(self).nodes@, old(self).nodes@[j].next@[l], j, l));
            }
        }

        let mut i: usize = 0;
        while i < level
            invariant
                1 <= level <= self.max_level,
                old(self).well_formed(),
                self.max_level == old(self).max_level,
                self.length == old(self).length,
                self.head == old(self).head,
                self.tails@.len() == self.max_level,
                k == old(self).nodes@.len(),
                self.nodes@.len() == k + 1,
                height(self.nodes@, k as int) == level,
                self.entries() == old(self).entries().push((offset, command@)),
                i <= level,
                forall|j: int| 0 <= j <= k ==> #[trigger] height(self.nodes@, j) == if j < k {
                    height(old(self).nodes@, j)
                } else {
                    level as int
                },
                forall|j: int, l: int|
                    0 <= j <= k && 0 <= l < height(self.nodes@, j) ==> link_ok(self.nodes@, 
                        #[trigger] self.nodes@[j].next@[l],
                        j,
                        l,
                    ),
                forall|l: int| 0 <= l < i ==> #[trigger] self.tails@[l] == Some(k),
                forall|j: int|
                    0 <= j <= k ==> (#[trigger] self.nodes@[j].next@[0]) == if j + 1 < k || (j + 1
                        == k && i > 0) {
                        Some((j + 1) as usize)
                    } else {
                        None
                    },
                forall|l: int| i <= l < self.max_level ==> #[trigger] self.tails@[l] == old(self).tails@[l],
            decreases level - i,
        {
            match self.tails[i] {
                Some(old_tail) => {
                    assert(link_ok(old(self).nodes@, old(self).tails@[i as int], -1, i as int));
                    let ghost before = *self;
                    self.set_link(old_tail, i, k);
                    assert forall|j: int| 0 <= j <= k implies #[trigger] height(self.nodes@, j)
                        == if j < k {
                        height(old(self).nodes@, j)
                    } else {
                        level as int
                    } by {
                        assert(height(before.nodes@, j) == if j < k {
                            height(old(self).nodes@, j)
                        } else {
                            level as int
                        });
                        if j != old_tail {
                            assert(self.nodes@[j] == before.nodes@[j]);
                        }
                    }
                    assert forall|j: int, l: int|
                        0 <= j <= k && 0 <= l < height(self.nodes@, j) implies link_ok(self.nodes@, 
                        #[trigger] self.nodes@[j].next@[l],
                        j,
                        l,
                    ) by {
                        assert(height(before.nodes@, j) == if j < k {
                            height(old(self).nodes@, j)
                        } else {
                            level as int
                        });
                        if j != old_tail {
                            assert(self.nodes@[j] == before.nodes@[j]);
                            assert(link_ok(before.nodes@, before.nodes@[j].next@[l], j, l));
                        } else if l != i {
                            assert(self.nodes@[j].next@[l] == before.nodes@[j].next@[l]);
                            assert(link_ok(before.nodes@, before.nodes@[j].next@[l], j, l));
                        }
                    }
                },
                None => {},
            }
            self.tails.set(i, Some(k));
            i = i + 1;
        }
        assert forall|l: int| 0 <= l < self.max_level implies link_ok(self.nodes@, 
            #[trigger] self.tails@[l],
            -1,
            l,
        ) by {
            if l >= level {
                assert(link_ok(old(self).nodes@, old(self).tails@[l], -1, l));
                if let Some(j) = old(self).tails@[l] {
                    assert(height(self.nodes@, j as int) == height(old(self).nodes@, j as int));
                }
            }
        }
        assert forall|j: int| 0 <= j < self.nodes@.len() implies 1 <= #[trigger] height(self.nodes@, j)
            <= self.max_level by {
            if j < k {
                assert(height(old(self).nodes@, j) == height(self.nodes@, j));
            }
        }
        assert(k > 0 ==> height(self.nodes@, 0) == height(old(self).nodes@, 0));

        if self.head.is_none() {
            self.head = Some(k);
        }
        self.length = self.nodes.len();
    }

    /// Searches for the entry with `offset`, from the head down the levels.
    /// An entry it returns has that offset; without such an entry it
    /// returns `None`; and when offsets were appended in increasing order,
    /// it finds the entry that has the offset.
    pub fn find(&self, offset: u64) -> (r: Option<String>)
        requires
            self.well_formed(),
        ensures
            r matches Some(c) ==> exists|i: int|
                0 <= i < self.entries().len() && #[trigger] self.entries()[i] == (offset, c@),
            (forall|i: int| 0 <= i < self.entries().len() ==> #[trigger] self.entries()[i].0 != offset)
                ==> r is None,
            self.offsets_increase() ==> forall|i: int|
                0 <= i < self.entries().len() && #[trigger] self.entries()[i].0 == offset ==> r is Some
                    && r->Some_0@ == self.entries()[i].1,
    {
        let ghost present = exists|i: int| 0 <= i < self.nodes@.len() && #[trigger] self.nodes@[i].offset == offset;
        let ghost t: int = if present {
            choose|i: int| 0 <= i < self.nodes@.len() && #[trigger] self.nodes@[i].offset == offset
        } else {
            0
        };
        let ghost sure = present && self.offsets_increase();
        match self.head {
            Some(head) => {
                let mut start_level = self.max_level - 1;
                loop
                    invariant
                        self.well_formed(),
                        self.head == Some(head),
                        head == 0,
                        start_level < self.max_level,
                    decreases start_level,
                {
                    if self.nodes[head].next[start_level].is_none() || start_level == 0 {
                        break;
                    }
                    start_level -= 1;
                }

                assert(height(self.nodes@, 0) == self.max_level);
                let mut n = head;
                let mut level = start_level + 1;
                while level > 0
                    invariant
                        self.well_formed(),
                        n < self.nodes@.len(),
                        level <= start_level + 1,
                        start_level < self.max_level,
                        height(self.nodes@, n as int) > start_level || height(self.nodes@, n as int)
                            >= level,
                        sure ==> 0 <= t < self.nodes@.len() && self.nodes@[t].offset == offset && n
                            <= t,
                        sure ==> self.offsets_increase(),
                        sure == (present && self.offsets_increase()),
                        level == 0 ==> !sure,
                    decreases level,
                {
                    level -= 1;
                    assert(height(self.nodes@, n as int) > level);
                    loop
                        invariant
                            self.well_formed(),
                            n < self.nodes@.len(),
                            height(self.nodes@, n as int) > level,
                            sure ==> 0 <= t < self.nodes@.len() && self.nodes@[t].offset == offset
                                && n <= t,
                            sure ==> self.offsets_increase(),
                        ensures
                            self.well_formed(),
                            n < self.nodes@.len(),
                            height(self.nodes@, n as int) > level,
                            sure ==> 0 <= t < self.nodes@.len() && self.nodes@[t].offset == offset
                                && n <= t,
                            match self.nodes@[n as int].next@[level as int] {
                                Some(j) => j < self.nodes@.len() && self.nodes@[j as int].offset
                                    > offset,
                                None => true,
                            },
                        decreases self.nodes@.len() - n,
                    {
                        match self.nodes[n].next[level] {
                            Some(j) => {
                                assert(link_ok(
                                    self.nodes@,
                                    self.nodes@[n as int].next@[level as int],
                                    n as int,
                                    level as int,
                                ));
                                if self.nodes[j].offset <= offset {
                                    proof {
                                        if sure && j > t {
                                            assert(self.nodes@[t].offset < self.nodes@[j as int].offset);
                                        }
                                    }
                                    n = j;
                                } else {
                                    break;
                                }
                            },
                            None => {
                                break;
                            },
                        }
                    }
                    proof {
                        if sure && level == 0 && n < t {
                            assert(self.nodes@[n as int].next@[0] == Some((n + 1) as usize));
                            assert(self.nodes@[n + 1].offset <= self.nodes@[t].offset);
                        }
                    }
                    if self.nodes[n].offset == offset {
                        let c = self.nodes[n].command.clone();
                        assert(self.entries()[n as int] == (
                            self.nodes@[n as int].offset,
                            self.nodes@[n as int].command@,
                        ));
                        assert(self.entries()[n as int] == (offset, c@));
                        assert(self.entries()[n as int].0 == offset);
                        proof {
                            if self.offsets_increase() {
                                assert forall|i: int|
                                    0 <= i < self.entries().len() && #[trigger] self.entries()[i].0
                                        == offset implies i == n by {
                                    assert(self.entries()[i].0 == self.nodes@[i].offset);
                                    if i < n {
                                        assert(self.nodes@[i].offset < self.nodes@[n as int].offset);
                                    } else if i > n {
                                        assert(self.nodes@[n as int].offset < self.nodes@[i].offset);
                                    }
                                }
                            }
                        }
                        return Some(c);
                    }
                }
                proof {
                    assert forall|i: int|
                        0 <= i < self.entries().len() && #[trigger] self.entries()[i].0 == offset
                            implies !self.offsets_increase() by {
                        assert(self.nodes@[i].offset == offset);
                    }
                }
                None
            },
            None => None,
        }
    }
}

} // verus!
