//! An exact-match string-keyed table. Keys are walked one character per edge;
//! a node answers a lookup only if it was explicitly marked as the end of an
//! inserted key, so no prefix, extension or other non-exact variant of an
//! inserted key ever matches.
//!
//! The structure has no internal locking: a caller that shares a trie across
//! threads must serialize every insert and search externally.

use vstd::prelude::*;
use crate::strutil::chars_of;

verus! {

struct Node<T> {
    children: Vec<(char, Node<T>)>,
    is_end: bool,
    value: Option<T>,
}

/// An exact-match table from path strings to values.
pub struct Trie<T> {
    root: Node<T>,
}

impl<T> Node<T> {
    /// The first child labelled `c`, scanning the edge list in order.
    spec fn spec_child(cs: Seq<(char, Node<T>)>, c: char) -> Option<Node<T>>
        decreases cs.len(),
    {
        if cs.len() == 0 {
            None
        } else if cs[0].0 == c {
            Some(cs[0].1)
        } else {
            Self::spec_child(cs.drop_first(), c)
        }
    }

    /// The value stored exactly `k` edges below this node: present only when
    /// every character of `k` has an edge and the final node is marked.
    spec fn spec_get(self, k: Seq<char>) -> Option<T>
        decreases k.len(),
    {
        if k.len() == 0 {
            if self.is_end {
                self.value
            } else {
                None
            }
        } else {
            match Self::spec_child(self.children@, k[0]) {
                None => None,
                Some(child) => child.spec_get(k.drop_first()),
            }
        }
    }

    /// The first matching index determines the child the walk follows.
    proof fn lemma_child_at_index(cs: Seq<(char, Node<T>)>, c: char, j: int)
        requires
            0 <= j < cs.len(),
            cs[j].0 == c,
            forall|t: int| 0 <= t < j ==> cs[t].0 != c,
        ensures
            Self::spec_child(cs, c) == Some(cs[j].1),
        decreases j,
    {
        if j > 0 {
            Self::lemma_child_at_index(cs.drop_first(), c, j - 1);
        }
    }

    /// With no matching label there is no child to follow.
    proof fn lemma_child_none(cs: Seq<(char, Node<T>)>, c: char)
        requires
            forall|t: int| 0 <= t < cs.len() ==> cs[t].0 != c,
        ensures
            Self::spec_child(cs, c) is None,
        decreases cs.len(),
    {
        if cs.len() > 0 {
            Self::lemma_child_none(cs.drop_first(), c);
        }
    }

    /// Appending an edge changes the walk only for a label that had no edge.
    proof fn lemma_child_push(cs: Seq<(char, Node<T>)>, pair: (char, Node<T>), c: char)
        ensures
            Self::spec_child(cs.push(pair), c) == (if Self::spec_child(cs, c) is Some {
                Self::spec_child(cs, c)
            } else if pair.0 == c {
                Some(pair.1)
            } else {
                None
            }),
        decreases cs.len(),
    {
        if cs.len() == 0 {
            assert(cs.push(pair).drop_first() =~= cs);
        } else {
            assert(cs.push(pair).drop_first() =~= cs.drop_first().push(pair));
            Self::lemma_child_push(cs.drop_first(), pair, c);
        }
    }

    /// Finds the index of the first edge labelled `c`, if any.
    fn find_child_index(cs: &Vec<(char, Node<T>)>, c: char) -> (r: Option<usize>)
        ensures
            match r {
                Some(j) => {
                    &&& j < cs@.len()
                    &&& cs@[j as int].0 == c
                    &&& forall|t: int| 0 <= t < j ==> cs@[t].0 != c
                },
                None => forall|t: int| 0 <= t < cs@.len() ==> cs@[t].0 != c,
            },
    {
        let mut j: usize = 0;
        while j < cs.len()
            invariant
                j <= cs@.len(),
                forall|t: int| 0 <= t < j ==> cs@[t].0 != c,
            decreases cs@.len() - j,
        {
            if cs[j].0 == c {
                return Some(j);
            }
            j = j + 1;
        }
        None
    }

    /// A fresh chain of nodes holding `value` exactly at the key suffix
    /// `chars[i..]`, and nothing anywhere else.
    fn make_chain(chars: &Vec<char>, i: usize, value: T) -> (n: Node<T>)
        requires
            i <= chars@.len(),
        ensures
            forall|k: Seq<char>| n.spec_get(k) == (if k == chars@.skip(i as int) {
                Some(value)
            } else {
                None::<T>
            }),
        decreases chars@.len() - i,
    {
        if i == chars.len() {
            let n = Node { children: Vec::new(), is_end: true, value: Some(value) };
            assert forall|k: Seq<char>|
                n.spec_get(k) == (if k == chars@.skip(i as int) { Some(value) } else { None::<T> })
            by {
                if k.len() == 0 {
                    assert(k =~= chars@.skip(i as int));
                } else {
                    assert(k != chars@.skip(i as int));
                }
            }
            n
        } else {
            let tail = Self::make_chain(chars, i + 1, value);
            let c = chars[i];
            let mut cs: Vec<(char, Node<T>)> = Vec::new();
            cs.push((c, tail));
            let n = Node { children: cs, is_end: false, value: None };
            assert forall|k: Seq<char>|
                n.spec_get(k) == (if k == chars@.skip(i as int) { Some(value) } else { None::<T> })
            by {
                let suffix = chars@.skip(i as int);
                assert(suffix.len() > 0);
                assert(suffix[0] == chars@[i as int]);
                assert(suffix.drop_first() =~= chars@.skip(i as int + 1));
                assert(n.children@[0] == (c, tail));
                if k.len() == 0 {
                    assert(n.spec_get(k) is None);
                    assert(k != suffix);
                } else if k[0] == c {
                    Self::lemma_child_at_index(n.children@, c, 0);
                    assert(Self::spec_child(n.children@, k[0]) == Some(tail));
                    assert(n.spec_get(k) == tail.spec_get(k.drop_first()));
                    if k == suffix {
                        assert(k.drop_first() == chars@.skip(i as int + 1));
                        assert(tail.spec_get(k.drop_first()) == Some(value));
                        assert(n.spec_get(k) == Some(value));
                    } else {
                        assert(k.drop_first() != chars@.skip(i as int + 1)) by {
                            if k.drop_first() == chars@.skip(i as int + 1) {
                                crate::strutil::lemma_seq_head_tail_eq(k, suffix);
                            }
                        }
                        assert(tail.spec_get(k.drop_first()) is None);
                        assert(n.spec_get(k) is None);
                    }
                } else {
                    Self::lemma_child_none(n.children@, k[0]);
                    assert(Self::spec_child(n.children@, k[0]) is None);
                    assert(n.spec_get(k) is None);
                    assert(k != suffix);
                }
            }
            n
        }
    }

    /// Stores `value` at the key suffix `chars[i..]` below this node; every
    /// other key below the node keeps its old answer.
    fn insert_rec(node: &mut Node<T>, chars: &Vec<char>, i: usize, value: T)
        requires
            i <= chars@.len(),
        ensures
            forall|k: Seq<char>| final(node).spec_get(k) == (if k == chars@.skip(i as int) {
                Some(value)
            } else {
                old(node).spec_get(k)
            }),
        decreases chars@.len() - i,
    {
        if i == chars.len() {
            node.is_end = true;
            node.value = Some(value);
            assert forall|k: Seq<char>|
                node.spec_get(k) == (if k == chars@.skip(i as int) {
                    Some(value)
                } else {
                    old(node).spec_get(k)
                })
            by {
                if k.len() == 0 {
                    assert(k =~= chars@.skip(i as int));
                } else {
                    assert(k != chars@.skip(i as int));
                }
            }
        } else {
            let c = chars[i];
            let ghost pre = *node;
            let ghost suffix = chars@.skip(i as int);
            proof {
                assert(suffix.len() > 0);
                assert(suffix[0] == c);
                assert(suffix.drop_first() =~= chars@.skip(i as int + 1));
            }
            match Self::find_child_index(&node.children, c) {
                Some(j) => {
                    let (label, mut child) = node.children.remove(j);
                    let ghost pre_child = child;
                    Self::insert_rec(&mut child, chars, i + 1, value);
                    node.children.insert(j, (label, child));
                    proof {
                        assert(node.children@ =~= pre.children@.update(j as int, (c, child)));
                        Self::lemma_child_at_index(pre.children@, c, j as int);
                        Self::lemma_child_at_index(node.children@, c, j as int);
                    }
                    assert forall|k: Seq<char>|
                        node.spec_get(k) == (if k == suffix {
                            Some(value)
                        } else {
                            pre.spec_get(k)
                        })
                    by {
                        if k.len() == 0 {
                            assert(k != suffix);
                            assert(node.spec_get(k) == pre.spec_get(k));
                        } else if k[0] == c {
                            assert(Self::spec_child(node.children@, c) == Some(child));
                            assert(Self::spec_child(pre.children@, c) == Some(pre_child));
                            assert(node.spec_get(k) == child.spec_get(k.drop_first()));
                            assert(pre.spec_get(k) == pre_child.spec_get(k.drop_first()));
                            if k == suffix {
                                assert(k.drop_first() == chars@.skip(i as int + 1));
                                assert(child.spec_get(k.drop_first()) == Some(value));
                            } else {
                                assert(k.drop_first() != chars@.skip(i as int + 1)) by {
                                    if k.drop_first() == chars@.skip(i as int + 1) {
                                        crate::strutil::lemma_seq_head_tail_eq(k, suffix);
                                    }
                                }
                                assert(child.spec_get(k.drop_first()) == pre_child.spec_get(
                                    k.drop_first(),
                                ));
                            }
                        } else {
                            assert(k != suffix);
                            match Self::find_first_ghost(pre.children@, k[0]) {
                                Some(j2) => {
                                    Self::lemma_find_first_ghost(pre.children@, k[0]);
                                    assert(j2 != j);
                                    assert(node.children@[j2] == pre.children@[j2]);
                                    Self::lemma_child_at_index(pre.children@, k[0], j2);
                                    Self::lemma_child_at_index(node.children@, k[0], j2);
                                },
                                None => {
                                    Self::lemma_find_first_ghost(pre.children@, k[0]);
                                    Self::lemma_child_none(pre.children@, k[0]);
                                    Self::lemma_child_none(node.children@, k[0]);
                                },
                            }
                            assert(Self::spec_child(node.children@, k[0]) == Self::spec_child(
                                pre.children@,
                                k[0],
                            ));
                            assert(node.spec_get(k) == pre.spec_get(k));
                        }
                    }
                },
                None => {
                    let tail = Self::make_chain(chars, i + 1, value);
                    node.children.push((c, tail));
                    assert forall|k: Seq<char>|
                        node.spec_get(k) == (if k == suffix {
                            Some(value)
                        } else {
                            pre.spec_get(k)
                        })
                    by {
                        if k.len() == 0 {
                            assert(k != suffix);
                            assert(node.spec_get(k) == pre.spec_get(k));
                        } else {
                            Self::lemma_child_push(pre.children@, (c, tail), k[0]);
                            Self::lemma_child_none(pre.children@, c);
                            if k[0] == c {
                                assert(Self::spec_child(pre.children@, c) is None);
                                assert(pre.spec_get(k) is None);
                                assert(Self::spec_child(node.children@, c) == Some(tail));
                                assert(node.spec_get(k) == tail.spec_get(k.drop_first()));
                                if k == suffix {
                                    assert(k.drop_first() == chars@.skip(i as int + 1));
                                    assert(tail.spec_get(k.drop_first()) == Some(value));
                                } else {
                                    assert(k.drop_first() != chars@.skip(i as int + 1)) by {
                                        if k.drop_first() == chars@.skip(i as int + 1) {
                                            crate::strutil::lemma_seq_head_tail_eq(k, suffix);
                                        }
                                    }
                                    assert(tail.spec_get(k.drop_first()) is None);
                                }
                            } else {
                                assert(k != suffix);
                                assert(Self::spec_child(node.children@, k[0]) == Self::spec_child(
                                    pre.children@,
                                    k[0],
                                ));
                                assert(node.spec_get(k) == pre.spec_get(k));
                            }
                        }
                    }
                },
            }
        }
    }

    /// The first index carrying label `c`, as a ghost witness.
    spec fn find_first_ghost(cs: Seq<(char, Node<T>)>, c: char) -> Option<int>
        decreases cs.len(),
    {
        if cs.len() == 0 {
            None
        } else if cs[0].0 == c {
            Some(0)
        } else {
            match Self::find_first_ghost(cs.drop_first(), c) {
                None => None,
                Some(j) => Some(j + 1),
            }
        }
    }

    /// `find_first_ghost` really is the first matching index.
    proof fn lemma_find_first_ghost(cs: Seq<(char, Node<T>)>, c: char)
        ensures
            match Self::find_first_ghost(cs, c) {
                Some(j) => 0 <= j < cs.len() && cs[j].0 == c && (forall|t: int|
                    0 <= t < j ==> cs[t].0 != c),
                None => forall|t: int| 0 <= t < cs.len() ==> cs[t].0 != c,
            },
        decreases cs.len(),
    {
        if cs.len() > 0 && cs[0].0 != c {
            Self::lemma_find_first_ghost(cs.drop_first(), c);
            match Self::find_first_ghost(cs.drop_first(), c) {
                Some(j) => {
                    assert(cs.drop_first()[j] == cs[j + 1]);
                    assert forall|t: int| 0 <= t < j + 1 implies cs[t].0 != c by {
                        if t > 0 {
                            assert(cs.drop_first()[t - 1] == cs[t]);
                        }
                    }
                },
                None => {
                    assert forall|t: int| 0 <= t < cs.len() implies cs[t].0 != c by {
                        if t > 0 {
                            assert(cs.drop_first()[t - 1] == cs[t]);
                        }
                    }
                },
            }
        }
    }
}

impl<T> Trie<T> {
    /// The value stored for key `k`: present exactly when `k` was inserted
    /// verbatim, character for character.
    pub closed spec fn spec_get(self, k: Seq<char>) -> Option<T> {
        self.root.spec_get(k)
    }

    /// An empty table: no key has a value.
    pub fn new() -> (t: Trie<T>)
        ensures
            t@ == Map::<Seq<char>, T>::empty(),
    {
        let t = Trie { root: Node { children: Vec::new(), is_end: false, value: None } };
        proof {
            assert forall|k: Seq<char>| t.spec_get(k) is None by {
                if k.len() > 0 {
                    assert(Node::<T>::spec_child(t.root.children@, k[0]) is None);
                }
            }
            assert(t@ =~= Map::<Seq<char>, T>::empty());
        }
        t
    }

    /// Stores `value` under exactly the key `word`, creating one node per
    /// character as needed and marking the final node; an existing value for
    /// `word` is overwritten, and no other key's answer changes.
    pub fn insert(&mut self, word: &str, value: T)
        ensures
            final(self)@ == old(self)@.insert(word@, value),
    {
        let chars = chars_of(word);
        Node::<T>::insert_rec(&mut self.root, &chars, 0, value);
        proof {
            assert(chars@.skip(0) =~= word@);
            assert(self@ =~= old(self)@.insert(word@, value));
        }
    }

    /// Walks `word` edge by edge; answers only an exact, fully marked match.
    /// A key that was never inserted verbatim — in particular any strict
    /// prefix or extension of an inserted key — returns no value.
    pub fn search(&self, word: &str) -> (r: Option<&T>)
        ensures
            match r {
                Some(v) => self@.contains_key(word@) && *v == self@[word@],
                None => !self@.contains_key(word@),
            },
    {
        let chars = chars_of(word);
        let mut node: &Node<T> = &self.root;
        let mut i: usize = 0;
        proof {
            assert(chars@.skip(0) =~= word@);
        }
        while i < chars.len()
            invariant
                i <= chars@.len(),
                chars@ == word@,
                node.spec_get(chars@.skip(i as int)) == self.spec_get(word@),
            decreases chars@.len() - i,
        {
            let ghost suffix = chars@.skip(i as int);
            proof {
                assert(suffix.len() > 0);
                assert(suffix[0] == chars@[i as int]);
                assert(suffix.drop_first() =~= chars@.skip(i as int + 1));
            }
            match Node::<T>::find_child(&node.children, chars[i]) {
                Some(child) => {
                    node = child;
                },
                None => {
                    return None;
                },
            }
            i = i + 1;
        }
        proof {
            assert(chars@.skip(i as int) =~= Seq::<char>::empty());
        }
        if node.is_end {
            match &node.value {
                Some(v) => Some(v),
                None => None,
            }
        } else {
            None
        }
    }

    /// Removes and returns the value stored under exactly `word`, if any;
    /// no other key's answer changes.
    pub fn take(&mut self, word: &str) -> (r: Option<T>)
        ensures
            final(self)@ == old(self)@.remove(word@),
            match r {
                Some(v) => old(self)@.contains_key(word@) && v == old(self)@[word@],
                None => !old(self)@.contains_key(word@),
            },
    {
        let chars = chars_of(word);
        let r = Node::<T>::take_rec(&mut self.root, &chars, 0);
        proof {
            assert(chars@.skip(0) =~= word@);
            assert(self@ =~= old(self)@.remove(word@));
        }
        r
    }
}

impl<T> Node<T> {
    /// Follows the first edge labelled `c`, if there is one.
    fn find_child<'a>(cs: &'a Vec<(char, Node<T>)>, c: char) -> (r: Option<&'a Node<T>>)
        ensures
            match r {
                Some(n) => Self::spec_child(cs@, c) == Some(*n),
                None => Self::spec_child(cs@, c) is None,
            },
    {
        match Self::find_child_index(cs, c) {
            Some(j) => {
                proof {
                    Self::lemma_child_at_index(cs@, c, j as int);
                }
                Some(&cs[j].1)
            },
            None => {
                proof {
                    Self::lemma_child_none(cs@, c);
                }
                None
            },
        }
    }

    /// Unmarks the node at the key suffix `chars[i..]` below this node and
    /// hands back what it held; every other key keeps its old answer.
    fn take_rec(node: &mut Node<T>, chars: &Vec<char>, i: usize) -> (r: Option<T>)
        requires
            i <= chars@.len(),
        ensures
            forall|k: Seq<char>| final(node).spec_get(k) == (if k == chars@.skip(i as int) {
                None::<T>
            } else {
                old(node).spec_get(k)
            }),
            r == old(node).spec_get(chars@.skip(i as int)),
        decreases chars@.len() - i,
    {
        if i == chars.len() {
            let r = if node.is_end { node.value.take() } else { None };
            node.is_end = false;
            assert forall|k: Seq<char>|
                node.spec_get(k) == (if k == chars@.skip(i as int) {
                    None::<T>
                } else {
                    old(node).spec_get(k)
                })
            by {
                if k.len() == 0 {
                    assert(k =~= chars@.skip(i as int));
                } else {
                    assert(k != chars@.skip(i as int));
                }
            }
            r
        } else {
            let c = chars[i];
            let ghost pre = *node;
            let ghost suffix = chars@.skip(i as int);
            proof {
                assert(suffix.len() > 0);
                assert(suffix[0] == c);
                assert(suffix.drop_first() =~= chars@.skip(i as int + 1));
            }
            match Self::find_child_index(&node.children, c) {
                Some(j) => {
                    let (label, mut child) = node.children.remove(j);
                    let ghost pre_child = child;
                    let r = Self::take_rec(&mut child, chars, i + 1);
                    node.children.insert(j, (label, child));
                    proof {
                        assert(node.children@ =~= pre.children@.update(j as int, (c, child)));
                        Self::lemma_child_at_index(pre.children@, c, j as int);
                        Self::lemma_child_at_index(node.children@, c, j as int);
                        assert(pre.spec_get(suffix) == pre_child.spec_get(suffix.drop_first()));
                    }
                    assert forall|k: Seq<char>|
                        node.spec_get(k) == (if k == suffix {
                            None::<T>
                        } else {
                            pre.spec_get(k)
                        })
                    by {
                        if k.len() == 0 {
                            assert(k != suffix);
                            assert(node.spec_get(k) == pre.spec_get(k));
                        } else if k[0] == c {
                            assert(Self::spec_child(node.children@, c) == Some(child));
                            assert(Self::spec_child(pre.children@, c) == Some(pre_child));
                            assert(node.spec_get(k) == child.spec_get(k.drop_first()));
                            assert(pre.spec_get(k) == pre_child.spec_get(k.drop_first()));
                            if k == suffix {
                                assert(k.drop_first() == chars@.skip(i as int + 1));
                                assert(child.spec_get(k.drop_first()) is None);
                            } else {
                                assert(k.drop_first() != chars@.skip(i as int + 1)) by {
                                    if k.drop_first() == chars@.skip(i as int + 1) {
                                        crate::strutil::lemma_seq_head_tail_eq(k, suffix);
                                    }
                                }
                                assert(child.spec_get(k.drop_first()) == pre_child.spec_get(
                                    k.drop_first(),
                                ));
                            }
                        } else {
                            assert(k != suffix);
                            match Self::find_first_ghost(pre.children@, k[0]) {
                                Some(j2) => {
                                    Self::lemma_find_first_ghost(pre.children@, k[0]);
                                    assert(j2 != j);
                                    assert(node.children@[j2] == pre.children@[j2]);
                                    Self::lemma_child_at_index(pre.children@, k[0], j2);
                                    Self::lemma_child_at_index(node.children@, k[0], j2);
                                },
                                None => {
                                    Self::lemma_find_first_ghost(pre.children@, k[0]);
                                    Self::lemma_child_none(pre.children@, k[0]);
                                    Self::lemma_child_none(node.children@, k[0]);
                                },
                            }
                            assert(Self::spec_child(node.children@, k[0]) == Self::spec_child(
                                pre.children@,
                                k[0],
                            ));
                            assert(node.spec_get(k) == pre.spec_get(k));
                        }
                    }
                    r
                },
                None => {
                    proof {
                        Self::lemma_child_none(pre.children@, c);
                        assert(Self::spec_child(pre.children@, c) is None);
                        assert(pre.spec_get(suffix) is None);
                    }
                    assert forall|k: Seq<char>|
                        node.spec_get(k) == (if k == suffix {
                            None::<T>
                        } else {
                            pre.spec_get(k)
                        })
                    by {
                        assert(*node == pre);
                        if k == suffix {
                            assert(node.spec_get(k) is None);
                        }
                    }
                    None
                },
            }
        }
    }
}

/// The table that a sequence of insertions, applied in order to an empty
/// trie, builds up.
pub open spec fn spec_table_of<T>(entries: Seq<(Seq<char>, T)>) -> Map<Seq<char>, T>
    decreases entries.len(),
{
    if entries.len() == 0 {
        Map::empty()
    } else {
        spec_table_of(entries.drop_last()).insert(entries.last().0, entries.last().1)
    }
}

/// The value of the last insertion whose key is exactly `probe`, if any
/// insertion used that key.
pub open spec fn spec_last_value_for<T>(entries: Seq<(Seq<char>, T)>, probe: Seq<char>) -> Option<
    T,
>
    decreases entries.len(),
{
    if entries.len() == 0 {
        None
    } else if entries.last().0 == probe {
        Some(entries.last().1)
    } else {
        spec_last_value_for(entries.drop_last(), probe)
    }
}

/// A built-up table holds a key exactly when some insertion used that key
/// verbatim, and then maps it to the value of the last such insertion.
pub proof fn lemma_table_of_last<T>(entries: Seq<(Seq<char>, T)>, probe: Seq<char>)
    ensures
        spec_table_of(entries).contains_key(probe) == (spec_last_value_for(entries, probe)
            is Some),
        spec_table_of(entries).contains_key(probe) ==> spec_table_of(entries)[probe]
            == spec_last_value_for(entries, probe)->Some_0,
    decreases entries.len(),
{
    if entries.len() > 0 {
        lemma_table_of_last(entries.drop_last(), probe);
    }
}

/// A trie built by `Trie::new` and one `insert` per entry, in order — so
/// that its view is the entries' table — answers searches exactly: a probe
/// some insertion used verbatim resolves to the value of the last such
/// insertion, and any other probe — in particular a strict prefix, a strict
/// extension, a suffix, or any other non-exact variant of an inserted key —
/// resolves to nothing.
pub proof fn lemma_built_trie_exact<T>(t: Trie<T>, entries: Seq<(Seq<char>, T)>, probe: Seq<char>)
    requires
        t@ == spec_table_of(entries),
    ensures
        t@.contains_key(probe) == (spec_last_value_for(entries, probe) is Some),
        spec_last_value_for(entries, probe) is Some ==> t@[probe] == spec_last_value_for(
            entries,
            probe,
        )->Some_0,
        spec_last_value_for(entries, probe) is None ==> t.spec_get(probe) is None,
{
    lemma_table_of_last(entries, probe);
    assert(t@.contains_key(probe) == (t.spec_get(probe) is Some));
}

/// Search never matches a key that is not in the table verbatim. Inserting
/// a key makes exactly that key searchable: any probe that differs from it —
/// in particular a strict prefix of it, a strict extension of it, or any
/// other non-exact variant — and was not searchable before is still not
/// searchable after.
pub proof fn lemma_no_inexact_match<T>(
    pre: Trie<T>,
    post: Trie<T>,
    key: Seq<char>,
    value: T,
    probe: Seq<char>,
)
    requires
        post@ == pre@.insert(key, value),
        probe != key,
        !pre@.contains_key(probe),
    ensures
        !post@.contains_key(probe),
        post.spec_get(probe) is None,
{
    assert(!post@.contains_key(probe));
    assert(post@.contains_key(probe) == (post.spec_get(probe) is Some));
}

impl<T> View for Trie<T> {
    type V = Map<Seq<char>, T>;

    /// The table a trie stands for: the map of exactly the keys that were
    /// inserted verbatim.
    open spec fn view(&self) -> Map<Seq<char>, T> {
        Map::new(|k: Seq<char>| self.spec_get(k) is Some, |k: Seq<char>| self.spec_get(k)->Some_0)
    }
}

} // verus!
