use crate::text::{chars_of, find, first_index, lemma_first_index};
use vstd::prelude::*;
use vstd::string::StrSliceExecFns;
use vstd::string::StringExecFns;

verus! {

/// A path cut at its first `c`: what stands before it and what stands after
/// it. `None` where `c` does not occur.
pub open spec fn split_once(path: Seq<char>, c: char) -> Option<(Seq<char>, Seq<char>)> {
    match first_index(path, c) {
        Some(i) => Some((path.take(i), path.skip(i + 1))),
        None => None,
    }
}

/// Both parts of a cut path are shorter than the path.
pub proof fn lemma_split_once_shorter(path: Seq<char>, c: char)
    ensures
        match split_once(path, c) {
            Some((head, tail)) => head.len() + 1 + tail.len() == path.len() && path == head.push(c)
                + tail,
            None => true,
        },
{
    lemma_first_index(path, c);
    match first_index(path, c) {
        Some(i) => {
            assert(path =~= path.take(i).push(c) + path.skip(i + 1));
        },
        None => {},
    }
}

/// Cuts `path` at its first `c`.
pub fn cut<'a>(path: &'a str, c: char) -> (r: Option<(&'a str, &'a str)>)
    ensures
        match r {
            Some((head, tail)) => split_once(path@, c) == Some((head@, tail@)),
            None => split_once(path@, c) is None,
        },
{
    let chars = chars_of(path);
    match find(&chars, c) {
        Some(i) => {
            let head = path.substring_char(0, i);
            let tail = path.substring_char(i + 1, chars.len());
            assert(path@.take(i as int) =~= path@.subrange(0, i as int));
            assert(path@.skip(i + 1) =~= path@.subrange(i + 1, path@.len() as int));
            Some((head, tail))
        },
        None => None,
    }
}

/// A routing tree as contracts see it: the segment that a node stands for,
/// the handler that it holds, and its children in the order of insertion.
pub struct Trie<H> {
    pub key: Seq<char>,
    pub handler: Option<H>,
    pub nodes: Seq<Trie<H>>,
}

/// The position of the first tree among `nodes` that stands for `key`.
pub open spec fn find_child<H>(nodes: Seq<Trie<H>>, key: Seq<char>) -> Option<int>
    decreases nodes.len(),
{
    if nodes.len() == 0 {
        None
    } else if nodes[0].key == key {
        Some(0)
    } else {
        match find_child(nodes.drop_first(), key) {
            Some(i) => Some(i + 1),
            None => None,
        }
    }
}

/// `find_child` finds a tree with that key before which there is none, and
/// finds one whenever there is any.
pub proof fn lemma_find_child<H>(nodes: Seq<Trie<H>>, key: Seq<char>)
    ensures
        match find_child(nodes, key) {
            Some(i) => 0 <= i < nodes.len() && nodes[i].key == key && forall|j: int|
                0 <= j < i ==> nodes[j].key != key,
            None => forall|j: int| 0 <= j < nodes.len() ==> nodes[j].key != key,
        },
    decreases nodes.len(),
{
    if nodes.len() > 0 && nodes[0].key != key {
        let rest = nodes.drop_first();
        lemma_find_child(rest, key);
        match find_child(rest, key) {
            Some(i) => {
                assert(rest[i] == nodes[i + 1]);
                assert forall|j: int| 0 <= j < i + 1 implies nodes[j].key != key by {
                    if j > 0 {
                        assert(rest[j - 1] == nodes[j]);
                    }
                }
            },
            None => {
                assert forall|j: int| 0 <= j < nodes.len() implies nodes[j].key != key by {
                    if j > 0 {
                        assert(rest[j - 1] == nodes[j]);
                    }
                }
            },
        }
    }
}

impl<H> Trie<H> {
    /// A tree of one node that stands for `key` and holds no handler.
    pub open spec fn leaf(key: Seq<char>) -> Trie<H> {
        Trie { key, handler: None, nodes: Seq::empty() }
    }

    /// The handler that the tree holds for `path`.
    ///
    /// A path is read segment by segment, cut at each `/`. A leading `/` is
    /// skipped. A path that ends at its first `/` asks for the node itself,
    /// which answers if its own key is the segment before the slash. A path
    /// with more behind its first segment goes on in the first child that
    /// stands for that segment. A path without `/` asks for the handler of
    /// the first child that stands for it.
    pub open spec fn lookup(self, path: Seq<char>) -> Option<H>
        decreases path.len(),
    {
        match split_once(path, '/') {
            Some((root, rest)) => {
                if rest.len() == 0 {
                    if root == self.key {
                        self.handler
                    } else {
                        None
                    }
                } else if root.len() == 0 {
                    proof {
                        lemma_split_once_shorter(path, '/');
                    }
                    self.lookup(rest)
                } else {
                    proof {
                        lemma_split_once_shorter(path, '/');
                    }
                    match find_child(self.nodes, root) {
                        Some(i) => self.nodes[i].lookup(rest),
                        None => None,
                    }
                }
            },
            None => match find_child(self.nodes, path) {
                Some(i) => self.nodes[i].handler,
                None => None,
            },
        }
    }

    /// The tree once `handler` is filed under `path`.
    ///
    /// A leading `/` is skipped. A path that ends at its first `/` files the
    /// handler in the node itself, which from then on stands for the segment
    /// before the slash. A path with more behind its first segment goes on
    /// in the first child that stands for that segment, or in a new last
    /// child where there is none. A path without `/` becomes a new last
    /// child that holds the handler.
    pub open spec fn insert(self, path: Seq<char>, handler: H) -> Trie<H>
        decreases path.len(),
    {
        match split_once(path, '/') {
            Some((root, rest)) => {
                if rest.len() == 0 {
                    Trie { key: root, handler: Some(handler), nodes: self.nodes }
                } else if root.len() == 0 {
                    proof {
                        lemma_split_once_shorter(path, '/');
                    }
                    self.insert(rest, handler)
                } else {
                    proof {
                        lemma_split_once_shorter(path, '/');
                    }
                    match find_child(self.nodes, root) {
                        Some(i) => Trie {
                            nodes: self.nodes.update(i, self.nodes[i].insert(rest, handler)),
                            ..self
                        },
                        None => Trie {
                            nodes: self.nodes.push(Trie::leaf(root).insert(rest, handler)),
                            ..self
                        },
                    }
                }
            },
            None => Trie {
                nodes: self.nodes.push(
                    Trie { key: path, handler: Some(handler), nodes: Seq::empty() },
                ),
                ..self
            },
        }
    }
}

/// Whether a path ends in `/`. Filing a handler under such a path renames
/// the node that the path ends at; under any other path it does not.
pub open spec fn ends_in_slash(path: Seq<char>) -> bool {
    path.len() > 0 && path.last() == '/'
}

/// What follows the first `/` of a path that does not end in `/` is not
/// empty and does not end in `/` either.
pub proof fn lemma_tail_keeps_its_end(path: Seq<char>)
    requires
        !ends_in_slash(path),
    ensures
        match split_once(path, '/') {
            Some((head, tail)) => tail.len() > 0 && !ends_in_slash(tail) && tail.len()
                < path.len(),
            None => true,
        },
{
    lemma_split_once_shorter(path, '/');
    match split_once(path, '/') {
        Some((head, tail)) => {
            let whole = head.push('/') + tail;
            if tail.len() == 0 {
                assert(whole.last() == '/');
            } else {
                assert(whole.last() == tail.last());
            }
        },
        None => {},
    }
}

/// A tree whose child at `i` is the first that stands for `key` is where
/// `find_child` finds it.
pub proof fn lemma_find_child_is<H>(nodes: Seq<Trie<H>>, key: Seq<char>, i: int)
    requires
        0 <= i < nodes.len(),
        nodes[i].key == key,
        forall|j: int| 0 <= j < i ==> nodes[j].key != key,
    ensures
        find_child(nodes, key) == Some(i),
{
    lemma_find_child(nodes, key);
}

/// Filing a handler under a path that does not end in `/` leaves the node
/// as it is but for its children: the children that were there stay in
/// their places and stand for what they stood for, with the handlers they
/// held.
pub proof fn lemma_insert_keeps_node<H>(tree: Trie<H>, path: Seq<char>, handler: H)
    requires
        !ends_in_slash(path),
    ensures
        tree.insert(path, handler).key == tree.key,
        tree.insert(path, handler).handler == tree.handler,
        tree.insert(path, handler).nodes.len() >= tree.nodes.len(),
        forall|i: int|
            0 <= i < tree.nodes.len() ==> (#[trigger] tree.insert(path, handler).nodes[i]).key
                == tree.nodes[i].key && tree.insert(path, handler).nodes[i].handler
                == tree.nodes[i].handler,
    decreases path.len(),
{
    lemma_tail_keeps_its_end(path);
    match split_once(path, '/') {
        Some((root, rest)) => {
            if root.len() == 0 {
                lemma_insert_keeps_node(tree, rest, handler);
            } else {
                lemma_find_child(tree.nodes, root);
                match find_child(tree.nodes, root) {
                    Some(i) => {
                        lemma_insert_keeps_node(tree.nodes[i], rest, handler);
                    },
                    None => {},
                }
            }
        },
        None => {},
    }
}

/// Handlers are not lost: filing a handler under a path that does not end
/// in `/` changes nothing for a path under which a handler is found. The
/// same handler is found under it afterwards.
pub proof fn lemma_insert_keeps_found<H>(
    tree: Trie<H>,
    path: Seq<char>,
    handler: H,
    other: Seq<char>,
)
    requires
        !ends_in_slash(path),
        tree.lookup(other) is Some,
    ensures
        tree.insert(path, handler).lookup(other) == tree.lookup(other),
    decreases path.len() + other.len(),
{
    lemma_tail_keeps_its_end(path);
    lemma_split_once_shorter(other, '/');
    lemma_insert_keeps_node(tree, path, handler);
    let after = tree.insert(path, handler);
    let skipped = match split_once(path, '/') {
        Some((root, rest)) => if root.len() == 0 {
            Some(rest)
        } else {
            None
        },
        None => None,
    };
    if let Some(rest) = skipped {
        lemma_insert_keeps_found(tree, rest, handler, other);
    } else {
        // The handler is filed in a child of the node, old or new.
        match split_once(other, '/') {
            Some((first, tail)) => {
                if tail.len() == 0 {
                } else if first.len() == 0 {
                    lemma_insert_keeps_found(tree, path, handler, tail);
                } else {
                    lemma_find_child(tree.nodes, first);
                    let i = find_child(tree.nodes, first)->0;
                    assert forall|j: int| 0 <= j < i implies after.nodes[j].key != first by {
                        assert(after.nodes[j].key == tree.nodes[j].key);
                    }
                    assert(after.nodes[i].key == tree.nodes[i].key);
                    lemma_find_child_is(after.nodes, first, i);
                    match split_once(path, '/') {
                        Some((root, rest)) => {
                            lemma_find_child(tree.nodes, root);
                            if find_child(tree.nodes, root) == Some(i) {
                                lemma_insert_keeps_found(tree.nodes[i], rest, handler, tail);
                            }
                        },
                        None => {},
                    }
                }
            },
            None => {
                lemma_find_child(tree.nodes, other);
                let i = find_child(tree.nodes, other)->0;
                assert forall|j: int| 0 <= j < i implies after.nodes[j].key != other by {
                    assert(after.nodes[j].key == tree.nodes[j].key);
                }
                assert(after.nodes[i].key == tree.nodes[i].key);
                lemma_find_child_is(after.nodes, other, i);
            },
        }
    }
}

/// What is filed is found: in a node without children, a handler that is
/// filed under a path that does not end in `/` is found under that path.
pub proof fn lemma_insert_then_lookup<H>(tree: Trie<H>, path: Seq<char>, handler: H)
    requires
        tree.nodes.len() == 0,
        !ends_in_slash(path),
    ensures
        tree.insert(path, handler).lookup(path) == Some(handler),
    decreases path.len(),
{
    lemma_tail_keeps_its_end(path);
    let after = tree.insert(path, handler);
    match split_once(path, '/') {
        Some((root, rest)) => {
            if root.len() == 0 {
                lemma_insert_then_lookup(tree, rest, handler);
            } else {
                lemma_find_child(tree.nodes, root);
                let child = Trie::leaf(root).insert(rest, handler);
                lemma_insert_keeps_node(Trie::<H>::leaf(root), rest, handler);
                assert(after.nodes[0] == child);
                lemma_find_child_is(after.nodes, root, 0);
                lemma_insert_then_lookup(Trie::<H>::leaf(root), rest, handler);
            }
        },
        None => {
            assert(after.nodes[0].key == path);
            lemma_find_child_is(after.nodes, path, 0);
        },
    }
}

/// A node of the routing tree.
pub struct Node<H> {
    pub nodes: Vec<Node<H>>,
    pub key: String,
    pub handler: Option<H>,
}

/// The tree that a node and its descendants make up.
pub open spec fn trie_of<H>(node: Node<H>) -> Trie<H>
    decreases node,
{
    Trie {
        key: node.key@,
        handler: node.handler,
        nodes: Seq::new(
            node.nodes@.len(),
            |i: int|
                if 0 <= i < node.nodes@.len() {
                    trie_of(node.nodes@[i])
                } else {
                    Trie::leaf(Seq::empty())
                },
        ),
    }
}

impl<H> View for Node<H> {
    type V = Trie<H>;

    open spec fn view(&self) -> Trie<H> {
        trie_of(*self)
    }
}

impl<H> Node<H> {
    /// A node that stands for `key`, without handler and without children.
    pub fn new(key: &str) -> (node: Node<H>)
        ensures
            node@ == Trie::<H>::leaf(key@),
    {
        let node = Node { nodes: Vec::new(), key: String::from_str(key), handler: None };
        assert(node@.nodes =~= Seq::empty());
        node
    }

    /// The position of the first child that stands for `key`.
    fn child(&self, key: &str) -> (r: Option<usize>)
        ensures
            match r {
                Some(i) => i < self.nodes@.len() && find_child(self@.nodes, key@) == Some(i as int),
                None => find_child(self@.nodes, key@) is None,
            },
    {
        let mut i: usize = 0;
        while i < self.nodes.len()
            invariant
                i <= self.nodes@.len(),
                self@.nodes.len() == self.nodes@.len(),
                forall|j: int| 0 <= j < i ==> self@.nodes[j].key != key@,
            decreases self.nodes.len() - i,
        {
            assert(self@.nodes[i as int] == self.nodes@[i as int]@);
            if *key == *self.nodes[i].key.as_str() {
                proof {
                    lemma_find_child(self@.nodes, key@);
                }
                return Some(i);
            }
            i = i + 1;
        }
        proof {
            lemma_find_child(self@.nodes, key@);
        }
        None
    }

    /// Files `handler` under `path`, as `Trie::insert` says.
    pub fn insert(&mut self, path: &str, handler: H)
        ensures
            final(self)@ == old(self)@.insert(path@, handler),
        decreases path@.len(),
    {
        proof {
            lemma_split_once_shorter(path@, '/');
        }
        match cut(path, '/') {
            Some((root, rest)) => {
                if rest.unicode_len() == 0 {
                    self.key = String::from_str(root);
                    self.handler = Some(handler);
                    assert(self@.nodes =~= old(self)@.nodes);
                } else if root.unicode_len() == 0 {
                    self.insert(rest, handler);
                } else {
                    match self.child(root) {
                        Some(i) => {
                            assert(old(self)@.nodes[i as int] == old(self).nodes@[i as int]@);
                            self.nodes[i].insert(rest, handler);
                            assert(self@.nodes =~= old(self)@.nodes.update(
                                i as int,
                                old(self)@.nodes[i as int].insert(rest@, handler),
                            ));
                        },
                        None => {
                            let mut node = Node::new(root);
                            node.insert(rest, handler);
                            self.nodes.push(node);
                            assert(self@.nodes =~= old(self)@.nodes.push(
                                Trie::leaf(root@).insert(rest@, handler),
                            ));
                        },
                    }
                }
            },
            None => {
                let mut node = Node::new(path);
                node.handler = Some(handler);
                assert(node@.nodes =~= Seq::empty());
                self.nodes.push(node);
                assert(self@.nodes =~= old(self)@.nodes.push(
                    Trie { key: path@, handler: Some(handler), nodes: Seq::empty() },
                ));
            },
        }
    }

    /// The handler that is filed under `path`, as `Trie::lookup` says.
    pub fn get(&self, path: &str) -> (r: Option<&H>)
        ensures
            match r {
                Some(h) => self@.lookup(path@) == Some(*h),
                None => self@.lookup(path@) is None,
            },
        decreases path@.len(),
    {
        proof {
            lemma_split_once_shorter(path@, '/');
        }
        match cut(path, '/') {
            Some((root, rest)) => {
                if rest.unicode_len() == 0 {
                    if *root == *self.key.as_str() {
                        self.handler.as_ref()
                    } else {
                        None
                    }
                } else if root.unicode_len() == 0 {
                    self.get(rest)
                } else {
                    match self.child(root) {
                        Some(i) => {
                            assert(self@.nodes[i as int] == self.nodes@[i as int]@);
                            self.nodes[i].get(rest)
                        },
                        None => None,
                    }
                }
            },
            None => match self.child(path) {
                Some(i) => {
                    assert(self@.nodes[i as int] == self.nodes@[i as int]@);
                    self.nodes[i].handler.as_ref()
                },
                None => None,
            },
        }
    }
}

} // verus!
