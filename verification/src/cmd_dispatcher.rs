//! The dispatcher: a trie that recognises key sequences as they are typed.
//!
//! Keys are pushed one by one onto a pending query. Resolving the query
//! splits off a leading repeat count, looks the rest up in the trie, and
//! tells apart three things: the keys so far are the start of a registered
//! sequence, they are a registered sequence, or they are neither.
//!
//! The trie is modelled as the table of the sequences registered in it. How
//! the nodes are laid out is private to this module. The laws at the end of
//! the module say what typing a registered sequence, a part of one, or a
//! repeat count comes to.

use crate::input_handler::{Command, CommandView};
use vstd::prelude::*;

verus! {

/// A repeat count larger than this moves as far as this one does.
const COUNT_CAP: u64 = 0x8000_0000;

/// What resolving a query comes to.
#[derive(Debug, PartialEq, Eq)]
pub enum Resolution {
    /// No registered sequence starts with these keys.
    Invalid,
    /// These keys are the start of a registered sequence, or a repeat count
    /// that no key has followed yet.
    Incomplete,
    /// These keys are a registered sequence, and this is its command.
    Complete(Command),
}

/// A resolution as a plain mathematical value.
pub enum ResolutionView {
    Invalid,
    Incomplete,
    Complete(CommandView),
}

impl View for Resolution {
    type V = ResolutionView;

    open spec fn view(&self) -> ResolutionView {
        match *self {
            Resolution::Invalid => ResolutionView::Invalid,
            Resolution::Incomplete => ResolutionView::Incomplete,
            Resolution::Complete(command) => ResolutionView::Complete(command@),
        }
    }
}

/// The characters that make up a repeat count.
pub open spec fn is_digit(c: char) -> bool {
    '0' <= c <= '9'
}

/// The character that ends the command's name and parts its arguments.
pub open spec fn is_blank(c: char) -> bool {
    c == ' '
}

/// The value of a decimal digit.
pub open spec fn digit_value(c: char) -> nat {
    (c as nat - '0' as nat) as nat
}

/// How many characters at the start of `s` are digits.
pub open spec fn digit_run(s: Seq<char>) -> nat
    decreases s.len(),
{
    if s.len() > 0 && is_digit(s[0]) {
        1 + digit_run(s.drop_first())
    } else {
        0
    }
}

/// How many characters at the start of `s` are blanks.
pub open spec fn blank_run(s: Seq<char>) -> nat
    decreases s.len(),
{
    if s.len() > 0 && is_blank(s[0]) {
        1 + blank_run(s.drop_first())
    } else {
        0
    }
}

/// How many characters at the start of `s` are not blanks.
pub open spec fn word_run(s: Seq<char>) -> nat
    decreases s.len(),
{
    if s.len() > 0 && !is_blank(s[0]) {
        1 + word_run(s.drop_first())
    } else {
        0
    }
}

/// The number that the decimal digits `s` write.
pub open spec fn decimal(s: Seq<char>) -> nat
    decreases s.len(),
{
    if s.len() == 0 {
        0
    } else {
        10 * decimal(s.drop_last()) + digit_value(s.last())
    }
}

/// Where the command's name starts in the query: behind the digits of the
/// repeat count.
pub open spec fn name_start(query: Seq<char>) -> int {
    digit_run(query) as int
}

/// Where the command's name ends: at the first blank behind its start, or at
/// the end of the query.
pub open spec fn name_end(query: Seq<char>) -> int {
    name_start(query) + word_run(query.skip(name_start(query)))
}

/// Where the argument starts: behind the blanks that follow the name.
pub open spec fn argument_start(query: Seq<char>) -> int {
    name_end(query) + blank_run(query.skip(name_end(query)))
}

/// Where the argument ends: at the first blank behind its start, or at the
/// end of the query.
pub open spec fn argument_end(query: Seq<char>) -> int {
    argument_start(query) + word_run(query.skip(argument_start(query)))
}

/// The repeat count that the query starts with; 1 where it starts with none.
pub open spec fn repeat_count(query: Seq<char>) -> nat {
    if digit_run(query) == 0 {
        1
    } else {
        decimal(query.take(digit_run(query) as int))
    }
}

/// The command's name: what stands between the repeat count and the first
/// blank.
pub open spec fn name(query: Seq<char>) -> Seq<char> {
    query.subrange(name_start(query), name_end(query))
}

/// The first word after the command's name, if there is one.
pub open spec fn argument(query: Seq<char>) -> Option<Seq<char>> {
    if argument_end(query) == argument_start(query) {
        None
    } else {
        Some(query.subrange(argument_start(query), argument_end(query)))
    }
}

/// `delta` times `count`, or the end of the range where that lies outside it.
pub open spec fn scaled(delta: i32, count: nat) -> i32 {
    let product = delta * count;
    if product < i32::MIN {
        i32::MIN
    } else if product > i32::MAX {
        i32::MAX
    } else {
        product as i32
    }
}

/// The command that a registered template becomes once its sequence has
/// been typed: a move is repeated `count` times, a command that takes an
/// argument gets the one that was typed, if one was; any other template is
/// the command.
pub open spec fn finished(template: CommandView, count: nat, argument: Option<Seq<char>>)
    -> CommandView {
    match template {
        CommandView::MoveCursor { dx, dy } => CommandView::MoveCursor {
            dx: scaled(dx, count),
            dy: scaled(dy, count),
        },
        CommandView::OpenFile(path) => CommandView::OpenFile(
            match argument {
                Some(typed) => typed,
                None => path,
            },
        ),
        other => other,
    }
}

/// Some registered sequence starts with `keys`.
pub open spec fn starts_some(table: Map<Seq<char>, CommandView>, keys: Seq<char>) -> bool {
    exists|sequence: Seq<char>| #[trigger]
        table.contains_key(sequence) && keys.is_prefix_of(sequence)
}

/// What looking `keys` up in the table comes to. The command of a complete
/// sequence is its template, as registered.
pub open spec fn lookup(table: Map<Seq<char>, CommandView>, keys: Seq<char>) -> ResolutionView {
    if table.contains_key(keys) {
        ResolutionView::Complete(table[keys])
    } else if starts_some(table, keys) {
        ResolutionView::Incomplete
    } else {
        ResolutionView::Invalid
    }
}

/// What resolving `query` against the table comes to.
pub open spec fn resolution(table: Map<Seq<char>, CommandView>, query: Seq<char>)
    -> ResolutionView {
    if name(query).len() == 0 {
        ResolutionView::Incomplete
    } else {
        match lookup(table, name(query)) {
            ResolutionView::Complete(template) => ResolutionView::Complete(
                finished(template, repeat_count(query), argument(query)),
            ),
            other => other,
        }
    }
}

/// The query that is left pending after it has been resolved: all of it
/// while it is incomplete, nothing once it is complete or invalid.
pub open spec fn left_pending(table: Map<Seq<char>, CommandView>, query: Seq<char>) -> Seq<char> {
    if resolution(table, query) is Incomplete {
        query
    } else {
        Seq::empty()
    }
}

/// An edge of the trie: the key that it stands for, and the node that it
/// leads to.
struct Edge {
    key: char,
    target: usize,
}

/// A node of the trie: the edges that leave it, and the template of the
/// sequence that ends at it, if one does.
struct CmdNode {
    edges: Vec<Edge>,
    cmd: Option<Command>,
}

/// The nodes of the trie, the root first. Beside them, for the proofs only:
/// the keys that lead from the root to each node, and the edge by which each
/// node but the root is reached.
struct CmdTrie {
    nodes: Vec<CmdNode>,
    paths: Ghost<Seq<Seq<char>>>,
    parents: Ghost<Seq<int>>,
    slots: Ghost<Seq<int>>,
}

impl CmdTrie {
    /// The number of nodes.
    spec fn size(&self) -> int {
        self.nodes@.len() as int
    }

    /// The keys that lead from the root to node `i`.
    spec fn path(&self, i: int) -> Seq<char> {
        self.paths@[i]
    }

    /// `i` is the index of a node.
    spec fn is_node(&self, i: int) -> bool {
        0 <= i < self.size()
    }

    /// Edge `e` of node `i` leads to the node whose path is one key longer.
    spec fn edge_ok(&self, i: int, e: int) -> bool {
        let edge = self.nodes@[i].edges@[e];
        &&& 0 < edge.target < self.size()
        &&& self.path(edge.target as int) == self.path(i).push(edge.key)
    }

    /// Node `j` is reached by the edge that is recorded for it.
    spec fn parent_ok(&self, j: int) -> bool {
        let i = self.parents@[j];
        let e = self.slots@[j];
        &&& self.is_node(i)
        &&& 0 <= e < self.nodes@[i].edges@.len()
        &&& self.nodes@[i].edges@[e].target == j
    }

    /// Node `k` holds a command and lies at or below node `i`.
    spec fn ends_at(&self, i: int, k: int) -> bool {
        &&& self.is_node(k)
        &&& self.nodes@[k].cmd is Some
        &&& self.path(i).is_prefix_of(self.path(k))
    }

    /// Some node at or below node `i` holds a command.
    spec fn leads(&self, i: int) -> bool {
        exists|k: int| self.ends_at(i, k)
    }

    /// The nodes form a tree in which every node is found by its path.
    spec fn shaped(&self) -> bool {
        &&& self.paths@.len() == self.size()
        &&& self.parents@.len() == self.size()
        &&& self.slots@.len() == self.size()
        &&& self.size() > 0 ==> self.path(0).len() == 0
        &&& forall|i: int, e: int|
            self.is_node(i) && 0 <= e < self.nodes@[i].edges@.len() ==> #[trigger] self.edge_ok(
                i,
                e,
            )
        &&& forall|i: int, j: int|
            self.is_node(i) && self.is_node(j) && i != j ==> #[trigger] self.path(i)
                != #[trigger] self.path(j)
        &&& forall|j: int| 0 < j < self.size() ==> #[trigger] self.parent_ok(j)
    }

    /// No branch is dead: below every node but the root lies a command, or
    /// the node lies on the way to `goal`.
    spec fn live(&self, goal: Seq<char>) -> bool {
        forall|i: int|
            0 < i < self.size() ==> #[trigger] self.leads(i) || self.path(i).is_prefix_of(goal)
    }

    /// The nodes form a tree without a dead branch.
    spec fn wf(&self) -> bool {
        self.shaped() && self.live(Seq::empty())
    }

    /// Some node is reached from the root by `keys`.
    spec fn has_node(&self, keys: Seq<char>) -> bool {
        exists|i: int| self.is_node(i) && #[trigger] self.path(i) == keys
    }

    /// The node that is reached from the root by `keys`.
    spec fn node_at(&self, keys: Seq<char>) -> int {
        choose|i: int| self.is_node(i) && #[trigger] self.path(i) == keys
    }

    /// The registered sequences and their templates.
    spec fn table(&self) -> Map<Seq<char>, CommandView> {
        Map::new(
            |keys: Seq<char>| self.has_node(keys) && self.nodes@[self.node_at(keys)].cmd is Some,
            |keys: Seq<char>| self.nodes@[self.node_at(keys)].cmd->0@,
        )
    }

    /// A node is the one that its path finds.
    proof fn lemma_found(&self, i: int)
        requires
            self.shaped(),
            self.is_node(i),
        ensures
            self.has_node(self.path(i)),
            self.node_at(self.path(i)) == i,
    {
        let j = self.node_at(self.path(i));
        assert(self.is_node(j) && self.path(j) == self.path(i));
    }

    /// Every start of a node's path is the path of a node.
    proof fn lemma_prefix_closed(&self, m: int, len: int)
        requires
            self.shaped(),
            self.is_node(m),
            0 <= len <= self.path(m).len(),
        ensures
            self.has_node(self.path(m).take(len)),
        decreases self.path(m).len(),
    {
        if len == self.path(m).len() {
            assert(self.path(m).take(len) =~= self.path(m));
        } else {
            assert(m != 0);
            assert(self.parent_ok(m));
            let i = self.parents@[m];
            let e = self.slots@[m];
            assert(self.edge_ok(i, e));
            let key = self.nodes@[i].edges@[e].key;
            assert(self.path(m) == self.path(i).push(key));
            assert(self.path(i).take(len) =~= self.path(m).take(len));
            self.lemma_prefix_closed(i, len);
        }
    }

    /// Where node `cur` has no edge for `key`, no node lies one `key` below
    /// it.
    proof fn lemma_no_child(&self, cur: int, key: char)
        requires
            self.shaped(),
            self.is_node(cur),
            forall|e: int|
                0 <= e < self.nodes@[cur].edges@.len() ==> self.nodes@[cur].edges@[e].key != key,
        ensures
            !self.has_node(self.path(cur).push(key)),
    {
        let below = self.path(cur).push(key);
        if self.has_node(below) {
            let j = self.node_at(below);
            assert(self.path(j) == below);
            assert(j != 0);
            assert(self.parent_ok(j));
            let i = self.parents@[j];
            let e = self.slots@[j];
            assert(self.edge_ok(i, e));
            let edge = self.nodes@[i].edges@[e];
            assert(self.path(i).push(edge.key) == below);
            assert(self.path(i) =~= below.drop_last());
            assert(self.path(cur) =~= below.drop_last());
            assert(edge.key == below.last());
            assert(i == cur);
            assert(false);
        }
    }

    /// Once no node has the path `keys`, no registered sequence starts with
    /// a sequence that starts with `keys`.
    proof fn lemma_dead_end(&self, keys: Seq<char>, whole: Seq<char>)
        requires
            self.shaped(),
            !self.has_node(keys),
            keys.is_prefix_of(whole),
        ensures
            lookup(self.table(), whole) == ResolutionView::Invalid,
    {
        assert forall|sequence: Seq<char>|
            self.table().contains_key(sequence) implies !whole.is_prefix_of(sequence) by {
            if whole.is_prefix_of(sequence) {
                let m = self.node_at(sequence);
                assert(self.is_node(m) && self.path(m) == sequence);
                self.lemma_prefix_closed(m, keys.len() as int);
                assert(sequence.take(keys.len() as int) =~= keys);
            }
        }
        assert(!self.table().contains_key(whole)) by {
            assert(whole.is_prefix_of(whole));
        }
    }

    /// An empty trie. It holds no node yet, not even a root.
    fn new() -> (trie: Self)
        ensures
            trie.wf(),
            trie.table() == Map::<Seq<char>, CommandView>::empty(),
    {
        let trie = Self {
            nodes: Vec::new(),
            paths: Ghost(Seq::empty()),
            parents: Ghost(Seq::empty()),
            slots: Ghost(Seq::empty()),
        };
        assert(trie.table() =~= Map::<Seq<char>, CommandView>::empty());
        trie
    }

    /// The node one `key` below node `cur`, if there is one.
    fn child(&self, cur: usize, key: char) -> (r: Option<usize>)
        requires
            self.shaped(),
            self.is_node(cur as int),
        ensures
            match r {
                Some(next) => self.is_node(next as int) && self.path(next as int) == self.path(
                    cur as int,
                ).push(key),
                None => !self.has_node(self.path(cur as int).push(key)),
            },
    {
        let node = &self.nodes[cur];
        let mut e: usize = 0;
        while e < node.edges.len()
            invariant
                self.shaped(),
                self.is_node(cur as int),
                *node == self.nodes@[cur as int],
                e <= node.edges@.len(),
                forall|x: int| 0 <= x < e ==> node.edges@[x].key != key,
            decreases node.edges@.len() - e,
        {
            if node.edges[e].key == key {
                assert(self.edge_ok(cur as int, e as int));
                return Some(node.edges[e].target);
            }
            e = e + 1;
        }
        proof {
            self.lemma_no_child(cur as int, key);
        }
        None
    }

    /// Looks up the keys `query[start..end]`.
    fn find(&self, query: &Vec<char>, start: usize, end: usize) -> (r: Resolution)
        requires
            self.wf(),
            start < end <= query@.len(),
        ensures
            r@ == lookup(self.table(), query@.subrange(start as int, end as int)),
    {
        let ghost keys = query@.subrange(start as int, end as int);
        if self.nodes.len() == 0 {
            proof {
                assert(!self.has_node(keys.take(0)));
                self.lemma_dead_end(keys.take(0), keys);
            }
            return Resolution::Invalid;
        }
        let mut cur: usize = 0;
        let mut i: usize = start;
        assert(self.path(0) =~= keys.take(0));
        while i < end
            invariant
                self.wf(),
                start <= i <= end <= query@.len(),
                keys == query@.subrange(start as int, end as int),
                self.is_node(cur as int),
                self.path(cur as int) == keys.take(i - start),
            decreases end - i,
        {
            assert(keys.take(i - start).push(query@[i as int]) =~= keys.take(i + 1 - start));
            match self.child(cur, query[i]) {
                Some(next) => {
                    cur = next;
                },
                None => {
                    proof {
                        self.lemma_dead_end(keys.take(i + 1 - start), keys);
                    }
                    return Resolution::Invalid;
                },
            }
            i = i + 1;
        }
        proof {
            assert(keys.take(end - start) =~= keys);
            self.lemma_found(cur as int);
        }
        match &self.nodes[cur].cmd {
            Some(command) => Resolution::Complete(command.clone()),
            None => {
                proof {
                    assert(cur != 0);
                    assert(self.leads(cur as int));
                    let k = choose|k: int| self.ends_at(cur as int, k);
                    self.lemma_found(k);
                    assert(self.table().contains_key(self.path(k)));
                    assert(starts_some(self.table(), keys));
                }
                Resolution::Incomplete
            },
        }
    }

    /// Registers `command` under the keys `sequence`: grows the path that
    /// spells them, as far as it is not there yet, and puts the command at
    /// its end.
    fn insert(&mut self, sequence: &Vec<char>, command: Command)
        requires
            old(self).wf(),
        ensures
            final(self).wf(),
            final(self).table() == old(self).table().insert(sequence@, command@),
    {
        let ghost before = old(self).table();
        if self.nodes.len() == 0 {
            self.nodes.push(CmdNode { edges: Vec::new(), cmd: None });
            proof {
                self.paths@ = self.paths@.push(Seq::empty());
                self.parents@ = self.parents@.push(-1);
                self.slots@ = self.slots@.push(-1);
                assert(self.table() =~= before);
            }
        }
        let mut cur: usize = 0;
        let mut i: usize = 0;
        assert(self.path(0) =~= sequence@.take(0));
        while i < sequence.len()
            invariant
                self.shaped(),
                self.live(sequence@),
                self.table() == before,
                i <= sequence@.len(),
                self.is_node(cur as int),
                self.path(cur as int) == sequence@.take(i as int),
            decreases sequence@.len() - i,
        {
            let key = sequence[i];
            assert(sequence@.take(i as int).push(key) =~= sequence@.take(i + 1));
            match self.child(cur, key) {
                Some(next) => {
                    cur = next;
                },
                None => {
                    let next: usize = self.nodes.len();
                    let ghost prev = *self;
                    self.nodes.push(CmdNode { edges: Vec::new(), cmd: None });
                    self.nodes[cur].edges.push(Edge { key, target: next });
                    proof {
                        self.paths@ = self.paths@.push(prev.path(cur as int).push(key));
                        self.parents@ = self.parents@.push(cur as int);
                        self.slots@ = self.slots@.push(prev.nodes@[cur as int].edges@.len() as int);
                        self.lemma_grown(prev, cur as int, next, key, sequence@);
                    }
                    cur = next;
                },
            }
            i = i + 1;
        }
        let ghost prev = *self;
        self.nodes[cur].cmd = Some(command);
        proof {
            assert(sequence@.take(sequence@.len() as int) =~= sequence@);
            self.lemma_marked(prev, cur as int, sequence@);
        }
    }

    /// A trie that got one new node below node `cur` is still a tree, holds
    /// what it held, and has no dead branch but on the way to `goal`.
    proof fn lemma_grown(&self, prev: Self, cur: int, next: usize, key: char, goal: Seq<char>)
        requires
            prev.shaped(),
            prev.live(goal),
            prev.is_node(cur),
            !prev.has_node(prev.path(cur).push(key)),
            prev.path(cur).push(key).is_prefix_of(goal),
            self.nodes@.len() == prev.nodes@.len() + 1,
            self.nodes@[prev.size()].edges@.len() == 0,
            self.nodes@[prev.size()].cmd is None,
            forall|i: int| prev.is_node(i) ==> #[trigger] self.nodes@[i].cmd == prev.nodes@[i].cmd,
            forall|i: int|
                prev.is_node(i) && i != cur ==> #[trigger] self.nodes@[i].edges
                    == prev.nodes@[i].edges,
            self.nodes@[cur].edges@ == prev.nodes@[cur].edges@.push(
                Edge { key, target: next },
            ),
            next == prev.size(),
            self.paths@ == prev.paths@.push(prev.path(cur).push(key)),
            self.parents@ == prev.parents@.push(cur),
            self.slots@ == prev.slots@.push(prev.nodes@[cur].edges@.len() as int),
        ensures
            self.shaped(),
            self.live(goal),
            self.table() == prev.table(),
    {
        let new = prev.size();
        assert forall|i: int, e: int|
            self.is_node(i) && 0 <= e < self.nodes@[i].edges@.len() implies #[trigger] self.edge_ok(
            i,
            e,
        ) by {
            if i == cur && e == prev.nodes@[cur].edges@.len() {
            } else {
                assert(prev.edge_ok(i, e));
            }
        }
        assert forall|i: int, j: int|
            self.is_node(i) && self.is_node(j) && i != j implies #[trigger] self.path(i)
            != #[trigger] self.path(j) by {
            if i == new {
                assert(prev.is_node(j) && prev.path(j) == self.path(j));
            } else if j == new {
                assert(prev.is_node(i) && prev.path(i) == self.path(i));
            } else {
                assert(prev.path(i) != prev.path(j));
            }
        }
        assert forall|j: int| 0 < j < self.size() implies #[trigger] self.parent_ok(j) by {
            if j < new {
                assert(prev.parent_ok(j));
            }
        }
        assert(self.shaped());
        assert forall|i: int| 0 < i < self.size() implies #[trigger] self.leads(i)
            || self.path(i).is_prefix_of(goal) by {
            if i < new {
                if prev.leads(i) {
                    let k = choose|k: int| prev.ends_at(i, k);
                    assert(self.ends_at(i, k));
                }
            }
        }
        assert forall|keys: Seq<char>|
            (self.has_node(keys) && self.nodes@[self.node_at(keys)].cmd is Some) == (prev.has_node(
                keys,
            ) && prev.nodes@[prev.node_at(keys)].cmd is Some) && (prev.has_node(keys)
                && prev.nodes@[prev.node_at(keys)].cmd is Some ==> self.node_at(keys)
                == prev.node_at(keys)) by {
            if prev.has_node(keys) {
                let m = prev.node_at(keys);
                assert(self.is_node(m) && self.path(m) == keys);
                self.lemma_found(m);
            }
            if self.has_node(keys) {
                let m = self.node_at(keys);
                if m != new {
                    assert(prev.is_node(m) && prev.path(m) == keys);
                    prev.lemma_found(m);
                    self.lemma_found(m);
                }
            }
        }
        assert(self.table() =~= prev.table());
    }

    /// A trie that got a command at the node that `sequence` leads to has no
    /// dead branch and holds what it held, and that command.
    proof fn lemma_marked(&self, prev: Self, cur: int, sequence: Seq<char>)
        requires
            prev.shaped(),
            prev.live(sequence),
            prev.is_node(cur),
            prev.path(cur) == sequence,
            self.nodes@.len() == prev.nodes@.len(),
            forall|i: int|
                prev.is_node(i) && i != cur ==> #[trigger] self.nodes@[i] == prev.nodes@[i],
            self.nodes@[cur].edges == prev.nodes@[cur].edges,
            self.nodes@[cur].cmd is Some,
            self.paths == prev.paths,
            self.parents == prev.parents,
            self.slots == prev.slots,
        ensures
            self.wf(),
            self.table() == prev.table().insert(sequence, self.nodes@[cur].cmd->0@),
    {
        assert forall|i: int, e: int|
            self.is_node(i) && 0 <= e < self.nodes@[i].edges@.len() implies #[trigger] self.edge_ok(
            i,
            e,
        ) by {
            assert(prev.edge_ok(i, e));
        }
        assert forall|i: int, j: int|
            self.is_node(i) && self.is_node(j) && i != j implies #[trigger] self.path(i)
            != #[trigger] self.path(j) by {
            assert(prev.path(i) != prev.path(j));
        }
        assert forall|j: int| 0 < j < self.size() implies #[trigger] self.parent_ok(j) by {
            assert(prev.parent_ok(j));
        }
        assert(self.shaped());
        assert forall|i: int| 0 < i < self.size() implies #[trigger] self.leads(i) by {
            if prev.leads(i) {
                let k = choose|k: int| prev.ends_at(i, k);
                assert(self.ends_at(i, k));
            } else {
                assert(self.ends_at(i, cur));
            }
        }
        let after = prev.table().insert(sequence, self.nodes@[cur].cmd->0@);
        assert forall|keys: Seq<char>| #[trigger]
            self.table().dom().contains(keys) == after.dom().contains(keys) && (
            after.dom().contains(keys) ==> self.table()[keys] == after[keys]) by {
            if keys == sequence {
                self.lemma_found(cur);
            } else {
                if prev.has_node(keys) {
                    let m = prev.node_at(keys);
                    assert(self.is_node(m) && self.path(m) == keys);
                    self.lemma_found(m);
                }
                if self.has_node(keys) {
                    let m = self.node_at(keys);
                    assert(prev.is_node(m) && prev.path(m) == keys);
                    prev.lemma_found(m);
                }
            }
        }
        assert(self.table() =~= after);
    }
}

/// The end of the digits that start at `from`.
fn skip_digits(query: &Vec<char>, from: usize) -> (to: usize)
    requires
        from <= query@.len(),
    ensures
        to == from + digit_run(query@.skip(from as int)),
        to <= query@.len(),
        forall|i: int| from <= i < to ==> is_digit(#[trigger] query@[i]),
{
    let mut i: usize = from;
    while i < query.len() && '0' <= query[i] && query[i] <= '9'
        invariant
            from <= i <= query@.len(),
            i + digit_run(query@.skip(i as int)) == from + digit_run(query@.skip(from as int)),
            forall|k: int| from <= k < i ==> is_digit(#[trigger] query@[k]),
        decreases query@.len() - i,
    {
        assert(query@.skip(i as int).drop_first() =~= query@.skip(i + 1));
        i = i + 1;
    }
    i
}

/// The end of the blanks that start at `from`.
fn skip_blanks(query: &Vec<char>, from: usize) -> (to: usize)
    requires
        from <= query@.len(),
    ensures
        to == from + blank_run(query@.skip(from as int)),
        to <= query@.len(),
{
    let mut i: usize = from;
    while i < query.len() && query[i] == ' '
        invariant
            from <= i <= query@.len(),
            i + blank_run(query@.skip(i as int)) == from + blank_run(query@.skip(from as int)),
        decreases query@.len() - i,
    {
        assert(query@.skip(i as int).drop_first() =~= query@.skip(i + 1));
        i = i + 1;
    }
    i
}

/// The end of the word that starts at `from`.
fn skip_word(query: &Vec<char>, from: usize) -> (to: usize)
    requires
        from <= query@.len(),
    ensures
        to == from + word_run(query@.skip(from as int)),
        to <= query@.len(),
{
    let mut i: usize = from;
    while i < query.len() && query[i] != ' '
        invariant
            from <= i <= query@.len(),
            i + word_run(query@.skip(i as int)) == from + word_run(query@.skip(from as int)),
        decreases query@.len() - i,
    {
        assert(query@.skip(i as int).drop_first() =~= query@.skip(i + 1));
        i = i + 1;
    }
    i
}

/// The number that the first `end` characters write, or the cap where it
/// is larger.
fn parse_count(query: &Vec<char>, end: usize) -> (count: u64)
    requires
        end <= query@.len(),
        forall|i: int| 0 <= i < end ==> is_digit(#[trigger] query@[i]),
    ensures
        count == vstd::math::min(decimal(query@.take(end as int)) as int, COUNT_CAP as int),
{
    let mut count: u64 = 0;
    let mut i: usize = 0;
    while i < end
        invariant
            i <= end <= query@.len(),
            forall|k: int| 0 <= k < end ==> is_digit(#[trigger] query@[k]),
            count == vstd::math::min(decimal(query@.take(i as int)) as int, COUNT_CAP as int),
        decreases end - i,
    {
        let c = query[i];
        assert(is_digit(query@[i as int]));
        let digit: u64 = (c as u32 - '0' as u32) as u64;
        proof {
            let next = query@.take(i + 1);
            assert(next.drop_last() =~= query@.take(i as int));
            assert(next.last() == c);
            assert(digit == digit_value(c));
        }
        count = count * 10 + digit;
        if count > COUNT_CAP {
            count = COUNT_CAP;
        }
        i = i + 1;
    }
    count
}

/// A capped repeat count moves as far as the count itself.
proof fn lemma_scaled_capped(delta: i32, count: nat)
    ensures
        scaled(delta, vstd::math::min(count as int, COUNT_CAP as int) as nat) == scaled(
            delta,
            count,
        ),
{
    if count > COUNT_CAP {
        let cap = COUNT_CAP as int;
        if delta > 0 {
            assert(delta * count > i32::MAX && delta * cap > i32::MAX) by (nonlinear_arith)
                requires
                    delta >= 1,
                    count > cap,
                    cap == 0x8000_0000,
            ;
        } else if delta < 0 {
            assert(delta * count < i32::MIN && delta * cap <= i32::MIN) by (nonlinear_arith)
                requires
                    delta <= -1,
                    count > cap,
                    cap == 0x8000_0000,
            ;
        } else {
            assert(delta * count == 0 && delta * cap == 0) by (nonlinear_arith)
                requires
                    delta == 0,
            ;
        }
    }
}

/// `delta` repeated `count` times.
fn scale(delta: i32, count: u64) -> (r: i32)
    requires
        count <= COUNT_CAP,
    ensures
        r == scaled(delta, count as nat),
{
    assert(-0x4000_0000_0000_0000 <= delta * count <= 0x4000_0000_0000_0000) by (nonlinear_arith)
        requires
            -0x8000_0000 <= delta <= 0x7fff_ffff,
            0 <= count <= 0x8000_0000,
    ;
    let product: i64 = delta as i64 * count as i64;
    if product < i32::MIN as i64 {
        i32::MIN
    } else if product > i32::MAX as i64 {
        i32::MAX
    } else {
        product as i32
    }
}

/// The characters `query[from..to]` as a string.
fn text_of(query: &Vec<char>, from: usize, to: usize) -> (text: String)
    requires
        from <= to <= query@.len(),
    ensures
        text@ == query@.subrange(from as int, to as int),
{
    let mut text = String::new();
    let mut i: usize = from;
    while i < to
        invariant
            from <= i <= to <= query@.len(),
            text@ == query@.subrange(from as int, i as int),
        decreases to - i,
    {
        text.push(query[i]);
        assert(query@.subrange(from as int, i as int).push(query@[i as int]) =~= query@.subrange(
            from as int,
            i + 1,
        ));
        i = i + 1;
    }
    text
}

/// The characters of `text`, one by one.
fn chars_of(text: &str) -> (chars: Vec<char>)
    ensures
        chars@ == text@,
{
    let mut chars: Vec<char> = Vec::new();
    for c in it: text.chars()
        invariant
            it.seq() == text@,
            chars@ == it.seq().take(it.index()),
    {
        chars.push(c);
        assert(it.seq().take(it.index()).push(c) =~= it.seq().take(it.index() + 1));
    }
    assert(text@.take(text@.len() as int) =~= text@);
    chars
}

/// The recogniser of one mode: the sequences registered for it, and the keys
/// typed since the last sequence was recognised or rejected.
pub struct CmdDispatcher {
    trie: CmdTrie,
    query: Vec<char>,
}

impl CmdDispatcher {
    #[verifier::type_invariant]
    spec fn inv(&self) -> bool {
        self.trie.wf()
    }

    /// The registered sequences, each with its template.
    pub closed spec fn table(&self) -> Map<Seq<char>, CommandView> {
        self.trie.table()
    }

    /// The keys that are waiting to be resolved.
    pub closed spec fn pending(&self) -> Seq<char> {
        self.query@
    }

    /// A dispatcher that knows no sequence and has no key pending.
    pub fn new() -> (dispatcher: Self)
        ensures
            dispatcher.table() == Map::<Seq<char>, CommandView>::empty(),
            dispatcher.pending() == Seq::<char>::empty(),
    {
        Self { trie: CmdTrie::new(), query: Vec::new() }
    }

    /// Registers `command` as the template of the keys `sequence`. A
    /// sequence that was registered before gets the new template.
    pub fn register(&mut self, sequence: &str, command: Command)
        ensures
            final(self).table() == old(self).table().insert(sequence@, command@),
            final(self).pending() == old(self).pending(),
    {
        proof {
            use_type_invariant(&*self);
        }
        let keys = chars_of(sequence);
        let mut trie = CmdTrie::new();
        core::mem::swap(&mut self.trie, &mut trie);
        trie.insert(&keys, command);
        self.trie = trie;
    }

    /// Appends one key to the pending query.
    pub fn push(&mut self, ch: char)
        ensures
            final(self).table() == old(self).table(),
            final(self).pending() == old(self).pending().push(ch),
    {
        proof {
            use_type_invariant(&*self);
        }
        let mut query: Vec<char> = Vec::new();
        core::mem::swap(&mut self.query, &mut query);
        query.push(ch);
        self.query = query;
    }

    /// Resolves the pending query.
    ///
    /// A query that is complete or invalid is dropped; one that is
    /// incomplete stays pending, so that more keys can follow.
    pub fn resolve(&mut self) -> (r: Resolution)
        ensures
            r@ == resolution(old(self).table(), old(self).pending()),
            final(self).table() == old(self).table(),
            final(self).pending() == left_pending(old(self).table(), old(self).pending()),
    {
        proof {
            use_type_invariant(&*self);
        }
        let start: usize = skip_digits(&self.query, 0);
        let end: usize = skip_word(&self.query, start);
        assert(self.query@.skip(0) =~= self.query@);
        if start == end {
            return Resolution::Incomplete;
        }
        match self.trie.find(&self.query, start, end) {
            Resolution::Invalid => {
                self.clear();
                Resolution::Invalid
            },
            Resolution::Incomplete => Resolution::Incomplete,
            Resolution::Complete(template) => {
                let command = match template {
                    Command::MoveCursor { dx, dy } => {
                        let count: u64 = if start == 0 {
                            1
                        } else {
                            parse_count(&self.query, start)
                        };
                        proof {
                            lemma_scaled_capped(dx, repeat_count(self.query@));
                            lemma_scaled_capped(dy, repeat_count(self.query@));
                        }
                        Command::MoveCursor { dx: scale(dx, count), dy: scale(dy, count) }
                    },
                    Command::OpenFile(path) => {
                        let from: usize = skip_blanks(&self.query, end);
                        let to: usize = skip_word(&self.query, from);
                        if from == to {
                            Command::OpenFile(path)
                        } else {
                            Command::OpenFile(text_of(&self.query, from, to))
                        }
                    },
                    other => other,
                };
                self.clear();
                Resolution::Complete(command)
            },
        }
    }

    /// Resolves the pending query and hands out its command, if the query is
    /// a registered sequence.
    pub fn get(&mut self) -> (r: Option<Command>)
        ensures
            match r {
                Some(command) => resolution(old(self).table(), old(self).pending())
                    == ResolutionView::Complete(command@),
                None => !(resolution(old(self).table(), old(self).pending()) is Complete),
            },
            final(self).table() == old(self).table(),
            final(self).pending() == left_pending(old(self).table(), old(self).pending()),
    {
        match self.resolve() {
            Resolution::Complete(command) => Some(command),
            _ => None,
        }
    }

    /// The pending query as text.
    pub fn get_query(&self) -> (query: String)
        ensures
            query@ == self.pending(),
    {
        let query = text_of(&self.query, 0, self.query.len());
        assert(self.query@.subrange(0, self.query@.len() as int) =~= self.query@);
        query
    }

    /// Drops the pending query.
    pub fn clear(&mut self)
        ensures
            final(self).table() == old(self).table(),
            final(self).pending() == Seq::<char>::empty(),
    {
        proof {
            use_type_invariant(&*self);
        }
        self.query = Vec::new();
    }
}

/// Keys that can be registered and found again as they are: at least one
/// key, the first of them no digit, none of them a blank.
pub open spec fn is_key_sequence(keys: Seq<char>) -> bool {
    &&& keys.len() > 0
    &&& !is_digit(keys[0])
    &&& forall|i: int| 0 <= i < keys.len() ==> !is_blank(#[trigger] keys[i])
}

/// Nothing but digits, and at least one.
pub open spec fn is_count(digits: Seq<char>) -> bool {
    &&& digits.len() > 0
    &&& forall|i: int| 0 <= i < digits.len() ==> is_digit(#[trigger] digits[i])
}

/// A text without blanks is one word.
pub proof fn lemma_one_word(s: Seq<char>)
    requires
        forall|i: int| 0 <= i < s.len() ==> !is_blank(#[trigger] s[i]),
    ensures
        word_run(s) == s.len(),
    decreases s.len(),
{
    if s.len() > 0 {
        lemma_one_word(s.drop_first());
    }
}

/// The digits in front of what is not a digit are the digits that the text
/// starts with.
pub proof fn lemma_leading_digits(digits: Seq<char>, rest: Seq<char>)
    requires
        forall|i: int| 0 <= i < digits.len() ==> is_digit(#[trigger] digits[i]),
        rest.len() == 0 || !is_digit(rest[0]),
    ensures
        digit_run(digits + rest) == digits.len(),
    decreases digits.len(),
{
    if digits.len() > 0 {
        assert((digits + rest).drop_first() =~= digits.drop_first() + rest);
        lemma_leading_digits(digits.drop_first(), rest);
    } else {
        assert(digits + rest =~= rest);
    }
}

/// A query made of an optional repeat count and a key sequence has the
/// sequence as its name and no argument.
pub proof fn lemma_parts(digits: Seq<char>, keys: Seq<char>)
    requires
        forall|i: int| 0 <= i < digits.len() ==> is_digit(#[trigger] digits[i]),
        is_key_sequence(keys),
    ensures
        name(digits + keys) == keys,
        argument(digits + keys) is None,
        repeat_count(digits + keys) == if digits.len() == 0 {
            1
        } else {
            decimal(digits)
        },
{
    let query = digits + keys;
    lemma_leading_digits(digits, keys);
    assert(query.skip(digits.len() as int) =~= keys);
    lemma_one_word(keys);
    assert(query.subrange(digits.len() as int, query.len() as int) =~= keys);
    assert(query.take(digits.len() as int) =~= digits);
    assert(query.skip(query.len() as int) =~= Seq::<char>::empty());
}

/// Repeated once, a template is its own command.
pub proof fn lemma_finished_once(template: CommandView)
    ensures
        finished(template, 1, None) == template,
{
}

/// Typing exactly a registered sequence resolves to its command, and
/// leaves nothing pending; resolving again right after that finds nothing
/// to resolve.
pub proof fn lemma_sequence_completes(table: Map<Seq<char>, CommandView>, keys: Seq<char>)
    requires
        table.contains_key(keys),
        is_key_sequence(keys),
    ensures
        resolution(table, keys) == ResolutionView::Complete(table[keys]),
        left_pending(table, keys) == Seq::<char>::empty(),
        resolution(table, left_pending(table, keys)) == ResolutionView::Incomplete,
{
    lemma_parts(Seq::empty(), keys);
    assert(Seq::<char>::empty() + keys =~= keys);
    lemma_finished_once(table[keys]);
    assert(name(Seq::<char>::empty()) =~= Seq::<char>::empty());
}

/// Typing only the start of a registered sequence is never invalid: it is
/// incomplete and stays pending, unless that start is a registered
/// sequence itself.
pub proof fn lemma_start_is_pending(
    table: Map<Seq<char>, CommandView>,
    keys: Seq<char>,
    typed: int,
)
    requires
        table.contains_key(keys),
        is_key_sequence(keys),
        0 < typed < keys.len(),
    ensures
        !(resolution(table, keys.take(typed)) is Invalid),
        !table.contains_key(keys.take(typed)) ==> {
            &&& resolution(table, keys.take(typed)) == ResolutionView::Incomplete
            &&& left_pending(table, keys.take(typed)) == keys.take(typed)
        },
{
    let start = keys.take(typed);
    assert(is_key_sequence(start));
    lemma_parts(Seq::empty(), start);
    assert(Seq::<char>::empty() + start =~= start);
    assert(start.is_prefix_of(keys));
    assert(starts_some(table, start));
}

/// Typing a repeat count and then a registered sequence resolves to the
/// sequence's template, repeated that many times.
pub proof fn lemma_counted_sequence_completes(
    table: Map<Seq<char>, CommandView>,
    digits: Seq<char>,
    keys: Seq<char>,
)
    requires
        table.contains_key(keys),
        is_key_sequence(keys),
        is_count(digits),
    ensures
        resolution(table, digits + keys) == ResolutionView::Complete(
            finished(table[keys], decimal(digits), None),
        ),
        left_pending(table, digits + keys) == Seq::<char>::empty(),
{
    lemma_parts(digits, keys);
}

/// A repeat count alone is incomplete and stays pending.
pub proof fn lemma_count_alone_is_pending(table: Map<Seq<char>, CommandView>, digits: Seq<char>)
    requires
        is_count(digits),
    ensures
        resolution(table, digits) == ResolutionView::Incomplete,
        left_pending(table, digits) == digits,
{
    lemma_leading_digits(digits, Seq::empty());
    assert(digits + Seq::<char>::empty() =~= digits);
    assert(digits.skip(digits.len() as int) =~= Seq::<char>::empty());
    assert(name(digits) =~= Seq::<char>::empty());
}

} // verus!
