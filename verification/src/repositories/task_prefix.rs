//! The task id prefix index.
//!
//! Every indexed id contributes one node per prefix of length two or more,
//! plus one node for the id itself. A node remembers whether exactly one
//! indexed id has that prefix (`is_unique`) and whether the prefix is itself an
//! indexed id (`is_end_of_id`). The index then answers, for an indexed id, the
//! shortest prefix that names it unambiguously.
use vstd::prelude::*;

use crate::entities::prefix_trie_node::{node_info, PrefixTrieNode};
use crate::text::copy_string;
use dashmap::DashMap;
use crate::text::str_starts_with;
use vstd::string::*;
use vstd::utf8::is_ascii_chars;

verus! {

/// `p` is a prefix of `x`.
pub open spec fn is_prefix(p: Seq<char>, x: Seq<char>) -> bool {
    p.len() <= x.len() && x.subrange(0, p.len() as int) == p
}

/// Indexing `x` creates or updates the node of `p`: `p` is a non-empty prefix
/// of `x` of length two or more, or `x` itself.
pub open spec fn touches(x: Seq<char>, p: Seq<char>) -> bool {
    0 < p.len() && is_prefix(p, x) && (p.len() >= 2 || p.len() == x.len())
}

/// Some indexed id touches `p`.
pub open spec fn has_node(ids: Set<Seq<char>>, p: Seq<char>) -> bool {
    exists|x: Seq<char>| #[trigger] ids.contains(x) && touches(x, p)
}

/// Exactly one indexed id touches `p`.
pub open spec fn unique_owner(ids: Set<Seq<char>>, p: Seq<char>) -> bool {
    exists|x: Seq<char>|
        #[trigger] ids.contains(x) && touches(x, p) && (forall|y: Seq<char>|
            #[trigger] ids.contains(y) && touches(y, p) ==> y == x)
}

/// The nodes that indexing the ids `ids` yields, keyed by prefix.
pub open spec fn index_map(ids: Set<Seq<char>>) -> Map<Seq<char>, (bool, bool)> {
    Map::new(|p: Seq<char>| has_node(ids, p), |p: Seq<char>| (unique_owner(ids, p), ids.contains(p)))
}

/// No two nodes share a prefix.
pub open spec fn distinct_prefixes(nodes: Seq<PrefixTrieNode>) -> bool {
    forall|i: int, j: int|
        0 <= i < nodes.len() && 0 <= j < nodes.len() && i != j ==> #[trigger] nodes[i].prefix@
            != #[trigger] nodes[j].prefix@
}

/// A change that the index asks its backing store to make: `is_new` nodes are
/// inserted, the others replace the stored node of the same prefix.
#[derive(Clone, Debug)]
pub struct NodeWrite {
    pub node: PrefixTrieNode,
    pub is_new: bool,
}

/// The store `m` after the writes `w`, in order.
pub open spec fn apply_writes(m: Map<Seq<char>, (bool, bool)>, w: Seq<NodeWrite>) -> Map<
    Seq<char>,
    (bool, bool),
>
    decreases w.len(),
{
    if w.len() == 0 {
        m
    } else {
        apply_writes(m, w.drop_last()).insert(w.last().node.prefix@, node_info(w.last().node))
    }
}

/// Each write is marked new exactly when its prefix is absent from the store
/// at the moment it is applied.
pub open spec fn writes_well_kinded(m: Map<Seq<char>, (bool, bool)>, w: Seq<NodeWrite>) -> bool {
    forall|k: int|
        0 <= k < w.len() ==> (#[trigger] w[k]).is_new == !apply_writes(m, w.take(k)).dom().contains(
            w[k].node.prefix@,
        )
}

/// Every id of `ids` is a non-empty ASCII string.
pub open spec fn ids_well_formed(ids: Set<Seq<char>>) -> bool {
    &&& ids.finite()
    &&& forall|x: Seq<char>| #[trigger] ids.contains(x) ==> x.len() > 0 && is_ascii_chars(x)
}

/// `ids` extended with the non-empty strings of `new_ids`.
pub open spec fn with_ids(ids: Set<Seq<char>>, new_ids: Seq<String>) -> Set<Seq<char>> {
    ids.union(Set::new(|x: Seq<char>| x.len() > 0 && exists|j: int| 0 <= j < new_ids.len() && #[trigger] new_ids[j]@ == x))
}

/// The search for the shortest unique prefix of `id`, from length `k` on.
pub open spec fn unique_prefix_from(ids: Set<Seq<char>>, id: Seq<char>, k: int) -> Seq<char>
    decreases id.len() + 1 - k,
{
    if k > id.len() || k < 0 {
        id
    } else if unique_owner(ids, id.subrange(0, k)) {
        id.subrange(0, k)
    } else {
        unique_prefix_from(ids, id, k + 1)
    }
}

/// The shortest prefix of `id`, two characters or longer, that exactly one
/// indexed id has; `id` itself when there is none or when `id` is not indexed.
pub open spec fn shortest_unique_prefix(ids: Set<Seq<char>>, id: Seq<char>) -> Seq<char> {
    if ids.contains(id) {
        unique_prefix_from(ids, id, 2)
    } else {
        id
    }
}

/// A node as plain values: its prefix and its two flags.
pub open spec fn node_tuple(n: PrefixTrieNode) -> (Seq<char>, bool, bool) {
    (n.prefix@, n.is_unique, n.is_end_of_id)
}

/// The nodes that a `DashMap` of the index holds, by key.
pub uninterp spec fn dashmap_nodes(map: DashMap<String, PrefixTrieNode>) -> Map<Seq<char>, (Seq<char>, bool, bool)>;

/// Every node is stored under its own prefix.
pub open spec fn keyed_by_prefix(m: Map<Seq<char>, (Seq<char>, bool, bool)>) -> bool {
    forall|p: Seq<char>| #[trigger] m.dom().contains(p) ==> m[p].0 == p
}

/// The flags of each stored node, by prefix.
pub open spec fn flags_map(m: Map<Seq<char>, (Seq<char>, bool, bool)>) -> Map<Seq<char>, (bool, bool)> {
    Map::new(|p: Seq<char>| m.dom().contains(p), |p: Seq<char>| (m[p].1, m[p].2))
}

proof fn lemma_flags_insert(m: Map<Seq<char>, (Seq<char>, bool, bool)>, p: Seq<char>, t: (Seq<char>, bool, bool))
    requires
        keyed_by_prefix(m),
        t.0 == p,
    ensures
        keyed_by_prefix(m.insert(p, t)),
        flags_map(m.insert(p, t)) == flags_map(m).insert(p, (t.1, t.2)),
{
    assert(flags_map(m.insert(p, t)) =~= flags_map(m).insert(p, (t.1, t.2)));
}

/// What a lookup in a well-formed index finds for `key`: the node, under its
/// own prefix, with the flags that the indexed ids give; none when no
/// indexed id touches `key`.
proof fn lemma_lookup(
    m: Map<Seq<char>, (Seq<char>, bool, bool)>,
    ids: Set<Seq<char>>,
    key: Seq<char>,
    found: Option<PrefixTrieNode>,
)
    requires
        keyed_by_prefix(m),
        flags_map(m) == index_map(ids),
        (found is Some) == m.dom().contains(key),
        found matches Some(n) ==> node_tuple(n) == m[key],
    ensures
        match found {
            Some(n) => n.prefix@ == key && has_node(ids, key) && n.is_unique == unique_owner(ids, key)
                && n.is_end_of_id == ids.contains(key),
            None => !has_node(ids, key),
        },
{
    assert(flags_map(m).dom().contains(key) == m.dom().contains(key));
    assert(index_map(ids).dom().contains(key) == has_node(ids, key));
    if let Some(n) = found {
        assert(flags_map(m)[key] == (m[key].1, m[key].2));
        assert(index_map(ids)[key] == (unique_owner(ids, key), ids.contains(key)));
    }
}

/// No node at all.
pub open spec fn no_nodes() -> Map<Seq<char>, (Seq<char>, bool, bool)> {
    Map::empty()
}

/// `DashMap::new`: a map that holds no node.
#[verifier::external_body]
fn new_node_map() -> (r: DashMap<String, PrefixTrieNode>)
    ensures
        dashmap_nodes(r) == no_nodes(),
{
    DashMap::new()
}

/// `DashMap::get`: a copy (the derived `clone`, field for field) of the node
/// stored under `key`, if there is one.
#[verifier::external_body]
fn node_under(map: &DashMap<String, PrefixTrieNode>, key: &str) -> (r: Option<PrefixTrieNode>)
    ensures
        (r is Some) == dashmap_nodes(*map).dom().contains(key@),
        r matches Some(n) ==> node_tuple(n) == dashmap_nodes(*map)[key@],
{
    map.get(key).map(|e| e.value().clone())
}

/// `DashMap::insert`: `node` is stored under `key`, replacing any node
/// there; nothing else changes. Called with the map borrowed exclusively,
/// so no other thread changes it meanwhile.
#[verifier::external_body]
fn put_node(map: &mut DashMap<String, PrefixTrieNode>, key: String, node: PrefixTrieNode)
    ensures
        dashmap_nodes(*final(map)) == dashmap_nodes(*old(map)).insert(key@, node_tuple(node)),
{
    map.insert(key, node);
}

/// `DashMap::iter`: every entry once, as a copy of its key and its node, in
/// no particular order.
#[verifier::external_body]
fn node_entries(map: &DashMap<String, PrefixTrieNode>) -> (r: Vec<(String, PrefixTrieNode)>)
    ensures
        forall|i: int|
            0 <= i < r@.len() ==> dashmap_nodes(*map).dom().contains((#[trigger] r@[i]).0@)
                && dashmap_nodes(*map)[r@[i].0@] == node_tuple(r@[i].1),
        forall|i: int, j: int|
            0 <= i < r@.len() && 0 <= j < r@.len() && i != j ==> (#[trigger] r@[i]).0@ != (#[trigger] r@[j]).0@,
        forall|p: Seq<char>|
            #[trigger] dashmap_nodes(*map).dom().contains(p) ==> exists|i: int|
                0 <= i < r@.len() && (#[trigger] r@[i]).0@ == p,
{
    map.iter().map(|e| (e.key().clone(), e.value().clone())).collect()
}

/// An in-memory index of task id prefixes.
pub struct TaskPrefixRepository {
    nodes: DashMap<String, PrefixTrieNode>,
    ids: Ghost<Set<Seq<char>>>,
}

/// The same index under the name the task service gives it.
pub type PrefixIndex = TaskPrefixRepository;

proof fn lemma_apply_push(m: Map<Seq<char>, (bool, bool)>, w: Seq<NodeWrite>, x: NodeWrite)
    requires
        writes_well_kinded(m, w),
        x.is_new == !apply_writes(m, w).dom().contains(x.node.prefix@),
    ensures
        apply_writes(m, w.push(x)) == apply_writes(m, w).insert(x.node.prefix@, node_info(x.node)),
        writes_well_kinded(m, w.push(x)),
{
    let ww = w.push(x);
    assert(ww.drop_last() =~= w);
    assert forall|k: int| 0 <= k < ww.len() implies (#[trigger] ww[k]).is_new
        == !apply_writes(m, ww.take(k)).dom().contains(ww[k].node.prefix@) by {
        if k < w.len() {
            assert(ww.take(k) =~= w.take(k));
            assert(ww[k] == w[k]);
        } else {
            assert(ww.take(k) =~= w);
        }
    }
}

/// A node that no indexed id touches is unaffected by indexing one more id.
proof fn lemma_untouched(ids: Set<Seq<char>>, id: Seq<char>, p: Seq<char>)
    requires
        !touches(id, p),
        id.len() > 0,
    ensures
        has_node(ids.insert(id), p) == has_node(ids, p),
        unique_owner(ids.insert(id), p) == unique_owner(ids, p),
        ids.insert(id).contains(p) == ids.contains(p),
{
    let s2 = ids.insert(id);
    if has_node(ids, p) {
        let x = choose|x: Seq<char>| #[trigger] ids.contains(x) && touches(x, p);
        assert(s2.contains(x));
    }
    if has_node(s2, p) {
        let x = choose|x: Seq<char>| #[trigger] s2.contains(x) && touches(x, p);
        assert(ids.contains(x));
    }
    if unique_owner(s2, p) {
        let x = choose|x: Seq<char>|
            #[trigger] s2.contains(x) && touches(x, p) && (forall|y: Seq<char>|
                #[trigger] s2.contains(y) && touches(y, p) ==> y == x);
        assert(ids.contains(x));
        assert forall|y: Seq<char>| #[trigger] ids.contains(y) && touches(y, p) implies y == x by {
            assert(s2.contains(y));
        }
    }
    if unique_owner(ids, p) {
        let x = choose|x: Seq<char>|
            #[trigger] ids.contains(x) && touches(x, p) && (forall|y: Seq<char>|
                #[trigger] ids.contains(y) && touches(y, p) ==> y == x);
        assert(s2.contains(x));
        assert forall|y: Seq<char>| #[trigger] s2.contains(y) && touches(y, p) implies y == x by {
            if y != id {
                assert(ids.contains(y));
            }
        }
    }
    if p == id {
        assert(p.subrange(0, p.len() as int) =~= p);
        assert(touches(id, p));
    }
}

/// A node that the new id touches stops being unique if it existed, and is
/// an id's end when it was one or is the new id.
proof fn lemma_touched(ids: Set<Seq<char>>, id: Seq<char>, p: Seq<char>)
    requires
        touches(id, p),
        !ids.contains(id),
    ensures
        has_node(ids.insert(id), p),
        unique_owner(ids.insert(id), p) == !has_node(ids, p),
{
    let s2 = ids.insert(id);
    assert(s2.contains(id));
    if has_node(ids, p) {
        let x = choose|x: Seq<char>| #[trigger] ids.contains(x) && touches(x, p);
        if unique_owner(s2, p) {
            let o = choose|o: Seq<char>|
                #[trigger] s2.contains(o) && touches(o, p) && (forall|y: Seq<char>|
                    #[trigger] s2.contains(y) && touches(y, p) ==> y == o);
            assert(s2.contains(x));
            assert(x == o);
            assert(id == o);
        }
    } else {
        assert forall|y: Seq<char>| #[trigger] s2.contains(y) && touches(y, p) implies y == id by {
            if y != id {
                assert(ids.contains(y));
            }
        }
    }
}

/// The target of the node update loop: nodes touched by `id` of length below
/// `i` already account for `id`, the others do not yet.
pub open spec fn partial_map(ids: Set<Seq<char>>, id: Seq<char>, i: int) -> Map<
    Seq<char>,
    (bool, bool),
> {
    Map::new(
        |p: Seq<char>| has_node(ids, p) || (touches(id, p) && p.len() < i),
        |p: Seq<char>|
            if touches(id, p) && p.len() < i {
                (!has_node(ids, p), ids.contains(p) || p == id)
            } else {
                (unique_owner(ids, p), ids.contains(p))
            },
    )
}

proof fn lemma_partial_start(ids: Set<Seq<char>>, id: Seq<char>)
    ensures
        partial_map(ids, id, 1) == index_map(ids),
{
    assert(partial_map(ids, id, 1) =~= index_map(ids));
}

proof fn lemma_partial_end(ids: Set<Seq<char>>, id: Seq<char>)
    requires
        !ids.contains(id),
        id.len() > 0,
    ensures
        partial_map(ids, id, id.len() + 1int) == index_map(ids.insert(id)),
{
    let a = partial_map(ids, id, id.len() + 1int);
    let b = index_map(ids.insert(id));
    assert forall|p: Seq<char>| #[trigger] a.dom().contains(p) <==> b.dom().contains(p) by {
        if touches(id, p) {
            lemma_touched(ids, id, p);
        } else {
            lemma_untouched(ids, id, p);
        }
    }
    assert forall|p: Seq<char>| #[trigger] a.dom().contains(p) implies a[p] == b[p] by {
        if touches(id, p) {
            lemma_touched(ids, id, p);
        } else {
            lemma_untouched(ids, id, p);
            if p == id {
                assert(p.subrange(0, p.len() as int) =~= p);
            }
        }
    }
    assert(a =~= b);
}

/// One step of the node update loop, at the prefix `p` of length `i`.
proof fn lemma_partial_step(s: Set<Seq<char>>, id: Seq<char>, i: int, p: Seq<char>)
    requires
        touches(id, p),
        p.len() == i,
        forall|q: Seq<char>| touches(id, q) && q.len() == i ==> q == p,
    ensures
        partial_map(s, id, i + 1) == partial_map(s, id, i).insert(
            p,
            (!has_node(s, p), s.contains(p) || p == id),
        ),
        partial_map(s, id, i).dom().contains(p) == has_node(s, p),
        has_node(s, p) ==> partial_map(s, id, i)[p] == (unique_owner(s, p), s.contains(p)),
{
    assert(partial_map(s, id, i + 1) =~= partial_map(s, id, i).insert(
        p,
        (!has_node(s, p), s.contains(p) || p == id),
    ));
}

/// The only prefix of `id` of length `i` is its first `i` characters.
proof fn lemma_prefix_of_len(id: Seq<char>, p: Seq<char>, i: int)
    requires
        is_prefix(p, id),
        p.len() == i,
    ensures
        p == id.subrange(0, i),
{
}

/// A copy of a node.
fn copy_node(n: &PrefixTrieNode) -> (r: PrefixTrieNode)
    ensures
        r == *n,
{
    PrefixTrieNode { prefix: n.prefix.clone(), is_unique: n.is_unique, is_end_of_id: n.is_end_of_id }
}

impl TaskPrefixRepository {
    /// The set of ids indexed so far.
    pub closed spec fn indexed_ids(&self) -> Set<Seq<char>> {
        self.ids@
    }

    /// The nodes of the index, keyed by prefix.
    pub closed spec fn view(&self) -> Map<Seq<char>, (bool, bool)> {
        flags_map(dashmap_nodes(self.nodes))
    }

    /// The index's invariant: its nodes are exactly those that indexing its ids yields.
    pub closed spec fn wf(&self) -> bool {
        &&& keyed_by_prefix(dashmap_nodes(self.nodes))
        &&& ids_well_formed(self.ids@)
        &&& flags_map(dashmap_nodes(self.nodes)) == index_map(self.ids@)
    }

    /// The nodes of a well-formed index are those that its ids yield.
    pub proof fn law_index_reflects_ids(&self)
        requires
            self.wf(),
        ensures
            self@ == index_map(self.indexed_ids()),
            ids_well_formed(self.indexed_ids()),
    {
    }

    /// An empty index.
    pub fn new() -> (r: TaskPrefixRepository)
        ensures
            r.wf(),
            r.indexed_ids() == Set::<Seq<char>>::empty(),
    {
        let r = TaskPrefixRepository { nodes: new_node_map(), ids: Ghost(Set::empty()) };
        assert(flags_map(dashmap_nodes(r.nodes)) =~= index_map(Set::empty()));
        r
    }

    /// Indexes one id, recording each node write in `writes`.
    fn add_id(&mut self, id: &String, writes: &mut Vec<NodeWrite>, Ghost(base): Ghost<Map<Seq<char>, (bool, bool)>>)
        requires
            old(self).wf(),
            is_ascii_chars(id@),
            writes_well_kinded(base, old(writes)@),
            apply_writes(base, old(writes)@) == flags_map(dashmap_nodes(old(self).nodes)),
        ensures
            final(self).wf(),
            final(self).ids@ == (if id@.len() > 0 { old(self).ids@.insert(id@) } else { old(self).ids@ }),
            writes_well_kinded(base, final(writes)@),
            apply_writes(base, final(writes)@) == flags_map(dashmap_nodes(final(self).nodes)),
    {
        let looked = node_under(&self.nodes, id.as_str());
        proof {
            lemma_lookup(dashmap_nodes(self.nodes), self.ids@, id@, looked);
        }
        if let Some(existing) = looked {
            if existing.is_end_of_id {
                proof {
                    assert(self.ids@.contains(id@));
                    assert(self.ids@.insert(id@) =~= self.ids@);
                }
                return;
            }
        }
        let ghost s = self.ids@;
        assert(!s.contains(id@)) by {
            if s.contains(id@) {
                assert(id@.subrange(0, id@.len() as int) =~= id@);
                assert(touches(id@, id@));
                assert(has_node(s, id@));
            }
        };
        let id_str = id.as_str();
        if id_str.is_empty() {
            return;
        }
        proof {
            lemma_partial_start(s, id@);
        }
        let n = id_str.unicode_len();
        let mut j: usize = 0;
        while j < n
            invariant
                j <= n,
                n == id@.len(),
                id_str@ == id@,
                n > 0,
                is_ascii_chars(id@),
                !s.contains(id@),
                ids_well_formed(s),
                self.ids@ == s,
                keyed_by_prefix(dashmap_nodes(self.nodes)),
                flags_map(dashmap_nodes(self.nodes)) == partial_map(s, id@, j + 1),
                writes_well_kinded(base, writes@),
                apply_writes(base, writes@) == flags_map(dashmap_nodes(self.nodes)),
            decreases n - j,
        {
            let i = j + 1;
            let is_final = i == n;
            if i < 2 && !is_final {
                proof {
                    assert forall|p: Seq<char>| touches(id@, p) implies p.len() != i by {}
                    assert(partial_map(s, id@, i + 1) =~= partial_map(s, id@, i as int));
                }
                j = j + 1;
                continue;
            }
            let prefix = id_str.substring_ascii(0, i).to_owned();
            let ghost p = prefix@;
            assert(touches(id@, p)) by {
                assert(id@.subrange(0, i as int) == p);
            };
            assert(p == id@ <==> is_final) by {
                if is_final {
                    assert(id@.subrange(0, n as int) =~= id@);
                }
            };
            assert(forall|q: Seq<char>| touches(id@, q) && q.len() == i ==> q == p) by {
                assert forall|q: Seq<char>| touches(id@, q) && q.len() == i implies q == p by {
                    lemma_prefix_of_len(id@, q, i as int);
                }
            };
            proof {
                lemma_partial_step(s, id@, i as int, p);
            }
            match node_under(&self.nodes, prefix.as_str()) {
                Some(found) => {
                    let ghost m0 = flags_map(dashmap_nodes(self.nodes));
                    assert(has_node(s, p));
                    assert(m0[p] == (unique_owner(s, p), s.contains(p)));
                    assert(found.prefix@ == p);
                    let mut node = found;
                    let mut changed = false;
                    if node.is_unique {
                        node.is_unique = false;
                        changed = true;
                    }
                    if is_final && !node.is_end_of_id {
                        node.is_end_of_id = true;
                        changed = true;
                    }
                    if changed {
                        let ghost old_map = dashmap_nodes(self.nodes);
                        put_node(&mut self.nodes, copy_string(&node.prefix), copy_node(&node));
                        let w = NodeWrite { node, is_new: false };
                        proof {
                            lemma_flags_insert(old_map, p, node_tuple(w.node));
                            lemma_apply_push(base, writes@, w);
                            assert(node_info(w.node) == (!has_node(s, p), s.contains(p) || p == id@));
                            assert(flags_map(dashmap_nodes(self.nodes)) == partial_map(s, id@, i + 1));
                        }
                        writes.push(w);
                    } else {
                        proof {
                            let m = flags_map(dashmap_nodes(self.nodes));
                            assert(m.insert(p, m[p]) =~= m);
                            assert(m[p] == (!has_node(s, p), s.contains(p) || p == id@));
                            assert(flags_map(dashmap_nodes(self.nodes)) == partial_map(s, id@, i + 1));
                        }
                    }
                },
                None => {
                    let node = PrefixTrieNode {
                        prefix,
                        is_unique: true,
                        is_end_of_id: is_final,
                    };
                    let ghost old_map = dashmap_nodes(self.nodes);
                    put_node(&mut self.nodes, copy_string(&node.prefix), copy_node(&node));
                    let w = NodeWrite { node, is_new: true };
                    proof {
                        lemma_flags_insert(old_map, p, node_tuple(w.node));
                        lemma_apply_push(base, writes@, w);
                        assert(!has_node(s, p));
                        if s.contains(p) {
                            assert(p.subrange(0, p.len() as int) =~= p);
                            assert(touches(p, p));
                        }
                        assert(!s.contains(p));
                        assert(flags_map(dashmap_nodes(self.nodes)) == partial_map(s, id@, i + 1));
                    }
                    writes.push(w);
                },
            }
            j = j + 1;
        }
        proof {
            lemma_partial_end(s, id@);
            self.ids@ = s.insert(id@);
        }
    }
}

impl TaskPrefixRepository {
    /// Indexes the given ids. Ids already indexed and empty ids change nothing.
    /// The returned writes, applied in order to the nodes the index held
    /// before, give the nodes it holds after; a write is marked new exactly
    /// when its prefix had no node yet.
    pub fn add_ids(&mut self, ids: &[String]) -> (writes: Vec<NodeWrite>)
        requires
            old(self).wf(),
            forall|j: int| 0 <= j < ids@.len() ==> is_ascii_chars(#[trigger] ids@[j]@),
        ensures
            final(self).wf(),
            final(self).indexed_ids() == with_ids(old(self).indexed_ids(), ids@),
            writes_well_kinded(old(self)@, writes@),
            apply_writes(old(self)@, writes@) == final(self)@,
    {
        let ghost base = flags_map(dashmap_nodes(self.nodes));
        let ghost s0 = self.ids@;
        let mut writes: Vec<NodeWrite> = Vec::new();
        proof {
            assert(with_ids(s0, ids@.take(0)) =~= s0);
        }
        let mut j: usize = 0;
        while j < ids.len()
            invariant
                j <= ids@.len(),
                forall|t: int| 0 <= t < ids@.len() ==> is_ascii_chars(#[trigger] ids@[t]@),
                self.wf(),
                self.ids@ == with_ids(s0, ids@.take(j as int)),
                writes_well_kinded(base, writes@),
                apply_writes(base, writes@) == flags_map(dashmap_nodes(self.nodes)),
            decreases ids@.len() - j,
        {
            let ghost before = self.ids@;
            self.add_id(&ids[j], &mut writes, Ghost(base));
            proof {
                let id = ids@[j as int]@;
                let next = with_ids(s0, ids@.take(j + 1));
                assert(ids@.take(j + 1) == ids@.take(j as int).push(ids@[j as int]));
                if id.len() > 0 {
                    assert(next =~= before.insert(id)) by {
                        assert(ids@.take(j + 1)[j as int]@ == id);
                        assert forall|x: Seq<char>| #[trigger] before.contains(x) implies next.contains(x) by {
                            if !s0.contains(x) {
                                let t = choose|t: int| 0 <= t < ids@.take(j as int).len()
                                    && #[trigger] ids@.take(j as int)[t]@ == x;
                                assert(ids@.take(j + 1)[t] == ids@.take(j as int)[t]);
                            }
                        }
                        assert forall|x: Seq<char>| #[trigger] next.contains(x) && x != id implies before.contains(x) by {
                            if !s0.contains(x) {
                                let t = choose|t: int| 0 <= t < ids@.take(j + 1).len()
                                    && #[trigger] ids@.take(j + 1)[t]@ == x;
                                assert(t != j);
                                assert(ids@.take(j + 1)[t] == ids@.take(j as int)[t]);
                            }
                        }
                    }
                } else {
                    assert(next =~= before) by {
                        assert forall|x: Seq<char>| #[trigger] before.contains(x) implies next.contains(x) by {
                            if !s0.contains(x) {
                                let t = choose|t: int| 0 <= t < ids@.take(j as int).len()
                                    && #[trigger] ids@.take(j as int)[t]@ == x;
                                assert(ids@.take(j + 1)[t] == ids@.take(j as int)[t]);
                            }
                        }
                        assert forall|x: Seq<char>| #[trigger] next.contains(x) implies before.contains(x) by {
                            if !s0.contains(x) {
                                let t = choose|t: int| 0 <= t < ids@.take(j + 1).len()
                                    && #[trigger] ids@.take(j + 1)[t]@ == x;
                                assert(t != j);
                                assert(ids@.take(j + 1)[t] == ids@.take(j as int)[t]);
                            }
                        }
                    }
                }
            }
            j = j + 1;
        }
        proof {
            assert(ids@.take(ids@.len() as int) =~= ids@);
        }
        writes
    }

    /// Whether `id` is an indexed id.
    pub fn contains(&self, id: &str) -> (r: bool)
        requires
            self.wf(),
        ensures
            r == self.indexed_ids().contains(id@),
    {
        let looked = node_under(&self.nodes, id);
        proof {
            lemma_lookup(dashmap_nodes(self.nodes), self.ids@, id@, looked);
        }
        match looked {
            Some(n) => n.is_end_of_id,
            None => {
                proof {
                    if self.ids@.contains(id@) {
                        assert(id@.subrange(0, id@.len() as int) =~= id@);
                        assert(touches(id@, id@));
                    }
                }
                false
            },
        }
    }

    /// The node of `prefix`, if the index has one.
    pub fn get_node(&self, prefix: &str) -> (r: Option<PrefixTrieNode>)
        requires
            self.wf(),
        ensures
            r is Some <==> self@.contains_key(prefix@),
            r matches Some(n) ==> n.prefix@ == prefix@ && self@[prefix@] == node_info(n),
    {
        node_under(&self.nodes, prefix)
    }

    /// The nodes whose prefix starts with `prefix`, each once, as the index
    /// holds them.
    pub fn search_by_prefix(&self, prefix: &str) -> (r: Vec<PrefixTrieNode>)
        requires
            self.wf(),
        ensures
            distinct_prefixes(r@),
            forall|i: int|
                0 <= i < r@.len() ==> is_prefix(prefix@, (#[trigger] r@[i]).prefix@)
                    && self@.contains_key(r@[i].prefix@) && self@[r@[i].prefix@] == node_info(r@[i]),
            forall|p: Seq<char>|
                #[trigger] self@.contains_key(p) && is_prefix(prefix@, p) ==> exists|i: int|
                    0 <= i < r@.len() && (#[trigger] r@[i]).prefix@ == p,
    {
        let ghost m = dashmap_nodes(self.nodes);
        let entries = node_entries(&self.nodes);
        let mut r: Vec<PrefixTrieNode> = Vec::new();
        let mut k: usize = 0;
        while k < entries.len()
            invariant
                k <= entries@.len(),
                m == dashmap_nodes(self.nodes),
                keyed_by_prefix(m),
                forall|i: int|
                    0 <= i < entries@.len() ==> m.dom().contains((#[trigger] entries@[i]).0@)
                        && m[entries@[i].0@] == node_tuple(entries@[i].1),
                forall|i: int, j: int|
                    0 <= i < entries@.len() && 0 <= j < entries@.len() && i != j ==> (
                    #[trigger] entries@[i]).0@ != (#[trigger] entries@[j]).0@,
                forall|i: int|
                    0 <= i < r@.len() ==> exists|j: int|
                        0 <= j < k && (#[trigger] r@[i]).prefix@ == entries@[j].0@,
                forall|i: int|
                    0 <= i < r@.len() ==> is_prefix(prefix@, (#[trigger] r@[i]).prefix@) && m.dom().contains(
                        r@[i].prefix@,
                    ) && m[r@[i].prefix@] == node_tuple(r@[i]),
                forall|j: int|
                    0 <= j < k && is_prefix(prefix@, (#[trigger] entries@[j]).0@) ==> exists|i: int|
                        0 <= i < r@.len() && r@[i].prefix@ == entries@[j].0@,
                distinct_prefixes(r@),
            decreases entries@.len() - k,
        {
            let key = &entries[k].0;
            let ghost e = entries@[k as int];
            assert(m.dom().contains(e.0@) && m[e.0@] == node_tuple(e.1));
            assert(e.1.prefix@ == e.0@);
            if str_starts_with(key.as_str(), prefix) {
                let ghost before = r@;
                r.push(copy_node(&entries[k].1));
                proof {
                    assert(e.0@.subrange(0, prefix@.len() as int) =~= e.0@.take(prefix@.len() as int));
                    assert(r@[before.len() as int] == e.1);
                    assert forall|i: int| 0 <= i < r@.len() implies exists|j: int|
                        0 <= j < k + 1 && (#[trigger] r@[i]).prefix@ == entries@[j].0@ by {
                        if i < before.len() {
                            assert(r@[i] == before[i]);
                            let j = choose|j: int| 0 <= j < k && (#[trigger] before[i]).prefix@ == entries@[j].0@;
                            assert(r@[i].prefix@ == entries@[j].0@);
                        } else {
                            assert(r@[i].prefix@ == entries@[k as int].0@);
                        }
                    }
                    assert forall|a: int, b: int|
                        0 <= a < r@.len() && 0 <= b < r@.len() && a != b implies #[trigger] r@[a].prefix@
                            != #[trigger] r@[b].prefix@ by {
                        if a < before.len() && b < before.len() {
                            assert(r@[a] == before[a]);
                            assert(r@[b] == before[b]);
                        } else if a < before.len() {
                            let j = choose|j: int| 0 <= j < k && (#[trigger] before[a]).prefix@ == entries@[j].0@;
                            assert(r@[a] == before[a]);
                            assert(entries@[j].0@ != entries@[k as int].0@);
                        } else if b < before.len() {
                            let j = choose|j: int| 0 <= j < k && (#[trigger] before[b]).prefix@ == entries@[j].0@;
                            assert(r@[b] == before[b]);
                            assert(entries@[j].0@ != entries@[k as int].0@);
                        }
                    }
                    assert forall|j: int|
                        0 <= j < k + 1 && is_prefix(prefix@, (#[trigger] entries@[j]).0@) implies exists|i: int|
                            0 <= i < r@.len() && r@[i].prefix@ == entries@[j].0@ by {
                        if j < k {
                            let i = choose|i: int| 0 <= i < before.len() && before[i].prefix@ == entries@[j].0@;
                            assert(r@[i] == before[i]);
                        } else {
                            assert(r@[before.len() as int].prefix@ == entries@[j].0@);
                        }
                    }
                }
            } else {
                proof {
                    assert(e.0@.subrange(0, prefix@.len() as int) =~= e.0@.take(prefix@.len() as int));
                }
            }
            k = k + 1;
        }
        proof {
            assert forall|p: Seq<char>|
                #[trigger] self@.contains_key(p) && is_prefix(prefix@, p) implies exists|i: int|
                    0 <= i < r@.len() && (#[trigger] r@[i]).prefix@ == p by {
                assert(m.dom().contains(p));
                let j = choose|j: int| 0 <= j < entries@.len() && (#[trigger] entries@[j]).0@ == p;
                let i = choose|i: int| 0 <= i < r@.len() && r@[i].prefix@ == entries@[j].0@;
            }
        }
        r
    }

    /// The shortest prefix of `id`, two characters or longer, that no other
    /// indexed id shares; `id` itself when no such prefix exists or when `id`
    /// is not indexed.
    pub fn find_shortest_unique_prefix(&self, id: &str) -> (r: String)
        requires
            self.wf(),
        ensures
            r@ == shortest_unique_prefix(self.indexed_ids(), id@),
    {
        if !self.contains(id) {
            return id.to_owned();
        }
        let ghost s = self.ids@;
        assert(is_ascii_chars(id@));
        let n = id.unicode_len();
        let mut j: usize = 1;
        while j < n
            invariant
                1 <= j <= n,
                n == id@.len(),
                s == self.ids@,
                self.wf(),
                s.contains(id@),
                is_ascii_chars(id@),
                unique_prefix_from(s, id@, 2) == unique_prefix_from(s, id@, j + 1),
            decreases n - j,
        {
            let i = j + 1;
            let prefix = id.substring_ascii(0, i).to_owned();
            let ghost p = prefix@;
            assert(touches(id@, p)) by {
                assert(id@.subrange(0, i as int) == p);
            };
            let looked = node_under(&self.nodes, prefix.as_str());
            proof {
                lemma_lookup(dashmap_nodes(self.nodes), self.ids@, p, looked);
            }
            match looked {
                Some(n) => {
                    if n.is_unique {
                        assert(unique_owner(s, id@.subrange(0, i as int)));
                        return prefix;
                    }
                    assert(!unique_owner(s, id@.subrange(0, i as int)));
                },
                None => {
                    assert(has_node(s, p));
                    return id.to_owned();
                },
            }
            j = j + 1;
        }
        id.to_owned()
    }
}

/// Indexing ids only adds: every id indexed before stays indexed, and every
/// non-empty id just indexed is indexed.
pub proof fn law_indexed_ids_are_contained(before: Set<Seq<char>>, ids: Seq<String>)
    ensures
        forall|x: Seq<char>| before.contains(x) ==> #[trigger] with_ids(before, ids).contains(x),
        forall|j: int|
            0 <= j < ids.len() && ids[j]@.len() > 0 ==> with_ids(before, ids).contains(#[trigger] ids[j]@),
{
}

/// Indexing ids that are all indexed already, or empty, changes nothing.
pub proof fn law_reindexing_changes_nothing(before: Set<Seq<char>>, ids: Seq<String>)
    requires
        forall|j: int| 0 <= j < ids.len() ==> (#[trigger] ids[j])@.len() == 0 || before.contains(ids[j]@),
    ensures
        with_ids(before, ids) == before,
{
    assert(with_ids(before, ids) =~= before);
}

proof fn lemma_unique_prefix_from(ids: Set<Seq<char>>, id: Seq<char>, k: int)
    requires
        k >= 2,
    ensures
        ({
            let r = unique_prefix_from(ids, id, k);
            &&& is_prefix(r, id)
            &&& r == id || (k <= r.len() && unique_owner(ids, r))
            &&& forall|t: int| k <= t < r.len() ==> !#[trigger] unique_owner(ids, id.subrange(0, t))
        }),
    decreases id.len() + 1 - k,
{
    if k > id.len() {
        assert(id.subrange(0, id.len() as int) =~= id);
    } else if unique_owner(ids, id.subrange(0, k)) {
    } else {
        lemma_unique_prefix_from(ids, id, k + 1);
        let r = unique_prefix_from(ids, id, k + 1);
        if r == id {
            assert(id.subrange(0, id.len() as int) =~= id);
        }
    }
}

/// The prefix that `find_shortest_unique_prefix` reports for an indexed id is a
/// prefix of that id; when it is shorter than the id, no other indexed id
/// starts with it; and no shorter prefix of two characters or more is unique.
pub proof fn law_shortest_prefix_names_one_id(ids: Set<Seq<char>>, id: Seq<char>)
    requires
        ids_well_formed(ids),
        ids.contains(id),
    ensures
        ({
            let r = shortest_unique_prefix(ids, id);
            &&& is_prefix(r, id)
            &&& r != id ==> (forall|y: Seq<char>| #[trigger] ids.contains(y) && is_prefix(r, y) ==> y == id)
            &&& forall|t: int| 2 <= t < r.len() ==> !#[trigger] unique_owner(ids, id.subrange(0, t))
        }),
{
    lemma_unique_prefix_from(ids, id, 2);
    let r = shortest_unique_prefix(ids, id);
    if r != id {
        assert forall|y: Seq<char>| #[trigger] ids.contains(y) && is_prefix(r, y) implies y == id by {
            let o = choose|o: Seq<char>|
                #[trigger] ids.contains(o) && touches(o, r) && (forall|z: Seq<char>|
                    #[trigger] ids.contains(z) && touches(z, r) ==> z == o);
            assert(touches(id, r));
            assert(touches(y, r));
        }
    }
}

/// Indexing the same ids again changes nothing: when `first` is the index
/// after `add_ids(ids)` and `second` the index after a second
/// `add_ids(ids)`, with `writes` what that second call returned, the indexed
/// ids and the nodes stay as they were, and the writes, applied to the
/// nodes, leave them as they are (no node loses `is_unique`).
pub proof fn law_add_ids_twice_changes_nothing(
    first: &TaskPrefixRepository,
    second: &TaskPrefixRepository,
    before: Set<Seq<char>>,
    ids: Seq<String>,
    writes: Seq<NodeWrite>,
)
    requires
        first.wf(),
        first.indexed_ids() == with_ids(before, ids),
        second.wf(),
        second.indexed_ids() == with_ids(first.indexed_ids(), ids),
        apply_writes(first@, writes) == second@,
    ensures
        second.indexed_ids() == first.indexed_ids(),
        second@ == first@,
        apply_writes(first@, writes) == first@,
{
    law_indexed_ids_are_contained(before, ids);
    law_reindexing_changes_nothing(first.indexed_ids(), ids);
}

} // verus!
