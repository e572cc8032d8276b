//! The routing trie: maps (method, path) to a registered handler.
//!
//! Children are keyed by literal text or a single wildcard key; lookup
//! prefers an exact literal child over the wildcard child at every level,
//! so a specific route overrides a more general pattern without explicit
//! priorities.  Handlers are registered as opaque identifiers; the embedding
//! program maps each identifier to the code it stands for.
use vstd::prelude::*;
use crate::error::{Error, ErrorKind};
use crate::path_template::{seg_views, PathSegment};
use crate::procedure::EntryPoint;
use crate::strutil::str_eq;
use crate::types::{HttpMethod, HttpStatus};

verus! {

/// One node of the trie: children keyed by literal text (or the wildcard
/// key `None`), and one handler per method at this node.
pub struct TrieNode {
    /// The children, keyed by literal segment text or the wildcard key.
    pub children: Vec<(Option<&'static str>, TrieNode)>,

    /// The handlers reachable at this node, one per method.
    pub leafs: Vec<(HttpMethod, u64)>,
}

/// The abstract form of a child key: literal text or the wildcard.
pub open spec fn key_view(k: Option<&'static str>) -> Option<Seq<char>> {
    match k {
        Some(s) => Some(s@),
        None => None,
    }
}

/// The abstract form of a lookup key.
pub open spec fn lookup_key_view(k: Option<&str>) -> Option<Seq<char>> {
    match k {
        Some(s) => Some(s@),
        None => None,
    }
}

/// Compares a stored child key against a lookup key.
fn key_match(a: &Option<&'static str>, b: Option<&str>) -> (r: bool)
    ensures
        r == (key_view(*a) == lookup_key_view(b)),
{
    match (a, b) {
        (Some(x), Some(y)) => str_eq(x, y),
        (None, None) => true,
        _ => false,
    }
}

/// The index of the first child with the given key, or `-1`.
pub open spec fn find_child_idx(
    children: Seq<(Option<&'static str>, TrieNode)>,
    key: Option<Seq<char>>,
) -> int
    decreases children.len(),
{
    if children.len() == 0 {
        -1
    } else if key_view(children[0].0) == key {
        0
    } else {
        let r = find_child_idx(children.skip(1), key);
        if r == -1 {
            -1
        } else {
            r + 1
        }
    }
}

/// The first child with the given key, if any.
pub open spec fn find_child(
    children: Seq<(Option<&'static str>, TrieNode)>,
    key: Option<Seq<char>>,
) -> Option<TrieNode> {
    if find_child_idx(children, key) >= 0 {
        Some(children[find_child_idx(children, key)].1)
    } else {
        None
    }
}

/// The found index is in range and is the first match.
pub proof fn lemma_find_child_idx(children: Seq<(Option<&'static str>, TrieNode)>, key: Option<
    Seq<char>,
>)
    ensures
        ({
            let j = find_child_idx(children, key);
            &&& -1 <= j < children.len()
            &&& j >= 0 ==> key_view(children[j].0) == key
            &&& forall|k: int| 0 <= k < children.len() && key_view(children[k].0) == key ==> j >= 0
                && j <= k
        }),
    decreases children.len(),
{
    if children.len() > 0 {
        lemma_find_child_idx(children.skip(1), key);
        assert(forall|k: int| 1 <= k < children.len() ==> children.skip(1)[k - 1] == children[k]);
    }
}

/// The handler under a method, if any.
pub open spec fn find_leaf(leafs: Seq<(HttpMethod, u64)>, m: HttpMethod) -> Option<u64>
    decreases leafs.len(),
{
    if leafs.len() == 0 {
        None
    } else if leafs[0].0 == m {
        Some(leafs[0].1)
    } else {
        find_leaf(leafs.skip(1), m)
    }
}

/// What a lookup returns: the handler at the resolved node, or the status
/// for a failed resolution.  At each level an exact literal child is
/// preferred over the wildcard child; a level with neither is `NotFound`; a
/// resolved node without the method is `MethodNotAllowed`.
pub open spec fn spec_route(
    node: TrieNode,
    segs: Seq<Seq<char>>,
    i: int,
    m: HttpMethod,
) -> Result<u64, HttpStatus>
    decreases segs.len() - i,
{
    if i < 0 || i >= segs.len() {
        match find_leaf(node.leafs@, m) {
            Some(h) => Ok(h),
            None => Err(HttpStatus::MethodNotAllowed),
        }
    } else {
        match find_child(node.children@, Some(segs[i])) {
            Some(c) => spec_route(c, segs, i + 1, m),
            None => match find_child(node.children@, None) {
                Some(c) => spec_route(c, segs, i + 1, m),
                None => Err(HttpStatus::NotFound),
            },
        }
    }
}

/// Whether the trie holds a handler for exactly this key path and method.
pub open spec fn has_route(
    node: TrieNode,
    keys: Seq<Option<Seq<char>>>,
    i: int,
    m: HttpMethod,
) -> bool
    decreases keys.len() - i,
{
    if i < 0 || i >= keys.len() {
        find_leaf(node.leafs@, m) is Some
    } else {
        match find_child(node.children@, keys[i]) {
            Some(c) => has_route(c, keys, i + 1, m),
            None => false,
        }
    }
}

/// A fresh subtree holding exactly one route: a single-child chain along
/// the remaining keys, ending in one leaf.
pub open spec fn is_chain(
    node: TrieNode,
    keys: Seq<Option<Seq<char>>>,
    i: int,
    m: HttpMethod,
    h: u64,
) -> bool
    decreases keys.len() - i,
{
    if i < 0 || i >= keys.len() {
        node.children@.len() == 0 && node.leafs@ == seq![(m, h)]
    } else {
        node.leafs@.len() == 0 && node.children@.len() == 1 && key_view(node.children@[0].0)
            == keys[i] && is_chain(node.children@[0].1, keys, i + 1, m, h)
    }
}

/// How a tree changes when one route is inserted along the keys from
/// position `i`: one child chain is entered or created, everything else is
/// untouched, and the new leaf lands where the keys end.
pub open spec fn inserted_rel(
    oldn: TrieNode,
    newn: TrieNode,
    keys: Seq<Option<Seq<char>>>,
    i: int,
    m: HttpMethod,
    h: u64,
) -> bool
    decreases keys.len() - i,
{
    if i < 0 || i >= keys.len() {
        &&& newn.children@ == oldn.children@
        &&& newn.leafs@ == oldn.leafs@.push((m, h))
        &&& find_leaf(oldn.leafs@, m) is None
    } else {
        let j = find_child_idx(oldn.children@, keys[i]);
        &&& newn.leafs@ == oldn.leafs@
        &&& if j >= 0 {
            &&& newn.children@.len() == oldn.children@.len()
            &&& newn.children@ == oldn.children@.update(
                j,
                (oldn.children@[j].0, newn.children@[j].1),
            )
            &&& inserted_rel(oldn.children@[j].1, newn.children@[j].1, keys, i + 1, m, h)
        } else {
            &&& newn.children@.len() == oldn.children@.len() + 1
            &&& newn.children@.subrange(0, oldn.children@.len() as int) == oldn.children@
            &&& key_view(newn.children@.last().0) == keys[i]
            &&& is_chain(newn.children@.last().1, keys, i + 1, m, h)
        }
    }
}

proof fn lemma_find_leaf_push(leafs: Seq<(HttpMethod, u64)>, m: HttpMethod, p: (HttpMethod, u64))
    ensures
        find_leaf(leafs, m) is Some ==> find_leaf(leafs.push(p), m) == find_leaf(leafs, m),
        find_leaf(leafs, m) is None && p.0 == m ==> find_leaf(leafs.push(p), m) == Some(p.1),
        find_leaf(leafs, m) is None && p.0 != m ==> find_leaf(leafs.push(p), m) is None,
    decreases leafs.len(),
{
    let lp = leafs.push(p);
    assert(lp.len() == leafs.len() + 1);
    if leafs.len() == 0 {
        assert(lp[0] == p);
        assert(lp.skip(1) =~= Seq::<(HttpMethod, u64)>::empty());
        assert(find_leaf(lp.skip(1), m) is None);
        assert(find_leaf(lp, m) == (if lp[0].0 == m {
            Some(lp[0].1)
        } else {
            find_leaf(lp.skip(1), m)
        }));
    } else {
        lemma_find_leaf_push(leafs.skip(1), m, p);
        assert(lp[0] == leafs[0]);
        assert(lp.skip(1) =~= leafs.skip(1).push(p));
        assert(find_leaf(lp, m) == (if lp[0].0 == m {
            Some(lp[0].1)
        } else {
            find_leaf(lp.skip(1), m)
        }));
        assert(find_leaf(leafs, m) == (if leafs[0].0 == m {
            Some(leafs[0].1)
        } else {
            find_leaf(leafs.skip(1), m)
        }));
    }
}

proof fn lemma_find_child_idx_congruence(
    c1: Seq<(Option<&'static str>, TrieNode)>,
    c2: Seq<(Option<&'static str>, TrieNode)>,
    key: Option<Seq<char>>,
)
    requires
        c1.len() == c2.len(),
        forall|k: int| 0 <= k < c1.len() ==> key_view(c1[k].0) == key_view(#[trigger] c2[k].0),
    ensures
        find_child_idx(c1, key) == find_child_idx(c2, key),
    decreases c1.len(),
{
    if c1.len() > 0 {
        lemma_find_child_idx_congruence(c1.skip(1), c2.skip(1), key);
        assert(forall|k: int| 1 <= k < c1.len() ==> c1.skip(1)[k - 1] == c1[k]);
        assert(forall|k: int| 1 <= k < c2.len() ==> c2.skip(1)[k - 1] == c2[k]);
        assert(key_view(c1[0].0) == key_view(c2[0].0));
    }
}

proof fn lemma_find_child_idx_push(
    children: Seq<(Option<&'static str>, TrieNode)>,
    p: (Option<&'static str>, TrieNode),
    key: Option<Seq<char>>,
)
    ensures
        find_child_idx(children, key) >= 0 ==> find_child_idx(children.push(p), key)
            == find_child_idx(children, key),
        find_child_idx(children, key) == -1 && key_view(p.0) == key ==> find_child_idx(
            children.push(p),
            key,
        ) == children.len(),
        find_child_idx(children, key) == -1 && key_view(p.0) != key ==> find_child_idx(
            children.push(p),
            key,
        ) == -1,
    decreases children.len(),
{
    let cp = children.push(p);
    assert(cp.len() == children.len() + 1);
    if children.len() == 0 {
        assert(cp[0] == p);
        assert(cp.skip(1) =~= Seq::<(Option<&'static str>, TrieNode)>::empty());
        assert(find_child_idx(cp.skip(1), key) == -1);
        assert(find_child_idx(cp, key) == (if key_view(cp[0].0) == key {
            0int
        } else {
            let r = find_child_idx(cp.skip(1), key);
            if r == -1 {
                -1int
            } else {
                r + 1
            }
        }));
    } else {
        lemma_find_child_idx_push(children.skip(1), p, key);
        lemma_find_child_idx(children, key);
        lemma_find_child_idx(children.skip(1), key);
        assert(cp[0] == children[0]);
        assert(cp.skip(1) =~= children.skip(1).push(p));
        assert(find_child_idx(cp.skip(1), key) == find_child_idx(children.skip(1).push(p), key));
        assert(find_child_idx(cp, key) == (if key_view(cp[0].0) == key {
            0int
        } else {
            let r = find_child_idx(cp.skip(1), key);
            if r == -1 {
                -1int
            } else {
                r + 1
            }
        }));
        assert(find_child_idx(children, key) == (if key_view(children[0].0) == key {
            0int
        } else {
            let r = find_child_idx(children.skip(1), key);
            if r == -1 {
                -1int
            } else {
                r + 1
            }
        }));
        if key_view(children[0].0) == key {
            assert(find_child_idx(children, key) == 0);
            assert(find_child_idx(cp, key) == 0);
        } else if find_child_idx(children.skip(1), key) == -1 {
            assert(find_child_idx(children, key) == -1);
            if key_view(p.0) == key {
                assert(find_child_idx(children.skip(1).push(p), key) == children.skip(1).len());
                assert(find_child_idx(cp, key) == children.len());
            } else {
                assert(find_child_idx(children.skip(1).push(p), key) == -1);
                assert(find_child_idx(cp, key) == -1);
            }
        } else {
            let r0 = find_child_idx(children.skip(1), key);
            assert(find_child_idx(children, key) == r0 + 1);
            assert(find_child_idx(children.skip(1).push(p), key) == r0);
            assert(find_child_idx(cp, key) == r0 + 1);
        }
    }
}

proof fn lemma_chain_has_route(
    node: TrieNode,
    keys: Seq<Option<Seq<char>>>,
    i: int,
    m: HttpMethod,
    h: u64,
)
    requires
        is_chain(node, keys, i, m, h),
    ensures
        has_route(node, keys, i, m),
    decreases keys.len() - i,
{
    if i < 0 || i >= keys.len() {
        assert(find_leaf(node.leafs@, m) == Some(h));
    } else {
        lemma_chain_has_route(node.children@[0].1, keys, i + 1, m, h);
        assert(find_child_idx(node.children@, keys[i]) == 0);
    }
}

/// Whether a key path admits a segment list: same length, each literal key
/// pinning its segment, each wildcard admitting anything.
pub open spec fn keys_admit(keys: Seq<Option<Seq<char>>>, segs: Seq<Seq<char>>) -> bool {
    &&& segs.len() == keys.len()
    &&& forall|j: int|
        0 <= j < keys.len() ==> ((#[trigger] keys[j]) matches Some(t) ==> segs[j] == t)
}

proof fn lemma_chain_route(
    node: TrieNode,
    keys: Seq<Option<Seq<char>>>,
    i: int,
    m: HttpMethod,
    h: u64,
    segs: Seq<Seq<char>>,
)
    requires
        0 <= i,
        is_chain(node, keys, i, m, h),
        keys_admit(keys, segs),
    ensures
        spec_route(node, segs, i, m) == Ok::<u64, HttpStatus>(h),
    decreases keys.len() - i,
{
    if i >= keys.len() {
        assert(node.leafs@ == seq![(m, h)]);
        assert(node.leafs@[0] == (m, h));
        assert(find_leaf(node.leafs@, m) == Some(h));
    } else {
        let child = node.children@[0].1;
        lemma_chain_route(child, keys, i + 1, m, h, segs);
        lemma_find_child_idx(node.children@, Some(segs[i]));
        lemma_find_child_idx(node.children@, None);
        match keys[i] {
            Some(t) => {
                assert(segs[i] == t);
                assert(key_view(node.children@[0].0) == Some(segs[i]));
                assert(find_child_idx(node.children@, Some(segs[i])) == 0);
                assert(find_child(node.children@, Some(segs[i])) == Some(child));
            },
            None => {
                assert(key_view(node.children@[0].0) is None);
                assert(find_child_idx(node.children@, Some(segs[i])) == -1) by {
                    let j = find_child_idx(node.children@, Some(segs[i]));
                    if j >= 0 {
                        assert(key_view(node.children@[j].0) == Some(segs[i]));
                        assert(j == 0);
                    }
                }
                assert(find_child_idx(node.children@, None) == 0);
                assert(find_child(node.children@, None) == Some(child));
            },
        }
    }
}

/// A route registered into an empty table is not only present but found: a
/// lookup with any segment list its key path admits returns its handler.
pub proof fn lemma_fresh_route_dispatch(
    oldn: TrieNode,
    newn: TrieNode,
    keys: Seq<Option<Seq<char>>>,
    m: HttpMethod,
    h: u64,
    segs: Seq<Seq<char>>,
)
    requires
        oldn.children@.len() == 0,
        oldn.leafs@.len() == 0,
        inserted_rel(oldn, newn, keys, 0, m, h),
        keys_admit(keys, segs),
    ensures
        spec_route(newn, segs, 0, m) == Ok::<u64, HttpStatus>(h),
{
    assert(is_chain(newn, keys, 0, m, h)) by {
        if keys.len() == 0 {
            assert(newn.leafs@ =~= seq![(m, h)]);
        } else {
            lemma_find_child_idx(oldn.children@, keys[0]);
            assert(find_child_idx(oldn.children@, keys[0]) == -1);
            assert(newn.children@.len() == 1);
            assert(newn.children@[0] == newn.children@.last());
        }
    }
    lemma_chain_route(newn, keys, 0, m, h, segs);
}

/// Routing precedence: at any level where an exact literal child exists for
/// the segment, lookup descends that child — the wildcard child, present or
/// not, is never consulted there.  A specific route therefore overrides a
/// more general pattern without explicit priorities.
pub proof fn lemma_literal_preferred(node: TrieNode, segs: Seq<Seq<char>>, i: int, m: HttpMethod)
    requires
        0 <= i < segs.len(),
        find_child(node.children@, Some(segs[i])) is Some,
    ensures
        spec_route(node, segs, i, m) == spec_route(
            find_child(node.children@, Some(segs[i])).unwrap(),
            segs,
            i + 1,
            m,
        ),
{
}

/// What a successful registration guarantees: the handler is now reachable
/// under exactly the keys and method it was registered for.  Together with
/// `lemma_insert_preserves` and the contract of `register_handler`, this
/// says that registering the same method and entry point twice fails at the
/// second registration, regardless of the order and of any other
/// registrations in between.
pub proof fn lemma_insert_establishes(
    oldn: TrieNode,
    newn: TrieNode,
    keys: Seq<Option<Seq<char>>>,
    i: int,
    m: HttpMethod,
    h: u64,
)
    requires
        inserted_rel(oldn, newn, keys, i, m, h),
    ensures
        has_route(newn, keys, i, m),
    decreases keys.len() - i,
{
    if i < 0 || i >= keys.len() {
        lemma_find_leaf_push(oldn.leafs@, m, (m, h));
    } else {
        let j = find_child_idx(oldn.children@, keys[i]);
        lemma_find_child_idx(oldn.children@, keys[i]);
        if j >= 0 {
            lemma_insert_establishes(oldn.children@[j].1, newn.children@[j].1, keys, i + 1, m, h);
            lemma_find_child_idx_congruence(newn.children@, oldn.children@, keys[i]);
            assert(find_child_idx(newn.children@, keys[i]) == j);
        } else {
            let p = newn.children@.last();
            lemma_chain_has_route(p.1, keys, i + 1, m, h);
            assert(newn.children@.subrange(0, oldn.children@.len() as int)
                == oldn.children@);
            assert(forall|k: int| 0 <= k < oldn.children@.len() ==> newn.children@[k]
                == #[trigger] oldn.children@[k]);
            assert(newn.children@ =~= oldn.children@.push(p));
            lemma_find_child_idx_push(oldn.children@, p, keys[i]);
            assert(find_child_idx(newn.children@, keys[i]) == oldn.children@.len());
        }
    }
}

/// What a registration cannot do: any route that was reachable before a
/// registration is still reachable, under the same keys and method, after
/// it.  This is the other half of conflict detection: earlier registrations
/// are never displaced, so a later duplicate still collides.
pub proof fn lemma_insert_preserves(
    oldn: TrieNode,
    newn: TrieNode,
    kb: Seq<Option<Seq<char>>>,
    mb: HttpMethod,
    hb: u64,
    ka: Seq<Option<Seq<char>>>,
    ma: HttpMethod,
    i: int,
)
    requires
        inserted_rel(oldn, newn, kb, i, mb, hb),
        has_route(oldn, ka, i, ma),
    ensures
        has_route(newn, ka, i, ma),
    decreases ka.len() - i,
{
    if i < 0 || i >= ka.len() {
        if i < 0 || i >= kb.len() {
            lemma_find_leaf_push(oldn.leafs@, ma, (mb, hb));
        }
    } else {
        let ja = find_child_idx(oldn.children@, ka[i]);
        lemma_find_child_idx(oldn.children@, ka[i]);
        assert(ja >= 0);
        if i >= kb.len() {
            assert(newn.children@ == oldn.children@);
        } else {
            let jb = find_child_idx(oldn.children@, kb[i]);
            lemma_find_child_idx(oldn.children@, kb[i]);
            if jb >= 0 {
                lemma_find_child_idx_congruence(newn.children@, oldn.children@, ka[i]);
                assert(find_child_idx(newn.children@, ka[i]) == ja);
                if ja == jb {
                    assert(ka[i] == kb[i]);
                    lemma_insert_preserves(
                        oldn.children@[jb].1,
                        newn.children@[jb].1,
                        kb,
                        mb,
                        hb,
                        ka,
                        ma,
                        i + 1,
                    );
                } else {
                    assert(newn.children@[ja] == oldn.children@[ja]);
                }
            } else {
                let p = newn.children@.last();
                assert(forall|k: int| 0 <= k < oldn.children@.len() ==> newn.children@[k]
                    == #[trigger] oldn.children@[k]) by {
                    assert(newn.children@.subrange(0, oldn.children@.len() as int)
                        == oldn.children@);
                }
                assert(newn.children@ =~= oldn.children@.push(p));
                lemma_find_child_idx_push(oldn.children@, p, ka[i]);
                assert(find_child_idx(newn.children@, ka[i]) == ja);
                assert(newn.children@[ja] == oldn.children@[ja]);
            }
        }
    }
}

impl TrieNode {
    /// Makes a new node with no children and no handlers.
    pub fn new() -> (r: TrieNode)
        ensures
            r.children@.len() == 0,
            r.leafs@.len() == 0,
    {
        TrieNode { children: Vec::new(), leafs: Vec::new() }
    }

    /// The child a segment resolves to: the exact literal child if one
    /// exists, else the wildcard child, else nothing.
    pub fn get_child(&self, segment: &str) -> (r: Option<&TrieNode>)
        ensures
            ({
                let lit = find_child(self.children@, Some(segment@));
                let wild = find_child(self.children@, None);
                match r {
                    Some(c) => (lit is Some && lit == Some(*c)) || (lit is None && wild == Some(
                        *c,
                    )),
                    None => lit is None && wild is None,
                }
            }),
    {
        match self.find_child_exec(Some(segment)) {
            Some(c) => Some(c),
            None => self.find_child_exec(None),
        }
    }

    /// Finds the first child with exactly the given key.
    fn find_child_exec(&self, key: Option<&str>) -> (r: Option<&TrieNode>)
        ensures
            ({
                let kv = match key {
                    Some(s) => Some(s@),
                    None => None::<Seq<char>>,
                };
                match r {
                    Some(c) => find_child(self.children@, kv) == Some(*c),
                    None => find_child(self.children@, kv) is None,
                }
            }),
    {
        let ghost kv = lookup_key_view(key);
        let n: usize = self.children.len();
        let mut i: usize = 0;
        proof {
            lemma_find_child_idx(self.children@, kv);
        }
        while i < n
            invariant
                kv == lookup_key_view(key),
                i <= n,
                n == self.children@.len(),
                forall|k: int| 0 <= k < i ==> key_view(self.children@[k].0) != kv,
                -1 <= find_child_idx(self.children@, kv) < n,
                find_child_idx(self.children@, kv) >= 0 ==> key_view(
                    self.children@[find_child_idx(self.children@, kv)].0,
                ) == kv,
                forall|k: int|
                    0 <= k < n && key_view(self.children@[k].0) == kv ==> find_child_idx(
                        self.children@,
                        kv,
                    ) >= 0 && find_child_idx(self.children@, kv) <= k,
            decreases n - i,
        {
            let pair = &self.children[i];
            proof {
                assert(*pair == self.children@[i as int]);
            }
            let hit = key_match(&pair.0, key);
            proof {
                assert(hit == (key_view(pair.0) == kv));
            }
            if hit {
                proof {
                    assert(key_view(self.children@[i as int].0) == kv);
                    assert(find_child_idx(self.children@, kv) == i);
                }
                return Some(&pair.1);
            }
            i = i + 1;
        }
        proof {
            if find_child_idx(self.children@, kv) >= 0 {
                assert(key_view(self.children@[find_child_idx(self.children@, kv)].0) == kv);
            }
        }
        None
    }

    /// The handler registered at this node under the method, if any.
    pub fn get_value(&self, method: HttpMethod) -> (r: Option<u64>)
        ensures
            r == find_leaf(self.leafs@, method),
    {
        let n: usize = self.leafs.len();
        let mut i: usize = 0;
        proof {
            assert(self.leafs@.skip(0) =~= self.leafs@);
        }
        while i < n
            invariant
                i <= n,
                n == self.leafs@.len(),
                find_leaf(self.leafs@, method) == find_leaf(self.leafs@.skip(i as int), method),
            decreases n - i,
        {
            let ghost tail = self.leafs@.skip(i as int);
            proof {
                assert(tail[0] == self.leafs@[i as int]);
                assert(tail.skip(1) =~= self.leafs@.skip(i + 1));
            }
            if self.leafs[i].0 == method {
                return Some(self.leafs[i].1);
            }
            i = i + 1;
        }
        proof {
            assert(self.leafs@.skip(n as int) =~= Seq::<(HttpMethod, u64)>::empty());
        }
        None
    }
}

/// Builds the single-route chain for the remaining keys.
fn make_chain(keys: &Vec<Option<&'static str>>, i: usize, m: HttpMethod, h: u64) -> (r: TrieNode)
    requires
        i <= keys@.len(),
    ensures
        is_chain(r, keys_view(keys@), i as int, m, h),
    decreases keys@.len() - i,
{
    if i == keys.len() {
        let mut node = TrieNode::new();
        node.leafs.push((m, h));
        proof {
            assert(node.leafs@ =~= seq![(m, h)]);
        }
        node
    } else {
        let child = make_chain(keys, i + 1, m, h);
        let mut node = TrieNode::new();
        node.children.push((keys[i], child));
        proof {
            assert(key_view(node.children@[0].0) == keys_view(keys@)[i as int]);
        }
        node
    }
}

/// The abstract form of a key list.
pub open spec fn keys_view(keys: Seq<Option<&'static str>>) -> Seq<Option<Seq<char>>> {
    keys.map_values(|k: Option<&'static str>| key_view(k))
}

/// Whether a handler already sits at exactly this key path and method.
fn has_route_exec(node: &TrieNode, keys: &Vec<Option<&'static str>>, i: usize, m: HttpMethod) -> (r:
    bool)
    requires
        i <= keys@.len(),
    ensures
        r == has_route(*node, keys_view(keys@), i as int, m),
    decreases keys@.len() - i,
{
    if i == keys.len() {
        node.get_value(m).is_some()
    } else {
        proof {
            assert(keys_view(keys@)[i as int] == key_view(keys@[i as int]));
            lemma_find_child_idx(node.children@, keys_view(keys@)[i as int]);
        }
        match node.find_child_index(keys[i]) {
            Some(idx) => has_route_exec(&node.children[idx].1, keys, i + 1, m),
            None => false,
        }
    }
}

/// Inserts a route along the keys from position `i`; the (path, method)
/// pair must still be free.
fn insert_at(node: &mut TrieNode, keys: &Vec<Option<&'static str>>, i: usize, m: HttpMethod, h: u64)
    requires
        i <= keys@.len(),
        !has_route(*old(node), keys_view(keys@), i as int, m),
    ensures
        inserted_rel(*old(node), *final(node), keys_view(keys@), i as int, m, h),
    decreases keys@.len() - i,
{
    let ghost kv = keys_view(keys@);
    if i == keys.len() {
        node.leafs.push((m, h));
    } else {
        proof {
            assert(kv[i as int] == key_view(keys@[i as int]));
        }
        let ghost j = find_child_idx(node.children@, kv[i as int]);
        proof {
            lemma_find_child_idx(node.children@, kv[i as int]);
        }
        match node.find_child_index(keys[i]) {
            Some(idx) => {
                proof {
                    assert(j == idx);
                }
                let ghost children0 = node.children@;
                let mut pair = node.children.remove(idx);
                proof {
                    assert(pair == children0[idx as int]);
                }
                insert_at(&mut pair.1, keys, i + 1, m, h);
                node.children.insert(idx, pair);
                proof {
                    assert(node.children@ =~= children0.update(
                        idx as int,
                        (children0[idx as int].0, node.children@[idx as int].1),
                    ));
                }
            },
            None => {
                let child = make_chain(keys, i + 1, m, h);
                let ghost children0 = node.children@;
                node.children.push((keys[i], child));
                proof {
                    assert(node.children@.subrange(0, children0.len() as int) =~= children0);
                    assert(node.children@.last() == (keys@[i as int], child));
                }
            },
        }
    }
}

impl TrieNode {
    /// Finds the index of the first child with exactly the given key.
    fn find_child_index(&self, key: Option<&'static str>) -> (r: Option<usize>)
        ensures
            ({
                let kv = key_view(key);
                match r {
                    Some(idx) => find_child_idx(self.children@, kv) == idx as int,
                    None => find_child_idx(self.children@, kv) == -1,
                }
            }),
    {
        let ghost kv = key_view(key);
        let n: usize = self.children.len();
        let mut i: usize = 0;
        proof {
            lemma_find_child_idx(self.children@, kv);
        }
        while i < n
            invariant
                kv == key_view(key),
                i <= n,
                n == self.children@.len(),
                forall|k: int| 0 <= k < i ==> key_view(self.children@[k].0) != kv,
                -1 <= find_child_idx(self.children@, kv) < n,
                find_child_idx(self.children@, kv) >= 0 ==> key_view(
                    self.children@[find_child_idx(self.children@, kv)].0,
                ) == kv,
                forall|k: int|
                    0 <= k < n && key_view(self.children@[k].0) == kv ==> find_child_idx(
                        self.children@,
                        kv,
                    ) >= 0 && find_child_idx(self.children@, kv) <= k,
            decreases n - i,
        {
            let hit = key_match(&self.children[i].0, key);
            if hit {
                proof {
                    assert(key_view(self.children@[i as int].0) == kv);
                }
                return Some(i);
            }
            i = i + 1;
        }
        proof {
            if find_child_idx(self.children@, kv) >= 0 {
                assert(key_view(self.children@[find_child_idx(self.children@, kv)].0) == kv);
            }
        }
        None
    }
}

/// The routing trie.
pub struct Trie {
    /// The root node.
    pub root: TrieNode,
}

impl Trie {
    /// Makes an empty trie.
    pub fn new() -> (r: Trie)
        ensures
            r.root.children@.len() == 0,
            r.root.leafs@.len() == 0,
    {
        Trie { root: TrieNode::new() }
    }

    /// Registers a handler under a method and an entry point; fails, leaving
    /// the trie untouched, exactly when that pair is already registered.
    pub fn insert(&mut self, method: HttpMethod, entry_point: &EntryPoint, handler: u64) -> (r:
        Result<(), Error>)
        ensures
            ({
                let kv = seg_views(entry_point@);
                match r {
                    Ok(_) => !has_route(old(self).root, kv, 0, method) && inserted_rel(
                        old(self).root,
                        final(self).root,
                        kv,
                        0,
                        method,
                        handler,
                    ),
                    Err(e) => e.kind == ErrorKind::Invalid && has_route(
                        old(self).root,
                        kv,
                        0,
                        method,
                    ) && *final(self) == *old(self),
                }
            }),
    {
        let segs = entry_point.segments();
        let n: usize = segs.len();
        let mut keys: Vec<Option<&'static str>> = Vec::new();
        let mut i: usize = 0;
        while i < n
            invariant
                i <= n,
                n == segs@.len(),
                segs@ == entry_point@,
                keys@.len() == i,
                forall|k: int| 0 <= k < i ==> key_view(keys@[k]) == entry_point@[k].spec_val(),
            decreases n - i,
        {
            match segs[i] {
                PathSegment::Val(s) => {
                    keys.push(Some(s));
                },
                PathSegment::Var => {
                    keys.push(None);
                },
            }
            i = i + 1;
        }
        proof {
            assert(keys_view(keys@) =~= seg_views(entry_point@));
        }
        if has_route_exec(&self.root, &keys, 0, method) {
            Err(Error::invalid())
        } else {
            insert_at(&mut self.root, &keys, 0, method, handler);
            Ok(())
        }
    }

    /// Returns the root node of this trie.
    pub fn root(&self) -> (r: &TrieNode)
        ensures
            *r == self.root,
    {
        &self.root
    }
}

/// The route table of a server, immutable once built.
pub struct Router {
    /// The trie the routes live in.
    pub trie: Trie,
}

impl Router {
    /// Dispatches a path's segments under a method: the registered handler,
    /// or the failing status.  At every level an exact literal child is
    /// preferred over the wildcard child, so specific routes override more
    /// general patterns.
    pub fn route(&self, segments: &Vec<String>, method: HttpMethod) -> (r: Result<
        u64,
        HttpStatus,
    >)
        ensures
            r == spec_route(self.trie.root, segments.deep_view(), 0, method),
    {
        let ghost sv = segments.deep_view();
        let n: usize = segments.len();
        let mut node: &TrieNode = &self.trie.root;
        let mut i: usize = 0;
        while i < n
            invariant
                i <= n,
                n == sv.len(),
                sv == segments.deep_view(),
                spec_route(self.trie.root, sv, 0, method) == spec_route(*node, sv, i as int, method),
            decreases n - i,
        {
            match node.get_child(segments[i].as_str()) {
                Some(child) => {
                    node = child;
                },
                None => {
                    return Err(HttpStatus::NotFound);
                },
            }
            i = i + 1;
        }
        match node.get_value(method) {
            Some(h) => Ok(h),
            None => Err(HttpStatus::MethodNotAllowed),
        }
    }
}

/// The builder that registers routes before a server starts.
pub struct RouterBuilder {
    /// The trie under construction.
    pub trie: Trie,
}

impl RouterBuilder {
    /// Makes an empty builder.
    pub fn new() -> (r: RouterBuilder)
        ensures
            r.trie.root.children@.len() == 0,
            r.trie.root.leafs@.len() == 0,
    {
        RouterBuilder { trie: Trie::new() }
    }

    /// Registers a handler; duplicate registration for one method and entry
    /// point is a construction-time error.
    pub fn register_handler(
        &mut self,
        method: HttpMethod,
        entry_point: &EntryPoint,
        handler: u64,
    ) -> (r: Result<(), Error>)
        ensures
            ({
                let kv = seg_views(entry_point@);
                match r {
                    Ok(_) => !has_route(old(self).trie.root, kv, 0, method) && inserted_rel(
                        old(self).trie.root,
                        final(self).trie.root,
                        kv,
                        0,
                        method,
                        handler,
                    ),
                    Err(e) => e.kind == ErrorKind::Invalid && has_route(
                        old(self).trie.root,
                        kv,
                        0,
                        method,
                    ) && *final(self) == *old(self),
                }
            }),
    {
        self.trie.insert(method, entry_point, handler)
    }

    /// Finishes the builder into an immutable router.
    pub fn finish(self) -> (r: Router)
        ensures
            r.trie.root == self.trie.root,
    {
        Router { trie: self.trie }
    }
}

} // verus!
