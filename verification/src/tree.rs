//! Building a forest from records that name their parent: the menu routes and the
//! facility hierarchy are both shown this way.

use vstd::prelude::*;
use vstd::set_lib::{lemma_int_range, lemma_len_subset, set_int_range};

verus! {

/// A record's key: its id and the id of its parent (`None` for no parent).
pub type Key = (i64, Option<i64>);

/// A node of a built forest: the position of its record and its children.
pub struct TreeNode {
    pub index: usize,
    pub children: Vec<TreeNode>,
}

/// The positions of the records whose parent is `parent`, in order.
pub open spec fn children_of(keys: Seq<Key>, parent: Option<i64>) -> Seq<int>
    decreases keys.len(),
{
    if keys.len() == 0 {
        Seq::empty()
    } else {
        let rest = children_of(keys.drop_last(), parent);
        if keys.last().1 == parent {
            rest.push(keys.len() - 1)
        } else {
            rest
        }
    }
}

/// `nodes` is the forest under `parent` built to `depth` levels: each node is a
/// child record of `parent`, in order, with its own forest below it; at depth 0
/// nothing is built.
pub open spec fn forest_cut(keys: Seq<Key>, parent: Option<i64>, nodes: Seq<TreeNode>, depth: nat) -> bool
    decreases depth,
{
    if depth == 0 {
        nodes.len() == 0
    } else {
        let kids = children_of(keys, parent);
        &&& nodes.len() == kids.len()
        &&& forall|k: int|
            #![trigger nodes[k]]
            0 <= k < nodes.len() ==> nodes[k].index == kids[k] && forest_cut(
                keys,
                Some(keys[kids[k]].0),
                nodes[k].children@,
                (depth - 1) as nat,
            )
    }
}

/// `nodes` is the whole forest under `parent`: as `forest_cut`, and below the
/// last level built no record has a parent there.
pub open spec fn forest_ok(keys: Seq<Key>, parent: Option<i64>, nodes: Seq<TreeNode>, depth: nat) -> bool
    decreases depth,
{
    let kids = children_of(keys, parent);
    &&& nodes.len() == kids.len()
    &&& depth == 0 ==> kids.len() == 0
    &&& depth > 0 ==> forall|k: int|
        #![trigger nodes[k]]
        0 <= k < nodes.len() ==> nodes[k].index == kids[k] && forest_ok(
            keys,
            Some(keys[kids[k]].0),
            nodes[k].children@,
            (depth - 1) as nat,
        )
}

/// No two records share an id.
pub open spec fn unique_ids(keys: Seq<Key>) -> bool {
    forall|i: int, j: int| 0 <= i < j < keys.len() ==> keys[i].0 != keys[j].0
}

/// No record has the root's value as its id.
pub open spec fn root_free(keys: Seq<Key>, root: Option<i64>) -> bool {
    forall|i: int| 0 <= i < keys.len() ==> Some(#[trigger] keys[i].0) != root
}

proof fn lemma_children_of(keys: Seq<Key>, parent: Option<i64>)
    ensures
        forall|k: int|
            0 <= k < children_of(keys, parent).len() ==> 0 <= #[trigger] children_of(
                keys,
                parent,
            )[k] < keys.len() && keys[children_of(keys, parent)[k]].1 == parent,
    decreases keys.len(),
{
    if keys.len() > 0 {
        lemma_children_of(keys.drop_last(), parent);
    }
}

fn child_indices(keys: &Vec<Key>, parent: Option<i64>) -> (r: Vec<usize>)
    ensures
        r@.map_values(|i: usize| i as int) == children_of(keys@, parent),
{
    let mut out: Vec<usize> = Vec::new();
    let mut i: usize = 0;
    while i < keys.len()
        invariant
            i <= keys@.len(),
            out@.map_values(|x: usize| x as int) == children_of(keys@.take(i as int), parent),
        decreases keys.len() - i,
    {
        assert(keys@.take(i + 1).drop_last() =~= keys@.take(i as int));
        let same = match (keys[i].1, parent) {
            (Some(a), Some(b)) => a == b,
            (None, None) => true,
            _ => false,
        };
        let ghost before = out@.map_values(|x: usize| x as int);
        if same {
            out.push(i);
            assert(out@.map_values(|x: usize| x as int) =~= before.push(i as int));
        }
        i += 1;
    }
    assert(keys@.take(keys@.len() as int) =~= keys@);
    out
}

fn build_level(keys: &Vec<Key>, parent: Option<i64>, depth: usize) -> (r: Vec<TreeNode>)
    ensures
        forest_cut(keys@, parent, r@, depth as nat),
    decreases depth,
{
    let mut out: Vec<TreeNode> = Vec::new();
    if depth == 0 {
        return out;
    }
    let kids = child_indices(keys, parent);
    let ghost ks = children_of(keys@, parent);
    proof {
        lemma_children_of(keys@, parent);
    }
    let mut j: usize = 0;
    while j < kids.len()
        invariant
            depth > 0,
            j <= kids@.len(),
            kids@.map_values(|x: usize| x as int) == ks,
            ks == children_of(keys@, parent),
            forall|k: int| 0 <= k < ks.len() ==> 0 <= #[trigger] ks[k] < keys@.len(),
            out@.len() == j,
            forall|k: int|
                #![trigger out@[k]]
                0 <= k < j ==> out@[k].index == ks[k] && forest_cut(
                    keys@,
                    Some(keys@[ks[k]].0),
                    out@[k].children@,
                    (depth - 1) as nat,
                ),
        decreases kids.len() - j,
    {
        let k = kids[j];
        assert(ks[j as int] == k as int);
        let id = keys[k].0;
        let sub = build_level(keys, Some(id), depth - 1);
        out.push(TreeNode { index: k, children: sub });
        j += 1;
    }
    out
}

/// The forest of the records under `root`: each node lists, in record order, the
/// records whose parent is its record's id; built to as many levels as there are
/// records.
pub fn build_forest(keys: &Vec<Key>, root: Option<i64>) -> (r: Vec<TreeNode>)
    ensures
        forest_cut(keys@, root, r@, keys@.len()),
{
    build_level(keys, root, keys.len())
}

/// A chain of records from a root down to `parent`: distinct positions, the first
/// a child of `root`, each next one a child of the one before, and `parent` the id
/// of the last (or `root` itself when the chain is empty).
pub open spec fn chain_to(keys: Seq<Key>, root: Option<i64>, chain: Seq<int>, parent: Option<i64>) -> bool {
    &&& chain.no_duplicates()
    &&& forall|j: int| 0 <= j < chain.len() ==> 0 <= #[trigger] chain[j] < keys.len()
    &&& chain.len() == 0 ==> parent == root
    &&& chain.len() > 0 ==> keys[chain[0]].1 == root && parent == Some(keys[chain.last()].0)
    &&& forall|j: int|
        1 <= j < chain.len() ==> keys[#[trigger] chain[j]].1 == Some(keys[chain[j - 1]].0)
}

proof fn lemma_distinct_bound(s: Seq<int>, n: int)
    requires
        s.no_duplicates(),
        0 <= n,
        forall|j: int| 0 <= j < s.len() ==> 0 <= #[trigger] s[j] < n,
    ensures
        s.len() <= n,
{
    s.unique_seq_to_set();
    lemma_int_range(0, n);
    assert forall|x: int| s.to_set().contains(x) implies set_int_range(0, n).contains(x) by {
        assert(s.contains(x));
        let j = choose|j: int| 0 <= j < s.len() && s[j] == x;
        assert(0 <= s[j] < n);
    }
    lemma_len_subset(s.to_set(), set_int_range(0, n));
}

proof fn lemma_child_not_in_chain(
    keys: Seq<Key>,
    root: Option<i64>,
    chain: Seq<int>,
    parent: Option<i64>,
    k: int,
)
    requires
        unique_ids(keys),
        root_free(keys, root),
        chain_to(keys, root, chain, parent),
        0 <= k < keys.len(),
        keys[k].1 == parent,
    ensures
        !chain.contains(k),
{
    if chain.contains(k) {
        let j = choose|j: int| 0 <= j < chain.len() && chain[j] == k;
        let last = chain.len() - 1;
        if j == 0 {
            assert(root == Some(keys[chain[last]].0));
            assert(Some(keys[chain[last]].0) != root);
        } else {
            assert(keys[chain[j]].1 == Some(keys[chain[j - 1]].0));
            assert(keys[chain[j - 1]].0 == keys[chain[last]].0);
            if chain[j - 1] != chain[last] {
                if chain[j - 1] < chain[last] {
                    assert(keys[chain[j - 1]].0 != keys[chain[last]].0);
                } else {
                    assert(keys[chain[last]].0 != keys[chain[j - 1]].0);
                }
            }
            assert(chain[j - 1] == chain[last]);
        }
    }
}

proof fn lemma_cut_complete(
    keys: Seq<Key>,
    root: Option<i64>,
    chain: Seq<int>,
    parent: Option<i64>,
    nodes: Seq<TreeNode>,
    depth: nat,
)
    requires
        unique_ids(keys),
        root_free(keys, root),
        chain_to(keys, root, chain, parent),
        chain.len() + depth == keys.len(),
        forest_cut(keys, parent, nodes, depth),
    ensures
        forest_ok(keys, parent, nodes, depth),
    decreases depth,
{
    let kids = children_of(keys, parent);
    lemma_children_of(keys, parent);
    if depth == 0 {
        if kids.len() > 0 {
            let k = kids[0];
            lemma_child_not_in_chain(keys, root, chain, parent, k);
            let longer = chain.push(k);
            assert(longer.no_duplicates()) by {
                assert forall|a: int, b: int|
                    0 <= a < longer.len() && 0 <= b < longer.len() && a != b implies longer[a]
                    != longer[b] by {
                    if a < chain.len() && b < chain.len() {
                        assert(chain[a] != chain[b]);
                    } else if a == chain.len() {
                        assert(longer[b] == chain[b]);
                    } else {
                        assert(longer[a] == chain[a]);
                    }
                }
            }
            assert forall|j: int| 0 <= j < longer.len() implies 0 <= #[trigger] longer[j]
                < keys.len() by {
                if j < chain.len() {
                    assert(longer[j] == chain[j]);
                }
            }
            lemma_distinct_bound(longer, keys.len() as int);
        }
    } else {
        assert forall|k: int| #![trigger nodes[k]] 0 <= k < nodes.len() implies nodes[k].index
            == kids[k] && forest_ok(
            keys,
            Some(keys[kids[k]].0),
            nodes[k].children@,
            (depth - 1) as nat,
        ) by {
            let c = kids[k];
            lemma_child_not_in_chain(keys, root, chain, parent, c);
            let longer = chain.push(c);
            assert(longer.no_duplicates()) by {
                assert forall|a: int, b: int|
                    0 <= a < longer.len() && 0 <= b < longer.len() && a != b implies longer[a]
                    != longer[b] by {
                    if a < chain.len() && b < chain.len() {
                        assert(chain[a] != chain[b]);
                    } else if a == chain.len() {
                        assert(longer[b] == chain[b]);
                    } else {
                        assert(longer[a] == chain[a]);
                    }
                }
            }
            assert forall|j: int| 0 <= j < longer.len() implies 0 <= #[trigger] longer[j]
                < keys.len() by {
                if j < chain.len() {
                    assert(longer[j] == chain[j]);
                }
            }
            assert forall|j: int| 1 <= j < longer.len() implies keys[#[trigger] longer[j]].1
                == Some(keys[longer[j - 1]].0) by {
                if j < chain.len() {
                    assert(longer[j] == chain[j]);
                    assert(longer[j - 1] == chain[j - 1]);
                } else {
                    assert(longer[j] == c);
                    assert(longer[j - 1] == chain.last());
                }
            }
            if chain.len() == 0 {
                assert(longer[0] == c);
            } else {
                assert(longer[0] == chain[0]);
            }
            assert(chain_to(keys, root, longer, Some(keys[c].0)));
            lemma_cut_complete(
                keys,
                root,
                longer,
                Some(keys[c].0),
                nodes[k].children@,
                (depth - 1) as nat,
            );
        }
    }
}

/// When no two records share an id and none has the root's value as its id,
/// building to as many levels as there are records leaves nothing out: below the
/// last level no record is left whose parent is there.
pub proof fn law_forest_complete(keys: Seq<Key>, root: Option<i64>, nodes: Seq<TreeNode>)
    requires
        unique_ids(keys),
        root_free(keys, root),
        forest_cut(keys, root, nodes, keys.len()),
    ensures
        forest_ok(keys, root, nodes, keys.len()),
{
    lemma_cut_complete(keys, root, Seq::empty(), root, nodes, keys.len());
}

} // verus!
