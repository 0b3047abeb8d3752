//! The static route table: a tree of path-pattern nodes, and resolution of
//! an abstract path (a list of segments) to the active chain of matched
//! nodes, root to leaf.
//!
//! Nodes are held in an arena; a child always stands after its parent, and
//! resolution tries nodes in registration order, so a table registered
//! depth-first is matched depth-first. The first node whose accumulated
//! pattern consumes the whole path wins, and the result is its ancestor
//! chain.

use vstd::prelude::*;

verus! {

/// One segment of a path pattern: a fixed piece of text, or a parameter
/// that matches any single path segment. A fixed empty segment consumes
/// nothing, which lets a parent route group children without adding a
/// segment of its own.
#[derive(Clone, Debug)]
pub enum PathSegment {
    Fixed(String),
    Param,
}

/// What a route's data factory issues at enter time: nothing, a text
/// fetch, or a fetch whose result must still pass the deserialization step
/// to become a comment list.
#[derive(Clone, Debug)]
pub enum DataPlan {
    NoData,
    FetchText { url: String },
    FetchComments { url: String },
}

/// One registered route.
#[derive(Clone, Debug)]
pub struct RouteNode {
    /// The pattern segment this node adds to its parent's.
    pub segment: PathSegment,
    /// The arena index of the parent node, if any; always smaller than this
    /// node's own index.
    pub parent: Option<usize>,
    /// The identifier of the lazily loaded view module, or `None` for a
    /// view shipped eagerly with the main bundle.
    pub module: Option<usize>,
    /// The static line the view renders.
    pub text: String,
    /// Whether the view renders an outlet: its matched child's lines follow
    /// its own.
    pub outlet: bool,
    /// What the route's data factory issues when the route is entered.
    pub data: DataPlan,
}

/// The route table.
#[derive(Clone, Debug)]
pub struct RouteTree {
    pub nodes: Vec<RouteNode>,
}

impl RouteTree {
    /// Parents precede their children in the arena.
    pub open spec fn wf(self) -> bool {
        forall|i: int|
            0 <= i < self.nodes@.len() ==> match (#[trigger] self.nodes@[i]).parent {
                Some(p) => p < i,
                None => true,
            }
    }

    pub open spec fn len_spec(self) -> nat {
        self.nodes@.len()
    }

    /// The ancestor chain of node `i`, from the root down to `i` itself.
    pub open spec fn chain_of(self, i: usize) -> Seq<usize>
        decreases i,
    {
        if i < self.nodes@.len() {
            match self.nodes@[i as int].parent {
                Some(p) => if p < i {
                    self.chain_of(p).push(i)
                } else {
                    seq![i]
                },
                None => seq![i],
            }
        } else {
            seq![i]
        }
    }

    /// Whether the chain of nodes `ch` consumes exactly the path `path`:
    /// each fixed non-empty segment consumes one equal path segment, each
    /// parameter consumes one arbitrary path segment, and a fixed empty
    /// segment consumes nothing.
    pub open spec fn chain_matches(self, ch: Seq<usize>, path: Seq<Seq<char>>) -> bool
        decreases ch.len(),
    {
        if ch.len() == 0 {
            path.len() == 0
        } else if ch[0] < self.nodes@.len() {
            match self.nodes@[ch[0] as int].segment {
                PathSegment::Fixed(s) => if s@.len() == 0 {
                    self.chain_matches(ch.drop_first(), path)
                } else {
                    &&& path.len() > 0
                    &&& path[0] == s@
                    &&& self.chain_matches(ch.drop_first(), path.drop_first())
                },
                PathSegment::Param => {
                    &&& path.len() > 0
                    &&& self.chain_matches(ch.drop_first(), path.drop_first())
                },
            }
        } else {
            false
        }
    }

    /// Whether node `i`'s accumulated pattern matches the whole path.
    pub open spec fn node_matches(self, i: usize, path: Seq<Seq<char>>) -> bool {
        self.chain_matches(self.chain_of(i), path)
    }

    /// The first node at index `i` or later that matches the path. (A real
    /// table's length fits in `usize`, so the index-exhausted guard is never
    /// the deciding one.)
    pub open spec fn first_match_from(self, path: Seq<Seq<char>>, i: usize) -> Option<usize>
        decreases self.nodes@.len() - i,
    {
        if i < self.nodes@.len() {
            if self.node_matches(i, path) {
                Some(i)
            } else if i == usize::MAX {
                None
            } else {
                self.first_match_from(path, (i + 1) as usize)
            }
        } else {
            None
        }
    }

    /// The node the path resolves to: the first match in registration
    /// order, or `None` when no route matches.
    pub open spec fn spec_resolve(self, path: Seq<Seq<char>>) -> Option<usize> {
        self.first_match_from(path, 0)
    }
}

/// Adds a route node to the table — under its parent, when it names one —
/// and hands back its identifier. Registration order is match priority, so
/// registering children right after their parent keeps matching
/// depth-first.
pub fn register(t: &mut RouteTree, node: RouteNode) -> (id: usize)
    requires
        old(t).wf(),
        (node.parent matches Some(p) ==> p < old(t).len_spec()),
    ensures
        final(t).wf(),
        final(t).nodes@ == old(t).nodes@.push(node),
        id == old(t).nodes@.len(),
{
    let id = t.nodes.len();
    t.nodes.push(node);
    id
}

/// Skipping over non-matching nodes does not change the first match.
proof fn lemma_first_match_skip(t: RouteTree, path: Seq<Seq<char>>, k: usize, i: usize)
    requires
        k <= i,
        forall|j: usize| k <= j < i ==> !t.node_matches(j, path),
    ensures
        t.first_match_from(path, k) == t.first_match_from(path, i),
    decreases i - k,
{
    if k < i {
        assert(!t.node_matches(k, path));
        lemma_first_match_skip(t, path, (k + 1) as usize, i);
    }
}

/// The ancestor chain of node `i`, from the root down to `i`.
pub fn node_chain(t: &RouteTree, i: usize) -> (r: Vec<usize>)
    requires
        t.wf(),
        i < t.len_spec(),
    ensures
        r@ == t.chain_of(i),
    decreases i,
{
    match t.nodes[i].parent {
        Some(p) => {
            let mut r = node_chain(t, p);
            r.push(i);
            r
        },
        None => {
            let mut r: Vec<usize> = Vec::new();
            r.push(i);
            proof {
                assert(r@ =~= seq![i]);
            }
            r
        },
    }
}

/// Whether the chain `ch` consumes exactly the path.
fn chain_matches_exec(t: &RouteTree, ch: &Vec<usize>, path: &Vec<String>) -> (b: bool)
    requires
        t.wf(),
        forall|k: int| 0 <= k < ch@.len() ==> ch@[k] < t.len_spec(),
    ensures
        b == t.chain_matches(ch@, path.deep_view()),
{
    let ghost full_path = path.deep_view();
    let mut k: usize = 0;
    let mut j: usize = 0;
    proof {
        assert(ch@.skip(0) =~= ch@);
        assert(full_path.skip(0) =~= full_path);
    }
    loop
        invariant
            t.wf(),
            forall|x: int| 0 <= x < ch@.len() ==> ch@[x] < t.len_spec(),
            k <= ch@.len(),
            j <= path@.len(),
            full_path == path.deep_view(),
            t.chain_matches(ch@, full_path) == t.chain_matches(
                ch@.skip(k as int),
                full_path.skip(j as int),
            ),
        decreases ch@.len() - k,
    {
        if k == ch.len() {
            proof {
                assert(ch@.skip(k as int) =~= Seq::<usize>::empty());
            }
            return j == path.len();
        }
        let ghost sub_ch = ch@.skip(k as int);
        let ghost sub_path = full_path.skip(j as int);
        proof {
            assert(sub_ch[0] == ch@[k as int]);
            assert(sub_ch.drop_first() =~= ch@.skip(k as int + 1));
        }
        let node_idx = ch[k];
        match &t.nodes[node_idx].segment {
            PathSegment::Fixed(s) => {
                if s.as_str().is_empty() {
                    k = k + 1;
                } else {
                    if j == path.len() {
                        proof {
                            assert(sub_path.len() == 0);
                        }
                        return false;
                    }
                    if !path[j].eq(s) {
                        proof {
                            assert(sub_path[0] == full_path[j as int]);
                        }
                        return false;
                    }
                    proof {
                        assert(sub_path[0] == full_path[j as int]);
                        assert(sub_path.drop_first() =~= full_path.skip(j as int + 1));
                    }
                    k = k + 1;
                    j = j + 1;
                }
            },
            PathSegment::Param => {
                if j == path.len() {
                    proof {
                        assert(sub_path.len() == 0);
                    }
                    return false;
                }
                proof {
                    assert(sub_path.drop_first() =~= full_path.skip(j as int + 1));
                }
                k = k + 1;
                j = j + 1;
            },
        }
    }
}

/// Resolves a path against the table: the ancestor chain of the first
/// matching node in registration order, or `None` when no route matches.
pub fn resolve(t: &RouteTree, path: &Vec<String>) -> (r: Option<Vec<usize>>)
    requires
        t.wf(),
    ensures
        match r {
            Some(chain) => {
                &&& t.spec_resolve(path.deep_view()) matches Some(i) && chain@ == t.chain_of(i)
                &&& chain@.len() > 0
                &&& forall|k: int| 0 <= k < chain@.len() ==> chain@[k] < t.len_spec()
            },
            None => t.spec_resolve(path.deep_view()) is None,
        },
{
    let mut i: usize = 0;
    while i < t.nodes.len()
        invariant
            t.wf(),
            i <= t.len_spec(),
            forall|j: usize| j < i ==> !t.node_matches(j, path.deep_view()),
        decreases t.len_spec() - i,
    {
        let chain = node_chain(t, i);
        proof {
            lemma_chain_of_bounds(*t, i);
        }
        if chain_matches_exec(t, &chain, path) {
            proof {
                lemma_first_match_skip(*t, path.deep_view(), 0, i);
            }
            return Some(chain);
        }
        i = i + 1;
    }
    proof {
        lemma_first_match_skip(*t, path.deep_view(), 0, i);
    }
    None
}

/// Every index on an ancestor chain is a valid node index, and the chain
/// ends at the node itself.
pub proof fn lemma_chain_of_bounds(t: RouteTree, i: usize)
    requires
        t.wf(),
        i < t.len_spec(),
    ensures
        t.chain_of(i).len() > 0,
        t.chain_of(i).last() == i,
        forall|k: int| 0 <= k < t.chain_of(i).len() ==> t.chain_of(i)[k] < t.len_spec(),
    decreases i,
{
    match t.nodes@[i as int].parent {
        Some(p) => {
            if p < i {
                lemma_chain_of_bounds(t, p);
            }
        },
        None => {},
    }
}

} // verus!
