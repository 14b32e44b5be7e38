//! A directory tree held in memory, and the walk over it: every reachable
//! entry is judged by `process_dir_entry`, and pruned subtrees are left out.
//!
//! Nodes are stored so that each one comes after its parent, which makes one
//! pass in index order a valid traversal: a node is reached exactly when its
//! parent was reached and the walk descended into it.
use crate::walk::{
    estimated_entries, process_dir_entry, verdict_spec, Classification, DirMetadata, ScanConfig,
    ScanConfigView, Verdict, WalkAction, WalkError,
};
use vstd::prelude::*;

verus! {

/// One entry of a tree.
pub struct DirNode {
    pub path: String,
    pub is_dir: bool,
    /// The directory's metadata, `None` where it cannot be read.
    pub metadata: Option<DirMetadata>,
    /// Index of the parent entry; ignored for the root, which is entry 0.
    pub parent: usize,
}

pub struct NodeView {
    pub path: Seq<char>,
    pub is_dir: bool,
    pub metadata: Option<DirMetadata>,
    pub parent: usize,
}

impl View for DirNode {
    type V = NodeView;

    open spec fn view(&self) -> NodeView {
        NodeView {
            path: self.path@,
            is_dir: self.is_dir,
            metadata: self.metadata,
            parent: self.parent,
        }
    }
}

/// A directory tree; entry 0 is the root.
pub struct DirTree {
    pub nodes: Vec<DirNode>,
}

impl View for DirTree {
    type V = Seq<NodeView>;

    open spec fn view(&self) -> Seq<NodeView> {
        self.nodes@.map_values(|n: DirNode| n@)
    }
}

/// A tree has a root directory, and each other entry comes after its parent.
pub open spec fn tree_wf(t: Seq<NodeView>) -> bool {
    &&& t.len() > 0
    &&& t[0].is_dir
    &&& forall|i: int| 0 < i < t.len() ==> (#[trigger] t[i]).parent < i
}

/// Everything besides the tree that a walk's decisions depend on.
pub struct WalkSetting {
    pub cfg: ScanConfigView,
    pub root_dev: u64,
    pub ratio: u64,
    pub cancelled: bool,
}

/// The decision for entry `i`, were it reached.
pub open spec fn node_verdict(t: Seq<NodeView>, s: WalkSetting, i: int) -> Verdict {
    verdict_spec(s.cfg, s.root_dev, s.ratio, s.cancelled, t[i].path, t[i].is_dir, t[i].metadata)
}

/// Whether the walk reaches entry `i`: the root always, any other entry when
/// its parent is reached and the walk goes on into it.
pub open spec fn reached(t: Seq<NodeView>, s: WalkSetting, i: int) -> bool
    decreases i,
{
    if i <= 0 {
        true
    } else {
        let p = t[i].parent as int;
        &&& p < i
        &&& reached(t, s, p)
        &&& node_verdict(t, s, p).action == WalkAction::Continue
    }
}

/// Whether entry `i` is reached and counted as a visited directory.
pub open spec fn visits(t: Seq<NodeView>, s: WalkSetting, i: int) -> bool {
    reached(t, s, i) && node_verdict(t, s, i).counted
}

/// Number of visited directories among the first `n` entries.
pub open spec fn visited_count(t: Seq<NodeView>, s: WalkSetting, n: int) -> nat
    decreases n,
{
    if n <= 0 {
        0
    } else {
        visited_count(t, s, n - 1) + if visits(t, s, n - 1) {
            1nat
        } else {
            0nat
        }
    }
}

/// The decision taken for each entry, `None` for the entries not reached.
pub open spec fn walk_verdicts(t: Seq<NodeView>, s: WalkSetting) -> Seq<Option<Verdict>> {
    Seq::new(
        t.len(),
        |i: int|
            if reached(t, s, i) {
                Some(node_verdict(t, s, i))
            } else {
                None
            },
    )
}

/// Whether `a` lies on the path from entry `j` up to the root (`j` excluded).
pub open spec fn is_ancestor(t: Seq<NodeView>, a: int, j: int) -> bool
    decreases j,
{
    if j <= 0 {
        false
    } else {
        let p = t[j].parent as int;
        p < j && (p == a || is_ancestor(t, a, p))
    }
}

/// Whether a decision reports the directory as blacklisted.
pub open spec fn is_blacklisted(v: Verdict) -> bool {
    v.class matches Some(Classification::Blacklisted { .. })
}

/// Number of directories reported as blacklisted among the first `n` entries.
pub open spec fn blacklisted_count(t: Seq<NodeView>, s: WalkSetting, n: int) -> nat
    decreases n,
{
    if n <= 0 {
        0
    } else {
        blacklisted_count(t, s, n - 1) + if reached(t, s, n - 1) && is_blacklisted(
            node_verdict(t, s, n - 1),
        ) {
            1nat
        } else {
            0nat
        }
    }
}

/// The same setting with another blacklist threshold.
pub open spec fn with_blacklist_threshold(s: WalkSetting, b: u64) -> WalkSetting {
    WalkSetting {
        cfg: ScanConfigView {
            alert_threshold: s.cfg.alert_threshold,
            blacklist_threshold: b,
            one_filesystem: s.cfg.one_filesystem,
            skip_paths: s.cfg.skip_paths,
        },
        root_dev: s.root_dev,
        ratio: s.ratio,
        cancelled: s.cancelled,
    }
}

/// An entry is reached only through its ancestors: each of them is reached
/// and was descended into.
pub proof fn lemma_reached_through_ancestors(t: Seq<NodeView>, s: WalkSetting, a: int, j: int)
    requires
        is_ancestor(t, a, j),
        reached(t, s, j),
    ensures
        reached(t, s, a),
        node_verdict(t, s, a).action == WalkAction::Continue,
    decreases j,
{
    let p = t[j].parent as int;
    if p != a {
        lemma_reached_through_ancestors(t, s, a, p);
    }
}

/// Nothing below a directory whose decision is not to go on is reached.
pub proof fn lemma_stopped_subtree_unreached(t: Seq<NodeView>, s: WalkSetting, a: int)
    requires
        node_verdict(t, s, a).action != WalkAction::Continue,
    ensures
        forall|j: int| is_ancestor(t, a, j) ==> !#[trigger] reached(t, s, j),
{
    assert forall|j: int| is_ancestor(t, a, j) implies !#[trigger] reached(t, s, j) by {
        if reached(t, s, j) {
            lemma_reached_through_ancestors(t, s, a, j);
        }
    }
}

/// A directory estimated above the blacklist threshold is not descended
/// into: no entry below it is reached, so none is visited.
pub proof fn lemma_blacklisted_subtree_unvisited(t: Seq<NodeView>, s: WalkSetting, a: int)
    requires
        0 <= a < t.len(),
        t[a].is_dir,
        t[a].metadata is Some,
        estimated_entries(t[a].metadata->0.size, s.ratio) > s.cfg.blacklist_threshold,
    ensures
        forall|j: int| is_ancestor(t, a, j) ==> !#[trigger] reached(t, s, j),
        forall|j: int| is_ancestor(t, a, j) ==> !#[trigger] visits(t, s, j),
{
    lemma_stopped_subtree_unreached(t, s, a);
}

/// A directory among the paths to skip is not descended into, and is
/// classified as excluded and as nothing else.
pub proof fn lemma_excluded_subtree_unvisited(t: Seq<NodeView>, s: WalkSetting, a: int)
    requires
        0 <= a < t.len(),
        t[a].is_dir,
        s.cfg.skip_paths.contains(t[a].path),
    ensures
        forall|j: int| is_ancestor(t, a, j) ==> !#[trigger] reached(t, s, j),
        forall|j: int| is_ancestor(t, a, j) ==> !#[trigger] visits(t, s, j),
        node_verdict(t, s, a).class is Some ==> node_verdict(t, s, a).class == Some(
            Classification::SkippedExcluded,
        ),
{
    lemma_stopped_subtree_unreached(t, s, a);
}

/// With one filesystem asked for, a directory on another device than the
/// root is not descended into.
pub proof fn lemma_boundary_subtree_unvisited(t: Seq<NodeView>, s: WalkSetting, a: int)
    requires
        0 <= a < t.len(),
        s.cfg.one_filesystem,
        t[a].is_dir,
        t[a].metadata is Some,
        t[a].metadata->0.dev != s.root_dev,
    ensures
        forall|j: int| is_ancestor(t, a, j) ==> !#[trigger] reached(t, s, j),
        forall|j: int| is_ancestor(t, a, j) ==> !#[trigger] visits(t, s, j),
{
    lemma_stopped_subtree_unreached(t, s, a);
}

/// Two walks over the same tree with the same ratio, configuration and
/// cancellation state take the same decisions and visit as many directories.
pub proof fn lemma_walk_repeatable(t1: Seq<NodeView>, t2: Seq<NodeView>, s1: WalkSetting, s2: WalkSetting)
    requires
        t1 == t2,
        s1 == s2,
    ensures
        walk_verdicts(t1, s1) == walk_verdicts(t2, s2),
        visited_count(t1, s1, t1.len() as int) == visited_count(t2, s2, t2.len() as int),
{
}

/// Raising the blacklist threshold keeps every reached entry reached.
pub proof fn lemma_raised_threshold_keeps_reached(t: Seq<NodeView>, s: WalkSetting, b: u64, j: int)
    requires
        s.cfg.blacklist_threshold <= b,
        reached(t, s, j),
    ensures
        reached(t, with_blacklist_threshold(s, b), j),
    decreases j,
{
    if j > 0 {
        lemma_raised_threshold_keeps_reached(t, s, b, t[j].parent as int);
    }
}

proof fn lemma_raised_threshold_counts(t: Seq<NodeView>, s: WalkSetting, b: u64, n: int)
    requires
        s.cfg.blacklist_threshold <= b,
    ensures
        visited_count(t, s, n) <= visited_count(t, with_blacklist_threshold(s, b), n),
    decreases n,
{
    if n > 0 {
        lemma_raised_threshold_counts(t, s, b, n - 1);
        if reached(t, s, n - 1) {
            lemma_raised_threshold_keeps_reached(t, s, b, n - 1);
        }
    }
}

/// Raising the blacklist threshold, with tree and ratio fixed, visits at
/// least the same directories, and a directory that was visited before is
/// blacklisted afterwards only if it was blacklisted before.
pub proof fn lemma_raised_blacklist_threshold(t: Seq<NodeView>, s: WalkSetting, b: u64)
    requires
        s.cfg.blacklist_threshold <= b,
    ensures
        forall|j: int| #[trigger]
            reached(t, s, j) ==> reached(t, with_blacklist_threshold(s, b), j),
        visited_count(t, s, t.len() as int) <= visited_count(
            t,
            with_blacklist_threshold(s, b),
            t.len() as int,
        ),
        forall|j: int|
            reached(t, s, j) && is_blacklisted(
                #[trigger] node_verdict(t, with_blacklist_threshold(s, b), j),
            ) ==> is_blacklisted(node_verdict(t, s, j)),
{
    assert forall|j: int| #[trigger]
        reached(t, s, j) implies reached(t, with_blacklist_threshold(s, b), j) by {
        lemma_raised_threshold_keeps_reached(t, s, b, j);
    }
    lemma_raised_threshold_counts(t, s, b, t.len() as int);
}

/// Raising the blacklist threshold does not blacklist more directories,
/// unless a directory that only the raised threshold lets the walk reach is
/// itself over the raised threshold.
pub proof fn lemma_raised_threshold_blacklists_no_more(t: Seq<NodeView>, s: WalkSetting, b: u64)
    requires
        s.cfg.blacklist_threshold <= b,
        forall|j: int|
            reached(t, with_blacklist_threshold(s, b), j) && !reached(t, s, j) ==> !is_blacklisted(
                #[trigger] node_verdict(t, with_blacklist_threshold(s, b), j),
            ),
    ensures
        blacklisted_count(t, with_blacklist_threshold(s, b), t.len() as int) <= blacklisted_count(
            t,
            s,
            t.len() as int,
        ),
{
    lemma_raised_threshold_blacklist_counts(t, s, b, t.len() as int);
}

proof fn lemma_raised_threshold_blacklist_counts(t: Seq<NodeView>, s: WalkSetting, b: u64, n: int)
    requires
        s.cfg.blacklist_threshold <= b,
        forall|j: int|
            reached(t, with_blacklist_threshold(s, b), j) && !reached(t, s, j) ==> !is_blacklisted(
                #[trigger] node_verdict(t, with_blacklist_threshold(s, b), j),
            ),
    ensures
        blacklisted_count(t, with_blacklist_threshold(s, b), n) <= blacklisted_count(t, s, n),
    decreases n,
{
    if n > 0 {
        lemma_raised_threshold_blacklist_counts(t, s, b, n - 1);
    }
}

/// A walk that starts cancelled reaches no entry besides the root, and
/// visits no directory.
pub proof fn lemma_cancelled_walk_visits_nothing(t: Seq<NodeView>, s: WalkSetting)
    requires
        tree_wf(t),
        s.cancelled,
    ensures
        forall|j: int| 0 < j < t.len() ==> !#[trigger] reached(t, s, j),
        visited_count(t, s, t.len() as int) == 0,
{
    assert forall|j: int| 0 < j < t.len() implies !#[trigger] reached(t, s, j) by {
        lemma_cancelled_unreached(t, s, j);
    }
    lemma_cancelled_count(t, s, t.len() as int);
}

proof fn lemma_cancelled_unreached(t: Seq<NodeView>, s: WalkSetting, j: int)
    requires
        tree_wf(t),
        s.cancelled,
        0 < j < t.len(),
    ensures
        !reached(t, s, j),
    decreases j,
{
    let p = t[j].parent as int;
    if p > 0 {
        lemma_cancelled_unreached(t, s, p);
    }
}

proof fn lemma_cancelled_count(t: Seq<NodeView>, s: WalkSetting, n: int)
    requires
        tree_wf(t),
        s.cancelled,
        n <= t.len(),
    ensures
        visited_count(t, s, n) == 0,
    decreases n,
{
    if n > 0 {
        lemma_cancelled_count(t, s, n - 1);
        if n - 1 > 0 {
            lemma_cancelled_unreached(t, s, n - 1);
        }
    }
}

/// The outcome of a completed walk.
#[derive(Debug)]
pub struct WalkReport {
    /// Number of directories visited.
    pub visited: u64,
    /// For each entry of the tree, the decision taken, or `None` where the
    /// walk did not reach it.
    pub verdicts: Vec<Option<Verdict>>,
}

impl DirTree {
    /// Whether the tree has a root directory and every entry comes after its
    /// parent.
    pub fn is_well_formed(&self) -> (r: bool)
        ensures
            r == tree_wf(self@),
    {
        let n = self.nodes.len();
        if n == 0 || !self.nodes[0].is_dir {
            return false;
        }
        let mut i: usize = 1;
        while i < n
            invariant
                1 <= i <= n,
                n == self.nodes@.len(),
                n == self@.len(),
                self@[0].is_dir,
                forall|k: int| 0 < k < i ==> (#[trigger] self@[k]).parent < k,
            decreases n - i,
        {
            if self.nodes[i].parent >= i {
                assert(!(self@[i as int].parent < i));
                return false;
            }
            i = i + 1;
        }
        true
    }
}

/// Walks a tree: judges each reached entry with `process_dir_entry`, counts
/// the visited directories, and does not enter pruned subtrees. A ratio of
/// zero or a malformed tree is refused before any work; a cancelled walk
/// stops at the first directory.
pub fn walk_tree(
    tree: &DirTree,
    root_dev: u64,
    ratio: u64,
    config: &ScanConfig,
    cancelled: bool,
) -> (r: Result<WalkReport, WalkError>)
    ensures
        ratio == 0 ==> r == Err::<WalkReport, WalkError>(WalkError::ZeroRatio),
        ratio > 0 && !tree_wf(tree@) ==> r == Err::<WalkReport, WalkError>(WalkError::MalformedTree),
        ratio > 0 && tree_wf(tree@) && cancelled ==> r == Err::<WalkReport, WalkError>(
            WalkError::Cancelled,
        ),
        ratio > 0 && tree_wf(tree@) && !cancelled ==> {
            let s = WalkSetting { cfg: config@, root_dev, ratio, cancelled };
            &&& r is Ok
            &&& r->Ok_0.visited == visited_count(tree@, s, tree@.len() as int)
            &&& r->Ok_0.verdicts@ == walk_verdicts(tree@, s)
        },
{
    if ratio == 0 {
        return Err(WalkError::ZeroRatio);
    }
    if !tree.is_well_formed() {
        return Err(WalkError::MalformedTree);
    }
    let ghost t = tree@;
    let ghost s = WalkSetting { cfg: config@, root_dev, ratio, cancelled };
    let n = tree.nodes.len();
    let mut descend: Vec<bool> = Vec::new();
    let mut verdicts: Vec<Option<Verdict>> = Vec::new();
    let mut visited: u64 = 0;
    let mut i: usize = 0;
    while i < n
        invariant
            0 <= i <= n,
            n == t.len(),
            t == tree@,
            tree_wf(t),
            ratio > 0,
            s == (WalkSetting { cfg: config@, root_dev, ratio, cancelled }),
            cancelled ==> i == 0,
            descend@.len() == i,
            verdicts@.len() == i,
            forall|k: int|
                0 <= k < i ==> #[trigger] descend@[k] == (reached(t, s, k) && node_verdict(
                    t,
                    s,
                    k,
                ).action == WalkAction::Continue),
            forall|k: int|
                0 <= k < i ==> #[trigger] verdicts@[k] == if reached(t, s, k) {
                    Some(node_verdict(t, s, k))
                } else {
                    None
                },
            visited == visited_count(t, s, i as int),
            visited <= i,
        decreases n - i,
    {
        let node = &tree.nodes[i];
        assert(t[i as int] == node@);
        let is_reached = if i == 0 {
            true
        } else {
            descend[node.parent]
        };
        assert(is_reached == reached(t, s, i as int));
        if is_reached {
            let v = process_dir_entry(
                root_dev,
                ratio,
                node.path.as_str(),
                node.is_dir,
                node.metadata,
                config,
                cancelled,
            );
            assert(v == node_verdict(t, s, i as int));
            match v.action {
                WalkAction::StopAll => {
                    return Err(WalkError::Cancelled);
                },
                WalkAction::Continue => {
                    descend.push(true);
                },
                WalkAction::SkipSubtree => {
                    descend.push(false);
                },
            }
            if v.counted {
                visited = visited + 1;
            }
            verdicts.push(Some(v));
        } else {
            descend.push(false);
            verdicts.push(None);
        }
        i = i + 1;
    }
    assert(verdicts@ =~= walk_verdicts(t, s));
    Ok(WalkReport { visited, verdicts })
}

} // verus!
