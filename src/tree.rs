//! The materialized tree, the per-node records that a crawl produces, and the
//! fold that reassembles records into a tree.
use atspi::Role;
use vstd::prelude::*;

verus! {

#[verifier::external_type_specification]
#[verifier::external_body]
pub struct ExRole(atspi::Role);

/// A node of the snapshot: its role and its children, left to right.
#[derive(Debug, PartialEq, Eq)]
pub struct A11yNode {
    pub role: Role,
    pub children: Vec<A11yNode>,
}

/// What the crawl learns of one node: its role and how many children it has.
#[derive(Debug, Clone, Copy, PartialEq, Eq)]
pub struct Record {
    pub role: Role,
    pub child_count: usize,
}

/// The mathematical shape of a tree.
pub struct Tree {
    pub role: Role,
    pub children: Seq<Tree>,
}

/// Why records could not be folded into exactly one tree.
#[derive(Debug, Clone, Copy, PartialEq, Eq)]
pub enum CrawlError {
    /// A record claims more children than have been completed.
    MissingChildren,
    /// After the last record, no completed node or more than one remains.
    RootCount,
}

pub open spec fn tree_of(n: A11yNode) -> Tree
    decreases n, 0int,
{
    Tree { role: n.role, children: trees_of(n.children@, n.children@.len() as int) }
}

/// The shapes of the first `k` nodes of `cs`.
pub open spec fn trees_of(cs: Seq<A11yNode>, k: int) -> Seq<Tree>
    decreases cs, k,
{
    if k <= 0 || k > cs.len() {
        Seq::empty()
    } else {
        trees_of(cs, k - 1).push(tree_of(cs[k - 1]))
    }
}

impl A11yNode {
    pub open spec fn view(self) -> Tree {
        tree_of(self)
    }
}

pub open spec fn shapes(cs: Seq<A11yNode>) -> Seq<Tree> {
    trees_of(cs, cs.len() as int)
}

/// One fold step: the record takes the top `child_count` completed trees, in
/// order, as its children.
pub open spec fn fold_step(done: Seq<Tree>, r: Record) -> Option<Seq<Tree>> {
    if r.child_count > done.len() {
        None
    } else {
        let k = done.len() - r.child_count;
        Some(done.take(k).push(Tree { role: r.role, children: done.skip(k) }))
    }
}

/// Folds `recs` from the last record to the first, onto the completed stack `done`.
pub open spec fn fold_from(done: Seq<Tree>, recs: Seq<Record>) -> Option<Seq<Tree>>
    decreases recs.len(),
{
    if recs.len() == 0 {
        Some(done)
    } else {
        match fold_step(done, recs.last()) {
            None => None,
            Some(d) => fold_from(d, recs.drop_last()),
        }
    }
}

/// The tree that `recs` folds into, if exactly one remains.
pub open spec fn folded(recs: Seq<Record>) -> Option<Tree> {
    match fold_from(Seq::empty(), recs) {
        Some(d) => if d.len() == 1 { Some(d[0]) } else { None },
        None => None,
    }
}

pub open spec fn fold_fails_early(recs: Seq<Record>) -> bool {
    fold_from(Seq::empty(), recs) is None
}

/// Every node of `t` has a child count that fits in a `usize`.
pub open spec fn well_sized(t: Tree) -> bool
    decreases t,
{
    &&& t.children.len() <= usize::MAX
    &&& forall|i: int| 0 <= i < t.children.len() ==> well_sized(#[trigger] t.children[i])
}

pub open spec fn record_of(t: Tree) -> Record {
    Record { role: t.role, child_count: t.children.len() as usize }
}

/// The records that a crawl rooted at `t` appends: `t` first, then its
/// children's subtrees from the last child to the first.
pub open spec fn flatten(t: Tree) -> Seq<Record>
    decreases t, 0int,
{
    seq![record_of(t)] + flatten_stack(t.children, t.children.len() as int)
}

/// The records that a crawl appends for the first `k` entries of a pending
/// stack, the top (last) entry first.
pub open spec fn flatten_stack(s: Seq<Tree>, k: int) -> Seq<Record>
    decreases s, k,
{
    if k <= 0 || k > s.len() {
        Seq::empty()
    } else {
        flatten(s[k - 1]) + flatten_stack(s, k - 1)
    }
}

/// The records that a crawl appends for a whole pending stack.
pub open spec fn pending_records(s: Seq<Tree>) -> Seq<Record> {
    flatten_stack(s, s.len() as int)
}

proof fn lemma_stack_prefix(a: Seq<Tree>, b: Seq<Tree>, k: int)
    requires
        0 <= k <= a.len(),
    ensures
        flatten_stack(a + b, k) == flatten_stack(a, k),
    decreases k,
{
    if k > 0 {
        lemma_stack_prefix(a, b, k - 1);
        assert((a + b)[k - 1] == a[k - 1]);
    }
}

proof fn lemma_stack_concat(a: Seq<Tree>, b: Seq<Tree>, j: int)
    requires
        0 <= j <= b.len(),
    ensures
        flatten_stack(a + b, a.len() + j) == flatten_stack(b, j) + pending_records(a),
    decreases j,
{
    if j == 0 {
        lemma_stack_prefix(a, b, a.len() as int);
        assert(flatten_stack(b, 0) + pending_records(a) =~= pending_records(a));
    } else {
        lemma_stack_concat(a, b, j - 1);
        assert((a + b)[a.len() + j - 1] == b[j - 1]);
        assert(flatten_stack(a + b, a.len() + j) =~= flatten(b[j - 1]) + (flatten_stack(b, j - 1)
            + pending_records(a)));
    }
}

/// One crawl step keeps the records owed by the pending stack: popping `t`,
/// appending its record and pushing its children in order leaves the records
/// still to come exactly those that were owed before, after `t`'s own.
pub proof fn lemma_crawl_step(s: Seq<Tree>, t: Tree)
    ensures
        pending_records(s.push(t)) == seq![record_of(t)] + pending_records(s + t.children),
{
    lemma_stack_prefix(s, seq![t], s.len() as int);
    assert(s.push(t) =~= s + seq![t]);
    assert(s.push(t)[s.len() as int] == t);
    assert(pending_records(s.push(t)) == flatten(t) + flatten_stack(s.push(t), s.len() as int));
    assert(flatten(t) == seq![record_of(t)] + pending_records(t.children));
    lemma_stack_concat(s, t.children, t.children.len() as int);
    assert(pending_records(s.push(t)) =~= seq![record_of(t)] + (pending_records(t.children)
        + pending_records(s)));
}

proof fn lemma_fold_concat(done: Seq<Tree>, a: Seq<Record>, b: Seq<Record>)
    ensures
        fold_from(done, a + b) == match fold_from(done, b) {
            Some(d) => fold_from(d, a),
            None => None,
        },
    decreases b.len(),
{
    if b.len() == 0 {
        assert(a + b =~= a);
    } else {
        assert((a + b).last() == b.last());
        assert((a + b).drop_last() =~= a + b.drop_last());
        match fold_step(done, b.last()) {
            None => {},
            Some(d) => {
                lemma_fold_concat(d, a, b.drop_last());
            },
        }
    }
}

proof fn lemma_fold_flatten(done: Seq<Tree>, t: Tree)
    requires
        well_sized(t),
    ensures
        fold_from(done, flatten(t)) == Some(done.push(t)),
    decreases t, 0int,
{
    let n = t.children.len() as int;
    lemma_fold_stack(done, t.children, n);
    lemma_fold_concat(done, seq![record_of(t)], flatten_stack(t.children, n));
    let d = done + t.children.take(n);
    assert(t.children.take(n) =~= t.children);
    let r = record_of(t);
    assert(r.child_count == n);
    assert(d.take(done.len() as int) =~= done);
    assert(d.skip(done.len() as int) =~= t.children);
    assert(seq![r].drop_last() =~= Seq::<Record>::empty());
    let e = done.push(Tree { role: t.role, children: t.children });
    assert(fold_step(d, r) == Some(e));
    assert(fold_from(e, seq![r].drop_last()) == Some(e));
    assert(fold_from(d, seq![r]) == Some(e));
    assert(Tree { role: t.role, children: t.children } == t);
}

proof fn lemma_fold_stack(done: Seq<Tree>, cs: Seq<Tree>, k: int)
    requires
        0 <= k <= cs.len(),
        forall|i: int| 0 <= i < cs.len() ==> well_sized(#[trigger] cs[i]),
    ensures
        fold_from(done, flatten_stack(cs, k)) == Some(done + cs.take(k)),
    decreases cs, k,
{
    if k == 0 {
        assert(done + cs.take(0) =~= done);
    } else {
        lemma_fold_stack(done, cs, k - 1);
        lemma_fold_concat(done, flatten(cs[k - 1]), flatten_stack(cs, k - 1));
        lemma_fold_flatten(done + cs.take(k - 1), cs[k - 1]);
        assert((done + cs.take(k - 1)).push(cs[k - 1]) =~= done + cs.take(k));
    }
}

/// Folding the records of a crawl leaves exactly one completed node: the
/// crawled tree itself.
pub proof fn lemma_fold_leaves_one(t: Tree)
    requires
        well_sized(t),
    ensures
        fold_from(Seq::empty(), flatten(t)) == Some(seq![t]),
{
    lemma_fold_flatten(Seq::empty(), t);
    assert(Seq::<Tree>::empty().push(t) =~= seq![t]);
}

/// Crawling a tree and folding its records gives back the same tree: the
/// same role at every position and the same children in the same order,
/// whatever its depth and branching.
pub proof fn lemma_round_trip(t: Tree)
    requires
        well_sized(t),
    ensures
        folded(flatten(t)) == Some(t),
{
    lemma_fold_leaves_one(t);
}

proof fn lemma_trees_of(cs: Seq<A11yNode>, k: int)
    requires
        0 <= k <= cs.len(),
    ensures
        trees_of(cs, k).len() == k,
        forall|i: int| 0 <= i < k ==> #[trigger] trees_of(cs, k)[i] == tree_of(cs[i]),
    decreases k,
{
    if k > 0 {
        lemma_trees_of(cs, k - 1);
    }
}

proof fn lemma_shapes(cs: Seq<A11yNode>)
    ensures
        shapes(cs).len() == cs.len(),
        forall|i: int| 0 <= i < cs.len() ==> #[trigger] shapes(cs)[i] == tree_of(cs[i]),
{
    lemma_trees_of(cs, cs.len() as int);
}

/// Reassembles the records of a crawl, last record first, into one tree.
pub fn fold_records(records: Vec<Record>) -> (r: Result<A11yNode, CrawlError>)
    ensures
        r is Ok <==> folded(records@) is Some,
        r matches Ok(n) ==> folded(records@) == Some(n@),
        r == Err::<A11yNode, CrawlError>(CrawlError::MissingChildren) <==> fold_fails_early(
            records@,
        ),
{
    let mut pending = records;
    let mut done: Vec<A11yNode> = Vec::new();
    let ghost all = records@;
    proof {
        lemma_shapes(done@);
        assert(shapes(done@) =~= Seq::<Tree>::empty());
    }
    while pending.len() > 0
        invariant
            all == records@,
            fold_from(Seq::empty(), all) == fold_from(shapes(done@), pending@),
        decreases pending.len(),
    {
        let ghost prev = pending@;
        let r = pending.pop().unwrap();
        proof {
            lemma_shapes(done@);
            assert(prev.drop_last() == pending@);
            assert(prev.last() == r);
        }
        if r.child_count > done.len() {
            return Err(CrawlError::MissingChildren);
        }
        let ghost before = done@;
        let begin = done.len() - r.child_count;
        let children = done.split_off(begin);
        done.push(A11yNode { role: r.role, children });
        proof {
            lemma_shapes(before);
            lemma_shapes(done@);
            lemma_shapes(children@);
            let d = shapes(before);
            let k = d.len() - r.child_count;
            assert(children@ == before.skip(k));
            assert(shapes(children@) =~= d.skip(k));
            assert(done@[done@.len() - 1]@ == Tree { role: r.role, children: shapes(children@) });
            assert(shapes(done@) =~= d.take(k).push(
                Tree { role: r.role, children: d.skip(k) },
            ));
        }
    }
    proof {
        lemma_shapes(done@);
    }
    if done.len() != 1 {
        return Err(CrawlError::RootCount);
    }
    let root = done.pop().unwrap();
    Ok(root)
}

} // verus!
