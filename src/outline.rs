//! The text in front of each node when a tree is drawn as an outline: one
//! column per ancestor level, then the branch that leads to the node.
use crate::tree::A11yNode;
use atspi::Role;
use vstd::prelude::*;

verus! {

/// The characters an outline is drawn with.
#[derive(Debug, Clone, Copy, PartialEq, Eq)]
pub struct Branches {
    pub horizontal: char,
    pub vertical: char,
    pub connector: char,
    pub end_connector: char,
}

/// One column: `innermost` says whether it is the column next to the node,
/// `last` whether the node of that level is the last of its siblings.
pub open spec fn column(b: Branches, innermost: bool, last: bool) -> Seq<char> {
    if innermost {
        if last {
            seq![b.end_connector]
        } else {
            seq![b.connector]
        }
    } else if last {
        seq![' ', ' ', ' ', ' ']
    } else {
        seq![b.vertical, ' ', ' ', ' ']
    }
}

/// The first `k` columns for the levels `levels`.
pub open spec fn columns_upto(b: Branches, levels: Seq<bool>, k: int) -> Seq<char>
    decreases k,
{
    if k <= 0 || k > levels.len() {
        Seq::empty()
    } else {
        columns_upto(b, levels, k - 1) + column(b, k == levels.len(), levels[k - 1])
    }
}

/// The text in front of a node's label: its columns, two horizontal
/// characters and a space.
pub open spec fn line_head_spec(b: Branches, levels: Seq<bool>) -> Seq<char> {
    columns_upto(b, levels, levels.len() as int) + seq![b.horizontal, b.horizontal, ' ']
}

/// Relies on `String::push`: appends one character.
#[verifier::external_body]
fn push_char(s: &mut String, c: char)
    ensures
        final(s)@ == old(s)@.push(c),
{
    s.push(c)
}

/// The text in front of a node's label, given for each level from the root
/// down whether the node of that level is the last of its siblings.
pub fn line_head(b: Branches, levels: &Vec<bool>) -> (r: String)
    ensures
        r@ == line_head_spec(b, levels@),
{
    let mut s = String::new();
    let mut i: usize = 0;
    while i < levels.len()
        invariant
            i <= levels@.len(),
            s@ == columns_upto(b, levels@, i as int),
        decreases levels@.len() - i,
    {
        let last = levels[i];
        if i + 1 == levels.len() {
            if last {
                push_char(&mut s, b.end_connector);
            } else {
                push_char(&mut s, b.connector);
            }
        } else {
            if !last {
                push_char(&mut s, b.vertical);
            } else {
                push_char(&mut s, ' ');
            }
            push_char(&mut s, ' ');
            push_char(&mut s, ' ');
            push_char(&mut s, ' ');
        }
        i = i + 1;
        assert(s@ =~= columns_upto(b, levels@, i as int));
    }
    push_char(&mut s, b.horizontal);
    push_char(&mut s, b.horizontal);
    push_char(&mut s, ' ');
    s
}

/// The outline rows of `n` and its descendants in pre-order: for each node,
/// the levels of its line head and its role. `levels` are `n`'s own.
pub open spec fn rows_of(n: A11yNode, levels: Seq<bool>) -> Seq<(Seq<bool>, Role)>
    decreases n, 0int,
{
    seq![(levels, n.role)] + rows_from(n.children@, levels, 0)
}

/// The rows of the children `cs[i..]` of a node whose levels are `levels`.
pub open spec fn rows_from(cs: Seq<A11yNode>, levels: Seq<bool>, i: int) -> Seq<(Seq<bool>, Role)>
    decreases cs, cs.len() - i,
{
    if i < 0 || i >= cs.len() {
        Seq::empty()
    } else {
        rows_of(cs[i], levels.push(i == cs.len() - 1)) + rows_from(cs, levels, i + 1)
    }
}

/// The rows still owed by the first `k` entries of a walk's stack, the top
/// (last) entry first.
pub open spec fn rows_pending(st: Seq<(&A11yNode, Vec<bool>)>, k: int) -> Seq<(Seq<bool>, Role)>
    decreases k,
{
    if k <= 0 || k > st.len() {
        Seq::empty()
    } else {
        rows_of(*st[k - 1].0, st[k - 1].1@) + rows_pending(st, k - 1)
    }
}

proof fn lemma_pending_prefix(st: Seq<(&A11yNode, Vec<bool>)>, x: (&A11yNode, Vec<bool>), k: int)
    requires
        0 <= k <= st.len(),
    ensures
        rows_pending(st.push(x), k) == rows_pending(st, k),
    decreases k,
{
    if k > 0 {
        lemma_pending_prefix(st, x, k - 1);
        assert(st.push(x)[k - 1] == st[k - 1]);
    }
}

fn copy_levels(levels: &Vec<bool>) -> (r: Vec<bool>)
    ensures
        r@ == levels@,
{
    let mut r: Vec<bool> = Vec::new();
    let mut i: usize = 0;
    while i < levels.len()
        invariant
            i <= levels@.len(),
            r@ == levels@.take(i as int),
        decreases levels@.len() - i,
    {
        r.push(levels[i]);
        i = i + 1;
        assert(r@ =~= levels@.take(i as int));
    }
    assert(levels@.take(levels@.len() as int) =~= levels@);
    r
}

/// The rows of an outline of `tree` in drawing order: each node after its
/// parent and before its later siblings, with the levels of its line head.
/// The walk keeps its own stack, so deep trees need no deep recursion.
pub fn outline_rows(tree: &A11yNode) -> (rows: Vec<(Vec<bool>, Role)>)
    ensures
        rows@.len() == rows_of(*tree, Seq::empty()).len(),
        forall|i: int| 0 <= i < rows@.len() ==> (#[trigger] rows@[i]).0@ == rows_of(
            *tree,
            Seq::empty(),
        )[i].0 && rows@[i].1 == rows_of(*tree, Seq::empty())[i].1,
{
    let ghost all = rows_of(*tree, Seq::empty());
    let mut rows: Vec<(Vec<bool>, Role)> = Vec::new();
    let mut stack: Vec<(&A11yNode, Vec<bool>)> = Vec::new();
    stack.push((tree, Vec::new()));
    proof {
        assert(rows_pending(stack@, 1) == rows_of(*tree, Seq::empty()) + rows_pending(stack@, 0));
        assert(all =~= rows_pending(stack@, 1));
    }
    while stack.len() > 0
        invariant
            all == rows_of(*tree, Seq::empty()),
            forall|i: int| 0 <= i < rows@.len() ==> (#[trigger] rows@[i]).0@ == all[i].0
                && rows@[i].1 == all[i].1,
            rows@.len() + rows_pending(stack@, stack@.len() as int).len() == all.len(),
            all.skip(rows@.len() as int) == rows_pending(stack@, stack@.len() as int),
        decreases all.len() - rows@.len(),
    {
        let ghost before = stack@;
        let (node, levels) = stack.pop().unwrap();
        let ghost base = stack@;
        proof {
            assert(before == base.push((node, levels)));
            lemma_pending_prefix(base, (node, levels), base.len() as int);
            assert(rows_pending(before, before.len() as int) == rows_of(*node, levels@)
                + rows_pending(base, base.len() as int));
        }
        let ghost owed = rows_of(*node, levels@) + rows_pending(base, base.len() as int);
        let ghost done = rows@.len();
        rows.push((copy_levels(&levels), node.role));
        proof {
            assert(all[done as int] == owed[0]);
            assert(all.skip(rows@.len() as int) =~= owed.skip(1));
        }
        let n = node.children.len();
        let mut j: usize = n;
        while j > 0
            invariant
                j <= n,
                n == node.children@.len(),
                stack@.len() >= base.len(),
                stack@.subrange(0, base.len() as int) == base,
                rows_pending(stack@, stack@.len() as int) == rows_from(node.children@, levels@, j as int)
                    + rows_pending(base, base.len() as int),
            decreases j,
        {
            j = j - 1;
            let mut child_levels = copy_levels(&levels);
            child_levels.push(j + 1 == n);
            let ghost prev = stack@;
            stack.push((&node.children[j], child_levels));
            proof {
                lemma_pending_prefix(prev, stack@.last(), prev.len() as int);
                assert(stack@ == prev.push(stack@.last()));
                assert(stack@.subrange(0, base.len() as int) =~= prev.subrange(0, base.len() as int));
                assert(rows_pending(stack@, stack@.len() as int) =~= rows_from(node.children@, levels@, j as int)
                    + rows_pending(base, base.len() as int));
            }
        }
        proof {
            assert(rows_of(*node, levels@) == seq![(levels@, node.role)] + rows_from(node.children@, levels@, 0));
            assert(owed.skip(1) =~= rows_pending(stack@, stack@.len() as int));
        }
    }
    rows
}

} // verus!
