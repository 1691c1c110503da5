//! The decisions of a crawl: which node to expand next and what is recorded
//! of it. The caller fetches each node's children and role and reports them
//! back, so the walk needs no native recursion.
use crate::tree::{fold_records, folded, fold_fails_early, A11yNode, CrawlError, Record};
use atspi::Role;
use vstd::prelude::*;

verus! {

/// A crawl in progress over handles of type `H`.
pub struct Crawler<H> {
    stack: Vec<H>,
    records: Vec<Record>,
}

impl<H> Crawler<H> {
    /// Handles not yet expanded; the last one is expanded next.
    pub closed spec fn pending(&self) -> Seq<H> {
        self.stack@
    }

    /// Records of the expanded nodes, in expansion order.
    pub closed spec fn records(&self) -> Seq<Record> {
        self.records@
    }

    /// Starts a crawl at `root`.
    pub fn new(root: H) -> (c: Self)
        ensures
            c.pending() == seq![root],
            c.records() == Seq::<Record>::empty(),
    {
        let mut stack: Vec<H> = Vec::new();
        stack.push(root);
        Crawler { stack, records: Vec::new() }
    }

    /// Takes the handle to expand next, or `None` once the walk is complete.
    pub fn next_pending(&mut self) -> (h: Option<H>)
        ensures
            old(self).pending().len() == 0 ==> h is None && final(self).pending() == old(
                self,
            ).pending() && final(self).records() == old(self).records(),
            old(self).pending().len() > 0 ==> h == Some(old(self).pending().last())
                && final(self).pending() == old(self).pending().drop_last()
                && final(self).records() == old(self).records(),
    {
        self.stack.pop()
    }

    /// Reports the node just taken: its role and its children in the order
    /// the protocol returned them. The children are pushed in that order, so
    /// the last one is expanded next.
    pub fn visit(&mut self, role: Role, children: Vec<H>)
        ensures
            final(self).pending() == old(self).pending() + children@,
            final(self).records() == old(self).records().push(
                Record { role, child_count: children@.len() as usize },
            ),
    {
        let count = children.len();
        let mut children = children;
        self.stack.append(&mut children);
        self.records.push(Record { role, child_count: count });
    }

    /// Folds the records gathered so far into the snapshot tree.
    pub fn finish(self) -> (r: Result<A11yNode, CrawlError>)
        ensures
            r is Ok <==> folded(self.records()) is Some,
            r matches Ok(n) ==> folded(self.records()) == Some(n@),
            r == Err::<A11yNode, CrawlError>(CrawlError::MissingChildren) <==> fold_fails_early(
                self.records(),
            ),
    {
        fold_records(self.records)
    }
}

} // verus!
