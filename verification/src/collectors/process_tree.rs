//! The process forest: every process of one raw read appears as exactly
//! one node of an arena; parent/child links are resolved by pid lookup,
//! never by nested ownership.
use vstd::prelude::*;
use crate::collectors::process::{ProcSample, ProcSampleView};
use crate::seq_view;

verus! {

/// One node of the process forest. `children` holds the pids of the
/// node's children, in the order of the raw read; the nodes themselves
/// live side by side in the forest's node list. `cpu_usage` is in
/// hundredths of a percent.
pub struct ProcessTreeNode {
    pub pid: u32,
    pub name: String,
    pub cpu_usage: u32,
    pub memory_usage_bytes: u64,
    pub children: Vec<u32>,
    pub parent_pid: Option<u32>,
}

/// Mathematical model of `ProcessTreeNode`.
pub ghost struct ProcessTreeNodeView {
    pub pid: u32,
    pub name: Seq<char>,
    pub cpu_usage: u32,
    pub memory_usage_bytes: u64,
    pub children: Seq<u32>,
    pub parent_pid: Option<u32>,
}

impl View for ProcessTreeNode {
    type V = ProcessTreeNodeView;

    open spec fn view(&self) -> ProcessTreeNodeView {
        ProcessTreeNodeView {
            pid: self.pid,
            name: self.name@,
            cpu_usage: self.cpu_usage,
            memory_usage_bytes: self.memory_usage_bytes,
            children: self.children@,
            parent_pid: self.parent_pid,
        }
    }
}

impl Clone for ProcessTreeNode {
    fn clone(&self) -> (res: Self)
        ensures
            res@ == self@,
    {
        let children = crate::copy_u32s(&self.children);
        ProcessTreeNode {
            pid: self.pid,
            name: self.name.clone(),
            cpu_usage: self.cpu_usage,
            memory_usage_bytes: self.memory_usage_bytes,
            children,
            parent_pid: self.parent_pid,
        }
    }
}

/// Whether some entry of the list carries this pid.
pub open spec fn has_pid(s: Seq<ProcSampleView>, p: u32) -> bool {
    exists|j: int| 0 <= j < s.len() && s[j].pid == p
}

/// The pids whose entry names `p` as parent, in list order. An entry
/// naming itself is not its own child.
pub open spec fn child_pids(s: Seq<ProcSampleView>, p: u32) -> Seq<u32>
    decreases s.len(),
{
    if s.len() == 0 {
        Seq::empty()
    } else {
        let rest = child_pids(s.drop_last(), p);
        let q = s.last();
        if q.parent_pid == Some(p) && q.pid != p {
            rest.push(q.pid)
        } else {
            rest
        }
    }
}

/// An entry is a root of the forest when it names no parent, names
/// itself, or names a pid that is missing from the list.
pub open spec fn is_root(s: Seq<ProcSampleView>, q: ProcSampleView) -> bool {
    match q.parent_pid {
        None => true,
        Some(pp) => pp == q.pid || !has_pid(s, pp),
    }
}

/// The forest node an entry of the list turns into.
pub open spec fn node_of_sample(s: Seq<ProcSampleView>, q: ProcSampleView) -> ProcessTreeNodeView {
    ProcessTreeNodeView {
        pid: q.pid,
        name: q.name,
        cpu_usage: q.cpu_usage,
        memory_usage_bytes: q.memory_bytes,
        children: child_pids(s, q.pid),
        parent_pid: q.parent_pid,
    }
}

impl ProcessTreeNode {
    /// A fresh node with no children resolved yet.
    pub fn new(
        pid: u32,
        name: String,
        cpu_usage: u32,
        memory_usage_bytes: u64,
        parent_pid: Option<u32>,
    ) -> (r: ProcessTreeNode)
        ensures
            r@ == (ProcessTreeNodeView {
                pid,
                name: name@,
                cpu_usage,
                memory_usage_bytes,
                children: Seq::empty(),
                parent_pid,
            }),
    {
        ProcessTreeNode { pid, name, cpu_usage, memory_usage_bytes, children: Vec::new(), parent_pid }
    }

    /// Records one more child pid under this node.
    pub fn add_child(&mut self, child_pid: u32)
        ensures
            final(self)@ == (ProcessTreeNodeView { children: old(self)@.children.push(child_pid), ..old(self)@ }),
    {
        self.children.push(child_pid);
    }
}

/// Builds the process forest of a flat process list: one node per entry,
/// in list order, each node's children being exactly the pids that name
/// it as parent.
pub fn build_process_tree(procs: &Vec<ProcSample>) -> (forest: Vec<ProcessTreeNode>)
    ensures
        forest@.len() == procs@.len(),
        forall|i: int|
            0 <= i < procs@.len() ==> forest@[i]@ == node_of_sample(
                seq_view(procs@),
                procs@[i]@,
            ),
{
    let ghost s = seq_view(procs@);
    let mut forest: Vec<ProcessTreeNode> = Vec::new();
    let mut i: usize = 0;
    while i < procs.len()
        invariant
            i <= procs.len(),
            s == seq_view(procs@),
            s.len() == procs@.len(),
            forall|k: int| 0 <= k < s.len() ==> s[k] == procs@[k]@,
            forest@.len() == i,
            forall|k: int| 0 <= k < i ==> forest@[k]@ == node_of_sample(s, procs@[k]@),
        decreases procs.len() - i,
    {
        let p = &procs[i];
        let mut node = ProcessTreeNode::new(
            p.pid,
            p.name.clone(),
            p.cpu_usage,
            p.memory_bytes,
            p.parent_pid,
        );
        let mut j: usize = 0;
        while j < procs.len()
            invariant
                j <= procs.len(),
                s == seq_view(procs@),
                s.len() == procs@.len(),
                forall|k: int| 0 <= k < s.len() ==> s[k] == procs@[k]@,
                node@.pid == p@.pid && node@.name == p@.name && node@.cpu_usage == p@.cpu_usage
                    && node@.memory_usage_bytes == p@.memory_bytes && node@.parent_pid
                    == p@.parent_pid,
                p@ == procs@[i as int]@,
                node@.children == child_pids(s.take(j as int), p@.pid),
            decreases procs.len() - j,
        {
            let q = &procs[j];
            if q.parent_pid == p.pid_as_parent() && q.pid != p.pid {
                node.add_child(q.pid);
            }
            proof {
                assert(s.take(j + 1 as int).drop_last() =~= s.take(j as int));
                assert(s.take(j + 1 as int).last() == s[j as int]);
            }
            j = j + 1;
        }
        proof {
            assert(s.take(s.len() as int) =~= s);
        }
        forest.push(node);
        i = i + 1;
    }
    forest
}

impl ProcSample {
    /// The pid wrapped as a parent link, for comparison against
    /// `parent_pid` fields.
    fn pid_as_parent(&self) -> (r: Option<u32>)
        ensures
            r == Some(self.pid),
    {
        Some(self.pid)
    }
}

/// Whether a sequence of pids is duplicate-free.
pub open spec fn distinct_pids(s: Seq<ProcSampleView>) -> bool {
    forall|i: int, j: int| 0 <= i < j < s.len() ==> s[i].pid != s[j].pid
}

/// Membership in a children list, spelled out: `c` is a child of `p`
/// exactly when some entry carries pid `c` and names `p` as its parent.
pub proof fn lemma_child_pids_member(s: Seq<ProcSampleView>, p: u32, c: u32)
    ensures
        child_pids(s, p).contains(c) <==> exists|k: int|
            0 <= k < s.len() && s[k].pid == c && s[k].parent_pid == Some(p) && c != p,
    decreases s.len(),
{
    if s.len() > 0 {
        lemma_child_pids_member(s.drop_last(), p, c);
        let t = s.drop_last();
        let q = s.last();
        if child_pids(s, p).contains(c) {
            if q.parent_pid == Some(p) && q.pid != p && c == q.pid {
                assert(s[s.len() - 1].pid == c && s[s.len() - 1].parent_pid == Some(p));
            } else {
                if child_pids(t, p).contains(c) {
                    let k = choose|k: int|
                        0 <= k < t.len() && t[k].pid == c && t[k].parent_pid == Some(p) && c != p;
                    assert(s[k].pid == c && s[k].parent_pid == Some(p));
                } else {
                    // the new last element must account for the membership
                    if q.parent_pid == Some(p) && q.pid != p {
                        assert(child_pids(s, p) == child_pids(t, p).push(q.pid));
                        assert(c == q.pid || child_pids(t, p).contains(c)) by {
                            let m = choose|m: int|
                                0 <= m < child_pids(s, p).len() && child_pids(s, p)[m] == c;
                            if m < child_pids(t, p).len() {
                                assert(child_pids(t, p)[m] == c);
                            }
                        }
                    }
                }
            }
        }
        if exists|k: int| 0 <= k < s.len() && s[k].pid == c && s[k].parent_pid == Some(p) && c != p {
            let k = choose|k: int|
                0 <= k < s.len() && s[k].pid == c && s[k].parent_pid == Some(p) && c != p;
            if k < s.len() - 1 {
                assert(t[k].pid == c && t[k].parent_pid == Some(p));
                assert(child_pids(t, p).contains(c));
                let m = choose|m: int| 0 <= m < child_pids(t, p).len() && child_pids(t, p)[m] == c;
                if q.parent_pid == Some(p) && q.pid != p {
                    assert(child_pids(s, p)[m] == c);
                } else {
                    assert(child_pids(s, p)[m] == c);
                }
            } else {
                assert(q.pid == c && q.parent_pid == Some(p));
                assert(child_pids(s, p).last() == c);
            }
        }
    }
}

/// A children list never repeats a pid when the flat list's pids are
/// pairwise distinct.
pub proof fn lemma_child_pids_distinct(s: Seq<ProcSampleView>, p: u32)
    requires
        distinct_pids(s),
    ensures
        forall|a: int, b: int|
            0 <= a < b < child_pids(s, p).len() ==> child_pids(s, p)[a] != child_pids(s, p)[b],
    decreases s.len(),
{
    if s.len() > 0 {
        let t = s.drop_last();
        assert(distinct_pids(t)) by {
            assert(forall|i: int, j: int|
                0 <= i < j < t.len() ==> s[i].pid == t[i].pid && s[j].pid == t[j].pid);
        }
        lemma_child_pids_distinct(t, p);
        let q = s.last();
        if q.parent_pid == Some(p) && q.pid != p {
            // the appended pid is distinct from every earlier child pid
            assert forall|a: int| 0 <= a < child_pids(t, p).len() implies child_pids(t, p)[a]
                != q.pid by {
                lemma_child_pids_member(t, p, child_pids(t, p)[a]);
                let k = choose|k: int|
                    0 <= k < t.len() && t[k].pid == child_pids(t, p)[a] && t[k].parent_pid == Some(
                        p,
                    ) && child_pids(t, p)[a] != p;
                assert(s[k].pid == child_pids(t, p)[a]);
                assert(s[k].pid != s[s.len() - 1].pid);
            }
        }
    }
}

/// Law: with pairwise distinct pids, the forest of `build_process_tree`
/// partitions the process list. Every pid appears as exactly one node;
/// a pid whose entry names a present, distinct parent appears in exactly
/// that parent's children list; every other pid is a root and appears in
/// no children list at all.
pub proof fn lemma_forest_partition(s: Seq<ProcSampleView>, i: int)
    requires
        distinct_pids(s),
        0 <= i < s.len(),
    ensures
        (match s[i].parent_pid {
            Some(pp) => pp != s[i].pid && has_pid(s, pp) ==> forall|j: int|
                0 <= j < s.len() ==> (child_pids(s, s[j].pid).contains(s[i].pid) <==> s[j].pid
                    == pp),
            None => true,
        }),
        is_root(s, s[i]) ==> forall|j: int|
            0 <= j < s.len() ==> !child_pids(s, s[j].pid).contains(s[i].pid),
{
    let c = s[i].pid;
    assert forall|j: int| 0 <= j < s.len() implies (child_pids(s, s[j].pid).contains(c) <==> (
    s[i].parent_pid == Some(s[j].pid) && c != s[j].pid)) by {
        lemma_child_pids_member(s, s[j].pid, c);
        if child_pids(s, s[j].pid).contains(c) {
            let k = choose|k: int|
                0 <= k < s.len() && s[k].pid == c && s[k].parent_pid == Some(s[j].pid)
                    && c != s[j].pid;
            assert(k == i);
        }
    }
}

} // verus!
