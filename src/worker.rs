use vstd::prelude::*;

verus! {

/// How records move along an edge of the logical graph.
#[derive(Clone, Copy, Debug, PartialEq, Eq, Structural, PartialOrd, Ord)]
pub enum LogicalEdge {
    Forward,
    Shuffle,
    ShuffleJoin(usize),
}

/// The decimal digits of `n`.
pub open spec fn decimal(n: nat) -> Seq<char>
    decreases n,
{
    if n < 10 {
        "0123456789"@.subrange(n as int, n as int + 1)
    } else {
        decimal(n / 10) + "0123456789"@.subrange((n % 10) as int, (n % 10) as int + 1)
    }
}

/// Appends the decimal digits of `n` to `out`.
fn write_decimal(n: usize, out: &mut String)
    ensures
        final(out)@ == old(out)@ + decimal(n as nat),
    decreases n,
{
    proof {
        reveal_strlit("0123456789");
    }
    if n >= 10 {
        write_decimal(n / 10, out);
    }
    let d = n % 10;
    out.append("0123456789".substring_char(d, d + 1));
    proof {
        assert(old(out)@ + decimal(n as nat) =~= if n >= 10 {
            old(out)@ + decimal((n / 10) as nat) + "0123456789"@.subrange(d as int, d + 1)
        } else {
            old(out)@ + "0123456789"@.subrange(d as int, d + 1)
        });
    }
}

impl LogicalEdge {
    /// The edge as drawn in a printed graph: `→`, `⤨`, or the join order before `⤨`.
    pub fn to_string(&self) -> (r: String)
        ensures
            r@ == match *self {
                LogicalEdge::Forward => "→"@,
                LogicalEdge::Shuffle => "⤨"@,
                LogicalEdge::ShuffleJoin(order) => decimal(order as nat) + "⤨"@,
            },
    {
        match self {
            LogicalEdge::Forward => "→".to_owned(),
            LogicalEdge::Shuffle => "⤨".to_owned(),
            LogicalEdge::ShuffleJoin(order) => {
                let mut out = String::new();
                write_decimal(*order, &mut out);
                assert(Seq::<char>::empty() + decimal(*order as nat) =~= decimal(*order as nat));
                out.append("⤨");
                out
            },
        }
    }
}

/// What a local run needs to know of the program it runs.
#[derive(Debug)]
pub struct Program {
    pub name: String,
    /// The number of tasks, over all operators, that must finish.
    pub total_nodes: usize,
}

/// Runs a whole program in one process and tells when every task has finished.
#[derive(Debug)]
pub struct LocalRunner {
    pub program: Program,
    /// The (operator, task index) pairs seen finishing, each once.
    pub finished: Vec<(String, u32)>,
}

/// The pair is among `fs`.
pub open spec fn seen(fs: Seq<(String, u32)>, operator_id: Seq<char>, task_index: u32) -> bool {
    exists|i: int| 0 <= i < fs.len() && fs[i].0@ == operator_id && fs[i].1 == task_index
}

impl LocalRunner {
    pub fn new(program: Program) -> (r: LocalRunner)
        ensures
            r.program == program,
            r.finished@.len() == 0,
    {
        LocalRunner { program, finished: Vec::new() }
    }

    pub open spec fn wf(&self) -> bool {
        forall|i: int, j: int| 0 <= i < j < self.finished@.len() ==>
            !(self.finished@[i].0@ == self.finished@[j].0@ && self.finished@[i].1 == self.finished@[j].1)
    }

    /// Records that task `task_index` of `operator_id` finished, once per task, and says
    /// whether the run is now complete: whether this report brought the count of finished
    /// tasks to the program's total.
    pub fn task_finished(&mut self, operator_id: String, task_index: u32) -> (done: bool)
        requires
            old(self).wf(),
        ensures
            final(self).wf(),
            final(self).program == old(self).program,
            seen(final(self).finished@, operator_id@, task_index),
            forall|o: Seq<char>, t: u32| o != operator_id@ || t != task_index ==>
                (seen(final(self).finished@, o, t) <==> seen(old(self).finished@, o, t)),
            final(self).finished@.len() == old(self).finished@.len()
                + if seen(old(self).finished@, operator_id@, task_index) { 0int } else { 1int },
            done == (final(self).finished@.len() == old(self).program.total_nodes),
    {
        let mut i: usize = 0;
        while i < self.finished.len()
            invariant
                i <= self.finished@.len(),
                *self == *old(self),
                old(self).wf(),
                forall|j: int| 0 <= j < i ==> !(self.finished@[j].0@ == operator_id@ && self.finished@[j].1 == task_index),
            decreases self.finished@.len() - i,
        {
            if self.finished[i].0 == operator_id && self.finished[i].1 == task_index {
                return self.finished.len() == self.program.total_nodes;
            }
            i = i + 1;
        }
        self.finished.push((operator_id, task_index));
        proof {
            let fs = self.finished@;
            assert forall|o: Seq<char>, t: u32| o != operator_id@ || t != task_index implies
                (seen(fs, o, t) <==> seen(old(self).finished@, o, t)) by {
                if seen(fs, o, t) {
                    let k = choose|k: int| 0 <= k < fs.len() && fs[k].0@ == o && fs[k].1 == t;
                    assert(k < old(self).finished@.len());
                    assert(fs[k] == old(self).finished@[k]);
                }
                if seen(old(self).finished@, o, t) {
                    let k = choose|k: int| 0 <= k < old(self).finished@.len() && old(self).finished@[k].0@ == o && old(self).finished@[k].1 == t;
                    assert(fs[k] == old(self).finished@[k]);
                }
            }
            assert(fs[fs.len() - 1].0@ == operator_id@);
        }
        self.finished.len() == self.program.total_nodes
    }
}

} // verus!
