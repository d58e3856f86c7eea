//! The ordered chain of stages and the algorithm that runs a chunk through it.
use vstd::prelude::*;
use vstd::slice::slice_to_vec;

use crate::middleware::{chunk_view, MiddlewareTrait};

verus! {

/// Which way a chunk flows, and so which callback of each stage runs.
#[derive(Clone, Copy, Debug, PartialEq, Eq)]
pub enum Direction {
    /// From the process towards the user.
    Output,
    /// From the user towards the process.
    Input,
}

/// What stage `s` returns for the chunk `d` flowing in direction `dir`.
pub open spec fn stage_result<S: MiddlewareTrait>(s: S, dir: Direction, d: Seq<u8>) -> Option<
    Seq<u8>,
> {
    match dir {
        Direction::Output => s.output_result(d),
        Direction::Input => s.input_result(d),
    }
}

/// Whether stage `s` may become `next` on seeing `d` in direction `dir`.
pub open spec fn stage_next<S: MiddlewareTrait>(
    s: S,
    dir: Direction,
    d: Seq<u8>,
    next: S,
) -> bool {
    match dir {
        Direction::Output => s.output_next(d, next),
        Direction::Input => s.input_next(d, next),
    }
}

/// What leaves `stages` when `data` enters at the front: each stage in order
/// takes what the one before returned, and once a stage suppresses the chunk
/// no later stage sees it.
pub open spec fn run_chain<S: MiddlewareTrait>(
    stages: Seq<S>,
    dir: Direction,
    data: Option<Seq<u8>>,
) -> Option<Seq<u8>>
    decreases stages.len(),
{
    if stages.len() == 0 {
        data
    } else {
        match run_chain(stages.drop_last(), dir, data) {
            Some(d) => stage_result(stages.last(), dir, d),
            None => None,
        }
    }
}

/// Stage `i` of `new` is what stage `i` of `old` became: moved by its callback
/// if the chunk reached it, unchanged if the chunk was suppressed before it.
pub open spec fn stage_moved<S: MiddlewareTrait>(
    old_stages: Seq<S>,
    new_stages: Seq<S>,
    dir: Direction,
    data: Seq<u8>,
    i: int,
) -> bool {
    match run_chain(old_stages.take(i), dir, Some(data)) {
        Some(x) => stage_next(old_stages[i], dir, x, new_stages[i]),
        None => new_stages[i] == old_stages[i],
    }
}

/// One more stage: the chunk leaving stage `i` is that stage's answer to what
/// the stages before it let through.
pub proof fn lemma_run_chain_step<S: MiddlewareTrait>(
    stages: Seq<S>,
    dir: Direction,
    data: Option<Seq<u8>>,
    i: int,
)
    requires
        0 <= i < stages.len(),
    ensures
        run_chain(stages.take(i + 1), dir, data) == match run_chain(stages.take(i), dir, data) {
            Some(d) => stage_result(stages[i], dir, d),
            None => None,
        },
{
    assert(stages.take(i + 1).drop_last() =~= stages.take(i));
}

/// A suppressed chunk stays suppressed through any further stages.
pub proof fn lemma_suppressed_stays<S: MiddlewareTrait>(
    stages: Seq<S>,
    dir: Direction,
    data: Option<Seq<u8>>,
    i: int,
    j: int,
)
    requires
        0 <= i <= j <= stages.len(),
        run_chain(stages.take(i), dir, data) is None,
    ensures
        run_chain(stages.take(j), dir, data) is None,
    decreases j - i,
{
    if j > i {
        lemma_suppressed_stays(stages, dir, data, i, j - 1);
        lemma_run_chain_step(stages, dir, data, j - 1);
    }
}

/// What a stage makes of a chunk that may already have been suppressed.
pub open spec fn after_stage<S: MiddlewareTrait>(
    s: S,
    dir: Direction,
    x: Option<Seq<u8>>,
) -> Option<Seq<u8>> {
    match x {
        Some(d) => stage_result(s, dir, d),
        None => None,
    }
}

/// Stages run in the order the chain holds them: a chunk goes to the first
/// stage, what it returns to the second, and that to the third. Built the
/// other way round, the same stages run in the reverse order.
pub proof fn law_chain_order<S: MiddlewareTrait>(s1: S, s2: S, s3: S, dir: Direction, d: Seq<u8>)
    ensures
        run_chain(seq![s1, s2, s3], dir, Some(d)) == after_stage(
            s3,
            dir,
            after_stage(s2, dir, stage_result(s1, dir, d)),
        ),
        run_chain(seq![s3, s2, s1], dir, Some(d)) == after_stage(
            s1,
            dir,
            after_stage(s2, dir, stage_result(s3, dir, d)),
        ),
{
    reveal_with_fuel(run_chain, 4);
    assert(seq![s1, s2, s3].drop_last() =~= seq![s1, s2]);
    assert(seq![s1, s2].drop_last() =~= seq![s1]);
    assert(seq![s1].drop_last() =~= Seq::<S>::empty());
    assert(seq![s3, s2, s1].drop_last() =~= seq![s3, s2]);
    assert(seq![s3, s2].drop_last() =~= seq![s3]);
    assert(seq![s3].drop_last() =~= Seq::<S>::empty());
}

/// Once stage `i` suppresses a chunk, the whole chain suppresses it, and no
/// later stage sees it: whatever the chain's run moves them to, the later
/// stages stay as they were.
pub proof fn law_short_circuit<S: MiddlewareTrait>(
    stages: Seq<S>,
    dir: Direction,
    d: Seq<u8>,
    i: int,
)
    requires
        0 <= i < stages.len(),
        after_stage(stages[i], dir, run_chain(stages.take(i), dir, Some(d))) is None,
    ensures
        run_chain(stages, dir, Some(d)) is None,
        forall|j: int| i < j <= stages.len() ==> run_chain(#[trigger] stages.take(j), dir, Some(d)) is None,
        forall|after: Seq<S>, j: int|
            i < j < stages.len() && #[trigger] stage_moved(stages, after, dir, d, j) ==> after[j]
                == stages[j],
{
    lemma_run_chain_step(stages, dir, Some(d), i);
    assert forall|j: int| i < j <= stages.len() implies run_chain(
        #[trigger] stages.take(j),
        dir,
        Some(d),
    ) is None by {
        lemma_suppressed_stays(stages, dir, Some(d), i + 1, j);
    }
    assert(stages.take(stages.len() as int) =~= stages);
}

/// A chain whose stages all hand every chunk back unchanged hands every chunk
/// back unchanged.
pub proof fn law_passthrough_chain<S: MiddlewareTrait>(stages: Seq<S>, dir: Direction, d: Seq<u8>)
    requires
        forall|i: int, x: Seq<u8>|
            0 <= i < stages.len() ==> #[trigger] stage_result(stages[i], dir, x) == Some(x),
    ensures
        run_chain(stages, dir, Some(d)) == Some(d),
    decreases stages.len(),
{
    if stages.len() > 0 {
        let rest = stages.drop_last();
        assert forall|i: int, x: Seq<u8>| 0 <= i < rest.len() implies #[trigger] stage_result(
            rest[i],
            dir,
            x,
        ) == Some(x) by {
            assert(rest[i] == stages[i]);
        }
        law_passthrough_chain(rest, dir, d);
        assert(stage_result(stages[stages.len() - 1], dir, d) == Some(d));
    }
}

/// An ordered list of stages through which every chunk passes, in one
/// direction or the other, always front to back.
pub struct MiddlewareChain<S> {
    stages: Vec<S>,
}

impl<S> View for MiddlewareChain<S> {
    type V = Seq<S>;

    /// The stages, in the order chunks reach them.
    closed spec fn view(&self) -> Seq<S> {
        self.stages@
    }
}

impl<S: MiddlewareTrait> MiddlewareChain<S> {
    /// Every stage holds its own invariant.
    pub open spec fn wf(&self) -> bool {
        forall|i: int| 0 <= i < self@.len() ==> #[trigger] self@[i].wf()
    }

    pub fn new(stages: Vec<S>) -> (r: Self)
        requires
            forall|i: int| 0 <= i < stages@.len() ==> #[trigger] stages@[i].wf(),
        ensures
            r.wf(),
            r@ == stages@,
    {
        MiddlewareChain { stages }
    }

    pub fn len(&self) -> (r: usize)
        ensures
            r == self@.len(),
    {
        self.stages.len()
    }

    pub fn stage(&self, i: usize) -> (r: &S)
        requires
            i < self@.len(),
        ensures
            *r == self@[i as int],
    {
        &self.stages[i]
    }

    /// Runs `data` through every stage in order, in direction `dir`, and
    /// returns what the last one let through, or `None` if a stage
    /// suppressed it. Stages after the one that suppressed are not called.
    pub fn apply(&mut self, dir: Direction, data: &[u8]) -> (r: Option<Vec<u8>>)
        requires
            old(self).wf(),
        ensures
            final(self).wf(),
            chunk_view(r) == run_chain(old(self)@, dir, Some(data@)),
            final(self)@.len() == old(self)@.len(),
            forall|i: int|
                0 <= i < old(self)@.len() ==> #[trigger] stage_moved(
                    old(self)@,
                    final(self)@,
                    dir,
                    data@,
                    i,
                ),
    {
        let ghost start = self.stages@;
        let n = self.stages.len();
        let mut current: Option<Vec<u8>> = Some(slice_to_vec(data));
        let mut i: usize = 0;
        assert(start.take(0) =~= Seq::<S>::empty());
        while i < n && current.is_some()
            invariant
                n == start.len(),
                self.stages@.len() == n,
                i <= n,
                chunk_view(current) == run_chain(start.take(i as int), dir, Some(data@)),
                forall|k: int| 0 <= k < n ==> #[trigger] self.stages@[k].wf(),
                forall|k: int|
                    0 <= k < i ==> #[trigger] stage_moved(start, self.stages@, dir, data@, k),
                forall|k: int| i <= k < n ==> #[trigger] self.stages@[k] == start[k],
            decreases n - i,
        {
            let chunk = current.unwrap();
            let ghost prev = self.stages@;
            proof {
                lemma_run_chain_step(start, dir, Some(data@), i as int);
            }
            let out = match dir {
                Direction::Output => self.stages[i].on_process_output(chunk.as_slice()),
                Direction::Input => self.stages[i].on_user_input(chunk.as_slice()),
            };
            proof {
                assert forall|k: int| 0 <= k <= i implies #[trigger] stage_moved(
                    start,
                    self.stages@,
                    dir,
                    data@,
                    k,
                ) by {
                    if k < i {
                        assert(stage_moved(start, prev, dir, data@, k));
                        assert(self.stages@[k] == prev[k]);
                    } else {
                        assert(run_chain(start.take(k), dir, Some(data@)) == Some(chunk@));
                        assert(prev[k] == start[k]);
                    }
                }
            }
            current = out;
            i = i + 1;
        }
        proof {
            assert(start.take(n as int) =~= start);
            if i < n {
                assert forall|k: int| i <= k < n implies #[trigger] stage_moved(
                    start,
                    self.stages@,
                    dir,
                    data@,
                    k,
                ) by {
                    lemma_suppressed_stays(start, dir, Some(data@), i as int, k);
                }
                lemma_suppressed_stays(start, dir, Some(data@), i as int, n as int);
            }
        }
        current
    }

    /// Runs a chunk of process output through the chain.
    pub fn apply_output(&mut self, data: &[u8]) -> (r: Option<Vec<u8>>)
        requires
            old(self).wf(),
        ensures
            final(self).wf(),
            chunk_view(r) == run_chain(old(self)@, Direction::Output, Some(data@)),
            final(self)@.len() == old(self)@.len(),
            forall|i: int|
                0 <= i < old(self)@.len() ==> #[trigger] stage_moved(
                    old(self)@,
                    final(self)@,
                    Direction::Output,
                    data@,
                    i,
                ),
    {
        self.apply(Direction::Output, data)
    }

    /// Runs a chunk of user input through the chain.
    pub fn apply_input(&mut self, data: &[u8]) -> (r: Option<Vec<u8>>)
        requires
            old(self).wf(),
        ensures
            final(self).wf(),
            chunk_view(r) == run_chain(old(self)@, Direction::Input, Some(data@)),
            final(self)@.len() == old(self)@.len(),
            forall|i: int|
                0 <= i < old(self)@.len() ==> #[trigger] stage_moved(
                    old(self)@,
                    final(self)@,
                    Direction::Input,
                    data@,
                    i,
                ),
    {
        self.apply(Direction::Input, data)
    }
}

} // verus!
