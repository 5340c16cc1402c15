use vstd::prelude::*;
use vstd::string::*;
use crate::chain::{Chain, chain_named};

verus! {

/// The entity kinds, one stage of a run each.
#[derive(Clone, Copy, Debug, PartialEq, Eq, Structural)]
pub enum Stage {
    Programs,
    Rounds,
    Projects,
    Votes,
}

/// Why a run, or the request for one, failed.
#[derive(Clone, Copy, Debug, PartialEq, Eq, Structural)]
pub enum IngestError {
    /// The provider query failed or its answer could not be read.
    Provider,
    /// A batch insert failed for a reason other than a duplicate identifier.
    StoreWrite,
    /// The trigger named no supported chain.
    UnknownChain,
}

/// Where a run stands.
#[derive(Clone, Copy, Debug, PartialEq, Eq, Structural)]
pub enum RunState {
    Running(Stage),
    Completed,
    Failed(Stage, IngestError),
}

/// The stages of a run, in the order they run.
pub open spec fn stage_order() -> Seq<Stage> {
    seq![Stage::Programs, Stage::Rounds, Stage::Projects, Stage::Votes]
}

/// The stage after `s`, if any.
pub open spec fn stage_after(s: Stage) -> Option<Stage> {
    match s {
        Stage::Programs => Some(Stage::Rounds),
        Stage::Rounds => Some(Stage::Projects),
        Stage::Projects => Some(Stage::Votes),
        Stage::Votes => None,
    }
}

/// The state after the running stage reports `outcome`: success moves on to the
/// next stage or completes the run, a failure ends it; a finished run stays.
pub open spec fn advance(state: RunState, outcome: Result<(), IngestError>) -> RunState {
    match state {
        RunState::Running(s) => match outcome {
            Ok(()) => match stage_after(s) {
                Some(n) => RunState::Running(n),
                None => RunState::Completed,
            },
            Err(e) => RunState::Failed(s, e),
        },
        _ => state,
    }
}

/// The stages that report, in turn, the outcomes `outcomes`, from `state` on.
pub open spec fn stages_run(state: RunState, outcomes: Seq<Result<(), IngestError>>) -> Seq<Stage>
    decreases outcomes.len(),
{
    match state {
        RunState::Running(s) => if outcomes.len() == 0 {
            Seq::empty()
        } else {
            seq![s] + stages_run(advance(state, outcomes[0]), outcomes.drop_first())
        },
        _ => Seq::empty(),
    }
}

/// One ingestion run for one chain.
#[derive(Debug)]
pub struct Run {
    chain: Chain,
    state: RunState,
}

impl Run {
    pub closed spec fn chain_spec(&self) -> Chain {
        self.chain
    }

    pub closed spec fn state_spec(&self) -> RunState {
        self.state
    }

    /// Starts a run for the chain named `name`; an unknown name is refused
    /// before any stage can start.
    pub fn begin(name: &str) -> (r: Result<Run, IngestError>)
        ensures
            chain_named(name@).is_none() <==> r is Err,
            r is Err ==> r == Err::<Run, IngestError>(IngestError::UnknownChain),
            r is Ok ==> r->Ok_0.chain_spec() == chain_named(name@).unwrap()
                && r->Ok_0.state_spec() == RunState::Running(Stage::Programs),
    {
        match Chain::from_name(name) {
            Some(chain) => Ok(Run { chain, state: RunState::Running(Stage::Programs) }),
            None => Err(IngestError::UnknownChain),
        }
    }

    pub fn chain(&self) -> (r: Chain)
        ensures
            r == self.chain_spec(),
    {
        self.chain
    }

    pub fn state(&self) -> (r: RunState)
        ensures
            r == self.state_spec(),
    {
        self.state
    }

    /// The stage to run now, or `None` once the run has ended.
    pub fn current_stage(&self) -> (r: Option<Stage>)
        ensures
            r is Some <==> self.state_spec() is Running,
            r is Some ==> self.state_spec() == RunState::Running(r->Some_0),
    {
        match self.state {
            RunState::Running(s) => Some(s),
            _ => None,
        }
    }

    /// Records the outcome of the current stage.
    pub fn finish_stage(&mut self, outcome: Result<(), IngestError>)
        ensures
            final(self).chain_spec() == old(self).chain_spec(),
            final(self).state_spec() == advance(old(self).state_spec(), outcome),
    {
        match self.state {
            RunState::Running(s) => {
                self.state = match outcome {
                    Ok(()) => match s {
                        Stage::Programs => RunState::Running(Stage::Rounds),
                        Stage::Rounds => RunState::Running(Stage::Projects),
                        Stage::Projects => RunState::Running(Stage::Votes),
                        Stage::Votes => RunState::Completed,
                    },
                    Err(e) => RunState::Failed(s, e),
                };
            },
            _ => {},
        }
    }
}

proof fn lemma_stages_from(j: int, outcomes: Seq<Result<(), IngestError>>)
    requires
        0 <= j < 4,
    ensures
        stages_run(RunState::Running(stage_order()[j]), outcomes)
            == stage_order().subrange(j, j + stages_run(RunState::Running(stage_order()[j]), outcomes).len()),
        j + stages_run(RunState::Running(stage_order()[j]), outcomes).len() <= 4,
        stages_run(RunState::Running(stage_order()[j]), outcomes).len() <= outcomes.len(),
        forall|i: int|
            0 <= i < stages_run(RunState::Running(stage_order()[j]), outcomes).len() - 1 ==> #[trigger] outcomes[i] is Ok,
    decreases outcomes.len(),
{
    let st = RunState::Running(stage_order()[j]);
    let t = stages_run(st, outcomes);
    if outcomes.len() > 0 {
        let rest = outcomes.drop_first();
        let nx = advance(st, outcomes[0]);
        if j < 3 && outcomes[0] is Ok {
            assert(nx == RunState::Running(stage_order()[j + 1]));
            lemma_stages_from(j + 1, rest);
            assert(t =~= stage_order().subrange(j, j + t.len()));
            assert forall|i: int| 0 <= i < t.len() - 1 implies #[trigger] outcomes[i] is Ok by {
                if i > 0 {
                    assert(outcomes[i] == rest[i - 1]);
                }
            }
        } else {
            assert(stages_run(nx, rest) == Seq::<Stage>::empty());
            assert(t =~= stage_order().subrange(j, j + 1));
        }
    } else {
        assert(t =~= stage_order().subrange(j, j));
    }
}

/// Whatever the stages report, a run attempts its stages in the fixed order
/// Programs, Rounds, Projects, Votes, each only after every earlier one
/// succeeded: Votes are loaded only after the Projects stage has completed.
pub proof fn lemma_run_order(outcomes: Seq<Result<(), IngestError>>)
    ensures
        stages_run(RunState::Running(Stage::Programs), outcomes)
            == stage_order().take(stages_run(RunState::Running(Stage::Programs), outcomes).len() as int),
        forall|i: int|
            0 <= i < stages_run(RunState::Running(Stage::Programs), outcomes).len() - 1 ==> #[trigger] outcomes[i] is Ok,
        stages_run(RunState::Running(Stage::Programs), outcomes).contains(Stage::Votes) ==> {
            &&& stages_run(RunState::Running(Stage::Programs), outcomes)[2] == Stage::Projects
            &&& outcomes[2] is Ok
        },
{
    lemma_stages_from(0, outcomes);
    let t = stages_run(RunState::Running(Stage::Programs), outcomes);
    assert(t =~= stage_order().take(t.len() as int));
    if t.contains(Stage::Votes) {
        let i = choose|i: int| 0 <= i < t.len() && t[i] == Stage::Votes;
        assert(i == 3);
    }
}

/// The query text that asks the provider for one page of `stage`'s records
/// after `cursor`.
pub open spec fn page_query_spec(stage: Stage, cursor: Seq<char>) -> Seq<char> {
    match stage {
        Stage::Programs => "query GetProgramsQuery { programs(first: 1000, where: { id_gt: \""@ + cursor
            + "\" }) { id createdAt updatedAt } }"@,
        Stage::Rounds => "query GetRoundsQuery { rounds(first: 1000, where: { id_gt: \""@ + cursor
            + "\" }) { id createdAt updatedAt } }"@,
        Stage::Projects => "query GetProjectQuery { roundProjects(first: 1000, where: { id_gt: \""@ + cursor
            + "\" }) { id createdAt updatedAt } }"@,
        Stage::Votes => "query GetVotesQuery { qfvotes(first: 1000, where: { id_gt: \""@ + cursor
            + "\" }) { id createdAt amount from to version token projectId } }"@,
    }
}

pub fn page_query(stage: Stage, cursor: &str) -> (r: String)
    ensures
        r@ == page_query_spec(stage, cursor@),
{
    let mut q = match stage {
        Stage::Programs => String::from_str("query GetProgramsQuery { programs(first: 1000, where: { id_gt: \""),
        Stage::Rounds => String::from_str("query GetRoundsQuery { rounds(first: 1000, where: { id_gt: \""),
        Stage::Projects => String::from_str("query GetProjectQuery { roundProjects(first: 1000, where: { id_gt: \""),
        Stage::Votes => String::from_str("query GetVotesQuery { qfvotes(first: 1000, where: { id_gt: \""),
    };
    q.append(cursor);
    match stage {
        Stage::Votes => q.append("\" }) { id createdAt amount from to version token projectId } }"),
        _ => q.append("\" }) { id createdAt updatedAt } }"),
    }
    q
}

} // verus!
