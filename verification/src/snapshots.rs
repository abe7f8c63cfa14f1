//! Agent state snapshots: capturing a copy of an agent's memory into an
//! owned snapshot table, listing a given agent's snapshots, and rolling an
//! agent back to one of them. Persisting snapshot files and reading the
//! clock stay with the caller.

use vstd::prelude::*;
use crate::docstore::clone_string;
use crate::sa::clone_bytes;
use crate::strutil::str_eq;

verus! {

/// An agent as the snapshot machinery sees it: a name and a state buffer.
#[derive(Debug)]
pub struct Agent {
    pub name: String,
    pub state: Vec<u8>,
}

/// A captured copy of one agent's state.
#[derive(Debug)]
pub struct AgentSnapshot {
    pub agent_name: String,
    pub state_data: Vec<u8>,
    pub timestamp: u64,
}

/// The one failure snapshot operations can report without touching disk.
#[derive(Debug, Clone, Copy, PartialEq, Eq, Structural)]
pub enum SnapshotError {
    SnapshotNotFound,
}

/// `b` records the same capture as `a`.
pub open spec fn snap_like(a: AgentSnapshot, b: AgentSnapshot) -> bool {
    &&& b.agent_name@ == a.agent_name@
    &&& b.state_data@ == a.state_data@
    &&& b.timestamp == a.timestamp
}

/// Captures `agent`'s state at time `now` into the table and hands the
/// same capture back. Never fails.
pub fn snapshot_agent(table: &mut Vec<AgentSnapshot>, agent: &Agent, now: u64) -> (r: Result<
    AgentSnapshot,
    SnapshotError,
>)
    ensures
        final(table)@.len() == old(table)@.len() + 1,
        forall|j: int| 0 <= j < old(table)@.len() ==> final(table)@[j] == old(table)@[j],
        final(table)@.last().agent_name@ == agent.name@,
        final(table)@.last().state_data@ == agent.state@,
        final(table)@.last().timestamp == now,
        r matches Ok(s) && snap_like(final(table)@.last(), s),
{
    let snap = AgentSnapshot {
        agent_name: clone_string(&agent.name),
        state_data: clone_bytes(&agent.state),
        timestamp: now,
    };
    let copy = AgentSnapshot {
        agent_name: clone_string(&snap.agent_name),
        state_data: clone_bytes(&snap.state_data),
        timestamp: snap.timestamp,
    };
    table.push(snap);
    Ok(copy)
}

/// Restores `agent`'s state from `snapshot`. Never fails; the agent's name
/// stays as it was.
pub fn rollback_agent(agent: &mut Agent, snapshot: &AgentSnapshot) -> (r: Result<
    (),
    SnapshotError,
>)
    ensures
        r is Ok,
        final(agent).name@ == old(agent).name@,
        final(agent).state@ == snapshot.state_data@,
{
    agent.state = clone_bytes(&snapshot.state_data);
    Ok(())
}

/// The indices of `agent_name`'s snapshots, in table order.
pub open spec fn spec_snaps_of(s: Seq<AgentSnapshot>, name: Seq<char>) -> Seq<AgentSnapshot> {
    s.filter(|x: AgentSnapshot| x.agent_name@ == name)
}

/// Copies of every snapshot of `agent_name`, in table order.
#[verifier::loop_isolation(false)]
pub fn cmd_list(table: &Vec<AgentSnapshot>, agent_name: &str) -> (r: Vec<AgentSnapshot>)
    ensures
        r@.len() == spec_snaps_of(table@, agent_name@).len(),
        forall|i: int|
            0 <= i < r@.len() ==> snap_like(spec_snaps_of(table@, agent_name@)[i], r@[i]),
{
    let ghost pred = (|x: AgentSnapshot| x.agent_name@ == agent_name@);
    let mut r: Vec<AgentSnapshot> = Vec::new();
    let mut i: usize = 0;
    while i < table.len()
        invariant
            i <= table@.len(),
            r@.len() == table@.subrange(0, i as int).filter(pred).len(),
            forall|j: int|
                0 <= j < r@.len() ==> snap_like(table@.subrange(0, i as int).filter(pred)[j], r@[j]),
            pred == (|x: AgentSnapshot| x.agent_name@ == agent_name@),
        decreases table@.len() - i,
    {
        proof {
            assert(table@.subrange(0, i + 1) =~= table@.subrange(0, i as int).push(
                table@[i as int],
            ));
            crate::tasks::lemma_filter_push(table@.subrange(0, i as int), table@[i as int], pred);
        }
        if str_eq(table[i].agent_name.as_str(), agent_name) {
            r.push(
                AgentSnapshot {
                    agent_name: clone_string(&table[i].agent_name),
                    state_data: clone_bytes(&table[i].state_data),
                    timestamp: table[i].timestamp,
                },
            );
        }
        i = i + 1;
    }
    proof {
        assert(table@.subrange(0, table@.len() as int) =~= table@);
    }
    r
}

/// The first index of a snapshot of `name` taken at `ts`, or the length
/// when there is none.
pub open spec fn spec_snap_index(s: Seq<AgentSnapshot>, name: Seq<char>, ts: u64) -> int
    decreases s.len(),
{
    if s.len() == 0 {
        0
    } else if s[0].agent_name@ == name && s[0].timestamp == ts {
        0
    } else {
        1 + spec_snap_index(s.drop_first(), name, ts)
    }
}

/// `spec_snap_index` points at the first match, or past the end.
proof fn lemma_snap_index(s: Seq<AgentSnapshot>, name: Seq<char>, ts: u64)
    ensures
        0 <= spec_snap_index(s, name, ts) <= s.len(),
        spec_snap_index(s, name, ts) < s.len() ==> s[spec_snap_index(s, name, ts)].agent_name@
            == name && s[spec_snap_index(s, name, ts)].timestamp == ts,
        forall|j: int|
            0 <= j < spec_snap_index(s, name, ts) ==> !(s[j].agent_name@ == name && s[j].timestamp
                == ts),
    decreases s.len(),
{
    if s.len() > 0 && !(s[0].agent_name@ == name && s[0].timestamp == ts) {
        lemma_snap_index(s.drop_first(), name, ts);
        let i = spec_snap_index(s, name, ts);
        assert forall|j: int|
            0 <= j < i implies !(s[j].agent_name@ == name && s[j].timestamp == ts) by {
            if j > 0 {
                assert(s.drop_first()[j - 1] == s[j]);
            }
        }
        if i < s.len() {
            assert(s.drop_first()[i - 1] == s[i]);
        }
    }
}

/// Rolls `agent` back to its snapshot taken at time `id`. Succeeds exactly
/// when the table holds a snapshot of this agent with that timestamp, and
/// then restores the first such capture; otherwise the agent is unchanged.
#[verifier::loop_isolation(false)]
pub fn cmd_rollback(agent: &mut Agent, table: &Vec<AgentSnapshot>, id: u64) -> (r: Result<
    (),
    SnapshotError,
>)
    ensures
        r is Ok <==> spec_snap_index(table@, old(agent).name@, id) < table@.len(),
        r is Err ==> *final(agent) == *old(agent) && r == Err::<(), SnapshotError>(
            SnapshotError::SnapshotNotFound,
        ),
        r is Ok ==> final(agent).name@ == old(agent).name@ && final(agent).state@
            == table@[spec_snap_index(table@, old(agent).name@, id)].state_data@,
{
    proof {
        lemma_snap_index(table@, agent.name@, id);
    }
    let mut i: usize = 0;
    while i < table.len()
        invariant
            i <= table@.len(),
            *agent == *old(agent),
            forall|j: int|
                0 <= j < i ==> !(table@[j].agent_name@ == agent.name@ && table@[j].timestamp
                    == id),
        decreases table@.len() - i,
    {
        if str_eq(table[i].agent_name.as_str(), agent.name.as_str()) && table[i].timestamp == id {
            proof {
                lemma_snap_index(table@, agent.name@, id);
                let ix = spec_snap_index(table@, agent.name@, id);
                assert(table@[i as int].agent_name@ == agent.name@ && table@[i as int].timestamp
                    == id);
                if ix < i {
                    assert(table@[ix].agent_name@ == agent.name@ && table@[ix].timestamp == id);
                    assert(false);
                }
                if i < ix {
                    assert(false);
                }
            }
            return rollback_agent(agent, &table[i]);
        }
        i = i + 1;
    }
    Err(SnapshotError::SnapshotNotFound)
}

} // verus!
