//! Agent registry and message queues, as an owned table handed around by
//! reference rather than a process-wide static. Running agent bodies on
//! threads, and logging crashes to disk, stay with the caller; the table
//! holds the states and the inbox/outbox queues.

use vstd::prelude::*;
use crate::docstore::strs_view;
use crate::strutil::str_eq;

verus! {

/// What an agent is currently doing.
#[derive(Debug, Clone, Copy, PartialEq, Eq, Structural)]
pub enum AgentState {
    Running,
    Stopped,
    Crashed,
}

/// One registered agent: its name, state, and pending messages in each
/// direction.
#[derive(Debug)]
pub struct AgentRecord {
    pub name: String,
    pub state: AgentState,
    /// Messages sent to the agent, oldest first.
    pub inbox: Vec<String>,
    /// Messages the agent produced, oldest first.
    pub outbox: Vec<String>,
}

/// The registry of all agents.
#[derive(Debug)]
pub struct AgentTable {
    records: Vec<AgentRecord>,
}

/// The first index holding `name`, or the length when none does.
pub open spec fn spec_rec_index(s: Seq<AgentRecord>, name: Seq<char>) -> int
    decreases s.len(),
{
    if s.len() == 0 {
        0
    } else if s[0].name@ == name {
        0
    } else {
        1 + spec_rec_index(s.drop_first(), name)
    }
}

/// `spec_rec_index` points at the first match, or past the end.
pub proof fn lemma_rec_index(s: Seq<AgentRecord>, name: Seq<char>)
    ensures
        0 <= spec_rec_index(s, name) <= s.len(),
        spec_rec_index(s, name) < s.len() ==> s[spec_rec_index(s, name)].name@ == name,
        forall|j: int| 0 <= j < spec_rec_index(s, name) ==> s[j].name@ != name,
    decreases s.len(),
{
    if s.len() > 0 && s[0].name@ != name {
        lemma_rec_index(s.drop_first(), name);
        let i = spec_rec_index(s, name);
        assert forall|j: int| 0 <= j < i implies s[j].name@ != name by {
            if j > 0 {
                assert(s.drop_first()[j - 1] == s[j]);
            }
        }
        if i < s.len() {
            assert(s.drop_first()[i - 1] == s[i]);
        }
    }
}

/// `b` is `a` with its state set to `st` and everything else kept.
pub open spec fn rec_with_state(a: AgentRecord, st: AgentState, b: AgentRecord) -> bool {
    &&& b.name@ == a.name@
    &&& b.state == st
    &&& strs_view(b.inbox@) == strs_view(a.inbox@)
    &&& strs_view(b.outbox@) == strs_view(a.outbox@)
}

impl AgentTable {
    /// Agent names are pairwise distinct.
    pub closed spec fn wf(self) -> bool {
        forall|i: int, j: int|
            0 <= i < j < self.records@.len() ==> self.records@[i].name@ != self.records@[j].name@
    }

    /// The registered records, oldest registration first.
    pub closed spec fn view_records(self) -> Seq<AgentRecord> {
        self.records@
    }

    /// Where `name`'s record stands, or the table's size when absent.
    pub open spec fn spec_index_of(self, name: Seq<char>) -> int {
        spec_rec_index(self.view_records(), name)
    }

    /// Whether an agent called `name` is registered.
    pub open spec fn spec_has(self, name: Seq<char>) -> bool {
        self.spec_index_of(name) < self.view_records().len()
    }

    /// An empty registry.
    pub fn new() -> (t: Self)
        ensures
            t.wf(),
            t.view_records() == Seq::<AgentRecord>::empty(),
    {
        AgentTable { records: Vec::new() }
    }

    /// The index of `name`'s record.
    #[verifier::loop_isolation(false)]
    fn find(&self, name: &str) -> (r: Option<usize>)
        ensures
            match r {
                Some(i) => i == self.spec_index_of(name@) && i < self.view_records().len(),
                None => !self.spec_has(name@),
            },
    {
        proof {
            lemma_rec_index(self.records@, name@);
        }
        let mut i: usize = 0;
        while i < self.records.len()
            invariant
                i <= self.records@.len(),
                forall|j: int| 0 <= j < i ==> self.records@[j].name@ != name@,
            decreases self.records@.len() - i,
        {
            if str_eq(self.records[i].name.as_str(), name) {
                proof {
                    let ix = self.spec_index_of(name@);
                    assert(!(ix < i) && !(i < ix));
                }
                return Some(i);
            }
            i = i + 1;
        }
        None
    }
}

/// Registers `name` with state `Running` and empty queues, unless an agent
/// of that name already exists, in which case nothing changes.
pub fn spawn_agent(t: &mut AgentTable, name: &str)
    requires
        old(t).wf(),
    ensures
        final(t).wf(),
        old(t).spec_has(name@) ==> *final(t) == *old(t),
        !old(t).spec_has(name@) ==> ({
            let rs = final(t).view_records();
            &&& rs.len() == old(t).view_records().len() + 1
            &&& rs.subrange(0, old(t).view_records().len() as int) == old(t).view_records()
            &&& rs.last().name@ == name@
            &&& rs.last().state == AgentState::Running
            &&& rs.last().inbox@.len() == 0
            &&& rs.last().outbox@.len() == 0
        }),
        final(t).spec_has(name@),
{
    proof {
        lemma_rec_index(t.records@, name@);
    }
    match t.find(name) {
        Some(_) => { },
        None => {
            let ghost before = t.records@;
            t.records.push(
                AgentRecord {
                    name: name.to_owned(),
                    state: AgentState::Running,
                    inbox: Vec::new(),
                    outbox: Vec::new(),
                },
            );
            proof {
                assert(t.records@.subrange(0, before.len() as int) =~= before);
                lemma_rec_index(before, name@);
                lemma_index_of_push(before, t.records@.last(), name@);
            }
        },
    }
}

/// Appending a fresh name leaves earlier lookups alone and makes the new
/// record findable.
proof fn lemma_index_of_push(s: Seq<AgentRecord>, r: AgentRecord, name: Seq<char>)
    requires
        forall|j: int| 0 <= j < s.len() ==> s[j].name@ != name,
        r.name@ == name,
    ensures
        spec_rec_index(s.push(r), name) == s.len(),
    decreases s.len(),
{
    let s2 = s.push(r);
    if s.len() == 0 {
        assert(s2[0] == r);
    } else {
        assert(s2[0] == s[0]);
        assert(s2.drop_first() =~= s.drop_first().push(r));
        assert forall|j: int| 0 <= j < s.drop_first().len() implies s.drop_first()[j].name@
            != name by {
            assert(s.drop_first()[j] == s[j + 1]);
        }
        lemma_index_of_push(s.drop_first(), r, name);
    }
}

/// Index lookups are insensitive to fields other than names.
proof fn lemma_index_of_update(s: Seq<AgentRecord>, i: int, r: AgentRecord, name: Seq<char>)
    requires
        0 <= i < s.len(),
        r.name@ == s[i].name@,
    ensures
        spec_rec_index(s.update(i, r), name) == spec_rec_index(s, name),
    decreases s.len(),
{
    let s2 = s.update(i, r);
    if i == 0 {
        assert(s2[0].name@ == s[0].name@);
        if s[0].name@ != name {
            assert(s2.drop_first() =~= s.drop_first());
        }
    } else {
        assert(s2[0] == s[0]);
        if s[0].name@ != name {
            assert(s2.drop_first() =~= s.drop_first().update(i - 1, r));
            lemma_index_of_update(s.drop_first(), i - 1, r, name);
        }
    }
}

/// Sets `name`'s record to state `st`, keeping everything else; no effect
/// when `name` is not registered.
fn set_state(t: &mut AgentTable, name: &str, st: AgentState)
    requires
        old(t).wf(),
    ensures
        final(t).wf(),
        !old(t).spec_has(name@) ==> *final(t) == *old(t),
        old(t).spec_has(name@) ==> ({
            let i = old(t).spec_index_of(name@);
            let rs = final(t).view_records();
            &&& rs.len() == old(t).view_records().len()
            &&& rec_with_state(old(t).view_records()[i], st, rs[i])
            &&& forall|j: int|
                0 <= j < rs.len() && j != i ==> rs[j] == old(t).view_records()[j]
        }),
        final(t).spec_index_of(name@) == old(t).spec_index_of(name@),
{
    proof {
        lemma_rec_index(t.records@, name@);
    }
    match t.find(name) {
        Some(i) => {
            let ghost before = t.records@;
            let r = t.records.remove(i);
            let r2 = AgentRecord { state: st, ..r };
            t.records.insert(i, r2);
            proof {
                assert(t.records@ =~= before.update(i as int, t.records@[i as int]));
                lemma_index_of_update(before, i as int, t.records@[i as int], name@);
                assert forall|a: int, b: int|
                    0 <= a < b < t.records@.len() implies t.records@[a].name@
                    != t.records@[b].name@ by {
                    assert(t.records@[a].name@ == before[a].name@);
                    assert(t.records@[b].name@ == before[b].name@);
                }
            }
        },
        None => { },
    }
}

/// Marks `name` stopped; no effect when it is not registered.
pub fn stop_agent(t: &mut AgentTable, name: &str)
    requires
        old(t).wf(),
    ensures
        final(t).wf(),
        !old(t).spec_has(name@) ==> *final(t) == *old(t),
        old(t).spec_has(name@) ==> ({
            let i = old(t).spec_index_of(name@);
            let rs = final(t).view_records();
            &&& rs.len() == old(t).view_records().len()
            &&& rec_with_state(old(t).view_records()[i], AgentState::Stopped, rs[i])
            &&& forall|j: int|
                0 <= j < rs.len() && j != i ==> rs[j] == old(t).view_records()[j]
        }),
{
    set_state(t, name, AgentState::Stopped);
}

/// Marks `name` crashed, for the caller that observed its body fail; no
/// effect when it is not registered.
pub fn mark_crashed(t: &mut AgentTable, name: &str)
    requires
        old(t).wf(),
    ensures
        final(t).wf(),
        !old(t).spec_has(name@) ==> *final(t) == *old(t),
        old(t).spec_has(name@) ==> ({
            let i = old(t).spec_index_of(name@);
            let rs = final(t).view_records();
            &&& rs.len() == old(t).view_records().len()
            &&& rec_with_state(old(t).view_records()[i], AgentState::Crashed, rs[i])
            &&& forall|j: int|
                0 <= j < rs.len() && j != i ==> rs[j] == old(t).view_records()[j]
        }),
{
    set_state(t, name, AgentState::Crashed);
}

/// Stops `name` and registers it anew if absent. A name already in the
/// table keeps its registration and ends up stopped, as the separate stop
/// and spawn steps leave it.
pub fn restart_agent(t: &mut AgentTable, name: &str)
    requires
        old(t).wf(),
    ensures
        final(t).wf(),
        final(t).spec_has(name@),
{
    stop_agent(t, name);
    spawn_agent(t, name);
}

/// Delivers `msg` to `agent`'s inbox; a message to an unknown agent is
/// dropped.
pub fn send_message(t: &mut AgentTable, agent: &str, msg: &str)
    requires
        old(t).wf(),
    ensures
        final(t).wf(),
        !old(t).spec_has(agent@) ==> *final(t) == *old(t),
        old(t).spec_has(agent@) ==> ({
            let i = old(t).spec_index_of(agent@);
            let rs = final(t).view_records();
            let r0 = old(t).view_records()[i];
            &&& rs.len() == old(t).view_records().len()
            &&& rs[i].name@ == r0.name@
            &&& rs[i].state == r0.state
            &&& strs_view(rs[i].inbox@) == strs_view(r0.inbox@).push(msg@)
            &&& strs_view(rs[i].outbox@) == strs_view(r0.outbox@)
            &&& forall|j: int|
                0 <= j < rs.len() && j != i ==> rs[j] == old(t).view_records()[j]
        }),
{
    proof {
        lemma_rec_index(t.records@, agent@);
    }
    match t.find(agent) {
        Some(i) => {
            let ghost before = t.records@;
            let mut r = t.records.remove(i);
            r.inbox.push(msg.to_owned());
            t.records.insert(i, r);
            proof {
                assert(t.records@ =~= before.update(i as int, t.records@[i as int]));
                assert(strs_view(t.records@[i as int].inbox@) =~= strs_view(
                    before[i as int].inbox@,
                ).push(msg@));
                assert(strs_view(t.records@[i as int].outbox@) =~= strs_view(
                    before[i as int].outbox@,
                ));
                assert forall|a: int, b: int|
                    0 <= a < b < t.records@.len() implies t.records@[a].name@
                    != t.records@[b].name@ by {
                    assert(t.records@[a].name@ == before[a].name@);
                    assert(t.records@[b].name@ == before[b].name@);
                }
            }
        },
        None => { },
    }
}

/// Takes the oldest message `agent` has produced, if any; `None` for an
/// unknown agent or an empty outbox.
pub fn recv_message(t: &mut AgentTable, agent: &str) -> (r: Option<String>)
    requires
        old(t).wf(),
    ensures
        final(t).wf(),
        !old(t).spec_has(agent@) ==> *final(t) == *old(t) && r is None,
        old(t).spec_has(agent@) ==> ({
            let i = old(t).spec_index_of(agent@);
            let rs = final(t).view_records();
            let r0 = old(t).view_records()[i];
            if strs_view(r0.outbox@).len() == 0 {
                *final(t) == *old(t) && r is None
            } else {
                &&& r is Some
                &&& r->0@ == strs_view(r0.outbox@)[0]
                &&& rs.len() == old(t).view_records().len()
                &&& rs[i].name@ == r0.name@
                &&& rs[i].state == r0.state
                &&& strs_view(rs[i].inbox@) == strs_view(r0.inbox@)
                &&& strs_view(rs[i].outbox@) == strs_view(r0.outbox@).drop_first()
                &&& forall|j: int|
                    0 <= j < rs.len() && j != i ==> rs[j] == old(t).view_records()[j]
            }
        }),
{
    proof {
        lemma_rec_index(t.records@, agent@);
    }
    match t.find(agent) {
        Some(i) => {
            if t.records[i].outbox.len() == 0 {
                return None;
            }
            let ghost before = t.records@;
            let mut r = t.records.remove(i);
            let msg = r.outbox.remove(0);
            t.records.insert(i, r);
            proof {
                assert(t.records@ =~= before.update(i as int, t.records@[i as int]));
                assert(strs_view(t.records@[i as int].outbox@) =~= strs_view(
                    before[i as int].outbox@,
                ).drop_first());
                assert(strs_view(t.records@[i as int].inbox@) =~= strs_view(
                    before[i as int].inbox@,
                ));
                assert(msg@ == strs_view(before[i as int].outbox@)[0]);
                assert forall|a: int, b: int|
                    0 <= a < b < t.records@.len() implies t.records@[a].name@
                    != t.records@[b].name@ by {
                    assert(t.records@[a].name@ == before[a].name@);
                    assert(t.records@[b].name@ == before[b].name@);
                }
            }
            Some(msg)
        },
        None => None,
    }
}

/// Takes the oldest message waiting in `agent`'s inbox, for the agent's
/// own body to handle.
pub fn agent_recv(t: &mut AgentTable, agent: &str) -> (r: Option<String>)
    requires
        old(t).wf(),
    ensures
        final(t).wf(),
        !old(t).spec_has(agent@) ==> *final(t) == *old(t) && r is None,
        old(t).spec_has(agent@) ==> ({
            let i = old(t).spec_index_of(agent@);
            let rs = final(t).view_records();
            let r0 = old(t).view_records()[i];
            if strs_view(r0.inbox@).len() == 0 {
                *final(t) == *old(t) && r is None
            } else {
                &&& r is Some
                &&& r->0@ == strs_view(r0.inbox@)[0]
                &&& rs.len() == old(t).view_records().len()
                &&& rs[i].name@ == r0.name@
                &&& rs[i].state == r0.state
                &&& strs_view(rs[i].outbox@) == strs_view(r0.outbox@)
                &&& strs_view(rs[i].inbox@) == strs_view(r0.inbox@).drop_first()
                &&& forall|j: int|
                    0 <= j < rs.len() && j != i ==> rs[j] == old(t).view_records()[j]
            }
        }),
{
    proof {
        lemma_rec_index(t.records@, agent@);
    }
    match t.find(agent) {
        Some(i) => {
            if t.records[i].inbox.len() == 0 {
                return None;
            }
            let ghost before = t.records@;
            let mut r = t.records.remove(i);
            let msg = r.inbox.remove(0);
            t.records.insert(i, r);
            proof {
                assert(t.records@ =~= before.update(i as int, t.records@[i as int]));
                assert(strs_view(t.records@[i as int].inbox@) =~= strs_view(
                    before[i as int].inbox@,
                ).drop_first());
                assert(strs_view(t.records@[i as int].outbox@) =~= strs_view(
                    before[i as int].outbox@,
                ));
                assert(msg@ == strs_view(before[i as int].inbox@)[0]);
                assert forall|a: int, b: int|
                    0 <= a < b < t.records@.len() implies t.records@[a].name@
                    != t.records@[b].name@ by {
                    assert(t.records@[a].name@ == before[a].name@);
                    assert(t.records@[b].name@ == before[b].name@);
                }
            }
            Some(msg)
        },
        None => None,
    }
}

/// Appends `msg` to `agent`'s outbox, where `recv_message` will find it.
pub fn agent_send(t: &mut AgentTable, agent: &str, msg: &str)
    requires
        old(t).wf(),
    ensures
        final(t).wf(),
        !old(t).spec_has(agent@) ==> *final(t) == *old(t),
        old(t).spec_has(agent@) ==> ({
            let i = old(t).spec_index_of(agent@);
            let rs = final(t).view_records();
            let r0 = old(t).view_records()[i];
            &&& rs.len() == old(t).view_records().len()
            &&& rs[i].name@ == r0.name@
            &&& rs[i].state == r0.state
            &&& strs_view(rs[i].outbox@) == strs_view(r0.outbox@).push(msg@)
            &&& strs_view(rs[i].inbox@) == strs_view(r0.inbox@)
            &&& forall|j: int|
                0 <= j < rs.len() && j != i ==> rs[j] == old(t).view_records()[j]
        }),
{
    proof {
        lemma_rec_index(t.records@, agent@);
    }
    match t.find(agent) {
        Some(i) => {
            let ghost before = t.records@;
            let mut r = t.records.remove(i);
            r.outbox.push(msg.to_owned());
            t.records.insert(i, r);
            proof {
                assert(t.records@ =~= before.update(i as int, t.records@[i as int]));
                assert(strs_view(t.records@[i as int].outbox@) =~= strs_view(
                    before[i as int].outbox@,
                ).push(msg@));
                assert(strs_view(t.records@[i as int].inbox@) =~= strs_view(
                    before[i as int].inbox@,
                ));
                assert forall|a: int, b: int|
                    0 <= a < b < t.records@.len() implies t.records@[a].name@
                    != t.records@[b].name@ by {
                    assert(t.records@[a].name@ == before[a].name@);
                    assert(t.records@[b].name@ == before[b].name@);
                }
            }
        },
        None => { },
    }
}

/// The registered agents' names and states, oldest registration first.
pub fn list_agents(t: &AgentTable) -> (r: Vec<(String, AgentState)>)
    ensures
        r@.len() == t.view_records().len(),
        forall|i: int|
            0 <= i < r@.len() ==> r@[i].0@ == t.view_records()[i].name@ && r@[i].1 == t.view_records()[i].state,
{
    let mut r: Vec<(String, AgentState)> = Vec::new();
    let mut i: usize = 0;
    while i < t.records.len()
        invariant
            i <= t.records@.len(),
            r@.len() == i,
            forall|j: int|
                0 <= j < i ==> r@[j].0@ == t.records@[j].name@ && r@[j].1 == t.records@[j].state,
        decreases t.records@.len() - i,
    {
        let name = t.records[i].name.clone();
        let state = t.records[i].state;
        r.push((name, state));
        i = i + 1;
    }
    r
}

/// What the echo agent does with one message: a request to panic crashes
/// it; anything else is echoed back unchanged.
pub enum EchoAction {
    Crash,
    Reply(String),
}

/// Decides the echo agent's next step for one inbox message.
pub fn echo_step(msg: String) -> (r: EchoAction)
    ensures
        msg@ == "panic"@ ==> r is Crash,
        msg@ != "panic"@ ==> (r matches EchoAction::Reply(m) && m@ == msg@),
{
    if str_eq(msg.as_str(), "panic") {
        EchoAction::Crash
    } else {
        EchoAction::Reply(msg)
    }
}

/// Registers the built-in system and echo agents, leaving any other
/// registrations exactly as they were. Booting a table that already holds
/// both is a no-op, so a repeated boot never duplicates or restarts them.
pub fn boot(t: &mut AgentTable)
    requires
        old(t).wf(),
    ensures
        final(t).wf(),
        final(t).spec_has("system"@),
        final(t).spec_has("echo"@),
        final(t).view_records().len() <= old(t).view_records().len() + 2,
        final(t).view_records().subrange(0, old(t).view_records().len() as int) == old(
            t,
        ).view_records(),
        forall|k: int|
            old(t).view_records().len() <= k < final(t).view_records().len() ==> ({
                let rec = #[trigger] final(t).view_records()[k];
                &&& (rec.name@ == "system"@ || rec.name@ == "echo"@)
                &&& rec.state == AgentState::Running
                &&& rec.inbox@.len() == 0
                &&& rec.outbox@.len() == 0
            }),
        old(t).spec_has("system"@) && old(t).spec_has("echo"@) ==> *final(t) == *old(t),
{
    let ghost before = t.view_records();
    spawn_agent(t, "system");
    let ghost mid = t.view_records();
    spawn_agent(t, "echo");
    proof {
        assert(t.view_records().subrange(0, mid.len() as int) =~= mid);
        assert(t.view_records().subrange(0, before.len() as int) =~= before);
        lemma_has_stable(mid, t.view_records(), "system"@);
    }
}

/// A name findable in a prefix is findable in any extension of it.
proof fn lemma_has_stable(s: Seq<AgentRecord>, s2: Seq<AgentRecord>, name: Seq<char>)
    requires
        s2.len() >= s.len(),
        s2.subrange(0, s.len() as int) == s,
        spec_rec_index(s, name) < s.len(),
    ensures
        spec_rec_index(s2, name) < s2.len(),
    decreases s.len(),
{
    if s.len() > 0 {
        assert(s2[0] == s[0]);
        if s[0].name@ != name {
            assert(s2.drop_first().subrange(0, s.drop_first().len() as int) =~= s.drop_first());
            lemma_has_stable(s.drop_first(), s2.drop_first(), name);
        }
    }
}

} // verus!
