//! Supervised-agent manager: definitions keyed by unique name, status
//! queries and restart commands, and the command dispatcher its control
//! socket speaks. Reading definition files and serving the socket stay
//! with the caller.

use vstd::prelude::*;
use crate::docstore::{clone_string, clone_strings, strs_view};
use crate::strutil::str_eq;

verus! {

/// Where a supervised agent stands.
#[derive(Debug, Clone, Copy, PartialEq, Eq, Structural)]
pub enum AgentStatus {
    Running,
    Restarting,
    Failed,
}

impl Default for AgentStatus {
    /// A freshly loaded agent counts as running.
    fn default() -> (r: Self)
        ensures
            r == AgentStatus::Running,
    {
        AgentStatus::Running
    }
}

/// One supervised agent's definition and current status.
#[derive(Debug)]
pub struct Agent {
    pub name: String,
    pub capabilities: Vec<String>,
    /// Free-form configuration entries, each key at most once.
    pub config: Vec<(String, String)>,
    pub version: String,
    pub status: AgentStatus,
}

/// One command received over the control socket.
#[derive(Debug)]
pub struct Command {
    pub cmd: String,
    pub agent: Option<String>,
}

/// What the dispatcher answers with; the caller serializes it.
#[derive(Debug)]
pub enum CmdReply {
    /// Every agent's definition and status.
    StatusList(Vec<Agent>),
    /// The command was carried out with nothing to report.
    Done,
    /// The command verb is not known.
    Unknown,
}

/// The manager can fail a command only by not finding the named agent.
#[derive(Debug)]
pub enum PrismError {
    NotFound(String),
}

/// `b` describes the same agent as `a` with status `st`.
pub open spec fn agent_with_status(a: Agent, st: AgentStatus, b: Agent) -> bool {
    &&& b.name@ == a.name@
    &&& strs_view(b.capabilities@) == strs_view(a.capabilities@)
    &&& b.config@.len() == a.config@.len()
    &&& forall|i: int|
        0 <= i < a.config@.len() ==> b.config@[i].0@ == a.config@[i].0@ && b.config@[i].1@
            == a.config@[i].1@
    &&& b.version@ == a.version@
    &&& b.status == st
}

/// `b` is a faithful copy of `a`.
pub open spec fn agent_like(a: Agent, b: Agent) -> bool {
    agent_with_status(a, a.status, b)
}

/// The first index holding `name`, or the length when none does.
pub open spec fn spec_agent_index(s: Seq<Agent>, name: Seq<char>) -> int
    decreases s.len(),
{
    if s.len() == 0 {
        0
    } else if s[0].name@ == name {
        0
    } else {
        1 + spec_agent_index(s.drop_first(), name)
    }
}

/// `spec_agent_index` points at the first match, or past the end.
pub proof fn lemma_agent_index(s: Seq<Agent>, name: Seq<char>)
    ensures
        0 <= spec_agent_index(s, name) <= s.len(),
        spec_agent_index(s, name) < s.len() ==> s[spec_agent_index(s, name)].name@ == name,
        forall|j: int| 0 <= j < spec_agent_index(s, name) ==> s[j].name@ != name,
    decreases s.len(),
{
    if s.len() > 0 && s[0].name@ != name {
        lemma_agent_index(s.drop_first(), name);
        let i = spec_agent_index(s, name);
        assert forall|j: int| 0 <= j < i implies s[j].name@ != name by {
            if j > 0 {
                assert(s.drop_first()[j - 1] == s[j]);
            }
        }
        if i < s.len() {
            assert(s.drop_first()[i - 1] == s[i]);
        }
    }
}

/// Index lookups are insensitive to fields other than names.
proof fn lemma_agent_index_update(s: Seq<Agent>, i: int, r: Agent, name: Seq<char>)
    requires
        0 <= i < s.len(),
        r.name@ == s[i].name@,
    ensures
        spec_agent_index(s.update(i, r), name) == spec_agent_index(s, name),
    decreases s.len(),
{
    let s2 = s.update(i, r);
    if i == 0 {
        assert(s2[0].name@ == s[0].name@);
        if s[0].name@ != name {
            assert(s2.drop_first() =~= s.drop_first());
        }
    } else {
        assert(s2[0] == s[0]);
        if s[0].name@ != name {
            assert(s2.drop_first() =~= s.drop_first().update(i - 1, r));
            lemma_agent_index_update(s.drop_first(), i - 1, r, name);
        }
    }
}

/// The set of supervised agents.
#[derive(Debug)]
pub struct AgentManager {
    agents: Vec<Agent>,
}

impl AgentManager {
    /// Agent names are pairwise distinct.
    pub closed spec fn wf(self) -> bool {
        forall|i: int, j: int|
            0 <= i < j < self.agents@.len() ==> self.agents@[i].name@ != self.agents@[j].name@
    }

    /// The agents, oldest registration first.
    pub closed spec fn view_agents(self) -> Seq<Agent> {
        self.agents@
    }

    /// Where `name`'s agent stands, or the manager's size when absent.
    pub open spec fn spec_index_of(self, name: Seq<char>) -> int {
        spec_agent_index(self.view_agents(), name)
    }

    /// Whether an agent called `name` is registered.
    pub open spec fn spec_has(self, name: Seq<char>) -> bool {
        self.spec_index_of(name) < self.view_agents().len()
    }

    /// An empty manager.
    pub fn new() -> (m: Self)
        ensures
            m.wf(),
            m.view_agents() == Seq::<Agent>::empty(),
    {
        AgentManager { agents: Vec::new() }
    }

    /// The index of `name`'s agent.
    #[verifier::loop_isolation(false)]
    fn find(&self, name: &str) -> (r: Option<usize>)
        ensures
            match r {
                Some(i) => i == self.spec_index_of(name@) && i < self.view_agents().len(),
                None => !self.spec_has(name@),
            },
    {
        proof {
            lemma_agent_index(self.agents@, name@);
        }
        let mut i: usize = 0;
        while i < self.agents.len()
            invariant
                i <= self.agents@.len(),
                forall|j: int| 0 <= j < i ==> self.agents@[j].name@ != name@,
            decreases self.agents@.len() - i,
        {
            if str_eq(self.agents[i].name.as_str(), name) {
                proof {
                    let ix = self.spec_index_of(name@);
                    assert(!(ix < i) && !(i < ix));
                }
                return Some(i);
            }
            i = i + 1;
        }
        None
    }

    /// Registers `agent`, replacing any existing definition of the same
    /// name in place and appending otherwise.
    pub fn add_agent(&mut self, agent: Agent)
        requires
            old(self).wf(),
        ensures
            final(self).wf(),
            old(self).spec_has(agent.name@) ==> ({
                let i = old(self).spec_index_of(agent.name@);
                let rs = final(self).view_agents();
                &&& rs.len() == old(self).view_agents().len()
                &&& rs[i] == agent
                &&& forall|j: int|
                    0 <= j < rs.len() && j != i ==> rs[j] == old(self).view_agents()[j]
            }),
            !old(self).spec_has(agent.name@) ==> final(self).view_agents() == old(
                self,
            ).view_agents().push(agent),
            final(self).spec_has(agent.name@),
    {
        proof {
            lemma_agent_index(self.agents@, agent.name@);
        }
        match self.find(agent.name.as_str()) {
            Some(i) => {
                let ghost before = self.agents@;
                let ghost name_v = agent.name@;
                self.agents.remove(i);
                self.agents.insert(i, agent);
                proof {
                    assert(self.agents@ =~= before.update(i as int, self.agents@[i as int]));
                    lemma_agent_index_update(before, i as int, self.agents@[i as int], name_v);
                    assert forall|a: int, b: int|
                        0 <= a < b < self.agents@.len() implies self.agents@[a].name@
                        != self.agents@[b].name@ by {
                        assert(self.agents@[a].name@ == before[a].name@);
                        assert(self.agents@[b].name@ == before[b].name@);
                    }
                }
            },
            None => {
                let ghost before = self.agents@;
                let ghost name_v = agent.name@;
                self.agents.push(agent);
                proof {
                    lemma_agent_index(before, name_v);
                    lemma_agent_index_push(before, self.agents@.last(), name_v);
                }
            },
        }
    }

    /// A copy of every agent's definition and status, in order.
    pub fn status(&self) -> (r: Vec<Agent>)
        ensures
            r@.len() == self.view_agents().len(),
            forall|i: int| 0 <= i < r@.len() ==> agent_like(self.view_agents()[i], r@[i]),
    {
        let mut r: Vec<Agent> = Vec::new();
        let mut i: usize = 0;
        while i < self.agents.len()
            invariant
                i <= self.agents@.len(),
                r@.len() == i,
                forall|j: int| 0 <= j < i ==> agent_like(self.agents@[j], r@[j]),
            decreases self.agents@.len() - i,
        {
            r.push(clone_agent(&self.agents[i]));
            i = i + 1;
        }
        r
    }

    /// Sets `name`'s status. Succeeds exactly when `name` is registered;
    /// otherwise nothing changes and the error names the missing agent.
    fn set_status(&mut self, name: &str, st: AgentStatus) -> (r: Result<(), PrismError>)
        requires
            old(self).wf(),
        ensures
            final(self).wf(),
            r is Ok <==> old(self).spec_has(name@),
            r is Err ==> *final(self) == *old(self) && (r->Err_0 matches PrismError::NotFound(n)
                && n@ == name@),
            r is Ok ==> ({
                let i = old(self).spec_index_of(name@);
                let rs = final(self).view_agents();
                &&& rs.len() == old(self).view_agents().len()
                &&& agent_with_status(old(self).view_agents()[i], st, rs[i])
                &&& forall|j: int|
                    0 <= j < rs.len() && j != i ==> rs[j] == old(self).view_agents()[j]
            }),
    {
        proof {
            lemma_agent_index(self.agents@, name@);
        }
        match self.find(name) {
            Some(i) => {
                let ghost before = self.agents@;
                let a = self.agents.remove(i);
                let a2 = Agent { status: st, ..a };
                self.agents.insert(i, a2);
                proof {
                    assert(self.agents@ =~= before.update(i as int, self.agents@[i as int]));
                    assert(strs_view(self.agents@[i as int].capabilities@) =~= strs_view(
                        before[i as int].capabilities@,
                    ));
                    assert forall|a: int, b: int|
                        0 <= a < b < self.agents@.len() implies self.agents@[a].name@
                        != self.agents@[b].name@ by {
                        assert(self.agents@[a].name@ == before[a].name@);
                        assert(self.agents@[b].name@ == before[b].name@);
                    }
                }
                Ok(())
            },
            None => Err(PrismError::NotFound(name.to_owned())),
        }
    }

    /// Restarts `name`: its status passes through `Restarting` and settles
    /// at `Running`. Fails exactly when `name` is not registered.
    pub fn restart(&mut self, name: &str) -> (r: Result<(), PrismError>)
        requires
            old(self).wf(),
        ensures
            final(self).wf(),
            r is Ok <==> old(self).spec_has(name@),
            r is Err ==> *final(self) == *old(self) && (r->Err_0 matches PrismError::NotFound(n)
                && n@ == name@),
            r is Ok ==> ({
                let i = old(self).spec_index_of(name@);
                let rs = final(self).view_agents();
                &&& rs.len() == old(self).view_agents().len()
                &&& agent_with_status(old(self).view_agents()[i], AgentStatus::Running, rs[i])
                &&& forall|j: int|
                    0 <= j < rs.len() && j != i ==> rs[j] == old(self).view_agents()[j]
            }),
    {
        self.set_status(name, AgentStatus::Running)
    }

    /// Marks `name` failed and restarts it at once, settling at `Running`.
    /// Fails exactly when `name` is not registered.
    pub fn fail_and_autorestart(&mut self, name: &str) -> (r: Result<(), PrismError>)
        requires
            old(self).wf(),
        ensures
            final(self).wf(),
            r is Ok <==> old(self).spec_has(name@),
            r is Err ==> *final(self) == *old(self) && (r->Err_0 matches PrismError::NotFound(n)
                && n@ == name@),
            r is Ok ==> ({
                let i = old(self).spec_index_of(name@);
                let rs = final(self).view_agents();
                &&& rs.len() == old(self).view_agents().len()
                &&& agent_with_status(old(self).view_agents()[i], AgentStatus::Running, rs[i])
                &&& forall|j: int|
                    0 <= j < rs.len() && j != i ==> rs[j] == old(self).view_agents()[j]
            }),
    {
        self.set_status(name, AgentStatus::Running)
    }

    /// Carries out one control command: `status` answers the full list,
    /// `restart` and `fail` act on the named agent, `snapshot` and
    /// `rollback` are accepted with nothing to do, and anything else is
    /// answered `Unknown`. Fails exactly when `restart` or `fail` names an
    /// agent that is not registered.
    pub fn handle_command(&mut self, cmd: &Command) -> (r: Result<CmdReply, PrismError>)
        requires
            old(self).wf(),
        ensures
            final(self).wf(),
            cmd.cmd@ == "status"@ ==> *final(self) == *old(self) && (r matches Ok(
                CmdReply::StatusList(v),
            ) && v@.len() == old(self).view_agents().len() && (forall|i: int|
                0 <= i < v@.len() ==> agent_like(old(self).view_agents()[i], v@[i]))),
            cmd.cmd@ == "restart"@ || cmd.cmd@ == "fail"@ ==> (match cmd.agent {
                Some(name) => {
                    &&& (r is Ok <==> old(self).spec_has(name@))
                    &&& r is Ok ==> r->Ok_0 is Done && ({
                        let i = old(self).spec_index_of(name@);
                        let rs = final(self).view_agents();
                        &&& rs.len() == old(self).view_agents().len()
                        &&& agent_with_status(
                            old(self).view_agents()[i],
                            AgentStatus::Running,
                            rs[i],
                        )
                        &&& forall|j: int|
                            0 <= j < rs.len() && j != i ==> rs[j] == old(self).view_agents()[j]
                    })
                    &&& r is Err ==> *final(self) == *old(self) && (r->Err_0 matches
                    PrismError::NotFound(n) && n@ == name@)
                },
                None => ((r matches Ok(CmdReply::Done)) && *final(self) == *old(self)),
            }),
            cmd.cmd@ == "snapshot"@ || cmd.cmd@ == "rollback"@ ==> ((r matches Ok(
                CmdReply::Done,
            )) && *final(self) == *old(self)),
            cmd.cmd@ != "status"@ && cmd.cmd@ != "restart"@ && cmd.cmd@ != "fail"@ && cmd.cmd@
                != "snapshot"@ && cmd.cmd@ != "rollback"@ ==> ((r matches Ok(CmdReply::Unknown))
                && *final(self) == *old(self)),
    {
        proof {
            reveal_strlit("status");
            reveal_strlit("restart");
            reveal_strlit("fail");
            reveal_strlit("snapshot");
            reveal_strlit("rollback");
            assert("status"@.len() == 6 && "restart"@.len() == 7 && "fail"@.len() == 4
                && "snapshot"@.len() == 8 && "rollback"@.len() == 8);
            assert("snapshot"@[0] == 's' && "rollback"@[0] == 'r');
            assert("status"@ != "restart"@ && "status"@ != "fail"@ && "status"@ != "snapshot"@
                && "status"@ != "rollback"@);
            assert("restart"@ != "fail"@ && "restart"@ != "snapshot"@ && "restart"@
                != "rollback"@);
            assert("fail"@ != "snapshot"@ && "fail"@ != "rollback"@);
            assert("snapshot"@ != "rollback"@);
        }
        let verb = cmd.cmd.as_str();
        if str_eq(verb, "status") {
            Ok(CmdReply::StatusList(self.status()))
        } else if str_eq(verb, "restart") {
            match &cmd.agent {
                Some(name) => match self.restart(name.as_str()) {
                    Ok(_) => Ok(CmdReply::Done),
                    Err(e) => Err(e),
                },
                None => Ok(CmdReply::Done),
            }
        } else if str_eq(verb, "fail") {
            match &cmd.agent {
                Some(name) => match self.fail_and_autorestart(name.as_str()) {
                    Ok(_) => Ok(CmdReply::Done),
                    Err(e) => Err(e),
                },
                None => Ok(CmdReply::Done),
            }
        } else if str_eq(verb, "snapshot") || str_eq(verb, "rollback") {
            Ok(CmdReply::Done)
        } else {
            Ok(CmdReply::Unknown)
        }
    }
}

/// Appending a fresh name makes it findable at the end.
proof fn lemma_agent_index_push(s: Seq<Agent>, r: Agent, name: Seq<char>)
    requires
        forall|j: int| 0 <= j < s.len() ==> s[j].name@ != name,
        r.name@ == name,
    ensures
        spec_agent_index(s.push(r), name) == s.len(),
    decreases s.len(),
{
    let s2 = s.push(r);
    if s.len() == 0 {
        assert(s2[0] == r);
    } else {
        assert(s2[0] == s[0]);
        assert(s2.drop_first() =~= s.drop_first().push(r));
        assert forall|j: int| 0 <= j < s.drop_first().len() implies s.drop_first()[j].name@
            != name by {
            assert(s.drop_first()[j] == s[j + 1]);
        }
        lemma_agent_index_push(s.drop_first(), r, name);
    }
}

/// A faithful copy of one agent.
fn clone_agent(a: &Agent) -> (r: Agent)
    ensures
        agent_like(*a, r),
{
    let mut config: Vec<(String, String)> = Vec::new();
    let mut i: usize = 0;
    while i < a.config.len()
        invariant
            i <= a.config@.len(),
            config@.len() == i,
            forall|j: int|
                0 <= j < i ==> config@[j].0@ == a.config@[j].0@ && config@[j].1@
                    == a.config@[j].1@,
        decreases a.config@.len() - i,
    {
        let k = clone_string(&a.config[i].0);
        let v = clone_string(&a.config[i].1);
        config.push((k, v));
        i = i + 1;
    }
    Agent {
        name: clone_string(&a.name),
        capabilities: clone_strings(&a.capabilities),
        config,
        version: clone_string(&a.version),
        status: a.status,
    }
}

/// Where agent definition files are looked for by default.
pub fn default_agent_dir() -> (r: String)
    ensures
        r@ == "/etc/prismos/agents.d"@,
{
    "/etc/prismos/agents.d".to_owned()
}

/// Where the control socket is placed by default.
pub fn default_socket() -> (r: String)
    ensures
        r@ == "/tmp/prismosd.sock"@,
{
    "/tmp/prismosd.sock".to_owned()
}

} // verus!
