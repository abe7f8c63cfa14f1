use ladls::agentmgr::{self, Agent as ManagedAgent, AgentManager, AgentStatus, CmdReply, Command};
use ladls::agents::{
    agent_recv, agent_send, boot, echo_step, list_agents, mark_crashed, recv_message,
    send_message, spawn_agent, stop_agent, AgentState, AgentTable, EchoAction,
};
use ladls::bridge::{hex_preview, parse_duration_secs, parse_port, parse_u64_dec, parse_usize_clamped};
use ladls::docstore::{
    delete_memory, list_memory, update_memory, DeleteMemoryPayload, ListMemoryPayload, MemoryDoc,
    UpdateMemoryPatch, UpdateMemoryPayload,
};
use ladls::keychain::Keychain;
use ladls::memory::alloc_example;
use ladls::secure::{secure_delete, secure_get, secure_set, SecureKeyPayload, SecureSetPayload};
use ladls::snapshots::{
    cmd_list, cmd_rollback, rollback_agent, snapshot_agent, Agent as SnapAgent, SnapshotError,
};
use ladls::tasks::{get_task, list_tasks, ListTasksPayload, Task, TaskIdPayload};
use ladls::vfs::LogNode;

#[test]
fn log_node_rw() {
    let mut n = LogNode::new("kernel");
    n.write("boot ok\n").unwrap();
    assert_eq!(n.read().unwrap(), "boot ok\n");
}

#[test]
fn log_node_appends_in_order() {
    let mut n = LogNode::new("log");
    assert_eq!(n.name(), "log");
    assert_eq!(n.read().unwrap(), "");
    n.write("a").unwrap();
    n.write("b").unwrap();
    assert_eq!(n.read().unwrap(), "ab");
}

#[test]
fn keychain_set_get_delete() {
    let mut kc = Keychain::new();
    ladls::keychain::set_secret(&mut kc, "api", "one");
    assert_eq!(ladls::keychain::get_secret(&kc, "api"), Some("one".to_string()));
    ladls::keychain::set_secret(&mut kc, "api", "two");
    assert_eq!(ladls::keychain::get_secret(&kc, "api"), Some("two".to_string()));
    assert_eq!(ladls::keychain::get_secret(&kc, "absent"), None);
    ladls::keychain::delete_secret(&mut kc, "api");
    assert_eq!(ladls::keychain::get_secret(&kc, "api"), None);
}

#[test]
fn secure_commands_wrap_the_keychain() {
    let mut kc = Keychain::new();
    let ok = secure_set(
        &mut kc,
        SecureSetPayload { key: "token".into(), value: "t0ps3cret".into() },
    )
    .unwrap();
    assert!(ok.ok);
    let got = secure_get(&kc, SecureKeyPayload { key: "token".into() }).unwrap();
    assert_eq!(got.value, Some("t0ps3cret".to_string()));
    secure_delete(&mut kc, SecureKeyPayload { key: "token".into() }).unwrap();
    let gone = secure_get(&kc, SecureKeyPayload { key: "token".into() }).unwrap();
    assert_eq!(gone.value, None);
}

fn task(id: &str, title: &str, status: &str) -> Task {
    Task {
        id: id.into(),
        title: title.into(),
        status: status.into(),
        created_at: "t0".into(),
        updated_at: "t0".into(),
        tags: vec![],
        logs: vec![],
    }
}

#[test]
fn get_task_finds_by_id() {
    let tasks = vec![task("a", "first", "done"), task("b", "second", "open")];
    let t = get_task(tasks, TaskIdPayload { id: "b".into() }).unwrap();
    assert_eq!(t.title, "second");
    let err = get_task(vec![], TaskIdPayload { id: "zz".into() }).unwrap_err();
    assert_eq!(err, "task not found");
}

#[test]
fn list_tasks_filters_by_status() {
    let tasks = vec![task("a", "x", "done"), task("b", "y", "open"), task("c", "z", "done")];
    let all = list_tasks(tasks, None).unwrap();
    assert_eq!(all.len(), 3);
    let done = list_tasks(all, Some(ListTasksPayload { status: Some("done".into()) })).unwrap();
    assert_eq!(done.len(), 2);
    assert!(done.iter().all(|t| t.status == "done"));
}

fn doc(id: &str, tags: Vec<&str>) -> MemoryDoc {
    MemoryDoc {
        id: id.into(),
        title: format!("title-{id}"),
        tags: tags.into_iter().map(String::from).collect(),
        content: "body".into(),
        created_at: "c".into(),
        updated_at: "c".into(),
    }
}

#[test]
fn delete_memory_drops_matching_docs() {
    let mut docs = vec![doc("1", vec![]), doc("2", vec![]), doc("1", vec![])];
    let ok = delete_memory(&mut docs, DeleteMemoryPayload { id: "1".into() }).unwrap();
    assert!(ok.ok);
    assert_eq!(docs.len(), 1);
    assert_eq!(docs[0].id, "2");
}

#[test]
fn list_memory_pages_and_counts() {
    let docs = vec![doc("1", vec!["a"]), doc("2", vec!["b"]), doc("3", vec!["a"])];
    let all = list_memory(docs, None).unwrap();
    assert_eq!(all.total, 3);
    assert_eq!(all.items.len(), 3);
    let tagged = list_memory(
        all.items,
        Some(ListMemoryPayload { tag: Some("a".into()), limit: Some(1), offset: Some(1) }),
    )
    .unwrap();
    assert_eq!(tagged.total, 2);
    assert_eq!(tagged.items.len(), 1);
    assert_eq!(tagged.items[0].id, "3");
}

#[test]
fn update_memory_patches_first_match() {
    let mut docs = vec![doc("1", vec![]), doc("2", vec![])];
    let updated = update_memory(
        &mut docs,
        UpdateMemoryPayload {
            id: "2".into(),
            patch: UpdateMemoryPatch {
                title: Some("new title".into()),
                tags: None,
                content: None,
            },
        },
        "t9",
    )
    .unwrap();
    assert_eq!(updated.title, "new title");
    assert_eq!(updated.updated_at, "t9");
    assert_eq!(updated.content, "body");
    assert_eq!(docs[1].title, "new title");
    let err = update_memory(
        &mut docs,
        UpdateMemoryPayload {
            id: "zz".into(),
            patch: UpdateMemoryPatch { title: None, tags: None, content: None },
        },
        "t9",
    )
    .unwrap_err();
    assert_eq!(err, "memory not found");
}

#[test]
fn agents_boot_and_echo() {
    let mut table = AgentTable::new();
    boot(&mut table);
    let agents = list_agents(&table);
    assert_eq!(agents.len(), 2);
    assert!(agents.iter().any(|(n, s)| n == "system" && *s == AgentState::Running));
    assert!(agents.iter().any(|(n, s)| n == "echo" && *s == AgentState::Running));

    send_message(&mut table, "echo", "hello");
    let msg = agent_recv(&mut table, "echo").unwrap();
    match echo_step(msg) {
        EchoAction::Reply(m) => agent_send(&mut table, "echo", &m),
        EchoAction::Crash => panic!("plain message must not crash the agent"),
    }
    assert_eq!(recv_message(&mut table, "echo"), Some("hello".to_string()));
    assert_eq!(recv_message(&mut table, "echo"), None);
    assert_eq!(recv_message(&mut table, "nobody"), None);
}

#[test]
fn agents_crash_and_stop() {
    let mut table = AgentTable::new();
    boot(&mut table);
    send_message(&mut table, "echo", "panic");
    let msg = agent_recv(&mut table, "echo").unwrap();
    assert!(matches!(echo_step(msg), EchoAction::Crash));
    mark_crashed(&mut table, "echo");
    let agents = list_agents(&table);
    assert!(agents.iter().any(|(n, s)| n == "echo" && *s == AgentState::Crashed));
    stop_agent(&mut table, "system");
    let agents = list_agents(&table);
    assert!(agents.iter().any(|(n, s)| n == "system" && *s == AgentState::Stopped));
    spawn_agent(&mut table, "system");
    assert_eq!(list_agents(&table).len(), 2);
}

fn managed(name: &str) -> ManagedAgent {
    ManagedAgent {
        name: name.into(),
        capabilities: vec![],
        config: vec![],
        version: "1.0".into(),
        status: AgentStatus::default(),
    }
}

#[test]
fn manager_status_and_restart() {
    let mut mgr = AgentManager::new();
    mgr.add_agent(managed("api"));
    let status = mgr.status();
    assert_eq!(status.len(), 1);
    assert_eq!(status[0].name, "api");
    assert_eq!(status[0].status, AgentStatus::Running);
    mgr.restart("api").unwrap();
    assert!(matches!(
        mgr.restart("ghost").unwrap_err(),
        agentmgr::PrismError::NotFound(n) if n == "ghost"
    ));
    mgr.fail_and_autorestart("api").unwrap();
    assert_eq!(mgr.status()[0].status, AgentStatus::Running);
}

#[test]
fn manager_handles_control_commands() {
    let mut mgr = AgentManager::new();
    mgr.add_agent(managed("api"));
    match mgr.handle_command(&Command { cmd: "status".into(), agent: None }).unwrap() {
        CmdReply::StatusList(v) => assert_eq!(v.len(), 1),
        other => panic!("unexpected reply {other:?}"),
    }
    assert!(matches!(
        mgr.handle_command(&Command { cmd: "restart".into(), agent: Some("api".into()) }),
        Ok(CmdReply::Done)
    ));
    assert!(matches!(
        mgr.handle_command(&Command { cmd: "fail".into(), agent: Some("api".into()) }),
        Ok(CmdReply::Done)
    ));
    assert!(matches!(
        mgr.handle_command(&Command { cmd: "snapshot".into(), agent: None }),
        Ok(CmdReply::Done)
    ));
    assert!(matches!(
        mgr.handle_command(&Command { cmd: "nonsense".into(), agent: None }),
        Ok(CmdReply::Unknown)
    ));
    assert!(mgr
        .handle_command(&Command { cmd: "restart".into(), agent: Some("ghost".into()) })
        .is_err());
}

#[test]
fn default_paths() {
    assert_eq!(agentmgr::default_agent_dir(), "/etc/prismos/agents.d");
    assert_eq!(agentmgr::default_socket(), "/tmp/prismosd.sock");
}

#[test]
fn snapshot_and_rollback() {
    let mut table = Vec::new();
    let mut agent = SnapAgent { name: "echo".into(), state: b"before".to_vec() };
    let snap = snapshot_agent(&mut table, &agent, 1).unwrap();
    agent.state = b"after".to_vec();
    rollback_agent(&mut agent, &snap).unwrap();
    assert_eq!(agent.state, b"before".to_vec());
}

#[test]
fn snapshot_listing_and_timed_rollback() {
    let mut table = Vec::new();
    let mut agent = SnapAgent { name: "echo".into(), state: b"v1".to_vec() };
    snapshot_agent(&mut table, &agent, 1).unwrap();
    agent.state = b"v2".to_vec();
    snapshot_agent(&mut table, &agent, 2).unwrap();
    let other = SnapAgent { name: "other".into(), state: b"x".to_vec() };
    snapshot_agent(&mut table, &other, 3).unwrap();
    let listed = cmd_list(&table, "echo");
    assert_eq!(listed.len(), 2);
    assert_eq!(listed[0].timestamp, 1);
    agent.state = b"v3".to_vec();
    cmd_rollback(&mut agent, &table, 1).unwrap();
    assert_eq!(agent.state, b"v1".to_vec());
    assert_eq!(
        cmd_rollback(&mut agent, &table, 99).unwrap_err(),
        SnapshotError::SnapshotNotFound
    );
}

#[test]
fn decimal_parsers_match_their_ranges() {
    assert_eq!(parse_u64_dec("0"), Some(0));
    assert_eq!(parse_u64_dec("18446744073709551615"), Some(u64::MAX));
    assert_eq!(parse_u64_dec("18446744073709551616"), None);
    assert_eq!(parse_u64_dec("+42"), Some(42));
    assert_eq!(parse_u64_dec(""), None);
    assert_eq!(parse_u64_dec("+"), None);
    assert_eq!(parse_u64_dec("4x2"), None);
    assert_eq!(parse_port("7000"), Some(7000));
    assert_eq!(parse_port("65536"), None);
    assert_eq!(parse_duration_secs("0"), Some(1));
    assert_eq!(parse_duration_secs("5"), Some(5));
    assert_eq!(parse_usize_clamped("0"), Some(1));
    assert_eq!(parse_usize_clamped("4096"), Some(4096));
}

#[test]
fn hex_preview_formats_and_truncates() {
    assert_eq!(hex_preview(&[], 8), "<empty>");
    assert_eq!(hex_preview(&[1, 2], 0), "<empty>");
    assert_eq!(hex_preview(&[0x0f, 0xa0, 0xff], 8), "0fa0ff");
    assert_eq!(hex_preview(&[0x0f, 0xa0, 0xff], 2), "0fa0\u{2026}");
}

#[test]
fn alloc_example_allocates_the_answer() {
    assert_eq!(*alloc_example(), 42);
}

#[test]
fn boot_twice_changes_nothing() {
    let mut table = AgentTable::new();
    boot(&mut table);
    send_message(&mut table, "echo", "queued");
    let before = list_agents(&table);
    boot(&mut table);
    let after = list_agents(&table);
    assert_eq!(before, after);
    // The queued message survived the second boot.
    assert_eq!(agent_recv(&mut table, "echo"), Some("queued".to_string()));
}
