use nuclaw::types::ChatInfo;
use nuclaw::types::ContainerInput;
use nuclaw::types::ContainerOutput;
use nuclaw::types::NewMessage;
use nuclaw::types::RegisteredGroup;
use nuclaw::types::RouterState;
use nuclaw::types::ScheduledTask;
use nuclaw::types::Session;
use nuclaw::types::TaskRunLog;

#[test]
fn test_registered_group() {
    let group = RegisteredGroup {
        name: "Test Group".to_string(),
        folder: "test_group".to_string(),
        trigger: "@Andy".to_string(),
        added_at: "2025-01-01T00:00:00Z".to_string(),
    };
    assert_eq!(group.name, "Test Group");
    assert_eq!(group.folder, "test_group");
}

#[test]
fn test_session() {
    let mut session = Session::new();
    session.insert("key1".to_string(), "value1".to_string());
    assert_eq!(session.len(), 1);
}

#[test]
fn test_session_insert_replaces() {
    let mut session = Session::new();
    session.insert("key1".to_string(), "value1".to_string());
    session.insert("key1".to_string(), "value2".to_string());
    session.insert("key2".to_string(), "value3".to_string());
    assert_eq!(session.len(), 2);
}

#[test]
fn test_scheduled_task() {
    let task = ScheduledTask {
        id: "task_1".to_string(),
        group_folder: "group_1".to_string(),
        chat_jid: "chat_1".to_string(),
        prompt: "test prompt".to_string(),
        schedule_type: "cron".to_string(),
        schedule_value: "0 0 9 * * *".to_string(),
        context_mode: "isolated".to_string(),
        next_run: Some("2025-01-01T09:00:00Z".to_string()),
        last_run: None,
        last_result: None,
        status: "active".to_string(),
        created_at: "2025-01-01T00:00:00Z".to_string(),
    };
    assert_eq!(task.schedule_type, "cron");
    assert_eq!(task.status, "active");
}

#[test]
fn test_container_input() {
    let input = ContainerInput {
        prompt: "test".to_string(),
        session_id: Some("sess_123".to_string()),
        group_folder: "group_1".to_string(),
        chat_jid: "chat_1".to_string(),
        is_main: true,
        is_scheduled_task: false,
    };
    assert!(input.session_id.is_some());
    assert!(input.is_main);
}

#[test]
fn test_container_output() {
    let output = ContainerOutput {
        status: "success".to_string(),
        result: Some("result".to_string()),
        new_session_id: Some("new_sess".to_string()),
        error: None,
    };
    assert_eq!(output.status, "success");
    assert!(output.result.is_some());
    assert!(output.error.is_none());
}

#[test]
fn test_router_state() {
    let mut state = RouterState::default();
    state.last_timestamp = "2025-01-01T00:00:00Z".to_string();
    state
        .last_agent_timestamp
        .push(("chat_1".to_string(), "2025-01-01T00:00:00Z".to_string()));
    assert_eq!(state.last_agent_timestamp.len(), 1);
}

#[test]
fn test_router_state_record() {
    let mut state = RouterState::default();
    let msg = NewMessage {
        id: "1".to_string(),
        chat_jid: "chat_1".to_string(),
        sender: "u".to_string(),
        sender_name: "U".to_string(),
        content: "hi".to_string(),
        timestamp: "2025-01-01T00:00:00Z".to_string(),
    };
    state.record(&msg);
    assert_eq!(state.last_timestamp, "2025-01-01T00:00:00Z");
    assert_eq!(state.last_agent_timestamp.len(), 1);
    let mut msg2 = msg.clone();
    msg2.timestamp = "2025-01-01T00:01:00Z".to_string();
    state.record(&msg2);
    assert_eq!(state.last_agent_timestamp.len(), 1);
    assert_eq!(state.last_agent_timestamp[0].1, "2025-01-01T00:01:00Z");
}

#[test]
fn test_new_message() {
    let msg = NewMessage {
        id: "msg_1".to_string(),
        chat_jid: "chat_1".to_string(),
        sender: "user_1".to_string(),
        sender_name: "Test User".to_string(),
        content: "Hello".to_string(),
        timestamp: "2025-01-01T00:00:00Z".to_string(),
    };
    assert_eq!(msg.content, "Hello");
}

#[test]
fn test_task_run_log() {
    let log = TaskRunLog {
        task_id: "task_1".to_string(),
        run_at: "2025-01-01T00:00:00Z".to_string(),
        duration_ms: 1000,
        status: "success".to_string(),
        result: Some("ok".to_string()),
        error: None,
    };
    assert_eq!(log.duration_ms, 1000);
}

#[test]
fn test_chat_info() {
    let info = ChatInfo {
        jid: "chat_1".to_string(),
        name: "Test Chat".to_string(),
        last_message_time: "2025-01-01T00:00:00Z".to_string(),
    };
    assert_eq!(info.name, "Test Chat");
}
