use g_flite::task::{GolemOpt, TaskBuilder, WorkloadPayload, Workspace};
use g_flite::timeout::Timeout;

fn builder_for(workspace: &str) -> TaskBuilder {
    let opt = GolemOpt {
        bid: "1.0".to_string(),
        task_timeout: Timeout::from_hms(0, 10, 0),
        subtask_timeout: Timeout::from_hms(0, 1, 0),
    };
    let payload = WorkloadPayload {
        js: vec![1, 2, 3],
        wasm: vec![9, 8, 7, 6],
    };
    TaskBuilder::new(workspace, opt, payload)
}

#[test]
fn lays_out_workspace_areas() {
    let task = builder_for("ws").build();
    assert_eq!(task.name, "g_flite");
    assert_eq!(task.input_dir, "ws/in");
    assert_eq!(task.output_dir, "ws/out");
    assert_eq!(task.js_name, "flite.js");
    assert_eq!(task.wasm_name, "flite.wasm");
}

#[test]
fn passes_options_and_payload_through_verbatim() {
    let task = builder_for("ws").build();
    assert_eq!(task.bid, "1.0");
    assert_eq!(task.task_timeout, "00:10:00");
    assert_eq!(task.subtask_timeout, "00:01:00");
    assert_eq!(task.js, vec![1, 2, 3]);
    assert_eq!(task.wasm, vec![9, 8, 7, 6]);
}

#[test]
fn numbers_subtasks_in_chunk_order() {
    let mut builder = builder_for("ws");
    builder.add_subtask("hello world".to_string());
    builder.add_subtask("goodbye".to_string());
    let task = builder.build();
    assert_eq!(task.subtasks.len(), 2);
    assert_eq!(task.subtasks[0].name, "subtask0");
    assert_eq!(task.subtasks[1].name, "subtask1");
    assert_eq!(task.subtasks[0].data, "hello world");
    assert_eq!(task.subtasks[1].data, "goodbye");
}

#[test]
fn records_artifact_paths_and_exec_args() {
    let mut builder = builder_for("ws");
    builder.add_subtask("hello".to_string());
    let task = builder.build();
    let sub = &task.subtasks[0];
    assert_eq!(sub.input_dir, "ws/in/subtask0");
    assert_eq!(sub.input_file, "ws/in/subtask0/in.txt");
    assert_eq!(sub.output_dir, "ws/out/subtask0");
    assert_eq!(sub.output_file, "ws/out/subtask0/in.wav");
    assert_eq!(sub.input_name, "in.txt");
    assert_eq!(sub.output_name, "in.wav");
}

#[test]
fn expects_outputs_in_chunk_order() {
    let mut builder = builder_for("base");
    builder.add_subtask("a".to_string());
    builder.add_subtask("b".to_string());
    builder.add_subtask("c".to_string());
    let task = builder.build();
    assert_eq!(
        task.expected_output_paths,
        vec![
            "base/out/subtask0/in.wav".to_string(),
            "base/out/subtask1/in.wav".to_string(),
            "base/out/subtask2/in.wav".to_string(),
        ]
    );
}

#[test]
fn keeps_subtask_numbering_past_ten() {
    let mut builder = builder_for("ws");
    let mut i = 0;
    while i < 12 {
        builder.add_subtask(format!("chunk {}", i));
        i += 1;
    }
    let task = builder.build();
    assert_eq!(task.subtasks[9].name, "subtask9");
    assert_eq!(task.subtasks[10].name, "subtask10");
    assert_eq!(task.subtasks[11].name, "subtask11");
}

#[test]
fn workspace_kinds_expose_their_path() {
    let user = Workspace::UserSpecified("/tmp/keepme".to_string());
    assert_eq!(user.path(), "/tmp/keepme");
    assert!(!user.is_ephemeral());
    assert_eq!(user.display_string(), "/tmp/keepme");
    let temp = Workspace::Ephemeral("/tmp/scratch".to_string());
    assert_eq!(temp.path(), "/tmp/scratch");
    assert!(temp.is_ephemeral());
}
