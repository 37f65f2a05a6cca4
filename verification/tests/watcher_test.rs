use loupe::streaming::DeltaAccumulator;
use loupe::watcher::{is_transcript_name, read_plan, Watch, WatchedFile};

fn key(s: &str) -> Vec<u8> {
    s.as_bytes().to_vec()
}

#[test]
fn watch_hands_out_ids_in_order() {
    let mut w = Watch::new();
    assert_eq!(w.next_id(), 0);
    assert_eq!(w.next_id(), 1);
    assert_eq!(w.next_run_id, 2);
}

#[test]
fn watch_tracks_and_finds_files() {
    let mut w = Watch::new();
    let a = w.next_id();
    w.track(key("a.jsonl"), WatchedFile::new(a));
    let b = w.next_id();
    w.track(key("b.jsonl"), WatchedFile::new(b));
    assert_eq!(w.position(&key("a.jsonl")), Some(0));
    assert_eq!(w.position(&key("b.jsonl")), Some(1));
    assert_eq!(w.position(&key("c.jsonl")), None);
    assert_eq!(w.files[1].1.run_id, 1);
}

#[test]
fn watch_prune_forgets_deleted_files_and_keeps_order() {
    let mut w = Watch::new();
    for name in ["a.jsonl", "b.jsonl", "c.jsonl"] {
        let id = w.next_id();
        w.track(key(name), WatchedFile::new(id));
    }
    w.prune(&vec![key("c.jsonl"), key("a.jsonl")]);
    assert_eq!(w.files.len(), 2);
    assert_eq!(w.files[0].0, key("a.jsonl"));
    assert_eq!(w.files[1].0, key("c.jsonl"));
    assert_eq!(w.files[1].1.run_id, 2);
    assert_eq!(w.position(&key("b.jsonl")), None);
    assert_eq!(w.next_run_id, 3);
}

#[test]
fn watch_new_run_after_prune_gets_fresh_id() {
    let mut w = Watch::new();
    let a = w.next_id();
    w.track(key("a.jsonl"), WatchedFile::new(a));
    w.prune(&vec![]);
    assert_eq!(w.files.len(), 0);
    let b = w.next_id();
    assert_eq!(b, 1);
}

#[test]
fn transcript_names_have_the_jsonl_extension() {
    assert!(is_transcript_name(b"run1.jsonl"));
    assert!(is_transcript_name(b"a.b.jsonl"));
    assert!(!is_transcript_name(b".jsonl"));
    assert!(!is_transcript_name(b"run1.json"));
    assert!(!is_transcript_name(b"run1.jsonl.bak"));
    assert!(!is_transcript_name(b"jsonl"));
}

#[test]
fn file_emptied_is_read_again_from_the_start() {
    let mut wf = WatchedFile::new(0);
    let mut acc = DeltaAccumulator::new();
    let first = "{\"type\":\"user\"}\n";
    wf.ingest(first, 0, first.len() as u64, false, &mut acc);
    assert_eq!(wf.bytes_read, first.len() as u64);
    let start = read_plan(0, wf.bytes_read).unwrap();
    assert_eq!(start, 0);
    let events = wf.ingest("", start, 0, true, &mut acc);
    assert!(events.is_empty());
    assert_eq!(wf.bytes_read, 0);
    assert_eq!(read_plan(5, wf.bytes_read), Some(0));
}

#[test]
fn codex_turn_context_starts_a_session_once() {
    let mut wf = WatchedFile::new(0);
    let mut acc = DeltaAccumulator::new();
    let lines = [
        r#"{"timestamp":"2026-03-22T19:54:06.506Z","type":"turn_context","payload":{"model":"gpt-5.4"}}"#,
        r#"{"timestamp":"2026-03-22T19:55:06.506Z","type":"turn_context","payload":{"model":"gpt-5.4"}}"#,
        r#"{"timestamp":"2026-03-22T19:56:06.506Z","type":"event_msg","payload":{"type":"user_message","message":"hi"}}"#,
    ];
    let content = lines.join("\n") + "\n";
    let content = content.as_str();
    let events = wf.ingest(content, 0, content.len() as u64, false, &mut acc);
    assert!(wf.turn_seen);
    let updated = events
        .iter()
        .find_map(|e| match e {
            loupe::events::AppEvent::RunUpdated { new_items, raw_lines, .. } => Some((new_items.len(), raw_lines.len())),
            _ => None,
        })
        .unwrap();
    assert_eq!(updated, (2, 3));
}
