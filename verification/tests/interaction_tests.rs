use npcterm39::web::interaction::{InteractionEntry, InteractionLog};

fn entry(tool: &str, ok: bool) -> InteractionEntry {
    InteractionEntry {
        timestamp: "2026-04-07T10:00:00+00:00".to_string(),
        tool: tool.to_string(),
        terminal_id: Some("aa".to_string()),
        params: "{\"id\":\"aa\"}".to_string(),
        success: ok,
        summary: None,
    }
}

#[test]
fn log_keeps_the_latest_entries() {
    let mut log = InteractionLog::new(3);
    for tool in ["t1", "t2", "t3", "t4"] {
        log.push(entry(tool, true));
    }
    let all: Vec<String> = log.recent(10).into_iter().map(|e| e.tool).collect();
    assert_eq!(all, vec!["t2", "t3", "t4"]);
    let last: Vec<String> = log.recent(2).into_iter().map(|e| e.tool).collect();
    assert_eq!(last, vec!["t3", "t4"]);
    assert!(log.recent(0).is_empty());
}

#[test]
fn recent_entries_are_copies() {
    let mut log = InteractionLog::default();
    log.push(entry("terminal_read_screen", false));
    let got = log.recent(1);
    assert_eq!(got.len(), 1);
    assert_eq!(got[0].tool, "terminal_read_screen");
    assert_eq!(got[0].terminal_id, Some("aa".to_string()));
    assert_eq!(got[0].params, "{\"id\":\"aa\"}");
    assert!(!got[0].success);
    assert!(got[0].summary.is_none());
    assert_eq!(got[0].timestamp, "2026-04-07T10:00:00+00:00");
}
