use backend::clock::Timestamp;
use backend::history::{
    clear_history, count_for_client, get_history, list_history, load_history, push_history,
    serve_entry, trim_history_limits, HistoryLedger, HISTORY_MAX_ENTRIES, HISTORY_PER_IP_LIMIT,
};
use backend::model::{DownloadMode, DownloadStatus, HistoryEntry};

fn entry(id: u32, client: &str) -> HistoryEntry {
    HistoryEntry {
        id: format!("entry-{}", id),
        created_at: Timestamp { secs: 1_000 + id as i64, nanos: 0 },
        requester_ip: client.to_string(),
        url: format!("https://youtu.be/{}", id),
        title: Some(format!("Title {}", id)),
        thumbnail: None,
        mode: DownloadMode::Video,
        format: "720p".to_string(),
        status: DownloadStatus::Success,
        saved_path: Some(format!("file-{}.mp4", id)),
        error: None,
    }
}

fn ids(entries: &[HistoryEntry]) -> Vec<String> {
    entries.iter().map(|e| e.id.clone()).collect()
}

fn names(numbers: &[u32]) -> Vec<String> {
    numbers.iter().map(|n| format!("entry-{}", n)).collect()
}

#[test]
fn history_limits_have_their_values() {
    assert_eq!(HISTORY_PER_IP_LIMIT, 10);
    assert_eq!(HISTORY_MAX_ENTRIES, 2_000);
}

#[test]
fn entries_are_newest_first() {
    let mut ledger = HistoryLedger::new();
    assert_eq!(ledger.len(), 0);
    push_history(&mut ledger, entry(1, "a"));
    push_history(&mut ledger, entry(2, "b"));
    push_history(&mut ledger, entry(3, "a"));
    assert_eq!(ids(&ledger.snapshot()), names(&[3, 2, 1]));
    assert_eq!(ledger.len(), 3);
}

#[test]
fn a_client_keeps_its_ten_newest() {
    let mut ledger = HistoryLedger::new();
    for i in 1..=12 {
        push_history(&mut ledger, entry(i, "a"));
    }
    push_history(&mut ledger, entry(100, "b"));
    assert_eq!(ledger.len(), 11);
    assert_eq!(ids(&get_history(&ledger, "a")), names(&[12, 11, 10, 9, 8, 7, 6, 5, 4, 3]));
    assert_eq!(ids(&get_history(&ledger, "b")), names(&[100]));
}

#[test]
fn the_ledger_keeps_two_thousand_entries() {
    let mut ledger = HistoryLedger::new();
    for i in 0..2_005u32 {
        push_history(&mut ledger, entry(i, &format!("client-{}", i)));
    }
    assert_eq!(ledger.len(), 2_000);
    let snapshot = ledger.snapshot();
    assert_eq!(snapshot[0].id, "entry-2004");
    assert_eq!(snapshot[1_999].id, "entry-5");
    assert_eq!(get_history(&ledger, "client-4").len(), 0);
    assert_eq!(get_history(&ledger, "client-5").len(), 1);
}

#[test]
fn trim_applies_both_limits() {
    let mut entries: Vec<HistoryEntry> = Vec::new();
    for i in 0..15 {
        entries.push(entry(i, "a"));
        entries.push(entry(100 + i, "b"));
    }
    trim_history_limits(&mut entries);
    assert_eq!(entries.len(), 20);
    assert_eq!(
        ids(&entries),
        names(&[0, 100, 1, 101, 2, 102, 3, 103, 4, 104, 5, 105, 6, 106, 7, 107, 8, 108, 9, 109])
    );
    let mut empty: Vec<HistoryEntry> = Vec::new();
    trim_history_limits(&mut empty);
    assert!(empty.is_empty());
}

#[test]
fn trim_counts_what_was_kept() {
    let mut entries: Vec<HistoryEntry> = Vec::new();
    for i in 0..10 {
        entries.push(entry(i, "a"));
    }
    entries.push(entry(50, "b"));
    entries.push(entry(10, "a"));
    entries.push(entry(51, "b"));
    assert_eq!(count_for_client(&entries, 13, "a"), 11);
    assert_eq!(count_for_client(&entries, 10, "a"), 10);
    assert_eq!(count_for_client(&entries, 13, "b"), 2);
    assert_eq!(count_for_client(&entries, 0, "a"), 0);
    trim_history_limits(&mut entries);
    assert_eq!(ids(&entries), names(&[0, 1, 2, 3, 4, 5, 6, 7, 8, 9, 50, 51]));
}

#[test]
fn loading_applies_the_limits() {
    let mut entries: Vec<HistoryEntry> = Vec::new();
    for i in 0..2_100u32 {
        entries.push(entry(i, &format!("client-{}", i % 300)));
    }
    let ledger = load_history(entries);
    assert_eq!(ledger.len(), 2_000);
    for client in [0u32, 99, 100, 299] {
        let served = get_history(&ledger, &format!("client-{}", client));
        assert!(served.len() <= 10);
        assert!(served.iter().all(|e| e.requester_ip == format!("client-{}", client)));
    }
    assert_eq!(get_history(&ledger, "client-0").len(), 7);
    assert_eq!(get_history(&ledger, "client-299").len(), 6);
}

#[test]
fn list_serves_only_the_entries_of_the_client() {
    let mut ledger = HistoryLedger::new();
    for i in 0..30 {
        let client = match i % 3 {
            0 => "1.1.1.1",
            1 => "2.2.2.2",
            _ => "",
        };
        push_history(&mut ledger, entry(i, client));
    }
    for client in ["1.1.1.1", "2.2.2.2", "", "3.3.3.3", "1.1.1.1 "] {
        let served = get_history(&ledger, client);
        assert!(served.iter().all(|e| e.requester_ip == client));
        assert!(served.len() <= 10);
    }
    assert_eq!(get_history(&ledger, "1.1.1.1").len(), 10);
    assert_eq!(get_history(&ledger, "3.3.3.3").len(), 0);
    assert_eq!(get_history(&ledger, "1.1.1.1 ").len(), 0);
    assert_eq!(
        ids(&get_history(&ledger, "2.2.2.2")),
        names(&[28, 25, 22, 19, 16, 13, 10, 7, 4, 1])
    );
}

#[test]
fn list_serves_at_most_ten() {
    let entries: Vec<HistoryEntry> = (0..25).map(|i| entry(i, "a")).collect();
    let ledger = HistoryLedger { entries };
    let served = get_history(&ledger, "a");
    assert_eq!(ids(&served), names(&[0, 1, 2, 3, 4, 5, 6, 7, 8, 9]));
}

#[test]
fn served_entries_are_copies() {
    let mut ledger = HistoryLedger::new();
    let mut failed = entry(1, "a");
    failed.status = DownloadStatus::Failed;
    failed.saved_path = None;
    failed.error = Some("boom".to_string());
    failed.mode = DownloadMode::Audio;
    failed.thumbnail = Some("https://img/1.jpg".to_string());
    push_history(&mut ledger, failed);
    let served = get_history(&ledger, "a");
    assert_eq!(served.len(), 1);
    let e = &served[0];
    assert_eq!(e.id, "entry-1");
    assert_eq!(e.created_at, Timestamp { secs: 1_001, nanos: 0 });
    assert_eq!(e.requester_ip, "a");
    assert_eq!(e.url, "https://youtu.be/1");
    assert_eq!(e.title, Some("Title 1".to_string()));
    assert_eq!(e.thumbnail, Some("https://img/1.jpg".to_string()));
    assert_eq!(e.mode, DownloadMode::Audio);
    assert_eq!(e.format, "720p");
    assert_eq!(e.status, DownloadStatus::Failed);
    assert_eq!(e.saved_path, None);
    assert_eq!(e.error, Some("boom".to_string()));
    assert_eq!(ledger.len(), 1);
}

#[test]
fn clear_removes_only_the_entries_of_the_client() {
    let mut ledger = HistoryLedger::new();
    for i in 0..9 {
        push_history(&mut ledger, entry(i, if i % 2 == 0 { "a" } else { "b" }));
    }
    clear_history(&mut ledger, "a");
    assert_eq!(ids(&ledger.snapshot()), names(&[7, 5, 3, 1]));
    assert_eq!(get_history(&ledger, "a").len(), 0);
    assert_eq!(ids(&get_history(&ledger, "b")), names(&[7, 5, 3, 1]));
    clear_history(&mut ledger, "nobody");
    assert_eq!(ledger.len(), 4);
    clear_history(&mut ledger, "b");
    assert_eq!(ledger.len(), 0);
    clear_history(&mut ledger, "b");
    assert_eq!(ledger.len(), 0);
}

#[test]
fn served_entries_leave_the_client_out() {
    let mut ledger = HistoryLedger::new();
    for i in 0..6 {
        push_history(&mut ledger, entry(i, if i % 2 == 0 { "a" } else { "b" }));
    }
    let served = list_history(&ledger, "a");
    let served_ids: Vec<String> = served.iter().map(|e| e.id.clone()).collect();
    assert_eq!(served_ids, names(&[4, 2, 0]));
    let own = get_history(&ledger, "a");
    assert_eq!(served.len(), own.len());
    for (s, e) in served.iter().zip(own.iter()) {
        assert_eq!(s.id, e.id);
        assert_eq!(s.created_at, e.created_at);
        assert_eq!(s.url, e.url);
        assert_eq!(s.title, e.title);
        assert_eq!(s.thumbnail, e.thumbnail);
        assert_eq!(s.mode, e.mode);
        assert_eq!(s.format, e.format);
        assert_eq!(s.status, e.status);
        assert_eq!(s.saved_path, e.saved_path);
        assert_eq!(s.error, e.error);
        assert!(!format!("{:?}", s).contains("requester_ip"));
    }
    assert!(list_history(&ledger, "c").is_empty());
    let one = serve_entry(&entry(9, "secret-client"));
    assert_eq!(one.id, "entry-9");
    assert!(!format!("{:?}", one).contains("secret-client"));
}
