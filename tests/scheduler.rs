use play_queue::history::{History, HistoryEntry, HistoryError, MAX_HISTORY_LEN};
use play_queue::job::JobType;
use play_queue::queue::{CancelOutcome, QueueError, QueueManager};
use play_queue::yt_dlp::{TrackInfo, TrackType};
use tokio_util::sync::CancellationToken;

fn info(url: &str) -> TrackInfo {
    TrackInfo {
        title: format!("title of {url}"),
        channel: "chan".to_string(),
        uploader_id: "@up".to_string(),
        webpage_url: url.to_string(),
        acodec: "mp4a".to_string(),
        vcodec: "avc1".to_string(),
        height: Some(720),
        width: Some(1280),
        thumbnail: "thumb.jpg".to_string(),
        track_type: TrackType::Merged,
        format_id: "18".to_string(),
        duration: 61,
    }
}

fn merged(url: &str) -> JobType {
    JobType::QueueMerged { url: url.to_string(), height: None, format_id: "18".to_string() }
}

fn manager() -> QueueManager {
    QueueManager::new(History::new(Vec::new()))
}

fn submit(qm: &mut QueueManager, url: &str) -> usize {
    qm.submit(merged(url), info(url)).unwrap()
}

fn pending_ids(qm: &QueueManager) -> Vec<usize> {
    qm.inspect().1.iter().map(|m| m.job_id).collect()
}

fn signal(token: Option<CancellationToken>) -> bool {
    match token {
        Some(t) => {
            t.cancel();
            true
        }
        None => false,
    }
}

fn cancel_found(qm: &mut QueueManager, id: usize) -> bool {
    let outcome = qm.cancel_by_id(id);
    if let CancelOutcome::Stop(t) = &outcome {
        t.cancel();
    }
    outcome.found()
}

fn history_urls(h: &[HistoryEntry]) -> Vec<String> {
    h.iter().map(|e| e.track_info.webpage_url.clone()).collect()
}

#[test]
fn end_to_end_scenario() {
    let mut qm = manager();
    assert_eq!(submit(&mut qm, "A"), 1);
    assert_eq!(submit(&mut qm, "B"), 2);
    assert_eq!(submit(&mut qm, "C"), 3);
    qm.reorder_job(3, 0).unwrap();
    assert_eq!(pending_ids(&qm), vec![3, 1, 2]);
    assert!(matches!(qm.swap_with_running(1), Err(QueueError::InvalidOperation)));
    assert_eq!(pending_ids(&qm), vec![3, 1, 2]);
    let started = qm.start_next(CancellationToken::new()).unwrap();
    assert_eq!(started.id, 3);
    assert!(matches!(qm.cancel_by_id(1), CancelOutcome::Dequeued));
    assert_eq!(pending_ids(&qm), vec![2]);
    let (current, pending) = qm.inspect();
    let current = current.unwrap();
    assert_eq!(current.job_id, 3);
    assert!(current.current);
    assert_eq!(current.track_info.webpage_url, "C");
    assert_eq!(pending.len(), 1);
    assert_eq!(pending[0].job_id, 2);
    assert!(!pending[0].current);
}

#[test]
fn reorder_clamps_to_last_position() {
    for len in 1..=5usize {
        for from in 0..len {
            for new_index in 0..=len + 5 {
                let mut qm = manager();
                let ids: Vec<usize> =
                    (0..len).map(|i| submit(&mut qm, &format!("u{i}"))).collect();
                let id = ids[from];
                qm.reorder_job(id, new_index).unwrap();
                let after = pending_ids(&qm);
                let expected_pos = new_index.min(len - 1);
                assert_eq!(after.len(), len);
                assert_eq!(after[expected_pos], id);
                let mut others = ids.clone();
                others.remove(from);
                let mut rest = after.clone();
                rest.remove(expected_pos);
                assert_eq!(rest, others);
                if new_index == from {
                    assert_eq!(after, ids);
                }
            }
        }
    }
}

#[test]
fn reorder_unknown_or_running_is_not_found() {
    let mut qm = manager();
    submit(&mut qm, "A");
    submit(&mut qm, "B");
    assert_eq!(qm.reorder_job(9, 0), Err(QueueError::NotFound));
    qm.start_next(CancellationToken::new()).unwrap();
    assert_eq!(qm.reorder_job(1, 0), Err(QueueError::NotFound));
    assert_eq!(pending_ids(&qm), vec![2]);
}

#[test]
fn swap_puts_target_then_running_first() {
    let mut qm = manager();
    for u in ["A", "B", "C", "D"] {
        submit(&mut qm, u);
    }
    let token = CancellationToken::new();
    qm.start_next(token.clone()).unwrap();
    assert_eq!(pending_ids(&qm), vec![2, 3, 4]);
    let handed = qm.swap_with_running(3).unwrap();
    assert!(!token.is_cancelled());
    handed.cancel();
    assert!(token.is_cancelled());
    assert_eq!(pending_ids(&qm), vec![3, 1, 2, 4]);
    assert_eq!(qm.inspect().0.unwrap().job_id, 1);
    // The old running job's slot is empty: nothing is handed over again.
    assert!(qm.cancel().is_none());
    assert!(matches!(qm.swap_with_running(2), Err(QueueError::InvalidOperation)));
    qm.finish_job(10);
    assert!(qm.inspect().0.is_none());
    assert_eq!(qm.start_next(CancellationToken::new()).unwrap().id, 3);
}

#[test]
fn swap_errors() {
    let mut qm = manager();
    submit(&mut qm, "A");
    submit(&mut qm, "B");
    qm.start_next(CancellationToken::new()).unwrap();
    assert!(matches!(qm.swap_with_running(1), Err(QueueError::InvalidOperation)));
    assert!(matches!(qm.swap_with_running(7), Err(QueueError::NotFound)));
    assert_eq!(pending_ids(&qm), vec![2]);
}

#[test]
fn cancel_running_job() {
    let mut qm = manager();
    submit(&mut qm, "A");
    assert!(!signal(qm.cancel()));
    let token = CancellationToken::new();
    qm.start_next(token.clone()).unwrap();
    assert!(signal(qm.cancel()));
    assert!(token.is_cancelled());
    assert!(!signal(qm.cancel()));
    assert_eq!(qm.inspect().0.unwrap().job_id, 1);
}

#[test]
fn cancel_by_id_signals_running_job() {
    let mut qm = manager();
    submit(&mut qm, "A");
    let token = CancellationToken::new();
    qm.start_next(token.clone()).unwrap();
    assert!(!cancel_found(&mut qm, 5));
    assert!(!token.is_cancelled());
    assert!(cancel_found(&mut qm, 1));
    assert!(token.is_cancelled());
    // The slot is empty now: a second request finds nothing to stop.
    assert!(!cancel_found(&mut qm, 1));
    assert_eq!(qm.inspect().0.unwrap().job_id, 1);
}

#[test]
fn cancelled_pending_job_never_reaches_history() {
    let mut qm = manager();
    submit(&mut qm, "A");
    submit(&mut qm, "B");
    submit(&mut qm, "C");
    assert!(matches!(qm.cancel_by_id(2), CancelOutcome::Dequeued));
    assert!(matches!(qm.cancel_by_id(2), CancelOutcome::NotFound));
    while qm.start_next(CancellationToken::new()).is_some() {
        qm.finish_job(100);
    }
    assert_eq!(history_urls(&qm.get_history()), vec!["A", "C"]);
}

#[test]
fn clear_with_nothing_running() {
    let mut qm = manager();
    submit(&mut qm, "A");
    submit(&mut qm, "B");
    assert!(qm.clear().is_none());
    assert!(qm.inspect().1.is_empty());
    qm.finish_job(5);
    assert!(qm.inspect().1.is_empty());
    assert!(qm.start_next(CancellationToken::new()).is_none());
}

#[test]
fn clear_drops_jobs_submitted_before_the_current_one_ends() {
    let mut qm = manager();
    submit(&mut qm, "A");
    submit(&mut qm, "B");
    let token = CancellationToken::new();
    qm.start_next(token.clone()).unwrap();
    assert!(signal(qm.clear()));
    assert!(token.is_cancelled());
    submit(&mut qm, "C");
    qm.finish_job(5);
    assert!(qm.inspect().1.is_empty());
    assert_eq!(history_urls(&qm.get_history()), vec!["A"]);
    let d = submit(&mut qm, "D");
    assert_eq!(qm.start_next(CancellationToken::new()).unwrap().id, d);
}

#[test]
fn launch_failure_leaves_no_history() {
    let mut qm = manager();
    submit(&mut qm, "A");
    qm.start_next(CancellationToken::new()).unwrap();
    qm.launch_failed();
    assert!(qm.inspect().0.is_none());
    assert!(!signal(qm.cancel()));
    assert!(qm.get_history().is_empty());
}

#[test]
fn history_dedups_on_page_url() {
    let mut h = History::new(Vec::new());
    h.insert(info("a"), 1);
    h.insert(info("b"), 2);
    h.insert(info("a"), 3);
    let entries = h.get_history();
    assert_eq!(history_urls(&entries), vec!["b", "a"]);
    assert_eq!(entries[1].inserted_at, 3);
    h.insert(info("a"), 4);
    assert_eq!(history_urls(&h.get_history()), vec!["b", "a"]);
}

#[test]
fn history_evicts_oldest_beyond_cap() {
    let mut h = History::new(Vec::new());
    for i in 0..MAX_HISTORY_LEN {
        h.insert(info(&format!("u{i}")), i as u64);
    }
    assert_eq!(h.get_history().len(), 20);
    h.insert(info("u20"), 20);
    let entries = h.get_history();
    assert_eq!(entries.len(), 20);
    assert_eq!(entries[0].track_info.webpage_url, "u1");
    assert_eq!(entries[19].track_info.webpage_url, "u20");
    // Re-playing a listed page in a full history evicts nothing.
    h.insert(info("u5"), 21);
    let entries = h.get_history();
    assert_eq!(entries.len(), 20);
    assert_eq!(entries[0].track_info.webpage_url, "u1");
    assert_eq!(entries[19].track_info.webpage_url, "u5");
}

#[test]
fn history_remove() {
    let mut h = History::new(Vec::new());
    h.insert(info("a"), 1);
    h.insert(info("b"), 2);
    assert_eq!(h.remove("zzz"), Err(HistoryError::NotFound));
    assert_eq!(h.remove("a"), Ok(()));
    assert_eq!(history_urls(&h.get_history()), vec!["b"]);
    assert_eq!(h.remove("a"), Err(HistoryError::NotFound));
}

#[test]
fn history_new_keeps_stored_list_and_repairs_others() {
    let stored: Vec<HistoryEntry> = (0..3)
        .map(|i| HistoryEntry { track_info: info(&format!("s{i}")), inserted_at: i })
        .collect();
    let h = History::new(stored.clone());
    assert_eq!(h.get_history(), stored);
    let mut messy: Vec<HistoryEntry> = (0..25)
        .map(|i| HistoryEntry { track_info: info(&format!("m{i}")), inserted_at: i })
        .collect();
    messy.push(HistoryEntry { track_info: info("m24"), inserted_at: 99 });
    let h = History::new(messy);
    let entries = h.get_history();
    assert_eq!(entries.len(), 20);
    assert_eq!(entries[0].track_info.webpage_url, "m5");
    assert_eq!(entries[19].track_info.webpage_url, "m24");
    assert_eq!(entries[19].inserted_at, 99);
}

#[test]
fn queue_history_removal() {
    let mut qm = manager();
    submit(&mut qm, "A");
    qm.start_next(CancellationToken::new()).unwrap();
    qm.finish_job(7);
    assert_eq!(qm.remove_history_entry("B"), Err(HistoryError::NotFound));
    assert_eq!(qm.remove_history_entry("A"), Ok(()));
    assert!(qm.get_history().is_empty());
}

#[test]
fn clear_while_idle_does_not_drop_later_jobs() {
    let mut qm = manager();
    submit(&mut qm, "A");
    assert!(qm.clear().is_none());
    assert!(qm.inspect().1.is_empty());
    let b = submit(&mut qm, "B");
    let c = submit(&mut qm, "C");
    assert_eq!(qm.start_next(CancellationToken::new()).unwrap().id, b);
    qm.finish_job(1);
    assert_eq!(pending_ids(&qm), vec![c]);
}

#[test]
fn nothing_starts_while_a_job_is_in_progress() {
    let mut qm = manager();
    submit(&mut qm, "A");
    submit(&mut qm, "B");
    qm.start_next(CancellationToken::new()).unwrap();
    assert!(signal(qm.cancel()));
    assert!(qm.start_next(CancellationToken::new()).is_none());
    assert_eq!(pending_ids(&qm), vec![2]);
    assert_eq!(qm.inspect().0.unwrap().job_id, 1);
    qm.finish_job(3);
    assert_eq!(qm.start_next(CancellationToken::new()).unwrap().id, 2);
}

#[test]
fn launch_failure_settles_a_pending_clear() {
    let mut qm = manager();
    submit(&mut qm, "A");
    qm.start_next(CancellationToken::new()).unwrap();
    assert!(signal(qm.clear()));
    submit(&mut qm, "B");
    qm.launch_failed();
    assert!(qm.inspect().1.is_empty());
    let c = submit(&mut qm, "C");
    assert_eq!(qm.start_next(CancellationToken::new()).unwrap().id, c);
    qm.finish_job(2);
    assert_eq!(history_urls(&qm.get_history()), vec!["C"]);
}
