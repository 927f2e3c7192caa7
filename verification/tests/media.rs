use holocard::media::{CheckStatus, MusicQueue};

fn queue(names: &[&str]) -> MusicQueue {
    let mut q = MusicQueue::new();
    q.load(names.iter().map(|s| s.to_string()).collect());
    q
}

#[test]
fn default_queue_is_empty_and_silent() {
    let q = MusicQueue::default();
    assert!(q.tracks.is_empty());
    assert_eq!(q.index, 0);
    assert_eq!(q.current(), None);
}

#[test]
fn next_wraps_to_first() {
    let mut q = queue(&["/a.mp3", "/b.mp3", "/c.mp3"]);
    assert_eq!(q.current(), Some("/a.mp3"));
    q.next();
    assert_eq!(q.current(), Some("/b.mp3"));
    q.next();
    q.next();
    assert_eq!(q.index, 0);
    assert_eq!(q.current(), Some("/a.mp3"));
}

#[test]
fn prev_wraps_to_last() {
    let mut q = queue(&["/a.mp3", "/b.mp3", "/c.mp3"]);
    q.prev();
    assert_eq!(q.index, 2);
    assert_eq!(q.current(), Some("/c.mp3"));
}

#[test]
fn next_then_prev_returns() {
    let mut q = queue(&["/a.mp3", "/b.mp3", "/c.mp3", "/d.mp3"]);
    q.index = 2;
    q.next();
    q.prev();
    assert_eq!(q.index, 2);
    q.prev();
    q.next();
    assert_eq!(q.index, 2);
}

#[test]
fn full_cycle_returns_to_start() {
    let mut q = queue(&["/a", "/b", "/c", "/d", "/e"]);
    q.index = 3;
    for _ in 0..5 {
        q.next();
    }
    assert_eq!(q.index, 3);
}

#[test]
fn steps_on_empty_queue_do_nothing() {
    let mut q = MusicQueue::default();
    q.next();
    assert_eq!(q.index, 0);
    q.prev();
    assert_eq!(q.index, 0);
}

#[test]
fn current_is_none_past_the_end() {
    let mut q = queue(&["/a"]);
    q.index = 4;
    assert_eq!(q.current(), None);
}

#[test]
fn load_rewinds() {
    let mut q = queue(&["/a", "/b"]);
    q.next();
    q.load(vec!["/x".to_string()]);
    assert_eq!(q.index, 0);
    assert_eq!(q.current(), Some("/x"));
}

#[test]
fn check_status_compares_by_variant() {
    assert_eq!(CheckStatus::Passed, CheckStatus::Passed);
    assert_ne!(CheckStatus::Pending, CheckStatus::Warn);
    assert_ne!(CheckStatus::Fail, CheckStatus::Warn);
}
