use codechain_process::rotator::{LogAction, LogHandle, LogRotator};

#[test]
fn fresh_rotator_writes_straight_away() {
    let r = LogRotator::new();
    assert!(!r.pending());
    assert_eq!(r.before_write(), LogAction::Write);
}

#[test]
fn requested_rotation_reopens_before_the_next_write() {
    let mut r = LogRotator::new();
    r.request_rotation();
    assert!(r.pending());
    assert_eq!(r.before_write(), LogAction::Reopen);
    let (handle, report) = r.reopened::<String>(Ok(()));
    assert_eq!(handle, LogHandle::Fresh);
    assert_eq!(report, None);
    assert!(!r.pending());
    assert_eq!(r.before_write(), LogAction::Write);
}

#[test]
fn failed_reopen_keeps_previous_handle_and_retries() {
    let mut r = LogRotator::new();
    r.request_rotation();
    let (handle, report) = r.reopened(Err("permission denied".to_string()));
    assert_eq!(handle, LogHandle::Previous);
    assert_eq!(report, Some("permission denied".to_string()));
    assert!(r.pending());
    assert_eq!(r.before_write(), LogAction::Reopen);
    let (handle, report) = r.reopened::<String>(Ok(()));
    assert_eq!(handle, LogHandle::Fresh);
    assert_eq!(report, None);
    assert_eq!(r.before_write(), LogAction::Write);
}

#[test]
fn repeated_requests_are_one_rotation() {
    let mut r = LogRotator::new();
    r.request_rotation();
    r.request_rotation();
    assert_eq!(r.before_write(), LogAction::Reopen);
    r.reopened::<String>(Ok(()));
    assert_eq!(r.before_write(), LogAction::Write);
}

#[test]
fn rotation_splits_chunks_between_files() {
    // Each chunk goes where the rotator says; the files are vectors here.
    let mut files: Vec<Vec<u8>> = vec![Vec::new()];
    let mut r = LogRotator::new();
    let chunks: [(&[u8], bool); 5] = [(b"one ", false), (b"two ", false), (b"three ", true), (b"four ", false), (b"five", false)];
    for (chunk, rotate_first) in chunks {
        if rotate_first {
            r.request_rotation();
        }
        if r.before_write() == LogAction::Reopen {
            if r.reopened::<String>(Ok(())).0 == LogHandle::Fresh {
                files.push(Vec::new());
            }
        }
        files.last_mut().unwrap().extend_from_slice(chunk);
    }
    assert_eq!(files, vec![b"one two ".to_vec(), b"three four five".to_vec()]);
}
