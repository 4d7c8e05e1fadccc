use swash::dump::{classify_element, BatchCounter, RecordKind, NATION_BATCH_SIZE, REGION_BATCH_SIZE};
use swash::element::{ElementScan, ScanOutcome, XmlEvent};

#[test]
fn record_elements_are_recognised() {
    assert_eq!(classify_element(b"NATION"), Some(RecordKind::Nation));
    assert_eq!(classify_element(b"REGION"), Some(RecordKind::Region));
    assert_eq!(classify_element(b"NATIONS"), None);
    assert_eq!(classify_element(b"nation"), None);
    assert_eq!(classify_element(b""), None);
}

#[test]
fn nations_commit_every_batch() {
    let mut c = BatchCounter::new();
    let mut commits = 0;
    for i in 1..=7000usize {
        if c.record_inserted(RecordKind::Nation) {
            commits += 1;
            assert_eq!(i % NATION_BATCH_SIZE, 0);
        }
    }
    assert_eq!(commits, 2);
    assert_eq!(c.pending_rows(), 1000);
    assert!(c.needs_final_commit());
}

#[test]
fn regions_commit_every_batch() {
    let mut c = BatchCounter::new();
    let mut commits = 0;
    for _ in 0..REGION_BATCH_SIZE * 3 {
        if c.record_inserted(RecordKind::Region) {
            commits += 1;
        }
    }
    assert_eq!(commits, 3);
    assert_eq!(c.pending_rows(), 0);
    assert!(!c.needs_final_commit());
}

#[test]
fn empty_dump_needs_no_commit() {
    assert!(!BatchCounter::new().needs_final_commit());
}

#[test]
fn scan_ends_at_matching_end_tag() {
    let tag = b"NATION".to_vec();
    let mut s = ElementScan::new(tag.clone());
    let events = vec![
        XmlEvent::Start(b"NAME".to_vec()),
        XmlEvent::Other,
        XmlEvent::End(b"NAME".to_vec()),
        XmlEvent::Start(tag.clone()),
        XmlEvent::End(tag.clone()),
    ];
    for ev in &events {
        assert_eq!(s.step(ev), ScanOutcome::Continue);
    }
    assert_eq!(s.nesting(), 0);
    assert_eq!(s.step(&XmlEvent::End(tag.clone())), ScanOutcome::Complete);
}

#[test]
fn scan_tracks_nesting() {
    let tag = b"A".to_vec();
    let mut s = ElementScan::new(tag.clone());
    assert_eq!(s.step(&XmlEvent::Start(tag.clone())), ScanOutcome::Continue);
    assert_eq!(s.step(&XmlEvent::Start(tag.clone())), ScanOutcome::Continue);
    assert_eq!(s.nesting(), 2);
    assert_eq!(s.step(&XmlEvent::End(tag.clone())), ScanOutcome::Continue);
    assert_eq!(s.nesting(), 1);
}

#[test]
fn scan_reports_truncated_input() {
    let mut s = ElementScan::new(b"REGION".to_vec());
    assert_eq!(s.step(&XmlEvent::Start(b"NAME".to_vec())), ScanOutcome::Continue);
    assert_eq!(s.step(&XmlEvent::Eof), ScanOutcome::MissingEndTag);
}

#[test]
fn unreadable_records_are_not_counted() {
    let mut c = BatchCounter::new();
    for _ in 0..5 {
        assert!(!c.settle_record(RecordKind::Region, false));
    }
    assert_eq!(c.pending_rows(), 0);
    for _ in 0..REGION_BATCH_SIZE - 1 {
        assert!(!c.settle_record(RecordKind::Region, true));
    }
    assert!(!c.settle_record(RecordKind::Region, false));
    assert!(c.settle_record(RecordKind::Region, true));
    assert_eq!(c.pending_rows(), 0);
}
