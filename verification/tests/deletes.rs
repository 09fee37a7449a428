use sz_combined_consumer::deletes::{DeleteBatcher, DeleteEntry, DELETE_BATCH_MAX};

fn filled(n: u64) -> DeleteBatcher {
    let mut deletes = DeleteBatcher::default();
    for id in 1..=n {
        deletes.push(id, format!("handle-{id}"));
    }
    deletes
}

#[test]
fn nothing_queued_makes_no_batch() {
    let mut deletes = DeleteBatcher::default();
    assert_eq!(deletes.len(), 0);
    assert!(deletes.flush().is_empty());
}

#[test]
fn batches_are_full_but_for_the_last() {
    for (n, sizes) in [
        (1, vec![1]),
        (9, vec![9]),
        (10, vec![10]),
        (11, vec![10, 1]),
        (25, vec![10, 10, 5]),
        (30, vec![10, 10, 10]),
    ] {
        let mut deletes = filled(n);
        assert_eq!(deletes.len(), n as usize);
        let batches = deletes.flush();
        assert_eq!(batches.iter().map(Vec::len).collect::<Vec<_>>(), sizes);
        assert_eq!(deletes.len(), 0);
    }
    assert_eq!(DELETE_BATCH_MAX, 10);
}

#[test]
fn every_message_is_in_one_batch_in_order() {
    let batches = filled(23).flush();
    let entries: Vec<DeleteEntry> = batches.into_iter().flatten().collect();
    for (i, entry) in entries.iter().enumerate() {
        assert_eq!(entry.id, format!("{}", i + 1));
        assert_eq!(entry.receipt_handle, format!("handle-{}", i + 1));
    }
    assert_eq!(entries.len(), 23);
}

#[test]
fn a_batch_has_no_id_twice() {
    let batches = filled(10).flush();
    for (i, a) in batches[0].iter().enumerate() {
        for b in &batches[0][i + 1..] {
            assert_ne!(a.id, b.id);
        }
    }
}
