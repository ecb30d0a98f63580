use fmradio::buffer::{buf_pair, Polled, QueueItem, RecvBufIter};

#[test]
fn test_buf() {
    let (mut tx, mut rx) = buf_pair::<u32>(5);

    let mut token = tx.get().unwrap();
    *token = 3;
    tx.commit(token);

    let token = rx.get().unwrap();
    assert_eq!(*token, 3);
    rx.release(token);

    for i in 0..5 {
        let mut token = tx.get().unwrap();
        *token = i;
        tx.commit(token);
    }

    for i in 0..5 {
        let token = rx.get().unwrap();
        assert_eq!(i, *token);
        rx.release(token);
    }
}

#[test]
fn test_rx_drop() {
    let (mut tx, mut rx) = buf_pair::<u32>(5);

    let mut token = tx.get().unwrap();
    *token = 3;
    tx.commit(token);

    let token = rx.get().unwrap();
    assert_eq!(*token, 3);
    rx.release(token);

    for i in 0..5 {
        let mut token = tx.get().unwrap();
        *token = i;
        tx.commit(token);
    }

    for i in 0..5 {
        let token = rx.get().unwrap();
        assert_eq!(i, *token);
        // not released: the pool gets a buffer back when the token drops
    }

    for i in 0..5 {
        let mut token = tx.get().unwrap();
        *token = i;
        tx.commit(token);
    }
}

#[test]
fn test_tx_drop() {
    let (mut tx, mut rx) = buf_pair::<u32>(5);

    let mut token = tx.get().unwrap();
    *token = 3;
    tx.commit(token);

    let token = rx.get().unwrap();
    assert_eq!(*token, 3);
    rx.release(token);

    for i in 0..4 {
        let mut token = tx.get().unwrap();
        *token = i;
        tx.commit(token);
    }

    {
        let mut token = tx.get().unwrap();
        *token = 5;
    }

    {
        let mut token = tx.get().unwrap();
        *token = 6;
        tx.commit(token);
    }

    for i in 0..4 {
        let token = rx.get().unwrap();
        assert_eq!(i, *token);
        rx.release(token);
    }

    let token = rx.get().unwrap();
    assert_eq!(6, *token);
}

#[test]
fn lengths_arrive_in_commit_order() {
    let (mut tx, mut rx) = buf_pair::<Vec<u32>>(2);
    for i in 0..50 {
        let mut token = tx.get().unwrap();
        token.resize(i, i as u32);
        tx.commit(token);

        let token = rx.get().unwrap();
        assert!(token.len() == i);
        rx.release(token);
    }
}

#[test]
fn producer_stops_when_consumer_leaves() {
    let (mut tx, mut rx) = buf_pair::<Vec<u32>>(2);
    for i in 0..10 {
        let mut token = tx.get().unwrap();
        token.resize(i, i as u32);
        tx.commit(token);
        let token = rx.get().unwrap();
        assert!(token.len() == i);
        rx.release(token);
    }
    drop(rx);
    let mut extra = 0;
    for i in 10..50 {
        if let Some(mut token) = tx.get() {
            token.resize(i, i as u32);
            tx.commit(token);
            extra += 1;
        } else {
            break;
        }
    }
    assert_eq!(extra, 0);
    assert!(tx.get().is_none());
}

#[test]
fn done_after_sender_drop() {
    let (mut tx, mut rx) = buf_pair::<u32>(4);
    for i in 0..3 {
        let mut token = tx.get().unwrap();
        *token = 10 + i;
        tx.commit(token);
    }
    drop(tx);
    for i in 0..3 {
        let token = rx.get().unwrap();
        assert_eq!(*token, 10 + i);
        rx.release(token);
    }
    assert!(rx.get().is_none());
    assert!(rx.get().is_none());
}

#[test]
fn done_after_receiver_drop() {
    let (mut tx, rx) = buf_pair::<u32>(5);
    drop(rx);
    // five buffers are free, yet the producer's next get gives none
    assert!(tx.get().is_none());
    assert!(tx.get().is_none());
}

#[test]
fn dropped_token_returns_its_own_buffer() {
    let (mut tx, mut rx) = buf_pair::<Vec<u32>>(1);
    {
        let mut token = tx.get().unwrap();
        token.extend_from_slice(&[1, 2, 3]);
    }
    let token = tx.get().unwrap();
    assert_eq!(*token, vec![1, 2, 3]);
    tx.commit(token);
    {
        let token = rx.get().unwrap();
        assert_eq!(*token, vec![1, 2, 3]);
    }
    let token = tx.get().unwrap();
    assert_eq!(*token, vec![1, 2, 3]);
}

#[test]
fn stock_is_default_buffers() {
    let (mut tx, _rx) = buf_pair::<u32>(5);
    let mut held = Vec::new();
    for _ in 0..5 {
        let token = tx.get().unwrap();
        assert_eq!(*token, 0);
        held.push(token);
    }
    assert_eq!(held.len(), 5);
}

#[test]
fn token_outlives_the_pool() {
    let (mut tx, mut rx) = buf_pair::<u32>(2);
    let mut token = tx.get().unwrap();
    *token = 8;
    tx.commit(token);
    let spare = tx.get().unwrap();
    let ready = rx.get().unwrap();
    drop(tx);
    drop(rx);
    assert_eq!(*ready, 8);
    drop(ready);
    drop(spare);
}

#[test]
fn released_buffer_is_free_once() {
    let (mut tx, mut rx) = buf_pair::<u32>(1);
    let mut t = tx.get().unwrap();
    *t = 4;
    tx.commit(t);
    let r = rx.get().unwrap();
    rx.release(r);
    let again = tx.get().unwrap();
    assert_eq!(*again, 4);
    // the pool holds one buffer, and it is checked out: nothing is ready
    drop(again);
    drop(tx);
    assert!(rx.get().is_none());
}

#[test]
fn accept_turns_queue_items_into_tokens() {
    let (mut tx, mut rx) = buf_pair::<u32>(1);
    let token = tx.accept(Some(QueueItem::Item(7))).unwrap();
    assert_eq!(*token, 7);
    tx.commit(token);
    let token = rx.accept(Some(QueueItem::Item(9))).unwrap();
    assert_eq!(*token, 9);
    rx.release(token);
    // buffers leave both ends open
    let token = rx.get().unwrap();
    assert_eq!(*token, 7);
    rx.release(token);
    assert!(tx.get().is_some());
}

#[test]
fn done_marker_closes_the_producer_end_for_good() {
    let (mut tx, _rx) = buf_pair::<u32>(2);
    assert!(tx.accept(Some(QueueItem::Done)).is_none());
    // two buffers are free, yet none is handed out any more
    assert!(tx.get().is_none());
    assert!(tx.get().is_none());
}

#[test]
fn closed_queue_closes_the_producer_end_for_good() {
    let (mut tx, _rx) = buf_pair::<u32>(2);
    assert!(tx.accept(None).is_none());
    assert!(tx.get().is_none());
    assert!(tx.get().is_none());
}

#[test]
fn done_marker_closes_the_consumer_end_for_good() {
    let (mut tx, mut rx) = buf_pair::<u32>(2);
    let mut token = tx.get().unwrap();
    *token = 4;
    tx.commit(token);
    assert!(rx.accept(Some(QueueItem::Done)).is_none());
    // a buffer is ready, yet none is handed out any more
    assert!(rx.get().is_none());
    assert!(rx.get().is_none());
}

#[test]
fn closed_queue_closes_the_consumer_end_for_good() {
    let (mut tx, mut rx) = buf_pair::<u32>(2);
    let mut token = tx.get().unwrap();
    *token = 4;
    tx.commit(token);
    assert!(rx.accept(None).is_none());
    assert!(rx.get().is_none());
    assert!(rx.get().is_none());
}

#[test]
fn end_of_stream_is_final() {
    let (mut tx, mut rx) = buf_pair::<u32>(3);
    let mut token = tx.get().unwrap();
    *token = 1;
    tx.commit(token);
    drop(tx);
    let token = rx.get().unwrap();
    assert_eq!(*token, 1);
    rx.release(token);
    for _ in 0..4 {
        assert!(rx.get().is_none());
    }
}

#[test]
fn reader_flattens_buffers_and_skips_empty_ones() {
    let (mut tx, rx) = buf_pair::<Vec<u32>>(3);
    let blocks: Vec<Vec<u32>> = vec![vec![0, 1], vec![], vec![2]];
    for block in blocks {
        let mut token = tx.get().unwrap();
        token.clear();
        token.extend_from_slice(&block);
        tx.commit(token);
    }
    drop(tx);

    let mut reader = RecvBufIter::new(rx);
    assert!(matches!(reader.poll(), Polled::Item(0)));
    assert!(matches!(reader.poll(), Polled::Item(1)));
    assert!(matches!(reader.poll(), Polled::Skipped));
    assert!(matches!(reader.poll(), Polled::Item(2)));
    assert!(matches!(reader.poll(), Polled::Finished));
    assert!(matches!(reader.poll(), Polled::Finished));
}

#[test]
fn reader_returns_drained_buffers_to_the_producer() {
    let (mut tx, rx) = buf_pair::<Vec<u32>>(2);
    let mut reader = RecvBufIter::new(rx);
    let mut counter = 0;
    for len in 1..10usize {
        let mut token = tx.get().unwrap();
        token.resize(len, 0);
        for c in token.iter_mut() {
            *c = counter;
            counter += 1;
        }
        tx.commit(token);
        assert_eq!(reader.reload_once(), Some(len));
    }
    assert_eq!(counter, 45);
}

#[test]
fn install_rewinds() {
    let (mut tx, rx) = buf_pair::<Vec<u32>>(2);
    let mut reader = RecvBufIter::new(rx);
    let mut token = tx.get().unwrap();
    token.resize(3, 5);
    assert_eq!(reader.install(Some(token)), Some(3));
    assert!(matches!(reader.poll(), Polled::Item(5)));
    assert_eq!(reader.install(None), None);
}

#[test]
fn abandoned_token_pays_once() {
    let (mut tx, mut rx) = buf_pair::<u32>(1);
    let mut token = tx.get().unwrap();
    *token = 9;
    // the buffer goes back to the free queue now, and not again when the
    // spent token is dropped
    let spent = token.abandon();
    drop(spent);
    let mut token = tx.get().unwrap();
    assert_eq!(*token, 9);
    *token = 10;
    tx.commit(token);
    let token = rx.get().unwrap();
    assert_eq!(*token, 10);
    drop(token);
    drop(tx);
    // one buffer was in the pool all along: nothing else is ready
    assert!(rx.get().is_none());
}

#[test]
fn spent_token_has_nothing_to_commit() {
    let (mut tx, mut rx) = buf_pair::<u32>(2);
    let mut token = tx.get().unwrap();
    *token = 3;
    let spent = token.abandon();
    tx.commit(spent);
    let mut token = tx.get().unwrap();
    *token = 4;
    tx.commit(token);
    drop(tx);
    let first = rx.get().unwrap();
    assert_eq!(*first, 4);
    drop(first);
    assert!(rx.get().is_none());
}
