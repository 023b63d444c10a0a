use std::collections::VecDeque;

use ftltunnel::net::FRAME_CHUNK_DATA;
use ftltunnel::transaction::Transaction;
use ftltunnel::transfer::{
    chunk_body, chunk_bounds, chunk_count, split_chunk_body, ReceiveWindow, SendWindow, TransferStatus,
    run_over_lossy_channel, Silence, CHUNK_RETRY_BUDGET, MAX_SILENT_TIMEOUTS,
};
use ftltunnel::{FTLTunnelError, FailType, TransactionStatus};

const RETRY_BUDGET: u32 = CHUNK_RETRY_BUDGET;

struct Outcome {
    sent: usize,
    acked: usize,
    status: TransferStatus,
    lossy: usize,
    received: Vec<u8>,
    complete: bool,
    sender: TransactionStatus,
}

/// Runs a whole transfer over an in-memory channel. `drop` decides, from a
/// chunk index and how often that chunk was transmitted before, whether the
/// channel loses it.
fn run(file: &[u8], drop: &dyn Fn(usize, usize) -> bool) -> Outcome {
    let mut sender = Transaction::new(1200, 8, 20, b"").unwrap();
    let mut receiver = Transaction::new(1200, 8, 20, b"").unwrap();
    let offer = sender.offer_send(b"file.bin", file.len() as u64).unwrap();
    let accept = receiver.answer_offer(&offer).unwrap();
    sender.accept_response(&accept).unwrap();
    sender.begin_transfer().unwrap();
    receiver.begin_transfer().unwrap();

    let chunk = sender.chunk_size();
    let total = chunk_count(file.len() as u64, chunk) as usize;
    let mut window = SendWindow::new(total, sender.pre_buffer_size(), sender.loss_threshold(), RETRY_BUDGET).unwrap();
    let mut reasm = ReceiveWindow::new(file.len() as u64, chunk, receiver.pre_buffer_size()).unwrap();
    let mut transmissions = vec![0usize; total];
    let mut queue: VecDeque<usize> = VecDeque::new();
    let mut sent = 0;
    while window.status() == TransferStatus::InProgress {
        while let Some(i) = window.next_to_send() {
            queue.push_back(i);
        }
        let i = match queue.pop_front() {
            Some(i) => i,
            None => break,
        };
        let (start, end) = chunk_bounds(file.len(), chunk, i).unwrap();
        let wire = sender.seal_frame(FRAME_CHUNK_DATA, &chunk_body(i as u32, &file[start..end])).unwrap();
        sent += 1;
        let lost = drop(i, transmissions[i]);
        transmissions[i] += 1;
        if lost {
            if let Some(again) = window.on_loss(i) {
                queue.push_back(again);
            }
            continue;
        }
        let (kind, plain) = receiver.open_frame(&wire).unwrap();
        assert_eq!(kind, FRAME_CHUNK_DATA);
        let (index, data) = split_chunk_body(&plain).unwrap();
        let ack = reasm.accept_chunk(index as usize, &data).unwrap();
        window.on_ack(ack);
    }
    match window.status() {
        TransferStatus::Done => sender.complete().unwrap(),
        TransferStatus::LossTooHigh => sender.fail(FailType::LossTooHigh),
        TransferStatus::InProgress => sender.fail(FailType::NetworkError),
    }
    Outcome {
        sent,
        acked: window.acked(),
        status: window.status(),
        lossy: window.lossy_chunks(),
        received: reasm.data().to_vec(),
        complete: reasm.is_complete(),
        sender: sender.status(),
    }
}

fn sample_file() -> Vec<u8> {
    (0..5000usize).map(|i| (i * 7 % 251) as u8).collect()
}

#[test]
fn lossless_transfer_of_five_thousand_bytes() {
    let file = sample_file();
    let out = run(&file, &|_, _| false);
    assert_eq!(out.sent, 5);
    assert_eq!(out.acked, 5);
    assert_eq!(out.status, TransferStatus::Done);
    assert_eq!(out.lossy, 0);
    assert!(out.complete);
    assert_eq!(out.received, file);
    assert_eq!(out.sender, TransactionStatus::Done);
}

#[test]
fn chunk_two_dropped_forever_exhausts_its_budget() {
    let file = sample_file();
    let out = run(&file, &|i, _| i == 2);
    assert_eq!(out.lossy, 1);
    assert_eq!(out.status, TransferStatus::LossTooHigh);
    assert!(!out.complete);
    assert_eq!(out.sender, TransactionStatus::Failed { fail_type: FailType::LossTooHigh });
    assert_eq!(out.sent, 5 + RETRY_BUDGET as usize);
}

#[test]
fn loss_exactly_at_threshold_is_tolerated() {
    let file = sample_file();
    let out = run(&file, &|i, n| i == 2 && n == 0);
    assert_eq!(out.lossy, 1);
    assert_eq!(out.status, TransferStatus::Done);
    assert!(out.complete);
    assert_eq!(out.received, file);
    assert_eq!(out.sender, TransactionStatus::Done);
}

#[test]
fn loss_above_threshold_fails() {
    let file = sample_file();
    let out = run(&file, &|i, n| (i == 1 || i == 3) && n == 0);
    assert_eq!(out.status, TransferStatus::LossTooHigh);
    assert_eq!(out.lossy, 2);
    assert!(!out.complete);
    assert_eq!(out.sender, TransactionStatus::Failed { fail_type: FailType::LossTooHigh });
}

#[test]
fn chunk_count_rounds_up() {
    assert_eq!(chunk_count(5000, 1200), 5);
    assert_eq!(chunk_count(4800, 1200), 4);
    assert_eq!(chunk_count(0, 1200), 0);
    assert_eq!(chunk_count(1, 1), 1);
    assert_eq!(chunk_count(u64::MAX, 1), u64::MAX);
}

#[test]
fn chunk_bounds_cut_the_last_chunk_short() {
    assert_eq!(chunk_bounds(5000, 1200, 0), Some((0, 1200)));
    assert_eq!(chunk_bounds(5000, 1200, 4), Some((4800, 5000)));
    assert_eq!(chunk_bounds(5000, 1200, 5), None);
    assert_eq!(chunk_bounds(0, 1200, 0), None);
}

#[test]
fn chunk_body_round_trip() {
    let body = chunk_body(0x01020304, b"data");
    assert_eq!(body, vec![1, 2, 3, 4, b'd', b'a', b't', b'a']);
    assert_eq!(split_chunk_body(&body), Some((0x01020304, b"data".to_vec())));
    assert_eq!(split_chunk_body(&[1, 2, 3]), None);
}

#[test]
fn send_window_bounds_outstanding_chunks() {
    let mut w = SendWindow::new(10, 3, 20, 1).unwrap();
    assert_eq!(w.next_to_send(), Some(0));
    assert_eq!(w.next_to_send(), Some(1));
    assert_eq!(w.next_to_send(), Some(2));
    assert_eq!(w.next_to_send(), None);
    w.on_ack(2);
    assert_eq!(w.acked(), 2);
    assert_eq!(w.next_to_send(), Some(3));
    assert_eq!(w.next_to_send(), Some(4));
    assert_eq!(w.next_to_send(), None);
    w.on_ack(9);
    assert_eq!(w.acked(), 2);
    assert_eq!(w.on_loss(0), None);
    assert_eq!(w.status(), TransferStatus::InProgress);
}

#[test]
fn send_window_rejects_empty_window() {
    assert!(matches!(SendWindow::new(3, 0, 20, 1), Err(FTLTunnelError::MissingData)));
    let w = SendWindow::new(0, 1, 20, 1).unwrap();
    assert_eq!(w.status(), TransferStatus::Done);
}

#[test]
fn zero_retry_budget_fails_on_first_loss() {
    let mut w = SendWindow::new(5, 5, 100, 0).unwrap();
    assert_eq!(w.next_to_send(), Some(0));
    assert_eq!(w.on_loss(0), None);
    assert_eq!(w.status(), TransferStatus::LossTooHigh);
}

#[test]
fn receive_window_reorders_and_acks_cumulatively() {
    let mut r = ReceiveWindow::new(10, 4, 3).unwrap();
    assert_eq!(r.accept_chunk(1, &[5, 6, 7, 8]), Ok(0));
    assert_eq!(r.accept_chunk(2, &[9, 10]), Ok(0));
    assert_eq!(r.accept_chunk(0, &[1, 2, 3, 4]), Ok(3));
    assert!(r.is_complete());
    assert_eq!(r.data(), &[1, 2, 3, 4, 5, 6, 7, 8, 9, 10][..]);
}

#[test]
fn receive_window_refuses_bad_chunks() {
    let mut r = ReceiveWindow::new(10, 4, 1).unwrap();
    assert_eq!(r.accept_chunk(3, &[1]), Err(FTLTunnelError::InvalidPacket));
    assert_eq!(r.accept_chunk(2, &[1, 2, 3]), Err(FTLTunnelError::InvalidPacket));
    assert_eq!(r.accept_chunk(1, &[1, 2, 3, 4]), Ok(0));
    assert_eq!(r.data(), &[0u8; 10][..]);
    assert_eq!(r.accept_chunk(0, &[1, 2, 3, 4]), Ok(1));
    assert_eq!(r.accept_chunk(0, &[4, 4, 4, 4]), Ok(1));
    assert_eq!(r.data(), &[1, 2, 3, 4, 0, 0, 0, 0, 0, 0][..]);
    assert!(matches!(ReceiveWindow::new(10, 0, 1), Err(FTLTunnelError::MissingData)));
}

#[test]
fn timeout_counts_lowest_outstanding_chunk_as_lost() {
    let mut w = SendWindow::new(5, 8, 20, 2).unwrap();
    assert_eq!(w.on_timeout(), None);
    assert_eq!(w.next_to_send(), Some(0));
    assert_eq!(w.next_to_send(), Some(1));
    w.on_ack(1);
    assert_eq!(w.on_timeout(), Some(1));
    assert_eq!(w.lossy_chunks(), 1);
    assert_eq!(w.on_timeout(), Some(1));
    assert_eq!(w.lossy_chunks(), 1);
    assert_eq!(w.on_timeout(), None);
    assert_eq!(w.status(), TransferStatus::LossTooHigh);
}

#[test]
fn gap_below_reports_lowest_missing_chunk() {
    let mut r = ReceiveWindow::new(12, 4, 3).unwrap();
    assert_eq!(r.gap_below(0), None);
    assert_eq!(r.accept_chunk(2, &[1, 1, 1, 1]), Ok(0));
    assert_eq!(r.gap_below(2), Some(0));
    assert_eq!(r.accept_chunk(0, &[2, 2, 2, 2]), Ok(1));
    assert_eq!(r.gap_below(0), None);
    assert_eq!(r.gap_below(2), Some(1));
    assert_eq!(r.accept_chunk(1, &[3, 3, 3, 3]), Ok(3));
    assert_eq!(r.gap_below(2), None);
}

#[test]
fn silence_gives_up_after_limit_and_resets() {
    let mut s = Silence::new();
    for _ in 1..MAX_SILENT_TIMEOUTS {
        assert!(!s.on_timeout());
    }
    s.heard();
    for _ in 1..MAX_SILENT_TIMEOUTS {
        assert!(!s.on_timeout());
    }
    assert!(s.on_timeout());
    assert!(s.on_timeout());
}

#[test]
fn lossy_channel_run_lossless_is_done() {
    assert_eq!(run_over_lossy_channel(&vec![0; 5], 20, CHUNK_RETRY_BUDGET), TransferStatus::Done);
    assert_eq!(run_over_lossy_channel(&vec![], 0, 0), TransferStatus::Done);
}

#[test]
fn lossy_channel_run_at_threshold_is_done() {
    assert_eq!(run_over_lossy_channel(&vec![0, 0, 3, 0, 0], 20, 3), TransferStatus::Done);
}

#[test]
fn lossy_channel_run_over_threshold_fails() {
    assert_eq!(run_over_lossy_channel(&vec![0, 1, 0, 1, 0], 20, 3), TransferStatus::LossTooHigh);
}

#[test]
fn lossy_channel_run_permanent_drop_fails() {
    assert_eq!(run_over_lossy_channel(&vec![0, 0, u32::MAX, 0, 0], 20, 3), TransferStatus::LossTooHigh);
}
