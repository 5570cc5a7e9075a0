use asp_mailbox_driver::codec::{free_slots, head_field, pack_head, tail_field};
use asp_mailbox_driver::drain::rx_irq_handle;
use asp_mailbox_driver::layout::Layout;
use asp_mailbox_driver::platform::{Action, Fault};
use asp_mailbox_driver::send::{block_send, Transmit, TransmitPhase};
use asp_mailbox_driver::window::RegisterFile;

fn free_now(regs: &RegisterFile) -> u64 {
    let layout = regs.get_layout();
    let tail = tail_field(regs.read_reg(layout.send_ir_index()));
    let head = head_field(regs.read_reg(layout.receive_ir_index()));
    free_slots(tail, head, layout.capacity)
}

/// The peer reads `count` words: it moves its read cursor in the receive
/// info register of this side.
fn peer_reads(regs: &mut RegisterFile, count: u64) {
    let layout = regs.get_layout();
    let index = layout.receive_ir_index();
    let reg = regs.read_reg(index);
    let head = (head_field(reg) + count) % layout.capacity;
    regs.write_reg(pack_head(reg, head), index);
}

/// The peer runs its drain on its view of the window.
fn peer_drains(regs: &mut RegisterFile) -> Vec<u64> {
    let mut peer = regs.peer_view();
    let words = rx_irq_handle(&mut peer).unwrap();
    *regs = peer.peer_view();
    words
}

#[test]
fn send_three_words_into_a_ring_of_four() {
    let layout = Layout::new(4).unwrap();
    let mut regs = RegisterFile::new(layout);

    assert_eq!(block_send(&mut regs, &[0xAA, 0xBB, 0xCC]), Ok(3));

    assert_eq!(regs.read_reg(0), 0xAA);
    assert_eq!(regs.read_reg(1), 0xBB);
    assert_eq!(regs.read_reg(2), 0xCC);
    assert_eq!(regs.read_reg(3), 0);
    assert_eq!(tail_field(regs.read_reg(4)), 3);
    assert_eq!(regs.read_reg(4), 0x0300);
    assert_eq!(regs.read_reg(5), u64::MAX);
    assert_eq!(free_now(&regs), 0);

    // A fourth word finds no room and nothing is written.
    let before = regs.to_cells();
    assert_eq!(block_send(&mut regs, &[0xDD]), Ok(0));
    assert_eq!(regs.to_cells(), before);
    assert_eq!(free_now(&regs), 0);
}

#[test]
fn send_blocks_on_the_fourth_word_while_peer_never_drains() {
    let layout = Layout::new(4).unwrap();
    let mut regs = RegisterFile::new(layout);
    let mut transmit = Transmit::new(layout, vec![0xAA, 0xBB, 0xCC, 0xDD]);
    let mut input = 0u64;
    let mut polls = 0;
    for _ in 0..1000 {
        let action = transmit.step(input);
        assert_ne!(action, Action::Finished);
        if transmit.is_waiting() {
            polls += 1;
        }
        input = regs.perform(action);
    }
    assert!(polls > 400);
    assert!(transmit.phase == TransmitPhase::Polling || transmit.phase == TransmitPhase::ReadingPeerIr);
    assert_eq!(transmit.delivered(), 3);
    assert_eq!(regs.read_reg(0), 0xAA);
    assert_eq!(regs.read_reg(1), 0xBB);
    assert_eq!(regs.read_reg(2), 0xCC);
    assert_eq!(regs.read_reg(3), 0);
    assert_eq!(tail_field(regs.read_reg(4)), 3);
    assert_eq!(free_now(&regs), 0);

    // Once the peer has read one word the fourth goes out.
    peer_reads(&mut regs, 1);
    loop {
        let action = transmit.step(input);
        if action == Action::Finished {
            break;
        }
        input = regs.perform(action);
    }
    assert_eq!(transmit.delivered(), 4);
    assert_eq!(regs.read_reg(3), 0xDD);
    assert_eq!(tail_field(regs.read_reg(4)), 0);
}

#[test]
fn send_steps_in_protocol_order() {
    let layout = Layout::standard();
    let mut regs = RegisterFile::new(layout);
    regs.write_reg(0x0a00 | 0x07, 62);
    regs.write_reg(0x0500 | 0x08, 126);
    let mut transmit = Transmit::new(layout, vec![0x51, 0x52]);
    let mut input = 0u64;
    let mut trace = Vec::new();
    loop {
        let action = transmit.step(input);
        trace.push(action);
        if action == Action::Finished {
            break;
        }
        input = regs.perform(action);
    }
    assert_eq!(
        trace,
        vec![
            Action::Read { index: 62 },
            Action::Read { index: 126 },
            Action::Write { index: 10, value: 0x51 },
            Action::Write { index: 11, value: 0x52 },
            Action::Read { index: 62 },
            Action::Write { index: 62, value: 0x0c07 },
            Action::Write { index: 63, value: u64::MAX },
            Action::Finished,
        ]
    );
    assert_eq!(transmit.phase, TransmitPhase::Done);
    assert_eq!(transmit.step(0), Action::Finished);
    assert_eq!(regs.read_reg(126), 0x0508);
}

#[test]
fn send_of_nothing_touches_no_register() {
    let layout = Layout::standard();
    let mut regs = RegisterFile::new(layout);
    // Even cursors that are out of range are not looked at.
    regs.write_reg(0xffff, 62);
    regs.write_reg(0xffff, 126);
    let before = regs.to_cells();
    assert_eq!(block_send(&mut regs, &[]), Ok(0));
    assert_eq!(regs.to_cells(), before);

    let mut transmit = Transmit::new(layout, Vec::new());
    assert_eq!(transmit.step(0), Action::Finished);
    assert_eq!(transmit.delivered(), 0);
}

#[test]
fn send_fills_the_ring_and_one_read_frees_one_slot() {
    let layout = Layout::standard();
    let mut regs = RegisterFile::new(layout);
    let words: Vec<u64> = (1..=61).collect();
    assert_eq!(free_now(&regs), 61);

    assert_eq!(block_send(&mut regs, &words), Ok(61));
    assert_eq!(free_now(&regs), 0);
    assert_eq!(tail_field(regs.read_reg(62)), 61);
    for slot in 0..61usize {
        assert_eq!(regs.read_reg(slot), slot as u64 + 1);
    }
    assert_eq!(regs.read_reg(61), 0);

    peer_reads(&mut regs, 1);
    assert_eq!(free_now(&regs), 1);
    assert_eq!(block_send(&mut regs, &[777, 888]), Ok(1));
    assert_eq!(regs.read_reg(61), 777);
    assert_eq!(tail_field(regs.read_reg(62)), 0);
    assert_eq!(free_now(&regs), 0);
}

#[test]
fn send_wraps_around_the_ring() {
    let layout = Layout::standard();
    let mut regs = RegisterFile::new(layout);
    regs.write_reg(60 << 8, 62);
    regs.write_reg(58, 126);
    // Two words are in flight at slots 58 and 59; 59 slots are free.
    assert_eq!(free_now(&regs), 59);
    assert_eq!(block_send(&mut regs, &[1, 2, 3, 4]), Ok(4));
    assert_eq!(regs.read_reg(60), 1);
    assert_eq!(regs.read_reg(61), 2);
    assert_eq!(regs.read_reg(0), 3);
    assert_eq!(regs.read_reg(1), 4);
    assert_eq!(regs.read_reg(62), 2 << 8);
    assert_eq!(regs.read_reg(63), u64::MAX);
    assert_eq!(free_now(&regs), 55);
}

#[test]
fn send_takes_only_what_fits() {
    let layout = Layout::standard();
    let mut regs = RegisterFile::new(layout);
    let words: Vec<u64> = (0..100).collect();
    assert_eq!(block_send(&mut regs, &words), Ok(61));
    assert_eq!(block_send(&mut regs, &words[61..]), Ok(0));
    assert_eq!(peer_drains(&mut regs), (0..61).collect::<Vec<u64>>());
    assert_eq!(block_send(&mut regs, &words[61..]), Ok(39));
    assert_eq!(peer_drains(&mut regs), (61..100).collect::<Vec<u64>>());
    assert_eq!(peer_drains(&mut regs), Vec::<u64>::new());
}

#[test]
fn send_keeps_the_bytes_it_does_not_own() {
    for foreign in [0u64, 1, 0x3d, 0xff] {
        let layout = Layout::standard();
        let mut regs = RegisterFile::new(layout);
        regs.write_reg(0xfeed_0000_0000_0000 | (4 << 8) | foreign, 62);
        regs.write_reg(0x0bad_0000_0000_0002 | (foreign << 8), 126);
        regs.write_reg(0x1234, 127);
        assert_eq!(block_send(&mut regs, &[9, 8, 7]), Ok(3));
        assert_eq!(regs.read_reg(62), 0xfeed_0000_0000_0000 | (7 << 8) | foreign);
        assert_eq!(regs.read_reg(126), 0x0bad_0000_0000_0002 | (foreign << 8));
        assert_eq!(regs.read_reg(127), 0x1234);
        assert_eq!(regs.read_reg(4), 9);
        assert_eq!(regs.read_reg(5), 8);
        assert_eq!(regs.read_reg(6), 7);
    }
}

#[test]
fn send_rejects_cursors_beyond_the_ring() {
    let layout = Layout::standard();
    let mut regs = RegisterFile::new(layout);
    regs.write_reg(62 << 8, 62);
    let before = regs.to_cells();
    assert_eq!(block_send(&mut regs, &[1]), Err(Fault::TailOutOfRange));
    assert_eq!(regs.to_cells(), before);

    let mut regs = RegisterFile::new(layout);
    regs.write_reg(62, 126);
    let before = regs.to_cells();
    assert_eq!(block_send(&mut regs, &[1]), Err(Fault::HeadOutOfRange));
    assert_eq!(regs.to_cells(), before);

    let mut regs = RegisterFile::new(layout);
    regs.write_reg(0xff00, 62);
    regs.write_reg(0x00ff, 126);
    assert_eq!(block_send(&mut regs, &[1]), Err(Fault::TailOutOfRange));
}

#[test]
fn round_trip_of_ten_thousand_words() {
    let layout = Layout::standard();
    let mut regs = RegisterFile::new(layout);
    let words: Vec<u64> = (0..10_000u64).map(|i| i.wrapping_mul(0x9e37_79b9_7f4a_7c15) ^ i).collect();
    let mut received = Vec::new();
    let mut sent = 0usize;
    while sent < words.len() {
        sent += block_send(&mut regs, &words[sent..]).unwrap();
        received.extend(peer_drains(&mut regs));
    }
    assert_eq!(sent, 10_000);
    assert_eq!(received, words);
    assert_eq!(free_now(&regs), 61);
}

#[test]
fn round_trip_with_a_peer_that_drains_now_and_then() {
    let layout = Layout::standard();
    for period in [1usize, 2, 3, 7, 50, 64, 500] {
        for len in [0usize, 1, 60, 61, 62, 123, 1000] {
            let words: Vec<u64> = (0..len as u64).map(|i| 0xabc0_0000 + i).collect();
            let mut regs = RegisterFile::new(layout);
            let mut transmit = Transmit::new(layout, words.clone());
            let mut received = Vec::new();
            let mut input = 0u64;
            let mut steps = 0usize;
            loop {
                let action = transmit.step(input);
                if action == Action::Finished {
                    break;
                }
                assert!(!matches!(action, Action::Fail { .. }));
                input = regs.perform(action);
                steps += 1;
                if steps % period == 0 {
                    received.extend(peer_drains(&mut regs));
                }
                assert!(steps < 1_000_000);
            }
            received.extend(peer_drains(&mut regs));
            assert_eq!(transmit.delivered(), len);
            assert_eq!(received, words);
        }
    }
}

#[test]
fn round_trip_on_a_small_ring() {
    let layout = Layout::new(2).unwrap();
    let mut regs = RegisterFile::new(layout);
    let words: Vec<u64> = (0..50).collect();
    let mut received = Vec::new();
    let mut sent = 0usize;
    while sent < words.len() {
        let count = block_send(&mut regs, &words[sent..]).unwrap();
        assert_eq!(count, 1);
        sent += count;
        received.extend(peer_drains(&mut regs));
    }
    assert_eq!(received, words);
}

#[test]
fn both_directions_share_the_info_registers() {
    // This side drains its receive ring while words of its own are in
    // flight: each operation moves its own cursor only.
    let layout = Layout::standard();
    let mut regs = RegisterFile::new(layout);
    assert_eq!(block_send(&mut regs, &[1, 2, 3]), Ok(3));
    // The peer sends two words the other way.
    let mut peer = regs.peer_view();
    assert_eq!(block_send(&mut peer, &[70, 80]), Ok(2));
    regs = peer.peer_view();

    assert_eq!(rx_irq_handle(&mut regs), Ok(vec![70, 80]));
    assert_eq!(regs.read_reg(62), (3 << 8) | 2);
    assert_eq!(peer_drains(&mut regs), vec![1, 2, 3]);
    assert_eq!(regs.read_reg(126), (2 << 8) | 3);
    assert_eq!(free_now(&regs), 61);
}

fn scramble(state: &mut u64) -> u64 {
    *state ^= *state << 13;
    *state ^= *state >> 7;
    *state ^= *state << 17;
    *state
}

#[test]
fn send_writes_only_the_send_half() {
    let mut seed = 0x2545_f491_4f6c_dd1du64;
    let layout = Layout::standard();
    let words: Vec<u64> = (0..300u64).map(|i| 0x5000 + i).collect();
    for _ in 0..50 {
        let mut transmit = Transmit::new(layout, words.clone());
        let mut input = 0u64;
        let mut written = Vec::new();
        let mut steps = 0;
        loop {
            let action = transmit.step(input);
            let value = scramble(&mut seed);
            let next = (value & !0xffff) | ((value >> 8) % 62) << 8 | (value % 62);
            match action {
                Action::Finished => break,
                Action::Read { index } => assert!(index == 62 || index == 126),
                Action::Write { index, value } => {
                    if index == 63 {
                        assert_eq!(value, u64::MAX);
                    } else if index == 62 {
                        assert_eq!(value & !0xff00, input & !0xff00);
                        assert!((value >> 8) & 0xff < 62);
                    } else {
                        assert!(index < 62);
                        written.push(value);
                    }
                }
                other => panic!("a send never asks for {:?}", other),
            }
            input = next;
            steps += 1;
            assert!(steps < 1_000_000);
        }
        // Every word went out once, in order, whatever the cursors said.
        assert_eq!(written, words);
        assert_eq!(transmit.delivered(), words.len());
    }
}

#[test]
fn send_never_writes_more_than_is_free() {
    let layout = Layout::standard();
    for head in 0..62u64 {
        for tail in 0..62u64 {
            let mut regs = RegisterFile::new(layout);
            regs.write_reg(tail << 8, 62);
            regs.write_reg(head, 126);
            let free = free_now(&regs);
            let words = vec![1u64; 100];
            assert_eq!(block_send(&mut regs, &words), Ok(free as usize));
            assert_eq!(free_now(&regs), 0);
            assert_eq!(head_field(regs.read_reg(126)), head);
        }
    }
}

/// Performs an action of the peer on the shared window: the peer's indices
/// are those of the other half.
fn perform_as_peer(regs: &mut RegisterFile, action: Action) -> u64 {
    let half = regs.get_layout().receive_base_index();
    let swap = |index: usize| if index < half { index + half } else { index - half };
    match action {
        Action::Read { index } => regs.perform(Action::Read { index: swap(index) }),
        Action::Write { index, value } => regs.perform(Action::Write { index: swap(index), value }),
        other => regs.perform(other),
    }
}

#[test]
fn round_trip_with_steps_interleaved_at_random() {
    let mut seed = 0x1234_5678_9abc_def1u64;
    for capacity in [2u64, 4, 62] {
        let layout = Layout::new(capacity).unwrap();
        for len in [0usize, 1, 5, 61, 62, 400] {
            let words: Vec<u64> = (0..len as u64).map(|i| 0x7700_0000 + i).collect();
            let mut regs = RegisterFile::new(layout);
            let mut transmit = Transmit::new(layout, words.clone());
            let mut send_input = 0u64;
            let mut sending = true;
            let mut drain = asp_mailbox_driver::drain::Drain::new(layout);
            let mut drain_input = 0u64;
            let mut received: Vec<u64> = Vec::new();
            let mut drains_after_send = 0;
            let mut steps = 0u64;
            while drains_after_send < 2 {
                steps += 1;
                assert!(steps < 10_000_000);
                let sender_moves = sending && scramble(&mut seed) % 3 != 0;
                if sender_moves {
                    let action = transmit.step(send_input);
                    assert!(!matches!(action, Action::Fail { .. }));
                    if action == Action::Finished {
                        sending = false;
                    } else {
                        send_input = regs.perform(action);
                    }
                } else {
                    let action = drain.step(drain_input);
                    assert!(!matches!(action, Action::Fail { .. }));
                    if action == Action::Finished {
                        received.extend(drain.into_words());
                        drain = asp_mailbox_driver::drain::Drain::new(layout);
                        drain_input = 0;
                        if !sending {
                            drains_after_send += 1;
                        }
                    } else {
                        drain_input = perform_as_peer(&mut regs, action);
                    }
                }
            }
            assert_eq!(transmit.delivered(), len);
            assert_eq!(received, words);
            assert_eq!(free_now(&regs), capacity - 1);
        }
    }
}
