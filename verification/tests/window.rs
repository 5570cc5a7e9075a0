use asp_mailbox_driver::codec::DOORBELL;
use asp_mailbox_driver::init::{init_action, pre_init};
use asp_mailbox_driver::layout::{
    Layout, RECEIVE_BASE_INDEX, RECEIVE_CSR_INDEX, RECEIVE_IR_INDEX, SEND_BASE_INDEX,
    SEND_CSR_INDEX, SEND_IR_INDEX, WINDOW_CELLS,
};
use asp_mailbox_driver::platform::Action;
use asp_mailbox_driver::window::RegisterFile;

#[test]
fn standard_layout_is_the_wire_index_map() {
    let layout = Layout::standard();
    assert_eq!(layout.capacity, 62);
    assert_eq!(layout.send_base_index(), 0);
    assert_eq!(layout.send_ir_index(), 62);
    assert_eq!(layout.send_csr_index(), 63);
    assert_eq!(layout.receive_base_index(), 64);
    assert_eq!(layout.receive_ir_index(), 126);
    assert_eq!(layout.receive_csr_index(), 127);
    assert_eq!(layout.cells(), 128);
    assert_eq!(SEND_BASE_INDEX, 0);
    assert_eq!(SEND_IR_INDEX, 62);
    assert_eq!(SEND_CSR_INDEX, 63);
    assert_eq!(RECEIVE_BASE_INDEX, 64);
    assert_eq!(RECEIVE_IR_INDEX, 126);
    assert_eq!(RECEIVE_CSR_INDEX, 127);
    assert_eq!(WINDOW_CELLS, 128);
}

#[test]
fn slots_follow_their_base() {
    let layout = Layout::standard();
    assert_eq!(layout.send_slot(0), 0);
    assert_eq!(layout.send_slot(61), 61);
    assert_eq!(layout.receive_slot(0), 64);
    assert_eq!(layout.receive_slot(2), 66);
    assert_eq!(layout.receive_slot(61), 125);
}

#[test]
fn layout_accepts_two_to_256_slots() {
    assert!(Layout::new(0).is_none());
    assert!(Layout::new(1).is_none());
    assert_eq!(Layout::new(2), Some(Layout { capacity: 2 }));
    assert_eq!(Layout::new(62), Some(Layout::standard()));
    assert_eq!(Layout::new(256), Some(Layout { capacity: 256 }));
    assert!(Layout::new(257).is_none());
    assert!(Layout::new(u64::MAX).is_none());
}

#[test]
fn small_layout_has_the_same_shape() {
    let layout = Layout::new(4).unwrap();
    assert_eq!(layout.send_base_index(), 0);
    assert_eq!(layout.send_ir_index(), 4);
    assert_eq!(layout.send_csr_index(), 5);
    assert_eq!(layout.receive_base_index(), 6);
    assert_eq!(layout.receive_ir_index(), 10);
    assert_eq!(layout.receive_csr_index(), 11);
    assert_eq!(layout.cells(), 12);
}

#[test]
fn new_window_is_zeroed() {
    let regs = RegisterFile::new(Layout::standard());
    assert_eq!(regs.len(), 128);
    assert_eq!(regs.get_layout(), Layout::standard());
    assert_eq!(regs.to_cells(), vec![0u64; 128]);
}

#[test]
fn window_needs_every_register() {
    let layout = Layout::standard();
    assert!(RegisterFile::from_cells(layout, vec![0; 127]).is_none());
    assert!(RegisterFile::from_cells(layout, Vec::new()).is_none());
    let exact = RegisterFile::from_cells(layout, vec![7; 128]).unwrap();
    assert_eq!(exact.len(), 128);
    assert_eq!(exact.read_reg(127), 7);
    let larger = RegisterFile::from_cells(layout, vec![9; 200]).unwrap();
    assert_eq!(larger.len(), 200);
    assert_eq!(larger.read_reg(0), 9);
}

#[test]
fn write_changes_one_cell() {
    let mut regs = RegisterFile::new(Layout::standard());
    regs.write_reg(0xabcd, 17);
    assert_eq!(regs.read_reg(17), 0xabcd);
    let mut expected = vec![0u64; 128];
    expected[17] = 0xabcd;
    assert_eq!(regs.to_cells(), expected);
    regs.write_reg(1, 127);
    regs.write_reg(2, 0);
    expected[127] = 1;
    expected[0] = 2;
    assert_eq!(regs.to_cells(), expected);
}

#[test]
fn perform_reads_and_writes() {
    let mut regs = RegisterFile::new(Layout::standard());
    assert_eq!(regs.perform(Action::Write { index: 5, value: 99 }), 0);
    assert_eq!(regs.perform(Action::Read { index: 5 }), 99);
    assert_eq!(regs.perform(Action::Read { index: 6 }), 0);
    let before = regs.to_cells();
    assert_eq!(regs.perform(Action::Lock), 0);
    assert_eq!(regs.perform(Action::Unlock), 0);
    assert_eq!(regs.perform(Action::Acknowledge), 0);
    assert_eq!(regs.perform(Action::Finished), 0);
    assert_eq!(regs.to_cells(), before);
}

#[test]
fn peer_view_swaps_the_halves() {
    let layout = Layout::new(4).unwrap();
    let cells: Vec<u64> = (100..114).collect();
    let regs = RegisterFile::from_cells(layout, cells).unwrap();
    let peer = regs.peer_view();
    assert_eq!(
        peer.to_cells(),
        vec![106, 107, 108, 109, 110, 111, 100, 101, 102, 103, 104, 105, 112, 113]
    );
    assert_eq!(peer.peer_view().to_cells(), regs.to_cells());
    assert_eq!(peer.get_layout(), layout);
}

#[test]
fn init_arms_the_receive_side() {
    let layout = Layout::standard();
    assert_eq!(init_action(layout), Action::Write { index: 127, value: u64::MAX });
    let mut regs = RegisterFile::new(layout);
    pre_init(&mut regs);
    let mut expected = vec![0u64; 128];
    expected[127] = DOORBELL;
    assert_eq!(regs.to_cells(), expected);
    // Programming it again changes nothing.
    pre_init(&mut regs);
    assert_eq!(regs.to_cells(), expected);
}

#[test]
fn init_overwrites_what_the_register_held() {
    let layout = Layout::new(4).unwrap();
    let mut regs = RegisterFile::from_cells(layout, vec![3; 12]).unwrap();
    pre_init(&mut regs);
    let mut expected = vec![3u64; 12];
    expected[11] = 0xffff_ffff_ffff_ffff;
    assert_eq!(regs.to_cells(), expected);
}
