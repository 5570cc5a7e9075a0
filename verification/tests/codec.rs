use asp_mailbox_driver::codec::{
    cantrip_assert, free_slots, head_field, pack_head, pack_tail, rearm, tail_field, u64_min,
    u64_mod, used_slots, DOORBELL, ENABLE_BIT, MAILBOX_MAX_REG_NUM, VALID_MASK,
};

#[test]
fn min_picks_the_smaller() {
    assert_eq!(u64_min(3, 7), 3);
    assert_eq!(u64_min(7, 3), 3);
    assert_eq!(u64_min(5, 5), 5);
    assert_eq!(u64_min(0, u64::MAX), 0);
}

#[test]
fn mod_subtracts_at_most_once() {
    assert_eq!(u64_mod(0, 62), 0);
    assert_eq!(u64_mod(61, 62), 61);
    assert_eq!(u64_mod(62, 62), 0);
    assert_eq!(u64_mod(63, 62), 1);
    assert_eq!(u64_mod(123, 62), 61);
    // Beyond twice the modulus it is one subtraction, not a remainder.
    assert_eq!(u64_mod(200, 62), 138);
}

#[test]
fn mod_is_the_remainder_below_twice_the_capacity() {
    for m in 1..=70u64 {
        for val in 0..2 * m {
            assert_eq!(u64_mod(val, m), val % m);
        }
    }
}

#[test]
fn fields_are_read_from_their_bytes() {
    let reg = 0xdead_beef_cafe_1234u64;
    assert_eq!(head_field(reg), 0x34);
    assert_eq!(tail_field(reg), 0x12);
    assert_eq!(head_field(0), 0);
    assert_eq!(tail_field(0), 0);
    assert_eq!(head_field(u64::MAX), 0xff);
    assert_eq!(tail_field(u64::MAX), 0xff);
    assert_eq!(head_field(0x0502), 2);
    assert_eq!(tail_field(0x0502), 5);
}

#[test]
fn pack_head_replaces_only_the_head_byte() {
    assert_eq!(pack_head(0xdead_beef_cafe_1234, 0x05), 0xdead_beef_cafe_1205);
    assert_eq!(pack_head(0, 61), 61);
    assert_eq!(pack_head(u64::MAX, 0), 0xffff_ffff_ffff_ff00);
    assert_eq!(pack_head(0x0300, 0xff), 0x03ff);
}

#[test]
fn pack_tail_replaces_only_the_tail_byte() {
    assert_eq!(pack_tail(0xdead_beef_cafe_1234, 0x05), 0xdead_beef_cafe_0534);
    assert_eq!(pack_tail(0, 3), 0x0300);
    assert_eq!(pack_tail(u64::MAX, 0), 0xffff_ffff_ffff_00ff);
    assert_eq!(pack_tail(0x0002, 0xff), 0xff02);
}

#[test]
fn packing_the_held_cursor_changes_nothing() {
    for reg in [0u64, 0x1234, 0xdead_beef_cafe_1234, u64::MAX] {
        assert_eq!(pack_head(reg, head_field(reg)), reg);
        assert_eq!(pack_tail(reg, tail_field(reg)), reg);
    }
}

#[test]
fn foreign_byte_never_leaks_into_own_byte() {
    let reg = 0x0123_4567_89ab_0000u64;
    for foreign in 0..=255u64 {
        for own in [0u64, 1, 61, 255] {
            let flipped = pack_tail(reg, foreign);
            let packed = pack_head(flipped, own);
            assert_eq!(head_field(packed), own);
            assert_eq!(tail_field(packed), foreign);
            assert_eq!(packed >> 16, reg >> 16);

            let flipped = pack_head(reg, foreign);
            let packed = pack_tail(flipped, own);
            assert_eq!(tail_field(packed), own);
            assert_eq!(head_field(packed), foreign);
            assert_eq!(packed >> 16, reg >> 16);
        }
    }
}

#[test]
fn packing_order_does_not_matter() {
    let reg = 0xfeed_f00d_0bad_a55au64;
    assert_eq!(pack_head(pack_tail(reg, 7), 9), pack_tail(pack_head(reg, 9), 7));
    assert_eq!(pack_head(pack_tail(reg, 7), 9), 0xfeed_f00d_0bad_0709);
}

#[test]
fn rearm_keeps_the_valid_mask_and_sets_enable() {
    assert_eq!(rearm(0), 0x8000_0000_0000_0000);
    assert_eq!(rearm(0x1234), 0x8000_0000_0000_1234);
    assert_eq!(rearm(u64::MAX), u64::MAX);
    assert_eq!(rearm(0x8000_0000_0000_0000), 0x8000_0000_0000_0000);
    assert_eq!(rearm(0x7fff_ffff_ffff_ffff), u64::MAX);
    assert_eq!(rearm(rearm(0x00ff_00ff)), rearm(0x00ff_00ff));
}

#[test]
fn control_constants_are_bit_exact() {
    assert_eq!(ENABLE_BIT, 1u64 << 63);
    assert_eq!(VALID_MASK, (1u64 << 63) - 1);
    assert_eq!(ENABLE_BIT | VALID_MASK, DOORBELL);
    assert_eq!(DOORBELL, u64::MAX);
    assert_eq!(MAILBOX_MAX_REG_NUM, 62);
}

#[test]
fn occupancy_follows_the_cursor_distance() {
    assert_eq!(used_slots(0, 0, 62), 0);
    assert_eq!(free_slots(0, 0, 62), 61);
    assert_eq!(used_slots(5, 2, 62), 3);
    assert_eq!(free_slots(5, 2, 62), 58);
    assert_eq!(used_slots(2, 5, 62), 59);
    assert_eq!(free_slots(2, 5, 62), 2);
    assert_eq!(used_slots(61, 0, 62), 61);
    assert_eq!(free_slots(61, 0, 62), 0);
    assert_eq!(used_slots(0, 1, 62), 61);
    assert_eq!(free_slots(0, 1, 62), 0);
    assert_eq!(used_slots(3, 0, 4), 3);
    assert_eq!(free_slots(3, 0, 4), 0);
}

#[test]
fn occupancy_stays_within_the_usable_depth() {
    for capacity in [2u64, 4, 62, 256] {
        for head in 0..capacity {
            for tail in 0..capacity {
                let used = used_slots(tail, head, capacity);
                let free = free_slots(tail, head, capacity);
                assert!(used <= capacity - 1);
                assert_eq!(used + free, capacity - 1);
                assert_eq!(used, (tail + capacity - head) % capacity);
                assert_eq!(used == 0, head == tail);
            }
        }
    }
}

#[test]
fn full_ring_gains_one_slot_per_word_read() {
    let capacity = 62u64;
    for head in 0..capacity {
        let tail = u64_mod(head + capacity - 1, capacity);
        assert_eq!(free_slots(head, head, capacity), 61);
        assert_eq!(free_slots(tail, head, capacity), 0);
        let advanced = u64_mod(head + 1, capacity);
        assert_eq!(free_slots(tail, advanced, capacity), 1);
    }
}

#[test]
fn established_condition_is_accepted() {
    cantrip_assert(true);
    cantrip_assert(1 + 1 == 2);
}
