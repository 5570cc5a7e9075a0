//! Bit-field codec of the mailbox registers and ring arithmetic.
//!
//! An info register packs two one-byte cursors: the head in bits 7..0 and the
//! tail in bits 15..8. A control/status register carries the interrupt enable
//! in bit 63 and the valid mask in bits 62..0. The specifications describe the
//! fields arithmetically; the executable functions use masks and shifts and
//! are proved to agree.

use vstd::prelude::*;

verus! {

/// Interrupt enable, bit 63 of a control/status register.
pub const ENABLE_BIT: u64 = 0x8000_0000_0000_0000;

/// Valid mask, bits 62..0 of a control/status register.
pub const VALID_MASK: u64 = 0x7fff_ffff_ffff_ffff;

/// Value written to the send control/status register to signal new data.
pub const DOORBELL: u64 = 0xffff_ffff_ffff_ffff;

/// Bits 7..0 of an info register.
pub const HEAD_MASK: u64 = 0x0000_0000_0000_00ff;

/// Bits 15..8 of an info register.
pub const TAIL_MASK: u64 = 0x0000_0000_0000_ff00;

/// Every bit of an info register but its head byte.
pub const HEAD_CLEAR: u64 = 0xffff_ffff_ffff_ff00;

/// Every bit of an info register but its tail byte.
pub const TAIL_CLEAR: u64 = 0xffff_ffff_ffff_00ff;

/// Number of data slots of one direction of the standard window.
pub const MAILBOX_MAX_REG_NUM: u64 = 62;

/// The head cursor held in bits 7..0 of `reg`.
pub open spec fn head_of(reg: u64) -> int {
    reg as int % 256
}

/// The tail cursor held in bits 15..8 of `reg`.
pub open spec fn tail_of(reg: u64) -> int {
    (reg as int / 256) % 256
}

/// Everything of `reg` above the two cursor bytes, bits 63..16.
pub open spec fn upper_of(reg: u64) -> int {
    reg as int / 65536
}

/// `reg` with its head byte replaced by `head`.
pub open spec fn with_head(reg: u64, head: int) -> int {
    reg - head_of(reg) + head
}

/// `reg` with its tail byte replaced by `tail`.
pub open spec fn with_tail(reg: u64, tail: int) -> int {
    reg - 256 * tail_of(reg) + 256 * tail
}

/// The valid mask held in bits 62..0 of `csr`.
pub open spec fn valid_bits(csr: u64) -> int {
    csr as int % 0x8000_0000_0000_0000
}

/// Whether bit 63 of `csr` is set.
pub open spec fn enabled(csr: u64) -> bool {
    csr >= 0x8000_0000_0000_0000
}

/// `csr` with its valid mask kept and the interrupt enable set.
pub open spec fn rearmed(csr: u64) -> int {
    valid_bits(csr) + 0x8000_0000_0000_0000
}

/// `value` brought into `[0, capacity)` by at most one subtraction.
pub open spec fn wrap(value: int, capacity: int) -> int {
    if value < capacity {
        value
    } else {
        value - capacity
    }
}

/// Occupied slots of a ring whose consumer is at `head` and producer at `tail`.
pub open spec fn used(tail: int, head: int, capacity: int) -> int {
    wrap(tail + capacity - head, capacity)
}

/// Slots that can still be written; one slot always stays empty.
pub open spec fn free(tail: int, head: int, capacity: int) -> int {
    capacity - 1 - used(tail, head, capacity)
}

/// Asserts a condition that the caller has established. The condition is
/// checked where the call is verified, so nothing is left to test when the
/// call runs.
pub fn cantrip_assert(expr: bool)
    requires
        expr,
{
}

/// Smaller of two values.
pub fn u64_min(a: u64, b: u64) -> (r: u64)
    ensures
        r == if a < b { a } else { b },
        r <= a,
        r <= b,
{
    if a < b {
        a
    } else {
        b
    }
}

/// Reduces `val` by `m` once if it is not below `m`. For `val` below twice
/// `m` this is the remainder of `val` by `m`.
pub fn u64_mod(val: u64, m: u64) -> (r: u64)
    ensures
        r == wrap(val as int, m as int),
        0 < m && val < 2 * m ==> r == val as int % (m as int) && r < m,
{
    proof {
        if 0 < m && val < 2 * m {
            lemma_wrap_is_remainder(val as int, m as int);
        }
    }
    if val < m {
        val
    } else {
        val - m
    }
}

/// Reads the head cursor, bits 7..0.
pub fn head_field(reg: u64) -> (head: u64)
    ensures
        head == head_of(reg),
        head < 256,
{
    assert(reg & 0xff == reg % 256) by (bit_vector);
    reg & HEAD_MASK
}

/// Reads the tail cursor, bits 15..8.
pub fn tail_field(reg: u64) -> (tail: u64)
    ensures
        tail == tail_of(reg),
        tail < 256,
{
    assert((reg & 0xff00) >> 8 == (reg / 256) % 256) by (bit_vector);
    (reg & TAIL_MASK) >> 8
}

/// Replaces the head byte of `reg` and leaves every other bit as it was.
pub fn pack_head(reg: u64, new_head: u64) -> (r: u64)
    requires
        new_head < 256,
    ensures
        r == with_head(reg, new_head as int),
        head_of(r) == new_head,
        tail_of(r) == tail_of(reg),
        upper_of(r) == upper_of(reg),
{
    assert((reg & 0xffff_ffff_ffff_ff00) | new_head == reg - reg % 256 + new_head) by (bit_vector)
        requires
            new_head < 256,
    ;
    proof {
        lemma_with_head_fields(reg, new_head as int);
    }
    (reg & HEAD_CLEAR) | new_head
}

/// Replaces the tail byte of `reg` and leaves every other bit as it was.
pub fn pack_tail(reg: u64, new_tail: u64) -> (r: u64)
    requires
        new_tail < 256,
    ensures
        r == with_tail(reg, new_tail as int),
        tail_of(r) == new_tail,
        head_of(r) == head_of(reg),
        upper_of(r) == upper_of(reg),
{
    assert((reg & 0xffff_ffff_ffff_00ff) | (new_tail << 8) == reg - 256 * ((reg / 256) % 256) + 256
        * new_tail) by (bit_vector)
        requires
            new_tail < 256,
    ;
    proof {
        lemma_with_tail_fields(reg, new_tail as int);
    }
    (reg & TAIL_CLEAR) | (new_tail << 8)
}

/// Keeps the valid mask of `csr` and sets the interrupt enable.
pub fn rearm(csr: u64) -> (r: u64)
    ensures
        r == rearmed(csr),
        enabled(r),
        valid_bits(r) == valid_bits(csr),
{
    assert((csr & 0x7fff_ffff_ffff_ffff) | 0x8000_0000_0000_0000 == csr % 0x8000_0000_0000_0000
        + 0x8000_0000_0000_0000) by (bit_vector);
    (csr & VALID_MASK) | ENABLE_BIT
}

/// Occupied slots of a ring, from its two cursors.
pub fn used_slots(tail: u64, head: u64, capacity: u64) -> (n: u64)
    requires
        head < capacity,
        tail < capacity,
        capacity <= 0x8000_0000_0000_0000,
    ensures
        n == used(tail as int, head as int, capacity as int),
        n == (tail - head) % (capacity as int),
        n <= capacity - 1,
{
    proof {
        lemma_occupancy(tail as int, head as int, capacity as int);
    }
    u64_mod(tail + capacity - head, capacity)
}

/// Slots that can still be written, from the two cursors of a ring.
pub fn free_slots(tail: u64, head: u64, capacity: u64) -> (n: u64)
    requires
        head < capacity,
        tail < capacity,
        capacity <= 0x8000_0000_0000_0000,
    ensures
        n == free(tail as int, head as int, capacity as int),
        n + used(tail as int, head as int, capacity as int) == capacity - 1,
{
    proof {
        lemma_occupancy(tail as int, head as int, capacity as int);
    }
    capacity - 1 - used_slots(tail, head, capacity)
}

/// One conditional subtraction computes the remainder of a value below twice
/// the capacity.
pub proof fn lemma_wrap_is_remainder(value: int, capacity: int)
    requires
        0 <= value < 2 * capacity,
    ensures
        wrap(value, capacity) == value % capacity,
        0 <= wrap(value, capacity) < capacity,
{
    if value < capacity {
        vstd::arithmetic::div_mod::lemma_small_mod(value as nat, capacity as nat);
    } else {
        vstd::arithmetic::div_mod::lemma_small_mod((value - capacity) as nat, capacity as nat);
        vstd::arithmetic::div_mod::lemma_mod_sub_multiples_vanish(value, capacity);
    }
}

/// The occupancy never exceeds the usable depth, the number of free slots is
/// never negative, and the occupancy is the cursor distance modulo the
/// capacity.
pub proof fn lemma_occupancy(tail: int, head: int, capacity: int)
    requires
        0 <= head < capacity,
        0 <= tail < capacity,
    ensures
        0 <= used(tail, head, capacity) <= capacity - 1,
        0 <= free(tail, head, capacity) <= capacity - 1,
        used(tail, head, capacity) + free(tail, head, capacity) == capacity - 1,
        used(tail, head, capacity) == (tail - head) % capacity,
        used(tail, head, capacity) == 0 <==> head == tail,
        wrap(head + used(tail, head, capacity), capacity) == tail,
{
    lemma_wrap_is_remainder(tail + capacity - head, capacity);
    vstd::arithmetic::div_mod::lemma_mod_add_multiples_vanish(tail - head, capacity);
}

/// Replacing the head byte sets the head, and keeps the tail byte and the
/// upper bits whatever they hold.
pub proof fn lemma_with_head_fields(reg: u64, head: int)
    requires
        0 <= head < 256,
    ensures
        0 <= with_head(reg, head) <= u64::MAX,
        head_of(with_head(reg, head) as u64) == head,
        tail_of(with_head(reg, head) as u64) == tail_of(reg),
        upper_of(with_head(reg, head) as u64) == upper_of(reg),
{
    let h = head as u64;
    let r = (reg & 0xffff_ffff_ffff_ff00) | h;
    assert(r == reg - reg % 256 + h && r % 256 == h && (r / 256) % 256 == (reg / 256) % 256 && r
        / 65536 == reg / 65536) by (bit_vector)
        requires
            h < 256,
            r == (reg & 0xffff_ffff_ffff_ff00) | h,
    ;
}

/// Replacing the tail byte sets the tail, and keeps the head byte and the
/// upper bits whatever they hold.
pub proof fn lemma_with_tail_fields(reg: u64, tail: int)
    requires
        0 <= tail < 256,
    ensures
        0 <= with_tail(reg, tail) <= u64::MAX,
        tail_of(with_tail(reg, tail) as u64) == tail,
        head_of(with_tail(reg, tail) as u64) == head_of(reg),
        upper_of(with_tail(reg, tail) as u64) == upper_of(reg),
{
    let t = tail as u64;
    let r = (reg & 0xffff_ffff_ffff_00ff) | (t << 8);
    assert(r == reg - 256 * ((reg / 256) % 256) + 256 * t && (r / 256) % 256 == t && r % 256 == reg
        % 256 && r / 65536 == reg / 65536) by (bit_vector)
        requires
            t < 256,
            r == (reg & 0xffff_ffff_ffff_00ff) | (t << 8),
    ;
}

/// Writing back the cursor that a register already holds changes nothing.
pub proof fn lemma_repack_same(reg: u64)
    ensures
        with_head(reg, head_of(reg)) == reg,
        with_tail(reg, tail_of(reg)) == reg,
{
}

/// An info register is its three fields put together.
pub proof fn lemma_fields_determine(a: u64, b: u64)
    requires
        head_of(a) == head_of(b),
        tail_of(a) == tail_of(b),
        upper_of(a) == upper_of(b),
    ensures
        a == b,
{
}

/// Re-arming twice is re-arming once.
pub proof fn lemma_rearm_idempotent(csr: u64)
    ensures
        0 <= rearmed(csr) <= u64::MAX,
        rearmed(rearmed(csr) as u64) == rearmed(csr),
{
}

} // verus!
