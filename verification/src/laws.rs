//! General properties of the execution core, stated over the model in
//! [`crate::model`] and proved once for all inputs.

use vstd::prelude::*;

use crate::model::effective_address;
use crate::model::flags_after;
use crate::model::inx_spec;
use crate::model::lda_spec;
use crate::model::make_u16;
use crate::model::wrap_add16;
use crate::model::wrap_add8;
use crate::model::AddressingMode;
use crate::model::CpuView;
use crate::model::FLAG_NEGATIVE;
use crate::model::FLAG_ZERO;

verus! {

/// The flag unit sets the Zero bit exactly when the value is zero and the
/// Negative bit exactly when the value is 0x80 or more, and it leaves the
/// other six status bits as they were; the two bits depend on nothing else.
pub proof fn lemma_flags_after_zero_and_negative(status: u8, value: u8)
    ensures
        flags_after(status, value) & FLAG_ZERO != 0 <==> value == 0,
        flags_after(status, value) & FLAG_NEGATIVE != 0 <==> value >= 0x80,
        flags_after(status, value) & 0b0111_1101 == status & 0b0111_1101,
{
    if value == 0 {
        assert(0u8 & 0b1000_0000u8 == 0) by (bit_vector);
        assert((status | 0b0000_0010u8) & 0b0111_1111u8 & 0b0000_0010u8 != 0) by (bit_vector);
        assert((status | 0b0000_0010u8) & 0b0111_1111u8 & 0b1000_0000u8 == 0) by (bit_vector);
        assert((status | 0b0000_0010u8) & 0b0111_1111u8 & 0b0111_1101u8 == status & 0b0111_1101u8)
            by (bit_vector);
    } else if value & 0b1000_0000 != 0 {
        assert(value >= 0x80) by (bit_vector)
            requires
                value & 0b1000_0000u8 != 0,
        ;
        assert(((status & 0b1111_1101u8) | 0b1000_0000u8) & 0b0000_0010u8 == 0) by (bit_vector);
        assert(((status & 0b1111_1101u8) | 0b1000_0000u8) & 0b1000_0000u8 != 0) by (bit_vector);
        assert(((status & 0b1111_1101u8) | 0b1000_0000u8) & 0b0111_1101u8 == status
            & 0b0111_1101u8) by (bit_vector);
    } else {
        assert(value < 0x80) by (bit_vector)
            requires
                value & 0b1000_0000u8 == 0,
        ;
        assert(status & 0b1111_1101u8 & 0b0111_1111u8 & 0b0000_0010u8 == 0) by (bit_vector);
        assert(status & 0b1111_1101u8 & 0b0111_1111u8 & 0b1000_0000u8 == 0) by (bit_vector);
        assert(status & 0b1111_1101u8 & 0b0111_1111u8 & 0b0111_1101u8 == status & 0b0111_1101u8)
            by (bit_vector);
    }
}

/// The 16-bit store is the inverse of the 16-bit read: splitting a value into
/// its low and high bytes and composing them little-endian gives it back.
pub proof fn lemma_make_u16_splits(data: u16)
    ensures
        make_u16((data & 0xFF) as u8, (data >> 8) as u8) == data,
{
    assert(((((data >> 8) as u8) as u16) << 8) | (((data & 0xFF) as u8) as u16) == data)
        by (bit_vector);
}

/// Load round-trip: write a byte anywhere, and a load-accumulator whose mode
/// resolves to that address puts exactly that byte in the accumulator, with
/// the flags computed from it.
pub proof fn lemma_lda_round_trip(v: CpuView, mode: AddressingMode, addr: u16, b: u8)
    requires
        v.wf(),
        !(mode is NoneAddressing),
        effective_address((CpuView { mem: v.mem.update(addr as int, b), ..v }), mode) == addr,
    ensures
        lda_spec((CpuView { mem: v.mem.update(addr as int, b), ..v }), mode).register_a == b,
        lda_spec((CpuView { mem: v.mem.update(addr as int, b), ..v }), mode).status == flags_after(
            v.status,
            b,
        ),
{
}

/// Increment-index wraps: from an index register of 0xFF one increment yields
/// 0x00 with Zero set and Negative clear, and a second yields 0x01 with both
/// clear.
pub proof fn lemma_inx_wraps(v: CpuView)
    requires
        v.register_x == 0xFF,
    ensures
        inx_spec(v).register_x == 0,
        inx_spec(v).status & FLAG_ZERO != 0,
        inx_spec(v).status & FLAG_NEGATIVE == 0,
        inx_spec(inx_spec(v)).register_x == 1,
        inx_spec(inx_spec(v)).status & FLAG_ZERO == 0,
        inx_spec(inx_spec(v)).status & FLAG_NEGATIVE == 0,
{
    lemma_flags_after_zero_and_negative(v.status, 0);
    lemma_flags_after_zero_and_negative(flags_after(v.status, 0), 1);
}

/// Indexed-indirect addressing stays on the zero page: for pointer byte `p`
/// and index `x`, the effective address is the 16-bit value whose low byte
/// sits at zero-page address `(p + x) mod 256` and whose high byte sits at
/// `((p + x) mod 256 + 1) mod 256` — the pointer never crosses into page 1.
pub proof fn lemma_indirect_x_address(v: CpuView, p: u8, x: u8)
    requires
        v.wf(),
        v.mem_at(v.program_counter) == p,
        v.register_x == x,
    ensures
        effective_address(v, AddressingMode::Indirect_X) == make_u16(
            v.mem_at(wrap_add8(p, x) as u16),
            v.mem_at(wrap_add8(wrap_add8(p, x), 1) as u16),
        ),
{
}

/// Indirect-indexed addressing: for pointer byte `p` and index `y`, the
/// effective address is the 16-bit value read from zero-page address `p` —
/// its high byte fetched from `(p + 1) mod 256`, staying on the zero page —
/// plus `y`, wrapping modulo 0x10000.
pub proof fn lemma_indirect_y_address(v: CpuView, p: u8, y: u8)
    requires
        v.wf(),
        v.mem_at(v.program_counter) == p,
        v.register_y == y,
    ensures
        effective_address(v, AddressingMode::Indirect_Y) == wrap_add16(
            make_u16(v.mem_at(p as u16), v.mem_at(wrap_add8(p, 1) as u16)),
            y as u16,
        ),
{
}

} // verus!
