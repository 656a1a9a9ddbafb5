//! The three-wire bus as the panel sees it: the operations the driver issues,
//! the line levels they leave behind, and what an SPI mode-0 target latches.

use vstd::prelude::*;

verus! {

/// One of the three lines of the bit-banged bus.
#[derive(Clone, Copy, Debug, PartialEq, Eq, Structural)]
pub enum Line {
    /// Serial clock.
    Sck,
    /// Chip select, active low.
    Cs,
    /// Data from the controller to the panel.
    Mosi,
}

/// One step for the hardware side to carry out, in order.
#[derive(Clone, Copy, Debug, PartialEq, Eq, Structural)]
pub enum BusOp {
    /// Drive a line high (`true`) or low (`false`).
    Drive(Line, bool),
    /// Busy-wait for the given number of microseconds.
    DelayUs(u32),
    /// Put the task to sleep for the given number of milliseconds.
    SleepMs(u32),
}

/// The level of each line, as last driven.
#[derive(Clone, Copy, Debug, PartialEq, Eq, Structural)]
pub struct Levels {
    pub sck: bool,
    pub cs: bool,
    pub mosi: bool,
}

/// The resting state of the bus between transfers: clock low, chip
/// deselected, data low.
pub open spec fn idle_levels() -> Levels {
    Levels { sck: false, cs: true, mosi: false }
}

/// The levels after one operation.
pub open spec fn apply_op(l: Levels, op: BusOp) -> Levels {
    match op {
        BusOp::Drive(Line::Sck, high) => Levels { sck: high, ..l },
        BusOp::Drive(Line::Cs, high) => Levels { cs: high, ..l },
        BusOp::Drive(Line::Mosi, high) => Levels { mosi: high, ..l },
        _ => l,
    }
}

/// The levels after a run of operations.
pub open spec fn run_ops(l: Levels, ops: Seq<BusOp>) -> Levels
    decreases ops.len(),
{
    if ops.len() == 0 {
        l
    } else {
        apply_op(run_ops(l, ops.drop_last()), ops.last())
    }
}

/// What an SPI mode-0 target has seen: the line levels, the bits shifted in
/// since it was last selected, and the frames completed so far (one frame is
/// everything clocked in between chip select falling and rising again).
pub struct Target {
    pub levels: Levels,
    pub shift: Seq<bool>,
    pub frames: Seq<Seq<bool>>,
}

/// A target on an idle bus that has completed the given frames.
pub open spec fn idle_target(frames: Seq<Seq<bool>>) -> Target {
    Target { levels: idle_levels(), shift: Seq::empty(), frames }
}

/// The target after one operation: selecting it clears its shift register,
/// a rising clock edge while selected latches the data line (mode 0), and
/// deselecting it completes a frame.
pub open spec fn latch_op(t: Target, op: BusOp) -> Target {
    let levels = apply_op(t.levels, op);
    match op {
        BusOp::Drive(Line::Cs, false) => if t.levels.cs {
            Target { levels, shift: Seq::empty(), frames: t.frames }
        } else {
            Target { levels, ..t }
        },
        BusOp::Drive(Line::Cs, true) => if !t.levels.cs {
            Target { levels, shift: Seq::empty(), frames: t.frames.push(t.shift) }
        } else {
            Target { levels, ..t }
        },
        BusOp::Drive(Line::Sck, true) => if !t.levels.sck && !t.levels.cs {
            Target { levels, shift: t.shift.push(t.levels.mosi), frames: t.frames }
        } else {
            Target { levels, ..t }
        },
        _ => Target { levels, ..t },
    }
}

/// The target after a run of operations.
pub open spec fn receive(t: Target, ops: Seq<BusOp>) -> Target
    decreases ops.len(),
{
    if ops.len() == 0 {
        t
    } else {
        latch_op(receive(t, ops.drop_last()), ops.last())
    }
}

/// Bit `i` of `value`, the position taken modulo 32 as a shift of a `u32`
/// by 32 or more wraps its amount.
pub open spec fn bit_of(value: u32, i: u32) -> bool {
    (value >> (i % 32)) & 1u32 == 1u32
}

/// Bits `n - 1` down to 0 of `value` (for `n <= 32`, its low `n` bits), most
/// significant first.
pub open spec fn msb_bits(value: u32, n: nat) -> Seq<bool> {
    Seq::new(n, |j: int| bit_of(value, (n - 1 - j) as u32))
}

/// The number that a sequence of bits spells, most significant first.
pub open spec fn bits_value(bits: Seq<bool>) -> nat
    decreases bits.len(),
{
    if bits.len() == 0 {
        0
    } else {
        2 * bits_value(bits.drop_last()) + if bits.last() { 1nat } else { 0nat }
    }
}

/// The wait between clock edges: none when the half period is zero.
pub open spec fn delay_ops(half_period_us: u32) -> Seq<BusOp> {
    if half_period_us == 0 {
        Seq::empty()
    } else {
        seq![BusOp::DelayUs(half_period_us)]
    }
}

/// Clocking out one bit: set the data line, wait, raise the clock (the target
/// latches here), wait, drop the clock.
pub open spec fn clock_out_ops(half_period_us: u32, bit: bool) -> Seq<BusOp> {
    seq![BusOp::Drive(Line::Mosi, bit)] + delay_ops(half_period_us) + seq![
        BusOp::Drive(Line::Sck, true),
    ] + delay_ops(half_period_us) + seq![BusOp::Drive(Line::Sck, false)]
}

/// Clocking out the first `k` of bits `n - 1` down to 0 of `value`.
pub open spec fn shift_ops(half_period_us: u32, value: u32, n: nat, k: nat) -> Seq<BusOp>
    decreases k,
{
    if k == 0 {
        Seq::empty()
    } else {
        shift_ops(half_period_us, value, n, (k - 1) as nat) + clock_out_ops(
            half_period_us,
            bit_of(value, (n - k) as u32),
        )
    }
}

/// A whole `write_bits` transfer: the `n` bits, then the data line back low.
pub open spec fn write_bits_ops(half_period_us: u32, value: u32, n: nat) -> Seq<BusOp> {
    shift_ops(half_period_us, value, n, n) + seq![BusOp::Drive(Line::Mosi, false)]
}

/// One framed 9-bit word (a D/C bit and a byte): select, clock out the 9 bits, deselect.
pub open spec fn command_ops(half_period_us: u32, word: u32) -> Seq<BusOp> {
    seq![BusOp::Drive(Line::Cs, false)] + write_bits_ops(half_period_us, word, 9) + seq![
        BusOp::Drive(Line::Cs, true),
    ]
}

/// The 9-bit word for a command byte: D/C (bit 8) clear, payload the low byte.
pub open spec fn command_word(reg: u32) -> u32 {
    reg & 0xFF
}

/// The 9-bit word for a parameter byte: D/C (bit 8) set, payload the low byte.
pub open spec fn data_word(byte: u32) -> u32 {
    (byte & 0xFF) | 0x100
}

/// One frame per parameter byte, in order.
pub open spec fn params_ops(half_period_us: u32, params: Seq<u32>) -> Seq<BusOp>
    decreases params.len(),
{
    if params.len() == 0 {
        Seq::empty()
    } else {
        params_ops(half_period_us, params.drop_last()) + command_ops(
            half_period_us,
            data_word(params.last()),
        )
    }
}

/// A register write: the command frame, then one frame per parameter.
pub open spec fn write_data_ops(half_period_us: u32, reg: u32, params: Seq<u32>) -> Seq<BusOp> {
    command_ops(half_period_us, command_word(reg)) + params_ops(half_period_us, params)
}

/// The frames a register write delivers: the command word, then one data
/// word per parameter, each as 9 bits sent most significant first.
pub open spec fn write_data_frames(reg: u32, params: Seq<u32>) -> Seq<Seq<bool>> {
    seq![msb_bits(command_word(reg), 9)] + params.map_values(
        |b: u32| msb_bits(data_word(b), 9),
    )
}

/// What a checker of the bus discipline tracks: the line levels, how many
/// times the clock was driven high since the panel was last selected, and
/// whether every rule has held so far.
pub struct Discipline {
    pub levels: Levels,
    pub clock_highs: nat,
    pub ok: bool,
}

/// A checker on an idle bus that has seen no broken rule.
pub open spec fn idle_discipline() -> Discipline {
    Discipline { levels: idle_levels(), clock_highs: 0, ok: true }
}

/// The rules, one operation at a time: selecting the panel starts a count of
/// clock-high drives; deselecting it requires exactly 9 of them; the clock
/// and the data line are driven only while the panel is selected; the data
/// line is driven only while the clock is low.
pub open spec fn check_op(d: Discipline, op: BusOp) -> Discipline {
    let levels = apply_op(d.levels, op);
    match op {
        BusOp::Drive(Line::Cs, false) => Discipline { levels, clock_highs: 0, ok: d.ok },
        BusOp::Drive(Line::Cs, true) => Discipline {
            levels,
            clock_highs: 0,
            ok: d.ok && (d.levels.cs || d.clock_highs == 9),
        },
        BusOp::Drive(Line::Sck, high) => Discipline {
            levels,
            clock_highs: if high { d.clock_highs + 1 } else { d.clock_highs },
            ok: d.ok && !d.levels.cs,
        },
        BusOp::Drive(Line::Mosi, _) => Discipline {
            levels,
            clock_highs: d.clock_highs,
            ok: d.ok && !d.levels.cs && !d.levels.sck,
        },
        _ => Discipline { levels, ..d },
    }
}

/// The checker after a run of operations.
pub open spec fn check_ops(d: Discipline, ops: Seq<BusOp>) -> Discipline
    decreases ops.len(),
{
    if ops.len() == 0 {
        d
    } else {
        check_op(check_ops(d, ops.drop_last()), ops.last())
    }
}

/// A run of operations with every wait of `us` microseconds taken out.
pub open spec fn without_waits(ops: Seq<BusOp>, us: u32) -> Seq<BusOp>
    decreases ops.len(),
{
    if ops.len() == 0 {
        Seq::empty()
    } else if ops.last() == BusOp::DelayUs(us) {
        without_waits(ops.drop_last(), us)
    } else {
        without_waits(ops.drop_last(), us).push(ops.last())
    }
}

/// How many waits of `us` microseconds a run of operations holds.
pub open spec fn wait_count(ops: Seq<BusOp>, us: u32) -> nat
    decreases ops.len(),
{
    if ops.len() == 0 {
        0
    } else if ops.last() == BusOp::DelayUs(us) {
        wait_count(ops.drop_last(), us) + 1
    } else {
        wait_count(ops.drop_last(), us)
    }
}

} // verus!
