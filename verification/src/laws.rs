//! What the panel receives: the frames an SPI mode-0 target latches from the
//! operations the driver issues.

use vstd::prelude::*;
use vstd::arithmetic::div_mod::lemma_mod_breakdown;
use vstd::arithmetic::power2::{lemma2_to64, lemma_pow2_unfold, pow2};
use crate::display_init::{
    display_init_table, sleep_ops, step_ops, steps_frames, steps_ops, InitStep,
};
use crate::wire::{
    bit_of, bits_value, clock_out_ops, command_ops, command_word, data_word, delay_ops, idle_levels,
    idle_target, latch_op, msb_bits, run_ops, apply_op, check_op, check_ops, idle_discipline,
    without_waits, wait_count, Discipline, params_ops, receive, shift_ops, write_bits_ops, write_data_frames,
    write_data_ops, BusOp, Levels, Line, Target,
};

verus! {

/// Receiving two runs of operations one after the other is receiving their
/// concatenation.
pub proof fn lemma_receive_append(t: Target, a: Seq<BusOp>, b: Seq<BusOp>)
    ensures
        receive(t, a + b) == receive(receive(t, a), b),
    decreases b.len(),
{
    if b.len() == 0 {
        assert(a + b =~= a);
    } else {
        assert((a + b).drop_last() =~= a + b.drop_last());
        assert((a + b).last() == b.last());
        lemma_receive_append(t, a, b.drop_last());
    }
}

proof fn lemma_receive_one(t: Target, op: BusOp)
    ensures
        receive(t, seq![op]) == latch_op(t, op),
{
    assert(seq![op].drop_last() =~= Seq::<BusOp>::empty());
    assert(receive(t, Seq::<BusOp>::empty()) == t);
}

proof fn lemma_receive_delay(t: Target, hp: u32)
    ensures
        receive(t, delay_ops(hp)) == t,
{
    if hp != 0 {
        lemma_receive_one(t, BusOp::DelayUs(hp));
    }
}

proof fn lemma_clock_out(t: Target, hp: u32, b: bool)
    requires
        !t.levels.sck,
        !t.levels.cs,
    ensures
        receive(t, clock_out_ops(hp, b)) == (Target {
            levels: Levels { sck: false, cs: false, mosi: b },
            shift: t.shift.push(b),
            frames: t.frames,
        }),
{
    let a = seq![BusOp::Drive(Line::Mosi, b)];
    let d = delay_ops(hp);
    let s = seq![BusOp::Drive(Line::Sck, true)];
    let l = seq![BusOp::Drive(Line::Sck, false)];
    lemma_receive_append(t, a + d + s + d, l);
    lemma_receive_append(t, a + d + s, d);
    lemma_receive_append(t, a + d, s);
    lemma_receive_append(t, a, d);
    lemma_receive_one(t, a[0]);
    let t1 = receive(t, a);
    lemma_receive_delay(t1, hp);
    lemma_receive_one(t1, s[0]);
    let t3 = receive(t1, s);
    lemma_receive_delay(t3, hp);
    lemma_receive_one(t3, l[0]);
}

proof fn lemma_shift(t: Target, hp: u32, v: u32, n: nat, k: nat)
    requires
        k <= n,
        !t.levels.sck,
        !t.levels.cs,
    ensures
        ({
            let r = receive(t, shift_ops(hp, v, n, k));
            &&& !r.levels.sck
            &&& !r.levels.cs
            &&& r.frames == t.frames
            &&& r.shift == t.shift + msb_bits(v, n).take(k as int)
        }),
    decreases k,
{
    if k == 0 {
        assert(t.shift + msb_bits(v, n).take(0) =~= t.shift);
    } else {
        let prev = shift_ops(hp, v, n, (k - 1) as nat);
        let b = bit_of(v, (n - k) as u32);
        lemma_shift(t, hp, v, n, (k - 1) as nat);
        lemma_receive_append(t, prev, clock_out_ops(hp, b));
        let r1 = receive(t, prev);
        lemma_clock_out(r1, hp, b);
        assert(msb_bits(v, n)[k - 1] == b);
        assert(t.shift + msb_bits(v, n).take(k as int) =~= (t.shift + msb_bits(v, n).take(
            k - 1,
        )).push(b));
    }
}

/// A `write_bits` transfer to a selected target whose clock rests low shifts
/// exactly the low `n` bits of `value` into it, most significant first, and
/// leaves clock and data low and the target selected.
pub proof fn law_write_bits_delivers(t: Target, hp: u32, value: u32, n: nat)
    requires
        !t.levels.sck,
        !t.levels.cs,
    ensures
        receive(t, write_bits_ops(hp, value, n)) == (Target {
            levels: Levels { sck: false, cs: false, mosi: false },
            shift: t.shift + msb_bits(value, n),
            frames: t.frames,
        }),
{
    let s = shift_ops(hp, value, n, n);
    lemma_shift(t, hp, value, n, n);
    lemma_receive_append(t, s, seq![BusOp::Drive(Line::Mosi, false)]);
    lemma_receive_one(receive(t, s), BusOp::Drive(Line::Mosi, false));
    assert(msb_bits(value, n).take(n as int) =~= msb_bits(value, n));
}

/// A framed 9-bit write on an idle bus delivers exactly one frame, the low 9
/// bits of the word most significant first, and leaves the bus idle.
pub proof fn law_command_delivers_one_frame(hp: u32, word: u32, frames: Seq<Seq<bool>>)
    ensures
        receive(idle_target(frames), command_ops(hp, word)) == idle_target(
            frames.push(msb_bits(word, 9)),
        ),
{
    let t = idle_target(frames);
    let sel = seq![BusOp::Drive(Line::Cs, false)];
    let bits = write_bits_ops(hp, word, 9);
    let desel = seq![BusOp::Drive(Line::Cs, true)];
    lemma_receive_append(t, sel + bits, desel);
    lemma_receive_append(t, sel, bits);
    lemma_receive_one(t, sel[0]);
    let t1 = receive(t, sel);
    law_write_bits_delivers(t1, hp, word, 9);
    assert(t1.shift + msb_bits(word, 9) =~= msb_bits(word, 9));
    lemma_receive_one(receive(t1, bits), desel[0]);
}

/// Parameter frames on an idle bus: one data frame per byte, in order.
proof fn lemma_params_deliver(hp: u32, params: Seq<u32>, frames: Seq<Seq<bool>>)
    ensures
        receive(idle_target(frames), params_ops(hp, params)) == idle_target(
            frames + params.map_values(|b: u32| msb_bits(data_word(b), 9)),
        ),
    decreases params.len(),
{
    let f = |b: u32| msb_bits(data_word(b), 9);
    if params.len() == 0 {
        assert(frames + params.map_values(f) =~= frames);
    } else {
        let init = params.drop_last();
        lemma_params_deliver(hp, init, frames);
        lemma_receive_append(
            idle_target(frames),
            params_ops(hp, init),
            command_ops(hp, data_word(params.last())),
        );
        law_command_delivers_one_frame(hp, data_word(params.last()), frames + init.map_values(f));
        assert((frames + init.map_values(f)).push(f(params.last())) =~= frames + params.map_values(
            f,
        ));
    }
}

/// A register write on an idle bus delivers exactly the command frame and
/// then one data frame per parameter byte, and leaves the bus idle.
pub proof fn law_write_data_delivers(hp: u32, reg: u32, params: Seq<u32>, frames: Seq<Seq<bool>>)
    ensures
        receive(idle_target(frames), write_data_ops(hp, reg, params)) == idle_target(
            frames + write_data_frames(reg, params),
        ),
{
    let f = |b: u32| msb_bits(data_word(b), 9);
    lemma_receive_append(
        idle_target(frames),
        command_ops(hp, command_word(reg)),
        params_ops(hp, params),
    );
    law_command_delivers_one_frame(hp, command_word(reg), frames);
    let mid = frames.push(msb_bits(command_word(reg), 9));
    lemma_params_deliver(hp, params, mid);
    assert(mid + params.map_values(f) =~= frames + write_data_frames(reg, params));
}

/// Read most significant bit first, the `n` bits sent for `value` spell
/// `value mod 2^n`.
pub proof fn law_frame_value(value: u32, n: nat)
    requires
        n <= 32,
    ensures
        bits_value(msb_bits(value, n)) == (value as nat) % pow2(n),
    decreases n,
{
    lemma2_to64();
    if n == 0 {
        assert(msb_bits(value, 0) =~= Seq::<bool>::empty());
    } else {
        let s = msb_bits(value, n);
        let half: u32 = value >> 1u32;
        assert forall|j: int| 0 <= j < n - 1 implies #[trigger] s.drop_last()[j] == msb_bits(
            half,
            (n - 1) as nat,
        )[j] by {
            let i: u32 = (n - 2 - j) as u32;
            assert(i % 32 == i && (i + 1) % 32 == i + 1);
            assert(((value >> 1u32) >> i) & 1u32 == (value >> (i + 1u32)) & 1u32) by (bit_vector)
                requires
                    i < 31,
            ;
        }
        assert(s.drop_last() =~= msb_bits(half, (n - 1) as nat));
        law_frame_value(half, (n - 1) as nat);
        assert(value >> 1u32 == value / 2) by (bit_vector);
        assert(((value >> 0u32) & 1u32 == 1u32) <==> value % 2 == 1) by (bit_vector);
        assert(0u32 % 32 == 0);
        assert(s.last() == bit_of(value, 0));
        assert(bits_value(s) == 2 * bits_value(s.drop_last()) + (value as nat) % 2);
        lemma_pow2_unfold(n);
        lemma_mod_breakdown(value as int, 2, pow2((n - 1) as nat) as int);
        assert(bits_value(s) == (value as nat) % pow2(n));
    }
}

/// A command frame starts with D/C clear and carries the command byte.
pub proof fn law_command_frame_contents(reg: u32)
    ensures
        msb_bits(command_word(reg), 9).len() == 9,
        !msb_bits(command_word(reg), 9)[0],
        bits_value(msb_bits(command_word(reg), 9)) == reg % 256,
{
    lemma2_to64();
    law_frame_value(command_word(reg), 9);
    assert(((reg & 0xFFu32) >> 8u32) & 1u32 == 0u32) by (bit_vector);
    assert(reg & 0xFFu32 == reg % 256) by (bit_vector);
}

/// A data frame starts with D/C set and carries the parameter byte.
pub proof fn law_data_frame_contents(byte: u32)
    ensures
        msb_bits(data_word(byte), 9).len() == 9,
        msb_bits(data_word(byte), 9)[0],
        bits_value(msb_bits(data_word(byte), 9)) == 256 + byte % 256,
{
    lemma2_to64();
    law_frame_value(data_word(byte), 9);
    assert((((byte & 0xFFu32) | 0x100u32) >> 8u32) & 1u32 == 1u32) by (bit_vector);
    assert((byte & 0xFFu32) | 0x100u32 == 256 + byte % 256) by (bit_vector);
}

/// Running two runs of operations one after the other is running their
/// concatenation.
pub proof fn lemma_run_append(l: Levels, a: Seq<BusOp>, b: Seq<BusOp>)
    ensures
        run_ops(l, a + b) == run_ops(run_ops(l, a), b),
    decreases b.len(),
{
    if b.len() == 0 {
        assert(a + b =~= a);
    } else {
        assert((a + b).drop_last() =~= a + b.drop_last());
        assert((a + b).last() == b.last());
        lemma_run_append(l, a, b.drop_last());
    }
}

proof fn lemma_run_one(l: Levels, op: BusOp)
    ensures
        run_ops(l, seq![op]) == apply_op(l, op),
{
    assert(seq![op].drop_last() =~= Seq::<BusOp>::empty());
    assert(run_ops(l, Seq::<BusOp>::empty()) == l);
}

proof fn lemma_run_delay(l: Levels, hp: u32)
    ensures
        run_ops(l, delay_ops(hp)) == l,
{
    if hp != 0 {
        lemma_run_one(l, BusOp::DelayUs(hp));
    }
}

proof fn lemma_run_clock_out(l: Levels, hp: u32, b: bool)
    ensures
        run_ops(l, clock_out_ops(hp, b)) == (Levels { sck: false, mosi: b, cs: l.cs }),
{
    let a = seq![BusOp::Drive(Line::Mosi, b)];
    let d = delay_ops(hp);
    let s = seq![BusOp::Drive(Line::Sck, true)];
    let f = seq![BusOp::Drive(Line::Sck, false)];
    lemma_run_append(l, a + d + s + d, f);
    lemma_run_append(l, a + d + s, d);
    lemma_run_append(l, a + d, s);
    lemma_run_append(l, a, d);
    lemma_run_one(l, a[0]);
    let l1 = run_ops(l, a);
    lemma_run_delay(l1, hp);
    lemma_run_one(l1, s[0]);
    let l3 = run_ops(l1, s);
    lemma_run_delay(l3, hp);
    lemma_run_one(l3, f[0]);
}

proof fn lemma_run_shift(l: Levels, hp: u32, v: u32, n: nat, k: nat)
    ensures
        run_ops(l, shift_ops(hp, v, n, k)).cs == l.cs,
        k > 0 ==> !run_ops(l, shift_ops(hp, v, n, k)).sck,
        k == 0 ==> run_ops(l, shift_ops(hp, v, n, k)) == l,
    decreases k,
{
    if k > 0 {
        let prev = shift_ops(hp, v, n, (k - 1) as nat);
        lemma_run_shift(l, hp, v, n, (k - 1) as nat);
        lemma_run_append(l, prev, clock_out_ops(hp, bit_of(v, (n - k) as u32)));
        lemma_run_clock_out(run_ops(l, prev), hp, bit_of(v, (n - k) as u32));
    }
}

/// Whatever the lines were, a `write_bits` transfer of at least one bit
/// leaves the clock and the data line low and chip select as it was.
pub proof fn law_write_bits_levels(l: Levels, hp: u32, value: u32, n: nat)
    requires
        n >= 1,
    ensures
        run_ops(l, write_bits_ops(hp, value, n)) == (Levels { sck: false, mosi: false, ..l }),
{
    let s = shift_ops(hp, value, n, n);
    lemma_run_shift(l, hp, value, n, n);
    lemma_run_append(l, s, seq![BusOp::Drive(Line::Mosi, false)]);
    lemma_run_one(run_ops(l, s), BusOp::Drive(Line::Mosi, false));
}

/// Whatever the lines were, a framed 9-bit write leaves the bus idle.
pub proof fn law_command_leaves_bus_idle(l: Levels, hp: u32, word: u32)
    ensures
        run_ops(l, command_ops(hp, word)) == idle_levels(),
{
    let sel = seq![BusOp::Drive(Line::Cs, false)];
    let bits = write_bits_ops(hp, word, 9);
    let desel = seq![BusOp::Drive(Line::Cs, true)];
    lemma_run_append(l, sel + bits, desel);
    lemma_run_append(l, sel, bits);
    lemma_run_one(l, sel[0]);
    law_write_bits_levels(run_ops(l, sel), hp, word, 9);
    lemma_run_one(run_ops(l, sel + bits), desel[0]);
}

/// Whatever the lines were, a register write leaves the bus idle.
pub proof fn law_write_data_leaves_bus_idle(l: Levels, hp: u32, reg: u32, params: Seq<u32>)
    ensures
        run_ops(l, write_data_ops(hp, reg, params)) == idle_levels(),
    decreases params.len(),
{
    if params.len() == 0 {
        assert(write_data_ops(hp, reg, params) =~= command_ops(hp, command_word(reg)));
        law_command_leaves_bus_idle(l, hp, command_word(reg));
    } else {
        let init = params.drop_last();
        let last = command_ops(hp, data_word(params.last()));
        assert(write_data_ops(hp, reg, params) =~= write_data_ops(hp, reg, init) + last);
        lemma_run_append(l, write_data_ops(hp, reg, init), last);
        law_command_leaves_bus_idle(run_ops(l, write_data_ops(hp, reg, init)), hp, data_word(params.last()));
    }
}

proof fn lemma_receive_sleep(t: Target, ms: u32)
    ensures
        receive(t, sleep_ops(ms)) == t,
{
    if ms != 0 {
        lemma_receive_one(t, BusOp::SleepMs(ms));
    }
}

/// A run of register writes and sleeps on an idle bus delivers exactly the
/// frames of each write, in order, and leaves the bus idle; the sleeps
/// deliver nothing.
pub proof fn law_steps_deliver(hp: u32, steps: Seq<InitStep>, frames: Seq<Seq<bool>>)
    ensures
        receive(idle_target(frames), steps_ops(hp, steps)) == idle_target(
            frames + steps_frames(steps),
        ),
    decreases steps.len(),
{
    if steps.len() == 0 {
        assert(frames + steps_frames(steps) =~= frames);
    } else {
        let init = steps.drop_last();
        let last = steps.last();
        let mid = frames + steps_frames(init);
        law_steps_deliver(hp, init, frames);
        lemma_receive_append(idle_target(frames), steps_ops(hp, init), step_ops(hp, last));
        lemma_receive_append(
            idle_target(mid),
            write_data_ops(hp, last.reg, last.params),
            sleep_ops(last.sleep_ms),
        );
        law_write_data_delivers(hp, last.reg, last.params, mid);
        lemma_receive_sleep(idle_target(mid + write_data_frames(last.reg, last.params)), last.sleep_ms);
        assert(mid + write_data_frames(last.reg, last.params) =~= frames + steps_frames(steps));
    }
}

/// The power-on sequence on an idle bus delivers exactly the frames of its
/// register writes, in order, and leaves the bus idle.
pub proof fn law_init_display_delivers(hp: u32, frames: Seq<Seq<bool>>)
    ensures
        receive(idle_target(frames), steps_ops(hp, display_init_table())) == idle_target(
            frames + steps_frames(display_init_table()),
        ),
{
    law_steps_deliver(hp, display_init_table(), frames);
}

// ---- bus discipline -------------------------------------------------------

/// Checking two runs one after the other is checking their concatenation.
pub proof fn lemma_check_append(d: Discipline, a: Seq<BusOp>, b: Seq<BusOp>)
    ensures
        check_ops(d, a + b) == check_ops(check_ops(d, a), b),
    decreases b.len(),
{
    if b.len() == 0 {
        assert(a + b =~= a);
    } else {
        assert((a + b).drop_last() =~= a + b.drop_last());
        assert((a + b).last() == b.last());
        lemma_check_append(d, a, b.drop_last());
    }
}

proof fn lemma_check_one(d: Discipline, op: BusOp)
    ensures
        check_ops(d, seq![op]) == check_op(d, op),
{
    assert(seq![op].drop_last() =~= Seq::<BusOp>::empty());
    assert(check_ops(d, Seq::<BusOp>::empty()) == d);
}

proof fn lemma_check_delay(d: Discipline, hp: u32)
    ensures
        check_ops(d, delay_ops(hp)) == d,
{
    if hp != 0 {
        lemma_check_one(d, BusOp::DelayUs(hp));
    }
}

proof fn lemma_check_sleep(d: Discipline, ms: u32)
    ensures
        check_ops(d, sleep_ops(ms)) == d,
{
    if ms != 0 {
        lemma_check_one(d, BusOp::SleepMs(ms));
    }
}

proof fn lemma_check_clock_out(d: Discipline, hp: u32, b: bool)
    requires
        !d.levels.sck,
        !d.levels.cs,
    ensures
        check_ops(d, clock_out_ops(hp, b)) == (Discipline {
            levels: Levels { sck: false, cs: false, mosi: b },
            clock_highs: d.clock_highs + 1,
            ok: d.ok,
        }),
{
    let a = seq![BusOp::Drive(Line::Mosi, b)];
    let dl = delay_ops(hp);
    let s = seq![BusOp::Drive(Line::Sck, true)];
    let f = seq![BusOp::Drive(Line::Sck, false)];
    lemma_check_append(d, a + dl + s + dl, f);
    lemma_check_append(d, a + dl + s, dl);
    lemma_check_append(d, a + dl, s);
    lemma_check_append(d, a, dl);
    lemma_check_one(d, a[0]);
    let d1 = check_ops(d, a);
    lemma_check_delay(d1, hp);
    lemma_check_one(d1, s[0]);
    let d3 = check_ops(d1, s);
    lemma_check_delay(d3, hp);
    lemma_check_one(d3, f[0]);
}

proof fn lemma_check_shift(d: Discipline, hp: u32, v: u32, n: nat, k: nat)
    requires
        !d.levels.sck,
        !d.levels.cs,
    ensures
        ({
            let r = check_ops(d, shift_ops(hp, v, n, k));
            &&& !r.levels.sck
            &&& !r.levels.cs
            &&& r.clock_highs == d.clock_highs + k
            &&& r.ok == d.ok
        }),
    decreases k,
{
    if k > 0 {
        let prev = shift_ops(hp, v, n, (k - 1) as nat);
        let b = bit_of(v, (n - k) as u32);
        lemma_check_shift(d, hp, v, n, (k - 1) as nat);
        lemma_check_append(d, prev, clock_out_ops(hp, b));
        lemma_check_clock_out(check_ops(d, prev), hp, b);
    }
}

/// A `write_bits` transfer to a selected panel whose clock rests low drives
/// the clock high exactly once per bit, drives the data line only while the
/// clock is low, and leaves clock and data low and the panel selected.
pub proof fn law_write_bits_discipline(d: Discipline, hp: u32, value: u32, n: nat)
    requires
        !d.levels.sck,
        !d.levels.cs,
    ensures
        check_ops(d, write_bits_ops(hp, value, n)) == (Discipline {
            levels: Levels { sck: false, cs: false, mosi: false },
            clock_highs: d.clock_highs + n,
            ok: d.ok,
        }),
{
    let s = shift_ops(hp, value, n, n);
    lemma_check_shift(d, hp, value, n, n);
    lemma_check_append(d, s, seq![BusOp::Drive(Line::Mosi, false)]);
    lemma_check_one(check_ops(d, s), BusOp::Drive(Line::Mosi, false));
}

/// A framed 9-bit write on an idle bus keeps the discipline: exactly 9
/// clock-high drives between select and deselect, clock and data driven only
/// while selected, data only while the clock is low; the bus ends idle.
pub proof fn law_command_discipline(hp: u32, word: u32)
    ensures
        check_ops(idle_discipline(), command_ops(hp, word)) == idle_discipline(),
{
    let d = idle_discipline();
    let sel = seq![BusOp::Drive(Line::Cs, false)];
    let bits = write_bits_ops(hp, word, 9);
    let desel = seq![BusOp::Drive(Line::Cs, true)];
    lemma_check_append(d, sel + bits, desel);
    lemma_check_append(d, sel, bits);
    lemma_check_one(d, sel[0]);
    law_write_bits_discipline(check_ops(d, sel), hp, word, 9);
    lemma_check_one(check_ops(d, sel + bits), desel[0]);
}

proof fn lemma_params_discipline(hp: u32, params: Seq<u32>)
    ensures
        check_ops(idle_discipline(), params_ops(hp, params)) == idle_discipline(),
    decreases params.len(),
{
    if params.len() > 0 {
        let init = params.drop_last();
        lemma_params_discipline(hp, init);
        lemma_check_append(
            idle_discipline(),
            params_ops(hp, init),
            command_ops(hp, data_word(params.last())),
        );
        law_command_discipline(hp, data_word(params.last()));
    }
}

/// A register write on an idle bus keeps the discipline and ends idle.
pub proof fn law_write_data_discipline(hp: u32, reg: u32, params: Seq<u32>)
    ensures
        check_ops(idle_discipline(), write_data_ops(hp, reg, params)) == idle_discipline(),
{
    lemma_check_append(
        idle_discipline(),
        command_ops(hp, command_word(reg)),
        params_ops(hp, params),
    );
    law_command_discipline(hp, command_word(reg));
    lemma_params_discipline(hp, params);
}

/// A run of register writes and sleeps on an idle bus keeps the discipline
/// and ends idle.
pub proof fn law_steps_discipline(hp: u32, steps: Seq<InitStep>)
    ensures
        check_ops(idle_discipline(), steps_ops(hp, steps)) == idle_discipline(),
    decreases steps.len(),
{
    if steps.len() > 0 {
        let init = steps.drop_last();
        let last = steps.last();
        let d = idle_discipline();
        law_steps_discipline(hp, init);
        lemma_check_append(d, steps_ops(hp, init), step_ops(hp, last));
        lemma_check_append(
            d,
            write_data_ops(hp, last.reg, last.params),
            sleep_ops(last.sleep_ms),
        );
        law_write_data_discipline(hp, last.reg, last.params);
        lemma_check_sleep(d, last.sleep_ms);
    }
}

/// The power-on sequence, started on an idle bus, frames every transfer with
/// chip select around exactly 9 clock-high drives, drives clock and data only
/// while the panel is selected and data only while the clock is low, and
/// leaves the bus idle.
pub proof fn law_init_display_discipline(hp: u32)
    ensures
        check_ops(idle_discipline(), steps_ops(hp, display_init_table())) == idle_discipline(),
{
    law_steps_discipline(hp, display_init_table());
}

// ---- waits between clock edges ----------------------------------------------

/// Whether taking out the waits of `us` microseconds removes the waits of a
/// run made with half period `hp`.
pub open spec fn waits_gone(hp: u32, us: u32) -> bool {
    hp != 0 && hp == us
}

/// The half period that remains once the waits of `us` microseconds are out.
pub open spec fn remaining_half_period(hp: u32, us: u32) -> u32 {
    if waits_gone(hp, us) {
        0
    } else {
        hp
    }
}

/// Taking out waits and counting them both split over concatenation.
pub proof fn lemma_waits_append(a: Seq<BusOp>, b: Seq<BusOp>, us: u32)
    ensures
        without_waits(a + b, us) == without_waits(a, us) + without_waits(b, us),
        wait_count(a + b, us) == wait_count(a, us) + wait_count(b, us),
    decreases b.len(),
{
    if b.len() == 0 {
        assert(a + b =~= a);
        assert(without_waits(a, us) + without_waits(b, us) =~= without_waits(a, us));
    } else {
        assert((a + b).drop_last() =~= a + b.drop_last());
        assert((a + b).last() == b.last());
        lemma_waits_append(a, b.drop_last(), us);
        assert((without_waits(a, us) + without_waits(b.drop_last(), us)).push(b.last())
            =~= without_waits(a, us) + without_waits(b.drop_last(), us).push(b.last()));
    }
}

proof fn lemma_waits_one(op: BusOp, us: u32)
    ensures
        without_waits(seq![op], us) == if op == BusOp::DelayUs(us) {
            Seq::<BusOp>::empty()
        } else {
            seq![op]
        },
        wait_count(seq![op], us) == if op == BusOp::DelayUs(us) {
            1nat
        } else {
            0nat
        },
{
    let e = Seq::<BusOp>::empty();
    assert(seq![op].drop_last() =~= e);
    assert(seq![op].last() == op);
    assert(without_waits(e, us) == e);
    assert(wait_count(e, us) == 0);
    assert(e.push(op) =~= seq![op]);
}

proof fn lemma_waits_delay(hp: u32, us: u32)
    ensures
        without_waits(delay_ops(hp), us) == delay_ops(remaining_half_period(hp, us)),
        wait_count(delay_ops(hp), us) == if waits_gone(hp, us) {
            1nat
        } else {
            0nat
        },
{
    if hp != 0 {
        lemma_waits_one(BusOp::DelayUs(hp), us);
    }
}

proof fn lemma_waits_no_delay(ops: Seq<BusOp>, us: u32)
    requires
        forall|i: int| 0 <= i < ops.len() ==> !(#[trigger] ops[i] is DelayUs),
    ensures
        without_waits(ops, us) == ops,
        wait_count(ops, us) == 0,
    decreases ops.len(),
{
    if ops.len() > 0 {
        assert(!(ops[ops.len() - 1] is DelayUs));
        lemma_waits_no_delay(ops.drop_last(), us);
        assert(ops.drop_last().push(ops.last()) =~= ops);
    }
}

proof fn lemma_waits_clock_out(hp: u32, b: bool, us: u32)
    ensures
        without_waits(clock_out_ops(hp, b), us) == clock_out_ops(remaining_half_period(hp, us), b),
        wait_count(clock_out_ops(hp, b), us) == if waits_gone(hp, us) {
            2nat
        } else {
            0nat
        },
{
    let a = seq![BusOp::Drive(Line::Mosi, b)];
    let dl = delay_ops(hp);
    let s = seq![BusOp::Drive(Line::Sck, true)];
    let f = seq![BusOp::Drive(Line::Sck, false)];
    lemma_waits_append(a + dl + s + dl, f, us);
    lemma_waits_append(a + dl + s, dl, us);
    lemma_waits_append(a + dl, s, us);
    lemma_waits_append(a, dl, us);
    lemma_waits_one(a[0], us);
    lemma_waits_one(s[0], us);
    lemma_waits_one(f[0], us);
    lemma_waits_delay(hp, us);
}

proof fn lemma_waits_shift(hp: u32, v: u32, n: nat, k: nat, us: u32)
    ensures
        without_waits(shift_ops(hp, v, n, k), us) == shift_ops(remaining_half_period(hp, us), v, n, k),
        wait_count(shift_ops(hp, v, n, k), us) == if waits_gone(hp, us) {
            2 * k
        } else {
            0
        },
    decreases k,
{
    if k > 0 {
        let b = bit_of(v, (n - k) as u32);
        lemma_waits_shift(hp, v, n, (k - 1) as nat, us);
        lemma_waits_append(shift_ops(hp, v, n, (k - 1) as nat), clock_out_ops(hp, b), us);
        lemma_waits_clock_out(hp, b, us);
    } else {
        assert(without_waits(Seq::<BusOp>::empty(), us) == Seq::<BusOp>::empty());
    }
}

proof fn lemma_waits_command(hp: u32, word: u32, us: u32)
    ensures
        without_waits(command_ops(hp, word), us) == command_ops(remaining_half_period(hp, us), word),
        wait_count(command_ops(hp, word), us) == if waits_gone(hp, us) {
            18nat
        } else {
            0nat
        },
{
    let sel = seq![BusOp::Drive(Line::Cs, false)];
    let sh = shift_ops(hp, word, 9, 9);
    let m = seq![BusOp::Drive(Line::Mosi, false)];
    let desel = seq![BusOp::Drive(Line::Cs, true)];
    assert(command_ops(hp, word) =~= sel + sh + m + desel);
    assert(command_ops(remaining_half_period(hp, us), word) =~= sel + shift_ops(
        remaining_half_period(hp, us),
        word,
        9,
        9,
    ) + m + desel);
    lemma_waits_append(sel + sh + m, desel, us);
    lemma_waits_append(sel + sh, m, us);
    lemma_waits_append(sel, sh, us);
    lemma_waits_one(sel[0], us);
    lemma_waits_one(m[0], us);
    lemma_waits_one(desel[0], us);
    lemma_waits_shift(hp, word, 9, 9, us);
}

proof fn lemma_waits_params(hp: u32, params: Seq<u32>, us: u32)
    ensures
        without_waits(params_ops(hp, params), us) == params_ops(remaining_half_period(hp, us), params),
        wait_count(params_ops(hp, params), us) == if waits_gone(hp, us) {
            18 * params.len()
        } else {
            0
        },
    decreases params.len(),
{
    if params.len() > 0 {
        let init = params.drop_last();
        lemma_waits_params(hp, init, us);
        lemma_waits_append(params_ops(hp, init), command_ops(hp, data_word(params.last())), us);
        lemma_waits_command(hp, data_word(params.last()), us);
    } else {
        assert(without_waits(Seq::<BusOp>::empty(), us) == Seq::<BusOp>::empty());
    }
}

proof fn lemma_waits_write_data(hp: u32, reg: u32, params: Seq<u32>, us: u32)
    ensures
        without_waits(write_data_ops(hp, reg, params), us) == write_data_ops(
            remaining_half_period(hp, us),
            reg,
            params,
        ),
        wait_count(write_data_ops(hp, reg, params), us) == if waits_gone(hp, us) {
            18 * (1 + params.len())
        } else {
            0
        },
{
    lemma_waits_append(command_ops(hp, command_word(reg)), params_ops(hp, params), us);
    lemma_waits_command(hp, command_word(reg), us);
    lemma_waits_params(hp, params, us);
}

proof fn lemma_waits_steps(hp: u32, steps: Seq<InitStep>, us: u32)
    ensures
        without_waits(steps_ops(hp, steps), us) == steps_ops(remaining_half_period(hp, us), steps),
        wait_count(steps_ops(hp, steps), us) == if waits_gone(hp, us) {
            18 * steps_frames(steps).len()
        } else {
            0
        },
    decreases steps.len(),
{
    if steps.len() > 0 {
        let init = steps.drop_last();
        let last = steps.last();
        lemma_waits_steps(hp, init, us);
        lemma_waits_append(steps_ops(hp, init), step_ops(hp, last), us);
        lemma_waits_append(write_data_ops(hp, last.reg, last.params), sleep_ops(last.sleep_ms), us);
        lemma_waits_write_data(hp, last.reg, last.params, us);
        lemma_waits_no_delay(sleep_ops(last.sleep_ms), us);
        assert(write_data_frames(last.reg, last.params).len() == 1 + last.params.len());
    } else {
        assert(without_waits(Seq::<BusOp>::empty(), us) == Seq::<BusOp>::empty());
    }
}

/// A half period only adds waits: taking the waits of `hp` microseconds out
/// of a run of register writes made with half period `hp` leaves exactly the
/// run made without one, and there are two waits per bit, 9 bits per frame.
/// The run made without a half period has no waits at all.
pub proof fn law_half_period_only_adds_waits(hp: u32, steps: Seq<InitStep>, us: u32)
    ensures
        hp != 0 ==> without_waits(steps_ops(hp, steps), hp) == steps_ops(0, steps),
        hp != 0 ==> wait_count(steps_ops(hp, steps), hp) == 2 * 9 * steps_frames(steps).len(),
        wait_count(steps_ops(0, steps), us) == 0,
        without_waits(steps_ops(0, steps), us) == steps_ops(0, steps),
{
    lemma_waits_steps(hp, steps, hp);
    lemma_waits_steps(0, steps, us);
}

/// How many frames the first `k` steps write: one command frame and one
/// data frame per parameter each.
pub open spec fn frames_in_first(steps: Seq<InitStep>, k: nat) -> nat
    decreases k,
{
    if k == 0 {
        0
    } else {
        frames_in_first(steps, (k - 1) as nat) + 1 + steps[k - 1].params.len()
    }
}

proof fn lemma_frames_in_first(steps: Seq<InitStep>, k: nat)
    requires
        k <= steps.len(),
    ensures
        steps_frames(steps.take(k as int)).len() == frames_in_first(steps, k),
    decreases k,
{
    if k > 0 {
        lemma_frames_in_first(steps, (k - 1) as nat);
        let t = steps.take(k as int);
        assert(t.drop_last() =~= steps.take(k - 1));
        assert(t.last() == steps[k - 1]);
    }
}

/// The power-on sequence writes 237 frames; with a half period `hp` it holds
/// 4266 waits of `hp` microseconds (two per bit, 9 bits per frame) and,
/// those taken out, is exactly the sequence without a half period, which
/// holds no waits at all.
pub proof fn law_init_display_waits(hp: u32, us: u32)
    ensures
        steps_frames(display_init_table()).len() == 237,
        hp != 0 ==> without_waits(steps_ops(hp, display_init_table()), hp) == steps_ops(
            0,
            display_init_table(),
        ),
        hp != 0 ==> wait_count(steps_ops(hp, display_init_table()), hp) == 4266,
        wait_count(steps_ops(0, display_init_table()), us) == 0,
{
    let table = display_init_table();
    lemma_frames_in_first(table, 44);
    assert(table.take(44) =~= table);
    lemma_init_frame_count();
    law_half_period_only_adds_waits(hp, table, us);
}

proof fn lemma_init_frame_count()
    ensures
        frames_in_first(display_init_table(), 44) == 237,
{
    let table = display_init_table();
    assert(table.len() == 44);
    assert(table[0].params.len() == 5);
    assert(frames_in_first(table, 0) == 0);
    assert(frames_in_first(table, 1) == 6);
    assert(frames_in_first(table, 2) == 8);
    assert(frames_in_first(table, 3) == 14);
    assert(frames_in_first(table, 4) == 17);
    assert(frames_in_first(table, 5) == 20);
    assert(frames_in_first(table, 6) == 23);
    assert(frames_in_first(table, 7) == 25);
    assert(frames_in_first(table, 8) == 42);
    assert(frames_in_first(table, 9) == 59);
    assert(frames_in_first(table, 10) == 61);
    assert(frames_in_first(table, 11) == 67);
    assert(frames_in_first(table, 12) == 69);
    assert(frames_in_first(table, 13) == 71);
    assert(frames_in_first(table, 14) == 73);
    assert(frames_in_first(table, 15) == 75);
    assert(frames_in_first(table, 16) == 77);
    assert(frames_in_first(table, 17) == 79);
    assert(frames_in_first(table, 18) == 81);
    assert(frames_in_first(table, 19) == 83);
    assert(frames_in_first(table, 20) == 85);
    assert(frames_in_first(table, 21) == 89);
    assert(frames_in_first(table, 22) == 101);
    assert(frames_in_first(table, 23) == 115);
    assert(frames_in_first(table, 24) == 120);
    assert(frames_in_first(table, 25) == 123);
    assert(frames_in_first(table, 26) == 140);
    assert(frames_in_first(table, 27) == 145);
    assert(frames_in_first(table, 28) == 148);
    assert(frames_in_first(table, 29) == 165);
    assert(frames_in_first(table, 30) == 173);
    assert(frames_in_first(table, 31) == 190);
    assert(frames_in_first(table, 32) == 197);
    assert(frames_in_first(table, 33) == 203);
    assert(frames_in_first(table, 34) == 206);
    assert(frames_in_first(table, 35) == 212);
    assert(frames_in_first(table, 36) == 213);
    assert(frames_in_first(table, 37) == 215);
    assert(frames_in_first(table, 38) == 217);
    assert(frames_in_first(table, 39) == 219);
    assert(frames_in_first(table, 40) == 225);
    assert(frames_in_first(table, 41) == 228);
    assert(frames_in_first(table, 42) == 231);
    assert(frames_in_first(table, 43) == 236);
    assert(frames_in_first(table, 44) == 237);
}

} // verus!
