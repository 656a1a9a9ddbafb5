//! Clock timing: with a half period, every rising clock edge comes a half
//! period after the data line was set and a half period before the clock
//! falls again, and no other waits occur; without one, the clock runs with
//! no waits at all.

use vstd::prelude::*;
use crate::display_init::{display_init_table, sleep_ops, step_ops, steps_ops, InitStep};
use crate::wire::{
    bit_of, clock_out_ops, command_ops, command_word, data_word, params_ops, shift_ops,
    write_bits_ops, write_data_ops, BusOp, Line,
};

verus! {

/// Whether an operation drives the data line.
pub open spec fn is_data_drive(op: BusOp) -> bool {
    op matches BusOp::Drive(Line::Mosi, _)
}

/// The timing rules at position `i`, for half period `hp`:
/// - a rising clock edge comes right after the data line was set, with a wait
///   of `hp` in between when `hp` is not 0, and is followed, after a wait of
///   `hp` when `hp` is not 0, by the falling edge;
/// - every wait sits right before or right after a rising clock edge.
pub open spec fn paced_at(ops: Seq<BusOp>, i: int, hp: u32) -> bool {
    let g: int = if hp == 0 {
        0
    } else {
        1
    };
    &&& ops[i] == BusOp::Drive(Line::Sck, true) ==> {
        &&& 1 + g <= i
        &&& i + 1 + g < ops.len()
        &&& is_data_drive(ops[i - 1 - g])
        &&& hp != 0 ==> ops[i - 1] == BusOp::DelayUs(hp)
        &&& hp != 0 ==> ops[i + 1] == BusOp::DelayUs(hp)
        &&& ops[i + 1 + g] == BusOp::Drive(Line::Sck, false)
    }
    &&& ops[i] is DelayUs ==> {
        ||| i + 1 < ops.len() && ops[i + 1] == BusOp::Drive(Line::Sck, true)
        ||| 1 <= i && ops[i - 1] == BusOp::Drive(Line::Sck, true)
    }
}

/// The timing rules hold all along a run of operations.
pub open spec fn edges_paced(ops: Seq<BusOp>, hp: u32) -> bool {
    forall|i: int| 0 <= i < ops.len() ==> #[trigger] paced_at(ops, i, hp)
}

/// Two runs that each keep the timing rules keep them one after the other.
pub proof fn lemma_paced_append(a: Seq<BusOp>, b: Seq<BusOp>, hp: u32)
    requires
        edges_paced(a, hp),
        edges_paced(b, hp),
    ensures
        edges_paced(a + b, hp),
{
    assert forall|i: int| 0 <= i < (a + b).len() implies #[trigger] paced_at(a + b, i, hp) by {
        if i < a.len() {
            assert(paced_at(a, i, hp));
        } else {
            assert(paced_at(b, i - a.len(), hp));
        }
    }
}

/// A run with no rising clock edge and no wait keeps the timing rules.
proof fn lemma_paced_quiet(ops: Seq<BusOp>, hp: u32)
    requires
        forall|i: int|
            0 <= i < ops.len() ==> #[trigger] ops[i] != BusOp::Drive(Line::Sck, true) && !(
            ops[i] is DelayUs),
    ensures
        edges_paced(ops, hp),
{
    assert forall|i: int| 0 <= i < ops.len() implies #[trigger] paced_at(ops, i, hp) by {
        assert(ops[i] != BusOp::Drive(Line::Sck, true));
    }
}

proof fn lemma_paced_one(op: BusOp, hp: u32)
    requires
        op != BusOp::Drive(Line::Sck, true),
        !(op is DelayUs),
    ensures
        edges_paced(seq![op], hp),
{
    lemma_paced_quiet(seq![op], hp);
}

proof fn lemma_paced_clock_out(hp: u32, b: bool)
    ensures
        edges_paced(clock_out_ops(hp, b), hp),
{
    let ops = clock_out_ops(hp, b);
    let m = BusOp::Drive(Line::Mosi, b);
    let r = BusOp::Drive(Line::Sck, true);
    let f = BusOp::Drive(Line::Sck, false);
    if hp == 0 {
        assert(ops =~= seq![m, r, f]);
        assert forall|i: int| 0 <= i < ops.len() implies #[trigger] paced_at(ops, i, hp) by {
            assert(i == 0 || i == 1 || i == 2);
        }
    } else {
        let d = BusOp::DelayUs(hp);
        assert(ops =~= seq![m, d, r, d, f]);
        assert forall|i: int| 0 <= i < ops.len() implies #[trigger] paced_at(ops, i, hp) by {
            assert(i == 0 || i == 1 || i == 2 || i == 3 || i == 4);
        }
    }
}

proof fn lemma_paced_shift(hp: u32, v: u32, n: nat, k: nat)
    ensures
        edges_paced(shift_ops(hp, v, n, k), hp),
    decreases k,
{
    if k == 0 {
        lemma_paced_quiet(Seq::empty(), hp);
    } else {
        lemma_paced_shift(hp, v, n, (k - 1) as nat);
        lemma_paced_clock_out(hp, bit_of(v, (n - k) as u32));
        lemma_paced_append(
            shift_ops(hp, v, n, (k - 1) as nat),
            clock_out_ops(hp, bit_of(v, (n - k) as u32)),
            hp,
        );
    }
}

/// Every rising clock edge of a `write_bits` transfer comes right after the
/// data line was set, a half period later when there is one, and is followed
/// by the falling edge a half period later; there are no other waits, and
/// none at all without a half period.
pub proof fn law_write_bits_paced(hp: u32, value: u32, n: nat)
    ensures
        edges_paced(write_bits_ops(hp, value, n), hp),
{
    lemma_paced_shift(hp, value, n, n);
    lemma_paced_one(BusOp::Drive(Line::Mosi, false), hp);
    lemma_paced_append(shift_ops(hp, value, n, n), seq![BusOp::Drive(Line::Mosi, false)], hp);
}

/// The timing rules of `law_write_bits_paced` hold over a framed 9-bit write.
pub proof fn law_command_paced(hp: u32, word: u32)
    ensures
        edges_paced(command_ops(hp, word), hp),
{
    let sel = seq![BusOp::Drive(Line::Cs, false)];
    let desel = seq![BusOp::Drive(Line::Cs, true)];
    lemma_paced_one(sel[0], hp);
    lemma_paced_one(desel[0], hp);
    law_write_bits_paced(hp, word, 9);
    lemma_paced_append(sel, write_bits_ops(hp, word, 9), hp);
    lemma_paced_append(sel + write_bits_ops(hp, word, 9), desel, hp);
}

proof fn lemma_paced_params(hp: u32, params: Seq<u32>)
    ensures
        edges_paced(params_ops(hp, params), hp),
    decreases params.len(),
{
    if params.len() == 0 {
        lemma_paced_quiet(Seq::empty(), hp);
    } else {
        lemma_paced_params(hp, params.drop_last());
        law_command_paced(hp, data_word(params.last()));
        lemma_paced_append(
            params_ops(hp, params.drop_last()),
            command_ops(hp, data_word(params.last())),
            hp,
        );
    }
}

/// The timing rules of `law_write_bits_paced` hold over a register write:
/// every frame, command and data alike, is clocked at the half period.
pub proof fn law_write_data_paced(hp: u32, reg: u32, params: Seq<u32>)
    ensures
        edges_paced(write_data_ops(hp, reg, params), hp),
{
    law_command_paced(hp, command_word(reg));
    lemma_paced_params(hp, params);
    lemma_paced_append(command_ops(hp, command_word(reg)), params_ops(hp, params), hp);
}

proof fn lemma_paced_steps(hp: u32, steps: Seq<InitStep>)
    ensures
        edges_paced(steps_ops(hp, steps), hp),
    decreases steps.len(),
{
    if steps.len() == 0 {
        lemma_paced_quiet(Seq::empty(), hp);
    } else {
        let last = steps.last();
        lemma_paced_steps(hp, steps.drop_last());
        law_write_data_paced(hp, last.reg, last.params);
        if last.sleep_ms == 0 {
            lemma_paced_quiet(sleep_ops(last.sleep_ms), hp);
        } else {
            lemma_paced_one(BusOp::SleepMs(last.sleep_ms), hp);
        }
        lemma_paced_append(
            write_data_ops(hp, last.reg, last.params),
            sleep_ops(last.sleep_ms),
            hp,
        );
        lemma_paced_append(steps_ops(hp, steps.drop_last()), step_ops(hp, last), hp);
    }
}

/// The timing rules of `law_write_bits_paced` hold over the whole power-on
/// sequence.
pub proof fn law_init_display_paced(hp: u32)
    ensures
        edges_paced(steps_ops(hp, display_init_table()), hp),
{
    lemma_paced_steps(hp, display_init_table());
}

} // verus!
