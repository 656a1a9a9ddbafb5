//! The panel's power-on register sequence.

use vstd::prelude::*;
use crate::expander_spi::ExpanderSpi;
use crate::wire::{idle_levels, write_data_frames, write_data_ops, BusOp};

verus! {

/// One step of the power-on sequence, as a value: the register, its
/// parameter bytes, and how long to sleep afterwards (0: not at all).
#[verifier::ext_equal]
pub struct InitStep {
    pub reg: u32,
    pub params: Seq<u32>,
    pub sleep_ms: u32,
}

/// One step of the power-on sequence: write `params` to register `reg`, then
/// sleep `sleep_ms` milliseconds (0: not at all).
pub struct InitCommand {
    pub reg: u32,
    pub params: Vec<u32>,
    pub sleep_ms: u32,
}

impl View for InitCommand {
    type V = InitStep;

    open spec fn view(&self) -> InitStep {
        InitStep { reg: self.reg, params: self.params@, sleep_ms: self.sleep_ms }
    }
}

/// The sleep after a step: none when it is zero milliseconds.
pub open spec fn sleep_ops(ms: u32) -> Seq<BusOp> {
    if ms == 0 {
        Seq::empty()
    } else {
        seq![BusOp::SleepMs(ms)]
    }
}

/// The operations of one step: the register write, then the sleep.
pub open spec fn step_ops(half_period_us: u32, step: InitStep) -> Seq<BusOp> {
    write_data_ops(half_period_us, step.reg, step.params) + sleep_ops(step.sleep_ms)
}

/// The operations of a run of steps, in order.
pub open spec fn steps_ops(half_period_us: u32, steps: Seq<InitStep>) -> Seq<BusOp>
    decreases steps.len(),
{
    if steps.len() == 0 {
        Seq::empty()
    } else {
        steps_ops(half_period_us, steps.drop_last()) + step_ops(half_period_us, steps.last())
    }
}

/// The frames a run of steps delivers, in order.
pub open spec fn steps_frames(steps: Seq<InitStep>) -> Seq<Seq<bool>>
    decreases steps.len(),
{
    if steps.len() == 0 {
        Seq::empty()
    } else {
        steps_frames(steps.drop_last()) + write_data_frames(steps.last().reg, steps.last().params)
    }
}

/// A step as a value.
pub open spec fn step(reg: u32, params: Seq<u32>, sleep_ms: u32) -> InitStep {
    InitStep { reg, params, sleep_ms }
}

/// The power-on register sequence of the panel.
pub open spec fn display_init_table() -> Seq<InitStep> {
    seq![
        step(0xFF, seq![0x77, 0x01, 0x00, 0x00, 0x13], 0),
        step(0xEF, seq![0x08], 0),
        step(0xFF, seq![0x77, 0x01, 0x00, 0x00, 0x10], 0),
        step(0xC0, seq![0x3B, 0x00], 0),
        step(0xC1, seq![0x0B, 0x02], 0),
        step(0xC2, seq![0x00, 0x02], 0),
        step(0xCC, seq![0x10], 0),
        step(0xB0, seq![0x00, 0x1D, 0x29, 0x12, 0x17, 0x0B, 0x18, 0x09, 0x08, 0x2A, 0x07, 0x14, 0x11, 0x27, 0x32, 0x1F], 0),
        step(0xB1, seq![0x00, 0x1D, 0x29, 0x12, 0x16, 0x0A, 0x18, 0x08, 0x09, 0x2A, 0x07, 0x13, 0x12, 0x27, 0x33, 0x1F], 0),
        step(0xD0, seq![0x88], 0),
        step(0xFF, seq![0x77, 0x01, 0x00, 0x00, 0x11], 0),
        step(0xB0, seq![0x9D], 0),
        step(0xB1, seq![0x24], 0),
        step(0xB2, seq![0x81], 0),
        step(0xB3, seq![0x80], 0),
        step(0xB5, seq![0x43], 0),
        step(0xB7, seq![0x85], 0),
        step(0xB8, seq![0x20], 0),
        step(0xC1, seq![0x78], 0),
        step(0xC2, seq![0x78], 0),
        step(0xE0, seq![0x00, 0x00, 0x02], 0),
        step(0xE1, seq![0x03, 0xA0, 0x00, 0x00, 0x04, 0xA0, 0x00, 0x00, 0x00, 0x20, 0x20], 0),
        step(0xE2, seq![0x00, 0x00, 0x00, 0x00, 0x00, 0x00, 0x00, 0x00, 0x00, 0x00, 0x00, 0x00, 0x00], 0),
        step(0xE3, seq![0x00, 0x00, 0x11, 0x00], 0),
        step(0xE4, seq![0x22, 0x00], 0),
        step(0xE5, seq![0x05, 0xEC, 0xA0, 0xA0, 0x07, 0xEE, 0xA0, 0xA0, 0x00, 0x00, 0x00, 0x00, 0x00, 0x00, 0x00, 0x00], 0),
        step(0xE6, seq![0x00, 0x00, 0x11, 0x00], 0),
        step(0xE7, seq![0x22, 0x00], 0),
        step(0xE8, seq![0x06, 0xED, 0xA0, 0xA0, 0x08, 0xEF, 0xA0, 0xA0, 0x00, 0x00, 0x00, 0x00, 0x00, 0x00, 0x00, 0x00], 0),
        step(0xEB, seq![0x00, 0x00, 0x40, 0x40, 0x00, 0x00, 0x00], 0),
        step(0xED, seq![0xFF, 0xFF, 0xFF, 0xBA, 0x0A, 0xBF, 0x45, 0xFF, 0xFF, 0x54, 0xFB, 0xA0, 0xAB, 0xFF, 0xFF, 0xFF], 0),
        step(0xEF, seq![0x10, 0x0D, 0x04, 0x08, 0x3F, 0x1F], 0),
        step(0xFF, seq![0x77, 0x01, 0x00, 0x00, 0x13], 0),
        step(0xE8, seq![0x00, 0x0E], 0),
        step(0xFF, seq![0x77, 0x01, 0x00, 0x00, 0x00], 0),
        step(0x11, seq![], 0),
        step(0xCD, seq![0x08], 0),
        step(0x36, seq![0x08], 0),
        step(0x3A, seq![0x66], 120),
        step(0xFF, seq![0x77, 0x01, 0x00, 0x00, 0x13], 0),
        step(0xE8, seq![0x00, 0x0C], 10),
        step(0xE8, seq![0x00, 0x00], 0),
        step(0xFF, seq![0x77, 0x01, 0x00, 0x00], 0),
        step(0x29, seq![], 20),
    ]
}

fn command(reg: u32, params: Vec<u32>, sleep_ms: u32) -> (c: InitCommand)
    ensures
        c@ == step(reg, params@, sleep_ms),
{
    InitCommand { reg, params, sleep_ms }
}

/// The power-on register sequence of the panel, in order.
pub fn display_init_commands() -> (cmds: Vec<InitCommand>)
    ensures
        cmds@.map_values(|c: InitCommand| c@) == display_init_table(),
{
    let mut cmds: Vec<InitCommand> = Vec::new();
    cmds.push(command(0xFF, vec![0x77, 0x01, 0x00, 0x00, 0x13], 0));
    cmds.push(command(0xEF, vec![0x08], 0));
    cmds.push(command(0xFF, vec![0x77, 0x01, 0x00, 0x00, 0x10], 0));
    cmds.push(command(0xC0, vec![0x3B, 0x00], 0));
    cmds.push(command(0xC1, vec![0x0B, 0x02], 0));
    cmds.push(command(0xC2, vec![0x00, 0x02], 0));
    cmds.push(command(0xCC, vec![0x10], 0));
    cmds.push(command(0xB0, vec![0x00, 0x1D, 0x29, 0x12, 0x17, 0x0B, 0x18, 0x09, 0x08, 0x2A, 0x07, 0x14, 0x11, 0x27, 0x32, 0x1F], 0));
    cmds.push(command(0xB1, vec![0x00, 0x1D, 0x29, 0x12, 0x16, 0x0A, 0x18, 0x08, 0x09, 0x2A, 0x07, 0x13, 0x12, 0x27, 0x33, 0x1F], 0));
    cmds.push(command(0xD0, vec![0x88], 0));
    cmds.push(command(0xFF, vec![0x77, 0x01, 0x00, 0x00, 0x11], 0));
    cmds.push(command(0xB0, vec![0x9D], 0));
    cmds.push(command(0xB1, vec![0x24], 0));
    cmds.push(command(0xB2, vec![0x81], 0));
    cmds.push(command(0xB3, vec![0x80], 0));
    cmds.push(command(0xB5, vec![0x43], 0));
    cmds.push(command(0xB7, vec![0x85], 0));
    cmds.push(command(0xB8, vec![0x20], 0));
    cmds.push(command(0xC1, vec![0x78], 0));
    cmds.push(command(0xC2, vec![0x78], 0));
    cmds.push(command(0xE0, vec![0x00, 0x00, 0x02], 0));
    cmds.push(command(0xE1, vec![0x03, 0xA0, 0x00, 0x00, 0x04, 0xA0, 0x00, 0x00, 0x00, 0x20, 0x20], 0));
    cmds.push(command(0xE2, vec![0x00, 0x00, 0x00, 0x00, 0x00, 0x00, 0x00, 0x00, 0x00, 0x00, 0x00, 0x00, 0x00], 0));
    cmds.push(command(0xE3, vec![0x00, 0x00, 0x11, 0x00], 0));
    cmds.push(command(0xE4, vec![0x22, 0x00], 0));
    cmds.push(command(0xE5, vec![0x05, 0xEC, 0xA0, 0xA0, 0x07, 0xEE, 0xA0, 0xA0, 0x00, 0x00, 0x00, 0x00, 0x00, 0x00, 0x00, 0x00], 0));
    cmds.push(command(0xE6, vec![0x00, 0x00, 0x11, 0x00], 0));
    cmds.push(command(0xE7, vec![0x22, 0x00], 0));
    cmds.push(command(0xE8, vec![0x06, 0xED, 0xA0, 0xA0, 0x08, 0xEF, 0xA0, 0xA0, 0x00, 0x00, 0x00, 0x00, 0x00, 0x00, 0x00, 0x00], 0));
    cmds.push(command(0xEB, vec![0x00, 0x00, 0x40, 0x40, 0x00, 0x00, 0x00], 0));
    cmds.push(command(0xED, vec![0xFF, 0xFF, 0xFF, 0xBA, 0x0A, 0xBF, 0x45, 0xFF, 0xFF, 0x54, 0xFB, 0xA0, 0xAB, 0xFF, 0xFF, 0xFF], 0));
    cmds.push(command(0xEF, vec![0x10, 0x0D, 0x04, 0x08, 0x3F, 0x1F], 0));
    cmds.push(command(0xFF, vec![0x77, 0x01, 0x00, 0x00, 0x13], 0));
    cmds.push(command(0xE8, vec![0x00, 0x0E], 0));
    cmds.push(command(0xFF, vec![0x77, 0x01, 0x00, 0x00, 0x00], 0));
    cmds.push(command(0x11, vec![], 0));
    cmds.push(command(0xCD, vec![0x08], 0));
    cmds.push(command(0x36, vec![0x08], 0));
    cmds.push(command(0x3A, vec![0x66], 120));
    cmds.push(command(0xFF, vec![0x77, 0x01, 0x00, 0x00, 0x13], 0));
    cmds.push(command(0xE8, vec![0x00, 0x0C], 10));
    cmds.push(command(0xE8, vec![0x00, 0x00], 0));
    cmds.push(command(0xFF, vec![0x77, 0x01, 0x00, 0x00], 0));
    cmds.push(command(0x29, vec![], 20));
    assert(cmds@.map_values(|c: InitCommand| c@) =~~= display_init_table());
    cmds
}

/// Runs the panel's power-on register sequence: each register write of
/// `display_init_table`, in order, each followed by its sleep.
pub fn init_display(spi: &mut ExpanderSpi)
    ensures
        final(spi).half_period() == old(spi).half_period(),
        final(spi).pending() == old(spi).pending() + steps_ops(
            old(spi).half_period(),
            display_init_table(),
        ),
        final(spi).levels() == idle_levels(),
{
    let ghost p0 = spi.pending();
    let ghost hp = spi.half_period();
    let ghost table = display_init_table();
    let cmds = display_init_commands();
    assert(cmds@.len() == table.len());
    let mut i: usize = 0;
    while i < cmds.len()
        invariant
            i <= cmds.len(),
            table == display_init_table(),
            cmds@.map_values(|c: InitCommand| c@) == table,
            spi.half_period() == hp,
            spi.pending() == p0 + steps_ops(hp, table.take(i as int)),
            i > 0 ==> spi.levels() == idle_levels(),
        decreases cmds.len() - i,
    {
        let cmd = &cmds[i];
        assert(cmd@ == table[i as int]);
        spi.write_data(cmd.reg, cmd.params.as_slice());
        if cmd.sleep_ms != 0 {
            spi.sleep_ms(cmd.sleep_ms);
        }
        proof {
            let taken = table.take((i + 1) as int);
            assert(taken.drop_last() =~= table.take(i as int));
            assert(taken.last() == table[i as int]);
            assert(spi.pending() =~= p0 + steps_ops(hp, taken));
        }
        i = i + 1;
    }
    assert(table.take(cmds.len() as int) =~= table);
}

} // verus!
