//! Bit-banged SPI (mode 0, MSB-first) over port-expander pins.
//!
//! The driver decides, the pins act: every method appends the exact bus
//! operations it stands for to a queue, and the code that owns the pins hands
//! them out in order with `take_ops`.

use vstd::prelude::*;
use crate::wire::{
    apply_op, bit_of, clock_out_ops, command_ops, command_word, data_word, delay_ops, idle_levels,
    params_ops, shift_ops, write_bits_ops, write_data_ops, BusOp, Levels, Line,
};

verus! {

/// Bit-banged SPI over port-expander pins (mode 0, MSB-first).
pub struct ExpanderSpi {
    half_period_us: u32,
    levels: Ghost<Levels>,
    pending: Vec<BusOp>,
}

impl ExpanderSpi {
    /// The delay between clock edges, in microseconds (0: none).
    pub closed spec fn half_period(&self) -> u32 {
        self.half_period_us
    }

    /// The level of each line once every operation issued so far has run.
    pub closed spec fn levels(&self) -> Levels {
        self.levels@
    }

    /// The operations issued and not yet handed out, oldest first.
    pub closed spec fn pending(&self) -> Seq<BusOp> {
        self.pending@
    }

    fn push_op(&mut self, op: BusOp)
        ensures
            final(self).half_period_us == old(self).half_period_us,
            final(self).pending@ == old(self).pending@.push(op),
            final(self).levels@ == apply_op(old(self).levels@, op),
    {
        self.pending.push(op);
        proof {
            self.levels@ = apply_op(self.levels@, op);
        }
    }

    /// Takes the bus over and puts it in its idle state: SCK low, CS high,
    /// MOSI low. `half_period_us` is the delay between edges; 0 means as fast
    /// as the pins allow.
    pub fn new(half_period_us: u32) -> (spi: Self)
        ensures
            spi.half_period() == half_period_us,
            spi.pending() == seq![
                BusOp::Drive(Line::Sck, false),
                BusOp::Drive(Line::Cs, true),
                BusOp::Drive(Line::Mosi, false),
            ],
            spi.levels() == idle_levels(),
    {
        let mut pending: Vec<BusOp> = Vec::new();
        pending.push(BusOp::Drive(Line::Sck, false));
        pending.push(BusOp::Drive(Line::Cs, true));
        pending.push(BusOp::Drive(Line::Mosi, false));
        ExpanderSpi { half_period_us, levels: Ghost(idle_levels()), pending }
    }

    /// Changes the delay between clock edges.
    pub fn set_half_period_us(&mut self, hp: u32)
        ensures
            final(self).half_period() == hp,
            final(self).pending() == old(self).pending(),
            final(self).levels() == old(self).levels(),
    {
        self.half_period_us = hp;
    }

    /// Selects the panel (CS low).
    pub fn set_cs_low(&mut self)
        ensures
            final(self).half_period() == old(self).half_period(),
            final(self).pending() == old(self).pending().push(BusOp::Drive(Line::Cs, false)),
            final(self).levels() == (Levels { cs: false, ..old(self).levels() }),
    {
        self.push_op(BusOp::Drive(Line::Cs, false));
    }

    /// Deselects the panel (CS high).
    pub fn set_cs_high(&mut self)
        ensures
            final(self).half_period() == old(self).half_period(),
            final(self).pending() == old(self).pending().push(BusOp::Drive(Line::Cs, true)),
            final(self).levels() == (Levels { cs: true, ..old(self).levels() }),
    {
        self.push_op(BusOp::Drive(Line::Cs, true));
    }

    /// Queues a task sleep of `ms` milliseconds, in order with the bus
    /// operations.
    pub fn sleep_ms(&mut self, ms: u32)
        ensures
            final(self).half_period() == old(self).half_period(),
            final(self).pending() == old(self).pending().push(BusOp::SleepMs(ms)),
            final(self).levels() == old(self).levels(),
    {
        self.push_op(BusOp::SleepMs(ms));
    }

    fn edge_delay(&mut self)
        ensures
            final(self).half_period_us == old(self).half_period_us,
            final(self).pending@ == old(self).pending@ + delay_ops(old(self).half_period_us),
            final(self).levels@ == old(self).levels@,
    {
        if self.half_period_us != 0 {
            self.push_op(BusOp::DelayUs(self.half_period_us));
        } else {
            assert(self.pending@ + delay_ops(self.half_period_us) =~= self.pending@);
        }
    }

    /// Writes the low `nbits` (1..=32) bits of `value`, MSB-first. SPI mode 0:
    /// each bit is on MOSI before the rising clock edge that latches it, the
    /// clock returns low after each bit, and MOSI ends low. Outside 1..=32:
    /// 0 bits only drives MOSI low, and bit positions from 32 up wrap modulo
    /// 32, as the shift of a `u32` does.
    pub fn write_bits(&mut self, value: u32, nbits: u8)
        ensures
            final(self).half_period() == old(self).half_period(),
            final(self).pending() == old(self).pending() + write_bits_ops(
                old(self).half_period(),
                value,
                nbits as nat,
            ),
            final(self).levels() == (Levels {
                sck: old(self).levels().sck && nbits == 0,
                mosi: false,
                cs: old(self).levels().cs,
            }),
    {
        let ghost p0 = self.pending@;
        let ghost l0 = self.levels@;
        let ghost hp = self.half_period_us;
        let ghost n = nbits as nat;
        let mut k: u8 = 0;
        while k < nbits
            invariant
                k <= nbits,
                n == nbits as nat,
                self.half_period_us == hp,
                self.pending@ == p0 + shift_ops(hp, value, n, k as nat),
                self.levels@.cs == l0.cs,
                k > 0 ==> !self.levels@.sck,
                k == 0 ==> self.levels@.sck == l0.sck,
            decreases nbits - k,
        {
            let i: u8 = nbits - 1 - k;
            let shifted: u32 = value >> ((i as u32) % 32);
            let bit_is_one = (shifted & 1) != 0;
            proof {
                assert((shifted & 1u32) != 0u32 <==> (shifted & 1u32) == 1u32) by (bit_vector);
                assert((n - (k + 1)) as u32 == i as u32);
                assert(bit_is_one == bit_of(value, (n - (k + 1)) as u32));
            }
            let ghost before = self.pending@;
            self.push_op(BusOp::Drive(Line::Mosi, bit_is_one));
            self.edge_delay();
            self.push_op(BusOp::Drive(Line::Sck, true));
            self.edge_delay();
            self.push_op(BusOp::Drive(Line::Sck, false));
            proof {
                assert(self.pending@ =~= before + clock_out_ops(hp, bit_is_one));
                assert(shift_ops(hp, value, n, (k + 1) as nat) == shift_ops(hp, value, n, k as nat)
                    + clock_out_ops(hp, bit_of(value, (n - (k + 1)) as u32)));
                assert(self.pending@ =~= p0 + shift_ops(hp, value, n, (k + 1) as nat));
            }
            k = k + 1;
        }
        self.push_op(BusOp::Drive(Line::Mosi, false));
        assert(self.pending@ =~= p0 + write_bits_ops(hp, value, n));
    }

    /// Writes one raw 9-bit word framed by chip select: CS low, the 9 bits,
    /// CS high. Bit 8 is the D/C flag (0 = command, 1 = data).
    pub fn write_command(&mut self, by: u32)
        ensures
            final(self).half_period() == old(self).half_period(),
            final(self).pending() == old(self).pending() + command_ops(old(self).half_period(), by),
            final(self).levels() == (Levels { sck: false, cs: true, mosi: false }),
    {
        let ghost p0 = self.pending@;
        let ghost hp = self.half_period_us;
        self.set_cs_low();
        self.write_bits(by, 9);
        self.set_cs_high();
        assert(self.pending@ =~= p0 + command_ops(hp, by));
    }

    /// Sends a command byte (D/C = 0, payload `reg[7:0]`) followed by each
    /// parameter byte (D/C = 1, payload `b[7:0]`), one frame each.
    pub fn write_data(&mut self, reg: u32, bytes: &[u32])
        ensures
            final(self).half_period() == old(self).half_period(),
            final(self).pending() == old(self).pending() + write_data_ops(
                old(self).half_period(),
                reg,
                bytes@,
            ),
            final(self).levels() == (Levels { sck: false, cs: true, mosi: false }),
    {
        let ghost p0 = self.pending@;
        let ghost hp = self.half_period_us;
        self.write_command(reg & 0xFF);
        let mut i: usize = 0;
        while i < bytes.len()
            invariant
                i <= bytes.len(),
                self.half_period_us == hp,
                self.pending@ == p0 + command_ops(hp, command_word(reg)) + params_ops(
                    hp,
                    bytes@.take(i as int),
                ),
                self.levels@ == (Levels { sck: false, cs: true, mosi: false }),
            decreases bytes.len() - i,
        {
            let ghost before = self.pending@;
            let b = bytes[i];
            self.write_command((b & 0xFF) | 0x100);
            proof {
                let taken = bytes@.take((i + 1) as int);
                assert(taken.drop_last() =~= bytes@.take(i as int));
                assert(taken.last() == b);
                assert(params_ops(hp, taken) == params_ops(hp, bytes@.take(i as int)) + command_ops(
                    hp,
                    data_word(b),
                ));
                assert(self.pending@ =~= p0 + command_ops(hp, command_word(reg)) + params_ops(
                    hp,
                    taken,
                ));
            }
            i = i + 1;
        }
        assert(bytes@.take(bytes.len() as int) =~= bytes@);
        assert(self.pending@ =~= p0 + write_data_ops(hp, reg, bytes@));
    }

    /// Hands out the oldest operation not yet handed out, if there is one.
    pub fn next_op(&mut self) -> (op: Option<BusOp>)
        ensures
            old(self).pending().len() == 0 ==> op is None,
            old(self).pending().len() == 0 ==> final(self).pending() == old(self).pending(),
            old(self).pending().len() > 0 ==> op == Some(old(self).pending()[0]),
            old(self).pending().len() > 0 ==> final(self).pending() == old(self).pending().drop_first(),
            final(self).half_period() == old(self).half_period(),
            final(self).levels() == old(self).levels(),
    {
        if self.pending.len() == 0 {
            None
        } else {
            let ghost before = self.pending@;
            let op = self.pending.remove(0);
            assert(self.pending@ =~= before.drop_first());
            Some(op)
        }
    }

    /// Hands out the operations issued so far, oldest first, and forgets them.
    pub fn take_ops(&mut self) -> (ops: Vec<BusOp>)
        ensures
            ops@ == old(self).pending(),
            final(self).pending() == Seq::<BusOp>::empty(),
            final(self).half_period() == old(self).half_period(),
            final(self).levels() == old(self).levels(),
    {
        let mut ops: Vec<BusOp> = Vec::new();
        core::mem::swap(&mut ops, &mut self.pending);
        ops
    }

    /// Gives the bus up, handing out the operations not yet taken.
    pub fn release(self) -> (ops: Vec<BusOp>)
        ensures
            ops@ == self.pending(),
    {
        self.pending
    }
}

} // verus!
