//! What the power-on sequence puts on the wire, write by write: the 9-bit
//! words the panel receives (D/C in bit 8, the byte below it) and the sleep
//! that follows each write.

use vstd::prelude::*;
use crate::display_init::{
    display_init_table, sleep_ops, step_ops, steps_frames, steps_ops, InitStep,
};
use crate::laws::{law_init_display_delivers, lemma_receive_append};
use crate::wire::{
    command_ops, command_word, data_word, idle_target, msb_bits, params_ops, receive,
    write_data_frames, write_data_ops, BusOp,
};

verus! {

/// The panel's power-on script: for each register write in order, the 9-bit
/// words sent (the command word with D/C clear, then one data word with D/C
/// set per parameter) and the milliseconds slept after it (0: none).
pub open spec fn power_on_script() -> Seq<(Seq<u32>, u32)> {
    seq![
        (seq![0x0FF, 0x177, 0x101, 0x100, 0x100, 0x113], 0),
        (seq![0x0EF, 0x108], 0),
        (seq![0x0FF, 0x177, 0x101, 0x100, 0x100, 0x110], 0),
        (seq![0x0C0, 0x13B, 0x100], 0),
        (seq![0x0C1, 0x10B, 0x102], 0),
        (seq![0x0C2, 0x100, 0x102], 0),
        (seq![0x0CC, 0x110], 0),
        (seq![0x0B0, 0x100, 0x11D, 0x129, 0x112, 0x117, 0x10B, 0x118, 0x109, 0x108, 0x12A, 0x107, 0x114, 0x111, 0x127, 0x132, 0x11F], 0),
        (seq![0x0B1, 0x100, 0x11D, 0x129, 0x112, 0x116, 0x10A, 0x118, 0x108, 0x109, 0x12A, 0x107, 0x113, 0x112, 0x127, 0x133, 0x11F], 0),
        (seq![0x0D0, 0x188], 0),
        (seq![0x0FF, 0x177, 0x101, 0x100, 0x100, 0x111], 0),
        (seq![0x0B0, 0x19D], 0),
        (seq![0x0B1, 0x124], 0),
        (seq![0x0B2, 0x181], 0),
        (seq![0x0B3, 0x180], 0),
        (seq![0x0B5, 0x143], 0),
        (seq![0x0B7, 0x185], 0),
        (seq![0x0B8, 0x120], 0),
        (seq![0x0C1, 0x178], 0),
        (seq![0x0C2, 0x178], 0),
        (seq![0x0E0, 0x100, 0x100, 0x102], 0),
        (seq![0x0E1, 0x103, 0x1A0, 0x100, 0x100, 0x104, 0x1A0, 0x100, 0x100, 0x100, 0x120, 0x120], 0),
        (seq![0x0E2, 0x100, 0x100, 0x100, 0x100, 0x100, 0x100, 0x100, 0x100, 0x100, 0x100, 0x100, 0x100, 0x100], 0),
        (seq![0x0E3, 0x100, 0x100, 0x111, 0x100], 0),
        (seq![0x0E4, 0x122, 0x100], 0),
        (seq![0x0E5, 0x105, 0x1EC, 0x1A0, 0x1A0, 0x107, 0x1EE, 0x1A0, 0x1A0, 0x100, 0x100, 0x100, 0x100, 0x100, 0x100, 0x100, 0x100], 0),
        (seq![0x0E6, 0x100, 0x100, 0x111, 0x100], 0),
        (seq![0x0E7, 0x122, 0x100], 0),
        (seq![0x0E8, 0x106, 0x1ED, 0x1A0, 0x1A0, 0x108, 0x1EF, 0x1A0, 0x1A0, 0x100, 0x100, 0x100, 0x100, 0x100, 0x100, 0x100, 0x100], 0),
        (seq![0x0EB, 0x100, 0x100, 0x140, 0x140, 0x100, 0x100, 0x100], 0),
        (seq![0x0ED, 0x1FF, 0x1FF, 0x1FF, 0x1BA, 0x10A, 0x1BF, 0x145, 0x1FF, 0x1FF, 0x154, 0x1FB, 0x1A0, 0x1AB, 0x1FF, 0x1FF, 0x1FF], 0),
        (seq![0x0EF, 0x110, 0x10D, 0x104, 0x108, 0x13F, 0x11F], 0),
        (seq![0x0FF, 0x177, 0x101, 0x100, 0x100, 0x113], 0),
        (seq![0x0E8, 0x100, 0x10E], 0),
        (seq![0x0FF, 0x177, 0x101, 0x100, 0x100, 0x100], 0),
        (seq![0x011], 0),
        (seq![0x0CD, 0x108], 0),
        (seq![0x036, 0x108], 0),
        (seq![0x03A, 0x166], 120),
        (seq![0x0FF, 0x177, 0x101, 0x100, 0x100, 0x113], 0),
        (seq![0x0E8, 0x100, 0x10C], 10),
        (seq![0x0E8, 0x100, 0x100], 0),
        (seq![0x0FF, 0x177, 0x101, 0x100, 0x100], 0),
        (seq![0x029], 20),
    ]
}

/// The 9-bit words of one register write: its command word, then one data
/// word per parameter.
pub open spec fn step_words(step: InitStep) -> Seq<u32> {
    seq![command_word(step.reg)] + step.params.map_values(|b: u32| data_word(b))
}

/// Framed writes of a run of 9-bit words, in order.
pub open spec fn words_ops(hp: u32, words: Seq<u32>) -> Seq<BusOp>
    decreases words.len(),
{
    if words.len() == 0 {
        Seq::empty()
    } else {
        words_ops(hp, words.drop_last()) + command_ops(hp, words.last())
    }
}

/// The operations of a script: each write's words framed in order, then its
/// sleep.
pub open spec fn script_ops(hp: u32, script: Seq<(Seq<u32>, u32)>) -> Seq<BusOp>
    decreases script.len(),
{
    if script.len() == 0 {
        Seq::empty()
    } else {
        script_ops(hp, script.drop_last()) + words_ops(hp, script.last().0) + sleep_ops(
            script.last().1,
        )
    }
}

/// The frames a script delivers: each word as 9 bits, most significant first.
pub open spec fn script_frames(script: Seq<(Seq<u32>, u32)>) -> Seq<Seq<bool>>
    decreases script.len(),
{
    if script.len() == 0 {
        Seq::empty()
    } else {
        script_frames(script.drop_last()) + script.last().0.map_values(|w: u32| msb_bits(w, 9))
    }
}

proof fn lemma_byte_words()
    ensures
        forall|x: u32| x < 256 ==> #[trigger] command_word(x) == x,
        forall|x: u32| x < 256 ==> #[trigger] data_word(x) == x + 256,
{
    assert forall|x: u32| x < 256 implies #[trigger] command_word(x) == x by {
        assert(x < 256 ==> x & 0xFFu32 == x) by (bit_vector);
    }
    assert forall|x: u32| x < 256 implies #[trigger] data_word(x) == x + 256 by {
        assert(x < 256 ==> (x & 0xFFu32) | 0x100u32 == x + 256) by (bit_vector);
    }
}

proof fn lemma_table_matches_script()
    ensures
        display_init_table().len() == power_on_script().len(),
        forall|k: int|
            0 <= k < display_init_table().len() ==> step_words(#[trigger] display_init_table()[k])
                == power_on_script()[k].0 && display_init_table()[k].sleep_ms
                == power_on_script()[k].1,
{
    lemma_byte_words();
    let table = display_init_table();
    let script = power_on_script();
    assert(table.len() == 44);
    assert(script.len() == 44);
    assert(step_words(table[0]) =~= script[0].0 && table[0].sleep_ms == script[0].1);
    assert(step_words(table[1]) =~= script[1].0 && table[1].sleep_ms == script[1].1);
    assert(step_words(table[2]) =~= script[2].0 && table[2].sleep_ms == script[2].1);
    assert(step_words(table[3]) =~= script[3].0 && table[3].sleep_ms == script[3].1);
    assert(step_words(table[4]) =~= script[4].0 && table[4].sleep_ms == script[4].1);
    assert(step_words(table[5]) =~= script[5].0 && table[5].sleep_ms == script[5].1);
    assert(step_words(table[6]) =~= script[6].0 && table[6].sleep_ms == script[6].1);
    assert(step_words(table[7]) =~= script[7].0 && table[7].sleep_ms == script[7].1);
    assert(step_words(table[8]) =~= script[8].0 && table[8].sleep_ms == script[8].1);
    assert(step_words(table[9]) =~= script[9].0 && table[9].sleep_ms == script[9].1);
    assert(step_words(table[10]) =~= script[10].0 && table[10].sleep_ms == script[10].1);
    assert(step_words(table[11]) =~= script[11].0 && table[11].sleep_ms == script[11].1);
    assert(step_words(table[12]) =~= script[12].0 && table[12].sleep_ms == script[12].1);
    assert(step_words(table[13]) =~= script[13].0 && table[13].sleep_ms == script[13].1);
    assert(step_words(table[14]) =~= script[14].0 && table[14].sleep_ms == script[14].1);
    assert(step_words(table[15]) =~= script[15].0 && table[15].sleep_ms == script[15].1);
    assert(step_words(table[16]) =~= script[16].0 && table[16].sleep_ms == script[16].1);
    assert(step_words(table[17]) =~= script[17].0 && table[17].sleep_ms == script[17].1);
    assert(step_words(table[18]) =~= script[18].0 && table[18].sleep_ms == script[18].1);
    assert(step_words(table[19]) =~= script[19].0 && table[19].sleep_ms == script[19].1);
    assert(step_words(table[20]) =~= script[20].0 && table[20].sleep_ms == script[20].1);
    assert(step_words(table[21]) =~= script[21].0 && table[21].sleep_ms == script[21].1);
    assert(step_words(table[22]) =~= script[22].0 && table[22].sleep_ms == script[22].1);
    assert(step_words(table[23]) =~= script[23].0 && table[23].sleep_ms == script[23].1);
    assert(step_words(table[24]) =~= script[24].0 && table[24].sleep_ms == script[24].1);
    assert(step_words(table[25]) =~= script[25].0 && table[25].sleep_ms == script[25].1);
    assert(step_words(table[26]) =~= script[26].0 && table[26].sleep_ms == script[26].1);
    assert(step_words(table[27]) =~= script[27].0 && table[27].sleep_ms == script[27].1);
    assert(step_words(table[28]) =~= script[28].0 && table[28].sleep_ms == script[28].1);
    assert(step_words(table[29]) =~= script[29].0 && table[29].sleep_ms == script[29].1);
    assert(step_words(table[30]) =~= script[30].0 && table[30].sleep_ms == script[30].1);
    assert(step_words(table[31]) =~= script[31].0 && table[31].sleep_ms == script[31].1);
    assert(step_words(table[32]) =~= script[32].0 && table[32].sleep_ms == script[32].1);
    assert(step_words(table[33]) =~= script[33].0 && table[33].sleep_ms == script[33].1);
    assert(step_words(table[34]) =~= script[34].0 && table[34].sleep_ms == script[34].1);
    assert(step_words(table[35]) =~= script[35].0 && table[35].sleep_ms == script[35].1);
    assert(step_words(table[36]) =~= script[36].0 && table[36].sleep_ms == script[36].1);
    assert(step_words(table[37]) =~= script[37].0 && table[37].sleep_ms == script[37].1);
    assert(step_words(table[38]) =~= script[38].0 && table[38].sleep_ms == script[38].1);
    assert(step_words(table[39]) =~= script[39].0 && table[39].sleep_ms == script[39].1);
    assert(step_words(table[40]) =~= script[40].0 && table[40].sleep_ms == script[40].1);
    assert(step_words(table[41]) =~= script[41].0 && table[41].sleep_ms == script[41].1);
    assert(step_words(table[42]) =~= script[42].0 && table[42].sleep_ms == script[42].1);
    assert(step_words(table[43]) =~= script[43].0 && table[43].sleep_ms == script[43].1);
}

proof fn lemma_write_data_is_words(hp: u32, reg: u32, params: Seq<u32>)
    ensures
        write_data_ops(hp, reg, params) == words_ops(
            hp,
            step_words(InitStep { reg, params, sleep_ms: 0 }),
        ),
    decreases params.len(),
{
    let w = step_words(InitStep { reg, params, sleep_ms: 0 });
    if params.len() == 0 {
        assert(w =~= seq![command_word(reg)]);
        assert(w.drop_last() =~= Seq::<u32>::empty());
        assert(params_ops(hp, params) =~= Seq::<BusOp>::empty());
        assert(write_data_ops(hp, reg, params) =~= command_ops(hp, command_word(reg)));
        assert(w.last() == command_word(reg));
        assert(words_ops(hp, w.drop_last()) == Seq::<BusOp>::empty());
        assert(words_ops(hp, w) =~= command_ops(hp, command_word(reg)));
    } else {
        let init = params.drop_last();
        lemma_write_data_is_words(hp, reg, init);
        let wi = step_words(InitStep { reg, params: init, sleep_ms: 0 });
        assert(w.drop_last() =~= wi);
        assert(w.last() == data_word(params.last()));
        assert(write_data_ops(hp, reg, params) =~= write_data_ops(hp, reg, init) + command_ops(
            hp,
            data_word(params.last()),
        ));
    }
}

proof fn lemma_steps_are_script(hp: u32, steps: Seq<InitStep>, script: Seq<(Seq<u32>, u32)>)
    requires
        steps.len() == script.len(),
        forall|k: int|
            0 <= k < steps.len() ==> step_words(#[trigger] steps[k]) == script[k].0 && steps[k].sleep_ms
                == script[k].1,
    ensures
        steps_ops(hp, steps) == script_ops(hp, script),
        steps_frames(steps) == script_frames(script),
    decreases steps.len(),
{
    if steps.len() > 0 {
        let n = steps.len() - 1;
        assert forall|k: int|
            0 <= k < steps.drop_last().len() implies step_words(#[trigger] steps.drop_last()[k])
            == script.drop_last()[k].0 && steps.drop_last()[k].sleep_ms
            == script.drop_last()[k].1 by {
            assert(steps.drop_last()[k] == steps[k]);
        }
        lemma_steps_are_script(hp, steps.drop_last(), script.drop_last());
        let last = steps.last();
        assert(step_words(steps[n]) == script[n].0);
        lemma_write_data_is_words(hp, last.reg, last.params);
        assert(step_words(InitStep { reg: last.reg, params: last.params, sleep_ms: 0 })
            =~= step_words(last));
        assert(write_data_frames(last.reg, last.params) =~= step_words(last).map_values(
            |w: u32| msb_bits(w, 9),
        ));
    }
}

/// The power-on sequence is exactly the script: each register write's 9-bit
/// words framed in order, then its sleep.
pub proof fn law_init_display_script(hp: u32)
    ensures
        steps_ops(hp, display_init_table()) == script_ops(hp, power_on_script()),
{
    lemma_table_matches_script();
    lemma_steps_are_script(hp, display_init_table(), power_on_script());
}

/// On an idle bus, the panel receives exactly the script's words, write by
/// write, each as 9 bits most significant first, and the bus ends idle.
pub proof fn law_init_display_frames(hp: u32, frames: Seq<Seq<bool>>)
    ensures
        receive(idle_target(frames), steps_ops(hp, display_init_table())) == idle_target(
            frames + script_frames(power_on_script()),
        ),
{
    lemma_table_matches_script();
    lemma_steps_are_script(hp, display_init_table(), power_on_script());
    law_init_display_delivers(hp, frames);
}

} // verus!
