use qualia_hello_world::display_init::{display_init_commands, init_display};
use qualia_hello_world::expander_spi::ExpanderSpi;
use qualia_hello_world::tach::{next_tach_reading, TACH_MAX};
use qualia_hello_world::wire::{BusOp, Line};

/// What an SPI mode-0 target latches: frames of bits between CS falling and
/// rising, one bit per rising clock edge.
fn frames_seen(ops: &[BusOp]) -> Vec<Vec<bool>> {
    let (mut sck, mut cs, mut mosi) = (false, true, false);
    let mut shift: Vec<bool> = Vec::new();
    let mut frames = Vec::new();
    for op in ops {
        match *op {
            BusOp::Drive(Line::Cs, false) => {
                if cs {
                    shift.clear();
                }
                cs = false;
            }
            BusOp::Drive(Line::Cs, true) => {
                if !cs {
                    frames.push(std::mem::take(&mut shift));
                }
                cs = true;
            }
            BusOp::Drive(Line::Sck, high) => {
                if high && !sck && !cs {
                    shift.push(mosi);
                }
                sck = high;
            }
            BusOp::Drive(Line::Mosi, high) => mosi = high,
            BusOp::DelayUs(_) | BusOp::SleepMs(_) => {}
        }
    }
    frames
}

fn word(bits: &[bool]) -> u32 {
    bits.iter().fold(0, |acc, b| 2 * acc + u32::from(*b))
}

fn words_seen(ops: &[BusOp]) -> Vec<u32> {
    frames_seen(ops).iter().map(|f| {
        assert_eq!(f.len(), 9);
        word(f)
    }).collect()
}

fn fresh(half_period_us: u32) -> ExpanderSpi {
    let mut spi = ExpanderSpi::new(half_period_us);
    spi.take_ops();
    spi
}

#[test]
fn new_puts_bus_idle() {
    let mut spi = ExpanderSpi::new(3);
    assert_eq!(
        spi.take_ops(),
        vec![
            BusOp::Drive(Line::Sck, false),
            BusOp::Drive(Line::Cs, true),
            BusOp::Drive(Line::Mosi, false),
        ]
    );
    assert!(spi.take_ops().is_empty());
}

#[test]
fn write_bits_msb_first_mode_zero() {
    let mut spi = fresh(0);
    spi.write_bits(0b101, 3);
    let m = |b| BusOp::Drive(Line::Mosi, b);
    let hi = BusOp::Drive(Line::Sck, true);
    let lo = BusOp::Drive(Line::Sck, false);
    assert_eq!(
        spi.take_ops(),
        vec![m(true), hi, lo, m(false), hi, lo, m(true), hi, lo, m(false)]
    );
}

#[test]
fn write_bits_waits_half_period_around_rising_edge() {
    let mut spi = fresh(7);
    spi.write_bits(1, 1);
    assert_eq!(
        spi.take_ops(),
        vec![
            BusOp::Drive(Line::Mosi, true),
            BusOp::DelayUs(7),
            BusOp::Drive(Line::Sck, true),
            BusOp::DelayUs(7),
            BusOp::Drive(Line::Sck, false),
            BusOp::Drive(Line::Mosi, false),
        ]
    );
}

#[test]
fn write_bits_all_32_bits() {
    let mut spi = fresh(0);
    spi.set_cs_low();
    spi.write_bits(0xDEAD_BEEF, 32);
    spi.set_cs_high();
    let ops = spi.take_ops();
    let frames = frames_seen(&ops);
    assert_eq!(frames.len(), 1);
    assert_eq!(frames[0].len(), 32);
    assert_eq!(word(&frames[0]), 0xDEAD_BEEF);
    assert_eq!(ops.len(), 2 + 32 * 3 + 1);
}

#[test]
fn set_half_period_changes_delays() {
    let mut spi = fresh(0);
    spi.set_half_period_us(2);
    spi.write_bits(0, 1);
    let delays = spi.take_ops().iter().filter(|op| **op == BusOp::DelayUs(2)).count();
    assert_eq!(delays, 2);
}

#[test]
fn cs_low_and_high() {
    let mut spi = fresh(0);
    spi.set_cs_low();
    spi.set_cs_high();
    assert_eq!(
        spi.take_ops(),
        vec![BusOp::Drive(Line::Cs, false), BusOp::Drive(Line::Cs, true)]
    );
}

#[test]
fn write_command_sends_low_nine_bits() {
    let mut spi = fresh(1);
    spi.write_command(0xFFFF_F1AB);
    let ops = spi.take_ops();
    assert_eq!(words_seen(&ops), vec![0x1AB]);
    assert_eq!(ops.first(), Some(&BusOp::Drive(Line::Cs, false)));
    assert_eq!(ops.last(), Some(&BusOp::Drive(Line::Cs, true)));
}

#[test]
fn write_data_frames_command_then_data() {
    let mut spi = fresh(0);
    spi.write_data(0x36, &[0x08, 0x1FF]);
    assert_eq!(words_seen(&spi.take_ops()), vec![0x036, 0x108, 0x1FF]);
}

#[test]
fn write_data_command_has_dc_clear() {
    let mut spi = fresh(0);
    spi.write_data(0x1C0, &[]);
    let frames = frames_seen(&spi.take_ops());
    assert_eq!(frames.len(), 1);
    assert!(!frames[0][0]);
    assert_eq!(word(&frames[0]), 0xC0);
}

#[test]
fn release_hands_out_pending_ops() {
    let mut spi = fresh(0);
    spi.sleep_ms(5);
    assert_eq!(spi.release(), vec![BusOp::SleepMs(5)]);
}

#[test]
fn init_table_has_every_step() {
    let cmds = display_init_commands();
    assert_eq!(cmds.len(), 44);
    assert_eq!(cmds[0].reg, 0xFF);
    assert_eq!(cmds[0].params, vec![0x77, 0x01, 0x00, 0x00, 0x13]);
    assert_eq!(cmds[22].params, vec![0x00; 13]);
    assert_eq!(cmds[43].reg, 0x29);
    assert_eq!(cmds[43].sleep_ms, 20);
}

#[test]
fn init_display_sends_the_sequence() {
    let mut spi = fresh(0);
    init_display(&mut spi);
    let ops = spi.take_ops();
    let words = words_seen(&ops);
    let params: usize = display_init_commands().iter().map(|c| c.params.len()).sum();
    assert_eq!(words.len(), 44 + params);
    assert_eq!(&words[..6], &[0x0FF, 0x177, 0x101, 0x100, 0x100, 0x113]);
    assert_eq!(words[words.len() - 1], 0x029);
    let sleeps: Vec<u32> = ops
        .iter()
        .filter_map(|op| if let BusOp::SleepMs(ms) = op { Some(*ms) } else { None })
        .collect();
    assert_eq!(sleeps, vec![120, 10, 20]);
    assert_eq!(ops.last(), Some(&BusOp::SleepMs(20)));
    // the 0x3A (pixel format) write comes right before the first sleep
    let first_sleep = ops.iter().position(|op| *op == BusOp::SleepMs(120)).unwrap();
    let before = words_seen(&ops[..first_sleep]);
    assert_eq!(&before[before.len() - 2..], &[0x03A, 0x166]);
}

#[test]
fn tach_steps_and_wraps() {
    assert_eq!(next_tach_reading(0), 100);
    assert_eq!(next_tach_reading(7900), 8000);
    assert_eq!(next_tach_reading(8000), 0);
    assert_eq!(next_tach_reading(7950), 0);
    assert_eq!(next_tach_reading(65500), 64);
    assert_eq!(next_tach_reading(65535), 99);
    assert_eq!(next_tach_reading(20000), 0);
}

#[test]
fn tach_sweeps_whole_scale() {
    let mut t = 0u16;
    for k in 1..=80u16 {
        t = next_tach_reading(t);
        assert_eq!(t, 100 * k);
    }
    assert_eq!(t, TACH_MAX);
    assert_eq!(next_tach_reading(t), 0);
}

#[test]
fn write_bits_zero_bits_only_drops_data() {
    let mut spi = fresh(0);
    spi.write_bits(0xFFFF_FFFF, 0);
    assert_eq!(spi.take_ops(), vec![BusOp::Drive(Line::Mosi, false)]);
}

#[test]
fn write_bits_past_32_wraps_bit_position() {
    let mut spi = fresh(0);
    spi.set_cs_low();
    spi.write_bits(1, 33);
    spi.set_cs_high();
    let frames = frames_seen(&spi.take_ops());
    let mut expected = vec![false; 33];
    expected[0] = true;
    expected[32] = true;
    assert_eq!(frames, vec![expected]);
}

#[test]
fn next_op_hands_out_oldest_first() {
    let mut spi = ExpanderSpi::new(0);
    assert_eq!(spi.next_op(), Some(BusOp::Drive(Line::Sck, false)));
    assert_eq!(spi.next_op(), Some(BusOp::Drive(Line::Cs, true)));
    assert_eq!(spi.next_op(), Some(BusOp::Drive(Line::Mosi, false)));
    assert_eq!(spi.next_op(), None);
    assert!(spi.take_ops().is_empty());
}

#[test]
fn init_display_keeps_bus_discipline() {
    let mut spi = fresh(4);
    init_display(&mut spi);
    let (mut sck, mut cs, mut highs) = (false, true, 0u32);
    let mut frames = 0;
    for op in spi.take_ops() {
        match op {
            BusOp::Drive(Line::Cs, false) => {
                cs = false;
                highs = 0;
            }
            BusOp::Drive(Line::Cs, true) => {
                assert!(!cs);
                assert_eq!(highs, 9);
                cs = true;
                frames += 1;
            }
            BusOp::Drive(Line::Sck, high) => {
                assert!(!cs);
                if high {
                    highs += 1;
                }
                sck = high;
            }
            BusOp::Drive(Line::Mosi, _) => assert!(!cs && !sck),
            _ => {}
        }
    }
    assert!(cs && !sck);
    assert_eq!(frames, 237);
}

#[test]
fn half_period_only_adds_waits() {
    let mut slow = fresh(3);
    init_display(&mut slow);
    let slow_ops = slow.take_ops();
    let mut fast = fresh(0);
    init_display(&mut fast);
    let fast_ops = fast.take_ops();
    let waits = slow_ops.iter().filter(|op| **op == BusOp::DelayUs(3)).count();
    assert_eq!(waits, 4266);
    let stripped: Vec<BusOp> = slow_ops.into_iter().filter(|op| *op != BusOp::DelayUs(3)).collect();
    assert_eq!(stripped, fast_ops);
    assert!(!fast_ops.iter().any(|op| matches!(op, BusOp::DelayUs(_))));
}
