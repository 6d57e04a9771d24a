use sst39sf040::io::{
    merge, Mode, Port, Register, Step, ERASE_BUDGET, POWER_UP_DELAY, PROGRAM_SETTLE, READ_PIN,
    READ_SETTLE, SST39SF040, WRITE_HOLD, WRITE_PIN,
};

// A register bank and a chip on its pins, both simulated.
struct Board {
    gpiod_moder: u32,
    gpiod_odr: u32,
    gpioe_moder: u32,
    gpioe_odr: u32,
    low: u32,
    idle: u32,
    gap: u32,
    settled: u32,
    falls: usize,
    clashes: usize,
    // address, data, ticks low, ticks idle before
    writes: Vec<(u16, u8, u32, u32)>,
    // address, data pins are inputs, read-enable low, write-enable high, ticks settled
    reads: Vec<(u16, bool, bool, bool, u32)>,
}

fn board(gpiod: Port, gpioe: Port) -> Board {
    Board {
        gpiod_moder: gpiod.moder,
        gpiod_odr: gpiod.odr,
        gpioe_moder: gpioe.moder,
        gpioe_odr: gpioe.odr,
        low: 0,
        idle: 0,
        gap: 0,
        settled: 0,
        falls: 0,
        clashes: 0,
        writes: Vec::new(),
        reads: Vec::new(),
    }
}

fn address(b: &Board) -> u16 {
    ((b.gpioe_odr & 0xff00) | (b.gpiod_odr & 0x00ff)) as u16
}

fn data(b: &Board) -> u8 {
    ((b.gpiod_odr >> 8) & 0xff) as u8
}

fn write_high(b: &Board) -> bool {
    b.gpioe_odr & 0x40 != 0
}

fn read_high(b: &Board) -> bool {
    b.gpioe_odr & 0x08 != 0
}

fn run(b: &mut Board, steps: &[Step]) {
    for step in steps {
        match *step {
            Step::Modify { register, keep, set } => {
                let was_write = write_high(b);
                let was_read = read_high(b);
                match register {
                    Register::GpiodModer => b.gpiod_moder = (b.gpiod_moder & keep) | set,
                    Register::GpiodOdr => b.gpiod_odr = (b.gpiod_odr & keep) | set,
                    Register::GpioeModer => b.gpioe_moder = (b.gpioe_moder & keep) | set,
                    Register::GpioeOdr => b.gpioe_odr = (b.gpioe_odr & keep) | set,
                }
                if was_write && !write_high(b) {
                    b.falls += 1;
                    b.gap = b.idle;
                    b.low = 0;
                }
                if !was_write && write_high(b) {
                    b.writes.push((address(b), data(b), b.low, b.gap));
                    b.low = 0;
                    b.idle = 0;
                }
                if was_read && !read_high(b) {
                    b.settled = 0;
                }
                if !write_high(b) && !read_high(b) {
                    b.clashes += 1;
                }
            }
            Step::Wait { ms } => {
                if write_high(b) {
                    b.idle += u32::from(ms);
                } else {
                    b.low += u32::from(ms);
                }
                if !read_high(b) {
                    b.settled += u32::from(ms);
                }
            }
            Step::Sample => {
                let inputs = b.gpiod_moder >> 16 == 0;
                b.reads.push((address(b), inputs, !read_high(b), write_high(b), b.settled));
            }
        }
    }
}

fn blank() -> Port {
    Port { moder: 0, odr: 0 }
}

fn fresh() -> SST39SF040 {
    let mut sst39 = SST39SF040::new(blank(), blank());
    sst39.take_pending();
    sst39
}

fn modify(register: Register, keep: u32, set: u32) -> Step {
    Step::Modify { register, keep, set }
}

fn pulse(byte: u8, addr: u16) -> Vec<Step> {
    vec![
        modify(Register::GpiodModer, 0xffff, 0x5555_0000),
        modify(Register::GpioeOdr, 0xff, u32::from(addr & 0xff00)),
        modify(Register::GpiodOdr, 0xff00, u32::from(addr & 0x00ff)),
        modify(Register::GpiodOdr, 0xff, u32::from(byte) << 8),
        modify(Register::GpioeOdr, !0x40, 0),
        Step::Wait { ms: 1 },
        modify(Register::GpioeOdr, !0x40, 0x40),
    ]
}

#[test]
fn timing_table() {
    assert_eq!(POWER_UP_DELAY, 5000);
    assert_eq!(READ_SETTLE, 100);
    assert_eq!(WRITE_HOLD, 1);
    assert_eq!(PROGRAM_SETTLE, 1000);
    assert_eq!(ERASE_BUDGET, 2000);
    assert_eq!(WRITE_PIN, 1 << 6);
    assert_eq!(READ_PIN, 1 << 3);
}

#[test]
fn mode_patterns() {
    assert_eq!(Mode::Write.bits(), 0x5555);
    assert_eq!(Mode::Read.bits(), 0x0);
}

#[test]
fn merge_keeps_masked_bits_and_sets_the_rest() {
    assert_eq!(merge(0xdead_beef, 0xffff_0000, 0x0000_1234), 0xdead_1234);
    assert_eq!(merge(0xffff_ffff, 0, 0x5555_5555), 0x5555_5555);
    assert_eq!(merge(0x48, !0x40, 0), 0x08);
}

#[test]
fn new_configures_ports_and_idles_control_lines() {
    let mut sst39 = SST39SF040::new(
        Port { moder: 0xa800_0000, odr: 0x1234 },
        Port { moder: 0, odr: 0xab00 },
    );
    assert_eq!(sst39.gpiod.moder, 0x5555_5555);
    assert_eq!(sst39.gpioe.moder, 0x5555_5555);
    assert_eq!(sst39.gpiod.odr, 0x1234);
    assert_eq!(sst39.gpioe.odr, 0xab48);
    let steps = sst39.take_pending();
    assert_eq!(
        steps,
        vec![
            modify(Register::GpioeModer, 0, 0x5555_5555),
            modify(Register::GpiodModer, 0, 0x5555_5555),
            modify(Register::GpioeOdr, !0x08, 0x08),
            modify(Register::GpioeOdr, !0x40, 0x40),
            Step::Wait { ms: 5000 },
        ]
    );
    assert!(sst39.pending.is_empty());
}

#[test]
fn steps_replayed_on_the_same_registers_give_the_drivers_copy() {
    let gpiod = Port { moder: 0x0123_4567, odr: 0x89ab };
    let gpioe = Port { moder: 0xfedc_ba98, odr: 0x7654 };
    let mut sst39 = SST39SF040::new(gpiod, gpioe);
    sst39.write_byte(0x42, 0x0010);
    sst39.read_byte(0xbeef);
    sst39.erase_chip();
    let mut b = board(gpiod, gpioe);
    run(&mut b, &sst39.take_pending());
    assert_eq!(b.gpiod_moder, sst39.gpiod.moder);
    assert_eq!(b.gpiod_odr, sst39.gpiod.odr);
    assert_eq!(b.gpioe_moder, sst39.gpioe.moder);
    assert_eq!(b.gpioe_odr, sst39.gpioe.odr);
}

#[test]
fn address_reads_back_for_every_value() {
    let mut sst39 = fresh();
    sst39.set_data_pins(0xc3);
    for value in 0..=0xffffu16 {
        let control = sst39.gpioe.odr & 0xff;
        sst39.set_address_pins(value);
        let read_back = ((sst39.gpioe.odr & 0xff00) | (sst39.gpiod.odr & 0x00ff)) as u16;
        assert_eq!(read_back, value);
        assert_eq!(sst39.gpiod.odr & 0xff00, 0xc300);
        assert_eq!(sst39.gpioe.odr & 0xff, control);
    }
}

#[test]
fn address_steps_are_two_masked_updates() {
    let mut sst39 = fresh();
    sst39.set_address_pins(0x2aaa);
    assert_eq!(
        sst39.take_pending(),
        vec![
            modify(Register::GpioeOdr, 0xff, 0x2a00),
            modify(Register::GpiodOdr, 0xff00, 0x00aa),
        ]
    );
    assert_eq!(sst39.gpioe.odr, 0x2a48);
    assert_eq!(sst39.gpiod.odr, 0x00aa);
}

#[test]
fn data_pins_keep_the_address_low_half() {
    let mut sst39 = fresh();
    sst39.set_address_pins(0x1234);
    sst39.take_pending();
    sst39.set_data_pins(0xab);
    assert_eq!(sst39.gpiod.odr, 0xab34);
    assert_eq!(sst39.gpioe.odr & 0xff00, 0x1200);
    assert_eq!(sst39.take_pending(), vec![modify(Register::GpiodOdr, 0xff, 0xab00)]);
    sst39.set_data_pins(0);
    assert_eq!(sst39.gpiod.odr, 0x0034);
}

#[test]
fn mode_switch_touches_only_the_data_pins_mode_bits() {
    let mut sst39 = SST39SF040::new(Port { moder: 0, odr: 0x5aa5 }, Port { moder: 0, odr: 0x1200 });
    sst39.take_pending();
    let gpioe = sst39.gpioe;
    let odr = sst39.gpiod.odr;
    sst39.configure_data_mode(Mode::Write);
    assert_eq!(sst39.gpiod.moder, 0x5555_5555);
    assert_eq!(sst39.gpioe, gpioe);
    sst39.configure_data_mode(Mode::Read);
    assert_eq!(sst39.gpiod.moder, 0x0000_5555);
    assert_eq!(sst39.gpioe, gpioe);
    assert_eq!(sst39.gpiod.odr, odr);
    assert_ne!(sst39.gpioe.odr & WRITE_PIN, 0);
    assert_ne!(sst39.gpioe.odr & READ_PIN, 0);
    assert_eq!(
        sst39.take_pending(),
        vec![
            modify(Register::GpiodModer, 0xffff, 0x5555_0000),
            modify(Register::GpiodModer, 0xffff, 0),
        ]
    );
}

#[test]
fn mode_switch_leaves_asserted_lines_asserted() {
    let mut sst39 = fresh();
    sst39.set_read_pin(false);
    sst39.configure_data_mode(Mode::Write);
    sst39.configure_data_mode(Mode::Read);
    assert_eq!(sst39.gpioe.odr & READ_PIN, 0);
    assert_ne!(sst39.gpioe.odr & WRITE_PIN, 0);
}

#[test]
fn control_lines_go_both_ways_and_leave_each_other_alone() {
    let mut sst39 = fresh();
    sst39.set_address_pins(0xffff);
    assert_eq!(sst39.gpioe.odr, 0xff48);
    sst39.set_write_pin(false);
    assert_eq!(sst39.gpioe.odr, 0xff08);
    sst39.set_read_pin(false);
    assert_eq!(sst39.gpioe.odr, 0xff00);
    sst39.set_write_pin(true);
    assert_eq!(sst39.gpioe.odr, 0xff40);
    sst39.set_write_pin(true);
    assert_eq!(sst39.gpioe.odr, 0xff40);
    sst39.set_read_pin(true);
    assert_eq!(sst39.gpioe.odr, 0xff48);
    assert_eq!(sst39.gpiod.odr, 0x00ff);
}

#[test]
fn control_line_steps() {
    let mut sst39 = fresh();
    sst39.set_write_pin(false);
    sst39.set_read_pin(false);
    sst39.set_read_pin(true);
    assert_eq!(
        sst39.take_pending(),
        vec![
            modify(Register::GpioeOdr, 0xffff_ffbf, 0),
            modify(Register::GpioeOdr, 0xffff_fff7, 0),
            modify(Register::GpioeOdr, 0xffff_fff7, 8),
        ]
    );
}

#[test]
fn sleep_queues_a_wait_and_nothing_else() {
    let mut sst39 = fresh();
    let (gpiod, gpioe) = (sst39.gpiod, sst39.gpioe);
    sst39.sleep(0);
    sst39.sleep(65535);
    assert_eq!(sst39.take_pending(), vec![Step::Wait { ms: 0 }, Step::Wait { ms: 65535 }]);
    assert_eq!((sst39.gpiod, sst39.gpioe), (gpiod, gpioe));
}

#[test]
fn read_data_pins_queues_one_sample() {
    let mut sst39 = fresh();
    sst39.configure_data_mode(Mode::Read);
    sst39.take_pending();
    sst39.read_data_pins();
    assert_eq!(sst39.take_pending(), vec![Step::Sample]);
}

#[test]
fn sampled_byte_is_the_high_half() {
    assert_eq!(SST39SF040::sampled_byte(0xab12), 0xab);
    assert_eq!(SST39SF040::sampled_byte(0xffff_00ff), 0);
    assert_eq!(SST39SF040::sampled_byte(0x0001_ff00), 0xff);
}

#[test]
fn take_pending_hands_steps_out_once() {
    let mut sst39 = fresh();
    sst39.sleep(3);
    assert_eq!(sst39.take_pending(), vec![Step::Wait { ms: 3 }]);
    assert_eq!(sst39.take_pending(), vec![]);
}

#[test]
fn set_out_byte_is_one_pulse() {
    let mut sst39 = fresh();
    sst39.set_read_pin(false);
    sst39.configure_data_mode(Mode::Read);
    sst39.take_pending();
    sst39.set_out_byte(0x42, 0x0010);
    let steps = sst39.take_pending();
    assert_eq!(steps, pulse(0x42, 0x0010));
    assert_eq!(sst39.gpiod.odr, 0x4210);
    assert_eq!(sst39.gpioe.odr, 0x0040);
    assert_eq!(sst39.gpiod.moder >> 16, 0x5555);
}

#[test]
fn erase_chip_issues_the_six_pairs_in_order() {
    let mut sst39 = fresh();
    let mut b = board(sst39.gpiod, sst39.gpioe);
    sst39.erase_chip();
    let steps = sst39.take_pending();
    let mut expected = Vec::new();
    for (addr, byte) in [
        (0x5555u16, 0xaau8),
        (0x2aaa, 0x55),
        (0x5555, 0x80),
        (0x5555, 0xaa),
        (0x2aaa, 0x55),
        (0x5555, 0x10),
    ] {
        expected.extend(pulse(byte, addr));
    }
    expected.push(Step::Wait { ms: 2000 });
    assert_eq!(steps, expected);
    run(&mut b, &steps);
    assert_eq!(
        b.writes,
        vec![
            (0x5555, 0xaa, 1, 0),
            (0x2aaa, 0x55, 1, 0),
            (0x5555, 0x80, 1, 0),
            (0x5555, 0xaa, 1, 0),
            (0x2aaa, 0x55, 1, 0),
            (0x5555, 0x10, 1, 0),
        ]
    );
    assert_eq!(b.falls, 6);
    assert_eq!(b.clashes, 0);
    assert_eq!(b.idle, 2000);
    assert!(b.reads.is_empty());
    assert!(b.writes.iter().all(|w| w.2 >= u32::from(WRITE_HOLD)));
}

#[test]
fn write_byte_unlocks_settles_and_programs() {
    let mut sst39 = fresh();
    let mut b = board(sst39.gpiod, sst39.gpioe);
    sst39.write_byte(0x42, 0x0010);
    let steps = sst39.take_pending();
    let mut expected = Vec::new();
    expected.extend(pulse(0xaa, 0x5555));
    expected.extend(pulse(0x55, 0x2aaa));
    expected.extend(pulse(0xa0, 0x5555));
    expected.push(Step::Wait { ms: 1000 });
    expected.extend(pulse(0x42, 0x0010));
    expected.push(modify(Register::GpiodOdr, 0xff, 0));
    assert_eq!(steps, expected);
    run(&mut b, &steps);
    assert_eq!(
        b.writes,
        vec![(0x5555, 0xaa, 1, 0), (0x2aaa, 0x55, 1, 0), (0x5555, 0xa0, 1, 0), (0x0010, 0x42, 1, 1000)]
    );
    assert_eq!(b.falls, 4);
    assert_eq!(b.clashes, 0);
    assert_eq!(data(&b), 0);
    assert_eq!(address(&b), 0x0010);
    assert!(write_high(&b));
    assert!(b.reads.is_empty());
}

#[test]
fn write_byte_drives_the_data_pins_during_every_pulse() {
    let mut sst39 = fresh();
    sst39.configure_data_mode(Mode::Read);
    sst39.take_pending();
    let mut b = board(sst39.gpiod, sst39.gpioe);
    sst39.write_byte(0xff, 0xffff);
    for step in sst39.take_pending() {
        run(&mut b, &[step]);
        if !write_high(&b) {
            assert_eq!(b.gpiod_moder >> 16, 0x5555);
        }
    }
    assert_eq!(b.writes[3], (0xffff, 0xff, 1, 1000));
}

#[test]
fn read_byte_samples_settled_and_never_asserts_write_enable() {
    for start in [0x00u32, 0x08, 0x40, 0x48] {
        let mut sst39 = fresh();
        sst39.gpioe.odr = start;
        let mut b = board(sst39.gpiod, sst39.gpioe);
        sst39.read_byte(0x0072);
        let steps = sst39.take_pending();
        assert_eq!(
            steps,
            vec![
                modify(Register::GpioeOdr, !0x40, 0x40),
                modify(Register::GpioeOdr, !0x08, 0x08),
                modify(Register::GpiodModer, 0xffff, 0),
                modify(Register::GpioeOdr, 0xff, 0),
                modify(Register::GpiodOdr, 0xff00, 0x72),
                modify(Register::GpioeOdr, !0x08, 0),
                Step::Wait { ms: 100 },
                Step::Sample,
                modify(Register::GpioeOdr, !0x08, 0x08),
            ]
        );
        for step in &steps {
            run(&mut b, &[*step]);
            assert!(write_high(&b));
        }
        assert_eq!(b.falls, 0);
        assert_eq!(b.clashes, 0);
        assert_eq!(b.reads, vec![(0x0072, true, true, true, 100)]);
        assert!(read_high(&b));
        assert_eq!(sst39.gpioe.odr & 0xff, 0x48);
    }
}

#[test]
fn read_byte_takes_any_address() {
    for addr in [0x0000u16, 0x0001, 0x00ff, 0x0100, 0x8000, 0xffff] {
        let mut sst39 = fresh();
        let mut b = board(sst39.gpiod, sst39.gpioe);
        sst39.read_byte(addr);
        run(&mut b, &sst39.take_pending());
        assert_eq!(b.reads, vec![(addr, true, true, true, 100)]);
        assert!(b.writes.is_empty());
    }
}

#[test]
fn a_pulse_with_read_enable_low_is_seen_as_a_clash() {
    let mut sst39 = fresh();
    sst39.set_read_pin(false);
    sst39.take_pending();
    let mut b = board(sst39.gpiod, sst39.gpioe);
    sst39.set_out_byte(1, 2);
    run(&mut b, &sst39.take_pending());
    assert_eq!(b.clashes, 1);
    assert_eq!(b.writes, vec![(2, 1, 1, 0)]);
    assert!(!read_high(&b));
}
