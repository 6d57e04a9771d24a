//! The bus as the flash chip sees it.
//!
//! A `Monitor` follows a run of steps on a copy of the registers and records
//! what a chip on the pins would observe: each completed write pulse with the
//! address and data it latched and how long write-enable was low, and each
//! sample with the state of the bus at that moment. The laws of the three
//! chip operations are stated over these records.

use vstd::prelude::*;
use crate::io::{
    Bank, Mode, Step, address_steps, data_step, erase_sequence, lemma_address_bits,
    lemma_data_bits, lemma_mode_bits, lemma_read_pin_bits, lemma_write_pin_bits, mode_step,
    pin_step, program_sequence, pulse, read_sequence, ERASE_BUDGET, PROGRAM_SETTLE, READ_PIN,
    READ_SETTLE, WRITE_HOLD, WRITE_PIN,
};

verus! {

/// One completed write pulse, recorded when write-enable rises.
pub struct WriteCycle {
    /// The address on the pins at the rising edge.
    pub address: u16,
    /// The data on the pins at the rising edge.
    pub data: u8,
    /// Whether the data pins were outputs at the rising edge.
    pub driven: bool,
    /// Ticks waited while write-enable was low.
    pub hold: nat,
    /// Ticks waited with write-enable high before it went low.
    pub gap: nat,
}

/// One sample of the data pins.
pub struct ReadCycle {
    /// The address on the pins when the sample was taken.
    pub address: u16,
    /// Whether the data pins were inputs.
    pub inputs: bool,
    /// Whether read-enable was low.
    pub enabled: bool,
    /// Whether write-enable was high.
    pub write_idle: bool,
    /// Ticks waited since read-enable last went low.
    pub settle: nat,
}

/// An observer of the bus.
pub struct Monitor {
    /// The registers as the steps seen so far have left them.
    pub bank: Bank,
    /// Ticks waited since write-enable last went low.
    pub low: nat,
    /// Ticks waited with write-enable high since it last rose.
    pub idle: nat,
    /// Value of `idle` when write-enable last went low.
    pub gap: nat,
    /// Ticks waited since read-enable last went low.
    pub settled: nat,
    /// How often write-enable went from high to low.
    pub asserted: nat,
    /// How many register updates left both control lines low at once.
    pub clashes: nat,
    /// The write pulses completed so far, oldest first.
    pub writes: Seq<WriteCycle>,
    /// The samples taken so far, oldest first.
    pub reads: Seq<ReadCycle>,
}

/// The record of a write pulse of the driver: data pins driven, held for
/// `WRITE_HOLD`.
pub open spec fn written(address: u16, data: u8, gap: nat) -> WriteCycle {
    WriteCycle { address, data, driven: true, hold: WRITE_HOLD as nat, gap }
}

impl Monitor {
    /// An observer that has seen nothing yet.
    pub open spec fn watching(bank: Bank) -> Monitor {
        Monitor {
            bank,
            low: 0,
            idle: 0,
            gap: 0,
            settled: 0,
            asserted: 0,
            clashes: 0,
            writes: Seq::empty(),
            reads: Seq::empty(),
        }
    }

    /// The observer after one more step.
    pub open spec fn step(self, step: Step) -> Monitor {
        let next = self.bank.apply(step);
        let falls = self.bank.write_pin() && !next.write_pin();
        let rises = !self.bank.write_pin() && next.write_pin();
        match step {
            Step::Modify { register, keep, set } => Monitor {
                bank: next,
                low: if falls || rises { 0 } else { self.low },
                idle: if rises { 0 } else { self.idle },
                gap: if falls { self.idle } else { self.gap },
                settled: if self.bank.read_pin() && !next.read_pin() { 0 } else { self.settled },
                asserted: if falls { self.asserted + 1 } else { self.asserted },
                clashes: if !next.write_pin() && !next.read_pin() {
                    self.clashes + 1
                } else {
                    self.clashes
                },
                writes: if rises {
                    self.writes.push(
                        WriteCycle {
                            address: next.address(),
                            data: next.data(),
                            driven: next.in_mode(Mode::Write),
                            hold: self.low,
                            gap: self.gap,
                        },
                    )
                } else {
                    self.writes
                },
                reads: self.reads,
            },
            Step::Wait { ms } => Monitor {
                bank: self.bank,
                low: if self.bank.write_pin() { self.low } else { self.low + ms as nat },
                idle: if self.bank.write_pin() { self.idle + ms as nat } else { self.idle },
                gap: self.gap,
                settled: if self.bank.read_pin() { self.settled } else { self.settled + ms as nat },
                asserted: self.asserted,
                clashes: self.clashes,
                writes: self.writes,
                reads: self.reads,
            },
            Step::Sample => Monitor {
                bank: self.bank,
                low: self.low,
                idle: self.idle,
                gap: self.gap,
                settled: self.settled,
                asserted: self.asserted,
                clashes: self.clashes,
                writes: self.writes,
                reads: self.reads.push(
                    ReadCycle {
                        address: self.bank.address(),
                        inputs: self.bank.in_mode(Mode::Read),
                        enabled: !self.bank.read_pin(),
                        write_idle: self.bank.write_pin(),
                        settle: self.settled,
                    },
                ),
            },
        }
    }

    /// The observer after a run of steps.
    pub open spec fn observe(self, steps: Seq<Step>) -> Monitor
        decreases steps.len(),
    {
        if steps.len() == 0 {
            self
        } else {
            self.observe(steps.drop_last()).step(steps.last())
        }
    }

    /// Observing one more step.
    pub proof fn lemma_observe_push(self, steps: Seq<Step>, step: Step)
        ensures
            self.observe(steps.push(step)) == self.observe(steps).step(step),
    {
        assert(steps.push(step).drop_last() =~= steps);
    }

    /// Observing two runs one after the other is observing their
    /// concatenation.
    pub proof fn lemma_observe_concat(self, first: Seq<Step>, second: Seq<Step>)
        ensures
            self.observe(first + second) == self.observe(first).observe(second),
        decreases second.len(),
    {
        if second.len() == 0 {
            assert(first + second =~= first);
        } else {
            self.lemma_observe_concat(first, second.drop_last());
            assert((first + second).drop_last() =~= first + second.drop_last());
            assert((first + second).last() == second.last());
        }
    }

    /// The observer's registers are those the steps leave behind.
    pub proof fn lemma_observe_bank(self, steps: Seq<Step>)
        ensures
            self.observe(steps).bank == self.bank.after(steps),
        decreases steps.len(),
    {
        if steps.len() > 0 {
            self.lemma_observe_bank(steps.drop_last());
        }
    }

    /// One write cycle of the driver, started with write-enable idle, is
    /// one pulse on the pins: write-enable falls once, and when it rises
    /// the chip latches exactly `address` and `byte`, driven by the data
    /// pins, after `WRITE_HOLD` ticks low. Nothing is sampled, and with
    /// read-enable idle the two control lines are never low together.
    pub proof fn lemma_pulse_observed(self, byte: u8, address: u16)
        requires
            self.bank.write_pin(),
        ensures
            self.bank.read_pin() ==> self.observe(pulse(byte, address)).clashes == self.clashes,
            self.observe(pulse(byte, address)).writes == self.writes.push(
                written(address, byte, self.idle),
            ),
            self.observe(pulse(byte, address)).asserted == self.asserted + 1,
            self.observe(pulse(byte, address)).reads == self.reads,
            self.observe(pulse(byte, address)).idle == 0,
            self.observe(pulse(byte, address)).bank.write_pin(),
            self.observe(pulse(byte, address)).bank.read_pin() == self.bank.read_pin(),
            self.observe(pulse(byte, address)).bank == self.bank.after(pulse(byte, address)),
    {
        let s1 = mode_step(Mode::Write);
        let s2 = address_steps(address)[0];
        let s3 = address_steps(address)[1];
        let s4 = data_step(byte);
        let s5 = pin_step(WRITE_PIN, false);
        let s6 = Step::Wait { ms: WRITE_HOLD };
        let s7 = pin_step(WRITE_PIN, true);
        let e = Seq::<Step>::empty();
        let m1 = self.step(s1);
        let m2 = m1.step(s2);
        let m3 = m2.step(s3);
        let m4 = m3.step(s4);
        let m5 = m4.step(s5);
        let m6 = m5.step(s6);
        let m7 = m6.step(s7);
        assert(pulse(byte, address) =~= e.push(s1).push(s2).push(s3).push(s4).push(s5).push(s6).push(
            s7,
        ));
        assert(self.observe(e) == self);
        self.lemma_observe_push(e, s1);
        self.lemma_observe_push(e.push(s1), s2);
        self.lemma_observe_push(e.push(s1).push(s2), s3);
        self.lemma_observe_push(e.push(s1).push(s2).push(s3), s4);
        self.lemma_observe_push(e.push(s1).push(s2).push(s3).push(s4), s5);
        self.lemma_observe_push(e.push(s1).push(s2).push(s3).push(s4).push(s5), s6);
        self.lemma_observe_push(e.push(s1).push(s2).push(s3).push(s4).push(s5).push(s6), s7);
        assert(self.observe(pulse(byte, address)) == m7);
        lemma_mode_bits(self.bank.gpiod.moder, 0x5555);
        lemma_address_bits(m1.bank.gpioe.odr, m1.bank.gpiod.odr, address);
        lemma_data_bits(m3.bank.gpioe.odr, m3.bank.gpiod.odr, byte);
        lemma_write_pin_bits(m4.bank.gpioe.odr, m4.bank.gpiod.odr, 0);
        lemma_write_pin_bits(m6.bank.gpioe.odr, m6.bank.gpiod.odr, 0x40);
        assert(m4.bank.write_pin());
        assert(!m5.bank.write_pin());
        assert(m6.low == WRITE_HOLD as nat);
        assert(m7.bank.address() == address);
        assert(m7.bank.data() == byte);
        self.lemma_observe_bank(pulse(byte, address));
    }

    /// The chip-erase command, started with write-enable idle, is exactly
    /// six pulses on the pins, carrying the documented address and data
    /// pairs in order, each held low for `WRITE_HOLD` ticks and following
    /// the one before without delay. Nothing is sampled, `ERASE_BUDGET`
    /// ticks pass after the last pulse, and with read-enable idle the two
    /// control lines are never low together.
    pub proof fn lemma_erase_observed(self)
        requires
            self.bank.write_pin(),
        ensures
            self.bank.read_pin() ==> self.observe(erase_sequence()).clashes == self.clashes,
            self.observe(erase_sequence()).bank.read_pin() == self.bank.read_pin(),
            self.observe(erase_sequence()).writes == self.writes + seq![
                written(0x5555, 0xaa, self.idle),
                written(0x2aaa, 0x55, 0),
                written(0x5555, 0x80, 0),
                written(0x5555, 0xaa, 0),
                written(0x2aaa, 0x55, 0),
                written(0x5555, 0x10, 0),
            ],
            self.observe(erase_sequence()).asserted == self.asserted + 6,
            self.observe(erase_sequence()).reads == self.reads,
            self.observe(erase_sequence()).idle == ERASE_BUDGET as nat,
            self.observe(erase_sequence()).bank.write_pin(),
    {
        let unlock = pulse(0xaa, 0x5555);
        let confirm = pulse(0x55, 0x2aaa);
        let command = pulse(0x80, 0x5555);
        let finish = pulse(0x10, 0x5555);
        let w = seq![Step::Wait { ms: ERASE_BUDGET }];
        let m1 = self.observe(unlock);
        let m2 = m1.observe(confirm);
        let m3 = m2.observe(command);
        let m4 = m3.observe(unlock);
        let m5 = m4.observe(confirm);
        let m6 = m5.observe(finish);
        self.lemma_pulse_observed(0xaa, 0x5555);
        m1.lemma_pulse_observed(0x55, 0x2aaa);
        m2.lemma_pulse_observed(0x80, 0x5555);
        m3.lemma_pulse_observed(0xaa, 0x5555);
        m4.lemma_pulse_observed(0x55, 0x2aaa);
        m5.lemma_pulse_observed(0x10, 0x5555);
        self.lemma_observe_concat(unlock, confirm);
        self.lemma_observe_concat(unlock + confirm, command);
        self.lemma_observe_concat(unlock + confirm + command, unlock);
        self.lemma_observe_concat(unlock + confirm + command + unlock, confirm);
        self.lemma_observe_concat(unlock + confirm + command + unlock + confirm, finish);
        self.lemma_observe_concat(unlock + confirm + command + unlock + confirm + finish, w);
        m6.lemma_observe_push(Seq::<Step>::empty(), Step::Wait { ms: ERASE_BUDGET });
        assert(w =~= Seq::<Step>::empty().push(Step::Wait { ms: ERASE_BUDGET }));
        assert(m6.observe(Seq::<Step>::empty()) == m6);
        assert(self.observe(erase_sequence()) == m6.step(Step::Wait { ms: ERASE_BUDGET }));
        assert(m6.writes =~= self.writes + seq![
            written(0x5555, 0xaa, self.idle),
            written(0x2aaa, 0x55, 0),
            written(0x5555, 0x80, 0),
            written(0x5555, 0xaa, 0),
            written(0x2aaa, 0x55, 0),
            written(0x5555, 0x10, 0),
        ]);
    }

    /// The byte-program command, started with write-enable idle, is
    /// exactly four pulses on the pins: the three unlock pairs without
    /// delay between them, then `byte` at `address` after `PROGRAM_SETTLE`
    /// ticks with write-enable high. Nothing is sampled, the data pins end
    /// at zero, and with read-enable idle the two control lines are never
    /// low together.
    pub proof fn lemma_program_observed(self, byte: u8, address: u16)
        requires
            self.bank.write_pin(),
        ensures
            self.bank.read_pin() ==> self.observe(program_sequence(byte, address)).clashes
                == self.clashes,
            self.observe(program_sequence(byte, address)).bank.read_pin() == self.bank.read_pin(),
            self.observe(program_sequence(byte, address)).writes == self.writes + seq![
                written(0x5555, 0xaa, self.idle),
                written(0x2aaa, 0x55, 0),
                written(0x5555, 0xa0, 0),
                written(address, byte, PROGRAM_SETTLE as nat),
            ],
            self.observe(program_sequence(byte, address)).asserted == self.asserted + 4,
            self.observe(program_sequence(byte, address)).reads == self.reads,
            self.observe(program_sequence(byte, address)).bank.write_pin(),
            self.observe(program_sequence(byte, address)).bank.data() == 0,
            self.observe(program_sequence(byte, address)).bank.address() == address,
    {
        let unlock = pulse(0xaa, 0x5555);
        let confirm = pulse(0x55, 0x2aaa);
        let command = pulse(0xa0, 0x5555);
        let settle = Step::Wait { ms: PROGRAM_SETTLE };
        let w = seq![settle];
        let payload = pulse(byte, address);
        let c = seq![data_step(0)];
        let e = Seq::<Step>::empty();
        let m1 = self.observe(unlock);
        let m2 = m1.observe(confirm);
        let m3 = m2.observe(command);
        let m4 = m3.step(settle);
        let m5 = m4.observe(payload);
        let m6 = m5.step(data_step(0));
        self.lemma_pulse_observed(0xaa, 0x5555);
        m1.lemma_pulse_observed(0x55, 0x2aaa);
        m2.lemma_pulse_observed(0xa0, 0x5555);
        m4.lemma_pulse_observed(byte, address);
        self.lemma_observe_concat(unlock, confirm);
        self.lemma_observe_concat(unlock + confirm, command);
        self.lemma_observe_concat(unlock + confirm + command, w);
        self.lemma_observe_concat(unlock + confirm + command + w, payload);
        self.lemma_observe_concat(unlock + confirm + command + w + payload, c);
        m3.lemma_observe_push(e, settle);
        m5.lemma_observe_push(e, data_step(0));
        assert(w =~= e.push(settle));
        assert(c =~= e.push(data_step(0)));
        assert(m3.observe(e) == m3);
        assert(m5.observe(e) == m5);
        assert(self.observe(program_sequence(byte, address)) == m6);
        m4.lemma_observe_bank(payload);
        m4.bank.lemma_pulse_bank(byte, address);
        lemma_data_bits(m5.bank.gpioe.odr, m5.bank.gpiod.odr, 0);
        assert(m6.writes =~= self.writes + seq![
            written(0x5555, 0xaa, self.idle),
            written(0x2aaa, 0x55, 0),
            written(0x5555, 0xa0, 0),
            written(address, byte, PROGRAM_SETTLE as nat),
        ]);
    }

    /// One read cycle, from any state of the bus: write-enable is never
    /// driven low, and exactly one sample is taken, at `address`, with the
    /// data pins as inputs, write-enable high and read-enable low for
    /// `READ_SETTLE` ticks. The two control lines are never low together.
    /// If write-enable was idle at the start, no write pulse is recorded
    /// either. Both control lines end high.
    pub proof fn lemma_read_observed(self, address: u16)
        ensures
            self.observe(read_sequence(address)).clashes == self.clashes,
            self.observe(read_sequence(address)).asserted == self.asserted,
            self.observe(read_sequence(address)).reads == self.reads.push(
                ReadCycle {
                    address,
                    inputs: true,
                    enabled: true,
                    write_idle: true,
                    settle: READ_SETTLE as nat,
                },
            ),
            self.bank.write_pin() ==> self.observe(read_sequence(address)).writes == self.writes,
            self.observe(read_sequence(address)).bank.write_pin(),
            self.observe(read_sequence(address)).bank.read_pin(),
    {
        let s1 = pin_step(WRITE_PIN, true);
        let s2 = pin_step(READ_PIN, true);
        let s3 = mode_step(Mode::Read);
        let s4 = address_steps(address)[0];
        let s5 = address_steps(address)[1];
        let s6 = pin_step(READ_PIN, false);
        let s7 = Step::Wait { ms: READ_SETTLE };
        let s8 = Step::Sample;
        let s9 = pin_step(READ_PIN, true);
        let e = Seq::<Step>::empty();
        let m1 = self.step(s1);
        let m2 = m1.step(s2);
        let m3 = m2.step(s3);
        let m4 = m3.step(s4);
        let m5 = m4.step(s5);
        let m6 = m5.step(s6);
        let m7 = m6.step(s7);
        let m8 = m7.step(s8);
        let m9 = m8.step(s9);
        assert(read_sequence(address) =~= e.push(s1).push(s2).push(s3).push(s4).push(s5).push(s6).push(
            s7,
        ).push(s8).push(s9));
        assert(self.observe(e) == self);
        self.lemma_observe_push(e, s1);
        self.lemma_observe_push(e.push(s1), s2);
        self.lemma_observe_push(e.push(s1).push(s2), s3);
        self.lemma_observe_push(e.push(s1).push(s2).push(s3), s4);
        self.lemma_observe_push(e.push(s1).push(s2).push(s3).push(s4), s5);
        self.lemma_observe_push(e.push(s1).push(s2).push(s3).push(s4).push(s5), s6);
        self.lemma_observe_push(e.push(s1).push(s2).push(s3).push(s4).push(s5).push(s6), s7);
        self.lemma_observe_push(
            e.push(s1).push(s2).push(s3).push(s4).push(s5).push(s6).push(s7),
            s8,
        );
        self.lemma_observe_push(
            e.push(s1).push(s2).push(s3).push(s4).push(s5).push(s6).push(s7).push(s8),
            s9,
        );
        assert(self.observe(read_sequence(address)) == m9);
        lemma_write_pin_bits(self.bank.gpioe.odr, self.bank.gpiod.odr, 0x40);
        lemma_read_pin_bits(m1.bank.gpioe.odr, m1.bank.gpiod.odr, 0x08);
        lemma_mode_bits(m2.bank.gpiod.moder, 0);
        lemma_address_bits(m3.bank.gpioe.odr, m3.bank.gpiod.odr, address);
        lemma_read_pin_bits(m5.bank.gpioe.odr, m5.bank.gpiod.odr, 0);
        lemma_read_pin_bits(m8.bank.gpioe.odr, m8.bank.gpiod.odr, 0x08);
        assert(m1.bank.write_pin());
        assert(m2.bank.write_pin() && m2.bank.read_pin());
        assert(m5.bank.write_pin() && m5.bank.read_pin());
        assert(m5.bank.address() == address);
        assert(m6.bank.write_pin() && !m6.bank.read_pin());
        assert(m6.settled == 0);
        assert(m7.settled == READ_SETTLE as nat);
        assert(m7.bank.address() == address);
        assert(m7.bank.in_mode(Mode::Read));
    }
}

} // verus!
