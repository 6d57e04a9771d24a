//! The flash bus: two GPIO ports shared between address, data and control
//! lines, and the chip operations built on them.
//!
//! The driver never touches hardware. It keeps a copy of the four registers
//! it owns and queues, in order, every register update, delay and sample that
//! the platform has to carry out.

use vstd::prelude::*;

verus! {

/// Delay after the ports are configured, before the first operation.
pub const POWER_UP_DELAY: u16 = 5000;

/// Time read-enable is held low before the data pins are sampled.
pub const READ_SETTLE: u16 = 100;

/// Time write-enable is held low in one write pulse.
pub const WRITE_HOLD: u16 = 1;

/// Delay between the program command and the payload pulse.
pub const PROGRAM_SETTLE: u16 = 1000;

/// Time allowed for the chip to erase itself.
pub const ERASE_BUDGET: u16 = 2000;

/// Bit of port E's output register that drives write-enable (active low).
pub const WRITE_PIN: u32 = 0x40;

/// Bit of port E's output register that drives read-enable (active low).
pub const READ_PIN: u32 = 0x08;

/// Direction of the data half of the shared port.
#[derive(Clone, Copy, Debug, PartialEq, Eq, Structural)]
pub enum Mode {
    /// The microcontroller drives the data pins.
    Write,
    /// The data pins are inputs and the chip drives them.
    Read,
}

impl Mode {
    /// Mode-register pattern for the eight data pins, two bits per pin.
    pub open spec fn pattern(self) -> u32 {
        match self {
            Mode::Write => 0x5555u32,
            Mode::Read => 0x0u32,
        }
    }

    /// Returns the mode-register pattern that selects this direction.
    pub fn bits(self) -> (r: u32)
        ensures
            r == self.pattern(),
    {
        match self {
            Mode::Write => 0x5555,
            Mode::Read => 0x0,
        }
    }
}

/// The registers of one GPIO port that the driver writes.
#[derive(Clone, Copy, Debug, PartialEq, Eq, Structural)]
pub struct Port {
    /// Mode register: two bits per pin, `01` for output, `00` for input.
    pub moder: u32,
    /// Output data register: one bit per pin in the low sixteen bits.
    pub odr: u32,
}

/// Names one of the registers the driver owns.
#[derive(Clone, Copy, Debug, PartialEq, Eq, Structural)]
pub enum Register {
    /// Mode register of port D, the shared data and address-low port.
    GpiodModer,
    /// Output data register of port D.
    GpiodOdr,
    /// Mode register of port E, the address-high and control port.
    GpioeModer,
    /// Output data register of port E.
    GpioeOdr,
}

/// One thing the platform does to the hardware on the driver's behalf.
#[derive(Clone, Copy, Debug, PartialEq, Eq, Structural)]
pub enum Step {
    /// Replace the register's value `r` by `(r & keep) | set`.
    Modify { register: Register, keep: u32, set: u32 },
    /// Block until the countdown timer has counted `ms` ticks; not at all
    /// for `ms == 0`.
    Wait { ms: u16 },
    /// Read port D's input data register and report its value.
    Sample,
}

/// A snapshot of the four registers.
#[derive(Clone, Copy, Debug, PartialEq, Eq, Structural)]
pub struct Bank {
    pub gpiod: Port,
    pub gpioe: Port,
}

/// Value of a register after a masked update.
pub open spec fn merged(current: u32, keep: u32, set: u32) -> u32 {
    (current & keep) | set
}

/// The sixteen address lines, given both output registers.
pub open spec fn address_of(control: u32, shared: u32) -> u16 {
    ((control & 0xff00) | (shared & 0xff)) as u16
}

/// The data half of a sixteen-pin register of the shared port.
pub open spec fn data_of(shared: u32) -> u8 {
    ((shared & 0xff00) >> 8) as u8
}

/// Mode bits of the eight data pins.
pub open spec fn direction_of(moder: u32) -> u32 {
    moder >> 16
}

/// The step that selects the direction of the data pins.
pub open spec fn mode_step(mode: Mode) -> Step {
    Step::Modify { register: Register::GpiodModer, keep: 0xffff, set: mode.pattern() << 16 }
}

/// The step that puts `value` on the data pins.
pub open spec fn data_step(value: u8) -> Step {
    Step::Modify { register: Register::GpiodOdr, keep: 0xff, set: (value as u32) << 8 }
}

/// The two steps that put `value` on the address pins, high byte first.
pub open spec fn address_steps(value: u16) -> Seq<Step> {
    seq![
        Step::Modify { register: Register::GpioeOdr, keep: 0xff, set: (value & 0xff00) as u32 },
        Step::Modify { register: Register::GpiodOdr, keep: 0xff00, set: (value & 0xff) as u32 },
    ]
}

/// The step that drives one control line of port E high or low.
pub open spec fn pin_step(pin: u32, state: bool) -> Step {
    Step::Modify { register: Register::GpioeOdr, keep: !pin, set: if state { pin } else { 0 } }
}

/// One write cycle: the data pins become outputs, address and data are
/// driven, and write-enable is pulsed low for `WRITE_HOLD`.
pub open spec fn pulse(byte: u8, address: u16) -> Seq<Step> {
    seq![mode_step(Mode::Write)] + address_steps(address) + seq![
        data_step(byte),
        pin_step(WRITE_PIN, false),
        Step::Wait { ms: WRITE_HOLD },
        pin_step(WRITE_PIN, true),
    ]
}

/// The chip-erase command: six write cycles, then the erase budget.
pub open spec fn erase_sequence() -> Seq<Step> {
    pulse(0xaa, 0x5555) + pulse(0x55, 0x2aaa) + pulse(0x80, 0x5555) + pulse(0xaa, 0x5555) + pulse(
        0x55,
        0x2aaa,
    ) + pulse(0x10, 0x5555) + seq![Step::Wait { ms: ERASE_BUDGET }]
}

/// The byte-program command: three unlock cycles, the settle delay, the
/// payload cycle, and the data pins cleared.
pub open spec fn program_sequence(byte: u8, address: u16) -> Seq<Step> {
    pulse(0xaa, 0x5555) + pulse(0x55, 0x2aaa) + pulse(0xa0, 0x5555) + seq![
        Step::Wait { ms: PROGRAM_SETTLE },
    ] + pulse(byte, address) + seq![data_step(0)]
}

/// One read cycle: both control lines idle, the data pins become inputs,
/// the address is driven, read-enable goes low for `READ_SETTLE`, the data
/// pins are sampled, and read-enable goes back high.
pub open spec fn read_sequence(address: u16) -> Seq<Step> {
    seq![pin_step(WRITE_PIN, true), pin_step(READ_PIN, true), mode_step(Mode::Read)]
        + address_steps(address) + seq![
        pin_step(READ_PIN, false),
        Step::Wait { ms: READ_SETTLE },
        Step::Sample,
        pin_step(READ_PIN, true),
    ]
}

/// Power-up: every pin of both ports becomes an output, both control
/// lines go idle, and the chip is given `POWER_UP_DELAY`.
pub open spec fn init_sequence() -> Seq<Step> {
    seq![
        Step::Modify { register: Register::GpioeModer, keep: 0, set: 0x55555555 },
        Step::Modify { register: Register::GpiodModer, keep: 0, set: 0x55555555 },
        pin_step(READ_PIN, true),
        pin_step(WRITE_PIN, true),
        Step::Wait { ms: POWER_UP_DELAY },
    ]
}

impl Bank {
    /// What the address pins carry.
    pub open spec fn address(self) -> u16 {
        address_of(self.gpioe.odr, self.gpiod.odr)
    }

    /// What the output register holds for the data pins.
    pub open spec fn data(self) -> u8 {
        data_of(self.gpiod.odr)
    }

    /// Level of the write-enable line: `true` is high, which is idle.
    pub open spec fn write_pin(self) -> bool {
        self.gpioe.odr & WRITE_PIN != 0
    }

    /// Level of the read-enable line: `true` is high, which is idle.
    pub open spec fn read_pin(self) -> bool {
        self.gpioe.odr & READ_PIN != 0
    }

    /// Whether the data pins are configured in the given direction.
    pub open spec fn in_mode(self, mode: Mode) -> bool {
        direction_of(self.gpiod.moder) == mode.pattern()
    }

    /// The named register's value.
    pub open spec fn get(self, register: Register) -> u32 {
        match register {
            Register::GpiodModer => self.gpiod.moder,
            Register::GpiodOdr => self.gpiod.odr,
            Register::GpioeModer => self.gpioe.moder,
            Register::GpioeOdr => self.gpioe.odr,
        }
    }

    /// The bank with one register replaced.
    pub open spec fn set(self, register: Register, value: u32) -> Bank {
        match register {
            Register::GpiodModer => Bank { gpiod: Port { moder: value, odr: self.gpiod.odr }, gpioe: self.gpioe },
            Register::GpiodOdr => Bank { gpiod: Port { moder: self.gpiod.moder, odr: value }, gpioe: self.gpioe },
            Register::GpioeModer => Bank { gpiod: self.gpiod, gpioe: Port { moder: value, odr: self.gpioe.odr } },
            Register::GpioeOdr => Bank { gpiod: self.gpiod, gpioe: Port { moder: self.gpioe.moder, odr: value } },
        }
    }

    /// The registers once the platform has carried out `step`.
    pub open spec fn apply(self, step: Step) -> Bank {
        match step {
            Step::Modify { register, keep, set } => self.set(register, merged(self.get(register), keep, set)),
            Step::Wait { ms } => self,
            Step::Sample => self,
        }
    }

    /// The registers once the platform has carried out `steps` in order.
    pub open spec fn after(self, steps: Seq<Step>) -> Bank
        decreases steps.len(),
    {
        if steps.len() == 0 {
            self
        } else {
            self.after(steps.drop_last()).apply(steps.last())
        }
    }

    /// Carrying out one more step applies it to the result of the others.
    pub proof fn lemma_after_push(self, steps: Seq<Step>, step: Step)
        ensures
            self.after(steps.push(step)) == self.after(steps).apply(step),
    {
        assert(steps.push(step).drop_last() =~= steps);
    }

    /// Carrying out a single step is applying it.
    pub proof fn lemma_after_one(self, step: Step)
        ensures
            self.after(seq![step]) == self.apply(step),
    {
        assert(seq![step].drop_last() =~= Seq::<Step>::empty());
        assert(self.after(Seq::<Step>::empty()) == self);
    }

    /// Carrying out two runs of steps one after the other is carrying out
    /// their concatenation.
    pub proof fn lemma_after_concat(self, first: Seq<Step>, second: Seq<Step>)
        ensures
            self.after(first + second) == self.after(first).after(second),
        decreases second.len(),
    {
        if second.len() == 0 {
            assert(first + second =~= first);
        } else {
            self.lemma_after_concat(first, second.drop_last());
            assert((first + second).drop_last() =~= first + second.drop_last());
            assert((first + second).last() == second.last());
        }
    }

    /// Driving an address and reading it back from the two output
    /// registers gives the same address. The data half of port D, the
    /// control half of port E and both mode registers are untouched.
    pub proof fn lemma_address_round_trip(self, value: u16)
        ensures
            self.after(address_steps(value)).address() == value,
            self.after(address_steps(value)).data() == self.data(),
            self.after(address_steps(value)).gpiod.odr & 0xff00 == self.gpiod.odr & 0xff00,
            self.after(address_steps(value)).gpioe.odr & 0xff == self.gpioe.odr & 0xff,
            self.after(address_steps(value)).write_pin() == self.write_pin(),
            self.after(address_steps(value)).read_pin() == self.read_pin(),
            self.after(address_steps(value)).gpiod.moder == self.gpiod.moder,
            self.after(address_steps(value)).gpioe.moder == self.gpioe.moder,
    {
        let high = address_steps(value)[0];
        let low = address_steps(value)[1];
        self.lemma_after_one(high);
        self.lemma_after_push(seq![high], low);
        assert(address_steps(value) =~= seq![high].push(low));
        lemma_address_bits(self.gpioe.odr, self.gpiod.odr, value);
    }

    /// Switching the data pins to outputs and back to inputs moves neither
    /// control line: port E is untouched, and so is port D's output
    /// register.
    pub proof fn lemma_mode_switch_keeps_control_lines(self)
        ensures
            self.apply(mode_step(Mode::Write)).apply(mode_step(Mode::Read)).gpioe == self.gpioe,
            self.apply(mode_step(Mode::Write)).apply(mode_step(Mode::Read)).gpiod.odr == self.gpiod.odr,
            self.apply(mode_step(Mode::Write)).apply(mode_step(Mode::Read)).write_pin() == self.write_pin(),
            self.apply(mode_step(Mode::Write)).apply(mode_step(Mode::Read)).read_pin() == self.read_pin(),
            self.apply(mode_step(Mode::Write)).apply(mode_step(Mode::Read)).in_mode(Mode::Read),
            self.apply(mode_step(Mode::Write)).write_pin() == self.write_pin(),
            self.apply(mode_step(Mode::Write)).read_pin() == self.read_pin(),
    {
        lemma_mode_bits(self.apply(mode_step(Mode::Write)).gpiod.moder, 0);
    }

    /// The registers after one write cycle: the data pins are outputs and
    /// carry `byte`, the address pins carry `address`, write-enable is
    /// high, and read-enable is where it was.
    pub proof fn lemma_pulse_bank(self, byte: u8, address: u16)
        ensures
            self.after(pulse(byte, address)).in_mode(Mode::Write),
            self.after(pulse(byte, address)).address() == address,
            self.after(pulse(byte, address)).data() == byte,
            self.after(pulse(byte, address)).write_pin(),
            self.after(pulse(byte, address)).read_pin() == self.read_pin(),
    {
        let s1 = mode_step(Mode::Write);
        let s2 = address_steps(address)[0];
        let s3 = address_steps(address)[1];
        let s4 = data_step(byte);
        let s5 = pin_step(WRITE_PIN, false);
        let s6 = Step::Wait { ms: WRITE_HOLD };
        let s7 = pin_step(WRITE_PIN, true);
        let e = Seq::<Step>::empty();
        let b1 = self.apply(s1);
        let b3 = b1.apply(s2).apply(s3);
        let b4 = b3.apply(s4);
        let b6 = b4.apply(s5).apply(s6);
        assert(pulse(byte, address) =~= e.push(s1).push(s2).push(s3).push(s4).push(s5).push(s6).push(
            s7,
        ));
        assert(self.after(e) == self);
        self.lemma_after_push(e, s1);
        self.lemma_after_push(e.push(s1), s2);
        self.lemma_after_push(e.push(s1).push(s2), s3);
        self.lemma_after_push(e.push(s1).push(s2).push(s3), s4);
        self.lemma_after_push(e.push(s1).push(s2).push(s3).push(s4), s5);
        self.lemma_after_push(e.push(s1).push(s2).push(s3).push(s4).push(s5), s6);
        self.lemma_after_push(e.push(s1).push(s2).push(s3).push(s4).push(s5).push(s6), s7);
        lemma_mode_bits(self.gpiod.moder, 0x5555);
        lemma_address_bits(b1.gpioe.odr, b1.gpiod.odr, address);
        lemma_data_bits(b3.gpioe.odr, b3.gpiod.odr, byte);
        lemma_write_pin_bits(b4.gpioe.odr, b4.gpiod.odr, 0);
        lemma_write_pin_bits(b6.gpioe.odr, b6.gpiod.odr, 0x40);
    }
}

/// The new value of a register under a masked update.
pub fn merge(current: u32, keep: u32, set: u32) -> (r: u32)
    ensures
        r == merged(current, keep, set),
{
    (current & keep) | set
}


/// What a masked update of port D's mode register does to the data pins'
/// direction and to the other pins' mode bits.
pub proof fn lemma_mode_bits(moder: u32, pattern: u32)
    by (bit_vector)
    requires
        pattern <= 0xffff,
    ensures
        direction_of(merged(moder, 0xffff, pattern << 16)) == pattern,
        merged(moder, 0xffff, pattern << 16) & 0xffff == moder & 0xffff,
{
}

/// What a masked update of port D's output register does to the data and
/// to the address.
pub proof fn lemma_data_bits(control: u32, shared: u32, value: u8)
    by (bit_vector)
    ensures
        data_of(merged(shared, 0xff, (value as u32) << 8)) == value,
        address_of(control, merged(shared, 0xff, (value as u32) << 8)) == address_of(control, shared),
        merged(shared, 0xff, (value as u32) << 8) & 0xff == shared & 0xff,
{
}

/// What the two masked updates of the address do to the address, to the
/// data and to the control lines.
pub proof fn lemma_address_bits(control: u32, shared: u32, value: u16)
    by (bit_vector)
    ensures
        address_of(
            merged(control, 0xff, (value & 0xff00) as u32),
            merged(shared, 0xff00, (value & 0xff) as u32),
        ) == value,
        data_of(merged(shared, 0xff00, (value & 0xff) as u32)) == data_of(shared),
        merged(shared, 0xff00, (value & 0xff) as u32) & 0xff00 == shared & 0xff00,
        merged(control, 0xff, (value & 0xff00) as u32) & 0xff == control & 0xff,
        merged(control, 0xff, (value & 0xff00) as u32) & 0x40 == control & 0x40,
        merged(control, 0xff, (value & 0xff00) as u32) & 0x08 == control & 0x08,
{
}

/// What a masked update of write-enable does to both control lines and to
/// the address.
pub proof fn lemma_write_pin_bits(control: u32, shared: u32, set: u32)
    by (bit_vector)
    requires
        set == 0 || set == 0x40,
    ensures
        (merged(control, !0x40u32, set) & 0x40 != 0) == (set != 0),
        merged(control, !0x40u32, set) & 0x08 == control & 0x08,
        address_of(merged(control, !0x40u32, set), shared) == address_of(control, shared),
{
}

/// What a masked update of read-enable does to both control lines and to
/// the address.
pub proof fn lemma_read_pin_bits(control: u32, shared: u32, set: u32)
    by (bit_vector)
    requires
        set == 0 || set == 0x08,
    ensures
        (merged(control, !0x08u32, set) & 0x08 != 0) == (set != 0),
        merged(control, !0x08u32, set) & 0x40 == control & 0x40,
        address_of(merged(control, !0x08u32, set), shared) == address_of(control, shared),
{
}

/// A full write of the all-outputs pattern: what the register then holds.
pub proof fn lemma_all_outputs(moder: u32)
    by (bit_vector)
    ensures
        merged(moder, 0, 0x55555555) == 0x55555555,
        direction_of(0x55555555) == 0x5555,
{
}

/// The data half of a sampled register fits in a byte.
pub proof fn lemma_data_fits(shared: u32)
    by (bit_vector)
    ensures
        (shared & 0xff00) >> 8 <= 0xff,
{
}

/// The driver for one SST39SF040 on ports D and E.
///
/// `gpiod` and `gpioe` are the driver's copies of the registers. `pending`
/// holds the steps decided so far that the platform has not yet taken.
pub struct SST39SF040 {
    pub gpiod: Port,
    pub gpioe: Port,
    pub pending: Vec<Step>,
}

impl SST39SF040 {
    /// The driver's copy of the registers.
    pub open spec fn bank(&self) -> Bank {
        Bank { gpiod: self.gpiod, gpioe: self.gpioe }
    }

    /// This state arises from `before` by queueing `steps` and following
    /// them in the copy of the registers.
    pub open spec fn issued(&self, before: SST39SF040, steps: Seq<Step>) -> bool {
        &&& self.pending@ == before.pending@ + steps
        &&& self.bank() == before.bank().after(steps)
    }

    /// Two runs of steps issued one after the other are their
    /// concatenation issued at once.
    pub proof fn lemma_issued_then(
        &self,
        middle: SST39SF040,
        before: SST39SF040,
        first: Seq<Step>,
        second: Seq<Step>,
    )
        requires
            middle.issued(before, first),
            self.issued(middle, second),
        ensures
            self.issued(before, first + second),
    {
        before.bank().lemma_after_concat(first, second);
        assert(self.pending@ =~= before.pending@ + (first + second));
    }

    /// Queues one masked register update and follows it in the copy.
    fn modify(&mut self, register: Register, keep: u32, set: u32)
        ensures
            final(self).issued(*old(self), seq![(Step::Modify { register, keep, set })]),
            final(self).bank() == old(self).bank().apply((Step::Modify { register, keep, set })),
    {
        match register {
            Register::GpiodModer => {
                self.gpiod.moder = merge(self.gpiod.moder, keep, set);
            },
            Register::GpiodOdr => {
                self.gpiod.odr = merge(self.gpiod.odr, keep, set);
            },
            Register::GpioeModer => {
                self.gpioe.moder = merge(self.gpioe.moder, keep, set);
            },
            Register::GpioeOdr => {
                self.gpioe.odr = merge(self.gpioe.odr, keep, set);
            },
        }
        self.pending.push(Step::Modify { register, keep, set });
        proof {
            old(self).bank().lemma_after_one(Step::Modify { register, keep, set });
            assert(self.pending@ =~= old(self).pending@ + seq![(Step::Modify { register, keep, set })]);
        }
    }

    /// Requests a delay of `ms` timer ticks. The registers stay as they are.
    pub fn sleep(&mut self, ms: u16)
        ensures
            final(self).issued(*old(self), seq![(Step::Wait { ms })]),
            final(self).bank() == old(self).bank(),
    {
        self.pending.push(Step::Wait { ms });
        proof {
            old(self).bank().lemma_after_one(Step::Wait { ms });
            assert(self.pending@ =~= old(self).pending@ + seq![(Step::Wait { ms })]);
        }
    }

    /// Makes the data pins outputs (`Mode::Write`) or inputs (`Mode::Read`).
    /// The mode bits of the address-low pins and every other register stay
    /// as they are, so no control line moves.
    pub fn configure_data_mode(&mut self, mode: Mode)
        ensures
            final(self).issued(*old(self), seq![mode_step(mode)]),
            final(self).bank().in_mode(mode),
            final(self).gpiod.moder & 0xffff == old(self).gpiod.moder & 0xffff,
            final(self).gpiod.odr == old(self).gpiod.odr,
            final(self).gpioe == old(self).gpioe,
    {
        let pattern = mode.bits();
        proof {
            lemma_mode_bits(self.gpiod.moder, pattern);
        }
        self.modify(Register::GpiodModer, 0xffff, pattern << 16);
    }

    /// Puts `value` on the data pins. The address-low half of the same
    /// register, and with it the address, stays as it is.
    pub fn set_data_pins(&mut self, value: u8)
        ensures
            final(self).issued(*old(self), seq![data_step(value)]),
            final(self).bank().data() == value,
            final(self).bank().address() == old(self).bank().address(),
            final(self).gpiod.odr & 0xff == old(self).gpiod.odr & 0xff,
            final(self).gpiod.moder == old(self).gpiod.moder,
            final(self).gpioe == old(self).gpioe,
    {
        proof {
            lemma_data_bits(self.gpioe.odr, self.gpiod.odr, value);
        }
        self.modify(Register::GpiodOdr, 0xff, (value as u32) << 8);
    }

    /// Puts `value` on the address pins: its high byte on port E, its low
    /// byte on the low half of port D. Reading the address back gives
    /// `value`; the data half of port D and the control half of port E stay
    /// as they are.
    pub fn set_address_pins(&mut self, value: u16)
        ensures
            final(self).issued(*old(self), address_steps(value)),
            final(self).bank().address() == value,
            final(self).bank().data() == old(self).bank().data(),
            final(self).bank().write_pin() == old(self).bank().write_pin(),
            final(self).bank().read_pin() == old(self).bank().read_pin(),
            final(self).gpiod.odr & 0xff00 == old(self).gpiod.odr & 0xff00,
            final(self).gpioe.odr & 0xff == old(self).gpioe.odr & 0xff,
            final(self).gpiod.moder == old(self).gpiod.moder,
            final(self).gpioe.moder == old(self).gpioe.moder,
    {
        proof {
            lemma_address_bits(self.gpioe.odr, self.gpiod.odr, value);
        }
        self.modify(Register::GpioeOdr, 0xff, (value & 0xff00) as u32);
        let ghost middle = *self;
        self.modify(Register::GpiodOdr, 0xff00, (value & 0xff) as u32);
        proof {
            self.lemma_issued_then(
                middle,
                *old(self),
                seq![(Step::Modify { register: Register::GpioeOdr, keep: 0xff, set: (value & 0xff00) as u32 })],
                seq![(Step::Modify { register: Register::GpiodOdr, keep: 0xff00, set: (value & 0xff) as u32 })],
            );
            assert(address_steps(value) =~= seq![
                (Step::Modify { register: Register::GpioeOdr, keep: 0xff, set: (value & 0xff00) as u32 }),
            ] + seq![
                (Step::Modify { register: Register::GpiodOdr, keep: 0xff00, set: (value & 0xff) as u32 }),
            ]);
        }
    }

    /// Requests a sample of the data pins. The platform reports the input
    /// register it read; `sampled_byte` gives the data byte in it.
    pub fn read_data_pins(&mut self)
        requires
            old(self).bank().in_mode(Mode::Read),
        ensures
            final(self).issued(*old(self), seq![Step::Sample]),
            final(self).bank() == old(self).bank(),
    {
        self.pending.push(Step::Sample);
        proof {
            old(self).bank().lemma_after_one(Step::Sample);
            assert(self.pending@ =~= old(self).pending@ + seq![Step::Sample]);
        }
    }

    /// The data byte in a sampled input register of port D.
    pub fn sampled_byte(idr: u32) -> (byte: u8)
        ensures
            byte == data_of(idr),
    {
        proof {
            lemma_data_fits(idr);
        }
        ((idr & 0xff00) >> 8) as u8
    }

    /// Drives the write-enable line high (`true`, idle) or low (`false`,
    /// asserted). Read-enable and the address stay as they are.
    pub fn set_write_pin(&mut self, state: bool)
        ensures
            final(self).issued(*old(self), seq![pin_step(WRITE_PIN, state)]),
            final(self).bank().write_pin() == state,
            final(self).bank().read_pin() == old(self).bank().read_pin(),
            final(self).bank().address() == old(self).bank().address(),
            final(self).gpiod == old(self).gpiod,
            final(self).gpioe.moder == old(self).gpioe.moder,
    {
        let set: u32 = if state { WRITE_PIN } else { 0 };
        proof {
            lemma_write_pin_bits(self.gpioe.odr, self.gpiod.odr, set);
        }
        self.modify(Register::GpioeOdr, !WRITE_PIN, set);
    }

    /// Drives the read-enable line high (`true`, idle) or low (`false`,
    /// asserted). Write-enable and the address stay as they are.
    pub fn set_read_pin(&mut self, state: bool)
        ensures
            final(self).issued(*old(self), seq![pin_step(READ_PIN, state)]),
            final(self).bank().read_pin() == state,
            final(self).bank().write_pin() == old(self).bank().write_pin(),
            final(self).bank().address() == old(self).bank().address(),
            final(self).gpiod == old(self).gpiod,
            final(self).gpioe.moder == old(self).gpioe.moder,
    {
        let set: u32 = if state { READ_PIN } else { 0 };
        proof {
            lemma_read_pin_bits(self.gpioe.odr, self.gpiod.odr, set);
        }
        self.modify(Register::GpioeOdr, !READ_PIN, set);
    }

    /// Takes over ports D and E, whose registers hold `gpiod` and `gpioe`:
    /// makes every pin an output, idles both control lines and gives the
    /// chip `POWER_UP_DELAY`. The output registers keep what they held but
    /// for the two control lines.
    pub fn new(gpiod: Port, gpioe: Port) -> (sst39: SST39SF040)
        ensures
            sst39.pending@ == init_sequence(),
            sst39.bank() == (Bank { gpiod, gpioe }).after(init_sequence()),
            sst39.gpiod.moder == 0x55555555,
            sst39.gpioe.moder == 0x55555555,
            sst39.bank().in_mode(Mode::Write),
            sst39.bank().write_pin(),
            sst39.bank().read_pin(),
            sst39.bank().address() == (Bank { gpiod, gpioe }).address(),
            sst39.gpiod.odr == gpiod.odr,
    {
        let mut sst39 = SST39SF040 { gpiod, gpioe, pending: Vec::new() };
        let ghost s0 = sst39;
        proof {
            lemma_all_outputs(gpioe.moder);
            lemma_all_outputs(gpiod.moder);
        }
        sst39.modify(Register::GpioeModer, 0, 0x55555555);
        let ghost s1 = sst39;
        sst39.modify(Register::GpiodModer, 0, 0x55555555);
        let ghost s2 = sst39;
        sst39.set_read_pin(true);
        let ghost s3 = sst39;
        sst39.set_write_pin(true);
        let ghost s4 = sst39;
        sst39.sleep(POWER_UP_DELAY);
        proof {
            let a = seq![(Step::Modify { register: Register::GpioeModer, keep: 0, set: 0x55555555 })];
            let b = seq![(Step::Modify { register: Register::GpiodModer, keep: 0, set: 0x55555555 })];
            let c = seq![pin_step(READ_PIN, true)];
            let d = seq![pin_step(WRITE_PIN, true)];
            let e = seq![(Step::Wait { ms: POWER_UP_DELAY })];
            s2.lemma_issued_then(s1, s0, a, b);
            s3.lemma_issued_then(s2, s0, a + b, c);
            s4.lemma_issued_then(s3, s0, a + b + c, d);
            sst39.lemma_issued_then(s4, s0, a + b + c + d, e);
            assert(init_sequence() =~= a + b + c + d + e);
            assert(sst39.pending@ =~= init_sequence());
        }
        sst39
    }

    /// Hands the queued steps to the platform, oldest first, and empties
    /// the queue.
    pub fn take_pending(&mut self) -> (steps: Vec<Step>)
        ensures
            steps@ == old(self).pending@,
            final(self).pending@ == Seq::<Step>::empty(),
            final(self).bank() == old(self).bank(),
    {
        let mut steps: Vec<Step> = Vec::new();
        steps.append(&mut self.pending);
        assert(steps@ =~= old(self).pending@);
        steps
    }

    /// Reads the byte at `address`: queues one read cycle. Write-enable is
    /// idle throughout; the sample is taken with the data pins as inputs,
    /// after read-enable has been low for `READ_SETTLE`. The byte is
    /// `sampled_byte` of the input register that the platform reports.
    pub fn read_byte(&mut self, address: u16)
        ensures
            final(self).issued(*old(self), read_sequence(address)),
            final(self).bank().in_mode(Mode::Read),
            final(self).bank().address() == address,
            final(self).bank().write_pin(),
            final(self).bank().read_pin(),
            final(self).bank().data() == old(self).bank().data(),
    {
        let ghost s0 = *self;
        self.set_write_pin(true);
        let ghost s1 = *self;
        self.set_read_pin(true);
        let ghost s2 = *self;
        self.configure_data_mode(Mode::Read);
        let ghost s3 = *self;
        self.set_address_pins(address);
        let ghost s4 = *self;
        self.set_read_pin(false);
        let ghost s5 = *self;
        self.sleep(READ_SETTLE);
        let ghost s6 = *self;
        self.read_data_pins();
        let ghost s7 = *self;
        self.set_read_pin(true);
        proof {
            let a = seq![pin_step(WRITE_PIN, true)];
            let b = seq![pin_step(READ_PIN, true)];
            let c = seq![mode_step(Mode::Read)];
            let d = address_steps(address);
            let e = seq![pin_step(READ_PIN, false)];
            let f = seq![(Step::Wait { ms: READ_SETTLE })];
            let g = seq![Step::Sample];
            let h = seq![pin_step(READ_PIN, true)];
            s2.lemma_issued_then(s1, s0, a, b);
            s3.lemma_issued_then(s2, s0, a + b, c);
            s4.lemma_issued_then(s3, s0, a + b + c, d);
            s5.lemma_issued_then(s4, s0, a + b + c + d, e);
            s6.lemma_issued_then(s5, s0, a + b + c + d + e, f);
            s7.lemma_issued_then(s6, s0, a + b + c + d + e + f, g);
            self.lemma_issued_then(s7, s0, a + b + c + d + e + f + g, h);
            assert(read_sequence(address) =~= a + b + c + d + e + f + g + h);
        }
    }

    /// Issues one write cycle: drives `address` and `byte` with the data
    /// pins as outputs, then holds write-enable low for `WRITE_HOLD` and
    /// releases it.
    pub fn set_out_byte(&mut self, byte: u8, address: u16)
        ensures
            final(self).issued(*old(self), pulse(byte, address)),
            final(self).bank().in_mode(Mode::Write),
            final(self).bank().address() == address,
            final(self).bank().data() == byte,
            final(self).bank().write_pin(),
            final(self).bank().read_pin() == old(self).bank().read_pin(),
    {
        let ghost s0 = *self;
        self.configure_data_mode(Mode::Write);
        let ghost s1 = *self;
        self.set_address_pins(address);
        let ghost s2 = *self;
        self.set_data_pins(byte);
        let ghost s3 = *self;
        self.set_write_pin(false);
        let ghost s4 = *self;
        self.sleep(WRITE_HOLD);
        let ghost s5 = *self;
        self.set_write_pin(true);
        proof {
            let a = seq![mode_step(Mode::Write)];
            let b = address_steps(address);
            let c = seq![data_step(byte)];
            let d = seq![pin_step(WRITE_PIN, false)];
            let e = seq![(Step::Wait { ms: WRITE_HOLD })];
            let f = seq![pin_step(WRITE_PIN, true)];
            s2.lemma_issued_then(s1, s0, a, b);
            s3.lemma_issued_then(s2, s0, a + b, c);
            s4.lemma_issued_then(s3, s0, a + b + c, d);
            s5.lemma_issued_then(s4, s0, a + b + c + d, e);
            self.lemma_issued_then(s5, s0, a + b + c + d + e, f);
            assert(pulse(byte, address) =~= a + b + c + d + e + f);
        }
    }

    /// Erases the whole chip: queues the six command cycles in order, then
    /// the erase budget. Completion is not checked.
    pub fn erase_chip(&mut self)
        ensures
            final(self).issued(*old(self), erase_sequence()),
            final(self).bank().in_mode(Mode::Write),
            final(self).bank().address() == 0x5555,
            final(self).bank().data() == 0x10,
            final(self).bank().write_pin(),
            final(self).bank().read_pin() == old(self).bank().read_pin(),
    {
        let ghost s0 = *self;
        self.set_out_byte(0xaa, 0x5555);
        let ghost s1 = *self;
        self.set_out_byte(0x55, 0x2aaa);
        let ghost s2 = *self;
        self.set_out_byte(0x80, 0x5555);
        let ghost s3 = *self;
        self.set_out_byte(0xaa, 0x5555);
        let ghost s4 = *self;
        self.set_out_byte(0x55, 0x2aaa);
        let ghost s5 = *self;
        self.set_out_byte(0x10, 0x5555);
        let ghost s6 = *self;
        self.sleep(ERASE_BUDGET);
        proof {
            let a = pulse(0xaa, 0x5555);
            let b = pulse(0x55, 0x2aaa);
            let c = pulse(0x80, 0x5555);
            let d = pulse(0x10, 0x5555);
            let e = seq![(Step::Wait { ms: ERASE_BUDGET })];
            s2.lemma_issued_then(s1, s0, a, b);
            s3.lemma_issued_then(s2, s0, a + b, c);
            s4.lemma_issued_then(s3, s0, a + b + c, a);
            s5.lemma_issued_then(s4, s0, a + b + c + a, b);
            s6.lemma_issued_then(s5, s0, a + b + c + a + b, d);
            self.lemma_issued_then(s6, s0, a + b + c + a + b + d, e);
        }
    }

    /// Programs `byte` at `address`: queues the three unlock cycles, the
    /// settle delay and the payload cycle, then clears the data pins.
    /// Completion is not checked.
    pub fn write_byte(&mut self, byte: u8, address: u16)
        ensures
            final(self).issued(*old(self), program_sequence(byte, address)),
            final(self).bank().in_mode(Mode::Write),
            final(self).bank().address() == address,
            final(self).bank().data() == 0,
            final(self).bank().write_pin(),
            final(self).bank().read_pin() == old(self).bank().read_pin(),
    {
        let ghost s0 = *self;
        self.set_out_byte(0xaa, 0x5555);
        let ghost s1 = *self;
        self.set_out_byte(0x55, 0x2aaa);
        let ghost s2 = *self;
        self.set_out_byte(0xa0, 0x5555);
        let ghost s3 = *self;
        self.sleep(PROGRAM_SETTLE);
        let ghost s4 = *self;
        self.set_out_byte(byte, address);
        let ghost s5 = *self;
        self.set_data_pins(0);
        proof {
            let a = pulse(0xaa, 0x5555);
            let b = pulse(0x55, 0x2aaa);
            let c = pulse(0xa0, 0x5555);
            let d = seq![(Step::Wait { ms: PROGRAM_SETTLE })];
            let e = pulse(byte, address);
            let f = seq![data_step(0)];
            s2.lemma_issued_then(s1, s0, a, b);
            s3.lemma_issued_then(s2, s0, a + b, c);
            s4.lemma_issued_then(s3, s0, a + b + c, d);
            s5.lemma_issued_then(s4, s0, a + b + c + d, e);
            self.lemma_issued_then(s5, s0, a + b + c + d + e, f);
        }
    }
}

} // verus!
