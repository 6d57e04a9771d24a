//! The command dispatcher: from what the platform reports to what it has to
//! do next.
//!
//! The platform owns the UART, the ports and the timer. It carries out the
//! actions the dispatcher hands it, in order, and reports back what the one
//! input among them produced: the words received, or the sampled input
//! register.

use vstd::prelude::*;
use vstd::string::StringSliceAdditionalSpecFns;
use crate::io::{
    Bank, Port, Step, SST39SF040, data_of, erase_sequence, init_sequence, program_sequence,
    read_sequence,
};
use crate::protocol::{
    bytes_equal, decimal_byte, format_read, handshake_reply, parse_byte, read_reply,
};
use crate::serial::{Serial, buffer_as_slice, buffer_new, buffered, narrowed, widened};

verus! {

/// The address that read and write commands operate on.
pub const TARGET: u16 = 0x72;

/// What the dispatcher is waiting for.
#[derive(Clone, Copy, Debug, PartialEq, Eq, Structural)]
pub enum Phase {
    /// The eight bytes of the handshake probe.
    Handshake,
    /// The four bytes of a command.
    Command,
    /// The three bytes of a write command's payload.
    Payload,
    /// The sample of a read cycle.
    Reading,
    /// Nothing: the platform reported what was not asked for.
    Halted,
}

/// What the platform reports.
#[derive(Debug, PartialEq, Eq)]
pub enum Event {
    /// The words read from the receive data register, oldest first.
    Received(Vec<u16>),
    /// The input register of port D as sampled.
    Sampled(u32),
}

/// What the platform has to do.
#[derive(Clone, Copy, Debug, PartialEq, Eq, Structural)]
pub enum Action {
    /// Carry out one step on the flash bus. For `Step::Sample`, report
    /// `Event::Sampled` once all actions are done.
    Bus(Step),
    /// Write the word to the transmit data register once it is free.
    Transmit(u16),
    /// Read this many words from the receive data register and report them
    /// in `Event::Received`.
    Receive(usize),
    /// Stop: the platform did not keep to the dialogue, and the device
    /// does not recover.
    Halt,
}

/// How the dispatcher answers an event.
pub struct Reaction {
    /// What it waits for next.
    pub phase: Phase,
    /// The bus steps, in order.
    pub steps: Seq<Step>,
    /// The bytes sent once the bus steps are done.
    pub reply: Seq<u8>,
    /// What follows the reply.
    pub next: Seq<Action>,
}

/// The bus steps as actions.
pub open spec fn bus_actions(steps: Seq<Step>) -> Seq<Action> {
    steps.map_values(|step: Step| Action::Bus(step))
}

/// The words to send as actions.
pub open spec fn transmit_actions(words: Seq<u16>) -> Seq<Action> {
    words.map_values(|word: u16| Action::Transmit(word))
}

impl Reaction {
    /// The actions handed to the platform: the bus steps, the reply, and
    /// what follows.
    pub open spec fn actions(self) -> Seq<Action> {
        bus_actions(self.steps) + transmit_actions(widened(self.reply)) + self.next
    }
}

/// The answer that ends the dialogue.
pub open spec fn halting() -> Reaction {
    Reaction {
        phase: Phase::Halted,
        steps: Seq::empty(),
        reply: Seq::empty(),
        next: seq![Action::Halt],
    }
}

/// A reply without bus activity, followed by the next read of `amount`
/// bytes.
pub open spec fn replying(phase: Phase, reply: Seq<u8>, amount: usize) -> Reaction {
    Reaction { phase, steps: Seq::empty(), reply, next: seq![Action::Receive(amount)] }
}

/// The answer to a command. `READ` starts a read cycle at `TARGET` and
/// waits for its sample. `WRIT` acknowledges and asks for the payload.
/// `ERAS` erases the chip and confirms. Any other command is answered with
/// `UNRECOG?`, and the next command is awaited.
pub open spec fn command_reaction(command: Seq<u8>) -> Reaction {
    if command == "READ".spec_bytes() {
        Reaction {
            phase: Phase::Reading,
            steps: read_sequence(TARGET),
            reply: Seq::empty(),
            next: Seq::empty(),
        }
    } else if command == "WRIT".spec_bytes() {
        replying(Phase::Payload, "got write".spec_bytes(), 3)
    } else if command == "ERAS".spec_bytes() {
        Reaction {
            phase: Phase::Command,
            steps: erase_sequence(),
            reply: "OK!".spec_bytes(),
            next: seq![Action::Receive(4)],
        }
    } else {
        replying(Phase::Command, "UNRECOG?".spec_bytes(), 4)
    }
}

/// The answer to a write command's payload. A payload that writes a byte
/// programs it at `TARGET` and is confirmed with `OK!`. Any other payload
/// leaves the bus alone and is answered with `UNRECOG?`, the one negative
/// reply of the protocol. Either way the next command is awaited.
pub open spec fn payload_reaction(payload: Seq<u8>) -> Reaction {
    match decimal_byte(payload) {
        Some(byte) => Reaction {
            phase: Phase::Command,
            steps: program_sequence(byte, TARGET),
            reply: "OK!".spec_bytes(),
            next: seq![Action::Receive(4)],
        },
        None => replying(Phase::Command, "UNRECOG?".spec_bytes(), 4),
    }
}

/// The answer to an event in a phase. An event that the phase did not ask
/// for, or words in another number than asked for, halts.
pub open spec fn reaction(phase: Phase, event: Event) -> Reaction {
    match event {
        Event::Received(words) => match phase {
            Phase::Handshake => if words@.len() == 8 {
                replying(Phase::Command, handshake_reply(narrowed(words@)), 4)
            } else {
                halting()
            },
            Phase::Command => if words@.len() == 4 {
                command_reaction(narrowed(words@))
            } else {
                halting()
            },
            Phase::Payload => if words@.len() == 3 {
                payload_reaction(narrowed(words@))
            } else {
                halting()
            },
            Phase::Reading => halting(),
            Phase::Halted => halting(),
        },
        Event::Sampled(idr) => match phase {
            Phase::Reading => replying(
                Phase::Command,
                read_reply(data_of(idr)) + "OK!".spec_bytes(),
                4,
            ),
            _ => halting(),
        },
    }
}

/// Answers the handshake probe in the first eight words received: queues
/// `UART_OK!` if their low bytes spell `UART_OK?`, `UNRECOG?` otherwise.
pub fn query_ok(conn: &mut Serial, words: &[u16])
    requires
        words@.len() >= 8,
    ensures
        final(conn).outgoing@ == old(conn).outgoing@ + widened(
            handshake_reply(narrowed(words@.take(8))),
        ),
{
    let mut recv_buffer = buffer_new();
    conn.recv(&mut recv_buffer, 8, words);
    assert(buffered(recv_buffer) =~= narrowed(words@.take(8)));
    if bytes_equal(buffer_as_slice(&recv_buffer), "UART_OK?".as_bytes()) {
        conn.send("UART_OK!");
    } else {
        conn.send("UNRECOG?");
    }
}

/// The dispatcher with the link and the driver it operates.
pub struct Dispatcher {
    pub conn: Serial,
    pub sst39: SST39SF040,
    pub phase: Phase,
}

impl Dispatcher {
    /// Between two events nothing is queued in the link or the driver, and
    /// both control lines of the bus are idle.
    pub open spec fn wf(&self) -> bool {
        &&& self.conn.outgoing@ == Seq::<u16>::empty()
        &&& self.sst39.pending@ == Seq::<Step>::empty()
        &&& self.sst39.bank().write_pin()
        &&& self.sst39.bank().read_pin()
    }

    /// Starts up on ports D and E, whose registers hold `gpiod` and
    /// `gpioe`: the driver's power-up steps, the `BOOT` banner, and the
    /// read of the handshake probe.
    pub fn new(gpiod: Port, gpioe: Port) -> (started: (Dispatcher, Vec<Action>))
        ensures
            started.0.wf(),
            started.0.phase == Phase::Handshake,
            started.0.sst39.bank() == (Bank { gpiod, gpioe }).after(init_sequence()),
            started.1@ == bus_actions(init_sequence()) + transmit_actions(
                widened("BOOT".spec_bytes()),
            ) + seq![Action::Receive(8)],
    {
        let mut dispatcher = Dispatcher {
            conn: Serial::new(),
            sst39: SST39SF040::new(gpiod, gpioe),
            phase: Phase::Handshake,
        };
        dispatcher.conn.send("BOOT");
        assert(dispatcher.conn.outgoing@ =~= widened("BOOT".spec_bytes()));
        let mut actions = dispatcher.flush();
        actions.push(Action::Receive(8));
        (dispatcher, actions)
    }

    /// Turns what the driver and the link have queued into actions, bus
    /// steps first, and empties both queues.
    fn flush(&mut self) -> (actions: Vec<Action>)
        ensures
            actions@ == bus_actions(old(self).sst39.pending@) + transmit_actions(
                old(self).conn.outgoing@,
            ),
            final(self).conn.outgoing@ == Seq::<u16>::empty(),
            final(self).sst39.pending@ == Seq::<Step>::empty(),
            final(self).phase == old(self).phase,
            final(self).sst39.bank() == old(self).sst39.bank(),
    {
        let steps = self.sst39.take_pending();
        let words = self.conn.take_outgoing();
        let mut actions: Vec<Action> = Vec::new();
        let mut i: usize = 0;
        while i < steps.len()
            invariant
                i <= steps@.len(),
                actions@ == bus_actions(steps@.take(i as int)),
            decreases steps@.len() - i,
        {
            actions.push(Action::Bus(steps[i]));
            i += 1;
            assert(actions@ =~= bus_actions(steps@.take(i as int)));
        }
        assert(steps@.take(i as int) =~= steps@);
        let mut j: usize = 0;
        while j < words.len()
            invariant
                j <= words@.len(),
                actions@ == bus_actions(steps@) + transmit_actions(words@.take(j as int)),
            decreases words@.len() - j,
        {
            actions.push(Action::Transmit(words[j]));
            j += 1;
            assert(actions@ =~= bus_actions(steps@) + transmit_actions(words@.take(j as int)));
        }
        assert(words@.take(j as int) =~= words@);
        actions
    }

    /// Gives up: from here on every event is answered with `Action::Halt`.
    fn halt(&mut self) -> (actions: Vec<Action>)
        requires
            old(self).wf(),
        ensures
            actions@ == halting().actions(),
            final(self).wf(),
            final(self).phase == Phase::Halted,
            final(self).sst39.bank() == old(self).sst39.bank(),
    {
        self.phase = Phase::Halted;
        let mut actions: Vec<Action> = Vec::new();
        actions.push(Action::Halt);
        assert(actions@ =~= halting().actions());
        actions
    }

    /// Answers a command of four words.
    fn command(&mut self, words: &[u16]) -> (actions: Vec<Action>)
        requires
            old(self).wf(),
            words@.len() == 4,
        ensures
            final(self).wf(),
            final(self).phase == command_reaction(narrowed(words@)).phase,
            final(self).sst39.bank() == old(self).sst39.bank().after(
                command_reaction(narrowed(words@)).steps,
            ),
            actions@ == command_reaction(narrowed(words@)).actions(),
    {
        let mut command = buffer_new();
        self.conn.recv(&mut command, 4, words);
        assert(words@.take(4) =~= words@);
        assert(buffered(command) =~= narrowed(words@));
        let operation = buffer_as_slice(&command);
        if bytes_equal(operation, "READ".as_bytes()) {
            self.sst39.read_byte(TARGET);
            self.phase = Phase::Reading;
            assert(self.sst39.pending@ =~= read_sequence(TARGET));
            let actions = self.flush();
            assert(actions@ =~= command_reaction(narrowed(words@)).actions());
            actions
        } else if bytes_equal(operation, "WRIT".as_bytes()) {
            self.conn.send("got write");
            self.phase = Phase::Payload;
            assert(self.conn.outgoing@ =~= widened("got write".spec_bytes()));
            let mut actions = self.flush();
            actions.push(Action::Receive(3));
            assert(actions@ =~= command_reaction(narrowed(words@)).actions());
            actions
        } else if bytes_equal(operation, "ERAS".as_bytes()) {
            self.sst39.erase_chip();
            self.conn.send("OK!");
            self.phase = Phase::Command;
            assert(self.sst39.pending@ =~= erase_sequence());
            assert(self.conn.outgoing@ =~= widened("OK!".spec_bytes()));
            let mut actions = self.flush();
            actions.push(Action::Receive(4));
            actions
        } else {
            self.conn.send("UNRECOG?");
            self.phase = Phase::Command;
            assert(self.conn.outgoing@ =~= widened("UNRECOG?".spec_bytes()));
            let mut actions = self.flush();
            actions.push(Action::Receive(4));
            assert(actions@ =~= command_reaction(narrowed(words@)).actions());
            actions
        }
    }

    /// Answers the payload of a write command, three words.
    fn payload(&mut self, words: &[u16]) -> (actions: Vec<Action>)
        requires
            old(self).wf(),
            words@.len() == 3,
        ensures
            final(self).wf(),
            final(self).phase == payload_reaction(narrowed(words@)).phase,
            final(self).sst39.bank() == old(self).sst39.bank().after(
                payload_reaction(narrowed(words@)).steps,
            ),
            actions@ == payload_reaction(narrowed(words@)).actions(),
    {
        let mut buf = buffer_new();
        self.conn.recv(&mut buf, 3, words);
        assert(words@.take(3) =~= words@);
        assert(buffered(buf) =~= narrowed(words@));
        match parse_byte(buffer_as_slice(&buf)) {
            Some(byte) => {
                self.sst39.write_byte(byte, TARGET);
                self.conn.send("OK!");
                self.phase = Phase::Command;
                assert(self.sst39.pending@ =~= program_sequence(byte, TARGET));
                assert(self.conn.outgoing@ =~= widened("OK!".spec_bytes()));
                let mut actions = self.flush();
                actions.push(Action::Receive(4));
                actions
            },
            None => {
                self.conn.send("UNRECOG?");
                self.phase = Phase::Command;
                assert(self.conn.outgoing@ =~= widened("UNRECOG?".spec_bytes()));
                let mut actions = self.flush();
                actions.push(Action::Receive(4));
                assert(actions@ =~= payload_reaction(narrowed(words@)).actions());
                actions
            },
        }
    }

    /// Answers the sample of a read cycle: the reply with the byte read,
    /// then `OK!`.
    fn sampled(&mut self, idr: u32) -> (actions: Vec<Action>)
        requires
            old(self).wf(),
        ensures
            final(self).wf(),
            final(self).phase == Phase::Command,
            final(self).sst39.bank() == old(self).sst39.bank(),
            actions@ == replying(
                Phase::Command,
                read_reply(data_of(idr)) + "OK!".spec_bytes(),
                4,
            ).actions(),
    {
        let output = SST39SF040::sampled_byte(idr);
        let read_buf = format_read(output);
        self.conn.send_bytes(read_buf.as_slice());
        self.conn.send("OK!");
        self.phase = Phase::Command;
        assert(self.conn.outgoing@ =~= widened(read_reply(data_of(idr)) + "OK!".spec_bytes()));
        let mut actions = self.flush();
        actions.push(Action::Receive(4));
        assert(actions@ =~= replying(
            Phase::Command,
            read_reply(data_of(idr)) + "OK!".spec_bytes(),
            4,
        ).actions());
        actions
    }

    /// Answers one event: moves to the next phase, follows the bus steps
    /// in the driver's copy of the registers, and returns the actions for
    /// the platform.
    pub fn step(&mut self, event: Event) -> (actions: Vec<Action>)
        requires
            old(self).wf(),
        ensures
            final(self).wf(),
            final(self).phase == reaction(old(self).phase, event).phase,
            final(self).sst39.bank() == old(self).sst39.bank().after(
                reaction(old(self).phase, event).steps,
            ),
            actions@ == reaction(old(self).phase, event).actions(),
    {
        match event {
            Event::Received(words) => match self.phase {
                Phase::Handshake => {
                    if words.len() == 8 {
                        query_ok(&mut self.conn, words.as_slice());
                        self.phase = Phase::Command;
                        assert(words@.take(8) =~= words@);
                        assert(self.conn.outgoing@ =~= widened(handshake_reply(narrowed(words@))));
                        let mut actions = self.flush();
                        actions.push(Action::Receive(4));
                        assert(actions@ =~= reaction(old(self).phase, event).actions());
                        actions
                    } else {
                        self.halt()
                    }
                },
                Phase::Command => {
                    if words.len() == 4 {
                        self.command(words.as_slice())
                    } else {
                        self.halt()
                    }
                },
                Phase::Payload => {
                    if words.len() == 3 {
                        self.payload(words.as_slice())
                    } else {
                        self.halt()
                    }
                },
                Phase::Reading => self.halt(),
                Phase::Halted => self.halt(),
            },
            Event::Sampled(idr) => match self.phase {
                Phase::Reading => self.sampled(idr),
                _ => self.halt(),
            },
        }
    }
}

} // verus!
