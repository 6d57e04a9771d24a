//! The serial link, without the UART.
//!
//! `Serial` turns what is to be sent into the words for the transmit data
//! register and queues them for the platform. What the platform has read
//! from the receive data register goes through `recv` into a fixed-capacity
//! buffer.

use vstd::prelude::*;
use vstd::string::StringSliceAdditionalSpecFns;

verus! {

/// `heapless::Vec`, a vector with inline storage for `N` items.
#[verifier::external_type_specification]
#[verifier::external_body]
#[verifier::reject_recursive_types(T)]
pub struct ExHeaplessVec<T, const N: usize>(heapless::Vec<T, N>);

/// Number of bytes a receive buffer can hold: the longest token read.
pub const CAPACITY: usize = 8;

/// The bytes a receive buffer holds, oldest first.
pub uninterp spec fn buffered(buffer: heapless::Vec<u8, 8>) -> Seq<u8>;

/// `heapless::Vec::new`: the buffer it returns holds nothing.
#[verifier::external_body]
pub(crate) fn buffer_new() -> (buffer: heapless::Vec<u8, 8>)
    ensures
        buffered(buffer) == Seq::<u8>::empty(),
{
    heapless::Vec::new()
}

/// `heapless::Vec::push`: with fewer than eight bytes held, the byte is
/// appended and the result is `Ok`; with eight held, the buffer stays as it
/// is and the byte comes back in `Err`.
#[verifier::external_body]
fn buffer_push(buffer: &mut heapless::Vec<u8, 8>, item: u8) -> (outcome: Result<(), u8>)
    ensures
        outcome is Ok <==> buffered(*old(buffer)).len() < 8,
        outcome is Ok ==> buffered(*final(buffer)) == buffered(*old(buffer)).push(item),
        outcome is Err ==> outcome->Err_0 == item && buffered(*final(buffer)) == buffered(*old(buffer)),
{
    buffer.push(item)
}

/// `heapless::Vec::as_slice`: the slice holds the buffer's bytes in order.
#[verifier::external_body]
pub(crate) fn buffer_as_slice(buffer: &heapless::Vec<u8, 8>) -> (slice: &[u8])
    ensures
        slice@ == buffered(*buffer),
{
    buffer.as_slice()
}

/// Each byte as a word for the transmit data register.
pub open spec fn widened(bytes: Seq<u8>) -> Seq<u16> {
    bytes.map_values(|byte: u8| byte as u16)
}

/// The low byte of each word read from the receive data register.
pub open spec fn narrowed(words: Seq<u16>) -> Seq<u8> {
    words.map_values(|word: u16| (word & 0xff) as u8)
}

/// The low byte of a word fits in a byte.
proof fn lemma_low_byte(word: u16)
    by (bit_vector)
    ensures
        word & 0xff <= 0xff,
{
}

/// The sending side of the link: the words waiting for the transmit data
/// register, oldest first.
pub struct Serial {
    pub outgoing: Vec<u16>,
}

impl Serial {
    /// A link with nothing to send.
    pub fn new() -> (conn: Serial)
        ensures
            conn.outgoing@ == Seq::<u16>::empty(),
    {
        Serial { outgoing: Vec::new() }
    }

    /// Queues the bytes, each widened to a word, behind what is waiting.
    pub fn send_bytes(&mut self, bytes: &[u8])
        ensures
            final(self).outgoing@ == old(self).outgoing@ + widened(bytes@),
    {
        let mut i: usize = 0;
        while i < bytes.len()
            invariant
                i <= bytes@.len(),
                self.outgoing@ == old(self).outgoing@ + widened(bytes@.take(i as int)),
            decreases bytes@.len() - i,
        {
            self.outgoing.push(bytes[i] as u16);
            i += 1;
            assert(self.outgoing@ =~= old(self).outgoing@ + widened(bytes@.take(i as int)));
        }
        assert(bytes@.take(i as int) =~= bytes@);
    }

    /// Queues the bytes of `value`, each widened to a word, behind what is
    /// waiting.
    pub fn send(&mut self, value: &str)
        ensures
            final(self).outgoing@ == old(self).outgoing@ + widened(value.spec_bytes()),
    {
        self.send_bytes(value.as_bytes());
    }

    /// Stores the low bytes of the first `amount` words in the buffer,
    /// behind what it holds. The buffer must have room for them; storing
    /// nothing asks for no room.
    pub fn recv(&self, output_buffer: &mut heapless::Vec<u8, 8>, amount: usize, words: &[u16])
        requires
            amount <= words@.len(),
            amount > 0 ==> buffered(*old(output_buffer)).len() + amount <= CAPACITY,
        ensures
            buffered(*final(output_buffer)) == buffered(*old(output_buffer)) + narrowed(
                words@.take(amount as int),
            ),
    {
        let mut i: usize = 0;
        while i < amount
            invariant
                i <= amount <= words@.len(),
                amount > 0 ==> buffered(*old(output_buffer)).len() + amount <= CAPACITY,
                buffered(*output_buffer) == buffered(*old(output_buffer)) + narrowed(
                    words@.take(i as int),
                ),
            decreases amount - i,
        {
            let word = words[i];
            proof {
                lemma_low_byte(word);
            }
            let byte = (word & 0xff) as u8;
            let stored = buffer_push(output_buffer, byte);
            assert(stored is Ok);
            i += 1;
            assert(buffered(*output_buffer) =~= buffered(*old(output_buffer)) + narrowed(
                words@.take(i as int),
            ));
        }
    }

    /// Hands the queued words to the platform, oldest first, and empties
    /// the queue.
    pub fn take_outgoing(&mut self) -> (words: Vec<u16>)
        ensures
            words@ == old(self).outgoing@,
            final(self).outgoing@ == Seq::<u16>::empty(),
    {
        let mut words: Vec<u16> = Vec::new();
        words.append(&mut self.outgoing);
        assert(words@ =~= old(self).outgoing@);
        words
    }
}

} // verus!
