//! Text output on the console.
//!
//! A string goes out in chunks, each through one call of the firmware's
//! `OutputString`. [`WriteStr`] decides what each call is given and when to
//! stop; its caller makes the calls and reports their status codes.
use core::marker::PhantomData;

use vstd::prelude::*;

use crate::system::BootServices;
use crate::status::{
    check_status, errors_have_the_high_bit, is_error, EfiResult, Error, Status, MAX_BIT,
};
use crate::system::Address;

verus! {

/// How many units the output buffer holds, the terminator among them.
pub const BUFFER_LEN: usize = 128;

/// How many characters one call sends at most.
pub const CHUNK_LEN: usize = 127;

/// The UCS-2 unit for a character: the low half of its code point.
pub open spec fn ucs2(c: char) -> u16 {
    (c as u32 % 0x1_0000) as u16
}

/// The UCS-2 units for a text, one for each character.
pub open spec fn encoded(text: Seq<char>) -> Seq<u16> {
    text.map_values(|c: char| ucs2(c))
}

/// How many of the characters that are left go out with the next call.
pub open spec fn chunk_len(pending: Seq<char>) -> int {
    if pending.len() <= CHUNK_LEN {
        pending.len() as int
    } else {
        CHUNK_LEN as int
    }
}

/// The buffer once a chunk has been written to it: the units of the chunk, the
/// terminator, and behind it whatever the buffer held there before.
pub open spec fn filled(buffer: Seq<u16>, chunk: Seq<char>) -> Seq<u16> {
    encoded(chunk) + seq![0u16] + buffer.skip(chunk.len() as int + 1)
}

/// How far a string has got on its way to the console.
pub ghost struct Writing {
    /// The protocol that the string is written to.
    pub out: Address,
    /// The characters that no call has been given yet.
    pub pending: Seq<char>,
    /// The output buffer.
    pub buffer: Seq<u16>,
}

/// What to do next with a string on its way to the console.
#[derive(Clone, Copy, Debug, PartialEq, Eq)]
pub enum WriteStep {
    /// Call `OutputString` with the arguments that [`WriteStr::arguments`]
    /// gives, and report its status code.
    Output,
    /// Nothing more: this is the result of the whole write.
    Done(EfiResult<()>),
}

/// The write of a text that has not begun: all of the text is left, and the
/// buffer is clear.
pub open spec fn write_of(out: Address, text: Seq<char>) -> Writing {
    Writing { out, pending: text, buffer: Seq::new(BUFFER_LEN as nat, |i: int| 0u16) }
}

impl Writing {
    /// The state after a step, and what the step asks for. An error that the
    /// firmware reported ends the write; otherwise the next chunk goes out, if
    /// there is one.
    pub open spec fn step(self, reply: Option<Status>) -> (Writing, WriteStep) {
        if reply is Some && is_error(reply->0) {
            (self, WriteStep::Done(Err(reply->0)))
        } else if self.pending.len() == 0 {
            (self, WriteStep::Done(Ok(())))
        } else {
            let n = chunk_len(self.pending);
            let next = Writing {
                out: self.out,
                pending: self.pending.skip(n),
                buffer: filled(self.buffer, self.pending.take(n)),
            };
            (next, WriteStep::Output)
        }
    }
}

/// Converts a character to UCS-2.
fn to_ucs2(c: char) -> (unit: u16)
    ensures
        unit == ucs2(c),
        unit as int == c as u32 as int % 0x1_0000,
        c as u32 <= 0xffff ==> unit as u32 == c as u32,
{
    let code: u32 = c as u32;
    assert(code & 0xffff == code % 0x1_0000) by (bit_vector);
    (code & 0xffff) as u16
}

/// Writes a chunk and its terminator to the start of the buffer.
fn fill(buffer: &mut [u16; 128], chunk: &str)
    requires
        chunk@.len() <= CHUNK_LEN,
    ensures
        final(buffer)@ == filled(old(buffer)@, chunk@),
{
    let ghost before = buffer@;
    let mut i: usize = 0;
    assert(buffer@ =~= encoded(chunk@.take(0)) + before.skip(0));
    for c in chars: chunk.chars()
        invariant
            i == chars.index(),
            chars.seq() == chunk@,
            chunk@.len() <= CHUNK_LEN,
            before.len() == BUFFER_LEN,
            buffer@ == encoded(chunk@.take(i as int)) + before.skip(i as int),
    {
        buffer[i] = to_ucs2(c);
        i = i + 1;
        assert(chunk@.take(i as int) =~= chunk@.take(i - 1).push(c));
        assert(buffer@ =~= encoded(chunk@.take(i as int)) + before.skip(i as int));
    }
    assert(chunk@.take(i as int) =~= chunk@);
    buffer[i] = 0;
    assert(buffer@ =~= filled(before, chunk@));
}

/// What the system table says of the consoles: the addresses of their
/// protocols.
#[derive(Clone, Copy, Debug, PartialEq, Eq, Structural)]
pub struct SystemTable {
    pub con_out: Address,
    pub std_err: Address,
}

impl BootServices {
    /// Returns a handle to the console output. `table` is what the system table
    /// holds.
    pub fn stdout(&self, table: &SystemTable) -> (output: SimpleTextOutput<'_>)
        ensures
            output.out() == table.con_out,
    {
        SimpleTextOutput::new(table.con_out)
    }

    /// Returns a handle to the console standard error. `table` is what the
    /// system table holds.
    pub fn stderr(&self, table: &SystemTable) -> (output: SimpleTextOutput<'_>)
        ensures
            output.out() == table.std_err,
    {
        SimpleTextOutput::new(table.std_err)
    }
}

/// Provides a simple interface for displaying text.
pub struct SimpleTextOutput<'e> {
    out: Address,
    _marker: PhantomData<&'e BootServices>,
}

impl<'e> SimpleTextOutput<'e> {
    /// The address of the protocol that the text goes to.
    pub closed spec fn out(&self) -> Address {
        self.out
    }

    /// Constructs a `SimpleTextOutput` from the address of a protocol.
    ///
    /// This is a low-level constructor: you most likely want to use
    /// `BootServices::stdout()` or `BootServices::stderr()` instead. The
    /// address must be that of a valid protocol, and the `SimpleTextOutput`
    /// must be dropped before exiting boot services.
    pub fn new(out: Address) -> (output: SimpleTextOutput<'e>)
        ensures
            output.out() == out,
    {
        SimpleTextOutput { out, _marker: PhantomData }
    }

    /// Starts to write a string to the handle.
    pub fn write_str<'s>(&self, s: &'s str) -> (write: WriteStr<'s>)
        ensures
            write@ == write_of(self.out(), s@),
            write@.out == self.out(),
            write@.pending == s@,
            write@.buffer.len() == 128,
            forall|i: int| 0 <= i < 128 ==> #[trigger] write@.buffer[i] == 0,
    {
        let write = WriteStr { out: self.out, rest: s, left: s.unicode_len(), buffer: [0u16; 128] };
        assert(write@.buffer =~= Seq::new(BUFFER_LEN as nat, |i: int| 0u16));
        write
    }

    /// Starts to write a formatting object to the handle. The formatting object
    /// hands over its text in pieces, which go through the [`Writer`].
    pub fn write_fmt(&self) -> (writer: Writer<'_>)
        ensures
            writer.out() == self.out(),
            writer.result() == Ok::<(), Error>(()),
    {
        Writer { inner: self, result: Ok(()) }
    }
}

/// Tells a formatting object that a piece of its text could not be written.
/// The reason stays with the [`Writer`].
#[derive(Clone, Copy, Debug, PartialEq, Eq, Structural)]
pub struct FormatError;

/// A formatting object on its way to the console.
pub struct Writer<'w> {
    inner: &'w SimpleTextOutput<'w>,
    result: EfiResult<()>,
}

impl<'w> Writer<'w> {
    /// The address of the protocol that the text goes to.
    pub closed spec fn out(&self) -> Address {
        self.inner.out()
    }

    /// The result of the piece that was written last.
    pub closed spec fn result(&self) -> EfiResult<()> {
        self.result
    }

    /// Whether taking the result of a piece leads from this writer to another:
    /// the result replaces that of the piece before.
    pub open spec fn takes(&self, result: EfiResult<()>, next: &Writer<'w>) -> bool {
        &&& next.result() == result
        &&& next.out() == self.out()
    }

    /// Starts to write a piece of the text.
    pub fn write_str<'s>(&self, s: &'s str) -> (write: WriteStr<'s>)
        ensures
            write@ == write_of(self.out(), s@),
            write@.out == self.out(),
            write@.pending == s@,
            write@.buffer.len() == 128,
            forall|i: int| 0 <= i < 128 ==> #[trigger] write@.buffer[i] == 0,
    {
        self.inner.write_str(s)
    }

    /// Takes the result of writing a piece, and tells the formatting object
    /// whether to go on.
    pub fn wrote(&mut self, result: EfiResult<()>) -> (answer: Result<(), FormatError>)
        ensures
            old(self).takes(result, final(self)),
            final(self).result() == result,
            final(self).out() == old(self).out(),
            answer is Ok <==> result is Ok,
            answer == (match result {
                Ok(()) => Ok::<(), FormatError>(()),
                Err(_) => Err(FormatError),
            }),
    {
        self.result = result;
        match result {
            Ok(()) => Ok(()),
            Err(_) => Err(FormatError),
        }
    }

    /// The result of the whole write, once the formatting object is done.
    pub fn finish(self) -> (result: EfiResult<()>)
        ensures
            result == self.result(),
    {
        self.result
    }
}

/// A string on its way to the console.
pub struct WriteStr<'s> {
    out: Address,
    rest: &'s str,
    left: usize,
    buffer: [u16; 128],
}

impl<'s> View for WriteStr<'s> {
    type V = Writing;

    closed spec fn view(&self) -> Writing {
        Writing { out: self.out, pending: self.rest@, buffer: self.buffer@ }
    }
}

impl<'s> WriteStr<'s> {
    /// `left` counts the characters of `rest`.
    #[verifier::type_invariant]
    spec fn counted(self) -> bool {
        self.left == self.rest@.len()
    }

    /// Takes the next step: `reply` is the status code of the `OutputString`
    /// call that the step before asked for, and `None` at first.
    pub fn step(&mut self, reply: Option<Status>) -> (step: WriteStep)
        ensures
            (final(self)@, step) == old(self)@.step(reply),
            reply is Some && reply->0 > usize::MAX / 2 ==> {
                &&& step == WriteStep::Done(Err(reply->0))
                &&& final(self)@ == old(self)@
            },
            (reply is None || reply->0 <= usize::MAX / 2) && old(self)@.pending.len() == 0 ==> {
                &&& step == WriteStep::Done(Ok(()))
                &&& final(self)@ == old(self)@
            },
            (reply is None || reply->0 <= usize::MAX / 2) && old(self)@.pending.len() > 0 ==> {
                let text = old(self)@.pending;
                let n = if text.len() < 127 {
                    text.len() as int
                } else {
                    127
                };
                &&& step == WriteStep::Output
                &&& final(self)@.out == old(self)@.out
                &&& final(self)@.pending == text.skip(n)
                &&& final(self)@.buffer.len() == 128
                &&& forall|i: int|
                    0 <= i < n ==> #[trigger] final(self)@.buffer[i] as int == text[i] as u32 as int
                        % 0x1_0000
                &&& final(self)@.buffer[n] == 0
                &&& forall|i: int|
                    n < i < 128 ==> #[trigger] final(self)@.buffer[i] == old(self)@.buffer[i]
            },
    {
        proof {
            use_type_invariant(&*self);
        }
        if let Some(status) = reply {
            if let Err(error) = check_status(status) {
                return WriteStep::Done(Err(error));
            }
        }
        if self.left == 0 {
            return WriteStep::Done(Ok(()));
        }
        let n: usize = if self.left <= CHUNK_LEN {
            self.left
        } else {
            CHUNK_LEN
        };
        let chunk = self.rest.substring_char(0, n);
        let rest = self.rest.substring_char(n, self.left);
        let mut buffer = self.buffer;
        fill(&mut buffer, chunk);
        *self = WriteStr { out: self.out, rest, left: self.left - n, buffer };
        WriteStep::Output
    }

    /// The arguments of the `OutputString` call that the last step asked for:
    /// the protocol, and the buffer.
    pub fn arguments(&self) -> (arguments: (Address, &[u16; 128]))
        ensures
            arguments.0 == self@.out,
            arguments.1@ == self@.buffer,
    {
        (self.out, &self.buffer)
    }
}

/// The unit for a character of the basic plane is its code point. That for
/// another one is what its code point leaves over a multiple of the number of
/// units. So characters of the basic plane have the same unit only if they are
/// the same.
pub proof fn units_are_code_points(c: char, d: char)
    ensures
        c as u32 <= 0xffff ==> ucs2(c) as u32 == c as u32,
        (c as u32 - ucs2(c)) % 0x1_0000 == 0,
        c as u32 <= 0xffff && d as u32 <= 0xffff && ucs2(c) == ucs2(d) ==> c == d,
{
}

/// A text has a unit for each of its characters, at the same place; in a text of
/// the basic plane, the units are the code points.
pub proof fn units_of_a_text_are_its_code_points(text: Seq<char>)
    ensures
        encoded(text).len() == text.len(),
        forall|i: int|
            0 <= i < text.len() ==> (text[i] as u32 - #[trigger] encoded(text)[i]) % 0x1_0000 == 0,
        forall|i: int|
            0 <= i < text.len() && text[i] as u32 <= 0xffff ==> #[trigger] encoded(text)[i] as u32
                == text[i] as u32,
{
    assert forall|i: int| 0 <= i < text.len() implies (text[i] as u32
        - #[trigger] encoded(text)[i]) % 0x1_0000 == 0 && (text[i] as u32 <= 0xffff ==> encoded(
        text,
    )[i] as u32 == text[i] as u32) by {
        units_are_code_points(text[i], text[i]);
    }
}

/// A write that has not begun has all of its text before it, for the protocol
/// that it is meant for, and a buffer of zeros.
pub proof fn write_begins_with_the_whole_text(out: Address, text: Seq<char>)
    ensures
        write_of(out, text).out == out,
        write_of(out, text).pending == text,
        write_of(out, text).buffer.len() == 128,
        forall|i: int| 0 <= i < 128 ==> #[trigger] write_of(out, text).buffer[i] == 0,
{
}

/// A step asks for output exactly when no error was reported and there are
/// characters left; an error ends the write with that error, and an empty rest
/// ends it with success. Neither changes anything.
pub proof fn step_goes_on_while_there_is_text(state: Writing, reply: Option<Status>)
    ensures
        ({
            let failed = reply is Some && reply->0 & MAX_BIT != 0;
            let (next, step) = state.step(reply);
            &&& step == WriteStep::Output <==> !failed && state.pending.len() > 0
            &&& failed ==> step == WriteStep::Done(Err(reply->0))
            &&& !failed && state.pending.len() == 0 ==> step == WriteStep::Done(Ok(()))
            &&& step != WriteStep::Output ==> next == state
        }),
{
    if let Some(status) = reply {
        errors_have_the_high_bit(status);
    }
}

/// A step that asks for output moves the next characters, up to 127 of them, from
/// the text to the start of the buffer, one unit for each, and puts a zero behind
/// them. The rest of the text and of the buffer stay as they are.
pub proof fn step_moves_characters_to_the_buffer(state: Writing, reply: Option<Status>)
    requires
        state.buffer.len() == 128,
        state.step(reply).1 == WriteStep::Output,
    ensures
        ({
            let next = state.step(reply).0;
            let n = state.pending.len() - next.pending.len();
            &&& 0 < n <= 127
            &&& n < 127 ==> next.pending.len() == 0
            &&& next.out == state.out
            &&& forall|i: int|
                0 <= i < next.pending.len() ==> #[trigger] next.pending[i] == state.pending[n + i]
            &&& next.buffer.len() == 128
            &&& forall|i: int|
                0 <= i < n ==> (state.pending[i] as u32 - #[trigger] next.buffer[i]) % 0x1_0000 == 0
            &&& forall|i: int|
                0 <= i < n && state.pending[i] as u32 <= 0xffff ==> #[trigger] next.buffer[i] as u32
                    == state.pending[i] as u32
            &&& next.buffer[n] == 0
            &&& forall|i: int| n < i < 128 ==> #[trigger] next.buffer[i] == state.buffer[i]
        }),
{
    let next = state.step(reply).0;
    let n = state.pending.len() - next.pending.len();
    let part = state.pending.take(n);
    units_of_a_text_are_its_code_points(part);
    assert(next.buffer == filled(state.buffer, part));
    assert forall|i: int| 0 <= i < n implies #[trigger] next.buffer[i] == encoded(part)[i]
        && part[i] == state.pending[i] by {}
}

} // verus!
