//! Byte-oriented input and output adapters for the machine.
//!
//! The machine drives a readable source and a writable sink one byte at a
//! time.  Both are modelled as plain in-memory buffers: a source is a byte
//! vector with a read cursor, a sink is a byte vector that grows.  End of
//! input is signalled to the running program by the all-ones sentinel word,
//! never by a failure of the interpreter itself.

use vstd::prelude::*;

verus! {

/// A readable byte source: the bytes still to come are `data[pos..]`.
pub struct InputSource {
    /// The whole input, including bytes already consumed.
    pub data: Vec<u8>,
    /// Index of the next byte to read; at or past `data.len()` the
    /// source is exhausted.
    pub pos: usize,
}

/// A writable byte sink: every byte written so far, in order.
pub struct OutputSink {
    /// The bytes written, oldest first.
    pub data: Vec<u8>,
}

/// The word that a read from a source with cursor `pos` yields: the byte
/// zero-extended on success, the all-ones sentinel once the source is
/// exhausted.
pub open spec fn read_result(data: Seq<u8>, pos: nat) -> u16 {
    if pos < data.len() {
        data[pos as int] as u16
    } else {
        0xFFFF
    }
}

/// The read cursor after one read: advanced past the byte it consumed,
/// unchanged once the source is exhausted.
pub open spec fn next_pos(data: Seq<u8>, pos: nat) -> nat {
    if pos < data.len() {
        pos + 1
    } else {
        pos
    }
}

impl InputSource {
    /// A source that will yield the bytes of `data` from the start.
    pub fn new(data: Vec<u8>) -> (r: InputSource)
        ensures
            r.data@ == data@,
            r.pos == 0,
    {
        InputSource { data, pos: 0 }
    }
}

impl OutputSink {
    /// A sink that has received nothing yet.
    pub fn new() -> (r: OutputSink)
        ensures
            r.data@ == Seq::<u8>::empty(),
    {
        OutputSink { data: Vec::new() }
    }
}

/// Reads one byte from `input`, zero-extended into the low half of a word;
/// yields the all-ones sentinel `0xFFFF` once the source is exhausted,
/// rather than blocking or failing.
pub fn fgetc(input: &mut InputSource) -> (r: u16)
    ensures
        r == read_result(old(input).data@, old(input).pos as nat),
        final(input).pos == next_pos(old(input).data@, old(input).pos as nat),
        final(input).data@ == old(input).data@,
{
    if input.pos < input.data.len() {
        let b = input.data[input.pos];
        input.pos = input.pos + 1;
        b as u16
    } else {
        0xFFFF
    }
}

/// Writes the byte `t` to `output` and returns it zero-extended; an
/// in-memory sink cannot fail, so the all-ones error sentinel of the
/// signature is never produced.
pub fn fputc(output: &mut OutputSink, t: u8) -> (r: u16)
    ensures
        final(output).data@ == old(output).data@.push(t),
        r == t as u16,
{
    output.data.push(t);
    t as u16
}

} // verus!
