//! The command line under construction, and what each typed byte does to it.

use vstd::prelude::*;

verus! {

/// The bytes that a command line can hold.
pub const LINE_CAPACITY: usize = 64;

/// A command line: a `heapless::Vec` of at most `LINE_CAPACITY` bytes.
#[verifier::external_body]
pub struct LineBuffer {
    bytes: heapless::Vec<u8, 64>,
}

/// What a command line holds.
pub uninterp spec fn line_bytes(line: LineBuffer) -> Seq<u8>;

impl View for LineBuffer {
    type V = Seq<u8>;

    open spec fn view(&self) -> Seq<u8> {
        line_bytes(*self)
    }
}

impl LineBuffer {
    /// Calls `heapless::Vec::new`, which makes a vector that holds nothing.
    #[verifier::external_body]
    pub(crate) fn new() -> (line: LineBuffer)
        ensures
            line_bytes(line) == Seq::<u8>::empty(),
    {
        LineBuffer { bytes: heapless::Vec::new() }
    }

    /// Calls `heapless::Vec::is_empty`.
    #[verifier::external_body]
    pub(crate) fn is_empty(&self) -> (empty: bool)
        ensures
            empty == (line_bytes(*self).len() == 0),
    {
        self.bytes.is_empty()
    }

    /// Calls `heapless::Vec::push`. The byte is appended and the result is true, where
    /// there is room for it; a full vector stays as it is and the result is false.
    #[verifier::external_body]
    pub(crate) fn push(&mut self, byte: u8) -> (pushed: bool)
        ensures
            pushed == (line_bytes(*old(self)).len() < LINE_CAPACITY),
            line_bytes(*final(self)) == if pushed {
                line_bytes(*old(self)).push(byte)
            } else {
                line_bytes(*old(self))
            },
    {
        self.bytes.push(byte).is_ok()
    }

    /// Calls `heapless::Vec::pop`. The last byte is taken off and returned; an empty
    /// vector stays empty and the result is `None`.
    #[verifier::external_body]
    pub(crate) fn pop(&mut self) -> (byte: Option<u8>)
        ensures
            byte is Some <==> line_bytes(*old(self)).len() > 0,
            byte matches Some(b) ==> b == line_bytes(*old(self)).last() && line_bytes(*final(self))
                == line_bytes(*old(self)).drop_last(),
            byte is None ==> line_bytes(*final(self)) == line_bytes(*old(self)),
    {
        self.bytes.pop()
    }

    /// Calls `heapless::Vec::clear`, which takes everything out.
    #[verifier::external_body]
    pub(crate) fn clear(&mut self)
        ensures
            line_bytes(*final(self)) == Seq::<u8>::empty(),
    {
        self.bytes.clear()
    }

    /// Calls `heapless::Vec::clone`. The copy holds the same bytes.
    #[verifier::external_body]
    pub(crate) fn duplicate(&self) -> (copy: LineBuffer)
        ensures
            line_bytes(copy) == line_bytes(*self),
    {
        LineBuffer { bytes: self.bytes.clone() }
    }

    /// Calls `heapless::Vec::as_slice`, which lends the bytes in order.
    #[verifier::external_body]
    fn as_slice(&self) -> (bytes: &[u8])
        ensures
            bytes@ == line_bytes(*self),
    {
        self.bytes.as_slice()
    }

    /// The bytes of the line.
    pub fn bytes(&self) -> (bytes: &[u8])
        ensures
            bytes@ == self@,
    {
        self.as_slice()
    }
}

/// Whether a byte ends the line: carriage return or line feed.
pub open spec fn ends_line(byte: u8) -> bool {
    byte == 0x0D || byte == 0x0A
}

/// Whether a byte takes the last one back: backspace or delete.
pub open spec fn erases(byte: u8) -> bool {
    byte == 0x08 || byte == 0x7F
}

/// Whether a byte goes into the line as it is.
pub open spec fn plain(byte: u8) -> bool {
    !ends_line(byte) && !erases(byte)
}

/// A line with one more byte, or unchanged where it is full.
pub open spec fn with_byte(line: Seq<u8>, byte: u8) -> Seq<u8> {
    if line.len() < LINE_CAPACITY {
        line.push(byte)
    } else {
        line
    }
}

/// The line that is left after some input, and the lines that the input completed, in
/// the order in which it completed them.
pub struct Typed {
    pub line: Seq<u8>,
    pub completed: Seq<Seq<u8>>,
}

/// What one byte does to a line. An empty line is never completed.
pub open spec fn type_byte(line: Seq<u8>, byte: u8) -> Typed {
    if ends_line(byte) {
        Typed {
            line: Seq::empty(),
            completed: if line.len() > 0 {
                seq![line]
            } else {
                Seq::empty()
            },
        }
    } else if erases(byte) {
        Typed {
            line: if line.len() > 0 {
                line.drop_last()
            } else {
                line
            },
            completed: Seq::empty(),
        }
    } else {
        Typed { line: with_byte(line, byte), completed: Seq::empty() }
    }
}

/// What some input does to a line, byte after byte.
pub open spec fn type_bytes(line: Seq<u8>, input: Seq<u8>) -> Typed
    decreases input.len(),
{
    if input.len() == 0 {
        Typed { line, completed: Seq::empty() }
    } else {
        let first = type_byte(line, input[0]);
        let others = type_bytes(first.line, input.drop_first());
        Typed { line: others.line, completed: first.completed + others.completed }
    }
}

/// Carriage return and line feed alone end a line, and complete it where it is not empty;
/// backspace and delete alone take the last byte back; every other byte goes to the end
/// of a line of fewer than 64 bytes, is lost on a longer one, and completes nothing.
pub proof fn law_each_byte_has_one_effect(line: Seq<u8>, byte: u8)
    ensures
        byte == 0x0D || byte == 0x0A ==> type_byte(line, byte).line.len() == 0 && type_byte(
            line,
            byte,
        ).completed == if line.len() == 0 {
            Seq::empty()
        } else {
            seq![line]
        },
        byte == 0x08 || byte == 0x7F ==> type_byte(line, byte).completed.len() == 0 && type_byte(
            line,
            byte,
        ).line == if line.len() == 0 {
            line
        } else {
            line.take(line.len() - 1)
        },
        byte != 0x0D && byte != 0x0A && byte != 0x08 && byte != 0x7F ==> type_byte(
            line,
            byte,
        ).completed.len() == 0 && type_byte(line, byte).line == if line.len() < 64 {
            line.push(byte)
        } else {
            line
        },
{
    if line.len() > 0 {
        assert(line.drop_last() =~= line.take(line.len() - 1));
    }
}

/// No input changes nothing, and one byte does what it does to the line.
pub proof fn law_typing_starts_with_one_byte(line: Seq<u8>, byte: u8)
    ensures
        type_bytes(line, Seq::empty()).line == line,
        type_bytes(line, Seq::empty()).completed.len() == 0,
        type_bytes(line, seq![byte]) == type_byte(line, byte),
{
    reveal_with_fuel(type_bytes, 2);
    assert(seq![byte].drop_first() =~= Seq::empty());
    assert(type_byte(line, byte).completed + Seq::<Seq<u8>>::empty() =~= type_byte(
        line,
        byte,
    ).completed);
}

/// Input typed in two parts does what it does typed at once.
pub proof fn law_typing_in_parts(line: Seq<u8>, a: Seq<u8>, b: Seq<u8>)
    ensures
        type_bytes(line, a + b) == (Typed {
            line: type_bytes(type_bytes(line, a).line, b).line,
            completed: type_bytes(line, a).completed + type_bytes(
                type_bytes(line, a).line,
                b,
            ).completed,
        }),
    decreases a.len(),
{
    if a.len() == 0 {
        assert(a + b =~= b);
        assert(Seq::<Seq<u8>>::empty() + type_bytes(line, b).completed =~= type_bytes(
            line,
            b,
        ).completed);
    } else {
        let first = type_byte(line, a[0]);
        law_typing_in_parts(first.line, a.drop_first(), b);
        assert((a + b).drop_first() =~= a.drop_first() + b);
        let t1 = type_bytes(first.line, a.drop_first());
        let t2 = type_bytes(t1.line, b);
        assert(first.completed + (t1.completed + t2.completed) =~= (first.completed
            + t1.completed) + t2.completed);
    }
}

/// Plain bytes are appended to the line in order, up to its capacity, and complete
/// nothing.
pub proof fn law_plain_bytes_are_appended(line: Seq<u8>, text: Seq<u8>)
    requires
        line.len() <= LINE_CAPACITY,
        forall|i: int| 0 <= i < text.len() ==> plain(#[trigger] text[i]),
    ensures
        type_bytes(line, text).completed.len() == 0,
        type_bytes(line, text).line == if line.len() + text.len() <= LINE_CAPACITY {
            line + text
        } else {
            (line + text).take(LINE_CAPACITY as int)
        },
    decreases text.len(),
{
    if text.len() == 0 {
        assert(line + text =~= line);
    } else {
        let next = with_byte(line, text[0]);
        let rest = text.drop_first();
        law_plain_bytes_are_appended(next, rest);
        if line.len() < LINE_CAPACITY {
            assert(next + rest =~= line + text);
        } else {
            assert((next + rest).take(LINE_CAPACITY as int) =~= line);
            assert((line + text).take(LINE_CAPACITY as int) =~= line);
        }
    }
}

/// A text that is typed and ended comes out as exactly one line, which holds what was
/// typed before and the text, and leaves an empty line behind.
pub proof fn law_ended_text_is_one_line(line: Seq<u8>, text: Seq<u8>, end: u8)
    requires
        0 < line.len() + text.len() <= LINE_CAPACITY,
        forall|i: int| 0 <= i < text.len() ==> plain(#[trigger] text[i]),
        ends_line(end),
    ensures
        type_bytes(line, text.push(end)) == (Typed {
            line: Seq::<u8>::empty(),
            completed: seq![line + text],
        }),
{
    let none = Seq::<Seq<u8>>::empty();
    law_plain_bytes_are_appended(line, text);
    law_typing_in_parts(line, text, seq![end]);
    assert(text.push(end) =~= text + seq![end]);
    reveal_with_fuel(type_bytes, 2);
    assert(seq![end].drop_first() =~= Seq::empty());
    assert(type_bytes(line, text).completed =~= none);
    assert(none + (seq![line + text] + none) =~= seq![line + text]);
}

/// Printable text of up to 64 bytes, letters of either case and every sign among it, stays
/// in the line as it is typed, and comes out whole with the carriage return or line feed
/// after it.
pub proof fn law_printable_text_is_kept(text: Seq<u8>, end: u8)
    requires
        0 < text.len() <= 64,
        forall|i: int| 0 <= i < text.len() ==> 0x20 <= #[trigger] text[i] <= 0x7E,
        end == 0x0D || end == 0x0A,
    ensures
        type_bytes(Seq::empty(), text).line == text,
        type_bytes(Seq::empty(), text).completed.len() == 0,
        type_bytes(Seq::empty(), text.push(end)).line.len() == 0,
        type_bytes(Seq::empty(), text.push(end)).completed == seq![text],
{
    law_plain_bytes_are_appended(Seq::empty(), text);
    law_ended_text_is_one_line(Seq::empty(), text, end);
    assert(Seq::<u8>::empty() + text =~= text);
}

/// A backspace undoes the plain byte before it, unless that byte found the line full.
pub proof fn law_backspace_undoes_a_byte(line: Seq<u8>, byte: u8, erase: u8)
    requires
        line.len() < LINE_CAPACITY,
        plain(byte),
        erases(erase),
    ensures
        type_bytes(line, seq![byte, erase]) == (Typed { line, completed: Seq::<Seq<u8>>::empty() }),
{
    let input = seq![byte, erase];
    reveal_with_fuel(type_bytes, 3);
    assert(input.drop_first()[0] == erase);
    assert(line.push(byte).drop_last() =~= line);
    assert(type_bytes(line, input).completed =~= Seq::empty());
}

/// A line feed after a carriage return, or the other way round, completes nothing more.
pub proof fn law_second_line_end_does_nothing(first: u8, second: u8, line: Seq<u8>)
    requires
        ends_line(first),
        ends_line(second),
    ensures
        type_bytes(line, seq![first, second]) == type_bytes(line, seq![first]),
{
    reveal_with_fuel(type_bytes, 3);
    let both = seq![first, second];
    assert(both.drop_first()[0] == second);
    assert(type_bytes(line, both).completed =~= type_bytes(line, seq![first]).completed);
}

/// Whether bytes can stand in a line: no more than a line can hold, and without control
/// bytes of the editor. The line under construction may be empty.
pub open spec fn well_formed_line(line: Seq<u8>) -> bool {
    &&& line.len() <= LINE_CAPACITY
    &&& forall|i: int| 0 <= i < line.len() ==> plain(#[trigger] line[i])
}

/// Whatever is typed, the line under construction stays within its capacity and free of
/// control bytes, and every completed line is so too, and is not empty.
pub proof fn law_lines_are_well_formed(line: Seq<u8>, input: Seq<u8>)
    requires
        well_formed_line(line),
    ensures
        well_formed_line(type_bytes(line, input).line),
        forall|i: int|
            0 <= i < type_bytes(line, input).completed.len() ==> {
                let done = #[trigger] type_bytes(line, input).completed[i];
                done.len() > 0 && well_formed_line(done)
            },
    decreases input.len(),
{
    if input.len() > 0 {
        law_lines_are_well_formed(type_byte(line, input[0]).line, input.drop_first());
    }
}

} // verus!
