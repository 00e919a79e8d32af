//! The side-effect sink: the sole channel through which instruction
//! execution touches the outside world (character output, character input,
//! halt).
//!
//! Every sink carries a ghost `SinkModel` — the history of printed
//! characters, consumed input values, and observed halt signals — and the
//! three capability methods say exactly how they move it. The interpreter's
//! contracts speak of the sink only through this model, so they can state
//! which instructions invoke the sink and which leave it alone.
//!
//! `MockSideEffects` is the deterministic in-memory variant used by tests.
//! `FileBackedEffects` holds the verified bookkeeping of the replay-backed
//! variant: the log path and the replay position; the file and console work
//! themselves live outside the library.

use vstd::prelude::*;

verus! {

/// Whether a 16-bit word is a valid character code point. Every 16-bit
/// value is at most 0xFFFF, so only the surrogate range is excluded.
pub open spec fn is_char_code(v: u16) -> bool {
    v < 0xD800 || v > 0xDFFF
}

/// Executable test for `is_char_code`.
pub fn check_char_code(v: u16) -> (r: bool)
    ensures
        r == is_char_code(v),
{
    v < 0xD800 || v > 0xDFFF
}

/// Relies on `char::from_u32`: it returns `Some` exactly when the code
/// point is not a surrogate and at most 0x10FFFF, and the returned
/// character has that code point; every non-surrogate 16-bit value
/// qualifies.
#[verifier::external_body]
pub fn char_from_code(value: u16) -> (c: char)
    requires
        is_char_code(value),
    ensures
        c as u32 == value as u32,
{
    match char::from_u32(value as u32) {
        Some(c) => c,
        None => ' ',
    }
}

/// The observable history of a side-effect sink: the character codes it
/// was asked to emit, the input values it handed to the machine, and how
/// many times the halt signal was observed.
#[verifier::ext_equal]
pub struct SinkModel {
    pub printed: Seq<u16>,
    pub reads: Seq<u16>,
    pub halts: nat,
}

impl SinkModel {
    /// The history after one more character is emitted.
    pub open spec fn with_print(self, v: u16) -> SinkModel {
        SinkModel { printed: self.printed.push(v), ..self }
    }

    /// The history after one more input value is handed out.
    pub open spec fn with_read(self, v: u16) -> SinkModel {
        SinkModel { reads: self.reads.push(v), ..self }
    }

    /// The history after one more halt signal.
    pub open spec fn with_halt(self) -> SinkModel {
        SinkModel { halts: self.halts + 1, ..self }
    }
}

/// The capability set instruction execution may use: emit a character,
/// obtain the next input character, observe the halt signal.
///
/// The interpreter promises every printed value is a valid character code;
/// a sink that cannot produce input answers `None` to `read`, which the
/// interpreter turns into a fatal error. Each method moves the sink's
/// history by exactly its own event and nothing else.
pub trait SideEffects {
    /// The sink's observable history. A sink the library reasons about
    /// overrides this with its own state; a sink outside the library's
    /// reach (a live console) keeps the default and is answerable only to
    /// its runtime behaviour, like every unverified implementation.
    open spec fn model(&self) -> SinkModel {
        SinkModel { printed: Seq::empty(), reads: Seq::empty(), halts: 0 }
    }

    /// Emit the character whose code point is `value`.
    fn print(&mut self, value: u16)
        requires
            is_char_code(value),
        ensures
            final(self).model() == old(self).model().with_print(value),
    ;

    /// The next input character code, or `None` if no character can be
    /// produced.
    fn read(&mut self) -> (r: Option<u16>)
        ensures
            match r {
                Some(v) => final(self).model() == old(self).model().with_read(v),
                None => final(self).model() == old(self).model(),
            },
    ;

    /// Observe the halt signal.
    fn halt(&mut self)
        ensures
            final(self).model() == old(self).model().with_halt(),
    ;
}

/// A character truncated to a 16-bit code, as the mock input queue hands
/// its entries to the machine.
pub open spec fn char_code16(c: char) -> u16 {
    (c as u32 % 0x10000) as u16
}

/// The deterministic in-memory sink: output is appended to `printed`,
/// input is popped from the front of `input`, and halting sets a flag so a
/// test can inspect the final state. The two ghost fields record the
/// histories that the concrete fields cannot: the values handed out and
/// the number of halt signals.
pub struct MockSideEffects {
    pub halted: bool,
    pub printed: Vec<char>,
    pub input: Vec<char>,
    pub consumed: Ghost<Seq<u16>>,
    pub halt_signals: Ghost<nat>,
}

impl Default for MockSideEffects {
    /// A mock sink with no recorded output, no queued input, not halted.
    fn default() -> (r: MockSideEffects)
        ensures
            r.halted == false,
            r.printed@ == Seq::<char>::empty(),
            r.input@ == Seq::<char>::empty(),
            r.model() == (SinkModel {
                printed: Seq::empty(),
                reads: Seq::empty(),
                halts: 0,
            }),
    {
        let r = MockSideEffects {
            halted: false,
            printed: Vec::new(),
            input: Vec::new(),
            consumed: Ghost(Seq::empty()),
            halt_signals: Ghost(0),
        };
        proof {
            assert(r.model().printed =~= Seq::<u16>::empty());
        }
        r
    }
}

impl SideEffects for MockSideEffects {
    /// The printed characters as their 16-bit codes, the recorded input
    /// hand-offs, and the recorded halt count.
    open spec fn model(&self) -> SinkModel {
        SinkModel {
            printed: self.printed@.map_values(|c: char| ((c as u32) % 0x10000) as u16),
            reads: self.consumed@,
            halts: self.halt_signals@,
        }
    }

    /// Appends exactly the character with the printed code point.
    fn print(&mut self, value: u16)
        ensures
            final(self).printed@.len() == old(self).printed@.len() + 1,
            final(self).printed@.last() as u32 == value as u32,
            final(self).printed@.drop_last() == old(self).printed@,
            final(self).halted == old(self).halted,
            final(self).input == old(self).input,
    {
        let c = char_from_code(value);
        self.printed.push(c);
        proof {
            assert(self.printed@.drop_last() =~= old(self).printed@);
            assert(self.model().printed =~= old(self).model().printed.push(value));
            assert(self.model() =~= old(self).model().with_print(value));
        }
    }

    /// Pops the front of the seeded queue; fails when it is empty.
    fn read(&mut self) -> (r: Option<u16>)
        ensures
            final(self).printed == old(self).printed,
            final(self).halted == old(self).halted,
            match r {
                None => old(self).input@.len() == 0 && final(self).input@ == old(self).input@,
                Some(v) => old(self).input@.len() > 0 && v == char_code16(old(self).input@[0])
                    && final(self).input@ == old(self).input@.drop_first(),
            },
    {
        if self.input.len() == 0 {
            None
        } else {
            let c = self.input.remove(0);
            proof {
                assert(self.input@ =~= old(self).input@.drop_first());
            }
            let code = c as u32;
            let v = (code % 0x10000) as u16;
            proof {
                self.consumed@ = self.consumed@.push(v);
                assert(self.model() =~= old(self).model().with_read(v));
            }
            Some(v)
        }
    }

    /// Sets the halt flag instead of terminating, so a test can inspect
    /// the final state.
    fn halt(&mut self)
        ensures
            final(self).halted == true,
            final(self).printed == old(self).printed,
            final(self).input == old(self).input,
    {
        self.halted = true;
        proof {
            self.halt_signals@ = self.halt_signals@ + 1;
            assert(self.model() =~= old(self).model().with_halt());
        }
    }
}

/// The verified bookkeeping of the replay-backed sink: the path of the
/// append-only log and the position of the next character to replay.
/// Position 0 is the first character ever read; once the position reaches
/// the log's size the log is exhausted and fresh input must come from a
/// live source (and is then appended to the log).
#[derive(Debug)]
pub struct FileBackedEffects {
    pub file_path: String,
    pub pos: u64,
}

impl FileBackedEffects {
    /// A replay state at the start of the given log.
    pub fn new(path: &str) -> (r: FileBackedEffects)
        ensures
            r.file_path@ == path@,
            r.pos == 0,
    {
        FileBackedEffects { file_path: path.to_owned(), pos: 0 }
    }

    /// Whether the replay position has reached the end of a log of
    /// `file_size` bytes: from then on reads fall through to a live source.
    pub fn exhausted_at(&self, file_size: u64) -> (r: bool)
        ensures
            r == (self.pos >= file_size),
    {
        self.pos >= file_size
    }

    /// Record that one byte was read (replayed from the log or taken live
    /// and appended to it): the position advances by one and the byte is
    /// the character code handed to the machine.
    pub fn note_byte(&mut self, byte: u8) -> (r: u16)
        requires
            old(self).pos < u64::MAX,
        ensures
            final(self).pos == old(self).pos + 1,
            final(self).file_path == old(self).file_path,
            r == byte as u16,
    {
        self.pos = self.pos + 1;
        byte as u16
    }
}

} // verus!
