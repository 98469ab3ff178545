//! Interrupt routing and the line shell that the keyboard handler feeds.

use vstd::prelude::*;
use vstd::string::StringSliceAdditionalSpecFns;
use crate::gdt::DOUBLE_FAULT_IST_INDEX;
use crate::task::keyboard::{add_scancode, Key, KeyDecoder, ScancodeStream};
use crate::text::{
    args_of, char_len, command_of, decimal, parse_number, parse_u64, split_command, sum_to,
    sum_up_to, to_decimal, trim, trimmed, utf8_size, word_is,
};
use crate::ticks::{next_tick, TickCounter};
use crate::vga_buffer::{Color, ColorCode, Screen, Writer};

verus! {

/// The vector at which the first interrupt controller's lines start.
pub const PIC_1_OFFSET: u8 = 32;

/// The vector at which the second interrupt controller's lines start.
pub const PIC_2_OFFSET: u8 = PIC_1_OFFSET + 8;

/// The number of vectors of the table.
pub const VECTOR_COUNT: usize = 256;

/// The number of vectors that the processor keeps for its own exceptions.
pub const EXCEPTION_VECTORS: u8 = 32;

/// The vector of the breakpoint exception.
pub const BREAKPOINT_VECTOR: u8 = 3;

/// The vector of the double fault.
pub const DOUBLE_FAULT_VECTOR: u8 = 8;

/// The vector of the page fault.
pub const PAGE_FAULT_VECTOR: u8 = 14;

/// The hardware interrupt lines that the kernel uses.
#[derive(Debug, Clone, Copy, PartialEq, Eq, Structural)]
pub enum InterruptIndex {
    Timer,
    Keyboard,
}

impl InterruptIndex {
    /// The vector to which the line is remapped.
    pub open spec fn vector(self) -> u8 {
        match self {
            InterruptIndex::Timer => PIC_1_OFFSET,
            InterruptIndex::Keyboard => (PIC_1_OFFSET + 1) as u8,
        }
    }

    /// The vector to which the line is remapped.
    pub fn as_u8(self) -> (vector: u8)
        ensures
            vector == self.vector(),
    {
        match self {
            InterruptIndex::Timer => PIC_1_OFFSET,
            InterruptIndex::Keyboard => PIC_1_OFFSET + 1,
        }
    }
}

/// The handlers that the kernel installs.
#[derive(Debug, Clone, Copy, PartialEq, Eq, Structural)]
pub enum Handler {
    Breakpoint,
    DoubleFault,
    PageFault,
    Timer,
    Keyboard,
}

/// What follows an exception once its handler has reported it.
#[derive(Debug, Clone, Copy, PartialEq, Eq, Structural)]
pub enum Recovery {
    /// The interrupted code goes on.
    Resume,
    /// The core halts for good.
    Halt,
}

impl Handler {
    /// A breakpoint is reported and the interrupted code goes on; a double
    /// fault or a page fault halts the core for good. The two hardware
    /// handlers return to the interrupted code.
    pub open spec fn recovery(self) -> Recovery {
        match self {
            Handler::DoubleFault => Recovery::Halt,
            Handler::PageFault => Recovery::Halt,
            _ => Recovery::Resume,
        }
    }

    /// What the core does once this handler has run.
    pub fn after(self) -> (recovery: Recovery)
        ensures
            recovery == self.recovery(),
    {
        match self {
            Handler::DoubleFault => Recovery::Halt,
            Handler::PageFault => Recovery::Halt,
            _ => Recovery::Resume,
        }
    }
}

/// One entry of the vector table: the handler, and the entry of the
/// interrupt stack table on whose stack it runs, if it has one of its own.
#[derive(Debug, Clone, Copy, PartialEq, Eq, Structural)]
pub struct VectorEntry {
    pub handler: Handler,
    pub stack_index: Option<u16>,
}

/// The entry that the kernel installs at a vector, if any: the breakpoint,
/// the double fault on its reserved stack, the page fault, and the two
/// hardware lines. Every other vector keeps the processor's default.
pub open spec fn planned_entry(vector: int) -> Option<VectorEntry> {
    if vector == BREAKPOINT_VECTOR {
        Some(VectorEntry { handler: Handler::Breakpoint, stack_index: None })
    } else if vector == DOUBLE_FAULT_VECTOR {
        Some(
            VectorEntry { handler: Handler::DoubleFault, stack_index: Some(DOUBLE_FAULT_IST_INDEX) },
        )
    } else if vector == PAGE_FAULT_VECTOR {
        Some(VectorEntry { handler: Handler::PageFault, stack_index: None })
    } else if vector == InterruptIndex::Timer.vector() {
        Some(VectorEntry { handler: Handler::Timer, stack_index: None })
    } else if vector == InterruptIndex::Keyboard.vector() {
        Some(VectorEntry { handler: Handler::Keyboard, stack_index: None })
    } else {
        None
    }
}

/// The entries of all 256 vectors, by vector.
pub open spec fn vector_plan() -> Seq<Option<VectorEntry>> {
    Seq::new(VECTOR_COUNT as nat, |vector: int| planned_entry(vector))
}

/// The vector table: for each of the 256 vectors the handler that the
/// kernel installs there, if any. It is built once at boot.
pub struct VectorTable {
    entries: Vec<Option<VectorEntry>>,
}

impl VectorTable {
    /// The entries by vector.
    pub closed spec fn view(&self) -> Seq<Option<VectorEntry>> {
        self.entries@
    }

    /// The entry at a vector.
    pub fn entry(&self, vector: u8) -> (entry: Option<VectorEntry>)
        requires
            self@.len() == VECTOR_COUNT,
        ensures
            entry == self@[vector as int],
    {
        self.entries[vector as usize]
    }
}

/// Builds the vector table that the kernel loads at boot: see
/// [`planned_entry`].
pub fn init() -> (table: VectorTable)
    ensures
        table@ == vector_plan(),
{
    let mut entries: Vec<Option<VectorEntry>> = Vec::new();
    let mut vector: usize = 0;
    while vector < VECTOR_COUNT
        invariant
            vector <= VECTOR_COUNT,
            entries.len() == vector,
            forall|v: int| 0 <= v < vector ==> entries@[v] == planned_entry(v),
        decreases VECTOR_COUNT - vector,
    {
        let entry = if vector == BREAKPOINT_VECTOR as usize {
            Some(VectorEntry { handler: Handler::Breakpoint, stack_index: None })
        } else if vector == DOUBLE_FAULT_VECTOR as usize {
            Some(
                VectorEntry {
                    handler: Handler::DoubleFault,
                    stack_index: Some(DOUBLE_FAULT_IST_INDEX),
                },
            )
        } else if vector == PAGE_FAULT_VECTOR as usize {
            Some(VectorEntry { handler: Handler::PageFault, stack_index: None })
        } else if vector == InterruptIndex::Timer.as_u8() as usize {
            Some(VectorEntry { handler: Handler::Timer, stack_index: None })
        } else if vector == InterruptIndex::Keyboard.as_u8() as usize {
            Some(VectorEntry { handler: Handler::Keyboard, stack_index: None })
        } else {
            None
        };
        entries.push(entry);
        vector = vector + 1;
    }
    assert(entries@ =~= vector_plan());
    VectorTable { entries }
}

/// The vector table keeps the processor's exceptions and the hardware lines
/// apart: each hardware handler sits at the vector of its line, which lies
/// above the exception vectors and within the first controller's eight
/// lines, and nothing but the three exception handlers sits below.
pub proof fn lemma_vectors_apart(vector: int)
    requires
        0 <= vector < VECTOR_COUNT,
    ensures
        vector < EXCEPTION_VECTORS ==> match planned_entry(vector) {
            Some(entry) => entry.handler != Handler::Timer && entry.handler != Handler::Keyboard,
            None => true,
        },
        vector >= EXCEPTION_VECTORS ==> match planned_entry(vector) {
            Some(entry) => (entry.handler == Handler::Timer && vector
                == InterruptIndex::Timer.vector()) || (entry.handler == Handler::Keyboard
                && vector == InterruptIndex::Keyboard.vector()),
            None => true,
        },
        PIC_1_OFFSET <= InterruptIndex::Timer.vector() < PIC_1_OFFSET + 8,
        PIC_1_OFFSET <= InterruptIndex::Keyboard.vector() < PIC_1_OFFSET + 8,
        PIC_1_OFFSET + 8 == PIC_2_OFFSET,
        planned_entry(DOUBLE_FAULT_VECTOR as int) matches Some(entry) && entry.stack_index == Some(
            DOUBLE_FAULT_IST_INDEX,
        ),
{
}

/// The notice that a hardware interrupt has been served: the handler's
/// work is done, and the interrupt controller has to be told so, once, for
/// this vector. Until then the controller delivers the line no more.
#[must_use]
#[derive(Debug, Clone, Copy, PartialEq, Eq, Structural)]
pub struct EndOfInterrupt {
    pub vector: u8,
}

/// The timer interrupt: counts one tick, and then asks for the
/// acknowledgment of the timer's vector.
pub fn timer_interrupt_handler(ticks: &mut TickCounter) -> (done: EndOfInterrupt)
    ensures
        final(ticks)@ == next_tick(old(ticks)@),
        done.vector == InterruptIndex::Timer.vector(),
{
    ticks.advance();
    EndOfInterrupt { vector: InterruptIndex::Timer.as_u8() }
}

/// The keyboard interrupt: hands the scancode that was read from the
/// keyboard's port to the bridge, undecoded, and then asks for the
/// acknowledgment of the keyboard's vector. With room in the queue the
/// scancode is queued and the registered waker, if any, is woken, once; on
/// a full queue the scancode is dropped and nobody is woken.
pub fn keyboard_interrupt_handler(stream: &mut ScancodeStream, scancode: u8) -> (done:
    EndOfInterrupt)
    ensures
        final(stream)@ == old(stream)@.push(scancode),
        done.vector == InterruptIndex::Keyboard.vector(),
{
    add_scancode(stream, scancode);
    EndOfInterrupt { vector: InterruptIndex::Keyboard.as_u8() }
}

/// The number of bytes of a line at which the shell stops taking characters.
pub const LINE_LIMIT: usize = 255;

/// A line shell: it collects the characters typed into a line, echoes them
/// on the console, and runs the line as a command when it is entered.
pub struct Shell {
    buffer: Vec<char>,
    bytes: usize,
}

impl Shell {
    /// The shell knows the size of its line, which is within the limit by
    /// less than one character.
    pub closed spec fn wf(&self) -> bool {
        &&& self.bytes == utf8_size(self.buffer@)
        &&& self.bytes < LINE_LIMIT + 4
    }

    /// The line typed so far.
    pub closed spec fn view(&self) -> Seq<char> {
        self.buffer@
    }

    /// The console after the help text.
    pub open spec fn help_shown(screen: Screen) -> Screen {
        screen.write_bytes("Available commands:\n".spec_bytes()).write_bytes(
            "- help: Show this list\n".spec_bytes(),
        ).write_bytes("- echo <text>: Print text to screen\n".spec_bytes()).write_bytes(
            "- sum <n>: Calculate sum from 1 to n\n".spec_bytes(),
        ).write_bytes("- uptime: System status\n".spec_bytes()).write_bytes(
            "- clear: Clear the screen\n".spec_bytes(),
        ).write_bytes("Try 'color' to change theme!\n".spec_bytes())
    }

    /// The console after the answer to `sum` with the given argument.
    pub open spec fn sum_shown(args: Seq<char>, screen: Screen) -> Screen {
        match parse_u64(args) {
            Some(n) => screen.write_bytes("Sum from 1 to ".spec_bytes()).write_bytes(
                decimal(n as nat),
            ).write_bytes(" is: ".spec_bytes()).write_bytes(decimal(sum_to(n) as nat)).write_bytes(
                "\n".spec_bytes(),
            ),
            None => screen.write_bytes("Usage: sum <number>\n".spec_bytes()),
        }
    }

    /// The console after a line has been run as a command. The line is
    /// trimmed; an empty one does nothing. Its first word, up to the first
    /// space, is the command, and what follows that space is the argument.
    pub open spec fn executed(line: Seq<char>, screen: Screen) -> Screen {
        let input = trim(line);
        let command = command_of(input);
        let args = args_of(input);
        if input.len() == 0 {
            screen
        } else if command == "help"@ {
            Self::help_shown(screen)
        } else if command == "echo"@ {
            screen.write_chars(args).write_bytes("\n".spec_bytes())
        } else if command == "sum"@ {
            Self::sum_shown(args, screen)
        } else if command == "uptime"@ {
            screen.write_bytes("Tm_Os is running. CPU is in HLT state when idle.\n".spec_bytes())
        } else if command == "clear"@ {
            Screen::cleared(screen.color)
        } else if command == "color"@ {
            Screen::cleared(ColorCode::of(Color::Pink, Color::Black)).write_bytes(
                "Theme updated!\n".spec_bytes(),
            )
        } else {
            screen.write_bytes("Unknown command: ".spec_bytes()).write_chars(command).write_bytes(
                "\n".spec_bytes(),
            )
        }
    }

    /// The line and the console after one character has been typed.
    ///
    /// A line feed starts a new line on the console, runs the line typed so
    /// far, empties it and shows the prompt. A backspace takes the last
    /// character off the line and off the console, if there is one. Any other
    /// character joins the line and is echoed, unless the line already has
    /// the limit's number of bytes.
    pub open spec fn typed(line: Seq<char>, screen: Screen, c: char) -> (Seq<char>, Screen) {
        if c == '\n' {
            (
                Seq::empty(),
                Self::executed(line, screen.write_bytes("\n".spec_bytes())).write_bytes(
                    "> ".spec_bytes(),
                ),
            )
        } else if c == '\u{0008}' {
            if line.len() > 0 {
                (line.drop_last(), screen.backspace())
            } else {
                (line, screen)
            }
        } else if utf8_size(line) < LINE_LIMIT {
            (line.push(c), screen.write_char(c))
        } else {
            (line, screen)
        }
    }

    /// A shell with an empty line.
    pub fn new() -> (shell: Self)
        ensures
            shell.wf(),
            shell@ == Seq::<char>::empty(),
    {
        Shell { buffer: Vec::new(), bytes: 0 }
    }

    /// The line typed so far.
    pub fn buffer(&self) -> (line: &Vec<char>)
        ensures
            line@ == self@,
    {
        &self.buffer
    }

    /// Takes one typed character: see [`Shell::typed`].
    pub fn handle_char(&mut self, c: char, writer: &mut Writer)
        requires
            old(self).wf(),
            old(writer).wf(),
        ensures
            final(self).wf(),
            final(writer).wf(),
            (final(self)@, final(writer)@) == Self::typed(old(self)@, old(writer)@, c),
    {
        if c == '\n' {
            writer.write_string("\n");
            self.execute(writer);
            self.buffer.clear();
            self.bytes = 0;
            writer.write_string("> ");
            assert(self.buffer@ =~= Seq::<char>::empty());
        } else if c == '\u{0008}' {
            let ghost line = self.buffer@;
            match self.buffer.pop() {
                Some(last) => {
                    assert(line.drop_last() =~= self.buffer@);
                    assert(line.last() == last);
                    self.bytes = self.bytes - char_len(last);
                    writer.backspace();
                },
                None => {},
            }
        } else {
            if self.bytes < LINE_LIMIT {
                let ghost line = self.buffer@;
                self.buffer.push(c);
                assert(self.buffer@.drop_last() =~= line);
                self.bytes = self.bytes + char_len(c);
                writer.write_char(c);
            }
        }
    }

    /// The character that a key types into the line shell, if any: the
    /// key's own character, a line feed for the return key and a backspace
    /// for the backspace key.
    pub open spec fn key_char(key: Key) -> Option<char> {
        match key {
            Key::Unicode(c) => Some(c),
            Key::Return => Some('\n'),
            Key::Backspace => Some('\u{0008}'),
            Key::Other => None,
        }
    }

    /// The line and the console after a key, if the decoder gave one: a key
    /// that types a character is handled as that character, any other is
    /// passed over.
    pub open spec fn keyed(line: Seq<char>, screen: Screen, key: Option<Key>) -> (
        Seq<char>,
        Screen,
    ) {
        match key {
            Some(key) => match Self::key_char(key) {
                Some(c) => Self::typed(line, screen, c),
                None => (line, screen),
            },
            None => (line, screen),
        }
    }

    /// Takes one decoded key: see [`Shell::keyed`].
    pub fn handle_key(&mut self, key: Key, writer: &mut Writer)
        requires
            old(self).wf(),
            old(writer).wf(),
        ensures
            final(self).wf(),
            final(writer).wf(),
            (final(self)@, final(writer)@) == Self::keyed(old(self)@, old(writer)@, Some(key)),
    {
        match key {
            Key::Unicode(character) => self.handle_char(character, writer),
            Key::Return => self.handle_char('\n', writer),
            Key::Backspace => self.handle_char('\u{0008}', writer),
            Key::Other => {},
        }
    }

    /// Takes one scancode from the keyboard: decodes it and handles the key
    /// that it completes, if it completes one.
    pub fn handle_scancode(&mut self, decoder: &mut KeyDecoder, scancode: u8, writer: &mut Writer)
        requires
            old(self).wf(),
            old(writer).wf(),
        ensures
            final(self).wf(),
            final(writer).wf(),
            final(decoder)@ == old(decoder)@.decode(scancode).1,
            (final(self)@, final(writer)@) == Self::keyed(
                old(self)@,
                old(writer)@,
                old(decoder)@.decode(scancode).0,
            ),
    {
        let key = decoder.decode(scancode);
        if let Some(key) = key {
            self.handle_key(key, writer);
        }
    }

    /// Runs the line typed so far as a command and writes its answer.
    fn execute(&self, writer: &mut Writer)
        requires
            old(writer).wf(),
        ensures
            final(writer).wf(),
            final(writer)@ == Self::executed(self@, old(writer)@),
    {
        let input = trimmed(self.buffer.as_slice());
        if input.len() == 0 {
            return ;
        }
        let (command, args) = split_command(input);

        if word_is(command, "help") {
            writer.write_string("Available commands:\n");
            writer.write_string("- help: Show this list\n");
            writer.write_string("- echo <text>: Print text to screen\n");
            writer.write_string("- sum <n>: Calculate sum from 1 to n\n");
            writer.write_string("- uptime: System status\n");
            writer.write_string("- clear: Clear the screen\n");
            writer.write_string("Try 'color' to change theme!\n");
        } else if word_is(command, "echo") {
            writer.write_chars(args);
            writer.write_string("\n");
        } else if word_is(command, "sum") {
            match parse_number(args) {
                Some(n) => {
                    let total = sum_up_to(n);
                    writer.write_string("Sum from 1 to ");
                    writer.write_text(to_decimal(n).as_slice());
                    writer.write_string(" is: ");
                    writer.write_text(to_decimal(total).as_slice());
                    writer.write_string("\n");
                },
                None => {
                    writer.write_string("Usage: sum <number>\n");
                },
            }
        } else if word_is(command, "uptime") {
            writer.write_string("Tm_Os is running. CPU is in HLT state when idle.\n");
        } else if word_is(command, "clear") {
            writer.clear_screen();
        } else if word_is(command, "color") {
            writer.set_color(Color::Pink, Color::Black);
            writer.clear_screen();
            writer.write_string("Theme updated!\n");
        } else {
            writer.write_string("Unknown command: ");
            writer.write_chars(command);
            writer.write_string("\n");
        }
    }
}

} // verus!
