//! The logger that renders messages for the console.

use crate::log::LogLevel;
use vstd::prelude::*;
use vstd::string::StringSliceAdditionalSpecFns;

verus! {

/// What a line of the console starts with.
#[derive(Debug, Clone, Copy, PartialEq, Eq, Structural)]
pub enum ConsoleLogOrder {
    /// The time at which the message was logged.
    Time,
    /// The number of the message.
    Counter,
}

/// The size of a terminal.
#[derive(Debug, Clone, Copy, PartialEq, Eq, Structural)]
pub struct Size {
    pub rows: u16,
    pub cols: u16,
}

/// The size that is assumed when the output is no terminal.
pub const NO_TERMINAL: u16 = 9999;

/// The seconds and the nanoseconds of a point in time since the start of
/// 1970.
#[derive(Debug, Clone, Copy, PartialEq, Eq, Structural)]
pub struct Time {
    pub seconds: u64,
    pub nanoseconds: u32,
}

/// Asks `termsize::get` for the size of the terminal behind the standard
/// output. The answer depends on the environment of the process, so
/// nothing is claimed of it.
#[verifier::external_body]
fn terminal_size() -> (size: Option<Size>) {
    termsize::get().map(|size| Size { rows: size.rows, cols: size.cols })
}

/// The decimal digits of `value`.
pub open spec fn spec_digits(value: nat) -> Seq<u8>
    decreases value,
{
    if value < 10 {
        seq![(48 + value) as u8]
    } else {
        spec_digits(value / 10).push((48 + value % 10) as u8)
    }
}

/// The decimal digits of `value`, filled up in front with `pad` to at
/// least `width` characters.
pub open spec fn spec_padded(value: nat, width: nat, pad: u8) -> Seq<u8> {
    let digits = spec_digits(value);
    if digits.len() >= width {
        digits
    } else {
        Seq::new((width - digits.len()) as nat, |i: int| pad) + digits
    }
}

/// The text of `output` from `position` on, in lines of at most
/// `term_len` characters: each line starts with the color and the
/// separator, ends with the reset sequence and a line break, and all
/// lines but the first are indented by `spacing` blanks.
pub open spec fn spec_wrapped(
    spacing: nat,
    separator: Seq<u8>,
    color: Seq<u8>,
    output: Seq<u8>,
    term_len: nat,
    position: int,
) -> Seq<u8>
    decreases output.len() - position,
{
    if term_len == 0 || position < 0 || position > output.len() {
        Seq::empty()
    } else if output.len() - position < term_len {
        color + separator + output.subrange(position, output.len() as int) + spec_reset_line()
    } else {
        color + separator + output.subrange(position, position + term_len) + spec_reset_line()
            + Seq::new(spacing, |i: int| 32u8) + spec_wrapped(
            spacing,
            separator,
            color,
            output,
            term_len,
            position + term_len,
        )
    }
}

/// The sequence that ends a line: the colors are reset and the line is
/// broken.
pub open spec fn spec_reset_line() -> Seq<u8> {
    seq![27u8, 91u8, 48u8, 109u8, 10u8]
}

/// The number of characters of a line that are left for the text.
pub open spec fn spec_term_len(cols: u16, spacing: nat, separator_len: nat) -> nat {
    if cols > spacing + separator_len {
        (cols - spacing - separator_len) as nat
    } else {
        1
    }
}

/// The logger. It numbers the messages that it is asked to log.
#[derive(Debug)]
pub struct Logger {
    counter: u64,
    ordering_mode: ConsoleLogOrder,
}

fn append(target: &mut Vec<u8>, bytes: &[u8])
    ensures
        final(target)@ == old(target)@ + bytes@,
{
    let mut i: usize = 0;
    while i < bytes.len()
        invariant
            i <= bytes.len(),
            target@ == old(target)@ + bytes@.subrange(0, i as int),
        decreases bytes.len() - i,
    {
        target.push(bytes[i]);
        assert(target@ =~= old(target)@ + bytes@.subrange(0, i + 1));
        i += 1;
    }
    assert(bytes@.subrange(0, i as int) =~= bytes@);
}

fn append_reset_line(target: &mut Vec<u8>)
    ensures
        final(target)@ == old(target)@ + spec_reset_line(),
{
    target.push(27u8);
    target.push(91u8);
    target.push(48u8);
    target.push(109u8);
    target.push(10u8);
    assert(target@ =~= old(target)@ + spec_reset_line());
}

/// Appends the decimal digits of `value`, filled up in front with `pad`
/// to at least `width` characters.
pub fn append_padded(target: &mut Vec<u8>, value: u64, width: usize, pad: u8)
    ensures
        final(target)@ == old(target)@ + spec_padded(value as nat, width as nat, pad),
{
    let mut reversed: Vec<u8> = Vec::new();
    let mut rest: u64 = value;
    while rest >= 10
        invariant
            spec_digits(value as nat) == spec_digits(rest as nat) + Seq::new(
                reversed@.len(),
                |i: int| reversed@[reversed@.len() - 1 - i],
            ),
        decreases rest,
    {
        let ghost before = reversed@;
        reversed.push(48u8 + (rest % 10) as u8);
        proof {
            let tail = Seq::new(before.len(), |i: int| before[before.len() - 1 - i]);
            let longer = Seq::new(reversed@.len(), |i: int| reversed@[reversed@.len() - 1 - i]);
            assert(longer =~= seq![(48 + rest % 10) as u8] + tail);
            assert(spec_digits(rest as nat) == spec_digits((rest / 10) as nat).push(
                (48 + rest % 10) as u8,
            ));
            assert(spec_digits(rest as nat) + tail =~= spec_digits((rest / 10) as nat) + longer);
        }
        rest = rest / 10;
    }
    reversed.push(48u8 + rest as u8);
    proof {
        let digits = Seq::new(reversed@.len(), |i: int| reversed@[reversed@.len() - 1 - i]);
        assert(spec_digits(rest as nat) =~= seq![(48 + rest) as u8]);
        assert(digits =~= spec_digits(value as nat));
    }
    let ghost digits = spec_digits(value as nat);
    let mut filled: usize = reversed.len();
    while filled < width
        invariant
            reversed@.len() <= filled,
            filled <= width || filled == reversed@.len(),
            target@ == old(target)@ + Seq::new((filled - reversed@.len()) as nat, |i: int| pad),
        decreases width - filled,
    {
        target.push(pad);
        filled += 1;
        assert(target@ =~= old(target)@ + Seq::new(
            (filled - reversed@.len()) as nat,
            |i: int| pad,
        ));
    }
    let ghost padded = target@;
    proof {
        if reversed@.len() >= width {
            assert(padded =~= old(target)@);
        } else {
            assert(filled == width);
        }
    }
    let mut i: usize = reversed.len();
    while i > 0
        invariant
            i <= reversed@.len(),
            digits.len() == reversed@.len(),
            forall|k: int| 0 <= k < digits.len() ==> digits[k] == reversed@[reversed@.len() - 1 - k],
            target@ == padded + digits.subrange(0, reversed@.len() - i),
        decreases i,
    {
        i -= 1;
        target.push(reversed[i]);
        assert(target@ =~= padded + digits.subrange(0, reversed@.len() - i));
    }
    proof {
        assert(digits.subrange(0, digits.len() as int) =~= digits);
        assert(target@ =~= old(target)@ + spec_padded(value as nat, width as nat, pad));
    }
}

impl Logger {
    /// The number of messages that the logger was asked to log, modulo
    /// 2^64.
    pub closed spec fn spec_counter(&self) -> u64 {
        self.counter
    }

    /// What the lines of the logger start with.
    pub closed spec fn spec_ordering_mode(&self) -> ConsoleLogOrder {
        self.ordering_mode
    }

    /// The logger that has not logged anything and that numbers its
    /// messages.
    pub closed spec fn spec_new() -> Logger {
        Logger { counter: 0, ordering_mode: ConsoleLogOrder::Counter }
    }

    /// Creates a logger that numbers its messages.
    pub fn new() -> (logger: Self)
        ensures
            logger == Self::spec_new(),
            logger.spec_counter() == 0,
            logger.spec_ordering_mode() == ConsoleLogOrder::Counter,
    {
        Self { counter: 0, ordering_mode: ConsoleLogOrder::Counter }
    }

    /// Creates a logger whose lines start with what `ordering_mode` says.
    pub fn with_order(ordering_mode: ConsoleLogOrder) -> (logger: Self)
        ensures
            logger.spec_counter() == 0,
            logger.spec_ordering_mode() == ordering_mode,
    {
        Self { counter: 0, ordering_mode }
    }

    /// Returns the colored tag of the log level.
    pub fn log_level_string(log_level: LogLevel) -> (tag: &'static str)
        ensures
            tag@ == (match log_level {
                LogLevel::Trace => "\x1b[0;90m[T]"@,
                LogLevel::Debug => "\x1b[0;90m[D]"@,
                LogLevel::Info => "\x1b[0;92m[I]"@,
                LogLevel::Warn => "\x1b[0;33m[W]"@,
                LogLevel::Error => "\x1b[0;31m[E]"@,
                LogLevel::Fatal => "\x1b[1;4;91m[F]"@,
            }),
    {
        match log_level {
            LogLevel::Trace => "\x1b[0;90m[T]",
            LogLevel::Debug => "\x1b[0;90m[D]",
            LogLevel::Info => "\x1b[0;92m[I]",
            LogLevel::Warn => "\x1b[0;33m[W]",
            LogLevel::Error => "\x1b[0;31m[E]",
            LogLevel::Fatal => "\x1b[1;4;91m[F]",
        }
    }

    /// Returns the color of the message of the log level.
    pub fn message_color(log_level: LogLevel) -> (color: &'static str)
        ensures
            color@ == (match log_level {
                LogLevel::Trace => "\x1b[1;90m"@,
                LogLevel::Debug => "\x1b[1;90m"@,
                LogLevel::Info => "\x1b[1;37m"@,
                LogLevel::Warn => "\x1b[1;93m"@,
                LogLevel::Error => "\x1b[1;91m"@,
                LogLevel::Fatal => "\x1b[1;4;91m"@,
            }),
    {
        match log_level {
            LogLevel::Trace => "\x1b[1;90m",
            LogLevel::Debug => "\x1b[1;90m",
            LogLevel::Info => "\x1b[1;37m",
            LogLevel::Warn => "\x1b[1;93m",
            LogLevel::Error => "\x1b[1;91m",
            LogLevel::Fatal => "\x1b[1;4;91m",
        }
    }

    /// Returns the color of the counter, which is the same for all log
    /// levels.
    pub fn counter_color(_log_level: LogLevel) -> (color: &'static str)
        ensures
            color@ == "\x1b[0;90m"@,
    {
        "\x1b[0;90m"
    }

    /// Returns the color of the origin of the log level.
    pub fn origin_color(log_level: LogLevel) -> (color: &'static str)
        ensures
            color@ == (match log_level {
                LogLevel::Trace => "\x1b[0;90m"@,
                LogLevel::Debug => "\x1b[0;90m"@,
                LogLevel::Info => "\x1b[0;37m"@,
                LogLevel::Warn => "\x1b[0;37m"@,
                LogLevel::Error => "\x1b[0;37m"@,
                LogLevel::Fatal => "\x1b[0;4;91m"@,
            }),
    {
        match log_level {
            LogLevel::Trace => "\x1b[0;90m",
            LogLevel::Debug => "\x1b[0;90m",
            LogLevel::Info => "\x1b[0;37m",
            LogLevel::Warn => "\x1b[0;37m",
            LogLevel::Error => "\x1b[0;37m",
            LogLevel::Fatal => "\x1b[0;4;91m",
        }
    }

    fn add_spacing(target: &mut Vec<u8>, spacing: usize)
        ensures
            final(target)@ == old(target)@ + Seq::new(spacing as nat, |i: int| 32u8),
    {
        let mut i: usize = 0;
        while i < spacing
            invariant
                i <= spacing,
                target@ == old(target)@ + Seq::new(i as nat, |k: int| 32u8),
            decreases spacing - i,
        {
            target.push(32u8);
            i += 1;
            assert(target@ =~= old(target)@ + Seq::new(i as nat, |k: int| 32u8));
        }
    }

    fn print(
        target: &mut Vec<u8>,
        first_spacing: usize,
        spacing: usize,
        separator: &str,
        color: &str,
        output: &Vec<u8>,
        terminal: Size,
    )
        ensures
            final(target)@ == old(target)@ + Seq::new(first_spacing as nat, |i: int| 32u8)
                + spec_wrapped(
                spacing as nat,
                separator.spec_bytes(),
                color.spec_bytes(),
                output@,
                spec_term_len(terminal.cols, spacing as nat, separator.spec_bytes().len()),
                0,
            ),
    {
        let separator_len: usize = separator.as_bytes().len();
        let cols: usize = terminal.cols as usize;
        assert(output@.len() == output.len());
        let term_len: usize = if spacing < cols && separator_len < cols - spacing {
            cols - spacing - separator_len
        } else {
            1
        };
        let mut msg_len: usize = output.len();
        let mut msg_pos: usize = 0;

        Self::add_spacing(target, first_spacing);
        let ghost start = target@;
        loop
            invariant
                term_len > 0,
                term_len == spec_term_len(
                    terminal.cols,
                    spacing as nat,
                    separator.spec_bytes().len(),
                ),
                msg_pos + msg_len == output@.len(),
                output@.len() <= usize::MAX,
                start == old(target)@ + Seq::new(first_spacing as nat, |i: int| 32u8),
                target@ + spec_wrapped(
                    spacing as nat,
                    separator.spec_bytes(),
                    color.spec_bytes(),
                    output@,
                    term_len as nat,
                    msg_pos as int,
                ) == start + spec_wrapped(
                    spacing as nat,
                    separator.spec_bytes(),
                    color.spec_bytes(),
                    output@,
                    term_len as nat,
                    0,
                ),
            decreases msg_len,
        {
            let ghost before = target@;
            let ghost rest = spec_wrapped(
                spacing as nat,
                separator.spec_bytes(),
                color.spec_bytes(),
                output@,
                term_len as nat,
                msg_pos as int,
            );
            append(target, color.as_bytes());
            append(target, separator.as_bytes());
            if msg_len < term_len {
                let mut i: usize = msg_pos;
                let end: usize = msg_pos + msg_len;
                while i < end
                    invariant
                        msg_pos <= i <= end,
                        end == msg_pos + msg_len,
                        msg_pos + msg_len == output@.len(),
                        target@ == before + color.spec_bytes() + separator.spec_bytes()
                            + output@.subrange(msg_pos as int, i as int),
                    decreases end - i,
                {
                    target.push(output[i]);
                    assert(target@ =~= before + color.spec_bytes() + separator.spec_bytes()
                        + output@.subrange(msg_pos as int, i + 1));
                    i += 1;
                }
                append_reset_line(target);
                proof {
                    assert(target@ =~= before + rest);
                    assert(target@ == start + spec_wrapped(
                        spacing as nat,
                        separator.spec_bytes(),
                        color.spec_bytes(),
                        output@,
                        term_len as nat,
                        0,
                    ));
                }
                return ;
            } else {
                let mut i: usize = msg_pos;
                let end: usize = msg_pos + term_len;
                while i < end
                    invariant
                        msg_pos <= i <= end,
                        end == msg_pos + term_len,
                        msg_pos + term_len <= output@.len(),
                        target@ == before + color.spec_bytes() + separator.spec_bytes()
                            + output@.subrange(msg_pos as int, i as int),
                    decreases end - i,
                {
                    target.push(output[i]);
                    assert(target@ =~= before + color.spec_bytes() + separator.spec_bytes()
                        + output@.subrange(msg_pos as int, i + 1));
                    i += 1;
                }
                let ghost line = target@;
                append_reset_line(target);
                Self::add_spacing(target, spacing);
                proof {
                    let next = spec_wrapped(
                        spacing as nat,
                        separator.spec_bytes(),
                        color.spec_bytes(),
                        output@,
                        term_len as nat,
                        msg_pos + term_len,
                    );
                    assert(target@ + next =~= before + rest);
                }
                msg_pos += term_len;
                msg_len -= term_len;
            }
        }
    }

    fn print_message(
        target: &mut Vec<u8>,
        spacing: usize,
        log_level: LogLevel,
        formatted_message: &Vec<u8>,
        terminal: Size,
    )
        ensures
            final(target)@ == old(target)@ + Seq::new(spacing as nat, |i: int| 32u8)
                + spec_wrapped(
                spacing as nat,
                "| ".spec_bytes(),
                Self::spec_message_color(log_level),
                formatted_message@,
                spec_term_len(terminal.cols, spacing as nat, "| ".spec_bytes().len()),
                0,
            ),
    {
        Self::print(
            target,
            spacing,
            spacing,
            "| ",
            Self::message_color(log_level),
            formatted_message,
            terminal,
        );
    }

    /// The bytes of the color of the message of the log level.
    pub open spec fn spec_message_color(log_level: LogLevel) -> Seq<u8> {
        match log_level {
            LogLevel::Trace => "\x1b[1;90m".spec_bytes(),
            LogLevel::Debug => "\x1b[1;90m".spec_bytes(),
            LogLevel::Info => "\x1b[1;37m".spec_bytes(),
            LogLevel::Warn => "\x1b[1;93m".spec_bytes(),
            LogLevel::Error => "\x1b[1;91m".spec_bytes(),
            LogLevel::Fatal => "\x1b[1;4;91m".spec_bytes(),
        }
    }

    /// The bytes of the color of the origin of the log level.
    pub open spec fn spec_origin_color(log_level: LogLevel) -> Seq<u8> {
        match log_level {
            LogLevel::Trace => "\x1b[0;90m".spec_bytes(),
            LogLevel::Debug => "\x1b[0;90m".spec_bytes(),
            LogLevel::Info => "\x1b[0;37m".spec_bytes(),
            LogLevel::Warn => "\x1b[0;37m".spec_bytes(),
            LogLevel::Error => "\x1b[0;37m".spec_bytes(),
            LogLevel::Fatal => "\x1b[0;4;91m".spec_bytes(),
        }
    }

    /// The bytes of the colored tag of the log level.
    pub open spec fn spec_log_level_string(log_level: LogLevel) -> Seq<u8> {
        match log_level {
            LogLevel::Trace => "\x1b[0;90m[T]".spec_bytes(),
            LogLevel::Debug => "\x1b[0;90m[D]".spec_bytes(),
            LogLevel::Info => "\x1b[0;92m[I]".spec_bytes(),
            LogLevel::Warn => "\x1b[0;33m[W]".spec_bytes(),
            LogLevel::Error => "\x1b[0;31m[E]".spec_bytes(),
            LogLevel::Fatal => "\x1b[1;4;91m[F]".spec_bytes(),
        }
    }

    fn print_origin(
        target: &mut Vec<u8>,
        spacing: usize,
        log_level: LogLevel,
        origin: &Vec<u8>,
        terminal: Size,
    )
        ensures
            final(target)@ == old(target)@ + Self::spec_log_level_string(log_level) + seq![32u8]
                + spec_wrapped(
                spacing as nat,
                "".spec_bytes(),
                Self::spec_origin_color(log_level),
                origin@,
                spec_term_len(terminal.cols, spacing as nat, "".spec_bytes().len()),
                0,
            ),
    {
        append(target, Self::log_level_string(log_level).as_bytes());
        target.push(32u8);
        let ghost tagged = target@;
        assert(tagged =~= old(target)@ + Self::spec_log_level_string(log_level) + seq![32u8]);
        Self::print(target, 0, spacing, "", Self::origin_color(log_level), origin, terminal);
        assert(Seq::new(0nat, |i: int| 32u8) =~= Seq::<u8>::empty());
        assert(tagged + Seq::new(0nat, |i: int| 32u8) =~= tagged);
    }

    /// The size that the logger works with when the question for the size
    /// of the terminal had the given outcome: that size, or a very large
    /// one when the output is no terminal.
    pub open spec fn spec_size_of(outcome: Option<Size>) -> Size {
        match outcome {
            None => Size { rows: NO_TERMINAL, cols: NO_TERMINAL },
            Some(size) => size,
        }
    }

    /// Returns the size that the logger works with when the question for
    /// the size of the terminal had the given outcome.
    pub fn size_of(outcome: Option<Size>) -> (size: Size)
        ensures
            size == Self::spec_size_of(outcome),
    {
        match outcome {
            None => Size { rows: NO_TERMINAL, cols: NO_TERMINAL },
            Some(size) => size,
        }
    }

    /// Returns the size of the terminal, or a very large size when the
    /// output is no terminal.
    pub fn get_terminal_size() -> (size: Size) {
        Self::size_of(terminal_size())
    }

    /// The start of the lines of a message: the colored counter or time,
    /// and, where the message has no origin, the tag of the log level.
    pub open spec fn spec_prefix(
        ordering_mode: ConsoleLogOrder,
        counter: u64,
        time: Time,
        log_level: LogLevel,
        has_origin: bool,
    ) -> Seq<u8> {
        let stamp = match ordering_mode {
            ConsoleLogOrder::Time => spec_padded(time.seconds as nat, 0, 32u8) + seq![46u8]
                + spec_padded(time.nanoseconds as nat, 9, 48u8),
            ConsoleLogOrder::Counter => spec_padded(counter as nat, 9, 32u8),
        };
        let colored = "\x1b[0;90m".spec_bytes() + stamp + seq![32u8];
        if has_origin {
            colored
        } else {
            match ordering_mode {
                ConsoleLogOrder::Time => colored + Self::spec_log_level_string(log_level)
                    + seq![32u8, 10u8],
                ConsoleLogOrder::Counter => colored + Self::spec_log_level_string(log_level)
                    + seq![32u8],
            }
        }
    }

    /// The number of blanks in front of the lines of a message.
    pub open spec fn spec_spacing(ordering_mode: ConsoleLogOrder, has_origin: bool) -> nat {
        if !has_origin {
            0
        } else {
            match ordering_mode {
                ConsoleLogOrder::Time => 25,
                ConsoleLogOrder::Counter => 14,
            }
        }
    }

    /// The text of a message for the console.
    pub open spec fn spec_rendered(
        ordering_mode: ConsoleLogOrder,
        counter: u64,
        time: Time,
        log_level: LogLevel,
        origin: Seq<u8>,
        message: Seq<u8>,
        terminal: Size,
    ) -> Seq<u8> {
        let spacing = Self::spec_spacing(ordering_mode, origin.len() > 0);
        let prefix = Self::spec_prefix(ordering_mode, counter, time, log_level, origin.len() > 0);
        let origin_lines = if origin.len() > 0 {
            Self::spec_log_level_string(log_level) + seq![32u8] + spec_wrapped(
                spacing,
                "".spec_bytes(),
                Self::spec_origin_color(log_level),
                origin,
                spec_term_len(terminal.cols, spacing, "".spec_bytes().len()),
                0,
            )
        } else {
            Seq::empty()
        };
        prefix + origin_lines + Seq::new(spacing, |i: int| 32u8) + spec_wrapped(
            spacing,
            "| ".spec_bytes(),
            Self::spec_message_color(log_level),
            message,
            spec_term_len(terminal.cols, spacing, "| ".spec_bytes().len()),
            0,
        )
    }

    /// Counts the message and renders it for the console: the counter or
    /// the time, the level, the origin and the message, wrapped at the
    /// width of the terminal. A message whose level lies below
    /// `current_log_level` is counted but not rendered.
    pub fn log(
        &mut self,
        current_log_level: u8,
        log_level: LogLevel,
        origin: &Vec<u8>,
        formatted_message: &Vec<u8>,
        time: Time,
        terminal: Size,
    ) -> (text: Vec<u8>)
        ensures
            final(self).spec_counter() == old(self).spec_counter().wrapping_add(1),
            final(self).spec_ordering_mode() == old(self).spec_ordering_mode(),
            current_log_level > log_level.spec_as_u8() ==> text@ == Seq::<u8>::empty(),
            current_log_level <= log_level.spec_as_u8() ==> text@ == Self::spec_rendered(
                old(self).spec_ordering_mode(),
                old(self).spec_counter(),
                time,
                log_level,
                origin@,
                formatted_message@,
                terminal,
            ),
    {
        let counter: u64 = self.counter;
        self.counter = self.counter.wrapping_add(1);
        let mut text: Vec<u8> = Vec::new();

        if current_log_level > log_level.as_u8() {
            return text;
        }

        let has_origin: bool = origin.len() > 0;
        let spacing: usize = Self::spacing(self.ordering_mode, has_origin);
        Self::print_prefix(&mut text, self.ordering_mode, counter, time, log_level, has_origin);
        assert(text@ =~= Self::spec_prefix(
            self.ordering_mode,
            counter,
            time,
            log_level,
            has_origin,
        ));
        if has_origin {
            Self::print_origin(&mut text, spacing, log_level, origin, terminal);
        }
        let ghost head = text@;
        Self::print_message(&mut text, spacing, log_level, formatted_message, terminal);
        proof {
            let rendered = Self::spec_rendered(
                old(self).spec_ordering_mode(),
                old(self).spec_counter(),
                time,
                log_level,
                origin@,
                formatted_message@,
                terminal,
            );
            if !has_origin {
                assert(head + Seq::<u8>::empty() =~= head);
            }
            assert(text@ =~= rendered);
        }
        text
    }

    fn spacing(ordering_mode: ConsoleLogOrder, has_origin: bool) -> (spacing: usize)
        ensures
            spacing == Self::spec_spacing(ordering_mode, has_origin),
    {
        if !has_origin {
            0
        } else {
            match ordering_mode {
                ConsoleLogOrder::Time => 25,
                ConsoleLogOrder::Counter => 14,
            }
        }
    }

    fn print_prefix(
        target: &mut Vec<u8>,
        ordering_mode: ConsoleLogOrder,
        counter: u64,
        time: Time,
        log_level: LogLevel,
        has_origin: bool,
    )
        ensures
            final(target)@ == old(target)@ + Self::spec_prefix(
                ordering_mode,
                counter,
                time,
                log_level,
                has_origin,
            ),
    {
        let ghost stamp = match ordering_mode {
            ConsoleLogOrder::Time => spec_padded(time.seconds as nat, 0, 32u8) + seq![46u8]
                + spec_padded(time.nanoseconds as nat, 9, 48u8),
            ConsoleLogOrder::Counter => spec_padded(counter as nat, 9, 32u8),
        };
        let ghost colored = "\x1b[0;90m".spec_bytes() + stamp + seq![32u8];
        append(target, Self::counter_color(log_level).as_bytes());
        let ghost started = target@;
        assert(started == old(target)@ + "\x1b[0;90m".spec_bytes());
        match ordering_mode {
            ConsoleLogOrder::Time => {
                append_padded(target, time.seconds, 0, 32u8);
                target.push(46u8);
                append_padded(target, time.nanoseconds as u64, 9, 48u8);
                assert(target@ =~= started + stamp);
            },
            ConsoleLogOrder::Counter => {
                append_padded(target, counter, 9, 32u8);
                assert(target@ =~= started + stamp);
            },
        }
        target.push(32u8);
        let ghost stamped = target@;
        assert(stamped =~= old(target)@ + colored);
        if !has_origin {
            let ghost tag = Self::spec_log_level_string(log_level);
            append(target, Self::log_level_string(log_level).as_bytes());
            target.push(32u8);
            assert(target@ =~= stamped + tag + seq![32u8]);
            match ordering_mode {
                ConsoleLogOrder::Time => {
                    target.push(10u8);
                    assert(target@ =~= old(target)@ + (colored + tag + seq![32u8, 10u8]));
                },
                ConsoleLogOrder::Counter => {
                    assert(target@ =~= old(target)@ + (colored + tag + seq![32u8]));
                },
            }
        }
    }
}

} // verus!
