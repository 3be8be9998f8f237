//! Line-oriented device commands and the batch that sends several at once.
use crate::motion::{MotionProfile, Trajectory};
use rand::rngs::ThreadRng;
use vstd::prelude::*;

verus! {

/// Relies on `String::push_str`: the text is appended to the buffer.
#[verifier::external_body]
pub(crate) fn append_str(buf: &mut String, s: &str)
    ensures
        final(buf)@ == old(buf)@ + s@,
{
    buf.push_str(s)
}

/// Relies on `String::push`: the character is appended to the buffer.
#[verifier::external_body]
fn append_char(buf: &mut String, c: char)
    ensures
        final(buf)@ == old(buf)@.push(c),
{
    buf.push(c)
}

/// One logical operation of the device.
#[derive(Clone, Copy, Debug, PartialEq, Eq, Structural)]
pub enum Command {
    /// Move by a delta in one step.
    Move { dx: i32, dy: i32 },
    /// Move by a delta along a curve.
    Curve(Trajectory),
    /// Lock (`true`) or release the physical X axis.
    LockX(bool),
    /// Lock (`true`) or release the physical Y axis.
    LockY(bool),
    /// Press and release the left button.
    ClickLeft,
    /// Press and release the right button.
    ClickRight,
}

pub open spec fn digit_char(d: int) -> char {
    if d == 0 {
        '0'
    } else if d == 1 {
        '1'
    } else if d == 2 {
        '2'
    } else if d == 3 {
        '3'
    } else if d == 4 {
        '4'
    } else if d == 5 {
        '5'
    } else if d == 6 {
        '6'
    } else if d == 7 {
        '7'
    } else if d == 8 {
        '8'
    } else {
        '9'
    }
}

/// Decimal digits of `n`, most significant first, without leading zeros.
pub open spec fn digits(n: nat) -> Seq<char>
    decreases n,
{
    if n < 10 {
        seq![digit_char(n as int)]
    } else {
        digits(n / 10).push(digit_char((n % 10) as int))
    }
}

/// Decimal text of `n`, with a leading `-` when negative.
pub open spec fn decimal(n: int) -> Seq<char> {
    if n < 0 {
        seq!['-'] + digits((-n) as nat)
    } else {
        digits(n as nat)
    }
}

pub open spec fn flag(b: bool) -> Seq<char> {
    if b {
        "1"@
    } else {
        "0"@
    }
}

/// The text of one command, each line ended by CR LF.
pub open spec fn command_text(c: Command) -> Seq<char> {
    match c {
        Command::Move { dx, dy } => "km.move("@ + decimal(dx as int) + ","@ + decimal(dy as int)
            + ")\r\n"@,
        Command::Curve(t) => "km.move("@ + decimal(t.dx as int) + ","@ + decimal(t.dy as int)
            + ","@ + decimal(t.steps as int) + ","@ + decimal(t.control_x as int) + ","@
            + decimal(t.control_y as int) + ")\r\n"@,
        Command::LockX(b) => "km.lock_mx("@ + flag(b) + ")\r\n"@,
        Command::LockY(b) => "km.lock_my("@ + flag(b) + ")\r\n"@,
        Command::ClickLeft => "km.left(1)\r\nkm.left(0)\r\n"@,
        Command::ClickRight => "km.right(1)\r\nkm.right(0)\r\n"@,
    }
}

/// The text of several commands, in order.
pub open spec fn batch_text(cs: Seq<Command>) -> Seq<char>
    decreases cs.len(),
{
    if cs.len() == 0 {
        Seq::empty()
    } else {
        batch_text(cs.drop_last()) + command_text(cs.last())
    }
}

/// The text of commands appended in two runs is the text of the second run
/// after that of the first: a batch keeps the order in which its commands
/// were appended.
pub proof fn lemma_batch_concat(a: Seq<Command>, b: Seq<Command>)
    ensures
        batch_text(a + b) == batch_text(a) + batch_text(b),
    decreases b.len(),
{
    if b.len() == 0 {
        assert(a + b =~= a);
        assert(batch_text(a) + batch_text(b) =~= batch_text(a));
    } else {
        lemma_batch_concat(a, b.drop_last());
        assert((a + b).drop_last() =~= a + b.drop_last());
        assert((a + b).last() == b.last());
        assert(batch_text(a + b) =~= batch_text(a) + batch_text(b));
    }
}

fn digit(d: u64) -> (c: char)
    requires
        d < 10,
    ensures
        c == digit_char(d as int),
{
    match d {
        0 => '0',
        1 => '1',
        2 => '2',
        3 => '3',
        4 => '4',
        5 => '5',
        6 => '6',
        7 => '7',
        8 => '8',
        _ => '9',
    }
}

fn push_digits(buf: &mut String, n: u64)
    ensures
        final(buf)@ == old(buf)@ + digits(n as nat),
    decreases n,
{
    if n >= 10 {
        push_digits(buf, n / 10);
    }
    append_char(buf, digit(n % 10));
    assert(final(buf)@ =~= old(buf)@ + digits(n as nat));
}

fn push_decimal(buf: &mut String, n: i64)
    ensures
        final(buf)@ == old(buf)@ + decimal(n as int),
{
    if n < 0 {
        append_char(buf, '-');
        let m = (0 - (n as i128)) as u64;
        push_digits(buf, m);
        assert(final(buf)@ =~= old(buf)@ + decimal(n as int));
    } else {
        push_digits(buf, n as u64);
    }
}

fn push_command(buf: &mut String, c: &Command)
    ensures
        final(buf)@ == old(buf)@ + command_text(*c),
{
    let ghost start = buf@;
    match c {
        Command::Move { dx, dy } => {
            append_str(buf, "km.move(");
            push_decimal(buf, *dx as i64);
            append_str(buf, ",");
            push_decimal(buf, *dy as i64);
            append_str(buf, ")\r\n");
        },
        Command::Curve(t) => {
            append_str(buf, "km.move(");
            push_decimal(buf, t.dx as i64);
            append_str(buf, ",");
            push_decimal(buf, t.dy as i64);
            append_str(buf, ",");
            push_decimal(buf, t.steps as i64);
            append_str(buf, ",");
            push_decimal(buf, t.control_x as i64);
            append_str(buf, ",");
            push_decimal(buf, t.control_y as i64);
            append_str(buf, ")\r\n");
        },
        Command::LockX(b) => {
            append_str(buf, "km.lock_mx(");
            append_str(buf, if *b { "1" } else { "0" });
            append_str(buf, ")\r\n");
        },
        Command::LockY(b) => {
            append_str(buf, "km.lock_my(");
            append_str(buf, if *b { "1" } else { "0" });
            append_str(buf, ")\r\n");
        },
        Command::ClickLeft => {
            append_str(buf, "km.left(1)\r\nkm.left(0)\r\n");
        },
        Command::ClickRight => {
            append_str(buf, "km.right(1)\r\nkm.right(0)\r\n");
        },
    }
    assert(buf@ =~= start + command_text(*c));
}

/// The text of one command, ready to send on its own.
pub fn command_line(c: &Command) -> (r: String)
    ensures
        r@ == command_text(*c),
{
    let mut buf = String::new();
    push_command(&mut buf, c);
    assert(buf@ =~= command_text(*c));
    buf
}

/// Commands gathered to be sent as one payload.
#[derive(Clone, Debug)]
pub struct BatchCommands {
    pub commands: Vec<Command>,
}

impl BatchCommands {
    pub fn new() -> (r: BatchCommands)
        ensures
            r.commands@ == Seq::<Command>::empty(),
    {
        BatchCommands { commands: Vec::new() }
    }

    fn with(self, c: Command) -> (r: BatchCommands)
        ensures
            r.commands@ == self.commands@.push(c),
    {
        let mut commands = self.commands;
        commands.push(c);
        BatchCommands { commands }
    }

    pub fn move_shift(self, dx: i32, dy: i32) -> (r: BatchCommands)
        ensures
            r.commands@ == self.commands@.push(Command::Move { dx, dy }),
    {
        self.with(Command::Move { dx, dy })
    }

    /// Append a curved move planned by `profile`.
    pub fn move_bezier(self, profile: &MotionProfile, dx: i32, dy: i32, random: &mut ThreadRng) -> (r:
        BatchCommands)
        requires
            profile.wf(),
        ensures
            r.commands@.len() == self.commands@.len() + 1,
            r.commands@.drop_last() == self.commands@,
            r.commands@.last() matches Command::Curve(t) && t.dx == dx && t.dy == dy
                && profile.range_for(dx as int, dy as int).0 <= t.steps <= profile.range_for(
                dx as int,
                dy as int,
            ).1 && profile.control_min <= t.control_x <= profile.control_max
                && profile.control_min <= t.control_y <= profile.control_max,
    {
        let t = profile.plan(dx, dy, random);
        let r = self.with(Command::Curve(t));
        assert(r.commands@.drop_last() =~= self.commands@);
        r
    }

    pub fn lock_mx(self) -> (r: BatchCommands)
        ensures
            r.commands@ == self.commands@.push(Command::LockX(true)),
    {
        self.with(Command::LockX(true))
    }

    pub fn unlock_mx(self) -> (r: BatchCommands)
        ensures
            r.commands@ == self.commands@.push(Command::LockX(false)),
    {
        self.with(Command::LockX(false))
    }

    pub fn lock_my(self) -> (r: BatchCommands)
        ensures
            r.commands@ == self.commands@.push(Command::LockY(true)),
    {
        self.with(Command::LockY(true))
    }

    pub fn unlock_my(self) -> (r: BatchCommands)
        ensures
            r.commands@ == self.commands@.push(Command::LockY(false)),
    {
        self.with(Command::LockY(false))
    }

    pub fn click_left(self) -> (r: BatchCommands)
        ensures
            r.commands@ == self.commands@.push(Command::ClickLeft),
    {
        self.with(Command::ClickLeft)
    }

    pub fn click_right(self) -> (r: BatchCommands)
        ensures
            r.commands@ == self.commands@.push(Command::ClickRight),
    {
        self.with(Command::ClickRight)
    }

    /// The whole batch as one payload: the commands in the order appended,
    /// then an empty line that closes the batch.
    pub fn payload(&self) -> (r: String)
        ensures
            r@ == batch_text(self.commands@) + "\r\n"@,
    {
        let mut buf = String::new();
        let mut i: usize = 0;
        assert(buf@ =~= batch_text(self.commands@.take(0)));
        while i < self.commands.len()
            invariant
                0 <= i <= self.commands@.len(),
                buf@ == batch_text(self.commands@.take(i as int)),
            decreases self.commands@.len() - i,
        {
            push_command(&mut buf, &self.commands[i]);
            assert(self.commands@.take(i as int + 1).drop_last() =~= self.commands@.take(i as int));
            i = i + 1;
        }
        assert(self.commands@.take(i as int) =~= self.commands@);
        append_str(&mut buf, "\r\n");
        buf
    }
}

} // verus!
