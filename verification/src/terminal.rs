//! The terminal surface: an explicit queue of pending display commands.
//!
//! Every drawing operation only appends a command to the queue; nothing is
//! visible until the caller drains the queue and writes it to the device in
//! one flush.  Batching the commands this way is the anti-flicker mechanism:
//! a redraw is queued whole and committed once.  The queue itself is plain
//! data, so everything about it is verified; the single write to the device
//! happens outside the library.

use vstd::prelude::*;

verus! {

/// The terminal viewport dimensions, queried fresh from the device before
/// every cursor move and redraw (the terminal can be resized between events).
#[derive(Copy, Clone, PartialEq, Eq, Structural, Debug, Hash)]
pub struct Size {
    pub height: usize,
    pub width: usize,
}

/// A screen coordinate: `x` is the column, `y` is the row, both zero-based.
#[derive(Copy, Clone, PartialEq, Eq, Structural, Debug, Hash)]
pub struct Position {
    pub x: usize,
    pub y: usize,
}

impl Default for Position {
    /// The home position, column 0 of row 0.
    fn default() -> (r: Self)
        ensures
            r == (Position { x: 0, y: 0 }),
    {
        Position { x: 0, y: 0 }
    }
}

impl Default for Size {
    /// A zero-by-zero viewport.
    fn default() -> (r: Self)
        ensures
            r == (Size { height: 0, width: 0 }),
    {
        Size { height: 0, width: 0 }
    }
}

/// Which part of the screen a clear command erases.
#[derive(Copy, Clone, PartialEq, Eq, Structural, Debug)]
pub enum ClearKind {
    /// Every visible cell.
    All,
    /// Every visible cell and the scrollback history.
    Purge,
    /// The line the cursor is on.
    CurrentLine,
}

/// One pending display command.  `Print` carries pre-formatted text; there
/// is deliberately no richer entry point, so the queue pins down exactly
/// what will reach the screen.
#[derive(PartialEq, Debug)]
pub enum TermCommand {
    ClearScreen(ClearKind),
    MoveTo(Position),
    Print(String),
    ShowCursor,
    HideCursor,
}

/// The mathematical value of one display command: `Print` is read as its
/// character sequence, so two queues are equal exactly when they would put
/// the same bytes on the wire.
pub ghost enum CmdView {
    ClearScreen(ClearKind),
    MoveTo(Position),
    Print(Seq<char>),
    ShowCursor,
    HideCursor,
}

impl View for TermCommand {
    type V = CmdView;

    open spec fn view(&self) -> CmdView {
        match self {
            TermCommand::ClearScreen(k) => CmdView::ClearScreen(*k),
            TermCommand::MoveTo(p) => CmdView::MoveTo(*p),
            TermCommand::Print(s) => CmdView::Print(s@),
            TermCommand::ShowCursor => CmdView::ShowCursor,
            TermCommand::HideCursor => CmdView::HideCursor,
        }
    }
}

/// The queue of display commands not yet committed to the device.
pub struct Terminal {
    pub pending: Vec<TermCommand>,
}

impl View for Terminal {
    type V = Seq<CmdView>;

    open spec fn view(&self) -> Seq<CmdView> {
        Seq::new(self.pending@.len(), |i: int| self.pending@[i]@)
    }
}

impl Default for Terminal {
    /// A surface with nothing queued.
    fn default() -> (r: Self)
        ensures
            r@ =~= Seq::<CmdView>::empty(),
    {
        Terminal { pending: Vec::new() }
    }
}

impl Terminal {
    /// A surface with nothing queued.
    pub fn new() -> (r: Self)
        ensures
            r@ =~= Seq::<CmdView>::empty(),
    {
        Terminal { pending: Vec::new() }
    }

    /// Append one command to the queue.
    pub fn queue_command(&mut self, cmd: TermCommand)
        ensures
            final(self)@ =~= old(self)@.push(cmd@),
    {
        self.pending.push(cmd);
    }

    /// Queue a screen clear of the given kind.
    pub fn clear_screen(&mut self, kind: ClearKind)
        ensures
            final(self)@ =~= old(self)@.push(CmdView::ClearScreen(kind)),
    {
        self.queue_command(TermCommand::ClearScreen(kind));
    }

    /// Queue a cursor move to `pos`.
    pub fn move_cursor_to(&mut self, pos: Position)
        ensures
            final(self)@ =~= old(self)@.push(CmdView::MoveTo(pos)),
    {
        self.queue_command(TermCommand::MoveTo(pos));
    }

    /// Queue pre-formatted text for output at the current cursor position.
    pub fn print(&mut self, text: &str)
        ensures
            final(self)@ =~= old(self)@.push(CmdView::Print(text@)),
    {
        self.queue_command(TermCommand::Print(text.to_owned()));
    }

    /// Queue a command that makes the cursor visible.
    pub fn show_cursor(&mut self)
        ensures
            final(self)@ =~= old(self)@.push(CmdView::ShowCursor),
    {
        self.queue_command(TermCommand::ShowCursor);
    }

    /// Queue a command that hides the cursor.
    pub fn hide_cursor(&mut self)
        ensures
            final(self)@ =~= old(self)@.push(CmdView::HideCursor),
    {
        self.queue_command(TermCommand::HideCursor);
    }

    /// Hand the queued commands over for the single committing write and
    /// leave the queue empty.  The caller performs the device I/O.
    pub fn take_pending(&mut self) -> (r: Vec<TermCommand>)
        ensures
            final(self)@ =~= Seq::<CmdView>::empty(),
            Seq::new(r@.len(), |i: int| r@[i]@) =~= old(self)@,
    {
        let mut drained: Vec<TermCommand> = Vec::new();
        core::mem::swap(&mut drained, &mut self.pending);
        drained
    }

    /// Read access to the queue, for inspection without committing.
    pub fn pending_commands(&self) -> (r: &Vec<TermCommand>)
        ensures
            Seq::new(r@.len(), |i: int| r@[i]@) =~= self@,
    {
        &self.pending
    }
}

} // verus!
