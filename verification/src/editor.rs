//! The editor controller: cursor state, the exit flag, and the dispatch
//! from input events to buffer, cursor and redraw actions.
//!
//! The controller is a state machine with two states, editing and exiting;
//! the only transition is into the exiting state, taken on the exit
//! command.  Every dispatched event is followed by a full repaint, queued
//! on the terminal surface as one batch.  Reading the next input event,
//! writing the saved file and committing the queue are I/O and happen
//! outside the library; the contracts here pin down everything in between.

use crate::terminal::{ClearKind, CmdView, Position, Size, Terminal};
use crate::lines::{crlf, push_char};
use vstd::prelude::*;

verus! {

/// A cursor position in the buffer and on the screen: `x` is the column,
/// `y` is the row.
#[derive(Copy, Clone, PartialEq, Eq, Structural, Debug)]
pub struct Location {
    pub x: usize,
    pub y: usize,
}

impl Default for Location {
    /// Column 0 of row 0.
    fn default() -> (r: Self)
        ensures
            r == (Location { x: 0, y: 0 }),
    {
        Location { x: 0, y: 0 }
    }
}

/// A directional key.  The four arrows move the cursor one step under the
/// viewport clamps; the other four are accepted and currently move nothing.
#[derive(Copy, Clone, PartialEq, Eq, Structural, Debug)]
pub enum MoveKey {
    Up,
    Down,
    Left,
    Right,
    PageUp,
    PageDown,
    Home,
    End,
}

/// One keyboard event, already decoded from the input device.
#[derive(Copy, Clone, PartialEq, Eq, Structural, Debug)]
pub enum InputEvent {
    /// The exit command.
    Exit,
    /// A directional key.
    Move(MoveKey),
    /// The save command.
    Save,
    /// A printable character to insert at the cursor.
    Insert(char),
    /// Anything else; dispatched as a no-op.
    Other,
}

/// `v` decremented by one, saturating at zero.
pub open spec fn sat_sub1(v: usize) -> usize {
    if v == 0 {
        0
    } else {
        (v - 1) as usize
    }
}

/// `v` incremented by one, saturating at the largest value.
pub open spec fn sat_add1(v: usize) -> usize {
    if v == usize::MAX {
        v
    } else {
        (v + 1) as usize
    }
}

/// The smaller of `a` and `b`.
pub open spec fn min_usize(a: usize, b: usize) -> usize {
    if a <= b {
        a
    } else {
        b
    }
}

/// Where the cursor lands: one step in the key's direction, clamped to
/// the viewport, so it never leaves `0 <= x <= width-1` and
/// `0 <= y <= height-1` through a move.  The clamp is against the live
/// viewport size, not against line or buffer length.
pub open spec fn clamped_move(loc: Location, key: MoveKey, size: Size) -> Location {
    match key {
        MoveKey::Up => Location { x: loc.x, y: sat_sub1(loc.y) },
        MoveKey::Down => Location { x: loc.x, y: min_usize(sat_sub1(size.height), sat_add1(loc.y)) },
        MoveKey::Left => Location { x: sat_sub1(loc.x), y: loc.y },
        MoveKey::Right => Location {
            x: min_usize(sat_sub1(size.width), sat_add1(loc.x)),
            y: loc.y,
        },
        _ => loc,
    }
}

/// The farewell line printed by the final redraw.
pub open spec fn farewell() -> Seq<char> {
    "GoodBye!\r\n"@
}

/// The transient confirmation printed after a successful save.
pub open spec fn save_notice_text() -> Seq<char> {
    "\x1b[32mFile Saved!\x1b[0m"@
}

/// The redraw commands for the buffer body: each line printed in order,
/// followed by a line terminator.
pub open spec fn line_cmds(lines: Seq<Seq<char>>) -> Seq<CmdView>
    decreases lines.len(),
{
    if lines.len() == 0 {
        Seq::empty()
    } else {
        seq![CmdView::Print(lines[0]), CmdView::Print(crlf())] + line_cmds(lines.drop_first())
    }
}

/// The editor: the exit flag, the cursor, and the text buffer it owns.
pub struct Editor {
    pub should_exit: bool,
    pub location: Location,
    pub view_obj: crate::view::View,
}

/// The full command batch one repaint queues for an editor in this state:
/// hide the cursor, home it, then either the farewell screen or every
/// buffer line followed by a cursor restore, and finally show the cursor.
/// It is a function of the editor state alone, so repainting twice without
/// a state change queues the same commands twice.
pub open spec fn redraw_cmds(e: Editor) -> Seq<CmdView> {
    if e.should_exit {
        seq![
            CmdView::HideCursor,
            CmdView::MoveTo(Position { x: 0, y: 0 }),
            CmdView::ClearScreen(ClearKind::Purge),
            CmdView::Print(farewell()),
            CmdView::ShowCursor,
        ]
    } else {
        seq![
            CmdView::HideCursor,
            CmdView::MoveTo(Position { x: 0, y: 0 }),
            CmdView::MoveTo(Position { x: 0, y: 0 }),
        ] + line_cmds(e.view_obj.lines()) + seq![
            CmdView::MoveTo(Position { x: e.location.x, y: e.location.y }),
            CmdView::ShowCursor,
        ]
    }
}

/// The commands queued after a successful save: a jump to a fixed corner
/// position, the confirmation text, and a return to the cursor.
pub open spec fn save_notice_cmds(loc: Location, size: Size) -> Seq<CmdView> {
    seq![
        CmdView::MoveTo(Position { x: size.height, y: size.width }),
        CmdView::Print(save_notice_text()),
        CmdView::MoveTo(Position { x: loc.x, y: loc.y }),
    ]
}

/// The version banner shown on the welcome row.
pub open spec fn welcome_base() -> Seq<char> {
    "Editer -- verison 0.0.1"@
}

/// `n` spaces.
pub open spec fn spaces(n: nat) -> Seq<char> {
    Seq::new(n, |i: int| ' ')
}

/// The welcome row's text for a viewport this wide: a tilde, padding that
/// roughly centres the banner, and the banner itself, cut to the width.
pub open spec fn welcome_text(width: usize) -> Seq<char> {
    let base = welcome_base();
    let padding: int = if width > base.len() {
        (width - base.len()) / 2
    } else {
        0
    };
    let pad: int = if padding > 0 {
        padding - 1
    } else {
        0
    };
    let full = seq!['~'] + spaces(pad as nat) + base;
    if width < full.len() {
        full.take(width as int)
    } else {
        full
    }
}

/// The commands one welcome-screen row queues: clear the line, then the
/// banner on the middle row and a tilde on every other.
pub open spec fn one_row_cmds(size: Size, r: int) -> Seq<CmdView> {
    seq![CmdView::ClearScreen(ClearKind::CurrentLine)] + (
    if r == size.height as int / 2 {
        seq![CmdView::Print(welcome_text(size.width))]
    } else {
        seq![CmdView::Print("~"@)]
    })
}

/// The commands the first `r` welcome-screen rows queue, in row order.
pub open spec fn rows_cmds_upto(size: Size, r: int) -> Seq<CmdView>
    decreases r,
{
    if r <= 0 {
        Seq::empty()
    } else {
        rows_cmds_upto(size, r - 1) + one_row_cmds(size, r - 1)
    }
}

/// Holds when the cursor points at a legal insertion position: a row
/// inside the buffer and a column no further than that line's end.  The
/// cursor clamps to the viewport, not to the buffer, so this can be false.
pub open spec fn insert_target_valid(e: Editor) -> bool {
    &&& (e.location.y as int) < e.view_obj.lines().len()
    &&& (e.location.x as int) <= e.view_obj.lines()[e.location.y as int].len()
}

proof fn lemma_line_cmds_push(lines: Seq<Seq<char>>, l: Seq<char>)
    ensures
        line_cmds(lines.push(l)) =~= line_cmds(lines) + seq![
            CmdView::Print(l),
            CmdView::Print(crlf()),
        ],
    decreases lines.len(),
{
    let p = lines.push(l);
    if lines.len() == 0 {
        assert(p[0] == l);
        assert(p.drop_first() =~= Seq::<Seq<char>>::empty());
        assert(line_cmds(p.drop_first()) =~= Seq::<CmdView>::empty());
        assert(line_cmds(p) =~= seq![CmdView::Print(p[0]), CmdView::Print(crlf())] + line_cmds(
            p.drop_first(),
        ));
        assert(line_cmds(lines) =~= Seq::<CmdView>::empty());
    } else {
        assert(p[0] == lines[0]);
        assert(p.drop_first() =~= lines.drop_first().push(l));
        lemma_line_cmds_push(lines.drop_first(), l);
        assert(line_cmds(p) =~= seq![CmdView::Print(p[0]), CmdView::Print(crlf())] + line_cmds(
            p.drop_first(),
        ));
        assert(line_cmds(lines) =~= seq![CmdView::Print(lines[0]), CmdView::Print(crlf())]
            + line_cmds(lines.drop_first()));
    }
}

impl Editor {
    /// An editor over the given buffer: cursor at the origin, not exiting.
    pub fn new(view_obj: crate::view::View) -> (r: Self)
        ensures
            !r.should_exit,
            r.location == (Location { x: 0, y: 0 }),
            r.view_obj == view_obj,
    {
        Editor { should_exit: false, location: Location { x: 0, y: 0 }, view_obj }
    }

    /// Dispatch one input event: latch the exit flag on the exit command,
    /// move the cursor under the viewport clamps on a directional key,
    /// splice a printable character in at the cursor and step right, and
    /// report whether the caller must persist the buffer.  An insertion
    /// the cursor cannot legally make (the cursor may rest past the end
    /// of a short line or below the last line) is skipped whole.  Once
    /// the exit flag is set, no event clears it.
    pub fn eval_event(&mut self, event: &InputEvent, size: Size) -> (save_requested: bool)
        ensures
            final(self).should_exit == (old(self).should_exit || *event == InputEvent::Exit),
            save_requested == (*event == InputEvent::Save),
            match *event {
                InputEvent::Exit => {
                    &&& final(self).location == old(self).location
                    &&& final(self).view_obj == old(self).view_obj
                },
                InputEvent::Move(k) => {
                    &&& final(self).location == clamped_move(old(self).location, k, size)
                    &&& final(self).view_obj == old(self).view_obj
                },
                InputEvent::Save => *final(self) == *old(self),
                InputEvent::Insert(c) => {
                    if insert_target_valid(*old(self)) {
                        &&& final(self).view_obj.lines() =~= old(self).view_obj.lines().update(
                            old(self).location.y as int,
                            old(self).view_obj.lines()[old(self).location.y as int].insert(
                                old(self).location.x as int,
                                c,
                            ),
                        )
                        &&& final(self).view_obj.file_path == old(self).view_obj.file_path
                        &&& final(self).location == clamped_move(
                            old(self).location,
                            MoveKey::Right,
                            size,
                        )
                    } else {
                        *final(self) == *old(self)
                    }
                },
                InputEvent::Other => *final(self) == *old(self),
            },
    {
        match event {
            InputEvent::Exit => {
                self.should_exit = true;
                false
            },
            InputEvent::Move(k) => {
                self.move_caret(*k, size);
                false
            },
            InputEvent::Save => true,
            InputEvent::Insert(c) => {
                let inserted = self.update_file(*c);
                if inserted {
                    self.move_caret(MoveKey::Right, size);
                }
                false
            },
            InputEvent::Other => false,
        }
    }

    /// Insert `char_code` at the cursor.  An out-of-range cursor is an
    /// internal invariant failure of the caller, so the insertion is
    /// skipped rather than propagated; the report says whether it took.
    pub fn update_file(&mut self, char_code: char) -> (inserted: bool)
        ensures
            final(self).should_exit == old(self).should_exit,
            final(self).location == old(self).location,
            final(self).view_obj.file_path == old(self).view_obj.file_path,
            inserted == insert_target_valid(*old(self)),
            inserted ==> final(self).view_obj.lines() =~= old(self).view_obj.lines().update(
                old(self).location.y as int,
                old(self).view_obj.lines()[old(self).location.y as int].insert(
                    old(self).location.x as int,
                    char_code,
                ),
            ),
            !inserted ==> *final(self) == *old(self),
    {
        let r = self.view_obj.insert_char(self.location.y, self.location.x, char_code);
        match r {
            Ok(_) => true,
            Err(_) => false,
        }
    }

    /// Move the cursor one step in the key's direction, clamped to the
    /// current viewport; nothing else changes.
    pub fn move_caret(&mut self, key: MoveKey, size: Size)
        ensures
            final(self).location == clamped_move(old(self).location, key, size),
            final(self).should_exit == old(self).should_exit,
            final(self).view_obj == old(self).view_obj,
    {
        let mut x = self.location.x;
        let mut y = self.location.y;
        match key {
            MoveKey::Down => {
                let cap = if size.height == 0 {
                    0
                } else {
                    size.height - 1
                };
                let stepped = if y == usize::MAX {
                    y
                } else {
                    y + 1
                };
                y = if cap <= stepped {
                    cap
                } else {
                    stepped
                };
            },
            MoveKey::Up => {
                y = if y == 0 {
                    0
                } else {
                    y - 1
                };
            },
            MoveKey::Left => {
                x = if x == 0 {
                    0
                } else {
                    x - 1
                };
            },
            MoveKey::Right => {
                let cap = if size.width == 0 {
                    0
                } else {
                    size.width - 1
                };
                let stepped = if x == usize::MAX {
                    x
                } else {
                    x + 1
                };
                x = if cap <= stepped {
                    cap
                } else {
                    stepped
                };
            },
            _ => {},
        }
        self.location = Location { x, y };
    }

    /// Queue one full repaint of the current state: hide the cursor, home
    /// it, then the farewell screen when exiting or every buffer line and
    /// a cursor restore otherwise, and show the cursor again.  Exactly
    /// `redraw_cmds(*self)` is appended, so the batch depends on the
    /// editor state alone.
    pub fn refresh_screen(&self, term: &mut Terminal)
        ensures
            final(term)@ =~= old(term)@ + redraw_cmds(*self),
    {
        let ghost base = old(term)@;
        term.hide_cursor();
        term.move_cursor_to(Position { x: 0, y: 0 });
        if self.should_exit {
            term.clear_screen(ClearKind::Purge);
            term.print("GoodBye!\r\n");
        } else {
            term.move_cursor_to(Position { x: 0, y: 0 });
            let ghost lines = self.view_obj.lines();
            let ghost mid = base + seq![
                CmdView::HideCursor,
                CmdView::MoveTo(Position { x: 0, y: 0 }),
                CmdView::MoveTo(Position { x: 0, y: 0 }),
            ];
            let text = self.view_obj.get_text();
            let mut i: usize = 0;
            proof {
                assert(term@ =~= mid + line_cmds(lines.take(0)));
            }
            while i < text.len()
                invariant
                    i <= text.len(),
                    lines == text.deep_view(),
                    term@ =~= mid + line_cmds(lines.take(i as int)),
                decreases text.len() - i,
            {
                term.print(text[i].as_str());
                term.print("\r\n");
                proof {
                    reveal_strlit("\r\n");
                    assert("\r\n"@ =~= crlf());
                    lemma_line_cmds_push(lines.take(i as int), lines[i as int]);
                    assert(lines.take(i as int + 1) =~= lines.take(i as int).push(
                        lines[i as int],
                    ));
                }
                i += 1;
            }
            proof {
                assert(lines.take(text.len() as int) =~= lines);
            }
            term.move_cursor_to(Position { x: self.location.x, y: self.location.y });
        }
        term.show_cursor();
    }

    /// Queue the save confirmation: jump to the fixed corner position,
    /// print the notice, and return the cursor to where it was.  Called
    /// after the buffer image was successfully written out.
    pub fn note_saved(&self, term: &mut Terminal, size: Size)
        ensures
            final(term)@ =~= old(term)@ + save_notice_cmds(self.location, size),
    {
        term.move_cursor_to(Position { x: size.height, y: size.width });
        term.print("\x1b[32mFile Saved!\x1b[0m");
        term.move_cursor_to(Position { x: self.location.x, y: self.location.y });
    }

    /// Queue a tilde marking an empty welcome-screen row.
    pub fn print_empty_row(term: &mut Terminal)
        ensures
            final(term)@ =~= old(term)@ + seq![CmdView::Print("~"@)],
    {
        term.print("~");
    }

    /// Queue the welcome banner row for a viewport this wide.
    pub fn print_welcome_message(term: &mut Terminal, width: usize)
        ensures
            final(term)@ =~= old(term)@ + seq![CmdView::Print(welcome_text(width))],
    {
        let banner = "Editer -- verison 0.0.1";
        let banner_len = banner.unicode_len();
        let padding: usize = if width > banner_len {
            (width - banner_len) / 2
        } else {
            0
        };
        let pad: usize = if padding > 0 {
            padding - 1
        } else {
            0
        };
        let mut msg = String::from_str("~");
        proof {
            reveal_strlit("~");
            assert(msg@ =~= seq!['~'] + spaces(0));
        }
        let mut i: usize = 0;
        while i < pad
            invariant
                i <= pad,
                msg@ =~= seq!['~'] + spaces(i as nat),
            decreases pad - i,
        {
            push_char(&mut msg, ' ');
            proof {
                assert((seq!['~'] + spaces(i as nat)).push(' ') =~= seq!['~'] + spaces(
                    (i + 1) as nat,
                ));
            }
            i += 1;
        }
        msg.append(banner);
        let ghost full = seq!['~'] + spaces(pad as nat) + welcome_base();
        proof {
            assert(msg@ =~= full);
        }
        let mlen = msg.as_str().unicode_len();
        let cut = if width < mlen {
            width
        } else {
            mlen
        };
        let trimmed = msg.as_str().substring_char(0, cut);
        term.print(trimmed);
        proof {
            if width < mlen {
                assert(trimmed@ =~= full.take(width as int));
            } else {
                assert(trimmed@ =~= full);
            }
            assert(trimmed@ =~= welcome_text(width));
        }
    }

    /// Queue the whole welcome screen: every viewport row cleared, a tilde
    /// on each, and the version banner on the middle row.
    pub fn print_rows(term: &mut Terminal, size: Size)
        ensures
            final(term)@ =~= old(term)@ + rows_cmds_upto(size, size.height as int),
    {
        let ghost base = old(term)@;
        let mut current_row: usize = 0;
        proof {
            assert(term@ =~= base + rows_cmds_upto(size, 0));
        }
        while current_row < size.height
            invariant
                current_row <= size.height,
                term@ =~= base + rows_cmds_upto(size, current_row as int),
            decreases size.height - current_row,
        {
            term.clear_screen(ClearKind::CurrentLine);
            if current_row == size.height / 2 {
                Self::print_welcome_message(term, size.width);
            } else {
                Self::print_empty_row(term);
            }
            proof {
                assert(term@ =~= base + rows_cmds_upto(size, current_row as int + 1));
            }
            current_row += 1;
        }
    }
}

impl Default for Editor {
    /// Not exiting, cursor at the origin, empty buffer.
    fn default() -> (r: Self)
        ensures
            !r.should_exit,
            r.location == (Location { x: 0, y: 0 }),
            r.view_obj.lines() =~= Seq::<Seq<char>>::empty(),
    {
        Editor {
            should_exit: false,
            location: Location { x: 0, y: 0 },
            view_obj: Default::default(),
        }
    }
}

/// Moving against a viewport edge leaves the cursor where it is: right at
/// the last column, left at column 0, up at row 0, down at the last row.
pub proof fn lemma_cursor_clamp(loc: Location, size: Size)
    ensures
        loc.x == size.width - 1 ==> clamped_move(loc, MoveKey::Right, size).x == loc.x,
        loc.x == 0 ==> clamped_move(loc, MoveKey::Left, size).x == 0,
        loc.y == size.height - 1 ==> clamped_move(loc, MoveKey::Down, size).y == loc.y,
        loc.y == 0 ==> clamped_move(loc, MoveKey::Up, size).y == 0,
{
}

/// Repainting is deterministic: two editors in the same state queue the
/// same redraw batch, so consecutive redraws with no intervening state
/// change produce identical command sequences.
pub proof fn lemma_redraw_deterministic(e1: Editor, e2: Editor)
    requires
        e1.should_exit == e2.should_exit,
        e1.location == e2.location,
        e1.view_obj.lines() =~= e2.view_obj.lines(),
    ensures
        redraw_cmds(e1) =~= redraw_cmds(e2),
{
}

/// The redraw of an exiting editor is exactly the farewell batch: clear
/// the screen and print the farewell line, whatever the cursor position
/// and buffer contents.
pub proof fn lemma_exit_redraw(e: Editor)
    requires
        e.should_exit,
    ensures
        redraw_cmds(e) =~= seq![
            CmdView::HideCursor,
            CmdView::MoveTo(Position { x: 0, y: 0 }),
            CmdView::ClearScreen(ClearKind::Purge),
            CmdView::Print(farewell()),
            CmdView::ShowCursor,
        ],
{
}

} // verus!
