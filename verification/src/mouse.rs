//! Mouse input for Neovim (`nvim_input_mouse`): modifier names and the
//! drag tracking that keeps at most one drag request in flight.
use crate::input::Modifiers;
use vstd::prelude::*;

verus! {

/// Neovim's modifier string for a mouse event: `C`, `S`, `M`, `D` in that
/// order for Ctrl, Shift, Alt and the platform key.
pub open spec fn mouse_mods(control: bool, shift: bool, alt: bool, platform: bool) -> Seq<char> {
    (if control {
        seq!['C']
    } else {
        Seq::empty()
    }) + (if shift {
        seq!['S']
    } else {
        Seq::empty()
    }) + (if alt {
        seq!['M']
    } else {
        Seq::empty()
    }) + (if platform {
        seq!['D']
    } else {
        Seq::empty()
    })
}

/// Neovim's modifier string for the held modifiers (see `mouse_mods`).
pub fn mods_to_nvim(mods: &Modifiers) -> (res: &'static str)
    ensures
        res@ == mouse_mods(mods.control, mods.shift, mods.alt, mods.platform),
{
    let res = match (mods.control, mods.shift, mods.alt, mods.platform) {
        (false, false, false, false) => "",
        (true, false, false, false) => "C",
        (false, true, false, false) => "S",
        (false, false, true, false) => "M",
        (false, false, false, true) => "D",
        (true, true, false, false) => "CS",
        (true, false, true, false) => "CM",
        (true, false, false, true) => "CD",
        (false, true, true, false) => "SM",
        (false, true, false, true) => "SD",
        (false, false, true, true) => "MD",
        (true, true, true, false) => "CSM",
        (true, true, false, true) => "CSD",
        (true, false, true, true) => "CMD",
        (false, true, true, true) => "SMD",
        (true, true, true, true) => "CSMD",
    };
    proof {
        reveal_strlit("");
        reveal_strlit("C");
        reveal_strlit("S");
        reveal_strlit("M");
        reveal_strlit("D");
        reveal_strlit("CS");
        reveal_strlit("CM");
        reveal_strlit("CD");
        reveal_strlit("SM");
        reveal_strlit("SD");
        reveal_strlit("MD");
        reveal_strlit("CSM");
        reveal_strlit("CSD");
        reveal_strlit("CMD");
        reveal_strlit("SMD");
        reveal_strlit("CSMD");
        assert(res@ =~= mouse_mods(mods.control, mods.shift, mods.alt, mods.platform));
    }
    res
}

/// A grid position.
#[derive(Debug, Clone, Copy, PartialEq, Eq, Structural)]
pub struct GridPos {
    pub col: usize,
    pub row: usize,
}

/// A drag position with the modifiers held.
#[derive(Debug, Clone, Copy, PartialEq, Eq, Structural)]
pub struct DragTarget {
    pub col: usize,
    pub row: usize,
    pub mods: Modifiers,
}

/// What the front end remembers of the left mouse button between events.
#[derive(Debug, Clone, Copy, PartialEq, Eq, Structural)]
pub struct DragTracker {
    /// The left button is down.
    pub is_mouse_down: bool,
    /// The last position sent for the left button.
    pub last_mouse_pos: Option<GridPos>,
    /// A drag request is waiting for Neovim's answer.
    pub is_drag_in_flight: bool,
    /// The newest drag position that came while one was in flight.
    pub pending_mouse_drag: Option<DragTarget>,
    /// The column that a drag on the right-edge scrollbar stays on.
    pub scrollbar_drag_col: Option<usize>,
}

/// The tracker and the drag to send after the mouse moved to (`col`,
/// `row`): nothing changes unless the left button is down and the position
/// (on the scrollbar column during a scrollbar drag) is new; then the drag
/// is sent at once when none is in flight, and otherwise kept as the one to
/// send next, replacing any older one.
pub open spec fn after_move(o: DragTracker, col: usize, row: usize, mods: Modifiers) -> (
    DragTracker,
    Option<DragTarget>,
) {
    let c = match o.scrollbar_drag_col {
        Some(x) => x,
        None => col,
    };
    if !o.is_mouse_down || o.last_mouse_pos == Some(GridPos { col: c, row }) {
        (o, None)
    } else if o.is_drag_in_flight {
        (
            DragTracker {
                last_mouse_pos: Some(GridPos { col: c, row }),
                pending_mouse_drag: Some(DragTarget { col: c, row, mods }),
                ..o
            },
            None,
        )
    } else {
        (
            DragTracker {
                last_mouse_pos: Some(GridPos { col: c, row }),
                is_drag_in_flight: true,
                pending_mouse_drag: None,
                ..o
            },
            Some(DragTarget { col: c, row, mods }),
        )
    }
}

/// The tracker and the drag to send after Neovim answered the drag in
/// flight: the waiting drag goes out next if the button is still down.
pub open spec fn after_finish(o: DragTracker) -> (DragTracker, Option<DragTarget>) {
    if o.is_mouse_down && o.pending_mouse_drag is Some {
        (DragTracker { is_drag_in_flight: true, pending_mouse_drag: None, ..o }, o.pending_mouse_drag)
    } else {
        (DragTracker { is_drag_in_flight: false, ..o }, None)
    }
}

impl DragTracker {
    /// A drag waits only while the button is down and another drag is in
    /// flight.
    pub open spec fn wf(self) -> bool {
        self.pending_mouse_drag is Some ==> self.is_drag_in_flight && self.is_mouse_down
    }

    /// Nothing pressed, nothing in flight.
    pub fn new() -> (res: Self)
        ensures
            res.wf(),
            res == (DragTracker {
                is_mouse_down: false,
                last_mouse_pos: None,
                is_drag_in_flight: false,
                pending_mouse_drag: None,
                scrollbar_drag_col: None,
            }),
    {
        DragTracker {
            is_mouse_down: false,
            last_mouse_pos: None,
            is_drag_in_flight: false,
            pending_mouse_drag: None,
            scrollbar_drag_col: None,
        }
    }

    /// A button press at (`col`, `row`) in a grid of `cols` columns.  A left
    /// press starts drag tracking, and one on the last three columns (the
    /// scrollbar) keeps the drag on its column.  The press is sent at
    /// (`col`, `row`) whatever the button.
    pub fn mouse_down(&mut self, is_left: bool, col: usize, row: usize, cols: usize)
        ensures
            old(self).wf() ==> final(self).wf(),
            *final(self) == (if is_left {
                DragTracker {
                    is_mouse_down: true,
                    last_mouse_pos: Some(GridPos { col, row }),
                    is_drag_in_flight: false,
                    pending_mouse_drag: None,
                    scrollbar_drag_col: if col + 3 >= cols {
                        Some(col)
                    } else {
                        None
                    },
                }
            } else {
                *old(self)
            }),
    {
        if is_left {
            self.is_mouse_down = true;
            self.last_mouse_pos = Some(GridPos { col, row });
            self.is_drag_in_flight = false;
            self.pending_mouse_drag = None;
            let edge = if cols >= 3 {
                cols - 3
            } else {
                0
            };
            if col >= edge {
                self.scrollbar_drag_col = Some(col);
            } else {
                self.scrollbar_drag_col = None;
            }
        }
    }

    /// A button release at (`col`, `row`); returns the column to send it
    /// at: for the left button the scrollbar column if a scrollbar drag was
    /// on, else `col`.  A left release ends drag tracking.
    pub fn mouse_up(&mut self, is_left: bool, col: usize, row: usize) -> (res: usize)
        ensures
            old(self).wf() ==> final(self).wf(),
            res == (if is_left {
                match old(self).scrollbar_drag_col {
                    Some(c) => c,
                    None => col,
                }
            } else {
                col
            }),
            *final(self) == (if is_left {
                DragTracker {
                    is_mouse_down: false,
                    last_mouse_pos: None,
                    is_drag_in_flight: false,
                    pending_mouse_drag: None,
                    scrollbar_drag_col: None,
                }
            } else {
                *old(self)
            }),
    {
        if is_left {
            let effective = match self.scrollbar_drag_col {
                Some(c) => c,
                None => col,
            };
            self.scrollbar_drag_col = None;
            self.is_mouse_down = false;
            self.last_mouse_pos = None;
            self.pending_mouse_drag = None;
            self.is_drag_in_flight = false;
            effective
        } else {
            col
        }
    }

    /// Marks a drag as sent: it is in flight and none waits.
    fn dispatch(&mut self, target: DragTarget) -> (res: DragTarget)
        ensures
            res == target,
            *final(self) == (DragTracker {
                is_drag_in_flight: true,
                pending_mouse_drag: None,
                ..*old(self)
            }),
    {
        self.is_drag_in_flight = true;
        self.pending_mouse_drag = None;
        target
    }

    /// The mouse moved to (`col`, `row`).  While the left button is down
    /// and the position (on the scrollbar column during a scrollbar drag)
    /// changed, the drag is sent at once when none is in flight, and
    /// otherwise kept as the one to send next, replacing any older one.
    /// Returns the drag to send now.
    pub fn mouse_move(&mut self, col: usize, row: usize, mods: Modifiers) -> (res: Option<
        DragTarget,
    >)
        ensures
            old(self).wf() ==> final(self).wf(),
            (*final(self), res) == after_move(*old(self), col, row, mods),
    {
        if !self.is_mouse_down {
            return None;
        }
        let c = match self.scrollbar_drag_col {
            Some(x) => x,
            None => col,
        };
        match self.last_mouse_pos {
            Some(p) => if p.col == c && p.row == row {
                return None;
            },
            None => {},
        }
        self.last_mouse_pos = Some(GridPos { col: c, row });
        if self.is_drag_in_flight {
            self.pending_mouse_drag = Some(DragTarget { col: c, row, mods });
            None
        } else {
            Some(self.dispatch(DragTarget { col: c, row, mods }))
        }
    }

    /// Neovim answered the drag in flight; returns the waiting drag to send
    /// next, if the button is still down and one waits.
    pub fn drag_finished(&mut self) -> (res: Option<DragTarget>)
        ensures
            old(self).wf() ==> final(self).wf(),
            (*final(self), res) == after_finish(*old(self)),
    {
        self.is_drag_in_flight = false;
        if self.is_mouse_down {
            match self.pending_mouse_drag {
                Some(t) => {
                    return Some(self.dispatch(t));
                },
                None => {},
            }
        }
        None
    }
}

/// A cell position under the pointer, kept inside a grid of `cols` x `rows`
/// cells (its last column and row when beyond them).
pub fn clamp_to_grid(col: usize, row: usize, cols: usize, rows: usize) -> (res: GridPos)
    ensures
        res.col == (if cols == 0 {
            0
        } else if col < cols {
            col as int
        } else {
            cols - 1
        }),
        res.row == (if rows == 0 {
            0
        } else if row < rows {
            row as int
        } else {
            rows - 1
        }),
{
    let max_col = if cols > 0 {
        cols - 1
    } else {
        0
    };
    let max_row = if rows > 0 {
        rows - 1
    } else {
        0
    };
    GridPos {
        col: if col < max_col {
            col
        } else {
            max_col
        },
        row: if row < max_row {
            row
        } else {
            max_row
        },
    }
}

/// Whether every character of `s` is ASCII.
pub open spec fn all_ascii(s: Seq<char>) -> bool {
    forall|i: int| 0 <= i < s.len() ==> (#[trigger] s[i] as u32) < 128
}

/// What an input method's committed text sends to Neovim: nothing for
/// empty text, or for a single ASCII character typed without composition
/// (the key handler sends those); otherwise the text, `<` as `<lt>`.
pub open spec fn ime_commit(had_marked: bool, text: Seq<char>) -> Option<Seq<char>> {
    if text.len() > 0 && (had_marked || !all_ascii(text) || text.len() > 1) {
        if text == "<"@ {
            Some("<lt>"@)
        } else {
            Some(text)
        }
    } else {
        None
    }
}

/// The text to send for an input method's committed text (see `ime_commit`).
pub fn ime_commit_text(had_marked: bool, new_text: &str) -> (res: Option<String>)
    ensures
        match res {
            Some(s) => ime_commit(had_marked, new_text@) == Some(s@),
            None => ime_commit(had_marked, new_text@) is None,
        },
{
    let cs = crate::text::chars_of(new_text);
    if cs.len() == 0 {
        return None;
    }
    let mut ascii = true;
    let mut i: usize = 0;
    while i < cs.len()
        invariant
            cs@ == new_text@,
            i <= cs@.len(),
            ascii == (forall|j: int| 0 <= j < i ==> (#[trigger] cs@[j] as u32) < 128),
        decreases cs@.len() - i,
    {
        if (cs[i] as u32) >= 128 {
            ascii = false;
        }
        i = i + 1;
    }
    if had_marked || !ascii || cs.len() > 1 {
        if crate::text::chars_eq(&cs, "<") {
            Some(String::from_str("<lt>"))
        } else {
            Some(String::from_str(new_text))
        }
    } else {
        None
    }
}

/// The wheel event to send for a number of scroll steps: `up` for steps
/// up, `down` for steps down, nothing for none.
pub fn wheel_direction(ticks: i32) -> (res: Option<&'static str>)
    ensures
        ticks == 0 ==> res is None,
        ticks > 0 ==> (res matches Some(d) && d@ == "up"@),
        ticks < 0 ==> (res matches Some(d) && d@ == "down"@),
{
    if ticks > 0 {
        Some("up")
    } else if ticks < 0 {
        Some("down")
    } else {
        None
    }
}

} // verus!
