//! The chat feed of a client window.
//!
//! The feed holds every line it was given, long lines cut to the width of
//! the window, and shows a slice of them. A new line moves the slice to the
//! end of the feed; scrolling moves it by one line.

use vstd::prelude::*;
use crate::text::{lemma_ascii_text, lines_of};
use crate::window::constants::{
    BL_CORNER, BR_CORNER, HORI_EDGE, LVDIV_EDGE, MAX_WINDOW_HEIGHT, MAX_WINDOW_WIDTH, RVDIV_EDGE,
    TL_CORNER, TR_CORNER, VERT_EDGE,
};
use crate::window::helpers::{
    bottom_line, cuts_between_chars, empty_line, feed_rows, ruled, split_long_line, top_line,
    slice_fits, visible, wrapped, Dimensions, SliceIndex,
};

verus! {

/// The chat feed: its lines, its size and the slice of lines it shows.
#[derive(Debug, Clone, PartialEq, Eq)]
pub struct ChatWindow {
    pub name: String,
    pub text: Vec<String>,
    pub dimensions: Dimensions,
    pub current_slice: SliceIndex,
}

/// The width that a window takes where none is given.
pub open spec fn width_or_default(width: Option<usize>) -> usize {
    match width {
        Some(w) => w,
        None => MAX_WINDOW_WIDTH as usize,
    }
}

/// The height that a window takes where none is given.
pub open spec fn height_or_default(height: Option<usize>) -> usize {
    match height {
        Some(h) => h,
        None => MAX_WINDOW_HEIGHT as usize,
    }
}

/// The rows of an empty frame, top to bottom: the greeting, the top edge,
/// `height - 2` rows without text, the divider, the input row, the bottom
/// edge.
pub open spec fn frame_rows(name: Seq<char>, width: nat, height: nat) -> Seq<Seq<char>> {
    seq![
        ">> You are "@ + name + "!"@,
        ruled(TL_CORNER, HORI_EDGE, TR_CORNER, (width - 4) as nat),
    ] + Seq::new((height - 2) as nat, |i: int| ruled(VERT_EDGE, ' ', VERT_EDGE, (width - 4) as nat))
        + seq![
        ruled(LVDIV_EDGE, HORI_EDGE, RVDIV_EDGE, (width - 4) as nat),
        ruled(VERT_EDGE, ' ', VERT_EDGE, (width - 4) as nat),
        ruled(BL_CORNER, HORI_EDGE, BR_CORNER, (width - 4) as nat),
    ]
}

impl ChatWindow {
    /// The slice `from..to` can be shown in this window.
    pub open spec fn can_show(&self, from: int, to: int) -> bool {
        slice_fits(self.text@.len(), from, to, self.dimensions.width as nat)
    }

    /// The slice that the window shows can be shown in it.
    pub open spec fn well_formed(&self) -> bool {
        self.can_show(self.current_slice.from as int, self.current_slice.to as int)
    }

    /// An empty feed for `name`, 65 columns wide and 10 rows high where no
    /// size is given.
    pub fn new(name: String, width: Option<usize>, height: Option<usize>) -> (window: ChatWindow)
        requires
            width_or_default(width) >= 2,
        ensures
            window.name@ == name@,
            window.text@.len() == 0,
            window.dimensions == (Dimensions {
                width: width_or_default(width),
                height: height_or_default(height),
            }),
            window.current_slice == (SliceIndex {
                from: 0,
                to: (width_or_default(width) - 2) as usize,
            }),
    {
        let window_width: usize = match width {
            Some(w) => w,
            None => MAX_WINDOW_WIDTH as usize,
        };
        let window_height: usize = match height {
            Some(h) => h,
            None => MAX_WINDOW_HEIGHT as usize,
        };
        ChatWindow {
            name,
            text: Vec::new(),
            current_slice: SliceIndex::new(0, window_width - 2),
            dimensions: Dimensions { width: window_width, height: window_height },
        }
    }

    /// Moves the slice one line up, as long as it then still starts behind
    /// the first line. Returns the rows to show where the slice moved.
    pub fn scroll_up(&mut self) -> (rows: Option<Vec<String>>)
        requires
            old(self).current_slice.from >= 1,
            old(self).current_slice.from >= 2 ==> old(self).current_slice.to >= 1 && old(
                self,
            ).can_show(old(self).current_slice.from - 1, old(self).current_slice.to - 1),
        ensures
            final(self).text == old(self).text,
            final(self).dimensions == old(self).dimensions,
            final(self).name == old(self).name,
            old(self).well_formed() ==> final(self).well_formed(),
            old(self).current_slice.from >= 2 ==> {
                &&& final(self).current_slice.from == old(self).current_slice.from - 1
                &&& final(self).current_slice.to == old(self).current_slice.to - 1
                &&& rows matches Some(shown)
                &&& lines_of(shown@) == feed_rows(
                    visible(
                        lines_of(old(self).text@),
                        old(self).current_slice.from - 1,
                        old(self).current_slice.to - 1,
                    ),
                    old(self).dimensions.width as nat,
                )
            },
            old(self).current_slice.from < 2 ==> {
                &&& final(self).current_slice == old(self).current_slice
                &&& rows is None
            },
    {
        if self.current_slice.from - 1 > usize::MIN {
            let from: usize = self.current_slice.from - 1;
            let to: usize = self.current_slice.to - 1;
            let rows = self.current_slice.change(&self.text, from, to, self.dimensions);
            Some(rows)
        } else {
            None
        }
    }

    /// Moves the slice one line down, as long as it then still ends before
    /// the end of the feed. Returns the rows to show where the slice moved.
    pub fn scroll_down(&mut self) -> (rows: Option<Vec<String>>)
        requires
            old(self).current_slice.to + 1 < old(self).text@.len() ==> old(self).can_show(
                old(self).current_slice.from + 1,
                old(self).current_slice.to + 1,
            ),
        ensures
            final(self).text == old(self).text,
            final(self).dimensions == old(self).dimensions,
            final(self).name == old(self).name,
            old(self).well_formed() ==> final(self).well_formed(),
            old(self).current_slice.to + 1 < old(self).text@.len() ==> {
                &&& final(self).current_slice.from == old(self).current_slice.from + 1
                &&& final(self).current_slice.to == old(self).current_slice.to + 1
                &&& rows matches Some(shown)
                &&& lines_of(shown@) == feed_rows(
                    visible(
                        lines_of(old(self).text@),
                        old(self).current_slice.from + 1,
                        old(self).current_slice.to + 1,
                    ),
                    old(self).dimensions.width as nat,
                )
            },
            old(self).current_slice.to + 1 >= old(self).text@.len() ==> {
                &&& final(self).current_slice == old(self).current_slice
                &&& rows is None
            },
    {
        if self.text.len() > 0 && self.current_slice.to < self.text.len() - 1 {
            let from: usize = self.current_slice.from + 1;
            let to: usize = self.current_slice.to + 1;
            let rows = self.current_slice.change(&self.text, from, to, self.dimensions);
            Some(rows)
        } else {
            None
        }
    }

    /// Adds a line to the feed, cut into lines of `width - 8` bytes with two
    /// blanks before each but the first, and moves the slice to the end of
    /// the feed: to the first `height - 2` lines while the feed has fewer
    /// than `height` lines, to the last `height - 2` lines after that.
    /// Returns the rows to show.
    pub fn add_chat_line(&mut self, string: String) -> (rows: Vec<String>)
        requires
            old(self).dimensions.width >= 8,
            old(self).dimensions.height >= 2,
            cuts_between_chars(string@, (old(self).dimensions.width - 8) as nat),
        ensures
            final(self).dimensions == old(self).dimensions,
            final(self).name == old(self).name,
            final(self).well_formed(),
            lines_of(final(self).text@) == lines_of(old(self).text@) + wrapped(
                string@,
                "  "@,
                (old(self).dimensions.width - 8) as nat,
            ),
            final(self).current_slice == if final(self).text@.len() < old(self).dimensions.height {
                SliceIndex { from: 0, to: (old(self).dimensions.height - 2) as usize }
            } else {
                SliceIndex {
                    from: (final(self).text@.len() - (old(self).dimensions.height - 2)) as usize,
                    to: final(self).text@.len() as usize,
                }
            },
            lines_of(rows@) == feed_rows(
                visible(
                    lines_of(final(self).text@),
                    final(self).current_slice.from as int,
                    final(self).current_slice.to as int,
                ),
                old(self).dimensions.width as nat,
            ),
    {
        proof {
            reveal_strlit("  ");
            lemma_ascii_text("  "@, 0, 0);
        }
        let mut lines = split_long_line(&string, "  ", self.dimensions);
        let ghost added = lines_of(lines@);
        let ghost before = lines_of(self.text@);
        self.text.append(&mut lines);
        assert(lines_of(self.text@) =~= before + added);
        let max_height: usize = self.dimensions.height - 2;
        if self.text.len() < self.dimensions.height {
            self.current_slice.change(&self.text, 0, max_height, self.dimensions)
        } else {
            let from: usize = self.text.len() - max_height;
            let to: usize = self.text.len();
            self.current_slice.change(&self.text, from, to, self.dimensions)
        }
    }

    /// Takes the new size of a terminal of `x` columns and `y` rows: the
    /// window is then `x` wide and `y - 2` high, and shows the end of the
    /// feed. Returns the rows of the empty frame and, behind them, the rows
    /// of the slice.
    pub fn resize(&mut self, x: usize, y: usize) -> (rows: (Vec<String>, Vec<String>))
        requires
            x >= 4,
            y >= 4,
            old(self).text@.len() > 0 ==> x >= 6,
        ensures
            final(self).text == old(self).text,
            final(self).name == old(self).name,
            final(self).dimensions == (Dimensions { width: x, height: (y - 2) as usize }),
            final(self).current_slice.to == old(self).text@.len(),
            final(self).current_slice.from == if old(self).text@.len() > y - 2 {
                old(self).text@.len() - (old(self).text@.len() % ((y - 2) as nat)) - 2
            } else {
                0
            },
            lines_of(rows.0@) == frame_rows(old(self).name@, x as nat, (y - 2) as nat),
            lines_of(rows.1@) == feed_rows(
                visible(
                    lines_of(old(self).text@),
                    final(self).current_slice.from as int,
                    final(self).current_slice.to as int,
                ),
                x as nat,
            ),
    {
        self.dimensions.width = x;
        self.dimensions.height = y - 2;
        let frame = self.print();
        let length: usize = self.text.len();
        let rest: usize = if length > y - 2 {
            length % (y - 2)
        } else {
            0
        };
        let from: usize = if length > y - 2 {
            assert(length - rest >= 2) by (nonlinear_arith)
                requires
                    rest == length % ((y - 2) as usize),
                    length > y - 2,
                    y - 2 >= 2,
            ;
            length - rest - 2
        } else {
            0
        };
        let shown = self.current_slice.change(
            &self.text,
            from,
            length,
            Dimensions { width: x, height: y },
        );
        (frame, shown)
    }

    /// The rows of the empty frame of the window, top to bottom.
    pub fn print(&self) -> (rows: Vec<String>)
        requires
            self.dimensions.width >= 4,
            self.dimensions.height >= 2,
        ensures
            lines_of(rows@) == frame_rows(
                self.name@,
                self.dimensions.width as nat,
                self.dimensions.height as nat,
            ),
    {
        let mut rows: Vec<String> = Vec::new();
        let mut greeting = String::from_str(">> You are ");
        greeting.append(self.name.as_str());
        greeting.append("!");
        let ghost title = greeting@;
        rows.push(greeting);
        rows.push(top_line(self.dimensions));
        let ghost head = lines_of(rows@);
        let ghost width = (self.dimensions.width - 4) as nat;
        assert(head =~= seq![title, ruled(TL_CORNER, HORI_EDGE, TR_CORNER, width)]);
        let count: usize = self.dimensions.height - 2;
        let ghost blank = ruled(VERT_EDGE, ' ', VERT_EDGE, (self.dimensions.width - 4) as nat);
        let mut k: usize = 0;
        while k < count
            invariant
                k <= count,
                self.dimensions.width >= 4,
                blank == ruled(VERT_EDGE, ' ', VERT_EDGE, (self.dimensions.width - 4) as nat),
                lines_of(rows@) == head + Seq::new(k as nat, |i: int| blank),
            decreases count - k,
        {
            let ghost before = lines_of(rows@);
            let row = empty_line(self.dimensions);
            rows.push(row);
            assert(lines_of(rows@) =~= before.push(row@));
            assert(lines_of(rows@) =~= head + Seq::new((k + 1) as nat, |i: int| blank));
            k += 1;
        }
        let ghost body = lines_of(rows@);
        let mut divider = String::new();
        divider.push(LVDIV_EDGE);
        crate::text::push_repeated(&mut divider, HORI_EDGE, self.dimensions.width - 4);
        divider.push(RVDIV_EDGE);
        assert(divider@ =~= ruled(
            LVDIV_EDGE,
            HORI_EDGE,
            RVDIV_EDGE,
            (self.dimensions.width - 4) as nat,
        ));
        rows.push(divider);
        assert(lines_of(rows@) =~= body.push(ruled(LVDIV_EDGE, HORI_EDGE, RVDIV_EDGE, width)));
        rows.push(empty_line(self.dimensions));
        assert(lines_of(rows@) =~= body.push(ruled(LVDIV_EDGE, HORI_EDGE, RVDIV_EDGE, width)).push(
            blank,
        ));
        rows.push(bottom_line(self.dimensions));
        assert(lines_of(rows@) =~= body + seq![
            ruled(LVDIV_EDGE, HORI_EDGE, RVDIV_EDGE, width),
            blank,
            ruled(BL_CORNER, HORI_EDGE, BR_CORNER, width),
        ]);
        assert(Seq::new(k as nat, |i: int| blank) =~= Seq::new(
            (self.dimensions.height - 2) as nat,
            |i: int| ruled(VERT_EDGE, ' ', VERT_EDGE, (self.dimensions.width - 4) as nat),
        ));
        assert(lines_of(rows@) =~= frame_rows(
            self.name@,
            self.dimensions.width as nat,
            self.dimensions.height as nat,
        ));
        rows
    }
}

} // verus!
