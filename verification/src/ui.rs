//! What the board's window keeps between two clicks.
//!
//! A move is made with two clicks: the first picks a cell and has the cells
//! its piece can reach marked, the second picks where to go. The window asks
//! the rule engine which cells can be reached and hands the answer over;
//! nothing here draws or knows the rules.
use crate::square::Move_channel;
use vstd::prelude::*;

verus! {

/// The kinds of piece.
#[derive(Clone, Copy, Debug, PartialEq, Eq)]
pub enum PieceType {
    Pawn,
    Knight,
    Bishop,
    Rook,
    King,
    Queen,
}

/// The two sides.
#[derive(Clone, Copy, Debug, PartialEq, Eq)]
pub enum Color {
    Black,
    White,
}

/// The name under which the picture of a piece is kept.
pub open spec fn texture_key_text(piece_type: PieceType, color: Color) -> Seq<char> {
    match (piece_type, color) {
        (PieceType::Pawn, Color::Black) => "b_pawn"@,
        (PieceType::Pawn, Color::White) => "w_pawn"@,
        (PieceType::Knight, Color::Black) => "b_knight"@,
        (PieceType::Knight, Color::White) => "w_knight"@,
        (PieceType::Bishop, Color::Black) => "b_bishop"@,
        (PieceType::Bishop, Color::White) => "w_bishop"@,
        (PieceType::Rook, Color::Black) => "b_rook"@,
        (PieceType::Rook, Color::White) => "w_rook"@,
        (PieceType::King, Color::Black) => "b_king"@,
        (PieceType::King, Color::White) => "w_king"@,
        (PieceType::Queen, Color::Black) => "b_queen"@,
        (PieceType::Queen, Color::White) => "w_queen"@,
    }
}

/// The name under which the picture of a piece is kept.
pub fn texture_key(piece_type: PieceType, color: Color) -> (r: &'static str)
    ensures
        r@ == texture_key_text(piece_type, color),
{
    match piece_type {
        PieceType::Pawn => match color {
            Color::Black => "b_pawn",
            Color::White => "w_pawn",
        },
        PieceType::Knight => match color {
            Color::Black => "b_knight",
            Color::White => "w_knight",
        },
        PieceType::Bishop => match color {
            Color::Black => "b_bishop",
            Color::White => "w_bishop",
        },
        PieceType::Rook => match color {
            Color::Black => "b_rook",
            Color::White => "w_rook",
        },
        PieceType::King => match color {
            Color::Black => "b_king",
            Color::White => "w_king",
        },
        PieceType::Queen => match color {
            Color::Black => "b_queen",
            Color::White => "w_queen",
        },
    }
}

/// The cells that are marked on the board, in the order they were marked.
pub struct Graphics_manager {
    marks: Vec<(usize, usize)>,
}

impl View for Graphics_manager {
    type V = Seq<(usize, usize)>;

    closed spec fn view(&self) -> Seq<(usize, usize)> {
        self.marks@
    }
}

impl Graphics_manager {
    /// No cell marked.
    pub fn new() -> (r: Graphics_manager)
        ensures
            r@ == Seq::<(usize, usize)>::empty(),
    {
        Graphics_manager { marks: Vec::new() }
    }

    /// Marks one more cell.
    pub fn add_marking(&mut self, mark: (usize, usize))
        ensures
            final(self)@ == old(self)@.push(mark),
    {
        self.marks.push(mark);
    }

    /// Takes every mark away.
    pub fn marking_wipe(&mut self)
        ensures
            final(self)@ == Seq::<(usize, usize)>::empty(),
    {
        self.marks.clear();
    }

    /// The marked cells, for the window to draw.
    pub fn marks(&self) -> (r: &Vec<(usize, usize)>)
        ensures
            r@ == self@,
    {
        &self.marks
    }
}

/// The cells of `cells` up to and including the first that is `to`; all of
/// them where none is.
pub open spec fn cells_until(cells: Seq<(usize, usize)>, to: (usize, usize)) -> Seq<
    (usize, usize),
>
    decreases cells.len(),
{
    if cells.len() == 0 {
        Seq::empty()
    } else if cells[0] == to {
        seq![cells[0]]
    } else {
        seq![cells[0]] + cells_until(cells.skip(1), to)
    }
}

/// Where `to` is not among the first `i` cells, the cells up to `to` are those
/// `i` and then the cells up to `to` among the rest.
pub proof fn lemma_cells_until_split(cells: Seq<(usize, usize)>, to: (usize, usize), i: int)
    requires
        0 <= i <= cells.len(),
        forall|j: int| 0 <= j < i ==> cells[j] != to,
    ensures
        cells_until(cells, to) == cells.take(i) + cells_until(cells.skip(i), to),
        !cells.take(i).contains(to),
    decreases i,
{
    if i == 0 {
        assert(cells.skip(0) =~= cells);
        assert(cells.take(0) + cells_until(cells, to) =~= cells_until(cells, to));
    } else {
        let rest = cells.skip(1);
        assert forall|j: int| 0 <= j < i - 1 implies rest[j] != to by {
            assert(rest[j] == cells[j + 1]);
        }
        lemma_cells_until_split(rest, to, i - 1);
        assert(rest.skip(i - 1) =~= cells.skip(i));
        assert(cells.take(i) =~= seq![cells[0]] + rest.take(i - 1));
        assert(seq![cells[0]] + (rest.take(i - 1) + cells_until(cells.skip(i), to)) =~= cells.take(
            i,
        ) + cells_until(cells.skip(i), to));
    }
}

/// The state of the window between clicks, as the contracts speak of it.
pub struct AppView {
    /// The marked cells.
    pub marks: Seq<(usize, usize)>,
    /// The cell picked by the first click of a move, until the move is given
    /// up.
    pub prev_click_pos: Option<(usize, usize)>,
    /// Whether the last click hit a piece, as the window last said.
    pub clicked_piece: bool,
}

impl AppView {
    /// What a look at the cells a piece can reach does: it says whether `to`
    /// is among them, and with `fill` it marks them on the way there.
    pub open spec fn check_step(
        self,
        destinations: Seq<(usize, usize)>,
        to: (usize, usize),
        fill: bool,
    ) -> (AppView, bool) {
        (
            AppView {
                marks: if fill {
                    self.marks + cells_until(destinations, to)
                } else {
                    self.marks
                },
                ..self
            },
            destinations.contains(to),
        )
    }

    /// The cell whose piece the rule engine must be asked about before a
    /// click on `cell` is handed over: the cell picked before, or `cell`
    /// itself where none was.
    pub open spec fn origin(self, cell: (usize, usize)) -> (usize, usize) {
        match self.prev_click_pos {
            Some(prev) => prev,
            None => cell,
        }
    }

    /// What a click on `cell` does. `destinations` are the cells that the
    /// piece on `self.origin(cell)` can reach, and `is_piece` says whether
    /// `cell` holds a piece that may be played.
    ///
    /// A first click picks the cell; where it holds such a piece, the cells
    /// it can reach are marked, up to the corner cell `(0, 0)` if that is one
    /// of them. A second click on a cell that can be reached gives the move
    /// and keeps the picked cell; on any other cell it gives the move up.
    /// Either way it takes the marks away.
    pub open spec fn click_step(
        self,
        cell: (usize, usize),
        is_piece: bool,
        destinations: Seq<(usize, usize)>,
    ) -> (AppView, Option<Move_channel>) {
        match self.prev_click_pos {
            None => (
                AppView {
                    marks: if is_piece {
                        self.marks + cells_until(destinations, (0usize, 0usize))
                    } else {
                        self.marks
                    },
                    prev_click_pos: Some(cell),
                    ..self
                },
                None,
            ),
            Some(prev) => if destinations.contains(cell) {
                (
                    AppView { marks: Seq::empty(), ..self },
                    Some(Move_channel { from: prev, to: cell }),
                )
            } else {
                (AppView { marks: Seq::empty(), prev_click_pos: None, ..self }, None)
            },
        }
    }
}

/// What the window keeps between clicks.
pub struct App {
    GM: Graphics_manager,
    prev_click_pos: Option<(usize, usize)>,
    clicked_piece: bool,
}

impl View for App {
    type V = AppView;

    closed spec fn view(&self) -> AppView {
        AppView {
            marks: self.GM@,
            prev_click_pos: self.prev_click_pos,
            clicked_piece: self.clicked_piece,
        }
    }
}

impl App {
    /// Nothing marked, nothing picked.
    pub fn new() -> (r: App)
        ensures
            r@ == (AppView {
                marks: Seq::empty(),
                prev_click_pos: None,
                clicked_piece: false,
            }),
    {
        App { GM: Graphics_manager::new(), prev_click_pos: None, clicked_piece: false }
    }

    /// Notes whether the last click hit a piece.
    pub fn set_clicked_piece(&mut self, val: bool)
        ensures
            final(self)@ == (AppView { clicked_piece: val, ..old(self)@ }),
    {
        self.clicked_piece = val;
    }

    /// The marked cells, for the window to draw.
    pub fn marks(&self) -> (r: &Vec<(usize, usize)>)
        ensures
            r@ == self@.marks,
    {
        self.GM.marks()
    }

    /// The cell picked by the first click of a move, if one is picked.
    pub fn prev_click_pos(&self) -> (r: Option<(usize, usize)>)
        ensures
            r == self@.prev_click_pos,
    {
        self.prev_click_pos
    }

    /// The cell whose piece the rule engine must be asked about before a
    /// click on `cell` is handed over.
    pub fn origin(&self, cell: (usize, usize)) -> (r: (usize, usize))
        ensures
            r == self@.origin(cell),
    {
        match self.prev_click_pos {
            Some(prev) => prev,
            None => cell,
        }
    }

    /// Whether `to` is among `destinations`, the cells a piece can reach.
    /// With `fill`, the cells are marked on the way to `to`.
    pub fn check(&mut self, destinations: &[(usize, usize)], to: (usize, usize), fill: bool) -> (r:
        bool)
        ensures
            (final(self)@, r) == old(self)@.check_step(destinations@, to, fill),
    {
        let ghost before = self@;
        let mut i: usize = 0;
        while i < destinations.len()
            invariant
                before == old(self)@,
                i <= destinations@.len(),
                forall|j: int| 0 <= j < i ==> destinations@[j] != to,
                self@ == (AppView {
                    marks: if fill {
                        before.marks + destinations@.take(i as int)
                    } else {
                        before.marks
                    },
                    ..before
                }),
            decreases destinations@.len() - i,
        {
            let pos = destinations[i];
            if fill {
                self.GM.add_marking(pos);
                assert(before.marks + destinations@.take(i as int + 1) =~= (before.marks
                    + destinations@.take(i as int)).push(pos));
            }
            if pos.0 == to.0 && pos.1 == to.1 {
                proof {
                    lemma_cells_until_split(destinations@, to, i as int);
                    let rest = destinations@.skip(i as int);
                    assert(pos == to);
                    assert(rest[0] == to);
                    assert(cells_until(rest, to) =~= seq![rest[0]]);
                    assert(destinations@.take(i as int + 1) =~= destinations@.take(i as int)
                        + seq![rest[0]]);
                    assert(before.marks + destinations@.take(i as int + 1) =~= before.marks
                        + (destinations@.take(i as int) + seq![rest[0]]));
                    assert(destinations@[i as int] == to);
                }
                return true;
            }
            i = i + 1;
        }
        proof {
            lemma_cells_until_split(destinations@, to, i as int);
            assert(destinations@.skip(i as int) =~= Seq::<(usize, usize)>::empty());
            assert(destinations@.take(i as int) =~= destinations@);
            assert(destinations@.take(i as int) + Seq::<(usize, usize)>::empty()
                =~= destinations@);
        }
        false
    }

    /// A click on `cell`.
    pub fn mouse_button_down_event(
        &mut self,
        cell: (usize, usize),
        is_piece: bool,
        destinations: &[(usize, usize)],
    ) -> (r: Option<Move_channel>)
        ensures
            (final(self)@, r) == old(self)@.click_step(cell, is_piece, destinations@),
    {
        match self.prev_click_pos {
            None => {
                if is_piece {
                    self.check(destinations, (0, 0), true);
                }
                self.prev_click_pos = Some(cell);
                None
            },
            Some(prev_pos) => {
                let reachable = self.check(destinations, cell, false);
                let mut return_val = None;
                if reachable {
                    return_val = Some(Move_channel { from: prev_pos, to: cell });
                } else {
                    self.prev_click_pos = None;
                }
                self.GM.marking_wipe();
                return_val
            },
        }
    }
}

} // verus!
