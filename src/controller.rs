use crate::cell::{is_mark, opponent_of, Cell};
use vstd::prelude::*;

verus! {

/// The board of a round and whose move is next.
///
/// Squares are addressed by `(row, column)`, each in `1..=3`.
pub struct Controller {
    playground: [[Cell; 3]; 3],
    player_turn: Cell,
}

/// Whether `(row, column)` names a square of the board.
pub open spec fn in_board(row: int, column: int) -> bool {
    1 <= row <= 3 && 1 <= column <= 3
}

/// Mark `m` fills the three squares.
pub open spec fn filled_by(
    s: Controller,
    m: Cell,
    r1: int,
    c1: int,
    r2: int,
    c2: int,
    r3: int,
    c3: int,
) -> bool {
    s.cell_at(r1, c1) == m && s.cell_at(r2, c2) == m && s.cell_at(r3, c3) == m
}

/// Mark `m` fills some row, column or diagonal.
pub open spec fn owns_line(s: Controller, m: Cell) -> bool {
    &&& is_mark(m)
    &&& {
        ||| filled_by(s, m, 1, 1, 2, 1, 3, 1)
        ||| filled_by(s, m, 1, 2, 2, 2, 3, 2)
        ||| filled_by(s, m, 1, 3, 2, 3, 3, 3)
        ||| filled_by(s, m, 1, 1, 1, 2, 1, 3)
        ||| filled_by(s, m, 2, 1, 2, 2, 2, 3)
        ||| filled_by(s, m, 3, 1, 3, 2, 3, 3)
        ||| filled_by(s, m, 1, 1, 2, 2, 3, 3)
        ||| filled_by(s, m, 1, 3, 2, 2, 3, 1)
    }
}

/// The winner is empty exactly when no mark fills a line; a winner fills a line;
/// and when one mark alone fills lines, that mark is the winner.
pub proof fn lemma_winner_is_line_owner(s: Controller)
    requires
        s.wf(),
    ensures
        s.winner() == Cell::Empty <==> !owns_line(s, Cell::X) && !owns_line(s, Cell::O),
        s.winner() != Cell::Empty ==> owns_line(s, s.winner()),
        owns_line(s, Cell::X) && !owns_line(s, Cell::O) ==> s.winner() == Cell::X,
        owns_line(s, Cell::O) && !owns_line(s, Cell::X) ==> s.winner() == Cell::O,
{
}

/// A placement keeps every filled line filled, so a winner stays decided; and the
/// placement that first decides a winner makes the player who just moved the winner.
pub proof fn lemma_placement_keeps_winner(pre: Controller, post: Controller, row: int, column: int)
    requires
        pre.wf(),
        pre.free_at(row, column),
        pre.placed(post, row, column),
    ensures
        forall|m: Cell| owns_line(pre, m) ==> #[trigger] owns_line(post, m),
        pre.winner() != Cell::Empty ==> post.winner() != Cell::Empty,
        pre.winner() == Cell::Empty && post.winner() != Cell::Empty ==> post.winner() == pre.turn(),
{
    lemma_winner_is_line_owner(pre);
    lemma_winner_is_line_owner(post);
    assert forall|m: Cell| owns_line(pre, m) implies #[trigger] owns_line(post, m) by {
        assert(is_mark(m));
    }
    if pre.winner() == Cell::Empty && post.winner() != Cell::Empty {
        assert(post.cell_at(row, column) == pre.turn());
        assert forall|m: Cell| is_mark(m) && m != pre.turn() implies !#[trigger] owns_line(post, m) by {
            assert(!owns_line(pre, m));
        }
    }
}

/// Two placements in a row give the turn back to the player who had it: each
/// placement passes the turn to the other mark.
pub proof fn lemma_turn_alternates(
    s0: Controller,
    s1: Controller,
    s2: Controller,
    r1: int,
    c1: int,
    r2: int,
    c2: int,
)
    requires
        s0.wf(),
        s0.placed(s1, r1, c1),
        s1.placed(s2, r2, c2),
    ensures
        s1.turn() != s0.turn(),
        is_mark(s1.turn()),
        s2.turn() == s0.turn(),
{
}

impl Controller {
    /// The board, as three sequences of three cells.
    pub closed spec fn grid(&self) -> Seq<Seq<Cell>> {
        self.playground@.map_values(|line: [Cell; 3]| line@)
    }

    /// The mark that the next placement writes.
    pub closed spec fn turn(&self) -> Cell {
        self.player_turn
    }

    /// The board has its shape and the turn belongs to a player.
    pub open spec fn wf(&self) -> bool {
        &&& self.grid().len() == 3
        &&& forall|i: int| 0 <= i < 3 ==> #[trigger] self.grid()[i].len() == 3
        &&& is_mark(self.turn())
    }

    /// The cell at `(row, column)`; a square off the board reads as empty.
    pub open spec fn cell_at(&self, row: int, column: int) -> Cell {
        if in_board(row, column) {
            self.grid()[row - 1][column - 1]
        } else {
            Cell::Empty
        }
    }

    /// `(row, column)` is a square of the board and nothing is on it.
    pub open spec fn free_at(&self, row: int, column: int) -> bool {
        in_board(row, column) && self.cell_at(row, column) == Cell::Empty
    }

    /// At least one square is still empty.
    pub open spec fn has_free_cell(&self) -> bool {
        exists|row: int, column: int| #[trigger] self.free_at(row, column)
    }

    /// All three squares hold the same mark.
    pub open spec fn line_won(
        &self,
        r1: int,
        c1: int,
        r2: int,
        c2: int,
        r3: int,
        c3: int,
    ) -> bool {
        &&& self.cell_at(r1, c1) != Cell::Empty
        &&& self.cell_at(r1, c1) == self.cell_at(r2, c2)
        &&& self.cell_at(r1, c1) == self.cell_at(r3, c3)
    }

    /// The line with first coordinate `row` fixed is complete.
    pub open spec fn row_won(&self, row: int) -> bool {
        self.line_won(row, 1, row, 2, row, 3)
    }

    /// The line with second coordinate `column` fixed is complete.
    pub open spec fn column_won(&self, column: int) -> bool {
        self.line_won(1, column, 2, column, 3, column)
    }

    /// The diagonal through `(1, 1)` and `(3, 3)` is complete.
    pub open spec fn diagonal_won(&self) -> bool {
        self.line_won(1, 1, 2, 2, 3, 3)
    }

    /// The diagonal through `(1, 3)` and `(3, 1)` is complete.
    pub open spec fn anti_diagonal_won(&self) -> bool {
        self.line_won(1, 3, 2, 2, 3, 1)
    }

    /// The mark that fills a line, looked for along the lines with a fixed second
    /// coordinate, then along those with a fixed first coordinate, then along the
    /// two diagonals; empty when no line is filled.
    pub open spec fn winner(&self) -> Cell {
        if self.column_won(1) {
            self.cell_at(1, 1)
        } else if self.column_won(2) {
            self.cell_at(1, 2)
        } else if self.column_won(3) {
            self.cell_at(1, 3)
        } else if self.row_won(1) {
            self.cell_at(1, 1)
        } else if self.row_won(2) {
            self.cell_at(2, 1)
        } else if self.row_won(3) {
            self.cell_at(3, 1)
        } else if self.diagonal_won() {
            self.cell_at(1, 1)
        } else if self.anti_diagonal_won() {
            self.cell_at(1, 3)
        } else {
            Cell::Empty
        }
    }

    /// `post` is `self` after the mark whose turn it was went to `(row, column)`
    /// and the turn passed to the other player.
    pub open spec fn placed(&self, post: Controller, row: int, column: int) -> bool {
        &&& post.wf()
        &&& post.turn() == opponent_of(self.turn())
        &&& post.cell_at(row, column) == self.turn()
        &&& forall|r: int, c: int|
            !(r == row && c == column) ==> #[trigger] post.cell_at(r, c) == self.cell_at(r, c)
    }

    /// A fresh round: an empty board, with X to move.
    pub open spec fn is_fresh(&self) -> bool {
        &&& self.wf()
        &&& self.turn() == Cell::X
        &&& forall|r: int, c: int| #[trigger] self.cell_at(r, c) == Cell::Empty
    }

    /// Creates a controller for a fresh round.
    pub fn new() -> (r: Controller)
        ensures
            r.is_fresh(),
    {
        let r = Controller { playground: [[Cell::Empty; 3]; 3], player_turn: Cell::X };
        assert(r.grid()[0] == r.playground[0]@);
        assert(r.grid()[1] == r.playground[1]@);
        assert(r.grid()[2] == r.playground[2]@);
        r
    }

    /// Starts a fresh round on this controller.
    pub fn initialize(&mut self)
        ensures
            final(self).is_fresh(),
    {
        *self = Controller::new();
    }

    /// The content of the cell at `(row, column)`; empty off the board.
    pub fn get_content(&self, row: usize, column: usize) -> (r: Cell)
        requires
            self.wf(),
        ensures
            r == self.cell_at(row as int, column as int),
    {
        if row > 3 || column > 3 || row < 1 || column < 1 {
            return Cell::Empty;
        }
        self.playground[row - 1][column - 1]
    }

    /// The player who moves next.
    pub fn get_player_turn(&self) -> (r: Cell)
        ensures
            r == self.turn(),
    {
        self.player_turn
    }

    /// Puts the mark of the player to move at `(row, column)` and passes the turn.
    pub fn play_turn(&mut self, row: usize, column: usize)
        requires
            old(self).wf(),
            old(self).free_at(row as int, column as int),
        ensures
            old(self).placed(*final(self), row as int, column as int),
    {
        let ghost pre = *self;
        let mark = self.player_turn;
        let mut line = self.playground[row - 1];
        line[column - 1] = mark;
        self.playground[row - 1] = line;
        self.change_turn();
        assert forall|i: int| 0 <= i < 3 && i != row - 1 implies self.grid()[i] == pre.grid()[i] by {
            assert(self.grid()[i] == self.playground[i]@);
            assert(pre.grid()[i] == pre.playground[i]@);
        }
        assert(self.grid()[row - 1] == self.playground[row - 1]@);
    }

    /// Passes the turn to the other player.
    fn change_turn(&mut self)
        requires
            is_mark(old(self).player_turn),
        ensures
            final(self).player_turn == opponent_of(old(self).player_turn),
            final(self).playground == old(self).playground,
    {
        match self.player_turn {
            Cell::X => self.player_turn = Cell::O,
            Cell::O => self.player_turn = Cell::X,
            Cell::Empty => {},
        }
    }

    /// Whether `(row, column)` is a square of the board with nothing on it.
    pub fn is_free(&self, row: usize, column: usize) -> (r: bool)
        requires
            self.wf(),
        ensures
            r == self.free_at(row as int, column as int),
    {
        if row < 1 || column < 1 || row > 3 || column > 3 || self.playground[row - 1][column
            - 1] != Cell::Empty {
            return false;
        }
        true
    }

    /// Whether any square is still empty, so that the round can go on.
    pub fn can_continue(&self) -> (r: bool)
        requires
            self.wf(),
        ensures
            r == self.has_free_cell(),
    {
        let mut row: usize = 1;
        while row <= 3
            invariant
                self.wf(),
                1 <= row <= 4,
                forall|r: int, c: int| 1 <= r < row && 1 <= c <= 3 ==> !#[trigger] self.free_at(r, c),
            decreases 4 - row,
        {
            let mut column: usize = 1;
            while column <= 3
                invariant
                    self.wf(),
                    1 <= row <= 3,
                    1 <= column <= 4,
                    forall|r: int, c: int| 1 <= r < row && 1 <= c <= 3 ==> !#[trigger] self.free_at(r, c),
                    forall|c: int| 1 <= c < column ==> !#[trigger] self.free_at(row as int, c),
                decreases 4 - column,
            {
                if self.is_free(row, column) {
                    return true;
                }
                column += 1;
            }
            row += 1;
        }
        assert forall|r: int, c: int| !self.free_at(r, c) by {
            if in_board(r, c) {
                assert(!self.free_at(r, c));
            }
        }
        false
    }

    /// The mark that fills a row, a column or a diagonal, or `Cell::Empty` when none does.
    pub fn get_winner(&self) -> (r: Cell)
        requires
            self.wf(),
        ensures
            r == self.winner(),
    {
        let mut i: usize = 1;
        while i <= 3
            invariant
                self.wf(),
                1 <= i <= 4,
                forall|k: int| 1 <= k < i ==> !#[trigger] self.column_won(k),
            decreases 4 - i,
        {
            let first = self.get_content(1, i);
            if first != Cell::Empty && first == self.get_content(2, i) && first
                == self.get_content(3, i) {
                return first;
            }
            i += 1;
        }
        let mut i: usize = 1;
        while i <= 3
            invariant
                self.wf(),
                1 <= i <= 4,
                forall|k: int| 1 <= k <= 3 ==> !#[trigger] self.column_won(k),
                forall|k: int| 1 <= k < i ==> !#[trigger] self.row_won(k),
            decreases 4 - i,
        {
            let first = self.get_content(i, 1);
            if first != Cell::Empty && first == self.get_content(i, 2) && first
                == self.get_content(i, 3) {
                return first;
            }
            i += 1;
        }
        let center = self.get_content(2, 2);
        let first = self.get_content(1, 1);
        if first != Cell::Empty && first == center && first == self.get_content(3, 3) {
            return first;
        }
        let first = self.get_content(1, 3);
        if first != Cell::Empty && first == center && first == self.get_content(3, 1) {
            return first;
        }
        Cell::Empty
    }
}

impl Default for Controller {
    fn default() -> (r: Controller)
        ensures
            r.is_fresh(),
    {
        Controller::new()
    }
}

} // verus!
