use crate::cell::{is_mark, opponent_of, Cell, Level};
use crate::controller::{in_board, Controller};
use crate::random::generate_range;
use vstd::prelude::*;

verus! {

/// The computer opponent: the mark it plays, whether it takes part, and how hard it tries.
pub struct ComputerPlayer {
    player_turn: Cell,
    active: bool,
    level: Level,
}

/// The square `(row, column)` as a move.
pub open spec fn at(row: int, column: int) -> Option<(usize, usize)> {
    Some((row as usize, column as usize))
}

/// The move that the line rule proposes from `(i, j)` when it holds `player`'s mark:
/// a vertical pair is extended below, else above; a horizontal pair to the right,
/// else to the left; then a gap between two marks two squares apart is filled,
/// vertically before horizontally.
pub open spec fn line_move_at(s: Controller, player: Cell, i: int, j: int) -> Option<(usize, usize)> {
    let here = s.cell_at(i, j);
    if here != player {
        None
    } else if here == s.cell_at(i + 1, j) && i + 2 < 4 && s.cell_at(i + 2, j) == Cell::Empty {
        at(i + 2, j)
    } else if here == s.cell_at(i + 1, j) && i - 1 > 0 && s.cell_at(i - 1, j) == Cell::Empty {
        at(i - 1, j)
    } else if here == s.cell_at(i, j + 1) && j + 2 < 4 && s.cell_at(i, j + 2) == Cell::Empty {
        at(i, j + 2)
    } else if here == s.cell_at(i, j + 1) && j - 1 > 0 && s.cell_at(i, j - 1) == Cell::Empty {
        at(i, j - 1)
    } else if here == s.cell_at(i + 2, j) && s.cell_at(i + 1, j) == Cell::Empty {
        at(i + 1, j)
    } else if here == s.cell_at(i, j + 2) && s.cell_at(i, j + 1) == Cell::Empty {
        at(i, j + 1)
    } else {
        None
    }
}

/// The first move that the line rule proposes, scanning from `(i, j)` on in the order
/// `(1, 1), (1, 2), (1, 3), (2, 1), ..., (3, 3)`.
pub open spec fn line_scan(s: Controller, player: Cell, i: int, j: int) -> Option<(usize, usize)>
    decreases 4 - i, 4 - j,
{
    if i < 1 || i > 3 || j < 1 {
        None
    } else if j > 3 {
        line_scan(s, player, i + 1, 1)
    } else {
        match line_move_at(s, player, i, j) {
            Some(m) => Some(m),
            None => line_scan(s, player, i, j + 1),
        }
    }
}

/// The diagonal completions for `player`, in their order of priority.
pub open spec fn diagonal_move(s: Controller, player: Cell) -> Option<(usize, usize)> {
    let top_left = s.cell_at(1, 1);
    let top_right = s.cell_at(3, 1);
    let bottom_left = s.cell_at(1, 3);
    let bottom_right = s.cell_at(3, 3);
    let center = s.cell_at(2, 2);
    if top_left == player && top_left == center && bottom_right == Cell::Empty {
        at(3, 3)
    } else if center == player && center == bottom_right && top_left == Cell::Empty {
        at(1, 1)
    } else if top_left == player && top_left == bottom_right && center == Cell::Empty {
        at(2, 2)
    } else if bottom_left == player && bottom_left == center && top_right == Cell::Empty {
        at(3, 1)
    } else if top_right == player && top_right == center && bottom_left == Cell::Empty {
        at(1, 3)
    } else if bottom_left == player && bottom_left == top_right && center == Cell::Empty {
        at(2, 2)
    } else {
        None
    }
}

/// The move that completes or extends a line of `player`'s marks, if any.
pub open spec fn normal_choice(s: Controller, player: Cell) -> Option<(usize, usize)> {
    match line_scan(s, player, 1, 1) {
        Some(m) => Some(m),
        None => diagonal_move(s, player),
    }
}

/// The positional rules of the smart level for the computer playing `me`,
/// in their order of priority.
pub open spec fn smart_choice(s: Controller, me: Cell) -> Option<(usize, usize)> {
    let opp = opponent_of(me);
    let top_left = s.cell_at(1, 1);
    let top_center = s.cell_at(2, 1);
    let top_right = s.cell_at(3, 1);
    let bottom_left = s.cell_at(1, 3);
    let bottom_center = s.cell_at(2, 3);
    let bottom_right = s.cell_at(3, 3);
    let center_left = s.cell_at(1, 2);
    let center = s.cell_at(2, 2);
    let center_right = s.cell_at(3, 2);
    let e = Cell::Empty;
    if center == e {
        at(2, 2)
    } else if bottom_left == e && top_right == e && bottom_right == e && top_left == e {
        at(1, 1)
    } else if top_left == me && center == opp && bottom_right == opp && top_right == e {
        at(3, 1)
    } else if top_left == opp && center == me && bottom_right == opp && center_right == e {
        at(3, 2)
    } else if top_right == opp && center == me && bottom_left == opp && center_left == e {
        at(1, 2)
    } else if center != me {
        None
    } else if top_left == me && center_left == opp && top_right == e {
        at(3, 1)
    } else if top_left == me && (top_center == opp || bottom_center == opp || center_right == opp)
        && bottom_left == e {
        at(1, 3)
    } else if bottom_left == opp && top_right == e && bottom_right == e && top_left == e {
        at(3, 1)
    } else if bottom_left == e && top_right == opp && bottom_right == e && top_left == e {
        at(1, 3)
    } else if bottom_left == e && top_right == e && bottom_right == opp && top_left == e {
        at(1, 1)
    } else if bottom_left == e && top_right == e && bottom_right == e && top_left == opp {
        at(3, 3)
    } else if top_left == me && bottom_right == opp && center_left == opp && top_right == e {
        at(3, 1)
    } else if top_left == me && bottom_right == opp && top_center == opp && bottom_left == e {
        at(1, 3)
    } else if bottom_right == me && top_left == opp && bottom_center == opp && top_right == e {
        at(3, 1)
    } else if bottom_right == me && top_left == opp && center_right == opp && bottom_left == e {
        at(1, 3)
    } else if top_right == me && bottom_left == opp && center_left == opp && bottom_right == e {
        at(3, 3)
    } else if top_right == me && bottom_left == opp && bottom_center == opp && top_left == e {
        at(1, 1)
    } else if top_right == me && bottom_left == opp && top_center == opp && bottom_right == e {
        at(3, 3)
    } else if top_right == me && bottom_left == opp && center_right == opp && top_left == e {
        at(1, 1)
    } else {
        None
    }
}

/// The move is a square of the board with nothing on it.
pub open spec fn move_is_free(s: Controller, m: Option<(usize, usize)>) -> bool {
    match m {
        Some((r, c)) => s.free_at(r as int, c as int),
        None => true,
    }
}

/// The square with row-major index `k` in `0..9`.
pub open spec fn slot(k: int) -> (int, int) {
    (k / 3 + 1, k % 3 + 1)
}

/// The square with index `k` is empty.
pub open spec fn slot_free(s: Controller, k: int) -> bool {
    s.free_at(slot(k).0, slot(k).1)
}

/// How many empty squares have an index of `k` or more.
pub open spec fn free_count_from(s: Controller, k: int) -> nat
    decreases 9 - k,
{
    if k < 0 || k >= 9 {
        0
    } else {
        (if slot_free(s, k) { 1nat } else { 0nat }) + free_count_from(s, k + 1)
    }
}

/// How many squares are empty.
pub open spec fn free_count(s: Controller) -> nat {
    free_count_from(s, 0)
}

/// The empty square that comes `n`-th (from zero) in row-major order among those
/// with an index of `k` or more.
pub open spec fn nth_free_from(s: Controller, k: int, n: int) -> Option<(usize, usize)>
    decreases 9 - k,
{
    if k < 0 || k >= 9 || n < 0 {
        None
    } else if slot_free(s, k) {
        if n == 0 {
            at(slot(k).0, slot(k).1)
        } else {
            nth_free_from(s, k + 1, n - 1)
        }
    } else {
        nth_free_from(s, k + 1, n)
    }
}

/// The empty square that comes `n`-th (from zero) in row-major order.
pub open spec fn nth_free(s: Controller, n: int) -> Option<(usize, usize)> {
    nth_free_from(s, 0, n)
}

/// The move that the computer's level settles without chance, if any: its own line
/// rule, then the block of the opponent's, then (smart level) the positional rules.
pub open spec fn tier_choice(p: ComputerPlayer, s: Controller) -> Option<(usize, usize)> {
    match p.tier() {
        Level::Stupid => None,
        Level::Normal => match normal_choice(s, p.mark()) {
            Some(m) => Some(m),
            None => normal_choice(s, p.opponent()),
        },
        Level::Smart => match normal_choice(s, p.mark()) {
            Some(m) => Some(m),
            None => match normal_choice(s, p.opponent()) {
                Some(m) => Some(m),
                None => smart_choice(s, p.mark()),
            },
        },
    }
}

/// The `n`-th empty square exists exactly when fewer than `n` squares come before
/// it, and it is empty.
pub proof fn lemma_nth_free_from(s: Controller, k: int, n: int)
    requires
        0 <= k <= 9,
        n >= 0,
    ensures
        nth_free_from(s, k, n) is Some <==> n < free_count_from(s, k),
        move_is_free(s, nth_free_from(s, k, n)),
    decreases 9 - k,
{
    if k < 9 {
        if slot_free(s, k) && n > 0 {
            lemma_nth_free_from(s, k + 1, n - 1);
        } else {
            lemma_nth_free_from(s, k + 1, n);
        }
    }
}

/// A board with an empty square counts at least one from every index up to that square's.
proof fn lemma_free_count_positive(s: Controller, k: int, target: int)
    requires
        0 <= k <= target < 9,
        slot_free(s, target),
    ensures
        free_count_from(s, k) > 0,
    decreases target - k,
{
    if k < target {
        lemma_free_count_positive(s, k + 1, target);
    }
}

/// A board with an empty square has a positive count of empty squares.
pub proof fn lemma_free_count_nonzero(s: Controller)
    requires
        s.has_free_cell(),
    ensures
        free_count(s) > 0,
{
    let (r, c) = choose|r: int, c: int| #[trigger] s.free_at(r, c);
    let k = (r - 1) * 3 + (c - 1);
    assert(slot(k) == (r, c));
    lemma_free_count_positive(s, 0, k);
}

/// The row-major index of square `(row, column)`.
pub open spec fn slot_index(row: int, column: int) -> int {
    (row - 1) * 3 + (column - 1)
}

/// The row-major index of the square that a move names.
pub open spec fn move_index(m: Option<(usize, usize)>) -> int {
    match m {
        Some((r, c)) => slot_index(r as int, c as int),
        None => -1,
    }
}

/// Among the empty squares from index `k` on, the `n`-th lies at index `k` or later,
/// and a later draw gives a later square.
proof fn lemma_nth_free_ordered(s: Controller, k: int, n1: int, n2: int)
    requires
        0 <= k <= 9,
        0 <= n1 < n2 < free_count_from(s, k),
    ensures
        nth_free_from(s, k, n1) is Some,
        nth_free_from(s, k, n2) is Some,
        k <= move_index(nth_free_from(s, k, n1)) < move_index(nth_free_from(s, k, n2)),
    decreases 9 - k,
{
    lemma_nth_free_from(s, k, n1);
    lemma_nth_free_from(s, k, n2);
    if slot_free(s, k) {
        if n1 == 0 {
            lemma_nth_free_lower_bound(s, k + 1, n2 - 1);
        } else {
            lemma_nth_free_ordered(s, k + 1, n1 - 1, n2 - 1);
        }
    } else {
        lemma_nth_free_ordered(s, k + 1, n1, n2);
    }
}

/// Among the empty squares from index `k` on, each lies at index `k` or later.
proof fn lemma_nth_free_lower_bound(s: Controller, k: int, n: int)
    requires
        0 <= k <= 9,
        0 <= n < free_count_from(s, k),
    ensures
        nth_free_from(s, k, n) is Some,
        k <= move_index(nth_free_from(s, k, n)),
    decreases 9 - k,
{
    lemma_nth_free_from(s, k, n);
    if k < 9 {
        if slot_free(s, k) && n > 0 {
            lemma_nth_free_lower_bound(s, k + 1, n - 1);
        } else if !slot_free(s, k) {
            lemma_nth_free_lower_bound(s, k + 1, n);
        }
    }
}

/// An empty square at index `t`, from `k` on, is reached by some draw.
proof fn lemma_nth_free_reaches(s: Controller, k: int, t: int) -> (n: int)
    requires
        0 <= k <= t < 9,
        slot_free(s, t),
    ensures
        0 <= n < free_count_from(s, k),
        nth_free_from(s, k, n) == at(slot(t).0, slot(t).1),
    decreases t - k,
{
    if k == t {
        0
    } else {
        let n1 = lemma_nth_free_reaches(s, k + 1, t);
        if slot_free(s, k) {
            n1 + 1
        } else {
            n1
        }
    }
}

/// The stupid level's pick is a one-to-one match between the draws below the number
/// of empty squares and the empty squares: every empty square is reached by exactly
/// one draw, so a uniform draw makes every empty square equally likely.
pub proof fn lemma_pick_matches_free_squares(s: Controller)
    requires
        s.wf(),
    ensures
        forall|n: int| 0 <= n < free_count(s) ==> #[trigger] nth_free(s, n) is Some
            && move_is_free(s, nth_free(s, n)),
        forall|n1: int, n2: int|
            0 <= n1 < free_count(s) && 0 <= n2 < free_count(s) && n1 != n2 ==> #[trigger] nth_free(s, n1)
                != #[trigger] nth_free(s, n2),
        forall|row: int, column: int| #[trigger]
            s.free_at(row, column) ==> exists|n: int|
                0 <= n < free_count(s) && #[trigger] nth_free(s, n) == at(row, column),
{
    assert forall|n: int| 0 <= n < free_count(s) implies #[trigger] nth_free(s, n) is Some
        && move_is_free(s, nth_free(s, n)) by {
        lemma_nth_free_from(s, 0, n);
    }
    assert forall|n1: int, n2: int|
        0 <= n1 < free_count(s) && 0 <= n2 < free_count(s) && n1 != n2 implies #[trigger] nth_free(s, n1)
            != #[trigger] nth_free(s, n2) by {
        if n1 < n2 {
            lemma_nth_free_ordered(s, 0, n1, n2);
        } else {
            lemma_nth_free_ordered(s, 0, n2, n1);
        }
    }
    assert forall|row: int, column: int| #[trigger] s.free_at(row, column) implies exists|n: int|
        0 <= n < free_count(s) && #[trigger] nth_free(s, n) == at(row, column) by {
        let t = slot_index(row, column);
        assert(slot(t) == (row, column));
        let n = lemma_nth_free_reaches(s, 0, t);
        assert(nth_free(s, n) == at(row, column));
    }
}

impl ComputerPlayer {
    /// The mark the computer plays.
    pub closed spec fn mark(&self) -> Cell {
        self.player_turn
    }

    /// Whether the computer takes part in the round.
    pub closed spec fn is_active(&self) -> bool {
        self.active
    }

    /// How hard the computer tries.
    pub closed spec fn tier(&self) -> Level {
        self.level
    }

    /// The mark of the computer's opponent.
    pub open spec fn opponent(&self) -> Cell {
        opponent_of(self.mark())
    }

    /// Creates an inactive computer player that plays O at the stupid level.
    pub fn new() -> (r: ComputerPlayer)
        ensures
            r.mark() == Cell::O,
            !r.is_active(),
            r.tier() == Level::Stupid,
    {
        ComputerPlayer { player_turn: Cell::O, active: false, level: Level::Stupid }
    }

    /// Sets the mark the computer plays.
    pub fn set_player_turn(&mut self, player_turn: Cell)
        ensures
            final(self).mark() == player_turn,
            final(self).is_active() == old(self).is_active(),
            final(self).tier() == old(self).tier(),
    {
        self.player_turn = player_turn;
    }

    /// Sets whether the computer takes part.
    pub fn set_active(&mut self, active: bool)
        ensures
            final(self).mark() == old(self).mark(),
            final(self).is_active() == active,
            final(self).tier() == old(self).tier(),
    {
        self.active = active;
    }

    /// Sets how hard the computer tries.
    pub fn set_level(&mut self, level: Level)
        ensures
            final(self).mark() == old(self).mark(),
            final(self).is_active() == old(self).is_active(),
            final(self).tier() == level,
    {
        self.level = level;
    }

    /// Whether the computer takes part.
    pub fn get_active(&self) -> (r: bool)
        ensures
            r == self.is_active(),
    {
        self.active
    }

    /// The mark of the computer's opponent; none when the computer has no mark.
    pub fn get_opponent(&self) -> (r: Cell)
        ensures
            r == self.opponent(),
    {
        match self.player_turn {
            Cell::X => Cell::O,
            Cell::O => Cell::X,
            Cell::Empty => Cell::Empty,
        }
    }
    /// The positional move of the smart level, or `None` when no rule applies.
    pub fn smart_play(&self, controller: &Controller) -> (r: Option<(usize, usize)>)
        requires
            controller.wf(),
        ensures
            r == smart_choice(*controller, self.mark()),
            move_is_free(*controller, r),
    {
        let me = self.player_turn;
        let opp = self.get_opponent();
        let e = Cell::Empty;
        let top_left = controller.get_content(1, 1);
        let top_center = controller.get_content(2, 1);
        let top_right = controller.get_content(3, 1);

        let bottom_left = controller.get_content(1, 3);
        let bottom_center = controller.get_content(2, 3);
        let bottom_right = controller.get_content(3, 3);

        let center_left = controller.get_content(1, 2);
        let center = controller.get_content(2, 2);
        let center_right = controller.get_content(3, 2);

        // Take the center first.
        if center == e {
            return Some((2, 2));
        }
        // Defense: an empty set of corners, then the known corner traps.
        if bottom_left == e && top_right == e && bottom_right == e && top_left == e {
            return Some((1, 1));
        }
        if top_left == me && center == opp && bottom_right == opp && top_right == e {
            return Some((3, 1));
        }
        if top_left == opp && center == me && bottom_right == opp && center_right == e {
            return Some((3, 2));
        }
        if top_right == opp && center == me && bottom_left == opp && center_left == e {
            return Some((1, 2));
        }
        // Attack needs the center.
        if center != me {
            return None;
        }
        if top_left == me && center_left == opp && top_right == e {
            return Some((3, 1));
        }
        if top_left == me && (top_center == opp || bottom_center == opp || center_right == opp)
            && bottom_left == e {
            return Some((1, 3));
        }
        if bottom_left == opp && top_right == e && bottom_right == e && top_left == e {
            return Some((3, 1));
        }
        if bottom_left == e && top_right == opp && bottom_right == e && top_left == e {
            return Some((1, 3));
        }
        if bottom_left == e && top_right == e && bottom_right == opp && top_left == e {
            return Some((1, 1));
        }
        if bottom_left == e && top_right == e && bottom_right == e && top_left == opp {
            return Some((3, 3));
        }
        if top_left == me && bottom_right == opp {
            if center_left == opp && top_right == e {
                return Some((3, 1));
            }
            if top_center == opp && bottom_left == e {
                return Some((1, 3));
            }
        }
        if bottom_right == me && top_left == opp {
            if bottom_center == opp && top_right == e {
                return Some((3, 1));
            }
            if center_right == opp && bottom_left == e {
                return Some((1, 3));
            }
        }
        if top_right == me && bottom_left == opp {
            if center_left == opp && bottom_right == e {
                return Some((3, 3));
            }
            if bottom_center == opp && top_left == e {
                return Some((1, 1));
            }
            if top_center == opp && bottom_right == e {
                return Some((3, 3));
            }
            if center_right == opp && top_left == e {
                return Some((1, 1));
            }
        }
        None
    }

    /// The move that completes or extends a line of `player`'s marks, or `None`.
    ///
    /// Called with the computer's own mark it finds a winning or building move;
    /// called with the opponent's mark it finds the square to block.
    pub fn normal_play(controller: &Controller, player: Cell) -> (r: Option<(usize, usize)>)
        requires
            controller.wf(),
            is_mark(player),
        ensures
            r == normal_choice(*controller, player),
            move_is_free(*controller, r),
    {
        let mut i: usize = 1;
        while i < 4
            invariant
                controller.wf(),
                is_mark(player),
                1 <= i <= 4,
                line_scan(*controller, player, 1, 1) == line_scan(*controller, player, i as int, 1),
            decreases 4 - i,
        {
            let mut j: usize = 1;
            while j < 4
                invariant
                    controller.wf(),
                    is_mark(player),
                    1 <= i <= 3,
                    1 <= j <= 4,
                    line_scan(*controller, player, 1, 1) == line_scan(*controller, player, i as int, j as int),
                decreases 4 - j,
            {
                let m = Self::line_move(controller, player, i, j);
                if m.is_some() {
                    return m;
                }
                j += 1;
            }
            i += 1;
        }
        let top_left = controller.get_content(1, 1);
        let top_right = controller.get_content(3, 1);
        let bottom_left = controller.get_content(1, 3);
        let bottom_right = controller.get_content(3, 3);
        let center = controller.get_content(2, 2);

        if top_left == player && top_left == center && bottom_right == Cell::Empty {
            return Some((3, 3));
        }
        if center == player && center == bottom_right && top_left == Cell::Empty {
            return Some((1, 1));
        }
        if top_left == player && top_left == bottom_right && center == Cell::Empty {
            return Some((2, 2));
        }
        if bottom_left == player && bottom_left == center && top_right == Cell::Empty {
            return Some((3, 1));
        }
        if top_right == player && top_right == center && bottom_left == Cell::Empty {
            return Some((1, 3));
        }
        if bottom_left == player && bottom_left == top_right && center == Cell::Empty {
            return Some((2, 2));
        }
        None
    }

    /// The move that the line rule proposes from `(i, j)`, if any.
    fn line_move(controller: &Controller, player: Cell, i: usize, j: usize) -> (r: Option<(usize, usize)>)
        requires
            controller.wf(),
            is_mark(player),
            1 <= i <= 3,
            1 <= j <= 3,
        ensures
            r == line_move_at(*controller, player, i as int, j as int),
            move_is_free(*controller, r),
    {
        let here = controller.get_content(i, j);
        if here != player {
            return None;
        }
        if here == controller.get_content(i + 1, j) {
            if i + 2 < 4 && controller.get_content(i + 2, j) == Cell::Empty {
                return Some((i + 2, j));
            }
            if i - 1 > 0 && controller.get_content(i - 1, j) == Cell::Empty {
                return Some((i - 1, j));
            }
        }
        if here == controller.get_content(i, j + 1) {
            if j + 2 < 4 && controller.get_content(i, j + 2) == Cell::Empty {
                return Some((i, j + 2));
            }
            if j - 1 > 0 && controller.get_content(i, j - 1) == Cell::Empty {
                return Some((i, j - 1));
            }
        }
        if here == controller.get_content(i + 2, j) && controller.get_content(i + 1, j) == Cell::Empty {
            return Some((i + 1, j));
        }
        if here == controller.get_content(i, j + 2) && controller.get_content(i, j + 1) == Cell::Empty {
            return Some((i, j + 1));
        }
        None
    }
    /// The `draw`-th empty square in row-major order (from zero), or `None` when
    /// fewer squares are empty.
    ///
    /// With `draw` uniform over the number of empty squares, every empty square is
    /// equally likely.
    pub fn stupid_pick(controller: &Controller, draw: u64) -> (r: Option<(usize, usize)>)
        requires
            controller.wf(),
        ensures
            r == nth_free(*controller, draw as int),
            r is Some <==> draw < free_count(*controller),
            move_is_free(*controller, r),
    {
        proof { lemma_nth_free_from(*controller, 0, draw as int); }
        let mut k: usize = 0;
        let mut left: u64 = draw;
        while k < 9
            invariant
                controller.wf(),
                k <= 9,
                left <= draw,
                nth_free(*controller, draw as int) is Some <==> draw < free_count(*controller),
                nth_free(*controller, draw as int) == nth_free_from(*controller, k as int, left as int),
            decreases 9 - k,
        {
            let row = k / 3 + 1;
            let column = k % 3 + 1;
            if controller.is_free(row, column) {
                if left == 0 {
                    return Some((row, column));
                }
                left -= 1;
            }
            k += 1;
        }
        None
    }

    /// How many squares are empty.
    fn count_free(controller: &Controller) -> (r: u64)
        requires
            controller.wf(),
        ensures
            r == free_count(*controller),
    {
        let mut k: usize = 9;
        let mut n: u64 = 0;
        while k > 0
            invariant
                controller.wf(),
                k <= 9,
                n <= 9 - k,
                n == free_count_from(*controller, k as int),
            decreases k,
        {
            k -= 1;
            if controller.is_free(k / 3 + 1, k % 3 + 1) {
                n += 1;
            }
        }
        n
    }

    /// A random empty square: an index drawn uniformly over the empty squares,
    /// taken in row-major order.
    fn stupid_play(controller: &Controller) -> (r: (usize, usize))
        requires
            controller.wf(),
            controller.has_free_cell(),
        ensures
            controller.free_at(r.0 as int, r.1 as int),
    {
        let n = Self::count_free(controller);
        proof { lemma_free_count_nonzero(*controller); }
        let draw = generate_range(0, n);
        match Self::stupid_pick(controller, draw) {
            Some(m) => m,
            // Unreachable: the draw is below the number of empty squares.
            None => (1, 1),
        }
    }

    /// The move that the computer's level settles without chance, if any.
    fn choose_move(&self, controller: &Controller) -> (r: Option<(usize, usize)>)
        requires
            controller.wf(),
            is_mark(self.mark()),
        ensures
            r == tier_choice(*self, *controller),
            move_is_free(*controller, r),
    {
        match self.level {
            Level::Stupid => None,
            Level::Normal => {
                let own = Self::normal_play(controller, self.player_turn);
                if own.is_some() {
                    return own;
                }
                Self::normal_play(controller, self.get_opponent())
            },
            Level::Smart => {
                let own = Self::normal_play(controller, self.player_turn);
                if own.is_some() {
                    return own;
                }
                let block = Self::normal_play(controller, self.get_opponent());
                if block.is_some() {
                    return block;
                }
                self.smart_play(controller)
            },
        }
    }

    /// Plays the computer's move when it takes part and it is its turn; otherwise
    /// leaves the controller as it is.
    ///
    /// The move is the one its level settles, or else a random empty square.
    pub fn play_turn(&self, controller: &mut Controller)
        requires
            old(controller).wf(),
            self.is_active() && self.mark() == old(controller).turn() ==> old(
                controller,
            ).has_free_cell(),
        ensures
            final(controller).wf(),
            !(self.is_active() && self.mark() == old(controller).turn()) ==> *final(controller)
                == *old(controller),
            self.is_active() && self.mark() == old(controller).turn() ==> exists|r: int, c: int|
                {
                    &&& old(controller).free_at(r, c)
                    &&& #[trigger] old(controller).placed(*final(controller), r, c)
                    &&& tier_choice(*self, *old(controller)) is Some ==> tier_choice(
                        *self,
                        *old(controller),
                    ) == at(r, c)
                },
    {
        if !self.active || self.player_turn != controller.get_player_turn() {
            return;
        }
        let (row, column) = match self.choose_move(controller) {
            Some(m) => m,
            None => Self::stupid_play(controller),
        };
        controller.play_turn(row, column);
        assert(old(controller).placed(*controller, row as int, column as int));
    }
}

} // verus!
