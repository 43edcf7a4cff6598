//! The rules of fleet placement on the ten by ten board: ships are straight,
//! do not touch, and come in the prescribed sizes.

use crate::fleet_laws::law_verdict_is_determined;
use vstd::prelude::*;
use vstd::string::*;

verus! {

/// The number of squares that a fleet takes up.
pub const FLEET_SQUARES: usize = 18;

/// Why a placement is no fleet.
#[derive(Clone, Copy, Debug, PartialEq, Eq, Structural)]
pub enum FleetError {
    /// The placement has not 18 squares but `found`.
    WrongSquareCount { found: usize },
    /// A square occurs twice.
    DuplicateSquares,
    /// A square lies off the board.
    SquareOffBoard,
    /// The ships are not two of one square, two of two, and one each of
    /// three, four and five.
    WrongShips,
    /// A ship is no straight line.
    BentShip,
    /// Two ships touch.
    TouchingShips,
}

/// The row of a square.
pub open spec fn row_of(p: u8) -> int {
    p as int / 10
}

/// The column of a square.
pub open spec fn col_of(p: u8) -> int {
    p as int % 10
}

/// The coordinate of a square along an axis: its column along a row, its row
/// along a column.
pub open spec fn coord(p: u8, along_row: bool) -> int {
    if along_row {
        col_of(p)
    } else {
        row_of(p)
    }
}

/// Whether all squares lie in the row of the first.
pub open spec fn same_row(ship: Seq<u8>) -> bool {
    forall|i: int| 0 <= i < ship.len() ==> row_of(#[trigger] ship[i]) == row_of(ship[0])
}

/// Whether all squares lie in the column of the first.
pub open spec fn same_col(ship: Seq<u8>) -> bool {
    forall|i: int| 0 <= i < ship.len() ==> col_of(#[trigger] ship[i]) == col_of(ship[0])
}

/// Whether the coordinates of the squares along an axis, put in order, go up
/// by one from each to the next: no two are equal, and no two lie as far
/// apart as there are squares.
pub open spec fn unbroken(ship: Seq<u8>, along_row: bool) -> bool {
    &&& forall|i: int, j: int|
        0 <= i < ship.len() && 0 <= j < ship.len() && i != j ==> coord(
            #[trigger] ship[i],
            along_row,
        ) != coord(#[trigger] ship[j], along_row)
    &&& forall|i: int, j: int|
        0 <= i < ship.len() && 0 <= j < ship.len() ==> coord(#[trigger] ship[i], along_row)
            - coord(#[trigger] ship[j], along_row) < ship.len()
}

/// Whether a ship is a straight unbroken line: it has at most one square, or
/// lies in one row with its columns unbroken, or lies in one column with its
/// rows unbroken.
pub open spec fn straight(ship: Seq<u8>) -> bool {
    ship.len() <= 1 || (same_row(ship) && unbroken(ship, true)) || (!same_row(ship) && same_col(
        ship,
    ) && unbroken(ship, false))
}

fn axis(p: u8, along_row: bool) -> (c: u8)
    ensures
        c == coord(p, along_row),
{
    if along_row {
        p % 10
    } else {
        p / 10
    }
}

fn all_in_row(ship: &[u8]) -> (b: bool)
    requires
        ship@.len() > 0,
    ensures
        b == same_row(ship@),
{
    let mut i: usize = 0;
    while i < ship.len()
        invariant
            i <= ship@.len(),
            ship@.len() > 0,
            forall|j: int| 0 <= j < i ==> row_of(#[trigger] ship@[j]) == row_of(ship@[0]),
        decreases ship.len() - i,
    {
        if ship[i] / 10 != ship[0] / 10 {
            return false;
        }
        i += 1;
    }
    true
}

fn all_in_col(ship: &[u8]) -> (b: bool)
    requires
        ship@.len() > 0,
    ensures
        b == same_col(ship@),
{
    let mut i: usize = 0;
    while i < ship.len()
        invariant
            i <= ship@.len(),
            ship@.len() > 0,
            forall|j: int| 0 <= j < i ==> col_of(#[trigger] ship@[j]) == col_of(ship@[0]),
        decreases ship.len() - i,
    {
        if ship[i] % 10 != ship[0] % 10 {
            return false;
        }
        i += 1;
    }
    true
}

fn is_unbroken(ship: &[u8], along_row: bool) -> (b: bool)
    requires
        ship@.len() > 0,
    ensures
        b == unbroken(ship@, along_row),
{
    let mut low: u8 = axis(ship[0], along_row);
    let mut high: u8 = low;
    let mut i: usize = 1;
    while i < ship.len()
        invariant
            1 <= i <= ship@.len(),
            low <= high,
            forall|j: int|
                0 <= j < i ==> low <= coord(#[trigger] ship@[j], along_row) <= high,
            exists|j: int| 0 <= j < i && coord(#[trigger] ship@[j], along_row) == low,
            exists|j: int| 0 <= j < i && coord(#[trigger] ship@[j], along_row) == high,
        decreases ship.len() - i,
    {
        let c: u8 = axis(ship[i], along_row);
        if c < low {
            low = c;
        }
        if c > high {
            high = c;
        }
        i += 1;
    }
    if (high - low) as usize >= ship.len() {
        return false;
    }
    let mut a: usize = 0;
    while a < ship.len()
        invariant
            a <= ship@.len(),
            forall|i: int, j: int|
                0 <= i < a && 0 <= j < ship@.len() && i != j ==> coord(
                    #[trigger] ship@[i],
                    along_row,
                ) != coord(#[trigger] ship@[j], along_row),
        decreases ship.len() - a,
    {
        let mut b: usize = 0;
        while b < ship.len()
            invariant
                a < ship@.len(),
                b <= ship@.len(),
                forall|j: int|
                    0 <= j < b && j != a ==> coord(ship@[a as int], along_row) != coord(
                        #[trigger] ship@[j],
                        along_row,
                    ),
            decreases ship.len() - b,
        {
            if a != b && axis(ship[a], along_row) == axis(ship[b], along_row) {
                return false;
            }
            b += 1;
        }
        a += 1;
    }
    true
}

/// Whether a ship is a straight unbroken line.
pub fn is_straight_line(ship: &[u8]) -> (b: bool)
    ensures
        b == straight(ship@),
{
    if ship.len() <= 1 {
        return true;
    }
    if all_in_row(ship) {
        is_unbroken(ship, true)
    } else if all_in_col(ship) {
        is_unbroken(ship, false)
    } else {
        false
    }
}

/// Whether square `q` lies on the board next to square `p`, sideways, up or
/// down, or across a corner.
pub open spec fn near(p: u8, q: u8) -> bool {
    &&& q <= 99
    &&& q != p
    &&& -1 <= row_of(q) - row_of(p) <= 1
    &&& -1 <= col_of(q) - col_of(p) <= 1
}

/// Whether a square belongs to one of the ships.
pub open spec fn taken(ships: Seq<Vec<u8>>, q: u8) -> bool {
    exists|j: int, b: int|
        0 <= j < ships.len() && 0 <= b < ships[j]@.len() && (#[trigger] ships[j]@[b]) == q
}

/// Whether the square at place `a` of ship `i` has, next to it, a square of
/// the fleet that is not of its own ship.
pub open spec fn touches_at(ships: Seq<Vec<u8>>, i: int, a: int, q: u8) -> bool {
    &&& 0 <= i < ships.len()
    &&& 0 <= a < ships[i]@.len()
    &&& near(ships[i]@[a], q)
    &&& taken(ships, q)
    &&& !ships[i]@.contains(q)
}

/// Whether two ships touch: some square of one ship lies next to a square of
/// the fleet that is not of the same ship.
pub open spec fn touching(ships: Seq<Vec<u8>>) -> bool {
    exists|i: int, a: int, q: u8| touches_at(ships, i, a, q)
}

fn holds(ship: &Vec<u8>, q: u8) -> (b: bool)
    ensures
        b == ship@.contains(q),
{
    let mut i: usize = 0;
    while i < ship.len()
        invariant
            i <= ship@.len(),
            forall|j: int| 0 <= j < i ==> ship@[j] != q,
        decreases ship.len() - i,
    {
        if ship[i] == q {
            return true;
        }
        i += 1;
    }
    false
}

fn is_taken(ships: &[Vec<u8>], q: u8) -> (b: bool)
    ensures
        b == taken(ships@, q),
{
    let mut j: usize = 0;
    while j < ships.len()
        invariant
            j <= ships@.len(),
            forall|k: int, b: int|
                0 <= k < j && 0 <= b < ships@[k]@.len() ==> (#[trigger] ships@[k]@[b]) != q,
        decreases ships.len() - j,
    {
        if holds(&ships[j], q) {
            let ghost b = choose|b: int| 0 <= b < ships@[j as int]@.len() && ships@[j as int]@[b] == q;
            assert(ships@[j as int]@[b] == q);
            return true;
        }
        j += 1;
    }
    false
}

fn is_near(p: u8, q: u8) -> (b: bool)
    ensures
        b == near(p, q),
{
    let pr: u8 = p / 10;
    let pc: u8 = p % 10;
    let qr: u8 = q / 10;
    let qc: u8 = q % 10;
    q <= 99 && q != p && qr <= pr + 1 && pr <= qr + 1 && qc <= pc + 1 && pc <= qc + 1
}

fn touches_from(ships: &[Vec<u8>], i: usize, a: usize) -> (b: bool)
    requires
        i < ships@.len(),
        a < ships@[i as int]@.len(),
    ensures
        b == exists|q: u8| touches_at(ships@, i as int, a as int, q),
{
    let p: u8 = ships[i][a];
    let mut q: u8 = 0;
    while q < 100
        invariant
            q <= 100,
            i < ships@.len(),
            a < ships@[i as int]@.len(),
            p == ships@[i as int]@[a as int],
            forall|r: u8| r < q ==> !touches_at(ships@, i as int, a as int, r),
        decreases 100 - q,
    {
        if is_near(p, q) && is_taken(ships, q) && !holds(&ships[i], q) {
            assert(touches_at(ships@, i as int, a as int, q));
            return true;
        }
        q += 1;
    }
    false
}

/// Whether two ships touch, be it across a corner.
pub fn ships_touch_each_other(ships: &[Vec<u8>]) -> (b: bool)
    ensures
        b == touching(ships@),
{
    let mut i: usize = 0;
    while i < ships.len()
        invariant
            i <= ships@.len(),
            forall|k: int, a: int, q: u8| k < i ==> !touches_at(ships@, k, a, q),
        decreases ships.len() - i,
    {
        let mut a: usize = 0;
        while a < ships[i].len()
            invariant
                i < ships@.len(),
                a <= ships@[i as int]@.len(),
                forall|c: int, q: u8| c < a ==> !touches_at(ships@, i as int, c, q),
            decreases ships[i as int].len() - a,
        {
            if touches_from(ships, i, a) {
                let ghost q = choose|q: u8| touches_at(ships@, i as int, a as int, q);
                assert(touches_at(ships@, i as int, a as int, q));
                return true;
            }
            a += 1;
        }
        i += 1;
    }
    false
}

/// Whether two squares of the board lie side by side in a row or one above
/// the other in a column.
pub open spec fn adjacent(a: u8, b: u8) -> bool {
    &&& a <= 99
    &&& b <= 99
    &&& (row_of(a) == row_of(b) && (col_of(a) - col_of(b) == 1 || col_of(b) - col_of(a) == 1))
        || (col_of(a) == col_of(b) && (row_of(a) - row_of(b) == 1 || row_of(b) - row_of(a)
        == 1))
}

/// Whether a sequence of squares of the placement leads from one to the next
/// by adjacent squares.
pub open spec fn is_route(board: Seq<u8>, route: Seq<u8>) -> bool {
    &&& route.len() > 0
    &&& forall|i: int| 0 <= i < route.len() ==> board.contains(#[trigger] route[i])
    &&& forall|i: int| 0 <= i < route.len() - 1 ==> adjacent(#[trigger] route[i], route[i + 1])
}

/// Whether two squares of the placement are joined by a route.
pub open spec fn linked(board: Seq<u8>, a: u8, b: u8) -> bool {
    exists|route: Seq<u8>| #[trigger]
        is_route(board, route) && route[0] == a && route.last() == b
}

/// A square of the placement is linked to itself.
pub proof fn lemma_linked_self(board: Seq<u8>, a: u8)
    requires
        board.contains(a),
    ensures
        linked(board, a, a),
{
    let route = seq![a];
    assert(is_route(board, route));
    assert(route[0] == a && route.last() == a);
}

/// A route goes on to an adjacent square of the placement.
pub proof fn lemma_linked_step(board: Seq<u8>, a: u8, b: u8, c: u8)
    requires
        linked(board, a, b),
        adjacent(b, c),
        board.contains(c),
    ensures
        linked(board, a, c),
{
    let route = choose|route: Seq<u8>| #[trigger]
        is_route(board, route) && route[0] == a && route.last() == b;
    let longer = route.push(c);
    assert forall|i: int| 0 <= i < longer.len() implies board.contains(#[trigger] longer[i]) by {
        if i < route.len() {
            assert(longer[i] == route[i]);
        }
    }
    assert forall|i: int| 0 <= i < longer.len() - 1 implies adjacent(
        #[trigger] longer[i],
        longer[i + 1],
    ) by {
        if i < route.len() - 1 {
            assert(longer[i] == route[i]);
            assert(longer[i + 1] == route[i + 1]);
        }
    }
    assert(is_route(board, longer));
    assert(longer[0] == a && longer.last() == c);
}

/// What holds of the ships found so far: none is empty, each square lies on
/// the board and belongs to the placement, no square occurs twice, the
/// squares of a ship are linked to its first, and a square of the placement
/// that is adjacent to a ship's square belongs to that ship.
#[verifier::opaque]
pub open spec fn ships_sound(board: Seq<u8>, ships: Seq<Vec<u8>>) -> bool {
    &&& forall|k: int| 0 <= k < ships.len() ==> (#[trigger] ships[k])@.len() > 0
    &&& forall|k: int, a: int|
        0 <= k < ships.len() && 0 <= a < ships[k]@.len() ==> board.contains(
            #[trigger] ships[k]@[a],
        ) && ships[k]@[a] <= 99
    &&& forall|k: int, a: int, m: int, b: int|
        0 <= k < ships.len() && 0 <= a < ships[k]@.len() && 0 <= m < ships.len() && 0 <= b
            < ships[m]@.len() && (#[trigger] ships[k]@[a]) == (#[trigger] ships[m]@[b]) ==> k
            == m && a == b
    &&& forall|k: int, a: int|
        0 <= k < ships.len() && 0 <= a < ships[k]@.len() ==> linked(
            board,
            ships[k]@[0],
            #[trigger] ships[k]@[a],
        )
    &&& forall|k: int, a: int, q: u8|
        0 <= k < ships.len() && 0 <= a < ships[k]@.len() && adjacent(#[trigger] ships[k]@[a], q)
            && board.contains(q) ==> #[trigger] ships[k]@.contains(q)
}

/// Whether the ships are the placement's ships: they are sound, and every
/// square of the placement belongs to one of them. Each ship is then a
/// largest set of squares that adjacency links.
pub open spec fn is_fleet(board: Seq<u8>, ships: Seq<Vec<u8>>) -> bool {
    &&& ships_sound(board, ships)
    &&& forall|i: int| 0 <= i < board.len() ==> taken(ships, #[trigger] board[i])
}

/// The number of marks among the first `n` squares.
spec fn marked(v: Seq<bool>, n: int) -> int
    decreases n,
{
    if n <= 0 {
        0
    } else {
        marked(v, n - 1) + if v[n - 1] {
            1int
        } else {
            0int
        }
    }
}

/// A new mark raises the number of marks by one, and there are never more
/// marks than squares.
proof fn lemma_marked(v: Seq<bool>, p: int, n: int)
    requires
        0 <= n <= v.len(),
    ensures
        0 <= marked(v, n) <= n,
        0 <= p < v.len() && !v[p] ==> marked(v.update(p, true), n) == marked(v, n) + if p < n {
            1int
        } else {
            0int
        },
    decreases n,
{
    if n > 0 {
        lemma_marked(v, p, n - 1);
    }
}

/// Whether the table of squares agrees with the placement.
#[verifier::opaque]
spec fn grid_of(board: Seq<u8>, grid: Seq<bool>) -> bool {
    &&& grid.len() == 100
    &&& forall|q: u8| q <= 99 ==> #[trigger] grid[q as int] == board.contains(q)
}

/// Whether the marks agree with the ships found and the ship being traced.
#[verifier::opaque]
spec fn visited_of(visited: Seq<bool>, ships: Seq<Vec<u8>>, ship: Seq<u8>) -> bool {
    &&& visited.len() == 100
    &&& forall|q: u8|
        q <= 99 ==> #[trigger] visited[q as int] == (taken(ships, q) || ship.contains(q))
}

/// What holds of the ship being traced: it is not empty, its squares lie on
/// the board, belong to the placement and to no ship found before, none
/// occurs twice, and each is linked to the first.
#[verifier::opaque]
spec fn trace_sound(board: Seq<u8>, ships: Seq<Vec<u8>>, ship: Seq<u8>) -> bool {
    &&& ship.len() > 0
    &&& forall|a: int|
        0 <= a < ship.len() ==> board.contains(#[trigger] ship[a]) && ship[a] <= 99 && !taken(
            ships,
            ship[a],
        )
    &&& forall|a: int, b: int|
        0 <= a < ship.len() && 0 <= b < ship.len() && (#[trigger] ship[a]) == (
        #[trigger] ship[b]) ==> a == b
    &&& forall|a: int| 0 <= a < ship.len() ==> linked(board, ship[0], #[trigger] ship[a])
}

/// Looks at a square adjacent to one of the ship being traced: where it
/// belongs to the placement and bears no mark, it is marked and joins the
/// ship.
fn visit(
    board: &Vec<u8>,
    ships: &Vec<Vec<u8>>,
    grid: &[bool; 100],
    visited: &mut [bool; 100],
    ship: &mut Vec<u8>,
    from: usize,
    next: u8,
)
    requires
        ships_sound(board@, ships@),
        grid_of(board@, grid@),
        visited_of(old(visited)@, ships@, old(ship)@),
        trace_sound(board@, ships@, old(ship)@),
        from < old(ship)@.len(),
        adjacent(old(ship)@[from as int], next),
    ensures
        visited_of(final(visited)@, ships@, final(ship)@),
        trace_sound(board@, ships@, final(ship)@),
        final(ship)@.len() >= old(ship)@.len(),
        final(ship)@.take(old(ship)@.len() as int) == old(ship)@,
        board@.contains(next) ==> final(ship)@.contains(next),
        marked(final(visited)@, 100) - marked(old(visited)@, 100) == final(ship)@.len() - old(
            ship,
        )@.len(),
{
    let ghost before = ship@;
    let ghost marks = visited@;
    proof {
        reveal(ships_sound);
        reveal(grid_of);
        reveal(visited_of);
        reveal(trace_sound);
    }
    assert(ship@.take(ship@.len() as int) =~= ship@);
    if grid[next as usize] {
        if !visited[next as usize] {
            visited[next as usize] = true;
            ship.push(next);
            proof {
                lemma_marked(marks, next as int, 100);
                assert(visited@ =~= marks.update(next as int, true));
                assert(ship@.take(before.len() as int) =~= before);
                assert(ship@[before.len() as int] == next);
                assert forall|q: u8| q <= 99 implies #[trigger] visited@[q as int] == (taken(
                    ships@,
                    q,
                ) || ship@.contains(q)) by {
                    if q == next {
                    } else {
                        if before.contains(q) {
                            let a = choose|a: int| 0 <= a < before.len() && before[a] == q;
                            assert(ship@[a] == q);
                        }
                        if ship@.contains(q) {
                            let a = choose|a: int| 0 <= a < ship@.len() && ship@[a] == q;
                            assert(before[a] == q);
                        }
                    }
                }
                assert forall|a: int| 0 <= a < ship@.len() implies linked(
                    board@,
                    ship@[0],
                    #[trigger] ship@[a],
                ) by {
                    if a < before.len() {
                        assert(ship@[a] == before[a]);
                        assert(ship@[0] == before[0]);
                    } else {
                        assert(ship@[0] == before[0]);
                        lemma_linked_step(board@, before[0], before[from as int], next);
                    }
                }
                assert forall|a: int|
                    0 <= a < ship@.len() implies board@.contains(#[trigger] ship@[a]) && ship@[a]
                    <= 99 && !taken(ships@, ship@[a]) by {
                    if a < before.len() {
                        assert(ship@[a] == before[a]);
                    }
                }
                assert forall|a: int, b: int|
                    0 <= a < ship@.len() && 0 <= b < ship@.len() && (#[trigger] ship@[a]) == (
                    #[trigger] ship@[b]) implies a == b by {
                    if a < before.len() {
                        assert(ship@[a] == before[a]);
                    }
                    if b < before.len() {
                        assert(ship@[b] == before[b]);
                    }
                }
            }
        } else {
            proof {
                if taken(ships@, next) {
                    let (k, a) = choose|k: int, a: int|
                        0 <= k < ships@.len() && 0 <= a < ships@[k]@.len() && (
                        #[trigger] ships@[k]@[a]) == next;
                    let own = before[from as int];
                    assert(adjacent(ships@[k]@[a], own));
                    assert(ships@[k]@.contains(own));
                    let b = choose|b: int| 0 <= b < ships@[k]@.len() && ships@[k]@[b] == own;
                    assert(ships@[k]@[b] == own);
                    assert(taken(ships@, own));
                    assert(false);
                }
            }
        }
    }
}

/// Whether every square of the placement that is adjacent to one of the
/// first `head` squares of the ship belongs to the ship.
spec fn closed_up_to(board: Seq<u8>, ship: Seq<u8>, head: int) -> bool {
    forall|a: int, q: u8|
        0 <= a < head && a < ship.len() && adjacent(#[trigger] ship[a], q) && board.contains(q)
            ==> #[trigger] ship.contains(q)
}

/// A sequence holds what its prefix holds.
proof fn lemma_prefix_contains(shorter: Seq<u8>, longer: Seq<u8>)
    requires
        shorter.len() <= longer.len(),
        longer.take(shorter.len() as int) == shorter,
    ensures
        forall|q: u8| shorter.contains(q) ==> longer.contains(q),
        forall|a: int| 0 <= a < shorter.len() ==> shorter[a] == longer[a],
{
    assert forall|a: int| 0 <= a < shorter.len() implies shorter[a] == longer[a] by {
        assert(longer.take(shorter.len() as int)[a] == longer[a]);
    }
    assert forall|q: u8| shorter.contains(q) implies longer.contains(q) by {
        let a = choose|a: int| 0 <= a < shorter.len() && shorter[a] == q;
        assert(longer[a] == q);
    }
}

/// A ship that was traced to its end joins the ships found.
proof fn lemma_ship_found(board: Seq<u8>, ships: Seq<Vec<u8>>, ship: Vec<u8>)
    requires
        ships_sound(board, ships),
        trace_sound(board, ships, ship@),
        closed_up_to(board, ship@, ship@.len() as int),
    ensures
        ships_sound(board, ships.push(ship)),
        forall|q: u8| taken(ships.push(ship), q) == (taken(ships, q) || ship@.contains(q)),
{
    reveal(ships_sound);
    reveal(trace_sound);
    let more = ships.push(ship);
    let n = ships.len() as int;
    assert forall|q: u8| taken(more, q) == (taken(ships, q) || ship@.contains(q)) by {
        if taken(ships, q) {
            let (k, a) = choose|k: int, a: int|
                0 <= k < ships.len() && 0 <= a < ships[k]@.len() && (#[trigger] ships[k]@[a])
                    == q;
            assert(more[k]@[a] == q);
        }
        if ship@.contains(q) {
            let a = choose|a: int| 0 <= a < ship@.len() && ship@[a] == q;
            assert(more[n]@[a] == q);
        }
        if taken(more, q) {
            let (k, a) = choose|k: int, a: int|
                0 <= k < more.len() && 0 <= a < more[k]@.len() && (#[trigger] more[k]@[a]) == q;
            if k < n {
                assert(ships[k]@[a] == q);
            } else {
                assert(ship@[a] == q);
            }
        }
    }
    assert forall|k: int| 0 <= k < more.len() implies (#[trigger] more[k])@.len() > 0 by {
        if k < n {
            assert(more[k] == ships[k]);
        }
    }
    assert forall|k: int, a: int| 0 <= k < more.len() && 0 <= a < more[k]@.len() implies board.contains(
        #[trigger] more[k]@[a],
    ) && more[k]@[a] <= 99 by {
        if k < n {
            assert(more[k]@[a] == ships[k]@[a]);
        } else {
            assert(more[k]@[a] == ship@[a]);
        }
    }
    assert forall|k: int, a: int, m: int, b: int|
        0 <= k < more.len() && 0 <= a < more[k]@.len() && 0 <= m < more.len() && 0 <= b
            < more[m]@.len() && (#[trigger] more[k]@[a]) == (#[trigger] more[m]@[b]) implies k
        == m && a == b by {
        if k < n && m < n {
            assert(ships[k]@[a] == ships[m]@[b]);
        } else if k < n {
            assert(ships[k]@[a] == ship@[b]);
            assert(taken(ships, ship@[b]));
        } else if m < n {
            assert(ships[m]@[b] == ship@[a]);
            assert(taken(ships, ship@[a]));
        } else {
            assert(ship@[a] == ship@[b]);
        }
    }
    assert forall|k: int, a: int| 0 <= k < more.len() && 0 <= a < more[k]@.len() implies linked(
        board,
        more[k]@[0],
        #[trigger] more[k]@[a],
    ) by {
        if k < n {
            assert(more[k]@[a] == ships[k]@[a]);
        } else {
            assert(more[k]@[a] == ship@[a]);
        }
    }
    assert forall|k: int, a: int, q: u8|
        0 <= k < more.len() && 0 <= a < more[k]@.len() && adjacent(#[trigger] more[k]@[a], q)
            && board.contains(q) implies #[trigger] more[k]@.contains(q) by {
        if k < n {
            assert(more[k]@[a] == ships[k]@[a]);
            assert(ships[k]@.contains(q));
        } else {
            assert(more[k]@[a] == ship@[a]);
            assert(ship@.contains(q));
        }
    }
}

/// The squares adjacent to a square are the one above, the one below, the
/// one to the left and the one to the right, as far as the board goes.
proof fn lemma_neighbours(c: u8, q: u8)
    requires
        c <= 99,
    ensures
        adjacent(c, q) <==> (c / 10 > 0 && q == c - 10) || (c / 10 < 9 && q == c + 10) || (c % 10
            > 0 && q == c - 1) || (c % 10 < 9 && q == c + 1),
{
}

/// Looks at the squares adjacent to the square at place `head` of the ship
/// being traced, so that those of the placement all belong to the ship.
fn expand(
    board: &Vec<u8>,
    ships: &Vec<Vec<u8>>,
    grid: &[bool; 100],
    visited: &mut [bool; 100],
    ship: &mut Vec<u8>,
    head: usize,
)
    requires
        ships_sound(board@, ships@),
        grid_of(board@, grid@),
        visited_of(old(visited)@, ships@, old(ship)@),
        trace_sound(board@, ships@, old(ship)@),
        head < old(ship)@.len(),
    ensures
        visited_of(final(visited)@, ships@, final(ship)@),
        trace_sound(board@, ships@, final(ship)@),
        final(ship)@.len() >= old(ship)@.len(),
        final(ship)@.take(old(ship)@.len() as int) == old(ship)@,
        forall|q: u8|
            adjacent(old(ship)@[head as int], q) && board@.contains(q) ==> final(ship)@.contains(
                q,
            ),
        marked(final(visited)@, 100) - marked(old(visited)@, 100) == final(ship)@.len() - old(
            ship,
        )@.len(),
{
    let current: u8 = ship[head];
    let row: u8 = current / 10;
    let col: u8 = current % 10;
    let ghost s0 = ship@;
    assert(s0.take(s0.len() as int) =~= s0);
    assert(current <= 99) by {
        reveal(trace_sound);
    }
    if row > 0 {
        proof {
            lemma_neighbours(current, (current - 10) as u8);
        }
        visit(board, ships, grid, visited, ship, head, current - 10);
    }
    let ghost s1 = ship@;
    proof {
        assert(s1.take(s0.len() as int) =~= s0);
        lemma_prefix_contains(s0, s1);
    }
    if row < 9 {
        proof {
            lemma_neighbours(current, (current + 10) as u8);
        }
        visit(board, ships, grid, visited, ship, head, current + 10);
    }
    let ghost s2 = ship@;
    proof {
        assert(s2.take(s1.len() as int) =~= s1);
        lemma_prefix_contains(s1, s2);
        assert(s2.take(s0.len() as int) =~= s0);
    }
    if col > 0 {
        proof {
            lemma_neighbours(current, (current - 1) as u8);
        }
        visit(board, ships, grid, visited, ship, head, current - 1);
    }
    let ghost s3 = ship@;
    proof {
        assert(s3.take(s2.len() as int) =~= s2);
        lemma_prefix_contains(s2, s3);
        assert(s3.take(s0.len() as int) =~= s0);
    }
    if col < 9 {
        proof {
            lemma_neighbours(current, (current + 1) as u8);
        }
        visit(board, ships, grid, visited, ship, head, current + 1);
    }
    proof {
        assert(ship@.take(s3.len() as int) =~= s3);
        lemma_prefix_contains(s3, ship@);
        assert(ship@.take(s0.len() as int) =~= s0);
        assert forall|q: u8| adjacent(current, q) && board@.contains(q) implies ship@.contains(
            q,
        ) by {
            lemma_neighbours(current, q);
            if row > 0 && q == current - 10 {
                assert(s1.contains(q));
            } else if row < 9 && q == current + 10 {
                assert(s2.contains(q));
            } else if col > 0 && q == current - 1 {
                assert(s3.contains(q));
            }
        }
    }
}

/// Traces the ship of a square that bears no mark yet: the squares that
/// adjacency links to it, in the order in which a search in breadth meets
/// them.
fn trace(
    board: &Vec<u8>,
    ships: &Vec<Vec<u8>>,
    grid: &[bool; 100],
    visited: &mut [bool; 100],
    start: u8,
) -> (ship: Vec<u8>)
    requires
        ships_sound(board@, ships@),
        grid_of(board@, grid@),
        visited_of(old(visited)@, ships@, Seq::empty()),
        board@.contains(start),
        start <= 99,
        !old(visited)@[start as int],
    ensures
        visited_of(final(visited)@, ships@, ship@),
        trace_sound(board@, ships@, ship@),
        closed_up_to(board@, ship@, ship@.len() as int),
        ship@[0] == start,
{
    let mut ship: Vec<u8> = Vec::new();
    let ghost marks = visited@;
    proof {
        reveal(visited_of);
    }
    visited[start as usize] = true;
    ship.push(start);
    proof {
        reveal(trace_sound);
        assert(visited@ =~= marks.update(start as int, true));
        assert(ship@[0] == start);
        lemma_linked_self(board@, start);
        assert forall|q: u8| q <= 99 implies #[trigger] visited@[q as int] == (taken(ships@, q)
            || ship@.contains(q)) by {
            if ship@.contains(q) {
                let a = choose|a: int| 0 <= a < ship@.len() && ship@[a] == q;
                assert(q == start);
            }
            if q != start {
                assert(!Seq::<u8>::empty().contains(q));
            }
        }
        assert(!taken(ships@, start)) by {
            assert(!Seq::<u8>::empty().contains(start));
        }
    }
    let mut head: usize = 0;
    while head < ship.len()
        invariant
            ships_sound(board@, ships@),
            grid_of(board@, grid@),
            visited_of(visited@, ships@, ship@),
            trace_sound(board@, ships@, ship@),
            closed_up_to(board@, ship@, head as int),
            head <= ship@.len(),
            ship@[0] == start,
        decreases 100 - marked(visited@, 100) + ship@.len() - head,
    {
        let ghost before = ship@;
        proof {
            lemma_marked(visited@, 0, 100);
        }
        expand(board, ships, grid, visited, &mut ship, head);
        proof {
            lemma_marked(visited@, 0, 100);
            lemma_prefix_contains(before, ship@);
            assert forall|a: int, q: u8|
                0 <= a < head + 1 && a < ship@.len() && adjacent(#[trigger] ship@[a], q)
                    && board@.contains(q) implies #[trigger] ship@.contains(q) by {
                assert(before[a] == ship@[a]);
                if a < head {
                    assert(before.contains(q));
                }
            }
        }
        head += 1;
    }
    ship
}

/// Whether ship `k` starts at place `i` of the placement: its first square
/// stands there, no earlier ship holds it, and every square before it belongs
/// to an earlier ship.
pub open spec fn starts_at(board: Seq<u8>, ships: Seq<Vec<u8>>, k: int, i: int) -> bool {
    &&& 0 <= i < board.len()
    &&& board[i] == ships[k]@[0]
    &&& !taken(ships.take(k), board[i])
    &&& forall|j: int| 0 <= j < i ==> taken(ships.take(k), #[trigger] board[j])
}

/// Whether the ships stand in the order of the placement: each starts with
/// the first square of the placement that no earlier ship holds.
pub open spec fn in_placement_order(board: Seq<u8>, ships: Seq<Vec<u8>>) -> bool {
    forall|k: int| 0 <= k < ships.len() ==> #[trigger] has_start(board, ships, k)
}

/// Whether ship `k` starts somewhere in the placement.
pub open spec fn has_start(board: Seq<u8>, ships: Seq<Vec<u8>>, k: int) -> bool {
    exists|i: int| #[trigger] starts_at(board, ships, k, i)
}

/// Finds the ships of a placement: the sets of squares that adjacency links,
/// in the order of the placement. The squares of a ship come in the order in
/// which a search in breadth from its first square meets them.
pub fn find_ships(board: &Vec<u8>) -> (ships: Vec<Vec<u8>>)
    requires
        forall|i: int| 0 <= i < board@.len() ==> board@[i] <= 99,
    ensures
        is_fleet(board@, ships@),
        in_placement_order(board@, ships@),
{
    let mut grid: [bool; 100] = [false; 100];
    let mut i: usize = 0;
    while i < board.len()
        invariant
            i <= board@.len(),
            forall|j: int| 0 <= j < board@.len() ==> board@[j] <= 99,
            forall|q: u8| q <= 99 ==> #[trigger] grid@[q as int] == board@.take(i as int).contains(q),
        decreases board.len() - i,
    {
        let ghost table = grid@;
        let pos: u8 = board[i];
        grid[pos as usize] = true;
        proof {
            assert(grid@ =~= table.update(pos as int, true));
            let shorter = board@.take(i as int);
            let longer = board@.take(i + 1);
            assert(longer[i as int] == pos);
            assert forall|q: u8| q <= 99 implies #[trigger] grid@[q as int] == longer.contains(
                q,
            ) by {
                if shorter.contains(q) {
                    let a = choose|a: int| 0 <= a < shorter.len() && shorter[a] == q;
                    assert(longer[a] == q);
                }
                if longer.contains(q) && q != pos {
                    let a = choose|a: int| 0 <= a < longer.len() && longer[a] == q;
                    assert(shorter[a] == q);
                }
            }
        }
        i += 1;
    }
    assert(board@.take(board@.len() as int) =~= board@);
    let mut visited: [bool; 100] = [false; 100];
    let mut ships: Vec<Vec<u8>> = Vec::new();
    let mut idx: usize = 0;
    proof {
        reveal(grid_of);
        reveal(visited_of);
        reveal(ships_sound);
        assert forall|q: u8| q <= 99 implies #[trigger] visited@[q as int] == (taken(ships@, q)
            || Seq::<u8>::empty().contains(q)) by {}
    }
    while idx < board.len()
        invariant
            idx <= board@.len(),
            forall|j: int| 0 <= j < board@.len() ==> board@[j] <= 99,
            grid_of(board@, grid@),
            ships_sound(board@, ships@),
            visited_of(visited@, ships@, Seq::empty()),
            forall|j: int| 0 <= j < idx ==> taken(ships@, #[trigger] board@[j]),
            in_placement_order(board@, ships@),
        decreases board.len() - idx,
    {
        let start: u8 = board[idx];
        let ghost found = ships@;
        assert(board@.contains(start));
        if !visited[start as usize] {
            proof {
                reveal(visited_of);
            }
            let ship: Vec<u8> = trace(board, &ships, &grid, &mut visited, start);
            proof {
                let more = ships@.push(ship);
                assert(!taken(found, start)) by {
                    assert(!Seq::<u8>::empty().contains(start));
                }
                assert(more.take(found.len() as int) =~= found);
                assert(starts_at(board@, more, found.len() as int, idx as int));
                assert forall|k: int| 0 <= k < more.len() implies #[trigger] has_start(
                    board@,
                    more,
                    k,
                ) by {
                    if k < found.len() {
                        assert(has_start(board@, found, k));
                        let i = choose|i: int| #[trigger] starts_at(board@, found, k, i);
                        assert(more.take(k) =~= found.take(k));
                        assert(more[k] == found[k]);
                        assert(starts_at(board@, more, k, i));
                    }
                }
                lemma_ship_found(board@, ships@, ship);
                assert(ship@.len() > 0) by {
                    reveal(trace_sound);
                }
                assert(ship@[0] == start);
                assert(ship@.contains(start));
                assert forall|q: u8| q <= 99 implies #[trigger] visited@[q as int] == (taken(
                    ships@.push(ship),
                    q,
                ) || Seq::<u8>::empty().contains(q)) by {
                    assert(!Seq::<u8>::empty().contains(q));
                }
            }
            ships.push(ship);
        }
        proof {
            reveal(visited_of);
            assert(!Seq::<u8>::empty().contains(start));
            assert(taken(ships@, start));
            assert forall|j: int| 0 <= j < idx implies taken(ships@, #[trigger] board@[j]) by {
                assert(taken(found, board@[j]));
            }
        }
        idx += 1;
    }
    ships
}

/// How many ships of a size a fleet has: two of one square, two of two, one
/// each of three, four and five, and none of any other size.
pub open spec fn expected_ships(size: int) -> int {
    if size == 1 || size == 2 {
        2
    } else if size == 3 || size == 4 || size == 5 {
        1
    } else {
        0
    }
}

/// How many of the first `n` ships have that size.
pub open spec fn ships_of_size(ships: Seq<Vec<u8>>, size: int, n: int) -> int
    decreases n,
{
    if n <= 0 {
        0
    } else {
        ships_of_size(ships, size, n - 1) + if ships[n - 1]@.len() == size {
            1int
        } else {
            0int
        }
    }
}

/// Whether the ships come in the sizes of a fleet.
pub open spec fn sizes_right(ships: Seq<Vec<u8>>) -> bool {
    forall|size: int| #[trigger] ships_of_size(ships, size, ships.len() as int) == expected_ships(size)
}

/// Whether every ship is a straight unbroken line.
pub open spec fn all_straight(ships: Seq<Vec<u8>>) -> bool {
    forall|k: int| 0 <= k < ships.len() ==> straight((#[trigger] ships[k])@)
}

/// The verdict on ships: their sizes are looked at first, then their shapes,
/// then whether any two touch.
pub open spec fn ships_verdict(ships: Seq<Vec<u8>>) -> Result<(), FleetError> {
    if !sizes_right(ships) {
        Err(FleetError::WrongShips)
    } else if !all_straight(ships) {
        Err(FleetError::BentShip)
    } else if touching(ships) {
        Err(FleetError::TouchingShips)
    } else {
        Ok(())
    }
}

/// The number of ships of a size is none where no ship has the size, and at
/// least one where a ship has it.
pub proof fn lemma_ships_of_size(ships: Seq<Vec<u8>>, size: int, n: int)
    requires
        0 <= n <= ships.len(),
    ensures
        ships_of_size(ships, size, n) >= 0,
        (forall|j: int| 0 <= j < n ==> (#[trigger] ships[j])@.len() != size) ==> ships_of_size(
            ships,
            size,
            n,
        ) == 0,
        (exists|j: int| 0 <= j < n && (#[trigger] ships[j])@.len() == size) ==> ships_of_size(
            ships,
            size,
            n,
        ) >= 1,
    decreases n,
{
    if n > 0 {
        lemma_ships_of_size(ships, size, n - 1);
        if exists|j: int| 0 <= j < n && (#[trigger] ships[j])@.len() == size {
            let j = choose|j: int| 0 <= j < n && (#[trigger] ships[j])@.len() == size;
            if j < n - 1 {
                assert(ships[j]@.len() == size);
            }
        }
    }
}

fn has_fleet_sizes(ships: &Vec<Vec<u8>>) -> (b: bool)
    ensures
        b == sizes_right(ships@),
{
    let mut ones: usize = 0;
    let mut twos: usize = 0;
    let mut threes: usize = 0;
    let mut fours: usize = 0;
    let mut fives: usize = 0;
    let mut i: usize = 0;
    while i < ships.len()
        invariant
            i <= ships@.len(),
            ones == ships_of_size(ships@, 1, i as int),
            twos == ships_of_size(ships@, 2, i as int),
            threes == ships_of_size(ships@, 3, i as int),
            fours == ships_of_size(ships@, 4, i as int),
            fives == ships_of_size(ships@, 5, i as int),
            ones <= i && twos <= i && threes <= i && fours <= i && fives <= i,
            forall|j: int| 0 <= j < i ==> 1 <= (#[trigger] ships@[j])@.len() <= 5,
        decreases ships.len() - i,
    {
        let size: usize = ships[i].len();
        if size == 1 {
            ones += 1;
        } else if size == 2 {
            twos += 1;
        } else if size == 3 {
            threes += 1;
        } else if size == 4 {
            fours += 1;
        } else if size == 5 {
            fives += 1;
        } else {
            proof {
                lemma_ships_of_size(ships@, size as int, ships@.len() as int);
                assert(ships@[i as int]@.len() == size);
            }
            return false;
        }
        i += 1;
    }
    let right: bool = ones == 2 && twos == 2 && threes == 1 && fours == 1 && fives == 1;
    proof {
        if right {
            assert forall|size: int| #[trigger]
                ships_of_size(ships@, size, ships@.len() as int) == expected_ships(size) by {
                lemma_ships_of_size(ships@, size, ships@.len() as int);
            }
        }
    }
    right
}

fn are_all_straight(ships: &Vec<Vec<u8>>) -> (b: bool)
    ensures
        b == all_straight(ships@),
{
    let mut i: usize = 0;
    while i < ships.len()
        invariant
            i <= ships@.len(),
            forall|k: int| 0 <= k < i ==> straight((#[trigger] ships@[k])@),
        decreases ships.len() - i,
    {
        if ships[i].len() > 1 && !is_straight_line(ships[i].as_slice()) {
            return false;
        }
        i += 1;
    }
    true
}

/// Judges ships by their sizes, their shapes and their distance.
pub fn check_ships(ships: &Vec<Vec<u8>>) -> (r: Result<(), FleetError>)
    ensures
        r == ships_verdict(ships@),
{
    if !has_fleet_sizes(ships) {
        return Err(FleetError::WrongShips);
    }
    if !are_all_straight(ships) {
        return Err(FleetError::BentShip);
    }
    if ships_touch_each_other(ships.as_slice()) {
        return Err(FleetError::TouchingShips);
    }
    Ok(())
}

/// Whether no square occurs twice.
pub open spec fn distinct(board: Seq<u8>) -> bool {
    forall|i: int, j: int|
        0 <= i < board.len() && 0 <= j < board.len() && i != j ==> (#[trigger] board[i]) != (
        #[trigger] board[j])
}

/// Whether every square lies on the board.
pub open spec fn on_board(board: Seq<u8>) -> bool {
    forall|i: int| 0 <= i < board.len() ==> (#[trigger] board[i]) <= 99
}

fn is_distinct(board: &Vec<u8>) -> (b: bool)
    ensures
        b == distinct(board@),
{
    let mut i: usize = 0;
    while i < board.len()
        invariant
            i <= board@.len(),
            forall|a: int, b: int|
                0 <= a < i && 0 <= b < board@.len() && a != b ==> (#[trigger] board@[a]) != (
                #[trigger] board@[b]),
        decreases board.len() - i,
    {
        let mut j: usize = 0;
        while j < board.len()
            invariant
                i < board@.len(),
                j <= board@.len(),
                forall|b: int| 0 <= b < j && b != i ==> board@[i as int] != (#[trigger] board@[b]),
            decreases board.len() - j,
        {
            if i != j && board[i] == board[j] {
                return false;
            }
            j += 1;
        }
        i += 1;
    }
    true
}

fn is_on_board(board: &Vec<u8>) -> (b: bool)
    ensures
        b == on_board(board@),
{
    let mut i: usize = 0;
    while i < board.len()
        invariant
            i <= board@.len(),
            forall|a: int| 0 <= a < i ==> (#[trigger] board@[a]) <= 99,
        decreases board.len() - i,
    {
        if board[i] > 99 {
            return false;
        }
        i += 1;
    }
    true
}

/// Whether a result is the verdict on a placement: its number of squares is
/// looked at first, then whether a square occurs twice, then whether one lies
/// off the board; after that the verdict is that on the placement's ships,
/// in whatever order they and their squares are listed.
pub open spec fn is_placement_verdict(board: Seq<u8>, r: Result<(), FleetError>) -> bool {
    if board.len() != FLEET_SQUARES {
        r == Err::<(), FleetError>(FleetError::WrongSquareCount { found: board.len() as usize })
    } else if !distinct(board) {
        r == Err::<(), FleetError>(FleetError::DuplicateSquares)
    } else if !on_board(board) {
        r == Err::<(), FleetError>(FleetError::SquareOffBoard)
    } else {
        &&& exists|ships: Seq<Vec<u8>>| #[trigger] is_fleet(board, ships)
        &&& forall|ships: Seq<Vec<u8>>| #[trigger]
            is_fleet(board, ships) ==> r == ships_verdict(ships)
    }
}

/// A placement has one verdict.
pub proof fn law_placement_verdict_unique(
    board: Seq<u8>,
    r1: Result<(), FleetError>,
    r2: Result<(), FleetError>,
)
    requires
        is_placement_verdict(board, r1),
        is_placement_verdict(board, r2),
    ensures
        r1 == r2,
{
    if board.len() == FLEET_SQUARES && distinct(board) && on_board(board) {
        let ships = choose|ships: Seq<Vec<u8>>| #[trigger] is_fleet(board, ships);
        assert(r1 == ships_verdict(ships));
        assert(r2 == ships_verdict(ships));
    }
}

/// Judges a placement: 18 distinct squares of the board that form two ships
/// of one square, two of two, and one each of three, four and five, all
/// straight and none touching another, be it across a corner.
pub fn validate_fleet_placement(board: &Vec<u8>) -> (r: Result<(), FleetError>)
    ensures
        is_placement_verdict(board@, r),
{
    if board.len() != FLEET_SQUARES {
        return Err(FleetError::WrongSquareCount { found: board.len() });
    }
    if !is_distinct(board) {
        return Err(FleetError::DuplicateSquares);
    }
    if !is_on_board(board) {
        return Err(FleetError::SquareOffBoard);
    }
    let ships: Vec<Vec<u8>> = find_ships(board);
    let r: Result<(), FleetError> = check_ships(&ships);
    proof {
        assert(is_fleet(board@, ships@));
        assert forall|other: Seq<Vec<u8>>| #[trigger] is_fleet(board@, other) implies r
            == ships_verdict(other) by {
            law_verdict_is_determined(board@, ships@, other);
        }
    }
    r
}

impl FleetError {
    /// The complaint in words.
    pub open spec fn message_text(self) -> Seq<char> {
        match self {
            FleetError::WrongSquareCount { found } => "Invalid number of ship squares: expected 18, got "@
                + crate::text::decimal_digits(found as nat),
            FleetError::DuplicateSquares => "Duplicate squares found"@,
            FleetError::SquareOffBoard => "Invalid square coordinates"@,
            FleetError::WrongShips => "Invalid ship configuration"@,
            FleetError::BentShip => "Ships must be straight lines (no L-shapes allowed)"@,
            FleetError::TouchingShips => "Ships cannot touch each other either directly or diagonally"@,
        }
    }

    /// The complaint in words.
    pub fn message(&self) -> (s: String)
        ensures
            s@ == self.message_text(),
    {
        match self {
            FleetError::WrongSquareCount { found } => {
                let mut s: String = String::from_str(
                    "Invalid number of ship squares: expected 18, got ",
                );
                s.append(crate::text::decimal(*found as u64).as_str());
                s
            },
            FleetError::DuplicateSquares => String::from_str("Duplicate squares found"),
            FleetError::SquareOffBoard => String::from_str("Invalid square coordinates"),
            FleetError::WrongShips => String::from_str("Invalid ship configuration"),
            FleetError::BentShip => String::from_str(
                "Ships must be straight lines (no L-shapes allowed)",
            ),
            FleetError::TouchingShips => String::from_str(
                "Ships cannot touch each other either directly or diagonally",
            ),
        }
    }
}

} // verus!
