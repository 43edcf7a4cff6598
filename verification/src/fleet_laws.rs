//! Laws of fleet placement: the ships of a placement are determined up to the
//! order in which they and their squares are listed, and the verdict on them
//! does not depend on that order.

use crate::fleet::{
    adjacent, all_straight, col_of, coord, is_fleet, is_route, lemma_ships_of_size, linked,
    row_of, same_col, same_row, ships_of_size, ships_sound, ships_verdict, sizes_right, straight,
    taken, touches_at, touching, unbroken,
};
use vstd::prelude::*;

verus! {

/// A route leads back the way it came.
pub proof fn lemma_linked_back(board: Seq<u8>, a: u8, b: u8)
    requires
        linked(board, a, b),
    ensures
        linked(board, b, a),
{
    let route = choose|route: Seq<u8>| #[trigger]
        is_route(board, route) && route[0] == a && route.last() == b;
    let n = route.len() as int;
    let back = Seq::new(route.len(), |i: int| route[n - 1 - i]);
    assert forall|i: int| 0 <= i < back.len() implies board.contains(#[trigger] back[i]) by {
        assert(board.contains(route[n - 1 - i]));
    }
    assert forall|i: int| 0 <= i < back.len() - 1 implies adjacent(#[trigger] back[i], back[i + 1]) by {
        assert(adjacent(route[n - 2 - i], route[n - 2 - i + 1]));
    }
    assert(is_route(board, back));
    assert(back[0] == b && back.last() == a);
}

/// Two routes that meet make one.
pub proof fn lemma_linked_on(board: Seq<u8>, a: u8, b: u8, c: u8)
    requires
        linked(board, a, b),
        linked(board, b, c),
    ensures
        linked(board, a, c),
{
    let first = choose|route: Seq<u8>| #[trigger]
        is_route(board, route) && route[0] == a && route.last() == b;
    let second = choose|route: Seq<u8>| #[trigger]
        is_route(board, route) && route[0] == b && route.last() == c;
    let n = first.len() as int;
    let whole = first + second.subrange(1, second.len() as int);
    assert forall|i: int| 0 <= i < whole.len() implies board.contains(#[trigger] whole[i]) by {
        if i < n {
            assert(whole[i] == first[i]);
        } else {
            assert(whole[i] == second[i - n + 1]);
        }
    }
    assert forall|i: int| 0 <= i < whole.len() - 1 implies adjacent(
        #[trigger] whole[i],
        whole[i + 1],
    ) by {
        if i < n - 1 {
            assert(whole[i] == first[i]);
            assert(whole[i + 1] == first[i + 1]);
        } else if i == n - 1 {
            assert(whole[i] == first[i]);
            assert(first[i] == second[0]);
            assert(whole[i + 1] == second[1]);
            assert(adjacent(second[0int], second[0int + 1]));
        } else {
            assert(whole[i] == second[i - n + 1]);
            assert(whole[i + 1] == second[i - n + 1 + 1]);
        }
    }
    assert(is_route(board, whole));
    assert(whole[0] == a);
    if second.len() == 1 {
        assert(whole.last() == first.last());
    } else {
        assert(whole.last() == second.last());
    }
}

/// A route that starts in a ship stays in it.
pub proof fn lemma_route_stays(board: Seq<u8>, ships: Seq<Vec<u8>>, k: int, route: Seq<u8>, n: int)
    requires
        ships_sound(board, ships),
        0 <= k < ships.len(),
        is_route(board, route),
        ships[k]@.contains(route[0]),
        0 <= n < route.len(),
    ensures
        ships[k]@.contains(route[n]),
    decreases n,
{
    if n > 0 {
        lemma_route_stays(board, ships, k, route, n - 1);
        reveal(ships_sound);
        let p = route[n - 1];
        let a = choose|a: int| 0 <= a < ships[k]@.len() && ships[k]@[a] == p;
        assert(adjacent(ships[k]@[a], route[n - 1 + 1]));
        assert(board.contains(route[n]));
    }
}

/// A ship holds every square that is linked to one of its squares.
pub proof fn lemma_ship_holds_linked(board: Seq<u8>, ships: Seq<Vec<u8>>, k: int, p: u8, q: u8)
    requires
        ships_sound(board, ships),
        0 <= k < ships.len(),
        ships[k]@.contains(p),
        linked(board, p, q),
    ensures
        ships[k]@.contains(q),
{
    let route = choose|route: Seq<u8>| #[trigger]
        is_route(board, route) && route[0] == p && route.last() == q;
    lemma_route_stays(board, ships, k, route, route.len() - 1);
}

/// The squares of a ship are linked to one another.
pub proof fn lemma_ship_is_linked(board: Seq<u8>, ships: Seq<Vec<u8>>, k: int, p: u8, q: u8)
    requires
        ships_sound(board, ships),
        0 <= k < ships.len(),
        ships[k]@.contains(p),
        ships[k]@.contains(q),
    ensures
        linked(board, p, q),
{
    reveal(ships_sound);
    let a = choose|a: int| 0 <= a < ships[k]@.len() && ships[k]@[a] == p;
    let b = choose|b: int| 0 <= b < ships[k]@.len() && ships[k]@[b] == q;
    let first = ships[k]@[0];
    assert(linked(board, first, ships[k]@[a]));
    assert(linked(board, first, ships[k]@[b]));
    lemma_linked_back(board, first, p);
    lemma_linked_on(board, p, first, q);
}

/// Whether two lists hold the same squares.
pub open spec fn same_squares(s: Seq<u8>, t: Seq<u8>) -> bool {
    forall|q: u8| s.contains(q) == t.contains(q)
}

/// Whether ship `m` of the one fleet is ship `k` of the other: they hold the
/// same squares, each once.
pub open spec fn same_ship(a: Seq<Vec<u8>>, k: int, b: Seq<Vec<u8>>, m: int) -> bool {
    &&& 0 <= k < a.len()
    &&& 0 <= m < b.len()
    &&& same_squares(a[k]@, b[m]@)
    &&& a[k]@.len() == b[m]@.len()
    &&& a[k]@.len() > 0
    &&& a[k]@.no_duplicates()
    &&& b[m]@.no_duplicates()
}

/// No square occurs twice in a ship of a fleet.
pub proof fn lemma_ship_distinct(board: Seq<u8>, ships: Seq<Vec<u8>>, k: int)
    requires
        ships_sound(board, ships),
        0 <= k < ships.len(),
    ensures
        ships[k]@.no_duplicates(),
        ships[k]@.len() > 0,
{
    reveal(ships_sound);
    assert forall|i: int, j: int|
        0 <= i < ships[k]@.len() && 0 <= j < ships[k]@.len() && i != j implies ships[k]@[i]
        != ships[k]@[j] by {
        if ships[k]@[i] == ships[k]@[j] {
            assert(i == j);
        }
    }
}

/// Every ship of one fleet of a placement is a ship of every other fleet of
/// it.
pub proof fn lemma_partner(board: Seq<u8>, a: Seq<Vec<u8>>, b: Seq<Vec<u8>>, k: int) -> (m: int)
    requires
        is_fleet(board, a),
        is_fleet(board, b),
        0 <= k < a.len(),
    ensures
        same_ship(a, k, b, m),
{
    lemma_ship_distinct(board, a, k);
    let p = a[k]@[0];
    assert(a[k]@.contains(p));
    assert(board.contains(p)) by {
        reveal(ships_sound);
    }
    let i = choose|i: int| 0 <= i < board.len() && board[i] == p;
    assert(taken(b, board[i]));
    let (m, at) = choose|m: int, at: int|
        0 <= m < b.len() && 0 <= at < b[m]@.len() && (#[trigger] b[m]@[at]) == p;
    assert(b[m]@.contains(p));
    lemma_ship_distinct(board, b, m);
    assert forall|q: u8| a[k]@.contains(q) == b[m]@.contains(q) by {
        if a[k]@.contains(q) {
            lemma_ship_is_linked(board, a, k, p, q);
            lemma_ship_holds_linked(board, b, m, p, q);
        }
        if b[m]@.contains(q) {
            lemma_ship_is_linked(board, b, m, p, q);
            lemma_ship_holds_linked(board, a, k, p, q);
        }
    }
    assert(a[k]@.to_set() =~= b[m]@.to_set());
    a[k]@.unique_seq_to_set();
    b[m]@.unique_seq_to_set();
    m
}

/// Every square of a fleet's ships belongs to the placement, and every
/// square of the placement to a ship of each of its fleets.
pub proof fn lemma_taken_alike(board: Seq<u8>, a: Seq<Vec<u8>>, b: Seq<Vec<u8>>, q: u8)
    requires
        is_fleet(board, a),
        is_fleet(board, b),
        taken(a, q),
    ensures
        taken(b, q),
{
    let (k, at) = choose|k: int, at: int|
        0 <= k < a.len() && 0 <= at < a[k]@.len() && (#[trigger] a[k]@[at]) == q;
    assert(board.contains(a[k]@[at])) by {
        reveal(ships_sound);
    }
    let i = choose|i: int| 0 <= i < board.len() && board[i] == q;
    assert(taken(b, board[i]));
}

/// If ships touch in one fleet of a placement, ships touch in every other.
pub proof fn lemma_touching_carries(board: Seq<u8>, a: Seq<Vec<u8>>, b: Seq<Vec<u8>>)
    requires
        is_fleet(board, a),
        is_fleet(board, b),
        touching(a),
    ensures
        touching(b),
{
    let (i, x, q) = choose|i: int, x: int, q: u8| touches_at(a, i, x, q);
    let m = lemma_partner(board, a, b, i);
    let p = a[i]@[x];
    assert(a[i]@.contains(p));
    assert(b[m]@.contains(p));
    let y = choose|y: int| 0 <= y < b[m]@.len() && b[m]@[y] == p;
    lemma_taken_alike(board, a, b, q);
    assert(!b[m]@.contains(q));
    assert(touches_at(b, m, y, q));
}

/// Whether a ship is straight depends on its squares alone, not on the order
/// in which they are listed.
pub proof fn lemma_straight_carries(s: Seq<u8>, t: Seq<u8>)
    requires
        same_squares(s, t),
        s.len() == t.len(),
        s.no_duplicates(),
        t.no_duplicates(),
        straight(s),
    ensures
        straight(t),
{
    if t.len() > 1 {
        assert forall|i: int| 0 <= i < t.len() implies s.contains(#[trigger] t[i]) by {
            assert(t.contains(t[i]));
        }
        assert(s.contains(s[0]));
        assert(t.contains(s[0]));
        let along_row = same_row(s);
        if along_row {
            assert forall|i: int| 0 <= i < t.len() implies row_of(#[trigger] t[i])
                == row_of(t[0]) by {
                let x = choose|x: int| 0 <= x < s.len() && s[x] == t[i];
                let z = choose|z: int| 0 <= z < s.len() && s[z] == t[0];
                assert(row_of(s[x]) == row_of(s[0]));
                assert(row_of(s[z]) == row_of(s[0]));
            }
        } else {
            assert(same_col(s));
            assert forall|i: int| 0 <= i < t.len() implies col_of(#[trigger] t[i])
                == col_of(t[0]) by {
                let x = choose|x: int| 0 <= x < s.len() && s[x] == t[i];
                let z = choose|z: int| 0 <= z < s.len() && s[z] == t[0];
                assert(col_of(s[x]) == col_of(s[0]));
                assert(col_of(s[z]) == col_of(s[0]));
            }
            if same_row(t) {
                assert forall|i: int| 0 <= i < s.len() implies row_of(
                    #[trigger] s[i],
                ) == row_of(s[0]) by {
                    assert(s.contains(s[i]));
                    let x = choose|x: int| 0 <= x < t.len() && t[x] == s[i];
                    let z = choose|z: int| 0 <= z < t.len() && t[z] == s[0];
                    assert(row_of(t[x]) == row_of(t[0]));
                    assert(row_of(t[z]) == row_of(t[0]));
                }
                assert(false);
            }
        }
        assert(unbroken(s, along_row));
        assert forall|i: int, j: int|
            0 <= i < t.len() && 0 <= j < t.len() && i != j implies coord(
            #[trigger] t[i],
            along_row,
        ) != coord(#[trigger] t[j], along_row) by {
            let x = choose|x: int| 0 <= x < s.len() && s[x] == t[i];
            let z = choose|z: int| 0 <= z < s.len() && s[z] == t[j];
            assert(t[i] != t[j]);
            assert(coord(s[x], along_row) != coord(s[z], along_row));
        }
        assert forall|i: int, j: int| 0 <= i < t.len() && 0 <= j < t.len() implies coord(
            #[trigger] t[i],
            along_row,
        ) - coord(#[trigger] t[j], along_row) < t.len() by {
            let x = choose|x: int| 0 <= x < s.len() && s[x] == t[i];
            let z = choose|z: int| 0 <= z < s.len() && s[z] == t[j];
            assert(coord(s[x], along_row) - coord(s[z], along_row) < s.len());
        }
        assert(unbroken(t, along_row));
    }
}

/// If the ships of one fleet of a placement are all straight, so are those
/// of every other.
pub proof fn lemma_all_straight_carries(board: Seq<u8>, a: Seq<Vec<u8>>, b: Seq<Vec<u8>>)
    requires
        is_fleet(board, a),
        is_fleet(board, b),
        all_straight(a),
    ensures
        all_straight(b),
{
    assert forall|m: int| 0 <= m < b.len() implies straight((#[trigger] b[m])@) by {
        let k = lemma_partner(board, b, a, m);
        assert(straight(a[k]@));
        lemma_straight_carries(a[k]@, b[m]@);
    }
}

/// The squares of those of the first `n` ships that have a given size.
pub open spec fn squares_of_size(ships: Seq<Vec<u8>>, size: int, n: int) -> Set<u8>
    decreases n,
{
    if n <= 0 {
        Set::empty()
    } else if ships[n - 1]@.len() == size {
        squares_of_size(ships, size, n - 1).union(ships[n - 1]@.to_set())
    } else {
        squares_of_size(ships, size, n - 1)
    }
}

/// Whether a square belongs to one of the first `n` ships that has a given
/// size.
pub open spec fn in_ship_of_size(ships: Seq<Vec<u8>>, size: int, n: int, q: u8) -> bool {
    exists|k: int| 0 <= k < n && (#[trigger] ships[k])@.len() == size && ships[k]@.contains(q)
}

/// The squares of the ships of a size are those that belong to such a ship.
pub proof fn lemma_squares_member(ships: Seq<Vec<u8>>, size: int, n: int, q: u8)
    requires
        0 <= n <= ships.len(),
    ensures
        squares_of_size(ships, size, n).contains(q) == in_ship_of_size(ships, size, n, q),
    decreases n,
{
    if n > 0 {
        lemma_squares_member(ships, size, n - 1, q);
        if in_ship_of_size(ships, size, n, q) {
            let k = choose|k: int|
                0 <= k < n && (#[trigger] ships[k])@.len() == size && ships[k]@.contains(q);
            if k < n - 1 {
                assert(in_ship_of_size(ships, size, n - 1, q));
            }
        }
        if in_ship_of_size(ships, size, n - 1, q) {
            let k = choose|k: int|
                0 <= k < n - 1 && (#[trigger] ships[k])@.len() == size && ships[k]@.contains(q);
            assert(ships[k]@.len() == size);
        }
        if ships[n - 1]@.len() == size && ships[n - 1]@.contains(q) {
            assert(in_ship_of_size(ships, size, n, q));
        }
    }
}

/// The ships of a size have, between them, as many squares as their number
/// times their size.
pub proof fn lemma_squares_count(board: Seq<u8>, ships: Seq<Vec<u8>>, size: int, n: int)
    requires
        ships_sound(board, ships),
        0 <= n <= ships.len(),
    ensures
        squares_of_size(ships, size, n).finite(),
        squares_of_size(ships, size, n).len() == size * ships_of_size(ships, size, n),
    decreases n,
{
    if n > 0 {
        lemma_squares_count(board, ships, size, n - 1);
        let before = squares_of_size(ships, size, n - 1);
        let count = ships_of_size(ships, size, n - 1);
        if ships[n - 1]@.len() == size {
            let ship = ships[n - 1]@;
            let squares = ship.to_set();
            vstd::seq_lib::seq_to_set_is_finite(ship);
            lemma_ship_distinct(board, ships, n - 1);
            ship.unique_seq_to_set();
            assert(before.disjoint(squares)) by {
                assert forall|q: u8| !(before.contains(q) && squares.contains(q)) by {
                    lemma_squares_member(ships, size, n - 1, q);
                    if in_ship_of_size(ships, size, n - 1, q) && ship.contains(q) {
                        reveal(ships_sound);
                        let k = choose|k: int|
                            0 <= k < n - 1 && (#[trigger] ships[k])@.len() == size
                                && ships[k]@.contains(q);
                        let x = choose|x: int| 0 <= x < ships[k]@.len() && ships[k]@[x] == q;
                        let y = choose|y: int| 0 <= y < ship.len() && ship[y] == q;
                        assert(ships[k]@[x] == ships[n - 1]@[y]);
                        assert(false);
                    }
                }
            }
            vstd::set_lib::lemma_set_disjoint_lens(before, squares);
            vstd::set_lib::lemma_set_union_finite_iff(before, squares);
            assert(before + squares == before.union(squares));
            assert(size * (count + 1) == size * count + size) by (nonlinear_arith);
        }
    } else {
        assert(size * 0 == 0) by (nonlinear_arith);
    }
}

/// Two fleets of a placement have as many ships of each size.
pub proof fn lemma_sizes_carry(board: Seq<u8>, a: Seq<Vec<u8>>, b: Seq<Vec<u8>>, size: int)
    requires
        is_fleet(board, a),
        is_fleet(board, b),
    ensures
        ships_of_size(a, size, a.len() as int) == ships_of_size(b, size, b.len() as int),
{
    let na = a.len() as int;
    let nb = b.len() as int;
    lemma_ships_of_size(a, size, na);
    lemma_ships_of_size(b, size, nb);
    if size <= 0 {
        assert forall|j: int| 0 <= j < na implies (#[trigger] a[j])@.len() != size by {
            lemma_ship_distinct(board, a, j);
        }
        assert forall|j: int| 0 <= j < nb implies (#[trigger] b[j])@.len() != size by {
            lemma_ship_distinct(board, b, j);
        }
    } else {
        let sa = squares_of_size(a, size, na);
        let sb = squares_of_size(b, size, nb);
        assert forall|q: u8| sa.contains(q) == sb.contains(q) by {
            lemma_squares_member(a, size, na, q);
            lemma_squares_member(b, size, nb, q);
            if in_ship_of_size(a, size, na, q) {
                let k = choose|k: int|
                    0 <= k < na && (#[trigger] a[k])@.len() == size && a[k]@.contains(q);
                let m = lemma_partner(board, a, b, k);
                assert(b[m]@.len() == size && b[m]@.contains(q));
            }
            if in_ship_of_size(b, size, nb, q) {
                let m = choose|m: int|
                    0 <= m < nb && (#[trigger] b[m])@.len() == size && b[m]@.contains(q);
                let k = lemma_partner(board, b, a, m);
                assert(a[k]@.len() == size && a[k]@.contains(q));
            }
        }
        assert(sa =~= sb);
        lemma_squares_count(board, a, size, na);
        lemma_squares_count(board, b, size, nb);
        let ca = ships_of_size(a, size, na);
        let cb = ships_of_size(b, size, nb);
        assert(size * ca == size * cb);
        assert(ca == cb) by (nonlinear_arith)
            requires
                size > 0,
                size * ca == size * cb,
        ;
    }
}

/// The verdict on the ships of a placement is the same for every fleet of
/// the placement: it depends neither on the order of the ships nor on the
/// order of the squares within a ship.
pub proof fn law_verdict_is_determined(board: Seq<u8>, a: Seq<Vec<u8>>, b: Seq<Vec<u8>>)
    requires
        is_fleet(board, a),
        is_fleet(board, b),
    ensures
        ships_verdict(a) == ships_verdict(b),
{
    assert(sizes_right(a) == sizes_right(b)) by {
        assert forall|size: int|
            ships_of_size(a, size, a.len() as int) == ships_of_size(b, size, b.len() as int) by {
            lemma_sizes_carry(board, a, b, size);
        }
    }
    if all_straight(a) {
        lemma_all_straight_carries(board, a, b);
    }
    if all_straight(b) {
        lemma_all_straight_carries(board, b, a);
    }
    if touching(a) {
        lemma_touching_carries(board, a, b);
    }
    if touching(b) {
        lemma_touching_carries(board, b, a);
    }
}

} // verus!
