//! Board geometry of Achi: sides, phases, the nine positions, the victory
//! alignments and the adjacency that the alignments induce.
use vstd::prelude::*;

use crate::error::DomainError;

verus! {

/// Number of tokens owned by each player.
pub const TOKEN_COUNT_PER_PLAYER: usize = 4;

/// Number of legal token positions on the grid.
pub const BOARD_POSITION_COUNT: u8 = 9;

/// Number of winning three-position alignments on the grid.
pub const VICTORY_ALIGNMENT_COUNT: usize = 8;

/// The side assigned to a player.
#[derive(Clone, Copy, Debug, PartialEq, Eq, Structural)]
pub enum PlayerSide {
    /// The red player side.
    Red,
    /// The black player side.
    Black,
}

impl PlayerSide {
    /// The other side.
    pub open spec fn opposite(self) -> PlayerSide {
        match self {
            PlayerSide::Red => PlayerSide::Black,
            PlayerSide::Black => PlayerSide::Red,
        }
    }

    /// Returns the other side.
    pub(crate) fn opponent(self) -> (other: Self)
        ensures
            other == self.opposite(),
    {
        match self {
            PlayerSide::Red => PlayerSide::Black,
            PlayerSide::Black => PlayerSide::Red,
        }
    }
}

/// The current rule phase for a grid.
#[derive(Clone, Copy, Debug, PartialEq, Eq, Structural)]
pub enum BoardPhase {
    /// Tokens are being placed onto empty grid positions.
    Placement,
    /// Existing tokens are being moved between adjacent positions.
    Movement,
}

/// A validated position on the nine-position Achi grid.
#[derive(Clone, Copy, Debug, PartialEq, Eq, Structural, Hash)]
pub struct TokenPosition(u8);

impl TokenPosition {
    /// Every position lies on the grid.
    #[verifier::type_invariant]
    spec fn on_grid(self) -> bool {
        self.0 < BOARD_POSITION_COUNT
    }

    /// Returns the scalar position value.
    pub fn value(self) -> (v: u8)
        ensures
            v == self@,
            v < BOARD_POSITION_COUNT,
    {
        proof {
            use_type_invariant(&self);
        }
        self.0
    }

    /// Validates a scalar position: it must lie in `0..9`.
    pub fn try_from(value: u8) -> (r: Result<Self, DomainError>)
        ensures
            value < BOARD_POSITION_COUNT ==> (r matches Ok(p) && p@ == value),
            value >= BOARD_POSITION_COUNT ==> r == Err::<Self, DomainError>(
                DomainError::InvalidTokenPosition,
            ),
    {
        if value < BOARD_POSITION_COUNT {
            Ok(TokenPosition(value))
        } else {
            Err(DomainError::InvalidTokenPosition)
        }
    }
}

impl View for TokenPosition {
    type V = int;

    closed spec fn view(&self) -> int {
        self.0 as int
    }
}

/// A player-owned token with an optional grid position.
#[derive(Clone, Debug)]
pub struct Token {
    position: Option<TokenPosition>,
}

/// The position value of an optional position.
pub open spec fn position_model(p: Option<TokenPosition>) -> Option<int> {
    match p {
        Some(q) => Some(q@),
        None => None,
    }
}

/// An optional `u8` and an optional position denote the same place.
pub open spec fn same_position(o: Option<u8>, m: Option<int>) -> bool {
    match (o, m) {
        (Some(v), Some(p)) => v as int == p,
        (None, None) => true,
        _ => false,
    }
}

impl View for Token {
    type V = Option<int>;

    closed spec fn view(&self) -> Option<int> {
        position_model(self.position)
    }
}

impl Token {
    /// A token that has not been placed yet.
    pub(crate) fn new() -> (t: Self)
        ensures
            t@ == None::<int>,
    {
        Token { position: None }
    }

    /// A token placed at `position`.
    pub(crate) fn at(position: TokenPosition) -> (t: Self)
        ensures
            t@ == Some(position@),
        no_unwind
    {
        Token { position: Some(position) }
    }

    /// A token with the same position as this one.
    pub(crate) fn duplicate(&self) -> (t: Self)
        ensures
            t@ == self@,
    {
        Token { position: self.position }
    }

    /// Whether this token stands at `position`.
    pub(crate) fn stands_at(&self, position: TokenPosition) -> (at: bool)
        ensures
            at == (self@ == Some(position@)),
    {
        match self.position {
            Some(p) => p.value() == position.value(),
            None => false,
        }
    }

    /// The position of this token, when set.
    pub(crate) fn current(&self) -> (p: Option<TokenPosition>)
        ensures
            position_model(p) == self@,
    {
        self.position
    }

    /// Returns true when this token has been placed onto the grid.
    pub fn is_position_set(&self) -> (set: bool)
        ensures
            set == self@ is Some,
    {
        self.position.is_some()
    }

    /// Returns the token's current grid position value, when set.
    pub fn position_value(&self) -> (v: Option<u8>)
        ensures
            same_position(v, self@),
            v matches Some(x) ==> x < BOARD_POSITION_COUNT,
    {
        match self.position {
            Some(p) => Some(p.value()),
            None => None,
        }
    }

    /// Same as [`Token::is_position_set`], under its script name.
    pub fn is_position_set_js(&self) -> (set: bool)
        ensures
            set == self@ is Some,
    {
        self.is_position_set()
    }

    /// Same as [`Token::position_value`], under its script name.
    pub fn position_js(&self) -> (v: Option<u8>)
        ensures
            same_position(v, self@),
            v matches Some(x) ==> x < BOARD_POSITION_COUNT,
    {
        self.position_value()
    }
}

/// The eight winning alignments of the board: three rows, three columns,
/// two diagonals, positions numbered row by row.
pub open spec fn standard_alignments() -> Seq<(int, int, int)> {
    seq![(0, 1, 2), (3, 4, 5), (6, 7, 8), (0, 3, 6), (1, 4, 7), (2, 5, 8), (0, 4, 8), (2, 4, 6)]
}

/// The alignments held in a vector, as triples of position values.
pub open spec fn alignments_model(v: Seq<[TokenPosition; 3]>) -> Seq<(int, int, int)> {
    v.map_values(|a: [TokenPosition; 3]| (a@[0]@, a@[1]@, a@[2]@))
}

/// The position pairs held in a vector, as pairs of position values.
pub open spec fn pairs_model(v: Seq<(TokenPosition, TokenPosition)>) -> Seq<(int, int)> {
    v.map_values(|p: (TokenPosition, TokenPosition)| (p.0@, p.1@))
}

/// Whether the pair list `edges` joins `a` and `b`, in either direction.
pub open spec fn adjacent_in(edges: Seq<(int, int)>, a: int, b: int) -> bool {
    exists|x: int| 0 <= x < edges.len() && (edges[x] == (a, b) || edges[x] == (b, a))
}

/// Whether `(a, b)` is a step of the alignment `t`: its first and second
/// position, or its second and third, in that order.
pub open spec fn step_of(t: (int, int, int), a: int, b: int) -> bool {
    (a, b) == (t.0, t.1) || (a, b) == (t.1, t.2)
}

/// Whether the pairs `p` and `q` join the same two positions.
pub open spec fn same_edge(p: (int, int), q: (int, int)) -> bool {
    p == q || p == (q.1, q.0)
}

/// The steps of the alignments, numbered in order: step `2k` of `als` is the
/// first and second position of alignment `k`, step `2k + 1` its second and
/// third.
pub open spec fn step_at(als: Seq<(int, int, int)>, j: int) -> (int, int) {
    if j % 2 == 0 {
        (als[j / 2].0, als[j / 2].1)
    } else {
        (als[j / 2].1, als[j / 2].2)
    }
}

/// Step `j` is `p`, and no earlier step joins the same two positions.
pub open spec fn first_step(als: Seq<(int, int, int)>, p: (int, int), j: int) -> bool {
    &&& 0 <= j
    &&& step_at(als, j) == p
    &&& forall|i: int| 0 <= i < j ==> !same_edge(#[trigger] step_at(als, i), p)
}

/// `p` is the first step of its two positions, and that step comes before
/// step `n`.
pub open spec fn first_step_before(als: Seq<(int, int, int)>, p: (int, int), n: int) -> bool {
    exists|j: int| j < n && #[trigger] first_step(als, p, j)
}

/// The number of the step of which `p` is the first step of its positions.
pub open spec fn first_step_number(als: Seq<(int, int, int)>, p: (int, int)) -> int {
    choose|j: int| first_step(als, p, j)
}

/// `edges` is the adjacency of the first `n` steps of `als`: it holds, in
/// the order of the steps, the first step of each two positions that those
/// steps join.
pub open spec fn edges_of_steps(edges: Seq<(int, int)>, als: Seq<(int, int, int)>, n: int) -> bool {
    &&& forall|x: int| 0 <= x < edges.len() ==> first_step_before(als, #[trigger] edges[x], n)
    &&& forall|j: int|
        0 <= j < n ==> adjacent_in(edges, #[trigger] step_at(als, j).0, step_at(als, j).1)
    &&& forall|x: int, y: int|
        0 <= x < y < edges.len() ==> first_step_number(als, #[trigger] edges[x]) < first_step_number(
            als,
            #[trigger] edges[y],
        )
}

/// `edges` is the adjacency induced by the alignments `als`: in the order
/// of the steps, the first step of each two positions that some alignment
/// has as consecutive positions.
pub open spec fn edges_of(edges: Seq<(int, int)>, als: Seq<(int, int, int)>) -> bool {
    edges_of_steps(edges, als, 2 * als.len() as int)
}

/// `edges` with the pair `p` added, unless it already joins `p`'s positions.
pub open spec fn with_edge(edges: Seq<(int, int)>, p: (int, int)) -> Seq<(int, int)> {
    if adjacent_in(edges, p.0, p.1) {
        edges
    } else {
        edges.push(p)
    }
}

/// A pair is the first step of its positions at one step number only.
pub proof fn first_step_is_unique(als: Seq<(int, int, int)>, p: (int, int), j: int)
    requires
        first_step(als, p, j),
    ensures
        first_step_number(als, p) == j,
{
    let k = first_step_number(als, p);
    assert(first_step(als, p, k));
    if k < j {
        assert(!same_edge(step_at(als, k), p));
    } else if j < k {
        assert(!same_edge(step_at(als, j), p));
    }
}

/// Adding step `j` to the adjacency of the steps before it gives the
/// adjacency of the steps up to it.
proof fn adding_a_step(e: Seq<(int, int)>, als: Seq<(int, int, int)>, j: int)
    requires
        0 <= j,
        edges_of_steps(e, als, j),
    ensures
        edges_of_steps(with_edge(e, step_at(als, j)), als, j + 1),
{
    let p = step_at(als, j);
    let e2 = with_edge(e, p);
    assert forall|x: int| 0 <= x < e.len() implies first_step_before(als, #[trigger] e[x], j + 1)
        && first_step_number(als, e[x]) < j by {
        assert(first_step_before(als, e[x], j));
        let jx = choose|jx: int| jx < j && #[trigger] first_step(als, e[x], jx);
        first_step_is_unique(als, e[x], jx);
    }
    if adjacent_in(e, p.0, p.1) {
        assert(e2 == e);
    } else {
        assert(e2 == e.push(p));
        assert forall|i: int| 0 <= i < j implies !same_edge(#[trigger] step_at(als, i), p) by {
            assert(adjacent_in(e, step_at(als, i).0, step_at(als, i).1));
            if same_edge(step_at(als, i), p) {
                let x = choose|x: int|
                    0 <= x < e.len() && (e[x] == (step_at(als, i).0, step_at(als, i).1) || e[x] == (
                        step_at(als, i).1,
                        step_at(als, i).0,
                    ));
                assert(e[x] == (p.0, p.1) || e[x] == (p.1, p.0));
            }
        }
        assert(first_step(als, p, j));
        first_step_is_unique(als, p, j);
        assert(e2[e.len() as int] == p);
        assert forall|x: int| 0 <= x < e2.len() implies first_step_before(als, #[trigger] e2[x], j + 1) by {
            if x < e.len() {
                assert(e2[x] == e[x]);
            }
        }
        assert forall|i: int| 0 <= i < j + 1 implies adjacent_in(e2, #[trigger] step_at(als, i).0, step_at(als, i).1) by {
            if i < j {
                let x = choose|x: int|
                    0 <= x < e.len() && (e[x] == (step_at(als, i).0, step_at(als, i).1) || e[x] == (
                        step_at(als, i).1,
                        step_at(als, i).0,
                    ));
                assert(e2[x] == e[x]);
            } else {
                assert(e2[e.len() as int] == p);
            }
        }
        assert forall|x: int, y: int| 0 <= x < y < e2.len() implies first_step_number(als, #[trigger] e2[x])
            < first_step_number(als, #[trigger] e2[y]) by {
            assert(e2[x] == e[x]);
            if y < e.len() {
                assert(e2[y] == e[y]);
            }
        }
    }
}

/// The positions of the board, as values: `0..9` in order.
pub open spec fn standard_positions() -> Seq<int> {
    Seq::new(BOARD_POSITION_COUNT as nat, |i: int| i)
}

/// The positions held in a vector, as values.
pub open spec fn positions_model(v: Seq<TokenPosition>) -> Seq<int> {
    v.map_values(|p: TokenPosition| p@)
}

/// Every position of the board, in order.
pub fn all_positions() -> (r: Vec<TokenPosition>)
    ensures
        positions_model(r@) == standard_positions(),
{
    let mut r: Vec<TokenPosition> = Vec::new();
    let mut v: u8 = 0;
    while v < BOARD_POSITION_COUNT
        invariant
            v <= BOARD_POSITION_COUNT,
            r@.len() == v,
            forall|j: int| 0 <= j < v ==> r@[j]@ == j,
        decreases BOARD_POSITION_COUNT - v,
    {
        r.push(TokenPosition(v));
        v = v + 1;
    }
    assert(positions_model(r@) =~= standard_positions());
    r
}

/// Builds an alignment from three on-grid values.
fn alignment(a: u8, b: u8, c: u8) -> (r: [TokenPosition; 3])
    requires
        a < BOARD_POSITION_COUNT,
        b < BOARD_POSITION_COUNT,
        c < BOARD_POSITION_COUNT,
    ensures
        r@[0]@ == a,
        r@[1]@ == b,
        r@[2]@ == c,
{
    let r = [TokenPosition(a), TokenPosition(b), TokenPosition(c)];
    r
}

/// The eight winning alignments of the board.
pub fn victory_alignments() -> (r: Vec<[TokenPosition; 3]>)
    ensures
        alignments_model(r@) == standard_alignments(),
{
    let mut r: Vec<[TokenPosition; 3]> = Vec::new();
    r.push(alignment(0, 1, 2));
    r.push(alignment(3, 4, 5));
    r.push(alignment(6, 7, 8));
    r.push(alignment(0, 3, 6));
    r.push(alignment(1, 4, 7));
    r.push(alignment(2, 5, 8));
    r.push(alignment(0, 4, 8));
    r.push(alignment(2, 4, 6));
    assert(alignments_model(r@) =~= standard_alignments());
    r
}

/// Whether `pairs` joins `a` and `b`, in either direction.
fn joins(pairs: &Vec<(TokenPosition, TokenPosition)>, a: TokenPosition, b: TokenPosition) -> (found: bool)
    ensures
        found == adjacent_in(pairs_model(pairs@), a@, b@),
{
    let n = pairs.len();
    for i in 0..n
        invariant
            n == pairs@.len(),
            forall|j: int|
                0 <= j < i ==> pairs_model(pairs@)[j] != (a@, b@) && pairs_model(pairs@)[j] != (
                    b@,
                    a@,
                ),
    {
        let (x, y) = pairs[i];
        if (x.value() == a.value() && y.value() == b.value()) || (x.value() == b.value()
            && y.value() == a.value()) {
            assert(pairs_model(pairs@)[i as int] == (x@, y@));
            return true;
        }
    }
    false
}

/// Appends the pair `(a, b)` unless `pairs` already joins `a` and `b`.
fn push_edge(pairs: &mut Vec<(TokenPosition, TokenPosition)>, a: TokenPosition, b: TokenPosition)
    ensures
        pairs_model(final(pairs)@) == with_edge(pairs_model(old(pairs)@), (a@, b@)),
{
    if !joins(pairs, a, b) {
        pairs.push((a, b));
        assert(pairs_model(pairs@) =~= pairs_model(old(pairs)@).push((a@, b@)));
    }
}

/// The adjacent position pairs induced by the alignments: in the order of
/// the steps of the alignments, the first step of each two positions that
/// some alignment has as consecutive positions.
pub fn adjacents_from_alignments(alignments: &[[TokenPosition; 3]]) -> (r: Vec<(TokenPosition, TokenPosition)>)
    ensures
        edges_of(pairs_model(r@), alignments_model(alignments@)),
{
    let ghost m = alignments_model(alignments@);
    let mut adjacents: Vec<(TokenPosition, TokenPosition)> = Vec::new();
    let n = alignments.len();
    for i in 0..n
        invariant
            n == alignments@.len(),
            m == alignments_model(alignments@),
            edges_of_steps(pairs_model(adjacents@), m, 2 * i),
    {
        let al = alignments[i];
        let ghost e0 = pairs_model(adjacents@);
        assert(m[i as int] == (al@[0]@, al@[1]@, al@[2]@));
        assert(step_at(m, 2 * i) == (al@[0]@, al@[1]@));
        assert(step_at(m, 2 * i + 1) == (al@[1]@, al@[2]@));
        push_edge(&mut adjacents, al[0], al[1]);
        proof {
            adding_a_step(e0, m, 2 * i);
        }
        let ghost e1 = pairs_model(adjacents@);
        push_edge(&mut adjacents, al[1], al[2]);
        proof {
            adding_a_step(e1, m, 2 * i + 1);
        }
    }
    adjacents
}

} // verus!
