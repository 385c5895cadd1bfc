//! Properties of the engine that span its operations.
use vstd::prelude::*;

use crate::board::{
    adjacent_in, edges_of, first_step, first_step_before, first_step_is_unique, same_edge, step_at,
    standard_alignments, step_of, BoardPhase, PlayerSide, BOARD_POSITION_COUNT,
    TOKEN_COUNT_PER_PLAYER, VICTORY_ALIGNMENT_COUNT,
};
use crate::error::DomainError;
use crate::grid::{
    winner_code, aligned, board_consistent, history_explains, initial_grid, recorded_position, records_numbered,
    side_to_play, turns_alternate, GridModel, Victory,
};
use crate::player::{
    all_set, following_identity, fresh_tokens, identity_after, is_white_space, label_valid,
    occupied, PlayerModel, MAX_LABEL_CHARS,
};

verus! {

/// Whether `(a, b)` joins two consecutive positions of the alignment `t`,
/// in either direction.
pub open spec fn consecutive_in(t: (int, int, int), a: int, b: int) -> bool {
    step_of(t, a, b) || step_of(t, b, a)
}

/// Adjacency is symmetric: `a` is adjacent to `b` exactly when `b` is
/// adjacent to `a`.
pub proof fn adjacency_is_symmetric(g: GridModel, a: int, b: int)
    ensures
        g.adjacent(a, b) == g.adjacent(b, a),
{
    if g.adjacent(a, b) {
        let k = choose|k: int| 0 <= k < g.adjacents.len() && (g.adjacents[k] == (a, b) || g.adjacents[k] == (b, a));
        assert(g.adjacents[k] == (b, a) || g.adjacents[k] == (a, b));
    }
    if g.adjacent(b, a) {
        let k = choose|k: int| 0 <= k < g.adjacents.len() && (g.adjacents[k] == (b, a) || g.adjacents[k] == (a, b));
        assert(g.adjacents[k] == (a, b) || g.adjacents[k] == (b, a));
    }
}

/// The adjacency induced by a list of alignments joins two positions
/// exactly when they are consecutive in one of the alignments.
pub proof fn induced_adjacency_is_consecutiveness(edges: Seq<(int, int)>, als: Seq<(int, int, int)>, a: int, b: int)
    requires
        edges_of(edges, als),
    ensures
        adjacent_in(edges, a, b) <==> exists|k: int|
            0 <= k < als.len() && consecutive_in(#[trigger] als[k], a, b),
{
    if adjacent_in(edges, a, b) {
        let x = choose|x: int| 0 <= x < edges.len() && (edges[x] == (a, b) || edges[x] == (b, a));
        assert(first_step_before(als, edges[x], 2 * als.len() as int));
        let j = choose|j: int| j < 2 * als.len() as int && #[trigger] first_step(als, edges[x], j);
        let k = j / 2;
        assert(step_at(als, j) == edges[x]);
        assert(consecutive_in(als[k], a, b));
    }
    if exists|k: int| 0 <= k < als.len() && consecutive_in(#[trigger] als[k], a, b) {
        let k = choose|k: int| 0 <= k < als.len() && consecutive_in(#[trigger] als[k], a, b);
        assert(step_at(als, 2 * k) == (als[k].0, als[k].1));
        assert(step_at(als, 2 * k + 1) == (als[k].1, als[k].2));
        assert(adjacent_in(edges, step_at(als, 2 * k).0, step_at(als, 2 * k).1));
        assert(adjacent_in(edges, step_at(als, 2 * k + 1).0, step_at(als, 2 * k + 1).1));
        if (a, b) == (als[k].0, als[k].1) || (b, a) == (als[k].0, als[k].1) {
            let x = choose|x: int| 0 <= x < edges.len() && (edges[x] == (als[k].0, als[k].1) || edges[x] == (als[k].1, als[k].0));
            assert(edges[x] == (a, b) || edges[x] == (b, a));
        } else {
            let x = choose|x: int| 0 <= x < edges.len() && (edges[x] == (als[k].1, als[k].2) || edges[x] == (als[k].2, als[k].1));
            assert(edges[x] == (a, b) || edges[x] == (b, a));
        }
    }
}

/// The adjacency induced by a list of alignments holds each two joined
/// positions once: no two of its pairs join the same positions.
pub proof fn induced_adjacency_joins_each_pair_once(edges: Seq<(int, int)>, als: Seq<(int, int, int)>, x: int, y: int)
    requires
        edges_of(edges, als),
        0 <= x < y < edges.len(),
    ensures
        !same_edge(edges[x], edges[y]),
{
    assert(first_step_before(als, edges[x], 2 * als.len() as int));
    assert(first_step_before(als, edges[y], 2 * als.len() as int));
    let jx = choose|j: int| j < 2 * als.len() as int && #[trigger] first_step(als, edges[x], j);
    let jy = choose|j: int| j < 2 * als.len() as int && #[trigger] first_step(als, edges[y], j);
    first_step_is_unique(als, edges[x], jx);
    first_step_is_unique(als, edges[y], jy);
    assert(jx < jy);
    if same_edge(edges[x], edges[y]) {
        assert(step_at(als, jx) == edges[x]);
        assert(same_edge(step_at(als, jx), edges[y]));
    }
}

/// On every grid, two positions are adjacent exactly when they are
/// consecutive in one of the eight victory alignments.
pub proof fn adjacency_follows_alignments(g: GridModel, a: int, b: int)
    requires
        g.shaped(),
    ensures
        g.adjacent(a, b) <==> exists|k: int|
            0 <= k < g.alignments.len() && consecutive_in(#[trigger] g.alignments[k], a, b),
{
    induced_adjacency_is_consecutiveness(g.adjacents, g.alignments, a, b);
}

/// Setting a token of `side` to a free position of the board keeps the
/// board consistent.
proof fn setting_free_position_keeps_consistency(g: GridModel, side: PlayerSide, token_index: usize, position: int, mode: BoardPhase)
    requires
        board_consistent(g),
        g.occupant(position) is None,
        token_index < g.player(side).tokens.len(),
        0 <= position < BOARD_POSITION_COUNT,
    ensures
        board_consistent(g.after_turn(side, token_index, position, mode)),
{
    let h = g.after_turn(side, token_index, position, mode);
    let ti = token_index as int;
    assert(!occupied(g.red.tokens, position));
    assert(!occupied(g.black.tokens, position));
    match side {
        PlayerSide::Red => {
            let old_t = g.red.tokens;
            let new_t = h.red.tokens;
            assert(h.black == g.black);
            assert forall|i: int, j: int|
                0 <= i < new_t.len() && 0 <= j < new_t.len() && i != j && #[trigger] new_t[i] is Some
                implies new_t[i] != #[trigger] new_t[j] by {
                if i == ti {
                    assert(old_t[j] != Some(position));
                } else if j == ti {
                    assert(old_t[i] != Some(position));
                }
            }
            assert forall|i: int, j: int|
                0 <= i < new_t.len() && 0 <= j < h.black.tokens.len() && #[trigger] new_t[i] is Some
                implies new_t[i] != #[trigger] h.black.tokens[j] by {
                if i == ti {
                    assert(g.black.tokens[j] != Some(position));
                }
            }
        },
        PlayerSide::Black => {
            let old_t = g.black.tokens;
            let new_t = h.black.tokens;
            assert(h.red == g.red);
            assert forall|i: int, j: int|
                0 <= i < new_t.len() && 0 <= j < new_t.len() && i != j && #[trigger] new_t[i] is Some
                implies new_t[i] != #[trigger] new_t[j] by {
                if i == ti {
                    assert(old_t[j] != Some(position));
                } else if j == ti {
                    assert(old_t[i] != Some(position));
                }
            }
            assert forall|i: int, j: int|
                0 <= i < h.red.tokens.len() && 0 <= j < new_t.len() && #[trigger] h.red.tokens[i] is Some
                implies h.red.tokens[i] != #[trigger] new_t[j] by {
                if j == ti {
                    assert(g.red.tokens[i] != Some(position));
                }
            }
        },
    }
}

/// A started game has the nine positions `0..9` in order and the eight
/// victory alignments, whatever its players.
pub proof fn start_grid_has_full_board(red: PlayerModel, black: PlayerModel, adjacents: Seq<(int, int)>)
    ensures
        initial_grid(red, black, adjacents).positions.len() == BOARD_POSITION_COUNT,
        forall|i: int|
            0 <= i < BOARD_POSITION_COUNT ==> #[trigger] initial_grid(red, black, adjacents).positions[i] == i,
        initial_grid(red, black, adjacents).alignments.len() == VICTORY_ALIGNMENT_COUNT,
{
}

/// A game started by two newly defined players of distinct identities is
/// well formed once its adjacency is the one its alignments induce.
pub proof fn start_is_well_formed(red: PlayerModel, black: PlayerModel, adjacents: Seq<(int, int)>)
    requires
        red.tokens == fresh_tokens(),
        black.tokens == fresh_tokens(),
        red.id != black.id,
        edges_of(adjacents, crate::board::standard_alignments()),
    ensures
        initial_grid(red, black, adjacents).well_formed(),
{
    let g = initial_grid(red, black, adjacents);
    assert forall|i: int| 0 <= i < g.red.tokens.len() implies #[trigger] g.red.tokens[i]
        == recorded_position(g.placements, PlayerSide::Red, i) by {}
    assert forall|i: int| 0 <= i < g.black.tokens.len() implies #[trigger] g.black.tokens[i]
        == recorded_position(g.placements, PlayerSide::Black, i) by {}
}

/// A turn keeps the shape of a grid: the geometry, four tokens per player
/// and the identities are untouched.
pub proof fn turn_keeps_shape(g: GridModel, side: PlayerSide, token_index: usize, position: int, mode: BoardPhase)
    requires
        g.shaped(),
        token_index < g.player(side).tokens.len(),
    ensures
        g.after_turn(side, token_index, position, mode).shaped(),
{
    turn_changes_only_the_set_token(g, side, token_index, position, mode);
    match side {
        PlayerSide::Red => {},
        PlayerSide::Black => {},
    }
}

/// Whatever its side, token and position, a turn keeps the history
/// explaining the board: the token it sets stands where its new record
/// puts it, and every other token where its last record put it.
pub proof fn turn_keeps_history(g: GridModel, side: PlayerSide, token_index: usize, position: int, mode: BoardPhase)
    requires
        history_explains(g),
        token_index < g.player(side).tokens.len(),
    ensures
        history_explains(g.after_turn(side, token_index, position, mode)),
{
    let h = g.after_turn(side, token_index, position, mode);
    let rec = g.next_placement(side, token_index, position, mode);
    turn_changes_only_the_set_token(g, side, token_index, position, mode);
    assert(h.placements == g.placements.push(rec));
    assert(h.placements.drop_last() =~= g.placements);
    assert(h.placements.last() == rec);
    assert forall|i: int| 0 <= i < h.red.tokens.len() implies #[trigger] h.red.tokens[i]
        == recorded_position(h.placements, PlayerSide::Red, i) by {
        assert(g.red.tokens[i] == recorded_position(g.placements, PlayerSide::Red, i));
        if side == PlayerSide::Red && i == token_index {
        } else {
            assert(h.red.tokens[i] == g.red.tokens[i]);
        }
    }
    assert forall|i: int| 0 <= i < h.black.tokens.len() implies #[trigger] h.black.tokens[i]
        == recorded_position(h.placements, PlayerSide::Black, i) by {
        assert(g.black.tokens[i] == recorded_position(g.placements, PlayerSide::Black, i));
        if side == PlayerSide::Black && i == token_index {
        } else {
            assert(h.black.tokens[i] == g.black.tokens[i]);
        }
    }
}

/// A turn keeps the records numbered in order: the new record carries the
/// number of earlier records modulo 256.
pub proof fn turn_keeps_numbering(g: GridModel, side: PlayerSide, token_index: usize, position: int, mode: BoardPhase)
    requires
        records_numbered(g),
    ensures
        records_numbered(g.after_turn(side, token_index, position, mode)),
{
    let h = g.after_turn(side, token_index, position, mode);
    assert(h.placements == g.placements.push(g.next_placement(side, token_index, position, mode)));
    assert forall|k: int| 0 <= k < h.placements.len() implies #[trigger] h.placements[k].turn == (k % 256) as u8 by {
        if k < g.placements.len() {
            assert(h.placements[k] == g.placements[k]);
        }
    }
}

/// A turn of the side to play keeps turns alternating, red first: its
/// record is made by the side to play after the earlier records, and the
/// other side is to play next.
pub proof fn turn_of_side_to_play_keeps_alternation(g: GridModel, side: PlayerSide, token_index: usize, position: int, mode: BoardPhase)
    requires
        turns_alternate(g),
        side == g.active_player,
    ensures
        turns_alternate(g.after_turn(side, token_index, position, mode)),
{
    let h = g.after_turn(side, token_index, position, mode);
    assert(h.placements == g.placements.push(g.next_placement(side, token_index, position, mode)));
    assert forall|k: int| 0 <= k < h.placements.len() implies #[trigger] h.placements[k].player_side
        == side_to_play(k as nat) by {
        if k < g.placements.len() {
            assert(h.placements[k] == g.placements[k]);
        }
    }
}

/// A turn of the side to play that sets a token to a free position of the
/// board keeps a grid well formed.
proof fn free_turn_keeps_well_formed(g: GridModel, side: PlayerSide, token_index: usize, position: int, mode: BoardPhase)
    requires
        g.well_formed(),
        side == g.active_player,
        g.occupant(position) is None,
        token_index < g.player(side).tokens.len(),
        0 <= position < BOARD_POSITION_COUNT,
    ensures
        g.after_turn(side, token_index, position, mode).well_formed(),
{
    turn_keeps_shape(g, side, token_index, position, mode);
    setting_free_position_keeps_consistency(g, side, token_index, position, mode);
    turn_keeps_history(g, side, token_index, position, mode);
    turn_keeps_numbering(g, side, token_index, position, mode);
    turn_of_side_to_play_keeps_alternation(g, side, token_index, position, mode);
}

/// An accepted placement keeps a grid well formed: the board stays
/// consistent, turns keep alternating and the history still explains the
/// board.
pub proof fn placement_keeps_well_formed(g: GridModel, player: PlayerModel, token_index: usize, position: u8, side: PlayerSide)
    requires
        g.well_formed(),
        g.place_outcome(player, token_index, position) == Ok::<PlayerSide, DomainError>(side),
    ensures
        g.after_turn(side, token_index, position as int, BoardPhase::Placement).well_formed(),
{
    free_turn_keeps_well_formed(g, side, token_index, position as int, BoardPhase::Placement);
}

/// An accepted move keeps a grid well formed: the board stays consistent,
/// turns keep alternating and the history still explains the board.
pub proof fn movement_keeps_well_formed(g: GridModel, player: PlayerModel, token_index: usize, position: u8, side: PlayerSide)
    requires
        g.well_formed(),
        g.move_outcome(player, token_index, position) == Ok::<PlayerSide, DomainError>(side),
    ensures
        g.after_turn(side, token_index, position as int, BoardPhase::Movement).well_formed(),
{
    free_turn_keeps_well_formed(g, side, token_index, position as int, BoardPhase::Movement);
}

/// A phase change keeps a grid well formed.
pub proof fn phase_change_keeps_well_formed(g: GridModel)
    requires
        g.well_formed(),
    ensures
        (GridModel { phase: BoardPhase::Movement, ..g }).well_formed(),
{
}

/// An accepted placement or move is made by the active player with its own
/// identity; it hands the turn to the opponent and appends exactly one
/// record, numbered by the count of earlier records modulo 256, whose mode
/// says whether a placement or a move made it.
pub proof fn accepted_turn_alternates(g: GridModel, player: PlayerModel, token_index: usize, position: u8, side: PlayerSide)
    requires
        g.place_outcome(player, token_index, position) == Ok::<PlayerSide, DomainError>(side)
            || g.move_outcome(player, token_index, position) == Ok::<PlayerSide, DomainError>(side),
    ensures
        side == g.active_player,
        side == player.side,
        player.id == g.player(side).id,
        forall|mode: BoardPhase|
            #![trigger g.after_turn(side, token_index, position as int, mode)]
            g.after_turn(side, token_index, position as int, mode).active_player
                == g.active_player.opposite() && g.after_turn(
                side,
                token_index,
                position as int,
                mode,
            ).placements == g.placements.push(
                g.next_placement(side, token_index, position as int, mode),
            ) && g.next_placement(side, token_index, position as int, mode).turn
                == g.placements.len() % 256 && g.next_placement(
                side,
                token_index,
                position as int,
                mode,
            ).mode == mode,
{
}

/// A turn changes only the token that was set, the active player and the
/// history: the geometry, the phase, the other player, and the acting
/// player's identity, side, label and other tokens stay as they were.
pub proof fn turn_changes_only_the_set_token(g: GridModel, side: PlayerSide, token_index: usize, position: int, mode: BoardPhase)
    requires
        token_index < g.player(side).tokens.len(),
    ensures
        ({
            let h = g.after_turn(side, token_index, position, mode);
            &&& h.positions == g.positions
            &&& h.adjacents == g.adjacents
            &&& h.alignments == g.alignments
            &&& h.phase == g.phase
            &&& h.player(side.opposite()) == g.player(side.opposite())
            &&& h.player(side).id == g.player(side).id
            &&& h.player(side).side == g.player(side).side
            &&& h.player(side).label == g.player(side).label
            &&& h.player(side).tokens.len() == g.player(side).tokens.len()
            &&& forall|i: int|
                0 <= i < g.player(side).tokens.len() && i != token_index ==> #[trigger] h.player(
                    side,
                ).tokens[i] == g.player(side).tokens[i]
            &&& h.player(side).tokens[token_index as int] == Some(position)
        }),
{
    let h = g.after_turn(side, token_index, position, mode);
    match side {
        PlayerSide::Red => {
            assert(h.red.tokens == g.red.tokens.update(token_index as int, Some(position)));
            assert(h.black == g.black);
        },
        PlayerSide::Black => {
            assert(h.black.tokens == g.black.tokens.update(token_index as int, Some(position)));
            assert(h.red == g.red);
        },
    }
}

/// The phase only moves forward: turns keep it, a grid in the movement
/// phase refuses any further phase change, and the change to movement is
/// accepted only once every token of both players is placed.
pub proof fn phase_never_returns_to_placement(g: GridModel, side: PlayerSide, token_index: usize, position: int, mode: BoardPhase)
    ensures
        g.after_turn(side, token_index, position, mode).phase == g.phase,
        g.phase == BoardPhase::Movement ==> g.phase_change_outcome() == Err::<(), DomainError>(
            DomainError::WrongGridPhase,
        ),
        g.phase_change_outcome() is Ok ==> g.phase == BoardPhase::Placement && all_set(g.red.tokens)
            && all_set(g.black.tokens),
{
}

/// A victory answer names a winner exactly when it reports a victory; the
/// winner's tokens cover an alignment, red winning wherever it has one; no
/// victory means neither side has one; and an answer comes only once every
/// token of both players is placed.
pub proof fn victory_answer_is_coherent(g: GridModel)
    ensures
        g.victory_outcome() is Ok ==> all_set(g.red.tokens) && all_set(g.black.tokens),
        g.victory_outcome() matches Ok(v) ==> (v.result <==> v.player is Some),
        g.victory_outcome() matches Ok(v) ==> (v.player matches Some(s) ==> g.has_alignment(s)),
        g.victory_outcome() matches Ok(v) ==> (v.player == Some(PlayerSide::Black) ==> !g.has_alignment(PlayerSide::Red)),
        g.victory_outcome() matches Ok(v) ==> (!v.result ==> !g.has_alignment(PlayerSide::Red)
            && !g.has_alignment(PlayerSide::Black)),
{
}

/// An accepted placement puts a token of the acting side on a free
/// position of the board.
pub proof fn accepted_placement_targets_free_position(g: GridModel, player: PlayerModel, token_index: usize, position: u8, side: PlayerSide)
    requires
        g.place_outcome(player, token_index, position) == Ok::<PlayerSide, DomainError>(side),
    ensures
        position < BOARD_POSITION_COUNT,
        token_index < g.player(side).tokens.len(),
        g.occupant(position as int) is None,
{
}

/// An accepted move takes a placed token of the acting side to a free
/// position of the board, different from and adjacent to where it stood.
pub proof fn accepted_move_is_to_free_adjacent_position(g: GridModel, player: PlayerModel, token_index: usize, position: u8, side: PlayerSide)
    requires
        g.move_outcome(player, token_index, position) == Ok::<PlayerSide, DomainError>(side),
    ensures
        position < BOARD_POSITION_COUNT,
        token_index < g.player(side).tokens.len(),
        g.occupant(position as int) is None,
        g.player(side).tokens[token_index as int] matches Some(current) && current != position
            && g.adjacent(current, position as int),
{
}

/// Each accepted definition moves an identity source on by one: from a
/// source whose next identity is `start`, the definition numbered `k`
/// (counting from 0) takes `identity_after(start, k)` and leaves
/// `identity_after(start, k + 1)` as the next.
pub proof fn definitions_count_identities_on(start: u32, k: nat)
    ensures
        identity_after(start, 0) == start,
        following_identity(identity_after(start, k)) == identity_after(start, k + 1),
{
    let m: int = 0x1_0000_0000;
    let x = (start + k) % m;
    assert(0 <= x < m);
    assert((start + k + 1) % m == if x == m - 1 { 0 } else { x + 1 }) by (nonlinear_arith)
        requires
            x == (start + k) % m,
            m == 0x1_0000_0000,
            0 <= start,
            0 <= k,
    ;
}

/// Fewer than 2^32 successive definitions from one source hand out
/// pairwise distinct identities, so any two players defined from it can
/// start a game together.
pub proof fn successive_identities_are_distinct(start: u32, i: nat, j: nat)
    requires
        i < j < 0x1_0000_0000,
    ensures
        identity_after(start, i) != identity_after(start, j),
{
    let m: int = 0x1_0000_0000;
    assert((start + i) % m != (start + j) % m) by (nonlinear_arith)
        requires
            0 <= i < j < m,
            m == 0x1_0000_0000,
            0 <= start,
    ;
}

/// Whether `(a, b)` is the pair of positions `x` and `y`, in either order.
pub open spec fn pair_of(a: int, b: int, x: int, y: int) -> bool {
    (a == x && b == y) || (a == y && b == x)
}

/// Whether `a` and `b` are neighbours on the Achi board, positions numbered
/// row by row: next to each other in a row or a column, or one of them the
/// centre and the other a corner.
pub open spec fn board_neighbours(a: int, b: int) -> bool {
    ||| pair_of(a, b, 0, 1)
    ||| pair_of(a, b, 1, 2)
    ||| pair_of(a, b, 3, 4)
    ||| pair_of(a, b, 4, 5)
    ||| pair_of(a, b, 6, 7)
    ||| pair_of(a, b, 7, 8)
    ||| pair_of(a, b, 0, 3)
    ||| pair_of(a, b, 3, 6)
    ||| pair_of(a, b, 1, 4)
    ||| pair_of(a, b, 4, 7)
    ||| pair_of(a, b, 2, 5)
    ||| pair_of(a, b, 5, 8)
    ||| pair_of(a, b, 0, 4)
    ||| pair_of(a, b, 4, 8)
    ||| pair_of(a, b, 2, 4)
    ||| pair_of(a, b, 4, 6)
}

/// Whether `tokens` cover the three positions `a`, `b` and `c`.
pub open spec fn covers(tokens: Seq<Option<int>>, a: int, b: int, c: int) -> bool {
    occupied(tokens, a) && occupied(tokens, b) && occupied(tokens, c)
}

/// Whether `tokens` hold three in a line on the Achi board: a whole row, a
/// whole column, or a whole diagonal.
pub open spec fn holds_a_line(tokens: Seq<Option<int>>) -> bool {
    ||| covers(tokens, 0, 1, 2)
    ||| covers(tokens, 3, 4, 5)
    ||| covers(tokens, 6, 7, 8)
    ||| covers(tokens, 0, 3, 6)
    ||| covers(tokens, 1, 4, 7)
    ||| covers(tokens, 2, 5, 8)
    ||| covers(tokens, 0, 4, 8)
    ||| covers(tokens, 2, 4, 6)
}

/// The victory alignments are exactly the lines of the board.
proof fn alignments_are_the_lines(tokens: Seq<Option<int>>)
    ensures
        aligned(tokens, standard_alignments()) == holds_a_line(tokens),
{
    let s = standard_alignments();
    assert(s[0] == (0int, 1int, 2int));
    assert(s[1] == (3int, 4int, 5int));
    assert(s[2] == (6int, 7int, 8int));
    assert(s[3] == (0int, 3int, 6int));
    assert(s[4] == (1int, 4int, 7int));
    assert(s[5] == (2int, 5int, 8int));
    assert(s[6] == (0int, 4int, 8int));
    assert(s[7] == (2int, 4int, 6int));
    if aligned(tokens, s) {
        let k = choose|k: int|
            0 <= k < s.len() && occupied(tokens, s[k].0) && occupied(tokens, s[k].1) && occupied(
                tokens,
                s[k].2,
            );
        assert(k == 0 || k == 1 || k == 2 || k == 3 || k == 4 || k == 5 || k == 6 || k == 7);
    }
}

/// Two positions are consecutive in a victory alignment exactly when they
/// are neighbours on the board.
proof fn consecutive_positions_are_neighbours(a: int, b: int)
    ensures
        (exists|k: int|
            0 <= k < standard_alignments().len() && consecutive_in(
                #[trigger] standard_alignments()[k],
                a,
                b,
            )) == board_neighbours(a, b),
{
    let s = standard_alignments();
    assert(s[0] == (0int, 1int, 2int));
    assert(s[1] == (3int, 4int, 5int));
    assert(s[2] == (6int, 7int, 8int));
    assert(s[3] == (0int, 3int, 6int));
    assert(s[4] == (1int, 4int, 7int));
    assert(s[5] == (2int, 5int, 8int));
    assert(s[6] == (0int, 4int, 8int));
    assert(s[7] == (2int, 4int, 6int));
    if exists|k: int| 0 <= k < s.len() && consecutive_in(#[trigger] s[k], a, b) {
        let k = choose|k: int| 0 <= k < s.len() && consecutive_in(#[trigger] s[k], a, b);
        assert(k == 0 || k == 1 || k == 2 || k == 3 || k == 4 || k == 5 || k == 6 || k == 7);
    }
    if board_neighbours(a, b) {
        assert(consecutive_in(s[0], a, b) || consecutive_in(s[1], a, b) || consecutive_in(s[2], a, b)
            || consecutive_in(s[3], a, b) || consecutive_in(s[4], a, b) || consecutive_in(s[5], a, b)
            || consecutive_in(s[6], a, b) || consecutive_in(s[7], a, b));
    }
}

/// On every grid, two positions are adjacent exactly when they are
/// neighbours on the board.
pub proof fn adjacency_is_board_neighbourhood(g: GridModel, a: int, b: int)
    requires
        g.shaped(),
    ensures
        g.adjacent(a, b) == board_neighbours(a, b),
{
    adjacency_follows_alignments(g, a, b);
    consecutive_positions_are_neighbours(a, b);
}

/// A player asks for a turn with its own identity: the grid's player of its
/// side has the same identity.
pub open spec fn is_grid_player(g: GridModel, player: PlayerModel) -> bool {
    player.id == g.player(player.side).id
}

/// A placement is accepted exactly when the grid's player of the asking
/// side has the asking identity, it is that side's turn, the token is one
/// of the side's four, and the target is a position of the board that no
/// token stands on.
pub proof fn placement_accepted_exactly_when_legal(g: GridModel, player: PlayerModel, token_index: usize, position: u8)
    requires
        g.shaped(),
    ensures
        (g.place_outcome(player, token_index, position) is Ok) == (is_grid_player(g, player)
            && player.side == g.active_player && token_index < TOKEN_COUNT_PER_PLAYER && position
            < BOARD_POSITION_COUNT && !occupied(g.red.tokens, position as int) && !occupied(
            g.black.tokens,
            position as int,
        )),
        g.place_outcome(player, token_index, position) is Ok ==> g.place_outcome(
            player,
            token_index,
            position,
        ) == Ok::<PlayerSide, DomainError>(player.side),
{
}

/// A move is accepted exactly when the grid's player of the asking side
/// has the asking identity, it is that side's turn, the token is one of the
/// side's four and stands somewhere, and the target is a position of the
/// board that no token stands on and that neighbours the token's position.
pub proof fn move_accepted_exactly_when_legal(g: GridModel, player: PlayerModel, token_index: usize, position: u8)
    requires
        g.shaped(),
    ensures
        (g.move_outcome(player, token_index, position) is Ok) == (is_grid_player(g, player)
            && player.side == g.active_player && token_index < TOKEN_COUNT_PER_PLAYER && position
            < BOARD_POSITION_COUNT && !occupied(g.red.tokens, position as int) && !occupied(
            g.black.tokens,
            position as int,
        ) && g.player(player.side).tokens[token_index as int] is Some && board_neighbours(
            g.player(player.side).tokens[token_index as int]->0,
            position as int,
        )),
        g.move_outcome(player, token_index, position) is Ok ==> g.move_outcome(
            player,
            token_index,
            position,
        ) == Ok::<PlayerSide, DomainError>(player.side),
{
    if token_index < TOKEN_COUNT_PER_PLAYER {
        let side = player.side;
        if g.player(side).tokens[token_index as int] is Some {
            let c = g.player(side).tokens[token_index as int]->0;
            adjacency_is_board_neighbourhood(g, c, position as int);
            if c == position as int {
                assert(occupied(g.player(side).tokens, position as int));
                assert(!board_neighbours(c, c));
            }
        }
    }
}

/// A request by a player that is not the grid's player of its side is
/// refused with `TokenNotOwnedByPlayer`, whatever it asks.
pub proof fn foreign_player_is_refused(g: GridModel, player: PlayerModel, token_index: usize, position: u8)
    requires
        !is_grid_player(g, player),
    ensures
        g.place_outcome(player, token_index, position) == Err::<PlayerSide, DomainError>(
            DomainError::TokenNotOwnedByPlayer,
        ),
        g.move_outcome(player, token_index, position) == Err::<PlayerSide, DomainError>(
            DomainError::TokenNotOwnedByPlayer,
        ),
{
}

/// A target off the board is refused with `InvalidTokenPosition` for the
/// grid's own players; an on-board request out of turn with
/// `WrongPlayerTurn`.
pub proof fn off_board_or_out_of_turn_is_refused(g: GridModel, player: PlayerModel, token_index: usize, position: u8)
    requires
        is_grid_player(g, player),
    ensures
        position >= BOARD_POSITION_COUNT ==> g.place_outcome(player, token_index, position) == Err::<
            PlayerSide,
            DomainError,
        >(DomainError::InvalidTokenPosition) && g.move_outcome(player, token_index, position)
            == Err::<PlayerSide, DomainError>(DomainError::InvalidTokenPosition),
        position < BOARD_POSITION_COUNT && player.side != g.active_player ==> g.place_outcome(
            player,
            token_index,
            position,
        ) == Err::<PlayerSide, DomainError>(DomainError::WrongPlayerTurn) && g.move_outcome(
            player,
            token_index,
            position,
        ) == Err::<PlayerSide, DomainError>(DomainError::WrongPlayerTurn),
{
}

/// Placing on a taken position is refused, naming the colour of the token
/// that stands there, red first.
pub proof fn placing_on_a_taken_position_is_refused(g: GridModel, player: PlayerModel, token_index: usize, position: u8)
    requires
        is_grid_player(g, player),
        player.side == g.active_player,
        position < BOARD_POSITION_COUNT,
    ensures
        occupied(g.red.tokens, position as int) ==> g.place_outcome(player, token_index, position)
            == Err::<PlayerSide, DomainError>(DomainError::IllegalRedTokenPlacement),
        !occupied(g.red.tokens, position as int) && occupied(g.black.tokens, position as int)
            ==> g.place_outcome(player, token_index, position) == Err::<PlayerSide, DomainError>(
            DomainError::IllegalBlackTokenPlacement,
        ),
{
}

/// For a move of an existing token of the side to play: an unplaced token
/// is refused with `MovementNotAdjacent`; its own position with
/// `SamePositionNotAllowed`; a position taken by another token with the
/// colour of that token, red first; a free position that does not
/// neighbour it with `MovementNotAdjacent`.
pub proof fn move_refusals(g: GridModel, player: PlayerModel, token_index: usize, position: u8)
    requires
        g.shaped(),
        is_grid_player(g, player),
        player.side == g.active_player,
        position < BOARD_POSITION_COUNT,
        token_index < TOKEN_COUNT_PER_PLAYER,
    ensures
        g.player(player.side).tokens[token_index as int] is None ==> g.move_outcome(
            player,
            token_index,
            position,
        ) == Err::<PlayerSide, DomainError>(DomainError::MovementNotAdjacent),
        g.player(player.side).tokens[token_index as int] == Some(position as int) ==> g.move_outcome(
            player,
            token_index,
            position,
        ) == Err::<PlayerSide, DomainError>(DomainError::SamePositionNotAllowed),
        g.player(player.side).tokens[token_index as int] is Some
            && g.player(player.side).tokens[token_index as int] != Some(position as int) ==> ({
            let r = g.move_outcome(player, token_index, position);
            &&& occupied(g.red.tokens, position as int) ==> r == Err::<PlayerSide, DomainError>(
                DomainError::IllegalRedTokenMovement,
            )
            &&& !occupied(g.red.tokens, position as int) && occupied(g.black.tokens, position as int)
                ==> r == Err::<PlayerSide, DomainError>(DomainError::IllegalBlackTokenMovement)
            &&& !occupied(g.red.tokens, position as int) && !occupied(g.black.tokens, position as int)
                && !board_neighbours(
                g.player(player.side).tokens[token_index as int]->0,
                position as int,
            ) ==> r == Err::<PlayerSide, DomainError>(DomainError::MovementNotAdjacent)
        }),
{
    if g.player(player.side).tokens[token_index as int] is Some {
        let c = g.player(player.side).tokens[token_index as int]->0;
        adjacency_is_board_neighbourhood(g, c, position as int);
    }
}

/// Once every token of both players is placed, the victory check answers
/// in every phase: red wins when its tokens hold a whole row, column or
/// diagonal; otherwise black wins when its tokens do; otherwise nobody.
/// Before that it is refused, red's unplaced tokens named first.
pub proof fn victory_is_three_in_a_line(g: GridModel)
    requires
        g.shaped(),
    ensures
        all_set(g.red.tokens) && all_set(g.black.tokens) ==> g.victory_outcome() == Ok::<
            Victory,
            DomainError,
        >(
            if holds_a_line(g.red.tokens) {
                Victory { result: true, player: Some(PlayerSide::Red) }
            } else if holds_a_line(g.black.tokens) {
                Victory { result: true, player: Some(PlayerSide::Black) }
            } else {
                Victory { result: false, player: None }
            },
        ),
        !all_set(g.red.tokens) ==> g.victory_outcome() == Err::<Victory, DomainError>(
            DomainError::RedPlayerUnsetTokens,
        ),
        all_set(g.red.tokens) && !all_set(g.black.tokens) ==> g.victory_outcome() == Err::<
            Victory,
            DomainError,
        >(DomainError::BlackPlayerUnsetTokens),
{
    alignments_are_the_lines(g.red.tokens);
    alignments_are_the_lines(g.black.tokens);
}

/// The phase change is accepted exactly in the placement phase once every
/// token of both players is placed, whatever stands where; otherwise it is
/// refused, a wrong phase named first, then red's unplaced tokens.
pub proof fn phase_change_accepted_exactly_when_all_placed(g: GridModel)
    ensures
        (g.phase_change_outcome() is Ok) == (g.phase == BoardPhase::Placement && all_set(g.red.tokens)
            && all_set(g.black.tokens)),
        g.phase == BoardPhase::Placement && !all_set(g.red.tokens) ==> g.phase_change_outcome()
            == Err::<(), DomainError>(DomainError::RedPlayerUnsetTokens),
        g.phase == BoardPhase::Placement && all_set(g.red.tokens) && !all_set(g.black.tokens)
            ==> g.phase_change_outcome() == Err::<(), DomainError>(
            DomainError::BlackPlayerUnsetTokens,
        ),
{
}

/// A label of at most 35 characters with a character that is not white
/// space, at any place in it, is accepted.
pub proof fn label_with_a_visible_character_is_accepted(label: Seq<char>, i: int)
    requires
        label.len() <= MAX_LABEL_CHARS,
        0 <= i < label.len(),
        !is_white_space(label[i]),
    ensures
        label_valid(label),
{
}

/// A label longer than 35 characters, or made only of white space (the
/// empty label included), is refused.
pub proof fn long_or_blank_label_is_refused(label: Seq<char>)
    requires
        label.len() > MAX_LABEL_CHARS || forall|i: int| 0 <= i < label.len() ==> is_white_space(#[trigger] label[i]),
    ensures
        !label_valid(label),
{
}

/// Among ASCII characters, white space is the tab, line feed, vertical
/// tab, form feed, carriage return and space; letters, digits and other
/// visible characters are not.
pub proof fn ascii_white_space(c: char)
    requires
        (c as u32) < 128,
    ensures
        is_white_space(c) == (c == ' ' || c == '\t' || c == '\n' || c == '\u{0B}' || c == '\u{0C}'
            || c == '\r'),
{
}

/// The number that stands for a victory answer's winner tells the three
/// answers apart: red is 0 and black 1, the sides' numbers, and no winner
/// is -1.
pub proof fn winner_codes_tell_answers_apart(a: Option<PlayerSide>, b: Option<PlayerSide>)
    ensures
        a != b ==> winner_code(a) != winner_code(b),
        winner_code(Some(PlayerSide::Red)) == 0,
        winner_code(Some(PlayerSide::Black)) == 1,
        winner_code(None) == -1,
{
}

} // verus!
