//! Players: a side, a validated label and four tokens.
use vstd::prelude::*;

use crate::board::{same_position, PlayerSide, Token, TokenPosition, TOKEN_COUNT_PER_PLAYER};
use crate::error::DomainError;

verus! {

/// Whether `c` has the Unicode `White_Space` property: the tab and line
/// controls U+0009 to U+000D, the space U+0020, U+0085, U+00A0, U+1680, the
/// spaces U+2000 to U+200A, U+2028, U+2029, U+202F, U+205F and U+3000.
pub open spec fn is_white_space(c: char) -> bool {
    let v = c as u32;
    ||| 0x9 <= v <= 0xD
    ||| v == 0x20
    ||| v == 0x85
    ||| v == 0xA0
    ||| v == 0x1680
    ||| 0x2000 <= v <= 0x200A
    ||| v == 0x2028
    ||| v == 0x2029
    ||| v == 0x202F
    ||| v == 0x205F
    ||| v == 0x3000
}

/// Whether `c` has the Unicode `White_Space` property.
pub fn char_is_whitespace(c: char) -> (ws: bool)
    ensures
        ws == is_white_space(c),
{
    let v = c as u32;
    (0x9 <= v && v <= 0xD) || v == 0x20 || v == 0x85 || v == 0xA0 || v == 0x1680 || (0x2000 <= v
        && v <= 0x200A) || v == 0x2028 || v == 0x2029 || v == 0x202F || v == 0x205F || v == 0x3000
}

/// Longest accepted label, in characters.
pub const MAX_LABEL_CHARS: usize = 35;

/// A label is accepted when it has at most 35 characters and is not blank:
/// some character of it is not white space (so trimming it leaves text).
pub open spec fn label_valid(label: Seq<char>) -> bool {
    &&& label.len() <= MAX_LABEL_CHARS
    &&& exists|i: int| 0 <= i < label.len() && !is_white_space(#[trigger] label[i])
}

/// Whether some token of `tokens` stands at `position`.
pub open spec fn occupied(tokens: Seq<Option<int>>, position: int) -> bool {
    exists|i: int| 0 <= i < tokens.len() && tokens[i] == Some(position)
}

/// Whether every token of `tokens` has a position.
pub open spec fn all_set(tokens: Seq<Option<int>>) -> bool {
    forall|i: int| 0 <= i < tokens.len() ==> tokens[i] is Some
}

/// The tokens of a newly defined player: four, none of them placed.
pub open spec fn fresh_tokens() -> Seq<Option<int>> {
    Seq::new(TOKEN_COUNT_PER_PLAYER as nat, |i: int| None::<int>)
}

/// The abstract state of a player.
pub struct PlayerModel {
    pub id: u32,
    pub side: PlayerSide,
    pub label: Seq<char>,
    pub tokens: Seq<Option<int>>,
}

/// A domain player with a side, label, and four owned tokens.
#[derive(Debug)]
pub struct Player {
    id: u32,
    side: PlayerSide,
    label: String,
    tokens: Vec<Token>,
}

impl View for Player {
    type V = PlayerModel;

    closed spec fn view(&self) -> PlayerModel {
        PlayerModel {
            id: self.id,
            side: self.side,
            label: self.label@,
            tokens: self.tokens@.map_values(|t: Token| t@),
        }
    }
}

impl Player {
    /// Every player owns exactly four tokens.
    #[verifier::type_invariant]
    spec fn owns_four_tokens(self) -> bool {
        self.tokens@.len() == TOKEN_COUNT_PER_PLAYER
    }

    /// Returns the player's side.
    pub fn side_value(&self) -> (side: PlayerSide)
        ensures
            side == self@.side,
    {
        self.side
    }

    /// Returns the validated player label.
    pub fn label_value(&self) -> (label: &str)
        ensures
            label@ == self@.label,
    {
        self.label.as_str()
    }

    /// Returns the number of tokens owned by the player.
    pub fn token_count(&self) -> (n: usize)
        ensures
            n == self@.tokens.len(),
            n == TOKEN_COUNT_PER_PLAYER,
    {
        proof {
            use_type_invariant(self);
        }
        self.tokens.len()
    }

    /// Returns the player's side.
    pub fn side(&self) -> (side: PlayerSide)
        ensures
            side == self@.side,
    {
        self.side
    }

    /// Returns a copy of the player label.
    pub fn label(&self) -> (label: String)
        ensures
            label@ == self@.label,
    {
        self.label.clone()
    }

    /// Same as [`Player::token_count`], under its script name.
    pub fn token_count_js(&self) -> (n: usize)
        ensures
            n == self@.tokens.len(),
            n == TOKEN_COUNT_PER_PLAYER,
    {
        self.token_count()
    }

    /// The position of token `index`, or `TokenNotOwnedByPlayer` when the
    /// player has no such token.
    pub fn token_position_js(&self, index: usize) -> (r: Result<Option<u8>, DomainError>)
        ensures
            index < self@.tokens.len() ==> (r matches Ok(v) && same_position(
                v,
                self@.tokens[index as int],
            )),
            index >= self@.tokens.len() ==> r == Err::<Option<u8>, DomainError>(
                DomainError::TokenNotOwnedByPlayer,
            ),
    {
        match self.token(index) {
            Ok(t) => Ok(t.position_value()),
            Err(e) => Err(e),
        }
    }

    /// The player's identity.
    pub(crate) fn id(&self) -> (id: u32)
        ensures
            id == self@.id,
    {
        self.id
    }

    /// Token `index`, or `TokenNotOwnedByPlayer` when there is none.
    pub(crate) fn token(&self, index: usize) -> (r: Result<&Token, DomainError>)
        ensures
            index < self@.tokens.len() ==> (r matches Ok(t) && t@ == self@.tokens[index as int]),
            index >= self@.tokens.len() ==> r == Err::<&Token, DomainError>(
                DomainError::TokenNotOwnedByPlayer,
            ),
    {
        if index < self.tokens.len() {
            Ok(&self.tokens[index])
        } else {
            Err(DomainError::TokenNotOwnedByPlayer)
        }
    }

    /// Whether some token of this player stands at `position`.
    pub(crate) fn occupies(&self, position: TokenPosition) -> (found: bool)
        ensures
            found == occupied(self@.tokens, position@),
    {
        let n = self.tokens.len();
        for i in 0..n
            invariant
                n == self.tokens@.len(),
                forall|j: int| 0 <= j < i ==> self@.tokens[j] != Some(position@),
        {
            if self.tokens[i].stands_at(position) {
                assert(self@.tokens[i as int] == Some(position@));
                return true;
            }
        }
        false
    }

    /// Whether every token of this player has a position.
    pub(crate) fn all_tokens_set(&self) -> (all: bool)
        ensures
            all == all_set(self@.tokens),
    {
        let n = self.tokens.len();
        for i in 0..n
            invariant
                n == self.tokens@.len(),
                forall|j: int| 0 <= j < i ==> self@.tokens[j] is Some,
        {
            if !self.tokens[i].is_position_set() {
                assert(self@.tokens[i as int] is None);
                return false;
            }
        }
        true
    }

    /// Whether some token of this player has no position.
    pub(crate) fn any_token_unset(&self) -> (any: bool)
        ensures
            any == !all_set(self@.tokens),
    {
        !self.all_tokens_set()
    }

    /// Moves token `index` to `position`.
    pub(crate) fn set_token_position(&mut self, index: usize, position: TokenPosition)
        requires
            index < old(self)@.tokens.len(),
        ensures
            final(self)@ == (PlayerModel {
                tokens: old(self)@.tokens.update(index as int, Some(position@)),
                ..old(self)@
            }),
        no_unwind
    {
        proof {
            use_type_invariant(&*self);
        }
        self.tokens[index] = Token::at(position);
        assert(self@.tokens =~= old(self)@.tokens.update(index as int, Some(position@)));
    }

    /// A copy of this player, with the same identity, side, label and
    /// token positions.
    pub fn duplicate(&self) -> (p: Player)
        ensures
            p@ == self@,
            self@.tokens.len() == TOKEN_COUNT_PER_PLAYER,
    {
        proof {
            use_type_invariant(self);
        }
        let mut tokens: Vec<Token> = Vec::new();
        let n = self.tokens.len();
        for i in 0..n
            invariant
                n == self.tokens@.len(),
                tokens@.len() == i,
                forall|j: int| 0 <= j < i ==> tokens@[j]@ == self.tokens@[j]@,
        {
            tokens.push(self.tokens[i].duplicate());
        }
        let p = Player { id: self.id, side: self.side, label: self.label.clone(), tokens };
        assert(p@.tokens =~= self@.tokens);
        p
    }
}

/// Decides a label from the white-space flags of its characters, in order:
/// the label is accepted when it has at most 35 characters and not all of
/// them are white space.
pub fn label_accepted(white_space: &Vec<bool>) -> (ok: bool)
    ensures
        ok == (white_space@.len() <= MAX_LABEL_CHARS && exists|i: int|
            0 <= i < white_space@.len() && !#[trigger] white_space@[i]),
{
    let n = white_space.len();
    if n > MAX_LABEL_CHARS {
        return false;
    }
    for i in 0..n
        invariant
            n == white_space@.len(),
            n <= MAX_LABEL_CHARS,
            forall|j: int| 0 <= j < i ==> #[trigger] white_space@[j],
    {
        if !white_space[i] {
            return true;
        }
    }
    false
}

impl Clone for Player {
    /// A copy of this player, equal to it.
    fn clone(&self) -> (p: Self)
        ensures
            p@ == self@,
    {
        self.duplicate()
    }
}

/// Whether `label` is accepted as a player label.
fn label_is_valid(label: &str) -> (ok: bool)
    ensures
        ok == label_valid(label@),
{
    let n = label.unicode_len();
    if n > MAX_LABEL_CHARS {
        return false;
    }
    let mut flags: Vec<bool> = Vec::new();
    for i in 0..n
        invariant
            n == label@.len(),
            flags@.len() == i,
            forall|j: int| 0 <= j < i ==> #[trigger] flags@[j] == is_white_space(label@[j]),
    {
        flags.push(char_is_whitespace(label.get_char(i)));
    }
    let ok = label_accepted(&flags);
    proof {
        if ok {
            let i = choose|i: int| 0 <= i < flags@.len() && !#[trigger] flags@[i];
            assert(!is_white_space(label@[i]));
        }
        if label_valid(label@) {
            let i = choose|i: int| 0 <= i < label@.len() && !is_white_space(#[trigger] label@[i]);
            assert(!flags@[i]);
        }
    }
    ok
}

/// The identity handed out after `id`: the next number, wrapping from the
/// largest `u32` to 0.
pub open spec fn following_identity(id: u32) -> u32 {
    if id == u32::MAX {
        0
    } else {
        (id + 1) as u32
    }
}

/// The identity that the `k`-th definition (counting from 0) takes from a
/// source whose next identity was `start`.
pub open spec fn identity_after(start: u32, k: nat) -> u32 {
    ((start + k) % 0x1_0000_0000) as u32
}

/// A source of player identities: each accepted definition takes its next
/// identity and advances it.
#[derive(Debug)]
pub struct IdentitySource {
    next: u32,
}

impl View for IdentitySource {
    type V = u32;

    closed spec fn view(&self) -> u32 {
        self.next
    }
}

impl IdentitySource {
    /// A source whose first identity is 1.
    pub fn new() -> (s: Self)
        ensures
            s@ == 1,
    {
        IdentitySource { next: 1 }
    }

    /// The identity the next accepted definition takes.
    pub fn next_identity(&self) -> (id: u32)
        ensures
            id == self@,
    {
        self.next
    }

    /// Takes the next identity and advances the source.
    fn take(&mut self) -> (id: u32)
        ensures
            id == old(self)@,
            final(self)@ == following_identity(old(self)@),
    {
        let id = self.next;
        self.next = if id == u32::MAX {
            0
        } else {
            id + 1
        };
        id
    }
}

/// Implements the `definePlayer` behavior: a player of `side` with the
/// given label, the next identity of `ids` and four unplaced tokens; the
/// source then moves on to the following identity. A blank label, or one
/// longer than 35 characters, is refused with `InvalidPlayerLabel`, and the
/// source is left as it was.
pub fn define_player_domain(side: PlayerSide, label: &str, ids: &mut IdentitySource) -> (r: Result<Player, DomainError>)
    ensures
        label_valid(label@) ==> (r matches Ok(p) && p@ == PlayerModel {
            id: old(ids)@,
            side,
            label: label@,
            tokens: fresh_tokens(),
        }),
        label_valid(label@) ==> final(ids)@ == following_identity(old(ids)@),
        !label_valid(label@) ==> r == Err::<Player, DomainError>(DomainError::InvalidPlayerLabel),
        !label_valid(label@) ==> final(ids)@ == old(ids)@,
{
    if !label_is_valid(label) {
        return Err(DomainError::InvalidPlayerLabel);
    }
    let mut tokens: Vec<Token> = Vec::new();
    for i in 0..TOKEN_COUNT_PER_PLAYER
        invariant
            tokens@.len() == i,
            forall|j: int| 0 <= j < i ==> tokens@[j]@ == None::<int>,
    {
        tokens.push(Token::new());
    }
    let id = ids.take();
    let p = Player { id, side, label: label.to_owned(), tokens };
    assert(p@.tokens =~= fresh_tokens());
    Ok(p)
}

} // verus!
