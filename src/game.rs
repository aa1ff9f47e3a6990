//! A match of SKATE: letters, the tricks already set, and whose turn it is.
use crate::chance::chance_of;
use crate::trick::{
    lower_of, lowercase, outcome, parse_words, words_of, words_view, ParseError, ParseFault, Trick,
};
use vstd::prelude::*;

verus! {

/// One of the two players of a match.
#[derive(Debug, Clone, Copy, PartialEq, Eq, Structural)]
pub enum Player {
    One,
    Two,
}

pub open spec fn opponent(p: Player) -> Player {
    match p {
        Player::One => Player::Two,
        Player::Two => Player::One,
    }
}

/// The letters of SKATE a player has to have lost the match.
pub const FULL_WORD: u8 = 5;

/// The state of a match as mathematics sees it: each player's count of
/// letters of SKATE, the phrases already set (in lower case), and whose turn
/// it is to set a trick.
pub struct GameView {
    pub player1_letters: nat,
    pub player2_letters: nat,
    pub landed: Seq<Seq<char>>,
    pub setter: Player,
}

pub open spec fn letters_of(g: GameView, p: Player) -> nat {
    match p {
        Player::One => g.player1_letters,
        Player::Two => g.player2_letters,
    }
}

/// `g` with one more letter for `p`; a player who has the whole word keeps it.
pub open spec fn with_letter(g: GameView, p: Player) -> GameView {
    let n = letters_of(g, p);
    let m = if n < FULL_WORD {
        n + 1
    } else {
        n
    };
    match p {
        Player::One => GameView { player1_letters: m, ..g },
        Player::Two => GameView { player2_letters: m, ..g },
    }
}

/// The match is over once either player has spelt the whole word.
pub open spec fn is_over(g: GameView) -> bool {
    g.player1_letters == FULL_WORD || g.player2_letters == FULL_WORD
}

/// Who has won: the player whose opponent has the whole word, if any.
pub open spec fn winner_of(g: GameView) -> Option<Player> {
    if g.player1_letters == FULL_WORD {
        Some(Player::Two)
    } else if g.player2_letters == FULL_WORD {
        Some(Player::One)
    } else {
        None
    }
}

/// The state after the setter's attempt at the phrase `key`, and the
/// opponent's attempt to match it where the setter landed it. A landed
/// phrase is remembered; a failed match costs the opponent a letter; the
/// turn passes to the other player unless the match is over.
pub open spec fn after_attempt(g: GameView, key: Seq<char>, setter_landed: bool, matcher_landed: bool) -> GameView {
    let scored = if !setter_landed {
        g
    } else if matcher_landed {
        GameView { landed: g.landed.push(key), ..g }
    } else {
        with_letter(GameView { landed: g.landed.push(key), ..g }, opponent(g.setter))
    };
    GameView {
        setter: if is_over(scored) {
            g.setter
        } else {
            opponent(g.setter)
        },
        ..scored
    }
}

/// The letters of SKATE that a player with `n` letters has.
pub open spec fn score_text(n: nat) -> Seq<char> {
    "SKATE"@.take(n as int)
}

/// What one turn came to.
#[derive(Debug, Clone, PartialEq, Eq)]
pub enum TurnOutcome {
    /// The phrase is not a trick; the same player tries again.
    Invalid(ParseError),
    /// The phrase has been set before in this match; the same player tries
    /// again.
    AlreadyLanded,
    /// The trick was attempted at the given chance. `matcher_landed` is false
    /// where the setter missed, as no match was attempted.
    Attempted { trick: Trick, chance: u64, setter_landed: bool, matcher_landed: bool },
}

/// A match of SKATE between two players.
pub struct Game {
    player1_letters: u8,
    player2_letters: u8,
    landed_tricks: Vec<String>,
    setter: Player,
}

impl View for Game {
    type V = GameView;

    closed spec fn view(&self) -> GameView {
        GameView {
            player1_letters: self.player1_letters as nat,
            player2_letters: self.player2_letters as nat,
            landed: words_view(self.landed_tricks@),
            setter: self.setter,
        }
    }
}

impl Game {
    /// No player has more letters than the word has.
    pub open spec fn wf(&self) -> bool {
        self@.player1_letters <= FULL_WORD && self@.player2_letters <= FULL_WORD
    }

    /// A new match: no letters, nothing set, the first player to set.
    pub fn new() -> (r: Game)
        ensures
            r.wf(),
            r@.player1_letters == 0,
            r@.player2_letters == 0,
            r@.landed == Seq::<Seq<char>>::empty(),
            r@.setter == Player::One,
    {
        let r = Game {
            player1_letters: 0,
            player2_letters: 0,
            landed_tricks: Vec::new(),
            setter: Player::One,
        };
        assert(r@.landed =~= Seq::<Seq<char>>::empty());
        r
    }

    /// Whose turn it is to set a trick.
    pub fn setter(&self) -> (r: Player)
        ensures
            r == self@.setter,
    {
        self.setter
    }

    /// How many letters of SKATE `p` has.
    pub fn letters(&self, p: Player) -> (r: u8)
        ensures
            r == letters_of(self@, p),
    {
        match p {
            Player::One => self.player1_letters,
            Player::Two => self.player2_letters,
        }
    }

    /// The letters of SKATE that `p` has, as text.
    pub fn score(&self, p: Player) -> (r: &'static str)
        requires
            self.wf(),
        ensures
            r@ == score_text(letters_of(self@, p)),
    {
        let n = self.letters(p);
        proof {
            reveal_strlit("SKATE");
            reveal_strlit("SKAT");
            reveal_strlit("SKA");
            reveal_strlit("SK");
            reveal_strlit("S");
            reveal_strlit("");
        }
        if n == 0 {
            assert(""@ =~= score_text(0));
            ""
        } else if n == 1 {
            assert("S"@ =~= score_text(1));
            "S"
        } else if n == 2 {
            assert("SK"@ =~= score_text(2));
            "SK"
        } else if n == 3 {
            assert("SKA"@ =~= score_text(3));
            "SKA"
        } else if n == 4 {
            assert("SKAT"@ =~= score_text(4));
            "SKAT"
        } else {
            assert("SKATE"@ =~= score_text(5));
            "SKATE"
        }
    }

    /// The winner, once the match is over.
    pub fn winner(&self) -> (r: Option<Player>)
        ensures
            r == winner_of(self@),
    {
        if self.player1_letters == FULL_WORD {
            Some(Player::Two)
        } else if self.player2_letters == FULL_WORD {
            Some(Player::One)
        } else {
            None
        }
    }

    /// Gives `player` the next letter of SKATE; one who has the whole word
    /// keeps it.
    pub fn add_letter(&mut self, player: Player)
        requires
            old(self).wf(),
        ensures
            final(self).wf(),
            final(self)@ == with_letter(old(self)@, player),
    {
        match player {
            Player::One => {
                if self.player1_letters < FULL_WORD {
                    self.player1_letters = self.player1_letters + 1;
                }
            },
            Player::Two => {
                if self.player2_letters < FULL_WORD {
                    self.player2_letters = self.player2_letters + 1;
                }
            },
        }
    }

    /// Whether the phrase `key` has been set before in this match.
    pub fn has_landed(&self, key: &String) -> (r: bool)
        ensures
            r == self@.landed.contains(key@),
    {
        let ghost landed = self@.landed;
        let mut i: usize = 0;
        while i < self.landed_tricks.len()
            invariant
                landed == self@.landed,
                landed.len() == self.landed_tricks@.len(),
                i <= landed.len(),
                forall|j: int| 0 <= j < i ==> landed[j] != key@,
            decreases self.landed_tricks.len() - i,
        {
            assert(landed[i as int] == self.landed_tricks@[i as int]@);
            if self.landed_tricks[i] == *key {
                return true;
            }
            i = i + 1;
        }
        false
    }

    /// Settles the setter's attempt at the phrase `key` and, where it was
    /// landed, the opponent's attempt to match it; then passes the turn
    /// unless the match is over.
    pub fn record_attempt(&mut self, key: String, setter_landed: bool, matcher_landed: bool)
        requires
            old(self).wf(),
        ensures
            final(self).wf(),
            final(self)@ == after_attempt(old(self)@, key@, setter_landed, matcher_landed),
    {
        let ghost g = self@;
        let setter = self.setter;
        let other = match setter {
            Player::One => Player::Two,
            Player::Two => Player::One,
        };
        if setter_landed {
            self.landed_tricks.push(key);
            assert(self@.landed =~= g.landed.push(key@));
            if !matcher_landed {
                self.add_letter(other);
            }
        }
        if self.player1_letters != FULL_WORD && self.player2_letters != FULL_WORD {
            self.setter = other;
        }
    }

    /// Plays one turn on the phrase `input`: parses it, refuses a phrase set
    /// before (in any case), and otherwise has the setter attempt the trick
    /// and, where it lands, the opponent attempt to match it.
    pub fn play_turn(&mut self, input: &str) -> (r: TurnOutcome)
        requires
            old(self).wf(),
        ensures
            final(self).wf(),
            match r {
                TurnOutcome::Invalid(e) => {
                    &&& parse_words(words_of(lower_of(input@))) == Err::<Trick, ParseFault>(e@)
                    &&& final(self)@ == old(self)@
                },
                TurnOutcome::AlreadyLanded => {
                    &&& parse_words(words_of(lower_of(input@))) is Ok
                    &&& old(self)@.landed.contains(lower_of(input@))
                    &&& final(self)@ == old(self)@
                },
                TurnOutcome::Attempted { trick, chance, setter_landed, matcher_landed } => {
                    &&& parse_words(words_of(lower_of(input@))) == Ok::<Trick, ParseFault>(trick)
                    &&& !old(self)@.landed.contains(lower_of(input@))
                    &&& chance == chance_of(trick)
                    &&& (!setter_landed ==> !matcher_landed)
                    &&& final(self)@ == after_attempt(
                        old(self)@,
                        lower_of(input@),
                        setter_landed,
                        matcher_landed,
                    )
                },
            },
    {
        let trick = match Trick::parse(input) {
            Ok(t) => t,
            Err(e) => {
                return TurnOutcome::Invalid(e);
            },
        };
        let key = lowercase(input);
        if self.has_landed(&key) {
            return TurnOutcome::AlreadyLanded;
        }
        let chance = trick.calculate_chance();
        let setter_landed = trick.land_trick(chance);
        let matcher_landed = if setter_landed {
            trick.land_trick(chance)
        } else {
            false
        };
        self.record_attempt(key, setter_landed, matcher_landed);
        TurnOutcome::Attempted { trick, chance, setter_landed, matcher_landed }
    }
}

} // verus!
