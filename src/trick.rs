//! Tricks and the grammar of the phrases that name them.
use vstd::prelude::*;

verus! {

/// Which way a rotation goes.
#[derive(Debug, Clone, Copy, PartialEq, Eq, Structural)]
pub enum Direction {
    Fs,
    Bs,
}

/// How far a rotation goes.
#[derive(Debug, Clone, Copy, PartialEq, Eq, Structural)]
pub enum Angle {
    A180,
    A360,
}

/// The footing a trick starts from; every trick has exactly one.
#[derive(Debug, Clone, Copy, PartialEq, Eq, Structural)]
pub enum Stance {
    Ollie,
    Nollie,
    Fakie,
    Switch,
}

#[derive(Debug, Clone, Copy, PartialEq, Eq, Structural)]
pub enum FlipType {
    Heelflip,
    Kickflip,
}

#[derive(Debug, Clone, Copy, PartialEq, Eq, Structural)]
pub enum CatchType {
    North,
    South,
}

/// A rotation of body and board together.
#[derive(Debug, Clone, Copy, PartialEq, Eq, Structural)]
pub struct Turn {
    pub direction: Direction,
    pub angle: Angle,
}

/// A rotation of the board alone.
#[derive(Debug, Clone, Copy, PartialEq, Eq, Structural)]
pub struct Shuv {
    pub direction: Direction,
    pub angle: Angle,
}

/// A validated trick: a stance and at most one modifier of each other kind.
#[derive(Debug, Clone, Copy, PartialEq, Eq, Structural)]
pub struct Trick {
    pub turn: Option<Turn>,
    pub stance: Stance,
    pub shuv: Option<Shuv>,
    pub flip: Option<FlipType>,
    pub catch: Option<CatchType>,
    pub revert: bool,
}

/// The kinds of modifier, each of which a trick may name at most once.
#[derive(Debug, Clone, Copy, PartialEq, Eq, Structural)]
pub enum Category {
    Turn,
    Shuv,
    Stance,
    Flip,
    Catch,
    Revert,
}

/// Why a phrase is not a trick.
#[derive(Debug, Clone, PartialEq, Eq)]
pub enum ParseError {
    /// "fs" or "bs" not followed by "180" or "360".
    MissingAngleOrDirection,
    /// A second modifier of a kind already named.
    DuplicateModifier(Category),
    /// A word outside the vocabulary of tricks.
    UnknownToken(String),
    /// The phrase names no stance.
    MissingStance,
}

/// The mathematical value of a `ParseError`: the unknown word as characters.
pub enum ParseFault {
    MissingAngleOrDirection,
    DuplicateModifier(Category),
    UnknownToken(Seq<char>),
    MissingStance,
}

impl View for ParseError {
    type V = ParseFault;

    open spec fn view(&self) -> ParseFault {
        match self {
            ParseError::MissingAngleOrDirection => ParseFault::MissingAngleOrDirection,
            ParseError::DuplicateModifier(c) => ParseFault::DuplicateModifier(*c),
            ParseError::UnknownToken(w) => ParseFault::UnknownToken(w@),
            ParseError::MissingStance => ParseFault::MissingStance,
        }
    }
}

/// The value of a parse result, with its error seen through `view`.
pub open spec fn outcome(r: Result<Trick, ParseError>) -> Result<Trick, ParseFault> {
    match r {
        Ok(t) => Ok(t),
        Err(e) => Err(e@),
    }
}

/// The modifiers read so far from a phrase; the stance may still be missing.
#[derive(Debug, Clone, Copy, PartialEq, Eq, Structural)]
pub struct Modifiers {
    pub turn: Option<Turn>,
    pub stance: Option<Stance>,
    pub shuv: Option<Shuv>,
    pub flip: Option<FlipType>,
    pub catch: Option<CatchType>,
    pub revert: bool,
}

pub open spec fn no_modifiers() -> Modifiers {
    Modifiers { turn: None, stance: None, shuv: None, flip: None, catch: None, revert: false }
}

pub open spec fn direction_of(w: Seq<char>) -> Option<Direction> {
    if w == "fs"@ {
        Some(Direction::Fs)
    } else if w == "bs"@ {
        Some(Direction::Bs)
    } else {
        None
    }
}

pub open spec fn angle_of(w: Seq<char>) -> Option<Angle> {
    if w == "180"@ {
        Some(Angle::A180)
    } else if w == "360"@ {
        Some(Angle::A360)
    } else {
        None
    }
}

pub open spec fn stance_of(w: Seq<char>) -> Option<Stance> {
    if w == "ollie"@ {
        Some(Stance::Ollie)
    } else if w == "nollie"@ {
        Some(Stance::Nollie)
    } else if w == "fakie"@ {
        Some(Stance::Fakie)
    } else if w == "switch"@ {
        Some(Stance::Switch)
    } else {
        None
    }
}

pub open spec fn flip_of(w: Seq<char>) -> Option<FlipType> {
    if w == "heelflip"@ {
        Some(FlipType::Heelflip)
    } else if w == "kickflip"@ {
        Some(FlipType::Kickflip)
    } else {
        None
    }
}

pub open spec fn catch_of(w: Seq<char>) -> Option<CatchType> {
    if w == "north"@ {
        Some(CatchType::North)
    } else if w == "south"@ {
        Some(CatchType::South)
    } else {
        None
    }
}

/// Reads the words of `ws` from position `i` on into `m`, left to right,
/// stopping at the first word that breaks the grammar.
pub open spec fn scan(ws: Seq<Seq<char>>, i: int, m: Modifiers) -> Result<Modifiers, ParseFault>
    decreases ws.len() - i,
{
    if i < 0 || i >= ws.len() {
        Ok(m)
    } else if let Some(d) = direction_of(ws[i]) {
        if i + 1 < ws.len() && angle_of(ws[i + 1]) is Some {
            let a = angle_of(ws[i + 1])->Some_0;
            if i + 2 < ws.len() && ws[i + 2] == "shuv"@ {
                if m.shuv is Some {
                    Err(ParseFault::DuplicateModifier(Category::Shuv))
                } else {
                    scan(ws, i + 3, Modifiers { shuv: Some(Shuv { direction: d, angle: a }), ..m })
                }
            } else if m.turn is Some {
                Err(ParseFault::DuplicateModifier(Category::Turn))
            } else {
                scan(ws, i + 2, Modifiers { turn: Some(Turn { direction: d, angle: a }), ..m })
            }
        } else {
            Err(ParseFault::MissingAngleOrDirection)
        }
    } else if let Some(s) = stance_of(ws[i]) {
        if m.stance is Some {
            Err(ParseFault::DuplicateModifier(Category::Stance))
        } else {
            scan(ws, i + 1, Modifiers { stance: Some(s), ..m })
        }
    } else if let Some(f) = flip_of(ws[i]) {
        if m.flip is Some {
            Err(ParseFault::DuplicateModifier(Category::Flip))
        } else {
            scan(ws, i + 1, Modifiers { flip: Some(f), ..m })
        }
    } else if let Some(c) = catch_of(ws[i]) {
        if m.catch is Some {
            Err(ParseFault::DuplicateModifier(Category::Catch))
        } else {
            scan(ws, i + 1, Modifiers { catch: Some(c), ..m })
        }
    } else if ws[i] == "revert"@ {
        if m.revert {
            Err(ParseFault::DuplicateModifier(Category::Revert))
        } else {
            scan(ws, i + 1, Modifiers { revert: true, ..m })
        }
    } else {
        Err(ParseFault::UnknownToken(ws[i]))
    }
}

/// What a phrase of the words `ws` (already in lower case) denotes.
pub open spec fn parse_words(ws: Seq<Seq<char>>) -> Result<Trick, ParseFault> {
    match scan(ws, 0, no_modifiers()) {
        Err(e) => Err(e),
        Ok(m) => match m.stance {
            None => Err(ParseFault::MissingStance),
            Some(s) => Ok(
                Trick {
                    turn: m.turn,
                    stance: s,
                    shuv: m.shuv,
                    flip: m.flip,
                    catch: m.catch,
                    revert: m.revert,
                },
            ),
        },
    }
}

pub open spec fn words_view(v: Seq<String>) -> Seq<Seq<char>> {
    v.map_values(|w: String| w@)
}

/// What `str::to_lowercase` makes of a text.
pub uninterp spec fn lower_of(s: Seq<char>) -> Seq<char>;

/// The words that `str::split_whitespace` finds in a text.
pub uninterp spec fn words_of(s: Seq<char>) -> Seq<Seq<char>>;

/// Relies on str::to_lowercase: the result depends on the characters alone,
/// and the empty text stays empty.
#[verifier::external_body]
pub(crate) fn lowercase(s: &str) -> (r: String)
    ensures
        r@ == lower_of(s@),
        s@.len() == 0 ==> r@.len() == 0,
{
    s.to_lowercase()
}

/// Relies on str::split_whitespace: the words of the text, in order; the
/// empty text has none.
#[verifier::external_body]
fn split_words(s: &str) -> (r: Vec<String>)
    ensures
        words_view(r@) == words_of(s@),
        s@.len() == 0 ==> r@.len() == 0,
{
    s.split_whitespace().map(|w| w.to_string()).collect()
}

fn is_word(w: &String, lit: &str) -> (r: bool)
    ensures
        r == (w@ == lit@),
{
    let owned = lit.to_owned();
    *w == owned
}

impl Trick {
    /// Parses a trick phrase: lower case, split into words, then read by
    /// `parse_tokens`.
    pub fn parse(input: &str) -> (r: Result<Trick, ParseError>)
        ensures
            outcome(r) == parse_words(words_of(lower_of(input@))),
            input@.len() == 0 ==> r == Err::<Trick, ParseError>(ParseError::MissingStance),
    {
        let lower = lowercase(input);
        let words = split_words(lower.as_str());
        Trick::parse_tokens(&words)
    }

    /// Reads a trick from its words, already in lower case.
    pub fn parse_tokens(words: &Vec<String>) -> (r: Result<Trick, ParseError>)
        ensures
            outcome(r) == parse_words(words_view(words@)),
    {
        let ghost ws = words_view(words@);
        let n = words.len();
        let mut m = Modifiers {
            turn: None,
            stance: None,
            shuv: None,
            flip: None,
            catch: None,
            revert: false,
        };
        let mut i: usize = 0;
        while i < n
            invariant
                n == words@.len(),
                ws == words_view(words@),
                ws.len() == n,
                i <= n,
                scan(ws, 0, no_modifiers()) == scan(ws, i as int, m),
            decreases n - i,
        {
            let w = &words[i];
            assert(ws[i as int] == w@);
            let fs = is_word(w, "fs");
            if fs || is_word(w, "bs") {
                let direction = if fs {
                    Direction::Fs
                } else {
                    Direction::Bs
                };
                if i + 1 >= n {
                    return Err(ParseError::MissingAngleOrDirection);
                }
                let next = &words[i + 1];
                assert(ws[i + 1] == next@);
                let angle = if is_word(next, "180") {
                    Angle::A180
                } else if is_word(next, "360") {
                    Angle::A360
                } else {
                    return Err(ParseError::MissingAngleOrDirection);
                };
                let is_shuv = i + 2 < n && is_word(&words[i + 2], "shuv");
                proof {
                    if i + 2 < n {
                        assert(ws[i + 2] == words@[i + 2]@);
                    }
                }
                if is_shuv {
                    if m.shuv.is_some() {
                        return Err(ParseError::DuplicateModifier(Category::Shuv));
                    }
                    m = Modifiers { shuv: Some(Shuv { direction, angle }), ..m };
                    i = i + 3;
                } else {
                    if m.turn.is_some() {
                        return Err(ParseError::DuplicateModifier(Category::Turn));
                    }
                    m = Modifiers { turn: Some(Turn { direction, angle }), ..m };
                    i = i + 2;
                }
            } else if is_word(w, "ollie") || is_word(w, "nollie") || is_word(w, "fakie")
                || is_word(w, "switch") {
                if m.stance.is_some() {
                    return Err(ParseError::DuplicateModifier(Category::Stance));
                }
                let stance = if is_word(w, "ollie") {
                    Stance::Ollie
                } else if is_word(w, "nollie") {
                    Stance::Nollie
                } else if is_word(w, "fakie") {
                    Stance::Fakie
                } else {
                    Stance::Switch
                };
                m = Modifiers { stance: Some(stance), ..m };
                i = i + 1;
            } else if is_word(w, "heelflip") || is_word(w, "kickflip") {
                if m.flip.is_some() {
                    return Err(ParseError::DuplicateModifier(Category::Flip));
                }
                let flip = if is_word(w, "heelflip") {
                    FlipType::Heelflip
                } else {
                    FlipType::Kickflip
                };
                m = Modifiers { flip: Some(flip), ..m };
                i = i + 1;
            } else if is_word(w, "north") || is_word(w, "south") {
                if m.catch.is_some() {
                    return Err(ParseError::DuplicateModifier(Category::Catch));
                }
                let catch = if is_word(w, "north") {
                    CatchType::North
                } else {
                    CatchType::South
                };
                m = Modifiers { catch: Some(catch), ..m };
                i = i + 1;
            } else if is_word(w, "revert") {
                if m.revert {
                    return Err(ParseError::DuplicateModifier(Category::Revert));
                }
                m = Modifiers { revert: true, ..m };
                i = i + 1;
            } else {
                return Err(ParseError::UnknownToken(w.clone()));
            }
        }
        match m.stance {
            None => Err(ParseError::MissingStance),
            Some(stance) => Ok(
                Trick {
                    turn: m.turn,
                    stance,
                    shuv: m.shuv,
                    flip: m.flip,
                    catch: m.catch,
                    revert: m.revert,
                },
            ),
        }
    }
}

} // verus!
