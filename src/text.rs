//! The words that show a trick or a parse error to a player.
use crate::trick::{Angle, CatchType, Category, Direction, FlipType, ParseError, ParseFault, Stance, Trick};
use vstd::prelude::*;

verus! {

impl Category {
    /// The word for this kind of modifier.
    pub fn name(&self) -> (r: &'static str)
        ensures
            r@ == category_name(*self),
    {
        match self {
            Category::Turn => "turn",
            Category::Shuv => "shuv",
            Category::Stance => "stance",
            Category::Flip => "flip",
            Category::Catch => "catch",
            Category::Revert => "revert",
        }
    }
}

pub open spec fn category_name(c: Category) -> Seq<char> {
    match c {
        Category::Turn => "turn"@,
        Category::Shuv => "shuv"@,
        Category::Stance => "stance"@,
        Category::Flip => "flip"@,
        Category::Catch => "catch"@,
        Category::Revert => "revert"@,
    }
}

pub open spec fn fault_message(e: ParseFault) -> Seq<char> {
    match e {
        ParseFault::MissingAngleOrDirection => "Turn or shuv must have both direction and angle"@,
        ParseFault::DuplicateModifier(c) => "Only one "@ + category_name(c) + " modifier allowed"@,
        ParseFault::UnknownToken(w) => "Unknown component: "@ + w,
        ParseFault::MissingStance => "A stance (ollie, nollie, fakie, or switch) is required"@,
    }
}

impl ParseError {
    /// The message that tells a player what is wrong with the phrase.
    pub fn message(&self) -> (r: String)
        ensures
            r@ == fault_message(self@),
    {
        match self {
            ParseError::MissingAngleOrDirection => String::from_str(
                "Turn or shuv must have both direction and angle",
            ),
            ParseError::DuplicateModifier(c) => {
                let mut r = String::from_str("Only one ");
                r.append(c.name());
                r.append(" modifier allowed");
                r
            },
            ParseError::UnknownToken(w) => {
                let mut r = String::from_str("Unknown component: ");
                r.append(w.as_str());
                r
            },
            ParseError::MissingStance => String::from_str(
                "A stance (ollie, nollie, fakie, or switch) is required",
            ),
        }
    }
}

pub open spec fn direction_name(d: Direction) -> Seq<char> {
    match d {
        Direction::Fs => "Forward"@,
        Direction::Bs => "Backward"@,
    }
}

pub open spec fn angle_name(a: Angle) -> Seq<char> {
    match a {
        Angle::A180 => "180"@,
        Angle::A360 => "360"@,
    }
}

pub open spec fn stance_name(s: Stance) -> Seq<char> {
    match s {
        Stance::Ollie => "Ollie"@,
        Stance::Nollie => "Nollie"@,
        Stance::Fakie => "Fakie"@,
        Stance::Switch => "Switch"@,
    }
}

pub open spec fn flip_name(f: FlipType) -> Seq<char> {
    match f {
        FlipType::Heelflip => "Heelflip"@,
        FlipType::Kickflip => "Kickflip"@,
    }
}

pub open spec fn catch_name(c: CatchType) -> Seq<char> {
    match c {
        CatchType::North => "North"@,
        CatchType::South => "South"@,
    }
}

pub open spec fn turn_words(t: Trick) -> Seq<Seq<char>> {
    match t.turn {
        Some(r) => seq![direction_name(r.direction), angle_name(r.angle)],
        None => seq![],
    }
}

pub open spec fn shuv_words(t: Trick) -> Seq<Seq<char>> {
    match t.shuv {
        Some(r) => seq![direction_name(r.direction), angle_name(r.angle), "shuv"@],
        None => seq![],
    }
}

pub open spec fn tail_words(t: Trick) -> Seq<Seq<char>> {
    let flip = match t.flip {
        Some(f) => seq![flip_name(f)],
        None => seq![],
    };
    let catch = match t.catch {
        Some(c) => seq![catch_name(c)],
        None => seq![],
    };
    let revert = if t.revert {
        seq!["revert"@]
    } else {
        seq![]
    };
    flip + catch + revert
}

/// The words of a trick's rendering, in the order turn, stance, shuv, flip,
/// catch, revert.
pub open spec fn display_words(t: Trick) -> Seq<Seq<char>> {
    turn_words(t).push(stance_name(t.stance)) + shuv_words(t) + tail_words(t)
}

/// Words joined by single spaces.
pub open spec fn join_words(ws: Seq<Seq<char>>) -> Seq<char>
    decreases ws.len(),
{
    if ws.len() == 0 {
        seq![]
    } else if ws.len() == 1 {
        ws[0]
    } else {
        join_words(ws.drop_last()) + " "@ + ws.last()
    }
}

fn push_word(out: &mut String, w: &str, first: bool, Ghost(ws): Ghost<Seq<Seq<char>>>)
    requires
        old(out)@ == join_words(ws),
        first == (ws.len() == 0),
    ensures
        final(out)@ == join_words(ws.push(w@)),
{
    proof {
        assert(ws.push(w@).drop_last() == ws);
    }
    if !first {
        out.append(" ");
    }
    out.append(w);
}

fn direction_label(d: Direction) -> (r: &'static str)
    ensures
        r@ == direction_name(d),
{
    match d {
        Direction::Fs => "Forward",
        Direction::Bs => "Backward",
    }
}

fn angle_label(a: Angle) -> (r: &'static str)
    ensures
        r@ == angle_name(a),
{
    match a {
        Angle::A180 => "180",
        Angle::A360 => "360",
    }
}

fn stance_label(s: Stance) -> (r: &'static str)
    ensures
        r@ == stance_name(s),
{
    match s {
        Stance::Ollie => "Ollie",
        Stance::Nollie => "Nollie",
        Stance::Fakie => "Fakie",
        Stance::Switch => "Switch",
    }
}

fn flip_label(f: FlipType) -> (r: &'static str)
    ensures
        r@ == flip_name(f),
{
    match f {
        FlipType::Heelflip => "Heelflip",
        FlipType::Kickflip => "Kickflip",
    }
}

fn catch_label(c: CatchType) -> (r: &'static str)
    ensures
        r@ == catch_name(c),
{
    match c {
        CatchType::North => "North",
        CatchType::South => "South",
    }
}

fn push_turn(out: &mut String, t: &Trick)
    requires
        old(out)@ == Seq::<char>::empty(),
    ensures
        final(out)@ == join_words(turn_words(*t)),
{
    if let Some(r) = t.turn {
        let ghost ws: Seq<Seq<char>> = seq![];
        push_word(out, direction_label(r.direction), true, Ghost(ws));
        push_word(out, angle_label(r.angle), false, Ghost(ws.push(direction_name(r.direction))));
        assert(ws.push(direction_name(r.direction)).push(angle_name(r.angle)) =~= turn_words(*t));
    }
}

fn push_shuv(out: &mut String, t: &Trick, Ghost(ws): Ghost<Seq<Seq<char>>>)
    requires
        old(out)@ == join_words(ws),
        ws.len() > 0,
    ensures
        final(out)@ == join_words(ws + shuv_words(*t)),
{
    if let Some(r) = t.shuv {
        let ghost w1 = ws.push(direction_name(r.direction));
        let ghost w2 = w1.push(angle_name(r.angle));
        push_word(out, direction_label(r.direction), false, Ghost(ws));
        push_word(out, angle_label(r.angle), false, Ghost(w1));
        push_word(out, "shuv", false, Ghost(w2));
        assert(w2.push("shuv"@) =~= ws + shuv_words(*t));
    } else {
        assert(ws + shuv_words(*t) =~= ws);
    }
}

fn push_tail(out: &mut String, t: &Trick, Ghost(ws): Ghost<Seq<Seq<char>>>)
    requires
        old(out)@ == join_words(ws),
        ws.len() > 0,
    ensures
        final(out)@ == join_words(ws + tail_words(*t)),
{
    let ghost mut cur = ws;
    if let Some(f) = t.flip {
        push_word(out, flip_label(f), false, Ghost(cur));
        proof {
            cur = cur.push(flip_name(f));
        }
    }
    if let Some(c) = t.catch {
        push_word(out, catch_label(c), false, Ghost(cur));
        proof {
            cur = cur.push(catch_name(c));
        }
    }
    if t.revert {
        push_word(out, "revert", false, Ghost(cur));
        proof {
            cur = cur.push("revert"@);
        }
    }
    assert(cur =~= ws + tail_words(*t));
}

impl Trick {
    /// The trick in words: turn, stance, shuv, flip, catch and revert, in
    /// that order, separated by single spaces.
    pub fn display(&self) -> (r: String)
        ensures
            r@ == join_words(display_words(*self)),
    {
        let mut out = String::new();
        push_turn(&mut out, self);
        let ghost w0 = turn_words(*self);
        push_word(&mut out, stance_label(self.stance), self.turn.is_none(), Ghost(w0));
        let ghost w1 = w0.push(stance_name(self.stance));
        push_shuv(&mut out, self, Ghost(w1));
        let ghost w2 = w1 + shuv_words(*self);
        push_tail(&mut out, self, Ghost(w2));
        out
    }
}

} // verus!
