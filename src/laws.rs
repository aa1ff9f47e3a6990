//! What holds of the grammar for every phrase: a phrase is modelled as the
//! modifiers it names, each written as its words.
use crate::text::{catch_name, display_words, flip_name, stance_name, tail_words};
use crate::trick::{
    angle_of, catch_of, direction_of, flip_of, no_modifiers, parse_words, scan, stance_of,
    Angle, CatchType, Category, Direction, FlipType, Modifiers, ParseFault, Shuv, Stance, Trick,
    Turn,
};
use vstd::prelude::*;

verus! {

/// One modifier of a trick phrase, as it stands in the phrase.
pub enum Modifier {
    Turn(Turn),
    Shuv(Shuv),
    Stance(Stance),
    Flip(FlipType),
    Catch(CatchType),
    Revert,
}

pub open spec fn category_of(x: Modifier) -> Category {
    match x {
        Modifier::Turn(_) => Category::Turn,
        Modifier::Shuv(_) => Category::Shuv,
        Modifier::Stance(_) => Category::Stance,
        Modifier::Flip(_) => Category::Flip,
        Modifier::Catch(_) => Category::Catch,
        Modifier::Revert => Category::Revert,
    }
}

pub open spec fn direction_word(d: Direction) -> Seq<char> {
    match d {
        Direction::Fs => "fs"@,
        Direction::Bs => "bs"@,
    }
}

pub open spec fn angle_word(a: Angle) -> Seq<char> {
    match a {
        Angle::A180 => "180"@,
        Angle::A360 => "360"@,
    }
}

pub open spec fn stance_word(s: Stance) -> Seq<char> {
    match s {
        Stance::Ollie => "ollie"@,
        Stance::Nollie => "nollie"@,
        Stance::Fakie => "fakie"@,
        Stance::Switch => "switch"@,
    }
}

pub open spec fn flip_word(f: FlipType) -> Seq<char> {
    match f {
        FlipType::Heelflip => "heelflip"@,
        FlipType::Kickflip => "kickflip"@,
    }
}

pub open spec fn catch_word(c: CatchType) -> Seq<char> {
    match c {
        CatchType::North => "north"@,
        CatchType::South => "south"@,
    }
}

/// The lower-case words that name a modifier.
pub open spec fn modifier_words(x: Modifier) -> Seq<Seq<char>> {
    match x {
        Modifier::Turn(r) => seq![direction_word(r.direction), angle_word(r.angle)],
        Modifier::Shuv(r) => seq![direction_word(r.direction), angle_word(r.angle), "shuv"@],
        Modifier::Stance(s) => seq![stance_word(s)],
        Modifier::Flip(f) => seq![flip_word(f)],
        Modifier::Catch(c) => seq![catch_word(c)],
        Modifier::Revert => seq!["revert"@],
    }
}

/// The words of a phrase that names the modifiers `xs` in order.
pub open spec fn phrase_words(xs: Seq<Modifier>) -> Seq<Seq<char>>
    decreases xs.len(),
{
    if xs.len() == 0 {
        seq![]
    } else {
        modifier_words(xs[0]) + phrase_words(xs.drop_first())
    }
}

/// Whether `m` already holds a modifier of category `c`.
pub open spec fn holds(m: Modifiers, c: Category) -> bool {
    match c {
        Category::Turn => m.turn is Some,
        Category::Shuv => m.shuv is Some,
        Category::Stance => m.stance is Some,
        Category::Flip => m.flip is Some,
        Category::Catch => m.catch is Some,
        Category::Revert => m.revert,
    }
}

pub open spec fn apply(m: Modifiers, x: Modifier) -> Modifiers {
    match x {
        Modifier::Turn(r) => Modifiers { turn: Some(r), ..m },
        Modifier::Shuv(r) => Modifiers { shuv: Some(r), ..m },
        Modifier::Stance(s) => Modifiers { stance: Some(s), ..m },
        Modifier::Flip(f) => Modifiers { flip: Some(f), ..m },
        Modifier::Catch(c) => Modifiers { catch: Some(c), ..m },
        Modifier::Revert => Modifiers { revert: true, ..m },
    }
}

/// Adds the modifiers `xs` to `m` in order, failing at the first one whose
/// category is already held.
pub open spec fn apply_all(xs: Seq<Modifier>, m: Modifiers) -> Result<Modifiers, ParseFault>
    decreases xs.len(),
{
    if xs.len() == 0 {
        Ok(m)
    } else if holds(m, category_of(xs[0])) {
        Err(ParseFault::DuplicateModifier(category_of(xs[0])))
    } else {
        apply_all(xs.drop_first(), apply(m, xs[0]))
    }
}

/// How many of `xs` are of category `c`.
pub open spec fn count_of(xs: Seq<Modifier>, c: Category) -> nat
    decreases xs.len(),
{
    if xs.len() == 0 {
        0
    } else {
        (if category_of(xs[0]) == c {
            1nat
        } else {
            0nat
        }) + count_of(xs.drop_first(), c)
    }
}

proof fn lemma_vocabulary()
    ensures
        "fs"@.len() == 2 && "fs"@[0] == 'f',
        "bs"@.len() == 2 && "bs"@[0] == 'b',
        "180"@.len() == 3 && "180"@[0] == '1',
        "360"@.len() == 3 && "360"@[0] == '3',
        "shuv"@.len() == 4,
        "ollie"@.len() == 5 && "ollie"@[0] == 'o',
        "fakie"@.len() == 5 && "fakie"@[0] == 'f',
        "north"@.len() == 5 && "north"@[0] == 'n',
        "south"@.len() == 5 && "south"@[0] == 's',
        "nollie"@.len() == 6 && "nollie"@[0] == 'n',
        "switch"@.len() == 6 && "switch"@[0] == 's',
        "revert"@.len() == 6 && "revert"@[0] == 'r',
        "heelflip"@.len() == 8 && "heelflip"@[0] == 'h',
        "kickflip"@.len() == 8 && "kickflip"@[0] == 'k',
{
    reveal_strlit("fs");
    reveal_strlit("bs");
    reveal_strlit("180");
    reveal_strlit("360");
    reveal_strlit("shuv");
    reveal_strlit("ollie");
    reveal_strlit("nollie");
    reveal_strlit("fakie");
    reveal_strlit("switch");
    reveal_strlit("heelflip");
    reveal_strlit("kickflip");
    reveal_strlit("north");
    reveal_strlit("south");
    reveal_strlit("revert");
}

/// Scanning from a position past a prefix does not look at the prefix.
proof fn lemma_scan_shift(a: Seq<Seq<char>>, b: Seq<Seq<char>>, j: int, m: Modifiers)
    requires
        0 <= j,
    ensures
        scan(a + b, a.len() + j, m) == scan(b, j, m),
    decreases b.len() - j,
{
    let ws = a + b;
    let i = a.len() + j;
    if j < b.len() {
        assert(ws[i] == b[j]);
        if j + 1 < b.len() {
            assert(ws[i + 1] == b[j + 1]);
        }
        if j + 2 < b.len() {
            assert(ws[i + 2] == b[j + 2]);
        }
        if let Some(d) = direction_of(b[j]) {
            if j + 1 < b.len() && angle_of(b[j + 1]) is Some {
                let a1 = angle_of(b[j + 1])->Some_0;
                if j + 2 < b.len() && b[j + 2] == "shuv"@ {
                    lemma_scan_shift(a, b, j + 3, Modifiers { shuv: Some(Shuv { direction: d, angle: a1 }), ..m });
                } else {
                    lemma_scan_shift(a, b, j + 2, Modifiers { turn: Some(Turn { direction: d, angle: a1 }), ..m });
                }
            }
        } else if let Some(s) = stance_of(b[j]) {
            lemma_scan_shift(a, b, j + 1, Modifiers { stance: Some(s), ..m });
        } else if let Some(f) = flip_of(b[j]) {
            lemma_scan_shift(a, b, j + 1, Modifiers { flip: Some(f), ..m });
        } else if let Some(c) = catch_of(b[j]) {
            lemma_scan_shift(a, b, j + 1, Modifiers { catch: Some(c), ..m });
        } else {
            lemma_scan_shift(a, b, j + 1, Modifiers { revert: true, ..m });
        }
    }
}

/// A phrase made of modifiers is read modifier by modifier.
proof fn lemma_scan_phrase(xs: Seq<Modifier>, m: Modifiers)
    ensures
        scan(phrase_words(xs), 0, m) == apply_all(xs, m),
    decreases xs.len(),
{
    if xs.len() > 0 {
        lemma_vocabulary();
        let x = xs[0];
        let w = modifier_words(x);
        let rest = phrase_words(xs.drop_first());
        let ws = w + rest;
        assert(phrase_words(xs) == ws);
        assert(ws[0] == w[0]);
        if w.len() > 1 {
            assert(ws[1] == w[1]);
        }
        if w.len() > 2 {
            assert(ws[2] == w[2]);
        }
        if rest.len() > 0 {
            let y = xs.drop_first()[0];
            assert(rest[0] == modifier_words(y)[0]);
            assert(ws[w.len() as int] == rest[0]);
            assert(rest[0] != "shuv"@);
        }
        lemma_scan_shift(w, rest, 0, apply(m, x));
        lemma_scan_phrase(xs.drop_first(), apply(m, x));
        assert(w + rest == ws);
    }
}

proof fn lemma_apply_holds(m: Modifiers, x: Modifier, c: Category)
    ensures
        holds(apply(m, x), c) == (holds(m, c) || c == category_of(x)),
{
}

pub open spec fn held(m: Modifiers, c: Category) -> nat {
    if holds(m, c) {
        1
    } else {
        0
    }
}

proof fn lemma_only_repeat(xs: Seq<Modifier>, m: Modifiers, c: Category)
    requires
        held(m, c) + count_of(xs, c) >= 2,
        forall|d: Category| d != c ==> held(m, d) + #[trigger] count_of(xs, d) <= 1,
    ensures
        apply_all(xs, m) == Err::<Modifiers, ParseFault>(ParseFault::DuplicateModifier(c)),
    decreases xs.len(),
{
    if xs.len() > 0 {
        let x = xs[0];
        let k = category_of(x);
        let rest = xs.drop_first();
        if holds(m, k) {
            if k != c {
                assert(held(m, k) + count_of(xs, k) <= 1);
            }
        } else {
            let m2 = apply(m, x);
            assert forall|d: Category| d != c implies held(m2, d) + #[trigger] count_of(rest, d)
                <= 1 by {
                lemma_apply_holds(m, x, d);
                assert(held(m, d) + count_of(xs, d) <= 1);
            }
            lemma_apply_holds(m, x, c);
            lemma_only_repeat(rest, m2, c);
        }
    }
}

proof fn lemma_some_repeat(xs: Seq<Modifier>, m: Modifiers, c: Category)
    requires
        held(m, c) + count_of(xs, c) >= 2,
    ensures
        apply_all(xs, m) matches Err(ParseFault::DuplicateModifier(_)),
    decreases xs.len(),
{
    if xs.len() > 0 {
        let x = xs[0];
        if !holds(m, category_of(x)) {
            lemma_apply_holds(m, x, c);
            lemma_some_repeat(xs.drop_first(), apply(m, x), c);
        }
    }
}

/// A phrase that names some kind of modifier twice is rejected as naming a
/// modifier twice, wherever the two stand.
pub proof fn lemma_repeated_modifier_rejected(xs: Seq<Modifier>, c: Category)
    requires
        count_of(xs, c) >= 2,
    ensures
        parse_words(phrase_words(xs)) matches Err(ParseFault::DuplicateModifier(_)),
{
    lemma_scan_phrase(xs, no_modifiers());
    lemma_some_repeat(xs, no_modifiers(), c);
}

/// A phrase that names one kind of modifier twice or more, and every other
/// kind at most once, is rejected with that kind, wherever the words stand.
pub proof fn lemma_duplicate_names_its_category(xs: Seq<Modifier>, c: Category)
    requires
        count_of(xs, c) >= 2,
        forall|d: Category| d != c ==> #[trigger] count_of(xs, d) <= 1,
    ensures
        parse_words(phrase_words(xs)) == Err::<Trick, ParseFault>(
            ParseFault::DuplicateModifier(c),
        ),
{
    lemma_scan_phrase(xs, no_modifiers());
    lemma_only_repeat(xs, no_modifiers(), c);
}

proof fn lemma_apply_all_concat(a: Seq<Modifier>, b: Seq<Modifier>, m: Modifiers)
    ensures
        apply_all(a + b, m) == match apply_all(a, m) {
            Ok(m2) => apply_all(b, m2),
            Err(e) => Err(e),
        },
    decreases a.len(),
{
    if a.len() > 0 {
        assert((a + b).drop_first() == a.drop_first() + b);
        assert((a + b)[0] == a[0]);
        lemma_apply_all_concat(a.drop_first(), b, apply(m, a[0]));
    } else {
        assert(a + b == b);
    }
}

pub open spec fn turn_part(t: Trick) -> Seq<Modifier> {
    match t.turn {
        Some(r) => seq![Modifier::Turn(r)],
        None => seq![],
    }
}

pub open spec fn shuv_part(t: Trick) -> Seq<Modifier> {
    match t.shuv {
        Some(r) => seq![Modifier::Shuv(r)],
        None => seq![],
    }
}

pub open spec fn flip_part(t: Trick) -> Seq<Modifier> {
    match t.flip {
        Some(f) => seq![Modifier::Flip(f)],
        None => seq![],
    }
}

pub open spec fn catch_part(t: Trick) -> Seq<Modifier> {
    match t.catch {
        Some(c) => seq![Modifier::Catch(c)],
        None => seq![],
    }
}

pub open spec fn revert_part(t: Trick) -> Seq<Modifier> {
    if t.revert {
        seq![Modifier::Revert]
    } else {
        seq![]
    }
}

/// The modifiers of a trick in the order of its rendering: turn, stance,
/// shuv, flip, catch, revert.
pub open spec fn trick_modifiers(t: Trick) -> Seq<Modifier> {
    turn_part(t) + seq![Modifier::Stance(t.stance)] + shuv_part(t) + flip_part(t) + catch_part(t)
        + revert_part(t)
}

/// The canonical phrase of a trick, in lower case: its modifiers' words in
/// the order of its rendering.
pub open spec fn canonical_words(t: Trick) -> Seq<Seq<char>> {
    phrase_words(trick_modifiers(t))
}

/// Reading the canonical phrase of a trick gives back the same trick.
pub proof fn lemma_canonical_round_trip(t: Trick)
    ensures
        parse_words(canonical_words(t)) == Ok::<Trick, ParseFault>(t),
{
    let turns = turn_part(t);
    let stances = seq![Modifier::Stance(t.stance)];
    let shuvs = shuv_part(t);
    let flips = flip_part(t);
    let catches = catch_part(t);
    let reverts = revert_part(t);
    let m0 = no_modifiers();
    let m1 = Modifiers { turn: t.turn, ..m0 };
    let m2 = Modifiers { stance: Some(t.stance), ..m1 };
    let m3 = Modifiers { shuv: t.shuv, ..m2 };
    let m4 = Modifiers { flip: t.flip, ..m3 };
    let m5 = Modifiers { catch: t.catch, ..m4 };
    let m6 = Modifiers { revert: t.revert, ..m5 };
    assert(apply_all(turns, m0) == Ok::<Modifiers, ParseFault>(m1)) by {
        reveal_with_fuel(apply_all, 2);
    }
    assert(apply_all(stances, m1) == Ok::<Modifiers, ParseFault>(m2)) by {
        reveal_with_fuel(apply_all, 2);
    }
    assert(apply_all(shuvs, m2) == Ok::<Modifiers, ParseFault>(m3)) by {
        reveal_with_fuel(apply_all, 2);
    }
    assert(apply_all(flips, m3) == Ok::<Modifiers, ParseFault>(m4)) by {
        reveal_with_fuel(apply_all, 2);
    }
    assert(apply_all(catches, m4) == Ok::<Modifiers, ParseFault>(m5)) by {
        reveal_with_fuel(apply_all, 2);
    }
    assert(apply_all(reverts, m5) == Ok::<Modifiers, ParseFault>(m6)) by {
        reveal_with_fuel(apply_all, 2);
    }
    lemma_apply_all_concat(turns, stances, m0);
    lemma_apply_all_concat(turns + stances, shuvs, m0);
    lemma_apply_all_concat(turns + stances + shuvs, flips, m0);
    lemma_apply_all_concat(turns + stances + shuvs + flips, catches, m0);
    lemma_apply_all_concat(turns + stances + shuvs + flips + catches, reverts, m0);
    lemma_scan_phrase(trick_modifiers(t), m0);
}

/// Adds the modifiers `xs` to `m` in order, each replacing any of its kind.
pub open spec fn apply_each(xs: Seq<Modifier>, m: Modifiers) -> Modifiers
    decreases xs.len(),
{
    if xs.len() == 0 {
        m
    } else {
        apply_each(xs.drop_first(), apply(m, xs[0]))
    }
}

proof fn lemma_distinct_applies(xs: Seq<Modifier>, m: Modifiers)
    requires
        forall|c: Category| held(m, c) + #[trigger] count_of(xs, c) <= 1,
    ensures
        apply_all(xs, m) == Ok::<Modifiers, ParseFault>(apply_each(xs, m)),
        held(m, Category::Stance) + count_of(xs, Category::Stance) == 1 ==> apply_each(
            xs,
            m,
        ).stance is Some,
    decreases xs.len(),
{
    if xs.len() > 0 {
        let x = xs[0];
        let m2 = apply(m, x);
        assert(held(m, category_of(x)) + count_of(xs, category_of(x)) <= 1);
        assert forall|c: Category| held(m2, c) + #[trigger] count_of(xs.drop_first(), c) <= 1 by {
            lemma_apply_holds(m, x, c);
            assert(held(m, c) + count_of(xs, c) <= 1);
        }
        lemma_apply_holds(m, x, Category::Stance);
        lemma_distinct_applies(xs.drop_first(), m2);
    }
}

/// A phrase that names each kind of modifier at most once, and a stance, is
/// a trick, whatever the order of its modifiers: the trick that holds each
/// of them.
pub proof fn lemma_phrase_in_any_order(xs: Seq<Modifier>)
    requires
        forall|c: Category| #[trigger] count_of(xs, c) <= 1,
        count_of(xs, Category::Stance) == 1,
    ensures
        ({
            let m = apply_each(xs, no_modifiers());
            parse_words(phrase_words(xs)) == Ok::<Trick, ParseFault>(
                Trick {
                    turn: m.turn,
                    stance: m.stance->Some_0,
                    shuv: m.shuv,
                    flip: m.flip,
                    catch: m.catch,
                    revert: m.revert,
                },
            )
        }),
{
    lemma_scan_phrase(xs, no_modifiers());
    lemma_distinct_applies(xs, no_modifiers());
}

/// A letter in ASCII lower case; other characters stay as they are.
pub open spec fn ascii_lower_char(c: char) -> char {
    if 'A' <= c && c <= 'Z' {
        ((c as u32) + 32) as char
    } else {
        c
    }
}

pub open spec fn ascii_lower(w: Seq<char>) -> Seq<char> {
    w.map_values(|c: char| ascii_lower_char(c))
}

proof fn lemma_phrase_words_concat(a: Seq<Modifier>, b: Seq<Modifier>)
    ensures
        phrase_words(a + b) == phrase_words(a) + phrase_words(b),
    decreases a.len(),
{
    if a.len() == 0 {
        assert(a + b =~= b);
        assert(phrase_words(a) + phrase_words(b) =~= phrase_words(b));
    } else {
        assert((a + b).drop_first() =~= a.drop_first() + b);
        assert((a + b)[0] == a[0]);
        lemma_phrase_words_concat(a.drop_first(), b);
        assert(phrase_words(a + b) =~= modifier_words(a[0]) + (phrase_words(a.drop_first())
            + phrase_words(b)));
    }
}

proof fn lemma_phrase_words_single(x: Modifier)
    ensures
        phrase_words(seq![x]) == modifier_words(x),
{
    let one = seq![x];
    assert(one.drop_first() =~= Seq::<Modifier>::empty());
    assert(one[0] == x);
    assert(phrase_words(one.drop_first()) == Seq::<Seq<char>>::empty());
    assert(modifier_words(x) + Seq::<Seq<char>>::empty() =~= modifier_words(x));
}

proof fn lemma_words_up_to_case(t: Trick)
    ensures
        ascii_lower(stance_name(t.stance)) == stance_word(t.stance),
        t.flip matches Some(f) ==> ascii_lower(flip_name(f)) == flip_word(f),
        t.catch matches Some(c) ==> ascii_lower(catch_name(c)) == catch_word(c),
        ascii_lower("revert"@) == "revert"@,
{
    reveal_strlit("Ollie");
    reveal_strlit("ollie");
    reveal_strlit("Nollie");
    reveal_strlit("nollie");
    reveal_strlit("Fakie");
    reveal_strlit("fakie");
    reveal_strlit("Switch");
    reveal_strlit("switch");
    reveal_strlit("Heelflip");
    reveal_strlit("heelflip");
    reveal_strlit("Kickflip");
    reveal_strlit("kickflip");
    reveal_strlit("North");
    reveal_strlit("north");
    reveal_strlit("South");
    reveal_strlit("south");
    reveal_strlit("revert");
    assert(ascii_lower("revert"@) =~= "revert"@);
    match t.stance {
        Stance::Ollie => assert(ascii_lower("Ollie"@) =~= "ollie"@),
        Stance::Nollie => assert(ascii_lower("Nollie"@) =~= "nollie"@),
        Stance::Fakie => assert(ascii_lower("Fakie"@) =~= "fakie"@),
        Stance::Switch => assert(ascii_lower("Switch"@) =~= "switch"@),
    }
    match t.flip {
        Some(FlipType::Heelflip) => assert(ascii_lower("Heelflip"@) =~= "heelflip"@),
        Some(FlipType::Kickflip) => assert(ascii_lower("Kickflip"@) =~= "kickflip"@),
        None => {},
    }
    match t.catch {
        Some(CatchType::North) => assert(ascii_lower("North"@) =~= "north"@),
        Some(CatchType::South) => assert(ascii_lower("South"@) =~= "south"@),
        None => {},
    }
}

/// A trick without rotations is rendered as its canonical phrase, but for
/// the case of its letters. (A rotation is rendered as "Forward 360" and
/// the like, which the grammar does not read.)
pub proof fn lemma_display_is_canonical_up_to_case(t: Trick)
    requires
        t.turn is None,
        t.shuv is None,
    ensures
        display_words(t).map_values(|w: Seq<char>| ascii_lower(w)) == canonical_words(t),
{
    let stances = seq![Modifier::Stance(t.stance)];
    let flips = flip_part(t);
    let catches = catch_part(t);
    let reverts = revert_part(t);
    assert(trick_modifiers(t) =~= stances + flips + catches + reverts);
    lemma_phrase_words_concat(stances, flips);
    lemma_phrase_words_concat(stances + flips, catches);
    lemma_phrase_words_concat(stances + flips + catches, reverts);
    lemma_phrase_words_single(Modifier::Stance(t.stance));
    if let Some(f) = t.flip {
        lemma_phrase_words_single(Modifier::Flip(f));
    }
    if let Some(c) = t.catch {
        lemma_phrase_words_single(Modifier::Catch(c));
    }
    if t.revert {
        lemma_phrase_words_single(Modifier::Revert);
    }
    lemma_words_up_to_case(t);
    let d = display_words(t);
    assert(d =~= seq![stance_name(t.stance)] + tail_words(t));
    assert(d.map_values(|w: Seq<char>| ascii_lower(w)) =~= canonical_words(t));
}

} // verus!
