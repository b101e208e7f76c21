use vstd::prelude::*;

use crate::instructions::{
    ascii_upper, commands, directions, is_space, letter_direction, word_direction, words,
};
use crate::walker::{Direction, Position, Size, stepped, walked};

verus! {

/// Taking the moves of `x` and then those of `y` is taking the moves of
/// `x + y`.
pub proof fn lemma_walk_concat(p: Position, s: Size, x: Seq<Direction>, y: Seq<Direction>)
    ensures
        walked(p, s, x + y) == walked(walked(p, s, x), s, y),
    decreases y.len(),
{
    if y.len() == 0 {
        assert(x + y =~= x);
    } else {
        assert((x + y).drop_last() =~= x + y.drop_last());
        lemma_walk_concat(p, s, x, y.drop_last());
    }
}

/// Every sequence of moves from a cell of a valid grid ends on a cell of
/// that grid.
pub proof fn lemma_walk_stays_on_grid(p: Position, s: Size, ds: Seq<Direction>)
    requires
        s.valid(),
        p.within(s),
    ensures
        walked(p, s, ds).within(s),
    decreases ds.len(),
{
    if ds.len() > 0 {
        lemma_walk_stays_on_grid(p, s, ds.drop_last());
    }
}

/// Once a move is absorbed by the edge, repeating it any number of times
/// leaves the marker where it is.
pub proof fn lemma_clamp_idempotent(p: Position, s: Size, d: Direction, n: nat)
    requires
        s.valid(),
        p.within(s),
        stepped(p, s, d) == p,
    ensures
        walked(p, s, Seq::new(n, |_i: int| d)) == p,
    decreases n,
{
    if n > 0 {
        assert(Seq::new(n, |_i: int| d).drop_last() =~= Seq::new((n - 1) as nat, |_i: int| d));
        lemma_clamp_idempotent(p, s, d, (n - 1) as nat);
    }
}

proof fn lemma_open_word_nonempty(s: Seq<char>)
    requires
        s.len() > 0,
        !is_space(s.last()),
    ensures
        words(s).len() > 0,
{
}

proof fn lemma_directions_concat(x: Seq<Seq<char>>, y: Seq<Seq<char>>)
    ensures
        directions(x + y) == directions(x) + directions(y),
    decreases y.len(),
{
    if y.len() == 0 {
        assert(x + y =~= x);
        assert(directions(x) + directions(y) =~= directions(x));
    } else {
        assert((x + y).drop_last() =~= x + y.drop_last());
        lemma_directions_concat(x, y.drop_last());
        let r = directions(y.drop_last());
        match word_direction(y.last()) {
            Some(d) => {
                assert(directions(x) + r.push(d) =~= (directions(x) + r).push(d));
            },
            None => {},
        }
    }
}

proof fn lemma_words_split(a: Seq<char>, x: char, b: Seq<char>)
    requires
        is_space(x),
    ensures
        words(a + seq![x] + b) == words(a) + words(b),
    decreases b.len(),
{
    let t = a + seq![x] + b;
    if b.len() == 0 {
        assert(t.drop_last() =~= a);
        assert(words(a) + words(b) =~= words(a));
    } else {
        let b0 = b.drop_last();
        let c = b.last();
        let t0 = a + seq![x] + b0;
        assert(t.drop_last() =~= t0);
        lemma_words_split(a, x, b0);
        let wa = words(a);
        let wb = words(b0);
        if !is_space(c) {
            if b0.len() > 0 && !is_space(b0.last()) {
                lemma_open_word_nonempty(b0);
                assert(t[t.len() - 2] == b0.last());
                assert(b[b.len() - 2] == b0.last());
                assert((wa + wb).drop_last().push((wa + wb).last().push(c)) =~= wa + wb.drop_last().push(
                    wb.last().push(c),
                ));
            } else {
                assert(is_space(t[t.len() - 2]));
                if b.len() >= 2 {
                    assert(b[b.len() - 2] == b0.last());
                }
                assert((wa + wb).push(seq![c]) =~= wa + wb.push(seq![c]));
            }
        }
    }
}

/// The moves asked for by `a`, a separator and `b` are those of `a`
/// followed by those of `b`.
pub proof fn lemma_commands_split(a: Seq<char>, x: char, b: Seq<char>)
    requires
        is_space(x),
    ensures
        commands(a + seq![x] + b) == commands(a) + commands(b),
{
    lemma_words_split(a, x, b);
    lemma_directions_concat(words(a), words(b));
}

/// A batch of `a`, a separator and `b` moves the marker as a batch of `a`
/// followed by a batch of `b`.
pub proof fn lemma_batch_split(p: Position, s: Size, a: Seq<char>, x: char, b: Seq<char>)
    requires
        is_space(x),
    ensures
        walked(p, s, commands(a + seq![x] + b)) == walked(walked(p, s, commands(a)), s, commands(b)),
{
    lemma_commands_split(a, x, b);
    lemma_walk_concat(p, s, commands(a), commands(b));
}

/// A one-letter instruction asks for exactly the move it names.
pub proof fn lemma_single_letter(c: char, d: Direction)
    requires
        letter_direction(c) == Some(d),
    ensures
        commands(seq![c]) == seq![d],
{
    assert(!is_space(c));
    assert(seq![c].drop_last() =~= Seq::<char>::empty());
    assert(seq![c].last() == c);
    assert(words(Seq::<char>::empty()) =~= Seq::<Seq<char>>::empty());
    assert(words(seq![c]) =~= seq![seq![c]]);
    assert(seq![seq![c]].last() == seq![c]);
    assert(directions(Seq::<Seq<char>>::empty()) =~= Seq::<Direction>::empty());
    assert(words(seq![c]).drop_last() =~= Seq::<Seq<char>>::empty());
    assert(Seq::<Direction>::empty().push(d) =~= seq![d]);
}

/// The instruction string for `ds`: the letter of each move, each after a
/// space.
pub open spec fn initials(ds: Seq<Direction>) -> Seq<char>
    decreases ds.len(),
{
    if ds.len() == 0 {
        Seq::empty()
    } else {
        initials(ds.drop_last()) + seq![' ', initial(ds.last())]
    }
}

/// The upper-case letter that names `d`.
pub open spec fn initial(d: Direction) -> char {
    match d {
        Direction::North => 'N',
        Direction::West => 'W',
        Direction::East => 'E',
        Direction::South => 'S',
    }
}

/// Writing the letters of any sequence of moves, separated by spaces, asks
/// for exactly those moves in that order.
pub proof fn lemma_spelled_moves(ds: Seq<Direction>)
    ensures
        commands(initials(ds)) == ds,
    decreases ds.len(),
{
    if ds.len() > 0 {
        let d = ds.last();
        let rest = ds.drop_last();
        lemma_spelled_moves(rest);
        lemma_single_letter(initial(d), d);
        assert(initials(ds) =~= initials(rest) + seq![' '] + seq![initial(d)]);
        lemma_commands_split(initials(rest), ' ', seq![initial(d)]);
        assert(rest + seq![d] =~= ds);
    }
}

/// Runs of separators count as one.
pub proof fn lemma_repeated_separators(a: Seq<char>, x: char, y: char, b: Seq<char>)
    requires
        is_space(x),
        is_space(y),
    ensures
        commands(a + seq![x, y] + b) == commands(a + seq![x] + b),
{
    assert(a + seq![x, y] + b =~= a + seq![x] + (seq![y] + b));
    lemma_commands_split(a, x, seq![y] + b);
    assert(seq![y] + b =~= Seq::<char>::empty() + seq![y] + b);
    lemma_commands_split(Seq::<char>::empty(), y, b);
    assert(Seq::<Direction>::empty() + commands(b) =~= commands(b));
    lemma_commands_split(a, x, b);
}

proof fn lemma_single_word(t: Seq<char>)
    requires
        t.len() > 0,
        forall|i: int| 0 <= i < t.len() ==> !is_space(#[trigger] t[i]),
    ensures
        words(t) == seq![t],
    decreases t.len(),
{
    let t0 = t.drop_last();
    if t0.len() == 0 {
        assert(t =~= seq![t.last()]);
        assert(words(t0) =~= Seq::<Seq<char>>::empty());
        assert(words(t0).push(seq![t.last()]) =~= seq![t]);
    } else {
        lemma_single_word(t0);
        assert(t[t.len() - 2] == t0.last());
        assert(t0.push(t.last()) =~= t);
        assert(seq![t0].drop_last().push(t0.push(t.last())) =~= seq![t]);
    }
}

/// A word that names no direction is skipped: it changes nothing.
pub proof fn lemma_unknown_word_skipped(a: Seq<char>, x: char, t: Seq<char>, y: char, b: Seq<char>)
    requires
        is_space(x),
        is_space(y),
        t.len() > 0,
        forall|i: int| 0 <= i < t.len() ==> !is_space(#[trigger] t[i]),
        word_direction(t) is None,
    ensures
        commands(a + seq![x] + t + seq![y] + b) == commands(a + seq![x] + b),
{
    assert(a + seq![x] + t + seq![y] + b =~= a + seq![x] + (t + seq![y] + b));
    lemma_commands_split(a, x, t + seq![y] + b);
    lemma_commands_split(t, y, b);
    lemma_single_word(t);
    assert(seq![t].drop_last() =~= Seq::<Seq<char>>::empty());
    assert(seq![t].last() == t);
    assert(directions(Seq::<Seq<char>>::empty()) =~= Seq::<Direction>::empty());
    assert(commands(t) =~= Seq::<Direction>::empty());
    assert(commands(t) + commands(b) =~= commands(b));
    lemma_commands_split(a, x, b);
}

proof fn lemma_words_upper(s: Seq<char>)
    ensures
        words(s.map_values(|c: char| ascii_upper(c))) == words(s).map_values(
            |t: Seq<char>| t.map_values(|c: char| ascii_upper(c)),
        ),
    decreases s.len(),
{
    let up = s.map_values(|c: char| ascii_upper(c));
    if s.len() == 0 {
        assert(up =~= Seq::<char>::empty());
        assert(words(s).map_values(|t: Seq<char>| t.map_values(|c: char| ascii_upper(c)))
            =~= Seq::<Seq<char>>::empty());
    } else {
        let s0 = s.drop_last();
        let c = s.last();
        lemma_words_upper(s0);
        assert(up.drop_last() =~= s0.map_values(|c: char| ascii_upper(c)));
        let w = words(s0);
        let f = |t: Seq<char>| t.map_values(|c: char| ascii_upper(c));
        if !is_space(c) {
            if s.len() >= 2 && !is_space(s[s.len() - 2]) {
                lemma_open_word_nonempty(s0);
                assert(s0.last() == s[s.len() - 2]);
                assert(w.last().push(c).map_values(|c: char| ascii_upper(c)) =~= w.last().map_values(
                    |c: char| ascii_upper(c),
                ).push(ascii_upper(c)));
                assert(w.map_values(f).drop_last().push(w.map_values(f).last().push(ascii_upper(c)))
                    =~= w.drop_last().push(w.last().push(c)).map_values(f));
            } else {
                assert(seq![c].map_values(|c: char| ascii_upper(c)) =~= seq![ascii_upper(c)]);
                assert(w.map_values(f).push(seq![ascii_upper(c)]) =~= w.push(seq![c]).map_values(f));
            }
        }
    }
}

proof fn lemma_directions_upper(ts: Seq<Seq<char>>)
    ensures
        directions(ts.map_values(|t: Seq<char>| t.map_values(|c: char| ascii_upper(c))))
            == directions(ts),
    decreases ts.len(),
{
    let f = |t: Seq<char>| t.map_values(|c: char| ascii_upper(c));
    if ts.len() > 0 {
        assert(ts.map_values(f).drop_last() =~= ts.drop_last().map_values(f));
        lemma_directions_upper(ts.drop_last());
    }
}

/// Instructions are read without regard to case: upper-casing every ASCII
/// letter asks for the same moves.
pub proof fn lemma_case_insensitive(s: Seq<char>)
    ensures
        commands(s.map_values(|c: char| ascii_upper(c))) == commands(s),
{
    lemma_words_upper(s);
    lemma_directions_upper(words(s));
}

} // verus!
