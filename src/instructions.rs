use vstd::prelude::*;

use crate::walker::{Direction, Position, Size, Wearhouse, stepped, walked};

verus! {

/// Unicode white space (the `White_Space` property), which separates
/// instructions.
pub open spec fn is_space(c: char) -> bool {
    let v = c as u32;
    (0x9 <= v && v <= 0xD) || v == 0x20 || v == 0x85 || v == 0xA0 || v == 0x1680 || (0x2000 <= v
        && v <= 0x200A) || v == 0x2028 || v == 0x2029 || v == 0x202F || v == 0x205F || v == 0x3000
}

/// The maximal runs of non-space characters of `s`, in order.
pub open spec fn words(s: Seq<char>) -> Seq<Seq<char>>
    decreases s.len(),
{
    if s.len() == 0 {
        Seq::empty()
    } else {
        let w = words(s.drop_last());
        let c = s.last();
        if is_space(c) {
            w
        } else if s.len() >= 2 && !is_space(s[s.len() - 2]) {
            w.drop_last().push(w.last().push(c))
        } else {
            w.push(seq![c])
        }
    }
}

/// The direction a letter names, ignoring case: a letter whose upper case
/// is `N`, `W`, `E` or `S` (the long s `ſ` among them).
pub open spec fn letter_direction(c: char) -> Option<Direction> {
    if c == 'N' || c == 'n' {
        Some(Direction::North)
    } else if c == 'W' || c == 'w' {
        Some(Direction::West)
    } else if c == 'E' || c == 'e' {
        Some(Direction::East)
    } else if c == 'S' || c == 's' || c == 'ſ' {
        Some(Direction::South)
    } else {
        None
    }
}

/// `c` with an ASCII lower-case letter made upper case.
pub open spec fn ascii_upper(c: char) -> char {
    if 'a' <= c && c <= 'z' {
        ((c as u32) - 32) as char
    } else {
        c
    }
}

/// The direction a word names: only single letters name one.
pub open spec fn word_direction(t: Seq<char>) -> Option<Direction> {
    if t.len() == 1 {
        letter_direction(t[0])
    } else {
        None
    }
}

/// The directions named by the recognised words of `ts`, in order.
pub open spec fn directions(ts: Seq<Seq<char>>) -> Seq<Direction>
    decreases ts.len(),
{
    if ts.len() == 0 {
        Seq::empty()
    } else {
        let r = directions(ts.drop_last());
        match word_direction(ts.last()) {
            Some(d) => r.push(d),
            None => r,
        }
    }
}

/// The moves an instruction string asks for, in order.
pub open spec fn commands(s: Seq<char>) -> Seq<Direction> {
    directions(words(s))
}

/// Tells whether `c` separates instructions.
pub fn is_separator(c: char) -> (r: bool)
    ensures
        r == is_space(c),
{
    let v = c as u32;
    (0x9 <= v && v <= 0xD) || v == 0x20 || v == 0x85 || v == 0xA0 || v == 0x1680 || (0x2000 <= v
        && v <= 0x200A) || v == 0x2028 || v == 0x2029 || v == 0x202F || v == 0x205F || v == 0x3000
}

/// The direction a one-letter instruction names, if any.
pub fn letter(c: char) -> (r: Option<Direction>)
    ensures
        r == letter_direction(c),
{
    if c == 'N' || c == 'n' {
        Some(Direction::North)
    } else if c == 'W' || c == 'w' {
        Some(Direction::West)
    } else if c == 'E' || c == 'e' {
        Some(Direction::East)
    } else if c == 'S' || c == 's' || c == 'ſ' {
        Some(Direction::South)
    } else {
        None
    }
}

/// The state of a scan of `p`, a prefix of the instructions: the marker has
/// taken the moves of every finished word, and `len` (capped at two) and
/// `first` describe the word still open at the end of `p`, if any.
spec fn scanned(p: Seq<char>, start: Position, size: Size, at: Position, len: u8, first: char) -> bool {
    let w = words(p);
    if p.len() > 0 && !is_space(p.last()) {
        &&& w.len() > 0
        &&& at == walked(start, size, directions(w.drop_last()))
        &&& 1 <= len <= 2
        &&& len == 1 <==> w.last().len() == 1
        &&& first == w.last()[0]
    } else {
        &&& len == 0
        &&& at == walked(start, size, directions(w))
    }
}

impl Wearhouse {
    /// Applies the move of a finished word of length `len` (capped at two)
    /// starting with `first`.
    fn finish_word(&mut self, len: u8, first: char)
        requires
            old(self).wf(),
        ensures
            final(self).wf(),
            final(self).size == old(self).size,
            final(self).position == (if len == 1 {
                match letter_direction(first) {
                    Some(d) => stepped(old(self).position, old(self).size, d),
                    None => old(self).position,
                }
            } else {
                old(self).position
            }),
    {
        if len == 1 {
            match letter(first) {
                Some(d) => self.moving(d),
                None => {},
            }
        }
    }

    /// Applies, left to right, the move of each whitespace-separated
    /// instruction `N`, `W`, `E` or `S` (in either case); other words are
    /// skipped.
    pub fn batch_moving(&mut self, instructions: &str)
        requires
            old(self).wf(),
        ensures
            final(self).wf(),
            final(self).size == old(self).size,
            final(self).position == walked(old(self).position, old(self).size, commands(instructions@)),
    {
        let ghost s = instructions@;
        let ghost start = self.position;
        let mut len: u8 = 0;
        let mut first: char = ' ';
        proof {
            assert(s.take(0) =~= Seq::<char>::empty());
        }
        for c in it: instructions.chars()
            invariant
                it.seq() == s,
                self.wf(),
                self.size == old(self).size,
                scanned(s.take(it.index() as int), start, self.size, self.position, len, first),
        {
            let ghost k = it.index() as int;
            let ghost p = s.take(k);
            let ghost q = s.take(k + 1);
            proof {
                assert(q.drop_last() =~= p);
                assert(q.last() == c);
            }
            if is_separator(c) {
                if len > 0 {
                    let ghost w = words(p);
                    self.finish_word(len, first);
                    proof {
                        assert(w.drop_last().push(w.last()) =~= w);
                        let ds = directions(w.drop_last());
                        match word_direction(w.last()) {
                            Some(d) => {
                                assert(ds.push(d).drop_last() =~= ds);
                            },
                            None => {},
                        }
                    }
                    len = 0;
                }
            } else if len == 0 {
                len = 1;
                first = c;
                proof {
                    let w = words(p);
                    assert(words(q).drop_last() =~= w);
                }
            } else {
                len = 2;
                proof {
                    let w = words(p);
                    assert(words(q).drop_last() =~= w.drop_last());
                }
            }
        }
        proof {
            assert(s.take(s.len() as int) =~= s);
        }
        if len > 0 {
            let ghost w = words(s);
            self.finish_word(len, first);
            proof {
                assert(w.drop_last().push(w.last()) =~= w);
                let ds = directions(w.drop_last());
                match word_direction(w.last()) {
                    Some(d) => {
                        assert(ds.push(d).drop_last() =~= ds);
                    },
                    None => {},
                }
            }
        }
    }
}

} // verus!
