//! Path equality by components, as the standard library compares paths: a
//! repeated or trailing separator and a `.` inside a path make no
//! difference.
use vstd::prelude::*;

use crate::text::{chars_equal, chars_of};

verus! {

/// The pieces of `s` between separators, empty ones included: a text
/// without a separator is one piece.
pub open spec fn pieces(s: Seq<char>, sep: char) -> Seq<Seq<char>>
    decreases s.len(),
{
    if s.len() == 0 {
        seq![Seq::<char>::empty()]
    } else {
        let p = pieces(s.drop_last(), sep);
        if s.last() == sep {
            p.push(Seq::<char>::empty())
        } else {
            p.update(p.len() - 1, p.last().push(s.last()))
        }
    }
}

/// Whether a piece names a component: it is neither empty nor `.`.
pub open spec fn names_component(piece: Seq<char>) -> bool {
    piece.len() > 0 && piece != seq!['.']
}

/// The pieces among `p` that name components, in order.
pub open spec fn named(p: Seq<Seq<char>>) -> Seq<Seq<char>> {
    p.filter(|piece: Seq<char>| names_component(piece))
}

proof fn lemma_named_push(p: Seq<Seq<char>>, piece: Seq<char>)
    ensures
        named(p.push(piece)) == if names_component(piece) {
            named(p).push(piece)
        } else {
            named(p)
        },
{
    reveal(Seq::filter);
    assert(p.push(piece).drop_last() =~= p);
}

proof fn lemma_is_dot(v: Seq<char>)
    ensures
        (v.len() == 1 && v[0] == '.') == (v == seq!['.']),
{
    if v.len() == 1 && v[0] == '.' {
        assert(v =~= seq!['.']);
    }
}

/// Whether a path starts at the root.
pub open spec fn rooted(s: Seq<char>, sep: char) -> bool {
    s.len() > 0 && s[0] == sep
}

/// The components of a path below its root, as `Path::components`
/// documents them: repeated and trailing separators are ignored, and `.` is
/// dropped except where it starts the path.
pub open spec fn components(s: Seq<char>, sep: char) -> Seq<Seq<char>> {
    if pieces(s, sep)[0] == seq!['.'] {
        seq![seq!['.']] + named(pieces(s, sep))
    } else {
        named(pieces(s, sep))
    }
}

/// Whether `a` and `b` are the same path: both or neither start at the
/// root, and they have the same components.
pub open spec fn same_path_spec(a: Seq<char>, b: Seq<char>, sep: char) -> bool {
    rooted(a, sep) == rooted(b, sep) && components(a, sep) == components(b, sep)
}

/// The texts of a sequence of character vectors.
pub open spec fn texts(vs: Seq<Vec<char>>) -> Seq<Seq<char>> {
    vs.map_values(|v: Vec<char>| v@)
}

proof fn lemma_pieces_nonempty(s: Seq<char>, sep: char)
    ensures
        pieces(s, sep).len() >= 1,
    decreases s.len(),
{
    if s.len() > 0 {
        lemma_pieces_nonempty(s.drop_last(), sep);
    }
}

/// Whether `s` starts at the root, and its components.
fn path_components(s: &Vec<char>, sep: char) -> (r: (bool, Vec<Vec<char>>))
    ensures
        r.0 == rooted(s@, sep),
        texts(r.1@) == components(s@, sep),
{
    let ghost dot: Seq<char> = seq!['.'];
    let mut kept: Vec<Vec<char>> = Vec::new();
    let mut current: Vec<char> = Vec::new();
    let mut closed: usize = 0;
    let mut first_dot = false;
    let mut i: usize = 0;
    proof {
        assert(s@.take(0) =~= Seq::<char>::empty());
        assert(texts(kept@) =~= Seq::<Seq<char>>::empty());
        reveal(Seq::filter);
        assert(named(pieces(s@.take(0), sep).take(0)) =~= Seq::<Seq<char>>::empty());
    }
    while i < s.len()
        invariant
            i <= s.len(),
            closed <= i,
            pieces(s@.take(i as int), sep).len() == closed + 1,
            current@ == pieces(s@.take(i as int), sep).last(),
            texts(kept@) == named(pieces(s@.take(i as int), sep).take(closed as int)),
            closed > 0 ==> first_dot == (pieces(s@.take(i as int), sep)[0] == dot),
            dot == seq!['.'],
        decreases s.len() - i,
    {
        let c = s[i];
        let ghost before = pieces(s@.take(i as int), sep);
        assert(s@.take(i + 1).drop_last() =~= s@.take(i as int));
        assert(s@.take(i + 1).last() == c);
        let ghost after = pieces(s@.take(i + 1), sep);
        if c == sep {
            assert(after == before.push(Seq::<char>::empty()));
            assert(after.take(closed + 1) =~= before.take(closed as int).push(current@));
            let ghost old_kept = texts(kept@);
            proof {
                lemma_is_dot(current@);
                lemma_named_push(before.take(closed as int), current@);
            }
            if closed == 0 {
                first_dot = current.len() == 1 && current[0] == '.';
            }
            if current.len() > 0 && !(current.len() == 1 && current[0] == '.') {
                let piece = current;
                kept.push(piece);
                assert(texts(kept@) =~= old_kept.push(before.last()));
            } else {
                assert(texts(kept@) =~= old_kept);
            }
            current = Vec::new();
            closed = closed + 1;
        } else {
            assert(after == before.update(before.len() - 1, before.last().push(c)));
            assert(after.take(closed as int) =~= before.take(closed as int));
            current.push(c);
        }
        i = i + 1;
    }
    assert(s@.take(s.len() as int) =~= s@);
    let ghost all = pieces(s@, sep);
    proof {
        lemma_pieces_nonempty(s@, sep);
        assert(all =~= all.take(closed as int).push(current@));
        lemma_named_push(all.take(closed as int), current@);
        lemma_is_dot(current@);
    }
    if closed == 0 {
        first_dot = current.len() == 1 && current[0] == '.';
    }
    let ghost named_texts = texts(kept@);
    if current.len() > 0 && !(current.len() == 1 && current[0] == '.') {
        kept.push(current);
        assert(texts(kept@) =~= named_texts.push(all.last()));
    } else {
        assert(texts(kept@) =~= named_texts);
    }
    assert(texts(kept@) == named(all));
    if first_dot {
        let ghost rest = texts(kept@);
        let mut d: Vec<char> = Vec::new();
        d.push('.');
        kept.insert(0, d);
        assert(texts(kept@) =~= seq![dot] + rest);
    }
    let root = s.len() > 0 && s[0] == sep;
    (root, kept)
}

/// Whether `a` and `b` are the same path with separator `sep`: compared by
/// components, as `Path` compares.
pub fn same_path(a: &str, b: &str, sep: char) -> (same: bool)
    ensures
        same == same_path_spec(a@, b@, sep),
{
    let (ra, ca) = path_components(&chars_of(a), sep);
    let (rb, cb) = path_components(&chars_of(b), sep);
    if ra != rb {
        return false;
    }
    if ca.len() != cb.len() {
        assert(components(a@, sep).len() == ca@.len());
        assert(components(b@, sep).len() == cb@.len());
        return false;
    }
    let mut i: usize = 0;
    while i < ca.len()
        invariant
            i <= ca.len(),
            ca.len() == cb.len(),
            texts(ca@) == components(a@, sep),
            texts(cb@) == components(b@, sep),
            forall|k: int| 0 <= k < i ==> ca@[k]@ == cb@[k]@,
        decreases ca.len() - i,
    {
        if !chars_equal(&ca[i], &cb[i]) {
            assert(texts(ca@)[i as int] != texts(cb@)[i as int]);
            return false;
        }
        i = i + 1;
    }
    assert(texts(ca@) =~= texts(cb@));
    true
}

} // verus!
