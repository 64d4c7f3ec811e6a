use vstd::prelude::*;

verus! {

/// The lines of point text: the glyph indices between line breaks, in order;
/// a line break (`\n`) ends a line and belongs to none.
pub open spec fn text_lines(cs: Seq<char>) -> Seq<Seq<usize>>
    decreases cs.len(),
{
    if cs.len() == 0 {
        seq![Seq::empty()]
    } else {
        let prev = text_lines(cs.drop_last());
        if cs.last() == '\n' {
            prev.push(Seq::empty())
        } else {
            prev.update(prev.len() - 1, prev.last().push((cs.len() - 1) as usize))
        }
    }
}

/// The number of line breaks in a text.
pub open spec fn count_breaks(cs: Seq<char>) -> nat
    decreases cs.len(),
{
    if cs.len() == 0 {
        0
    } else {
        count_breaks(cs.drop_last()) + if cs.last() == '\n' {
            1nat
        } else {
            0nat
        }
    }
}

/// All lines concatenated.
pub open spec fn flatten_lines(lines: Seq<Seq<usize>>) -> Seq<usize>
    decreases lines.len(),
{
    if lines.len() == 0 {
        Seq::empty()
    } else {
        flatten_lines(lines.drop_last()) + lines.last()
    }
}

/// The indices of the glyphs that are not line breaks, in order.
pub open spec fn glyph_indices(cs: Seq<char>) -> Seq<usize>
    decreases cs.len(),
{
    if cs.len() == 0 {
        Seq::empty()
    } else if cs.last() == '\n' {
        glyph_indices(cs.drop_last())
    } else {
        glyph_indices(cs.drop_last()).push((cs.len() - 1) as usize)
    }
}

/// Splits the glyphs of point text into lines of glyph indices.
pub fn point_text_lines(chars: &Vec<char>) -> (r: Vec<Vec<usize>>)
    ensures
        r@.len() == text_lines(chars@).len(),
        forall|i: int| 0 <= i < r@.len() ==> r@[i]@ == text_lines(chars@)[i],
{
    let n = chars.len();
    let mut lines: Vec<Vec<usize>> = Vec::new();
    let mut current: Vec<usize> = Vec::new();
    let mut i: usize = 0;
    proof {
        lemma_text_lines_nonempty(chars@.take(0));
    }
    while i < n
        invariant
            n == chars@.len(),
            i <= n,
            ({
                let t = text_lines(chars@.take(i as int));
                &&& t.len() == lines@.len() + 1
                &&& forall|k: int| 0 <= k < lines@.len() ==> lines@[k]@ == t[k]
                &&& current@ == t.last()
            }),
        decreases n - i,
    {
        let ghost pre = chars@.take(i as int);
        let ghost cur = chars@.take(i + 1);
        assert(cur.drop_last() =~= pre);
        proof {
            lemma_text_lines_nonempty(pre);
        }
        if chars[i] == '\n' {
            let finished = current;
            lines.push(finished);
            current = Vec::new();
        } else {
            current.push(i);
        }
        i = i + 1;
    }
    assert(chars@.take(n as int) =~= chars@);
    lines.push(current);
    lines
}

proof fn lemma_text_lines_nonempty(cs: Seq<char>)
    ensures
        text_lines(cs).len() >= 1,
    decreases cs.len(),
{
    if cs.len() > 0 {
        lemma_text_lines_nonempty(cs.drop_last());
    }
}

/// Point text has one line more than it has line breaks, and its lines hold
/// every glyph that is not a line break exactly once, in order.
pub proof fn lemma_text_lines_partition(cs: Seq<char>)
    requires
        cs.len() <= usize::MAX,
    ensures
        text_lines(cs).len() == count_breaks(cs) + 1,
        flatten_lines(text_lines(cs)) == glyph_indices(cs),
    decreases cs.len(),
{
    if cs.len() == 0 {
        let t = text_lines(cs);
        assert(t.len() == 1);
        assert(t.drop_last() =~= Seq::<Seq<usize>>::empty());
        assert(flatten_lines(t.drop_last()) =~= Seq::<usize>::empty());
        assert(t.last() =~= Seq::<usize>::empty());
        assert(flatten_lines(t) =~= Seq::<usize>::empty());
    } else {
        let prev = text_lines(cs.drop_last());
        lemma_text_lines_partition(cs.drop_last());
        lemma_text_lines_nonempty(cs.drop_last());
        let t = text_lines(cs);
        if cs.last() == '\n' {
            assert(t.drop_last() =~= prev);
            assert(flatten_lines(t) =~= flatten_lines(prev));
        } else {
            let l = prev.last().push((cs.len() - 1) as usize);
            assert(t.drop_last() =~= prev.drop_last());
            assert(t.last() == l);
            assert(flatten_lines(prev) == flatten_lines(prev.drop_last()) + prev.last());
            assert(flatten_lines(t) =~= flatten_lines(prev).push((cs.len() - 1) as usize));
        }
    }
}

/// The role of one entry of a stroke's dash list, by its name.
#[derive(Debug, Clone, Copy, PartialEq, Eq, Structural)]
pub enum DashRole {
    /// `o`: the dash offset.
    Offset,
    /// `d`, `v` or `g`: a dash or gap length.
    Length,
    /// Anything else is ignored.
    Ignored,
}

pub open spec fn spec_dash_role(name: Option<Seq<char>>) -> DashRole {
    match name {
        Some(n) => if n == seq!['o'] {
            DashRole::Offset
        } else if n == seq!['d'] || n == seq!['v'] || n == seq!['g'] {
            DashRole::Length
        } else {
            DashRole::Ignored
        },
        None => DashRole::Ignored,
    }
}

/// Classifies a dash entry by its name.
pub fn dash_role(name: Option<&str>) -> (r: DashRole)
    ensures
        r == spec_dash_role(
            match name {
                Some(n) => Some(n@),
                None => None,
            },
        ),
{
    match name {
        None => DashRole::Ignored,
        Some(n) => {
            if n.unicode_len() != 1 {
                assert(n@ != seq!['o'] && n@ != seq!['d'] && n@ != seq!['v'] && n@ != seq!['g']);
                return DashRole::Ignored;
            }
            let c = n.get_char(0);
            assert(n@ =~= seq![c]);
            if c == 'o' {
                DashRole::Offset
            } else if c == 'd' || c == 'v' || c == 'g' {
                DashRole::Length
            } else {
                DashRole::Ignored
            }
        },
    }
}

/// A dash entry named `o` is the offset, one named `d`, `v` or `g` is a length,
/// and every other entry, unnamed ones included, is ignored.
pub proof fn lemma_dash_roles(name: Option<Seq<char>>)
    ensures
        (spec_dash_role(name) == DashRole::Offset) <==> name == Some(seq!['o']),
        (spec_dash_role(name) == DashRole::Length) <==> (name == Some(seq!['d']) || name == Some(
            seq!['v'],
        ) || name == Some(seq!['g'])),
{
    assert forall|a: char, b: char| a != b implies seq![a] != seq![b] by {
        assert(seq![a][0] != seq![b][0]);
    }
}

/// A dash pattern alternates dashes and gaps, so a list of odd length is
/// repeated once to make its length even.
pub fn complete_dash_array<T: Copy>(lengths: Vec<T>) -> (r: Vec<T>)
    requires
        lengths@.len() <= usize::MAX / 2,
    ensures
        r@ == (if lengths@.len() % 2 == 1 {
            lengths@ + lengths@
        } else {
            lengths@
        }),
{
    if lengths.len() % 2 == 0 {
        return lengths;
    }
    let n = lengths.len();
    let mut out: Vec<T> = Vec::new();
    let mut i: usize = 0;
    while i < 2 * n
        invariant
            n == lengths@.len(),
            n <= usize::MAX / 2,
            i <= 2 * n,
            out@.len() == i,
            forall|j: int| 0 <= j < i ==> out@[j] == (lengths@ + lengths@)[j],
        decreases 2 * n - i,
    {
        let k = if i < n {
            i
        } else {
            i - n
        };
        out.push(lengths[k]);
        i = i + 1;
    }
    assert(out@ =~= lengths@ + lengths@);
    out
}

} // verus!
