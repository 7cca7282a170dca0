//! Lists: token sequences cut at their top-level commas.
//!
//! Groups are single tokens, so the only nesting left inside a sequence is
//! that of angle brackets. A comma between `<` and its `>` separates
//! nothing.

use crate::token::{Token, TokenView};
use vstd::prelude::*;

verus! {

/// Whether `token`, standing after `before`, closes an angle bracket: it
/// is a `>` that does not end an arrow `->`.
pub open spec fn closes_angle(before: Seq<TokenView>, token: TokenView) -> bool {
    token.is_punct('>') && !(before.len() > 0 && before.last().is_punct('-')
        && before.last().is_joint())
}

/// How many angle brackets are open after `tokens`. A `>` that closes
/// nothing is left alone.
pub open spec fn angle_depth(tokens: Seq<TokenView>) -> nat
    decreases tokens.len(),
{
    if tokens.len() == 0 {
        0
    } else {
        let before = tokens.drop_last();
        let depth = angle_depth(before);
        if tokens.last().is_punct('<') {
            depth + 1
        } else if depth > 0 && closes_angle(before, tokens.last()) {
            (depth - 1) as nat
        } else {
            depth
        }
    }
}

/// Whether the token at `i` is a comma outside all angle brackets.
pub open spec fn is_separator(tokens: Seq<TokenView>, i: int) -> bool {
    tokens[i].is_punct(',') && angle_depth(tokens.take(i)) == 0
}

/// One piece of a list: the tokens between two separators and the index
/// of the first of them in the list.
pub struct Segment {
    pub start: usize,
    pub tokens: Vec<Token>,
}

/// The mathematical value of a [`Segment`].
pub struct SegmentView {
    pub start: int,
    pub tokens: Seq<TokenView>,
}

impl View for Segment {
    type V = SegmentView;

    open spec fn view(&self) -> SegmentView {
        SegmentView { start: self.start as int, tokens: self.tokens.deep_view() }
    }
}

impl DeepView for Segment {
    type V = SegmentView;

    open spec fn deep_view(&self) -> SegmentView {
        self@
    }
}

/// The pieces of `tokens` between its separators, empty ones included:
/// one more piece than there are separators.
pub open spec fn segments(tokens: Seq<TokenView>) -> Seq<SegmentView>
    decreases tokens.len(),
{
    if tokens.len() == 0 {
        seq![SegmentView { start: 0, tokens: Seq::empty() }]
    } else {
        let before = tokens.drop_last();
        let pieces = segments(before);
        if is_separator(tokens, tokens.len() - 1) {
            pieces.push(SegmentView { start: tokens.len() as int, tokens: Seq::empty() })
        } else {
            pieces.drop_last().push(
                SegmentView {
                    start: pieces.last().start,
                    tokens: pieces.last().tokens.push(tokens.last()),
                },
            )
        }
    }
}

/// Every piece lies inside the list, and the last piece ends where the list does.
pub proof fn lemma_segments_inside(tokens: Seq<TokenView>)
    ensures
        segments(tokens).len() >= 1,
        forall|k: int|
            0 <= k < segments(tokens).len() ==> 0 <= (#[trigger] segments(tokens)[k]).start
                && segments(tokens)[k].start + segments(tokens)[k].tokens.len() <= tokens.len(),
        segments(tokens).last().start + segments(tokens).last().tokens.len() == tokens.len(),
    decreases tokens.len(),
{
    if tokens.len() > 0 {
        lemma_segments_inside(tokens.drop_last());
    }
}

/// The angle brackets that are open at the end of a list are those that
/// its last piece opens: a separator stands outside all of them.
pub proof fn lemma_last_segment_depth(tokens: Seq<TokenView>)
    ensures
        angle_depth(segments(tokens).last().tokens) == angle_depth(tokens),
        segments(tokens).last().tokens.len() > 0 ==> segments(tokens).last().tokens.last()
            == tokens.last(),
        segments(tokens).last().tokens.len() <= tokens.len(),
    decreases tokens.len(),
{
    if tokens.len() > 0 {
        let before = tokens.drop_last();
        lemma_last_segment_depth(before);
        lemma_segments_inside(before);
        let pieces = segments(before);
        if is_separator(tokens, tokens.len() - 1) {
            assert(tokens.take(tokens.len() - 1) =~= before);
        } else {
            let piece = pieces.last().tokens;
            let grown = piece.push(tokens.last());
            assert(segments(tokens).last().tokens == grown);
            assert(grown.drop_last() =~= piece);
            assert(grown.last() == tokens.last());
            if piece.len() > 0 {
                assert(piece.last() == before.last());
            }
            if tokens.last().is_punct(',') {
                assert(tokens.take(tokens.len() - 1) =~= before);
            }
        }
    }
}

/// How many angle brackets are open after `tokens`.
pub fn open_angles(tokens: &Vec<Token>) -> (depth: usize)
    ensures
        depth == angle_depth(tokens.deep_view()),
{
    let ghost all = tokens.deep_view();
    let mut depth: usize = 0;
    let mut i: usize = 0;
    while i < tokens.len()
        invariant
            i <= tokens.len(),
            all == tokens.deep_view(),
            depth == angle_depth(all.take(i as int)),
            depth <= i,
        decreases tokens.len() - i,
    {
        assert(all.take(i + 1).drop_last() =~= all.take(i as int));
        assert(all.take(i + 1).last() == tokens[i as int]@);
        if tokens[i].is_punct('<') {
            depth = depth + 1;
        } else if depth > 0 && tokens[i].is_punct('>') && !(i > 0 && tokens[i - 1].is_punct('-')
            && tokens[i - 1].is_joint()) {
            depth = depth - 1;
        }
        i = i + 1;
    }
    assert(all.take(i as int) =~= all);
    depth
}

/// Cuts `tokens` at its separators.
pub fn split(tokens: &Vec<Token>) -> (pieces: Vec<Segment>)
    ensures
        pieces.deep_view() == segments(tokens.deep_view()),
{
    let ghost all = tokens.deep_view();
    let mut done: Vec<Segment> = Vec::new();
    let mut current: Vec<Token> = Vec::new();
    let mut start: usize = 0;
    let mut depth: usize = 0;
    let mut i: usize = 0;
    proof {
        assert(current.deep_view() =~= Seq::<TokenView>::empty());
        assert(done.deep_view().push(SegmentView { start: 0, tokens: current.deep_view() })
            =~= seq![SegmentView { start: 0, tokens: Seq::empty() }]);
        assert(all.take(0).len() == 0);
    }
    while i < tokens.len()
        invariant
            i <= tokens.len(),
            start <= i,
            all == tokens.deep_view(),
            depth == angle_depth(all.take(i as int)),
            depth <= i,
            done.deep_view().push(SegmentView { start: start as int, tokens: current.deep_view() })
                == segments(all.take(i as int)),
        decreases tokens.len() - i,
    {
        let ghost upto = all.take(i + 1);
        assert(upto.drop_last() =~= all.take(i as int));
        assert(upto.last() == tokens[i as int]@);
        assert(upto.take(i as int) =~= all.take(i as int));
        let ghost before_done = done.deep_view();
        let ghost before_current = current.deep_view();
        let ghost last = SegmentView { start: start as int, tokens: before_current };
        assert(before_done.push(last).drop_last() =~= before_done);
        if depth == 0 && tokens[i].is_punct(',') {
            done.push(Segment { start, tokens: current });
            assert(done.deep_view() =~= before_done.push(last));
            current = Vec::new();
            start = i + 1;
            assert(current.deep_view() =~= Seq::<TokenView>::empty());
        } else {
            if tokens[i].is_punct('<') {
                depth = depth + 1;
            } else if depth > 0 && tokens[i].is_punct('>') && !(i > 0 && tokens[i - 1].is_punct(
                '-',
            ) && tokens[i - 1].is_joint()) {
                depth = depth - 1;
            }
            current.push(tokens[i].duplicate());
            assert(current.deep_view() =~= before_current.push(tokens[i as int]@));
        }
        i = i + 1;
    }
    assert(all.take(i as int) =~= all);
    let ghost before_done = done.deep_view();
    let ghost last = SegmentView { start: start as int, tokens: current.deep_view() };
    done.push(Segment { start, tokens: current });
    assert(done.deep_view() =~= before_done.push(last));
    done
}

} // verus!
