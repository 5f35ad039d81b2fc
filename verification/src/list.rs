//! Nested list bookkeeping: a stack of counters, one frame per open
//! list.
//!
//! A frame holding `None` belongs to a bulleted list; `Some(n)` to an
//! ordered list whose next item is numbered `n`.  Each item consumes
//! the top frame to render its marker and pushes the frame back,
//! incremented for ordered lists.

use crate::digits::{dec_chars, u64_to_dec_chars};
use vstd::prelude::*;

verus! {

/// The marker glyph of a bulleted list item.
pub const BULLET: char = '\u{2022}';

/// The rendered marker for a list item consuming `frame`: the bullet
/// glyph for a bulleted list, else the decimal counter, both padded
/// with two spaces on each side.
pub open spec fn spec_marker(frame: Option<u64>) -> Seq<char> {
    match frame {
        Option::None => seq![' ', ' ', BULLET, ' ', ' '],
        Option::Some(n) => seq![' ', ' '] + dec_chars(n as nat) + seq![' ', ' '],
    }
}

/// The frame pushed back after an item: unchanged for a bulleted list,
/// incremented for an ordered list.  A counter at the numeric limit
/// stays there rather than wrapping.
pub open spec fn next_frame(frame: Option<u64>) -> Option<u64> {
    match frame {
        Option::None => Option::None,
        Option::Some(n) => Option::Some(n.saturating_add(1)),
    }
}

/// The top frame after `j` items have consumed and reinstated it.
pub open spec fn frame_after_items(start: Option<u64>, j: nat) -> Option<u64>
    decreases j,
{
    if j == 0 {
        start
    } else {
        next_frame(frame_after_items(start, (j - 1) as nat))
    }
}

/// Renders the marker text for a list item consuming `frame`.
pub fn marker_chars(frame: &Option<u64>) -> (r: Vec<char>)
    ensures
        r@ == spec_marker(*frame),
{
    let mut r: Vec<char> = Vec::new();
    r.push(' ');
    r.push(' ');
    match frame {
        Option::None => {
            r.push(BULLET);
        },
        Option::Some(n) => {
            let mut d = u64_to_dec_chars(*n);
            r.append(&mut d);
        },
    }
    r.push(' ');
    r.push(' ');
    proof {
        assert(r@ =~= spec_marker(*frame));
    }
    r
}

/// Computes the frame an item pushes back.
pub fn frame_after(frame: &Option<u64>) -> (r: Option<u64>)
    ensures
        r == next_frame(*frame),
{
    match frame {
        Option::None => Option::None,
        Option::Some(n) => Option::Some(n.saturating_add(1)),
    }
}

/// A stack of list frames, one per open list, innermost last.
pub struct ListStack {
    pub frames: Vec<Option<u64>>,
}

impl ListStack {
    pub open spec fn view(&self) -> Seq<Option<u64>> {
        self.frames@
    }

    /// An empty stack: no list is open.
    pub fn new() -> (s: ListStack)
        ensures
            s@ == Seq::<Option<u64>>::empty(),
    {
        let frames: Vec<Option<u64>> = Vec::new();
        proof {
            assert(frames@ =~= Seq::<Option<u64>>::empty());
        }
        ListStack { frames }
    }

    /// The current nesting depth.
    pub fn depth(&self) -> (d: usize)
        ensures
            d == self@.len(),
    {
        self.frames.len()
    }

    /// Opens a list: pushes its frame.
    pub fn push(&mut self, frame: Option<u64>)
        ensures
            final(self)@ == old(self)@.push(frame),
    {
        self.frames.push(frame);
    }

    /// Closes or consumes the innermost frame.  On an empty stack this
    /// returns `None` and leaves the stack empty.
    pub fn pop(&mut self) -> (r: Option<Option<u64>>)
        ensures
            old(self)@.len() > 0 ==> r == Some(old(self)@.last()) && final(self)@ == old(
                self,
            )@.drop_last(),
            old(self)@.len() == 0 ==> r == None::<Option<u64>> && final(self)@ == old(self)@,
    {
        self.frames.pop()
    }
}

/// Law: in an ordered list starting at `n`, the `k`-th item's marker
/// carries the counter `n + k - 1` (as long as the counter does not
/// reach the numeric limit).
pub proof fn lemma_ordered_marker(n: u64, k: nat)
    requires
        1 <= k,
        n + k - 1 <= u64::MAX,
    ensures
        frame_after_items(Some(n), (k - 1) as nat) == Some((n + k - 1) as u64),
        spec_marker(frame_after_items(Some(n), (k - 1) as nat)) == seq![' ', ' '] + dec_chars(
            (n + k - 1) as nat,
        ) + seq![' ', ' '],
    decreases k,
{
    if k == 1 {
    } else {
        lemma_ordered_marker(n, (k - 1) as nat);
    }
}

/// Law: in a bulleted list, every item's marker is the bullet glyph.
pub proof fn lemma_bullet_marker(j: nat)
    ensures
        frame_after_items(None, j) == None::<u64>,
        spec_marker(frame_after_items(None, j)) == seq![' ', ' ', BULLET, ' ', ' '],
    decreases j,
{
    if j > 0 {
        lemma_bullet_marker((j - 1) as nat);
    }
}

} // verus!
