//! Snippets: the highlighted stretches of a fragment.

use vstd::prelude::*;

verus! {

/// A stretch of a fragment, from `start` up to `end`.
#[derive(Clone, Copy, Debug, PartialEq, Eq, Structural)]
pub struct Range {
    pub start: u32,
    pub end: u32,
}

/// A position as the host takes it: in 32 bits.
pub open spec fn position_of_offset(offset: usize) -> u32 {
    (offset as int % 0x1_0000_0000) as u32
}

/// The highlighted stretches of a fragment as the host takes them, given
/// as the engine gives them: each by its start and its end.
pub fn highlighted(stretches: &Vec<(usize, usize)>) -> (r: Vec<Range>)
    ensures
        r@.len() == stretches@.len(),
        forall|i: int|
            0 <= i < r@.len() ==> #[trigger] r@[i] == (Range {
                start: position_of_offset(stretches@[i].0),
                end: position_of_offset(stretches@[i].1),
            }),
{
    let mut out: Vec<Range> = Vec::new();
    let mut i: usize = 0;
    while i < stretches.len()
        invariant
            i <= stretches.len(),
            out@.len() == i,
            forall|j: int|
                0 <= j < i ==> #[trigger] out@[j] == (Range {
                    start: position_of_offset(stretches@[j].0),
                    end: position_of_offset(stretches@[j].1),
                }),
        decreases stretches.len() - i,
    {
        out.push(
            Range {
                start: (stretches[i].0 as u64 % 0x1_0000_0000) as u32,
                end: (stretches[i].1 as u64 % 0x1_0000_0000) as u32,
            },
        );
        i += 1;
    }
    out
}

} // verus!
