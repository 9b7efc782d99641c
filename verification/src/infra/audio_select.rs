use crate::ports::types::AudioConfig;
use vstd::prelude::*;

verus! {

/// A range of stream configurations that a device offers: its channels,
/// the sample rates that it spans, and the rank of its sample format,
/// where a higher rank is preferred.
#[derive(Clone, Copy, Debug, PartialEq, Eq, Structural)]
pub struct ConfigCandidate {
    pub channels: u16,
    pub min_sample_rate_hz: u32,
    pub max_sample_rate_hz: u32,
    pub format_rank: u8,
}

/// The candidate has the channels asked for and spans the sample rate
/// asked for.
pub open spec fn suits(candidate: ConfigCandidate, desired: AudioConfig) -> bool {
    &&& candidate.channels == desired.channels
    &&& candidate.min_sample_rate_hz <= desired.sample_rate_hz <= candidate.max_sample_rate_hz
}

/// The candidate to open a stream with: of those that suit what is asked
/// for, the first of the highest rank; none where none suits.
pub fn select_supported_config(candidates: &Vec<ConfigCandidate>, desired: AudioConfig) -> (chosen:
    Option<usize>)
    ensures
        match chosen {
            Some(best) => {
                &&& best < candidates@.len()
                &&& suits(candidates@[best as int], desired)
                &&& forall|i: int|
                    0 <= i < candidates@.len() && suits(#[trigger] candidates@[i], desired)
                        ==> candidates@[i].format_rank <= candidates@[best as int].format_rank
                &&& forall|i: int|
                    0 <= i < best && suits(#[trigger] candidates@[i], desired)
                        ==> candidates@[i].format_rank < candidates@[best as int].format_rank
            },
            None => forall|i: int|
                0 <= i < candidates@.len() ==> !suits(#[trigger] candidates@[i], desired),
        },
{
    let mut best: Option<usize> = None;
    let mut i: usize = 0;
    while i < candidates.len()
        invariant
            i <= candidates@.len(),
            match best {
                Some(b) => {
                    &&& b < i
                    &&& suits(candidates@[b as int], desired)
                    &&& forall|k: int|
                        0 <= k < i && suits(#[trigger] candidates@[k], desired)
                            ==> candidates@[k].format_rank <= candidates@[b as int].format_rank
                    &&& forall|k: int|
                        0 <= k < b && suits(#[trigger] candidates@[k], desired)
                            ==> candidates@[k].format_rank < candidates@[b as int].format_rank
                },
                None => forall|k: int| 0 <= k < i ==> !suits(#[trigger] candidates@[k], desired),
            },
        decreases candidates@.len() - i,
    {
        let c = candidates[i];
        if c.channels == desired.channels && c.min_sample_rate_hz <= desired.sample_rate_hz
            && desired.sample_rate_hz <= c.max_sample_rate_hz {
            let better = match best {
                Some(b) => c.format_rank > candidates[b].format_rank,
                None => true,
            };
            if better {
                best = Some(i);
            }
        }
        i = i + 1;
    }
    best
}

} // verus!
