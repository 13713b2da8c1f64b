//! Audio blocks: PCM16 mono audio at 24 kHz, and how long a block plays.

use vstd::prelude::*;

use crate::clock::Timestamp;

verus! {

/// The sample rate audio is sent at.
pub const TARGET_SAMPLE_RATE: u32 = 24_000;

/// The channel count audio is sent with.
pub const TARGET_CHANNELS: u16 = 1;

/// How long `byte_len` bytes of PCM16 mono 24 kHz audio play, in nanoseconds:
/// `byte_len / 2` frames at 24 000 frames a second, rounded to the nearest
/// nanosecond.
pub open spec fn pcm16_duration_nanos(byte_len: nat) -> nat {
    (((byte_len / 2) * 125_000 + 1) / 3) as nat
}

/// How long `pcm` plays, in nanoseconds.
pub fn pcm16_duration(pcm: &[u8]) -> (r: u128)
    ensures
        r == pcm16_duration_nanos(pcm@.len()),
{
    let frames = (pcm.len() / 2) as u128;
    (frames * 125_000 + 1) / 3
}

/// A captured piece of PCM16 mono 24 kHz audio.
#[derive(Debug)]
pub struct AudioBlock {
    /// Little-endian 16-bit samples.
    pub pcm: Vec<u8>,
    /// When the block was captured.
    pub captured_at: Timestamp,
    /// How long the block plays, in nanoseconds.
    pub duration_nanos: u128,
}

impl AudioBlock {
    /// A block with its duration taken from its length.
    pub fn new(pcm: Vec<u8>, captured_at: Timestamp) -> (r: AudioBlock)
        ensures
            r.pcm@ == pcm@,
            r.captured_at == captured_at,
            r.duration_nanos == pcm16_duration_nanos(pcm@.len()),
    {
        let duration_nanos = pcm16_duration(pcm.as_slice());
        AudioBlock { pcm, captured_at, duration_nanos }
    }
}


/// Whether a block carries audio worth handing to the recognizer.
pub fn should_forward_audio(block: &AudioBlock) -> (r: bool)
    ensures
        r <==> block.pcm@.len() > 0,
{
    block.pcm.len() > 0
}

/// How interleaved samples at some rate become PCM16 mono at 24 kHz: frames are
/// averaged over channels, then picked by nearest-earlier position.
#[derive(Debug, Clone, Copy)]
pub struct ResamplePlan {
    /// Interleaved channels per frame (at least one).
    pub channels: usize,
    /// Whole frames in the input.
    pub frames: usize,
    /// The input's frame rate.
    pub source_rate: u32,
    /// Frames in the output.
    pub target_frames: usize,
}

/// The channel count used: the source's, or one.
pub open spec fn used_channels(source_channels: u16) -> int {
    if source_channels >= 1 {
        source_channels as int
    } else {
        1
    }
}

/// The output frame count for `frames` input frames at `source_rate`: the
/// proportional count at 24 kHz, at least one.
pub open spec fn target_frame_count(frames: int, source_rate: u32) -> usize {
    let q = (frames * 24_000 / (source_rate as int)) as u64;
    (if q >= 1 {
        q
    } else {
        1u64
    }) as usize
}

impl ResamplePlan {
    /// The plan's fields agree with each other.
    pub open spec fn wf(self) -> bool {
        &&& self.channels >= 1
        &&& self.frames >= 1
        &&& self.source_rate > 0
        &&& self.frames * 24_000 <= u64::MAX
        &&& self.target_frames == target_frame_count(self.frames as int, self.source_rate)
    }
}

/// The input frame that output frame `index` takes its sample from.
pub open spec fn source_frame_of(plan: ResamplePlan, index: int) -> int {
    let picked = ((index * (plan.source_rate as int) / 24_000) as u64) as usize;
    if picked < plan.frames - 1 {
        picked as int
    } else {
        plan.frames - 1
    }
}

/// The plan for `sample_count` interleaved samples; `None` when they make no
/// whole frame (the output is then empty).
pub fn plan_resample(sample_count: usize, source_rate: u32, source_channels: u16) -> (r: Option<ResamplePlan>)
    requires
        (sample_count as int) / used_channels(source_channels) == 0 || source_rate > 0,
        ((sample_count as int) / used_channels(source_channels)) * 24_000 <= u64::MAX,
    ensures
        r is None <==> (sample_count as int) / used_channels(source_channels) == 0,
        r matches Some(p) ==> p.wf() && p.channels == used_channels(source_channels)
            && p.frames == (sample_count as int) / used_channels(source_channels) && p.source_rate == source_rate,
{
    let channels: usize = if source_channels >= 1 {
        source_channels as usize
    } else {
        1
    };
    let frames = sample_count / channels;
    if frames == 0 {
        return None;
    }
    let q: u64 = (frames as u64) * 24_000 / (source_rate as u64);
    let target: u64 = if q >= 1 {
        q
    } else {
        1
    };
    Some(ResamplePlan { channels, frames, source_rate, target_frames: target as usize })
}

proof fn lemma_pick_fits(frames: int, rate: int, index: int)
    by (nonlinear_arith)
    requires
        rate > 0,
        index >= 0,
        frames * 24_000 <= u64::MAX,
        index < frames * 24_000 / rate,
    ensures
        index * rate <= u64::MAX,
{
    assert(index * rate < (frames * 24_000 / rate) * rate);
    assert((frames * 24_000 / rate) * rate <= frames * 24_000);
}

/// The input frame that output frame `index` takes its sample from.
pub fn source_frame_index(plan: &ResamplePlan, index: usize) -> (r: usize)
    requires
        plan.wf(),
        index < plan.target_frames,
    ensures
        r == source_frame_of(*plan, index as int),
        r < plan.frames,
{
    proof {
        let q = plan.frames * 24_000 / (plan.source_rate as int);
        if q >= 1 {
            assert(q <= plan.frames * 24_000) by (nonlinear_arith)
                requires
                    q == plan.frames * 24_000 / (plan.source_rate as int),
                    plan.source_rate > 0,
                    plan.frames >= 1,
            ;
            assert(q <= u64::MAX);
            if q <= usize::MAX {
                assert(plan.target_frames == q);
            }
            assert(index < q);
            lemma_pick_fits(plan.frames as int, plan.source_rate as int, index as int);
            assert((index as int) * (plan.source_rate as int) <= u64::MAX);
        } else {
            assert(plan.target_frames == 1);
            assert(index == 0);
        }
    }
    assert((index as int) * (plan.source_rate as int) <= u64::MAX);
    let picked = ((index as u64) * (plan.source_rate as u64) / 24_000) as usize;
    if picked < plan.frames - 1 {
        picked
    } else {
        plan.frames - 1
    }
}

/// At 24 kHz input, every frame is kept, in order.
pub proof fn lemma_same_rate_keeps_frames(plan: ResamplePlan, index: int)
    requires
        plan.wf(),
        0 <= index,
        plan.source_rate == 24_000,
        index < plan.frames,
    ensures
        plan.target_frames == plan.frames,
        source_frame_of(plan, index) == index,
{
    assert(plan.frames * 24_000 / 24_000 == plan.frames) by (nonlinear_arith)
        requires
            plan.frames >= 1,
    ;
    assert(index * 24_000 / 24_000 == index) by (nonlinear_arith)
        requires
            index >= 0,
    ;
}

} // verus!
