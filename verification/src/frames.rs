//! Filling an interleaved output buffer, frame by frame.
//!
//! A buffer holds frames of `channels` slots each; the last frame is shorter
//! where the buffer's length is no multiple of `channels`. One value is
//! rendered per frame, from the sample counter at that frame, and written to
//! each slot of the frame: one signal on all channels. The counter advances
//! by one per frame and wraps at the sample rate. A counter that comes in at
//! or above the rate (left over from a faster stream) is brought below it
//! before the first frame, so that no frame is rendered past the end of the
//! second.

use vstd::prelude::*;
use crate::clock::{advance, lemma_tick_split, settle, tick};

verus! {

/// The number of frames in a buffer of `len` slots: `len / channels`, rounded
/// up.
pub open spec fn frame_count(len: nat, channels: nat) -> nat {
    if len % channels == 0 {
        len / channels
    } else {
        len / channels + 1
    }
}

/// The frame that slot `i` belongs to.
pub open spec fn frame_of(i: int, channels: nat) -> nat {
    (i / channels as int) as nat
}

/// The first slot of the frame that slot `i` belongs to.
pub open spec fn frame_start(i: int, channels: nat) -> int {
    (i / channels as int) * channels
}

/// Whether `data` is what filling leaves in a buffer: in each slot a value
/// that `render` may give for the counter at the slot's frame, and in all
/// slots of a frame the same value.
pub open spec fn filled<T, F: Fn(u32) -> T>(
    data: Seq<T>,
    channels: nat,
    rate: u32,
    start: u32,
    render: F,
) -> bool {
    &&& forall|i: int|
        0 <= i < data.len() ==> render.ensures(
            (tick(start, rate, frame_of(i, channels)),),
            #[trigger] data[i],
        )
    &&& forall|i: int|
        0 <= i < data.len() ==> #[trigger] data[i] == data[frame_start(i, channels)]
}

/// Fills `data` frame by frame and returns the counter after the last frame.
pub fn fill_frames<T: Copy, F: Fn(u32) -> T>(
    data: &mut [T],
    channels: u16,
    rate: u32,
    start: u32,
    render: F,
) -> (end: u32)
    requires
        channels > 0,
        rate > 0,
        forall|j: nat|
            j < frame_count(old(data)@.len(), channels as nat) ==> render.requires(
                (#[trigger] tick(start, rate, j),),
            ),
    ensures
        final(data)@.len() == old(data)@.len(),
        filled(final(data)@, channels as nat, rate, start, render),
        end == tick(start, rate, frame_count(old(data)@.len(), channels as nat)),
{
    let len: usize = data.len();
    let width: usize = channels as usize;
    let whole: usize = len / width;
    assert(len % width != 0 ==> len / width < len) by (nonlinear_arith)
        requires
            width > 0,
            len >= 0,
    ;
    let frames: usize = if len % width == 0 {
        whole
    } else {
        whole + 1
    };
    let mut sample: u32 = settle(start, rate);
    let mut frame: usize = 0;
    while frame < frames
        invariant
            len == data@.len(),
            len == old(data)@.len(),
            width == channels,
            width > 0,
            rate > 0,
            frames == frame_count(len as nat, width as nat),
            whole == len / width,
            frame <= frames,
            sample == tick(start, rate, frame as nat),
            forall|j: nat|
                j < frames ==> render.requires((#[trigger] tick(start, rate, j),)),
            forall|i: int|
                0 <= i < len && i < frame * width ==> render.ensures(
                    (tick(start, rate, frame_of(i, width as nat)),),
                    #[trigger] data@[i],
                ),
            forall|i: int|
                0 <= i < len && i < frame * width ==> #[trigger] data@[i] == data@[frame_start(
                    i,
                    width as nat,
                )],
        decreases frames - frame,
    {
        proof {
            lemma_frame_bounds(len as nat, width as nat, frame as nat);
        }
        let base: usize = frame * width;
        let stop: usize = if len - base < width {
            len
        } else {
            base + width
        };
        let value: T = render(sample);
        let ghost before = data@;
        let mut slot: usize = base;
        while slot < stop
            invariant
                len == data@.len(),
                width > 0,
                base == frame * width,
                base <= slot <= stop <= len,
                stop <= base + width,
                forall|i: int| 0 <= i < base ==> data@[i] == before[i],
                forall|i: int| base <= i < slot ==> data@[i] == value,
            decreases stop - slot,
        {
            data[slot] = value;
            slot += 1;
        }
        proof {
            assert forall|i: int| 0 <= i < len && i < (frame + 1) * width implies render.ensures(
                (tick(start, rate, frame_of(i, width as nat)),),
                #[trigger] data@[i],
            ) && data@[i] == data@[frame_start(i, width as nat)] by {
                assert((frame + 1) * width == base + width) by (nonlinear_arith)
                    requires
                        base == frame * width,
                ;
                if i < base {
                    assert(data@[i] == before[i]);
                    lemma_frame_of(i, width as nat);
                } else {
                    lemma_frame_in(i, width as nat, frame as nat);
                }
            }
        }
        proof {
            lemma_tick_split(start, rate, frame as nat, 1);
        }
        sample = advance(sample, rate);
        frame += 1;
    }
    proof {
        assert forall|i: int| 0 <= i < len implies render.ensures(
            (tick(start, rate, frame_of(i, width as nat)),),
            #[trigger] data@[i],
        ) by {
            lemma_frames_cover(len as nat, width as nat, i);
        }
        assert forall|i: int| 0 <= i < len implies #[trigger] data@[i] == data@[frame_start(
            i,
            width as nat,
        )] by {
            lemma_frames_cover(len as nat, width as nat, i);
        }
    }
    sample
}

/// Frame `frame` of a buffer starts inside the buffer.
proof fn lemma_frame_bounds(len: nat, channels: nat, frame: nat)
    requires
        channels > 0,
        frame < frame_count(len, channels),
    ensures
        frame * channels < len,
{
    assert(len == channels * (len / channels) + len % channels) by (nonlinear_arith)
        requires
            channels > 0,
    ;
    assert(0 <= len % channels < channels) by (nonlinear_arith)
        requires
            channels > 0,
    ;
    if len % channels == 0 {
        assert(frame * channels < channels * (len / channels)) by (nonlinear_arith)
            requires
                frame < len / channels,
                channels > 0,
        ;
    } else {
        assert(frame * channels <= channels * (len / channels)) by (nonlinear_arith)
            requires
                frame <= len / channels,
                channels > 0,
        ;
    }
}

/// A slot lies at or after the start of its frame and before the next one.
proof fn lemma_frame_of(i: int, channels: nat)
    requires
        0 <= i,
        channels > 0,
    ensures
        frame_of(i, channels) * channels <= i < (frame_of(i, channels) + 1) * channels,
        frame_start(i, channels) == frame_of(i, channels) * channels,
        0 <= frame_start(i, channels) <= i,
{
    let c = channels as int;
    assert(i == c * (i / c) + i % c && 0 <= i % c < c && 0 <= i / c) by (nonlinear_arith)
        requires
            c > 0,
            0 <= i,
    ;
    assert((i / c) * c == c * (i / c) && (i / c + 1) * c == c * (i / c) + c) by (nonlinear_arith);
}

/// A slot between the start of frame `frame` and the start of the next one
/// belongs to that frame.
proof fn lemma_frame_in(i: int, channels: nat, frame: nat)
    requires
        channels > 0,
        frame * channels <= i < frame * channels + channels,
    ensures
        frame_of(i, channels) == frame,
        frame_start(i, channels) == frame * channels,
{
    let c = channels as int;
    let f = frame as int;
    assert(i / c == f) by (nonlinear_arith)
        requires
            c > 0,
            f * c <= i < f * c + c,
    ;
}

/// The frames of a buffer cover all its slots.
proof fn lemma_frames_cover(len: nat, channels: nat, i: int)
    requires
        channels > 0,
        0 <= i < len,
    ensures
        i < frame_count(len, channels) * channels,
{
    let c = channels as int;
    let l = len as int;
    assert(l == c * (l / c) + l % c && 0 <= l % c < c) by (nonlinear_arith)
        requires
            c > 0,
            0 <= l,
    ;
    if l % c == 0 {
        assert((l / c) * c == c * (l / c)) by (nonlinear_arith);
    } else {
        assert((l / c + 1) * c == c * (l / c) + c) by (nonlinear_arith);
    }
}

/// Buffer boundaries do not show. Where a first buffer holds whole frames
/// only, filling it and then a second buffer leaves in the second what
/// filling both as one buffer leaves in its later part: slot `i` of the
/// second is rendered from the counter of slot `first + i` of the whole, and
/// the counter ends where it ends for the whole.
pub proof fn lemma_buffers_chain(
    start: u32,
    rate: u32,
    channels: nat,
    first: nat,
    second: nat,
    i: int,
)
    requires
        rate > 0,
        channels > 0,
        first % channels == 0,
        0 <= i,
    ensures
        frame_count(first + second, channels) == frame_count(first, channels) + frame_count(
            second,
            channels,
        ),
        tick(tick(start, rate, frame_count(first, channels)), rate, frame_of(i, channels)) == tick(
            start,
            rate,
            frame_of(first + i, channels),
        ),
        tick(tick(start, rate, frame_count(first, channels)), rate, frame_count(second, channels))
            == tick(start, rate, frame_count(first + second, channels)),
{
    let c = channels as int;
    let whole = first as int / c;
    vstd::arithmetic::div_mod::lemma_fundamental_div_mod(first as int, c);
    assert(first as int == whole * c) by (nonlinear_arith)
        requires
            first as int == c * whole + 0,
    ;
    assert(whole >= 0) by (nonlinear_arith)
        requires
            first as int == whole * c,
            c > 0,
            first >= 0,
    ;
    vstd::arithmetic::div_mod::lemma_hoist_over_denominator(second as int, whole, channels);
    vstd::arithmetic::div_mod::lemma_hoist_over_denominator(i, whole, channels);
    vstd::arithmetic::div_mod::lemma_mod_multiples_vanish(whole, second as int, c);
    assert(c * whole + second as int == first + second) by (nonlinear_arith)
        requires
            first as int == whole * c,
    ;
    assert(i / c >= 0) by (nonlinear_arith)
        requires
            i >= 0,
            c > 0,
    ;
    assert(second as int / c >= 0) by (nonlinear_arith)
        requires
            second >= 0,
            c > 0,
    ;
    lemma_tick_split(start, rate, frame_count(first, channels), frame_of(i, channels));
    lemma_tick_split(start, rate, frame_count(first, channels), frame_count(second, channels));
}

} // verus!
