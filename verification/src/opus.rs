use vstd::prelude::*;

use crate::time::Duration;

verus! {

/// Decoded samples waiting to be played, and the position of the next one.
pub struct SampleBuffer {
    pub samples: Vec<i16>,
    pub position: usize,
}

impl SampleBuffer {
    /// An empty buffer.
    pub fn new() -> (b: SampleBuffer)
        ensures
            b.samples@.len() == 0,
            b.position == 0,
    {
        SampleBuffer { samples: Vec::new(), position: 0 }
    }

    /// The next sample, when one is left; it is then consumed.
    pub fn next_sample(&mut self) -> (s: Option<i16>)
        ensures
            old(self).position < old(self).samples@.len() ==> s == Some(old(self).samples@[old(self).position as int])
                && final(self).position == old(self).position + 1,
            old(self).position >= old(self).samples@.len() ==> s is None && final(self).position == old(self).position,
            final(self).samples == old(self).samples,
    {
        if self.position < self.samples.len() {
            let s = self.samples[self.position];
            self.position = self.position + 1;
            Some(s)
        } else {
            None
        }
    }

    /// Drops every sample.
    pub fn clear(&mut self)
        ensures
            final(self).samples@.len() == 0,
            final(self).position == 0,
    {
        self.samples.clear();
        self.position = 0;
    }

    /// The number of samples not yet played.
    pub fn remaining(&self) -> (n: usize)
        ensures
            n == if self.position <= self.samples@.len() { self.samples@.len() - self.position } else { 0 },
    {
        if self.position <= self.samples.len() { self.samples.len() - self.position } else { 0 }
    }

    /// Appends `block[start..end]` when that is a non-empty range inside the
    /// block; otherwise leaves the buffer as it is.
    pub fn append_kept(&mut self, block: &Vec<i16>, start: usize, end: usize)
        ensures
            start < end && end <= block@.len() ==> final(self).samples@ == old(self).samples@ + block@.subrange(start as int, end as int),
            !(start < end && end <= block@.len()) ==> final(self).samples@ == old(self).samples@,
            final(self).position == old(self).position,
    {
        if start < end && end <= block.len() {
            let ghost before = self.samples@;
            let ghost pos = self.position;
            for i in start..end
                invariant
                    end <= block@.len(),
                    self.position == pos,
                    self.samples@ == before + block@.subrange(start as int, i as int),
            {
                self.samples.push(block[i]);
                proof {
                    assert(block@.subrange(start as int, i + 1) =~= block@.subrange(start as int, i as int).push(block@[i as int]));
                }
            }
        }
    }
}

/// The frame nearest to `target` at `rate` frames per second (halves round
/// up), capped at the largest `u64`.
pub open spec fn target_frame_spec(target_nanos: nat, rate: nat) -> nat {
    let f = (target_nanos * rate + 500_000_000) / 1_000_000_000;
    if f <= u64::MAX { f } else { u64::MAX as nat }
}

/// The frame a seek to `target` aims at, at `rate` frames per second.
pub fn target_frame(target: Duration, rate: u32) -> (f: u64)
    ensures
        f == target_frame_spec(target@, rate as nat),
{
    let secs = target.as_secs() as u128;
    let nanos = target.subsec_nanos() as u128;
    assert(target@ == secs * 1_000_000_000 + nanos);
    assert(secs <= u64::MAX);
    assert(secs * (rate as u128) <= (u64::MAX as u128) * (u32::MAX as u128)) by (nonlinear_arith)
        requires secs <= u64::MAX, rate <= u32::MAX;
    assert(nanos * (rate as u128) <= 1_000_000_000u128 * (u32::MAX as u128)) by (nonlinear_arith)
        requires nanos < 1_000_000_000, rate <= u32::MAX;
    assert(secs * 1_000_000_000 * (rate as u128) <= (u64::MAX as u128) * 1_000_000_000 * (u32::MAX as u128)) by (nonlinear_arith)
        requires secs <= u64::MAX, rate <= u32::MAX;
    let total = secs * 1_000_000_000 * (rate as u128) + nanos * (rate as u128) + 500_000_000;
    assert(total == target@ * rate + 500_000_000) by (nonlinear_arith)
        requires total == secs * 1_000_000_000 * rate + nanos * rate + 500_000_000, target@ == secs * 1_000_000_000 + nanos;
    let f = total / 1_000_000_000;
    if f <= u64::MAX as u128 { f as u64 } else { u64::MAX }
}

/// The frame playback is at: frames handed out so far by the decoder less
/// the whole frames still waiting in the buffer.
pub open spec fn current_frame_spec(emitted: int, buffered: int, position: int, channels: int) -> int {
    let waiting = (if position <= buffered { buffered - position } else { 0 }) / channels;
    if waiting <= emitted { emitted - waiting } else { 0 }
}

/// See `current_frame_spec`.
pub fn current_frame(emitted: u64, buffered: usize, position: usize, channels: usize) -> (f: u64)
    requires
        channels > 0,
    ensures
        f == current_frame_spec(emitted as int, buffered as int, position as int, channels as int),
{
    let waiting = (if position <= buffered { buffered - position } else { 0 }) / channels;
    if (waiting as u64) <= emitted { emitted - waiting as u64 } else { 0 }
}

/// Where the read position goes when the target frame lies among the
/// buffered samples (the buffer ends at frame `emitted`): the first sample
/// of the target frame, at most the buffer's end; `None` otherwise.
pub open spec fn position_in_buffer_spec(target: int, emitted: int, buffered: int, channels: int) -> Option<int> {
    let frames = buffered / channels;
    let first = if frames <= emitted { emitted - frames } else { 0 };
    if first <= target && target <= emitted {
        Some(if (target - first) * channels <= buffered { (target - first) * channels } else { buffered })
    } else {
        None
    }
}

/// See `position_in_buffer_spec`.
pub fn position_in_buffer(target: u64, emitted: u64, buffered: usize, channels: usize) -> (p: Option<usize>)
    requires
        channels > 0,
    ensures
        position_in_buffer_spec(target as int, emitted as int, buffered as int, channels as int) == match p {
            Some(q) => Some(q as int),
            None => None::<int>,
        },
{
    let frames = buffered / channels;
    let first: u64 = if (frames as u64) <= emitted { emitted - frames as u64 } else { 0 };
    if first <= target && target <= emitted {
        let offset = target - first;
        assert(offset <= frames) by {
            if frames <= emitted {
            }
        }
        assert(offset * channels <= frames * channels) by (nonlinear_arith)
            requires offset <= frames;
        assert(frames * channels <= buffered) by (nonlinear_arith)
            requires frames as int == (buffered as int) / (channels as int), channels > 0;
        Some((offset as usize) * channels)
    } else {
        None
    }
}

/// The frame up to which packets are skipped without decoding before a
/// seek: 80 ms before the target, or the start.
pub open spec fn preroll_start_spec(target: int, rate: int) -> int {
    let preroll = rate * 80 / 1000;
    if preroll <= target { target - preroll } else { 0 }
}

/// See `preroll_start_spec`.
pub fn preroll_start(target: u64, rate: u32) -> (f: u64)
    ensures
        f == preroll_start_spec(target as int, rate as int),
{
    let preroll = (rate as u64) * 80 / 1000;
    if preroll <= target { target - preroll } else { 0 }
}

/// The read position after decoding past the target: the buffer's end less
/// the samples of the frames decoded beyond the target.
pub open spec fn position_after_overshoot_spec(emitted: int, target: int, buffered: int, channels: int) -> int {
    let over = (emitted - target) * channels;
    if over <= buffered { buffered - over } else { 0 }
}

/// See `position_after_overshoot_spec`.
pub fn position_after_overshoot(emitted: u64, target: u64, buffered: usize, channels: usize) -> (p: usize)
    requires
        target <= emitted,
        channels > 0,
    ensures
        p == position_after_overshoot_spec(emitted as int, target as int, buffered as int, channels as int),
{
    let over_frames = emitted - target;
    if over_frames > buffered as u64 {
        assert((emitted - target) * channels >= over_frames) by (nonlinear_arith)
            requires channels > 0, over_frames == emitted - target;
        0
    } else {
        let of = over_frames as usize;
        if of == 0 {
            buffered
        } else if channels > buffered / of {
            assert(of * channels > buffered) by (nonlinear_arith)
                requires of > 0, channels > buffered / of;
            0
        } else {
            assert(of * channels <= buffered) by (nonlinear_arith)
                requires of > 0, channels <= buffered / of;
            buffered - of * channels
        }
    }
}

/// The number of samples (all channels) to decode ahead: 100 ms of audio.
pub fn prefill_samples(rate: u32, channels: usize) -> (n: usize)
    requires
        rate <= 48_000,
        channels <= 255,
    ensures
        n == (rate as int) * (channels as int) / 10,
{
    assert((rate as int) * (channels as int) <= 48_000 * 255) by (nonlinear_arith)
        requires rate <= 48_000, channels <= 255;
    (rate as usize) * channels / 10
}

/// What `opus_pure::packet::samples` gives for `packet` at `rate`: the
/// number of samples per channel the packet decodes to, or `None` when the
/// packet or rate is rejected.
pub uninterp spec fn spec_packet_samples(packet: Seq<u8>, rate: i32) -> Option<usize>;

/// Calls `opus_pure::packet::samples`. The contract claims that the result
/// is what `spec_packet_samples` names, and that an accepted count is at most
/// `MAX_PACKET_SAMPLES` (5760): the function rejects rates above 48 kHz and
/// counts above `MAX_PACKET_SAMPLES * rate / 48000`.
#[verifier::external_body]
fn packet_samples(packet: &[u8], rate: i32) -> (n: Option<usize>)
    ensures
        n == spec_packet_samples(packet@, rate),
        n matches Some(k) ==> k <= 5760,
{
    opus_pure::packet::samples(packet, rate).ok()
}

/// The decoded length (all channels) assumed for a packet skipped during a
/// seek: its sample count, or 960 when that cannot be read, times the
/// channel count.
pub fn skipped_packet_len(packet: &[u8], rate: i32, channels: usize) -> (n: usize)
    requires
        channels <= 255,
    ensures
        n == match spec_packet_samples(packet@, rate) {
            Some(k) => k * channels,
            None => 960 * channels,
        },
{
    let per_channel = match packet_samples(packet, rate) {
        Some(k) => k,
        None => 960,
    };
    assert(per_channel * channels <= 5760 * 255) by (nonlinear_arith)
        requires per_channel <= 5760, channels <= 255;
    per_channel * channels
}

/// A seek to a frame among the buffered samples leaves playback at that
/// frame, when the buffer holds whole frames, no more than were decoded.
pub proof fn law_seek_in_buffer_lands_on_target(target: int, emitted: int, buffered: int, channels: int)
    requires
        channels > 0,
        0 <= target,
        0 <= emitted,
        0 <= buffered,
        buffered % channels == 0,
        buffered / channels <= emitted,
        position_in_buffer_spec(target, emitted, buffered, channels) is Some,
    ensures
        current_frame_spec(emitted, buffered, position_in_buffer_spec(target, emitted, buffered, channels)->0, channels)
            == target,
{
    let frames = buffered / channels;
    let first = if frames <= emitted { emitted - frames } else { 0 };
    let off = target - first;
    vstd::arithmetic::div_mod::lemma_fundamental_div_mod(buffered, channels);
    assert(buffered == frames * channels);
    assert(0 <= off <= frames);
    assert(off * channels <= frames * channels) by (nonlinear_arith)
        requires 0 <= off <= frames, channels > 0;
    assert(buffered - off * channels == (frames - off) * channels) by (nonlinear_arith)
        requires buffered == frames * channels;
    vstd::arithmetic::div_mod::lemma_div_multiples_vanish(frames - off, channels);
    assert((frames - off) * channels / channels == frames - off) by (nonlinear_arith)
        requires channels > 0;
}

/// Decoding past the target and stepping back over the extra frames leaves
/// playback at the target, when the buffer holds those frames whole.
pub proof fn law_overshoot_lands_on_target(emitted: int, target: int, buffered: int, channels: int)
    requires
        channels > 0,
        0 <= target <= emitted,
        0 <= buffered,
        buffered % channels == 0,
        (emitted - target) * channels <= buffered,
    ensures
        current_frame_spec(emitted, buffered, position_after_overshoot_spec(emitted, target, buffered, channels), channels)
            == target,
{
    assert((emitted - target) * channels / channels == emitted - target) by (nonlinear_arith)
        requires channels > 0;
}

/// Where a seek stands.
#[derive(Debug, Clone, Copy, PartialEq, Eq, Structural)]
pub enum SeekPhase {
    /// Nothing done yet.
    Start,
    /// The stream is at or before the target: look for it in the buffer.
    Locate,
    /// Skipping packets without decoding up to the preroll start.
    Skip,
    /// Decoding packets up to the target.
    Decode,
    /// At the target; decoding ahead to fill the buffer.
    Prefill,
    /// The seek is over.
    Done,
}

/// What the caller does for one step of a seek, before it calls
/// `seek_step` again with the stream's new counts.
#[derive(Debug, Clone, Copy, PartialEq, Eq, Structural)]
pub enum SeekAction {
    /// Reopen the stream at its start, with an empty buffer and no frames
    /// emitted.
    Rewind,
    /// Move the read position of the buffer to this sample.
    SetPosition(usize),
    /// Drop every buffered sample.
    ClearBuffer,
    /// Read one packet and count its frames as emitted, without decoding it
    /// (see `skipped_packet_len`).
    SkipPacket,
    /// Read and decode one packet into the buffer.
    DecodePacket,
    /// Nothing more to do.
    Finish,
}

/// The samples not yet played.
pub open spec fn remaining_spec(buffered: int, position: int) -> int {
    if position <= buffered { buffered - position } else { 0 }
}

/// The next phase and action of a seek to frame `target` at `rate` frames per
/// second with `channels` channels, when the decoder has emitted `emitted`
/// frames, the buffer holds `buffered` samples read up to `position`, and
/// `ended` tells whether the last packet read found the end of the stream.
///
/// A target before the current frame rewinds the stream first. A target
/// among the buffered samples moves the read position to it. Otherwise the
/// buffer is dropped, packets are skipped up to 80 ms before the target and
/// decoded up to the target, the read position steps back over the frames
/// decoded beyond the target, and 100 ms are decoded ahead. When the stream
/// ends, the seek is over and the buffer stays as it is: ending before the
/// target was reached leaves what was decoded after the preroll start to be
/// played from its first sample.
pub open spec fn seek_step_spec(
    phase: SeekPhase,
    target: int,
    emitted: int,
    buffered: int,
    position: int,
    channels: int,
    rate: int,
    ended: bool,
) -> (SeekPhase, SeekAction) {
    let reach_target = if emitted < target {
        (SeekPhase::Decode, SeekAction::DecodePacket)
    } else {
        (SeekPhase::Prefill, SeekAction::SetPosition(position_after_overshoot_spec(emitted, target, buffered, channels) as usize))
    };
    match phase {
        SeekPhase::Start => if target < current_frame_spec(emitted, buffered, position, channels) {
            (SeekPhase::Locate, SeekAction::Rewind)
        } else {
            match position_in_buffer_spec(target, emitted, buffered, channels) {
                Some(p) => (SeekPhase::Done, SeekAction::SetPosition(p as usize)),
                None => (SeekPhase::Skip, SeekAction::ClearBuffer),
            }
        },
        SeekPhase::Locate => match position_in_buffer_spec(target, emitted, buffered, channels) {
            Some(p) => (SeekPhase::Done, SeekAction::SetPosition(p as usize)),
            None => (SeekPhase::Skip, SeekAction::ClearBuffer),
        },
        SeekPhase::Skip => if ended {
            (SeekPhase::Done, SeekAction::Finish)
        } else if emitted < preroll_start_spec(target, rate) {
            (SeekPhase::Skip, SeekAction::SkipPacket)
        } else {
            reach_target
        },
        SeekPhase::Decode => if ended {
            (SeekPhase::Done, SeekAction::Finish)
        } else {
            reach_target
        },
        SeekPhase::Prefill => if !ended && remaining_spec(buffered, position) < rate * channels / 10 {
            (SeekPhase::Prefill, SeekAction::DecodePacket)
        } else {
            (SeekPhase::Done, SeekAction::Finish)
        },
        SeekPhase::Done => (SeekPhase::Done, SeekAction::Finish),
    }
}

/// One step of a seek (see `seek_step_spec`).
pub fn seek_step(
    phase: SeekPhase,
    target: u64,
    emitted: u64,
    buffered: usize,
    position: usize,
    channels: usize,
    rate: u32,
    ended: bool,
) -> (r: (SeekPhase, SeekAction))
    requires
        channels > 0,
        channels <= 255,
        rate <= 48_000,
    ensures
        r == seek_step_spec(phase, target as int, emitted as int, buffered as int, position as int, channels as int, rate as int, ended),
{
    match phase {
        SeekPhase::Start => {
            if target < current_frame(emitted, buffered, position, channels) {
                return (SeekPhase::Locate, SeekAction::Rewind);
            }
            match position_in_buffer(target, emitted, buffered, channels) {
                Some(p) => (SeekPhase::Done, SeekAction::SetPosition(p)),
                None => (SeekPhase::Skip, SeekAction::ClearBuffer),
            }
        },
        SeekPhase::Locate => match position_in_buffer(target, emitted, buffered, channels) {
            Some(p) => (SeekPhase::Done, SeekAction::SetPosition(p)),
            None => (SeekPhase::Skip, SeekAction::ClearBuffer),
        },
        SeekPhase::Skip => {
            if ended {
                (SeekPhase::Done, SeekAction::Finish)
            } else if emitted < preroll_start(target, rate) {
                (SeekPhase::Skip, SeekAction::SkipPacket)
            } else if emitted < target {
                (SeekPhase::Decode, SeekAction::DecodePacket)
            } else {
                (SeekPhase::Prefill, SeekAction::SetPosition(position_after_overshoot(emitted, target, buffered, channels)))
            }
        },
        SeekPhase::Decode => {
            if ended {
                (SeekPhase::Done, SeekAction::Finish)
            } else if emitted < target {
                (SeekPhase::Decode, SeekAction::DecodePacket)
            } else {
                (SeekPhase::Prefill, SeekAction::SetPosition(position_after_overshoot(emitted, target, buffered, channels)))
            }
        },
        SeekPhase::Prefill => {
            let remaining = if position <= buffered { buffered - position } else { 0 };
            if !ended && remaining < prefill_samples(rate, channels) {
                (SeekPhase::Prefill, SeekAction::DecodePacket)
            } else {
                (SeekPhase::Done, SeekAction::Finish)
            }
        },
        SeekPhase::Done => (SeekPhase::Done, SeekAction::Finish),
    }
}

/// A position that a seek step sets lands on the target frame: found in the
/// buffer (when the buffer holds whole frames, no more than were decoded), or
/// reached by decoding (when the frames decoded past the target are all still
/// buffered).
pub proof fn law_seek_step_lands_on_target(
    phase: SeekPhase,
    target: int,
    emitted: int,
    buffered: int,
    position: int,
    channels: int,
    rate: int,
)
    requires
        channels > 0,
        0 <= target,
        0 <= emitted,
        0 <= buffered <= usize::MAX,
        buffered % channels == 0,
        buffered / channels <= emitted,
        phase is Locate || phase is Decode,
        target <= emitted ==> (emitted - target) * channels <= buffered,
        seek_step_spec(phase, target, emitted, buffered, position, channels, rate, false).1 is SetPosition,
    ensures
        ({
            let p = seek_step_spec(phase, target, emitted, buffered, position, channels, rate, false).1->0;
            current_frame_spec(emitted, buffered, p as int, channels) == target
        }),
{
    if phase is Locate {
        law_seek_in_buffer_lands_on_target(target, emitted, buffered, channels);
        let p = position_in_buffer_spec(target, emitted, buffered, channels)->0;
        assert(0 <= p <= buffered) by {
            let frames = buffered / channels;
            let first = if frames <= emitted { emitted - frames } else { 0 };
            assert((target - first) * channels >= 0) by (nonlinear_arith)
                requires target - first >= 0, channels > 0;
        }
    } else {
        law_overshoot_lands_on_target(emitted, target, buffered, channels);
    }
}

/// What the sample source does next when asked for a sample.
#[derive(Debug, Clone, Copy, PartialEq, Eq, Structural)]
pub enum RefillAction {
    /// Hand out the sample at the read position.
    HandOut,
    /// Drop the played samples and start refilling.
    Clear,
    /// Read and decode one more packet.
    Decode,
    /// The stream is over: no more samples.
    End,
}

/// Packets in a row that may give no samples before the stream counts as
/// over, so that a corrupt stream cannot keep the source busy.
pub const MAX_EMPTY_PACKETS: u32 = 128;

/// The next step of the sample source: `refilling` is `None` while samples
/// are handed out and `Some(k)` after `k` packets decoded since the buffer
/// was dropped; `ended` tells whether the last packet read found the end of
/// the stream or failed.
///
/// A sample left in the buffer is handed out. An empty buffer is dropped and
/// refilled packet by packet until it holds samples; the stream is over at
/// its end, or after `MAX_EMPTY_PACKETS` packets in a row that gave nothing.
pub open spec fn refill_step_spec(refilling: Option<u32>, buffered: int, position: int, ended: bool) -> (Option<u32>, RefillAction) {
    if ended {
        (None, RefillAction::End)
    } else {
        match refilling {
            None => if position < buffered {
                (None, RefillAction::HandOut)
            } else {
                (Some(0u32), RefillAction::Clear)
            },
            Some(k) => if position < buffered {
                (None, RefillAction::HandOut)
            } else if k < MAX_EMPTY_PACKETS {
                (Some((k + 1) as u32), RefillAction::Decode)
            } else {
                (None, RefillAction::End)
            },
        }
    }
}

/// See `refill_step_spec`.
pub fn refill_step(refilling: Option<u32>, buffered: usize, position: usize, ended: bool) -> (r: (Option<u32>, RefillAction))
    ensures
        r == refill_step_spec(refilling, buffered as int, position as int, ended),
{
    if ended {
        return (None, RefillAction::End);
    }
    match refilling {
        None => if position < buffered {
            (None, RefillAction::HandOut)
        } else {
            (Some(0), RefillAction::Clear)
        },
        Some(k) => if position < buffered {
            (None, RefillAction::HandOut)
        } else if k < MAX_EMPTY_PACKETS {
            (Some(k + 1), RefillAction::Decode)
        } else {
            (None, RefillAction::End)
        },
    }
}

/// While packets give no samples, the source decodes at most
/// `MAX_EMPTY_PACKETS` of them after dropping the buffer and then ends.
pub proof fn law_refill_gives_up_after_empty_packets(k: u32, position: int)
    requires
        k <= MAX_EMPTY_PACKETS,
        position >= 0,
    ensures
        k < MAX_EMPTY_PACKETS ==> refill_step_spec(Some(k), 0, position, false) == (Some((k + 1) as u32), RefillAction::Decode),
        k == MAX_EMPTY_PACKETS ==> refill_step_spec(Some(k), 0, position, false) == (None::<u32>, RefillAction::End),
        refill_step_spec(None, 0, position, false) == (Some(0u32), RefillAction::Clear),
{
}

} // verus!
