//! Turns one track's frames into a single continuous, aligned sequence of samples at a
//! fixed nominal rate.

use crate::aligner::{self, AlignerModel, AudioPacket, PacketPlan, TimelineAligner};
use crate::domain::CapturedFrame;
use vstd::prelude::*;

verus! {

/// Whether the packet stands for the frame: its time, its flag, and the stream's nominal
/// interval. The samples are the frame's, brought to mono at the nominal rate.
pub open spec fn stands_for<F, S>(
    packet: AudioPacket<S>,
    frame: CapturedFrame<F>,
    nominal_frame_interval_ns: u64,
) -> bool {
    &&& packet.host_time_ns == frame.host_time_ns
    &&& packet.nominal_duration_ns == nominal_frame_interval_ns
    &&& packet.discontinuity == frame.discontinuity
}

/// The packet for a frame whose samples have been brought to mono at the nominal rate.
pub fn packet_for<F, S>(
    frame: &CapturedFrame<F>,
    mono: Vec<S>,
    nominal_frame_interval_ns: u64,
) -> (packet: AudioPacket<S>)
    ensures
        stands_for(packet, *frame, nominal_frame_interval_ns),
        packet.samples == mono,
{
    AudioPacket {
        host_time_ns: frame.host_time_ns,
        nominal_duration_ns: nominal_frame_interval_ns,
        samples: mono,
        discontinuity: frame.discontinuity,
    }
}

/// The aligner after the first `count` packets of a track.
pub open spec fn ingested<S>(
    packets: Seq<AudioPacket<S>>,
    resampled: Seq<Vec<S>>,
    rate_hz: u32,
    silence: S,
    count: int,
) -> AlignerModel<S>
    decreases count,
{
    if count <= 0 {
        AlignerModel::empty()
    } else {
        aligner::ingest_step(
            ingested(packets, resampled, rate_hz, silence, count - 1),
            packets[count - 1],
            resampled[count - 1]@,
            rate_hz,
            silence,
        )
    }
}

/// The aligned track.
pub open spec fn aligned<S>(
    packets: Seq<AudioPacket<S>>,
    resampled: Seq<Vec<S>>,
    rate_hz: u32,
    silence: S,
    total_duration_ns: u64,
) -> AlignerModel<S> {
    aligner::finalize_step(
        ingested(packets, resampled, rate_hz, silence, packets.len() as int),
        total_duration_ns,
        rate_hz,
        silence,
    )
}

/// Whether a packet can be fed to an aligner of this rate, with these resampled frames.
pub open spec fn can_ingest<S>(packet: AudioPacket<S>, resampled: Seq<S>, rate_hz: u32) -> bool {
    &&& aligner::plan_of(packet, rate_hz) matches PacketPlan::Resample { frames }
        ==> resampled.len() == frames
    &&& aligner::frames_in(packet.nominal_duration_ns as int, rate_hz as int) <= usize::MAX
    &&& packet.host_time_ns + packet.nominal_duration_ns <= u64::MAX
}

proof fn lemma_growth<S>(
    m: AlignerModel<S>,
    packet: AudioPacket<S>,
    resampled: Seq<S>,
    rate_hz: u32,
    silence: S,
)
    ensures
        aligner::ingest_step(m, packet, resampled, rate_hz, silence).fits() ==> m.fits(),
{
    let after = aligner::ingest_step(m, packet, resampled, rate_hz, silence);
    let gap = aligner::gap_before(m.next_expected_ns, packet.host_time_ns, rate_hz as int);
    assert(gap >= 0) by (nonlinear_arith)
        requires
            gap == aligner::gap_before(m.next_expected_ns, packet.host_time_ns, rate_hz as int),
    ;
    assert(after.output.len() >= m.output.len());
}

proof fn lemma_prefix_fits<S>(
    packets: Seq<AudioPacket<S>>,
    resampled: Seq<Vec<S>>,
    rate_hz: u32,
    silence: S,
    count: int,
    all: int,
)
    requires
        0 <= count <= all,
        ingested(packets, resampled, rate_hz, silence, all).fits(),
    ensures
        ingested(packets, resampled, rate_hz, silence, count).fits(),
    decreases all - count,
{
    if count < all {
        lemma_prefix_fits(packets, resampled, rate_hz, silence, count + 1, all);
        lemma_growth(
            ingested(packets, resampled, rate_hz, silence, count),
            packets[count],
            resampled[count]@,
            rate_hz,
            silence,
        );
    }
}

/// Feeds every packet through an aligner and pads to `total_duration_ns`, so that two
/// tracks aligned on their own end up the same length even if one lost its final frames.
/// `resampled` holds, for each packet that is to be resampled, its resampled frames.
pub fn align_track<S: Copy>(
    packets: &[AudioPacket<S>],
    resampled: &[Vec<S>],
    nominal_rate_hz: u32,
    silence: S,
    total_duration_ns: u64,
) -> (track: Vec<S>)
    requires
        packets@.len() == resampled@.len(),
        forall|i: int|
            #![trigger packets@[i]]
            0 <= i < packets@.len() ==> can_ingest(packets@[i], resampled@[i]@, nominal_rate_hz),
        aligned(packets@, resampled@, nominal_rate_hz, silence, total_duration_ns).fits(),
    ensures
        track@ == aligned(
            packets@,
            resampled@,
            nominal_rate_hz,
            silence,
            total_duration_ns,
        ).output,
{
    let mut aligner: TimelineAligner<S> = TimelineAligner::new(nominal_rate_hz, silence);
    let ghost n = packets@.len() as int;
    proof {
        let last = ingested(packets@, resampled@, nominal_rate_hz, silence, n);
        let tail = aligner::tail_frames(
            last.next_expected_ns,
            total_duration_ns,
            nominal_rate_hz as int,
        );
        assert(tail >= 0) by (nonlinear_arith)
            requires
                tail == aligner::tail_frames(
                    last.next_expected_ns,
                    total_duration_ns,
                    nominal_rate_hz as int,
                ),
        ;
        assert(last.fits());
    }
    let mut i: usize = 0;
    while i < packets.len()
        invariant
            i <= n,
            n == packets@.len(),
            packets@.len() == resampled@.len(),
            aligner.nominal_rate_hz == nominal_rate_hz,
            aligner.silence == silence,
            aligner@.stats.max_deviation.frames > 0,
            forall|i: int|
                #![trigger packets@[i]]
                0 <= i < packets@.len() ==> can_ingest(
                    packets@[i],
                    resampled@[i]@,
                    nominal_rate_hz,
                ),
            ingested(packets@, resampled@, nominal_rate_hz, silence, n).fits(),
            aligner@ == ingested(packets@, resampled@, nominal_rate_hz, silence, i as int),
        decreases n - i,
    {
        proof {
            lemma_prefix_fits(packets@, resampled@, nominal_rate_hz, silence, i + 1, n);
            assert(can_ingest(packets@[i as int], resampled@[i as int]@, nominal_rate_hz));
        }
        aligner.ingest(&packets[i], resampled[i].as_slice());
        i = i + 1;
    }
    aligner.finalize_up_to(total_duration_ns);
    aligner.into_output()
}

/// Whether the packets of a track follow each other without overlap from `start_ns` on,
/// each on the frame grid.
pub open spec fn in_order<S>(
    packets: Seq<AudioPacket<S>>,
    rate_hz: u32,
    start_ns: u64,
) -> bool {
    &&& packets.len() > 0 ==> packets[0].host_time_ns == start_ns
    &&& forall|i: int|
        #![trigger packets[i]]
        0 <= i < packets.len() ==> aligner::on_grid(
            packets[i].nominal_duration_ns as int,
            rate_hz as int,
        )
    &&& forall|i: int|
        #![trigger packets[i]]
        0 < i < packets.len() ==> {
            let end = packets[i - 1].host_time_ns + packets[i - 1].nominal_duration_ns;
            &&& end <= packets[i].host_time_ns
            &&& aligner::on_grid(packets[i].host_time_ns - end, rate_hz as int)
        }
}

proof fn lemma_ingested_length<S>(
    packets: Seq<AudioPacket<S>>,
    resampled: Seq<Vec<S>>,
    rate_hz: u32,
    silence: S,
    start_ns: u64,
    count: int,
)
    requires
        0 < count <= packets.len(),
        packets.len() == resampled.len(),
        in_order(packets, rate_hz, start_ns),
        forall|i: int|
            #![trigger packets[i]]
            0 <= i < packets.len() ==> can_ingest(packets[i], resampled[i]@, rate_hz),
    ensures
        ({
            let m = ingested(packets, resampled, rate_hz, silence, count);
            let last = packets[count - 1];
            &&& m.next_expected_ns == Some((last.host_time_ns + last.nominal_duration_ns) as u64)
            &&& start_ns <= last.host_time_ns
            &&& m.output.len() * 1_000_000_000 == (last.host_time_ns + last.nominal_duration_ns
                - start_ns) * rate_hz
        }),
    decreases count,
{
    let packet = packets[count - 1];
    assert(can_ingest(packet, resampled[count - 1]@, rate_hz));
    let before = ingested(packets, resampled, rate_hz, silence, count - 1);
    if count == 1 {
        aligner::law_packet_contributes_its_duration(packet, resampled[0]@, rate_hz, silence);
        aligner::lemma_frames_on_grid(packet.nominal_duration_ns as int, rate_hz as int);
        assert(before == AlignerModel::<S>::empty());
    } else {
        lemma_ingested_length(packets, resampled, rate_hz, silence, start_ns, count - 1);
        let end_ns = before.next_expected_ns->0;
        let previous = packets[count - 2];
        assert(can_ingest(previous, resampled[count - 2]@, rate_hz));
        assert(end_ns == previous.host_time_ns + previous.nominal_duration_ns);
        aligner::law_output_keeps_pace(
            before,
            packet,
            resampled[count - 1]@,
            rate_hz,
            silence,
            end_ns,
        );
        let after = packet.host_time_ns + packet.nominal_duration_ns;
        assert((after - start_ns) * rate_hz == (after - end_ns) * rate_hz + (end_ns - start_ns)
            * rate_hz) by (nonlinear_arith);
    }
}

/// The length of an aligned track is fixed by host time alone. Whatever the packets
/// delivered, and whichever of them were lost after the first, a track that starts at
/// `start_ns` covers exactly the frames from there to the end of the session. So two
/// tracks that start together are equally long.
pub proof fn law_aligned_length_is_fixed_by_host_time<S>(
    packets: Seq<AudioPacket<S>>,
    resampled: Seq<Vec<S>>,
    rate_hz: u32,
    silence: S,
    start_ns: u64,
    total_duration_ns: u64,
)
    requires
        packets.len() > 0,
        packets.len() == resampled.len(),
        in_order(packets, rate_hz, start_ns),
        forall|i: int|
            #![trigger packets[i]]
            0 <= i < packets.len() ==> can_ingest(packets[i], resampled[i]@, rate_hz),
        packets.last().host_time_ns + packets.last().nominal_duration_ns <= total_duration_ns,
        aligner::on_grid(
            total_duration_ns - (packets.last().host_time_ns
                + packets.last().nominal_duration_ns),
            rate_hz as int,
        ),
    ensures
        aligned(packets, resampled, rate_hz, silence, total_duration_ns).output.len()
            * 1_000_000_000 == (total_duration_ns - start_ns) * rate_hz,
{
    let n = packets.len() as int;
    lemma_ingested_length(packets, resampled, rate_hz, silence, start_ns, n);
    let last = packets[n - 1];
    assert(last == packets.last());
    let end = last.host_time_ns + last.nominal_duration_ns;
    aligner::lemma_frames_on_grid(total_duration_ns - end, rate_hz as int);
    assert((total_duration_ns - start_ns) * rate_hz == (total_duration_ns - end) * rate_hz + (end
        - start_ns) * rate_hz) by (nonlinear_arith);
    let tail = aligner::tail_frames(Some(end as u64), total_duration_ns, rate_hz as int);
    assert(tail >= 0) by (nonlinear_arith)
        requires
            tail == aligner::tail_frames(Some(end as u64), total_duration_ns, rate_hz as int),
    ;
    assert(total_duration_ns == end ==> (total_duration_ns - end) * rate_hz == 0);
}

/// A later packet, and the end, only add to what is there.
proof fn lemma_output_is_kept<S>(
    packets: Seq<AudioPacket<S>>,
    resampled: Seq<Vec<S>>,
    rate_hz: u32,
    silence: S,
    count: int,
    more: int,
    place: int,
)
    requires
        0 <= count <= more <= packets.len(),
        0 <= place < ingested(packets, resampled, rate_hz, silence, count).output.len(),
    ensures
        ({
            let before = ingested(packets, resampled, rate_hz, silence, count).output;
            let after = ingested(packets, resampled, rate_hz, silence, more).output;
            before.len() <= after.len() && before[place] == after[place]
        }),
    decreases more,
{
    if count < more {
        lemma_output_is_kept(packets, resampled, rate_hz, silence, count, more - 1, place);
    }
}

/// Whatever was captured lies at its time on the aligned track. Of a track whose packets
/// follow each other on the frame grid, the frame at any point of a packet's interval is
/// the one that the packet has for that point: the sample that was delivered, the
/// resampled frame where the packet is smoothed, and silence where less was delivered.
pub proof fn law_audio_lies_at_its_time<S>(
    packets: Seq<AudioPacket<S>>,
    resampled: Seq<Vec<S>>,
    rate_hz: u32,
    silence: S,
    start_ns: u64,
    total_duration_ns: u64,
    packet: int,
    frame: int,
    place: int,
)
    requires
        packets.len() == resampled.len(),
        in_order(packets, rate_hz, start_ns),
        forall|i: int|
            #![trigger packets[i]]
            0 <= i < packets.len() ==> can_ingest(packets[i], resampled[i]@, rate_hz),
        0 <= packet < packets.len(),
        0 <= frame,
        frame * 1_000_000_000 < packets[packet].nominal_duration_ns * rate_hz,
        place * 1_000_000_000 == (packets[packet].host_time_ns - start_ns) * rate_hz + frame
            * 1_000_000_000,
    ensures
        ({
            let track = aligned(packets, resampled, rate_hz, silence, total_duration_ns).output;
            let samples = packets[packet].samples@;
            let expected = packets[packet].nominal_duration_ns * rate_hz / 1_000_000_000;
            &&& 0 <= place < track.len()
            &&& track[place] == if aligner::is_smoothed(
                samples.len() as int,
                expected,
                packets[packet].discontinuity,
            ) {
                resampled[packet]@[frame]
            } else if frame < samples.len() {
                samples[frame]
            } else {
                silence
            }
        }),
{
    let p = packets[packet];
    let n = packets.len() as int;
    assert(can_ingest(p, resampled[packet]@, rate_hz));
    let before = ingested(packets, resampled, rate_hz, silence, packet);
    let after = ingested(packets, resampled, rate_hz, silence, packet + 1);
    assert(aligner::on_grid(p.nominal_duration_ns as int, rate_hz as int));
    let expected = aligner::frames_in(p.nominal_duration_ns as int, rate_hz as int);
    aligner::lemma_frames_on_grid(p.nominal_duration_ns as int, rate_hz as int);
    assert(expected == p.nominal_duration_ns * rate_hz / 1_000_000_000);
    let lost = aligner::gap_before(before.next_expected_ns, p.host_time_ns, rate_hz as int);
    if packet == 0 {
        assert(before == AlignerModel::<S>::empty());
        assert((p.host_time_ns - start_ns) * rate_hz == 0) by (nonlinear_arith)
            requires
                p.host_time_ns == start_ns,
        ;
    } else {
        lemma_ingested_length(packets, resampled, rate_hz, silence, start_ns, packet);
        let previous = packets[packet - 1];
        assert(can_ingest(previous, resampled[packet - 1]@, rate_hz));
        let end = previous.host_time_ns + previous.nominal_duration_ns;
        let gap_ns = p.host_time_ns - end;
        assert(aligner::on_grid(gap_ns, rate_hz as int));
        aligner::lemma_frames_on_grid(gap_ns, rate_hz as int);
        assert((p.host_time_ns - start_ns) * rate_hz == gap_ns * rate_hz + (end - start_ns)
            * rate_hz) by (nonlinear_arith)
            requires
                gap_ns == p.host_time_ns - end,
        ;
        assert(gap_ns == 0 ==> gap_ns * rate_hz == 0) by (nonlinear_arith);
        assert(lost * 1_000_000_000 == gap_ns * rate_hz);
    }
    assert(before.output.len() + lost + frame == place);
    aligner::law_a_packet_adds_its_own_samples(
        before,
        p,
        resampled[packet]@,
        rate_hz,
        silence,
        lost,
        expected,
    );
    lemma_output_is_kept(packets, resampled, rate_hz, silence, packet + 1, n, place);
}

/// A packet comes when its frame came, lasts for one interval of the stream, and is flagged
/// exactly if its frame is.
pub proof fn law_a_packet_comes_when_its_frame_came<F, S>(
    packet: AudioPacket<S>,
    frame: CapturedFrame<F>,
    nominal_frame_interval_ns: u64,
)
    requires
        stands_for(packet, frame, nominal_frame_interval_ns),
    ensures
        packet.host_time_ns == frame.host_time_ns,
        packet.nominal_duration_ns == nominal_frame_interval_ns,
        packet.discontinuity <==> frame.discontinuity,
{
}

} // verus!
