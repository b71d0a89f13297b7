use vstd::prelude::*;

verus! {

/// What the framing reads of an encoded video buffer.
#[derive(Debug, Clone, PartialEq, Eq)]
pub struct SampleBuffer {
    /// The buffer carries the `DELTA_UNIT` flag: it cannot be decoded on its own.
    pub delta_unit: bool,
    /// The buffer carries the `HEADER` flag: it holds stream configuration.
    pub header: bool,
    /// The presentation timestamp in nanoseconds, if the buffer has one.
    pub pts_ns: Option<u64>,
    /// The buffer's bytes, or `None` when the buffer could not be mapped for reading.
    pub data: Option<Vec<u8>>,
}

/// Flag bit set in the first byte of a message that starts a keyframe.
pub const KEYFRAME_FLAG: u8 = 0x01;

/// Flag bit set in the first byte of a message that carries stream configuration.
pub const CONFIG_FLAG: u8 = 0x02;

/// The first byte of a message.
pub open spec fn message_flags(keyframe: bool, config: bool) -> u8 {
    (if keyframe {
        KEYFRAME_FLAG
    } else {
        0u8
    }) | (if config {
        CONFIG_FLAG
    } else {
        0u8
    })
}

/// The timestamp written into a message: the nanoseconds reinterpreted as a
/// signed integer, or -1 when the buffer has no timestamp.
pub open spec fn pts_field(pts_ns: Option<u64>) -> i64 {
    match pts_ns {
        Some(ns) => ns as i64,
        None => -1i64,
    }
}

/// The eight little-endian bytes of a signed 64-bit integer.
pub open spec fn le_bytes_i64(v: i64) -> Seq<u8> {
    Seq::new(8, |i: int| (((v as u64) >> ((8 * i) as u64)) & 0xff) as u8)
}

/// The signed 64-bit integer whose little-endian bytes are the first eight of `b`.
pub open spec fn i64_from_le_bytes(b: Seq<u8>) -> i64 {
    ((b[0] as u64) | (b[1] as u64) << 8u64 | (b[2] as u64) << 16u64 | (b[3] as u64) << 24u64 | (
    b[4] as u64) << 32u64 | (b[5] as u64) << 40u64 | (b[6] as u64) << 48u64 | (b[7] as u64)
        << 56u64) as i64
}

/// The message sent to WebSocket clients for a buffer: one flag byte, the
/// timestamp as eight little-endian bytes, then the buffer's bytes; nothing
/// when the buffer cannot be read.
pub open spec fn ws_message(buffer: SampleBuffer) -> Option<Seq<u8>> {
    match buffer.data {
        Some(data) => Some(
            seq![message_flags(!buffer.delta_unit, buffer.header)] + le_bytes_i64(
                pts_field(buffer.pts_ns),
            ) + data@,
        ),
        None => None,
    }
}

/// Frames an encoded buffer for the WebSocket clients.
pub fn build_ws_message_from_buffer(buffer: &SampleBuffer) -> (msg: Option<Vec<u8>>)
    ensures
        match (msg, ws_message(*buffer)) {
            (Some(m), Some(expected)) => m@ == expected,
            (None, None) => true,
            _ => false,
        },
{
    let keyframe = !buffer.delta_unit;
    let is_config = buffer.header;
    let pts: i64 = match buffer.pts_ns {
        Some(ns) => #[verifier::truncate] (ns as i64),
        None => -1,
    };
    let data = match &buffer.data {
        Some(d) => d,
        None => {
            return None;
        },
    };
    let mut f: u8 = 0;
    if keyframe {
        f = f | KEYFRAME_FLAG;
    }
    if is_config {
        f = f | CONFIG_FLAG;
    }
    assert(0u8 | 0x01u8 == 0x01u8 && 0x01u8 | 0x02u8 == 0x03u8 && 0u8 | 0x02u8 == 0x02u8
        && 0x01u8 | 0u8 == 0x01u8 && 0u8 | 0u8 == 0u8) by (bit_vector);
    assert(f == message_flags(keyframe, is_config));
    let mut msg: Vec<u8> = Vec::new();
    msg.push(f);
    let bits = #[verifier::truncate] (pts as u64);
    let mut i: u64 = 0;
    while i < 8
        invariant
            i <= 8,
            bits == pts as u64,
            msg@.len() == 1 + i,
            msg@[0] == f,
            forall|j: int| 0 <= j < i ==> #[trigger] msg@[1 + j] == le_bytes_i64(pts)[j],
        decreases 8 - i,
    {
        msg.push(#[verifier::truncate] (((bits >> (8 * i)) & 0xff) as u8));
        i = i + 1;
    }
    let n = data.len();
    let mut k: usize = 0;
    while k < n
        invariant
            k <= n,
            n == data@.len(),
            msg@.len() == 9 + k,
            msg@[0] == f,
            forall|j: int| 0 <= j < 8 ==> #[trigger] msg@[1 + j] == le_bytes_i64(pts)[j],
            forall|j: int| 0 <= j < k ==> #[trigger] msg@[9 + j] == data@[j],
        decreases n - k,
    {
        msg.push(data[k]);
        k = k + 1;
    }
    proof {
        let expected = seq![message_flags(keyframe, is_config)] + le_bytes_i64(pts) + data@;
        assert forall|j: int| 0 <= j < msg@.len() implies #[trigger] msg@[j] == expected[j] by {
            if 1 <= j < 9 {
                assert(msg@[1 + (j - 1)] == le_bytes_i64(pts)[j - 1]);
            } else if j >= 9 {
                assert(msg@[9 + (j - 9)] == data@[j - 9]);
            }
        }
        assert(msg@ =~= expected);
    }
    Some(msg)
}

/// The timestamp of a message can be read back from its eight header bytes.
pub proof fn lemma_pts_roundtrip(v: i64)
    ensures
        i64_from_le_bytes(le_bytes_i64(v)) == v,
{
    let b = le_bytes_i64(v);
    let u = v as u64;
    assert(b[0] == ((u >> 0u64) & 0xff) as u8);
    assert(b[1] == ((u >> 8u64) & 0xff) as u8);
    assert(b[2] == ((u >> 16u64) & 0xff) as u8);
    assert(b[3] == ((u >> 24u64) & 0xff) as u8);
    assert(b[4] == ((u >> 32u64) & 0xff) as u8);
    assert(b[5] == ((u >> 40u64) & 0xff) as u8);
    assert(b[6] == ((u >> 48u64) & 0xff) as u8);
    assert(b[7] == ((u >> 56u64) & 0xff) as u8);
    let (b0, b1, b2, b3, b4, b5, b6, b7) = (b[0], b[1], b[2], b[3], b[4], b[5], b[6], b[7]);
    assert(((b0 as u64) | (b1 as u64) << 8u64 | (b2 as u64) << 16u64 | (b3 as u64) << 24u64 | (
    b4 as u64) << 32u64 | (b5 as u64) << 40u64 | (b6 as u64) << 48u64 | (b7 as u64) << 56u64)
        as i64 == v) by (bit_vector)
        requires
            u == v as u64,
            b0 == ((u >> 0u64) & 0xff) as u8,
            b1 == ((u >> 8u64) & 0xff) as u8,
            b2 == ((u >> 16u64) & 0xff) as u8,
            b3 == ((u >> 24u64) & 0xff) as u8,
            b4 == ((u >> 32u64) & 0xff) as u8,
            b5 == ((u >> 40u64) & 0xff) as u8,
            b6 == ((u >> 48u64) & 0xff) as u8,
            b7 == ((u >> 56u64) & 0xff) as u8,
    ;
}

/// For every buffer whose data can be read, whatever its flags: the message is
/// nine bytes longer than the data; its first byte is 1 for a keyframe plus 2
/// for configuration; bytes 1 to 8 read as a little-endian `i64` give the
/// timestamp in nanoseconds, or -1 exactly when the buffer has none; the data
/// follows unchanged.
pub proof fn lemma_message_layout(buffer: SampleBuffer)
    requires
        buffer.data is Some,
    ensures
        ws_message(buffer) is Some,
        ({
            let m = ws_message(buffer).unwrap();
            let data = buffer.data.unwrap()@;
            &&& m.len() == 9 + data.len()
            &&& m[0] as int == (if buffer.delta_unit {
                0int
            } else {
                1int
            }) + (if buffer.header {
                2int
            } else {
                0int
            })
            &&& i64_from_le_bytes(m.subrange(1, 9)) == match buffer.pts_ns {
                Some(ns) => ns as i64,
                None => -1i64,
            }
            &&& m.subrange(9, m.len() as int) == data
        }),
{
    let m = ws_message(buffer).unwrap();
    let data = buffer.data.unwrap()@;
    let pts = pts_field(buffer.pts_ns);
    assert(m.subrange(1, 9) =~= le_bytes_i64(pts));
    assert(m.subrange(9, m.len() as int) =~= data);
    lemma_pts_roundtrip(pts);
    assert(0u8 | 0x01u8 == 0x01u8 && 0x01u8 | 0x02u8 == 0x03u8 && 0u8 | 0x02u8 == 0x02u8
        && 0x01u8 | 0u8 == 0x01u8 && 0u8 | 0u8 == 0u8) by (bit_vector);
}

/// Frames per second at which frames are pushed into the pipeline.
pub const FRAME_RATE: u64 = 60;

/// Nanoseconds in one second.
pub const NANOS_PER_SECOND: u64 = 1_000_000_000;

/// Number of pushed frames between two progress reports.
pub const PROGRESS_INTERVAL: u64 = 30;

/// The length of one frame in nanoseconds.
pub open spec fn frame_duration_spec() -> u64 {
    NANOS_PER_SECOND / FRAME_RATE
}

/// The length of one frame in nanoseconds.
pub fn frame_duration_ns() -> (d: u64)
    ensures
        d == frame_duration_spec(),
        d == 16_666_666,
{
    NANOS_PER_SECOND / FRAME_RATE
}

/// Timestamps given to a frame before it is pushed into the pipeline.
#[derive(Debug, Clone, PartialEq, Eq)]
pub struct FrameTiming {
    pub pts_ns: u64,
    pub dts_ns: u64,
    pub duration_ns: u64,
}

/// The timestamps of the frame with the given index: presentation and
/// decoding time are the index times the frame length.
pub fn frame_timing(frame_count: u64) -> (t: FrameTiming)
    requires
        frame_count * frame_duration_spec() <= u64::MAX,
    ensures
        t.pts_ns == frame_count * frame_duration_spec(),
        t.dts_ns == t.pts_ns,
        t.duration_ns == frame_duration_spec(),
{
    let duration = frame_duration_ns();
    let pts = frame_count * duration;
    FrameTiming { pts_ns: pts, dts_ns: pts, duration_ns: duration }
}

/// Consecutive frames are one frame length apart.
pub proof fn lemma_frame_timing_step(frame_count: nat)
    ensures
        (frame_count + 1) * frame_duration_spec() == frame_count * frame_duration_spec()
            + frame_duration_spec(),
{
    assert((frame_count + 1) * frame_duration_spec() == frame_count * frame_duration_spec()
        + frame_duration_spec()) by (nonlinear_arith);
}

/// What became of a buffer handed to the pipeline's source.
#[derive(Debug, Clone, PartialEq, Eq)]
pub enum PushOutcome {
    Pushed,
    /// The pipeline is flushing; the buffer was dropped.
    Flushing,
    /// Any other error.
    Failed,
}

/// What the frame producer does after a push.
#[derive(Debug, Clone, PartialEq, Eq)]
pub struct PushStep {
    /// Index of the next frame.
    pub frame_count: u64,
    /// Report how many frames were pushed so far.
    pub report_progress: bool,
    /// Report that the pipeline is flushing.
    pub report_flushing: bool,
    /// Drop the rest of the current batch of frames.
    pub stop_batch: bool,
}

/// Decides what follows a push: a pushed frame advances the frame index (and
/// every thirtieth one is reported), a flushing pipeline is reported and the
/// next frame is tried with the same index, any other error ends the batch.
pub fn after_push(frame_count: u64, outcome: PushOutcome) -> (step: PushStep)
    requires
        outcome is Pushed ==> frame_count < u64::MAX,
    ensures
        match outcome {
            PushOutcome::Pushed => step.frame_count == frame_count + 1 && step.report_progress == ((
            frame_count + 1) % (PROGRESS_INTERVAL as int) == 0) && !step.report_flushing
                && !step.stop_batch,
            PushOutcome::Flushing => step.frame_count == frame_count && !step.report_progress
                && step.report_flushing && !step.stop_batch,
            PushOutcome::Failed => step.frame_count == frame_count && !step.report_progress
                && !step.report_flushing && step.stop_batch,
        },
{
    match outcome {
        PushOutcome::Pushed => {
            let count = frame_count + 1;
            PushStep {
                frame_count: count,
                report_progress: count % PROGRESS_INTERVAL == 0,
                report_flushing: false,
                stop_batch: false,
            }
        },
        PushOutcome::Flushing => PushStep {
            frame_count,
            report_progress: false,
            report_flushing: true,
            stop_batch: false,
        },
        PushOutcome::Failed => PushStep {
            frame_count,
            report_progress: false,
            report_flushing: false,
            stop_batch: true,
        },
    }
}

/// The answer given to the pipeline for a new sample.
#[derive(Debug, Clone, PartialEq, Eq)]
pub enum SampleFlow {
    /// Keep streaming.
    Continue,
    /// End of stream: no sample could be pulled.
    Eos,
}

/// What the sink does with a new sample.
#[derive(Debug, Clone, PartialEq, Eq)]
pub struct SampleHandling {
    /// The message to broadcast to the WebSocket clients, if any.
    pub message: Option<Vec<u8>>,
    pub flow: SampleFlow,
}

/// Handles the buffer of a newly pulled sample (`None` when pulling failed):
/// its framed message is broadcast and streaming goes on; a failed pull ends
/// the stream.
pub fn handle_new_sample(pulled: Option<&SampleBuffer>) -> (h: SampleHandling)
    ensures
        match pulled {
            Some(buffer) => h.flow is Continue && match (h.message, ws_message(*buffer)) {
                (Some(m), Some(expected)) => m@ == expected,
                (None, None) => true,
                _ => false,
            },
            None => h.flow is Eos && h.message is None,
        },
{
    match pulled {
        Some(buffer) => SampleHandling {
            message: build_ws_message_from_buffer(buffer),
            flow: SampleFlow::Continue,
        },
        None => SampleHandling { message: None, flow: SampleFlow::Eos },
    }
}

} // verus!
