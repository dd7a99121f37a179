//! Single-flight recording control: at most one recording at a time, each
//! in a session directory with its NAL count and bookmarks.
use vstd::prelude::*;
use std::time::Instant;
use crate::clock::{instant_now, micros_since};
use crate::features::session_replay::Bookmark;
use crate::features::nal::{annex_b, start_code};

verus! {

/// Why a recording could not be started.
#[derive(Clone, Debug)]
pub enum RecordingError {
    /// A recording is already in progress.
    AlreadyRecording,
    /// No H.264 encoder (ffmpeg) is available, so the file would stay empty.
    EncoderUnavailable,
    /// The session directory could not be created.
    Io(String),
}

impl RecordingError {
    /// HTTP status that reports this error: 409, 503 or 500.
    pub fn status_code(&self) -> (code: u16)
        ensures
            code == (match self {
                RecordingError::AlreadyRecording => 409u16,
                RecordingError::EncoderUnavailable => 503u16,
                RecordingError::Io(_) => 500u16,
            }),
    {
        match self {
            RecordingError::AlreadyRecording => 409,
            RecordingError::EncoderUnavailable => 503,
            RecordingError::Io(_) => 500,
        }
    }

    /// The message shown for this error.
    pub fn message(&self) -> (m: String)
        ensures
            m@ == (match self {
                RecordingError::AlreadyRecording => "recording already in progress"@,
                RecordingError::EncoderUnavailable => "ffmpeg not found on PATH \u{2014} recording needs ffmpeg to encode H.264"@,
                RecordingError::Io(s) => s@,
            }),
    {
        match self {
            RecordingError::AlreadyRecording => "recording already in progress".to_string(),
            RecordingError::EncoderUnavailable => "ffmpeg not found on PATH \u{2014} recording needs ffmpeg to encode H.264".to_string(),
            RecordingError::Io(s) => s.clone(),
        }
    }
}

/// The recording in progress.
struct ActiveRecording {
    dir: String,
    started: Instant,
    nal_count: u64,
    bookmarks: Vec<Bookmark>,
}

/// A recording that was stopped: where it was written, how many NAL units
/// and which bookmarks it holds, and how long it ran (in microseconds).
pub struct FinishedRecording {
    pub dir: String,
    pub nal_count: u64,
    pub bookmarks: Vec<Bookmark>,
    pub elapsed_us: u64,
}

/// Single-flight recording controller shared by the API and the hotkeys.
pub struct RecordingController {
    current: Option<ActiveRecording>,
    output_dir: String,
    max_duration_secs: Option<u64>,
    encoder_probe: Option<bool>,
}

/// What a controller holds: the recording in progress (its directory, NAL
/// count and bookmarks), where new recordings go, the duration limit, and
/// a fixed answer for the encoder check, if one was set.
pub struct RecordingView {
    pub active: Option<(Seq<char>, u64, Seq<Bookmark>)>,
    pub output_dir: Seq<char>,
    pub max_duration_secs: Option<u64>,
    pub encoder_probe: Option<bool>,
}

impl View for RecordingController {
    type V = RecordingView;

    closed spec fn view(&self) -> RecordingView {
        RecordingView {
            active: match self.current {
                Some(a) => Some((a.dir@, a.nal_count, a.bookmarks@)),
                None => None,
            },
            output_dir: self.output_dir@,
            max_duration_secs: self.max_duration_secs,
            encoder_probe: self.encoder_probe,
        }
    }
}

/// Whether a recording may start, given whether an encoder was found.
pub open spec fn start_check(v: RecordingView, encoder_found: bool) -> Result<(), RecordingError> {
    if v.active is Some {
        Err(RecordingError::AlreadyRecording)
    } else if !(match v.encoder_probe {
        Some(b) => b,
        None => encoder_found,
    }) {
        Err(RecordingError::EncoderUnavailable)
    } else {
        Ok(())
    }
}

/// At most one recording at a time: while one is in progress, starting
/// another is refused as already recording, whatever the encoder check says.
pub proof fn lemma_single_flight(v: RecordingView, encoder_found: bool)
    requires
        v.active is Some,
    ensures
        start_check(v, encoder_found) == Err::<(), RecordingError>(RecordingError::AlreadyRecording),
{
}

/// Whether a recording has reached its duration limit `elapsed_us`
/// microseconds after it started: a recording is in progress, a limit is
/// set, and at least that many whole seconds have passed.
pub open spec fn max_duration_reached(v: RecordingView, elapsed_us: u64) -> bool {
    match (v.active, v.max_duration_secs) {
        (Some(_), Some(max)) => elapsed_us / 1_000_000 >= max,
        _ => false,
    }
}

impl RecordingController {
    /// An idle controller writing to `recordings/`, with no duration limit.
    pub fn new() -> (r: Self)
        ensures
            r@.active is None,
            r@.output_dir == "recordings"@,
            r@.max_duration_secs is None,
            r@.encoder_probe is None,
    {
        RecordingController {
            current: None,
            output_dir: "recordings".to_string(),
            max_duration_secs: None,
            encoder_probe: None,
        }
    }

    /// Write new recordings under `dir`.
    pub fn with_output_dir(self, dir: String) -> (r: Self)
        ensures
            r@ == (RecordingView { output_dir: dir@, ..self@ }),
    {
        RecordingController { output_dir: dir, ..self }
    }

    /// Stop recordings automatically after `secs` seconds (0 = unlimited).
    pub fn with_max_duration_secs(self, secs: u64) -> (r: Self)
        ensures
            r@ == (RecordingView { max_duration_secs: if secs > 0 { Some(secs) } else { None }, ..self@ }),
    {
        let max = if secs > 0 { Some(secs) } else { None };
        RecordingController { max_duration_secs: max, ..self }
    }

    /// Answer the encoder check with `available` instead of probing.
    pub fn with_encoder_probe(self, available: bool) -> (r: Self)
        ensures
            r@ == (RecordingView { encoder_probe: Some(available), ..self@ }),
    {
        RecordingController { encoder_probe: Some(available), ..self }
    }

    /// Where new recordings are written.
    pub fn output_dir(&self) -> (d: &str)
        ensures
            d@ == self@.output_dir,
    {
        self.output_dir.as_str()
    }

    /// Whether a recording is in progress.
    pub fn is_active(&self) -> (b: bool)
        ensures
            b == self@.active is Some,
    {
        self.current.is_some()
    }

    /// Session directory of the recording in progress, if any.
    pub fn current_path(&self) -> (p: Option<String>)
        ensures
            match (p, self@.active) {
                (Some(d), Some(a)) => d@ == a.0,
                (None, None) => true,
                _ => false,
            },
    {
        match &self.current {
            Some(a) => Some(a.dir.clone()),
            None => None,
        }
    }

    /// Whether a recording may start now; `encoder_found` is the outcome of
    /// probing for ffmpeg, used unless a fixed answer was set.
    pub fn check_start(&self, encoder_found: bool) -> (r: Result<(), RecordingError>)
        ensures
            r == start_check(self@, encoder_found),
    {
        if self.current.is_some() {
            return Err(RecordingError::AlreadyRecording);
        }
        let available = match self.encoder_probe {
            Some(b) => b,
            None => encoder_found,
        };
        if !available {
            return Err(RecordingError::EncoderUnavailable);
        }
        Ok(())
    }

    /// Start a recording in `session_dir`, the directory just created for
    /// it (or why that failed). Refused while another recording runs or
    /// without an encoder; on success the new recording has no NAL units
    /// and no bookmarks yet, and its directory is returned.
    pub fn start(&mut self, encoder_found: bool, session_dir: Result<String, String>) -> (r: Result<String, RecordingError>)
        ensures
            match start_check(old(self)@, encoder_found) {
                Err(e) => r == Err::<String, RecordingError>(e) && final(self)@ == old(self)@,
                Ok(()) => match session_dir {
                    Err(msg) => r matches Err(RecordingError::Io(m)) && m@ == msg@ && final(self)@ == old(self)@,
                    Ok(dir) => r matches Ok(d) && d@ == dir@ && final(self)@ == (RecordingView {
                        active: Some((dir@, 0u64, Seq::empty())),
                        ..old(self)@
                    }),
                },
            },
    {
        match self.check_start(encoder_found) {
            Err(e) => Err(e),
            Ok(()) => match session_dir {
                Err(msg) => Err(RecordingError::Io(msg)),
                Ok(dir) => {
                    let out = dir.clone();
                    proof {
                        assert(out@ == dir@);
                    }
                    self.current = Some(ActiveRecording {
                        dir,
                        started: instant_now(),
                        nal_count: 0,
                        bookmarks: Vec::new(),
                    });
                    proof {
                        assert(self@.active == Some((out@, 0u64, Seq::<Bookmark>::empty())));
                    }
                    Ok(out)
                },
            },
        }
    }

    /// Stop the recording in progress and hand it back whole: its
    /// directory, NAL count and bookmarks, and its length read from the
    /// monotonic clock, so that the session can be saved with them. `None`
    /// when nothing was recording.
    pub fn stop(&mut self) -> (f: Option<FinishedRecording>)
        ensures
            final(self)@ == (RecordingView { active: None, ..old(self)@ }),
            match (f, old(self)@.active) {
                (Some(r), Some(a)) => r.dir@ == a.0 && r.nal_count == a.1 && r.bookmarks@ == a.2,
                (None, None) => true,
                _ => false,
            },
    {
        let taken = self.current.take();
        match taken {
            Some(a) => {
                let elapsed_us = micros_since(&a.started);
                Some(FinishedRecording { dir: a.dir, nal_count: a.nal_count, bookmarks: a.bookmarks, elapsed_us })
            },
            None => None,
        }
    }

    /// Count one more NAL unit written to the recording in progress.
    pub fn note_nal_unit(&mut self)
        requires
            old(self)@.active matches Some(a) ==> a.1 < u64::MAX,
        ensures
            final(self)@ == (RecordingView {
                active: match old(self)@.active {
                    Some(a) => Some((a.0, (a.1 + 1) as u64, a.2)),
                    None => None,
                },
                ..old(self)@
            }),
    {
        match &mut self.current {
            Some(a) => {
                a.nal_count = a.nal_count + 1;
            },
            None => {},
        }
    }

    /// NAL units written to the recording in progress, if one is.
    pub fn recorded_nal_units(&self) -> (n: Option<u64>)
        ensures
            match (n, self@.active) {
                (Some(k), Some(a)) => k == a.1,
                (None, None) => true,
                _ => false,
            },
    {
        match &self.current {
            Some(a) => Some(a.nal_count),
            None => None,
        }
    }

    /// Bookmarks of the recording in progress; none when idle.
    pub fn recording_bookmarks(&self) -> (b: &[Bookmark])
        ensures
            b@ == match self@.active {
                Some(a) => a.2,
                None => Seq::empty(),
            },
    {
        match &self.current {
            Some(a) => a.bookmarks.as_slice(),
            None => &[],
        }
    }

    /// Time since the recording in progress started, in microseconds, read
    /// from the monotonic clock; `None` when idle.
    pub fn elapsed_us(&self) -> (t: Option<u64>)
        ensures
            t is Some <==> self@.active is Some,
    {
        match &self.current {
            Some(a) => Some(micros_since(&a.started)),
            None => None,
        }
    }

    /// Whether the recording in progress has reached its duration limit,
    /// `elapsed_us` microseconds after it started.
    pub fn reached_max_duration_after(&self, elapsed_us: u64) -> (b: bool)
        ensures
            b == max_duration_reached(self@, elapsed_us),
    {
        match (&self.current, self.max_duration_secs) {
            (Some(_), Some(max)) => elapsed_us / 1_000_000 >= max,
            _ => false,
        }
    }

    /// Whether the recording in progress has reached its duration limit.
    /// The elapsed time is read from the monotonic clock, so the answer is
    /// the limit check at whatever time the clock gave.
    pub fn reached_max_duration(&self) -> (b: bool)
        ensures
            exists|elapsed_us: u64| b == #[trigger] max_duration_reached(self@, elapsed_us),
    {
        match &self.current {
            Some(a) => {
                let elapsed = micros_since(&a.started);
                self.reached_max_duration_after(elapsed)
            },
            None => {
                assert(!max_duration_reached(self@, 0));
                false
            },
        }
    }

    /// Add a named bookmark at the current position of the recording in
    /// progress: its time since the start (read from the monotonic clock)
    /// and the number of NAL units written so far. Fails when idle.
    pub fn add_bookmark(&mut self, label: &str) -> (r: Result<Bookmark, String>)
        ensures
            match (old(self)@.active, r, final(self)@.active) {
                (None, Err(m), _) => m@ == "no recording in progress"@ && final(self)@ == old(self)@,
                (Some(a), Ok(b), Some(n)) => b.label@ == label@ && b.frame_index == a.1
                    && n.0 == a.0 && n.1 == a.1 && n.2.len() == a.2.len() + 1
                    && n.2.drop_last() == a.2 && n.2.last().label@ == label@ && n.2.last().frame_index == a.1
                    && n.2.last().timestamp_us == b.timestamp_us
                    && final(self)@.output_dir == old(self)@.output_dir
                    && final(self)@.max_duration_secs == old(self)@.max_duration_secs
                    && final(self)@.encoder_probe == old(self)@.encoder_probe,
                _ => false,
            },
    {
        match &mut self.current {
            None => Err("no recording in progress".to_string()),
            Some(a) => {
                let ts = micros_since(&a.started);
                let b = Bookmark { timestamp_us: ts, label: label.to_string(), frame_index: a.nal_count };
                let copy = Bookmark { timestamp_us: ts, label: label.to_string(), frame_index: a.nal_count };
                let ghost before = a.bookmarks@;
                a.bookmarks.push(copy);
                proof {
                    assert(a.bookmarks@.drop_last() =~= before);
                }
                Ok(b)
            },
        }
    }
}

/// How often the session metadata of a recording in progress is rewritten,
/// in microseconds.
pub const METADATA_FLUSH_US: u64 = 5_000_000;

/// Whether the session metadata is due to be rewritten at `now_us`, the
/// last write having been at `last_flush_us` (both on one monotonic clock):
/// once five seconds have passed.
pub fn metadata_flush_due(last_flush_us: u64, now_us: u64) -> (b: bool)
    ensures
        b == (now_us >= last_flush_us && now_us - last_flush_us >= METADATA_FLUSH_US),
{
    now_us >= last_flush_us && now_us - last_flush_us >= METADATA_FLUSH_US
}

/// The bytes appended to `video.h264` for one NAL unit: the 4-byte start
/// code, then the unit, so the file is the Annex-B stream of the units
/// written so far.
pub fn annex_b_unit(nalu: &[u8]) -> (v: Vec<u8>)
    ensures
        v@ == start_code() + nalu@,
        v@ == annex_b(seq![nalu@]),
{
    let mut v: Vec<u8> = vec![0u8, 0u8, 0u8, 1u8];
    let ghost head = v@;
    let mut i: usize = 0;
    while i < nalu.len()
        invariant
            i <= nalu@.len(),
            head == start_code(),
            v@ == head + nalu@.subrange(0, i as int),
        decreases nalu@.len() - i,
    {
        v.push(nalu[i]);
        proof {
            assert(v@ =~= head + nalu@.subrange(0, i + 1));
        }
        i = i + 1;
    }
    proof {
        assert(nalu@.subrange(0, nalu@.len() as int) =~= nalu@);
        let one = seq![nalu@];
        assert(one.drop_first() =~= Seq::<Seq<u8>>::empty());
        assert(annex_b(one.drop_first()) == Seq::<u8>::empty());
        assert(v@ =~= start_code() + nalu@ + Seq::<u8>::empty());
    }
    v
}

} // verus!
