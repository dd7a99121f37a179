//! Session recording: the NAL units and bookmarks of a session, and the
//! Annex-B stream they are saved as.
use vstd::prelude::*;
use std::time::Instant;
use crate::clock::{instant_now, micros_since};
use crate::features::frame::Frame;
use crate::features::nal::{annex_b, index_nal_units, nal_ranges, start_code};
use vstd::slice::slice_subrange;

verus! {

/// A named position in a recorded session.
#[derive(Clone, Debug)]
pub struct Bookmark {
    pub timestamp_us: u64,
    pub label: String,
    pub frame_index: u64,
}

/// Records the NAL units of a session while recording is on.
pub struct SessionRecorder {
    frames: Vec<(u64, Vec<u8>)>,
    bookmarks: Vec<Bookmark>,
    recording: bool,
    start_time: Instant,
    width: u32,
    height: u32,
}

/// What a recorder holds: per frame its timestamp and NAL unit, the
/// bookmarks, whether it is recording, and the last frame size seen.
pub struct SessionRecorderView {
    pub timestamps: Seq<u64>,
    pub nals: Seq<Seq<u8>>,
    pub bookmarks: Seq<Bookmark>,
    pub recording: bool,
    pub width: u32,
    pub height: u32,
}

impl View for SessionRecorder {
    type V = SessionRecorderView;

    closed spec fn view(&self) -> SessionRecorderView {
        SessionRecorderView {
            timestamps: self.frames@.map_values(|f: (u64, Vec<u8>)| f.0),
            nals: self.frames@.map_values(|f: (u64, Vec<u8>)| f.1@),
            bookmarks: self.bookmarks@,
            recording: self.recording,
            width: self.width,
            height: self.height,
        }
    }
}

impl SessionRecorder {
    /// An idle recorder with no frames or bookmarks.
    pub fn new() -> (r: Self)
        ensures
            r@.nals.len() == 0,
            r@.timestamps.len() == 0,
            r@.bookmarks.len() == 0,
            !r@.recording,
            r@.width == 0,
            r@.height == 0,
    {
        SessionRecorder {
            frames: Vec::new(),
            bookmarks: Vec::new(),
            recording: false,
            start_time: instant_now(),
            width: 0,
            height: 0,
        }
    }

    /// Start recording afresh: frames and bookmarks are cleared.
    pub fn start(&mut self)
        ensures
            final(self)@.nals.len() == 0,
            final(self)@.timestamps.len() == 0,
            final(self)@.bookmarks.len() == 0,
            final(self)@.recording,
            final(self)@.width == old(self)@.width,
            final(self)@.height == old(self)@.height,
    {
        self.frames.clear();
        self.bookmarks.clear();
        self.recording = true;
        self.start_time = instant_now();
    }

    /// Stop recording; everything recorded is kept.
    pub fn stop(&mut self)
        ensures
            final(self)@.nals == old(self)@.nals,
            final(self)@.timestamps == old(self)@.timestamps,
            final(self)@.bookmarks == old(self)@.bookmarks,
            !final(self)@.recording,
            final(self)@.width == old(self)@.width,
            final(self)@.height == old(self)@.height,
    {
        self.recording = false;
    }

    /// While recording, note the frame's size and keep its NAL unit (if it
    /// has one). When not recording, nothing changes.
    pub fn push_frame(&mut self, frame: &Frame)
        ensures
            !old(self)@.recording ==> final(self)@ == old(self)@,
            old(self)@.recording ==> {
                &&& final(self)@.recording
                &&& final(self)@.width == frame.width
                &&& final(self)@.height == frame.height
                &&& final(self)@.bookmarks == old(self)@.bookmarks
                &&& match frame.h264_nalu {
                    Some(n) => final(self)@.nals == old(self)@.nals.push(n@)
                        && final(self)@.timestamps == old(self)@.timestamps.push(
                        frame.timestamp_us,
                    ),
                    None => final(self)@.nals == old(self)@.nals && final(self)@.timestamps
                        == old(self)@.timestamps,
                }
            },
    {
        if !self.recording {
            return ;
        }
        self.width = frame.width;
        self.height = frame.height;
        match &frame.h264_nalu {
            Some(nalu) => {
                let copy = nalu.clone();
                proof {
                    assert(copy@ == nalu@);
                }
                self.frames.push((frame.timestamp_us, copy));
                proof {
                    assert(self@.nals =~= old(self)@.nals.push(nalu@));
                    assert(self@.timestamps =~= old(self)@.timestamps.push(frame.timestamp_us));
                }
            },
            None => {},
        }
    }

    /// Add a bookmark at the current time, pointing at the next frame to be
    /// recorded. The timestamp is read from the monotonic clock.
    pub fn add_bookmark(&mut self, label: &str)
        requires
            old(self)@.nals.len() <= u64::MAX,
        ensures
            final(self)@.nals == old(self)@.nals,
            final(self)@.timestamps == old(self)@.timestamps,
            final(self)@.recording == old(self)@.recording,
            final(self)@.width == old(self)@.width,
            final(self)@.height == old(self)@.height,
            final(self)@.bookmarks.len() == old(self)@.bookmarks.len() + 1,
            final(self)@.bookmarks.drop_last() == old(self)@.bookmarks,
            final(self)@.bookmarks.last().label@ == label@,
            final(self)@.bookmarks.last().frame_index == old(self)@.nals.len(),
    {
        let ts = micros_since(&self.start_time);
        let n = self.frames.len() as u64;
        let b = Bookmark { timestamp_us: ts, label: label.to_string(), frame_index: n };
        self.bookmarks.push(b);
        proof {
            assert(self@.bookmarks.drop_last() =~= old(self)@.bookmarks);
        }
    }

    /// Number of NAL units recorded.
    pub fn frame_count(&self) -> (n: usize)
        ensures
            n == self@.nals.len(),
    {
        self.frames.len()
    }

    /// Size of the last frame seen while recording.
    pub fn frame_size(&self) -> (s: (u32, u32))
        ensures
            s == (self@.width, self@.height),
    {
        (self.width, self.height)
    }

    /// Time since recording started, in microseconds, read from the
    /// monotonic clock.
    pub fn elapsed_us(&self) -> u64 {
        micros_since(&self.start_time)
    }

    /// The bookmarks added so far.
    pub fn bookmarks(&self) -> (r: &[Bookmark])
        ensures
            r@ == self@.bookmarks,
    {
        self.bookmarks.as_slice()
    }

    /// The recorded NAL units as one Annex-B stream, each behind a 4-byte
    /// start code: the `video.h264` a saved session holds.
    pub fn annex_b_stream(&self) -> (out: Vec<u8>)
        ensures
            out@ == annex_b(self@.nals),
    {
        let ghost nals = self@.nals;
        let mut out: Vec<u8> = Vec::new();
        let mut k: usize = 0;
        proof {
            assert(nals.take(0) =~= Seq::<Seq<u8>>::empty());
        }
        while k < self.frames.len()
            invariant
                k <= self.frames@.len(),
                nals == self@.nals,
                nals.len() == self.frames@.len(),
                out@ == annex_b(nals.take(k as int)),
            decreases self.frames@.len() - k,
        {
            let ghost before = out@;
            out.push(0);
            out.push(0);
            out.push(0);
            out.push(1);
            let nalu = &self.frames[k].1;
            assert(nalu@ == nals[k as int]);
            let mut j: usize = 0;
            while j < nalu.len()
                invariant
                    j <= nalu@.len(),
                    out@ == before + start_code() + nalu@.subrange(0, j as int),
                decreases nalu@.len() - j,
            {
                out.push(nalu[j]);
                proof {
                    assert(out@ =~= before + start_code() + nalu@.subrange(0, j + 1));
                }
                j = j + 1;
            }
            proof {
                assert(nalu@.subrange(0, nalu@.len() as int) =~= nalu@);
                lemma_annex_b_push(nals.take(k as int), nals[k as int]);
                assert(nals.take(k + 1) =~= nals.take(k as int).push(nals[k as int]));
            }
            k = k + 1;
        }
        proof {
            assert(nals.take(nals.len() as int) =~= nals);
        }
        out
    }
}

/// Appending a unit to the list appends its start code and bytes to the
/// stream.
pub proof fn lemma_annex_b_push(nals: Seq<Seq<u8>>, n: Seq<u8>)
    ensures
        annex_b(nals.push(n)) == annex_b(nals) + start_code() + n,
    decreases nals.len(),
{
    if nals.len() == 0 {
        assert(nals.push(n).drop_first() =~= Seq::<Seq<u8>>::empty());
        assert(nals.push(n)[0] == n);
        assert(annex_b(nals.push(n).drop_first()) == Seq::<u8>::empty());
        assert(annex_b(nals.push(n)) == start_code() + n + Seq::<u8>::empty());
        assert(annex_b(nals) =~= Seq::<u8>::empty());
        assert(annex_b(nals.push(n)) =~= annex_b(nals) + start_code() + n);
    } else {
        lemma_annex_b_push(nals.drop_first(), n);
        assert(nals.push(n).drop_first() =~= nals.drop_first().push(n));
        assert(annex_b(nals.push(n)) =~= annex_b(nals) + start_code() + n);
    }
}

/// A loaded session: its Annex-B video, the NAL units found in it and its
/// bookmarks.
pub struct SessionPlayer {
    video: Vec<u8>,
    nalu_ranges: Vec<(usize, usize)>,
    bookmarks: Vec<Bookmark>,
}

impl SessionPlayer {
    /// The ranges are the NAL units that `nal_ranges` finds in the video.
    #[verifier::type_invariant]
    spec fn ranges_match(&self) -> bool {
        &&& self.nalu_ranges@.len() == nal_ranges(self.video@).len()
        &&& forall|k: int|
            0 <= k < self.nalu_ranges@.len() ==> (#[trigger] self.nalu_ranges@[k]).0 as int == nal_ranges(self.video@)[k].0
                && self.nalu_ranges@[k].1 as int == nal_ranges(self.video@)[k].1
        &&& forall|k: int|
            0 <= k < self.nalu_ranges@.len() ==> (#[trigger] self.nalu_ranges@[k]).0 <= self.nalu_ranges@[k].1
                <= self.video@.len()
    }

    /// The session's video bytes.
    pub closed spec fn spec_video(&self) -> Seq<u8> {
        self.video@
    }

    /// The session's bookmarks.
    pub closed spec fn spec_bookmarks(&self) -> Seq<Bookmark> {
        self.bookmarks@
    }

    /// A player for a session's `video.h264` bytes and bookmarks.
    pub fn from_parts(video: Vec<u8>, bookmarks: Vec<Bookmark>) -> (p: Self)
        ensures
            p.spec_video() == video@,
            p.spec_bookmarks() == bookmarks@,
    {
        let ranges = index_nal_units(video.as_slice());
        SessionPlayer { video, nalu_ranges: ranges, bookmarks }
    }

    /// Number of NAL units in the session.
    pub fn nal_count(&self) -> (n: usize)
        ensures
            n == nal_ranges(self.spec_video()).len(),
    {
        proof {
            use_type_invariant(self);
        }
        self.nalu_ranges.len()
    }

    /// The bytes of NAL unit `index`, if there is one.
    pub fn nalu(&self, index: usize) -> (r: Option<&[u8]>)
        ensures
            match r {
                Some(s) => index < nal_ranges(self.spec_video()).len() && s@ == self.spec_video().subrange(
                    nal_ranges(self.spec_video())[index as int].0,
                    nal_ranges(self.spec_video())[index as int].1,
                ),
                None => index >= nal_ranges(self.spec_video()).len(),
            },
    {
        proof {
            use_type_invariant(self);
        }
        if index >= self.nalu_ranges.len() {
            return None;
        }
        let (start, end) = self.nalu_ranges[index];
        Some(slice_subrange(self.video.as_slice(), start, end))
    }

    /// The session's bookmarks.
    pub fn bookmarks(&self) -> (b: &[Bookmark])
        ensures
            b@ == self.spec_bookmarks(),
    {
        self.bookmarks.as_slice()
    }
}

/// What `play` has to do.
#[derive(Clone, Copy, Debug, PartialEq, Eq, Structural)]
pub enum PlayStep {
    /// Nothing: playback is already running.
    AlreadyPlaying,
    /// Start the decoder, then mark playback as running.
    Start,
}

/// Single-flight playback of a loaded session: whether it is playing and
/// the index of the next NAL unit to feed the decoder.
pub struct SessionPlaybackController {
    active: bool,
    loaded: Option<SessionPlayer>,
    position: usize,
    ffmpeg_bin: String,
}

/// Where a seek to NAL unit `index` lands in a session of `n` units: the
/// unit itself, or the last one when `index` is past the end (0 when the
/// session is empty).
pub open spec fn seek_target(index: int, n: nat) -> int {
    if n == 0 {
        0
    } else if index < n {
        index
    } else {
        n - 1
    }
}

impl SessionPlaybackController {
    /// Whether playback is running.
    pub closed spec fn spec_active(&self) -> bool {
        self.active
    }

    /// Index of the next NAL unit to decode.
    pub closed spec fn spec_position(&self) -> usize {
        self.position
    }

    /// Number of NAL units of the loaded session, if one is loaded.
    pub closed spec fn spec_loaded(&self) -> Option<nat> {
        match self.loaded {
            Some(p) => Some(nal_ranges(p.spec_video()).len()),
            None => None,
        }
    }

    /// The decoder program.
    pub closed spec fn spec_ffmpeg_bin(&self) -> Seq<char> {
        self.ffmpeg_bin@
    }

    /// Idle, nothing loaded, decoding with `ffmpeg`.
    pub fn new() -> (c: Self)
        ensures
            !c.spec_active(),
            c.spec_loaded() is None,
            c.spec_position() == 0,
            c.spec_ffmpeg_bin() == "ffmpeg"@,
    {
        SessionPlaybackController { active: false, loaded: None, position: 0, ffmpeg_bin: "ffmpeg".to_string() }
    }

    /// Decode with the program `bin` instead.
    pub fn with_ffmpeg_bin(self, bin: String) -> (c: Self)
        ensures
            c.spec_ffmpeg_bin() == bin@,
            c.spec_active() == self.spec_active(),
            c.spec_loaded() == self.spec_loaded(),
            c.spec_position() == self.spec_position(),
    {
        SessionPlaybackController { ffmpeg_bin: bin, ..self }
    }

    /// The decoder program.
    pub fn ffmpeg_bin(&self) -> (b: &str)
        ensures
            b@ == self.spec_ffmpeg_bin(),
    {
        self.ffmpeg_bin.as_str()
    }

    /// Whether playback is running.
    pub fn is_active(&self) -> (b: bool)
        ensures
            b == self.spec_active(),
    {
        self.active
    }

    /// Index of the next NAL unit to decode.
    pub fn current_position(&self) -> (p: usize)
        ensures
            p == self.spec_position(),
    {
        self.position
    }

    /// The loaded session's bookmarks; none when nothing is loaded.
    pub closed spec fn spec_session_bookmarks(&self) -> Seq<Bookmark> {
        match self.loaded {
            Some(p) => p.spec_bookmarks(),
            None => Seq::empty(),
        }
    }

    /// The loaded session's bookmarks; none when nothing is loaded.
    pub fn bookmarks(&self) -> (b: &[Bookmark])
        ensures
            b@ == self.spec_session_bookmarks(),
    {
        match &self.loaded {
            Some(p) => p.bookmarks(),
            None => &[],
        }
    }

    /// The loaded session, if any: the decoder reads its NAL units.
    pub fn loaded_player(&self) -> (p: Option<&SessionPlayer>)
        ensures
            match (p, self.spec_loaded()) {
                (Some(pl), Some(n)) => nal_ranges(pl.spec_video()).len() == n && pl.spec_bookmarks()
                    == self.spec_session_bookmarks(),
                (None, None) => true,
                _ => false,
            },
    {
        match &self.loaded {
            Some(p) => Some(p),
            None => None,
        }
    }

    /// Replace the loaded session: playback stops and starts over from the
    /// first NAL unit.
    pub fn load(&mut self, player: SessionPlayer)
        ensures
            !final(self).spec_active(),
            final(self).spec_position() == 0,
            final(self).spec_loaded() == Some(nal_ranges(player.spec_video()).len()),
            final(self).spec_session_bookmarks() == player.spec_bookmarks(),
            final(self).spec_ffmpeg_bin() == old(self).spec_ffmpeg_bin(),
    {
        self.active = false;
        self.position = 0;
        self.loaded = Some(player);
    }

    /// What `play` must do: refused when nothing is loaded, nothing when
    /// already playing, otherwise start the decoder.
    pub fn play_step(&self) -> (r: Result<PlayStep, String>)
        ensures
            match self.spec_loaded() {
                None => r matches Err(m) && m@ == "no session loaded"@,
                Some(_) => r == Ok::<PlayStep, String>(if self.spec_active() {
                    PlayStep::AlreadyPlaying
                } else {
                    PlayStep::Start
                }),
            },
    {
        if self.loaded.is_none() {
            return Err("no session loaded".to_string());
        }
        if self.active {
            Ok(PlayStep::AlreadyPlaying)
        } else {
            Ok(PlayStep::Start)
        }
    }

    /// The decoder started: playback is running.
    pub fn set_playing(&mut self)
        requires
            old(self).spec_loaded() is Some,
        ensures
            final(self).spec_active(),
            final(self).spec_loaded() == old(self).spec_loaded(),
            final(self).spec_position() == old(self).spec_position(),
            final(self).spec_ffmpeg_bin() == old(self).spec_ffmpeg_bin(),
    {
        self.active = true;
    }

    /// Stop playback (the decoder task sees it and ends).
    pub fn pause(&mut self)
        ensures
            !final(self).spec_active(),
            final(self).spec_loaded() == old(self).spec_loaded(),
            final(self).spec_position() == old(self).spec_position(),
            final(self).spec_ffmpeg_bin() == old(self).spec_ffmpeg_bin(),
    {
        self.active = false;
    }

    /// Move to NAL unit `index` (the position a timestamp maps to), clamped
    /// to the last unit (to 0 in an empty session). Refused while playing,
    /// so the running decoder is not raced, and when nothing is loaded.
    pub fn seek(&mut self, index: usize) -> (r: Result<usize, String>)
        ensures
            old(self).spec_active() ==> (r matches Err(m) && m@ == "pause before seeking"@ && final(self).spec_position()
                == old(self).spec_position()),
            !old(self).spec_active() && old(self).spec_loaded() is None ==> (r matches Err(m) && m@
                == "no session loaded"@ && final(self).spec_position() == old(self).spec_position()),
            !old(self).spec_active() ==> (old(self).spec_loaded() matches Some(n) ==> (r == Ok::<usize, String>(
                seek_target(index as int, n) as usize) && final(self).spec_position() == seek_target(index as int, n))),
            final(self).spec_active() == old(self).spec_active(),
            final(self).spec_loaded() == old(self).spec_loaded(),
            final(self).spec_ffmpeg_bin() == old(self).spec_ffmpeg_bin(),
    {
        if self.active {
            return Err("pause before seeking".to_string());
        }
        let n = match &self.loaded {
            None => {
                return Err("no session loaded".to_string());
            },
            Some(p) => p.nal_count(),
        };
        let target = if n == 0 {
            0
        } else if index < n {
            index
        } else {
            n - 1
        };
        self.position = target;
        Ok(target)
    }

    /// Next NAL unit for the decoder while playing: its index, after which
    /// the position moves past it. `None` when stopped or at the end.
    pub fn advance(&mut self) -> (r: Option<usize>)
        ensures
            match (r, old(self).spec_loaded()) {
                (Some(i), Some(n)) => old(self).spec_active() && i == old(self).spec_position() && i < n
                    && final(self).spec_position() == i + 1,
                (None, _) => !old(self).spec_active() || old(self).spec_loaded() is None || old(self).spec_position()
                    >= old(self).spec_loaded()->0,
                _ => false,
            },
            final(self).spec_active() == old(self).spec_active(),
            final(self).spec_loaded() == old(self).spec_loaded(),
            r is None ==> final(self).spec_position() == old(self).spec_position(),
            final(self).spec_ffmpeg_bin() == old(self).spec_ffmpeg_bin(),
    {
        if !self.active {
            return None;
        }
        let n = match &self.loaded {
            Some(p) => p.nal_count(),
            None => {
                return None;
            },
        };
        if self.position >= n {
            return None;
        }
        let i = self.position;
        self.position = i + 1;
        Some(i)
    }
}

/// Bytes of one decoded RGBA frame of a `width` x `height` session:
/// refused for an empty size and for one too large to address.
pub fn playback_frame_bytes(width: u32, height: u32) -> (r: Result<usize, String>)
    ensures
        (width == 0 || height == 0) ==> (r matches Err(m) && m@ == "session header has zero dimensions"@),
        width > 0 && height > 0 && width * height * 4 <= usize::MAX ==> r == Ok::<usize, String>(
            (width * height * 4) as usize,
        ),
        width > 0 && height > 0 && width * height * 4 > usize::MAX ==> (r matches Err(m) && m@ == "frame size overflow"@),
{
    if width == 0 || height == 0 {
        return Err("session header has zero dimensions".to_string());
    }
    match (width as usize).checked_mul(height as usize) {
        Some(n) => match n.checked_mul(4) {
            Some(b) => Ok(b),
            None => Err("frame size overflow".to_string()),
        },
        None => {
            proof {
                assert(width * height * 4 > usize::MAX) by (nonlinear_arith)
                    requires
                        width * height > usize::MAX,
                        width > 0,
                        height > 0,
                ;
            }
            Err("frame size overflow".to_string())
        },
    }
}

} // verus!
