//! Live stream statistics: the device session and a frame meter.
//!
//! The device session (USB receiver or synthetic mode) reports connect and
//! disconnect; the meter counts what actually flows on the frame bus and
//! measures frames and H.264 bytes over windows of at least one second.
//! Times are monotonic microseconds.
use vstd::prelude::*;
use crate::text::{append_chars, dec_digits, decimal, string_from_chars};

verus! {

/// Rates are measured over windows at least this long.
pub const METER_WINDOW_US: u64 = 1_000_000;

/// With no image frame for this long, the rates read as zero.
pub const STALE_AFTER_US: u64 = 3_000_000;

/// The live device session.
struct DeviceSession {
    udid: String,
    name: String,
    since_us: u64,
}

/// What a frame meter measured over its last closed window: image frames,
/// NAL bytes, and the window's length in microseconds.
#[derive(Clone, Copy, Debug, PartialEq, Eq, Structural)]
pub struct WindowRate {
    pub frames: u64,
    pub bytes: u64,
    pub elapsed_us: u64,
}

/// Statistics hub behind `/api/status` and `/api/stats`.
pub struct StatsHub {
    device: Option<DeviceSession>,
    frames_received: u64,
    resolution: Option<(u32, u32)>,
    measured: Option<WindowRate>,
    window_start_us: u64,
    window_frames: u64,
    window_bytes: u64,
    last_frame_at_us: Option<u64>,
}

/// What a hub holds.
pub struct HubView {
    pub device: Option<(Seq<char>, Seq<char>, u64)>,
    pub frames_received: u64,
    pub resolution: Option<(u32, u32)>,
    pub measured: Option<WindowRate>,
    pub window_start_us: u64,
    pub window_frames: u64,
    pub window_bytes: u64,
    pub last_frame_at_us: Option<u64>,
}

impl View for StatsHub {
    type V = HubView;

    closed spec fn view(&self) -> HubView {
        HubView {
            device: match self.device {
                Some(d) => Some((d.udid@, d.name@, d.since_us)),
                None => None,
            },
            frames_received: self.frames_received,
            resolution: self.resolution,
            measured: self.measured,
            window_start_us: self.window_start_us,
            window_frames: self.window_frames,
            window_bytes: self.window_bytes,
            last_frame_at_us: self.last_frame_at_us,
        }
    }
}

/// `a - b`, or zero when `b` is later.
pub open spec fn since(a: u64, b: u64) -> int {
    if a >= b {
        a - b
    } else {
        0
    }
}

/// The hub after observing one frame at `now_us`: an image frame counts as a
/// frame and sets the resolution; NAL bytes count toward the bitrate either
/// way. Once the window is a second old, its counts become the measured
/// rate and a new window starts.
pub open spec fn observed(v: HubView, width: u32, height: u32, has_image: bool, nal_bytes: u64, now_us: u64) -> HubView {
    let frames_received = if has_image { (v.frames_received + 1) as u64 } else { v.frames_received };
    let window_frames = if has_image { (v.window_frames + 1) as u64 } else { v.window_frames };
    let window_bytes = (v.window_bytes + nal_bytes) as u64;
    let resolution = if has_image { Some((width, height)) } else { v.resolution };
    let last = if has_image { Some(now_us) } else { v.last_frame_at_us };
    let elapsed = since(now_us, v.window_start_us);
    if elapsed >= METER_WINDOW_US {
        HubView {
            frames_received,
            resolution,
            last_frame_at_us: last,
            measured: Some(WindowRate { frames: window_frames, bytes: window_bytes, elapsed_us: elapsed as u64 }),
            window_frames: 0,
            window_bytes: 0,
            window_start_us: now_us,
            ..v
        }
    } else {
        HubView { frames_received, resolution, last_frame_at_us: last, window_frames, window_bytes, ..v }
    }
}

/// The rates are current: an image frame arrived less than three seconds
/// before `now_us`.
pub open spec fn fresh(v: HubView, now_us: u64) -> bool {
    v.last_frame_at_us matches Some(t) && since(now_us, t) < STALE_AFTER_US
}

/// A snapshot of the statistics.
pub struct StatsSnapshot {
    pub connected: bool,
    pub device_name: String,
    pub frames_received: u64,
    pub uptime_secs: u64,
    /// `WIDTHxHEIGHT`, empty before the first image frame.
    pub resolution: String,
    /// The last measured window, when the rates are current.
    pub rate: Option<WindowRate>,
}

impl StatsHub {
    /// No device, nothing measured; the first window starts at `now_us`.
    pub fn new(now_us: u64) -> (h: Self)
        ensures
            h@.device is None,
            h@.frames_received == 0,
            h@.resolution is None,
            h@.measured is None,
            h@.window_start_us == now_us,
            h@.window_frames == 0,
            h@.window_bytes == 0,
            h@.last_frame_at_us is None,
    {
        StatsHub {
            device: None,
            frames_received: 0,
            resolution: None,
            measured: None,
            window_start_us: now_us,
            window_frames: 0,
            window_bytes: 0,
            last_frame_at_us: None,
        }
    }

    /// A device session is live from `now_us`. Repeating it for the same
    /// UDID changes nothing, so reconnect attempts do not inflate the
    /// history. Returns whether a new session began (and so belongs in the
    /// connection history).
    pub fn device_connected(&mut self, udid: &str, name: &str, now_us: u64) -> (started: bool)
        ensures
            started == !(old(self)@.device matches Some(d) && d.0 == udid@),
            started ==> final(self)@ == (HubView { device: Some((udid@, name@, now_us)), ..old(self)@ }),
            !started ==> final(self)@ == old(self)@,
    {
        match &self.device {
            Some(d) => {
                if crate::text::str_eq(d.udid.as_str(), udid) {
                    return false;
                }
            },
            None => {},
        }
        self.device = Some(DeviceSession { udid: udid.to_string(), name: name.to_string(), since_us: now_us });
        true
    }

    /// End the live session, if any: its UDID and how many whole seconds it
    /// lasted up to `now_us`, for the connection history.
    pub fn device_disconnected(&mut self, now_us: u64) -> (ended: Option<(String, u64)>)
        ensures
            final(self)@ == (HubView { device: None, ..old(self)@ }),
            match (ended, old(self)@.device) {
                (Some((u, secs)), Some(d)) => u@ == d.0 && secs == since(now_us, d.2) / 1_000_000,
                (None, None) => true,
                _ => false,
            },
    {
        let taken = self.device.take();
        match taken {
            Some(d) => {
                let elapsed = if now_us >= d.since_us { now_us - d.since_us } else { 0 };
                Some((d.udid, elapsed / 1_000_000))
            },
            None => None,
        }
    }

    /// Whether a frame with `nal_bytes` of H.264 can still be counted
    /// without a counter overflowing.
    pub fn can_observe(&self, nal_bytes: u64) -> (b: bool)
        ensures
            b == (self@.frames_received < u64::MAX && self@.window_frames < u64::MAX && self@.window_bytes + nal_bytes
                <= u64::MAX),
    {
        self.frames_received < u64::MAX && self.window_frames < u64::MAX && self.window_bytes <= u64::MAX - nal_bytes
    }

    /// Account for one frame published at `now_us`.
    pub fn observe_frame_at(&mut self, width: u32, height: u32, has_image: bool, nal_bytes: u64, now_us: u64)
        requires
            old(self)@.frames_received < u64::MAX,
            old(self)@.window_frames < u64::MAX,
            old(self)@.window_bytes + nal_bytes <= u64::MAX,
        ensures
            final(self)@ == observed(old(self)@, width, height, has_image, nal_bytes, now_us),
    {
        if has_image {
            self.frames_received = self.frames_received + 1;
            self.window_frames = self.window_frames + 1;
            self.resolution = Some((width, height));
            self.last_frame_at_us = Some(now_us);
        }
        self.window_bytes = self.window_bytes + nal_bytes;
        let elapsed = if now_us >= self.window_start_us { now_us - self.window_start_us } else { 0 };
        if elapsed >= METER_WINDOW_US {
            self.measured = Some(WindowRate { frames: self.window_frames, bytes: self.window_bytes, elapsed_us: elapsed });
            self.window_frames = 0;
            self.window_bytes = 0;
            self.window_start_us = now_us;
        }
    }

    /// The statistics at `now_us`: the rates only while fresh, the uptime of
    /// the live session in whole seconds, and the last resolution seen.
    pub fn snapshot_at(&self, now_us: u64) -> (s: StatsSnapshot)
        ensures
            s.connected == self@.device is Some,
            s.device_name@ == (match self@.device {
                Some(d) => d.1,
                None => Seq::empty(),
            }),
            s.frames_received == self@.frames_received,
            s.uptime_secs == (match self@.device {
                Some(d) => since(now_us, d.2) / 1_000_000,
                None => 0,
            }),
            s.resolution@ == (match self@.resolution {
                Some((w, h)) => dec_digits(w as nat) + seq!['x'] + dec_digits(h as nat),
                None => Seq::empty(),
            }),
            s.rate == (if fresh(self@, now_us) { self@.measured } else { None }),
    {
        let is_fresh = match self.last_frame_at_us {
            Some(t) => (if now_us >= t { now_us - t } else { 0 }) < STALE_AFTER_US,
            None => false,
        };
        let (connected, device_name, uptime_secs) = match &self.device {
            Some(d) => {
                let elapsed = if now_us >= d.since_us { now_us - d.since_us } else { 0 };
                (true, d.name.clone(), elapsed / 1_000_000)
            },
            None => (false, String::new(), 0),
        };
        let mut res: Vec<char> = Vec::new();
        match self.resolution {
            Some((w, h)) => {
                let dw = decimal(w as u64);
                let dh = decimal(h as u64);
                let mut i: usize = 0;
                while i < dw.len()
                    invariant
                        i <= dw@.len(),
                        res@ == dw@.subrange(0, i as int),
                    decreases dw@.len() - i,
                {
                    res.push(dw[i]);
                    proof {
                        assert(res@ =~= dw@.subrange(0, i + 1));
                    }
                    i = i + 1;
                }
                res.push('x');
                let ghost mid = res@;
                let mut j: usize = 0;
                while j < dh.len()
                    invariant
                        j <= dh@.len(),
                        res@ == mid + dh@.subrange(0, j as int),
                    decreases dh@.len() - j,
                {
                    res.push(dh[j]);
                    proof {
                        assert(res@ =~= mid + dh@.subrange(0, j + 1));
                    }
                    j = j + 1;
                }
                proof {
                    assert(dw@.subrange(0, dw@.len() as int) =~= dw@);
                    assert(dh@.subrange(0, dh@.len() as int) =~= dh@);
                    assert(res@ =~= dw@ + seq!['x'] + dh@);
                }
            },
            None => {},
        }
        proof {
            if self.resolution is None {
                assert(res@ =~= Seq::<char>::empty());
            }
        }
        StatsSnapshot {
            connected,
            device_name,
            frames_received: self.frames_received,
            uptime_secs,
            resolution: string_from_chars(&res),
            rate: if is_fresh { self.measured } else { None },
        }
    }
}

/// Rates go to zero once frames stop: three seconds after the last image
/// frame, a snapshot reports no rate, whatever was measured before.
pub proof fn lemma_rates_go_stale(v: HubView, now_us: u64)
    requires
        v.last_frame_at_us matches Some(t) && now_us >= t + STALE_AFTER_US,
    ensures
        !fresh(v, now_us),
{
}

/// A frame without an image adds its bytes to the window but is not counted
/// as a frame and does not refresh the rates.
pub proof fn lemma_nal_only_frames(v: HubView, w: u32, h: u32, nal_bytes: u64, now_us: u64)
    requires
        v.window_bytes + nal_bytes <= u64::MAX,
    ensures
        observed(v, w, h, false, nal_bytes, now_us).frames_received == v.frames_received,
        observed(v, w, h, false, nal_bytes, now_us).last_frame_at_us == v.last_frame_at_us,
        observed(v, w, h, false, nal_bytes, now_us).resolution == v.resolution,
{
}

/// The hub after observing the frames `obs` in order, each given as
/// (width, height, has an image, NAL bytes, time in microseconds).
pub open spec fn hub_after(v: HubView, obs: Seq<(u32, u32, bool, u64, u64)>) -> HubView
    decreases obs.len(),
{
    if obs.len() == 0 {
        v
    } else {
        let o = obs.last();
        observed(hub_after(v, obs.drop_last()), o.0, o.1, o.2, o.3, o.4)
    }
}

/// How many of the frames `obs` carry an image.
pub open spec fn image_count(obs: Seq<(u32, u32, bool, u64, u64)>) -> nat
    decreases obs.len(),
{
    if obs.len() == 0 {
        0
    } else {
        image_count(obs.drop_last()) + if obs.last().2 { 1nat } else { 0nat }
    }
}

/// Observing frame `i` of `obs` (after the ones before it) closes the
/// current window: it comes a second or more after the window began.
pub open spec fn closes_window(v: HubView, obs: Seq<(u32, u32, bool, u64, u64)>, i: int) -> bool {
    since(obs[i].4, hub_after(v, obs.take(i)).window_start_us) >= METER_WINDOW_US
}

/// Observing `a` then `b` is observing `a + b`.
proof fn lemma_hub_after_append(v: HubView, a: Seq<(u32, u32, bool, u64, u64)>, b: Seq<(u32, u32, bool, u64, u64)>)
    ensures
        hub_after(v, a + b) == hub_after(hub_after(v, a), b),
    decreases b.len(),
{
    if b.len() == 0 {
        assert(a + b =~= a);
    } else {
        assert((a + b).drop_last() =~= a + b.drop_last());
        lemma_hub_after_append(v, a, b.drop_last());
    }
}

/// The window counter never grows by more than one per frame.
proof fn lemma_window_frames_bound(v: HubView, obs: Seq<(u32, u32, bool, u64, u64)>)
    requires
        v.window_frames + obs.len() <= u64::MAX,
    ensures
        hub_after(v, obs).window_frames <= v.window_frames + obs.len(),
    decreases obs.len(),
{
    if obs.len() > 0 {
        lemma_window_frames_bound(v, obs.drop_last());
    }
}

/// No more frames carry an image than there are frames.
proof fn lemma_image_count_bound(obs: Seq<(u32, u32, bool, u64, u64)>)
    ensures
        image_count(obs) <= obs.len(),
    decreases obs.len(),
{
    if obs.len() > 0 {
        lemma_image_count_bound(obs.drop_last());
    }
}

/// While no window closes, the window counts every image frame.
proof fn lemma_window_accumulates(u: HubView, obs: Seq<(u32, u32, bool, u64, u64)>, n: int)
    requires
        0 <= n <= obs.len(),
        forall|i: int| 0 <= i < n ==> !#[trigger] closes_window(u, obs, i),
        u.window_frames + n <= u64::MAX,
    ensures
        hub_after(u, obs.take(n)).window_frames == u.window_frames + image_count(obs.take(n)),
    decreases n,
{
    if n > 0 {
        lemma_window_accumulates(u, obs, n - 1);
        assert(obs.take(n).drop_last() =~= obs.take(n - 1));
        assert(obs.take(n).last() == obs[n - 1]);
        assert(!closes_window(u, obs, n - 1));
        lemma_image_count_bound(obs.take(n - 1));
    } else {
        assert(obs.take(0) =~= Seq::<(u32, u32, bool, u64, u64)>::empty());
    }
}

/// A window that closes reports the frames observed while it was open.
proof fn lemma_closing_window_reports(u: HubView, obs: Seq<(u32, u32, bool, u64, u64)>)
    requires
        obs.len() > 0,
        forall|i: int| 0 <= i < obs.len() - 1 ==> !#[trigger] closes_window(u, obs, i),
        closes_window(u, obs, obs.len() - 1),
        u.window_frames + obs.len() <= u64::MAX,
    ensures
        hub_after(u, obs).measured matches Some(r) && r.frames == u.window_frames + image_count(obs),
        hub_after(u, obs).window_frames == 0,
{
    let n = obs.len() - 1;
    lemma_window_accumulates(u, obs, n);
    assert(obs.drop_last() =~= obs.take(n));
    assert(obs.take(n) =~= obs.drop_last());
    lemma_image_count_bound(obs.drop_last());
    assert(closes_window(u, obs, n));
}

/// Each measured rate counts only the image frames observed in its own
/// window: after a window closes (at the last frame of `before`), the next
/// window to close (at the last frame of `during`, and at none before it)
/// reports exactly the image frames of `during`.
pub proof fn lemma_rate_counts_its_own_window(
    v: HubView,
    before: Seq<(u32, u32, bool, u64, u64)>,
    during: Seq<(u32, u32, bool, u64, u64)>,
)
    requires
        before.len() > 0,
        closes_window(v, before, before.len() - 1),
        during.len() > 0,
        forall|i: int| 0 <= i < during.len() - 1 ==> !#[trigger] closes_window(hub_after(v, before), during, i),
        closes_window(hub_after(v, before), during, during.len() - 1),
        v.window_frames + before.len() + during.len() <= u64::MAX,
    ensures
        hub_after(v, before + during).measured matches Some(r) && r.frames == image_count(during),
{
    let u = hub_after(v, before);
    lemma_window_frames_bound(v, before.drop_last());
    assert(before.drop_last() =~= before.take(before.len() - 1));
    assert(hub_after(v, before).window_frames == 0);
    lemma_closing_window_reports(u, during);
    lemma_hub_after_append(v, before, during);
}

} // verus!
