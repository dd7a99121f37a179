//! Webhooks: which registered URLs an event is posted to.
use vstd::prelude::*;

verus! {

/// Events a webhook can subscribe to.
#[derive(Clone, Copy, Debug, PartialEq, Eq, Structural)]
pub enum WebhookEvent {
    Connected,
    Disconnected,
    NotificationDetected,
    QrDetected,
    RecordingStarted,
    RecordingStopped,
    ScreenshotTaken,
    MacroCompleted,
}

/// A registered webhook: where to post, on which events, and whether on.
#[derive(Clone, Debug)]
pub struct WebhookConfig {
    pub url: String,
    pub events: Vec<WebhookEvent>,
    pub enabled: bool,
}

/// Name of an event as it is posted.
pub open spec fn event_name(e: WebhookEvent) -> Seq<char> {
    match e {
        WebhookEvent::Connected => "Connected"@,
        WebhookEvent::Disconnected => "Disconnected"@,
        WebhookEvent::NotificationDetected => "NotificationDetected"@,
        WebhookEvent::QrDetected => "QrDetected"@,
        WebhookEvent::RecordingStarted => "RecordingStarted"@,
        WebhookEvent::RecordingStopped => "RecordingStopped"@,
        WebhookEvent::ScreenshotTaken => "ScreenshotTaken"@,
        WebhookEvent::MacroCompleted => "MacroCompleted"@,
    }
}

/// The name of `e` as it is posted.
pub fn event_label(e: WebhookEvent) -> (s: String)
    ensures
        s@ == event_name(e),
{
    match e {
        WebhookEvent::Connected => "Connected".to_string(),
        WebhookEvent::Disconnected => "Disconnected".to_string(),
        WebhookEvent::NotificationDetected => "NotificationDetected".to_string(),
        WebhookEvent::QrDetected => "QrDetected".to_string(),
        WebhookEvent::RecordingStarted => "RecordingStarted".to_string(),
        WebhookEvent::RecordingStopped => "RecordingStopped".to_string(),
        WebhookEvent::ScreenshotTaken => "ScreenshotTaken".to_string(),
        WebhookEvent::MacroCompleted => "MacroCompleted".to_string(),
    }
}

/// A hook receives `e` when it is enabled and subscribed to `e`.
pub open spec fn receives(h: WebhookConfig, e: WebhookEvent) -> bool {
    h.enabled && h.events@.contains(e)
}

/// URLs of the first `n` hooks that receive `e`, in registration order.
pub open spec fn targets(hooks: Seq<WebhookConfig>, e: WebhookEvent, n: nat) -> Seq<Seq<char>>
    decreases n,
{
    if n == 0 {
        Seq::empty()
    } else {
        let prev = targets(hooks, e, (n - 1) as nat);
        if receives(hooks[n - 1], e) {
            prev.push(hooks[n - 1].url@)
        } else {
            prev
        }
    }
}

/// The registered webhooks.
pub struct WebhookManager {
    hooks: Vec<WebhookConfig>,
}

impl WebhookManager {
    /// The hooks, in registration order.
    pub closed spec fn spec_hooks(&self) -> Seq<WebhookConfig> {
        self.hooks@
    }

    /// No hooks.
    pub fn new() -> (m: Self)
        ensures
            m.spec_hooks() == Seq::<WebhookConfig>::empty(),
    {
        WebhookManager { hooks: Vec::new() }
    }

    /// Register a hook.
    pub fn add(&mut self, hook: WebhookConfig)
        ensures
            final(self).spec_hooks() == old(self).spec_hooks().push(hook),
    {
        self.hooks.push(hook);
    }

    /// The URLs to post `event` to: those of the enabled hooks subscribed to
    /// it, in registration order.
    pub fn targets(&self, event: WebhookEvent) -> (urls: Vec<String>)
        ensures
            urls@.len() == targets(self.spec_hooks(), event, self.spec_hooks().len()).len(),
            forall|k: int|
                0 <= k < urls@.len() ==> #[trigger] urls@[k]@ == targets(self.spec_hooks(), event, self.spec_hooks().len())[k],
    {
        let mut urls: Vec<String> = Vec::new();
        let mut i: usize = 0;
        while i < self.hooks.len()
            invariant
                i <= self.hooks@.len(),
                urls@.len() == targets(self.hooks@, event, i as nat).len(),
                forall|k: int| 0 <= k < urls@.len() ==> #[trigger] urls@[k]@ == targets(self.hooks@, event, i as nat)[k],
            decreases self.hooks@.len() - i,
        {
            let hook = &self.hooks[i];
            let mut subscribed = false;
            let mut j: usize = 0;
            while j < hook.events.len()
                invariant
                    hook == self.hooks@[i as int],
                    j <= hook.events@.len(),
                    subscribed == (exists|q: int| 0 <= q < j && hook.events@[q] == event),
                decreases hook.events@.len() - j,
            {
                if hook.events[j] == event {
                    subscribed = true;
                }
                j = j + 1;
            }
            proof {
                if subscribed {
                    let q = choose|q: int| 0 <= q < j && hook.events@[q] == event;
                    assert(hook.events@.contains(event));
                } else {
                    assert(!hook.events@.contains(event));
                }
            }
            if hook.enabled && subscribed {
                let url = hook.url.clone();
                urls.push(url);
            }
            i = i + 1;
        }
        urls
    }
}

} // verus!
