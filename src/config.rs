use vstd::prelude::*;

use crate::event::Event;
use crate::frame::Frame;
use crate::region::Region;
use crate::reminder::{reminder_step, ReminderRegions};

verus! {

pub type Host = [u8; 4];

pub type Port = u16;

/// One monitored character window: its title and the regions checked on
/// every captured frame.
#[derive(Clone, Debug)]
pub struct Character {
    pub title: String,
    pub warn_region: Region,
    pub reminder_regions: ReminderRegions,
}

impl Character {
    /// Next reminder state and whether a reminder fires for `frame`.
    pub open spec fn reminder_outcome(&self, frame: &Frame, state: (bool, bool)) -> ((bool, bool), bool) {
        reminder_step(
            state,
            self.reminder_regions.reminder_now_region.matches(frame),
            self.reminder_regions.reminder_enemy_region.matches(frame),
        )
    }

    /// Evaluates one frame: first the warn region, then the reminder state
    /// machine. Returns the events raised, a `Warn` first when the warn
    /// region matches, then a `Reminder` when the state machine fires.
    pub fn scan_frame(&self, frame: &Frame, state: &mut (bool, bool)) -> (r: Vec<Event>)
        ensures
            ({
                let warn = self.warn_region.matches(frame);
                let (next, fire) = self.reminder_outcome(frame, *old(state));
                &&& *final(state) == next
                &&& r@.len() == (if warn { 1int } else { 0 }) + (if fire { 1int } else { 0 })
                &&& warn ==> r@[0].is_warn_for(self.title@)
                &&& fire ==> r@[r@.len() - 1].is_reminder_for(self.title@)
            }),
    {
        let mut events: Vec<Event> = Vec::new();
        if self.warn_region.check_in_image(frame) {
            events.push(Event::Warn { title: self.title.clone() });
        }
        if self.reminder_regions.check_reminder(frame, state) {
            events.push(Event::Reminder { title: self.title.clone() });
        }
        events
    }
}

/// One configured way of reporting events.
#[derive(Clone, Debug)]
pub enum ReportMethod {
    Voice { warn_voice_path: String, reminder_voice_path: String },
    Sse { host: Host, port: Port },
    Notification,
    /// `try_spacing` is the pause between two connection attempts, in
    /// milliseconds.
    ReverseWebsocket { url: String, try_forever: bool, try_spacing: u64 },
}

impl ReportMethod {
    pub fn is_voice(&self) -> (r: bool)
        ensures
            r <==> self is Voice,
    {
        match self {
            ReportMethod::Voice { .. } => true,
            _ => false,
        }
    }

    pub fn is_notification(&self) -> (r: bool)
        ensures
            r <==> self is Notification,
    {
        match self {
            ReportMethod::Notification => true,
            _ => false,
        }
    }
}

/// Whether a reverse websocket retries forever when no setting is given.
pub fn default_try_forever() -> (r: bool)
    ensures
        r == false,
{
    false
}

/// Pause between reverse websocket connection attempts when no setting is
/// given, in milliseconds.
pub fn default_try_spacing() -> (r: u64)
    ensures
        r == 5000,
{
    5000
}

/// Two distinct entries of `methods` are both `Voice` entries.
pub open spec fn duplicate_voice(methods: Seq<ReportMethod>) -> bool {
    exists|i: int, j: int|
        0 <= i < j < methods.len() && #[trigger] methods[i] is Voice && #[trigger] methods[j] is Voice
}

/// Two distinct entries of `methods` are both `Notification` entries.
pub open spec fn duplicate_notification(methods: Seq<ReportMethod>) -> bool {
    exists|i: int, j: int|
        0 <= i < j < methods.len() && #[trigger] methods[i] is Notification
            && #[trigger] methods[j] is Notification
}

pub open spec fn report_methods_valid(methods: Seq<ReportMethod>) -> bool {
    !duplicate_voice(methods) && !duplicate_notification(methods)
}

/// Why a configuration was rejected.
#[derive(Clone, Copy, Debug, PartialEq, Eq)]
pub enum ConfigError {
    /// More than one `Voice` or more than one `Notification` entry.
    DuplicateReportMethods,
}

/// The whole configuration: report methods and monitored characters.
#[derive(Clone, Debug)]
pub struct Config {
    pub report_methods: Vec<ReportMethod>,
    pub characters: Vec<Character>,
}

impl Config {
    /// At most one `Voice` entry and at most one `Notification` entry.
    pub fn check_report_methods(&self) -> (r: bool)
        ensures
            r == report_methods_valid(self.report_methods@),
    {
        let ghost ms = self.report_methods@;
        let mut has_voice = false;
        let mut has_notification = false;
        let mut voice_at: usize = 0;
        let mut notification_at: usize = 0;
        let mut k: usize = 0;
        while k < self.report_methods.len()
            invariant
                ms == self.report_methods@,
                k <= ms.len(),
                !duplicate_voice(ms.subrange(0, k as int)),
                !duplicate_notification(ms.subrange(0, k as int)),
                has_voice ==> voice_at < k && ms[voice_at as int] is Voice,
                !has_voice ==> forall|i: int| 0 <= i < k ==> !(#[trigger] ms[i] is Voice),
                has_notification ==> notification_at < k && ms[notification_at as int] is Notification,
                !has_notification ==> forall|i: int| 0 <= i < k ==> !(#[trigger] ms[i] is Notification),
            decreases ms.len() - k,
        {
            let method = &self.report_methods[k];
            let ghost pre = ms.subrange(0, k as int);
            let ghost post = ms.subrange(0, k + 1);
            if method.is_voice() {
                if has_voice {
                    assert(ms[voice_at as int] is Voice && ms[k as int] is Voice);
                    assert(duplicate_voice(ms));
                    return false;
                }
                has_voice = true;
                voice_at = k;
            } else if method.is_notification() {
                if has_notification {
                    assert(ms[notification_at as int] is Notification && ms[k as int] is Notification);
                    assert(duplicate_notification(ms));
                    return false;
                }
                has_notification = true;
                notification_at = k;
            }
            assert(!duplicate_voice(post)) by {
                if duplicate_voice(post) {
                    let (i, j) = choose|i: int, j: int|
                        0 <= i < j < post.len() && #[trigger] post[i] is Voice && #[trigger] post[j] is Voice;
                    if j < k {
                        assert(pre[i] is Voice && pre[j] is Voice);
                    }
                }
            }
            assert(!duplicate_notification(post)) by {
                if duplicate_notification(post) {
                    let (i, j) = choose|i: int, j: int|
                        0 <= i < j < post.len() && #[trigger] post[i] is Notification
                            && #[trigger] post[j] is Notification;
                    if j < k {
                        assert(pre[i] is Notification && pre[j] is Notification);
                    }
                }
            }
            k += 1;
        }
        assert(ms.subrange(0, k as int) =~= ms);
        true
    }

    /// The titles of the monitored characters, in order.
    pub fn character_titles(&self) -> (r: Vec<String>)
        ensures
            r@.len() == self.characters@.len(),
            forall|i: int| 0 <= i < r@.len() ==> #[trigger] r@[i]@ == self.characters@[i].title@,
    {
        let mut titles: Vec<String> = Vec::new();
        let mut i: usize = 0;
        while i < self.characters.len()
            invariant
                i <= self.characters@.len(),
                titles@.len() == i,
                forall|j: int| 0 <= j < i ==> #[trigger] titles@[j]@ == self.characters@[j].title@,
            decreases self.characters@.len() - i,
        {
            titles.push(self.characters[i].title.clone());
            i += 1;
        }
        titles
    }

    /// Accepts the configuration when its report methods are valid.
    pub fn validate(self) -> (r: Result<Config, ConfigError>)
        ensures
            report_methods_valid(self.report_methods@) ==> r == Ok::<Config, ConfigError>(self),
            !report_methods_valid(self.report_methods@) ==> r == Err::<Config, ConfigError>(
                ConfigError::DuplicateReportMethods,
            ),
    {
        if self.check_report_methods() {
            Ok(self)
        } else {
            Err(ConfigError::DuplicateReportMethods)
        }
    }
}

} // verus!
