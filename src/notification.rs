//! Operation tracker: notifications for user-triggered actions, their
//! lifecycle `Pending -> InProgress? -> {Success, Error}`, the bounded
//! history, the toast and the set of remote operations still being polled.
//!
//! Times are milliseconds on a clock that the caller reads and passes in.
use vstd::prelude::*;
use crate::shell::{all_ascii, ascii_lower_char, lower_of, lowercase};
use crate::text::{decimal_of, format_decimal, str_eq, str_starts_with, starts_with_seq};

verus! {

/// Relies on `uuid::Uuid::new_v4`: a random version-4 identifier, whose
/// version bits make it differ from the nil identifier 0.
#[verifier::external_body]
fn fresh_notification_id() -> (r: u128)
    ensures
        r != 0,
{
    uuid::Uuid::new_v4().as_u128()
}

/// Level of detail of toast messages.
#[derive(Debug, Clone, Copy, PartialEq, Eq, Structural)]
pub enum DetailLevel {
    Minimal,
    Detailed,
    Verbose,
}

pub open spec fn detail_level_of(lower: Seq<char>) -> DetailLevel {
    if lower == "minimal"@ {
        DetailLevel::Minimal
    } else if lower == "verbose"@ {
        DetailLevel::Verbose
    } else {
        DetailLevel::Detailed
    }
}

impl DetailLevel {
    /// Reads a level from its lower-case name; anything unknown is `Detailed`.
    pub fn from_lowercase(lower: &str) -> (r: DetailLevel)
        ensures
            r == detail_level_of(lower@),
    {
        if str_eq(lower, "minimal") {
            DetailLevel::Minimal
        } else if str_eq(lower, "verbose") {
            DetailLevel::Verbose
        } else {
            DetailLevel::Detailed
        }
    }

    /// Reads a level from its name, in any case.
    pub fn from_str(s: &str) -> (r: DetailLevel)
        ensures
            r == detail_level_of(lower_of(s@)),
            all_ascii(s@) ==> r == detail_level_of(s@.map_values(|c: char| ascii_lower_char(c))),
    {
        let l = lowercase(s);
        DetailLevel::from_lowercase(l.as_str())
    }

    pub fn as_str(&self) -> (r: &'static str)
        ensures
            r@ == match self {
                DetailLevel::Minimal => "minimal"@,
                DetailLevel::Detailed => "detailed"@,
                DetailLevel::Verbose => "verbose"@,
            },
    {
        match self {
            DetailLevel::Minimal => "minimal",
            DetailLevel::Detailed => "detailed",
            DetailLevel::Verbose => "verbose",
        }
    }
}

/// When a completion beeps.
#[derive(Debug, Clone, Copy, PartialEq, Eq, Structural)]
pub enum SoundConfig {
    Off,
    ErrorsOnly,
    All,
}

pub open spec fn sound_config_of(lower: Seq<char>) -> SoundConfig {
    if lower == "errors_only"@ || lower == "errors"@ {
        SoundConfig::ErrorsOnly
    } else if lower == "all"@ {
        SoundConfig::All
    } else {
        SoundConfig::Off
    }
}

impl SoundConfig {
    /// Reads a sound mode from its lower-case name; anything unknown is `Off`.
    pub fn from_lowercase(lower: &str) -> (r: SoundConfig)
        ensures
            r == sound_config_of(lower@),
    {
        if str_eq(lower, "errors_only") || str_eq(lower, "errors") {
            SoundConfig::ErrorsOnly
        } else if str_eq(lower, "all") {
            SoundConfig::All
        } else {
            SoundConfig::Off
        }
    }

    /// Reads a sound mode from its name, in any case.
    pub fn from_str(s: &str) -> (r: SoundConfig)
        ensures
            r == sound_config_of(lower_of(s@)),
            all_ascii(s@) ==> r == sound_config_of(s@.map_values(|c: char| ascii_lower_char(c))),
    {
        let l = lowercase(s);
        SoundConfig::from_lowercase(l.as_str())
    }

    pub fn as_str(&self) -> (r: &'static str)
        ensures
            r@ == match self {
                SoundConfig::Off => "off"@,
                SoundConfig::ErrorsOnly => "errors_only"@,
                SoundConfig::All => "all"@,
            },
    {
        match self {
            SoundConfig::Off => "off",
            SoundConfig::ErrorsOnly => "errors_only",
            SoundConfig::All => "all",
        }
    }
}

/// Kind of operation a notification tracks.
#[derive(Debug, PartialEq, Eq)]
pub enum OperationType {
    Start,
    Stop,
    Reset,
    Delete,
    Other(String),
}

pub open spec fn operation_type_of(method: Seq<char>) -> OperationType {
    if method == "start_instance"@ {
        OperationType::Start
    } else if method == "stop_instance"@ {
        OperationType::Stop
    } else if method == "reset_instance"@ {
        OperationType::Reset
    } else if starts_with_seq(method, "delete_"@) {
        OperationType::Delete
    } else {
        OperationType::Other(arbitrary())
    }
}

pub open spec fn same_operation_type(a: OperationType, b: OperationType) -> bool {
    match (a, b) {
        (OperationType::Other(x), OperationType::Other(y)) => x@ == y@,
        _ => a == b,
    }
}

impl OperationType {
    /// The operation an SDK method performs.
    pub fn from_method(method: &str) -> (r: OperationType)
        ensures
            match operation_type_of(method@) {
                OperationType::Other(_) => r is Other && match r {
                    OperationType::Other(name) => name@ == method@,
                    _ => false,
                },
                t => r == t,
            },
    {
        if str_eq(method, "start_instance") {
            OperationType::Start
        } else if str_eq(method, "stop_instance") {
            OperationType::Stop
        } else if str_eq(method, "reset_instance") {
            OperationType::Reset
        } else if str_starts_with(method, "delete_") {
            OperationType::Delete
        } else {
            OperationType::Other(String::from_str(method))
        }
    }

    /// A copy of the operation type.
    pub fn duplicate(&self) -> (r: OperationType)
        ensures
            same_operation_type(r, *self),
    {
        match self {
            OperationType::Start => OperationType::Start,
            OperationType::Stop => OperationType::Stop,
            OperationType::Reset => OperationType::Reset,
            OperationType::Delete => OperationType::Delete,
            OperationType::Other(name) => OperationType::Other(name.clone()),
        }
    }

    pub fn display_name(&self) -> (r: &str)
        ensures
            match self {
                OperationType::Start => r@ == "Start"@,
                OperationType::Stop => r@ == "Stop"@,
                OperationType::Reset => r@ == "Reset"@,
                OperationType::Delete => r@ == "Delete"@,
                OperationType::Other(name) => r@ == name@,
            },
    {
        match self {
            OperationType::Start => "Start",
            OperationType::Stop => "Stop",
            OperationType::Reset => "Reset",
            OperationType::Delete => "Delete",
            OperationType::Other(name) => name.as_str(),
        }
    }

    pub fn past_tense(&self) -> (r: &'static str)
        ensures
            r@ == past_tense_of(*self),
    {
        match self {
            OperationType::Start => "Started",
            OperationType::Stop => "Stopped",
            OperationType::Reset => "Reset",
            OperationType::Delete => "Deleted",
            OperationType::Other(_) => "Completed",
        }
    }

    pub fn present_participle(&self) -> (r: &'static str)
        ensures
            r@ == present_participle_of(*self),
    {
        match self {
            OperationType::Start => "Starting",
            OperationType::Stop => "Stopping",
            OperationType::Reset => "Resetting",
            OperationType::Delete => "Deleting",
            OperationType::Other(_) => "Processing",
        }
    }
}

pub open spec fn past_tense_of(t: OperationType) -> Seq<char> {
    match t {
        OperationType::Start => "Started"@,
        OperationType::Stop => "Stopped"@,
        OperationType::Reset => "Reset"@,
        OperationType::Delete => "Deleted"@,
        OperationType::Other(_) => "Completed"@,
    }
}

pub open spec fn present_participle_of(t: OperationType) -> Seq<char> {
    match t {
        OperationType::Start => "Starting"@,
        OperationType::Stop => "Stopping"@,
        OperationType::Reset => "Resetting"@,
        OperationType::Delete => "Deleting"@,
        OperationType::Other(_) => "Processing"@,
    }
}

/// Status of a notification.
#[derive(Debug, PartialEq, Eq)]
pub enum NotificationStatus {
    /// Submitted, no answer yet.
    Pending,
    /// Accepted by the remote side and being polled.
    InProgress,
    Success,
    /// Failed, with the message to show.
    Error(String),
}

pub open spec fn status_terminal(s: NotificationStatus) -> bool {
    s is Success || s is Error
}

impl NotificationStatus {
    pub fn is_terminal(&self) -> (r: bool)
        ensures
            r == status_terminal(*self),
    {
        match self {
            NotificationStatus::Success | NotificationStatus::Error(_) => true,
            _ => false,
        }
    }

    pub fn icon(&self) -> (r: &'static str)
        ensures
            r@ == icon_of(*self),
    {
        match self {
            NotificationStatus::Pending => "◯",
            NotificationStatus::InProgress => "↻",
            NotificationStatus::Success => "✓",
            NotificationStatus::Error(_) => "✗",
        }
    }
}

pub open spec fn icon_of(s: NotificationStatus) -> Seq<char> {
    match s {
        NotificationStatus::Pending => "◯"@,
        NotificationStatus::InProgress => "↻"@,
        NotificationStatus::Success => "✓"@,
        NotificationStatus::Error(_) => "✗"@,
    }
}

/// One tracked action.
pub struct Notification {
    pub id: u128,
    pub operation_type: OperationType,
    pub resource_type: String,
    pub resource_id: String,
    pub status: NotificationStatus,
    pub message: Option<String>,
    /// Reference of the remote asynchronous operation, if any.
    pub operation_url: Option<String>,
    pub created_at_ms: u64,
    pub completed_at_ms: Option<u64>,
}

/// `now - since`, or 0 when the clock went backwards.
pub open spec fn elapsed(now: u64, since: u64) -> nat {
    if now >= since {
        (now - since) as nat
    } else {
        0
    }
}

fn elapsed_ms(now: u64, since: u64) -> (r: u64)
    ensures
        r == elapsed(now, since),
{
    if now >= since {
        now - since
    } else {
        0
    }
}

/// How long an operation took, or has run so far, as shown to the user.
pub open spec fn duration_text(ms: nat) -> Seq<char> {
    if ms < 1000 {
        decimal_of(ms) + "ms"@
    } else if ms < 60_000 {
        decimal_of(ms / 1000) + "s"@
    } else {
        decimal_of(ms / 60_000) + "m"@ + decimal_of((ms / 1000) % 60) + "s"@
    }
}

/// The toast of a notification at `now`: icon, verb and resource, then per
/// detail level the run time, the resource type and the error message.
pub open spec fn toast_text(n: Notification, detail_level: DetailLevel, now: u64) -> Seq<char> {
    let verb = match n.status {
        NotificationStatus::Pending | NotificationStatus::InProgress => present_participle_of(
            n.operation_type,
        ),
        NotificationStatus::Success => past_tense_of(n.operation_type),
        NotificationStatus::Error(_) => "Failed"@,
    };
    let base = icon_of(n.status) + " "@ + verb + " "@ + n.resource_id@;
    let dur = duration_text(
        elapsed(
            match n.completed_at_ms {
                Some(t) => t,
                None => now,
            },
            n.created_at_ms,
        ),
    );
    match detail_level {
        DetailLevel::Minimal => base,
        DetailLevel::Detailed => if status_terminal(n.status) {
            base + " ("@ + dur + ")"@
        } else {
            base + "..."@
        },
        DetailLevel::Verbose => {
            let vb = base + " ["@ + n.resource_type@ + "]"@;
            match n.status {
                NotificationStatus::Error(e) => vb + " - "@ + e@,
                NotificationStatus::Success => vb + " ("@ + dur + ")"@,
                _ => vb + "..."@,
            }
        },
    }
}

impl Notification {
    /// A new pending notification created at `now`.
    pub fn new(
        operation_type: OperationType,
        resource_type: String,
        resource_id: String,
        id: u128,
        now: u64,
    ) -> (r: Notification)
        ensures
            r.id == id,
            r.operation_type == operation_type,
            r.resource_type == resource_type,
            r.resource_id == resource_id,
            r.status is Pending,
            r.message is None,
            r.operation_url is None,
            r.created_at_ms == now,
            r.completed_at_ms is None,
    {
        Notification {
            id,
            operation_type,
            resource_type,
            resource_id,
            status: NotificationStatus::Pending,
            message: None,
            operation_url: None,
            created_at_ms: now,
            completed_at_ms: None,
        }
    }

    pub fn set_in_progress(&mut self, operation_url: Option<String>)
        ensures
            *final(self) == (Notification {
                status: NotificationStatus::InProgress,
                operation_url,
                ..*old(self)
            }),
    {
        self.status = NotificationStatus::InProgress;
        self.operation_url = operation_url;
    }

    pub fn set_success(&mut self, now: u64)
        ensures
            *final(self) == (Notification {
                status: NotificationStatus::Success,
                completed_at_ms: Some(now),
                ..*old(self)
            }),
    {
        self.status = NotificationStatus::Success;
        self.completed_at_ms = Some(now);
    }

    pub fn set_error(&mut self, error: String, now: u64)
        ensures
            *final(self) == (Notification {
                status: NotificationStatus::Error(error),
                completed_at_ms: Some(now),
                ..*old(self)
            }),
    {
        self.status = NotificationStatus::Error(error);
        self.completed_at_ms = Some(now);
    }

    /// Run time: until completion, or until `now` while still running.
    pub fn duration_ms(&self, now: u64) -> (r: u64)
        ensures
            r == elapsed(
                match self.completed_at_ms {
                    Some(t) => t,
                    None => now,
                },
                self.created_at_ms,
            ),
    {
        let end = match self.completed_at_ms {
            Some(t) => t,
            None => now,
        };
        elapsed_ms(end, self.created_at_ms)
    }

    pub fn duration_display(&self, now: u64) -> (r: String)
        ensures
            r@ == duration_text(
                elapsed(
                    match self.completed_at_ms {
                        Some(t) => t,
                        None => now,
                    },
                    self.created_at_ms,
                ),
            ),
    {
        let d = self.duration_ms(now);
        if d < 1000 {
            let mut s = format_decimal(d);
            s.append("ms");
            s
        } else if d < 60_000 {
            let mut s = format_decimal(d / 1000);
            s.append("s");
            s
        } else {
            let mut s = format_decimal(d / 60_000);
            s.append("m");
            let secs = format_decimal((d / 1000) % 60);
            s.append(secs.as_str());
            s.append("s");
            s
        }
    }

    /// The verb of the toast: what is happening, what happened, or `Failed`.
    pub fn toast_verb(&self) -> (r: &str)
        ensures
            r@ == match self.status {
                NotificationStatus::Pending | NotificationStatus::InProgress => present_participle_of(
                    self.operation_type,
                ),
                NotificationStatus::Success => past_tense_of(self.operation_type),
                NotificationStatus::Error(_) => "Failed"@,
            },
    {
        match &self.status {
            NotificationStatus::Pending | NotificationStatus::InProgress => {
                self.operation_type.present_participle()
            },
            NotificationStatus::Success => self.operation_type.past_tense(),
            NotificationStatus::Error(_) => "Failed",
        }
    }

    /// Toast text: icon, verb and resource, then per detail level the run
    /// time, the resource type and the error message.
    pub fn toast_message(&self, detail_level: DetailLevel, now: u64) -> (r: String)
        ensures
            r@ == toast_text(*self, detail_level, now),
    {
        let mut s = String::from_str(self.status.icon());
        s.append(" ");
        s.append(self.toast_verb());
        s.append(" ");
        s.append(self.resource_id.as_str());
        match detail_level {
            DetailLevel::Minimal => s,
            DetailLevel::Detailed => {
                if self.status.is_terminal() {
                    s.append(" (");
                    let d = self.duration_display(now);
                    s.append(d.as_str());
                    s.append(")");
                    s
                } else {
                    s.append("...");
                    s
                }
            },
            DetailLevel::Verbose => {
                s.append(" [");
                s.append(self.resource_type.as_str());
                s.append("]");
                match &self.status {
                    NotificationStatus::Error(e) => {
                        s.append(" - ");
                        s.append(e.as_str());
                        s
                    },
                    NotificationStatus::Success => {
                        s.append(" (");
                        let d = self.duration_display(now);
                        s.append(d.as_str());
                        s.append(")");
                        s
                    },
                    _ => {
                        s.append("...");
                        s
                    },
                }
            },
        }
    }
}

/// A remote operation that is being polled for completion.
pub struct PendingOperation {
    pub notification_id: u128,
    pub operation_url: String,
    pub last_poll_ms: u64,
    pub poll_count: u32,
}

impl PendingOperation {
    pub fn new(notification_id: u128, operation_url: String, now: u64) -> (r: PendingOperation)
        ensures
            r == (PendingOperation { notification_id, operation_url, last_poll_ms: now, poll_count: 0 }),
    {
        PendingOperation { notification_id, operation_url, last_poll_ms: now, poll_count: 0 }
    }

    /// Whether at least `interval_ms` have passed since the last poll.
    pub fn should_poll(&self, interval_ms: u64, now: u64) -> (r: bool)
        ensures
            r == (elapsed(now, self.last_poll_ms) >= interval_ms),
    {
        elapsed_ms(now, self.last_poll_ms) >= interval_ms
    }

    pub fn mark_polled(&mut self, now: u64)
        ensures
            final(self).notification_id == old(self).notification_id,
            final(self).operation_url == old(self).operation_url,
            final(self).last_poll_ms == now,
            final(self).poll_count == if old(self).poll_count < u32::MAX {
                (old(self).poll_count + 1) as u32
            } else {
                old(self).poll_count
            },
    {
        self.last_poll_ms = now;
        if self.poll_count < u32::MAX {
            self.poll_count = self.poll_count + 1;
        }
    }
}

/// Index of the first notification with this id, searching from `i`.
pub open spec fn find_from(s: Seq<Notification>, id: u128, i: nat) -> Option<nat>
    decreases s.len() - i,
{
    if i >= s.len() {
        None
    } else if s[i as int].id == id {
        Some(i)
    } else {
        find_from(s, id, i + 1)
    }
}

pub open spec fn find_id(s: Seq<Notification>, id: u128) -> Option<nat> {
    find_from(s, id, 0)
}

proof fn lemma_find_from_bound(s: Seq<Notification>, id: u128, i: nat)
    ensures
        find_from(s, id, i) matches Some(k) ==> i <= k < s.len() && s[k as int].id == id,
    decreases s.len() - i,
{
    if i < s.len() && s[i as int].id != id {
        lemma_find_from_bound(s, id, i + 1);
    }
}

/// A notification found by its id lies in the history and has that id.
pub proof fn lemma_find_id_bound(s: Seq<Notification>, id: u128)
    ensures
        find_id(s, id) matches Some(k) ==> k < s.len() && s[k as int].id == id,
{
    lemma_find_from_bound(s, id, 0);
}

/// A history of `n` notifications cannot hold all the ids `1..=n+1`.
proof fn lemma_some_id_unused(s: Seq<Notification>)
    requires
        s.len() <= usize::MAX,
    ensures
        exists|v: u128| 1 <= v <= s.len() + 1 && #[trigger] find_id(s, v) is None,
{
    if forall|v: u128| 1 <= v <= s.len() + 1 ==> #[trigger] find_id(s, v) is Some {
        let ids = s.map_values(|x: Notification| x.id as int);
        let all = ids.to_set();
        ids.lemma_cardinality_of_set();
        let range = vstd::set_lib::set_int_range(1, s.len() as int + 2);
        vstd::set_lib::lemma_int_range(1, s.len() as int + 2);
        assert forall|v: int| range.contains(v) implies all.contains(v) by {
            let u = v as u128;
            assert(u as int == v);
            assert(find_id(s, u) is Some);
            lemma_find_id_bound(s, u);
            let k = find_id(s, u)->0;
            assert(s[k as int].id == u);
            assert(ids[k as int] == v);
            assert(all.contains(ids[k as int]));
        }
        assert(range.subset_of(all));
        vstd::set_lib::lemma_len_subset(range, all);
    }
}

/// Index of the last terminal notification below `i`.
pub open spec fn last_terminal_below(s: Seq<Notification>, i: int) -> Option<nat>
    decreases i,
{
    if i <= 0 {
        None
    } else if status_terminal(s[i - 1].status) {
        Some((i - 1) as nat)
    } else {
        last_terminal_below(s, i - 1)
    }
}

/// One eviction: the oldest terminal notification, else the oldest one.
pub open spec fn evict_one(s: Seq<Notification>) -> Seq<Notification> {
    match last_terminal_below(s, s.len() as int) {
        Some(k) => s.remove(k as int),
        None => s.drop_last(),
    }
}

pub open spec fn evict_n(s: Seq<Notification>, n: nat) -> Seq<Notification>
    decreases n,
{
    if n == 0 {
        s
    } else {
        evict_n(evict_one(s), (n - 1) as nat)
    }
}

/// History trimmed to at most `max` entries.
pub open spec fn trimmed(s: Seq<Notification>, max: nat) -> Seq<Notification> {
    if s.len() > max {
        evict_n(s, (s.len() - max) as nat)
    } else {
        s
    }
}

proof fn lemma_last_terminal_bound(s: Seq<Notification>, i: int)
    requires
        i <= s.len(),
    ensures
        match last_terminal_below(s, i) {
            Some(k) => k < i && status_terminal(s[k as int].status),
            None => forall|j: int| 0 <= j < i ==> !status_terminal(#[trigger] s[j].status),
        },
    decreases i,
{
    if i > 0 {
        lemma_last_terminal_bound(s, i - 1);
    }
}

proof fn lemma_evict_n_len(s: Seq<Notification>, n: nat)
    requires
        n <= s.len(),
    ensures
        evict_n(s, n).len() == s.len() - n,
    decreases n,
{
    if n > 0 {
        lemma_last_terminal_bound(s, s.len() as int);
        lemma_evict_n_len(evict_one(s), (n - 1) as nat);
    }
}

/// History length after trimming never exceeds the cap.
pub proof fn lemma_trimmed_len(s: Seq<Notification>, max: nat)
    ensures
        trimmed(s, max).len() == if s.len() > max {
            max as int
        } else {
            s.len() as int
        },
{
    if s.len() > max {
        lemma_evict_n_len(s, (s.len() - max) as nat);
    }
}

proof fn lemma_evict_keeps_front(t: Seq<Notification>, k: nat)
    requires
        t.len() >= k + 1,
        !status_terminal(t[0].status),
    ensures
        evict_n(t, k).len() >= 1,
        evict_n(t, k)[0] == t[0],
    decreases k,
{
    if k > 0 {
        lemma_last_terminal_bound(t, t.len() as int);
        let e = evict_one(t);
        assert(e.len() == t.len() - 1);
        assert(e[0] == t[0]);
        lemma_evict_keeps_front(e, (k - 1) as nat);
    }
}

/// A newly created notification stays at the front of the history, still
/// pending and found by its id, whenever the cap admits one entry; and the
/// history never holds more entries than the cap.
pub proof fn lemma_created_notification_kept(n: Notification, s: Seq<Notification>, max: nat)
    requires
        max >= 1,
        n.status is Pending,
    ensures
        trimmed(seq![n] + s, max).len() >= 1,
        trimmed(seq![n] + s, max)[0] == n,
        find_id(trimmed(seq![n] + s, max), n.id) == Some(0nat),
        trimmed(seq![n] + s, max).len() <= max,
{
    let t = seq![n] + s;
    assert(t[0] == n);
    lemma_trimmed_len(t, max);
    if t.len() > max {
        lemma_evict_keeps_front(t, (t.len() - max) as nat);
    }
}

/// Once a notification is marked successful or failed, none of the
/// operations still being polled belongs to it.
pub proof fn lemma_completed_not_polled(p: Seq<PendingOperation>, id: u128)
    ensures
        forall|j: int| 0 <= j < without_id(p, id).len() ==> #[trigger] without_id(p, id)[j].notification_id != id,
{
    assert forall|j: int| 0 <= j < without_id(p, id).len() implies #[trigger] without_id(p, id)[j].notification_id != id by {
        p.lemma_filter_pred(|o: PendingOperation| o.notification_id != id, j);
    }
}

/// The pending operations that remain once the one of `id` completes.
pub open spec fn without_id(p: Seq<PendingOperation>, id: u128) -> Seq<PendingOperation> {
    p.filter(|o: PendingOperation| o.notification_id != id)
}

/// Keeps the notifications, the operations being polled, and the settings of
/// the tracker.
pub struct NotificationManager {
    /// All notifications, most recent first.
    pub notifications: Vec<Notification>,
    /// Operations currently being polled.
    pub pending_operations: Vec<PendingOperation>,
    /// Largest number of notifications kept.
    pub max_history: usize,
    pub toast_duration_ms: u64,
    pub poll_interval_ms: u64,
    pub detail_level: DetailLevel,
    pub sound_config: SoundConfig,
    pub auto_poll: bool,
    /// When the most recent notification last changed state.
    pub last_toast_ms: Option<u64>,
}

/// Default history cap.
pub const DEFAULT_MAX_HISTORY: usize = 50;

/// Default toast duration, in milliseconds.
pub const DEFAULT_TOAST_DURATION_MS: u64 = 5000;

/// Default poll interval, in milliseconds.
pub const DEFAULT_POLL_INTERVAL_MS: u64 = 2000;

impl NotificationManager {
    pub fn new() -> (r: NotificationManager)
        ensures
            r.notifications@.len() == 0,
            r.pending_operations@.len() == 0,
            r.max_history == DEFAULT_MAX_HISTORY,
            r.toast_duration_ms == DEFAULT_TOAST_DURATION_MS,
            r.poll_interval_ms == DEFAULT_POLL_INTERVAL_MS,
            r.detail_level == DetailLevel::Detailed,
            r.sound_config == SoundConfig::Off,
            r.auto_poll,
            r.last_toast_ms is None,
    {
        NotificationManager {
            notifications: Vec::new(),
            pending_operations: Vec::new(),
            max_history: DEFAULT_MAX_HISTORY,
            toast_duration_ms: DEFAULT_TOAST_DURATION_MS,
            poll_interval_ms: DEFAULT_POLL_INTERVAL_MS,
            detail_level: DetailLevel::Detailed,
            sound_config: SoundConfig::Off,
            auto_poll: true,
            last_toast_ms: None,
        }
    }

    /// Index of the first notification with this id.
    pub fn position(&self, id: u128) -> (r: Option<usize>)
        ensures
            match r {
                Some(i) => find_id(self.notifications@, id) == Some(i as nat),
                None => find_id(self.notifications@, id) is None,
            },
            r matches Some(i) ==> i < self.notifications@.len() && self.notifications@[i as int].id == id,
    {
        let mut i: usize = 0;
        while i < self.notifications.len()
            invariant
                i <= self.notifications@.len(),
                find_id(self.notifications@, id) == find_from(self.notifications@, id, i as nat),
            decreases self.notifications@.len() - i,
        {
            if self.notifications[i].id == id {
                return Some(i);
            }
            i = i + 1;
        }
        None
    }

    /// The notification with this id.
    pub fn get(&self, id: u128) -> (r: Option<&Notification>)
        ensures
            match find_id(self.notifications@, id) {
                Some(i) => r == Some(&self.notifications@[i as int]),
                None => r is None,
            },
    {
        match self.position(id) {
            Some(i) => Some(&self.notifications[i]),
            None => None,
        }
    }

    /// Removes notifications until at most `max_history` remain: the oldest
    /// terminal one first, else the oldest one.
    fn trim_history(&mut self)
        ensures
            final(self).notifications@ == trimmed(old(self).notifications@, old(self).max_history as nat),
            final(self).pending_operations == old(self).pending_operations,
            final(self).max_history == old(self).max_history,
            final(self).toast_duration_ms == old(self).toast_duration_ms,
            final(self).poll_interval_ms == old(self).poll_interval_ms,
            final(self).detail_level == old(self).detail_level,
            final(self).sound_config == old(self).sound_config,
            final(self).auto_poll == old(self).auto_poll,
            final(self).last_toast_ms == old(self).last_toast_ms,
    {
        let ghost orig = self.notifications@;
        let max = self.max_history;
        while self.notifications.len() > max
            invariant
                self.max_history == max,
                self.pending_operations == old(self).pending_operations,
                self.toast_duration_ms == old(self).toast_duration_ms,
                self.poll_interval_ms == old(self).poll_interval_ms,
                self.detail_level == old(self).detail_level,
                self.sound_config == old(self).sound_config,
                self.auto_poll == old(self).auto_poll,
                self.last_toast_ms == old(self).last_toast_ms,
                orig == old(self).notifications@,
                max == old(self).max_history,
                trimmed(orig, max as nat) == trimmed(self.notifications@, max as nat),
            decreases self.notifications@.len(),
        {
            let ghost before = self.notifications@;
            let n = self.notifications.len();
            let mut k: usize = n;
            let mut found = false;
            while k > 0 && !found
                invariant
                    k <= n,
                    n == self.notifications@.len(),
                    self.notifications@ == before,
                    found ==> k < n && last_terminal_below(before, n as int) == Some(k as nat),
                    !found ==> last_terminal_below(before, n as int) == last_terminal_below(
                        before,
                        k as int,
                    ),
                decreases k + if found { 0int } else { 1int },
            {
                if self.notifications[k - 1].status.is_terminal() {
                    found = true;
                    k = k - 1;
                } else {
                    k = k - 1;
                }
            }
            if found {
                self.notifications.remove(k);
            } else {
                self.notifications.pop();
            }
            proof {
                assert(self.notifications@ == evict_one(before));
                assert(evict_n(before, (before.len() - max) as nat) == evict_n(
                    evict_one(before),
                    (before.len() - max - 1) as nat,
                ));
            }
        }
    }

    /// An id, other than 0, that no notification of the history has.
    fn unused_id(&self) -> (r: u128)
        ensures
            r != 0,
            find_id(self.notifications@, r) is None,
    {
        let n = self.notifications.len();
        let mut c: u128 = 1;
        while c <= n as u128 + 1
            invariant
                n == self.notifications@.len(),
                1 <= c <= n + 2,
                forall|v: u128| 1 <= v < c ==> #[trigger] find_id(self.notifications@, v) is Some,
            decreases n + 2 - c,
        {
            if self.position(c).is_none() {
                return c;
            }
            c = c + 1;
        }
        proof {
            lemma_some_id_unused(self.notifications@);
        }
        0
    }

    /// Creates a pending notification at the front of the history, shows it
    /// as the toast, trims the history, and returns its id.
    pub fn create_notification(
        &mut self,
        operation_type: OperationType,
        resource_type: String,
        resource_id: String,
        now: u64,
    ) -> (r: u128)
        ensures
            r != 0,
            find_id(old(self).notifications@, r) is None,
            final(self).notifications@ == trimmed(
                seq![(Notification {
                    id: r,
                    operation_type,
                    resource_type,
                    resource_id,
                    status: NotificationStatus::Pending,
                    message: None,
                    operation_url: None,
                    created_at_ms: now,
                    completed_at_ms: None,
                })] + old(self).notifications@,
                old(self).max_history as nat,
            ),
            final(self).last_toast_ms == Some(now),
            final(self).pending_operations == old(self).pending_operations,
            final(self).max_history == old(self).max_history,
            final(self).toast_duration_ms == old(self).toast_duration_ms,
            final(self).poll_interval_ms == old(self).poll_interval_ms,
            final(self).detail_level == old(self).detail_level,
            final(self).sound_config == old(self).sound_config,
            final(self).auto_poll == old(self).auto_poll,
    {
        let mut id = fresh_notification_id();
        if self.position(id).is_some() {
            id = self.unused_id();
        }
        let n = Notification::new(operation_type, resource_type, resource_id, id, now);
        self.notifications.insert(0, n);
        proof {
            assert(self.notifications@ =~= seq![n] + old(self).notifications@);
        }
        self.last_toast_ms = Some(now);
        self.trim_history();
        id
    }

    /// Marks the notification in progress with the optional operation
    /// reference; with a reference and auto-poll on, starts polling it.
    pub fn mark_in_progress(&mut self, id: u128, operation_url: Option<String>, now: u64)
        ensures
            match find_id(old(self).notifications@, id) {
                None => *final(self) == *old(self),
                Some(i) => if status_terminal(old(self).notifications@[i as int].status) {
                    *final(self) == *old(self)
                } else {
                    &&& final(self).notifications@ == old(self).notifications@.update(
                        i as int,
                        Notification {
                            status: NotificationStatus::InProgress,
                            operation_url,
                            ..old(self).notifications@[i as int]
                        },
                    )
                    &&& final(self).pending_operations@ == if operation_url is Some
                        && old(self).auto_poll {
                        old(self).pending_operations@.push(
                            PendingOperation {
                                notification_id: id,
                                operation_url: operation_url->0,
                                last_poll_ms: now,
                                poll_count: 0,
                            },
                        )
                    } else {
                        old(self).pending_operations@
                    }
                    &&& final(self).last_toast_ms == Some(now)
                    &&& final(self).max_history == old(self).max_history
                    &&& final(self).toast_duration_ms == old(self).toast_duration_ms
                    &&& final(self).poll_interval_ms == old(self).poll_interval_ms
                    &&& final(self).detail_level == old(self).detail_level
                    &&& final(self).sound_config == old(self).sound_config
                    &&& final(self).auto_poll == old(self).auto_poll
                },
            },
    {
        match self.position(id) {
            None => {},
            Some(i) => {
                proof {
                    lemma_find_id_bound(old(self).notifications@, id);
                }
                if self.notifications[i].status.is_terminal() {
                    return;
                }
                let url_for_poll = match &operation_url {
                    Some(u) => Some(u.clone()),
                    None => None,
                };
                let mut n = self.notifications.remove(i);
                n.set_in_progress(operation_url);
                self.notifications.insert(i, n);
                proof {
                    assert(self.notifications@ =~= old(self).notifications@.update(i as int, n));
                }
                match url_for_poll {
                    Some(u) => {
                        if self.auto_poll {
                            self.pending_operations.push(PendingOperation::new(id, u, now));
                        }
                    },
                    None => {},
                }
                self.last_toast_ms = Some(now);
            },
        }
    }

    /// Drops the pending operations of this notification.
    fn stop_polling(&mut self, id: u128)
        ensures
            final(self).pending_operations@ == without_id(old(self).pending_operations@, id),
            final(self).notifications == old(self).notifications,
            final(self).max_history == old(self).max_history,
            final(self).toast_duration_ms == old(self).toast_duration_ms,
            final(self).poll_interval_ms == old(self).poll_interval_ms,
            final(self).detail_level == old(self).detail_level,
            final(self).sound_config == old(self).sound_config,
            final(self).auto_poll == old(self).auto_poll,
            final(self).last_toast_ms == old(self).last_toast_ms,
    {
        let ghost orig = self.pending_operations@;
        let ghost mut j: int = 0;
        let mut i: usize = 0;
        proof {
            reveal(Seq::filter);
            assert(orig.subrange(0, 0) =~= Seq::<PendingOperation>::empty());
            assert(self.pending_operations@ =~= without_id(orig.subrange(0, 0), id) + orig.subrange(0, orig.len() as int));
        }
        while i < self.pending_operations.len()
            invariant
                orig == old(self).pending_operations@,
                0 <= j <= orig.len(),
                i == without_id(orig.subrange(0, j), id).len(),
                self.pending_operations@ == without_id(orig.subrange(0, j), id) + orig.subrange(j, orig.len() as int),
                self.notifications == old(self).notifications,
                self.max_history == old(self).max_history,
                self.toast_duration_ms == old(self).toast_duration_ms,
                self.poll_interval_ms == old(self).poll_interval_ms,
                self.detail_level == old(self).detail_level,
                self.sound_config == old(self).sound_config,
                self.auto_poll == old(self).auto_poll,
                self.last_toast_ms == old(self).last_toast_ms,
            decreases orig.len() - j,
        {
            proof {
                assert(orig.subrange(0, j + 1).drop_last() == orig.subrange(0, j));
                assert(self.pending_operations@[i as int] == orig[j]);
                reveal(Seq::filter);
            }
            if self.pending_operations[i].notification_id == id {
                self.pending_operations.remove(i);
                proof {
                    assert(self.pending_operations@ =~= without_id(orig.subrange(0, j + 1), id) + orig.subrange(j + 1, orig.len() as int));
                }
            } else {
                i = i + 1;
                proof {
                    assert(self.pending_operations@ =~= without_id(orig.subrange(0, j + 1), id) + orig.subrange(j + 1, orig.len() as int));
                }
            }
            proof {
                j = j + 1;
            }
        }
        proof {
            assert(j == orig.len());
            assert(orig.subrange(0, j) == orig);
            assert(self.pending_operations@ =~= without_id(orig, id));
        }
    }

    /// Marks the notification successful and stops polling it. Returns
    /// whether the sound policy asks for a beep.
    pub fn mark_success(&mut self, id: u128, now: u64) -> (beep: bool)
        ensures
            match find_id(old(self).notifications@, id) {
                None => *final(self) == *old(self) && !beep,
                Some(i) => if status_terminal(old(self).notifications@[i as int].status) {
                    *final(self) == *old(self) && !beep
                } else {
                    &&& final(self).notifications@ == old(self).notifications@.update(
                        i as int,
                        Notification {
                            status: NotificationStatus::Success,
                            completed_at_ms: Some(now),
                            ..old(self).notifications@[i as int]
                        },
                    )
                    &&& final(self).pending_operations@ == without_id(
                        old(self).pending_operations@,
                        id,
                    )
                    &&& final(self).last_toast_ms == Some(now)
                    &&& beep == (old(self).sound_config == SoundConfig::All)
                    &&& final(self).max_history == old(self).max_history
                    &&& final(self).toast_duration_ms == old(self).toast_duration_ms
                    &&& final(self).poll_interval_ms == old(self).poll_interval_ms
                    &&& final(self).detail_level == old(self).detail_level
                    &&& final(self).sound_config == old(self).sound_config
                    &&& final(self).auto_poll == old(self).auto_poll
                },
            },
    {
        match self.position(id) {
            None => false,
            Some(i) => {
                proof {
                    lemma_find_id_bound(old(self).notifications@, id);
                }
                if self.notifications[i].status.is_terminal() {
                    return false;
                }
                let mut n = self.notifications.remove(i);
                n.set_success(now);
                self.notifications.insert(i, n);
                proof {
                    assert(self.notifications@ =~= old(self).notifications@.update(i as int, n));
                }
                self.last_toast_ms = Some(now);
                self.stop_polling(id);
                self.sound_config == SoundConfig::All
            },
        }
    }

    /// Marks the notification failed with `error` and stops polling it.
    /// Returns whether the sound policy asks for a beep.
    pub fn mark_error(&mut self, id: u128, error: String, now: u64) -> (beep: bool)
        ensures
            match find_id(old(self).notifications@, id) {
                None => *final(self) == *old(self) && !beep,
                Some(i) => if status_terminal(old(self).notifications@[i as int].status) {
                    *final(self) == *old(self) && !beep
                } else {
                    &&& final(self).notifications@ == old(self).notifications@.update(
                        i as int,
                        Notification {
                            status: NotificationStatus::Error(error),
                            completed_at_ms: Some(now),
                            ..old(self).notifications@[i as int]
                        },
                    )
                    &&& final(self).pending_operations@ == without_id(
                        old(self).pending_operations@,
                        id,
                    )
                    &&& final(self).last_toast_ms == Some(now)
                    &&& beep == (old(self).sound_config != SoundConfig::Off)
                    &&& final(self).max_history == old(self).max_history
                    &&& final(self).toast_duration_ms == old(self).toast_duration_ms
                    &&& final(self).poll_interval_ms == old(self).poll_interval_ms
                    &&& final(self).detail_level == old(self).detail_level
                    &&& final(self).sound_config == old(self).sound_config
                    &&& final(self).auto_poll == old(self).auto_poll
                },
            },
    {
        match self.position(id) {
            None => false,
            Some(i) => {
                proof {
                    lemma_find_id_bound(old(self).notifications@, id);
                }
                if self.notifications[i].status.is_terminal() {
                    return false;
                }
                let mut n = self.notifications.remove(i);
                n.set_error(error, now);
                self.notifications.insert(i, n);
                proof {
                    assert(self.notifications@ =~= old(self).notifications@.update(i as int, n));
                }
                self.last_toast_ms = Some(now);
                self.stop_polling(id);
                self.sound_config != SoundConfig::Off
            },
        }
    }

    /// The toast: the most recent notification, while no more than the toast
    /// duration has passed since its last change.
    pub fn current_toast(&self, now: u64) -> (r: Option<&Notification>)
        ensures
            match self.last_toast_ms {
                Some(t) => if elapsed(now, t) > self.toast_duration_ms || self.notifications@.len()
                    == 0 {
                    r is None
                } else {
                    r == Some(&self.notifications@[0])
                },
                None => r is None,
            },
    {
        match self.last_toast_ms {
            Some(t) => {
                if elapsed_ms(now, t) > self.toast_duration_ms || self.notifications.len() == 0 {
                    None
                } else {
                    Some(&self.notifications[0])
                }
            },
            None => None,
        }
    }

    /// Number of notifications still pending or in progress.
    pub fn in_progress_count(&self) -> (r: usize)
        ensures
            r == self.notifications@.filter(|n: Notification| !status_terminal(n.status)).len(),
    {
        let mut c: usize = 0;
        let mut i: usize = 0;
        proof {
            reveal(Seq::filter);
        }
        while i < self.notifications.len()
            invariant
                i <= self.notifications@.len(),
                c == self.notifications@.subrange(0, i as int).filter(
                    |n: Notification| !status_terminal(n.status),
                ).len(),
                c <= i,
            decreases self.notifications@.len() - i,
        {
            proof {
                assert(self.notifications@.subrange(0, i as int + 1).drop_last()
                    == self.notifications@.subrange(0, i as int));
                reveal(Seq::filter);
            }
            if !self.notifications[i].status.is_terminal() {
                c = c + 1;
            }
            i = i + 1;
        }
        proof {
            assert(self.notifications@.subrange(0, i as int) == self.notifications@);
        }
        c
    }

    /// The operations due for a poll (at least the poll interval since the
    /// last one), each marked polled at `now`, as (notification id, reference).
    pub fn operations_to_poll(&mut self, now: u64) -> (r: Vec<(u128, String)>)
        ensures
            final(self).pending_operations@.len() == old(self).pending_operations@.len(),
            forall|j: int|
                0 <= j < old(self).pending_operations@.len() ==> {
                    let o = #[trigger] old(self).pending_operations@[j];
                    let f = final(self).pending_operations@[j];
                    &&& f.notification_id == o.notification_id
                    &&& f.operation_url == o.operation_url
                    &&& f.last_poll_ms == if elapsed(now, o.last_poll_ms) >= old(
                        self,
                    ).poll_interval_ms {
                        now
                    } else {
                        o.last_poll_ms
                    }
                },
            r@ == old(self).pending_operations@.filter(
                |o: PendingOperation| elapsed(now, o.last_poll_ms) >= old(self).poll_interval_ms,
            ).map_values(|o: PendingOperation| (o.notification_id, o.operation_url)),
            final(self).notifications == old(self).notifications,
            final(self).max_history == old(self).max_history,
            final(self).poll_interval_ms == old(self).poll_interval_ms,
            final(self).auto_poll == old(self).auto_poll,
            final(self).last_toast_ms == old(self).last_toast_ms,
    {
        let interval = self.poll_interval_ms;
        let ghost orig = self.pending_operations@;
        let ghost due = |o: PendingOperation| elapsed(now, o.last_poll_ms) >= interval;
        let mut out: Vec<(u128, String)> = Vec::new();
        let mut i: usize = 0;
        proof {
            reveal(Seq::filter);
        }
        while i < self.pending_operations.len()
            invariant
                self.pending_operations@.len() == orig.len(),
                orig == old(self).pending_operations@,
                interval == old(self).poll_interval_ms,
                due == (|o: PendingOperation| elapsed(now, o.last_poll_ms) >= interval),
                i <= orig.len(),
                self.notifications == old(self).notifications,
                self.max_history == old(self).max_history,
                self.poll_interval_ms == old(self).poll_interval_ms,
                self.auto_poll == old(self).auto_poll,
                self.last_toast_ms == old(self).last_toast_ms,
                forall|j: int|
                    i <= j < orig.len() ==> #[trigger] self.pending_operations@[j] == orig[j],
                forall|j: int|
                    0 <= j < i ==> {
                        let o = #[trigger] orig[j];
                        let f = self.pending_operations@[j];
                        &&& f.notification_id == o.notification_id
                        &&& f.operation_url == o.operation_url
                        &&& f.last_poll_ms == if elapsed(now, o.last_poll_ms) >= interval {
                            now
                        } else {
                            o.last_poll_ms
                        }
                    },
                out@ == orig.subrange(0, i as int).filter(due).map_values(
                    |o: PendingOperation| (o.notification_id, o.operation_url),
                ),
            decreases orig.len() - i,
        {
            proof {
                assert(orig.subrange(0, i as int + 1).drop_last() == orig.subrange(0, i as int));
                reveal(Seq::filter);
            }
            if self.pending_operations[i].should_poll(interval, now) {
                let mut op = self.pending_operations.remove(i);
                op.mark_polled(now);
                let entry = (op.notification_id, op.operation_url.clone());
                self.pending_operations.insert(i, op);
                out.push(entry);
                proof {
                    assert(orig.subrange(0, i as int + 1).filter(due) == orig.subrange(
                        0,
                        i as int,
                    ).filter(due).push(orig[i as int]));
                    assert(out@ =~= orig.subrange(0, i as int + 1).filter(due).map_values(
                        |o: PendingOperation| (o.notification_id, o.operation_url),
                    ));
                }
            } else {
                proof {
                    assert(orig.subrange(0, i as int + 1).filter(due) == orig.subrange(
                        0,
                        i as int,
                    ).filter(due));
                }
            }
            i = i + 1;
        }
        proof {
            assert(orig.subrange(0, i as int) == orig);
        }
        out
    }

    /// Forgets all notifications and stops all polling.
    pub fn clear(&mut self)
        ensures
            final(self).notifications@.len() == 0,
            final(self).pending_operations@.len() == 0,
            final(self).last_toast_ms is None,
            final(self).max_history == old(self).max_history,
            final(self).toast_duration_ms == old(self).toast_duration_ms,
            final(self).poll_interval_ms == old(self).poll_interval_ms,
            final(self).detail_level == old(self).detail_level,
            final(self).sound_config == old(self).sound_config,
            final(self).auto_poll == old(self).auto_poll,
    {
        self.notifications.clear();
        self.pending_operations.clear();
        self.last_toast_ms = None;
    }

    pub fn has_notifications(&self) -> (r: bool)
        ensures
            r == (self.notifications@.len() > 0),
    {
        self.notifications.len() > 0
    }

    /// Number of notifications created less than five minutes before `now`.
    pub fn recent_count(&self, now: u64) -> (r: usize)
        ensures
            r == self.notifications@.filter(
                |n: Notification| elapsed(now, n.created_at_ms) < RECENT_WINDOW_MS,
            ).len(),
    {
        let mut c: usize = 0;
        let mut i: usize = 0;
        proof {
            reveal(Seq::filter);
        }
        while i < self.notifications.len()
            invariant
                i <= self.notifications@.len(),
                c == self.notifications@.subrange(0, i as int).filter(
                    |n: Notification| elapsed(now, n.created_at_ms) < RECENT_WINDOW_MS,
                ).len(),
                c <= i,
            decreases self.notifications@.len() - i,
        {
            proof {
                assert(self.notifications@.subrange(0, i as int + 1).drop_last()
                    == self.notifications@.subrange(0, i as int));
                reveal(Seq::filter);
            }
            if elapsed_ms(now, self.notifications[i].created_at_ms) < RECENT_WINDOW_MS {
                c = c + 1;
            }
            i = i + 1;
        }
        proof {
            assert(self.notifications@.subrange(0, i as int) == self.notifications@);
        }
        c
    }
}

/// Width of the window `recent_count` looks at, in milliseconds.
pub const RECENT_WINDOW_MS: u64 = 300_000;

} // verus!
