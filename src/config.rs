//! User configuration held in memory: project, zone, theme, aliases, hidden
//! columns and notification tuning. Reading and writing the file is the
//! caller's business; a failed write leaves this state as it is.
use vstd::prelude::*;
use crate::notification::{
    detail_level_of, sound_config_of, DetailLevel, NotificationManager, SoundConfig,
};
use crate::shell::lower_of;
use crate::text::str_eq;

verus! {

/// The value of the first entry with this key.
pub open spec fn lookup(entries: Seq<(String, String)>, key: Seq<char>) -> Option<Seq<char>>
    decreases entries.len(),
{
    if entries.len() == 0 {
        None
    } else if entries[0].0@ == key {
        Some(entries[0].1@)
    } else {
        lookup(entries.drop_first(), key)
    }
}

fn find_entry<T>(entries: &Vec<(String, T)>, key: &str) -> (r: Option<usize>)
    ensures
        match r {
            Some(i) => i < entries@.len() && entries@[i as int].0@ == key@ && forall|j: int|
                0 <= j < i ==> #[trigger] entries@[j].0@ != key@,
            None => forall|j: int| 0 <= j < entries@.len() ==> #[trigger] entries@[j].0@ != key@,
        },
{
    let mut i: usize = 0;
    while i < entries.len()
        invariant
            i <= entries@.len(),
            forall|j: int| 0 <= j < i ==> #[trigger] entries@[j].0@ != key@,
        decreases entries@.len() - i,
    {
        if str_eq(entries[i].0.as_str(), key) {
            return Some(i);
        }
        i = i + 1;
    }
    None
}

proof fn lemma_lookup_at(entries: Seq<(String, String)>, key: Seq<char>, i: int)
    requires
        0 <= i < entries.len(),
        entries[i].0@ == key,
        forall|j: int| 0 <= j < i ==> #[trigger] entries[j].0@ != key,
    ensures
        lookup(entries, key) == Some(entries[i].1@),
    decreases i,
{
    if i > 0 {
        assert forall|j: int| 0 <= j < i - 1 implies #[trigger] entries.drop_first()[j].0@ != key by {
            assert(entries.drop_first()[j] == entries[j + 1]);
        }
        lemma_lookup_at(entries.drop_first(), key, i - 1);
    }
}

proof fn lemma_lookup_none(entries: Seq<(String, String)>, key: Seq<char>)
    requires
        forall|j: int| 0 <= j < entries.len() ==> #[trigger] entries[j].0@ != key,
    ensures
        lookup(entries, key) is None,
    decreases entries.len(),
{
    if entries.len() > 0 {
        assert forall|j: int| 0 <= j < entries.len() - 1 implies #[trigger] entries.drop_first()[j].0@ != key by {
            assert(entries.drop_first()[j] == entries[j + 1]);
        }
        lemma_lookup_none(entries.drop_first(), key);
    }
}

/// The value stored under `key`.
fn get_value<'a>(entries: &'a Vec<(String, String)>, key: &str) -> (r: Option<&'a String>)
    ensures
        match lookup(entries@, key@) {
            Some(v) => r is Some && r->0@ == v,
            None => r is None,
        },
{
    match find_entry(entries, key) {
        Some(i) => {
            proof {
                lemma_lookup_at(entries@, key@, i as int);
            }
            Some(&entries[i].1)
        },
        None => {
            proof {
                lemma_lookup_none(entries@, key@);
            }
            None
        },
    }
}

/// Stores `value` under `key`, replacing the first entry with that key.
fn put_value(entries: &mut Vec<(String, String)>, key: &str, value: &str)
    ensures
        lookup(final(entries)@, key@) == Some(value@),
        forall|k: Seq<char>| k != key@ ==> lookup(final(entries)@, k) == lookup(old(entries)@, k),
{
    match find_entry(entries, key) {
        Some(i) => {
            let k = entries[i].0.clone();
            let v = String::from_str(value);
            let ghost e = (k, v);
            entries.remove(i);
            entries.insert(i, (k, v));
            proof {
                assert(entries@ =~= old(entries)@.update(i as int, e));
                lemma_lookup_at(entries@, key@, i as int);
                assert forall|kk: Seq<char>| kk != key@ implies lookup(entries@, kk) == lookup(
                    old(entries)@,
                    kk,
                ) by {
                    lemma_lookup_update_other(old(entries)@, i as int, e, kk);
                }
            }
        },
        None => {
            let e = (String::from_str(key), String::from_str(value));
            let ghost ge = e;
            entries.push(e);
            proof {
                let n = old(entries)@.len() as int;
                assert forall|j: int| 0 <= j < n implies #[trigger] entries@[j].0@ != key@ by {
                    assert(entries@[j] == old(entries)@[j]);
                }
                lemma_lookup_at(entries@, key@, n);
                assert forall|kk: Seq<char>| kk != key@ implies lookup(entries@, kk) == lookup(
                    old(entries)@,
                    kk,
                ) by {
                    lemma_lookup_push_other(old(entries)@, ge, kk);
                }
            }
        },
    }
}

proof fn lemma_lookup_update_other(
    entries: Seq<(String, String)>,
    i: int,
    e: (String, String),
    k: Seq<char>,
)
    requires
        0 <= i < entries.len(),
        entries[i].0@ == e.0@,
        e.0@ != k,
    ensures
        lookup(entries.update(i, e), k) == lookup(entries, k),
    decreases entries.len(),
{
    if i > 0 {
        assert(entries.update(i, e).drop_first() =~= entries.drop_first().update(i - 1, e));
        lemma_lookup_update_other(entries.drop_first(), i - 1, e, k);
    } else {
        assert(entries.update(i, e).drop_first() =~= entries.drop_first());
    }
}

proof fn lemma_lookup_push_other(entries: Seq<(String, String)>, e: (String, String), k: Seq<char>)
    requires
        e.0@ != k,
    ensures
        lookup(entries.push(e), k) == lookup(entries, k),
    decreases entries.len(),
{
    if entries.len() > 0 {
        assert(entries.push(e).drop_first() =~= entries.drop_first().push(e));
        assert(entries.push(e)[0] == entries[0]);
        lemma_lookup_push_other(entries.drop_first(), e, k);
    } else {
        assert(entries.push(e)[0] == e);
        assert(entries.push(e).drop_first() =~= Seq::<(String, String)>::empty());
        assert(lookup(Seq::<(String, String)>::empty(), k) is None);
    }
}

/// Settings of the operation tracker.
pub struct NotificationConfig {
    pub enabled: bool,
    /// `minimal`, `detailed` or `verbose`.
    pub detail_level: String,
    pub toast_duration_secs: u64,
    pub max_history: usize,
    pub poll_interval_ms: u64,
    pub auto_poll: bool,
    /// `off`, `errors_only` or `all`.
    pub sound: String,
}

impl Default for NotificationConfig {
    fn default() -> (r: NotificationConfig)
        ensures
            r.enabled,
            r.detail_level@ == "detailed"@,
            r.toast_duration_secs == 5,
            r.max_history == 50,
            r.poll_interval_ms == 2000,
            r.auto_poll,
            r.sound@ == "off"@,
    {
        NotificationConfig {
            enabled: true,
            detail_level: String::from_str("detailed"),
            toast_duration_secs: 5,
            max_history: 50,
            poll_interval_ms: 2000,
            auto_poll: true,
            sound: String::from_str("off"),
        }
    }
}

/// Options of SSH sessions.
pub struct SshConfig {
    pub use_iap: bool,
    pub extra_args: Vec<String>,
}

/// The user's configuration.
pub struct Config {
    pub project_id: Option<String>,
    pub zone: Option<String>,
    pub last_resource: Option<String>,
    pub theme: Option<String>,
    /// Theme per project.
    pub project_themes: Vec<(String, String)>,
    /// Alias to resource key.
    pub aliases: Vec<(String, String)>,
    pub ssh: SshConfig,
    pub notifications: NotificationConfig,
    /// Hidden column headers per resource type.
    pub hidden_columns: Vec<(String, Vec<String>)>,
}

impl Config {
    /// An empty configuration with default notification settings.
    pub fn new() -> (r: Config)
        ensures
            r.project_id is None,
            r.zone is None,
            r.theme is None,
            r.aliases@.len() == 0,
            r.project_themes@.len() == 0,
            r.hidden_columns@.len() == 0,
            r.notifications.enabled,
            r.notifications.max_history == 50,
    {
        Config {
            project_id: None,
            zone: None,
            last_resource: None,
            theme: None,
            project_themes: Vec::new(),
            aliases: Vec::new(),
            ssh: SshConfig { use_iap: false, extra_args: Vec::new() },
            notifications: NotificationConfig::default(),
            hidden_columns: Vec::new(),
        }
    }

    /// The project to use: the configured one, else the local tooling's
    /// default, else empty.
    pub fn effective_project(&self, tool_default: Option<String>) -> (r: String)
        ensures
            r@ == match self.project_id {
                Some(p) => p@,
                None => match tool_default {
                    Some(d) => d@,
                    None => Seq::empty(),
                },
            },
    {
        match &self.project_id {
            Some(p) => p.clone(),
            None => match tool_default {
                Some(d) => d,
                None => String::new(),
            },
        }
    }

    /// The zone to use: the configured one, else the local tooling's
    /// default, else `us-central1-a`.
    pub fn effective_zone(&self, tool_default: Option<String>) -> (r: String)
        ensures
            r@ == match self.zone {
                Some(z) => z@,
                None => match tool_default {
                    Some(d) => d@,
                    None => "us-central1-a"@,
                },
            },
    {
        match &self.zone {
            Some(z) => z.clone(),
            None => match tool_default {
                Some(d) => d,
                None => String::from_str("us-central1-a"),
            },
        }
    }

    pub fn set_project(&mut self, project_id: &str)
        ensures
            final(self).project_id is Some && final(self).project_id->0@ == project_id@,
            *final(self) == (Config { project_id: final(self).project_id, ..*old(self) }),
    {
        self.project_id = Some(String::from_str(project_id));
    }

    pub fn set_zone(&mut self, zone: &str)
        ensures
            final(self).zone is Some && final(self).zone->0@ == zone@,
            *final(self) == (Config { zone: final(self).zone, ..*old(self) }),
    {
        self.zone = Some(String::from_str(zone));
    }

    pub fn set_theme(&mut self, theme: &str)
        ensures
            final(self).theme is Some && final(self).theme->0@ == theme@,
            *final(self) == (Config { theme: final(self).theme, ..*old(self) }),
    {
        self.theme = Some(String::from_str(theme));
    }

    /// The theme for a project: its own, else the configured one, else
    /// `default`.
    pub fn effective_theme(&self, project_id: &str) -> (r: String)
        ensures
            r@ == match lookup(self.project_themes@, project_id@) {
                Some(t) => t,
                None => match self.theme {
                    Some(t) => t@,
                    None => "default"@,
                },
            },
    {
        match get_value(&self.project_themes, project_id) {
            Some(t) => t.clone(),
            None => match &self.theme {
                Some(t) => t.clone(),
                None => String::from_str("default"),
            },
        }
    }

    /// Makes `alias` stand for `resource_key`.
    pub fn add_alias(&mut self, alias: &str, resource_key: &str)
        ensures
            lookup(final(self).aliases@, alias@) == Some(resource_key@),
            forall|k: Seq<char>| k != alias@ ==> lookup(final(self).aliases@, k) == lookup(old(self).aliases@, k),
            *final(self) == (Config { aliases: final(self).aliases, ..*old(self) }),
    {
        put_value(&mut self.aliases, alias, resource_key);
    }

    /// The resource key an alias stands for.
    pub fn resolve_alias(&self, alias: &str) -> (r: Option<&String>)
        ensures
            match lookup(self.aliases@, alias@) {
                Some(v) => r is Some && r->0@ == v,
                None => r is None,
            },
    {
        get_value(&self.aliases, alias)
    }

    /// The column headers hidden for a resource type; none by default.
    pub fn get_hidden_columns(&self, resource_key: &str) -> (r: Vec<String>)
        ensures
            match hidden_of(self.hidden_columns@, resource_key@) {
                Some(h) => r@ == h,
                None => r@.len() == 0,
            },
    {
        match find_entry(&self.hidden_columns, resource_key) {
            Some(i) => {
                proof {
                    lemma_hidden_at(self.hidden_columns@, resource_key@, i as int);
                }
                let src = &self.hidden_columns[i].1;
                let mut out: Vec<String> = Vec::new();
                let mut k: usize = 0;
                while k < src.len()
                    invariant
                        k <= src@.len(),
                        out@ == src@.subrange(0, k as int),
                    decreases src@.len() - k,
                {
                    out.push(src[k].clone());
                    proof {
                        assert(out@ =~= src@.subrange(0, k as int + 1));
                    }
                    k = k + 1;
                }
                proof {
                    assert(src@.subrange(0, src@.len() as int) =~= src@);
                }
                out
            },
            None => {
                proof {
                    lemma_hidden_none(self.hidden_columns@, resource_key@);
                }
                Vec::new()
            },
        }
    }

    /// Records the hidden column headers of a resource type; an empty list
    /// removes its entry.
    pub fn set_hidden_columns(&mut self, resource_key: &str, hidden: Vec<String>)
        ensures
            hidden@.len() == 0 ==> hidden_of(final(self).hidden_columns@, resource_key@) is None
                || hidden_of(final(self).hidden_columns@, resource_key@) == Some(Seq::<String>::empty()),
            hidden@.len() > 0 ==> hidden_of(final(self).hidden_columns@, resource_key@) == Some(hidden@),
            forall|k: Seq<char>|
                k != resource_key@ ==> hidden_of(final(self).hidden_columns@, k) == hidden_of(
                    old(self).hidden_columns@,
                    k,
                ),
            *final(self) == (Config { hidden_columns: final(self).hidden_columns, ..*old(self) }),
    {
        match find_entry(&self.hidden_columns, resource_key) {
            Some(i) => {
                let (k, _) = self.hidden_columns.remove(i);
                let ghost gk = k;
                let v = if hidden.len() == 0 {
                    Vec::new()
                } else {
                    hidden
                };
                let ghost e = (k, v);
                self.hidden_columns.insert(i, (k, v));
                proof {
                    assert(self.hidden_columns@ =~= old(self).hidden_columns@.update(i as int, e));
                    assert forall|kk: Seq<char>| kk != resource_key@ implies hidden_of(self.hidden_columns@, kk)
                        == hidden_of(old(self).hidden_columns@, kk) by {
                        lemma_hidden_update_other(old(self).hidden_columns@, i as int, e, kk);
                    }
                    assert forall|j: int| 0 <= j < i implies #[trigger] self.hidden_columns@[j].0@ != resource_key@ by {
                        assert(self.hidden_columns@[j] == old(self).hidden_columns@[j]);
                    }
                    lemma_hidden_at(self.hidden_columns@, resource_key@, i as int);
                }
            },
            None => {
                if hidden.len() > 0 {
                    let e = (String::from_str(resource_key), hidden);
                    let ghost ge = e;
                    self.hidden_columns.push(e);
                    proof {
                        assert forall|kk: Seq<char>| kk != resource_key@ implies hidden_of(self.hidden_columns@, kk)
                            == hidden_of(old(self).hidden_columns@, kk) by {
                            lemma_hidden_push_other(old(self).hidden_columns@, ge, kk);
                        }
                        let n = old(self).hidden_columns@.len() as int;
                        assert forall|j: int| 0 <= j < n implies #[trigger] self.hidden_columns@[j].0@
                            != resource_key@ by {
                            assert(self.hidden_columns@[j] == old(self).hidden_columns@[j]);
                        }
                        lemma_hidden_at(self.hidden_columns@, resource_key@, n);
                    }
                } else {
                    proof {
                        lemma_hidden_none(self.hidden_columns@, resource_key@);
                    }
                }
            },
        }
    }
}

proof fn lemma_hidden_update_other(
    entries: Seq<(String, Vec<String>)>,
    i: int,
    e: (String, Vec<String>),
    k: Seq<char>,
)
    requires
        0 <= i < entries.len(),
        entries[i].0@ == e.0@,
        e.0@ != k,
    ensures
        hidden_of(entries.update(i, e), k) == hidden_of(entries, k),
    decreases entries.len(),
{
    if i > 0 {
        assert(entries.update(i, e).drop_first() =~= entries.drop_first().update(i - 1, e));
        lemma_hidden_update_other(entries.drop_first(), i - 1, e, k);
    } else {
        assert(entries.update(i, e).drop_first() =~= entries.drop_first());
    }
}

proof fn lemma_hidden_push_other(entries: Seq<(String, Vec<String>)>, e: (String, Vec<String>), k: Seq<char>)
    requires
        e.0@ != k,
    ensures
        hidden_of(entries.push(e), k) == hidden_of(entries, k),
    decreases entries.len(),
{
    if entries.len() > 0 {
        assert(entries.push(e).drop_first() =~= entries.drop_first().push(e));
        assert(entries.push(e)[0] == entries[0]);
        lemma_hidden_push_other(entries.drop_first(), e, k);
    } else {
        assert(entries.push(e)[0] == e);
        assert(entries.push(e).drop_first() =~= Seq::<(String, Vec<String>)>::empty());
        assert(hidden_of(Seq::<(String, Vec<String>)>::empty(), k) is None);
        assert(entries =~= Seq::<(String, Vec<String>)>::empty());
    }
}

/// The hidden headers recorded first for this resource type.
pub open spec fn hidden_of(entries: Seq<(String, Vec<String>)>, key: Seq<char>) -> Option<Seq<String>>
    decreases entries.len(),
{
    if entries.len() == 0 {
        None
    } else if entries[0].0@ == key {
        Some(entries[0].1@)
    } else {
        hidden_of(entries.drop_first(), key)
    }
}

proof fn lemma_hidden_at(entries: Seq<(String, Vec<String>)>, key: Seq<char>, i: int)
    requires
        0 <= i < entries.len(),
        entries[i].0@ == key,
        forall|j: int| 0 <= j < i ==> #[trigger] entries[j].0@ != key,
    ensures
        hidden_of(entries, key) == Some(entries[i].1@),
    decreases i,
{
    if i > 0 {
        assert forall|j: int| 0 <= j < i - 1 implies #[trigger] entries.drop_first()[j].0@ != key by {
            assert(entries.drop_first()[j] == entries[j + 1]);
        }
        lemma_hidden_at(entries.drop_first(), key, i - 1);
    }
}

proof fn lemma_hidden_none(entries: Seq<(String, Vec<String>)>, key: Seq<char>)
    requires
        forall|j: int| 0 <= j < entries.len() ==> #[trigger] entries[j].0@ != key,
    ensures
        hidden_of(entries, key) is None,
    decreases entries.len(),
{
    if entries.len() > 0 {
        assert forall|j: int| 0 <= j < entries.len() - 1 implies #[trigger] entries.drop_first()[j].0@ != key by {
            assert(entries.drop_first()[j] == entries[j + 1]);
        }
        lemma_hidden_none(entries.drop_first(), key);
    }
}

/// `secs` seconds in milliseconds, saturating.
pub open spec fn secs_to_ms(secs: u64) -> u64 {
    if secs <= u64::MAX / 1000 {
        (secs * 1000) as u64
    } else {
        u64::MAX
    }
}

impl NotificationManager {
    /// Takes over the tracker settings of a configuration.
    pub fn configure(&mut self, cfg: &NotificationConfig)
        ensures
            final(self).detail_level == detail_level_of(lower_of(cfg.detail_level@)),
            final(self).sound_config == sound_config_of(lower_of(cfg.sound@)),
            final(self).toast_duration_ms == secs_to_ms(cfg.toast_duration_secs),
            final(self).max_history == cfg.max_history,
            final(self).poll_interval_ms == cfg.poll_interval_ms,
            final(self).auto_poll == cfg.auto_poll,
            final(self).notifications == old(self).notifications,
            final(self).pending_operations == old(self).pending_operations,
            final(self).last_toast_ms == old(self).last_toast_ms,
    {
        self.detail_level = DetailLevel::from_str(cfg.detail_level.as_str());
        self.toast_duration_ms = if cfg.toast_duration_secs <= u64::MAX / 1000 {
            cfg.toast_duration_secs * 1000
        } else {
            u64::MAX
        };
        self.max_history = cfg.max_history;
        self.poll_interval_ms = cfg.poll_interval_ms;
        self.auto_poll = cfg.auto_poll;
        self.sound_config = SoundConfig::from_str(cfg.sound.as_str());
    }
}

} // verus!
