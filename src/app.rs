//! The application state machine: modes, navigation stack, filter and sort,
//! multi-selection and virtual scrolling over the fetched records.
//!
//! `filtered` holds indices into `items`: the derived view is rebuilt, never
//! edited in place, whenever the filter, the sort or the items change.
use vstd::prelude::*;
use std::collections::HashSet;
use crate::config::{lookup, Config};
use crate::json::{field_text, extract_json_value, Record};
use crate::notification::{
    find_id, lemma_created_notification_kept, lemma_find_id_bound, lemma_trimmed_len, NotificationManager,
    NotificationStatus, OperationType,
};
use crate::operation::OperationStatus;
use crate::registry::{ActionDef, ActionKind};
use crate::text::{decimal_of, format_decimal};
use crate::pagination::PaginationState;
use crate::registry::{Registry, ResourceDef};
use crate::shell::{lower_of, lowercase};
use crate::sort::{sort_positions, sort_strings, sorted_positions_spec, distinct_below};
use crate::text::{contains_seq, str_contains, str_eq};

verus! {

broadcast use vstd::std_specs::hash::group_hash_axioms;

/// What the screen is showing.
#[derive(Debug, Clone, Copy, PartialEq, Eq, Structural)]
pub enum Mode {
    Normal,
    Command,
    Help,
    Confirm,
    Warning,
    Projects,
    Zones,
    Describe,
    Notifications,
    ColumnConfig,
}

/// Default number of rows shown before the first frame reports the real one.
pub const DEFAULT_VIEWPORT_HEIGHT: usize = 20;

/// Rows kept between the cursor and the edge of the viewport.
pub const SCROLL_MARGIN: usize = 2;

/// A filter handed to a listing call: a parameter and its accepted values.
pub struct ResourceFilter {
    pub param: String,
    pub values: Vec<String>,
}

impl ResourceFilter {
    pub fn new(param: &str, values: Vec<String>) -> (r: ResourceFilter)
        ensures
            r.param@ == param@,
            r.values == values,
    {
        ResourceFilter { param: String::from_str(param), values }
    }
}

/// A listing to fetch: the caller runs it and hands the outcome back with
/// the same generation.
pub struct FetchRequest {
    pub generation: u64,
    pub resource_key: String,
    pub filters: Vec<ResourceFilter>,
    pub page_token: Option<String>,
}

pub open spec fn next_generation(g: u64) -> u64 {
    if g < u64::MAX {
        (g + 1) as u64
    } else {
        0
    }
}

fn bump_generation(g: u64) -> (r: u64)
    ensures
        r == next_generation(g),
{
    if g < u64::MAX {
        g + 1
    } else {
        0
    }
}

/// What the remote side answered to a mutating call on one target.
pub enum ActionOutcome {
    /// Done at once.
    Completed,
    /// Accepted: the operation with this reference is still running.
    Started { operation_url: String },
    /// Refused, with the error's text.
    Failed { error: String },
}

/// What recording one outcome produced.
pub struct ActionReport {
    pub succeeded: bool,
    /// The sound policy asks for a beep.
    pub beep: bool,
}

/// What applying a poll result asks of the caller.
pub struct PollEffect {
    /// Refresh the displayed list.
    pub refresh: bool,
    /// The sound policy asks for a beep.
    pub beep: bool,
}

/// What the caller does after an action was invoked.
pub enum ActionStart {
    /// Nothing to act on.
    Nothing,
    /// Read-only mode: a warning is shown instead.
    Refused,
    /// A confirmation is awaited.
    Confirm,
    /// Run the shell action on this resource.
    Shell { resource_id: String },
    /// Make the mutating call on these targets now, in order, and record
    /// each outcome.
    Execute { service: String, sdk_method: String, resource_ids: Vec<String> },
}

/// A notification records the outcome of an action on `target`.
pub open spec fn outcome_recorded(n: crate::notification::Notification, target: Seq<char>, outcome: ActionOutcome) -> bool {
    &&& n.resource_id@ == target
    &&& match outcome {
        ActionOutcome::Completed => n.status is Success,
        ActionOutcome::Started { operation_url } => n.status is InProgress && n.operation_url == Some(
            operation_url,
        ),
        ActionOutcome::Failed { error } => n.status is Error,
    }
}

/// The status line after a bulk action.
pub open spec fn bulk_summary(succeeded: nat, failed: nat, total: nat) -> Seq<char> {
    decimal_of(succeeded) + " succeeded, "@ + decimal_of(failed) + " failed of "@
        + decimal_of(total)
}

/// A parsed command line.
pub enum Command {
    Empty,
    Quit,
    Back,
    Projects,
    Zones,
    Notifications,
    ClearNotifications,
    Zone(String),
    Project(String),
    /// Switch to the named theme, or list the themes.
    Theme(Option<String>),
    Alias { alias: String, resource_key: String },
    /// Anything else: an alias or a resource key.
    Resource(String),
}

/// What the caller does after a command ran.
pub enum CommandEffect {
    Nothing,
    Quit,
    /// Fetch this listing.
    Fetch(FetchRequest),
    /// Point the client at this zone, then refresh.
    SwitchZone(String),
    /// Point the client at this project, then refresh.
    SwitchProject(String),
    SetTheme(String),
    ListThemes,
}

pub open spec fn is_space(c: char) -> bool {
    c == ' ' || c == '\t' || c == '\n' || c == '\r'
}

/// The words of a line: maximal runs of non-space characters, in order.
pub open spec fn words_of(s: Seq<char>) -> Seq<Seq<char>>
    decreases s.len(),
{
    if s.len() == 0 {
        Seq::empty()
    } else {
        let w = words_of(s.drop_last());
        let c = s.last();
        if is_space(c) {
            w
        } else if s.len() >= 2 && !is_space(s[s.len() - 2]) && w.len() > 0 {
            w.update(w.len() - 1, w.last().push(c))
        } else {
            w.push(seq![c])
        }
    }
}

/// Which command a list of words is.
pub enum CommandKind {
    Empty,
    Quit,
    Back,
    Projects,
    Zones,
    Notifications,
    ClearNotifications,
    Zone,
    Project,
    Theme,
    Alias,
    Resource,
}

pub open spec fn parse_spec(w: Seq<Seq<char>>) -> CommandKind {
    if w.len() == 0 {
        CommandKind::Empty
    } else if w[0] == "q"@ || w[0] == "quit"@ {
        CommandKind::Quit
    } else if w[0] == "back"@ {
        CommandKind::Back
    } else if w[0] == "projects"@ {
        CommandKind::Projects
    } else if w[0] == "zones"@ {
        CommandKind::Zones
    } else if w[0] == "notifications"@ {
        if w.len() > 1 && w[1] == "clear"@ {
            CommandKind::ClearNotifications
        } else {
            CommandKind::Notifications
        }
    } else if w[0] == "zone"@ && w.len() > 1 {
        CommandKind::Zone
    } else if w[0] == "project"@ && w.len() > 1 {
        CommandKind::Project
    } else if w[0] == "theme"@ {
        CommandKind::Theme
    } else if w[0] == "alias"@ && w.len() >= 3 {
        CommandKind::Alias
    } else {
        CommandKind::Resource
    }
}

pub open spec fn kind_of(c: Command) -> CommandKind {
    match c {
        Command::Empty => CommandKind::Empty,
        Command::Quit => CommandKind::Quit,
        Command::Back => CommandKind::Back,
        Command::Projects => CommandKind::Projects,
        Command::Zones => CommandKind::Zones,
        Command::Notifications => CommandKind::Notifications,
        Command::ClearNotifications => CommandKind::ClearNotifications,
        Command::Zone(_) => CommandKind::Zone,
        Command::Project(_) => CommandKind::Project,
        Command::Theme(_) => CommandKind::Theme,
        Command::Alias { .. } => CommandKind::Alias,
        Command::Resource(_) => CommandKind::Resource,
    }
}

fn is_space_exec(c: char) -> (r: bool)
    ensures
        r == is_space(c),
{
    c == ' ' || c == '\t' || c == '\n' || c == '\r'
}

/// Splits a line into its words.
pub fn split_words(line: &str) -> (r: Vec<String>)
    ensures
        r@.map_values(|s: String| s@) == words_of(line@),
{
    let n = line.unicode_len();
    let mut out: Vec<String> = Vec::new();
    let mut i: usize = 0;
    proof {
        assert(line@.subrange(0, 0) =~= Seq::<char>::empty());
        assert(out@.map_values(|s: String| s@) =~= Seq::<Seq<char>>::empty());
    }
    while i < n
        invariant
            n == line@.len(),
            i <= n,
            out@.map_values(|s: String| s@) == words_of(line@.subrange(0, i as int)),
        decreases n - i,
    {
        let c = line.get_char(i);
        let ghost before = out@.map_values(|s: String| s@);
        proof {
            let pre = line@.subrange(0, i as int + 1);
            assert(pre.drop_last() =~= line@.subrange(0, i as int));
            assert(pre.last() == c);
            if i >= 1 {
                assert(pre[pre.len() - 2] == line@[i - 1]);
            }
        }
        if !is_space_exec(c) {
            let continues = i >= 1 && !is_space_exec(line.get_char(i - 1)) && out.len() > 0;
            if continues {
                let last = out.len() - 1;
                let mut w = out.remove(last);
                w.push(c);
                out.push(w);
                proof {
                    assert(out@.map_values(|s: String| s@) =~= before.update(
                        before.len() - 1,
                        before.last().push(c),
                    ));
                }
            } else {
                let mut w = String::new();
                w.push(c);
                out.push(w);
                proof {
                    assert(out@.map_values(|s: String| s@) =~= before.push(seq![c]));
                }
            }
        }
        i = i + 1;
    }
    proof {
        assert(line@.subrange(0, n as int) =~= line@);
    }
    out
}

/// Reads the words of a command line as a command.
pub fn parse_command(words: &Vec<String>) -> (r: Command)
    ensures
        kind_of(r) == parse_spec(words@.map_values(|s: String| s@)),
        match r {
            Command::Zone(z) => z@ == words@[1]@,
            Command::Project(p) => p@ == words@[1]@,
            Command::Theme(t) => match t {
                Some(name) => words@.len() > 1 && name@ == words@[1]@,
                None => words@.len() <= 1,
            },
            Command::Alias { alias, resource_key } => alias@ == words@[1]@ && resource_key@ == words@[2]@,
            Command::Resource(name) => name@ == words@[0]@,
            _ => true,
        },
{
    let ghost w = words@.map_values(|s: String| s@);
    if words.len() == 0 {
        return Command::Empty;
    }
    assert(w[0] == words@[0]@);
    let cmd = words[0].as_str();
    if str_eq(cmd, "q") || str_eq(cmd, "quit") {
        Command::Quit
    } else if str_eq(cmd, "back") {
        Command::Back
    } else if str_eq(cmd, "projects") {
        Command::Projects
    } else if str_eq(cmd, "zones") {
        Command::Zones
    } else if str_eq(cmd, "notifications") {
        if words.len() > 1 && str_eq(words[1].as_str(), "clear") {
            assert(w[1] == words@[1]@);
            Command::ClearNotifications
        } else {
            proof {
                if words@.len() > 1 {
                    assert(w[1] == words@[1]@);
                }
            }
            Command::Notifications
        }
    } else if str_eq(cmd, "zone") && words.len() > 1 {
        Command::Zone(words[1].clone())
    } else if str_eq(cmd, "project") && words.len() > 1 {
        Command::Project(words[1].clone())
    } else if str_eq(cmd, "theme") {
        if words.len() > 1 {
            Command::Theme(Some(words[1].clone()))
        } else {
            Command::Theme(None)
        }
    } else if str_eq(cmd, "alias") && words.len() >= 3 {
        Command::Alias { alias: words[1].clone(), resource_key: words[2].clone() }
    } else {
        Command::Resource(words[0].clone())
    }
}

/// A key, as the terminal reports it.
#[derive(Debug, Clone, Copy, PartialEq, Eq, Structural)]
pub enum KeyCode {
    Char(char),
    Enter,
    Esc,
    Backspace,
    Left,
    Right,
    Up,
    Down,
    Home,
    End,
    PageUp,
    PageDown,
    Delete,
    Tab,
    F(u8),
    Other,
}

/// A key press with its modifiers.
#[derive(Debug, Clone, Copy, PartialEq, Eq, Structural)]
pub struct Key {
    pub code: KeyCode,
    pub shift: bool,
    pub ctrl: bool,
}

/// What the caller does after a key in the list view.
pub enum KeyEffect {
    Nothing,
    Quit,
    /// Fetch this listing.
    Fetch(FetchRequest),
    /// An action was invoked.
    Action(ActionStart),
    /// Open the command line (with the themes and aliases the caller knows).
    OpenCommandLine,
    /// Open the column overlay (with the caller's configuration).
    OpenColumnConfig,
}

/// What the caller does after any key.
pub enum KeyOutcome {
    Nothing,
    Quit,
    /// Fetch this listing.
    Fetch(FetchRequest),
    /// An action was invoked from the list view.
    Action(ActionStart),
    /// The user accepted this pending action: run it.
    Confirmed(PendingAction),
    /// Run this command line.
    RunCommand(String),
    /// A project was picked.
    ProjectPicked(String),
    /// A zone was picked.
    ZonePicked(String),
    /// Open the command line.
    OpenCommandLine,
    /// Open the column overlay.
    OpenColumnConfig,
}

/// What the status line shows, by priority: the latest error, else the
/// toast, else the loading indicator.
pub enum StatusLine {
    Error(String),
    Toast(String),
    Loading,
    Empty,
}

/// Two presses of `g` within this many milliseconds go to the top.
pub const DOUBLE_KEY_TIMEOUT_MS: u64 = 1000;

/// Rows moved by a page key.
pub const PAGE_SCROLL_SIZE: usize = 10;

/// Lines the detail view is taken to show at once.
pub const DESCRIBE_PAGE: usize = 30;

fn add_capped(a: usize, b: usize) -> (r: usize)
    ensures
        r == if a + b <= usize::MAX {
            (a + b) as usize
        } else {
            usize::MAX
        },
{
    if a <= usize::MAX - b {
        a + b
    } else {
        usize::MAX
    }
}

/// An ancestor in the drill-down path.
pub struct ParentContext {
    pub resource_key: String,
    pub display_name: String,
    /// The filter that scopes the child listing to this parent, when the
    /// parent record holds the value it needs.
    pub filter: Option<(String, String)>,
    /// The parent record itself.
    pub item: Record,
}

/// A confirmed action waiting for the user's answer.
pub struct PendingAction {
    pub service: String,
    pub sdk_method: String,
    /// One target, or several for a bulk action.
    pub resource_ids: Vec<String>,
    pub message: String,
    pub destructive: bool,
    pub selected_yes: bool,
}

/// Column of the column configuration overlay.
pub struct ColumnConfigItem {
    pub header: String,
    pub visible: bool,
}

/// State of the column configuration overlay.
pub struct ColumnConfigState {
    pub columns: Vec<ColumnConfigItem>,
    pub selected: usize,
}

/// Central application state.
pub struct App {
    pub current_resource_key: String,
    pub items: Vec<Record>,
    /// Indices into `items` of the records shown, in display order.
    pub filtered: Vec<usize>,
    pub selected: usize,
    pub mode: Mode,
    pub filter_text: String,
    pub filter_active: bool,
    pub parent_context: Option<ParentContext>,
    pub navigation_stack: Vec<ParentContext>,
    pub project: String,
    pub zone: String,
    pub available_projects: Vec<String>,
    pub available_zones: Vec<String>,
    pub projects_filtered: Vec<String>,
    pub zones_filtered: Vec<String>,
    pub projects_selected: usize,
    pub zones_selected: usize,
    pub projects_search_text: String,
    pub zones_search_text: String,
    pub sort_column: Option<usize>,
    pub sort_ascending: bool,
    pub pending_action: Option<PendingAction>,
    pub loading: bool,
    pub error_message: Option<String>,
    pub warning_message: Option<String>,
    pub describe_scroll: usize,
    pub readonly: bool,
    pub pagination: PaginationState,
    pub notification_manager: NotificationManager,
    pub notifications_enabled: bool,
    pub notifications_selected: usize,
    pub viewport_height: usize,
    pub scroll_offset: usize,
    /// Positions in `filtered` that are selected for a bulk action.
    pub selected_indices: HashSet<usize>,
    pub visual_mode: bool,
    pub column_config_state: Option<ColumnConfigState>,
    pub command_text: String,
    pub command_suggestions: Vec<String>,
    pub command_suggestion_selected: usize,
    pub command_preview: Option<String>,
    /// When `g` was last pressed, waiting for a second one.
    pub last_g_press_ms: Option<u64>,
    /// Bumped on every change of the listed resource; a fetch result that
    /// carries an older value is discarded.
    pub generation: u64,
}

/// The field paths of the declared columns.
pub open spec fn column_paths(def: ResourceDef) -> Seq<Seq<char>> {
    def.columns@.map_values(|c: crate::registry::ColumnDef| c.json_path@)
}

/// Whether a record matches a lower-case filter: some declared column's
/// displayed text, lower-cased, holds it; with no declared type, the
/// record's lower-cased textual form holds it.
pub open spec fn record_matches(rec: Record, paths: Option<Seq<Seq<char>>>, f: Seq<char>) -> bool {
    match paths {
        Some(ps) => exists|k: int|
            0 <= k < ps.len() && match field_text(rec.value, #[trigger] ps[k]) {
                Some(t) => contains_seq(lower_of(t), f),
                None => false,
            },
        None => contains_seq(lower_of(rec.text@), f),
    }
}

/// Indices below `n` of the records that match, in order.
pub open spec fn matching(items: Seq<Record>, paths: Option<Seq<Seq<char>>>, f: Seq<char>, n: nat) -> Seq<usize>
    decreases n,
{
    if n == 0 {
        Seq::empty()
    } else {
        let p = matching(items, paths, f, (n - 1) as nat);
        if record_matches(items[n - 1], paths, f) {
            p.push((n - 1) as usize)
        } else {
            p
        }
    }
}

/// The indices `0..n`.
pub open spec fn all_indices(n: nat) -> Seq<usize> {
    Seq::new(n, |i: int| i as usize)
}

/// The filtered view: every record for an empty filter, else the matching
/// ones in their fetched order.
pub open spec fn filter_view(items: Seq<Record>, paths: Option<Seq<Seq<char>>>, f: Seq<char>) -> Seq<usize> {
    if f.len() == 0 {
        all_indices(items.len())
    } else {
        matching(items, paths, f, items.len())
    }
}

/// The column paths of the resource type `key`, if the registry declares it.
pub open spec fn paths_of(reg: Registry, key: Seq<char>) -> Option<Seq<Seq<char>>> {
    match reg.resource_spec(key) {
        Some(d) => Some(column_paths(d)),
        None => None,
    }
}

/// Whether a record matches a lower-case filter, given the column paths of
/// its type, if any.
fn record_matches_exec(rec: &Record, def: Option<&ResourceDef>, f: &str) -> (r: bool)
    ensures
        r == record_matches(
            *rec,
            match def {
                Some(d) => Some(column_paths(*d)),
                None => None,
            },
            f@,
        ),
{
    match def {
        Some(d) => {
            let ghost ps = column_paths(*d);
            let mut k: usize = 0;
            while k < d.columns.len()
                invariant
                    def == Some(d),
                    ps == column_paths(*d),
                    k <= d.columns@.len(),
                    forall|j: int|
                        0 <= j < k ==> !match field_text(rec.value, #[trigger] ps[j]) {
                            Some(t) => contains_seq(lower_of(t), f@),
                            None => false,
                        },
                decreases d.columns@.len() - k,
            {
                assert(ps[k as int] == d.columns@[k as int].json_path@);
                match extract_json_value(&rec.value, d.columns[k].json_path.as_str()) {
                    Some(t) => {
                        let l = lowercase(t.as_str());
                        if str_contains(l.as_str(), f) {
                            proof {
                                assert(field_text(rec.value, ps[k as int]) == Some(t@));
                                assert(0 <= k < ps.len() && match field_text(rec.value, ps[k as int]) {
                                    Some(t) => contains_seq(lower_of(t), f@),
                                    None => false,
                                });
                                assert(record_matches(*rec, Some(ps), f@));
                            }
                            return true;
                        }
                    },
                    None => {},
                }
                k = k + 1;
            }
            false
        },
        None => {
            let l = lowercase(rec.text.as_str());
            str_contains(l.as_str(), f)
        },
    }
}

/// `selected`, one step towards `len - 1`.
pub open spec fn step_down(sel: nat, by: nat, len: nat) -> nat {
    if len == 0 {
        sel
    } else if sel + by < len - 1 {
        sel + by
    } else {
        (len - 1) as nat
    }
}

/// `selected` moved up by `by`, not below 0.
pub open spec fn step_up(sel: nat, by: nat) -> nat {
    if sel >= by {
        (sel - by) as nat
    } else {
        0
    }
}

fn down_by(sel: usize, by: usize, len: usize) -> (r: usize)
    ensures
        r == step_down(sel as nat, by as nat, len as nat),
{
    if len == 0 {
        sel
    } else if by < len && sel < len - 1 - by {
        sel + by
    } else {
        len - 1
    }
}

fn up_by(sel: usize, by: usize) -> (r: usize)
    ensures
        r == step_up(sel as nat, by as nat),
{
    if sel >= by {
        sel - by
    } else {
        0
    }
}

/// Where `ensure_visible` puts the scroll offset.
/// The margin a viewport of `height` rows can keep: `SCROLL_MARGIN`, less
/// when fewer than `2 * SCROLL_MARGIN + 1` rows are shown.
pub open spec fn margin_for(height: nat) -> nat {
    if height >= 2 * SCROLL_MARGIN + 1 {
        SCROLL_MARGIN as nat
    } else if height >= 1 {
        ((height - 1) / 2) as nat
    } else {
        0
    }
}

fn margin_for_exec(height: usize) -> (r: usize)
    ensures
        r == margin_for(height as nat),
{
    if height >= 2 * SCROLL_MARGIN + 1 {
        SCROLL_MARGIN
    } else if height >= 1 {
        (height - 1) / 2
    } else {
        0
    }
}

pub open spec fn scrolled(sel: nat, offset: nat, height: nat, total: nat) -> nat {
    if total == 0 {
        0
    } else {
        let m = margin_for(height);
        let o = if sel < offset + m {
            step_up(sel, m)
        } else if sel >= offset + step_up(height, m) {
            step_up(sel, step_up(height, m + 1))
        } else {
            offset
        };
        let max_offset = step_up(total, height);
        if o < max_offset {
            o
        } else {
            max_offset
        }
    }
}

impl App {
    /// The state on start-up: the first resource type, its first page of
    /// records, nothing filtered, sorted or selected.
    pub fn new(
        resource_key: String,
        project: String,
        zone: String,
        available_projects: Vec<String>,
        available_zones: Vec<String>,
        items: Vec<Record>,
        readonly: bool,
    ) -> (r: App)
        ensures
            r.wf(),
            r.current_resource_key == resource_key,
            r.items == items,
            r.filtered@ == all_indices(items@.len()),
            r.mode == Mode::Normal,
            r.selected == 0,
            r.filter_text@.len() == 0,
            r.selected_indices@.len() == 0,
            r.pagination@ == crate::pagination::first_page(),
            r.readonly == readonly,
            r.notifications_enabled,
    {
        let n = items.len();
        let mut filtered: Vec<usize> = Vec::new();
        let mut i: usize = 0;
        while i < n
            invariant
                i <= n,
                filtered@ == all_indices(i as nat),
            decreases n - i,
        {
            filtered.push(i);
            proof {
                assert(filtered@ =~= all_indices(i as nat + 1));
            }
            i = i + 1;
        }
        let projects_filtered = clone_strings(&available_projects);
        let zones_filtered = clone_strings(&available_zones);
        App {
            current_resource_key: resource_key,
            items,
            filtered,
            selected: 0,
            mode: Mode::Normal,
            filter_text: String::new(),
            filter_active: false,
            parent_context: None,
            navigation_stack: Vec::new(),
            project,
            zone,
            available_projects,
            available_zones,
            projects_filtered,
            zones_filtered,
            projects_selected: 0,
            zones_selected: 0,
            projects_search_text: String::new(),
            zones_search_text: String::new(),
            sort_column: None,
            sort_ascending: true,
            pending_action: None,
            loading: false,
            error_message: None,
            warning_message: None,
            describe_scroll: 0,
            readonly,
            pagination: PaginationState::new(),
            notification_manager: NotificationManager::new(),
            notifications_enabled: true,
            notifications_selected: 0,
            viewport_height: DEFAULT_VIEWPORT_HEIGHT,
            scroll_offset: 0,
            selected_indices: HashSet::new(),
            visual_mode: false,
            column_config_state: None,
            command_text: String::new(),
            command_suggestions: Vec::new(),
            command_suggestion_selected: 0,
            command_preview: None,
            last_g_press_ms: None,
            generation: 0,
        }
    }

    /// Well-formedness: the view points into the items, the cursor and the
    /// selection point into the view, the viewport has at least one row.
    pub open spec fn wf(&self) -> bool {
        &&& forall|k: int| 0 <= k < self.filtered@.len() ==> #[trigger] self.filtered@[k] < self.items@.len()
        &&& (self.filtered@.len() > 0 ==> self.selected < self.filtered@.len())
        &&& forall|i: usize| #[trigger] self.selected_indices@.contains(i) ==> i < self.filtered@.len()
        &&& self.viewport_height >= 1
        &&& self.pagination.wf()
    }

    /// Number of records in the view.
    pub fn filtered_len(&self) -> (r: usize)
        ensures
            r == self.filtered@.len(),
    {
        self.filtered.len()
    }

    /// The record at a position of the view.
    pub fn filtered_item(&self, pos: usize) -> (r: Option<&Record>)
        requires
            self.wf(),
        ensures
            pos < self.filtered@.len() ==> r == Some(&self.items@[self.filtered@[pos as int] as int]),
            pos >= self.filtered@.len() ==> r is None,
    {
        if pos < self.filtered.len() {
            Some(&self.items[self.filtered[pos]])
        } else {
            None
        }
    }

    /// The record under the cursor.
    pub fn selected_item(&self) -> (r: Option<&Record>)
        requires
            self.wf(),
        ensures
            self.selected < self.filtered@.len() ==> r == Some(
                &self.items@[self.filtered@[self.selected as int] as int],
            ),
            self.selected >= self.filtered@.len() ==> r is None,
    {
        self.filtered_item(self.selected)
    }

    /// Rebuilds the view from the items and the filter text (matched
    /// case-insensitively against every declared column of the current
    /// type), keeps the cursor in range, clears the selection, and re-applies
    /// an active sort.
    pub fn apply_filter(&mut self, reg: &Registry)
        requires
            old(self).wf(),
            reg.wf(),
        ensures
            final(self).wf(),
            old(self).sort_column is None ==> final(self).filtered@ == filter_view(
                old(self).items@,
                paths_of(*reg, old(self).current_resource_key@),
                lower_of(old(self).filter_text@),
            ),
            old(self).sort_column is Some ==> is_permutation_of(
                final(self).filtered@,
                filter_view(
                    old(self).items@,
                    paths_of(*reg, old(self).current_resource_key@),
                    lower_of(old(self).filter_text@),
                ),
            ),
            final(self).filtered@ == view_after_sort(
                old(self).items@,
                filter_view(
                    old(self).items@,
                    paths_of(*reg, old(self).current_resource_key@),
                    lower_of(old(self).filter_text@),
                ),
                reg.resource_spec(old(self).current_resource_key@),
                old(self).sort_column,
                old(self).sort_ascending,
            ),
            final(self).filtered@.len() == 0 ==> final(self).selected == old(self).selected,
            old(self).filter_text@.len() == 0 && old(self).sort_column is None ==> final(self).filtered@
                == all_indices(old(self).items@.len()),
            final(self).selected_indices@.len() == 0,
            final(self).scroll_offset == 0,
            final(self).items == old(self).items,
            final(self).current_resource_key == old(self).current_resource_key,
            final(self).filter_text == old(self).filter_text,
            final(self).filter_active == old(self).filter_active,
            final(self).mode == old(self).mode,
            final(self).sort_column == old(self).sort_column,
            final(self).sort_ascending == old(self).sort_ascending,
            final(self).pagination == old(self).pagination,
            final(self).generation == old(self).generation,
            final(self).viewport_height == old(self).viewport_height,
            final(self).parent_context == old(self).parent_context,
            final(self).navigation_stack == old(self).navigation_stack,
            final(self).notification_manager == old(self).notification_manager,
            final(self).pending_action == old(self).pending_action,
            old(self).selected < final(self).filtered@.len() ==> final(self).selected == old(self).selected,
            old(self).selected >= final(self).filtered@.len() && final(self).filtered@.len() > 0
                ==> final(self).selected == final(self).filtered@.len() - 1,
    {
        let f = lowercase(self.filter_text.as_str());
        let def = reg.get_resource(self.current_resource_key.as_str());
        let ghost paths = paths_of(*reg, self.current_resource_key@);
        assert(paths == match def {
            Some(d) => Some(column_paths(*d)),
            None => None::<Seq<Seq<char>>>,
        });
        let n = self.items.len();
        let mut view: Vec<usize> = Vec::new();
        let empty = f.as_str().unicode_len() == 0;
        let mut i: usize = 0;
        while i < n
            invariant
                n == self.items@.len(),
                i <= n,
                self == old(self),
                paths == match def {
                    Some(d) => Some(column_paths(*d)),
                    None => None::<Seq<Seq<char>>>,
                },
                empty == (f@.len() == 0),
                f@ == lower_of(self.filter_text@),
                empty ==> view@ == all_indices(i as nat),
                !empty ==> view@ == matching(self.items@, paths, f@, i as nat),
                forall|k: int| 0 <= k < view@.len() ==> #[trigger] view@[k] < i,
            decreases n - i,
        {
            if empty {
                view.push(i);
                proof {
                    assert(view@ =~= all_indices(i as nat + 1));
                }
            } else if record_matches_exec(&self.items[i], def, f.as_str()) {
                view.push(i);
            }
            i = i + 1;
        }
        self.filtered = view;
        let len = self.filtered.len();
        if self.selected >= len && len > 0 {
            self.selected = len - 1;
        }
        self.selected_indices.clear();
        self.scroll_offset = 0;
        if self.sort_column.is_some() {
            proof {
                lemma_permutation_refl(self.filtered@);
            }
            self.apply_sort(reg);
        }
    }

    /// Clears the filter text and rebuilds the view.
    pub fn clear_filter(&mut self, reg: &Registry)
        requires
            old(self).wf(),
            reg.wf(),
        ensures
            final(self).wf(),
            final(self).filter_text@.len() == 0,
            !final(self).filter_active,
            final(self).sort_column is None ==> final(self).filtered@ == all_indices(old(self).items@.len()),
            final(self).selected_indices@.len() == 0,
    {
        self.filter_text = String::new();
        self.filter_active = false;
        self.apply_filter(reg);
    }

    // ----- navigation and fetching -----

    /// What switching the listed resource resets: cursor, filter, selection,
    /// scroll position and pagination; older fetches become stale.
    pub open spec fn view_reset(&self, old_app: &App) -> bool {
        &&& self.cursor_reset(old_app)
        &&& self.items == old_app.items
        &&& self.filtered == old_app.filtered
    }

    /// What every change of the listed resource resets, the records aside.
    pub open spec fn cursor_reset(&self, old_app: &App) -> bool {
        &&& self.selected == 0
        &&& self.filter_text@.len() == 0
        &&& !self.filter_active
        &&& self.selected_indices@ == Set::<usize>::empty()
        &&& !self.visual_mode
        &&& self.scroll_offset == 0
        &&& self.pagination@ == crate::pagination::first_page()
        &&& self.generation == next_generation(old_app.generation)
        &&& self.notification_manager == old_app.notification_manager
    }

    fn reset_view(&mut self)
        requires
            old(self).wf(),
        ensures
            final(self).view_reset(old(self)),
            final(self).current_resource_key == old(self).current_resource_key,
            final(self).parent_context == old(self).parent_context,
            final(self).navigation_stack == old(self).navigation_stack,
            final(self).mode == old(self).mode,
            final(self).error_message == old(self).error_message,
            final(self).viewport_height == old(self).viewport_height,
            final(self).items == old(self).items,
            final(self).filtered == old(self).filtered,
    {
        self.selected = 0;
        self.filter_text = String::new();
        self.filter_active = false;
        self.selected_indices.clear();
        self.visual_mode = false;
        self.scroll_offset = 0;
        self.pagination.reset();
        self.generation = bump_generation(self.generation);
    }

    /// The filters that scope the current listing to its parent record.
    pub fn build_filters_from_context(&self) -> (r: Vec<ResourceFilter>)
        ensures
            match self.parent_context {
                Some(p) => match p.filter {
                    Some((param, value)) => r@.len() == 1 && r@[0].param@ == param@ && r@[0].values@.len()
                        == 1 && r@[0].values@[0]@ == value@,
                    None => r@.len() == 0,
                },
                None => r@.len() == 0,
            },
    {
        let mut out: Vec<ResourceFilter> = Vec::new();
        match &self.parent_context {
            Some(p) => match &p.filter {
                Some((param, value)) => {
                    let mut values: Vec<String> = Vec::new();
                    values.push(value.clone());
                    out.push(ResourceFilter::new(param.as_str(), values));
                },
                None => {},
            },
            None => {},
        }
        out
    }

    /// The request for one page of the current listing.
    pub fn fetch_request(&self, page_token: Option<String>) -> (r: FetchRequest)
        ensures
            r.generation == self.generation,
            r.resource_key == self.current_resource_key,
            r.page_token == page_token,
            match self.parent_context {
                Some(p) => match p.filter {
                    Some((param, value)) => r.filters@.len() == 1 && r.filters@[0].param@ == param@
                        && r.filters@[0].values@.len() == 1 && r.filters@[0].values@[0]@ == value@,
                    None => r.filters@.len() == 0,
                },
                None => r.filters@.len() == 0,
            },
    {
        FetchRequest {
            generation: self.generation,
            resource_key: self.current_resource_key.clone(),
            filters: self.build_filters_from_context(),
            page_token,
        }
    }

    /// The request that fetches the current page again.
    pub fn refresh_request(&self) -> (r: FetchRequest)
        ensures
            r.generation == self.generation,
            r.resource_key == self.current_resource_key,
            r.page_token == self.pagination.current_token,
    {
        let token = match &self.pagination.current_token {
            Some(t) => Some(t.clone()),
            None => None,
        };
        self.fetch_request(token)
    }

    /// Switches to the resource type `resource_key` at top level. An unknown
    /// key only sets the error message. Returns the listing to fetch.
    pub fn navigate_to_resource(&mut self, reg: &Registry, resource_key: &str) -> (r: Option<FetchRequest>)
        requires
            old(self).wf(),
            reg.wf(),
        ensures
            final(self).wf(),
            reg.resource_spec(resource_key@) is None ==> r is None && final(self).error_message is Some
                && final(self).current_resource_key == old(self).current_resource_key
                && final(self).items == old(self).items && final(self).filtered == old(self).filtered
                && final(self).selected == old(self).selected && final(self).pagination
                == old(self).pagination,
            reg.resource_spec(resource_key@) is Some ==> {
                &&& r is Some
                &&& final(self).current_resource_key@ == resource_key@
                &&& final(self).parent_context is None
                &&& final(self).navigation_stack@.len() == 0
                &&& final(self).mode == Mode::Normal
                &&& final(self).view_reset(old(self))
                &&& r->0.generation == final(self).generation
                &&& r->0.resource_key@ == resource_key@
                &&& r->0.page_token is None
            },
    {
        if reg.get_resource(resource_key).is_none() {
            let mut m = String::from_str("Unknown resource: ");
            m.append(resource_key);
            self.error_message = Some(m);
            return None;
        }
        self.parent_context = None;
        self.navigation_stack = Vec::new();
        self.current_resource_key = String::from_str(resource_key);
        self.mode = Mode::Normal;
        self.reset_view();
        Some(self.fetch_request(None))
    }

    /// Drills from the record under the cursor into its sub-resource
    /// `sub_key`: the current parent goes onto the stack and the record
    /// becomes the new parent. Needs a record under the cursor and a declared
    /// sub-resource; an undeclared one only sets the error message.
    pub fn navigate_to_sub_resource(&mut self, reg: &Registry, sub_key: &str) -> (r: Option<FetchRequest>)
        requires
            old(self).wf(),
            reg.wf(),
        ensures
            final(self).wf(),
            r is None ==> final(self).current_resource_key == old(self).current_resource_key
                && final(self).items == old(self).items && final(self).filtered == old(self).filtered
                && final(self).selected == old(self).selected && final(self).navigation_stack
                == old(self).navigation_stack && final(self).pagination == old(self).pagination,
            (old(self).filtered@.len() == 0 || reg.resource_spec(old(self).current_resource_key@) is None)
                ==> r is None,
            ({
                let def = reg.resource_spec(old(self).current_resource_key@);
                old(self).filtered@.len() > 0 && def is Some ==> (r is Some <==> exists|i: int|
                    0 <= i < def->0.sub_resources@.len() && #[trigger] def->0.sub_resources@[i].resource_key@
                        == sub_key@)
            }),
            r is Some ==> {
                let d = reg.resource_spec(old(self).current_resource_key@)->0;
                let rec = old(self).items@[old(self).filtered@[old(self).selected as int] as int].value;
                let p = final(self).parent_context->0;
                &&& p.display_name@ == match field_text(rec, d.name_field@) {
                    Some(nm) => nm,
                    None => match field_text(rec, d.id_field@) {
                        Some(id) => id,
                        None => "-"@,
                    },
                }
                &&& exists|j: int|
                    0 <= j < d.sub_resources@.len() && #[trigger] d.sub_resources@[j].resource_key@ == sub_key@
                        && match field_text(rec, d.sub_resources@[j].parent_id_field@) {
                        Some(v) => p.filter is Some && (p.filter->0).0@ == d.sub_resources@[j].filter_param@
                            && (p.filter->0).1@ == v,
                        None => p.filter is None,
                    }
            },
            r is Some ==> {
                &&& final(self).current_resource_key@ == sub_key@
                &&& final(self).parent_context is Some
                &&& final(self).parent_context->0.resource_key == old(self).current_resource_key
                &&& final(self).navigation_stack@ == match old(self).parent_context {
                    Some(p) => old(self).navigation_stack@.push(p),
                    None => old(self).navigation_stack@,
                }
                &&& final(self).cursor_reset(old(self))
                &&& final(self).items@.len() == 0
                &&& final(self).filtered@.len() == 0
                &&& final(self).parent_context->0.item == old(self).items@[old(self).filtered@[old(self).selected as int] as int]
                &&& r->0.generation == final(self).generation
                &&& r->0.resource_key@ == sub_key@
                &&& r->0.page_token is None
            },
    {
        if self.filtered.len() == 0 {
            return None;
        }
        let def = match reg.get_resource(self.current_resource_key.as_str()) {
            Some(d) => d,
            None => {
                return None;
            },
        };
        let sub = match def.sub_resource(sub_key) {
            Some(sd) => sd,
            None => {
                let mut m = String::from_str(sub_key);
                m.append(" is not a sub-resource of ");
                m.append(self.current_resource_key.as_str());
                self.error_message = Some(m);
                return None;
            },
        };
        proof {
            let i = choose|i: int| 0 <= i < def.sub_resources@.len() && def.sub_resources@[i] == *sub;
            assert(def.sub_resources@[i].resource_key@ == sub_key@);
            assert(reg.resource_spec(old(self).current_resource_key@) == Some(*def));
            assert(reg.resource_spec(old(self).current_resource_key@)->0.sub_resources@[i].resource_key@ == sub_key@);
        }
        let rec = &self.items[self.filtered[self.selected]];
        let display = match extract_json_value(&rec.value, def.name_field.as_str()) {
            Some(n) => n,
            None => match extract_json_value(&rec.value, def.id_field.as_str()) {
                Some(i) => i,
                None => String::from_str("-"),
            },
        };
        let filter = match extract_json_value(&rec.value, sub.parent_id_field.as_str()) {
            Some(v) => Some((sub.filter_param.clone(), v)),
            None => None,
        };
        let idx = self.filtered[self.selected];
        self.filtered = Vec::new();
        self.selected = 0;
        self.selected_indices.clear();
        let item = self.items.remove(idx);
        self.items = Vec::new();
        let parent = ParentContext {
            resource_key: self.current_resource_key.clone(),
            display_name: display,
            filter,
            item,
        };
        let previous = self.parent_context.take();
        match previous {
            Some(p) => {
                self.navigation_stack.push(p);
            },
            None => {},
        }
        self.parent_context = Some(parent);
        self.current_resource_key = String::from_str(sub_key);
        self.reset_view();
        Some(self.fetch_request(None))
    }

    /// Goes back up one level: the parent's resource type is listed again and
    /// the newest stacked ancestor becomes the parent. At top level nothing
    /// happens.
    pub fn navigate_back(&mut self) -> (r: Option<FetchRequest>)
        requires
            old(self).wf(),
        ensures
            final(self).wf(),
            old(self).parent_context is None ==> r is None && final(self).current_resource_key
                == old(self).current_resource_key && final(self).navigation_stack
                == old(self).navigation_stack && final(self).pagination == old(self).pagination,
            old(self).parent_context is Some ==> {
                &&& r is Some
                &&& final(self).current_resource_key == old(self).parent_context->0.resource_key
                &&& final(self).navigation_stack@ == if old(self).navigation_stack@.len() > 0 {
                    old(self).navigation_stack@.drop_last()
                } else {
                    old(self).navigation_stack@
                }
                &&& final(self).parent_context == if old(self).navigation_stack@.len() > 0 {
                    Some(old(self).navigation_stack@.last())
                } else {
                    None
                }
                &&& final(self).view_reset(old(self))
                &&& r->0.generation == final(self).generation
                &&& r->0.resource_key == final(self).current_resource_key
                &&& r->0.page_token is None
            },
    {
        let current = self.parent_context.take();
        match current {
            Some(parent) => {
                self.parent_context = self.navigation_stack.pop();
                self.current_resource_key = parent.resource_key;
                self.reset_view();
                Some(self.fetch_request(None))
            },
            None => None,
        }
    }

    /// The path shown in the header: `key:name` of each ancestor, then the
    /// current resource key.
    pub fn get_breadcrumb(&self) -> (r: Vec<String>)
        ensures
            r@.len() == self.navigation_stack@.len() + (if self.parent_context is Some {
                1int
            } else {
                0int
            }) + 1,
            forall|k: int|
                0 <= k < self.navigation_stack@.len() ==> #[trigger] r@[k]@ == crumb(self.navigation_stack@[k]),
            self.parent_context is Some ==> r@[self.navigation_stack@.len() as int]@ == crumb(
                self.parent_context->0,
            ),
            r@.last()@ == self.current_resource_key@,
    {
        let mut out: Vec<String> = Vec::new();
        let mut i: usize = 0;
        while i < self.navigation_stack.len()
            invariant
                i <= self.navigation_stack@.len(),
                out@.len() == i,
                forall|k: int| 0 <= k < i ==> #[trigger] out@[k]@ == crumb(self.navigation_stack@[k]),
            decreases self.navigation_stack@.len() - i,
        {
            out.push(crumb_exec(&self.navigation_stack[i]));
            i = i + 1;
        }
        match &self.parent_context {
            Some(p) => {
                out.push(crumb_exec(p));
            },
            None => {},
        }
        out.push(self.current_resource_key.clone());
        out
    }

    /// Starts fetching the next page, if there is one.
    pub fn next_page(&mut self) -> (r: Option<FetchRequest>)
        requires
            old(self).wf(),
            old(self).pagination.current_page < usize::MAX,
        ensures
            final(self).wf(),
            final(self).pagination@ == crate::pagination::advanced(old(self).pagination@),
            old(self).pagination.has_more ==> r is Some && r->0.page_token == old(self).pagination.next_token
                && final(self).loading,
            !old(self).pagination.has_more ==> r is None,
            final(self).items == old(self).items,
            final(self).filtered == old(self).filtered,
            final(self).generation == old(self).generation,
    {
        match self.pagination.next_page() {
            Some(token) => {
                self.loading = true;
                Some(self.fetch_request(token))
            },
            None => None,
        }
    }

    /// Starts fetching the previous page, unless on the first.
    pub fn prev_page(&mut self) -> (r: Option<FetchRequest>)
        requires
            old(self).wf(),
        ensures
            final(self).wf(),
            final(self).pagination@ == crate::pagination::went_back(old(self).pagination@),
            old(self).pagination.current_page > 1 ==> r is Some && r->0.page_token
                == old(self).pagination.token_stack@.last() && final(self).loading,
            old(self).pagination.current_page <= 1 ==> r is None && *final(self) == *old(self),
            final(self).items == old(self).items,
            final(self).filtered == old(self).filtered,
            final(self).generation == old(self).generation,
    {
        match self.pagination.prev_page() {
            Some(token) => {
                self.loading = true;
                Some(self.fetch_request(token))
            },
            None => None,
        }
    }

    /// Applies the outcome of a fetch made for `generation`. A result for an
    /// older generation is dropped (returns false). A page replaces the items
    /// and rebuilds the view, keeping the cursor if still in range; a failure
    /// shows the formatted error and empties the list.
    pub fn apply_fetch_result(
        &mut self,
        reg: &Registry,
        generation: u64,
        result: Result<(Vec<Record>, Option<String>), String>,
    ) -> (applied: bool)
        requires
            old(self).wf(),
            reg.wf(),
        ensures
            final(self).wf(),
            applied == (generation == old(self).generation),
            !applied ==> final(self).items == old(self).items && final(self).filtered == old(self).filtered
                && final(self).pagination == old(self).pagination,
            applied ==> !final(self).loading,
            applied ==> match result {
                Ok((items, next)) => {
                    &&& final(self).items == items
                    &&& final(self).error_message is None
                    &&& final(self).pagination@ == crate::pagination::with_result(
                        old(self).pagination@,
                        crate::pagination::token_view(next),
                    )
                    &&& old(self).sort_column is None ==> final(self).filtered@ == filter_view(
                        items@,
                        paths_of(*reg, old(self).current_resource_key@),
                        lower_of(old(self).filter_text@),
                    )
                    &&& old(self).filter_text@.len() == 0 && old(self).sort_column is None ==> final(self).filtered@
                        == all_indices(items@.len())
                    &&& final(self).selected == if old(self).selected < final(self).filtered@.len() {
                        old(self).selected
                    } else {
                        0
                    }
                },
                Err(e) => {
                    &&& final(self).items@.len() == 0
                    &&& final(self).filtered@.len() == 0
                    &&& final(self).selected == 0
                    &&& final(self).pagination@ == crate::pagination::first_page()
                    &&& final(self).error_message is Some
                    &&& final(self).error_message->0@ == crate::transport::error_text_message(e@)
                },
            },
    {
        if generation != self.generation {
            return false;
        }
        match result {
            Ok((items, next)) => {
                let prev_selected = self.selected;
                self.items = items;
                self.filtered = Vec::new();
                self.selected = 0;
                self.selected_indices.clear();
                self.apply_filter(reg);
                self.pagination.apply_result(next);
                if prev_selected < self.filtered.len() {
                    self.selected = prev_selected;
                } else {
                    self.selected = 0;
                }
                self.error_message = None;
            },
            Err(e) => {
                self.error_message = Some(crate::transport::format_gcp_error(e.as_str()));
                self.items = Vec::new();
                self.filtered = Vec::new();
                self.selected = 0;
                self.selected_indices.clear();
                self.scroll_offset = 0;
                self.pagination.reset();
            },
        }
        self.loading = false;
        true
    }

    // ----- notifications and actions -----

    /// The listing, the cursor and the fetch bookkeeping are those of `old_app`.
    pub open spec fn same_listing(&self, old_app: &App) -> bool {
        &&& self.items == old_app.items
        &&& self.filtered == old_app.filtered
        &&& self.selected == old_app.selected
        &&& self.current_resource_key == old_app.current_resource_key
        &&& self.pagination == old_app.pagination
        &&& self.generation == old_app.generation
        &&& self.viewport_height == old_app.viewport_height
        &&& self.notifications_enabled == old_app.notifications_enabled
    }

    /// Creates the notification of an action on `resource_id`; returns its
    /// id, or 0 when notifications are off.
    pub fn create_operation_notification(
        &mut self,
        sdk_method: &str,
        resource_type: &str,
        resource_id: &str,
        now: u64,
    ) -> (id: u128)
        requires
            old(self).wf(),
        ensures
            final(self).wf(),
            final(self).same_listing(old(self)),
            final(self).selected_indices == old(self).selected_indices,
            final(self).error_message == old(self).error_message,
            final(self).mode == old(self).mode,
            final(self).pending_action == old(self).pending_action,
            old(self).notifications_enabled && old(self).notification_manager.notifications@.len() + 1
                <= old(self).notification_manager.max_history ==> final(self).notification_manager.notifications@.subrange(
                1,
                final(self).notification_manager.notifications@.len() as int,
            ) == old(self).notification_manager.notifications@,
            !old(self).notifications_enabled ==> id == 0 && final(self).notification_manager
                == old(self).notification_manager,
            old(self).notifications_enabled ==> {
                let m = final(self).notification_manager;
                let o = old(self).notification_manager;
                &&& id != 0
                &&& m.notifications@.len() == if o.notifications@.len() + 1 > o.max_history {
                    o.max_history as int
                } else {
                    o.notifications@.len() + 1int
                }
                &&& m.max_history == o.max_history
                &&& m.auto_poll == o.auto_poll
                &&& m.sound_config == o.sound_config
                &&& o.max_history >= 1 ==> find_id(m.notifications@, id) == Some(0nat)
                    && m.notifications@[0].status is Pending && m.notifications@[0].resource_id@
                    == resource_id@ && m.notifications@[0].resource_type@ == resource_type@
            },
    {
        if !self.notifications_enabled {
            return 0;
        }
        let op = OperationType::from_method(sdk_method);
        let ghost before = self.notification_manager.notifications@;
        let rt = String::from_str(resource_type);
        let ri = String::from_str(resource_id);
        let ghost grt = rt;
        let ghost gri = ri;
        let ghost gop = op;
        let id = self.notification_manager.create_notification(op, rt, ri, now);
        proof {
            let created = crate::notification::Notification {
                id,
                operation_type: gop,
                resource_type: grt,
                resource_id: gri,
                status: NotificationStatus::Pending,
                message: None,
                operation_url: None,
                created_at_ms: now,
                completed_at_ms: None,
            };
            lemma_trimmed_len(seq![created] + before, old(self).notification_manager.max_history as nat);
            if before.len() + 1 <= old(self).notification_manager.max_history {
                assert((seq![created] + before).subrange(1, before.len() as int + 1) =~= before);
            }
            if old(self).notification_manager.max_history >= 1 {
                lemma_created_notification_kept(
                    created,
                    before,
                    old(self).notification_manager.max_history as nat,
                );
            }
        }
        id
    }

    /// Records what the remote side answered to an action on one target:
    /// creates its notification, then marks it successful (done at once),
    /// in progress (an operation to poll was started) or failed (the
    /// formatted error also goes to the status line).
    pub fn record_action_outcome(
        &mut self,
        service: &str,
        sdk_method: &str,
        resource_id: &str,
        outcome: ActionOutcome,
        now: u64,
    ) -> (report: ActionReport)
        requires
            old(self).wf(),
        ensures
            final(self).wf(),
            final(self).same_listing(old(self)),
            final(self).selected_indices == old(self).selected_indices,
            final(self).mode == old(self).mode,
            final(self).pending_action == old(self).pending_action,
            old(self).notifications_enabled && old(self).notification_manager.notifications@.len() + 1
                <= old(self).notification_manager.max_history ==> final(self).notification_manager.notifications@.subrange(
                1,
                final(self).notification_manager.notifications@.len() as int,
            ) == old(self).notification_manager.notifications@,
            report.succeeded == !(outcome is Failed),
            final(self).notification_manager.max_history == old(self).notification_manager.max_history,
            old(self).notifications_enabled ==> final(self).notification_manager.notifications@.len()
                == if old(self).notification_manager.notifications@.len() + 1
                > old(self).notification_manager.max_history {
                old(self).notification_manager.max_history as int
            } else {
                old(self).notification_manager.notifications@.len() + 1int
            },
            !old(self).notifications_enabled ==> final(self).notification_manager
                == old(self).notification_manager,
            old(self).notifications_enabled && old(self).notification_manager.max_history >= 1
                ==> outcome_recorded(final(self).notification_manager.notifications@[0], resource_id@, outcome),
            match outcome {
                ActionOutcome::Failed { error } => final(self).error_message is Some
                    && final(self).error_message->0@ == crate::transport::error_text_message(error@),
                _ => final(self).error_message == old(self).error_message,
            },
    {
        let id = self.create_operation_notification(sdk_method, service, resource_id, now);
        proof {
            lemma_find_id_bound(self.notification_manager.notifications@, id);
        }
        let succeeded = match &outcome {
            ActionOutcome::Failed { .. } => false,
            _ => true,
        };
        let mut beep = false;
        match outcome {
            ActionOutcome::Completed => {
                if id != 0 {
                    self.notification_manager.mark_in_progress(id, None, now);
                    proof {
                        lemma_find_id_bound(self.notification_manager.notifications@, id);
                    }
                    beep = self.notification_manager.mark_success(id, now);
                }
            },
            ActionOutcome::Started { operation_url } => {
                if id != 0 {
                    self.notification_manager.mark_in_progress(id, Some(operation_url), now);
                }
            },
            ActionOutcome::Failed { error } => {
                let msg = crate::transport::format_gcp_error(error.as_str());
                let shown = msg.clone();
                if id != 0 {
                    beep = self.notification_manager.mark_error(id, msg, now);
                }
                self.error_message = Some(shown);
            },
        }
        ActionReport { succeeded, beep }
    }

    /// Records the outcomes of a bulk action, one per target in order (each
    /// target gets its own notification; partial success is expected), sets
    /// the summary `k succeeded, f failed of n` on the status
    /// line, clears the selection, and returns `k`.
    pub fn record_bulk_outcomes(
        &mut self,
        service: &str,
        sdk_method: &str,
        resource_ids: &Vec<String>,
        outcomes: Vec<ActionOutcome>,
        now: u64,
    ) -> (succeeded: usize)
        requires
            old(self).wf(),
            resource_ids@.len() == outcomes@.len(),
        ensures
            final(self).wf(),
            final(self).same_listing(old(self)),
            succeeded == outcomes@.filter(|o: ActionOutcome| !(o is Failed)).len(),
            succeeded <= resource_ids@.len(),
            final(self).selected_indices@ == Set::<usize>::empty(),
            !final(self).visual_mode,
            final(self).error_message is Some,
            final(self).error_message->0@ == bulk_summary(
                succeeded as nat,
                (resource_ids@.len() - succeeded) as nat,
                resource_ids@.len(),
            ),
            final(self).notification_manager.max_history == old(self).notification_manager.max_history,
            old(self).notifications_enabled && old(self).notification_manager.notifications@.len()
                + resource_ids@.len() <= old(self).notification_manager.max_history
                ==> final(self).notification_manager.notifications@.len()
                == old(self).notification_manager.notifications@.len() + resource_ids@.len(),
            !old(self).notifications_enabled ==> final(self).notification_manager
                == old(self).notification_manager,
            final(self).mode == old(self).mode,
            final(self).pending_action == old(self).pending_action,
            old(self).notifications_enabled && old(self).notification_manager.notifications@.len()
                + resource_ids@.len() <= old(self).notification_manager.max_history ==> {
                let ns = final(self).notification_manager.notifications@;
                let n = resource_ids@.len() as int;
                &&& forall|j: int|
                    0 <= j < n ==> #[trigger] outcome_recorded(ns[n - 1 - j], resource_ids@[j]@, outcomes@[j])
                &&& ns.subrange(n, ns.len() as int) == old(self).notification_manager.notifications@
            },
    {
        let n = resource_ids.len();
        let ghost all = outcomes@;
        let mut rest = outcomes;
        let mut k: usize = 0;
        let mut i: usize = 0;
        proof {
            reveal(Seq::filter);
            assert(all.subrange(0, 0) =~= Seq::<ActionOutcome>::empty());
            assert(rest@ =~= all.subrange(0, all.len() as int));
        }
        while i < n
            invariant
                n == resource_ids@.len(),
                n == all.len(),
                i <= n,
                rest@ == all.subrange(i as int, n as int),
                k == all.subrange(0, i as int).filter(|o: ActionOutcome| !(o is Failed)).len(),
                k <= i,
                self.wf(),
                self.same_listing(old(self)),
                self.notification_manager.max_history == old(self).notification_manager.max_history,
                old(self).notifications_enabled && old(self).notification_manager.notifications@.len() + n
                    <= old(self).notification_manager.max_history
                    ==> self.notification_manager.notifications@.len()
                    == old(self).notification_manager.notifications@.len() + i,
                !old(self).notifications_enabled ==> self.notification_manager
                    == old(self).notification_manager,
                self.mode == old(self).mode,
                self.pending_action == old(self).pending_action,
                old(self).notifications_enabled && old(self).notification_manager.notifications@.len() + n
                    <= old(self).notification_manager.max_history ==> {
                    let ns = self.notification_manager.notifications@;
                    &&& forall|j: int|
                        0 <= j < i ==> #[trigger] outcome_recorded(ns[i - 1 - j], resource_ids@[j]@, all[j])
                    &&& ns.subrange(i as int, ns.len() as int) == old(self).notification_manager.notifications@
                },
            decreases n - i,
        {
            let o = rest.remove(0);
            proof {
                assert(o == all[i as int]);
                assert(rest@ =~= all.subrange(i as int + 1, n as int));
                assert(all.subrange(0, i as int + 1).drop_last() =~= all.subrange(0, i as int));
                assert(all.subrange(0, i as int + 1).last() == o);
                reveal(Seq::filter);
            }
            let ghost prev = self.notification_manager.notifications@;
            let report = self.record_action_outcome(
                service,
                sdk_method,
                resource_ids[i].as_str(),
                o,
                now,
            );
            proof {
                if old(self).notifications_enabled && old(self).notification_manager.notifications@.len() + n
                    <= old(self).notification_manager.max_history {
                    let ns = self.notification_manager.notifications@;
                    assert(ns.subrange(1, ns.len() as int) == prev);
                    assert forall|j: int| 0 <= j < i + 1 implies #[trigger] outcome_recorded(
                        ns[i + 1 - 1 - j],
                        resource_ids@[j]@,
                        all[j],
                    ) by {
                        if j < i {
                            assert(ns[i - j] == ns.subrange(1, ns.len() as int)[i - 1 - j]);
                        }
                    }
                    assert(ns.subrange(i as int + 1, ns.len() as int) =~= prev.subrange(
                        i as int,
                        prev.len() as int,
                    ));
                }
            }
            if report.succeeded {
                k = k + 1;
            }
            i = i + 1;
        }
        proof {
            assert(all.subrange(0, n as int) =~= all);
        }
        let mut m = format_decimal(k as u64);
        m.append(" succeeded, ");
        let fs = format_decimal((n - k) as u64);
        m.append(fs.as_str());
        m.append(" failed of ");
        let ns = format_decimal(n as u64);
        m.append(ns.as_str());
        self.error_message = Some(m);
        self.clear_selection();
        k
    }

    /// Invokes an action from the current view. Nothing is executed here:
    /// the result says whether a confirmation is now awaited, or which calls
    /// the caller must make (their outcomes are then recorded). Read-only
    /// mode refuses remote actions with a warning; several selected records
    /// make a bulk action, which always asks first.
    pub fn begin_action(&mut self, reg: &Registry, action: &ActionDef) -> (r: ActionStart)
        requires
            old(self).wf(),
            reg.wf(),
        ensures
            final(self).wf(),
            final(self).same_listing(old(self)),
            final(self).notification_manager == old(self).notification_manager,
            final(self).selected_indices == old(self).selected_indices,
            old(self).readonly && action.kind == ActionKind::Api ==> r is Refused && final(self).mode
                == Mode::Warning,
            r is Confirm ==> final(self).mode == Mode::Confirm && final(self).pending_action is Some,
            !(r is Confirm) && !(r is Refused) ==> final(self).mode == old(self).mode,
            r is Execute ==> action.kind == ActionKind::Api && !action.requires_confirm_spec() && match r {
                ActionStart::Execute { service, sdk_method, resource_ids } => {
                    &&& resource_ids@.len() == 1
                    &&& sdk_method == action.sdk_method
                    &&& reg.resource_spec(old(self).current_resource_key@) is Some
                    &&& service == reg.resource_spec(old(self).current_resource_key@)->0.service
                    &&& old(self).filtered@.len() > 0
                    &&& Some(resource_ids@[0]@) == field_text(
                        old(self).items@[old(self).filtered@[old(self).selected as int] as int].value,
                        reg.resource_spec(old(self).current_resource_key@)->0.name_field@,
                    )
                },
                _ => false,
            },
            !old(self).readonly && action.kind == ActionKind::Api && reg.resource_spec(
                old(self).current_resource_key@,
            ) is None ==> r is Nothing,
            action.kind == ActionKind::Api && action.requires_confirm_spec() ==> !(r is Execute),
            ({
                let d = reg.resource_spec(old(self).current_resource_key@)->0;
                let targets = selection_targets(*old(self), d);
                let bulk = targets.len() > 1 && action.kind == ActionKind::Api;
                let name = cursor_name(*old(self), d);
                !(old(self).readonly && action.kind == ActionKind::Api) && reg.resource_spec(
                    old(self).current_resource_key@,
                ) is Some ==> {
                    &&& bulk ==> r is Confirm && pending_matches(
                        final(self).pending_action,
                        d.service@,
                        action.sdk_method@,
                        targets,
                    )
                    &&& !bulk && name is None ==> r is Nothing
                    &&& !bulk && name is Some && action.kind == ActionKind::Shell ==> match r {
                        ActionStart::Shell { resource_id } => resource_id@ == name->0,
                        _ => false,
                    }
                    &&& !bulk && name is Some && action.kind == ActionKind::Api
                        && action.requires_confirm_spec() ==> r is Confirm && pending_matches(
                        final(self).pending_action,
                        d.service@,
                        action.sdk_method@,
                        seq![name->0],
                    )
                    &&& !bulk && name is Some && action.kind == ActionKind::Api
                        && !action.requires_confirm_spec() ==> r is Execute
                }
            }),
    {
        if self.readonly && action.kind == ActionKind::Api {
            self.show_warning("Read-only mode: actions are disabled");
            return ActionStart::Refused;
        }
        let def = match reg.get_resource(self.current_resource_key.as_str()) {
            Some(d) => d,
            None => {
                return ActionStart::Nothing;
            },
        };
        let ids = self.selected_resource_ids(reg);
        if ids.len() > 1 && action.kind == ActionKind::Api {
            let count = ids.len();
            let destructive = match &action.confirm {
                Some(c) => c.destructive,
                None => false,
            };
            let mut message = action.display_name.clone();
            message.append(" ");
            let cs = format_decimal(count as u64);
            message.append(cs.as_str());
            message.append(" resources?");
            let pending = PendingAction {
                service: def.service.clone(),
                sdk_method: action.sdk_method.clone(),
                resource_ids: ids,
                message,
                destructive,
                selected_yes: false,
            };
            self.enter_confirm_mode(pending);
            return ActionStart::Confirm;
        }
        if self.filtered.len() == 0 {
            return ActionStart::Nothing;
        }
        let rec = &self.items[self.filtered[self.selected]];
        let resource_id = match extract_json_value(&rec.value, def.name_field.as_str()) {
            Some(n) => n,
            None => {
                return ActionStart::Nothing;
            },
        };
        if action.kind == ActionKind::Shell {
            return ActionStart::Shell { resource_id };
        }
        if action.requires_confirm() {
            match self.create_pending_action(def, action, resource_id.as_str()) {
                Some(p) => {
                    proof {
                        assert(p.resource_ids@.map_values(|s: String| s@) =~= seq![resource_id@]);
                    }
                    self.enter_confirm_mode(p);
                    return ActionStart::Confirm;
                },
                None => {
                    return ActionStart::Nothing;
                },
            }
        }
        let mut targets: Vec<String> = Vec::new();
        targets.push(resource_id);
        ActionStart::Execute {
            service: def.service.clone(),
            sdk_method: action.sdk_method.clone(),
            resource_ids: targets,
        }
    }

    /// The confirmation for running `action` on `resource_id`: its message
    /// (or display name) with the target's name, `<message> '<name>'?`.
    pub fn create_pending_action(&self, def: &ResourceDef, action: &ActionDef, resource_id: &str) -> (r:
        Option<PendingAction>)
        requires
            self.wf(),
        ensures
            (r is Some) == action.requires_confirm_spec(),
            r is Some ==> r->0.resource_ids@.len() == 1 && r->0.resource_ids@[0]@ == resource_id@
                && r->0.sdk_method == action.sdk_method && r->0.service == def.service,
    {
        let config = match action.get_confirm_config() {
            Some(c) => c,
            None => {
                return None;
            },
        };
        let name = match self.selected_item() {
            Some(rec) => match extract_json_value(&rec.value, def.name_field.as_str()) {
                Some(n) => {
                    if n.as_str().unicode_len() > 0 {
                        n
                    } else {
                        String::from_str(resource_id)
                    }
                },
                None => String::from_str(resource_id),
            },
            None => String::from_str(resource_id),
        };
        let mut message = match config.message {
            Some(m) => m,
            None => action.display_name.clone(),
        };
        message.append(" '");
        message.append(name.as_str());
        message.append("'?");
        let mut ids: Vec<String> = Vec::new();
        ids.push(String::from_str(resource_id));
        Some(
            PendingAction {
                service: def.service.clone(),
                sdk_method: action.sdk_method.clone(),
                resource_ids: ids,
                message,
                destructive: config.destructive,
                selected_yes: config.default_yes,
            },
        )
    }

    /// Moves the confirmation's choice to Yes or No.
    pub fn choose_confirm(&mut self, yes: bool)
        requires
            old(self).wf(),
        ensures
            final(self).wf(),
            final(self).same_listing(old(self)),
            final(self).mode == old(self).mode,
            final(self).notification_manager == old(self).notification_manager,
            match old(self).pending_action {
                Some(p) => final(self).pending_action == Some(PendingAction { selected_yes: yes, ..p }),
                None => final(self).pending_action is None,
            },
    {
        match self.pending_action.take() {
            Some(p) => {
                let mut p = p;
                p.selected_yes = yes;
                self.pending_action = Some(p);
            },
            None => {},
        }
    }

    /// Answers the confirmation: the pending action is accepted when Yes is
    /// chosen or `yes_key` was pressed. Either way the dialog closes; an
    /// accepted action is returned for the caller to execute.
    pub fn take_confirmed(&mut self, yes_key: bool) -> (r: Option<PendingAction>)
        requires
            old(self).wf(),
        ensures
            final(self).wf(),
            final(self).same_listing(old(self)),
            final(self).mode == Mode::Normal,
            final(self).pending_action is None,
            final(self).notification_manager == old(self).notification_manager,
            final(self).selected_indices == old(self).selected_indices,
            match old(self).pending_action {
                Some(p) => if p.selected_yes || yes_key {
                    r == Some(p)
                } else {
                    r is None
                },
                None => r is None,
            },
    {
        let taken = self.pending_action.take();
        self.exit_mode();
        match taken {
            Some(p) => {
                if p.selected_yes || yes_key {
                    Some(p)
                } else {
                    None
                }
            },
            None => None,
        }
    }

    /// Applies the status a poll returned for the operation of notification
    /// `id`: done marks it successful and asks for a refresh of the list,
    /// failed marks it failed, running or unknown leaves it for the next poll.
    pub fn apply_poll_result(&mut self, id: u128, status: OperationStatus, now: u64) -> (effect:
        PollEffect)
        requires
            old(self).wf(),
        ensures
            final(self).wf(),
            final(self).same_listing(old(self)),
            effect.refresh == (status is Done),
            (status is Running || status is Unknown) ==> final(self).notification_manager
                == old(self).notification_manager,
            final(self).notification_manager.max_history == old(self).notification_manager.max_history,
            final(self).notification_manager.notifications@.len()
                == old(self).notification_manager.notifications@.len(),
            match find_id(old(self).notification_manager.notifications@, id) {
                Some(i) => crate::notification::status_terminal(
                    old(self).notification_manager.notifications@[i as int].status,
                ) && final(self).notification_manager == old(self).notification_manager || match status {
                    OperationStatus::Done => final(self).notification_manager.notifications@[i as int].status is Success
                        && final(self).notification_manager.pending_operations@ == crate::notification::without_id(
                        old(self).notification_manager.pending_operations@,
                        id,
                    ),
                    OperationStatus::Failed(m) => final(self).notification_manager.notifications@[i as int].status
                        == NotificationStatus::Error(m) && final(self).notification_manager.pending_operations@
                        == crate::notification::without_id(old(self).notification_manager.pending_operations@, id),
                    _ => true,
                },
                None => true,
            },
    {
        proof {
            lemma_find_id_bound(self.notification_manager.notifications@, id);
        }
        match status {
            OperationStatus::Done => {
                let beep = self.notification_manager.mark_success(id, now);
                PollEffect { refresh: true, beep }
            },
            OperationStatus::Failed(m) => {
                let beep = self.notification_manager.mark_error(id, m, now);
                PollEffect { refresh: false, beep }
            },
            _ => PollEffect { refresh: false, beep: false },
        }
    }

    /// The operations due for a poll at `now`, marked polled; none while
    /// notifications or automatic polling are off.
    pub fn operations_due(&mut self, now: u64) -> (r: Vec<(u128, String)>)
        requires
            old(self).wf(),
        ensures
            final(self).wf(),
            final(self).same_listing(old(self)),
            !(old(self).notifications_enabled && old(self).notification_manager.auto_poll) ==> r@.len() == 0
                && final(self).notification_manager == old(self).notification_manager,
            old(self).notifications_enabled && old(self).notification_manager.auto_poll ==> r@
                == old(self).notification_manager.pending_operations@.filter(
                |o: crate::notification::PendingOperation|
                    crate::notification::elapsed(now, o.last_poll_ms) >= old(self).notification_manager.poll_interval_ms,
            ).map_values(|o: crate::notification::PendingOperation| (o.notification_id, o.operation_url)),
    {
        if !self.notifications_enabled || !self.notification_manager.auto_poll {
            return Vec::new();
        }
        self.notification_manager.operations_to_poll(now)
    }

    /// Forgets the notification history.
    pub fn clear_notifications(&mut self)
        requires
            old(self).wf(),
        ensures
            final(self).wf(),
            final(self).same_listing(old(self)),
            final(self).notification_manager.notifications@.len() == 0,
            final(self).notification_manager.pending_operations@.len() == 0,
    {
        self.notification_manager.clear();
    }

    // ----- commands -----

    /// Runs a command line: built-in verbs first, then an alias or resource
    /// key, which drills down when it is a sub-resource of the current type
    /// and a record is under the cursor, else switches to it.
    pub fn execute_command(&mut self, reg: &Registry, config: &mut Config, line: &str) -> (r: CommandEffect)
        requires
            old(self).wf(),
            reg.wf(),
        ensures
            final(self).wf(),
            words_of(line@).len() == 0 ==> r is Nothing && final(self).current_resource_key
                == old(self).current_resource_key,
            parse_spec(words_of(line@)) is Quit ==> r is Quit,
            parse_spec(words_of(line@)) is Projects ==> final(self).mode == Mode::Projects,
            parse_spec(words_of(line@)) is Zones ==> final(self).mode == Mode::Zones,
            parse_spec(words_of(line@)) is Notifications ==> final(self).mode == Mode::Notifications,
            parse_spec(words_of(line@)) is ClearNotifications ==> final(self).notification_manager.notifications@.len() == 0,
            ({
                let w = words_of(line@);
                let kind = parse_spec(w);
                &&& kind is Back ==> (r is Fetch <==> old(self).parent_context is Some)
                &&& kind is Back && old(self).parent_context is Some ==> final(self).current_resource_key
                    == old(self).parent_context->0.resource_key && match r {
                    CommandEffect::Fetch(q) => q.resource_key == old(self).parent_context->0.resource_key
                        && q.page_token is None && q.generation == final(self).generation,
                    _ => false,
                }
                &&& kind is Zone ==> final(config).zone is Some && final(config).zone->0@ == w[1]
                    && final(self).zone@ == w[1] && match r {
                    CommandEffect::SwitchZone(z) => z@ == w[1],
                    _ => false,
                }
                &&& kind is Project ==> final(config).project_id is Some && final(config).project_id->0@
                    == w[1] && final(self).project@ == w[1] && match r {
                    CommandEffect::SwitchProject(p) => p@ == w[1],
                    _ => false,
                }
                &&& kind is Theme ==> match r {
                    CommandEffect::SetTheme(t) => w.len() > 1 && t@ == w[1],
                    CommandEffect::ListThemes => w.len() <= 1,
                    _ => false,
                }
                &&& kind is Alias ==> r is Nothing && (if reg.resource_spec(w[2]) is Some {
                    lookup(final(config).aliases@, w[1]) == Some(w[2])
                } else {
                    final(self).error_message is Some && final(config).aliases == old(config).aliases
                })
                &&& kind is Resource ==> {
                    let k = match lookup(old(config).aliases@, w[0]) {
                        Some(t) => t,
                        None => w[0],
                    };
                    &&& reg.resource_spec(k) is None ==> r is Nothing && final(self).error_message is Some
                        && final(self).current_resource_key == old(self).current_resource_key
                    &&& reg.resource_spec(k) is Some ==> {
                        let cur = reg.resource_spec(old(self).current_resource_key@);
                        let sub = cur is Some && (exists|i: int|
                            0 <= i < cur->0.sub_resources@.len() && #[trigger] cur->0.sub_resources@[i].resource_key@ == k)
                            && old(self).filtered@.len() > 0;
                        &&& r is Fetch
                        &&& final(self).current_resource_key@ == k
                        &&& match r {
                            CommandEffect::Fetch(q) => q.resource_key@ == k && q.page_token is None
                                && q.generation == final(self).generation,
                            _ => false,
                        }
                        &&& sub ==> final(self).parent_context is Some
                            && final(self).parent_context->0.resource_key == old(self).current_resource_key
                        &&& !sub ==> final(self).parent_context is None
                    }
                }
            }),
    {
        let words = split_words(line);
        let cmd = parse_command(&words);
        match cmd {
            Command::Empty => CommandEffect::Nothing,
            Command::Quit => CommandEffect::Quit,
            Command::Back => match self.navigate_back() {
                Some(req) => CommandEffect::Fetch(req),
                None => CommandEffect::Nothing,
            },
            Command::Projects => {
                self.enter_projects_mode();
                CommandEffect::Nothing
            },
            Command::Zones => {
                self.enter_zones_mode();
                CommandEffect::Nothing
            },
            Command::Notifications => {
                self.enter_notifications_mode();
                CommandEffect::Nothing
            },
            Command::ClearNotifications => {
                self.clear_notifications();
                CommandEffect::Nothing
            },
            Command::Zone(z) => {
                config.set_zone(z.as_str());
                self.zone = z.clone();
                CommandEffect::SwitchZone(z)
            },
            Command::Project(p) => {
                config.set_project(p.as_str());
                self.project = p.clone();
                CommandEffect::SwitchProject(p)
            },
            Command::Theme(t) => match t {
                Some(name) => CommandEffect::SetTheme(name),
                None => CommandEffect::ListThemes,
            },
            Command::Alias { alias, resource_key } => {
                if reg.get_resource(resource_key.as_str()).is_some() {
                    config.add_alias(alias.as_str(), resource_key.as_str());
                } else {
                    let mut m = String::from_str("Unknown resource: ");
                    m.append(resource_key.as_str());
                    self.error_message = Some(m);
                }
                CommandEffect::Nothing
            },
            Command::Resource(name) => {
                let resolved = match config.resolve_alias(name.as_str()) {
                    Some(k) => k.clone(),
                    None => name.clone(),
                };
                if reg.get_resource(resolved.as_str()).is_none() {
                    let mut m = String::from_str("Unknown command: ");
                    m.append(name.as_str());
                    self.error_message = Some(m);
                    return CommandEffect::Nothing;
                }
                let is_sub = match reg.get_resource(self.current_resource_key.as_str()) {
                    Some(d) => d.has_sub_resource(resolved.as_str()),
                    None => false,
                };
                let req = if is_sub && self.filtered.len() > 0 {
                    self.navigate_to_sub_resource(reg, resolved.as_str())
                } else {
                    self.navigate_to_resource(reg, resolved.as_str())
                };
                match req {
                    Some(q) => CommandEffect::Fetch(q),
                    None => CommandEffect::Nothing,
                }
            },
        }
    }

    // ----- column configuration -----

    /// Opens the column overlay for the current type, with each declared
    /// column marked visible unless the configuration hides it.
    pub fn enter_column_config_mode(&mut self, reg: &Registry, config: &Config)
        requires
            old(self).wf(),
            reg.wf(),
        ensures
            final(self).wf(),
            final(self).same_listing(old(self)),
            reg.resource_spec(old(self).current_resource_key@) is None ==> final(self).mode == old(self).mode
                && final(self).column_config_state == old(self).column_config_state,
            reg.resource_spec(old(self).current_resource_key@) is Some ==> {
                let d = reg.resource_spec(old(self).current_resource_key@)->0;
                &&& final(self).mode == Mode::ColumnConfig
                &&& final(self).column_config_state is Some
                &&& final(self).column_config_state->0.selected == 0
                &&& final(self).column_config_state->0.columns@.len() == d.columns@.len()
                &&& forall|k: int|
                    0 <= k < d.columns@.len() ==> #[trigger] final(self).column_config_state->0.columns@[k].header
                        == d.columns@[k].header
            },
    {
        let def = match reg.get_resource(self.current_resource_key.as_str()) {
            Some(d) => d,
            None => {
                return;
            },
        };
        let hidden = config.get_hidden_columns(self.current_resource_key.as_str());
        let mut columns: Vec<ColumnConfigItem> = Vec::new();
        let mut k: usize = 0;
        while k < def.columns.len()
            invariant
                k <= def.columns@.len(),
                columns@.len() == k,
                forall|j: int| 0 <= j < k ==> #[trigger] columns@[j].header == def.columns@[j].header,
            decreases def.columns@.len() - k,
        {
            let header = def.columns[k].header.clone();
            let visible = !contains_string(&hidden, header.as_str());
            columns.push(ColumnConfigItem { header, visible });
            k = k + 1;
        }
        self.column_config_state = Some(ColumnConfigState { columns, selected: 0 });
        self.mode = Mode::ColumnConfig;
    }

    /// Flips the visibility of the column under the overlay's cursor; the
    /// last visible column cannot be hidden.
    pub fn toggle_column_visibility(&mut self)
        requires
            old(self).wf(),
        ensures
            final(self).wf(),
            final(self).same_listing(old(self)),
            final(self).mode == old(self).mode,
            match old(self).column_config_state {
                None => final(self).column_config_state is None,
                Some(st) => final(self).column_config_state is Some && {
                    let f = final(self).column_config_state->0;
                    let i = st.selected as int;
                    &&& f.selected == st.selected
                    &&& f.columns@.len() == st.columns@.len()
                    &&& 0 <= i < st.columns@.len() && !(st.columns@[i].visible && visible_count(st.columns@) <= 1)
                        ==> f.columns@ == st.columns@.update(
                        i,
                        ColumnConfigItem { visible: !st.columns@[i].visible, ..st.columns@[i] },
                    )
                    &&& !(0 <= i < st.columns@.len() && !(st.columns@[i].visible && visible_count(
                        st.columns@,
                    ) <= 1)) ==> f.columns@ == st.columns@
                },
            },
    {
        match self.column_config_state.take() {
            None => {},
            Some(st) => {
                let mut st = st;
                let count = count_visible(&st.columns);
                let i = st.selected;
                if i < st.columns.len() {
                    let col = st.columns.remove(i);
                    let ghost gcol = col;
                    if col.visible && count <= 1 {
                        st.columns.insert(i, col);
                        proof {
                            assert(st.columns@ =~= old(self).column_config_state->0.columns@);
                        }
                    } else {
                        let flipped = ColumnConfigItem { header: col.header, visible: !col.visible };
                        st.columns.insert(i, flipped);
                        proof {
                            assert(st.columns@ =~= old(self).column_config_state->0.columns@.update(
                                i as int,
                                ColumnConfigItem { visible: !gcol.visible, ..gcol },
                            ));
                        }
                    }
                }
                self.column_config_state = Some(st);
            },
        }
    }

    /// Closes the overlay and records the hidden headers in the
    /// configuration (for the caller to save).
    pub fn apply_column_config(&mut self, config: &mut Config)
        requires
            old(self).wf(),
        ensures
            final(self).wf(),
            final(self).same_listing(old(self)),
            final(self).mode == Mode::Normal,
            final(self).column_config_state is None,
    {
        match self.column_config_state.take() {
            Some(st) => {
                let mut hidden: Vec<String> = Vec::new();
                let mut k: usize = 0;
                while k < st.columns.len()
                    invariant
                        k <= st.columns@.len(),
                    decreases st.columns@.len() - k,
                {
                    if !st.columns[k].visible {
                        hidden.push(st.columns[k].header.clone());
                    }
                    k = k + 1;
                }
                config.set_hidden_columns(self.current_resource_key.as_str(), hidden);
            },
            None => {},
        }
        self.mode = Mode::Normal;
    }

    /// Closes the overlay without recording anything.
    pub fn cancel_column_config(&mut self)
        requires
            old(self).wf(),
        ensures
            final(self).wf(),
            final(self).same_listing(old(self)),
            final(self).mode == Mode::Normal,
            final(self).column_config_state is None,
    {
        self.column_config_state = None;
        self.mode = Mode::Normal;
    }

    // ----- command line suggestions -----

    /// Every command the command line offers: the resource keys, the
    /// built-in verbs, `theme` and one `theme <name>` per theme, and the
    /// aliases not already listed; sorted.
    pub fn get_available_commands(&self, reg: &Registry, config: &Config, themes: &Vec<String>) -> (r: Vec<String>)
        ensures
            forall|k: int| 0 <= k < r@.len() - 1 ==> crate::sort::text_cmp(#[trigger] r@[k]@, r@[k + 1]@) <= 0,
            forall|i: int|
                0 <= i < reg.resources@.len() ==> r@.map_values(|s: String| s@).contains(
                    #[trigger] reg.resources@[i].0@,
                ),
    {
        let mut commands = reg.get_all_resource_keys();
        let ghost base = commands@;
        commands.push(String::from_str("projects"));
        commands.push(String::from_str("zones"));
        commands.push(String::from_str("notifications"));
        commands.push(String::from_str("notifications clear"));
        commands.push(String::from_str("theme"));
        let mut t: usize = 0;
        while t < themes.len()
            invariant
                t <= themes@.len(),
                commands@.len() >= base.len(),
                forall|k: int| 0 <= k < base.len() ==> #[trigger] commands@[k] == base[k],
            decreases themes@.len() - t,
        {
            let mut c = String::from_str("theme ");
            c.append(themes[t].as_str());
            commands.push(c);
            t = t + 1;
        }
        let mut a: usize = 0;
        while a < config.aliases.len()
            invariant
                a <= config.aliases@.len(),
                commands@.len() >= base.len(),
                forall|k: int| 0 <= k < base.len() ==> #[trigger] commands@[k] == base[k],
            decreases config.aliases@.len() - a,
        {
            if !contains_string(&commands, config.aliases[a].0.as_str()) {
                commands.push(config.aliases[a].0.clone());
            }
            a = a + 1;
        }
        let ghost all = commands@;
        let sorted = sort_strings(commands);
        proof {
            assert forall|i: int| 0 <= i < reg.resources@.len() implies sorted@.map_values(|s: String| s@).contains(
                #[trigger] reg.resources@[i].0@,
            ) by {
                assert(all[i]@ == reg.resources@[i].0@);
                assert(sorted@.contains(all[i]));
                let k = choose|k: int| 0 <= k < sorted@.len() && sorted@[k] == all[i];
                assert(sorted@.map_values(|s: String| s@)[k] == reg.resources@[i].0@);
            }
        }
        sorted
    }

    /// Opens the command line with every command suggested.
    pub fn enter_command_mode(&mut self, reg: &Registry, config: &Config, themes: &Vec<String>)
        requires
            old(self).wf(),
        ensures
            final(self).wf(),
            final(self).same_listing(old(self)),
            final(self).mode == Mode::Command,
            final(self).command_text@.len() == 0,
            final(self).command_suggestion_selected == 0,
            final(self).command_preview is None,
    {
        self.mode = Mode::Command;
        self.command_text = String::new();
        self.command_suggestions = self.get_available_commands(reg, config, themes);
        self.command_suggestion_selected = 0;
        self.command_preview = None;
    }

    /// Narrows the suggestions to the commands that hold the lower-cased
    /// input, keeps the choice in range, and previews the chosen one.
    pub fn update_command_suggestions(&mut self, reg: &Registry, config: &Config, themes: &Vec<String>)
        requires
            old(self).wf(),
        ensures
            final(self).wf(),
            final(self).same_listing(old(self)),
            final(self).command_text == old(self).command_text,
            final(self).command_suggestion_selected < final(self).command_suggestions@.len()
                || final(self).command_suggestion_selected == 0,
            final(self).command_suggestions@.len() == 0 ==> final(self).command_preview is None,
            final(self).command_suggestions@.len() > 0 ==> final(self).command_preview == Some(
                final(self).command_suggestions@[final(self).command_suggestion_selected as int],
            ),
    {
        let input = lowercase(self.command_text.as_str());
        let all = self.get_available_commands(reg, config, themes);
        let mut kept: Vec<String> = Vec::new();
        let mut i: usize = 0;
        while i < all.len()
            invariant
                i <= all@.len(),
            decreases all@.len() - i,
        {
            if str_contains(all[i].as_str(), input.as_str()) {
                kept.push(all[i].clone());
            }
            i = i + 1;
        }
        self.command_suggestions = kept;
        if self.command_suggestion_selected >= self.command_suggestions.len() {
            self.command_suggestion_selected = 0;
        }
        self.update_preview();
    }

    fn update_preview(&mut self)
        requires
            old(self).wf(),
            old(self).command_suggestion_selected < old(self).command_suggestions@.len()
                || old(self).command_suggestion_selected == 0,
        ensures
            final(self).wf(),
            final(self).same_listing(old(self)),
            final(self).command_text == old(self).command_text,
            final(self).command_suggestions == old(self).command_suggestions,
            final(self).command_suggestion_selected == old(self).command_suggestion_selected,
            final(self).command_suggestions@.len() == 0 ==> final(self).command_preview is None,
            final(self).command_suggestions@.len() > 0 ==> final(self).command_preview == Some(
                final(self).command_suggestions@[final(self).command_suggestion_selected as int],
            ),
    {
        if self.command_suggestions.len() == 0 {
            self.command_preview = None;
        } else {
            self.command_preview = Some(self.command_suggestions[self.command_suggestion_selected].clone());
        }
    }

    /// Moves the suggestion choice forward, wrapping around.
    pub fn next_suggestion(&mut self)
        requires
            old(self).wf(),
            old(self).command_suggestion_selected < old(self).command_suggestions@.len()
                || old(self).command_suggestion_selected == 0,
        ensures
            final(self).wf(),
            old(self).command_suggestions@.len() > 0 ==> final(self).command_suggestion_selected == (
            old(self).command_suggestion_selected + 1) % (old(self).command_suggestions@.len() as int),
            old(self).command_suggestions@.len() > 0 ==> final(self).command_preview == Some(
                old(self).command_suggestions@[final(self).command_suggestion_selected as int],
            ),
    {
        let n = self.command_suggestions.len();
        if n > 0 {
            self.command_suggestion_selected = (self.command_suggestion_selected + 1) % n;
            self.update_preview();
        }
    }

    /// Moves the suggestion choice back, wrapping around.
    pub fn prev_suggestion(&mut self)
        requires
            old(self).wf(),
            old(self).command_suggestion_selected < old(self).command_suggestions@.len()
                || old(self).command_suggestion_selected == 0,
        ensures
            final(self).wf(),
            old(self).command_suggestions@.len() > 0 ==> final(self).command_suggestion_selected == if old(self).command_suggestion_selected == 0 {
                (old(self).command_suggestions@.len() - 1) as usize
            } else {
                (old(self).command_suggestion_selected - 1) as usize
            },
    {
        let n = self.command_suggestions.len();
        if n > 0 {
            if self.command_suggestion_selected == 0 {
                self.command_suggestion_selected = n - 1;
            } else {
                self.command_suggestion_selected = self.command_suggestion_selected - 1;
            }
            self.update_preview();
        }
    }

    /// The line the command line runs: the typed text, or the preview when
    /// the text is empty or the preview extends it.
    pub open spec fn command_line_spec(&self) -> Seq<char> {
        match self.command_preview {
            Some(p) => if self.command_text@.len() == 0 || contains_seq(p@, self.command_text@) {
                p@
            } else {
                self.command_text@
            },
            None => self.command_text@,
        }
    }

    /// The line the command line runs.
    pub fn command_line(&self) -> (r: String)
        ensures
            r@ == self.command_line_spec(),
    {
        match &self.command_preview {
            Some(p) => {
                if self.command_text.as_str().unicode_len() == 0 || str_contains(
                    p.as_str(),
                    self.command_text.as_str(),
                ) {
                    p.clone()
                } else {
                    self.command_text.clone()
                }
            },
            None => self.command_text.clone(),
        }
    }

    // ----- keys in the list view -----

    /// Handles a key in the list view. While the filter line is open, keys
    /// edit the filter (Esc clears it, Enter closes the line). Otherwise keys
    /// move the cursor, select, sort, page, open overlays, navigate, or run a
    /// sub-resource or action shortcut of the current type.
    pub fn handle_normal_key(&mut self, reg: &Registry, key: Key, now: u64) -> (r: KeyEffect)
        requires
            old(self).wf(),
            reg.wf(),
        ensures
            final(self).wf(),
            old(self).filter_active ==> !(r is Quit),
            !old(self).filter_active && key == (Key { code: KeyCode::Char('q'), shift: false, ctrl: false })
                ==> r is Quit,
            !old(self).filter_active && key == (Key { code: KeyCode::Char('/'), shift: false, ctrl: false })
                ==> final(self).filter_active,
            old(self).filter_active && key.code == KeyCode::Enter ==> !final(self).filter_active
                && final(self).filtered == old(self).filtered,
            old(self).filter_active && key.code == KeyCode::Esc ==> !final(self).filter_active
                && final(self).filter_text@.len() == 0,
            ({
                let plain = !key.shift && !key.ctrl && !old(self).filter_active;
                let len = old(self).cursor_len();
                let cur = old(self).cursor();
                &&& plain && (key.code == KeyCode::Char('j') || key.code == KeyCode::Down) ==> final(self).moved_cursor(old(self), step_down(cur, 1, len)) && r is Nothing
                &&& plain && (key.code == KeyCode::Char('k') || key.code == KeyCode::Up) ==> final(self).moved_cursor(old(self), step_up(cur, 1)) && r is Nothing
                &&& plain && key.code == KeyCode::PageDown ==> final(self).moved_cursor(
                    old(self),
                    step_down(cur, PAGE_SCROLL_SIZE as nat, len),
                )
                &&& plain && key.code == KeyCode::PageUp ==> final(self).moved_cursor(
                    old(self),
                    step_up(cur, PAGE_SCROLL_SIZE as nat),
                )
                &&& plain && key.code == KeyCode::Home ==> final(self).moved_cursor(old(self), 0)
                &&& plain && (key.code == KeyCode::End || key.code == KeyCode::Char('G'))
                    ==> final(self).moved_cursor(
                    old(self),
                    if len > 0 {
                        (len - 1) as nat
                    } else {
                        cur
                    },
                )
                &&& plain && key.code == KeyCode::Char(' ') && old(self).filtered@.len() > 0 ==> {
                    &&& final(self).selected_indices@.contains(old(self).selected)
                        != old(self).selected_indices@.contains(old(self).selected)
                }
                &&& plain && key.code == KeyCode::Char(']') && old(self).pagination.has_more
                    && old(self).pagination.current_page < usize::MAX ==> match r {
                    KeyEffect::Fetch(q) => q.page_token == old(self).pagination.next_token,
                    _ => false,
                }
                &&& plain && key.code == KeyCode::Char('[') && old(self).pagination.current_page > 1
                    ==> match r {
                    KeyEffect::Fetch(q) => q.page_token == old(self).pagination.token_stack@.last(),
                    _ => false,
                }
                &&& plain && key.code == KeyCode::Char(':') ==> r is OpenCommandLine
                &&& plain && key.code == KeyCode::Char('?') ==> final(self).mode == Mode::Help
                &&& !old(self).filter_active && !key.ctrl && (key.code matches KeyCode::F(n) && 1 <= n <= 6)
                    ==> final(self).sort_column is Some
                &&& old(self).filter_active && !key.ctrl && (key.code is Char) ==> final(self).filter_text@
                    == old(self).filter_text@.push(key.code->Char_0) && (old(self).sort_column is None
                    ==> final(self).filtered@ == filter_view(
                    old(self).items@,
                    paths_of(*reg, old(self).current_resource_key@),
                    lower_of(old(self).filter_text@.push(key.code->Char_0)),
                ))
            }),
    {
        let is_g = match key.code {
            KeyCode::Char(c) => c == 'g' && !key.shift && !key.ctrl && !self.filter_active,
            _ => false,
        };
        if is_g {
            match self.last_g_press_ms {
                Some(t) => {
                    if now >= t && now - t < DOUBLE_KEY_TIMEOUT_MS {
                        self.go_to_top();
                        self.last_g_press_ms = None;
                        return KeyEffect::Nothing;
                    }
                },
                None => {},
            }
            self.last_g_press_ms = Some(now);
            return KeyEffect::Nothing;
        }
        self.last_g_press_ms = None;

        if self.filter_active {
            match key.code {
                KeyCode::Esc => {
                    self.clear_filter(reg);
                },
                KeyCode::Enter => {
                    self.filter_active = false;
                },
                KeyCode::Backspace => {
                    self.filter_text = drop_last_char(&self.filter_text);
                    self.apply_filter(reg);
                },
                KeyCode::Char(c) => {
                    if !key.ctrl {
                        self.filter_text.push(c);
                        self.apply_filter(reg);
                    }
                },
                _ => {},
            }
            return KeyEffect::Nothing;
        }

        match key.code {
            KeyCode::Char(c) => {
                if c == 'q' && !key.shift && !key.ctrl {
                    return KeyEffect::Quit;
                }
                if c == ' ' {
                    self.toggle_selection();
                    self.next();
                    return KeyEffect::Nothing;
                }
                if (c == 'v' || c == 'V') && key.shift {
                    self.select_all();
                    return KeyEffect::Nothing;
                }
                if c == 'v' {
                    self.toggle_visual_mode();
                    return KeyEffect::Nothing;
                }
                if (c == 'j' || c == 'J') && key.shift {
                    self.extend_selection_down();
                    return KeyEffect::Nothing;
                }
                if (c == 'k' || c == 'K') && key.shift {
                    self.extend_selection_up();
                    return KeyEffect::Nothing;
                }
                if c == 'd' && key.ctrl {
                    self.page_down(PAGE_SCROLL_SIZE);
                    return KeyEffect::Nothing;
                }
                if c == 'u' && key.ctrl {
                    self.page_up(PAGE_SCROLL_SIZE);
                    return KeyEffect::Nothing;
                }
                if c == 'j' {
                    self.next();
                    return KeyEffect::Nothing;
                }
                if c == 'k' {
                    self.previous();
                    return KeyEffect::Nothing;
                }
                if c == 'G' {
                    self.go_to_bottom();
                    return KeyEffect::Nothing;
                }
                if '1' <= c && c <= '9' {
                    let idx = (c as u32 - '1' as u32) as usize;
                    if idx < self.filtered.len() {
                        self.selected = idx;
                    }
                    return KeyEffect::Nothing;
                }
                if c == ']' {
                    if self.pagination.current_page == usize::MAX {
                        return KeyEffect::Nothing;
                    }
                    return match self.next_page() {
                        Some(req) => KeyEffect::Fetch(req),
                        None => KeyEffect::Nothing,
                    };
                }
                if c == '[' {
                    return match self.prev_page() {
                        Some(req) => KeyEffect::Fetch(req),
                        None => KeyEffect::Nothing,
                    };
                }
                if c == 'R' {
                    self.pagination.reset();
                    self.sort_column = None;
                    self.loading = true;
                    return KeyEffect::Fetch(self.refresh_request());
                }
                if c == 'd' {
                    self.enter_describe_mode();
                    return KeyEffect::Nothing;
                }
                if c == '/' {
                    self.filter_active = true;
                    return KeyEffect::Nothing;
                }
                if c == ':' {
                    return KeyEffect::OpenCommandLine;
                }
                if c == '?' {
                    self.enter_help_mode();
                    return KeyEffect::Nothing;
                }
                if c == 'b' {
                    return match self.navigate_back() {
                        Some(req) => KeyEffect::Fetch(req),
                        None => KeyEffect::Nothing,
                    };
                }
                if c == 'p' {
                    self.enter_projects_mode();
                    return KeyEffect::Nothing;
                }
                if c == 'z' {
                    self.enter_zones_mode();
                    return KeyEffect::Nothing;
                }
                if c == 'n' {
                    self.enter_notifications_mode();
                    return KeyEffect::Nothing;
                }
                if c == 'o' {
                    return KeyEffect::OpenColumnConfig;
                }
                self.shortcut(reg, c)
            },
            KeyCode::Esc => {
                if self.selected_indices.len() > 0 || self.visual_mode {
                    self.clear_selection();
                }
                KeyEffect::Nothing
            },
            KeyCode::Down => {
                self.next();
                KeyEffect::Nothing
            },
            KeyCode::Up => {
                self.previous();
                KeyEffect::Nothing
            },
            KeyCode::Home => {
                self.go_to_top();
                KeyEffect::Nothing
            },
            KeyCode::End => {
                self.go_to_bottom();
                KeyEffect::Nothing
            },
            KeyCode::PageDown => {
                self.page_down(PAGE_SCROLL_SIZE);
                KeyEffect::Nothing
            },
            KeyCode::PageUp => {
                self.page_up(PAGE_SCROLL_SIZE);
                KeyEffect::Nothing
            },
            KeyCode::F(n) => {
                if 1 <= n && n <= 6 {
                    self.sort_by_column(reg, (n - 1) as usize);
                } else if n == 12 {
                    self.clear_sort(reg);
                }
                KeyEffect::Nothing
            },
            KeyCode::Enter => {
                self.enter_describe_mode();
                KeyEffect::Nothing
            },
            KeyCode::Backspace | KeyCode::Left => match self.navigate_back() {
                Some(req) => KeyEffect::Fetch(req),
                None => KeyEffect::Nothing,
            },
            KeyCode::Delete => {
                let def = match reg.get_resource(self.current_resource_key.as_str()) {
                    Some(d) => d,
                    None => {
                        return KeyEffect::Nothing;
                    },
                };
                let mut k: usize = 0;
                while k < def.actions.len()
                    invariant
                        self.wf(),
                        reg.wf(),
                        key.code == KeyCode::Delete,
                        k <= def.actions@.len(),
                    decreases def.actions@.len() - k,
                {
                    let m = lowercase(def.actions[k].sdk_method.as_str());
                    if str_contains(m.as_str(), "delete") {
                        return KeyEffect::Action(self.begin_action(reg, &def.actions[k]));
                    }
                    k = k + 1;
                }
                KeyEffect::Nothing
            },
            _ => KeyEffect::Nothing,
        }
    }

    /// Handles a key in the confirmation dialog: Esc or `N` cancels, Left or
    /// `h` chooses Yes, Right or `l` chooses No, Enter answers with the
    /// choice and `y`/`Y` accepts outright. Returns the accepted action.
    pub fn handle_confirm_key(&mut self, key: Key) -> (r: Option<PendingAction>)
        requires
            old(self).wf(),
        ensures
            final(self).wf(),
            final(self).same_listing(old(self)),
            final(self).notification_manager == old(self).notification_manager,
            (key.code == KeyCode::Esc || key.code == KeyCode::Char('N')) ==> r is None && final(self).mode
                == Mode::Normal && final(self).pending_action is None,
            (key.code == KeyCode::Char('y') || key.code == KeyCode::Char('Y')) ==> r == old(self).pending_action
                && final(self).mode == Mode::Normal,
            (key.code == KeyCode::Left || key.code == KeyCode::Char('h')) ==> match old(self).pending_action {
                Some(p) => final(self).pending_action == Some(PendingAction { selected_yes: true, ..p }),
                None => final(self).pending_action is None,
            } && r is None,
            (key.code == KeyCode::Right || key.code == KeyCode::Char('l')) ==> match old(self).pending_action {
                Some(p) => final(self).pending_action == Some(PendingAction { selected_yes: false, ..p }),
                None => final(self).pending_action is None,
            } && r is None,
            key.code == KeyCode::Enter ==> match old(self).pending_action {
                Some(p) => if p.selected_yes {
                    r == Some(p)
                } else {
                    r is None
                },
                None => r is None,
            },
    {
        match key.code {
            KeyCode::Esc | KeyCode::Char('N') => {
                self.exit_mode();
                None
            },
            KeyCode::Left | KeyCode::Char('h') => {
                self.choose_confirm(true);
                None
            },
            KeyCode::Right | KeyCode::Char('l') => {
                self.choose_confirm(false);
                None
            },
            KeyCode::Enter => self.take_confirmed(false),
            KeyCode::Char('y') | KeyCode::Char('Y') => self.take_confirmed(true),
            _ => None,
        }
    }

    /// A sub-resource shortcut drills down from the record under the cursor;
    /// else an action shortcut invokes that action.
    fn shortcut(&mut self, reg: &Registry, c: char) -> (r: KeyEffect)
        requires
            old(self).wf(),
            reg.wf(),
        ensures
            final(self).wf(),
            !(r is Quit),
    {
        let def = match reg.get_resource(self.current_resource_key.as_str()) {
            Some(d) => d,
            None => {
                return KeyEffect::Nothing;
            },
        };
        let mut k: usize = 0;
        while k < def.sub_resources.len()
            invariant
                self.wf(),
                reg.wf(),
                k <= def.sub_resources@.len(),
            decreases def.sub_resources@.len() - k,
        {
            if is_single_char(def.sub_resources[k].shortcut.as_str(), c) && self.filtered.len() > 0 {
                let target = def.sub_resources[k].resource_key.clone();
                return match self.navigate_to_sub_resource(reg, target.as_str()) {
                    Some(req) => KeyEffect::Fetch(req),
                    None => KeyEffect::Nothing,
                };
            }
            k = k + 1;
        }
        let mut a: usize = 0;
        while a < def.actions.len()
            invariant
                self.wf(),
                reg.wf(),
                a <= def.actions@.len(),
            decreases def.actions@.len() - a,
        {
            let hit = match &def.actions[a].shortcut {
                Some(s) => is_single_char(s.as_str(), c),
                None => false,
            };
            if hit {
                return KeyEffect::Action(self.begin_action(reg, &def.actions[a]));
            }
            a = a + 1;
        }
        KeyEffect::Nothing
    }

    /// Routes a key to the handler of the current mode; Ctrl+C quits from
    /// anywhere.
    pub fn handle_key(
        &mut self,
        reg: &Registry,
        config: &mut Config,
        themes: &Vec<String>,
        key: Key,
        now: u64,
        describe_lines: usize,
    ) -> (r: KeyOutcome)
        requires
            old(self).wf(),
            reg.wf(),
        ensures
            final(self).wf(),
            key == (Key { code: KeyCode::Char('c'), shift: false, ctrl: true }) ==> r is Quit,
            r is Confirmed ==> old(self).mode == Mode::Confirm,
            r is RunCommand ==> old(self).mode == Mode::Command,
            (r is ProjectPicked || r is ZonePicked) ==> final(self).mode == Mode::Normal,
            old(self).mode == Mode::Normal && key == (Key { code: KeyCode::Char('q'), shift: false, ctrl: false })
                && !old(self).filter_active ==> r is Quit,
            old(self).mode == Mode::Command && key.code == KeyCode::Enter ==> match r {
                KeyOutcome::RunCommand(l) => l@ == old(self).command_line_spec(),
                _ => false,
            },
            old(self).mode == Mode::Confirm && key.code == KeyCode::Char('y') ==> match old(self).pending_action {
                Some(p) => r == KeyOutcome::Confirmed(p),
                None => r is Nothing,
            },
            old(self).mode == Mode::Confirm && key.code == KeyCode::Esc ==> r is Nothing && final(self).mode
                == Mode::Normal && final(self).pending_action is None,
            old(self).mode == Mode::Projects && key.code == KeyCode::Enter && old(self).projects_selected
                < old(self).projects_filtered@.len() ==> r == KeyOutcome::ProjectPicked(
                old(self).projects_filtered@[old(self).projects_selected as int],
            ),
            old(self).mode == Mode::Zones && key.code == KeyCode::Enter && old(self).zones_selected
                < old(self).zones_filtered@.len() ==> r == KeyOutcome::ZonePicked(
                old(self).zones_filtered@[old(self).zones_selected as int],
            ),
            (old(self).mode == Mode::Help || old(self).mode == Mode::Warning) && key.code == KeyCode::Esc
                ==> final(self).mode == Mode::Normal,
            old(self).mode == Mode::ColumnConfig && key.code == KeyCode::Esc ==> final(self).mode == Mode::Normal
                && final(self).column_config_state is None,
    {
        let quit = match key.code {
            KeyCode::Char(c) => c == 'c' && key.ctrl,
            _ => false,
        };
        if quit {
            return KeyOutcome::Quit;
        }
        match self.mode {
            Mode::Normal => match self.handle_normal_key(reg, key, now) {
                KeyEffect::Nothing => KeyOutcome::Nothing,
                KeyEffect::Quit => KeyOutcome::Quit,
                KeyEffect::Fetch(req) => KeyOutcome::Fetch(req),
                KeyEffect::Action(a) => KeyOutcome::Action(a),
                KeyEffect::OpenCommandLine => KeyOutcome::OpenCommandLine,
                KeyEffect::OpenColumnConfig => KeyOutcome::OpenColumnConfig,
            },
            Mode::Command => match self.handle_command_key(key, reg, config, themes) {
                Some(line) => KeyOutcome::RunCommand(line),
                None => KeyOutcome::Nothing,
            },
            Mode::Help | Mode::Warning => {
                self.handle_overlay_key(key);
                KeyOutcome::Nothing
            },
            Mode::Confirm => match self.handle_confirm_key(key) {
                Some(p) => KeyOutcome::Confirmed(p),
                None => KeyOutcome::Nothing,
            },
            Mode::Projects => match self.handle_selector_key(key) {
                Some(name) => KeyOutcome::ProjectPicked(name),
                None => KeyOutcome::Nothing,
            },
            Mode::Zones => match self.handle_selector_key(key) {
                Some(name) => KeyOutcome::ZonePicked(name),
                None => KeyOutcome::Nothing,
            },
            Mode::Describe => {
                self.handle_describe_key(key, describe_lines);
                KeyOutcome::Nothing
            },
            Mode::Notifications => {
                self.handle_notifications_key(key);
                KeyOutcome::Nothing
            },
            Mode::ColumnConfig => {
                self.handle_column_config_key(key, config);
                KeyOutcome::Nothing
            },
        }
    }

    /// Whether the toast of the most recent notification is shown at `now`.
    pub open spec fn toast_shown(&self, now: u64) -> bool {
        match self.notification_manager.last_toast_ms {
            Some(t) => !(crate::notification::elapsed(now, t) > self.notification_manager.toast_duration_ms)
                && self.notification_manager.notifications@.len() > 0,
            None => false,
        }
    }

    /// The status line at `now`: the latest error first, else the toast of
    /// the most recent notification while it is shown, else the loading
    /// indicator.
    pub fn status_line(&self, now: u64) -> (r: StatusLine)
        ensures
            self.error_message is Some ==> r == StatusLine::Error(self.error_message->0),
            self.error_message is None && r is Loading ==> self.loading,
            self.error_message is None && !self.loading ==> !(r is Loading),
            r is Toast ==> self.error_message is None,
            self.error_message is None && self.toast_shown(now) ==> match r {
                StatusLine::Toast(t) => t@ == crate::notification::toast_text(
                    self.notification_manager.notifications@[0],
                    self.notification_manager.detail_level,
                    now,
                ),
                _ => false,
            },
            self.error_message is None && !self.toast_shown(now) && self.loading ==> r is Loading,
            self.error_message is None && !self.toast_shown(now) && !self.loading ==> r is Empty,
    {
        match &self.error_message {
            Some(e) => StatusLine::Error(e.clone()),
            None => match self.notification_manager.current_toast(now) {
                Some(n) => StatusLine::Toast(n.toast_message(self.notification_manager.detail_level, now)),
                None => {
                    if self.loading {
                        StatusLine::Loading
                    } else {
                        StatusLine::Empty
                    }
                },
            },
        }
    }

    // ----- keys in the overlays -----

    /// Keys of the help and warning overlays: Esc or Enter (and `q` or `?`
    /// on help) close them.
    pub fn handle_overlay_key(&mut self, key: Key)
        requires
            old(self).wf(),
        ensures
            final(self).wf(),
            final(self).same_listing(old(self)),
            old(self).mode == Mode::Help && (key.code == KeyCode::Esc || key.code == KeyCode::Enter
                || key.code == KeyCode::Char('q') || key.code == KeyCode::Char('?')) ==> final(self).mode
                == Mode::Normal,
            old(self).mode == Mode::Warning && (key.code == KeyCode::Esc || key.code == KeyCode::Enter)
                ==> final(self).mode == Mode::Normal && final(self).warning_message is None,
    {
        let close = match self.mode {
            Mode::Help => match key.code {
                KeyCode::Esc | KeyCode::Enter | KeyCode::Char('q') | KeyCode::Char('?') => true,
                _ => false,
            },
            Mode::Warning => match key.code {
                KeyCode::Esc | KeyCode::Enter => true,
                _ => false,
            },
            _ => false,
        };
        if close {
            self.exit_mode();
        }
    }

    /// Keys of the detail view: scrolling, and Esc, `q`, `d` or Backspace to
    /// close it. `total_lines` is the length of the shown text.
    pub fn handle_describe_key(&mut self, key: Key, total_lines: usize)
        requires
            old(self).wf(),
        ensures
            final(self).wf(),
            final(self).same_listing(old(self)),
            key.code == KeyCode::Down ==> final(self).describe_scroll == if old(self).describe_scroll < usize::MAX {
                old(self).describe_scroll + 1
            } else {
                old(self).describe_scroll as int
            },
            key.code == KeyCode::Up ==> final(self).describe_scroll == step_up(old(self).describe_scroll as nat, 1),
            key.code == KeyCode::Home ==> final(self).describe_scroll == 0,
            key.code == KeyCode::End ==> final(self).describe_scroll == step_up(total_lines as nat, DESCRIBE_PAGE as nat),
            key.code == KeyCode::Esc ==> final(self).mode == Mode::Normal,
    {
        let s = self.describe_scroll;
        match key.code {
            KeyCode::Esc | KeyCode::Backspace => {
                self.exit_mode();
            },
            KeyCode::Down => {
                self.describe_scroll = add_capped(s, 1);
            },
            KeyCode::Up => {
                self.describe_scroll = up_by(s, 1);
            },
            KeyCode::PageDown => {
                self.describe_scroll = add_capped(s, 10);
            },
            KeyCode::PageUp => {
                self.describe_scroll = up_by(s, 10);
            },
            KeyCode::Home => {
                self.describe_scroll = 0;
            },
            KeyCode::End => {
                self.describe_scroll = up_by(total_lines, DESCRIBE_PAGE);
            },
            KeyCode::Char(c) => {
                if c == 'q' || (c == 'd' && !key.ctrl) {
                    self.exit_mode();
                } else if c == 'j' {
                    self.describe_scroll = add_capped(s, 1);
                } else if c == 'k' {
                    self.describe_scroll = up_by(s, 1);
                } else if c == 'd' && key.ctrl {
                    self.describe_scroll = add_capped(s, 10);
                } else if c == 'u' && key.ctrl {
                    self.describe_scroll = up_by(s, 10);
                } else if c == 'g' {
                    self.describe_scroll = 0;
                } else if c == 'G' {
                    self.describe_scroll = up_by(total_lines, DESCRIBE_PAGE);
                }
            },
            _ => {},
        }
    }

    /// Keys of the notification history: move, `c` clears it, Esc, `q` or
    /// `n` close it.
    pub fn handle_notifications_key(&mut self, key: Key)
        requires
            old(self).wf(),
        ensures
            final(self).wf(),
            final(self).same_listing(old(self)),
            key.code == KeyCode::Home ==> final(self).notifications_selected == 0,
            key.code == KeyCode::End && old(self).notification_manager.notifications@.len() > 0
                ==> final(self).notifications_selected == old(self).notification_manager.notifications@.len() - 1,
            key.code == KeyCode::Char('c') ==> final(self).notification_manager.notifications@.len() == 0
                && final(self).notifications_selected == 0,
            key.code == KeyCode::Esc ==> final(self).mode == Mode::Normal,
    {
        let count = self.notification_manager.notifications.len();
        match key.code {
            KeyCode::Esc => {
                self.exit_mode();
            },
            KeyCode::Down => {
                if count > 0 && self.notifications_selected < count - 1 {
                    self.notifications_selected = self.notifications_selected + 1;
                }
            },
            KeyCode::Up => {
                self.notifications_selected = up_by(self.notifications_selected, 1);
            },
            KeyCode::Home => {
                self.notifications_selected = 0;
            },
            KeyCode::End => {
                if count > 0 {
                    self.notifications_selected = count - 1;
                }
            },
            KeyCode::Char(c) => {
                if c == 'q' || c == 'n' {
                    self.exit_mode();
                } else if c == 'j' {
                    if count > 0 && self.notifications_selected < count - 1 {
                        self.notifications_selected = self.notifications_selected + 1;
                    }
                } else if c == 'k' {
                    self.notifications_selected = up_by(self.notifications_selected, 1);
                } else if c == 'g' {
                    self.notifications_selected = 0;
                } else if c == 'G' {
                    if count > 0 {
                        self.notifications_selected = count - 1;
                    }
                } else if c == 'c' {
                    self.clear_notifications();
                    self.notifications_selected = 0;
                }
            },
            _ => {},
        }
    }

    /// Keys of the column overlay: move, Space toggles, Enter records the
    /// choice, Esc or `q` drops it.
    pub fn handle_column_config_key(&mut self, key: Key, config: &mut Config)
        requires
            old(self).wf(),
        ensures
            final(self).wf(),
            final(self).same_listing(old(self)),
            (key.code == KeyCode::Esc || key.code == KeyCode::Enter) ==> final(self).mode == Mode::Normal
                && final(self).column_config_state is None,
    {
        match key.code {
            KeyCode::Esc => {
                self.cancel_column_config();
            },
            KeyCode::Enter => {
                self.apply_column_config(config);
            },
            KeyCode::Char(' ') => {
                self.toggle_column_visibility();
            },
            KeyCode::Char('q') => {
                self.cancel_column_config();
            },
            _ => {
                let delta: i8 = match key.code {
                    KeyCode::Down | KeyCode::Char('j') => 1,
                    KeyCode::Up | KeyCode::Char('k') => -1,
                    KeyCode::Home | KeyCode::Char('g') => -2,
                    KeyCode::End | KeyCode::Char('G') => 2,
                    _ => 0,
                };
                match self.column_config_state.take() {
                    Some(st) => {
                        let mut st = st;
                        let n = st.columns.len();
                        if delta == 1 && n > 0 && st.selected < n - 1 {
                            st.selected = st.selected + 1;
                        } else if delta == -1 {
                            st.selected = up_by(st.selected, 1);
                        } else if delta == -2 {
                            st.selected = 0;
                        } else if delta == 2 && n > 0 {
                            st.selected = n - 1;
                        }
                        self.column_config_state = Some(st);
                    },
                    None => {},
                }
            },
        }
    }

    /// Keys of the project and zone pickers: move, type to search, Esc
    /// closes, Enter picks the name under the cursor (then the picker closes).
    pub fn handle_selector_key(&mut self, key: Key) -> (r: Option<String>)
        requires
            old(self).wf(),
        ensures
            final(self).wf(),
            r is Some ==> key.code == KeyCode::Enter && final(self).mode == Mode::Normal,
            key.code == KeyCode::Enter && old(self).mode == Mode::Projects && old(self).projects_selected
                < old(self).projects_filtered@.len() ==> r == Some(
                old(self).projects_filtered@[old(self).projects_selected as int],
            ),
            key.code == KeyCode::Enter && old(self).mode == Mode::Zones && old(self).zones_selected
                < old(self).zones_filtered@.len() ==> r == Some(
                old(self).zones_filtered@[old(self).zones_selected as int],
            ),
            key.code == KeyCode::Esc ==> final(self).mode == Mode::Normal && r is None,
    {
        let projects = self.mode == Mode::Projects;
        let zones = self.mode == Mode::Zones;
        match key.code {
            KeyCode::Esc => {
                self.exit_mode();
                None
            },
            KeyCode::Enter => {
                let picked = if projects && self.projects_selected < self.projects_filtered.len() {
                    Some(self.projects_filtered[self.projects_selected].clone())
                } else if zones && self.zones_selected < self.zones_filtered.len() {
                    Some(self.zones_filtered[self.zones_selected].clone())
                } else {
                    None
                };
                self.exit_mode();
                picked
            },
            KeyCode::Down => {
                self.next();
                None
            },
            KeyCode::Up => {
                self.previous();
                None
            },
            KeyCode::Home => {
                self.go_to_top();
                None
            },
            KeyCode::End => {
                self.go_to_bottom();
                None
            },
            KeyCode::PageDown => {
                self.page_down(PAGE_SCROLL_SIZE);
                None
            },
            KeyCode::PageUp => {
                self.page_up(PAGE_SCROLL_SIZE);
                None
            },
            KeyCode::Backspace => {
                if projects {
                    self.projects_search_text = drop_last_char(&self.projects_search_text);
                    self.apply_projects_filter();
                } else if zones {
                    self.zones_search_text = drop_last_char(&self.zones_search_text);
                    self.apply_zones_filter();
                }
                None
            },
            KeyCode::Char(c) => {
                if c == 'j' {
                    self.next();
                } else if c == 'k' {
                    self.previous();
                } else if c == 'G' {
                    self.go_to_bottom();
                } else if !key.ctrl {
                    if projects {
                        self.projects_search_text.push(c);
                        self.apply_projects_filter();
                    } else if zones {
                        self.zones_search_text.push(c);
                        self.apply_zones_filter();
                    }
                }
                None
            },
            _ => None,
        }
    }

    /// Makes `project` current and records it in the configuration (the
    /// caller points its client at it and saves).
    pub fn switch_project(&mut self, config: &mut Config, project: &str)
        requires
            old(self).wf(),
        ensures
            final(self).wf(),
            final(self).same_listing(old(self)),
            final(self).project@ == project@,
            final(config).project_id is Some && final(config).project_id->0@ == project@,
    {
        self.project = String::from_str(project);
        config.set_project(project);
    }

    /// Makes `zone` current and records it in the configuration.
    pub fn switch_zone(&mut self, config: &mut Config, zone: &str)
        requires
            old(self).wf(),
        ensures
            final(self).wf(),
            final(self).same_listing(old(self)),
            final(self).zone@ == zone@,
            final(config).zone is Some && final(config).zone->0@ == zone@,
    {
        self.zone = String::from_str(zone);
        config.set_zone(zone);
    }

    /// Keys of the command line: typing edits it and narrows the
    /// suggestions, Tab or Right takes the previewed one, Up and Down choose,
    /// Esc closes, Enter closes and returns the line to run.
    pub fn handle_command_key(&mut self, key: Key, reg: &Registry, config: &Config, themes: &Vec<String>) -> (r: Option<String>)
        requires
            old(self).wf(),
        ensures
            final(self).wf(),
            r is Some ==> key.code == KeyCode::Enter && final(self).mode == Mode::Normal,
            key.code == KeyCode::Esc ==> r is None && final(self).mode == Mode::Normal,
            key.code == KeyCode::Enter ==> r is Some && r->0@ == old(self).command_line_spec(),
            key.code is Char && !key.ctrl ==> final(self).command_text@ == old(self).command_text@.push(
                key.code->Char_0,
            ),
    {
        match key.code {
            KeyCode::Esc => {
                self.exit_mode();
                None
            },
            KeyCode::Enter => {
                let line = self.command_line();
                self.exit_mode();
                Some(line)
            },
            KeyCode::Backspace => {
                self.command_text = drop_last_char(&self.command_text);
                self.update_command_suggestions(reg, config, themes);
                None
            },
            KeyCode::Tab | KeyCode::Right => {
                match &self.command_preview {
                    Some(p) => {
                        self.command_text = p.clone();
                        self.update_command_suggestions(reg, config, themes);
                    },
                    None => {},
                }
                None
            },
            KeyCode::Down => {
                if self.command_suggestion_selected < self.command_suggestions.len()
                    || self.command_suggestion_selected == 0 {
                    self.next_suggestion();
                }
                None
            },
            KeyCode::Up => {
                if self.command_suggestion_selected < self.command_suggestions.len()
                    || self.command_suggestion_selected == 0 {
                    self.prev_suggestion();
                }
                None
            },
            KeyCode::Char(c) => {
                if !key.ctrl {
                    self.command_text.push(c);
                    self.update_command_suggestions(reg, config, themes);
                }
                None
            },
            _ => None,
        }
    }

    // ----- cursor movement -----

    /// Length of the list the cursor of the current mode moves in.
    pub open spec fn cursor_len(&self) -> nat {
        match self.mode {
            Mode::Projects => self.projects_filtered@.len(),
            Mode::Zones => self.zones_filtered@.len(),
            _ => self.filtered@.len(),
        }
    }

    /// Position of the cursor of the current mode.
    pub open spec fn cursor(&self) -> nat {
        match self.mode {
            Mode::Projects => self.projects_selected as nat,
            Mode::Zones => self.zones_selected as nat,
            _ => self.selected as nat,
        }
    }

    /// Only the cursor of the current mode moved, to `to`.
    pub open spec fn moved_cursor(&self, old_app: &App, to: nat) -> bool {
        &&& self.mode == old_app.mode
        &&& self.filtered == old_app.filtered
        &&& self.items == old_app.items
        &&& self.selected_indices == old_app.selected_indices
        &&& self.viewport_height == old_app.viewport_height
        &&& self.pagination == old_app.pagination
        &&& self.projects_filtered == old_app.projects_filtered
        &&& self.zones_filtered == old_app.zones_filtered
        &&& match self.mode {
            Mode::Projects => self.projects_selected == to && self.zones_selected
                == old_app.zones_selected && self.selected == old_app.selected,
            Mode::Zones => self.zones_selected == to && self.projects_selected
                == old_app.projects_selected && self.selected == old_app.selected,
            _ => self.selected == to && self.projects_selected == old_app.projects_selected
                && self.zones_selected == old_app.zones_selected,
        }
    }

    fn set_cursor(&mut self, to: usize)
        requires
            old(self).wf(),
            old(self).mode != Mode::Projects && old(self).mode != Mode::Zones && old(self).filtered@.len() > 0
                ==> to < old(self).filtered@.len(),
        ensures
            final(self).wf(),
            final(self).moved_cursor(old(self), to as nat),
    {
        match self.mode {
            Mode::Projects => {
                self.projects_selected = to;
            },
            Mode::Zones => {
                self.zones_selected = to;
            },
            _ => {
                self.selected = to;
            },
        }
    }

    fn cursor_exec(&self) -> (r: (usize, usize))
        ensures
            r.0 == self.cursor(),
            r.1 == self.cursor_len(),
    {
        match self.mode {
            Mode::Projects => (self.projects_selected, self.projects_filtered.len()),
            Mode::Zones => (self.zones_selected, self.zones_filtered.len()),
            _ => (self.selected, self.filtered.len()),
        }
    }

    /// Moves the cursor of the current mode down by `page_size` rows, not
    /// past the last row.
    pub fn page_down(&mut self, page_size: usize)
        requires
            old(self).wf(),
        ensures
            final(self).wf(),
            final(self).moved_cursor(
                old(self),
                step_down(old(self).cursor(), page_size as nat, old(self).cursor_len()),
            ),
    {
        let (c, len) = self.cursor_exec();
        let to = down_by(c, page_size, len);
        self.set_cursor(to);
    }

    /// Moves the cursor of the current mode up by `page_size` rows, not
    /// above the first row.
    pub fn page_up(&mut self, page_size: usize)
        requires
            old(self).wf(),
        ensures
            final(self).wf(),
            final(self).moved_cursor(old(self), step_up(old(self).cursor(), page_size as nat)),
    {
        let (c, len) = self.cursor_exec();
        let to = up_by(c, page_size);
        self.set_cursor(to);
    }

    /// One row down.
    pub fn next(&mut self)
        requires
            old(self).wf(),
        ensures
            final(self).wf(),
            final(self).moved_cursor(old(self), step_down(old(self).cursor(), 1, old(self).cursor_len())),
    {
        self.page_down(1);
    }

    /// One row up.
    pub fn previous(&mut self)
        requires
            old(self).wf(),
        ensures
            final(self).wf(),
            final(self).moved_cursor(old(self), step_up(old(self).cursor(), 1)),
    {
        self.page_up(1);
    }

    /// To the first row.
    pub fn go_to_top(&mut self)
        requires
            old(self).wf(),
        ensures
            final(self).wf(),
            final(self).moved_cursor(old(self), 0),
    {
        self.set_cursor(0);
    }

    /// To the last row; an empty list leaves the cursor where it is.
    pub fn go_to_bottom(&mut self)
        requires
            old(self).wf(),
        ensures
            final(self).wf(),
            final(self).moved_cursor(
                old(self),
                if old(self).cursor_len() > 0 {
                    (old(self).cursor_len() - 1) as nat
                } else {
                    old(self).cursor()
                },
            ),
    {
        let (c, len) = self.cursor_exec();
        if len > 0 {
            self.set_cursor(len - 1);
        } else {
            self.set_cursor(c);
        }
    }

    // ----- modes -----

    /// Leaves any overlay: back to `Normal`, dropping the pending action and
    /// the warning.
    pub fn exit_mode(&mut self)
        requires
            old(self).wf(),
        ensures
            final(self).wf(),
            final(self).same_listing(old(self)),
            final(self).mode == Mode::Normal,
            final(self).pending_action is None,
            final(self).warning_message is None,
            final(self).filtered == old(self).filtered,
            final(self).items == old(self).items,
            final(self).selected == old(self).selected,
            final(self).selected_indices == old(self).selected_indices,
            final(self).notification_manager == old(self).notification_manager,
            final(self).error_message == old(self).error_message,
            final(self).notifications_selected == old(self).notifications_selected,
    {
        self.mode = Mode::Normal;
        self.pending_action = None;
        self.warning_message = None;
        self.describe_scroll = 0;
    }

    pub fn enter_help_mode(&mut self)
        requires
            old(self).wf(),
        ensures
            final(self).wf(),
            final(self).mode == Mode::Help,
    {
        self.mode = Mode::Help;
    }

    /// Shows the record under the cursor in detail; nothing happens on an
    /// empty view.
    pub fn enter_describe_mode(&mut self)
        requires
            old(self).wf(),
        ensures
            final(self).wf(),
            old(self).filtered@.len() > 0 ==> final(self).mode == Mode::Describe && final(self).describe_scroll == 0,
            old(self).filtered@.len() == 0 ==> final(self).mode == old(self).mode,
    {
        if self.filtered.len() == 0 {
            return;
        }
        self.mode = Mode::Describe;
        self.describe_scroll = 0;
    }

    /// Waits for the user to confirm `pending`.
    pub fn enter_confirm_mode(&mut self, pending: PendingAction)
        requires
            old(self).wf(),
        ensures
            final(self).wf(),
            final(self).same_listing(old(self)),
            final(self).mode == Mode::Confirm,
            final(self).pending_action == Some(pending),
            final(self).notification_manager == old(self).notification_manager,
            final(self).selected_indices == old(self).selected_indices,
            final(self).filtered == old(self).filtered,
    {
        self.pending_action = Some(pending);
        self.mode = Mode::Confirm;
    }

    /// Shows a warning that only needs acknowledging.
    pub fn show_warning(&mut self, message: &str)
        requires
            old(self).wf(),
        ensures
            final(self).wf(),
            final(self).same_listing(old(self)),
            final(self).mode == Mode::Warning,
            final(self).warning_message is Some && final(self).warning_message->0@ == message@,
            final(self).notification_manager == old(self).notification_manager,
            final(self).selected_indices == old(self).selected_indices,
            final(self).filtered == old(self).filtered,
            final(self).pending_action == old(self).pending_action,
    {
        self.warning_message = Some(String::from_str(message));
        self.mode = Mode::Warning;
    }

    /// Opens the notification history.
    pub fn enter_notifications_mode(&mut self)
        requires
            old(self).wf(),
        ensures
            final(self).wf(),
            final(self).mode == Mode::Notifications,
            final(self).notifications_selected == 0,
    {
        self.notifications_selected = 0;
        self.mode = Mode::Notifications;
    }

    /// Opens the project picker with every project listed and the cursor on
    /// the current project, if listed.
    pub fn enter_projects_mode(&mut self)
        requires
            old(self).wf(),
        ensures
            final(self).wf(),
            final(self).mode == Mode::Projects,
            final(self).projects_filtered@ == old(self).available_projects@,
            final(self).projects_search_text@.len() == 0,
            final(self).projects_selected == first_index_of(old(self).available_projects@, old(self).project@),
    {
        self.projects_search_text = String::new();
        self.projects_filtered = clone_strings(&self.available_projects);
        self.projects_selected = position_in(&self.projects_filtered, self.project.as_str());
        self.mode = Mode::Projects;
    }

    /// Opens the zone picker with every zone listed and the cursor on the
    /// current zone, if listed.
    pub fn enter_zones_mode(&mut self)
        requires
            old(self).wf(),
        ensures
            final(self).wf(),
            final(self).mode == Mode::Zones,
            final(self).zones_filtered@ == old(self).available_zones@,
            final(self).zones_search_text@.len() == 0,
            final(self).zones_selected == first_index_of(old(self).available_zones@, old(self).zone@),
    {
        self.zones_search_text = String::new();
        self.zones_filtered = clone_strings(&self.available_zones);
        self.zones_selected = position_in(&self.zones_filtered, self.zone.as_str());
        self.mode = Mode::Zones;
    }

    /// Narrows the project list to the names that hold the search text,
    /// case-insensitively; the cursor goes back to the top if it fell out.
    pub fn apply_projects_filter(&mut self)
        requires
            old(self).wf(),
        ensures
            final(self).wf(),
            final(self).projects_filtered@.map_values(|s: String| s@) == names_matching(
                old(self).available_projects@,
                lower_of(old(self).projects_search_text@),
            ),
            final(self).projects_selected == if old(self).projects_selected < final(self).projects_filtered@.len() {
                old(self).projects_selected
            } else {
                0
            },
    {
        let f = lowercase(self.projects_search_text.as_str());
        self.projects_filtered = filter_names(&self.available_projects, f.as_str());
        if self.projects_selected >= self.projects_filtered.len() {
            self.projects_selected = 0;
        }
    }

    /// Narrows the zone list to the names that hold the search text,
    /// case-insensitively; the cursor goes back to the top if it fell out.
    pub fn apply_zones_filter(&mut self)
        requires
            old(self).wf(),
        ensures
            final(self).wf(),
            final(self).zones_filtered@.map_values(|s: String| s@) == names_matching(
                old(self).available_zones@,
                lower_of(old(self).zones_search_text@),
            ),
            final(self).zones_selected == if old(self).zones_selected < final(self).zones_filtered@.len() {
                old(self).zones_selected
            } else {
                0
            },
    {
        let f = lowercase(self.zones_search_text.as_str());
        self.zones_filtered = filter_names(&self.available_zones, f.as_str());
        if self.zones_selected >= self.zones_filtered.len() {
            self.zones_selected = 0;
        }
    }

    // ----- virtual scrolling -----

    /// Records the viewport height that the last frame had (at least one row).
    pub fn update_viewport(&mut self, height: usize)
        requires
            old(self).wf(),
        ensures
            final(self).wf(),
            final(self).viewport_height == if height >= 1 {
                height
            } else {
                1
            },
            final(self).filtered == old(self).filtered,
            final(self).selected == old(self).selected,
            final(self).scroll_offset == old(self).scroll_offset,
    {
        self.viewport_height = if height >= 1 {
            height
        } else {
            1
        };
    }

    /// Moves the scroll offset as little as needed to keep the cursor at
    /// least `SCROLL_MARGIN` rows (fewer on a short viewport) from either edge, then clamps it to
    /// `[0, max(0, total - viewport_height)]`.
    pub fn ensure_visible(&mut self)
        requires
            old(self).wf(),
        ensures
            final(self).wf(),
            final(self).scroll_offset == scrolled(
                old(self).selected as nat,
                old(self).scroll_offset as nat,
                old(self).viewport_height as nat,
                old(self).filtered@.len(),
            ),
            final(self).scroll_offset <= step_up(old(self).filtered@.len(), old(self).viewport_height as nat),
            old(self).filtered@.len() > 0 ==> final(self).scroll_offset
                <= final(self).selected < final(self).scroll_offset + final(self).viewport_height,
            final(self).selected == old(self).selected,
            final(self).filtered == old(self).filtered,
            final(self).items == old(self).items,
            final(self).viewport_height == old(self).viewport_height,
            final(self).selected_indices == old(self).selected_indices,
    {
        let total = self.filtered.len();
        if total == 0 {
            self.scroll_offset = 0;
            return;
        }
        let h = self.viewport_height;
        let sel = self.selected;
        let m = margin_for_exec(h);
        let mut o = self.scroll_offset;
        if sel < o || sel - o < m {
            o = up_by(sel, m);
        } else if sel - o >= up_by(h, m) {
            o = up_by(sel, up_by(h, m + 1));
        }
        let max_offset = up_by(total, h);
        if o > max_offset {
            o = max_offset;
        }
        self.scroll_offset = o;
    }

    /// The half-open range of view positions on screen:
    /// `[scroll_offset, min(scroll_offset + viewport_height, total))`.
    pub fn visible_range(&self) -> (r: (usize, usize))
        ensures
            r.0 == self.scroll_offset,
            r.1 as int == if self.scroll_offset + self.viewport_height < self.filtered@.len() {
                self.scroll_offset + self.viewport_height
            } else {
                self.filtered@.len() as int
            },
    {
        let total = self.filtered.len();
        let end = if self.viewport_height < total && self.scroll_offset < total - self.viewport_height {
            self.scroll_offset + self.viewport_height
        } else {
            total
        };
        (self.scroll_offset, end)
    }

    // ----- multi-selection -----

    /// Flips the selection of the record under the cursor.
    pub fn toggle_selection(&mut self)
        requires
            old(self).wf(),
        ensures
            final(self).wf(),
            old(self).filtered@.len() == 0 ==> final(self).selected_indices@ == old(self).selected_indices@,
            old(self).filtered@.len() > 0 && old(self).selected_indices@.contains(old(self).selected)
                ==> final(self).selected_indices@ == old(self).selected_indices@.remove(old(self).selected),
            old(self).filtered@.len() > 0 && !old(self).selected_indices@.contains(old(self).selected)
                ==> final(self).selected_indices@ == old(self).selected_indices@.insert(old(self).selected),
            final(self).selected == old(self).selected,
            final(self).filtered == old(self).filtered,
    {
        if self.filtered.len() == 0 {
            return;
        }
        let sel = self.selected;
        if self.selected_indices.contains(&sel) {
            self.selected_indices.remove(&sel);
        } else {
            self.selected_indices.insert(sel);
        }
    }

    /// Selects every record of the view.
    pub fn select_all(&mut self)
        requires
            old(self).wf(),
        ensures
            final(self).wf(),
            final(self).selected_indices@ == Set::new(|i: usize| i < old(self).filtered@.len()),
            final(self).selected == old(self).selected,
            final(self).filtered == old(self).filtered,
    {
        let n = self.filtered.len();
        let mut set: HashSet<usize> = HashSet::new();
        let mut i: usize = 0;
        while i < n
            invariant
                i <= n,
                set@ == Set::new(|k: usize| k < i),
            decreases n - i,
        {
            set.insert(i);
            proof {
                assert(set@ =~= Set::new(|k: usize| k < i + 1));
            }
            i = i + 1;
        }
        self.selected_indices = set;
    }

    /// Empties the selection and leaves visual mode.
    pub fn clear_selection(&mut self)
        requires
            old(self).wf(),
        ensures
            final(self).wf(),
            final(self).same_listing(old(self)),
            final(self).selected_indices@.len() == 0,
            final(self).selected_indices@ == Set::<usize>::empty(),
            !final(self).visual_mode,
            final(self).selected == old(self).selected,
            final(self).filtered == old(self).filtered,
            final(self).items == old(self).items,
            final(self).mode == old(self).mode,
            final(self).notification_manager == old(self).notification_manager,
            final(self).error_message == old(self).error_message,
            final(self).pending_action == old(self).pending_action,
    {
        self.selected_indices.clear();
        self.visual_mode = false;
    }

    /// Whether view position `index` is selected.
    pub fn is_selected(&self, index: usize) -> (r: bool)
        ensures
            r == self.selected_indices@.contains(index),
    {
        self.selected_indices.contains(&index)
    }

    /// Number of selected records.
    pub fn selection_count(&self) -> (r: usize)
        ensures
            r == self.selected_indices@.len(),
    {
        self.selected_indices.len()
    }

    /// Flips visual (multi-select) mode.
    pub fn toggle_visual_mode(&mut self)
        requires
            old(self).wf(),
        ensures
            final(self).wf(),
            final(self).visual_mode == !old(self).visual_mode,
            final(self).selected_indices == old(self).selected_indices,
    {
        self.visual_mode = !self.visual_mode;
    }

    /// Selects the record under the cursor, moves down one row, and selects
    /// that one too.
    pub fn extend_selection_down(&mut self)
        requires
            old(self).wf(),
        ensures
            final(self).wf(),
            old(self).filtered@.len() == 0 ==> final(self).selected_indices@ == old(self).selected_indices@
                && final(self).selected == old(self).selected,
            old(self).filtered@.len() > 0 ==> final(self).selected == step_down(
                old(self).selected as nat,
                1,
                old(self).filtered@.len(),
            ) && final(self).selected_indices@ == old(self).selected_indices@.insert(
                old(self).selected,
            ).insert(final(self).selected),
            final(self).filtered == old(self).filtered,
    {
        let n = self.filtered.len();
        if n == 0 {
            return;
        }
        self.selected_indices.insert(self.selected);
        if self.selected < n - 1 {
            self.selected = self.selected + 1;
        }
        self.selected_indices.insert(self.selected);
        proof {
            assert(self.selected_indices@ =~= old(self).selected_indices@.insert(old(self).selected).insert(self.selected));
        }
    }

    /// Selects the record under the cursor, moves up one row, and selects
    /// that one too.
    pub fn extend_selection_up(&mut self)
        requires
            old(self).wf(),
        ensures
            final(self).wf(),
            old(self).filtered@.len() == 0 ==> final(self).selected_indices@ == old(self).selected_indices@
                && final(self).selected == old(self).selected,
            old(self).filtered@.len() > 0 ==> final(self).selected == step_up(old(self).selected as nat, 1)
                && final(self).selected_indices@ == old(self).selected_indices@.insert(
                old(self).selected,
            ).insert(final(self).selected),
            final(self).filtered == old(self).filtered,
    {
        let n = self.filtered.len();
        if n == 0 {
            return;
        }
        self.selected_indices.insert(self.selected);
        if self.selected > 0 {
            self.selected = self.selected - 1;
        }
        self.selected_indices.insert(self.selected);
    }

    /// The identifiers of the selected records, in view order: the name
    /// field, else the id field; records with neither are left out.
    pub fn selected_resource_ids(&self, reg: &Registry) -> (r: Vec<String>)
        requires
            self.wf(),
            reg.wf(),
        ensures
            reg.resource_spec(self.current_resource_key@) is None ==> r@.len() == 0,
            ({
                match reg.resource_spec(self.current_resource_key@) {
                    Some(d) => r@.map_values(|s: String| s@) == selected_ids(
                        self.items@,
                        self.filtered@,
                        self.selected_indices@,
                        d.name_field@,
                        d.id_field@,
                        self.filtered@.len(),
                    ),
                    None => true,
                }
            }),
    {
        let def = match reg.get_resource(self.current_resource_key.as_str()) {
            Some(d) => d,
            None => {
                return Vec::new();
            },
        };
        let n = self.filtered.len();
        let mut out: Vec<String> = Vec::new();
        let mut i: usize = 0;
        while i < n
            invariant
                self.wf(),
                n == self.filtered@.len(),
                i <= n,
                reg.resource_spec(self.current_resource_key@) == Some(*def),
                out@.map_values(|s: String| s@) == selected_ids(
                    self.items@,
                    self.filtered@,
                    self.selected_indices@,
                    def.name_field@,
                    def.id_field@,
                    i as nat,
                ),
            decreases n - i,
        {
            let ghost before = out@;
            if self.selected_indices.contains(&i) {
                let rec = &self.items[self.filtered[i]];
                match record_id(rec, def) {
                    Some(id) => {
                        out.push(id);
                    },
                    None => {},
                }
            }
            proof {
                assert(out@.map_values(|s: String| s@) =~= selected_ids(
                    self.items@,
                    self.filtered@,
                    self.selected_indices@,
                    def.name_field@,
                    def.id_field@,
                    i as nat + 1,
                ));
            }
            i = i + 1;
        }
        out
    }

    /// Sorts the view by the active sort column, stably: numerically when
    /// both values are decimals, else as text; equal keys keep their order.
    /// Clears the selection. Without an active column, a known type, or that
    /// column, nothing changes.
    pub fn apply_sort(&mut self, reg: &Registry)
        requires
            old(self).wf(),
            reg.wf(),
        ensures
            final(self).wf(),
            ({
                let def = reg.resource_spec(old(self).current_resource_key@);
                if old(self).sort_column is Some && def is Some && (old(self).sort_column->0
                    < def->0.columns@.len()) {
                    let path = def->0.columns@[old(self).sort_column->0 as int].json_path@;
                    &&& exists|p: Seq<usize>|
                        reordered(final(self).filtered@, old(self).filtered@, p) && sorted_positions_spec(
                            p,
                            sort_keys(old(self).items@, old(self).filtered@, path),
                            old(self).sort_ascending,
                        )
                    &&& final(self).selected_indices@.len() == 0
                } else {
                    final(self).filtered == old(self).filtered && final(self).selected_indices
                        == old(self).selected_indices
                }
            }),
            is_permutation_of(final(self).filtered@, old(self).filtered@),
            final(self).filtered@ == view_after_sort(
                old(self).items@,
                old(self).filtered@,
                reg.resource_spec(old(self).current_resource_key@),
                old(self).sort_column,
                old(self).sort_ascending,
            ),
            final(self).selected == old(self).selected,
            final(self).items == old(self).items,
            final(self).current_resource_key == old(self).current_resource_key,
            final(self).filter_text == old(self).filter_text,
            final(self).filter_active == old(self).filter_active,
            final(self).mode == old(self).mode,
            final(self).sort_column == old(self).sort_column,
            final(self).sort_ascending == old(self).sort_ascending,
            final(self).pagination == old(self).pagination,
            final(self).generation == old(self).generation,
            final(self).viewport_height == old(self).viewport_height,
            final(self).scroll_offset == old(self).scroll_offset,
            final(self).parent_context == old(self).parent_context,
            final(self).navigation_stack == old(self).navigation_stack,
            final(self).notification_manager == old(self).notification_manager,
            final(self).pending_action == old(self).pending_action,
    {
        let n0 = self.filtered.len();
        proof {
            lemma_permutation_refl(self.filtered@);
        }
        let col_idx = match self.sort_column {
            Some(c) => c,
            None => {
                return;
            },
        };
        let def = match reg.get_resource(self.current_resource_key.as_str()) {
            Some(d) => d,
            None => {
                return;
            },
        };
        if col_idx >= def.columns.len() {
            return;
        }
        let path = def.columns[col_idx].json_path.as_str();
        let ghost gpath = path@;
        let mut keys: Vec<String> = Vec::new();
        let m = self.filtered.len();
        let mut k: usize = 0;
        while k < m
            invariant
                self == old(self),
                self.wf(),
                m == self.filtered@.len(),
                k <= m,
                gpath == path@,
                keys@.len() == k,
                forall|j: int| 0 <= j < k ==> #[trigger] keys@[j]@ == sort_keys(self.items@, self.filtered@, gpath)[j],
            decreases m - k,
        {
            let key = match extract_json_value(&self.items[self.filtered[k]].value, path) {
                Some(t) => t,
                None => String::from_str("-"),
            };
            proof {
                assert(self.filtered@[k as int] < self.items@.len());
                assert(sort_keys(self.items@, self.filtered@, gpath)[k as int] == key@);
            }
            keys.push(key);
            k = k + 1;
        }
        proof {
            assert(keys@.map_values(|s: String| s@) =~= sort_keys(self.items@, self.filtered@, gpath));
        }
        let perm = sort_positions(&keys, self.sort_ascending);
        let mut view: Vec<usize> = Vec::new();
        let mut q: usize = 0;
        while q < m
            invariant
                self == old(self),
                self.wf(),
                m == self.filtered@.len(),
                perm@.len() == m,
                distinct_below(perm@, m as nat),
                q <= m,
                view@.len() == q,
                forall|t: int| 0 <= t < q ==> #[trigger] view@[t] == self.filtered@[perm@[t] as int],
            decreases m - q,
        {
            view.push(self.filtered[perm[q]]);
            q = q + 1;
        }
        proof {
            assert(reordered(view@, self.filtered@, perm@));
            assert(sorted_positions_spec(perm@, sort_keys(old(self).items@, old(self).filtered@, gpath), self.sort_ascending));
        }
        self.filtered = view;
        self.selected_indices.clear();
        proof {
            assert(reordered(self.filtered@, old(self).filtered@, perm@));
            assert forall|t: int| 0 <= t < self.filtered@.len() implies #[trigger] self.filtered@[t] < self.items@.len() by {
                assert(perm@[t] < m);
            }
        }
    }

    /// Sorts by `column_index`: the same column again flips the direction, a
    /// new one starts ascending.
    pub fn sort_by_column(&mut self, reg: &Registry, column_index: usize)
        requires
            old(self).wf(),
            reg.wf(),
        ensures
            final(self).wf(),
            final(self).sort_column == Some(column_index),
            final(self).sort_ascending == if old(self).sort_column == Some(column_index) {
                !old(self).sort_ascending
            } else {
                true
            },
            is_permutation_of(final(self).filtered@, old(self).filtered@),
            final(self).filtered@ == view_after_sort(
                old(self).items@,
                old(self).filtered@,
                reg.resource_spec(old(self).current_resource_key@),
                Some(column_index),
                final(self).sort_ascending,
            ),
    {
        match self.sort_column {
            Some(current) => {
                if current == column_index {
                    self.sort_ascending = !self.sort_ascending;
                } else {
                    self.sort_column = Some(column_index);
                    self.sort_ascending = true;
                }
            },
            None => {
                self.sort_column = Some(column_index);
                self.sort_ascending = true;
            },
        }
        self.apply_sort(reg);
    }

    /// Drops the sort and restores the fetched order.
    pub fn clear_sort(&mut self, reg: &Registry)
        requires
            old(self).wf(),
            reg.wf(),
        ensures
            final(self).wf(),
            final(self).sort_column is None,
            final(self).filtered@ == filter_view(
                old(self).items@,
                paths_of(*reg, old(self).current_resource_key@),
                lower_of(old(self).filter_text@),
            ),
    {
        self.sort_column = None;
        self.apply_filter(reg);
    }
}

/// The identifiers of the selected records of an app under declaration `d`.
pub open spec fn selection_targets(app: App, d: ResourceDef) -> Seq<Seq<char>> {
    selected_ids(app.items@, app.filtered@, app.selected_indices@, d.name_field@, d.id_field@, app.filtered@.len())
}

/// The name of the record under the cursor, if the view is not empty and
/// the record has one.
pub open spec fn cursor_name(app: App, d: ResourceDef) -> Option<Seq<char>> {
    if app.filtered@.len() > 0 {
        field_text(app.items@[app.filtered@[app.selected as int] as int].value, d.name_field@)
    } else {
        None
    }
}

/// A pending action for this service and method over these targets.
pub open spec fn pending_matches(p: Option<PendingAction>, service: Seq<char>, method: Seq<char>, targets: Seq<Seq<char>>) -> bool {
    match p {
        Some(a) => a.service@ == service && a.sdk_method@ == method && a.resource_ids@.map_values(
            |s: String| s@,
        ) == targets,
        None => false,
    }
}

/// The identifier of a record: its non-empty name, else its id.
pub open spec fn id_of(rec: Record, name_field: Seq<char>, id_field: Seq<char>) -> Option<Seq<char>> {
    match field_text(rec.value, name_field) {
        Some(n) => if n.len() > 0 {
            Some(n)
        } else {
            field_text(rec.value, id_field)
        },
        None => field_text(rec.value, id_field),
    }
}

/// The identifiers of the selected view positions below `n`, in order.
pub open spec fn selected_ids(
    items: Seq<Record>,
    view: Seq<usize>,
    sel: Set<usize>,
    name_field: Seq<char>,
    id_field: Seq<char>,
    n: nat,
) -> Seq<Seq<char>>
    decreases n,
{
    if n == 0 {
        Seq::empty()
    } else {
        let p = selected_ids(items, view, sel, name_field, id_field, (n - 1) as nat);
        let k = (n - 1) as usize;
        if sel.contains(k) {
            match id_of(items[view[k as int] as int], name_field, id_field) {
                Some(t) => p.push(t),
                None => p,
            }
        } else {
            p
        }
    }
}

/// The identifier of a record under a resource declaration.
pub fn record_id(rec: &Record, def: &ResourceDef) -> (r: Option<String>)
    ensures
        match id_of(*rec, def.name_field@, def.id_field@) {
            Some(t) => r is Some && r->0@ == t,
            None => r is None,
        },
{
    match extract_json_value(&rec.value, def.name_field.as_str()) {
        Some(n) => {
            if n.as_str().unicode_len() > 0 {
                Some(n)
            } else {
                extract_json_value(&rec.value, def.id_field.as_str())
            }
        },
        None => extract_json_value(&rec.value, def.id_field.as_str()),
    }
}

/// Index of the first name equal to `name` from `i` on, or 0 when none is.
pub open spec fn first_index_from(names: Seq<String>, name: Seq<char>, i: nat) -> usize
    decreases names.len() - i,
{
    if i >= names.len() {
        0
    } else if names[i as int]@ == name {
        i as usize
    } else {
        first_index_from(names, name, i + 1)
    }
}

/// Index of the first name equal to `name`, or 0 when none is.
pub open spec fn first_index_of(names: Seq<String>, name: Seq<char>) -> usize {
    first_index_from(names, name, 0)
}

fn position_in(names: &Vec<String>, name: &str) -> (r: usize)
    ensures
        r == first_index_of(names@, name@),
{
    let mut i: usize = 0;
    while i < names.len()
        invariant
            i <= names@.len(),
            first_index_of(names@, name@) == first_index_from(names@, name@, i as nat),
        decreases names@.len() - i,
    {
        if crate::text::str_eq(names[i].as_str(), name) {
            return i;
        }
        i = i + 1;
    }
    0
}

/// The names whose lower-cased form holds `f`, in order; all of them for an
/// empty `f`.
pub open spec fn names_matching(names: Seq<String>, f: Seq<char>) -> Seq<Seq<char>>
    decreases names.len(),
{
    if names.len() == 0 {
        Seq::empty()
    } else {
        let p = names_matching(names.drop_last(), f);
        if f.len() == 0 || contains_seq(lower_of(names.last()@), f) {
            p.push(names.last()@)
        } else {
            p
        }
    }
}

fn filter_names(names: &Vec<String>, f: &str) -> (r: Vec<String>)
    ensures
        r@.map_values(|s: String| s@) == names_matching(names@, f@),
{
    let empty = f.unicode_len() == 0;
    let mut out: Vec<String> = Vec::new();
    let mut i: usize = 0;
    proof {
        assert(names@.subrange(0, 0) =~= Seq::<String>::empty());
        assert(out@.map_values(|s: String| s@) =~= Seq::<Seq<char>>::empty());
    }
    while i < names.len()
        invariant
            i <= names@.len(),
            empty == (f@.len() == 0),
            out@.map_values(|s: String| s@) == names_matching(names@.subrange(0, i as int), f@),
        decreases names@.len() - i,
    {
        proof {
            assert(names@.subrange(0, i as int + 1).drop_last() =~= names@.subrange(0, i as int));
            assert(names@.subrange(0, i as int + 1).last() == names@[i as int]);
        }
        let keep = if empty {
            true
        } else {
            let l = lowercase(names[i].as_str());
            str_contains(l.as_str(), f)
        };
        if keep {
            out.push(names[i].clone());
            proof {
                assert(out@.map_values(|s: String| s@) =~= names_matching(names@.subrange(0, i as int + 1), f@));
            }
        }
        i = i + 1;
    }
    proof {
        assert(names@.subrange(0, names@.len() as int) =~= names@);
    }
    out
}

/// A breadcrumb entry: `resource_key:display_name`.
pub open spec fn crumb(p: ParentContext) -> Seq<char> {
    p.resource_key@ + ":"@ + p.display_name@
}

fn crumb_exec(p: &ParentContext) -> (r: String)
    ensures
        r@ == crumb(*p),
{
    let mut s = p.resource_key.clone();
    s.append(":");
    s.append(p.display_name.as_str());
    s
}


proof fn lemma_matching_bounds(items: Seq<Record>, paths: Option<Seq<Seq<char>>>, f: Seq<char>, n: nat)
    requires
        n <= items.len(),
        items.len() <= usize::MAX,
    ensures
        matching(items, paths, f, n).len() <= n,
        forall|k: int|
            0 <= k < matching(items, paths, f, n).len() ==> #[trigger] matching(items, paths, f, n)[k] < n
                && record_matches(items[matching(items, paths, f, n)[k] as int], paths, f),
    decreases n,
{
    if n > 0 {
        lemma_matching_bounds(items, paths, f, (n - 1) as nat);
        let p = matching(items, paths, f, (n - 1) as nat);
        let m = matching(items, paths, f, n);
        assert forall|k: int| 0 <= k < m.len() implies #[trigger] m[k] < n && record_matches(
            items[m[k] as int],
            paths,
            f,
        ) by {
            if k < p.len() {
                assert(m[k] == p[k]);
            } else {
                assert(m[k] == (n - 1) as usize);
            }
        }
    }
}

/// Filtering never adds records: the view is no longer than the items.
pub proof fn lemma_filter_shrinks(items: Seq<Record>, paths: Option<Seq<Seq<char>>>, f: Seq<char>)
    requires
        items.len() <= usize::MAX,
    ensures
        filter_view(items, paths, f).len() <= items.len(),
{
    if f.len() > 0 {
        lemma_matching_bounds(items, paths, f, items.len());
    }
}

/// An empty filter keeps every record, in order.
pub proof fn lemma_empty_filter_keeps_all(items: Seq<Record>, paths: Option<Seq<Seq<char>>>)
    ensures
        filter_view(items, paths, Seq::empty()) == all_indices(items.len()),
{
}

/// Filtering is case-insensitive: two filter texts with the same lower-case
/// form select the same records.
pub proof fn lemma_filter_case_insensitive(
    items: Seq<Record>,
    paths: Option<Seq<Seq<char>>>,
    t1: Seq<char>,
    t2: Seq<char>,
)
    requires
        lower_of(t1) == lower_of(t2),
    ensures
        filter_view(items, paths, lower_of(t1)) == filter_view(items, paths, lower_of(t2)),
        forall|def: Option<ResourceDef>, col: Option<usize>, asc: bool|
            view_after_sort(items, filter_view(items, paths, lower_of(t1)), def, col, asc) == view_after_sort(
                items,
                filter_view(items, paths, lower_of(t2)),
                def,
                col,
                asc,
            ),
{
}

/// The records a view shows, in its order.
pub open spec fn shown(items: Seq<Record>, view: Seq<usize>) -> Seq<Record> {
    view.map_values(|i: usize| items[i as int])
}

proof fn lemma_matching_all(items: Seq<Record>, paths: Option<Seq<Seq<char>>>, f: Seq<char>, n: nat)
    requires
        n <= items.len(),
        items.len() <= usize::MAX,
        forall|k: int| 0 <= k < items.len() ==> record_matches(#[trigger] items[k], paths, f),
    ensures
        matching(items, paths, f, n) == all_indices(n),
    decreases n,
{
    if n > 0 {
        lemma_matching_all(items, paths, f, (n - 1) as nat);
        assert(matching(items, paths, f, n) =~= all_indices(n));
    }
}

/// Filtering again with the same text changes nothing: every record the
/// view shows matches, so filtering the shown records keeps them all.
pub proof fn lemma_filter_idempotent(items: Seq<Record>, paths: Option<Seq<Seq<char>>>, f: Seq<char>)
    requires
        items.len() <= usize::MAX,
    ensures
        filter_view(shown(items, filter_view(items, paths, f)), paths, f) == all_indices(
            filter_view(items, paths, f).len(),
        ),
{
    let v = filter_view(items, paths, f);
    let s = shown(items, v);
    if f.len() > 0 {
        lemma_matching_bounds(items, paths, f, items.len());
        assert forall|k: int| 0 <= k < s.len() implies record_matches(#[trigger] s[k], paths, f) by {
            assert(s[k] == items[v[k] as int]);
        }
        lemma_matching_all(s, paths, f, s.len());
    }
}

/// After `ensure_visible` on a non-empty view, the cursor is on screen, and
/// the offset lies in `[0, max(0, total - height)]`.
pub proof fn lemma_ensure_visible_shows_cursor(sel: nat, offset: nat, height: nat, total: nat)
    requires
        total > 0,
        sel < total,
        height >= 1,
    ensures
        scrolled(sel, offset, height, total) <= sel < scrolled(sel, offset, height, total) + height,
        scrolled(sel, offset, height, total) <= step_up(total, height),
{
}

/// Number of visible columns.
pub open spec fn visible_count(cols: Seq<ColumnConfigItem>) -> nat
    decreases cols.len(),
{
    if cols.len() == 0 {
        0
    } else {
        visible_count(cols.drop_last()) + if cols.last().visible {
            1nat
        } else {
            0nat
        }
    }
}

fn count_visible(cols: &Vec<ColumnConfigItem>) -> (r: usize)
    ensures
        r == visible_count(cols@),
{
    let mut c: usize = 0;
    let mut i: usize = 0;
    while i < cols.len()
        invariant
            i <= cols@.len(),
            c == visible_count(cols@.subrange(0, i as int)),
            c <= i,
        decreases cols@.len() - i,
    {
        proof {
            assert(cols@.subrange(0, i as int + 1).drop_last() =~= cols@.subrange(0, i as int));
        }
        if cols[i].visible {
            c = c + 1;
        }
        i = i + 1;
    }
    proof {
        assert(cols@.subrange(0, i as int) =~= cols@);
    }
    c
}

fn contains_string(v: &Vec<String>, s: &str) -> (r: bool)
    ensures
        r == exists|i: int| 0 <= i < v@.len() && #[trigger] v@[i]@ == s@,
{
    let mut i: usize = 0;
    while i < v.len()
        invariant
            i <= v@.len(),
            forall|j: int| 0 <= j < i ==> #[trigger] v@[j]@ != s@,
        decreases v@.len() - i,
    {
        if str_eq(v[i].as_str(), s) {
            return true;
        }
        i = i + 1;
    }
    false
}

/// The string without its last character.
fn drop_last_char(s: &String) -> (r: String)
    ensures
        s@.len() > 0 ==> r@ == s@.drop_last(),
        s@.len() == 0 ==> r@.len() == 0,
{
    let n = s.as_str().unicode_len();
    if n == 0 {
        String::new()
    } else {
        String::from_str(s.as_str().substring_char(0, n - 1))
    }
}

/// Whether `s` is the one character `c`.
fn is_single_char(s: &str, c: char) -> (r: bool)
    ensures
        r == (s@ == seq![c]),
{
    if s.unicode_len() != 1 {
        return false;
    }
    let r = s.get_char(0) == c;
    proof {
        if r {
            assert(s@ =~= seq![c]);
        }
    }
    r
}

fn clone_strings(v: &Vec<String>) -> (r: Vec<String>)
    ensures
        r@ == v@,
{
    let mut out: Vec<String> = Vec::new();
    let mut i: usize = 0;
    while i < v.len()
        invariant
            i <= v@.len(),
            out@ == v@.subrange(0, i as int),
        decreases v@.len() - i,
    {
        out.push(v[i].clone());
        proof {
            assert(out@ =~= v@.subrange(0, i as int + 1));
        }
        i = i + 1;
    }
    proof {
        assert(v@.subrange(0, v@.len() as int) =~= v@);
    }
    out
}

/// The view `v` once sorted by column `col` of declaration `def`, in the
/// chosen direction; unchanged without a column, a declaration, or when the
/// column does not exist.
pub open spec fn view_after_sort(
    items: Seq<Record>,
    v: Seq<usize>,
    def: Option<ResourceDef>,
    col: Option<usize>,
    ascending: bool,
) -> Seq<usize> {
    if col is Some && def is Some && col->0 < def->0.columns@.len() {
        let ks = sort_keys(items, v, def->0.columns@[col->0 as int].json_path@);
        crate::sort::insertion_sorted(ks, ascending, v.len()).map_values(|p: usize| v[p as int])
    } else {
        v
    }
}

/// `a` is `b` reordered by the distinct positions `p`.
pub open spec fn reordered(a: Seq<usize>, b: Seq<usize>, p: Seq<usize>) -> bool {
    &&& p.len() == b.len()
    &&& a.len() == b.len()
    &&& distinct_below(p, b.len())
    &&& forall|k: int| 0 <= k < a.len() ==> #[trigger] a[k] == b[p[k] as int]
}

/// `a` holds the elements of `b`, each once, in some order.
pub open spec fn is_permutation_of(a: Seq<usize>, b: Seq<usize>) -> bool {
    exists|p: Seq<usize>| reordered(a, b, p)
}

proof fn lemma_permutation_refl(a: Seq<usize>)
    requires
        a.len() <= usize::MAX,
    ensures
        is_permutation_of(a, a),
{
    let p = Seq::new(a.len(), |i: int| i as usize);
    assert forall|k: int, l: int| 0 <= k < l < p.len() implies #[trigger] p[k] != #[trigger] p[l] by {}
    assert forall|k: int| 0 <= k < a.len() implies #[trigger] a[k] == a[p[k] as int] by {}
    assert(reordered(a, a, p));
}

/// The sort key of each position of the view: the displayed text of the
/// column, absent values comparing as the placeholder `-`.
pub open spec fn sort_keys(items: Seq<Record>, view: Seq<usize>, path: Seq<char>) -> Seq<Seq<char>> {
    view.map_values(|i: usize| key_text(field_text(items[i as int].value, path)))
}

pub open spec fn key_text(o: Option<Seq<char>>) -> Seq<char> {
    match o {
        Some(t) => t,
        None => "-"@,
    }
}

} // verus!
