//! The resource backend's declarations: per resource type, the call that
//! lists it, where the items sit in the response, its identity and display
//! fields, its sub-resources and its actions with their confirmation policy.
//!
//! The registry is built once and then only read.
use vstd::prelude::*;
use crate::text::str_eq;

verus! {

/// A colour for cells whose value is `value`.
pub struct ColorDef {
    pub value: String,
    pub color: [u8; 3],
}

/// A displayed column: its header and the dot-path of its field.
pub struct ColumnDef {
    pub header: String,
    pub json_path: String,
    pub width: u16,
    pub color_map: Option<String>,
}

/// A related collection one can drill into from a selected record.
pub struct SubResourceDef {
    pub resource_key: String,
    pub display_name: String,
    pub shortcut: String,
    /// Field of the parent record whose value scopes the sub-resource.
    pub parent_id_field: String,
    /// Request parameter that receives that value.
    pub filter_param: String,
}

/// How an action asks for confirmation.
pub struct ConfirmConfig {
    pub message: Option<String>,
    pub default_yes: bool,
    pub destructive: bool,
}

/// What running an action means.
#[derive(Debug, Clone, Copy, PartialEq, Eq, Structural)]
pub enum ActionKind {
    /// A mutating call of the remote API.
    Api,
    /// An out-of-process command (SSH, opening the console); it mutates
    /// nothing remote.
    Shell,
}

/// An action on records of a resource type.
pub struct ActionDef {
    pub key: String,
    pub display_name: String,
    pub shortcut: Option<String>,
    pub sdk_method: String,
    pub kind: ActionKind,
    /// Older form of `confirm`: ask with the display name as message.
    pub needs_confirm: bool,
    pub confirm: Option<ConfirmConfig>,
}

pub open spec fn opt_string_view(o: Option<String>) -> Option<Seq<char>> {
    match o {
        Some(s) => Some(s@),
        None => None,
    }
}

fn copy_opt_string(o: &Option<String>) -> (r: Option<String>)
    ensures
        r == *o,
{
    match o {
        Some(s) => Some(s.clone()),
        None => None,
    }
}

impl ConfirmConfig {
    pub fn duplicate(&self) -> (r: ConfirmConfig)
        ensures
            r == *self,
    {
        ConfirmConfig {
            message: copy_opt_string(&self.message),
            default_yes: self.default_yes,
            destructive: self.destructive,
        }
    }
}

impl ActionDef {
    pub open spec fn requires_confirm_spec(&self) -> bool {
        self.confirm is Some || self.needs_confirm
    }

    /// Whether the action asks before it runs.
    pub fn requires_confirm(&self) -> (r: bool)
        ensures
            r == self.requires_confirm_spec(),
    {
        self.confirm.is_some() || self.needs_confirm
    }

    /// The confirmation policy: the declared one, else for the older form a
    /// non-destructive one with the display name as message, else none.
    pub fn get_confirm_config(&self) -> (r: Option<ConfirmConfig>)
        ensures
            (r is Some) == self.requires_confirm_spec(),
            match self.confirm {
                Some(c) => r == Some(c),
                None => if self.needs_confirm {
                    r is Some && opt_string_view(r->0.message) == Some(self.display_name@)
                        && !r->0.default_yes && !r->0.destructive
                } else {
                    r is None
                },
            },
    {
        match &self.confirm {
            Some(c) => Some(c.duplicate()),
            None => {
                if self.needs_confirm {
                    Some(
                        ConfirmConfig {
                            message: Some(self.display_name.clone()),
                            default_yes: false,
                            destructive: false,
                        },
                    )
                } else {
                    None
                }
            },
        }
    }
}

/// Declaration of one resource type.
pub struct ResourceDef {
    pub display_name: String,
    pub service: String,
    pub sdk_method: String,
    /// Parameters every listing call starts from, with their string values.
    pub sdk_method_params: Vec<(String, String)>,
    /// Dot-path of the item list in a response; empty when the response is
    /// the list itself.
    pub response_path: String,
    pub id_field: String,
    pub name_field: String,
    pub is_global: bool,
    pub is_regional: bool,
    pub columns: Vec<ColumnDef>,
    pub sub_resources: Vec<SubResourceDef>,
    pub actions: Vec<ActionDef>,
}

impl ResourceDef {
    /// Whether `key` is a declared sub-resource of this type.
    pub fn has_sub_resource(&self, key: &str) -> (r: bool)
        ensures
            r == exists|i: int|
                0 <= i < self.sub_resources@.len() && #[trigger] self.sub_resources@[i].resource_key@
                    == key@,
    {
        let mut i: usize = 0;
        while i < self.sub_resources.len()
            invariant
                i <= self.sub_resources@.len(),
                forall|j: int| 0 <= j < i ==> #[trigger] self.sub_resources@[j].resource_key@ != key@,
            decreases self.sub_resources@.len() - i,
        {
            if str_eq(self.sub_resources[i].resource_key.as_str(), key) {
                return true;
            }
            i = i + 1;
        }
        false
    }

    /// The declaration of sub-resource `key`, the first if several match.
    pub fn sub_resource(&self, key: &str) -> (r: Option<&SubResourceDef>)
        ensures
            match r {
                Some(s) => s.resource_key@ == key@ && exists|i: int|
                    0 <= i < self.sub_resources@.len() && self.sub_resources@[i] == *s,
                None => forall|i: int|
                    0 <= i < self.sub_resources@.len() ==> #[trigger] self.sub_resources@[i].resource_key@
                        != key@,
            },
    {
        let mut i: usize = 0;
        while i < self.sub_resources.len()
            invariant
                i <= self.sub_resources@.len(),
                forall|j: int| 0 <= j < i ==> #[trigger] self.sub_resources@[j].resource_key@ != key@,
            decreases self.sub_resources@.len() - i,
        {
            if str_eq(self.sub_resources[i].resource_key.as_str(), key) {
                return Some(&self.sub_resources[i]);
            }
            i = i + 1;
        }
        None
    }
}

/// The colour of the first entry of a colour map for this value.
pub open spec fn color_in(m: Seq<ColorDef>, value: Seq<char>) -> Option<[u8; 3]>
    decreases m.len(),
{
    if m.len() == 0 {
        None
    } else if m[0].value@ == value {
        Some(m[0].color)
    } else {
        color_in(m.drop_first(), value)
    }
}

/// Keys are unique.
pub open spec fn keys_unique<T>(entries: Seq<(String, T)>) -> bool {
    forall|i: int, j: int|
        0 <= i < entries.len() && 0 <= j < entries.len() && #[trigger] entries[i].0@ == #[trigger] entries[j].0@
            ==> i == j
}

/// All resource declarations and colour maps, by key.
pub struct Registry {
    pub resources: Vec<(String, ResourceDef)>,
    pub color_maps: Vec<(String, Vec<ColorDef>)>,
}

fn position_of<T>(entries: &Vec<(String, T)>, key: &str) -> (r: Option<usize>)
    ensures
        match r {
            Some(i) => i < entries@.len() && entries@[i as int].0@ == key@,
            None => forall|i: int| 0 <= i < entries@.len() ==> #[trigger] entries@[i].0@ != key@,
        },
{
    let mut i: usize = 0;
    while i < entries.len()
        invariant
            i <= entries@.len(),
            forall|j: int| 0 <= j < i ==> #[trigger] entries@[j].0@ != key@,
        decreases entries@.len() - i,
    {
        if str_eq(entries[i].0.as_str(), key) {
            return Some(i);
        }
        i = i + 1;
    }
    None
}

impl Registry {
    pub open spec fn wf(&self) -> bool {
        keys_unique(self.resources@) && keys_unique(self.color_maps@)
    }

    pub fn new() -> (r: Registry)
        ensures
            r.wf(),
            r.resources@.len() == 0,
            r.color_maps@.len() == 0,
    {
        Registry { resources: Vec::new(), color_maps: Vec::new() }
    }

    /// Adds a resource declaration; a later one for the same key replaces
    /// the earlier in place.
    pub fn insert_resource(&mut self, key: String, def: ResourceDef)
        requires
            old(self).wf(),
        ensures
            final(self).wf(),
            final(self).color_maps == old(self).color_maps,
            (exists|i: int| 0 <= i < old(self).resources@.len() && #[trigger] old(self).resources@[i].0@ == key@)
                ==> exists|i: int|
                0 <= i < old(self).resources@.len() && old(self).resources@[i].0@ == key@
                    && final(self).resources@ == old(self).resources@.update(i, (key, def)),
            !(exists|i: int| 0 <= i < old(self).resources@.len() && #[trigger] old(self).resources@[i].0@ == key@)
                ==> final(self).resources@ == old(self).resources@.push((key, def)),
    {
        match position_of(&self.resources, key.as_str()) {
            Some(i) => {
                self.resources.remove(i);
                self.resources.insert(i, (key, def));
                proof {
                    assert(self.resources@ =~= old(self).resources@.update(i as int, (key, def)));
                    assert forall|a: int, b: int|
                        0 <= a < self.resources@.len() && 0 <= b < self.resources@.len()
                            && #[trigger] self.resources@[a].0@ == #[trigger] self.resources@[b].0@ implies a == b by {
                        assert(self.resources@[a].0@ == old(self).resources@[a].0@);
                        assert(self.resources@[b].0@ == old(self).resources@[b].0@);
                    }
                }
            },
            None => {
                self.resources.push((key, def));
                proof {
                    let n = old(self).resources@.len() as int;
                    assert forall|a: int, b: int|
                        0 <= a < self.resources@.len() && 0 <= b < self.resources@.len()
                            && #[trigger] self.resources@[a].0@ == #[trigger] self.resources@[b].0@ implies a == b by {
                        if a < n && b < n {
                            assert(self.resources@[a] == old(self).resources@[a]);
                            assert(self.resources@[b] == old(self).resources@[b]);
                        } else if a < n {
                            assert(self.resources@[a] == old(self).resources@[a]);
                        } else if b < n {
                            assert(self.resources@[b] == old(self).resources@[b]);
                        }
                    }
                }
            },
        }
    }

    /// Adds a colour map; a later one with the same name replaces the earlier.
    pub fn insert_color_map(&mut self, name: String, colors: Vec<ColorDef>)
        requires
            old(self).wf(),
        ensures
            final(self).wf(),
            final(self).resources == old(self).resources,
            (exists|i: int| 0 <= i < old(self).color_maps@.len() && #[trigger] old(self).color_maps@[i].0@ == name@)
                ==> exists|i: int|
                0 <= i < old(self).color_maps@.len() && old(self).color_maps@[i].0@ == name@
                    && final(self).color_maps@ == old(self).color_maps@.update(i, (name, colors)),
            !(exists|i: int| 0 <= i < old(self).color_maps@.len() && #[trigger] old(self).color_maps@[i].0@ == name@)
                ==> final(self).color_maps@ == old(self).color_maps@.push((name, colors)),
    {
        match position_of(&self.color_maps, name.as_str()) {
            Some(i) => {
                self.color_maps.remove(i);
                self.color_maps.insert(i, (name, colors));
                proof {
                    assert(self.color_maps@ =~= old(self).color_maps@.update(i as int, (name, colors)));
                    assert forall|a: int, b: int|
                        0 <= a < self.color_maps@.len() && 0 <= b < self.color_maps@.len()
                            && #[trigger] self.color_maps@[a].0@ == #[trigger] self.color_maps@[b].0@ implies a == b by {
                        assert(self.color_maps@[a].0@ == old(self).color_maps@[a].0@);
                        assert(self.color_maps@[b].0@ == old(self).color_maps@[b].0@);
                    }
                }
            },
            None => {
                self.color_maps.push((name, colors));
                proof {
                    let n = old(self).color_maps@.len() as int;
                    assert forall|a: int, b: int|
                        0 <= a < self.color_maps@.len() && 0 <= b < self.color_maps@.len()
                            && #[trigger] self.color_maps@[a].0@ == #[trigger] self.color_maps@[b].0@ implies a == b by {
                        if a < n && b < n {
                            assert(self.color_maps@[a] == old(self).color_maps@[a]);
                            assert(self.color_maps@[b] == old(self).color_maps@[b]);
                        } else if a < n {
                            assert(self.color_maps@[a] == old(self).color_maps@[a]);
                        } else if b < n {
                            assert(self.color_maps@[b] == old(self).color_maps@[b]);
                        }
                    }
                }
            },
        }
    }

    /// The declaration of resource type `key`, when some entry has that key.
    pub open spec fn resource_spec(&self, key: Seq<char>) -> Option<ResourceDef> {
        if exists|i: int| 0 <= i < self.resources@.len() && #[trigger] self.resources@[i].0@ == key {
            Some(
                self.resources@[choose|i: int|
                    0 <= i < self.resources@.len() && #[trigger] self.resources@[i].0@ == key].1,
            )
        } else {
            None
        }
    }

    /// The declaration of resource type `key`.
    pub fn get_resource(&self, key: &str) -> (r: Option<&ResourceDef>)
        ensures
            self.wf() ==> match r {
                Some(d) => self.resource_spec(key@) == Some(*d),
                None => self.resource_spec(key@) is None,
            },
            match r {
                Some(d) => exists|i: int|
                    0 <= i < self.resources@.len() && self.resources@[i].0@ == key@ && self.resources@[i].1
                        == *d,
                None => forall|i: int| 0 <= i < self.resources@.len() ==> #[trigger] self.resources@[i].0@ != key@,
            },
    {
        match position_of(&self.resources, key) {
            Some(i) => {
                proof {
                    if self.wf() {
                        let c = choose|j: int|
                            0 <= j < self.resources@.len() && #[trigger] self.resources@[j].0@ == key@;
                        assert(self.resources@[i as int].0@ == self.resources@[c].0@);
                        assert(i == c);
                    }
                }
                Some(&self.resources[i].1)
            },
            None => None,
        }
    }

    /// Every declared resource key.
    pub fn get_all_resource_keys(&self) -> (r: Vec<String>)
        ensures
            r@.len() == self.resources@.len(),
            forall|i: int| 0 <= i < r@.len() ==> #[trigger] r@[i]@ == self.resources@[i].0@,
    {
        let mut out: Vec<String> = Vec::new();
        let mut i: usize = 0;
        while i < self.resources.len()
            invariant
                i <= self.resources@.len(),
                out@.len() == i,
                forall|j: int| 0 <= j < i ==> #[trigger] out@[j]@ == self.resources@[j].0@,
            decreases self.resources@.len() - i,
        {
            out.push(self.resources[i].0.clone());
            i = i + 1;
        }
        out
    }

    /// The colour map called `name`.
    pub fn get_color_map(&self, name: &str) -> (r: Option<&Vec<ColorDef>>)
        ensures
            match r {
                Some(m) => exists|i: int|
                    0 <= i < self.color_maps@.len() && self.color_maps@[i].0@ == name@ && self.color_maps@[i].1
                        == *m,
                None => forall|i: int| 0 <= i < self.color_maps@.len() ==> #[trigger] self.color_maps@[i].0@ != name@,
            },
    {
        match position_of(&self.color_maps, name) {
            Some(i) => Some(&self.color_maps[i].1),
            None => None,
        }
    }

    /// The colour that map `color_map_name` gives `value`: the first entry
    /// for that value.
    pub fn get_color_for_value(&self, color_map_name: &str, value: &str) -> (r: Option<[u8; 3]>)
        requires
            self.wf(),
        ensures
            match self.get_color_map_spec(color_map_name@) {
                Some(m) => r == color_in(m@, value@),
                None => r is None,
            },
    {
        match self.get_color_map(color_map_name) {
            Some(m) => {
                proof {
                    let k = choose|i: int|
                        0 <= i < self.color_maps@.len() && self.color_maps@[i].0@ == color_map_name@
                            && self.color_maps@[i].1 == *m;
                    let c = choose|i: int|
                        0 <= i < self.color_maps@.len() && #[trigger] self.color_maps@[i].0@ == color_map_name@;
                    assert(self.color_maps@[k].0@ == self.color_maps@[c].0@);
                    assert(k == c);
                    assert(self.get_color_map_spec(color_map_name@) == Some(*m));
                }
                let mut i: usize = 0;
                proof {
                    assert(m@.subrange(0, m@.len() as int) =~= m@);
                }
                while i < m.len()
                    invariant
                        i <= m@.len(),
                        color_in(m@, value@) == color_in(m@.subrange(i as int, m@.len() as int), value@),
                        self.get_color_map_spec(color_map_name@) == Some(*m),
                    decreases m@.len() - i,
                {
                    proof {
                        let rest = m@.subrange(i as int, m@.len() as int);
                        assert(rest.drop_first() =~= m@.subrange(i as int + 1, m@.len() as int));
                    }
                    if str_eq(m[i].value.as_str(), value) {
                        let c = m[i].color;
                        return Some(c);
                    }
                    i = i + 1;
                }
                None
            },
            None => None,
        }
    }

    /// The colour map with this name, when exactly one entry has it.
    pub open spec fn get_color_map_spec(&self, name: Seq<char>) -> Option<Vec<ColorDef>> {
        if exists|i: int| 0 <= i < self.color_maps@.len() && #[trigger] self.color_maps@[i].0@ == name {
            Some(
                self.color_maps@[choose|i: int|
                    0 <= i < self.color_maps@.len() && #[trigger] self.color_maps@[i].0@ == name].1,
            )
        } else {
            None
        }
    }
}

} // verus!
