//! Display fields derived from a fetched record once per fetch: short names
//! of resource URLs, element counts of lists, dates of timestamps and a few
//! labels for flags. They are added to the record as string members.
use vstd::prelude::*;
use crate::json::{extract_vcpus_from_machine_type, find_member, member, set_member, vcpus_of, JsonValue};
use crate::text::{decimal_of, format_decimal, str_eq};

verus! {

/// The last segment of a `/`-separated path (all of it without a `/`).
pub open spec fn short_name(s: Seq<char>) -> Seq<char>
    decreases s.len(),
{
    if s.len() == 0 {
        s
    } else if s.last() == '/' {
        Seq::empty()
    } else {
        short_name(s.drop_last()).push(s.last())
    }
}

/// The last segment of a resource URL.
pub fn extract_short_name(url: &str) -> (r: String)
    ensures
        r@ == short_name(url@),
{
    let n = url.unicode_len();
    let mut out = String::new();
    let mut i: usize = 0;
    proof {
        assert(url@.subrange(0, 0) =~= Seq::<char>::empty());
    }
    while i < n
        invariant
            n == url@.len(),
            i <= n,
            out@ == short_name(url@.subrange(0, i as int)),
        decreases n - i,
    {
        let c = url.get_char(i);
        proof {
            assert(url@.subrange(0, i as int + 1).drop_last() =~= url@.subrange(0, i as int));
            assert(url@.subrange(0, i as int + 1).last() == c);
        }
        if c == '/' {
            out = String::new();
        } else {
            out.push(c);
        }
        i = i + 1;
    }
    proof {
        assert(url@.subrange(0, n as int) =~= url@);
    }
    out
}

/// The date part of a timestamp: its first ten characters.
pub open spec fn date_part(s: Seq<char>) -> Seq<char> {
    if s.len() >= 10 {
        s.subrange(0, 10)
    } else {
        s
    }
}

pub open spec fn string_member(m: Seq<(String, JsonValue)>, key: Seq<char>) -> Option<Seq<char>> {
    match member(m, key) {
        Some(JsonValue::Str(s)) => Some(s@),
        _ => None,
    }
}

pub open spec fn list_len_member(m: Seq<(String, JsonValue)>, key: Seq<char>) -> Option<nat> {
    match member(m, key) {
        Some(JsonValue::Array(a)) => Some(a@.len()),
        _ => None,
    }
}

pub open spec fn short_rule(m: Seq<(String, JsonValue)>, src: Seq<char>, dst: Seq<char>) -> Seq<(Seq<char>, Seq<char>)> {
    match string_member(m, src) {
        Some(s) => seq![(dst, short_name(s))],
        None => Seq::empty(),
    }
}

pub open spec fn count_rule(m: Seq<(String, JsonValue)>, src: Seq<char>, dst: Seq<char>) -> Seq<(Seq<char>, Seq<char>)> {
    match list_len_member(m, src) {
        Some(n) => seq![(dst, decimal_of(n))],
        None => Seq::empty(),
    }
}

pub open spec fn date_rule(m: Seq<(String, JsonValue)>, src: Seq<char>, dst: Seq<char>) -> Seq<(Seq<char>, Seq<char>)> {
    match string_member(m, src) {
        Some(s) => seq![(dst, date_part(s))],
        None => Seq::empty(),
    }
}

/// The vCPU count that the short name of the machine type tells, if any.
pub open spec fn vcpus_rule(m: Seq<(String, JsonValue)>) -> Seq<(Seq<char>, Seq<char>)> {
    match string_member(m, "machineType"@) {
        Some(s) => match vcpus_of(short_name(s)) {
            Some(v) => seq![("vcpus"@, v)],
            None => Seq::empty(),
        },
        None => Seq::empty(),
    }
}

/// `Auto` or `Custom` for how a network creates its subnetworks.
pub open spec fn subnet_mode_rule(m: Seq<(String, JsonValue)>) -> Seq<(Seq<char>, Seq<char>)> {
    match member(m, "autoCreateSubnetworks"@) {
        Some(JsonValue::Bool(b)) => seq![("autoCreateSubnetworks_display"@, if b { "Auto"@ } else { "Custom"@ })],
        _ => Seq::empty(),
    }
}

/// The number of labels, `0` without a label object.
pub open spec fn labels_rule(m: Seq<(String, JsonValue)>) -> Seq<(Seq<char>, Seq<char>)> {
    match member(m, "labels"@) {
        Some(JsonValue::Object(o)) => seq![("labels_count"@, decimal_of(o@.len()))],
        _ => seq![("labels_count"@, "0"@)],
    }
}

/// The derived fields of a record's members, in the order they are added.
pub open spec fn derived_of(m: Seq<(String, JsonValue)>) -> Seq<(Seq<char>, Seq<char>)> {
    short_rule(m, "zone"@, "zone_short"@) + short_rule(m, "region"@, "region_short"@) + short_rule(
        m,
        "machineType"@,
        "machineType_short"@,
    ) + vcpus_rule(m) + short_rule(m, "type"@, "type_short"@) + short_rule(m, "network"@, "network_short"@)
        + count_rule(m, "users"@, "users_count"@) + count_rule(m, "subnetworks"@, "subnetworks_count"@)
        + subnet_mode_rule(m) + date_rule(m, "timeCreated"@, "timeCreated_short"@) + date_rule(
        m,
        "updated"@,
        "updated_short"@,
    ) + count_rule(m, "backends"@, "backends_count"@) + count_rule(m, "hostRules"@, "hostRules_count"@)
        + count_rule(m, "pathMatchers"@, "pathMatchers_count"@) + short_rule(
        m,
        "defaultService"@,
        "defaultService_short"@,
    ) + short_rule(m, "urlMap"@, "urlMap_short"@) + count_rule(
        m,
        "sslCertificates"@,
        "sslCertificates_count"@,
    ) + short_rule(m, "sslPolicy"@, "sslPolicy_short"@) + short_rule(m, "target"@, "target_short"@)
        + date_rule(m, "expireTime"@, "expireTime_short"@) + count_rule(m, "instances"@, "instances_count"@)
        + short_rule(m, "backupPool"@, "backupPool_short"@) + short_rule(m, "service"@, "service_short"@)
        + count_rule(m, "enabledFeatures"@, "enabledFeatures_count"@) + count_rule(m, "rules"@, "rules_count"@)
        + count_rule(m, "disks"@, "disks_count"@) + date_rule(
        m,
        "creationTimestamp"@,
        "creationTimestamp_short"@,
    ) + labels_rule(m) + flag_fields_of(m)
}

pub open spec fn pair_views(v: Seq<(String, String)>) -> Seq<(Seq<char>, Seq<char>)> {
    v.map_values(|p: (String, String)| (p.0@, p.1@))
}

fn push_pair(out: &mut Vec<(String, String)>, k: &str, v: String)
    ensures
        pair_views(final(out)@) == pair_views(old(out)@) + seq![(k@, v@)],
{
    out.push((String::from_str(k), v));
    proof {
        assert(pair_views(out@) =~= pair_views(old(out)@) + seq![(k@, v@)]);
    }
}

fn add_short(m: &Vec<(String, JsonValue)>, src: &str, dst: &str, out: &mut Vec<(String, String)>)
    ensures
        pair_views(final(out)@) == pair_views(old(out)@) + short_rule(m@, src@, dst@),
{
    match find_member(m, src) {
        Some(JsonValue::Str(s)) => {
            push_pair(out, dst, extract_short_name(s.as_str()));
        },
        _ => {
            proof {
                assert(pair_views(out@) =~= pair_views(old(out)@) + short_rule(m@, src@, dst@));
            }
        },
    }
}

fn add_count(m: &Vec<(String, JsonValue)>, src: &str, dst: &str, out: &mut Vec<(String, String)>)
    ensures
        pair_views(final(out)@) == pair_views(old(out)@) + count_rule(m@, src@, dst@),
{
    match find_member(m, src) {
        Some(JsonValue::Array(a)) => {
            push_pair(out, dst, format_decimal(a.len() as u64));
        },
        _ => {
            proof {
                assert(pair_views(out@) =~= pair_views(old(out)@) + count_rule(m@, src@, dst@));
            }
        },
    }
}

fn add_date(m: &Vec<(String, JsonValue)>, src: &str, dst: &str, out: &mut Vec<(String, String)>)
    ensures
        pair_views(final(out)@) == pair_views(old(out)@) + date_rule(m@, src@, dst@),
{
    match find_member(m, src) {
        Some(JsonValue::Str(s)) => {
            let n = s.as_str().unicode_len();
            let d = if n >= 10 {
                String::from_str(s.as_str().substring_char(0, 10))
            } else {
                s.clone()
            };
            push_pair(out, dst, d);
        },
        _ => {
            proof {
                assert(pair_views(out@) =~= pair_views(old(out)@) + date_rule(m@, src@, dst@));
            }
        },
    }
}

/// The derived display fields of a record's members.
pub fn derived_fields(m: &Vec<(String, JsonValue)>) -> (r: Vec<(String, String)>)
    ensures
        pair_views(r@) == derived_of(m@),
{
    let mut out: Vec<(String, String)> = Vec::new();
    add_short(m, "zone", "zone_short", &mut out);
    add_short(m, "region", "region_short", &mut out);
    add_short(m, "machineType", "machineType_short", &mut out);
    match find_member(m, "machineType") {
        Some(JsonValue::Str(mt)) => {
            let short = extract_short_name(mt.as_str());
            match extract_vcpus_from_machine_type(short.as_str()) {
                Some(v) => {
                    push_pair(&mut out, "vcpus", v);
                },
                None => {},
            }
        },
        _ => {},
    }
    add_short(m, "type", "type_short", &mut out);
    add_short(m, "network", "network_short", &mut out);
    add_count(m, "users", "users_count", &mut out);
    add_count(m, "subnetworks", "subnetworks_count", &mut out);
    match find_member(m, "autoCreateSubnetworks") {
        Some(JsonValue::Bool(b)) => {
            push_pair(
                &mut out,
                "autoCreateSubnetworks_display",
                if *b {
                    String::from_str("Auto")
                } else {
                    String::from_str("Custom")
                },
            );
        },
        _ => {},
    }
    add_date(m, "timeCreated", "timeCreated_short", &mut out);
    add_date(m, "updated", "updated_short", &mut out);
    add_count(m, "backends", "backends_count", &mut out);
    add_count(m, "hostRules", "hostRules_count", &mut out);
    add_count(m, "pathMatchers", "pathMatchers_count", &mut out);
    add_short(m, "defaultService", "defaultService_short", &mut out);
    add_short(m, "urlMap", "urlMap_short", &mut out);
    add_count(m, "sslCertificates", "sslCertificates_count", &mut out);
    add_short(m, "sslPolicy", "sslPolicy_short", &mut out);
    add_short(m, "target", "target_short", &mut out);
    add_date(m, "expireTime", "expireTime_short", &mut out);
    add_count(m, "instances", "instances_count", &mut out);
    add_short(m, "backupPool", "backupPool_short", &mut out);
    add_short(m, "service", "service_short", &mut out);
    add_count(m, "enabledFeatures", "enabledFeatures_count", &mut out);
    add_count(m, "rules", "rules_count", &mut out);
    add_count(m, "disks", "disks_count", &mut out);
    add_date(m, "creationTimestamp", "creationTimestamp_short", &mut out);
    match find_member(m, "labels") {
        Some(JsonValue::Object(o)) => {
            push_pair(&mut out, "labels_count", format_decimal(o.len() as u64));
        },
        _ => {
            push_pair(&mut out, "labels_count", String::from_str("0"));
        },
    }
    let ghost before = pair_views(out@);
    let mut more = flag_fields(m);
    let ghost extra = pair_views(more@);
    out.append(&mut more);
    proof {
        assert(pair_views(out@) =~= before + extra);
        assert(pair_views(out@) =~= derived_of(m@));
    }
    out
}

/// Adds the derived display fields to a record; anything but an object is
/// returned as it is. Each derived field replaces a member of the same name.
pub fn add_derived_fields(item: JsonValue) -> (r: JsonValue)
    ensures
        !(item is Object) ==> r == item,
        item is Object ==> r is Object,
        match (item, r) {
            (JsonValue::Object(before), JsonValue::Object(after)) => forall|k: int|
                #![trigger derived_of(before@)[k]]
                0 <= k < derived_of(before@).len() && (forall|l: int|
                    k < l < derived_of(before@).len() ==> derived_of(before@)[l].0 != derived_of(before@)[k].0)
                    ==> match member(after@, derived_of(before@)[k].0) {
                    Some(JsonValue::Str(s)) => s@ == derived_of(before@)[k].1,
                    _ => false,
                },
            _ => true,
        },
{
    match item {
        JsonValue::Object(members) => {
            let fields = derived_fields(&members);
            let ghost d = pair_views(fields@);
            let mut m = members;
            let mut i: usize = 0;
            while i < fields.len()
                invariant
                    i <= fields@.len(),
                    d == pair_views(fields@),
                    forall|k: int|
                        #![trigger d[k]]
                        0 <= k < i && (forall|l: int| k < l < i ==> d[l].0 != d[k].0) ==> match member(m@, d[k].0) {
                            Some(JsonValue::Str(s)) => s@ == d[k].1,
                            _ => false,
                        },
                decreases fields@.len() - i,
            {
                let ghost before = m@;
                set_member(&mut m, fields[i].0.as_str(), JsonValue::Str(fields[i].1.clone()));
                proof {
                    assert(d[i as int] == (fields@[i as int].0@, fields@[i as int].1@));
                    assert forall|k: int|
                        #![trigger d[k]]
                        0 <= k < i + 1 && (forall|l: int| k < l < i + 1 ==> d[l].0 != d[k].0) implies match member(
                            m@,
                            d[k].0,
                        ) {
                            Some(JsonValue::Str(s)) => s@ == d[k].1,
                            _ => false,
                        } by {
                        if k < i {
                            assert(d[i as int].0 != d[k].0);
                            assert(forall|l: int| k < l < i ==> d[l].0 != d[k].0);
                        }
                    }
                }
                i = i + 1;
            }
            JsonValue::Object(m)
        },
        other => other,
    }
}


/// The member `k2` of the object held by member `k1`.
pub open spec fn nested(m: Seq<(String, JsonValue)>, k1: Seq<char>, k2: Seq<char>) -> Option<JsonValue> {
    match member(m, k1) {
        Some(JsonValue::Object(o)) => member(o@, k2),
        _ => None,
    }
}

pub open spec fn yes_no(b: bool) -> Seq<char> {
    if b {
        "Yes"@
    } else {
        "No"@
    }
}

/// `ALLOW` or `DENY` for a firewall rule.
pub open spec fn action_rule(m: Seq<(String, JsonValue)>) -> Seq<(Seq<char>, Seq<char>)> {
    if member(m, "allowed"@) is Some {
        seq![("action_display"@, "ALLOW"@)]
    } else if member(m, "denied"@) is Some {
        seq![("action_display"@, "DENY"@)]
    } else {
        Seq::empty()
    }
}

/// Whether a cluster runs in autopilot.
pub open spec fn autopilot_rule(m: Seq<(String, JsonValue)>) -> Seq<(Seq<char>, Seq<char>)> {
    match nested(m, "autopilot"@, "enabled"@) {
        Some(JsonValue::Bool(b)) => seq![("autopilot_display"@, if b { "Autopilot"@ } else { "Standard"@ })],
        _ => seq![("autopilot_display"@, "Standard"@)],
    }
}

/// `Yes` or `No` for a flag held in member `src`, or in member `k2` of the
/// object `src` holds.
pub open spec fn flag_rule(v: Option<JsonValue>, dst: Seq<char>) -> Seq<(Seq<char>, Seq<char>)> {
    match v {
        Some(JsonValue::Bool(b)) => seq![(dst, yes_no(b))],
        _ => Seq::empty(),
    }
}

/// The short name of the first health check.
pub open spec fn health_checks_rule(m: Seq<(String, JsonValue)>) -> Seq<(Seq<char>, Seq<char>)> {
    match member(m, "healthChecks"@) {
        Some(JsonValue::Array(a)) => seq![(
            "healthChecks_short"@,
            if a@.len() > 0 {
                match a@[0] {
                    JsonValue::Str(s) => short_name(s@),
                    _ => "-"@,
                }
            } else {
                "-"@
            },
        )],
        _ => Seq::empty(),
    }
}

/// The string elements of a list, in order.
pub open spec fn strings_in(a: Seq<JsonValue>) -> Seq<Seq<char>>
    decreases a.len(),
{
    if a.len() == 0 {
        Seq::empty()
    } else {
        strings_in(a.drop_last()) + match a.last() {
            JsonValue::Str(s) => seq![s@],
            _ => Seq::empty(),
        }
    }
}

/// Parts joined with `, `.
pub open spec fn joined(parts: Seq<Seq<char>>) -> Seq<char>
    decreases parts.len(),
{
    if parts.len() == 0 {
        Seq::empty()
    } else if parts.len() == 1 {
        parts[0]
    } else {
        joined(parts.drop_last()) + ", "@ + parts.last()
    }
}

/// The first three subject alternative names, and how many more there are.
pub open spec fn san_rule(m: Seq<(String, JsonValue)>) -> Seq<(Seq<char>, Seq<char>)> {
    match member(m, "subjectAlternativeNames"@) {
        Some(JsonValue::Array(a)) => {
            let names = strings_in(a@);
            let shown = if names.len() > 3 { names.subrange(0, 3) } else { names };
            let suffix = if a@.len() > 3 { " +"@ + decimal_of((a@.len() - 3) as nat) } else { Seq::empty() };
            seq![("subjectAlternativeNames_display"@, joined(shown) + suffix)]
        },
        _ => Seq::empty(),
    }
}

/// The first of the health-check configurations the record has.
pub open spec fn health_check_config(m: Seq<(String, JsonValue)>) -> Option<JsonValue> {
    if member(m, "httpHealthCheck"@) is Some {
        member(m, "httpHealthCheck"@)
    } else if member(m, "httpsHealthCheck"@) is Some {
        member(m, "httpsHealthCheck"@)
    } else if member(m, "tcpHealthCheck"@) is Some {
        member(m, "tcpHealthCheck"@)
    } else if member(m, "sslHealthCheck"@) is Some {
        member(m, "sslHealthCheck"@)
    } else if member(m, "http2HealthCheck"@) is Some {
        member(m, "http2HealthCheck"@)
    } else {
        member(m, "grpcHealthCheck"@)
    }
}

/// The port of the health check, `-` when none is given as an integer.
pub open spec fn port_rule(m: Seq<(String, JsonValue)>) -> Seq<(Seq<char>, Seq<char>)> {
    let port = match health_check_config(m) {
        Some(JsonValue::Object(o)) => match member(o@, "port"@) {
            Some(JsonValue::Number(t)) => if crate::sort::int_value(t@) is Some {
                t@
            } else {
                "-"@
            },
            _ => "-"@,
        },
        _ => "-"@,
    };
    seq![("healthCheck_port"@, port)]
}

/// Whether layer-7 DDoS defense is on, `-` when not said.
pub open spec fn adaptive_rule(m: Seq<(String, JsonValue)>) -> Seq<(Seq<char>, Seq<char>)> {
    let cfg = match nested(m, "adaptiveProtectionConfig"@, "layer7DdosDefenseConfig"@) {
        Some(JsonValue::Object(o)) => member(o@, "enable"@),
        _ => None,
    };
    match cfg {
        Some(JsonValue::Bool(b)) => seq![("adaptiveProtectionConfig_display"@, yes_no(b))],
        _ => seq![("adaptiveProtectionConfig_display"@, "-"@)],
    }
}

/// `Spot`, `Preempt` or `Standard` for how an instance is scheduled.
pub open spec fn scheduling_rule(m: Seq<(String, JsonValue)>) -> Seq<(Seq<char>, Seq<char>)> {
    let spot = match nested(m, "scheduling"@, "provisioningModel"@) {
        Some(JsonValue::Str(s)) => s@ == "SPOT"@,
        _ => false,
    };
    let preempt = match nested(m, "scheduling"@, "preemptible"@) {
        Some(JsonValue::Bool(b)) => b,
        _ => false,
    };
    seq![("scheduling_display"@, if spot { "Spot"@ } else if preempt { "Preempt"@ } else { "Standard"@ })]
}

/// The display fields of flags and configurations.
pub open spec fn flag_fields_of(m: Seq<(String, JsonValue)>) -> Seq<(Seq<char>, Seq<char>)> {
    action_rule(m) + autopilot_rule(m) + flag_rule(nested(m, "autoscaling"@, "enabled"@), "autoscaling_display"@)
        + flag_rule(member(m, "enableCDN"@), "enableCDN_display"@) + flag_rule(
        member(m, "enableCdn"@),
        "enableCdn_display"@,
    ) + health_checks_rule(m) + san_rule(m) + port_rule(m) + adaptive_rule(m) + scheduling_rule(m)
}

fn nested_exec<'a>(m: &'a Vec<(String, JsonValue)>, k1: &str, k2: &str) -> (r: Option<&'a JsonValue>)
    ensures
        match nested(m@, k1@, k2@) {
            Some(x) => r == Some(&x),
            None => r is None,
        },
{
    match find_member(m, k1) {
        Some(JsonValue::Object(o)) => find_member(o, k2),
        _ => None,
    }
}

fn yes_no_exec(b: bool) -> (r: String)
    ensures
        r@ == yes_no(b),
{
    if b {
        String::from_str("Yes")
    } else {
        String::from_str("No")
    }
}

fn add_flag(v: Option<&JsonValue>, dst: &str, out: &mut Vec<(String, String)>)
    ensures
        pair_views(final(out)@) == pair_views(old(out)@) + flag_rule(
            match v {
                Some(x) => Some(*x),
                None => None,
            },
            dst@,
        ),
{
    match v {
        Some(JsonValue::Bool(b)) => {
            push_pair(out, dst, yes_no_exec(*b));
        },
        _ => {
            proof {
                assert(pair_views(out@) =~= pair_views(old(out)@) + flag_rule(
                    match v {
                        Some(x) => Some(*x),
                        None => None,
                    },
                    dst@,
                ));
            }
        },
    }
}

fn san_display(a: &Vec<JsonValue>) -> (r: String)
    ensures
        ({
            let names = strings_in(a@);
            let shown = if names.len() > 3 { names.subrange(0, 3) } else { names };
            let suffix = if a@.len() > 3 { " +"@ + decimal_of((a@.len() - 3) as nat) } else { Seq::empty() };
            r@ == joined(shown) + suffix
        }),
{
    let mut names: Vec<String> = Vec::new();
    let mut i: usize = 0;
    proof {
        assert(a@.subrange(0, 0) =~= Seq::<JsonValue>::empty());
    }
    while i < a.len()
        invariant
            i <= a@.len(),
            names@.map_values(|s: String| s@) == strings_in(a@.subrange(0, i as int)),
        decreases a@.len() - i,
    {
        proof {
            assert(a@.subrange(0, i as int + 1).drop_last() =~= a@.subrange(0, i as int));
            assert(a@.subrange(0, i as int + 1).last() == a@[i as int]);
        }
        match &a[i] {
            JsonValue::Str(s) => {
                names.push(s.clone());
            },
            _ => {},
        }
        proof {
            assert(names@.map_values(|s: String| s@) =~= strings_in(a@.subrange(0, i as int + 1)));
        }
        i = i + 1;
    }
    proof {
        assert(a@.subrange(0, a@.len() as int) =~= a@);
    }
    let ghost all = names@.map_values(|s: String| s@);
    let take = if names.len() > 3 {
        3
    } else {
        names.len()
    };
    let ghost shown = all.subrange(0, take as int);
    proof {
        if names.len() <= 3 {
            assert(shown =~= all);
        }
    }
    let mut out = String::new();
    let mut k: usize = 0;
    while k < take
        invariant
            k <= take,
            take <= names@.len(),
            all == names@.map_values(|s: String| s@),
            shown == all.subrange(0, take as int),
            out@ == joined(shown.subrange(0, k as int)),
        decreases take - k,
    {
        proof {
            assert(shown.subrange(0, k as int + 1).drop_last() =~= shown.subrange(0, k as int));
            assert(shown.subrange(0, k as int + 1).last() == names@[k as int]@);
            if k == 0 {
                assert(shown.subrange(0, 1).len() == 1);
                assert(shown.subrange(0, 0) =~= Seq::<Seq<char>>::empty());
            }
        }
        if k > 0 {
            out.append(", ");
        }
        out.append(names[k].as_str());
        k = k + 1;
    }
    proof {
        assert(shown.subrange(0, take as int) =~= shown);
    }
    if a.len() > 3 {
        out.append(" +");
        let d = format_decimal((a.len() - 3) as u64);
        out.append(d.as_str());
    }
    out
}

fn add_action(m: &Vec<(String, JsonValue)>, out: &mut Vec<(String, String)>)
    ensures
        pair_views(final(out)@) == pair_views(old(out)@) + action_rule(m@),
{
    if find_member(m, "allowed").is_some() {
        push_pair(out, "action_display", String::from_str("ALLOW"));
    } else if find_member(m, "denied").is_some() {
        push_pair(out, "action_display", String::from_str("DENY"));
    } else {
        proof {
            assert(pair_views(out@) =~= pair_views(old(out)@) + action_rule(m@));
        }
    }
}

fn add_autopilot(m: &Vec<(String, JsonValue)>, out: &mut Vec<(String, String)>)
    ensures
        pair_views(final(out)@) == pair_views(old(out)@) + autopilot_rule(m@),
{
    match nested_exec(m, "autopilot", "enabled") {
        Some(JsonValue::Bool(b)) => {
            push_pair(
                out,
                "autopilot_display",
                if *b {
                    String::from_str("Autopilot")
                } else {
                    String::from_str("Standard")
                },
            );
        },
        _ => {
            push_pair(out, "autopilot_display", String::from_str("Standard"));
        },
    }
}

fn add_health_checks(m: &Vec<(String, JsonValue)>, out: &mut Vec<(String, String)>)
    ensures
        pair_views(final(out)@) == pair_views(old(out)@) + health_checks_rule(m@),
{
    match find_member(m, "healthChecks") {
        Some(JsonValue::Array(a)) => {
            let d = if a.len() > 0 {
                match &a[0] {
                    JsonValue::Str(s) => extract_short_name(s.as_str()),
                    _ => String::from_str("-"),
                }
            } else {
                String::from_str("-")
            };
            push_pair(out, "healthChecks_short", d);
        },
        _ => {
            proof {
                assert(pair_views(out@) =~= pair_views(old(out)@) + health_checks_rule(m@));
            }
        },
    }
}

fn add_san(m: &Vec<(String, JsonValue)>, out: &mut Vec<(String, String)>)
    ensures
        pair_views(final(out)@) == pair_views(old(out)@) + san_rule(m@),
{
    match find_member(m, "subjectAlternativeNames") {
        Some(JsonValue::Array(a)) => {
            push_pair(out, "subjectAlternativeNames_display", san_display(a));
        },
        _ => {
            proof {
                assert(pair_views(out@) =~= pair_views(old(out)@) + san_rule(m@));
            }
        },
    }
}

fn health_check_config_exec<'a>(m: &'a Vec<(String, JsonValue)>) -> (r: Option<&'a JsonValue>)
    ensures
        match health_check_config(m@) {
            Some(x) => r == Some(&x),
            None => r is None,
        },
{
    if find_member(m, "httpHealthCheck").is_some() {
        find_member(m, "httpHealthCheck")
    } else if find_member(m, "httpsHealthCheck").is_some() {
        find_member(m, "httpsHealthCheck")
    } else if find_member(m, "tcpHealthCheck").is_some() {
        find_member(m, "tcpHealthCheck")
    } else if find_member(m, "sslHealthCheck").is_some() {
        find_member(m, "sslHealthCheck")
    } else if find_member(m, "http2HealthCheck").is_some() {
        find_member(m, "http2HealthCheck")
    } else {
        find_member(m, "grpcHealthCheck")
    }
}

fn add_port(m: &Vec<(String, JsonValue)>, out: &mut Vec<(String, String)>)
    ensures
        pair_views(final(out)@) == pair_views(old(out)@) + port_rule(m@),
{
    let port = match health_check_config_exec(m) {
        Some(JsonValue::Object(o)) => match find_member(o, "port") {
            Some(JsonValue::Number(t)) => {
                if crate::sort::parse_int(t.as_str()).is_some() {
                    t.clone()
                } else {
                    String::from_str("-")
                }
            },
            _ => String::from_str("-"),
        },
        _ => String::from_str("-"),
    };
    push_pair(out, "healthCheck_port", port);
}

fn add_adaptive(m: &Vec<(String, JsonValue)>, out: &mut Vec<(String, String)>)
    ensures
        pair_views(final(out)@) == pair_views(old(out)@) + adaptive_rule(m@),
{
    let enable = match nested_exec(m, "adaptiveProtectionConfig", "layer7DdosDefenseConfig") {
        Some(JsonValue::Object(o)) => find_member(o, "enable"),
        _ => None,
    };
    match enable {
        Some(JsonValue::Bool(b)) => {
            push_pair(out, "adaptiveProtectionConfig_display", yes_no_exec(*b));
        },
        _ => {
            push_pair(out, "adaptiveProtectionConfig_display", String::from_str("-"));
        },
    }
}

fn add_scheduling(m: &Vec<(String, JsonValue)>, out: &mut Vec<(String, String)>)
    ensures
        pair_views(final(out)@) == pair_views(old(out)@) + scheduling_rule(m@),
{
    let spot = match nested_exec(m, "scheduling", "provisioningModel") {
        Some(JsonValue::Str(s)) => str_eq(s.as_str(), "SPOT"),
        _ => false,
    };
    let preempt = match nested_exec(m, "scheduling", "preemptible") {
        Some(JsonValue::Bool(b)) => *b,
        _ => false,
    };
    push_pair(
        out,
        "scheduling_display",
        if spot {
            String::from_str("Spot")
        } else if preempt {
            String::from_str("Preempt")
        } else {
            String::from_str("Standard")
        },
    );
}

/// The display fields of flags and configurations of a record's members.
pub fn flag_fields(m: &Vec<(String, JsonValue)>) -> (r: Vec<(String, String)>)
    ensures
        pair_views(r@) == flag_fields_of(m@),
{
    let mut out: Vec<(String, String)> = Vec::new();
    add_action(m, &mut out);
    add_autopilot(m, &mut out);
    add_flag(nested_exec(m, "autoscaling", "enabled"), "autoscaling_display", &mut out);
    add_flag(find_member(m, "enableCDN"), "enableCDN_display", &mut out);
    add_flag(find_member(m, "enableCdn"), "enableCdn_display", &mut out);
    add_health_checks(m, &mut out);
    add_san(m, &mut out);
    add_port(m, &mut out);
    add_adaptive(m, &mut out);
    add_scheduling(m, &mut out);
    proof {
        assert(pair_views(out@) =~= flag_fields_of(m@));
    }
    out
}

} // verus!
