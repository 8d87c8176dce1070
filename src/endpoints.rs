//! The REST endpoints of the provider's APIs, for a project and zone.
use vstd::prelude::*;
use crate::json::{member, JsonValue};
use crate::sort::{sort_strings, text_cmp};

verus! {

/// The project and zone that requests address.
pub struct Endpoints {
    pub project_id: String,
    pub zone: String,
}

/// Whether `s` holds a `-`.
pub open spec fn has_dash(s: Seq<char>) -> bool {
    exists|i: int| 0 <= i < s.len() && s[i] == '-'
}

/// The region of a zone: everything before its last `-`, or the whole zone
/// without one.
pub open spec fn region_of(zone: Seq<char>) -> Seq<char>
    decreases zone.len(),
{
    if zone.len() == 0 {
        zone
    } else if zone.last() == '-' {
        zone.drop_last()
    } else if has_dash(zone.drop_last()) {
        region_of(zone.drop_last())
    } else {
        zone
    }
}

fn cat(a: &str, b: &str) -> (r: String)
    ensures
        r@ == a@ + b@,
{
    let mut s = String::from_str(a);
    s.append(b);
    s
}

fn cat3(a: &str, b: &str, c: &str) -> (r: String)
    ensures
        r@ == a@ + b@ + c@,
{
    let mut s = String::from_str(a);
    s.append(b);
    s.append(c);
    s
}

proof fn lemma_region_suffix(z: Seq<char>, i: int)
    requires
        0 < i <= z.len(),
        z[i - 1] == '-',
        forall|k: int| i <= k < z.len() ==> z[k] != '-',
    ensures
        region_of(z) == z.subrange(0, i - 1),
    decreases z.len() - i,
{
    if i == z.len() {
        assert(z.drop_last() =~= z.subrange(0, i - 1));
    } else {
        let d = z.drop_last();
        assert(d[i - 1] == '-');
        assert(has_dash(d));
        lemma_region_suffix(d, i);
        assert(d.subrange(0, i - 1) =~= z.subrange(0, i - 1));
    }
}

proof fn lemma_region_none(z: Seq<char>)
    requires
        forall|k: int| 0 <= k < z.len() ==> z[k] != '-',
    ensures
        region_of(z) == z,
{
    if z.len() > 0 {
        assert(!has_dash(z.drop_last()));
    }
}

impl Endpoints {
    /// The region of the current zone.
    pub fn get_region(&self) -> (r: String)
        ensures
            r@ == region_of(self.zone@),
    {
        let z = self.zone.as_str();
        let n = z.unicode_len();
        let mut i: usize = n;
        while i > 0
            invariant
                n == z@.len(),
                i <= n,
                z@ == self.zone@,
                forall|k: int| i <= k < n ==> z@[k] != '-',
            decreases i,
        {
            if z.get_char(i - 1) == '-' {
                proof {
                    lemma_region_suffix(z@, i as int);
                }
                return String::from_str(z.substring_char(0, i - 1));
            }
            i = i - 1;
        }
        proof {
            lemma_region_none(z@);
        }
        self.zone.clone()
    }

    /// `https://compute.googleapis.com/compute/v1/projects/<project>/<path>`.
    pub fn compute_url(&self, path: &str) -> (r: String)
        ensures
            r@ == "https://compute.googleapis.com/compute/v1/projects/"@ + self.project_id@ + "/"@ + path@,
    {
        let mut s = cat("https://compute.googleapis.com/compute/v1/projects/", self.project_id.as_str());
        s.append("/");
        s.append(path);
        s
    }

    /// The compute URL of a resource in the current zone.
    pub fn compute_zonal_url(&self, resource: &str) -> (r: String)
        ensures
            r@ == "https://compute.googleapis.com/compute/v1/projects/"@ + self.project_id@ + "/"@ + ("zones/"@
                + self.zone@ + "/"@ + resource@),
    {
        let p = cat3("zones/", self.zone.as_str(), "/");
        let p = cat(p.as_str(), resource);
        self.compute_url(p.as_str())
    }

    /// The compute URL of a resource in the current region.
    pub fn compute_regional_url(&self, resource: &str) -> (r: String)
        ensures
            r@ == "https://compute.googleapis.com/compute/v1/projects/"@ + self.project_id@ + "/"@ + ("regions/"@
                + region_of(self.zone@) + "/"@ + resource@),
    {
        let region = self.get_region();
        let p = cat3("regions/", region.as_str(), "/");
        let p = cat(p.as_str(), resource);
        self.compute_url(p.as_str())
    }

    /// The compute URL of a global resource.
    pub fn compute_global_url(&self, resource: &str) -> (r: String)
        ensures
            r@ == "https://compute.googleapis.com/compute/v1/projects/"@ + self.project_id@ + "/"@ + ("global/"@
                + resource@),
    {
        let p = cat("global/", resource);
        self.compute_url(p.as_str())
    }

    /// The compute URL of a resource over all zones.
    pub fn compute_aggregated_url(&self, resource: &str) -> (r: String)
        ensures
            r@ == "https://compute.googleapis.com/compute/v1/projects/"@ + self.project_id@ + "/"@ + (
            "aggregated/"@ + resource@),
    {
        let p = cat("aggregated/", resource);
        self.compute_url(p.as_str())
    }

    /// The URL of an operation in the current zone.
    pub fn compute_zonal_operation_url(&self, operation: &str) -> (r: String)
        ensures
            r@ == "https://compute.googleapis.com/compute/v1/projects/"@ + self.project_id@ + "/"@ + ("zones/"@
                + self.zone@ + "/operations/"@ + operation@),
    {
        let p = cat3("zones/", self.zone.as_str(), "/operations/");
        let p = cat(p.as_str(), operation);
        self.compute_url(p.as_str())
    }

    /// The URL of a global operation.
    pub fn compute_global_operation_url(&self, operation: &str) -> (r: String)
        ensures
            r@ == "https://compute.googleapis.com/compute/v1/projects/"@ + self.project_id@ + "/"@ + (
            "global/operations/"@ + operation@),
    {
        let p = cat("global/operations/", operation);
        self.compute_url(p.as_str())
    }

    /// `https://storage.googleapis.com/storage/v1/<path>`.
    pub fn storage_url(&self, path: &str) -> (r: String)
        ensures
            r@ == "https://storage.googleapis.com/storage/v1/"@ + path@,
    {
        cat("https://storage.googleapis.com/storage/v1/", path)
    }

    /// The storage URL of a bucket.
    pub fn storage_bucket_url(&self, bucket: &str) -> (r: String)
        ensures
            r@ == "https://storage.googleapis.com/storage/v1/"@ + ("b/"@ + bucket@),
    {
        let p = cat("b/", bucket);
        self.storage_url(p.as_str())
    }

    /// The storage URL of a bucket's objects.
    pub fn storage_objects_url(&self, bucket: &str) -> (r: String)
        ensures
            r@ == "https://storage.googleapis.com/storage/v1/"@ + ("b/"@ + bucket@ + "/o"@),
    {
        let p = cat3("b/", bucket, "/o");
        self.storage_url(p.as_str())
    }

    /// `https://container.googleapis.com/v1/projects/<project>/<path>`.
    pub fn container_url(&self, path: &str) -> (r: String)
        ensures
            r@ == "https://container.googleapis.com/v1/projects/"@ + self.project_id@ + "/"@ + path@,
    {
        let mut s = cat("https://container.googleapis.com/v1/projects/", self.project_id.as_str());
        s.append("/");
        s.append(path);
        s
    }

    /// The cluster URL of a resource at a location (region or zone).
    pub fn container_location_url(&self, location: &str, resource: &str) -> (r: String)
        ensures
            r@ == "https://container.googleapis.com/v1/projects/"@ + self.project_id@ + "/"@ + ("locations/"@
                + location@ + "/"@ + resource@),
    {
        let p = cat3("locations/", location, "/");
        let p = cat(p.as_str(), resource);
        self.container_url(p.as_str())
    }

    /// `https://cloudbilling.googleapis.com/v1/<path>`.
    pub fn billing_url(&self, path: &str) -> (r: String)
        ensures
            r@ == "https://cloudbilling.googleapis.com/v1/"@ + path@,
    {
        cat("https://cloudbilling.googleapis.com/v1/", path)
    }

    /// The budgets URL of a billing account.
    pub fn billing_budgets_url(&self, billing_account: &str, path: &str) -> (r: String)
        ensures
            r@ == "https://billingbudgets.googleapis.com/v1/"@ + billing_account@ + "/"@ + path@,
    {
        let mut s = cat3("https://billingbudgets.googleapis.com/v1/", billing_account, "/");
        s.append(path);
        s
    }

    /// `https://cloudresourcemanager.googleapis.com/v1/<path>`.
    pub fn resourcemanager_url(&self, path: &str) -> (r: String)
        ensures
            r@ == "https://cloudresourcemanager.googleapis.com/v1/"@ + path@,
    {
        cat("https://cloudresourcemanager.googleapis.com/v1/", path)
    }
}

/// The names of the zones a zone listing holds, in listed order.
pub open spec fn zone_names_of(items: Seq<JsonValue>) -> Seq<Seq<char>>
    decreases items.len(),
{
    if items.len() == 0 {
        Seq::empty()
    } else {
        zone_names_of(items.drop_last()) + match items.last() {
            JsonValue::Object(m) => match member(m@, "name"@) {
                Some(JsonValue::Str(s)) => seq![s@],
                _ => Seq::empty(),
            },
            _ => Seq::empty(),
        }
    }
}

fn collect_zone_names(items: &Vec<JsonValue>) -> (r: Vec<String>)
    ensures
        r@.map_values(|s: String| s@) == zone_names_of(items@),
{
    let mut names: Vec<String> = Vec::new();
    let mut i: usize = 0;
    proof {
        assert(items@.subrange(0, 0) =~= Seq::<JsonValue>::empty());
        assert(names@.map_values(|s: String| s@) =~= Seq::<Seq<char>>::empty());
    }
    while i < items.len()
        invariant
            i <= items@.len(),
            names@.map_values(|s: String| s@) == zone_names_of(items@.subrange(0, i as int)),
        decreases items@.len() - i,
    {
        proof {
            assert(items@.subrange(0, i as int + 1).drop_last() =~= items@.subrange(0, i as int));
            assert(items@.subrange(0, i as int + 1).last() == items@[i as int]);
        }
        match &items[i] {
            JsonValue::Object(m) => match crate::json::find_member(m, "name") {
                Some(JsonValue::Str(s)) => {
                    names.push(s.clone());
                },
                _ => {},
            },
            _ => {},
        }
        proof {
            assert(names@.map_values(|s: String| s@) =~= zone_names_of(items@.subrange(0, i as int + 1)));
        }
        i = i + 1;
    }
    proof {
        assert(items@.subrange(0, items@.len() as int) =~= items@);
    }
    names
}

/// The zone names of a zone listing (its `items`, each with a `name`), sorted.
pub fn zone_names(response: &JsonValue) -> (r: Vec<String>)
    ensures
        forall|k: int| 0 <= k < r@.len() - 1 ==> text_cmp(#[trigger] r@[k]@, r@[k + 1]@) <= 0,
        match *response {
            JsonValue::Object(top) => match member(top@, "items"@) {
                Some(JsonValue::Array(items)) => r@.len() == zone_names_of(items@).len() && forall|j: int|
                    0 <= j < zone_names_of(items@).len() ==> r@.map_values(|s: String| s@).contains(
                        #[trigger] zone_names_of(items@)[j],
                    ),
                _ => r@.len() == 0,
            },
            _ => r@.len() == 0,
        },
{
    match response {
        JsonValue::Object(top) => match crate::json::find_member(top, "items") {
            Some(JsonValue::Array(items)) => {
                let names = collect_zone_names(items);
                let ghost before = names@;
                let sorted = sort_strings(names);
                proof {
                    assert forall|j: int| 0 <= j < zone_names_of(items@).len() implies sorted@.map_values(
                        |s: String| s@,
                    ).contains(#[trigger] zone_names_of(items@)[j]) by {
                        assert(before.map_values(|s: String| s@)[j] == before[j]@);
                        assert(sorted@.contains(before[j]));
                        let k = choose|k: int| 0 <= k < sorted@.len() && sorted@[k] == before[j];
                        assert(sorted@.map_values(|s: String| s@)[k] == before[j]@);
                    }
                }
                sorted
            },
            _ => Vec::new(),
        },
        _ => Vec::new(),
    }
}

} // verus!
