//! Start-up helpers: the zones offered before the remote list is known,
//! and the progress of the start-up screen.
use vstd::prelude::*;

verus! {

/// Number of zones `list_zones` offers.
pub const KNOWN_ZONE_COUNT: usize = 55;

/// The zones offered in the zone picker, US first, then Europe, Asia,
/// Australia and South America; `us-central1-a` comes first.
pub fn list_zones() -> (r: Vec<String>)
    ensures
        r@.len() == KNOWN_ZONE_COUNT,
        r@[0]@ == "us-central1-a"@,
{
    let mut zones: Vec<String> = Vec::new();
    zones.push(String::from_str("us-central1-a"));
    zones.push(String::from_str("us-central1-b"));
    zones.push(String::from_str("us-central1-c"));
    zones.push(String::from_str("us-central1-f"));
    zones.push(String::from_str("us-east1-b"));
    zones.push(String::from_str("us-east1-c"));
    zones.push(String::from_str("us-east1-d"));
    zones.push(String::from_str("us-east4-a"));
    zones.push(String::from_str("us-east4-b"));
    zones.push(String::from_str("us-east4-c"));
    zones.push(String::from_str("us-west1-a"));
    zones.push(String::from_str("us-west1-b"));
    zones.push(String::from_str("us-west1-c"));
    zones.push(String::from_str("us-west2-a"));
    zones.push(String::from_str("us-west2-b"));
    zones.push(String::from_str("us-west2-c"));
    zones.push(String::from_str("us-west3-a"));
    zones.push(String::from_str("us-west3-b"));
    zones.push(String::from_str("us-west3-c"));
    zones.push(String::from_str("us-west4-a"));
    zones.push(String::from_str("us-west4-b"));
    zones.push(String::from_str("us-west4-c"));
    zones.push(String::from_str("europe-west1-b"));
    zones.push(String::from_str("europe-west1-c"));
    zones.push(String::from_str("europe-west1-d"));
    zones.push(String::from_str("europe-west2-a"));
    zones.push(String::from_str("europe-west2-b"));
    zones.push(String::from_str("europe-west2-c"));
    zones.push(String::from_str("europe-west3-a"));
    zones.push(String::from_str("europe-west3-b"));
    zones.push(String::from_str("europe-west3-c"));
    zones.push(String::from_str("europe-west4-a"));
    zones.push(String::from_str("europe-west4-b"));
    zones.push(String::from_str("europe-west4-c"));
    zones.push(String::from_str("europe-north1-a"));
    zones.push(String::from_str("europe-north1-b"));
    zones.push(String::from_str("europe-north1-c"));
    zones.push(String::from_str("asia-east1-a"));
    zones.push(String::from_str("asia-east1-b"));
    zones.push(String::from_str("asia-east1-c"));
    zones.push(String::from_str("asia-east2-a"));
    zones.push(String::from_str("asia-east2-b"));
    zones.push(String::from_str("asia-east2-c"));
    zones.push(String::from_str("asia-northeast1-a"));
    zones.push(String::from_str("asia-northeast1-b"));
    zones.push(String::from_str("asia-northeast1-c"));
    zones.push(String::from_str("asia-southeast1-a"));
    zones.push(String::from_str("asia-southeast1-b"));
    zones.push(String::from_str("asia-southeast1-c"));
    zones.push(String::from_str("australia-southeast1-a"));
    zones.push(String::from_str("australia-southeast1-b"));
    zones.push(String::from_str("australia-southeast1-c"));
    zones.push(String::from_str("southamerica-east1-a"));
    zones.push(String::from_str("southamerica-east1-b"));
    zones.push(String::from_str("southamerica-east1-c"));
    zones
}

/// Progress of the start-up screen.
pub struct SplashState {
    pub message: String,
    pub completed_steps: usize,
    pub total_steps: usize,
}

/// Steps of the start-up sequence.
pub const SPLASH_STEPS: usize = 5;

impl SplashState {
    pub open spec fn wf(&self) -> bool {
        self.completed_steps <= self.total_steps
    }

    pub fn new() -> (r: SplashState)
        ensures
            r.wf(),
            r.message@ == "Initializing..."@,
            r.completed_steps == 0,
            r.total_steps == SPLASH_STEPS,
    {
        SplashState {
            message: String::from_str("Initializing..."),
            completed_steps: 0,
            total_steps: SPLASH_STEPS,
        }
    }

    pub fn set_message(&mut self, message: &str)
        ensures
            final(self).message@ == message@,
            final(self).completed_steps == old(self).completed_steps,
            final(self).total_steps == old(self).total_steps,
    {
        self.message = String::from_str(message);
    }

    /// Counts one more finished step, never past the total.
    pub fn complete_step(&mut self)
        requires
            old(self).wf(),
        ensures
            final(self).wf(),
            final(self).completed_steps == if old(self).completed_steps < old(self).total_steps {
                old(self).completed_steps + 1
            } else {
                old(self).total_steps as int
            },
            final(self).total_steps == old(self).total_steps,
            final(self).message == old(self).message,
    {
        if self.completed_steps < self.total_steps {
            self.completed_steps = self.completed_steps + 1;
        }
    }
}


/// Why the program cannot start.
#[derive(Debug, PartialEq, Eq)]
pub enum StartupError {
    /// No project was given or configured.
    NoProject,
}

impl StartupError {
    pub fn to_string(&self) -> (r: String)
        ensures
            r@ == "No GCP project configured. Set GOOGLE_CLOUD_PROJECT or use --project flag"@,
    {
        String::from_str("No GCP project configured. Set GOOGLE_CLOUD_PROJECT or use --project flag")
    }
}

/// The project to start with: the one given on the command line, else the
/// configured one; an empty project cannot start.
pub fn choose_project(given: Option<String>, configured: String) -> (r: Result<String, StartupError>)
    ensures
        ({
            let p = match given {
                Some(g) => g@,
                None => configured@,
            };
            &&& p.len() == 0 ==> r == Err::<String, StartupError>(StartupError::NoProject)
            &&& p.len() > 0 ==> r is Ok && r->Ok_0@ == p
        }),
{
    let p = match given {
        Some(g) => g,
        None => configured,
    };
    if p.as_str().unicode_len() == 0 {
        Err(StartupError::NoProject)
    } else {
        Ok(p)
    }
}

/// The zone to start with: the one given on the command line, else the
/// configured one.
pub fn choose_zone(given: Option<String>, configured: String) -> (r: String)
    ensures
        r@ == match given {
            Some(g) => g@,
            None => configured@,
        },
{
    match given {
        Some(g) => g,
        None => configured,
    }
}

/// The projects the picker offers: those listed remotely, or only the
/// current project when the listing failed or came back empty.
pub fn project_choices(current: &str, listed: Option<Vec<String>>) -> (r: Vec<String>)
    ensures
        match listed {
            Some(l) => if l@.len() > 0 {
                r@ == l@
            } else {
                r@.len() == 1 && r@[0]@ == current@
            },
            None => r@.len() == 1 && r@[0]@ == current@,
        },
{
    match listed {
        Some(l) => {
            if l.len() > 0 {
                return l;
            }
        },
        None => {},
    }
    let mut v: Vec<String> = Vec::new();
    v.push(String::from_str(current));
    v
}

/// The zones the picker offers: `all`, then those listed remotely, or the
/// known zones when the listing failed or came back empty.
pub fn zone_choices(listed: Option<Vec<String>>) -> (r: Vec<String>)
    ensures
        r@.len() >= 1,
        r@[0]@ == "all"@,
        match listed {
            Some(l) => l@.len() > 0 ==> r@.subrange(1, r@.len() as int) == l@,
            None => true,
        },
        (match listed {
            Some(l) => l@.len() == 0,
            None => true,
        }) ==> r@.len() == KNOWN_ZONE_COUNT + 1,
{
    let mut r: Vec<String> = Vec::new();
    r.push(String::from_str("all"));
    let mut rest = match listed {
        Some(l) => {
            if l.len() > 0 {
                l
            } else {
                list_zones()
            }
        },
        None => list_zones(),
    };
    let ghost g = rest@;
    r.append(&mut rest);
    proof {
        assert(r@.subrange(1, r@.len() as int) =~= g);
    }
    r
}

} // verus!
