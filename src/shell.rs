//! Checks applied before anything is handed to an external shell process:
//! extra SSH arguments against an allow-list, and resource names against the
//! provider's naming rules.
use vstd::prelude::*;
use crate::text::{contains_seq, starts_with_seq, str_contains, str_starts_with};

verus! {

/// The lower-case form of a string, as `str::to_lowercase` gives it.
pub uninterp spec fn lower_of(s: Seq<char>) -> Seq<char>;

/// ASCII letters mapped to lower case, every other character kept.
pub open spec fn ascii_lower_char(c: char) -> char {
    if 'A' <= c <= 'Z' {
        "abcdefghijklmnopqrstuvwxyz"@[c as int - 'A' as int]
    } else {
        c
    }
}

/// Whether every character is ASCII.
pub open spec fn all_ascii(s: Seq<char>) -> bool {
    forall|i: int| 0 <= i < s.len() ==> (#[trigger] s[i] as u32) < 128
}

/// Relies on `str::to_lowercase`: the result depends on the characters alone,
/// an empty string stays empty, and ASCII text maps character by character
/// to ASCII lower case.
#[verifier::external_body]
pub(crate) fn lowercase(s: &str) -> (r: String)
    ensures
        r@ == lower_of(s@),
        s@.len() == 0 ==> r@.len() == 0,
        all_ascii(s@) ==> r@ == s@.map_values(|c: char| ascii_lower_char(c)),
{
    s.to_lowercase()
}

/// Number of allowed argument prefixes.
pub const N_ALLOWED_PREFIXES: usize = 14;

/// Number of argument prefixes that take their value as the next argument.
pub const N_VALUE_PREFIXES: usize = 8;

/// Number of SSH options that are refused.
pub const N_DANGEROUS_OPTIONS: usize = 3;

/// The allowed prefixes of extra SSH arguments, in lower case.
pub open spec fn allowed_prefix(k: int) -> Seq<char> {
    if k == 0 {
        "-o"@
    } else if k == 1 {
        "-i"@
    } else if k == 2 {
        "-l"@
    } else if k == 3 {
        "-r"@
    } else if k == 4 {
        "-d"@
    } else if k == 5 {
        "-p"@
    } else if k == 6 {
        "-q"@
    } else if k == 7 {
        "-v"@
    } else if k == 8 {
        "-4"@
    } else if k == 9 {
        "-6"@
    } else if k == 10 {
        "--ssh-flag"@
    } else if k == 11 {
        "--ssh-key-file"@
    } else if k == 12 {
        "--internal-ip"@
    } else {
        "--dry-run"@
    }
}

fn allowed_prefix_str(k: usize) -> (r: &'static str)
    requires
        k < N_ALLOWED_PREFIXES,
    ensures
        r@ == allowed_prefix(k as int),
{
    if k == 0 {
        "-o"
    } else if k == 1 {
        "-i"
    } else if k == 2 {
        "-l"
    } else if k == 3 {
        "-r"
    } else if k == 4 {
        "-d"
    } else if k == 5 {
        "-p"
    } else if k == 6 {
        "-q"
    } else if k == 7 {
        "-v"
    } else if k == 8 {
        "-4"
    } else if k == 9 {
        "-6"
    } else if k == 10 {
        "--ssh-flag"
    } else if k == 11 {
        "--ssh-key-file"
    } else if k == 12 {
        "--internal-ip"
    } else {
        "--dry-run"
    }
}

/// Whether a lower-cased argument begins with an allowed prefix.
pub open spec fn is_allowed_arg(lower: Seq<char>) -> bool {
    exists|k: int| 0 <= k < N_ALLOWED_PREFIXES && starts_with_seq(lower, #[trigger] allowed_prefix(k))
}

/// The prefixes of arguments whose value is the next argument.
pub open spec fn value_prefix(k: int) -> Seq<char> {
    if k == 6 {
        "--ssh-flag"@
    } else if k == 7 {
        "--ssh-key-file"@
    } else {
        allowed_prefix(k)
    }
}

fn value_prefix_str(k: usize) -> (r: &'static str)
    requires
        k < N_VALUE_PREFIXES,
    ensures
        r@ == value_prefix(k as int),
{
    if k == 6 {
        "--ssh-flag"
    } else if k == 7 {
        "--ssh-key-file"
    } else {
        allowed_prefix_str(k)
    }
}

/// Whether an argument (`arg`, lower-cased `lower`) takes the next argument as
/// its value.
pub open spec fn takes_value(arg: Seq<char>, lower: Seq<char>) -> bool {
    exists|k: int|
        0 <= k < N_VALUE_PREFIXES && (lower == #[trigger] value_prefix(k) || (starts_with_seq(
            lower,
            value_prefix(k),
        ) && arg.len() == value_prefix(k).len()))
}

/// The refused SSH options, in lower case.
pub open spec fn dangerous_option(k: int) -> Seq<char> {
    if k == 0 {
        "proxycommand"@
    } else if k == 1 {
        "localcommand"@
    } else {
        "permitlocalcommand"@
    }
}

fn dangerous_option_str(k: usize) -> (r: &'static str)
    requires
        k < N_DANGEROUS_OPTIONS,
    ensures
        r@ == dangerous_option(k as int),
{
    if k == 0 {
        "proxycommand"
    } else if k == 1 {
        "localcommand"
    } else {
        "permitlocalcommand"
    }
}

/// The first refused option that a lower-cased option value holds, from `k` on.
pub open spec fn first_dangerous_from(lower_value: Seq<char>, k: nat) -> Option<nat>
    decreases N_DANGEROUS_OPTIONS - k,
{
    if k >= N_DANGEROUS_OPTIONS {
        None
    } else if contains_seq(lower_value, dangerous_option(k as int)) {
        Some(k)
    } else {
        first_dangerous_from(lower_value, k + 1)
    }
}

/// Why a list of extra SSH arguments is refused.
pub enum SshArgIssue {
    /// The argument at this index has no allowed prefix.
    NotAllowed { index: nat },
    /// The `-o` argument at this index has an attached value that holds the
    /// refused option `option`.
    DangerousAttached { index: nat, option: nat },
    /// The argument at this index, the value of a preceding `-o`, holds the
    /// refused option `option`.
    DangerousValue { index: nat, option: nat },
}

/// Scans `args` (lower-cased `lower`) from index `i`; `None` when the rest
/// is acceptable. An `-o` takes its value either attached or as the next
/// argument, and that value is checked for refused options.
pub open spec fn ssh_scan(args: Seq<Seq<char>>, lower: Seq<Seq<char>>, i: nat) -> Option<SshArgIssue>
    decreases args.len() + 1 - i,
{
    if i >= args.len() {
        None
    } else {
        let a = args[i as int];
        let al = lower[i as int];
        if !is_allowed_arg(al) {
            Some(SshArgIssue::NotAllowed { index: i })
        } else if starts_with_seq(al, "-o"@) {
            if a.len() > 2 {
                match first_dangerous_from(al.subrange(2, al.len() as int), 0) {
                    Some(k) => Some(SshArgIssue::DangerousAttached { index: i, option: k }),
                    None => ssh_scan(args, lower, i + 1),
                }
            } else if i + 1 < args.len() {
                match first_dangerous_from(lower[i + 1int], 0) {
                    Some(k) => Some(SshArgIssue::DangerousValue { index: i + 1, option: k }),
                    None => ssh_scan(args, lower, i + 2),
                }
            } else {
                None
            }
        } else if takes_value(a, al) {
            ssh_scan(args, lower, i + 2)
        } else {
            ssh_scan(args, lower, i + 1)
        }
    }
}

pub open spec fn views(v: Seq<String>) -> Seq<Seq<char>> {
    v.map_values(|s: String| s@)
}

pub open spec fn lowered(v: Seq<String>) -> Seq<Seq<char>> {
    v.map_values(|s: String| lower_of(s@))
}

/// A refused list of extra SSH arguments.
#[derive(Debug, Clone, PartialEq, Eq)]
pub enum SshArgError {
    /// This argument has no allowed prefix.
    NotAllowed { arg: String },
    /// This option value holds this refused option.
    Dangerous { value: String, option: String },
}

impl SshArgError {
    /// The message shown to the user.
    pub fn to_string(&self) -> (r: String)
        ensures
            r@ == match self {
                SshArgError::NotAllowed { arg } => "SSH argument '"@ + arg@
                    + "' is not in the allowed list. Allowed prefixes: -o, -i, -l, -r, -d, -p, -q, -v, -4, -6, --ssh-flag, --ssh-key-file, --internal-ip, --dry-run"@,
                SshArgError::Dangerous { value, option } => "SSH option '"@ + value@
                    + "' contains potentially dangerous option '"@ + option@
                    + "'. This option is not allowed for security reasons."@,
            },
    {
        match self {
            SshArgError::NotAllowed { arg } => {
                let mut s = String::from_str("SSH argument '");
                s.append(arg.as_str());
                s.append(
                    "' is not in the allowed list. Allowed prefixes: -o, -i, -l, -r, -d, -p, -q, -v, -4, -6, --ssh-flag, --ssh-key-file, --internal-ip, --dry-run",
                );
                s
            },
            SshArgError::Dangerous { value, option } => {
                let mut s = String::from_str("SSH option '");
                s.append(value.as_str());
                s.append("' contains potentially dangerous option '");
                s.append(option.as_str());
                s.append("'. This option is not allowed for security reasons.");
                s
            },
        }
    }
}

fn is_allowed_lower(al: &str) -> (r: bool)
    ensures
        r == is_allowed_arg(al@),
{
    let mut k: usize = 0;
    while k < N_ALLOWED_PREFIXES
        invariant
            k <= N_ALLOWED_PREFIXES,
            forall|j: int| 0 <= j < k ==> !starts_with_seq(al@, #[trigger] allowed_prefix(j)),
        decreases N_ALLOWED_PREFIXES - k,
    {
        if str_starts_with(al, allowed_prefix_str(k)) {
            return true;
        }
        k = k + 1;
    }
    false
}

fn takes_value_exec(arg: &str, al: &str) -> (r: bool)
    ensures
        r == takes_value(arg@, al@),
{
    let mut k: usize = 0;
    while k < N_VALUE_PREFIXES
        invariant
            k <= N_VALUE_PREFIXES,
            forall|j: int|
                0 <= j < k ==> !(al@ == #[trigger] value_prefix(j) || (starts_with_seq(
                    al@,
                    value_prefix(j),
                ) && arg@.len() == value_prefix(j).len())),
        decreases N_VALUE_PREFIXES - k,
    {
        let p = value_prefix_str(k);
        let plen = p.unicode_len();
        let al_len = al.unicode_len();
        let equal = plen == al_len && str_starts_with(al, p);
        proof {
            if plen == al_len && starts_with_seq(al@, p@) {
                assert(al@ =~= al@.subrange(0, p@.len() as int));
            }
            if al@ == p@ {
                assert(al@.subrange(0, p@.len() as int) =~= al@);
            }
        }
        if equal || (str_starts_with(al, p) && arg.unicode_len() == plen) {
            return true;
        }
        k = k + 1;
    }
    false
}

fn first_dangerous(lower_value: &str) -> (r: Option<usize>)
    ensures
        match r {
            Some(k) => first_dangerous_from(lower_value@, 0) == Some(k as nat) && k < N_DANGEROUS_OPTIONS,
            None => first_dangerous_from(lower_value@, 0) is None,
        },
{
    let mut k: usize = 0;
    while k < N_DANGEROUS_OPTIONS
        invariant
            k <= N_DANGEROUS_OPTIONS,
            first_dangerous_from(lower_value@, 0) == first_dangerous_from(lower_value@, k as nat),
        decreases N_DANGEROUS_OPTIONS - k,
    {
        if str_contains(lower_value, dangerous_option_str(k)) {
            return Some(k);
        }
        k = k + 1;
    }
    None
}

/// Checks extra SSH arguments, given each argument and its lower-case form.
pub fn validate_ssh_args_lowered(args: &Vec<String>, lower: &Vec<String>) -> (r: Result<(), SshArgError>)
    requires
        args@.len() == lower@.len(),
    ensures
        match ssh_scan(views(args@), views(lower@), 0) {
            None => r is Ok,
            Some(SshArgIssue::NotAllowed { index }) => r == Err::<(), SshArgError>(
                SshArgError::NotAllowed { arg: args@[index as int] },
            ),
            Some(SshArgIssue::DangerousAttached { index, option }) => match r {
                Err(SshArgError::Dangerous { value, option: o }) => o@ == dangerous_option(
                    option as int,
                ) && value@ == args@[index as int]@.subrange(2, args@[index as int]@.len() as int),
                _ => false,
            },
            Some(SshArgIssue::DangerousValue { index, option }) => match r {
                Err(SshArgError::Dangerous { value, option: o }) => o@ == dangerous_option(
                    option as int,
                ) && value@ == args@[index as int]@,
                _ => false,
            },
        },
{
    let ghost a = views(args@);
    let ghost l = views(lower@);
    let n = args.len();
    let mut i: usize = 0;
    while i < n
        invariant
            n == args@.len(),
            n == lower@.len(),
            a == views(args@),
            l == views(lower@),
            i <= n,
            ssh_scan(a, l, 0) == ssh_scan(a, l, i as nat),
        decreases n - i,
    {
        let arg = &args[i];
        let al = &lower[i];
        assert(a[i as int] == arg@);
        assert(l[i as int] == al@);
        proof {
            reveal_strlit("-o");
        }
        if !is_allowed_lower(al.as_str()) {
            return Err(SshArgError::NotAllowed { arg: arg.clone() });
        }
        if str_starts_with(al.as_str(), "-o") {
            let arg_len = arg.as_str().unicode_len();
            let al_len = al.as_str().unicode_len();
            if arg_len > 2 {
                if al_len >= 2 {
                    let option_lower = al.as_str().substring_char(2, al_len);
                    match first_dangerous(option_lower) {
                        Some(k) => {
                            return Err(
                                SshArgError::Dangerous {
                                    value: String::from_str(arg.as_str().substring_char(2, arg_len)),
                                    option: String::from_str(dangerous_option_str(k)),
                                },
                            );
                        },
                        None => {},
                    }
                }
                i = i + 1;
            } else if i + 1 < n {
                let next_lower = &lower[i + 1];
                assert(l[i + 1] == next_lower@);
                match first_dangerous(next_lower.as_str()) {
                    Some(k) => {
                        return Err(
                            SshArgError::Dangerous {
                                value: args[i + 1].clone(),
                                option: String::from_str(dangerous_option_str(k)),
                            },
                        );
                    },
                    None => {},
                }
                i = i + 2;
            } else {
                return Ok(());
            }
        } else if takes_value_exec(arg.as_str(), al.as_str()) {
            if i + 1 < n {
                i = i + 2;
            } else {
                assert(ssh_scan(a, l, (i + 2) as nat) is None);
                assert(ssh_scan(a, l, n as nat) is None);
                i = n;
            }
        } else {
            i = i + 1;
        }
    }
    Ok(())
}

/// Checks extra SSH arguments against the allow-list, case-insensitively;
/// values of `-o` must not hold a refused option.
pub fn validate_ssh_extra_args(args: &Vec<String>) -> (r: Result<(), SshArgError>)
    ensures
        (r is Ok) == (ssh_scan(views(args@), lowered(args@), 0) is None),
{
    let mut lower: Vec<String> = Vec::new();
    let mut i: usize = 0;
    while i < args.len()
        invariant
            i <= args@.len(),
            lower@.len() == i,
            forall|j: int| 0 <= j < i ==> lower@[j]@ == lower_of(#[trigger] args@[j]@),
        decreases args@.len() - i,
    {
        lower.push(lowercase(args[i].as_str()));
        i = i + 1;
    }
    proof {
        assert(views(lower@) =~= lowered(args@));
    }
    validate_ssh_args_lowered(args, &lower)
}

/// Why a resource name is refused.
#[derive(Debug, Clone, PartialEq, Eq)]
pub enum NameError {
    Empty { kind: String },
    TooLong { kind: String, name: String },
    InvalidCharacters { kind: String, name: String },
    BadStart { kind: String, name: String },
    TrailingHyphen { kind: String, name: String },
}

pub open spec fn name_char_ok(c: char) -> bool {
    ('a' <= c && c <= 'z') || ('0' <= c && c <= '9') || c == '-'
}

/// Longest accepted resource name, in bytes.
pub const MAX_NAME_LENGTH: usize = 63;

impl NameError {
    /// The message shown to the user.
    pub fn to_string(&self) -> (r: String)
        ensures
            r@ == match self {
                NameError::Empty { kind } => kind@ + " name cannot be empty"@,
                NameError::TooLong { kind, name } => kind@ + " name '"@ + name@
                    + "' exceeds maximum length of 63 characters"@,
                NameError::InvalidCharacters { kind, name } => kind@ + " name '"@ + name@
                    + "' contains invalid characters. Only lowercase letters, numbers, and hyphens are allowed."@,
                NameError::BadStart { kind, name } => kind@ + " name '"@ + name@
                    + "' must start with a lowercase letter"@,
                NameError::TrailingHyphen { kind, name } => kind@ + " name '"@ + name@
                    + "' must not end with a hyphen"@,
            },
    {
        match self {
            NameError::Empty { kind } => {
                let mut s = kind.clone();
                s.append(" name cannot be empty");
                s
            },
            NameError::TooLong { kind, name } => {
                let mut s = kind.clone();
                s.append(" name '");
                s.append(name.as_str());
                s.append("' exceeds maximum length of 63 characters");
                s
            },
            NameError::InvalidCharacters { kind, name } => {
                let mut s = kind.clone();
                s.append(" name '");
                s.append(name.as_str());
                s.append(
                    "' contains invalid characters. Only lowercase letters, numbers, and hyphens are allowed.",
                );
                s
            },
            NameError::BadStart { kind, name } => {
                let mut s = kind.clone();
                s.append(" name '");
                s.append(name.as_str());
                s.append("' must start with a lowercase letter");
                s
            },
            NameError::TrailingHyphen { kind, name } => {
                let mut s = kind.clone();
                s.append(" name '");
                s.append(name.as_str());
                s.append("' must not end with a hyphen");
                s
            },
        }
    }
}

/// Checks a resource name (instance, zone, project): lowercase letters,
/// digits and hyphens, at most 63 bytes, starting with a letter and not ending
/// with a hyphen. The checks are made in that order; the first that fails
/// gives the error.
pub fn validate_gcp_resource_name(name: &str, resource_type: &str) -> (r: Result<(), NameError>)
    ensures
        name@.len() == 0 ==> match r {
            Err(NameError::Empty { kind }) => kind@ == resource_type@,
            _ => false,
        },
        name@.len() > 0 && name.len() > MAX_NAME_LENGTH ==> match r {
            Err(NameError::TooLong { kind, name: n }) => kind@ == resource_type@ && n@ == name@,
            _ => false,
        },
        name@.len() > 0 && name.len() <= MAX_NAME_LENGTH && !(forall|i: int|
            0 <= i < name@.len() ==> name_char_ok(#[trigger] name@[i])) ==> match r {
            Err(NameError::InvalidCharacters { kind, name: n }) => kind@ == resource_type@ && n@ == name@,
            _ => false,
        },
        name@.len() > 0 && name.len() <= MAX_NAME_LENGTH && (forall|i: int|
            0 <= i < name@.len() ==> name_char_ok(#[trigger] name@[i])) && !('a' <= name@[0]
            <= 'z') ==> match r {
            Err(NameError::BadStart { kind, name: n }) => kind@ == resource_type@ && n@ == name@,
            _ => false,
        },
        name@.len() > 0 && name.len() <= MAX_NAME_LENGTH && (forall|i: int|
            0 <= i < name@.len() ==> name_char_ok(#[trigger] name@[i])) && ('a' <= name@[0] <= 'z')
            && name@.last() == '-' ==> match r {
            Err(NameError::TrailingHyphen { kind, name: n }) => kind@ == resource_type@ && n@ == name@,
            _ => false,
        },
        (r is Ok) == (name@.len() > 0 && name.len() <= MAX_NAME_LENGTH && (forall|i: int|
            0 <= i < name@.len() ==> name_char_ok(#[trigger] name@[i])) && ('a' <= name@[0] <= 'z')
            && name@.last() != '-'),
{
    let n = name.unicode_len();
    if n == 0 {
        return Err(NameError::Empty { kind: String::from_str(resource_type) });
    }
    if name.len() > MAX_NAME_LENGTH {
        return Err(
            NameError::TooLong {
                kind: String::from_str(resource_type),
                name: String::from_str(name),
            },
        );
    }
    assert(name.len() <= MAX_NAME_LENGTH);
    let mut i: usize = 0;
    while i < n
        invariant
            n == name@.len(),
            name.len() <= MAX_NAME_LENGTH,
            i <= n,
            forall|j: int| 0 <= j < i ==> name_char_ok(#[trigger] name@[j]),
        decreases n - i,
    {
        let c = name.get_char(i);
        if !(('a' <= c && c <= 'z') || ('0' <= c && c <= '9') || c == '-') {
            return Err(
                NameError::InvalidCharacters {
                    kind: String::from_str(resource_type),
                    name: String::from_str(name),
                },
            );
        }
        i = i + 1;
    }
    let first = name.get_char(0);
    if !('a' <= first && first <= 'z') {
        return Err(
            NameError::BadStart {
                kind: String::from_str(resource_type),
                name: String::from_str(name),
            },
        );
    }
    if name.get_char(n - 1) == '-' {
        return Err(
            NameError::TrailingHyphen {
                kind: String::from_str(resource_type),
                name: String::from_str(name),
            },
        );
    }
    Ok(())
}

/// Percent-encoded form of a string, as `urlencoding::encode` gives it.
pub uninterp spec fn url_encoded(s: Seq<char>) -> Seq<char>;

/// Characters that percent-encoding keeps as they are.
pub open spec fn unreserved(c: char) -> bool {
    ('a' <= c <= 'z') || ('A' <= c <= 'Z') || ('0' <= c <= '9') || c == '-' || c == '_' || c == '.'
        || c == '~'
}

/// Relies on `urlencoding::encode`: percent-encodes every byte except ASCII
/// alphanumerics and `-`, `_`, `.`, `~`, so a string of those alone comes
/// back unchanged.
#[verifier::external_body]
fn url_encode(s: &str) -> (r: String)
    ensures
        r@ == url_encoded(s@),
        (forall|i: int| 0 <= i < s@.len() ==> unreserved(#[trigger] s@[i])) ==> r@ == s@,
{
    urlencoding::encode(s).into_owned()
}

/// The console page of a resource, from the already encoded name, project
/// and zone.
pub open spec fn console_page(resource_type: Seq<char>, n: Seq<char>, p: Seq<char>, z: Seq<char>) -> Seq<char> {
    if resource_type == "compute-instances"@ {
        "https://console.cloud.google.com/compute/instancesDetail/zones/"@ + z + "/instances/"@ + n
            + "?project="@ + p
    } else if resource_type == "compute-disks"@ {
        "https://console.cloud.google.com/compute/disksDetail/zones/"@ + z + "/disks/"@ + n
            + "?project="@ + p
    } else if resource_type == "storage-buckets"@ {
        "https://console.cloud.google.com/storage/browser/"@ + n + "?project="@ + p
    } else if resource_type == "gke-clusters"@ {
        "https://console.cloud.google.com/kubernetes/clusters/details/"@ + z + "/"@ + n + "?project="@
            + p
    } else {
        "https://console.cloud.google.com/home/dashboard?project="@ + p
    }
}

/// The console page of a resource, given its percent-encoded name, project
/// and zone.
pub fn console_url_encoded(resource_type: &str, name: &str, project: &str, zone: &str) -> (r: String)
    ensures
        r@ == console_page(resource_type@, name@, project@, zone@),
{
    if crate::text::str_eq(resource_type, "compute-instances") {
        let mut s = String::from_str("https://console.cloud.google.com/compute/instancesDetail/zones/");
        s.append(zone);
        s.append("/instances/");
        s.append(name);
        s.append("?project=");
        s.append(project);
        s
    } else if crate::text::str_eq(resource_type, "compute-disks") {
        let mut s = String::from_str("https://console.cloud.google.com/compute/disksDetail/zones/");
        s.append(zone);
        s.append("/disks/");
        s.append(name);
        s.append("?project=");
        s.append(project);
        s
    } else if crate::text::str_eq(resource_type, "storage-buckets") {
        let mut s = String::from_str("https://console.cloud.google.com/storage/browser/");
        s.append(name);
        s.append("?project=");
        s.append(project);
        s
    } else if crate::text::str_eq(resource_type, "gke-clusters") {
        let mut s = String::from_str("https://console.cloud.google.com/kubernetes/clusters/details/");
        s.append(zone);
        s.append("/");
        s.append(name);
        s.append("?project=");
        s.append(project);
        s
    } else {
        let mut s = String::from_str("https://console.cloud.google.com/home/dashboard?project=");
        s.append(project);
        s
    }
}

/// The console page of a resource; every dynamic part is percent-encoded.
pub fn console_url(resource_type: &str, resource_name: &str, project: &str, zone: &str) -> (r: String)
    ensures
        r@ == console_page(
            resource_type@,
            url_encoded(resource_name@),
            url_encoded(project@),
            url_encoded(zone@),
        ),
{
    let n = url_encode(resource_name);
    let p = url_encode(project);
    let z = url_encode(zone);
    console_url_encoded(resource_type, n.as_str(), p.as_str(), z.as_str())
}

/// Options of an SSH session to an instance.
pub struct SshOptions {
    pub instance: String,
    pub zone: String,
    pub project: String,
    pub use_iap: bool,
    pub extra_args: Vec<String>,
}

impl SshOptions {
    pub fn new(instance: &str, zone: &str, project: &str) -> (r: SshOptions)
        ensures
            r.instance@ == instance@,
            r.zone@ == zone@,
            r.project@ == project@,
            !r.use_iap,
            r.extra_args@.len() == 0,
    {
        SshOptions {
            instance: String::from_str(instance),
            zone: String::from_str(zone),
            project: String::from_str(project),
            use_iap: false,
            extra_args: Vec::new(),
        }
    }

    /// The same options, tunnelling through IAP.
    pub fn with_iap(self) -> (r: SshOptions)
        ensures
            r == (SshOptions { use_iap: true, ..self }),
    {
        let mut s = self;
        s.use_iap = true;
        s
    }
}

/// How an external process ended.
#[derive(Debug, Clone, PartialEq, Eq)]
pub enum ShellResult {
    Success,
    /// It exited with this non-zero code.
    Failed(i32),
    /// It could not be started or waited for.
    Error(String),
}

/// Why an SSH session is not started.
pub enum SshRefusal {
    InvalidInstance(NameError),
    InvalidZone,
    InvalidProject,
    UnsafeArgs(SshArgError),
}

/// The arguments of `gcloud` for an SSH session, once the instance name, the
/// zone, the project and the extra arguments passed their checks:
/// `compute ssh <instance> --zone <zone> --project <project>`, then
/// `--tunnel-through-iap` when asked, then the extra arguments.
pub fn ssh_command_args(opts: &SshOptions) -> (r: Result<Vec<String>, SshRefusal>)
    ensures
        r is Ok <==> (validate_name_ok(opts.instance@, byte_len(opts.instance@))
            && 0 < opts.zone@.len() && byte_len(opts.zone@) <= MAX_NAME_LENGTH
            && 0 < opts.project@.len() && byte_len(opts.project@) <= MAX_NAME_LENGTH
            && ssh_scan(views(opts.extra_args@), lowered(opts.extra_args@), 0) is None),
        r is Ok ==> {
            let a = r->Ok_0@.map_values(|s: String| s@);
            let base = seq!["compute"@, "ssh"@, opts.instance@, "--zone"@, opts.zone@, "--project"@, opts.project@];
            &&& a == (if opts.use_iap { base.push("--tunnel-through-iap"@) } else { base }) + views(opts.extra_args@)
        },
{
    match validate_gcp_resource_name(opts.instance.as_str(), "Instance") {
        Ok(()) => {},
        Err(e) => {
            return Err(SshRefusal::InvalidInstance(e));
        },
    }
    let zl = opts.zone.as_str().len();
    if opts.zone.as_str().unicode_len() == 0 || zl > MAX_NAME_LENGTH {
        return Err(SshRefusal::InvalidZone);
    }
    let pl = opts.project.as_str().len();
    if opts.project.as_str().unicode_len() == 0 || pl > MAX_NAME_LENGTH {
        return Err(SshRefusal::InvalidProject);
    }
    match validate_ssh_extra_args(&opts.extra_args) {
        Ok(()) => {},
        Err(e) => {
            return Err(SshRefusal::UnsafeArgs(e));
        },
    }
    let mut args: Vec<String> = Vec::new();
    args.push(String::from_str("compute"));
    args.push(String::from_str("ssh"));
    args.push(opts.instance.clone());
    args.push(String::from_str("--zone"));
    args.push(opts.zone.clone());
    args.push(String::from_str("--project"));
    args.push(opts.project.clone());
    if opts.use_iap {
        args.push(String::from_str("--tunnel-through-iap"));
    }
    let ghost head = args@;
    let mut i: usize = 0;
    while i < opts.extra_args.len()
        invariant
            i <= opts.extra_args@.len(),
            args@ == head + opts.extra_args@.subrange(0, i as int),
        decreases opts.extra_args@.len() - i,
    {
        args.push(opts.extra_args[i].clone());
        proof {
            assert(args@ =~= head + opts.extra_args@.subrange(0, i as int + 1));
        }
        i = i + 1;
    }
    proof {
        assert(opts.extra_args@.subrange(0, opts.extra_args@.len() as int) =~= opts.extra_args@);
        assert(args@.map_values(|s: String| s@) =~= head.map_values(|s: String| s@) + views(opts.extra_args@));
    }
    Ok(args)
}

/// A project id: 6 to 30 bytes of lowercase letters, digits and hyphens,
/// starting with a letter and not ending with a hyphen.
pub open spec fn project_id_ok(p: Seq<char>, bytes: usize) -> bool {
    6 <= bytes <= 30 && p.len() > 0 && ('a' <= p[0] <= 'z') && p.last() != '-' && forall|i: int|
        0 <= i < p.len() ==> name_char_ok(#[trigger] p[i])
}

/// Whether a string is a well-formed project id.
pub fn validate_project_id(project: &str) -> (r: bool)
    ensures
        r == project_id_ok(project@, byte_len(project@)),
{
    let bytes = project.len();
    if bytes < 6 || bytes > 30 {
        return false;
    }
    let n = project.unicode_len();
    if n == 0 {
        return false;
    }
    let first = project.get_char(0);
    if !('a' <= first && first <= 'z') {
        return false;
    }
    if project.get_char(n - 1) == '-' {
        return false;
    }
    let mut i: usize = 0;
    while i < n
        invariant
            n == project@.len(),
            i <= n,
            forall|j: int| 0 <= j < i ==> name_char_ok(#[trigger] project@[j]),
        decreases n - i,
    {
        let c = project.get_char(i);
        if !(('a' <= c && c <= 'z') || ('0' <= c && c <= '9') || c == '-') {
            return false;
        }
        i = i + 1;
    }
    true
}

/// Length of the UTF-8 encoding of a string, as `str::len` reports it.
pub open spec fn byte_len(s: Seq<char>) -> usize {
    vstd::utf8::encode_utf8(s).len() as usize
}

/// The checks `validate_gcp_resource_name` makes, given the name and its
/// length in bytes.
pub open spec fn validate_name_ok(name: Seq<char>, bytes: usize) -> bool {
    name.len() > 0 && bytes <= MAX_NAME_LENGTH && (forall|i: int|
        0 <= i < name.len() ==> name_char_ok(#[trigger] name[i])) && ('a' <= name[0] <= 'z') && name.last()
        != '-'
}

} // verus!
