use vstd::prelude::*;
use std::cmp::Ordering;

verus! {

/// A semantic version `major.minor.patch`.
#[derive(Clone, Copy, Debug, PartialEq, Eq, Structural)]
pub struct PluginVersion {
    pub major: u32,
    pub minor: u32,
    pub patch: u32,
}

/// Three-way comparison of two integers.
pub open spec fn cmp_int(a: int, b: int) -> Ordering {
    if a < b {
        Ordering::Less
    } else if a > b {
        Ordering::Greater
    } else {
        Ordering::Equal
    }
}

/// Lexicographic order on versions: major, then minor, then patch.
pub open spec fn version_order(a: PluginVersion, b: PluginVersion) -> Ordering {
    if a.major != b.major {
        cmp_int(a.major as int, b.major as int)
    } else if a.minor != b.minor {
        cmp_int(a.minor as int, b.minor as int)
    } else {
        cmp_int(a.patch as int, b.patch as int)
    }
}

fn cmp_u32(a: u32, b: u32) -> (r: Ordering)
    ensures
        r == cmp_int(a as int, b as int),
{
    if a < b {
        Ordering::Less
    } else if a > b {
        Ordering::Greater
    } else {
        Ordering::Equal
    }
}

impl PluginVersion {
    pub fn new(major: u32, minor: u32, patch: u32) -> (r: Self)
        ensures
            r == (PluginVersion { major, minor, patch }),
    {
        PluginVersion { major, minor, patch }
    }

    /// Compares lexicographically by major, then minor, then patch.
    pub fn compare(&self, other: &Self) -> (r: Ordering)
        ensures
            r == version_order(*self, *other),
    {
        let by_major = cmp_u32(self.major, other.major);
        match by_major {
            Ordering::Equal => {
                let by_minor = cmp_u32(self.minor, other.minor);
                match by_minor {
                    Ordering::Equal => cmp_u32(self.patch, other.patch),
                    _ => by_minor,
                }
            },
            _ => by_major,
        }
    }

    /// Whether all three components agree.
    pub fn eq(&self, other: &Self) -> (r: bool)
        ensures
            r == (*self == *other),
    {
        self.major == other.major && self.minor == other.minor && self.patch == other.patch
    }
}

/// The version order is a total order that agrees with equality:
/// `compare` is `Equal` exactly on equal triples, swapping the operands
/// reverses the result, and `Less` is transitive.
pub proof fn lemma_version_order_total(a: PluginVersion, b: PluginVersion, c: PluginVersion)
    ensures
        (version_order(a, b) == Ordering::Equal) <==> a == b,
        version_order(a, b) == Ordering::Less <==> version_order(b, a) == Ordering::Greater,
        version_order(a, b) == Ordering::Less && version_order(b, c) == Ordering::Less
            ==> version_order(a, c) == Ordering::Less,
{
}

/// Which replacement versions a reload accepts.
#[derive(Clone, Copy, Debug, PartialEq, Eq, Structural)]
pub enum ReloadPolicy {
    /// Any version may replace the loaded one.
    AcceptAny,
    /// A version older than the loaded one is refused.
    RejectOlder,
}

/// Whether `policy` lets version `candidate` replace the loaded `current`.
pub fn reload_allowed(policy: ReloadPolicy, current: &PluginVersion, candidate: &PluginVersion) -> (r: bool)
    ensures
        r == match policy {
            ReloadPolicy::AcceptAny => true,
            ReloadPolicy::RejectOlder => version_order(*candidate, *current) != Ordering::Less,
        },
{
    match policy {
        ReloadPolicy::AcceptAny => true,
        ReloadPolicy::RejectOlder => match candidate.compare(current) {
            Ordering::Less => false,
            _ => true,
        },
    }
}

/// A component that carries a version.
pub trait Versioned {
    spec fn version_spec(&self) -> PluginVersion;

    fn get_version(&self) -> (r: &PluginVersion)
        ensures
            *r == self.version_spec(),
    ;
}

/// Ordering of components by their versions.
pub trait VersionComparable: Versioned {
    fn compare_version(&self, other: &Self) -> (r: Ordering)
        ensures
            r == version_order(self.version_spec(), other.version_spec()),
    {
        self.get_version().compare(other.get_version())
    }
}

/// Equality of components by their versions.
pub trait VersionEquatable: Versioned {
    fn version_eq(&self, other: &Self) -> (r: bool)
        ensures
            r == (self.version_spec() == other.version_spec()),
    {
        self.get_version().eq(other.get_version())
    }
}

} // verus!
