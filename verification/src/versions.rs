//! Stable-version selection: given the version strings a registry
//! document lists, pick the greatest version that parses and has no
//! prerelease part. Parsing one version string is delegated to the
//! `semver` crate; the comparison and the selection are verified here.
use vstd::prelude::*;

verus! {

/// A parsed version: the three numeric components, and whether the
/// version is stable (its prerelease part is empty).
#[derive(PartialEq, Eq, Structural, Clone, Copy, Debug)]
pub struct SemVer {
    pub major: u64,
    pub minor: u64,
    pub patch: u64,
    pub stable: bool,
}

/// What parsing one version string yields: `None` where the text is not a
/// version at all. A function of the text alone.
pub uninterp spec fn sem_of(s: Seq<char>) -> Option<SemVer>;

/// Relies on `semver::Version::parse`: the `major`, `minor` and `patch`
/// numbers and whether the `pre` (prerelease) part is empty; the result
/// depends on the text alone.
#[verifier::external_body]
fn parse_version(s: &str) -> (r: Option<SemVer>)
    ensures
        r == sem_of(s@),
{
    match semver::Version::parse(s) {
        Ok(v) => Some(
            SemVer { major: v.major, minor: v.minor, patch: v.patch, stable: v.pre.is_empty() },
        ),
        Err(_) => None,
    }
}

/// Strict precedence order on parsed versions: lexicographic over
/// (major, minor, patch). Over stable versions this is exactly semver
/// precedence (prerelease parts are empty and build metadata never
/// orders).
pub open spec fn spec_lt(a: SemVer, b: SemVer) -> bool {
    ||| a.major < b.major
    ||| (a.major == b.major && a.minor < b.minor)
    ||| (a.major == b.major && a.minor == b.minor && a.patch < b.patch)
}

fn version_lt(a: &SemVer, b: &SemVer) -> (r: bool)
    ensures
        r == spec_lt(*a, *b),
{
    if a.major != b.major {
        a.major < b.major
    } else if a.minor != b.minor {
        a.minor < b.minor
    } else {
        a.patch < b.patch
    }
}

/// The views of a list of strings.
pub open spec fn strings_view(s: Seq<String>) -> Seq<Seq<char>> {
    s.map_values(|x: String| x@)
}

/// The parsed stable version at index `i`, or `None` where the string
/// there does not parse or is a prerelease — either way it is excluded
/// from the comparison set.
pub open spec fn stable_version_at(vs: Seq<Seq<char>>, i: int) -> Option<SemVer> {
    match sem_of(vs[i]) {
        Some(v) => if v.stable {
            Some(v)
        } else {
            None
        },
        None => None,
    }
}

/// Index `j` holds the selected version: it is in the comparison set, no
/// member of the set exceeds it, and of the members equal to it, it is
/// the last.
pub open spec fn is_chosen(vs: Seq<Seq<char>>, j: int) -> bool {
    &&& 0 <= j < vs.len()
    &&& stable_version_at(vs, j) is Some
    &&& forall|k: int|
        0 <= k < vs.len() && (#[trigger] stable_version_at(vs, k)) is Some ==> {
            let vk = stable_version_at(vs, k)->Some_0;
            let vj = stable_version_at(vs, j)->Some_0;
            !spec_lt(vj, vk) && (spec_lt(vk, vj) || k <= j)
        }
}

/// Pick the greatest stable version among the given version strings:
/// strings that do not parse, and versions with a prerelease part, are
/// excluded from the comparison set. Returns `None` exactly when the set
/// is empty; otherwise the returned string sits at the chosen index — the
/// last index holding the greatest stable version.
pub fn greatest_stable(versions: &Vec<String>) -> (r: Option<String>)
    ensures
        match r {
            None => forall|k: int| 0 <= k < versions@.len()
                ==> (#[trigger] stable_version_at(strings_view(versions@), k)) is None,
            Some(s) => exists|j: int|
                #[trigger] is_chosen(strings_view(versions@), j) && s@ == strings_view(
                    versions@,
                )[j],
        },
{
    let ghost vs = strings_view(versions@);
    let n = versions.len();
    let mut have: bool = false;
    let mut best_index: usize = 0;
    let mut best: SemVer = SemVer { major: 0, minor: 0, patch: 0, stable: false };
    let mut i: usize = 0;
    while i < n
        invariant
            n == versions@.len(),
            vs == strings_view(versions@),
            0 <= i <= n,
            !have ==> forall|k: int| 0 <= k < i
                ==> (#[trigger] stable_version_at(vs, k)) is None,
            have ==> {
                &&& 0 <= best_index < i
                &&& stable_version_at(vs, best_index as int) == Some(best)
                &&& forall|k: int|
                    0 <= k < i && (#[trigger] stable_version_at(vs, k)) is Some ==> {
                        let vk = stable_version_at(vs, k)->Some_0;
                        !spec_lt(best, vk) && (spec_lt(vk, best) || k <= best_index)
                    }
            },
        decreases n - i,
    {
        proof {
            assert(vs[i as int] == versions@[i as int]@);
        }
        match parse_version(versions[i].as_str()) {
            Some(v) => {
                if v.stable {
                    if !have || !version_lt(&v, &best) {
                        have = true;
                        best_index = i;
                        best = v;
                    }
                }
            },
            None => {},
        }
        i += 1;
    }
    if have {
        proof {
            assert(is_chosen(vs, best_index as int));
        }
        Some(versions[best_index].clone())
    } else {
        None
    }
}

/// The version strings a registry document lists under its `versions`
/// field (the field's keys, in the order the parser reports them), or
/// `None` where the text does not parse or has no such field. A function
/// of the text alone.
pub uninterp spec fn versions_of(s: Seq<char>) -> Option<Seq<Seq<char>>>;

spec fn opt_keys_view(r: Option<Vec<String>>) -> Option<Seq<Seq<char>>> {
    match r {
        Some(v) => Some(strings_view(v@)),
        None => None,
    }
}

/// Relies on `serde_json`: `from_str` to parse the registry document and
/// `Value::get` / `Value::as_object` / `Map::keys` to list the keys of
/// its `versions` field; the result depends on the text alone.
#[verifier::external_body]
fn registry_version_keys(raw: &str) -> (r: Option<Vec<String>>)
    ensures
        opt_keys_view(r) == versions_of(raw@),
{
    let v: serde_json::Value = match serde_json::from_str(raw) {
        Ok(v) => v,
        Err(_) => return None,
    };
    let obj = match v.get("versions").and_then(|x| x.as_object()) {
        Some(o) => o,
        None => return None,
    };
    Some(obj.keys().cloned().collect())
}

/// Pick the greatest stable version a registry document offers: `None`
/// exactly when the document does not parse, lists no `versions` field,
/// or lists no stable version; otherwise the selected version string,
/// as [`greatest_stable`] chooses it among the listed keys.
pub fn find_semver(registry_text: &str) -> (r: Option<String>)
    ensures
        match versions_of(registry_text@) {
            None => r is None,
            Some(keys) => match r {
                None => forall|k: int| 0 <= k < keys.len()
                    ==> (#[trigger] stable_version_at(keys, k)) is None,
                Some(s) => exists|j: int| #[trigger] is_chosen(keys, j) && s@ == keys[j],
            },
        },
{
    match registry_version_keys(registry_text) {
        None => None,
        Some(keys) => greatest_stable(&keys),
    }
}

} // verus!
