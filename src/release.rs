//! Package releases: a name and a semantic version, their order and their text.
use vstd::prelude::*;
use crate::text::{decimal, push_char, push_decimal};

verus! {

/// A semantic version: three numbers, an optional pre-release tag and
/// optional build metadata (each empty when absent).
#[derive(Clone, Debug, PartialEq, Eq)]
pub struct Version {
    pub major: u64,
    pub minor: u64,
    pub patch: u64,
    pub pre: String,
    pub build: String,
}

/// A resolved package: its name and version.
#[derive(Clone, Debug, PartialEq, Eq)]
pub struct Release {
    pub name: String,
    pub version: Version,
}

/// What a release is, as mathematical values.
pub struct ReleaseView {
    pub name: Seq<char>,
    pub major: u64,
    pub minor: u64,
    pub patch: u64,
    pub pre: Seq<char>,
    pub build: Seq<char>,
}

impl View for Release {
    type V = ReleaseView;

    open spec fn view(&self) -> ReleaseView {
        ReleaseView {
            name: self.name@,
            major: self.version.major,
            minor: self.version.minor,
            patch: self.version.patch,
            pre: self.version.pre@,
            build: self.version.build@,
        }
    }
}

/// Lexicographic order on characters, comparing from position `i` on.
pub open spec fn chars_lt_from(a: Seq<char>, b: Seq<char>, i: int) -> bool
    decreases a.len() - i,
{
    if i < 0 || i >= a.len() {
        0 <= i < b.len()
    } else if i >= b.len() {
        false
    } else if a[i] != b[i] {
        (a[i] as u32) < (b[i] as u32)
    } else {
        chars_lt_from(a, b, i + 1)
    }
}

/// `a` comes strictly before `b` in lexicographic order.
pub open spec fn chars_lt(a: Seq<char>, b: Seq<char>) -> bool {
    chars_lt_from(a, b, 0)
}

/// The order that semantic versioning gives pre-release tags (a version
/// without a tag ranks above one with a tag; dotted fields compare one by
/// one, numeric ones as numbers).
pub uninterp spec fn prerelease_lt(a: Seq<char>, b: Seq<char>) -> bool;

/// The order that semantic versioning gives build metadata.
pub uninterp spec fn build_lt(a: Seq<char>, b: Seq<char>) -> bool;

/// Relies on semver's `Prerelease::new` and the `Ord` of `Prerelease`
/// (a total order): whether tag `a` ranks below tag `b`; false where either
/// is not a valid tag.
#[verifier::external_body]
fn prerelease_precedes(a: &str, b: &str) -> (r: bool)
    ensures
        r == prerelease_lt(a@, b@),
        r ==> !prerelease_lt(b@, a@),
{
    match (rustsec::semver::Prerelease::new(a), rustsec::semver::Prerelease::new(b)) {
        (Ok(x), Ok(y)) => x < y,
        _ => false,
    }
}

/// Relies on semver's `BuildMetadata::new` and the `Ord` of `BuildMetadata`
/// (a total order): whether build metadata `a` ranks below `b`; false where
/// either is not valid build metadata.
#[verifier::external_body]
fn build_precedes(a: &str, b: &str) -> (r: bool)
    ensures
        r == build_lt(a@, b@),
        r ==> !build_lt(b@, a@),
{
    match (rustsec::semver::BuildMetadata::new(a), rustsec::semver::BuildMetadata::new(b)) {
        (Ok(x), Ok(y)) => x < y,
        _ => false,
    }
}

/// The order of releases: by name, then by semantic version (major, minor
/// and patch number, then pre-release tag, then build metadata).
pub open spec fn release_lt(a: ReleaseView, b: ReleaseView) -> bool {
    if a.name != b.name {
        chars_lt(a.name, b.name)
    } else if a.major != b.major {
        a.major < b.major
    } else if a.minor != b.minor {
        a.minor < b.minor
    } else if a.patch != b.patch {
        a.patch < b.patch
    } else if prerelease_lt(a.pre, b.pre) {
        true
    } else if prerelease_lt(b.pre, a.pre) {
        false
    } else {
        build_lt(a.build, b.build)
    }
}

proof fn lemma_chars_lt_from_asym(a: Seq<char>, b: Seq<char>, i: int)
    requires
        0 <= i,
    ensures
        !(chars_lt_from(a, b, i) && chars_lt_from(b, a, i)),
    decreases a.len() - i,
{
    if i < a.len() && i < b.len() && a[i] == b[i] {
        lemma_chars_lt_from_asym(a, b, i + 1);
    }
}

/// Compares two strings in lexicographic order of their characters.
pub fn str_lt(a: &str, b: &str) -> (r: bool)
    ensures
        r == chars_lt(a@, b@),
{
    let la = a.unicode_len();
    let lb = b.unicode_len();
    let mut i: usize = 0;
    while i < la && i < lb
        invariant
            la == a@.len(),
            lb == b@.len(),
            i <= la,
            i <= lb,
            chars_lt(a@, b@) == chars_lt_from(a@, b@, i as int),
        decreases la - i,
    {
        let ca = a.get_char(i);
        let cb = b.get_char(i);
        if ca != cb {
            return (ca as u32) < (cb as u32);
        }
        i += 1;
    }
    i < lb
}

/// Whether two strings hold the same characters.
pub fn str_eq(a: &str, b: &str) -> (r: bool)
    ensures
        r == (a@ == b@),
{
    let la = a.unicode_len();
    let lb = b.unicode_len();
    if la != lb {
        return false;
    }
    let mut i: usize = 0;
    while i < la
        invariant
            la == a@.len(),
            lb == b@.len(),
            la == lb,
            i <= la,
            a@.take(i as int) =~= b@.take(i as int),
        decreases la - i,
    {
        if a.get_char(i) != b.get_char(i) {
            return false;
        }
        proof {
            assert(a@.take(i + 1) =~= a@.take(i as int).push(a@[i as int]));
            assert(b@.take(i + 1) =~= b@.take(i as int).push(b@[i as int]));
        }
        i += 1;
    }
    proof {
        assert(a@.take(la as int) =~= a@);
        assert(b@.take(la as int) =~= b@);
    }
    true
}

/// The text of a version: `major.minor.patch`, then `-pre` and `+build`
/// where those are present.
pub open spec fn version_text(r: ReleaseView) -> Seq<char> {
    let core = decimal(r.major as nat) + seq!['.'] + decimal(r.minor as nat) + seq!['.']
        + decimal(r.patch as nat);
    let with_pre = if r.pre.len() == 0 {
        core
    } else {
        core + seq!['-'] + r.pre
    };
    if r.build.len() == 0 {
        with_pre
    } else {
        with_pre + seq!['+'] + r.build
    }
}

/// The text of a release: its name, a space and its version.
pub open spec fn release_text(r: ReleaseView) -> Seq<char> {
    r.name + seq![' '] + version_text(r)
}

impl Release {
    /// Whether two releases are the same (name and version alike).
    pub fn same(&self, other: &Release) -> (r: bool)
        ensures
            r == (self@ == other@),
    {
        str_eq(self.name.as_str(), other.name.as_str()) && self.version.major
            == other.version.major && self.version.minor == other.version.minor
            && self.version.patch == other.version.patch && str_eq(
            self.version.pre.as_str(),
            other.version.pre.as_str(),
        ) && str_eq(self.version.build.as_str(), other.version.build.as_str())
    }

    /// Whether `self` comes strictly before `other` in the order of releases.
    /// When it does, `other` does not come before `self`.
    pub fn precedes(&self, other: &Release) -> (r: bool)
        ensures
            r == release_lt(self@, other@),
            r ==> !release_lt(other@, self@),
    {
        if !str_eq(self.name.as_str(), other.name.as_str()) {
            proof {
                lemma_chars_lt_from_asym(self.name@, other.name@, 0);
            }
            str_lt(self.name.as_str(), other.name.as_str())
        } else if self.version.major != other.version.major {
            self.version.major < other.version.major
        } else if self.version.minor != other.version.minor {
            self.version.minor < other.version.minor
        } else if self.version.patch != other.version.patch {
            self.version.patch < other.version.patch
        } else if prerelease_precedes(self.version.pre.as_str(), other.version.pre.as_str()) {
            true
        } else if prerelease_precedes(other.version.pre.as_str(), self.version.pre.as_str()) {
            false
        } else {
            build_precedes(self.version.build.as_str(), other.version.build.as_str())
        }
    }

    /// Appends the text of the version to `s`.
    pub fn push_version(&self, s: &mut String)
        ensures
            final(s)@ == old(s)@ + version_text(self@),
    {
        let ghost s0 = s@;
        push_decimal(s, self.version.major);
        push_char(s, '.');
        push_decimal(s, self.version.minor);
        push_char(s, '.');
        push_decimal(s, self.version.patch);
        let ghost v = self@;
        let ghost core = decimal(v.major as nat) + seq!['.'] + decimal(v.minor as nat) + seq!['.']
            + decimal(v.patch as nat);
        assert(s@ =~= s0 + core);
        if self.version.pre.as_str().unicode_len() > 0 {
            push_char(s, '-');
            s.append(self.version.pre.as_str());
        }
        let ghost with_pre = if v.pre.len() == 0 {
            core
        } else {
            core + seq!['-'] + v.pre
        };
        assert(s@ =~= s0 + with_pre);
        if self.version.build.as_str().unicode_len() > 0 {
            push_char(s, '+');
            s.append(self.version.build.as_str());
        }
        assert(s@ =~= s0 + version_text(v));
    }

    /// The text of the release: name, a space, version.
    pub fn to_text(&self) -> (r: String)
        ensures
            r@ == release_text(self@),
    {
        let mut s = String::new();
        s.append(self.name.as_str());
        push_char(&mut s, ' ');
        self.push_version(&mut s);
        proof {
            assert(s@ =~= release_text(self@));
        }
        s
    }
}

} // verus!
