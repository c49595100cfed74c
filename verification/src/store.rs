//! The registry of installed versions and the default-version pointer.
//!
//! Both are modelled over plain values handed in by the caller: the store
//! over the entry names found in the install root, the pointer over the
//! content of the marker file and the target of the bin symlink. Every
//! decision — which entries are versions, which one is latest, what a
//! removal must delete, when the pointer is cleared — is made and verified
//! here; performing the filesystem actions is the caller's business.

use crate::error::Error;
use crate::text::{spec_trim, str_eq, trim};
use crate::version::{
    sort_versions, sorted, spec_lt, spec_parse, spec_version_str, Version,
};
use vstd::prelude::*;

verus! {

/// The versions among a sequence of names, in order; names that do not
/// parse as versions are skipped.
pub open spec fn parsed_versions(names: Seq<Seq<char>>) -> Seq<Version>
    decreases names.len(),
{
    if names.len() == 0 {
        Seq::empty()
    } else {
        match spec_parse(names.first()) {
            Some(v) => seq![v] + parsed_versions(names.drop_first()),
            None => parsed_versions(names.drop_first()),
        }
    }
}

/// The registry of installed versions: the entry names of the install root.
pub struct VersionStore {
    entries: Vec<String>,
}

impl View for VersionStore {
    type V = Seq<Seq<char>>;

    closed spec fn view(&self) -> Seq<Seq<char>> {
        self.entries@.map_values(|e: String| e@)
    }
}

impl VersionStore {
    /// Builds the store from the entry names of the install root.
    pub fn new(entries: Vec<String>) -> (r: VersionStore)
        ensures
            r@ == entries@.map_values(|e: String| e@),
    {
        VersionStore { entries }
    }

    /// The installed versions, ascending. Entry names that are not versions
    /// are silently skipped: they are unrelated filesystem entries, not
    /// corruption.
    pub fn list(&self) -> (r: Vec<Version>)
        ensures
            sorted(r@),
            r@.to_multiset() == parsed_versions(self@).to_multiset(),
    {
        let mut found: Vec<Version> = Vec::new();
        let mut k: usize = 0;
        let n = self.entries.len();
        proof {
            assert(self@.skip(0) =~= self@);
            assert(found@ + parsed_versions(self@) =~= parsed_versions(self@));
        }
        while k < n
            invariant
                k <= n,
                n == self.entries@.len(),
                self@.len() == n,
                parsed_versions(self@) == found@ + parsed_versions(self@.skip(k as int)),
            decreases n - k,
        {
            let ghost rest = self@.skip(k as int);
            proof {
                assert(rest.first() == self@[k as int]);
                assert(rest.drop_first() =~= self@.skip(k as int + 1));
            }
            let ghost before = found@;
            match Version::parse(self.entries[k].as_str()) {
                Ok(version) => {
                    found.push(version);
                    proof {
                        assert(parsed_versions(rest) == seq![version] + parsed_versions(
                            self@.skip(k as int + 1),
                        ));
                        assert(before + (seq![version] + parsed_versions(self@.skip(k as int + 1)))
                            =~= found@ + parsed_versions(self@.skip(k as int + 1)));
                    }
                },
                Err(_) => {
                    proof {
                        assert(parsed_versions(rest) == parsed_versions(self@.skip(k as int + 1)));
                    }
                },
            }
            k = k + 1;
        }
        proof {
            assert(self@.skip(n as int) =~= Seq::<Seq<char>>::empty());
            assert(found@ + Seq::<Version>::empty() =~= found@);
        }
        sort_versions(&found)
    }

    /// The latest installed version: a maximum of the parsed entries, or
    /// `None` when nothing is installed.
    pub fn latest_installed(&self) -> (r: Option<Version>)
        ensures
            match r {
                Some(v) => parsed_versions(self@).contains(v) && forall|w: Version|
                    parsed_versions(self@).contains(w) ==> !spec_lt(v, w),
                None => parsed_versions(self@).len() == 0,
            },
    {
        broadcast use vstd::seq_lib::group_to_multiset_ensures;

        let all = self.list();
        if all.len() == 0 {
            proof {
                if parsed_versions(self@).len() > 0 {
                    assert(parsed_versions(self@).contains(parsed_versions(self@).first()));
                    assert(all@.to_multiset().count(parsed_versions(self@).first()) > 0);
                }
            }
            None
        } else {
            let v = all[all.len() - 1];
            proof {
                assert(all@.contains(v));
                assert(all@.to_multiset().count(v) > 0);
                assert(parsed_versions(self@).to_multiset().count(v) > 0);
                assert(parsed_versions(self@).contains(v));
                assert forall|w: Version| parsed_versions(self@).contains(w) implies !spec_lt(
                    v,
                    w,
                ) by {
                    assert(all@.to_multiset().count(w) > 0);
                    assert(all@.contains(w));
                    let i = choose|i: int| 0 <= i < all@.len() && all@[i] == w;
                    assert(!spec_lt(all@[all@.len() - 1], all@[i]));
                }
            }
            Some(v)
        }
    }

    /// Whether this exact version is installed: an entry is named by its
    /// canonical string.
    pub fn contains(&self, version: &Version) -> (r: bool)
        ensures
            r == self@.contains(spec_version_str(*version)),
    {
        let name = version.to_string();
        let n = self.entries.len();
        let mut k: usize = 0;
        while k < n
            invariant
                k <= n,
                n == self.entries@.len(),
                self@.len() == n,
                name@ == spec_version_str(*version),
                forall|j: int| 0 <= j < k ==> self@[j] != spec_version_str(*version),
            decreases n - k,
        {
            if str_eq(self.entries[k].as_str(), name.as_str()) {
                assert(self@[k as int] == name@);
                return true;
            }
            k = k + 1;
        }
        proof {
            if self@.contains(spec_version_str(*version)) {
                let i = choose|i: int| 0 <= i < self@.len() && self@[i] == spec_version_str(
                    *version,
                );
                assert(self@[i] != spec_version_str(*version));
            }
        }
        false
    }

    /// Removes a version from the registry. Returns whether the caller must
    /// delete the version's install directory: removing a version that is
    /// not installed is a successful no-op that touches nothing.
    pub fn remove(&mut self, version: &Version) -> (acted: bool)
        ensures
            !old(self)@.contains(spec_version_str(*version)) ==> !acted && final(self)@ == old(
                self,
            )@,
            old(self)@.contains(spec_version_str(*version)) ==> acted && exists|i: int|
                {
                    &&& 0 <= i < old(self)@.len()
                    &&& old(self)@[i] == spec_version_str(*version)
                    &&& final(self)@ =~= old(self)@.remove(i)
                },
    {
        let name = version.to_string();
        let n = self.entries.len();
        let mut k: usize = 0;
        while k < n
            invariant
                k <= n,
                n == self.entries@.len(),
                self@.len() == n,
                self@ == old(self)@,
                name@ == spec_version_str(*version),
                forall|j: int| 0 <= j < k ==> self@[j] != spec_version_str(*version),
            decreases n - k,
        {
            if str_eq(self.entries[k].as_str(), name.as_str()) {
                proof {
                    assert(old(self)@[k as int] == spec_version_str(*version));
                }
                self.entries.remove(k);
                proof {
                    assert(final(self)@ =~= old(self)@.remove(k as int));
                }
                return true;
            }
            k = k + 1;
        }
        proof {
            if old(self)@.contains(spec_version_str(*version)) {
                let i = choose|i: int| 0 <= i < old(self)@.len() && old(self)@[i]
                    == spec_version_str(*version);
                assert(old(self)@[i] != spec_version_str(*version));
            }
        }
        false
    }
}

/// The message reported when a version that is not installed is named.
pub open spec fn not_installed_message(s: Seq<char>) -> Seq<char> {
    "The version "@ + s + " is not installed"@
}

/// What [`DefaultPointer::current_default`] yields for a marker file with
/// the given content: the trimmed content parsed as a version, tolerantly —
/// an absent or unparsable marker means "no default", never an error.
pub open spec fn spec_current_default(marker: Option<Seq<char>>) -> Option<Version> {
    match marker {
        None => None,
        Some(content) => spec_parse(spec_trim(content)),
    }
}

/// The default-version pointer: the content of the marker file and the
/// target of the bin-directory symlink, each `None` when absent.
///
/// Invariant kept by the operations here (best effort, not transactional on
/// the real filesystem): when the marker names a version, the symlink points
/// at that version's own executable.
pub struct DefaultPointer {
    marker: Option<String>,
    symlink: Option<String>,
}

impl View for DefaultPointer {
    type V = (Option<Seq<char>>, Option<Seq<char>>);

    closed spec fn view(&self) -> (Option<Seq<char>>, Option<Seq<char>>) {
        (
            match self.marker {
                Some(ref m) => Some(m@),
                None => None,
            },
            match self.symlink {
                Some(ref t) => Some(t@),
                None => None,
            },
        )
    }
}

impl DefaultPointer {
    /// Builds the pointer from the marker file's content and the symlink's
    /// target, as found on disk.
    pub fn new(marker: Option<String>, symlink: Option<String>) -> (r: DefaultPointer)
        ensures
            r@.0 == (match marker {
                Some(m) => Some(m@),
                None => None::<Seq<char>>,
            }),
            r@.1 == (match symlink {
                Some(t) => Some(t@),
                None => None::<Seq<char>>,
            }),
    {
        DefaultPointer { marker, symlink }
    }

    /// The current default version: the trimmed marker content, if it
    /// parses. An absent or unreadable marker is "no default", not an error.
    pub fn current_default(&self) -> (r: Option<Version>)
        ensures
            r == spec_current_default(self@.0),
    {
        match self.marker {
            None => None,
            Some(ref content) => {
                let trimmed = trim(content.as_str());
                match Version::parse(trimmed) {
                    Ok(version) => Some(version),
                    Err(_) => None,
                }
            },
        }
    }

    /// The target of the bin symlink, if the symlink exists.
    pub fn symlink_target(&self) -> (r: Option<&String>)
        ensures
            match r {
                Some(t) => self@.1 == Some(t@),
                None => self@.1 is None,
            },
    {
        match self.symlink {
            Some(ref t) => Some(t),
            None => None,
        }
    }

    /// Makes `version` the default. Fails — changing nothing — when the
    /// version is not installed; otherwise the marker holds the canonical
    /// version string and the symlink points at the version's executable
    /// under `install_dir`.
    pub fn set_default(
        &mut self,
        version: &Version,
        store: &VersionStore,
        install_dir: &str,
    ) -> (r: Result<(), Error>)
        ensures
            match r {
                Ok(_) => {
                    &&& store@.contains(spec_version_str(*version))
                    &&& final(self)@.0 == Some(spec_version_str(*version))
                    &&& final(self)@.1 == Some(
                        crate::config::spec_version_executable(install_dir@, *version),
                    )
                },
                Err(e) => {
                    &&& !store@.contains(spec_version_str(*version))
                    &&& final(self)@ == old(self)@
                    &&& e@ == not_installed_message(spec_version_str(*version))
                },
            },
    {
        if !store.contains(version) {
            proof {
                reveal_strlit("The version ");
                reveal_strlit(" is not installed");
            }
            let mut message = String::from_str("The version ");
            let name = version.to_string();
            message.append(name.as_str());
            message.append(" is not installed");
            proof {
                assert(message@ =~= not_installed_message(spec_version_str(*version)));
            }
            return Err(Error::from_message(message));
        }
        self.marker = Some(version.to_string());
        self.symlink = Some(crate::config::version_executable(install_dir, version));
        Ok(())
    }

    /// Clears the pointer: no default until one is set again.
    pub fn clear(&mut self)
        ensures
            final(self)@.0 is None,
            final(self)@.1 is None,
    {
        self.marker = None;
        self.symlink = None;
    }

    /// Whether the marker file currently names `version` as the default:
    /// its content, read with the same trim tolerance as
    /// [`DefaultPointer::current_default`], parses to exactly this version.
    pub fn marker_names(&self, version: &Version) -> (r: bool)
        ensures
            r == (spec_current_default(self@.0) == Some(*version)),
    {
        match self.current_default() {
            Some(current) => current == *version,
            None => false,
        }
    }
}

/// Setting a version as the default and then reading the default back
/// yields that version: the marker file holds the canonical version string,
/// whose trimmed form parses to the version itself.
pub proof fn lemma_set_then_current_default(v: Version)
    requires
        !(v.major == 0 && v.minor == 0 && v.patch == 0),
    ensures
        spec_current_default(Some(spec_version_str(v))) == Some(v),
{
    let s = spec_version_str(v);
    let a = crate::text::digits_of(v.major as nat);
    let c = crate::text::digits_of(v.patch as nat);
    crate::text::lemma_digits_of_value(v.major as nat);
    crate::text::lemma_digits_of_value(v.minor as nat);
    crate::text::lemma_digits_of_value(v.patch as nat);
    assert(s[0] == a[0]);
    assert(crate::text::is_digit_char(a[0]));
    assert(!crate::text::is_space(s.first()));
    assert(crate::text::trim_start(s) == s);
    assert(s.last() == c.last());
    assert(crate::text::is_digit_char(c.last()));
    assert(!crate::text::is_space(s.last()));
    assert(crate::text::trim_end(s) == s);
    assert(spec_trim(s) == s);
    crate::version::lemma_parse_format_round_trip(v);
}

/// Removes a version together with its cached runtime data and, when it was
/// the default, the default pointer.
///
/// Returns `(acted, cleared_default)`: `acted` says whether the caller must
/// delete the version's install directory and its `runtimes/<version>` data;
/// `cleared_default` — set when the removed version was the current default
/// — says whether the marker file and the bin symlink must go too. A
/// version that is not installed is a successful no-op that touches
/// nothing.
pub fn remove_cascade(
    store: &mut VersionStore,
    pointer: &mut DefaultPointer,
    version: &Version,
) -> (r: (bool, bool))
    ensures
        !old(store)@.contains(spec_version_str(*version)) ==> {
            &&& r == (false, false)
            &&& final(store)@ == old(store)@
            &&& final(pointer)@ == old(pointer)@
        },
        old(store)@.contains(spec_version_str(*version)) ==> {
            &&& r.0
            &&& exists|i: int|
                {
                    &&& 0 <= i < old(store)@.len()
                    &&& old(store)@[i] == spec_version_str(*version)
                    &&& final(store)@ =~= old(store)@.remove(i)
                }
            &&& r.1 == (spec_current_default(old(pointer)@.0) == Some(*version))
            &&& r.1 ==> final(pointer)@.0 is None && final(pointer)@.1 is None
            &&& !r.1 ==> final(pointer)@ == old(pointer)@
        },
{
    let was_default = pointer.marker_names(version);
    let acted = store.remove(version);
    if !acted {
        return (false, false);
    }
    if was_default {
        pointer.clear();
        (true, true)
    } else {
        (true, false)
    }
}

} // verus!
