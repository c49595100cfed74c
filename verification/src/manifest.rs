//! The locally cached list of known versions.
//!
//! The cache is a plain text file, one canonical version string per line,
//! whose modification time serves as the staleness clock. Reading the file
//! and writing a fresh copy are the caller's business; this module parses
//! the file's content, decides when a refresh must fetch the remote
//! manifest, and picks the latest version.

use crate::error::Error;
use crate::text::{spec_lines, spec_lines_from, strip_cr};
use crate::version::{
    parse_error_message, sort_versions, sorted, spec_lt, spec_parse, Version,
};
use vstd::prelude::*;

verus! {

/// How old the cache file may grow before a refresh fetches the manifest
/// again, in seconds.
pub const EXPIRE_AFTER_SECS: u64 = 6 * 60 * 60;

/// The versions each line of the manifest parses to, or `None` as soon as
/// any line is unparsable.
pub open spec fn parse_lines(lines: Seq<Seq<char>>) -> Option<Seq<Version>>
    decreases lines.len(),
{
    if lines.len() == 0 {
        Some(Seq::empty())
    } else if spec_parse(lines.first()) is None {
        None
    } else {
        match parse_lines(lines.drop_first()) {
            None => None,
            Some(rest) => Some(seq![spec_parse(lines.first()).unwrap()] + rest),
        }
    }
}

/// The first line that fails to parse, in a sequence where some line does.
pub open spec fn first_bad_line(lines: Seq<Seq<char>>) -> Seq<char>
    recommends
        parse_lines(lines) is None,
    decreases lines.len(),
{
    if lines.len() == 0 {
        Seq::empty()
    } else if spec_parse(lines.first()) is None {
        lines.first()
    } else {
        first_bad_line(lines.drop_first())
    }
}

/// An in-memory list of known versions.
#[derive(Debug)]
pub struct Manifest {
    versions: Vec<Version>,
}

impl View for Manifest {
    type V = Seq<Version>;

    closed spec fn view(&self) -> Seq<Version> {
        self.versions@
    }
}

impl Manifest {
    /// Wraps an already built list of versions.
    pub fn new(versions: Vec<Version>) -> (r: Manifest)
        ensures
            r@ == versions@,
    {
        Manifest { versions }
    }

    /// Parses the content of the manifest cache file: one version per line,
    /// sorted ascending in the result. A line that is not a version is a
    /// fatal error naming that line; a corrupted cache is never silently
    /// ignored.
    pub fn parse(content: &str) -> (r: Result<Manifest, Error>)
        ensures
            match r {
                Ok(m) => {
                    &&& parse_lines(spec_lines(content@)) is Some
                    &&& sorted(m@)
                    &&& m@.to_multiset() == parse_lines(spec_lines(content@)).unwrap().to_multiset()
                },
                Err(e) => {
                    &&& parse_lines(spec_lines(content@)) is None
                    &&& e@ == parse_error_message(first_bad_line(spec_lines(content@)))
                },
            },
    {
        let ghost s = content@;
        let n = content.unicode_len();
        let mut versions: Vec<Version> = Vec::new();
        let mut pos: usize = 0;
        proof {
            assert(parse_lines(spec_lines_from(s, 0)) == match parse_lines(
                spec_lines_from(s, pos as int),
            ) {
                None => None::<Seq<Version>>,
                Some(rest) => Some(versions@ + rest),
            });
        }
        while pos < n
            invariant
                pos <= n,
                n == s.len(),
                s == content@,
                parse_lines(spec_lines_from(s, 0)) == match parse_lines(
                    spec_lines_from(s, pos as int),
                ) {
                    None => None::<Seq<Version>>,
                    Some(rest) => Some(versions@ + rest),
                },
                parse_lines(spec_lines_from(s, pos as int)) is None ==> first_bad_line(
                    spec_lines_from(s, 0),
                ) == first_bad_line(spec_lines_from(s, pos as int)),
            decreases n - pos,
        {
            let line_start = pos;
            let e = crate::text::scan_to(content, pos, '\n');
            let mut line_end = e;
            if line_end > line_start && content.get_char(line_end - 1) == '\r' {
                line_end = line_end - 1;
            }
            let line = content.substring_char(line_start, line_end);
            let ghost lines_here = spec_lines_from(s, pos as int);
            proof {
                assert(line@ =~= strip_cr(
                    s.subrange(line_start as int, e as int),
                ));
                if e < n {
                    assert(lines_here == seq![line@] + spec_lines_from(s, e as int + 1));
                    assert((seq![line@] + spec_lines_from(s, e as int + 1)).drop_first()
                        =~= spec_lines_from(s, e as int + 1));
                } else {
                    assert(lines_here == seq![line@]);
                    assert(seq![line@].drop_first() =~= Seq::<Seq<char>>::empty());
                    assert(spec_lines_from(s, n as int) =~= Seq::<Seq<char>>::empty());
                }
                assert(lines_here.first() == line@);
            }
            let version = match Version::parse(line) {
                Ok(version) => version,
                Err(error) => {
                    return Err(error);
                },
            };
            let ghost before = versions@;
            versions.push(version);
            proof {
                assert(versions@ =~= before.push(version));
                if e < n {
                    if parse_lines(spec_lines_from(s, e as int + 1)) is Some {
                        let rest = parse_lines(spec_lines_from(s, e as int + 1)).unwrap();
                        assert(parse_lines(lines_here) == Some(seq![version] + rest));
                        assert(before + (seq![version] + rest) =~= versions@ + rest);
                    }
                } else {
                    assert(parse_lines(Seq::<Seq<char>>::empty()) == Some(Seq::<Version>::empty()));
                    assert(parse_lines(lines_here) == Some(seq![version] + Seq::<Version>::empty()));
                    assert(before + (seq![version] + Seq::<Version>::empty()) =~= versions@
                        + Seq::<Version>::empty());
                }
            }
            if e < n {
                pos = e + 1;
            } else {
                pos = n;
            }
        }
        proof {
            assert(spec_lines_from(s, n as int) =~= Seq::<Seq<char>>::empty());
            assert(parse_lines(Seq::<Seq<char>>::empty()) == Some(Seq::<Version>::empty()));
            assert(versions@ + Seq::<Version>::empty() =~= versions@);
        }
        let sorted_versions = sort_versions(&versions);
        Ok(Manifest { versions: sorted_versions })
    }

    /// The known versions, ascending when this manifest came from [`Manifest::parse`].
    pub fn iter(&self) -> (r: &Vec<Version>)
        ensures
            r@ == self@,
    {
        &self.versions
    }

    /// The number of known versions.
    pub fn len(&self) -> (r: usize)
        ensures
            r == self@.len(),
    {
        self.versions.len()
    }

    /// The last of the known versions — the latest one, since the manifest
    /// is kept sorted ascending — or an error when there are none.
    pub fn latest(&self) -> (r: Result<Version, Error>)
        ensures
            match r {
                Ok(v) => self@.len() > 0 && v == self@.last(),
                Err(e) => self@.len() == 0 && e@ == "There are no versions available"@,
            },
    {
        if self.versions.len() == 0 {
            Err(Error::generic("There are no versions available"))
        } else {
            Ok(self.versions[self.versions.len() - 1])
        }
    }

    /// Whether a refresh must fetch the manifest from the network: only when
    /// the cache file is missing, its age is unknown (a modification time in
    /// the future), or it is at least [`EXPIRE_AFTER_SECS`] old.
    pub fn needs_refresh(cache_file_exists: bool, age_secs: Option<u64>) -> (r: bool)
        ensures
            r == (!cache_file_exists || age_secs is None || age_secs.unwrap()
                >= EXPIRE_AFTER_SECS),
    {
        if !cache_file_exists {
            return true;
        }
        match age_secs {
            None => true,
            Some(age) => age >= EXPIRE_AFTER_SECS,
        }
    }

    /// The URL the manifest body is fetched from.
    pub fn url() -> (r: &'static str)
        ensures
            r@ == "https://releases.inko-lang.org/manifest.txt"@,
    {
        "https://releases.inko-lang.org/manifest.txt"
    }
}

/// In a manifest sorted ascending, the last element is no smaller than any
/// other: what [`Manifest::latest`] returns is the maximum.
pub proof fn lemma_latest_is_max(s: Seq<Version>)
    requires
        sorted(s),
        s.len() > 0,
    ensures
        forall|i: int| 0 <= i < s.len() ==> !spec_lt(s.last(), s[i]),
{
}

} // verus!
