//! Build-manager logic for compiling benchmark binaries.
//!
//! Running the build tool and walking the file system are outside
//! concerns; this module holds the build configuration and the naming
//! rules: which target directory a profile builds into, and which file
//! names can be benchmark binaries.

use vstd::prelude::*;
use vstd::string::StringExecFns;

verus! {

/// Errors that can occur while building benchmark binaries.
#[derive(Debug, Clone)]
pub enum BuildError {
    /// No Cargo.toml found in the given directory.
    NoCargoToml(String),
    /// Failed to read the manifest.
    ReadError(String),
    /// Failed to write the manifest.
    WriteError(String),
    /// The build tool reported a failure.
    BuildFailed(String),
    /// No benchmark binary was found after building.
    NoBenchmarkBinary,
    /// An input or output error.
    Io(String),
}

/// Manages building benchmark binaries with a profile and extra flags.
#[derive(Debug, Clone)]
pub struct BuildManager {
    /// The build profile to use.
    pub profile: String,
    /// Additional flags to pass to the build tool.
    pub cargo_flags: Vec<String>,
}

/// Result of a successful build.
#[derive(Debug, Clone)]
pub struct BuildResult {
    /// Path to the compiled benchmark binary.
    pub binary_path: String,
}

/// A sequence contains the given subsequence somewhere.
pub open spec fn has_substring(s: Seq<char>, sub: Seq<char>) -> bool {
    exists|k: int| 0 <= k <= s.len() - sub.len() && #[trigger] s.subrange(k, k + sub.len()) == sub
}

/// A sequence ends with the given suffix.
pub open spec fn ends_with(s: Seq<char>, suffix: Seq<char>) -> bool {
    suffix.len() <= s.len() && s.subrange(s.len() - suffix.len(), s.len() as int) == suffix
}

/// Whether `s` contains `sub`, by direct search.
fn contains_substring(s: &Vec<char>, sub: &str) -> (r: bool)
    ensures
        r == has_substring(s@, sub@),
{
    let m = sub.unicode_len();
    if m > s.len() {
        return false;
    }
    if m == 0 {
        proof {
            let zero: int = 0;
            assert(s@.subrange(zero, zero + sub@.len()) =~= sub@);
            assert(has_substring(s@, sub@));
        }
        return true;
    }
    let mut k: usize = 0;
    while k <= s.len() - m
        invariant
            1 <= m,
            m == sub@.len() <= s@.len() <= usize::MAX,
            0 <= k <= s@.len() - m + 1,
            forall|j: int| 0 <= j < k ==> #[trigger] s@.subrange(j, j + sub@.len()) != sub@,
        decreases s@.len() - m - k + 1,
    {
        match crate::json::match_lit(s, k, sub) {
            Some(_) => {
                proof {
                    assert(s@.skip(k as int).take(sub@.len() as int) =~= s@.subrange(
                        k as int,
                        k + sub@.len(),
                    ));
                }
                return true;
            },
            None => {
                proof {
                    assert(s@.skip(k as int).take(sub@.len() as int) =~= s@.subrange(
                        k as int,
                        k + sub@.len(),
                    ));
                }
            },
        }
        k = k + 1;
    }
    false
}

/// Whether `s` ends with `suffix`.
fn str_ends_with(s: &Vec<char>, suffix: &str) -> (r: bool)
    ensures
        r == ends_with(s@, suffix@),
{
    let m = suffix.unicode_len();
    if m > s.len() {
        return false;
    }
    let start = s.len() - m;
    match crate::json::match_lit(s, start, suffix) {
        Some(_) => {
            proof {
                assert(s@.skip(start as int).take(suffix@.len() as int) =~= s@.subrange(
                    s@.len() - suffix@.len(),
                    s@.len() as int,
                ));
            }
            true
        },
        None => {
            proof {
                assert(s@.skip(start as int).take(suffix@.len() as int) =~= s@.subrange(
                    s@.len() - suffix@.len(),
                    s@.len() as int,
                ));
            }
            false
        },
    }
}

/// The file-name rule for benchmark binaries: the name contains `bench`
/// and is not a build by-product.
pub open spec fn spec_benchmark_binary_name(name: Seq<char>) -> bool {
    &&& has_substring(name, "bench"@)
    &&& !ends_with(name, ".d"@)
    &&& !ends_with(name, ".rmeta"@)
    &&& !ends_with(name, ".rlib"@)
}

impl BuildManager {
    /// Create a new build manager with the given profile and flags.
    pub fn new(profile: String, cargo_flags: Vec<String>) -> (r: BuildManager)
        ensures
            r.profile == profile,
            r.cargo_flags == cargo_flags,
    {
        BuildManager { profile, cargo_flags }
    }

    /// The target directory a profile builds into: the `dev` profile
    /// builds into `debug`, every other profile into a directory of its
    /// own name.
    pub fn target_dir_name(&self) -> (r: &str)
        ensures
            self.profile@ == "dev"@ ==> r@ == "debug"@,
            self.profile@ != "dev"@ ==> r@ == self.profile@,
    {
        let dev = "dev".to_owned();
        if self.profile == dev {
            "debug"
        } else {
            self.profile.as_str()
        }
    }

    /// Whether a file name can be a benchmark binary: it must contain
    /// `bench` and not be a dependency file, metadata file, or library.
    /// Whether the file is in fact executable is for the caller to check
    /// on the file itself.
    pub fn is_benchmark_binary_name(&self, file_name: &str) -> (r: bool)
        ensures
            r == spec_benchmark_binary_name(file_name@),
    {
        let chars = crate::json::str_to_chars(file_name);
        if !contains_substring(&chars, "bench") {
            return false;
        }
        if str_ends_with(&chars, ".d") {
            return false;
        }
        if str_ends_with(&chars, ".rmeta") {
            return false;
        }
        if str_ends_with(&chars, ".rlib") {
            return false;
        }
        true
    }
}

} // verus!
