//! Files whose edits carry no review signal: lockfiles, generated and
//! minified assets, build output.

use vstd::prelude::*;
use crate::text::{chars_of, ends_with, has_prefix, has_suffix, same_as, slice_of, starts_with};

verus! {

/// The index just after the last `/` before `j`, or 0 when there is none.
pub open spec fn name_start(path: Seq<char>, j: int) -> int
    decreases j,
{
    if 0 < j <= path.len() && path[j - 1] != '/' {
        name_start(path, j - 1)
    } else {
        j
    }
}

/// The last segment of a path: what follows its last `/`.
pub open spec fn file_name(path: Seq<char>) -> Seq<char> {
    path.subrange(name_start(path, path.len() as int), path.len() as int)
}

/// The lockfiles of the known package managers, and `.DS_Store`.
pub open spec fn is_noise_name(name: Seq<char>) -> bool {
    ||| name == "pnpm-lock.yaml"@
    ||| name == "package-lock.json"@
    ||| name == "yarn.lock"@
    ||| name == "npm-shrinkwrap.json"@
    ||| name == "bun.lockb"@
    ||| name == "Cargo.lock"@
    ||| name == "Gemfile.lock"@
    ||| name == "poetry.lock"@
    ||| name == "Pipfile.lock"@
    ||| name == "uv.lock"@
    ||| name == "go.sum"@
    ||| name == "composer.lock"@
    ||| name == "packages.lock.json"@
    ||| name == "pubspec.lock"@
    ||| name == "Package.resolved"@
    ||| name == "mix.lock"@
    ||| name == ".DS_Store"@
}

/// Minified assets, source maps and bundles, by the end of the path.
pub open spec fn has_noise_suffix(path: Seq<char>) -> bool {
    ||| ends_with(path, ".min.js"@)
    ||| ends_with(path, ".min.css"@)
    ||| ends_with(path, ".map"@)
    ||| ends_with(path, ".chunk.js"@)
    ||| ends_with(path, ".bundle.js"@)
}

/// Build output and generated code, by the directory the path begins with.
pub open spec fn has_noise_prefix(path: Seq<char>) -> bool {
    ||| starts_with(path, "dist/"@)
    ||| starts_with(path, ".next/"@)
    ||| starts_with(path, "build/"@)
    ||| starts_with(path, "__generated__/"@)
    ||| starts_with(path, ".turbo/"@)
}

/// A path is noise by its file name, by its end or by its beginning.
pub open spec fn is_noise(path: Seq<char>) -> bool {
    is_noise_name(file_name(path)) || has_noise_suffix(path) || has_noise_prefix(path)
}

/// The last segment of a path.
pub fn last_segment(path: &[char]) -> (name: Vec<char>)
    ensures
        name@ == file_name(path@),
{
    let n: usize = path.len();
    let mut j: usize = n;
    while j > 0 && path[j - 1] != '/'
        invariant
            j <= n,
            n == path@.len(),
            name_start(path@, n as int) == name_start(path@, j as int),
        decreases j,
    {
        j -= 1;
    }
    slice_of(path, j, n)
}

fn noise_name(name: &[char]) -> (r: bool)
    ensures
        r == is_noise_name(name@),
{
    same_as(name, "pnpm-lock.yaml") || same_as(name, "package-lock.json") || same_as(
        name,
        "yarn.lock",
    ) || same_as(name, "npm-shrinkwrap.json") || same_as(name, "bun.lockb") || same_as(
        name,
        "Cargo.lock",
    ) || same_as(name, "Gemfile.lock") || same_as(name, "poetry.lock") || same_as(
        name,
        "Pipfile.lock",
    ) || same_as(name, "uv.lock") || same_as(name, "go.sum") || same_as(name, "composer.lock")
        || same_as(name, "packages.lock.json") || same_as(name, "pubspec.lock") || same_as(
        name,
        "Package.resolved",
    ) || same_as(name, "mix.lock") || same_as(name, ".DS_Store")
}

fn noise_suffix(path: &[char]) -> (r: bool)
    ensures
        r == has_noise_suffix(path@),
{
    has_suffix(path, ".min.js") || has_suffix(path, ".min.css") || has_suffix(path, ".map")
        || has_suffix(path, ".chunk.js") || has_suffix(path, ".bundle.js")
}

fn noise_prefix(path: &[char]) -> (r: bool)
    ensures
        r == has_noise_prefix(path@),
{
    has_prefix(path, "dist/") || has_prefix(path, ".next/") || has_prefix(path, "build/")
        || has_prefix(path, "__generated__/") || has_prefix(path, ".turbo/")
}

/// Whether a changed file is left out of the review as noise. Defined for
/// every path, and a function of the path alone.
pub fn is_noise_file(path: &str) -> (r: bool)
    ensures
        r == is_noise(path@),
{
    let p = chars_of(path);
    let name = last_segment(p.as_slice());
    noise_name(name.as_slice()) || noise_suffix(p.as_slice()) || noise_prefix(p.as_slice())
}

} // verus!
