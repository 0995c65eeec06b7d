//! File paths of a project and of the runner's home directory.

use std::path::{Component, Path};
use vstd::prelude::*;

use crate::text::chars_of;

verus! {

/// Longest project file path, in bytes.
pub const MAX_FILE_PATH_BYTES: usize = 512;

/// The kind of one component of a path, as `Path::components` yields it.
#[derive(Debug, Clone, Copy, PartialEq, Eq)]
pub enum PathPart {
    Prefix,
    RootDir,
    CurDir,
    ParentDir,
    Normal,
}

/// The kinds of the components that `Path::components` yields for a path.
pub uninterp spec fn path_parts(path: Seq<char>) -> Seq<PathPart>;

/// Calls `Path::components` and keeps the kind of each component.
#[verifier::external_body]
pub(crate) fn path_components(path: &str) -> (r: Vec<PathPart>)
    ensures
        r@ == path_parts(path@),
{
    let mut parts = Vec::new();
    for c in Path::new(path).components() {
        parts.push(
            match c {
                Component::Prefix(_) => PathPart::Prefix,
                Component::RootDir => PathPart::RootDir,
                Component::CurDir => PathPart::CurDir,
                Component::ParentDir => PathPart::ParentDir,
                Component::Normal(_) => PathPart::Normal,
            },
        );
    }
    parts
}

/// Calls `Path::is_absolute`; on Unix a path is absolute exactly when it
/// starts with `/`.
#[verifier::external_body]
pub(crate) fn path_is_absolute(path: &str) -> (r: bool)
    ensures
        r == (path@.len() > 0 && path@[0] == '/'),
{
    Path::new(path).is_absolute()
}

pub open spec fn all_normal(parts: Seq<PathPart>) -> bool {
    forall|i: int| 0 <= i < parts.len() ==> #[trigger] parts[i] == PathPart::Normal
}

pub open spec fn escapes_home(parts: Seq<PathPart>) -> bool {
    exists|i: int|
        0 <= i < parts.len() && (#[trigger] parts[i] == PathPart::ParentDir || parts[i]
            == PathPart::RootDir || parts[i] == PathPart::Prefix)
}

/// A path that a project file may have: relative, not empty, at most 512
/// bytes, without NUL, and made of plain names only.
pub open spec fn valid_file_path(path: Seq<char>) -> bool {
    &&& path.len() > 0
    &&& vstd::utf8::encode_utf8(path).len() <= MAX_FILE_PATH_BYTES
    &&& !(path[0] == '/')
    &&& !path.contains('\0')
    &&& all_normal(path_parts(path))
}

fn all_parts_normal(parts: &Vec<PathPart>) -> (r: bool)
    ensures
        r == all_normal(parts@),
{
    let mut i: usize = 0;
    while i < parts.len()
        invariant
            i <= parts@.len(),
            forall|j: int| 0 <= j < i ==> #[trigger] parts@[j] == PathPart::Normal,
        decreases parts@.len() - i,
    {
        match parts[i] {
            PathPart::Normal => {},
            _ => {
                return false;
            },
        }
        i = i + 1;
    }
    true
}

fn has_nul(path: &str) -> (r: bool)
    ensures
        r == path@.contains('\0'),
{
    let cs = chars_of(path);
    let mut i: usize = 0;
    while i < cs.len()
        invariant
            i <= cs@.len(),
            cs@ == path@,
            forall|j: int| 0 <= j < i ==> #[trigger] cs@[j] != '\0',
        decreases cs@.len() - i,
    {
        if cs[i] == '\0' {
            return true;
        }
        i = i + 1;
    }
    false
}

/// Whether `path` may name a project file.
pub fn is_valid_file_path(path: &str) -> (r: bool)
    ensures
        r == valid_file_path(path@),
{
    if path.is_empty() {
        return false;
    }
    if path.as_bytes().len() > MAX_FILE_PATH_BYTES {
        return false;
    }
    if path_is_absolute(path) {
        return false;
    }
    if has_nul(path) {
        return false;
    }
    let parts = path_components(path);
    all_parts_normal(&parts)
}

/// A path the runner accepts below its home directory: not empty, not
/// absolute, and without `..`, root or prefix components.
pub open spec fn home_relative(path: Seq<char>) -> bool {
    path.len() > 0 && !(path[0] == '/') && !escapes_home(path_parts(path))
}

/// Whether the runner accepts `path` below its home directory.
pub fn is_relative_home_path(path: &str) -> (r: bool)
    ensures
        r == home_relative(path@),
{
    if path.is_empty() || path_is_absolute(path) {
        return false;
    }
    let parts = path_components(path);
    let mut i: usize = 0;
    while i < parts.len()
        invariant
            i <= parts@.len(),
            parts@ == path_parts(path@),
            forall|j: int|
                0 <= j < i ==> !(#[trigger] parts@[j] == PathPart::ParentDir || parts@[j]
                    == PathPart::RootDir || parts@[j] == PathPart::Prefix),
        decreases parts@.len() - i,
    {
        match parts[i] {
            PathPart::ParentDir | PathPart::RootDir | PathPart::Prefix => {
                return false;
            },
            _ => {},
        }
        i = i + 1;
    }
    true
}

/// Every path a project accepts for a file is one the runner can write
/// below its home directory.
pub proof fn valid_file_paths_stay_in_home(path: Seq<char>)
    requires
        valid_file_path(path),
    ensures
        home_relative(path),
{
    let parts = path_parts(path);
    if escapes_home(parts) {
        let i = choose|i: int|
            0 <= i < parts.len() && (#[trigger] parts[i] == PathPart::ParentDir || parts[i]
                == PathPart::RootDir || parts[i] == PathPart::Prefix);
        assert(parts[i] == PathPart::Normal);
    }
}

/// Whether `path` names a binary the runner may patch: it lies below
/// `/home/` and holds no `..`.
pub open spec fn patchable_binary(path: Seq<char>) -> bool {
    let home = seq!['/', 'h', 'o', 'm', 'e', '/'];
    &&& path.len() >= 6 && path.subrange(0, 6) == home
    &&& !(exists|i: int| 0 <= i < path.len() - 1 && #[trigger] path[i] == '.' && path[i + 1] == '.')
}

/// Whether the runner may patch the binary at `path`.
pub fn is_patchable_binary(path: &str) -> (r: bool)
    ensures
        r == patchable_binary(path@),
{
    let cs = chars_of(path);
    let home: Vec<char> = vec!['/', 'h', 'o', 'm', 'e', '/'];
    if cs.len() < 6 {
        return false;
    }
    let mut i: usize = 0;
    while i < 6
        invariant
            i <= 6,
            6 <= cs@.len(),
            cs@ == path@,
            home@ == seq!['/', 'h', 'o', 'm', 'e', '/'],
            forall|j: int| 0 <= j < i ==> #[trigger] cs@[j] == home@[j],
        decreases 6 - i,
    {
        if cs[i] != home[i] {
            assert(path@.subrange(0, 6)[i as int] != home@[i as int]);
            return false;
        }
        i = i + 1;
    }
    assert(path@.subrange(0, 6) =~= seq!['/', 'h', 'o', 'm', 'e', '/']);
    let mut k: usize = 0;
    while k < cs.len() && k + 1 < cs.len()
        invariant
            k <= cs@.len(),
            cs@ == path@,
            forall|j: int| 0 <= j < k ==> !(#[trigger] cs@[j] == '.' && cs@[j + 1] == '.'),
        decreases cs@.len() - k,
    {
        if cs[k] == '.' && cs[k + 1] == '.' {
            return false;
        }
        k = k + 1;
    }
    true
}

} // verus!
