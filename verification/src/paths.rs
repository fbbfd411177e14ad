//! Paths as the library plans them: a base directory that the application
//! resolves (the home directory, the data directory, ...) or a given string,
//! followed by the names to join onto it, in order.
use vstd::prelude::*;

verus! {

/// Where a planned path starts.
pub enum PathBase {
    /// The user's home directory.
    Home,
    /// The application's data directory.
    DataDir,
    /// The process's current directory (empty when it cannot be read).
    CurrentDir,
    /// The bundle's resource directory.
    ResourceDir,
    /// The directory that the `APPDATA` environment variable names.
    AppData,
    /// A path given as text (from the environment, or a relative name).
    Given(String),
}

/// A base joined with the names in `parts`, in order.
pub struct PlannedPath {
    pub base: PathBase,
    pub parts: Vec<String>,
}

/// The names of a planned path, as text.
pub open spec fn parts_view(p: PlannedPath) -> Seq<Seq<char>> {
    p.parts@.map_values(|s: String| s@)
}

/// `p` is `base` joined with `parts`, for a base other than `Given`.
pub open spec fn is_path_under(p: PlannedPath, base: PathBase, parts: Seq<Seq<char>>) -> bool {
    &&& p.base == base
    &&& parts_view(p) == parts
}

/// `p` is the given text `given` joined with `parts`.
pub open spec fn is_path_from(p: PlannedPath, given: Seq<char>, parts: Seq<Seq<char>>) -> bool {
    &&& p.base matches PathBase::Given(g) && g@ == given
    &&& parts_view(p) == parts
}

/// The path `base` / `name`.
pub fn path_under(base: PathBase, name: &str) -> (r: PlannedPath)
    ensures
        r.base == base,
        parts_view(r) == seq![name@],
{
    let mut parts: Vec<String> = Vec::new();
    parts.push(name.to_owned());
    let r = PlannedPath { base, parts };
    assert(parts_view(r) =~= seq![name@]);
    r
}

/// The path `base` with nothing joined onto it.
pub fn path_at(base: PathBase) -> (r: PlannedPath)
    ensures
        r.base == base,
        parts_view(r) == Seq::<Seq<char>>::empty(),
{
    let r = PlannedPath { base, parts: Vec::new() };
    assert(parts_view(r) =~= Seq::<Seq<char>>::empty());
    r
}

/// `p` with `name` joined onto it.
pub fn join(p: PlannedPath, name: &str) -> (r: PlannedPath)
    ensures
        r.base == p.base,
        parts_view(r) == parts_view(p).push(name@),
{
    let PlannedPath { base, mut parts } = p;
    let ghost before = parts@;
    parts.push(name.to_owned());
    let r = PlannedPath { base, parts };
    assert(parts_view(r) =~= before.map_values(|s: String| s@).push(name@));
    r
}

} // verus!
