//! Shared path validation utilities for preventing path traversal attacks.
//!
//! Path syntax (splitting into components, joining, prefix tests) is left
//! to `std::path`; the decisions built on top of it are verified here.

use vstd::prelude::*;

use crate::error::CryptoScopeError;
use crate::text::{concat2, has_char, owned, split_on, split_seq, starts_with_char};

verus! {

/// One component of a path, as `std::path::Component` distinguishes them.
#[derive(Debug, Clone, PartialEq, Eq)]
pub enum PathComponent {
    /// A Windows path prefix (never produced on Unix).
    Prefix(String),
    /// The root directory `/`.
    RootDir,
    /// A `.` component.
    CurDir,
    /// A `..` component.
    ParentDir,
    /// A plain file or directory name.
    Normal(String),
}

/// Name for the components `Path::components` yields for a path string
/// (Unix paths: the library targets Unix, where `/` is the only separator
/// and there are no prefixes).
pub uninterp spec fn path_components(path: Seq<char>) -> Seq<PathComponent>;

/// Name for the path string that collecting components into a `PathBuf`
/// gives (on Unix).
pub uninterp spec fn path_from_components(components: Seq<PathComponent>) -> Seq<char>;

/// Whether a path string is absolute. Unix is the target: there a path is
/// absolute exactly when it has a root, that is when it starts with `/`.
pub open spec fn path_is_absolute(path: Seq<char>) -> bool {
    path.len() > 0 && path[0] == '/'
}

/// Name for the path string of `Path::join(base, path)` (on Unix).
pub uninterp spec fn path_join(base: Seq<char>, path: Seq<char>) -> Seq<char>;

/// `Path::starts_with(path, base)`: the components of `base` are the first
/// components of `path` (only whole components match).
pub open spec fn path_starts_with(path: Seq<char>, base: Seq<char>) -> bool {
    let pc = path_components(path);
    let bc = path_components(base);
    bc.len() <= pc.len() && pc.subrange(0, bc.len() as int) == bc
}

/// Name for the `Debug` rendering of a list of paths.
pub uninterp spec fn debug_path_list(paths: Seq<Seq<char>>) -> Seq<char>;

/// A name `Path::components` yields as a normal component: not empty,
/// without `/`, and neither `.` nor `..`.
pub open spec fn plain_name(n: Seq<char>) -> bool {
    n.len() > 0 && !n.contains('/') && n != "."@ && n != ".."@
}

/// The shape of the components of a Unix path: no prefix, the root and
/// `.` only first, and plain names.
pub open spec fn unix_components(cs: Seq<PathComponent>) -> bool {
    forall|i: int| 0 <= i < cs.len() ==> match #[trigger] cs[i] {
        PathComponent::Prefix(_) => false,
        PathComponent::RootDir => i == 0,
        PathComponent::CurDir => i == 0,
        PathComponent::ParentDir => true,
        PathComponent::Normal(n) => plain_name(n@),
    }
}

/// Trusted: `Path::components` splits a path into its components; each std
/// `Component` is mapped to the variant of the same name. Unix is the
/// target: there (no prefixes) a path starting with `/` yields the root
/// directory first, `.` is kept only first, and every normal component is
/// a plain name.
#[verifier::external_body]
fn components_of(path: &str) -> (r: Vec<PathComponent>)
    ensures
        r@ == path_components(path@),
        unix_components(r@),
        path@.len() > 0 && path@[0] == '/' ==> r@.len() > 0 && r@[0] is RootDir,
{
    std::path::Path::new(path).components().map(|c| match c {
        std::path::Component::Prefix(p) => PathComponent::Prefix(p.as_os_str().to_string_lossy().into_owned()),
        std::path::Component::RootDir => PathComponent::RootDir,
        std::path::Component::CurDir => PathComponent::CurDir,
        std::path::Component::ParentDir => PathComponent::ParentDir,
        std::path::Component::Normal(n) => PathComponent::Normal(n.to_string_lossy().into_owned()),
    }).collect()
}

/// Trusted: collecting components into a `PathBuf` (each pushed in turn)
/// gives the path string named by `path_from_components`. Unix is the
/// target: there pushing the root directory first makes the path start
/// with `/`, and components of Unix shape without `.` or `..` are what
/// `Path::components` gives back for the collected path.
#[verifier::external_body]
fn collect_components(components: &Vec<PathComponent>) -> (r: String)
    ensures
        r@ == path_from_components(components@),
        unix_components(components@) && (forall|i: int| 0 <= i < components@.len() ==> !is_dot_component(#[trigger] components@[i]))
            ==> path_components(r@) == components@,
        components@.len() > 0 && components@[0] is RootDir ==> r@.len() > 0 && r@[0] == '/',
{
    components.iter().map(|c| match c {
        PathComponent::Prefix(p) => p.as_str(),
        PathComponent::RootDir => "/",
        PathComponent::CurDir => ".",
        PathComponent::ParentDir => "..",
        PathComponent::Normal(n) => n.as_str(),
    }).collect::<std::path::PathBuf>().to_string_lossy().into_owned()
}

/// Trusted: `Path::is_absolute`. Unix is the target: there
/// `is_absolute` is `has_root`, which holds exactly when the path starts
/// with `/` (on Windows `/tmp` would not be absolute).
#[verifier::external_body]
fn is_absolute(path: &str) -> (r: bool)
    ensures
        r == path_is_absolute(path@),
{
    std::path::Path::new(path).is_absolute()
}

/// Trusted: `Path::join`.
#[verifier::external_body]
fn join(base: &str, path: &str) -> (r: String)
    ensures
        r@ == path_join(base@, path@),
{
    std::path::Path::new(base).join(path).to_string_lossy().into_owned()
}

/// Trusted: `Path::starts_with`, which per its documentation holds when
/// `base` is a prefix of the path in whole components.
#[verifier::external_body]
pub(crate) fn starts_with_path(path: &str, base: &str) -> (r: bool)
    ensures
        r == path_starts_with(path@, base@),
{
    std::path::Path::new(path).starts_with(base)
}

/// Trusted: the `Debug` rendering of a list of paths.
#[verifier::external_body]
fn debug_paths(paths: &Vec<String>) -> (r: String)
    ensures
        r@ == debug_path_list(paths@.map_values(|p: String| p@)),
{
    format!("{:?}", paths.iter().map(std::path::PathBuf::from).collect::<Vec<_>>())
}

/// The effect of normalization on a list of components: `..` drops the
/// last kept component when that is a name (a `..` at the root, or before
/// any name, is dropped itself), `.` is dropped, everything else is kept.
pub open spec fn normalized(components: Seq<PathComponent>) -> Seq<PathComponent>
    decreases components.len(),
{
    if components.len() == 0 {
        Seq::empty()
    } else {
        let kept = normalized(components.drop_last());
        match components.last() {
            PathComponent::ParentDir => if kept.len() > 0 && kept.last() is Normal { kept.drop_last() } else { kept },
            PathComponent::CurDir => kept,
            c => kept.push(c),
        }
    }
}

/// Applies the normalization rules to a list of components.
pub fn normalize_components(components: &Vec<PathComponent>) -> (r: Vec<PathComponent>)
    ensures
        r@ == normalized(components@),
{
    let mut kept: Vec<PathComponent> = Vec::new();
    let n = components.len();
    let mut i: usize = 0;
    while i < n
        invariant
            n == components@.len(),
            i <= n,
            kept@ == normalized(components@.subrange(0, i as int)),
        decreases n - i,
    {
        let ghost pre = components@.subrange(0, i as int);
        assert(components@.subrange(0, i + 1).drop_last() =~= pre);
        match &components[i] {
            PathComponent::ParentDir => {
                let k = kept.len();
                if k > 0 {
                    let last_is_name = match &kept[k - 1] {
                        PathComponent::Normal(_) => true,
                        _ => false,
                    };
                    if last_is_name {
                        let ghost before = kept@;
                        let _ = kept.pop();
                        assert(kept@ =~= before.drop_last());
                    }
                }
            },
            PathComponent::CurDir => {},
            PathComponent::Prefix(p) => {
                kept.push(PathComponent::Prefix(p.clone()));
            },
            PathComponent::RootDir => {
                kept.push(PathComponent::RootDir);
            },
            PathComponent::Normal(name) => {
                kept.push(PathComponent::Normal(name.clone()));
            },
        }
        i = i + 1;
    }
    assert(components@.subrange(0, n as int) =~= components@);
    kept
}

/// Whether a component is `.` or `..`.
pub open spec fn is_dot_component(c: PathComponent) -> bool {
    c is CurDir || c is ParentDir
}

/// Law: normalization leaves no `.` or `..` component behind, keeps the
/// other components in order, and changes nothing more when applied again.
pub proof fn law_normalized_has_no_dots(components: Seq<PathComponent>)
    ensures
        forall|i: int| 0 <= i < normalized(components).len() ==> !is_dot_component(#[trigger] normalized(components)[i]),
        normalized(normalized(components)) == normalized(components),
    decreases components.len(),
{
    if components.len() > 0 {
        let d = components.drop_last();
        law_normalized_has_no_dots(d);
        let kept = normalized(d);
        let n = normalized(components);
        match components.last() {
            PathComponent::ParentDir => {
                if kept.len() > 0 && kept.last() is Normal {
                    assert forall|i: int| 0 <= i < n.len() implies !is_dot_component(#[trigger] n[i]) by {
                        assert(n[i] == kept[i]);
                    }
                }
            },
            PathComponent::CurDir => {},
            c => {
                assert forall|i: int| 0 <= i < n.len() implies !is_dot_component(#[trigger] n[i]) by {
                    if i < kept.len() {
                        assert(n[i] == kept[i]);
                    }
                }
            },
        }
        lemma_normalized_fixed_point(n);
    }
}

/// Law: normalization keeps a leading root (or prefix): an absolute list
/// of components stays absolute, as `..` never climbs above the root.
pub proof fn law_normalized_keeps_root(components: Seq<PathComponent>)
    requires
        components.len() > 0,
        components[0] is RootDir || components[0] is Prefix,
    ensures
        normalized(components).len() > 0,
        normalized(components)[0] == components[0],
    decreases components.len(),
{
    if components.len() > 1 {
        let d = components.drop_last();
        assert(d[0] == components[0]);
        law_normalized_keeps_root(d);
        let kept = normalized(d);
        let n = normalized(components);
        if components.last() is ParentDir && kept.last() is Normal {
            assert(kept.len() > 1);
            assert(n[0] == kept[0]);
        } else if components.last() is ParentDir || components.last() is CurDir {
            assert(n == kept);
        } else {
            assert(n == kept.push(components.last()));
            assert(n[0] == kept[0]);
        }
    } else {
        let d = components.drop_last();
        assert(d =~= Seq::<PathComponent>::empty());
        assert(normalized(d) == Seq::<PathComponent>::empty());
        assert(normalized(components) == normalized(d).push(components[0]));
    }
}

/// Components without `.` and `..` are left as they are.
proof fn lemma_normalized_fixed_point(components: Seq<PathComponent>)
    requires
        forall|i: int| 0 <= i < components.len() ==> !is_dot_component(#[trigger] components[i]),
    ensures
        normalized(components) == components,
    decreases components.len(),
{
    if components.len() > 0 {
        let d = components.drop_last();
        assert forall|i: int| 0 <= i < d.len() implies !is_dot_component(#[trigger] d[i]) by {
            assert(d[i] == components[i]);
        }
        lemma_normalized_fixed_point(d);
        assert(!is_dot_component(components[components.len() - 1]));
        assert(d.push(components.last()) =~= components);
    }
}

/// Normalizing components of Unix shape gives components of Unix shape.
proof fn lemma_normalized_unix(components: Seq<PathComponent>)
    requires
        unix_components(components),
    ensures
        unix_components(normalized(components)),
    decreases components.len(),
{
    if components.len() > 0 {
        let d = components.drop_last();
        assert forall|i: int| 0 <= i < d.len() implies match #[trigger] d[i] {
            PathComponent::Prefix(_) => false,
            PathComponent::RootDir => i == 0,
            PathComponent::CurDir => i == 0,
            PathComponent::ParentDir => true,
            PathComponent::Normal(n) => plain_name(n@),
        } by {
            assert(d[i] == components[i]);
        }
        lemma_normalized_unix(d);
        let kept = normalized(d);
        let n = normalized(components);
        let last = components[components.len() - 1];
        assert(match last {
            PathComponent::Prefix(_) => false,
            PathComponent::RootDir => components.len() - 1 == 0,
            PathComponent::CurDir => components.len() - 1 == 0,
            PathComponent::ParentDir => true,
            PathComponent::Normal(nm) => plain_name(nm@),
        });
        match last {
            PathComponent::ParentDir => {
                if kept.len() > 0 && kept.last() is Normal {
                    assert forall|i: int| 0 <= i < n.len() implies match #[trigger] n[i] {
                        PathComponent::Prefix(_) => false,
                        PathComponent::RootDir => i == 0,
                        PathComponent::CurDir => i == 0,
                        PathComponent::ParentDir => true,
                        PathComponent::Normal(nm) => plain_name(nm@),
                    } by {
                        assert(n[i] == kept[i]);
                    }
                }
            },
            PathComponent::CurDir => {},
            _ => {
                if last is RootDir {
                    assert(d.len() == 0);
                    assert(kept.len() == 0);
                }
                assert forall|i: int| 0 <= i < n.len() implies match #[trigger] n[i] {
                    PathComponent::Prefix(_) => false,
                    PathComponent::RootDir => i == 0,
                    PathComponent::CurDir => i == 0,
                    PathComponent::ParentDir => true,
                    PathComponent::Normal(nm) => plain_name(nm@),
                } by {
                    if i < kept.len() {
                        assert(n[i] == kept[i]);
                    } else {
                        assert(n[i] == last);
                    }
                }
            },
        }
    }
}

/// Normalize a path by removing `.` and `..` components without checking existence.
///
/// This function safely resolves path components without following symlinks or
/// checking if the path exists, making it suitable for security validation.
/// The result has no `.` or `..` component, so normalizing it again gives
/// it back unchanged.
pub fn normalize_path(path: &str) -> (r: String)
    ensures
        r@ == path_from_components(normalized(path_components(path@))),
        path@.len() > 0 && path@[0] == '/' ==> r@.len() > 0 && r@[0] == '/',
        forall|i: int| 0 <= i < path_components(r@).len() ==> !is_dot_component(#[trigger] path_components(r@)[i]),
        normalized_text(r@) == r@,
{
    let components = components_of(path);
    let kept = normalize_components(&components);
    proof {
        if path@.len() > 0 && path@[0] == '/' {
            law_normalized_keeps_root(components@);
        }
        lemma_normalized_unix(components@);
        law_normalized_has_no_dots(components@);
    }
    let r = collect_components(&kept);
    proof {
        assert(path_components(r@) == kept@);
        lemma_normalized_fixed_point(kept@);
    }
    r
}

/// Path validation error types.
#[derive(Debug, Clone, PartialEq, Eq)]
pub enum PathError {
    /// Path string is empty
    EmptyPath,
    /// Path contains null bytes
    NullBytes,
    /// Path is not in an allowed directory
    NotInAllowedDirectory(Vec<String>),
    /// IO error during path operations (its rendered message)
    IoError(String),
}

impl PathError {
    /// The text of the error as it is displayed.
    pub open spec fn message_text(self) -> Seq<char> {
        match self {
            PathError::EmptyPath => "Path cannot be empty"@,
            PathError::NullBytes => "Path contains null bytes"@,
            PathError::NotInAllowedDirectory(dirs) =>
                "Path must be in an allowed directory: "@ + debug_path_list(dirs@.map_values(|p: String| p@)),
            PathError::IoError(e) => "IO error: "@ + e@,
        }
    }

    /// Renders the error as a message.
    pub fn message(&self) -> (r: String)
        ensures
            r@ == self.message_text(),
    {
        match self {
            PathError::EmptyPath => owned("Path cannot be empty"),
            PathError::NullBytes => owned("Path contains null bytes"),
            PathError::NotInAllowedDirectory(dirs) => {
                let rendered = debug_paths(dirs);
                concat2("Path must be in an allowed directory: ", rendered.as_str())
            },
            PathError::IoError(e) => concat2("IO error: ", e.as_str()),
        }
    }

    /// The storage error a path error becomes.
    pub fn into_crypto_scope_error(&self) -> (r: CryptoScopeError)
        ensures
            r matches CryptoScopeError::DbInternal(m) && m@ == self.message_text(),
    {
        CryptoScopeError::DbInternal(self.message())
    }
}

/// The directory under the data directory that holds CryptoScope's files.
pub open spec fn app_data_dir(data_dir: Seq<char>) -> Seq<char> {
    path_join(data_dir, "cryptoscope"@)
}

/// Choice of the safe base directory for relative paths, in priority order:
/// the configured directory when it is absolute, then the `cryptoscope`
/// directory under the local data directory, then the current directory
/// (or `.` when even that is unknown).
pub open spec fn safe_base_choice(
    configured: Option<Seq<char>>,
    data_local_dir: Option<Seq<char>>,
    current_dir: Option<Seq<char>>,
) -> Seq<char> {
    if configured is Some && path_is_absolute(configured->0) {
        configured->0
    } else if data_local_dir is Some {
        app_data_dir(data_local_dir->0)
    } else if current_dir is Some {
        current_dir->0
    } else {
        "."@
    }
}

/// View of an optional string slice.
pub open spec fn opt_view(o: Option<&str>) -> Option<Seq<char>> {
    match o {
        Some(s) => Some(s@),
        None => None,
    }
}

/// Get safe base directory for relative paths.
///
/// Priority order:
/// 1. the `CRYPTOSCOPE_DATA_DIR` setting (if absolute), passed as `configured`
/// 2. the XDG data local directory (`~/.local/share` on Linux) joined with `cryptoscope`
/// 3. the current directory (development fallback), or `.`
pub fn get_safe_base_directory(
    configured: Option<&str>,
    data_local_dir: Option<&str>,
    current_dir: Option<&str>,
) -> (r: String)
    ensures
        r@ == safe_base_choice(opt_view(configured), opt_view(data_local_dir), opt_view(current_dir)),
{
    if let Some(base) = configured {
        if is_absolute(base) {
            return owned(base);
        }
    }
    if let Some(data_dir) = data_local_dir {
        return join(data_dir, "cryptoscope");
    }
    match current_dir {
        Some(cwd) => owned(cwd),
        None => owned("."),
    }
}

/// The allowed parent directories: the `cryptoscope` directory under the
/// local data directory (when known), then each `:`-separated entry of the
/// configured list (when set).
pub open spec fn allowed_parents_list(
    data_local_dir: Option<Seq<char>>,
    configured: Option<Seq<char>>,
) -> Seq<Seq<char>> {
    let first: Seq<Seq<char>> = match data_local_dir {
        Some(d) => seq![app_data_dir(d)],
        None => Seq::empty(),
    };
    match configured {
        Some(list) => first + split_seq(list, ':'),
        None => first,
    }
}

/// Get list of allowed parent directories for absolute paths.
///
/// Returns directories where database files are permitted to be stored:
/// 1. XDG data local directory (`~/.local/share/cryptoscope`)
/// 2. Directories from the `ALLOWED_DB_PATHS` setting (colon-separated)
pub fn get_allowed_parent_directories(data_local_dir: Option<&str>, configured: Option<&str>) -> (r: Vec<String>)
    ensures
        r@.map_values(|p: String| p@) == allowed_parents_list(opt_view(data_local_dir), opt_view(configured)),
{
    let mut allowed: Vec<String> = Vec::new();
    if let Some(d) = data_local_dir {
        allowed.push(join(d, "cryptoscope"));
    }
    let ghost first = allowed@.map_values(|p: String| p@);
    assert(first =~= match opt_view(data_local_dir) {
        Some(d) => seq![app_data_dir(d)],
        None => Seq::<Seq<char>>::empty(),
    });
    if let Some(list) = configured {
        let pieces = split_on(list, ':');
        let m = pieces.len();
        let mut i: usize = 0;
        let ghost base = allowed@;
        while i < m
            invariant
                m == pieces@.len(),
                pieces@.len() == split_seq(list@, ':').len(),
                forall|k: int| 0 <= k < pieces@.len() ==> #[trigger] pieces@[k]@ == split_seq(list@, ':')[k],
                i <= m,
                allowed@.len() == base.len() + i,
                forall|k: int| 0 <= k < base.len() ==> allowed@[k] == base[k],
                forall|k: int| 0 <= k < i ==> allowed@[base.len() + k]@ == split_seq(list@, ':')[k],
            decreases m - i,
        {
            allowed.push(pieces[i].clone());
            i = i + 1;
        }
        assert(allowed@.map_values(|p: String| p@) =~= first + split_seq(list@, ':'));
    }
    allowed
}

/// The directory of the default database: `cryptoscope` under the data
/// directory, or under the home directory when no data directory is known.
pub open spec fn database_dir_choice(data_dir: Option<Seq<char>>, home_dir: Option<Seq<char>>) -> Option<Seq<char>> {
    match data_dir {
        Some(d) => Some(app_data_dir(d)),
        None => match home_dir {
            Some(h) => Some(app_data_dir(h)),
            None => None,
        },
    }
}

/// The directory of the default database location; a machine with neither
/// a data nor a home directory has none.
pub fn default_database_dir(data_dir: Option<&str>, home_dir: Option<&str>) -> (r: Result<String, CryptoScopeError>)
    ensures
        match database_dir_choice(opt_view(data_dir), opt_view(home_dir)) {
            Some(d) => r matches Ok(p) && p@ == d,
            None => r matches Err(CryptoScopeError::DbInternal(m)) && m@ == "No home directory found"@,
        },
{
    match data_dir {
        Some(d) => Ok(join(d, "cryptoscope")),
        None => match home_dir {
            Some(h) => Ok(join(h, "cryptoscope")),
            None => Err(CryptoScopeError::DbInternal(owned("No home directory found"))),
        },
    }
}

/// The database file in a directory.
pub fn database_file(dir: &str) -> (r: String)
    ensures
        r@ == path_join(dir@, "data.db"@),
{
    join(dir, "data.db")
}

/// Whether some allowed parent is a component-wise prefix of `path`.
pub open spec fn in_allowed_directory(path: Seq<char>, allowed: Seq<String>) -> bool {
    exists|k: int| 0 <= k < allowed.len() && path_starts_with(path, #[trigger] allowed[k]@)
}

/// Law: a path is in an allowed directory exactly when some entry of the
/// list, at any position, is a component-wise prefix of it; an entry that
/// is a prefix makes the path allowed whatever the other entries are.
pub proof fn law_allowed_anywhere_in_the_list(path: Seq<char>, allowed: Seq<String>)
    ensures
        in_allowed_directory(path, allowed)
            <==> exists|k: int| 0 <= k < allowed.len() && path_starts_with(path, #[trigger] allowed[k]@),
        forall|k: int| 0 <= k < allowed.len() && path_starts_with(path, #[trigger] allowed[k]@)
            ==> in_allowed_directory(path, allowed),
        forall|extra: Seq<String>| in_allowed_directory(path, allowed)
            ==> #[trigger] in_allowed_directory(path, allowed + extra) && in_allowed_directory(path, extra + allowed),
{
    assert forall|extra: Seq<String>| in_allowed_directory(path, allowed)
        implies #[trigger] in_allowed_directory(path, allowed + extra) && in_allowed_directory(path, extra + allowed) by {
        let k = choose|k: int| 0 <= k < allowed.len() && path_starts_with(path, #[trigger] allowed[k]@);
        assert((allowed + extra)[k] == allowed[k]);
        assert((extra + allowed)[extra.len() + k] == allowed[k]);
    }
}

/// The normalized form of a path string.
pub open spec fn normalized_text(path: Seq<char>) -> Seq<char> {
    path_from_components(normalized(path_components(path)))
}

/// The normalized form of `raw_path`: of the path itself when it starts
/// with `/`, else of the path joined to `safe_base`.
pub open spec fn resolved_path(raw_path: Seq<char>, safe_base: Seq<char>) -> Seq<char> {
    if path_is_absolute(raw_path) { normalized_text(raw_path) } else { normalized_text(path_join(safe_base, raw_path)) }
}

/// `raw_path` is written as an absolute path but its normalized form lies
/// outside every allowed directory.
pub open spec fn outside_allowed(raw_path: Seq<char>, safe_base: Seq<char>, allowed: Seq<String>) -> bool {
    raw_path[0] == '/' && !in_allowed_directory(resolved_path(raw_path, safe_base), allowed)
}

/// `raw_path` is written as a relative path but its normalized form lies
/// outside the (normalized) safe base directory.
pub open spec fn escapes_base(raw_path: Seq<char>, safe_base: Seq<char>) -> bool {
    raw_path[0] != '/' && !path_starts_with(resolved_path(raw_path, safe_base), normalized_text(safe_base))
}

/// Validate and normalize a path string, ensuring it's safe from path traversal.
///
/// This function:
/// 1. Rejects empty paths and paths with null bytes
/// 2. Resolves relative paths against the safe base directory, and refuses
///    those that leave it
/// 3. Normalizes the path to remove `.` and `..` components
/// 4. Verifies absolute paths are in allowed directories
///
/// A relative path that leaves the safe base is refused with the base as
/// the one allowed directory. Creating the parent directory of the result
/// is left to the caller.
pub fn validate_and_normalize_path(raw_path: &str, safe_base: &str, allowed_parents: &Vec<String>) -> (r: Result<String, PathError>)
    ensures
        raw_path@.len() == 0 ==> r == Err::<String, PathError>(PathError::EmptyPath),
        raw_path@.len() > 0 && raw_path@.contains('\0') ==> r == Err::<String, PathError>(PathError::NullBytes),
        raw_path@.len() > 0 && !raw_path@.contains('\0') && outside_allowed(raw_path@, safe_base@, allowed_parents@)
            ==> (r matches Err(PathError::NotInAllowedDirectory(dirs)) && dirs@ == allowed_parents@),
        raw_path@.len() > 0 && !raw_path@.contains('\0') && escapes_base(raw_path@, safe_base@)
            ==> (r matches Err(PathError::NotInAllowedDirectory(dirs)) && dirs@.len() == 1 && dirs@[0]@ == safe_base@),
        raw_path@.len() > 0 && !raw_path@.contains('\0') && !outside_allowed(raw_path@, safe_base@, allowed_parents@)
            && !escapes_base(raw_path@, safe_base@)
            ==> (r matches Ok(p) && p@ == resolved_path(raw_path@, safe_base@)),
        r matches Ok(p) ==> (raw_path@[0] == '/' ==> p@ == normalized_text(raw_path@)
            && p@.len() > 0 && p@[0] == '/' && in_allowed_directory(p@, allowed_parents@)),
        r matches Ok(p) ==> (raw_path@[0] != '/' ==> p@ == normalized_text(path_join(safe_base@, raw_path@))
            && path_starts_with(p@, normalized_text(safe_base@))),
        r matches Ok(p) ==> (raw_path@[0] != '/' && normalized_text(safe_base@) == safe_base@
            ==> path_starts_with(p@, safe_base@)),
        raw_path@.len() > 0 && !raw_path@.contains('\0') && raw_path@[0] == '/' ==> (r is Ok <==>
            exists|k: int| 0 <= k < allowed_parents@.len()
                && path_starts_with(normalized_text(raw_path@), #[trigger] allowed_parents@[k]@)),
        raw_path@.len() > 0 && !raw_path@.contains('\0') && raw_path@[0] == '/'
            && (forall|k: int| 0 <= k < allowed_parents@.len()
                ==> !path_starts_with(normalized_text(raw_path@), #[trigger] allowed_parents@[k]@))
            ==> (r matches Err(PathError::NotInAllowedDirectory(dirs)) && dirs@ == allowed_parents@),
{
    proof {
        law_allowed_anywhere_in_the_list(normalized_text(raw_path@), allowed_parents@);
    }
    if raw_path.unicode_len() == 0 {
        return Err(PathError::EmptyPath);
    }
    if has_char(raw_path, '\0') {
        return Err(PathError::NullBytes);
    }
    let full = if is_absolute(raw_path) { owned(raw_path) } else { join(safe_base, raw_path) };
    let normalized_path = normalize_path(full.as_str());
    if starts_with_char(raw_path, '/') {
        let n = allowed_parents.len();
        let mut k: usize = 0;
        let mut found = false;
        while k < n
            invariant
                n == allowed_parents@.len(),
                k <= n,
                found ==> in_allowed_directory(normalized_path@, allowed_parents@),
                !found ==> forall|j: int| 0 <= j < k ==> !path_starts_with(normalized_path@, #[trigger] allowed_parents@[j]@),
            decreases n - k,
        {
            if !found && starts_with_path(normalized_path.as_str(), allowed_parents[k].as_str()) {
                found = true;
            }
            k = k + 1;
        }
        if !found {
            return Err(PathError::NotInAllowedDirectory(clone_strings(allowed_parents)));
        }
    } else {
        let base = normalize_path(safe_base);
        if !starts_with_path(normalized_path.as_str(), base.as_str()) {
            let mut dirs: Vec<String> = Vec::new();
            dirs.push(owned(safe_base));
            return Err(PathError::NotInAllowedDirectory(dirs));
        }
    }
    Ok(normalized_path)
}

/// A copy of a list of strings.
pub fn clone_strings(v: &Vec<String>) -> (r: Vec<String>)
    ensures
        r@ == v@,
{
    let mut r: Vec<String> = Vec::new();
    let mut i: usize = 0;
    while i < v.len()
        invariant
            i <= v@.len(),
            r@ == v@.subrange(0, i as int),
        decreases v@.len() - i,
    {
        r.push(v[i].clone());
        i = i + 1;
    }
    assert(r@ =~= v@);
    r
}

} // verus!
