//! The decisions of the cascade: which document stands after the root file,
//! where fragments are looked for, and how the fragments that could be read
//! are folded in. Reading files and listing the fragment directory are left
//! to the caller, which hands over what it found.
use vstd::prelude::*;
use vstd::string::*;

use crate::document::{config_dir_of, default_view, merge_config, opt_view, Config, ConfigView};

verus! {

/// The parent directory of a path, as `std::path::Path::parent` gives it.
pub uninterp spec fn parent_path(p: Seq<char>) -> Option<Seq<char>>;

/// A path joined onto a base, as `std::path::Path::join` gives it.
pub uninterp spec fn joined_path(base: Seq<char>, rel: Seq<char>) -> Seq<char>;

/// Relies on `std::path::Path::parent`: the path without its final
/// component, or nothing for a root or an empty path.
#[verifier::external_body]
fn parent_of(path: &str) -> (r: Option<String>)
    ensures
        opt_view(r) == parent_path(path@),
{
    std::path::Path::new(path).parent().map(|p| p.to_string_lossy().into_owned())
}

/// Relies on `std::path::Path::join`: `rel` appended to `base`, or `rel`
/// alone where it is absolute. Both are UTF-8, so the result is too.
#[verifier::external_body]
fn join_path(base: &str, rel: &str) -> (r: String)
    ensures
        r@ == joined_path(base@, rel@),
{
    std::path::Path::new(base).join(rel).to_string_lossy().into_owned()
}

/// The directory that relative fragment paths start from: the root file's
/// parent, or the filesystem root where it has none.
pub open spec fn base_dir(root_path: Seq<char>) -> Seq<char> {
    match parent_path(root_path) {
        Some(d) => d,
        None => "/"@,
    }
}

/// The glob pattern for the fragments of a root file at `root_path` whose
/// settings name `config_dir`.
pub open spec fn pattern_for(root_path: Seq<char>, config_dir: Seq<char>) -> Seq<char> {
    joined_path(base_dir(root_path), config_dir) + "/*.toml"@
}

/// The document that stands after the root file: the default where the root
/// could not be read or parsed, else the root layered over the default.
pub open spec fn after_root(root: Option<ConfigView>) -> ConfigView {
    match root {
        Some(r) => merge_config(default_view(), r),
        None => default_view(),
    }
}

/// Folds fragments, in order, over `acc`; a fragment that could not be read
/// or parsed (`None`) is passed over.
pub open spec fn fold_fragments_view(acc: ConfigView, fragments: Seq<Option<ConfigView>>) -> ConfigView
    decreases fragments.len(),
{
    if fragments.len() == 0 {
        acc
    } else {
        let before = fold_fragments_view(acc, fragments.drop_last());
        match fragments.last() {
            Some(f) => merge_config(before, f),
            None => before,
        }
    }
}

/// A fragment as read: its document as plain values, or nothing.
pub open spec fn fragment_view(f: Option<Config>) -> Option<ConfigView> {
    match f {
        Some(c) => Some(c@),
        None => None,
    }
}

/// Resolves the root layer. `root` is the parsed root document, or nothing
/// where the root file could not be read or parsed; then the default alone
/// stands. Either way the result names a fragment directory.
pub fn resolve_root(root: Option<Config>) -> (r: Config)
    ensures
        r@ == after_root(fragment_view(root)),
        config_dir_of(r@) is Some,
{
    let default_config = Config::default();
    match root {
        Some(root) => default_config.merge(&root),
        None => default_config,
    }
}

/// The glob pattern under which the fragments of `effective` are found: the
/// directory its daemon settings name, taken relative to the parent of
/// `root_path`, with the document extension. Nothing where `effective`
/// names no directory.
pub fn fragment_pattern(root_path: &str, effective: &Config) -> (r: Option<String>)
    ensures
        match config_dir_of(effective@) {
            Some(dir) => r is Some && r->Some_0@ == pattern_for(root_path@, dir),
            None => r is None,
        },
{
    let config_dir = match &effective.daemon {
        Some(d) => match &d.config_dir {
            Some(dir) => dir,
            None => {
                return None;
            },
        },
        None => {
            return None;
        },
    };
    let base = match parent_of(root_path) {
        Some(p) => p,
        None => String::from_str("/"),
    };
    proof {
        reveal_strlit("/");
        reveal_strlit("/*.toml");
    }
    let dir = join_path(base.as_str(), config_dir.as_str());
    Some(dir.concat("/*.toml"))
}

/// Folds the fragments, in the order given, over `effective`; each one that
/// could be read and parsed overrides everything before it, and each `None`
/// is passed over.
pub fn fold_fragments(effective: Config, fragments: &Vec<Option<Config>>) -> (r: Config)
    ensures
        r@ == fold_fragments_view(effective@, fragments@.map_values(|f: Option<Config>| fragment_view(f))),
{
    let ghost views = fragments@.map_values(|f: Option<Config>| fragment_view(f));
    let mut acc = effective;
    let mut i: usize = 0;
    while i < fragments.len()
        invariant
            i <= fragments@.len(),
            views == fragments@.map_values(|f: Option<Config>| fragment_view(f)),
            acc@ == fold_fragments_view(effective@, views.take(i as int)),
        decreases fragments@.len() - i,
    {
        proof {
            assert(views.take(i + 1).drop_last() =~= views.take(i as int));
        }
        match &fragments[i] {
            Some(fragment) => {
                acc = acc.merge(fragment);
            },
            None => {},
        }
        i = i + 1;
    }
    proof {
        assert(views.take(i as int) =~= views);
    }
    acc
}

} // verus!
