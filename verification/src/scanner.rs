//! Scanning a project tree for bounded contexts, their features and the
//! files of each feature.

use vstd::prelude::*;

use crate::config::VsaConfig;
use crate::error::VsaError;
use crate::path::{last_component, last_component_str};
use crate::text::{chars_of, owned, slice_chars, starts_with, str_eq, string_of};
use crate::tree::{
    FsEntry, ProjectTree, indices_where, is_child_path, lemma_indices_where, path_is_file,
};

verus! {

/// File system scanner.
#[derive(Debug)]
pub struct Scanner {
    config: VsaConfig,
    root: String,
}

/// Context information.
#[derive(Debug, Clone)]
pub struct ContextInfo {
    pub name: String,
    pub path: String,
}

/// Feature information.
#[derive(Debug, Clone)]
pub struct FeatureInfo {
    pub name: String,
    pub path: String,
    pub relative_path: String,
}

/// File information.
#[derive(Debug, Clone)]
pub struct FileInfo {
    pub name: String,
    pub path: String,
}

/// The name of the entry at `p`: its last component.
pub open spec fn entry_name(p: Seq<char>) -> Seq<char> {
    last_component(p)
}

/// Whether entry `i` is a bounded context under `root`: a directory
/// directly in `root` whose name does not start with `_`.
pub open spec fn is_context_entry(es: Seq<FsEntry>, root: Seq<char>, i: int) -> bool {
    &&& is_child_path(es[i].path@, root)
    &&& es[i].is_dir
    &&& !starts_with(entry_name(es[i].path@), "_"@)
}

/// Positions of the bounded contexts under `root`.
pub open spec fn context_indices(es: Seq<FsEntry>, root: Seq<char>) -> Seq<int> {
    indices_where(es.len() as int, |i: int| is_context_entry(es, root, i))
}

/// The contexts found at positions `idx`.
pub open spec fn contexts_match(r: Seq<ContextInfo>, es: Seq<FsEntry>, idx: Seq<int>) -> bool {
    &&& r.len() == idx.len()
    &&& forall|k: int|
        0 <= k < r.len() ==> (#[trigger] r[k]).path@ == es[idx[k]].path@ && r[k].name@
            == entry_name(es[idx[k]].path@)
}

/// Whether entry `i` is a file directly in `dir`.
pub open spec fn is_file_in(es: Seq<FsEntry>, dir: Seq<char>, i: int) -> bool {
    is_child_path(es[i].path@, dir) && !es[i].is_dir
}

/// The files of a feature: the feature itself when it is a file, then the
/// files directly in it.
pub open spec fn feature_file_paths(es: Seq<FsEntry>, dir: Seq<char>) -> Seq<Seq<char>> {
    let own = if path_is_file(es, dir) {
        seq![dir]
    } else {
        Seq::empty()
    };
    own + indices_where(es.len() as int, |i: int| is_file_in(es, dir, i)).map_values(
        |i: int| es[i].path@,
    )
}

/// Whether directory entry `i` in `cur` is a feature: a directory whose
/// name starts with neither `_` nor `.`, and is not the domain directory.
pub open spec fn is_feature_entry(
    es: Seq<FsEntry>,
    cur: Seq<char>,
    domain: Option<Seq<char>>,
    i: int,
) -> bool {
    let name = entry_name(es[i].path@);
    &&& is_child_path(es[i].path@, cur)
    &&& es[i].is_dir
    &&& !starts_with(name, "_"@)
    &&& !starts_with(name, "."@)
    &&& domain != Some(name)
}

/// The paths of the features at and below `cur`, in walk order, each
/// followed by the features inside it when nesting is allowed; `fuel`
/// bounds the depth (a tree of `n` entries is never deeper than `n`).
pub open spec fn feature_paths(
    es: Seq<FsEntry>,
    cur: Seq<char>,
    domain: Option<Seq<char>>,
    nested: bool,
    fuel: nat,
) -> Seq<Seq<char>>
    decreases fuel, 1int, 0int,
{
    features_from(
        es,
        indices_where(es.len() as int, |i: int| is_feature_entry(es, cur, domain, i)),
        0,
        domain,
        nested,
        fuel,
    )
}

/// The features of the directories `idx[k..]`, each with what lies inside.
pub open spec fn features_from(
    es: Seq<FsEntry>,
    idx: Seq<int>,
    k: int,
    domain: Option<Seq<char>>,
    nested: bool,
    fuel: nat,
) -> Seq<Seq<char>>
    decreases fuel, 0int, idx.len() - k,
{
    if k < 0 || k >= idx.len() || fuel == 0 {
        Seq::empty()
    } else {
        let p = es[idx[k]].path@;
        let inner = if nested {
            feature_paths(es, p, domain, nested, (fuel - 1) as nat)
        } else {
            Seq::empty()
        };
        seq![p] + inner + features_from(es, idx, k + 1, domain, nested, fuel)
    }
}

/// The domain directory name that feature scans skip.
pub open spec fn skipped_domain(config: VsaConfig) -> Option<Seq<char>> {
    match config.domain {
        Some(d) => Some(d.path@),
        None => None,
    }
}

/// `p` relative to `base`: what follows `base/`.
pub open spec fn relative_to(p: Seq<char>, base: Seq<char>) -> Seq<char> {
    let pre = crate::tree::dir_prefix(base);
    if starts_with(p, pre) {
        p.subrange(pre.len() as int, p.len() as int)
    } else {
        p
    }
}

/// The bounded contexts directly under `root`.
pub fn contexts_in(tree: &ProjectTree, root: &str) -> (r: Vec<ContextInfo>)
    ensures
        contexts_match(r@, tree.entries@, context_indices(tree.entries@, root@)),
{
    let ghost es = tree.entries@;
    let ghost pred = |i: int| is_context_entry(es, root@, i);
    let mut out: Vec<ContextInfo> = Vec::new();
    let ghost mut idx: Seq<int> = Seq::empty();
    let mut i: usize = 0;
    while i < tree.entries.len()
        invariant
            i <= tree.entries.len(),
            es == tree.entries@,
            pred == (|i: int| is_context_entry(es, root@, i)),
            idx == indices_where(i as int, pred),
            contexts_match(out@, es, idx),
        decreases tree.entries.len() - i,
    {
        let e = &tree.entries[i];
        let name = last_component_str(e.path.as_str());
        let nc = chars_of(name.as_str());
        let is_ctx = e.is_dir && is_child_of(e.path.as_str(), root) && !(nc.len() > 0 && nc[0]
            == '_');
        proof {
            crate::text::lemma_starts_with_char(name@, '_');
            assert("_"@ == seq!['_']) by {
                reveal_strlit("_");
            }
        }
        if is_ctx {
            out.push(ContextInfo { name, path: e.path.clone() });
            proof {
                idx = idx.push(i as int);
            }
        }
        i = i + 1;
    }
    out
}

/// Whether `p` lies directly in `dir`.
pub fn is_child_of(p: &str, dir: &str) -> (r: bool)
    ensures
        r == is_child_path(p@, dir@),
{
    match crate::path::path_parent_str(p) {
        Some(d) => str_eq(d.as_str(), dir),
        None => false,
    }
}

impl Scanner {
    /// A scanner of the project at `root`, configured by `config`.
    pub fn new(config: VsaConfig, root: String) -> (r: Self)
        ensures
            r.spec_config() == config,
            r.spec_root() == root,
    {
        Scanner { config, root }
    }

    pub closed spec fn spec_config(&self) -> VsaConfig {
        self.config
    }

    pub closed spec fn spec_root(&self) -> String {
        self.root
    }

    /// Scan for features within a context.
    pub fn scan_features(&self, tree: &ProjectTree, context_path: &str) -> (r: Result<
        Vec<FeatureInfo>,
        VsaError,
    >)
        ensures
            r matches Ok(v) && features_named(v@, context_path@) && feature_paths_of(v@)
                == feature_paths(
                tree.entries@,
                context_path@,
                skipped_domain(self.spec_config()),
                self.spec_config().validation.allow_nested_features,
                tree.entries@.len() as nat,
            ),
    {
        Ok(features_in(&self.config, tree, context_path))
    }

    /// Scan for the files of a feature.
    pub fn scan_feature_files(&self, tree: &ProjectTree, feature_path: &str) -> (r: Result<
        Vec<FileInfo>,
        VsaError,
    >)
        ensures
            r matches Ok(v) && files_named(v@) && file_paths_of(v@) == feature_file_paths(
                tree.entries@,
                feature_path@,
            ),
    {
        Ok(files_in(tree, feature_path))
    }

    /// Scan for all contexts: the directories directly under the root whose
    /// names do not start with `_`.
    pub fn scan_contexts(&self, tree: &ProjectTree) -> (r: Result<Vec<ContextInfo>, VsaError>)
        ensures
            r matches Ok(v) && contexts_match(
                v@,
                tree.entries@,
                context_indices(tree.entries@, self.spec_root()@),
            ),
    {
        Ok(contexts_in(tree, self.root.as_str()))
    }
}

/// The paths of a list of features.
pub open spec fn feature_paths_of(v: Seq<FeatureInfo>) -> Seq<Seq<char>> {
    v.map_values(|f: FeatureInfo| f.path@)
}

/// Each feature's name and relative path follow from its path.
pub open spec fn features_named(v: Seq<FeatureInfo>, base: Seq<char>) -> bool {
    forall|k: int|
        0 <= k < v.len() ==> (#[trigger] v[k]).name@ == entry_name(v[k].path@)
            && v[k].relative_path@ == relative_to(v[k].path@, base)
}

/// The paths of a list of files.
pub open spec fn file_paths_of(v: Seq<FileInfo>) -> Seq<Seq<char>> {
    v.map_values(|f: FileInfo| f.path@)
}

/// Each file's name is the last component of its path.
pub open spec fn files_named(v: Seq<FileInfo>) -> bool {
    forall|k: int| 0 <= k < v.len() ==> (#[trigger] v[k]).name@ == entry_name(v[k].path@)
}

/// The view of an optional string.
pub open spec fn opt_string_view(o: Option<String>) -> Option<Seq<char>> {
    match o {
        Some(s) => Some(s@),
        None => None,
    }
}

/// `p` relative to `base`.
pub fn relative_to_str(p: &str, base: &str) -> (r: String)
    ensures
        r@ == relative_to(p@, base@),
{
    let pc = chars_of(p);
    let mut pre = chars_of(base);
    if !(pre.len() > 0 && pre[pre.len() - 1] == '/') {
        pre.push('/');
    }
    assert(pre@ == crate::tree::dir_prefix(base@));
    if crate::text::starts_with_chars(pc.as_slice(), pre.as_slice()) {
        let v = slice_chars(pc.as_slice(), pre.len(), pc.len());
        string_of(v.as_slice())
    } else {
        owned(p)
    }
}

fn feature_dirs(tree: &ProjectTree, cur: &str, domain: &Option<String>) -> (r: Vec<usize>)
    ensures
        r@.map_values(|i: usize| i as int) == indices_where(
            tree.entries@.len() as int,
            |i: int| is_feature_entry(tree.entries@, cur@, opt_string_view(*domain), i),
        ),
        forall|k: int| 0 <= k < r@.len() ==> #[trigger] r@[k] < tree.entries@.len(),
{
    let ghost es = tree.entries@;
    let ghost dom = opt_string_view(*domain);
    let ghost pred = |i: int| is_feature_entry(es, cur@, dom, i);
    let mut out: Vec<usize> = Vec::new();
    let mut i: usize = 0;
    while i < tree.entries.len()
        invariant
            i <= tree.entries.len(),
            es == tree.entries@,
            dom == opt_string_view(*domain),
            pred == (|i: int| is_feature_entry(es, cur@, dom, i)),
            out@.map_values(|i: usize| i as int) == indices_where(i as int, pred),
            forall|k: int| 0 <= k < out@.len() ==> #[trigger] out@[k] < i,
        decreases tree.entries.len() - i,
    {
        let e = &tree.entries[i];
        let name = last_component_str(e.path.as_str());
        let nc = chars_of(name.as_str());
        let is_domain = match domain {
            Some(d) => str_eq(name.as_str(), d.as_str()),
            None => false,
        };
        proof {
            crate::text::lemma_starts_with_char(name@, '_');
            crate::text::lemma_starts_with_char(name@, '.');
            assert("_"@ == seq!['_']) by {
                reveal_strlit("_");
            }
            assert("."@ == seq!['.']) by {
                reveal_strlit(".");
            }
        }
        if e.is_dir && is_child_of(e.path.as_str(), cur) && !(nc.len() > 0 && (nc[0] == '_'
            || nc[0] == '.')) && !is_domain {
            out.push(i);
            assert(out@.map_values(|i: usize| i as int) =~= indices_where(i as int, pred).push(
                i as int,
            ));
        }
        i = i + 1;
    }
    out
}

fn features_rec(
    tree: &ProjectTree,
    base: &str,
    cur: &str,
    domain: &Option<String>,
    nested: bool,
    fuel: usize,
    out: &mut Vec<FeatureInfo>,
)
    requires
        features_named(old(out)@, base@),
    ensures
        features_named(final(out)@, base@),
        feature_paths_of(final(out)@) == feature_paths_of(old(out)@) + feature_paths(
            tree.entries@,
            cur@,
            opt_string_view(*domain),
            nested,
            fuel as nat,
        ),
    decreases fuel,
{
    let ghost es = tree.entries@;
    let ghost dom = opt_string_view(*domain);
    let dirs = feature_dirs(tree, cur, domain);
    let ghost idx = dirs@.map_values(|i: usize| i as int);
    let ghost start = feature_paths_of(out@);
    let mut k: usize = 0;
    assert(feature_paths_of(out@) + features_from(es, idx, 0, dom, nested, fuel as nat) =~= start
        + feature_paths(es, cur@, dom, nested, fuel as nat));
    while k < dirs.len()
        invariant
            k <= dirs.len(),
            es == tree.entries@,
            dom == opt_string_view(*domain),
            idx == dirs@.map_values(|i: usize| i as int),
            start == feature_paths_of(old(out)@),
            forall|j: int| 0 <= j < dirs@.len() ==> #[trigger] dirs@[j] < es.len(),
            features_named(out@, base@),
            feature_paths_of(out@) + features_from(es, idx, k as int, dom, nested, fuel as nat)
                == start + feature_paths(es, cur@, dom, nested, fuel as nat),
        decreases dirs.len() - k,
    {
        if fuel == 0 {
            assert(features_from(es, idx, k as int, dom, nested, fuel as nat) =~= Seq::empty());
            assert(feature_paths_of(out@) + Seq::<Seq<char>>::empty() =~= feature_paths_of(out@));
            return;
        }
        let e = &tree.entries[dirs[k]];
        let name = last_component_str(e.path.as_str());
        let rel = relative_to_str(e.path.as_str(), base);
        let ghost before = feature_paths_of(out@);
        out.push(FeatureInfo { name, path: e.path.clone(), relative_path: rel });
        assert(feature_paths_of(out@) =~= before.push(es[idx[k as int]].path@));
        let ghost mid = feature_paths_of(out@);
        if nested {
            features_rec(tree, base, e.path.as_str(), domain, nested, fuel - 1, out);
        }
        proof {
            let p = es[idx[k as int]].path@;
            let inner = if nested {
                feature_paths(es, p, dom, nested, (fuel - 1) as nat)
            } else {
                Seq::empty()
            };
            assert(feature_paths_of(out@) == mid + inner);
            assert(features_from(es, idx, k as int, dom, nested, fuel as nat) == seq![p] + inner
                + features_from(es, idx, k + 1, dom, nested, fuel as nat));
            assert(feature_paths_of(out@) + features_from(es, idx, k + 1, dom, nested, fuel as nat)
                =~= before + features_from(es, idx, k as int, dom, nested, fuel as nat));
        }
        k = k + 1;
    }
    assert(features_from(es, idx, k as int, dom, nested, fuel as nat) =~= Seq::empty());
    assert(feature_paths_of(out@) + Seq::<Seq<char>>::empty() =~= feature_paths_of(out@));
}

/// The features within the context at `context_path` (see `feature_paths`).
pub fn features_in(config: &VsaConfig, tree: &ProjectTree, context_path: &str) -> (r: Vec<
    FeatureInfo,
>)
    ensures
        features_named(r@, context_path@),
        feature_paths_of(r@) == feature_paths(
            tree.entries@,
            context_path@,
            skipped_domain(*config),
            config.validation.allow_nested_features,
            tree.entries@.len() as nat,
        ),
{
    let domain: Option<String> = match &config.domain {
        Some(d) => Some(d.path.clone()),
        None => None,
    };
    let mut out: Vec<FeatureInfo> = Vec::new();
    features_rec(
        tree,
        context_path,
        context_path,
        &domain,
        config.validation.allow_nested_features,
        tree.entries.len(),
        &mut out,
    );
    assert(feature_paths_of(out@) =~= Seq::<Seq<char>>::empty() + feature_paths(
        tree.entries@,
        context_path@,
        skipped_domain(*config),
        config.validation.allow_nested_features,
        tree.entries@.len() as nat,
    ));
    out
}

/// The files of the feature at `feature_path` (see `feature_file_paths`).
pub fn files_in(tree: &ProjectTree, feature_path: &str) -> (r: Vec<FileInfo>)
    ensures
        files_named(r@),
        file_paths_of(r@) == feature_file_paths(tree.entries@, feature_path@),
{
    let ghost es = tree.entries@;
    let ghost pred = |i: int| is_file_in(es, feature_path@, i);
    let mut out: Vec<FileInfo> = Vec::new();
    if tree.is_file(feature_path) {
        out.push(FileInfo { name: last_component_str(feature_path), path: owned(feature_path) });
    }
    let ghost own = file_paths_of(out@);
    let mut i: usize = 0;
    while i < tree.entries.len()
        invariant
            i <= tree.entries.len(),
            es == tree.entries@,
            pred == (|i: int| is_file_in(es, feature_path@, i)),
            files_named(out@),
            file_paths_of(out@) == own + indices_where(i as int, pred).map_values(
                |i: int| es[i].path@,
            ),
        decreases tree.entries.len() - i,
    {
        let e = &tree.entries[i];
        let ghost before = file_paths_of(out@);
        if !e.is_dir && is_child_of(e.path.as_str(), feature_path) {
            out.push(FileInfo { name: last_component_str(e.path.as_str()), path: e.path.clone() });
            assert(indices_where(i + 1, pred) == indices_where(i as int, pred).push(i as int));
            assert(indices_where(i + 1, pred).map_values(|i: int| es[i].path@) =~= indices_where(
                i as int,
                pred,
            ).map_values(|i: int| es[i].path@).push(es[i as int].path@));
            assert(file_paths_of(out@) =~= before.push(e.path@));
        }
        i = i + 1;
    }
    out
}

} // verus!
