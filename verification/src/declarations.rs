//! Declaration locations of packages: indexing parser output by manifest
//! merge key, attaching manifest and lock declarations to resolved packages,
//! and merging declaration maps.
use vstd::prelude::*;

use crate::declmap::{
    decl_views, decl_views_have, decl_views_sorted, lemma_concat_have, lemma_entries_map,
    lemma_views_have, lemma_views_of_sorted, DeclKey, DeclMap,
};
use crate::model::{
    dedupe_sort_declarations, opt_seq, valid_declaration, DeclView, DeclarationKind, Package,
    PackageDeclarationLocation, PackageView,
};
use crate::resolve::DependencyGraph;
use crate::text::{copy_str, str_eq};

verus! {

/// Parser output: a package and its declaration line in a manifest or lock
/// file.
#[derive(Debug, Clone, PartialEq, Eq)]
pub struct ParsedDependency {
    pub package: Package,
    pub path: String,
    pub start_line: u32,
    pub end_line: Option<u32>,
    pub kind: DeclarationKind,
}

/// Cached resolver output including declaration metadata.
#[derive(Debug)]
pub struct CachedResolution {
    pub packages: Vec<Package>,
    pub package_declarations: DeclMap<Package>,
    pub package_source_paths: Vec<(Package, Vec<String>)>,
}

/// Unicode lower case of a string (`str::to_lowercase`).
pub uninterp spec fn unicode_lowercase(s: Seq<char>) -> Seq<char>;

/// `str::to_lowercase`: Unicode lower-case mapping of the whole string.
#[verifier::external_body]
fn to_lowercase_string(s: &str) -> (r: String)
    ensures
        r@ == unicode_lowercase(s@),
{
    s.to_lowercase()
}

/// Merge key of manifest declarations: ecosystem and lower-cased name
/// (constraint versions differ from pins, so the version is left out).
#[derive(Debug, Clone, PartialEq, Eq, Hash)]
pub struct MergeKey {
    pub ecosystem: Option<String>,
    pub name: String,
}

/// Mathematical value of a [`MergeKey`].
pub struct MergeKeyView {
    pub ecosystem: Option<Seq<char>>,
    pub name: Seq<char>,
}

impl View for MergeKey {
    type V = MergeKeyView;

    open spec fn view(&self) -> MergeKeyView {
        MergeKeyView { ecosystem: opt_seq(self.ecosystem), name: self.name@ }
    }
}

impl DeclKey for MergeKey {
    fn key_eq(&self, other: &Self) -> (r: bool) {
        crate::model::opt_eq(&self.ecosystem, &other.ecosystem) && str_eq(
            self.name.as_str(),
            other.name.as_str(),
        )
    }

    fn key_copy(&self) -> (r: Self) {
        MergeKey { ecosystem: crate::model::copy_opt(&self.ecosystem), name: copy_str(self.name.as_str()) }
    }
}

/// Merge key of a package.
pub open spec fn merge_key_of(p: PackageView) -> MergeKeyView {
    MergeKeyView { ecosystem: p.ecosystem, name: unicode_lowercase(p.name) }
}

/// Merge key for manifest declarations.
pub fn manifest_merge_key(package: &Package) -> (r: MergeKey)
    ensures
        r@ == merge_key_of(package@),
{
    MergeKey {
        ecosystem: crate::model::copy_opt(&package.ecosystem),
        name: to_lowercase_string(package.name.as_str()),
    }
}

/// The declaration a parsed dependency denotes.
pub open spec fn dep_decl(d: ParsedDependency) -> DeclView {
    DeclView { path: d.path@, start_line: d.start_line, end_line: d.end_line, kind: d.kind }
}

/// A parsed dependency yields a well-formed declaration.
pub open spec fn dep_valid(d: ParsedDependency) -> bool {
    valid_declaration(d.path@, d.start_line, d.end_line)
}

/// Convert a parsed dependency into a declaration location.
pub fn parsed_to_declaration(dep: &ParsedDependency) -> (r: Option<PackageDeclarationLocation>)
    ensures
        dep_valid(*dep) <==> r is Some,
        r matches Some(d) ==> d@ == dep_decl(*dep),
{
    PackageDeclarationLocation::new(dep.path.as_str(), dep.start_line, dep.end_line, dep.kind)
}

/// Lock declaration from a parsed lock stanza.
pub fn lock_declaration(lock_path: &str, start_line: u32, end_line: Option<u32>) -> (r: Option<
    PackageDeclarationLocation,
>)
    ensures
        valid_declaration(lock_path@, start_line, end_line) <==> r is Some,
        r matches Some(d) ==> d@ == (DeclView {
            path: lock_path@,
            start_line,
            end_line,
            kind: DeclarationKind::Lockfile,
        }),
{
    PackageDeclarationLocation::new(lock_path, start_line, end_line, DeclarationKind::Lockfile)
}

/// The index of manifest declarations: every valid manifest declaration of
/// `parsed` under its merge key, each list sorted and free of duplicates.
pub open spec fn manifest_index_spec(m: Map<MergeKeyView, Seq<DeclView>>, parsed: Seq<ParsedDependency>) -> bool {
    &&& forall|k: MergeKeyView|
        #[trigger] m.contains_key(k) <==> exists|i: int|
            0 <= i < parsed.len() && parsed[i].kind == DeclarationKind::Manifest && dep_valid(
                parsed[i],
            ) && merge_key_of(parsed[i].package@) == k
    &&& forall|k: MergeKeyView| #[trigger] m.contains_key(k) ==> decl_views_sorted(m[k])
    &&& forall|k: MergeKeyView, y: DeclView|
        m.contains_key(k) ==> (#[trigger] decl_views_have(m[k], y) <==> exists|i: int|
            0 <= i < parsed.len() && parsed[i].kind == DeclarationKind::Manifest && dep_valid(
                parsed[i],
            ) && merge_key_of(parsed[i].package@) == k && dep_decl(parsed[i]) == y)
}

/// Index manifest declarations by `(ecosystem, lower-cased name)`.
pub fn index_manifest_declarations(parsed: &[ParsedDependency]) -> (r: DeclMap<MergeKey>)
    ensures
        manifest_index_spec(r@, parsed@),
{
    let mut index: DeclMap<MergeKey> = DeclMap::new();
    let mut i: usize = 0;
    while i < parsed.len()
        invariant
            i <= parsed.len(),
            manifest_index_spec(index@, parsed@.take(i as int)),
        decreases parsed.len() - i,
    {
        let dep = &parsed[i];
        let ghost before = index@;
        let ghost pre = parsed@.take(i as int);
        let ghost post = parsed@.take(i + 1);
        proof {
            assert forall|j: int| 0 <= j < i implies post[j] == pre[j] by {}
            assert(post[i as int] == parsed@[i as int]);
        }
        if dep.kind == DeclarationKind::Manifest {
            match parsed_to_declaration(dep) {
                Some(loc) => {
                    let key = manifest_merge_key(&dep.package);
                    let ghost kv = key@;
                    let mut one: Vec<PackageDeclarationLocation> = Vec::new();
                    one.push(loc);
                    index.merge_into(key, one);
                    proof {
                        assert forall|k: MergeKeyView|
                            #[trigger] index@.contains_key(k) <==> exists|j: int|
                                0 <= j < post.len() && post[j].kind == DeclarationKind::Manifest
                                    && dep_valid(post[j]) && merge_key_of(post[j].package@) == k by {
                            if index@.contains_key(k) && k != kv {
                                assert(before.contains_key(k));
                                let j = choose|j: int|
                                    0 <= j < pre.len() && pre[j].kind == DeclarationKind::Manifest
                                        && dep_valid(pre[j]) && merge_key_of(pre[j].package@) == k;
                                assert(post[j] == pre[j]);
                            }
                            if k == kv {
                                assert(post[i as int].kind == DeclarationKind::Manifest);
                            }
                            if exists|j: int|
                                0 <= j < post.len() && post[j].kind == DeclarationKind::Manifest
                                    && dep_valid(post[j]) && merge_key_of(post[j].package@) == k {
                                let j = choose|j: int|
                                    0 <= j < post.len() && post[j].kind == DeclarationKind::Manifest
                                        && dep_valid(post[j]) && merge_key_of(post[j].package@) == k;
                                if j < i {
                                    assert(post[j] == pre[j]);
                                    assert(before.contains_key(k));
                                }
                            }
                        }
                        assert forall|k: MergeKeyView, y: DeclView|
                            index@.contains_key(k) implies (#[trigger] decl_views_have(index@[k], y)
                                <==> exists|j: int|
                                0 <= j < post.len() && post[j].kind == DeclarationKind::Manifest
                                    && dep_valid(post[j]) && merge_key_of(post[j].package@) == k
                                    && dep_decl(post[j]) == y) by {
                            if k == kv {
                                if decl_views_have(decl_views(seq![loc]), y) {
                                    let q = choose|q: int| 0 <= q < 1 && decl_views(seq![loc])[q] == y;
                                    assert(post[i as int].kind == DeclarationKind::Manifest);
                                }
                                if y == loc@ {
                                    assert(decl_views(seq![loc])[0] == y);
                                }
                                if exists|j: int|
                                    0 <= j < post.len() && post[j].kind == DeclarationKind::Manifest
                                        && dep_valid(post[j]) && merge_key_of(post[j].package@) == k
                                        && dep_decl(post[j]) == y {
                                    let j = choose|j: int|
                                        0 <= j < post.len() && post[j].kind
                                            == DeclarationKind::Manifest && dep_valid(post[j])
                                            && merge_key_of(post[j].package@) == k && dep_decl(
                                            post[j],
                                        ) == y;
                                    if j < i {
                                        assert(post[j] == pre[j]);
                                        assert(before.contains_key(k));
                                    } else {
                                        assert(decl_views(seq![loc])[0] == y);
                                    }
                                }
                                if before.contains_key(k) && decl_views_have(before[k], y) {
                                    let j = choose|j: int|
                                        0 <= j < pre.len() && pre[j].kind
                                            == DeclarationKind::Manifest && dep_valid(pre[j])
                                            && merge_key_of(pre[j].package@) == k && dep_decl(
                                            pre[j],
                                        ) == y;
                                    assert(post[j] == pre[j]);
                                }
                            } else {
                                assert(before.contains_key(k));
                                if exists|j: int|
                                    0 <= j < post.len() && post[j].kind == DeclarationKind::Manifest
                                        && dep_valid(post[j]) && merge_key_of(post[j].package@) == k
                                        && dep_decl(post[j]) == y {
                                    let j = choose|j: int|
                                        0 <= j < post.len() && post[j].kind
                                            == DeclarationKind::Manifest && dep_valid(post[j])
                                            && merge_key_of(post[j].package@) == k && dep_decl(
                                            post[j],
                                        ) == y;
                                    assert(j != i);
                                    assert(post[j] == pre[j]);
                                }
                                if decl_views_have(before[k], y) {
                                    let j = choose|j: int|
                                        0 <= j < pre.len() && pre[j].kind
                                            == DeclarationKind::Manifest && dep_valid(pre[j])
                                            && merge_key_of(pre[j].package@) == k && dep_decl(
                                            pre[j],
                                        ) == y;
                                    assert(post[j] == pre[j]);
                                }
                            }
                        }
                    }
                },
                None => {
                    proof {
                        lemma_index_unchanged(index@, parsed@, i as int);
                    }
                },
            }
        } else {
            proof {
                lemma_index_unchanged(index@, parsed@, i as int);
            }
        }
        i = i + 1;
    }
    proof {
        assert(parsed@.take(parsed.len() as int) =~= parsed@);
    }
    index
}

/// A dependency that adds nothing to the manifest index leaves it unchanged.
proof fn lemma_index_unchanged(m: Map<MergeKeyView, Seq<DeclView>>, parsed: Seq<ParsedDependency>, i: int)
    requires
        0 <= i < parsed.len(),
        manifest_index_spec(m, parsed.take(i)),
        !(parsed[i].kind == DeclarationKind::Manifest && dep_valid(parsed[i])),
    ensures
        manifest_index_spec(m, parsed.take(i + 1)),
{
    let pre = parsed.take(i);
    let post = parsed.take(i + 1);
    assert forall|j: int| 0 <= j < i implies post[j] == pre[j] by {}
    assert(post[i] == parsed[i]);
    assert forall|k: MergeKeyView|
        #[trigger] m.contains_key(k) <==> exists|j: int|
            0 <= j < post.len() && post[j].kind == DeclarationKind::Manifest && dep_valid(post[j])
                && merge_key_of(post[j].package@) == k by {
        if exists|j: int|
            0 <= j < post.len() && post[j].kind == DeclarationKind::Manifest && dep_valid(post[j])
                && merge_key_of(post[j].package@) == k {
            let j = choose|j: int|
                0 <= j < post.len() && post[j].kind == DeclarationKind::Manifest && dep_valid(
                    post[j],
                ) && merge_key_of(post[j].package@) == k;
            assert(post[j] == pre[j]);
        }
        if m.contains_key(k) {
            let j = choose|j: int|
                0 <= j < pre.len() && pre[j].kind == DeclarationKind::Manifest && dep_valid(pre[j])
                    && merge_key_of(pre[j].package@) == k;
            assert(post[j] == pre[j]);
        }
    }
    assert forall|k: MergeKeyView, y: DeclView|
        m.contains_key(k) implies (#[trigger] decl_views_have(m[k], y) <==> exists|j: int|
            0 <= j < post.len() && post[j].kind == DeclarationKind::Manifest && dep_valid(post[j])
                && merge_key_of(post[j].package@) == k && dep_decl(post[j]) == y) by {
        if exists|j: int|
            0 <= j < post.len() && post[j].kind == DeclarationKind::Manifest && dep_valid(post[j])
                && merge_key_of(post[j].package@) == k && dep_decl(post[j]) == y {
            let j = choose|j: int|
                0 <= j < post.len() && post[j].kind == DeclarationKind::Manifest && dep_valid(
                    post[j],
                ) && merge_key_of(post[j].package@) == k && dep_decl(post[j]) == y;
            assert(post[j] == pre[j]);
        }
        if decl_views_have(m[k], y) {
            let j = choose|j: int|
                0 <= j < pre.len() && pre[j].kind == DeclarationKind::Manifest && dep_valid(pre[j])
                    && merge_key_of(pre[j].package@) == k && dep_decl(pre[j]) == y;
            assert(post[j] == pre[j]);
        }
    }
}

/// Lock declarations: every valid lock-file declaration of `parsed` under
/// its pinned package, each list sorted and free of duplicates.
pub open spec fn lock_index_spec(m: Map<PackageView, Seq<DeclView>>, parsed: Seq<ParsedDependency>) -> bool {
    &&& forall|k: PackageView|
        #[trigger] m.contains_key(k) <==> exists|i: int|
            0 <= i < parsed.len() && parsed[i].kind == DeclarationKind::Lockfile && dep_valid(
                parsed[i],
            ) && parsed[i].package@ == k
    &&& forall|k: PackageView| #[trigger] m.contains_key(k) ==> decl_views_sorted(m[k])
    &&& forall|k: PackageView, y: DeclView|
        m.contains_key(k) ==> (#[trigger] decl_views_have(m[k], y) <==> exists|i: int|
            0 <= i < parsed.len() && parsed[i].kind == DeclarationKind::Lockfile && dep_valid(
                parsed[i],
            ) && parsed[i].package@ == k && dep_decl(parsed[i]) == y)
}

/// Lock declarations keyed by pinned package from parser output.
pub fn lock_declarations_from_parsed(parsed: &[ParsedDependency]) -> (r: DeclMap<Package>)
    ensures
        lock_index_spec(r@, parsed@),
{
    let mut index: DeclMap<Package> = DeclMap::new();
    let mut i: usize = 0;
    while i < parsed.len()
        invariant
            i <= parsed.len(),
            lock_index_spec(index@, parsed@.take(i as int)),
        decreases parsed.len() - i,
    {
        let dep = &parsed[i];
        let ghost before = index@;
        let ghost pre = parsed@.take(i as int);
        let ghost post = parsed@.take(i + 1);
        proof {
            assert forall|j: int| 0 <= j < i implies post[j] == pre[j] by {}
            assert(post[i as int] == parsed@[i as int]);
        }
        if dep.kind == DeclarationKind::Lockfile {
            match lock_declaration(dep.path.as_str(), dep.start_line, dep.end_line) {
                Some(loc) => {
                    let key = dep.package.duplicate();
                    let ghost kv = key@;
                    let mut one: Vec<PackageDeclarationLocation> = Vec::new();
                    one.push(loc);
                    index.merge_into(key, one);
                    proof {
                        assert forall|k: PackageView|
                            #[trigger] index@.contains_key(k) <==> exists|j: int|
                                0 <= j < post.len() && post[j].kind == DeclarationKind::Lockfile
                                    && dep_valid(post[j]) && post[j].package@ == k by {
                            if index@.contains_key(k) && k != kv {
                                assert(before.contains_key(k));
                                let j = choose|j: int|
                                    0 <= j < pre.len() && pre[j].kind == DeclarationKind::Lockfile
                                        && dep_valid(pre[j]) && pre[j].package@ == k;
                                assert(post[j] == pre[j]);
                            }
                            if k == kv {
                                assert(post[i as int].kind == DeclarationKind::Lockfile);
                            }
                            if exists|j: int|
                                0 <= j < post.len() && post[j].kind == DeclarationKind::Lockfile
                                    && dep_valid(post[j]) && post[j].package@ == k {
                                let j = choose|j: int|
                                    0 <= j < post.len() && post[j].kind == DeclarationKind::Lockfile
                                        && dep_valid(post[j]) && post[j].package@ == k;
                                if j < i {
                                    assert(post[j] == pre[j]);
                                    assert(before.contains_key(k));
                                }
                            }
                        }
                        assert forall|k: PackageView, y: DeclView|
                            index@.contains_key(k) implies (#[trigger] decl_views_have(index@[k], y)
                                <==> exists|j: int|
                                0 <= j < post.len() && post[j].kind == DeclarationKind::Lockfile
                                    && dep_valid(post[j]) && post[j].package@ == k
                                    && dep_decl(post[j]) == y) by {
                            if k == kv {
                                if decl_views_have(decl_views(seq![loc]), y) {
                                    let q = choose|q: int| 0 <= q < 1 && decl_views(seq![loc])[q] == y;
                                    assert(post[i as int].kind == DeclarationKind::Lockfile);
                                }
                                if y == loc@ {
                                    assert(decl_views(seq![loc])[0] == y);
                                }
                                if exists|j: int|
                                    0 <= j < post.len() && post[j].kind == DeclarationKind::Lockfile
                                        && dep_valid(post[j]) && post[j].package@ == k
                                        && dep_decl(post[j]) == y {
                                    let j = choose|j: int|
                                        0 <= j < post.len() && post[j].kind
                                            == DeclarationKind::Lockfile && dep_valid(post[j])
                                            && post[j].package@ == k && dep_decl(
                                            post[j],
                                        ) == y;
                                    if j < i {
                                        assert(post[j] == pre[j]);
                                        assert(before.contains_key(k));
                                    } else {
                                        assert(decl_views(seq![loc])[0] == y);
                                    }
                                }
                                if before.contains_key(k) && decl_views_have(before[k], y) {
                                    let j = choose|j: int|
                                        0 <= j < pre.len() && pre[j].kind
                                            == DeclarationKind::Lockfile && dep_valid(pre[j])
                                            && pre[j].package@ == k && dep_decl(
                                            pre[j],
                                        ) == y;
                                    assert(post[j] == pre[j]);
                                }
                            } else {
                                assert(before.contains_key(k));
                                if exists|j: int|
                                    0 <= j < post.len() && post[j].kind == DeclarationKind::Lockfile
                                        && dep_valid(post[j]) && post[j].package@ == k
                                        && dep_decl(post[j]) == y {
                                    let j = choose|j: int|
                                        0 <= j < post.len() && post[j].kind
                                            == DeclarationKind::Lockfile && dep_valid(post[j])
                                            && post[j].package@ == k && dep_decl(
                                            post[j],
                                        ) == y;
                                    assert(j != i);
                                    assert(post[j] == pre[j]);
                                }
                                if decl_views_have(before[k], y) {
                                    let j = choose|j: int|
                                        0 <= j < pre.len() && pre[j].kind
                                            == DeclarationKind::Lockfile && dep_valid(pre[j])
                                            && pre[j].package@ == k && dep_decl(
                                            pre[j],
                                        ) == y;
                                    assert(post[j] == pre[j]);
                                }
                            }
                        }
                    }
                },
                None => {
                    proof {
                        lemma_lock_index_unchanged(index@, parsed@, i as int);
                    }
                },
            }
        } else {
            proof {
                lemma_lock_index_unchanged(index@, parsed@, i as int);
            }
        }
        i = i + 1;
    }
    proof {
        assert(parsed@.take(parsed.len() as int) =~= parsed@);
    }
    index
}

/// A dependency that adds nothing to the lock map leaves it unchanged.
proof fn lemma_lock_index_unchanged(m: Map<PackageView, Seq<DeclView>>, parsed: Seq<ParsedDependency>, i: int)
    requires
        0 <= i < parsed.len(),
        lock_index_spec(m, parsed.take(i)),
        !(parsed[i].kind == DeclarationKind::Lockfile && dep_valid(parsed[i])),
    ensures
        lock_index_spec(m, parsed.take(i + 1)),
{
    let pre = parsed.take(i);
    let post = parsed.take(i + 1);
    assert forall|j: int| 0 <= j < i implies post[j] == pre[j] by {}
    assert(post[i] == parsed[i]);
    assert forall|k: PackageView|
        #[trigger] m.contains_key(k) <==> exists|j: int|
            0 <= j < post.len() && post[j].kind == DeclarationKind::Lockfile && dep_valid(post[j])
                && post[j].package@ == k by {
        if exists|j: int|
            0 <= j < post.len() && post[j].kind == DeclarationKind::Lockfile && dep_valid(post[j])
                && post[j].package@ == k {
            let j = choose|j: int|
                0 <= j < post.len() && post[j].kind == DeclarationKind::Lockfile && dep_valid(
                    post[j],
                ) && post[j].package@ == k;
            assert(post[j] == pre[j]);
        }
        if m.contains_key(k) {
            let j = choose|j: int|
                0 <= j < pre.len() && pre[j].kind == DeclarationKind::Lockfile && dep_valid(pre[j])
                    && pre[j].package@ == k;
            assert(post[j] == pre[j]);
        }
    }
    assert forall|k: PackageView, y: DeclView|
        m.contains_key(k) implies (#[trigger] decl_views_have(m[k], y) <==> exists|j: int|
            0 <= j < post.len() && post[j].kind == DeclarationKind::Lockfile && dep_valid(post[j])
                && post[j].package@ == k && dep_decl(post[j]) == y) by {
        if exists|j: int|
            0 <= j < post.len() && post[j].kind == DeclarationKind::Lockfile && dep_valid(post[j])
                && post[j].package@ == k && dep_decl(post[j]) == y {
            let j = choose|j: int|
                0 <= j < post.len() && post[j].kind == DeclarationKind::Lockfile && dep_valid(
                    post[j],
                ) && post[j].package@ == k && dep_decl(post[j]) == y;
            assert(post[j] == pre[j]);
        }
        if decl_views_have(m[k], y) {
            let j = choose|j: int|
                0 <= j < pre.len() && pre[j].kind == DeclarationKind::Lockfile && dep_valid(pre[j])
                    && pre[j].package@ == k && dep_decl(pre[j]) == y;
            assert(post[j] == pre[j]);
        }
    }
}

/// Copy of a list of declarations.
pub fn copy_decls(v: &Vec<PackageDeclarationLocation>) -> (r: Vec<PackageDeclarationLocation>)
    ensures
        decl_views(r@) == decl_views(v@),
{
    let mut out: Vec<PackageDeclarationLocation> = Vec::new();
    let mut i: usize = 0;
    while i < v.len()
        invariant
            i <= v.len(),
            decl_views(out@) == decl_views(v@.take(i as int)),
        decreases v.len() - i,
    {
        let ghost before = out@;
        out.push(v[i].duplicate());
        proof {
            crate::declmap::lemma_decl_views_push(before, out@.last());
            assert(out@ == before.push(out@.last()));
            assert(v@.take(i + 1) =~= v@.take(i as int).push(v@[i as int]));
            crate::declmap::lemma_decl_views_push(v@.take(i as int), v@[i as int]);
        }
        i = i + 1;
    }
    assert(v@.take(v.len() as int) =~= v@);
    out
}

/// `y` is a manifest declaration (under the package's merge key) or a lock
/// declaration of the package.
pub open spec fn attached_have(
    index: Map<MergeKeyView, Seq<DeclView>>,
    lock: Map<PackageView, Seq<DeclView>>,
    p: PackageView,
    y: DeclView,
) -> bool {
    ||| (index.contains_key(merge_key_of(p)) && decl_views_have(index[merge_key_of(p)], y))
    ||| (lock.contains_key(p) && decl_views_have(lock[p], y))
}

/// Attach manifest and lock declarations for one resolved package (sorted,
/// duplicates dropped).
pub fn declarations_for_resolved_package(
    resolved: &Package,
    manifest_index: &DeclMap<MergeKey>,
    lock_declarations: &DeclMap<Package>,
) -> (r: Vec<PackageDeclarationLocation>)
    ensures
        resolved_decls_spec(decl_views(r@), manifest_index@, lock_declarations@, resolved@),
{
    let key = manifest_merge_key(resolved);
    let mut decls: Vec<PackageDeclarationLocation> = match manifest_index.get(&key) {
        Some(m) => copy_decls(m),
        None => Vec::new(),
    };
    let mut lock: Vec<PackageDeclarationLocation> = match lock_declarations.get(resolved) {
        Some(l) => copy_decls(l),
        None => Vec::new(),
    };
    let ghost a = decls@;
    let ghost b = lock@;
    decls.append(&mut lock);
    let ghost unsorted = decls@;
    dedupe_sort_declarations(&mut decls);
    proof {
        lemma_views_of_sorted(decls@);
        assert(decl_views(unsorted) =~= decl_views(a) + decl_views(b));
        assert forall|y: DeclView|
            #[trigger] decl_views_have(decl_views(decls@), y) <==> attached_have(
                manifest_index@,
                lock_declarations@,
                resolved@,
                y,
            ) by {
            lemma_views_have(decls@, y);
            lemma_views_have(unsorted, y);
            lemma_concat_have(decl_views(a), decl_views(b), y);
        }
    }
    decls
}

/// Build manifest declarations keyed by resolved package (a package gets the
/// declarations indexed under its merge key, whatever its pinned version).
pub fn manifest_declarations_for_packages(parsed: &[ParsedDependency], packages: &[Package]) -> (r:
    DeclMap<Package>)
    ensures
        manifest_by_package_spec(r@, parsed@, packages@),
{
    let index = index_manifest_declarations(parsed);
    let mut out: DeclMap<Package> = DeclMap::new();
    let mut i: usize = 0;
    while i < packages.len()
        invariant
            i <= packages.len(),
            manifest_index_spec(index@, parsed@),
            forall|p: PackageView|
                #[trigger] out@.contains_key(p) <==> (exists|k: int| 0 <= k < i && packages@[k]@ == p)
                    && index@.contains_key(merge_key_of(p)),
            forall|p: PackageView| #[trigger] out@.contains_key(p) ==> out@[p] == index@[merge_key_of(p)],
        decreases packages.len() - i,
    {
        let key = manifest_merge_key(&packages[i]);
        match index.get(&key) {
            Some(d) => {
                let copy = copy_decls(d);
                out.insert(packages[i].duplicate(), copy);
            },
            None => {},
        }
        proof {
            assert forall|p: PackageView|
                #[trigger] out@.contains_key(p) <==> (exists|k: int| 0 <= k < i + 1 && packages@[k]@ == p)
                    && index@.contains_key(merge_key_of(p)) by {
                if p == packages@[i as int]@ {
                }
            }
        }
        i = i + 1;
    }
    proof {
        assert forall|p: PackageView|
            #[trigger] out@.contains_key(p) <==> (exists|k: int|
                0 <= k < packages.len() && packages@[k]@ == p) && (exists|j: int|
                0 <= j < parsed.len() && parsed@[j].kind == DeclarationKind::Manifest && dep_valid(
                    parsed@[j],
                ) && merge_key_of(parsed@[j].package@) == merge_key_of(p)) by {
            assert(index@.contains_key(merge_key_of(p)) <==> exists|j: int|
                0 <= j < parsed@.len() && parsed@[j].kind == DeclarationKind::Manifest && dep_valid(
                    parsed@[j],
                ) && merge_key_of(parsed@[j].package@) == merge_key_of(p));
        }
    }
    out
}

/// Build the per-package declaration map for a resolved package list:
/// packages without any declaration are left out.
pub fn build_package_declarations(
    packages: &[Package],
    manifest_index: &DeclMap<MergeKey>,
    lock_declarations: &DeclMap<Package>,
) -> (r: DeclMap<Package>)
    ensures
        built_decls_spec(r@, manifest_index@, lock_declarations@, packages@),
{
    let mut out: DeclMap<Package> = DeclMap::new();
    let mut i: usize = 0;
    while i < packages.len()
        invariant
            i <= packages.len(),
            forall|p: PackageView|
                #[trigger] out@.contains_key(p) <==> (exists|k: int| 0 <= k < i && packages@[k]@ == p)
                    && exists|y: DeclView| attached_have(manifest_index@, lock_declarations@, p, y),
            forall|p: PackageView| #[trigger] out@.contains_key(p) ==> decl_views_sorted(out@[p]),
            forall|p: PackageView, y: DeclView|
                out@.contains_key(p) ==> (#[trigger] decl_views_have(out@[p], y) <==> attached_have(
                    manifest_index@,
                    lock_declarations@,
                    p,
                    y,
                )),
        decreases packages.len() - i,
    {
        let decls = declarations_for_resolved_package(&packages[i], manifest_index, lock_declarations);
        let ghost pv = packages@[i as int]@;
        proof {
            if decls.len() > 0 {
                assert(decl_views(decls@)[0] == decls@[0]@);
                assert(decl_views_have(decl_views(decls@), decls@[0]@));
            } else {
                assert forall|y: DeclView| !attached_have(manifest_index@, lock_declarations@, pv, y) by {
                    assert(!decl_views_have(decl_views(decls@), y));
                }
            }
        }
        if decls.len() > 0 {
            out.insert(packages[i].duplicate(), decls);
        }
        proof {
            assert forall|p: PackageView|
                #[trigger] out@.contains_key(p) <==> (exists|k: int| 0 <= k < i + 1 && packages@[k]@ == p)
                    && exists|y: DeclView| attached_have(manifest_index@, lock_declarations@, p, y) by {
                if p == pv {
                }
            }
        }
        i = i + 1;
    }
    out
}

/// Merge declaration maps from multiple resolution steps: for every key of
/// `source` the lists are united (sorted, duplicates dropped); other keys
/// keep their declarations.
pub fn merge_declaration_maps(target: &mut DeclMap<Package>, source: DeclMap<Package>)
    ensures
        final(target)@.dom() == old(target)@.dom().union(source@.dom()),
        forall|p: PackageView|
            #[trigger] final(target)@.contains_key(p) && !source@.contains_key(p) ==> final(target)@[p]
                == old(target)@[p],
        forall|p: PackageView| #[trigger] source@.contains_key(p) ==> decl_views_sorted(final(target)@[p]),
        forall|p: PackageView, y: DeclView|
            source@.contains_key(p) ==> (#[trigger] decl_views_have(final(target)@[p], y) <==> ((old(
                target,
            )@.contains_key(p) && decl_views_have(old(target)@[p], y)) || decl_views_have(
                source@[p],
                y,
            ))),
{
    let ghost src = source@;
    let ghost orig = target@;
    let entries = source.into_entries();
    proof {
        lemma_entries_map(entries@);
    }
    let ghost es = entries@;
    let mut rest = entries;
    let n = rest.len();
    let mut i: usize = 0;
    while i < n
        invariant
            n == es.len(),
            i <= n,
            rest@ == es.skip(i as int),
            crate::declmap::keys_distinct(es),
            crate::declmap::entries_map(es) == src,
            target@.dom() == orig.dom().union(Set::new(|k: PackageView| exists|j: int| 0 <= j < i && es[j].0@ == k)),
            forall|p: PackageView|
                #[trigger] target@.contains_key(p) && !(exists|j: int| 0 <= j < i && es[j].0@ == p) ==> target@[p] == orig[p],
            forall|j: int| 0 <= j < i ==> decl_views_sorted(#[trigger] target@[es[j].0@]),
            forall|j: int, y: DeclView|
                0 <= j < i ==> (#[trigger] decl_views_have(target@[es[j].0@], y) <==> ((orig.contains_key(
                    es[j].0@,
                ) && decl_views_have(orig[es[j].0@], y)) || decl_views_have(decl_views(es[j].1@), y))),
        decreases n - i,
    {
        let (pkg, decls) = rest.remove(0);
        assert(rest@ =~= es.skip(i + 1));
        assert(pkg@ == es[i as int].0@ && decls@ == es[i as int].1@);
        let ghost before = target@;
        let ghost dv = decl_views(decls@);
        target.merge_into(pkg, decls);
        proof {
            let k = es[i as int].0@;
            assert forall|j: int| 0 <= j < i implies es[j].0@ != k by {}
            assert(target@.dom() =~= orig.dom().union(Set::new(|q: PackageView| exists|j: int| 0 <= j < i + 1 && es[j].0@ == q))) by {
                assert forall|q: PackageView| target@.dom().contains(q) <==> orig.dom().union(Set::new(|q: PackageView| exists|j: int| 0 <= j < i + 1 && es[j].0@ == q)).contains(q) by {
                    if q == k {
                        assert(es[i as int].0@ == q);
                    }
                }
            }
            assert forall|j: int| 0 <= j < i + 1 implies decl_views_sorted(#[trigger] target@[es[j].0@]) by {
                if j < i {
                    assert(before.contains_key(es[j].0@));
                }
            }
            assert forall|j: int, y: DeclView|
                0 <= j < i + 1 implies (#[trigger] decl_views_have(target@[es[j].0@], y) <==> ((orig.contains_key(
                    es[j].0@,
                ) && decl_views_have(orig[es[j].0@], y)) || decl_views_have(decl_views(es[j].1@), y))) by {
                if j < i {
                    assert(before.contains_key(es[j].0@));
                    assert(es[j].0@ != k);
                    assert(target@[es[j].0@] == before[es[j].0@]);
                    assert(decl_views_have(before[es[j].0@], y) <==> ((orig.contains_key(
                        es[j].0@,
                    ) && decl_views_have(orig[es[j].0@], y)) || decl_views_have(decl_views(es[j].1@), y)));
                } else {
                    assert(es[j].0@ == k);
                    assert(decl_views_have(target@[k], y) <==> ((before.contains_key(k)
                        && decl_views_have(before[k], y)) || decl_views_have(dv, y)));
                    assert(!(exists|m: int| 0 <= m < i && es[m].0@ == k));
                    assert(!Set::new(|q: PackageView| exists|m: int| 0 <= m < i && es[m].0@ == q).contains(k));
                    assert(before.contains_key(k) == orig.contains_key(k));
                    if before.contains_key(k) {
                        assert(before[k] == orig[k]);
                    }
                }
            }
        }
        i = i + 1;
    }
    proof {
        assert(target@.dom() =~= orig.dom().union(src.dom())) by {
            assert forall|q: PackageView| src.dom().contains(q) <==> (exists|j: int| 0 <= j < n && es[j].0@ == q) by {
                if src.dom().contains(q) {
                }
                if exists|j: int| 0 <= j < n && es[j].0@ == q {
                    let j = choose|j: int| 0 <= j < n && es[j].0@ == q;
                    assert(src.contains_key(es[j].0@));
                }
            }
        }
        assert forall|p: PackageView| #[trigger] src.contains_key(p) implies exists|j: int| 0 <= j < n && es[j].0@ == p && src[p] == decl_views(es[j].1@) by {
            let j = choose|j: int| 0 <= j < es.len() && es[j].0@ == p;
            assert(src.contains_key(es[j].0@));
        }
    }
}

} // verus!

verus! {

/// A declaration `y` belongs to package `p`: a valid manifest line of
/// `parsed` under the same merge key, or a lock declaration of `p` itself.
pub open spec fn parsed_attached_have(
    parsed: Seq<ParsedDependency>,
    lock: Map<PackageView, Seq<DeclView>>,
    p: PackageView,
    y: DeclView,
) -> bool {
    ||| exists|i: int|
        0 <= i < parsed.len() && parsed[i].kind == DeclarationKind::Manifest && dep_valid(parsed[i])
            && merge_key_of(parsed[i].package@) == merge_key_of(p) && dep_decl(parsed[i]) == y
    ||| (lock.contains_key(p) && decl_views_have(lock[p], y))
}

/// Merge the manifest declarations of `graph` with lock declarations for the
/// resolved packages; packages without any declaration are left out.
pub fn resolve_declarations_for_packages(
    packages: &[Package],
    graph: &DependencyGraph,
    lock_declarations: &DeclMap<Package>,
) -> (r: DeclMap<Package>)
    ensures
        forall|p: PackageView|
            #[trigger] r@.contains_key(p) <==> (exists|i: int| 0 <= i < packages.len() && packages@[i]@ == p)
                && exists|y: DeclView| parsed_attached_have(graph.parsed_dependencies@, lock_declarations@, p, y),
        forall|p: PackageView| #[trigger] r@.contains_key(p) ==> decl_views_sorted(r@[p]),
        forall|p: PackageView, y: DeclView|
            r@.contains_key(p) ==> (#[trigger] decl_views_have(r@[p], y) <==> parsed_attached_have(
                graph.parsed_dependencies@,
                lock_declarations@,
                p,
                y,
            )),
{
    let manifest_index = index_manifest_declarations(&graph.parsed_dependencies);
    let ghost parsed = graph.parsed_dependencies@;
    proof {
        assert forall|p: PackageView, y: DeclView|
            #[trigger] attached_have(manifest_index@, lock_declarations@, p, y) == parsed_attached_have(
                parsed,
                lock_declarations@,
                p,
                y,
            ) by {
            let k = merge_key_of(p);
            if manifest_index@.contains_key(k) {
                assert(decl_views_have(manifest_index@[k], y) <==> exists|i: int|
                    0 <= i < parsed.len() && parsed[i].kind == DeclarationKind::Manifest && dep_valid(
                        parsed[i],
                    ) && merge_key_of(parsed[i].package@) == k && dep_decl(parsed[i]) == y);
            } else {
                assert(!exists|i: int|
                    0 <= i < parsed.len() && parsed[i].kind == DeclarationKind::Manifest && dep_valid(
                        parsed[i],
                    ) && merge_key_of(parsed[i].package@) == k);
            }
        }
    }
    let r = build_package_declarations(packages, &manifest_index, lock_declarations);
    proof {
        assert forall|p: PackageView|
            #[trigger] r@.contains_key(p) <==> (exists|i: int| 0 <= i < packages.len() && packages@[i]@ == p)
                && exists|y: DeclView| parsed_attached_have(parsed, lock_declarations@, p, y) by {
            if exists|y: DeclView| parsed_attached_have(parsed, lock_declarations@, p, y) {
                let y = choose|y: DeclView| parsed_attached_have(parsed, lock_declarations@, p, y);
                assert(attached_have(manifest_index@, lock_declarations@, p, y));
            }
            if exists|y: DeclView| attached_have(manifest_index@, lock_declarations@, p, y) {
                let y = choose|y: DeclView| attached_have(manifest_index@, lock_declarations@, p, y);
                assert(parsed_attached_have(parsed, lock_declarations@, p, y));
            }
        }
    }
    r
}

/// What `manifest_declarations_for_packages` gives: the packages that have
/// manifest declarations under their merge key, each with those
/// declarations, sorted.
pub open spec fn manifest_by_package_spec(
    m: Map<PackageView, Seq<DeclView>>,
    parsed: Seq<ParsedDependency>,
    packages: Seq<Package>,
) -> bool {
    &&& forall|p: PackageView|
        #[trigger] m.contains_key(p) <==> (exists|i: int| 0 <= i < packages.len() && packages[i]@ == p) && (exists|
            j: int,
        |
            0 <= j < parsed.len() && parsed[j].kind == DeclarationKind::Manifest && dep_valid(parsed[j])
                && merge_key_of(parsed[j].package@) == merge_key_of(p))
    &&& forall|p: PackageView| #[trigger] m.contains_key(p) ==> decl_views_sorted(m[p])
    &&& forall|p: PackageView, y: DeclView|
        m.contains_key(p) ==> (#[trigger] decl_views_have(m[p], y) <==> exists|j: int|
            0 <= j < parsed.len() && parsed[j].kind == DeclarationKind::Manifest && dep_valid(parsed[j])
                && merge_key_of(parsed[j].package@) == merge_key_of(p) && dep_decl(parsed[j]) == y)
}

proof fn lemma_have_is_contains(s: Seq<DeclView>, y: DeclView)
    ensures
        decl_views_have(s, y) == s.contains(y),
{
    if s.contains(y) {
        let i = choose|i: int| 0 <= i < s.len() && s[i] == y;
        assert(decl_views_have(s, y));
    }
}

/// Manifest declarations per package are the manifest index entry of the
/// package's merge key: a package of `packages` has an entry exactly when
/// the index has its merge key (version ignored, name compared lower-cased,
/// ecosystem equal), and then the two lists are the same.
pub proof fn lemma_manifest_decls_match_index(
    index: Map<MergeKeyView, Seq<DeclView>>,
    by_package: Map<PackageView, Seq<DeclView>>,
    parsed: Seq<ParsedDependency>,
    packages: Seq<Package>,
    p: PackageView,
)
    requires
        manifest_index_spec(index, parsed),
        manifest_by_package_spec(by_package, parsed, packages),
    ensures
        by_package.contains_key(p) <==> (exists|i: int| 0 <= i < packages.len() && packages[i]@ == p)
            && index.contains_key(merge_key_of(p)),
        by_package.contains_key(p) ==> by_package[p] == index[merge_key_of(p)],
{
    let k = merge_key_of(p);
    assert(by_package.contains_key(p) <==> (exists|i: int| 0 <= i < packages.len() && packages[i]@ == p)
        && index.contains_key(k));
    if by_package.contains_key(p) {
        let a = by_package[p];
        let b = index[k];
        assert forall|y: DeclView| a.contains(y) <==> b.contains(y) by {
            lemma_have_is_contains(a, y);
            lemma_have_is_contains(b, y);
            assert(decl_views_have(a, y) == decl_views_have(b, y));
        }
        crate::declmap::lemma_sorted_views_unique(a, b);
    }
}

/// What `declarations_for_resolved_package` gives for package `p`: the
/// attached manifest and lock declarations, sorted.
pub open spec fn resolved_decls_spec(
    v: Seq<DeclView>,
    index: Map<MergeKeyView, Seq<DeclView>>,
    lock: Map<PackageView, Seq<DeclView>>,
    p: PackageView,
) -> bool {
    &&& decl_views_sorted(v)
    &&& forall|y: DeclView| #[trigger] decl_views_have(v, y) <==> attached_have(index, lock, p, y)
}

/// What `build_package_declarations` gives: the packages with some attached
/// declaration, each with its attached declarations, sorted.
pub open spec fn built_decls_spec(
    m: Map<PackageView, Seq<DeclView>>,
    index: Map<MergeKeyView, Seq<DeclView>>,
    lock: Map<PackageView, Seq<DeclView>>,
    packages: Seq<Package>,
) -> bool {
    &&& forall|p: PackageView|
        #[trigger] m.contains_key(p) <==> (exists|i: int| 0 <= i < packages.len() && packages[i]@ == p)
            && exists|y: DeclView| attached_have(index, lock, p, y)
    &&& forall|p: PackageView| #[trigger] m.contains_key(p) ==> decl_views_sorted(m[p])
    &&& forall|p: PackageView, y: DeclView|
        m.contains_key(p) ==> (#[trigger] decl_views_have(m[p], y) <==> attached_have(index, lock, p, y))
}

/// The declarations built per package are what the per-package function
/// gives: a package has an entry exactly when it is one of `packages` and
/// that list is not empty, and then the entry is that list.
pub proof fn lemma_built_decls_match_per_package(
    built: Map<PackageView, Seq<DeclView>>,
    index: Map<MergeKeyView, Seq<DeclView>>,
    lock: Map<PackageView, Seq<DeclView>>,
    packages: Seq<Package>,
    p: PackageView,
    per_package: Seq<DeclView>,
)
    requires
        built_decls_spec(built, index, lock, packages),
        resolved_decls_spec(per_package, index, lock, p),
    ensures
        built.contains_key(p) <==> (exists|i: int| 0 <= i < packages.len() && packages[i]@ == p)
            && per_package.len() > 0,
        built.contains_key(p) ==> built[p] == per_package,
{
    if per_package.len() > 0 {
        assert(decl_views_have(per_package, per_package[0]));
        assert(attached_have(index, lock, p, per_package[0]));
    }
    if exists|y: DeclView| attached_have(index, lock, p, y) {
        let y = choose|y: DeclView| attached_have(index, lock, p, y);
        assert(decl_views_have(per_package, y));
    }
    if built.contains_key(p) {
        let a = built[p];
        assert forall|y: DeclView| a.contains(y) <==> per_package.contains(y) by {
            lemma_have_is_contains(a, y);
            lemma_have_is_contains(per_package, y);
            assert(decl_views_have(a, y) == attached_have(index, lock, p, y));
            assert(decl_views_have(per_package, y) == attached_have(index, lock, p, y));
        }
        crate::declmap::lemma_sorted_views_unique(a, per_package);
    }
}

} // verus!
