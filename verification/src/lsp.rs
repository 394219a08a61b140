//! Editor integration vocabulary: the scan service boundary, diagnostic and
//! apply payloads, and which saved files trigger a rescan.
use vstd::prelude::*;

use crate::json::{
    json_get, json_get_str, json_member, json_str, json_str_parsed, json_string, json_views, lemma_get_str_view, member_views,
    parse_json_str, push_item, push_member, Json, JsonValue,
};
use crate::matching::string_views;
use crate::order::{compare_str, lemma_seq_lt_asymmetric, lemma_seq_lt_irreflexive, lemma_seq_lt_total, lemma_seq_lt_transitive, seq_lt, Order3};
use crate::paths::{file_name_of, file_name_str};
use crate::text::{chars_of, ends_with, ends_with_vec, starts_with, starts_with_vec, str_eq};

verus! {

pub const SERVER_NAME: &'static str = "vlz";

pub const DIAGNOSTIC_SOURCE: &'static str = "vlz";

pub const SHOW_UPGRADE_PLAN_COMMAND: &'static str = "vlz.showUpgradePlan";

pub const SHOW_FIX_DRY_RUN_COMMAND: &'static str = "vlz.showFixDryRun";

pub const SHOW_FIX_DRY_RUN_TITLE: &'static str = "Show vlz fix --dry-run";

pub const FIX_DRY_RUN_CLI: &'static str = "vlz fix --dry-run";

pub const APPLY_UPGRADE_COMMAND: &'static str = "vlz.applyUpgrade";

pub const APPLY_UPGRADE_TITLE: &'static str = "Apply upgrade";

/// Largest message accepted from the client, in bytes.
pub const MAX_MESSAGE_BYTES: usize = 1048576;

/// Declaration path carried in apply-upgrade arguments.
#[derive(Debug, Clone, PartialEq, Eq)]
pub struct ApplyDeclaration {
    pub path: String,
    pub start_line: u32,
    pub kind: String,
}

/// Apply payload shared by diagnostics and command execution.
#[derive(Debug, Clone, PartialEq, Eq)]
pub struct ApplyUpgradeRequest {
    pub package_name: String,
    pub target_version: String,
    pub apply_strategy: String,
    pub dependency_kind: String,
    pub declarations: Vec<ApplyDeclaration>,
}

/// A vulnerability diagnostic emitted by the scan adapter.
#[derive(Debug, Clone)]
pub struct ScanDiagnostic {
    pub uri: String,
    pub line: u32,
    pub code: String,
    pub message: String,
    /// When set, enables apply-upgrade code actions under folder trust.
    pub apply: Option<ApplyUpgradeRequest>,
}

/// A diagnostic-ready scan result.
#[derive(Debug, Clone)]
pub struct ScanResult {
    pub diagnostics: Vec<ScanDiagnostic>,
}

impl Default for ScanResult {
    fn default() -> (r: Self)
        ensures
            r.diagnostics@.len() == 0,
    {
        ScanResult { diagnostics: Vec::new() }
    }
}

/// Scan and apply boundary supplied by the application.
pub trait ScanService {
    /// Scan one workspace root without executing dependency code; `changed`
    /// is the saved path on a save notification.
    fn scan(&self, root: Option<&str>, changed: Option<&str>) -> ScanResult;

    /// Apply one upgrade plan; by default apply is refused.
    fn apply_upgrade(&self, root: Option<&str>, request: &ApplyUpgradeRequest) -> (r: Result<(), String>)
        default_ensures
            r matches Err(m) && m@ == "Apply upgrade is not available"@,
    {
        Err(String::from_str("Apply upgrade is not available"))
    }
}

/// Basenames that trigger a rescan on save.
pub open spec fn dependency_save_basenames_spec() -> Seq<Seq<char>> {
    seq![
        "Cargo.toml"@,
        "Cargo.lock"@,
        "package.json"@,
        "package-lock.json"@,
        "npm-shrinkwrap.json"@,
        "yarn.lock"@,
        "pnpm-lock.yaml"@,
        "bun.lock"@,
        "pyproject.toml"@,
        "requirements.txt"@,
        "Pipfile"@,
        "Pipfile.lock"@,
        "poetry.lock"@,
        "uv.lock"@,
        "pylock.toml"@,
        "setup.cfg"@,
        "setup.py"@,
        "go.mod"@,
        "go.sum"@,
        "pom.xml"@,
        "build.gradle"@,
        "build.gradle.kts"@,
        "gradle.lockfile"@,
        "Gemfile"@,
        "Gemfile.lock"@,
        "gems.rb"@,
        "gems.locked"@,
    ]
}

/// Basenames that trigger a rescan on save.
pub fn dependency_save_basenames() -> (r: Vec<&'static str>)
    ensures
        r@.map_values(|s: &str| s@) == dependency_save_basenames_spec(),
{
    let mut v: Vec<&'static str> = Vec::new();
    v.push("Cargo.toml");
    v.push("Cargo.lock");
    v.push("package.json");
    v.push("package-lock.json");
    v.push("npm-shrinkwrap.json");
    v.push("yarn.lock");
    v.push("pnpm-lock.yaml");
    v.push("bun.lock");
    v.push("pyproject.toml");
    v.push("requirements.txt");
    v.push("Pipfile");
    v.push("Pipfile.lock");
    v.push("poetry.lock");
    v.push("uv.lock");
    v.push("pylock.toml");
    v.push("setup.cfg");
    v.push("setup.py");
    v.push("go.mod");
    v.push("go.sum");
    v.push("pom.xml");
    v.push("build.gradle");
    v.push("build.gradle.kts");
    v.push("gradle.lockfile");
    v.push("Gemfile");
    v.push("Gemfile.lock");
    v.push("gems.rb");
    v.push("gems.locked");
    assert(v@.map_values(|s: &str| s@) =~= dependency_save_basenames_spec());
    v
}

/// A file name that marks a dependency file: a known basename, an SBOM
/// (`.cdx.json`, `.spdx.json`), a `pylock.*` lock, or a `.gemspec`.
pub open spec fn dependency_file_name(n: Seq<char>) -> bool {
    ||| dependency_save_basenames_spec().contains(n)
    ||| ends_with(n, ".cdx.json"@)
    ||| ends_with(n, ".spdx.json"@)
    ||| starts_with(n, "pylock."@)
    ||| ends_with(n, ".gemspec"@)
}

/// True when a saved path should trigger a dependency rescan.
pub fn is_dependency_save_path(path: &str) -> (r: bool)
    ensures
        r == (file_name_of(path@) matches Some(n) && dependency_file_name(n)),
{
    let name = match file_name_str(path) {
        None => {
            return false;
        },
        Some(n) => n,
    };
    let names = dependency_save_basenames();
    let ghost spec_names = names@.map_values(|s: &str| s@);
    let mut i: usize = 0;
    while i < names.len()
        invariant
            i <= names.len(),
            spec_names == names@.map_values(|s: &str| s@),
            spec_names == dependency_save_basenames_spec(),
            file_name_of(path@) == Some(name@),
            forall|k: int| 0 <= k < i ==> spec_names[k] != name@,
        decreases names.len() - i,
    {
        if str_eq(names[i], name.as_str()) {
            assert(spec_names[i as int] == name@);
            assert(dependency_save_basenames_spec().contains(name@));
            return true;
        }
        i = i + 1;
    }
    assert(!dependency_save_basenames_spec().contains(name@)) by {
        if dependency_save_basenames_spec().contains(name@) {
            let k = choose|k: int| 0 <= k < spec_names.len() && spec_names[k] == name@;
        }
    }
    let nv = chars_of(name.as_str());
    ends_with_vec(nv.as_slice(), chars_of(".cdx.json").as_slice()) || ends_with_vec(
        nv.as_slice(),
        chars_of(".spdx.json").as_slice(),
    ) || starts_with_vec(nv.as_slice(), chars_of("pylock.").as_slice()) || ends_with_vec(
        nv.as_slice(),
        chars_of(".gemspec").as_slice(),
    )
}

/// True when a saved path should trigger a rescan.
pub open spec fn triggers_rescan(path: Seq<char>) -> bool {
    (file_name_of(path) matches Some(n) && dependency_file_name(n))
}

/// Mathematical value of an [`ApplyUpgradeRequest`].
pub struct ApplyView {
    pub package_name: Seq<char>,
    pub target_version: Seq<char>,
    pub apply_strategy: Seq<char>,
    pub dependency_kind: Seq<char>,
    pub declarations: Seq<(Seq<char>, u32, Seq<char>)>,
}

impl View for ApplyUpgradeRequest {
    type V = ApplyView;

    open spec fn view(&self) -> ApplyView {
        ApplyView {
            package_name: self.package_name@,
            target_version: self.target_version@,
            apply_strategy: self.apply_strategy@,
            dependency_kind: self.dependency_kind@,
            declarations: self.declarations@.map_values(|d: ApplyDeclaration| (d.path@, d.start_line, d.kind@)),
        }
    }
}

/// Mathematical value of a [`ScanDiagnostic`].
pub struct DiagView {
    pub uri: Seq<char>,
    pub line: u32,
    pub code: Seq<char>,
    pub message: Seq<char>,
    pub apply: Option<ApplyView>,
}

impl View for ScanDiagnostic {
    type V = DiagView;

    open spec fn view(&self) -> DiagView {
        DiagView {
            uri: self.uri@,
            line: self.line,
            code: self.code@,
            message: self.message@,
            apply: match self.apply {
                Some(a) => Some(a@),
                None => None,
            },
        }
    }
}

impl View for ScanResult {
    type V = Seq<DiagView>;

    open spec fn view(&self) -> Seq<DiagView> {
        self.diagnostics@.map_values(|d: ScanDiagnostic| d@)
    }
}

impl ApplyUpgradeRequest {
    /// A copy of this request.
    pub fn duplicate(&self) -> (r: Self)
        ensures
            r@ == self@,
    {
        let mut decls: Vec<ApplyDeclaration> = Vec::new();
        let mut i: usize = 0;
        while i < self.declarations.len()
            invariant
                i <= self.declarations.len(),
                decls@.map_values(|d: ApplyDeclaration| (d.path@, d.start_line, d.kind@)) =~= self.declarations@.take(
                    i as int,
                ).map_values(|d: ApplyDeclaration| (d.path@, d.start_line, d.kind@)),
            decreases self.declarations.len() - i,
        {
            let d = &self.declarations[i];
            let ghost before = decls@;
            let nd = ApplyDeclaration {
                path: String::from_str(d.path.as_str()),
                start_line: d.start_line,
                kind: String::from_str(d.kind.as_str()),
            };
            decls.push(nd);
            assert(decls@ == before.push(nd));
            assert(decls@.map_values(|d: ApplyDeclaration| (d.path@, d.start_line, d.kind@)) =~= before.map_values(
                |d: ApplyDeclaration| (d.path@, d.start_line, d.kind@),
            ).push((nd.path@, nd.start_line, nd.kind@)));
            assert(self.declarations@.take(i + 1) =~= self.declarations@.take(i as int).push(*d));
            i = i + 1;
        }
        assert(self.declarations@.take(self.declarations.len() as int) =~= self.declarations@);
        ApplyUpgradeRequest {
            package_name: String::from_str(self.package_name.as_str()),
            target_version: String::from_str(self.target_version.as_str()),
            apply_strategy: String::from_str(self.apply_strategy.as_str()),
            dependency_kind: String::from_str(self.dependency_kind.as_str()),
            declarations: decls,
        }
    }
}

impl ScanResult {
    /// A copy of this result.
    pub fn duplicate(&self) -> (r: Self)
        ensures
            r@ == self@,
    {
        let mut out: Vec<ScanDiagnostic> = Vec::new();
        let mut i: usize = 0;
        while i < self.diagnostics.len()
            invariant
                i <= self.diagnostics.len(),
                out@.map_values(|d: ScanDiagnostic| d@) =~= self.diagnostics@.take(i as int).map_values(
                    |d: ScanDiagnostic| d@,
                ),
            decreases self.diagnostics.len() - i,
        {
            let d = &self.diagnostics[i];
            let apply = match &d.apply {
                Some(a) => Some(a.duplicate()),
                None => None,
            };
            let ghost before = out@;
            let nd = ScanDiagnostic {
                uri: String::from_str(d.uri.as_str()),
                line: d.line,
                code: String::from_str(d.code.as_str()),
                message: String::from_str(d.message.as_str()),
                apply,
            };
            out.push(nd);
            assert(out@ == before.push(nd));
            assert(out@.map_values(|d: ScanDiagnostic| d@) =~= before.map_values(|d: ScanDiagnostic| d@).push(nd@));
            assert(self.diagnostics@.take(i + 1) =~= self.diagnostics@.take(i as int).push(*d));
            i = i + 1;
        }
        assert(self.diagnostics@.take(self.diagnostics.len() as int) =~= self.diagnostics@);
        ScanResult { diagnostics: out }
    }
}

/// Commands the server offers: the upgrade plan and the fix dry run, and
/// applying an upgrade when the folder is trusted.
pub fn advertised_commands(folder_trust: bool) -> (r: Vec<String>)
    ensures
        string_views(r@) == if folder_trust {
            seq![SHOW_UPGRADE_PLAN_COMMAND@, SHOW_FIX_DRY_RUN_COMMAND@, APPLY_UPGRADE_COMMAND@]
        } else {
            seq![SHOW_UPGRADE_PLAN_COMMAND@, SHOW_FIX_DRY_RUN_COMMAND@]
        },
{
    let mut v: Vec<String> = Vec::new();
    v.push(String::from_str(SHOW_UPGRADE_PLAN_COMMAND));
    v.push(String::from_str(SHOW_FIX_DRY_RUN_COMMAND));
    if folder_trust {
        v.push(String::from_str(APPLY_UPGRADE_COMMAND));
    }
    assert(string_views(v@) =~= if folder_trust {
        seq![SHOW_UPGRADE_PLAN_COMMAND@, SHOW_FIX_DRY_RUN_COMMAND@, APPLY_UPGRADE_COMMAND@]
    } else {
        seq![SHOW_UPGRADE_PLAN_COMMAND@, SHOW_FIX_DRY_RUN_COMMAND@]
    });
    v
}

/// The workspace root URI: the first workspace folder, else the root URI.
pub fn workspace_root_uri<'a>(folders: &'a [String], root_uri: Option<&'a str>) -> (r: Option<&'a str>)
    ensures
        folders@.len() > 0 ==> (r matches Some(x) && x@ == folders@[0]@),
        folders@.len() == 0 ==> r == root_uri,
{
    if folders.len() > 0 {
        Some(folders[0].as_str())
    } else {
        root_uri
    }
}

/// Strictly increasing texts (hence each once).
pub open spec fn texts_sorted(s: Seq<Seq<char>>) -> bool {
    forall|i: int, j: int| 0 <= i < j < s.len() ==> seq_lt(s[i], s[j])
}

/// Diagnostic `i` is kept for publishing.
pub open spec fn kept(diags: Seq<DiagView>, keep: Seq<bool>, i: int) -> bool {
    0 <= i < diags.len() && i < keep.len() && keep[i]
}

/// Some kept diagnostic has URI `u`.
pub open spec fn kept_uri(diags: Seq<DiagView>, keep: Seq<bool>, u: Seq<char>) -> bool {
    exists|i: int| kept(diags, keep, i) && #[trigger] diags[i].uri == u
}

/// Positions of the kept diagnostics with URI `u` among the first `n`, in
/// order.
pub open spec fn positions_for(diags: Seq<DiagView>, keep: Seq<bool>, u: Seq<char>, n: int) -> Seq<usize>
    decreases n,
{
    if n <= 0 {
        Seq::empty()
    } else {
        positions_for(diags, keep, u, n - 1) + if kept(diags, keep, n - 1) && diags[n - 1].uri == u {
            seq![(n - 1) as usize]
        } else {
            Seq::empty()
        }
    }
}

/// Insert `x` into a strictly increasing list unless present.
fn insert_sorted_unique(v: &mut Vec<String>, x: &str)
    requires
        texts_sorted(string_views(old(v)@)),
    ensures
        texts_sorted(string_views(final(v)@)),
        forall|u: Seq<char>| string_views(final(v)@).contains(u) <==> (string_views(old(v)@).contains(u) || u == x@),
{
    let ghost s = string_views(v@);
    let mut k: usize = 0;
    while k < v.len() && compare_str(v[k].as_str(), x) == Order3::Less
        invariant
            k <= v.len(),
            s == string_views(v@),
            forall|m: int| 0 <= m < k ==> seq_lt(s[m], x@),
        decreases v.len() - k,
    {
        k = k + 1;
    }
    if k < v.len() && compare_str(v[k].as_str(), x) == Order3::Equal {
        assert(s[k as int] == x@);
        assert(s.contains(x@));
        return;
    }
    proof {
        if k < v.len() {
            lemma_seq_lt_total(s[k as int], x@);
        }
    }
    v.insert(k, String::from_str(x));
    proof {
        let t = string_views(v@);
        assert(t =~= s.insert(k as int, x@));
        assert forall|i: int, j: int| 0 <= i < j < t.len() implies seq_lt(t[i], t[j]) by {
            if j < k {
            } else if j == k {
            } else if i < k {
                assert(t[j] == s[j - 1]);
                if k < s.len() {
                    assert(seq_lt(x@, s[k as int]));
                    if j - 1 > k {
                        lemma_seq_lt_transitive(x@, s[k as int], s[j - 1]);
                    }
                    lemma_seq_lt_transitive(s[i], x@, s[j - 1]);
                }
            } else if i == k {
                assert(t[j] == s[j - 1]);
                if j - 1 > k {
                    lemma_seq_lt_transitive(x@, s[k as int], s[j - 1]);
                }
            } else {
                assert(t[i] == s[i - 1] && t[j] == s[j - 1]);
            }
        }
        assert forall|u: Seq<char>| t.contains(u) <==> (s.contains(u) || u == x@) by {
            if t.contains(u) {
                let i = choose|i: int| 0 <= i < t.len() && t[i] == u;
                if i < k {
                    assert(s[i] == u);
                } else if i > k {
                    assert(s[i - 1] == u);
                }
            }
            if s.contains(u) {
                let i = choose|i: int| 0 <= i < s.len() && s[i] == u;
                if i < k {
                    assert(t[i] == u);
                } else {
                    assert(t[i + 1] == u);
                }
            }
            if u == x@ {
                assert(t[k as int] == u);
            }
        }
    }
}

/// The editor server: the scan service, the URIs that currently have
/// published diagnostics, whether the folder is trusted, and the last scan.
pub struct LspServer<S: ScanService> {
    scan_service: S,
    published_uris: Vec<String>,
    folder_trust: bool,
    last_result: ScanResult,
}

impl<S: ScanService> LspServer<S> {
    /// The published URIs are kept in increasing order, without repeats.
    #[verifier::type_invariant]
    spec fn published_in_order(self) -> bool {
        texts_sorted(string_views(self.published_uris@))
    }

    /// URIs with published diagnostics, in increasing order.
    pub closed spec fn published(&self) -> Seq<Seq<char>> {
        string_views(self.published_uris@)
    }

    /// The scan service.
    pub closed spec fn service(&self) -> S {
        self.scan_service
    }

    /// The last scan result.
    pub closed spec fn last(&self) -> Seq<DiagView> {
        self.last_result@
    }

    /// The folder is trusted.
    pub closed spec fn trusted(&self) -> bool {
        self.folder_trust
    }

    /// A server with nothing published and an empty last scan.
    pub fn new(scan_service: S, folder_trust: bool) -> (r: Self)
        ensures
            r.published().len() == 0,
            r.last().len() == 0,
            r.trusted() == folder_trust,
            r.service() == scan_service,
    {
        let published_uris: Vec<String> = Vec::new();
        assert(string_views(published_uris@) =~= Seq::<Seq<char>>::empty());
        LspServer { scan_service, published_uris, folder_trust, last_result: ScanResult::default() }
    }

    /// Apply one upgrade plan through the scan service: what its
    /// `apply_upgrade` answers for this root and request.
    pub fn apply_upgrade(&self, root: Option<&str>, request: &ApplyUpgradeRequest) -> (r: Result<(), String>)
        ensures
            call_ensures(S::apply_upgrade, (&self.service(), root, request), r),
    {
        self.scan_service.apply_upgrade(root, request)
    }

    /// The folder is trusted.
    pub fn folder_trust(&self) -> (r: bool)
        ensures
            r == self.trusted(),
    {
        self.folder_trust
    }

    /// The scan for a workspace root: the last result when the saved file
    /// is not a dependency file, else a fresh scan, which becomes the last
    /// result.
    pub fn scan_for_root(&mut self, workspace_root: Option<&str>, changed: Option<&str>) -> (r: ScanResult)
        ensures
            final(self).published() == old(self).published(),
            final(self).trusted() == old(self).trusted(),
            final(self).service() == old(self).service(),
            !(changed matches Some(p) && !triggers_rescan(p@)) ==> call_ensures(
                S::scan,
                (&old(self).service(), workspace_root, changed),
                r,
            ),
            (changed matches Some(p) && !triggers_rescan(p@)) ==> r@ == old(self).last() && final(self).last() == old(
                self,
            ).last(),
            !(changed matches Some(p) && !triggers_rescan(p@)) ==> final(self).last() == r@,
    {
        proof {
            use_type_invariant(&*self);
        }
        match changed {
            Some(path) => {
                if !is_dependency_save_path(path) {
                    return self.last_result.duplicate();
                }
            },
            None => {},
        }
        let result = self.scan_service.scan(workspace_root, changed);
        self.last_result = result.duplicate();
        result
    }

    /// Which diagnostics to publish: among the kept diagnostics
    /// (`keep[i]`), one group per URI in increasing order with the
    /// positions of its diagnostics in scan order, then the URIs that had
    /// diagnostics before and have none now (to be cleared). The URIs of the
    /// groups become the published URIs.
    pub fn publish_plan(&mut self, scan_result: &ScanResult, keep: &[bool]) -> (r: (Vec<(String, Vec<usize>)>, Vec<String>))
        ensures
            final(self).trusted() == old(self).trusted(),
            final(self).last() == old(self).last(),
            texts_sorted(final(self).published()),
            final(self).published() == r.0@.map_values(|g: (String, Vec<usize>)| g.0@),
            forall|u: Seq<char>| final(self).published().contains(u) <==> kept_uri(scan_result@, keep@, u),
            forall|g: int|
                0 <= g < r.0@.len() ==> (#[trigger] r.0@[g]).1@ == positions_for(
                    scan_result@,
                    keep@,
                    r.0@[g].0@,
                    scan_result@.len() as int,
                ),
            string_views(r.1@) == old(self).published().filter(|u: Seq<char>| !kept_uri(scan_result@, keep@, u)),
    {
        proof {
            use_type_invariant(&*self);
        }
        let diags = &scan_result.diagnostics;
        let ghost dv = scan_result@;
        let mut current: Vec<String> = Vec::new();
        let mut i: usize = 0;
        while i < diags.len()
            invariant
                i <= diags.len(),
                dv == scan_result@,
                diags@ == scan_result.diagnostics@,
                texts_sorted(string_views(current@)),
                forall|u: Seq<char>|
                    string_views(current@).contains(u) <==> exists|k: int|
                        0 <= k < i && kept(dv, keep@, k) && #[trigger] dv[k].uri == u,
            decreases diags.len() - i,
        {
            let ghost before_cur = string_views(current@);
            let take = i < keep.len() && keep[i];
            if take {
                insert_sorted_unique(&mut current, diags[i].uri.as_str());
            }
            proof {
                assert(dv[i as int] == diags@[i as int]@);
                assert(take == kept(dv, keep@, i as int));
                assert forall|u: Seq<char>|
                    string_views(current@).contains(u) <==> exists|k: int|
                        0 <= k < i + 1 && kept(dv, keep@, k) && #[trigger] dv[k].uri == u by {
                    if string_views(current@).contains(u) {
                        if before_cur.contains(u) {
                            let k = choose|k: int| 0 <= k < i && kept(dv, keep@, k) && #[trigger] dv[k].uri == u;
                            assert(0 <= k < i + 1 && kept(dv, keep@, k) && dv[k].uri == u);
                        } else {
                            assert(take && u == dv[i as int].uri);
                            assert(0 <= i < i + 1 && kept(dv, keep@, i as int) && dv[i as int].uri == u);
                        }
                    }
                    if exists|k: int| 0 <= k < i + 1 && kept(dv, keep@, k) && #[trigger] dv[k].uri == u {
                        let k = choose|k: int| 0 <= k < i + 1 && kept(dv, keep@, k) && #[trigger] dv[k].uri == u;
                        if k < i {
                            assert(exists|k2: int| 0 <= k2 < i && kept(dv, keep@, k2) && #[trigger] dv[k2].uri == u);
                            assert(before_cur.contains(u));
                        } else {
                            assert(take);
                        }
                    }
                }
            }
            i = i + 1;
        }
        let mut groups: Vec<(String, Vec<usize>)> = Vec::new();
        let mut g: usize = 0;
        while g < current.len()
            invariant
                g <= current.len(),
                dv == scan_result@,
                diags@ == scan_result.diagnostics@,
                groups@.map_values(|x: (String, Vec<usize>)| x.0@) =~= string_views(current@).take(g as int),
                forall|m: int|
                    0 <= m < groups@.len() ==> (#[trigger] groups@[m]).1@ == positions_for(
                        dv,
                        keep@,
                        groups@[m].0@,
                        dv.len() as int,
                    ),
            decreases current.len() - g,
        {
            let u = current[g].as_str();
            let mut positions: Vec<usize> = Vec::new();
            let mut k: usize = 0;
            while k < diags.len()
                invariant
                    k <= diags.len(),
                    dv == scan_result@,
                    diags@ == scan_result.diagnostics@,
                    positions@ == positions_for(dv, keep@, u@, k as int),
                decreases diags.len() - k,
            {
                assert(dv[k as int] == diags@[k as int]@);
                if k < keep.len() && keep[k] && crate::text::str_eq(diags[k].uri.as_str(), u) {
                    positions.push(k);
                }
                assert(positions@ =~= positions_for(dv, keep@, u@, k + 1));
                k = k + 1;
            }
            let ghost before = groups@;
            groups.push((String::from_str(u), positions));
            assert(groups@.map_values(|x: (String, Vec<usize>)| x.0@) =~= before.map_values(
                |x: (String, Vec<usize>)| x.0@,
            ).push(u@));
            assert(string_views(current@).take(g + 1) =~= string_views(current@).take(g as int).push(u@));
            g = g + 1;
        }
        assert(string_views(current@).take(current.len() as int) =~= string_views(current@));
        let ghost old_pub = string_views(self.published_uris@);
        let mut stale: Vec<String> = Vec::new();
        let mut p: usize = 0;
        while p < self.published_uris.len()
            invariant
                p <= self.published_uris.len(),
                old_pub == string_views(self.published_uris@),
                dv == scan_result@,
                forall|u: Seq<char>|
                    string_views(current@).contains(u) <==> exists|k: int|
                        0 <= k < dv.len() && kept(dv, keep@, k) && #[trigger] dv[k].uri == u,
                string_views(stale@) =~= old_pub.take(p as int).filter(|u: Seq<char>| !kept_uri(dv, keep@, u)),
            decreases self.published_uris.len() - p,
        {
            let x = self.published_uris[p].as_str();
            let mut found = false;
            let mut m: usize = 0;
            while m < current.len()
                invariant
                    m <= current.len(),
                    found == exists|q: int| 0 <= q < m && string_views(current@)[q] == x@,
                decreases current.len() - m,
            {
                assert(string_views(current@)[m as int] == current@[m as int]@);
                if crate::text::str_eq(current[m].as_str(), x) {
                    found = true;
                }
                m = m + 1;
            }
            assert(found == string_views(current@).contains(x@));
            assert(found == kept_uri(dv, keep@, x@)) by {
                if kept_uri(dv, keep@, x@) {
                    let i0 = choose|i0: int| kept(dv, keep@, i0) && #[trigger] dv[i0].uri == x@;
                    assert(exists|k: int| 0 <= k < dv.len() && kept(dv, keep@, k) && #[trigger] dv[k].uri == x@);
                }
            }
            if !found {
                stale.push(String::from_str(x));
            }
            proof {
                assert(old_pub.take(p + 1) =~= old_pub.take(p as int).push(x@));
                old_pub.take(p as int).lemma_filter_push(x@, |u: Seq<char>| !kept_uri(dv, keep@, u));
            }
            p = p + 1;
        }
        assert(old_pub.take(self.published_uris.len() as int) =~= old_pub);
        proof {
            assert forall|u: Seq<char>| string_views(current@).contains(u) <==> kept_uri(dv, keep@, u) by {
                if kept_uri(dv, keep@, u) {
                    let i0 = choose|i0: int| kept(dv, keep@, i0) && #[trigger] dv[i0].uri == u;
                    assert(exists|k: int| 0 <= k < dv.len() && kept(dv, keep@, k) && #[trigger] dv[k].uri == u);
                }
            }
        }
        self.published_uris = current;
        (groups, stale)
    }
}

/// Message when a diagnostic carries no upgrade plan.
pub const NO_UPGRADE_PLAN_MESSAGE: &'static str = "No upgrade plan is available for this diagnostic.";

/// Title of the show-plan action.
pub const SHOW_UPGRADE_PLAN_TITLE: &'static str = "Show upgrade plan";

/// Element `0` of a value, as a JSON pointer step reads it: the first
/// element of an array, or the member named `0` of an object.
pub open spec fn pointer_zero(v: JsonValue) -> Option<JsonValue> {
    match v {
        JsonValue::Array(items) => if items@.len() > 0 {
            Some(items@[0])
        } else {
            None
        },
        JsonValue::Object(_) => json_get(v, "0"@),
        _ => None,
    }
}

/// `/context/diagnostics/0` of code action parameters.
pub open spec fn first_diagnostic(params: JsonValue) -> Option<JsonValue> {
    match json_get(params, "context"@) {
        Some(c) => match json_get(c, "diagnostics"@) {
            Some(d) => pointer_zero(d),
            None => None,
        },
        None => None,
    }
}

/// `/arguments/0` of command parameters.
pub open spec fn first_argument(params: JsonValue) -> Option<JsonValue> {
    match json_get(params, "arguments"@) {
        Some(a) => pointer_zero(a),
        None => None,
    }
}

/// The text of an optional value, or `default`.
pub open spec fn text_or(v: Option<JsonValue>, default: Seq<char>) -> Seq<char> {
    match v {
        Some(x) => match json_str(x) {
            Some(t) => t,
            None => default,
        },
        None => default,
    }
}

/// The member `key` of an optional value.
pub open spec fn member_of(v: Option<JsonValue>, key: Seq<char>) -> Option<JsonValue> {
    match v {
        Some(x) => json_get(x, key),
        None => None,
    }
}

/// The apply payload offered by a code action: under folder trust, the
/// diagnostic's data when it names a package and its strategy is not
/// `unavailable`.
pub open spec fn apply_payload(params: JsonValue, folder_trust: bool) -> Option<JsonValue> {
    let data = member_of(first_diagnostic(params), "data"@);
    if folder_trust && data is Some && json_get(data.unwrap(), "package_name"@) is Some && json_get_str(
        data.unwrap(),
        "apply_strategy"@,
    ) != Some("unavailable"@) {
        data
    } else {
        None
    }
}

/// A quick-fix action running `command` with one argument.
pub open spec fn quickfix(title: Seq<char>, command: Seq<char>, arg: Json) -> Json {
    Json::Object(
        seq![
            ("title"@, Json::Str(title)),
            ("kind"@, Json::Str("quickfix"@)),
            (
                "command"@,
                Json::Object(
                    seq![
                        ("title"@, Json::Str(title)),
                        ("command"@, Json::Str(command)),
                        ("arguments"@, Json::Array(seq![arg])),
                    ],
                ),
            ),
        ],
    )
}

/// The code actions for a diagnostic: show its upgrade plan, show the fix
/// dry run, and apply the upgrade when an apply payload is offered.
pub open spec fn code_actions_spec(params: JsonValue, folder_trust: bool) -> Json {
    Json::Array(
        seq![
            quickfix(
                SHOW_UPGRADE_PLAN_TITLE@,
                SHOW_UPGRADE_PLAN_COMMAND@,
                Json::Str(text_or(member_of(first_diagnostic(params), "message"@), NO_UPGRADE_PLAN_MESSAGE@)),
            ),
            quickfix(SHOW_FIX_DRY_RUN_TITLE@, SHOW_FIX_DRY_RUN_COMMAND@, Json::Str(FIX_DRY_RUN_CLI@)),
        ] + match apply_payload(params, folder_trust) {
            Some(d) => seq![quickfix(APPLY_UPGRADE_TITLE@, APPLY_UPGRADE_COMMAND@, d@)],
            None => Seq::empty(),
        },
    )
}

fn pointer_zero_exec(v: &JsonValue) -> (r: Option<&JsonValue>)
    ensures
        match pointer_zero(*v) {
            Some(x) => r matches Some(y) && *y == x,
            None => r is None,
        },
{
    match v {
        JsonValue::Array(items) => if items.len() > 0 {
            Some(&items[0])
        } else {
            None
        },
        JsonValue::Object(_) => v.get("0"),
        _ => None,
    }
}

fn first_diagnostic_exec(params: &JsonValue) -> (r: Option<&JsonValue>)
    ensures
        match first_diagnostic(*params) {
            Some(x) => r matches Some(y) && *y == x,
            None => r is None,
        },
{
    match params.get("context") {
        Some(c) => match c.get("diagnostics") {
            Some(d) => pointer_zero_exec(d),
            None => None,
        },
        None => None,
    }
}

fn first_argument_exec(params: &JsonValue) -> (r: Option<&JsonValue>)
    ensures
        match first_argument(*params) {
            Some(x) => r matches Some(y) && *y == x,
            None => r is None,
        },
{
    match params.get("arguments") {
        Some(a) => pointer_zero_exec(a),
        None => None,
    }
}

fn text_or_exec<'a>(v: Option<&'a JsonValue>, default: &'a str) -> (r: &'a str)
    ensures
        r@ == text_or(
            match v {
                Some(x) => Some(*x),
                None => None,
            },
            default@,
        ),
{
    match v {
        Some(x) => match x.as_str() {
            Some(t) => t,
            None => default,
        },
        None => default,
    }
}

fn quickfix_json(title: &str, command: &str, arg: JsonValue) -> (r: JsonValue)
    ensures
        r@ == quickfix(title@, command@, arg@),
{
    let mut args: Vec<JsonValue> = Vec::new();
    push_item(&mut args, arg);
    let mut cmd: Vec<(String, JsonValue)> = Vec::new();
    push_member(&mut cmd, "title", json_string(title));
    push_member(&mut cmd, "command", json_string(command));
    assert(json_views(args@) =~= seq![arg@]);
    push_member(&mut cmd, "arguments", JsonValue::Array(args));
    assert(member_views(cmd@) =~= seq![
        ("title"@, Json::Str(title@)),
        ("command"@, Json::Str(command@)),
        ("arguments"@, Json::Array(seq![arg@])),
    ]);
    let mut m: Vec<(String, JsonValue)> = Vec::new();
    push_member(&mut m, "title", json_string(title));
    push_member(&mut m, "kind", json_string("quickfix"));
    push_member(&mut m, "command", JsonValue::Object(cmd));
    assert(member_views(m@) =~= match quickfix(title@, command@, arg@) {
        Json::Object(x) => x,
        _ => Seq::empty(),
    });
    JsonValue::Object(m)
}

/// The code actions for the first diagnostic of a code action request.
pub fn code_actions(params: &JsonValue, folder_trust: bool) -> (r: JsonValue)
    ensures
        r@ == code_actions_spec(*params, folder_trust),
{
    let diagnostic = first_diagnostic_exec(params);
    let message_value = match diagnostic {
        Some(d) => d.get("message"),
        None => None,
    };
    let message = text_or_exec(message_value, NO_UPGRADE_PLAN_MESSAGE);
    let mut actions: Vec<JsonValue> = Vec::new();
    push_item(&mut actions, quickfix_json(SHOW_UPGRADE_PLAN_TITLE, SHOW_UPGRADE_PLAN_COMMAND, json_string(message)));
    push_item(
        &mut actions,
        quickfix_json(SHOW_FIX_DRY_RUN_TITLE, SHOW_FIX_DRY_RUN_COMMAND, json_string(FIX_DRY_RUN_CLI)),
    );
    let data = match diagnostic {
        Some(d) => d.get("data"),
        None => None,
    };
    if folder_trust {
        match data {
            Some(payload) => {
                let named = payload.get("package_name").is_some();
                let unavailable = match payload.get_str("apply_strategy") {
                    Some(st) => crate::text::str_eq(st, "unavailable"),
                    None => false,
                };
                if named && !unavailable {
                    push_item(
                        &mut actions,
                        quickfix_json(APPLY_UPGRADE_TITLE, APPLY_UPGRADE_COMMAND, payload.duplicate()),
                    );
                }
            },
            None => {},
        }
    }
    assert(json_views(actions@) =~= match code_actions_spec(*params, folder_trust) {
        Json::Array(x) => x,
        _ => Seq::empty(),
    });
    JsonValue::Array(actions)
}

/// JSON-RPC error kinds the server answers with.
#[derive(Debug, Clone, Copy, PartialEq, Eq, Structural)]
pub enum LspErrorKind {
    InvalidRequest,
    InvalidParams,
    MethodNotFound,
    InternalError,
}

/// What a `workspace/executeCommand` request leads to.
#[derive(Debug, Clone, PartialEq, Eq)]
pub enum CommandOutcome {
    /// Show the message, then answer with `null`.
    ShowMessage(String),
    /// Parse the first argument as an apply request and apply it.
    Apply,
    /// Answer with an error.
    Fail(LspErrorKind, String),
}

/// Message when an apply is requested without folder trust.
pub const APPLY_REQUIRES_TRUST_MESSAGE: &'static str = "Apply upgrade requires folder trust";

/// Message when an apply request has no argument.
pub const APPLY_REQUIRES_ARGUMENTS_MESSAGE: &'static str = "Apply upgrade requires structured arguments";

/// Message for an unknown command.
pub const UNSUPPORTED_COMMAND_MESSAGE: &'static str = "unsupported LSP command";

/// The outcome of a command: the show commands display their first
/// argument (or a default); apply needs folder trust and an argument;
/// anything else is unsupported.
pub open spec fn command_outcome_spec(params: JsonValue, folder_trust: bool) -> (Option<Seq<char>>, Option<(LspErrorKind, Seq<char>)>) {
    let cmd = json_get_str(params, "command"@);
    if cmd == Some(SHOW_UPGRADE_PLAN_COMMAND@) {
        (Some(text_or(first_argument(params), NO_UPGRADE_PLAN_MESSAGE@)), None)
    } else if cmd == Some(SHOW_FIX_DRY_RUN_COMMAND@) {
        (Some(text_or(first_argument(params), FIX_DRY_RUN_CLI@)), None)
    } else if cmd == Some(APPLY_UPGRADE_COMMAND@) {
        if !folder_trust {
            (None, Some((LspErrorKind::InvalidRequest, APPLY_REQUIRES_TRUST_MESSAGE@)))
        } else if first_argument(params) is None {
            (None, Some((LspErrorKind::InvalidParams, APPLY_REQUIRES_ARGUMENTS_MESSAGE@)))
        } else {
            (None, None)
        }
    } else {
        (None, Some((LspErrorKind::MethodNotFound, UNSUPPORTED_COMMAND_MESSAGE@)))
    }
}

/// An outcome as the pair the specification describes.
pub open spec fn outcome_view(o: CommandOutcome) -> (Option<Seq<char>>, Option<(LspErrorKind, Seq<char>)>) {
    match o {
        CommandOutcome::ShowMessage(m) => (Some(m@), None),
        CommandOutcome::Apply => (None, None),
        CommandOutcome::Fail(k, m) => (None, Some((k, m@))),
    }
}

/// Decide what a `workspace/executeCommand` request does.
pub fn execute_command_outcome(params: &JsonValue, folder_trust: bool) -> (r: CommandOutcome)
    ensures
        outcome_view(r) == command_outcome_spec(*params, folder_trust),
{
    let cmd = params.get_str("command");
    let arg = first_argument_exec(params);
    match cmd {
        Some(c) => {
            if crate::text::str_eq(c, SHOW_UPGRADE_PLAN_COMMAND) {
                return CommandOutcome::ShowMessage(String::from_str(text_or_exec(arg, NO_UPGRADE_PLAN_MESSAGE)));
            }
            if crate::text::str_eq(c, SHOW_FIX_DRY_RUN_COMMAND) {
                return CommandOutcome::ShowMessage(String::from_str(text_or_exec(arg, FIX_DRY_RUN_CLI)));
            }
            if crate::text::str_eq(c, APPLY_UPGRADE_COMMAND) {
                if !folder_trust {
                    return CommandOutcome::Fail(
                        LspErrorKind::InvalidRequest,
                        String::from_str(APPLY_REQUIRES_TRUST_MESSAGE),
                    );
                }
                if arg.is_none() {
                    return CommandOutcome::Fail(
                        LspErrorKind::InvalidParams,
                        String::from_str(APPLY_REQUIRES_ARGUMENTS_MESSAGE),
                    );
                }
                return CommandOutcome::Apply;
            }
        },
        None => {},
    }
    CommandOutcome::Fail(LspErrorKind::MethodNotFound, String::from_str(UNSUPPORTED_COMMAND_MESSAGE))
}

/// The answer to apply arguments that do not parse: invalid parameters,
/// with the parse error.
pub fn apply_arguments_rejected(error: &str) -> (r: CommandOutcome)
    ensures
        outcome_view(r) == (None::<Seq<char>>, Some((LspErrorKind::InvalidParams, "invalid Apply upgrade arguments: "@ + error@))),
{
    let mut m = String::from_str("invalid Apply upgrade arguments: ");
    m.append(error);
    CommandOutcome::Fail(LspErrorKind::InvalidParams, m)
}

/// The answer to an apply: on success, a message naming the package and
/// target version (diagnostics are then refreshed); on failure, an internal
/// error with the service's message.
pub fn apply_finished(request: &ApplyUpgradeRequest, result: Result<(), String>) -> (r: CommandOutcome)
    ensures
        match result {
            Ok(()) => outcome_view(r) == (Some("Applied upgrade for "@ + request.package_name@ + " to "@
                + request.target_version@), None::<(LspErrorKind, Seq<char>)>),
            Err(e) => outcome_view(r) == (None::<Seq<char>>, Some((LspErrorKind::InternalError, e@))),
        },
{
    match result {
        Ok(()) => {
            let mut m = String::from_str("Applied upgrade for ");
            m.append(request.package_name.as_str());
            m.append(" to ");
            m.append(request.target_version.as_str());
            CommandOutcome::ShowMessage(m)
        },
        Err(e) => CommandOutcome::Fail(LspErrorKind::InternalError, e),
    }
}

/// How the server answers a request method.
#[derive(Debug, Clone, PartialEq, Eq)]
pub enum RequestRoute {
    Shutdown,
    CodeAction,
    ExecuteCommand,
    /// Not supported: answer `method not found` with this message.
    Unsupported(String),
}

/// Route a request by its method.
pub fn route_request(method: &str) -> (r: RequestRoute)
    ensures
        method@ == "shutdown"@ ==> r == RequestRoute::Shutdown,
        method@ == "textDocument/codeAction"@ ==> r == RequestRoute::CodeAction,
        method@ == "workspace/executeCommand"@ ==> r == RequestRoute::ExecuteCommand,
        method@ != "shutdown"@ && method@ != "textDocument/codeAction"@ && method@ != "workspace/executeCommand"@
            ==> (r matches RequestRoute::Unsupported(m) && m@ == "unsupported LSP request: "@ + method@),
{
    proof {
        reveal_strlit("shutdown");
        reveal_strlit("textDocument/codeAction");
        reveal_strlit("workspace/executeCommand");
        assert("shutdown"@.len() != "textDocument/codeAction"@.len());
        assert("shutdown"@.len() != "workspace/executeCommand"@.len());
        assert("textDocument/codeAction"@.len() != "workspace/executeCommand"@.len());
    }
    if crate::text::str_eq(method, "shutdown") {
        RequestRoute::Shutdown
    } else if crate::text::str_eq(method, "textDocument/codeAction") {
        RequestRoute::CodeAction
    } else if crate::text::str_eq(method, "workspace/executeCommand") {
        RequestRoute::ExecuteCommand
    } else {
        let mut m = String::from_str("unsupported LSP request: ");
        m.append(method);
        RequestRoute::Unsupported(m)
    }
}

/// What the server does on a notification.
#[derive(Debug, Clone, Copy, PartialEq, Eq)]
pub enum NotificationRoute {
    /// Stop serving.
    Exit,
    /// A file was saved: rescan (see `scan_for_root`) and publish.
    DidSave,
    /// Nothing.
    Ignored,
}

/// Route a notification by its method: `exit` stops the server,
/// `textDocument/didSave` rescans, anything else is ignored.
pub fn route_notification(method: &str) -> (r: NotificationRoute)
    ensures
        r == (if method@ == "exit"@ {
            NotificationRoute::Exit
        } else if method@ == "textDocument/didSave"@ {
            NotificationRoute::DidSave
        } else {
            NotificationRoute::Ignored
        }),
{
    if crate::text::str_eq(method, "exit") {
        NotificationRoute::Exit
    } else if crate::text::str_eq(method, "textDocument/didSave") {
        NotificationRoute::DidSave
    } else {
        NotificationRoute::Ignored
    }
}

/// The `file:` URL of an absolute path (`Url::from_file_path`), as text.
pub uninterp spec fn file_url_text(path: Seq<char>) -> Seq<char>;

/// `url::Url::from_file_path`: the `file://` URL of an absolute local path;
/// `None` for a relative path (on Unix, a path is absolute when it starts
/// with `/`).
#[verifier::external_body]
pub fn file_uri_for_path(path: &str) -> (r: Option<String>)
    ensures
        r is Some <==> (path@.len() > 0 && path@[0] == '/'),
        r matches Some(u) ==> u@ == file_url_text(path@) && starts_with(u@, "file://"@),
{
    url::Url::from_file_path(path).ok().map(|u| u.to_string())
}

/// A decoded message is an `initialized` notification: its `method` member
/// is the string `initialized`.
pub open spec fn initialized_method(parsed: Option<Json>) -> bool {
    match parsed {
        Some(doc) => json_member(doc, "method"@) == Some(Json::Str("initialized"@)),
        None => false,
    }
}

/// Whether a decoded message asks for the first scan: at most
/// `MAX_MESSAGE_BYTES` bytes, one JSON document, and an `initialized`
/// notification. Anything else is answered with nothing.
pub fn is_initialized_notification(message: &str) -> (r: bool)
    ensures
        r == (message.len() <= MAX_MESSAGE_BYTES && initialized_method(json_str_parsed(message@))),
{
    if message.len() > MAX_MESSAGE_BYTES {
        return false;
    }
    match parse_json_str(message) {
        None => false,
        Some(v) => {
            proof {
                lemma_get_str_view(v, "method"@, "initialized"@);
            }
            match v.get_str("method") {
                Some(m) => str_eq(m, "initialized"),
                None => false,
            }
        },
    }
}

} // verus!
