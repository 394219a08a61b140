//! VEX statement derivation and vocabulary: the OpenVEX / CISA statuses and
//! justifications, their CycloneDX counterparts, the VEX configuration, and
//! the statement derived for each (package, CVE) pair of a report.
use vstd::prelude::*;
use vstd::string::*;

use crate::model::{CveEvidenceLocation, CveRecord, FpEntry, Package, PackageView, Severity};
use crate::purl::{purl_for_package, purl_of};
use crate::report::Finding;
use crate::text::{copy_str, decimal, push_decimal, str_eq, trim, trim_string};

verus! {

/// OpenVEX `@context` for documents this crate emits.
pub const OPENVEX_CONTEXT: &'static str = "https://openvex.dev/ns/v0.2.0";

/// Default VEX author when not configured.
pub const DEFAULT_VEX_AUTHOR_NAME: &'static str = "verilyze";

/// Default status when marking a false positive with VEX metadata.
pub const DEFAULT_FP_VEX_STATUS: &'static str = "not_affected";

/// Fallback CISA justification when a false positive is marked without one.
pub const DEFAULT_FP_JUSTIFICATION: &'static str = "inline_mitigations_already_exist";

/// CISA / OpenVEX justifications accepted when marking a false positive.
pub fn cisa_justifications() -> (r: Vec<&'static str>)
    ensures
        r@.len() == 5,
        r@[0]@ == "component_not_present"@,
        r@[1]@ == "vulnerable_code_not_present"@,
        r@[2]@ == "vulnerable_code_not_in_execute_path"@,
        r@[3]@ == "vulnerable_code_cannot_be_controlled_by_adversary"@,
        r@[4]@ == "inline_mitigations_already_exist"@,
{
    let mut v: Vec<&'static str> = Vec::new();
    v.push("component_not_present");
    v.push("vulnerable_code_not_present");
    v.push("vulnerable_code_not_in_execute_path");
    v.push("vulnerable_code_cannot_be_controlled_by_adversary");
    v.push("inline_mitigations_already_exist");
    v
}

/// VEX statuses accepted when marking a false positive.
pub fn vex_fp_statuses() -> (r: Vec<&'static str>)
    ensures
        r@.len() == 1,
        r@[0]@ == "not_affected"@,
{
    let mut v: Vec<&'static str> = Vec::new();
    v.push("not_affected");
    v
}

/// VEX statement status (OpenVEX / CISA vocabulary).
#[derive(Debug, Clone, Copy, PartialEq, Eq, Structural)]
pub enum VexStatus {
    NotAffected,
    Affected,
    UnderInvestigation,
}

/// OpenVEX / CISA status string.
pub open spec fn status_label(s: VexStatus) -> Seq<char> {
    match s {
        VexStatus::NotAffected => "not_affected"@,
        VexStatus::Affected => "affected"@,
        VexStatus::UnderInvestigation => "under_investigation"@,
    }
}

/// The status a string names, if any.
pub open spec fn parse_status(s: Seq<char>) -> Option<VexStatus> {
    if s == "not_affected"@ {
        Some(VexStatus::NotAffected)
    } else if s == "affected"@ {
        Some(VexStatus::Affected)
    } else if s == "under_investigation"@ {
        Some(VexStatus::UnderInvestigation)
    } else {
        None
    }
}

impl VexStatus {
    /// OpenVEX / CISA status string.
    pub fn as_str(self) -> (r: &'static str)
        ensures
            r@ == status_label(self),
    {
        match self {
            VexStatus::NotAffected => "not_affected",
            VexStatus::Affected => "affected",
            VexStatus::UnderInvestigation => "under_investigation",
        }
    }

    /// CycloneDX 1.6 `analysis.state` value.
    pub fn as_cyclonedx_state(self) -> (r: &'static str)
        ensures
            r@ == match self {
                VexStatus::NotAffected => "not_affected"@,
                VexStatus::Affected => "exploitable"@,
                VexStatus::UnderInvestigation => "in_triage"@,
            },
    {
        match self {
            VexStatus::NotAffected => "not_affected",
            VexStatus::Affected => "exploitable",
            VexStatus::UnderInvestigation => "in_triage",
        }
    }

    /// Parse a CISA / OpenVEX status string.
    pub fn parse(s: &str) -> (r: Option<VexStatus>)
        ensures
            r == parse_status(s@),
    {
        if str_eq(s, "not_affected") {
            Some(VexStatus::NotAffected)
        } else if str_eq(s, "affected") {
            Some(VexStatus::Affected)
        } else if str_eq(s, "under_investigation") {
            Some(VexStatus::UnderInvestigation)
        } else {
            None
        }
    }
}

/// CISA minimum justification for `not_affected`.
#[derive(Debug, Clone, Copy, PartialEq, Eq, Structural)]
pub enum VexJustification {
    ComponentNotPresent,
    VulnerableCodeNotPresent,
    VulnerableCodeNotInExecutePath,
    VulnerableCodeCannotBeControlledByAdversary,
    InlineMitigationsAlreadyExist,
}

/// CISA / OpenVEX justification string.
pub open spec fn justification_label(j: VexJustification) -> Seq<char> {
    match j {
        VexJustification::ComponentNotPresent => "component_not_present"@,
        VexJustification::VulnerableCodeNotPresent => "vulnerable_code_not_present"@,
        VexJustification::VulnerableCodeNotInExecutePath => "vulnerable_code_not_in_execute_path"@,
        VexJustification::VulnerableCodeCannotBeControlledByAdversary => "vulnerable_code_cannot_be_controlled_by_adversary"@,
        VexJustification::InlineMitigationsAlreadyExist => "inline_mitigations_already_exist"@,
    }
}

/// The justification a string names, if any.
pub open spec fn parse_justification(s: Seq<char>) -> Option<VexJustification> {
    if s == "component_not_present"@ {
        Some(VexJustification::ComponentNotPresent)
    } else if s == "vulnerable_code_not_present"@ {
        Some(VexJustification::VulnerableCodeNotPresent)
    } else if s == "vulnerable_code_not_in_execute_path"@ {
        Some(VexJustification::VulnerableCodeNotInExecutePath)
    } else if s == "vulnerable_code_cannot_be_controlled_by_adversary"@ {
        Some(VexJustification::VulnerableCodeCannotBeControlledByAdversary)
    } else if s == "inline_mitigations_already_exist"@ {
        Some(VexJustification::InlineMitigationsAlreadyExist)
    } else {
        None
    }
}

impl VexJustification {
    /// CISA / OpenVEX justification string.
    pub fn as_str(self) -> (r: &'static str)
        ensures
            r@ == justification_label(self),
    {
        match self {
            VexJustification::ComponentNotPresent => "component_not_present",
            VexJustification::VulnerableCodeNotPresent => "vulnerable_code_not_present",
            VexJustification::VulnerableCodeNotInExecutePath => "vulnerable_code_not_in_execute_path",
            VexJustification::VulnerableCodeCannotBeControlledByAdversary => "vulnerable_code_cannot_be_controlled_by_adversary",
            VexJustification::InlineMitigationsAlreadyExist => "inline_mitigations_already_exist",
        }
    }

    /// Parse a CISA justification string.
    pub fn parse(s: &str) -> (r: Option<VexJustification>)
        ensures
            r == parse_justification(s@),
    {
        if str_eq(s, "component_not_present") {
            Some(VexJustification::ComponentNotPresent)
        } else if str_eq(s, "vulnerable_code_not_present") {
            Some(VexJustification::VulnerableCodeNotPresent)
        } else if str_eq(s, "vulnerable_code_not_in_execute_path") {
            Some(VexJustification::VulnerableCodeNotInExecutePath)
        } else if str_eq(s, "vulnerable_code_cannot_be_controlled_by_adversary") {
            Some(VexJustification::VulnerableCodeCannotBeControlledByAdversary)
        } else if str_eq(s, "inline_mitigations_already_exist") {
            Some(VexJustification::InlineMitigationsAlreadyExist)
        } else {
            None
        }
    }
}

/// Parsing a justification's own label gives it back.
pub proof fn lemma_justification_round_trip(j: VexJustification)
    ensures
        parse_justification(justification_label(j)) == Some(j),
{
    reveal_strlit("component_not_present");
    reveal_strlit("vulnerable_code_not_present");
    reveal_strlit("vulnerable_code_not_in_execute_path");
    reveal_strlit("vulnerable_code_cannot_be_controlled_by_adversary");
    reveal_strlit("inline_mitigations_already_exist");
    assert("component_not_present"@.len() == 21);
    assert("vulnerable_code_not_present"@.len() == 27);
    assert("vulnerable_code_not_in_execute_path"@.len() == 35);
    assert("vulnerable_code_cannot_be_controlled_by_adversary"@.len() == 49);
    assert("inline_mitigations_already_exist"@.len() == 32);
}

/// Parsing a status's own label gives it back.
pub proof fn lemma_status_round_trip(s: VexStatus)
    ensures
        parse_status(status_label(s)) == Some(s),
{
    reveal_strlit("not_affected");
    reveal_strlit("affected");
    reveal_strlit("under_investigation");
    assert("not_affected"@.len() == 12);
    assert("affected"@.len() == 8);
    assert("under_investigation"@.len() == 19);
}

/// CycloneDX 1.6 `analysis.justification` of a CISA justification.
pub open spec fn cyclonedx_justification(j: VexJustification) -> Seq<char> {
    match j {
        VexJustification::VulnerableCodeNotPresent => "code_not_present"@,
        VexJustification::VulnerableCodeNotInExecutePath => "code_not_reachable"@,
        VexJustification::VulnerableCodeCannotBeControlledByAdversary => "protected_at_perimeter"@,
        VexJustification::InlineMitigationsAlreadyExist => "protected_by_mitigating_control"@,
        VexJustification::ComponentNotPresent => "requires_dependency"@,
    }
}

/// Map a CISA justification to CycloneDX 1.6 `analysis.justification`.
pub fn cisa_to_cyclonedx_justification(j: VexJustification) -> (r: &'static str)
    ensures
        r@ == cyclonedx_justification(j),
{
    match j {
        VexJustification::VulnerableCodeNotPresent => "code_not_present",
        VexJustification::VulnerableCodeNotInExecutePath => "code_not_reachable",
        VexJustification::VulnerableCodeCannotBeControlledByAdversary => "protected_at_perimeter",
        VexJustification::InlineMitigationsAlreadyExist => "protected_by_mitigating_control",
        VexJustification::ComponentNotPresent => "requires_dependency",
    }
}

/// Configuration snapshot for VEX generation.
#[derive(Debug, Clone, PartialEq, Eq)]
pub struct VexConfig {
    pub product_id: Option<String>,
    pub author_name: String,
    pub author_namespace: Option<String>,
    /// When true, `reachable: false` maps to `not_affected` (opt-in).
    pub reachability_not_affected: bool,
}

impl Default for VexConfig {
    fn default() -> (r: Self)
        ensures
            r.product_id.is_none(),
            r.author_name@ == DEFAULT_VEX_AUTHOR_NAME@,
            r.author_namespace.is_none(),
            !r.reachability_not_affected,
    {
        VexConfig {
            product_id: None,
            author_name: String::from_str(DEFAULT_VEX_AUTHOR_NAME),
            author_namespace: None,
            reachability_not_affected: false,
        }
    }
}

/// A configured id after blank values are dropped: trimmed, `None` when
/// blank.
pub open spec fn nonempty_id(value: Option<Seq<char>>) -> Option<Seq<char>> {
    match value {
        Some(s) => if trim(s).len() == 0 {
            None
        } else {
            Some(trim(s))
        },
        None => None,
    }
}

/// The characters of an optional string.
pub open spec fn opt_view(o: Option<String>) -> Option<Seq<char>> {
    match o {
        Some(s) => Some(s@),
        None => None,
    }
}

/// Treat blank or whitespace-only strings as unset.
pub fn nonempty_optional_id(value: Option<String>) -> (r: Option<String>)
    ensures
        opt_view(r) == nonempty_id(opt_view(value)),
{
    match value {
        Some(s) => {
            let t = trim_string(s.as_str());
            if t.as_str().unicode_len() == 0 {
                None
            } else {
                Some(t)
            }
        },
        None => None,
    }
}

impl VexConfig {
    /// Drop blank `product_id` / `author_namespace` and trim the author name,
    /// falling back to the default author when it is blank.
    pub fn normalize_optional_ids(&mut self)
        ensures
            opt_view(final(self).product_id) == nonempty_id(opt_view(old(self).product_id)),
            opt_view(final(self).author_namespace) == nonempty_id(opt_view(old(self).author_namespace)),
            final(self).author_name@ == if trim(old(self).author_name@).len() == 0 {
                DEFAULT_VEX_AUTHOR_NAME@
            } else {
                trim(old(self).author_name@)
            },
            final(self).reachability_not_affected == old(self).reachability_not_affected,
    {
        let p = self.product_id.take();
        self.product_id = nonempty_optional_id(p);
        let n = self.author_namespace.take();
        self.author_namespace = nonempty_optional_id(n);
        let author = trim_string(self.author_name.as_str());
        if author.as_str().unicode_len() == 0 {
            self.author_name = String::from_str(DEFAULT_VEX_AUTHOR_NAME);
        } else {
            self.author_name = author;
        }
    }

    /// Effective product id: the configured product, else the project id;
    /// both trimmed, blanks ignored.
    pub fn effective_product_id(&self, project_id: Option<&str>) -> (r: Option<String>)
        ensures
            opt_view(r) == match nonempty_id(opt_view(self.product_id)) {
                Some(p) => Some(p),
                None => match project_id {
                    Some(q) => nonempty_id(Some(q@)),
                    None => None,
                },
            },
    {
        match &self.product_id {
            Some(p) => {
                let t = trim_string(p.as_str());
                if t.as_str().unicode_len() > 0 {
                    return Some(t);
                }
            },
            None => {},
        }
        match project_id {
            Some(q) => {
                let t = trim_string(q);
                if t.as_str().unicode_len() > 0 {
                    Some(t)
                } else {
                    None
                }
            },
            None => None,
        }
    }
}

/// One VEX statement for a (package, CVE) pair.
#[derive(Debug, Clone, PartialEq, Eq)]
pub struct VexStatement {
    pub cve_id: String,
    pub purl: String,
    pub status: VexStatus,
    pub justification: Option<VexJustification>,
    pub detail: Option<String>,
}

/// Mathematical value of a [`VexStatement`].
pub struct VexStatementView {
    pub cve_id: Seq<char>,
    pub purl: Seq<char>,
    pub status: VexStatus,
    pub justification: Option<VexJustification>,
    pub detail: Option<Seq<char>>,
}

impl View for VexStatement {
    type V = VexStatementView;

    open spec fn view(&self) -> VexStatementView {
        VexStatementView {
            cve_id: self.cve_id@,
            purl: self.purl@,
            status: self.status,
            justification: self.justification,
            detail: opt_view(self.detail),
        }
    }
}

/// The parsed value of an optional string field.
pub open spec fn parsed_field<T>(field: Option<String>, parse: spec_fn(Seq<char>) -> Option<T>) -> Option<T> {
    match field {
        Some(s) => parse(s@),
        None => None,
    }
}

/// Statement for a CVE suppressed as a false positive: the mark's status
/// (default `not_affected`), its justification (default inline mitigations)
/// kept only for `not_affected`, and its detail (else its comment, when
/// non-empty).
pub open spec fn suppressed_statement(pkg: PackageView, cve_id: Seq<char>, entry: Option<FpEntry>) -> VexStatementView {
    let status = match entry {
        Some(e) => match parsed_field(e.status, |s: Seq<char>| parse_status(s)) {
            Some(st) => st,
            None => VexStatus::NotAffected,
        },
        None => VexStatus::NotAffected,
    };
    let justification = match entry {
        Some(e) => match parsed_field(e.justification, |s: Seq<char>| parse_justification(s)) {
            Some(j) => j,
            None => VexJustification::InlineMitigationsAlreadyExist,
        },
        None => VexJustification::InlineMitigationsAlreadyExist,
    };
    let detail = match entry {
        Some(e) => match e.detail {
            Some(d) => Some(d@),
            None => if e.comment@.len() == 0 {
                None
            } else {
                Some(e.comment@)
            },
        },
        None => None,
    };
    VexStatementView {
        cve_id,
        purl: purl_of(pkg),
        status,
        justification: if status == VexStatus::NotAffected {
            Some(justification)
        } else {
            None
        },
        detail,
    }
}

/// One evidence site as shown in a detail: `path:line (symbol)`.
pub open spec fn evidence_site_text(e: CveEvidenceLocation) -> Seq<char> {
    e.path@ + ":"@ + decimal(e.start_line as nat) + " ("@ + e.symbol@ + ")"@
}

/// The sites of the first `n` evidence entries joined by `; `.
pub open spec fn evidence_sites_text(ev: Seq<CveEvidenceLocation>) -> Seq<char>
    decreases ev.len(),
{
    if ev.len() == 0 {
        Seq::empty()
    } else if ev.len() == 1 {
        evidence_site_text(ev[0])
    } else {
        evidence_sites_text(ev.drop_last()) + "; "@ + evidence_site_text(ev.last())
    }
}

/// Detail naming the first five evidence sites of a CVE, if it has any.
pub open spec fn evidence_detail_text(cve: CveRecord) -> Option<Seq<char>> {
    if cve.evidence@.len() == 0 {
        None
    } else {
        Some(
            "Evidence: "@ + evidence_sites_text(
                cve.evidence@.take(if cve.evidence@.len() < 5 { cve.evidence@.len() as int } else { 5 }),
            ),
        )
    }
}

/// Detail used for a `reachable: false` CVE that is not asserted as not affected.
pub const REACHABILITY_UNASSERTED_DETAIL: &'static str = "Reachability analysis did not find vulnerable code in the execute path; not asserted as not_affected (enable vex.reachability_not_affected to assert).";

/// Statement for an active CVE: reachable is affected, not reachable is not
/// affected only when the configuration opts in (else under investigation
/// with an explaining detail), unknown is under investigation.
pub open spec fn active_statement(pkg: PackageView, cve: CveRecord, config: VexConfig) -> VexStatementView {
    let detail = evidence_detail_text(cve);
    match cve.reachable {
        Some(false) => if config.reachability_not_affected {
            VexStatementView {
                cve_id: cve.id@,
                purl: purl_of(pkg),
                status: VexStatus::NotAffected,
                justification: Some(VexJustification::VulnerableCodeNotInExecutePath),
                detail,
            }
        } else {
            VexStatementView {
                cve_id: cve.id@,
                purl: purl_of(pkg),
                status: VexStatus::UnderInvestigation,
                justification: None,
                detail: Some(
                    match detail {
                        Some(d) => d,
                        None => REACHABILITY_UNASSERTED_DETAIL@,
                    },
                ),
            }
        },
        Some(true) => VexStatementView {
            cve_id: cve.id@,
            purl: purl_of(pkg),
            status: VexStatus::Affected,
            justification: None,
            detail,
        },
        None => VexStatementView {
            cve_id: cve.id@,
            purl: purl_of(pkg),
            status: VexStatus::UnderInvestigation,
            justification: None,
            detail,
        },
    }
}

/// The entry recorded for `id`: the first one with that key.
pub open spec fn fp_lookup(entries: Seq<(String, FpEntry)>, id: Seq<char>) -> Option<FpEntry>
    decreases entries.len(),
{
    if entries.len() == 0 {
        None
    } else if entries[0].0@ == id {
        Some(entries[0].1)
    } else {
        fp_lookup(entries.drop_first(), id)
    }
}

/// Statements of suppressed findings, one per CVE, in order.
pub open spec fn suppressed_statements(fs: Seq<Finding>, entries: Seq<(String, FpEntry)>) -> Seq<VexStatementView>
    decreases fs.len(),
{
    if fs.len() == 0 {
        Seq::empty()
    } else {
        let f = fs.last();
        suppressed_statements(fs.drop_last(), entries) + f.cves@.map_values(
            |c: (CveRecord, Severity)| suppressed_statement(f.package@, c.0.id@, fp_lookup(entries, c.0.id@)),
        )
    }
}

/// Statements of active findings, one per CVE, in order.
pub open spec fn active_statements(fs: Seq<Finding>, config: VexConfig) -> Seq<VexStatementView>
    decreases fs.len(),
{
    if fs.len() == 0 {
        Seq::empty()
    } else {
        let f = fs.last();
        active_statements(fs.drop_last(), config) + f.cves@.map_values(
            |c: (CveRecord, Severity)| active_statement(f.package@, c.0, config),
        )
    }
}

/// The number of CVEs over a list of findings.
pub open spec fn cve_count(fs: Seq<Finding>) -> nat
    decreases fs.len(),
{
    if fs.len() == 0 {
        0
    } else {
        cve_count(fs.drop_last()) + fs.last().cves@.len()
    }
}

proof fn lemma_cve_count_prefix(fs: Seq<Finding>, i: int)
    requires
        0 <= i < fs.len(),
    ensures
        cve_count(fs.take(i + 1)) == cve_count(fs.take(i)) + fs[i].cves@.len(),
        cve_count(fs.take(i)) + fs[i].cves@.len() <= cve_count(fs),
    decreases fs.len(),
{
    assert(fs.take(i + 1).drop_last() =~= fs.take(i));
    assert(fs.take(i + 1).last() == fs[i]);
    if i == fs.len() - 1 {
        assert(fs.take(i) =~= fs.drop_last());
    } else {
        lemma_cve_count_prefix(fs.drop_last(), i);
        assert(fs.drop_last().take(i) =~= fs.take(i));
        assert(fs.drop_last()[i] == fs[i]);
    }
}

proof fn lemma_statement_lengths(fs: Seq<Finding>, entries: Seq<(String, FpEntry)>, config: VexConfig)
    ensures
        active_statements(fs, config).len() == cve_count(fs),
        suppressed_statements(fs, entries).len() == cve_count(fs),
    decreases fs.len(),
{
    if fs.len() > 0 {
        lemma_statement_lengths(fs.drop_last(), entries, config);
    }
}

proof fn lemma_statement_at(fs: Seq<Finding>, entries: Seq<(String, FpEntry)>, config: VexConfig, i: int, j: int)
    requires
        0 <= i < fs.len(),
        0 <= j < fs[i].cves@.len(),
    ensures
        cve_count(fs.take(i)) + j < cve_count(fs),
        active_statements(fs, config)[cve_count(fs.take(i)) + j].cve_id == fs[i].cves@[j].0.id@,
        active_statements(fs, config)[cve_count(fs.take(i)) + j].purl == purl_of(fs[i].package@),
        fs[i].cves@[j].0.reachable == Some(true) ==> active_statements(fs, config)[cve_count(fs.take(i)) + j].status
            == VexStatus::Affected,
        fs[i].cves@[j].0.reachable == Some(false) && config.reachability_not_affected ==> active_statements(
            fs,
            config,
        )[cve_count(fs.take(i)) + j].status == VexStatus::NotAffected && active_statements(fs, config)[cve_count(
            fs.take(i),
        ) + j].justification == Some(VexJustification::VulnerableCodeNotInExecutePath),
        (fs[i].cves@[j].0.reachable is None || (fs[i].cves@[j].0.reachable == Some(false)
            && !config.reachability_not_affected)) ==> active_statements(fs, config)[cve_count(fs.take(i)) + j].status
            == VexStatus::UnderInvestigation,
        suppressed_statements(fs, entries)[cve_count(fs.take(i)) + j].cve_id == fs[i].cves@[j].0.id@,
        suppressed_statements(fs, entries)[cve_count(fs.take(i)) + j].purl == purl_of(fs[i].package@),
    decreases fs.len(),
{
    let fs1 = fs.drop_last();
    let f = fs.last();
    lemma_statement_lengths(fs1, entries, config);
    lemma_cve_count_prefix(fs, i);
    let n = cve_count(fs1);
    let act = active_statements(fs, config);
    let sup = suppressed_statements(fs, entries);
    let mapped_a = f.cves@.map_values(|c: (CveRecord, Severity)| active_statement(f.package@, c.0, config));
    let mapped_s = f.cves@.map_values(
        |c: (CveRecord, Severity)| suppressed_statement(f.package@, c.0.id@, fp_lookup(entries, c.0.id@)),
    );
    assert(act == active_statements(fs1, config) + mapped_a);
    assert(sup == suppressed_statements(fs1, entries) + mapped_s);
    if i == fs.len() - 1 {
        assert(fs.take(i) =~= fs1);
        assert(fs[i] == f);
        assert(act[n + j] == mapped_a[j]);
        assert(sup[n + j] == mapped_s[j]);
    } else {
        assert(fs1.take(i) =~= fs.take(i));
        assert(fs1[i] == fs[i]);
        lemma_statement_at(fs1, entries, config, i, j);
        let k = cve_count(fs1.take(i)) + j;
        assert(act[k] == active_statements(fs1, config)[k]);
        assert(sup[k] == suppressed_statements(fs1, entries)[k]);
    }
}

/// One statement per CVE: the statements of a list of findings are as many
/// as their CVEs, and the statement of CVE `j` of finding `i` (at position
/// `cve_count(fs.take(i)) + j`) names that CVE and the finding's package.
/// An active CVE that is reachable is affected; one that is not reachable
/// is not affected (code not in the execute path) when the configuration
/// asserts reachability, else under investigation, as is one of unknown
/// reachability. A suppressed CVE is named in the same way.
pub proof fn lemma_statements_one_per_cve(fs: Seq<Finding>, entries: Seq<(String, FpEntry)>, config: VexConfig)
    ensures
        active_statements(fs, config).len() == cve_count(fs),
        suppressed_statements(fs, entries).len() == cve_count(fs),
        forall|i: int, j: int|
            0 <= i < fs.len() && 0 <= j < fs[i].cves@.len() ==> {
                let st = #[trigger] active_statements(fs, config)[cve_count(fs.take(i)) + j];
                &&& st.cve_id == fs[i].cves@[j].0.id@
                &&& st.purl == purl_of(fs[i].package@)
                &&& fs[i].cves@[j].0.reachable == Some(true) ==> st.status == VexStatus::Affected
                &&& fs[i].cves@[j].0.reachable == Some(false) && config.reachability_not_affected ==> st.status
                    == VexStatus::NotAffected && st.justification == Some(
                    VexJustification::VulnerableCodeNotInExecutePath,
                )
                &&& (fs[i].cves@[j].0.reachable is None || (fs[i].cves@[j].0.reachable == Some(false)
                    && !config.reachability_not_affected)) ==> st.status == VexStatus::UnderInvestigation
            },
        forall|i: int, j: int|
            0 <= i < fs.len() && 0 <= j < fs[i].cves@.len() ==> {
                let st = #[trigger] suppressed_statements(fs, entries)[cve_count(fs.take(i)) + j];
                &&& st.cve_id == fs[i].cves@[j].0.id@
                &&& st.purl == purl_of(fs[i].package@)
            },
{
    lemma_statement_lengths(fs, entries, config);
    assert forall|i: int, j: int| 0 <= i < fs.len() && 0 <= j < fs[i].cves@.len() implies {
        let st = #[trigger] active_statements(fs, config)[cve_count(fs.take(i)) + j];
        &&& st.cve_id == fs[i].cves@[j].0.id@
        &&& st.purl == purl_of(fs[i].package@)
        &&& fs[i].cves@[j].0.reachable == Some(true) ==> st.status == VexStatus::Affected
        &&& fs[i].cves@[j].0.reachable == Some(false) && config.reachability_not_affected ==> st.status
            == VexStatus::NotAffected && st.justification == Some(VexJustification::VulnerableCodeNotInExecutePath)
        &&& (fs[i].cves@[j].0.reachable is None || (fs[i].cves@[j].0.reachable == Some(false)
            && !config.reachability_not_affected)) ==> st.status == VexStatus::UnderInvestigation
    } by {
        lemma_statement_at(fs, entries, config, i, j);
    }
    assert forall|i: int, j: int| 0 <= i < fs.len() && 0 <= j < fs[i].cves@.len() implies {
        let st = #[trigger] suppressed_statements(fs, entries)[cve_count(fs.take(i)) + j];
        &&& st.cve_id == fs[i].cves@[j].0.id@
        &&& st.purl == purl_of(fs[i].package@)
    } by {
        lemma_statement_at(fs, entries, config, i, j);
    }
}

/// Two finding lists that agree on every package and CVE list (whatever
/// their upgrade plans, manifests or declarations).
pub open spec fn same_packages_and_cves(a: Seq<Finding>, b: Seq<Finding>) -> bool {
    a.len() == b.len() && forall|i: int|
        0 <= i < a.len() ==> (#[trigger] a[i]).package@ == b[i].package@ && a[i].cves@ == b[i].cves@
}

/// The statements of active findings do not depend on upgrade plans: two
/// finding lists with the same packages and CVEs give the same statements,
/// so a planned fixed version never changes a status.
pub proof fn lemma_statements_ignore_upgrade_plans(a: Seq<Finding>, b: Seq<Finding>, config: VexConfig)
    requires
        same_packages_and_cves(a, b),
    ensures
        active_statements(a, config) == active_statements(b, config),
    decreases a.len(),
{
    if a.len() > 0 {
        let a1 = a.drop_last();
        let b1 = b.drop_last();
        assert(same_packages_and_cves(a1, b1)) by {
            assert forall|i: int| 0 <= i < a1.len() implies (#[trigger] a1[i]).package@ == b1[i].package@
                && a1[i].cves@ == b1[i].cves@ by {
                assert(a1[i] == a[i]);
                assert(b1[i] == b[i]);
            }
        }
        lemma_statements_ignore_upgrade_plans(a1, b1, config);
        assert(a.last() == a[a.len() - 1]);
        assert(b.last() == b[b.len() - 1]);
    }
}

fn fp_entry_for<'a>(entries: &'a [(String, FpEntry)], id: &str) -> (r: Option<&'a FpEntry>)
    ensures
        match fp_lookup(entries@, id@) {
            Some(e) => r == Some(&e),
            None => r is None,
        },
{
    let mut i: usize = 0;
    assert(entries@.skip(0) =~= entries@);
    while i < entries.len()
        invariant
            i <= entries.len(),
            fp_lookup(entries@.skip(i as int), id@) == fp_lookup(entries@, id@),
        decreases entries.len() - i,
    {
        assert(entries@.skip(i as int).drop_first() =~= entries@.skip(i + 1));
        if str_eq(entries[i].0.as_str(), id) {
            return Some(&entries[i].1);
        }
        i = i + 1;
    }
    None
}

fn copy_opt_string(o: &Option<String>) -> (r: Option<String>)
    ensures
        opt_view(r) == opt_view(*o),
{
    match o {
        Some(s) => Some(copy_str(s.as_str())),
        None => None,
    }
}

fn statement_for_suppressed(package: &Package, cve_id: &str, entry: Option<&FpEntry>) -> (r: VexStatement)
    ensures
        r@ == suppressed_statement(
            package@,
            cve_id@,
            match entry {
                Some(e) => Some(*e),
                None => None,
            },
        ),
{
    let justification = match entry {
        Some(e) => match &e.justification {
            Some(j) => match VexJustification::parse(j.as_str()) {
                Some(p) => p,
                None => VexJustification::InlineMitigationsAlreadyExist,
            },
            None => VexJustification::InlineMitigationsAlreadyExist,
        },
        None => VexJustification::InlineMitigationsAlreadyExist,
    };
    let status = match entry {
        Some(e) => match &e.status {
            Some(s) => match VexStatus::parse(s.as_str()) {
                Some(p) => p,
                None => VexStatus::NotAffected,
            },
            None => VexStatus::NotAffected,
        },
        None => VexStatus::NotAffected,
    };
    let detail = match entry {
        Some(e) => match &e.detail {
            Some(d) => Some(copy_str(d.as_str())),
            None => if e.comment.as_str().unicode_len() == 0 {
                None
            } else {
                Some(copy_str(e.comment.as_str()))
            },
        },
        None => None,
    };
    VexStatement {
        cve_id: String::from_str(cve_id),
        purl: purl_for_package(package),
        status,
        justification: if status == VexStatus::NotAffected {
            Some(justification)
        } else {
            None
        },
        detail,
    }
}

fn push_site(out: &mut String, e: &CveEvidenceLocation)
    ensures
        final(out)@ == old(out)@ + evidence_site_text(*e),
{
    let ghost start = out@;
    out.append(e.path.as_str());
    out.append(":");
    push_decimal(out, e.start_line as u64);
    out.append(" (");
    out.append(e.symbol.as_str());
    out.append(")");
    assert(out@ =~= start + evidence_site_text(*e));
}

/// Detail naming the first five evidence sites of a CVE.
pub fn evidence_detail(cve: &CveRecord) -> (r: Option<String>)
    ensures
        opt_view(r) == evidence_detail_text(*cve),
{
    if cve.evidence.len() == 0 {
        return None;
    }
    let n: usize = if cve.evidence.len() < 5 { cve.evidence.len() } else { 5 };
    let ghost ev = cve.evidence@;
    let mut out = String::from_str("Evidence: ");
    let ghost prefix = out@;
    let mut i: usize = 0;
    while i < n
        invariant
            ev == cve.evidence@,
            n <= ev.len(),
            i <= n,
            prefix == "Evidence: "@,
            out@ == prefix + evidence_sites_text(ev.take(i as int)),
        decreases n - i,
    {
        if i > 0 {
            out.append("; ");
        }
        push_site(&mut out, &cve.evidence[i]);
        assert(ev.take(i + 1).drop_last() =~= ev.take(i as int));
        proof {
            if i == 0 {
                assert(ev.take(1) =~= seq![ev[0]]);
                assert(out@ =~= prefix + evidence_sites_text(ev.take(i + 1)));
            } else {
                assert(out@ =~= prefix + evidence_sites_text(ev.take(i + 1)));
            }
        }
        i = i + 1;
    }
    Some(out)
}

fn statement_for_active(package: &Package, cve: &CveRecord, config: &VexConfig) -> (r: VexStatement)
    ensures
        r@ == active_statement(package@, *cve, *config),
{
    let purl = purl_for_package(package);
    let detail = evidence_detail(cve);
    let id = copy_str(cve.id.as_str());
    match cve.reachable {
        Some(false) => {
            if config.reachability_not_affected {
                VexStatement {
                    cve_id: id,
                    purl,
                    status: VexStatus::NotAffected,
                    justification: Some(VexJustification::VulnerableCodeNotInExecutePath),
                    detail,
                }
            } else {
                let d = match detail {
                    Some(d) => d,
                    None => String::from_str(REACHABILITY_UNASSERTED_DETAIL),
                };
                VexStatement {
                    cve_id: id,
                    purl,
                    status: VexStatus::UnderInvestigation,
                    justification: None,
                    detail: Some(d),
                }
            }
        },
        Some(true) => VexStatement {
            cve_id: id,
            purl,
            status: VexStatus::Affected,
            justification: None,
            detail,
        },
        None => VexStatement {
            cve_id: id,
            purl,
            status: VexStatus::UnderInvestigation,
            justification: None,
            detail,
        },
    }
}

/// The values of a statement list.
pub open spec fn statement_views(s: Seq<VexStatement>) -> Seq<VexStatementView> {
    s.map_values(|x: VexStatement| x@)
}

/// Derive VEX statements: first one per CVE of each suppressed finding (the
/// false-positive mark decides), then one per CVE of each active finding
/// (reachability decides). An upgrade plan never makes a CVE `fixed`.
pub fn derive_vex_statements(
    findings: &[Finding],
    suppressed_findings: &[Finding],
    fp_entries: &[(String, FpEntry)],
    config: &VexConfig,
) -> (r: Vec<VexStatement>)
    ensures
        statement_views(r@) == suppressed_statements(suppressed_findings@, fp_entries@)
            + active_statements(findings@, *config),
{
    let mut out: Vec<VexStatement> = Vec::new();
    let mut i: usize = 0;
    while i < suppressed_findings.len()
        invariant
            i <= suppressed_findings.len(),
            statement_views(out@) == suppressed_statements(suppressed_findings@.take(i as int), fp_entries@),
        decreases suppressed_findings.len() - i,
    {
        let f = &suppressed_findings[i];
        let ghost start = statement_views(out@);
        let ghost mapped = f.cves@.map_values(
            |c: (CveRecord, Severity)| suppressed_statement(f.package@, c.0.id@, fp_lookup(fp_entries@, c.0.id@)),
        );
        let mut k: usize = 0;
        while k < f.cves.len()
            invariant
                k <= f.cves.len(),
                mapped == f.cves@.map_values(
                    |c: (CveRecord, Severity)| suppressed_statement(f.package@, c.0.id@, fp_lookup(fp_entries@, c.0.id@)),
                ),
                statement_views(out@) == start + mapped.take(k as int),
            decreases f.cves.len() - k,
        {
            let cve_id = f.cves[k].0.id.as_str();
            let entry = fp_entry_for(fp_entries, cve_id);
            let st = statement_for_suppressed(&f.package, cve_id, entry);
            let ghost before = out@;
            out.push(st);
            assert(statement_views(out@) =~= statement_views(before).push(mapped[k as int]));
            assert(mapped.take(k + 1) =~= mapped.take(k as int).push(mapped[k as int]));
            k = k + 1;
        }
        assert(mapped.take(f.cves.len() as int) =~= mapped);
        assert(suppressed_findings@.take(i + 1).drop_last() =~= suppressed_findings@.take(i as int));
        i = i + 1;
    }
    assert(suppressed_findings@.take(suppressed_findings.len() as int) =~= suppressed_findings@);
    let ghost first = statement_views(out@);
    let mut i: usize = 0;
    while i < findings.len()
        invariant
            i <= findings.len(),
            statement_views(out@) == first + active_statements(findings@.take(i as int), *config),
        decreases findings.len() - i,
    {
        let f = &findings[i];
        let ghost start = statement_views(out@);
        let ghost mapped = f.cves@.map_values(
            |c: (CveRecord, Severity)| active_statement(f.package@, c.0, *config),
        );
        let mut k: usize = 0;
        while k < f.cves.len()
            invariant
                k <= f.cves.len(),
                mapped == f.cves@.map_values(
                    |c: (CveRecord, Severity)| active_statement(f.package@, c.0, *config),
                ),
                statement_views(out@) == start + mapped.take(k as int),
            decreases f.cves.len() - k,
        {
            let st = statement_for_active(&f.package, &f.cves[k].0, config);
            let ghost before = out@;
            out.push(st);
            assert(statement_views(out@) =~= statement_views(before).push(mapped[k as int]));
            assert(mapped.take(k + 1) =~= mapped.take(k as int).push(mapped[k as int]));
            k = k + 1;
        }
        assert(mapped.take(f.cves.len() as int) =~= mapped);
        assert(findings@.take(i + 1).drop_last() =~= findings@.take(i as int));
        assert(statement_views(out@) =~= first + active_statements(findings@.take(i + 1), *config));
        i = i + 1;
    }
    assert(findings@.take(findings.len() as int) =~= findings@);
    out
}

/// CycloneDX `analysis` of a statement: its state, the CycloneDX
/// justification when not affected and justified, and its detail.
#[derive(Debug, Clone, PartialEq, Eq)]
pub struct CycloneDxAnalysis {
    pub state: &'static str,
    pub justification: Option<&'static str>,
    pub detail: Option<String>,
}

/// Build the CycloneDX `analysis` fields for a statement (empty fields left out).
pub fn cyclonedx_analysis_for(statement: &VexStatement) -> (r: CycloneDxAnalysis)
    ensures
        r.state@ == match statement.status {
            VexStatus::NotAffected => "not_affected"@,
            VexStatus::Affected => "exploitable"@,
            VexStatus::UnderInvestigation => "in_triage"@,
        },
        match (statement.status, statement.justification) {
            (VexStatus::NotAffected, Some(j)) => r.justification matches Some(t) && t@
                == cyclonedx_justification(j),
            _ => r.justification is None,
        },
        opt_view(r.detail) == opt_view(statement.detail),
{
    let justification = match (statement.status, statement.justification) {
        (VexStatus::NotAffected, Some(j)) => Some(cisa_to_cyclonedx_justification(j)),
        _ => None,
    };
    CycloneDxAnalysis {
        state: statement.status.as_cyclonedx_state(),
        justification,
        detail: copy_opt_string(&statement.detail),
    }
}

} // verus!
