//! VEX consumption: statements read from OpenVEX and CycloneDX analysis
//! documents, their status and justification vocabulary, and which
//! vulnerability ids they may suppress under the ingest policy. Unknown
//! statuses and untrusted documents never drop a finding silently.
use vstd::prelude::*;

use crate::json::{json_bytes_parsed, json_get, json_get_array, json_get_str, json_str, parse_json_bytes, JsonValue};
use crate::matching::string_views;
use crate::text::lower_seq;
use crate::vex::opt_view;
use crate::model::{normalize_vuln_id, normalized_vuln_id};
use crate::text::{chars_of, starts_with, starts_with_vec, str_eq, trim, trim_string};
use crate::vex::{parse_justification, VexJustification, VexStatus, OPENVEX_CONTEXT};

verus! {

/// Document kind detected for an ingest path.
#[derive(Debug, Clone, Copy, PartialEq, Eq, Structural)]
pub enum VexIngestKind {
    OpenVex,
    CycloneDxAnalysis,
}

/// Source document of one ingested statement.
#[derive(Debug, Clone, Copy, PartialEq, Eq, Structural)]
pub enum VexIngestSource {
    OpenVex,
    CycloneDx,
}

/// Ingest status after mapping onto the known vocabulary.
#[derive(Debug, Clone, Copy, PartialEq, Eq, Structural)]
pub enum IngestStatus {
    NotAffected,
    Fixed,
    Affected,
    UnderInvestigation,
    /// Present in the document but not a known status.
    Unknown,
}

impl IngestStatus {
    /// True when this status may suppress a finding: not affected or fixed.
    pub fn may_suppress(self) -> (r: bool)
        ensures
            r == (self == IngestStatus::NotAffected || self == IngestStatus::Fixed),
    {
        match self {
            IngestStatus::NotAffected | IngestStatus::Fixed => true,
            _ => false,
        }
    }
}

/// One statement extracted from an OpenVEX or CycloneDX analysis document.
#[derive(Debug, Clone, PartialEq, Eq)]
pub struct IngestedVexStatement {
    pub vuln_id: String,
    pub purl: Option<String>,
    pub product_ids: Vec<String>,
    pub status: IngestStatus,
    pub justification: Option<String>,
    pub detail: Option<String>,
    pub source: VexIngestSource,
    pub source_path: String,
    /// False when the document is unsigned and the policy rejects unsigned.
    pub trusted: bool,
}

/// Result of parsing one VEX ingest file.
#[derive(Debug, Clone)]
pub struct VexIngestParseResult {
    pub statements: Vec<IngestedVexStatement>,
    pub warnings: Vec<String>,
    pub kind: Option<VexIngestKind>,
}

impl Default for VexIngestParseResult {
    fn default() -> (r: Self)
        ensures
            r.statements@.len() == 0,
            r.warnings@.len() == 0,
            r.kind.is_none(),
    {
        VexIngestParseResult { statements: Vec::new(), warnings: Vec::new(), kind: None }
    }
}

/// Policy for applying ingested statements.
#[derive(Debug, Clone)]
pub struct VexIngestPolicy {
    /// When false, unsigned documents never suppress.
    pub allow_unsigned: bool,
    /// Optional product id filter.
    pub product_id: Option<String>,
}

impl Default for VexIngestPolicy {
    fn default() -> (r: Self)
        ensures
            r.allow_unsigned,
            r.product_id.is_none(),
    {
        VexIngestPolicy { allow_unsigned: true, product_id: None }
    }
}

/// Known OpenVEX `@context` URLs accepted for ingest.
pub fn openvex_ingest_contexts() -> (r: Vec<&'static str>)
    ensures
        r@.len() == 3,
        r@[0]@ == OPENVEX_CONTEXT@,
        r@[1]@ == "https://openvex.dev/ns"@,
        r@[2]@ == "https://openvex.dev/ns/v0.2.0"@,
{
    let mut v: Vec<&'static str> = Vec::new();
    v.push(OPENVEX_CONTEXT);
    v.push("https://openvex.dev/ns");
    v.push("https://openvex.dev/ns/v0.2.0");
    v
}

/// An accepted OpenVEX context: one of the known URLs or any URL under
/// `https://openvex.dev/ns` (after trimming).
pub open spec fn openvex_context_accepted(s: Seq<char>) -> bool {
    let t = trim(s);
    t == OPENVEX_CONTEXT@ || t == "https://openvex.dev/ns"@ || t == "https://openvex.dev/ns/v0.2.0"@
        || starts_with(t, "https://openvex.dev/ns"@)
}

/// Whether `s` is an accepted OpenVEX `@context`.
pub fn openvex_context_ok(s: &str) -> (r: bool)
    ensures
        r == openvex_context_accepted(s@),
{
    let t = trim_string(s);
    let contexts = openvex_ingest_contexts();
    let mut i: usize = 0;
    while i < contexts.len()
        invariant
            i <= contexts.len(),
            contexts@.len() == 3,
            contexts@[0]@ == OPENVEX_CONTEXT@,
            contexts@[1]@ == "https://openvex.dev/ns"@,
            contexts@[2]@ == "https://openvex.dev/ns/v0.2.0"@,
            t@ == trim(s@),
            forall|k: int| 0 <= k < i ==> contexts@[k]@ != t@,
        decreases contexts.len() - i,
    {
        if str_eq(t.as_str(), contexts[i]) {
            return true;
        }
        i = i + 1;
    }
    let tv = chars_of(t.as_str());
    let p = chars_of("https://openvex.dev/ns");
    starts_with_vec(tv.as_slice(), p.as_slice())
}

/// The ingest status an OpenVEX status names (after trimming).
pub open spec fn openvex_status_of(raw: Seq<char>) -> IngestStatus {
    let t = trim(raw);
    if t == "not_affected"@ {
        IngestStatus::NotAffected
    } else if t == "fixed"@ {
        IngestStatus::Fixed
    } else if t == "affected"@ {
        IngestStatus::Affected
    } else if t == "under_investigation"@ {
        IngestStatus::UnderInvestigation
    } else {
        IngestStatus::Unknown
    }
}

/// Map an OpenVEX status string onto the ingest vocabulary.
pub fn map_openvex_status(raw: &str) -> (r: IngestStatus)
    ensures
        r == openvex_status_of(raw@),
{
    let t = trim_string(raw);
    let s = t.as_str();
    if str_eq(s, "not_affected") {
        IngestStatus::NotAffected
    } else if str_eq(s, "fixed") {
        IngestStatus::Fixed
    } else if str_eq(s, "affected") {
        IngestStatus::Affected
    } else if str_eq(s, "under_investigation") {
        IngestStatus::UnderInvestigation
    } else {
        IngestStatus::Unknown
    }
}

/// The ingest status a CycloneDX `analysis.state` names (after trimming).
pub open spec fn cyclonedx_status_of(raw: Seq<char>) -> IngestStatus {
    let t = trim(raw);
    if t == "not_affected"@ || t == "false_positive"@ {
        IngestStatus::NotAffected
    } else if t == "resolved"@ || t == "resolved_with_pedigree"@ {
        IngestStatus::Fixed
    } else if t == "exploitable"@ {
        IngestStatus::Affected
    } else if t == "in_triage"@ {
        IngestStatus::UnderInvestigation
    } else {
        IngestStatus::Unknown
    }
}

/// Map a CycloneDX `analysis.state` onto the ingest vocabulary.
pub fn map_cyclonedx_state(raw: &str) -> (r: IngestStatus)
    ensures
        r == cyclonedx_status_of(raw@),
{
    let t = trim_string(raw);
    let s = t.as_str();
    if str_eq(s, "not_affected") || str_eq(s, "false_positive") {
        IngestStatus::NotAffected
    } else if str_eq(s, "resolved") || str_eq(s, "resolved_with_pedigree") {
        IngestStatus::Fixed
    } else if str_eq(s, "exploitable") {
        IngestStatus::Affected
    } else if str_eq(s, "in_triage") {
        IngestStatus::UnderInvestigation
    } else {
        IngestStatus::Unknown
    }
}

/// A documented product id matches the wanted one, exactly or after trimming.
pub open spec fn product_matches(documented: Seq<char>, want: Seq<char>) -> bool {
    documented == want || trim(documented) == trim(want)
}

/// Whether a documented product id matches the wanted one.
pub fn product_id_matches(documented: &str, want: &str) -> (r: bool)
    ensures
        r == product_matches(documented@, want@),
{
    if str_eq(documented, want) {
        return true;
    }
    let a = trim_string(documented);
    let b = trim_string(want);
    str_eq(a.as_str(), b.as_str())
}

/// The generate-side justification of an ingested justification: a CISA
/// value, else a CycloneDX value mapped back.
pub open spec fn ingest_justification(raw: Option<Seq<char>>) -> Option<VexJustification> {
    match raw {
        None => None,
        Some(s) => match parse_justification(s) {
            Some(j) => Some(j),
            None => if s == "code_not_present"@ {
                Some(VexJustification::VulnerableCodeNotPresent)
            } else if s == "code_not_reachable"@ {
                Some(VexJustification::VulnerableCodeNotInExecutePath)
            } else if s == "requires_dependency"@ {
                Some(VexJustification::ComponentNotPresent)
            } else if s == "protected_at_perimeter"@ {
                Some(VexJustification::VulnerableCodeCannotBeControlledByAdversary)
            } else if s == "protected_by_mitigating_control"@ {
                Some(VexJustification::InlineMitigationsAlreadyExist)
            } else {
                None
            },
        },
    }
}

/// Map an ingest justification onto the generate vocabulary when possible.
pub fn ingest_justification_as_vex(raw: Option<&str>) -> (r: Option<VexJustification>)
    ensures
        r == ingest_justification(
            match raw {
                Some(s) => Some(s@),
                None => None,
            },
        ),
{
    match raw {
        None => None,
        Some(s) => match VexJustification::parse(s) {
            Some(j) => Some(j),
            None => if str_eq(s, "code_not_present") {
                Some(VexJustification::VulnerableCodeNotPresent)
            } else if str_eq(s, "code_not_reachable") {
                Some(VexJustification::VulnerableCodeNotInExecutePath)
            } else if str_eq(s, "requires_dependency") {
                Some(VexJustification::ComponentNotPresent)
            } else if str_eq(s, "protected_at_perimeter") {
                Some(VexJustification::VulnerableCodeCannotBeControlledByAdversary)
            } else if str_eq(s, "protected_by_mitigating_control") {
                Some(VexJustification::InlineMitigationsAlreadyExist)
            } else {
                None
            },
        },
    }
}

/// Map an ingest status to the generate status: not affected and fixed are
/// not affected; unknown has none.
pub fn ingest_status_as_vex(status: IngestStatus) -> (r: Option<VexStatus>)
    ensures
        r == match status {
            IngestStatus::NotAffected | IngestStatus::Fixed => Some(VexStatus::NotAffected),
            IngestStatus::Affected => Some(VexStatus::Affected),
            IngestStatus::UnderInvestigation => Some(VexStatus::UnderInvestigation),
            IngestStatus::Unknown => None::<VexStatus>,
        },
{
    match status {
        IngestStatus::NotAffected | IngestStatus::Fixed => Some(VexStatus::NotAffected),
        IngestStatus::Affected => Some(VexStatus::Affected),
        IngestStatus::UnderInvestigation => Some(VexStatus::UnderInvestigation),
        IngestStatus::Unknown => None,
    }
}

/// What the policy makes of one statement.
pub enum SuppressOutcome {
    /// Unsigned and unsigned documents are not allowed.
    Untrusted,
    /// Status may not suppress; `warn` when the status is unknown.
    Kept { warn: bool },
    /// Product ids given, none matches the wanted one.
    ProductMismatch,
    /// Suppresses the normalized id (when it is not empty).
    Suppress,
}

/// The outcome of one statement under the policy.
pub open spec fn suppress_outcome(st: IngestedVexStatement, policy: VexIngestPolicy) -> SuppressOutcome {
    if !st.trusted {
        SuppressOutcome::Untrusted
    } else if !(st.status == IngestStatus::NotAffected || st.status == IngestStatus::Fixed) {
        SuppressOutcome::Kept { warn: st.status == IngestStatus::Unknown }
    } else if (match policy.product_id {
        Some(want) => st.product_ids@.len() > 0 && !(exists|i: int|
            0 <= i < st.product_ids@.len() && product_matches(st.product_ids@[i]@, want@)),
        None => false,
    }) {
        SuppressOutcome::ProductMismatch
    } else {
        SuppressOutcome::Suppress
    }
}

/// Warning text of one statement, if any.
pub open spec fn suppress_warning(st: IngestedVexStatement, policy: VexIngestPolicy) -> Option<Seq<char>> {
    match suppress_outcome(st, policy) {
        SuppressOutcome::Untrusted => Some(
            "VEX ingest "@ + st.source_path@ + ": unsigned statement for "@ + st.vuln_id@
                + " ignored (allow_unsigned_vex is false)"@,
        ),
        SuppressOutcome::Kept { warn } => if warn {
            Some("VEX ingest "@ + st.source_path@ + ": unknown status for "@ + st.vuln_id@
                + "; finding kept"@)
        } else {
            None
        },
        SuppressOutcome::ProductMismatch => Some(
            "VEX ingest "@ + st.source_path@ + ": product mismatch for "@ + st.vuln_id@
                + " (want "@ + match policy.product_id {
                Some(w) => w@,
                None => Seq::empty(),
            } + "); finding kept"@,
        ),
        SuppressOutcome::Suppress => None,
    }
}

/// Suppress keys of the statements, in first-seen order, each once.
pub open spec fn suppress_keys(sts: Seq<IngestedVexStatement>, policy: VexIngestPolicy) -> Seq<Seq<char>>
    decreases sts.len(),
{
    if sts.len() == 0 {
        Seq::empty()
    } else {
        let prev = suppress_keys(sts.drop_last(), policy);
        let st = sts.last();
        let key = normalized_vuln_id(st.vuln_id@);
        if suppress_outcome(st, policy) is Suppress && key.len() > 0 && !prev.contains(key) {
            prev.push(key)
        } else {
            prev
        }
    }
}

/// Warnings of the statements, in order.
pub open spec fn suppress_warnings(sts: Seq<IngestedVexStatement>, policy: VexIngestPolicy) -> Seq<Seq<char>>
    decreases sts.len(),
{
    if sts.len() == 0 {
        Seq::empty()
    } else {
        let prev = suppress_warnings(sts.drop_last(), policy);
        match suppress_warning(sts.last(), policy) {
            Some(w) => prev.push(w),
            None => prev,
        }
    }
}

fn contains_string(v: &Vec<String>, s: &str) -> (r: bool)
    ensures
        r == string_views(v@).contains(s@),
{
    let mut i: usize = 0;
    while i < v.len()
        invariant
            i <= v.len(),
            forall|k: int| 0 <= k < i ==> v@[k]@ != s@,
        decreases v.len() - i,
    {
        if str_eq(v[i].as_str(), s) {
            assert(string_views(v@)[i as int] == s@);
            return true;
        }
        i = i + 1;
    }
    assert(!string_views(v@).contains(s@)) by {
        if string_views(v@).contains(s@) {
            let k = choose|k: int| 0 <= k < v@.len() && string_views(v@)[k] == s@;
            assert(v@[k]@ == s@);
        }
    }
    false
}

fn push_string(v: &mut Vec<String>, s: String)
    ensures
        string_views(final(v)@) == string_views(old(v)@).push(s@),
{
    let ghost before = v@;
    let ghost sv = s@;
    v.push(s);
    assert(string_views(v@) =~= string_views(before).push(sv));
}

fn statement_warning(st: &IngestedVexStatement, policy: &VexIngestPolicy) -> (r: (bool, Option<String>))
    ensures
        r.0 == (suppress_outcome(*st, *policy) is Suppress),
        match r.1 {
            Some(w) => suppress_warning(*st, *policy) == Some(w@),
            None => suppress_warning(*st, *policy) is None,
        },
{
    if !st.trusted {
        let mut w = String::from_str("VEX ingest ");
        w.append(st.source_path.as_str());
        w.append(": unsigned statement for ");
        w.append(st.vuln_id.as_str());
        w.append(" ignored (allow_unsigned_vex is false)");
        return (false, Some(w));
    }
    if !st.status.may_suppress() {
        if st.status == IngestStatus::Unknown {
            let mut w = String::from_str("VEX ingest ");
            w.append(st.source_path.as_str());
            w.append(": unknown status for ");
            w.append(st.vuln_id.as_str());
            w.append("; finding kept");
            return (false, Some(w));
        }
        return (false, None);
    }
    match &policy.product_id {
        Some(want) => {
            if st.product_ids.len() > 0 {
                let mut any = false;
                let mut i: usize = 0;
                while i < st.product_ids.len()
                    invariant
                        i <= st.product_ids.len(),
                        any == (exists|k: int|
                            0 <= k < i && product_matches(st.product_ids@[k]@, want@)),
                    decreases st.product_ids.len() - i,
                {
                    if product_id_matches(st.product_ids[i].as_str(), want.as_str()) {
                        any = true;
                    }
                    proof {
                        if any && !(exists|k: int| 0 <= k < i && product_matches(st.product_ids@[k]@, want@)) {
                            assert(product_matches(st.product_ids@[i as int]@, want@));
                        }
                        if exists|k: int| 0 <= k < i + 1 && product_matches(st.product_ids@[k]@, want@) {
                            let k = choose|k: int| 0 <= k < i + 1 && product_matches(st.product_ids@[k]@, want@);
                            if k < i {
                                assert(exists|k2: int| 0 <= k2 < i && product_matches(st.product_ids@[k2]@, want@));
                            }
                        }
                    }
                    i = i + 1;
                }
                if !any {
                    let mut w = String::from_str("VEX ingest ");
                    w.append(st.source_path.as_str());
                    w.append(": product mismatch for ");
                    w.append(st.vuln_id.as_str());
                    w.append(" (want ");
                    w.append(want.as_str());
                    w.append("); finding kept");
                    return (false, Some(w));
                }
            }
        },
        None => {},
    }
    (true, None)
}

/// Collect the vulnerability ids that suppress findings under the policy
/// (normalized, each once) and append a warning for every statement that is
/// untrusted, of unknown status, or for another product.
pub fn suppress_vuln_ids(
    statements: &[IngestedVexStatement],
    policy: &VexIngestPolicy,
    warnings: &mut Vec<String>,
) -> (r: Vec<String>)
    ensures
        string_views(r@) == suppress_keys(statements@, *policy),
        string_views(final(warnings)@) == string_views(old(warnings)@) + suppress_warnings(
            statements@,
            *policy,
        ),
{
    let ghost w0 = string_views(warnings@);
    let mut out: Vec<String> = Vec::new();
    let mut i: usize = 0;
    while i < statements.len()
        invariant
            i <= statements.len(),
            string_views(out@) == suppress_keys(statements@.take(i as int), *policy),
            string_views(warnings@) == w0 + suppress_warnings(statements@.take(i as int), *policy),
        decreases statements.len() - i,
    {
        let st = &statements[i];
        assert(statements@.take(i + 1).drop_last() =~= statements@.take(i as int));
        assert(statements@.take(i + 1).last() == statements@[i as int]);
        let (suppress, warning) = statement_warning(st, policy);
        match warning {
            Some(w) => {
                push_string(warnings, w);
            },
            None => {},
        }
        if suppress {
            let key = normalize_vuln_id(st.vuln_id.as_str());
            if key.as_str().unicode_len() > 0 && !contains_string(&out, key.as_str()) {
                push_string(&mut out, key);
            }
        }
        assert(string_views(warnings@) =~= w0 + suppress_warnings(statements@.take(i + 1), *policy));
        i = i + 1;
    }
    assert(statements@.take(statements.len() as int) =~= statements@);
    out
}

/// Union of the ignore-database keys and the ingested suppress keys (the
/// ignore keys first, then new ingested ones).
pub fn merge_suppress_keys(ignore_keys: &[String], ingested: Vec<String>) -> (r: Vec<String>)
    ensures
        forall|k: Seq<char>| #[trigger] string_views(r@).contains(k) <==> (string_views(
            ignore_keys@,
        ).contains(k) || string_views(ingested@).contains(k)),
{
    let mut out: Vec<String> = Vec::new();
    let mut i: usize = 0;
    while i < ignore_keys.len()
        invariant
            i <= ignore_keys.len(),
            forall|k: Seq<char>| #[trigger] string_views(out@).contains(k) <==> string_views(
                ignore_keys@.take(i as int),
            ).contains(k),
        decreases ignore_keys.len() - i,
    {
        let ghost before = string_views(out@);
        assert(forall|k: Seq<char>| #[trigger] before.contains(k) <==> string_views(
            ignore_keys@.take(i as int),
        ).contains(k));
        push_string(&mut out, String::from_str(ignore_keys[i].as_str()));
        proof {
            let t0 = string_views(ignore_keys@.take(i as int));
            let t1 = string_views(ignore_keys@.take(i + 1));
            assert(t1 =~= t0.push(ignore_keys@[i as int]@));
            assert forall|k: Seq<char>| #[trigger] string_views(out@).contains(k) <==> t1.contains(k) by {
                if t1.contains(k) {
                    let m = choose|m: int| 0 <= m < t1.len() && t1[m] == k;
                    if m < t0.len() {
                        assert(t0[m] == k);
                        assert(before.contains(k));
                        let a = choose|a: int| 0 <= a < before.len() && before[a] == k;
                        assert(string_views(out@)[a] == k);
                    } else {
                        assert(string_views(out@)[before.len() as int] == k);
                    }
                }
                if string_views(out@).contains(k) {
                    let a = choose|a: int| 0 <= a < string_views(out@).len() && string_views(out@)[a] == k;
                    if a < before.len() {
                        assert(before[a] == k);
                        assert(before.contains(k));
                        assert(t0.contains(k));
                        let m = choose|m: int| 0 <= m < t0.len() && t0[m] == k;
                        assert(t1[m] == k);
                    } else {
                        assert(t1[t0.len() as int] == k);
                    }
                }
            }
        }
        i = i + 1;
    }
    assert(ignore_keys@.take(ignore_keys.len() as int) =~= ignore_keys@);
    let ghost base = string_views(out@);
    let mut j: usize = 0;
    while j < ingested.len()
        invariant
            j <= ingested.len(),
            forall|k: Seq<char>| #[trigger] string_views(out@).contains(k) <==> (base.contains(k)
                || string_views(ingested@.take(j as int)).contains(k)),
        decreases ingested.len() - j,
    {
        let ghost before = string_views(out@);
        assert(forall|k: Seq<char>| #[trigger] before.contains(k) <==> (base.contains(k)
            || string_views(ingested@.take(j as int)).contains(k)));
        let key = String::from_str(ingested[j].as_str());
        if !contains_string(&out, key.as_str()) {
            push_string(&mut out, key);
        }
        proof {
            let t0 = string_views(ingested@.take(j as int));
            let t1 = string_views(ingested@.take(j + 1));
            let x = ingested@[j as int]@;
            assert(t1 =~= t0.push(x));
            assert(string_views(out@).contains(x)) by {
                if before.contains(x) {
                    let a = choose|a: int| 0 <= a < before.len() && before[a] == x;
                    assert(string_views(out@)[a] == x);
                } else {
                    assert(string_views(out@)[before.len() as int] == x);
                }
            }
            assert forall|k: Seq<char>| #[trigger] string_views(out@).contains(k) <==> (base.contains(k)
                || t1.contains(k)) by {
                if t1.contains(k) {
                    let m = choose|m: int| 0 <= m < t1.len() && t1[m] == k;
                    if m < t0.len() {
                        assert(t0[m] == k);
                        assert(before.contains(k));
                        let a = choose|a: int| 0 <= a < before.len() && before[a] == k;
                        assert(string_views(out@)[a] == k);
                    }
                }
                if base.contains(k) {
                    assert(before.contains(k));
                    let a = choose|a: int| 0 <= a < before.len() && before[a] == k;
                    assert(string_views(out@)[a] == k);
                }
                if string_views(out@).contains(k) {
                    let a = choose|a: int| 0 <= a < string_views(out@).len() && string_views(out@)[a] == k;
                    if a < before.len() {
                        assert(before[a] == k);
                        assert(before.contains(k));
                        if t0.contains(k) {
                            let m = choose|m: int| 0 <= m < t0.len() && t0[m] == k;
                            assert(t1[m] == k);
                        }
                    } else {
                        assert(t1[t0.len() as int] == k);
                    }
                }
            }
        }
        j = j + 1;
    }
    assert(ingested@.take(ingested.len() as int) =~= ingested@);
    out
}

/// Mathematical value of an [`IngestedVexStatement`].
pub struct IngestedView {
    pub vuln_id: Seq<char>,
    pub purl: Option<Seq<char>>,
    pub product_ids: Seq<Seq<char>>,
    pub status: IngestStatus,
    pub justification: Option<Seq<char>>,
    pub detail: Option<Seq<char>>,
    pub source: VexIngestSource,
    pub source_path: Seq<char>,
    pub trusted: bool,
}

impl View for IngestedVexStatement {
    type V = IngestedView;

    open spec fn view(&self) -> IngestedView {
        IngestedView {
            vuln_id: self.vuln_id@,
            purl: opt_view(self.purl),
            product_ids: string_views(self.product_ids@),
            status: self.status,
            justification: opt_view(self.justification),
            detail: opt_view(self.detail),
            source: self.source,
            source_path: self.source_path@,
            trusted: self.trusted,
        }
    }
}

/// The values of a statement list.
pub open spec fn ingested_views(s: Seq<IngestedVexStatement>) -> Seq<IngestedView> {
    s.map_values(|x: IngestedVexStatement| x@)
}

/// A text trimmed, or `None` when absent or blank.
pub open spec fn nonblank(o: Option<Seq<char>>) -> Option<Seq<char>> {
    match o {
        Some(s) => if trim(s).len() > 0 {
            Some(trim(s))
        } else {
            None
        },
        None => None,
    }
}

/// Vulnerability name of an OpenVEX statement: `vulnerability.name`, else
/// `vulnerability` itself when it is a string; trimmed, blanks ignored.
pub open spec fn openvex_vuln_name_of(stmt: JsonValue) -> Option<Seq<char>> {
    match json_get(stmt, "vulnerability"@) {
        None => None,
        Some(v) => match nonblank(json_get_str(v, "name"@)) {
            Some(n) => Some(n),
            None => nonblank(json_str(v)),
        },
    }
}

/// `@id`s of subcomponents that are not package URLs.
pub open spec fn sub_products(subs: Seq<JsonValue>) -> Seq<Seq<char>>
    decreases subs.len(),
{
    if subs.len() == 0 {
        Seq::empty()
    } else {
        let prev = sub_products(subs.drop_last());
        match json_get_str(subs.last(), "@id"@) {
            Some(id) => if starts_with(id, "pkg:"@) {
                prev
            } else {
                prev.push(id)
            },
            None => prev,
        }
    }
}

/// `@id`s of subcomponents that are package URLs.
pub open spec fn sub_purls(subs: Seq<JsonValue>) -> Seq<Seq<char>>
    decreases subs.len(),
{
    if subs.len() == 0 {
        Seq::empty()
    } else {
        let prev = sub_purls(subs.drop_last());
        match json_get_str(subs.last(), "@id"@) {
            Some(id) => if starts_with(id, "pkg:"@) {
                prev.push(id)
            } else {
                prev
            },
            None => prev,
        }
    }
}

/// Subcomponents of a product (empty when absent).
pub open spec fn subcomponents_of(p: JsonValue) -> Seq<JsonValue> {
    match json_get_array(p, "subcomponents"@) {
        Some(a) => a,
        None => Seq::empty(),
    }
}

/// Product ids named by products: each product's `@id`, then its
/// subcomponent ids that are not package URLs.
pub open spec fn products_of(ps: Seq<JsonValue>) -> Seq<Seq<char>>
    decreases ps.len(),
{
    if ps.len() == 0 {
        Seq::empty()
    } else {
        let p = ps.last();
        products_of(ps.drop_last()) + (match json_get_str(p, "@id"@) {
            Some(id) => seq![id],
            None => Seq::empty(),
        }) + sub_products(subcomponents_of(p))
    }
}

/// Package URLs named by the subcomponents of products.
pub open spec fn purls_of(ps: Seq<JsonValue>) -> Seq<Seq<char>>
    decreases ps.len(),
{
    if ps.len() == 0 {
        Seq::empty()
    } else {
        purls_of(ps.drop_last()) + sub_purls(subcomponents_of(ps.last()))
    }
}

/// The products array of a statement (empty when absent).
pub open spec fn products_array(stmt: JsonValue) -> Seq<JsonValue> {
    match json_get_array(stmt, "products"@) {
        Some(a) => a,
        None => Seq::empty(),
    }
}

/// First element of a list of texts, if any.
pub open spec fn first_text(s: Seq<Seq<char>>) -> Option<Seq<char>> {
    if s.len() > 0 {
        Some(s[0])
    } else {
        None
    }
}

/// The text of an optional string member, empty when absent.
pub open spec fn text_or_empty(o: Option<Seq<char>>) -> Seq<char> {
    match o {
        Some(s) => s,
        None => Seq::empty(),
    }
}

/// What one OpenVEX statement contributes: the statement (unless it has no
/// vulnerability name) and its warnings.
pub open spec fn openvex_item(stmt: JsonValue, path: Seq<char>, trusted: bool) -> (Option<IngestedView>, Seq<Seq<char>>) {
    match openvex_vuln_name_of(stmt) {
        None => (None, seq!["VEX ingest "@ + path + ": statement missing vulnerability.name; skipped"@]),
        Some(id) => {
            let raw = text_or_empty(json_get_str(stmt, "status"@));
            let status = openvex_status_of(raw);
            let warns = if status == IngestStatus::Unknown && raw.len() > 0 {
                seq![
                    "VEX ingest "@ + path + ": unknown OpenVEX status `"@ + raw + "` for "@ + id
                        + "; finding kept"@,
                ]
            } else {
                Seq::empty()
            };
            (
                Some(
                    IngestedView {
                        vuln_id: id,
                        purl: first_text(purls_of(products_array(stmt))),
                        product_ids: products_of(products_array(stmt)),
                        status,
                        justification: json_get_str(stmt, "justification"@),
                        detail: json_get_str(stmt, "impact_statement"@),
                        source: VexIngestSource::OpenVex,
                        source_path: path,
                        trusted,
                    },
                ),
                warns,
            )
        },
    }
}

/// Statements and warnings of a list of document items.
pub open spec fn fold_items(
    items: Seq<JsonValue>,
    f: spec_fn(JsonValue) -> (Option<IngestedView>, Seq<Seq<char>>),
) -> (Seq<IngestedView>, Seq<Seq<char>>)
    decreases items.len(),
{
    if items.len() == 0 {
        (Seq::empty(), Seq::empty())
    } else {
        let prev = fold_items(items.drop_last(), f);
        let cur = f(items.last());
        (
            match cur.0 {
                Some(x) => prev.0.push(x),
                None => prev.0,
            },
            prev.1 + cur.1,
        )
    }
}

/// Package URLs named by `affects[].ref`.
pub open spec fn affect_purls(a: Seq<JsonValue>) -> Seq<Seq<char>>
    decreases a.len(),
{
    if a.len() == 0 {
        Seq::empty()
    } else {
        let prev = affect_purls(a.drop_last());
        match json_get_str(a.last(), "ref"@) {
            Some(r) => if starts_with(r, "pkg:"@) {
                prev.push(r)
            } else {
                prev
            },
            None => prev,
        }
    }
}

/// What one CycloneDX vulnerability contributes: its analysis as a
/// statement (rows without an analysis are inventory only) and warnings.
pub open spec fn cyclonedx_item(vuln: JsonValue, path: Seq<char>, trusted: bool) -> (Option<IngestedView>, Seq<Seq<char>>) {
    match nonblank(json_get_str(vuln, "id"@)) {
        None => (None, seq!["VEX ingest "@ + path + ": CycloneDX vulnerability missing id; skipped"@]),
        Some(id) => match json_get(vuln, "analysis"@) {
            None => (None, Seq::empty()),
            Some(analysis) => {
                let state = text_or_empty(json_get_str(analysis, "state"@));
                let status = cyclonedx_status_of(state);
                let warns = if status == IngestStatus::Unknown && state.len() > 0 {
                    seq![
                        "VEX ingest "@ + path + ": unknown CycloneDX analysis.state `"@ + state
                            + "` for "@ + id + "; finding kept"@,
                    ]
                } else {
                    Seq::empty()
                };
                let affects = match json_get_array(vuln, "affects"@) {
                    Some(a) => a,
                    None => Seq::empty(),
                };
                (
                    Some(
                        IngestedView {
                            vuln_id: id,
                            purl: first_text(affect_purls(affects)),
                            product_ids: Seq::empty(),
                            status,
                            justification: json_get_str(analysis, "justification"@),
                            detail: json_get_str(analysis, "detail"@),
                            source: VexIngestSource::CycloneDx,
                            source_path: path,
                            trusted,
                        },
                    ),
                    warns,
                )
            },
        },
    }
}

/// An array element that is an accepted OpenVEX context.
pub open spec fn accepted_context_item(v: JsonValue) -> bool {
    match json_str(v) {
        Some(t) => openvex_context_accepted(t),
        None => false,
    }
}

/// Some element is an accepted OpenVEX context.
pub open spec fn any_accepted_context(items: Seq<JsonValue>) -> bool {
    exists|i: int| 0 <= i < items.len() && #[trigger] accepted_context_item(items[i])
}

/// The document names an accepted OpenVEX `@context` (a string or an array
/// holding one).
pub open spec fn is_openvex(value: JsonValue) -> bool {
    match json_get(value, "@context"@) {
        Some(JsonValue::String(s)) => openvex_context_accepted(s@),
        Some(JsonValue::Array(items)) => any_accepted_context(items@),
        _ => false,
    }
}

/// The document is a CycloneDX BOM with a vulnerabilities member.
pub open spec fn is_cyclonedx_bom(value: JsonValue) -> bool {
    &&& json_get_str(value, "bomFormat"@) matches Some(s) && lower_seq(s) == lower_seq("CycloneDX"@)
    &&& json_get(value, "vulnerabilities"@) is Some
}

/// Warning for a document of neither kind.
pub open spec fn unrecognized_warning(path: Seq<char>) -> Seq<char> {
    "VEX ingest "@ + path
        + ": unrecognized document (need OpenVEX @context or CycloneDX bomFormat with vulnerabilities); findings not suppressed"@
}

fn text_of(o: Option<&str>) -> (r: String)
    ensures
        r@ == text_or_empty(
            match o {
                Some(s) => Some(s@),
                None => None,
            },
        ),
{
    match o {
        Some(s) => String::from_str(s),
        None => String::new(),
    }
}

fn owned(o: Option<&str>) -> (r: Option<String>)
    ensures
        opt_view(r) == match o {
            Some(s) => Some(s@),
            None => None::<Seq<char>>,
        },
{
    match o {
        Some(s) => Some(String::from_str(s)),
        None => None,
    }
}

fn nonblank_exec(o: Option<&str>) -> (r: Option<String>)
    ensures
        opt_view(r) == nonblank(
            match o {
                Some(s) => Some(s@),
                None => None,
            },
        ),
{
    match o {
        Some(s) => {
            let t = trim_string(s);
            if t.as_str().unicode_len() > 0 {
                Some(t)
            } else {
                None
            }
        },
        None => None,
    }
}

fn openvex_vuln_name(stmt: &JsonValue) -> (r: Option<String>)
    ensures
        opt_view(r) == openvex_vuln_name_of(*stmt),
{
    match stmt.get("vulnerability") {
        None => None,
        Some(v) => match nonblank_exec(v.get_str("name")) {
            Some(n) => Some(n),
            None => nonblank_exec(v.as_str()),
        },
    }
}

fn push_text(v: &mut Vec<String>, s: &str)
    ensures
        string_views(final(v)@) == string_views(old(v)@).push(s@),
{
    let ghost before = v@;
    v.push(String::from_str(s));
    assert(string_views(v@) =~= string_views(before).push(s@));
}

fn openvex_products(stmt: &JsonValue) -> (r: (Vec<String>, Vec<String>))
    ensures
        string_views(r.0@) == products_of(products_array(*stmt)),
        string_views(r.1@) == purls_of(products_array(*stmt)),
{
    let mut products: Vec<String> = Vec::new();
    let mut purls: Vec<String> = Vec::new();
    let arr = match stmt.get_array("products") {
        None => {
            return (products, purls);
        },
        Some(a) => a,
    };
    let ghost ps = arr@;
    let mut i: usize = 0;
    while i < arr.len()
        invariant
            i <= arr.len(),
            ps == arr@,
            string_views(products@) == products_of(ps.take(i as int)),
            string_views(purls@) == purls_of(ps.take(i as int)),
        decreases arr.len() - i,
    {
        let product = &arr[i];
        assert(ps.take(i + 1).drop_last() =~= ps.take(i as int));
        assert(ps.take(i + 1).last() == *product);
        let ghost u0 = string_views(purls@);
        match product.get_str("@id") {
            Some(id) => push_text(&mut products, id),
            None => {},
        }
        let ghost p1 = string_views(products@);
        let ghost subs = subcomponents_of(*product);
        match product.get_array("subcomponents") {
            Some(sv) => {
                let mut k: usize = 0;
                while k < sv.len()
                    invariant
                        k <= sv.len(),
                        subs == sv@,
                        string_views(products@) == p1 + sub_products(subs.take(k as int)),
                        string_views(purls@) == u0 + sub_purls(subs.take(k as int)),
                    decreases sv.len() - k,
                {
                    let sub = &sv[k];
                    assert(subs.take(k + 1).drop_last() =~= subs.take(k as int));
                    assert(subs.take(k + 1).last() == *sub);
                    match sub.get_str("@id") {
                        Some(id) => {
                            let idv = chars_of(id);
                            if starts_with_vec(idv.as_slice(), chars_of("pkg:").as_slice()) {
                                push_text(&mut purls, id);
                            } else {
                                push_text(&mut products, id);
                            }
                        },
                        None => {},
                    }
                    assert(string_views(products@) =~= p1 + sub_products(subs.take(k + 1)));
                    assert(string_views(purls@) =~= u0 + sub_purls(subs.take(k + 1)));
                    k = k + 1;
                }
                assert(subs.take(sv.len() as int) =~= subs);
            },
            None => {
                assert(subs =~= Seq::<JsonValue>::empty());
                assert(string_views(products@) =~= p1 + sub_products(subs));
                assert(string_views(purls@) =~= u0 + sub_purls(subs));
            },
        }
        assert(string_views(products@) =~= products_of(ps.take(i + 1)));
        assert(string_views(purls@) =~= purls_of(ps.take(i + 1)));
        i = i + 1;
    }
    assert(ps.take(arr.len() as int) =~= ps);
    (products, purls)
}

fn first_of(v: Vec<String>) -> (r: Option<String>)
    ensures
        opt_view(r) == first_text(string_views(v@)),
{
    let mut v = v;
    if v.len() > 0 {
        Some(v.remove(0))
    } else {
        None
    }
}

fn push_warning(out: &mut Vec<String>, w: String)
    ensures
        string_views(final(out)@) == string_views(old(out)@).push(w@),
{
    let ghost before = out@;
    let ghost wv = w@;
    out.push(w);
    assert(string_views(out@) =~= string_views(before).push(wv));
}

fn push_statement(out: &mut Vec<IngestedVexStatement>, st: IngestedVexStatement)
    ensures
        ingested_views(final(out)@) == ingested_views(old(out)@).push(st@),
{
    let ghost before = out@;
    let ghost sv = st@;
    out.push(st);
    assert(ingested_views(out@) =~= ingested_views(before).push(sv));
}

fn openvex_statement(stmt: &JsonValue, path: &str, trusted: bool) -> (r: (Option<IngestedVexStatement>, Option<String>))
    ensures
        match r.0 {
            Some(x) => openvex_item(*stmt, path@, trusted).0 == Some(x@),
            None => openvex_item(*stmt, path@, trusted).0 is None,
        },
        openvex_item(*stmt, path@, trusted).1 == match r.1 {
            Some(w) => seq![w@],
            None => Seq::<Seq<char>>::empty(),
        },
{
    let vuln_id = match openvex_vuln_name(stmt) {
        None => {
            let mut w = String::from_str("VEX ingest ");
            w.append(path);
            w.append(": statement missing vulnerability.name; skipped");
            return (None, Some(w));
        },
        Some(id) => id,
    };
    let raw = text_of(stmt.get_str("status"));
    let status = map_openvex_status(raw.as_str());
    let warning = if status == IngestStatus::Unknown && raw.as_str().unicode_len() > 0 {
        let mut w = String::from_str("VEX ingest ");
        w.append(path);
        w.append(": unknown OpenVEX status `");
        w.append(raw.as_str());
        w.append("` for ");
        w.append(vuln_id.as_str());
        w.append("; finding kept");
        Some(w)
    } else {
        None
    };
    let (product_ids, purls) = openvex_products(stmt);
    let st = IngestedVexStatement {
        vuln_id,
        purl: first_of(purls),
        product_ids,
        status,
        justification: owned(stmt.get_str("justification")),
        detail: owned(stmt.get_str("impact_statement")),
        source: VexIngestSource::OpenVex,
        source_path: String::from_str(path),
        trusted,
    };
    (Some(st), warning)
}

fn cyclonedx_statement(vuln: &JsonValue, path: &str, trusted: bool) -> (r: (Option<IngestedVexStatement>, Option<String>))
    ensures
        match r.0 {
            Some(x) => cyclonedx_item(*vuln, path@, trusted).0 == Some(x@),
            None => cyclonedx_item(*vuln, path@, trusted).0 is None,
        },
        cyclonedx_item(*vuln, path@, trusted).1 == match r.1 {
            Some(w) => seq![w@],
            None => Seq::<Seq<char>>::empty(),
        },
{
    let vuln_id = match nonblank_exec(vuln.get_str("id")) {
        None => {
            let mut w = String::from_str("VEX ingest ");
            w.append(path);
            w.append(": CycloneDX vulnerability missing id; skipped");
            return (None, Some(w));
        },
        Some(id) => id,
    };
    let analysis = match vuln.get("analysis") {
        None => {
            return (None, None);
        },
        Some(a) => a,
    };
    let state = text_of(analysis.get_str("state"));
    let status = map_cyclonedx_state(state.as_str());
    let warning = if status == IngestStatus::Unknown && state.as_str().unicode_len() > 0 {
        let mut w = String::from_str("VEX ingest ");
        w.append(path);
        w.append(": unknown CycloneDX analysis.state `");
        w.append(state.as_str());
        w.append("` for ");
        w.append(vuln_id.as_str());
        w.append("; finding kept");
        Some(w)
    } else {
        None
    };
    let mut purls: Vec<String> = Vec::new();
    let ghost affects = match json_get_array(*vuln, "affects"@) {
        Some(a) => a,
        None => Seq::<JsonValue>::empty(),
    };
    match vuln.get_array("affects") {
        Some(av) => {
            let mut k: usize = 0;
            while k < av.len()
                invariant
                    k <= av.len(),
                    affects == av@,
                    string_views(purls@) == affect_purls(affects.take(k as int)),
                decreases av.len() - k,
            {
                let a = &av[k];
                assert(affects.take(k + 1).drop_last() =~= affects.take(k as int));
                assert(affects.take(k + 1).last() == *a);
                match a.get_str("ref") {
                    Some(r) => {
                        let rv = chars_of(r);
                        if starts_with_vec(rv.as_slice(), chars_of("pkg:").as_slice()) {
                            push_text(&mut purls, r);
                        }
                    },
                    None => {},
                }
                k = k + 1;
            }
            assert(affects.take(av.len() as int) =~= affects);
        },
        None => {
            assert(string_views(purls@) =~= affect_purls(affects));
        },
    }
    let st = IngestedVexStatement {
        vuln_id,
        purl: first_of(purls),
        product_ids: Vec::new(),
        status,
        justification: owned(analysis.get_str("justification")),
        detail: owned(analysis.get_str("detail")),
        source: VexIngestSource::CycloneDx,
        source_path: String::from_str(path),
        trusted,
    };
    assert(string_views(st.product_ids@) =~= Seq::<Seq<char>>::empty());
    (Some(st), warning)
}

/// Extract OpenVEX statements into `out` (a warning when there is no
/// statements array).
pub fn parse_openvex_statements(value: &JsonValue, path: &str, trusted: bool, out: &mut VexIngestParseResult)
    ensures
        final(out).kind == old(out).kind,
        match json_get_array(*value, "statements"@) {
            None => ingested_views(final(out).statements@) == ingested_views(old(out).statements@)
                && string_views(final(out).warnings@) == string_views(old(out).warnings@).push(
                "VEX ingest "@ + path@ + ": OpenVEX document has no statements array"@,
            ),
            Some(stmts) => ingested_views(final(out).statements@) == ingested_views(
                old(out).statements@,
            ) + fold_items(stmts, |j: JsonValue| openvex_item(j, path@, trusted)).0 && string_views(
                final(out).warnings@,
            ) == string_views(old(out).warnings@) + fold_items(
                stmts,
                |j: JsonValue| openvex_item(j, path@, trusted),
            ).1,
        },
{
    let stmts = match value.get_array("statements") {
        None => {
            let mut w = String::from_str("VEX ingest ");
            w.append(path);
            w.append(": OpenVEX document has no statements array");
            push_warning(&mut out.warnings, w);
            return;
        },
        Some(s) => s,
    };
    let ghost items = stmts@;
    let ghost f = |j: JsonValue| openvex_item(j, path@, trusted);
    let ghost s0 = ingested_views(out.statements@);
    let ghost w0 = string_views(out.warnings@);
    let mut i: usize = 0;
    while i < stmts.len()
        invariant
            i <= stmts.len(),
            items == stmts@,
            f == (|j: JsonValue| openvex_item(j, path@, trusted)),
            out.kind == old(out).kind,
            ingested_views(out.statements@) == s0 + fold_items(items.take(i as int), f).0,
            string_views(out.warnings@) == w0 + fold_items(items.take(i as int), f).1,
        decreases stmts.len() - i,
    {
        let stmt = &stmts[i];
        assert(items.take(i + 1).drop_last() =~= items.take(i as int));
        assert(items.take(i + 1).last() == *stmt);
        let (st, w) = openvex_statement(stmt, path, trusted);
        match st {
            Some(x) => push_statement(&mut out.statements, x),
            None => {},
        }
        match w {
            Some(x) => push_warning(&mut out.warnings, x),
            None => {},
        }
        assert(ingested_views(out.statements@) =~= s0 + fold_items(items.take(i + 1), f).0);
        assert(string_views(out.warnings@) =~= w0 + fold_items(items.take(i + 1), f).1);
        i = i + 1;
    }
    assert(items.take(stmts.len() as int) =~= items);
}

/// Extract CycloneDX analyses into `out` (nothing when there is no
/// vulnerabilities array).
pub fn parse_cyclonedx_analysis(value: &JsonValue, path: &str, trusted: bool, out: &mut VexIngestParseResult)
    ensures
        final(out).kind == old(out).kind,
        match json_get_array(*value, "vulnerabilities"@) {
            None => ingested_views(final(out).statements@) == ingested_views(old(out).statements@)
                && string_views(final(out).warnings@) == string_views(old(out).warnings@),
            Some(vulns) => ingested_views(final(out).statements@) == ingested_views(
                old(out).statements@,
            ) + fold_items(vulns, |j: JsonValue| cyclonedx_item(j, path@, trusted)).0
                && string_views(final(out).warnings@) == string_views(old(out).warnings@)
                + fold_items(vulns, |j: JsonValue| cyclonedx_item(j, path@, trusted)).1,
        },
{
    let vulns = match value.get_array("vulnerabilities") {
        None => {
            return;
        },
        Some(v) => v,
    };
    let ghost items = vulns@;
    let ghost f = |j: JsonValue| cyclonedx_item(j, path@, trusted);
    let ghost s0 = ingested_views(out.statements@);
    let ghost w0 = string_views(out.warnings@);
    let mut i: usize = 0;
    while i < vulns.len()
        invariant
            i <= vulns.len(),
            items == vulns@,
            f == (|j: JsonValue| cyclonedx_item(j, path@, trusted)),
            out.kind == old(out).kind,
            ingested_views(out.statements@) == s0 + fold_items(items.take(i as int), f).0,
            string_views(out.warnings@) == w0 + fold_items(items.take(i as int), f).1,
        decreases vulns.len() - i,
    {
        let vuln = &vulns[i];
        assert(items.take(i + 1).drop_last() =~= items.take(i as int));
        assert(items.take(i + 1).last() == *vuln);
        let (st, w) = cyclonedx_statement(vuln, path, trusted);
        match st {
            Some(x) => push_statement(&mut out.statements, x),
            None => {},
        }
        match w {
            Some(x) => push_warning(&mut out.warnings, x),
            None => {},
        }
        assert(ingested_views(out.statements@) =~= s0 + fold_items(items.take(i + 1), f).0);
        assert(string_views(out.warnings@) =~= w0 + fold_items(items.take(i + 1), f).1);
        i = i + 1;
    }
    assert(items.take(vulns.len() as int) =~= items);
}

/// Whether the document names an accepted OpenVEX `@context`.
pub fn is_openvex_document(value: &JsonValue) -> (r: bool)
    ensures
        r == is_openvex(*value),
{
    match value.get("@context") {
        None => false,
        Some(ctx) => match ctx {
            JsonValue::String(s) => openvex_context_ok(s.as_str()),
            JsonValue::Array(items) => {
                let mut i: usize = 0;
                while i < items.len()
                    invariant
                        i <= items.len(),
                        json_get(*value, "@context"@) == Some(JsonValue::Array(*items)),
                        forall|k: int| 0 <= k < i ==> !#[trigger] accepted_context_item(items@[k]),
                    decreases items.len() - i,
                {
                    match items[i].as_str() {
                        Some(t) => {
                            if openvex_context_ok(t) {
                                assert(accepted_context_item(items@[i as int]));
                                assert(any_accepted_context(items@));
                                return true;
                            }
                        },
                        None => {},
                    }
                    i = i + 1;
                }
                false
            },
            _ => false,
        },
    }
}

/// Whether the document is a CycloneDX BOM with vulnerabilities.
pub fn is_cyclonedx_with_vulns(value: &JsonValue) -> (r: bool)
    ensures
        r == is_cyclonedx_bom(*value),
{
    let fmt = match value.get_str("bomFormat") {
        None => {
            return false;
        },
        Some(f) => f,
    };
    crate::text::eq_ignore_ascii_case(fmt, "CycloneDX") && value.get("vulnerabilities").is_some()
}

/// What reading a VEX ingest document gives: an OpenVEX document's
/// statements, a CycloneDX document's vulnerability analyses, or, for a
/// document of neither kind, only a warning. Statements are trusted when
/// the policy allows unsigned documents.
pub open spec fn vex_ingest_result(r: VexIngestParseResult, value: JsonValue, path: Seq<char>, allow_unsigned: bool) -> bool {
    if is_openvex(value) {
        &&& r.kind == Some(VexIngestKind::OpenVex)
        &&& match json_get_array(value, "statements"@) {
            None => r.statements@.len() == 0 && string_views(r.warnings@) == seq![
                "VEX ingest "@ + path + ": OpenVEX document has no statements array"@,
            ],
            Some(stmts) => ingested_views(r.statements@) == fold_items(
                stmts,
                |j: JsonValue| openvex_item(j, path, allow_unsigned),
            ).0 && string_views(r.warnings@) == fold_items(
                stmts,
                |j: JsonValue| openvex_item(j, path, allow_unsigned),
            ).1,
        }
    } else if is_cyclonedx_bom(value) {
        &&& r.kind == Some(VexIngestKind::CycloneDxAnalysis)
        &&& match json_get_array(value, "vulnerabilities"@) {
            None => r.statements@.len() == 0 && r.warnings@.len() == 0,
            Some(vulns) => ingested_views(r.statements@) == fold_items(
                vulns,
                |j: JsonValue| cyclonedx_item(j, path, allow_unsigned),
            ).0 && string_views(r.warnings@) == fold_items(
                vulns,
                |j: JsonValue| cyclonedx_item(j, path, allow_unsigned),
            ).1,
        }
    } else {
        r.kind is None && r.statements@.len() == 0 && string_views(r.warnings@) == seq![unrecognized_warning(path)]
    }
}

/// Detect the document kind and extract its statements
/// (`vex_ingest_result`).
pub fn parse_vex_ingest_value(value: &JsonValue, path: &str, policy: &VexIngestPolicy) -> (r: VexIngestParseResult)
    ensures
        vex_ingest_result(r, *value, path@, policy.allow_unsigned),
{
    let mut out = VexIngestParseResult { statements: Vec::new(), warnings: Vec::new(), kind: None };
    assert(ingested_views(out.statements@) =~= Seq::<IngestedView>::empty());
    assert(string_views(out.warnings@) =~= Seq::<Seq<char>>::empty());
    let trusted = policy.allow_unsigned;
    if is_openvex_document(value) {
        out.kind = Some(VexIngestKind::OpenVex);
        parse_openvex_statements(value, path, trusted, &mut out);
    } else if is_cyclonedx_with_vulns(value) {
        out.kind = Some(VexIngestKind::CycloneDxAnalysis);
        parse_cyclonedx_analysis(value, path, trusted, &mut out);
    } else {
        let mut w = String::from_str("VEX ingest ");
        w.append(path);
        w.append(
            ": unrecognized document (need OpenVEX @context or CycloneDX bomFormat with vulnerabilities); findings not suppressed",
        );
        push_warning(&mut out.warnings, w);
    }
    out
}

/// Failure to read or decode a VEX ingest file: the file's path and the
/// reader's or parser's message.
#[derive(Debug, Clone)]
pub enum VexIngestError {
    Io { path: String, message: String },
    Json { path: String, message: String },
}

impl VexIngestError {
    /// The error's text.
    pub fn message(&self) -> (r: String)
        ensures
            match self {
                VexIngestError::Io { path, message } => r@ == "failed to read VEX ingest file "@ + path@ + ": "@
                    + message@,
                VexIngestError::Json { path, message } => r@ == "VEX ingest file "@ + path@
                    + " is not valid JSON: "@ + message@,
            },
    {
        match self {
            VexIngestError::Io { path, message } => {
                let mut r = String::from_str("failed to read VEX ingest file ");
                r.append(path.as_str());
                r.append(": ");
                r.append(message.as_str());
                r
            },
            VexIngestError::Json { path, message } => {
                let mut r = String::from_str("VEX ingest file ");
                r.append(path.as_str());
                r.append(" is not valid JSON: ");
                r.append(message.as_str());
                r
            },
        }
    }
}

/// Parse a VEX ingest document (OpenVEX or CycloneDX analysis) from the
/// bytes of the file at `path`: an error naming the path when the bytes are
/// not one JSON document, else what `parse_vex_ingest_value` gives for the
/// parsed tree.
pub fn parse_vex_ingest_bytes(bytes: &[u8], path: &str, policy: &VexIngestPolicy) -> (r: Result<
    VexIngestParseResult,
    VexIngestError,
>)
    ensures
        r is Err <==> json_bytes_parsed(bytes@) is None,
        r matches Ok(res) ==> exists|v: JsonValue|
            json_bytes_parsed(bytes@) == Some(#[trigger] v@) && vex_ingest_result(res, v, path@, policy.allow_unsigned),
        r matches Err(e) ==> e matches VexIngestError::Json { path: p, .. } && p@ == path@,
{
    match parse_json_bytes(bytes) {
        Ok(v) => Ok(parse_vex_ingest_value(&v, path, policy)),
        Err(message) => Err(VexIngestError::Json { path: String::from_str(path), message }),
    }
}

} // verus!
