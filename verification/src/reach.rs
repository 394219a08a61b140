//! Reachability decisions and first-party evidence: the per-CVE evidence list
//! (deduplicated, ordered by path, line and symbol, capped), the merge of the
//! results of several language analyzers, and the analyzer interface.
use vstd::prelude::*;

use crate::matching::string_views;
use crate::model::{Package, PackageView};
use crate::order::{
    compare_chars, lemma_seq_lt_asymmetric, lemma_seq_lt_irreflexive, lemma_seq_lt_total,
    lemma_seq_lt_transitive, seq_lt, Order3,
};
use crate::paths::{file_name_of, file_name_str};
use crate::text::{chars_of, copy_str, str_eq};

verus! {

/// Reachability decision of one analysis tier.
#[derive(Debug, Clone, Copy, PartialEq, Eq, Structural)]
pub enum TierBDecision {
    Reachable,
    NotReachable,
    Unknown,
}

/// Per-CVE reachability decision (Tier C); same meaning as [`TierBDecision`].
pub type TierCDecision = TierBDecision;

impl TierBDecision {
    /// `Some(true)` when reachable, `Some(false)` when not, `None` when unknown.
    pub fn as_option_bool(self) -> (r: Option<bool>)
        ensures
            r == match self {
                TierBDecision::Reachable => Some(true),
                TierBDecision::NotReachable => Some(false),
                TierBDecision::Unknown => None::<bool>,
            },
    {
        match self {
            TierBDecision::Reachable => Some(true),
            TierBDecision::NotReachable => Some(false),
            TierBDecision::Unknown => None,
        }
    }
}

/// Maximum first-party evidence locations kept per CVE.
pub const MAX_REACHABILITY_EVIDENCE_PER_CVE: usize = 10;

/// JSON label when advisory symbols appear in first-party source.
pub const SYMBOL_USAGE_USED: &'static str = "used";

/// JSON label when advisory symbols are absent from first-party source.
pub const SYMBOL_USAGE_NOT_FOUND: &'static str = "not_found";

/// JSON label when symbol usage in first-party source could not be determined.
pub const SYMBOL_USAGE_UNKNOWN: &'static str = "unknown";

/// Inputs of a Tier B analysis: where to look and for which package.
pub struct TierBContext<'a> {
    pub scan_root: &'a str,
    pub exclude_dir_names: &'a [String],
    pub package: &'a Package,
    pub language: &'a str,
    pub manifest_paths: &'a [String],
}

/// The picture of a Tier B context: texts as character sequences.
pub struct TierBContextView {
    pub scan_root: Seq<char>,
    pub exclude_dir_names: Seq<Seq<char>>,
    pub package: PackageView,
    pub language: Seq<char>,
    pub manifest_paths: Seq<Seq<char>>,
}

impl<'a> View for TierBContext<'a> {
    type V = TierBContextView;

    open spec fn view(&self) -> TierBContextView {
        TierBContextView {
            scan_root: self.scan_root@,
            exclude_dir_names: string_views(self.exclude_dir_names@),
            package: self.package@,
            language: self.language@,
            manifest_paths: string_views(self.manifest_paths@),
        }
    }
}

/// First-party source location referencing an advisory symbol.
#[derive(Debug, Clone, PartialEq, Eq)]
pub struct ReachabilityEvidence {
    pub path: String,
    pub start_line: u32,
    pub end_line: Option<u32>,
    pub symbol: String,
}

/// Mathematical value of a [`ReachabilityEvidence`].
pub struct EvidenceView {
    pub path: Seq<char>,
    pub start_line: u32,
    pub end_line: Option<u32>,
    pub symbol: Seq<char>,
}

impl View for ReachabilityEvidence {
    type V = EvidenceView;

    open spec fn view(&self) -> EvidenceView {
        EvidenceView {
            path: self.path@,
            start_line: self.start_line,
            end_line: self.end_line,
            symbol: self.symbol@,
        }
    }
}

impl ReachabilityEvidence {
    /// A copy of this evidence site.
    pub fn duplicate(&self) -> (r: ReachabilityEvidence)
        ensures
            r@ == self@,
    {
        ReachabilityEvidence {
            path: copy_str(self.path.as_str()),
            start_line: self.start_line,
            end_line: self.end_line,
            symbol: copy_str(self.symbol.as_str()),
        }
    }
}

/// Two evidence entries name the same site: path, start line and symbol.
pub open spec fn same_site(a: EvidenceView, b: EvidenceView) -> bool {
    a.path == b.path && a.start_line == b.start_line && a.symbol == b.symbol
}

/// Evidence order: path, then start line, then symbol.
pub open spec fn site_lt(a: EvidenceView, b: EvidenceView) -> bool {
    ||| seq_lt(a.path, b.path)
    ||| (a.path == b.path && a.start_line < b.start_line)
    ||| (a.path == b.path && a.start_line == b.start_line && seq_lt(a.symbol, b.symbol))
}

pub proof fn lemma_site_lt_order(a: EvidenceView, b: EvidenceView, c: EvidenceView)
    ensures
        !site_lt(a, a),
        site_lt(a, b) && site_lt(b, c) ==> site_lt(a, c),
        same_site(a, b) || site_lt(a, b) || site_lt(b, a),
        site_lt(a, b) ==> !site_lt(b, a) && !same_site(a, b),
        site_lt(a, b) && same_site(b, c) ==> site_lt(a, c),
        same_site(a, b) && site_lt(b, c) ==> site_lt(a, c),
{
    lemma_seq_lt_irreflexive(a.path);
    lemma_seq_lt_irreflexive(a.symbol);
    lemma_seq_lt_total(a.path, b.path);
    lemma_seq_lt_total(a.symbol, b.symbol);
    if seq_lt(a.path, b.path) {
        lemma_seq_lt_asymmetric(a.path, b.path);
    }
    if seq_lt(b.path, a.path) {
        lemma_seq_lt_asymmetric(b.path, a.path);
    }
    if seq_lt(a.symbol, b.symbol) {
        lemma_seq_lt_asymmetric(a.symbol, b.symbol);
    }
    if seq_lt(b.symbol, a.symbol) {
        lemma_seq_lt_asymmetric(b.symbol, a.symbol);
    }
    if seq_lt(a.path, b.path) && seq_lt(b.path, c.path) {
        lemma_seq_lt_transitive(a.path, b.path, c.path);
    }
    if seq_lt(a.symbol, b.symbol) && seq_lt(b.symbol, c.symbol) {
        lemma_seq_lt_transitive(a.symbol, b.symbol, c.symbol);
    }
}

/// Three-way comparison of two evidence sites.
pub fn compare_site(a: &ReachabilityEvidence, b: &ReachabilityEvidence) -> (r: Order3)
    ensures
        r == Order3::Less <==> site_lt(a@, b@),
        r == Order3::Equal <==> same_site(a@, b@),
        r == Order3::Greater <==> site_lt(b@, a@),
{
    proof {
        lemma_site_lt_order(a@, b@, a@);
        lemma_site_lt_order(b@, a@, b@);
    }
    let pa = chars_of(a.path.as_str());
    let pb = chars_of(b.path.as_str());
    match compare_chars(pa.as_slice(), pb.as_slice()) {
        Order3::Less => {
            return Order3::Less;
        },
        Order3::Greater => {
            return Order3::Greater;
        },
        Order3::Equal => {},
    }
    if a.start_line < b.start_line {
        return Order3::Less;
    }
    if a.start_line > b.start_line {
        return Order3::Greater;
    }
    let sa = chars_of(a.symbol.as_str());
    let sb = chars_of(b.symbol.as_str());
    compare_chars(sa.as_slice(), sb.as_slice())
}

/// The values of an evidence list.
pub open spec fn evidence_views(s: Seq<ReachabilityEvidence>) -> Seq<EvidenceView> {
    s.map_values(|e: ReachabilityEvidence| e@)
}

/// Strictly increasing in evidence order (hence one entry per site).
pub open spec fn sites_sorted(s: Seq<EvidenceView>) -> bool {
    forall|i: int, j: int| 0 <= i < j < s.len() ==> site_lt(s[i], s[j])
}

/// `s[j]` is the first entry of `s` for its site.
pub open spec fn first_of_site(s: Seq<EvidenceView>, j: int) -> bool {
    0 <= j < s.len() && forall|k: int| 0 <= k < j ==> !same_site(s[k], s[j])
}

/// `s` has an entry for the site of `e`.
pub open spec fn has_site(s: Seq<EvidenceView>, e: EvidenceView) -> bool {
    exists|a: int| 0 <= a < s.len() && same_site(s[a], e)
}

/// `out` is `input` capped: the first entry of each site, ordered by site,
/// limited to the smallest `MAX_REACHABILITY_EVIDENCE_PER_CVE` sites.
pub open spec fn capped_evidence(input: Seq<EvidenceView>, out: Seq<EvidenceView>) -> bool {
    &&& out.len() <= MAX_REACHABILITY_EVIDENCE_PER_CVE
    &&& sites_sorted(out)
    &&& forall|a: int|
        0 <= a < out.len() ==> exists|j: int| first_of_site(input, j) && #[trigger] out[a] == input[j]
    &&& forall|j: int|
        0 <= j < input.len() ==> has_site(out, #[trigger] input[j]) || (out.len()
            == MAX_REACHABILITY_EVIDENCE_PER_CVE && site_lt(out.last(), input[j]))
}

/// What the first `i` entries of `input` have built up: sorted by site, each
/// entry the first of its site, every site seen so far present.
pub open spec fn cap_progress(input: Seq<EvidenceView>, i: int, out: Seq<EvidenceView>) -> bool {
    &&& sites_sorted(out)
    &&& forall|a: int|
        0 <= a < out.len() ==> exists|j: int|
            0 <= j < i && first_of_site(input, j) && #[trigger] out[a] == input[j]
    &&& forall|j: int| 0 <= j < i ==> has_site(out, #[trigger] input[j])
}

proof fn lemma_cap_insert_step(input: Seq<EvidenceView>, i: int, before: Seq<EvidenceView>, p: int)
    requires
        0 <= i < input.len(),
        cap_progress(input, i, before),
        !has_site(before, input[i]),
        0 <= p <= before.len(),
        sites_sorted(before.insert(p, input[i])),
    ensures
        cap_progress(input, i + 1, before.insert(p, input[i])),
{
    let after = before.insert(p, input[i]);
    assert(first_of_site(input, i)) by {
        assert forall|k: int| 0 <= k < i implies !same_site(input[k], input[i]) by {
            if same_site(input[k], input[i]) {
                assert(has_site(before, input[k]));
                let a = choose|a: int| 0 <= a < before.len() && same_site(before[a], input[k]);
                assert(same_site(before[a], input[i]));
            }
        }
    }
    assert forall|a: int| 0 <= a < after.len() implies exists|j: int|
        0 <= j < i + 1 && first_of_site(input, j) && #[trigger] after[a] == input[j] by {
        if a < p {
            assert(after[a] == before[a]);
        } else if a > p {
            assert(after[a] == before[a - 1]);
        } else {
            assert(after[a] == input[i]);
        }
    }
    assert forall|j: int| 0 <= j < i + 1 implies has_site(after, #[trigger] input[j]) by {
        if j < i {
            assert(has_site(before, input[j]));
            let a = choose|a: int| 0 <= a < before.len() && same_site(before[a], input[j]);
            if a < p {
                assert(after[a] == before[a]);
            } else {
                assert(after[a + 1] == before[a]);
            }
        } else {
            assert(after[p] == input[i]);
        }
    }
}

proof fn lemma_cap_skip_step(input: Seq<EvidenceView>, i: int, before: Seq<EvidenceView>)
    requires
        0 <= i < input.len(),
        cap_progress(input, i, before),
        has_site(before, input[i]),
    ensures
        cap_progress(input, i + 1, before),
{
    assert forall|a: int| 0 <= a < before.len() implies exists|j: int|
        0 <= j < i + 1 && first_of_site(input, j) && #[trigger] before[a] == input[j] by {
        let j = choose|j: int| 0 <= j < i && first_of_site(input, j) && before[a] == input[j];
    }
}

/// True when no more evidence sites should be collected for one CVE.
pub fn reachability_evidence_at_cap(evidence: &[ReachabilityEvidence]) -> (r: bool)
    ensures
        r == (evidence@.len() >= MAX_REACHABILITY_EVIDENCE_PER_CVE),
{
    evidence.len() >= MAX_REACHABILITY_EVIDENCE_PER_CVE
}

/// Insert `x` at its place in a list sorted by site, unless its site is
/// already there.
fn insert_site_sorted(v: &mut Vec<ReachabilityEvidence>, x: ReachabilityEvidence) -> (inserted: bool)
    requires
        sites_sorted(evidence_views(old(v)@)),
    ensures
        sites_sorted(evidence_views(final(v)@)),
        inserted == !has_site(evidence_views(old(v)@), x@),
        inserted ==> exists|p: int|
            0 <= p <= old(v)@.len() && evidence_views(final(v)@) == evidence_views(old(v)@).insert(
                p,
                x@,
            ),
        !inserted ==> final(v)@ == old(v)@,
{
    let ghost before = evidence_views(v@);
    let mut p: usize = 0;
    while p < v.len() && compare_site(&v[p], &x) == Order3::Less
        invariant
            p <= v.len(),
            before == evidence_views(v@),
            sites_sorted(before),
            forall|i: int| 0 <= i < p ==> site_lt(#[trigger] before[i], x@),
        decreases v.len() - p,
    {
        p = p + 1;
    }
    if p < v.len() && compare_site(&v[p], &x) == Order3::Equal {
        assert(same_site(before[p as int], x@));
        return false;
    }
    proof {
        if p < v.len() {
            lemma_site_lt_order(x@, before[p as int], x@);
            assert forall|j: int| p <= j < before.len() implies site_lt(x@, before[j]) by {
                if j > p {
                    lemma_site_lt_order(x@, before[p as int], before[j]);
                }
            }
        }
        assert forall|a: int| 0 <= a < before.len() implies !same_site(before[a], x@) by {
            lemma_site_lt_order(before[a], x@, before[a]);
            lemma_site_lt_order(x@, before[a], x@);
        }
    }
    let ghost xv = x@;
    v.insert(p, x);
    proof {
        let after = evidence_views(v@);
        assert(after =~= before.insert(p as int, xv));
        assert forall|i: int, j: int| 0 <= i < j < after.len() implies site_lt(after[i], after[j]) by {
            if j < p {
            } else if j == p {
            } else if i < p {
                lemma_site_lt_order(after[i], xv, after[j]);
            } else if i == p {
            } else {
            }
        }
    }
    true
}

/// Sort evidence by site, keep the first entry of each site, and keep at
/// most `MAX_REACHABILITY_EVIDENCE_PER_CVE` entries.
#[verifier::spinoff_prover]
#[verifier::rlimit(40)]
pub fn cap_reachability_evidence(evidence: &mut Vec<ReachabilityEvidence>)
    ensures
        capped_evidence(evidence_views(old(evidence)@), evidence_views(final(evidence)@)),
{
    let ghost input = evidence_views(evidence@);
    let mut out: Vec<ReachabilityEvidence> = Vec::new();
    let mut i: usize = 0;
    while i < evidence.len()
        invariant
            input == evidence_views(evidence@),
            i <= evidence.len(),
            cap_progress(input, i as int, evidence_views(out@)),
        decreases evidence.len() - i,
    {
        let ghost before = evidence_views(out@);
        let x = evidence[i].duplicate();
        assert(x@ == input[i as int]);
        let inserted = insert_site_sorted(&mut out, x);
        proof {
            if inserted {
                let p = choose|p: int|
                    0 <= p <= before.len() && evidence_views(out@) == before.insert(p, input[i as int]);
                lemma_cap_insert_step(input, i as int, before, p);
            } else {
                lemma_cap_skip_step(input, i as int, before);
            }
        }
        i = i + 1;
    }
    let ghost full = evidence_views(out@);
    out.truncate(MAX_REACHABILITY_EVIDENCE_PER_CVE);
    proof {
        let res = evidence_views(out@);
        assert(res =~= if full.len() <= MAX_REACHABILITY_EVIDENCE_PER_CVE {
            full
        } else {
            full.take(MAX_REACHABILITY_EVIDENCE_PER_CVE as int)
        });
        assert(sites_sorted(res)) by {
            assert forall|x: int, y: int| 0 <= x < y < res.len() implies site_lt(res[x], res[y]) by {
                assert(res[x] == full[x] && res[y] == full[y]);
            }
        }
        assert forall|a: int| 0 <= a < res.len() implies exists|j: int|
            first_of_site(input, j) && #[trigger] res[a] == input[j] by {
            assert(res[a] == full[a]);
            let j = choose|j: int| 0 <= j < i && first_of_site(input, j) && full[a] == input[j];
        }
        assert forall|j: int| 0 <= j < input.len() implies has_site(res, #[trigger] input[j]) || (res.len()
            == MAX_REACHABILITY_EVIDENCE_PER_CVE && site_lt(res.last(), input[j])) by {
            assert(has_site(full, input[j]));
            let a = choose|a: int| 0 <= a < full.len() && same_site(full[a], input[j]);
            if a < res.len() {
                assert(res[a] == full[a]);
                assert(same_site(res[a], input[j]));
            } else {
                let m = MAX_REACHABILITY_EVIDENCE_PER_CVE as int;
                assert(res.last() == full[m - 1]);
                lemma_site_lt_order(full[m - 1], full[a], input[j]);
            }
        }
        assert(res.len() <= MAX_REACHABILITY_EVIDENCE_PER_CVE);
        assert(capped_evidence(input, res));
    }
    *evidence = out;
    assert(evidence_views(evidence@) == evidence_views(out@));
}

/// Record an evidence site unless the cap is reached; an entry for the same
/// site is not added twice. Returns `false` when the cap was already reached.
pub fn push_reachability_evidence(
    out: &mut Vec<ReachabilityEvidence>,
    path: String,
    start_line: u32,
    symbol: String,
) -> (r: bool)
    ensures
        r == (old(out)@.len() < MAX_REACHABILITY_EVIDENCE_PER_CVE),
        !r ==> final(out)@ == old(out)@,
        r && has_site(
            evidence_views(old(out)@),
            EvidenceView { path: path@, start_line, end_line: None, symbol: symbol@ },
        ) ==> final(out)@ == old(out)@,
        r && !has_site(
            evidence_views(old(out)@),
            EvidenceView { path: path@, start_line, end_line: None, symbol: symbol@ },
        ) ==> evidence_views(final(out)@) == evidence_views(old(out)@).push(
            EvidenceView { path: path@, start_line, end_line: None, symbol: symbol@ },
        ),
{
    if reachability_evidence_at_cap(out.as_slice()) {
        return false;
    }
    let ghost x = EvidenceView { path: path@, start_line, end_line: None, symbol: symbol@ };
    let ghost before = evidence_views(out@);
    let mut i: usize = 0;
    while i < out.len()
        invariant
            i <= out.len(),
            before == evidence_views(out@),
            out@.len() < MAX_REACHABILITY_EVIDENCE_PER_CVE,
            x == (EvidenceView { path: path@, start_line, end_line: None, symbol: symbol@ }),
            forall|a: int| 0 <= a < i ==> !same_site(#[trigger] before[a], x),
        decreases out.len() - i,
    {
        if str_eq(out[i].path.as_str(), path.as_str()) && out[i].start_line == start_line && str_eq(
            out[i].symbol.as_str(),
            symbol.as_str(),
        ) {
            assert(same_site(before[i as int], x));
            return true;
        }
        i = i + 1;
    }
    out.push(ReachabilityEvidence { path, start_line, end_line: None, symbol });
    assert(evidence_views(out@) =~= before.push(x));
    true
}

/// Outcome of a Tier C/D analysis: a decision and first-party evidence.
#[derive(Debug, Clone, PartialEq, Eq)]
pub struct TierCResult {
    pub decision: TierCDecision,
    pub evidence: Vec<ReachabilityEvidence>,
}

impl TierCResult {
    /// An unknown decision with no evidence.
    pub fn unknown() -> (r: Self)
        ensures
            r.decision == TierBDecision::Unknown,
            r.evidence@.len() == 0,
    {
        TierCResult { decision: TierBDecision::Unknown, evidence: Vec::new() }
    }

    /// The given decision with no evidence.
    pub fn from_decision(decision: TierCDecision) -> (r: Self)
        ensures
            r.decision == decision,
            r.evidence@.len() == 0,
    {
        TierCResult { decision, evidence: Vec::new() }
    }
}

/// Some result of `rs` has decision `d`.
pub open spec fn some_decision(rs: Seq<TierCResult>, d: TierBDecision) -> bool {
    exists|i: int| 0 <= i < rs.len() && rs[i].decision == d
}

/// Decision of merged results: reachable wins, then unknown, then not
/// reachable; no result at all is unknown.
pub open spec fn merged_decision(rs: Seq<TierCResult>) -> TierBDecision {
    if some_decision(rs, TierBDecision::Reachable) {
        TierBDecision::Reachable
    } else if some_decision(rs, TierBDecision::Unknown) {
        TierBDecision::Unknown
    } else if some_decision(rs, TierBDecision::NotReachable) {
        TierBDecision::NotReachable
    } else {
        TierBDecision::Unknown
    }
}

/// How per-language results merge, whatever their order: reachable when
/// any language is reachable; otherwise unknown when any language is
/// unknown; otherwise not reachable when any language is not reachable; and
/// unknown for no results at all.
pub proof fn lemma_merged_decision_by_presence(rs: Seq<TierCResult>)
    ensures
        (exists|i: int| 0 <= i < rs.len() && rs[i].decision == TierBDecision::Reachable) ==> merged_decision(rs)
            == TierBDecision::Reachable,
        !(exists|i: int| 0 <= i < rs.len() && rs[i].decision == TierBDecision::Reachable) && (exists|i: int|
            0 <= i < rs.len() && rs[i].decision == TierBDecision::Unknown) ==> merged_decision(rs)
            == TierBDecision::Unknown,
        !(exists|i: int| 0 <= i < rs.len() && rs[i].decision != TierBDecision::NotReachable) && rs.len() > 0
            ==> merged_decision(rs) == TierBDecision::NotReachable,
        rs.len() == 0 ==> merged_decision(rs) == TierBDecision::Unknown,
{
    if exists|i: int| 0 <= i < rs.len() && rs[i].decision == TierBDecision::Reachable {
        let i = choose|i: int| 0 <= i < rs.len() && rs[i].decision == TierBDecision::Reachable;
        assert(some_decision(rs, TierBDecision::Reachable));
    }
    if exists|i: int| 0 <= i < rs.len() && rs[i].decision == TierBDecision::Unknown {
        let i = choose|i: int| 0 <= i < rs.len() && rs[i].decision == TierBDecision::Unknown;
        assert(some_decision(rs, TierBDecision::Unknown));
    }
    if rs.len() > 0 && !(exists|i: int| 0 <= i < rs.len() && rs[i].decision != TierBDecision::NotReachable) {
        assert(rs[0].decision == TierBDecision::NotReachable);
        assert(some_decision(rs, TierBDecision::NotReachable));
    }
}

/// Merging does not depend on the order of the results: two lists holding
/// the same results, counted with repeats, merge to the same decision.
pub proof fn lemma_merged_decision_order_free(rs1: Seq<TierCResult>, rs2: Seq<TierCResult>)
    requires
        rs1.to_multiset() == rs2.to_multiset(),
    ensures
        merged_decision(rs1) == merged_decision(rs2),
{
    rs1.to_multiset_ensures();
    rs2.to_multiset_ensures();
    lemma_merged_decision_by_presence(rs1);
    lemma_merged_decision_by_presence(rs2);
    assert forall|d: TierBDecision| #[trigger] some_decision(rs1, d) == some_decision(rs2, d) by {
        if exists|i: int| 0 <= i < rs1.len() && rs1[i].decision == d {
            let i = choose|i: int| 0 <= i < rs1.len() && rs1[i].decision == d;
            assert(rs1.to_multiset().count(rs1[i]) > 0);
            assert(rs2.contains(rs1[i]));
        }
        if exists|i: int| 0 <= i < rs2.len() && rs2[i].decision == d {
            let i = choose|i: int| 0 <= i < rs2.len() && rs2[i].decision == d;
            assert(rs2.to_multiset().count(rs2[i]) > 0);
            assert(rs1.contains(rs2[i]));
        }
    }
    assert(rs1.len() == rs2.len());
    if rs1.len() > 0 {
        if exists|i: int| 0 <= i < rs1.len() && rs1[i].decision != TierBDecision::NotReachable {
            let i = choose|i: int| 0 <= i < rs1.len() && rs1[i].decision != TierBDecision::NotReachable;
            let d = rs1[i].decision;
            assert(some_decision(rs1, d));
            assert(some_decision(rs2, d));
        }
        if exists|i: int| 0 <= i < rs2.len() && rs2[i].decision != TierBDecision::NotReachable {
            let i = choose|i: int| 0 <= i < rs2.len() && rs2[i].decision != TierBDecision::NotReachable;
            let d = rs2[i].decision;
            assert(some_decision(rs2, d));
            assert(some_decision(rs1, d));
        }
    }
}

/// The evidence of all results, in order.
pub open spec fn all_evidence(rs: Seq<TierCResult>) -> Seq<EvidenceView>
    decreases rs.len(),
{
    if rs.len() == 0 {
        Seq::empty()
    } else {
        all_evidence(rs.drop_last()) + evidence_views(rs.last().evidence@)
    }
}

/// Merge the Tier C results of several language analyzers.
pub fn merge_tier_c_results(results: Vec<TierCResult>) -> (r: TierCResult)
    ensures
        r.decision == merged_decision(results@),
        capped_evidence(all_evidence(results@), evidence_views(r.evidence@)),
{
    let mut evidence: Vec<ReachabilityEvidence> = Vec::new();
    let mut saw_reachable = false;
    let mut saw_not_reachable = false;
    let mut saw_unknown = false;
    let mut i: usize = 0;
    while i < results.len()
        invariant
            i <= results.len(),
            evidence_views(evidence@) == all_evidence(results@.take(i as int)),
            saw_reachable == some_decision(results@.take(i as int), TierBDecision::Reachable),
            saw_unknown == some_decision(results@.take(i as int), TierBDecision::Unknown),
            saw_not_reachable == some_decision(results@.take(i as int), TierBDecision::NotReachable),
        decreases results.len() - i,
    {
        let ghost pre = results@.take(i as int);
        let ghost post = results@.take(i + 1);
        assert(post.drop_last() =~= pre);
        assert(post.last() == results@[i as int]);
        let res = &results[i];
        let ghost start = evidence_views(evidence@);
        let mut k: usize = 0;
        while k < res.evidence.len()
            invariant
                k <= res.evidence.len(),
                evidence_views(evidence@) == start + evidence_views(res.evidence@).take(k as int),
            decreases res.evidence.len() - k,
        {
            let d = res.evidence[k].duplicate();
            let ghost prev = evidence@;
            assert(d@ == evidence_views(res.evidence@)[k as int]);
            evidence.push(d);
            assert(evidence@ == prev.push(d));
            assert(evidence_views(evidence@) =~= evidence_views(prev).push(d@));
            assert(evidence_views(res.evidence@).take(k + 1) =~= evidence_views(res.evidence@).take(k as int).push(d@));
            assert(evidence_views(evidence@) =~= start + evidence_views(res.evidence@).take(k + 1));
            k = k + 1;
        }
        assert(evidence_views(res.evidence@).take(res.evidence.len() as int) =~= evidence_views(res.evidence@));
        match res.decision {
            TierBDecision::Reachable => {
                saw_reachable = true;
            },
            TierBDecision::NotReachable => {
                saw_not_reachable = true;
            },
            TierBDecision::Unknown => {
                saw_unknown = true;
            },
        }
        proof {
            assert forall|d: TierBDecision| some_decision(post, d) == (some_decision(pre, d)
                || results@[i as int].decision == d) by {
                if some_decision(post, d) {
                    let m = choose|m: int| 0 <= m < post.len() && post[m].decision == d;
                    if m < i {
                        assert(pre[m] == post[m]);
                    }
                }
                if some_decision(pre, d) {
                    let m = choose|m: int| 0 <= m < pre.len() && pre[m].decision == d;
                    assert(pre[m] == post[m]);
                }
            }
        }
        i = i + 1;
    }
    assert(results@.take(results.len() as int) =~= results@);
    let decision = if saw_reachable {
        TierBDecision::Reachable
    } else if saw_unknown {
        TierBDecision::Unknown
    } else if saw_not_reachable {
        TierBDecision::NotReachable
    } else {
        TierBDecision::Unknown
    };
    cap_reachability_evidence(&mut evidence);
    TierCResult { decision, evidence }
}

/// Resets the Tier B performance counters; they are only kept in
/// instrumented builds, so this does nothing here.
pub fn reset_tier_b_counters() {
}

/// Snapshot of the Tier B performance counters (file enumerations, files
/// enumerated, read attempts, read successes); all zero without
/// instrumentation.
pub fn snapshot_tier_b_counters() -> (r: (u64, u64, u64, u64))
    ensures
        r == (0u64, 0u64, 0u64, 0u64),
{
    (0, 0, 0, 0)
}

/// Records a Tier B file read attempt; counted only in instrumented builds.
pub fn note_tier_b_file_read_attempt(success: bool) {
}

/// Run `f` and return its result with a counter snapshot taken around it.
pub fn measure_tier_b_counters<F: FnOnce() -> R, R>(f: F) -> (r: (R, (u64, u64, u64, u64)))
    requires
        f.requires(()),
    ensures
        f.ensures((), r.0),
        r.1 == (0u64, 0u64, 0u64, 0u64),
{
    let v = f();
    (v, (0, 0, 0, 0))
}

/// Whether a directory is excluded: its file name is one of `exclude`.
pub fn should_skip_dir(path: &str, exclude: &[String]) -> (r: bool)
    ensures
        r == (file_name_of(path@) matches Some(n) && exists|i: int|
            0 <= i < exclude.len() && exclude@[i]@ == n),
{
    let fname = file_name_str(path);
    match fname {
        None => false,
        Some(name) => {
            assert(file_name_of(path@) == Some(name@));
            let mut i: usize = 0;
            while i < exclude.len()
                invariant
                    i <= exclude.len(),
                    file_name_of(path@) == Some(name@),
                    forall|k: int| 0 <= k < i ==> exclude@[k]@ != name@,
                decreases exclude.len() - i,
            {
                if str_eq(exclude[i].as_str(), name.as_str()) {
                    assert(exclude@[i as int]@ == name@);
                    return true;
                }
                i = i + 1;
            }
            false
        },
    }
}

/// A language analyzer of package and advisory-symbol reachability.
pub trait ReachabilityAnalyzer {
    /// The language this analyzer handles, as `language_name` reports it
    /// (a fixed text per analyzer).
    spec fn handled_language(&self) -> &'static str;

    /// The ecosystems this analyzer handles, as `ecosystems` reports them (a
    /// fixed list per analyzer).
    spec fn handled_ecosystems(&self) -> &'static [&'static str];

    /// Name of the language this analyzer handles.
    fn language_name(&self) -> (r: &'static str)
        ensures
            r == self.handled_language(),
    ;

    /// Ecosystems this analyzer handles.
    fn ecosystems(&self) -> (r: &'static [&'static str])
        ensures
            r == self.handled_ecosystems(),
    ;

    fn analyze_tier_b(&self, context: &TierBContext<'_>) -> TierBDecision;

    /// True when this analyzer can match advisory symbols (Tier C).
    fn supports_tier_c(&self) -> (r: bool)
        default_ensures
            !r,
    {
        false
    }

    /// Match advisory symbols against consumer import evidence.
    fn analyze_tier_c(&self, context: &TierBContext<'_>, advisory_symbols: &[String]) -> (r: TierCResult)
        default_ensures
            r.decision == TierBDecision::Unknown && r.evidence@.len() == 0,
    {
        TierCResult::unknown()
    }

    /// True when this analyzer can refine Tier C unknowns (Tier D).
    fn supports_tier_d(&self) -> (r: bool)
        default_ensures
            !r,
    {
        false
    }

    /// Refine reachability for Tier C unknowns by deeper source inspection.
    fn analyze_tier_d(&self, context: &TierBContext<'_>, advisory_symbols: &[String]) -> (r: TierCResult)
        default_ensures
            r.decision == TierBDecision::Unknown && r.evidence@.len() == 0,
    {
        TierCResult::unknown()
    }
}

} // verus!
