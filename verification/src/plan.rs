//! The finding-level upgrade planner: the smallest fixed version that clears
//! every advisory covering the installed version, where the dependency is
//! declared, and how the fix can be applied.
use vstd::prelude::*;
use vstd::string::*;

use crate::model::{
    AffectedEvent, AffectedRange, AffectedRangeType, CveRecord, DeclarationKind, Package,
    PackageDeclarationLocation,
};
use crate::order::Order3;
use crate::remediate::{
    apply_strategy_spec, remediation_apply_strategy_for_finding, ApplyStrategy, DependencyKind,
    UpgradePlan, UpgradePlanConfidence, MIN_FIXED_VERSION_UNKNOWN,
};
use crate::text::{chars_of, str_eq, string_of, sub_vec, trim, trim_string, trim_vec};
use crate::versions::{
    compare_versions, copy_version, max_version, new_version, parse_version, semver_parsed,
    version_max, version_order, version_text, version_to_string, SemVer, SemVerView,
};

verus! {

/// A version text as the planner reads it: trimmed, one leading `v` dropped.
pub open spec fn version_operand(s: Seq<char>) -> Seq<char> {
    let t = trim(s);
    if t.len() > 0 && t[0] == 'v' {
        t.drop_first()
    } else {
        t
    }
}

/// The version a text names, if `semver` accepts it.
pub open spec fn parsed_fixed(s: Seq<char>) -> Option<SemVerView> {
    semver_parsed(version_operand(s))
}

fn parse_fixed_version(s: &str) -> (r: Option<SemVer>)
    ensures
        crate::versions::opt_version_view(r) == parsed_fixed(s@),
{
    let t = trim_vec(chars_of(s).as_slice());
    let text = if t.len() > 0 && t[0] == 'v' {
        let rest = sub_vec(t.as_slice(), 1, t.len());
        assert(rest@ =~= t@.drop_first());
        string_of(rest.as_slice())
    } else {
        string_of(t.as_slice())
    };
    parse_version(text.as_str())
}

/// Version `0.0.0`.
pub open spec fn zero_version() -> SemVerView {
    SemVerView { major: 0, minor: 0, patch: 0, pre: Seq::empty(), build: Seq::empty() }
}

/// Walking state of one range: the current lower bound and the covering fix
/// found so far; `None` once the range makes the fix unknown.
pub type RangeState = Option<(Option<SemVerView>, Option<SemVerView>)>;

/// The lower bound an `introduced` event sets (`0` is the zero version).
pub open spec fn introduced_bound(i: Seq<char>) -> Option<SemVerView> {
    if trim(i) == "0"@ {
        Some(zero_version())
    } else {
        parsed_fixed(i)
    }
}

/// One event of a range: `introduced` moves the lower bound; `fixed` closes
/// an interval `[lower, fixed)` (recording `fixed` when the installed
/// version is inside) and becomes the next lower bound; otherwise
/// `last_affected` closes `[lower, last]`, and an installed version inside
/// it makes the fix unknown. An unparsable version makes it unknown too.
pub open spec fn range_step(installed: SemVerView, st: RangeState, ev: AffectedEvent) -> RangeState {
    match st {
        None => None,
        Some((lower0, covering)) => {
            let lower1: Option<Option<SemVerView>> = match ev.introduced {
                Some(i) => match introduced_bound(i@) {
                    Some(v) => Some(Some(v)),
                    None => None,
                },
                None => Some(lower0),
            };
            match lower1 {
                None => None,
                Some(lower) => {
                    let intro = match lower {
                        Some(l) => l,
                        None => zero_version(),
                    };
                    match ev.fixed {
                        Some(f) => match parsed_fixed(f@) {
                            None => None,
                            Some(fv) => {
                                let inside = version_order(installed, intro) != Order3::Less
                                    && version_order(installed, fv) == Order3::Less;
                                Some(
                                    (
                                        Some(fv),
                                        if inside {
                                            Some(
                                                match covering {
                                                    Some(e) => version_max(e, fv),
                                                    None => fv,
                                                },
                                            )
                                        } else {
                                            covering
                                        },
                                    ),
                                )
                            },
                        },
                        None => match ev.last_affected {
                            Some(l) => match parsed_fixed(l@) {
                                None => None,
                                Some(lv) => if version_order(installed, intro) != Order3::Less
                                    && version_order(installed, lv) != Order3::Greater {
                                    None
                                } else {
                                    Some((Some(lv), covering))
                                },
                            },
                            None => Some((lower, covering)),
                        },
                    }
                },
            }
        },
    }
}

/// State after walking the events of a range.
pub open spec fn range_walk(installed: SemVerView, events: Seq<AffectedEvent>) -> RangeState
    decreases events.len(),
{
    if events.len() == 0 {
        Some((None, None))
    } else {
        range_step(installed, range_walk(installed, events.drop_last()), events.last())
    }
}

/// The covering fix of a range: `Some(None)` when none covers the installed
/// version, `None` when it makes the fix unknown.
pub open spec fn covering_fixed(installed: SemVerView, events: Seq<AffectedEvent>) -> Option<Option<SemVerView>> {
    match range_walk(installed, events) {
        Some((_, c)) => Some(c),
        None => None,
    }
}

/// Once a walk makes the fix unknown, later events keep it unknown.
proof fn lemma_range_walk_stuck(installed: SemVerView, events: Seq<AffectedEvent>, k: int)
    requires
        0 <= k <= events.len(),
        range_walk(installed, events.take(k)) is None,
    ensures
        range_walk(installed, events) is None,
    decreases events.len(),
{
    if events.len() == k {
        assert(events.take(k) =~= events);
    } else {
        assert(events.drop_last().take(k) =~= events.take(k));
        lemma_range_walk_stuck(installed, events.drop_last(), k);
    }
}

/// An unknown plan state stays unknown through any ranges.
proof fn lemma_plan_ranges_none(installed: SemVerView, ranges: Seq<AffectedRange>)
    ensures
        plan_ranges(installed, None, ranges) is None,
    decreases ranges.len(),
{
    if ranges.len() > 0 {
        lemma_plan_ranges_none(installed, ranges.drop_last());
    }
}

proof fn lemma_plan_ranges_stuck(installed: SemVerView, st: PlanState, ranges: Seq<AffectedRange>, k: int)
    requires
        0 <= k <= ranges.len(),
        plan_ranges(installed, st, ranges.take(k)) is None,
    ensures
        plan_ranges(installed, st, ranges) is None,
    decreases ranges.len(),
{
    if ranges.len() == k {
        assert(ranges.take(k) =~= ranges);
    } else {
        assert(ranges.drop_last().take(k) =~= ranges.take(k));
        lemma_plan_ranges_stuck(installed, st, ranges.drop_last(), k);
    }
}

proof fn lemma_plan_cves_stuck(installed: SemVerView, cves: Seq<CveRecord>, k: int)
    requires
        0 <= k <= cves.len(),
        plan_cves(installed, cves.take(k)) is None,
    ensures
        plan_cves(installed, cves) is None,
    decreases cves.len(),
{
    if cves.len() == k {
        assert(cves.take(k) =~= cves);
    } else {
        assert(cves.drop_last().take(k) =~= cves.take(k));
        lemma_plan_cves_stuck(installed, cves.drop_last(), k);
        lemma_plan_ranges_none(installed, cves.last().affected_ranges@);
    }
}

/// Walk the OSV events of one range: the largest `fixed` of an interval
/// holding the installed version, `Ok(None)` when none does, `Err` for an
/// unparsable version or a covering `last_affected` without a fix.
fn covering_fixed_from_range(installed: &SemVer, events: &Vec<AffectedEvent>) -> (r: Result<Option<SemVer>, ()>)
    ensures
        match covering_fixed(installed@, events@) {
            None => r is Err,
            Some(c) => r matches Ok(x) && crate::versions::opt_version_view(x) == c,
        },
{
    let mut lower: Option<SemVer> = None;
    let mut covering: Option<SemVer> = None;
    let mut i: usize = 0;
    while i < events.len()
        invariant
            i <= events.len(),
            range_walk(installed@, events@.take(i as int)) == Some(
                (
                    crate::versions::opt_version_view(lower),
                    crate::versions::opt_version_view(covering),
                ),
            ),
        decreases events.len() - i,
    {
        let ev = &events[i];
        assert(events@.take(i + 1).drop_last() =~= events@.take(i as int));
        assert(events@.take(i + 1).last() == *ev);
        match &ev.introduced {
            Some(introduced) => {
                let t = trim_string(introduced.as_str());
                if str_eq(t.as_str(), "0") {
                    lower = Some(new_version(0, 0, 0));
                } else {
                    match parse_fixed_version(introduced.as_str()) {
                        Some(v) => {
                            lower = Some(v);
                        },
                        None => {
                            proof {
                                lemma_range_walk_stuck(installed@, events@, i + 1);
                            }
                            return Err(());
                        },
                    }
                }
            },
            None => {},
        }
        let intro = match &lower {
            Some(l) => copy_version(l),
            None => new_version(0, 0, 0),
        };
        match &ev.fixed {
            Some(fixed_s) => {
                let fixed = match parse_fixed_version(fixed_s.as_str()) {
                    Some(f) => f,
                    None => {
                        proof {
                            lemma_range_walk_stuck(installed@, events@, i + 1);
                        }
                        return Err(());
                    },
                };
                if compare_versions(installed, &intro) != Order3::Less && compare_versions(
                    installed,
                    &fixed,
                ) == Order3::Less {
                    let candidate = copy_version(&fixed);
                    covering = Some(
                        match covering {
                            Some(existing) => max_version(existing, candidate),
                            None => candidate,
                        },
                    );
                }
                lower = Some(fixed);
            },
            None => {
                match &ev.last_affected {
                    Some(last_s) => {
                        let last = match parse_fixed_version(last_s.as_str()) {
                            Some(l) => l,
                            None => {
                                proof {
                                    lemma_range_walk_stuck(installed@, events@, i + 1);
                                }
                                return Err(());
                            },
                        };
                        if compare_versions(installed, &intro) != Order3::Less && compare_versions(
                            installed,
                            &last,
                        ) != Order3::Greater {
                            proof {
                                lemma_range_walk_stuck(installed@, events@, i + 1);
                            }
                            return Err(());
                        }
                        lower = Some(last);
                    },
                    None => {},
                }
            },
        }
        i = i + 1;
    }
    assert(events@.take(events.len() as int) =~= events@);
    Ok(covering)
}

/// State across advisories: the largest covering fix so far, or `None` once
/// the fix is unknown.
pub type PlanState = Option<Option<SemVerView>>;

/// Fold one range into the plan state (git ranges are skipped).
pub open spec fn plan_range_step(installed: SemVerView, st: PlanState, range: AffectedRange) -> PlanState {
    match st {
        None => None,
        Some(max_fixed) => if range.range_type == AffectedRangeType::Git {
            Some(max_fixed)
        } else {
            match covering_fixed(installed, range.events@) {
                None => None,
                Some(None) => Some(max_fixed),
                Some(Some(f)) => Some(
                    Some(
                        match max_fixed {
                            Some(e) => version_max(e, f),
                            None => f,
                        },
                    ),
                ),
            }
        },
    }
}

/// Fold the ranges of one advisory.
pub open spec fn plan_ranges(installed: SemVerView, st: PlanState, ranges: Seq<AffectedRange>) -> PlanState
    decreases ranges.len(),
{
    if ranges.len() == 0 {
        st
    } else {
        plan_range_step(installed, plan_ranges(installed, st, ranges.drop_last()), ranges.last())
    }
}

/// Fold the ranges of all advisories.
pub open spec fn plan_cves(installed: SemVerView, cves: Seq<CveRecord>) -> PlanState
    decreases cves.len(),
{
    if cves.len() == 0 {
        Some(None)
    } else {
        plan_ranges(installed, plan_cves(installed, cves.drop_last()), cves.last().affected_ranges@)
    }
}

/// The minimal fixed version for an installed version: known only when the
/// installed version parses, no range makes it unknown, and some range
/// covers it; then the largest covering fix.
pub open spec fn fixed_for_installed(installed: Seq<char>, cves: Seq<CveRecord>) -> Option<Seq<char>> {
    match parsed_fixed(installed) {
        None => None,
        Some(iv) => match plan_cves(iv, cves) {
            Some(Some(v)) => Some(version_text(v)),
            _ => None,
        },
    }
}

fn fold_ranges(installed: &SemVer, initial: Option<SemVer>, ranges: &Vec<AffectedRange>) -> (r: Result<Option<SemVer>, ()>)
    ensures
        match plan_ranges(installed@, Some(crate::versions::opt_version_view(initial)), ranges@) {
            None => r is Err,
            Some(m) => r matches Ok(x) && crate::versions::opt_version_view(x) == m,
        },
{
    let ghost start = crate::versions::opt_version_view(initial);
    let mut max_fixed = initial;
    let mut i: usize = 0;
    while i < ranges.len()
        invariant
            i <= ranges.len(),
            start == crate::versions::opt_version_view(initial),
            plan_ranges(installed@, Some(start), ranges@.take(i as int)) == Some(
                crate::versions::opt_version_view(max_fixed),
            ),
        decreases ranges.len() - i,
    {
        let range = &ranges[i];
        assert(ranges@.take(i + 1).drop_last() =~= ranges@.take(i as int));
        assert(ranges@.take(i + 1).last() == *range);
        if range.range_type != AffectedRangeType::Git {
            match covering_fixed_from_range(installed, &range.events) {
                Ok(None) => {},
                Ok(Some(fixed)) => {
                    max_fixed = Some(
                        match max_fixed {
                            Some(existing) => max_version(existing, fixed),
                            None => fixed,
                        },
                    );
                },
                Err(()) => {
                    proof {
                        lemma_plan_ranges_stuck(installed@, Some(start), ranges@, i + 1);
                    }
                    return Err(());
                },
            }
        }
        i = i + 1;
    }
    assert(ranges@.take(ranges.len() as int) =~= ranges@);
    Ok(max_fixed)
}

/// Minimal fixed version for the installed version across advisories:
/// `(true, version)` when a covering fix exists, `(false, "unknown")` when
/// the installed version does not parse, a covering interval has no fix, or
/// no covering fix was found.
pub fn fixed_version_for_installed(installed: &str, cves: &[CveRecord]) -> (r: (bool, String))
    ensures
        match fixed_for_installed(installed@, cves@) {
            Some(v) => r.0 && r.1@ == v,
            None => !r.0 && r.1@ == MIN_FIXED_VERSION_UNKNOWN@,
        },
{
    let installed_ver = match parse_fixed_version(installed) {
        Some(v) => v,
        None => {
            return (false, String::from_str(MIN_FIXED_VERSION_UNKNOWN));
        },
    };
    let mut max_fixed: Option<SemVer> = None;
    let mut i: usize = 0;
    while i < cves.len()
        invariant
            i <= cves.len(),
            semver_parsed(crate::plan::version_operand(installed@)) == Some(installed_ver@),
            plan_cves(installed_ver@, cves@.take(i as int)) == Some(
                crate::versions::opt_version_view(max_fixed),
            ),
        decreases cves.len() - i,
    {
        assert(cves@.take(i + 1).drop_last() =~= cves@.take(i as int));
        assert(cves@.take(i + 1).last() == cves@[i as int]);
        match fold_ranges(&installed_ver, max_fixed, &cves[i].affected_ranges) {
            Ok(m) => {
                max_fixed = m;
            },
            Err(()) => {
                proof {
                    lemma_plan_cves_stuck(installed_ver@, cves@, i + 1);
                }
                return (false, String::from_str(MIN_FIXED_VERSION_UNKNOWN));
            },
        }
        i = i + 1;
    }
    assert(cves@.take(cves.len() as int) =~= cves@);
    match max_fixed {
        Some(v) => (true, version_to_string(&v)),
        None => (false, String::from_str(MIN_FIXED_VERSION_UNKNOWN)),
    }
}

/// Some declaration has kind `k`.
pub open spec fn has_kind(decls: Seq<PackageDeclarationLocation>, k: DeclarationKind) -> bool {
    exists|i: int| 0 <= i < decls.len() && #[trigger] decls[i].kind == k
}

/// Where a dependency is declared: direct with a manifest declaration,
/// transitive with lock declarations only, else unknown.
pub open spec fn dependency_kind_of(decls: Seq<PackageDeclarationLocation>) -> DependencyKind {
    if has_kind(decls, DeclarationKind::Manifest) {
        DependencyKind::Direct
    } else if has_kind(decls, DeclarationKind::Lockfile) {
        DependencyKind::Transitive
    } else {
        DependencyKind::Unknown
    }
}

fn declares_kind(declarations: &[PackageDeclarationLocation], k: DeclarationKind) -> (r: bool)
    ensures
        r == has_kind(declarations@, k),
{
    let mut i: usize = 0;
    while i < declarations.len()
        invariant
            i <= declarations.len(),
            forall|j: int| 0 <= j < i ==> #[trigger] declarations@[j].kind != k,
        decreases declarations.len() - i,
    {
        if declarations[i].kind == k {
            return true;
        }
        i = i + 1;
    }
    false
}

/// Compute a finding-level upgrade plan: the minimal fixed version across
/// advisories, where the dependency is declared, high confidence only when
/// both are known, and the apply strategy for that version.
pub fn plan_upgrade_for_finding(
    package: &Package,
    declarations: &[PackageDeclarationLocation],
    cves: &[CveRecord],
) -> (r: UpgradePlan)
    ensures
        r.minimal_fixed_version@ == match fixed_for_installed(package.version@, cves@) {
            Some(v) => v,
            None => MIN_FIXED_VERSION_UNKNOWN@,
        },
        r.dependency_kind == dependency_kind_of(declarations@),
        r.confidence == if fixed_for_installed(package.version@, cves@) is Some
            && dependency_kind_of(declarations@) != DependencyKind::Unknown {
            UpgradePlanConfidence::High
        } else {
            UpgradePlanConfidence::Unknown
        },
        r.apply_strategy == apply_strategy_spec(
            package@.ecosystem,
            r.minimal_fixed_version@,
            declarations@,
        ),
{
    let dependency_kind = if declares_kind(declarations, DeclarationKind::Manifest) {
        DependencyKind::Direct
    } else if declares_kind(declarations, DeclarationKind::Lockfile) {
        DependencyKind::Transitive
    } else {
        DependencyKind::Unknown
    };
    let (known, minimal_fixed_version) = fixed_version_for_installed(package.version.as_str(), cves);
    let confidence = if known && dependency_kind != DependencyKind::Unknown {
        UpgradePlanConfidence::High
    } else {
        UpgradePlanConfidence::Unknown
    };
    let apply_strategy = remediation_apply_strategy_for_finding(
        package,
        minimal_fixed_version.as_str(),
        declarations,
    );
    UpgradePlan { minimal_fixed_version, dependency_kind, apply_strategy, confidence }
}

} // verus!
