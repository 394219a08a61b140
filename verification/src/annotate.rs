//! Reachability applied to findings: Tier B per package, Tier C per CVE
//! from advisory symbols, Tier D refining Tier C unknowns; with the
//! persisted decisions of earlier runs.
use vstd::prelude::*;

use crate::matching::string_views;
use crate::model::{CveEvidenceLocation, CveRecord, Package, PackageView};
use crate::reach::{
    ReachabilityAnalyzer, ReachabilityEvidence, TierBDecision, TierCResult, SYMBOL_USAGE_NOT_FOUND,
    SYMBOL_USAGE_UNKNOWN, SYMBOL_USAGE_USED,
};
use crate::json::{json_get_str, JsonValue};
use crate::matching::{sanitize_advisory_symbols, sanitized_symbols};
use crate::model::opt_seq;
use crate::render::{relative_path_string, shown_path};
use crate::text::str_eq;
use crate::tiers::{
    choose_tier_b_decision, choose_tier_c_result, choose_tier_d_result, decision_key_spec,
    owned_context, symbol_result_spec, tier_b_spec, tier_b_persisted_cache_key, tier_c_persisted_cache_key, PackageContext,
    PERSISTED_REACHABILITY_CACHE_VERSION,
};

verus! {

/// Advisory symbol data extracted from a CVE's advisory.
#[derive(Debug, Clone)]
pub struct AdvisorySymbols {
    pub symbols: Vec<String>,
    /// The advisory carries symbol metadata at all.
    pub has_symbol_data: bool,
}

/// The context of a package: the first entry for it.
pub open spec fn context_of(ctxs: Seq<(Package, PackageContext)>, p: PackageView) -> Option<PackageContext>
    decreases ctxs.len(),
{
    if ctxs.len() == 0 {
        None
    } else if ctxs[0].0@ == p {
        Some(ctxs[0].1)
    } else {
        context_of(ctxs.drop_first(), p)
    }
}

/// The languages and manifests of a context.
pub open spec fn ctx_view(c: Option<PackageContext>) -> Option<(Seq<Seq<char>>, Seq<Seq<char>>)> {
    match c {
        Some(ctx) => Some((string_views(ctx.languages@), string_views(ctx.manifest_paths@))),
        None => None,
    }
}

/// Persisted Tier B key of a package in its context.
pub open spec fn tier_b_key(p: PackageView, c: Option<PackageContext>, stamps: Seq<(String, String)>) -> Seq<char> {
    "v"@ + PERSISTED_REACHABILITY_CACHE_VERSION@ + "|tier-b|"@ + decision_key_spec(p, ctx_view(c), stamps)
}

/// The decision stored under `k`: the first entry with that key.
pub open spec fn cache_get(cache: Seq<(String, TierBDecision)>, k: Seq<char>) -> Option<TierBDecision>
    decreases cache.len(),
{
    if cache.len() == 0 {
        None
    } else if cache[0].0@ == k {
        Some(cache[0].1)
    } else {
        cache_get(cache.drop_first(), k)
    }
}

/// Looking a key up after an entry is appended.
pub proof fn lemma_cache_get_push(cache: Seq<(String, TierBDecision)>, e: (String, TierBDecision), k: Seq<char>)
    ensures
        cache_get(cache.push(e), k) == match cache_get(cache, k) {
            Some(d) => Some(d),
            None => if e.0@ == k {
                Some(e.1)
            } else {
                None
            },
        },
    decreases cache.len(),
{
    if cache.len() > 0 {
        assert(cache.push(e).drop_first() =~= cache.drop_first().push(e));
        lemma_cache_get_push(cache.drop_first(), e, k);
    } else {
        assert(cache.push(e).drop_first() =~= cache);
    }
}

/// Two packages are the same package.
pub fn package_eq(a: &Package, b: &Package) -> (r: bool)
    ensures
        r == (a@ == b@),
{
    if !str_eq(a.name.as_str(), b.name.as_str()) || !str_eq(a.version.as_str(), b.version.as_str()) {
        return false;
    }
    match (&a.ecosystem, &b.ecosystem) {
        (Some(x), Some(y)) => str_eq(x.as_str(), y.as_str()),
        (None, None) => true,
        _ => false,
    }
}

/// The context of a package.
pub fn context_for<'a>(ctxs: &'a [(Package, PackageContext)], p: &Package) -> (r: Option<&'a PackageContext>)
    ensures
        match context_of(ctxs@, p@) {
            Some(c) => r matches Some(x) && *x == c,
            None => r is None,
        },
{
    let mut i: usize = 0;
    assert(ctxs@.skip(0) =~= ctxs@);
    while i < ctxs.len()
        invariant
            i <= ctxs.len(),
            context_of(ctxs@.skip(i as int), p@) == context_of(ctxs@, p@),
        decreases ctxs.len() - i,
    {
        assert(ctxs@.skip(i as int).drop_first() =~= ctxs@.skip(i + 1));
        if package_eq(&ctxs[i].0, p) {
            return Some(&ctxs[i].1);
        }
        i = i + 1;
    }
    None
}

/// The decision stored under a key.
pub fn cache_lookup(cache: &Vec<(String, TierBDecision)>, k: &str) -> (r: Option<TierBDecision>)
    ensures
        r == cache_get(cache@, k@),
{
    let mut i: usize = 0;
    assert(cache@.skip(0) =~= cache@);
    while i < cache.len()
        invariant
            i <= cache.len(),
            cache_get(cache@.skip(i as int), k@) == cache_get(cache@, k@),
        decreases cache.len() - i,
    {
        assert(cache@.skip(i as int).drop_first() =~= cache@.skip(i + 1));
        if str_eq(cache[i].0.as_str(), k) {
            return Some(cache[i].1);
        }
        i = i + 1;
    }
    None
}

/// The decision remembered for a package in this run.
pub open spec fn memo_get(memo: Seq<(Package, TierBDecision)>, p: PackageView) -> Option<TierBDecision>
    decreases memo.len(),
{
    if memo.len() == 0 {
        None
    } else if memo.last().0@ == p {
        Some(memo.last().1)
    } else {
        memo_get(memo.drop_last(), p)
    }
}

fn memo_lookup(memo: &Vec<(Package, TierBDecision)>, p: &Package) -> (r: Option<TierBDecision>)
    ensures
        r == memo_get(memo@, p@),
{
    let mut i: usize = memo.len();
    assert(memo@.take(i as int) =~= memo@);
    while i > 0
        invariant
            i <= memo.len(),
            memo_get(memo@.take(i as int), p@) == memo_get(memo@, p@),
        decreases i,
    {
        assert(memo@.take(i as int).drop_last() =~= memo@.take(i - 1));
        if package_eq(&memo[i - 1].0, p) {
            return Some(memo[i - 1].1);
        }
        i = i - 1;
    }
    None
}

/// The reachability a decision gives a CVE record.
pub open spec fn reach_of(d: TierBDecision) -> Option<bool> {
    match d {
        TierBDecision::Reachable => Some(true),
        TierBDecision::NotReachable => Some(false),
        TierBDecision::Unknown => None,
    }
}

/// A remembered decision is that of some entry for the package.
proof fn lemma_memo_get_entry(memo: Seq<(Package, TierBDecision)>, p: PackageView)
    requires
        memo_get(memo, p) is Some,
    ensures
        exists|m: int| 0 <= m < memo.len() && memo[m].0@ == p && memo[m].1 == memo_get(memo, p).unwrap(),
    decreases memo.len(),
{
    if memo.last().0@ != p {
        lemma_memo_get_entry(memo.drop_last(), p);
        let m = choose|m: int|
            0 <= m < memo.drop_last().len() && memo.drop_last()[m].0@ == p && memo.drop_last()[m].1
                == memo_get(memo.drop_last(), p).unwrap();
        assert(memo[m] == memo.drop_last()[m]);
    } else {
        assert(memo[memo.len() - 1] == memo.last());
    }
}

/// `rec` with only its reachability changed to `v`.
pub open spec fn with_reachable(rec: CveRecord, v: Option<bool>) -> CveRecord {
    CveRecord { reachable: v, ..rec }
}

/// Set the reachability of every record.
pub fn set_reachable(recs: &mut Vec<CveRecord>, v: Option<bool>)
    ensures
        final(recs)@.len() == old(recs)@.len(),
        forall|j: int| 0 <= j < old(recs)@.len() ==> final(recs)@[j] == with_reachable(old(recs)@[j], v),
{
    let ghost orig = recs@;
    let mut j: usize = 0;
    while j < recs.len()
        invariant
            j <= recs.len(),
            recs@.len() == orig.len(),
            forall|k: int| 0 <= k < j ==> recs@[k] == with_reachable(orig[k], v),
            forall|k: int| j <= k < orig.len() ==> recs@[k] == orig[k],
        decreases recs.len() - j,
    {
        recs[j].reachable = v;
        j = j + 1;
    }
}

/// Tier B with no persisted decisions and no context for the package (or
/// no languages, or no ecosystem) gives unknown.
pub open spec fn tier_b_forced_unknown(ctx: Option<PackageContext>, p: PackageView) -> bool {
    ctx is None || ctx.unwrap().languages@.len() == 0 || p.ecosystem is None
}

/// Findings of the same shape whose records differ at most in reachability.
pub open spec fn only_reach_changed(f0: Seq<(Package, Vec<CveRecord>)>, f1: Seq<(Package, Vec<CveRecord>)>) -> bool {
    &&& f1.len() == f0.len()
    &&& forall|i: int|
        #![trigger f1[i]]
        0 <= i < f0.len() ==> f1[i].0 == f0[i].0 && f1[i].1@.len() == f0[i].1@.len()
    &&& forall|i: int, j: int|
        0 <= i < f0.len() && 0 <= j < f0[i].1@.len() ==> #[trigger] f1[i].1@[j] == with_reachable(
            f0[i].1@[j],
            f1[i].1@[j].reachable,
        )
}

/// Records of the same package have the same reachability.
pub open spec fn reach_per_package(f0: Seq<(Package, Vec<CveRecord>)>, f1: Seq<(Package, Vec<CveRecord>)>) -> bool {
    forall|i: int, j: int, i2: int, j2: int|
        0 <= i < f0.len() && 0 <= j < f0[i].1@.len() && 0 <= i2 < f0.len() && 0 <= j2 < f0[i2].1@.len()
            && f0[i].0@ == f0[i2].0@ ==> #[trigger] f1[i].1@[j].reachable == #[trigger] f1[i2].1@[j2].reachable
}

/// Records of packages that Tier B cannot analyze are unknown.
pub open spec fn unanalyzable_unknown(
    f0: Seq<(Package, Vec<CveRecord>)>,
    f1: Seq<(Package, Vec<CveRecord>)>,
    ctxs: Seq<(Package, PackageContext)>,
) -> bool {
    forall|i: int, j: int|
        0 <= i < f0.len() && 0 <= j < f0[i].1@.len() && tier_b_forced_unknown(context_of(ctxs, f0[i].0@), f0[i].0@)
            ==> #[trigger] f1[i].1@[j].reachable is None
}

/// Every record carries the decision stored under its package's key.
pub open spec fn reach_as_stored(
    f0: Seq<(Package, Vec<CveRecord>)>,
    f1: Seq<(Package, Vec<CveRecord>)>,
    cache: Seq<(String, TierBDecision)>,
    ctxs: Seq<(Package, PackageContext)>,
    stamps: Seq<(String, String)>,
) -> bool {
    forall|i: int, j: int|
        0 <= i < f0.len() && 0 <= j < f0[i].1@.len() ==> {
            let stored = cache_get(cache, tier_b_key(f0[i].0@, context_of(ctxs, f0[i].0@), stamps));
            stored is Some && #[trigger] f1[i].1@[j].reachable == reach_of(stored.unwrap())
        }
}

/// Every record carries a decision that fits the analyzers for its
/// package in the package's context (`tier_b_spec`).
pub open spec fn reach_fits_analyzers<A: ReachabilityAnalyzer>(
    f0: Seq<(Package, Vec<CveRecord>)>,
    f1: Seq<(Package, Vec<CveRecord>)>,
    ctxs: Seq<(Package, PackageContext)>,
    root: Seq<char>,
    excl: Seq<Seq<char>>,
    analyzers: Seq<A>,
) -> bool {
    forall|i: int, j: int|
        0 <= i < f0.len() && 0 <= j < f0[i].1@.len() ==> exists|d: TierBDecision|
            #[trigger] f1[i].1@[j].reachable == reach_of(d) && tier_b_spec(
                d,
                root,
                excl,
                f0[i].0@,
                context_of(ctxs, f0[i].0@),
                analyzers,
            )
}

/// Where a decision stored under `key` comes from: the decision stored
/// there by earlier runs (`p0`), else a decision that fits the analyzers
/// for a package of the findings whose key is `key`.
pub open spec fn tier_b_origin<A: ReachabilityAnalyzer>(
    d: TierBDecision,
    key: Seq<char>,
    p0: Seq<(String, TierBDecision)>,
    f0: Seq<(Package, Vec<CveRecord>)>,
    ctxs: Seq<(Package, PackageContext)>,
    stamps: Seq<(String, String)>,
    root: Seq<char>,
    excl: Seq<Seq<char>>,
    analyzers: Seq<A>,
) -> bool {
    match cache_get(p0, key) {
        Some(s) => d == s,
        None => exists|k: int|
            #![trigger f0[k]]
            0 <= k < f0.len() && tier_b_key(f0[k].0@, context_of(ctxs, f0[k].0@), stamps) == key && tier_b_spec(
                d,
                root,
                excl,
                f0[k].0@,
                context_of(ctxs, f0[k].0@),
                analyzers,
            ),
    }
}

/// Every decision stored in `p1` has its origin (`tier_b_origin`).
pub open spec fn stored_with_origin<A: ReachabilityAnalyzer>(
    p0: Seq<(String, TierBDecision)>,
    p1: Seq<(String, TierBDecision)>,
    f0: Seq<(Package, Vec<CveRecord>)>,
    ctxs: Seq<(Package, PackageContext)>,
    stamps: Seq<(String, String)>,
    root: Seq<char>,
    excl: Seq<Seq<char>>,
    analyzers: Seq<A>,
) -> bool {
    forall|kk: Seq<char>|
        #[trigger] cache_get(p1, kk) is Some ==> tier_b_origin(
            cache_get(p1, kk).unwrap(),
            kk,
            p0,
            f0,
            ctxs,
            stamps,
            root,
            excl,
            analyzers,
        )
}

/// `p1` is `p0` with entries appended.
pub open spec fn extends(p0: Seq<(String, TierBDecision)>, p1: Seq<(String, TierBDecision)>) -> bool {
    p1.len() >= p0.len() && p1.take(p0.len() as int) == p0
}

/// Apply Tier B per package to all CVE records of the findings: every
/// record of a package gets the package's decision (`Some(true)`,
/// `Some(false)` or `None`), decided once per package in the run by the
/// analyzers (`choose_tier_b_decision`). With `persisted` (the decisions of
/// earlier runs, by key), a stored decision is reused and each new decision
/// is stored under its key; returns whether anything was stored.
pub fn apply_tier_b_to_findings<A: ReachabilityAnalyzer>(
    scan_root: &str,
    exclude_dir_names: &[String],
    findings: &mut Vec<(Package, Vec<CveRecord>)>,
    package_contexts: &[(Package, PackageContext)],
    analyzers: &[A],
    manifest_stamps: &[(String, String)],
    persisted: &mut Option<Vec<(String, TierBDecision)>>,
) -> (dirty: bool)
    ensures
        only_reach_changed(old(findings)@, final(findings)@),
        reach_per_package(old(findings)@, final(findings)@),
        *old(persisted) is None ==> *final(persisted) is None && !dirty && unanalyzable_unknown(
            old(findings)@,
            final(findings)@,
            package_contexts@,
        ) && reach_fits_analyzers(
            old(findings)@,
            final(findings)@,
            package_contexts@,
            scan_root@,
            string_views(exclude_dir_names@),
            analyzers@,
        ),
        *old(persisted) is Some ==> *final(persisted) is Some && extends(
            (*old(persisted)).unwrap()@,
            (*final(persisted)).unwrap()@,
        ) && dirty == ((*final(persisted)).unwrap()@.len() > (*old(persisted)).unwrap()@.len()) && reach_as_stored(
            old(findings)@,
            final(findings)@,
            (*final(persisted)).unwrap()@,
            package_contexts@,
            manifest_stamps@,
        ) && stored_with_origin(
            (*old(persisted)).unwrap()@,
            (*final(persisted)).unwrap()@,
            old(findings)@,
            package_contexts@,
            manifest_stamps@,
            scan_root@,
            string_views(exclude_dir_names@),
            analyzers@,
        ),
{
    let ghost f0 = findings@;
    let ghost p0 = *persisted;
    proof {
        if p0 is Some {
            assert(p0.unwrap()@.take(p0.unwrap()@.len() as int) =~= p0.unwrap()@);
        }
    }
    let mut memo: Vec<(Package, TierBDecision)> = Vec::new();
    let ghost mut ds: Seq<TierBDecision> = Seq::empty();
    let mut dirty = false;
    let mut i: usize = 0;
    while i < findings.len()
        invariant
            i <= findings.len(),
            findings@.len() == f0.len(),
            ds.len() == i,
            forall|k: int| i <= k < f0.len() ==> #[trigger] findings@[k] == f0[k],
            forall|k: int|
                #![trigger findings@[k]]
                0 <= k < i ==> findings@[k].0 == f0[k].0 && findings@[k].1@.len() == f0[k].1@.len()
                    && forall|j: int|
                    0 <= j < f0[k].1@.len() ==> #[trigger] findings@[k].1@[j] == with_reachable(
                        f0[k].1@[j],
                        reach_of(ds[k]),
                    ),
            forall|k: int| 0 <= k < i ==> memo_get(memo@, f0[k].0@) == Some(#[trigger] ds[k]),
            forall|m: int|
                0 <= m < memo@.len() ==> exists|k: int|
                    0 <= k < i && #[trigger] memo@[m].0@ == f0[k].0@ && memo@[m].1 == ds[k],
            p0 is None ==> *persisted is None && !dirty && forall|k: int|
                0 <= k < i ==> tier_b_spec(
                    #[trigger] ds[k],
                    scan_root@,
                    string_views(exclude_dir_names@),
                    f0[k].0@,
                    context_of(package_contexts@, f0[k].0@),
                    analyzers@,
                ),
            p0 is Some ==> forall|kk: Seq<char>|
                #[trigger] cache_get(p0.unwrap()@, kk) is Some ==> cache_get((*persisted).unwrap()@, kk)
                    == cache_get(p0.unwrap()@, kk),
            p0 is Some ==> stored_with_origin(
                p0.unwrap()@,
                (*persisted).unwrap()@,
                f0,
                package_contexts@,
                manifest_stamps@,
                scan_root@,
                string_views(exclude_dir_names@),
                analyzers@,
            ),
            p0 is Some ==> *persisted is Some && extends(p0.unwrap()@, (*persisted).unwrap()@) && dirty == (
            (*persisted).unwrap()@.len() > p0.unwrap()@.len()) && forall|k: int|
                0 <= k < i ==> cache_get(
                    (*persisted).unwrap()@,
                    tier_b_key(f0[k].0@, context_of(package_contexts@, f0[k].0@), manifest_stamps@),
                ) == Some(#[trigger] ds[k]),
        decreases f0.len() - i,
    {
        let ghost pkg = f0[i as int].0@;
        let ghost ctx_spec = context_of(package_contexts@, pkg);
        assert(findings@[i as int] == f0[i as int]);
        let ctx = context_for(package_contexts, &findings[i].0);
        assert(owned_context(ctx) == ctx_spec);
        let key = tier_b_persisted_cache_key(&findings[i].0, ctx, manifest_stamps);
        assert(key@ == tier_b_key(pkg, ctx_spec, manifest_stamps@));
        let ghost memo_before = memo@;
        let hit = memo_lookup(&memo, &findings[i].0);
        let ghost mut fits = false;
        let decision = match hit {
            Some(d) => d,
            None => {
                let stored = match persisted {
                    Some(p) => cache_lookup(p, key.as_str()),
                    None => None,
                };
                let d = match stored {
                    Some(d) => d,
                    None => {
                        let c = choose_tier_b_decision(scan_root, exclude_dir_names, &findings[i].0, ctx, analyzers);
                        proof {
                            fits = true;
                        }
                        c
                    },
                };
                memo.push((findings[i].0.duplicate(), d));
                d
            },
        };
        proof {
            match hit {
                Some(d) => {
                    lemma_memo_get_entry(memo_before, pkg);
                    let m = choose|m: int|
                        0 <= m < memo_before.len() && memo_before[m].0@ == pkg && memo_before[m].1 == d;
                    let k = choose|k: int| 0 <= k < i && memo_before[m].0@ == f0[k].0@ && memo_before[m].1 == ds[k];
                    assert(ds[k] == decision && f0[k].0@ == pkg);
                    if p0 is Some {
                        assert(cache_get((*persisted).unwrap()@, key@) == Some(decision));
                    } else {
                        assert(tier_b_spec(decision, scan_root@, string_views(exclude_dir_names@), pkg, ctx_spec, analyzers@));
                    }
                },
                None => {
                    assert(memo@.drop_last() =~= memo_before);
                    assert forall|k: int| 0 <= k < i implies f0[k].0@ != pkg by {
                        assert(memo_get(memo_before, f0[k].0@) == Some(ds[k]));
                    }
                },
            }
        }
        match persisted {
            Some(p) => {
                if cache_lookup(p, key.as_str()).is_none() {
                    let ghost q = p@;
                    let ghost kv = key@;
                    p.push((key, decision));
                    dirty = true;
                    proof {
                        assert forall|kk: Seq<char>| #[trigger] cache_get(p@, kk) == match cache_get(q, kk) {
                            Some(d) => Some(d),
                            None => if key@ == kk {
                                Some(decision)
                            } else {
                                None
                            },
                        } by {
                            lemma_cache_get_push(q, (key, decision), kk);
                        }
                        assert(p@.take(p0.unwrap()@.len() as int) =~= q.take(p0.unwrap()@.len() as int));
                        assert(fits);
                        assert(cache_get(p0.unwrap()@, kv) is None);
                        assert(tier_b_key(f0[i as int].0@, context_of(package_contexts@, f0[i as int].0@), manifest_stamps@) == kv);
                        assert(tier_b_origin(
                            decision,
                            kv,
                            p0.unwrap()@,
                            f0,
                            package_contexts@,
                            manifest_stamps@,
                            scan_root@,
                            string_views(exclude_dir_names@),
                            analyzers@,
                        ));
                        assert forall|kk: Seq<char>| #[trigger] cache_get(p@, kk) is Some implies tier_b_origin(
                            cache_get(p@, kk).unwrap(),
                            kk,
                            p0.unwrap()@,
                            f0,
                            package_contexts@,
                            manifest_stamps@,
                            scan_root@,
                            string_views(exclude_dir_names@),
                            analyzers@,
                        ) by {
                            if cache_get(q, kk) is Some {
                                assert(cache_get(p@, kk) == cache_get(q, kk));
                            }
                        }
                    }
                }
            },
            None => {},
        }
        proof {
            if p0 is None {
                assert(tier_b_spec(decision, scan_root@, string_views(exclude_dir_names@), pkg, ctx_spec, analyzers@));
            }
        }
        let mapped = decision.as_option_bool();
        assert(mapped == reach_of(decision));
        set_reachable(&mut findings[i].1, mapped);
        let ghost ds_before = ds;
        proof {
            ds = ds.push(decision);
            assert forall|k: int| 0 <= k < i + 1 implies memo_get(memo@, f0[k].0@) == Some(#[trigger] ds[k]) by {
                if k < i {
                    assert(ds[k] == ds.drop_last()[k]);
                }
            }
            assert forall|m: int| 0 <= m < memo@.len() implies exists|k: int|
                0 <= k < i + 1 && #[trigger] memo@[m].0@ == f0[k].0@ && memo@[m].1 == ds[k] by {
                if m < memo_before.len() {
                    assert(memo@[m] == memo_before[m]);
                    let k = choose|k: int| 0 <= k < i && memo_before[m].0@ == f0[k].0@ && memo_before[m].1 == ds_before[k];
                    assert(ds[k] == ds_before[k]);
                } else {
                    assert(memo@[m].0@ == f0[i as int].0@);
                    assert(ds[i as int] == decision);
                }
            }
        }
        i = i + 1;
    }
    proof {
        assert forall|i1: int, j: int, i2: int, j2: int|
            0 <= i1 < f0.len() && 0 <= j < f0[i1].1@.len() && 0 <= i2 < f0.len() && 0 <= j2 < f0[i2].1@.len()
                && f0[i1].0@ == f0[i2].0@ implies #[trigger] findings@[i1].1@[j].reachable
                == #[trigger] findings@[i2].1@[j2].reachable by {
            assert(memo_get(memo@, f0[i1].0@) == Some(ds[i1]));
            assert(memo_get(memo@, f0[i2].0@) == Some(ds[i2]));
        }
        if p0 is None {
            assert forall|i1: int, j: int| 0 <= i1 < f0.len() && 0 <= j < f0[i1].1@.len() implies exists|d: TierBDecision|
                #[trigger] findings@[i1].1@[j].reachable == reach_of(d) && tier_b_spec(
                    d,
                    scan_root@,
                    string_views(exclude_dir_names@),
                    f0[i1].0@,
                    context_of(package_contexts@, f0[i1].0@),
                    analyzers@,
                ) by {
                assert(tier_b_spec(
                    ds[i1],
                    scan_root@,
                    string_views(exclude_dir_names@),
                    f0[i1].0@,
                    context_of(package_contexts@, f0[i1].0@),
                    analyzers@,
                ));
                assert(findings@[i1].1@[j].reachable == reach_of(ds[i1]));
            }
        }
    }
    dirty
}

/// Evidence locations as stored on a CVE record: each evidence with its
/// path shown relative to the scan root when possible.
pub open spec fn evidence_stored(locs: Seq<CveEvidenceLocation>, ev: Seq<ReachabilityEvidence>, root: Seq<char>) -> bool {
    locs.len() == ev.len() && forall|k: int|
        0 <= k < ev.len() ==> (#[trigger] locs[k]).path@ == shown_path(ev[k].path@, Some(root))
            && locs[k].start_line == ev[k].start_line && locs[k].end_line == ev[k].end_line
            && locs[k].symbol@ == ev[k].symbol@
}

/// Evidence converted to CVE evidence locations.
pub fn evidence_to_db_locations(evidence: &Vec<ReachabilityEvidence>, scan_root: &str) -> (r: Vec<CveEvidenceLocation>)
    ensures
        evidence_stored(r@, evidence@, scan_root@),
{
    let mut out: Vec<CveEvidenceLocation> = Vec::new();
    let mut i: usize = 0;
    while i < evidence.len()
        invariant
            i <= evidence.len(),
            evidence_stored(out@, evidence@.take(i as int), scan_root@),
        decreases evidence.len() - i,
    {
        let e = &evidence[i];
        out.push(
            CveEvidenceLocation {
                path: relative_path_string(e.path.as_str(), Some(scan_root)),
                start_line: e.start_line,
                end_line: e.end_line,
                symbol: String::from_str(e.symbol.as_str()),
            },
        );
        assert(evidence@.take(i + 1) =~= evidence@.take(i as int).push(*e));
        i = i + 1;
    }
    assert(evidence@.take(evidence.len() as int) =~= evidence@);
    out
}

/// The symbol usage label of a symbol-level result: `used` with evidence,
/// `not_found` when not reachable, else `unknown`.
pub open spec fn usage_label(res: TierCResult) -> Seq<char> {
    if res.evidence@.len() > 0 {
        SYMBOL_USAGE_USED@
    } else if res.decision == TierBDecision::NotReachable {
        SYMBOL_USAGE_NOT_FOUND@
    } else {
        SYMBOL_USAGE_UNKNOWN@
    }
}

/// `r1` is `r0` with the advisory symbols, evidence and symbol usage of a
/// symbol-level result, and reachability `reach`.
pub open spec fn symbol_applied(
    r0: CveRecord,
    r1: CveRecord,
    syms: Seq<Seq<char>>,
    res: TierCResult,
    root: Seq<char>,
    reach: Option<bool>,
) -> bool {
    &&& r1.id == r0.id
    &&& r1.cvss_version == r0.cvss_version
    &&& r1.description == r0.description
    &&& r1.affected_ranges == r0.affected_ranges
    &&& string_views(r1.advisory_symbols@) == syms
    &&& evidence_stored(r1.evidence@, res.evidence@, root)
    &&& opt_seq(r1.symbol_usage) == Some(usage_label(res))
    &&& r1.reachable == reach
}

/// Record the advisory symbols, evidence and symbol usage of a result.
pub fn apply_symbol_metadata(rec: &mut CveRecord, advisory_symbols: &[String], result: &TierCResult, scan_root: &str)
    ensures
        symbol_applied(*old(rec), *final(rec), string_views(advisory_symbols@), *result, scan_root@, old(rec).reachable),
{
    let mut syms: Vec<String> = Vec::new();
    let mut i: usize = 0;
    while i < advisory_symbols.len()
        invariant
            i <= advisory_symbols.len(),
            string_views(syms@) =~= string_views(advisory_symbols@.take(i as int)),
        decreases advisory_symbols.len() - i,
    {
        let ghost before = syms@;
        let x = String::from_str(advisory_symbols[i].as_str());
        syms.push(x);
        assert(string_views(syms@) =~= string_views(before).push(x@));
        assert(advisory_symbols@.take(i + 1) =~= advisory_symbols@.take(i as int).push(advisory_symbols@[i as int]));
        i = i + 1;
    }
    assert(advisory_symbols@.take(advisory_symbols.len() as int) =~= advisory_symbols@);
    rec.advisory_symbols = syms;
    rec.evidence = evidence_to_db_locations(&result.evidence, scan_root);
    let usage = if result.evidence.len() > 0 {
        SYMBOL_USAGE_USED
    } else if result.decision == TierBDecision::NotReachable {
        SYMBOL_USAGE_NOT_FOUND
    } else {
        SYMBOL_USAGE_UNKNOWN
    };
    rec.symbol_usage = Some(String::from_str(usage));
}

/// Stores `d` under `k`, replacing the decision stored there; returns
/// whether the stored decisions changed.
pub fn cache_put(cache: &mut Vec<(String, TierBDecision)>, k: String, d: TierBDecision) -> (changed: bool)
    ensures
        cache_get(final(cache)@, k@) == Some(d),
        forall|k2: Seq<char>| k2 != k@ ==> #[trigger] cache_get(final(cache)@, k2) == cache_get(old(cache)@, k2),
        changed == (cache_get(old(cache)@, k@) != Some(d)),
        !changed ==> final(cache)@ == old(cache)@,
{
    let ghost orig = cache@;
    let mut i: usize = 0;
    assert(cache@.skip(0) =~= cache@);
    while i < cache.len()
        invariant
            i <= cache.len(),
            cache@ == orig,
            orig == old(cache)@,
            cache_get(orig.skip(i as int), k@) == cache_get(orig, k@),
            forall|m: int| 0 <= m < i ==> (#[trigger] orig[m]).0@ != k@,
        decreases cache.len() - i,
    {
        assert(orig.skip(i as int).drop_first() =~= orig.skip(i + 1));
        if str_eq(cache[i].0.as_str(), k.as_str()) {
            let old_d = cache[i].1;
            assert(orig.skip(i as int)[0] == orig[i as int]);
            assert(cache_get(orig, k@) == Some(old_d));
            if old_d == d {
                return false;
            }
            let key_copy = kv_string(&cache[i].0);
            cache.set(i, (key_copy, d));
            proof {
                assert forall|k2: Seq<char>| #[trigger] cache_get(cache@, k2) == if k2 == k@ {
                    Some(d)
                } else {
                    cache_get(orig, k2)
                } by {
                    lemma_cache_get_update(orig, i as int, cache@[i as int], k2);
                    assert(cache@ == orig.update(i as int, cache@[i as int]));
                }
            }
            return true;
        }
        i = i + 1;
    }
    proof {
        lemma_cache_get_absent(orig, k@);
    }
    let ghost kk = k@;
    cache.push((k, d));
    proof {
        assert forall|k2: Seq<char>| k2 != kk implies #[trigger] cache_get(cache@, k2) == cache_get(orig, k2) by {
            lemma_cache_get_push(orig, (cache@.last().0, d), k2);
            assert(cache@ == orig.push(cache@.last()));
        }
        lemma_cache_get_push(orig, cache@.last(), kk);
        assert(cache@ == orig.push(cache@.last()));
    }
    true
}

fn kv_string(s: &String) -> (r: String)
    ensures
        r@ == s@,
{
    String::from_str(s.as_str())
}

proof fn lemma_cache_get_absent(cache: Seq<(String, TierBDecision)>, k: Seq<char>)
    requires
        forall|m: int| 0 <= m < cache.len() ==> (#[trigger] cache[m]).0@ != k,
    ensures
        cache_get(cache, k) is None,
    decreases cache.len(),
{
    if cache.len() > 0 {
        assert(cache[0].0@ != k);
        assert forall|m: int| 0 <= m < cache.drop_first().len() implies (#[trigger] cache.drop_first()[m]).0@ != k by {
            assert(cache.drop_first()[m] == cache[m + 1]);
        }
        lemma_cache_get_absent(cache.drop_first(), k);
    }
}

/// Replacing the value of the first entry for a key.
proof fn lemma_cache_get_update(cache: Seq<(String, TierBDecision)>, i: int, e: (String, TierBDecision), k2: Seq<char>)
    requires
        0 <= i < cache.len(),
        e.0@ == cache[i].0@,
        forall|m: int| 0 <= m < i ==> (#[trigger] cache[m]).0@ != cache[i].0@,
    ensures
        cache_get(cache.update(i, e), k2) == if k2 == cache[i].0@ {
            Some(e.1)
        } else {
            cache_get(cache, k2)
        },
    decreases i,
{
    let c2 = cache.update(i, e);
    if i == 0 {
        assert(c2.drop_first() =~= cache.drop_first());
    } else {
        assert(cache[0].0@ != cache[i].0@);
        assert forall|m: int| 0 <= m < i - 1 implies (#[trigger] cache.drop_first()[m]).0@ != cache.drop_first()[i - 1].0@ by {
            assert(cache.drop_first()[m] == cache[m + 1]);
        }
        lemma_cache_get_update(cache.drop_first(), i - 1, e, k2);
        assert(c2.drop_first() =~= cache.drop_first().update(i - 1, e));
    }
}

/// The advisory data given for CVE `j` of a finding.
pub open spec fn row_advisory(row: Option<Seq<Option<(AdvisorySymbols, String)>>>, j: int) -> Option<(AdvisorySymbols, String)> {
    match row {
        Some(r) => if 0 <= j < r.len() {
            r[j]
        } else {
            None
        },
        None => None,
    }
}

/// The advisory row of finding `i`.
pub open spec fn advisory_row(advs: Seq<Vec<Option<(AdvisorySymbols, String)>>>, i: int) -> Option<Seq<Option<(AdvisorySymbols, String)>>> {
    if 0 <= i < advs.len() {
        Some(advs[i]@)
    } else {
        None
    }
}

/// The usable advisory symbols of a CVE: its sanitized symbols, when the
/// advisory carries symbol data and some symbol survives sanitizing.
pub open spec fn usable_symbols(a: Option<(AdvisorySymbols, String)>) -> Option<Seq<Seq<char>>> {
    match a {
        Some((adv, _)) => {
            let s = sanitized_symbols(string_views(adv.symbols@));
            if adv.has_symbol_data && s.len() > 0 {
                Some(s)
            } else {
                None
            }
        },
        None => None,
    }
}

/// The reachability after a symbol-level decision: set when reachable or
/// not, else `prev`.
pub open spec fn decided_reach(d: TierBDecision, prev: Option<bool>) -> Option<bool> {
    match d {
        TierBDecision::Reachable => Some(true),
        TierBDecision::NotReachable => Some(false),
        TierBDecision::Unknown => prev,
    }
}

/// Persisted Tier C key of a CVE of a package.
pub open spec fn tier_c_key(
    id: Seq<char>,
    p: PackageView,
    fingerprint: Seq<char>,
    c: Option<PackageContext>,
    stamps: Seq<(String, String)>,
) -> Seq<char> {
    "v"@ + PERSISTED_REACHABILITY_CACHE_VERSION@ + "|tier-c|"@ + id + "|"@ + decision_key_spec(p, ctx_view(c), stamps)
        + "|"@ + fingerprint
}

/// The symbol-level update of one record: unchanged without usable
/// symbols (or, for Tier D, when already decided); otherwise the symbols,
/// evidence and usage of a result that the analyzers give for the package
/// in its context and those symbols (`symbol_result_spec`), and
/// reachability from that result.
pub open spec fn symbol_step<A: ReachabilityAnalyzer>(
    r0: CveRecord,
    r1: CveRecord,
    adv: Option<(AdvisorySymbols, String)>,
    package: PackageView,
    ctx: Option<PackageContext>,
    analyzers: Seq<A>,
    root: Seq<char>,
    excl: Seq<Seq<char>>,
    tier_d: bool,
) -> bool {
    if usable_symbols(adv) is None || (tier_d && r0.reachable is Some) {
        r1 == r0
    } else {
        exists|res: TierCResult|
            symbol_applied(r0, r1, usable_symbols(adv).unwrap(), res, root, decided_reach(res.decision, r0.reachable))
                && symbol_result_spec(res, root, excl, package, ctx, analyzers, usable_symbols(adv).unwrap(), tier_d)
    }
}

/// A record was given a symbol-level result (and, for Tier C, a persisted
/// decision).
pub open spec fn symbol_applies(r0: CveRecord, adv: Option<(AdvisorySymbols, String)>, tier_d: bool) -> bool {
    usable_symbols(adv) is Some && !(tier_d && r0.reachable is Some)
}

/// `d` was stored under `kk` for one of the first `upto` records of a
/// package: the decision of a result that fits the analyzers for the
/// package, its context and that record's usable symbols.
pub open spec fn stored_by_record<A: ReachabilityAnalyzer>(
    d: TierBDecision,
    kk: Seq<char>,
    recs: Seq<CveRecord>,
    row: Option<Seq<Option<(AdvisorySymbols, String)>>>,
    package: PackageView,
    ctx: Option<PackageContext>,
    analyzers: Seq<A>,
    root: Seq<char>,
    excl: Seq<Seq<char>>,
    stamps: Seq<(String, String)>,
    upto: int,
) -> bool {
    exists|k: int|
        #![trigger recs[k]]
        0 <= k < upto && k < recs.len() && symbol_applies(recs[k], row_advisory(row, k), false) && tier_c_key(
            recs[k].id@,
            package,
            row_advisory(row, k).unwrap().1@,
            ctx,
            stamps,
        ) == kk && exists|res: TierCResult|
            res.decision == d && #[trigger] symbol_result_spec(
                res,
                root,
                excl,
                package,
                ctx,
                analyzers,
                usable_symbols(row_advisory(row, k)).unwrap(),
                false,
            )
}

fn advisory_entry<'a>(row: Option<&'a Vec<Option<(AdvisorySymbols, String)>>>, j: usize) -> (r: Option<&'a (AdvisorySymbols, String)>)
    ensures
        match row_advisory(
            match row {
                Some(x) => Some(x@),
                None => None,
            },
            j as int,
        ) {
            Some(a) => r matches Some(x) && *x == a,
            None => r is None,
        },
{
    match row {
        Some(v) => if j < v.len() {
            match &v[j] {
                Some(a) => Some(a),
                None => None,
            }
        } else {
            None
        },
        None => None,
    }
}

/// Apply Tier C (or Tier D) to the CVE records of one package.
fn apply_symbols_to_records<A: ReachabilityAnalyzer>(
    scan_root: &str,
    exclude_dir_names: &[String],
    package: &Package,
    ctx: Option<&PackageContext>,
    recs: &mut Vec<CveRecord>,
    analyzers: &[A],
    row: Option<&Vec<Option<(AdvisorySymbols, String)>>>,
    manifest_stamps: &[(String, String)],
    persisted: &mut Option<Vec<(String, TierBDecision)>>,
    tier_d: bool,
) -> (dirty: bool)
    requires
        tier_d ==> *old(persisted) is None,
    ensures
        final(recs)@.len() == old(recs)@.len(),
        forall|j: int|
            0 <= j < old(recs)@.len() ==> symbol_step(
                #[trigger] old(recs)@[j],
                final(recs)@[j],
                row_advisory(
                    match row {
                        Some(x) => Some(x@),
                        None => None,
                    },
                    j,
                ),
                package@,
                owned_context(ctx),
                analyzers@,
                scan_root@, string_views(exclude_dir_names@),
                tier_d,
            ),
        *old(persisted) is None ==> *final(persisted) is None && !dirty,
        *old(persisted) is Some ==> *final(persisted) is Some && (!dirty ==> (*final(persisted)).unwrap()@ == (
        *old(persisted)).unwrap()@) && (forall|k2: Seq<char>|
            cache_get((*old(persisted)).unwrap()@, k2) is Some ==> #[trigger] cache_get(
                (*final(persisted)).unwrap()@,
                k2,
            ) is Some) && (forall|j: int|
            0 <= j < old(recs)@.len() && symbol_applies(
                #[trigger] old(recs)@[j],
                row_advisory(
                    match row {
                        Some(x) => Some(x@),
                        None => None,
                    },
                    j,
                ),
                tier_d,
            ) ==> cache_get(
                (*final(persisted)).unwrap()@,
                tier_c_key(
                    old(recs)@[j].id@,
                    package@,
                    row_advisory(
                        match row {
                            Some(x) => Some(x@),
                            None => None,
                        },
                        j,
                    ).unwrap().1@,
                    match ctx {
                        Some(c) => Some(*c),
                        None => None,
                    },
                    manifest_stamps@,
                ),
            ) is Some) && (forall|kk: Seq<char>|
            #[trigger] cache_get((*final(persisted)).unwrap()@, kk) is Some ==> cache_get(
                (*old(persisted)).unwrap()@,
                kk,
            ) == cache_get((*final(persisted)).unwrap()@, kk) || stored_by_record(
                cache_get((*final(persisted)).unwrap()@, kk).unwrap(),
                kk,
                old(recs)@,
                match row {
                    Some(x) => Some(x@),
                    None => None,
                },
                package@,
                owned_context(ctx),
                analyzers@, scan_root@, string_views(exclude_dir_names@),
                manifest_stamps@,
                old(recs)@.len() as int,
            )),
{
    let ghost r0 = recs@;
    let ghost rowv = match row {
        Some(x) => Some(x@),
        None => None,
    };
    let ghost cv = match ctx {
        Some(c) => Some(*c),
        None => None,
    };
    let ghost p0 = *persisted;
    let mut dirty = false;
    let mut j: usize = 0;
    while j < recs.len()
        invariant
            j <= recs.len(),
            recs@.len() == r0.len(),
            r0 == old(recs)@,
            p0 == *old(persisted),
            tier_d ==> p0 is None,
            rowv == match row {
                Some(x) => Some(x@),
                None => None,
            },
            cv == match ctx {
                Some(c) => Some(*c),
                None => None,
            },
            forall|k: int| j <= k < r0.len() ==> #[trigger] recs@[k] == r0[k],
            forall|k: int|
                0 <= k < j ==> symbol_step(
                    #[trigger] r0[k],
                    recs@[k],
                    row_advisory(rowv, k),
                    package@,
                    owned_context(ctx),
                    analyzers@,
                    scan_root@, string_views(exclude_dir_names@),
                    tier_d,
                ),
            p0 is None ==> *persisted is None && !dirty,
            p0 is Some ==> *persisted is Some && (!dirty ==> (*persisted).unwrap()@ == p0.unwrap()@) && (forall|k2: Seq<char>|
                cache_get(p0.unwrap()@, k2) is Some ==> #[trigger] cache_get((*persisted).unwrap()@, k2) is Some)
                && forall|k: int|
                0 <= k < j && symbol_applies(#[trigger] r0[k], row_advisory(rowv, k), tier_d) ==> cache_get(
                    (*persisted).unwrap()@,
                    tier_c_key(r0[k].id@, package@, row_advisory(rowv, k).unwrap().1@, cv, manifest_stamps@),
                ) is Some,
            p0 is Some ==> forall|kk: Seq<char>|
                #[trigger] cache_get((*persisted).unwrap()@, kk) is Some ==> cache_get(p0.unwrap()@, kk) == cache_get(
                    (*persisted).unwrap()@,
                    kk,
                ) || stored_by_record(
                    cache_get((*persisted).unwrap()@, kk).unwrap(),
                    kk,
                    r0,
                    rowv,
                    package@,
                    cv,
                    analyzers@, scan_root@, string_views(exclude_dir_names@),
                    manifest_stamps@,
                    j as int,
                ),
        decreases r0.len() - j,
    {
        let adv = advisory_entry(row, j);
        let ghost a = row_advisory(rowv, j as int);
        let skip_decided = tier_d && recs[j].reachable.is_some();
        match adv {
            None => {},
            Some(entry) => {
                if entry.0.has_symbol_data && !skip_decided {
                    let symbols = sanitize_advisory_symbols(entry.0.symbols.as_slice());
                    if symbols.len() > 0 {
                        let result = if tier_d {
                            choose_tier_d_result(
                                scan_root,
                                exclude_dir_names,
                                package,
                                ctx,
                                analyzers,
                                symbols.as_slice(),
                            )
                        } else {
                            choose_tier_c_result(
                                scan_root,
                                exclude_dir_names,
                                package,
                                ctx,
                                analyzers,
                                symbols.as_slice(),
                            )
                        };
                        match persisted {
                            Some(p) => {
                                let key = tier_c_persisted_cache_key(
                                    recs[j].id.as_str(),
                                    package,
                                    entry.1.as_str(),
                                    ctx,
                                    manifest_stamps,
                                );
                                let ghost before = p@;
                                let ghost kv = key@;
                                assert(kv == tier_c_key(r0[j as int].id@, package@, a.unwrap().1@, cv, manifest_stamps@));
                                if cache_put(p, key, result.decision) {
                                    dirty = true;
                                }
                                proof {
                                    assert forall|k2: Seq<char>| cache_get(p0.unwrap()@, k2) is Some implies #[trigger] cache_get(p@, k2) is Some by {
                                        if k2 != kv {
                                            assert(cache_get(p@, k2) == cache_get(before, k2));
                                        }
                                    }
                                    assert(cv == owned_context(ctx));
                                    assert(string_views(symbols@) == usable_symbols(a).unwrap());
                                    assert(symbol_result_spec(result, scan_root@, string_views(exclude_dir_names@), package@, cv, analyzers@, usable_symbols(a).unwrap(), false));
                                    assert(r0[j as int] == recs@[j as int]);
                                    assert(stored_by_record(result.decision, kv, r0, rowv, package@, cv, analyzers@, scan_root@, string_views(exclude_dir_names@), manifest_stamps@, j + 1));
                                    assert forall|kk: Seq<char>| #[trigger] cache_get(p@, kk) is Some implies cache_get(p0.unwrap()@, kk)
                                        == cache_get(p@, kk) || stored_by_record(
                                        cache_get(p@, kk).unwrap(),
                                        kk,
                                        r0,
                                        rowv,
                                        package@,
                                        cv,
                                        analyzers@, scan_root@, string_views(exclude_dir_names@),
                                        manifest_stamps@,
                                        j + 1,
                                    ) by {
                                        if kk != kv {
                                            assert(cache_get(p@, kk) == cache_get(before, kk));
                                        }
                                    }
                                    assert forall|k: int|
                                        0 <= k < j && symbol_applies(#[trigger] r0[k], row_advisory(rowv, k), tier_d) implies cache_get(
                                        p@,
                                        tier_c_key(r0[k].id@, package@, row_advisory(rowv, k).unwrap().1@, cv, manifest_stamps@),
                                    ) is Some by {
                                        let kk = tier_c_key(r0[k].id@, package@, row_advisory(rowv, k).unwrap().1@, cv, manifest_stamps@);
                                        if kk != kv {
                                            assert(cache_get(p@, kk) == cache_get(before, kk));
                                        }
                                    }
                                }
                            },
                            None => {},
                        }
                        let ghost rec0 = recs@[j as int];
                        apply_symbol_metadata(&mut recs[j], symbols.as_slice(), &result, scan_root);
                        if result.decision == TierBDecision::Reachable {
                            recs[j].reachable = Some(true);
                        } else if result.decision == TierBDecision::NotReachable {
                            recs[j].reachable = Some(false);
                        }
                        proof {
                            assert(symbol_applied(
                                rec0,
                                recs@[j as int],
                                usable_symbols(a).unwrap(),
                                result,
                                scan_root@,
                                decided_reach(result.decision, rec0.reachable),
                            ));
                        }
                    }
                }
            },
        }
        j = j + 1;
    }
    dirty
}

/// The advisory data given for CVE `j` of finding `i`.
pub open spec fn advisory_at(advs: Seq<Vec<Option<(AdvisorySymbols, String)>>>, i: int, j: int) -> Option<(AdvisorySymbols, String)> {
    row_advisory(advisory_row(advs, i), j)
}

/// Each record's symbol-level update, with the advisory data of its CVE.
pub open spec fn symbol_steps<A: ReachabilityAnalyzer>(
    f0: Seq<(Package, Vec<CveRecord>)>,
    f1: Seq<(Package, Vec<CveRecord>)>,
    advs: Seq<Vec<Option<(AdvisorySymbols, String)>>>,
    ctxs: Seq<(Package, PackageContext)>,
    analyzers: Seq<A>,
    root: Seq<char>,
    excl: Seq<Seq<char>>,
    tier_d: bool,
) -> bool {
    forall|i: int, j: int|
        0 <= i < f0.len() && 0 <= j < f0[i].1@.len() ==> symbol_step(
            #[trigger] f0[i].1@[j],
            f1[i].1@[j],
            advisory_at(advs, i, j),
            f0[i].0@,
            context_of(ctxs, f0[i].0@),
            analyzers,
            root, excl,
            tier_d,
        )
}

/// Findings of the same shape (same packages, as many records).
pub open spec fn same_shape(f0: Seq<(Package, Vec<CveRecord>)>, f1: Seq<(Package, Vec<CveRecord>)>) -> bool {
    &&& f1.len() == f0.len()
    &&& forall|i: int|
        #![trigger f1[i]]
        0 <= i < f0.len() ==> f1[i].0 == f0[i].0 && f1[i].1@.len() == f0[i].1@.len()
}

/// Every record given a Tier C result has a decision stored under its key.
pub open spec fn tier_c_stored(
    f0: Seq<(Package, Vec<CveRecord>)>,
    cache: Seq<(String, TierBDecision)>,
    advs: Seq<Vec<Option<(AdvisorySymbols, String)>>>,
    ctxs: Seq<(Package, PackageContext)>,
    stamps: Seq<(String, String)>,
) -> bool {
    forall|i: int, j: int|
        0 <= i < f0.len() && 0 <= j < f0[i].1@.len() && symbol_applies(
            #[trigger] f0[i].1@[j],
            advisory_at(advs, i, j),
            false,
        ) ==> cache_get(
            cache,
            tier_c_key(
                f0[i].1@[j].id@,
                f0[i].0@,
                advisory_at(advs, i, j).unwrap().1@,
                context_of(ctxs, f0[i].0@),
                stamps,
            ),
        ) is Some
}

/// `d` was stored under `kk` for a record of one of the first `upto`
/// findings (`stored_by_record`).
pub open spec fn stored_by_finding<A: ReachabilityAnalyzer>(
    d: TierBDecision,
    kk: Seq<char>,
    f0: Seq<(Package, Vec<CveRecord>)>,
    advs: Seq<Vec<Option<(AdvisorySymbols, String)>>>,
    ctxs: Seq<(Package, PackageContext)>,
    analyzers: Seq<A>,
    root: Seq<char>,
    excl: Seq<Seq<char>>,
    stamps: Seq<(String, String)>,
    upto: int,
) -> bool {
    exists|i: int|
        #![trigger f0[i]]
        0 <= i < upto && i < f0.len() && stored_by_record(
            d,
            kk,
            f0[i].1@,
            advisory_row(advs, i),
            f0[i].0@,
            context_of(ctxs, f0[i].0@),
            analyzers,
            root,
            excl,
            stamps,
            f0[i].1@.len() as int,
        )
}

/// Every decision stored in `p1` is the one stored by earlier runs (`p0`)
/// or was stored for a record of the findings (`stored_by_finding`).
pub open spec fn tier_c_stored_with_origin<A: ReachabilityAnalyzer>(
    p0: Seq<(String, TierBDecision)>,
    p1: Seq<(String, TierBDecision)>,
    f0: Seq<(Package, Vec<CveRecord>)>,
    advs: Seq<Vec<Option<(AdvisorySymbols, String)>>>,
    ctxs: Seq<(Package, PackageContext)>,
    analyzers: Seq<A>,
    root: Seq<char>,
    excl: Seq<Seq<char>>,
    stamps: Seq<(String, String)>,
) -> bool {
    forall|kk: Seq<char>|
        #[trigger] cache_get(p1, kk) is Some ==> cache_get(p0, kk) == cache_get(p1, kk) || stored_by_finding(
            cache_get(p1, kk).unwrap(),
            kk,
            f0,
            advs,
            ctxs,
            analyzers,
            root,
            excl,
            stamps,
            f0.len() as int,
        )
}

fn advisory_row_of<'a>(advisories: &'a Vec<Vec<Option<(AdvisorySymbols, String)>>>, i: usize) -> (r: Option<
    &'a Vec<Option<(AdvisorySymbols, String)>>,
>)
    ensures
        match r {
            Some(x) => advisory_row(advisories@, i as int) == Some(x@),
            None => advisory_row(advisories@, i as int) is None,
        },
{
    if i < advisories.len() {
        Some(&advisories[i])
    } else {
        None
    }
}

fn apply_symbols_to_findings<A: ReachabilityAnalyzer>(
    scan_root: &str,
    exclude_dir_names: &[String],
    findings: &mut Vec<(Package, Vec<CveRecord>)>,
    package_contexts: &[(Package, PackageContext)],
    analyzers: &[A],
    advisories: &Vec<Vec<Option<(AdvisorySymbols, String)>>>,
    manifest_stamps: &[(String, String)],
    persisted: &mut Option<Vec<(String, TierBDecision)>>,
    tier_d: bool,
) -> (dirty: bool)
    requires
        tier_d ==> *old(persisted) is None,
    ensures
        same_shape(old(findings)@, final(findings)@),
        symbol_steps(old(findings)@, final(findings)@, advisories@, package_contexts@, analyzers@, scan_root@, string_views(exclude_dir_names@), tier_d),
        *old(persisted) is None ==> *final(persisted) is None && !dirty,
        *old(persisted) is Some ==> *final(persisted) is Some && (!dirty ==> (*final(persisted)).unwrap()@ == (
        *old(persisted)).unwrap()@) && (!tier_d ==> tier_c_stored(
            old(findings)@,
            (*final(persisted)).unwrap()@,
            advisories@,
            package_contexts@,
            manifest_stamps@,
        )) && tier_c_stored_with_origin(
            (*old(persisted)).unwrap()@,
            (*final(persisted)).unwrap()@,
            old(findings)@,
            advisories@,
            package_contexts@,
            analyzers@, scan_root@, string_views(exclude_dir_names@),
            manifest_stamps@,
        ),
{
    let ghost f0 = findings@;
    let ghost p0 = *persisted;
    let mut dirty = false;
    let mut i: usize = 0;
    while i < findings.len()
        invariant
            i <= findings.len(),
            findings@.len() == f0.len(),
            f0 == old(findings)@,
            p0 == *old(persisted),
            tier_d ==> p0 is None,
            forall|k: int| i <= k < f0.len() ==> #[trigger] findings@[k] == f0[k],
            forall|k: int|
                #![trigger findings@[k]]
                0 <= k < i ==> findings@[k].0 == f0[k].0 && findings@[k].1@.len() == f0[k].1@.len(),
            forall|k: int, j: int|
                0 <= k < i && 0 <= j < f0[k].1@.len() ==> symbol_step(
                    #[trigger] f0[k].1@[j],
                    findings@[k].1@[j],
                    advisory_at(advisories@, k, j),
                    f0[k].0@,
                    context_of(package_contexts@, f0[k].0@),
                    analyzers@,
                    scan_root@, string_views(exclude_dir_names@),
                    tier_d,
                ),
            p0 is None ==> *persisted is None && !dirty,
            p0 is Some ==> *persisted is Some && (!dirty ==> (*persisted).unwrap()@ == p0.unwrap()@) && (!tier_d
                ==> forall|k: int, j: int|
                0 <= k < i && 0 <= j < f0[k].1@.len() && symbol_applies(
                    #[trigger] f0[k].1@[j],
                    advisory_at(advisories@, k, j),
                    false,
                ) ==> cache_get(
                    (*persisted).unwrap()@,
                    tier_c_key(
                        f0[k].1@[j].id@,
                        f0[k].0@,
                        advisory_at(advisories@, k, j).unwrap().1@,
                        context_of(package_contexts@, f0[k].0@),
                        manifest_stamps@,
                    ),
                ) is Some),
            p0 is Some ==> forall|kk: Seq<char>|
                #[trigger] cache_get((*persisted).unwrap()@, kk) is Some ==> cache_get(p0.unwrap()@, kk) == cache_get(
                    (*persisted).unwrap()@,
                    kk,
                ) || stored_by_finding(
                    cache_get((*persisted).unwrap()@, kk).unwrap(),
                    kk,
                    f0,
                    advisories@,
                    package_contexts@,
                    analyzers@, scan_root@, string_views(exclude_dir_names@),
                    manifest_stamps@,
                    i as int,
                ),
        decreases f0.len() - i,
    {
        assert(findings@[i as int] == f0[i as int]);
        let pkg = findings[i].0.duplicate();
        let ctx = context_for(package_contexts, &pkg);
        assert(owned_context(ctx) == context_of(package_contexts@, f0[i as int].0@));
        let row = advisory_row_of(advisories, i);
        let ghost pb = *persisted;
        let d = apply_symbols_to_records(
            scan_root,
            exclude_dir_names,
            &pkg,
            ctx,
            &mut findings[i].1,
            analyzers,
            row,
            manifest_stamps,
            persisted,
            tier_d,
        );
        if d {
            dirty = true;
        }
        proof {
            if p0 is Some {
                let rowv = match row {
                    Some(x) => Some(x@),
                    None => None,
                };
                assert(rowv == advisory_row(advisories@, i as int));
                let pa = (*persisted).unwrap()@;
                assert forall|kk: Seq<char>| #[trigger] cache_get(pa, kk) is Some implies cache_get(p0.unwrap()@, kk)
                    == cache_get(pa, kk) || stored_by_finding(
                    cache_get(pa, kk).unwrap(),
                    kk,
                    f0,
                    advisories@,
                    package_contexts@,
                    analyzers@, scan_root@, string_views(exclude_dir_names@),
                    manifest_stamps@,
                    i + 1,
                ) by {
                    if cache_get(pb.unwrap()@, kk) != cache_get(pa, kk) {
                        assert(stored_by_record(
                            cache_get(pa, kk).unwrap(),
                            kk,
                            f0[i as int].1@,
                            advisory_row(advisories@, i as int),
                            f0[i as int].0@,
                            context_of(package_contexts@, f0[i as int].0@),
                            analyzers@, scan_root@, string_views(exclude_dir_names@),
                            manifest_stamps@,
                            f0[i as int].1@.len() as int,
                        ));
                    }
                }
            }
        }
        i = i + 1;
    }
    dirty
}

/// Apply Tier C per CVE: a CVE whose advisory carries usable symbols gets
/// those symbols, the evidence and symbol usage of the analyzers' result,
/// and reachability from it (kept as it was when the result is unknown);
/// other CVEs are left as they are. `advisories[i][j]` holds the advisory
/// symbols and fingerprint of CVE `j` of finding `i`, when its advisory was
/// found. With `persisted`, each result's decision is stored under its key
/// (Tier C asks the analyzers on every run, so a stored decision is
/// replaced, never reused); returns whether the stored decisions changed.
pub fn apply_tier_c_to_findings<A: ReachabilityAnalyzer>(
    scan_root: &str,
    exclude_dir_names: &[String],
    findings: &mut Vec<(Package, Vec<CveRecord>)>,
    package_contexts: &[(Package, PackageContext)],
    analyzers: &[A],
    advisories: &Vec<Vec<Option<(AdvisorySymbols, String)>>>,
    manifest_stamps: &[(String, String)],
    persisted: &mut Option<Vec<(String, TierBDecision)>>,
) -> (dirty: bool)
    ensures
        same_shape(old(findings)@, final(findings)@),
        symbol_steps(old(findings)@, final(findings)@, advisories@, package_contexts@, analyzers@, scan_root@, string_views(exclude_dir_names@), false),
        *old(persisted) is None ==> *final(persisted) is None && !dirty,
        *old(persisted) is Some ==> *final(persisted) is Some && (!dirty ==> (*final(persisted)).unwrap()@ == (
        *old(persisted)).unwrap()@) && tier_c_stored(
            old(findings)@,
            (*final(persisted)).unwrap()@,
            advisories@,
            package_contexts@,
            manifest_stamps@,
        ) && tier_c_stored_with_origin(
            (*old(persisted)).unwrap()@,
            (*final(persisted)).unwrap()@,
            old(findings)@,
            advisories@,
            package_contexts@,
            analyzers@, scan_root@, string_views(exclude_dir_names@),
            manifest_stamps@,
        ),
{
    apply_symbols_to_findings(
        scan_root,
        exclude_dir_names,
        findings,
        package_contexts,
        analyzers,
        advisories,
        manifest_stamps,
        persisted,
        false,
    )
}

/// Refine Tier C unknowns with Tier D: a CVE not yet decided whose advisory
/// carries usable symbols gets the symbols, evidence and usage of the Tier D
/// result, and reachability when the result decides it; other CVEs are
/// left as they are.
pub fn apply_tier_d_to_findings<A: ReachabilityAnalyzer>(
    scan_root: &str,
    exclude_dir_names: &[String],
    findings: &mut Vec<(Package, Vec<CveRecord>)>,
    package_contexts: &[(Package, PackageContext)],
    analyzers: &[A],
    advisories: &Vec<Vec<Option<(AdvisorySymbols, String)>>>,
)
    ensures
        same_shape(old(findings)@, final(findings)@),
        symbol_steps(old(findings)@, final(findings)@, advisories@, package_contexts@, analyzers@, scan_root@, string_views(exclude_dir_names@), true),
{
    let mut none: Option<Vec<(String, TierBDecision)>> = None;
    let _ = apply_symbols_to_findings(
        scan_root,
        exclude_dir_names,
        findings,
        package_contexts,
        analyzers,
        advisories,
        &[],
        &mut none,
        true,
    );
}

/// The position of the advisory with id `cve_id` among raw advisories:
/// the first whose `id` member is that text.
pub fn vuln_for_cve_id(raw_vulns: &[JsonValue], cve_id: &str) -> (r: Option<usize>)
    ensures
        match r {
            Some(k) => k < raw_vulns@.len() && json_get_str(raw_vulns@[k as int], "id"@) == Some(cve_id@)
                && forall|m: int| 0 <= m < k ==> json_get_str(#[trigger] raw_vulns@[m], "id"@) != Some(cve_id@),
            None => forall|m: int| 0 <= m < raw_vulns@.len() ==> json_get_str(#[trigger] raw_vulns@[m], "id"@) != Some(cve_id@),
        },
{
    let mut i: usize = 0;
    while i < raw_vulns.len()
        invariant
            i <= raw_vulns.len(),
            forall|m: int| 0 <= m < i ==> json_get_str(#[trigger] raw_vulns@[m], "id"@) != Some(cve_id@),
        decreases raw_vulns.len() - i,
    {
        match raw_vulns[i].get_str("id") {
            Some(id) => {
                if str_eq(id, cve_id) {
                    return Some(i);
                }
            },
            None => {},
        }
        i = i + 1;
    }
    None
}

} // verus!
