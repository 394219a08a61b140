//! Tier B orchestration over the language analyzers, and the keys and
//! on-disk form of persisted reachability decisions.
use vstd::prelude::*;

use crate::matching::string_views;
use crate::model::{opt_seq, Package, PackageView};
use crate::matching::sanitize_advisory_symbols;
use crate::reach::{
    merge_tier_c_results, ReachabilityAnalyzer, TierBContext, TierBContextView, TierBDecision, TierCResult,
};
use crate::text::{ends_with, join_seqs, join_strings, str_eq};

verus! {

/// Languages and manifests that introduced a package.
#[derive(Debug, Clone)]
pub struct PackageContext {
    /// Languages of the manifests (each once).
    pub languages: Vec<String>,
    pub manifest_paths: Vec<String>,
}

impl Default for PackageContext {
    fn default() -> (r: Self)
        ensures
            r.languages@.len() == 0,
            r.manifest_paths@.len() == 0,
    {
        PackageContext { languages: Vec::new(), manifest_paths: Vec::new() }
    }
}

/// What the analyzers answered for the languages of a package: `None` where
/// no analyzer handles the language and ecosystem.
pub open spec fn combined_tier_b(outcomes: Seq<Option<TierBDecision>>) -> TierBDecision {
    if exists|i: int| 0 <= i < outcomes.len() && outcomes[i] == Some(TierBDecision::Reachable) {
        TierBDecision::Reachable
    } else if exists|i: int|
        0 <= i < outcomes.len() && (outcomes[i] is None || outcomes[i] == Some(
            TierBDecision::Unknown,
        )) {
        TierBDecision::Unknown
    } else if outcomes.len() > 0 {
        TierBDecision::NotReachable
    } else {
        TierBDecision::Unknown
    }
}

/// Combine per-language Tier B answers: reachable if any language is
/// reachable, unknown if any is unknown or unanalyzed, not reachable when all
/// languages are not reachable.
pub fn combine_tier_b_outcomes(outcomes: &[Option<TierBDecision>]) -> (r: TierBDecision)
    ensures
        r == combined_tier_b(outcomes@),
{
    let mut saw_unknown = false;
    let mut saw_not_reachable = false;
    let mut i: usize = 0;
    while i < outcomes.len()
        invariant
            i <= outcomes.len(),
            forall|k: int| 0 <= k < i ==> outcomes@[k] != Some(TierBDecision::Reachable),
            saw_unknown == exists|k: int|
                0 <= k < i && (outcomes@[k] is None || outcomes@[k] == Some(TierBDecision::Unknown)),
            saw_not_reachable == (i > 0 && !saw_unknown) || (saw_not_reachable && saw_unknown),
        decreases outcomes.len() - i,
    {
        match outcomes[i] {
            Some(TierBDecision::Reachable) => {
                return TierBDecision::Reachable;
            },
            Some(TierBDecision::NotReachable) => {
                saw_not_reachable = true;
            },
            _ => {
                saw_unknown = true;
            },
        }
        proof {
            if saw_unknown {
                if !(exists|k: int|
                    0 <= k < i && (outcomes@[k] is None || outcomes@[k] == Some(TierBDecision::Unknown))) {
                    assert(outcomes@[i as int] is None || outcomes@[i as int] == Some(TierBDecision::Unknown));
                }
            }
            if exists|k: int|
                0 <= k < i + 1 && (outcomes@[k] is None || outcomes@[k] == Some(TierBDecision::Unknown)) {
                let k = choose|k: int|
                    0 <= k < i + 1 && (outcomes@[k] is None || outcomes@[k] == Some(TierBDecision::Unknown));
                if k < i {
                    assert(exists|k2: int|
                        0 <= k2 < i && (outcomes@[k2] is None || outcomes@[k2] == Some(TierBDecision::Unknown)));
                }
            }
        }
        i = i + 1;
    }
    if saw_unknown {
        TierBDecision::Unknown
    } else if outcomes.len() > 0 {
        TierBDecision::NotReachable
    } else {
        TierBDecision::Unknown
    }
}

/// A language and ecosystem are handled by an analyzer of language
/// `name` and ecosystems `ecosystems`: the language is `name` and the
/// ecosystem is one of `ecosystems`.
pub open spec fn analyzer_handles(name: Seq<char>, ecosystems: Seq<&'static str>, language: Seq<char>, ecosystem: Seq<char>) -> bool {
    name == language && exists|i: int| 0 <= i < ecosystems.len() && (#[trigger] ecosystems[i])@ == ecosystem
}

fn handles(name: &str, ecosystems: &[&'static str], language: &str, ecosystem: &str) -> (r: bool)
    ensures
        r == analyzer_handles(name@, ecosystems@, language@, ecosystem@),
{
    if !str_eq(name, language) {
        return false;
    }
    let mut i: usize = 0;
    while i < ecosystems.len()
        invariant
            i <= ecosystems.len(),
            name@ == language@,
            forall|j: int| 0 <= j < i ==> (#[trigger] ecosystems@[j])@ != ecosystem@,
        decreases ecosystems.len() - i,
    {
        if str_eq(ecosystems[i], ecosystem) {
            assert(ecosystems@[i as int]@ == ecosystem@);
            return true;
        }
        i = i + 1;
    }
    false
}

/// The analyzer handles the language for the ecosystem.
pub open spec fn handled_by<A: ReachabilityAnalyzer>(a: A, language: Seq<char>, ecosystem: Seq<char>) -> bool {
    analyzer_handles(a.handled_language()@, a.handled_ecosystems()@, language, ecosystem)
}

/// Some analyzer handles the language for the ecosystem.
pub open spec fn language_handled<A: ReachabilityAnalyzer>(
    analyzers: Seq<A>,
    language: Seq<char>,
    ecosystem: Seq<char>,
) -> bool {
    exists|k: int| 0 <= k < analyzers.len() && handled_by(#[trigger] analyzers[k], language, ecosystem)
}

/// The analyzer at `k` is the first that handles the language and
/// ecosystem.
pub open spec fn first_handler<A: ReachabilityAnalyzer>(
    analyzers: Seq<A>,
    k: int,
    language: Seq<char>,
    ecosystem: Seq<char>,
) -> bool {
    &&& 0 <= k < analyzers.len()
    &&& handled_by(analyzers[k], language, ecosystem)
    &&& forall|m: int| 0 <= m < k ==> !handled_by(#[trigger] analyzers[m], language, ecosystem)
}

/// A context picture with its language replaced.
pub open spec fn with_language(base: TierBContextView, language: Seq<char>) -> TierBContextView {
    TierBContextView { language, ..base }
}

/// `d` is a Tier B answer that analyzer `a` can give for a context with
/// picture `cv` (what its `analyze_tier_b` ensures).
pub open spec fn tier_b_answered<A: ReachabilityAnalyzer>(a: A, cv: TierBContextView, d: TierBDecision) -> bool {
    exists|c: TierBContext| c@ == cv && #[trigger] call_ensures(A::analyze_tier_b, (&a, &c), d)
}

/// Per-language outcomes as the analyzers give them: for the languages in
/// order, no answer (`None`) where no analyzer handles the language and
/// ecosystem, else an answer of the first analyzer that does, asked in the
/// context `base` with that language. The outcomes stop early only after a
/// reachable answer.
pub open spec fn outcomes_fit<A: ReachabilityAnalyzer>(
    o: Seq<Option<TierBDecision>>,
    analyzers: Seq<A>,
    languages: Seq<String>,
    ecosystem: Seq<char>,
    base: TierBContextView,
) -> bool {
    &&& o.len() <= languages.len()
    &&& o.len() < languages.len() ==> o.len() > 0 && o.last() == Some(TierBDecision::Reachable)
    &&& forall|i: int|
        0 <= i < o.len() ==> ((#[trigger] o[i]) is None <==> !language_handled(analyzers, languages[i]@, ecosystem))
    &&& forall|i: int|
        0 <= i < o.len() && (#[trigger] o[i]) is Some ==> exists|k: int|
            first_handler(analyzers, k, languages[i]@, ecosystem) && tier_b_answered(
                analyzers[k],
                with_language(base, languages[i]@),
                o[i].unwrap(),
            )
}

/// `r` combines (`combined_tier_b`) outcomes as the analyzers give them.
pub open spec fn combines_fitting_outcomes<A: ReachabilityAnalyzer>(
    r: TierBDecision,
    analyzers: Seq<A>,
    languages: Seq<String>,
    ecosystem: Seq<char>,
    base: TierBContextView,
) -> bool {
    exists|o: Seq<Option<TierBDecision>>| outcomes_fit(o, analyzers, languages, ecosystem, base) && r == combined_tier_b(o)
}

/// A borrowed context as a value.
pub open spec fn owned_context(c: Option<&PackageContext>) -> Option<PackageContext> {
    match c {
        Some(x) => Some(*x),
        None => None,
    }
}

/// What a Tier B decision for a package in a context is: unknown without a
/// context, without languages or without an ecosystem; otherwise the
/// combination of the outcomes that the analyzers give for its languages,
/// each asked with the scan root, the excluded directory names, the
/// package, the language and the context's manifests.
pub open spec fn tier_b_spec<A: ReachabilityAnalyzer>(
    r: TierBDecision,
    scan_root: Seq<char>,
    exclude_dir_names: Seq<Seq<char>>,
    package: PackageView,
    context: Option<PackageContext>,
    analyzers: Seq<A>,
) -> bool {
    match (context, package.ecosystem) {
        (Some(c), Some(e)) => if c.languages@.len() > 0 {
            combines_fitting_outcomes(
                r,
                analyzers,
                c.languages@,
                e,
                TierBContextView {
                    scan_root,
                    exclude_dir_names,
                    package,
                    language: Seq::empty(),
                    manifest_paths: string_views(c.manifest_paths@),
                },
            )
        } else {
            r == TierBDecision::Unknown
        },
        _ => r == TierBDecision::Unknown,
    }
}

/// Tier B decision for a package (see `tier_b_spec`): for each language,
/// the first analyzer that handles it and the ecosystem answers (no answer
/// when none handles it), and the answers combine as `combined_tier_b` says
/// (the first reachable answer ends the search). Each answer is one that
/// the analyzer's `analyze_tier_b` can give for the context it is handed
/// (`tier_b_answered`).
pub fn choose_tier_b_decision<A: ReachabilityAnalyzer>(
    scan_root: &str,
    exclude_dir_names: &[String],
    package: &Package,
    context: Option<&PackageContext>,
    analyzers: &[A],
) -> (r: TierBDecision)
    ensures
        tier_b_spec(r, scan_root@, string_views(exclude_dir_names@), package@, owned_context(context), analyzers@),
{
    let ctx = match context {
        None => {
            return TierBDecision::Unknown;
        },
        Some(c) => c,
    };
    if ctx.languages.len() == 0 {
        return TierBDecision::Unknown;
    }
    let ecosystem = match &package.ecosystem {
        None => {
            return TierBDecision::Unknown;
        },
        Some(e) => e.as_str(),
    };
    let ghost base = TierBContextView {
        scan_root: scan_root@,
        exclude_dir_names: string_views(exclude_dir_names@),
        package: package@,
        language: Seq::empty(),
        manifest_paths: string_views(ctx.manifest_paths@),
    };
    let ghost langs = ctx.languages@;
    let mut outcomes: Vec<Option<TierBDecision>> = Vec::new();
    let mut i: usize = 0;
    while i < ctx.languages.len()
        invariant
            context == Some(ctx),
            langs == ctx.languages@,
            ctx.languages@.len() > 0,
            package.ecosystem matches Some(e) && e@ == ecosystem@,
            base == (TierBContextView {
                scan_root: scan_root@,
                exclude_dir_names: string_views(exclude_dir_names@),
                package: package@,
                language: Seq::empty(),
                manifest_paths: string_views(ctx.manifest_paths@),
            }),
            i <= ctx.languages.len(),
            outcomes@.len() == i,
            forall|j: int|
                0 <= j < i ==> ((#[trigger] outcomes@[j]) is None <==> !language_handled(
                    analyzers@,
                    langs[j]@,
                    ecosystem@,
                )),
            forall|j: int|
                0 <= j < i && (#[trigger] outcomes@[j]) is Some ==> exists|k: int|
                    first_handler(analyzers@, k, langs[j]@, ecosystem@) && tier_b_answered(
                        analyzers@[k],
                        with_language(base, langs[j]@),
                        outcomes@[j].unwrap(),
                    ),
            forall|j: int| 0 <= j < i ==> #[trigger] outcomes@[j] != Some(TierBDecision::Reachable),
        decreases ctx.languages.len() - i,
    {
        let language = ctx.languages[i].as_str();
        let mut found: Option<usize> = None;
        let mut k: usize = 0;
        while k < analyzers.len()
            invariant_except_break
                found is None,
            invariant
                k <= analyzers.len(),
                found matches Some(x) ==> first_handler(analyzers@, x as int, language@, ecosystem@),
                found is None ==> forall|m: int|
                    0 <= m < k ==> !handled_by(#[trigger] analyzers@[m], language@, ecosystem@),
            ensures
                found matches Some(x) ==> first_handler(analyzers@, x as int, language@, ecosystem@),
                found is None ==> forall|m: int|
                    0 <= m < analyzers.len() ==> !handled_by(#[trigger] analyzers@[m], language@, ecosystem@),
            decreases analyzers.len() - k,
        {
            if handles(analyzers[k].language_name(), analyzers[k].ecosystems(), language, ecosystem) {
                found = Some(k);
                break;
            }
            k = k + 1;
        }
        proof {
            assert(language@ == langs[i as int]@);
            if let Some(x) = found {
                assert(language_handled(analyzers@, language@, ecosystem@));
            }
        }
        let ghost before = outcomes@;
        match found {
            None => {
                outcomes.push(None);
            },
            Some(x) => {
                let tier_context = TierBContext {
                    scan_root,
                    exclude_dir_names,
                    package,
                    language,
                    manifest_paths: ctx.manifest_paths.as_slice(),
                };
                let d = analyzers[x].analyze_tier_b(&tier_context);
                proof {
                    assert(tier_context@ == with_language(base, langs[i as int]@));
                    assert(tier_b_answered(analyzers@[x as int], with_language(base, langs[i as int]@), d));
                }
                if d == TierBDecision::Reachable {
                    proof {
                        let o = before.push(Some(TierBDecision::Reachable));
                        assert forall|j: int| 0 <= j < o.len() implies ((#[trigger] o[j]) is None <==> !language_handled(
                            analyzers@,
                            langs[j]@,
                            ecosystem@,
                        )) by {
                            if j < i {
                                assert(o[j] == before[j]);
                            }
                        }
                        assert forall|j: int| 0 <= j < o.len() && (#[trigger] o[j]) is Some implies exists|kk: int|
                            first_handler(analyzers@, kk, langs[j]@, ecosystem@) && tier_b_answered(
                                analyzers@[kk],
                                with_language(base, langs[j]@),
                                o[j].unwrap(),
                            ) by {
                            if j < i {
                                assert(o[j] == before[j]);
                            } else {
                                assert(first_handler(analyzers@, x as int, langs[j]@, ecosystem@));
                            }
                        }
                        assert(o[i as int] == Some(TierBDecision::Reachable));
                        assert(outcomes_fit(o, analyzers@, langs, ecosystem@, base));
                        assert(combined_tier_b(o) == TierBDecision::Reachable);
                    }
                    return TierBDecision::Reachable;
                }
                outcomes.push(Some(d));
            },
        }
        proof {
            assert forall|j: int| 0 <= j < i + 1 implies ((#[trigger] outcomes@[j]) is None <==> !language_handled(
                analyzers@,
                langs[j]@,
                ecosystem@,
            )) by {
                if j < i {
                    assert(outcomes@[j] == before[j]);
                }
            }
            assert forall|j: int| 0 <= j < i + 1 && (#[trigger] outcomes@[j]) is Some implies exists|kk: int|
                first_handler(analyzers@, kk, langs[j]@, ecosystem@) && tier_b_answered(
                    analyzers@[kk],
                    with_language(base, langs[j]@),
                    outcomes@[j].unwrap(),
                ) by {
                if j < i {
                    assert(outcomes@[j] == before[j]);
                } else {
                    let x = found.unwrap();
                    assert(first_handler(analyzers@, x as int, langs[j]@, ecosystem@));
                }
            }
            assert forall|j: int| 0 <= j < i + 1 implies #[trigger] outcomes@[j] != Some(TierBDecision::Reachable) by {
                if j < i {
                    assert(outcomes@[j] == before[j]);
                }
            }
        }
        i = i + 1;
    }
    let r = combine_tier_b_outcomes(outcomes.as_slice());
    proof {
        assert(outcomes_fit(outcomes@, analyzers@, ctx.languages@, ecosystem@, base));
    }
    r
}

/// `b` is an answer that analyzer `a` can give when asked whether it does
/// the tier (Tier C, or Tier D when `tier_d`).
pub open spec fn support_answered<A: ReachabilityAnalyzer>(a: A, tier_d: bool, b: bool) -> bool {
    if tier_d {
        call_ensures(A::supports_tier_d, (&a,), b)
    } else {
        call_ensures(A::supports_tier_c, (&a,), b)
    }
}

/// `r` is a symbol-level answer that analyzer `a` can give for a context
/// with picture `cv` and advisory symbols `symbols` (what its
/// `analyze_tier_c`, or `analyze_tier_d` when `tier_d`, ensures).
pub open spec fn symbol_answered<A: ReachabilityAnalyzer>(
    a: A,
    cv: TierBContextView,
    symbols: Seq<Seq<char>>,
    r: TierCResult,
    tier_d: bool,
) -> bool {
    if tier_d {
        exists|c: TierBContext, s: &[String]|
            c@ == cv && string_views(s@) == symbols && #[trigger] call_ensures(A::analyze_tier_d, (&a, &c, s), r)
    } else {
        exists|c: TierBContext, s: &[String]|
            c@ == cv && string_views(s@) == symbols && #[trigger] call_ensures(A::analyze_tier_c, (&a, &c, s), r)
    }
}

/// The analyzer at `k` is the first that handles the language and
/// ecosystem and answers that it does the tier: each earlier analyzer that
/// handles them answered that it does not.
pub open spec fn first_symbol_analyzer<A: ReachabilityAnalyzer>(
    analyzers: Seq<A>,
    k: int,
    language: Seq<char>,
    ecosystem: Seq<char>,
    tier_d: bool,
) -> bool {
    &&& 0 <= k < analyzers.len()
    &&& handled_by(analyzers[k], language, ecosystem)
    &&& support_answered(analyzers[k], tier_d, true)
    &&& forall|m: int|
        0 <= m < k && handled_by(#[trigger] analyzers[m], language, ecosystem) ==> support_answered(
            analyzers[m],
            tier_d,
            false,
        )
}

/// Every analyzer that handles the language and ecosystem answered that it
/// does not do the tier.
pub open spec fn no_symbol_analyzer<A: ReachabilityAnalyzer>(
    analyzers: Seq<A>,
    language: Seq<char>,
    ecosystem: Seq<char>,
    tier_d: bool,
) -> bool {
    forall|m: int|
        0 <= m < analyzers.len() && handled_by(#[trigger] analyzers[m], language, ecosystem) ==> support_answered(
            analyzers[m],
            tier_d,
            false,
        )
}

/// The result for one language: the answer of the first analyzer that
/// handles it and does the tier, asked in the context `base` with that
/// language and the symbols; unknown without evidence when there is none.
pub open spec fn language_result<A: ReachabilityAnalyzer>(
    r: TierCResult,
    analyzers: Seq<A>,
    language: Seq<char>,
    ecosystem: Seq<char>,
    base: TierBContextView,
    symbols: Seq<Seq<char>>,
    tier_d: bool,
) -> bool {
    ||| exists|k: int|
        first_symbol_analyzer(analyzers, k, language, ecosystem, tier_d) && symbol_answered(
            analyzers[k],
            with_language(base, language),
            symbols,
            r,
            tier_d,
        )
    ||| no_symbol_analyzer(analyzers, language, ecosystem, tier_d) && r.decision == TierBDecision::Unknown
        && r.evidence@.len() == 0
}

/// Per-language symbol results as the analyzers give them, one per
/// language (`language_result`).
pub open spec fn symbol_results_fit<A: ReachabilityAnalyzer>(
    rs: Seq<TierCResult>,
    analyzers: Seq<A>,
    languages: Seq<Seq<char>>,
    ecosystem: Seq<char>,
    base: TierBContextView,
    symbols: Seq<Seq<char>>,
    tier_d: bool,
) -> bool {
    &&& rs.len() == languages.len()
    &&& forall|i: int|
        0 <= i < rs.len() ==> language_result(#[trigger] rs[i], analyzers, languages[i], ecosystem, base, symbols, tier_d)
}

/// `r` is the merge (`merge_tier_c_results`) of the per-language results
/// the analyzers give.
pub open spec fn merges_fitting_results<A: ReachabilityAnalyzer>(
    r: TierCResult,
    analyzers: Seq<A>,
    languages: Seq<Seq<char>>,
    ecosystem: Seq<char>,
    base: TierBContextView,
    symbols: Seq<Seq<char>>,
    tier_d: bool,
) -> bool {
    exists|rs: Seq<TierCResult>|
        symbol_results_fit(rs, analyzers, languages, ecosystem, base, symbols, tier_d) && r.decision
            == crate::reach::merged_decision(rs) && crate::reach::capped_evidence(
            crate::reach::all_evidence(rs),
            crate::reach::evidence_views(r.evidence@),
        )
}

/// The package can be analyzed at symbol level: a context with languages,
/// usable advisory symbols and an ecosystem.
pub open spec fn symbol_analysis_applies(
    package: PackageView,
    context: Option<PackageContext>,
    advisory_symbols: Seq<Seq<char>>,
) -> bool {
    context is Some && context.unwrap().languages@.len() > 0 && advisory_symbols.len() > 0
        && crate::matching::sanitized_symbols(advisory_symbols).len() > 0 && package.ecosystem is Some
}

/// What a symbol-level result (Tier C, or Tier D when `tier_d`) is: unknown
/// without evidence when the package cannot be analyzed; otherwise the
/// merge of one result per language, languages in sorted order, each
/// asked with the scan root, the excluded directory names, the package,
/// the language, the context's manifests and the sanitized advisory
/// symbols.
pub open spec fn symbol_result_spec<A: ReachabilityAnalyzer>(
    r: TierCResult,
    scan_root: Seq<char>,
    exclude_dir_names: Seq<Seq<char>>,
    package: PackageView,
    context: Option<PackageContext>,
    analyzers: Seq<A>,
    advisory_symbols: Seq<Seq<char>>,
    tier_d: bool,
) -> bool {
    if symbol_analysis_applies(package, context, advisory_symbols) {
        merges_fitting_results(
            r,
            analyzers,
            sorted_strings(string_views(context.unwrap().languages@), false),
            package.ecosystem.unwrap(),
            TierBContextView {
                scan_root,
                exclude_dir_names,
                package,
                language: Seq::empty(),
                manifest_paths: string_views(context.unwrap().manifest_paths@),
            },
            crate::matching::sanitized_symbols(advisory_symbols),
            tier_d,
        )
    } else {
        r.decision == TierBDecision::Unknown && r.evidence@.len() == 0
    }
}

/// Symbol-level result for a package (see `symbol_result_spec`): for each
/// language in sorted order, the first analyzer that does the tier (Tier C,
/// or Tier D when `tier_d`) and handles the language and ecosystem answers;
/// the answers are merged.
fn choose_symbol_result<A: ReachabilityAnalyzer>(
    scan_root: &str,
    exclude_dir_names: &[String],
    package: &Package,
    context: Option<&PackageContext>,
    analyzers: &[A],
    advisory_symbols: &[String],
    tier_d: bool,
) -> (r: TierCResult)
    ensures
        symbol_result_spec(
            r,
            scan_root@,
            string_views(exclude_dir_names@),
            package@,
            owned_context(context),
            analyzers@,
            string_views(advisory_symbols@),
            tier_d,
        ),
{
    let ctx = match context {
        None => {
            return TierCResult::unknown();
        },
        Some(c) => c,
    };
    if ctx.languages.len() == 0 || advisory_symbols.len() == 0 {
        return TierCResult::unknown();
    }
    let symbols = sanitize_advisory_symbols(advisory_symbols);
    if symbols.len() == 0 {
        return TierCResult::unknown();
    }
    let ecosystem = match &package.ecosystem {
        None => {
            return TierCResult::unknown();
        },
        Some(e) => e.as_str(),
    };
    let symbol_slice = symbols.as_slice();
    let ghost syms = string_views(symbols@);
    let ghost base = TierBContextView {
        scan_root: scan_root@,
        exclude_dir_names: string_views(exclude_dir_names@),
        package: package@,
        language: Seq::empty(),
        manifest_paths: string_views(ctx.manifest_paths@),
    };
    let languages = sort_strings(ctx.languages.as_slice(), false);
    let ghost sorted = string_views(languages@);
    let mut results: Vec<TierCResult> = Vec::new();
    let mut i: usize = 0;
    while i < languages.len()
        invariant
            i <= languages.len(),
            sorted == string_views(languages@),
            string_views(symbol_slice@) == syms,
            package.ecosystem matches Some(e) && e@ == ecosystem@,
            base == (TierBContextView {
                scan_root: scan_root@,
                exclude_dir_names: string_views(exclude_dir_names@),
                package: package@,
                language: Seq::empty(),
                manifest_paths: string_views(ctx.manifest_paths@),
            }),
            results@.len() == i,
            forall|j: int|
                0 <= j < i ==> language_result(#[trigger] results@[j], analyzers@, sorted[j], ecosystem@, base, syms, tier_d),
        decreases languages.len() - i,
    {
        let language = languages[i].as_str();
        let mut found: Option<usize> = None;
        let mut k: usize = 0;
        while k < analyzers.len()
            invariant_except_break
                found is None,
            invariant
                k <= analyzers.len(),
                found matches Some(x) ==> first_symbol_analyzer(analyzers@, x as int, language@, ecosystem@, tier_d),
                found is None ==> forall|m: int|
                    0 <= m < k && handled_by(#[trigger] analyzers@[m], language@, ecosystem@) ==> support_answered(
                        analyzers@[m],
                        tier_d,
                        false,
                    ),
            ensures
                found matches Some(x) ==> first_symbol_analyzer(analyzers@, x as int, language@, ecosystem@, tier_d),
                found is None ==> no_symbol_analyzer(analyzers@, language@, ecosystem@, tier_d),
            decreases analyzers.len() - k,
        {
            let supported = if tier_d {
                analyzers[k].supports_tier_d()
            } else {
                analyzers[k].supports_tier_c()
            };
            assert(support_answered(analyzers@[k as int], tier_d, supported));
            if supported && handles(analyzers[k].language_name(), analyzers[k].ecosystems(), language, ecosystem) {
                found = Some(k);
                break;
            }
            k = k + 1;
        }
        proof {
            assert(language@ == sorted[i as int]);
        }
        let ghost before = results@;
        match found {
            None => results.push(TierCResult::unknown()),
            Some(x) => {
                let tier_context = TierBContext {
                    scan_root,
                    exclude_dir_names,
                    package,
                    language,
                    manifest_paths: ctx.manifest_paths.as_slice(),
                };
                let res = if tier_d {
                    analyzers[x].analyze_tier_d(&tier_context, symbol_slice)
                } else {
                    analyzers[x].analyze_tier_c(&tier_context, symbol_slice)
                };
                proof {
                    assert(tier_context@ == with_language(base, sorted[i as int]));
                    assert(symbol_answered(analyzers@[x as int], with_language(base, sorted[i as int]), syms, res, tier_d));
                }
                results.push(res);
            },
        }
        proof {
            assert forall|j: int| 0 <= j < i + 1 implies language_result(
                #[trigger] results@[j],
                analyzers@,
                sorted[j],
                ecosystem@,
                base,
                syms,
                tier_d,
            ) by {
                if j < i {
                    assert(results@[j] == before[j]);
                }
            }
        }
        i = i + 1;
    }
    let ghost rs = results@;
    let r = merge_tier_c_results(results);
    proof {
        assert(symbol_results_fit(rs, analyzers@, sorted, ecosystem@, base, syms, tier_d));
        assert(sorted == sorted_strings(string_views(ctx.languages@), false));
    }
    r
}

/// Tier C result of a package for advisory symbols (see
/// `choose_symbol_result`).
pub fn choose_tier_c_result<A: ReachabilityAnalyzer>(
    scan_root: &str,
    exclude_dir_names: &[String],
    package: &Package,
    context: Option<&PackageContext>,
    analyzers: &[A],
    advisory_symbols: &[String],
) -> (r: TierCResult)
    ensures
        symbol_result_spec(
            r,
            scan_root@,
            string_views(exclude_dir_names@),
            package@,
            owned_context(context),
            analyzers@,
            string_views(advisory_symbols@),
            false,
        ),
{
    choose_symbol_result(scan_root, exclude_dir_names, package, context, analyzers, advisory_symbols, false)
}

/// Tier D result of a package for advisory symbols (see
/// `choose_symbol_result`).
pub fn choose_tier_d_result<A: ReachabilityAnalyzer>(
    scan_root: &str,
    exclude_dir_names: &[String],
    package: &Package,
    context: Option<&PackageContext>,
    analyzers: &[A],
    advisory_symbols: &[String],
) -> (r: TierCResult)
    ensures
        symbol_result_spec(
            r,
            scan_root@,
            string_views(exclude_dir_names@),
            package@,
            owned_context(context),
            analyzers@,
            string_views(advisory_symbols@),
            true,
        ),
{
    choose_symbol_result(scan_root, exclude_dir_names, package, context, analyzers, advisory_symbols, true)
}

/// On-disk form of a Tier B decision.
#[derive(Debug, Clone, Copy, PartialEq, Eq, Structural)]
pub enum TierBDecisionDisk {
    Reachable,
    NotReachable,
    Unknown,
}

/// The on-disk form of a decision.
pub open spec fn disk_of(d: TierBDecision) -> TierBDecisionDisk {
    match d {
        TierBDecision::Reachable => TierBDecisionDisk::Reachable,
        TierBDecision::NotReachable => TierBDecisionDisk::NotReachable,
        TierBDecision::Unknown => TierBDecisionDisk::Unknown,
    }
}

/// The decision an on-disk value stands for.
pub open spec fn decision_of(d: TierBDecisionDisk) -> TierBDecision {
    match d {
        TierBDecisionDisk::Reachable => TierBDecision::Reachable,
        TierBDecisionDisk::NotReachable => TierBDecision::NotReachable,
        TierBDecisionDisk::Unknown => TierBDecision::Unknown,
    }
}

impl From<TierBDecision> for TierBDecisionDisk {
    fn from(value: TierBDecision) -> (r: Self) {
        match value {
            TierBDecision::Reachable => TierBDecisionDisk::Reachable,
            TierBDecision::NotReachable => TierBDecisionDisk::NotReachable,
            TierBDecision::Unknown => TierBDecisionDisk::Unknown,
        }
    }
}

impl vstd::std_specs::convert::FromSpecImpl<TierBDecision> for TierBDecisionDisk {
    open spec fn obeys_from_spec() -> bool {
        true
    }

    open spec fn from_spec(value: TierBDecision) -> Self {
        disk_of(value)
    }
}

impl From<TierBDecisionDisk> for TierBDecision {
    fn from(value: TierBDecisionDisk) -> (r: Self) {
        match value {
            TierBDecisionDisk::Reachable => TierBDecision::Reachable,
            TierBDecisionDisk::NotReachable => TierBDecision::NotReachable,
            TierBDecisionDisk::Unknown => TierBDecision::Unknown,
        }
    }
}

impl vstd::std_specs::convert::FromSpecImpl<TierBDecisionDisk> for TierBDecision {
    open spec fn obeys_from_spec() -> bool {
        true
    }

    open spec fn from_spec(value: TierBDecisionDisk) -> Self {
        decision_of(value)
    }
}

/// Storing a decision and reading it back gives the same decision.
pub proof fn lemma_disk_round_trip(d: TierBDecision)
    ensures
        decision_of(disk_of(d)) == d,
{
}

/// `p.join(".vlz").join("reachability-cache.json")` for a `/`-separated
/// path: a separator is added unless the path is empty or ends with one.
pub open spec fn cache_path_of(root: Seq<char>) -> Seq<char> {
    root + (if root.len() == 0 || root.last() == '/' {
        Seq::empty()
    } else {
        seq!['/']
    }) + ".vlz/reachability-cache.json"@
}

/// Values of the persistence setting that switch the decision cache on.
pub open spec fn persist_flag_on(v: Seq<char>) -> bool {
    v == "1"@ || v == "true"@ || v == "TRUE"@ || v == "yes"@ || v == "YES"@
}

/// Whether the persistence setting (absent, or its text) enables the
/// persisted decision cache.
pub fn persistent_cache_flag(value: Option<&str>) -> (r: bool)
    ensures
        r == (value matches Some(v) && persist_flag_on(v@)),
{
    match value {
        Some(v) => str_eq(v, "1") || str_eq(v, "true") || str_eq(v, "TRUE") || str_eq(v, "yes") || str_eq(
            v,
            "YES",
        ),
        None => false,
    }
}

/// Location of the persisted decision cache under a scan root.
pub fn decision_cache_path(scan_root: &str) -> (r: String)
    ensures
        r@ == cache_path_of(scan_root@),
{
    proof {
        reveal_strlit("/");
    }
    let n = scan_root.unicode_len();
    let mut r = String::from_str(scan_root);
    if !(n == 0 || scan_root.get_char(n - 1) == '/') {
        r.append("/");
    }
    r.append(".vlz/reachability-cache.json");
    assert(r@ =~= cache_path_of(scan_root@));
    r
}

/// Bump when the shape of persisted reachability keys changes.
pub const PERSISTED_REACHABILITY_CACHE_VERSION: &'static str = "2";

/// The rank of a character in text order. In path order (`slash_first`)
/// `/` ranks below every character, so that paths compare component by
/// component (as `PathBuf`s do); otherwise characters rank by code point.
pub open spec fn char_rank(c: char, slash_first: bool) -> int {
    if slash_first && c == '/' {
        -1
    } else {
        (c as u32) as int
    }
}

/// `a` comes before `b` in text order (or path order, `slash_first`).
pub open spec fn ranked_lt(a: Seq<char>, b: Seq<char>, slash_first: bool) -> bool
    decreases a.len(),
{
    if a.len() == 0 {
        b.len() > 0
    } else if b.len() == 0 {
        false
    } else if char_rank(a[0], slash_first) < char_rank(b[0], slash_first) {
        true
    } else if a[0] == b[0] {
        ranked_lt(a.drop_first(), b.drop_first(), slash_first)
    } else {
        false
    }
}

proof fn lemma_ranked_lt_irreflexive(a: Seq<char>, sf: bool)
    ensures
        !ranked_lt(a, a, sf),
    decreases a.len(),
{
    if a.len() > 0 {
        lemma_ranked_lt_irreflexive(a.drop_first(), sf);
    }
}

proof fn lemma_ranked_lt_transitive(a: Seq<char>, b: Seq<char>, c: Seq<char>, sf: bool)
    requires
        ranked_lt(a, b, sf),
        ranked_lt(b, c, sf),
    ensures
        ranked_lt(a, c, sf),
    decreases a.len(),
{
    if a.len() > 0 && b.len() > 0 && c.len() > 0 {
        if a[0] == b[0] && b[0] == c[0] {
            lemma_ranked_lt_transitive(a.drop_first(), b.drop_first(), c.drop_first(), sf);
        }
    }
}

proof fn lemma_ranked_lt_total(a: Seq<char>, b: Seq<char>, sf: bool)
    ensures
        a == b || ranked_lt(a, b, sf) || ranked_lt(b, a, sf),
    decreases a.len(),
{
    if a.len() > 0 && b.len() > 0 && a[0] == b[0] {
        lemma_ranked_lt_total(a.drop_first(), b.drop_first(), sf);
        if a.drop_first() == b.drop_first() {
            assert(a =~= seq![a[0]] + a.drop_first());
            assert(b =~= seq![b[0]] + b.drop_first());
        }
    } else if a.len() == 0 && b.len() == 0 {
        assert(a =~= b);
    } else if a.len() > 0 && b.len() > 0 {
        lemma_char_rank_injective(a[0], b[0], sf);
    }
}

/// Distinct characters rank apart.
proof fn lemma_char_rank_injective(c: char, d: char, sf: bool)
    requires
        c != d,
    ensures
        char_rank(c, sf) != char_rank(d, sf),
{
    assert((c as u32) != (d as u32)) by {
        if (c as u32) == (d as u32) {
            assert(c == (c as u32) as char);
            assert(d == (d as u32) as char);
        }
    }
}

proof fn lemma_ranked_lt_asymmetric(a: Seq<char>, b: Seq<char>, sf: bool)
    requires
        ranked_lt(a, b, sf),
    ensures
        !ranked_lt(b, a, sf),
        a != b,
{
    if ranked_lt(b, a, sf) {
        lemma_ranked_lt_transitive(a, b, a, sf);
        lemma_ranked_lt_irreflexive(a, sf);
    }
    if a == b {
        lemma_ranked_lt_irreflexive(a, sf);
    }
}

/// Texts sharing their first `i` characters compare as what follows.
proof fn lemma_ranked_prefix(a: Seq<char>, b: Seq<char>, i: int, sf: bool)
    requires
        0 <= i <= a.len(),
        i <= b.len(),
        a.take(i) == b.take(i),
    ensures
        i < a.len() && i < b.len() && a[i] != b[i] ==> (ranked_lt(a, b, sf) <==> char_rank(a[i], sf) < char_rank(
            b[i],
            sf,
        )),
        i == a.len() && i < b.len() ==> ranked_lt(a, b, sf),
        i == b.len() ==> !ranked_lt(a, b, sf),
    decreases i,
{
    if i > 0 {
        assert(a[0] == a.take(i)[0]);
        assert(b[0] == b.take(i)[0]);
        assert(a.drop_first().take(i - 1) =~= a.take(i).drop_first());
        assert(b.drop_first().take(i - 1) =~= b.take(i).drop_first());
        lemma_ranked_prefix(a.drop_first(), b.drop_first(), i - 1, sf);
        if i < a.len() && i < b.len() {
            assert(a[i] == a.drop_first()[i - 1]);
            assert(b[i] == b.drop_first()[i - 1]);
        }
    }
}

/// Whether `a` comes before `b` in text order (or path order).
fn ranked_less(a: &str, b: &str, slash_first: bool) -> (r: bool)
    ensures
        r == ranked_lt(a@, b@, slash_first),
{
    let av = crate::text::chars_of(a);
    let bv = crate::text::chars_of(b);
    let mut i: usize = 0;
    while i < av.len() && i < bv.len() && av[i] == bv[i]
        invariant
            i <= av.len(),
            i <= bv.len(),
            av@ == a@,
            bv@ == b@,
            av@.take(i as int) == bv@.take(i as int),
        decreases av.len() - i,
    {
        assert(av@.take(i + 1) =~= av@.take(i as int).push(av@[i as int]));
        assert(bv@.take(i + 1) =~= bv@.take(i as int).push(bv@[i as int]));
        i = i + 1;
    }
    proof {
        lemma_ranked_prefix(a@, b@, i as int, slash_first);
    }
    if i < av.len() && i < bv.len() {
        let x = av[i];
        let y = bv[i];
        assert(x != y && x == a@[i as int] && y == b@[i as int]);
        proof {
            lemma_char_rank_injective(x, y, slash_first);
        }
        if slash_first && x == '/' {
            true
        } else if slash_first && y == '/' {
            false
        } else {
            (x as u32) < (y as u32)
        }
    } else {
        i < bv.len()
    }
}

/// Index at which `x` goes into the sorted `t`: the first element not
/// before `x`, from `i` on.
pub open spec fn first_not_less(t: Seq<Seq<char>>, x: Seq<char>, i: int, sf: bool) -> int
    decreases t.len() - i,
{
    if i < 0 || i >= t.len() {
        t.len() as int
    } else if ranked_lt(t[i], x, sf) {
        first_not_less(t, x, i + 1, sf)
    } else {
        i
    }
}

/// `s` sorted (stable insertion) in text order, or in path order when
/// `slash_first`.
pub open spec fn sorted_strings(s: Seq<Seq<char>>, slash_first: bool) -> Seq<Seq<char>>
    decreases s.len(),
{
    if s.len() == 0 {
        Seq::empty()
    } else {
        let t = sorted_strings(s.drop_last(), slash_first);
        t.insert(first_not_less(t, s.last(), 0, slash_first), s.last())
    }
}

proof fn lemma_first_not_less_split(t: Seq<Seq<char>>, x: Seq<char>, i: int, sf: bool)
    requires
        0 <= i <= t.len(),
    ensures
        i <= first_not_less(t, x, i, sf) <= t.len(),
        forall|j: int| i <= j < first_not_less(t, x, i, sf) ==> ranked_lt(#[trigger] t[j], x, sf),
        first_not_less(t, x, i, sf) < t.len() ==> !ranked_lt(t[first_not_less(t, x, i, sf)], x, sf),
    decreases t.len() - i,
{
    if i < t.len() && ranked_lt(t[i], x, sf) {
        lemma_first_not_less_split(t, x, i + 1, sf);
    }
}

proof fn lemma_sorted_strings_len(s: Seq<Seq<char>>, sf: bool)
    ensures
        sorted_strings(s, sf).len() == s.len(),
    decreases s.len(),
{
    if s.len() > 0 {
        lemma_sorted_strings_len(s.drop_last(), sf);
        lemma_first_not_less_split(sorted_strings(s.drop_last(), sf), s.last(), 0, sf);
    }
}

/// Text (or path) order with equality (`a <= b`).
pub open spec fn text_le(a: Seq<char>, b: Seq<char>, sf: bool) -> bool {
    a == b || ranked_lt(a, b, sf)
}

proof fn lemma_text_le_total_ordering(sf: bool)
    ensures
        vstd::relations::total_ordering(|a: Seq<char>, b: Seq<char>| text_le(a, b, sf)),
{
    let le = |a: Seq<char>, b: Seq<char>| text_le(a, b, sf);
    assert forall|x: Seq<char>, y: Seq<char>| #[trigger] le(x, y) && #[trigger] le(y, x) implies x == y by {
        if x != y {
            lemma_ranked_lt_asymmetric(x, y, sf);
        }
    }
    assert forall|x: Seq<char>, y: Seq<char>, z: Seq<char>| #[trigger] le(x, y) && #[trigger] le(y, z) implies le(
        x,
        z,
    ) by {
        if x != y && y != z {
            lemma_ranked_lt_transitive(x, y, z, sf);
        }
    }
    assert forall|x: Seq<char>, y: Seq<char>| #[trigger] le(x, y) || #[trigger] le(y, x) by {
        lemma_ranked_lt_total(x, y, sf);
    }
}

proof fn lemma_sorted_strings_sorted(s: Seq<Seq<char>>, sf: bool)
    ensures
        vstd::relations::sorted_by(sorted_strings(s, sf), |a: Seq<char>, b: Seq<char>| text_le(a, b, sf)),
        sorted_strings(s, sf).to_multiset() == s.to_multiset(),
    decreases s.len(),
{
    broadcast use vstd::seq_lib::group_to_multiset_ensures;

    let le = |a: Seq<char>, b: Seq<char>| text_le(a, b, sf);
    if s.len() == 0 {
        assert(s =~= Seq::<Seq<char>>::empty());
    } else {
        let t = sorted_strings(s.drop_last(), sf);
        let x = s.last();
        lemma_sorted_strings_sorted(s.drop_last(), sf);
        lemma_sorted_strings_len(s.drop_last(), sf);
        lemma_first_not_less_split(t, x, 0, sf);
        let k = first_not_less(t, x, 0, sf);
        let u = t.insert(k, x);
        assert(u == sorted_strings(s, sf));
        assert forall|i: int, j: int| 0 <= i < j < u.len() implies #[trigger] le(u[i], u[j]) by {
            if j < k {
                assert(u[i] == t[i] && u[j] == t[j]);
                assert(le(t[i], t[j]));
            } else if j == k {
                assert(u[i] == t[i]);
                assert(ranked_lt(t[i], x, sf));
            } else if i == k {
                assert(u[j] == t[j - 1]);
                if j - 1 == k {
                    lemma_ranked_lt_total(t[k], x, sf);
                } else {
                    assert(le(t[k], t[j - 1]));
                    lemma_ranked_lt_total(t[j - 1], x, sf);
                    if ranked_lt(t[j - 1], x, sf) {
                        if t[k] != t[j - 1] {
                            lemma_ranked_lt_transitive(t[k], t[j - 1], x, sf);
                        }
                    }
                    lemma_ranked_lt_total(t[k], x, sf);
                }
            } else if i < k {
                assert(u[i] == t[i] && u[j] == t[j - 1]);
                assert(le(t[i], t[j - 1]));
            } else {
                assert(u[i] == t[i - 1] && u[j] == t[j - 1]);
                assert(le(t[i - 1], t[j - 1]));
            }
        }
        vstd::seq_lib::to_multiset_insert(t, k, x);
        assert(s.drop_last().push(x) =~= s);
    }
}

/// Sorting depends only on which texts there are, with their counts: two
/// lists that are permutations of each other sort to the same list, in
/// text order and in path order.
pub proof fn lemma_sorted_strings_permutation(s1: Seq<Seq<char>>, s2: Seq<Seq<char>>, slash_first: bool)
    requires
        s1.to_multiset() == s2.to_multiset(),
    ensures
        sorted_strings(s1, slash_first) == sorted_strings(s2, slash_first),
{
    lemma_sorted_strings_sorted(s1, slash_first);
    lemma_sorted_strings_sorted(s2, slash_first);
    lemma_text_le_total_ordering(slash_first);
    vstd::seq_lib::lemma_sorted_unique(
        sorted_strings(s1, slash_first),
        sorted_strings(s2, slash_first),
        |a: Seq<char>, b: Seq<char>| text_le(a, b, slash_first),
    );
}

/// A copy of `v` sorted in text order, or in path order when
/// `slash_first`.
pub fn sort_strings(v: &[String], slash_first: bool) -> (r: Vec<String>)
    ensures
        string_views(r@) == sorted_strings(string_views(v@), slash_first),
{
    let ghost s = string_views(v@);
    let mut out: Vec<String> = Vec::new();
    let mut i: usize = 0;
    while i < v.len()
        invariant
            i <= v.len(),
            s == string_views(v@),
            string_views(out@) == sorted_strings(s.take(i as int), slash_first),
        decreases v.len() - i,
    {
        let ghost t = string_views(out@);
        let x = &v[i];
        let mut p: usize = 0;
        proof {
            lemma_sorted_strings_len(s.take(i as int), slash_first);
        }
        while p < out.len() && ranked_less(out[p].as_str(), x.as_str(), slash_first)
            invariant
                p <= out.len(),
                t == string_views(out@),
                first_not_less(t, x@, p as int, slash_first) == first_not_less(t, x@, 0, slash_first),
            decreases out.len() - p,
        {
            p = p + 1;
        }
        proof {
            if p < out.len() {
                assert(t[p as int] == out@[p as int]@);
            }
        }
        out.insert(p, String::from_str(x.as_str()));
        assert(s.take(i + 1).drop_last() =~= s.take(i as int));
        assert(s.take(i + 1).last() == x@);
        assert(string_views(out@) =~= t.insert(p as int, x@));
        i = i + 1;
    }
    assert(s.take(v.len() as int) =~= s);
    out
}

/// Stamp recorded for a manifest: the given one, else `0`.
pub open spec fn stamp_of(stamps: Seq<(String, String)>, path: Seq<char>) -> Seq<char>
    decreases stamps.len(),
{
    if stamps.len() == 0 {
        "0"@
    } else if stamps[0].0@ == path {
        stamps[0].1@
    } else {
        stamp_of(stamps.drop_first(), path)
    }
}

fn stamp_for(stamps: &[(String, String)], path: &str) -> (r: String)
    ensures
        r@ == stamp_of(stamps@, path@),
{
    let mut i: usize = 0;
    assert(stamps@.skip(0) =~= stamps@);
    while i < stamps.len()
        invariant
            i <= stamps.len(),
            stamp_of(stamps@.skip(i as int), path@) == stamp_of(stamps@, path@),
        decreases stamps.len() - i,
    {
        assert(stamps@.skip(i as int).drop_first() =~= stamps@.skip(i + 1));
        if str_eq(stamps[i].0.as_str(), path) {
            return String::from_str(stamps[i].1.as_str());
        }
        i = i + 1;
    }
    String::from_str("0")
}

/// Each manifest path followed by its stamp.
pub open spec fn manifest_parts(paths: Seq<Seq<char>>, stamps: Seq<(String, String)>) -> Seq<Seq<char>>
    decreases paths.len(),
{
    if paths.len() == 0 {
        Seq::empty()
    } else {
        manifest_parts(paths.drop_last(), stamps) + seq![paths.last(), stamp_of(stamps, paths.last())]
    }
}

/// Key of a package and its context: name, version, ecosystem, then the
/// sorted languages joined by `,` and each sorted manifest with its
/// modification stamp; all joined by `|`.
pub open spec fn decision_key_spec(
    pkg: PackageView,
    context: Option<(Seq<Seq<char>>, Seq<Seq<char>>)>,
    stamps: Seq<(String, String)>,
) -> Seq<char> {
    join_seqs(decision_parts(pkg, context, stamps), "|"@)
}

/// The parts of a decision key, before joining.
pub open spec fn decision_parts(
    pkg: PackageView,
    context: Option<(Seq<Seq<char>>, Seq<Seq<char>>)>,
    stamps: Seq<(String, String)>,
) -> Seq<Seq<char>> {
    let head = seq![
        pkg.name,
        pkg.version,
        match pkg.ecosystem {
            Some(e) => e,
            None => Seq::empty(),
        },
    ];
    match context {
        None => head,
        Some((langs, manifests)) => head + seq![join_seqs(sorted_strings(langs, false), ","@)]
            + manifest_parts(sorted_strings(manifests, true), stamps),
    }
}

/// The view of a context: its languages and manifests.
pub open spec fn context_view(c: Option<&PackageContext>) -> Option<(Seq<Seq<char>>, Seq<Seq<char>>)> {
    match c {
        Some(ctx) => Some((string_views(ctx.languages@), string_views(ctx.manifest_paths@))),
        None => None,
    }
}

fn push_view(v: &mut Vec<String>, s: String)
    ensures
        string_views(final(v)@) == string_views(old(v)@).push(s@),
{
    let ghost before = v@;
    let ghost sv = s@;
    v.push(s);
    assert(string_views(v@) =~= string_views(before).push(sv));
}

/// A decision key does not depend on the order in which a context lists
/// its languages or its manifests: contexts whose languages and manifests
/// are permutations of each other give the same key (and so the same Tier B
/// and Tier C persisted keys), for the same manifest stamps.
pub proof fn lemma_decision_key_ignores_order(
    pkg: PackageView,
    languages1: Seq<Seq<char>>,
    manifests1: Seq<Seq<char>>,
    languages2: Seq<Seq<char>>,
    manifests2: Seq<Seq<char>>,
    stamps: Seq<(String, String)>,
)
    requires
        languages1.to_multiset() == languages2.to_multiset(),
        manifests1.to_multiset() == manifests2.to_multiset(),
    ensures
        decision_key_spec(pkg, Some((languages1, manifests1)), stamps) == decision_key_spec(
            pkg,
            Some((languages2, manifests2)),
            stamps,
        ),
{
    lemma_sorted_strings_permutation(languages1, languages2, false);
    lemma_sorted_strings_permutation(manifests1, manifests2, true);
}

/// Key of a package and its context; `manifest_stamps` gives the
/// modification stamp (seconds) of each manifest that has one.
pub fn decision_cache_key(
    package: &Package,
    context: Option<&PackageContext>,
    manifest_stamps: &[(String, String)],
) -> (r: String)
    ensures
        r@ == decision_key_spec(package@, context_view(context), manifest_stamps@),
{
    let mut parts: Vec<String> = Vec::new();
    push_view(&mut parts, String::from_str(package.name.as_str()));
    push_view(&mut parts, String::from_str(package.version.as_str()));
    push_view(
        &mut parts,
        match &package.ecosystem {
            Some(e) => String::from_str(e.as_str()),
            None => String::new(),
        },
    );
    let ghost head = seq![
        package@.name,
        package@.version,
        match package@.ecosystem {
            Some(e) => e,
            None => Seq::empty(),
        },
    ];
    assert(string_views(parts@) =~= head);
    match context {
        None => {},
        Some(ctx) => {
            let langs = sort_strings(ctx.languages.as_slice(), false);
            push_view(&mut parts, join_strings(langs.as_slice(), ","));
            let manifests = sort_strings(ctx.manifest_paths.as_slice(), true);
            let ghost ms = string_views(manifests@);
            let ghost base = string_views(parts@);
            let mut i: usize = 0;
            while i < manifests.len()
                invariant
                    i <= manifests.len(),
                    ms == string_views(manifests@),
                    string_views(parts@) == base + manifest_parts(ms.take(i as int), manifest_stamps@),
                decreases manifests.len() - i,
            {
                let path = manifests[i].as_str();
                push_view(&mut parts, String::from_str(path));
                push_view(&mut parts, stamp_for(manifest_stamps, path));
                assert(ms.take(i + 1).drop_last() =~= ms.take(i as int));
                assert(ms.take(i + 1).last() == path@);
                assert(string_views(parts@) =~= base + manifest_parts(ms.take(i + 1), manifest_stamps@));
                i = i + 1;
            }
            assert(ms.take(manifests.len() as int) =~= ms);
            assert(string_views(parts@) =~= head + seq![join_seqs(sorted_strings(string_views(ctx.languages@), false), ","@)]
                + manifest_parts(sorted_strings(string_views(ctx.manifest_paths@), true), manifest_stamps@));
        },
    }
    assert(parts@.map_values(|s: String| s@) =~= string_views(parts@));
    assert(string_views(parts@) == (match context_view(context) {
        None => head,
        Some((l, m)) => head + seq![join_seqs(sorted_strings(l, false), ","@)] + manifest_parts(
            sorted_strings(m, true),
            manifest_stamps@,
        ),
    }));
    assert(string_views(parts@) == decision_parts(package@, context_view(context), manifest_stamps@));
    let r = join_strings(parts.as_slice(), "|");
    assert(r@ == join_seqs(string_views(parts@), "|"@));
    r
}

/// Persisted Tier B key (package level).
pub fn tier_b_persisted_cache_key(
    package: &Package,
    context: Option<&PackageContext>,
    manifest_stamps: &[(String, String)],
) -> (r: String)
    ensures
        r@ == "v"@ + PERSISTED_REACHABILITY_CACHE_VERSION@ + "|tier-b|"@ + decision_key_spec(
            package@,
            context_view(context),
            manifest_stamps@,
        ),
{
    let mut r = String::from_str("v");
    r.append(PERSISTED_REACHABILITY_CACHE_VERSION);
    r.append("|tier-b|");
    let key = decision_cache_key(package, context, manifest_stamps);
    r.append(key.as_str());
    r
}

/// Persisted Tier C key (per CVE and advisory fingerprint).
pub fn tier_c_persisted_cache_key(
    cve_id: &str,
    package: &Package,
    advisory_fingerprint: &str,
    context: Option<&PackageContext>,
    manifest_stamps: &[(String, String)],
) -> (r: String)
    ensures
        r@ == "v"@ + PERSISTED_REACHABILITY_CACHE_VERSION@ + "|tier-c|"@ + cve_id@ + "|"@
            + decision_key_spec(package@, context_view(context), manifest_stamps@) + "|"@
            + advisory_fingerprint@,
{
    let mut r = String::from_str("v");
    r.append(PERSISTED_REACHABILITY_CACHE_VERSION);
    r.append("|tier-c|");
    r.append(cve_id);
    r.append("|");
    let key = decision_cache_key(package, context, manifest_stamps);
    r.append(key.as_str());
    r.append("|");
    r.append(advisory_fingerprint);
    r
}

} // verus!
