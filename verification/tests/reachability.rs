use vlz_core::matching::{
    line_code_for_symbol_match, qualified_symbol_in_code, sanitize_advisory_symbols,
    scrub_c_style_comments, LineCommentStyle, MAX_ADVISORY_SYMBOLS,
};
use std::cell::Cell;
use vlz_core::annotate::{
    apply_tier_b_to_findings, apply_tier_c_to_findings, apply_tier_d_to_findings, AdvisorySymbols,
};
use vlz_core::model::{CveRecord, Package};
use vlz_core::reach::{
    cap_reachability_evidence, merge_tier_c_results, note_tier_b_file_read_attempt,
    push_reachability_evidence, reset_tier_b_counters, should_skip_dir, snapshot_tier_b_counters,
    ReachabilityAnalyzer, ReachabilityEvidence, TierBContext, TierBDecision, TierCDecision,
    TierCResult, MAX_REACHABILITY_EVIDENCE_PER_CVE,
};
use vlz_core::tiers::{
    choose_tier_b_decision, decision_cache_key, decision_cache_path, persistent_cache_flag,
    tier_b_persisted_cache_key,
    tier_c_persisted_cache_key, PackageContext, TierBDecisionDisk,
};

fn ev(path: &str, line: u32, symbol: &str) -> ReachabilityEvidence {
    ReachabilityEvidence {
        path: path.to_string(),
        start_line: line,
        end_line: None,
        symbol: symbol.to_string(),
    }
}

#[test]
fn sanitize_drops_empty_and_caps_count() {
    let input: Vec<String> = (0..100).map(|i| format!("sym{i}")).collect();
    let out = sanitize_advisory_symbols(&input);
    assert_eq!(out.len(), MAX_ADVISORY_SYMBOLS);
}

#[test]
fn sanitize_trims_drops_blank_oversized_and_repeated() {
    let long = "x".repeat(513);
    let input = vec![
        "  a.b  ".to_string(),
        "   ".to_string(),
        long,
        "a.b".to_string(),
        "c".to_string(),
    ];
    assert_eq!(sanitize_advisory_symbols(&input), vec!["a.b".to_string(), "c".to_string()]);
}

#[test]
fn qualified_symbol_rejects_substring() {
    let code = "not_my_pkg.submod.vuln_fn_extra()";
    assert!(!qualified_symbol_in_code(code, "pkg.submod.vuln_fn"));
}

#[test]
fn qualified_symbol_matches_bounded_and_member_access() {
    assert!(qualified_symbol_in_code("x = pkg.submod.vuln_fn(1)", "pkg.submod.vuln_fn"));
    assert!(qualified_symbol_in_code("client.vuln_fn(1)", "vuln_fn"));
    assert!(!qualified_symbol_in_code("client.vuln_fnx(1)", "vuln_fn"));
    assert!(!qualified_symbol_in_code("anything", ""));
}

#[test]
fn line_code_ignores_string_literal_but_keeps_line() {
    let code = line_code_for_symbol_match(
        "x = \"pkg.submod.vuln_fn\"  # pkg.submod.vuln_fn",
        LineCommentStyle::Hash,
    );
    assert!(!qualified_symbol_in_code(&code, "pkg.submod.vuln_fn"));
}

#[test]
fn line_code_strips_slash_comment_outside_quotes_only() {
    assert_eq!(
        line_code_for_symbol_match("call(\"//x\") // note", LineCommentStyle::SlashSlash),
        "call( )"
    );
}

#[test]
fn scrub_c_style_strips_line_and_block_comments() {
    let scrubbed = scrub_c_style_comments(
        "import a.B;\n// import hide.Me;\n/* import also.Hide; */\nimport c.D;\n",
    );
    assert!(scrubbed.contains("import a.B;"));
    assert!(scrubbed.contains("import c.D;"));
    assert!(!scrubbed.contains("hide.Me"));
    assert!(!scrubbed.contains("also.Hide"));
    assert_eq!(scrubbed.lines().count(), 4);
}

#[test]
fn scrub_c_style_keeps_comment_markers_inside_strings() {
    let scrubbed = scrub_c_style_comments(
        "String a = \"/*\";\nimport com.example.Keep;\nString b = \"*/\";\n",
    );
    assert!(scrubbed.contains("import com.example.Keep;"));
    assert!(scrubbed.contains("\"/*\""));
}

#[test]
fn scrub_c_style_line_comment_does_not_open_block() {
    let scrubbed = scrub_c_style_comments("// decoy /*\nimport com.example.Real;\n");
    assert!(scrubbed.contains("import com.example.Real;"));
    assert!(!scrubbed.contains("decoy"));
}

#[test]
fn scrub_keeps_length_and_newline_positions() {
    let source = "a /* x\ny */ b // z\n'c'";
    let scrubbed = scrub_c_style_comments(source);
    assert_eq!(scrubbed.chars().count(), source.chars().count());
    for (s, o) in source.chars().zip(scrubbed.chars()) {
        assert_eq!(s == '\n', o == '\n');
        assert!(o == s || o == ' ');
    }
    assert_eq!(scrubbed, "a     \n     b     \n'c'");
}

#[test]
fn cap_evidence_sorts_deterministically() {
    let mut evidence = vec![ev("b.rs", 2, "sym"), ev("a.rs", 1, "sym")];
    cap_reachability_evidence(&mut evidence);
    assert_eq!(evidence[0].path, "a.rs");
}

#[test]
fn cap_evidence_dedups_and_truncates() {
    let mut evidence: Vec<ReachabilityEvidence> = (0..15u32).rev().map(|i| ev("f.rs", i, "s")).collect();
    evidence.push(ev("f.rs", 3, "s"));
    cap_reachability_evidence(&mut evidence);
    assert_eq!(evidence.len(), MAX_REACHABILITY_EVIDENCE_PER_CVE);
    let lines: Vec<u32> = evidence.iter().map(|e| e.start_line).collect();
    assert_eq!(lines, (0..10u32).collect::<Vec<_>>());
}

#[test]
fn push_evidence_dedups_and_respects_cap() {
    let mut out = Vec::new();
    assert!(push_reachability_evidence(&mut out, "a.py".to_string(), 1, "f".to_string()));
    assert!(push_reachability_evidence(&mut out, "a.py".to_string(), 1, "f".to_string()));
    assert_eq!(out.len(), 1);
    for i in 2..=10u32 {
        assert!(push_reachability_evidence(&mut out, "a.py".to_string(), i, "f".to_string()));
    }
    assert_eq!(out.len(), MAX_REACHABILITY_EVIDENCE_PER_CVE);
    assert!(!push_reachability_evidence(&mut out, "b.py".to_string(), 1, "f".to_string()));
    assert_eq!(out.len(), MAX_REACHABILITY_EVIDENCE_PER_CVE);
}

#[test]
fn merge_tier_c_prefers_reachable_then_unknown() {
    let reachable = TierCResult {
        decision: TierBDecision::Reachable,
        evidence: vec![ev("b.py", 1, "f")],
    };
    let not_reachable = TierCResult::from_decision(TierBDecision::NotReachable);
    let unknown = TierCResult::unknown();
    let merged = merge_tier_c_results(vec![not_reachable.clone(), reachable, unknown.clone()]);
    assert_eq!(merged.decision, TierBDecision::Reachable);
    assert_eq!(merged.evidence.len(), 1);
    assert_eq!(
        merge_tier_c_results(vec![not_reachable.clone(), unknown]).decision,
        TierBDecision::Unknown
    );
    assert_eq!(merge_tier_c_results(vec![not_reachable]).decision, TierBDecision::NotReachable);
    assert_eq!(merge_tier_c_results(vec![]).decision, TierBDecision::Unknown);
}

#[test]
fn counters_are_noop_when_feature_disabled() {
    reset_tier_b_counters();
    note_tier_b_file_read_attempt(true);
    assert_eq!(snapshot_tier_b_counters(), (0, 0, 0, 0));
}

#[test]
fn tier_b_decision_as_option_bool() {
    assert_eq!(TierBDecision::Reachable.as_option_bool(), Some(true));
    assert_eq!(TierBDecision::NotReachable.as_option_bool(), Some(false));
    assert_eq!(TierBDecision::Unknown.as_option_bool(), None);
}

#[test]
fn should_skip_dir_matches_exclude_set() {
    let exclude = vec![".git".to_string()];
    assert!(should_skip_dir("/proj/.git", &exclude));
    assert!(!should_skip_dir("/proj/src", &exclude));
    assert!(!should_skip_dir("/", &exclude));
}

struct DefaultsOnlyAnalyzer;

impl ReachabilityAnalyzer for DefaultsOnlyAnalyzer {
    fn handled_language(&self) -> &'static str {
        self.language_name()
    }

    fn handled_ecosystems(&self) -> &'static [&'static str] {
        self.ecosystems()
    }

    fn language_name(&self) -> &'static str {
        "test"
    }

    fn ecosystems(&self) -> &'static [&'static str] {
        &["PyPI"]
    }

    fn analyze_tier_b(&self, _: &TierBContext<'_>) -> TierBDecision {
        TierBDecision::Unknown
    }
}

#[test]
fn default_tier_c_and_tier_d_trait_methods() {
    let analyzer = DefaultsOnlyAnalyzer;
    assert!(!analyzer.supports_tier_c());
    assert!(!analyzer.supports_tier_d());
    let pkg = Package {
        name: "pkg".to_string(),
        version: "1.0".to_string(),
        ecosystem: Some("PyPI".to_string()),
    };
    let exclude: Vec<String> = Vec::new();
    let ctx = TierBContext {
        scan_root: ".",
        exclude_dir_names: &exclude,
        package: &pkg,
        language: "python",
        manifest_paths: &[],
    };
    assert_eq!(analyzer.analyze_tier_c(&ctx, &["sym".to_string()]).decision, TierCDecision::Unknown);
    assert_eq!(analyzer.analyze_tier_d(&ctx, &["sym".to_string()]).decision, TierCDecision::Unknown);
    assert!(analyzer.analyze_tier_c(&ctx, &["sym".to_string()]).evidence.is_empty());
}

struct StubAnalyzer {
    language: &'static str,
    ecosystems: &'static [&'static str],
    decision: TierBDecision,
}

impl ReachabilityAnalyzer for StubAnalyzer {
    fn handled_language(&self) -> &'static str {
        self.language_name()
    }

    fn handled_ecosystems(&self) -> &'static [&'static str] {
        self.ecosystems()
    }

    fn language_name(&self) -> &'static str {
        self.language
    }

    fn ecosystems(&self) -> &'static [&'static str] {
        self.ecosystems
    }

    fn analyze_tier_b(&self, _: &TierBContext<'_>) -> TierBDecision {
        self.decision
    }
}

fn pkg(name: &str, ecosystem: Option<&str>) -> Package {
    Package {
        name: name.to_string(),
        version: "1.0.0".to_string(),
        ecosystem: ecosystem.map(str::to_string),
    }
}

#[test]
fn choose_tier_b_unknown_when_ecosystem_missing() {
    let none: [StubAnalyzer; 0] = [];
    let decision = choose_tier_b_decision(
        ".",
        &[],
        &pkg("serde", None),
        Some(&PackageContext {
            languages: vec!["rust".to_string()],
            manifest_paths: vec![],
        }),
        &none,
    );
    assert_eq!(decision, TierBDecision::Unknown);
}

#[test]
fn choose_tier_b_unknown_when_languages_empty() {
    let none: [StubAnalyzer; 0] = [];
    let decision = choose_tier_b_decision(
        ".",
        &[],
        &pkg("serde", Some("crates.io")),
        Some(&PackageContext::default()),
        &none,
    );
    assert_eq!(decision, TierBDecision::Unknown);
}

#[test]
fn choose_tier_b_not_reachable_when_all_languages_not_reachable() {
    let package = pkg("serde", Some("crates.io"));
    let decision = choose_tier_b_decision(
        ".",
        &[],
        &package,
        Some(&PackageContext {
            languages: vec!["rust".to_string()],
            manifest_paths: vec![],
        }),
        &[StubAnalyzer {
            language: "rust",
            ecosystems: &["crates.io"],
            decision: TierBDecision::NotReachable,
        }],
    );
    assert_eq!(decision, TierBDecision::NotReachable);
}

#[test]
fn choose_tier_b_reachable_short_circuits() {
    let package = pkg("serde", Some("crates.io"));
    let decision = choose_tier_b_decision(
        ".",
        &[],
        &package,
        Some(&PackageContext {
            languages: vec!["rust".to_string(), "python".to_string()],
            manifest_paths: vec![],
        }),
        &[StubAnalyzer {
            language: "rust",
            ecosystems: &["crates.io"],
            decision: TierBDecision::Reachable,
        }],
    );
    assert_eq!(decision, TierBDecision::Reachable);
}

#[test]
fn decision_cache_path_appends_vlz_file() {
    let path = decision_cache_path("/tmp/example");
    assert!(path.ends_with(".vlz/reachability-cache.json"));
    assert_eq!(path, "/tmp/example/.vlz/reachability-cache.json");
    assert_eq!(decision_cache_path("/tmp/example/"), "/tmp/example/.vlz/reachability-cache.json");
}

#[test]
fn tier_c_persisted_cache_key_differs_from_tier_b_for_same_package() {
    let package = pkg("http", Some("PyPI"));
    let context = PackageContext {
        languages: vec!["python".to_string()],
        manifest_paths: vec![],
    };
    let tier_b = tier_b_persisted_cache_key(&package, Some(&context), &[]);
    let tier_c = tier_c_persisted_cache_key("CVE-2024-1", &package, "safe_fn|other_fn", Some(&context), &[]);
    assert_ne!(tier_b, tier_c);
    assert!(tier_b.contains("|tier-b|"));
    assert!(tier_c.contains("|tier-c|"));
    assert!(tier_c.contains("CVE-2024-1"));
}

#[test]
fn persisted_key_sorts_languages_and_manifests_with_stamps() {
    let package = pkg("serde", Some("crates.io"));
    let context = PackageContext {
        languages: vec!["rust".to_string(), "python".to_string()],
        manifest_paths: vec!["b.toml".to_string(), "a.toml".to_string()],
    };
    let stamps = vec![("a.toml".to_string(), "17".to_string())];
    assert_eq!(
        tier_b_persisted_cache_key(&package, Some(&context), &stamps),
        "v2|tier-b|serde|1.0.0|crates.io|python,rust|a.toml|17|b.toml|0"
    );
    assert_eq!(tier_b_persisted_cache_key(&pkg("x", None), None, &[]), "v2|tier-b|x|1.0.0|");
}

#[test]
fn tier_b_decision_disk_roundtrip_all_variants() {
    for decision in [TierBDecision::Reachable, TierBDecision::NotReachable, TierBDecision::Unknown] {
        let disk: TierBDecisionDisk = decision.into();
        let back: TierBDecision = disk.into();
        assert_eq!(back, decision);
    }
}

fn record(id: &str, reachable: Option<bool>) -> CveRecord {
    CveRecord {
        id: id.to_string(),
        cvss_version: None,
        description: String::new(),
        reachable,
        advisory_symbols: Vec::new(),
        evidence: Vec::new(),
        symbol_usage: None,
        affected_ranges: Vec::new(),
    }
}

fn context(languages: &[&str]) -> PackageContext {
    PackageContext {
        languages: languages.iter().map(|l| l.to_string()).collect(),
        manifest_paths: vec![],
    }
}

fn advisory(symbols: &[&str], fingerprint: &str) -> Option<(AdvisorySymbols, String)> {
    Some((
        AdvisorySymbols {
            symbols: symbols.iter().map(|s| s.to_string()).collect(),
            has_symbol_data: true,
        },
        fingerprint.to_string(),
    ))
}

struct CountingAnalyzer<'a> {
    decision: TierBDecision,
    calls: &'a Cell<usize>,
}

impl ReachabilityAnalyzer for CountingAnalyzer<'_> {
    fn handled_language(&self) -> &'static str {
        self.language_name()
    }

    fn handled_ecosystems(&self) -> &'static [&'static str] {
        self.ecosystems()
    }

    fn language_name(&self) -> &'static str {
        "rust"
    }

    fn ecosystems(&self) -> &'static [&'static str] {
        &["crates.io"]
    }

    fn analyze_tier_b(&self, _: &TierBContext<'_>) -> TierBDecision {
        self.calls.set(self.calls.get() + 1);
        self.decision
    }
}

struct TierCAnalyzer {
    reachable_symbols: Vec<String>,
}

impl ReachabilityAnalyzer for TierCAnalyzer {
    fn handled_language(&self) -> &'static str {
        self.language_name()
    }

    fn handled_ecosystems(&self) -> &'static [&'static str] {
        self.ecosystems()
    }

    fn language_name(&self) -> &'static str {
        "python"
    }

    fn ecosystems(&self) -> &'static [&'static str] {
        &["PyPI"]
    }

    fn analyze_tier_b(&self, _: &TierBContext<'_>) -> TierBDecision {
        TierBDecision::Reachable
    }

    fn supports_tier_c(&self) -> bool {
        true
    }

    fn analyze_tier_c(&self, _: &TierBContext<'_>, advisory_symbols: &[String]) -> TierCResult {
        if advisory_symbols.iter().any(|s| self.reachable_symbols.contains(s)) {
            TierCResult::from_decision(TierCDecision::Reachable)
        } else {
            TierCResult::from_decision(TierCDecision::NotReachable)
        }
    }
}

struct TierCUnknownAnalyzer;

impl ReachabilityAnalyzer for TierCUnknownAnalyzer {
    fn handled_language(&self) -> &'static str {
        self.language_name()
    }

    fn handled_ecosystems(&self) -> &'static [&'static str] {
        self.ecosystems()
    }

    fn language_name(&self) -> &'static str {
        "python"
    }

    fn ecosystems(&self) -> &'static [&'static str] {
        &["PyPI"]
    }

    fn analyze_tier_b(&self, _: &TierBContext<'_>) -> TierBDecision {
        TierBDecision::Reachable
    }

    fn supports_tier_c(&self) -> bool {
        true
    }

    fn analyze_tier_c(&self, _: &TierBContext<'_>, _: &[String]) -> TierCResult {
        TierCResult::from_decision(TierCDecision::Unknown)
    }
}

struct TierDAnalyzer {
    reachable_symbols: Vec<String>,
}

impl ReachabilityAnalyzer for TierDAnalyzer {
    fn handled_language(&self) -> &'static str {
        self.language_name()
    }

    fn handled_ecosystems(&self) -> &'static [&'static str] {
        self.ecosystems()
    }

    fn language_name(&self) -> &'static str {
        "python"
    }

    fn ecosystems(&self) -> &'static [&'static str] {
        &["PyPI"]
    }

    fn analyze_tier_b(&self, _: &TierBContext<'_>) -> TierBDecision {
        TierBDecision::Unknown
    }

    fn supports_tier_c(&self) -> bool {
        true
    }

    fn analyze_tier_c(&self, _: &TierBContext<'_>, _: &[String]) -> TierCResult {
        TierCResult::from_decision(TierCDecision::Unknown)
    }

    fn supports_tier_d(&self) -> bool {
        true
    }

    fn analyze_tier_d(&self, _: &TierBContext<'_>, advisory_symbols: &[String]) -> TierCResult {
        if advisory_symbols.iter().any(|s| self.reachable_symbols.contains(s)) {
            TierCResult::from_decision(TierCDecision::Reachable)
        } else {
            TierCResult::from_decision(TierCDecision::NotReachable)
        }
    }
}

#[test]
fn apply_tier_b_unknown_without_context() {
    let package = pkg("serde", Some("crates.io"));
    let mut findings = vec![(package, vec![record("CVE-1", Some(true))])];
    let none: [StubAnalyzer; 0] = [];
    let mut persisted = None;
    let dirty = apply_tier_b_to_findings(".", &[], &mut findings, &[], &none, &[], &mut persisted);
    assert!(!dirty);
    assert_eq!(findings[0].1[0].reachable, None);
}

#[test]
fn apply_tier_b_reachable_when_language_analyzer_matches() {
    let package = pkg("serde", Some("crates.io"));
    let contexts = vec![(package.clone(), context(&["rust"]))];
    let analyzers = [StubAnalyzer {
        language: "rust",
        ecosystems: &["crates.io"],
        decision: TierBDecision::Reachable,
    }];
    let mut findings = vec![(package, vec![record("CVE-1", None)])];
    let mut persisted = None;
    apply_tier_b_to_findings(".", &[], &mut findings, &contexts, &analyzers, &[], &mut persisted);
    assert_eq!(findings[0].1[0].reachable, Some(true));
}

#[test]
fn apply_tier_b_unknown_when_any_language_is_unknown() {
    let package = pkg("serde", Some("crates.io"));
    let contexts = vec![(package.clone(), context(&["rust", "python"]))];
    let analyzers = [StubAnalyzer {
        language: "rust",
        ecosystems: &["crates.io"],
        decision: TierBDecision::NotReachable,
    }];
    let mut findings = vec![(package, vec![record("CVE-1", Some(false))])];
    let mut persisted = None;
    apply_tier_b_to_findings(".", &[], &mut findings, &contexts, &analyzers, &[], &mut persisted);
    assert_eq!(findings[0].1[0].reachable, None);
}

#[test]
fn apply_tier_b_memoizes_per_package_within_run() {
    let package = pkg("serde", Some("crates.io"));
    let calls = Cell::new(0);
    let contexts = vec![(package.clone(), context(&["rust"]))];
    let analyzers = [CountingAnalyzer {
        decision: TierBDecision::NotReachable,
        calls: &calls,
    }];
    let mut findings = vec![
        (package.clone(), vec![record("CVE-1", None)]),
        (package, vec![record("CVE-2", None)]),
    ];
    let mut persisted = None;
    apply_tier_b_to_findings(".", &[], &mut findings, &contexts, &analyzers, &[], &mut persisted);
    assert_eq!(calls.get(), 1);
    assert_eq!(findings[0].1[0].reachable, Some(false));
    assert_eq!(findings[1].1[0].reachable, Some(false));
}

#[test]
fn apply_tier_b_persists_decisions_when_enabled() {
    let package = pkg("serde", Some("crates.io"));
    let contexts = vec![(package.clone(), context(&["rust"]))];
    let analyzers = [StubAnalyzer {
        language: "rust",
        ecosystems: &["crates.io"],
        decision: TierBDecision::NotReachable,
    }];
    let mut findings = vec![(package.clone(), vec![record("CVE-P", None)])];
    let mut persisted = Some(Vec::new());
    let dirty = apply_tier_b_to_findings(".", &[], &mut findings, &contexts, &analyzers, &[], &mut persisted);
    assert!(dirty);
    let cache = persisted.clone().unwrap();
    assert!(!cache.is_empty());
    assert_eq!(cache[0].0, tier_b_persisted_cache_key(&package, Some(&contexts[0].1), &[]));
    assert_eq!(cache[0].1, TierBDecision::NotReachable);
    assert_eq!(findings[0].1[0].reachable, Some(false));
}

#[test]
fn apply_tier_b_reuses_persisted_decision() {
    let package = pkg("serde", Some("crates.io"));
    let calls = Cell::new(0);
    let contexts = vec![(package.clone(), context(&["rust"]))];
    let analyzers = [CountingAnalyzer {
        decision: TierBDecision::NotReachable,
        calls: &calls,
    }];
    let key = tier_b_persisted_cache_key(&package, Some(&contexts[0].1), &[]);
    let mut persisted = Some(vec![(key, TierBDecision::Reachable)]);
    let mut findings = vec![(package, vec![record("CVE-1", None)])];
    let dirty = apply_tier_b_to_findings(".", &[], &mut findings, &contexts, &analyzers, &[], &mut persisted);
    assert!(!dirty);
    assert_eq!(calls.get(), 0);
    assert_eq!(findings[0].1[0].reachable, Some(true));
}

#[test]
fn apply_tier_c_diverges_per_cve_on_same_package() {
    let package = pkg("http", Some("PyPI"));
    let contexts = vec![(package.clone(), context(&["python"]))];
    let analyzers = [TierCAnalyzer {
        reachable_symbols: vec!["safe_fn".to_string()],
    }];
    let mut findings = vec![(package, vec![record("CVE-A", Some(true)), record("CVE-B", Some(true))])];
    let advisories = vec![vec![advisory(&["safe_fn"], "safe_fn"), advisory(&["other_fn"], "other_fn")]];
    let mut persisted = None;
    apply_tier_c_to_findings(".", &[], &mut findings, &contexts, &analyzers, &advisories, &[], &mut persisted);
    assert_eq!(findings[0].1[0].reachable, Some(true));
    assert_eq!(findings[0].1[1].reachable, Some(false));
    assert_eq!(findings[0].1[1].symbol_usage.as_deref(), Some("not_found"));
    assert_eq!(findings[0].1[0].advisory_symbols, vec!["safe_fn".to_string()]);
}

#[test]
fn apply_tier_c_preserves_tier_b_when_no_symbol_data() {
    let package = pkg("requests", Some("PyPI"));
    let contexts = vec![(package.clone(), context(&["python"]))];
    let analyzers = [TierCAnalyzer {
        reachable_symbols: vec![],
    }];
    let mut findings = vec![(package, vec![record("CVE-NO-SYM", Some(true))])];
    let advisories = vec![vec![Some((
        AdvisorySymbols {
            symbols: vec![],
            has_symbol_data: false,
        },
        String::new(),
    ))]];
    let mut persisted = None;
    apply_tier_c_to_findings(".", &[], &mut findings, &contexts, &analyzers, &advisories, &[], &mut persisted);
    assert_eq!(
        findings[0].1[0].reachable,
        Some(true),
        "Tier B reachable must be kept when advisory has no symbol data"
    );
    assert_eq!(findings[0].1[0].symbol_usage, None);
}

#[test]
fn apply_tier_c_unknown_preserves_tier_b_when_set() {
    let package = pkg("http", Some("PyPI"));
    let contexts = vec![(package.clone(), context(&["python"]))];
    let analyzers = [TierCUnknownAnalyzer];
    let mut findings = vec![(package, vec![record("CVE-UNK", Some(true))])];
    let advisories = vec![vec![advisory(&["http.mod"], "http.mod")]];
    let mut persisted = None;
    apply_tier_c_to_findings(".", &[], &mut findings, &contexts, &analyzers, &advisories, &[], &mut persisted);
    assert_eq!(findings[0].1[0].reachable, Some(true));
    assert_eq!(findings[0].1[0].symbol_usage.as_deref(), Some("unknown"));
}

#[test]
fn apply_tier_c_persists_decisions_when_enabled() {
    let package = pkg("http", Some("PyPI"));
    let contexts = vec![(package.clone(), context(&["python"]))];
    let analyzers = [TierCAnalyzer {
        reachable_symbols: vec![],
    }];
    let mut findings = vec![(package, vec![record("CVE-C", None)])];
    let advisories = vec![vec![advisory(&["pkg.sub"], "pkg.sub")]];
    let mut persisted = Some(Vec::new());
    let dirty = apply_tier_c_to_findings(".", &[], &mut findings, &contexts, &analyzers, &advisories, &[], &mut persisted);
    assert!(dirty);
    assert_eq!(findings[0].1[0].reachable, Some(false));
    let again = apply_tier_c_to_findings(".", &[], &mut findings, &contexts, &analyzers, &advisories, &[], &mut persisted);
    assert!(!again, "an unchanged decision is not stored again");
    let cache = persisted.unwrap();
    assert!(cache.iter().any(|(k, _)| k.contains("|tier-c|")), "cache should contain Tier C key");
}

#[test]
fn apply_tier_d_refines_unknown_tier_c() {
    let package = pkg("http", Some("PyPI"));
    let contexts = vec![(package.clone(), context(&["python"]))];
    let analyzers = [TierDAnalyzer {
        reachable_symbols: vec!["deep_fn".to_string()],
    }];
    let mut findings = vec![(package, vec![record("CVE-D", None), record("CVE-SET", Some(false))])];
    let advisories = vec![vec![advisory(&["deep_fn"], "deep_fn"), advisory(&["deep_fn"], "deep_fn")]];
    apply_tier_d_to_findings(".", &[], &mut findings, &contexts, &analyzers, &advisories);
    assert_eq!(findings[0].1[0].reachable, Some(true));
    assert_eq!(findings[0].1[1].reachable, Some(false), "decided CVEs are left alone");
    assert_eq!(findings[0].1[1].symbol_usage, None);
}

#[test]
fn decision_cache_key_stable_for_sorted_context() {
    let package = pkg("serde", Some("crates.io"));
    let context = PackageContext {
        languages: vec!["python".to_string(), "rust".to_string()],
        manifest_paths: vec!["/tmp/ctx/b.toml".to_string(), "/tmp/ctx/a.toml".to_string()],
    };
    let stamps = vec![
        ("/tmp/ctx/b.toml".to_string(), "1700000001".to_string()),
        ("/tmp/ctx/a.toml".to_string(), "1700000000".to_string()),
    ];
    let key = decision_cache_key(&package, Some(&context), &stamps);
    assert!(key.contains("serde"));
    assert!(key.contains("1.0"));
    assert!(key.contains("crates.io"));
    assert!(key.contains("python,rust") || key.contains("rust,python"));
    assert!(key.contains("a.toml"));
    assert!(key.contains("b.toml"));
    assert_eq!(
        key,
        "serde|1.0.0|crates.io|python,rust|/tmp/ctx/a.toml|1700000000|/tmp/ctx/b.toml|1700000001"
    );
    assert_eq!(decision_cache_key(&package, None, &[]), "serde|1.0.0|crates.io");
}

#[test]
fn persistent_cache_enabled_recognizes_expected_values() {
    assert!(persistent_cache_flag(Some("true")));
    assert!(persistent_cache_flag(Some("1")));
    assert!(!persistent_cache_flag(Some("no")));
    assert!(persistent_cache_flag(Some("YES")));
    assert!(!persistent_cache_flag(Some("True")));
    assert!(!persistent_cache_flag(None));
}

#[test]
fn persisted_keys_ignore_order_of_languages_and_manifests() {
    let package = pkg("serde", Some("crates.io"));
    let c1 = PackageContext {
        languages: vec!["rust".to_string(), "python".to_string()],
        manifest_paths: vec!["b/Cargo.toml".to_string(), "a/Cargo.toml".to_string()],
    };
    let c2 = PackageContext {
        languages: vec!["python".to_string(), "rust".to_string()],
        manifest_paths: vec!["a/Cargo.toml".to_string(), "b/Cargo.toml".to_string()],
    };
    let stamps = vec![("a/Cargo.toml".to_string(), "5".to_string())];
    let k1 = tier_b_persisted_cache_key(&package, Some(&c1), &stamps);
    assert_eq!(k1, tier_b_persisted_cache_key(&package, Some(&c2), &stamps));
    assert!(k1.starts_with("v2|tier-b|serde|1.0.0|crates.io|"));
}
