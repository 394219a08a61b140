//! Package URL (PURL) helpers shared by SBOM export and import.
use vstd::prelude::*;
use vstd::string::*;

use crate::model::{
    opt_seq, Package, PackageView, CRATES_IO_ECOSYSTEM, GO_ECOSYSTEM, MAVEN_ECOSYSTEM,
    NPM_ECOSYSTEM, PYPI_ECOSYSTEM, RUBYGEMS_ECOSYSTEM,
};
use crate::text::{
    has_char, lemma_index_of_unique, lemma_last_index_of_unique, append_chars, chars_of, chars_eq_str, copy_str, lower_seq, lower_vec, push_char,
    rsplit_once, rsplit_once_vec, split_once, split_once_vec, starts_with, starts_with_vec,
    str_eq, string_of, sub_vec,
};

verus! {

/// PURL type for an ecosystem label (unknown and absent map to `pypi`).
pub open spec fn purl_type_of(ecosystem: Option<Seq<char>>) -> Seq<char> {
    match ecosystem {
        Some(e) => if e == CRATES_IO_ECOSYSTEM@ {
            "cargo"@
        } else if e == GO_ECOSYSTEM@ {
            "golang"@
        } else if e == NPM_ECOSYSTEM@ {
            "npm"@
        } else if e == MAVEN_ECOSYSTEM@ {
            "maven"@
        } else if e == RUBYGEMS_ECOSYSTEM@ {
            "gem"@
        } else {
            "pypi"@
        },
        None => "pypi"@,
    }
}

/// PURL type string for SBOM output from a package ecosystem.
pub fn purl_type_for_ecosystem(ecosystem: Option<&str>) -> (r: &'static str)
    ensures
        r@ == purl_type_of(
            match ecosystem {
                Some(e) => Some(e@),
                None => None,
            },
        ),
{
    match ecosystem {
        Some(e) => {
            if str_eq(e, CRATES_IO_ECOSYSTEM) {
                "cargo"
            } else if str_eq(e, GO_ECOSYSTEM) {
                "golang"
            } else if str_eq(e, NPM_ECOSYSTEM) {
                "npm"
            } else if str_eq(e, MAVEN_ECOSYSTEM) {
                "maven"
            } else if str_eq(e, RUBYGEMS_ECOSYSTEM) {
                "gem"
            } else {
                "pypi"
            }
        },
        None => "pypi",
    }
}

/// OSV ecosystem for a PURL type, compared without regard to ASCII case.
pub open spec fn ecosystem_of_purl_type(purl_type: Seq<char>) -> Option<Seq<char>> {
    let t = lower_seq(purl_type);
    if t == "cargo"@ {
        Some(CRATES_IO_ECOSYSTEM@)
    } else if t == "golang"@ {
        Some(GO_ECOSYSTEM@)
    } else if t == "npm"@ {
        Some(NPM_ECOSYSTEM@)
    } else if t == "maven"@ {
        Some(MAVEN_ECOSYSTEM@)
    } else if t == "gem"@ {
        Some(RUBYGEMS_ECOSYSTEM@)
    } else if t == "pypi"@ {
        Some(PYPI_ECOSYSTEM@)
    } else {
        None
    }
}

fn ecosystem_for_chars(purl_type: &[char]) -> (r: Option<&'static str>)
    ensures
        match r {
            Some(e) => ecosystem_of_purl_type(purl_type@) == Some(e@),
            None => ecosystem_of_purl_type(purl_type@) is None,
        },
{
    let t = lower_vec(purl_type);
    if chars_eq_str(t.as_slice(), "cargo") {
        Some(CRATES_IO_ECOSYSTEM)
    } else if chars_eq_str(t.as_slice(), "golang") {
        Some(GO_ECOSYSTEM)
    } else if chars_eq_str(t.as_slice(), "npm") {
        Some(NPM_ECOSYSTEM)
    } else if chars_eq_str(t.as_slice(), "maven") {
        Some(MAVEN_ECOSYSTEM)
    } else if chars_eq_str(t.as_slice(), "gem") {
        Some(RUBYGEMS_ECOSYSTEM)
    } else if chars_eq_str(t.as_slice(), "pypi") {
        Some(PYPI_ECOSYSTEM)
    } else {
        None
    }
}

/// OSV ecosystem label for a PURL type (case-insensitive).
pub fn ecosystem_for_purl_type(purl_type: &str) -> (r: Option<&'static str>)
    ensures
        match r {
            Some(e) => ecosystem_of_purl_type(purl_type@) == Some(e@),
            None => ecosystem_of_purl_type(purl_type@) is None,
        },
{
    let v = chars_of(purl_type);
    ecosystem_for_chars(v.as_slice())
}

/// The PURL written for a package.
pub open spec fn purl_of(p: PackageView) -> Seq<char> {
    "pkg:"@ + purl_type_of(p.ecosystem) + "/"@ + p.name + "@"@ + p.version
}

/// PURL for a resolved package.
pub fn purl_for_package(pkg: &Package) -> (r: String)
    ensures
        r@ == purl_of(pkg@),
{
    let t = match &pkg.ecosystem {
        Some(e) => purl_type_for_ecosystem(Some(e.as_str())),
        None => purl_type_for_ecosystem(None),
    };
    let mut s = copy_str("pkg:");
    s.append(t);
    s.append("/");
    s.append(pkg.name.as_str());
    s.append("@");
    s.append(pkg.version.as_str());
    s
}

/// Name of a package from the name path of a PURL: Maven `group/artifact`
/// (any trailing segments dropped) becomes `group:artifact`; other types
/// keep the path unchanged. `None` for a Maven path with an empty group or
/// artifact.
pub open spec fn purl_name_of(purl_type: Seq<char>, name_path: Seq<char>) -> Option<Seq<char>> {
    if lower_seq(purl_type) == "maven"@ {
        match split_once(name_path, '/') {
            Some((group, rest)) => if group.len() == 0 || rest.len() == 0 {
                None
            } else {
                let artifact = match split_once(rest, '/') {
                    Some((a, _)) => a,
                    None => rest,
                };
                Some(group + ":"@ + artifact)
            },
            None => Some(name_path),
        }
    } else {
        Some(name_path)
    }
}

/// The package a PURL denotes, if it is a supported, complete PURL.
pub open spec fn package_of_purl(purl: Seq<char>) -> Option<PackageView> {
    if !starts_with(purl, "pkg:"@) {
        None
    } else {
        let rest = purl.skip(4);
        match rsplit_once(rest, '@') {
            None => None,
            Some((type_and_name, version)) => if version.len() == 0 {
                None
            } else {
                match split_once(type_and_name, '/') {
                    None => None,
                    Some((purl_type, name_path)) => if name_path.len() == 0 {
                        None
                    } else {
                        match ecosystem_of_purl_type(purl_type) {
                            None => None,
                            Some(eco) => match purl_name_of(purl_type, name_path) {
                                None => None,
                                Some(name) => if name.len() == 0 {
                                    None
                                } else {
                                    Some(
                                        PackageView {
                                            name,
                                            version,
                                            ecosystem: Some(eco),
                                        },
                                    )
                                },
                            },
                        }
                    },
                }
            },
        }
    }
}

fn normalize_purl_name_chars(purl_type: &[char], name_path: &[char]) -> (r: Option<Vec<char>>)
    ensures
        match purl_name_of(purl_type@, name_path@) {
            Some(n) => r matches Some(v) && v@ == n,
            None => r is None,
        },
{
    let t = lower_vec(purl_type);
    if chars_eq_str(t.as_slice(), "maven") {
        match split_once_vec(name_path, '/') {
            Some((group, rest)) => {
                if group.len() == 0 || rest.len() == 0 {
                    return None;
                }
                let artifact = match split_once_vec(rest.as_slice(), '/') {
                    Some((a, _)) => a,
                    None => rest,
                };
                let mut out = group;
                out.push(':');
                let mut k: usize = 0;
                let ghost base = out@;
                while k < artifact.len()
                    invariant
                        k <= artifact.len(),
                        out@ == base + artifact@.take(k as int),
                    decreases artifact.len() - k,
                {
                    out.push(artifact[k]);
                    assert(out@ =~= base + artifact@.take(k + 1));
                    k = k + 1;
                }
                proof {
                    reveal_strlit(":");
                    assert(artifact@.take(artifact.len() as int) =~= artifact@);
                    assert(base =~= group@ + ":"@);
                }
                Some(out)
            },
            None => Some(sub_vec(name_path, 0, name_path.len())),
        }
    } else {
        proof {
            assert(name_path@.subrange(0, name_path.len() as int) =~= name_path@);
        }
        Some(sub_vec(name_path, 0, name_path.len()))
    }
}

/// Parse a Package URL into a [`Package`] for CVE lookup.
///
/// Supported types: `pypi`, `cargo`, `golang`, `npm`, `maven`, `gem`.
/// Maven names use OSV `groupId:artifactId`; both `pkg:maven/group/artifact@v`
/// and `pkg:maven/group:artifact@v` are accepted.
pub fn package_from_purl(purl: &str) -> (r: Option<Package>)
    ensures
        match package_of_purl(purl@) {
            Some(p) => r matches Some(q) && q@ == p,
            None => r is None,
        },
{
    let v = chars_of(purl);
    let prefix = chars_of("pkg:");
    if !starts_with_vec(v.as_slice(), prefix.as_slice()) {
        return None;
    }
    proof {
        reveal_strlit("pkg:");
    }
    let rest = sub_vec(v.as_slice(), 4, v.len());
    assert(rest@ =~= purl@.skip(4));
    let (type_and_name, version) = match rsplit_once_vec(rest.as_slice(), '@') {
        Some(p) => p,
        None => {
            return None;
        },
    };
    if version.len() == 0 {
        return None;
    }
    let (purl_type, name_path) = match split_once_vec(type_and_name.as_slice(), '/') {
        Some(p) => p,
        None => {
            return None;
        },
    };
    if name_path.len() == 0 {
        return None;
    }
    let eco = match ecosystem_for_chars(purl_type.as_slice()) {
        Some(e) => e,
        None => {
            return None;
        },
    };
    let name = match normalize_purl_name_chars(purl_type.as_slice(), name_path.as_slice()) {
        Some(n) => n,
        None => {
            return None;
        },
    };
    if name.len() == 0 {
        return None;
    }
    Some(
        Package {
            name: string_of(name.as_slice()),
            version: string_of(version.as_slice()),
            ecosystem: Some(copy_str(eco)),
        },
    )
}

/// Package name normalization for a PURL name path.
pub fn normalize_purl_name(purl_type: &str, name_path: &str) -> (r: Option<String>)
    ensures
        match purl_name_of(purl_type@, name_path@) {
            Some(n) => r matches Some(s) && s@ == n,
            None => r is None,
        },
{
    let t = chars_of(purl_type);
    let n = chars_of(name_path);
    match normalize_purl_name_chars(t.as_slice(), n.as_slice()) {
        Some(v) => Some(string_of(v.as_slice())),
        None => None,
    }
}

/// A known ecosystem label.
pub open spec fn is_known_ecosystem(e: Seq<char>) -> bool {
    ||| e == CRATES_IO_ECOSYSTEM@
    ||| e == GO_ECOSYSTEM@
    ||| e == NPM_ECOSYSTEM@
    ||| e == MAVEN_ECOSYSTEM@
    ||| e == RUBYGEMS_ECOSYSTEM@
    ||| e == PYPI_ECOSYSTEM@
}

/// Round trip of SBOM export and import: the PURL written for a package with
/// a known ecosystem parses back to that package, provided its name is not
/// empty, its version is neither empty nor holds `@`, and a Maven name holds
/// no `/`.
#[verifier::spinoff_prover]
pub proof fn lemma_purl_round_trip(p: PackageView)
    requires
        p.ecosystem matches Some(e) && is_known_ecosystem(e),
        p.name.len() > 0,
        p.version.len() > 0,
        !has_char(p.version, '@'),
        p.ecosystem == Some(MAVEN_ECOSYSTEM@) ==> !has_char(p.name, '/'),
    ensures
        package_of_purl(purl_of(p)) == Some(p),
{
    reveal_strlit("pkg:");
    reveal_strlit("/");
    reveal_strlit("@");
    reveal_strlit("cargo");
    reveal_strlit("golang");
    reveal_strlit("npm");
    reveal_strlit("maven");
    reveal_strlit("gem");
    reveal_strlit("pypi");
    reveal_strlit("crates.io");
    reveal_strlit("Go");
    reveal_strlit("Maven");
    reveal_strlit("RubyGems");
    reveal_strlit("PyPI");
    let e = p.ecosystem.unwrap();
    let t = purl_type_of(p.ecosystem);
    assert(lower_seq("cargo"@) =~= "cargo"@);
    assert(lower_seq("golang"@) =~= "golang"@);
    assert(lower_seq("npm"@) =~= "npm"@);
    assert(lower_seq("maven"@) =~= "maven"@);
    assert(lower_seq("gem"@) =~= "gem"@);
    assert(lower_seq("pypi"@) =~= "pypi"@);
    assert(lower_seq(t) == t);
    assert("gem"@ != "npm"@) by {
        assert("gem"@[0] != "npm"@[0]);
    }
    assert("pypi"@ != "gem"@);
    assert("cargo"@ != "golang"@ && "cargo"@ != "npm"@ && "cargo"@ != "gem"@);
    assert("golang"@ != "npm"@ && "golang"@ != "maven"@ && "golang"@ != "gem"@);
    assert("npm"@ != "maven"@ && "maven"@ != "gem"@);
    assert("cargo"@ != "maven"@) by {
        assert("cargo"@[0] != "maven"@[0]);
    }
    if e == CRATES_IO_ECOSYSTEM@ {
        assert(t == "cargo"@);
        assert(ecosystem_of_purl_type(t) == Some(e));
    } else if e == GO_ECOSYSTEM@ {
        assert(t == "golang"@);
        assert(ecosystem_of_purl_type(t) == Some(e));
    } else if e == NPM_ECOSYSTEM@ {
        assert(t == "npm"@);
        assert(ecosystem_of_purl_type(t) == Some(e));
    } else if e == MAVEN_ECOSYSTEM@ {
        assert(t == "maven"@);
        assert(ecosystem_of_purl_type(t) == Some(e));
    } else if e == RUBYGEMS_ECOSYSTEM@ {
        assert(t == "gem"@);
        assert(ecosystem_of_purl_type(t) == Some(e));
    } else {
        assert(e == PYPI_ECOSYSTEM@);
        assert(t == "pypi"@);
        assert("pypi"@ != "cargo"@);
        assert("pypi"@ != "maven"@);
        assert("pypi"@ != "golang"@);
        assert("pypi"@ != "npm"@);
    }
    assert(ecosystem_of_purl_type(t) == Some(e));
    assert(forall|i: int| 0 <= i < t.len() ==> t[i] != '/');
    let s = purl_of(p);
    assert(starts_with(s, "pkg:"@)) by {
        assert(s.subrange(0, 4) =~= "pkg:"@);
    }
    let rest = s.skip(4);
    let tn = t + "/"@ + p.name;
    assert(rest =~= tn + "@"@ + p.version);
    let at = tn.len() as int;
    assert(rest[at] == '@');
    assert forall|j: int| at < j < rest.len() implies rest[j] != '@' by {
        assert(rest[j] == p.version[j - at - 1]);
    }
    lemma_last_index_of_unique(rest, '@', at);
    assert(rest.take(at) =~= tn);
    assert(rest.skip(at + 1) =~= p.version);
    let slash = t.len() as int;
    assert(tn[slash] == '/');
    assert forall|j: int| 0 <= j < slash implies tn[j] != '/' by {
        assert(tn[j] == t[j]);
    }
    lemma_index_of_unique(tn, '/', slash);
    assert(tn.take(slash) =~= t);
    assert(tn.skip(slash + 1) =~= p.name);
    if e == MAVEN_ECOSYSTEM@ {
        crate::text::lemma_index_of(p.name, '/');
        assert(split_once(p.name, '/') is None);
    }
}

} // verus!
