//! CVE cache keys and entries, air-gapped corpus import and the false-positive
//! ignore database model.
use sha2::Digest;
use vstd::prelude::*;
use vstd::string::*;

use crate::json::{json_bytes_parsed, lemma_members_get_view, member_lookup, parse_json_bytes, Json, JsonValue};
use crate::model::{opt_seq, FpEntry, Package, PackageView};
use crate::paths::{last_comp_span, last_component_span, stem_len, stem_length};
use crate::text::{
    chars_of, copy_str, has_char, is_ascii_hex, lower_seq, lower_vec, occurs_at, str_eq,
    string_of, sub_vec, trim, trim_vec,
};

verus! {

/// `serde_json::Value`, carried opaquely (raw vulnerability payloads).
#[verifier::external_type_specification]
#[verifier::external_body]
pub struct ExJsonValue(serde_json::Value);

/// Copy of a list of JSON values (`<[Value]>::to_vec`).
///
/// `serde_json::Value` derives `Clone`; the contract states that the copy
/// holds the same values in the same order.
#[verifier::external_body]
fn copy_json_values(values: &[serde_json::Value]) -> (r: Vec<serde_json::Value>)
    ensures
        r@ == values@,
{
    values.to_vec()
}

/// Cache key `name::version::provider_id`.
pub open spec fn cache_key_of(p: PackageView, provider: Seq<char>) -> Seq<char> {
    p.name + "::"@ + p.version + "::"@ + provider
}

/// Cache key: `name::version::provider_id`.
pub fn pkg_cache_key(pkg: &Package, provider_id: &str) -> (r: String)
    ensures
        r@ == cache_key_of(pkg@, provider_id@),
{
    let mut s = copy_str(pkg.name.as_str());
    s.append("::");
    s.append(pkg.version.as_str());
    s.append("::");
    s.append(provider_id);
    s
}

/// Start of the last occurrence of `p` in `s`, or -1.
pub open spec fn last_occ(s: Seq<char>, p: Seq<char>) -> int
    decreases s.len(),
{
    if s.len() < p.len() {
        -1
    } else if occurs_at(s, p, s.len() - p.len()) {
        s.len() - p.len()
    } else if s.len() == 0 {
        -1
    } else {
        last_occ(s.drop_last(), p)
    }
}

pub proof fn lemma_last_occ(s: Seq<char>, p: Seq<char>)
    ensures
        -1 <= last_occ(s, p),
        last_occ(s, p) >= 0 ==> occurs_at(s, p, last_occ(s, p)),
        forall|j: int| last_occ(s, p) < j ==> !occurs_at(s, p, j),
    decreases s.len(),
{
    if s.len() >= p.len() && !occurs_at(s, p, s.len() - p.len()) && s.len() > 0 {
        lemma_last_occ(s.drop_last(), p);
        let r = last_occ(s.drop_last(), p);
        if r >= 0 {
            assert(s.drop_last().subrange(r, r + p.len()) =~= s.subrange(r, r + p.len()));
        }
        assert forall|j: int| r < j implies !occurs_at(s, p, j) by {
            if occurs_at(s, p, j) {
                if j + p.len() <= s.len() - 1 {
                    assert(s.drop_last().subrange(j, j + p.len()) =~= s.subrange(j, j + p.len()));
                    assert(occurs_at(s.drop_last(), p, j));
                } else {
                    assert(j == s.len() - p.len());
                }
            }
        }
    }
}

/// An occurrence with none after it is the last one.
pub proof fn lemma_last_occ_unique(s: Seq<char>, p: Seq<char>, i: int)
    requires
        occurs_at(s, p, i),
        forall|j: int| i < j ==> !occurs_at(s, p, j),
    ensures
        last_occ(s, p) == i,
{
    lemma_last_occ(s, p);
}

/// Position of the last occurrence of `p` in `v`.
fn rfind_sub(v: &[char], p: &[char]) -> (r: Option<usize>)
    ensures
        match r {
            Some(i) => last_occ(v@, p@) == i,
            None => last_occ(v@, p@) == -1,
        },
{
    proof {
        lemma_last_occ(v@, p@);
    }
    if p.len() > v.len() {
        return None;
    }
    let mut j: usize = v.len() - p.len();
    loop
        invariant
            p.len() <= v.len(),
            j <= v.len() - p.len(),
            forall|k: int| j < k ==> !occurs_at(v@, p@, k),
        decreases j,
    {
        if crate::text::occurs_at_exec(v, p, j) {
            proof {
                lemma_last_occ_unique(v@, p@, j as int);
            }
            return Some(j);
        }
        if j == 0 {
            proof {
                lemma_last_occ(v@, p@);
                assert(!occurs_at(v@, p@, 0));
            }
            return None;
        }
        j = j - 1;
    }
}

/// Components of a cache key `name::version::provider_id`, split at the last
/// two `::` separators (the name may itself hold `::`); `None` when a
/// separator is missing or a component is empty.
pub open spec fn cache_key_parts(key: Seq<char>) -> Option<(Seq<char>, Seq<char>, Seq<char>)> {
    let sep = "::"@;
    let i1 = last_occ(key, sep);
    if i1 < 0 {
        None
    } else {
        let provider = key.skip(i1 + 2);
        let head = key.take(i1);
        let i2 = last_occ(head, sep);
        if i2 < 0 {
            None
        } else {
            let version = head.skip(i2 + 2);
            let name = head.take(i2);
            if name.len() == 0 || version.len() == 0 || provider.len() == 0 {
                None
            } else {
                Some((name, version, provider))
            }
        }
    }
}

/// Errors while parsing or verifying a corpus file.
#[derive(Debug, PartialEq, Eq)]
pub enum CorpusImportError {
    Parse(String),
    UnsupportedSchema { found: u32, supported: u32 },
    MissingRawVulns(String),
    InvalidKey(String),
    Sha256Mismatch { expected: String, actual: String },
    InvalidSha256Digest,
}

/// The layout of a corpus document.
#[derive(Debug, Clone, Copy, PartialEq, Eq)]
pub enum CorpusShape {
    /// A versioned envelope: an object with `schema_version` or `entries`.
    Envelope,
    /// A bare cache listing: an array of entry objects.
    Listing,
}

/// Message for a document that is neither an envelope nor a listing.
pub const CORPUS_SHAPE_MESSAGE: &'static str = "expected corpus object with schema_version/entries or a JSON array";

/// The layout of a parsed corpus document, if it has one.
pub open spec fn corpus_shape_of(doc: Json) -> Option<CorpusShape> {
    match doc {
        Json::Object(members) => if member_lookup(members, "schema_version"@) is Some || member_lookup(
            members,
            "entries"@,
        ) is Some {
            Some(CorpusShape::Envelope)
        } else {
            None
        },
        Json::Array(_) => Some(CorpusShape::Listing),
        _ => None,
    }
}

/// The layout of a corpus file's bytes: a parse error with the parser's
/// message when they are not one JSON document, the parse error
/// `CORPUS_SHAPE_MESSAGE` for a document of neither layout, else its
/// layout (`corpus_shape_of`).
pub fn corpus_json_shape(bytes: &[u8]) -> (r: Result<CorpusShape, CorpusImportError>)
    ensures
        match json_bytes_parsed(bytes@) {
            None => r matches Err(CorpusImportError::Parse(_)),
            Some(doc) => match corpus_shape_of(doc) {
                Some(shape) => r == Ok::<CorpusShape, CorpusImportError>(shape),
                None => r matches Err(CorpusImportError::Parse(m)) && m@ == CORPUS_SHAPE_MESSAGE@,
            },
        },
{
    match parse_json_bytes(bytes) {
        Err(message) => Err(CorpusImportError::Parse(message)),
        Ok(v) => match &v {
            JsonValue::Object(members) => {
                proof {
                    lemma_members_get_view(members@, "schema_version"@);
                    lemma_members_get_view(members@, "entries"@);
                }
                if v.get("schema_version").is_some() || v.get("entries").is_some() {
                    Ok(CorpusShape::Envelope)
                } else {
                    Err(CorpusImportError::Parse(String::from_str(CORPUS_SHAPE_MESSAGE)))
                }
            },
            JsonValue::Array(_) => Ok(CorpusShape::Listing),
            _ => Err(CorpusImportError::Parse(String::from_str(CORPUS_SHAPE_MESSAGE))),
        },
    }
}

/// The text a corpus import error displays.
pub open spec fn corpus_error_text(e: CorpusImportError) -> Seq<char> {
    match e {
        CorpusImportError::Parse(m) => "corpus JSON parse error: "@ + m@,
        CorpusImportError::UnsupportedSchema { found, supported } => "unsupported corpus schema_version "@
            + crate::text::decimal(found as nat) + " (supported: "@ + crate::text::decimal(supported as nat) + ")"@,
        CorpusImportError::MissingRawVulns(k) => "corpus entry missing raw_vulns for key "@ + k@,
        CorpusImportError::InvalidKey(k) => "invalid cache key (expected name::version::provider): "@ + k@,
        CorpusImportError::Sha256Mismatch { expected, actual } => "SHA-256 mismatch: expected "@ + expected@
            + ", got "@ + actual@,
        CorpusImportError::InvalidSha256Digest => "SHA-256 digest must be 64 lowercase hex characters"@,
    }
}

impl CorpusImportError {
    /// Human-readable message of the error.
    pub fn message(&self) -> (r: String)
        ensures
            r@ == corpus_error_text(*self),
    {
        match self {
            CorpusImportError::Parse(m) => {
                let mut s = copy_str("corpus JSON parse error: ");
                s.append(m.as_str());
                s
            },
            CorpusImportError::UnsupportedSchema { found, supported } => {
                let mut s = copy_str("unsupported corpus schema_version ");
                crate::text::push_decimal(&mut s, *found as u64);
                s.append(" (supported: ");
                crate::text::push_decimal(&mut s, *supported as u64);
                s.append(")");
                s
            },
            CorpusImportError::MissingRawVulns(k) => {
                let mut s = copy_str("corpus entry missing raw_vulns for key ");
                s.append(k.as_str());
                s
            },
            CorpusImportError::InvalidKey(k) => {
                let mut s = copy_str("invalid cache key (expected name::version::provider): ");
                s.append(k.as_str());
                s
            },
            CorpusImportError::Sha256Mismatch { expected, actual } => {
                let mut s = copy_str("SHA-256 mismatch: expected ");
                s.append(expected.as_str());
                s.append(", got ");
                s.append(actual.as_str());
                s
            },
            CorpusImportError::InvalidSha256Digest => copy_str(
                "SHA-256 digest must be 64 lowercase hex characters",
            ),
        }
    }
}

/// Split `name::version::provider_id` (name may contain `::`).
pub fn parse_pkg_cache_key(key: &str) -> (r: Result<(Package, String), CorpusImportError>)
    ensures
        match cache_key_parts(key@) {
            Some((n, v, p)) => r matches Ok((pkg, prov)) && pkg@ == (PackageView {
                name: n,
                version: v,
                ecosystem: None,
            }) && prov@ == p,
            None => r matches Err(CorpusImportError::InvalidKey(k)) && k@ == key@,
        },
{
    proof {
        reveal_strlit("::");
    }
    let v = chars_of(key);
    let sep = chars_of("::");
    let i1 = match rfind_sub(v.as_slice(), sep.as_slice()) {
        Some(i) => i,
        None => {
            return Err(CorpusImportError::InvalidKey(copy_str(key)));
        },
    };
    proof {
        lemma_last_occ(v@, sep@);
        assert(sep@.len() == 2);
        assert(occurs_at(v@, sep@, i1 as int));
        assert(i1 + 2 <= v.len());
    }
    let provider = sub_vec(v.as_slice(), i1 + 2, v.len());
    let head = sub_vec(v.as_slice(), 0, i1);
    let i2 = match rfind_sub(head.as_slice(), sep.as_slice()) {
        Some(i) => i,
        None => {
            return Err(CorpusImportError::InvalidKey(copy_str(key)));
        },
    };
    proof {
        lemma_last_occ(head@, sep@);
        assert(occurs_at(head@, sep@, i2 as int));
    }
    let version = sub_vec(head.as_slice(), i2 + 2, head.len());
    let name = sub_vec(head.as_slice(), 0, i2);
    assert(provider@ =~= key@.skip(i1 + 2));
    assert(head@ =~= key@.take(i1 as int));
    assert(version@ =~= head@.skip(i2 + 2));
    assert(name@ =~= head@.take(i2 as int));
    if name.len() == 0 || version.len() == 0 || provider.len() == 0 {
        return Err(CorpusImportError::InvalidKey(copy_str(key)));
    }
    Ok(
        (
            Package {
                name: string_of(name.as_slice()),
                version: string_of(version.as_slice()),
                ecosystem: None,
            },
            string_of(provider.as_slice()),
        ),
    )
}

/// Cache-key round trip: a key built from a package parses back to its name,
/// version and provider when all three are non-empty and the version and
/// provider hold no `:`.
pub proof fn lemma_cache_key_round_trip(p: PackageView, provider: Seq<char>)
    requires
        p.name.len() > 0,
        p.version.len() > 0,
        provider.len() > 0,
        !has_char(p.version, ':'),
        !has_char(provider, ':'),
    ensures
        cache_key_parts(cache_key_of(p, provider)) == Some((p.name, p.version, provider)),
{
    reveal_strlit("::");
    let sep = "::"@;
    let k = cache_key_of(p, provider);
    let head = p.name + sep + p.version;
    assert(k =~= head + sep + provider);
    let i1 = head.len() as int;
    assert(occurs_at(k, sep, i1)) by {
        assert(k.subrange(i1, i1 + 2) =~= sep);
    }
    assert forall|j: int| i1 < j implies !occurs_at(k, sep, j) by {
        if occurs_at(k, sep, j) {
            assert(k.subrange(j, j + 2)[1] == ':');
            assert(k[j + 1] == provider[j + 1 - i1 - 2]);
        }
    }
    lemma_last_occ_unique(k, sep, i1);
    assert(k.take(i1) =~= head);
    assert(k.skip(i1 + 2) =~= provider);
    let i2 = p.name.len() as int;
    assert(occurs_at(head, sep, i2)) by {
        assert(head.subrange(i2, i2 + 2) =~= sep);
    }
    assert forall|j: int| i2 < j implies !occurs_at(head, sep, j) by {
        if occurs_at(head, sep, j) {
            assert(head.subrange(j, j + 2)[1] == ':');
            assert(head[j + 1] == p.version[j + 1 - i2 - 2]);
        }
    }
    lemma_last_occ_unique(head, sep, i2);
    assert(head.take(i2) =~= p.name);
    assert(head.skip(i2 + 2) =~= p.version);
}

/// `std::time::SystemTime`, carried opaquely.
#[verifier::external_type_specification]
#[verifier::external_body]
pub struct ExSystemTime(std::time::SystemTime);

/// `SystemTime::now`: the current system time. Nothing is stated of it: it
/// depends on the moment of the call.
#[verifier::external_body]
fn system_time_now() -> std::time::SystemTime {
    std::time::SystemTime::now()
}

/// `SystemTime::duration_since(UNIX_EPOCH)`, as an option: the time elapsed
/// since the epoch, `None` when `t` is earlier. Nothing is stated of the
/// value, which follows the system clock.
#[verifier::external_body]
fn duration_since_epoch(t: &std::time::SystemTime) -> Option<std::time::Duration> {
    t.duration_since(std::time::UNIX_EPOCH).ok()
}

/// `Duration::as_secs`: the whole seconds of a duration (the duration is
/// opaque here, so nothing is stated of the number).
#[verifier::external_body]
fn duration_whole_secs(d: &std::time::Duration) -> u64 {
    d.as_secs()
}

/// Unix seconds since the epoch (0 if the clock is before the epoch). The
/// value follows the system clock, so no contract can fix it.
pub fn unix_now_secs() -> u64 {
    match duration_since_epoch(&system_time_now()) {
        Some(d) => duration_whole_secs(&d),
        None => 0,
    }
}

/// Serialized form of a cache entry (raw vuln JSON per package and provider,
/// with its TTL).
#[derive(Debug, Clone, PartialEq)]
pub struct StoredEntry {
    pub raw_vulns: Vec<serde_json::Value>,
    pub provider_id: String,
    pub expires_at_secs: u64,
    pub added_at_secs: Option<u64>,
    pub ttl_secs: Option<u64>,
}

/// `u64::saturating_sub`.
pub open spec fn sat_sub(a: u64, b: u64) -> u64 {
    if a >= b {
        (a - b) as u64
    } else {
        0
    }
}

/// `u64::saturating_add`.
pub open spec fn sat_add(a: u64, b: u64) -> u64 {
    if a + b <= u64::MAX {
        (a + b) as u64
    } else {
        u64::MAX
    }
}

/// Normalize after deserialization: fill `added_at_secs`/`ttl_secs` from the
/// expiry when either is missing.
pub fn normalize_stored_entry(entry: &mut StoredEntry, default_ttl_secs: u64)
    ensures
        final(entry).raw_vulns@ == old(entry).raw_vulns@,
        final(entry).provider_id@ == old(entry).provider_id@,
        final(entry).expires_at_secs == old(entry).expires_at_secs,
        old(entry).added_at_secs is Some && old(entry).ttl_secs is Some ==> final(entry).added_at_secs
            == old(entry).added_at_secs && final(entry).ttl_secs == old(entry).ttl_secs,
        !(old(entry).added_at_secs is Some && old(entry).ttl_secs is Some) ==> {
            let ttl = match old(entry).ttl_secs {
                Some(t) => t,
                None => default_ttl_secs,
            };
            &&& final(entry).ttl_secs == Some(ttl)
            &&& final(entry).added_at_secs == Some(sat_sub(old(entry).expires_at_secs, ttl))
        },
{
    if entry.added_at_secs.is_none() || entry.ttl_secs.is_none() {
        let ttl = match entry.ttl_secs {
            Some(t) => t,
            None => default_ttl_secs,
        };
        let added = if entry.expires_at_secs >= ttl {
            entry.expires_at_secs - ttl
        } else {
            0
        };
        entry.added_at_secs = Some(added);
        entry.ttl_secs = Some(ttl);
    }
}

/// Build a new stored entry for a fresh put (TTL at least one second).
pub fn new_stored_entry(
    provider_id: &str,
    raw_vulns: &[serde_json::Value],
    ttl_secs: u64,
    now_secs: u64,
) -> (r: StoredEntry)
    ensures
        r.raw_vulns@ == raw_vulns@,
        r.provider_id@ == provider_id@,
        r.ttl_secs == Some(if ttl_secs >= 1 {
            ttl_secs
        } else {
            1u64
        }),
        r.expires_at_secs == sat_add(now_secs, r.ttl_secs.unwrap()),
        r.added_at_secs == Some(now_secs),
{
    let ttl = if ttl_secs >= 1 {
        ttl_secs
    } else {
        1
    };
    let expires = if now_secs <= u64::MAX - ttl {
        now_secs + ttl
    } else {
        u64::MAX
    };
    StoredEntry {
        raw_vulns: copy_json_values(raw_vulns),
        provider_id: copy_str(provider_id),
        expires_at_secs: expires,
        added_at_secs: Some(now_secs),
        ttl_secs: Some(ttl),
    }
}

/// True when the entry is past its expiry (a cache miss).
pub fn entry_is_expired(entry: &StoredEntry, now_secs: u64) -> (r: bool)
    ensures
        r == (entry.expires_at_secs <= now_secs),
{
    entry.expires_at_secs <= now_secs
}

/// Schema version for the corpus JSON envelope.
pub const CORPUS_SCHEMA_VERSION: u32 = 1;

/// One cache entry to import.
#[derive(Debug, Clone, PartialEq)]
pub struct CorpusEntry {
    /// Cache key `name::version::provider_id`.
    pub key: String,
    /// Effective TTL in seconds for the imported entry.
    pub ttl_secs: u64,
    /// Optional added-at Unix seconds from the export.
    pub added_at_secs: Option<u64>,
    /// Full raw provider vuln JSON required for offline hits.
    pub raw_vulns: Vec<serde_json::Value>,
}

/// Versioned corpus document.
#[derive(Debug, Clone, PartialEq)]
pub struct CorpusDocument {
    pub schema_version: u32,
    pub entries: Vec<CorpusEntry>,
}

/// One element of a bare cache listing (`db show --full` array form) as
/// decoded from JSON.
#[derive(Debug, Clone, PartialEq)]
pub struct SlimCorpusEntry {
    pub key: String,
    pub ttl_secs: u64,
    pub added_at_secs: Option<u64>,
    pub raw_vulns: Option<Vec<serde_json::Value>>,
}

/// Parsed entry ready for a cache put.
#[derive(Debug, Clone, PartialEq)]
pub struct ImportableEntry {
    pub package: Package,
    pub provider_id: String,
    pub raw_vulns: Vec<serde_json::Value>,
    pub ttl_secs: u64,
}

/// `max(ttl, 1)`.
pub open spec fn ttl_at_least_one(t: u64) -> u64 {
    if t >= 1 {
        t
    } else {
        1
    }
}

/// Corpus entry from a listing element: requires a payload and a valid key;
/// the TTL is raised to at least one second.
pub fn entry_from_cache_info_like(
    key: String,
    ttl_secs: u64,
    added_at_secs: Option<u64>,
    raw_vulns: Option<Vec<serde_json::Value>>,
) -> (r: Result<CorpusEntry, CorpusImportError>)
    ensures
        raw_vulns is None ==> (r matches Err(CorpusImportError::MissingRawVulns(k)) && k@ == key@),
        raw_vulns is Some && cache_key_parts(key@) is None ==> (r matches Err(CorpusImportError::InvalidKey(k))
            && k@ == key@),
        raw_vulns is Some && cache_key_parts(key@) is Some ==> (r matches Ok(e) && e.key@ == key@
            && e.ttl_secs == ttl_at_least_one(ttl_secs) && e.added_at_secs == added_at_secs
            && e.raw_vulns@ == raw_vulns.unwrap()@),
{
    let raw = match raw_vulns {
        Some(r) => r,
        None => {
            return Err(CorpusImportError::MissingRawVulns(key));
        },
    };
    match parse_pkg_cache_key(key.as_str()) {
        Ok(_) => {},
        Err(e) => {
            return Err(e);
        },
    }
    Ok(
        CorpusEntry {
            key,
            ttl_secs: if ttl_secs >= 1 {
                ttl_secs
            } else {
                1
            },
            added_at_secs,
            raw_vulns: raw,
        },
    )
}

/// First entry (index) of `entries` whose key is not a valid cache key.
pub open spec fn first_bad_key(entries: Seq<CorpusEntry>) -> int {
    choose|i: int|
        0 <= i < entries.len() && cache_key_parts(entries[i].key@) is None && forall|j: int|
            0 <= j < i ==> cache_key_parts(#[trigger] entries[j].key@) is Some
}

/// All entries carry valid cache keys.
pub open spec fn all_keys_valid(entries: Seq<CorpusEntry>) -> bool {
    forall|j: int| 0 <= j < entries.len() ==> cache_key_parts(#[trigger] entries[j].key@) is Some
}

/// Checks of a decoded corpus envelope: supported schema version and a valid
/// cache key for every entry (the first invalid key is reported).
pub fn check_corpus_envelope(doc: CorpusDocument) -> (r: Result<CorpusDocument, CorpusImportError>)
    ensures
        doc.schema_version != CORPUS_SCHEMA_VERSION ==> r == Err::<CorpusDocument, CorpusImportError>(
            CorpusImportError::UnsupportedSchema {
                found: doc.schema_version,
                supported: CORPUS_SCHEMA_VERSION,
            },
        ),
        doc.schema_version == CORPUS_SCHEMA_VERSION && all_keys_valid(doc.entries@) ==> r == Ok::<
            CorpusDocument,
            CorpusImportError,
        >(doc),
        doc.schema_version == CORPUS_SCHEMA_VERSION && !all_keys_valid(doc.entries@) ==> (r matches Err(
            CorpusImportError::InvalidKey(k)) && k@ == doc.entries@[first_bad_key(doc.entries@)].key@),
{
    if doc.schema_version != CORPUS_SCHEMA_VERSION {
        return Err(
            CorpusImportError::UnsupportedSchema {
                found: doc.schema_version,
                supported: CORPUS_SCHEMA_VERSION,
            },
        );
    }
    let mut i: usize = 0;
    while i < doc.entries.len()
        invariant
            doc.schema_version == CORPUS_SCHEMA_VERSION,
            i <= doc.entries.len(),
            forall|j: int| 0 <= j < i ==> cache_key_parts(#[trigger] doc.entries@[j].key@) is Some,
        decreases doc.entries.len() - i,
    {
        match parse_pkg_cache_key(doc.entries[i].key.as_str()) {
            Ok(_) => {},
            Err(e) => {
                proof {
                    let w = i as int;
                    assert(0 <= w < doc.entries@.len() && cache_key_parts(doc.entries@[w].key@) is None
                        && forall|j: int|
                        0 <= j < w ==> cache_key_parts(#[trigger] doc.entries@[j].key@) is Some);
                    let f = first_bad_key(doc.entries@);
                    if f < w {
                    } else if f > w {
                    }
                }
                return Err(e);
            },
        }
        i = i + 1;
    }
    Ok(doc)
}

/// A listing element decodes, carries a payload and has a valid key.
pub open spec fn listing_item_ok(x: Result<SlimCorpusEntry, String>) -> bool {
    x matches Ok(s) && s.raw_vulns is Some && cache_key_parts(s.key@) is Some
}

/// `e` is the error of a failing listing element: the decode message, a
/// missing payload, or an invalid key.
pub open spec fn listing_item_error(x: Result<SlimCorpusEntry, String>, e: CorpusImportError) -> bool {
    match x {
        Err(m) => e == CorpusImportError::Parse(m),
        Ok(s) => if s.raw_vulns is None {
            e matches CorpusImportError::MissingRawVulns(k) && k@ == s.key@
        } else {
            e matches CorpusImportError::InvalidKey(k) && k@ == s.key@ && cache_key_parts(s.key@) is None
        },
    }
}

/// Corpus document from the elements of a bare cache listing, in order: an
/// element that failed to decode (`Err(message)`) is a parse error, and
/// [`entry_from_cache_info_like`] checks the others; the first error wins.
pub fn corpus_from_listing(items: Vec<Result<SlimCorpusEntry, String>>) -> (r: Result<
    CorpusDocument,
    CorpusImportError,
>)
    ensures
        r matches Ok(doc) ==> doc.schema_version == CORPUS_SCHEMA_VERSION && doc.entries.len()
            == items.len() && forall|i: int|
            0 <= i < items.len() ==> (#[trigger] items@[i] matches Ok(s) && s.raw_vulns is Some
                && cache_key_parts(s.key@) is Some && doc.entries@[i].key@ == s.key@
                && doc.entries@[i].ttl_secs == ttl_at_least_one(s.ttl_secs)
                && doc.entries@[i].added_at_secs == s.added_at_secs
                && doc.entries@[i].raw_vulns@ == s.raw_vulns.unwrap()@),
        (forall|i: int| 0 <= i < items.len() ==> listing_item_ok(#[trigger] items@[i])) ==> r is Ok,
        r matches Err(e) ==> exists|k: int|
            0 <= k < items.len() && (forall|j: int| 0 <= j < k ==> listing_item_ok(#[trigger] items@[j]))
                && listing_item_error(items@[k], e),
{
    let mut entries: Vec<CorpusEntry> = Vec::new();
    let ghost all = items@;
    let mut rest = items;
    let n = rest.len();
    let mut i: usize = 0;
    while i < n
        invariant
            all == items@,
            n == all.len(),
            i <= n,
            rest@ == all.skip(i as int),
            entries@.len() == i,
            forall|k: int|
                0 <= k < i ==> (#[trigger] all[k] matches Ok(s) && s.raw_vulns is Some
                    && cache_key_parts(s.key@) is Some && entries@[k].key@ == s.key@
                    && entries@[k].ttl_secs == ttl_at_least_one(s.ttl_secs)
                    && entries@[k].added_at_secs == s.added_at_secs && entries@[k].raw_vulns@
                    == s.raw_vulns.unwrap()@),
        decreases n - i,
    {
        let item = rest.remove(0);
        assert(rest@ =~= all.skip(i + 1));
        assert(item == all[i as int]);
        match item {
            Err(msg) => {
                proof {
                    assert(forall|j: int| 0 <= j < i ==> listing_item_ok(#[trigger] all[j]));
                }
                return Err(CorpusImportError::Parse(msg));
            },
            Ok(slim) => {
                let e = entry_from_cache_info_like(
                    slim.key,
                    slim.ttl_secs,
                    slim.added_at_secs,
                    slim.raw_vulns,
                );
                match e {
                    Ok(entry) => {
                        entries.push(entry);
                    },
                    Err(err) => {
                        proof {
                            assert(forall|j: int| 0 <= j < i ==> listing_item_ok(#[trigger] all[j]));
                            assert(listing_item_error(all[i as int], err));
                        }
                        return Err(err);
                    },
                }
            },
        }
        i = i + 1;
    }
    Ok(CorpusDocument { schema_version: CORPUS_SCHEMA_VERSION, entries })
}

/// Convert parsed corpus entries into put-ready records (TTL at least one
/// second); the first entry with an invalid key fails the whole conversion.
pub fn importable_entries(doc: &CorpusDocument) -> (r: Result<
    Vec<ImportableEntry>,
    CorpusImportError,
>)
    ensures
        !all_keys_valid(doc.entries@) ==> (r matches Err(CorpusImportError::InvalidKey(k)) && k@
            == doc.entries@[first_bad_key(doc.entries@)].key@),
        all_keys_valid(doc.entries@) ==> (r matches Ok(out) && out.len() == doc.entries.len()
            && forall|i: int|
            0 <= i < out.len() ==> {
                let e = #[trigger] doc.entries@[i];
                let parts = cache_key_parts(e.key@).unwrap();
                &&& out@[i].package@ == (PackageView {
                    name: parts.0,
                    version: parts.1,
                    ecosystem: None,
                })
                &&& out@[i].provider_id@ == parts.2
                &&& out@[i].raw_vulns@ == e.raw_vulns@
                &&& out@[i].ttl_secs == ttl_at_least_one(e.ttl_secs)
            }),
{
    let mut out: Vec<ImportableEntry> = Vec::new();
    let mut i: usize = 0;
    while i < doc.entries.len()
        invariant
            i <= doc.entries.len(),
            out.len() == i,
            forall|j: int| 0 <= j < i ==> cache_key_parts(#[trigger] doc.entries@[j].key@) is Some,
            forall|j: int|
                0 <= j < i ==> {
                    let e = #[trigger] doc.entries@[j];
                    let parts = cache_key_parts(e.key@).unwrap();
                    &&& out@[j].package@ == (PackageView {
                        name: parts.0,
                        version: parts.1,
                        ecosystem: None,
                    })
                    &&& out@[j].provider_id@ == parts.2
                    &&& out@[j].raw_vulns@ == e.raw_vulns@
                    &&& out@[j].ttl_secs == ttl_at_least_one(e.ttl_secs)
                },
        decreases doc.entries.len() - i,
    {
        let entry = &doc.entries[i];
        match parse_pkg_cache_key(entry.key.as_str()) {
            Ok((package, provider_id)) => {
                out.push(
                    ImportableEntry {
                        package,
                        provider_id,
                        raw_vulns: copy_json_values(entry.raw_vulns.as_slice()),
                        ttl_secs: if entry.ttl_secs >= 1 {
                            entry.ttl_secs
                        } else {
                            1
                        },
                    },
                );
            },
            Err(e) => {
                proof {
                    let w = i as int;
                    assert(0 <= w < doc.entries@.len() && cache_key_parts(doc.entries@[w].key@) is None
                        && forall|j: int|
                        0 <= j < w ==> cache_key_parts(#[trigger] doc.entries@[j].key@) is Some);
                    let f = first_bad_key(doc.entries@);
                    if f < w {
                    } else if f > w {
                    }
                }
                return Err(e);
            },
        }
        i = i + 1;
    }
    Ok(out)
}

/// Lower-case hexadecimal digit for a value below 16.
pub open spec fn hex_digit(n: int) -> char {
    if n < 10 {
        (('0' as int) + n) as char
    } else {
        (('a' as int) + n - 10) as char
    }
}

/// Lower-case hexadecimal encoding: two digits per byte.
pub open spec fn hex_of(b: Seq<u8>) -> Seq<char>
    decreases b.len(),
{
    if b.len() == 0 {
        Seq::empty()
    } else {
        hex_of(b.drop_last()) + seq![hex_digit((b.last() / 16) as int), hex_digit((b.last() % 16) as int)]
    }
}

fn hex_digit_exec(n: u8) -> (c: char)
    requires
        n < 16,
    ensures
        c == hex_digit(n as int),
{
    if n < 10 {
        ((48 + n) as u8) as char
    } else {
        ((87 + n) as u8) as char
    }
}

/// Hex-encode bytes as lowercase.
pub fn hex_encode(bytes: &[u8]) -> (r: String)
    ensures
        r@ == hex_of(bytes@),
{
    let mut out: Vec<char> = Vec::new();
    let mut i: usize = 0;
    while i < bytes.len()
        invariant
            i <= bytes.len(),
            out@ == hex_of(bytes@.take(i as int)),
        decreases bytes.len() - i,
    {
        let b = bytes[i];
        out.push(hex_digit_exec(b / 16));
        out.push(hex_digit_exec(b % 16));
        assert(bytes@.take(i + 1).drop_last() =~= bytes@.take(i as int));
        assert(out@ =~= hex_of(bytes@.take(i + 1)));
        i = i + 1;
    }
    assert(bytes@.take(bytes.len() as int) =~= bytes@);
    string_of(out.as_slice())
}

/// SHA-256 digest of a byte sequence (the value computed by the `sha2`
/// crate).
pub uninterp spec fn sha256_digest(data: Seq<u8>) -> Seq<u8>;

/// SHA-256 of `data` computed by `sha2::Sha256` (new, update, finalize).
///
/// The contract names the digest and states its documented length of 32
/// bytes.
#[verifier::external_body]
fn sha256_bytes(data: &[u8]) -> (r: Vec<u8>)
    ensures
        r@ == sha256_digest(data@),
        r@.len() == 32,
{
    let mut hasher = sha2::Sha256::new();
    hasher.update(data);
    hasher.finalize().to_vec()
}

/// SHA-256 of `bytes` as lowercase hex.
pub fn sha256_hex(bytes: &[u8]) -> (r: String)
    ensures
        r@ == hex_of(sha256_digest(bytes@)),
{
    let d = sha256_bytes(bytes);
    hex_encode(d.as_slice())
}

/// A digest string in canonical form: 64 hexadecimal characters.
pub open spec fn is_hex_digest(s: Seq<char>) -> bool {
    s.len() == 64 && forall|i: int| 0 <= i < s.len() ==> is_ascii_hex(#[trigger] s[i])
}

/// Verify file bytes against an expected hex SHA-256 digest (surrounding
/// whitespace and case ignored).
pub fn verify_sha256(bytes: &[u8], expected_hex: &str) -> (r: Result<(), CorpusImportError>)
    ensures
        !is_hex_digest(lower_seq(trim(expected_hex@))) ==> r == Err::<(), CorpusImportError>(
            CorpusImportError::InvalidSha256Digest,
        ),
        is_hex_digest(lower_seq(trim(expected_hex@))) && hex_of(sha256_digest(bytes@)) == lower_seq(
            trim(expected_hex@),
        ) ==> r is Ok,
        is_hex_digest(lower_seq(trim(expected_hex@))) && hex_of(sha256_digest(bytes@)) != lower_seq(
            trim(expected_hex@),
        ) ==> (r matches Err(CorpusImportError::Sha256Mismatch { expected, actual }) && expected@
            == lower_seq(trim(expected_hex@)) && actual@ == hex_of(sha256_digest(bytes@))),
{
    let v = chars_of(expected_hex);
    let t = trim_vec(v.as_slice());
    let expected = lower_vec(t.as_slice());
    if expected.len() != 64 {
        return Err(CorpusImportError::InvalidSha256Digest);
    }
    let mut i: usize = 0;
    while i < expected.len()
        invariant
            expected@ == lower_seq(trim(expected_hex@)),
            expected.len() == 64,
            i <= expected.len(),
            forall|j: int| 0 <= j < i ==> is_ascii_hex(#[trigger] expected@[j]),
        decreases expected.len() - i,
    {
        let c = expected[i];
        if !(('a' <= c && c <= 'f') || ('A' <= c && c <= 'F') || ('0' <= c && c <= '9')) {
            return Err(CorpusImportError::InvalidSha256Digest);
        }
        i = i + 1;
    }
    let actual = sha256_hex(bytes);
    let av = chars_of(actual.as_str());
    if !crate::text::chars_eq(av.as_slice(), expected.as_slice()) {
        return Err(
            CorpusImportError::Sha256Mismatch {
                expected: string_of(expected.as_slice()),
                actual,
            },
        );
    }
    Ok(())
}

/// The path with the extension of its file name replaced by `redb`, as
/// `Path::with_extension("redb")` does it on a `/`-separated path: the path
/// is cut after the file stem and `.redb` appended; a path without a file
/// name is unchanged.
pub open spec fn redb_path_of(p: Seq<char>) -> Seq<char> {
    match last_comp_span(p) {
        None => p,
        Some((s, e)) => if p.subrange(s, e) == ".."@ {
            p
        } else {
            p.take(s + stem_len(p.subrange(s, e))) + ".redb"@
        },
    }
}

/// Legacy `.redb` path for a JSON ignore path: same stem, `redb` extension
/// (`vlz-ignore.json` becomes `vlz-ignore.redb`).
pub fn legacy_redb_path_for_json(json_path: &str) -> (r: String)
    ensures
        r@ == redb_path_of(json_path@),
{
    let v = chars_of(json_path);
    match last_component_span(v.as_slice()) {
        None => copy_str(json_path),
        Some((s, e)) => {
            let name = sub_vec(v.as_slice(), s, e);
            if crate::text::chars_eq_str(name.as_slice(), "..") {
                return copy_str(json_path);
            }
            let k = stem_length(name.as_slice());
            let keep = sub_vec(v.as_slice(), 0, s + k);
            assert(keep@ =~= json_path@.take(s + k));
            let mut out = string_of(keep.as_slice());
            out.append(".redb");
            out
        },
    }
}

/// A false-positive mark applies to a scan: global marks always, marks scoped
/// to a project only for a scan of that project.
pub open spec fn fp_in_scope(entry_project: Option<Seq<char>>, scan_project: Option<Seq<char>>) -> bool {
    match (entry_project, scan_project) {
        (None, _) => true,
        (Some(p), Some(s)) => p == s,
        (Some(_), None) => false,
    }
}

/// Characters of an optional string slice.
pub open spec fn opt_str_seq(o: Option<&str>) -> Option<Seq<char>> {
    match o {
        Some(p) => Some(p@),
        None => None,
    }
}

/// Ids of the entries that apply to a scan of `scan`, in order.
pub open spec fn scoped_ids(entries: Seq<(String, FpEntry)>, scan: Option<Seq<char>>) -> Seq<
    Seq<char>,
>
    decreases entries.len(),
{
    if entries.len() == 0 {
        Seq::empty()
    } else {
        let prev = scoped_ids(entries.drop_last(), scan);
        let last = entries.last();
        if fp_in_scope(opt_seq(last.1.project_id), scan) {
            prev.push(last.0@)
        } else {
            prev
        }
    }
}

/// Views of a list of strings.
pub open spec fn strings_view(v: Seq<String>) -> Seq<Seq<char>> {
    v.map_values(|s: String| s@)
}

/// CVE ids marked as false positive for `project_id`: global marks, plus the
/// marks scoped to that project (in the order of `entries`).
pub fn marked_ids_in_scope(entries: &Vec<(String, FpEntry)>, project_id: Option<&str>) -> (r: Vec<
    String,
>)
    ensures
        strings_view(r@) == scoped_ids(entries@, opt_str_seq(project_id)),
{
    let ghost scan = opt_str_seq(project_id);
    let mut out: Vec<String> = Vec::new();
    let mut k: usize = 0;
    while k < entries.len()
        invariant
            k <= entries.len(),
            scan == opt_str_seq(project_id),
            strings_view(out@) == scoped_ids(entries@.take(k as int), scan),
        decreases entries.len() - k,
    {
        let (id, entry) = &entries[k];
        let keep = match (&entry.project_id, project_id) {
            (None, _) => true,
            (Some(p), Some(s)) => str_eq(p.as_str(), s),
            (Some(_), None) => false,
        };
        proof {
            assert(entries@.take(k + 1).drop_last() =~= entries@.take(k as int));
        }
        if keep {
            out.push(copy_str(id.as_str()));
        }
        assert(strings_view(out@) =~= scoped_ids(entries@.take(k + 1), scan));
        k = k + 1;
    }
    assert(entries@.take(entries.len() as int) =~= entries@);
    out
}

} // verus!
