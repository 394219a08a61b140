//! Maps from a key (a package, or an ecosystem and normalized name) to the
//! declaration locations recorded for it, kept as an association list with
//! distinct keys.
use vstd::prelude::*;

use crate::model::{
    dedupe_sort_declarations, decls_have, decls_sorted, DeclView, Package, PackageDeclarationLocation,
};

verus! {

/// Keys of a declaration map: comparable and copyable by content.
pub trait DeclKey: View + Sized {
    /// Equality by content.
    fn key_eq(&self, other: &Self) -> (r: bool)
        ensures
            r == (self@ == other@),
    ;

    /// Copy by content.
    fn key_copy(&self) -> (r: Self)
        ensures
            r@ == self@,
    ;
}

impl DeclKey for Package {
    fn key_eq(&self, other: &Self) -> (r: bool) {
        self.same_as(other)
    }

    fn key_copy(&self) -> (r: Self) {
        self.duplicate()
    }
}

/// Values of a list of declarations.
pub open spec fn decl_views(s: Seq<PackageDeclarationLocation>) -> Seq<DeclView> {
    s.map_values(|d: PackageDeclarationLocation| d@)
}

/// The map an association list denotes (a later entry wins; keys are kept
/// distinct anyway).
pub open spec fn entries_map<K: View>(s: Seq<(K, Vec<PackageDeclarationLocation>)>) -> Map<
    K::V,
    Seq<DeclView>,
>
    decreases s.len(),
{
    if s.len() == 0 {
        Map::empty()
    } else {
        entries_map(s.drop_last()).insert(s.last().0@, decl_views(s.last().1@))
    }
}

/// Keys of an association list are distinct.
pub open spec fn keys_distinct<K: View>(s: Seq<(K, Vec<PackageDeclarationLocation>)>) -> bool {
    forall|i: int, j: int| 0 <= i < j < s.len() ==> s[i].0@ != s[j].0@
}

pub proof fn lemma_entries_map<K: View>(s: Seq<(K, Vec<PackageDeclarationLocation>)>)
    requires
        keys_distinct(s),
    ensures
        forall|i: int|
            0 <= i < s.len() ==> #[trigger] entries_map(s).contains_key(s[i].0@) && entries_map(
                s,
            )[s[i].0@] == decl_views(s[i].1@),
        forall|k: K::V|
            #[trigger] entries_map(s).contains_key(k) ==> exists|i: int|
                0 <= i < s.len() && s[i].0@ == k,
    decreases s.len(),
{
    if s.len() > 0 {
        let t = s.drop_last();
        assert(keys_distinct(t));
        lemma_entries_map(t);
        assert forall|i: int|
            0 <= i < s.len() implies #[trigger] entries_map(s).contains_key(s[i].0@) && entries_map(
                s,
            )[s[i].0@] == decl_views(s[i].1@) by {
            if i < s.len() - 1 {
                assert(t[i] == s[i]);
                assert(entries_map(t).contains_key(t[i].0@));
                assert(s[i].0@ != s[s.len() - 1].0@);
            }
        }
        assert forall|k: K::V| #[trigger] entries_map(s).contains_key(k) implies exists|i: int|
            0 <= i < s.len() && s[i].0@ == k by {
            if k != s.last().0@ {
                assert(entries_map(t).contains_key(k));
                let i = choose|i: int| 0 <= i < t.len() && t[i].0@ == k;
                assert(s[i] == t[i]);
            } else {
                assert(s[s.len() - 1].0@ == k);
            }
        }
    }
}

pub proof fn lemma_entries_map_update<K: View>(
    s: Seq<(K, Vec<PackageDeclarationLocation>)>,
    i: int,
    e: (K, Vec<PackageDeclarationLocation>),
)
    requires
        keys_distinct(s),
        0 <= i < s.len(),
        e.0@ == s[i].0@,
    ensures
        keys_distinct(s.update(i, e)),
        entries_map(s.update(i, e)) == entries_map(s).insert(e.0@, decl_views(e.1@)),
{
    let u = s.update(i, e);
    lemma_entries_map(s);
    lemma_entries_map(u);
    assert(keys_distinct(u));
    let m1 = entries_map(u);
    let m2 = entries_map(s).insert(e.0@, decl_views(e.1@));
    assert(u[i] == e);
    assert forall|k: K::V| m1.contains_key(k) <==> m2.contains_key(k) by {
        if m1.contains_key(k) {
            let j = choose|j: int| 0 <= j < u.len() && u[j].0@ == k;
            if j != i {
                assert(u[j] == s[j]);
                assert(entries_map(s).contains_key(s[j].0@));
            }
        }
        if m2.contains_key(k) && k != e.0@ {
            assert(entries_map(s).contains_key(k));
            let j = choose|j: int| 0 <= j < s.len() && s[j].0@ == k;
            assert(u[j] == s[j]);
            assert(m1.contains_key(u[j].0@));
        }
        if k == e.0@ {
            assert(m1.contains_key(u[i].0@));
        }
    }
    assert forall|k: K::V| m1.contains_key(k) implies m1[k] == m2[k] by {
        let j = choose|j: int| 0 <= j < u.len() && u[j].0@ == k;
        assert(m1.contains_key(u[j].0@));
        if j != i {
            assert(u[j] == s[j]);
            assert(entries_map(s).contains_key(s[j].0@));
        }
    }
    assert(m1 =~= m2);
}

/// A map from keys to sorted, duplicate-free declaration lists.
#[derive(Debug)]
pub struct DeclMap<K: DeclKey> {
    entries: Vec<(K, Vec<PackageDeclarationLocation>)>,
}

impl<K: DeclKey> View for DeclMap<K> {
    type V = Map<K::V, Seq<DeclView>>;

    closed spec fn view(&self) -> Map<K::V, Seq<DeclView>> {
        entries_map(self.entries@)
    }
}

impl<K: DeclKey> DeclMap<K> {
    #[verifier::type_invariant]
    closed spec fn wf(self) -> bool {
        keys_distinct(self.entries@)
    }

    /// An empty map.
    pub fn new() -> (r: Self)
        ensures
            r@ == Map::<K::V, Seq<DeclView>>::empty(),
    {
        DeclMap { entries: Vec::new() }
    }

    /// Number of keys.
    pub fn len(&self) -> (r: usize)
        ensures
            r == self@.dom().len(),
    {
        proof {
            use_type_invariant(self);
            lemma_entries_len(self.entries@);
        }
        self.entries.len()
    }

    /// Whether the map has no keys.
    pub fn is_empty(&self) -> (r: bool)
        ensures
            r == (self@.dom().len() == 0),
    {
        self.len() == 0
    }

    fn position(&self, key: &K) -> (r: Option<usize>)
        ensures
            match r {
                Some(i) => i < self.entries@.len() && self.entries@[i as int].0@ == key@,
                None => forall|i: int| 0 <= i < self.entries@.len() ==> self.entries@[i].0@ != key@,
            },
    {
        let mut i: usize = 0;
        while i < self.entries.len()
            invariant
                i <= self.entries@.len(),
                forall|j: int| 0 <= j < i ==> self.entries@[j].0@ != key@,
            decreases self.entries@.len() - i,
        {
            if self.entries[i].0.key_eq(key) {
                return Some(i);
            }
            i = i + 1;
        }
        None
    }

    /// The declarations recorded for `key`.
    pub fn get(&self, key: &K) -> (r: Option<&Vec<PackageDeclarationLocation>>)
        ensures
            match r {
                Some(v) => self@.contains_key(key@) && decl_views(v@) == self@[key@],
                None => !self@.contains_key(key@),
            },
    {
        proof {
            use_type_invariant(self);
            lemma_entries_map(self.entries@);
        }
        match self.position(key) {
            Some(i) => {
                proof {
                    assert(entries_map(self.entries@).contains_key(self.entries@[i as int].0@));
                }
                Some(&self.entries[i].1)
            },
            None => None,
        }
    }

    /// Set the declarations of `key` (replacing what was there).
    pub fn insert(&mut self, key: K, value: Vec<PackageDeclarationLocation>)
        ensures
            final(self)@ == old(self)@.insert(key@, decl_views(value@)),
    {
        proof {
            use_type_invariant(&*self);
        }
        let found = self.position(&key);
        let mut entries: Vec<(K, Vec<PackageDeclarationLocation>)> = Vec::new();
        std::mem::swap(&mut entries, &mut self.entries);
        let ghost before = entries@;
        match found {
            Some(i) => {
                let ghost e = (key, value);
                proof {
                    lemma_entries_map_update(before, i as int, e);
                }
                entries.set(i, (key, value));
            },
            None => {
                let ghost pushed = before.push((key, value));
                proof {
                    assert forall|a: int, b: int| 0 <= a < b < pushed.len() implies pushed[a].0@
                        != pushed[b].0@ by {
                        assert(pushed[a] == before[a]);
                        if b < before.len() {
                            assert(pushed[b] == before[b]);
                        }
                    }
                    assert(pushed.drop_last() =~= before);
                }
                entries.push((key, value));
            },
        }
        self.entries = entries;
    }

    /// The entries of the map (distinct keys), consuming it.
    pub fn into_entries(self) -> (r: Vec<(K, Vec<PackageDeclarationLocation>)>)
        ensures
            keys_distinct(r@),
            entries_map(r@) == self@,
    {
        proof {
            use_type_invariant(&self);
        }
        self.entries
    }

    /// Add declarations to those of `key`, keeping the list sorted and free
    /// of duplicates.
    pub fn merge_into(&mut self, key: K, more: Vec<PackageDeclarationLocation>)
        ensures
            final(self)@.dom() == old(self)@.dom().insert(key@),
            forall|k: K::V| k != key@ && old(self)@.contains_key(k) ==> final(self)@[k] == old(
                self,
            )@[k],
            decl_views_sorted(final(self)@[key@]),
            forall|y: DeclView|
                #[trigger] decl_views_have(final(self)@[key@], y) <==> ((old(self)@.contains_key(key@)
                    && decl_views_have(old(self)@[key@], y)) || decl_views_have(
                    decl_views(more@),
                    y,
                )),
    {
        proof {
            use_type_invariant(&*self);
            lemma_entries_map(self.entries@);
        }
        let mut combined: Vec<PackageDeclarationLocation> = Vec::new();
        match self.get(&key) {
            Some(existing) => {
                let mut i: usize = 0;
                while i < existing.len()
                    invariant
                        i <= existing.len(),
                        decl_views(combined@) == decl_views(existing@.take(i as int)),
                    decreases existing.len() - i,
                {
                    let ghost old_c = combined@;
                    combined.push(existing[i].duplicate());
                    proof {
                        lemma_decl_views_push(old_c, combined@.last());
                        assert(combined@ == old_c.push(combined@.last()));
                        assert(existing@.take(i + 1) =~= existing@.take(i as int).push(existing@[i as int]));
                        lemma_decl_views_push(existing@.take(i as int), existing@[i as int]);
                    }
                    i = i + 1;
                }
                assert(existing@.take(existing.len() as int) =~= existing@);
            },
            None => {},
        }
        let ghost prefix = decl_views(combined@);
        let mut j: usize = 0;
        while j < more.len()
            invariant
                j <= more.len(),
                decl_views(combined@) == prefix + decl_views(more@.take(j as int)),
            decreases more.len() - j,
        {
            let ghost old_c = combined@;
            combined.push(more[j].duplicate());
            proof {
                lemma_decl_views_push(old_c, combined@.last());
                assert(combined@ == old_c.push(combined@.last()));
                assert(more@.take(j + 1) =~= more@.take(j as int).push(more@[j as int]));
                lemma_decl_views_push(more@.take(j as int), more@[j as int]);
                assert(decl_views(combined@) =~= prefix + decl_views(more@.take(j + 1)));
            }
            j = j + 1;
        }
        assert(more@.take(more.len() as int) =~= more@);
        let ghost unsorted = combined@;
        dedupe_sort_declarations(&mut combined);
        proof {
            lemma_views_of_sorted(combined@);
            assert forall|y: DeclView|
                decl_views_have(decl_views(combined@), y) <==> ((self@.contains_key(key@)
                    && decl_views_have(self@[key@], y)) || decl_views_have(decl_views(more@), y)) by {
                lemma_views_have(combined@, y);
                lemma_views_have(unsorted, y);
                lemma_concat_have(prefix, decl_views(more@), y);
                if !self@.contains_key(key@) {
                    assert(prefix =~= Seq::<DeclView>::empty());
                }
            }
        }
        self.insert(key, combined);
    }
}

pub proof fn lemma_decl_views_push(s: Seq<PackageDeclarationLocation>, x: PackageDeclarationLocation)
    ensures
        decl_views(s.push(x)) == decl_views(s).push(x@),
{
    assert(decl_views(s.push(x)) =~= decl_views(s).push(x@));
}

/// Number of keys of a distinct-key list.
pub proof fn lemma_entries_len<K: View>(s: Seq<(K, Vec<PackageDeclarationLocation>)>)
    requires
        keys_distinct(s),
    ensures
        entries_map(s).dom().len() == s.len(),
        entries_map(s).dom().finite(),
    decreases s.len(),
{
    if s.len() > 0 {
        let t = s.drop_last();
        assert(keys_distinct(t));
        lemma_entries_len(t);
        lemma_entries_map(t);
        if entries_map(t).contains_key(s.last().0@) {
            let i = choose|i: int| 0 <= i < t.len() && t[i].0@ == s.last().0@;
            assert(s[i] == t[i]);
        }
    }
}

/// Strictly increasing declaration values.
pub open spec fn decl_views_sorted(s: Seq<DeclView>) -> bool {
    forall|i: int, j: int| 0 <= i < j < s.len() ==> crate::model::decl_lt(s[i], s[j])
}

/// `y` occurs among the declaration values.
pub open spec fn decl_views_have(s: Seq<DeclView>, y: DeclView) -> bool {
    exists|i: int| 0 <= i < s.len() && s[i] == y
}

pub proof fn lemma_views_of_sorted(s: Seq<PackageDeclarationLocation>)
    requires
        decls_sorted(s),
    ensures
        decl_views_sorted(decl_views(s)),
{
}

pub proof fn lemma_views_have(s: Seq<PackageDeclarationLocation>, y: DeclView)
    ensures
        decls_have(s, y) <==> decl_views_have(decl_views(s), y),
{
    if decls_have(s, y) {
        let i = choose|i: int| 0 <= i < s.len() && s[i]@ == y;
        assert(decl_views(s)[i] == y);
    }
}

pub proof fn lemma_concat_have(a: Seq<DeclView>, b: Seq<DeclView>, y: DeclView)
    ensures
        decl_views_have(a + b, y) <==> (decl_views_have(a, y) || decl_views_have(b, y)),
{
    if decl_views_have(a + b, y) {
        let i = choose|i: int| 0 <= i < (a + b).len() && (a + b)[i] == y;
        if i >= a.len() {
            assert(b[i - a.len()] == y);
        }
    }
    if decl_views_have(b, y) {
        let i = choose|i: int| 0 <= i < b.len() && b[i] == y;
        assert((a + b)[a.len() + i] == y);
    }
    if decl_views_have(a, y) {
        let i = choose|i: int| 0 <= i < a.len() && a[i] == y;
        assert((a + b)[i] == y);
    }
}

/// The declarations of a list in declaration order, each once.
pub open spec fn canonical_decls(d: Seq<PackageDeclarationLocation>) -> Seq<DeclView> {
    choose|v: Seq<DeclView>| decl_views_sorted(v) && forall|y: DeclView| v.contains(y) <==> crate::model::decls_have(d, y)
}

/// Two strictly increasing lists with the same elements are equal.
pub proof fn lemma_sorted_views_unique(a: Seq<DeclView>, b: Seq<DeclView>)
    requires
        decl_views_sorted(a),
        decl_views_sorted(b),
        forall|y: DeclView| a.contains(y) <==> b.contains(y),
    ensures
        a == b,
    decreases a.len(),
{
    if a.len() == 0 {
        if b.len() > 0 {
            assert(b.contains(b[0]));
        }
        assert(a =~= b);
    } else {
        assert(a.contains(a[0]));
        assert(b.len() > 0);
        assert(b.contains(b[0]));
        let k = choose|k: int| 0 <= k < b.len() && b[k] == a[0];
        let j = choose|j: int| 0 <= j < a.len() && a[j] == b[0];
        crate::model::lemma_decl_lt_order(a[0], b[0], a[0]);
        if k > 0 && j > 0 {
            assert(crate::model::decl_lt(b[0], b[k]));
            assert(crate::model::decl_lt(a[0], a[j]));
        }
        assert(a[0] == b[0]);
        let a1 = a.drop_first();
        let b1 = b.drop_first();
        assert forall|y: DeclView| a1.contains(y) implies b1.contains(y) by {
            let i = choose|i: int| 0 <= i < a1.len() && a1[i] == y;
            assert(a.contains(y)) by {
                assert(a[i + 1] == y);
            }
            let m = choose|m: int| 0 <= m < b.len() && b[m] == y;
            assert(crate::model::decl_lt(a[0], a[i + 1]));
            crate::model::lemma_decl_lt_order(y, y, y);
            assert(m != 0);
            assert(b1[m - 1] == y);
        }
        assert forall|y: DeclView| b1.contains(y) implies a1.contains(y) by {
            let i = choose|i: int| 0 <= i < b1.len() && b1[i] == y;
            assert(b.contains(y)) by {
                assert(b[i + 1] == y);
            }
            let m = choose|m: int| 0 <= m < a.len() && a[m] == y;
            assert(crate::model::decl_lt(b[0], b[i + 1]));
            crate::model::lemma_decl_lt_order(y, y, y);
            assert(m != 0);
            assert(a1[m - 1] == y);
        }
        assert(decl_views_sorted(a1)) by {
            assert forall|i: int, j: int| 0 <= i < j < a1.len() implies crate::model::decl_lt(a1[i], a1[j]) by {
                assert(crate::model::decl_lt(a[i + 1], a[j + 1]));
            }
        }
        assert(decl_views_sorted(b1)) by {
            assert forall|i: int, j: int| 0 <= i < j < b1.len() implies crate::model::decl_lt(b1[i], b1[j]) by {
                assert(crate::model::decl_lt(b[i + 1], b[j + 1]));
            }
        }
        lemma_sorted_views_unique(a1, b1);
        assert(a =~= seq![a[0]] + a1);
        assert(b =~= seq![b[0]] + b1);
    }
}

/// A sorted, deduplicated list of declarations is the canonical order of
/// any list with the same declaration values.
pub proof fn lemma_canonical_decls(sorted: Seq<PackageDeclarationLocation>, d: Seq<PackageDeclarationLocation>)
    requires
        crate::model::decls_sorted(sorted),
        forall|y: DeclView| crate::model::decls_have(sorted, y) <==> crate::model::decls_have(d, y),
    ensures
        decl_views(sorted) == canonical_decls(d),
{
    let v = decl_views(sorted);
    assert(decl_views_sorted(v));
    assert forall|y: DeclView| v.contains(y) <==> crate::model::decls_have(d, y) by {
        if v.contains(y) {
            let i = choose|i: int| 0 <= i < v.len() && v[i] == y;
            assert(sorted[i]@ == y);
        }
        if crate::model::decls_have(sorted, y) {
            let i = choose|i: int| 0 <= i < sorted.len() && sorted[i]@ == y;
            assert(v[i] == y);
        }
    }
    let c = canonical_decls(d);
    lemma_sorted_views_unique(v, c);
}

} // verus!
