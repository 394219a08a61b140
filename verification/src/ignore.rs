//! The false-positive (ignore) marks: a table from CVE id to the mark,
//! with the operations the ignore database performs on it.
use vstd::prelude::*;

use crate::db::fp_in_scope;
use crate::model::{FpEntry, FpView};
use crate::text::str_eq;

verus! {

/// Schema version of the ignore file document.
pub const IGNORE_FILE_SCHEMA_VERSION: u32 = 1;

/// Default ignore file name.
pub const DEFAULT_IGNORE_FILE_NAME: &'static str = "vlz-ignore.json";

/// No two entries share an id.
pub open spec fn ids_distinct(s: Seq<(String, FpEntry)>) -> bool {
    forall|i: int, j: int| 0 <= i < j < s.len() ==> s[i].0@ != s[j].0@
}

/// The map an entry list denotes (a later entry for an id wins).
pub open spec fn entries_map(s: Seq<(String, FpEntry)>) -> Map<Seq<char>, FpView>
    decreases s.len(),
{
    if s.len() == 0 {
        Map::empty()
    } else {
        entries_map(s.drop_last()).insert(s.last().0@, s.last().1@)
    }
}

/// Some entry has id `k`.
pub open spec fn has_id(s: Seq<(String, FpEntry)>, k: Seq<char>) -> bool {
    exists|i: int| 0 <= i < s.len() && #[trigger] s[i].0@ == k
}

proof fn lemma_entries_dom(s: Seq<(String, FpEntry)>, k: Seq<char>)
    ensures
        entries_map(s).dom().contains(k) <==> has_id(s, k),
    decreases s.len(),
{
    if s.len() > 0 {
        let s1 = s.drop_last();
        lemma_entries_dom(s1, k);
        lemma_has_id_push(s1, s.last(), k);
        assert(s1.push(s.last()) =~= s);
    }
}

proof fn lemma_has_id_push(s: Seq<(String, FpEntry)>, e: (String, FpEntry), k: Seq<char>)
    ensures
        has_id(s.push(e), k) <==> (has_id(s, k) || e.0@ == k),
{
    if has_id(s.push(e), k) {
        let i = choose|i: int| 0 <= i < s.push(e).len() && #[trigger] s.push(e)[i].0@ == k;
        if i < s.len() {
            assert(s[i].0@ == k);
        }
    }
    if has_id(s, k) {
        let i = choose|i: int| 0 <= i < s.len() && #[trigger] s[i].0@ == k;
        assert(s.push(e)[i].0@ == k);
    }
    if e.0@ == k {
        assert(s.push(e)[s.len() as int].0@ == k);
    }
}

/// The marks: each CVE id at most once.
pub struct IgnoreTable {
    entries: Vec<(String, FpEntry)>,
}

impl View for IgnoreTable {
    type V = Map<Seq<char>, FpView>;

    closed spec fn view(&self) -> Map<Seq<char>, FpView> {
        entries_map(self.entries@)
    }
}

/// The ids of the marks that apply to a scan of `project`: marks without a
/// project, and marks of that project.
pub open spec fn ids_in_scope(m: Map<Seq<char>, FpView>, project: Option<Seq<char>>) -> Set<Seq<char>> {
    Set::new(|k: Seq<char>| m.dom().contains(k) && fp_in_scope(m[k].project_id, project))
}

proof fn lemma_scoped_has_id(s: Seq<(String, FpEntry)>, scan: Option<Seq<char>>, k: Seq<char>)
    ensures
        crate::db::scoped_ids(s, scan).contains(k) ==> has_id(s, k),
    decreases s.len(),
{
    if s.len() > 0 {
        let s1 = s.drop_last();
        lemma_scoped_has_id(s1, scan, k);
        lemma_has_id_push(s1, s.last(), k);
        assert(s1.push(s.last()) =~= s);
    }
}

/// The scoped ids of distinct entries: each once, exactly the ids in scope.
proof fn lemma_scoped_ids(s: Seq<(String, FpEntry)>, scan: Option<Seq<char>>)
    requires
        ids_distinct(s),
    ensures
        forall|k: Seq<char>| crate::db::scoped_ids(s, scan).contains(k) <==> ids_in_scope(entries_map(s), scan).contains(k),
        forall|a: int, b: int|
            0 <= a < b < crate::db::scoped_ids(s, scan).len() ==> crate::db::scoped_ids(s, scan)[a]
                != crate::db::scoped_ids(s, scan)[b],
    decreases s.len(),
{
    if s.len() > 0 {
        let s1 = s.drop_last();
        let last = s.last();
        assert forall|a: int, b: int| 0 <= a < b < s1.len() implies s1[a].0@ != s1[b].0@ by {
            assert(s1[a] == s[a] && s1[b] == s[b]);
        }
        lemma_scoped_ids(s1, scan);
        let prev = crate::db::scoped_ids(s1, scan);
        assert(!has_id(s1, last.0@)) by {
            if has_id(s1, last.0@) {
                let a = choose|a: int| 0 <= a < s1.len() && #[trigger] s1[a].0@ == last.0@;
                assert(s[a].0@ != s[s.len() - 1].0@);
            }
        }
        lemma_scoped_has_id(s1, scan, last.0@);
        assert forall|k: Seq<char>| crate::db::scoped_ids(s, scan).contains(k) <==> ids_in_scope(entries_map(s), scan).contains(k) by {
            if k != last.0@ {
                if crate::db::scoped_ids(s, scan).contains(k) {
                    let a = choose|a: int| 0 <= a < crate::db::scoped_ids(s, scan).len() && crate::db::scoped_ids(s, scan)[a] == k;
                    assert(prev[a] == k);
                }
                if prev.contains(k) {
                    let a = choose|a: int| 0 <= a < prev.len() && prev[a] == k;
                    assert(crate::db::scoped_ids(s, scan)[a] == k);
                }
            } else {
                if prev.contains(k) {
                    assert(false);
                }
                if fp_in_scope(crate::model::opt_seq(last.1.project_id), scan) {
                    assert(crate::db::scoped_ids(s, scan).last() == k);
                } else if crate::db::scoped_ids(s, scan).contains(k) {
                    let a = choose|a: int| 0 <= a < crate::db::scoped_ids(s, scan).len() && crate::db::scoped_ids(s, scan)[a] == k;
                    assert(prev[a] == k);
                }
            }
        }
    }
}

/// The entries without the one for `id`, in order.
fn without(entries: &Vec<(String, FpEntry)>, id: &str) -> (r: Vec<(String, FpEntry)>)
    requires
        ids_distinct(entries@),
    ensures
        ids_distinct(r@),
        entries_map(r@) == entries_map(entries@).remove(id@),
        !has_id(r@, id@),
{
    let mut out: Vec<(String, FpEntry)> = Vec::new();
    let mut i: usize = 0;
    while i < entries.len()
        invariant
            i <= entries.len(),
            ids_distinct(entries@),
            ids_distinct(out@),
            entries_map(out@) =~= entries_map(entries@.take(i as int)).remove(id@),
            forall|k: Seq<char>| has_id(out@, k) ==> has_id(entries@.take(i as int), k),
            !has_id(out@, id@),
        decreases entries.len() - i,
    {
        let ghost pre = entries@.take(i as int);
        let ghost cur = entries@[i as int];
        assert(entries@.take(i + 1).drop_last() =~= pre);
        assert(entries@.take(i + 1).last() == cur);
        proof {
            assert forall|k: Seq<char>| has_id(entries@.take(i + 1), k) <== has_id(pre, k) by {
                if has_id(pre, k) {
                    let a = choose|a: int| 0 <= a < pre.len() && #[trigger] pre[a].0@ == k;
                    assert(entries@.take(i + 1)[a].0@ == k);
                }
            }
            assert(!has_id(pre, cur.0@)) by {
                if has_id(pre, cur.0@) {
                    let a = choose|a: int| 0 <= a < pre.len() && #[trigger] pre[a].0@ == cur.0@;
                    assert(entries@[a].0@ != entries@[i as int].0@);
                }
            }
        }
        if !str_eq(entries[i].0.as_str(), id) {
            let ghost before = out@;
            let e = (String::from_str(entries[i].0.as_str()), entries[i].1.duplicate());
            out.push(e);
            proof {
                assert(out@ == before.push(e));
                assert(out@.drop_last() =~= before);
                assert(entries_map(out@) == entries_map(before).insert(e.0@, e.1@));
                assert(entries_map(entries@.take(i + 1)) == entries_map(pre).insert(cur.0@, cur.1@));
                assert(entries_map(out@) =~= entries_map(entries@.take(i + 1)).remove(id@));
                assert(!has_id(before, cur.0@));
                assert forall|a: int, b: int| 0 <= a < b < out@.len() implies out@[a].0@ != out@[b].0@ by {
                    if b == before.len() {
                        if out@[a].0@ == out@[b].0@ {
                            assert(has_id(before, cur.0@)) by {
                                assert(before[a].0@ == cur.0@);
                            }
                        }
                    }
                }
                lemma_has_id_push(before, e, id@);
                assert forall|k: Seq<char>| has_id(out@, k) implies has_id(entries@.take(i + 1), k) by {
                    lemma_has_id_push(before, e, k);
                    if k == cur.0@ {
                        assert(entries@.take(i + 1)[i as int].0@ == k);
                    }
                }
            }
        } else {
            proof {
                assert(entries_map(entries@.take(i + 1)) == entries_map(pre).insert(cur.0@, cur.1@));
                assert(entries_map(out@) =~= entries_map(entries@.take(i + 1)).remove(id@));
                assert forall|k: Seq<char>| has_id(out@, k) implies has_id(entries@.take(i + 1), k) by {}
            }
        }
        i = i + 1;
    }
    assert(entries@.take(entries.len() as int) =~= entries@);
    out
}

impl IgnoreTable {
    #[verifier::type_invariant]
    spec fn wf(self) -> bool {
        ids_distinct(self.entries@)
    }

    /// No marks.
    pub fn new() -> (r: Self)
        ensures
            r@ == Map::<Seq<char>, FpView>::empty(),
    {
        IgnoreTable { entries: Vec::new() }
    }

    /// Mark `id` with `entry`, replacing an earlier mark of it.
    pub fn mark(&mut self, id: &str, entry: FpEntry)
        ensures
            final(self)@ == old(self)@.insert(id@, entry@),
    {
        proof {
            use_type_invariant(&*self);
        }
        let mut rest = without(&self.entries, id);
        let ghost before = rest@;
        let e = (String::from_str(id), entry);
        rest.push(e);
        proof {
            assert(rest@.drop_last() =~= before);
            assert forall|a: int, b: int| 0 <= a < b < rest@.len() implies rest@[a].0@ != rest@[b].0@ by {
                if b == before.len() && rest@[a].0@ == rest@[b].0@ {
                    assert(has_id(before, id@)) by {
                        assert(before[a].0@ == id@);
                    }
                }
            }
            assert(entries_map(rest@) =~= old(self)@.insert(id@, entry@));
        }
        self.entries = rest;
    }

    /// Remove the mark of `id`, if any.
    pub fn unmark(&mut self, id: &str)
        ensures
            final(self)@ == old(self)@.remove(id@),
    {
        proof {
            use_type_invariant(&*self);
        }
        let rest = without(&self.entries, id);
        self.entries = rest;
    }

    /// `id` is marked.
    pub fn is_marked(&self, id: &str) -> (r: bool)
        ensures
            r == self@.dom().contains(id@),
    {
        proof {
            use_type_invariant(self);
        }
        let mut i: usize = 0;
        while i < self.entries.len()
            invariant
                i <= self.entries.len(),
                forall|a: int| 0 <= a < i ==> (#[trigger] self.entries@[a]).0@ != id@,
            decreases self.entries.len() - i,
        {
            if str_eq(self.entries[i].0.as_str(), id) {
                proof {
                    lemma_entries_dom(self.entries@, id@);
                    assert(self.entries@[i as int].0@ == id@);
                }
                return true;
            }
            i = i + 1;
        }
        proof {
            lemma_entries_dom(self.entries@, id@);
        }
        false
    }

    /// The ids of the marks that apply to a scan of `project_id`, each once.
    pub fn marked_ids(&self, project_id: Option<&str>) -> (r: Vec<String>)
        ensures
            forall|k: Seq<char>|
                r@.map_values(|s: String| s@).contains(k) <==> ids_in_scope(
                    self@,
                    crate::db::opt_str_seq(project_id),
                ).contains(k),
            forall|a: int, b: int| 0 <= a < b < r@.len() ==> r@[a]@ != r@[b]@,
    {
        proof {
            use_type_invariant(self);
        }
        let ids = crate::db::marked_ids_in_scope(&self.entries, project_id);
        proof {
            let scan = crate::db::opt_str_seq(project_id);
            lemma_scoped_ids(self.entries@, scan);
            assert(ids@.map_values(|s: String| s@) =~= crate::db::strings_view(ids@));
            assert forall|a: int, b: int| 0 <= a < b < ids@.len() implies ids@[a]@ != ids@[b]@ by {
                assert(crate::db::strings_view(ids@)[a] == ids@[a]@);
                assert(crate::db::strings_view(ids@)[b] == ids@[b]@);
            }
        }
        ids
    }
}

impl IgnoreTable {
    /// The table of a list of marks (a later mark of an id wins).
    pub fn from_entries(entries: Vec<(String, FpEntry)>) -> (r: Self)
        ensures
            r@ == entries_map(entries@),
    {
        let mut t = IgnoreTable::new();
        let mut i: usize = 0;
        while i < entries.len()
            invariant
                i <= entries.len(),
                t@ == entries_map(entries@.take(i as int)),
            decreases entries.len() - i,
        {
            t.mark(entries[i].0.as_str(), entries[i].1.duplicate());
            assert(entries@.take(i + 1).drop_last() =~= entries@.take(i as int));
            i = i + 1;
        }
        assert(entries@.take(entries.len() as int) =~= entries@);
        t
    }

    /// The marks, each id once (for writing the ignore document).
    pub fn entries(&self) -> (r: &Vec<(String, FpEntry)>)
        ensures
            entries_map(r@) == self@,
            ids_distinct(r@),
    {
        proof {
            use_type_invariant(self);
        }
        &self.entries
    }
}

/// A mark is read back: after marking `id`, it is marked with that entry,
/// and every other id keeps its mark (or its absence).
pub proof fn lemma_mark_read_back(t: Map<Seq<char>, FpView>, id: Seq<char>, e: FpView, other: Seq<char>)
    requires
        other != id,
    ensures
        t.insert(id, e).dom().contains(id),
        t.insert(id, e)[id] == e,
        t.insert(id, e).dom().contains(other) == t.dom().contains(other),
        t.dom().contains(other) ==> t.insert(id, e)[other] == t[other],
{
}

/// Unmarking removes exactly the one mark: afterwards `id` is not marked and
/// every other id keeps its mark (or its absence).
pub proof fn lemma_unmark_read_back(t: Map<Seq<char>, FpView>, id: Seq<char>, other: Seq<char>)
    requires
        other != id,
    ensures
        !t.remove(id).dom().contains(id),
        t.remove(id).dom().contains(other) == t.dom().contains(other),
        t.dom().contains(other) ==> t.remove(id)[other] == t[other],
{
}

/// Marking then unmarking an id that was not marked leaves the marks as
/// they were.
pub proof fn lemma_mark_unmark_round_trip(t: Map<Seq<char>, FpView>, id: Seq<char>, e: FpView)
    requires
        !t.dom().contains(id),
    ensures
        t.insert(id, e).remove(id) == t,
{
    assert(t.insert(id, e).remove(id) =~= t);
}

/// A global mark (no project) applies to every scan; a project mark applies
/// to scans of that project only.
pub proof fn lemma_scope_of_marks(t: Map<Seq<char>, FpView>, id: Seq<char>, scan: Option<Seq<char>>)
    requires
        t.dom().contains(id),
    ensures
        t[id].project_id is None ==> ids_in_scope(t, scan).contains(id),
        t[id].project_id matches Some(p) ==> (ids_in_scope(t, scan).contains(id) <==> scan == Some(p)),
{
}

} // verus!
