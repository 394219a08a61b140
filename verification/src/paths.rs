//! `/`-separated paths as character sequences: the last component (what
//! `Path::file_name` yields) and the file stem.
use vstd::prelude::*;
use vstd::string::*;

use crate::text::{
    chars_eq_str, chars_of, lemma_last_index_of, last_index_of, rfind_char, rsplit_once,
    string_of, sub_vec,
};

verus! {

/// Start and end of the last normal component of a path: trailing `/` and
/// `.` components are skipped; `None` when no component is left.
pub open spec fn last_comp_span(p: Seq<char>) -> Option<(int, int)>
    decreases p.len(),
{
    if p.len() == 0 {
        None
    } else if p.last() == '/' {
        last_comp_span(p.drop_last())
    } else {
        let start = last_index_of(p, '/') + 1;
        if p.skip(start) == "."@ {
            if start == 0 {
                None
            } else {
                proof {
                    lemma_last_index_of(p, '/');
                }
                last_comp_span(p.take(start - 1))
            }
        } else {
            Some((start, p.len() as int))
        }
    }
}

pub proof fn lemma_last_comp_span(p: Seq<char>)
    ensures
        last_comp_span(p) matches Some((s, e)) ==> 0 <= s < e <= p.len() && forall|i: int|
            s <= i < e ==> p[i] != '/',
    decreases p.len(),
{
    if p.len() > 0 {
        if p.last() == '/' {
            lemma_last_comp_span(p.drop_last());
            assert forall|i: int| 0 <= i < p.len() - 1 implies p.drop_last()[i] == p[i] by {}
        } else {
            lemma_last_index_of(p, '/');
            let start = last_index_of(p, '/') + 1;
            if p.skip(start) == "."@ {
                if start != 0 {
                    lemma_last_comp_span(p.take(start - 1));
                    assert forall|i: int| 0 <= i < start - 1 implies p.take(start - 1)[i]
                        == p[i] by {}
                }
            }
        }
    }
}

/// File name of a path (`Path::file_name`): the last component unless it is
/// `..`.
pub open spec fn file_name_of(p: Seq<char>) -> Option<Seq<char>> {
    match last_comp_span(p) {
        None => None,
        Some((s, e)) => if p.subrange(s, e) == ".."@ {
            None
        } else {
            Some(p.subrange(s, e))
        },
    }
}

/// Span of the last normal component of a path held as characters.
pub fn last_component_span(p: &[char]) -> (r: Option<(usize, usize)>)
    ensures
        match last_comp_span(p@) {
            Some((s, e)) => r == Some((s as usize, e as usize)) && 0 <= s < e <= p.len(),
            None => r is None,
        },
    decreases p.len(),
{
    proof {
        lemma_last_comp_span(p@);
    }
    if p.len() == 0 {
        return None;
    }
    if p[p.len() - 1] == '/' {
        let q = sub_vec(p, 0, p.len() - 1);
        assert(q@ =~= p@.drop_last());
        return last_component_span(q.as_slice());
    }
    let start: usize = match rfind_char(p, '/') {
        Some(i) => i + 1,
        None => 0,
    };
    let tail = sub_vec(p, start, p.len());
    assert(tail@ =~= p@.skip(start as int));
    if chars_eq_str(tail.as_slice(), ".") {
        if start == 0 {
            return None;
        }
        proof {
            lemma_last_index_of(p@, '/');
        }
        let q = sub_vec(p, 0, start - 1);
        assert(q@ =~= p@.take(start - 1));
        return last_component_span(q.as_slice());
    }
    Some((start, p.len()))
}

/// File name of a path held as characters.
pub fn file_name_chars(p: &[char]) -> (r: Option<Vec<char>>)
    ensures
        match file_name_of(p@) {
            Some(n) => r matches Some(v) && v@ == n,
            None => r is None,
        },
{
    match last_component_span(p) {
        None => None,
        Some((s, e)) => {
            let name = sub_vec(p, s, e);
            if chars_eq_str(name.as_slice(), "..") {
                None
            } else {
                Some(name)
            }
        },
    }
}

/// File name of a `/`-separated path (`Path::file_name`).
pub fn file_name_str(p: &str) -> (r: Option<String>)
    ensures
        match file_name_of(p@) {
            Some(n) => r matches Some(s) && s@ == n,
            None => r is None,
        },
{
    let v = chars_of(p);
    match file_name_chars(v.as_slice()) {
        Some(n) => Some(string_of(n.as_slice())),
        None => None,
    }
}

/// Length of the file stem of a file name (`Path::file_stem`): up to the
/// last `.`, unless that `.` starts the name.
pub open spec fn stem_len(name: Seq<char>) -> int {
    match rsplit_once(name, '.') {
        Some((stem, _)) => if stem.len() == 0 {
            name.len() as int
        } else {
            stem.len() as int
        },
        None => name.len() as int,
    }
}

/// Length of the file stem of a file name.
pub fn stem_length(name: &[char]) -> (r: usize)
    ensures
        r == stem_len(name@),
        r <= name.len(),
{
    match rfind_char(name, '.') {
        Some(i) => {
            proof {
                lemma_last_index_of(name@, '.');
            }
            if i == 0 {
                name.len()
            } else {
                i
            }
        },
        None => name.len(),
    }
}

} // verus!
