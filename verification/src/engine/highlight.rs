//! Which snippet a search hit shows.
use vstd::prelude::*;
use crate::text::{contains_seq, occurs_at, chars_of};

verus! {

broadcast use vstd::string::group_string_axioms;

/// Whether a snippet marks a match: it contains `<em>`.
pub fn has_highlight(html: &str) -> (b: bool)
    ensures
        b == contains_seq(html@, "<em>"@),
{
    let v = chars_of(html);
    let pat = chars_of("<em>");
    let n = v.len();
    let m = pat.len();
    if m > n {
        proof {
            assert forall|i: int| !occurs_at(v@, pat@, i) by {}
        }
        return false;
    }
    let mut i: usize = 0;
    while i <= n - m
        invariant
            v@ == html@,
            pat@ == "<em>"@,
            m == pat@.len(),
            n == v@.len(),
            m <= n,
            i <= n - m + 1,
            forall|j: int| 0 <= j < i ==> !occurs_at(v@, pat@, j),
        decreases n - i,
    {
        let mut k: usize = 0;
        while k < m && v[i + k] == pat[k]
            invariant
                k <= m,
                i + m <= n,
                n == v@.len(),
                m == pat@.len(),
                forall|t: int| 0 <= t < k ==> v@[i + t] == pat@[t],
            decreases m - k,
        {
            k += 1;
        }
        if k == m {
            assert(v@.subrange(i as int, i + m) =~= pat@);
            assert(occurs_at(v@, pat@, i as int));
            return true;
        }
        assert(v@.subrange(i as int, i + m)[k as int] != pat@[k as int]);
        i += 1;
    }
    assert forall|j: int| !occurs_at(v@, pat@, j) by {
        if 0 <= j && j + m <= n {
            assert(j < i);
        }
    }
    false
}

/// The snippet of one field: none when the generator gives empty text.
pub fn field_snippet(html: String) -> (r: Option<String>)
    ensures
        r matches Some(s) ==> s@ == html@ && html@.len() > 0,
        r is None <==> html@.len() == 0,
{
    if html.as_str().unicode_len() == 0 {
        None
    } else {
        Some(html)
    }
}

/// The snippet a hit shows, from its title and content snippets: both, on
/// two lines, when the title marks a match; else the content when it marks
/// one; else the title; nothing when there is no title snippet.
pub open spec fn snippet_choice(title: Option<Seq<char>>, content: Option<Seq<char>>) -> Option<Seq<char>> {
    match (title, content) {
        (Some(t), Some(c)) => if contains_seq(t, "<em>"@) {
            Some(t + "\n"@ + c)
        } else if contains_seq(c, "<em>"@) {
            Some(c)
        } else {
            Some(t)
        },
        (Some(t), None) => Some(t),
        (None, _) => None,
    }
}

pub open spec fn opt_text(o: Option<String>) -> Option<Seq<char>> {
    match o {
        Some(s) => Some(s@),
        None => None,
    }
}

/// The snippet a hit shows, as `snippet_choice` states it.
pub fn combine_snippets(title: Option<String>, content: Option<String>) -> (r: Option<String>)
    ensures
        opt_text(r) == snippet_choice(opt_text(title), opt_text(content)),
{
    match (title, content) {
        (Some(t), Some(c)) => {
            if has_highlight(t.as_str()) {
                let mut s = t;
                s.append("\n");
                s.append(c.as_str());
                Some(s)
            } else if has_highlight(c.as_str()) {
                Some(c)
            } else {
                Some(t)
            }
        },
        (Some(t), None) => Some(t),
        (None, _) => None,
    }
}

} // verus!
