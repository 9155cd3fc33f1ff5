//! Finding `[text](url)` links in a text document.
//!
//! A link is an opening `[`, a non-empty label free of `]`, the two
//! characters `](`, a non-empty target free of `)`, and a closing `)`,
//! all on one line. Links are found left to right and do not overlap.
use vstd::prelude::*;
use crate::chars::{chars_of, string_of};
use crate::model::Link;

verus! {

pub open spec fn in_label(c: char) -> bool {
    c != ']' && c != '\n'
}

pub open spec fn in_target(c: char) -> bool {
    c != ')' && c != '\n'
}

/// The first position at or after `p` whose character may not be part of a label.
pub open spec fn label_end(s: Seq<char>, p: int) -> int
    decreases s.len() - p,
{
    if p < 0 || p >= s.len() || !in_label(s[p]) {
        p
    } else {
        label_end(s, p + 1)
    }
}

/// The first position at or after `p` whose character may not be part of a target.
pub open spec fn target_end(s: Seq<char>, p: int) -> int
    decreases s.len() - p,
{
    if p < 0 || p >= s.len() || !in_target(s[p]) {
        p
    } else {
        target_end(s, p + 1)
    }
}

/// Where a link that starts at `i` has its `]` and its `)`, if one starts there.
pub open spec fn link_at(s: Seq<char>, i: int) -> Option<(int, int)> {
    if 0 <= i < s.len() && s[i] == '[' {
        let j = label_end(s, i + 1);
        if j > i + 1 && j + 1 < s.len() && s[j] == ']' && s[j + 1] == '(' {
            let k = target_end(s, j + 2);
            if k > j + 2 && k < s.len() && s[k] == ')' {
                Some((j, k))
            } else {
                None
            }
        } else {
            None
        }
    } else {
        None
    }
}

/// The links of `s` found from position `p` on, as (label, target) pairs.
pub open spec fn links_from(s: Seq<char>, p: int) -> Seq<(Seq<char>, Seq<char>)>
    decreases s.len() - p,
{
    if p < 0 || p >= s.len() {
        Seq::empty()
    } else {
        match link_at(s, p) {
            Some((j, k)) => {
                if p < j && j < k {
                    seq![(s.subrange(p + 1, j), s.subrange(j + 2, k))] + links_from(s, k + 1)
                } else {
                    Seq::empty()
                }
            },
            None => links_from(s, p + 1),
        }
    }
}

/// The links of a whole document, in the order in which they appear.
pub open spec fn links_of(s: Seq<char>) -> Seq<(Seq<char>, Seq<char>)> {
    links_from(s, 0)
}

fn find_label_end(s: &Vec<char>, from: usize) -> (r: usize)
    requires
        from <= s@.len(),
    ensures
        r as int == label_end(s@, from as int),
        from <= r <= s@.len(),
{
    let mut p: usize = from;
    while p < s.len() && s[p] != ']' && s[p] != '\n'
        invariant
            from <= p <= s@.len(),
            label_end(s@, p as int) == label_end(s@, from as int),
        decreases s@.len() - p,
    {
        p = p + 1;
    }
    p
}

fn find_target_end(s: &Vec<char>, from: usize) -> (r: usize)
    requires
        from <= s@.len(),
    ensures
        r as int == target_end(s@, from as int),
        from <= r <= s@.len(),
{
    let mut p: usize = from;
    while p < s.len() && s[p] != ')' && s[p] != '\n'
        invariant
            from <= p <= s@.len(),
            target_end(s@, p as int) == target_end(s@, from as int),
        decreases s@.len() - p,
    {
        p = p + 1;
    }
    p
}

fn match_link(s: &Vec<char>, i: usize) -> (r: Option<(usize, usize)>)
    requires
        i < s@.len(),
    ensures
        match r {
            Some((j, k)) => link_at(s@, i as int) == Some((j as int, k as int)) && i < j < k
                < s@.len(),
            None => link_at(s@, i as int) is None,
        },
{
    let n = s.len();
    if s[i] != '[' {
        return None;
    }
    let j = find_label_end(s, i + 1);
    if !(j > i + 1 && j < n - 1 && s[j] == ']' && s[j + 1] == '(') {
        return None;
    }
    let k = find_target_end(s, j + 2);
    if k > j + 2 && k < s.len() && s[k] == ')' {
        Some((j, k))
    } else {
        None
    }
}

/// The links of a text document, in document order.
pub fn parse_text(content: &str) -> (links: Vec<Link>)
    ensures
        links@.map_values(|l: Link| l@) == links_of(content@),
{
    let s = chars_of(content);
    let mut links: Vec<Link> = Vec::new();
    let mut p: usize = 0;
    while p < s.len()
        invariant
            s@ == content@,
            p <= s@.len(),
            links@.map_values(|l: Link| l@) + links_from(s@, p as int) == links_of(s@),
        decreases s@.len() - p,
    {
        match match_link(&s, p) {
            Some((j, k)) => {
                let text = string_of(&s, p + 1, j);
                let url = string_of(&s, j + 2, k);
                let ghost before = links@.map_values(|l: Link| l@);
                links.push(Link { text, url });
                assert(links@.map_values(|l: Link| l@) =~= before.push(
                    (s@.subrange(p + 1, j as int), s@.subrange(j + 2, k as int)),
                ));
                assert(links_from(s@, p as int) == seq![
                    (s@.subrange(p + 1, j as int), s@.subrange(j + 2, k as int)),
                ] + links_from(s@, k + 1));
                assert(before + links_from(s@, p as int) =~= links@.map_values(|l: Link| l@)
                    + links_from(s@, k + 1));
                p = k + 1;
            },
            None => {
                p = p + 1;
            },
        }
    }
    assert(links_from(s@, p as int) =~= Seq::empty());
    assert(links@.map_values(|l: Link| l@) + Seq::empty() =~= links@.map_values(|l: Link| l@));
    links
}

} // verus!
