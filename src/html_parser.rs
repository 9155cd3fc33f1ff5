//! Finding the title of an HTML page.
//!
//! The title is the text between the first `<title ...>` tag (the tag name in
//! any letter case, anything but `>` after it) and the first `</title>` after
//! that tag, with its runs of white space collapsed to single spaces and none
//! kept at either end.
use vstd::prelude::*;
use crate::chars::{chars_of, string_of};
use crate::model::{LinkError, outcome_view};

verus! {

/// White space as `char::is_whitespace` defines it (Unicode `White_Space`).
pub open spec fn is_ws(c: char) -> bool {
    let u = c as u32;
    (0x9 <= u <= 0xD) || u == 0x20 || u == 0x85 || u == 0xA0 || u == 0x1680 || (0x2000 <= u
        <= 0x200A) || u == 0x2028 || u == 0x2029 || u == 0x202F || u == 0x205F || u == 0x3000
}

/// Whether `c` is `p` up to ASCII letter case (`p` being lower case).
pub open spec fn same_letter(c: char, p: char) -> bool {
    c == p || ('a' <= p <= 'z' && c as u32 == p as u32 - 32)
}

pub open spec fn open_tag() -> Seq<char> {
    seq!['<', 't', 'i', 't', 'l', 'e']
}

pub open spec fn close_tag() -> Seq<char> {
    seq!['<', '/', 't', 'i', 't', 'l', 'e', '>']
}

/// Whether `w` occurs in `s` at `i`, up to ASCII letter case.
pub open spec fn word_at(s: Seq<char>, i: int, w: Seq<char>) -> bool {
    0 <= i && i + w.len() <= s.len() && forall|m: int|
        0 <= m < w.len() ==> same_letter(#[trigger] s[i + m], w[m])
}

/// The first `>` at or after `p`, or the length of `s` if there is none.
pub open spec fn gt_from(s: Seq<char>, p: int) -> int
    decreases s.len() - p,
{
    if p < 0 || p >= s.len() || s[p] == '>' {
        p
    } else {
        gt_from(s, p + 1)
    }
}

/// The first closing tag at or after `p`, or the length of `s` if there is none.
pub open spec fn close_from(s: Seq<char>, p: int) -> int
    decreases s.len() - p,
{
    if p < 0 || p + 8 > s.len() {
        s.len() as int
    } else if word_at(s, p, close_tag()) {
        p
    } else {
        close_from(s, p + 1)
    }
}

/// The raw title text of an element whose opening tag starts at `i`, if one does.
pub open spec fn title_at(s: Seq<char>, i: int) -> Option<Seq<char>> {
    if word_at(s, i, open_tag()) {
        let j = gt_from(s, i + 6);
        if j < s.len() {
            let k = close_from(s, j + 1);
            if k < s.len() {
                Some(s.subrange(j + 1, k))
            } else {
                None
            }
        } else {
            None
        }
    } else {
        None
    }
}

/// The raw text of the first title element that starts at or after `p`.
pub open spec fn title_from(s: Seq<char>, p: int) -> Option<Seq<char>>
    decreases s.len() - p,
{
    if p < 0 || p >= s.len() {
        None
    } else {
        match title_at(s, p) {
            Some(t) => Some(t),
            None => title_from(s, p + 1),
        }
    }
}

/// The raw text of the first title element of a page.
pub open spec fn raw_title(s: Seq<char>) -> Option<Seq<char>> {
    title_from(s, 0)
}

/// The rest of `s` from `i` with white space collapsed; `started` tells whether
/// a word came before `i`, and `gap` whether white space followed it.
pub open spec fn squeeze_from(s: Seq<char>, i: int, started: bool, gap: bool) -> Seq<char>
    decreases s.len() - i,
{
    if i < 0 || i >= s.len() {
        Seq::empty()
    } else if is_ws(s[i]) {
        squeeze_from(s, i + 1, started, started)
    } else {
        let sep: Seq<char> = if gap {
            seq![' ']
        } else {
            Seq::empty()
        };
        sep + seq![s[i]] + squeeze_from(s, i + 1, true, false)
    }
}

/// The words of `s` joined by single spaces.
pub open spec fn collapse(s: Seq<char>) -> Seq<char> {
    squeeze_from(s, 0, false, false)
}

/// What title extraction yields for a page: its collapsed title, or `MissingTitle`.
pub open spec fn title_outcome(html: Seq<char>) -> Result<Seq<char>, LinkError> {
    match raw_title(html) {
        Some(t) => Ok(collapse(t)),
        None => Err(LinkError::MissingTitle),
    }
}

/// Whether `c` is white space, as `char::is_whitespace` says.
pub fn is_whitespace(c: char) -> (r: bool)
    ensures
        r == is_ws(c),
{
    let u = c as u32;
    (0x9 <= u && u <= 0xD) || u == 0x20 || u == 0x85 || u == 0xA0 || u == 0x1680 || (0x2000
        <= u && u <= 0x200A) || u == 0x2028 || u == 0x2029 || u == 0x202F || u == 0x205F || u
        == 0x3000
}

/// `s` with its runs of white space made single spaces and none at either end.
pub fn collapse_whitespace(s: &str) -> (r: String)
    ensures
        r@ == collapse(s@),
{
    let cs = chars_of(s);
    let mut out: Vec<char> = Vec::new();
    let mut started = false;
    let mut gap = false;
    let mut i: usize = 0;
    while i < cs.len()
        invariant
            cs@ == s@,
            i <= cs@.len(),
            out@ + squeeze_from(cs@, i as int, started, gap) == collapse(cs@),
        decreases cs@.len() - i,
    {
        let c = cs[i];
        if is_whitespace(c) {
            gap = started;
        } else {
            let ghost before = out@;
            if gap {
                out.push(' ');
            }
            out.push(c);
            let ghost sep: Seq<char> = if gap {
                seq![' ']
            } else {
                Seq::empty()
            };
            assert(out@ =~= before + sep + seq![c]);
            assert(before + (sep + seq![c] + squeeze_from(cs@, i + 1, true, false)) =~= out@
                + squeeze_from(cs@, i + 1, true, false));
            started = true;
            gap = false;
        }
        i = i + 1;
    }
    assert(out@ + Seq::<char>::empty() =~= out@);
    string_of(&out, 0, out.len())
}

fn matches_at(s: &Vec<char>, i: usize, w: &Vec<char>) -> (r: bool)
    ensures
        r == word_at(s@, i as int, w@),
{
    let n = s.len();
    if i > n || w.len() > n - i {
        return false;
    }
    let mut m: usize = 0;
    while m < w.len()
        invariant
            n == s@.len(),
            i + w@.len() <= n,
            m <= w@.len(),
            forall|q: int| 0 <= q < m ==> same_letter(#[trigger] s@[i + q], w@[q]),
        decreases w@.len() - m,
    {
        let c = s[i + m];
        let p = w[m];
        if !(c == p || ('a' <= p && p <= 'z' && c as u32 == p as u32 - 32)) {
            return false;
        }
        m = m + 1;
    }
    true
}

fn find_gt(s: &Vec<char>, from: usize) -> (r: usize)
    requires
        from <= s@.len(),
    ensures
        r as int == gt_from(s@, from as int),
        from <= r <= s@.len(),
{
    let mut p: usize = from;
    while p < s.len() && s[p] != '>'
        invariant
            from <= p <= s@.len(),
            gt_from(s@, p as int) == gt_from(s@, from as int),
        decreases s@.len() - p,
    {
        p = p + 1;
    }
    p
}

fn find_close(s: &Vec<char>, tag: &Vec<char>, from: usize) -> (r: usize)
    requires
        from <= s@.len(),
        tag@ == close_tag(),
    ensures
        r as int == close_from(s@, from as int),
        r <= s@.len(),
        from <= r || r == s@.len(),
{
    let mut p: usize = from;
    while p <= s.len() && 8 <= s.len() - p && !matches_at(s, p, tag)
        invariant
            from <= p,
            p <= s@.len(),
            tag@ == close_tag(),
            close_from(s@, p as int) == close_from(s@, from as int),
        decreases s@.len() - p,
    {
        p = p + 1;
    }
    if 8 <= s.len() - p {
        p
    } else {
        s.len()
    }
}

fn title_start(s: &Vec<char>, i: usize, open: &Vec<char>, close: &Vec<char>) -> (r: Option<(usize, usize)>)
    requires
        i < s@.len(),
        open@ == open_tag(),
        close@ == close_tag(),
    ensures
        match r {
            Some((a, b)) => a <= b <= s@.len() && title_at(s@, i as int) == Some(
                s@.subrange(a as int, b as int),
            ),
            None => title_at(s@, i as int) is None,
        },
{
    let n = s.len();
    if !matches_at(s, i, open) {
        return None;
    }
    assert(open_tag().len() == 6);
    assert(i + 6 <= n);
    let j = find_gt(s, i + 6);
    if j >= s.len() {
        return None;
    }
    let k = find_close(s, close, j + 1);
    if k < s.len() {
        Some((j + 1, k))
    } else {
        None
    }
}

/// The title of an HTML page, or `MissingTitle` where it has no title element.
pub fn extract_title(html: &str) -> (r: Result<String, LinkError>)
    ensures
        outcome_view(r) == title_outcome(html@),
{
    let s = chars_of(html);
    let open: Vec<char> = vec!['<', 't', 'i', 't', 'l', 'e'];
    let close: Vec<char> = vec!['<', '/', 't', 'i', 't', 'l', 'e', '>'];
    assert(open@ =~= open_tag());
    assert(close@ =~= close_tag());
    let mut p: usize = 0;
    while p < s.len()
        invariant
            s@ == html@,
            p <= s@.len(),
            open@ == open_tag(),
            close@ == close_tag(),
            title_from(s@, p as int) == raw_title(s@),
        decreases s@.len() - p,
    {
        match title_start(&s, p, &open, &close) {
            Some((a, b)) => {
                let raw = string_of(&s, a, b);
                let title = collapse_whitespace(raw.as_str());
                return Ok(title);
            },
            None => {
                p = p + 1;
            },
        }
    }
    Err(LinkError::MissingTitle)
}

} // verus!
