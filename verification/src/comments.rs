use vstd::prelude::*;
use vstd::string::{StrSliceExecFns, StringExecFns};

use crate::token::{
    comment_body, is_comment, is_decl_keyword, is_inner_comment, is_inner_line_comment,
    is_outer_comment, is_plain_comment, token_disp, Token,
};

verus! {

/// The start of the run of undecorated comments that ends at position `j`:
/// the least position `r` such that every token in `r..=j` is an undecorated
/// comment. `j + 1` when `j` itself is not one.
pub open spec fn run_start_plain(s: Seq<Token>, j: int) -> int
    decreases j + 1,
{
    if j < 0 || j >= s.len() || !is_plain_comment(s[j]) {
        j + 1
    } else {
        run_start_plain(s, j - 1)
    }
}

/// The start of the run of inner doc comments that ends at position `j`.
pub open spec fn run_start_inner(s: Seq<Token>, j: int) -> int
    decreases j + 1,
{
    if j < 0 || j >= s.len() || !is_inner_comment(s[j]) {
        j + 1
    } else {
        run_start_inner(s, j - 1)
    }
}

/// The position just after the nearest declaration keyword at or before `j`;
/// zero when there is none. A backward doc scan never looks further back.
pub open spec fn kw_stop(s: Seq<Token>, j: int) -> int
    decreases j + 1,
{
    if j < 0 {
        0
    } else if j < s.len() && is_decl_keyword(s[j]) {
        j + 1
    } else {
        kw_stop(s, j - 1)
    }
}

/// The stored texts of the comment tokens in `lo..hi`, concatenated in
/// source order.
pub open spec fn bodies_text(s: Seq<Token>, lo: int, hi: int) -> Seq<char>
    decreases hi - lo,
{
    if lo >= hi {
        Seq::empty()
    } else {
        comment_body(s[lo]) + bodies_text(s, lo + 1, hi)
    }
}

/// The stored texts of the outer doc comments in `lo..hi`, concatenated in
/// source order; other tokens contribute nothing.
pub open spec fn outer_bodies(s: Seq<Token>, lo: int, hi: int) -> Seq<char>
    decreases hi - lo,
{
    if lo >= hi {
        Seq::empty()
    } else {
        (if is_outer_comment(s[lo]) {
            comment_body(s[lo])
        } else {
            Seq::empty()
        }) + outer_bodies(s, lo + 1, hi)
    }
}

/// The stored texts of the inner doc line comments in `lo..hi`, concatenated
/// in source order; other tokens (block comments included) contribute nothing.
pub open spec fn inner_line_bodies(s: Seq<Token>, lo: int, hi: int) -> Seq<char>
    decreases hi - lo,
{
    if lo >= hi {
        Seq::empty()
    } else {
        (if is_inner_line_comment(s[lo]) {
            comment_body(s[lo])
        } else {
            Seq::empty()
        }) + inner_line_bodies(s, lo + 1, hi)
    }
}

pub proof fn lemma_bodies_text_snoc(s: Seq<Token>, lo: int, hi: int)
    requires
        lo <= hi,
    ensures
        bodies_text(s, lo, hi + 1) == bodies_text(s, lo, hi) + comment_body(s[hi]),
    decreases hi - lo,
{
    if lo == hi {
        assert(bodies_text(s, lo + 1, hi + 1) == Seq::<char>::empty());
        assert(bodies_text(s, lo, hi) == Seq::<char>::empty());
    } else {
        lemma_bodies_text_snoc(s, lo + 1, hi);
        assert(bodies_text(s, lo, hi + 1) == comment_body(s[lo]) + bodies_text(s, lo + 1, hi + 1));
        assert(bodies_text(s, lo, hi) == comment_body(s[lo]) + bodies_text(s, lo + 1, hi));
    }
    assert(bodies_text(s, lo, hi + 1) =~= bodies_text(s, lo, hi) + comment_body(s[hi]));
}

pub proof fn lemma_outer_bodies_snoc(s: Seq<Token>, lo: int, hi: int)
    requires
        lo <= hi,
    ensures
        outer_bodies(s, lo, hi + 1) == outer_bodies(s, lo, hi) + (if is_outer_comment(s[hi]) {
            comment_body(s[hi])
        } else {
            Seq::<char>::empty()
        }),
    decreases hi - lo,
{
    if lo == hi {
        assert(outer_bodies(s, lo + 1, hi + 1) == Seq::<char>::empty());
        assert(outer_bodies(s, lo, hi) == Seq::<char>::empty());
    } else {
        lemma_outer_bodies_snoc(s, lo + 1, hi);
        assert(outer_bodies(s, lo, hi + 1) == (if is_outer_comment(s[lo]) {
            comment_body(s[lo])
        } else {
            Seq::<char>::empty()
        }) + outer_bodies(s, lo + 1, hi + 1));
        assert(outer_bodies(s, lo, hi) == (if is_outer_comment(s[lo]) {
            comment_body(s[lo])
        } else {
            Seq::<char>::empty()
        }) + outer_bodies(s, lo + 1, hi));
    }
    assert(outer_bodies(s, lo, hi + 1) =~= outer_bodies(s, lo, hi) + (if is_outer_comment(s[hi]) {
        comment_body(s[hi])
    } else {
        Seq::<char>::empty()
    }));
}

pub proof fn lemma_inner_line_bodies_snoc(s: Seq<Token>, lo: int, hi: int)
    requires
        lo <= hi,
    ensures
        inner_line_bodies(s, lo, hi + 1) == inner_line_bodies(s, lo, hi) + (
        if is_inner_line_comment(s[hi]) {
            comment_body(s[hi])
        } else {
            Seq::<char>::empty()
        }),
    decreases hi - lo,
{
    if lo == hi {
        assert(inner_line_bodies(s, lo + 1, hi + 1) == Seq::<char>::empty());
        assert(inner_line_bodies(s, lo, hi) == Seq::<char>::empty());
    } else {
        lemma_inner_line_bodies_snoc(s, lo + 1, hi);
        assert(inner_line_bodies(s, lo, hi + 1) == (if is_inner_line_comment(s[lo]) {
            comment_body(s[lo])
        } else {
            Seq::<char>::empty()
        }) + inner_line_bodies(s, lo + 1, hi + 1));
        assert(inner_line_bodies(s, lo, hi) == (if is_inner_line_comment(s[lo]) {
            comment_body(s[lo])
        } else {
            Seq::<char>::empty()
        }) + inner_line_bodies(s, lo + 1, hi));
    }
    assert(inner_line_bodies(s, lo, hi + 1) =~= inner_line_bodies(s, lo, hi) + (
    if is_inner_line_comment(s[hi]) {
        comment_body(s[hi])
    } else {
        Seq::<char>::empty()
    }));
}

/// The documentation associated with the declaration at position `index`,
/// looking backward. When the token just before is a comment of any style,
/// it seeds the text and the run of undecorated comments before it is
/// prepended, earliest first. Otherwise the scan collects outer doc comments
/// further back, skipping unrelated tokens but never crossing a
/// declaration keyword.
pub open spec fn doc_spec(s: Seq<Token>, index: int) -> Seq<char> {
    if index < 1 || index > s.len() {
        Seq::empty()
    } else if is_comment(s[index - 1]) {
        bodies_text(s, run_start_plain(s, index - 2), index - 1) + comment_body(s[index - 1])
    } else {
        outer_bodies(s, kw_stop(s, index - 2), index - 1)
    }
}

/// The additional (inner) documentation associated with the declaration at
/// position `index`: as `doc_spec`, but seeded on inner doc comments and,
/// in the skipping branch, collecting inner doc line comments.
pub open spec fn additional_doc_spec(s: Seq<Token>, index: int) -> Seq<char> {
    if index < 1 || index > s.len() {
        Seq::empty()
    } else if is_inner_comment(s[index - 1]) {
        bodies_text(s, run_start_inner(s, index - 2), index - 1) + comment_body(s[index - 1])
    } else {
        inner_line_bodies(s, kw_stop(s, index - 2), index - 1)
    }
}

/// The last position of the run of inner doc comments that starts just
/// after `j`; `j` itself when the next token is not an inner doc comment.
pub open spec fn inner_run_end(s: Seq<Token>, j: int) -> int
    decreases s.len() - j,
{
    if j < 0 || j + 1 >= s.len() || !is_inner_comment(s[j + 1]) {
        j
    } else {
        inner_run_end(s, j + 1)
    }
}

/// The position of the first space in `t` at or after `i`, if any.
pub open spec fn find_space(t: Seq<char>, i: int) -> Option<int>
    decreases t.len() - i,
{
    if i < 0 || i >= t.len() {
        None
    } else if t[i] == ' ' {
        Some(i)
    } else {
        find_space(t, i + 1)
    }
}

/// The display text of the leading comment at `index` with the stored texts
/// of the following inner doc comments merged onto it.
pub open spec fn merged_outer(s: Seq<Token>, index: int) -> Seq<char> {
    token_disp(s[index]) + bodies_text(s, index + 1, inner_run_end(s, index) + 1)
}

/// The merged leading-comment text with everything up to and including the
/// first space (the comment marker) stripped; empty when there is no space.
pub open spec fn outer_doc_text(s: Seq<Token>, index: int) -> Seq<char> {
    match find_space(merged_outer(s, index), 0) {
        Some(p) => merged_outer(s, index).subrange(p + 1, merged_outer(s, index).len() as int),
        None => Seq::empty(),
    }
}

proof fn lemma_run_start_plain_eq(s: Seq<Token>, j: int, start: int)
    requires
        0 <= start <= j + 1,
        j < s.len(),
        forall|k: int| start <= k <= j ==> is_plain_comment(s[k]),
        start == 0 || !is_plain_comment(s[start - 1]),
    ensures
        run_start_plain(s, j) == start,
    decreases j + 1 - start,
{
    if j + 1 == start {
    } else {
        assert(is_plain_comment(s[j]));
        lemma_run_start_plain_eq(s, j - 1, start);
    }
}

/// Doc association is order-preserving and local: when the declaration at
/// `index` is immediately preceded by a comment seeding a run of
/// undecorated comments that begins at `start`, the associated doc text is
/// exactly the stored texts of `start..index`, concatenated in source
/// order. Nothing before `start` contributes, however many unrelated
/// comments stand further back beyond the non-comment boundary.
pub proof fn lemma_doc_run_order(s: Seq<Token>, index: int, start: int)
    requires
        1 <= index <= s.len(),
        0 <= start <= index - 1,
        is_comment(s[index - 1]),
        forall|k: int| start <= k < index - 1 ==> is_plain_comment(s[k]),
        start == 0 || !is_plain_comment(s[start - 1]),
    ensures
        doc_spec(s, index) == bodies_text(s, start, index),
{
    if start <= index - 2 {
        lemma_run_start_plain_eq(s, index - 2, start);
    } else {
        assert(run_start_plain(s, index - 2) == start);
    }
    lemma_bodies_text_snoc(s, start, index - 1);
}

/// Collects the characters of a string into a vector, in order.
fn string_chars(s: &str) -> (r: Vec<char>)
    ensures
        r@ == s@,
{
    let n: usize = s.unicode_len();
    let mut r: Vec<char> = Vec::new();
    let mut i: usize = 0;
    proof {
        assert(r@ =~= s@.subrange(0, 0));
    }
    while i < n
        invariant
            i <= n,
            n == s@.len(),
            r@ == s@.subrange(0, i as int),
        decreases n - i,
    {
        r.push(s.get_char(i));
        proof {
            assert(s@.subrange(0, i + 1) =~= s@.subrange(0, i as int).push(s@[i as int]));
        }
        i = i + 1;
    }
    proof {
        assert(s@.subrange(0, s@.len() as int) =~= s@);
    }
    r
}

/// Relies on std's FromIterator for String: the resulting string holds
/// exactly the given characters, in order.
#[verifier::external_body]
fn chars_string(v: &Vec<char>) -> (r: String)
    ensures
        r@ == v@,
{
    v.iter().collect()
}

/// Extracts the documentation comments for the declaration at `index`,
/// scanning backward from it.
pub fn doc(tokens: &Vec<Token>, index: usize) -> (r: String)
    requires
        index <= tokens@.len(),
    ensures
        r@ == doc_spec(tokens@, index as int),
{
    let ghost s = tokens@;
    if index == 0 {
        return String::new();
    }
    if tokens[index - 1].is_any_comment() {
        let mut j: usize = index - 1;
        loop
            invariant
                j <= index - 1,
                index <= s.len(),
                s == tokens@,
                run_start_plain(s, index - 2) == run_start_plain(s, j - 1),
            ensures
                j <= index - 1,
                j == run_start_plain(s, index - 2),
            decreases j,
        {
            if j == 0 {
                break ;
            }
            if !tokens[j - 1].is_plain() {
                break ;
            }
            j = j - 1;
        }
        let mut res = String::new();
        let mut k: usize = j;
        while k < index - 1
            invariant
                j <= k <= index - 1,
                index <= s.len(),
                s == tokens@,
                res@ == bodies_text(s, j as int, k as int),
            decreases index - k,
        {
            res.append(tokens[k].body());
            proof {
                lemma_bodies_text_snoc(s, j as int, k as int);
            }
            k = k + 1;
        }
        res.append(tokens[index - 1].body());
        res
    } else {
        let mut j: usize = index - 1;
        loop
            invariant
                j <= index - 1,
                index <= s.len(),
                s == tokens@,
                kw_stop(s, index - 2) == kw_stop(s, j - 1),
            ensures
                j <= index - 1,
                j == kw_stop(s, index - 2),
            decreases j,
        {
            if j == 0 {
                break ;
            }
            if tokens[j - 1].is_decl_kw() {
                break ;
            }
            j = j - 1;
        }
        let mut res = String::new();
        let mut k: usize = j;
        while k < index - 1
            invariant
                j <= k <= index - 1,
                index <= s.len(),
                s == tokens@,
                res@ == outer_bodies(s, j as int, k as int),
            decreases index - k,
        {
            if tokens[k].is_outer() {
                res.append(tokens[k].body());
            }
            proof {
                lemma_outer_bodies_snoc(s, j as int, k as int);
            }
            k = k + 1;
        }
        res
    }
}

/// Extracts the additional (inner) documentation for the declaration at
/// `index`, scanning backward from it.
pub fn additional_doc(tokens: &Vec<Token>, index: usize) -> (r: String)
    requires
        index <= tokens@.len(),
    ensures
        r@ == additional_doc_spec(tokens@, index as int),
{
    let ghost s = tokens@;
    if index == 0 {
        return String::new();
    }
    if tokens[index - 1].is_inner() {
        let mut j: usize = index - 1;
        loop
            invariant
                j <= index - 1,
                index <= s.len(),
                s == tokens@,
                run_start_inner(s, index - 2) == run_start_inner(s, j - 1),
            ensures
                j <= index - 1,
                j == run_start_inner(s, index - 2),
            decreases j,
        {
            if j == 0 {
                break ;
            }
            if !tokens[j - 1].is_inner() {
                break ;
            }
            j = j - 1;
        }
        let mut res = String::new();
        let mut k: usize = j;
        while k < index - 1
            invariant
                j <= k <= index - 1,
                index <= s.len(),
                s == tokens@,
                res@ == bodies_text(s, j as int, k as int),
            decreases index - k,
        {
            res.append(tokens[k].body());
            proof {
                lemma_bodies_text_snoc(s, j as int, k as int);
            }
            k = k + 1;
        }
        res.append(tokens[index - 1].body());
        res
    } else {
        let mut j: usize = index - 1;
        loop
            invariant
                j <= index - 1,
                index <= s.len(),
                s == tokens@,
                kw_stop(s, index - 2) == kw_stop(s, j - 1),
            ensures
                j <= index - 1,
                j == kw_stop(s, index - 2),
            decreases j,
        {
            if j == 0 {
                break ;
            }
            if tokens[j - 1].is_decl_kw() {
                break ;
            }
            j = j - 1;
        }
        let mut res = String::new();
        let mut k: usize = j;
        while k < index - 1
            invariant
                j <= k <= index - 1,
                index <= s.len(),
                s == tokens@,
                res@ == inner_line_bodies(s, j as int, k as int),
            decreases index - k,
        {
            if tokens[k].is_inner_line() {
                res.append(tokens[k].body());
            }
            proof {
                lemma_inner_line_bodies_snoc(s, j as int, k as int);
            }
            k = k + 1;
        }
        res
    }
}

/// Merges the leading comment at `index` with the inner doc comments that
/// immediately follow it, strips the comment marker (everything up to and
/// including the first space), and returns the text together with the
/// position of the last token consumed.
pub fn outer_doc(tokens: &Vec<Token>, index: usize) -> (r: (String, usize))
    requires
        index < tokens@.len(),
    ensures
        r.0@ == outer_doc_text(tokens@, index as int),
        r.1 == inner_run_end(tokens@, index as int),
{
    let ghost s = tokens@;
    let n: usize = tokens.len();
    let mut merged = tokens[index].text();
    let mut j: usize = index;
    loop
        invariant
            index <= j < n,
            n == s.len(),
            s == tokens@,
            inner_run_end(s, index as int) == inner_run_end(s, j as int),
            merged@ == token_disp(s[index as int]) + bodies_text(s, index + 1, j + 1),
        ensures
            index <= j < n,
            j == inner_run_end(s, index as int),
            merged@ == merged_outer(s, index as int),
        decreases n - j,
    {
        if j + 1 >= n {
            break ;
        }
        if !tokens[j + 1].is_inner() {
            break ;
        }
        proof {
            lemma_bodies_text_snoc(s, index as int + 1, j as int + 1);
        }
        merged.append(tokens[j + 1].body());
        j = j + 1;
    }
    let chars = string_chars(merged.as_str());
    let clen: usize = chars.len();
    let mut p: usize = 0;
    loop
        invariant_except_break
            p <= clen,
            clen == chars@.len(),
            chars@ == merged@,
            find_space(chars@, 0) == find_space(chars@, p as int),
        ensures
            p <= clen,
            clen == chars@.len(),
            chars@ == merged@,
            if p == clen {
                find_space(chars@, 0) is None
            } else {
                find_space(chars@, 0) == Some(p as int)
            },
        decreases clen - p,
    {
        if p >= clen {
            break ;
        }
        if chars[p] == ' ' {
            break ;
        }
        p = p + 1;
    }
    if p == clen {
        (String::new(), j)
    } else {
        let mut out: Vec<char> = Vec::new();
        let mut k: usize = p + 1;
        while k < clen
            invariant
                p + 1 <= k <= clen,
                clen == chars@.len(),
                out@ == chars@.subrange(p + 1, k as int),
            decreases clen - k,
        {
            out.push(chars[k]);
            proof {
                assert(chars@.subrange(p + 1, k + 1) =~= chars@.subrange(p + 1, k as int).push(
                    chars@[k as int],
                ));
            }
            k = k + 1;
        }
        let resstr = chars_string(&out);
        (resstr, j)
    }
}

} // verus!
