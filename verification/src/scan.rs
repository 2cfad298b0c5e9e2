use vstd::prelude::*;

use crate::DocError;
use crate::token::Token;

verus! {

/// +1 for a scope opener, -1 for a scope closer, 0 otherwise.
pub open spec fn brace_delta(t: Token) -> int {
    match t {
        Token::LeftBrace => 1,
        Token::RightBrace => -1,
        _ => 0,
    }
}

/// The position of the first scope opener at or after `i`, if any.
pub open spec fn find_open(s: Seq<Token>, i: int) -> Option<int>
    decreases s.len() - i,
{
    if i < 0 || i >= s.len() {
        None
    } else if s[i] is LeftBrace {
        Some(i)
    } else {
        find_open(s, i + 1)
    }
}

/// Starting at `i` with a running depth of `depth`, the position of the token
/// on which the depth first returns to zero, if the stream lasts that long.
pub open spec fn find_close(s: Seq<Token>, i: int, depth: int) -> Option<int>
    decreases s.len() - i,
{
    if i < 0 || i >= s.len() {
        None
    } else if depth + brace_delta(s[i]) == 0 {
        Some(i)
    } else {
        find_close(s, i + 1, depth + brace_delta(s[i]))
    }
}

/// The position of the scope closer that balances the first scope opener at
/// or after `index`, if both exist.
pub open spec fn skip_block_spec(s: Seq<Token>, index: int) -> Option<int> {
    match find_open(s, index) {
        Some(open) => find_close(s, open, 0),
        None => None,
    }
}

pub proof fn lemma_find_open_bounds(s: Seq<Token>, i: int)
    ensures
        find_open(s, i) matches Some(o) ==> i <= o < s.len() && s[o] is LeftBrace,
    decreases s.len() - i,
{
    if 0 <= i < s.len() && !(s[i] is LeftBrace) {
        lemma_find_open_bounds(s, i + 1);
    }
}

pub proof fn lemma_find_close_bounds(s: Seq<Token>, i: int, depth: int)
    ensures
        find_close(s, i, depth) matches Some(c) ==> i <= c < s.len(),
    decreases s.len() - i,
{
    if 0 <= i < s.len() && depth + brace_delta(s[i]) != 0 {
        lemma_find_close_bounds(s, i + 1, depth + brace_delta(s[i]));
    }
}

/// When the running depth is positive, the scan can only end on a closer.
pub proof fn lemma_find_close_ends_on_closer(s: Seq<Token>, i: int, depth: int)
    requires
        depth >= 1 || (depth == 0 && 0 <= i < s.len() && s[i] is LeftBrace),
    ensures
        find_close(s, i, depth) matches Some(c) ==> s[c] is RightBrace,
    decreases s.len() - i,
{
    if 0 <= i < s.len() && depth + brace_delta(s[i]) != 0 {
        lemma_find_close_ends_on_closer(s, i + 1, depth + brace_delta(s[i]));
    }
}

/// The number of scope openers in `lo..hi`.
pub open spec fn count_opens(s: Seq<Token>, lo: int, hi: int) -> int
    decreases hi - lo,
{
    if lo >= hi {
        0
    } else {
        (if s[lo] is LeftBrace {
            1int
        } else {
            0int
        }) + count_opens(s, lo + 1, hi)
    }
}

/// The number of scope closers in `lo..hi`.
pub open spec fn count_closes(s: Seq<Token>, lo: int, hi: int) -> int
    decreases hi - lo,
{
    if lo >= hi {
        0
    } else {
        (if s[lo] is RightBrace {
            1int
        } else {
            0int
        }) + count_closes(s, lo + 1, hi)
    }
}

proof fn lemma_find_close_counts(s: Seq<Token>, i: int, depth: int)
    ensures
        find_close(s, i, depth) matches Some(c) ==> depth + count_opens(s, i, c + 1)
            == count_closes(s, i, c + 1),
    decreases s.len() - i,
{
    if 0 <= i < s.len() {
        if depth + brace_delta(s[i]) == 0 {
            assert(count_opens(s, i + 1, i + 1) == 0);
            assert(count_closes(s, i + 1, i + 1) == 0);
        } else {
            lemma_find_close_counts(s, i + 1, depth + brace_delta(s[i]));
            match find_close(s, i + 1, depth + brace_delta(s[i])) {
                Some(c) => {
                    assert(count_opens(s, i, c + 1) == (if s[i] is LeftBrace {
                        1int
                    } else {
                        0int
                    }) + count_opens(s, i + 1, c + 1));
                    assert(count_closes(s, i, c + 1) == (if s[i] is RightBrace {
                        1int
                    } else {
                        0int
                    }) + count_closes(s, i + 1, c + 1));
                },
                None => {},
            }
        }
    }
}

proof fn lemma_find_close_positive(s: Seq<Token>, i: int, depth: int)
    requires
        depth >= 1,
    ensures
        find_close(s, i, depth) matches Some(c) ==> forall|j: int|
            i <= j < c ==> depth + #[trigger] count_opens(s, i, j + 1) - count_closes(s, i, j + 1)
                >= 1,
    decreases s.len() - i,
{
    if 0 <= i < s.len() && depth + brace_delta(s[i]) != 0 {
        let d2 = depth + brace_delta(s[i]);
        lemma_find_close_positive(s, i + 1, d2);
        match find_close(s, i, depth) {
            Some(c) => {
                assert forall|j: int|
                    i <= j < c implies depth + #[trigger] count_opens(s, i, j + 1) - count_closes(
                    s,
                    i,
                    j + 1,
                ) >= 1 by {
                    assert(count_opens(s, i, j + 1) == (if s[i] is LeftBrace {
                        1int
                    } else {
                        0int
                    }) + count_opens(s, i + 1, j + 1));
                    assert(count_closes(s, i, j + 1) == (if s[i] is RightBrace {
                        1int
                    } else {
                        0int
                    }) + count_closes(s, i + 1, j + 1));
                    if j > i {
                        assert(d2 + count_opens(s, i + 1, j + 1) - count_closes(s, i + 1, j + 1)
                            >= 1);
                    } else {
                        assert(count_opens(s, i + 1, j + 1) == 0);
                        assert(count_closes(s, i + 1, j + 1) == 0);
                    }
                }
            },
            None => {},
        }
    }
}

/// The balance invariant of the scope scanner: a successful scan consumes a
/// region whose scope openers and closers are equal in number, the running
/// depth stays positive everywhere strictly inside the region (it never
/// goes negative), and the scan ends exactly on the closer that brings it
/// back to zero. A stream whose scope never closes yields no balanced
/// region at all, and the scanner reports a structural error for it rather
/// than truncating (see `skip_impl_block`).
pub proof fn lemma_scope_balance(s: Seq<Token>, index: int)
    ensures
        skip_block_spec(s, index) matches Some(c) ==> {
            &&& find_open(s, index) matches Some(o) && count_opens(s, o, c + 1) == count_closes(
                s,
                o,
                c + 1,
            ) && (forall|j: int|
                o <= j < c ==> #[trigger] count_opens(s, o, j + 1) - count_closes(s, o, j + 1)
                    >= 1)
            &&& s[c] is RightBrace
        },
{
    lemma_find_open_bounds(s, index);
    match find_open(s, index) {
        Some(o) => {
            lemma_find_close_counts(s, o, 0);
            lemma_find_close_ends_on_closer(s, o, 0);
            match find_close(s, o, 0) {
                Some(c) => {
                    lemma_find_close_positive(s, o + 1, 1);
                    assert forall|j: int|
                        o <= j < c implies #[trigger] count_opens(s, o, j + 1) - count_closes(
                        s,
                        o,
                        j + 1,
                    ) >= 1 by {
                        assert(count_opens(s, o, j + 1) == 1 + count_opens(s, o + 1, j + 1));
                        assert(count_closes(s, o, j + 1) == count_closes(s, o + 1, j + 1));
                        if j > o {
                            assert(1 + count_opens(s, o + 1, j + 1) - count_closes(
                                s,
                                o + 1,
                                j + 1,
                            ) >= 1);
                        } else {
                            assert(count_opens(s, o + 1, j + 1) == 0);
                            assert(count_closes(s, o + 1, j + 1) == 0);
                        }
                    }
                },
                None => {},
            }
        },
        None => {},
    }
}

/// Skips a balanced brace-delimited block: returns the distance from `index`
/// to the scope closer matching the first scope opener at or after `index`.
/// A stream that ends before the scope is balanced is a structural error,
/// never a silent truncation.
pub fn skip_impl_block(tokens: &Vec<Token>, index: usize) -> (r: Result<usize, DocError>)
    ensures
        match r {
            Ok(k) => {
                &&& skip_block_spec(tokens@, index as int) == Some(index + k)
                &&& index + k < tokens@.len()
                &&& tokens@[index + k] is RightBrace
            },
            Err(e) => {
                &&& e == DocError::StructuralError
                &&& skip_block_spec(tokens@, index as int) is None
            },
        },
{
    let ghost s = tokens@;
    let n: usize = tokens.len();
    if index > n {
        return Err(DocError::StructuralError);
    }
    let mut i: usize = index;
    loop
        invariant
            index <= i <= n,
            n == s.len(),
            s == tokens@,
            find_open(s, index as int) == find_open(s, i as int),
        ensures
            i < n,
            n == s.len(),
            tokens@[i as int] is LeftBrace,
            find_open(s, index as int) == Some(i as int),
        decreases s.len() - i,
    {
        if i >= tokens.len() {
            return Err(DocError::StructuralError);
        }
        match &tokens[i] {
            Token::LeftBrace => {
                break ;
            },
            _ => {
                i = i + 1;
            },
        }
    }
    let ghost open = i as int;
    let mut depth: usize = 1;
    i = i + 1;
    loop
        invariant
            open < i <= n,
            n == s.len(),
            s == tokens@,
            1 <= depth <= i - open,
            index <= open,
            find_open(s, index as int) == Some(open),
            find_close(s, open, 0) == find_close(s, i as int, depth as int),
        decreases s.len() - i,
    {
        if i >= tokens.len() {
            return Err(DocError::StructuralError);
        }
        match &tokens[i] {
            Token::LeftBrace => {
                depth = depth + 1;
            },
            Token::RightBrace => {
                depth = depth - 1;
                if depth == 0 {
                    proof {
                        lemma_find_close_bounds(s, open, 0);
                    }
                    return Ok(i - index);
                }
            },
            _ => {},
        }
        i = i + 1;
    }
}

} // verus!
