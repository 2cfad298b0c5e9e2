use vstd::prelude::*;
use vstd::string::StringExecFns;

use crate::DocError;
use crate::scan::{find_close, find_open, lemma_find_close_bounds, lemma_find_open_bounds};
use crate::signature::{lemma_sig_text_snoc, sig_text};
use crate::token::{Kw, Token};

verus! {

/// One implementation block associated with a struct or trait by name:
/// its reconstructed header text.
#[derive(Debug, PartialEq, Eq)]
pub struct Implementation {
    pub signature: String,
}

/// The mathematical model of an `Implementation` record.
pub struct ImplementationV {
    pub signature: Seq<char>,
}

impl View for Implementation {
    type V = ImplementationV;

    open spec fn view(&self) -> ImplementationV {
        ImplementationV { signature: self.signature@ }
    }
}

impl DeepView for Implementation {
    type V = ImplementationV;

    open spec fn deep_view(&self) -> ImplementationV {
        self.view()
    }
}

impl Clone for Implementation {
    fn clone(&self) -> (r: Self)
        ensures
            r == *self,
    {
        Implementation { signature: self.signature.clone() }
    }
}

/// Whether some identifier token in `lo..hi` has exactly the text `name`.
pub open spec fn header_mentions(s: Seq<Token>, lo: int, hi: int, name: Seq<char>) -> bool
    decreases hi - lo,
{
    if lo >= hi {
        false
    } else {
        (s[lo] matches Token::Ident(t) && t@ == name) || header_mentions(s, lo + 1, hi, name)
    }
}

pub proof fn lemma_header_mentions_snoc(s: Seq<Token>, lo: int, hi: int, name: Seq<char>)
    requires
        lo <= hi,
    ensures
        header_mentions(s, lo, hi + 1, name) == (header_mentions(s, lo, hi, name) || (s[hi] matches
            Token::Ident(t)
            && t@ == name)),
    decreases hi - lo,
{
    if lo == hi {
        assert(!header_mentions(s, lo + 1, hi + 1, name));
        assert(!header_mentions(s, lo, hi, name));
    } else {
        lemma_header_mentions_snoc(s, lo + 1, hi, name);
    }
}

/// The implementation records for `name` found from position `p` to the end
/// of the stream, in source order: every implementation block whose header
/// mentions `name` as an identifier contributes one record; blocks are
/// skipped whole, so nothing inside a body is taken for a new block.
pub open spec fn impls_spec(s: Seq<Token>, p: int, name: Seq<char>) -> Result<
    Seq<ImplementationV>,
    DocError,
>
    decreases s.len() - p,
    via impls_spec_dec
{
    if p < 0 || p >= s.len() {
        Ok(Seq::empty())
    } else if s[p] == Token::Keyword(Kw::Impl) {
        match find_open(s, p) {
            None => Err(DocError::StructuralError),
            Some(open) => match find_close(s, open, 0) {
                None => Err(DocError::StructuralError),
                Some(close) => match impls_spec(s, close + 1, name) {
                    Ok(rest) => if header_mentions(s, p, open, name) {
                        Ok(seq![ImplementationV { signature: sig_text(s, p, open) }] + rest)
                    } else {
                        Ok(rest)
                    },
                    Err(e) => Err(e),
                },
            },
        }
    } else {
        impls_spec(s, p + 1, name)
    }
}

#[via_fn]
proof fn impls_spec_dec(s: Seq<Token>, p: int, name: Seq<char>) {
    lemma_find_open_bounds(s, p);
    match find_open(s, p) {
        Some(open) => {
            lemma_find_close_bounds(s, open, 0);
        },
        None => {},
    }
}

impl Implementation {
    /// Scans the entire token stream for implementation blocks whose header
    /// names `name`, collecting one record per match in source order. The
    /// scan is stream-global: a block counts wherever it stands, before or
    /// after the declaration it implements.
    pub fn get_implementations(tokens: &Vec<Token>, name: &String) -> (r: Result<
        Vec<Implementation>,
        DocError,
    >)
        ensures
            match r {
                Ok(v) => impls_spec(tokens@, 0, name@) matches Ok(l) && v.deep_view() == l,
                Err(e) => impls_spec(tokens@, 0, name@) == Err::<Seq<ImplementationV>, DocError>(
                    e,
                ),
            },
    {
        let ghost s = tokens@;
        let n: usize = tokens.len();
        let mut acc: Vec<Implementation> = Vec::new();
        let mut p: usize = 0;
        proof {
            assert(acc.deep_view() =~= Seq::<ImplementationV>::empty());
        }
        loop
            invariant
                p <= n,
                n == s.len(),
                s == tokens@,
                match impls_spec(s, p as int, name@) {
                    Ok(rest) => impls_spec(s, 0, name@) matches Ok(l) && l == acc.deep_view()
                        + rest,
                    Err(e) => impls_spec(s, 0, name@) == Err::<Seq<ImplementationV>, DocError>(e),
                },
            decreases n - p,
        {
            if p >= n {
                proof {
                    assert(acc.deep_view() + Seq::<ImplementationV>::empty() =~= acc.deep_view());
                }
                return Ok(acc);
            }
            match &tokens[p] {
                Token::Keyword(Kw::Impl) => {
                    let mut sig = String::new();
                    let mut mentioned = false;
                    let mut q: usize = p;
                    loop
                        invariant
                            p < n,
                            p <= q <= n,
                            n == s.len(),
                            s == tokens@,
                            s[p as int] == Token::Keyword(Kw::Impl),
                            match impls_spec(s, p as int, name@) {
                                Ok(rest) => impls_spec(s, 0, name@) matches Ok(l) && l
                                    == acc.deep_view() + rest,
                                Err(e) => impls_spec(s, 0, name@) == Err::<
                                    Seq<ImplementationV>,
                                    DocError,
                                >(e),
                            },
                            find_open(s, p as int) == find_open(s, q as int),
                            sig@ == sig_text(s, p as int, q as int),
                            mentioned == header_mentions(s, p as int, q as int, name@),
                        ensures
                            q < n,
                            tokens@[q as int] is LeftBrace,
                            find_open(s, p as int) == Some(q as int),
                            sig@ == sig_text(s, p as int, q as int),
                            mentioned == header_mentions(s, p as int, q as int, name@),
                        decreases n - q,
                    {
                        if q >= n {
                            proof {
                                assert(find_open(s, q as int) is None);
                            }
                            return Err(DocError::StructuralError);
                        }
                        match &tokens[q] {
                            Token::LeftBrace => {
                                break ;
                            },
                            Token::Ident(t) => {
                                if *t == *name {
                                    mentioned = true;
                                }
                                let txt = tokens[q].text();
                                sig.append(txt.as_str());
                                sig.append(" ");
                                proof {
                                    lemma_sig_text_snoc(s, p as int, q as int);
                                    lemma_header_mentions_snoc(s, p as int, q as int, name@);
                                }
                                q = q + 1;
                            },
                            _ => {
                                let txt = tokens[q].text();
                                sig.append(txt.as_str());
                                sig.append(" ");
                                proof {
                                    lemma_sig_text_snoc(s, p as int, q as int);
                                    lemma_header_mentions_snoc(s, p as int, q as int, name@);
                                }
                                q = q + 1;
                            },
                        }
                    }
                    match crate::scan::skip_impl_block(tokens, q) {
                        Ok(d) => {
                            let ghost acc0 = acc.deep_view();
                            if mentioned {
                                acc.push(Implementation { signature: sig });
                            }
                            proof {
                                assert(find_open(s, q as int) == Some(q as int));
                                if mentioned {
                                    let iv = ImplementationV {
                                        signature: sig_text(s, p as int, q as int),
                                    };
                                    assert(acc.deep_view() =~= acc0.push(iv));
                                    match impls_spec(s, q + d + 1, name@) {
                                        Ok(rest) => {
                                            assert(acc0 + (seq![iv] + rest) =~= acc0.push(iv)
                                                + rest);
                                        },
                                        Err(e) => {},
                                    }
                                }
                            }
                            p = q + d + 1;
                        },
                        Err(e) => {
                            proof {
                                assert(find_open(s, q as int) == Some(q as int));
                            }
                            return Err(e);
                        },
                    }
                },
                _ => {
                    p = p + 1;
                },
            }
        }
    }
}

} // verus!
