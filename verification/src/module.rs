use vstd::prelude::*;
use vstd::string::StringExecFns;

use crate::DocError;
use crate::scan::{find_close, lemma_find_close_bounds};
use crate::token::{token_disp, Token};

verus! {

/// How a module declaration is terminated: by a statement terminator naming
/// an external file, or by an inline brace-delimited body whose tokens are
/// captured for recursive extraction.
#[derive(Debug, PartialEq, Eq)]
pub enum ModuleSource {
    External { filename: String },
    Inline { tokens: Vec<Token> },
}

/// The position of the first statement terminator or scope opener at or
/// after `i`: whichever comes first decides how the module is resolved.
pub open spec fn find_module_end(s: Seq<Token>, i: int) -> Option<int>
    decreases s.len() - i,
{
    if i < 0 || i >= s.len() {
        None
    } else if s[i] is Semicolon || s[i] is LeftBrace {
        Some(i)
    } else {
        find_module_end(s, i + 1)
    }
}

pub proof fn lemma_find_module_end_bounds(s: Seq<Token>, i: int)
    ensures
        find_module_end(s, i) matches Some(e) ==> i <= e < s.len(),
    decreases s.len() - i,
{
    if 0 <= i < s.len() && !(s[i] is Semicolon || s[i] is LeftBrace) {
        lemma_find_module_end_bounds(s, i + 1);
    }
}

/// The conventional path of the file that holds an externally declared
/// module: the fixed directory, the name, and the fixed extension.
pub open spec fn module_filename(name: Seq<char>) -> Seq<char> {
    "input_files/"@ + name + ".nr"@
}

/// Scans the module declaration at `index` for its termination: a terminator
/// names an external file (derived from the token just before the
/// terminator), an opening scope captures the balanced token sub-sequence,
/// closer included. A stream that ends first, a terminator with nothing
/// before it, or an unbalanced scope is a structural error.
pub fn module_source(tokens: &Vec<Token>, index: usize) -> (r: Result<ModuleSource, DocError>)
    ensures
        match r {
            Ok(ModuleSource::External { filename }) => {
                &&& find_module_end(tokens@, index as int) matches Some(e) && e >= 1 && tokens@[e]
                    is Semicolon && filename@ == module_filename(token_disp(tokens@[e - 1]))
            },
            Ok(ModuleSource::Inline { tokens: toks }) => {
                &&& find_module_end(tokens@, index as int) matches Some(e) && tokens@[e]
                    is LeftBrace && (find_close(tokens@, e, 0) matches Some(c) && toks@
                    == tokens@.subrange(e + 1, c + 1))
            },
            Err(err) => {
                &&& err == DocError::StructuralError
                &&& match find_module_end(tokens@, index as int) {
                    None => true,
                    Some(e) => (tokens@[e] is Semicolon && e == 0) || (tokens@[e] is LeftBrace
                        && find_close(tokens@, e, 0) is None),
                }
            },
        },
{
    let ghost s = tokens@;
    let n: usize = tokens.len();
    if index > n {
        return Err(DocError::StructuralError);
    }
    let mut i: usize = index;
    loop
        invariant
            index <= i <= n,
            n == s.len(),
            s == tokens@,
            find_module_end(s, index as int) == find_module_end(s, i as int),
        ensures
            i < n,
            n == s.len(),
            (tokens@[i as int] is Semicolon || tokens@[i as int] is LeftBrace),
            find_module_end(s, index as int) == Some(i as int),
        decreases n - i,
    {
        if i >= n {
            return Err(DocError::StructuralError);
        }
        match &tokens[i] {
            Token::Semicolon => {
                break ;
            },
            Token::LeftBrace => {
                break ;
            },
            _ => {
                i = i + 1;
            },
        }
    }
    let is_semi = match &tokens[i] {
        Token::Semicolon => true,
        _ => false,
    };
    if is_semi {
        if i == 0 {
            return Err(DocError::StructuralError);
        }
        let mut filename = String::from_str("input_files/");
        let nametext = tokens[i - 1].text();
        filename.append(nametext.as_str());
        filename.append(".nr");
        Ok(ModuleSource::External { filename })
    } else {
        match crate::scan::skip_impl_block(tokens, i) {
            Ok(d) => {
                proof {
                    assert(crate::scan::find_open(s, i as int) == Some(i as int));
                    lemma_find_close_bounds(s, i as int, 0);
                }
                let close: usize = i + d;
                let mut toks: Vec<Token> = Vec::new();
                let mut j: usize = i + 1;
                proof {
                    assert(toks@ =~= s.subrange(i + 1, i + 1));
                }
                while j <= close
                    invariant
                        i + 1 <= j <= close + 1,
                        close < n,
                        n == s.len(),
                        s == tokens@,
                        toks@ == s.subrange(i + 1, j as int),
                    decreases close + 1 - j,
                {
                    toks.push(tokens[j].clone());
                    proof {
                        assert(s.subrange(i + 1, j + 1) =~= s.subrange(i + 1, j as int).push(
                            s[j as int],
                        ));
                    }
                    j = j + 1;
                }
                Ok(ModuleSource::Inline { tokens: toks })
            },
            Err(e) => {
                proof {
                    assert(crate::scan::find_open(s, i as int) == Some(i as int));
                }
                Err(e)
            },
        }
    }
}

} // verus!
