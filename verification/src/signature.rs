use vstd::prelude::*;
use vstd::string::StringExecFns;

use crate::DocError;
use crate::comments::doc_spec;
use crate::scan::{find_close, find_open, lemma_find_close_bounds, lemma_find_open_bounds};
use crate::token::{ident_text, token_disp, Kw, Token};

verus! {

/// The display texts of the tokens in `lo..hi`, each followed by one space,
/// concatenated in source order.
pub open spec fn sig_text(s: Seq<Token>, lo: int, hi: int) -> Seq<char>
    decreases hi - lo,
{
    if lo >= hi {
        Seq::empty()
    } else {
        token_disp(s[lo]) + " "@ + sig_text(s, lo + 1, hi)
    }
}

pub proof fn lemma_sig_text_snoc(s: Seq<Token>, lo: int, hi: int)
    requires
        lo <= hi,
    ensures
        sig_text(s, lo, hi + 1) == sig_text(s, lo, hi) + token_disp(s[hi]) + " "@,
    decreases hi - lo,
{
    if lo == hi {
        assert(sig_text(s, lo + 1, hi + 1) == Seq::<char>::empty());
        assert(sig_text(s, lo, hi) == Seq::<char>::empty());
    } else {
        lemma_sig_text_snoc(s, lo + 1, hi);
        assert(sig_text(s, lo, hi + 1) == token_disp(s[lo]) + " "@ + sig_text(s, lo + 1, hi + 1));
        assert(sig_text(s, lo, hi) == token_disp(s[lo]) + " "@ + sig_text(s, lo + 1, hi));
    }
    assert(sig_text(s, lo, hi + 1) =~= sig_text(s, lo, hi) + token_disp(s[hi]) + " "@);
}

/// The position of the first scope opener or statement terminator at or
/// after `i`: where a declaration's signature text ends.
pub open spec fn find_sig_end(s: Seq<Token>, i: int) -> Option<int>
    decreases s.len() - i,
{
    if i < 0 || i >= s.len() {
        None
    } else if s[i] is LeftBrace || s[i] is Semicolon {
        Some(i)
    } else {
        find_sig_end(s, i + 1)
    }
}

pub proof fn lemma_find_sig_end_bounds(s: Seq<Token>, i: int)
    ensures
        find_sig_end(s, i) matches Some(e) ==> i <= e < s.len(),
    decreases s.len() - i,
{
    if 0 <= i < s.len() && !(s[i] is LeftBrace || s[i] is Semicolon) {
        lemma_find_sig_end_bounds(s, i + 1);
    }
}

/// Reconstructs a function signature: the display texts of the tokens from
/// `index` up to (excluding) the first scope opener or terminator,
/// space-separated. A stream that ends before either is a structural error.
pub fn fn_signature(tokens: &Vec<Token>, index: usize) -> (r: Result<String, DocError>)
    ensures
        match r {
            Ok(t) => {
                &&& find_sig_end(tokens@, index as int) matches Some(e) && t@ == sig_text(
                    tokens@,
                    index as int,
                    e,
                )
            },
            Err(e) => {
                &&& e == DocError::StructuralError
                &&& find_sig_end(tokens@, index as int) is None
            },
        },
{
    let ghost s = tokens@;
    let n: usize = tokens.len();
    if index > n {
        return Err(DocError::StructuralError);
    }
    let mut res = String::new();
    let mut i: usize = index;
    loop
        invariant
            index <= i <= n,
            n == s.len(),
            s == tokens@,
            find_sig_end(s, index as int) == find_sig_end(s, i as int),
            res@ == sig_text(s, index as int, i as int),
        decreases n - i,
    {
        if i >= n {
            return Err(DocError::StructuralError);
        }
        match &tokens[i] {
            Token::LeftBrace => {
                return Ok(res);
            },
            Token::Semicolon => {
                return Ok(res);
            },
            _ => {
                let t = tokens[i].text();
                res.append(t.as_str());
                res.append(" ");
                proof {
                    lemma_sig_text_snoc(s, index as int, i as int);
                }
                i = i + 1;
            },
        }
    }
}

/// One function or method record: its name, associated documentation,
/// reconstructed signature text, and whether it was found inside a trait
/// body.
#[derive(Debug, PartialEq, Eq)]
pub struct Function {
    pub name: String,
    pub doc: String,
    pub signature: String,
    pub is_method: bool,
}

/// The mathematical model of a `Function` record.
pub struct FunctionV {
    pub name: Seq<char>,
    pub doc: Seq<char>,
    pub signature: Seq<char>,
    pub is_method: bool,
}

impl View for Function {
    type V = FunctionV;

    open spec fn view(&self) -> FunctionV {
        FunctionV { name: self.name@, doc: self.doc@, signature: self.signature@, is_method: self.is_method }
    }
}

impl DeepView for Function {
    type V = FunctionV;

    open spec fn deep_view(&self) -> FunctionV {
        self.view()
    }
}

impl Clone for Function {
    fn clone(&self) -> (r: Self)
        ensures
            r == *self,
    {
        Function {
            name: self.name.clone(),
            doc: self.doc.clone(),
            signature: self.signature.clone(),
            is_method: self.is_method,
        }
    }
}

/// The rendered body of a struct, scanned one token at a time from `i`.
/// `seen_pub` records whether a public field has been emitted; `in_field`
/// is true while inside a public field's token run. Fields not marked
/// public are never emitted; a body with no public field renders the
/// private-fields placeholder instead.
pub open spec fn struct_body_spec(s: Seq<Token>, i: int, seen_pub: bool, in_field: bool) -> Result<
    Seq<char>,
    DocError,
>
    decreases s.len() - i,
{
    if i < 0 || i >= s.len() {
        Err(DocError::StructuralError)
    } else if in_field {
        if s[i] is Comma {
            if i + 1 >= s.len() {
                Err(DocError::StructuralError)
            } else {
                match struct_body_spec(s, i + 1, seen_pub, false) {
                    Ok(rest) => Ok(
                        (if s[i + 1] is RightBrace {
                            ","@
                        } else {
                            ",\n"@
                        }) + rest,
                    ),
                    Err(e) => Err(e),
                }
            }
        } else if s[i] is RightBrace {
            Ok("\n}"@)
        } else {
            match struct_body_spec(s, i + 1, seen_pub, true) {
                Ok(rest) => Ok(token_disp(s[i]) + " "@ + rest),
                Err(e) => Err(e),
            }
        }
    } else {
        if s[i] is RightBrace {
            Ok(
                (if seen_pub {
                    Seq::<char>::empty()
                } else {
                    "/* private fields */"@
                }) + "\n}"@,
            )
        } else if s[i] == Token::Keyword(Kw::Pub) {
            match struct_body_spec(s, i + 1, true, true) {
                Ok(rest) => Ok(token_disp(s[i]) + " "@ + rest),
                Err(e) => Err(e),
            }
        } else {
            struct_body_spec(s, i + 1, seen_pub, false)
        }
    }
}

/// The full rendered signature of a struct declaration starting at `index`:
/// the header tokens up to the scope opener, then the body rendering.
pub open spec fn struct_signature_spec(s: Seq<Token>, index: int) -> Result<Seq<char>, DocError> {
    match find_open(s, index) {
        None => Err(DocError::StructuralError),
        Some(open) => match struct_body_spec(s, open + 1, false, false) {
            Ok(b) => Ok(sig_text(s, index, open) + "{\n"@ + b),
            Err(e) => Err(e),
        },
    }
}

/// Reconstructs a struct signature: header tokens verbatim, public fields
/// verbatim, private fields redacted behind a placeholder when no public
/// field exists.
pub fn struct_signature(tokens: &Vec<Token>, index: usize) -> (r: Result<String, DocError>)
    ensures
        match r {
            Ok(t) => struct_signature_spec(tokens@, index as int) matches Ok(b) && t@ == b,
            Err(e) => struct_signature_spec(tokens@, index as int) == Err::<Seq<char>, DocError>(
                e,
            ),
        },
{
    let ghost s = tokens@;
    let n: usize = tokens.len();
    if index > n {
        return Err(DocError::StructuralError);
    }
    let mut res = String::new();
    let mut i: usize = index;
    loop
        invariant
            index <= i <= n,
            n == s.len(),
            s == tokens@,
            find_open(s, index as int) == find_open(s, i as int),
            res@ == sig_text(s, index as int, i as int),
        ensures
            i < n,
            n == s.len(),
            tokens@[i as int] is LeftBrace,
            find_open(s, index as int) == Some(i as int),
            res@ == sig_text(s, index as int, i as int),
        decreases n - i,
    {
        if i >= n {
            return Err(DocError::StructuralError);
        }
        match &tokens[i] {
            Token::LeftBrace => {
                break ;
            },
            _ => {
                let t = tokens[i].text();
                res.append(t.as_str());
                res.append(" ");
                proof {
                    lemma_sig_text_snoc(s, index as int, i as int);
                }
                i = i + 1;
            },
        }
    }
    let ghost open = i as int;
    res.append("{\n");
    let mut seen_pub = false;
    let mut in_field = false;
    i = i + 1;
    loop
        invariant
            open < i <= n,
            n == s.len(),
            s == tokens@,
            find_open(s, index as int) == Some(open),
            match struct_body_spec(s, i as int, seen_pub, in_field) {
                Ok(rest) => struct_signature_spec(s, index as int) matches Ok(b) && b == res@
                    + rest,
                Err(e) => struct_signature_spec(s, index as int) == Err::<Seq<char>, DocError>(e),
            },
        decreases n - i,
    {
        if i >= n {
            return Err(DocError::StructuralError);
        }
        if in_field {
            match &tokens[i] {
                Token::Comma => {
                    if i + 1 >= n {
                        return Err(DocError::StructuralError);
                    }
                    let next_is_close = match &tokens[i + 1] {
                        Token::RightBrace => true,
                        _ => false,
                    };
                    if next_is_close {
                        res.append(",");
                    } else {
                        res.append(",\n");
                    }
                    in_field = false;
                    i = i + 1;
                },
                Token::RightBrace => {
                    res.append("\n}");
                    return Ok(res);
                },
                _ => {
                    let t = tokens[i].text();
                    res.append(t.as_str());
                    res.append(" ");
                    i = i + 1;
                },
            }
        } else {
            match &tokens[i] {
                Token::RightBrace => {
                    if !seen_pub {
                        res.append("/* private fields */");
                    }
                    res.append("\n}");
                    return Ok(res);
                },
                Token::Keyword(Kw::Pub) => {
                    let t = tokens[i].text();
                    res.append(t.as_str());
                    res.append(" ");
                    seen_pub = true;
                    in_field = true;
                    i = i + 1;
                },
                _ => {
                    i = i + 1;
                },
            }
        }
    }
}

proof fn lemma_private_body(s: Seq<Token>, i: int, rb: int)
    requires
        0 <= i <= rb < s.len(),
        s[rb] is RightBrace,
        forall|k: int| i <= k < rb ==> !(s[k] is RightBrace) && s[k] != Token::Keyword(Kw::Pub),
    ensures
        struct_body_spec(s, i, false, false) == Ok::<Seq<char>, DocError>(
            "/* private fields */"@ + "\n}"@,
        ),
    decreases rb - i,
{
    if i < rb {
        lemma_private_body(s, i + 1, rb);
    }
}

/// A struct body with no public field before its closing brace always
/// renders the private-fields placeholder, and no field token of it is
/// ever emitted.
pub proof fn lemma_private_struct_placeholder(s: Seq<Token>, index: int, rb: int)
    requires
        find_open(s, index) matches Some(open) && (open + 1 <= rb < s.len() && s[rb]
            is RightBrace && (forall|k: int|
            open + 1 <= k < rb ==> !(s[k] is RightBrace) && s[k] != Token::Keyword(Kw::Pub))),
    ensures
        struct_signature_spec(s, index) == Ok::<Seq<char>, DocError>(
            sig_text(s, index, find_open(s, index)->Some_0) + "{\n"@ + ("/* private fields */"@
                + "\n}"@),
        ),
{
    let open = find_open(s, index)->Some_0;
    lemma_find_open_bounds(s, index);
    lemma_private_body(s, open + 1, rb);
}

/// With a public field present before the first closing brace, the
/// rendering is the same as with the public-field flag already set, under
/// which the placeholder branch of `struct_body_spec` is never taken: a
/// struct with at least one public field never emits the placeholder.
pub proof fn lemma_pub_struct_no_placeholder(s: Seq<Token>, i: int, p: int)
    requires
        0 <= i <= p < s.len(),
        s[p] == Token::Keyword(Kw::Pub),
        forall|k: int| i <= k < p ==> !(s[k] is RightBrace) && s[k] != Token::Keyword(Kw::Pub),
    ensures
        struct_body_spec(s, i, false, false) == struct_body_spec(s, i, true, false),
    decreases p - i,
{
    if i < p {
        lemma_pub_struct_no_placeholder(s, i + 1, p);
    }
}

/// The mathematical model of what trait extraction yields: the rendered
/// signature text and the required and provided method records, in source
/// order.
pub struct TraitInfoV {
    pub signature: Seq<char>,
    pub required: Seq<FunctionV>,
    pub provided: Seq<FunctionV>,
}

/// The body of a trait, scanned one token at a time from `j`. A method
/// ending in a terminator is required; one ending in a scope opener is
/// provided, its body elided behind a placeholder and skipped. A method
/// keyword not followed by an identifier stops the scan, keeping what was
/// collected so far. Tokens that belong to no method declaration are
/// passed over and contribute nothing to the signature text.
pub open spec fn trait_body_spec(s: Seq<Token>, j: int) -> Result<TraitInfoV, DocError>
    decreases s.len() - j, 1int,
{
    if j < 0 || j >= s.len() {
        Err(DocError::StructuralError)
    } else if s[j] is RightBrace {
        Ok(TraitInfoV { signature: "}"@, required: Seq::empty(), provided: Seq::empty() })
    } else if s[j] == Token::Keyword(Kw::Fn) {
        if j + 1 >= s.len() {
            Err(DocError::StructuralError)
        } else if !(s[j + 1] matches Token::Ident(_)) {
            Ok(TraitInfoV { signature: Seq::empty(), required: Seq::empty(), provided: Seq::empty() })
        } else {
            match find_sig_end(s, j) {
                None => Err(DocError::StructuralError),
                Some(e) => method_scan(
                    s,
                    j,
                    ident_text(s[j + 1]),
                    doc_spec(s, j),
                    sig_text(s, j, e),
                ),
            }
        }
    } else {
        trait_body_spec(s, j + 1)
    }
}

/// Scans past one method declaration starting inside a trait body: emits its
/// tokens until the terminator or scope opener that classifies it, records
/// it as required or provided, and resumes the body scan.
pub open spec fn method_scan(
    s: Seq<Token>,
    k: int,
    name: Seq<char>,
    dc: Seq<char>,
    fsig: Seq<char>,
) -> Result<TraitInfoV, DocError>
    decreases s.len() - k, 0int,
    via method_scan_dec
{
    if k < 0 || k >= s.len() {
        Err(DocError::StructuralError)
    } else if s[k] is Semicolon {
        match trait_body_spec(s, k + 1) {
            Ok(r) => Ok(
                TraitInfoV {
                    signature: ";\n"@ + r.signature,
                    required: seq![
                        FunctionV { name: name, doc: dc, signature: fsig, is_method: true },
                    ] + r.required,
                    provided: r.provided,
                },
            ),
            Err(e) => Err(e),
        }
    } else if s[k] is LeftBrace {
        match find_close(s, k, 0) {
            None => Err(DocError::StructuralError),
            Some(close) => match trait_body_spec(s, close + 1) {
                Ok(r) => Ok(
                    TraitInfoV {
                        signature: "{ ... }\n"@ + r.signature,
                        required: r.required,
                        provided: seq![
                            FunctionV { name: name, doc: dc, signature: fsig, is_method: true },
                        ] + r.provided,
                    },
                ),
                Err(e) => Err(e),
            },
        }
    } else {
        match method_scan(s, k + 1, name, dc, fsig) {
            Ok(r) => Ok(
                TraitInfoV {
                    signature: token_disp(s[k]) + " "@ + r.signature,
                    required: r.required,
                    provided: r.provided,
                },
            ),
            Err(e) => Err(e),
        }
    }
}

#[via_fn]
proof fn method_scan_dec(s: Seq<Token>, k: int, name: Seq<char>, dc: Seq<char>, fsig: Seq<char>) {
    lemma_find_close_bounds(s, k, 0);
}

/// The number of method declarations the trait body scan starting at `j`
/// classifies, counting each one once whether it turns out required or
/// provided.
pub open spec fn body_method_count(s: Seq<Token>, j: int) -> int
    decreases s.len() - j, 1int,
{
    if j < 0 || j >= s.len() {
        0
    } else if s[j] is RightBrace {
        0
    } else if s[j] == Token::Keyword(Kw::Fn) {
        if j + 1 >= s.len() {
            0
        } else if !(s[j + 1] matches Token::Ident(_)) {
            0
        } else {
            scan_method_count(s, j)
        }
    } else {
        body_method_count(s, j + 1)
    }
}

/// The continuation of `body_method_count` through one method declaration.
pub open spec fn scan_method_count(s: Seq<Token>, k: int) -> int
    decreases s.len() - k, 0int,
    via scan_method_count_dec
{
    if k < 0 || k >= s.len() {
        0
    } else if s[k] is Semicolon {
        1 + body_method_count(s, k + 1)
    } else if s[k] is LeftBrace {
        match find_close(s, k, 0) {
            None => 0,
            Some(close) => 1 + body_method_count(s, close + 1),
        }
    } else {
        scan_method_count(s, k + 1)
    }
}

#[via_fn]
proof fn scan_method_count_dec(s: Seq<Token>, k: int) {
    lemma_find_close_bounds(s, k, 0);
}

proof fn lemma_scan_partition(s: Seq<Token>, k: int, name: Seq<char>, dc: Seq<char>, fsig: Seq<char>)
    ensures
        method_scan(s, k, name, dc, fsig) matches Ok(r) ==> r.required.len() + r.provided.len()
            == scan_method_count(s, k),
    decreases s.len() - k, 0int,
{
    if 0 <= k < s.len() {
        if s[k] is Semicolon {
            lemma_trait_method_partition(s, k + 1);
        } else if s[k] is LeftBrace {
            match find_close(s, k, 0) {
                Some(close) => {
                    lemma_find_close_bounds(s, k, 0);
                    lemma_trait_method_partition(s, close + 1);
                },
                None => {},
            }
        } else {
            lemma_scan_partition(s, k + 1, name, dc, fsig);
        }
    }
}

/// Each trait method is classified exactly once: a declaration ending in a
/// terminator becomes required, one ending in a scope opener becomes
/// provided, and the two counts together equal the number of method
/// declarations the body scan meets.
pub proof fn lemma_trait_method_partition(s: Seq<Token>, j: int)
    ensures
        trait_body_spec(s, j) matches Ok(r) ==> r.required.len() + r.provided.len()
            == body_method_count(s, j),
    decreases s.len() - j, 1int,
{
    if 0 <= j < s.len() {
        if s[j] is RightBrace {
        } else if s[j] == Token::Keyword(Kw::Fn) {
            if j + 1 < s.len() && (s[j + 1] matches Token::Ident(_)) {
                match find_sig_end(s, j) {
                    Some(e) => {
                        lemma_scan_partition(
                            s,
                            j,
                            ident_text(s[j + 1]),
                            doc_spec(s, j),
                            sig_text(s, j, e),
                        );
                    },
                    None => {},
                }
            }
        } else {
            lemma_trait_method_partition(s, j + 1);
        }
    }
}

/// The full result of trait extraction for the trait keyword at `index`:
/// header tokens after the keyword up to the scope opener, then the body.
pub open spec fn trait_info_spec(s: Seq<Token>, index: int) -> Result<TraitInfoV, DocError> {
    match find_open(s, index + 1) {
        None => Err(DocError::StructuralError),
        Some(open) => match trait_body_spec(s, open + 1) {
            Ok(r) => Ok(
                TraitInfoV {
                    signature: sig_text(s, index + 1, open) + "{\n"@ + r.signature,
                    required: r.required,
                    provided: r.provided,
                },
            ),
            Err(e) => Err(e),
        },
    }
}

/// Extracts a trait's rendered signature together with its required and
/// provided method records, in source order.
pub fn trait_info(tokens: &Vec<Token>, index: usize) -> (r: Result<
    (String, Vec<Function>, Vec<Function>),
    DocError,
>)
    requires
        index < tokens@.len(),
    ensures
        match r {
            Ok(t) => trait_info_spec(tokens@, index as int) matches Ok(ti) && t.0@ == ti.signature
                && t.1.deep_view() == ti.required && t.2.deep_view() == ti.provided,
            Err(e) => trait_info_spec(tokens@, index as int) == Err::<TraitInfoV, DocError>(e),
        },
{
    let ghost s = tokens@;
    let n: usize = tokens.len();
    let mut res = String::new();
    let mut i: usize = index + 1;
    loop
        invariant
            index + 1 <= i <= n,
            n == s.len(),
            s == tokens@,
            find_open(s, index as int + 1) == find_open(s, i as int),
            res@ == sig_text(s, index as int + 1, i as int),
        ensures
            i < n,
            n == s.len(),
            tokens@[i as int] is LeftBrace,
            find_open(s, index as int + 1) == Some(i as int),
            res@ == sig_text(s, index as int + 1, i as int),
        decreases n - i,
    {
        if i >= n {
            return Err(DocError::StructuralError);
        }
        match &tokens[i] {
            Token::LeftBrace => {
                break ;
            },
            _ => {
                let t = tokens[i].text();
                res.append(t.as_str());
                res.append(" ");
                proof {
                    lemma_sig_text_snoc(s, index as int + 1, i as int);
                }
                i = i + 1;
            },
        }
    }
    let ghost open = i as int;
    res.append("{\n");
    i = i + 1;
    let mut req: Vec<Function> = Vec::new();
    let mut prov: Vec<Function> = Vec::new();
    proof {
        assert(res@ =~= sig_text(s, index as int + 1, open) + "{\n"@);
        assert(req.deep_view() =~= Seq::<FunctionV>::empty());
        assert(prov.deep_view() =~= Seq::<FunctionV>::empty());
    }
    loop
        invariant
            open < i <= n,
            n == s.len(),
            s == tokens@,
            index < s.len(),
            find_open(s, index as int + 1) == Some(open),
            match trait_body_spec(s, i as int) {
                Ok(rm) => trait_info_spec(s, index as int) matches Ok(ti) && ti.signature == res@
                    + rm.signature && ti.required == req.deep_view() + rm.required && ti.provided
                    == prov.deep_view() + rm.provided,
                Err(e) => trait_info_spec(s, index as int) == Err::<TraitInfoV, DocError>(e),
            },
        decreases n - i,
    {
        if i >= n {
            return Err(DocError::StructuralError);
        }
        match &tokens[i] {
            Token::RightBrace => {
                res.append("}");
                proof {
                    assert(req.deep_view() + Seq::<FunctionV>::empty() =~= req.deep_view());
                    assert(prov.deep_view() + Seq::<FunctionV>::empty() =~= prov.deep_view());
                }
                return Ok((res, req, prov));
            },
            Token::Keyword(Kw::Fn) => {
                if i + 1 >= n {
                    return Err(DocError::StructuralError);
                }
                let name_opt: Option<String> = match &tokens[i + 1] {
                    Token::Ident(s2) => Some(s2.clone()),
                    _ => None,
                };
                let namestr = match name_opt {
                    Some(x) => x,
                    None => {
                        proof {
                            assert(req.deep_view() + Seq::<FunctionV>::empty()
                                =~= req.deep_view());
                            assert(prov.deep_view() + Seq::<FunctionV>::empty()
                                =~= prov.deep_view());
                            assert(res@ + Seq::<char>::empty() =~= res@);
                        }
                        return Ok((res, req, prov));
                    },
                };
                let dc = crate::comments::doc(tokens, i);
                let fsig = match fn_signature(tokens, i) {
                    Ok(t) => t,
                    Err(e) => {
                        return Err(e);
                    },
                };
                let ghost gname = namestr@;
                let ghost gdc = dc@;
                let ghost gfsig = fsig@;
                let mut k: usize = i;
                loop
                    invariant_except_break
                        match method_scan(s, k as int, gname, gdc, gfsig) {
                            Ok(rm) => trait_info_spec(s, index as int) matches Ok(ti)
                                && ti.signature == res@ + rm.signature && ti.required
                                == req.deep_view() + rm.required && ti.provided
                                == prov.deep_view() + rm.provided,
                            Err(e) => trait_info_spec(s, index as int) == Err::<
                                TraitInfoV,
                                DocError,
                            >(e),
                        },
                    invariant
                        i <= k <= n,
                        n == s.len(),
                        s == tokens@,
                        index < s.len(),
                        gname == namestr@,
                        gdc == dc@,
                        gfsig == fsig@,
                    ensures
                        i < k <= n,
                        match trait_body_spec(s, k as int) {
                            Ok(rm) => trait_info_spec(s, index as int) matches Ok(ti)
                                && ti.signature == res@ + rm.signature && ti.required
                                == req.deep_view() + rm.required && ti.provided
                                == prov.deep_view() + rm.provided,
                            Err(e) => trait_info_spec(s, index as int) == Err::<
                                TraitInfoV,
                                DocError,
                            >(e),
                        },
                    decreases n - k,
                {
                    if k >= n {
                        return Err(DocError::StructuralError);
                    }
                    match &tokens[k] {
                        Token::Semicolon => {
                            let ghost req0 = req.deep_view();
                            let ghost rm0 = method_scan(s, k as int, gname, gdc, gfsig);
                            req.push(
                                Function {
                                    name: namestr.clone(),
                                    doc: dc.clone(),
                                    signature: fsig.clone(),
                                    is_method: true,
                                },
                            );
                            res.append(";\n");
                            proof {
                                let fv = FunctionV {
                                    name: gname,
                                    doc: gdc,
                                    signature: gfsig,
                                    is_method: true,
                                };
                                assert(req.deep_view() =~= req0.push(fv));
                                assert(req0 + (seq![fv] + trait_body_spec(
                                    s,
                                    k as int + 1,
                                )->Ok_0.required) =~= req0.push(fv) + trait_body_spec(
                                    s,
                                    k as int + 1,
                                )->Ok_0.required);
                            }
                            k = k + 1;
                            break ;
                        },
                        Token::LeftBrace => {
                            let ghost prov0 = prov.deep_view();
                            prov.push(
                                Function {
                                    name: namestr.clone(),
                                    doc: dc.clone(),
                                    signature: fsig.clone(),
                                    is_method: true,
                                },
                            );
                            res.append("{ ... }\n");
                            match crate::scan::skip_impl_block(tokens, k) {
                                Ok(d) => {
                                    proof {
                                        let fv = FunctionV {
                                            name: gname,
                                            doc: gdc,
                                            signature: gfsig,
                                            is_method: true,
                                        };
                                        assert(find_open(s, k as int) == Some(k as int));
                                        assert(prov.deep_view() =~= prov0.push(fv));
                                        assert(prov0 + (seq![fv] + trait_body_spec(
                                            s,
                                            k + d + 1,
                                        )->Ok_0.provided) =~= prov0.push(fv) + trait_body_spec(
                                            s,
                                            k + d + 1,
                                        )->Ok_0.provided);
                                    }
                                    k = k + d + 1;
                                    break ;
                                },
                                Err(e) => {
                                    proof {
                                        assert(find_open(s, k as int) == Some(k as int));
                                    }
                                    return Err(e);
                                },
                            }
                        },
                        _ => {
                            let t = tokens[k].text();
                            res.append(t.as_str());
                            res.append(" ");
                            k = k + 1;
                        },
                    }
                }
                i = k;
            },
            _ => {
                i = i + 1;
            },
        }
    }
}

} // verus!
