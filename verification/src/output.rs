use vstd::prelude::*;
use vstd::string::StringExecFns;

use crate::DocError;
use crate::comments::{
    additional_doc, additional_doc_spec, doc, doc_spec, inner_run_end, outer_doc, outer_doc_text,
};
use crate::impls::{impls_spec, Implementation, ImplementationV};
use crate::module::{find_module_end, module_filename, module_source, ModuleSource};
use crate::scan::{
    find_close, lemma_find_close_bounds, lemma_find_open_bounds, skip_block_spec, skip_impl_block,
};
use crate::signature::{
    find_sig_end, fn_signature, sig_text, struct_signature, struct_signature_spec, trait_info,
    trait_info_spec, Function, FunctionV,
};
use crate::token::{ident_text, is_inner_comment, token_disp, Kw, Token};

verus! {

broadcast use vstd::std_specs::vec::group_vec_axioms, vstd::seq::group_seq_axioms;

/// The category of an extracted declaration.
#[derive(Debug, Clone, Copy, PartialEq, Eq, Hash, Structural)]
pub enum Type {
    Function,
    Module,
    Struct,
    Trait,
    OuterComment,
}

/// The rendered label of a category, one line each.
pub open spec fn type_label(t: Type) -> Seq<char> {
    match t {
        Type::Function => "Function\n"@,
        Type::Module => "Module\n"@,
        Type::Struct => "Struct\n"@,
        Type::Trait => "Trait\n"@,
        Type::OuterComment => "OuterComment\n"@,
    }
}

/// The bare name of a category.
pub open spec fn kind_name(t: Type) -> Seq<char> {
    match t {
        Type::Function => "Function"@,
        Type::Module => "Module"@,
        Type::Struct => "Struct"@,
        Type::Trait => "Trait"@,
        Type::OuterComment => "OuterComment"@,
    }
}

impl Type {
    /// Renders the category as one labelled line.
    pub fn label(&self) -> (r: String)
        ensures
            r@ == type_label(*self),
    {
        match self {
            Type::Function => String::from_str("Function\n"),
            Type::Module => String::from_str("Module\n"),
            Type::Struct => String::from_str("Struct\n"),
            Type::Trait => String::from_str("Trait\n"),
            Type::OuterComment => String::from_str("OuterComment\n"),
        }
    }

    fn name_text(&self) -> (r: String)
        ensures
            r@ == kind_name(*self),
    {
        match self {
            Type::Function => String::from_str("Function"),
            Type::Module => String::from_str("Module"),
            Type::Struct => String::from_str("Struct"),
            Type::Trait => String::from_str("Trait"),
            Type::OuterComment => String::from_str("OuterComment"),
        }
    }
}

/// The kind-specific detail of an extracted declaration. A module declared
/// inline carries its recursively extracted children; one declared
/// externally carries the conventional path of the file that holds it.
#[derive(Debug, PartialEq, Eq)]
pub enum Info {
    Function { signature: String },
    Module { content: Vec<Output> },
    ModuleFile { filename: String },
    Struct { signature: String, additional_doc: String, implementations: Vec<Implementation> },
    Trait {
        signature: String,
        additional_doc: String,
        required_methods: Vec<Function>,
        provided_methods: Vec<Function>,
        implementations: Vec<Implementation>,
    },
    Blanc,
}

/// One extracted declaration: its category, name, associated documentation,
/// and detail.
#[derive(Debug, PartialEq, Eq)]
pub struct Output {
    pub kind: Type,
    pub name: String,
    pub doc: String,
    pub information: Info,
}

/// The mathematical model of an `Info` value.
pub enum InfoV {
    Function { signature: Seq<char> },
    Module { content: Seq<OutputV> },
    ModuleFile { filename: Seq<char> },
    Struct {
        signature: Seq<char>,
        additional_doc: Seq<char>,
        implementations: Seq<ImplementationV>,
    },
    Trait {
        signature: Seq<char>,
        additional_doc: Seq<char>,
        required_methods: Seq<FunctionV>,
        provided_methods: Seq<FunctionV>,
        implementations: Seq<ImplementationV>,
    },
    Blanc,
}

/// The mathematical model of an `Output` node.
pub struct OutputV {
    pub kind: Type,
    pub name: Seq<char>,
    pub doc: Seq<char>,
    pub information: InfoV,
}

/// The model of one extracted node.
pub open spec fn output_deep(o: Output) -> OutputV
    decreases o,
{
    OutputV { kind: o.kind, name: o.name@, doc: o.doc@, information: info_deep(o.information) }
}

/// The model of a node's detail.
pub open spec fn info_deep(inf: Info) -> InfoV
    decreases inf,
{
    match inf {
        Info::Function { signature } => InfoV::Function { signature: signature@ },
        Info::Module { content } => InfoV::Module { content: outputs_deep(content@) },
        Info::ModuleFile { filename } => InfoV::ModuleFile { filename: filename@ },
        Info::Struct { signature, additional_doc, implementations } => InfoV::Struct {
            signature: signature@,
            additional_doc: additional_doc@,
            implementations: implementations.deep_view(),
        },
        Info::Trait {
            signature,
            additional_doc,
            required_methods,
            provided_methods,
            implementations,
        } => InfoV::Trait {
            signature: signature@,
            additional_doc: additional_doc@,
            required_methods: required_methods.deep_view(),
            provided_methods: provided_methods.deep_view(),
            implementations: implementations.deep_view(),
        },
        Info::Blanc => InfoV::Blanc,
    }
}

/// The models of a sequence of extracted nodes, in order.
pub open spec fn outputs_deep(v: Seq<Output>) -> Seq<OutputV>
    decreases v,
    via outputs_deep_dec
{
    if v.len() <= 0 {
        Seq::empty()
    } else {
        outputs_deep(v.subrange(0, v.len() - 1)).push(output_deep(v[v.len() - 1]))
    }
}

#[via_fn]
proof fn outputs_deep_dec(v: Seq<Output>) {
    if v.len() > 0 {
        vstd::seq::axiom_seq_index_decreases(v, v.len() - 1);
        vstd::seq::axiom_seq_subrange_decreases(v, 0, v.len() - 1);
    }
}

/// The model of what module resolution yields.
pub enum ModuleContentV {
    External { filename: Seq<char> },
    Inline { content: Seq<OutputV> },
}

/// What a module declaration resolves to: the conventional file path for an
/// externally declared module, or the recursively extracted children of an
/// inline one.
#[derive(Debug, PartialEq, Eq)]
pub enum ModuleContent {
    External { filename: String },
    Inline { content: Vec<Output> },
}

/// The nodes extracted from the token stream `s`, starting at position `i`;
/// `first` tracks whether a whole-file leading comment block is still
/// expected. One node per recognized declaration, in source order; a
/// declaration keyword not followed by an identifier contributes no node
/// and is skipped.
pub open spec fn extract_spec(s: Seq<Token>, i: int, first: bool) -> Result<Seq<OutputV>, DocError>
    decreases s.len(), 1int, s.len() - i,
    via extract_spec_dec
{
    if i < 0 || i >= s.len() {
        Ok(Seq::empty())
    } else if s[i] == Token::Keyword(Kw::Fn) {
        if i + 1 >= s.len() {
            Err(DocError::StructuralError)
        } else if !(s[i + 1] matches Token::Ident(_)) {
            extract_spec(s, i + 1, first)
        } else {
            match find_sig_end(s, i) {
                None => Err(DocError::StructuralError),
                Some(e) => match extract_spec(s, i + 1, first) {
                    Ok(rest) => Ok(
                        seq![
                            OutputV {
                                kind: Type::Function,
                                name: ident_text(s[i + 1]),
                                doc: doc_spec(s, i),
                                information: InfoV::Function { signature: sig_text(s, i, e) },
                            },
                        ] + rest,
                    ),
                    Err(er) => Err(er),
                },
            }
        }
    } else if s[i] == Token::Keyword(Kw::Struct) {
        if i + 1 >= s.len() {
            Err(DocError::StructuralError)
        } else if !(s[i + 1] matches Token::Ident(_)) {
            extract_spec(s, i + 1, first)
        } else {
            match struct_signature_spec(s, i) {
                Err(er) => Err(er),
                Ok(sg) => match impls_spec(s, 0, ident_text(s[i + 1])) {
                    Err(er) => Err(er),
                    Ok(imps) => match extract_spec(s, i + 1, first) {
                        Ok(rest) => Ok(
                            seq![
                                OutputV {
                                    kind: Type::Struct,
                                    name: ident_text(s[i + 1]),
                                    doc: doc_spec(s, i),
                                    information: InfoV::Struct {
                                        signature: sg,
                                        additional_doc: additional_doc_spec(s, i),
                                        implementations: imps,
                                    },
                                },
                            ] + rest,
                        ),
                        Err(er) => Err(er),
                    },
                },
            }
        }
    } else if s[i] == Token::Keyword(Kw::Trait) {
        match skip_block_spec(s, i) {
            None => Err(DocError::StructuralError),
            Some(close) => {
                if i + 1 >= s.len() {
                    Err(DocError::StructuralError)
                } else if !(s[i + 1] matches Token::Ident(_)) {
                    extract_spec(s, close + 1, first)
                } else {
                    match trait_info_spec(s, i) {
                        Err(er) => Err(er),
                        Ok(ti) => match impls_spec(s, 0, ident_text(s[i + 1])) {
                            Err(er) => Err(er),
                            Ok(imps) => match extract_spec(s, close + 1, first) {
                                Ok(rest) => Ok(
                                    seq![
                                        OutputV {
                                            kind: Type::Trait,
                                            name: ident_text(s[i + 1]),
                                            doc: doc_spec(s, i),
                                            information: InfoV::Trait {
                                                signature: ti.signature,
                                                additional_doc: additional_doc_spec(s, i),
                                                required_methods: ti.required,
                                                provided_methods: ti.provided,
                                                implementations: imps,
                                            },
                                        },
                                    ] + rest,
                                ),
                                Err(er) => Err(er),
                            },
                        },
                    }
                }
            },
        }
    } else if s[i] == Token::Keyword(Kw::Mod) {
        if i + 2 >= s.len() {
            Err(DocError::StructuralError)
        } else if s[i + 2] is LeftBrace && skip_block_spec(s, i) is None {
            Err(DocError::StructuralError)
        } else {
            let resume = if s[i + 2] is LeftBrace {
                skip_block_spec(s, i)->Some_0 + 1
            } else {
                i + 1
            };
            if !(s[i + 1] matches Token::Ident(_)) {
                extract_spec(s, resume, first)
            } else {
                match module_content_spec(s, i) {
                    Err(er) => Err(er),
                    Ok(mc) => match extract_spec(s, resume, first) {
                        Ok(rest) => Ok(
                            seq![
                                OutputV {
                                    kind: Type::Module,
                                    name: ident_text(s[i + 1]),
                                    doc: doc_spec(s, i),
                                    information: match mc {
                                        ModuleContentV::External { filename } => InfoV::ModuleFile {
                                            filename: filename,
                                        },
                                        ModuleContentV::Inline { content } => InfoV::Module {
                                            content: content,
                                        },
                                    },
                                },
                            ] + rest,
                        ),
                        Err(er) => Err(er),
                    },
                }
            }
        }
    } else if is_inner_comment(s[i]) {
        match extract_spec(
            s,
            i + 1,
            if first {
                false
            } else {
                inner_run_end(s, i) == i
            },
        ) {
            Ok(rest) => Ok(
                seq![
                    OutputV {
                        kind: Type::OuterComment,
                        name: Seq::empty(),
                        doc: if first {
                            outer_doc_text(s, i)
                        } else {
                            Seq::empty()
                        },
                        information: InfoV::Blanc,
                    },
                ] + rest,
            ),
            Err(er) => Err(er),
        }
    } else if s[i] == Token::Keyword(Kw::Impl) {
        match skip_block_spec(s, i) {
            None => Err(DocError::StructuralError),
            Some(close) => extract_spec(s, close + 1, first),
        }
    } else {
        extract_spec(s, i + 1, first)
    }
}

/// What the module declaration at `index` resolves to: the conventional
/// file path when terminated by a statement terminator, or the nodes that a
/// standalone extraction over the captured inline body tokens produces.
pub open spec fn module_content_spec(s: Seq<Token>, index: int) -> Result<
    ModuleContentV,
    DocError,
>
    decreases s.len(), 0int, 0int,
    via module_content_spec_dec
{
    match find_module_end(s, index) {
        None => Err(DocError::StructuralError),
        Some(e) => if s[e] is Semicolon {
            if e < 1 {
                Err(DocError::StructuralError)
            } else {
                Ok(ModuleContentV::External { filename: module_filename(token_disp(s[e - 1])) })
            }
        } else {
            match find_close(s, e, 0) {
                None => Err(DocError::StructuralError),
                Some(c) => match extract_spec(s.subrange(e + 1, c + 1), 0, true) {
                    Ok(outs) => Ok(ModuleContentV::Inline { content: outs }),
                    Err(er) => Err(er),
                },
            }
        },
    }
}

#[via_fn]
proof fn extract_spec_dec(s: Seq<Token>, i: int, first: bool) {
    lemma_find_open_bounds(s, i);
    match crate::scan::find_open(s, i) {
        Some(o) => {
            lemma_find_close_bounds(s, o, 0);
        },
        None => {},
    }
}

#[via_fn]
proof fn module_content_spec_dec(s: Seq<Token>, index: int) {
    crate::module::lemma_find_module_end_bounds(s, index);
    match find_module_end(s, index) {
        Some(e) => {
            lemma_find_close_bounds(s, e, 0);
        },
        None => {},
    }
}

/// Resolves the module declaration at `index`: an inline body is captured
/// and recursively extracted here; an external declaration yields the file
/// path a host must load before extraction can recurse into it.
pub fn get_module_content(tokens: &Vec<Token>, index: usize) -> (r: Result<
    ModuleContent,
    DocError,
>)
    ensures
        match r {
            Ok(ModuleContent::External { filename }) => module_content_spec(
                tokens@,
                index as int,
            ) matches Ok(ModuleContentV::External { filename: f }) && filename@ == f,
            Ok(ModuleContent::Inline { content }) => module_content_spec(tokens@, index as int)
                matches Ok(ModuleContentV::Inline { content: c }) && outputs_deep(content@) == c,
            Err(e) => module_content_spec(tokens@, index as int) == Err::<
                ModuleContentV,
                DocError,
            >(e),
        },
    decreases tokens@.len(), 0int,
{
    let ghost s = tokens@;
    match module_source(tokens, index) {
        Err(e) => Err(e),
        Ok(ModuleSource::External { filename }) => Ok(ModuleContent::External { filename }),
        Ok(ModuleSource::Inline { tokens: toks }) => {
            proof {
                crate::module::lemma_find_module_end_bounds(s, index as int);
                match find_module_end(s, index as int) {
                    Some(e) => {
                        lemma_find_close_bounds(s, e, 0);
                    },
                    None => {},
                }
            }
            match Output::to_output(&toks) {
                Ok(content) => Ok(ModuleContent::Inline { content }),
                Err(e) => Err(e),
            }
        },
    }
}

impl Output {
    /// Converts a token stream into the ordered list of extracted
    /// documentation nodes, in one left-to-right pass.
    #[verifier::rlimit(100)]
    pub fn to_output(tokens: &Vec<Token>) -> (r: Result<Vec<Output>, DocError>)
        ensures
            match r {
                Ok(v) => extract_spec(tokens@, 0, true) matches Ok(l) && outputs_deep(v@) == l,
                Err(e) => extract_spec(tokens@, 0, true) == Err::<Seq<OutputV>, DocError>(e),
            },
        decreases tokens@.len(), 1int,
    {
        let ghost s = tokens@;
        let n: usize = tokens.len();
        let mut res: Vec<Output> = Vec::new();
        let mut first = true;
        let mut i: usize = 0;
        proof {
            assert(outputs_deep(res@) =~= Seq::<OutputV>::empty());
        }
        loop
            invariant
                i <= n,
                n == s.len(),
                s == tokens@,
                match extract_spec(s, i as int, first) {
                    Ok(rest) => extract_spec(s, 0, true) matches Ok(l) && l == outputs_deep(res@)
                        + rest,
                    Err(e) => extract_spec(s, 0, true) == Err::<Seq<OutputV>, DocError>(e),
                },
            decreases n - i,
        {
            if i >= n {
                proof {
                    assert(outputs_deep(res@) + Seq::<OutputV>::empty() =~= outputs_deep(res@));
                }
                return Ok(res);
            }
            match &tokens[i] {
                Token::Keyword(Kw::Fn) => {
                    if i + 1 >= n {
                        return Err(DocError::StructuralError);
                    }
                    let name_opt: Option<String> = match &tokens[i + 1] {
                        Token::Ident(t) => Some(t.clone()),
                        _ => None,
                    };
                    match name_opt {
                        None => {
                            i = i + 1;
                        },
                        Some(nm) => {
                            let d = doc(tokens, i);
                            let sg = match fn_signature(tokens, i) {
                                Ok(x) => x,
                                Err(e) => {
                                    return Err(e);
                                },
                            };
                            let ghost res0 = outputs_deep(res@);
                            let ghost resv0 = res@;
                            let ghost nodev = OutputV {
                                kind: Type::Function,
                                name: nm@,
                                doc: d@,
                                information: InfoV::Function { signature: sg@ },
                            };
                            res.push(
                                Output {
                                    kind: Type::Function,
                                    name: nm,
                                    doc: d,
                                    information: Info::Function { signature: sg },
                                },
                            );
                            proof {
                                assert(res@.subrange(0, res@.len() - 1) =~= resv0);
                                assert(output_deep(res@[res@.len() - 1]) == nodev);
                                assert(outputs_deep(res@) == res0.push(nodev));
                                lemma_prefix_shift(res0, nodev, extract_spec(s, i + 1, first));
                            }
                            i = i + 1;
                        },
                    }
                },
                Token::Keyword(Kw::Struct) => {
                    if i + 1 >= n {
                        return Err(DocError::StructuralError);
                    }
                    let name_opt: Option<String> = match &tokens[i + 1] {
                        Token::Ident(t) => Some(t.clone()),
                        _ => None,
                    };
                    match name_opt {
                        None => {
                            i = i + 1;
                        },
                        Some(nm) => {
                            let d = doc(tokens, i);
                            let sg = match struct_signature(tokens, i) {
                                Ok(x) => x,
                                Err(e) => {
                                    return Err(e);
                                },
                            };
                            let ad = additional_doc(tokens, i);
                            let imps = match Implementation::get_implementations(tokens, &nm) {
                                Ok(x) => x,
                                Err(e) => {
                                    return Err(e);
                                },
                            };
                            let ghost res0 = outputs_deep(res@);
                            let ghost resv0 = res@;
                            let ghost nodev = OutputV {
                                kind: Type::Struct,
                                name: nm@,
                                doc: d@,
                                information: InfoV::Struct {
                                    signature: sg@,
                                    additional_doc: ad@,
                                    implementations: imps.deep_view(),
                                },
                            };
                            res.push(
                                Output {
                                    kind: Type::Struct,
                                    name: nm,
                                    doc: d,
                                    information: Info::Struct {
                                        signature: sg,
                                        additional_doc: ad,
                                        implementations: imps,
                                    },
                                },
                            );
                            proof {
                                assert(res@.subrange(0, res@.len() - 1) =~= resv0);
                                assert(output_deep(res@[res@.len() - 1]) == nodev);
                                assert(outputs_deep(res@) == res0.push(nodev));
                                lemma_prefix_shift(res0, nodev, extract_spec(s, i + 1, first));
                            }
                            i = i + 1;
                        },
                    }
                },
                Token::Keyword(Kw::Trait) => {
                    let close_d = match skip_impl_block(tokens, i) {
                        Ok(x) => x,
                        Err(e) => {
                            return Err(e);
                        },
                    };
                    if i + 1 >= n {
                        return Err(DocError::StructuralError);
                    }
                    let name_opt: Option<String> = match &tokens[i + 1] {
                        Token::Ident(t) => Some(t.clone()),
                        _ => None,
                    };
                    match name_opt {
                        None => {
                            i = i + close_d + 1;
                        },
                        Some(nm) => {
                            let d = doc(tokens, i);
                            let ad = additional_doc(tokens, i);
                            let ti = match trait_info(tokens, i) {
                                Ok(x) => x,
                                Err(e) => {
                                    return Err(e);
                                },
                            };
                            let imps = match Implementation::get_implementations(tokens, &nm) {
                                Ok(x) => x,
                                Err(e) => {
                                    return Err(e);
                                },
                            };
                            let (tsig, treq, tprov) = ti;
                            let ghost res0 = outputs_deep(res@);
                            let ghost resv0 = res@;
                            let ghost nodev = OutputV {
                                kind: Type::Trait,
                                name: nm@,
                                doc: d@,
                                information: InfoV::Trait {
                                    signature: tsig@,
                                    additional_doc: ad@,
                                    required_methods: treq.deep_view(),
                                    provided_methods: tprov.deep_view(),
                                    implementations: imps.deep_view(),
                                },
                            };
                            res.push(
                                Output {
                                    kind: Type::Trait,
                                    name: nm,
                                    doc: d,
                                    information: Info::Trait {
                                        signature: tsig,
                                        additional_doc: ad,
                                        required_methods: treq,
                                        provided_methods: tprov,
                                        implementations: imps,
                                    },
                                },
                            );
                            proof {
                                assert(res@.subrange(0, res@.len() - 1) =~= resv0);
                                assert(output_deep(res@[res@.len() - 1]) == nodev);
                                assert(outputs_deep(res@) == res0.push(nodev));
                                lemma_prefix_shift(
                                    res0,
                                    nodev,
                                    extract_spec(s, i + close_d + 1, first),
                                );
                            }
                            i = i + close_d + 1;
                        },
                    }
                },
                Token::Keyword(Kw::Mod) => {
                    if n - i <= 2 {
                        return Err(DocError::StructuralError);
                    }
                    let has_skip = match &tokens[i + 2] {
                        Token::LeftBrace => true,
                        _ => false,
                    };
                    let resume: usize = if has_skip {
                        match skip_impl_block(tokens, i) {
                            Ok(x) => i + x + 1,
                            Err(e) => {
                                return Err(e);
                            },
                        }
                    } else {
                        i + 1
                    };
                    let name_opt: Option<String> = match &tokens[i + 1] {
                        Token::Ident(t) => Some(t.clone()),
                        _ => None,
                    };
                    match name_opt {
                        None => {
                            i = resume;
                        },
                        Some(nm) => {
                            let d = doc(tokens, i);
                            let mc = match get_module_content(tokens, i) {
                                Ok(x) => x,
                                Err(e) => {
                                    return Err(e);
                                },
                            };
                            let ghost res0 = outputs_deep(res@);
                            let ghost resv0 = res@;
                            let ghost mcv = module_content_spec(s, i as int)->Ok_0;
                            let info = match mc {
                                ModuleContent::External { filename } => Info::ModuleFile {
                                    filename,
                                },
                                ModuleContent::Inline { content } => Info::Module { content },
                            };
                            let ghost nodev = OutputV {
                                kind: Type::Module,
                                name: nm@,
                                doc: d@,
                                information: match mcv {
                                    ModuleContentV::External { filename } => InfoV::ModuleFile {
                                        filename: filename,
                                    },
                                    ModuleContentV::Inline { content } => InfoV::Module {
                                        content: content,
                                    },
                                },
                            };
                            res.push(Output { kind: Type::Module, name: nm, doc: d, information: info });
                            proof {
                                assert(res@.subrange(0, res@.len() - 1) =~= resv0);
                                assert(output_deep(res@[res@.len() - 1]) == nodev);
                                assert(outputs_deep(res@) == res0.push(nodev));
                                lemma_prefix_shift(
                                    res0,
                                    nodev,
                                    extract_spec(s, resume as int, first),
                                );
                            }
                            i = resume;
                        },
                    }
                },
                Token::LineComment(_, crate::token::CommentKind::Inner) => {
                    let od = outer_doc(tokens, i);
                    let d: String;
                    let mut newfirst = first;
                    if first {
                        d = od.0;
                        newfirst = false;
                    } else {
                        if od.1 == i {
                            newfirst = true;
                        }
                        d = String::new();
                    }
                    let ghost res0 = outputs_deep(res@);
                            let ghost resv0 = res@;
                    let ghost nodev = OutputV {
                        kind: Type::OuterComment,
                        name: Seq::empty(),
                        doc: d@,
                        information: InfoV::Blanc,
                    };
                    res.push(
                        Output {
                            kind: Type::OuterComment,
                            name: String::new(),
                            doc: d,
                            information: Info::Blanc,
                        },
                    );
                    proof {
                        assert(res@.subrange(0, res@.len() - 1) =~= resv0);
                                assert(output_deep(res@[res@.len() - 1]) == nodev);
                                assert(outputs_deep(res@) == res0.push(nodev));
                        lemma_prefix_shift(res0, nodev, extract_spec(s, i + 1, newfirst));
                    }
                    first = newfirst;
                    i = i + 1;
                },
                Token::BlockComment(_, crate::token::CommentKind::Inner) => {
                    let od = outer_doc(tokens, i);
                    let d: String;
                    let mut newfirst = first;
                    if first {
                        d = od.0;
                        newfirst = false;
                    } else {
                        if od.1 == i {
                            newfirst = true;
                        }
                        d = String::new();
                    }
                    let ghost res0 = outputs_deep(res@);
                            let ghost resv0 = res@;
                    let ghost nodev = OutputV {
                        kind: Type::OuterComment,
                        name: Seq::empty(),
                        doc: d@,
                        information: InfoV::Blanc,
                    };
                    res.push(
                        Output {
                            kind: Type::OuterComment,
                            name: String::new(),
                            doc: d,
                            information: Info::Blanc,
                        },
                    );
                    proof {
                        assert(res@.subrange(0, res@.len() - 1) =~= resv0);
                                assert(output_deep(res@[res@.len() - 1]) == nodev);
                                assert(outputs_deep(res@) == res0.push(nodev));
                        lemma_prefix_shift(res0, nodev, extract_spec(s, i + 1, newfirst));
                    }
                    first = newfirst;
                    i = i + 1;
                },
                Token::Keyword(Kw::Impl) => {
                    match skip_impl_block(tokens, i) {
                        Ok(x) => {
                            i = i + x + 1;
                        },
                        Err(e) => {
                            return Err(e);
                        },
                    }
                },
                _ => {
                    i = i + 1;
                },
            }
        }
    }
}

fn clone_impls(v: &Vec<Implementation>) -> (r: Vec<Implementation>)
    ensures
        r@ == v@,
{
    let mut r: Vec<Implementation> = Vec::new();
    let mut i: usize = 0;
    proof {
        assert(r@ =~= v@.subrange(0, 0));
    }
    while i < v.len()
        invariant
            i <= v@.len(),
            r@ == v@.subrange(0, i as int),
        decreases v@.len() - i,
    {
        r.push(v[i].clone());
        proof {
            assert(v@.subrange(0, i + 1) =~= v@.subrange(0, i as int).push(v@[i as int]));
        }
        i = i + 1;
    }
    proof {
        assert(v@.subrange(0, v@.len() as int) =~= v@);
    }
    r
}

fn clone_functions(v: &Vec<Function>) -> (r: Vec<Function>)
    ensures
        r@ == v@,
{
    let mut r: Vec<Function> = Vec::new();
    let mut i: usize = 0;
    proof {
        assert(r@ =~= v@.subrange(0, 0));
    }
    while i < v.len()
        invariant
            i <= v@.len(),
            r@ == v@.subrange(0, i as int),
        decreases v@.len() - i,
    {
        r.push(v[i].clone());
        proof {
            assert(v@.subrange(0, i + 1) =~= v@.subrange(0, i as int).push(v@[i as int]));
        }
        i = i + 1;
    }
    proof {
        assert(v@.subrange(0, v@.len() as int) =~= v@);
    }
    r
}

/// Clones one extracted node; the copy has the same model.
fn clone_output(o: &Output) -> (r: Output)
    ensures
        output_deep(r) == output_deep(*o),
    decreases *o,
{
    Output {
        kind: o.kind,
        name: o.name.clone(),
        doc: o.doc.clone(),
        information: clone_info(&o.information),
    }
}

/// Clones a node's detail; the copy has the same model.
fn clone_info(inf: &Info) -> (r: Info)
    ensures
        info_deep(r) == info_deep(*inf),
    decreases *inf,
{
    match inf {
        Info::Function { signature } => Info::Function { signature: signature.clone() },
        Info::Module { content } => Info::Module { content: clone_outputs(content) },
        Info::ModuleFile { filename } => Info::ModuleFile { filename: filename.clone() },
        Info::Struct { signature, additional_doc, implementations } => Info::Struct {
            signature: signature.clone(),
            additional_doc: additional_doc.clone(),
            implementations: clone_impls(implementations),
        },
        Info::Trait {
            signature,
            additional_doc,
            required_methods,
            provided_methods,
            implementations,
        } => Info::Trait {
            signature: signature.clone(),
            additional_doc: additional_doc.clone(),
            required_methods: clone_functions(required_methods),
            provided_methods: clone_functions(provided_methods),
            implementations: clone_impls(implementations),
        },
        Info::Blanc => Info::Blanc,
    }
}

/// Clones a list of extracted nodes; the copy has the same models, in the
/// same order.
fn clone_outputs(v: &Vec<Output>) -> (r: Vec<Output>)
    ensures
        outputs_deep(r@) == outputs_deep(v@),
    decreases *v,
{
    let mut r: Vec<Output> = Vec::new();
    let mut i: usize = 0;
    proof {
        assert(r@ =~= v@.subrange(0, 0));
        assert(v@.subrange(0, 0) =~= Seq::<Output>::empty());
        assert(outputs_deep(r@) == outputs_deep(v@.subrange(0, 0)));
    }
    while i < v.len()
        invariant
            i <= v@.len(),
            outputs_deep(r@) == outputs_deep(v@.subrange(0, i as int)),
            r@.len() == i,
        decreases v@.len() - i,
    {
        let ghost rv0 = r@;
        let c = clone_output(&v[i]);
        let ghost cv = output_deep(c);
        r.push(c);
        proof {
            assert(r@.subrange(0, r@.len() - 1) =~= rv0);
            assert(outputs_deep(r@) == outputs_deep(rv0).push(cv));
            let sub1 = v@.subrange(0, i + 1);
            assert(sub1.subrange(0, sub1.len() - 1) =~= v@.subrange(0, i as int));
            assert(sub1[sub1.len() - 1] == v@[i as int]);
            assert(outputs_deep(sub1) == outputs_deep(v@.subrange(0, i as int)).push(
                output_deep(v@[i as int]),
            ));
        }
        i = i + 1;
    }
    proof {
        assert(v@.subrange(0, v@.len() as int) =~= v@);
    }
    r
}

impl Info {
    /// The reconstructed signature text, for the kinds that carry one.
    pub fn get_signature(&self) -> (r: Option<String>)
        ensures
            match *self {
                Info::Function { signature } => r matches Some(t) && t == signature,
                Info::Struct { signature, .. } => r matches Some(t) && t == signature,
                Info::Trait { signature, .. } => r matches Some(t) && t == signature,
                _ => r is None,
            },
    {
        match self {
            Info::Function { signature } => Some(signature.clone()),
            Info::Struct { signature, .. } => Some(signature.clone()),
            Info::Trait { signature, .. } => Some(signature.clone()),
            _ => None,
        }
    }

    /// The associated implementation records, for structs and traits.
    pub fn get_implementations(&self) -> (r: Option<Vec<Implementation>>)
        ensures
            match *self {
                Info::Struct { implementations, .. } => r matches Some(v) && v@
                    == implementations@,
                Info::Trait { implementations, .. } => r matches Some(v) && v@
                    == implementations@,
                _ => r is None,
            },
    {
        match self {
            Info::Struct { implementations, .. } => Some(clone_impls(implementations)),
            Info::Trait { implementations, .. } => Some(clone_impls(implementations)),
            _ => None,
        }
    }

    /// The additional (inner) documentation, for structs and traits.
    pub fn get_additional_doc(&self) -> (r: Option<String>)
        ensures
            match *self {
                Info::Struct { additional_doc, .. } => r matches Some(t) && t == additional_doc,
                Info::Trait { additional_doc, .. } => r matches Some(t) && t == additional_doc,
                _ => r is None,
            },
    {
        match self {
            Info::Struct { additional_doc, .. } => Some(additional_doc.clone()),
            Info::Trait { additional_doc, .. } => Some(additional_doc.clone()),
            _ => None,
        }
    }

    /// The required method records, for traits.
    pub fn get_required_methods(&self) -> (r: Option<Vec<Function>>)
        ensures
            match *self {
                Info::Trait { required_methods, .. } => r matches Some(v) && v@
                    == required_methods@,
                _ => r is None,
            },
    {
        match self {
            Info::Trait { required_methods, .. } => Some(clone_functions(required_methods)),
            _ => None,
        }
    }

    /// The provided method records, for traits.
    pub fn get_provided_methods(&self) -> (r: Option<Vec<Function>>)
        ensures
            match *self {
                Info::Trait { provided_methods, .. } => r matches Some(v) && v@
                    == provided_methods@,
                _ => r is None,
            },
    {
        match self {
            Info::Trait { provided_methods, .. } => Some(clone_functions(provided_methods)),
            _ => None,
        }
    }

    /// The recursively extracted children, for inline modules.
    pub fn get_content(&self) -> (r: Option<Vec<Output>>)
        ensures
            match *self {
                Info::Module { content } => r matches Some(v) && outputs_deep(v@) == outputs_deep(
                    content@,
                ),
                _ => r is None,
            },
    {
        match self {
            Info::Module { content } => Some(clone_outputs(content)),
            _ => None,
        }
    }
}

impl Output {
    /// Renders the node's category, name, and documentation as labelled
    /// lines.
    pub fn describe(&self) -> (r: String)
        ensures
            r@ == "Type: "@ + kind_name(self.kind) + "\n\n"@ + "Name: "@ + self.name@ + "\n\n"@
                + "Doc: "@ + self.doc@ + "\n\n"@,
    {
        let mut r = String::from_str("Type: ");
        let tn = self.kind.name_text();
        r.append(tn.as_str());
        r.append("\n\n");
        r.append("Name: ");
        r.append(self.name.as_str());
        r.append("\n\n");
        r.append("Doc: ");
        r.append(self.doc.as_str());
        r.append("\n\n");
        r
    }

    /// Replaces an externally declared module's file reference with the
    /// nodes extracted from that file's tokens. A host that loads the file,
    /// tokenizes it, and extracts it standalone hands the result here: the
    /// module node then carries exactly the nodes that standalone
    /// extraction produced, which is the recursion equivalence for
    /// externally declared modules.
    pub fn resolved_module(self, content: Vec<Output>) -> (r: Output)
        requires
            self.information is ModuleFile,
        ensures
            r.kind == self.kind,
            r.name == self.name,
            r.doc == self.doc,
            info_deep(r.information) == (InfoV::Module { content: outputs_deep(content@) }),
    {
        Output {
            kind: self.kind,
            name: self.name,
            doc: self.doc,
            information: Info::Module { content },
        }
    }
}

/// Prepending one node to the front of the remainder is the same as pushing
/// it onto the collected prefix.
proof fn lemma_prefix_shift(pre: Seq<OutputV>, node: OutputV, rest: Result<Seq<OutputV>, DocError>)
    ensures
        rest matches Ok(l) ==> pre + (seq![node] + l) == pre.push(node) + l,
{
    match rest {
        Ok(l) => {
            assert(pre + (seq![node] + l) =~= pre.push(node) + l);
        },
        Err(_) => {},
    }
}

} // verus!
