use nordoc::code::get_text;
use nordoc::impls::Implementation;
use nordoc::module::ModuleSource;
use nordoc::output::{Info, ModuleContent, Output, Type};
use nordoc::scan::skip_impl_block;
use nordoc::signature::{fn_signature, struct_signature, trait_info};
use nordoc::token::{CommentKind, Kw, Token};
use nordoc::DocError;
use nordoc::comments::{additional_doc, doc, outer_doc};

fn ident(s: &str) -> Token {
    Token::Ident(s.to_string())
}

fn other(s: &str) -> Token {
    Token::Other(s.to_string())
}

fn line_comment(s: &str, k: CommentKind) -> Token {
    Token::LineComment(s.to_string(), k)
}

#[test]
fn scope_scanner_skips_balanced_block() {
    let tokens = vec![
        Token::Keyword(Kw::Impl),
        ident("X"),
        Token::LeftBrace,
        Token::LeftBrace,
        Token::RightBrace,
        Token::RightBrace,
    ];
    assert_eq!(skip_impl_block(&tokens, 0), Ok(5));
}

#[test]
fn scope_scanner_unmatched_open_is_structural_error() {
    let tokens = vec![
        Token::Keyword(Kw::Impl),
        ident("X"),
        Token::LeftBrace,
        Token::LeftBrace,
        Token::RightBrace,
    ];
    assert_eq!(skip_impl_block(&tokens, 0), Err(DocError::StructuralError));
}

#[test]
fn unbalanced_stream_fails_extraction() {
    let tokens = vec![Token::Keyword(Kw::Impl), ident("X"), Token::LeftBrace];
    assert_eq!(Output::to_output(&tokens), Err(DocError::StructuralError));
}

#[test]
fn doc_concatenates_run_in_source_order() {
    let tokens = vec![
        line_comment("X ", CommentKind::Plain),
        ident("y"),
        line_comment("A ", CommentKind::Plain),
        line_comment("B", CommentKind::Outer),
        Token::Keyword(Kw::Fn),
        ident("f"),
        other("("),
        other(")"),
        Token::Semicolon,
    ];
    assert_eq!(doc(&tokens, 4), "A B");
}

#[test]
fn doc_skips_back_to_outer_comments_without_crossing_declarations() {
    let tokens = vec![
        line_comment("far", CommentKind::Outer),
        Token::Keyword(Kw::Fn),
        ident("g"),
        Token::Semicolon,
        line_comment("near", CommentKind::Outer),
        other("#"),
        Token::Keyword(Kw::Fn),
        ident("f"),
        Token::Semicolon,
    ];
    assert_eq!(doc(&tokens, 6), "near");
}

#[test]
fn fn_signature_stops_at_terminator() {
    let tokens = vec![
        Token::Keyword(Kw::Fn),
        ident("f"),
        other("("),
        other(")"),
        Token::Semicolon,
    ];
    assert_eq!(fn_signature(&tokens, 0), Ok("fn f ( ) ".to_string()));
}

#[test]
fn private_struct_renders_placeholder() {
    let tokens = vec![
        Token::Keyword(Kw::Struct),
        ident("S"),
        Token::LeftBrace,
        ident("x"),
        other(":"),
        other("i32"),
        Token::RightBrace,
    ];
    let sig = struct_signature(&tokens, 0).unwrap();
    assert_eq!(sig, "struct S {\n/* private fields */\n}");
}

#[test]
fn struct_point_scenario() {
    let tokens = vec![
        line_comment("A point.", CommentKind::Outer),
        Token::Keyword(Kw::Struct),
        ident("Point"),
        Token::LeftBrace,
        Token::Keyword(Kw::Pub),
        ident("x"),
        other(":"),
        other("i32"),
        Token::Comma,
        ident("y"),
        other(":"),
        other("i32"),
        Token::RightBrace,
    ];
    let out = Output::to_output(&tokens).unwrap();
    assert_eq!(out.len(), 1);
    let node = &out[0];
    assert_eq!(node.kind, Type::Struct);
    assert_eq!(node.name, "Point");
    assert_eq!(node.doc, "A point.");
    let sig = node.information.get_signature().unwrap();
    assert!(sig.contains("pub x : i32 ,"));
    assert!(!sig.contains("/* private fields */"));
    let imps = node.information.get_implementations().unwrap();
    assert_eq!(imps.len(), 0);
}

#[test]
fn trait_shape_scenario() {
    let tokens = vec![
        Token::Keyword(Kw::Trait),
        ident("Shape"),
        Token::LeftBrace,
        Token::Keyword(Kw::Fn),
        ident("area"),
        other("("),
        other("&"),
        other("self"),
        other(")"),
        other("->"),
        other("f64"),
        Token::Semicolon,
        Token::Keyword(Kw::Fn),
        ident("name"),
        other("("),
        other("&"),
        other("self"),
        other(")"),
        other("->"),
        other("&"),
        other("str"),
        Token::LeftBrace,
        other("\"shape\""),
        Token::RightBrace,
        Token::RightBrace,
    ];
    let out = Output::to_output(&tokens).unwrap();
    assert_eq!(out.len(), 1);
    let node = &out[0];
    assert_eq!(node.kind, Type::Trait);
    assert_eq!(node.name, "Shape");
    let req = node.information.get_required_methods().unwrap();
    let prov = node.information.get_provided_methods().unwrap();
    assert_eq!(req.len(), 1);
    assert_eq!(prov.len(), 1);
    assert_eq!(req[0].name, "area");
    assert_eq!(prov[0].name, "name");
    assert!(req[0].is_method);
    assert!(prov[0].is_method);
    let sig = node.information.get_signature().unwrap();
    assert_eq!(
        sig,
        "Shape {\nfn area ( & self ) -> f64 ;\nfn name ( & self ) -> & str { ... }\n}"
    );
}

#[test]
fn empty_trait_renders_braces_once() {
    let tokens = vec![
        Token::Keyword(Kw::Trait),
        ident("T"),
        Token::LeftBrace,
        Token::RightBrace,
    ];
    let (sig, req, prov) = trait_info(&tokens, 0).unwrap();
    assert_eq!(sig, "T {\n}");
    assert_eq!(req.len(), 0);
    assert_eq!(prov.len(), 0);
}

#[test]
fn trait_body_comments_stay_out_of_signature() {
    let tokens = vec![
        Token::Keyword(Kw::Trait),
        ident("T"),
        Token::LeftBrace,
        line_comment("about a", CommentKind::Outer),
        Token::Keyword(Kw::Fn),
        ident("a"),
        other("("),
        other(")"),
        Token::Semicolon,
        Token::RightBrace,
    ];
    let (sig, req, prov) = trait_info(&tokens, 0).unwrap();
    assert_eq!(sig, "T {\nfn a ( ) ;\n}");
    assert_eq!(prov.len(), 0);
    assert_eq!(req.len(), 1);
    assert_eq!(req[0].doc, "about a");
}

#[test]
fn trait_method_counts_partition_declarations() {
    let tokens = vec![
        Token::Keyword(Kw::Trait),
        ident("T"),
        Token::LeftBrace,
        Token::Keyword(Kw::Fn),
        ident("a"),
        other("("),
        other(")"),
        Token::Semicolon,
        Token::Keyword(Kw::Fn),
        ident("b"),
        other("("),
        other(")"),
        Token::LeftBrace,
        Token::RightBrace,
        Token::Keyword(Kw::Fn),
        ident("c"),
        other("("),
        other(")"),
        Token::Semicolon,
        Token::RightBrace,
    ];
    let (_, req, prov) = trait_info(&tokens, 0).unwrap();
    assert_eq!(req.len() + prov.len(), 3);
    assert_eq!(req.len(), 2);
    assert_eq!(prov.len(), 1);
}

#[test]
fn inline_module_content_matches_standalone_extraction() {
    let body = vec![
        Token::Keyword(Kw::Fn),
        ident("f"),
        other("("),
        other(")"),
        Token::Semicolon,
        Token::RightBrace,
    ];
    let mut tokens = vec![Token::Keyword(Kw::Mod), ident("m"), Token::LeftBrace];
    tokens.extend(body.iter().cloned());
    let out = Output::to_output(&tokens).unwrap();
    assert_eq!(out.len(), 1);
    assert_eq!(out[0].kind, Type::Module);
    assert_eq!(out[0].name, "m");
    let content = out[0].information.get_content().unwrap();
    let standalone = Output::to_output(&body).unwrap();
    assert_eq!(content, standalone);
}

#[test]
fn external_module_names_conventional_file() {
    let tokens = vec![Token::Keyword(Kw::Mod), ident("web"), Token::Semicolon];
    let src = nordoc::module::module_source(&tokens, 0).unwrap();
    assert_eq!(
        src,
        ModuleSource::External { filename: "input_files/web.nr".to_string() }
    );
    let out = Output::to_output(&tokens).unwrap();
    assert_eq!(out.len(), 1);
    match &out[0].information {
        Info::ModuleFile { filename } => assert_eq!(filename, "input_files/web.nr"),
        _ => panic!("expected an external module reference"),
    }
}

#[test]
fn resolving_external_module_attaches_standalone_extraction() {
    let tokens = vec![Token::Keyword(Kw::Mod), ident("web"), Token::Semicolon];
    let out = Output::to_output(&tokens).unwrap();
    let file_tokens = vec![
        Token::Keyword(Kw::Fn),
        ident("g"),
        other("("),
        other(")"),
        Token::Semicolon,
    ];
    let standalone = Output::to_output(&file_tokens).unwrap();
    let node = Output::to_output(&tokens).unwrap().remove(0);
    let resolved = node.resolved_module(standalone);
    assert_eq!(resolved.name, out[0].name);
    assert_eq!(
        resolved.information.get_content().unwrap(),
        Output::to_output(&file_tokens).unwrap()
    );
}

#[test]
fn implementation_before_declaration_is_linked() {
    let tokens = vec![
        Token::Keyword(Kw::Impl),
        ident("P"),
        Token::LeftBrace,
        Token::RightBrace,
        Token::Keyword(Kw::Struct),
        ident("P"),
        Token::LeftBrace,
        Token::RightBrace,
    ];
    let out = Output::to_output(&tokens).unwrap();
    assert_eq!(out.len(), 1);
    assert_eq!(out[0].kind, Type::Struct);
    let imps = out[0].information.get_implementations().unwrap();
    assert_eq!(imps.len(), 1);
    assert_eq!(imps[0].signature, "impl P ");
}

#[test]
fn implementation_linking_is_name_exact() {
    let tokens = vec![
        Token::Keyword(Kw::Impl),
        ident("Q"),
        Token::LeftBrace,
        Token::RightBrace,
    ];
    let found = Implementation::get_implementations(&tokens, &"P".to_string()).unwrap();
    assert_eq!(found.len(), 0);
}

#[test]
fn whole_file_comment_becomes_single_leading_node() {
    let tokens = vec![
        line_comment(" intro text", CommentKind::Inner),
        Token::Keyword(Kw::Fn),
        ident("f"),
        other("("),
        other(")"),
        Token::Semicolon,
    ];
    let out = Output::to_output(&tokens).unwrap();
    assert_eq!(out.len(), 2);
    assert_eq!(out[0].kind, Type::OuterComment);
    assert_eq!(out[0].name, "");
    assert_eq!(out[0].doc, "intro text");
    assert_eq!(out[1].kind, Type::Function);
}

#[test]
fn outer_doc_merges_following_inner_comments() {
    let tokens = vec![
        line_comment(" one", CommentKind::Inner),
        line_comment(" two", CommentKind::Inner),
        Token::Keyword(Kw::Fn),
        ident("f"),
        Token::Semicolon,
    ];
    let (text, end) = outer_doc(&tokens, 0);
    assert_eq!(end, 1);
    assert_eq!(text, "one two");
}

#[test]
fn additional_doc_collects_inner_comments() {
    let tokens = vec![
        line_comment("inner A ", CommentKind::Inner),
        line_comment("inner B", CommentKind::Inner),
        Token::Keyword(Kw::Struct),
        ident("S"),
        Token::LeftBrace,
        Token::RightBrace,
    ];
    assert_eq!(additional_doc(&tokens, 2), "inner A inner B");
}

#[test]
fn malformed_declaration_is_silently_skipped() {
    let tokens = vec![
        Token::Keyword(Kw::Fn),
        Token::Semicolon,
        Token::Keyword(Kw::Fn),
        ident("ok"),
        other("("),
        other(")"),
        Token::Semicolon,
    ];
    let out = Output::to_output(&tokens).unwrap();
    assert_eq!(out.len(), 1);
    assert_eq!(out[0].name, "ok");
}

#[test]
fn get_text_numbers_lines_from_zero() {
    let lines = vec!["let a = 1;".to_string(), "let b = 2;".to_string()];
    let code = get_text(&lines);
    assert_eq!(code.len(), 2);
    assert_eq!(code[0].number, 0);
    assert_eq!(code[0].text, "let a = 1;");
    assert_eq!(code[1].number, 1);
    assert_eq!(code[1].text, "let b = 2;");
}

#[test]
fn type_label_and_describe_render() {
    let t = Type::Function;
    assert_eq!(t.label(), "Function\n");
    let node = Output {
        kind: Type::Function,
        name: "f".to_string(),
        doc: "d".to_string(),
        information: Info::Function { signature: "fn f ( ) ".to_string() },
    };
    assert_eq!(node.describe(), "Type: Function\n\nName: f\n\nDoc: d\n\n");
}

#[test]
fn module_content_inline_captures_closing_brace_region() {
    let tokens = vec![
        Token::Keyword(Kw::Mod),
        ident("m"),
        Token::LeftBrace,
        ident("x"),
        Token::RightBrace,
    ];
    match nordoc::output::get_module_content(&tokens, 0).unwrap() {
        ModuleContent::Inline { content } => assert_eq!(content.len(), 0),
        _ => panic!("expected an inline module"),
    }
}
