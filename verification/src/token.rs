use vstd::prelude::*;
use vstd::string::StringExecFns;

verus! {

/// Declaration-introducing keywords that the extractor recognizes, plus the
/// visibility qualifier used when rendering struct fields.
#[derive(Debug, Clone, Copy, PartialEq, Eq, Structural)]
pub enum Kw {
    Fn,
    Mod,
    Struct,
    Trait,
    Impl,
    Pub,
}

/// Style tag on a comment token: an undecorated comment, an inner doc
/// comment (documents the enclosing item), or an outer doc comment
/// (documents the following item).
#[derive(Debug, Clone, Copy, PartialEq, Eq, Structural)]
pub enum CommentKind {
    Plain,
    Inner,
    Outer,
}

/// One lexical unit of a source file, as handed over by the external lexer.
/// Tokens whose identity the extractor never inspects are carried as `Other`
/// together with their display text.
#[derive(Debug, PartialEq, Eq)]
pub enum Token {
    Keyword(Kw),
    Ident(String),
    LeftBrace,
    RightBrace,
    Semicolon,
    Comma,
    LineComment(String, CommentKind),
    BlockComment(String, CommentKind),
    Other(String),
}

impl Clone for Token {
    fn clone(&self) -> (r: Self)
        ensures
            r == *self,
    {
        match self {
            Token::Keyword(k) => Token::Keyword(*k),
            Token::Ident(s) => Token::Ident(s.clone()),
            Token::LeftBrace => Token::LeftBrace,
            Token::RightBrace => Token::RightBrace,
            Token::Semicolon => Token::Semicolon,
            Token::Comma => Token::Comma,
            Token::LineComment(s, k) => Token::LineComment(s.clone(), *k),
            Token::BlockComment(s, k) => Token::BlockComment(s.clone(), *k),
            Token::Other(s) => Token::Other(s.clone()),
        }
    }
}

/// The rendered text of a keyword.
pub open spec fn kw_text(k: Kw) -> Seq<char> {
    match k {
        Kw::Fn => "fn"@,
        Kw::Mod => "mod"@,
        Kw::Struct => "struct"@,
        Kw::Trait => "trait"@,
        Kw::Impl => "impl"@,
        Kw::Pub => "pub"@,
    }
}

/// The opening marker of a line comment of the given style.
pub open spec fn line_marker(k: CommentKind) -> Seq<char> {
    match k {
        CommentKind::Plain => "//"@,
        CommentKind::Inner => "//!"@,
        CommentKind::Outer => "///"@,
    }
}

/// The opening marker of a block comment of the given style.
pub open spec fn block_marker(k: CommentKind) -> Seq<char> {
    match k {
        CommentKind::Plain => "/*"@,
        CommentKind::Inner => "/*!"@,
        CommentKind::Outer => "/**"@,
    }
}

/// The display text of a token: what serializing the token back to source
/// text produces, and hence what signature reconstruction emits for it.
pub open spec fn token_disp(t: Token) -> Seq<char> {
    match t {
        Token::Keyword(k) => kw_text(k),
        Token::Ident(s) => s@,
        Token::LeftBrace => "{"@,
        Token::RightBrace => "}"@,
        Token::Semicolon => ";"@,
        Token::Comma => ","@,
        Token::LineComment(s, k) => line_marker(k) + s@,
        Token::BlockComment(s, k) => block_marker(k) + s@ + "*/"@,
        Token::Other(s) => s@,
    }
}

/// Whether the token is a comment of any style.
pub open spec fn is_comment(t: Token) -> bool {
    t matches Token::LineComment(_, _) || t matches Token::BlockComment(_, _)
}

/// The stored text of a comment token (without its marker).
pub open spec fn comment_body(t: Token) -> Seq<char> {
    match t {
        Token::LineComment(s, _) => s@,
        Token::BlockComment(s, _) => s@,
        _ => Seq::<char>::empty(),
    }
}

/// Whether the token is an undecorated comment (line or block).
pub open spec fn is_plain_comment(t: Token) -> bool {
    t matches Token::LineComment(_, CommentKind::Plain) || t matches Token::BlockComment(
        _,
        CommentKind::Plain,
    )
}

/// Whether the token is an inner doc comment (line or block).
pub open spec fn is_inner_comment(t: Token) -> bool {
    t matches Token::LineComment(_, CommentKind::Inner) || t matches Token::BlockComment(
        _,
        CommentKind::Inner,
    )
}

/// Whether the token is an outer doc comment (line or block).
pub open spec fn is_outer_comment(t: Token) -> bool {
    t matches Token::LineComment(_, CommentKind::Outer) || t matches Token::BlockComment(
        _,
        CommentKind::Outer,
    )
}

/// Whether the token is an inner doc line comment (block comments excluded).
pub open spec fn is_inner_line_comment(t: Token) -> bool {
    t matches Token::LineComment(_, CommentKind::Inner)
}

/// The text of an identifier token; empty for other tokens.
pub open spec fn ident_text(t: Token) -> Seq<char> {
    match t {
        Token::Ident(s) => s@,
        _ => Seq::<char>::empty(),
    }
}

/// Whether the token introduces a declaration; a backward doc scan never
/// crosses one of these.
pub open spec fn is_decl_keyword(t: Token) -> bool {
    ||| t == Token::Keyword(Kw::Fn)
    ||| t == Token::Keyword(Kw::Mod)
    ||| t == Token::Keyword(Kw::Struct)
    ||| t == Token::Keyword(Kw::Trait)
    ||| t == Token::Keyword(Kw::Impl)
}

impl Token {
    /// Whether this token is a comment of any style.
    pub fn is_any_comment(&self) -> (b: bool)
        ensures
            b == is_comment(*self),
    {
        match self {
            Token::LineComment(_, _) => true,
            Token::BlockComment(_, _) => true,
            _ => false,
        }
    }

    /// Whether this token is an undecorated comment.
    pub fn is_plain(&self) -> (b: bool)
        ensures
            b == is_plain_comment(*self),
    {
        match self {
            Token::LineComment(_, CommentKind::Plain) => true,
            Token::BlockComment(_, CommentKind::Plain) => true,
            _ => false,
        }
    }

    /// Whether this token is an inner doc comment.
    pub fn is_inner(&self) -> (b: bool)
        ensures
            b == is_inner_comment(*self),
    {
        match self {
            Token::LineComment(_, CommentKind::Inner) => true,
            Token::BlockComment(_, CommentKind::Inner) => true,
            _ => false,
        }
    }

    /// Whether this token is an outer doc comment.
    pub fn is_outer(&self) -> (b: bool)
        ensures
            b == is_outer_comment(*self),
    {
        match self {
            Token::LineComment(_, CommentKind::Outer) => true,
            Token::BlockComment(_, CommentKind::Outer) => true,
            _ => false,
        }
    }

    /// Whether this token is an inner doc line comment.
    pub fn is_inner_line(&self) -> (b: bool)
        ensures
            b == is_inner_line_comment(*self),
    {
        match self {
            Token::LineComment(_, CommentKind::Inner) => true,
            _ => false,
        }
    }

    /// Whether this token introduces a declaration.
    pub fn is_decl_kw(&self) -> (b: bool)
        ensures
            b == is_decl_keyword(*self),
    {
        match self {
            Token::Keyword(Kw::Fn) => true,
            Token::Keyword(Kw::Mod) => true,
            Token::Keyword(Kw::Struct) => true,
            Token::Keyword(Kw::Trait) => true,
            Token::Keyword(Kw::Impl) => true,
            _ => false,
        }
    }

    /// The stored text of a comment token; empty for other tokens.
    pub fn body<'a>(&'a self) -> (r: &'a str)
        ensures
            r@ == comment_body(*self),
    {
        proof {
            reveal_strlit("");
            assert(""@ =~= Seq::<char>::empty());
        }
        match self {
            Token::LineComment(s, _) => s.as_str(),
            Token::BlockComment(s, _) => s.as_str(),
            _ => "",
        }
    }

    /// Serializes this token back to display text.
    pub fn text(&self) -> (r: String)
        ensures
            r@ == token_disp(*self),
    {
        match self {
            Token::Keyword(Kw::Fn) => String::from_str("fn"),
            Token::Keyword(Kw::Mod) => String::from_str("mod"),
            Token::Keyword(Kw::Struct) => String::from_str("struct"),
            Token::Keyword(Kw::Trait) => String::from_str("trait"),
            Token::Keyword(Kw::Impl) => String::from_str("impl"),
            Token::Keyword(Kw::Pub) => String::from_str("pub"),
            Token::Ident(s) => s.clone(),
            Token::LeftBrace => String::from_str("{"),
            Token::RightBrace => String::from_str("}"),
            Token::Semicolon => String::from_str(";"),
            Token::Comma => String::from_str(","),
            Token::LineComment(s, k) => {
                let mut r = match k {
                    CommentKind::Plain => String::from_str("//"),
                    CommentKind::Inner => String::from_str("//!"),
                    CommentKind::Outer => String::from_str("///"),
                };
                r.append(s.as_str());
                r
            },
            Token::BlockComment(s, k) => {
                let mut r = match k {
                    CommentKind::Plain => String::from_str("/*"),
                    CommentKind::Inner => String::from_str("/*!"),
                    CommentKind::Outer => String::from_str("/**"),
                };
                r.append(s.as_str());
                r.append("*/");
                r
            },
            Token::Other(s) => s.clone(),
        }
    }
}

} // verus!
