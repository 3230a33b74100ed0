//! Tokens shared by the scene and logic dialects.

use vstd::prelude::*;

use crate::text::chars_to_string;
use crate::text::i64_to_dec_chars;
use crate::text::spec_int_str;

verus! {

/// A lexical token. Numeric literals with a decimal point keep their source
/// text, so that later passes stay textual.
#[derive(Debug, Clone, PartialEq)]
pub enum Token {
    Ident(String),
    Integer(i64),
    Float(String),
    String(String),
    Bool(bool),
    // Keywords for logic files
    On,
    Spawn,
    Extend,
    Fn,
    Hash,
    DocComment(String),
    Eq,
    Semi,
    LParen,
    RParen,
    LBrace,
    RBrace,
    Plus,
    Minus,
    Multiply,
    Divide,
    And,
    Or,
    EqEq,
    NotEq,
    Not,
    Comma,
    Colon,
    Dot,
    Less,
    Greater,
    LessEq,
    GreaterEq,
}

/// The mathematical shape of a token: string payloads become character
/// sequences.
pub enum TokenView {
    Ident(Seq<char>),
    Integer(i64),
    Float(Seq<char>),
    String(Seq<char>),
    Bool(bool),
    On,
    Spawn,
    Extend,
    Fn,
    Hash,
    DocComment(Seq<char>),
    Eq,
    Semi,
    LParen,
    RParen,
    LBrace,
    RBrace,
    Plus,
    Minus,
    Multiply,
    Divide,
    And,
    Or,
    EqEq,
    NotEq,
    Not,
    Comma,
    Colon,
    Dot,
    Less,
    Greater,
    LessEq,
    GreaterEq,
}

impl View for Token {
    type V = TokenView;

    open spec fn view(&self) -> TokenView {
        match self {
            Token::Ident(s) => TokenView::Ident(s@),
            Token::Integer(i) => TokenView::Integer(*i),
            Token::Float(s) => TokenView::Float(s@),
            Token::String(s) => TokenView::String(s@),
            Token::Bool(b) => TokenView::Bool(*b),
            Token::On => TokenView::On,
            Token::Spawn => TokenView::Spawn,
            Token::Extend => TokenView::Extend,
            Token::Fn => TokenView::Fn,
            Token::Hash => TokenView::Hash,
            Token::DocComment(s) => TokenView::DocComment(s@),
            Token::Eq => TokenView::Eq,
            Token::Semi => TokenView::Semi,
            Token::LParen => TokenView::LParen,
            Token::RParen => TokenView::RParen,
            Token::LBrace => TokenView::LBrace,
            Token::RBrace => TokenView::RBrace,
            Token::Plus => TokenView::Plus,
            Token::Minus => TokenView::Minus,
            Token::Multiply => TokenView::Multiply,
            Token::Divide => TokenView::Divide,
            Token::And => TokenView::And,
            Token::Or => TokenView::Or,
            Token::EqEq => TokenView::EqEq,
            Token::NotEq => TokenView::NotEq,
            Token::Not => TokenView::Not,
            Token::Comma => TokenView::Comma,
            Token::Colon => TokenView::Colon,
            Token::Dot => TokenView::Dot,
            Token::Less => TokenView::Less,
            Token::Greater => TokenView::Greater,
            Token::LessEq => TokenView::LessEq,
            Token::GreaterEq => TokenView::GreaterEq,
        }
    }
}

impl DeepView for Token {
    type V = TokenView;

    open spec fn deep_view(&self) -> TokenView {
        self.view()
    }
}

/// The descriptive text a token shows inside an error message.
pub open spec fn spec_token_text(t: TokenView) -> Seq<char> {
    match t {
        TokenView::Ident(s) => "Ident(\""@ + s + "\")"@,
        TokenView::Integer(i) => "Integer("@ + spec_int_str(i as int) + ")"@,
        TokenView::Float(s) => "Float("@ + s + ")"@,
        TokenView::String(s) => "String(\""@ + s + "\")"@,
        TokenView::Bool(b) => if b { "Bool(true)"@ } else { "Bool(false)"@ },
        TokenView::On => "On"@,
        TokenView::Spawn => "Spawn"@,
        TokenView::Extend => "Extend"@,
        TokenView::Fn => "Fn"@,
        TokenView::Hash => "Hash"@,
        TokenView::DocComment(s) => "DocComment(\""@ + s + "\")"@,
        TokenView::Eq => "Eq"@,
        TokenView::Semi => "Semi"@,
        TokenView::LParen => "LParen"@,
        TokenView::RParen => "RParen"@,
        TokenView::LBrace => "LBrace"@,
        TokenView::RBrace => "RBrace"@,
        TokenView::Plus => "Plus"@,
        TokenView::Minus => "Minus"@,
        TokenView::Multiply => "Multiply"@,
        TokenView::Divide => "Divide"@,
        TokenView::And => "And"@,
        TokenView::Or => "Or"@,
        TokenView::EqEq => "EqEq"@,
        TokenView::NotEq => "NotEq"@,
        TokenView::Not => "Not"@,
        TokenView::Comma => "Comma"@,
        TokenView::Colon => "Colon"@,
        TokenView::Dot => "Dot"@,
        TokenView::Less => "Less"@,
        TokenView::Greater => "Greater"@,
        TokenView::LessEq => "LessEq"@,
        TokenView::GreaterEq => "GreaterEq"@,
    }
}

/// A token's model pins its variant: used to refute a model variant from a
/// failed structural match.
pub proof fn lemma_token_view_variant(t: Token)
    ensures
        (t@ matches TokenView::LParen) ==> (t matches Token::LParen),
        (t@ matches TokenView::RParen) ==> (t matches Token::RParen),
        (t@ matches TokenView::Dot) ==> (t matches Token::Dot),
        (t@ matches TokenView::Comma) ==> (t matches Token::Comma),
        (t@ matches TokenView::Eq) ==> (t matches Token::Eq),
        (t@ matches TokenView::RBrace) ==> (t matches Token::RBrace),
        (t@ matches TokenView::LBrace) ==> (t matches Token::LBrace),
        (t@ matches TokenView::Ident(_)) ==> (t matches Token::Ident(_)),
        (t@ matches TokenView::DocComment(_)) ==> (t matches Token::DocComment(_)),
        (t@ matches TokenView::Fn) ==> (t matches Token::Fn),
        (t@ matches TokenView::Spawn) ==> (t matches Token::Spawn),
        (t@ matches TokenView::Extend) ==> (t matches Token::Extend),
        (t@ matches TokenView::Hash) ==> (t matches Token::Hash),
        (t@ matches TokenView::Or) ==> (t matches Token::Or),
        (t@ matches TokenView::And) ==> (t matches Token::And),
        (t@ matches TokenView::Not) ==> (t matches Token::Not),
        (t@ matches TokenView::Minus) ==> (t matches Token::Minus),
{
    match t {
        Token::Ident(_) => (),
        Token::Integer(_) => (),
        Token::Float(_) => (),
        Token::String(_) => (),
        Token::Bool(_) => (),
        Token::On => (),
        Token::Spawn => (),
        Token::Extend => (),
        Token::Fn => (),
        Token::Hash => (),
        Token::DocComment(_) => (),
        Token::Eq => (),
        Token::Semi => (),
        Token::LParen => (),
        Token::RParen => (),
        Token::LBrace => (),
        Token::RBrace => (),
        Token::Plus => (),
        Token::Minus => (),
        Token::Multiply => (),
        Token::Divide => (),
        Token::And => (),
        Token::Or => (),
        Token::EqEq => (),
        Token::NotEq => (),
        Token::Not => (),
        Token::Comma => (),
        Token::Colon => (),
        Token::Dot => (),
        Token::Less => (),
        Token::Greater => (),
        Token::LessEq => (),
        Token::GreaterEq => (),
    }
}

impl Token {
    /// Render this token for an error message.
    pub fn describe(&self) -> (r: String)
        ensures
            r@ == spec_token_text(self@),
    {
        match self {
            Token::Ident(s) => {
                let mut r = String::new();
                r.append("Ident(\"");
                r.append(s.as_str());
                r.append("\")");
                r
            },
            Token::Integer(i) => {
                let digits = i64_to_dec_chars(*i);
                let mut r = String::new();
                r.append("Integer(");
                r.append(chars_to_string(&digits).as_str());
                r.append(")");
                r
            },
            Token::Float(s) => {
                let mut r = String::new();
                r.append("Float(");
                r.append(s.as_str());
                r.append(")");
                r
            },
            Token::String(s) => {
                let mut r = String::new();
                r.append("String(\"");
                r.append(s.as_str());
                r.append("\")");
                r
            },
            Token::Bool(b) => {
                if *b {
                    String::from_str("Bool(true)")
                } else {
                    String::from_str("Bool(false)")
                }
            },
            Token::On => String::from_str("On"),
            Token::Spawn => String::from_str("Spawn"),
            Token::Extend => String::from_str("Extend"),
            Token::Fn => String::from_str("Fn"),
            Token::Hash => String::from_str("Hash"),
            Token::DocComment(s) => {
                let mut r = String::new();
                r.append("DocComment(\"");
                r.append(s.as_str());
                r.append("\")");
                r
            },
            Token::Eq => String::from_str("Eq"),
            Token::Semi => String::from_str("Semi"),
            Token::LParen => String::from_str("LParen"),
            Token::RParen => String::from_str("RParen"),
            Token::LBrace => String::from_str("LBrace"),
            Token::RBrace => String::from_str("RBrace"),
            Token::Plus => String::from_str("Plus"),
            Token::Minus => String::from_str("Minus"),
            Token::Multiply => String::from_str("Multiply"),
            Token::Divide => String::from_str("Divide"),
            Token::And => String::from_str("And"),
            Token::Or => String::from_str("Or"),
            Token::EqEq => String::from_str("EqEq"),
            Token::NotEq => String::from_str("NotEq"),
            Token::Not => String::from_str("Not"),
            Token::Comma => String::from_str("Comma"),
            Token::Colon => String::from_str("Colon"),
            Token::Dot => String::from_str("Dot"),
            Token::Less => String::from_str("Less"),
            Token::Greater => String::from_str("Greater"),
            Token::LessEq => String::from_str("LessEq"),
            Token::GreaterEq => String::from_str("GreaterEq"),
        }
    }
}

} // verus!
