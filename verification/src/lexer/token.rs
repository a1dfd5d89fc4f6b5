use vstd::prelude::*;
use vstd::std_specs::cmp::PartialEqSpecImpl;
use vstd::string::StringExecFns;

verus! {

/// The kinds of lexical unit. The three literal kinds carry their text: an
/// identifier its name, a string its contents without the quotes, a number its
/// decimal spelling.
#[derive(Debug)]
pub enum TokenType {
    // Single-character tokens.
    LeftParen,
    RightParen,
    LeftBrace,
    RightBrace,
    Comma,
    Dot,
    Minus,
    Plus,
    Semicolon,
    Slash,
    Star,

    // One or two character tokens.
    Bang,
    BangEqual,
    Equal,
    EqualEqual,
    Greater,
    GreaterEqual,
    Less,
    LessEqual,

    // Keywords.
    And,
    Class,
    Else,
    False,
    Fun,
    For,
    If,
    Nil,
    Or,
    Print,
    Return,
    Super,
    This,
    True,
    Var,
    While,

    // Literals.
    Identifier(String),
    String(String),
    Number(String),

    Eof,
}

/// What a `TokenType` stands for in contracts.
pub enum TokenTypeView {
    // Single-character tokens.
    LeftParen,
    RightParen,
    LeftBrace,
    RightBrace,
    Comma,
    Dot,
    Minus,
    Plus,
    Semicolon,
    Slash,
    Star,

    // One or two character tokens.
    Bang,
    BangEqual,
    Equal,
    EqualEqual,
    Greater,
    GreaterEqual,
    Less,
    LessEqual,

    // Keywords.
    And,
    Class,
    Else,
    False,
    Fun,
    For,
    If,
    Nil,
    Or,
    Print,
    Return,
    Super,
    This,
    True,
    Var,
    While,

    // Literals.
    Identifier(Seq<char>),
    String(Seq<char>),
    Number(Seq<char>),

    Eof,
}

impl View for TokenType {
    type V = TokenTypeView;

    open spec fn view(&self) -> TokenTypeView {
        match self {
            TokenType::LeftParen => TokenTypeView::LeftParen,
            TokenType::RightParen => TokenTypeView::RightParen,
            TokenType::LeftBrace => TokenTypeView::LeftBrace,
            TokenType::RightBrace => TokenTypeView::RightBrace,
            TokenType::Comma => TokenTypeView::Comma,
            TokenType::Dot => TokenTypeView::Dot,
            TokenType::Minus => TokenTypeView::Minus,
            TokenType::Plus => TokenTypeView::Plus,
            TokenType::Semicolon => TokenTypeView::Semicolon,
            TokenType::Slash => TokenTypeView::Slash,
            TokenType::Star => TokenTypeView::Star,
            TokenType::Bang => TokenTypeView::Bang,
            TokenType::BangEqual => TokenTypeView::BangEqual,
            TokenType::Equal => TokenTypeView::Equal,
            TokenType::EqualEqual => TokenTypeView::EqualEqual,
            TokenType::Greater => TokenTypeView::Greater,
            TokenType::GreaterEqual => TokenTypeView::GreaterEqual,
            TokenType::Less => TokenTypeView::Less,
            TokenType::LessEqual => TokenTypeView::LessEqual,
            TokenType::And => TokenTypeView::And,
            TokenType::Class => TokenTypeView::Class,
            TokenType::Else => TokenTypeView::Else,
            TokenType::False => TokenTypeView::False,
            TokenType::Fun => TokenTypeView::Fun,
            TokenType::For => TokenTypeView::For,
            TokenType::If => TokenTypeView::If,
            TokenType::Nil => TokenTypeView::Nil,
            TokenType::Or => TokenTypeView::Or,
            TokenType::Print => TokenTypeView::Print,
            TokenType::Return => TokenTypeView::Return,
            TokenType::Super => TokenTypeView::Super,
            TokenType::This => TokenTypeView::This,
            TokenType::True => TokenTypeView::True,
            TokenType::Var => TokenTypeView::Var,
            TokenType::While => TokenTypeView::While,
            TokenType::Identifier(s) => TokenTypeView::Identifier(s@),
            TokenType::String(s) => TokenTypeView::String(s@),
            TokenType::Number(s) => TokenTypeView::Number(s@),
            TokenType::Eof => TokenTypeView::Eof,
        }
    }
}

impl Clone for TokenType {
    fn clone(&self) -> (r: Self)
        ensures
            r@ == self@,
    {
        match self {
            TokenType::LeftParen => TokenType::LeftParen,
            TokenType::RightParen => TokenType::RightParen,
            TokenType::LeftBrace => TokenType::LeftBrace,
            TokenType::RightBrace => TokenType::RightBrace,
            TokenType::Comma => TokenType::Comma,
            TokenType::Dot => TokenType::Dot,
            TokenType::Minus => TokenType::Minus,
            TokenType::Plus => TokenType::Plus,
            TokenType::Semicolon => TokenType::Semicolon,
            TokenType::Slash => TokenType::Slash,
            TokenType::Star => TokenType::Star,
            TokenType::Bang => TokenType::Bang,
            TokenType::BangEqual => TokenType::BangEqual,
            TokenType::Equal => TokenType::Equal,
            TokenType::EqualEqual => TokenType::EqualEqual,
            TokenType::Greater => TokenType::Greater,
            TokenType::GreaterEqual => TokenType::GreaterEqual,
            TokenType::Less => TokenType::Less,
            TokenType::LessEqual => TokenType::LessEqual,
            TokenType::And => TokenType::And,
            TokenType::Class => TokenType::Class,
            TokenType::Else => TokenType::Else,
            TokenType::False => TokenType::False,
            TokenType::Fun => TokenType::Fun,
            TokenType::For => TokenType::For,
            TokenType::If => TokenType::If,
            TokenType::Nil => TokenType::Nil,
            TokenType::Or => TokenType::Or,
            TokenType::Print => TokenType::Print,
            TokenType::Return => TokenType::Return,
            TokenType::Super => TokenType::Super,
            TokenType::This => TokenType::This,
            TokenType::True => TokenType::True,
            TokenType::Var => TokenType::Var,
            TokenType::While => TokenType::While,
            TokenType::Identifier(s) => TokenType::Identifier(s.clone()),
            TokenType::String(s) => TokenType::String(s.clone()),
            TokenType::Number(s) => TokenType::Number(s.clone()),
            TokenType::Eof => TokenType::Eof,
        }
    }
}

/// The name of a kind, with the text of a literal kind behind it in
/// parentheses: a name or the contents of a string between double quotes, the
/// spelling of a number bare.
pub open spec fn described(kind: TokenTypeView) -> Seq<char> {
    match kind {
        TokenTypeView::LeftParen => "LeftParen"@,
        TokenTypeView::RightParen => "RightParen"@,
        TokenTypeView::LeftBrace => "LeftBrace"@,
        TokenTypeView::RightBrace => "RightBrace"@,
        TokenTypeView::Comma => "Comma"@,
        TokenTypeView::Dot => "Dot"@,
        TokenTypeView::Minus => "Minus"@,
        TokenTypeView::Plus => "Plus"@,
        TokenTypeView::Semicolon => "Semicolon"@,
        TokenTypeView::Slash => "Slash"@,
        TokenTypeView::Star => "Star"@,
        TokenTypeView::Bang => "Bang"@,
        TokenTypeView::BangEqual => "BangEqual"@,
        TokenTypeView::Equal => "Equal"@,
        TokenTypeView::EqualEqual => "EqualEqual"@,
        TokenTypeView::Greater => "Greater"@,
        TokenTypeView::GreaterEqual => "GreaterEqual"@,
        TokenTypeView::Less => "Less"@,
        TokenTypeView::LessEqual => "LessEqual"@,
        TokenTypeView::And => "And"@,
        TokenTypeView::Class => "Class"@,
        TokenTypeView::Else => "Else"@,
        TokenTypeView::False => "False"@,
        TokenTypeView::Fun => "Fun"@,
        TokenTypeView::For => "For"@,
        TokenTypeView::If => "If"@,
        TokenTypeView::Nil => "Nil"@,
        TokenTypeView::Or => "Or"@,
        TokenTypeView::Print => "Print"@,
        TokenTypeView::Return => "Return"@,
        TokenTypeView::Super => "Super"@,
        TokenTypeView::This => "This"@,
        TokenTypeView::True => "True"@,
        TokenTypeView::Var => "Var"@,
        TokenTypeView::While => "While"@,
        TokenTypeView::Identifier(name) => "Identifier(\""@ + name + "\")"@,
        TokenTypeView::String(contents) => "String(\""@ + contents + "\")"@,
        TokenTypeView::Number(spelling) => "Number("@ + spelling + ")"@,
        TokenTypeView::Eof => "Eof"@,
    }
}

impl TokenType {
    /// The kind as text.
    pub fn describe(&self) -> (text: String)
        ensures
            text@ == described(self@),
    {
        match self {
            TokenType::LeftParen => String::from_str("LeftParen"),
            TokenType::RightParen => String::from_str("RightParen"),
            TokenType::LeftBrace => String::from_str("LeftBrace"),
            TokenType::RightBrace => String::from_str("RightBrace"),
            TokenType::Comma => String::from_str("Comma"),
            TokenType::Dot => String::from_str("Dot"),
            TokenType::Minus => String::from_str("Minus"),
            TokenType::Plus => String::from_str("Plus"),
            TokenType::Semicolon => String::from_str("Semicolon"),
            TokenType::Slash => String::from_str("Slash"),
            TokenType::Star => String::from_str("Star"),
            TokenType::Bang => String::from_str("Bang"),
            TokenType::BangEqual => String::from_str("BangEqual"),
            TokenType::Equal => String::from_str("Equal"),
            TokenType::EqualEqual => String::from_str("EqualEqual"),
            TokenType::Greater => String::from_str("Greater"),
            TokenType::GreaterEqual => String::from_str("GreaterEqual"),
            TokenType::Less => String::from_str("Less"),
            TokenType::LessEqual => String::from_str("LessEqual"),
            TokenType::And => String::from_str("And"),
            TokenType::Class => String::from_str("Class"),
            TokenType::Else => String::from_str("Else"),
            TokenType::False => String::from_str("False"),
            TokenType::Fun => String::from_str("Fun"),
            TokenType::For => String::from_str("For"),
            TokenType::If => String::from_str("If"),
            TokenType::Nil => String::from_str("Nil"),
            TokenType::Or => String::from_str("Or"),
            TokenType::Print => String::from_str("Print"),
            TokenType::Return => String::from_str("Return"),
            TokenType::Super => String::from_str("Super"),
            TokenType::This => String::from_str("This"),
            TokenType::True => String::from_str("True"),
            TokenType::Var => String::from_str("Var"),
            TokenType::While => String::from_str("While"),
            TokenType::Identifier(name) => {
                let mut text = String::from_str("Identifier(\"");
                text.append(name.as_str());
                text.append("\")");
                text
            },
            TokenType::String(contents) => {
                let mut text = String::from_str("String(\"");
                text.append(contents.as_str());
                text.append("\")");
                text
            },
            TokenType::Number(spelling) => {
                let mut text = String::from_str("Number(");
                text.append(spelling.as_str());
                text.append(")");
                text
            },
            TokenType::Eof => String::from_str("Eof"),
        }
    }
}

impl PartialEq for TokenType {
    /// Structural equality: the same variant, carrying the same text.
    fn eq(&self, other: &TokenType) -> (r: bool) {
        match (self, other) {
            (TokenType::LeftParen, TokenType::LeftParen) => true,
            (TokenType::RightParen, TokenType::RightParen) => true,
            (TokenType::LeftBrace, TokenType::LeftBrace) => true,
            (TokenType::RightBrace, TokenType::RightBrace) => true,
            (TokenType::Comma, TokenType::Comma) => true,
            (TokenType::Dot, TokenType::Dot) => true,
            (TokenType::Minus, TokenType::Minus) => true,
            (TokenType::Plus, TokenType::Plus) => true,
            (TokenType::Semicolon, TokenType::Semicolon) => true,
            (TokenType::Slash, TokenType::Slash) => true,
            (TokenType::Star, TokenType::Star) => true,
            (TokenType::Bang, TokenType::Bang) => true,
            (TokenType::BangEqual, TokenType::BangEqual) => true,
            (TokenType::Equal, TokenType::Equal) => true,
            (TokenType::EqualEqual, TokenType::EqualEqual) => true,
            (TokenType::Greater, TokenType::Greater) => true,
            (TokenType::GreaterEqual, TokenType::GreaterEqual) => true,
            (TokenType::Less, TokenType::Less) => true,
            (TokenType::LessEqual, TokenType::LessEqual) => true,
            (TokenType::And, TokenType::And) => true,
            (TokenType::Class, TokenType::Class) => true,
            (TokenType::Else, TokenType::Else) => true,
            (TokenType::False, TokenType::False) => true,
            (TokenType::Fun, TokenType::Fun) => true,
            (TokenType::For, TokenType::For) => true,
            (TokenType::If, TokenType::If) => true,
            (TokenType::Nil, TokenType::Nil) => true,
            (TokenType::Or, TokenType::Or) => true,
            (TokenType::Print, TokenType::Print) => true,
            (TokenType::Return, TokenType::Return) => true,
            (TokenType::Super, TokenType::Super) => true,
            (TokenType::This, TokenType::This) => true,
            (TokenType::True, TokenType::True) => true,
            (TokenType::Var, TokenType::Var) => true,
            (TokenType::While, TokenType::While) => true,
            (TokenType::Identifier(a), TokenType::Identifier(b)) => *a == *b,
            (TokenType::String(a), TokenType::String(b)) => *a == *b,
            (TokenType::Number(a), TokenType::Number(b)) => *a == *b,
            (TokenType::Eof, TokenType::Eof) => true,
            _ => false,
        }
    }
}

impl PartialEqSpecImpl for TokenType {
    open spec fn obeys_eq_spec() -> bool {
        true
    }

    open spec fn eq_spec(&self, other: &TokenType) -> bool {
        self@ == other@
    }
}

/// A lexical unit: its kind, the source text it was scanned from, and the line
/// it ends on. A token never changes once made.
#[derive(Debug)]
pub struct Token {
    token_type: TokenType,
    lexeme: String,
    line: u32,
}

/// What a `Token` stands for in contracts.
pub struct TokenView {
    pub kind: TokenTypeView,
    pub lexeme: Seq<char>,
    pub line: u32,
}

impl View for Token {
    type V = TokenView;

    closed spec fn view(&self) -> TokenView {
        TokenView { kind: self.token_type@, lexeme: self.lexeme@, line: self.line }
    }
}

impl Clone for Token {
    fn clone(&self) -> (r: Self)
        ensures
            r@ == self@,
    {
        Token { token_type: self.token_type.clone(), lexeme: self.lexeme.clone(), line: self.line }
    }
}

impl PartialEq for Token {
    fn eq(&self, other: &Token) -> (r: bool) {
        self.token_type == other.token_type && self.lexeme == other.lexeme && self.line == other.line
    }
}

impl PartialEqSpecImpl for Token {
    open spec fn obeys_eq_spec() -> bool {
        true
    }

    open spec fn eq_spec(&self, other: &Token) -> bool {
        self@ == other@
    }
}

impl Token {
    pub fn new(token_type: TokenType, lexeme: String, line: u32) -> (token: Token)
        ensures
            token@ == (TokenView { kind: token_type@, lexeme: lexeme@, line }),
    {
        Token { token_type, lexeme, line }
    }

    pub fn get_token_type(&self) -> (kind: &TokenType)
        ensures
            kind@ == self@.kind,
    {
        &self.token_type
    }

    pub fn get_lexeme(&self) -> (lexeme: String)
        ensures
            lexeme@ == self@.lexeme,
    {
        self.lexeme.clone()
    }

    pub fn get_line(&self) -> (line: u32)
        ensures
            line == self@.line,
    {
        self.line
    }

    /// The token as text: its kind, a space, and its lexeme.
    pub fn to_string(&self) -> (text: String)
        ensures
            text@ == described(self@.kind) + " "@ + self@.lexeme,
    {
        let mut text = self.token_type.describe();
        text.append(" ");
        text.append(self.lexeme.as_str());
        text
    }
}


} // verus!
