use vstd::prelude::*;

verus! {

/// The operator tokens that reach the instruction tree.
#[derive(Clone, Copy, Debug, PartialEq, Eq, Structural)]
pub enum TokenKind {
    Assign,
    Plus,
    Minus,
    Bang,
    Asterisk,
    Slash,
    Percent,
    LT,
    GT,
    LTE,
    GTE,
    EQ,
    NEQ,
}

impl TokenKind {
    /// The four operators that compute a number from two numbers.
    pub open spec fn is_arithmetic(self) -> bool {
        self == TokenKind::Plus || self == TokenKind::Minus || self == TokenKind::Asterisk || self
            == TokenKind::Slash
    }

    /// The six operators that compare two values.
    pub open spec fn is_comparison(self) -> bool {
        self == TokenKind::EQ || self == TokenKind::NEQ || self == TokenKind::LT || self
            == TokenKind::LTE || self == TokenKind::GT || self == TokenKind::GTE
    }

    /// Whether the token is one of the four arithmetic operators.
    pub fn arithmetic(&self) -> (r: bool)
        ensures
            r == self.is_arithmetic(),
    {
        match self {
            TokenKind::Plus | TokenKind::Minus | TokenKind::Asterisk | TokenKind::Slash => true,
            _ => false,
        }
    }

    /// Whether the token is one of the six comparisons.
    pub fn comparison(&self) -> (r: bool)
        ensures
            r == self.is_comparison(),
    {
        match self {
            TokenKind::EQ | TokenKind::NEQ | TokenKind::LT | TokenKind::LTE | TokenKind::GT
            | TokenKind::GTE => true,
            _ => false,
        }
    }

    /// The symbol of the token as it is written in source text.
    pub open spec fn symbol(self) -> Seq<char> {
        match self {
            TokenKind::Assign => seq!['='],
            TokenKind::Plus => seq!['+'],
            TokenKind::Minus => seq!['-'],
            TokenKind::Bang => seq!['!'],
            TokenKind::Asterisk => seq!['*'],
            TokenKind::Slash => seq!['/'],
            TokenKind::Percent => seq!['%'],
            TokenKind::LT => seq!['<'],
            TokenKind::GT => seq!['>'],
            TokenKind::LTE => seq!['<', '='],
            TokenKind::GTE => seq!['>', '='],
            TokenKind::EQ => seq!['=', '='],
            TokenKind::NEQ => seq!['!', '='],
        }
    }

    /// The symbol of the token.
    pub fn to_text(&self) -> (r: String)
        ensures
            r@ == self.symbol(),
    {
        let mut r = String::new();
        match self {
            TokenKind::Assign => {
                proof { reveal_strlit("="); }
                r.append("=");
            },
            TokenKind::Plus => {
                proof { reveal_strlit("+"); }
                r.append("+");
            },
            TokenKind::Minus => {
                proof { reveal_strlit("-"); }
                r.append("-");
            },
            TokenKind::Bang => {
                proof { reveal_strlit("!"); }
                r.append("!");
            },
            TokenKind::Asterisk => {
                proof { reveal_strlit("*"); }
                r.append("*");
            },
            TokenKind::Slash => {
                proof { reveal_strlit("/"); }
                r.append("/");
            },
            TokenKind::Percent => {
                proof { reveal_strlit("%"); }
                r.append("%");
            },
            TokenKind::LT => {
                proof { reveal_strlit("<"); }
                r.append("<");
            },
            TokenKind::GT => {
                proof { reveal_strlit(">"); }
                r.append(">");
            },
            TokenKind::LTE => {
                proof { reveal_strlit("<="); }
                r.append("<=");
            },
            TokenKind::GTE => {
                proof { reveal_strlit(">="); }
                r.append(">=");
            },
            TokenKind::EQ => {
                proof { reveal_strlit("=="); }
                r.append("==");
            },
            TokenKind::NEQ => {
                proof { reveal_strlit("!="); }
                r.append("!=");
            },
        }
        assert(r@ =~= self.symbol());
        r
    }
}

} // verus!
