//! The token model: the four token kinds and their textual rendering.

use vstd::prelude::*;

verus! {

/// The text of a numeric literal: an optional leading minus, recorded as
/// `negative`, and the unsigned digit text (digits with at most one
/// decimal point, e.g. `"3.14"`). The minus sign is kept apart from the
/// digits so that a host can parse the unsigned text and then negate,
/// which maps `-0` to the negative zero of its number type.
pub struct Literal {
    pub negative: bool,
    pub digits: String,
}

/// One token of a postfix program.
pub enum Token {
    /// A numeric literal.
    Number(Literal),
    /// A run of characters that are not digits, `$`, `:` or whitespace;
    /// names either a variable or a built-in function.
    Identifier(String),
    /// The marker `$`: the next token names a variable or indexes the
    /// external argument list.
    ValueOf,
    /// The marker `:`: the next token names the variable to assign to.
    Assign,
}

/// The mathematical shape of a token, with text as character sequences.
pub enum TokenModel {
    Number { negative: bool, digits: Seq<char> },
    Identifier(Seq<char>),
    ValueOf,
    Assign,
}

impl View for Token {
    type V = TokenModel;

    open spec fn view(&self) -> TokenModel {
        match self {
            Token::Number(lit) => TokenModel::Number {
                negative: lit.negative,
                digits: lit.digits@,
            },
            Token::Identifier(name) => TokenModel::Identifier(name@),
            Token::ValueOf => TokenModel::ValueOf,
            Token::Assign => TokenModel::Assign,
        }
    }
}

impl DeepView for Token {
    type V = TokenModel;

    open spec fn deep_view(&self) -> TokenModel {
        self.view()
    }
}

/// What `render` returns for a token of the given shape.
pub open spec fn token_text(t: TokenModel) -> Seq<char> {
    match t {
        TokenModel::Number { negative, digits } => "Number: "@ + (if negative {
            "-"@
        } else {
            Seq::<char>::empty()
        }) + digits,
        TokenModel::Identifier(name) => "Identifier: "@ + name,
        TokenModel::ValueOf => "$"@,
        TokenModel::Assign => ":"@,
    }
}

impl Token {
    /// A readable description of the token; numbers show their literal
    /// text verbatim.
    pub fn render(&self) -> (out: String)
        ensures
            out@ == token_text(self@),
    {
        match self {
            Token::Number(lit) => {
                let mut out = String::from_str("Number: ");
                if lit.negative {
                    out.append("-");
                }
                out.append(lit.digits.as_str());
                proof {
                    if !lit.negative {
                        assert("Number: "@ + Seq::<char>::empty() =~= "Number: "@);
                    }
                }
                out
            },
            Token::Identifier(name) => {
                let mut out = String::from_str("Identifier: ");
                out.append(name.as_str());
                out
            },
            Token::ValueOf => String::from_str("$"),
            Token::Assign => String::from_str(":"),
        }
    }
}

} // verus!
