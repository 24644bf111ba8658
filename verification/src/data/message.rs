//! The text of each diagnostic, as a user reads it.

use crate::data::error::CppError;
use crate::data::error::Error;
use crate::data::error::LexError;
use crate::data::error::SemanticError;
use crate::data::error::SyntaxError;
use crate::data::error::Warning;
use crate::ir::builder::Block;
use vstd::prelude::*;
use vstd::string::StringExecFns;

verus! {

/// The numeral of a digit.
pub open spec fn digit(d: nat) -> Seq<char> {
    if d == 0 {
        "0"@
    } else if d == 1 {
        "1"@
    } else if d == 2 {
        "2"@
    } else if d == 3 {
        "3"@
    } else if d == 4 {
        "4"@
    } else if d == 5 {
        "5"@
    } else if d == 6 {
        "6"@
    } else if d == 7 {
        "7"@
    } else if d == 8 {
        "8"@
    } else {
        "9"@
    }
}

/// The decimal numeral of `n`, without leading zeros.
pub open spec fn decimal(n: nat) -> Seq<char>
    decreases n,
{
    if n < 10 {
        digit(n)
    } else {
        decimal(n / 10) + digit(n % 10)
    }
}

fn digit_str(d: u64) -> (r: &'static str)
    requires
        d < 10,
    ensures
        r@ == digit(d as nat),
{
    if d == 0 {
        "0"
    } else if d == 1 {
        "1"
    } else if d == 2 {
        "2"
    } else if d == 3 {
        "3"
    } else if d == 4 {
        "4"
    } else if d == 5 {
        "5"
    } else if d == 6 {
        "6"
    } else if d == 7 {
        "7"
    } else if d == 8 {
        "8"
    } else {
        "9"
    }
}

/// Writes `n` in decimal.
pub fn decimal_string(n: u64) -> (r: String)
    ensures
        r@ == decimal(n as nat),
    decreases n,
{
    if n < 10 {
        String::from_str(digit_str(n))
    } else {
        let mut text = decimal_string(n / 10);
        text.append(digit_str(n % 10));
        text
    }
}

/// `left` or `right`.
pub open spec fn direction(is_left: bool) -> Seq<char> {
    if is_left {
        "left"@
    } else {
        "right"@
    }
}

impl Block {
    /// The name of the block in printed IR.
    pub open spec fn spec_name(self) -> Seq<char> {
        "block"@ + decimal(self.0 as nat)
    }

    /// The name of the block in printed IR: `block` and its number.
    pub fn name(&self) -> (r: String)
        ensures
            r@ == self.spec_name(),
    {
        let mut text = String::from_str("block");
        text.append(decimal_string(self.0 as u64).as_str());
        text
    }
}

impl SemanticError {
    pub open spec fn spec_message(self) -> Seq<char> {
        match self {
            SemanticError::Generic(text) => text@,
            SemanticError::EmptyProgram => "cannot have empty program"@,
            SemanticError::UndeclaredVar(name) => "use of undeclared identifier '"@ + name@ + "'"@,
            SemanticError::ConstOverflow { is_positive } => (if is_positive {
                "positive"@
            } else {
                "negative"@
            }) + " overflow in expresson"@,
            SemanticError::NotConstant(expr) => "not a constant expression: "@ + expr@,
            SemanticError::NotAssignable(reason) => "cannot assign to "@ + reason@,
            SemanticError::InvalidAddressOf(what) => "cannot take address of "@ + what@,
            SemanticError::DivideByZero => "cannot divide by zero"@,
            SemanticError::NegativeShift { is_left } => "cannot shift "@ + direction(is_left)
                + " by a negative amount"@,
            SemanticError::TooManyShiftBits { is_left, maximum, ctype, current } => "cannot shift "@
                + direction(is_left) + " by "@ + decimal(maximum as nat)
                + " or more bits for type '"@ + ctype@ + "' (got "@ + decimal(current as nat)
                + ")"@,
            SemanticError::UnreachableStatement => "unreachable statement"@,
            SemanticError::LabelRedeclaration(block) => "redeclaration of label "@
                + block.spec_name(),
            SemanticError::UndeclaredLabel(name) => "use of undeclared label "@ + name@,
            SemanticError::CaseOutsideSwitch { is_default } => (if is_default {
                "default "@
            } else {
                ""@
            }) + "case outside of switch statement"@,
            SemanticError::DuplicateCase { is_default } => "cannot have multiple "@ + (if is_default {
                "default "@
            } else {
                ""@
            }) + "cases in a switch statement"@,
            SemanticError::MultipleDefaultCase =>
                "cannot have multiple default cases in a switch statement"@,
            SemanticError::InvalidVoidParameter =>
                "void must be the first and only parameter if specified"@,
            SemanticError::TypedefInExpressionContext => "expected expression, got typedef"@,
        }
    }

    /// The text of the error.
    pub fn message(&self) -> (r: String)
        ensures
            r@ == self.spec_message(),
    {
        match self {
            SemanticError::Generic(text) => text.clone(),
            SemanticError::EmptyProgram => String::from_str("cannot have empty program"),
            SemanticError::UndeclaredVar(name) => {
                let mut text = String::from_str("use of undeclared identifier '");
                text.append(name.as_str());
                text.append("'");
                text
            },
            SemanticError::ConstOverflow { is_positive } => {
                let mut text = String::from_str(
                    if *is_positive {
                        "positive"
                    } else {
                        "negative"
                    },
                );
                text.append(" overflow in expresson");
                text
            },
            SemanticError::NotConstant(expr) => {
                let mut text = String::from_str("not a constant expression: ");
                text.append(expr.as_str());
                text
            },
            SemanticError::NotAssignable(reason) => {
                let mut text = String::from_str("cannot assign to ");
                text.append(reason.as_str());
                text
            },
            SemanticError::InvalidAddressOf(what) => {
                let mut text = String::from_str("cannot take address of ");
                text.append(what);
                text
            },
            SemanticError::DivideByZero => String::from_str("cannot divide by zero"),
            SemanticError::NegativeShift { is_left } => {
                let mut text = String::from_str("cannot shift ");
                text.append(
                    if *is_left {
                        "left"
                    } else {
                        "right"
                    },
                );
                text.append(" by a negative amount");
                text
            },
            SemanticError::TooManyShiftBits { is_left, maximum, ctype, current } => {
                let mut text = String::from_str("cannot shift ");
                text.append(
                    if *is_left {
                        "left"
                    } else {
                        "right"
                    },
                );
                text.append(" by ");
                text.append(decimal_string(*maximum).as_str());
                text.append(" or more bits for type '");
                text.append(ctype.as_str());
                text.append("' (got ");
                text.append(decimal_string(*current).as_str());
                text.append(")");
                text
            },
            SemanticError::UnreachableStatement => String::from_str("unreachable statement"),
            SemanticError::LabelRedeclaration(block) => {
                let mut text = String::from_str("redeclaration of label ");
                text.append(block.name().as_str());
                text
            },
            SemanticError::UndeclaredLabel(name) => {
                let mut text = String::from_str("use of undeclared label ");
                text.append(name.as_str());
                text
            },
            SemanticError::CaseOutsideSwitch { is_default } => {
                let mut text = String::from_str(
                    if *is_default {
                        "default "
                    } else {
                        ""
                    },
                );
                text.append("case outside of switch statement");
                text
            },
            SemanticError::DuplicateCase { is_default } => {
                let mut text = String::from_str("cannot have multiple ");
                text.append(
                    if *is_default {
                        "default "
                    } else {
                        ""
                    },
                );
                text.append("cases in a switch statement");
                text
            },
            SemanticError::MultipleDefaultCase => String::from_str(
                "cannot have multiple default cases in a switch statement",
            ),
            SemanticError::InvalidVoidParameter => String::from_str(
                "void must be the first and only parameter if specified",
            ),
            SemanticError::TypedefInExpressionContext => String::from_str(
                "expected expression, got typedef",
            ),
        }
    }
}

impl SyntaxError {
    pub open spec fn spec_message(self) -> Seq<char> {
        match self {
            SyntaxError::Generic(text) => text@,
            SyntaxError::EndOfFile(expected) => "expected "@ + expected@ + ", got <end-of-file>"@,
            SyntaxError::NotAStatement(keyword) => "expected statement, got "@ + keyword@,
        }
    }

    /// The text of the error.
    pub fn message(&self) -> (r: String)
        ensures
            r@ == self.spec_message(),
    {
        match self {
            SyntaxError::Generic(text) => text.clone(),
            SyntaxError::EndOfFile(expected) => {
                let mut text = String::from_str("expected ");
                text.append(expected);
                text.append(", got <end-of-file>");
                text
            },
            SyntaxError::NotAStatement(keyword) => {
                let mut text = String::from_str("expected statement, got ");
                text.append(keyword.as_str());
                text
            },
        }
    }
}

impl CppError {
    pub open spec fn spec_message(self) -> Seq<char> {
        match self {
            CppError::Generic(text) => text@,
            CppError::InvalidDirective => "invalid preprocessing directive"@,
            CppError::UnexpectedToken(expected, got) => "expected "@ + expected@ + ", got "@
                + got@,
            CppError::EndOfFile(expected) => "expected "@ + expected@ + ", got <end-of-file>"@,
            CppError::InvalidCppToken(token) => "invalid preprocessor token "@ + token@,
            CppError::UnterminatedDirective(directive) => directive@ + " is never terminated"@,
            CppError::EmptyExpression => "expected expression for #if"@,
            CppError::UnexpectedEndIf => "#endif without #if"@,
        }
    }

    /// The text of the error.
    pub fn message(&self) -> (r: String)
        ensures
            r@ == self.spec_message(),
    {
        match self {
            CppError::Generic(text) => text.clone(),
            CppError::InvalidDirective => String::from_str("invalid preprocessing directive"),
            CppError::UnexpectedToken(expected, got) => {
                let mut text = String::from_str("expected ");
                text.append(expected);
                text.append(", got ");
                text.append(got.as_str());
                text
            },
            CppError::EndOfFile(expected) => {
                let mut text = String::from_str("expected ");
                text.append(expected);
                text.append(", got <end-of-file>");
                text
            },
            CppError::InvalidCppToken(token) => {
                let mut text = String::from_str("invalid preprocessor token ");
                text.append(token.as_str());
                text
            },
            CppError::UnterminatedDirective(directive) => {
                let mut text = String::from_str(directive);
                text.append(" is never terminated");
                text
            },
            CppError::EmptyExpression => String::from_str("expected expression for #if"),
            CppError::UnexpectedEndIf => String::from_str("#endif without #if"),
        }
    }
}

impl LexError {
    pub open spec fn spec_message(self) -> Seq<char> {
        match self {
            LexError::Generic(text) => text@,
            LexError::UnterminatedComment => "unterminated /* comment"@,
        }
    }

    /// The text of the error.
    pub fn message(&self) -> (r: String)
        ensures
            r@ == self.spec_message(),
    {
        match self {
            LexError::Generic(text) => text.clone(),
            LexError::UnterminatedComment => String::from_str("unterminated /* comment"),
        }
    }
}

impl Warning {
    pub open spec fn spec_message(self) -> Seq<char> {
        match self {
            Warning::Generic(text) => text@,
        }
    }

    /// The text of the warning.
    pub fn message(&self) -> (r: String)
        ensures
            r@ == self.spec_message(),
    {
        match self {
            Warning::Generic(text) => text.clone(),
        }
    }
}

impl Error {
    /// The tag of the phase, then the text of the error.
    pub open spec fn spec_message(self) -> Seq<char> {
        match self {
            Error::Semantic(e) => "invalid program: "@ + e.spec_message(),
            Error::Syntax(e) => "invalid syntax: "@ + e.spec_message(),
            Error::PreProcessor(e) => "invalid macro: "@ + e.spec_message(),
            Error::Lex(e) => "invalid token: "@ + e.spec_message(),
        }
    }

    /// The text of the error, after the tag of the phase that found it.
    pub fn message(&self) -> (r: String)
        ensures
            r@ == self.spec_message(),
    {
        match self {
            Error::Semantic(e) => {
                let mut text = String::from_str("invalid program: ");
                text.append(e.message().as_str());
                text
            },
            Error::Syntax(e) => {
                let mut text = String::from_str("invalid syntax: ");
                text.append(e.message().as_str());
                text
            },
            Error::PreProcessor(e) => {
                let mut text = String::from_str("invalid macro: ");
                text.append(e.message().as_str());
                text
            },
            Error::Lex(e) => {
                let mut text = String::from_str("invalid token: ");
                text.append(e.message().as_str());
                text
            },
        }
    }
}

} // verus!
