//! How symbols and operators are written.

use vstd::prelude::*;
use vstd::string::StringExecFns;
use crate::ast::{BinOpKind, Symbol};
use crate::model::SymbolView;

verus! {

/// The character for a digit.
pub open spec fn digit_char(d: int) -> char {
    if d == 0 {
        '0'
    } else if d == 1 {
        '1'
    } else if d == 2 {
        '2'
    } else if d == 3 {
        '3'
    } else if d == 4 {
        '4'
    } else if d == 5 {
        '5'
    } else if d == 6 {
        '6'
    } else if d == 7 {
        '7'
    } else if d == 8 {
        '8'
    } else {
        '9'
    }
}

/// A natural number in decimal, without leading zeros.
pub open spec fn digits(n: nat) -> Seq<char>
    decreases n,
{
    if n < 10 {
        seq![digit_char(n as int)]
    } else {
        digits(n / 10) + seq![digit_char((n % 10) as int)]
    }
}

/// An integer in decimal, with a minus sign if it is negative.
pub open spec fn decimal(i: int) -> Seq<char> {
    if i < 0 {
        seq!['-'] + digits((-i) as nat)
    } else {
        digits(i as nat)
    }
}

impl SymbolView {
    /// How the symbol is written: its name alone if its number is 0, else
    /// its name, `#` and its number.
    pub open spec fn text(self) -> Seq<char> {
        if self.id == 0 {
            self.name
        } else {
            self.name + seq!['#'] + decimal(self.id as int)
        }
    }
}

impl BinOpKind {
    /// How the operator is written.
    pub open spec fn text(self) -> Seq<char> {
        match self {
            BinOpKind::Add => seq!['+'],
            BinOpKind::Subtract => seq!['-'],
            BinOpKind::Multiply => seq!['*'],
            BinOpKind::Divide => seq!['/'],
            BinOpKind::Modulo => seq!['%'],
            BinOpKind::Equal => seq!['=', '='],
            BinOpKind::NotEqual => seq!['!', '='],
            BinOpKind::LessThan => seq!['<'],
            BinOpKind::LessThanOrEqual => seq!['<', '='],
            BinOpKind::GreaterThan => seq!['>'],
            BinOpKind::GreaterThanOrEqual => seq!['>', '='],
            BinOpKind::LogicalAnd => seq!['&', '&'],
            BinOpKind::LogicalOr => seq!['|', '|'],
            BinOpKind::BitwiseAnd => seq!['&'],
            BinOpKind::BitwiseOr => seq!['|'],
            BinOpKind::Xor => seq!['^'],
        }
    }

    /// How the operator is written, as a string slice.
    pub fn as_str(&self) -> (res: &'static str)
        ensures
            res@ == self.text(),
    {
        proof {
            reveal_strlit("+");
            reveal_strlit("-");
            reveal_strlit("*");
            reveal_strlit("/");
            reveal_strlit("%");
            reveal_strlit("==");
            reveal_strlit("!=");
            reveal_strlit("<");
            reveal_strlit("<=");
            reveal_strlit(">");
            reveal_strlit(">=");
            reveal_strlit("&&");
            reveal_strlit("||");
            reveal_strlit("&");
            reveal_strlit("|");
            reveal_strlit("^");
        }
        let text = match *self {
            BinOpKind::Add => "+",
            BinOpKind::Subtract => "-",
            BinOpKind::Multiply => "*",
            BinOpKind::Divide => "/",
            BinOpKind::Modulo => "%",
            BinOpKind::Equal => "==",
            BinOpKind::NotEqual => "!=",
            BinOpKind::LessThan => "<",
            BinOpKind::LessThanOrEqual => "<=",
            BinOpKind::GreaterThan => ">",
            BinOpKind::GreaterThanOrEqual => ">=",
            BinOpKind::LogicalAnd => "&&",
            BinOpKind::LogicalOr => "||",
            BinOpKind::BitwiseAnd => "&",
            BinOpKind::BitwiseOr => "|",
            BinOpKind::Xor => "^",
        };
        assert(text@ =~= self.text());
        text
    }

    /// How the operator is written.
    pub fn to_string(&self) -> (res: String)
        ensures
            res@ == self.text(),
    {
        String::from_str(self.as_str())
    }
}

/// The string for a digit.
fn digit_str(d: u32) -> (res: &'static str)
    requires
        d < 10,
    ensures
        res@ == seq![digit_char(d as int)],
{
    proof {
        reveal_strlit("0");
        reveal_strlit("1");
        reveal_strlit("2");
        reveal_strlit("3");
        reveal_strlit("4");
        reveal_strlit("5");
        reveal_strlit("6");
        reveal_strlit("7");
        reveal_strlit("8");
        reveal_strlit("9");
    }
    let text = if d == 0 {
        "0"
    } else if d == 1 {
        "1"
    } else if d == 2 {
        "2"
    } else if d == 3 {
        "3"
    } else if d == 4 {
        "4"
    } else if d == 5 {
        "5"
    } else if d == 6 {
        "6"
    } else if d == 7 {
        "7"
    } else if d == 8 {
        "8"
    } else {
        "9"
    };
    assert(text@ =~= seq![digit_char(d as int)]);
    text
}

/// Appends `n` in decimal to `out`.
fn push_digits(out: &mut String, n: u32)
    ensures
        final(out)@ == old(out)@ + digits(n as nat),
    decreases n,
{
    if n >= 10 {
        push_digits(out, n / 10);
    }
    out.append(digit_str(n % 10));
    assert(out@ =~= old(out)@ + digits(n as nat));
}

impl Symbol {
    /// How the symbol is written: its name alone if its number is 0, else
    /// its name, `#` and its number.
    pub fn to_string(&self) -> (res: String)
        ensures
            res@ == self@.text(),
    {
        let mut out = self.name.clone();
        if self.id != 0 {
            proof {
                reveal_strlit("#");
                reveal_strlit("-");
            }
            out.append("#");
            let magnitude: u32 = if self.id < 0 {
                out.append("-");
                (-(self.id as i64)) as u32
            } else {
                self.id as u32
            };
            push_digits(&mut out, magnitude);
            assert(out@ =~= self@.text());
        }
        out
    }
}

} // verus!
