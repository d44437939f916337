//! The outline of a matcher tree: one line a node, operands indented below.

use crate::pattern::regex_source;
use crate::shape::Shape;
use vstd::prelude::*;
use vstd::string::StringExecFns;

verus! {

/// The character for a decimal digit.
pub open spec fn digit_char(digit: nat) -> char {
    if digit == 0 {
        '0'
    } else if digit == 1 {
        '1'
    } else if digit == 2 {
        '2'
    } else if digit == 3 {
        '3'
    } else if digit == 4 {
        '4'
    } else if digit == 5 {
        '5'
    } else if digit == 6 {
        '6'
    } else if digit == 7 {
        '7'
    } else if digit == 8 {
        '8'
    } else {
        '9'
    }
}

/// The decimal numeral of `n`, without leading zeros.
pub open spec fn decimal(n: nat) -> Seq<char>
    decreases n,
{
    if n < 10 {
        seq![digit_char(n)]
    } else {
        decimal(n / 10).push(digit_char(n % 10))
    }
}

/// `count` spaces.
pub open spec fn spaces(count: nat) -> Seq<char> {
    Seq::new(count, |i: int| ' ')
}

impl Shape {
    /// The line that names this node: its kind and its payload.
    pub open spec fn label(self) -> Seq<char> {
        match self {
            Shape::Literal(lit) => "Literal \""@ + lit + "\""@,
            Shape::Pattern(re) => "Regex /"@ + regex_source(re) + "/"@,
            Shape::Constant(text) => "Constant \""@ + text + "\""@,
            Shape::Fail(message) => "Error \""@ + message + "\""@,
            Shape::Sequence(_, _) => "And"@,
            Shape::SkipBefore(_, _) => "IgnoreBefore"@,
            Shape::SkipAfter(_, _) => "IgnoreAfter"@,
            Shape::Alternation(_, _) => "Or"@,
            Shape::FixedRepeat(_, count) => "Repeat "@ + decimal(count),
            Shape::BoundedRepeat(_, min, max) => "RepeatRange "@ + decimal(min) + ".."@ + decimal(
                max,
            ),
            Shape::Transform(_, _) => "Map"@,
        }
    }

    /// The operands of this node, in order.
    pub open spec fn operands(self) -> Seq<Shape> {
        match self {
            Shape::Sequence(left, right)
            | Shape::SkipBefore(left, right)
            | Shape::SkipAfter(left, right)
            | Shape::Alternation(left, right) => seq![*left, *right],
            Shape::FixedRepeat(operand, _)
            | Shape::BoundedRepeat(operand, _, _)
            | Shape::Transform(operand, _) => seq![*operand],
            _ => seq![],
        }
    }

    /// The outline of this tree, each of its lines behind the margin `pad`.
    /// A node without operands is its label; one with operands lists them
    /// between square brackets, two columns further in, a comma after each.
    pub open spec fn outline(self, pad: Seq<char>) -> Seq<char>
        decreases self,
    {
        match self {
            Shape::Sequence(left, right)
            | Shape::SkipBefore(left, right)
            | Shape::SkipAfter(left, right)
            | Shape::Alternation(left, right) => pad + self.label() + " [\n"@ + left.outline(
                pad + "  "@,
            ) + ",\n"@ + right.outline(pad + "  "@) + ",\n"@ + pad + "]"@,
            Shape::FixedRepeat(operand, _)
            | Shape::BoundedRepeat(operand, _, _)
            | Shape::Transform(operand, _) => pad + self.label() + " [\n"@ + operand.outline(
                pad + "  "@,
            ) + ",\n"@ + pad + "]"@,
            _ => pad + self.label(),
        }
    }

    /// The outline of this tree behind a margin of `indent` spaces.
    pub open spec fn render(self, indent: nat) -> Seq<char> {
        self.outline(spaces(indent))
    }
}

/// The numeral of one decimal digit.
fn digit_text(digit: usize) -> (text: &'static str)
    requires
        digit < 10,
    ensures
        text@ == seq![digit_char(digit as nat)],
{
    proof {
        reveal_strlit("0");
        reveal_strlit("1");
        reveal_strlit("2");
        reveal_strlit("3");
        reveal_strlit("4");
        reveal_strlit("5");
        reveal_strlit("6");
        reveal_strlit("7");
        reveal_strlit("8");
        reveal_strlit("9");
    }
    let text = if digit == 0 {
        "0"
    } else if digit == 1 {
        "1"
    } else if digit == 2 {
        "2"
    } else if digit == 3 {
        "3"
    } else if digit == 4 {
        "4"
    } else if digit == 5 {
        "5"
    } else if digit == 6 {
        "6"
    } else if digit == 7 {
        "7"
    } else if digit == 8 {
        "8"
    } else {
        "9"
    };
    text
}

/// Writes `n` in decimal.
pub fn to_decimal(n: usize) -> (text: String)
    ensures
        text@ == decimal(n as nat),
    decreases n,
{
    if n < 10 {
        digit_text(n).to_owned()
    } else {
        let mut text = to_decimal(n / 10);
        text.append(digit_text(n % 10));
        text
    }
}

/// A margin of `count` spaces.
pub fn margin(count: usize) -> (pad: String)
    ensures
        pad@ == spaces(count as nat),
{
    let mut pad = String::new();
    let mut done: usize = 0;
    while done < count
        invariant
            done <= count,
            pad@ == spaces(done as nat),
        decreases count - done,
    {
        proof {
            reveal_strlit(" ");
        }
        pad.append(" ");
        done += 1;
    }
    pad
}

} // verus!
