//! The outline of a matcher tree as text.

use crate::parser::{Parser, ParserKind};
use crate::pattern::{regex_source, source_of};
use crate::render::{decimal, margin, to_decimal};
use vstd::prelude::*;
use vstd::string::StringExecFns;

verus! {

impl ParserKind {
    /// The line that names a node of this kind: the kind and its payload.
    pub open spec fn label_text(self) -> Seq<char> {
        match self {
            ParserKind::Literal(lit) => "Literal \""@ + lit@ + "\""@,
            ParserKind::Regex(re) => "Regex /"@ + regex_source(re) + "/"@,
            ParserKind::Constant(text) => "Constant \""@ + text@ + "\""@,
            ParserKind::And => "And"@,
            ParserKind::Ignore(before) => if before {
                "IgnoreBefore"@
            } else {
                "IgnoreAfter"@
            },
            ParserKind::Or => "Or"@,
            ParserKind::Repeat(count) => "Repeat "@ + decimal(count as nat),
            ParserKind::RepeatRange(range) => "RepeatRange "@ + decimal(range.start as nat)
                + ".."@ + decimal(range.end as nat),
            ParserKind::Error(message) => "Error \""@ + message@ + "\""@,
            ParserKind::Transform(_) => "Map"@,
        }
    }

    /// Writes the line that names a node of this kind.
    pub fn label(&self) -> (text: String)
        ensures
            text@ == self.label_text(),
    {
        match self {
            ParserKind::Literal(lit) => {
                let mut text = String::from_str("Literal \"");
                text.append(lit.as_str());
                text.append("\"");
                text
            },
            ParserKind::Regex(re) => {
                let mut text = String::from_str("Regex /");
                text.append(source_of(re));
                text.append("/");
                text
            },
            ParserKind::Constant(constant) => {
                let mut text = String::from_str("Constant \"");
                text.append(constant.as_str());
                text.append("\"");
                text
            },
            ParserKind::And => String::from_str("And"),
            ParserKind::Ignore(before) => {
                if *before {
                    String::from_str("IgnoreBefore")
                } else {
                    String::from_str("IgnoreAfter")
                }
            },
            ParserKind::Or => String::from_str("Or"),
            ParserKind::Repeat(count) => {
                let mut text = String::from_str("Repeat ");
                text.append(to_decimal(*count).as_str());
                text
            },
            ParserKind::RepeatRange(range) => {
                let mut text = String::from_str("RepeatRange ");
                text.append(to_decimal(range.start).as_str());
                text.append("..");
                text.append(to_decimal(range.end).as_str());
                text
            },
            ParserKind::Error(message) => {
                let mut text = String::from_str("Error \"");
                text.append(message.as_str());
                text.append("\"");
                text
            },
            ParserKind::Transform(_) => String::from_str("Map"),
        }
    }
}

/// The outlines in `items`, a comma and a line break after each.
spec fn listing(items: Seq<Seq<char>>) -> Seq<char>
    decreases items.len(),
{
    if items.len() == 0 {
        Seq::empty()
    } else {
        listing(items.drop_last()) + items.last() + ",\n"@
    }
}

impl Parser {
    /// The outlines of the operands of this node behind the margin `pad`.
    closed spec fn operand_outlines(self, pad: Seq<char>) -> Seq<Seq<char>> {
        self.subparsers@.map_values(|operand: Parser| operand@.outline(pad))
    }

    /// The outline of a node is its label behind the margin and, where it has
    /// operands, their listing between square brackets.
    proof fn lemma_outline(self, pad: Seq<char>)
        requires
            self.arity_holds(),
        ensures
            self@.outline(pad) == if self.subparsers@.len() == 0 {
                pad + self.kind.label_text()
            } else {
                pad + self.kind.label_text() + " [\n"@ + listing(
                    self.operand_outlines(pad + "  "@),
                ) + pad + "]"@
            },
    {
        assert(self@.label() == self.kind.label_text());
        reveal_with_fuel(listing, 3);
    }

    /// Appends the outline of this tree to `out`, each line behind `pad`.
    fn write_outline(&self, out: &mut String, pad: &str)
        ensures
            final(out)@ == old(out)@ + self@.outline(pad@),
        decreases self,
    {
        proof {
            use_type_invariant(self);
            self.lemma_outline(pad@);
        }
        let ghost start = out@;
        let label = self.kind.label();
        out.append(pad);
        out.append(label.as_str());
        if self.subparsers.len() > 0 {
            out.append(" [\n");
            let mut inner = String::from_str(pad);
            inner.append("  ");
            let ghost head = start + pad@ + label@ + " [\n"@;
            let ghost outlines = self.operand_outlines(inner@);
            let mut i: usize = 0;
            while i < self.subparsers.len()
                invariant
                    i <= self.subparsers.len(),
                    outlines == self.operand_outlines(inner@),
                    out@ == head + listing(outlines.take(i as int)),
                decreases self.subparsers.len() - i,
            {
                self.subparsers[i].write_outline(out, inner.as_str());
                out.append(",\n");
                proof {
                    let next = outlines.take(i as int + 1);
                    assert(next.drop_last() =~= outlines.take(i as int));
                }
                i += 1;
            }
            assert(outlines.take(i as int) =~= outlines);
            out.append(pad);
            out.append("]");
        }
    }

    /// Renders this tree as an outline behind a margin of `indent` spaces:
    /// one line a node, the operands of a node between square brackets, two
    /// columns further in, a comma after each.
    pub fn pretty_print(&self, indent: usize) -> (out: String)
        ensures
            out@ == self@.render(indent as nat),
    {
        let pad = margin(indent);
        let mut out = String::new();
        self.write_outline(&mut out, pad.as_str());
        out
    }
}

} // verus!
