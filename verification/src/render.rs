//! Infix notation for expressions.

use vstd::prelude::*;
use crate::decimal::{decimal, push_decimal};
use crate::expr::Expr;

verus! {

/// The `parts` in order, with `sep` between each two neighbours.
pub open spec fn joined(parts: Seq<Seq<char>>, sep: Seq<char>) -> Seq<char>
    decreases parts.len(),
{
    if parts.len() == 0 {
        Seq::empty()
    } else if parts.len() == 1 {
        parts[0]
    } else {
        joined(parts.drop_last(), sep) + sep + parts.last()
    }
}

impl Expr {
    /// The notation of each of `es`, in order.
    pub open spec fn renderings(es: Seq<Expr>) -> Seq<Seq<char>>
        decreases es,
    {
        Seq::new(
            es.len(),
            |i: int|
                if 0 <= i < es.len() {
                    es[i].rendering()
                } else {
                    Seq::empty()
                },
        )
    }

    /// The notation of the expression. Operands of a unary minus, a
    /// quotient, a power and a root stand in parentheses, those of a sum
    /// or product stand bare.
    pub open spec fn rendering(self) -> Seq<char>
        decreases self,
    {
        match self {
            Expr::Zero => "0"@,
            Expr::One => "1"@,
            Expr::E => "e"@,
            Expr::Pi => "π"@,
            Expr::Int(n) => decimal(n as int),
            Expr::Float { text, .. } => text@,
            Expr::UnaryMinus(x) => "-("@ + x.rendering() + ")"@,
            Expr::Add(es) => joined(Expr::renderings(es@), "+"@),
            Expr::Prod(es) => joined(Expr::renderings(es@), "*"@),
            Expr::Div { num_denom } => "("@ + num_denom.0.rendering() + ")/("@
                + num_denom.1.rendering() + ")"@,
            Expr::Pow { b_t } => "("@ + b_t.0.rendering() + ")^("@ + b_t.1.rendering() + ")"@,
            Expr::Sqrt { num_rootbase } => "("@ + num_rootbase.0.rendering() + ")^(1/("@
                + num_rootbase.1.rendering() + "))"@,
            Expr::Floor(x) => "⌊"@ + x.rendering() + "⌋"@,
            Expr::Ceil(x) => "⌈"@ + x.rendering() + "⌉"@,
            Expr::Round(x) => "⌊"@ + x.rendering() + "⌉"@,
            Expr::Sin(x) => "sin("@ + x.rendering() + ")"@,
            Expr::Cos(x) => "cos("@ + x.rendering() + ")"@,
            Expr::Tan(x) => "tan("@ + x.rendering() + ")"@,
        }
    }

    /// Appends the notation of the expression to `out`.
    fn render_into(&self, out: &mut String)
        ensures
            final(out)@ == old(out)@ + self.rendering(),
        decreases self, 0nat,
    {
        match self {
            Expr::Zero => out.append("0"),
            Expr::One => out.append("1"),
            Expr::E => out.append("e"),
            Expr::Pi => out.append("π"),
            Expr::Int(n) => push_decimal(out, *n),
            Expr::Float { text, .. } => out.append(text.as_str()),
            Expr::UnaryMinus(x) => x.render_between("-(", ")", out),
            Expr::Add(es) => Expr::render_joined(es, "+", out),
            Expr::Prod(es) => Expr::render_joined(es, "*", out),
            Expr::Div { num_denom } => Expr::render_pair(num_denom, "(", ")/(", ")", out),
            Expr::Pow { b_t } => Expr::render_pair(b_t, "(", ")^(", ")", out),
            Expr::Sqrt { num_rootbase } => Expr::render_pair(
                num_rootbase,
                "(",
                ")^(1/(",
                "))",
                out,
            ),
            Expr::Floor(x) => x.render_between("⌊", "⌋", out),
            Expr::Ceil(x) => x.render_between("⌈", "⌉", out),
            Expr::Round(x) => x.render_between("⌊", "⌉", out),
            Expr::Sin(x) => x.render_between("sin(", ")", out),
            Expr::Cos(x) => x.render_between("cos(", ")", out),
            Expr::Tan(x) => x.render_between("tan(", ")", out),
        }
    }

    /// Appends `open`, the notation of the expression and `close` to `out`.
    fn render_between(&self, open: &str, close: &str, out: &mut String)
        ensures
            final(out)@ == old(out)@ + (open@ + self.rendering() + close@),
        decreases self, 1nat,
    {
        out.append(open);
        self.render_into(out);
        out.append(close);
    }

    /// Appends `open`, the notation of the first of `pair`, `mid`, that of
    /// the second, and `close` to `out`.
    fn render_pair(pair: &(Expr, Expr), open: &str, mid: &str, close: &str, out: &mut String)
        ensures
            final(out)@ == old(out)@ + (open@ + pair.0.rendering() + mid@ + pair.1.rendering()
                + close@),
        decreases pair, 0nat,
    {
        out.append(open);
        pair.0.render_into(out);
        out.append(mid);
        pair.1.render_into(out);
        out.append(close);
    }

    /// Appends the notations of `es`, with `sep` between them, to `out`.
    fn render_joined(es: &Vec<Expr>, sep: &str, out: &mut String)
        ensures
            final(out)@ == old(out)@ + joined(Expr::renderings(es@), sep@),
        decreases es, 0nat,
    {
        let ghost parts = Expr::renderings(es@);
        let mut i: usize = 0;
        while i < es.len()
            invariant
                i <= es.len(),
                parts == Expr::renderings(es@),
                out@ == old(out)@ + joined(parts.take(i as int), sep@),
            decreases es.len() - i,
        {
            if i > 0 {
                out.append(sep);
            }
            es[i].render_into(out);
            proof {
                assert(parts.take(i + 1).drop_last() =~= parts.take(i as int));
            }
            i += 1;
        }
        proof {
            assert(parts.take(es.len() as int) =~= parts);
        }
    }

    /// The notation of the expression.
    pub fn to_string(&self) -> (s: String)
        ensures
            s@ == self.rendering(),
    {
        let mut s = String::new();
        self.render_into(&mut s);
        s
    }
}

/// The notation depends on the tree alone: whatever two calls of `to_string`
/// return for one tree is the same text.
pub proof fn lemma_rendering_repeats(e: Expr, first: String, second: String)
    requires
        first@ == e.rendering(),
        second@ == e.rendering(),
    ensures
        first@ == second@,
{
}

} // verus!
