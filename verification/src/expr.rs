//! The expression tree.

use vstd::prelude::*;

verus! {

/// An arithmetic expression. Every node owns its operands.
#[derive(Debug, PartialEq, Eq)]
pub enum Expr {
    Zero,
    One,
    /// Euler's number.
    E,
    Pi,
    Int(i64),
    /// A floating-point literal: the bit pattern of the double, and the
    /// text that stands for it in the notation, as its builder gives it.
    Float { bits: u64, text: String },
    UnaryMinus(Box<Expr>),
    Add(Vec<Expr>),
    Prod(Vec<Expr>),
    /// The first operand over the second.
    Div { num_denom: Box<(Expr, Expr)> },
    /// The first operand to the power of the second.
    Pow { b_t: Box<(Expr, Expr)> },
    /// The first operand to the power of one over the second.
    Sqrt { num_rootbase: Box<(Expr, Expr)> },
    Floor(Box<Expr>),
    Ceil(Box<Expr>),
    Round(Box<Expr>),
    Sin(Box<Expr>),
    Cos(Box<Expr>),
    Tan(Box<Expr>),
}

/// Whether `bits` is the pattern of a finite double: its eleven exponent
/// bits are not all set.
pub open spec fn finite_bits(bits: u64) -> bool {
    (bits / 0x10_0000_0000_0000) % 0x800 != 0x7ff
}

/// The greatest of `ns`, and 0 for none.
pub open spec fn greatest(ns: Seq<nat>) -> nat
    decreases ns.len(),
{
    if ns.len() == 0 {
        0
    } else if ns.last() >= greatest(ns.drop_last()) {
        ns.last()
    } else {
        greatest(ns.drop_last())
    }
}

/// The sum of `ns`.
pub open spec fn total(ns: Seq<nat>) -> nat
    decreases ns.len(),
{
    if ns.len() == 0 {
        0
    } else {
        total(ns.drop_last()) + ns.last()
    }
}

/// Where every one of `ns` is `c`, and there is at least one, the greatest of
/// them is `c`.
pub proof fn lemma_greatest_of_equals(ns: Seq<nat>, c: nat)
    requires
        ns.len() > 0,
        forall|i: int| 0 <= i < ns.len() ==> ns[i] == c,
    ensures
        greatest(ns) == c,
    decreases ns.len(),
{
    if ns.len() > 1 {
        lemma_greatest_of_equals(ns.drop_last(), c);
    } else {
        assert(greatest(ns.drop_last()) == 0);
    }
}

/// Where every one of `ns` is at most `c`, their sum is at most `c` times
/// their number.
pub proof fn lemma_total_at_most(ns: Seq<nat>, c: nat)
    requires
        forall|i: int| 0 <= i < ns.len() ==> ns[i] <= c,
    ensures
        total(ns) <= ns.len() * c,
    decreases ns.len(),
{
    if ns.len() > 0 {
        lemma_total_at_most(ns.drop_last(), c);
        assert((ns.len() - 1) * c + c == ns.len() * c) by (nonlinear_arith);
    }
}

impl Expr {
    /// Whether the root is a unary operator.
    pub open spec fn is_unary(self) -> bool {
        self is UnaryMinus || self is Floor || self is Ceil || self is Round || self is Sin
            || self is Cos || self is Tan
    }

    /// Whether the root is a sum or product.
    pub open spec fn is_variadic(self) -> bool {
        self is Add || self is Prod
    }

    /// Whether the root is a quotient, power or root.
    pub open spec fn is_binary(self) -> bool {
        self is Div || self is Pow || self is Sqrt
    }

    /// The operands of the root, in order.
    pub open spec fn operands(self) -> Seq<Expr> {
        match self {
            Expr::Zero
            | Expr::One
            | Expr::E
            | Expr::Pi
            | Expr::Int(_)
            | Expr::Float { .. } => Seq::empty(),
            Expr::UnaryMinus(x) => seq![*x],
            Expr::Floor(x) => seq![*x],
            Expr::Ceil(x) => seq![*x],
            Expr::Round(x) => seq![*x],
            Expr::Sin(x) => seq![*x],
            Expr::Cos(x) => seq![*x],
            Expr::Tan(x) => seq![*x],
            Expr::Add(es) => es@,
            Expr::Prod(es) => es@,
            Expr::Div { num_denom: p } => seq![p.0, p.1],
            Expr::Pow { b_t: p } => seq![p.0, p.1],
            Expr::Sqrt { num_rootbase: p } => seq![p.0, p.1],
        }
    }

    /// Throughout the tree, a sum or product has at least two operands and
    /// a floating-point literal is finite.
    pub open spec fn well_formed(self) -> bool
        decreases self,
    {
        match self {
            Expr::Zero | Expr::One | Expr::E | Expr::Pi | Expr::Int(_) => true,
            Expr::Float { bits, .. } => finite_bits(bits),
            Expr::UnaryMinus(x)
            | Expr::Floor(x)
            | Expr::Ceil(x)
            | Expr::Round(x)
            | Expr::Sin(x)
            | Expr::Cos(x)
            | Expr::Tan(x) => x.well_formed(),
            Expr::Add(es) | Expr::Prod(es) => {
                &&& es@.len() >= 2
                &&& forall|i: int| 0 <= i < es@.len() ==> (#[trigger] es@[i]).well_formed()
            },
            Expr::Div { num_denom: p } | Expr::Pow { b_t: p } | Expr::Sqrt { num_rootbase: p } => {
                p.0.well_formed() && p.1.well_formed()
            },
        }
    }

    /// Throughout the tree, a sum or product has at most `most` operands.
    pub open spec fn operands_at_most(self, most: nat) -> bool
        decreases self,
    {
        match self {
            Expr::Zero
            | Expr::One
            | Expr::E
            | Expr::Pi
            | Expr::Int(_)
            | Expr::Float { .. } => true,
            Expr::UnaryMinus(x)
            | Expr::Floor(x)
            | Expr::Ceil(x)
            | Expr::Round(x)
            | Expr::Sin(x)
            | Expr::Cos(x)
            | Expr::Tan(x) => x.operands_at_most(most),
            Expr::Add(es) | Expr::Prod(es) => {
                &&& es@.len() <= most
                &&& forall|i: int|
                    0 <= i < es@.len() ==> (#[trigger] es@[i]).operands_at_most(most)
            },
            Expr::Div { num_denom: p } | Expr::Pow { b_t: p } | Expr::Sqrt { num_rootbase: p } => {
                p.0.operands_at_most(most) && p.1.operands_at_most(most)
            },
        }
    }

    /// The height of each of `es`, in order.
    pub open spec fn heights(es: Seq<Expr>) -> Seq<nat>
        decreases es,
    {
        Seq::new(
            es.len(),
            |i: int|
                if 0 <= i < es.len() {
                    es[i].height()
                } else {
                    0
                },
        )
    }

    /// The number of edges on the longest path from the root to a leaf.
    pub open spec fn height(self) -> nat
        decreases self,
    {
        match self {
            Expr::Zero
            | Expr::One
            | Expr::E
            | Expr::Pi
            | Expr::Int(_)
            | Expr::Float { .. } => 0,
            Expr::UnaryMinus(x)
            | Expr::Floor(x)
            | Expr::Ceil(x)
            | Expr::Round(x)
            | Expr::Sin(x)
            | Expr::Cos(x)
            | Expr::Tan(x) => 1 + x.height(),
            Expr::Add(es) | Expr::Prod(es) => 1 + greatest(Expr::heights(es@)),
            Expr::Div { num_denom: p } | Expr::Pow { b_t: p } | Expr::Sqrt { num_rootbase: p } => {
                1 + greatest(seq![p.0.height(), p.1.height()])
            },
        }
    }

    /// The size of each of `es`, in order.
    pub open spec fn sizes(es: Seq<Expr>) -> Seq<nat>
        decreases es,
    {
        Seq::new(
            es.len(),
            |i: int|
                if 0 <= i < es.len() {
                    es[i].size()
                } else {
                    0
                },
        )
    }

    /// The number of nodes.
    pub open spec fn size(self) -> nat
        decreases self,
    {
        match self {
            Expr::Zero
            | Expr::One
            | Expr::E
            | Expr::Pi
            | Expr::Int(_)
            | Expr::Float { .. } => 1,
            Expr::UnaryMinus(x)
            | Expr::Floor(x)
            | Expr::Ceil(x)
            | Expr::Round(x)
            | Expr::Sin(x)
            | Expr::Cos(x)
            | Expr::Tan(x) => 1 + x.size(),
            Expr::Add(es) | Expr::Prod(es) => 1 + total(Expr::sizes(es@)),
            Expr::Div { num_denom: p } | Expr::Pow { b_t: p } | Expr::Sqrt { num_rootbase: p } => {
                1 + p.0.size() + p.1.size()
            },
        }
    }
}

/// A unary operator has one operand and a quotient, power or root has two;
/// only a sum or product may have another number of them, and a leaf has
/// none.
pub proof fn lemma_operand_counts(e: Expr)
    ensures
        e.is_unary() ==> e.operands().len() == 1,
        e.is_binary() ==> e.operands().len() == 2,
        !e.is_unary() && !e.is_binary() && !e.is_variadic() ==> e.operands().len() == 0,
{
}

} // verus!
