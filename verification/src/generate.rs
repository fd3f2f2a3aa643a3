//! Random generation of expressions from a grammar of three tiers.

use vstd::prelude::*;
use rand::rngs::ThreadRng;
use rand::Rng;
use crate::expr::{lemma_greatest_of_equals, lemma_total_at_most, Expr};

verus! {

/// The number of terminals to choose from.
pub const TERMINAL_KINDS: i64 = 4;

/// The number of unary operators to choose from.
pub const UNARY_KINDS: i64 = 7;

/// The number of n-ary operators to choose from.
pub const VARIADIC_KINDS: i64 = 2;

/// The number of binary operators to choose from.
pub const BINARY_KINDS: i64 = 3;

/// The least integer literal that is generated.
pub const INT_LOW: i64 = -100;

/// The greatest integer literal that is generated.
pub const INT_HIGH: i64 = 100;

/// The least number of operands of a generated sum or product.
pub const OPERANDS_LOW: i64 = 2;

/// The greatest number of operands of a generated sum or product.
pub const OPERANDS_HIGH: i64 = 5;

/// The thread-local generator of `rand`. Nothing is known of its state.
#[verifier::external_type_specification]
#[verifier::external_body]
pub struct ExThreadRng(rand::rngs::ThreadRng);

/// Calls `rand::Rng::random_range` on the inclusive range from `low` to
/// `high`, with the thread-local generator. Trusted: the value drawn lies in
/// that range. Which value it is depends on the generator, so no more is
/// said of it. The range must not be empty, for which `random_range` panics.
/// The generator itself panics where the operating system gives it nothing
/// to reseed from, which no argument decides.
#[verifier::external_body]
fn uniform(rng: &mut ThreadRng, low: i64, high: i64) -> (drawn: i64)
    requires
        low <= high,
    ensures
        low <= drawn <= high,
{
    rng.random_range(low..=high)
}

impl Expr {
    /// The terminal that the draw `pick` selects; `n` is the value of the
    /// integer literal, which is the last of the terminals.
    pub open spec fn terminal_for(pick: int, n: i64) -> Expr {
        if pick == 0 {
            Expr::Zero
        } else if pick == 1 {
            Expr::One
        } else if pick == 2 {
            Expr::E
        } else {
            Expr::Int(n)
        }
    }

    /// The unary operator that the draw `pick` selects, applied to `x`.
    pub open spec fn unary_for(pick: int, x: Expr) -> Expr {
        if pick == 0 {
            Expr::UnaryMinus(Box::new(x))
        } else if pick == 1 {
            Expr::Floor(Box::new(x))
        } else if pick == 2 {
            Expr::Ceil(Box::new(x))
        } else if pick == 3 {
            Expr::Round(Box::new(x))
        } else if pick == 4 {
            Expr::Sin(Box::new(x))
        } else if pick == 5 {
            Expr::Cos(Box::new(x))
        } else {
            Expr::Tan(Box::new(x))
        }
    }

    /// The n-ary operator that the draw `pick` selects, applied to `es`.
    pub open spec fn variadic_for(pick: int, es: Vec<Expr>) -> Expr {
        if pick == 0 {
            Expr::Add(es)
        } else {
            Expr::Prod(es)
        }
    }

    /// The binary operator that the draw `pick` selects, applied to `a` and
    /// `b` in this order.
    pub open spec fn binary_for(pick: int, a: Expr, b: Expr) -> Expr {
        if pick == 0 {
            Expr::Div { num_denom: Box::new((a, b)) }
        } else if pick == 1 {
            Expr::Pow { b_t: Box::new((a, b)) }
        } else {
            Expr::Sqrt { num_rootbase: Box::new((a, b)) }
        }
    }

    /// A terminal of the grammar: zero, one, Euler's number, or an integer
    /// literal from `INT_LOW` to `INT_HIGH`.
    pub open spec fn is_terminal(self) -> bool {
        match self {
            Expr::Zero | Expr::One | Expr::E => true,
            Expr::Int(n) => INT_LOW <= n <= INT_HIGH,
            _ => false,
        }
    }

    /// Whether the tree belongs to the grammar at `level`. At level 0 it is
    /// a terminal. At level 1 it is a unary operator on a tree of level 0.
    /// From level 2 on it is a sum or product of `OPERANDS_LOW` to
    /// `OPERANDS_HIGH` trees of the level below, or a quotient, power or
    /// root of two such trees.
    pub open spec fn of_level(self, level: nat) -> bool
        decreases level,
    {
        if level == 0 {
            self.is_terminal()
        } else {
            &&& if level == 1 {
                self.is_unary()
            } else if self.is_variadic() {
                OPERANDS_LOW <= self.operands().len() <= OPERANDS_HIGH
            } else {
                self.is_binary()
            }
            &&& forall|i: int|
                0 <= i < self.operands().len() ==> (#[trigger] self.operands()[i]).of_level(
                    (level - 1) as nat,
                )
        }
    }

    /// Builds the terminal that the draw `pick` selects.
    pub fn terminal(pick: i64, n: i64) -> (e: Expr)
        requires
            0 <= pick < TERMINAL_KINDS,
        ensures
            e == Expr::terminal_for(pick as int, n),
    {
        match pick {
            0 => Expr::Zero,
            1 => Expr::One,
            2 => Expr::E,
            _ => Expr::Int(n),
        }
    }

    /// Builds the unary operator that the draw `pick` selects, on `x`.
    pub fn unary(pick: i64, x: Expr) -> (e: Expr)
        requires
            0 <= pick < UNARY_KINDS,
        ensures
            e == Expr::unary_for(pick as int, x),
    {
        let x = Box::new(x);
        match pick {
            0 => Expr::UnaryMinus(x),
            1 => Expr::Floor(x),
            2 => Expr::Ceil(x),
            3 => Expr::Round(x),
            4 => Expr::Sin(x),
            5 => Expr::Cos(x),
            _ => Expr::Tan(x),
        }
    }

    /// Builds the n-ary operator that the draw `pick` selects, on `es`.
    pub fn variadic(pick: i64, es: Vec<Expr>) -> (e: Expr)
        requires
            0 <= pick < VARIADIC_KINDS,
        ensures
            e == Expr::variadic_for(pick as int, es),
    {
        match pick {
            0 => Expr::Add(es),
            _ => Expr::Prod(es),
        }
    }

    /// Builds the binary operator that the draw `pick` selects, on `a` and
    /// `b`.
    pub fn binary(pick: i64, a: Expr, b: Expr) -> (e: Expr)
        requires
            0 <= pick < BINARY_KINDS,
        ensures
            e == Expr::binary_for(pick as int, a, b),
    {
        let pair = Box::new((a, b));
        match pick {
            0 => Expr::Div { num_denom: pair },
            1 => Expr::Pow { b_t: pair },
            _ => Expr::Sqrt { num_rootbase: pair },
        }
    }

    /// A random tree of the grammar at `level`. Every choice is one uniform
    /// draw over the range of its kinds: at level 0 one of the terminals,
    /// and for an integer literal its value; at level 1 one of the unary
    /// operators, after its operand; from level 2 on one of the n-ary and
    /// binary operators, for an n-ary one the number of its operands, then
    /// the operands from left to right. `Pi` and floating-point literals
    /// are never drawn.
    pub fn new_random(level: u32, rng: &mut ThreadRng) -> (tree: Expr)
        ensures
            tree.of_level(level as nat),
        decreases level,
    {
        if level == 0 {
            let pick = uniform(rng, 0, TERMINAL_KINDS - 1);
            let n = if pick == TERMINAL_KINDS - 1 {
                uniform(rng, INT_LOW, INT_HIGH)
            } else {
                0
            };
            Expr::terminal(pick, n)
        } else if level == 1 {
            let x = Expr::new_random(0, rng);
            let pick = uniform(rng, 0, UNARY_KINDS - 1);
            Expr::unary(pick, x)
        } else {
            let pick = uniform(rng, 0, VARIADIC_KINDS + BINARY_KINDS - 1);
            if pick < VARIADIC_KINDS {
                let count = uniform(rng, OPERANDS_LOW, OPERANDS_HIGH);
                let mut es: Vec<Expr> = Vec::new();
                let mut i: i64 = 0;
                while i < count
                    invariant
                        level >= 2,
                        0 <= i <= count,
                        es.len() == i,
                        forall|j: int|
                            0 <= j < es.len() ==> (#[trigger] es@[j]).of_level((level - 1) as nat),
                    decreases count - i,
                {
                    let operand = Expr::new_random(level - 1, rng);
                    es.push(operand);
                    i += 1;
                }
                Expr::variadic(pick, es)
            } else {
                let a = Expr::new_random(level - 1, rng);
                let b = Expr::new_random(level - 1, rng);
                Expr::binary(pick - VARIADIC_KINDS, a, b)
            }
        }
    }

    /// Tells whether the tree belongs to the grammar at `level`.
    pub fn is_of_level(&self, level: u32) -> (b: bool)
        ensures
            b == self.of_level(level as nat),
        decreases level,
    {
        if level == 0 {
            match self {
                Expr::Zero | Expr::One | Expr::E => true,
                Expr::Int(n) => INT_LOW <= *n && *n <= INT_HIGH,
                _ => false,
            }
        } else if level == 1 {
            match self {
                Expr::UnaryMinus(x)
                | Expr::Floor(x)
                | Expr::Ceil(x)
                | Expr::Round(x)
                | Expr::Sin(x)
                | Expr::Cos(x)
                | Expr::Tan(x) => {
                    assert(self.operands()[0] == **x);
                    x.is_of_level(0)
                },
                _ => false,
            }
        } else {
            match self {
                Expr::Add(es) | Expr::Prod(es) => {
                    if es.len() < OPERANDS_LOW as usize || es.len() > OPERANDS_HIGH as usize {
                        return false;
                    }
                    let mut i: usize = 0;
                    while i < es.len()
                        invariant
                            level >= 2,
                            self.is_variadic(),
                            self.operands() == es@,
                            OPERANDS_LOW <= es.len() <= OPERANDS_HIGH,
                            i <= es.len(),
                            forall|j: int|
                                0 <= j < i ==> (#[trigger] es@[j]).of_level((level - 1) as nat),
                        decreases es.len() - i,
                    {
                        if !es[i].is_of_level(level - 1) {
                            return false;
                        }
                        i += 1;
                    }
                    true
                },
                Expr::Div { num_denom: p }
                | Expr::Pow { b_t: p }
                | Expr::Sqrt { num_rootbase: p } => {
                    assert(self.operands()[0] == p.0 && self.operands()[1] == p.1);
                    p.0.is_of_level(level - 1) && p.1.is_of_level(level - 1)
                },
                _ => false,
            }
        }
    }
}

/// The greatest number of nodes of a tree of `level`.
pub open spec fn size_bound(level: nat) -> nat
    decreases level,
{
    if level == 0 {
        1
    } else if level == 1 {
        2
    } else {
        1 + OPERANDS_HIGH as nat * size_bound((level - 1) as nat)
    }
}

/// A tree of the grammar is well formed, and none of its sums and products
/// has more than `OPERANDS_HIGH` operands.
pub proof fn lemma_level_well_formed(e: Expr, level: nat)
    requires
        e.of_level(level),
    ensures
        e.well_formed(),
        e.operands_at_most(OPERANDS_HIGH as nat),
    decreases level,
{
    if level > 0 {
        let es = e.operands();
        assert forall|i: int| 0 <= i < es.len() implies (#[trigger] es[i]).well_formed()
            && es[i].operands_at_most(OPERANDS_HIGH as nat) by {
            lemma_level_well_formed(es[i], (level - 1) as nat);
        }
        assert(e.is_unary() || e.is_binary() ==> es[0].well_formed());
        assert(e.is_binary() ==> es[1].well_formed());
    }
}

/// A tree of `level` has height `level`: every path from its root ends at a
/// terminal after `level` steps.
pub proof fn lemma_level_height(e: Expr, level: nat)
    requires
        e.of_level(level),
    ensures
        e.height() == level,
    decreases level,
{
    if level > 0 {
        let below = (level - 1) as nat;
        let es = e.operands();
        assert forall|i: int| 0 <= i < es.len() implies (#[trigger] es[i]).height() == below by {
            lemma_level_height(es[i], below);
        }
        if e.is_unary() {
            assert(es[0].height() == below);
        } else if e.is_variadic() {
            lemma_greatest_of_equals(Expr::heights(es), below);
        } else {
            lemma_greatest_of_equals(seq![es[0].height(), es[1].height()], below);
        }
    }
}

/// A tree of `level` has at most `size_bound(level)` nodes.
pub proof fn lemma_level_size(e: Expr, level: nat)
    requires
        e.of_level(level),
    ensures
        e.size() <= size_bound(level),
    decreases level,
{
    if level > 0 {
        let bound = size_bound((level - 1) as nat);
        let es = e.operands();
        assert forall|i: int| 0 <= i < es.len() implies (#[trigger] es[i]).size() <= bound by {
            lemma_level_size(es[i], (level - 1) as nat);
        }
        if e.is_variadic() {
            let ns = Expr::sizes(es);
            lemma_total_at_most(ns, bound);
            assert(ns.len() * bound <= 5 * bound) by (nonlinear_arith)
                requires
                    ns.len() <= 5,
            ;
        } else {
            assert(es[0].size() <= bound);
            assert(e.is_binary() ==> es[1].size() <= bound);
        }
    }
}

/// Draws within the ranges build a tree of the grammar: a terminal at level
/// 0, a unary operator on a tree of level 0 at level 1, and an n-ary or
/// binary operator on trees of `level` at the level above, where `level` is
/// at least 1.
pub proof fn lemma_draws_build_level(
    pick: int,
    n: i64,
    a: Expr,
    b: Expr,
    es: Vec<Expr>,
    level: nat,
)
    ensures
        0 <= pick < TERMINAL_KINDS && INT_LOW <= n <= INT_HIGH ==> Expr::terminal_for(
            pick,
            n,
        ).of_level(0),
        0 <= pick < UNARY_KINDS && a.of_level(0) ==> Expr::unary_for(pick, a).of_level(1),
        level >= 1 && 0 <= pick < VARIADIC_KINDS && OPERANDS_LOW <= es.len() <= OPERANDS_HIGH
            && (forall|i: int| 0 <= i < es.len() ==> (#[trigger] es@[i]).of_level(level))
            ==> Expr::variadic_for(pick, es).of_level(level + 1),
        level >= 1 && 0 <= pick < BINARY_KINDS && a.of_level(level) && b.of_level(level)
            ==> Expr::binary_for(pick, a, b).of_level(level + 1),
{
    reveal_with_fuel(Expr::of_level, 2);
}

/// Every tree of a level is built by a draw within the range, on operands
/// of the level below.
pub proof fn lemma_level_from_draws(e: Expr, level: nat)
    requires
        e.of_level(level),
    ensures
        level == 0 ==> exists|pick: int, n: i64|
            0 <= pick < TERMINAL_KINDS && INT_LOW <= n <= INT_HIGH && e == #[trigger] Expr::terminal_for(
                pick,
                n,
            ),
        level == 1 ==> exists|pick: int, x: Expr|
            0 <= pick < UNARY_KINDS && x.of_level(0) && e == #[trigger] Expr::unary_for(pick, x),
        level >= 2 ==> {
            ||| exists|pick: int, es: Vec<Expr>|
                {
                    &&& 0 <= pick < VARIADIC_KINDS
                    &&& OPERANDS_LOW <= es.len() <= OPERANDS_HIGH
                    &&& forall|i: int|
                        0 <= i < es.len() ==> (#[trigger] es@[i]).of_level((level - 1) as nat)
                    &&& e == #[trigger] Expr::variadic_for(pick, es)
                }
            ||| exists|pick: int, a: Expr, b: Expr|
                {
                    &&& 0 <= pick < BINARY_KINDS
                    &&& a.of_level((level - 1) as nat)
                    &&& b.of_level((level - 1) as nat)
                    &&& e == #[trigger] Expr::binary_for(pick, a, b)
                }
        },
{
    let es = e.operands();
    if level > 0 {
        assert(es.len() > 0 ==> es[0].of_level((level - 1) as nat));
        assert(es.len() > 1 ==> es[1].of_level((level - 1) as nat));
    }
    match e {
        Expr::Zero => assert(e == Expr::terminal_for(0, 0)),
        Expr::One => assert(e == Expr::terminal_for(1, 0)),
        Expr::E => assert(e == Expr::terminal_for(2, 0)),
        Expr::Int(n) => assert(e == Expr::terminal_for(3, n)),
        Expr::UnaryMinus(x) => assert(e == Expr::unary_for(0, *x)),
        Expr::Floor(x) => assert(e == Expr::unary_for(1, *x)),
        Expr::Ceil(x) => assert(e == Expr::unary_for(2, *x)),
        Expr::Round(x) => assert(e == Expr::unary_for(3, *x)),
        Expr::Sin(x) => assert(e == Expr::unary_for(4, *x)),
        Expr::Cos(x) => assert(e == Expr::unary_for(5, *x)),
        Expr::Tan(x) => assert(e == Expr::unary_for(6, *x)),
        Expr::Add(v) => assert(e == Expr::variadic_for(0, v) && v@ == es),
        Expr::Prod(v) => assert(e == Expr::variadic_for(1, v) && v@ == es),
        Expr::Div { num_denom: p } => assert(e == Expr::binary_for(0, p.0, p.1)),
        Expr::Pow { b_t: p } => assert(e == Expr::binary_for(1, p.0, p.1)),
        Expr::Sqrt { num_rootbase: p } => assert(e == Expr::binary_for(2, p.0, p.1)),
        _ => {},
    }
}

/// Two different draws within a range select different terminals and
/// different operators, whatever the literal and the operands.
pub proof fn lemma_draws_select_apart(
    p: int,
    q: int,
    n: i64,
    m: i64,
    a: Expr,
    b: Expr,
    c: Expr,
    d: Expr,
    es: Vec<Expr>,
    fs: Vec<Expr>,
)
    requires
        p != q,
    ensures
        0 <= p < TERMINAL_KINDS && 0 <= q < TERMINAL_KINDS ==> Expr::terminal_for(p, n)
            != Expr::terminal_for(q, m),
        0 <= p < UNARY_KINDS && 0 <= q < UNARY_KINDS ==> Expr::unary_for(p, a) != Expr::unary_for(
            q,
            c,
        ),
        0 <= p < VARIADIC_KINDS && 0 <= q < VARIADIC_KINDS ==> Expr::variadic_for(p, es)
            != Expr::variadic_for(q, fs),
        0 <= p < BINARY_KINDS && 0 <= q < BINARY_KINDS ==> Expr::binary_for(p, a, b)
            != Expr::binary_for(q, c, d),
{
}

} // verus!
