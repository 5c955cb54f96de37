//! An L-system (Lindenmayer system) rewriting engine.
//!
//! An L-system holds a generation of symbols and an ordered list of
//! production rules. One `apply` rewrites every position of the current
//! generation simultaneously: each position is matched against the rules in
//! priority order against the *previous* generation, and the per-position
//! replacements are concatenated left to right to form the next generation.
//!
//! The crate has three layers:
//! - the crate root: a minimal context-free engine whose rules map one
//!   symbol to a replacement sequence;
//! - [`compiled`]: the full engine with four context shapes (context-free,
//!   prior, following, surrounding), guards, and parametric replacement
//!   expressions;
//! - [`interpreted`]: the declarative rule layer (symbol patterns with
//!   literal and binding parameters, guard expressions, replacement
//!   expressions) and its compiler into the [`compiled`] shapes.

pub mod compiled;
pub mod interpreted;

use vstd::prelude::*;

use crate::interpreted::Symbol;
use crate::interpreted::SymbolView;
use crate::interpreted::clone_symbols;

verus! {

/// A context-free rewriting rule of the minimal engine: a symbol equal to
/// `from` is replaced by the sequence `to`.
pub struct Rule {
    pub from: Symbol,
    pub to: Vec<Symbol>,
}

/// Mathematical value of a [`Rule`].
#[verifier::ext_equal]
pub struct RuleView {
    pub from: SymbolView,
    pub to: Seq<SymbolView>,
}

impl View for Rule {
    type V = RuleView;

    open spec fn view(&self) -> RuleView {
        RuleView { from: self.from@, to: self.to.deep_view() }
    }
}

impl DeepView for Rule {
    type V = RuleView;

    open spec fn deep_view(&self) -> RuleView {
        self.view()
    }
}

impl Clone for Rule {
    /// A clone carries the same symbol and replacement.
    fn clone(&self) -> (result: Rule)
        ensures
            result@ == self@,
    {
        let result = Rule { from: self.from.clone(), to: clone_symbols(&self.to) };
        proof {
            assert(result@ =~= self@);
        }
        result
    }
}

/// The replacement that `rules` assign to `s`: the replacement of the first
/// rule whose `from` equals `s`, and `[s]` itself when no rule matches.
pub open spec fn rewrite_symbol(rules: Seq<RuleView>, s: SymbolView) -> Seq<SymbolView>
    decreases rules.len(),
{
    if rules.len() == 0 {
        seq![s]
    } else if rules[0].from == s {
        rules[0].to
    } else {
        rewrite_symbol(rules.skip(1), s)
    }
}

/// One whole generation step: every position of `symbols` is rewritten
/// against the same old generation and the results are concatenated in
/// position order.
pub open spec fn rewrite_all(rules: Seq<RuleView>, symbols: Seq<SymbolView>) -> Seq<SymbolView>
    decreases symbols.len(),
{
    if symbols.len() == 0 {
        Seq::empty()
    } else {
        rewrite_symbol(rules, symbols[0]) + rewrite_all(rules, symbols.skip(1))
    }
}

/// The minimal L-system: a generation of symbols and an ordered rule list,
/// earlier rules taking priority.
pub struct LSystem {
    pub symbols: Vec<Symbol>,
    pub productions: Vec<Rule>,
}

impl LSystem {
    /// Packages an initial generation and a rule list as generation zero.
    pub fn new(initial: Vec<Symbol>, productions: Vec<Rule>) -> (system: LSystem)
        ensures
            system.symbols.deep_view() == initial.deep_view(),
            system.productions.deep_view() == productions.deep_view(),
    {
        LSystem { symbols: initial, productions }
    }

    /// Derives the next generation. The current generation is left
    /// untouched; every position is rewritten by the first rule whose symbol
    /// equals it, or kept as it is when no rule matches, and the
    /// replacements are concatenated in position order.
    pub fn apply(&self) -> (next: LSystem)
        ensures
            next.symbols.deep_view() == rewrite_all(
                self.productions.deep_view(),
                self.symbols.deep_view(),
            ),
            next.productions.deep_view() == self.productions.deep_view(),
    {
        let ghost rules = self.productions.deep_view();
        let ghost old_symbols = self.symbols.deep_view();
        let mut out: Vec<Symbol> = Vec::new();
        proof {
            assert(out.deep_view() =~= Seq::<SymbolView>::empty());
            assert(old_symbols.skip(0) =~= old_symbols);
            assert(Seq::<SymbolView>::empty() + rewrite_all(rules, old_symbols) =~= rewrite_all(
                rules,
                old_symbols,
            ));
        }
        let mut i: usize = 0;
        while i < self.symbols.len()
            invariant
                i <= self.symbols.len(),
                rules == self.productions.deep_view(),
                old_symbols == self.symbols.deep_view(),
                out.deep_view() + rewrite_all(rules, old_symbols.skip(i as int)) == rewrite_all(
                    rules,
                    old_symbols,
                ),
            decreases self.symbols.len() - i,
        {
            proof {
                assert(old_symbols.skip(i as int)[0] == self.symbols[i as int]@);
            }
            let mut replacement = step(&self.symbols[i], &self.productions);
            let ghost pos = i as int;
            let ghost rep = replacement.deep_view();
            let ghost prev_out = out.deep_view();
            out.append(&mut replacement);
            i = i + 1;
            proof {
                assert(out.deep_view() =~= prev_out + rep);
                assert(old_symbols.skip(pos).skip(1) =~= old_symbols.skip(pos + 1));
                assert(rewrite_all(rules, old_symbols.skip(pos)) == rep + rewrite_all(
                    rules,
                    old_symbols.skip(pos + 1),
                ));
                assert((prev_out + rep) + rewrite_all(rules, old_symbols.skip(pos + 1))
                    =~= prev_out + (rep + rewrite_all(rules, old_symbols.skip(pos + 1))));
            }
        }
        proof {
            assert(old_symbols.skip(self.symbols.len() as int) =~= Seq::<SymbolView>::empty());
            assert(out.deep_view() + Seq::<SymbolView>::empty() =~= out.deep_view());
        }
        LSystem { symbols: out, productions: clone_rules(&self.productions) }
    }
}

/// Copies a rule sequence; the copy has the same mathematical value.
fn clone_rules(v: &Vec<Rule>) -> (r: Vec<Rule>)
    ensures
        r.deep_view() == v.deep_view(),
{
    let mut r: Vec<Rule> = Vec::new();
    let mut i: usize = 0;
    while i < v.len()
        invariant
            i <= v.len(),
            r.deep_view() == v.deep_view().take(i as int),
        decreases v.len() - i,
    {
        proof {
            assert(v.deep_view().len() == v.len());
            assert(v.deep_view().take(i as int).len() == i);
            assert(r.deep_view().len() == i);
            assert(r@.len() == i);
        }
        let ghost prev = r.deep_view();
        let ghost prev_seq = r@;
        r.push(v[i].clone());
        proof {
            assert(r@.len() == i + 1);
            assert(r@[i as int]@ == v@[i as int]@);
            assert forall|k: int| 0 <= k < i + 1 implies r.deep_view()[k] == v.deep_view().take(
                i + 1,
            )[k] by {
                assert(r.deep_view()[k] == r@[k]@);
                if k < i {
                    assert(r@[k] == prev_seq[k]);
                    assert(prev[k] == prev_seq[k]@);
                    assert(prev[k] == v.deep_view().take(i as int)[k]);
                }
            }
            assert(r.deep_view() =~= v.deep_view().take(i + 1));
        }
        i = i + 1;
    }
    proof {
        assert(r.deep_view() =~= v.deep_view());
    }
    r
}

/// The replacement for one position: the first rule whose `from` equals
/// `symbol` supplies it, and a singleton of the symbol itself stands when no
/// rule matches.
fn step(symbol: &Symbol, productions: &Vec<Rule>) -> (replacement: Vec<Symbol>)
    ensures
        replacement.deep_view() == rewrite_symbol(productions.deep_view(), symbol@),
{
    proof {
        assert(productions.deep_view().skip(0) =~= productions.deep_view());
    }
    step_from(symbol, productions, 0)
}

/// `step` restricted to the rules from index `i` on, mirroring the
/// recursion of [`rewrite_symbol`].
fn step_from(symbol: &Symbol, productions: &Vec<Rule>, i: usize) -> (replacement: Vec<Symbol>)
    requires
        i <= productions.len(),
    ensures
        replacement.deep_view() == rewrite_symbol(
            productions.deep_view().skip(i as int),
            symbol@,
        ),
    decreases productions.len() - i,
{
    if i == productions.len() {
        proof {
            assert(productions.deep_view().skip(i as int) =~= Seq::<RuleView>::empty());
        }
        let mut replacement: Vec<Symbol> = Vec::new();
        replacement.push(symbol.clone());
        proof {
            assert(replacement.deep_view() =~= seq![symbol@]);
        }
        replacement
    } else {
        proof {
            assert(productions.deep_view().skip(i as int)[0] == productions[i as int]@);
            assert(productions.deep_view().skip(i as int).skip(1) =~= productions.deep_view().skip(
                i as int + 1,
            ));
        }
        if *symbol == productions[i].from {
            clone_symbols(&productions[i].to)
        } else {
            step_from(symbol, productions, i + 1)
        }
    }
}

} // verus!
