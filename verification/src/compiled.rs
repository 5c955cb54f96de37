//! The primitive rewriting engine: the four context-shaped production forms
//! and the generation step that consults each position's neighborhood in the
//! previous generation, selects the first production that applies, and
//! concatenates the per-position replacements.

use vstd::prelude::*;

use crate::interpreted::BooleanExpr;
use crate::interpreted::BooleanExprView;
use crate::interpreted::Environment;
use crate::interpreted::EvalError;
use crate::interpreted::EvalErrorView;
use crate::interpreted::Symbol;
use crate::interpreted::SymbolExpression;
use crate::interpreted::SymbolExpressionView;
use crate::interpreted::SymbolPattern;
use crate::interpreted::SymbolPatternView;
use crate::interpreted::SymbolView;
use crate::interpreted::clone_expressions;
use crate::interpreted::clone_guard;
use crate::interpreted::eval;
use crate::interpreted::eval_bool;
use crate::interpreted::match_pattern;
use crate::interpreted::pattern_matches;
use crate::interpreted::spec_eval_bool;
use crate::interpreted::spec_eval_symbol;

verus! {

/// One primitive production, shaped by the context it requires. Each shape
/// holds exactly the patterns for the neighborhood it declares, an optional
/// guard, and the replacement expressions it emits on a match.
pub enum Production {
    /// Matches the target symbol alone.
    ContextFree {
        target: SymbolPattern,
        guard: Option<BooleanExpr>,
        replacement: Vec<SymbolExpression>,
    },
    /// Requires a predecessor; matches it and the target.
    PriorContext {
        predecessor: SymbolPattern,
        target: SymbolPattern,
        guard: Option<BooleanExpr>,
        replacement: Vec<SymbolExpression>,
    },
    /// Requires a successor; matches the target and it.
    FollowingContext {
        target: SymbolPattern,
        successor: SymbolPattern,
        guard: Option<BooleanExpr>,
        replacement: Vec<SymbolExpression>,
    },
    /// Requires both neighbors; matches all three positions.
    SurroundingContext {
        predecessor: SymbolPattern,
        target: SymbolPattern,
        successor: SymbolPattern,
        guard: Option<BooleanExpr>,
        replacement: Vec<SymbolExpression>,
    },
}

/// Mathematical value of a [`Production`].
pub enum ProductionView {
    ContextFree {
        target: SymbolPatternView,
        guard: Option<BooleanExprView>,
        replacement: Seq<SymbolExpressionView>,
    },
    PriorContext {
        predecessor: SymbolPatternView,
        target: SymbolPatternView,
        guard: Option<BooleanExprView>,
        replacement: Seq<SymbolExpressionView>,
    },
    FollowingContext {
        target: SymbolPatternView,
        successor: SymbolPatternView,
        guard: Option<BooleanExprView>,
        replacement: Seq<SymbolExpressionView>,
    },
    SurroundingContext {
        predecessor: SymbolPatternView,
        target: SymbolPatternView,
        successor: SymbolPatternView,
        guard: Option<BooleanExprView>,
        replacement: Seq<SymbolExpressionView>,
    },
}

/// The mathematical value of a production.
pub open spec fn production_view(p: Production) -> ProductionView {
    match p {
        Production::ContextFree { target, guard, replacement } => ProductionView::ContextFree {
            target: target@,
            guard: guard.deep_view(),
            replacement: replacement.deep_view(),
        },
        Production::PriorContext { predecessor, target, guard, replacement } => {
            ProductionView::PriorContext {
                predecessor: predecessor@,
                target: target@,
                guard: guard.deep_view(),
                replacement: replacement.deep_view(),
            }
        },
        Production::FollowingContext { target, successor, guard, replacement } => {
            ProductionView::FollowingContext {
                target: target@,
                successor: successor@,
                guard: guard.deep_view(),
                replacement: replacement.deep_view(),
            }
        },
        Production::SurroundingContext { predecessor, target, successor, guard, replacement } => {
            ProductionView::SurroundingContext {
                predecessor: predecessor@,
                target: target@,
                successor: successor@,
                guard: guard.deep_view(),
                replacement: replacement.deep_view(),
            }
        },
    }
}

impl View for Production {
    type V = ProductionView;

    open spec fn view(&self) -> ProductionView {
        production_view(*self)
    }
}

impl DeepView for Production {
    type V = ProductionView;

    open spec fn deep_view(&self) -> ProductionView {
        self.view()
    }
}

impl Clone for Production {
    /// A clone has the same mathematical value.
    fn clone(&self) -> (result: Production)
        ensures
            result@ == self@,
    {
        match self {
            Production::ContextFree { target, guard, replacement } => Production::ContextFree {
                target: target.clone(),
                guard: clone_guard(guard),
                replacement: clone_expressions(replacement),
            },
            Production::PriorContext { predecessor, target, guard, replacement } => {
                Production::PriorContext {
                    predecessor: predecessor.clone(),
                    target: target.clone(),
                    guard: clone_guard(guard),
                    replacement: clone_expressions(replacement),
                }
            },
            Production::FollowingContext { target, successor, guard, replacement } => {
                Production::FollowingContext {
                    target: target.clone(),
                    successor: successor.clone(),
                    guard: clone_guard(guard),
                    replacement: clone_expressions(replacement),
                }
            },
            Production::SurroundingContext {
                predecessor,
                target,
                successor,
                guard,
                replacement,
            } => Production::SurroundingContext {
                predecessor: predecessor.clone(),
                target: target.clone(),
                successor: successor.clone(),
                guard: clone_guard(guard),
                replacement: clone_expressions(replacement),
            },
        }
    }
}

/// The guard of a production; an absent guard is always satisfied.
pub open spec fn production_guard(p: ProductionView) -> Option<BooleanExprView> {
    match p {
        ProductionView::ContextFree { guard, .. } => guard,
        ProductionView::PriorContext { guard, .. } => guard,
        ProductionView::FollowingContext { guard, .. } => guard,
        ProductionView::SurroundingContext { guard, .. } => guard,
    }
}

/// The replacement expressions of a production.
pub open spec fn production_replacement(p: ProductionView) -> Seq<SymbolExpressionView> {
    match p {
        ProductionView::ContextFree { replacement, .. } => replacement,
        ProductionView::PriorContext { replacement, .. } => replacement,
        ProductionView::FollowingContext { replacement, .. } => replacement,
        ProductionView::SurroundingContext { replacement, .. } => replacement,
    }
}

/// The environment a production's pattern slots build for one neighborhood,
/// threaded predecessor, then target, then successor, starting from no
/// bindings. `None` is a non-match: a required neighbor is absent (as at a
/// sequence boundary) or some slot fails to match.
pub open spec fn match_slots(
    p: ProductionView,
    predecessor: Option<SymbolView>,
    symbol: SymbolView,
    successor: Option<SymbolView>,
) -> Option<Map<Seq<char>, int>> {
    match p {
        ProductionView::ContextFree { target, .. } => match_pattern(
            target,
            symbol,
            Map::empty(),
        ),
        ProductionView::PriorContext { predecessor: before, target, .. } => match predecessor {
            None => None,
            Some(prior) => match match_pattern(before, prior, Map::empty()) {
                None => None,
                Some(env) => match_pattern(target, symbol, env),
            },
        },
        ProductionView::FollowingContext { target, successor: after, .. } => match successor {
            None => None,
            Some(following) => match match_pattern(target, symbol, Map::empty()) {
                None => None,
                Some(env) => match_pattern(after, following, env),
            },
        },
        ProductionView::SurroundingContext { predecessor: before, target, successor: after, .. } => {
            match (predecessor, successor) {
                (Some(prior), Some(following)) => match match_pattern(
                    before,
                    prior,
                    Map::empty(),
                ) {
                    None => None,
                    Some(env) => match match_pattern(target, symbol, env) {
                        None => None,
                        Some(env2) => match_pattern(after, following, env2),
                    },
                },
                _ => None,
            }
        },
    }
}

/// The output symbols of the replacement expressions from index `i` on,
/// evaluated left to right under one environment; the first error
/// propagates.
pub open spec fn spec_eval_replacement(
    exprs: Seq<SymbolExpressionView>,
    i: int,
    env: Map<Seq<char>, int>,
) -> Result<Seq<SymbolView>, EvalErrorView>
    decreases exprs.len() - i,
{
    if i < 0 || i >= exprs.len() {
        Ok(Seq::empty())
    } else {
        match spec_eval_symbol(exprs[i], env) {
            Err(err) => Err(err),
            Ok(symbol) => match spec_eval_replacement(exprs, i + 1, env) {
                Err(err) => Err(err),
                Ok(rest) => Ok(seq![symbol] + rest),
            },
        }
    }
}

/// How one production responds to one neighborhood: `Ok(None)` when it does
/// not apply there (a missing required neighbor, a pattern non-match, or a
/// false guard), `Ok(Some(symbols))` when it fires, and `Err` when its guard
/// or replacement evaluation fails.
pub open spec fn try_production(
    p: ProductionView,
    predecessor: Option<SymbolView>,
    symbol: SymbolView,
    successor: Option<SymbolView>,
) -> Result<Option<Seq<SymbolView>>, EvalErrorView> {
    match match_slots(p, predecessor, symbol, successor) {
        None => Ok(None),
        Some(env) => {
            let guard_value = match production_guard(p) {
                None => Ok(true),
                Some(guard) => spec_eval_bool(guard, env),
            };
            match guard_value {
                Err(err) => Err(err),
                Ok(holds) => if holds {
                    match spec_eval_replacement(production_replacement(p), 0, env) {
                        Err(err) => Err(err),
                        Ok(symbols) => Ok(Some(symbols)),
                    }
                } else {
                    Ok(None)
                },
            }
        },
    }
}

/// The replacement for one position, consulting the productions from index
/// `i` on in priority order: the first one that fires supplies it, an
/// evaluation error stops the search, and a singleton of the symbol itself
/// stands when none applies.
pub open spec fn spec_step(
    productions: Seq<ProductionView>,
    i: int,
    predecessor: Option<SymbolView>,
    symbol: SymbolView,
    successor: Option<SymbolView>,
) -> Result<Seq<SymbolView>, EvalErrorView>
    decreases productions.len() - i,
{
    if i < 0 || i >= productions.len() {
        Ok(seq![symbol])
    } else {
        match try_production(productions[i], predecessor, symbol, successor) {
            Err(err) => Err(err),
            Ok(outcome) => match outcome {
                Some(replacement) => Ok(replacement),
                None => spec_step(productions, i + 1, predecessor, symbol, successor),
            },
        }
    }
}

/// The predecessor of position `i`, absent at the left boundary.
pub open spec fn neighbor_before(symbols: Seq<SymbolView>, i: int) -> Option<SymbolView> {
    if i > 0 {
        Some(symbols[i - 1])
    } else {
        None
    }
}

/// The successor of position `i`, absent at the right boundary.
pub open spec fn neighbor_after(symbols: Seq<SymbolView>, i: int) -> Option<SymbolView> {
    if i + 1 < symbols.len() {
        Some(symbols[i + 1])
    } else {
        None
    }
}

/// The replacement position `i` of a generation receives: its step against
/// its own neighborhood in that same generation.
pub open spec fn step_at(
    productions: Seq<ProductionView>,
    symbols: Seq<SymbolView>,
    i: int,
) -> Result<Seq<SymbolView>, EvalErrorView> {
    spec_step(productions, 0, neighbor_before(symbols, i), symbols[i], neighbor_after(symbols, i))
}

/// The next generation from position `i` on: every position is rewritten
/// against the same previous generation, the leftmost evaluation error
/// propagates, and the per-position replacements are concatenated in
/// position order.
pub open spec fn spec_apply(
    productions: Seq<ProductionView>,
    symbols: Seq<SymbolView>,
    i: int,
) -> Result<Seq<SymbolView>, EvalErrorView>
    decreases symbols.len() - i,
{
    if i < 0 || i >= symbols.len() {
        Ok(Seq::empty())
    } else {
        match step_at(productions, symbols, i) {
            Err(err) => Err(err),
            Ok(replacement) => match spec_apply(productions, symbols, i + 1) {
                Err(err) => Err(err),
                Ok(rest) => Ok(replacement + rest),
            },
        }
    }
}

/// The mathematical value of an optional symbol reference.
pub open spec fn neighbor_view(neighbor: Option<&Symbol>) -> Option<SymbolView> {
    match neighbor {
        Some(symbol) => Some(symbol@),
        None => None,
    }
}

/// The guard of a production.
fn guard_of(production: &Production) -> (guard: &Option<BooleanExpr>)
    ensures
        guard.deep_view() == production_guard(production@),
{
    match production {
        Production::ContextFree { guard, .. } => guard,
        Production::PriorContext { guard, .. } => guard,
        Production::FollowingContext { guard, .. } => guard,
        Production::SurroundingContext { guard, .. } => guard,
    }
}

/// The replacement expressions of a production.
fn replacement_of(production: &Production) -> (replacement: &Vec<SymbolExpression>)
    ensures
        replacement.deep_view() == production_replacement(production@),
{
    match production {
        Production::ContextFree { replacement, .. } => replacement,
        Production::PriorContext { replacement, .. } => replacement,
        Production::FollowingContext { replacement, .. } => replacement,
        Production::SurroundingContext { replacement, .. } => replacement,
    }
}

/// Evaluates the replacement expressions from index `i` on, mirroring the
/// recursion of [`spec_eval_replacement`].
fn eval_replacement_from(exprs: &Vec<SymbolExpression>, i: usize, env: &Environment) -> (r: Result<
    Vec<Symbol>,
    EvalError,
>)
    requires
        i <= exprs.len(),
    ensures
        match r {
            Ok(symbols) => spec_eval_replacement(exprs.deep_view(), i as int, env@) == Ok::<
                _,
                EvalErrorView,
            >(symbols.deep_view()),
            Err(err) => spec_eval_replacement(exprs.deep_view(), i as int, env@) == Err::<
                Seq<SymbolView>,
                EvalErrorView,
            >(err@),
        },
    decreases exprs.len() - i,
{
    if i == exprs.len() {
        let symbols: Vec<Symbol> = Vec::new();
        proof {
            assert(symbols.deep_view() =~= Seq::<SymbolView>::empty());
        }
        return Ok(symbols);
    }
    proof {
        assert(exprs.deep_view()[i as int] == exprs@[i as int]@);
    }
    match eval(&exprs[i], env) {
        Err(err) => Err(err),
        Ok(symbol) => match eval_replacement_from(exprs, i + 1, env) {
            Err(err) => Err(err),
            Ok(rest) => {
                let ghost rest_view = rest.deep_view();
                let ghost symbol_view = symbol@;
                let mut symbols = rest;
                symbols.insert(0, symbol);
                proof {
                    assert(symbols.deep_view() =~= seq![symbol_view] + rest_view);
                }
                Ok(symbols)
            },
        },
    }
}

/// Tries one production on one neighborhood, exactly as [`try_production`]
/// describes: `Ok(None)` is a non-match, `Ok(Some(symbols))` a fired
/// replacement, and `Err` an evaluation failure.
fn match_production(
    production: &Production,
    predecessor: Option<&Symbol>,
    symbol: &Symbol,
    successor: Option<&Symbol>,
) -> (r: Result<Option<Vec<Symbol>>, EvalError>)
    ensures
        match r {
            Ok(outcome) => match outcome {
                Some(symbols) => try_production(
                    production@,
                    neighbor_view(predecessor),
                    symbol@,
                    neighbor_view(successor),
                ) == Ok::<_, EvalErrorView>(Some(symbols.deep_view())),
                None => try_production(
                    production@,
                    neighbor_view(predecessor),
                    symbol@,
                    neighbor_view(successor),
                ) == Ok::<Option<Seq<SymbolView>>, EvalErrorView>(None),
            },
            Err(err) => try_production(
                production@,
                neighbor_view(predecessor),
                symbol@,
                neighbor_view(successor),
            ) == Err::<Option<Seq<SymbolView>>, EvalErrorView>(err@),
        },
{
    let slots: Option<Environment> = match production {
        Production::ContextFree { target, .. } => pattern_matches(target, symbol, Environment::new()),
        Production::PriorContext { predecessor: before, target, .. } => match predecessor {
            None => None,
            Some(prior) => match pattern_matches(before, prior, Environment::new()) {
                None => None,
                Some(env) => pattern_matches(target, symbol, env),
            },
        },
        Production::FollowingContext { target, successor: after, .. } => match successor {
            None => None,
            Some(following) => match pattern_matches(target, symbol, Environment::new()) {
                None => None,
                Some(env) => pattern_matches(after, following, env),
            },
        },
        Production::SurroundingContext { predecessor: before, target, successor: after, .. } => {
            match (predecessor, successor) {
                (Some(prior), Some(following)) => match pattern_matches(
                    before,
                    prior,
                    Environment::new(),
                ) {
                    None => None,
                    Some(env) => match pattern_matches(target, symbol, env) {
                        None => None,
                        Some(env2) => pattern_matches(after, following, env2),
                    },
                },
                _ => None,
            }
        },
    };
    proof {
        match &slots {
            Some(env) => {
                assert(match_slots(
                    production@,
                    neighbor_view(predecessor),
                    symbol@,
                    neighbor_view(successor),
                ) == Some(env@));
            },
            None => {
                assert(match_slots(
                    production@,
                    neighbor_view(predecessor),
                    symbol@,
                    neighbor_view(successor),
                ) is None);
            },
        }
    }
    match slots {
        None => Ok(None),
        Some(env) => {
            let holds = match guard_of(production) {
                None => true,
                Some(guard) => match eval_bool(guard, &env) {
                    Err(err) => {
                        return Err(err);
                    },
                    Ok(value) => value,
                },
            };
            if !holds {
                return Ok(None);
            }
            match eval_replacement_from(replacement_of(production), 0, &env) {
                Err(err) => Err(err),
                Ok(symbols) => Ok(Some(symbols)),
            }
        },
    }
}

/// The replacement for one position: the first production that fires
/// supplies it, an evaluation error stops the derivation, and a singleton of
/// the symbol itself stands when no production applies.
fn step(
    predecessor: Option<&Symbol>,
    symbol: &Symbol,
    successor: Option<&Symbol>,
    productions: &Vec<Production>,
) -> (r: Result<Vec<Symbol>, EvalError>)
    ensures
        match r {
            Ok(symbols) => spec_step(
                productions.deep_view(),
                0,
                neighbor_view(predecessor),
                symbol@,
                neighbor_view(successor),
            ) == Ok::<_, EvalErrorView>(symbols.deep_view()),
            Err(err) => spec_step(
                productions.deep_view(),
                0,
                neighbor_view(predecessor),
                symbol@,
                neighbor_view(successor),
            ) == Err::<Seq<SymbolView>, EvalErrorView>(err@),
        },
{
    step_from(predecessor, symbol, successor, productions, 0)
}

/// `step` restricted to the productions from index `i` on, mirroring the
/// recursion of [`spec_step`].
fn step_from(
    predecessor: Option<&Symbol>,
    symbol: &Symbol,
    successor: Option<&Symbol>,
    productions: &Vec<Production>,
    i: usize,
) -> (r: Result<Vec<Symbol>, EvalError>)
    requires
        i <= productions.len(),
    ensures
        match r {
            Ok(symbols) => spec_step(
                productions.deep_view(),
                i as int,
                neighbor_view(predecessor),
                symbol@,
                neighbor_view(successor),
            ) == Ok::<_, EvalErrorView>(symbols.deep_view()),
            Err(err) => spec_step(
                productions.deep_view(),
                i as int,
                neighbor_view(predecessor),
                symbol@,
                neighbor_view(successor),
            ) == Err::<Seq<SymbolView>, EvalErrorView>(err@),
        },
    decreases productions.len() - i,
{
    if i == productions.len() {
        let mut symbols: Vec<Symbol> = Vec::new();
        symbols.push(symbol.clone());
        proof {
            assert(symbols.deep_view() =~= seq![symbol@]);
        }
        return Ok(symbols);
    }
    proof {
        assert(productions.deep_view()[i as int] == productions@[i as int]@);
    }
    match match_production(&productions[i], predecessor, symbol, successor) {
        Err(err) => Err(err),
        Ok(outcome) => match outcome {
            Some(symbols) => Ok(symbols),
            None => step_from(predecessor, symbol, successor, productions, i + 1),
        },
    }
}

/// The full L-system: a generation of symbols and an ordered production
/// list, earlier productions taking priority.
pub struct LSystem {
    pub symbols: Vec<Symbol>,
    pub productions: Vec<Production>,
}

/// Copies a production list; the copy has the same mathematical value.
fn clone_productions(v: &Vec<Production>) -> (r: Vec<Production>)
    ensures
        r.deep_view() == v.deep_view(),
{
    let mut r: Vec<Production> = Vec::new();
    let mut i: usize = 0;
    while i < v.len()
        invariant
            i <= v.len(),
            r.deep_view() == v.deep_view().take(i as int),
        decreases v.len() - i,
    {
        proof {
            assert(v.deep_view().len() == v.len());
            assert(r.deep_view().len() == i);
            assert(r@.len() == i);
        }
        let ghost prev = r.deep_view();
        let ghost prev_seq = r@;
        r.push(v[i].clone());
        proof {
            assert(r@.len() == i + 1);
            assert(r@[i as int]@ == v@[i as int]@);
            assert forall|k: int| 0 <= k < i + 1 implies r.deep_view()[k] == v.deep_view().take(
                i + 1,
            )[k] by {
                assert(r.deep_view()[k] == r@[k]@);
                if k < i {
                    assert(r@[k] == prev_seq[k]);
                    assert(prev[k] == prev_seq[k]@);
                    assert(prev[k] == v.deep_view().take(i as int)[k]);
                }
            }
            assert(r.deep_view() =~= v.deep_view().take(i + 1));
        }
        i = i + 1;
    }
    proof {
        assert(r.deep_view() =~= v.deep_view());
    }
    r
}

impl LSystem {
    /// Derives the next generation, exactly as [`spec_apply`] describes. The
    /// current generation is left untouched: every position is rewritten
    /// against the same previous generation, so no position observes another
    /// position's replacement from the same step. An evaluation failure of a
    /// guard or replacement expression — a malformed grammar — surfaces as
    /// the error of the leftmost failing position.
    pub fn apply(&self) -> (r: Result<LSystem, EvalError>)
        ensures
            match r {
                Ok(next) => spec_apply(
                    self.productions.deep_view(),
                    self.symbols.deep_view(),
                    0,
                ) == Ok::<_, EvalErrorView>(next.symbols.deep_view())
                    && next.productions.deep_view() == self.productions.deep_view(),
                Err(err) => spec_apply(self.productions.deep_view(), self.symbols.deep_view(), 0)
                    == Err::<Seq<SymbolView>, EvalErrorView>(err@),
            },
    {
        let ghost rules = self.productions.deep_view();
        let ghost old_symbols = self.symbols.deep_view();
        let mut out: Vec<Symbol> = Vec::new();
        proof {
            assert(out.deep_view() =~= Seq::<SymbolView>::empty());
            match spec_apply(rules, old_symbols, 0) {
                Ok(rest) => {
                    assert(Seq::<SymbolView>::empty() + rest =~= rest);
                },
                Err(_) => {},
            }
        }
        let mut i: usize = 0;
        while i < self.symbols.len()
            invariant
                i <= self.symbols.len(),
                rules == self.productions.deep_view(),
                old_symbols == self.symbols.deep_view(),
                spec_apply(rules, old_symbols, 0) == (match spec_apply(
                    rules,
                    old_symbols,
                    i as int,
                ) {
                    Ok(rest) => Ok::<Seq<SymbolView>, EvalErrorView>(out.deep_view() + rest),
                    Err(err) => Err(err),
                }),
            decreases self.symbols.len() - i,
        {
            let predecessor: Option<&Symbol> = if i > 0 {
                Some(&self.symbols[i - 1])
            } else {
                None
            };
            let successor: Option<&Symbol> = if i + 1 < self.symbols.len() {
                Some(&self.symbols[i + 1])
            } else {
                None
            };
            proof {
                assert(neighbor_view(predecessor) == neighbor_before(old_symbols, i as int));
                assert(neighbor_view(successor) == neighbor_after(old_symbols, i as int));
                assert(self.symbols[i as int]@ == old_symbols[i as int]);
            }
            match step(predecessor, &self.symbols[i], successor, &self.productions) {
                Err(err) => {
                    return Err(err);
                },
                Ok(mut replacement) => {
                    let ghost pos = i as int;
                    let ghost rep = replacement.deep_view();
                    let ghost prev_out = out.deep_view();
                    out.append(&mut replacement);
                    i = i + 1;
                    proof {
                        assert(out.deep_view() =~= prev_out + rep);
                        match spec_apply(rules, old_symbols, pos + 1) {
                            Ok(rest) => {
                                assert((prev_out + rep) + rest =~= prev_out + (rep + rest));
                            },
                            Err(_) => {},
                        }
                    }
                },
            }
        }
        proof {
            assert(out.deep_view() + Seq::<SymbolView>::empty() =~= out.deep_view());
        }
        Ok(LSystem { symbols: out, productions: clone_productions(&self.productions) })
    }
}

/// Reports a malformed grammar at construction time: two uses of one label
/// with different parameter arities somewhere in the system.
#[derive(Debug)]
pub struct GrammarError {
    /// The label of the later of the two clashing uses.
    pub label: String,
}

impl View for GrammarError {
    type V = Seq<char>;

    open spec fn view(&self) -> Seq<char> {
        self.label@
    }
}

/// The label and arity one symbol use mentions.
pub open spec fn symbol_mention(s: SymbolView) -> (Seq<char>, int) {
    (s.label, s.params.len() as int)
}

/// The label and arity one pattern slot mentions.
pub open spec fn pattern_mention(p: SymbolPatternView) -> (Seq<char>, int) {
    (p.label, p.params.len() as int)
}

/// The label and arity one replacement expression mentions.
pub open spec fn expression_mention(e: SymbolExpressionView) -> (Seq<char>, int) {
    (e.label, e.params.len() as int)
}

/// The mentions of the generation symbols from index `i` on.
pub open spec fn symbol_mentions(symbols: Seq<SymbolView>, i: int) -> Seq<(Seq<char>, int)>
    decreases symbols.len() - i,
{
    if i < 0 || i >= symbols.len() {
        Seq::empty()
    } else {
        seq![symbol_mention(symbols[i])] + symbol_mentions(symbols, i + 1)
    }
}

/// The mentions of the replacement expressions from index `i` on.
pub open spec fn replacement_mentions(exprs: Seq<SymbolExpressionView>, i: int) -> Seq<
    (Seq<char>, int),
>
    decreases exprs.len() - i,
{
    if i < 0 || i >= exprs.len() {
        Seq::empty()
    } else {
        seq![expression_mention(exprs[i])] + replacement_mentions(exprs, i + 1)
    }
}

/// The mentions of a production's pattern slots, in predecessor, target,
/// successor order.
pub open spec fn pattern_mentions(p: ProductionView) -> Seq<(Seq<char>, int)> {
    match p {
        ProductionView::ContextFree { target, .. } => seq![pattern_mention(target)],
        ProductionView::PriorContext { predecessor, target, .. } => seq![
            pattern_mention(predecessor),
            pattern_mention(target),
        ],
        ProductionView::FollowingContext { target, successor, .. } => seq![
            pattern_mention(target),
            pattern_mention(successor),
        ],
        ProductionView::SurroundingContext { predecessor, target, successor, .. } => seq![
            pattern_mention(predecessor),
            pattern_mention(target),
            pattern_mention(successor),
        ],
    }
}

/// All mentions of one production: its pattern slots, then its replacement
/// expressions.
pub open spec fn production_mentions(p: ProductionView) -> Seq<(Seq<char>, int)> {
    pattern_mentions(p) + replacement_mentions(production_replacement(p), 0)
}

/// The mentions of the productions from index `i` on.
pub open spec fn productions_mentions(productions: Seq<ProductionView>, i: int) -> Seq<
    (Seq<char>, int),
>
    decreases productions.len() - i,
{
    if i < 0 || i >= productions.len() {
        Seq::empty()
    } else {
        production_mentions(productions[i]) + productions_mentions(productions, i + 1)
    }
}

/// Every label-arity mention one L-system makes: its generation symbols,
/// then each production's patterns and replacement expressions, in order.
pub open spec fn system_mentions(
    symbols: Seq<SymbolView>,
    productions: Seq<ProductionView>,
) -> Seq<(Seq<char>, int)> {
    symbol_mentions(symbols, 0) + productions_mentions(productions, 0)
}

/// Whether mention `j` clashes with an earlier mention: same label,
/// different arity.
pub open spec fn conflicts_before(mentions: Seq<(Seq<char>, int)>, j: int) -> bool {
    exists|i: int| 0 <= i < j && (#[trigger] mentions[i]).0 == mentions[j].0 && mentions[i].1
        != mentions[j].1
}

/// The first mention from index `j` on that clashes with an earlier one.
pub open spec fn first_conflict(mentions: Seq<(Seq<char>, int)>, j: int) -> Option<int>
    decreases mentions.len() - j,
{
    if j < 0 || j >= mentions.len() {
        None
    } else if conflicts_before(mentions, j) {
        Some(j)
    } else {
        first_conflict(mentions, j + 1)
    }
}

/// The label of the first clashing mention.
pub open spec fn first_conflict_label(mentions: Seq<(Seq<char>, int)>) -> Seq<char> {
    match first_conflict(mentions, 0) {
        Some(j) => mentions[j].0,
        None => Seq::empty(),
    }
}

/// Arity consistency of a mention list: no mention clashes with an earlier
/// one, so every symbol, pattern, and replacement expression sharing a label
/// carries the same arity.
pub open spec fn arity_consistent(mentions: Seq<(Seq<char>, int)>) -> bool {
    forall|j: int| 0 <= j < mentions.len() ==> !(#[trigger] conflicts_before(mentions, j))
}

/// A mention list without a first conflict is arity-consistent.
proof fn lemma_no_conflict_consistent(mentions: Seq<(Seq<char>, int)>, j: int)
    requires
        0 <= j <= mentions.len(),
        first_conflict(mentions, j) is None,
    ensures
        forall|k: int| j <= k < mentions.len() ==> !(#[trigger] conflicts_before(mentions, k)),
    decreases mentions.len() - j,
{
    if j < mentions.len() {
        lemma_no_conflict_consistent(mentions, j + 1);
    }
}

/// The mathematical value of a collected mention list.
pub open spec fn mentions_view(mentions: Seq<(String, usize)>) -> Seq<(Seq<char>, int)> {
    mentions.map_values(|m: (String, usize)| (m.0@, m.1 as int))
}

/// Collects the mentions of the generation symbols from index `i` on,
/// mirroring the recursion of [`symbol_mentions`].
fn collect_symbol_mentions(symbols: &Vec<Symbol>, i: usize) -> (r: Vec<(String, usize)>)
    requires
        i <= symbols.len(),
    ensures
        mentions_view(r@) == symbol_mentions(symbols.deep_view(), i as int),
    decreases symbols.len() - i,
{
    if i == symbols.len() {
        let r: Vec<(String, usize)> = Vec::new();
        proof {
            assert(mentions_view(r@) =~= symbol_mentions(symbols.deep_view(), i as int));
        }
        return r;
    }
    let ghost tail_view = symbol_mentions(symbols.deep_view(), i as int + 1);
    let mut r = collect_symbol_mentions(symbols, i + 1);
    let ghost rest_seq = r@;
    r.insert(0, (symbols[i].label.clone(), symbols[i].params.len()));
    proof {
        assert(symbols.deep_view()[i as int] == symbols@[i as int]@);
        assert(r@[0].0@ == symbols@[i as int]@.label);
        assert(r@[0].1 == symbols@[i as int].params.len());
        assert(symbols@[i as int]@.params.len() == symbols@[i as int].params@.len());
        assert(mentions_view(r@) =~= seq![symbol_mention(symbols.deep_view()[i as int])]
            + mentions_view(rest_seq));
    }
    r
}

/// Collects the mentions of the replacement expressions from index `i` on,
/// mirroring the recursion of [`replacement_mentions`].
fn collect_replacement_mentions(exprs: &Vec<SymbolExpression>, i: usize) -> (r: Vec<
    (String, usize),
>)
    requires
        i <= exprs.len(),
    ensures
        mentions_view(r@) == replacement_mentions(exprs.deep_view(), i as int),
    decreases exprs.len() - i,
{
    if i == exprs.len() {
        let r: Vec<(String, usize)> = Vec::new();
        proof {
            assert(mentions_view(r@) =~= replacement_mentions(exprs.deep_view(), i as int));
        }
        return r;
    }
    let mut r = collect_replacement_mentions(exprs, i + 1);
    let ghost rest_seq = r@;
    r.insert(0, (exprs[i].label.clone(), exprs[i].params.len()));
    proof {
        assert(exprs.deep_view()[i as int] == exprs@[i as int]@);
        assert(r@[0].0@ == exprs@[i as int]@.label);
        assert(exprs@[i as int]@.params.len() == exprs@[i as int].params@.len());
        assert(mentions_view(r@) =~= seq![expression_mention(exprs.deep_view()[i as int])]
            + mentions_view(rest_seq));
    }
    r
}

/// Collects the mentions of one production: its pattern slots, then its
/// replacement expressions.
fn collect_production_mentions(production: &Production) -> (r: Vec<(String, usize)>)
    ensures
        mentions_view(r@) == production_mentions(production@),
{
    let mut r: Vec<(String, usize)> = Vec::new();
    match production {
        Production::ContextFree { target, .. } => {
            r.push((target.label.clone(), target.params.len()));
        },
        Production::PriorContext { predecessor, target, .. } => {
            r.push((predecessor.label.clone(), predecessor.params.len()));
            r.push((target.label.clone(), target.params.len()));
        },
        Production::FollowingContext { target, successor, .. } => {
            r.push((target.label.clone(), target.params.len()));
            r.push((successor.label.clone(), successor.params.len()));
        },
        Production::SurroundingContext { predecessor, target, successor, .. } => {
            r.push((predecessor.label.clone(), predecessor.params.len()));
            r.push((target.label.clone(), target.params.len()));
            r.push((successor.label.clone(), successor.params.len()));
        },
    }
    proof {
        assert(mentions_view(r@) =~= pattern_mentions(production@));
    }
    let mut tail = collect_replacement_mentions(replacement_of(production), 0);
    let ghost head_seq = r@;
    let ghost tail_seq = tail@;
    r.append(&mut tail);
    proof {
        assert(r@ == head_seq + tail_seq);
        assert(mentions_view(r@) =~= mentions_view(head_seq) + mentions_view(tail_seq));
    }
    r
}

/// Collects the mentions of the productions from index `i` on, mirroring
/// the recursion of [`productions_mentions`].
fn collect_productions_mentions(productions: &Vec<Production>, i: usize) -> (r: Vec<
    (String, usize),
>)
    requires
        i <= productions.len(),
    ensures
        mentions_view(r@) == productions_mentions(productions.deep_view(), i as int),
    decreases productions.len() - i,
{
    if i == productions.len() {
        let r: Vec<(String, usize)> = Vec::new();
        proof {
            assert(mentions_view(r@) =~= productions_mentions(productions.deep_view(), i as int));
        }
        return r;
    }
    proof {
        assert(productions.deep_view()[i as int] == productions@[i as int]@);
    }
    let mut r = collect_production_mentions(&productions[i]);
    let mut tail = collect_productions_mentions(productions, i + 1);
    let ghost head_seq = r@;
    let ghost tail_seq = tail@;
    r.append(&mut tail);
    proof {
        assert(r@ == head_seq + tail_seq);
        assert(mentions_view(r@) =~= mentions_view(head_seq) + mentions_view(tail_seq));
    }
    r
}

/// Whether mention `j` clashes with an earlier collected mention.
fn conflict_with_earlier(mentions: &Vec<(String, usize)>, j: usize) -> (r: bool)
    requires
        j < mentions.len(),
    ensures
        r == conflicts_before(mentions_view(mentions@), j as int),
{
    let mut i: usize = 0;
    while i < j
        invariant
            i <= j < mentions.len(),
            forall|k: int|
                0 <= k < i ==> !((#[trigger] mentions_view(mentions@)[k]).0 == mentions_view(
                    mentions@,
                )[j as int].0 && mentions_view(mentions@)[k].1 != mentions_view(
                    mentions@,
                )[j as int].1),
        decreases j - i,
    {
        if mentions[i].0 == mentions[j].0 && mentions[i].1 != mentions[j].1 {
            proof {
                assert(mentions_view(mentions@)[i as int].0 == mentions_view(
                    mentions@,
                )[j as int].0);
                assert(mentions_view(mentions@)[i as int].1 != mentions_view(
                    mentions@,
                )[j as int].1);
            }
            return true;
        }
        i = i + 1;
    }
    false
}

/// The first collected mention from index `j` on that clashes with an
/// earlier one, mirroring the recursion of [`first_conflict`].
fn find_first_conflict(mentions: &Vec<(String, usize)>, j: usize) -> (r: Option<usize>)
    requires
        j <= mentions.len(),
    ensures
        match r {
            Some(idx) => first_conflict(mentions_view(mentions@), j as int) == Some(idx as int)
                && idx < mentions.len(),
            None => first_conflict(mentions_view(mentions@), j as int) is None,
        },
    decreases mentions.len() - j,
{
    if j == mentions.len() {
        None
    } else if conflict_with_earlier(mentions, j) {
        Some(j)
    } else {
        find_first_conflict(mentions, j + 1)
    }
}

impl LSystem {
    /// Packages an initial generation and a production list as generation
    /// zero, after validating the grammar-level invariant that every use of
    /// one label — in the generation, a pattern slot, or a replacement
    /// expression — carries the same parameter arity. A clash is reported as
    /// a configuration error carrying the offending label.
    pub fn new(initial: Vec<Symbol>, productions: Vec<Production>) -> (r: Result<
        LSystem,
        GrammarError,
    >)
        ensures
            match r {
                Ok(system) => first_conflict(
                    system_mentions(initial.deep_view(), productions.deep_view()),
                    0,
                ) is None && arity_consistent(
                    system_mentions(initial.deep_view(), productions.deep_view()),
                ) && system.symbols.deep_view() == initial.deep_view()
                    && system.productions.deep_view() == productions.deep_view(),
                Err(err) => first_conflict(
                    system_mentions(initial.deep_view(), productions.deep_view()),
                    0,
                ) is Some && err@ == first_conflict_label(
                    system_mentions(initial.deep_view(), productions.deep_view()),
                ),
            },
    {
        let ghost all = system_mentions(initial.deep_view(), productions.deep_view());
        let mut mentions = collect_symbol_mentions(&initial, 0);
        let mut tail = collect_productions_mentions(&productions, 0);
        let ghost head_seq = mentions@;
        let ghost tail_seq = tail@;
        mentions.append(&mut tail);
        proof {
            assert(mentions@ == head_seq + tail_seq);
            assert(mentions_view(mentions@) =~= mentions_view(head_seq) + mentions_view(tail_seq));
            assert(mentions_view(mentions@) == all);
        }
        match find_first_conflict(&mentions, 0) {
            None => {
                proof {
                    lemma_no_conflict_consistent(all, 0);
                }
                Ok(LSystem { symbols: initial, productions })
            },
            Some(j) => {
                let label = mentions[j].0.clone();
                proof {
                    assert(mentions_view(mentions@)[j as int].0 == mentions@[j as int].0@);
                }
                Err(GrammarError { label })
            },
        }
    }
}

/// When every production from index `i` on declines a neighborhood, the
/// step's replacement is the symbol itself.
pub proof fn lemma_step_no_match(
    productions: Seq<ProductionView>,
    i: int,
    predecessor: Option<SymbolView>,
    symbol: SymbolView,
    successor: Option<SymbolView>,
)
    requires
        0 <= i <= productions.len(),
        forall|j: int|
            i <= j < productions.len() ==> try_production(
                #[trigger] productions[j],
                predecessor,
                symbol,
                successor,
            ) == Ok::<Option<Seq<SymbolView>>, EvalErrorView>(None),
    ensures
        spec_step(productions, i, predecessor, symbol, successor) == Ok::<_, EvalErrorView>(
            seq![symbol],
        ),
    decreases productions.len() - i,
{
    if i < productions.len() {
        lemma_step_no_match(productions, i + 1, predecessor, symbol, successor);
    }
}

/// Identity fallback: when no production applies to a symbol standing
/// alone, one derivation of the one-symbol generation leaves it unchanged.
pub proof fn lemma_identity_fallback(productions: Seq<ProductionView>, symbol: SymbolView)
    requires
        forall|j: int|
            0 <= j < productions.len() ==> try_production(
                #[trigger] productions[j],
                None,
                symbol,
                None,
            ) == Ok::<Option<Seq<SymbolView>>, EvalErrorView>(None),
    ensures
        spec_apply(productions, seq![symbol], 0) == Ok::<_, EvalErrorView>(seq![symbol]),
{
    let symbols = seq![symbol];
    assert(neighbor_before(symbols, 0) is None);
    assert(neighbor_after(symbols, 0) is None);
    lemma_step_no_match(productions, 0, None, symbol, None);
    assert(spec_apply(productions, symbols, 1) == Ok::<Seq<SymbolView>, EvalErrorView>(
        Seq::empty(),
    ));
    assert(seq![symbol] + Seq::<SymbolView>::empty() =~= seq![symbol]);
}

/// `lemma_priority`, generalized to the productions from index `i` on.
proof fn lemma_priority_from(
    productions: Seq<ProductionView>,
    i: int,
    j: int,
    predecessor: Option<SymbolView>,
    symbol: SymbolView,
    successor: Option<SymbolView>,
    replacement: Seq<SymbolView>,
)
    requires
        0 <= i <= j < productions.len(),
        try_production(productions[j], predecessor, symbol, successor) == Ok::<
            Option<Seq<SymbolView>>,
            EvalErrorView,
        >(Some(replacement)),
        forall|k: int|
            i <= k < j ==> try_production(#[trigger] productions[k], predecessor, symbol, successor)
                == Ok::<Option<Seq<SymbolView>>, EvalErrorView>(None),
    ensures
        spec_step(productions, i, predecessor, symbol, successor) == Ok::<_, EvalErrorView>(
            replacement,
        ),
    decreases j - i,
{
    if i < j {
        lemma_priority_from(productions, i + 1, j, predecessor, symbol, successor, replacement);
    }
}

/// Priority: when a production fires on a neighborhood and every production
/// earlier in the list declines it, the step's replacement is the firing
/// production's, whatever the productions after it would do.
pub proof fn lemma_priority(
    productions: Seq<ProductionView>,
    j: int,
    predecessor: Option<SymbolView>,
    symbol: SymbolView,
    successor: Option<SymbolView>,
    replacement: Seq<SymbolView>,
)
    requires
        0 <= j < productions.len(),
        try_production(productions[j], predecessor, symbol, successor) == Ok::<
            Option<Seq<SymbolView>>,
            EvalErrorView,
        >(Some(replacement)),
        forall|k: int|
            0 <= k < j ==> try_production(#[trigger] productions[k], predecessor, symbol, successor)
                == Ok::<Option<Seq<SymbolView>>, EvalErrorView>(None),
    ensures
        spec_step(productions, 0, predecessor, symbol, successor) == Ok::<_, EvalErrorView>(
            replacement,
        ),
{
    lemma_priority_from(productions, 0, j, predecessor, symbol, successor, replacement);
}

/// Context requirement: a production that requires a predecessor never
/// fires where none is present (the left boundary), and one that requires a
/// successor never fires where none is present (the right boundary), even
/// when the neighbors that are present would match its patterns.
pub proof fn lemma_boundary_no_match(
    p: ProductionView,
    symbol: SymbolView,
    predecessor: Option<SymbolView>,
    successor: Option<SymbolView>,
)
    ensures
        (p is PriorContext || p is SurroundingContext) ==> try_production(p, None, symbol, successor)
            == Ok::<Option<Seq<SymbolView>>, EvalErrorView>(None),
        (p is FollowingContext || p is SurroundingContext) ==> try_production(
            p,
            predecessor,
            symbol,
            None,
        ) == Ok::<Option<Seq<SymbolView>>, EvalErrorView>(None),
{
}

/// `lemma_fixed_point`, generalized to the positions from index `i` on.
proof fn lemma_fixed_point_from(
    productions: Seq<ProductionView>,
    symbols: Seq<SymbolView>,
    i: int,
)
    requires
        0 <= i <= symbols.len(),
        forall|j: int, before: Option<SymbolView>, s: SymbolView, after: Option<SymbolView>|
            0 <= j < productions.len() && symbols.contains(s) ==> #[trigger] try_production(
                productions[j],
                before,
                s,
                after,
            ) == Ok::<Option<Seq<SymbolView>>, EvalErrorView>(None),
    ensures
        spec_apply(productions, symbols, i) == Ok::<_, EvalErrorView>(symbols.skip(i)),
    decreases symbols.len() - i,
{
    if i == symbols.len() {
        assert(symbols.skip(i) =~= Seq::<SymbolView>::empty());
    } else {
        assert(symbols.contains(symbols[i]));
        assert forall|j: int|
            0 <= j < productions.len() implies try_production(
            #[trigger] productions[j],
            neighbor_before(symbols, i),
            symbols[i],
            neighbor_after(symbols, i),
        ) == Ok::<Option<Seq<SymbolView>>, EvalErrorView>(None) by {
            assert(try_production(
                productions[j],
                neighbor_before(symbols, i),
                symbols[i],
                neighbor_after(symbols, i),
            ) == Ok::<Option<Seq<SymbolView>>, EvalErrorView>(None));
        }
        lemma_step_no_match(
            productions,
            0,
            neighbor_before(symbols, i),
            symbols[i],
            neighbor_after(symbols, i),
        );
        lemma_fixed_point_from(productions, symbols, i + 1);
        assert(seq![symbols[i]] + symbols.skip(i + 1) =~= symbols.skip(i));
    }
}

/// Fixed point: a system none of whose productions matches anything over
/// its generation derives that same generation, and deriving the derived
/// generation again still gives it — the system is a fixed point.
pub proof fn lemma_fixed_point(productions: Seq<ProductionView>, symbols: Seq<SymbolView>)
    requires
        forall|j: int, before: Option<SymbolView>, s: SymbolView, after: Option<SymbolView>|
            0 <= j < productions.len() && symbols.contains(s) ==> #[trigger] try_production(
                productions[j],
                before,
                s,
                after,
            ) == Ok::<Option<Seq<SymbolView>>, EvalErrorView>(None),
    ensures
        spec_apply(productions, symbols, 0) == Ok::<_, EvalErrorView>(symbols),
        spec_apply(productions, spec_apply(productions, symbols, 0)->Ok_0, 0) == Ok::<
            _,
            EvalErrorView,
        >(symbols),
{
    lemma_fixed_point_from(productions, symbols, 0);
    assert(symbols.skip(0) =~= symbols);
}

/// `lemma_apply_concatenates`, generalized to the positions from index `i`
/// on.
proof fn lemma_apply_concatenates_from(
    productions: Seq<ProductionView>,
    symbols: Seq<SymbolView>,
    outputs: Seq<Seq<SymbolView>>,
    i: int,
)
    requires
        0 <= i <= symbols.len(),
        outputs.len() == symbols.len(),
        forall|k: int|
            0 <= k < symbols.len() ==> step_at(productions, symbols, k) == Ok::<_, EvalErrorView>(
                #[trigger] outputs[k],
            ),
    ensures
        spec_apply(productions, symbols, i) == Ok::<_, EvalErrorView>(outputs.skip(i).flatten()),
    decreases symbols.len() - i,
{
    if i == symbols.len() {
        assert(outputs.skip(i) =~= Seq::<Seq<SymbolView>>::empty());
    } else {
        lemma_apply_concatenates_from(productions, symbols, outputs, i + 1);
        assert(outputs.skip(i).drop_first() =~= outputs.skip(i + 1));
        assert(outputs.skip(i).first() == outputs[i]);
        assert(outputs.skip(i).flatten() == outputs[i] + outputs.skip(i + 1).flatten());
    }
}

/// Concatenation: when every position's step succeeds, the next generation
/// is exactly the per-position replacements flattened in position order —
/// so empty replacements delete, longer ones expand, and the relative left
/// to right order across positions is preserved.
pub proof fn lemma_apply_concatenates(
    productions: Seq<ProductionView>,
    symbols: Seq<SymbolView>,
    outputs: Seq<Seq<SymbolView>>,
)
    requires
        outputs.len() == symbols.len(),
        forall|k: int|
            0 <= k < symbols.len() ==> step_at(productions, symbols, k) == Ok::<_, EvalErrorView>(
                #[trigger] outputs[k],
            ),
    ensures
        spec_apply(productions, symbols, 0) == Ok::<_, EvalErrorView>(outputs.flatten()),
{
    lemma_apply_concatenates_from(productions, symbols, outputs, 0);
    assert(outputs.skip(0) =~= outputs);
}

} // verus!

