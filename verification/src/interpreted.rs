//! The declarative rule layer: parametric symbols, symbol patterns with
//! literal and binding parameters, guard and replacement expressions, the
//! binding environment built during one match attempt, and the compiler that
//! turns a declarative production into one of the four primitive shapes of
//! [`crate::compiled`].

use vstd::prelude::*;

verus! {

/// The parameter values of a symbol, as integers.
pub open spec fn param_values(params: Seq<i64>) -> Seq<int> {
    params.map_values(|p: i64| p as int)
}

/// An alphabet element: a label and an ordered list of numeric parameters
/// (possibly empty). Two symbols are equal exactly when label and parameters
/// are equal.
#[derive(Debug)]
pub struct Symbol {
    pub label: String,
    pub params: Vec<i64>,
}

/// Mathematical value of a [`Symbol`]: the label as a character sequence and
/// the parameters as a sequence of integers.
#[verifier::ext_equal]
pub struct SymbolView {
    pub label: Seq<char>,
    pub params: Seq<int>,
}

impl View for Symbol {
    type V = SymbolView;

    open spec fn view(&self) -> SymbolView {
        SymbolView { label: self.label@, params: param_values(self.params@) }
    }
}

impl DeepView for Symbol {
    type V = SymbolView;

    open spec fn deep_view(&self) -> SymbolView {
        self.view()
    }
}

/// Element-wise equality of two parameter lists.
fn eq_params(a: &Vec<i64>, b: &Vec<i64>) -> (r: bool)
    ensures
        r == (a@ == b@),
{
    if a.len() != b.len() {
        proof {
            assert(a@ != b@);
        }
        return false;
    }
    let mut i: usize = 0;
    while i < a.len()
        invariant
            i <= a.len(),
            a.len() == b.len(),
            forall|k: int| 0 <= k < i ==> a@[k] == b@[k],
        decreases a.len() - i,
    {
        if a[i] != b[i] {
            proof {
                assert(a@[i as int] != b@[i as int]);
            }
            return false;
        }
        i = i + 1;
    }
    proof {
        assert(a@ =~= b@);
    }
    true
}

impl Clone for Symbol {
    /// A clone carries the same label and parameters.
    fn clone(&self) -> (result: Symbol)
        ensures
            result@ == self@,
    {
        let mut params: Vec<i64> = Vec::new();
        let mut i: usize = 0;
        while i < self.params.len()
            invariant
                i <= self.params.len(),
                params@ == self.params@.take(i as int),
            decreases self.params.len() - i,
        {
            params.push(self.params[i]);
            proof {
                assert(params@ =~= self.params@.take(i + 1));
            }
            i = i + 1;
        }
        proof {
            assert(params@ =~= self.params@);
        }
        let result = Symbol { label: self.label.clone(), params };
        proof {
            assert(result@ =~= self@);
        }
        result
    }
}

impl PartialEq for Symbol {
    fn eq(&self, other: &Symbol) -> (r: bool) {
        let r = if self.label == other.label {
            eq_params(&self.params, &other.params)
        } else {
            false
        };
        proof {
            if self.label@ == other.label@ && self.params@ == other.params@ {
                assert(self@ =~= other@);
            }
            if self@ == other@ {
                assert(self.params@.len() == other.params@.len()) by {
                    assert(self@.params.len() == other@.params.len());
                }
                assert forall|k: int|
                    0 <= k < self.params@.len() implies self.params@[k] == other.params@[k] by {
                    assert(self@.params[k] == other@.params[k]);
                    assert(self@.params[k] == self.params@[k] as int);
                    assert(other@.params[k] == other.params@[k] as int);
                }
                assert(self.params@ =~= other.params@);
            }
        }
        r
    }
}

impl vstd::std_specs::cmp::PartialEqSpecImpl for Symbol {
    open spec fn obeys_eq_spec() -> bool {
        true
    }

    open spec fn eq_spec(&self, other: &Symbol) -> bool {
        self@ == other@
    }
}

/// Copies a symbol sequence; the copy has the same mathematical value.
pub(crate) fn clone_symbols(v: &Vec<Symbol>) -> (r: Vec<Symbol>)
    ensures
        r.deep_view() == v.deep_view(),
{
    let mut r: Vec<Symbol> = Vec::new();
    let mut i: usize = 0;
    while i < v.len()
        invariant
            i <= v.len(),
            r.deep_view() == v.deep_view().take(i as int),
        decreases v.len() - i,
    {
        proof {
            assert(v.deep_view().len() == v.len());
            assert(v.deep_view().take(i as int).len() == i);
            assert(r.deep_view().len() == i);
            assert(r@.len() == i);
        }
        let ghost prev = r.deep_view();
        let ghost prev_seq = r@;
        r.push(v[i].clone());
        proof {
            assert(r@.len() == i + 1);
            assert(r@[i as int]@ == v@[i as int]@);
            assert forall|k: int| 0 <= k < i + 1 implies r.deep_view()[k] == v.deep_view().take(
                i + 1,
            )[k] by {
                assert(r.deep_view()[k] == r@[k]@);
                if k < i {
                    assert(r@[k] == prev_seq[k]);
                    assert(prev[k] == prev_seq[k]@);
                    assert(prev[k] == v.deep_view().take(i as int)[k]);
                }
            }
            assert(r.deep_view() =~= v.deep_view().take(i + 1));
        }
        i = i + 1;
    }
    proof {
        assert(r.deep_view() =~= v.deep_view());
    }
    r
}

/// The binding map denoted by the entries of an [`Environment`] from index
/// `i` on; an earlier entry wins over a later one carrying the same name.
spec fn entries_map_from(entries: Seq<(String, i64)>, i: int) -> Map<Seq<char>, int>
    decreases entries.len() - i,
{
    if i < 0 || i >= entries.len() {
        Map::empty()
    } else {
        entries_map_from(entries, i + 1).insert(entries[i].0@, entries[i].1 as int)
    }
}

/// What binding a name to a value does to an environment: a fresh name is
/// added, a name already bound to the same value changes nothing, and a name
/// bound to a different value is a conflict (`None`), which is how one match
/// attempt rejects an inconsistent neighborhood.
pub open spec fn spec_bind(env: Map<Seq<char>, int>, name: Seq<char>, value: int) -> Option<
    Map<Seq<char>, int>,
> {
    if env.contains_key(name) {
        if env[name] == value {
            Some(env)
        } else {
            None
        }
    } else {
        Some(env.insert(name, value))
    }
}

/// Appending an entry whose name is absent from the environment denotes
/// inserting that binding.
proof fn lemma_entries_push(entries: Seq<(String, i64)>, entry: (String, i64), i: int)
    requires
        0 <= i <= entries.len(),
        !entries_map_from(entries, i).contains_key(entry.0@),
    ensures
        entries_map_from(entries.push(entry), i) == entries_map_from(entries, i).insert(
            entry.0@,
            entry.1 as int,
        ),
    decreases entries.len() - i,
{
    if i == entries.len() {
        assert(entries_map_from(entries.push(entry), i + 1) =~= Map::<Seq<char>, int>::empty());
        assert(entries.push(entry)[i] == entry);
        assert(entries_map_from(entries.push(entry), i) =~= entries_map_from(entries, i).insert(
            entry.0@,
            entry.1 as int,
        ));
    } else {
        assert(entries_map_from(entries, i).contains_key(entries[i].0@));
        lemma_entries_push(entries, entry, i + 1);
        assert(entries.push(entry)[i] == entries[i]);
        assert(entries_map_from(entries.push(entry), i) =~= entries_map_from(entries, i).insert(
            entry.0@,
            entry.1 as int,
        ));
    }
}

/// A transient mapping from pattern binding names to numeric values, built
/// incrementally during one position's match attempt and discarded after it.
pub struct Environment {
    entries: Vec<(String, i64)>,
}

impl View for Environment {
    type V = Map<Seq<char>, int>;

    closed spec fn view(&self) -> Map<Seq<char>, int> {
        entries_map_from(self.entries@, 0)
    }
}

impl Environment {
    /// An environment with no bindings.
    pub fn new() -> (env: Environment)
        ensures
            env@ == Map::<Seq<char>, int>::empty(),
    {
        let env = Environment { entries: Vec::new() };
        proof {
            assert(env@ =~= Map::<Seq<char>, int>::empty());
        }
        env
    }

    /// The value bound to `name`, if any.
    pub fn get(&self, name: &String) -> (r: Option<i64>)
        ensures
            match r {
                Some(v) => self@.contains_key(name@) && self@[name@] == v as int,
                None => !self@.contains_key(name@),
            },
    {
        self.get_from(0, name)
    }

    /// `get` restricted to the entries from index `i` on, mirroring the
    /// recursion of [`entries_map_from`].
    fn get_from(&self, i: usize, name: &String) -> (r: Option<i64>)
        requires
            i <= self.entries.len(),
        ensures
            match r {
                Some(v) => entries_map_from(self.entries@, i as int).contains_key(name@)
                    && entries_map_from(self.entries@, i as int)[name@] == v as int,
                None => !entries_map_from(self.entries@, i as int).contains_key(name@),
            },
        decreases self.entries.len() - i,
    {
        if i == self.entries.len() {
            None
        } else if self.entries[i].0 == *name {
            Some(self.entries[i].1)
        } else {
            self.get_from(i + 1, name)
        }
    }

    /// Binds `name` to `value` as [`spec_bind`] describes; `None` reports a
    /// conflict with an existing binding of the same name.
    pub fn bind(self, name: &String, value: i64) -> (r: Option<Environment>)
        ensures
            match r {
                Some(env) => spec_bind(self@, name@, value as int) == Some(env@),
                None => spec_bind(self@, name@, value as int) is None,
            },
    {
        match self.get(name) {
            Some(bound) => if bound == value {
                Some(self)
            } else {
                None
            },
            None => {
                let ghost entries0 = self.entries@;
                let mut env = self;
                let cloned_name = name.clone();
                env.entries.push((cloned_name, value));
                proof {
                    let entry = env.entries@.last();
                    assert(env.entries@ == entries0.push(entry));
                    assert(entry.0@ == name@);
                    lemma_entries_push(entries0, entry, 0);
                }
                Some(env)
            },
        }
    }
}

/// One pattern parameter: a literal value the symbol's parameter must equal,
/// or a binding name.
pub enum PatternParam {
    Literal(i64),
    Binding(String),
}

/// Mathematical value of a [`PatternParam`].
pub enum PatternParamView {
    Literal(int),
    Binding(Seq<char>),
}

impl View for PatternParam {
    type V = PatternParamView;

    open spec fn view(&self) -> PatternParamView {
        match self {
            PatternParam::Literal(value) => PatternParamView::Literal(*value as int),
            PatternParam::Binding(name) => PatternParamView::Binding(name@),
        }
    }
}

impl DeepView for PatternParam {
    type V = PatternParamView;

    open spec fn deep_view(&self) -> PatternParamView {
        self.view()
    }
}

/// A symbol pattern: a label the symbol's label must equal, and one pattern
/// parameter per symbol parameter.
pub struct SymbolPattern {
    pub label: String,
    pub params: Vec<PatternParam>,
}

/// Mathematical value of a [`SymbolPattern`].
#[verifier::ext_equal]
pub struct SymbolPatternView {
    pub label: Seq<char>,
    pub params: Seq<PatternParamView>,
}

impl View for SymbolPattern {
    type V = SymbolPatternView;

    open spec fn view(&self) -> SymbolPatternView {
        SymbolPatternView { label: self.label@, params: self.params.deep_view() }
    }
}

impl DeepView for SymbolPattern {
    type V = SymbolPatternView;

    open spec fn deep_view(&self) -> SymbolPatternView {
        self.view()
    }
}

impl Clone for PatternParam {
    /// A clone has the same mathematical value.
    fn clone(&self) -> (result: PatternParam)
        ensures
            result@ == self@,
    {
        match self {
            PatternParam::Literal(value) => PatternParam::Literal(*value),
            PatternParam::Binding(name) => PatternParam::Binding(name.clone()),
        }
    }
}

impl Clone for SymbolPattern {
    /// A clone has the same mathematical value.
    fn clone(&self) -> (result: SymbolPattern)
        ensures
            result@ == self@,
    {
        let mut params: Vec<PatternParam> = Vec::new();
        let mut i: usize = 0;
        while i < self.params.len()
            invariant
                i <= self.params.len(),
                params.deep_view() == self.params.deep_view().take(i as int),
            decreases self.params.len() - i,
        {
            proof {
                assert(self.params.deep_view().len() == self.params.len());
                assert(params.deep_view().len() == i);
                assert(params@.len() == i);
            }
            let ghost prev = params.deep_view();
            let ghost prev_seq = params@;
            params.push(self.params[i].clone());
            proof {
                assert(params@.len() == i + 1);
                assert(params@[i as int]@ == self.params@[i as int]@);
                assert forall|k: int|
                    0 <= k < i + 1 implies params.deep_view()[k] == self.params.deep_view().take(
                    i + 1,
                )[k] by {
                    assert(params.deep_view()[k] == params@[k]@);
                    if k < i {
                        assert(params@[k] == prev_seq[k]);
                        assert(prev[k] == prev_seq[k]@);
                        assert(prev[k] == self.params.deep_view().take(i as int)[k]);
                    }
                }
                assert(params.deep_view() =~= self.params.deep_view().take(i + 1));
            }
            i = i + 1;
        }
        proof {
            assert(params.deep_view() =~= self.params.deep_view());
        }
        let result = SymbolPattern { label: self.label.clone(), params };
        proof {
            assert(result@ =~= self@);
        }
        result
    }
}

/// Matches pattern parameters against symbol parameter values pairwise,
/// threading the environment left to right: a literal must equal the value,
/// and a binding name is bound as [`spec_bind`] describes.
pub open spec fn match_params(
    pats: Seq<PatternParamView>,
    values: Seq<int>,
    env: Map<Seq<char>, int>,
) -> Option<Map<Seq<char>, int>>
    decreases pats.len(),
{
    if pats.len() == 0 {
        Some(env)
    } else {
        let first = match pats[0] {
            PatternParamView::Literal(value) => if values[0] == value {
                Some(env)
            } else {
                None
            },
            PatternParamView::Binding(name) => spec_bind(env, name, values[0]),
        };
        match first {
            Some(extended) => match_params(pats.skip(1), values.skip(1), extended),
            None => None,
        }
    }
}

/// The match of one pattern against one symbol under an environment: it
/// fails on a label mismatch or a parameter-count (arity) mismatch, and
/// otherwise threads the environment through the parameters.
pub open spec fn match_pattern(
    pattern: SymbolPatternView,
    symbol: SymbolView,
    env: Map<Seq<char>, int>,
) -> Option<Map<Seq<char>, int>> {
    if pattern.label == symbol.label && pattern.params.len() == symbol.params.len() {
        match_params(pattern.params, symbol.params, env)
    } else {
        None
    }
}

/// An arity mismatch is a non-match: a pattern never matches a symbol with a
/// different number of parameters, whatever the label, parameters, and
/// environment are.
pub proof fn lemma_arity_mismatch(
    pattern: SymbolPatternView,
    symbol: SymbolView,
    env: Map<Seq<char>, int>,
)
    requires
        pattern.params.len() != symbol.params.len(),
    ensures
        match_pattern(pattern, symbol, env) is None,
{
}

/// Matches one pattern against one symbol, extending `env` with the bindings
/// the pattern introduces; `None` reports a non-match, as [`match_pattern`]
/// describes.
pub fn pattern_matches(pattern: &SymbolPattern, symbol: &Symbol, env: Environment) -> (r: Option<
    Environment,
>)
    ensures
        match r {
            Some(extended) => match_pattern(pattern@, symbol@, env@) == Some(extended@),
            None => match_pattern(pattern@, symbol@, env@) is None,
        },
{
    if !(pattern.label == symbol.label) {
        return None;
    }
    if pattern.params.len() != symbol.params.len() {
        proof {
            assert(pattern@.params.len() == pattern.params@.len());
            assert(symbol@.params.len() == symbol.params@.len());
        }
        return None;
    }
    proof {
        assert(pattern.params.deep_view().skip(0) =~= pattern@.params);
        assert(symbol@.params.skip(0) =~= symbol@.params);
    }
    match_params_from(&pattern.params, &symbol.params, 0, env)
}

/// [`match_params`] restricted to the parameters from index `i` on,
/// mirroring its recursion.
fn match_params_from(
    pats: &Vec<PatternParam>,
    values: &Vec<i64>,
    i: usize,
    env: Environment,
) -> (r: Option<Environment>)
    requires
        i <= pats.len(),
        pats.len() == values.len(),
    ensures
        match r {
            Some(extended) => match_params(
                pats.deep_view().skip(i as int),
                param_values(values@).skip(i as int),
                env@,
            ) == Some(extended@),
            None => match_params(
                pats.deep_view().skip(i as int),
                param_values(values@).skip(i as int),
                env@,
            ) is None,
        },
    decreases pats.len() - i,
{
    let ghost gpats = pats.deep_view().skip(i as int);
    let ghost gvalues = param_values(values@).skip(i as int);
    if i == pats.len() {
        proof {
            assert(gpats =~= Seq::<PatternParamView>::empty());
        }
        return Some(env);
    }
    proof {
        assert(gpats[0] == pats@[i as int]@);
        assert(gvalues[0] == values@[i as int] as int);
        assert(gpats.skip(1) =~= pats.deep_view().skip(i as int + 1));
        assert(gvalues.skip(1) =~= param_values(values@).skip(i as int + 1));
    }
    let first = match &pats[i] {
        PatternParam::Literal(value) => {
            if values[i] == *value {
                Some(env)
            } else {
                None
            }
        },
        PatternParam::Binding(name) => env.bind(name, values[i]),
    };
    match first {
        Some(extended) => match_params_from(pats, values, i + 1, extended),
        None => None,
    }
}

/// A failure of guard or replacement evaluation. Unlike a non-match, such a
/// failure is a hard error: it reports a malformed grammar and surfaces to
/// the caller instead of falling through to the next production.
#[derive(Debug)]
pub enum EvalError {
    /// A guard or replacement expression referenced a name never bound by
    /// any pattern slot.
    UnboundVariable(String),
    /// A division's right operand evaluated to zero.
    DivisionByZero,
    /// An intermediate value fell outside the machine's numeric range.
    Overflow,
}

/// Mathematical value of an [`EvalError`].
pub enum EvalErrorView {
    UnboundVariable(Seq<char>),
    DivisionByZero,
    Overflow,
}

impl View for EvalError {
    type V = EvalErrorView;

    open spec fn view(&self) -> EvalErrorView {
        match self {
            EvalError::UnboundVariable(name) => EvalErrorView::UnboundVariable(name@),
            EvalError::DivisionByZero => EvalErrorView::DivisionByZero,
            EvalError::Overflow => EvalErrorView::Overflow,
        }
    }
}

/// A binary arithmetic operator.
#[derive(Clone, Copy, Debug)]
pub enum ArithOp {
    Add,
    Sub,
    Mul,
    Div,
}

/// An arithmetic expression: a numeric constant, a reference to a bound
/// name, or a binary operation on two subexpressions.
#[derive(Debug)]
pub enum ArithExpr {
    Const(i64),
    Var(String),
    Binary(ArithOp, Box<ArithExpr>, Box<ArithExpr>),
}

/// Mathematical value of an [`ArithExpr`].
pub enum ArithExprView {
    Const(int),
    Var(Seq<char>),
    Binary(ArithOp, Box<ArithExprView>, Box<ArithExprView>),
}

/// The mathematical value of an arithmetic expression.
pub open spec fn arith_expr_view(e: ArithExpr) -> ArithExprView
    decreases e,
{
    match e {
        ArithExpr::Const(value) => ArithExprView::Const(value as int),
        ArithExpr::Var(name) => ArithExprView::Var(name@),
        ArithExpr::Binary(op, a, b) => ArithExprView::Binary(
            op,
            Box::new(arith_expr_view(*a)),
            Box::new(arith_expr_view(*b)),
        ),
    }
}

impl View for ArithExpr {
    type V = ArithExprView;

    open spec fn view(&self) -> ArithExprView {
        arith_expr_view(*self)
    }
}

impl DeepView for ArithExpr {
    type V = ArithExprView;

    open spec fn deep_view(&self) -> ArithExprView {
        self.view()
    }
}

impl Clone for ArithExpr {
    /// A clone has the same mathematical value.
    fn clone(&self) -> (result: ArithExpr)
        ensures
            result@ == self@,
        decreases self,
    {
        match self {
            ArithExpr::Const(value) => ArithExpr::Const(*value),
            ArithExpr::Var(name) => ArithExpr::Var(name.clone()),
            ArithExpr::Binary(op, a, b) => ArithExpr::Binary(
                *op,
                Box::new((&**a).clone()),
                Box::new((&**b).clone()),
            ),
        }
    }
}

/// Whether a value lies within the machine's numeric range.
pub open spec fn in_numeric_range(value: int) -> bool {
    i64::MIN <= value <= i64::MAX
}

/// Division rounding toward zero, as the machine divides.
pub open spec fn div_toward_zero(x: int, d: int) -> int
    recommends
        d != 0,
{
    if x == 0 {
        0
    } else if x > 0 && d > 0 {
        x / d
    } else if x < 0 && d < 0 {
        (x * -1) / (d * -1)
    } else if x < 0 {
        ((x * -1) / d) * -1
    } else {
        (x / (d * -1)) * -1
    }
}

/// One binary arithmetic operation on evaluated operands: standard integer
/// arithmetic, where a result or quotient outside the machine's numeric
/// range is an overflow error and a zero divisor is a division error.
pub open spec fn spec_eval_op(op: ArithOp, x: int, y: int) -> Result<int, EvalErrorView> {
    match op {
        ArithOp::Add => if in_numeric_range(x + y) {
            Ok(x + y)
        } else {
            Err(EvalErrorView::Overflow)
        },
        ArithOp::Sub => if in_numeric_range(x - y) {
            Ok(x - y)
        } else {
            Err(EvalErrorView::Overflow)
        },
        ArithOp::Mul => if in_numeric_range(x * y) {
            Ok(x * y)
        } else {
            Err(EvalErrorView::Overflow)
        },
        ArithOp::Div => if y == 0 {
            Err(EvalErrorView::DivisionByZero)
        } else if in_numeric_range(div_toward_zero(x, y)) {
            Ok(div_toward_zero(x, y))
        } else {
            Err(EvalErrorView::Overflow)
        },
    }
}

/// The value of an arithmetic expression under an environment: constants
/// are themselves, a reference to an unbound name is an error, and a binary
/// operation evaluates its left operand first, propagating the first error.
pub open spec fn spec_eval_arith(e: ArithExprView, env: Map<Seq<char>, int>) -> Result<
    int,
    EvalErrorView,
>
    decreases e,
{
    match e {
        ArithExprView::Const(value) => Ok(value),
        ArithExprView::Var(name) => if env.contains_key(name) {
            Ok(env[name])
        } else {
            Err(EvalErrorView::UnboundVariable(name))
        },
        ArithExprView::Binary(op, a, b) => match spec_eval_arith(*a, env) {
            Err(err) => Err(err),
            Ok(x) => match spec_eval_arith(*b, env) {
                Err(err) => Err(err),
                Ok(y) => spec_eval_op(op, x, y),
            },
        },
    }
}

/// Applies one binary operator to machine values, reporting overflow and
/// division by zero as [`spec_eval_op`] describes.
fn apply_op(op: &ArithOp, x: i64, y: i64) -> (r: Result<i64, EvalError>)
    ensures
        match r {
            Ok(value) => spec_eval_op(*op, x as int, y as int) == Ok::<int, EvalErrorView>(
                value as int,
            ),
            Err(err) => spec_eval_op(*op, x as int, y as int) == Err::<int, EvalErrorView>(err@),
        },
{
    match op {
        ArithOp::Add => match x.checked_add(y) {
            Some(value) => Ok(value),
            None => Err(EvalError::Overflow),
        },
        ArithOp::Sub => match x.checked_sub(y) {
            Some(value) => Ok(value),
            None => Err(EvalError::Overflow),
        },
        ArithOp::Mul => match x.checked_mul(y) {
            Some(value) => Ok(value),
            None => Err(EvalError::Overflow),
        },
        ArithOp::Div => match x.checked_div(y) {
            Some(value) => Ok(value),
            None => if y == 0 {
                Err(EvalError::DivisionByZero)
            } else {
                Err(EvalError::Overflow)
            },
        },
    }
}

/// Evaluates an arithmetic expression under an environment, exactly as
/// [`spec_eval_arith`] describes.
pub fn eval_arith(expression: &ArithExpr, env: &Environment) -> (r: Result<i64, EvalError>)
    ensures
        match r {
            Ok(value) => spec_eval_arith(expression@, env@) == Ok::<int, EvalErrorView>(
                value as int,
            ),
            Err(err) => spec_eval_arith(expression@, env@) == Err::<int, EvalErrorView>(err@),
        },
    decreases expression,
{
    match expression {
        ArithExpr::Const(value) => Ok(*value),
        ArithExpr::Var(name) => match env.get(name) {
            Some(value) => Ok(value),
            None => Err(EvalError::UnboundVariable(name.clone())),
        },
        ArithExpr::Binary(op, a, b) => match eval_arith(&**a, env) {
            Err(err) => Err(err),
            Ok(x) => match eval_arith(&**b, env) {
                Err(err) => Err(err),
                Ok(y) => apply_op(op, x, y),
            },
        },
    }
}

/// A comparison operator between two arithmetic values.
#[derive(Clone, Copy, Debug)]
pub enum CompareOp {
    Equal,
    NotEqual,
    Less,
    LessEq,
    Greater,
    GreaterEq,
}

/// A guard expression: a literal truth value, a comparison of two
/// arithmetic expressions, or a boolean combination.
#[derive(Debug)]
pub enum BooleanExpr {
    Lit(bool),
    Compare(CompareOp, ArithExpr, ArithExpr),
    And(Box<BooleanExpr>, Box<BooleanExpr>),
    Or(Box<BooleanExpr>, Box<BooleanExpr>),
    Not(Box<BooleanExpr>),
}

/// Mathematical value of a [`BooleanExpr`].
pub enum BooleanExprView {
    Lit(bool),
    Compare(CompareOp, ArithExprView, ArithExprView),
    And(Box<BooleanExprView>, Box<BooleanExprView>),
    Or(Box<BooleanExprView>, Box<BooleanExprView>),
    Not(Box<BooleanExprView>),
}

/// The mathematical value of a guard expression.
pub open spec fn boolean_expr_view(e: BooleanExpr) -> BooleanExprView
    decreases e,
{
    match e {
        BooleanExpr::Lit(value) => BooleanExprView::Lit(value),
        BooleanExpr::Compare(op, a, b) => BooleanExprView::Compare(
            op,
            arith_expr_view(a),
            arith_expr_view(b),
        ),
        BooleanExpr::And(a, b) => BooleanExprView::And(
            Box::new(boolean_expr_view(*a)),
            Box::new(boolean_expr_view(*b)),
        ),
        BooleanExpr::Or(a, b) => BooleanExprView::Or(
            Box::new(boolean_expr_view(*a)),
            Box::new(boolean_expr_view(*b)),
        ),
        BooleanExpr::Not(a) => BooleanExprView::Not(Box::new(boolean_expr_view(*a))),
    }
}

impl View for BooleanExpr {
    type V = BooleanExprView;

    open spec fn view(&self) -> BooleanExprView {
        boolean_expr_view(*self)
    }
}

impl Clone for BooleanExpr {
    /// A clone has the same mathematical value.
    fn clone(&self) -> (result: BooleanExpr)
        ensures
            result@ == self@,
        decreases self,
    {
        match self {
            BooleanExpr::Lit(value) => BooleanExpr::Lit(*value),
            BooleanExpr::Compare(op, a, b) => BooleanExpr::Compare(*op, a.clone(), b.clone()),
            BooleanExpr::And(a, b) => BooleanExpr::And(
                Box::new((&**a).clone()),
                Box::new((&**b).clone()),
            ),
            BooleanExpr::Or(a, b) => BooleanExpr::Or(
                Box::new((&**a).clone()),
                Box::new((&**b).clone()),
            ),
            BooleanExpr::Not(a) => BooleanExpr::Not(Box::new((&**a).clone())),
        }
    }
}

impl DeepView for BooleanExpr {
    type V = BooleanExprView;

    open spec fn deep_view(&self) -> BooleanExprView {
        self.view()
    }
}

/// Copies an optional guard; the copy has the same mathematical value.
pub(crate) fn clone_guard(guard: &Option<BooleanExpr>) -> (r: Option<BooleanExpr>)
    ensures
        r.deep_view() == guard.deep_view(),
{
    match guard {
        Some(expression) => Some(expression.clone()),
        None => None,
    }
}

/// One comparison of two integers.
pub open spec fn spec_compare(op: CompareOp, x: int, y: int) -> bool {
    match op {
        CompareOp::Equal => x == y,
        CompareOp::NotEqual => x != y,
        CompareOp::Less => x < y,
        CompareOp::LessEq => x <= y,
        CompareOp::Greater => x > y,
        CompareOp::GreaterEq => x >= y,
    }
}

/// The truth value of a guard expression under an environment. A comparison
/// evaluates its left operand first; conjunction and disjunction evaluate
/// left to right and short-circuit; the first error propagates.
pub open spec fn spec_eval_bool(e: BooleanExprView, env: Map<Seq<char>, int>) -> Result<
    bool,
    EvalErrorView,
>
    decreases e,
{
    match e {
        BooleanExprView::Lit(value) => Ok(value),
        BooleanExprView::Compare(op, a, b) => match spec_eval_arith(a, env) {
            Err(err) => Err(err),
            Ok(x) => match spec_eval_arith(b, env) {
                Err(err) => Err(err),
                Ok(y) => Ok(spec_compare(op, x, y)),
            },
        },
        BooleanExprView::And(a, b) => match spec_eval_bool(*a, env) {
            Err(err) => Err(err),
            Ok(left) => if left {
                spec_eval_bool(*b, env)
            } else {
                Ok(false)
            },
        },
        BooleanExprView::Or(a, b) => match spec_eval_bool(*a, env) {
            Err(err) => Err(err),
            Ok(left) => if left {
                Ok(true)
            } else {
                spec_eval_bool(*b, env)
            },
        },
        BooleanExprView::Not(a) => match spec_eval_bool(*a, env) {
            Err(err) => Err(err),
            Ok(value) => Ok(!value),
        },
    }
}

/// Compares two machine values under one comparison operator.
fn compare_values(op: &CompareOp, x: i64, y: i64) -> (r: bool)
    ensures
        r == spec_compare(*op, x as int, y as int),
{
    match op {
        CompareOp::Equal => x == y,
        CompareOp::NotEqual => x != y,
        CompareOp::Less => x < y,
        CompareOp::LessEq => x <= y,
        CompareOp::Greater => x > y,
        CompareOp::GreaterEq => x >= y,
    }
}

/// Evaluates a guard expression under an environment, exactly as
/// [`spec_eval_bool`] describes.
pub fn eval_bool(expression: &BooleanExpr, env: &Environment) -> (r: Result<bool, EvalError>)
    ensures
        match r {
            Ok(value) => spec_eval_bool(expression@, env@) == Ok::<bool, EvalErrorView>(value),
            Err(err) => spec_eval_bool(expression@, env@) == Err::<bool, EvalErrorView>(err@),
        },
    decreases expression,
{
    match expression {
        BooleanExpr::Lit(value) => Ok(*value),
        BooleanExpr::Compare(op, a, b) => match eval_arith(a, env) {
            Err(err) => Err(err),
            Ok(x) => match eval_arith(b, env) {
                Err(err) => Err(err),
                Ok(y) => Ok(compare_values(op, x, y)),
            },
        },
        BooleanExpr::And(a, b) => match eval_bool(&**a, env) {
            Err(err) => Err(err),
            Ok(left) => if left {
                eval_bool(&**b, env)
            } else {
                Ok(false)
            },
        },
        BooleanExpr::Or(a, b) => match eval_bool(&**a, env) {
            Err(err) => Err(err),
            Ok(left) => if left {
                Ok(true)
            } else {
                eval_bool(&**b, env)
            },
        },
        BooleanExpr::Not(a) => match eval_bool(&**a, env) {
            Err(err) => Err(err),
            Ok(value) => Ok(!value),
        },
    }
}

/// A replacement symbol under construction: a label and one arithmetic
/// expression per parameter, evaluated to produce a concrete output symbol.
#[derive(Debug)]
pub struct SymbolExpression {
    pub label: String,
    pub params: Vec<ArithExpr>,
}

/// Mathematical value of a [`SymbolExpression`].
#[verifier::ext_equal]
pub struct SymbolExpressionView {
    pub label: Seq<char>,
    pub params: Seq<ArithExprView>,
}

impl View for SymbolExpression {
    type V = SymbolExpressionView;

    open spec fn view(&self) -> SymbolExpressionView {
        SymbolExpressionView { label: self.label@, params: self.params.deep_view() }
    }
}

impl DeepView for SymbolExpression {
    type V = SymbolExpressionView;

    open spec fn deep_view(&self) -> SymbolExpressionView {
        self.view()
    }
}

impl Clone for SymbolExpression {
    /// A clone has the same mathematical value.
    fn clone(&self) -> (result: SymbolExpression)
        ensures
            result@ == self@,
    {
        let mut params: Vec<ArithExpr> = Vec::new();
        let mut i: usize = 0;
        while i < self.params.len()
            invariant
                i <= self.params.len(),
                params.deep_view() == self.params.deep_view().take(i as int),
            decreases self.params.len() - i,
        {
            proof {
                assert(self.params.deep_view().len() == self.params.len());
                assert(params.deep_view().len() == i);
                assert(params@.len() == i);
            }
            let ghost prev = params.deep_view();
            let ghost prev_seq = params@;
            params.push(self.params[i].clone());
            proof {
                assert(params@.len() == i + 1);
                assert(params@[i as int]@ == self.params@[i as int]@);
                assert forall|k: int|
                    0 <= k < i + 1 implies params.deep_view()[k] == self.params.deep_view().take(
                    i + 1,
                )[k] by {
                    assert(params.deep_view()[k] == params@[k]@);
                    if k < i {
                        assert(params@[k] == prev_seq[k]);
                        assert(prev[k] == prev_seq[k]@);
                        assert(prev[k] == self.params.deep_view().take(i as int)[k]);
                    }
                }
                assert(params.deep_view() =~= self.params.deep_view().take(i + 1));
            }
            i = i + 1;
        }
        proof {
            assert(params.deep_view() =~= self.params.deep_view());
        }
        let result = SymbolExpression { label: self.label.clone(), params };
        proof {
            assert(result@ =~= self@);
        }
        result
    }
}

/// Copies a replacement expression list; the copy has the same mathematical
/// value.
pub(crate) fn clone_expressions(v: &Vec<SymbolExpression>) -> (r: Vec<SymbolExpression>)
    ensures
        r.deep_view() == v.deep_view(),
{
    let mut r: Vec<SymbolExpression> = Vec::new();
    let mut i: usize = 0;
    while i < v.len()
        invariant
            i <= v.len(),
            r.deep_view() == v.deep_view().take(i as int),
        decreases v.len() - i,
    {
        proof {
            assert(v.deep_view().len() == v.len());
            assert(r.deep_view().len() == i);
            assert(r@.len() == i);
        }
        let ghost prev = r.deep_view();
        let ghost prev_seq = r@;
        r.push(v[i].clone());
        proof {
            assert(r@.len() == i + 1);
            assert(r@[i as int]@ == v@[i as int]@);
            assert forall|k: int| 0 <= k < i + 1 implies r.deep_view()[k] == v.deep_view().take(
                i + 1,
            )[k] by {
                assert(r.deep_view()[k] == r@[k]@);
                if k < i {
                    assert(r@[k] == prev_seq[k]);
                    assert(prev[k] == prev_seq[k]@);
                    assert(prev[k] == v.deep_view().take(i as int)[k]);
                }
            }
            assert(r.deep_view() =~= v.deep_view().take(i + 1));
        }
        i = i + 1;
    }
    proof {
        assert(r.deep_view() =~= v.deep_view());
    }
    r
}

/// The values of the replacement parameter expressions from index `i` on,
/// evaluated left to right; the first error propagates.
pub open spec fn spec_eval_params(
    exprs: Seq<ArithExprView>,
    i: int,
    env: Map<Seq<char>, int>,
) -> Result<Seq<int>, EvalErrorView>
    decreases exprs.len() - i,
{
    if i < 0 || i >= exprs.len() {
        Ok(Seq::empty())
    } else {
        match spec_eval_arith(exprs[i], env) {
            Err(err) => Err(err),
            Ok(value) => match spec_eval_params(exprs, i + 1, env) {
                Err(err) => Err(err),
                Ok(rest) => Ok(seq![value] + rest),
            },
        }
    }
}

/// The output symbol a replacement expression produces under an
/// environment: the expression's label carrying its evaluated parameters.
pub open spec fn spec_eval_symbol(e: SymbolExpressionView, env: Map<Seq<char>, int>) -> Result<
    SymbolView,
    EvalErrorView,
> {
    match spec_eval_params(e.params, 0, env) {
        Err(err) => Err(err),
        Ok(values) => Ok(SymbolView { label: e.label, params: values }),
    }
}

/// Evaluates the parameter expressions from index `i` on, mirroring the
/// recursion of [`spec_eval_params`].
fn eval_params_from(exprs: &Vec<ArithExpr>, i: usize, env: &Environment) -> (r: Result<
    Vec<i64>,
    EvalError,
>)
    requires
        i <= exprs.len(),
    ensures
        match r {
            Ok(values) => spec_eval_params(exprs.deep_view(), i as int, env@) == Ok::<
                _,
                EvalErrorView,
            >(param_values(values@)),
            Err(err) => spec_eval_params(exprs.deep_view(), i as int, env@) == Err::<
                Seq<int>,
                EvalErrorView,
            >(err@),
        },
    decreases exprs.len() - i,
{
    if i == exprs.len() {
        let values: Vec<i64> = Vec::new();
        proof {
            assert(param_values(values@) =~= Seq::<int>::empty());
        }
        return Ok(values);
    }
    proof {
        assert(exprs.deep_view()[i as int] == exprs@[i as int]@);
    }
    match eval_arith(&exprs[i], env) {
        Err(err) => Err(err),
        Ok(value) => match eval_params_from(exprs, i + 1, env) {
            Err(err) => Err(err),
            Ok(rest) => {
                let ghost rest_seq = rest@;
                let mut values = rest;
                values.insert(0, value);
                proof {
                    assert(values@ == rest_seq.insert(0, value));
                    assert(param_values(values@) =~= seq![value as int] + param_values(rest_seq));
                }
                Ok(values)
            },
        },
    }
}

/// A declarative production: an optional predecessor pattern, the target
/// pattern, and an optional successor pattern, with an optional guard and
/// the replacement expressions emitted on a match.
pub struct Production {
    pub pattern: (Option<SymbolPattern>, SymbolPattern, Option<SymbolPattern>),
    pub guard: Option<BooleanExpr>,
    pub replacement_expression: Vec<SymbolExpression>,
}

/// Mathematical value of a declarative [`Production`].
#[verifier::ext_equal]
pub struct ProductionView {
    pub predecessor: Option<SymbolPatternView>,
    pub target: SymbolPatternView,
    pub successor: Option<SymbolPatternView>,
    pub guard: Option<BooleanExprView>,
    pub replacement: Seq<SymbolExpressionView>,
}

impl View for Production {
    type V = ProductionView;

    open spec fn view(&self) -> ProductionView {
        ProductionView {
            predecessor: self.pattern.0.deep_view(),
            target: self.pattern.1@,
            successor: self.pattern.2.deep_view(),
            guard: self.guard.deep_view(),
            replacement: self.replacement_expression.deep_view(),
        }
    }
}

impl DeepView for Production {
    type V = ProductionView;

    open spec fn deep_view(&self) -> ProductionView {
        self.view()
    }
}

/// The primitive shape a declarative production compiles to, selected by
/// which of its context patterns are present.
pub open spec fn compile_production(p: ProductionView) -> crate::compiled::ProductionView {
    match (p.predecessor, p.successor) {
        (None, None) => crate::compiled::ProductionView::ContextFree {
            target: p.target,
            guard: p.guard,
            replacement: p.replacement,
        },
        (Some(before), None) => crate::compiled::ProductionView::PriorContext {
            predecessor: before,
            target: p.target,
            guard: p.guard,
            replacement: p.replacement,
        },
        (None, Some(after)) => crate::compiled::ProductionView::FollowingContext {
            target: p.target,
            successor: after,
            guard: p.guard,
            replacement: p.replacement,
        },
        (Some(before), Some(after)) => crate::compiled::ProductionView::SurroundingContext {
            predecessor: before,
            target: p.target,
            successor: after,
            guard: p.guard,
            replacement: p.replacement,
        },
    }
}

/// The compiled forms of a declarative production list, in order.
pub open spec fn compile_productions(ps: Seq<ProductionView>) -> Seq<
    crate::compiled::ProductionView,
> {
    ps.map_values(|p: ProductionView| compile_production(p))
}

/// Compiles one declarative production into its primitive shape.
fn compile_one(production: &Production) -> (r: crate::compiled::Production)
    ensures
        r@ == compile_production(production@),
{
    let target = production.pattern.1.clone();
    let guard = clone_guard(&production.guard);
    let replacement = clone_expressions(&production.replacement_expression);
    match (&production.pattern.0, &production.pattern.2) {
        (None, None) => crate::compiled::Production::ContextFree { target, guard, replacement },
        (Some(before), None) => crate::compiled::Production::PriorContext {
            predecessor: before.clone(),
            target,
            guard,
            replacement,
        },
        (None, Some(after)) => crate::compiled::Production::FollowingContext {
            target,
            successor: after.clone(),
            guard,
            replacement,
        },
        (Some(before), Some(after)) => crate::compiled::Production::SurroundingContext {
            predecessor: before.clone(),
            target,
            successor: after.clone(),
            guard,
            replacement,
        },
    }
}

/// Compiles a declarative production list and packages it with an initial
/// generation, validating the grammar's arity consistency exactly as
/// [`crate::compiled::LSystem::new`] does over the compiled forms.
pub fn new(initial: Vec<Symbol>, productions: Vec<Production>) -> (r: Result<
    crate::compiled::LSystem,
    crate::compiled::GrammarError,
>)
    ensures
        match r {
            Ok(system) => crate::compiled::first_conflict(
                crate::compiled::system_mentions(
                    initial.deep_view(),
                    compile_productions(productions.deep_view()),
                ),
                0,
            ) is None && crate::compiled::arity_consistent(
                crate::compiled::system_mentions(
                    initial.deep_view(),
                    compile_productions(productions.deep_view()),
                ),
            ) && system.symbols.deep_view() == initial.deep_view()
                && system.productions.deep_view() == compile_productions(productions.deep_view()),
            Err(err) => crate::compiled::first_conflict(
                crate::compiled::system_mentions(
                    initial.deep_view(),
                    compile_productions(productions.deep_view()),
                ),
                0,
            ) is Some && err@ == crate::compiled::first_conflict_label(
                crate::compiled::system_mentions(
                    initial.deep_view(),
                    compile_productions(productions.deep_view()),
                ),
            ),
        },
{
    let mut compiled_list: Vec<crate::compiled::Production> = Vec::new();
    let mut i: usize = 0;
    while i < productions.len()
        invariant
            i <= productions.len(),
            compiled_list.deep_view() == compile_productions(productions.deep_view()).take(
                i as int,
            ),
        decreases productions.len() - i,
    {
        proof {
            assert(compile_productions(productions.deep_view()).len() == productions.len());
            assert(compiled_list.deep_view().len() == i);
            assert(compiled_list@.len() == i);
        }
        let ghost prev = compiled_list.deep_view();
        let ghost prev_seq = compiled_list@;
        compiled_list.push(compile_one(&productions[i]));
        proof {
            assert(compiled_list@.len() == i + 1);
            assert(compiled_list@[i as int]@ == compile_production(productions@[i as int]@));
            assert(productions.deep_view()[i as int] == productions@[i as int]@);
            assert forall|k: int|
                0 <= k < i + 1 implies compiled_list.deep_view()[k] == compile_productions(
                productions.deep_view(),
            ).take(i + 1)[k] by {
                assert(compiled_list.deep_view()[k] == compiled_list@[k]@);
                if k < i {
                    assert(compiled_list@[k] == prev_seq[k]);
                    assert(prev[k] == prev_seq[k]@);
                    assert(prev[k] == compile_productions(productions.deep_view()).take(
                        i as int,
                    )[k]);
                }
            }
            assert(compiled_list.deep_view() =~= compile_productions(productions.deep_view()).take(
                i + 1,
            ));
        }
        i = i + 1;
    }
    proof {
        assert(compiled_list.deep_view() =~= compile_productions(productions.deep_view()));
    }
    crate::compiled::LSystem::new(initial, compiled_list)
}

/// Evaluates a replacement expression to a concrete output symbol, exactly
/// as [`spec_eval_symbol`] describes.
pub fn eval(expression: &SymbolExpression, env: &Environment) -> (r: Result<Symbol, EvalError>)
    ensures
        match r {
            Ok(symbol) => spec_eval_symbol(expression@, env@) == Ok::<_, EvalErrorView>(symbol@),
            Err(err) => spec_eval_symbol(expression@, env@) == Err::<SymbolView, EvalErrorView>(
                err@,
            ),
        },
{
    match eval_params_from(&expression.params, 0, env) {
        Err(err) => Err(err),
        Ok(values) => {
            let symbol = Symbol { label: expression.label.clone(), params: values };
            proof {
                assert(symbol@ =~= SymbolView {
                    label: expression@.label,
                    params: param_values(symbol.params@),
                });
            }
            Ok(symbol)
        },
    }
}

} // verus!
