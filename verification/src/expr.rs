//! Livecode expressions and the identifiers they read: the variables a
//! controller can feed and the functions an expression calls.
use vstd::prelude::*;
use vstd::seq_lib::seq_to_set_is_finite;
use evalexpr::{Context, ContextWithMutableVariables, EvalexprError, HashMapContext, IterateVariablesContext, Node, Value};
use crate::nested::LivecodeError;
use crate::text::{str_eq, string_views};

verus! {

/// An expression tree of the `evalexpr` crate.
#[verifier::external_type_specification]
#[verifier::external_body]
pub struct ExNode(Node);

/// An error of the `evalexpr` crate.
#[verifier::external_type_specification]
#[verifier::external_body]
pub struct ExEvalexprError(EvalexprError);

/// Whether `evalexpr` parses a source text into an expression tree.
pub uninterp spec fn expr_parses(src: Seq<char>) -> bool;

/// The variable identifiers of the tree parsed from a source text, one per
/// occurrence, in the order the tree is walked.
pub uninterp spec fn expr_variable_names(src: Seq<char>) -> Seq<Seq<char>>;

/// The function identifiers of the tree parsed from a source text, one per
/// occurrence, in the order the tree is walked.
pub uninterp spec fn expr_function_names(src: Seq<char>) -> Seq<Seq<char>>;

/// Parses a source text with `evalexpr::build_operator_tree`; trusted to
/// succeed exactly on the texts that `expr_parses` holds of.
#[verifier::external_body]
fn parse_tree(src: &str) -> (r: Result<Node, EvalexprError>)
    ensures
        r is Ok <==> expr_parses(src@),
{
    evalexpr::build_operator_tree(src)
}

/// An expression together with the text it was parsed from, so that it can
/// be written back out as it was read.
#[derive(Debug)]
pub struct ExprNode {
    src: String,
    node: Node,
}

impl View for ExprNode {
    type V = Seq<char>;

    /// An expression is known by its source text; its tree is always the
    /// one parsed from that text.
    closed spec fn view(&self) -> Seq<char> {
        self.src@
    }
}

/// Lists the variable identifiers of an expression's tree with
/// `Node::iter_variable_identifiers`; trusted to give `expr_variable_names`
/// of its source text, which holds because the only constructor parses the
/// tree from that text.
#[verifier::external_body]
fn tree_variable_names(e: &ExprNode) -> (r: Vec<String>)
    ensures
        string_views(r@) == expr_variable_names(e@),
{
    e.node.iter_variable_identifiers().map(|s| s.to_string()).collect()
}

/// Lists the function identifiers of an expression's tree with
/// `Node::iter_function_identifiers`; trusted like `tree_variable_names`.
#[verifier::external_body]
fn tree_function_names(e: &ExprNode) -> (r: Vec<String>)
    ensures
        string_views(r@) == expr_function_names(e@),
{
    e.node.iter_function_identifiers().map(|s| s.to_string()).collect()
}

impl ExprNode {
    /// Parses an expression, keeping its text.
    pub fn from_src(src: String) -> (r: Result<ExprNode, LivecodeError>)
        ensures
            r is Ok <==> expr_parses(src@),
            r matches Ok(e) ==> e@ == src@,
            r matches Err(e) ==> (e matches LivecodeError::EvalExpr(m, _) && m@ == "error parsing expr"@),
    {
        match parse_tree(src.as_str()) {
            Ok(node) => Ok(ExprNode { src, node }),
            Err(err) => Err(LivecodeError::EvalExpr("error parsing expr".to_string(), err)),
        }
    }

    /// The text the expression was parsed from.
    pub fn src(&self) -> (r: &str)
        ensures
            r@ == self@,
    {
        self.src.as_str()
    }
}

/// Drops each item that equals the one before it, so that runs of equal
/// items keep one.
pub open spec fn dedup_adjacent(s: Seq<Seq<char>>) -> Seq<Seq<char>>
    decreases s.len(),
{
    if s.len() <= 1 {
        s
    } else {
        let r = dedup_adjacent(s.drop_last());
        if s.last() == s[s.len() - 2] { r } else { r.push(s.last()) }
    }
}

/// A run-collapsed sequence ends with the last item of its input.
pub proof fn lemma_dedup_last(s: Seq<Seq<char>>)
    requires
        s.len() > 0,
    ensures
        dedup_adjacent(s).len() > 0,
        dedup_adjacent(s).last() == s.last(),
    decreases s.len(),
{
    if s.len() > 1 {
        lemma_dedup_last(s.drop_last());
    }
}

/// No two neighbours of a run-collapsed sequence are equal.
pub proof fn law_dedup_no_adjacent_repeats(s: Seq<Seq<char>>)
    ensures
        forall|i: int| 0 <= i < dedup_adjacent(s).len() - 1
            ==> #[trigger] dedup_adjacent(s)[i] != dedup_adjacent(s)[i + 1],
    decreases s.len(),
{
    if s.len() > 1 {
        law_dedup_no_adjacent_repeats(s.drop_last());
        lemma_dedup_last(s.drop_last());
        let r = dedup_adjacent(s.drop_last());
        if s.last() != s[s.len() - 2] {
            assert(s.drop_last().last() == s[s.len() - 2]);
            assert forall|i: int| 0 <= i < r.push(s.last()).len() - 1
                implies #[trigger] r.push(s.last())[i] != r.push(s.last())[i + 1] by {
                if i < r.len() - 1 {
                    assert(r[i] != r[i + 1]);
                }
            }
        }
    }
}

/// Collapses runs of equal names to one.
fn dedup_names(names: Vec<String>) -> (r: Vec<String>)
    ensures
        string_views(r@) == dedup_adjacent(string_views(names@)),
{
    let ghost all = string_views(names@);
    let mut out: Vec<String> = Vec::new();
    let mut i: usize = 0;
    while i < names.len()
        invariant
            i <= names@.len(),
            all == string_views(names@),
            string_views(out@) == dedup_adjacent(all.take(i as int)),
        decreases names@.len() - i,
    {
        proof {
            assert(all.take(i as int + 1).drop_last() =~= all.take(i as int));
            if i > 0 {
                lemma_dedup_last(all.take(i as int));
            }
        }
        let keep = if i == 0 {
            true
        } else {
            !str_eq(names[i - 1].as_str(), names[i].as_str())
        };
        if keep {
            out.push(names[i].clone());
            proof {
                assert(string_views(out@) =~= dedup_adjacent(all.take(i as int)).push(all[i as int]));
            }
        }
        i = i + 1;
    }
    proof { assert(all.take(names@.len() as int) =~= all); }
    out
}

/// An identifier of a variable that an expression reads.
#[derive(Debug, Clone, PartialEq, PartialOrd, Eq, Ord, Hash)]
pub struct LivecodeVariable {
    pub name: String,
}

impl LivecodeVariable {
    /// The variable with the given name.
    pub fn from_str(name: &str) -> (r: LivecodeVariable)
        ensures
            r.name@ == name@,
    {
        LivecodeVariable { name: name.to_string() }
    }
}

/// An identifier of a function that an expression calls.
#[derive(Debug, Clone, PartialEq, PartialOrd, Eq, Ord, Hash)]
pub struct LivecodeFunction {
    name: String,
}

impl View for LivecodeFunction {
    type V = Seq<char>;

    closed spec fn view(&self) -> Seq<char> {
        self.name@
    }
}

impl LivecodeFunction {
    /// The function with the given name.
    pub fn from_str(name: &str) -> (r: LivecodeFunction)
        ensures
            r@ == name@,
    {
        LivecodeFunction { name: name.to_string() }
    }

    /// The function's name.
    pub fn name(&self) -> (r: &str)
        ensures
            r@ == self@,
    {
        self.name.as_str()
    }
}

/// The names of a list of variables.
pub open spec fn variable_views(v: Seq<LivecodeVariable>) -> Seq<Seq<char>> {
    v.map_values(|x: LivecodeVariable| x.name@)
}

/// The names of a list of functions.
pub open spec fn function_views(v: Seq<LivecodeFunction>) -> Seq<Seq<char>> {
    v.map_values(|x: LivecodeFunction| x@)
}

/// Turns names into variables, one for one.
fn to_variables(names: Vec<String>) -> (r: Vec<LivecodeVariable>)
    ensures
        variable_views(r@) == string_views(names@),
{
    let mut out: Vec<LivecodeVariable> = Vec::new();
    let mut i: usize = 0;
    while i < names.len()
        invariant
            i <= names@.len(),
            variable_views(out@) == string_views(names@).take(i as int),
        decreases names@.len() - i,
    {
        let ghost prev = out@;
        let v = LivecodeVariable::from_str(names[i].as_str());
        out.push(v);
        proof {
            assert(string_views(names@)[i as int] == names@[i as int]@);
            assert(string_views(names@).take(i as int + 1) =~= string_views(names@).take(i as int).push(names@[i as int]@));
            assert(variable_views(prev.push(v)) =~= variable_views(prev).push(names@[i as int]@));
        }
        i = i + 1;
    }
    proof { assert(string_views(names@).take(names@.len() as int) =~= string_views(names@)); }
    out
}

/// Turns names into functions, one for one.
fn to_functions(names: Vec<String>) -> (r: Vec<LivecodeFunction>)
    ensures
        function_views(r@) == string_views(names@),
{
    let mut out: Vec<LivecodeFunction> = Vec::new();
    let mut i: usize = 0;
    while i < names.len()
        invariant
            i <= names@.len(),
            function_views(out@) == string_views(names@).take(i as int),
        decreases names@.len() - i,
    {
        let ghost prev = out@;
        let v = LivecodeFunction::from_str(names[i].as_str());
        out.push(v);
        proof {
            assert(string_views(names@)[i as int] == names@[i as int]@);
            assert(string_views(names@).take(i as int + 1) =~= string_views(names@).take(i as int).push(names@[i as int]@));
            assert(function_views(prev.push(v)) =~= function_views(prev).push(names@[i as int]@));
        }
        i = i + 1;
    }
    proof { assert(string_views(names@).take(names@.len() as int) =~= string_views(names@)); }
    out
}

/// Values that can say which variables and functions their expressions use.
pub trait GetLivecodeIdentifiers {
    /// The names of the variables read, in order.
    spec fn variable_names(&self) -> Seq<Seq<char>>;

    /// The names of the functions called, in order.
    spec fn function_names(&self) -> Seq<Seq<char>>;

    fn variable_identifiers(&self) -> (r: Vec<LivecodeVariable>)
        ensures
            variable_views(r@) == self.variable_names();

    fn function_identifiers(&self) -> (r: Vec<LivecodeFunction>)
        ensures
            function_views(r@) == self.function_names();
}

impl GetLivecodeIdentifiers for ExprNode {
    /// The variables of the tree, with runs of one name collapsed.
    open spec fn variable_names(&self) -> Seq<Seq<char>> {
        dedup_adjacent(expr_variable_names(self@))
    }

    /// The functions of the tree, with runs of one name collapsed.
    open spec fn function_names(&self) -> Seq<Seq<char>> {
        dedup_adjacent(expr_function_names(self@))
    }

    fn variable_identifiers(&self) -> (r: Vec<LivecodeVariable>) {
        to_variables(dedup_names(tree_variable_names(self)))
    }

    fn function_identifiers(&self) -> (r: Vec<LivecodeFunction>) {
        to_functions(dedup_names(tree_function_names(self)))
    }
}

impl GetLivecodeIdentifiers for String {
    /// Plain text reads nothing.
    open spec fn variable_names(&self) -> Seq<Seq<char>> {
        Seq::empty()
    }

    open spec fn function_names(&self) -> Seq<Seq<char>> {
        Seq::empty()
    }

    fn variable_identifiers(&self) -> (r: Vec<LivecodeVariable>) {
        Vec::new()
    }

    fn function_identifiers(&self) -> (r: Vec<LivecodeFunction>) {
        Vec::new()
    }
}

impl<T: GetLivecodeIdentifiers> GetLivecodeIdentifiers for Option<T> {
    /// What the value reads, if there is one.
    open spec fn variable_names(&self) -> Seq<Seq<char>> {
        match self {
            Some(x) => x.variable_names(),
            None => Seq::empty(),
        }
    }

    open spec fn function_names(&self) -> Seq<Seq<char>> {
        match self {
            Some(x) => x.function_names(),
            None => Seq::empty(),
        }
    }

    fn variable_identifiers(&self) -> (r: Vec<LivecodeVariable>) {
        match self {
            Some(x) => x.variable_identifiers(),
            None => Vec::new(),
        }
    }

    fn function_identifiers(&self) -> (r: Vec<LivecodeFunction>) {
        match self {
            Some(x) => x.function_identifiers(),
            None => Vec::new(),
        }
    }
}

impl<T: GetLivecodeIdentifiers> GetLivecodeIdentifiers for Vec<T> {
    /// What each item reads, one item after the other.
    open spec fn variable_names(&self) -> Seq<Seq<char>> {
        self@.map_values(|x: T| x.variable_names()).flatten()
    }

    open spec fn function_names(&self) -> Seq<Seq<char>> {
        self@.map_values(|x: T| x.function_names()).flatten()
    }

    fn variable_identifiers(&self) -> (r: Vec<LivecodeVariable>) {
        let ghost parts = self@.map_values(|x: T| x.variable_names());
        let mut out: Vec<LivecodeVariable> = Vec::new();
        let mut i: usize = 0;
        while i < self.len()
            invariant
                i <= self@.len(),
                parts == self@.map_values(|x: T| x.variable_names()),
                variable_views(out@) == parts.take(i as int).flatten(),
            decreases self@.len() - i,
        {
            let mut more = self[i].variable_identifiers();
            proof {
                assert(parts.take(i as int + 1) =~= parts.take(i as int).push(parts[i as int]));
                parts.take(i as int).lemma_flatten_push(parts[i as int]);
                assert(variable_views(out@ + more@) =~= variable_views(out@) + variable_views(more@));
            }
            out.append(&mut more);
            i = i + 1;
        }
        proof { assert(parts.take(self@.len() as int) =~= parts); }
        out
    }

    fn function_identifiers(&self) -> (r: Vec<LivecodeFunction>) {
        let ghost parts = self@.map_values(|x: T| x.function_names());
        let mut out: Vec<LivecodeFunction> = Vec::new();
        let mut i: usize = 0;
        while i < self.len()
            invariant
                i <= self@.len(),
                parts == self@.map_values(|x: T| x.function_names()),
                function_views(out@) == parts.take(i as int).flatten(),
            decreases self@.len() - i,
        {
            let mut more = self[i].function_identifiers();
            proof {
                assert(parts.take(i as int + 1) =~= parts.take(i as int).push(parts[i as int]));
                parts.take(i as int).lemma_flatten_push(parts[i as int]);
                assert(function_views(out@ + more@) =~= function_views(out@) + function_views(more@));
            }
            out.append(&mut more);
            i = i + 1;
        }
        proof { assert(parts.take(self@.len() as int) =~= parts); }
        out
    }
}

/// An evaluation context of the `evalexpr` crate: named values and
/// functions.
#[verifier::external_type_specification]
#[verifier::external_body]
pub struct ExHashMapContext(HashMapContext);

/// A value of the `evalexpr` crate.
#[verifier::external_type_specification]
#[verifier::external_body]
pub struct ExValue(Value);

/// The variables a context holds: each name with its value.
pub uninterp spec fn context_values(ctx: HashMapContext) -> Map<Seq<char>, Value>;

/// The names of the variables a context holds.
pub open spec fn context_variable_names(ctx: HashMapContext) -> Set<Seq<char>> {
    context_values(ctx).dom()
}

/// Whether a context holds a variable, with `Context::get_value`; trusted
/// to say whether the name is among the context's variables.
#[verifier::external_body]
fn has_variable(ctx: &HashMapContext, identifier: &str) -> (r: bool)
    ensures
        r == context_values(*ctx).contains_key(identifier@),
{
    ctx.get_value(identifier).is_some()
}

/// The names of the variables of a context, with
/// `IterateVariablesContext::iter_variable_names`; trusted to hold exactly
/// the context's names, in an order nothing is claimed of.
#[verifier::external_body]
fn variable_names(ctx: &HashMapContext) -> (r: Vec<String>)
    ensures
        string_views(r@).to_set() == context_values(*ctx).dom(),
{
    ctx.iter_variable_names().collect()
}

/// Sets a variable with `ContextWithMutableVariables::set_value`, trusted
/// as its source reads: a name the context does not hold is always added;
/// on success the name holds exactly `value`; a failure leaves the context
/// as it was and happens only for a name already held (when its value has
/// another type; the types of values are not modelled here).
#[verifier::external_body]
fn set_variable(ctx: &mut HashMapContext, identifier: String, value: Value) -> (r: Result<(), EvalexprError>)
    ensures
        !context_values(*old(ctx)).contains_key(identifier@) ==> r is Ok,
        r is Ok ==> context_values(*final(ctx)) == context_values(*old(ctx)).insert(identifier@, value),
        r is Err ==> context_values(*old(ctx)).contains_key(identifier@)
            && context_values(*final(ctx)) == context_values(*old(ctx)),
{
    ctx.set_value(identifier, value)
}

/// A copy of a value, with its derived `Clone`; trusted to give an equal
/// value.
#[verifier::external_body]
fn clone_value(v: &Value) -> (r: Value)
    ensures
        r == *v,
{
    v.clone()
}

/// `k` underscores put before a name.
pub open spec fn underscored(id: Seq<char>, k: nat) -> Seq<char> {
    Seq::new(k, |i: int| '_') + id
}

/// Whether `k` underscores give the first name of the form `_.._id` that
/// the set does not hold.
pub open spec fn first_free(names: Set<Seq<char>>, id: Seq<char>, k: nat) -> bool {
    &&& !names.contains(underscored(id, k))
    &&& forall|j: nat| j < k ==> names.contains(#[trigger] underscored(id, j))
}

/// The first name of the form `_.._id` that the set does not hold.
pub open spec fn free_name(names: Set<Seq<char>>, id: Seq<char>) -> Seq<char> {
    underscored(id, choose|k: nat| first_free(names, id, k))
}

/// Only one count of underscores gives the first free name.
pub proof fn lemma_first_free_unique(names: Set<Seq<char>>, id: Seq<char>, a: nat, b: nat)
    requires
        first_free(names, id, a),
        first_free(names, id, b),
    ensures
        a == b,
{
    if a < b {
        assert(names.contains(underscored(id, a)));
    } else if b < a {
        assert(names.contains(underscored(id, b)));
    }
}

/// A finite set that holds the first `k` underscored forms of a name has
/// at least `k` elements.
proof fn lemma_underscored_count(names: Set<Seq<char>>, id: Seq<char>, k: nat)
    requires
        names.finite(),
        forall|j: nat| j < k ==> names.contains(#[trigger] underscored(id, j)),
    ensures
        k <= names.len(),
    decreases k,
{
    if k > 0 {
        let last = underscored(id, (k - 1) as nat);
        let rest = names.remove(last);
        assert forall|j: nat| j < (k - 1) as nat implies rest.contains(#[trigger] underscored(id, j)) by {
            assert(names.contains(underscored(id, j)));
            assert(underscored(id, j).len() != last.len());
        }
        lemma_underscored_count(rest, id, (k - 1) as nat);
        assert(names.contains(last));
    }
}

/// Sets a variable under its name, or, when the context already holds that
/// name, under the name with as many underscores put before it as it takes
/// to find one the context does not hold.
pub fn add_variable_or_prefix_it(identifier: &str, value: Value, ctx: &mut HashMapContext)
    ensures
        exists|k: nat| first_free(context_variable_names(*old(ctx)), identifier@, k),
        context_values(*final(ctx)) == context_values(*old(ctx)).insert(
            free_name(context_variable_names(*old(ctx)), identifier@), value),
{
    let ghost names = context_variable_names(*ctx);
    let known = variable_names(ctx);
    let count = known.len();
    proof {
        seq_to_set_is_finite(string_views(known@));
        string_views(known@).lemma_cardinality_of_set();
    }
    let mut name = identifier.to_string();
    let mut k: usize = 0;
    proof { assert(underscored(identifier@, 0) =~= identifier@); }
    while has_variable(ctx, name.as_str())
        invariant
            names == context_variable_names(*ctx),
            names.finite(),
            names.len() <= count,
            k <= count,
            name@ == underscored(identifier@, k as nat),
            forall|j: nat| j < k ==> names.contains(#[trigger] underscored(identifier@, j)),
        decreases count - k,
    {
        proof {
            assert forall|j: nat| j < (k + 1) as nat implies names.contains(#[trigger] underscored(identifier@, j)) by {
                if j == k as nat {
                    assert(names.contains(name@));
                }
            }
            lemma_underscored_count(names, identifier@, (k + 1) as nat);
        }
        name = crate::text::concat_str("_", name.as_str());
        proof {
            reveal_strlit("_");
            assert(name@ =~= underscored(identifier@, (k + 1) as nat));
        }
        k = k + 1;
    }
    proof {
        assert(first_free(names, identifier@, k as nat));
        lemma_first_free_unique(names, identifier@, k as nat, choose|j: nat| first_free(names, identifier@, j));
    }
    let r = set_variable(ctx, name, value);
    assert(r is Ok);
}

/// Named values to put into an evaluation context.
#[derive(Debug)]
pub struct ExprWorldContextValues(pub Vec<(String, Value)>);

/// The names of a list of named values.
pub open spec fn value_names(v: Seq<(String, Value)>) -> Seq<Seq<char>> {
    v.map_values(|p: (String, Value)| p.0@)
}

impl ExprWorldContextValues {
    pub fn new(v: Vec<(String, Value)>) -> (r: Self)
        ensures
            r.0@ == v@,
    {
        ExprWorldContextValues(v)
    }

    /// Adds a named value at the end.
    pub fn set_val(&mut self, name: &str, val: Value)
        ensures
            final(self).0@.len() == old(self).0@.len() + 1,
            final(self).0@.take(old(self).0@.len() as int) == old(self).0@,
            final(self).0@.last().0@ == name@,
            final(self).0@.last().1 == val,
    {
        let ghost before = self.0@;
        self.0.push((name.to_string(), val));
        proof { assert(self.0@.take(before.len() as int) =~= before); }
    }
}

/// The variables after setting each named value in order, a later value
/// taking the place of an earlier one of the same name.
pub open spec fn with_values(m: Map<Seq<char>, Value>, v: Seq<(String, Value)>) -> Map<Seq<char>, Value>
    decreases v.len(),
{
    if v.len() == 0 {
        m
    } else {
        with_values(m, v.drop_last()).insert(v.last().0@, v.last().1)
    }
}

/// Setting named values adds exactly their names.
pub proof fn lemma_with_values_names(m: Map<Seq<char>, Value>, v: Seq<(String, Value)>)
    ensures
        with_values(m, v).dom() == m.dom() + value_names(v).to_set(),
    decreases v.len(),
{
    if v.len() == 0 {
        assert(value_names(v).to_set() =~= Set::<Seq<char>>::empty());
        assert(m.dom() + Set::<Seq<char>>::empty() =~= m.dom());
    } else {
        lemma_with_values_names(m, v.drop_last());
        assert(value_names(v) =~= value_names(v.drop_last()).push(v.last().0@));
        value_names(v.drop_last()).lemma_push_to_set_commute(v.last().0@);
        assert(with_values(m, v).dom() =~= m.dom() + value_names(v).to_set());
    }
}

/// Each named value with `prefix` put before its name.
pub open spec fn prefixed_values(v: Seq<(String, Value)>, prefix: Seq<char>) -> Seq<(Seq<char>, Value)> {
    v.map_values(|p: (String, Value)| (prefix + p.0@, p.1))
}

/// The variables after adding, in order, each value under the first free
/// underscored form of its name.
pub open spec fn add_prefixed(m: Map<Seq<char>, Value>, v: Seq<(Seq<char>, Value)>) -> Map<Seq<char>, Value>
    decreases v.len(),
{
    if v.len() == 0 {
        m
    } else {
        let n = add_prefixed(m, v.drop_last());
        n.insert(free_name(n.dom(), v.last().0), v.last().1)
    }
}

impl ExprWorldContextValues {
    /// Sets every value in order; the first that cannot be set stops the
    /// rest and is reported by name. On success the context holds every
    /// value under its name; on failure the values set before the failing
    /// one, whose name the context already held.
    pub fn update_ctx(&self, ctx: &mut HashMapContext) -> (r: Result<(), LivecodeError>)
        ensures
            r is Ok ==> context_values(*final(ctx)) == with_values(context_values(*old(ctx)), self.0@),
            r is Ok ==> context_variable_names(*final(ctx))
                == context_variable_names(*old(ctx)) + value_names(self.0@).to_set(),
            r matches Err(e) ==> (e matches LivecodeError::EvalExpr(m, _) && exists|i: int| 0 <= i < self.0@.len()
                && m@ == "error setting value "@ + #[trigger] value_names(self.0@)[i]
                && with_values(context_values(*old(ctx)), self.0@.take(i)).contains_key(value_names(self.0@)[i])
                && context_values(*final(ctx)) == with_values(context_values(*old(ctx)), self.0@.take(i))),
    {
        let ghost start = context_values(*ctx);
        let ghost all = self.0@;
        let n = self.0.len();
        let mut i: usize = 0;
        proof { assert(all.take(0) =~= Seq::<(String, Value)>::empty()); }
        while i < n
            invariant
                all == self.0@,
                n == all.len(),
                start == context_values(*old(ctx)),
                i <= n,
                context_values(*ctx) == with_values(start, all.take(i as int)),
            decreases n - i,
        {
            let identifier = self.0[i].0.clone();
            let value = clone_value(&self.0[i].1);
            proof {
                assert(all.take(i as int + 1).drop_last() =~= all.take(i as int));
                assert(all.take(i as int + 1).last() == all[i as int]);
                assert(identifier@ == value_names(all)[i as int]);
            }
            let label = crate::text::concat_str("error setting value ", identifier.as_str());
            match set_variable(ctx, identifier, value) {
                Ok(()) => {},
                Err(err) => {
                    return Err(LivecodeError::EvalExpr(label, err));
                },
            }
            i = i + 1;
        }
        proof {
            assert(all.take(n as int) =~= all);
            lemma_with_values_names(start, all);
        }
        Ok(())
    }

    /// Sets every value under its name with `prefix` put before it, each
    /// under as many underscores more as it takes to find a free name.
    pub fn update_ctx_with_prefix(&self, ctx: &mut HashMapContext, prefix: &str)
        ensures
            context_values(*final(ctx)) == add_prefixed(context_values(*old(ctx)), prefixed_values(self.0@, prefix@)),
    {
        let ghost start = context_values(*ctx);
        let ghost all = self.0@;
        let ghost ps = prefixed_values(self.0@, prefix@);
        let n = self.0.len();
        let mut i: usize = 0;
        proof { assert(ps.take(0) =~= Seq::<(Seq<char>, Value)>::empty()); }
        while i < n
            invariant
                all == self.0@,
                ps == prefixed_values(all, prefix@),
                n == all.len(),
                start == context_values(*old(ctx)),
                i <= n,
                context_values(*ctx) == add_prefixed(start, ps.take(i as int)),
            decreases n - i,
        {
            let name = crate::text::concat_str(prefix, self.0[i].0.as_str());
            let value = clone_value(&self.0[i].1);
            proof {
                assert(ps.take(i as int + 1).drop_last() =~= ps.take(i as int));
                assert(ps.take(i as int + 1).last() == ps[i as int]);
                assert(name@ == ps[i as int].0);
            }
            add_variable_or_prefix_it(name.as_str(), value, ctx);
            i = i + 1;
        }
        proof { assert(ps.take(n as int) =~= ps); }
    }
}

} // verus!
