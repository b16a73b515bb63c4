//! The typed value and expression data model.

use vstd::prelude::*;

verus! {

/// Mathematical model of a runtime [`Value`]: text as a sequence of
/// characters, numbers and indices as unbounded integers.
#[verifier::ext_equal]
pub enum ValueV {
    Nil,
    Number(int),
    Boolean(bool),
    Str(Seq<char>),
    Function(nat),
    Object(nat),
}

/// A runtime datum of the language. Values are immutable: "mutation"
/// always binds a new value over an existing name.
///
/// `Function` and `Object` do not carry their data; they hold an index
/// into the function table or the object table of the global store.
#[derive(Debug)]
pub enum Value {
    /// Absence of a value.
    Nil,
    /// An integer-valued number.
    Number(i64),
    /// A boolean value.
    Boolean(bool),
    /// Immutable text.
    String(String),
    /// Index of a function definition in the global store.
    Function(usize),
    /// Index of an object in the global store.
    Object(usize),
}

impl View for Value {
    type V = ValueV;

    open spec fn view(&self) -> ValueV {
        match self {
            Value::Nil => ValueV::Nil,
            Value::Number(n) => ValueV::Number(*n as int),
            Value::Boolean(b) => ValueV::Boolean(*b),
            Value::String(s) => ValueV::Str(s@),
            Value::Function(i) => ValueV::Function(*i as nat),
            Value::Object(i) => ValueV::Object(*i as nat),
        }
    }
}

impl Clone for Value {
    fn clone(&self) -> (res: Self)
        ensures
            res@ == self@,
    {
        match self {
            Value::Nil => Value::Nil,
            Value::Number(n) => Value::Number(*n),
            Value::Boolean(b) => Value::Boolean(*b),
            Value::String(s) => Value::String(s.clone()),
            Value::Function(i) => Value::Function(*i),
            Value::Object(i) => Value::Object(*i),
        }
    }
}

impl PartialEq for Value {
    fn eq(&self, other: &Value) -> (res: bool) {
        match (self, other) {
            (Value::Nil, Value::Nil) => true,
            (Value::Number(a), Value::Number(b)) => *a == *b,
            (Value::Boolean(a), Value::Boolean(b)) => *a == *b,
            (Value::String(a), Value::String(b)) => *a == *b,
            (Value::Function(a), Value::Function(b)) => *a == *b,
            (Value::Object(a), Value::Object(b)) => *a == *b,
            _ => false,
        }
    }
}

impl vstd::std_specs::cmp::PartialEqSpecImpl for Value {
    open spec fn obeys_eq_spec() -> bool {
        true
    }

    open spec fn eq_spec(&self, other: &Value) -> bool {
        self@ == other@
    }
}

impl Eq for Value {}

impl ValueV {
    /// Only primitives may serve as object keys.
    pub open spec fn is_primitive(self) -> bool {
        match self {
            ValueV::Nil | ValueV::Number(_) | ValueV::Boolean(_) | ValueV::Str(_) => true,
            ValueV::Function(_) | ValueV::Object(_) => false,
        }
    }

    /// The truthiness coercion used by `if` and `while`: a number is true
    /// when nonzero, a boolean is itself, everything else has no truth value.
    pub open spec fn truthiness(self) -> Option<bool> {
        match self {
            ValueV::Number(n) => Some(n != 0),
            ValueV::Boolean(b) => Some(b),
            _ => None,
        }
    }
}

impl Value {
    /// Whether this value may serve as an object key.
    pub fn is_primitive(&self) -> (res: bool)
        ensures
            res == self@.is_primitive(),
    {
        match self {
            Value::Nil | Value::Number(_) | Value::Boolean(_) | Value::String(_) => true,
            Value::Function(_) | Value::Object(_) => false,
        }
    }

    /// The truthiness coercion used by `if` and `while`.
    pub fn truthiness(&self) -> (res: Option<bool>)
        ensures
            res == self@.truthiness(),
    {
        match self {
            Value::Number(n) => Some(*n != 0),
            Value::Boolean(b) => Some(*b),
            _ => None,
        }
    }
}

/// The call target of a `FnCall` node, decided once at parse time:
/// a name that matched a registered operator is bound directly to it,
/// any other name is kept for lookup in the function table at
/// evaluation time.
#[derive(Debug)]
pub enum Callee {
    /// Eagerly resolved reference to a built-in operator.
    Builtin(crate::operators::Builtin),
    /// Deferred name, resolved against the scope when the call runs.
    Script(String),
}

/// An expression is a piece of parsed code that can be evaluated into a
/// [`Value`].
#[derive(Debug)]
pub enum Expression {
    Value { value: Value },
    Word { name: String },
    FnCall { target: Callee, parameters: Vec<Expression> },
}

/// Mathematical model of a [`Callee`].
#[verifier::ext_equal]
pub enum CalleeV {
    Builtin(crate::operators::Builtin),
    Script(Seq<char>),
}

/// Mathematical model of an [`Expression`].
#[verifier::ext_equal]
pub enum ExprV {
    Value(ValueV),
    Word(Seq<char>),
    Call(CalleeV, Seq<ExprV>),
}

impl View for Callee {
    type V = CalleeV;

    open spec fn view(&self) -> CalleeV {
        match self {
            Callee::Builtin(b) => CalleeV::Builtin(*b),
            Callee::Script(name) => CalleeV::Script(name@),
        }
    }
}

/// The model of an expression tree.
pub open spec fn expr_view(e: Expression) -> ExprV
    decreases e, 1int,
{
    match e {
        Expression::Value { value } => ExprV::Value(value@),
        Expression::Word { name } => ExprV::Word(name@),
        Expression::FnCall { target, parameters } => ExprV::Call(
            target@,
            exprs_view(parameters@),
        ),
    }
}

/// The value an argument expression carries when it is a literal.
/// The exact clauses of the operator contracts are stated for literal
/// arguments: evaluating a literal is pure and yields exactly its
/// value, so the operator's whole behaviour is pinned there.
pub open spec fn literal_of(e: Expression) -> Option<Value> {
    match e {
        Expression::Value { value } => Some(value),
        _ => None,
    }
}

/// The models of a sequence of expressions.
pub open spec fn exprs_view(s: Seq<Expression>) -> Seq<ExprV>
    decreases s, 0int,
{
    if s.len() == 0 {
        Seq::empty()
    } else {
        exprs_view(s.drop_last()).push(expr_view(s.last()))
    }
}

/// Appending an expression appends its model.
pub proof fn lemma_exprs_view_push(s: Seq<Expression>, e: Expression)
    ensures
        exprs_view(s.push(e)) == exprs_view(s).push(expr_view(e)),
{
    assert(s.push(e).drop_last() =~= s);
    assert(s.push(e).last() == e);
}

/// The model of a sequence is the sequence of the models.
pub proof fn lemma_exprs_view(s: Seq<Expression>)
    ensures
        exprs_view(s).len() == s.len(),
        forall|i: int| 0 <= i < s.len() ==> (#[trigger] exprs_view(s)[i]) == expr_view(s[i]),
    decreases s.len(),
{
    if s.len() > 0 {
        lemma_exprs_view(s.drop_last());
        assert forall|i: int| 0 <= i < s.len() implies (#[trigger] exprs_view(s)[i]) == expr_view(
            s[i],
        ) by {
            if i < s.len() - 1 {
                assert(exprs_view(s.drop_last())[i] == expr_view(s.drop_last()[i]));
                assert(s.drop_last()[i] == s[i]);
            }
        }
    }
}

impl View for Expression {
    type V = ExprV;

    open spec fn view(&self) -> ExprV {
        expr_view(*self)
    }
}

impl Clone for Callee {
    fn clone(&self) -> (res: Self)
        ensures
            res@ == self@,
    {
        match self {
            Callee::Builtin(b) => Callee::Builtin(*b),
            Callee::Script(name) => Callee::Script(name.clone()),
        }
    }
}

impl Clone for Expression {
    fn clone(&self) -> (res: Self)
        ensures
            res@ == self@,
        decreases self,
    {
        match self {
            Expression::Value { value } => Expression::Value { value: value.clone() },
            Expression::Word { name } => Expression::Word { name: name.clone() },
            Expression::FnCall { target, parameters } => Expression::FnCall {
                target: target.clone(),
                parameters: clone_expressions(parameters),
            },
        }
    }
}

/// Clones every expression of a parameter list.
fn clone_expressions(v: &Vec<Expression>) -> (res: Vec<Expression>)
    ensures
        exprs_view(res@) == exprs_view(v@),
    decreases *v,
{
    broadcast use vstd::std_specs::vec::group_vec_axioms;

    let mut copies: Vec<Expression> = Vec::new();
    let mut i: usize = 0;
    while i < v.len()
        invariant
            i <= v@.len(),
            exprs_view(copies@) == exprs_view(v@.take(i as int)),
        decreases v@.len() - i,
    {
        let c = v[i].clone();
        proof {
            lemma_exprs_view_push(copies@, c);
            lemma_exprs_view_push(v@.take(i as int), v@[i as int]);
            assert(v@.take(i as int).push(v@[i as int]) =~= v@.take(i + 1));
        }
        copies.push(c);
        i = i + 1;
    }
    proof {
        assert(v@.take(v@.len() as int) =~= v@);
    }
    copies
}

} // verus!
