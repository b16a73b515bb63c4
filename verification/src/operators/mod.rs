//! The registry of built-in operators and their dispatch.

use vstd::prelude::*;

use crate::assoc::{
    distinct_keys, lemma_distinct_push, lemma_map_of_contains, lemma_map_of_index,
    lemma_map_of_push, lemma_map_of_remove, map_of,
};
use crate::error::{EggError, EggResult};
use crate::expression::{Expression, Value};
use crate::scope::{evolves, Scope};

pub mod arithmetic;
pub mod boolean;
pub mod comparison;
pub mod console;
pub mod control_flow;
pub mod convert;
pub mod stringtools;
pub mod variables;

use vstd::string::StringExecFns;

verus! {

/// Identifier of one built-in operator. The parser resolves operator
/// names to these eagerly; the evaluator dispatches on them.
#[derive(Debug, Clone, Copy, PartialEq, Eq, Structural)]
pub enum Builtin {
    // Variable management
    Define,
    Mutate,
    Delete,
    Exists,
    TypeOf,
    // Control flow
    Do,
    If,
    While,
    Repeat,
    Sleep,
    Panic,
    Assert,
    // Comparison
    Equals,
    NotEquals,
    GreaterThan,
    LessThan,
    IsNil,
    // Arithmetic
    Sum,
    Add,
    Subtract,
    Divide,
    Multiply,
    Modulus,
    // Boolean
    And,
    Or,
    Not,
    // Conversion
    ToString,
    ToNumber,
    // Function creation
    CreateFunction,
    // String tools
    Concat,
    Length,
    Slice,
    ToUpper,
    ToLower,
    Trim,
    // Index-tagged objects
    CreateObject,
    ObjectGet,
    ObjectInsert,
    ObjectHas,
    ObjectRemove,
    ObjectSize,
    ObjectClear,
    ObjectPrint,
    // String-tagged maps
    NewMap,
    ExistsMap,
    DeleteMap,
    MapInsert,
    MapGet,
    MapHas,
    MapRemove,
    MapSize,
    MapClear,
    PrintMap,
    // Console
    Print,
    PrintLine,
    ReadLine,
}

impl View for Builtin {
    type V = Builtin;

    open spec fn view(&self) -> Builtin {
        *self
    }
}

/// The number of arguments a fixed-arity operator demands, or `None`
/// for the variadic ones.
pub open spec fn fixed_arity(b: Builtin) -> Option<nat> {
    match b {
        Builtin::Define => Some(2),
        Builtin::Mutate => Some(2),
        Builtin::Delete => Some(1),
        Builtin::Exists => Some(1),
        Builtin::TypeOf => Some(1),
        Builtin::If => Some(3),
        Builtin::While => Some(2),
        Builtin::Repeat => Some(2),
        Builtin::Sleep => Some(1),
        Builtin::Panic => Some(1),
        Builtin::Assert => Some(2),
        Builtin::Equals => Some(2),
        Builtin::NotEquals => Some(2),
        Builtin::GreaterThan => Some(2),
        Builtin::LessThan => Some(2),
        Builtin::IsNil => Some(1),
        Builtin::Subtract => Some(2),
        Builtin::Divide => Some(2),
        Builtin::Modulus => Some(2),
        Builtin::And => Some(2),
        Builtin::Or => Some(2),
        Builtin::Not => Some(1),
        Builtin::ToString => Some(1),
        Builtin::ToNumber => Some(1),
        Builtin::Length => Some(1),
        Builtin::Slice => Some(3),
        Builtin::ToUpper => Some(1),
        Builtin::ToLower => Some(1),
        Builtin::Trim => Some(1),
        Builtin::ObjectGet => Some(2),
        Builtin::ObjectInsert => Some(3),
        Builtin::ObjectHas => Some(2),
        Builtin::ObjectRemove => Some(2),
        Builtin::ObjectSize => Some(1),
        Builtin::ObjectClear => Some(1),
        Builtin::ObjectPrint => Some(1),
        Builtin::NewMap => Some(1),
        Builtin::ExistsMap => Some(1),
        Builtin::DeleteMap => Some(1),
        Builtin::MapInsert => Some(3),
        Builtin::MapGet => Some(2),
        Builtin::MapHas => Some(2),
        Builtin::MapRemove => Some(2),
        Builtin::MapSize => Some(1),
        Builtin::MapClear => Some(1),
        Builtin::PrintMap => Some(1),
        _ => None,
    }
}

/// The name-to-operator table handed to the parser for eager
/// resolution of call targets.
pub struct OperatorSet {
    entries: Vec<(String, Builtin)>,
}

impl View for OperatorSet {
    type V = Map<Seq<char>, Builtin>;

    closed spec fn view(&self) -> Map<Seq<char>, Builtin> {
        map_of(self.entries@)
    }
}

impl OperatorSet {
    /// Each name occurs at most once.
    pub closed spec fn wf(self) -> bool {
        distinct_keys(self.entries@)
    }

    fn index_of(&self, name: &String) -> (res: Option<usize>)
        ensures
            match res {
                Some(i) => i < self.entries@.len() && self.entries@[i as int].0@ == name@,
                None => forall|i: int|
                    #![trigger self.entries@[i]]
                    0 <= i < self.entries@.len() ==> self.entries@[i].0@ != name@,
            },
    {
        let mut i: usize = 0;
        while i < self.entries.len()
            invariant
                i <= self.entries@.len(),
                forall|j: int|
                    #![trigger self.entries@[j]]
                    0 <= j < i ==> self.entries@[j].0@ != name@,
            decreases self.entries@.len() - i,
        {
            if self.entries[i].0 == *name {
                return Some(i);
            }
            i = i + 1;
        }
        None
    }

    /// The operator registered under `name`, if any.
    pub fn lookup(&self, name: &String) -> (res: Option<Builtin>)
        requires
            self.wf(),
        ensures
            match res {
                Some(b) => self@.contains_key(name@) && b == self@[name@],
                None => !self@.contains_key(name@),
            },
    {
        proof {
            lemma_map_of_contains(self.entries@, name@);
        }
        match self.index_of(name) {
            Some(i) => {
                proof {
                    lemma_map_of_index(self.entries@, i as int);
                }
                Some(self.entries[i].1)
            },
            None => None,
        }
    }

    /// Registers `b` under `name`, replacing any earlier registration.
    pub fn register(&mut self, name: String, b: Builtin)
        requires
            old(self).wf(),
        ensures
            final(self).wf(),
            final(self)@ == old(self)@.insert(name@, b),
    {
        let ghost pre = self.entries@;
        match self.index_of(&name) {
            Some(i) => {
                proof {
                    lemma_map_of_remove(pre, i as int);
                }
                self.entries.remove(i);
                proof {
                    assert forall|j: int| #![trigger self.entries@[j]]
                        0 <= j < self.entries@.len() implies self.entries@[j].0@ != name@ by {
                        if j < i {
                            assert(self.entries@[j] == pre[j]);
                            assert(pre[j].0@ != pre[i as int].0@);
                        } else {
                            assert(self.entries@[j] == pre[j + 1]);
                            assert(pre[j + 1].0@ != pre[i as int].0@);
                        }
                    }
                    lemma_distinct_push(self.entries@, (name, b));
                    lemma_map_of_push(self.entries@, (name, b));
                }
                self.entries.push((name, b));
                proof {
                    assert(self@ =~= old(self)@.insert(pre[i as int].0@, b));
                }
            },
            None => {
                proof {
                    lemma_distinct_push(self.entries@, (name, b));
                    lemma_map_of_push(self.entries@, (name, b));
                }
                self.entries.push((name, b));
            },
        }
    }
}

/// Create an empty table of operators.
pub fn empty() -> (res: OperatorSet)
    ensures
        res.wf(),
        res@ == Map::<Seq<char>, Builtin>::empty(),
{
    OperatorSet { entries: Vec::new() }
}

/// The names [`minimal`] registers over a given table.
pub open spec fn minimal_names(m: Map<Seq<char>, Builtin>) -> Map<Seq<char>, Builtin> {
    m.insert("define"@, Builtin::Define).insert("set"@, Builtin::Mutate).insert(
        "delete"@,
        Builtin::Delete,
    ).insert("exists"@, Builtin::Exists).insert(
        "typeof"@,
        Builtin::TypeOf,
    ).insert("if"@, Builtin::If).insert("do"@, Builtin::Do).insert("while"@, Builtin::While).insert(
        "repeat"@,
        Builtin::Repeat,
    ).insert("panic"@, Builtin::Panic).insert("assert"@, Builtin::Assert).insert(
        "equals"@,
        Builtin::Equals,
    ).insert("not_equals"@, Builtin::NotEquals).insert("greater_than"@, Builtin::GreaterThan).insert(
        "less_than"@,
        Builtin::LessThan,
    ).insert("is_nil"@, Builtin::IsNil).insert("sum"@, Builtin::Sum).insert(
        "add"@,
        Builtin::Add,
    ).insert("subtract"@, Builtin::Subtract).insert("divide"@, Builtin::Divide).insert(
        "multiply"@,
        Builtin::Multiply,
    ).insert("modulus"@, Builtin::Modulus).insert("and"@, Builtin::And).insert(
        "or"@,
        Builtin::Or,
    ).insert("not"@, Builtin::Not).insert("str"@, Builtin::ToString).insert(
        "num"@,
        Builtin::ToNumber,
    ).insert("fn"@, Builtin::CreateFunction)
}

/// Registers the basic operations of the language: variables, control
/// flow, comparison, arithmetic, booleans, conversion and `fn`.
pub fn minimal(set: &mut OperatorSet)
    requires
        old(set).wf(),
    ensures
        final(set).wf(),
        final(set)@ == minimal_names(old(set)@),
{
    set.register(String::from_str("define"), Builtin::Define);
    set.register(String::from_str("set"), Builtin::Mutate);
    set.register(String::from_str("delete"), Builtin::Delete);
    set.register(String::from_str("exists"), Builtin::Exists);
    set.register(String::from_str("typeof"), Builtin::TypeOf);
    set.register(String::from_str("if"), Builtin::If);
    set.register(String::from_str("do"), Builtin::Do);
    set.register(String::from_str("while"), Builtin::While);
    set.register(String::from_str("repeat"), Builtin::Repeat);
    set.register(String::from_str("panic"), Builtin::Panic);
    set.register(String::from_str("assert"), Builtin::Assert);
    set.register(String::from_str("equals"), Builtin::Equals);
    set.register(String::from_str("not_equals"), Builtin::NotEquals);
    set.register(String::from_str("greater_than"), Builtin::GreaterThan);
    set.register(String::from_str("less_than"), Builtin::LessThan);
    set.register(String::from_str("is_nil"), Builtin::IsNil);
    set.register(String::from_str("sum"), Builtin::Sum);
    set.register(String::from_str("add"), Builtin::Add);
    set.register(String::from_str("subtract"), Builtin::Subtract);
    set.register(String::from_str("divide"), Builtin::Divide);
    set.register(String::from_str("multiply"), Builtin::Multiply);
    set.register(String::from_str("modulus"), Builtin::Modulus);
    set.register(String::from_str("and"), Builtin::And);
    set.register(String::from_str("or"), Builtin::Or);
    set.register(String::from_str("not"), Builtin::Not);
    set.register(String::from_str("str"), Builtin::ToString);
    set.register(String::from_str("num"), Builtin::ToNumber);
    set.register(String::from_str("fn"), Builtin::CreateFunction);
}

/// Evaluates one argument expression on behalf of an operator, at one
/// recursion level deeper.
pub(crate) fn eval_arg(arg: &Expression, scope: &mut Scope, fuel: u64) -> (res: EggResult<Value>)
    requires
        old(scope).wf(),
        fuel >= 1,
    ensures
        final(scope).wf(),
        evolves(*old(scope), *final(scope)),
        !(arg is FnCall) ==> final(scope).same_state(*old(scope)),
        match arg {
            Expression::Value { value } => res matches Ok(v) && v@ == value@,
            Expression::Word { name } => match old(scope).lookup(name@) {
                Some(v) => res matches Ok(r) && r@ == v,
                None => res matches Err(EggError::UndefinedBinding(n)) && n@ == name@,
            },
            Expression::FnCall { .. } => true,
        },
    decreases fuel, 0int,
{
    crate::evaluator::eval_expr(arg, scope, fuel - 1)
}

/// Invokes the built-in `b` on the unevaluated argument expressions.
/// A fixed-arity operator handed the wrong number of arguments fails
/// with `InvalidFunctionCall` and leaves every part of the state
/// untouched, never silently truncating.
pub fn dispatch(b: Builtin, args: &Vec<Expression>, scope: &mut Scope, fuel: u64) -> (res:
    EggResult<Value>)
    requires
        old(scope).wf(),
        fuel >= 1,
    ensures
        final(scope).wf(),
        evolves(*old(scope), *final(scope)),
        (fixed_arity(b) matches Some(k) && args@.len() != k) ==> (res matches Err(
            EggError::InvalidFunctionCall(_),
        )) && final(scope).same_state(*old(scope)),
    decreases fuel, 3int,
{
    match b {
        Builtin::Define => (variables::Define).evaluate(args, scope, fuel),
        Builtin::Mutate => (variables::Mutate).evaluate(args, scope, fuel),
        Builtin::Delete => (variables::Delete).evaluate(args, scope, fuel),
        Builtin::Exists => (variables::Exists).evaluate(args, scope, fuel),
        Builtin::TypeOf => (variables::TypeOf).evaluate(args, scope, fuel),
        Builtin::Do => (control_flow::Do).evaluate(args, scope, fuel),
        Builtin::If => (control_flow::If).evaluate(args, scope, fuel),
        Builtin::While => (control_flow::While).evaluate(args, scope, fuel),
        Builtin::Repeat => (control_flow::Repeat).evaluate(args, scope, fuel),
        Builtin::Sleep => (control_flow::Sleep).evaluate(args, scope, fuel),
        Builtin::Panic => (control_flow::Panic).evaluate(args, scope, fuel),
        Builtin::Assert => (control_flow::Assert).evaluate(args, scope, fuel),
        Builtin::Equals => (comparison::Equals).evaluate(args, scope, fuel),
        Builtin::NotEquals => (comparison::NotEquals).evaluate(args, scope, fuel),
        Builtin::GreaterThan => (comparison::GreaterThan).evaluate(args, scope, fuel),
        Builtin::LessThan => (comparison::LessThan).evaluate(args, scope, fuel),
        Builtin::IsNil => (comparison::IsNil).evaluate(args, scope, fuel),
        Builtin::Sum => (arithmetic::Sum).evaluate(args, scope, fuel),
        Builtin::Add => (arithmetic::Add).evaluate(args, scope, fuel),
        Builtin::Subtract => (arithmetic::Subtract).evaluate(args, scope, fuel),
        Builtin::Divide => (arithmetic::Divide).evaluate(args, scope, fuel),
        Builtin::Multiply => (arithmetic::Multiply).evaluate(args, scope, fuel),
        Builtin::Modulus => (arithmetic::Modulus).evaluate(args, scope, fuel),
        Builtin::And => (boolean::AND).evaluate(args, scope, fuel),
        Builtin::Or => (boolean::OR).evaluate(args, scope, fuel),
        Builtin::Not => (boolean::NOT).evaluate(args, scope, fuel),
        Builtin::ToString => (convert::ToString).evaluate(args, scope, fuel),
        Builtin::ToNumber => (convert::ToNumber).evaluate(args, scope, fuel),
        Builtin::CreateFunction => (crate::scope::functions::CreateFunction).evaluate(
            args,
            scope,
            fuel,
        ),
        Builtin::Concat => (stringtools::Concat).evaluate(args, scope, fuel),
        Builtin::Length => (stringtools::Length).evaluate(args, scope, fuel),
        Builtin::Slice => (stringtools::Slice).evaluate(args, scope, fuel),
        Builtin::ToUpper => (stringtools::ToUpper).evaluate(args, scope, fuel),
        Builtin::ToLower => (stringtools::ToLower).evaluate(args, scope, fuel),
        Builtin::Trim => (stringtools::Trim).evaluate(args, scope, fuel),
        Builtin::CreateObject => (crate::scope::object::CreateObject).evaluate(args, scope, fuel),
        Builtin::ObjectGet => (crate::scope::object::Get).evaluate(args, scope, fuel),
        Builtin::ObjectInsert => (crate::scope::object::Insert).evaluate(args, scope, fuel),
        Builtin::ObjectHas => (crate::scope::object::Has).evaluate(args, scope, fuel),
        Builtin::ObjectRemove => (crate::scope::object::Remove).evaluate(args, scope, fuel),
        Builtin::ObjectSize => (crate::scope::object::Size).evaluate(args, scope, fuel),
        Builtin::ObjectClear => (crate::scope::object::Clear).evaluate(args, scope, fuel),
        Builtin::ObjectPrint => (crate::scope::object::PrintObject).evaluate(args, scope, fuel),
        Builtin::NewMap => (crate::scope::maps::NewMap).evaluate(args, scope, fuel),
        Builtin::ExistsMap => (crate::scope::maps::ExistsMap).evaluate(args, scope, fuel),
        Builtin::DeleteMap => (crate::scope::maps::DeleteMap).evaluate(args, scope, fuel),
        Builtin::MapInsert => (crate::scope::maps::Insert).evaluate(args, scope, fuel),
        Builtin::MapGet => (crate::scope::maps::Get).evaluate(args, scope, fuel),
        Builtin::MapHas => (crate::scope::maps::Has).evaluate(args, scope, fuel),
        Builtin::MapRemove => (crate::scope::maps::Remove).evaluate(args, scope, fuel),
        Builtin::MapSize => (crate::scope::maps::Size).evaluate(args, scope, fuel),
        Builtin::MapClear => (crate::scope::maps::Clear).evaluate(args, scope, fuel),
        Builtin::PrintMap => (crate::scope::maps::PrintMap).evaluate(args, scope, fuel),
        Builtin::Print => (console::Print).evaluate(args, scope, fuel),
        Builtin::PrintLine => (console::PrintLine).evaluate(args, scope, fuel),
        Builtin::ReadLine => (console::ReadLine).evaluate(args, scope, fuel),
    }
}

/// The names [`object_tools`] registers over a given table.
pub open spec fn object_tool_names(m: Map<Seq<char>, Builtin>) -> Map<Seq<char>, Builtin> {
    m.insert("object.new"@, Builtin::CreateObject).insert("object.get"@, Builtin::ObjectGet).insert(
        "object.insert"@,
        Builtin::ObjectInsert,
    ).insert("object.has"@, Builtin::ObjectHas).insert(
        "object.remove"@,
        Builtin::ObjectRemove,
    ).insert("object.size"@, Builtin::ObjectSize).insert("object.clear"@, Builtin::ObjectClear)
}

/// Create, interact with and delete objects.
pub fn object_tools(set: &mut OperatorSet)
    requires
        old(set).wf(),
    ensures
        final(set).wf(),
        final(set)@ == object_tool_names(old(set)@),
{
    set.register(String::from_str("object.new"), Builtin::CreateObject);
    set.register(String::from_str("object.get"), Builtin::ObjectGet);
    set.register(String::from_str("object.insert"), Builtin::ObjectInsert);
    set.register(String::from_str("object.has"), Builtin::ObjectHas);
    set.register(String::from_str("object.remove"), Builtin::ObjectRemove);
    set.register(String::from_str("object.size"), Builtin::ObjectSize);
    set.register(String::from_str("object.clear"), Builtin::ObjectClear);
}

/// The names [`string_tools`] registers over a given table.
pub open spec fn string_tool_names(m: Map<Seq<char>, Builtin>) -> Map<Seq<char>, Builtin> {
    m.insert("string.length"@, Builtin::Length).insert("string.slice"@, Builtin::Slice).insert(
        "string.concat"@,
        Builtin::Concat,
    ).insert("string.to_upper"@, Builtin::ToUpper).insert(
        "string.to_lower"@,
        Builtin::ToLower,
    ).insert("string.trim"@, Builtin::Trim)
}

/// String tools.
pub fn string_tools(set: &mut OperatorSet)
    requires
        old(set).wf(),
    ensures
        final(set).wf(),
        final(set)@ == string_tool_names(old(set)@),
{
    set.register(String::from_str("string.length"), Builtin::Length);
    set.register(String::from_str("string.slice"), Builtin::Slice);
    set.register(String::from_str("string.concat"), Builtin::Concat);
    set.register(String::from_str("string.to_upper"), Builtin::ToUpper);
    set.register(String::from_str("string.to_lower"), Builtin::ToLower);
    set.register(String::from_str("string.trim"), Builtin::Trim);
}

/// The names [`map_tools`] registers over a given table.
pub open spec fn map_tool_names(m: Map<Seq<char>, Builtin>) -> Map<Seq<char>, Builtin> {
    m.insert("new_map"@, Builtin::NewMap).insert("exists_map"@, Builtin::ExistsMap).insert(
        "delete_map"@,
        Builtin::DeleteMap,
    ).insert("map_insert"@, Builtin::MapInsert).insert("map_get"@, Builtin::MapGet).insert(
        "map_has"@,
        Builtin::MapHas,
    ).insert("map_remove"@, Builtin::MapRemove).insert("map_size"@, Builtin::MapSize).insert(
        "map_clear"@,
        Builtin::MapClear,
    ).insert("map_print"@, Builtin::PrintMap)
}

/// Create, fill, query and delete string-tagged maps.
pub fn map_tools(set: &mut OperatorSet)
    requires
        old(set).wf(),
    ensures
        final(set).wf(),
        final(set)@ == map_tool_names(old(set)@),
{
    set.register(String::from_str("new_map"), Builtin::NewMap);
    set.register(String::from_str("exists_map"), Builtin::ExistsMap);
    set.register(String::from_str("delete_map"), Builtin::DeleteMap);
    set.register(String::from_str("map_insert"), Builtin::MapInsert);
    set.register(String::from_str("map_get"), Builtin::MapGet);
    set.register(String::from_str("map_has"), Builtin::MapHas);
    set.register(String::from_str("map_remove"), Builtin::MapRemove);
    set.register(String::from_str("map_size"), Builtin::MapSize);
    set.register(String::from_str("map_clear"), Builtin::MapClear);
    set.register(String::from_str("map_print"), Builtin::PrintMap);
}

/// The names [`console_tools`] registers over a given table.
pub open spec fn console_tool_names(m: Map<Seq<char>, Builtin>) -> Map<Seq<char>, Builtin> {
    m.insert("print"@, Builtin::Print).insert("println"@, Builtin::PrintLine).insert(
        "readline"@,
        Builtin::ReadLine,
    ).insert("object.print"@, Builtin::ObjectPrint)
}

/// Console functions.
pub fn console_tools(set: &mut OperatorSet)
    requires
        old(set).wf(),
    ensures
        final(set).wf(),
        final(set)@ == console_tool_names(old(set)@),
{
    set.register(String::from_str("print"), Builtin::Print);
    set.register(String::from_str("println"), Builtin::PrintLine);
    set.register(String::from_str("readline"), Builtin::ReadLine);
    set.register(String::from_str("object.print"), Builtin::ObjectPrint);
}

/// Every operator the language defines: the minimal set, the object,
/// string, map and console tools, and `sleep`.
pub fn full(set: &mut OperatorSet)
    requires
        old(set).wf(),
    ensures
        final(set).wf(),
        final(set)@ == console_tool_names(
            map_tool_names(
                string_tool_names(object_tool_names(minimal_names(old(set)@))),
            ),
        ).insert("sleep"@, Builtin::Sleep),
{
    minimal(set);
    object_tools(set);
    string_tools(set);
    map_tools(set);
    console_tools(set);
    set.register(String::from_str("sleep"), Builtin::Sleep);
}

} // verus!
