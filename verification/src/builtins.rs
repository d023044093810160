//! Builtin functions in scope without `import`: `print`, `println` and
//! `time::sleep`.
//!
//! The interpreter's values and its global environment are modelled here
//! as far as the builtins use them. What a builtin does to the outside
//! world (writing to stdout, sleeping the thread) is left to the caller;
//! this module decides what is written, how long to sleep, and which error
//! a bad call gets.
use vstd::prelude::*;
use crate::decimal::{digit_char, digits_of, i64_text, int_text};
use crate::strmap::StrMap;

verus! {

/// Which builtin a `BuiltinRef` runs.
#[derive(Debug, Clone, Copy, PartialEq, Eq)]
pub enum BuiltinFn {
    Print,
    Println,
    TimeSleep,
}

/// A builtin function value: the name it is known by and what it runs.
#[derive(Debug, PartialEq, Eq)]
pub struct BuiltinRef {
    pub name: String,
    pub func: BuiltinFn,
}

/// A value of the interpreter.
#[derive(Debug, PartialEq, Eq)]
pub enum Value {
    Unit,
    Bool(bool),
    Int(i64),
    Str(String),
    /// A duration in nanoseconds.
    Duration(i64),
    Builtin(BuiltinRef),
}

pub enum SpecValue {
    Unit,
    Bool(bool),
    Int(i64),
    Str(Seq<char>),
    Duration(i64),
    Builtin { name: Seq<char>, func: BuiltinFn },
}

impl DeepView for Value {
    type V = SpecValue;

    open spec fn deep_view(&self) -> SpecValue {
        match self {
            Value::Unit => SpecValue::Unit,
            Value::Bool(b) => SpecValue::Bool(*b),
            Value::Int(i) => SpecValue::Int(*i),
            Value::Str(s) => SpecValue::Str(s@),
            Value::Duration(ns) => SpecValue::Duration(*ns),
            Value::Builtin(b) => SpecValue::Builtin { name: b.name@, func: b.func },
        }
    }
}

impl View for Value {
    type V = SpecValue;

    open spec fn view(&self) -> SpecValue {
        self.deep_view()
    }
}

/// The name of a value's type, as error messages cite it.
pub open spec fn type_name_of(v: SpecValue) -> Seq<char> {
    match v {
        SpecValue::Unit => "Unit"@,
        SpecValue::Bool(_) => "Bool"@,
        SpecValue::Int(_) => "Int"@,
        SpecValue::Str(_) => "String"@,
        SpecValue::Duration(_) => "Duration"@,
        SpecValue::Builtin { .. } => "Builtin"@,
    }
}

/// How `print` shows a value.
pub open spec fn display_of(v: SpecValue) -> Seq<char> {
    match v {
        SpecValue::Unit => "()"@,
        SpecValue::Bool(b) => if b {
            "true"@
        } else {
            "false"@
        },
        SpecValue::Int(i) => int_text(i as int),
        SpecValue::Str(s) => s,
        SpecValue::Duration(ns) => int_text(ns as int) + "ns"@,
        SpecValue::Builtin { name, .. } => "<builtin "@ + name + ">"@,
    }
}

/// The displays of `vs`, one after the other.
pub open spec fn display_all(vs: Seq<SpecValue>) -> Seq<char>
    decreases vs.len(),
{
    if vs.len() == 0 {
        Seq::empty()
    } else {
        display_all(vs.drop_last()) + display_of(vs.last())
    }
}

impl Value {
    pub fn type_label(&self) -> (r: &'static str)
        ensures
            r@ == type_name_of(self@),
    {
        match self {
            Value::Unit => "Unit",
            Value::Bool(_) => "Bool",
            Value::Int(_) => "Int",
            Value::Str(_) => "String",
            Value::Duration(_) => "Duration",
            Value::Builtin(_) => "Builtin",
        }
    }

    pub fn display(&self) -> (r: String)
        ensures
            r@ == display_of(self@),
    {
        match self {
            Value::Unit => String::from_str("()"),
            Value::Bool(b) => if *b {
                String::from_str("true")
            } else {
                String::from_str("false")
            },
            Value::Int(i) => i64_text(*i),
            Value::Str(s) => s.clone(),
            Value::Duration(ns) => {
                let mut out = i64_text(*ns);
                out.append("ns");
                out
            },
            Value::Builtin(b) => {
                let mut out = String::from_str("<builtin ");
                out.append(b.name.as_str());
                out.append(">");
                out
            },
        }
    }
}

/// The global environment: names bound to values.
pub struct Env {
    bindings: StrMap<Value>,
}

impl View for Env {
    type V = Map<Seq<char>, SpecValue>;

    closed spec fn view(&self) -> Map<Seq<char>, SpecValue> {
        self.bindings@
    }
}

impl Env {
    #[verifier::type_invariant]
    spec fn wf(&self) -> bool {
        self.bindings.wf()
    }

    pub fn new() -> (r: Env)
        ensures
            r@ == Map::<Seq<char>, SpecValue>::empty(),
    {
        Env { bindings: StrMap::new() }
    }

    /// Binds `name` to `v`, replacing an earlier binding.
    pub fn define(&mut self, name: &str, v: Value)
        ensures
            final(self)@ == old(self)@.insert(name@, v@),
    {
        proof {
            use_type_invariant(&*self);
        }
        let mut bindings: StrMap<Value> = StrMap::new();
        std::mem::swap(&mut bindings, &mut self.bindings);
        bindings.insert(String::from_str(name), v);
        self.bindings = bindings;
    }

    /// The value bound to `name`.
    pub fn get(&self, name: &str) -> (r: Option<&Value>)
        ensures
            match r {
                Some(v) => self@.contains_key(name@) && self@[name@] == v@,
                None => !self@.contains_key(name@),
            },
    {
        let key = String::from_str(name);
        self.bindings.get(&key)
    }
}

pub open spec fn builtin_value(name: Seq<char>, func: BuiltinFn) -> SpecValue {
    SpecValue::Builtin { name, func }
}

/// Binds `print` and `println` in `env`.
pub fn install_builtins(env: &mut Env)
    ensures
        final(env)@ == old(env)@.insert("print"@, builtin_value("print"@, BuiltinFn::Print)).insert(
            "println"@,
            builtin_value("println"@, BuiltinFn::Println),
        ),
{
    env.define("print", Value::Builtin(BuiltinRef { name: String::from_str("print"), func: BuiltinFn::Print }));
    env.define(
        "println",
        Value::Builtin(BuiltinRef { name: String::from_str("println"), func: BuiltinFn::Println }),
    );
}

fn str_eq(a: &str, b: &str) -> (r: bool)
    ensures
        r == (a@ == b@),
{
    let x = String::from_str(a);
    let y = String::from_str(b);
    x == y
}

/// The builtin a `::`-path names: `time::sleep` is the only one.
pub fn resolve_path(segments: &[&str]) -> (r: Option<Value>)
    ensures
        match r {
            Some(v) => segments@.len() == 2 && segments@[0]@ == "time"@ && segments@[1]@ == "sleep"@
                && v@ == builtin_value("time::sleep"@, BuiltinFn::TimeSleep),
            None => !(segments@.len() == 2 && segments@[0]@ == "time"@ && segments@[1]@ == "sleep"@),
        },
{
    if segments.len() == 2 && str_eq(segments[0], "time") && str_eq(segments[1], "sleep") {
        Some(Value::Builtin(BuiltinRef { name: String::from_str("time::sleep"), func: BuiltinFn::TimeSleep }))
    } else {
        None
    }
}

/// What `time::sleep(args)` does: `Ok(Some(ns))` to block for `ns`
/// nanoseconds, `Ok(None)` to return at once (a duration that is not
/// positive), or the error the call fails with.
pub open spec fn sleep_outcome(args: Seq<SpecValue>) -> Result<Option<u64>, Seq<char>> {
    if args.len() == 0 {
        Err("time::sleep called with no arguments"@)
    } else {
        match args[0] {
            SpecValue::Duration(ns) => if ns > 0 {
                Ok(Some(ns as u64))
            } else {
                Ok(None)
            },
            other => Err("time::sleep expects a Duration, got "@ + type_name_of(other)),
        }
    }
}

pub open spec fn values_view(vs: Seq<Value>) -> Seq<SpecValue> {
    vs.map_values(|v: Value| v@)
}

/// Decides a `time::sleep` call; the caller does the sleeping.
pub fn time_sleep_request(args: &[Value]) -> (r: Result<Option<u64>, String>)
    ensures
        match (r, sleep_outcome(values_view(args@))) {
            (Ok(a), Ok(b)) => a == b,
            (Err(a), Err(b)) => a@ == b,
            _ => false,
        },
{
    if args.len() == 0 {
        return Err(String::from_str("time::sleep called with no arguments"));
    }
    match &args[0] {
        Value::Duration(ns) => {
            if *ns > 0 {
                Ok(Some(*ns as u64))
            } else {
                Ok(None)
            }
        },
        other => {
            let mut msg = String::from_str("time::sleep expects a Duration, got ");
            msg.append(other.type_label());
            Err(msg)
        },
    }
}

/// The text `print` and `println` write for `args`: the display of each
/// argument, with nothing between them.
pub fn render_args(args: &[Value]) -> (r: String)
    ensures
        r@ == display_all(values_view(args@)),
{
    let ghost vv = values_view(args@);
    let mut out = String::new();
    let mut i: usize = 0;
    while i < args.len()
        invariant
            i <= args@.len(),
            vv == values_view(args@),
            out@ == display_all(vv.take(i as int)),
        decreases args@.len() - i,
    {
        let d = args[i].display();
        out.append(d.as_str());
        proof {
            assert(vv.take(i + 1).drop_last() =~= vv.take(i as int));
        }
        i = i + 1;
    }
    proof {
        assert(vv.take(args@.len() as int) =~= vv);
    }
    out
}


/// What a builtin call asks of the outside world once it has succeeded:
/// text to write to stdout (with or without a newline after it), a sleep of
/// some nanoseconds, or nothing.
#[derive(Debug, PartialEq, Eq)]
pub enum BuiltinEffect {
    Write(String),
    WriteLine(String),
    Sleep(u64),
    Nothing,
}

pub enum SpecBuiltinEffect {
    Write(Seq<char>),
    WriteLine(Seq<char>),
    Sleep(u64),
    Nothing,
}

impl View for BuiltinEffect {
    type V = SpecBuiltinEffect;

    open spec fn view(&self) -> SpecBuiltinEffect {
        match self {
            BuiltinEffect::Write(s) => SpecBuiltinEffect::Write(s@),
            BuiltinEffect::WriteLine(s) => SpecBuiltinEffect::WriteLine(s@),
            BuiltinEffect::Sleep(ns) => SpecBuiltinEffect::Sleep(*ns),
            BuiltinEffect::Nothing => SpecBuiltinEffect::Nothing,
        }
    }
}

/// The effect of `time::sleep(args)`, or the error it fails with.
pub open spec fn sleep_effect(args: Seq<SpecValue>) -> Result<SpecBuiltinEffect, Seq<char>> {
    match sleep_outcome(args) {
        Ok(Some(ns)) => Ok(SpecBuiltinEffect::Sleep(ns)),
        Ok(None) => Ok(SpecBuiltinEffect::Nothing),
        Err(e) => Err(e),
    }
}

/// The effect of running the builtin `func` on `args`, or its error.
pub open spec fn call_outcome(func: BuiltinFn, args: Seq<SpecValue>) -> Result<SpecBuiltinEffect, Seq<char>> {
    match func {
        BuiltinFn::Print => Ok(SpecBuiltinEffect::Write(display_all(args))),
        BuiltinFn::Println => Ok(SpecBuiltinEffect::WriteLine(display_all(args))),
        BuiltinFn::TimeSleep => sleep_effect(args),
    }
}

/// Runs the builtin `func` on `args` as far as it computes: the effect the
/// caller carries out, or the error the call fails with.
pub fn builtin_call(func: BuiltinFn, args: &[Value]) -> (r: Result<BuiltinEffect, String>)
    ensures
        match (r, call_outcome(func, values_view(args@))) {
            (Ok(a), Ok(b)) => a@ == b,
            (Err(a), Err(b)) => a@ == b,
            _ => false,
        },
{
    match func {
        BuiltinFn::Print => Ok(BuiltinEffect::Write(render_args(args))),
        BuiltinFn::Println => Ok(BuiltinEffect::WriteLine(render_args(args))),
        BuiltinFn::TimeSleep => match time_sleep_request(args) {
            Ok(Some(ns)) => Ok(BuiltinEffect::Sleep(ns)),
            Ok(None) => Ok(BuiltinEffect::Nothing),
            Err(e) => Err(e),
        },
    }
}

/// The builtin that the path `time::sleep` resolves to behaves as
/// `time::sleep`, for every argument list: it sleeps for a positive
/// duration, returns at once for any other duration, and fails with the
/// same error otherwise.
pub proof fn law_resolved_time_sleep_is_time_sleep(v: SpecValue, args: Seq<SpecValue>)
    requires
        v == builtin_value("time::sleep"@, BuiltinFn::TimeSleep),
    ensures
        v matches SpecValue::Builtin { func, .. } && call_outcome(func, args) == sleep_effect(args),
        sleep_outcome(args) matches Ok(Some(ns)) ==> call_outcome(BuiltinFn::TimeSleep, args) == Ok::<SpecBuiltinEffect, Seq<char>>(SpecBuiltinEffect::Sleep(ns)),
        sleep_outcome(args) matches Ok(None) ==> call_outcome(BuiltinFn::TimeSleep, args) == Ok::<SpecBuiltinEffect, Seq<char>>(SpecBuiltinEffect::Nothing),
        sleep_outcome(args) matches Err(e) ==> call_outcome(BuiltinFn::TimeSleep, args) == Err::<SpecBuiltinEffect, Seq<char>>(e),
{
}

/// The builtins that `install_builtins` binds to `print` and `println`
/// write the displays of their arguments, the latter with a newline.
pub proof fn law_installed_print_writes_displays(env: Map<Seq<char>, SpecValue>, args: Seq<SpecValue>)
    ensures
        ({
            let e = env.insert("print"@, builtin_value("print"@, BuiltinFn::Print)).insert(
                "println"@,
                builtin_value("println"@, BuiltinFn::Println),
            );
            &&& e["print"@] matches SpecValue::Builtin { func, .. }
                && call_outcome(func, args) == Ok::<SpecBuiltinEffect, Seq<char>>(SpecBuiltinEffect::Write(display_all(args)))
            &&& e["println"@] matches SpecValue::Builtin { func, .. }
                && call_outcome(func, args) == Ok::<SpecBuiltinEffect, Seq<char>>(SpecBuiltinEffect::WriteLine(display_all(args)))
        }),
{
    reveal_strlit("print");
    reveal_strlit("println");
    assert("print"@ != "println"@) by {
        assert("print"@.len() != "println"@.len());
    }
}

/// How `print` shows each kind of value: a `Bool` as `true` or `false`
/// (so two different `Bool`s never print alike), an `Int` in decimal with
/// a `-` exactly when it is negative, a `String` as its own text, a
/// `Duration` as its nanoseconds in decimal followed by `ns`, unit as `()`
/// and a builtin as `<builtin name>`.
pub proof fn law_display_shows_the_value(b: bool, c: bool, i: i64, s: Seq<char>, name: Seq<char>, f: BuiltinFn)
    ensures
        display_of(SpecValue::Bool(b)) == (if b {
            "true"@
        } else {
            "false"@
        }),
        display_of(SpecValue::Bool(b)) == display_of(SpecValue::Bool(c)) <==> b == c,
        display_of(SpecValue::Int(i)).len() > 0,
        (display_of(SpecValue::Int(i))[0] == '-') <==> i < 0,
        display_of(SpecValue::Str(s)) == s,
        display_of(SpecValue::Duration(i)) == display_of(SpecValue::Int(i)) + "ns"@,
        display_of(SpecValue::Unit) == "()"@,
        display_of(SpecValue::Builtin { name, func: f }) == "<builtin "@ + name + ">"@,
{
    reveal_strlit("true");
    reveal_strlit("false");
    assert("true"@ != "false"@) by {
        assert("true"@.len() != "false"@.len());
    }
    lemma_digits_not_minus((if i < 0 {
        -(i as int)
    } else {
        i as int
    }) as nat);
    if i < 0 {
        assert((seq!['-'] + digits_of((-i) as nat))[0] == '-');
    }
}

proof fn lemma_digits_not_minus(n: nat)
    ensures
        digits_of(n).len() > 0,
        digits_of(n)[0] != '-',
    decreases n,
{
    if n < 10 {
        let k: u8 = (48 + n) as u8;
        assert(k == 48 + n);
        assert(k as char != '-');
    } else {
        lemma_digits_not_minus(n / 10);
        assert(digits_of(n)[0] == digits_of(n / 10)[0]);
    }
}

proof fn lemma_display_all_concat(a: Seq<SpecValue>, b: Seq<SpecValue>)
    ensures
        display_all(a + b) == display_all(a) + display_all(b),
    decreases b.len(),
{
    if b.len() == 0 {
        assert(a + b =~= a);
        assert(display_all(a) + display_all(b) =~= display_all(a));
    } else {
        lemma_display_all_concat(a, b.drop_last());
        assert((a + b).drop_last() =~= a + b.drop_last());
        assert(display_all(a) + display_all(b.drop_last()) + display_of(b.last()) =~= display_all(a)
            + display_all(b));
    }
}

/// What `print` writes for a list of arguments is what it writes for each
/// part of the list, one after the other; for a single argument it is that
/// argument's display.
pub proof fn law_print_writes_each_argument_in_turn(a: Seq<SpecValue>, b: Seq<SpecValue>, v: SpecValue)
    ensures
        display_all(a + b) == display_all(a) + display_all(b),
        display_all(seq![v]) == display_of(v),
        call_outcome(BuiltinFn::Print, a + b) == Ok::<SpecBuiltinEffect, Seq<char>>(
            SpecBuiltinEffect::Write(display_all(a) + display_all(b)),
        ),
        call_outcome(BuiltinFn::Println, seq![v]) == Ok::<SpecBuiltinEffect, Seq<char>>(
            SpecBuiltinEffect::WriteLine(display_of(v)),
        ),
{
    lemma_display_all_concat(a, b);
    let one = seq![v];
    assert(one.drop_last() =~= Seq::<SpecValue>::empty());
    assert(one.last() == v);
    assert(display_all(one) == display_all(one.drop_last()) + display_of(v));
    assert(Seq::<char>::empty() + display_of(v) =~= display_of(v));
}

} // verus!
