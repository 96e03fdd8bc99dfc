//! What the operators and the built-in functions compute.

use crate::machine::Evaluator;
use crate::text::{decimal, decimal_nat, push_count, push_int};
use crate::value::{bound, Native, Object, ObjectV, State, Value};
use crate::machine::find_binding;
use vstd::prelude::*;
use vstd::std_specs::iter::IteratorSpec;
use vstd::string::StrSliceExecFns;
use vstd::string::StringExecFns;
use vstd::utf8::encode_utf8;

verus! {

/// How two values stand to each other.
#[derive(PartialEq, Eq, Structural, Debug, Clone, Copy)]
pub enum Order {
    Less,
    Equal,
    Greater,
}

/// How two strings stand to each other from their character `i` on, given
/// that they agree before it: the first character that differs decides, and
/// a string stands before all that go on from it.
pub open spec fn text_order(a: Seq<char>, b: Seq<char>, i: int) -> Order
    decreases a.len() - i,
{
    if i < 0 || i >= a.len() {
        if i >= b.len() {
            Order::Equal
        } else {
            Order::Less
        }
    } else if i >= b.len() {
        Order::Greater
    } else if a[i] < b[i] {
        Order::Less
    } else if a[i] > b[i] {
        Order::Greater
    } else {
        text_order(a, b, i + 1)
    }
}

pub open spec fn int_order(a: int, b: int) -> Order {
    if a < b {
        Order::Less
    } else if a > b {
        Order::Greater
    } else {
        Order::Equal
    }
}

/// Same object or nothing: what the comparison of two objects gives.
pub open spec fn same(a: usize, b: usize) -> Option<Order> {
    if a == b {
        Some(Order::Equal)
    } else {
        None
    }
}

/// How `l` and `r` stand to each other; `None` where they cannot be
/// compared. Values of two kinds cannot; numbers, truth values (`false`
/// first) and strings are ordered; functions, struct types, instances and
/// lists are equal to themselves and to nothing else.
pub open spec fn compare(s: State, l: Value, r: Value) -> Option<Order> {
    match (l, r) {
        (Value::Nil, Value::Nil) => Some(Order::Equal),
        (Value::Int(a), Value::Int(b)) => Some(int_order(a as int, b as int)),
        (Value::Bool(a), Value::Bool(b)) => Some(
            int_order(if a { 1 } else { 0 }, if b { 1 } else { 0 }),
        ),
        (Value::Str(a), Value::Str(b)) => match (s.text(a), s.text(b)) {
            (Some(x), Some(y)) => Some(text_order(x, y, 0)),
            _ => None,
        },
        (Value::NativeFunc(a), Value::NativeFunc(b)) => same(a, b),
        (Value::Struct(a), Value::Struct(b)) => same(a, b),
        (Value::Instance(a), Value::Instance(b)) => same(a, b),
        (Value::List(a), Value::List(b)) => same(a, b),
        (Value::UserFunc(a), Value::UserFunc(b)) => same(a, b),
        _ => None,
    }
}

/// The name of the type of a value, for messages.
pub open spec fn kind_name(s: State, v: Value) -> Seq<char> {
    match v {
        Value::Nil => "nil"@,
        Value::Int(_) => "Int"@,
        Value::Bool(_) => "Bool"@,
        Value::Str(_) => "Str"@,
        Value::NativeFunc(_) => "NativeFn"@,
        Value::Struct(_) => "Struct"@,
        Value::Instance(id) => match s.object(id) {
            Some(ObjectV::Instance { ty, .. }) => match s.object(ty) {
                Some(ObjectV::Struct { name, .. }) => name,
                _ => "Instance"@,
            },
            _ => "Instance"@,
        },
        Value::List(_) => "List"@,
        Value::UserFunc(_) => "Fn"@,
    }
}

/// The name of the object `id`, where it has one.
pub open spec fn object_name(s: State, id: usize) -> Seq<char> {
    match s.object(id) {
        Some(ObjectV::Struct { name, .. }) => name,
        Some(ObjectV::NativeFunc { name, .. }) => name,
        Some(ObjectV::UserFunc { name, .. }) => name,
        _ => Seq::empty(),
    }
}

/// A value as `print` writes it.
pub open spec fn stringify(s: State, v: Value) -> Seq<char> {
    match v {
        Value::Nil => "nil"@,
        Value::Int(x) => decimal(x as int),
        Value::Bool(x) => if x {
            "true"@
        } else {
            "false"@
        },
        Value::Str(id) => match s.text(id) {
            Some(t) => t,
            None => Seq::empty(),
        },
        Value::NativeFunc(id) => "<native "@ + object_name(s, id) + ">"@,
        Value::Struct(id) => "<struct "@ + object_name(s, id) + ">"@,
        Value::Instance(_) => "<"@ + kind_name(s, v) + ">"@,
        Value::List(_) => "<list>"@,
        Value::UserFunc(id) => "<fn "@ + object_name(s, id) + ">"@,
    }
}

pub open spec fn in_range(n: int) -> bool {
    i64::MIN <= n <= i64::MAX
}

/// Division that rounds towards zero.
pub open spec fn trunc_div(a: int, b: int) -> int
    recommends
        b != 0,
{
    let q = (if a < 0 {
        -a
    } else {
        a
    }) / (if b < 0 {
        -b
    } else {
        b
    });
    if (a < 0) != (b < 0) {
        -q
    } else {
        q
    }
}

/// The message for an operator that does not take what it was given.
pub open spec fn mismatch(verb: Seq<char>, s: State, l: Value, r: Value) -> Seq<char> {
    "can't "@ + verb + " "@ + kind_name(s, l) + " and "@ + kind_name(s, r)
}

/// A number as the result of arithmetic: an error where it is out of range.
pub open spec fn number(n: int) -> Result<Value, Seq<char>> {
    if in_range(n) {
        Ok(Value::Int(n as i64))
    } else {
        Err("integer overflow"@)
    }
}

/// `l + r`: the sum of two numbers, or two strings one behind the other.
pub open spec fn sum(s: State, l: Value, r: Value) -> (State, Result<Value, Seq<char>>) {
    match (l, r) {
        (Value::Int(a), Value::Int(b)) => (s, number(a + b)),
        (Value::Str(a), Value::Str(b)) => match (s.text(a), s.text(b)) {
            (Some(x), Some(y)) => (
                s.store(ObjectV::Str(x + y)).0,
                Ok(Value::Str(s.store(ObjectV::Str(x + y)).1)),
            ),
            _ => (s, Err(mismatch("add"@, s, l, r))),
        },
        _ => (s, Err(mismatch("add"@, s, l, r))),
    }
}

/// `l - r`.
pub open spec fn difference(s: State, l: Value, r: Value) -> Result<Value, Seq<char>> {
    match (l, r) {
        (Value::Int(a), Value::Int(b)) => number(a - b),
        _ => Err(mismatch("subtract"@, s, l, r)),
    }
}

/// `l * r`.
pub open spec fn product(s: State, l: Value, r: Value) -> Result<Value, Seq<char>> {
    match (l, r) {
        (Value::Int(a), Value::Int(b)) => number(a * b),
        _ => Err(mismatch("multiply"@, s, l, r)),
    }
}

/// `l / r`, rounded towards zero.
pub open spec fn quotient(s: State, l: Value, r: Value) -> Result<Value, Seq<char>> {
    match (l, r) {
        (Value::Int(a), Value::Int(b)) => if b == 0 {
            Err("division by zero"@)
        } else {
            number(trunc_div(a as int, b as int))
        },
        _ => Err(mismatch("divide"@, s, l, r)),
    }
}

/// What the values `args` from `i` on look like when printed one behind the
/// other.
pub open spec fn joined(s: State, args: Seq<Value>, i: int) -> Seq<char>
    decreases args.len() - i,
{
    if i < 0 || i >= args.len() {
        Seq::empty()
    } else {
        stringify(s, args[i]) + joined(s, args, i + 1)
    }
}

/// The state after the values `args` from `i` on were printed.
pub open spec fn printed(s: State, args: Seq<Value>, i: int) -> State
    decreases args.len() - i,
{
    if i < 0 || i >= args.len() {
        s
    } else {
        printed(s.write(encode_utf8(stringify(s, args[i]))), args, i + 1)
    }
}

/// The message of `panic`.
pub open spec fn panic_message(s: State, args: Seq<Value>) -> Seq<char> {
    if args.len() == 0 {
        "panic"@
    } else {
        "panic: "@ + joined(s, args, 0)
    }
}

pub open spec fn out_of_bounds() -> Seq<char> {
    "index out of bounds"@
}

/// The message for an argument of the wrong type.
pub open spec fn wrong_argument(which: Seq<char>, want: Seq<char>, s: State, got: Value) -> Seq<
    char,
> {
    which + " argument must be "@ + want + " but was "@ + kind_name(s, got)
}

/// The character `idx` of the string `recv`, as a string of its own.
pub open spec fn string_get(s: State, recv: Value, idx: Value) -> (State, Result<Value, Seq<char>>) {
    match recv {
        Value::Str(id) if s.text(id) is Some => match idx {
            Value::Int(i) => if i < 0 || i >= s.text(id)->0.len() {
                (s, Err(out_of_bounds()))
            } else {
                (
                    s.store(ObjectV::Str(seq![s.text(id)->0[i as int]])).0,
                    Ok(Value::Str(s.heap.len() as usize)),
                )
            },
            _ => (s, Err(wrong_argument("second"@, "Int"@, s, idx))),
        },
        _ => (s, Err(wrong_argument("first"@, "Str"@, s, recv))),
    }
}

/// The `len` characters of the string `recv` from its character `start`
/// on, as a string of its own.
pub open spec fn substring(s: State, recv: Value, start: Value, len: Value) -> (
    State,
    Result<Value, Seq<char>>,
) {
    match recv {
        Value::Str(id) if s.text(id) is Some => match start {
            Value::Int(from) => match len {
                Value::Int(n) => if from < 0 || n < 0 || from + n > s.text(id)->0.len() {
                    (s, Err(out_of_bounds()))
                } else {
                    (
                        s.store(ObjectV::Str(s.text(id)->0.subrange(from as int, from + n))).0,
                        Ok(Value::Str(s.heap.len() as usize)),
                    )
                },
                _ => (s, Err(wrong_argument("third"@, "Int"@, s, len))),
            },
            _ => (s, Err(wrong_argument("second"@, "Int"@, s, start))),
        },
        _ => (s, Err(wrong_argument("first"@, "Str"@, s, recv))),
    }
}

/// The value `idx` of the list `recv`.
pub open spec fn list_get(s: State, recv: Value, idx: Value) -> Result<Value, Seq<char>> {
    match recv {
        Value::List(id) if s.items(id) is Some => match idx {
            Value::Int(i) => if i < 0 || i >= s.items(id)->0.len() {
                Err(out_of_bounds())
            } else {
                Ok(s.items(id)->0[i as int])
            },
            _ => Err(wrong_argument("second"@, "Int"@, s, idx)),
        },
        _ => Err(wrong_argument("first"@, "List"@, s, recv)),
    }
}

/// The message for a built-in function that got `got` arguments where it
/// takes `want`.
pub open spec fn arity_message(name: Seq<char>, want: nat, got: nat) -> Seq<char> {
    name + " expects "@ + decimal_nat(want) + (if want == 1 {
        " argument, got "@
    } else {
        " arguments, got "@
    }) + decimal_nat(got)
}

/// What the native function `f` does with `args`.
pub open spec fn call_native(s: State, f: Native, args: Seq<Value>) -> (
    State,
    Result<Value, Seq<char>>,
) {
    match f {
        Native::Print => (printed(s, args, 0), Ok(Value::Nil)),
        Native::Println => (printed(s, args, 0).write(seq![0x0au8]), Ok(Value::Nil)),
        Native::Panic => (s, Err(panic_message(s, args))),
        Native::ListCtor => (s.store(ObjectV::List(args)).0, Ok(Value::List(s.heap.len() as usize))),
        Native::StrGet(recv) => if args.len() == 1 {
            string_get(s, recv, args[0])
        } else {
            (s, Err(arity_message("get"@, 1, args.len())))
        },
        Native::StrSubstring(recv) => if args.len() == 2 {
            substring(s, recv, args[0], args[1])
        } else {
            (s, Err(arity_message("substring"@, 2, args.len())))
        },
        Native::ListGet(recv) => if args.len() == 1 {
            (s, list_get(s, recv, args[0]))
        } else {
            (s, Err(arity_message("get"@, 1, args.len())))
        },
    }
}

/// The field `field` of `obj`. A string has `len`, `get` and `substring`,
/// a list has `len` and `get`, an instance has what was set on it. The
/// functions among them are made anew each time.
pub open spec fn lookup_field(s: State, obj: Value, field: Seq<char>) -> (State, Option<Value>) {
    match obj {
        Value::Str(id) => if s.text(id) is None {
            (s, None)
        } else if field == "len"@ {
            (
                s,
                if s.text(id)->0.len() <= i64::MAX {
                    Some(Value::Int(s.text(id)->0.len() as i64))
                } else {
                    None
                },
            )
        } else if field == "get"@ {
            (
                s.store(ObjectV::NativeFunc { name: "get"@, func: Native::StrGet(obj) }).0,
                Some(Value::NativeFunc(s.heap.len() as usize)),
            )
        } else if field == "substring"@ {
            (
                s.store(ObjectV::NativeFunc { name: "substring"@, func: Native::StrSubstring(obj) }).0,
                Some(Value::NativeFunc(s.heap.len() as usize)),
            )
        } else {
            (s, None)
        },
        Value::List(id) => if s.items(id) is None {
            (s, None)
        } else if field == "len"@ {
            (
                s,
                if s.items(id)->0.len() <= i64::MAX {
                    Some(Value::Int(s.items(id)->0.len() as i64))
                } else {
                    None
                },
            )
        } else if field == "get"@ {
            (
                s.store(ObjectV::NativeFunc { name: "get"@, func: Native::ListGet(obj) }).0,
                Some(Value::NativeFunc(s.heap.len() as usize)),
            )
        } else {
            (s, None)
        },
        Value::Instance(id) => match s.object(id) {
            Some(ObjectV::Instance { fields, .. }) => (s, bound(fields, field)),
            _ => (s, None),
        },
        _ => (s, None),
    }
}

/// Sets the field `field` of `obj`: only an instance has fields to set.
pub open spec fn set_field(s: State, obj: Value, field: Seq<char>, value: Value) -> (
    State,
    Result<(), Seq<char>>,
) {
    match obj {
        Value::Str(_) => (s, Err("Str fields cannot be modified"@)),
        Value::Instance(id) => (s.with_field(id, field, value), Ok(())),
        Value::List(_) => (s, Err("List fields cannot be modified"@)),
        _ => (s, Err(kind_name(s, obj) + " cannot have fields"@)),
    }
}

/// The struct types of the values that are no instances.
pub open spec fn builtin_type(v: Value) -> usize {
    match v {
        Value::Nil => 0,
        Value::Int(_) => 1,
        Value::Bool(_) => 2,
        Value::Str(_) => 3,
        Value::List(_) => 4,
        Value::Struct(_) => 5,
        _ => 6,
    }
}

/// The struct type of a value: for an instance the struct that made it, for
/// anything else the built-in type of its kind.
pub open spec fn value_type(s: State, v: Value) -> usize {
    match v {
        Value::Instance(id) => match s.object(id) {
            Some(ObjectV::Instance { ty, .. }) => ty,
            _ => builtin_type(v),
        },
        _ => builtin_type(v),
    }
}

/// Compares two strings.
pub fn order_text(a: &String, b: &String) -> (r: Order)
    ensures
        r == text_order(a@, b@, 0),
{
    let mut x = a.as_str().chars();
    let mut y = b.as_str().chars();
    let ghost mut i: int = 0;
    loop
        invariant
            0 <= i <= a@.len(),
            i <= b@.len(),
            x.remaining() == a@.skip(i),
            y.remaining() == b@.skip(i),
            text_order(a@, b@, 0) == text_order(a@, b@, i),
        decreases a@.len() - i,
    {
        let c = x.next();
        let d = y.next();
        match (c, d) {
            (None, None) => {
                return Order::Equal;
            },
            (None, Some(_)) => {
                return Order::Less;
            },
            (Some(_), None) => {
                return Order::Greater;
            },
            (Some(p), Some(q)) => {
                if p < q {
                    return Order::Less;
                } else if p > q {
                    return Order::Greater;
                }
                proof {
                    assert(a@.skip(i).drop_first() =~= a@.skip(i + 1));
                    assert(b@.skip(i).drop_first() =~= b@.skip(i + 1));
                    i = i + 1;
                }
            },
        }
    }
}

/// Whether `field` is the name `name`.
fn spells(field: &String, name: &str) -> (r: bool)
    ensures
        r == (field@ == name@),
{
    let other = name.to_owned();
    *field == other
}

fn order_int(a: i64, b: i64) -> (r: Order)
    ensures
        r == int_order(a as int, b as int),
{
    if a < b {
        Order::Less
    } else if a > b {
        Order::Greater
    } else {
        Order::Equal
    }
}

fn order_same(a: usize, b: usize) -> (r: Option<Order>)
    ensures
        r == same(a, b),
{
    if a == b {
        Some(Order::Equal)
    } else {
        None
    }
}

fn checked(n: i128) -> (r: Result<Value, String>)
    ensures
        match r {
            Ok(v) => number(n as int) == Ok::<Value, Seq<char>>(v),
            Err(m) => number(n as int) == Err::<Value, Seq<char>>(m@),
        },
{
    if n < i64::MIN as i128 || n > i64::MAX as i128 {
        Err("integer overflow".to_owned())
    } else {
        Ok(Value::Int(n as i64))
    }
}

impl<'a> Evaluator<'a> {
    pub fn compare(&self, lhs: Value, rhs: Value) -> (r: Option<Order>)
        ensures
            r == compare(self@, lhs, rhs),
    {
        match (lhs, rhs) {
            (Value::Nil, Value::Nil) => Some(Order::Equal),
            (Value::Int(a), Value::Int(b)) => Some(order_int(a, b)),
            (Value::Bool(a), Value::Bool(b)) => Some(
                order_int(if a { 1 } else { 0 }, if b { 1 } else { 0 }),
            ),
            (Value::Str(a), Value::Str(b)) => match (self.text_of(a), self.text_of(b)) {
                (Some(x), Some(y)) => Some(order_text(x, y)),
                _ => None,
            },
            (Value::NativeFunc(a), Value::NativeFunc(b)) => order_same(a, b),
            (Value::Struct(a), Value::Struct(b)) => order_same(a, b),
            (Value::Instance(a), Value::Instance(b)) => order_same(a, b),
            (Value::List(a), Value::List(b)) => order_same(a, b),
            (Value::UserFunc(a), Value::UserFunc(b)) => order_same(a, b),
            _ => None,
        }
    }

    pub fn less(&self, lhs: Value, rhs: Value) -> (r: Value)
        ensures
            r == Value::Bool(compare(self@, lhs, rhs) == Some(Order::Less)),
    {
        match self.compare(lhs, rhs) {
            Some(Order::Less) => Value::Bool(true),
            _ => Value::Bool(false),
        }
    }

    pub fn less_eq(&self, lhs: Value, rhs: Value) -> (r: Value)
        ensures
            r == Value::Bool(
                compare(self@, lhs, rhs) == Some(Order::Less) || compare(self@, lhs, rhs) == Some(
                    Order::Equal,
                ),
            ),
    {
        match self.compare(lhs, rhs) {
            Some(Order::Less) | Some(Order::Equal) => Value::Bool(true),
            _ => Value::Bool(false),
        }
    }

    pub fn greater(&self, lhs: Value, rhs: Value) -> (r: Value)
        ensures
            r == Value::Bool(compare(self@, lhs, rhs) == Some(Order::Greater)),
    {
        match self.compare(lhs, rhs) {
            Some(Order::Greater) => Value::Bool(true),
            _ => Value::Bool(false),
        }
    }

    pub fn greater_eq(&self, lhs: Value, rhs: Value) -> (r: Value)
        ensures
            r == Value::Bool(
                compare(self@, lhs, rhs) == Some(Order::Greater) || compare(self@, lhs, rhs)
                    == Some(Order::Equal),
            ),
    {
        match self.compare(lhs, rhs) {
            Some(Order::Greater) | Some(Order::Equal) => Value::Bool(true),
            _ => Value::Bool(false),
        }
    }

    pub fn eq(&self, lhs: Value, rhs: Value) -> (r: Value)
        ensures
            r == Value::Bool(compare(self@, lhs, rhs) == Some(Order::Equal)),
    {
        match self.compare(lhs, rhs) {
            Some(Order::Equal) => Value::Bool(true),
            _ => Value::Bool(false),
        }
    }

    pub fn not_eq(&self, lhs: Value, rhs: Value) -> (r: Value)
        ensures
            r == Value::Bool(compare(self@, lhs, rhs) != Some(Order::Equal)),
    {
        match self.compare(lhs, rhs) {
            Some(Order::Equal) => Value::Bool(false),
            _ => Value::Bool(true),
        }
    }

    pub fn kind_name(&self, v: Value) -> (r: String)
        ensures
            r@ == kind_name(self@, v),
    {
        match v {
            Value::Nil => "nil".to_owned(),
            Value::Int(_) => "Int".to_owned(),
            Value::Bool(_) => "Bool".to_owned(),
            Value::Str(_) => "Str".to_owned(),
            Value::NativeFunc(_) => "NativeFn".to_owned(),
            Value::Struct(_) => "Struct".to_owned(),
            Value::Instance(id) => match self.object(id) {
                Some(Object::Instance { ty, .. }) => match self.object(*ty) {
                    Some(Object::Struct { name, .. }) => name.clone(),
                    _ => "Instance".to_owned(),
                },
                _ => "Instance".to_owned(),
            },
            Value::List(_) => "List".to_owned(),
            Value::UserFunc(_) => "Fn".to_owned(),
        }
    }

    /// The name of the object `id`, where it has one.
    pub fn object_name(&self, id: usize) -> (r: String)
        ensures
            r@ == object_name(self@, id),
    {
        match self.object(id) {
            Some(Object::Struct { name, .. }) => name.clone(),
            Some(Object::NativeFunc { name, .. }) => name.clone(),
            Some(Object::UserFunc { name, .. }) => name.clone(),
            _ => String::new(),
        }
    }

    pub fn stringify(&self, v: Value) -> (r: String)
        ensures
            r@ == stringify(self@, v),
    {
        match v {
            Value::Nil => "nil".to_owned(),
            Value::Int(x) => {
                let mut out = String::new();
                push_int(&mut out, x);
                assert(out@ =~= decimal(x as int));
                out
            },
            Value::Bool(x) => if x {
                "true".to_owned()
            } else {
                "false".to_owned()
            },
            Value::Str(id) => match self.text_of(id) {
                Some(t) => t.clone(),
                None => String::new(),
            },
            Value::NativeFunc(id) => self.bracketed("<native ", self.object_name(id)),
            Value::Struct(id) => self.bracketed("<struct ", self.object_name(id)),
            Value::Instance(_) => self.bracketed("<", self.kind_name(v)),
            Value::List(_) => "<list>".to_owned(),
            Value::UserFunc(id) => self.bracketed("<fn ", self.object_name(id)),
        }
    }

    fn bracketed(&self, open: &str, name: String) -> (r: String)
        ensures
            r@ == open@ + name@ + ">"@,
    {
        let mut out = open.to_owned();
        out.append(name.as_str());
        out.append(">");
        out
    }

    fn mismatch(&self, verb: &str, lhs: Value, rhs: Value) -> (r: String)
        ensures
            r@ == mismatch(verb@, self@, lhs, rhs),
    {
        let mut out = "can't ".to_owned();
        out.append(verb);
        out.append(" ");
        out.append(self.kind_name(lhs).as_str());
        out.append(" and ");
        out.append(self.kind_name(rhs).as_str());
        out
    }

    pub fn add(&mut self, lhs: Value, rhs: Value) -> (r: Result<Value, String>)
        ensures
            final(self)@ == sum(old(self)@, lhs, rhs).0,
            match r {
                Ok(v) => sum(old(self)@, lhs, rhs).1 == Ok::<Value, Seq<char>>(v),
                Err(m) => sum(old(self)@, lhs, rhs).1 == Err::<Value, Seq<char>>(m@),
            },
    {
        match (lhs, rhs) {
            (Value::Int(a), Value::Int(b)) => checked(a as i128 + b as i128),
            (Value::Str(a), Value::Str(b)) => {
                let both = match (self.text_of(a), self.text_of(b)) {
                    (Some(x), Some(y)) => {
                        let mut out = x.clone();
                        out.append(y.as_str());
                        Some(out)
                    },
                    _ => None,
                };
                match both {
                    Some(out) => Ok(self.store_str(out)),
                    None => Err(self.mismatch("add", lhs, rhs)),
                }
            },
            _ => Err(self.mismatch("add", lhs, rhs)),
        }
    }

    pub fn sub(&self, lhs: Value, rhs: Value) -> (r: Result<Value, String>)
        ensures
            match r {
                Ok(v) => difference(self@, lhs, rhs) == Ok::<Value, Seq<char>>(v),
                Err(m) => difference(self@, lhs, rhs) == Err::<Value, Seq<char>>(m@),
            },
    {
        match (lhs, rhs) {
            (Value::Int(a), Value::Int(b)) => checked(a as i128 - b as i128),
            _ => Err(self.mismatch("subtract", lhs, rhs)),
        }
    }

    pub fn mul(&self, lhs: Value, rhs: Value) -> (r: Result<Value, String>)
        ensures
            match r {
                Ok(v) => product(self@, lhs, rhs) == Ok::<Value, Seq<char>>(v),
                Err(m) => product(self@, lhs, rhs) == Err::<Value, Seq<char>>(m@),
            },
    {
        match (lhs, rhs) {
            (Value::Int(a), Value::Int(b)) => {
                assert(i64::MIN * i64::MAX <= a * b <= i64::MIN * i64::MIN) by (nonlinear_arith)
                    requires
                        i64::MIN <= a <= i64::MAX,
                        i64::MIN <= b <= i64::MAX,
                ;
                checked(a as i128 * b as i128)
            },
            _ => Err(self.mismatch("multiply", lhs, rhs)),
        }
    }

    pub fn div(&self, lhs: Value, rhs: Value) -> (r: Result<Value, String>)
        ensures
            match r {
                Ok(v) => quotient(self@, lhs, rhs) == Ok::<Value, Seq<char>>(v),
                Err(m) => quotient(self@, lhs, rhs) == Err::<Value, Seq<char>>(m@),
            },
    {
        match (lhs, rhs) {
            (Value::Int(a), Value::Int(b)) => {
                if b == 0 {
                    return Err("division by zero".to_owned());
                }
                let x: u64 = if a < 0 {
                    (-(a as i128)) as u64
                } else {
                    a as u64
                };
                let y: u64 = if b < 0 {
                    (-(b as i128)) as u64
                } else {
                    b as u64
                };
                let q: u64 = x / y;
                if (a < 0) != (b < 0) {
                    checked(-(q as i128))
                } else {
                    checked(q as i128)
                }
            },
            _ => Err(self.mismatch("divide", lhs, rhs)),
        }
    }

    /// Writes the values one behind the other.
    pub fn print(&mut self, values: &Vec<Value>)
        ensures
            final(self)@ == printed(old(self)@, values@, 0),
    {
        let mut i: usize = 0;
        while i < values.len()
            invariant
                i <= values@.len(),
                printed(old(self)@, values@, 0) == printed(self@, values@, i as int),
            decreases values@.len() - i,
        {
            let text = self.stringify(values[i]);
            self.do_write(text.as_str().as_bytes());
            i += 1;
        }
    }

    /// Writes the values one behind the other, and a line feed.
    pub fn println(&mut self, values: &Vec<Value>)
        ensures
            final(self)@ == printed(old(self)@, values@, 0).write(seq![0x0au8]),
    {
        self.print(values);
        let mut line: Vec<u8> = Vec::new();
        line.push(0x0a);
        self.do_write(line.as_slice());
        assert(line@ =~= seq![0x0au8]);
    }

    fn do_write(&mut self, bytes: &[u8])
        ensures
            final(self)@ == old(self)@.write(bytes@),
    {
        self.write(bytes);
    }

    /// The message of `panic`.
    pub fn panic(&self, args: &Vec<Value>) -> (r: String)
        ensures
            r@ == panic_message(self@, args@),
    {
        if args.len() == 0 {
            return "panic".to_owned();
        }
        let mut message = "panic: ".to_owned();
        let mut rest = String::new();
        let mut i: usize = args.len();
        let ghost head = message@;
        assert(joined(self@, args@, i as int) =~= Seq::empty());
        while i > 0
            invariant
                i <= args@.len(),
                rest@ == joined(self@, args@, i as int),
            decreases i,
        {
            i -= 1;
            let mut piece = self.stringify(args[i]);
            piece.append(rest.as_str());
            rest = piece;
        }
        message.append(rest.as_str());
        message
    }

    fn wrong_argument(&self, which: &str, want: &str, got: Value) -> (r: String)
        ensures
            r@ == wrong_argument(which@, want@, self@, got),
    {
        let mut out = which.to_owned();
        out.append(" argument must be ");
        out.append(want);
        out.append(" but was ");
        out.append(self.kind_name(got).as_str());
        out
    }

    pub fn string_get(&mut self, s: Value, idx: Value) -> (r: Result<Value, String>)
        ensures
            final(self)@ == string_get(old(self)@, s, idx).0,
            match r {
                Ok(v) => string_get(old(self)@, s, idx).1 == Ok::<Value, Seq<char>>(v),
                Err(m) => string_get(old(self)@, s, idx).1 == Err::<Value, Seq<char>>(m@),
            },
    {
        let text = match s {
            Value::Str(id) => self.text_of(id),
            _ => None,
        };
        let text = match text {
            Some(text) => text,
            None => {
                return Err(self.wrong_argument("first", "Str", s));
            },
        };
        let idx = match idx {
            Value::Int(i) => i,
            other => {
                return Err(self.wrong_argument("second", "Int", other));
            },
        };
        let n = text.as_str().unicode_len();
        if idx < 0 || idx as u64 >= n as u64 {
            return Err("index out of bounds".to_owned());
        }
        let c = text.as_str().get_char(idx as usize);
        let mut one = String::new();
        one.push(c);
        assert(one@ =~= seq![c]);
        Ok(self.store_str(one))
    }

    pub fn substring(&mut self, s: Value, start: Value, len: Value) -> (r: Result<Value, String>)
        ensures
            final(self)@ == substring(old(self)@, s, start, len).0,
            match r {
                Ok(v) => substring(old(self)@, s, start, len).1 == Ok::<Value, Seq<char>>(v),
                Err(m) => substring(old(self)@, s, start, len).1 == Err::<Value, Seq<char>>(m@),
            },
    {
        let text = match s {
            Value::Str(id) => self.text_of(id),
            _ => None,
        };
        let text = match text {
            Some(text) => text,
            None => {
                return Err(self.wrong_argument("first", "Str", s));
            },
        };
        let start = match start {
            Value::Int(i) => i,
            other => {
                return Err(self.wrong_argument("second", "Int", other));
            },
        };
        let len = match len {
            Value::Int(i) => i,
            other => {
                return Err(self.wrong_argument("third", "Int", other));
            },
        };
        let n = text.as_str().unicode_len();
        if start < 0 || len < 0 || start as i128 + len as i128 > n as i128 {
            return Err("index out of bounds".to_owned());
        }
        let from = start as usize;
        let part = text.as_str().substring_char(from, from + len as usize).to_owned();
        Ok(self.store_str(part))
    }

    pub fn list_get(&self, s: Value, idx: Value) -> (r: Result<Value, String>)
        ensures
            match r {
                Ok(v) => list_get(self@, s, idx) == Ok::<Value, Seq<char>>(v),
                Err(m) => list_get(self@, s, idx) == Err::<Value, Seq<char>>(m@),
            },
    {
        let items = match s {
            Value::List(id) => self.items_of(id),
            _ => None,
        };
        let items = match items {
            Some(items) => items,
            None => {
                return Err(self.wrong_argument("first", "List", s));
            },
        };
        let idx = match idx {
            Value::Int(i) => i,
            other => {
                return Err(self.wrong_argument("second", "Int", other));
            },
        };
        if idx < 0 || idx as u64 >= items.len() as u64 {
            Err("index out of bounds".to_owned())
        } else {
            Ok(items[idx as usize])
        }
    }

    /// The list of the values `values`.
    pub fn list_ctor(&mut self, values: Vec<Value>) -> (r: Value)
        ensures
            final(self)@ == old(self)@.store(ObjectV::List(values@)).0,
            r == Value::List(old(self)@.heap.len() as usize),
    {
        Value::List(self.store(Object::List(values)))
    }

    fn arity_message(&self, name: &str, want: usize, got: usize) -> (r: String)
        ensures
            r@ == arity_message(name@, want as nat, got as nat),
    {
        let mut out = name.to_owned();
        out.append(" expects ");
        push_count(&mut out, want);
        if want == 1 {
            out.append(" argument, got ");
        } else {
            out.append(" arguments, got ");
        }
        push_count(&mut out, got);
        out
    }

    /// Calls a native function.
    pub fn call_native(&mut self, f: Native, args: Vec<Value>) -> (r: Result<Value, String>)
        ensures
            final(self)@ == call_native(old(self)@, f, args@).0,
            match r {
                Ok(v) => call_native(old(self)@, f, args@).1 == Ok::<Value, Seq<char>>(v),
                Err(m) => call_native(old(self)@, f, args@).1 == Err::<Value, Seq<char>>(m@),
            },
    {
        match f {
            Native::Print => {
                self.print(&args);
                Ok(Value::Nil)
            },
            Native::Println => {
                self.println(&args);
                Ok(Value::Nil)
            },
            Native::Panic => Err(self.panic(&args)),
            Native::ListCtor => Ok(self.list_ctor(args)),
            Native::StrGet(recv) => {
                if args.len() == 1 {
                    self.string_get(recv, args[0])
                } else {
                    Err(self.arity_message("get", 1, args.len()))
                }
            },
            Native::StrSubstring(recv) => {
                if args.len() == 2 {
                    self.substring(recv, args[0], args[1])
                } else {
                    Err(self.arity_message("substring", 2, args.len()))
                }
            },
            Native::ListGet(recv) => {
                if args.len() == 1 {
                    self.list_get(recv, args[0])
                } else {
                    Err(self.arity_message("get", 1, args.len()))
                }
            },
        }
    }

    pub fn lookup_field(&mut self, obj: Value, field: &String) -> (r: Option<Value>)
        ensures
            (final(self)@, r) == lookup_field(old(self)@, obj, field@),
    {
        match obj {
            Value::Str(id) => {
                let n = match self.text_of(id) {
                    Some(text) => text.as_str().unicode_len(),
                    None => {
                        return None;
                    },
                };
                if spells(field, "len") {
                    if n as u64 <= i64::MAX as u64 {
                        Some(Value::Int(n as i64))
                    } else {
                        None
                    }
                } else if spells(field, "get") {
                    Some(self.store_native("get", Native::StrGet(obj)))
                } else if spells(field, "substring") {
                    Some(self.store_native("substring", Native::StrSubstring(obj)))
                } else {
                    None
                }
            },
            Value::List(id) => {
                let n = match self.items_of(id) {
                    Some(items) => items.len(),
                    None => {
                        return None;
                    },
                };
                if spells(field, "len") {
                    if n as u64 <= i64::MAX as u64 {
                        Some(Value::Int(n as i64))
                    } else {
                        None
                    }
                } else if spells(field, "get") {
                    Some(self.store_native("get", Native::ListGet(obj)))
                } else {
                    None
                }
            },
            Value::Instance(id) => match self.object(id) {
                Some(Object::Instance { fields, .. }) => match find_binding(fields, field) {
                    Some(k) => Some(fields[k].value),
                    None => None,
                },
                _ => None,
            },
            _ => None,
        }
    }

    fn store_native(&mut self, name: &str, func: Native) -> (r: Value)
        ensures
            final(self)@ == old(self)@.store(ObjectV::NativeFunc { name: name@, func }).0,
            r == Value::NativeFunc(old(self)@.heap.len() as usize),
    {
        Value::NativeFunc(self.store(Object::NativeFunc { name: name.to_owned(), func }))
    }

    pub fn set_field(&mut self, obj: Value, field: &String, value: Value) -> (r: Result<(), String>)
        ensures
            final(self)@ == set_field(old(self)@, obj, field@, value).0,
            match r {
                Ok(_) => set_field(old(self)@, obj, field@, value).1 is Ok,
                Err(m) => set_field(old(self)@, obj, field@, value).1 == Err::<(), Seq<char>>(m@),
            },
    {
        match obj {
            Value::Str(_) => Err("Str fields cannot be modified".to_owned()),
            Value::Instance(id) => {
                self.put_field(id, field, value);
                Ok(())
            },
            Value::List(_) => Err("List fields cannot be modified".to_owned()),
            _ => {
                let mut out = self.kind_name(obj);
                out.append(" cannot have fields");
                Err(out)
            },
        }
    }

    /// The struct type of a value.
    pub fn value_type(&self, value: Value) -> (r: usize)
        ensures
            r == value_type(self@, value),
    {
        match value {
            Value::Nil => 0,
            Value::Int(_) => 1,
            Value::Bool(_) => 2,
            Value::Str(_) => 3,
            Value::List(_) => 4,
            Value::Struct(_) => 5,
            Value::Instance(id) => match self.object(id) {
                Some(Object::Instance { ty, .. }) => *ty,
                _ => 6,
            },
            _ => 6,
        }
    }
}

} // verus!
