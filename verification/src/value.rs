//! The values of a running program, the objects that they point to, and the
//! environments that name them.
//!
//! Strings, lists, struct types, instances and functions live in a heap, and
//! a value holds the index of its object: two values are the same object
//! where they hold the same index. The bindings of the scopes live in an
//! arena of their own, each with the environment that it was put in front
//! of, so that all who hold an environment see what is assigned through it.

use crate::ast::FnDef;
use vstd::prelude::*;

verus! {

/// A value.
#[derive(PartialEq, Eq, Structural, Debug, Clone, Copy)]
pub enum Value {
    Nil,
    Int(i64),
    Bool(bool),
    Str(usize),
    NativeFunc(usize),
    Struct(usize),
    Instance(usize),
    List(usize),
    UserFunc(usize),
}

/// What a native function does. The functions that a string or a list
/// hands out hold the value that they were taken from.
#[derive(PartialEq, Eq, Structural, Debug, Clone, Copy)]
pub enum Native {
    Print,
    Println,
    Panic,
    ListCtor,
    StrGet(Value),
    StrSubstring(Value),
    ListGet(Value),
}

/// An environment: a binding of the arena with all that is behind it, or
/// the globals, seen directly or from behind a fence.
#[derive(PartialEq, Eq, Structural, Debug, Clone, Copy)]
pub enum Env {
    Chain(usize),
    GlobalFence,
    Global,
}

/// A name with its value: a global, or a field of an instance.
#[derive(Debug)]
pub struct Binding {
    pub name: String,
    pub value: Value,
}

/// A binding of a scope, in front of the environment `next`.
#[derive(Debug)]
pub struct EnvEntry {
    pub name: String,
    pub value: Value,
    pub next: Env,
}

/// An object of the heap.
#[derive(Debug)]
pub enum Object<'a> {
    Str(String),
    List(Vec<Value>),
    Struct { name: String, ctor: Option<Native> },
    Instance { ty: usize, fields: Vec<Binding> },
    NativeFunc { name: String, func: Native },
    UserFunc { name: String, def: &'a FnDef, env: Env },
}

pub struct BindingV {
    pub name: Seq<char>,
    pub value: Value,
}

pub struct EnvEntryV {
    pub name: Seq<char>,
    pub value: Value,
    pub next: Env,
}

pub enum ObjectV {
    Str(Seq<char>),
    List(Seq<Value>),
    Struct { name: Seq<char>, ctor: Option<Native> },
    Instance { ty: usize, fields: Seq<BindingV> },
    NativeFunc { name: Seq<char>, func: Native },
    UserFunc { name: Seq<char>, def: FnDef, env: Env },
}

/// All that a running program has: its heap, the bindings of its scopes, its
/// globals, and what it has written.
pub struct State {
    pub heap: Seq<ObjectV>,
    pub nodes: Seq<EnvEntryV>,
    pub globals: Seq<BindingV>,
    pub output: Seq<u8>,
}

pub open spec fn binding_view(b: Binding) -> BindingV {
    BindingV { name: b.name@, value: b.value }
}

pub open spec fn bindings_view(s: Seq<Binding>) -> Seq<BindingV> {
    Seq::new(s.len(), |i: int| binding_view(s[i]))
}

pub open spec fn entry_view(e: EnvEntry) -> EnvEntryV {
    EnvEntryV { name: e.name@, value: e.value, next: e.next }
}

pub open spec fn entries_view(s: Seq<EnvEntry>) -> Seq<EnvEntryV> {
    Seq::new(s.len(), |i: int| entry_view(s[i]))
}

pub open spec fn object_view<'a>(o: Object<'a>) -> ObjectV {
    match o {
        Object::Str(s) => ObjectV::Str(s@),
        Object::List(v) => ObjectV::List(v@),
        Object::Struct { name, ctor } => ObjectV::Struct { name: name@, ctor },
        Object::Instance { ty, fields } => ObjectV::Instance { ty, fields: bindings_view(fields@) },
        Object::NativeFunc { name, func } => ObjectV::NativeFunc { name: name@, func },
        Object::UserFunc { name, def, env } => ObjectV::UserFunc { name: name@, def: *def, env },
    }
}

pub open spec fn heap_view<'a>(s: Seq<Object<'a>>) -> Seq<ObjectV> {
    Seq::new(s.len(), |i: int| object_view(s[i]))
}

/// The index of the first binding at or after `i` that is called `name`.
pub open spec fn find(bs: Seq<BindingV>, name: Seq<char>, i: int) -> Option<int>
    decreases bs.len() - i,
{
    if i < 0 || i >= bs.len() {
        None
    } else if bs[i].name == name {
        Some(i)
    } else {
        find(bs, name, i + 1)
    }
}

pub proof fn lemma_find(bs: Seq<BindingV>, name: Seq<char>, i: int)
    requires
        0 <= i,
    ensures
        find(bs, name, i) matches Some(k) ==> i <= k < bs.len() && bs[k].name == name,
    decreases bs.len() - i,
{
    if i < bs.len() && bs[i].name != name {
        lemma_find(bs, name, i + 1);
    }
}

/// The bindings with `name` bound to `value`: in place of its old value
/// where it was bound, else behind all others.
pub open spec fn bind(bs: Seq<BindingV>, name: Seq<char>, value: Value) -> Seq<BindingV> {
    match find(bs, name, 0) {
        Some(k) => bs.update(k, BindingV { name, value }),
        None => bs.push(BindingV { name, value }),
    }
}

/// The value that `name` is bound to.
pub open spec fn bound(bs: Seq<BindingV>, name: Seq<char>) -> Option<Value> {
    match find(bs, name, 0) {
        Some(k) => Some(bs[k].value),
        None => None,
    }
}

impl Env {
    /// How far the environment is from the globals. The environment behind
    /// a binding is always nearer to them than the binding.
    pub open spec fn rank(self) -> int {
        match self {
            Env::Global => 0,
            Env::GlobalFence => 1,
            Env::Chain(i) => i + 2,
        }
    }

    pub open spec fn fenced(self) -> Env {
        match self {
            Env::Global => Env::GlobalFence,
            _ => self,
        }
    }

    /// The environment behind a fence: what is defined in it from now on
    /// goes on the chain, not into the globals.
    pub fn with_fence(self) -> (env: Env)
        ensures
            env == self.fenced(),
    {
        match self {
            Env::Global => Env::GlobalFence,
            _ => self,
        }
    }
}

impl State {
    /// The value of `name` in `env`: that of the nearest binding of the
    /// chain that is called `name`, else that of the global of that name.
    pub open spec fn lookup(self, env: Env, name: Seq<char>) -> Option<Value>
        decreases env.rank(),
    {
        match env {
            Env::Chain(i) => if i >= self.nodes.len() {
                None
            } else if self.nodes[i as int].name == name {
                Some(self.nodes[i as int].value)
            } else if self.nodes[i as int].next.rank() < env.rank() {
                self.lookup(self.nodes[i as int].next, name)
            } else {
                None
            },
            Env::GlobalFence => self.lookup(Env::Global, name),
            Env::Global => bound(self.globals, name),
        }
    }

    /// The state after `name` was assigned `value` in `env`: the nearest
    /// binding called `name` holds `value`, for all who see it. `None`
    /// where nothing is called `name`.
    pub open spec fn assign(self, env: Env, name: Seq<char>, value: Value) -> Option<State>
        decreases env.rank(),
    {
        match env {
            Env::Chain(i) => if i >= self.nodes.len() {
                None
            } else if self.nodes[i as int].name == name {
                Some(
                    State {
                        nodes: self.nodes.update(
                            i as int,
                            EnvEntryV { name, value, next: self.nodes[i as int].next },
                        ),
                        ..self
                    },
                )
            } else if self.nodes[i as int].next.rank() < env.rank() {
                self.assign(self.nodes[i as int].next, name, value)
            } else {
                None
            },
            Env::GlobalFence => self.assign(Env::Global, name, value),
            Env::Global => match find(self.globals, name, 0) {
                Some(k) => Some(
                    State { globals: self.globals.update(k, BindingV { name, value }), ..self },
                ),
                None => None,
            },
        }
    }

    /// The state and the environment after `name` was defined as `value` in
    /// `env`. Among the globals the name is bound anew in place; anywhere
    /// else a new binding goes in front of `env`, and `env` itself, with
    /// all who hold it, sees nothing of it.
    pub open spec fn define(self, env: Env, name: Seq<char>, value: Value) -> (State, Env) {
        match env {
            Env::Global => (State { globals: bind(self.globals, name, value), ..self }, Env::Global),
            _ => (
                State { nodes: self.nodes.push(EnvEntryV { name, value, next: env }), ..self },
                Env::Chain(self.nodes.len() as usize),
            ),
        }
    }

    /// The state with `o` as a new object, and the index of that object.
    pub open spec fn store(self, o: ObjectV) -> (State, usize) {
        (State { heap: self.heap.push(o), ..self }, self.heap.len() as usize)
    }

    /// The state after `bytes` were written.
    pub open spec fn write(self, bytes: Seq<u8>) -> State {
        State { output: self.output + bytes, ..self }
    }

    pub open spec fn object(self, id: usize) -> Option<ObjectV> {
        if id < self.heap.len() {
            Some(self.heap[id as int])
        } else {
            None
        }
    }

    /// The characters of the string `id`.
    pub open spec fn text(self, id: usize) -> Option<Seq<char>> {
        match self.object(id) {
            Some(ObjectV::Str(s)) => Some(s),
            _ => None,
        }
    }

    /// The values of the list `id`.
    pub open spec fn items(self, id: usize) -> Option<Seq<Value>> {
        match self.object(id) {
            Some(ObjectV::List(v)) => Some(v),
            _ => None,
        }
    }

    /// The state after the field `name` of the instance `id` was set.
    pub open spec fn with_field(self, id: usize, name: Seq<char>, value: Value) -> State {
        match self.object(id) {
            Some(ObjectV::Instance { ty, fields }) => State {
                heap: self.heap.update(
                    id as int,
                    ObjectV::Instance { ty, fields: bind(fields, name, value) },
                ),
                ..self
            },
            _ => self,
        }
    }
}

} // verus!
