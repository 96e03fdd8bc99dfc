//! The machine that a program runs on, and the few steps by which its state
//! changes.

use crate::value::{
    bind, bindings_view, bound, entries_view, find, heap_view, lemma_find,
    object_view, Binding, BindingV, Env, EnvEntry, EnvEntryV, Object, ObjectV, State, Value,
};
use vstd::prelude::*;

verus! {

/// The state of a running program.
pub struct Evaluator<'a> {
    pub heap: Vec<Object<'a>>,
    pub nodes: Vec<EnvEntry>,
    pub globals: Vec<Binding>,
    pub output: Vec<u8>,
}

impl<'a> View for Evaluator<'a> {
    type V = State;

    open spec fn view(&self) -> State {
        State {
            heap: heap_view(self.heap@),
            nodes: entries_view(self.nodes@),
            globals: bindings_view(self.globals@),
            output: self.output@,
        }
    }
}

/// Finds the first binding that is called `name`.
pub fn find_binding(bs: &Vec<Binding>, name: &String) -> (r: Option<usize>)
    ensures
        match r {
            Some(k) => find(bindings_view(bs@), name@, 0) == Some(k as int) && k < bs@.len(),
            None => find(bindings_view(bs@), name@, 0) is None,
        },
{
    let mut i: usize = 0;
    while i < bs.len()
        invariant
            i <= bs@.len(),
            find(bindings_view(bs@), name@, 0) == find(bindings_view(bs@), name@, i as int),
        decreases bs@.len() - i,
    {
        if bs[i].name == *name {
            return Some(i);
        }
        i += 1;
    }
    None
}

/// Binds `name` to `value`: in place where it was bound, else behind all
/// others.
pub fn bind_in(bs: &mut Vec<Binding>, name: &String, value: Value)
    ensures
        bindings_view(final(bs)@) == bind(bindings_view(old(bs)@), name@, value),
{
    proof {
        lemma_find(bindings_view(bs@), name@, 0);
    }
    match find_binding(bs, name) {
        Some(k) => {
            bs[k].value = value;
            assert(bindings_view(bs@) =~= bind(bindings_view(old(bs)@), name@, value));
        },
        None => {
            bs.push(Binding { name: name.clone(), value });
            assert(bindings_view(bs@) =~= bind(bindings_view(old(bs)@), name@, value));
        },
    }
}

impl<'a> Evaluator<'a> {
    /// Puts a new object on the heap.
    pub fn store(&mut self, o: Object<'a>) -> (id: usize)
        ensures
            (final(self)@, id) == old(self)@.store(object_view(o)),
    {
        let id = self.heap.len();
        self.heap.push(o);
        assert(heap_view(self.heap@) =~= heap_view(old(self).heap@).push(object_view(o)));
        id
    }

    /// Puts a new string on the heap.
    pub fn store_str(&mut self, s: String) -> (v: Value)
        ensures
            final(self)@ == old(self)@.store(ObjectV::Str(s@)).0,
            v == Value::Str(old(self)@.store(ObjectV::Str(s@)).1),
    {
        Value::Str(self.store(Object::Str(s)))
    }

    pub fn object(&self, id: usize) -> (r: Option<&Object<'a>>)
        ensures
            match r {
                Some(o) => self@.object(id) == Some(object_view(*o)),
                None => self@.object(id) is None,
            },
    {
        if id < self.heap.len() {
            Some(&self.heap[id])
        } else {
            None
        }
    }

    /// The characters of the string `id`.
    pub fn text_of(&self, id: usize) -> (r: Option<&String>)
        ensures
            match r {
                Some(s) => self@.text(id) == Some(s@),
                None => self@.text(id) is None,
            },
    {
        match self.object(id) {
            Some(Object::Str(s)) => Some(s),
            _ => None,
        }
    }

    /// The values of the list `id`.
    pub fn items_of(&self, id: usize) -> (r: Option<&Vec<Value>>)
        ensures
            match r {
                Some(v) => self@.items(id) == Some(v@),
                None => self@.items(id) is None,
            },
    {
        match self.object(id) {
            Some(Object::List(v)) => Some(v),
            _ => None,
        }
    }

    /// Writes `bytes` to the output.
    pub fn write(&mut self, bytes: &[u8])
        ensures
            final(self)@ == old(self)@.write(bytes@),
    {
        self.output.extend_from_slice(bytes);
        assert(self.output@ =~= old(self).output@ + bytes@);
    }

    /// The value of `name` in `env`.
    pub fn lookup(&self, env: Env, name: &String) -> (r: Option<Value>)
        ensures
            r == self@.lookup(env, name@),
    {
        let mut this = env;
        loop
            invariant
                self@.lookup(env, name@) == self@.lookup(this, name@),
            decreases this.rank(),
        {
            match this {
                Env::Chain(i) => {
                    if i >= self.nodes.len() {
                        return None;
                    }
                    let entry = &self.nodes[i];
                    if entry.name == *name {
                        return Some(entry.value);
                    }
                    match entry.next {
                        Env::Chain(j) => {
                            if j >= i {
                                return None;
                            }
                        },
                        _ => {},
                    }
                    this = entry.next;
                },
                Env::GlobalFence => {
                    this = Env::Global;
                },
                Env::Global => {
                    return match find_binding(&self.globals, name) {
                        Some(k) => Some(self.globals[k].value),
                        None => None,
                    };
                },
            }
        }
    }

    /// Assigns `value` to `name` in `env`; tells whether there was
    /// something of that name.
    pub fn set(&mut self, env: Env, name: &String, value: Value) -> (done: bool)
        ensures
            match old(self)@.assign(env, name@, value) {
                Some(after) => done && final(self)@ == after,
                None => !done && final(self)@ == old(self)@,
            },
    {
        let mut this = env;
        loop
            invariant
                *self == *old(self),
                self@.assign(env, name@, value) == self@.assign(this, name@, value),
            decreases this.rank(),
        {
            match this {
                Env::Chain(i) => {
                    if i >= self.nodes.len() {
                        return false;
                    }
                    if self.nodes[i].name == *name {
                        self.nodes[i].value = value;
                        assert(entries_view(self.nodes@) =~= entries_view(old(self).nodes@).update(
                            i as int,
                            EnvEntryV { name: name@, value, next: old(self).nodes@[i as int].next },
                        ));
                        return true;
                    }
                    let next = self.nodes[i].next;
                    match next {
                        Env::Chain(j) => {
                            if j >= i {
                                return false;
                            }
                        },
                        _ => {},
                    }
                    this = next;
                },
                Env::GlobalFence => {
                    this = Env::Global;
                },
                Env::Global => {
                    proof {
                        lemma_find(bindings_view(self.globals@), name@, 0);
                    }
                    match find_binding(&self.globals, name) {
                        Some(k) => {
                            self.globals[k].value = value;
                            assert(bindings_view(self.globals@) =~= bindings_view(
                                old(self).globals@,
                            ).update(k as int, BindingV { name: name@, value }));
                            return true;
                        },
                        None => {
                            return false;
                        },
                    }
                },
            }
        }
    }

    /// Defines `name` as `value` in `env`, and gives the environment in
    /// which it is defined.
    pub fn define(&mut self, env: Env, name: &String, value: Value) -> (r: Env)
        ensures
            (final(self)@, r) == old(self)@.define(env, name@, value),
    {
        match env {
            Env::Global => {
                bind_in(&mut self.globals, name, value);
                Env::Global
            },
            _ => {
                let at = self.nodes.len();
                let entry = EnvEntry { name: name.clone(), value, next: env };
                self.nodes.push(entry);
                assert(entries_view(self.nodes@) =~= entries_view(old(self).nodes@).push(
                    EnvEntryV { name: name@, value, next: env },
                ));
                Env::Chain(at)
            },
        }
    }

    /// Sets the field `name` of the instance `id`; does nothing where `id` is
    /// no instance.
    pub fn put_field(&mut self, id: usize, name: &String, value: Value)
        ensures
            final(self)@ == old(self)@.with_field(id, name@, value),
    {
        if id < self.heap.len() {
            match &mut self.heap[id] {
                Object::Instance { fields, .. } => {
                    bind_in(fields, name, value);
                },
                _ => {},
            }
            assert(heap_view(self.heap@) =~= old(self)@.with_field(id, name@, value).heap);
        }
    }
}

} // verus!
