//! Lexical environments: a frame binds names to values and may stand inside
//! another frame. A name is looked up in the frame and then in the frames
//! around it; it is bound in the frame alone.

use crate::instruction::{
    group_views, lemma_env_view, EnvView, IrEnvironment, LiteralValue, ValueView,
};
use vstd::prelude::*;

verus! {

broadcast use group_views;

/// The index of the first binding of `name` at or after `from`.
pub open spec fn frame_find(values: Seq<(Seq<char>, ValueView)>, name: Seq<char>, from: int) -> Option<
    int,
>
    decreases values.len() - from,
{
    if from < 0 || from >= values.len() {
        None
    } else if values[from].0 == name {
        Some(from)
    } else {
        frame_find(values, name, from + 1)
    }
}

impl EnvView {
    /// The frame without bindings that stands in no other.
    pub open spec fn empty() -> EnvView {
        EnvView { values: Seq::empty(), parent: None }
    }

    /// A frame without bindings that stands inside `self`.
    pub open spec fn child(self) -> EnvView {
        EnvView { values: Seq::empty(), parent: Some(Box::new(self)) }
    }

    /// The value that the frame itself binds to `name`.
    pub open spec fn local(self, name: Seq<char>) -> Option<ValueView> {
        match frame_find(self.values, name, 0) {
            Some(i) => Some(self.values[i].1),
            None => None,
        }
    }

    /// The value of `name`: that of the innermost frame that binds it.
    pub open spec fn lookup(self, name: Seq<char>) -> Option<ValueView>
        decreases self,
    {
        match self.local(name) {
            Some(v) => Some(v),
            None => match self.parent {
                Some(p) => p.lookup(name),
                None => None,
            },
        }
    }

    /// The environment whose own frame binds `name` to `value`, and is
    /// otherwise as before.
    pub open spec fn bind(self, name: Seq<char>, value: ValueView) -> EnvView {
        EnvView {
            values: match frame_find(self.values, name, 0) {
                Some(i) => self.values.update(i, (name, value)),
                None => self.values.push((name, value)),
            },
            parent: self.parent,
        }
    }

    /// The environment after the names were bound to the values, one after
    /// the other.
    pub open spec fn bind_all(self, names: Seq<Seq<char>>, values: Seq<ValueView>) -> EnvView
        recommends
            names.len() == values.len(),
        decreases names.len(),
    {
        if names.len() == 0 || values.len() == 0 {
            self
        } else {
            self.bind_all(names.drop_last(), values.drop_last()).bind(names.last(), values.last())
        }
    }
}

/// What `frame_find` gives is the first index at or after `from` that holds
/// the name.
pub proof fn lemma_frame_find(values: Seq<(Seq<char>, ValueView)>, name: Seq<char>, from: int)
    requires
        0 <= from,
    ensures
        match frame_find(values, name, from) {
            Some(i) => from <= i < values.len() && values[i].0 == name && forall|j: int|
                from <= j < i ==> (#[trigger] values[j]).0 != name,
            None => forall|j: int| from <= j < values.len() ==> (#[trigger] values[j]).0 != name,
        },
    decreases values.len() - from,
{
    if from < values.len() && values[from].0 != name {
        lemma_frame_find(values, name, from + 1);
    }
}

/// After `bind`, the name has the value, in the frame and so in the
/// environment, and every other name has what it had.
pub proof fn lemma_bind_lookup(env: EnvView, name: Seq<char>, value: ValueView, other: Seq<char>)
    ensures
        env.bind(name, value).local(name) == Some(value),
        env.bind(name, value).lookup(name) == Some(value),
        other != name ==> env.bind(name, value).local(other) == env.local(other),
        other != name ==> env.bind(name, value).lookup(other) == env.lookup(other),
        env.bind(name, value).parent == env.parent,
{
    let after = env.bind(name, value);
    lemma_frame_find(env.values, name, 0);
    lemma_frame_find(after.values, name, 0);
    lemma_frame_find(env.values, other, 0);
    lemma_frame_find(after.values, other, 0);
    match frame_find(env.values, name, 0) {
        Some(i) => {
            assert(after.values[i].0 == name);
            assert forall|j: int| 0 <= j < i implies (#[trigger] after.values[j]).0 != name by {
                assert(after.values[j] == env.values[j]);
            }
            if other != name {
                match frame_find(env.values, other, 0) {
                    Some(k) => {
                        assert(after.values[k] == env.values[k]);
                        assert forall|j: int| 0 <= j < k implies (#[trigger] after.values[j]).0
                            != other by {
                            if j != i {
                                assert(after.values[j] == env.values[j]);
                            }
                        }
                    },
                    None => {
                        assert forall|j: int| 0 <= j < after.values.len() implies (
                        #[trigger] after.values[j]).0 != other by {
                            if j != i {
                                assert(after.values[j] == env.values[j]);
                            }
                        }
                    },
                }
            }
        },
        None => {
            let n = env.values.len() as int;
            assert(after.values[n].0 == name);
            assert forall|j: int| 0 <= j < n implies (#[trigger] after.values[j]).0 != name by {
                assert(after.values[j] == env.values[j]);
            }
            if other != name {
                match frame_find(env.values, other, 0) {
                    Some(k) => {
                        assert(after.values[k] == env.values[k]);
                        assert forall|j: int| 0 <= j < k implies (#[trigger] after.values[j]).0
                            != other by {
                            assert(after.values[j] == env.values[j]);
                        }
                    },
                    None => {
                        assert forall|j: int| 0 <= j < after.values.len() implies (
                        #[trigger] after.values[j]).0 != other by {
                            if j < n {
                                assert(after.values[j] == env.values[j]);
                            }
                        }
                    },
                }
            }
        },
    }
}

/// The view of an optional value.
pub open spec fn optional_value_view(v: Option<LiteralValue>) -> Option<ValueView> {
    match v {
        Some(x) => Some(x@),
        None => None,
    }
}

impl IrEnvironment {
    /// A frame without bindings, inside a copy of `parent` if one is given.
    #[inline]
    pub fn new(parent: Option<&IrEnvironment>) -> (r: Self)
        ensures
            r@ == (match parent {
                Some(p) => p@.child(),
                None => EnvView::empty(),
            }),
    {
        let r = Self {
            values: Vec::new(),
            parent: match parent {
                Some(p) => Some(Box::new(p.clone())),
                None => None,
            },
        };
        proof {
            lemma_env_view(r);
        }
        assert(r@.values =~= Seq::empty());
        r
    }

    /// The index of the first binding of `name` in the frame.
    fn find(&self, name: &String) -> (r: Option<usize>)
        ensures
            match r {
                Some(i) => frame_find(self@.values, name@, 0) == Some(i as int) && i
                    < self.values.len(),
                None => frame_find(self@.values, name@, 0).is_none(),
            },
    {
        let mut i: usize = 0;
        proof {
            lemma_env_view(*self);
        }
        while i < self.values.len()
            invariant
                i <= self.values.len(),
                self@.values == crate::instruction::bindings_view(self.values@),
                frame_find(self@.values, name@, 0) == frame_find(self@.values, name@, i as int),
            decreases self.values.len() - i,
        {
            if self.values[i].0 == *name {
                return Some(i);
            }
            i += 1;
        }
        None
    }

    /// The value of `name` in the innermost frame that binds it.
    pub fn get(&self, name: &String) -> (r: Option<LiteralValue>)
        ensures
            optional_value_view(r) == self@.lookup(name@),
        decreases self,
    {
        proof {
            lemma_env_view(*self);
        }
        match self.find(name) {
            Some(i) => Some(self.values[i].1.clone()),
            None => match &self.parent {
                Some(parent) => parent.get(name),
                None => None,
            },
        }
    }

    /// Binds `name` to a copy of `value` in the frame itself.
    pub fn set(&mut self, name: &String, value: &LiteralValue)
        ensures
            final(self)@ == old(self)@.bind(name@, value@),
    {
        let found = self.find(name);
        proof {
            lemma_env_view(*self);
        }
        match found {
            Some(i) => {
                self.values.set(i, (name.clone(), value.clone()));
            },
            None => {
                self.values.push((name.clone(), value.clone()));
            },
        }
        proof {
            lemma_env_view(*self);
        }
        assert(self@.values =~= old(self)@.bind(name@, value@).values);
    }
}

} // verus!
