//! The table of names that the compiler keeps: each frame maps the names
//! declared in it to their types, and may stand inside another frame.

use crate::types::{data_type_view, DataType, TypeView};
use vstd::prelude::*;

verus! {

/// What is known of a name besides its type.
#[derive(Debug, PartialEq)]
pub struct SymbolAttributes {
    /// For a name bound to a function, the type that the function gives.
    pub function_return_type: Option<DataType>,
}

#[derive(Debug, PartialEq)]
pub struct SymbolEntry {
    pub data_type: DataType,
    pub attributes: SymbolAttributes,
}

/// One frame of declared names, and the frame around it.
#[derive(Debug, PartialEq)]
pub struct SymbolTable {
    pub entries: Vec<(String, SymbolEntry)>,
    pub parent: Option<Box<SymbolTable>>,
}

/// The mathematical value of a [`SymbolEntry`].
pub struct EntryView {
    pub data_type: TypeView,
    pub function_return_type: Option<TypeView>,
}

/// The mathematical value of a [`SymbolTable`]: the entries of the frame in
/// the order in which their names were first declared, and the frame around
/// it.
pub struct ScopeView {
    pub entries: Seq<(Seq<char>, EntryView)>,
    pub parent: Option<Box<ScopeView>>,
}

impl View for SymbolEntry {
    type V = EntryView;

    open spec fn view(&self) -> EntryView {
        EntryView {
            data_type: data_type_view(self.data_type),
            function_return_type: match self.attributes.function_return_type {
                Some(t) => Some(data_type_view(t)),
                None => None,
            },
        }
    }
}

/// The views of the entries of a frame, in order.
pub open spec fn entries_view(es: Seq<(String, SymbolEntry)>) -> Seq<(Seq<char>, EntryView)> {
    Seq::new(es.len(), |i: int| (es[i].0@, es[i].1@))
}

/// The mathematical value of a symbol table.
pub open spec fn scope_view(t: SymbolTable) -> ScopeView
    decreases t,
{
    ScopeView {
        entries: entries_view(t.entries@),
        parent: match t.parent {
            Some(p) => Some(Box::new(scope_view(*p))),
            None => None,
        },
    }
}

impl View for SymbolTable {
    type V = ScopeView;

    open spec fn view(&self) -> ScopeView {
        scope_view(*self)
    }
}

/// The index of the first entry of `name` at or after `from`.
pub open spec fn entry_find(entries: Seq<(Seq<char>, EntryView)>, name: Seq<char>, from: int) -> Option<
    int,
>
    decreases entries.len() - from,
{
    if from < 0 || from >= entries.len() {
        None
    } else if entries[from].0 == name {
        Some(from)
    } else {
        entry_find(entries, name, from + 1)
    }
}

/// The entry that a name has when it is bound to a value of type `t`: for
/// a function, what the function gives is noted beside the type.
pub open spec fn entry_for(t: TypeView) -> EntryView {
    EntryView {
        data_type: t,
        function_return_type: match t {
            TypeView::Function(_, result) => Some(*result),
            _ => None,
        },
    }
}

impl ScopeView {
    /// The frame without entries that stands in no other.
    pub open spec fn empty() -> ScopeView {
        ScopeView { entries: Seq::empty(), parent: None }
    }

    /// A frame without entries that stands inside `self`.
    pub open spec fn child(self) -> ScopeView {
        ScopeView { entries: Seq::empty(), parent: Some(Box::new(self)) }
    }

    /// The entry of `name`: that of the innermost frame that declares it.
    pub open spec fn lookup(self, name: Seq<char>) -> Option<EntryView>
        decreases self,
    {
        match entry_find(self.entries, name, 0) {
            Some(i) => Some(self.entries[i].1),
            None => match self.parent {
                Some(p) => p.lookup(name),
                None => None,
            },
        }
    }

    /// The table in whose own frame `name` has the entry, and which is
    /// otherwise as before.
    pub open spec fn insert(self, name: Seq<char>, entry: EntryView) -> ScopeView {
        ScopeView {
            entries: match entry_find(self.entries, name, 0) {
                Some(i) => self.entries.update(i, (name, entry)),
                None => self.entries.push((name, entry)),
            },
            parent: self.parent,
        }
    }
}

impl ScopeView {
    /// The table in which the entry of `name`, in the innermost frame that
    /// declares it, is `entry`.
    pub open spec fn replaced(self, name: Seq<char>, entry: EntryView) -> ScopeView
        decreases self,
    {
        match entry_find(self.entries, name, 0) {
            Some(i) => ScopeView {
                entries: self.entries.update(i, (self.entries[i].0, entry)),
                parent: self.parent,
            },
            None => match self.parent {
                Some(p) => ScopeView {
                    entries: self.entries,
                    parent: Some(Box::new(p.replaced(name, entry))),
                },
                None => self,
            },
        }
    }
}

impl Clone for SymbolEntry {
    fn clone(&self) -> (r: Self)
        ensures
            r@ == self@,
    {
        SymbolEntry {
            data_type: self.data_type.clone(),
            attributes: SymbolAttributes {
                function_return_type: match &self.attributes.function_return_type {
                    Some(t) => Some(t.clone()),
                    None => None,
                },
            },
        }
    }
}

impl Clone for SymbolTable {
    fn clone(&self) -> (r: Self)
        ensures
            r@ == self@,
        decreases self,
    {
        let mut entries: Vec<(String, SymbolEntry)> = Vec::new();
        let mut i: usize = 0;
        while i < self.entries.len()
            invariant
                i <= self.entries.len(),
                entries@.len() == i,
                forall|j: int|
                    0 <= j < i ==> (#[trigger] entries@[j]).0@ == self.entries@[j].0@ && entries@[j].1@
                        == self.entries@[j].1@,
            decreases self.entries.len() - i,
        {
            let entry = &self.entries[i];
            entries.push((entry.0.clone(), entry.1.clone()));
            i += 1;
        }
        assert(entries_view(entries@) =~= entries_view(self.entries@));
        let parent = match &self.parent {
            Some(p) => Some(Box::new((&**p).clone())),
            None => None,
        };
        SymbolTable { entries, parent }
    }
}

impl SymbolEntry {
    /// The entry of a name that is bound to a value of type `t`.
    pub fn of(t: DataType) -> (r: Self)
        ensures
            r@ == entry_for(t@),
    {
        let function_return_type = match &t {
            DataType::Function(_, result) => Some((&**result).clone()),
            _ => None,
        };
        SymbolEntry { data_type: t, attributes: SymbolAttributes { function_return_type } }
    }
}

impl SymbolTable {
    /// A frame without entries, inside `parent` if one is given.
    pub fn new(parent: Option<SymbolTable>) -> (r: Self)
        ensures
            r@ == (match parent {
                Some(p) => p@.child(),
                None => ScopeView::empty(),
            }),
    {
        let r = Self {
            entries: Vec::new(),
            parent: match parent {
                Some(p) => Some(Box::new(p)),
                None => None,
            },
        };
        assert(r@.entries =~= Seq::empty());
        r
    }

    /// The index of the first entry of `name` in the frame.
    fn find(&self, name: &String) -> (r: Option<usize>)
        ensures
            match r {
                Some(i) => entry_find(self@.entries, name@, 0) == Some(i as int) && i
                    < self.entries.len(),
                None => entry_find(self@.entries, name@, 0).is_none(),
            },
    {
        let mut i: usize = 0;
        while i < self.entries.len()
            invariant
                i <= self.entries.len(),
                entry_find(self@.entries, name@, 0) == entry_find(self@.entries, name@, i as int),
            decreases self.entries.len() - i,
        {
            if self.entries[i].0 == *name {
                return Some(i);
            }
            i += 1;
        }
        None
    }

    /// Declares `name` in the frame itself, with the entry.
    pub fn insert(&mut self, name: &str, entry: SymbolEntry)
        ensures
            final(self)@ == old(self)@.insert(name@, entry@),
    {
        let name = String::from_str(name);
        let found = self.find(&name);
        match found {
            Some(i) => {
                self.entries.set(i, (name, entry));
            },
            None => {
                self.entries.push((name, entry));
            },
        }
        assert(self@.entries =~= old(self)@.insert(name@, entry@).entries);
    }

    /// The entry of `name` in the innermost frame that declares it.
    pub fn lookup(&self, name: &str) -> (r: Option<&SymbolEntry>)
        ensures
            match r {
                Some(entry) => self@.lookup(name@) == Some(entry@),
                None => self@.lookup(name@).is_none(),
            },
        decreases self,
    {
        let owned = String::from_str(name);
        match self.find(&owned) {
            Some(i) => Some(&self.entries[i].1),
            None => match &self.parent {
                Some(parent) => parent.lookup(name),
                None => None,
            },
        }
    }

    /// The entry of `name` in the innermost frame that declares it, to be
    /// changed in place.
    pub fn lookup_mut(&mut self, name: &str) -> (r: Option<&mut SymbolEntry>)
        ensures
            match r {
                Some(entry) => {
                    &&& old(self)@.lookup(name@) == Some(entry@)
                    &&& final(self)@ == old(self)@.replaced(name@, final(entry)@)
                },
                None => old(self)@.lookup(name@).is_none() && final(self)@ == old(self)@,
            },
        decreases *old(self),
    {
        let owned = String::from_str(name);
        match self.find(&owned) {
            Some(i) => {
                let ghost before = self.entries@;
                assert forall|e: SymbolEntry| #[trigger]
                    entries_view(before.update(i as int, (before[i as int].0, e)))
                        == entries_view(before).update(i as int, (before[i as int].0@, e@)) by {
                    assert(entries_view(before.update(i as int, (before[i as int].0, e)))
                        =~= entries_view(before).update(i as int, (before[i as int].0@, e@)));
                }
                Some(&mut self.entries[i].1)
            },
            None => match &mut self.parent {
                Some(parent) => parent.lookup_mut(name),
                None => None,
            },
        }
    }
}

} // verus!
