//! The data types of the language and their structural equality.

use vstd::prelude::*;

verus! {

/// A data type of the language.
#[derive(Debug, PartialEq)]
pub enum DataType {
    Number,
    String,
    Boolean,
    Array(Box<DataType>),
    Object(Vec<(String, DataType)>),
    Function(Vec<DataType>, Box<DataType>),
    Void,
    /// Stands for a type that is still to be inferred.
    Auto,
    Generic(String),
}

/// The mathematical value of a [`DataType`].
pub enum TypeView {
    Number,
    String,
    Boolean,
    Array(Box<TypeView>),
    Object(Seq<(Seq<char>, TypeView)>),
    Function(Seq<TypeView>, Box<TypeView>),
    Void,
    Auto,
    Generic(Seq<char>),
}

/// The mathematical value of a type.
pub open spec fn data_type_view(t: DataType) -> TypeView
    decreases t,
{
    match t {
        DataType::Number => TypeView::Number,
        DataType::String => TypeView::String,
        DataType::Boolean => TypeView::Boolean,
        DataType::Array(element) => TypeView::Array(Box::new(data_type_view(*element))),
        DataType::Object(fields) => TypeView::Object(
            Seq::new(
                fields@.len(),
                |i: int|
                    if 0 <= i < fields@.len() {
                        (fields@[i].0@, data_type_view(fields@[i].1))
                    } else {
                        arbitrary()
                    },
            ),
        ),
        DataType::Function(parameters, result) => TypeView::Function(
            Seq::new(
                parameters@.len(),
                |i: int|
                    if 0 <= i < parameters@.len() {
                        data_type_view(parameters@[i])
                    } else {
                        arbitrary()
                    },
            ),
            Box::new(data_type_view(*result)),
        ),
        DataType::Void => TypeView::Void,
        DataType::Auto => TypeView::Auto,
        DataType::Generic(name) => TypeView::Generic(name@),
    }
}

/// The views of a sequence of types, in order.
pub open spec fn data_types_view(ts: Seq<DataType>) -> Seq<TypeView> {
    Seq::new(ts.len(), |i: int| data_type_view(ts[i]))
}

/// The views of a sequence of named fields, in order.
pub open spec fn fields_view(fs: Seq<(String, DataType)>) -> Seq<(Seq<char>, TypeView)> {
    Seq::new(fs.len(), |i: int| (fs[i].0@, data_type_view(fs[i].1)))
}

impl View for DataType {
    type V = TypeView;

    open spec fn view(&self) -> TypeView {
        data_type_view(*self)
    }
}

/// Some field of `fields` has the name `name` and a type that `t` matches.
pub open spec fn field_matches(t: TypeView, name: Seq<char>, fields: Seq<(Seq<char>, TypeView)>) -> bool
    decreases t, 1nat,
{
    exists|j: int|
        0 <= j < fields.len() && (#[trigger] fields[j]).0 == name && type_matches(t, fields[j].1)
}

/// Some field of `fields` has the name `name` and a type that matches `t`.
pub open spec fn field_matched(fields: Seq<(Seq<char>, TypeView)>, name: Seq<char>, t: TypeView) -> bool
    decreases fields, 1nat,
{
    exists|i: int|
        0 <= i < fields.len() && (#[trigger] fields[i]).0 == name && type_matches(fields[i].1, t)
}

/// Structural equality of types, in which `Auto` equals every type: two
/// arrays are equal when their elements are, two functions when they take
/// equally many parameters of pairwise equal types and give equal types, two
/// objects when each field of either has a field of its name and of an equal
/// type in the other, two generic types when they have one name.
pub open spec fn type_matches(a: TypeView, b: TypeView) -> bool
    decreases a, 0nat,
{
    match (a, b) {
        (TypeView::Auto, _) => true,
        (_, TypeView::Auto) => true,
        (TypeView::Number, TypeView::Number) => true,
        (TypeView::String, TypeView::String) => true,
        (TypeView::Boolean, TypeView::Boolean) => true,
        (TypeView::Void, TypeView::Void) => true,
        (TypeView::Generic(x), TypeView::Generic(y)) => x == y,
        (TypeView::Array(x), TypeView::Array(y)) => type_matches(*x, *y),
        (TypeView::Function(ps, r), TypeView::Function(qs, s)) => {
            &&& ps.len() == qs.len()
            &&& forall|i: int| 0 <= i < ps.len() ==> type_matches(#[trigger] ps[i], qs[i])
            &&& type_matches(*r, *s)
        },
        (TypeView::Object(fs), TypeView::Object(gs)) => {
            &&& forall|i: int|
                0 <= i < fs.len() ==> field_matches((#[trigger] fs[i]).1, fs[i].0, gs)
            &&& forall|j: int|
                0 <= j < gs.len() ==> field_matched(fs, (#[trigger] gs[j]).0, gs[j].1)
        },
        _ => false,
    }
}

/// The type is resolved: nothing in it is left to infer. `Auto` is not
/// resolved, nor an array, an object or a function whose elements, fields or
/// result are not. The parameter list of a function type is not looked
/// into: `Auto` there is the annotation of a parameter that has none, and
/// no inference fills it.
pub open spec fn resolved(t: TypeView) -> bool
    decreases t,
{
    match t {
        TypeView::Auto => false,
        TypeView::Array(x) => resolved(*x),
        TypeView::Function(_, r) => resolved(*r),
        TypeView::Object(fs) => forall|i: int| 0 <= i < fs.len() ==> resolved((#[trigger] fs[i]).1),
        _ => true,
    }
}

impl Clone for DataType {
    fn clone(&self) -> (r: Self)
        ensures
            r@ == self@,
        decreases self,
    {
        match self {
            DataType::Number => DataType::Number,
            DataType::String => DataType::String,
            DataType::Boolean => DataType::Boolean,
            DataType::Array(element) => DataType::Array(Box::new((&**element).clone())),
            DataType::Object(fields) => {
                let mut out: Vec<(String, DataType)> = Vec::new();
                let mut i: usize = 0;
                while i < fields.len()
                    invariant
                        i <= fields.len(),
                        out@.len() == i,
                        decreases_to!(self => fields),
                        forall|j: int|
                            0 <= j < i ==> (#[trigger] out@[j]).0@ == fields@[j].0@ && out@[j].1@
                                == fields@[j].1@,
                    decreases fields.len() - i,
                {
                    assert(decreases_to!(*fields => fields[i as int]));
                    let field = &fields[i];
                    out.push((field.0.clone(), field.1.clone()));
                    i += 1;
                }
                assert(DataType::Object(out)@->Object_0 =~= self@->Object_0);
                DataType::Object(out)
            },
            DataType::Function(parameters, result) => {
                let mut out: Vec<DataType> = Vec::new();
                let mut i: usize = 0;
                while i < parameters.len()
                    invariant
                        i <= parameters.len(),
                        out@.len() == i,
                        decreases_to!(self => parameters),
                        forall|j: int| 0 <= j < i ==> (#[trigger] out@[j])@ == parameters@[j]@,
                    decreases parameters.len() - i,
                {
                    assert(decreases_to!(*parameters => parameters[i as int]));
                    out.push(parameters[i].clone());
                    i += 1;
                }
                let result = (&**result).clone();
                assert(DataType::Function(out, Box::new(result))@->Function_0 =~= self@->Function_0);
                DataType::Function(out, Box::new(result))
            },
            DataType::Void => DataType::Void,
            DataType::Auto => DataType::Auto,
            DataType::Generic(name) => DataType::Generic(name.clone()),
        }
    }
}

impl DataType {
    /// Structural equality, in which `Auto` equals every type.
    pub fn equals(&self, other: &DataType) -> (r: bool)
        ensures
            r == type_matches(self@, other@),
        decreases self,
    {
        match (self, other) {
            (DataType::Auto, _) => true,
            (_, DataType::Auto) => true,
            (DataType::Number, DataType::Number) => true,
            (DataType::String, DataType::String) => true,
            (DataType::Boolean, DataType::Boolean) => true,
            (DataType::Void, DataType::Void) => true,
            (DataType::Generic(x), DataType::Generic(y)) => *x == *y,
            (DataType::Array(x), DataType::Array(y)) => (&**x).equals(&**y),
            (DataType::Function(ps, r), DataType::Function(qs, s)) => {
                if ps.len() != qs.len() {
                    return false;
                }
                let ghost a = self@->Function_0;
                let ghost b = other@->Function_0;
                assert(a =~= data_types_view(ps@));
                assert(b =~= data_types_view(qs@));
                let mut i: usize = 0;
                while i < ps.len()
                    invariant
                        i <= ps.len(),
                        ps.len() == qs.len(),
                        decreases_to!(self => ps),
                        a == data_types_view(ps@),
                        b == data_types_view(qs@),
                        self@ is Function && self@->Function_0 == a,
                        other@ is Function && other@->Function_0 == b,
                        forall|j: int| 0 <= j < i ==> type_matches(#[trigger] a[j], b[j]),
                    decreases ps.len() - i,
                {
                    assert(decreases_to!(*ps => ps[i as int]));
                    if !ps[i].equals(&qs[i]) {
                        assert(!type_matches(a[i as int], b[i as int]));
                        return false;
                    }
                    i += 1;
                }
                (&**r).equals(&**s)
            },
            (DataType::Object(fs), DataType::Object(gs)) => {
                let ghost a = self@->Object_0;
                let ghost b = other@->Object_0;
                assert(a =~= fields_view(fs@));
                assert(b =~= fields_view(gs@));
                let mut i: usize = 0;
                while i < fs.len()
                    invariant
                        i <= fs.len(),
                        decreases_to!(self => fs),
                        a == fields_view(fs@),
                        b == fields_view(gs@),
                        self@ is Object && self@->Object_0 == a,
                        other@ is Object && other@->Object_0 == b,
                        forall|k: int| 0 <= k < i ==> field_matches((#[trigger] a[k]).1, a[k].0, b),
                    decreases fs.len() - i,
                {
                    let mut found = false;
                    let mut j: usize = 0;
                    while j < gs.len() && !found
                        invariant
                            j <= gs.len(),
                            i < fs.len(),
                            decreases_to!(self => fs),
                            a == fields_view(fs@),
                            b == fields_view(gs@),
                            self@ is Object && self@->Object_0 == a,
                            other@ is Object && other@->Object_0 == b,
                            found ==> field_matches(a[i as int].1, a[i as int].0, b),
                            !found ==> forall|k: int|
                                0 <= k < j ==> !((#[trigger] b[k]).0 == a[i as int].0 && type_matches(
                                    a[i as int].1,
                                    b[k].1,
                                )),
                        decreases gs.len() - j + (if found { 0int } else { 1int }),
                    {
                        assert(decreases_to!(*fs => fs[i as int]));
                        if fs[i].0 == gs[j].0 && fs[i].1.equals(&gs[j].1) {
                            assert(b[j as int].0 == a[i as int].0 && type_matches(
                                a[i as int].1,
                                b[j as int].1,
                            ));
                            found = true;
                        } else {
                            j += 1;
                        }
                    }
                    if !found {
                        assert(!field_matches(a[i as int].1, a[i as int].0, b));
                        return false;
                    }
                    i += 1;
                }
                let mut j: usize = 0;
                while j < gs.len()
                    invariant
                        j <= gs.len(),
                        decreases_to!(self => fs),
                        a == fields_view(fs@),
                        b == fields_view(gs@),
                        self@ is Object && self@->Object_0 == a,
                        other@ is Object && other@->Object_0 == b,
                        forall|k: int|
                            0 <= k < a.len() ==> field_matches((#[trigger] a[k]).1, a[k].0, b),
                        forall|k: int| 0 <= k < j ==> field_matched(a, (#[trigger] b[k]).0, b[k].1),
                    decreases gs.len() - j,
                {
                    let mut found = false;
                    let mut i: usize = 0;
                    while i < fs.len() && !found
                        invariant
                            i <= fs.len(),
                            j < gs.len(),
                            decreases_to!(self => fs),
                            a == fields_view(fs@),
                            b == fields_view(gs@),
                            self@ is Object && self@->Object_0 == a,
                            other@ is Object && other@->Object_0 == b,
                            found ==> field_matched(a, b[j as int].0, b[j as int].1),
                            !found ==> forall|k: int|
                                0 <= k < i ==> !((#[trigger] a[k]).0 == b[j as int].0 && type_matches(
                                    a[k].1,
                                    b[j as int].1,
                                )),
                        decreases fs.len() - i + (if found { 0int } else { 1int }),
                    {
                        assert(decreases_to!(*fs => fs[i as int]));
                        if fs[i].0 == gs[j].0 && fs[i].1.equals(&gs[j].1) {
                            assert(a[i as int].0 == b[j as int].0 && type_matches(
                                a[i as int].1,
                                b[j as int].1,
                            ));
                            found = true;
                        } else {
                            i += 1;
                        }
                    }
                    if !found {
                        assert(!field_matched(a, b[j as int].0, b[j as int].1));
                        return false;
                    }
                    j += 1;
                }
                true
            },
            _ => false,
        }
    }

    /// Whether the type is resolved.
    pub fn is_resolved(&self) -> (r: bool)
        ensures
            r == resolved(self@),
        decreases self,
    {
        match self {
            DataType::Auto => false,
            DataType::Array(element) => (&**element).is_resolved(),
            DataType::Function(_, result) => (&**result).is_resolved(),
            DataType::Object(fields) => {
                let ghost fs = self@->Object_0;
                assert(fs =~= fields_view(fields@));
                let mut i: usize = 0;
                while i < fields.len()
                    invariant
                        i <= fields.len(),
                        decreases_to!(self => fields),
                        fs == fields_view(fields@),
                        self@ is Object && self@->Object_0 == fs,
                        forall|j: int| 0 <= j < i ==> resolved((#[trigger] fs[j]).1),
                    decreases fields.len() - i,
                {
                    assert(decreases_to!(*fields => fields[i as int]));
                    if !fields[i].1.is_resolved() {
                        assert(!resolved(fs[i as int].1));
                        return false;
                    }
                    i += 1;
                }
                true
            },
            _ => true,
        }
    }
}

} // verus!
