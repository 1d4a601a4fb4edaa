//! The intermediate representation of binding declarations: type descriptors,
//! parameters, functions, classes and modules, together with their
//! mathematical views.

use vstd::prelude::*;

verus! {

/// A portable description of a declared TypeScript type shape.
///
/// `TsThis` denotes "the enclosing class"; it is kept abstract here and is
/// resolved only at render time. `Unimplemented` is an explicit escape value
/// for shapes the resolver does not support; it must never reach the emitter.
#[derive(Debug, PartialEq, Eq)]
pub enum TypeDesc {
    TsAny,
    TsBoolean,
    TsNull,
    TsNumber,
    TsString,
    TsThis,
    TsVoid,
    TsUndefined,
    TsArray(Box<TypeDesc>),
    TsFunction(Vec<(String, TypeDesc)>, Option<Box<TypeDesc>>),
    TsClass(String),
    TsUnion(Vec<TypeDesc>),
    Unimplemented,
}

/// The mathematical value of a [`TypeDesc`], with strings as character
/// sequences.
pub enum TypeDescView {
    TsAny,
    TsBoolean,
    TsNull,
    TsNumber,
    TsString,
    TsThis,
    TsVoid,
    TsUndefined,
    TsArray(Box<TypeDescView>),
    TsFunction(Seq<(Seq<char>, TypeDescView)>, Option<Box<TypeDescView>>),
    TsClass(Seq<char>),
    TsUnion(Seq<TypeDescView>),
    Unimplemented,
}

/// The view of one type descriptor.
pub open spec fn type_desc_view(t: TypeDesc) -> TypeDescView
    decreases t,
{
    match t {
        TypeDesc::TsAny => TypeDescView::TsAny,
        TypeDesc::TsBoolean => TypeDescView::TsBoolean,
        TypeDesc::TsNull => TypeDescView::TsNull,
        TypeDesc::TsNumber => TypeDescView::TsNumber,
        TypeDesc::TsString => TypeDescView::TsString,
        TypeDesc::TsThis => TypeDescView::TsThis,
        TypeDesc::TsVoid => TypeDescView::TsVoid,
        TypeDesc::TsUndefined => TypeDescView::TsUndefined,
        TypeDesc::TsArray(inner) => TypeDescView::TsArray(Box::new(type_desc_view(*inner))),
        TypeDesc::TsFunction(params, ret) => TypeDescView::TsFunction(
            fn_params_view(params@),
            match ret {
                Some(r) => Some(Box::new(type_desc_view(*r))),
                None => None,
            },
        ),
        TypeDesc::TsClass(name) => TypeDescView::TsClass(name@),
        TypeDesc::TsUnion(types) => TypeDescView::TsUnion(type_desc_seq_view(types@)),
        TypeDesc::Unimplemented => TypeDescView::Unimplemented,
    }
}

/// The view of the named parameters of a function type descriptor.
pub open spec fn fn_params_view(s: Seq<(String, TypeDesc)>) -> Seq<(Seq<char>, TypeDescView)>
    decreases s,
{
    if s.len() == 0 {
        Seq::empty()
    } else {
        seq![(s[0].0@, type_desc_view(s[0].1))] + fn_params_view(s.drop_first())
    }
}

/// The view of the member list of a union type descriptor.
pub open spec fn type_desc_seq_view(s: Seq<TypeDesc>) -> Seq<TypeDescView>
    decreases s,
{
    if s.len() == 0 {
        Seq::empty()
    } else {
        seq![type_desc_view(s[0])] + type_desc_seq_view(s.drop_first())
    }
}

impl View for TypeDesc {
    type V = TypeDescView;

    open spec fn view(&self) -> TypeDescView {
        type_desc_view(*self)
    }
}

} // verus!

verus! {

/// The view of an optional string.
pub open spec fn opt_string_view(o: Option<String>) -> Option<Seq<char>> {
    match o {
        Some(s) => Some(s@),
        None => None,
    }
}

/// The view of an attribute bag: ordered (key, optional value) pairs.
pub open spec fn attrs_view(s: Seq<(String, Option<String>)>) -> Seq<(Seq<char>, Option<Seq<char>>)> {
    Seq::new(s.len(), |i: int| (s[i].0@, opt_string_view(s[i].1)))
}

/// A parameter or return value of a bound function.
#[derive(Debug, PartialEq, Eq)]
pub struct ParamDesc {
    pub type_desc: TypeDesc,
    pub reference: bool,
    pub optional: bool,
}

/// The mathematical value of a [`ParamDesc`].
pub struct ParamDescView {
    pub type_desc: TypeDescView,
    pub reference: bool,
    pub optional: bool,
}

impl View for ParamDesc {
    type V = ParamDescView;

    open spec fn view(&self) -> ParamDescView {
        ParamDescView {
            type_desc: self.type_desc@,
            reference: self.reference,
            optional: self.optional,
        }
    }
}

impl ParamDesc {
    pub fn new(type_desc: TypeDesc, reference: bool, optional: bool) -> (r: ParamDesc)
        ensures
            r@ == (ParamDescView { type_desc: type_desc@, reference, optional }),
    {
        ParamDesc { type_desc, reference, optional }
    }
}

/// The view of an ordered argument list.
pub open spec fn args_view(s: Seq<(String, ParamDesc)>) -> Seq<(Seq<char>, ParamDescView)> {
    Seq::new(s.len(), |i: int| (s[i].0@, s[i].1@))
}

/// The view of an optional parameter descriptor.
pub open spec fn opt_param_view(o: Option<ParamDesc>) -> Option<ParamDescView> {
    match o {
        Some(p) => Some(p@),
        None => None,
    }
}

/// A bound function: an attribute bag, a name, ordered arguments and an
/// optional return value.
#[derive(Debug, PartialEq, Eq)]
pub struct FunctionDesc {
    pub attributes: Vec<(String, Option<String>)>,
    pub name: String,
    pub arguments: Vec<(String, ParamDesc)>,
    pub ret: Option<ParamDesc>,
}

/// The mathematical value of a [`FunctionDesc`].
pub struct FunctionDescView {
    pub attributes: Seq<(Seq<char>, Option<Seq<char>>)>,
    pub name: Seq<char>,
    pub arguments: Seq<(Seq<char>, ParamDescView)>,
    pub ret: Option<ParamDescView>,
}

impl View for FunctionDesc {
    type V = FunctionDescView;

    open spec fn view(&self) -> FunctionDescView {
        FunctionDescView {
            attributes: attrs_view(self.attributes@),
            name: self.name@,
            arguments: args_view(self.arguments@),
            ret: opt_param_view(self.ret),
        }
    }
}

impl FunctionDesc {
    pub fn new(
        attributes: Vec<(String, Option<String>)>,
        name: String,
        arguments: Vec<(String, ParamDesc)>,
        ret: Option<ParamDesc>,
    ) -> (r: FunctionDesc)
        ensures
            r@ == (FunctionDescView {
                attributes: attrs_view(attributes@),
                name: name@,
                arguments: args_view(arguments@),
                ret: opt_param_view(ret),
            }),
    {
        FunctionDesc { attributes, name, arguments, ret }
    }
}

/// The view of an ordered method list.
pub open spec fn methods_view(s: Seq<FunctionDesc>) -> Seq<FunctionDescView> {
    Seq::new(s.len(), |i: int| s[i]@)
}

/// A bound class: a name, an attribute bag and its methods in source order.
#[derive(Debug, PartialEq, Eq)]
pub struct ClassDesc {
    pub name: String,
    pub attributes: Vec<(String, Option<String>)>,
    pub methods: Vec<FunctionDesc>,
}

/// The mathematical value of a [`ClassDesc`].
pub struct ClassDescView {
    pub name: Seq<char>,
    pub attributes: Seq<(Seq<char>, Option<Seq<char>>)>,
    pub methods: Seq<FunctionDescView>,
}

impl View for ClassDesc {
    type V = ClassDescView;

    open spec fn view(&self) -> ClassDescView {
        ClassDescView {
            name: self.name@,
            attributes: attrs_view(self.attributes@),
            methods: methods_view(self.methods@),
        }
    }
}

impl ClassDesc {
    pub fn new(
        name: String,
        attributes: Vec<(String, Option<String>)>,
        methods: Vec<FunctionDesc>,
    ) -> (r: ClassDesc)
        ensures
            r@ == (ClassDescView {
                name: name@,
                attributes: attrs_view(attributes@),
                methods: methods_view(methods@),
            }),
    {
        ClassDesc { name, attributes, methods }
    }
}

/// A bound module: an attribute bag (carrying the bound external source
/// reference) wrapping exactly one exported class.
#[derive(Debug, PartialEq, Eq)]
pub struct ModuleDesc {
    pub attributes: Vec<(String, Option<String>)>,
    pub class: ClassDesc,
}

/// The mathematical value of a [`ModuleDesc`].
pub struct ModuleDescView {
    pub attributes: Seq<(Seq<char>, Option<Seq<char>>)>,
    pub class: ClassDescView,
}

impl View for ModuleDesc {
    type V = ModuleDescView;

    open spec fn view(&self) -> ModuleDescView {
        ModuleDescView { attributes: attrs_view(self.attributes@), class: self.class@ }
    }
}

impl ModuleDesc {
    pub fn new(attributes: Vec<(String, Option<String>)>, class: ClassDesc) -> (r: ModuleDesc)
        ensures
            r@ == (ModuleDescView { attributes: attrs_view(attributes@), class: class@ }),
    {
        ModuleDesc { attributes, class }
    }
}

} // verus!

verus! {

/// Appending one named parameter extends the view of a function-type
/// parameter list by the view of that parameter.
pub proof fn lemma_fn_params_view_push(s: Seq<(String, TypeDesc)>, x: (String, TypeDesc))
    ensures
        fn_params_view(s.push(x)) == fn_params_view(s) + seq![(x.0@, type_desc_view(x.1))],
    decreases s.len(),
{
    if s.len() == 0 {
        assert(s.push(x).drop_first() =~= Seq::<(String, TypeDesc)>::empty());
        assert(s =~= Seq::<(String, TypeDesc)>::empty());
        assert(fn_params_view(s.push(x)) =~= fn_params_view(s) + seq![(x.0@, type_desc_view(x.1))]);
    } else {
        assert(s.push(x).drop_first() =~= s.drop_first().push(x));
        lemma_fn_params_view_push(s.drop_first(), x);
        assert(fn_params_view(s.push(x)) =~= fn_params_view(s) + seq![(x.0@, type_desc_view(x.1))]);
    }
}

/// Appending one member extends the view of a union member list by the view
/// of that member.
pub proof fn lemma_type_desc_seq_view_push(s: Seq<TypeDesc>, x: TypeDesc)
    ensures
        type_desc_seq_view(s.push(x)) == type_desc_seq_view(s) + seq![type_desc_view(x)],
    decreases s.len(),
{
    if s.len() == 0 {
        assert(s.push(x).drop_first() =~= Seq::<TypeDesc>::empty());
        assert(s =~= Seq::<TypeDesc>::empty());
        assert(type_desc_seq_view(s.push(x)) =~= type_desc_seq_view(s) + seq![type_desc_view(x)]);
    } else {
        assert(s.push(x).drop_first() =~= s.drop_first().push(x));
        lemma_type_desc_seq_view_push(s.drop_first(), x);
        assert(type_desc_seq_view(s.push(x)) =~= type_desc_seq_view(s) + seq![type_desc_view(x)]);
    }
}

/// The view of a union member list has the same length and views each
/// member pointwise.
pub proof fn lemma_type_desc_seq_view_index(s: Seq<TypeDesc>)
    ensures
        type_desc_seq_view(s).len() == s.len(),
        forall|i: int| 0 <= i < s.len() ==> type_desc_seq_view(s)[i] == type_desc_view(s[i]),
    decreases s.len(),
{
    if s.len() == 0 {
    } else {
        lemma_type_desc_seq_view_index(s.drop_first());
        assert forall|i: int| 0 <= i < s.len() implies type_desc_seq_view(s)[i] == type_desc_view(
            s[i],
        ) by {
            if i > 0 {
                assert(s.drop_first()[i - 1] == s[i]);
                assert(type_desc_seq_view(s)[i] == type_desc_seq_view(s.drop_first())[i - 1]);
            }
        }
    }
}

fn clone_fn_params(v: &Vec<(String, TypeDesc)>) -> (r: Vec<(String, TypeDesc)>)
    ensures
        fn_params_view(r@) == fn_params_view(v@),
    decreases *v,
{
    let mut r: Vec<(String, TypeDesc)> = Vec::new();
    let mut i: usize = 0;
    proof {
        assert(v@.take(0) =~= Seq::<(String, TypeDesc)>::empty());
    }
    while i < v.len()
        invariant
            i <= v@.len(),
            fn_params_view(r@) == fn_params_view(v@.take(i as int)),
        decreases v@.len() - i,
    {
        let name = v[i].0.clone();
        let td = clone_type_desc(&v[i].1);
        proof {
            lemma_fn_params_view_push(r@, (name, td));
            lemma_fn_params_view_push(v@.take(i as int), v@[i as int]);
            assert(v@.take(i as int + 1) =~= v@.take(i as int).push(v@[i as int]));
        }
        r.push((name, td));
        i = i + 1;
    }
    proof {
        assert(v@.take(v@.len() as int) =~= v@);
    }
    r
}

fn clone_type_desc_seq(v: &Vec<TypeDesc>) -> (r: Vec<TypeDesc>)
    ensures
        type_desc_seq_view(r@) == type_desc_seq_view(v@),
    decreases *v,
{
    let mut r: Vec<TypeDesc> = Vec::new();
    let mut i: usize = 0;
    proof {
        assert(v@.take(0) =~= Seq::<TypeDesc>::empty());
    }
    while i < v.len()
        invariant
            i <= v@.len(),
            type_desc_seq_view(r@) == type_desc_seq_view(v@.take(i as int)),
        decreases v@.len() - i,
    {
        let td = clone_type_desc(&v[i]);
        proof {
            lemma_type_desc_seq_view_push(r@, td);
            lemma_type_desc_seq_view_push(v@.take(i as int), v@[i as int]);
            assert(v@.take(i as int + 1) =~= v@.take(i as int).push(v@[i as int]));
        }
        r.push(td);
        i = i + 1;
    }
    proof {
        assert(v@.take(v@.len() as int) =~= v@);
    }
    r
}

fn clone_type_desc(t: &TypeDesc) -> (r: TypeDesc)
    ensures
        r@ == t@,
    decreases *t,
{
    match t {
        TypeDesc::TsAny => TypeDesc::TsAny,
        TypeDesc::TsBoolean => TypeDesc::TsBoolean,
        TypeDesc::TsNull => TypeDesc::TsNull,
        TypeDesc::TsNumber => TypeDesc::TsNumber,
        TypeDesc::TsString => TypeDesc::TsString,
        TypeDesc::TsThis => TypeDesc::TsThis,
        TypeDesc::TsVoid => TypeDesc::TsVoid,
        TypeDesc::TsUndefined => TypeDesc::TsUndefined,
        TypeDesc::TsArray(inner) => TypeDesc::TsArray(Box::new(clone_type_desc(&**inner))),
        TypeDesc::TsFunction(params, ret) => TypeDesc::TsFunction(
            clone_fn_params(params),
            match ret {
                Some(r0) => Some(Box::new(clone_type_desc(&**r0))),
                None => None,
            },
        ),
        TypeDesc::TsClass(name) => TypeDesc::TsClass(name.clone()),
        TypeDesc::TsUnion(types) => TypeDesc::TsUnion(clone_type_desc_seq(types)),
        TypeDesc::Unimplemented => TypeDesc::Unimplemented,
    }
}

impl Clone for TypeDesc {
    /// A deep copy with the same view.
    fn clone(&self) -> (r: TypeDesc)
        ensures
            r@ == self@,
    {
        clone_type_desc(self)
    }
}

impl Clone for ParamDesc {
    /// A deep copy with the same view.
    fn clone(&self) -> (r: ParamDesc)
        ensures
            r@ == self@,
    {
        ParamDesc {
            type_desc: self.type_desc.clone(),
            reference: self.reference,
            optional: self.optional,
        }
    }
}

fn clone_attrs(v: &Vec<(String, Option<String>)>) -> (r: Vec<(String, Option<String>)>)
    ensures
        attrs_view(r@) == attrs_view(v@),
{
    let mut r: Vec<(String, Option<String>)> = Vec::new();
    let mut i: usize = 0;
    while i < v.len()
        invariant
            i <= v@.len(),
            r@.len() == i,
            forall|j: int|
                0 <= j < i ==> r@[j].0@ == v@[j].0@ && opt_string_view(r@[j].1)
                    == opt_string_view(v@[j].1),
        decreases v@.len() - i,
    {
        let key = v[i].0.clone();
        let value = match &v[i].1 {
            Some(s) => Some(s.clone()),
            None => None,
        };
        r.push((key, value));
        i = i + 1;
    }
    proof {
        assert(attrs_view(r@) =~= attrs_view(v@));
    }
    r
}

fn clone_args(v: &Vec<(String, ParamDesc)>) -> (r: Vec<(String, ParamDesc)>)
    ensures
        args_view(r@) == args_view(v@),
{
    let mut r: Vec<(String, ParamDesc)> = Vec::new();
    let mut i: usize = 0;
    while i < v.len()
        invariant
            i <= v@.len(),
            r@.len() == i,
            forall|j: int| 0 <= j < i ==> r@[j].0@ == v@[j].0@ && r@[j].1@ == v@[j].1@,
        decreases v@.len() - i,
    {
        let name = v[i].0.clone();
        let pd = v[i].1.clone();
        r.push((name, pd));
        i = i + 1;
    }
    proof {
        assert(args_view(r@) =~= args_view(v@));
    }
    r
}

impl Clone for FunctionDesc {
    /// A deep copy with the same view.
    fn clone(&self) -> (r: FunctionDesc)
        ensures
            r@ == self@,
    {
        FunctionDesc {
            attributes: clone_attrs(&self.attributes),
            name: self.name.clone(),
            arguments: clone_args(&self.arguments),
            ret: match &self.ret {
                Some(p) => Some(p.clone()),
                None => None,
            },
        }
    }
}

} // verus!
