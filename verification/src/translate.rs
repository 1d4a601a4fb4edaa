//! Translation of declared TypeScript shapes into the intermediate
//! representation: the type resolver, the member translator and the class
//! assembler.

use vstd::prelude::*;

use crate::ast::{TsEntityName, TsFnParam, TsKeywordKind, TsType};
use crate::error::Error;
use crate::strutil::{eq_ignore_case, eq_str_ignore_ascii_case, snake_of, to_snake_case};
use crate::wb::{
    fn_params_view, lemma_fn_params_view_push, lemma_type_desc_seq_view_push, type_desc_seq_view,
    type_desc_view, TypeDesc, TypeDescView,
};

verus! {

/// Whether a type reference name denotes the structural `ArrayLike` generic,
/// compared ignoring ASCII case.
pub open spec fn is_array_like(name: Seq<char>) -> bool {
    eq_ignore_case(name, "ArrayLike"@)
}

/// What resolving one declared type yields: a portable type descriptor, or
/// the error identifying the unresolvable shape.
///
/// `T[]` and `ArrayLike<T>` both resolve to the array descriptor over the
/// resolution of `T`; the seven primitive keywords map one-to-one; any other
/// named reference resolves to a class descriptor; unions resolve member by
/// member in source order; intersections and other unrecognized shapes
/// resolve to the `Unimplemented` escape value, for the caller to judge,
/// while constructor types, qualified names, malformed function types and
/// unsupported keywords are errors.
pub open spec fn resolve_spec(t: TsType) -> Result<TypeDescView, Error>
    decreases t,
{
    match t {
        TsType::TsArrayType(inner) => match resolve_spec(*inner) {
            Ok(d) => Ok(TypeDescView::TsArray(Box::new(d))),
            Err(e) => Err(e),
        },
        TsType::TsTypeRef(entity, params) => match entity {
            TsEntityName::Ident(name) => if is_array_like(name@) {
                match params {
                    Some(ps) => if ps@.len() == 0 {
                        Err(Error::UnresolvedType)
                    } else {
                        match resolve_spec(ps@[0]) {
                            Ok(d) => Ok(TypeDescView::TsArray(Box::new(d))),
                            Err(e) => Err(e),
                        }
                    },
                    None => Err(Error::UnresolvedType),
                }
            } else {
                Ok(TypeDescView::TsClass(name@))
            },
            TsEntityName::Other => Err(Error::UnresolvedType),
        },
        TsType::TsKeywordType(kind) => match kind {
            TsKeywordKind::TsAnyKeyword => Ok(TypeDescView::TsAny),
            TsKeywordKind::TsBooleanKeyword => Ok(TypeDescView::TsBoolean),
            TsKeywordKind::TsNullKeyword => Ok(TypeDescView::TsNull),
            TsKeywordKind::TsNumberKeyword => Ok(TypeDescView::TsNumber),
            TsKeywordKind::TsStringKeyword => Ok(TypeDescView::TsString),
            TsKeywordKind::TsVoidKeyword => Ok(TypeDescView::TsVoid),
            TsKeywordKind::TsUndefinedKeyword => Ok(TypeDescView::TsUndefined),
            TsKeywordKind::Unsupported => Err(Error::UnresolvedType),
        },
        TsType::TsThisType => Ok(TypeDescView::TsThis),
        TsType::TsUnionType(types) => match resolve_list_spec(types@) {
            Ok(members) => Ok(TypeDescView::TsUnion(members)),
            Err(e) => Err(e),
        },
        TsType::TsIntersectionType => Ok(TypeDescView::Unimplemented),
        TsType::TsFnType(params, ret) => match resolve_fn_params_spec(params@) {
            Ok(ps) => match ret {
                Some(r) => match resolve_spec(*r) {
                    Ok(rd) => Ok(TypeDescView::TsFunction(ps, Some(Box::new(rd)))),
                    Err(e) => Err(e),
                },
                None => Err(Error::UnresolvedType),
            },
            Err(e) => Err(e),
        },
        TsType::TsConstructorType => Err(Error::UnresolvedType),
        TsType::Other => Ok(TypeDescView::Unimplemented),
    }
}

/// What resolving the members of a union yields: each member resolved in
/// order, or the first error.
pub open spec fn resolve_list_spec(s: Seq<TsType>) -> Result<Seq<TypeDescView>, Error>
    decreases s,
{
    if s.len() == 0 {
        Ok(Seq::empty())
    } else {
        match resolve_spec(s[0]) {
            Ok(d) => match resolve_list_spec(s.drop_first()) {
                Ok(rest) => Ok(seq![d] + rest),
                Err(e) => Err(e),
            },
            Err(e) => Err(e),
        }
    }
}

/// What resolving the parameters of a function type yields: each identifier
/// renamed to snake case and its annotation resolved, in order, or the first
/// error; a parameter without a simple identifier or without an annotation
/// is an error.
pub open spec fn resolve_fn_params_spec(s: Seq<TsFnParam>) -> Result<
    Seq<(Seq<char>, TypeDescView)>,
    Error,
>
    decreases s,
{
    if s.len() == 0 {
        Ok(Seq::empty())
    } else {
        match s[0] {
            TsFnParam::Ident(sym, Some(t)) => match resolve_spec(*t) {
                Ok(d) => match resolve_fn_params_spec(s.drop_first()) {
                    Ok(rest) => Ok(seq![(snake_of(sym@), d)] + rest),
                    Err(e) => Err(e),
                },
                Err(e) => Err(e),
            },
            TsFnParam::Ident(_, None) => Err(Error::UnresolvedType),
            TsFnParam::Other => Err(Error::UnresolvedType),
        }
    }
}

/// The view of a type resolution result.
pub open spec fn type_result_view(r: Result<TypeDesc, Error>) -> Result<TypeDescView, Error> {
    match r {
        Ok(d) => Ok(d@),
        Err(e) => Err(e),
    }
}

/// The view of a union member resolution result.
pub open spec fn type_list_result_view(r: Result<Vec<TypeDesc>, Error>) -> Result<
    Seq<TypeDescView>,
    Error,
> {
    match r {
        Ok(v) => Ok(type_desc_seq_view(v@)),
        Err(e) => Err(e),
    }
}

/// The view of a function type parameter resolution result.
pub open spec fn fn_params_result_view(r: Result<Vec<(String, TypeDesc)>, Error>) -> Result<
    Seq<(Seq<char>, TypeDescView)>,
    Error,
> {
    match r {
        Ok(v) => Ok(fn_params_view(v@)),
        Err(e) => Err(e),
    }
}

/// Resolves one declared type into a portable type descriptor.
pub fn process_type(t: &TsType) -> (r: Result<TypeDesc, Error>)
    ensures
        type_result_view(r) == resolve_spec(*t),
    decreases *t,
{
    match t {
        TsType::TsArrayType(inner) => match process_type(&**inner) {
            Ok(d) => Ok(TypeDesc::TsArray(Box::new(d))),
            Err(e) => Err(e),
        },
        TsType::TsTypeRef(entity, params) => match entity {
            TsEntityName::Ident(name) => {
                if eq_str_ignore_ascii_case(name.as_str(), "ArrayLike") {
                    match params {
                        Some(ps) => {
                            if ps.len() == 0 {
                                Err(Error::UnresolvedType)
                            } else {
                                match process_type(&ps[0]) {
                                    Ok(d) => Ok(TypeDesc::TsArray(Box::new(d))),
                                    Err(e) => Err(e),
                                }
                            }
                        },
                        None => Err(Error::UnresolvedType),
                    }
                } else {
                    Ok(TypeDesc::TsClass(name.clone()))
                }
            },
            TsEntityName::Other => Err(Error::UnresolvedType),
        },
        TsType::TsKeywordType(kind) => match kind {
            TsKeywordKind::TsAnyKeyword => Ok(TypeDesc::TsAny),
            TsKeywordKind::TsBooleanKeyword => Ok(TypeDesc::TsBoolean),
            TsKeywordKind::TsNullKeyword => Ok(TypeDesc::TsNull),
            TsKeywordKind::TsNumberKeyword => Ok(TypeDesc::TsNumber),
            TsKeywordKind::TsStringKeyword => Ok(TypeDesc::TsString),
            TsKeywordKind::TsVoidKeyword => Ok(TypeDesc::TsVoid),
            TsKeywordKind::TsUndefinedKeyword => Ok(TypeDesc::TsUndefined),
            TsKeywordKind::Unsupported => Err(Error::UnresolvedType),
        },
        TsType::TsThisType => Ok(TypeDesc::TsThis),
        TsType::TsUnionType(types) => match process_type_list(types) {
            Ok(members) => Ok(TypeDesc::TsUnion(members)),
            Err(e) => Err(e),
        },
        TsType::TsIntersectionType => Ok(TypeDesc::Unimplemented),
        TsType::TsFnType(params, ret) => match process_fn_params(params) {
            Ok(ps) => match ret {
                Some(r0) => match process_type(&**r0) {
                    Ok(rd) => Ok(TypeDesc::TsFunction(ps, Some(Box::new(rd)))),
                    Err(e) => Err(e),
                },
                None => Err(Error::UnresolvedType),
            },
            Err(e) => Err(e),
        },
        TsType::TsConstructorType => Err(Error::UnresolvedType),
        TsType::Other => Ok(TypeDesc::Unimplemented),
    }
}

fn process_type_list(v: &Vec<TsType>) -> (r: Result<Vec<TypeDesc>, Error>)
    ensures
        type_list_result_view(r) == resolve_list_spec(v@),
    decreases *v,
{
    let mut out: Vec<TypeDesc> = Vec::new();
    let mut i: usize = 0;
    proof {
        assert(v@.skip(0) =~= v@);
        if resolve_list_spec(v@) is Ok {
            assert(Seq::<TypeDescView>::empty() + resolve_list_spec(v@)->Ok_0 =~= resolve_list_spec(
                v@,
            )->Ok_0);
        }
    }
    while i < v.len()
        invariant
            i <= v@.len(),
            resolve_list_spec(v@) == concat_types_result(
                type_desc_seq_view(out@),
                resolve_list_spec(v@.skip(i as int)),
            ),
        decreases v@.len() - i,
    {
        proof {
            assert(v@.skip(i as int)[0] == v@[i as int]);
            assert(v@.skip(i as int).drop_first() =~= v@.skip(i as int + 1));
        }
        match process_type(&v[i]) {
            Ok(d) => {
                proof {
                    lemma_type_desc_seq_view_push(out@, d);
                    let rest = resolve_list_spec(v@.skip(i as int + 1));
                    if rest is Ok {
                        assert((type_desc_seq_view(out@) + seq![d@]) + rest->Ok_0
                            =~= type_desc_seq_view(out@) + (seq![d@] + rest->Ok_0));
                    }
                }
                out.push(d);
            },
            Err(e) => {
                return Err(e);
            },
        }
        i = i + 1;
    }
    proof {
        assert(v@.skip(v@.len() as int) =~= Seq::<TsType>::empty());
        assert(type_desc_seq_view(out@) + Seq::<TypeDescView>::empty() =~= type_desc_seq_view(
            out@,
        ));
    }
    Ok(out)
}

fn process_fn_params(v: &Vec<TsFnParam>) -> (r: Result<Vec<(String, TypeDesc)>, Error>)
    ensures
        fn_params_result_view(r) == resolve_fn_params_spec(v@),
    decreases *v,
{
    let mut out: Vec<(String, TypeDesc)> = Vec::new();
    let mut i: usize = 0;
    proof {
        assert(v@.skip(0) =~= v@);
        if resolve_fn_params_spec(v@) is Ok {
            assert(Seq::<(Seq<char>, TypeDescView)>::empty() + resolve_fn_params_spec(v@)->Ok_0
                =~= resolve_fn_params_spec(v@)->Ok_0);
        }
    }
    while i < v.len()
        invariant
            i <= v@.len(),
            resolve_fn_params_spec(v@) == concat_fn_params_result(
                fn_params_view(out@),
                resolve_fn_params_spec(v@.skip(i as int)),
            ),
        decreases v@.len() - i,
    {
        proof {
            assert(v@.skip(i as int)[0] == v@[i as int]);
            assert(v@.skip(i as int).drop_first() =~= v@.skip(i as int + 1));
        }
        match &v[i] {
            TsFnParam::Ident(sym, Some(t)) => {
                match process_type(&**t) {
                    Ok(d) => {
                        let name = to_snake_case(sym.as_str());
                        proof {
                            lemma_fn_params_view_push(out@, (name, d));
                            let rest = resolve_fn_params_spec(v@.skip(i as int + 1));
                            if rest is Ok {
                                assert((fn_params_view(out@) + seq![(name@, d@)]) + rest->Ok_0
                                    =~= fn_params_view(out@) + (seq![(name@, d@)] + rest->Ok_0));
                            }
                        }
                        out.push((name, d));
                    },
                    Err(e) => {
                        return Err(e);
                    },
                }
            },
            TsFnParam::Ident(_, None) => {
                return Err(Error::UnresolvedType);
            },
            TsFnParam::Other => {
                return Err(Error::UnresolvedType);
            },
        }
        i = i + 1;
    }
    proof {
        assert(v@.skip(v@.len() as int) =~= Seq::<TsFnParam>::empty());
        assert(fn_params_view(out@) + Seq::<(Seq<char>, TypeDescView)>::empty() =~= fn_params_view(
            out@,
        ));
    }
    Ok(out)
}

/// Prepends already-resolved union members to a resolution result.
pub open spec fn concat_types_result(
    prefix: Seq<TypeDescView>,
    r: Result<Seq<TypeDescView>, Error>,
) -> Result<Seq<TypeDescView>, Error> {
    match r {
        Ok(s) => Ok(prefix + s),
        Err(e) => Err(e),
    }
}

/// Prepends already-resolved function type parameters to a resolution result.
pub open spec fn concat_fn_params_result(
    prefix: Seq<(Seq<char>, TypeDescView)>,
    r: Result<Seq<(Seq<char>, TypeDescView)>, Error>,
) -> Result<Seq<(Seq<char>, TypeDescView)>, Error> {
    match r {
        Ok(s) => Ok(prefix + s),
        Err(e) => Err(e),
    }
}

} // verus!

verus! {

use crate::ast::{CtorParam, Param};
use crate::wb::{args_view, attrs_view, opt_param_view, FunctionDesc, ParamDesc, ParamDescView, FunctionDescView};

/// What translating one declared parameter yields: its identifier renamed to
/// snake case and its annotation resolved, by value and with the
/// source-level optional marker; a parameter without a simple identifier or
/// without an annotation is malformed.
pub open spec fn param_spec(p: Param) -> Result<(Seq<char>, ParamDescView), Error> {
    match p {
        Param::Ident { sym, optional, type_ann: Some(t) } => match resolve_spec(t) {
            Ok(d) => Ok(
                (snake_of(sym@), ParamDescView { type_desc: d, reference: false, optional }),
            ),
            Err(e) => Err(e),
        },
        Param::Ident { type_ann: None, .. } => Err(Error::MalformedParameter),
        Param::Other => Err(Error::MalformedParameter),
    }
}

/// What translating an ordered parameter list yields: each parameter in
/// order, or the first error.
pub open spec fn translate_params_spec(s: Seq<Param>) -> Result<
    Seq<(Seq<char>, ParamDescView)>,
    Error,
>
    decreases s,
{
    if s.len() == 0 {
        Ok(Seq::empty())
    } else {
        match param_spec(s[0]) {
            Ok(np) => match translate_params_spec(s.drop_first()) {
                Ok(rest) => Ok(seq![np] + rest),
                Err(e) => Err(e),
            },
            Err(e) => Err(e),
        }
    }
}

/// The return value a resolved return type yields: `void` collapses to no
/// return value; a union of exactly `[X, null]` or `[X, undefined]`, in that
/// order, collapses to an optional `X`; anything else is returned by value,
/// required.
pub open spec fn return_of(rd: TypeDescView) -> Option<ParamDescView> {
    match rd {
        TypeDescView::TsVoid => None,
        TypeDescView::TsUnion(members) => if members.len() == 2 && (members[1]
            is TsNull || members[1] is TsUndefined) {
            Some(ParamDescView { type_desc: members[0], reference: false, optional: true })
        } else {
            Some(
                ParamDescView {
                    type_desc: TypeDescView::TsUnion(members),
                    reference: false,
                    optional: false,
                },
            )
        },
        _ => Some(ParamDescView { type_desc: rd, reference: false, optional: false }),
    }
}

/// What translating a function declaration yields: the given attribute bag
/// and name, the translated parameters, and the collapsed return value; the
/// first parameter error, or the return type's resolution error, otherwise.
pub open spec fn function_spec(
    name: Seq<char>,
    attrs: Seq<(Seq<char>, Option<Seq<char>>)>,
    params: Seq<Param>,
    rt: Option<TsType>,
) -> Result<FunctionDescView, Error> {
    match translate_params_spec(params) {
        Ok(args) => match rt {
            None => Ok(
                FunctionDescView { attributes: attrs, name, arguments: args, ret: None },
            ),
            Some(t) => match resolve_spec(t) {
                Ok(rd) => Ok(
                    FunctionDescView { attributes: attrs, name, arguments: args, ret: return_of(rd) },
                ),
                Err(e) => Err(e),
            },
        },
        Err(e) => Err(e),
    }
}

/// The view of a named parameter translation result.
pub open spec fn named_param_result_view(r: Result<(String, ParamDesc), Error>) -> Result<
    (Seq<char>, ParamDescView),
    Error,
> {
    match r {
        Ok(np) => Ok((np.0@, np.1@)),
        Err(e) => Err(e),
    }
}

/// The view of a parameter list translation result.
pub open spec fn params_result_view(r: Result<Vec<(String, ParamDesc)>, Error>) -> Result<
    Seq<(Seq<char>, ParamDescView)>,
    Error,
> {
    match r {
        Ok(v) => Ok(args_view(v@)),
        Err(e) => Err(e),
    }
}

/// The view of a function translation result.
pub open spec fn fd_result_view(r: Result<FunctionDesc, Error>) -> Result<
    FunctionDescView,
    Error,
> {
    match r {
        Ok(fd) => Ok(fd@),
        Err(e) => Err(e),
    }
}

/// Prepends already-translated parameters to a translation result.
pub open spec fn concat_args_result(
    prefix: Seq<(Seq<char>, ParamDescView)>,
    r: Result<Seq<(Seq<char>, ParamDescView)>, Error>,
) -> Result<Seq<(Seq<char>, ParamDescView)>, Error> {
    match r {
        Ok(s) => Ok(prefix + s),
        Err(e) => Err(e),
    }
}

/// Translates one declared parameter.
pub fn process_parameter(p: &Param) -> (r: Result<(String, ParamDesc), Error>)
    ensures
        named_param_result_view(r) == param_spec(*p),
{
    match p {
        Param::Ident { sym, optional, type_ann: Some(t) } => match process_type(t) {
            Ok(d) => Ok((to_snake_case(sym.as_str()), ParamDesc::new(d, false, *optional))),
            Err(e) => Err(e),
        },
        Param::Ident { type_ann: None, .. } => Err(Error::MalformedParameter),
        Param::Other => Err(Error::MalformedParameter),
    }
}

fn translate_params(v: &Vec<Param>) -> (r: Result<Vec<(String, ParamDesc)>, Error>)
    ensures
        params_result_view(r) == translate_params_spec(v@),
{
    let mut out: Vec<(String, ParamDesc)> = Vec::new();
    let mut i: usize = 0;
    proof {
        assert(v@.skip(0) =~= v@);
        if translate_params_spec(v@) is Ok {
            assert(Seq::<(Seq<char>, ParamDescView)>::empty() + translate_params_spec(v@)->Ok_0
                =~= translate_params_spec(v@)->Ok_0);
        }
    }
    while i < v.len()
        invariant
            i <= v@.len(),
            translate_params_spec(v@) == concat_args_result(
                args_view(out@),
                translate_params_spec(v@.skip(i as int)),
            ),
        decreases v@.len() - i,
    {
        proof {
            assert(v@.skip(i as int)[0] == v@[i as int]);
            assert(v@.skip(i as int).drop_first() =~= v@.skip(i as int + 1));
        }
        match process_parameter(&v[i]) {
            Ok(np) => {
                proof {
                    assert(args_view(out@.push((np.0, np.1))) =~= args_view(out@) + seq![
                        (np.0@, np.1@),
                    ]);
                    let rest = translate_params_spec(v@.skip(i as int + 1));
                    if rest is Ok {
                        assert((args_view(out@) + seq![(np.0@, np.1@)]) + rest->Ok_0 =~= args_view(
                            out@,
                        ) + (seq![(np.0@, np.1@)] + rest->Ok_0));
                    }
                }
                out.push(np);
            },
            Err(e) => {
                return Err(e);
            },
        }
        i = i + 1;
    }
    proof {
        assert(v@.skip(v@.len() as int) =~= Seq::<Param>::empty());
        assert(args_view(out@) + Seq::<(Seq<char>, ParamDescView)>::empty() =~= args_view(out@));
    }
    Ok(out)
}

fn return_param_of(rd: TypeDesc) -> (r: Option<ParamDesc>)
    ensures
        opt_param_view(r) == return_of(rd@),
{
    match rd {
        TypeDesc::TsVoid => None,
        TypeDesc::TsUnion(mut members) => {
            proof {
                crate::wb::lemma_type_desc_seq_view_index(members@);
            }
            if members.len() == 2 && (matches!(members[1], TypeDesc::TsNull) || matches!(
                members[1],
                TypeDesc::TsUndefined,
            )) {
                let first = members.remove(0);
                Some(ParamDesc::new(first, false, true))
            } else {
                Some(ParamDesc::new(TypeDesc::TsUnion(members), false, false))
            }
        },
        other => Some(ParamDesc::new(other, false, false)),
    }
}

/// Translates a function declaration: the given name and attribute bag, the
/// declared parameters and the optional declared return type.
pub fn process_function(
    name: String,
    attributes: Vec<(String, Option<String>)>,
    parameters: &Vec<Param>,
    return_type: &Option<TsType>,
) -> (r: Result<FunctionDesc, Error>)
    ensures
        fd_result_view(r) == function_spec(
            name@,
            attrs_view(attributes@),
            parameters@,
            *return_type,
        ),
{
    let args = match translate_params(parameters) {
        Ok(a) => a,
        Err(e) => {
            return Err(e);
        },
    };
    match return_type {
        None => Ok(FunctionDesc::new(attributes, name, args, None)),
        Some(t) => match process_type(t) {
            Ok(rd) => {
                let ret = return_param_of(rd);
                Ok(FunctionDesc::new(attributes, name, args, ret))
            },
            Err(e) => Err(e),
        },
    }
}

} // verus!

verus! {

use crate::ast::{ClassDecl, ClassMember, MethodKind, PropName, SuperClass};
use crate::strutil::{contains_seq, str_contains};
use crate::wb::{methods_view, ClassDesc, ClassDescView};

/// The attribute bag of a translated instance method: the `method` marker,
/// and the original declared identifier under `js_name` whenever the
/// snake-case rename changed the spelling.
pub open spec fn method_attrs(sym: Seq<char>) -> Seq<(Seq<char>, Option<Seq<char>>)> {
    if snake_of(sym) == sym {
        seq![("method"@, None)]
    } else {
        seq![("method"@, None), ("js_name"@, Some(sym))]
    }
}

/// The synthesized leading receiver of an instance method: named for the
/// receiver, typed as the enclosing class, passed by reference, required.
pub open spec fn receiver_param() -> (Seq<char>, ParamDescView) {
    ("this"@, ParamDescView { type_desc: TypeDescView::TsThis, reference: true, optional: false })
}

/// What translating an instance method yields: the snake-case name, the
/// method attribute bag, the translated parameters behind the synthesized
/// receiver, and the collapsed return value.
pub open spec fn method_spec(sym: Seq<char>, params: Seq<Param>, rt: Option<TsType>) -> Result<
    FunctionDescView,
    Error,
> {
    match function_spec(snake_of(sym), method_attrs(sym), params, rt) {
        Ok(f) => Ok(
            FunctionDescView {
                attributes: f.attributes,
                name: f.name,
                arguments: seq![receiver_param()] + f.arguments,
                ret: f.ret,
            },
        ),
        Err(e) => Err(e),
    }
}

/// What translating a constructor's parameter list yields: parameter
/// properties are passed over, the rest translate in order, first error
/// wins.
pub open spec fn ctor_args_spec(s: Seq<CtorParam>) -> Result<
    Seq<(Seq<char>, ParamDescView)>,
    Error,
>
    decreases s,
{
    if s.len() == 0 {
        Ok(Seq::empty())
    } else {
        match s[0] {
            CtorParam::Param(p) => match param_spec(p) {
                Ok(np) => match ctor_args_spec(s.drop_first()) {
                    Ok(rest) => Ok(seq![np] + rest),
                    Err(e) => Err(e),
                },
                Err(e) => Err(e),
            },
            CtorParam::TsParamProp => ctor_args_spec(s.drop_first()),
        }
    }
}

/// What translating a constructor yields: a method named `new` with the
/// constructor marker, the translated parameters, and the enclosing class as
/// its required, by-value return.
pub open spec fn ctor_spec(params: Seq<CtorParam>) -> Result<FunctionDescView, Error> {
    match ctor_args_spec(params) {
        Ok(args) => Ok(
            FunctionDescView {
                attributes: seq![("constructor"@, None)],
                name: "new"@,
                arguments: args,
                ret: Some(
                    ParamDescView {
                        type_desc: TypeDescView::TsThis,
                        reference: false,
                        optional: false,
                    },
                ),
            },
        ),
        Err(e) => Err(e),
    }
}

/// Translates one declared instance method.
pub fn translate_method(
    sym: &String,
    params: &Vec<Param>,
    return_type: &Option<TsType>,
) -> (r: Result<FunctionDesc, Error>)
    ensures
        fd_result_view(r) == method_spec(sym@, params@, *return_type),
{
    let fn_name = to_snake_case(sym.as_str());
    let mut attrs: Vec<(String, Option<String>)> = Vec::new();
    attrs.push((String::from_str("method"), None));
    if !fn_name.eq(sym) {
        attrs.push((String::from_str("js_name"), Some(sym.clone())));
    }
    proof {
        assert(attrs_view(attrs@) =~= method_attrs(sym@));
    }
    match process_function(fn_name, attrs, params, return_type) {
        Ok(mut fd) => {
            let receiver = (String::from_str("this"), ParamDesc::new(TypeDesc::TsThis, true, false));
            let ghost old_args = fd.arguments@;
            fd.arguments.insert(0, receiver);
            proof {
                assert(args_view(fd.arguments@) =~= seq![receiver_param()] + args_view(old_args));
            }
            Ok(fd)
        },
        Err(e) => Err(e),
    }
}

/// Translates a constructor declaration, from its first signature.
pub fn translate_constructor(params: &Vec<CtorParam>) -> (r: Result<FunctionDesc, Error>)
    ensures
        fd_result_view(r) == ctor_spec(params@),
{
    let mut out: Vec<(String, ParamDesc)> = Vec::new();
    let mut i: usize = 0;
    proof {
        assert(params@.skip(0) =~= params@);
        if ctor_args_spec(params@) is Ok {
            assert(Seq::<(Seq<char>, ParamDescView)>::empty() + ctor_args_spec(params@)->Ok_0
                =~= ctor_args_spec(params@)->Ok_0);
        }
    }
    while i < params.len()
        invariant
            i <= params@.len(),
            ctor_args_spec(params@) == concat_args_result(
                args_view(out@),
                ctor_args_spec(params@.skip(i as int)),
            ),
        decreases params@.len() - i,
    {
        proof {
            assert(params@.skip(i as int)[0] == params@[i as int]);
            assert(params@.skip(i as int).drop_first() =~= params@.skip(i as int + 1));
        }
        match &params[i] {
            CtorParam::Param(p) => {
                match process_parameter(p) {
                    Ok(np) => {
                        proof {
                            assert(args_view(out@.push((np.0, np.1))) =~= args_view(out@) + seq![
                                (np.0@, np.1@),
                            ]);
                            let rest = ctor_args_spec(params@.skip(i as int + 1));
                            if rest is Ok {
                                assert((args_view(out@) + seq![(np.0@, np.1@)]) + rest->Ok_0
                                    =~= args_view(out@) + (seq![(np.0@, np.1@)] + rest->Ok_0));
                            }
                        }
                        out.push(np);
                    },
                    Err(e) => {
                        return Err(e);
                    },
                }
            },
            CtorParam::TsParamProp => {},
        }
        i = i + 1;
    }
    proof {
        assert(params@.skip(params@.len() as int) =~= Seq::<CtorParam>::empty());
        assert(args_view(out@) + Seq::<(Seq<char>, ParamDescView)>::empty() =~= args_view(out@));
    }
    let mut attrs: Vec<(String, Option<String>)> = Vec::new();
    attrs.push((String::from_str("constructor"), None));
    proof {
        assert(attrs_view(attrs@) =~= seq![("constructor"@, None::<Seq<char>>)]);
    }
    Ok(
        FunctionDesc::new(
            attrs,
            String::from_str("new"),
            out,
            Some(ParamDesc::new(TypeDesc::TsThis, false, false)),
        ),
    )
}

} // verus!

verus! {

/// Whether a leading comment marks its declaration as deprecated.
pub open spec fn is_deprecated(comment: Option<String>) -> bool {
    match comment {
        Some(s) => contains_seq(s@, "@deprecated"@),
        None => false,
    }
}

/// The attribute bag of an assembled class: the superclass name under
/// `extends` when the declaration names one by identifier.
pub open spec fn class_attrs_spec(c: ClassDecl) -> Seq<(Seq<char>, Option<Seq<char>>)> {
    match c.super_class {
        Some(SuperClass::Ident(n)) => seq![("extends"@, Some(n@))],
        _ => Seq::empty(),
    }
}

/// What walking a class body yields: the translated methods in declaration
/// order and the named member failures, or the hard error that aborts the
/// class.
///
/// Only the first constructor signature is translated; later ones are
/// passed over. A getter, setter or static member is a hard error, before
/// any deprecation check. A method whose leading comment marks it
/// deprecated is dropped before translation, as is one without a plain
/// identifier key. A member whose translation fails is recorded under its
/// translated name and does not abort its siblings.
pub open spec fn members_spec(body: Seq<ClassMember>, seen_ctor: bool) -> Result<
    (Seq<FunctionDescView>, Seq<(Seq<char>, Error)>),
    Error,
>
    decreases body,
{
    if body.len() == 0 {
        Ok((Seq::empty(), Seq::empty()))
    } else {
        match body[0] {
            ClassMember::Constructor { params } => {
                if seen_ctor {
                    members_spec(body.drop_first(), true)
                } else {
                    match ctor_spec(params@) {
                        Ok(f) => match members_spec(body.drop_first(), true) {
                            Ok(rest) => Ok((seq![f] + rest.0, rest.1)),
                            Err(e) => Err(e),
                        },
                        Err(e) => match members_spec(body.drop_first(), true) {
                            Ok(rest) => Ok((rest.0, seq![("new"@, e)] + rest.1)),
                            Err(e2) => Err(e2),
                        },
                    }
                }
            },
            ClassMember::Method { key, kind, is_static, params, return_type, leading_comment } => {
                if !(kind is Method) || is_static {
                    Err(Error::UnsupportedMember)
                } else if is_deprecated(leading_comment) {
                    members_spec(body.drop_first(), seen_ctor)
                } else {
                    match key {
                        PropName::Ident(sym) => match method_spec(sym@, params@, return_type) {
                            Ok(f) => match members_spec(body.drop_first(), seen_ctor) {
                                Ok(rest) => Ok((seq![f] + rest.0, rest.1)),
                                Err(e) => Err(e),
                            },
                            Err(e) => match members_spec(body.drop_first(), seen_ctor) {
                                Ok(rest) => Ok((rest.0, seq![(snake_of(sym@), e)] + rest.1)),
                                Err(e2) => Err(e2),
                            },
                        },
                        PropName::Other => members_spec(body.drop_first(), seen_ctor),
                    }
                }
            },
            ClassMember::Other => members_spec(body.drop_first(), seen_ctor),
        }
    }
}

/// What assembling a class declaration yields: its name, its `extends`
/// attribute, and the walk of its body starting before any constructor.
pub open spec fn class_spec(c: ClassDecl) -> Result<
    (ClassDescView, Seq<(Seq<char>, Error)>),
    Error,
> {
    match members_spec(c.body@, false) {
        Ok(rest) => Ok(
            (
                ClassDescView {
                    name: c.ident@,
                    attributes: class_attrs_spec(c),
                    methods: rest.0,
                },
                rest.1,
            ),
        ),
        Err(e) => Err(e),
    }
}

/// The view of a list of named member failures.
pub open spec fn failures_view(s: Seq<(String, Error)>) -> Seq<(Seq<char>, Error)> {
    Seq::new(s.len(), |i: int| (s[i].0@, s[i].1))
}

/// The view of a class assembly result.
pub open spec fn class_result_view(r: Result<(ClassDesc, Vec<(String, Error)>), Error>) -> Result<
    (ClassDescView, Seq<(Seq<char>, Error)>),
    Error,
> {
    match r {
        Ok(p) => Ok((p.0@, failures_view(p.1@))),
        Err(e) => Err(e),
    }
}

/// Relates a whole body walk to the walk of a remaining suffix, given the
/// methods and failures already accumulated for the processed prefix.
pub open spec fn members_ctx(
    whole: Result<(Seq<FunctionDescView>, Seq<(Seq<char>, Error)>), Error>,
    done_methods: Seq<FunctionDescView>,
    done_failures: Seq<(Seq<char>, Error)>,
    rest: Result<(Seq<FunctionDescView>, Seq<(Seq<char>, Error)>), Error>,
) -> bool {
    match rest {
        Ok(p) => whole == Ok::<_, Error>((done_methods + p.0, done_failures + p.1)),
        Err(e) => whole == Err::<(Seq<FunctionDescView>, Seq<(Seq<char>, Error)>), _>(e),
    }
}

/// Assembles one exported class declaration: translated methods in
/// declaration order together with the named failures of members whose
/// translation was aborted.
pub fn process_class(c: &ClassDecl) -> (r: Result<(ClassDesc, Vec<(String, Error)>), Error>)
    ensures
        class_result_view(r) == class_spec(*c),
{
    let mut methods: Vec<FunctionDesc> = Vec::new();
    let mut fails: Vec<(String, Error)> = Vec::new();
    let mut seen_ctor = false;
    let mut i: usize = 0;
    proof {
        assert(c.body@.skip(0) =~= c.body@);
        assert(methods_view(methods@) =~= Seq::<FunctionDescView>::empty());
        assert(failures_view(fails@) =~= Seq::<(Seq<char>, Error)>::empty());
        if members_spec(c.body@, false) is Ok {
            let p = members_spec(c.body@, false)->Ok_0;
            assert(Seq::<FunctionDescView>::empty() + p.0 =~= p.0);
            assert(Seq::<(Seq<char>, Error)>::empty() + p.1 =~= p.1);
        }
    }
    while i < c.body.len()
        invariant
            i <= c.body@.len(),
            members_ctx(
                members_spec(c.body@, false),
                methods_view(methods@),
                failures_view(fails@),
                members_spec(c.body@.skip(i as int), seen_ctor),
            ),
        decreases c.body@.len() - i,
    {
        proof {
            assert(c.body@.skip(i as int)[0] == c.body@[i as int]);
            assert(c.body@.skip(i as int).drop_first() =~= c.body@.skip(i as int + 1));
        }
        let ghost prev_methods = methods@;
        let ghost prev_fails = fails@;
        match &c.body[i] {
            ClassMember::Constructor { params } => {
                if !seen_ctor {
                    match translate_constructor(params) {
                        Ok(fd) => {
                            proof {
                                assert(methods_view(prev_methods.push(fd)) =~= methods_view(
                                    prev_methods,
                                ) + seq![fd@]);
                                let rest = members_spec(c.body@.skip(i as int + 1), true);
                                if rest is Ok {
                                    let p = rest->Ok_0;
                                    assert((methods_view(prev_methods) + seq![fd@]) + p.0
                                        =~= methods_view(prev_methods) + (seq![fd@] + p.0));
                                }
                            }
                            methods.push(fd);
                        },
                        Err(e) => {
                            let name = String::from_str("new");
                            proof {
                                assert(failures_view(prev_fails.push((name, e))) =~= failures_view(
                                    prev_fails,
                                ) + seq![("new"@, e)]);
                                let rest = members_spec(c.body@.skip(i as int + 1), true);
                                if rest is Ok {
                                    let p = rest->Ok_0;
                                    assert((failures_view(prev_fails) + seq![("new"@, e)]) + p.1
                                        =~= failures_view(prev_fails) + (seq![("new"@, e)] + p.1));
                                }
                            }
                            fails.push((name, e));
                        },
                    }
                    seen_ctor = true;
                }
            },
            ClassMember::Method { key, kind, is_static, params, return_type, leading_comment } => {
                let unsupported = !matches!(kind, MethodKind::Method) || *is_static;
                if unsupported {
                    return Err(Error::UnsupportedMember);
                }
                let deprecated = match leading_comment {
                    Some(s) => str_contains(s.as_str(), "@deprecated"),
                    None => false,
                };
                if !deprecated {
                    match key {
                        PropName::Ident(sym) => {
                            match translate_method(sym, params, return_type) {
                                Ok(fd) => {
                                    proof {
                                        assert(methods_view(prev_methods.push(fd)) =~= methods_view(
                                            prev_methods,
                                        ) + seq![fd@]);
                                        let rest = members_spec(
                                            c.body@.skip(i as int + 1),
                                            seen_ctor,
                                        );
                                        if rest is Ok {
                                            let p = rest->Ok_0;
                                            assert((methods_view(prev_methods) + seq![fd@]) + p.0
                                                =~= methods_view(prev_methods) + (seq![fd@] + p.0));
                                        }
                                    }
                                    methods.push(fd);
                                },
                                Err(e) => {
                                    let name = to_snake_case(sym.as_str());
                                    proof {
                                        assert(failures_view(prev_fails.push((name, e)))
                                            =~= failures_view(prev_fails) + seq![
                                            (snake_of(sym@), e),
                                        ]);
                                        let rest = members_spec(
                                            c.body@.skip(i as int + 1),
                                            seen_ctor,
                                        );
                                        if rest is Ok {
                                            let p = rest->Ok_0;
                                            assert((failures_view(prev_fails) + seq![
                                                (snake_of(sym@), e),
                                            ]) + p.1 =~= failures_view(prev_fails) + (seq![
                                                (snake_of(sym@), e),
                                            ] + p.1));
                                        }
                                    }
                                    fails.push((name, e));
                                },
                            }
                        },
                        PropName::Other => {},
                    }
                }
            },
            ClassMember::Other => {},
        }
        i = i + 1;
    }
    proof {
        assert(c.body@.skip(c.body@.len() as int) =~= Seq::<ClassMember>::empty());
        if members_spec(c.body@, false) is Ok {
            let p = members_spec(c.body@, false)->Ok_0;
            assert(methods_view(methods@) + Seq::<FunctionDescView>::empty() =~= methods_view(
                methods@,
            ));
            assert(failures_view(fails@) + Seq::<(Seq<char>, Error)>::empty() =~= failures_view(
                fails@,
            ));
        }
    }
    let mut cls_attributes: Vec<(String, Option<String>)> = Vec::new();
    match &c.super_class {
        Some(SuperClass::Ident(n)) => {
            cls_attributes.push((String::from_str("extends"), Some(n.clone())));
        },
        _ => {},
    }
    proof {
        assert(attrs_view(cls_attributes@) =~= class_attrs_spec(*c));
    }
    let cd = ClassDesc::new(c.ident.clone(), cls_attributes, methods);
    Ok((cd, fails))
}

} // verus!

verus! {

/// Law: resolving `T[]` and resolving `ArrayLike<T>`, for the same declared
/// `T`, yield identical type descriptors.
pub proof fn lemma_array_normalization(arr: TsType, al: TsType)
    requires
        arr is TsArrayType,
        al matches TsType::TsTypeRef(TsEntityName::Ident(name), Some(ps)) && is_array_like(name@)
            && ps@.len() >= 1 && ps@[0] == *arr->TsArrayType_0,
    ensures
        resolve_spec(al) == resolve_spec(arr),
{
}

/// Law: a return type resolving to exactly `[X, null]` or `[X, undefined]`,
/// in that order, collapses to a required optional `X`: the translated
/// function returns `X` by value, marked optional.
pub proof fn lemma_optional_union_collapse(
    name: Seq<char>,
    attrs: Seq<(Seq<char>, Option<Seq<char>>)>,
    params: Seq<Param>,
    rt: TsType,
    x: TypeDescView,
)
    requires
        resolve_spec(rt) == Ok::<_, Error>(TypeDescView::TsUnion(seq![x, TypeDescView::TsNull]))
            || resolve_spec(rt) == Ok::<_, Error>(
            TypeDescView::TsUnion(seq![x, TypeDescView::TsUndefined]),
        ),
    ensures
        function_spec(name, attrs, params, Some(rt)) matches Ok(f) ==> f.ret == Some(
            ParamDescView { type_desc: x, reference: false, optional: true },
        ),
        translate_params_spec(params) is Ok ==> function_spec(name, attrs, params, Some(rt))
            is Ok,
{
    assert(seq![x, TypeDescView::TsNull].len() == 2);
    assert(seq![x, TypeDescView::TsUndefined].len() == 2);
}

/// Law: the collapse is order-sensitive. A return type resolving to
/// `[null, X]`, with `X` itself neither `null` nor `undefined`, does not
/// collapse: the union is kept as the required return value.
pub proof fn lemma_reversed_union_no_collapse(
    name: Seq<char>,
    attrs: Seq<(Seq<char>, Option<Seq<char>>)>,
    params: Seq<Param>,
    rt: TsType,
    x: TypeDescView,
)
    requires
        resolve_spec(rt) == Ok::<_, Error>(TypeDescView::TsUnion(seq![TypeDescView::TsNull, x])),
        !(x is TsNull),
        !(x is TsUndefined),
    ensures
        function_spec(name, attrs, params, Some(rt)) matches Ok(f) ==> f.ret == Some(
            ParamDescView {
                type_desc: TypeDescView::TsUnion(seq![TypeDescView::TsNull, x]),
                reference: false,
                optional: false,
            },
        ),
{
    assert(seq![TypeDescView::TsNull, x][1] == x);
}

/// Law: every translated instance method takes the receiver first: a
/// by-reference, non-optional parameter named for the receiver and typed as
/// the enclosing class.
pub proof fn lemma_receiver_injection(sym: Seq<char>, params: Seq<Param>, rt: Option<TsType>)
    ensures
        method_spec(sym, params, rt) matches Ok(f) ==> f.arguments.len() >= 1 && f.arguments[0]
            == receiver_param(),
{
}

/// Every translated constructor parameter is passed by value.
proof fn lemma_ctor_args_by_value(s: Seq<CtorParam>)
    ensures
        ctor_args_spec(s) matches Ok(args) ==> forall|i: int|
            0 <= i < args.len() ==> !(#[trigger] args[i]).1.reference,
    decreases s.len(),
{
    if s.len() == 0 {
    } else {
        lemma_ctor_args_by_value(s.drop_first());
        match s[0] {
            CtorParam::Param(p) => {
                if param_spec(p) is Ok && ctor_args_spec(s.drop_first()) is Ok {
                    let np = param_spec(p)->Ok_0;
                    let rest = ctor_args_spec(s.drop_first())->Ok_0;
                    assert forall|i: int|
                        0 <= i < (seq![np] + rest).len() implies !(#[trigger] (seq![np]
                        + rest)[i]).1.reference by {
                        if i > 0 {
                            assert((seq![np] + rest)[i] == rest[i - 1]);
                        }
                    }
                }
            },
            CtorParam::TsParamProp => {},
        }
    }
}

/// Law: a translated constructor takes no synthesized receiver — every one
/// of its parameters is passed by value — and returns the enclosing class
/// by value, required.
pub proof fn lemma_constructor_shape(params: Seq<CtorParam>)
    ensures
        ctor_spec(params) matches Ok(f) ==> f.ret == Some(
            ParamDescView { type_desc: TypeDescView::TsThis, reference: false, optional: false },
        ) && forall|i: int| 0 <= i < f.arguments.len() ==> !(#[trigger] f.arguments[i]).1.reference,
{
    lemma_ctor_args_by_value(params);
}

/// Law: a method declared with a `void` return type is translated with no
/// return value at all.
pub proof fn lemma_void_erasure(
    name: Seq<char>,
    attrs: Seq<(Seq<char>, Option<Seq<char>>)>,
    params: Seq<Param>,
    rt: TsType,
)
    requires
        resolve_spec(rt) == Ok::<_, Error>(TypeDescView::TsVoid),
    ensures
        function_spec(name, attrs, params, Some(rt)) matches Ok(f) ==> f.ret is None,
        translate_params_spec(params) is Ok ==> function_spec(name, attrs, params, Some(rt))
            is Ok,
{
}

/// Law: a method whose leading comment marks it deprecated leaves no trace
/// in the assembled class: walking the body yields exactly what walking the
/// body without that member yields, methods and failures alike.
pub proof fn lemma_deprecation_filtering(body: Seq<ClassMember>, i: int, seen_ctor: bool)
    requires
        0 <= i < body.len(),
        body[i] matches ClassMember::Method { kind, is_static, leading_comment, .. } && kind
            is Method && !is_static && is_deprecated(leading_comment),
    ensures
        members_spec(body, seen_ctor) == members_spec(body.remove(i), seen_ctor),
    decreases i,
{
    if i == 0 {
        assert(body.remove(0) =~= body.drop_first());
    } else {
        assert(body.remove(i)[0] == body[0]);
        assert(body.remove(i).drop_first() =~= body.drop_first().remove(i - 1));
        assert(body.drop_first()[i - 1] == body[i]);
        lemma_deprecation_filtering(body.drop_first(), i - 1, true);
        lemma_deprecation_filtering(body.drop_first(), i - 1, false);
        lemma_deprecation_filtering(body.drop_first(), i - 1, seen_ctor);
    }
}

} // verus!

