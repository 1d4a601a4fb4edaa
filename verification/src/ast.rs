//! A plain-data model of the parsed TypeScript declaration shapes that the
//! engine reads: declared types, parameters, class members, and module items.
//!
//! An external parser produces these values (together with each member's
//! immediately preceding leading comment); the engine itself never parses
//! source text.

use vstd::prelude::*;

verus! {

/// A TypeScript keyword type.
#[derive(Debug, PartialEq, Eq, Clone, Copy)]
pub enum TsKeywordKind {
    TsAnyKeyword,
    TsBooleanKeyword,
    TsNullKeyword,
    TsNumberKeyword,
    TsStringKeyword,
    TsVoidKeyword,
    TsUndefinedKeyword,
    /// Any other keyword type (`bigint`, `symbol`, `object`, `never`, ...).
    Unsupported,
}

/// The name part of a type reference.
#[derive(Debug, PartialEq, Eq)]
pub enum TsEntityName {
    Ident(String),
    /// A qualified name (`A.B`), which the resolver does not support.
    Other,
}

/// One parameter of a function type annotation.
#[derive(Debug, PartialEq, Eq)]
pub enum TsFnParam {
    /// A simple identifier, with its optional type annotation.
    Ident(String, Option<Box<TsType>>),
    /// A destructuring or rest pattern.
    Other,
}

/// A declared TypeScript type shape.
#[derive(Debug, PartialEq, Eq)]
pub enum TsType {
    TsArrayType(Box<TsType>),
    /// A named type reference with its optional type parameter list.
    TsTypeRef(TsEntityName, Option<Vec<TsType>>),
    TsKeywordType(TsKeywordKind),
    TsThisType,
    TsUnionType(Vec<TsType>),
    /// An intersection, which resolves to the `Unimplemented` escape value.
    TsIntersectionType,
    /// A function type: parameters and an optional return annotation.
    TsFnType(Vec<TsFnParam>, Option<Box<TsType>>),
    TsConstructorType,
    /// Any other shape (tuples, literals, mapped or conditional types, ...).
    Other,
}

/// One declared parameter of a constructor or method.
#[derive(Debug, PartialEq, Eq)]
pub enum Param {
    /// A simple identifier with its source-level optional marker and its
    /// optional type annotation.
    Ident { sym: String, optional: bool, type_ann: Option<TsType> },
    /// A destructuring, rest or assignment pattern.
    Other,
}

/// One entry of a constructor's parameter list.
#[derive(Debug, PartialEq, Eq)]
pub enum CtorParam {
    Param(Param),
    /// A TypeScript parameter property (`constructor(public x: T)`).
    TsParamProp,
}

/// The key of a class method.
#[derive(Debug, PartialEq, Eq)]
pub enum PropName {
    Ident(String),
    /// A computed, string or numeric key.
    Other,
}

/// The kind of a class method.
#[derive(Debug, PartialEq, Eq, Clone, Copy)]
pub enum MethodKind {
    Method,
    Getter,
    Setter,
}

/// One member of a class body, in source order.
#[derive(Debug, PartialEq, Eq)]
#[allow(inconsistent_fields)]
pub enum ClassMember {
    Constructor { params: Vec<CtorParam> },
    Method {
        key: PropName,
        kind: MethodKind,
        is_static: bool,
        params: Vec<Param>,
        return_type: Option<TsType>,
        /// The text of the member's last leading comment, if any.
        leading_comment: Option<String>,
    },
    /// A property or any other member, which assembly passes over.
    Other,
}

/// The superclass expression of a class declaration.
#[derive(Debug, PartialEq, Eq)]
pub enum SuperClass {
    Ident(String),
    /// A superclass given by a non-identifier expression.
    Other,
}

/// An exported class declaration.
#[derive(Debug, PartialEq, Eq)]
pub struct ClassDecl {
    pub ident: String,
    pub super_class: Option<SuperClass>,
    pub body: Vec<ClassMember>,
}

/// One specifier of an import declaration.
#[derive(Debug, PartialEq, Eq)]
pub enum ImportSpecifier {
    Named(String),
    /// A default or namespace specifier.
    Other,
}

/// One item of a module body, in source order.
#[derive(Debug, PartialEq, Eq)]
pub enum ModuleItem {
    Import { specifiers: Vec<ImportSpecifier>, src: String },
    ExportClass {
        class: ClassDecl,
        /// The text of the export's last leading comment, if any.
        leading_comment: Option<String>,
    },
    /// Any other statement or declaration.
    Other,
}

/// A parsed module: its items in source order.
#[derive(Debug, PartialEq, Eq)]
pub struct Module {
    pub body: Vec<ModuleItem>,
}

} // verus!
