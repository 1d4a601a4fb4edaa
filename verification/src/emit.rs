//! The emitter: renders the intermediate representation into textual binding
//! declarations, resolving the context-dependent `this` placeholder to the
//! enclosing class name at render time.

use vstd::prelude::*;

use crate::error::Error;
use crate::wb::{
    attrs_view, ClassDesc, ClassDescView, FunctionDesc, FunctionDescView, ModuleDesc,
    ModuleDescView, ParamDesc, ParamDescView, TypeDesc, TypeDescView,
};

verus! {

/// The target-language spelling of a type descriptor, outside any class
/// context: the JavaScript value type for `any`, the plain scalar types for
/// the scalar keywords, a typed slice for numeric arrays and the generic
/// array and function types otherwise, and the class's own name for a class
/// reference. `this`, `null`, `void`, `undefined`, unions and unimplemented
/// descriptors have no spelling; they are render errors.
pub open spec fn rust_type_of(t: TypeDescView) -> Result<Seq<char>, Error> {
    match t {
        TypeDescView::TsAny => Ok("JsValue"@),
        TypeDescView::TsBoolean => Ok("bool"@),
        TypeDescView::TsNull => Err(Error::RenderableInvariantViolation),
        TypeDescView::TsNumber => Ok("f64"@),
        TypeDescView::TsString => Ok("String"@),
        TypeDescView::TsThis => Err(Error::MissingClassContext),
        TypeDescView::TsVoid => Err(Error::RenderableInvariantViolation),
        TypeDescView::TsUndefined => Err(Error::RenderableInvariantViolation),
        TypeDescView::TsArray(inner) => if *inner is TsNumber {
            Ok("&[f64]"@)
        } else {
            Ok("js_sys::Array"@)
        },
        TypeDescView::TsFunction(_, _) => Ok("js_sys::Function"@),
        TypeDescView::TsClass(id) => Ok(id),
        TypeDescView::TsUnion(_) => Err(Error::RenderableInvariantViolation),
        TypeDescView::Unimplemented => Err(Error::UnresolvedType),
    }
}

/// The view of a borrowed-string render result.
pub open spec fn str_result_view(r: Result<&str, Error>) -> Result<Seq<char>, Error> {
    match r {
        Ok(s) => Ok(s@),
        Err(e) => Err(e),
    }
}

/// The view of an owned-string render result.
pub open spec fn string_result_view(r: Result<String, Error>) -> Result<Seq<char>, Error> {
    match r {
        Ok(s) => Ok(s@),
        Err(e) => Err(e),
    }
}

/// The view of an optional borrowed class name.
pub open spec fn opt_str_ref_view(o: Option<&str>) -> Option<Seq<char>> {
    match o {
        Some(s) => Some(s@),
        None => None,
    }
}

impl TypeDesc {
    /// The target-language spelling of this descriptor, outside any class
    /// context.
    pub fn rust_type<'a>(&'a self) -> (r: Result<&'a str, Error>)
        ensures
            str_result_view(r) == rust_type_of(self@),
    {
        match self {
            TypeDesc::TsAny => Ok("JsValue"),
            TypeDesc::TsBoolean => Ok("bool"),
            TypeDesc::TsNull => Err(Error::RenderableInvariantViolation),
            TypeDesc::TsNumber => Ok("f64"),
            TypeDesc::TsString => Ok("String"),
            TypeDesc::TsThis => Err(Error::MissingClassContext),
            TypeDesc::TsVoid => Err(Error::RenderableInvariantViolation),
            TypeDesc::TsUndefined => Err(Error::RenderableInvariantViolation),
            TypeDesc::TsArray(inner) => {
                if matches!(**inner, TypeDesc::TsNumber) {
                    proof {
                        assert((**inner)@ is TsNumber);
                    }
                    Ok("&[f64]")
                } else {
                    proof {
                        assert(!((**inner)@ is TsNumber));
                    }
                    Ok("js_sys::Array")
                }
            },
            TypeDesc::TsFunction(_, _) => Ok("js_sys::Function"),
            TypeDesc::TsClass(id) => Ok(id.as_str()),
            TypeDesc::TsUnion(_) => Err(Error::RenderableInvariantViolation),
            TypeDesc::Unimplemented => Err(Error::UnresolvedType),
        }
    }
}

/// The spelling of a type in a render context: `this` resolves to the
/// enclosing class's name when one is bound and is an error otherwise;
/// every other descriptor spells as outside any class.
pub open spec fn type_in_context(t: TypeDescView, class: Option<Seq<char>>) -> Result<
    Seq<char>,
    Error,
> {
    if t is TsThis {
        match class {
            Some(c) => Ok(c),
            None => Err(Error::MissingClassContext),
        }
    } else {
        rust_type_of(t)
    }
}

fn param_type_str<'a>(t: &'a TypeDesc, class_name: Option<&'a str>) -> (r: Result<&'a str, Error>)
    ensures
        str_result_view(r) == type_in_context(t@, opt_str_ref_view(class_name)),
{
    if matches!(t, TypeDesc::TsThis) {
        match class_name {
            Some(c) => Ok(c),
            None => Err(Error::MissingClassContext),
        }
    } else {
        t.rust_type()
    }
}

/// One rendered argument: its name and its spelled type, in one of the four
/// shapes of the (by-reference, optional) matrix.
pub open spec fn arg_str(name: Seq<char>, p: ParamDescView, class: Option<Seq<char>>) -> Result<
    Seq<char>,
    Error,
> {
    match type_in_context(p.type_desc, class) {
        Ok(ty) => Ok(
            if !p.reference && !p.optional {
                name + ": "@ + ty
            } else if !p.reference && p.optional {
                name + ": Option<"@ + ty + ">"@
            } else if p.reference && !p.optional {
                name + ": &"@ + ty
            } else {
                name + ": &Option<"@ + ty + ">"@
            },
        ),
        Err(e) => Err(e),
    }
}

fn format_arg(name: &String, p: &ParamDesc, class_name: Option<&str>) -> (r: Result<String, Error>)
    ensures
        string_result_view(r) == arg_str(name@, p@, opt_str_ref_view(class_name)),
{
    let ty = match param_type_str(&p.type_desc, class_name) {
        Ok(t) => t,
        Err(e) => {
            return Err(e);
        },
    };
    let mut out = String::new();
    out.append(name.as_str());
    if !p.reference && !p.optional {
        out.append(": ");
        out.append(ty);
        proof {
            assert(out@ =~= name@ + ": "@ + ty@);
        }
    } else if !p.reference && p.optional {
        out.append(": Option<");
        out.append(ty);
        out.append(">");
        proof {
            assert(out@ =~= name@ + ": Option<"@ + ty@ + ">"@);
        }
    } else if p.reference && !p.optional {
        out.append(": &");
        out.append(ty);
        proof {
            assert(out@ =~= name@ + ": &"@ + ty@);
        }
    } else {
        out.append(": &Option<");
        out.append(ty);
        out.append(">");
        proof {
            assert(out@ =~= name@ + ": &Option<"@ + ty@ + ">"@);
        }
    }
    Ok(out)
}

/// The rendered argument list: arguments in order, separated by a comma and
/// a space whenever the text so far is non-empty; the first argument error
/// otherwise.
pub open spec fn join_args(
    args: Seq<(Seq<char>, ParamDescView)>,
    class: Option<Seq<char>>,
) -> Result<Seq<char>, Error>
    decreases args.len(),
{
    if args.len() == 0 {
        Ok(Seq::empty())
    } else {
        match join_args(args.drop_last(), class) {
            Ok(prev) => match arg_str(args.last().0, args.last().1, class) {
                Ok(a) => Ok(
                    if prev.len() == 0 {
                        a
                    } else {
                        prev + ", "@ + a
                    },
                ),
                Err(e) => Err(e),
            },
            Err(e) => Err(e),
        }
    }
}

fn format_args(args: &Vec<(String, ParamDesc)>, class_name: Option<&str>) -> (r: Result<
    String,
    Error,
>)
    ensures
        string_result_view(r) == join_args(
            crate::wb::args_view(args@),
            opt_str_ref_view(class_name),
        ),
{
    let ghost av = crate::wb::args_view(args@);
    let mut out = String::new();
    let mut i: usize = 0;
    proof {
        assert(av.take(0) =~= Seq::<(Seq<char>, ParamDescView)>::empty());
    }
    while i < args.len()
        invariant
            i <= args@.len(),
            av == crate::wb::args_view(args@),
            av.len() == args@.len(),
            join_args(av.take(i as int), opt_str_ref_view(class_name)) == Ok::<_, Error>(out@),
        decreases args@.len() - i,
    {
        proof {
            assert(av.take(i as int + 1).drop_last() =~= av.take(i as int));
            assert(av.take(i as int + 1).last() == av[i as int]);
            assert(av[i as int] == (args@[i as int].0@, args@[i as int].1@));
        }
        match format_arg(&args[i].0, &args[i].1, class_name) {
            Ok(a) => {
                if out.as_str().is_empty() {
                    out = a;
                } else {
                    out.append(", ");
                    out.append(a.as_str());
                }
            },
            Err(e) => {
                proof {
                    lemma_join_args_error(av, opt_str_ref_view(class_name), i as int, e);
                    assert(av.take(av.len() as int) =~= av);
                }
                return Err(e);
            },
        }
        i = i + 1;
    }
    proof {
        assert(av.take(av.len() as int) =~= av);
    }
    Ok(out)
}

/// If the arguments up to `i` join cleanly and argument `i` fails, the whole
/// list fails with that error.
proof fn lemma_join_args_error(
    args: Seq<(Seq<char>, ParamDescView)>,
    class: Option<Seq<char>>,
    i: int,
    e: Error,
)
    requires
        0 <= i < args.len(),
        join_args(args.take(i), class) is Ok,
        arg_str(args[i].0, args[i].1, class) == Err::<Seq<char>, _>(e),
    ensures
        join_args(args.take(args.len() as int), class) == Err::<Seq<char>, _>(e),
    decreases args.len() - i,
{
    if i == args.len() - 1 {
        assert(args.take(args.len() as int).drop_last() =~= args.take(i));
        assert(args.take(args.len() as int).last() == args[i]);
    } else {
        assert(args.take(i + 1).drop_last() =~= args.take(i));
        assert(args.take(i + 1).last() == args[i]);
        assert(join_args(args.take(i + 1), class) == Err::<Seq<char>, _>(e));
        lemma_join_args_later_error(args, class, i + 1, e);
    }
}

/// An error joining a prefix persists through every longer prefix.
proof fn lemma_join_args_later_error(
    args: Seq<(Seq<char>, ParamDescView)>,
    class: Option<Seq<char>>,
    i: int,
    e: Error,
)
    requires
        0 <= i <= args.len(),
        join_args(args.take(i), class) == Err::<Seq<char>, _>(e),
    ensures
        join_args(args.take(args.len() as int), class) == Err::<Seq<char>, _>(e),
    decreases args.len() - i,
{
    if i < args.len() {
        assert(args.take(i + 1).drop_last() =~= args.take(i));
        lemma_join_args_later_error(args, class, i + 1, e);
    } else {
        assert(args.take(i) =~= args.take(args.len() as int));
    }
}

/// The rendered return value, in one of the four shapes of the
/// (by-reference, optional) matrix.
pub open spec fn ret_str(p: ParamDescView, class: Option<Seq<char>>) -> Result<Seq<char>, Error> {
    match type_in_context(p.type_desc, class) {
        Ok(ty) => Ok(
            if !p.reference && !p.optional {
                " -> "@ + ty
            } else if !p.reference && p.optional {
                " -> Option<"@ + ty + ">"@
            } else if p.reference && !p.optional {
                " -> &"@ + ty
            } else {
                " -> &Option<"@ + ty + ">"@
            },
        ),
        Err(e) => Err(e),
    }
}

fn format_ret(p: &ParamDesc, class_name: Option<&str>) -> (r: Result<String, Error>)
    ensures
        string_result_view(r) == ret_str(p@, opt_str_ref_view(class_name)),
{
    let ty = match param_type_str(&p.type_desc, class_name) {
        Ok(t) => t,
        Err(e) => {
            return Err(e);
        },
    };
    let mut out = String::new();
    if !p.reference && !p.optional {
        out.append(" -> ");
        out.append(ty);
        proof {
            assert(out@ =~= " -> "@ + ty@);
        }
    } else if !p.reference && p.optional {
        out.append(" -> Option<");
        out.append(ty);
        out.append(">");
        proof {
            assert(out@ =~= " -> Option<"@ + ty@ + ">"@);
        }
    } else if p.reference && !p.optional {
        out.append(" -> &");
        out.append(ty);
        proof {
            assert(out@ =~= " -> &"@ + ty@);
        }
    } else {
        out.append(" -> &Option<");
        out.append(ty);
        out.append(">");
        proof {
            assert(out@ =~= " -> &Option<"@ + ty@ + ">"@);
        }
    }
    Ok(out)
}

/// The rendered signature of one bound function: name, argument list, the
/// optional return value, and the closing semicolon.
pub open spec fn fn_sig_spec(f: FunctionDescView, class: Option<Seq<char>>) -> Result<
    Seq<char>,
    Error,
> {
    match join_args(f.arguments, class) {
        Ok(args) => {
            let head = "pub fn "@ + f.name + "("@ + args + ")"@;
            match f.ret {
                None => Ok(head + ";"@),
                Some(rt) => match ret_str(rt, class) {
                    Ok(r) => Ok(head + r + ";"@),
                    Err(e) => Err(e),
                },
            }
        },
        Err(e) => Err(e),
    }
}

/// Renders the signature line of one bound function.
pub fn format_function(f: &FunctionDesc, class_name: Option<&str>) -> (r: Result<String, Error>)
    ensures
        string_result_view(r) == fn_sig_spec(f@, opt_str_ref_view(class_name)),
{
    let args = match format_args(&f.arguments, class_name) {
        Ok(a) => a,
        Err(e) => {
            return Err(e);
        },
    };
    let mut out = String::new();
    out.append("pub fn ");
    out.append(f.name.as_str());
    out.append("(");
    out.append(args.as_str());
    out.append(")");
    proof {
        assert(out@ =~= "pub fn "@ + f.name@ + "("@ + args@ + ")"@);
    }
    match &f.ret {
        None => {},
        Some(rt) => {
            match format_ret(rt, class_name) {
                Ok(r) => {
                    out.append(r.as_str());
                },
                Err(e) => {
                    return Err(e);
                },
            }
        },
    }
    out.append(";");
    proof {
        if f.ret is Some {
            let head = "pub fn "@ + f.name@ + "("@ + args@ + ")"@;
            let rv = ret_str(f.ret->Some_0@, opt_str_ref_view(class_name));
            assert(out@ =~= head + rv->Ok_0 + ";"@);
        }
    }
    Ok(out)
}

} // verus!

verus! {

/// The indentation prefix of a line: four spaces per level.
pub open spec fn indent_of(n: nat) -> Seq<char>
    decreases n,
{
    if n == 0 {
        Seq::empty()
    } else {
        "    "@ + indent_of((n - 1) as nat)
    }
}

/// One more indentation level appends one more four-space group.
pub proof fn lemma_indent_of_push(n: nat)
    ensures
        indent_of(n + 1) == indent_of(n) + "    "@,
    decreases n,
{
    if n == 0 {
        assert(indent_of(1) =~= indent_of(0) + "    "@);
    } else {
        lemma_indent_of_push((n - 1) as nat);
        assert("    "@ + (indent_of((n - 1) as nat) + "    "@) =~= ("    "@ + indent_of(
            (n - 1) as nat,
        )) + "    "@);
    }
}

/// One written line: the indentation prefix, the text, and a newline.
pub open spec fn line_spec(n: nat, line: Seq<char>) -> Seq<char> {
    indent_of(n) + line + "\n"@
}

/// One rendered attribute: its key, and ` = value` when it carries one.
pub open spec fn attr_str(a: (Seq<char>, Option<Seq<char>>)) -> Seq<char> {
    match a.1 {
        Some(v) => a.0 + " = "@ + v,
        None => a.0,
    }
}

/// The rendered attribute bag: attributes in order, separated by a comma
/// and a space whenever the text so far is non-empty.
pub open spec fn join_attrs(attrs: Seq<(Seq<char>, Option<Seq<char>>)>) -> Seq<char>
    decreases attrs.len(),
{
    if attrs.len() == 0 {
        Seq::empty()
    } else {
        let prev = join_attrs(attrs.drop_last());
        if prev.len() == 0 {
            attr_str(attrs.last())
        } else {
            prev + ", "@ + attr_str(attrs.last())
        }
    }
}

/// The rendered export annotation line: the bare exported marker for an
/// empty bag, the annotation list otherwise.
pub open spec fn export_spec(attrs: Seq<(Seq<char>, Option<Seq<char>>)>, n: nat) -> Seq<char> {
    if attrs.len() == 0 {
        line_spec(n, "#[wasm_bindgen]"@)
    } else {
        line_spec(n, "#[wasm_bindgen("@ + join_attrs(attrs) + ")]"@)
    }
}

/// The rendered form of one bound function: its export annotation line and
/// its signature line.
pub open spec fn render_function_spec(
    f: FunctionDescView,
    class: Option<Seq<char>>,
    n: nat,
) -> Result<Seq<char>, Error> {
    match fn_sig_spec(f, class) {
        Ok(sig) => Ok(export_spec(f.attributes, n) + line_spec(n, sig)),
        Err(e) => Err(e),
    }
}

/// The rendered method lines of a class, in order; the first render error
/// otherwise.
pub open spec fn render_methods_spec(
    methods: Seq<FunctionDescView>,
    class: Seq<char>,
    n: nat,
) -> Result<Seq<char>, Error>
    decreases methods.len(),
{
    if methods.len() == 0 {
        Ok(Seq::empty())
    } else {
        match render_function_spec(methods[0], Some(class), n) {
            Ok(t) => match render_methods_spec(methods.drop_first(), class, n) {
                Ok(rest) => Ok(t + rest),
                Err(e) => Err(e),
            },
            Err(e) => Err(e),
        }
    }
}

/// The rendered form of one bound class: its export annotation, one opaque
/// external type declaration, and one line per method, with the class's own
/// name bound as the render context.
pub open spec fn render_class_spec(c: ClassDescView, n: nat) -> Result<Seq<char>, Error> {
    match render_methods_spec(c.methods, c.name, n) {
        Ok(ms) => Ok(
            export_spec(c.attributes, n) + line_spec(n, "pub type "@ + c.name + ";"@) + ms,
        ),
        Err(e) => Err(e),
    }
}

/// The rendered form of one bound module: its export annotation and the
/// foreign block holding its class, indented one level.
pub open spec fn render_module_spec(m: ModuleDescView, n: nat) -> Result<Seq<char>, Error> {
    match render_class_spec(m.class, 1) {
        Ok(cls) => Ok(
            export_spec(m.attributes, n) + line_spec(n, "extern \"C\" {"@) + cls + line_spec(
                0,
                "}"@,
            ),
        ),
        Err(e) => Err(e),
    }
}

/// Accumulates rendered binding declarations, line by line, at a settable
/// indentation level.
pub struct Writer {
    /// The current indentation level, in four-space steps.
    pub indentation: usize,
    /// The text accumulated so far.
    pub output: String,
}

impl View for Writer {
    type V = Seq<char>;

    open spec fn view(&self) -> Seq<char> {
        self.output@
    }
}

impl Writer {
    /// A writer with no output yet, at indentation level zero.
    pub fn new() -> (r: Writer)
        ensures
            r@ == Seq::<char>::empty(),
            r.indentation == 0,
    {
        Writer { indentation: 0, output: String::new() }
    }

    /// The text written so far.
    pub fn output_str(&self) -> (r: &str)
        ensures
            r@ == self@,
    {
        self.output.as_str()
    }

    /// Hands the accumulated text out.
    pub fn into_output(self) -> (r: String)
        ensures
            r@ == self@,
    {
        self.output
    }

    pub fn set_indentation(&mut self, indentation: usize)
        ensures
            final(self).indentation == indentation,
            final(self)@ == old(self)@,
    {
        self.indentation = indentation;
    }

    /// Writes one line at the current indentation.
    pub fn write_line(&mut self, line: &str)
        ensures
            final(self)@ == old(self)@ + line_spec(old(self).indentation as nat, line@),
            final(self).indentation == old(self).indentation,
    {
        let n = self.indentation;
        let ghost base = self.output@;
        let mut k: usize = 0;
        while k < n
            invariant
                k <= n,
                self.indentation == n,
                self.output@ == base + indent_of(k as nat),
            decreases n - k,
        {
            proof {
                lemma_indent_of_push(k as nat);
                assert((base + indent_of(k as nat)) + "    "@ =~= base + (indent_of(k as nat)
                    + "    "@));
            }
            self.output.append("    ");
            k = k + 1;
        }
        self.output.append(line);
        self.output.append("\n");
        proof {
            assert(base + indent_of(n as nat) + line@ + "\n"@ =~= base + (indent_of(n as nat)
                + line@ + "\n"@));
        }
    }

    /// Writes the export annotation line for an attribute bag.
    pub fn write_export(&mut self, attributes: &Vec<(String, Option<String>)>)
        ensures
            final(self)@ == old(self)@ + export_spec(
                attrs_view(attributes@),
                old(self).indentation as nat,
            ),
            final(self).indentation == old(self).indentation,
    {
        if attributes.len() == 0 {
            proof {
                assert(attrs_view(attributes@).len() == 0);
            }
            self.write_line("#[wasm_bindgen]");
        } else {
            let joined = format_attrs(attributes);
            let mut line = String::new();
            line.append("#[wasm_bindgen(");
            line.append(joined.as_str());
            line.append(")]");
            proof {
                assert(line@ =~= "#[wasm_bindgen("@ + join_attrs(attrs_view(attributes@))
                    + ")]"@);
            }
            self.write_line(line.as_str());
        }
    }
}

/// Renders an attribute bag as its comma-separated annotation list.
fn format_attrs(attributes: &Vec<(String, Option<String>)>) -> (r: String)
    ensures
        r@ == join_attrs(attrs_view(attributes@)),
{
    let ghost av = attrs_view(attributes@);
    let mut out = String::new();
    let mut i: usize = 0;
    proof {
        assert(av.take(0) =~= Seq::<(Seq<char>, Option<Seq<char>>)>::empty());
    }
    while i < attributes.len()
        invariant
            i <= attributes@.len(),
            av == attrs_view(attributes@),
            av.len() == attributes@.len(),
            out@ == join_attrs(av.take(i as int)),
        decreases attributes@.len() - i,
    {
        proof {
            assert(av.take(i as int + 1).drop_last() =~= av.take(i as int));
            assert(av.take(i as int + 1).last() == av[i as int]);
        }
        let ghost prev = out@;
        if !out.as_str().is_empty() {
            out.append(", ");
        }
        out.append(attributes[i].0.as_str());
        match &attributes[i].1 {
            Some(v) => {
                out.append(" = ");
                out.append(v.as_str());
                proof {
                    if prev.len() == 0 {
                        assert(out@ =~= attr_str(av[i as int]));
                    } else {
                        assert(out@ =~= prev + ", "@ + attr_str(av[i as int]));
                    }
                }
            },
            None => {
                proof {
                    if prev.len() == 0 {
                        assert(out@ =~= attr_str(av[i as int]));
                    } else {
                        assert(out@ =~= prev + ", "@ + attr_str(av[i as int]));
                    }
                }
            },
        }
        i = i + 1;
    }
    proof {
        assert(av.take(av.len() as int) =~= av);
    }
    out
}

} // verus!

verus! {

use crate::wb::methods_view;

impl Writer {
    /// Writes one bound function: its export annotation and its signature,
    /// resolving `this` to the given class name. On an error nothing is
    /// written.
    pub fn write_function(&mut self, function: &FunctionDesc, class_name: Option<&str>) -> (r:
        Result<(), Error>)
        ensures
            final(self).indentation == old(self).indentation,
            match r {
                Ok(_) => render_function_spec(
                    function@,
                    opt_str_ref_view(class_name),
                    old(self).indentation as nat,
                ) is Ok && final(self)@ == old(self)@ + render_function_spec(
                    function@,
                    opt_str_ref_view(class_name),
                    old(self).indentation as nat,
                )->Ok_0,
                Err(e) => render_function_spec(
                    function@,
                    opt_str_ref_view(class_name),
                    old(self).indentation as nat,
                ) == Err::<Seq<char>, Error>(e) && final(self)@ == old(self)@,
            },
    {
        let sig = match format_function(function, class_name) {
            Ok(s) => s,
            Err(e) => {
                return Err(e);
            },
        };
        let ghost base = self.output@;
        self.write_export(&function.attributes);
        self.write_line(sig.as_str());
        proof {
            let n = old(self).indentation as nat;
            let whole = export_spec(attrs_view(function.attributes@), n) + line_spec(n, sig@);
            assert(self.output@ =~= base + whole);
            assert(self.output@.skip(base.len() as int) =~= whole);
        }
        Ok(())
    }

    /// Writes one bound class: its export annotation, its opaque external
    /// type declaration, and one line per method, with the class's own name
    /// as the render context. On an error, what was already written stays.
    pub fn write_class(&mut self, class: ClassDesc) -> (r: Result<(), Error>)
        ensures
            final(self).indentation == old(self).indentation,
            match r {
                Ok(_) => render_class_spec(class@, old(self).indentation as nat) is Ok && final(self)@
                    == old(self)@ + render_class_spec(class@, old(self).indentation as nat)->Ok_0,
                Err(e) => render_class_spec(class@, old(self).indentation as nat) == Err::<
                    Seq<char>,
                    Error,
                >(e) && old(self)@.is_prefix_of(final(self)@),
            },
    {
        let ghost n = old(self).indentation as nat;
        let ghost base = self.output@;
        self.write_export(&class.attributes);
        let mut decl = String::new();
        decl.append("pub type ");
        decl.append(class.name.as_str());
        decl.append(";");
        proof {
            assert(decl@ =~= "pub type "@ + class.name@ + ";"@);
        }
        self.write_line(decl.as_str());
        let ghost head = export_spec(attrs_view(class.attributes@), n) + line_spec(n, decl@);
        proof {
            assert(self.output@ =~= base + head);
        }
        let ghost mv = methods_view(class.methods@);
        let ghost mut done = Seq::<char>::empty();
        let mut i: usize = 0;
        proof {
            assert(mv.skip(0) =~= mv);
            assert((base + head) + done =~= base + head);
            if render_methods_spec(mv, class.name@, n) is Ok {
                assert(done + render_methods_spec(mv, class.name@, n)->Ok_0
                    =~= render_methods_spec(mv, class.name@, n)->Ok_0);
            }
        }
        while i < class.methods.len()
            invariant
                i <= class.methods@.len(),
                mv == methods_view(class.methods@),
                mv.len() == class.methods@.len(),
                self.indentation == old(self).indentation,
                n == old(self).indentation as nat,
                base == old(self)@,
                self.output@ == (base + head) + done,
                render_methods_ctx(
                    render_methods_spec(mv, class.name@, n),
                    done,
                    render_methods_spec(mv.skip(i as int), class.name@, n),
                ),
            decreases class.methods@.len() - i,
        {
            proof {
                assert(mv.skip(i as int)[0] == mv[i as int]);
                assert(mv.skip(i as int).drop_first() =~= mv.skip(i as int + 1));
                assert(mv[i as int] == class.methods@[i as int]@);
            }
            match self.write_function(&class.methods[i], Some(class.name.as_str())) {
                Ok(_) => {
                    proof {
                        let t = render_function_spec(mv[i as int], Some(class.name@), n)->Ok_0;
                        assert(((base + head) + done) + t =~= (base + head) + (done + t));
                        let rest = render_methods_spec(mv.skip(i as int + 1), class.name@, n);
                        if rest is Ok {
                            assert(done + (t + rest->Ok_0) =~= (done + t) + rest->Ok_0);
                        }
                        done = done + t;
                    }
                },
                Err(e) => {
                    proof {
                        assert(base.is_prefix_of((base + head) + done));
                    }
                    return Err(e);
                },
            }
            i = i + 1;
        }
        proof {
            assert(mv.skip(mv.len() as int) =~= Seq::<FunctionDescView>::empty());
            assert(done + Seq::<char>::empty() =~= done);
            assert((base + head) + done =~= base + (head + done));
        }
        Ok(())
    }

    /// Writes one bound module: its export annotation and the foreign block
    /// holding its class. Restores indentation level zero. On an error, what
    /// was already written stays.
    pub fn write_module(&mut self, module: ModuleDesc) -> (r: Result<(), Error>)
        ensures
            match r {
                Ok(_) => render_module_spec(module@, old(self).indentation as nat) is Ok
                    && final(self)@ == old(self)@ + render_module_spec(
                    module@,
                    old(self).indentation as nat,
                )->Ok_0 && final(self).indentation == 0,
                Err(e) => render_module_spec(module@, old(self).indentation as nat) == Err::<
                    Seq<char>,
                    Error,
                >(e) && old(self)@.is_prefix_of(final(self)@),
            },
    {
        let ghost n = old(self).indentation as nat;
        let ghost base = self.output@;
        let ModuleDesc { attributes, class } = module;
        self.write_export(&attributes);
        self.write_line("extern \"C\" {");
        self.set_indentation(1);
        let ghost head = export_spec(attrs_view(attributes@), n) + line_spec(
            n,
            "extern \"C\" {"@,
        );
        proof {
            assert(self.output@ =~= base + head);
        }
        match self.write_class(class) {
            Ok(_) => {},
            Err(e) => {
                proof {
                    assert(base.is_prefix_of(base + head));
                }
                return Err(e);
            },
        }
        let ghost cls = render_class_spec(class@, 1);
        proof {
            assert(self.output@ == (base + head) + cls->Ok_0);
        }
        self.set_indentation(0);
        self.write_line("}");
        proof {
            assert(self.output@ =~= base + (head + cls->Ok_0 + line_spec(0, "}"@)));
        }
        Ok(())
    }
}

/// Relates a whole method render to the render of a remaining suffix, given
/// the text already rendered for the processed prefix.
pub open spec fn render_methods_ctx(
    whole: Result<Seq<char>, Error>,
    done: Seq<char>,
    rest: Result<Seq<char>, Error>,
) -> bool {
    match rest {
        Ok(t) => whole == Ok::<_, Error>(done + t),
        Err(e) => whole == Err::<Seq<char>, _>(e),
    }
}

} // verus!
