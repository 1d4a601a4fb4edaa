//! The per-module pipeline: override lookup, import grouping, class
//! assembly, override application, and rendering, composed into one run
//! over a parsed module.

use vstd::prelude::*;

use crate::ast::{Module, ModuleItem};
use crate::emit::{line_spec, render_module_spec, Writer};
use crate::error::Error;
use crate::imports::{collect_imports, process_imports, write_imports_spec};
use crate::overrides::{
    apply_class_override, find_class, find_module, lookup_class, lookup_module, ClassOverrideView,
    ModuleOverrideView, OverridePolicy, replaced_methods,
};
use crate::translate::{class_spec, failures_view, is_deprecated, process_class};
use crate::wb::{ClassDescView, ModuleDesc, ModuleDescView};

verus! {

/// The class entry applying to one exported class, under an optional module
/// entry.
pub open spec fn class_override_of(
    mo: Option<ModuleOverrideView>,
    name: Seq<char>,
) -> Option<ClassOverrideView> {
    match mo {
        Some(m) => lookup_class(m.classes, name),
        None => None,
    }
}

/// A class with its method-level replacements applied, under an optional
/// class entry.
pub open spec fn overridden_class(
    cd: ClassDescView,
    co: Option<ClassOverrideView>,
) -> ClassDescView {
    match co {
        Some(c) => ClassDescView {
            name: cd.name,
            attributes: cd.attributes,
            methods: replaced_methods(cd.methods, c),
        },
        None => cd,
    }
}

/// The module attribute bag: the bound external source reference.
pub open spec fn module_attrs_of(js_path: Seq<char>) -> Seq<(Seq<char>, Option<Seq<char>>)> {
    seq![("module"@, Some(js_path))]
}

/// The member failures of one class, each entry qualified by the class
/// name, so that a failure can be located among several exported classes.
pub open spec fn class_failures(
    class: Seq<char>,
    fails: Seq<(Seq<char>, Error)>,
) -> Seq<(Seq<char>, Error)> {
    Seq::new(fails.len(), |i: int| (class + "."@ + fails[i].0, fails[i].1))
}

/// What walking a module's exported classes emits: per export in order,
/// unless its leading comment marks it deprecated or its class entry says
/// `Skip`, the class is assembled, its method replacements applied, and the
/// result rendered as one bound module; assembly failures of members
/// accumulate across classes, each under its class-qualified member name; a
/// hard assembly error or a render error aborts the module.
pub open spec fn classes_spec(
    items: Seq<ModuleItem>,
    mo: Option<ModuleOverrideView>,
    js_path: Seq<char>,
) -> Result<(Seq<char>, Seq<(Seq<char>, Error)>), Error>
    decreases items.len(),
{
    if items.len() == 0 {
        Ok((Seq::empty(), Seq::empty()))
    } else {
        let rest = classes_spec(items.drop_first(), mo, js_path);
        match items[0] {
            ModuleItem::ExportClass { class, leading_comment } => {
                if is_deprecated(leading_comment) {
                    rest
                } else {
                    let co = class_override_of(mo, class.ident@);
                    if co is Some && co->Some_0.mode is Skip {
                        rest
                    } else {
                        match class_spec(class) {
                            Err(e) => Err(e),
                            Ok(p) => {
                                let md = ModuleDescView {
                                    attributes: module_attrs_of(js_path),
                                    class: overridden_class(p.0, co),
                                };
                                match render_module_spec(md, 0) {
                                    Err(e) => Err(e),
                                    Ok(text) => match rest {
                                        Ok(q) => Ok(
                                            (text + q.0, class_failures(class.ident@, p.1) + q.1),
                                        ),
                                        Err(e) => Err(e),
                                    },
                                }
                            },
                        }
                    }
                }
            },
            _ => rest,
        }
    }
}

/// The fixed line bringing the binding prelude into scope.
pub open spec fn prelude_line() -> Seq<char> {
    line_spec(0, "\nuse wasm_bindgen::prelude::*;\n"@)
}

/// What one whole module run yields: no output at all when the policy marks
/// the module `Skip`; otherwise the grouped import statements, the prelude
/// line, and the rendered classes, together with the accumulated member
/// failures.
pub open spec fn module_bindings_spec(
    module_name: Seq<char>,
    body: Seq<ModuleItem>,
    policy: crate::overrides::OverridePolicyView,
    js_path: Seq<char>,
) -> Result<Option<(Seq<char>, Seq<(Seq<char>, Error)>)>, Error> {
    let mo = lookup_module(policy.modules, module_name);
    if mo is Some && mo->Some_0.mode is Skip {
        Ok(None)
    } else {
        let head = write_imports_spec(collect_imports(body), 0) + prelude_line();
        match classes_spec(body, mo, js_path) {
            Ok(p) => Ok(Some((head + p.0, p.1))),
            Err(e) => Err(e),
        }
    }
}

/// Relates a whole class walk to the walk of a remaining suffix, given the
/// text and failures already accumulated for the processed prefix.
pub open spec fn classes_ctx(
    whole: Result<(Seq<char>, Seq<(Seq<char>, Error)>), Error>,
    done_text: Seq<char>,
    done_fails: Seq<(Seq<char>, Error)>,
    rest: Result<(Seq<char>, Seq<(Seq<char>, Error)>), Error>,
) -> bool {
    match rest {
        Ok(p) => whole == Ok::<_, Error>((done_text + p.0, done_fails + p.1)),
        Err(e) => whole == Err::<(Seq<char>, Seq<(Seq<char>, Error)>), _>(e),
    }
}

/// Runs the whole pipeline over one parsed module: returns nothing for a
/// module the policy skips, the rendered text and the class-qualified
/// member failures otherwise, or the hard error that aborted the module.
#[verifier::rlimit(80)]
pub fn generate_module_bindings(
    module_name: &str,
    module: &Module,
    policy: &OverridePolicy,
    js_path: &str,
) -> (r: Result<Option<(String, Vec<(String, Error)>)>, Error>)
    ensures
        match r {
            Ok(Some(p)) => module_bindings_spec(module_name@, module.body@, policy@, js_path@)
                == Ok::<_, Error>(Some((p.0@, failures_view(p.1@)))),
            Ok(None) => module_bindings_spec(module_name@, module.body@, policy@, js_path@)
                == Ok::<Option<(Seq<char>, Seq<(Seq<char>, Error)>)>, Error>(None),
            Err(e) => module_bindings_spec(module_name@, module.body@, policy@, js_path@)
                == Err::<Option<(Seq<char>, Seq<(Seq<char>, Error)>)>, _>(e),
        },
        (lookup_module(policy@.modules, module_name@) matches Some(m) && m.mode is Skip) ==> (r
            matches Ok(o) && o is None),
{
    let mo = find_module(policy, module_name);
    let ghost mo_view = match mo {
        Some(m) => Some(m@),
        None => None,
    };
    let module_skip = match mo {
        Some(m) => matches!(m.mode, crate::overrides::OverrideMode::Skip),
        None => false,
    };
    if module_skip {
        return Ok(None);
    }
    proof {
        assert(!(mo_view is Some && mo_view->Some_0.mode is Skip));
    }
    let mut writer = Writer::new();
    let imports = process_imports(module);
    writer.write_imports(&imports);
    writer.write_line("\nuse wasm_bindgen::prelude::*;\n");
    let ghost head = write_imports_spec(collect_imports(module.body@), 0) + prelude_line();
    proof {
        assert(writer@ =~= head);
    }
    let mut fails: Vec<(String, Error)> = Vec::new();
    let ghost mut done_text = Seq::<char>::empty();
    let mut i: usize = 0;
    proof {
        assert(module.body@.skip(0) =~= module.body@);
        if classes_spec(module.body@, mo_view, js_path@) is Ok {
            let p = classes_spec(module.body@, mo_view, js_path@)->Ok_0;
            assert(Seq::<char>::empty() + p.0 =~= p.0);
            assert(Seq::<(Seq<char>, Error)>::empty() + p.1 =~= p.1);
        }
        assert(failures_view(fails@) =~= Seq::<(Seq<char>, Error)>::empty());
    }
    while i < module.body.len()
        invariant
            i <= module.body@.len(),
            mo_view == lookup_module(policy@.modules, module_name@),
            !(mo_view is Some && mo_view->Some_0.mode is Skip),
            writer.indentation == 0,
            writer@ == head + done_text,
            classes_ctx(
                classes_spec(module.body@, mo_view, js_path@),
                done_text,
                failures_view(fails@),
                classes_spec(module.body@.skip(i as int), mo_view, js_path@),
            ),
            match mo {
                Some(m) => mo_view == Some(m@),
                None => mo_view is None,
            },
        decreases module.body@.len() - i,
    {
        proof {
            assert(module.body@.skip(i as int)[0] == module.body@[i as int]);
            assert(module.body@.skip(i as int).drop_first() =~= module.body@.skip(i as int + 1));
        }
        match &module.body[i] {
            ModuleItem::ExportClass { class, leading_comment } => {
                let deprecated = match leading_comment {
                    Some(s) => crate::strutil::str_contains(s.as_str(), "@deprecated"),
                    None => false,
                };
                if !deprecated {
                    let co = match mo {
                        Some(m) => find_class(m, class.ident.as_str()),
                        None => None,
                    };
                    let ghost co_view = crate::overrides::opt_class_override_view(co);
                    proof {
                        assert(co_view == class_override_of(mo_view, class.ident@));
                    }
                    let skipped = match co {
                        Some(c) => matches!(c.mode, crate::overrides::OverrideMode::Skip),
                        None => false,
                    };
                    if !skipped {
                        match process_class(class) {
                            Err(e) => {
                                proof {
                                    let rest = classes_spec(
                                        module.body@.skip(i as int),
                                        mo_view,
                                        js_path@,
                                    );
                                    assert(class_spec(*class) == Err::<
                                        (ClassDescView, Seq<(Seq<char>, Error)>),
                                        Error,
                                    >(e));
                                    assert(rest == Err::<
                                        (Seq<char>, Seq<(Seq<char>, Error)>),
                                        Error,
                                    >(e));
                                }
                                return Err(e);
                            },
                            Ok((cd, cfails)) => {
                                let ghost cdv = cd@;
                                let ghost cfv = failures_view(cfails@);
                                match apply_class_override(cd, co) {
                                    Some(cd2) => {
                                        proof {
                                            assert(cd2@ == overridden_class(cdv, co_view));
                                        }
                                        let mut mod_attributes: Vec<
                                            (String, Option<String>),
                                        > = Vec::new();
                                        mod_attributes.push(
                                            (
                                                String::from_str("module"),
                                                Some(String::from_str(js_path)),
                                            ),
                                        );
                                        proof {
                                            assert(crate::wb::attrs_view(mod_attributes@)
                                                =~= module_attrs_of(js_path@));
                                        }
                                        let md = ModuleDesc::new(mod_attributes, cd2);
                                        let ghost mdv = md@;
                                        match writer.write_module(md) {
                                            Err(e) => {
                                                return Err(e);
                                            },
                                            Ok(_) => {
                                                proof {
                                                    let t = render_module_spec(mdv, 0)->Ok_0;
                                                    assert((head + done_text) + t =~= head + (
                                                    done_text + t));
                                                    let rest = classes_spec(
                                                        module.body@.skip(i as int + 1),
                                                        mo_view,
                                                        js_path@,
                                                    );
                                                    if rest is Ok {
                                                        let q = rest->Ok_0;
                                                        assert(done_text + (t + q.0) =~= (done_text
                                                            + t) + q.0);
                                                    }
                                                    done_text = done_text + t;
                                                }
                                            },
                                        }
                                        let ghost old_fails = failures_view(fails@);
                                        let ghost qf = class_failures(class.ident@, cfv);
                                        let mut k: usize = 0;
                                        proof {
                                            assert(old_fails + qf.take(0) =~= old_fails);
                                        }
                                        while k < cfails.len()
                                            invariant
                                                k <= cfails@.len(),
                                                cfv == failures_view(cfails@),
                                                qf == class_failures(class.ident@, cfv),
                                                qf.len() == cfails@.len(),
                                                failures_view(fails@) == old_fails + qf.take(
                                                    k as int,
                                                ),
                                            decreases cfails@.len() - k,
                                        {
                                            let mut name = String::new();
                                            name.append(class.ident.as_str());
                                            name.append(".");
                                            name.append(cfails[k].0.as_str());
                                            let e = cfails[k].1;
                                            proof {
                                                assert(name@ =~= class.ident@ + "."@
                                                    + cfv[k as int].0);
                                                assert(failures_view(fails@.push((name, e)))
                                                    =~= failures_view(fails@) + seq![
                                                    qf[k as int],
                                                ]);
                                                assert(qf.take(k as int + 1) =~= qf.take(
                                                    k as int,
                                                ).push(qf[k as int]));
                                                assert((old_fails + qf.take(k as int)) + seq![
                                                    qf[k as int],
                                                ] =~= old_fails + qf.take(k as int + 1));
                                            }
                                            fails.push((name, e));
                                            k = k + 1;
                                        }
                                        proof {
                                            assert(qf.take(qf.len() as int) =~= qf);
                                            assert(failures_view(fails@) == old_fails + qf);
                                            let rest = classes_spec(
                                                module.body@.skip(i as int + 1),
                                                mo_view,
                                                js_path@,
                                            );
                                            if rest is Ok {
                                                let q = rest->Ok_0;
                                                assert(old_fails + (qf + q.1) =~= (old_fails
                                                    + qf) + q.1);
                                            }
                                        }
                                    },
                                    None => {
                                        proof {
                                            assert(false);
                                        }
                                    },
                                }
                            },
                        }
                    }
                }
            },
            _ => {},
        }
        i = i + 1;
    }
    proof {
        assert(module.body@.skip(module.body@.len() as int) =~= Seq::<ModuleItem>::empty());
        if classes_spec(module.body@, mo_view, js_path@) is Ok {
            assert(done_text + Seq::<char>::empty() =~= done_text);
            assert(failures_view(fails@) + Seq::<(Seq<char>, Error)>::empty() =~= failures_view(
                fails@,
            ));
        }
    }
    Ok(Some((writer.into_output(), fails)))
}

} // verus!
