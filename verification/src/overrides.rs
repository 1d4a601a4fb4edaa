//! The hierarchical override policy: externally supplied rules that suppress
//! or replace generated declarations at module, class or method granularity,
//! evaluated strictly top-down.

use vstd::prelude::*;

use crate::wb::{methods_view, ClassDesc, ClassDescView, FunctionDesc, FunctionDescView};

verus! {

/// What an override entry does to its subject: suppress it entirely, or
/// refine it with the finer-grained entries beneath.
#[derive(Debug, PartialEq, Eq, Clone, Copy)]
pub enum OverrideMode {
    Skip,
    Override,
}

/// The override entry for one class: a mode, and replacement descriptor
/// lists keyed by generated method name.
#[derive(Debug, PartialEq, Eq)]
pub struct ClassOverride {
    pub mode: OverrideMode,
    pub methods: Vec<(String, Vec<FunctionDesc>)>,
}

/// The mathematical value of a [`ClassOverride`].
pub struct ClassOverrideView {
    pub mode: OverrideMode,
    pub methods: Seq<(Seq<char>, Seq<FunctionDescView>)>,
}

impl View for ClassOverride {
    type V = ClassOverrideView;

    open spec fn view(&self) -> ClassOverrideView {
        ClassOverrideView {
            mode: self.mode,
            methods: Seq::new(
                self.methods@.len(),
                |i: int| (self.methods@[i].0@, methods_view(self.methods@[i].1@)),
            ),
        }
    }
}

/// The override entry for one module: a mode, and class entries keyed by
/// class name.
#[derive(Debug, PartialEq, Eq)]
pub struct ModuleOverride {
    pub mode: OverrideMode,
    pub classes: Vec<(String, ClassOverride)>,
}

/// The mathematical value of a [`ModuleOverride`].
pub struct ModuleOverrideView {
    pub mode: OverrideMode,
    pub classes: Seq<(Seq<char>, ClassOverrideView)>,
}

impl View for ModuleOverride {
    type V = ModuleOverrideView;

    open spec fn view(&self) -> ModuleOverrideView {
        ModuleOverrideView {
            mode: self.mode,
            classes: Seq::new(
                self.classes@.len(),
                |i: int| (self.classes@[i].0@, self.classes@[i].1@),
            ),
        }
    }
}

/// The override policy of a whole run: module entries keyed by module name,
/// loaded once and read-only thereafter.
#[derive(Debug, PartialEq, Eq)]
pub struct OverridePolicy {
    pub modules: Vec<(String, ModuleOverride)>,
}

/// The mathematical value of an [`OverridePolicy`].
pub struct OverridePolicyView {
    pub modules: Seq<(Seq<char>, ModuleOverrideView)>,
}

impl View for OverridePolicy {
    type V = OverridePolicyView;

    open spec fn view(&self) -> OverridePolicyView {
        OverridePolicyView {
            modules: Seq::new(
                self.modules@.len(),
                |i: int| (self.modules@[i].0@, self.modules@[i].1@),
            ),
        }
    }
}

/// The first entry under the given key, if any.
pub open spec fn lookup_module(
    entries: Seq<(Seq<char>, ModuleOverrideView)>,
    name: Seq<char>,
) -> Option<ModuleOverrideView>
    decreases entries.len(),
{
    if entries.len() == 0 {
        None
    } else if entries[0].0 == name {
        Some(entries[0].1)
    } else {
        lookup_module(entries.drop_first(), name)
    }
}

/// The first entry under the given key, if any.
pub open spec fn lookup_class(
    entries: Seq<(Seq<char>, ClassOverrideView)>,
    name: Seq<char>,
) -> Option<ClassOverrideView>
    decreases entries.len(),
{
    if entries.len() == 0 {
        None
    } else if entries[0].0 == name {
        Some(entries[0].1)
    } else {
        lookup_class(entries.drop_first(), name)
    }
}

/// The first replacement list under the given method name, if any.
pub open spec fn lookup_methods(
    entries: Seq<(Seq<char>, Seq<FunctionDescView>)>,
    name: Seq<char>,
) -> Option<Seq<FunctionDescView>>
    decreases entries.len(),
{
    if entries.len() == 0 {
        None
    } else if entries[0].0 == name {
        Some(entries[0].1)
    } else {
        lookup_methods(entries.drop_first(), name)
    }
}

} // verus!

verus! {

use crate::strutil::str_eq;

/// Finds the override entry for a module name.
pub fn find_module<'a>(policy: &'a OverridePolicy, name: &str) -> (r: Option<&'a ModuleOverride>)
    ensures
        match r {
            Some(m) => lookup_module(policy@.modules, name@) == Some(m@),
            None => lookup_module(policy@.modules, name@) is None,
        },
{
    let mut i: usize = 0;
    proof {
        assert(policy@.modules.skip(0) =~= policy@.modules);
    }
    while i < policy.modules.len()
        invariant
            i <= policy.modules@.len(),
            policy@.modules.len() == policy.modules@.len(),
            lookup_module(policy@.modules, name@) == lookup_module(
                policy@.modules.skip(i as int),
                name@,
            ),
        decreases policy.modules@.len() - i,
    {
        proof {
            assert(policy@.modules.skip(i as int)[0] == policy@.modules[i as int]);
            assert(policy@.modules.skip(i as int).drop_first() =~= policy@.modules.skip(
                i as int + 1,
            ));
        }
        if str_eq(policy.modules[i].0.as_str(), name) {
            return Some(&policy.modules[i].1);
        }
        i = i + 1;
    }
    proof {
        assert(policy@.modules.skip(policy.modules@.len() as int) =~= Seq::<
            (Seq<char>, ModuleOverrideView),
        >::empty());
    }
    None
}

/// Finds the override entry for a class name.
pub fn find_class<'a>(mo: &'a ModuleOverride, name: &str) -> (r: Option<&'a ClassOverride>)
    ensures
        match r {
            Some(c) => lookup_class(mo@.classes, name@) == Some(c@),
            None => lookup_class(mo@.classes, name@) is None,
        },
{
    let mut i: usize = 0;
    proof {
        assert(mo@.classes.skip(0) =~= mo@.classes);
    }
    while i < mo.classes.len()
        invariant
            i <= mo.classes@.len(),
            mo@.classes.len() == mo.classes@.len(),
            lookup_class(mo@.classes, name@) == lookup_class(mo@.classes.skip(i as int), name@),
        decreases mo.classes@.len() - i,
    {
        proof {
            assert(mo@.classes.skip(i as int)[0] == mo@.classes[i as int]);
            assert(mo@.classes.skip(i as int).drop_first() =~= mo@.classes.skip(i as int + 1));
        }
        if str_eq(mo.classes[i].0.as_str(), name) {
            return Some(&mo.classes[i].1);
        }
        i = i + 1;
    }
    proof {
        assert(mo@.classes.skip(mo.classes@.len() as int) =~= Seq::<
            (Seq<char>, ClassOverrideView),
        >::empty());
    }
    None
}

/// Finds the replacement list for a generated method name.
pub fn find_methods<'a>(co: &'a ClassOverride, name: &String) -> (r: Option<
    &'a Vec<FunctionDesc>,
>)
    ensures
        match r {
            Some(v) => lookup_methods(co@.methods, name@) == Some(methods_view(v@)),
            None => lookup_methods(co@.methods, name@) is None,
        },
{
    let mut i: usize = 0;
    proof {
        assert(co@.methods.skip(0) =~= co@.methods);
    }
    while i < co.methods.len()
        invariant
            i <= co.methods@.len(),
            co@.methods.len() == co.methods@.len(),
            lookup_methods(co@.methods, name@) == lookup_methods(
                co@.methods.skip(i as int),
                name@,
            ),
        decreases co.methods@.len() - i,
    {
        proof {
            assert(co@.methods.skip(i as int)[0] == co@.methods[i as int]);
            assert(co@.methods.skip(i as int).drop_first() =~= co@.methods.skip(i as int + 1));
        }
        if str_eq(co.methods[i].0.as_str(), name.as_str()) {
            return Some(&co.methods[i].1);
        }
        i = i + 1;
    }
    proof {
        assert(co@.methods.skip(co.methods@.len() as int) =~= Seq::<
            (Seq<char>, Seq<FunctionDescView>),
        >::empty());
    }
    None
}

/// What method-level overriding yields: each generated method whose name has
/// a non-empty replacement list is replaced, in place, by that whole list;
/// every other method is left untouched.
pub open spec fn replaced_methods(
    methods: Seq<FunctionDescView>,
    co: ClassOverrideView,
) -> Seq<FunctionDescView>
    decreases methods.len(),
{
    if methods.len() == 0 {
        Seq::empty()
    } else {
        let rest = replaced_methods(methods.drop_first(), co);
        match lookup_methods(co.methods, methods[0].name) {
            Some(repl) => if repl.len() > 0 {
                repl + rest
            } else {
                seq![methods[0]] + rest
            },
            None => seq![methods[0]] + rest,
        }
    }
}

/// What class-level overriding yields: no output for a skipped class;
/// otherwise the class with its method list rewritten by the method-level
/// replacements. No entry leaves the class untouched.
pub open spec fn apply_class_override_spec(
    cd: ClassDescView,
    co: Option<ClassOverrideView>,
) -> Option<ClassDescView> {
    match co {
        None => Some(cd),
        Some(c) => if c.mode is Skip {
            None
        } else {
            Some(
                ClassDescView {
                    name: cd.name,
                    attributes: cd.attributes,
                    methods: replaced_methods(cd.methods, c),
                },
            )
        },
    }
}

/// The view of an optional class descriptor.
pub open spec fn opt_class_view(r: Option<ClassDesc>) -> Option<ClassDescView> {
    match r {
        Some(cd) => Some(cd@),
        None => None,
    }
}

/// The view of an optional class override reference.
pub open spec fn opt_class_override_view(o: Option<&ClassOverride>) -> Option<ClassOverrideView> {
    match o {
        Some(c) => Some(c@),
        None => None,
    }
}

/// Applies the class-level and method-level overrides to one assembled
/// class.
pub fn apply_class_override(cd: ClassDesc, co: Option<&ClassOverride>) -> (r: Option<ClassDesc>)
    ensures
        opt_class_view(r) == apply_class_override_spec(cd@, opt_class_override_view(co)),
{
    let c = match co {
        None => {
            return Some(cd);
        },
        Some(c) => c,
    };
    if matches!(c.mode, OverrideMode::Skip) {
        return None;
    }
    let ClassDesc { name, attributes, methods } = cd;
    let ghost mv = methods_view(methods@);
    let mut out: Vec<FunctionDesc> = Vec::new();
    let mut i: usize = 0;
    proof {
        assert(mv.skip(0) =~= mv);
        assert(methods_view(out@) + replaced_methods(mv, c@) =~= replaced_methods(mv, c@));
    }
    while i < methods.len()
        invariant
            i <= methods@.len(),
            mv == methods_view(methods@),
            mv.len() == methods@.len(),
            replaced_methods(mv, c@) == methods_view(out@) + replaced_methods(
                mv.skip(i as int),
                c@,
            ),
        decreases methods@.len() - i,
    {
        proof {
            assert(mv.skip(i as int)[0] == mv[i as int]);
            assert(mv.skip(i as int).drop_first() =~= mv.skip(i as int + 1));
            assert(mv[i as int] == methods@[i as int]@);
        }
        let m = &methods[i];
        let ghost rest = replaced_methods(mv.skip(i as int + 1), c@);
        match find_methods(c, &m.name) {
            Some(repl) if repl.len() > 0 => {
                let ghost base = methods_view(out@);
                let ghost rv = methods_view(repl@);
                let mut k: usize = 0;
                proof {
                    assert(rv.take(0) =~= Seq::<FunctionDescView>::empty());
                    assert(base + rv.take(0) =~= base);
                }
                while k < repl.len()
                    invariant
                        k <= repl@.len(),
                        rv == methods_view(repl@),
                        rv.len() == repl@.len(),
                        methods_view(out@) == base + rv.take(k as int),
                    decreases repl@.len() - k,
                {
                    let fd = repl[k].clone();
                    proof {
                        assert(methods_view(out@.push(fd)) =~= methods_view(out@) + seq![fd@]);
                        assert(rv.take(k as int + 1) =~= rv.take(k as int).push(rv[k as int]));
                        assert((base + rv.take(k as int)) + seq![rv[k as int]] =~= base + rv.take(
                            k as int + 1,
                        ));
                    }
                    out.push(fd);
                    k = k + 1;
                }
                proof {
                    assert(rv.take(rv.len() as int) =~= rv);
                    assert((base + rv) + rest =~= base + (rv + rest));
                }
            },
            _ => {
                let fd = m.clone();
                proof {
                    assert(methods_view(out@.push(fd)) =~= methods_view(out@) + seq![mv[i as int]]);
                    assert((methods_view(out@) + seq![mv[i as int]]) + rest =~= methods_view(out@)
                        + (seq![mv[i as int]] + rest));
                }
                out.push(fd);
            },
        }
        i = i + 1;
    }
    proof {
        assert(mv.skip(mv.len() as int) =~= Seq::<FunctionDescView>::empty());
        assert(methods_view(out@) + Seq::<FunctionDescView>::empty() =~= methods_view(out@));
    }
    Some(ClassDesc { name, attributes, methods: out })
}

} // verus!
