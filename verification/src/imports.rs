//! Import grouping: turns a module's import declarations into `use`
//! statements, converting JavaScript source paths into target-language
//! paths and grouping symbols by origin.

use vstd::prelude::*;

use crate::strutil::{has_at, imports_view, matches_at, str_eq, strings_view};

verus! {

/// The position of the first `/` of a string, or its length.
pub open spec fn find_slash(s: Seq<char>) -> int
    decreases s.len(),
{
    if s.len() == 0 {
        0
    } else if s[0] == '/' {
        0
    } else {
        1 + find_slash(s.drop_first())
    }
}

/// A position with no slash before it that holds a slash, or is the length,
/// is the first slash position.
pub proof fn lemma_find_slash_at(s: Seq<char>, idx: int)
    requires
        0 <= idx <= s.len(),
        forall|k: int| 0 <= k < idx ==> s[k] != '/',
        idx < s.len() ==> s[idx] == '/',
    ensures
        find_slash(s) == idx,
    decreases idx,
{
    if idx == 0 {
    } else {
        assert(s[0] != '/');
        assert forall|k: int| 0 <= k < idx - 1 implies s.drop_first()[k] != '/' by {
            assert(s.drop_first()[k] == s[k + 1]);
        }
        assert(idx - 1 < s.drop_first().len() ==> s.drop_first()[idx - 1] == s[idx]);
        lemma_find_slash_at(s.drop_first(), idx - 1);
    }
}

/// The parts of a string split on `/`: the text before the first slash,
/// then the split of the text after it; a string with no slash is one part.
pub open spec fn split_slash_spec(s: Seq<char>) -> Seq<Seq<char>>
    decreases s.len(),
{
    let i = find_slash(s);
    if 0 <= i < s.len() {
        seq![s.take(i)] + split_slash_spec(s.skip(i + 1))
    } else {
        seq![s]
    }
}

/// Splits a string on `/`.
pub fn split_slash(s: &str) -> (r: Vec<String>)
    ensures
        strings_view(r@) == split_slash_spec(s@),
{
    let len = s.unicode_len();
    let mut out: Vec<String> = Vec::new();
    let mut start: usize = 0;
    let mut j: usize = 0;
    proof {
        assert(s@.skip(0) =~= s@);
        assert(strings_view(out@) + split_slash_spec(s@) =~= split_slash_spec(s@));
    }
    while j < len
        invariant
            len == s@.len(),
            start <= j <= len,
            split_slash_spec(s@) == strings_view(out@) + split_slash_spec(s@.skip(start as int)),
            forall|k: int| start <= k < j ==> s@[k] != '/',
        decreases len - j,
    {
        if s.get_char(j) == '/' {
            let part = String::from_str(s.substring_char(start, j));
            proof {
                let suffix = s@.skip(start as int);
                assert forall|k: int| 0 <= k < j - start implies suffix[k] != '/' by {
                    assert(suffix[k] == s@[start + k]);
                }
                assert(suffix[j - start] == s@[j as int]);
                lemma_find_slash_at(suffix, j - start);
                assert(suffix.take(j - start) =~= s@.subrange(start as int, j as int));
                assert(suffix.skip(j - start + 1) =~= s@.skip(j as int + 1));
                assert(strings_view(out@.push(part)) =~= strings_view(out@) + seq![part@]);
                assert((strings_view(out@) + seq![part@]) + split_slash_spec(
                    s@.skip(j as int + 1),
                ) =~= strings_view(out@) + (seq![part@] + split_slash_spec(s@.skip(j as int + 1))));
            }
            out.push(part);
            start = j + 1;
        }
        j = j + 1;
    }
    let part = String::from_str(s.substring_char(start, len));
    proof {
        let suffix = s@.skip(start as int);
        assert forall|k: int| 0 <= k < suffix.len() implies suffix[k] != '/' by {
            assert(suffix[k] == s@[start + k]);
        }
        lemma_find_slash_at(suffix, suffix.len() as int);
        assert(part@ =~= suffix);
        assert(strings_view(out@.push(part)) =~= strings_view(out@) + seq![part@]);
        assert(strings_view(out@) + seq![suffix] =~= strings_view(out@.push(part)));
    }
    out.push(part);
    out
}

/// One path segment: `.` becomes `::self`, `..` becomes `::super`, and any
/// other part is appended behind `::`.
pub open spec fn seg_of(p: Seq<char>) -> Seq<char> {
    if p == "."@ {
        "::self"@
    } else if p == ".."@ {
        "::super"@
    } else {
        "::"@ + p
    }
}

/// The folded path of a part list: segments appended in order.
pub open spec fn path_fold(parts: Seq<Seq<char>>) -> Seq<char>
    decreases parts.len(),
{
    if parts.len() == 0 {
        Seq::empty()
    } else {
        path_fold(parts.drop_last()) + seg_of(parts.last())
    }
}

/// Folds a part list into a path.
pub fn fold_path(parts: &Vec<String>) -> (r: String)
    ensures
        r@ == path_fold(strings_view(parts@)),
{
    let ghost pv = strings_view(parts@);
    let mut out = String::new();
    let mut i: usize = 0;
    proof {
        assert(pv.take(0) =~= Seq::<Seq<char>>::empty());
    }
    while i < parts.len()
        invariant
            i <= parts@.len(),
            pv == strings_view(parts@),
            pv.len() == parts@.len(),
            out@ == path_fold(pv.take(i as int)),
        decreases parts@.len() - i,
    {
        proof {
            assert(pv.take(i as int + 1).drop_last() =~= pv.take(i as int));
            assert(pv.take(i as int + 1).last() == pv[i as int]);
        }
        let ghost prev = out@;
        if str_eq(parts[i].as_str(), ".") {
            out.append("::self");
        } else if str_eq(parts[i].as_str(), "..") {
            out.append("::super");
        } else {
            out.append("::");
            out.append(parts[i].as_str());
            proof {
                assert(out@ =~= prev + ("::"@ + pv[i as int]));
            }
        }
        i = i + 1;
    }
    proof {
        assert(pv.take(pv.len() as int) =~= pv);
    }
    out
}

/// A string with every occurrence of `self::super` replaced by `super`,
/// scanning left to right without overlap.
pub open spec fn replace_self_super(s: Seq<char>) -> Seq<char>
    decreases s.len(),
{
    if s.len() >= 11 && matches_at(s, "self::super"@, 0) {
        "super"@ + replace_self_super(s.skip(11))
    } else if s.len() == 0 {
        Seq::empty()
    } else {
        seq![s[0]] + replace_self_super(s.skip(1))
    }
}

/// Replaces every occurrence of `self::super` by `super`.
pub fn do_replace_self_super(s: &str) -> (r: String)
    ensures
        r@ == replace_self_super(s@),
{
    let len = s.unicode_len();
    let mut out = String::new();
    let mut i: usize = 0;
    proof {
        reveal_strlit("self::super");
        assert(s@.skip(0) =~= s@);
        assert(out@ + replace_self_super(s@) =~= replace_self_super(s@));
    }
    while i < len
        invariant
            len == s@.len(),
            i <= len,
            replace_self_super(s@) == out@ + replace_self_super(s@.skip(i as int)),
        decreases len - i,
    {
        let ghost prev = out@;
        let ghost suffix = s@.skip(i as int);
        if has_at(s, "self::super", i) {
            proof {
                reveal_strlit("self::super");
                assert(suffix.subrange(0, 11) =~= s@.subrange(i as int, i as int + 11));
                assert(matches_at(suffix, "self::super"@, 0));
                assert(suffix.skip(11) =~= s@.skip(i as int + 11));
                assert((prev + "super"@) + replace_self_super(s@.skip(i as int + 11)) =~= prev + (
                "super"@ + replace_self_super(s@.skip(i as int + 11))));
            }
            out.append("super");
            i = i + 11;
        } else {
            proof {
                reveal_strlit("self::super");
                assert(!matches_at(suffix, "self::super"@, 0)) by {
                    if matches_at(suffix, "self::super"@, 0) {
                        assert(s@.subrange(i as int, i as int + 11) =~= suffix.subrange(0, 11));
                    }
                }
                assert(suffix[0] == s@[i as int]);
                assert(suffix.skip(1) =~= s@.skip(i as int + 1));
            }
            let piece = s.substring_char(i, i + 1);
            proof {
                assert(piece@ =~= seq![s@[i as int]]);
                assert((prev + seq![s@[i as int]]) + replace_self_super(s@.skip(i as int + 1))
                    =~= prev + (seq![s@[i as int]] + replace_self_super(s@.skip(i as int + 1))));
            }
            out.append(piece);
            i = i + 1;
        }
    }
    proof {
        assert(s@.skip(len as int) =~= Seq::<char>::empty());
        assert(out@ + Seq::<char>::empty() =~= out@);
    }
    out
}

/// A string with every leading `:` removed.
pub open spec fn trim_colons(s: Seq<char>) -> Seq<char>
    decreases s.len(),
{
    if s.len() > 0 && s[0] == ':' {
        trim_colons(s.drop_first())
    } else {
        s
    }
}

/// Removes every leading `:`.
pub fn do_trim_colons(s: &str) -> (r: String)
    ensures
        r@ == trim_colons(s@),
{
    let len = s.unicode_len();
    let mut i: usize = 0;
    proof {
        assert(s@.skip(0) =~= s@);
    }
    while i < len && s.get_char(i) == ':'
        invariant
            len == s@.len(),
            i <= len,
            trim_colons(s@) == trim_colons(s@.skip(i as int)),
        decreases len - i,
    {
        proof {
            assert(s@.skip(i as int)[0] == s@[i as int]);
            assert(s@.skip(i as int).drop_first() =~= s@.skip(i as int + 1));
        }
        i = i + 1;
    }
    proof {
        if i < len {
            assert(s@.skip(i as int)[0] == s@[i as int]);
        }
    }
    String::from_str(s.substring_char(i, len))
}

} // verus!

verus! {

/// The position of the last `::` of a string, if any.
pub open spec fn last_sep(s: Seq<char>) -> Option<int>
    decreases s.len(),
{
    if s.len() < 2 {
        None
    } else if matches_at(s, "::"@, s.len() - 2) {
        Some(s.len() - 2)
    } else {
        last_sep(s.drop_last())
    }
}

/// An occurrence of a pattern strictly inside a string is an occurrence in
/// the string without its last character, and conversely.
proof fn lemma_matches_drop_last(s: Seq<char>, pat: Seq<char>, k: int)
    requires
        s.len() >= 1,
        0 <= k,
        k + pat.len() <= s.len() - 1,
    ensures
        matches_at(s.drop_last(), pat, k) == matches_at(s, pat, k),
{
    assert(s.drop_last().subrange(k, k + pat.len() as int) =~= s.subrange(
        k,
        k + pat.len() as int,
    ));
}

/// `last_sep` names the last `::` position: it is an occurrence and nothing
/// after it is one; where it is `None` there is no occurrence at all.
pub proof fn lemma_last_sep(s: Seq<char>)
    ensures
        match last_sep(s) {
            Some(k) => 0 <= k <= s.len() - 2 && matches_at(s, "::"@, k) && forall|m: int|
                k < m ==> !matches_at(s, "::"@, m),
            None => forall|m: int| !matches_at(s, "::"@, m),
        },
    decreases s.len(),
{
    reveal_strlit("::");
    if s.len() < 2 {
    } else if matches_at(s, "::"@, s.len() - 2) {
        assert forall|m: int| s.len() - 2 < m implies !matches_at(s, "::"@, m) by {}
    } else {
        lemma_last_sep(s.drop_last());
        match last_sep(s.drop_last()) {
            Some(k) => {
                lemma_matches_drop_last(s, "::"@, k);
                assert forall|m: int| k < m implies !matches_at(s, "::"@, m) by {
                    if 0 <= m && m + 2 <= s.len() - 1 {
                        lemma_matches_drop_last(s, "::"@, m);
                    }
                }
            },
            None => {
                assert forall|m: int| true implies !matches_at(s, "::"@, m) by {
                    if 0 <= m && m + 2 <= s.len() - 1 {
                        lemma_matches_drop_last(s, "::"@, m);
                    }
                }
            },
        }
    }
}

/// Finds the position of the last `::` of a string, if any.
pub fn find_last_sep(s: &str) -> (r: Option<usize>)
    ensures
        match r {
            Some(k) => last_sep(s@) == Some(k as int),
            None => last_sep(s@) is None,
        },
{
    let len = s.unicode_len();
    let mut best: Option<usize> = None;
    let mut j: usize = 0;
    proof {
        reveal_strlit("::");
    }
    if len < 2 {
        proof {
            lemma_last_sep(s@);
            if last_sep(s@) is Some {
            }
        }
        return None;
    }
    while j <= len - 2
        invariant
            len == s@.len(),
            2 <= len,
            j <= len - 1,
            match best {
                Some(b) => b < j && matches_at(s@, "::"@, b as int) && forall|m: int|
                    b < m < j ==> !matches_at(s@, "::"@, m),
                None => forall|m: int| 0 <= m < j ==> !matches_at(s@, "::"@, m),
            },
        decreases len - j,
    {
        if has_at(s, "::", j) {
            best = Some(j);
        }
        j = j + 1;
    }
    proof {
        reveal_strlit("::");
        lemma_last_sep(s@);
        assert forall|m: int| j <= m implies !matches_at(s@, "::"@, m) by {
            if m + 2 <= s@.len() {
            }
        }
        match best {
            Some(b) => {
                if last_sep(s@) is Some {
                    let k = last_sep(s@)->Some_0;
                    assert(!(b < k) && !(k < b));
                } else {
                }
            },
            None => {
                if last_sep(s@) is Some {
                }
            },
        }
    }
    best
}

/// What an import source path groups to: the path is split on `/`, folded
/// into segments, rewritten so that `self::super` collapses to `super`, and
/// stripped of leading colons; the text before the last `::` is the group
/// path, the text after it the expected symbol. A path without `::` groups
/// nothing.
pub open spec fn import_path_spec(src: Seq<char>) -> Option<(Seq<char>, Seq<char>)> {
    let path = trim_colons(replace_self_super(path_fold(split_slash_spec(src))));
    match last_sep(path) {
        Some(k) => Some((path.take(k), path.skip(k + 2))),
        None => None,
    }
}

/// Computes the group path and expected symbol of one import source.
pub fn import_path(src: &str) -> (r: Option<(String, String)>)
    ensures
        match r {
            Some(p) => import_path_spec(src@) == Some((p.0@, p.1@)),
            None => import_path_spec(src@) is None,
        },
{
    let parts = split_slash(src);
    let folded = fold_path(&parts);
    let replaced = do_replace_self_super(folded.as_str());
    let path = do_trim_colons(replaced.as_str());
    match find_last_sep(path.as_str()) {
        Some(k) => {
            proof {
                reveal_strlit("::");
                lemma_last_sep(path@);
            }
            let len = path.as_str().unicode_len();
            let prefix = String::from_str(path.as_str().substring_char(0, k));
            let rest = String::from_str(path.as_str().substring_char(k + 2, len));
            proof {
                assert(prefix@ =~= path@.take(k as int));
                assert(rest@ =~= path@.skip(k as int + 2));
            }
            Some((prefix, rest))
        },
        None => None,
    }
}

} // verus!

verus! {

use crate::ast::{ImportSpecifier, Module, ModuleItem};

/// A symbol added to a grouped import list: appended to the first entry
/// under its path, or opening a new entry at the end.
pub open spec fn group_insert(
    groups: Seq<(Seq<char>, Seq<Seq<char>>)>,
    key: Seq<char>,
    sym: Seq<char>,
) -> Seq<(Seq<char>, Seq<Seq<char>>)>
    decreases groups.len(),
{
    if groups.len() == 0 {
        seq![(key, seq![sym])]
    } else if groups[0].0 == key {
        seq![(groups[0].0, groups[0].1.push(sym))] + groups.drop_first()
    } else {
        seq![groups[0]] + group_insert(groups.drop_first(), key, sym)
    }
}

/// Inserting under a key first found at position `j` updates that entry.
proof fn lemma_group_insert_found(
    groups: Seq<(Seq<char>, Seq<Seq<char>>)>,
    key: Seq<char>,
    sym: Seq<char>,
    j: int,
)
    requires
        0 <= j < groups.len(),
        forall|m: int| 0 <= m < j ==> groups[m].0 != key,
        groups[j].0 == key,
    ensures
        group_insert(groups, key, sym) == groups.update(
            j,
            (groups[j].0, groups[j].1.push(sym)),
        ),
    decreases j,
{
    if j == 0 {
        assert(group_insert(groups, key, sym) =~= groups.update(
            0,
            (groups[0].0, groups[0].1.push(sym)),
        ));
    } else {
        assert(groups[0].0 != key);
        assert forall|m: int| 0 <= m < j - 1 implies groups.drop_first()[m].0 != key by {
            assert(groups.drop_first()[m] == groups[m + 1]);
        }
        lemma_group_insert_found(groups.drop_first(), key, sym, j - 1);
        assert(seq![groups[0]] + groups.drop_first().update(
            j - 1,
            (groups[j].0, groups[j].1.push(sym)),
        ) =~= groups.update(j, (groups[j].0, groups[j].1.push(sym))));
    }
}

/// Inserting under a key no entry holds appends a new entry.
proof fn lemma_group_insert_missing(
    groups: Seq<(Seq<char>, Seq<Seq<char>>)>,
    key: Seq<char>,
    sym: Seq<char>,
)
    requires
        forall|m: int| 0 <= m < groups.len() ==> groups[m].0 != key,
    ensures
        group_insert(groups, key, sym) == groups.push((key, seq![sym])),
    decreases groups.len(),
{
    if groups.len() == 0 {
        assert(group_insert(groups, key, sym) =~= groups.push((key, seq![sym])));
    } else {
        assert forall|m: int| 0 <= m < groups.drop_first().len() implies groups.drop_first()[m].0
            != key by {
            assert(groups.drop_first()[m] == groups[m + 1]);
        }
        lemma_group_insert_missing(groups.drop_first(), key, sym);
        assert(seq![groups[0]] + groups.drop_first().push((key, seq![sym])) =~= groups.push(
            (key, seq![sym]),
        ));
    }
}

/// Adds one symbol to a grouped import list under its path.
fn add_symbol(groups: Vec<(String, Vec<String>)>, key: String, sym: String) -> (r: Vec<
    (String, Vec<String>),
>)
    ensures
        imports_view(r@) == group_insert(imports_view(groups@), key@, sym@),
{
    let mut g = groups;
    let ghost gv = imports_view(g@);
    let mut j: usize = 0;
    proof {
        assert(gv == imports_view(groups@));
    }
    while j < g.len()
        invariant
            j <= g@.len(),
            gv == imports_view(g@),
            gv == imports_view(groups@),
            gv.len() == g@.len(),
            forall|m: int| 0 <= m < j ==> gv[m].0 != key@,
        decreases g@.len() - j,
    {
        if str_eq(g[j].0.as_str(), key.as_str()) {
            proof {
                lemma_group_insert_found(gv, key@, sym@, j as int);
            }
            let mut entry = g.remove(j);
            entry.1.push(sym);
            proof {
                assert(strings_view(entry.1@) =~= gv[j as int].1.push(sym@));
            }
            g.insert(j, entry);
            proof {
                assert(imports_view(g@) =~= gv.update(
                    j as int,
                    (gv[j as int].0, gv[j as int].1.push(sym@)),
                ));
                assert(group_insert(imports_view(groups@), key@, sym@) == gv.update(
                    j as int,
                    (gv[j as int].0, gv[j as int].1.push(sym@)),
                ));
            }
            return g;
        }
        j = j + 1;
    }
    proof {
        lemma_group_insert_missing(gv, key@, sym@);
    }
    let mut symbols: Vec<String> = Vec::new();
    symbols.push(sym);
    proof {
        assert(strings_view(symbols@) =~= seq![sym@]);
    }
    g.push((key, symbols));
    proof {
        assert(imports_view(g@) =~= gv.push((key@, seq![sym@])));
    }
    g
}

/// The last named specifier of an import declaration, if any.
pub open spec fn last_named(specs: Seq<ImportSpecifier>) -> Option<Seq<char>>
    decreases specs.len(),
{
    if specs.len() == 0 {
        None
    } else {
        match specs.last() {
            ImportSpecifier::Named(s) => Some(s@),
            ImportSpecifier::Other => last_named(specs.drop_last()),
        }
    }
}

fn find_last_named(specs: &Vec<ImportSpecifier>) -> (r: Option<String>)
    ensures
        match r {
            Some(s) => last_named(specs@) == Some(s@),
            None => last_named(specs@) is None,
        },
{
    let mut j: usize = specs.len();
    proof {
        assert(specs@.take(specs@.len() as int) =~= specs@);
    }
    while j > 0
        invariant
            j <= specs@.len(),
            last_named(specs@) == last_named(specs@.take(j as int)),
        decreases j,
    {
        j = j - 1;
        proof {
            assert(specs@.take(j as int + 1).last() == specs@[j as int]);
            assert(specs@.take(j as int + 1).drop_last() =~= specs@.take(j as int));
        }
        match &specs[j] {
            ImportSpecifier::Named(s) => {
                return Some(s.clone());
            },
            ImportSpecifier::Other => {},
        }
    }
    None
}

/// What gathering a module's imports yields: for each import declaration in
/// order, its last named symbol is grouped under the import's computed
/// path, provided the path's final segment spells that same symbol; every
/// other declaration contributes nothing.
pub open spec fn collect_imports(items: Seq<ModuleItem>) -> Seq<(Seq<char>, Seq<Seq<char>>)>
    decreases items.len(),
{
    if items.len() == 0 {
        Seq::empty()
    } else {
        let g = collect_imports(items.drop_last());
        match items.last() {
            ModuleItem::Import { specifiers, src } => match last_named(specifiers@) {
                Some(sym) => match import_path_spec(src@) {
                    Some(ps) => if ps.1 == sym {
                        group_insert(g, ps.0, sym)
                    } else {
                        g
                    },
                    None => g,
                },
                None => g,
            },
            _ => g,
        }
    }
}

/// Gathers a module's import declarations into symbols grouped by their
/// computed origin path, in first-appearance order.
pub fn process_imports(module: &Module) -> (r: Vec<(String, Vec<String>)>)
    ensures
        imports_view(r@) == collect_imports(module.body@),
{
    let mut groups: Vec<(String, Vec<String>)> = Vec::new();
    let mut i: usize = 0;
    proof {
        assert(module.body@.take(0) =~= Seq::<ModuleItem>::empty());
        assert(imports_view(groups@) =~= collect_imports(module.body@.take(0)));
    }
    while i < module.body.len()
        invariant
            i <= module.body@.len(),
            imports_view(groups@) == collect_imports(module.body@.take(i as int)),
        decreases module.body@.len() - i,
    {
        proof {
            assert(module.body@.take(i as int + 1).drop_last() =~= module.body@.take(i as int));
            assert(module.body@.take(i as int + 1).last() == module.body@[i as int]);
        }
        match &module.body[i] {
            ModuleItem::Import { specifiers, src } => {
                match find_last_named(specifiers) {
                    Some(sym) => {
                        match import_path(src.as_str()) {
                            Some(ps) => {
                                if str_eq(ps.1.as_str(), sym.as_str()) {
                                    groups = add_symbol(groups, ps.0, sym);
                                }
                            },
                            None => {},
                        }
                    },
                    None => {},
                }
            },
            _ => {},
        }
        i = i + 1;
    }
    proof {
        assert(module.body@.take(module.body@.len() as int) =~= module.body@);
    }
    groups
}

} // verus!

verus! {

use crate::emit::{line_spec, Writer};
use crate::strutil::{sort_seqs, sort_strings};

/// Symbols joined with a comma and a space whenever the text so far is
/// non-empty.
pub open spec fn join_comma_spec(s: Seq<Seq<char>>) -> Seq<char>
    decreases s.len(),
{
    if s.len() == 0 {
        Seq::empty()
    } else {
        let prev = join_comma_spec(s.drop_last());
        if prev.len() == 0 {
            s.last()
        } else {
            prev + ", "@ + s.last()
        }
    }
}

/// The import statement of one group, over its already-sorted symbols: no
/// line for an empty group, a plain path for a single symbol, a braced list
/// otherwise.
pub open spec fn import_line(path: Seq<char>, syms: Seq<Seq<char>>) -> Option<Seq<char>> {
    if syms.len() == 0 {
        None
    } else if syms.len() == 1 {
        Some("use "@ + path + "::"@ + syms[0] + ";"@)
    } else {
        Some("use "@ + path + "::{"@ + join_comma_spec(syms) + "};"@)
    }
}

/// The unsorted import statements of a grouped list, each over its sorted
/// symbols, in entry order.
pub open spec fn import_lines(stmts: Seq<(Seq<char>, Seq<Seq<char>>)>) -> Seq<Seq<char>>
    decreases stmts.len(),
{
    if stmts.len() == 0 {
        Seq::empty()
    } else {
        let prev = import_lines(stmts.drop_last());
        match import_line(stmts.last().0, sort_seqs(stmts.last().1)) {
            Some(l) => prev + seq![l],
            None => prev,
        }
    }
}

/// Lines written one below the other at one indentation level.
pub open spec fn lines_concat(ls: Seq<Seq<char>>, n: nat) -> Seq<char>
    decreases ls.len(),
{
    if ls.len() == 0 {
        Seq::empty()
    } else {
        lines_concat(ls.drop_last(), n) + line_spec(n, ls.last())
    }
}

/// What writing a grouped import list emits: one statement per non-empty
/// group, symbols sorted within each group, the statements themselves
/// sorted, each written as a line at the current indentation.
pub open spec fn write_imports_spec(stmts: Seq<(Seq<char>, Seq<Seq<char>>)>, n: nat) -> Seq<
    char,
> {
    lines_concat(sort_seqs(import_lines(stmts)), n)
}

fn join_comma(symbols: &Vec<String>) -> (r: String)
    ensures
        r@ == join_comma_spec(strings_view(symbols@)),
{
    let ghost sv = strings_view(symbols@);
    let mut out = String::new();
    let mut i: usize = 0;
    proof {
        assert(sv.take(0) =~= Seq::<Seq<char>>::empty());
    }
    while i < symbols.len()
        invariant
            i <= symbols@.len(),
            sv == strings_view(symbols@),
            sv.len() == symbols@.len(),
            out@ == join_comma_spec(sv.take(i as int)),
        decreases symbols@.len() - i,
    {
        proof {
            assert(sv.take(i as int + 1).drop_last() =~= sv.take(i as int));
            assert(sv.take(i as int + 1).last() == sv[i as int]);
        }
        let ghost prev = out@;
        if !out.as_str().is_empty() {
            out.append(", ");
            out.append(symbols[i].as_str());
            proof {
                assert(out@ =~= prev + ", "@ + sv[i as int]);
            }
        } else {
            out.append(symbols[i].as_str());
        }
        i = i + 1;
    }
    proof {
        assert(sv.take(sv.len() as int) =~= sv);
    }
    out
}

impl Writer {
    /// Writes the import statements of a grouped import list: one statement
    /// per non-empty group, symbols sorted within each group, statements
    /// sorted among themselves.
    pub fn write_imports(&mut self, statements: &Vec<(String, Vec<String>)>)
        ensures
            final(self)@ == old(self)@ + write_imports_spec(
                imports_view(statements@),
                old(self).indentation as nat,
            ),
            final(self).indentation == old(self).indentation,
    {
        let ghost iv = imports_view(statements@);
        let mut lines: Vec<String> = Vec::new();
        let mut i: usize = 0;
        proof {
            assert(iv.take(0) =~= Seq::<(Seq<char>, Seq<Seq<char>>)>::empty());
            assert(strings_view(lines@) =~= import_lines(iv.take(0)));
        }
        while i < statements.len()
            invariant
                i <= statements@.len(),
                iv == imports_view(statements@),
                iv.len() == statements@.len(),
                strings_view(lines@) == import_lines(iv.take(i as int)),
            decreases statements@.len() - i,
        {
            proof {
                assert(iv.take(i as int + 1).drop_last() =~= iv.take(i as int));
                assert(iv.take(i as int + 1).last() == iv[i as int]);
            }
            let sorted = sort_strings(&statements[i].1);
            let ghost prev_lines = strings_view(lines@);
            if sorted.len() == 1 {
                let mut line = String::new();
                line.append("use ");
                line.append(statements[i].0.as_str());
                line.append("::");
                line.append(sorted[0].as_str());
                line.append(";");
                proof {
                    assert(strings_view(sorted@)[0] == sorted@[0]@);
                    assert(line@ =~= "use "@ + iv[i as int].0 + "::"@ + sort_seqs(
                        iv[i as int].1,
                    )[0] + ";"@);
                }
                proof {
                    assert(strings_view(lines@.push(line)) =~= prev_lines + seq![line@]);
                }
                lines.push(line);
            } else if sorted.len() > 1 {
                let joined = join_comma(&sorted);
                let mut line = String::new();
                line.append("use ");
                line.append(statements[i].0.as_str());
                line.append("::{");
                line.append(joined.as_str());
                line.append("};");
                proof {
                    assert(line@ =~= "use "@ + iv[i as int].0 + "::{"@ + join_comma_spec(
                        sort_seqs(iv[i as int].1),
                    ) + "};"@);
                }
                proof {
                    assert(strings_view(lines@.push(line)) =~= prev_lines + seq![line@]);
                }
                lines.push(line);
            }
            i = i + 1;
        }
        proof {
            assert(iv.take(iv.len() as int) =~= iv);
        }
        let sorted_lines = sort_strings(&lines);
        let ghost slv = strings_view(sorted_lines@);
        let ghost base = self.output@;
        let ghost n = self.indentation as nat;
        let mut k: usize = 0;
        proof {
            assert(slv.take(0) =~= Seq::<Seq<char>>::empty());
            assert(base + lines_concat(slv.take(0), n) =~= base);
        }
        while k < sorted_lines.len()
            invariant
                k <= sorted_lines@.len(),
                slv == strings_view(sorted_lines@),
                slv.len() == sorted_lines@.len(),
                self.indentation == old(self).indentation,
                n == old(self).indentation as nat,
                base == old(self)@,
                self.output@ == base + lines_concat(slv.take(k as int), n),
            decreases sorted_lines@.len() - k,
        {
            proof {
                assert(slv.take(k as int + 1).drop_last() =~= slv.take(k as int));
                assert(slv.take(k as int + 1).last() == slv[k as int]);
            }
            self.write_line(sorted_lines[k].as_str());
            proof {
                assert(self.output@ =~= base + (lines_concat(slv.take(k as int), n) + line_spec(
                    n,
                    slv[k as int],
                )));
            }
            k = k + 1;
        }
        proof {
            assert(slv.take(slv.len() as int) =~= slv);
        }
    }
}

} // verus!
