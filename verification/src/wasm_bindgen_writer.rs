//! An early, plainer form of the emitter's writer: it writes single lines
//! and unsorted grouped import statements.

use vstd::prelude::*;

use crate::emit::{line_spec, lemma_indent_of_push, indent_of};
use crate::strutil::{has_at, imports_view, matches_at, strings_view};

verus! {

/// The symbols of one import, folded left with a leading separator before
/// each entry.
pub open spec fn fold_symbols(s: Seq<Seq<char>>) -> Seq<char>
    decreases s.len(),
{
    if s.len() == 0 {
        Seq::empty()
    } else {
        fold_symbols(s.drop_last()) + ", "@ + s.last()
    }
}

/// A string with every leading comma-and-space group removed.
pub open spec fn trim_comma_space(s: Seq<char>) -> Seq<char>
    decreases s.len(),
{
    if s.len() >= 2 && matches_at(s, ", "@, 0) {
        trim_comma_space(s.skip(2))
    } else {
        s
    }
}

/// One rendered import statement.
pub open spec fn use_line_spec(path: Seq<char>, symbols: Seq<Seq<char>>) -> Seq<char> {
    "use "@ + path + "::{"@ + trim_comma_space(fold_symbols(symbols)) + "};"@ + "\n"@
}

/// The rendered import statements of a grouped import list, in order.
pub open spec fn use_stmts_spec(stmts: Seq<(Seq<char>, Seq<Seq<char>>)>) -> Seq<char>
    decreases stmts.len(),
{
    if stmts.len() == 0 {
        Seq::empty()
    } else {
        use_stmts_spec(stmts.drop_last()) + use_line_spec(stmts.last().0, stmts.last().1)
    }
}

/// Removes every leading comma-and-space group.
fn trim_leading_comma_space(s: &str) -> (r: String)
    ensures
        r@ == trim_comma_space(s@),
{
    let len = s.unicode_len();
    let mut at: usize = 0;
    proof {
        reveal_strlit(", ");
        assert(s@.skip(0) =~= s@);
    }
    while has_at(s, ", ", at)
        invariant
            len == s@.len(),
            at <= len,
            trim_comma_space(s@) == trim_comma_space(s@.skip(at as int)),
        decreases len - at,
    {
        proof {
            reveal_strlit(", ");
            assert(s@.skip(at as int).subrange(0, 2) =~= s@.subrange(at as int, at as int + 2));
            assert(matches_at(s@.skip(at as int), ", "@, 0));
            assert(s@.skip(at as int).skip(2) =~= s@.skip(at as int + 2));
        }
        at = at + 2;
    }
    proof {
        reveal_strlit(", ");
        assert(!matches_at(s@.skip(at as int), ", "@, 0)) by {
            reveal_strlit(", ");
            if matches_at(s@.skip(at as int), ", "@, 0) {
                assert(s@.skip(at as int).subrange(0, 2) =~= s@.subrange(
                    at as int,
                    at as int + 2,
                ));
            }
        }
    }
    let rest = s.substring_char(at, len);
    String::from_str(rest)
}

/// Accumulates output lines at a fixed indentation, four spaces per level.
pub struct WasmBindgenWriter {
    /// The current indentation level.
    pub indentation: usize,
    /// The text written so far.
    pub output: String,
}

impl View for WasmBindgenWriter {
    type V = Seq<char>;

    open spec fn view(&self) -> Seq<char> {
        self.output@
    }
}

impl WasmBindgenWriter {
    /// A writer with no output yet, at indentation level zero.
    pub fn new() -> (r: WasmBindgenWriter)
        ensures
            r@ == Seq::<char>::empty(),
            r.indentation == 0,
    {
        WasmBindgenWriter { indentation: 0, output: String::new() }
    }

    /// Writes one line at the current indentation.
    pub fn writeln(&mut self, line: &str)
        ensures
            final(self)@ == old(self)@ + line_spec(old(self).indentation as nat, line@),
            final(self).indentation == old(self).indentation,
    {
        let n = self.indentation;
        let ghost base = self.output@;
        let mut k: usize = 0;
        while k < n
            invariant
                k <= n,
                self.indentation == n,
                self.output@ == base + indent_of(k as nat),
            decreases n - k,
        {
            proof {
                lemma_indent_of_push(k as nat);
                assert((base + indent_of(k as nat)) + "    "@ =~= base + (indent_of(k as nat)
                    + "    "@));
            }
            self.output.append("    ");
            k = k + 1;
        }
        self.output.append(line);
        self.output.append("\n");
        proof {
            assert(base + indent_of(n as nat) + line@ + "\n"@ =~= base + (indent_of(n as nat)
                + line@ + "\n"@));
        }
    }

    /// Writes one import statement per grouped entry, in entry order,
    /// symbols braced and separated by comma and space.
    pub fn write_use_statements(&mut self, statements: &Vec<(String, Vec<String>)>)
        ensures
            final(self)@ == old(self)@ + use_stmts_spec(imports_view(statements@)),
            final(self).indentation == old(self).indentation,
    {
        let ghost iv = imports_view(statements@);
        let ghost base = self.output@;
        let mut i: usize = 0;
        proof {
            assert(iv.take(0) =~= Seq::<(Seq<char>, Seq<Seq<char>>)>::empty());
            assert(base + use_stmts_spec(iv.take(0)) =~= base);
        }
        while i < statements.len()
            invariant
                i <= statements@.len(),
                iv == imports_view(statements@),
                iv.len() == statements@.len(),
                self.indentation == old(self).indentation,
                base == old(self)@,
                self.output@ == base + use_stmts_spec(iv.take(i as int)),
            decreases statements@.len() - i,
        {
            let entry = &statements[i];
            let ghost sv = strings_view(entry.1@);
            let mut folded = String::new();
            let mut k: usize = 0;
            proof {
                assert(sv.take(0) =~= Seq::<Seq<char>>::empty());
                assert(folded@ =~= fold_symbols(sv.take(0)));
            }
            while k < entry.1.len()
                invariant
                    k <= entry.1@.len(),
                    sv == strings_view(entry.1@),
                    sv.len() == entry.1@.len(),
                    folded@ == fold_symbols(sv.take(k as int)),
                decreases entry.1@.len() - k,
            {
                proof {
                    assert(sv.take(k as int + 1).drop_last() =~= sv.take(k as int));
                    assert(sv.take(k as int + 1).last() == sv[k as int]);
                }
                folded.append(", ");
                folded.append(entry.1[k].as_str());
                k = k + 1;
            }
            proof {
                assert(sv.take(sv.len() as int) =~= sv);
            }
            let trimmed = trim_leading_comma_space(folded.as_str());
            let mut line = String::new();
            line.append("use ");
            line.append(entry.0.as_str());
            line.append("::{");
            line.append(trimmed.as_str());
            line.append("};");
            line.append("\n");
            proof {
                assert(line@ =~= use_line_spec(iv[i as int].0, iv[i as int].1));
                assert(iv.take(i as int + 1).drop_last() =~= iv.take(i as int));
                assert(iv.take(i as int + 1).last() == iv[i as int]);
                assert((base + use_stmts_spec(iv.take(i as int))) + line@ =~= base + (
                use_stmts_spec(iv.take(i as int)) + line@));
            }
            self.output.append(line.as_str());
            i = i + 1;
        }
        proof {
            assert(iv.take(iv.len() as int) =~= iv);
        }
    }
}

} // verus!
