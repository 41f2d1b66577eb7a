//! Checking: specification tree and real source in, violations out;
//! optionally a repaired text.

use vstd::prelude::*;

use crate::checker::check_structural_match;
use crate::config::Config;
use crate::emitter::{emit_document_spec, Emitter};
use crate::extractor::{doc_of_source, parse_error_of, source_parses, ParsedRustFile};
use crate::facts::{decl_names, info_names, DocumentV};
use crate::laws::{tree_test_infos, tree_violation_kinds};
use crate::fixer::{distinct_seqs, fix};
use crate::hir::Hir;
use crate::translator::{StructureError, Translator};
use crate::tree::SpecNode;
use crate::violation::{kinds_of, spec_count_fixable, Violation, ViolationKind, ViolationKindV};

verus! {

/// The last position of a character in a sequence, if it occurs.
pub open spec fn last_index_of(s: Seq<char>, c: char) -> Option<int>
    decreases s.len(),
{
    if s.len() == 0 {
        None
    } else if s.last() == c {
        Some(s.len() - 1)
    } else {
        last_index_of(s.drop_last(), c)
    }
}

/// Where a path's file name begins: one past the last separator.
pub open spec fn split_point(p: Seq<char>) -> int {
    match last_index_of(p, '/') {
        Some(k) => k + 1,
        None => 0,
    }
}

/// The length of a file name's stem: up to its last dot, except that a
/// dot in the leading position alone does not shorten the name.
pub open spec fn stem_len(base: Seq<char>) -> int {
    match last_index_of(base, '.') {
        Some(m) => if m > 0 {
            m
        } else {
            base.len() as int
        },
        None => base.len() as int,
    }
}

/// The test file a tree file names: the same directory, the tree
/// file's stem, and `_test.rs`.
pub open spec fn derived_test_path_spec(p: Seq<char>) -> Seq<char> {
    let d = split_point(p);
    p.take(d + stem_len(p.skip(d))) + seq!['_', 't', 'e', 's', 't', '.', 'r', 's']
}

/// The test file a tree file names, as [`derived_test_path_spec`] says.
pub fn derived_test_path(tree_path: &str) -> (r: String)
    ensures
        r@ == derived_test_path_spec(tree_path@),
{
    let cs = crate::chars::str_to_chars(tree_path);
    let n = cs.len();
    proof {
        assert(cs@.take(n as int) =~= cs@);
    }
    let mut k: usize = n;
    while k > 0 && !(cs[k - 1] == '/')
        invariant
            0 <= k <= n,
            n == cs@.len(),
            cs@ == tree_path@,
            last_index_of(cs@, '/') == last_index_of(cs@.take(k as int), '/'),
        decreases k,
    {
        proof {
            let t = cs@.take(k as int);
            assert(t.last() == cs@[k - 1]);
            assert(t.drop_last() =~= cs@.take(k - 1 as int));
        }
        k = k - 1;
    }
    let d: usize = k;
    proof {
        if k == 0 {
            assert(cs@.take(0) =~= Seq::<char>::empty());
            assert(split_point(cs@) == 0);
        } else {
            assert(cs@.take(k as int).last() == cs@[k - 1]);
            assert(last_index_of(cs@.take(k as int), '/') == Some(k - 1 as int));
            assert(split_point(cs@) == k as int);
        }
    }
    let ghost base = cs@.skip(d as int);
    let mut m: usize = n;
    proof {
        assert(base.take((n - d) as int) =~= base);
    }
    while m > d && !(cs[m - 1] == '.')
        invariant
            d <= m <= n,
            n == cs@.len(),
            cs@ == tree_path@,
            base == cs@.skip(d as int),
            last_index_of(base, '.') == last_index_of(base.take((m - d) as int), '.'),
        decreases m,
    {
        proof {
            let t = base.take((m - d) as int);
            assert(t.last() == cs@[m - 1]);
            assert(t.drop_last() =~= base.take((m - 1 - d) as int));
        }
        m = m - 1;
    }
    let sl: usize = if m == d {
        proof {
            assert(base.take(0) =~= Seq::<char>::empty());
            assert(stem_len(base) == base.len() as int);
        }
        n - d
    } else {
        proof {
            assert(base.take((m - d) as int).last() == cs@[m - 1]);
            assert(last_index_of(base, '.') == Some((m - 1 - d) as int));
        }
        if m - 1 == d {
            proof {
                assert(stem_len(base) == base.len() as int);
            }
            n - d
        } else {
            proof {
                assert(stem_len(base) == (m - 1 - d) as int);
            }
            m - 1 - d
        }
    };
    let stop: usize = d + sl;
    let mut out: Vec<char> = Vec::new();
    let mut i: usize = 0;
    while i < stop
        invariant
            0 <= i <= stop <= n,
            n == cs@.len(),
            cs@ == tree_path@,
            out@ == cs@.take(i as int),
        decreases stop - i,
    {
        out.push(cs[i]);
        proof {
            assert(cs@.take(i + 1 as int) =~= cs@.take(i as int).push(cs@[i as int]));
        }
        i = i + 1;
    }
    out.push('_');
    out.push('t');
    out.push('e');
    out.push('s');
    out.push('t');
    out.push('.');
    out.push('r');
    out.push('s');
    proof {
        assert(out@ =~= cs@.take(stop as int) + seq!['_', 't', 'e', 's', 't', '.', 'r', 's']);
        assert(out@ =~= derived_test_path_spec(tree_path@));
    }
    crate::chars::chars_to_string(&out)
}

/// Check a real test file against its specification tree.
///
/// Fails exactly when the tree is not a root.  With no source text the
/// one violation is the missing file.  With source text the grammar
/// decides: a rejected source yields exactly its one unreadable-file
/// violation, and an accepted one yields exactly what comparing the
/// source's own document against the tree finds, as
/// [`tree_violation_kinds`] says.  Every violation names the checked
/// file.
pub fn check(tree: &SpecNode, rust_source: Option<&str>, file_path: &str, cfg: &Config) -> (r:
    Result<Vec<Violation>, StructureError>)
    ensures
        r is Ok <==> (*tree) is Root,
        r matches Err(e) ==> e == StructureError::NotRoot,
        r matches Ok(vs) ==> (forall|i: int|
            0 <= i < vs@.len() ==> (#[trigger] vs@[i]).file_path@ == file_path@),
        r matches Ok(vs) ==> match rust_source {
            None => kinds_of(vs@) == seq![ViolationKindV::RustFileMissing],
            Some(src) => {
                &&& (!source_parses(src@) ==> kinds_of(vs@) == seq![
                    ViolationKindV::RustFileInvalid(parse_error_of(src@)),
                ])
                &&& (source_parses(src@) ==> kinds_of(vs@) == tree_violation_kinds(
                    *tree,
                    doc_of_source(src@),
                    cfg.skip_helpers,
                ))
            },
        },
{
    let translator = Translator::new(cfg.format_descriptions, cfg.skip_helpers);
    let hir = match translator.translate(tree) {
        Ok(hir) => hir,
        Err(e) => {
            return Err(e);
        },
    };
    match rust_source {
        None => {
            let vs = vec![
                Violation::new(ViolationKind::RustFileMissing, String::from_str(file_path)),
            ];
            proof {
                assert(kinds_of(vs@) =~= seq![ViolationKindV::RustFileMissing]);
            }
            Ok(vs)
        },
        Some(src) => {
            match ParsedRustFile::parse(src) {
                Err(e) => {
                    let vs = vec![
                        Violation::new(
                            ViolationKind::RustFileInvalid(e),
                            String::from_str(file_path),
                        ),
                    ];
                    proof {
                        assert(kinds_of(vs@) =~= seq![
                            ViolationKindV::RustFileInvalid(parse_error_of(src@)),
                        ]);
                    }
                    Ok(vs)
                },
                Ok(parsed) => {
                    let doc = parsed.to_document();
                    proof {
                        assert(doc@ == doc_of_source(src@));
                    }
                    match &hir {
                        Hir::Root(root) => {
                            let vs = check_structural_match(
                                root,
                                &doc,
                                file_path,
                                cfg.skip_helpers,
                            );
                            proof {
                                crate::laws::lemma_checker_verdict_of_tree(
                                    *root,
                                    *tree,
                                    doc_of_source(src@),
                                    cfg.skip_helpers,
                                    cfg.format_descriptions,
                                );
                                assert(kinds_of(vs@) == tree_violation_kinds(
                                    *tree,
                                    doc_of_source(src@),
                                    cfg.skip_helpers,
                                ));
                            }
                            Ok(vs)
                        },
                        _ => {
                            proof {
                                assert(false);
                            }
                            Ok(Vec::new())
                        },
                    }
                },
            }
        },
    }
}

/// What one pass of checking and repairing a file produced.
pub struct FixOutcome {
    /// The violations found before repairing.
    pub violations: Vec<Violation>,
    /// The repaired source text, when there was a document to repair.
    pub output: Option<String>,
    /// How many of the violations the repair could address.
    pub fixed: usize,
}

/// Check a real test file against its specification tree and repair
/// what can be repaired.
///
/// Fails exactly when the tree is not a root.  A missing or unreadable
/// file yields only its violation and no output; those violations are
/// the only unfixable kinds.  Otherwise the violations are exactly what
/// checking the source's own document finds, and the output is the
/// emitted text of a repaired document that keeps the file top as a
/// prefix and every container declaration's name; when the expected
/// test names are distinct, that document checks clean.
pub fn check_and_fix(tree: &SpecNode, rust_source: Option<&str>, file_path: &str, cfg: &Config)
    -> (r: Result<FixOutcome, StructureError>)
    ensures
        r is Ok <==> (*tree) is Root,
        r matches Err(e) ==> e == StructureError::NotRoot,
        r matches Ok(o) ==> {
            &&& o.fixed == spec_count_fixable(kinds_of(o.violations@))
            &&& (rust_source is None ==> kinds_of(o.violations@) == seq![
                ViolationKindV::RustFileMissing,
            ])
            &&& (match rust_source {
                Some(src) => o.output is Some <==> source_parses(src@),
                None => o.output is None,
            })
            &&& (match rust_source {
                Some(src) => {
                    &&& (!source_parses(src@) ==> kinds_of(o.violations@) == seq![
                        ViolationKindV::RustFileInvalid(parse_error_of(src@)),
                    ])
                    &&& (source_parses(src@) ==> kinds_of(o.violations@)
                        == tree_violation_kinds(
                        *tree,
                        doc_of_source(src@),
                        cfg.skip_helpers,
                    ))
                    &&& (o.output matches Some(s) ==> exists|docv: DocumentV|
                        {
                            &&& s@ == #[trigger] emit_document_spec(
                                docv,
                                cfg.format_descriptions,
                            )
                            &&& docv.container_present
                            &&& (distinct_seqs(info_names(tree_test_infos(*tree)))
                                ==> tree_violation_kinds(
                                    *tree,
                                    docv,
                                    cfg.skip_helpers,
                                ) =~= Seq::<ViolationKindV>::empty())
                            &&& (doc_of_source(src@).container_present ==> {
                                let before = doc_of_source(src@);
                                &&& docv.top.len() >= before.top.len()
                                &&& docv.top.take(before.top.len() as int) == before.top
                                &&& (forall|j: int|
                                    before.top.len() <= j < docv.top.len() ==> (
                                    #[trigger] docv.top[j]).kind is Helper)
                                &&& (forall|m: Seq<char>|
                                    #[trigger] decl_names(before.decls).contains(m)
                                        ==> decl_names(docv.decls).contains(m))
                            })
                        })
                },
                None => true,
            })
        },
{
    let translator = Translator::new(cfg.format_descriptions, cfg.skip_helpers);
    let hir = match translator.translate(tree) {
        Ok(hir) => hir,
        Err(e) => {
            return Err(e);
        },
    };
    match rust_source {
        None => {
            let vs = vec![
                Violation::new(ViolationKind::RustFileMissing, String::from_str(file_path)),
            ];
            let fixed = crate::violation::count_fixable(&vs);
            proof {
                assert(kinds_of(vs@) =~= seq![ViolationKindV::RustFileMissing]);
            }
            Ok(FixOutcome { violations: vs, output: None, fixed })
        },
        Some(src) => {
            match ParsedRustFile::parse(src) {
                Err(e) => {
                    let vs = vec![
                        Violation::new(
                            ViolationKind::RustFileInvalid(e),
                            String::from_str(file_path),
                        ),
                    ];
                    let fixed = crate::violation::count_fixable(&vs);
                    proof {
                        assert(kinds_of(vs@) =~= seq![
                            ViolationKindV::RustFileInvalid(parse_error_of(src@)),
                        ]);
                    }
                    Ok(FixOutcome { violations: vs, output: None, fixed })
                },
                Ok(parsed) => {
                    let doc = parsed.to_document();
                    proof {
                        assert(doc@ == doc_of_source(src@));
                    }
                    match &hir {
                        Hir::Root(root) => {
                            let vs = check_structural_match(
                                root,
                                &doc,
                                file_path,
                                cfg.skip_helpers,
                            );
                            let fixed = crate::violation::count_fixable(&vs);
                            let repaired = fix(root, doc, cfg.skip_helpers);
                            let emitter = Emitter::new(cfg.format_descriptions);
                            let output = emitter.emit_document(&repaired);
                            proof {
                                crate::laws::lemma_checker_verdict_of_tree(
                                    *root,
                                    *tree,
                                    doc_of_source(src@),
                                    cfg.skip_helpers,
                                    cfg.format_descriptions,
                                );
                                crate::laws::lemma_root_pins_checker_inputs(
                                    *root,
                                    *tree,
                                    cfg.skip_helpers,
                                    cfg.format_descriptions,
                                );
                                crate::laws::lemma_checker_verdict_of_tree(
                                    *root,
                                    *tree,
                                    repaired@,
                                    cfg.skip_helpers,
                                    cfg.format_descriptions,
                                );
                                assert(output@ == emit_document_spec(
                                    repaired@,
                                    cfg.format_descriptions,
                                ));
                            }
                            Ok(FixOutcome { violations: vs, output: Some(output), fixed })
                        },
                        _ => {
                            proof {
                                assert(false);
                            }
                            Ok(FixOutcome { violations: Vec::new(), output: None, fixed: 0 })
                        },
                    }
                },
            }
        },
    }
}

} // verus!
