//! Emission of source text from the high-level representation.
//!
//! The template is fixed: the context struct first, then one function
//! per helper, then the single test container holding one test function
//! per test unit, each with its comments.

use vstd::prelude::*;

use crate::comment::{format_comment, rendered_comment};
use crate::facts::{decl_views, Decl, DeclKind, DeclV, Document};
use crate::hir::{str_views, Attribute, Comment, ContextStruct, HelperFunction, Hir, Root, TestFunction};
use crate::slug::trim_chars;

verus! {

/// What one doc-comment line above a declaration reads as.
pub open spec fn emit_doc_line(text: Seq<char>) -> Seq<char> {
    "/// "@ + text + "\n"@
}

/// What the doc-comment lines of a declaration read as.
pub open spec fn emit_doc_lines(cs: Seq<Seq<char>>) -> Seq<char>
    decreases cs.len(),
{
    if cs.len() == 0 {
        Seq::empty()
    } else {
        emit_doc_lines(cs.drop_last()) + emit_doc_line(cs.last())
    }
}

/// What the body comments of a repaired test read as.
pub open spec fn emit_body_lines(cs: Seq<Seq<char>>, fmt: bool) -> Seq<char>
    decreases cs.len(),
{
    if cs.len() == 0 {
        Seq::empty()
    } else {
        emit_body_lines(cs.drop_last(), fmt) + "        // "@ + rendered_comment(cs.last(), fmt)
            + "\n"@
    }
}

/// What one declaration above the container is emitted as.
pub open spec fn emit_top_decl_spec(d: DeclV) -> Seq<char> {
    match d.kind {
        DeclKind::Context => emit_doc_lines(d.comments) + "struct "@ + d.name + " {}\n"@,
        _ => "\n"@ + emit_doc_lines(d.comments) + "fn "@ + d.name + "() {\n}\n"@,
    }
}

/// What the declarations above the container are emitted as.
pub open spec fn emit_top_decls_spec(ds: Seq<DeclV>) -> Seq<char>
    decreases ds.len(),
{
    if ds.len() == 0 {
        Seq::empty()
    } else {
        emit_top_decls_spec(ds.drop_last()) + emit_top_decl_spec(ds.last())
    }
}

/// What one declaration inside the container is emitted as.
pub open spec fn emit_container_decl_spec(d: DeclV, fmt: bool) -> Seq<char> {
    match d.kind {
        DeclKind::Test => "\n    #[test]\n"@ + (if d.should_panic {
            "    #[should_panic]\n"@
        } else {
            Seq::<char>::empty()
        }) + "    fn "@ + d.name + "() {\n"@ + emit_body_lines(d.comments, fmt) + "    }\n"@,
        _ => "\n    fn "@ + d.name + "() {\n    }\n"@,
    }
}

/// What the declarations inside the container are emitted as.
pub open spec fn emit_container_decls_spec(ds: Seq<DeclV>, fmt: bool) -> Seq<char>
    decreases ds.len(),
{
    if ds.len() == 0 {
        Seq::empty()
    } else {
        emit_container_decls_spec(ds.drop_last(), fmt) + emit_container_decl_spec(ds.last(), fmt)
    }
}

/// What a whole structural document is emitted as: the declarations
/// above the container, then the container holding the rest.
pub open spec fn emit_document_spec(doc: crate::facts::DocumentV, fmt: bool) -> Seq<char> {
    emit_top_decls_spec(doc.top) + "\n#[cfg(test)]\nmod tests {\n"@ + emit_container_decls_spec(
        doc.decls,
        fmt,
    ) + "}\n"@
}

/// What the context struct is emitted as.
pub open spec fn emit_context_spec(c: ContextStruct) -> Seq<char> {
    (match c.doc {
        Some(d) => "/// "@ + d@ + "\n"@,
        None => Seq::<char>::empty(),
    }) + "struct "@ + c.name@ + " {}\n"@
}

/// What one helper function is emitted as.
pub open spec fn emit_helper_spec(h: HelperFunction) -> Seq<char> {
    "\n"@ + (match h.doc {
        Some(d) => "/// "@ + d@ + "\n"@,
        None => Seq::<char>::empty(),
    }) + "fn "@ + h.name@ + "() {\n}\n"@
}

/// What a list of helper functions is emitted as.
pub open spec fn emit_helpers_spec(hs: Seq<HelperFunction>) -> Seq<char>
    decreases hs.len(),
{
    if hs.len() == 0 {
        Seq::empty()
    } else {
        emit_helpers_spec(hs.drop_last()) + emit_helper_spec(hs.last())
    }
}

/// What one marker is emitted as.
pub open spec fn emit_attr_spec(a: Attribute) -> Seq<char> {
    match a {
        Attribute::Test => "    #[test]\n"@,
        Attribute::ShouldPanic => "    #[should_panic]\n"@,
    }
}

/// What a list of markers is emitted as.
pub open spec fn emit_attrs_spec(attrs: Seq<Attribute>) -> Seq<char>
    decreases attrs.len(),
{
    if attrs.len() == 0 {
        Seq::empty()
    } else {
        emit_attrs_spec(attrs.drop_last()) + emit_attr_spec(attrs.last())
    }
}

/// What one body comment is emitted as.
pub open spec fn emit_comment_spec(c: Comment) -> Seq<char> {
    "        // "@ + rendered_comment(c.text@, c.format) + "\n"@
}

/// What a list of body comments is emitted as.
pub open spec fn emit_comments_spec(cs: Seq<Comment>) -> Seq<char>
    decreases cs.len(),
{
    if cs.len() == 0 {
        Seq::empty()
    } else {
        emit_comments_spec(cs.drop_last()) + emit_comment_spec(cs.last())
    }
}

/// What one test function is emitted as.
pub open spec fn emit_test_spec(t: TestFunction) -> Seq<char> {
    "\n"@ + emit_attrs_spec(t.attributes@) + "    fn "@ + t.name@ + "() {\n"@ + emit_comments_spec(
        t.comments@,
    ) + "    }\n"@
}

/// What a list of test functions is emitted as.
pub open spec fn emit_tests_spec(ts: Seq<TestFunction>) -> Seq<char>
    decreases ts.len(),
{
    if ts.len() == 0 {
        Seq::empty()
    } else {
        emit_tests_spec(ts.drop_last()) + emit_test_spec(ts.last())
    }
}

/// What a whole translated file is emitted as.
pub open spec fn emit_root_spec(root: Root) -> Seq<char> {
    emit_context_spec(root.context) + emit_helpers_spec(root.helpers@) + "\n#[cfg(test)]\nmod "@
        + root.module.name@ + " {\n"@ + emit_tests_spec(root.module.tests@) + "}\n"@
}

/// Render one comment: formatted if it asks for it, trimmed otherwise.
fn render_comment(c: &Comment) -> (r: String)
    ensures
        r@ == rendered_comment(c.text@, c.format),
{
    if c.format {
        format_comment(c.text.as_str())
    } else {
        let cs = crate::chars::str_to_chars(c.text.as_str());
        let t = trim_chars(&cs);
        crate::chars::chars_to_string(&t)
    }
}

/// Emits source text from the high-level representation.
#[derive(Debug, Clone)]
pub struct Emitter {
    /// Whether descriptions are capitalized and punctuated; recorded
    /// for callers, the comments themselves carry their own flag.
    format_descriptions: bool,
}

impl Emitter {
    /// Create an emitter.
    pub fn new(format_descriptions: bool) -> (r: Self)
        ensures
            r.spec_format_descriptions() == format_descriptions,
    {
        Emitter { format_descriptions }
    }

    /// Whether descriptions are capitalized and punctuated.
    pub closed spec fn spec_format_descriptions(&self) -> bool {
        self.format_descriptions
    }

    /// Emit the source text of a translated file.  Anything but a root
    /// emits nothing.
    pub fn emit(&self, hir: &Hir) -> (r: String)
        ensures
            hir matches Hir::Root(root) ==> r@ == emit_root_spec(*root),
            !(hir is Root) ==> r@ == Seq::<char>::empty(),
    {
        match hir {
            Hir::Root(root) => self.emit_root(root),
            _ => String::new(),
        }
    }

    /// Emit the context struct.
    fn emit_context(&self, c: &ContextStruct, out: &mut String)
        ensures
            final(out)@ == old(out)@ + emit_context_spec(*c),
    {
        match &c.doc {
            Some(d) => {
                out.append("/// ");
                out.append(d.as_str());
                out.append("\n");
            },
            None => {},
        }
        out.append("struct ");
        out.append(c.name.as_str());
        out.append(" {}\n");
    }

    /// Emit one helper function.
    fn emit_helper(&self, h: &HelperFunction, out: &mut String)
        ensures
            final(out)@ == old(out)@ + emit_helper_spec(*h),
    {
        out.append("\n");
        match &h.doc {
            Some(d) => {
                out.append("/// ");
                out.append(d.as_str());
                out.append("\n");
            },
            None => {},
        }
        out.append("fn ");
        out.append(h.name.as_str());
        out.append("() {\n}\n");
    }

    /// Emit one test function.
    fn emit_test(&self, t: &TestFunction, out: &mut String)
        ensures
            final(out)@ == old(out)@ + emit_test_spec(*t),
    {
        out.append("\n");
        let mut i: usize = 0;
        proof {
            assert(t.attributes@.take(0) =~= Seq::<Attribute>::empty());
        }
        while i < t.attributes.len()
            invariant
                0 <= i <= t.attributes@.len(),
                out@ == old(out)@ + "\n"@ + emit_attrs_spec(t.attributes@.take(i as int)),
            decreases t.attributes@.len() - i,
        {
            proof {
                let p = t.attributes@.take(i + 1 as int);
                assert(p.drop_last() =~= t.attributes@.take(i as int));
                assert(p.last() == t.attributes@[i as int]);
            }
            match t.attributes[i] {
                Attribute::Test => {
                    out.append("    #[test]\n");
                },
                Attribute::ShouldPanic => {
                    out.append("    #[should_panic]\n");
                },
            }
            proof {
                assert(out@ =~= old(out)@ + "\n"@ + emit_attrs_spec(
                    t.attributes@.take(i + 1 as int),
                ));
            }
            i = i + 1;
        }
        proof {
            assert(t.attributes@.take(t.attributes@.len() as int) =~= t.attributes@);
        }
        out.append("    fn ");
        out.append(t.name.as_str());
        out.append("() {\n");
        let ghost mid = out@;
        let mut j: usize = 0;
        proof {
            assert(t.comments@.take(0) =~= Seq::<Comment>::empty());
            assert(out@ =~= mid + emit_comments_spec(t.comments@.take(0)));
        }
        while j < t.comments.len()
            invariant
                0 <= j <= t.comments@.len(),
                out@ == mid + emit_comments_spec(t.comments@.take(j as int)),
            decreases t.comments@.len() - j,
        {
            proof {
                let p = t.comments@.take(j + 1 as int);
                assert(p.drop_last() =~= t.comments@.take(j as int));
                assert(p.last() == t.comments@[j as int]);
            }
            out.append("        // ");
            let rendered = render_comment(&t.comments[j]);
            out.append(rendered.as_str());
            out.append("\n");
            proof {
                assert(out@ =~= mid + emit_comments_spec(t.comments@.take(j + 1 as int)));
            }
            j = j + 1;
        }
        proof {
            assert(t.comments@.take(t.comments@.len() as int) =~= t.comments@);
        }
        out.append("    }\n");
        proof {
            assert(out@ =~= old(out)@ + emit_test_spec(*t));
        }
    }

    /// Emit a whole translated file.
    fn emit_root(&self, root: &Root) -> (r: String)
        ensures
            r@ == emit_root_spec(*root),
    {
        let mut out = String::new();
        self.emit_context(&root.context, &mut out);
        let ghost after_ctx = out@;
        let mut i: usize = 0;
        proof {
            assert(root.helpers@.take(0) =~= Seq::<HelperFunction>::empty());
            assert(out@ =~= after_ctx + emit_helpers_spec(root.helpers@.take(0)));
        }
        while i < root.helpers.len()
            invariant
                0 <= i <= root.helpers@.len(),
                out@ == after_ctx + emit_helpers_spec(root.helpers@.take(i as int)),
            decreases root.helpers@.len() - i,
        {
            proof {
                let p = root.helpers@.take(i + 1 as int);
                assert(p.drop_last() =~= root.helpers@.take(i as int));
                assert(p.last() == root.helpers@[i as int]);
            }
            self.emit_helper(&root.helpers[i], &mut out);
            proof {
                assert(out@ =~= after_ctx + emit_helpers_spec(root.helpers@.take(i + 1 as int)));
            }
            i = i + 1;
        }
        proof {
            assert(root.helpers@.take(root.helpers@.len() as int) =~= root.helpers@);
        }
        out.append("\n#[cfg(test)]\nmod ");
        out.append(root.module.name.as_str());
        out.append(" {\n");
        let ghost before_tests = out@;
        let mut j: usize = 0;
        proof {
            assert(root.module.tests@.take(0) =~= Seq::<TestFunction>::empty());
            assert(out@ =~= before_tests + emit_tests_spec(root.module.tests@.take(0)));
        }
        while j < root.module.tests.len()
            invariant
                0 <= j <= root.module.tests@.len(),
                out@ == before_tests + emit_tests_spec(root.module.tests@.take(j as int)),
            decreases root.module.tests@.len() - j,
        {
            proof {
                let p = root.module.tests@.take(j + 1 as int);
                assert(p.drop_last() =~= root.module.tests@.take(j as int));
                assert(p.last() == root.module.tests@[j as int]);
            }
            self.emit_test(&root.module.tests[j], &mut out);
            proof {
                assert(out@ =~= before_tests + emit_tests_spec(
                    root.module.tests@.take(j + 1 as int),
                ));
            }
            j = j + 1;
        }
        proof {
            assert(root.module.tests@.take(root.module.tests@.len() as int)
                =~= root.module.tests@);
        }
        out.append("}\n");
        proof {
            assert(out@ =~= emit_root_spec(*root));
        }
        out
    }

    /// Emit one declaration above the container.
    fn emit_top_decl(&self, d: &Decl, out: &mut String)
        ensures
            final(out)@ == old(out)@ + emit_top_decl_spec(d@),
    {
        let is_context = match d.kind {
            DeclKind::Context => true,
            _ => false,
        };
        if !is_context {
            out.append("\n");
        }
        self.emit_doc_comments(&d.comments, out);
        if is_context {
            out.append("struct ");
            out.append(d.name.as_str());
            out.append(" {}\n");
        } else {
            out.append("fn ");
            out.append(d.name.as_str());
            out.append("() {\n}\n");
        }
    }

    /// Emit one declaration inside the container.
    fn emit_container_decl(&self, d: &Decl, out: &mut String)
        ensures
            final(out)@ == old(out)@ + emit_container_decl_spec(
                d@,
                self.spec_format_descriptions(),
            ),
    {
        let is_test = match d.kind {
            DeclKind::Test => true,
            _ => false,
        };
        if is_test {
            out.append("\n    #[test]\n");
            if d.should_panic {
                out.append("    #[should_panic]\n");
            }
            out.append("    fn ");
            out.append(d.name.as_str());
            out.append("() {\n");
            self.emit_body_comments(&d.comments, self.format_descriptions, out);
            out.append("    }\n");
        } else {
            out.append("\n    fn ");
            out.append(d.name.as_str());
            out.append("() {\n    }\n");
        }
    }

    /// Emit the source text of a repaired structural document.
    pub fn emit_document(&self, doc: &Document) -> (r: String)
        ensures
            r@ == emit_document_spec(doc@, self.spec_format_descriptions()),
    {
        let mut out = String::new();
        let mut i: usize = 0;
        proof {
            assert(doc.top@.take(0) =~= Seq::<crate::facts::Decl>::empty());
            assert(decl_views(doc.top@.take(0)) =~= Seq::<DeclV>::empty());
            assert(out@ =~= emit_top_decls_spec(decl_views(doc.top@.take(0))));
        }
        while i < doc.top.len()
            invariant
                0 <= i <= doc.top@.len(),
                out@ == emit_top_decls_spec(decl_views(doc.top@.take(i as int))),
            decreases doc.top@.len() - i,
        {
            proof {
                assert(doc.top@.take(i + 1 as int) =~= doc.top@.take(i as int).push(
                    doc.top@[i as int],
                ));
                let s1 = decl_views(doc.top@.take(i + 1 as int));
                assert(s1 =~= decl_views(doc.top@.take(i as int)).push(doc.top@[i as int]@));
                assert(s1.drop_last() =~= decl_views(doc.top@.take(i as int)));
                assert(s1.last() == doc.top@[i as int]@);
            }
            self.emit_top_decl(&doc.top[i], &mut out);
            proof {
                assert(out@ =~= emit_top_decls_spec(decl_views(doc.top@.take(i + 1 as int))));
            }
            i = i + 1;
        }
        proof {
            assert(doc.top@.take(doc.top@.len() as int) =~= doc.top@);
        }
        out.append("\n#[cfg(test)]\nmod tests {\n");
        let ghost mid = out@;
        let mut j: usize = 0;
        proof {
            assert(doc.decls@.take(0) =~= Seq::<crate::facts::Decl>::empty());
            assert(decl_views(doc.decls@.take(0)) =~= Seq::<DeclV>::empty());
            assert(out@ =~= mid + emit_container_decls_spec(
                decl_views(doc.decls@.take(0)),
                self.spec_format_descriptions(),
            ));
        }
        while j < doc.decls.len()
            invariant
                0 <= j <= doc.decls@.len(),
                out@ == mid + emit_container_decls_spec(
                    decl_views(doc.decls@.take(j as int)),
                    self.spec_format_descriptions(),
                ),
            decreases doc.decls@.len() - j,
        {
            proof {
                assert(doc.decls@.take(j + 1 as int) =~= doc.decls@.take(j as int).push(
                    doc.decls@[j as int],
                ));
                let s1 = decl_views(doc.decls@.take(j + 1 as int));
                assert(s1 =~= decl_views(doc.decls@.take(j as int)).push(doc.decls@[j as int]@));
                assert(s1.drop_last() =~= decl_views(doc.decls@.take(j as int)));
                assert(s1.last() == doc.decls@[j as int]@);
            }
            self.emit_container_decl(&doc.decls[j], &mut out);
            proof {
                assert(out@ =~= mid + emit_container_decls_spec(
                    decl_views(doc.decls@.take(j + 1 as int)),
                    self.spec_format_descriptions(),
                ));
            }
            j = j + 1;
        }
        proof {
            assert(doc.decls@.take(doc.decls@.len() as int) =~= doc.decls@);
        }
        out.append("}\n");
        proof {
            assert(out@ =~= emit_document_spec(doc@, self.spec_format_descriptions()));
        }
        out
    }

    /// Emit the doc-comment lines of a repaired declaration.
    fn emit_doc_comments(&self, cs: &Vec<String>, out: &mut String)
        ensures
            final(out)@ == old(out)@ + emit_doc_lines(str_views(cs@)),
    {
        let mut i: usize = 0;
        proof {
            assert(str_views(cs@.take(0)) =~= Seq::<Seq<char>>::empty());
            assert(out@ =~= old(out)@ + emit_doc_lines(str_views(cs@.take(0))));
        }
        while i < cs.len()
            invariant
                0 <= i <= cs@.len(),
                out@ == old(out)@ + emit_doc_lines(str_views(cs@.take(i as int))),
            decreases cs@.len() - i,
        {
            proof {
                assert(cs@.take(i + 1 as int) =~= cs@.take(i as int).push(cs@[i as int]));
                let s1 = str_views(cs@.take(i + 1 as int));
                assert(s1 =~= str_views(cs@.take(i as int)).push(cs@[i as int]@));
                assert(s1.drop_last() =~= str_views(cs@.take(i as int)));
                assert(s1.last() == cs@[i as int]@);
            }
            out.append("/// ");
            out.append(cs[i].as_str());
            out.append("\n");
            proof {
                assert(out@ =~= old(out)@ + emit_doc_lines(str_views(cs@.take(i + 1 as int))));
            }
            i = i + 1;
        }
        proof {
            assert(cs@.take(cs@.len() as int) =~= cs@);
        }
    }

    /// Emit the body comments of a repaired test.
    fn emit_body_comments(&self, cs: &Vec<String>, fmt: bool, out: &mut String)
        ensures
            final(out)@ == old(out)@ + emit_body_lines(str_views(cs@), fmt),
    {
        let mut i: usize = 0;
        proof {
            assert(str_views(cs@.take(0)) =~= Seq::<Seq<char>>::empty());
            assert(out@ =~= old(out)@ + emit_body_lines(str_views(cs@.take(0)), fmt));
        }
        while i < cs.len()
            invariant
                0 <= i <= cs@.len(),
                out@ == old(out)@ + emit_body_lines(str_views(cs@.take(i as int)), fmt),
            decreases cs@.len() - i,
        {
            proof {
                assert(cs@.take(i + 1 as int) =~= cs@.take(i as int).push(cs@[i as int]));
                let s1 = str_views(cs@.take(i + 1 as int));
                assert(s1 =~= str_views(cs@.take(i as int)).push(cs@[i as int]@));
                assert(s1.drop_last() =~= str_views(cs@.take(i as int)));
                assert(s1.last() == cs@[i as int]@);
            }
            out.append("        // ");
            let c = Comment { text: cs[i].clone(), format: fmt };
            let rendered = render_comment(&c);
            out.append(rendered.as_str());
            out.append("\n");
            proof {
                assert(out@ =~= old(out)@ + emit_body_lines(
                    str_views(cs@.take(i + 1 as int)),
                    fmt,
                ));
            }
            i = i + 1;
        }
        proof {
            assert(cs@.take(cs@.len() as int) =~= cs@);
        }
    }
}

} // verus!
