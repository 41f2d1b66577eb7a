//! Extraction of structural facts from real Rust source text.
//!
//! The native grammar does the parsing; the classification into a
//! structural document is the library's own: the canonical container is
//! a module carrying `#[cfg(test)]`, the test-like units inside it are
//! the functions carrying `#[test]`, the helper-like units are the
//! top-level functions without `#[test]`, and the expected-failure
//! marker is `#[should_panic]`.
//!
//! What the grammar hands back is named, not spelled out: [`parse_of`]
//! stands for the parse outcome of a source text, and the accessor
//! names below it stand for what the syntax tree holds at each
//! position.  Everything the classification reads goes through these
//! names, so [`ParsedRustFile::to_document`] can promise exactly which
//! document a given source text yields: [`doc_of_source`].

use vstd::prelude::*;

use crate::chars::{contains_chars, str_to_chars};
use crate::facts::{Decl, DeclKind, DeclV, Document, DocumentV};

verus! {

#[verifier::external_type_specification]
#[verifier::external_body]
pub struct ExSynFile(syn::File);

#[verifier::external_type_specification]
#[verifier::external_body]
pub struct ExSynItem(syn::Item);

#[verifier::external_type_specification]
#[verifier::external_body]
pub struct ExSynItemFn(syn::ItemFn);

#[verifier::external_type_specification]
#[verifier::external_body]
pub struct ExSynItemMod(syn::ItemMod);

#[verifier::external_type_specification]
#[verifier::external_body]
pub struct ExSynItemStruct(syn::ItemStruct);

/// What parsing a source text yields: the syntax tree when the grammar
/// accepts, the parser's message when it rejects.  A name for the
/// outcome of `syn::parse_file`, which depends on the text alone.
pub uninterp spec fn parse_of(s: Seq<char>) -> Result<syn::File, Seq<char>>;

/// Whether the grammar accepts a source text.
pub open spec fn source_parses(s: Seq<char>) -> bool {
    parse_of(s) is Ok
}

/// The parser's message for a rejected source text.
pub open spec fn parse_error_of(s: Seq<char>) -> Seq<char> {
    parse_of(s)->Err_0
}

/// Relies on `syn::parse_file` for the grammar, and on
/// `syn::Error::to_string` for the message of a rejected input; both
/// depend on the source text alone.
#[verifier::external_body]
fn syn_parse_file(source: &str) -> (r: Result<syn::File, String>)
    ensures
        r is Ok <==> parse_of(source@) is Ok,
        r matches Ok(f) ==> f == parse_of(source@)->Ok_0,
        r matches Err(e) ==> e@ == parse_of(source@)->Err_0,
{
    match syn::parse_file(source) {
        Ok(f) => Ok(f),
        Err(e) => Err(e.to_string()),
    }
}

/// What kind of construct stands at a position of the syntax tree.
#[derive(Debug, Clone, Copy, PartialEq, Eq, Structural)]
pub enum ItemKind {
    /// A function.
    Function,
    /// A module.
    Module,
    /// A struct.
    Struct,
    /// Anything else.
    Other,
}

// Names for what the syntax tree holds.  Each is a pure function of
// the tree value and the positions; out-of-range positions read as
// whatever the name says of them, and the wrappers below fix that.

/// How many items the file holds.
pub uninterp spec fn item_count(f: syn::File) -> int;

/// What kind of item stands at a position.
pub uninterp spec fn item_kind(f: syn::File, i: int) -> ItemKind;

/// The name of the item at a position; empty for unnamed items.
pub uninterp spec fn item_name(f: syn::File, i: int) -> Seq<char>;

/// How many attributes the item at a position carries.
pub uninterp spec fn attr_count(f: syn::File, i: int) -> int;

/// The single-identifier path of one attribute of one item, if its
/// path is one identifier.
pub uninterp spec fn attr_ident(f: syn::File, i: int, j: int) -> Option<Seq<char>>;

/// The parenthesized arguments of one attribute of one item, as text,
/// if it has any.
pub uninterp spec fn attr_args(f: syn::File, i: int, j: int) -> Option<Seq<char>>;

/// How many items the module at a position holds inline; zero for
/// anything that is not a module with an inline body.
pub uninterp spec fn child_count(f: syn::File, i: int) -> int;

/// What kind of item stands at a position inside a module.
pub uninterp spec fn child_kind(f: syn::File, i: int, j: int) -> ItemKind;

/// The name of the item at a position inside a module.
pub uninterp spec fn child_name(f: syn::File, i: int, j: int) -> Seq<char>;

/// How many attributes the item at a position inside a module carries.
pub uninterp spec fn child_attr_count(f: syn::File, i: int, j: int) -> int;

/// The single-identifier path of one attribute of one item inside a
/// module.
pub uninterp spec fn child_attr_ident(f: syn::File, i: int, j: int, k: int) -> Option<Seq<char>>;

/// Relies on the public `items` field of `syn::File`: how many items
/// the file holds.
#[verifier::external_body]
fn file_item_count(f: &syn::File) -> (r: usize)
    ensures
        r == item_count(*f),
{
    f.items.len()
}

/// Relies on the `syn::Item` variants: what kind of item stands at a
/// position.
#[verifier::external_body]
fn file_item_kind(f: &syn::File, i: usize) -> (r: ItemKind)
    ensures
        r == item_kind(*f, i as int),
{
    match f.items.get(i) {
        Some(syn::Item::Fn(_)) => ItemKind::Function,
        Some(syn::Item::Mod(_)) => ItemKind::Module,
        Some(syn::Item::Struct(_)) => ItemKind::Struct,
        _ => ItemKind::Other,
    }
}

/// Relies on the idents of `syn::ItemFn`, `syn::ItemMod` and
/// `syn::ItemStruct`, and `Ident::to_string`: the name of the item at
/// a position.
#[verifier::external_body]
fn file_item_name(f: &syn::File, i: usize) -> (r: String)
    ensures
        r@ == item_name(*f, i as int),
{
    match f.items.get(i) {
        Some(syn::Item::Fn(x)) => x.sig.ident.to_string(),
        Some(syn::Item::Mod(x)) => x.ident.to_string(),
        Some(syn::Item::Struct(x)) => x.ident.to_string(),
        _ => String::new(),
    }
}

/// Relies on the public `attrs` fields of `syn::ItemFn`, `syn::ItemMod`
/// and `syn::ItemStruct`: how many attributes the item at a position
/// carries.
#[verifier::external_body]
fn file_attr_count(f: &syn::File, i: usize) -> (r: usize)
    ensures
        r == attr_count(*f, i as int),
{
    match f.items.get(i) {
        Some(syn::Item::Fn(x)) => x.attrs.len(),
        Some(syn::Item::Mod(x)) => x.attrs.len(),
        Some(syn::Item::Struct(x)) => x.attrs.len(),
        _ => 0,
    }
}

/// Relies on `syn::Attribute::path`, `syn::Path::get_ident` and
/// `Ident::to_string`: the single-identifier path of one attribute of
/// one item.
#[verifier::external_body]
fn file_attr_ident(f: &syn::File, i: usize, j: usize) -> (r: Option<String>)
    ensures
        r is Some <==> attr_ident(*f, i as int, j as int) is Some,
        r matches Some(s) ==> attr_ident(*f, i as int, j as int) == Some(s@),
{
    let attrs = match f.items.get(i) {
        Some(syn::Item::Fn(x)) => Some(&x.attrs),
        Some(syn::Item::Mod(x)) => Some(&x.attrs),
        Some(syn::Item::Struct(x)) => Some(&x.attrs),
        _ => None,
    };
    attrs.and_then(|a| a.get(j)).and_then(|a| a.path().get_ident()).map(|id| id.to_string())
}

/// Relies on `syn::Meta::require_list` and `TokenStream::to_string`:
/// the parenthesized arguments of one attribute of one item, as text.
#[verifier::external_body]
fn file_attr_args(f: &syn::File, i: usize, j: usize) -> (r: Option<String>)
    ensures
        r is Some <==> attr_args(*f, i as int, j as int) is Some,
        r matches Some(s) ==> attr_args(*f, i as int, j as int) == Some(s@),
{
    let attrs = match f.items.get(i) {
        Some(syn::Item::Fn(x)) => Some(&x.attrs),
        Some(syn::Item::Mod(x)) => Some(&x.attrs),
        Some(syn::Item::Struct(x)) => Some(&x.attrs),
        _ => None,
    };
    attrs.and_then(|a| a.get(j)).and_then(|a| a.meta.require_list().ok()).map(
        |l| l.tokens.to_string(),
    )
}

/// Relies on the public `content` field of `syn::ItemMod`: how many
/// items the module at a position holds inline.
#[verifier::external_body]
fn file_child_count(f: &syn::File, i: usize) -> (r: usize)
    ensures
        r == child_count(*f, i as int),
{
    match f.items.get(i) {
        Some(syn::Item::Mod(m)) => match &m.content {
            Some((_, items)) => items.len(),
            None => 0,
        },
        _ => 0,
    }
}

/// Relies on the `syn::Item` variants: what kind of item stands at a
/// position inside a module.
#[verifier::external_body]
fn file_child_kind(f: &syn::File, i: usize, j: usize) -> (r: ItemKind)
    ensures
        r == child_kind(*f, i as int, j as int),
{
    let items = match f.items.get(i) {
        Some(syn::Item::Mod(m)) => m.content.as_ref().map(|(_, it)| it),
        _ => None,
    };
    match items.and_then(|it| it.get(j)) {
        Some(syn::Item::Fn(_)) => ItemKind::Function,
        Some(syn::Item::Mod(_)) => ItemKind::Module,
        Some(syn::Item::Struct(_)) => ItemKind::Struct,
        _ => ItemKind::Other,
    }
}

/// Relies on the ident of `syn::ItemFn` and `Ident::to_string`: the
/// name of the item at a position inside a module.
#[verifier::external_body]
fn file_child_name(f: &syn::File, i: usize, j: usize) -> (r: String)
    ensures
        r@ == child_name(*f, i as int, j as int),
{
    let items = match f.items.get(i) {
        Some(syn::Item::Mod(m)) => m.content.as_ref().map(|(_, it)| it),
        _ => None,
    };
    match items.and_then(|it| it.get(j)) {
        Some(syn::Item::Fn(x)) => x.sig.ident.to_string(),
        Some(syn::Item::Mod(x)) => x.ident.to_string(),
        Some(syn::Item::Struct(x)) => x.ident.to_string(),
        _ => String::new(),
    }
}

/// Relies on the public `attrs` field of `syn::ItemFn`: how many
/// attributes the item at a position inside a module carries.
#[verifier::external_body]
fn file_child_attr_count(f: &syn::File, i: usize, j: usize) -> (r: usize)
    ensures
        r == child_attr_count(*f, i as int, j as int),
{
    let items = match f.items.get(i) {
        Some(syn::Item::Mod(m)) => m.content.as_ref().map(|(_, it)| it),
        _ => None,
    };
    match items.and_then(|it| it.get(j)) {
        Some(syn::Item::Fn(x)) => x.attrs.len(),
        _ => 0,
    }
}

/// Relies on `syn::Attribute::path`, `syn::Path::get_ident` and
/// `Ident::to_string`: the single-identifier path of one attribute of
/// one item inside a module.
#[verifier::external_body]
fn file_child_attr_ident(f: &syn::File, i: usize, j: usize, k: usize) -> (r: Option<String>)
    ensures
        r is Some <==> child_attr_ident(*f, i as int, j as int, k as int) is Some,
        r matches Some(s) ==> child_attr_ident(*f, i as int, j as int, k as int) == Some(s@),
{
    let items = match f.items.get(i) {
        Some(syn::Item::Mod(m)) => m.content.as_ref().map(|(_, it)| it),
        _ => None,
    };
    match items.and_then(|it| it.get(j)) {
        Some(syn::Item::Fn(x)) => {
            x.attrs.get(k).and_then(|a| a.path().get_ident()).map(|id| id.to_string())
        },
        _ => None,
    }
}

// The classification, at the spec level: what the names above say a
// source text's document is.

/// Whether the item at a position carries the attribute `#[<name>]`.
pub open spec fn spec_has_attr(f: syn::File, i: int, name: Seq<char>) -> bool {
    exists|j: int| 0 <= j < attr_count(f, i) && #[trigger] attr_ident(f, i, j) == Some(name)
}

/// Whether the item at a position inside a module carries the attribute
/// `#[<name>]`.
pub open spec fn spec_child_has_attr(f: syn::File, i: int, j: int, name: Seq<char>) -> bool {
    exists|k: int|
        0 <= k < child_attr_count(f, i, j) && #[trigger] child_attr_ident(f, i, j, k) == Some(
            name,
        )
}

/// Whether one attribute of one item is a `cfg` whose arguments mention
/// `test`.
pub open spec fn spec_is_cfg_test(f: syn::File, i: int, j: int) -> bool {
    &&& attr_ident(f, i, j) == Some("cfg"@)
    &&& match attr_args(f, i, j) {
        Some(a) => crate::chars::contains_sub(a, seq!['t', 'e', 's', 't']),
        None => false,
    }
}

/// Whether the item at a position is the canonical container: a module
/// carrying `#[cfg(test)]`.
pub open spec fn spec_is_container(f: syn::File, i: int) -> bool {
    &&& item_kind(f, i) is Module
    &&& exists|j: int| 0 <= j < attr_count(f, i) && #[trigger] spec_is_cfg_test(f, i, j)
}

/// The position of the first container at or after a position, if any.
pub open spec fn spec_container_at(f: syn::File, i: int) -> Option<int>
    decreases item_count(f) - i,
{
    if i < 0 || i >= item_count(f) {
        None
    } else if spec_is_container(f, i) {
        Some(i)
    } else {
        spec_container_at(f, i + 1)
    }
}

/// The document entry of the item at a top-level position: functions
/// without the test marker are helper-like, those with it are other;
/// structs hold context; the rest contributes nothing.
pub open spec fn spec_top_decl(f: syn::File, i: int) -> Seq<DeclV> {
    match item_kind(f, i) {
        ItemKind::Function => seq![
            DeclV {
                kind: if spec_has_attr(f, i, "test"@) {
                    DeclKind::Other
                } else {
                    DeclKind::Helper
                },
                name: item_name(f, i),
                should_panic: spec_has_attr(f, i, "should_panic"@),
                comments: Seq::empty(),
            },
        ],
        ItemKind::Struct => seq![
            DeclV {
                kind: DeclKind::Context,
                name: item_name(f, i),
                should_panic: false,
                comments: Seq::empty(),
            },
        ],
        _ => Seq::empty(),
    }
}

/// The document entries of the top-level items at and after a position.
pub open spec fn spec_top_decls(f: syn::File, i: int) -> Seq<DeclV>
    decreases item_count(f) - i,
{
    if i < 0 || i >= item_count(f) {
        Seq::empty()
    } else {
        spec_top_decl(f, i) + spec_top_decls(f, i + 1)
    }
}

/// The document entry of the item at a position inside the container:
/// functions with the test marker are test-like, those without are
/// other; the rest contributes nothing.
pub open spec fn spec_container_decl(f: syn::File, ci: int, j: int) -> Seq<DeclV> {
    if child_kind(f, ci, j) is Function {
        seq![
            DeclV {
                kind: if spec_child_has_attr(f, ci, j, "test"@) {
                    DeclKind::Test
                } else {
                    DeclKind::Other
                },
                name: child_name(f, ci, j),
                should_panic: spec_child_has_attr(f, ci, j, "should_panic"@),
                comments: Seq::empty(),
            },
        ]
    } else {
        Seq::empty()
    }
}

/// The document entries of the container's items at and after a
/// position.
pub open spec fn spec_container_decls(f: syn::File, ci: int, j: int) -> Seq<DeclV>
    decreases child_count(f, ci) - j,
{
    if j < 0 || j >= child_count(f, ci) {
        Seq::empty()
    } else {
        spec_container_decl(f, ci, j) + spec_container_decls(f, ci, j + 1)
    }
}

/// The structural document a syntax tree reduces to.
pub open spec fn doc_of_file(f: syn::File) -> DocumentV {
    DocumentV {
        container_present: spec_container_at(f, 0) is Some,
        top: spec_top_decls(f, 0),
        decls: match spec_container_at(f, 0) {
            Some(ci) => spec_container_decls(f, ci, 0),
            None => Seq::empty(),
        },
    }
}

/// The structural document a source text reduces to, when the grammar
/// accepts it.
pub open spec fn doc_of_source(s: Seq<char>) -> DocumentV {
    doc_of_file(parse_of(s)->Ok_0)
}

// The classification, executed against the names above.

/// Whether the item at a position carries the attribute `#[<name>]`.
fn item_has_attr(f: &syn::File, i: usize, name: &str) -> (r: bool)
    ensures
        r == spec_has_attr(*f, i as int, name@),
{
    let wanted = String::from_str(name);
    let n = file_attr_count(f, i);
    let mut j: usize = 0;
    while j < n
        invariant
            0 <= j <= n,
            n == attr_count(*f, i as int),
            wanted@ == name@,
            forall|t: int| 0 <= t < j ==> #[trigger] attr_ident(*f, i as int, t) != Some(name@),
        decreases n - j,
    {
        match file_attr_ident(f, i, j) {
            Some(id) => {
                if id == wanted {
                    proof {
                        assert(attr_ident(*f, i as int, j as int) == Some(name@));
                    }
                    return true;
                }
            },
            None => {},
        }
        j = j + 1;
    }
    proof {
        if spec_has_attr(*f, i as int, name@) {
            let t = choose|t: int|
                0 <= t < attr_count(*f, i as int) && #[trigger] attr_ident(*f, i as int, t)
                    == Some(name@);
            assert(attr_ident(*f, i as int, t) != Some(name@));
        }
    }
    false
}

/// Whether the item at a position inside a module carries the attribute
/// `#[<name>]`.
fn child_has_attr(f: &syn::File, i: usize, j: usize, name: &str) -> (r: bool)
    ensures
        r == spec_child_has_attr(*f, i as int, j as int, name@),
{
    let wanted = String::from_str(name);
    let n = file_child_attr_count(f, i, j);
    let mut k: usize = 0;
    while k < n
        invariant
            0 <= k <= n,
            n == child_attr_count(*f, i as int, j as int),
            wanted@ == name@,
            forall|t: int|
                0 <= t < k ==> #[trigger] child_attr_ident(*f, i as int, j as int, t) != Some(
                    name@,
                ),
        decreases n - k,
    {
        match file_child_attr_ident(f, i, j, k) {
            Some(id) => {
                if id == wanted {
                    proof {
                        assert(child_attr_ident(*f, i as int, j as int, k as int) == Some(name@));
                    }
                    return true;
                }
            },
            None => {},
        }
        k = k + 1;
    }
    proof {
        if spec_child_has_attr(*f, i as int, j as int, name@) {
            let t = choose|t: int|
                0 <= t < child_attr_count(*f, i as int, j as int) && #[trigger] child_attr_ident(
                    *f,
                    i as int,
                    j as int,
                    t,
                ) == Some(name@);
            assert(child_attr_ident(*f, i as int, j as int, t) != Some(name@));
        }
    }
    false
}

/// Whether one attribute of one item is a `cfg` whose arguments mention
/// `test`.
fn attr_is_cfg_test(f: &syn::File, i: usize, j: usize) -> (r: bool)
    ensures
        r == spec_is_cfg_test(*f, i as int, j as int),
{
    let cfg_word = String::from_str("cfg");
    let needle: Vec<char> = vec!['t', 'e', 's', 't'];
    proof {
        assert(needle@ =~= seq!['t', 'e', 's', 't']);
    }
    match file_attr_ident(f, i, j) {
        Some(id) => {
            if id == cfg_word {
                match file_attr_args(f, i, j) {
                    Some(args) => {
                        let hay = str_to_chars(args.as_str());
                        contains_chars(&hay, &needle)
                    },
                    None => false,
                }
            } else {
                false
            }
        },
        None => false,
    }
}

/// Whether the item at a position is the canonical container.
fn item_is_container(f: &syn::File, i: usize) -> (r: bool)
    ensures
        r == spec_is_container(*f, i as int),
{
    let kind = file_item_kind(f, i);
    let is_module = match kind {
        ItemKind::Module => true,
        _ => false,
    };
    if !is_module {
        return false;
    }
    let n = file_attr_count(f, i);
    let mut j: usize = 0;
    while j < n
        invariant
            0 <= j <= n,
            n == attr_count(*f, i as int),
            item_kind(*f, i as int) is Module,
            forall|t: int| 0 <= t < j ==> !#[trigger] spec_is_cfg_test(*f, i as int, t),
        decreases n - j,
    {
        if attr_is_cfg_test(f, i, j) {
            return true;
        }
        j = j + 1;
    }
    proof {
        if spec_is_container(*f, i as int) {
            let t = choose|t: int|
                0 <= t < attr_count(*f, i as int) && #[trigger] spec_is_cfg_test(*f, i as int, t);
            assert(!spec_is_cfg_test(*f, i as int, t));
        }
    }
    false
}

/// The position of the first container of the file, if any.
fn find_container_index(f: &syn::File) -> (r: Option<usize>)
    ensures
        match r {
            Some(ci) => spec_container_at(*f, 0) == Some(ci as int),
            None => spec_container_at(*f, 0) is None,
        },
{
    let n = file_item_count(f);
    let mut i: usize = 0;
    while i < n
        invariant
            0 <= i <= n,
            n == item_count(*f),
            spec_container_at(*f, 0) == spec_container_at(*f, i as int),
        decreases n - i,
    {
        if item_is_container(f, i) {
            return Some(i);
        }
        i = i + 1;
    }
    None
}

/// A parsed test file, held as the native grammar's syntax tree.
pub struct ParsedRustFile {
    /// The parsed syntax tree.
    pub syntax: syn::File,
}

impl ParsedRustFile {
    /// Parse source text: the syntax tree exactly when the grammar
    /// accepts, the parser's message when it rejects.
    pub fn parse(source: &str) -> (r: Result<ParsedRustFile, String>)
        ensures
            r is Ok <==> source_parses(source@),
            r matches Ok(p) ==> p.syntax == parse_of(source@)->Ok_0,
            r matches Err(e) ==> e@ == parse_error_of(source@),
    {
        match syn_parse_file(source) {
            Ok(syntax) => Ok(ParsedRustFile { syntax }),
            Err(e) => Err(e),
        }
    }

    /// The structural document of the file: whether the container is
    /// present, the declarations above it, and the declarations inside
    /// it, each classified and in file order.
    pub fn to_document(&self) -> (r: Document)
        ensures
            r@ == doc_of_file(self.syntax),
    {
        let f = &self.syntax;
        let n = file_item_count(f);
        let mut top: Vec<Decl> = Vec::new();
        let mut i: usize = 0;
        proof {
            assert(crate::facts::decl_views(top@) + spec_top_decls(self.syntax, 0)
                =~= spec_top_decls(self.syntax, 0));
        }
        while i < n
            invariant
                0 <= i <= n,
                f == &self.syntax,
                n == item_count(self.syntax),
                spec_top_decls(self.syntax, 0) == crate::facts::decl_views(top@) + spec_top_decls(
                    self.syntax,
                    i as int,
                ),
            decreases n - i,
        {
            let ghost before = crate::facts::decl_views(top@);
            let kind = file_item_kind(f, i);
            match kind {
                ItemKind::Function => {
                    let has_test = item_has_attr(f, i, "test");
                    top.push(
                        Decl {
                            kind: if has_test {
                                DeclKind::Other
                            } else {
                                DeclKind::Helper
                            },
                            name: file_item_name(f, i),
                            should_panic: item_has_attr(f, i, "should_panic"),
                            comments: Vec::new(),
                        },
                    );
                    proof {
                        assert(crate::facts::decl_views(top@) =~= before.push(
                            crate::facts::decl_views(top@).last(),
                        ));
                        assert(crate::facts::decl_views(top@).last() =~~= spec_top_decl(
                            self.syntax,
                            i as int,
                        )[0]);
                    }
                },
                ItemKind::Struct => {
                    top.push(
                        Decl {
                            kind: DeclKind::Context,
                            name: file_item_name(f, i),
                            should_panic: false,
                            comments: Vec::new(),
                        },
                    );
                    proof {
                        assert(crate::facts::decl_views(top@) =~= before.push(
                            crate::facts::decl_views(top@).last(),
                        ));
                        assert(crate::facts::decl_views(top@).last() =~~= spec_top_decl(
                            self.syntax,
                            i as int,
                        )[0]);
                    }
                },
                _ => {
                    proof {
                        assert(spec_top_decl(self.syntax, i as int) =~= Seq::<DeclV>::empty());
                    }
                },
            }
            proof {
                assert(spec_top_decls(self.syntax, i as int) == spec_top_decl(
                    self.syntax,
                    i as int,
                ) + spec_top_decls(self.syntax, i + 1 as int));
                assert(spec_top_decls(self.syntax, 0) =~= crate::facts::decl_views(top@)
                    + spec_top_decls(self.syntax, i + 1 as int));
            }
            i = i + 1;
        }
        proof {
            assert(spec_top_decls(self.syntax, n as int) =~= Seq::<DeclV>::empty());
            assert(crate::facts::decl_views(top@) =~= spec_top_decls(self.syntax, 0));
        }
        let mut decls: Vec<Decl> = Vec::new();
        let container = find_container_index(f);
        match container {
            Some(ci) => {
                let m = file_child_count(f, ci);
                let mut j: usize = 0;
                proof {
                    assert(crate::facts::decl_views(decls@) + spec_container_decls(
                        self.syntax,
                        ci as int,
                        0,
                    ) =~= spec_container_decls(self.syntax, ci as int, 0));
                }
                while j < m
                    invariant
                        0 <= j <= m,
                        f == &self.syntax,
                        m == child_count(self.syntax, ci as int),
                        spec_container_decls(self.syntax, ci as int, 0)
                            == crate::facts::decl_views(decls@) + spec_container_decls(
                            self.syntax,
                            ci as int,
                            j as int,
                        ),
                    decreases m - j,
                {
                    let ghost before = crate::facts::decl_views(decls@);
                    let kind = file_child_kind(f, ci, j);
                    match kind {
                        ItemKind::Function => {
                            let is_test = child_has_attr(f, ci, j, "test");
                            decls.push(
                                Decl {
                                    kind: if is_test {
                                        DeclKind::Test
                                    } else {
                                        DeclKind::Other
                                    },
                                    name: file_child_name(f, ci, j),
                                    should_panic: child_has_attr(f, ci, j, "should_panic"),
                                    comments: Vec::new(),
                                },
                            );
                            proof {
                                assert(crate::facts::decl_views(decls@) =~= before.push(
                                    crate::facts::decl_views(decls@).last(),
                                ));
                                assert(crate::facts::decl_views(decls@).last()
                                    =~~= spec_container_decl(self.syntax, ci as int, j as int)[0]);
                            }
                        },
                        _ => {
                            proof {
                                assert(spec_container_decl(self.syntax, ci as int, j as int)
                                    =~= Seq::<DeclV>::empty());
                            }
                        },
                    }
                    proof {
                        assert(spec_container_decls(self.syntax, ci as int, j as int)
                            == spec_container_decl(self.syntax, ci as int, j as int)
                            + spec_container_decls(self.syntax, ci as int, j + 1 as int));
                        assert(spec_container_decls(self.syntax, ci as int, 0)
                            =~= crate::facts::decl_views(decls@) + spec_container_decls(
                            self.syntax,
                            ci as int,
                            j + 1 as int,
                        ));
                    }
                    j = j + 1;
                }
                proof {
                    assert(spec_container_decls(self.syntax, ci as int, m as int) =~= Seq::<
                        DeclV,
                    >::empty());
                    assert(crate::facts::decl_views(decls@) =~= spec_container_decls(
                        self.syntax,
                        ci as int,
                        0,
                    ));
                }
                let r = Document { container_present: true, top, decls };
                proof {
                    assert(r@ =~~= doc_of_file(self.syntax));
                }
                r
            },
            None => {
                let r = Document { container_present: false, top, decls };
                proof {
                    assert(r@.decls =~= Seq::<DeclV>::empty());
                    assert(r@ =~~= doc_of_file(self.syntax));
                }
                r
            },
        }
    }

    /// The canonical container: the first module carrying
    /// `#[cfg(test)]`.
    pub fn find_test_module(&self) -> Option<syn::ItemMod> {
        let items = file_items(&self.syntax);
        let mut i: usize = 0;
        while i < items.len()
            decreases items@.len() - i,
        {
            match item_as_mod(&items[i]) {
                Some(m) => {
                    if mod_has_cfg_test(&m) {
                        return Some(m);
                    }
                },
                None => {},
            }
            i = i + 1;
        }
        None
    }

    /// The test-like units: the functions inside the container that
    /// carry `#[test]`, in file order.
    pub fn find_test_functions(&self) -> Vec<syn::ItemFn> {
        let mut out: Vec<syn::ItemFn> = Vec::new();
        match self.find_test_module() {
            Some(m) => {
                match mod_items(&m) {
                    Some(items) => {
                        let mut i: usize = 0;
                        while i < items.len()
                            decreases items@.len() - i,
                        {
                            match item_as_fn(&items[i]) {
                                Some(f) => {
                                    if fn_has_attr(&f, "test") {
                                        out.push(f);
                                    }
                                },
                                None => {},
                            }
                            i = i + 1;
                        }
                    },
                    None => {},
                }
            },
            None => {},
        }
        out
    }

    /// The helper-like units: the top-level functions without
    /// `#[test]`, in file order.
    pub fn find_helper_functions(&self) -> Vec<syn::ItemFn> {
        let mut out: Vec<syn::ItemFn> = Vec::new();
        let items = file_items(&self.syntax);
        let mut i: usize = 0;
        while i < items.len()
            decreases items@.len() - i,
        {
            match item_as_fn(&items[i]) {
                Some(f) => {
                    if !fn_has_attr(&f, "test") {
                        out.push(f);
                    }
                },
                None => {},
            }
            i = i + 1;
        }
        out
    }

    /// The shared test-state holder: the first struct whose name
    /// mentions `Context`.
    pub fn find_context_struct(&self) -> Option<syn::ItemStruct> {
        let needle: Vec<char> = vec!['C', 'o', 'n', 't', 'e', 'x', 't'];
        let items = file_items(&self.syntax);
        let mut i: usize = 0;
        while i < items.len()
            decreases items@.len() - i,
        {
            match item_as_struct(&items[i]) {
                Some(s) => {
                    let name = struct_name(&s);
                    let hay = str_to_chars(name.as_str());
                    if contains_chars(&hay, &needle) {
                        return Some(s);
                    }
                },
                None => {},
            }
            i = i + 1;
        }
        None
    }

    /// Whether a function carries `#[should_panic]`.
    pub fn has_should_panic(f: &syn::ItemFn) -> bool {
        fn_has_attr(f, "should_panic")
    }
}

// The accessors the finders above hand out to callers that want the
// syntax tree itself; their results are opaque values, so they carry no
// contracts.

/// Relies on the public `items` field of `syn::File`: the file's items,
/// in file order.
#[verifier::external_body]
fn file_items(f: &syn::File) -> (r: Vec<syn::Item>)
{
    f.items.clone()
}

/// Relies on the `syn::Item::Fn` variant: the item as a function, if it
/// is one.
#[verifier::external_body]
fn item_as_fn(i: &syn::Item) -> (r: Option<syn::ItemFn>)
{
    match i {
        syn::Item::Fn(f) => Some(f.clone()),
        _ => None,
    }
}

/// Relies on the `syn::Item::Mod` variant: the item as a module, if it
/// is one.
#[verifier::external_body]
fn item_as_mod(i: &syn::Item) -> (r: Option<syn::ItemMod>)
{
    match i {
        syn::Item::Mod(m) => Some(m.clone()),
        _ => None,
    }
}

/// Relies on the `syn::Item::Struct` variant: the item as a struct, if
/// it is one.
#[verifier::external_body]
fn item_as_struct(i: &syn::Item) -> (r: Option<syn::ItemStruct>)
{
    match i {
        syn::Item::Struct(s) => Some(s.clone()),
        _ => None,
    }
}

/// Relies on `syn::ItemStruct`'s ident and `Ident::to_string`: the
/// struct's name.
#[verifier::external_body]
fn struct_name(s: &syn::ItemStruct) -> (r: String)
{
    s.ident.to_string()
}

/// Relies on the public `attrs` field of `syn::ItemFn`: how many
/// attributes the function carries.
#[verifier::external_body]
fn fn_attr_count(f: &syn::ItemFn) -> (r: usize)
{
    f.attrs.len()
}

/// Relies on `syn::Attribute::path` and `syn::Path::is_ident`: whether
/// the function's attribute at this position is exactly `#[<name>]`.
#[verifier::external_body]
fn fn_attr_is(f: &syn::ItemFn, i: usize, name: &str) -> (r: bool)
{
    i < f.attrs.len() && f.attrs[i].path().is_ident(name)
}

/// Relies on the public `attrs` field of `syn::ItemMod`: how many
/// attributes the module carries.
#[verifier::external_body]
fn mod_attr_count(m: &syn::ItemMod) -> (r: usize)
{
    m.attrs.len()
}

/// Relies on `syn::Attribute::path` and `syn::Path::is_ident`: whether
/// the module's attribute at this position is exactly `#[<name>]`.
#[verifier::external_body]
fn mod_attr_is(m: &syn::ItemMod, i: usize, name: &str) -> (r: bool)
{
    i < m.attrs.len() && m.attrs[i].path().is_ident(name)
}

/// Relies on `syn::Meta::require_list` and `TokenStream::to_string`:
/// the parenthesized arguments of the module's attribute at this
/// position, as text, if it has any.
#[verifier::external_body]
fn mod_attr_list_tokens(m: &syn::ItemMod, i: usize) -> (r: Option<String>)
{
    match m.attrs.get(i) {
        Some(a) => match a.meta.require_list() {
            Ok(l) => Some(l.tokens.to_string()),
            Err(_) => None,
        },
        None => None,
    }
}

/// Relies on the public `content` field of `syn::ItemMod`: the module's
/// items, in order, when the module has an inline body.
#[verifier::external_body]
fn mod_items(m: &syn::ItemMod) -> (r: Option<Vec<syn::Item>>)
{
    match &m.content {
        Some((_, items)) => Some(items.clone()),
        None => None,
    }
}

/// Whether one of a function's attributes is exactly `#[<name>]`.
fn fn_has_attr(f: &syn::ItemFn, name: &str) -> bool {
    let n = fn_attr_count(f);
    let mut i: usize = 0;
    while i < n
        decreases n - i,
    {
        if fn_attr_is(f, i, name) {
            return true;
        }
        i = i + 1;
    }
    false
}

/// Whether one of a module's attributes is a `cfg` whose arguments
/// mention `test`.
fn mod_has_cfg_test(m: &syn::ItemMod) -> bool {
    let needle: Vec<char> = vec!['t', 'e', 's', 't'];
    let n = mod_attr_count(m);
    let mut i: usize = 0;
    while i < n
        decreases n - i,
    {
        if mod_attr_is(m, i, "cfg") {
            match mod_attr_list_tokens(m, i) {
                Some(tokens) => {
                    let hay = str_to_chars(tokens.as_str());
                    if contains_chars(&hay, &needle) {
                        return true;
                    }
                },
                None => {},
            }
        }
        i = i + 1;
    }
    false
}

} // verus!
