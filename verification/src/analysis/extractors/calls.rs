//! The extracted items and the call-site walk shared by the languages.

use vstd::prelude::*;
use crate::analysis::syntax::{field_child, kind_index_from, SyntaxNode};
use crate::domain::entity::EntityKind;
use crate::naming::sep;
use crate::text::{chars_of, push_all, string_of};

verus! {

/// A definition found in source code.
#[derive(Debug)]
pub struct Definition {
    pub kind: EntityKind,
    pub qualified_name: String,
    pub parent: Option<String>,
}

/// The view of an optional string.
pub open spec fn opt_view(o: Option<String>) -> Option<Seq<char>> {
    match o {
        Some(s) => Some(s@),
        None => None,
    }
}

impl View for Definition {
    /// `(kind, qualified name, parent)`.
    type V = (EntityKind, Seq<char>, Option<Seq<char>>);

    open spec fn view(&self) -> (EntityKind, Seq<char>, Option<Seq<char>>) {
        (self.kind, self.qualified_name@, opt_view(self.parent))
    }
}

impl Clone for Definition {
    fn clone(&self) -> (r: Self)
        ensures
            r@ == self@,
    {
        Definition {
            kind: self.kind,
            qualified_name: self.qualified_name.clone(),
            parent: match &self.parent {
                Some(p) => Some(p.clone()),
                None => None,
            },
        }
    }
}

/// An import found in source code.
#[derive(Debug)]
pub struct Import {
    pub module: String,
    pub imported_names: Vec<String>,
}

impl View for Import {
    /// `(module path, imported names)`.
    type V = (Seq<char>, Seq<Seq<char>>);

    open spec fn view(&self) -> (Seq<char>, Seq<Seq<char>>) {
        (self.module@, self.imported_names@.map_values(|s: String| s@))
    }
}

impl Clone for Import {
    fn clone(&self) -> (r: Self)
        ensures
            r@ == self@,
    {
        let mut names: Vec<String> = Vec::new();
        let mut i: usize = 0;
        while i < self.imported_names.len()
            invariant
                i <= self.imported_names@.len(),
                names@.map_values(|s: String| s@) == self.imported_names@.subrange(
                    0,
                    i as int,
                ).map_values(|s: String| s@),
            decreases self.imported_names@.len() - i,
        {
            let n = self.imported_names[i].clone();
            let ghost n0 = names@;
            names.push(n);
            assert(names@.map_values(|s: String| s@) =~= n0.map_values(|s: String| s@).push(
                self.imported_names@[i as int]@,
            ));
            assert(self.imported_names@.subrange(0, i + 1) =~= self.imported_names@.subrange(
                0,
                i as int,
            ).push(self.imported_names@[i as int]));
            assert(names@.map_values(|s: String| s@) =~= self.imported_names@.subrange(
                0,
                i + 1,
            ).map_values(|s: String| s@));
            i += 1;
        }
        assert(self.imported_names@.subrange(0, self.imported_names@.len() as int)
            =~= self.imported_names@);
        Import { module: self.module.clone(), imported_names: names }
    }
}

/// A function or method call found in source code.
#[derive(Debug)]
pub struct Call {
    /// The callee's simple name as written at the call site.
    pub callee_name: String,
    /// The qualified name of the enclosing function or method.
    pub caller_qname: String,
}

impl View for Call {
    /// `(callee name, caller qualified name)`.
    type V = (Seq<char>, Seq<char>);

    open spec fn view(&self) -> (Seq<char>, Seq<char>) {
        (self.callee_name@, self.caller_qname@)
    }
}

impl Clone for Call {
    fn clone(&self) -> (r: Self)
        ensures
            r@ == self@,
    {
        Call { callee_name: self.callee_name.clone(), caller_qname: self.caller_qname.clone() }
    }
}

/// The view of a definition: `(kind, qualified name, parent)`.
pub type DefV = (EntityKind, Seq<char>, Option<Seq<char>>);

/// The view of an import: `(module path, imported names)`.
pub type ImpV = (Seq<char>, Seq<Seq<char>>);

/// The view of a call: `(callee name, caller qualified name)`.
pub type CallV = (Seq<char>, Seq<char>);

/// What extraction yields, in views: definitions, imports, calls.
pub type Extracted = (Seq<DefV>, Seq<ImpV>, Seq<CallV>);

/// Nothing extracted.
pub open spec fn no_items() -> Extracted {
    (seq![], seq![], seq![])
}

/// Items of `a` followed by those of `b`.
pub open spec fn join_items(a: Extracted, b: Extracted) -> Extracted {
    (a.0 + b.0, a.1 + b.1, a.2 + b.2)
}

/// The views of a vector of definitions.
pub open spec fn defs_view(v: Seq<Definition>) -> Seq<(EntityKind, Seq<char>, Option<Seq<char>>)> {
    v.map_values(|d: Definition| d@)
}

/// The views of a vector of imports.
pub open spec fn imports_view(v: Seq<Import>) -> Seq<(Seq<char>, Seq<Seq<char>>)> {
    v.map_values(|d: Import| d@)
}

/// The views of a vector of calls.
pub open spec fn calls_view(v: Seq<Call>) -> Seq<(Seq<char>, Seq<char>)> {
    v.map_values(|d: Call| d@)
}

/// `m::name`.
pub open spec fn qualify(m: Seq<char>, name: Seq<char>) -> Seq<char> {
    m + sep() + name
}

/// Exec form of [`qualify`].
pub fn qualify_name(m: &str, name: &str) -> (r: String)
    ensures
        r@ == qualify(m@, name@),
{
    let mut out = chars_of(m);
    out.push(':');
    out.push(':');
    let n = chars_of(name);
    push_all(&mut out, &n);
    string_of(&out)
}

/// The call syntax of a language.
#[derive(Debug, Clone, Copy, PartialEq, Eq, Structural)]
pub enum CallStyle {
    Python,
    Rust,
    Go,
    C,
    JavaScript,
}

/// The text of the child of `n` under field `f`, or the empty text.
pub open spec fn field_text(n: SyntaxNode, f: Seq<char>) -> Seq<char> {
    match field_child(n, f) {
        Some(c) => c.text@,
        None => seq![],
    }
}

/// Index of the first child of `ch` at or after `i` whose kind is one of `ks`.
pub open spec fn kinds_index_from(ch: Seq<SyntaxNode>, ks: Seq<Seq<char>>, i: int) -> int
    decreases ch.len() - i,
{
    if i < 0 || i >= ch.len() {
        -1
    } else if ks.contains(ch[i].kind@) {
        i
    } else {
        kinds_index_from(ch, ks, i + 1)
    }
}

pub proof fn lemma_kinds_index_bounds(ch: Seq<SyntaxNode>, ks: Seq<Seq<char>>, i: int)
    ensures
        kinds_index_from(ch, ks, i) == -1 || (i <= kinds_index_from(ch, ks, i) < ch.len()
            && ks.contains(ch[kinds_index_from(ch, ks, i)].kind@)),
    decreases ch.len() - i,
{
    if !(i < 0 || i >= ch.len()) && !ks.contains(ch[i].kind@) {
        lemma_kinds_index_bounds(ch, ks, i + 1);
    }
}

/// Whether `k` is one of `ks`.
pub fn kind_is_one_of(k: &str, ks: &[&str]) -> (r: bool)
    ensures
        r == ks@.map_values(|s: &str| s@).contains(k@),
{
    let mut i: usize = 0;
    while i < ks.len()
        invariant
            i <= ks@.len(),
            forall|j: int| 0 <= j < i ==> ks@[j]@ != k@,
        decreases ks@.len() - i,
    {
        if crate::text::str_is(k, ks[i]) {
            assert(ks@.map_values(|s: &str| s@)[i as int] == k@);
            return true;
        }
        i += 1;
    }
    let ghost kv = ks@.map_values(|s: &str| s@);
    assert forall|j: int| 0 <= j < kv.len() implies #[trigger] kv[j] != k@ by {
        assert(kv[j] == ks@[j]@);
    }
    false
}

/// Index of the first child of `n` whose kind is one of `ks`.
pub fn child_index_of_kinds(n: &SyntaxNode, ks: &[&str]) -> (r: Option<usize>)
    ensures
        match r {
            Some(i) => i as int == kinds_index_from(
                n.children@,
                ks@.map_values(|s: &str| s@),
                0,
            ) && i < n.children@.len(),
            None => kinds_index_from(n.children@, ks@.map_values(|s: &str| s@), 0) == -1,
        },
{
    let ghost kv = ks@.map_values(|s: &str| s@);
    let mut i: usize = 0;
    while i < n.children.len()
        invariant
            i <= n.children@.len(),
            kv == ks@.map_values(|s: &str| s@),
            kinds_index_from(n.children@, kv, 0) == kinds_index_from(n.children@, kv, i as int),
        decreases n.children@.len() - i,
    {
        if kind_is_one_of(n.children[i].kind.as_str(), ks) {
            return Some(i);
        }
        i += 1;
    }
    None
}

/// The simple name a callee expression names, by the rules of `style`.
pub open spec fn callee_of(style: CallStyle, f: SyntaxNode) -> Seq<char>
    decreases f,
{
    if f.kind@ == "identifier"@ {
        f.text@
    } else {
        match style {
            CallStyle::Python => if f.kind@ == "attribute"@ {
                field_text(f, "attribute"@)
            } else {
                seq![]
            },
            CallStyle::Go => if f.kind@ == "selector_expression"@ {
                field_text(f, "field"@)
            } else {
                seq![]
            },
            CallStyle::Rust => if f.kind@ == "field_expression"@ {
                field_text(f, "field"@)
            } else if f.kind@ == "scoped_identifier"@ {
                field_text(f, "name"@)
            } else if f.kind@ == "generic_function"@ {
                let i = kinds_index_from(
                    f.children@,
                    seq!["scoped_identifier"@, "field_expression"@, "identifier"@],
                    0,
                );
                if 0 <= i < f.children@.len() {
                    callee_of(style, f.children@[i])
                } else {
                    seq![]
                }
            } else {
                seq![]
            },
            CallStyle::C => if f.kind@ == "field_expression"@ {
                field_text(f, "field"@)
            } else if f.kind@ == "pointer_expression"@ {
                let i = kind_index_from(f.children@, "identifier"@, 0);
                if 0 <= i < f.children@.len() {
                    f.children@[i].text@
                } else {
                    seq![]
                }
            } else {
                seq![]
            },
            CallStyle::JavaScript => if f.kind@ == "member_expression"@ {
                field_text(f, "property"@)
            } else if f.kind@ == "subscript_expression"@ {
                let i = kinds_index_from(f.children@, seq!["string"@, "string_fragment"@], 0);
                if 0 <= i < f.children@.len() {
                    f.children@[i].text@
                } else {
                    seq![]
                }
            } else {
                seq![]
            },
        }
    }
}

/// Exec form of [`field_text`].
pub fn field_text_of(n: &SyntaxNode, f: &str) -> (r: String)
    ensures
        r@ == field_text(*n, f@),
{
    match n.child_by_field_name(f) {
        Some(c) => c.node_text(),
        None => String::new(),
    }
}

/// The simple name a callee expression names, by the rules of `style`.
pub fn callee_name(style: CallStyle, f: &SyntaxNode) -> (r: String)
    ensures
        r@ == callee_of(style, *f),
    decreases f,
{
    if f.is_kind("identifier") {
        return f.node_text();
    }
    match style {
        CallStyle::Python => {
            if f.is_kind("attribute") {
                field_text_of(f, "attribute")
            } else {
                String::new()
            }
        },
        CallStyle::Go => {
            if f.is_kind("selector_expression") {
                field_text_of(f, "field")
            } else {
                String::new()
            }
        },
        CallStyle::Rust => {
            if f.is_kind("field_expression") {
                field_text_of(f, "field")
            } else if f.is_kind("scoped_identifier") {
                field_text_of(f, "name")
            } else if f.is_kind("generic_function") {
                let ks: [&str; 3] = ["scoped_identifier", "field_expression", "identifier"];
                let ghost kv = ks@.map_values(|s: &str| s@);
                assert(kv =~= seq!["scoped_identifier"@, "field_expression"@, "identifier"@]);
                match child_index_of_kinds(f, &ks) {
                    Some(i) => callee_name(style, &f.children[i]),
                    None => String::new(),
                }
            } else {
                String::new()
            }
        },
        CallStyle::C => {
            if f.is_kind("field_expression") {
                field_text_of(f, "field")
            } else if f.is_kind("pointer_expression") {
                match f.child_index_of_kind("identifier") {
                    Some(i) => f.children[i].node_text(),
                    None => String::new(),
                }
            } else {
                String::new()
            }
        },
        CallStyle::JavaScript => {
            if f.is_kind("member_expression") {
                field_text_of(f, "property")
            } else if f.is_kind("subscript_expression") {
                let ks: [&str; 2] = ["string", "string_fragment"];
                let ghost kv = ks@.map_values(|s: &str| s@);
                assert(kv =~= seq!["string"@, "string_fragment"@]);
                match child_index_of_kinds(f, &ks) {
                    Some(i) => f.children[i].node_text(),
                    None => String::new(),
                }
            } else {
                String::new()
            }
        },
    }
}

/// The callee a node records when it is a call site, by the rules of
/// `style`; `None` when it is not a call or names no simple callee.
pub open spec fn call_at(style: CallStyle, n: SyntaxNode) -> Option<Seq<char>> {
    let callee = match style {
        CallStyle::Python => if n.kind@ == "call"@ && n.children@.len() > 0 {
            callee_of(style, n.children@[0])
        } else {
            seq![]
        },
        _ => if n.kind@ == "call_expression"@ {
            match field_child(n, "function"@) {
                Some(f) => callee_of(style, f),
                None => seq![],
            }
        } else {
            seq![]
        },
    };
    if callee.len() > 0 {
        Some(callee)
    } else {
        None
    }
}

/// Exec form of [`call_at`].
pub fn call_site_callee(style: CallStyle, n: &SyntaxNode) -> (r: Option<String>)
    ensures
        match r {
            Some(c) => call_at(style, *n) == Some(c@),
            None => call_at(style, *n) is None,
        },
{
    let callee = match style {
        CallStyle::Python => {
            if n.is_kind("call") && n.children.len() > 0 {
                callee_name(style, &n.children[0])
            } else {
                String::new()
            }
        },
        _ => {
            if n.is_kind("call_expression") {
                match n.child_by_field_name("function") {
                    Some(f) => callee_name(style, f),
                    None => String::new(),
                }
            } else {
                String::new()
            }
        },
    };
    let cv = chars_of(callee.as_str());
    if cv.len() > 0 {
        Some(callee)
    } else {
        None
    }
}

/// The calls recorded in the subtree of `n` (pre-order), each attributed
/// to `caller`.
pub open spec fn calls_in(style: CallStyle, n: SyntaxNode, caller: Seq<char>) -> Seq<
    (Seq<char>, Seq<char>),
>
    decreases n, n.children@.len() + 1,
{
    let here = match call_at(style, n) {
        Some(c) => seq![(c, caller)],
        None => seq![],
    };
    here + calls_in_forest(style, n, caller, 0)
}

/// The calls recorded in the subtrees of the children of `n` from index `i` on.
pub open spec fn calls_in_forest(style: CallStyle, n: SyntaxNode, caller: Seq<char>, i: int) -> Seq<
    (Seq<char>, Seq<char>),
>
    decreases n, n.children@.len() - i,
{
    if i < 0 || i >= n.children@.len() {
        seq![]
    } else {
        calls_in(style, n.children@[i], caller) + calls_in_forest(style, n, caller, i + 1)
    }
}

/// Appends the calls of the subtree of `node` to `calls`.
pub fn walk_for_calls(style: CallStyle, node: &SyntaxNode, caller: &str, calls: &mut Vec<Call>)
    ensures
        calls_view(final(calls)@) == calls_view(old(calls)@) + calls_in(style, *node, caller@),
    decreases node,
{
    let ghost here = match call_at(style, *node) {
        Some(c) => seq![(c, caller@)],
        None => Seq::<(Seq<char>, Seq<char>)>::empty(),
    };
    match call_site_callee(style, node) {
        Some(c) => {
            let ghost before = calls@;
            calls.push(Call { callee_name: c, caller_qname: caller.to_string() });
            assert(calls_view(calls@) =~= calls_view(before) + here);
        },
        None => {
            assert(calls_view(calls@) =~= calls_view(old(calls)@) + here);
        },
    }
    let mut i: usize = 0;
    while i < node.children.len()
        invariant
            i <= node.children@.len(),
            calls_view(calls@) + calls_in_forest(style, *node, caller@, i as int) == calls_view(
                old(calls)@,
            ) + calls_in(style, *node, caller@),
        decreases node.children@.len() - i,
    {
        let ghost before = calls@;
        walk_for_calls(style, &node.children[i], caller, calls);
        assert(calls_in_forest(style, *node, caller@, i as int) == calls_in(
            style,
            node.children@[i as int],
            caller@,
        ) + calls_in_forest(style, *node, caller@, i + 1));
        assert(calls_view(calls@) + calls_in_forest(style, *node, caller@, i + 1) =~= calls_view(
            before,
        ) + calls_in_forest(style, *node, caller@, i as int));
        i += 1;
    }
    assert(calls_view(calls@) =~= calls_view(old(calls)@) + calls_in(style, *node, caller@));
}

/// The node kinds that hold a function body, by language.
pub open spec fn body_kinds(style: CallStyle) -> Seq<Seq<char>> {
    match style {
        CallStyle::C => seq!["compound_statement"@],
        CallStyle::JavaScript => seq!["statement_block"@, "body"@],
        _ => seq!["block"@],
    }
}

/// The calls in the body of a function node: those of its first child whose
/// kind holds a body; none when it has no such child.
pub open spec fn body_calls(style: CallStyle, func: SyntaxNode, caller: Seq<char>) -> Seq<
    (Seq<char>, Seq<char>),
> {
    let i = kinds_index_from(func.children@, body_kinds(style), 0);
    if 0 <= i < func.children@.len() {
        calls_in(style, func.children@[i], caller)
    } else {
        seq![]
    }
}

/// Appends the calls in the body of `func` to `calls`.
pub fn extract_calls_from_body(
    style: CallStyle,
    func: &SyntaxNode,
    caller: &str,
    calls: &mut Vec<Call>,
)
    ensures
        calls_view(final(calls)@) == calls_view(old(calls)@) + body_calls(style, *func, caller@),
{
    let found = match style {
        CallStyle::C => {
            let ks: [&str; 1] = ["compound_statement"];
            assert(ks@.map_values(|s: &str| s@) =~= body_kinds(style));
            child_index_of_kinds(func, &ks)
        },
        CallStyle::JavaScript => {
            let ks: [&str; 2] = ["statement_block", "body"];
            assert(ks@.map_values(|s: &str| s@) =~= body_kinds(style));
            child_index_of_kinds(func, &ks)
        },
        _ => {
            let ks: [&str; 1] = ["block"];
            assert(ks@.map_values(|s: &str| s@) =~= body_kinds(style));
            child_index_of_kinds(func, &ks)
        },
    };
    match found {
        Some(i) => walk_for_calls(style, &func.children[i], caller, calls),
        None => {
            assert(calls_view(calls@) =~= calls_view(old(calls)@) + body_calls(
                style,
                *func,
                caller@,
            ));
        },
    }
}

} // verus!
