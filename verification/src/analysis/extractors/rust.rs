//! Rust: functions, types, impl methods, `use` imports and calls.

use vstd::prelude::*;
use crate::analysis::syntax::{field_child, SyntaxNode};
use crate::analysis::extractors::calls::{
    body_calls, calls_view, defs_view, extract_calls_from_body, imports_view, join_items,
    kind_is_one_of, no_items, opt_view, qualify, qualify_name, CallStyle, Call, CallV, Definition,
    DefV, Extracted, Import, ImpV,
};
use crate::domain::entity::EntityKind;
use crate::text::{
    chars_of, contains_text, find_char, first_index_of, slice_chars, string_of, text_contains,
    trim_white_space, trim_ws,
};

verus! {

/// The kinds that a wrapper node's children are searched for.
pub open spec fn rust_item_kinds() -> Seq<Seq<char>> {
    seq![
        "function_item"@,
        "struct_item"@,
        "enum_item"@,
        "trait_item"@,
        "impl_item"@,
        "use_declaration"@,
        "attribute_item"@,
        "_declaration_statement"@,
    ]
}

/// The imports of a `use_declaration` among its children `ch[..n]`: the text
/// of each child whose kind is not `use`, not `;` and does not contain `use`.
pub open spec fn rust_use_imports(ch: Seq<SyntaxNode>, n: int) -> Seq<ImpV>
    decreases n,
{
    if n <= 0 || n > ch.len() {
        seq![]
    } else {
        let prev = rust_use_imports(ch, n - 1);
        let c = ch[n - 1];
        if c.kind@ != "use"@ && c.kind@ != ";"@ && !contains_text(c.kind@, "use"@) && c.text@.len()
            > 0 {
            prev.push((c.text@, Seq::<Seq<char>>::empty()))
        } else {
            prev
        }
    }
}

/// The type an impl block is for: the text of its `type` field up to the
/// first `<`, trimmed.
pub open spec fn rust_impl_name(imp: SyntaxNode) -> Option<Seq<char>> {
    match field_child(imp, "type"@) {
        Some(t) => {
            let k = find_char(t.text@, '<', 0);
            let head = if k < 0 {
                t.text@
            } else {
                t.text@.subrange(0, k)
            };
            Some(trim_ws(head))
        },
        None => None,
    }
}

/// The methods among the items `ch[..n]` of a `declaration_list`.
pub open spec fn rust_impl_items(
    ch: Seq<SyntaxNode>,
    m: Seq<char>,
    name: Option<Seq<char>>,
    n: int,
) -> (Seq<DefV>, Seq<CallV>)
    decreases n,
{
    if n <= 0 || n > ch.len() {
        (seq![], seq![])
    } else {
        let prev = rust_impl_items(ch, m, name, n - 1);
        let it = ch[n - 1];
        if it.kind@ == "function_item"@ {
            match field_child(it, "name"@) {
                Some(f) => {
                    let fq = match name {
                        Some(i) => qualify(qualify(m, i), f.text@),
                        None => qualify(m, f.text@),
                    };
                    (
                        prev.0.push((EntityKind::Method, fq, name)),
                        prev.1 + body_calls(CallStyle::Rust, it, fq),
                    )
                },
                None => prev,
            }
        } else {
            prev
        }
    }
}

/// The methods of the `declaration_list` children among `ch[..n]` of an impl.
pub open spec fn rust_impl_lists(
    ch: Seq<SyntaxNode>,
    m: Seq<char>,
    name: Option<Seq<char>>,
    n: int,
) -> (Seq<DefV>, Seq<CallV>)
    decreases n,
{
    if n <= 0 || n > ch.len() {
        (seq![], seq![])
    } else {
        let prev = rust_impl_lists(ch, m, name, n - 1);
        let c = ch[n - 1];
        if c.kind@ == "declaration_list"@ {
            let add = rust_impl_items(c.children@, m, name, c.children@.len() as int);
            (prev.0 + add.0, prev.1 + add.1)
        } else {
            prev
        }
    }
}

/// The methods (and their calls) of an `impl_item`.
pub open spec fn rust_impl(imp: SyntaxNode, m: Seq<char>) -> (Seq<DefV>, Seq<CallV>) {
    rust_impl_lists(imp.children@, m, rust_impl_name(imp), imp.children@.len() as int)
}

/// What a Rust item node contributes; wrapper nodes contribute what their
/// item children do.
pub open spec fn rust_node(c: SyntaxNode, m: Seq<char>) -> Extracted
    decreases c, c.children@.len() + 1,
{
    if c.kind@ == "function_item"@ {
        match field_child(c, "name"@) {
            Some(n) => {
                let fq = qualify(m, n.text@);
                (
                    seq![(EntityKind::Function, fq, None::<Seq<char>>)],
                    seq![],
                    body_calls(CallStyle::Rust, c, fq),
                )
            },
            None => no_items(),
        }
    } else if c.kind@ == "struct_item"@ || c.kind@ == "enum_item"@ || c.kind@ == "trait_item"@ {
        match field_child(c, "name"@) {
            Some(n) => (
                seq![(EntityKind::Type, qualify(m, n.text@), None::<Seq<char>>)],
                seq![],
                seq![],
            ),
            None => no_items(),
        }
    } else if c.kind@ == "impl_item"@ {
        let r = rust_impl(c, m);
        (r.0, seq![], r.1)
    } else if c.kind@ == "use_declaration"@ {
        (seq![], rust_use_imports(c.children@, c.children@.len() as int), seq![])
    } else if c.children@.len() > 0 {
        rust_wrapped(c, m, 0)
    } else {
        no_items()
    }
}

/// What the item children `c.children[i..]` of a wrapper node contribute.
pub open spec fn rust_wrapped(c: SyntaxNode, m: Seq<char>, i: int) -> Extracted
    decreases c, c.children@.len() - i,
{
    if i < 0 || i >= c.children@.len() {
        no_items()
    } else {
        let inner = c.children@[i];
        let here = if rust_item_kinds().contains(inner.kind@) {
            rust_node(inner, m)
        } else {
            no_items()
        };
        join_items(here, rust_wrapped(c, m, i + 1))
    }
}

/// What the top-level nodes `ch[..n]` contribute, in order.
pub open spec fn rust_fold(ch: Seq<SyntaxNode>, m: Seq<char>, n: int) -> Extracted
    decreases n,
{
    if n <= 0 || n > ch.len() {
        no_items()
    } else {
        join_items(rust_fold(ch, m, n - 1), rust_node(ch[n - 1], m))
    }
}

/// What a Rust source file's root node yields.
pub open spec fn spec_extract_rust(root: SyntaxNode, m: Seq<char>) -> Extracted {
    rust_fold(root.children@, m, root.children@.len() as int)
}

fn impl_type_name(imp: &SyntaxNode) -> (r: Option<String>)
    ensures
        opt_view(r) == rust_impl_name(*imp),
{
    match imp.child_by_field_name("type") {
        Some(t) => {
            let v = chars_of(t.text.as_str());
            let head = match first_index_of(&v, '<') {
                Some(k) => slice_chars(&v, 0, k),
                None => v,
            };
            let trimmed = trim_white_space(&head);
            Some(string_of(&trimmed))
        },
        None => None,
    }
}

fn extract_rust_impl(imp: &SyntaxNode, m: &str, defs: &mut Vec<Definition>, calls: &mut Vec<Call>)
    ensures
        defs_view(final(defs)@) == defs_view(old(defs)@) + rust_impl(*imp, m@).0,
        calls_view(final(calls)@) == calls_view(old(calls)@) + rust_impl(*imp, m@).1,
{
    let impl_name = impl_type_name(imp);
    let ghost nm = opt_view(impl_name);
    let mut i: usize = 0;
    while i < imp.children.len()
        invariant
            i <= imp.children@.len(),
            nm == rust_impl_name(*imp),
            nm == opt_view(impl_name),
            defs_view(defs@) == defs_view(old(defs)@) + rust_impl_lists(
                imp.children@,
                m@,
                nm,
                i as int,
            ).0,
            calls_view(calls@) == calls_view(old(calls)@) + rust_impl_lists(
                imp.children@,
                m@,
                nm,
                i as int,
            ).1,
        decreases imp.children@.len() - i,
    {
        let list = &imp.children[i];
        if list.is_kind("declaration_list") {
            let ghost d1 = defs_view(defs@);
            let ghost c1 = calls_view(calls@);
            let mut j: usize = 0;
            while j < list.children.len()
                invariant
                    j <= list.children@.len(),
                    nm == opt_view(impl_name),
                    defs_view(defs@) == d1 + rust_impl_items(list.children@, m@, nm, j as int).0,
                    calls_view(calls@) == c1 + rust_impl_items(list.children@, m@, nm, j as int).1,
                decreases list.children@.len() - j,
            {
                let inner = &list.children[j];
                let ghost d2 = defs@;
                if inner.is_kind("function_item") {
                    match inner.child_by_field_name("name") {
                        Some(f) => {
                            let fn_name = f.node_text();
                            let fq = match &impl_name {
                                Some(iname) => {
                                    let base = qualify_name(m, iname.as_str());
                                    qualify_name(base.as_str(), fn_name.as_str())
                                },
                                None => qualify_name(m, fn_name.as_str()),
                            };
                            let parent = match &impl_name {
                                Some(iname) => Some(iname.clone()),
                                None => None,
                            };
                            defs.push(
                                Definition {
                                    qualified_name: fq.clone(),
                                    kind: EntityKind::Method,
                                    parent,
                                },
                            );
                            assert(defs_view(defs@) =~= defs_view(d2).push((EntityKind::Method, fq@, nm)));
                            extract_calls_from_body(CallStyle::Rust, inner, fq.as_str(), calls);
                        },
                        None => {},
                    }
                }
                assert(defs_view(defs@) =~= d1 + rust_impl_items(list.children@, m@, nm, j + 1).0);
                assert(calls_view(calls@) =~= c1 + rust_impl_items(list.children@, m@, nm, j + 1).1);
                j += 1;
            }
        }
        assert(defs_view(defs@) =~= defs_view(old(defs)@) + rust_impl_lists(
            imp.children@,
            m@,
            nm,
            i + 1,
        ).0);
        assert(calls_view(calls@) =~= calls_view(old(calls)@) + rust_impl_lists(
            imp.children@,
            m@,
            nm,
            i + 1,
        ).1);
        i += 1;
    }
}

fn rust_use_items(c: &SyntaxNode, imports: &mut Vec<Import>)
    ensures
        imports_view(final(imports)@) == imports_view(old(imports)@) + rust_use_imports(
            c.children@,
            c.children@.len() as int,
        ),
{
    let use_word = vec!['u', 's', 'e'];
    proof {
        reveal_strlit("use");
    }
    assert(use_word@ =~= "use"@);
    let mut i: usize = 0;
    while i < c.children.len()
        invariant
            i <= c.children@.len(),
            use_word@ == "use"@,
            imports_view(imports@) == imports_view(old(imports)@) + rust_use_imports(
                c.children@,
                i as int,
            ),
        decreases c.children@.len() - i,
    {
        let n = &c.children[i];
        let kind = chars_of(n.kind.as_str());
        if !n.is_kind("use") && !n.is_kind(";") && !text_contains(&kind, &use_word) {
            let text = n.node_text();
            let tv = chars_of(text.as_str());
            if tv.len() > 0 {
                let ghost before = imports@;
                let names: Vec<String> = Vec::new();
                assert(names@.map_values(|s: String| s@) =~= Seq::<Seq<char>>::empty());
                imports.push(Import { module: text, imported_names: names });
                assert(imports_view(imports@) =~= imports_view(before).push(
                    (n.text@, Seq::<Seq<char>>::empty()),
                ));
            }
        }
        i += 1;
    }
}

/// Appends what a Rust item node contributes.
fn process_rust_child(
    c: &SyntaxNode,
    m: &str,
    defs: &mut Vec<Definition>,
    imports: &mut Vec<Import>,
    calls: &mut Vec<Call>,
)
    ensures
        (defs_view(final(defs)@), imports_view(final(imports)@), calls_view(final(calls)@))
            == join_items(
            (defs_view(old(defs)@), imports_view(old(imports)@), calls_view(old(calls)@)),
            rust_node(*c, m@),
        ),
    decreases c,
{
    let ghost d0 = defs_view(defs@);
    let ghost i0 = imports_view(imports@);
    let ghost c0 = calls_view(calls@);
    if c.is_kind("function_item") {
        match c.child_by_field_name("name") {
            Some(n) => {
                let name = n.node_text();
                let fq = qualify_name(m, name.as_str());
                defs.push(
                    Definition { qualified_name: fq.clone(), kind: EntityKind::Function, parent: None },
                );
                extract_calls_from_body(CallStyle::Rust, c, fq.as_str(), calls);
            },
            None => {},
        }
    } else if c.is_kind("struct_item") || c.is_kind("enum_item") || c.is_kind("trait_item") {
        match c.child_by_field_name("name") {
            Some(n) => {
                let name = n.node_text();
                defs.push(
                    Definition {
                        qualified_name: qualify_name(m, name.as_str()),
                        kind: EntityKind::Type,
                        parent: None,
                    },
                );
            },
            None => {},
        }
    } else if c.is_kind("impl_item") {
        extract_rust_impl(c, m, defs, calls);
    } else if c.is_kind("use_declaration") {
        rust_use_items(c, imports);
    } else if c.children.len() > 0 {
        let ks: [&str; 8] = [
            "function_item",
            "struct_item",
            "enum_item",
            "trait_item",
            "impl_item",
            "use_declaration",
            "attribute_item",
            "_declaration_statement",
        ];
        assert(ks@.map_values(|s: &str| s@) =~= rust_item_kinds());
        let mut i: usize = 0;
        while i < c.children.len()
            invariant
                i <= c.children@.len(),
                ks@.map_values(|s: &str| s@) == rust_item_kinds(),
                rust_node(*c, m@) == rust_wrapped(*c, m@, 0),
                join_items(
                    (defs_view(defs@), imports_view(imports@), calls_view(calls@)),
                    rust_wrapped(*c, m@, i as int),
                ) == join_items((d0, i0, c0), rust_node(*c, m@)),
            decreases c.children@.len() - i,
        {
            let inner = &c.children[i];
            let ghost before = (defs_view(defs@), imports_view(imports@), calls_view(calls@));
            if kind_is_one_of(inner.kind.as_str(), &ks) {
                process_rust_child(inner, m, defs, imports, calls);
            }
            assert(join_items(
                (defs_view(defs@), imports_view(imports@), calls_view(calls@)),
                rust_wrapped(*c, m@, i + 1),
            ) =~= join_items(before, rust_wrapped(*c, m@, i as int)));
            i += 1;
        }
        assert((defs_view(defs@), imports_view(imports@), calls_view(calls@)) =~= join_items(
            (d0, i0, c0),
            rust_node(*c, m@),
        ));
        return;
    }
    assert(defs_view(defs@) =~= d0 + rust_node(*c, m@).0);
    assert(imports_view(imports@) =~= i0 + rust_node(*c, m@).1);
    assert(calls_view(calls@) =~= c0 + rust_node(*c, m@).2);
}

/// Definitions, imports and calls of a Rust source file, from its root node.
pub fn extract_rust(root: &SyntaxNode, module_qname: &str) -> (r: (Vec<Definition>, Vec<Import>, Vec<Call>))
    ensures
        (defs_view(r.0@), imports_view(r.1@), calls_view(r.2@)) == spec_extract_rust(
            *root,
            module_qname@,
        ),
{
    let mut defs: Vec<Definition> = Vec::new();
    let mut imports: Vec<Import> = Vec::new();
    let mut calls: Vec<Call> = Vec::new();
    let mut i: usize = 0;
    while i < root.children.len()
        invariant
            i <= root.children@.len(),
            (defs_view(defs@), imports_view(imports@), calls_view(calls@)) == rust_fold(
                root.children@,
                module_qname@,
                i as int,
            ),
        decreases root.children@.len() - i,
    {
        process_rust_child(&root.children[i], module_qname, &mut defs, &mut imports, &mut calls);
        i += 1;
    }
    (defs, imports, calls)
}

/// Every definition a top-level node contributes is among those of the
/// whole file.
proof fn lemma_rust_fold_keeps(ch: Seq<SyntaxNode>, m: Seq<char>, n: int, i: int)
    requires
        0 <= i < n <= ch.len(),
    ensures
        forall|x: DefV| rust_node(ch[i], m).0.contains(x) ==> #[trigger] rust_fold(ch, m, n).0.contains(x),
    decreases n,
{
    let prev = rust_fold(ch, m, n - 1);
    let here = rust_node(ch[n - 1], m);
    assert(rust_fold(ch, m, n).0 == prev.0 + here.0);
    if i < n - 1 {
        lemma_rust_fold_keeps(ch, m, n - 1, i);
        assert forall|x: DefV| rust_node(ch[i], m).0.contains(x) implies #[trigger] rust_fold(ch, m, n).0.contains(x) by {
            assert(rust_fold(ch, m, n - 1).0.contains(x));
            let k = choose|k: int| 0 <= k < prev.0.len() && prev.0[k] == x;
            assert((prev.0 + here.0)[k] == x);
        }
    } else {
        assert forall|x: DefV| rust_node(ch[i], m).0.contains(x) implies #[trigger] rust_fold(ch, m, n).0.contains(x) by {
            let k = choose|k: int| 0 <= k < here.0.len() && here.0[k] == x;
            assert((prev.0 + here.0)[prev.0.len() + k] == x);
        }
    }
}

/// What a named struct, enum or trait yields: one type definition
/// `m::name`, with no parent, and nothing else.
proof fn lemma_rust_type_node(c: SyntaxNode, m: Seq<char>)
    requires
        c.kind@ == "struct_item"@ || c.kind@ == "enum_item"@ || c.kind@ == "trait_item"@,
        field_child(c, "name"@) is Some,
    ensures
        rust_node(c, m) == (
            seq![(EntityKind::Type, m + seq![':', ':'] + field_child(c, "name"@)->0.text@, None::<Seq<char>>)],
            Seq::<ImpV>::empty(),
            Seq::<CallV>::empty(),
        ),
{
    reveal_strlit("struct_item");
    reveal_strlit("enum_item");
    reveal_strlit("trait_item");
    reveal_strlit("function_item");
    assert("struct_item"@[0] != "function_item"@[0]);
    assert("enum_item"@[0] != "function_item"@[0]);
    assert("trait_item"@[0] != "function_item"@[0]);
    assert(c.kind@ != "function_item"@);
}

/// Types are recorded: every named struct, enum or trait at the top of a
/// Rust file yields the type definition `m::name` with no parent.
pub proof fn lemma_rust_type_items_recorded(root: SyntaxNode, m: Seq<char>, i: int)
    requires
        0 <= i < root.children@.len(),
        root.children@[i].kind@ == "struct_item"@ || root.children@[i].kind@ == "enum_item"@
            || root.children@[i].kind@ == "trait_item"@,
        field_child(root.children@[i], "name"@) is Some,
    ensures
        spec_extract_rust(root, m).0.contains(
            (
                EntityKind::Type,
                m + seq![':', ':'] + field_child(root.children@[i], "name"@)->0.text@,
                None::<Seq<char>>,
            ),
        ),
{
    let c = root.children@[i];
    lemma_rust_type_node(c, m);
    let x = (EntityKind::Type, m + seq![':', ':'] + field_child(c, "name"@)->0.text@, None::<Seq<char>>);
    assert(rust_node(c, m).0[0] == x);
    lemma_rust_fold_keeps(root.children@, m, root.children@.len() as int, i);
}

/// A file holding just one named struct, enum or trait yields exactly its
/// type definition, and no import or call.
pub proof fn lemma_rust_lone_type_item(root: SyntaxNode, m: Seq<char>)
    requires
        root.children@.len() == 1,
        root.children@[0].kind@ == "struct_item"@ || root.children@[0].kind@ == "enum_item"@
            || root.children@[0].kind@ == "trait_item"@,
        field_child(root.children@[0], "name"@) is Some,
    ensures
        spec_extract_rust(root, m) == (
            seq![
                (
                    EntityKind::Type,
                    m + seq![':', ':'] + field_child(root.children@[0], "name"@)->0.text@,
                    None::<Seq<char>>,
                ),
            ],
            Seq::<ImpV>::empty(),
            Seq::<CallV>::empty(),
        ),
{
    lemma_rust_type_node(root.children@[0], m);
    let ch = root.children@;
    assert(rust_fold(ch, m, 0) == no_items());
    assert(rust_fold(ch, m, 1) == join_items(no_items(), rust_node(ch[0], m)));
    assert(seq![] + rust_node(ch[0], m).0 =~= rust_node(ch[0], m).0);
    assert(Seq::<ImpV>::empty() + Seq::<ImpV>::empty() =~= Seq::<ImpV>::empty());
    assert(Seq::<CallV>::empty() + Seq::<CallV>::empty() =~= Seq::<CallV>::empty());
}

/// Functions are recorded: every named function at the top of a Rust file
/// yields the function definition `m::name` with no parent.
pub proof fn lemma_rust_functions_recorded(root: SyntaxNode, m: Seq<char>, i: int)
    requires
        0 <= i < root.children@.len(),
        root.children@[i].kind@ == "function_item"@,
        field_child(root.children@[i], "name"@) is Some,
    ensures
        spec_extract_rust(root, m).0.contains(
            (
                EntityKind::Function,
                m + seq![':', ':'] + field_child(root.children@[i], "name"@)->0.text@,
                None::<Seq<char>>,
            ),
        ),
{
    let c = root.children@[i];
    let x = (EntityKind::Function, m + seq![':', ':'] + field_child(c, "name"@)->0.text@, None::<Seq<char>>);
    assert(rust_node(c, m).0[0] == x);
    lemma_rust_fold_keeps(root.children@, m, root.children@.len() as int, i);
}

} // verus!
