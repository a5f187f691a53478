//! C: functions, structs, typedefs, includes and calls.

use vstd::prelude::*;
use crate::analysis::syntax::{field_child, field_index_from, lemma_field_index_bounds, SyntaxNode};
use crate::analysis::extractors::calls::{
    body_calls, calls_view, child_index_of_kinds, defs_view, extract_calls_from_body,
    imports_view, join_items, kind_is_one_of, kinds_index_from, no_items, qualify, qualify_name,
    CallStyle, Call, Definition, Extracted, Import, ImpV,
};
use crate::domain::entity::EntityKind;
use crate::text::{chars_of, string_of, trim_chars, trim_set};

verus! {

/// The declared name inside a C declarator: the identifier reached through
/// `declarator` fields (or, lacking one, the first identifier or nested
/// declarator child) of pointer and function declarators; empty otherwise.
pub open spec fn c_declarator_name(n: SyntaxNode) -> Seq<char>
    decreases n,
{
    if n.kind@ == "identifier"@ {
        n.text@
    } else if n.kind@ == "pointer_declarator"@ || n.kind@ == "function_declarator"@ {
        let d = field_index_from(n.children@, "declarator"@, 0);
        if 0 <= d < n.children@.len() {
            c_declarator_name(n.children@[d])
        } else {
            let i = kinds_index_from(
                n.children@,
                seq!["identifier"@, "pointer_declarator"@, "function_declarator"@],
                0,
            );
            if 0 <= i < n.children@.len() {
                c_declarator_name(n.children@[i])
            } else {
                seq![]
            }
        }
    } else {
        seq![]
    }
}

/// The includes among the children `ch[..n]` of a `preproc_include`.
pub open spec fn c_includes(ch: Seq<SyntaxNode>, n: int) -> Seq<ImpV>
    decreases n,
{
    if n <= 0 || n > ch.len() {
        seq![]
    } else {
        let prev = c_includes(ch, n - 1);
        let c = ch[n - 1];
        let t = trim_set(c.text@, seq!['"', '<', '>', ' ']);
        if (c.kind@ == "string_literal"@ || c.kind@ == "system_lib_string"@) && t.len() > 0 {
            prev.push((t, Seq::<Seq<char>>::empty()))
        } else {
            prev
        }
    }
}

/// The declarator name of a node with a `declarator` field, or empty.
pub open spec fn c_decl_field_name(c: SyntaxNode) -> Seq<char> {
    match field_child(c, "declarator"@) {
        Some(d) => c_declarator_name(d),
        None => seq![],
    }
}

/// What one top-level C node contributes.
pub open spec fn c_child(c: SyntaxNode, m: Seq<char>) -> Extracted {
    if c.kind@ == "function_definition"@ {
        let name = c_decl_field_name(c);
        if name.len() > 0 {
            let fq = qualify(m, name);
            (
                seq![(EntityKind::Function, fq, None::<Seq<char>>)],
                seq![],
                body_calls(CallStyle::C, c, fq),
            )
        } else {
            no_items()
        }
    } else if c.kind@ == "struct_specifier"@ {
        match field_child(c, "name"@) {
            Some(n) => (
                seq![(EntityKind::Type, qualify(m, n.text@), None::<Seq<char>>)],
                seq![],
                seq![],
            ),
            None => no_items(),
        }
    } else if c.kind@ == "preproc_include"@ {
        (seq![], c_includes(c.children@, c.children@.len() as int), seq![])
    } else if c.kind@ == "type_definition"@ {
        let name = c_decl_field_name(c);
        if name.len() > 0 {
            (seq![(EntityKind::Type, qualify(m, name), None::<Seq<char>>)], seq![], seq![])
        } else {
            no_items()
        }
    } else {
        no_items()
    }
}

/// What the top-level nodes `ch[..n]` contribute, in order.
pub open spec fn c_fold(ch: Seq<SyntaxNode>, m: Seq<char>, n: int) -> Extracted
    decreases n,
{
    if n <= 0 || n > ch.len() {
        no_items()
    } else {
        join_items(c_fold(ch, m, n - 1), c_child(ch[n - 1], m))
    }
}

/// What a C source file's root node yields.
pub open spec fn spec_extract_c(root: SyntaxNode, m: Seq<char>) -> Extracted {
    c_fold(root.children@, m, root.children@.len() as int)
}

/// The name declared by a C declarator node.
pub fn extract_c_declarator_name(node: &SyntaxNode) -> (r: String)
    ensures
        r@ == c_declarator_name(*node),
    decreases node,
{
    if node.is_kind("identifier") {
        return node.node_text();
    }
    if node.is_kind("pointer_declarator") || node.is_kind("function_declarator") {
        proof {
            lemma_field_index_bounds(node.children@, "declarator"@, 0);
        }
        match node.child_by_field_name("declarator") {
            Some(inner) => {
                let ghost d = field_index_from(node.children@, "declarator"@, 0);
                assert(node.children@[d] == *inner);
                return extract_c_declarator_name(inner);
            },
            None => {},
        }
        let ks: [&str; 3] = ["identifier", "pointer_declarator", "function_declarator"];
        assert(ks@.map_values(|s: &str| s@) =~= seq![
            "identifier"@,
            "pointer_declarator"@,
            "function_declarator"@,
        ]);
        match child_index_of_kinds(node, &ks) {
            Some(i) => extract_c_declarator_name(&node.children[i]),
            None => String::new(),
        }
    } else {
        String::new()
    }
}

fn c_decl_field(c: &SyntaxNode) -> (r: String)
    ensures
        r@ == c_decl_field_name(*c),
{
    match c.child_by_field_name("declarator") {
        Some(d) => extract_c_declarator_name(d),
        None => String::new(),
    }
}

fn c_include_items(c: &SyntaxNode, imports: &mut Vec<Import>)
    ensures
        imports_view(final(imports)@) == imports_view(old(imports)@) + c_includes(
            c.children@,
            c.children@.len() as int,
        ),
{
    let set = vec!['"', '<', '>', ' '];
    assert(set@ =~= seq!['"', '<', '>', ' ']);
    let ks: [&str; 2] = ["string_literal", "system_lib_string"];
    assert(ks@.map_values(|s: &str| s@) =~= seq!["string_literal"@, "system_lib_string"@]);
    let mut i: usize = 0;
    while i < c.children.len()
        invariant
            i <= c.children@.len(),
            set@ == seq!['"', '<', '>', ' '],
            ks@.map_values(|s: &str| s@) == seq!["string_literal"@, "system_lib_string"@],
            imports_view(imports@) == imports_view(old(imports)@) + c_includes(
                c.children@,
                i as int,
            ),
        decreases c.children@.len() - i,
    {
        let n = &c.children[i];
        if kind_is_one_of(n.kind.as_str(), &ks) {
            let text = chars_of(n.text.as_str());
            let trimmed = trim_chars(&text, &set);
            if trimmed.len() > 0 {
                let ghost before = imports@;
                let names: Vec<String> = Vec::new();
                assert(names@.map_values(|s: String| s@) =~= Seq::<Seq<char>>::empty());
                imports.push(Import { module: string_of(&trimmed), imported_names: names });
                assert(imports_view(imports@) =~= imports_view(before).push(
                    (trimmed@, Seq::<Seq<char>>::empty()),
                ));
            }
        }
        i += 1;
    }
}

fn process_c_child(
    c: &SyntaxNode,
    m: &str,
    defs: &mut Vec<Definition>,
    imports: &mut Vec<Import>,
    calls: &mut Vec<Call>,
)
    ensures
        (defs_view(final(defs)@), imports_view(final(imports)@), calls_view(final(calls)@))
            == join_items(
            (defs_view(old(defs)@), imports_view(old(imports)@), calls_view(old(calls)@)),
            c_child(*c, m@),
        ),
{
    let ghost d0 = defs_view(defs@);
    let ghost i0 = imports_view(imports@);
    let ghost c0 = calls_view(calls@);
    if c.is_kind("function_definition") {
        let name = c_decl_field(c);
        let nv = chars_of(name.as_str());
        if nv.len() > 0 {
            let fq = qualify_name(m, name.as_str());
            defs.push(Definition { qualified_name: fq.clone(), kind: EntityKind::Function, parent: None });
            extract_calls_from_body(CallStyle::C, c, fq.as_str(), calls);
        }
    } else if c.is_kind("struct_specifier") {
        match c.child_by_field_name("name") {
            Some(n) => {
                let name = n.node_text();
                defs.push(
                    Definition {
                        qualified_name: qualify_name(m, name.as_str()),
                        kind: EntityKind::Type,
                        parent: None,
                    },
                );
            },
            None => {},
        }
    } else if c.is_kind("preproc_include") {
        c_include_items(c, imports);
    } else if c.is_kind("type_definition") {
        let name = c_decl_field(c);
        let nv = chars_of(name.as_str());
        if nv.len() > 0 {
            defs.push(
                Definition {
                    qualified_name: qualify_name(m, name.as_str()),
                    kind: EntityKind::Type,
                    parent: None,
                },
            );
        }
    }
    assert(defs_view(defs@) =~= d0 + c_child(*c, m@).0);
    assert(imports_view(imports@) =~= i0 + c_child(*c, m@).1);
    assert(calls_view(calls@) =~= c0 + c_child(*c, m@).2);
}

/// Definitions, imports and calls of a C source file, from its root node.
pub fn extract_c(root: &SyntaxNode, module_qname: &str) -> (r: (Vec<Definition>, Vec<Import>, Vec<Call>))
    ensures
        (defs_view(r.0@), imports_view(r.1@), calls_view(r.2@)) == spec_extract_c(
            *root,
            module_qname@,
        ),
{
    let mut defs: Vec<Definition> = Vec::new();
    let mut imports: Vec<Import> = Vec::new();
    let mut calls: Vec<Call> = Vec::new();
    let mut i: usize = 0;
    while i < root.children.len()
        invariant
            i <= root.children@.len(),
            (defs_view(defs@), imports_view(imports@), calls_view(calls@)) == c_fold(
                root.children@,
                module_qname@,
                i as int,
            ),
        decreases root.children@.len() - i,
    {
        process_c_child(&root.children[i], module_qname, &mut defs, &mut imports, &mut calls);
        i += 1;
    }
    (defs, imports, calls)
}

/// Every definition a top-level node contributes is among those of the
/// whole file.
proof fn lemma_c_fold_keeps(ch: Seq<SyntaxNode>, m: Seq<char>, n: int, i: int)
    requires
        0 <= i < n <= ch.len(),
    ensures
        forall|x: crate::analysis::extractors::calls::DefV| c_child(ch[i], m).0.contains(x) ==> #[trigger] c_fold(ch, m, n).0.contains(x),
    decreases n,
{
    let prev = c_fold(ch, m, n - 1);
    let here = c_child(ch[n - 1], m);
    assert(c_fold(ch, m, n).0 == prev.0 + here.0);
    if i < n - 1 {
        lemma_c_fold_keeps(ch, m, n - 1, i);
        assert forall|x: crate::analysis::extractors::calls::DefV| c_child(ch[i], m).0.contains(x) implies #[trigger] c_fold(ch, m, n).0.contains(x) by {
            assert(c_fold(ch, m, n - 1).0.contains(x));
            let k = choose|k: int| 0 <= k < prev.0.len() && #[trigger] prev.0[k] == x;
            assert((prev.0 + here.0)[k] == x);
        }
    } else {
        assert forall|x: crate::analysis::extractors::calls::DefV| c_child(ch[i], m).0.contains(x) implies #[trigger] c_fold(ch, m, n).0.contains(x) by {
            let k = choose|k: int| 0 <= k < here.0.len() && #[trigger] here.0[k] == x;
            assert((prev.0 + here.0)[prev.0.len() + k] == x);
        }
    }
}

proof fn lemma_c_function_node(c: SyntaxNode, m: Seq<char>)
    requires
        c.kind@ == "function_definition"@,
        c_decl_field_name(c).len() > 0,
    ensures
        c_child(c, m).0.len() > 0,
        c_child(c, m).0[0] == (EntityKind::Function, m + seq![':', ':'] + c_decl_field_name(c), None::<Seq<char>>),
{
    reveal_strlit("function_definition");
    reveal_strlit("struct_specifier");
    reveal_strlit("preproc_include");
    reveal_strlit("type_definition");

}

/// Functions are recorded: every function defined at the top of a C file whose declarator names it yields the function definition `m::name` with no parent.
pub proof fn lemma_c_function_recorded(root: SyntaxNode, m: Seq<char>, i: int)
    requires
        0 <= i < root.children@.len(),
        root.children@[i].kind@ == "function_definition"@,
        c_decl_field_name(root.children@[i]).len() > 0,
    ensures
        spec_extract_c(root, m).0.contains(
            (EntityKind::Function, m + seq![':', ':'] + c_decl_field_name(root.children@[i]), None::<Seq<char>>),
        ),
{
    lemma_c_function_node(root.children@[i], m);
    assert(c_child(root.children@[i], m).0.contains(c_child(root.children@[i], m).0[0]));
    lemma_c_fold_keeps(root.children@, m, root.children@.len() as int, i);
}

proof fn lemma_c_struct_node(c: SyntaxNode, m: Seq<char>)
    requires
        c.kind@ == "struct_specifier"@,
        field_child(c, "name"@) is Some,
    ensures
        c_child(c, m).0.len() > 0,
        c_child(c, m).0[0] == (EntityKind::Type, m + seq![':', ':'] + field_child(c, "name"@)->0.text@, None::<Seq<char>>),
{
    reveal_strlit("function_definition");
    reveal_strlit("struct_specifier");
    reveal_strlit("preproc_include");
    reveal_strlit("type_definition");
    assert("struct_specifier"@.len() != "function_definition"@.len());
}

/// Structs are recorded: every named struct at the top of a C file yields the type definition `m::name` with no parent.
pub proof fn lemma_c_struct_recorded(root: SyntaxNode, m: Seq<char>, i: int)
    requires
        0 <= i < root.children@.len(),
        root.children@[i].kind@ == "struct_specifier"@,
        field_child(root.children@[i], "name"@) is Some,
    ensures
        spec_extract_c(root, m).0.contains(
            (EntityKind::Type, m + seq![':', ':'] + field_child(root.children@[i], "name"@)->0.text@, None::<Seq<char>>),
        ),
{
    lemma_c_struct_node(root.children@[i], m);
    assert(c_child(root.children@[i], m).0.contains(c_child(root.children@[i], m).0[0]));
    lemma_c_fold_keeps(root.children@, m, root.children@.len() as int, i);
}

proof fn lemma_c_typedef_node(c: SyntaxNode, m: Seq<char>)
    requires
        c.kind@ == "type_definition"@,
        c_decl_field_name(c).len() > 0,
    ensures
        c_child(c, m).0.len() > 0,
        c_child(c, m).0[0] == (EntityKind::Type, m + seq![':', ':'] + c_decl_field_name(c), None::<Seq<char>>),
{
    reveal_strlit("function_definition");
    reveal_strlit("struct_specifier");
    reveal_strlit("preproc_include");
    reveal_strlit("type_definition");
    assert("type_definition"@.len() != "function_definition"@.len());
    assert("type_definition"@.len() != "struct_specifier"@.len());
    assert("type_definition"@[0] != "preproc_include"@[0]);
}

/// Type definitions are recorded: every `typedef` at the top of a C file whose declarator names it yields the type definition `m::name` with no parent.
pub proof fn lemma_c_typedef_recorded(root: SyntaxNode, m: Seq<char>, i: int)
    requires
        0 <= i < root.children@.len(),
        root.children@[i].kind@ == "type_definition"@,
        c_decl_field_name(root.children@[i]).len() > 0,
    ensures
        spec_extract_c(root, m).0.contains(
            (EntityKind::Type, m + seq![':', ':'] + c_decl_field_name(root.children@[i]), None::<Seq<char>>),
        ),
{
    lemma_c_typedef_node(root.children@[i], m);
    assert(c_child(root.children@[i], m).0.contains(c_child(root.children@[i], m).0[0]));
    lemma_c_fold_keeps(root.children@, m, root.children@.len() as int, i);
}

} // verus!
