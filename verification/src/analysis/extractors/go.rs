//! Go: functions, methods, types, imports and calls.

use vstd::prelude::*;
use crate::analysis::syntax::{field_child, kind_index_from, SyntaxNode};
use crate::analysis::extractors::calls::{body_calls, calls_view, defs_view, extract_calls_from_body, imports_view, join_items, no_items, qualify, qualify_name, CallStyle, Call, Definition, DefV, Extracted, Import, ImpV};
use crate::domain::entity::EntityKind;
use crate::text::{chars_of, str_is, string_of, trim_chars, trim_set};

verus! {

/// The receiver type name of a method: the first `type_identifier` child of
/// the receiver, or the first `type_identifier` inside a `pointer_type` child.
pub open spec fn go_receiver_from(ch: Seq<SyntaxNode>, i: int) -> Option<Seq<char>>
    decreases ch.len() - i,
{
    if i < 0 || i >= ch.len() {
        None
    } else if ch[i].kind@ == "type_identifier"@ {
        Some(ch[i].text@)
    } else if ch[i].kind@ == "pointer_type"@ && 0 <= kind_index_from(
        ch[i].children@,
        "type_identifier"@,
        0,
    ) {
        Some(ch[i].children@[kind_index_from(ch[i].children@, "type_identifier"@, 0)].text@)
    } else {
        go_receiver_from(ch, i + 1)
    }
}

/// The receiver type name of a `method_declaration`.
pub open spec fn go_receiver(method: SyntaxNode) -> Option<Seq<char>> {
    match field_child(method, "receiver"@) {
        Some(r) => go_receiver_from(r.children@, 0),
        None => None,
    }
}

/// The `type_spec` definitions among `ch[i..]`.
pub open spec fn go_type_specs(ch: Seq<SyntaxNode>, m: Seq<char>, i: int) -> Seq<DefV>
    decreases ch.len() - i,
{
    if i < 0 || i >= ch.len() {
        seq![]
    } else {
        let here = if ch[i].kind@ == "type_spec"@ {
            match field_child(ch[i], "name"@) {
                Some(n) => seq![(EntityKind::Type, qualify(m, n.text@), None::<Seq<char>>)],
                None => seq![],
            }
        } else {
            seq![]
        };
        here + go_type_specs(ch, m, i + 1)
    }
}

/// The text of the last child among `ch[..n]` whose kind is in `ks`, or the
/// empty text.
pub open spec fn last_text_of_kinds(ch: Seq<SyntaxNode>, ks: Seq<Seq<char>>, n: int) -> Seq<char>
    decreases n,
{
    if n <= 0 || n > ch.len() {
        seq![]
    } else if ks.contains(ch[n - 1].kind@) {
        ch[n - 1].text@
    } else {
        last_text_of_kinds(ch, ks, n - 1)
    }
}

/// The imports of one `import_spec`: its path (quotes trimmed) and its alias,
/// unless the alias is missing, `_` or `.`.
pub open spec fn go_import_spec(spec: SyntaxNode) -> Seq<ImpV> {
    let module = trim_set(
        last_text_of_kinds(spec.children@, seq!["interpreted_string_literal"@], spec.children@.len() as int),
        seq!['"'],
    );
    let alias = last_text_of_kinds(
        spec.children@,
        seq!["package_identifier"@, "blank_identifier"@, "dot"@],
        spec.children@.len() as int,
    );
    if module.len() == 0 {
        seq![]
    } else {
        let names = if alias.len() == 0 || alias == "_"@ || alias == "."@ {
            Seq::<Seq<char>>::empty()
        } else {
            seq![alias]
        };
        seq![(module, names)]
    }
}

/// The imports of the `import_spec` children among `ch[i..]`.
pub open spec fn go_spec_list(ch: Seq<SyntaxNode>, i: int) -> Seq<ImpV>
    decreases ch.len() - i,
{
    if i < 0 || i >= ch.len() {
        seq![]
    } else {
        let here = if ch[i].kind@ == "import_spec"@ {
            go_import_spec(ch[i])
        } else {
            seq![]
        };
        here + go_spec_list(ch, i + 1)
    }
}

/// The imports under the children `ch[i..]` of an `import_declaration`.
pub open spec fn go_import_children(ch: Seq<SyntaxNode>, i: int) -> Seq<ImpV>
    decreases ch.len() - i,
{
    if i < 0 || i >= ch.len() {
        seq![]
    } else {
        let here = if ch[i].kind@ == "import_spec"@ {
            go_import_spec(ch[i])
        } else if ch[i].kind@ == "import_spec_list"@ {
            go_spec_list(ch[i].children@, 0)
        } else {
            seq![]
        };
        here + go_import_children(ch, i + 1)
    }
}

/// The imports of an import node.
pub open spec fn go_imports(node: SyntaxNode) -> Seq<ImpV> {
    if node.kind@ == "import_spec"@ {
        go_import_spec(node)
    } else {
        go_import_children(node.children@, 0)
    }
}

/// What one top-level Go node contributes.
pub open spec fn go_child(c: SyntaxNode, m: Seq<char>) -> Extracted {
    if c.kind@ == "function_declaration"@ {
        match field_child(c, "name"@) {
            Some(n) => {
                let fq = qualify(m, n.text@);
                (
                    seq![(EntityKind::Function, fq, None::<Seq<char>>)],
                    seq![],
                    body_calls(CallStyle::Go, c, fq),
                )
            },
            None => no_items(),
        }
    } else if c.kind@ == "method_declaration"@ {
        match field_child(c, "name"@) {
            Some(n) => {
                let recv = go_receiver(c);
                let fq = match recv {
                    Some(r) => qualify(qualify(m, r), n.text@),
                    None => qualify(m, n.text@),
                };
                (seq![(EntityKind::Method, fq, recv)], seq![], body_calls(CallStyle::Go, c, fq))
            },
            None => no_items(),
        }
    } else if c.kind@ == "type_declaration"@ {
        (go_type_specs(c.children@, m, 0), seq![], seq![])
    } else if c.kind@ == "import_declaration"@ {
        (seq![], go_imports(c), seq![])
    } else {
        no_items()
    }
}

/// What the top-level nodes `ch[..n]` contribute, in order.
pub open spec fn go_fold(ch: Seq<SyntaxNode>, m: Seq<char>, n: int) -> Extracted
    decreases n,
{
    if n <= 0 || n > ch.len() {
        no_items()
    } else {
        join_items(go_fold(ch, m, n - 1), go_child(ch[n - 1], m))
    }
}

/// What a Go source file's root node yields.
pub open spec fn spec_extract_go(root: SyntaxNode, m: Seq<char>) -> Extracted {
    go_fold(root.children@, m, root.children@.len() as int)
}

fn go_receiver_name(method: &SyntaxNode) -> (r: Option<String>)
    ensures
        match r {
            Some(s) => go_receiver(*method) == Some(s@),
            None => go_receiver(*method) is None,
        },
{
    let recv = match method.child_by_field_name("receiver") {
        Some(r) => r,
        None => return None,
    };
    let mut i: usize = 0;
    while i < recv.children.len()
        invariant
            i <= recv.children@.len(),
            field_child(*method, "receiver"@) == Some(*recv),
            go_receiver_from(recv.children@, 0) == go_receiver_from(recv.children@, i as int),
        decreases recv.children@.len() - i,
    {
        let n = &recv.children[i];
        if n.is_kind("type_identifier") {
            return Some(n.node_text());
        }
        if n.is_kind("pointer_type") {
            match n.child_index_of_kind("type_identifier") {
                Some(j) => return Some(n.children[j].node_text()),
                None => {},
            }
        }
        i += 1;
    }
    None
}

/// Text of the last child of `node` whose kind is in `ks`.
fn last_text_of(node: &SyntaxNode, ks: &[&str]) -> (r: Vec<char>)
    ensures
        r@ == last_text_of_kinds(
            node.children@,
            ks@.map_values(|s: &str| s@),
            node.children@.len() as int,
        ),
{
    let ghost kv = ks@.map_values(|s: &str| s@);
    let mut out: Vec<char> = Vec::new();
    let mut i: usize = 0;
    while i < node.children.len()
        invariant
            i <= node.children@.len(),
            kv == ks@.map_values(|s: &str| s@),
            out@ == last_text_of_kinds(node.children@, kv, i as int),
        decreases node.children@.len() - i,
    {
        if crate::analysis::extractors::calls::kind_is_one_of(node.children[i].kind.as_str(), ks) {
            out = chars_of(node.children[i].text.as_str());
        }
        i += 1;
    }
    out
}

fn go_import_spec_items(spec: &SyntaxNode, imports: &mut Vec<Import>)
    ensures
        imports_view(final(imports)@) == imports_view(old(imports)@) + go_import_spec(*spec),
{
    let lits: [&str; 1] = ["interpreted_string_literal"];
    assert(lits@.map_values(|s: &str| s@) =~= seq!["interpreted_string_literal"@]);
    let raw = last_text_of(spec, &lits);
    let quote = vec!['"'];
    assert(quote@ =~= seq!['"']);
    let module = trim_chars(&raw, &quote);
    let aks: [&str; 3] = ["package_identifier", "blank_identifier", "dot"];
    assert(aks@.map_values(|s: &str| s@) =~= seq!["package_identifier"@, "blank_identifier"@, "dot"@]);
    let alias = last_text_of(spec, &aks);
    if module.len() == 0 {
        return;
    }
    let alias_s = string_of(&alias);
    let names: Vec<String> = if alias.len() == 0 || str_is(alias_s.as_str(), "_") || str_is(
        alias_s.as_str(),
        ".",
    ) {
        Vec::new()
    } else {
        vec![alias_s]
    };
    let ghost before = imports@;
    let imp = Import { module: string_of(&module), imported_names: names };
    assert(imp@.1 =~= go_import_spec(*spec)[0].1);
    imports.push(imp);
    assert(imports_view(imports@) =~= imports_view(before) + go_import_spec(*spec));
}

/// Appends the imports of an import node (`import_declaration` or
/// `import_spec`).
pub fn extract_go_import(node: &SyntaxNode, imports: &mut Vec<Import>)
    ensures
        imports_view(final(imports)@) == imports_view(old(imports)@) + go_imports(*node),
{
    if node.is_kind("import_spec") {
        go_import_spec_items(node, imports);
        return;
    }
    let mut i: usize = 0;
    while i < node.children.len()
        invariant
            i <= node.children@.len(),
            node.kind@ != "import_spec"@,
            imports_view(imports@) + go_import_children(node.children@, i as int) == imports_view(
                old(imports)@,
            ) + go_imports(*node),
        decreases node.children@.len() - i,
    {
        let child = &node.children[i];
        let ghost before = imports@;
        if child.is_kind("import_spec") {
            go_import_spec_items(child, imports);
        } else if child.is_kind("import_spec_list") {
            let mut j: usize = 0;
            while j < child.children.len()
                invariant
                    j <= child.children@.len(),
                    child.kind@ == "import_spec_list"@,
                    child.kind@ != "import_spec"@,
                    imports_view(imports@) + go_spec_list(child.children@, j as int)
                        == imports_view(before) + go_spec_list(child.children@, 0),
                decreases child.children@.len() - j,
            {
                let ghost b2 = imports@;
                if child.children[j].is_kind("import_spec") {
                    go_import_spec_items(&child.children[j], imports);
                }
                assert(imports_view(imports@) + go_spec_list(child.children@, j + 1) =~= imports_view(
                    b2,
                ) + go_spec_list(child.children@, j as int));
                j += 1;
            }
            proof {
                reveal_strlit("import_spec");
                reveal_strlit("import_spec_list");
            }
        }
        assert(imports_view(imports@) + go_import_children(node.children@, i + 1) =~= imports_view(
            before,
        ) + go_import_children(node.children@, i as int));
        i += 1;
    }
}

fn go_type_decl(c: &SyntaxNode, m: &str, defs: &mut Vec<Definition>)
    ensures
        defs_view(final(defs)@) == defs_view(old(defs)@) + go_type_specs(c.children@, m@, 0),
{
    let mut i: usize = 0;
    while i < c.children.len()
        invariant
            i <= c.children@.len(),
            defs_view(defs@) + go_type_specs(c.children@, m@, i as int) == defs_view(old(defs)@)
                + go_type_specs(c.children@, m@, 0),
        decreases c.children@.len() - i,
    {
        let ghost before = defs@;
        let t = &c.children[i];
        if t.is_kind("type_spec") {
            match t.child_by_field_name("name") {
                Some(n) => {
                    let name = n.node_text();
                    defs.push(
                        Definition {
                            qualified_name: qualify_name(m, name.as_str()),
                            kind: EntityKind::Type,
                            parent: None,
                        },
                    );
                },
                None => {},
            }
        }
        assert(defs_view(defs@) + go_type_specs(c.children@, m@, i + 1) =~= defs_view(before)
            + go_type_specs(c.children@, m@, i as int));
        i += 1;
    }
}

/// Appends what one top-level node contributes.
fn process_go_child(
    c: &SyntaxNode,
    m: &str,
    defs: &mut Vec<Definition>,
    imports: &mut Vec<Import>,
    calls: &mut Vec<Call>,
)
    ensures
        (defs_view(final(defs)@), imports_view(final(imports)@), calls_view(final(calls)@))
            == join_items(
            (defs_view(old(defs)@), imports_view(old(imports)@), calls_view(old(calls)@)),
            go_child(*c, m@),
        ),
{
    let ghost d0 = defs_view(defs@);
    let ghost i0 = imports_view(imports@);
    let ghost c0 = calls_view(calls@);
    if c.is_kind("function_declaration") {
        match c.child_by_field_name("name") {
            Some(n) => {
                let name = n.node_text();
                let fq = qualify_name(m, name.as_str());
                defs.push(
                    Definition { qualified_name: fq.clone(), kind: EntityKind::Function, parent: None },
                );
                extract_calls_from_body(CallStyle::Go, c, fq.as_str(), calls);
            },
            None => {},
        }
    } else if c.is_kind("method_declaration") {
        match c.child_by_field_name("name") {
            Some(n) => {
                let method_name = n.node_text();
                let receiver = go_receiver_name(c);
                let fq = match &receiver {
                    Some(recv) => {
                        let base = qualify_name(m, recv.as_str());
                        qualify_name(base.as_str(), method_name.as_str())
                    },
                    None => qualify_name(m, method_name.as_str()),
                };
                let ghost pv = crate::analysis::extractors::calls::opt_view(receiver);
                defs.push(Definition { qualified_name: fq.clone(), kind: EntityKind::Method, parent: receiver });
                extract_calls_from_body(CallStyle::Go, c, fq.as_str(), calls);
            },
            None => {},
        }
    } else if c.is_kind("type_declaration") {
        go_type_decl(c, m, defs);
    } else if c.is_kind("import_declaration") {
        extract_go_import(c, imports);
    }
    proof {
        reveal_strlit("function_declaration");
        reveal_strlit("method_declaration");
        reveal_strlit("type_declaration");
        reveal_strlit("import_declaration");
    }
    assert(defs_view(defs@) =~= d0 + go_child(*c, m@).0);
    assert(imports_view(imports@) =~= i0 + go_child(*c, m@).1);
    assert(calls_view(calls@) =~= c0 + go_child(*c, m@).2);
}

/// Definitions, imports and calls of a Go source file, from its root node.
pub fn extract_go(root: &SyntaxNode, module_qname: &str) -> (r: (Vec<Definition>, Vec<Import>, Vec<Call>))
    ensures
        (defs_view(r.0@), imports_view(r.1@), calls_view(r.2@)) == spec_extract_go(
            *root,
            module_qname@,
        ),
{
    let mut defs: Vec<Definition> = Vec::new();
    let mut imports: Vec<Import> = Vec::new();
    let mut calls: Vec<Call> = Vec::new();
    let mut i: usize = 0;
    while i < root.children.len()
        invariant
            i <= root.children@.len(),
            (defs_view(defs@), imports_view(imports@), calls_view(calls@)) == go_fold(
                root.children@,
                module_qname@,
                i as int,
            ),
        decreases root.children@.len() - i,
    {
        process_go_child(&root.children[i], module_qname, &mut defs, &mut imports, &mut calls);
        i += 1;
    }
    (defs, imports, calls)
}

/// Every definition a top-level node contributes is among those of the
/// whole file.
proof fn lemma_go_fold_keeps(ch: Seq<SyntaxNode>, m: Seq<char>, n: int, i: int)
    requires
        0 <= i < n <= ch.len(),
    ensures
        forall|x: crate::analysis::extractors::calls::DefV| go_child(ch[i], m).0.contains(x) ==> #[trigger] go_fold(ch, m, n).0.contains(x),
    decreases n,
{
    let prev = go_fold(ch, m, n - 1);
    let here = go_child(ch[n - 1], m);
    assert(go_fold(ch, m, n).0 == prev.0 + here.0);
    if i < n - 1 {
        lemma_go_fold_keeps(ch, m, n - 1, i);
        assert forall|x: crate::analysis::extractors::calls::DefV| go_child(ch[i], m).0.contains(x) implies #[trigger] go_fold(ch, m, n).0.contains(x) by {
            assert(go_fold(ch, m, n - 1).0.contains(x));
            let k = choose|k: int| 0 <= k < prev.0.len() && #[trigger] prev.0[k] == x;
            assert((prev.0 + here.0)[k] == x);
        }
    } else {
        assert forall|x: crate::analysis::extractors::calls::DefV| go_child(ch[i], m).0.contains(x) implies #[trigger] go_fold(ch, m, n).0.contains(x) by {
            let k = choose|k: int| 0 <= k < here.0.len() && #[trigger] here.0[k] == x;
            assert((prev.0 + here.0)[prev.0.len() + k] == x);
        }
    }
}

proof fn lemma_go_function_node(c: SyntaxNode, m: Seq<char>)
    requires
        c.kind@ == "function_declaration"@,
        field_child(c, "name"@) is Some,
    ensures
        go_child(c, m).0.len() > 0,
        go_child(c, m).0[0] == (EntityKind::Function, m + seq![':', ':'] + field_child(c, "name"@)->0.text@, None::<Seq<char>>),
{
    reveal_strlit("function_declaration");
    reveal_strlit("method_declaration");
    reveal_strlit("type_declaration");
    reveal_strlit("import_declaration");

}

/// Functions are recorded: every named function at the top of a Go file yields the function definition `m::name` with no parent.
pub proof fn lemma_go_function_recorded(root: SyntaxNode, m: Seq<char>, i: int)
    requires
        0 <= i < root.children@.len(),
        root.children@[i].kind@ == "function_declaration"@,
        field_child(root.children@[i], "name"@) is Some,
    ensures
        spec_extract_go(root, m).0.contains(
            (EntityKind::Function, m + seq![':', ':'] + field_child(root.children@[i], "name"@)->0.text@, None::<Seq<char>>),
        ),
{
    lemma_go_function_node(root.children@[i], m);
    assert(go_child(root.children@[i], m).0.contains(go_child(root.children@[i], m).0[0]));
    lemma_go_fold_keeps(root.children@, m, root.children@.len() as int, i);
}

proof fn lemma_go_method_node(c: SyntaxNode, m: Seq<char>)
    requires
        c.kind@ == "method_declaration"@,
        field_child(c, "name"@) is Some && go_receiver(c) is Some,
    ensures
        go_child(c, m).0.len() > 0,
        go_child(c, m).0[0] == (EntityKind::Method, m + seq![':', ':'] + go_receiver(c)->0 + seq![':', ':'] + field_child(c, "name"@)->0.text@, go_receiver(c)),
{
    reveal_strlit("function_declaration");
    reveal_strlit("method_declaration");
    reveal_strlit("type_declaration");
    reveal_strlit("import_declaration");
    assert("method_declaration"@.len() != "function_declaration"@.len());
}

/// Methods are recorded under their receiver: every named method with receiver type `R` at the top of a Go file yields the method definition `m::R::name` whose parent is `R`.
pub proof fn lemma_go_method_recorded(root: SyntaxNode, m: Seq<char>, i: int)
    requires
        0 <= i < root.children@.len(),
        root.children@[i].kind@ == "method_declaration"@,
        field_child(root.children@[i], "name"@) is Some && go_receiver(root.children@[i]) is Some,
    ensures
        spec_extract_go(root, m).0.contains(
            (EntityKind::Method, m + seq![':', ':'] + go_receiver(root.children@[i])->0 + seq![':', ':'] + field_child(root.children@[i], "name"@)->0.text@, go_receiver(root.children@[i])),
        ),
{
    lemma_go_method_node(root.children@[i], m);
    assert(go_child(root.children@[i], m).0.contains(go_child(root.children@[i], m).0[0]));
    lemma_go_fold_keeps(root.children@, m, root.children@.len() as int, i);
}

} // verus!
