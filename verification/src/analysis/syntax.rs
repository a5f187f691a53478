//! A plain syntax tree: what the extractors read of a parsed source file.

use vstd::prelude::*;
use crate::analysis::languages::Language;
use crate::text::{chars_equal, chars_of};

verus! {

/// A node of a concrete syntax tree.
///
/// `kind` is the grammar's node kind (for anonymous tokens, the token text
/// itself), `text` the source text the node spans, `field` the field name
/// under which the node sits in its parent, and `children` all child nodes,
/// named and anonymous, in source order.
#[derive(Debug)]
pub struct SyntaxNode {
    pub kind: String,
    pub text: String,
    pub field: Option<String>,
    pub children: Vec<SyntaxNode>,
}

/// Whether node `c` sits under field `f` of its parent.
pub open spec fn has_field(c: SyntaxNode, f: Seq<char>) -> bool {
    c.field matches Some(x) && x@ == f
}

/// Index of the first child of `ch` at or after `i` under field `f`, or -1.
pub open spec fn field_index_from(ch: Seq<SyntaxNode>, f: Seq<char>, i: int) -> int
    decreases ch.len() - i,
{
    if i < 0 || i >= ch.len() {
        -1
    } else if has_field(ch[i], f) {
        i
    } else {
        field_index_from(ch, f, i + 1)
    }
}

/// The first child of `n` under field `f` (tree-sitter `child_by_field_name`).
pub open spec fn field_child(n: SyntaxNode, f: Seq<char>) -> Option<SyntaxNode> {
    let i = field_index_from(n.children@, f, 0);
    if i < 0 {
        None
    } else {
        Some(n.children@[i])
    }
}

pub proof fn lemma_field_index_bounds(ch: Seq<SyntaxNode>, f: Seq<char>, i: int)
    ensures
        field_index_from(ch, f, i) == -1 || (i <= field_index_from(ch, f, i) < ch.len()
            && has_field(ch[field_index_from(ch, f, i)], f)),
    decreases ch.len() - i,
{
    if !(i < 0 || i >= ch.len()) && !has_field(ch[i], f) {
        lemma_field_index_bounds(ch, f, i + 1);
    }
}

/// Index of the first child of `ch` at or after `i` whose kind is `k`, or -1.
pub open spec fn kind_index_from(ch: Seq<SyntaxNode>, k: Seq<char>, i: int) -> int
    decreases ch.len() - i,
{
    if i < 0 || i >= ch.len() {
        -1
    } else if ch[i].kind@ == k {
        i
    } else {
        kind_index_from(ch, k, i + 1)
    }
}

pub proof fn lemma_kind_index_bounds(ch: Seq<SyntaxNode>, k: Seq<char>, i: int)
    ensures
        kind_index_from(ch, k, i) == -1 || (i <= kind_index_from(ch, k, i) < ch.len()
            && ch[kind_index_from(ch, k, i)].kind@ == k),
    decreases ch.len() - i,
{
    if !(i < 0 || i >= ch.len()) && ch[i].kind@ != k {
        lemma_kind_index_bounds(ch, k, i + 1);
    }
}

impl SyntaxNode {
    /// Whether this node's kind is `k`.
    pub fn is_kind(&self, k: &str) -> (r: bool)
        ensures
            r == (self.kind@ == k@),
    {
        let a = chars_of(self.kind.as_str());
        let b = chars_of(k);
        chars_equal(&a, &b)
    }

    /// The first child under field `name`.
    pub fn child_by_field_name(&self, name: &str) -> (r: Option<&SyntaxNode>)
        ensures
            match r {
                Some(c) => field_child(*self, name@) == Some(*c),
                None => field_child(*self, name@) is None,
            },
    {
        let want = chars_of(name);
        let mut i: usize = 0;
        while i < self.children.len()
            invariant
                i <= self.children@.len(),
                want@ == name@,
                field_index_from(self.children@, name@, 0) == field_index_from(
                    self.children@,
                    name@,
                    i as int,
                ),
            decreases self.children@.len() - i,
        {
            let c = &self.children[i];
            match &c.field {
                Some(f) => {
                    let fv = chars_of(f.as_str());
                    if chars_equal(&fv, &want) {
                        return Some(c);
                    }
                },
                None => {},
            }
            i += 1;
        }
        None
    }

    /// The index of the first child whose kind is `k`.
    pub fn child_index_of_kind(&self, k: &str) -> (r: Option<usize>)
        ensures
            match r {
                Some(i) => i as int == kind_index_from(self.children@, k@, 0) && i
                    < self.children@.len(),
                None => kind_index_from(self.children@, k@, 0) == -1,
            },
    {
        let mut i: usize = 0;
        while i < self.children.len()
            invariant
                i <= self.children@.len(),
                kind_index_from(self.children@, k@, 0) == kind_index_from(
                    self.children@,
                    k@,
                    i as int,
                ),
            decreases self.children@.len() - i,
        {
            if self.children[i].is_kind(k) {
                return Some(i);
            }
            i += 1;
        }
        None
    }

    /// The source text the node spans.
    pub fn node_text(&self) -> (r: String)
        ensures
            r@ == self.text@,
    {
        self.text.clone()
    }
}

#[verifier::external_type_specification]
#[verifier::external_body]
pub struct ExTsNode<'tree>(tree_sitter::Node<'tree>);

/// The syntax tree the tree-sitter grammar of `lang` parses `source` into
/// (`None` when the grammar cannot be loaded).
pub uninterp spec fn parsed_syntax(lang: Language, source: Seq<char>) -> Option<SyntaxNode>;

/// Parses `source` with the tree-sitter grammar of `lang` (tree-sitter
/// `Parser::set_language` and `Parser::parse`) and converts the tree.
///
/// The result is named [`parsed_syntax`] of the language and the source:
/// parsing without a timeout or cancellation flag depends on nothing else.
/// `None` comes when the grammar is refused by the parser.
#[verifier::external_body]
pub fn parse_syntax(lang: Language, source: &str) -> (r: Option<SyntaxNode>)
    ensures
        r == parsed_syntax(lang, source@),
{
    let grammar: tree_sitter::Language = match lang {
        Language::Python => tree_sitter_python::LANGUAGE.into(),
        Language::Rust => tree_sitter_rust::LANGUAGE.into(),
        Language::JavaScript => tree_sitter_javascript::LANGUAGE.into(),
        Language::C => tree_sitter_c::LANGUAGE.into(),
        Language::Go => tree_sitter_go::LANGUAGE.into(),
        Language::Java => tree_sitter_java::LANGUAGE.into(),
    };
    let mut parser = tree_sitter::Parser::new();
    parser.set_language(&grammar).ok()?;
    let tree = parser.parse(source, None)?;
    Some(syntax_of_ts_node(tree.root_node(), None, source))
}

/// Converts a tree-sitter node and its subtree, one node for one node:
/// kind, spanned source text (tree-sitter `Node::utf8_text`), the field name
/// the cursor reports for it, and all children in cursor order.  Used only
/// by [`parse_syntax`]; nothing is stated of it on its own.
#[verifier::external_body]
fn syntax_of_ts_node(node: tree_sitter::Node<'_>, field: Option<&str>, source: &str) -> SyntaxNode {
    let mut children = Vec::new();
    let mut cursor = node.walk();
    if cursor.goto_first_child() {
        loop {
            children.push(syntax_of_ts_node(cursor.node(), cursor.field_name(), source));
            if !cursor.goto_next_sibling() {
                break;
            }
        }
    }
    let text = node.utf8_text(source.as_bytes()).unwrap_or("").to_string();
    SyntaxNode { kind: node.kind().to_string(), text, field: field.map(str::to_string), children }
}

} // verus!
