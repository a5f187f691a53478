//! `sync`: bringing the model in line with a scan of the code.
//!
//! The structural part of a sync is planned here from the scan report: the
//! module entities for directories and files, the definition entities, and
//! the `contains`, `uses` and `calls` relations between them.  Entities are
//! named by their qualified name, which is how the model store identifies
//! them when it upserts; the caller upserts the planned entities and adds the
//! planned relations between their ids.  The drift that follows (stale
//! entities, fan metrics) is decided here too, from what the caller reads.

use vstd::prelude::*;
use crate::analysis::extractors::calls::{
    calls_view, qualify, qualify_name, CallV, Definition, Import,
};
use crate::analysis::scan::{bump_count, bumped, counts_view, FileScan, ScanReport};
use crate::domain::report::SyncReport;
use vstd::string::*;
use crate::domain::entity::EntityKind;
use crate::domain::relations::EntityRelationKind;
use crate::naming::{
    ancestors, last_segment, parent_qname, path_to_qualified, spec_ancestors, spec_last_segment,
    spec_parent_qname, spec_path_to_qualified,
};
use crate::order::{
    contains_str, insert_sorted, lemma_contains_concat, lemma_contains_push, strictly_sorted,
    strs_view,
};
use crate::naming::sep;
use crate::text::{
    decimal, usize_text, chars_of, contains_text, last_index_of, rfind_char, slice_chars, string_of, text_contains,
};

verus! {

/// A relation to add, between two entities named by qualified name.
#[derive(Debug)]
pub struct PlannedRelation {
    pub from: String,
    pub to: String,
    pub kind: EntityRelationKind,
}

/// The view of a planned relation: `(from, to, kind)`.
pub type RelV = (Seq<char>, Seq<char>, EntityRelationKind);

impl View for PlannedRelation {
    type V = RelV;

    open spec fn view(&self) -> RelV {
        (self.from@, self.to@, self.kind)
    }
}

/// The views of a vector of planned relations.
pub open spec fn rels_view(v: Seq<PlannedRelation>) -> Seq<RelV> {
    v.map_values(|r: PlannedRelation| r@)
}

/// The directory part of a `/`-separated relative path (empty for a file at
/// the top).
pub open spec fn parent_path(p: Seq<char>) -> Seq<char> {
    let k = rfind_char(p, '/', p.len() - 1);
    if k < 0 {
        seq![]
    } else {
        p.subrange(0, k)
    }
}

/// Exec form of [`parent_path`].
pub fn parent_path_of(p: &str) -> (r: String)
    ensures
        r@ == parent_path(p@),
{
    let v = chars_of(p);
    match last_index_of(&v, '/') {
        Some(k) => string_of(&slice_chars(&v, 0, k)),
        None => {
            let e: Vec<char> = Vec::new();
            string_of(&e)
        },
    }
}

/// The qualified name of the module entity of a file.
pub open spec fn file_qname(p: Seq<char>) -> Seq<char> {
    spec_path_to_qualified(p)
}

/// The qualified name of the directory a file is in.
pub open spec fn dir_qname(p: Seq<char>) -> Seq<char> {
    spec_path_to_qualified(parent_path(p))
}

/// The directory module names one file contributes: the ancestors of its
/// directory's name, then that name itself when it is not empty.
pub open spec fn dir_candidates(p: Seq<char>) -> Seq<Seq<char>> {
    let dq = dir_qname(p);
    if dq.len() > 0 {
        spec_ancestors(dq).push(dq)
    } else {
        spec_ancestors(dq)
    }
}

/// Whether `d` is a directory module name contributed by one of the first
/// `n` files.
pub open spec fn is_dir_upto(fs: Seq<FileScan>, n: int, d: Seq<char>) -> bool {
    exists|k: int| 0 <= k < n && #[trigger] dir_candidates(fs[k].path@).contains(d)
}

/// Whether `d` is a directory module name of the scan.
pub open spec fn is_scanned_dir(fs: Seq<FileScan>, d: Seq<char>) -> bool {
    is_dir_upto(fs, fs.len() as int, d)
}

/// The directory module names of a scan, sorted, each once.
pub fn plan_dirs(file_scans: &Vec<FileScan>) -> (dirs: Vec<String>)
    ensures
        strictly_sorted(strs_view(dirs@)),
        forall|d: Seq<char>| strs_view(dirs@).contains(d) <==> is_scanned_dir(file_scans@, d),
{
    let mut dirs: Vec<String> = Vec::new();
    let mut i: usize = 0;
    while i < file_scans.len()
        invariant
            i <= file_scans@.len(),
            strictly_sorted(strs_view(dirs@)),
            forall|d: Seq<char>|
                strs_view(dirs@).contains(d) <==> is_dir_upto(file_scans@, i as int, d),
        decreases file_scans@.len() - i,
    {
        let ghost before = strs_view(dirs@);
        let parent = parent_path_of(file_scans[i].path.as_str());
        let dq = path_to_qualified(parent.as_str());
        let anc = ancestors(dq.as_str());
        let ghost av = anc@.map_values(|x: String| x@);
        let mut j: usize = 0;
        while j < anc.len()
            invariant
                j <= anc@.len(),
                av == anc@.map_values(|x: String| x@),
                strictly_sorted(strs_view(dirs@)),
                forall|d: Seq<char>|
                    #[trigger] strs_view(dirs@).contains(d) <==> (before.contains(d) || av.subrange(
                        0,
                        j as int,
                    ).contains(d)),
            decreases anc@.len() - j,
        {
            let ghost d0 = strs_view(dirs@);
            insert_sorted(&mut dirs, anc[j].as_str());
            proof {
                assert(anc@[j as int]@ == av[j as int]);
                assert(av.subrange(0, j + 1) =~= av.subrange(0, j as int).push(av[j as int]));
                lemma_contains_push(av.subrange(0, j as int), av[j as int]);
                assert forall|d: Seq<char>|
                    #[trigger] strs_view(dirs@).contains(d) <==> (before.contains(d) || av.subrange(
                        0,
                        j + 1,
                    ).contains(d)) by {
                    assert(strs_view(dirs@).contains(d) <==> (d0.contains(d) || d == av[j as int]));
                    assert(av.subrange(0, j + 1).contains(d) <==> (av.subrange(0, j as int).contains(d) || d == av[j as int]));
                }
            }
            j += 1;
        }
        assert(av.subrange(0, av.len() as int) =~= av);
        let ghost mid = strs_view(dirs@);
        if !dq.as_str().is_empty() {
            insert_sorted(&mut dirs, dq.as_str());
        }
        proof {
            let p = file_scans@[i as int].path@;
            assert(dq@ == dir_qname(p));
            assert(av == spec_ancestors(dir_qname(p)));
            assert forall|d: Seq<char>|
                strs_view(dirs@).contains(d) <==> is_dir_upto(file_scans@, i + 1, d) by {
                let c = dir_candidates(p);
                lemma_contains_push(av, dq@);
                if is_dir_upto(file_scans@, i + 1, d) {
                    let k = choose|k: int|
                        0 <= k < i + 1 && #[trigger] dir_candidates(file_scans@[k].path@).contains(
                            d,
                        );
                    if k < i {
                        assert(is_dir_upto(file_scans@, i as int, d));
                    }
                }
                if is_dir_upto(file_scans@, i as int, d) {
                    let k = choose|k: int|
                        0 <= k < i && #[trigger] dir_candidates(file_scans@[k].path@).contains(d);
                    assert(is_dir_upto(file_scans@, i + 1, d));
                }
                if c.contains(d) {
                    assert(dir_candidates(file_scans@[i as int].path@).contains(d));
                }
            }
        }
        i += 1;
    }
    dirs
}

/// The `contains` relation from a directory's parent directory, when that
/// parent is a non-empty name among `dirs`.
pub open spec fn dir_relation(dirs: Seq<Seq<char>>, d: Seq<char>) -> Seq<RelV> {
    match spec_parent_qname(d) {
        Some(p) => if p.len() > 0 && dirs.contains(p) {
            seq![(p, d, EntityRelationKind::Contains)]
        } else {
            seq![]
        },
        None => seq![],
    }
}

/// The directory relations of `dirs[..n]`, in order.
pub open spec fn dir_relations(dirs: Seq<Seq<char>>, n: int) -> Seq<RelV>
    decreases n,
{
    if n <= 0 || n > dirs.len() {
        seq![]
    } else {
        dir_relations(dirs, n - 1) + dir_relation(dirs, dirs[n - 1])
    }
}

/// Appends the `contains` relations between the directory modules `dirs`.
pub fn plan_dir_relations(dirs: &Vec<String>, rels: &mut Vec<PlannedRelation>)
    ensures
        rels_view(final(rels)@) == rels_view(old(rels)@) + dir_relations(
            strs_view(dirs@),
            dirs@.len() as int,
        ),
{
    let ghost dv = strs_view(dirs@);
    let mut i: usize = 0;
    while i < dirs.len()
        invariant
            i <= dirs@.len(),
            dv == strs_view(dirs@),
            rels_view(rels@) == rels_view(old(rels)@) + dir_relations(dv, i as int),
        decreases dirs@.len() - i,
    {
        let ghost r0 = rels_view(rels@);
        let d = dirs[i].as_str();
        assert(d@ == dv[i as int]);
        match parent_qname(d) {
            Some(p) => {
                if !p.is_empty() && contains_str(dirs, p) {
                    rels.push(
                        PlannedRelation {
                            from: p.to_string(),
                            to: d.to_string(),
                            kind: EntityRelationKind::Contains,
                        },
                    );
                    assert(rels_view(rels@) =~= r0.push((p@, d@, EntityRelationKind::Contains)));
                }
            },
            None => {},
        }
        assert(rels_view(rels@) =~= rels_view(old(rels)@) + dir_relations(dv, i + 1));
        i += 1;
    }
}

/// The file module names of a scan, one per file, in order.
pub open spec fn file_qnames(fs: Seq<FileScan>) -> Seq<Seq<char>> {
    fs.map_values(|f: FileScan| file_qname(f.path@))
}

/// The `contains` relation into the module of file `fs[i]`: from its
/// directory's module, when that name is not empty and is a directory module
/// or the module of a file up to this one.
pub open spec fn file_relation(fs: Seq<FileScan>, dirs: Seq<Seq<char>>, i: int) -> Seq<RelV> {
    let pq = dir_qname(fs[i].path@);
    if pq.len() > 0 && (dirs.contains(pq) || file_qnames(fs).subrange(0, i + 1).contains(pq)) {
        seq![(pq, file_qname(fs[i].path@), EntityRelationKind::Contains)]
    } else {
        seq![]
    }
}

/// The file relations of `fs[..n]`, in order.
pub open spec fn file_relations(fs: Seq<FileScan>, dirs: Seq<Seq<char>>, n: int) -> Seq<RelV>
    decreases n,
{
    if n <= 0 || n > fs.len() {
        seq![]
    } else {
        file_relations(fs, dirs, n - 1) + file_relation(fs, dirs, n - 1)
    }
}

/// The file module names of a scan, and the `contains` relations into them
/// (appended to `rels`).
pub fn plan_files(file_scans: &Vec<FileScan>, dirs: &Vec<String>, rels: &mut Vec<
    PlannedRelation,
>) -> (files: Vec<String>)
    ensures
        strs_view(files@) == file_qnames(file_scans@),
        rels_view(final(rels)@) == rels_view(old(rels)@) + file_relations(
            file_scans@,
            strs_view(dirs@),
            file_scans@.len() as int,
        ),
{
    let ghost fs = file_scans@;
    let ghost dv = strs_view(dirs@);
    let mut files: Vec<String> = Vec::new();
    let mut i: usize = 0;
    while i < file_scans.len()
        invariant
            i <= fs.len(),
            fs == file_scans@,
            dv == strs_view(dirs@),
            strs_view(files@) == file_qnames(fs).subrange(0, i as int),
            rels_view(rels@) == rels_view(old(rels)@) + file_relations(fs, dv, i as int),
        decreases fs.len() - i,
    {
        let path = file_scans[i].path.as_str();
        let fq = path_to_qualified(path);
        let ghost f0 = files@;
        files.push(fq.clone());
        assert(strs_view(files@) =~= strs_view(f0).push(fq@));
        assert(file_qnames(fs).subrange(0, i + 1) =~= file_qnames(fs).subrange(0, i as int).push(
            file_qname(fs[i as int].path@),
        ));
        let parent = parent_path_of(path);
        let pq = path_to_qualified(parent.as_str());
        let ghost r0 = rels_view(rels@);
        if !pq.as_str().is_empty() && (contains_str(dirs, pq.as_str()) || contains_str(
            &files,
            pq.as_str(),
        )) {
            rels.push(PlannedRelation { from: pq, to: fq, kind: EntityRelationKind::Contains });
            assert(rels_view(rels@) =~= r0 + file_relation(fs, dv, i as int));
        } else {
            assert(rels_view(rels@) =~= r0 + file_relation(fs, dv, i as int));
        }
        i += 1;
    }
    assert(file_qnames(fs).subrange(0, fs.len() as int) =~= file_qnames(fs));
    files
}

/// Whether file `f` yielded a definition named `q`.
pub open spec fn defines(f: FileScan, q: Seq<char>) -> bool {
    exists|k: int| 0 <= k < f.definitions@.len() && #[trigger] f.definitions@[k].qualified_name@ == q
}

/// The first file at or after `i` that defines `q`, or -1.
pub open spec fn first_defining(fs: Seq<FileScan>, q: Seq<char>, i: int) -> int
    decreases fs.len() - i,
{
    if i < 0 || i >= fs.len() {
        -1
    } else if defines(fs[i], q) {
        i
    } else {
        first_defining(fs, q, i + 1)
    }
}

/// The entity a definition is contained in: its parent when it has one
/// (taken as a full name when it holds `::`, else the definition's own
/// qualified parent, or the parent as given when there is none); otherwise
/// the module of the first file that defines its name.
pub open spec fn def_parent(d: Definition, fs: Seq<FileScan>) -> Option<Seq<char>> {
    match d.parent {
        Some(p) => Some(
            if contains_text(p@, sep()) {
                p@
            } else {
                match spec_parent_qname(d.qualified_name@) {
                    Some(m) => m,
                    None => p@,
                }
            },
        ),
        None => {
            let i = first_defining(fs, d.qualified_name@, 0);
            if i < 0 {
                None
            } else {
                Some(file_qname(fs[i].path@))
            }
        },
    }
}

/// The qualified names of definitions, in order.
pub open spec fn def_qnames(defs: Seq<Definition>) -> Seq<Seq<char>> {
    defs.map_values(|d: Definition| d.qualified_name@)
}

/// The `contains` relation into definition `defs[i]`: from its parent, when
/// that is a definition up to this one or a file module.
pub open spec fn def_relation(defs: Seq<Definition>, fs: Seq<FileScan>, i: int) -> Seq<RelV> {
    match def_parent(defs[i], fs) {
        Some(pq) => if def_qnames(defs).subrange(0, i + 1).contains(pq) || file_qnames(
            fs,
        ).contains(pq) {
            seq![(pq, defs[i].qualified_name@, EntityRelationKind::Contains)]
        } else {
            seq![]
        },
        None => seq![],
    }
}

/// The definition relations of `defs[..n]`, in order.
pub open spec fn def_relations(defs: Seq<Definition>, fs: Seq<FileScan>, n: int) -> Seq<RelV>
    decreases n,
{
    if n <= 0 || n > defs.len() {
        seq![]
    } else {
        def_relations(defs, fs, n - 1) + def_relation(defs, fs, n - 1)
    }
}

/// The definition entities to upsert: `(qualified name, kind)` in order.
pub open spec fn def_entities(defs: Seq<Definition>) -> Seq<(Seq<char>, EntityKind)> {
    defs.map_values(|d: Definition| (d.qualified_name@, d.kind))
}

/// Whether file `f` defines `q`.
fn file_defines(f: &FileScan, q: &str) -> (r: bool)
    ensures
        r == defines(*f, q@),
{
    let mut k: usize = 0;
    while k < f.definitions.len()
        invariant
            k <= f.definitions@.len(),
            forall|j: int| 0 <= j < k ==> f.definitions@[j].qualified_name@ != q@,
        decreases f.definitions@.len() - k,
    {
        if crate::text::str_is(f.definitions[k].qualified_name.as_str(), q) {
            assert(f.definitions@[k as int].qualified_name@ == q@);
            return true;
        }
        k += 1;
    }
    false
}

/// Exec form of [`def_parent`].
fn parent_of_definition(d: &Definition, fs: &Vec<FileScan>) -> (r: Option<String>)
    ensures
        match r {
            Some(s) => def_parent(*d, fs@) == Some(s@),
            None => def_parent(*d, fs@) is None,
        },
{
    match &d.parent {
        Some(p) => {
            let pv = chars_of(p.as_str());
            let seps = vec![':', ':'];
            assert(seps@ =~= sep());
            if text_contains(&pv, &seps) {
                Some(p.clone())
            } else {
                match parent_qname(d.qualified_name.as_str()) {
                    Some(m) => Some(m.to_string()),
                    None => Some(p.clone()),
                }
            }
        },
        None => {
            let q = d.qualified_name.as_str();
            let mut i: usize = 0;
            while i < fs.len()
                invariant
                    i <= fs@.len(),
                    d.parent is None,
                    q@ == d.qualified_name@,
                    first_defining(fs@, q@, 0) == first_defining(fs@, q@, i as int),
                decreases fs@.len() - i,
            {
                if file_defines(&fs[i], q) {
                    let r = path_to_qualified(fs[i].path.as_str());
                    assert(first_defining(fs@, q@, i as int) == i);
                    assert(r@ == file_qname(fs@[i as int].path@));
                    return Some(r);
                }
                i += 1;
            }
            None
        },
    }
}

/// The definition entities, and the `contains` relations into them
/// (appended to `rels`).
pub fn plan_definitions(
    defs: &Vec<Definition>,
    fs: &Vec<FileScan>,
    files: &Vec<String>,
    rels: &mut Vec<PlannedRelation>,
) -> (ents: Vec<(String, EntityKind)>)
    requires
        strs_view(files@) == file_qnames(fs@),
    ensures
        ents@.map_values(|e: (String, EntityKind)| (e.0@, e.1)) == def_entities(defs@),
        rels_view(final(rels)@) == rels_view(old(rels)@) + def_relations(
            defs@,
            fs@,
            defs@.len() as int,
        ),
{
    let mut ents: Vec<(String, EntityKind)> = Vec::new();
    let mut seen: Vec<String> = Vec::new();
    let mut i: usize = 0;
    while i < defs.len()
        invariant
            i <= defs@.len(),
            strs_view(files@) == file_qnames(fs@),
            strs_view(seen@) == def_qnames(defs@).subrange(0, i as int),
            ents@.map_values(|e: (String, EntityKind)| (e.0@, e.1)) == def_entities(
                defs@,
            ).subrange(0, i as int),
            rels_view(rels@) == rels_view(old(rels)@) + def_relations(defs@, fs@, i as int),
        decreases defs@.len() - i,
    {
        let d = &defs[i];
        let ghost e0 = ents@;
        let n1 = d.qualified_name.clone();
        ents.push((n1, d.kind));
        assert(ents@.map_values(|e: (String, EntityKind)| (e.0@, e.1)) =~= e0.map_values(
            |e: (String, EntityKind)| (e.0@, e.1),
        ).push((d.qualified_name@, d.kind)));
        assert(def_entities(defs@).subrange(0, i + 1) =~= def_entities(defs@).subrange(
            0,
            i as int,
        ).push((d.qualified_name@, d.kind)));
        let ghost s0 = seen@;
        let n2 = d.qualified_name.clone();
        seen.push(n2);
        assert(strs_view(seen@) =~= strs_view(s0).push(d.qualified_name@));
        assert(def_qnames(defs@).subrange(0, i + 1) =~= def_qnames(defs@).subrange(
            0,
            i as int,
        ).push(d.qualified_name@));
        let ghost r0 = rels_view(rels@);
        match parent_of_definition(d, fs) {
            Some(pq) => {
                if contains_str(&seen, pq.as_str()) || contains_str(files, pq.as_str()) {
                    rels.push(
                        PlannedRelation {
                            from: pq,
                            to: d.qualified_name.clone(),
                            kind: EntityRelationKind::Contains,
                        },
                    );
                }
            },
            None => {},
        }
        assert(rels_view(rels@) =~= r0 + def_relation(defs@, fs@, i as int));
        i += 1;
    }
    assert(def_entities(defs@).subrange(0, defs@.len() as int) =~= def_entities(defs@));
    ents
}

/// Whether file `f` holds an import of module `m`.
pub open spec fn imports_module(f: FileScan, m: Seq<char>) -> bool {
    exists|k: int| 0 <= k < f.imports@.len() && #[trigger] f.imports@[k].module@ == m
}

/// The first file at or after `i` that imports `m`, or -1.
pub open spec fn first_importing(fs: Seq<FileScan>, m: Seq<char>, i: int) -> int
    decreases fs.len() - i,
{
    if i < 0 || i >= fs.len() {
        -1
    } else if imports_module(fs[i], m) {
        i
    } else {
        first_importing(fs, m, i + 1)
    }
}

/// The `uses` relations from file module `fq` to `m::name` for the names
/// `names[..n]` that are definitions (`dq`).
pub open spec fn name_uses(
    fq: Seq<char>,
    m: Seq<char>,
    names: Seq<Seq<char>>,
    dq: Seq<Seq<char>>,
    n: int,
) -> Seq<RelV>
    decreases n,
{
    if n <= 0 || n > names.len() {
        seq![]
    } else {
        let q = qualify(m, names[n - 1]);
        name_uses(fq, m, names, dq, n - 1) + if dq.contains(q) {
            seq![(fq, q, EntityRelationKind::Uses)]
        } else {
            seq![]
        }
    }
}

/// The `uses` relations of one import: from the module of the first file
/// importing its module, to the module itself and to each imported name,
/// each when it is a definition (`dq`).
pub open spec fn import_relation(imp: Import, fs: Seq<FileScan>, dq: Seq<Seq<char>>) -> Seq<RelV> {
    let i = first_importing(fs, imp.module@, 0);
    if i < 0 {
        seq![]
    } else {
        let fq = file_qname(fs[i].path@);
        let names = imp.imported_names@.map_values(|s: String| s@);
        (if dq.contains(imp.module@) {
            seq![(fq, imp.module@, EntityRelationKind::Uses)]
        } else {
            seq![]
        }) + name_uses(fq, imp.module@, names, dq, names.len() as int)
    }
}

/// The import relations of `imps[..n]`, in order.
pub open spec fn import_relations(
    imps: Seq<Import>,
    fs: Seq<FileScan>,
    dq: Seq<Seq<char>>,
    n: int,
) -> Seq<RelV>
    decreases n,
{
    if n <= 0 || n > imps.len() {
        seq![]
    } else {
        import_relations(imps, fs, dq, n - 1) + import_relation(imps[n - 1], fs, dq)
    }
}

/// Whether file `f` imports module `m`.
fn file_imports(f: &FileScan, m: &str) -> (r: bool)
    ensures
        r == imports_module(*f, m@),
{
    let mut k: usize = 0;
    while k < f.imports.len()
        invariant
            k <= f.imports@.len(),
            forall|j: int| 0 <= j < k ==> f.imports@[j].module@ != m@,
        decreases f.imports@.len() - k,
    {
        if crate::text::str_is(f.imports[k].module.as_str(), m) {
            assert(f.imports@[k as int].module@ == m@);
            return true;
        }
        k += 1;
    }
    false
}

/// Appends the `uses` relations of one import.
fn plan_import(imp: &Import, fs: &Vec<FileScan>, dq: &Vec<String>, rels: &mut Vec<PlannedRelation>)
    ensures
        rels_view(final(rels)@) == rels_view(old(rels)@) + import_relation(
            *imp,
            fs@,
            strs_view(dq@),
        ),
{
    let m = imp.module.as_str();
    let mut i: usize = 0;
    while i < fs.len() && !file_imports(&fs[i], m)
        invariant
            i <= fs@.len(),
            m@ == imp.module@,
            rels@ == old(rels)@,
            first_importing(fs@, m@, 0) == first_importing(fs@, m@, i as int),
        decreases fs@.len() - i,
    {
        i += 1;
    }
    if i == fs.len() {
        assert(rels_view(rels@) =~= rels_view(old(rels)@) + import_relation(
            *imp,
            fs@,
            strs_view(dq@),
        ));
        return;
    }
    assert(first_importing(fs@, m@, 0) == i);
    let fq = path_to_qualified(fs[i].path.as_str());
    let ghost dv = strs_view(dq@);
    let ghost names = imp.imported_names@.map_values(|s: String| s@);
    if contains_str(dq, m) {
        rels.push(PlannedRelation { from: fq.clone(), to: m.to_string(), kind: EntityRelationKind::Uses });
    }
    let ghost mid = rels_view(rels@);
    assert(mid == rels_view(old(rels)@) + (if dv.contains(imp.module@) {
        seq![(fq@, imp.module@, EntityRelationKind::Uses)]
    } else {
        seq![]
    }));
    let mut k: usize = 0;
    while k < imp.imported_names.len()
        invariant
            k <= names.len(),
            names == imp.imported_names@.map_values(|s: String| s@),
            dv == strs_view(dq@),
            m@ == imp.module@,
            rels_view(rels@) == mid + name_uses(fq@, m@, names, dv, k as int),
        decreases names.len() - k,
    {
        let q = qualify_name(m, imp.imported_names[k].as_str());
        assert(imp.imported_names@[k as int]@ == names[k as int]);
        let ghost r0 = rels_view(rels@);
        let ghost qv = q@;
        assert(qv == qualify(m@, names[k as int]));
        if contains_str(dq, q.as_str()) {
            rels.push(PlannedRelation { from: fq.clone(), to: q, kind: EntityRelationKind::Uses });
            assert(rels_view(rels@) =~= r0.push((fq@, qv, EntityRelationKind::Uses)));
        }
        assert(name_uses(fq@, m@, names, dv, k + 1) == name_uses(fq@, m@, names, dv, k as int) + if dv.contains(qv) {
            seq![(fq@, qv, EntityRelationKind::Uses)]
        } else {
            seq![]
        });
        assert(rels_view(rels@) =~= mid + name_uses(fq@, m@, names, dv, k + 1));
        k += 1;
    }
    assert(rels_view(rels@) =~= rels_view(old(rels)@) + import_relation(*imp, fs@, dv));
}

/// Appends the `uses` relations of all imports, against the definition names
/// `dq`.
pub fn plan_imports(
    imps: &Vec<Import>,
    fs: &Vec<FileScan>,
    dq: &Vec<String>,
    rels: &mut Vec<PlannedRelation>,
)
    ensures
        rels_view(final(rels)@) == rels_view(old(rels)@) + import_relations(
            imps@,
            fs@,
            strs_view(dq@),
            imps@.len() as int,
        ),
{
    let mut i: usize = 0;
    while i < imps.len()
        invariant
            i <= imps@.len(),
            rels_view(rels@) == rels_view(old(rels)@) + import_relations(
                imps@,
                fs@,
                strs_view(dq@),
                i as int,
            ),
        decreases imps@.len() - i,
    {
        let ghost r0 = rels_view(rels@);
        plan_import(&imps[i], fs, dq, rels);
        assert(rels_view(rels@) =~= rels_view(old(rels)@) + import_relations(
            imps@,
            fs@,
            strs_view(dq@),
            i + 1,
        ));
        i += 1;
    }
}

/// The index of the last name of `dq[..n]` whose last segment is `name`,
/// or -1.
pub open spec fn last_named(dq: Seq<Seq<char>>, name: Seq<char>, n: int) -> int
    decreases n,
{
    if n <= 0 || n > dq.len() {
        -1
    } else if spec_last_segment(dq[n - 1]) == name {
        n - 1
    } else {
        last_named(dq, name, n - 1)
    }
}

/// A call site adds the pair `(caller, callee)` when the caller is a
/// definition, the callee's simple name is the last segment of a definition
/// (the last such definition is taken), the two differ, and the pair is not
/// there yet.
pub open spec fn call_step(
    prev: Seq<(Seq<char>, Seq<char>)>,
    dq: Seq<Seq<char>>,
    c: CallV,
) -> Seq<(Seq<char>, Seq<char>)> {
    let k = last_named(dq, c.0, dq.len() as int);
    if dq.contains(c.1) && k >= 0 && c.1 != dq[k] && !prev.contains((c.1, dq[k])) {
        prev.push((c.1, dq[k]))
    } else {
        prev
    }
}

/// The `(caller, callee)` pairs the call sites `cs` yield, in order.
pub open spec fn call_pairs(dq: Seq<Seq<char>>, cs: Seq<CallV>) -> Seq<(Seq<char>, Seq<char>)>
    decreases cs.len(),
{
    if cs.len() == 0 {
        seq![]
    } else {
        call_step(call_pairs(dq, cs.drop_last()), dq, cs.last())
    }
}

/// The call sites of `fs[..n]`, file after file.
pub open spec fn scan_calls(fs: Seq<FileScan>, n: int) -> Seq<CallV>
    decreases n,
{
    if n <= 0 || n > fs.len() {
        seq![]
    } else {
        scan_calls(fs, n - 1) + calls_view(fs[n - 1].calls@)
    }
}

/// The `calls` relations of a list of pairs.
pub open spec fn calls_relations(p: Seq<(Seq<char>, Seq<char>)>) -> Seq<RelV> {
    p.map_values(|x: (Seq<char>, Seq<char>)| (x.0, x.1, EntityRelationKind::Calls))
}

/// The views of a vector of string pairs.
pub open spec fn pairs_view(v: Seq<(String, String)>) -> Seq<(Seq<char>, Seq<char>)> {
    v.map_values(|x: (String, String)| (x.0@, x.1@))
}

/// Exec form of `last_named(dq, name, dq.len())`.
fn resolve_callee(dq: &Vec<String>, name: &str) -> (r: Option<usize>)
    ensures
        match r {
            Some(k) => k as int == last_named(strs_view(dq@), name@, dq@.len() as int) && k
                < dq@.len(),
            None => last_named(strs_view(dq@), name@, dq@.len() as int) == -1,
        },
{
    let ghost dv = strs_view(dq@);
    let mut n: usize = dq.len();
    while n > 0
        invariant
            n <= dq@.len(),
            dv == strs_view(dq@),
            last_named(dv, name@, dq@.len() as int) == last_named(dv, name@, n as int),
        decreases n,
    {
        let seg = last_segment(dq[n - 1].as_str());
        if crate::text::str_is(seg, name) {
            return Some(n - 1);
        }
        n -= 1;
    }
    None
}

/// Whether the pair `(a, b)` is in `v`.
fn contains_pair(v: &Vec<(String, String)>, a: &str, b: &str) -> (r: bool)
    ensures
        r == pairs_view(v@).contains((a@, b@)),
{
    let ghost pv = pairs_view(v@);
    let mut i: usize = 0;
    while i < v.len()
        invariant
            i <= v@.len(),
            pv == pairs_view(v@),
            forall|j: int| 0 <= j < i ==> pv[j] != (a@, b@),
        decreases v@.len() - i,
    {
        if crate::text::str_is(v[i].0.as_str(), a) && crate::text::str_is(v[i].1.as_str(), b) {
            assert(pv[i as int] == (a@, b@));
            return true;
        }
        i += 1;
    }
    false
}

/// Appends the `calls` relations of all call sites of the scan, against the
/// definition names `dq`.
pub fn plan_calls(fs: &Vec<FileScan>, dq: &Vec<String>, rels: &mut Vec<PlannedRelation>)
    ensures
        rels_view(final(rels)@) == rels_view(old(rels)@) + calls_relations(
            call_pairs(strs_view(dq@), scan_calls(fs@, fs@.len() as int)),
        ),
{
    let ghost dv = strs_view(dq@);
    let mut seen: Vec<(String, String)> = Vec::new();
    let mut i: usize = 0;
    while i < fs.len()
        invariant
            i <= fs@.len(),
            dv == strs_view(dq@),
            pairs_view(seen@) == call_pairs(dv, scan_calls(fs@, i as int)),
            rels_view(rels@) == rels_view(old(rels)@) + calls_relations(pairs_view(seen@)),
        decreases fs@.len() - i,
    {
        let calls = &fs[i].calls;
        let ghost cv = calls_view(calls@);
        let mut j: usize = 0;
        while j < calls.len()
            invariant
                j <= calls@.len(),
                cv == calls_view(calls@),
                dv == strs_view(dq@),
                pairs_view(seen@) == call_pairs(dv, scan_calls(fs@, i as int) + cv.subrange(
                    0,
                    j as int,
                )),
                rels_view(rels@) == rels_view(old(rels)@) + calls_relations(pairs_view(seen@)),
            decreases calls@.len() - j,
        {
            let c = &calls[j];
            let ghost prefix = scan_calls(fs@, i as int) + cv.subrange(0, j as int);
            let ghost prev = pairs_view(seen@);
            let ghost r0 = rels_view(rels@);
            assert((scan_calls(fs@, i as int) + cv.subrange(0, j + 1)).drop_last() =~= prefix);
            assert((scan_calls(fs@, i as int) + cv.subrange(0, j + 1)).last() == c@);
            if contains_str(dq, c.caller_qname.as_str()) {
                match resolve_callee(dq, c.callee_name.as_str()) {
                    Some(k) => {
                        let to = dq[k].as_str();
                        assert(to@ == dv[k as int]);
                        if !crate::text::str_is(c.caller_qname.as_str(), to) && !contains_pair(
                            &seen,
                            c.caller_qname.as_str(),
                            to,
                        ) {
                            seen.push((c.caller_qname.clone(), to.to_string()));
                            rels.push(
                                PlannedRelation {
                                    from: c.caller_qname.clone(),
                                    to: to.to_string(),
                                    kind: EntityRelationKind::Calls,
                                },
                            );
                            assert(pairs_view(seen@) =~= prev.push((c.caller_qname@, to@)));
                            assert(rels_view(rels@) =~= r0.push(
                                (c.caller_qname@, to@, EntityRelationKind::Calls),
                            ));
                            assert(calls_relations(pairs_view(seen@)) =~= calls_relations(
                                prev,
                            ).push((c.caller_qname@, to@, EntityRelationKind::Calls)));
                        }
                    },
                    None => {},
                }
            }
            j += 1;
        }
        assert(cv.subrange(0, cv.len() as int) =~= cv);
        assert(scan_calls(fs@, i + 1) == scan_calls(fs@, i as int) + cv);
        i += 1;
    }
}

/// The structural part of a sync, planned from a scan report.
#[derive(Debug)]
pub struct SyncPlan {
    /// Directory module entities, sorted, each once.
    pub dirs: Vec<String>,
    /// File module entities, one per file scan, in order.
    pub files: Vec<String>,
    /// Definition entities `(qualified name, kind)`, one per definition.
    pub definitions: Vec<(String, EntityKind)>,
    /// All relations: directory, file and definition `contains`, then import
    /// `uses`, then `calls`.
    pub relations: Vec<PlannedRelation>,
    pub contains_count: usize,
    pub uses_count: usize,
    pub calls_count: usize,
}

/// All relations a sync plans, in order.
pub open spec fn planned_relations(
    fs: Seq<FileScan>,
    defs: Seq<Definition>,
    imps: Seq<Import>,
    dirs: Seq<Seq<char>>,
) -> Seq<RelV> {
    dir_relations(dirs, dirs.len() as int) + file_relations(fs, dirs, fs.len() as int)
        + def_relations(defs, fs, defs.len() as int) + import_relations(
        imps,
        fs,
        def_qnames(defs),
        imps.len() as int,
    ) + calls_relations(call_pairs(def_qnames(defs), scan_calls(fs, fs.len() as int)))
}

/// Plans the entities and relations a sync creates for a scan: the files
/// `file_scans` and the definitions and imports collected from them.
pub fn plan_structure(
    file_scans: &Vec<FileScan>,
    definitions: &Vec<Definition>,
    imports: &Vec<Import>,
) -> (plan: SyncPlan)
    ensures
        strictly_sorted(strs_view(plan.dirs@)),
        forall|d: Seq<char>|
            #[trigger] strs_view(plan.dirs@).contains(d) <==> is_scanned_dir(file_scans@, d),
        strs_view(plan.files@) == file_qnames(file_scans@),
        plan.definitions@.map_values(|e: (String, EntityKind)| (e.0@, e.1)) == def_entities(
            definitions@,
        ),
        rels_view(plan.relations@) == planned_relations(
            file_scans@,
            definitions@,
            imports@,
            strs_view(plan.dirs@),
        ),
        plan.contains_count == dir_relations(strs_view(plan.dirs@), plan.dirs@.len() as int).len()
            + file_relations(file_scans@, strs_view(plan.dirs@), file_scans@.len() as int).len()
            + def_relations(definitions@, file_scans@, definitions@.len() as int).len(),
        plan.uses_count == import_relations(
            imports@,
            file_scans@,
            def_qnames(definitions@),
            imports@.len() as int,
        ).len(),
        plan.calls_count == call_pairs(
            def_qnames(definitions@),
            scan_calls(file_scans@, file_scans@.len() as int),
        ).len(),
{
    let dirs = plan_dirs(file_scans);
    let mut rels: Vec<PlannedRelation> = Vec::new();
    plan_dir_relations(&dirs, &mut rels);
    let files = plan_files(file_scans, &dirs, &mut rels);
    let ents = plan_definitions(definitions, file_scans, &files, &mut rels);
    let contains_count = rels.len();
    let mut dq: Vec<String> = Vec::new();
    let mut i: usize = 0;
    while i < definitions.len()
        invariant
            i <= definitions@.len(),
            strs_view(dq@) == def_qnames(definitions@).subrange(0, i as int),
        decreases definitions@.len() - i,
    {
        let ghost q0 = dq@;
        dq.push(definitions[i].qualified_name.clone());
        assert(strs_view(dq@) =~= strs_view(q0).push(definitions@[i as int].qualified_name@));
        assert(def_qnames(definitions@).subrange(0, i + 1) =~= def_qnames(definitions@).subrange(
            0,
            i as int,
        ).push(definitions@[i as int].qualified_name@));
        i += 1;
    }
    assert(def_qnames(definitions@).subrange(0, definitions@.len() as int) =~= def_qnames(
        definitions@,
    ));
    let before_uses = rels.len();
    let ghost rv0 = rels_view(rels@);
    plan_imports(imports, file_scans, &dq, &mut rels);
    assert(rels_view(rels@).len() == rels@.len());
    assert(rv0.len() == before_uses);
    let uses_count = rels.len() - before_uses;
    let before_calls = rels.len();
    let ghost rv1 = rels_view(rels@);
    plan_calls(file_scans, &dq, &mut rels);
    assert(rels_view(rels@).len() == rels@.len());
    assert(rv1.len() == before_calls);
    let calls_count = rels.len() - before_calls;
    assert(calls_relations(call_pairs(strs_view(dq@), scan_calls(file_scans@, file_scans@.len() as int))).len()
        == call_pairs(strs_view(dq@), scan_calls(file_scans@, file_scans@.len() as int)).len());
    SyncPlan {
        dirs,
        files,
        definitions: ents,
        relations: rels,
        contains_count,
        uses_count,
        calls_count,
    }
}

/// Copies of `(name, count)` pairs.
pub fn clone_counts(v: &Vec<(String, usize)>) -> (r: Vec<(String, usize)>)
    ensures
        counts_view(r@) == counts_view(v@),
{
    let mut out: Vec<(String, usize)> = Vec::new();
    let mut i: usize = 0;
    while i < v.len()
        invariant
            i <= v@.len(),
            counts_view(out@) == counts_view(v@).subrange(0, i as int),
        decreases v@.len() - i,
    {
        let ghost o0 = counts_view(out@);
        out.push((v[i].0.clone(), v[i].1));
        assert(counts_view(out@) =~= o0.push((v@[i as int].0@, v@[i as int].1)));
        assert(counts_view(v@).subrange(0, i + 1) =~= counts_view(v@).subrange(0, i as int).push(
            (v@[i as int].0@, v@[i as int].1),
        ));
        i += 1;
    }
    assert(counts_view(v@).subrange(0, v@.len() as int) =~= counts_view(v@));
    out
}

/// The definitions of `defs[..n]` counted by kind name, names in order of
/// first appearance.
pub open spec fn kind_counts(defs: Seq<Definition>, n: int) -> Seq<(Seq<char>, usize)>
    decreases n,
{
    if n <= 0 || n > defs.len() {
        seq![]
    } else {
        bumped(kind_counts(defs, n - 1), defs[n - 1].kind.text())
    }
}

proof fn lemma_bumped_bound(s: Seq<(Seq<char>, usize)>, k: Seq<char>, b: int)
    requires
        forall|j: int| 0 <= j < s.len() ==> #[trigger] s[j].1 <= b,
        0 <= b < usize::MAX,
    ensures
        forall|j: int| 0 <= j < bumped(s, k).len() ==> #[trigger] bumped(s, k)[j].1 <= b + 1,
{
    crate::analysis::scan::lemma_key_index_in_range(s, k);
}

/// Counts the definitions by kind name, as a dry run reports them.
pub fn count_kinds(defs: &Vec<Definition>) -> (r: Vec<(String, usize)>)
    requires
        defs@.len() < usize::MAX,
    ensures
        counts_view(r@) == kind_counts(defs@, defs@.len() as int),
{
    let mut out: Vec<(String, usize)> = Vec::new();
    let mut i: usize = 0;
    while i < defs.len()
        invariant
            i <= defs@.len(),
            defs@.len() < usize::MAX,
            counts_view(out@) == kind_counts(defs@, i as int),
            forall|j: int| 0 <= j < out@.len() ==> #[trigger] out@[j].1 <= i,
        decreases defs@.len() - i,
    {
        proof {
            lemma_bumped_bound(counts_view(out@), defs@[i as int].kind.text(), i as int);
            assert forall|j: int| 0 <= j < out@.len() implies #[trigger] out@[j].1 < usize::MAX by {
                assert(counts_view(out@)[j].1 == out@[j].1);
            }
        }
        bump_count(&mut out, defs[i].kind.as_str());
        proof {
            assert forall|j: int| 0 <= j < out@.len() implies #[trigger] out@[j].1 <= i + 1 by {
                assert(counts_view(out@)[j].1 == out@[j].1);
            }
        }
        i += 1;
    }
    out
}

/// The report of a dry run: what the scan found, nothing written.
pub fn dry_run_report(scan: &ScanReport) -> (r: SyncReport)
    requires
        scan.definitions@.len() < usize::MAX,
    ensures
        r.files_scanned == scan.files_scanned,
        counts_view(r.files_by_language@) == counts_view(scan.files_by_language@),
        counts_view(r.entity_counts_by_kind@) == kind_counts(
            scan.definitions@,
            scan.definitions@.len() as int,
        ),
        r.entities_created == 0,
        r.entities_removed == 0,
        r.relations_created == 0,
        r.stale_entities@.len() == 0,
        r.stale_skipped@.len() == 0,
        r.dry_run,
        !r.has_drift,
        r.after_entities == 0,
        r.after_assertions == 0,
        r.affected_assertions@.len() == 0,
        r.unresolved_provisional@.len() == 0,
{
    SyncReport {
        files_scanned: scan.files_scanned,
        files_by_language: clone_counts(&scan.files_by_language),
        entities_created: 0,
        entities_removed: 0,
        relations_created: 0,
        entity_counts_by_kind: count_kinds(&scan.definitions),
        stale_entities: Vec::new(),
        stale_skipped: Vec::new(),
        dry_run: true,
        has_drift: false,
        after_entities: 0,
        after_assertions: 0,
        affected_assertions: Vec::new(),
        unresolved_provisional: Vec::new(),
    }
}

/// Entities a sync really created: `after - before + removed`, and never
/// below zero (removals can outnumber creations).
pub open spec fn spec_entities_created(before: int, after: int, removed: int) -> int {
    if after - before + removed < 0 {
        0
    } else {
        after - before + removed
    }
}

/// Exec form of [`spec_entities_created`].
pub fn entities_created(before: usize, after: usize, removed: usize) -> (r: usize)
    requires
        after + removed <= usize::MAX,
    ensures
        r == spec_entities_created(before as int, after as int, removed as int),
{
    let grown = after + removed;
    if grown >= before {
        grown - before
    } else {
        0
    }
}

/// The number of module entities a sync reports: the directory modules and
/// the distinct file modules.
pub open spec fn module_count(plan: SyncPlan) -> int {
    (plan.dirs@.len() + strs_view(plan.files@).to_set().len()) as int
}

/// The entity counts by kind a sync reports: only modules are counted, and
/// only when there is at least one.
pub open spec fn sync_kind_counts(plan: SyncPlan) -> Seq<(Seq<char>, usize)> {
    if module_count(plan) > 0 {
        seq![("module"@, module_count(plan) as usize)]
    } else {
        seq![]
    }
}

/// The report of a sync that wrote to the model.
pub fn build_report(
    scan: &ScanReport,
    plan: &SyncPlan,
    removed: Vec<String>,
    skipped: Vec<String>,
    affected_assertions: Vec<(String, crate::domain::assertion::Assertion)>,
    unresolved_provisional: Vec<String>,
    before_entities: usize,
    after_entities: usize,
    after_assertions: usize,
) -> (r: SyncReport)
    requires
        after_entities + removed@.len() <= usize::MAX,
        plan.dirs@.len() + plan.files@.len() <= usize::MAX,
        plan.contains_count + plan.uses_count + plan.calls_count <= usize::MAX,
    ensures
        r.files_scanned == scan.files_scanned,
        counts_view(r.files_by_language@) == counts_view(scan.files_by_language@),
        r.entities_created == spec_entities_created(
            before_entities as int,
            after_entities as int,
            removed@.len() as int,
        ),
        r.entities_removed == removed@.len(),
        r.relations_created == plan.contains_count + plan.uses_count + plan.calls_count,
        counts_view(r.entity_counts_by_kind@) == sync_kind_counts(*plan),
        r.stale_entities@ == removed@,
        r.stale_skipped@ == skipped@,
        !r.dry_run,
        r.has_drift == (removed@.len() > 0 || skipped@.len() > 0 || after_entities
            != before_entities),
        r.after_entities == after_entities,
        r.after_assertions == after_assertions,
        r.affected_assertions@ == affected_assertions@,
        r.unresolved_provisional@ == unresolved_provisional@,
{
    let distinct_files = crate::order::sorted_distinct(&plan.files);
    proof {
        crate::order::lemma_sorted_len_is_set_len(
            strs_view(distinct_files@),
            strs_view(plan.files@),
        );
        assert(strs_view(plan.files@).to_set().len() <= plan.files@.len()) by {
            strs_view(plan.files@).lemma_cardinality_of_set();
        }
    }
    let modules = plan.dirs.len() + distinct_files.len();
    let mut counts: Vec<(String, usize)> = Vec::new();
    if modules > 0 {
        counts.push((String::from_str("module"), modules));
        proof {
            reveal_strlit("module");
        }
        assert(counts_view(counts@) =~= sync_kind_counts(*plan));
    } else {
        assert(counts_view(counts@) =~= sync_kind_counts(*plan));
    }
    let has_drift = removed.len() > 0 || skipped.len() > 0 || after_entities != before_entities;
    SyncReport {
        files_scanned: scan.files_scanned,
        files_by_language: clone_counts(&scan.files_by_language),
        entities_created: entities_created(before_entities, after_entities, removed.len()),
        entities_removed: removed.len(),
        relations_created: plan.contains_count + plan.uses_count + plan.calls_count,
        entity_counts_by_kind: counts,
        stale_entities: removed,
        stale_skipped: skipped,
        dry_run: false,
        has_drift,
        after_entities,
        after_assertions,
        affected_assertions,
        unresolved_provisional,
    }
}

/// The changelog detail of a sync: `created=C removed=R relations=N`.
pub open spec fn spec_sync_detail(created: nat, removed: nat, relations: nat) -> Seq<char> {
    "created="@ + decimal(created) + " removed="@ + decimal(removed) + " relations="@ + decimal(
        relations,
    )
}

/// Exec form of [`spec_sync_detail`].
pub fn sync_changelog_detail(created: usize, removed: usize, relations: usize) -> (r: String)
    ensures
        r@ == spec_sync_detail(created as nat, removed as nat, relations as nat),
{
    let mut s = String::from_str("created=");
    s.append(usize_text(created).as_str());
    s.append(" removed=");
    s.append(usize_text(removed).as_str());
    s.append(" relations=");
    s.append(usize_text(relations).as_str());
    s
}

/// The message of a sync that found no source file: in a dry run, that
/// there is nothing to scan at `scan_root`; otherwise that the model at
/// `db_path` is ready for design assertions.
pub open spec fn spec_empty_scan_message(dry_run: bool, scan_root: Seq<char>, db_path: Seq<char>) -> Seq<
    char,
> {
    if dry_run {
        "No source files found at "@ + scan_root + " \u{2014} nothing to scan yet."@
    } else {
        "Model initialized at "@ + db_path
            + ".\nNo source files found yet \u{2014} start recording design with:\n  cog assert <entity> --kind <contract|intent|invariant|fragility|correction> --claim \"...\" --grounds \"plan:<doc>\""@
    }
}

/// Exec form of [`spec_empty_scan_message`].
pub fn empty_scan_message(dry_run: bool, scan_root: &str, db_path: &str) -> (r: String)
    ensures
        r@ == spec_empty_scan_message(dry_run, scan_root@, db_path@),
{
    if dry_run {
        let mut s = String::from_str("No source files found at ");
        s.append(scan_root);
        s.append(" \u{2014} nothing to scan yet.");
        s
    } else {
        let mut s = String::from_str("Model initialized at ");
        s.append(db_path);
        s.append(
            ".\nNo source files found yet \u{2014} start recording design with:\n  cog assert <entity> --kind <contract|intent|invariant|fragility|correction> --claim \"...\" --grounds \"plan:<doc>\"",
        );
        s
    }
}

/// The names of all entities a sync plans: directory modules, file
/// modules, definitions.
pub open spec fn planned_names(
    dirs: Seq<Seq<char>>,
    fs: Seq<FileScan>,
    defs: Seq<Definition>,
) -> Seq<Seq<char>> {
    dirs + file_qnames(fs) + def_qnames(defs)
}

/// Both ends of every relation of `rels` are names of `names`.
pub open spec fn joins_names(rels: Seq<RelV>, names: Seq<Seq<char>>) -> bool {
    forall|i: int|
        0 <= i < rels.len() ==> names.contains(#[trigger] rels[i].0) && names.contains(rels[i].1)
}

proof fn lemma_subrange_contains(s: Seq<Seq<char>>, n: int, x: Seq<char>)
    requires
        0 <= n <= s.len(),
        s.subrange(0, n).contains(x),
    ensures
        s.contains(x),
{
    let k = choose|k: int| 0 <= k < n && s.subrange(0, n)[k] == x;
    assert(s[k] == x);
}

proof fn lemma_joins_concat(a: Seq<RelV>, b: Seq<RelV>, names: Seq<Seq<char>>)
    requires
        joins_names(a, names),
        joins_names(b, names),
    ensures
        joins_names(a + b, names),
{
    assert forall|i: int| 0 <= i < (a + b).len() implies names.contains(#[trigger] (a + b)[i].0)
        && names.contains((a + b)[i].1) by {
        if i < a.len() {
            assert((a + b)[i] == a[i]);
        } else {
            assert((a + b)[i] == b[i - a.len()]);
        }
    }
}

proof fn lemma_dir_relations_join(dirs: Seq<Seq<char>>, n: int, names: Seq<Seq<char>>)
    requires
        0 <= n <= dirs.len(),
        forall|x: Seq<char>| dirs.contains(x) ==> #[trigger] names.contains(x),
    ensures
        joins_names(dir_relations(dirs, n), names),
    decreases n,
{
    if n > 0 {
        lemma_dir_relations_join(dirs, n - 1, names);
        let d = dirs[n - 1];
        assert(dirs.contains(d));
        let last = dir_relation(dirs, d);
        assert(joins_names(last, names));
        lemma_joins_concat(dir_relations(dirs, n - 1), last, names);
    }
}

proof fn lemma_file_relations_join(
    fs: Seq<FileScan>,
    dirs: Seq<Seq<char>>,
    n: int,
    names: Seq<Seq<char>>,
)
    requires
        0 <= n <= fs.len(),
        forall|x: Seq<char>| dirs.contains(x) ==> #[trigger] names.contains(x),
        forall|x: Seq<char>| file_qnames(fs).contains(x) ==> #[trigger] names.contains(x),
    ensures
        joins_names(file_relations(fs, dirs, n), names),
    decreases n,
{
    if n > 0 {
        lemma_file_relations_join(fs, dirs, n - 1, names);
        let i = n - 1;
        let pq = dir_qname(fs[i].path@);
        let fqs = file_qnames(fs);
        assert(fqs[i] == file_qname(fs[i].path@));
        assert(fqs.contains(fqs[i]));
        if fqs.subrange(0, i + 1).contains(pq) {
            lemma_subrange_contains(fqs, i + 1, pq);
        }
        lemma_joins_concat(file_relations(fs, dirs, n - 1), file_relation(fs, dirs, i), names);
    }
}

proof fn lemma_def_relations_join(
    defs: Seq<Definition>,
    fs: Seq<FileScan>,
    n: int,
    names: Seq<Seq<char>>,
)
    requires
        0 <= n <= defs.len(),
        forall|x: Seq<char>| def_qnames(defs).contains(x) ==> #[trigger] names.contains(x),
        forall|x: Seq<char>| file_qnames(fs).contains(x) ==> #[trigger] names.contains(x),
    ensures
        joins_names(def_relations(defs, fs, n), names),
    decreases n,
{
    if n > 0 {
        lemma_def_relations_join(defs, fs, n - 1, names);
        let i = n - 1;
        let dq = def_qnames(defs);
        assert(dq[i] == defs[i].qualified_name@);
        assert(dq.contains(dq[i]));
        match def_parent(defs[i], fs) {
            Some(pq) => {
                if dq.subrange(0, i + 1).contains(pq) {
                    lemma_subrange_contains(dq, i + 1, pq);
                }
            },
            None => {},
        }
        lemma_joins_concat(def_relations(defs, fs, n - 1), def_relation(defs, fs, i), names);
    }
}

proof fn lemma_name_uses_join(
    fq: Seq<char>,
    m: Seq<char>,
    names_in: Seq<Seq<char>>,
    dq: Seq<Seq<char>>,
    n: int,
    names: Seq<Seq<char>>,
)
    requires
        0 <= n <= names_in.len(),
        names.contains(fq),
        forall|x: Seq<char>| dq.contains(x) ==> #[trigger] names.contains(x),
    ensures
        joins_names(name_uses(fq, m, names_in, dq, n), names),
    decreases n,
{
    if n > 0 {
        lemma_name_uses_join(fq, m, names_in, dq, n - 1, names);
        let q = qualify(m, names_in[n - 1]);
        let last = if dq.contains(q) {
            seq![(fq, q, EntityRelationKind::Uses)]
        } else {
            seq![]
        };
        lemma_joins_concat(name_uses(fq, m, names_in, dq, n - 1), last, names);
    }
}

proof fn lemma_first_importing_bounds(fs: Seq<FileScan>, m: Seq<char>, i: int)
    requires
        0 <= i,
    ensures
        first_importing(fs, m, i) == -1 || (i <= first_importing(fs, m, i) < fs.len()),
    decreases fs.len() - i,
{
    if i < fs.len() && !imports_module(fs[i], m) {
        lemma_first_importing_bounds(fs, m, i + 1);
    }
}

proof fn lemma_import_relations_join(
    imps: Seq<Import>,
    fs: Seq<FileScan>,
    dq: Seq<Seq<char>>,
    n: int,
    names: Seq<Seq<char>>,
)
    requires
        0 <= n <= imps.len(),
        forall|x: Seq<char>| dq.contains(x) ==> #[trigger] names.contains(x),
        forall|x: Seq<char>| file_qnames(fs).contains(x) ==> #[trigger] names.contains(x),
    ensures
        joins_names(import_relations(imps, fs, dq, n), names),
    decreases n,
{
    if n > 0 {
        lemma_import_relations_join(imps, fs, dq, n - 1, names);
        let imp = imps[n - 1];
        let i = first_importing(fs, imp.module@, 0);
        lemma_first_importing_bounds(fs, imp.module@, 0);
        if i >= 0 {
            let fq = file_qname(fs[i].path@);
            assert(file_qnames(fs)[i] == fq);
            assert(file_qnames(fs).contains(fq));
            let nm = imp.imported_names@.map_values(|s: String| s@);
            let first = if dq.contains(imp.module@) {
                seq![(fq, imp.module@, EntityRelationKind::Uses)]
            } else {
                seq![]
            };
            lemma_name_uses_join(fq, imp.module@, nm, dq, nm.len() as int, names);
            lemma_joins_concat(first, name_uses(fq, imp.module@, nm, dq, nm.len() as int), names);
        }
        lemma_joins_concat(import_relations(imps, fs, dq, n - 1), import_relation(imp, fs, dq), names);
    }
}

proof fn lemma_last_named_bounds(dq: Seq<Seq<char>>, name: Seq<char>, n: int)
    requires
        0 <= n <= dq.len(),
    ensures
        -1 <= last_named(dq, name, n) < n,
    decreases n,
{
    if n > 0 {
        lemma_last_named_bounds(dq, name, n - 1);
    }
}

/// The `calls` pairs of a scan: no pair is a self-call, no pair occurs
/// twice, and both ends are definitions.
pub proof fn lemma_call_pairs_clean(dq: Seq<Seq<char>>, cs: Seq<CallV>)
    ensures
        forall|i: int| 0 <= i < call_pairs(dq, cs).len() ==> (#[trigger] call_pairs(dq, cs)[i]).0
            != call_pairs(dq, cs)[i].1,
        forall|i: int, j: int|
            0 <= i < j < call_pairs(dq, cs).len() ==> #[trigger] call_pairs(dq, cs)[i]
                != #[trigger] call_pairs(dq, cs)[j],
        forall|i: int|
            0 <= i < call_pairs(dq, cs).len() ==> dq.contains((#[trigger] call_pairs(dq, cs)[i]).0)
                && dq.contains(call_pairs(dq, cs)[i].1),
    decreases cs.len(),
{
    if cs.len() > 0 {
        let prev = call_pairs(dq, cs.drop_last());
        lemma_call_pairs_clean(dq, cs.drop_last());
        let c = cs.last();
        let k = last_named(dq, c.0, dq.len() as int);
        lemma_last_named_bounds(dq, c.0, dq.len() as int);
        if dq.contains(c.1) && k >= 0 && c.1 != dq[k] && !prev.contains((c.1, dq[k])) {
            let now = prev.push((c.1, dq[k]));
            assert(call_pairs(dq, cs) == now);
            assert(dq.contains(dq[k]));
            assert forall|i: int, j: int| 0 <= i < j < now.len() implies #[trigger] now[i]
                != #[trigger] now[j] by {
                if j == prev.len() {
                    assert(now[i] == prev[i]);
                    if now[i] == now[j] {
                        assert(prev.contains((c.1, dq[k])));
                    }
                } else {
                    assert(now[i] == prev[i] && now[j] == prev[j]);
                }
            }
            assert forall|i: int| 0 <= i < now.len() implies (#[trigger] now[i]).0 != now[i].1
                && dq.contains(now[i].0) && dq.contains(now[i].1) by {
                if i < prev.len() {
                    assert(now[i] == prev[i]);
                }
            }
        }
    }
}

/// Every relation a sync plans joins two entities the sync plans: a sync
/// never adds a relation to or from a name it does not create.
pub proof fn lemma_planned_relations_join_planned_entities(
    fs: Seq<FileScan>,
    defs: Seq<Definition>,
    imps: Seq<Import>,
    dirs: Seq<Seq<char>>,
)
    ensures
        joins_names(planned_relations(fs, defs, imps, dirs), planned_names(dirs, fs, defs)),
{
    let names = planned_names(dirs, fs, defs);
    let fq = file_qnames(fs);
    let dq = def_qnames(defs);
    crate::order::lemma_contains_concat(dirs, fq);
    crate::order::lemma_contains_concat(dirs + fq, dq);
    assert forall|x: Seq<char>| dirs.contains(x) implies #[trigger] names.contains(x) by {
        assert((dirs + fq).contains(x));
    }
    assert forall|x: Seq<char>| fq.contains(x) implies #[trigger] names.contains(x) by {
        assert((dirs + fq).contains(x));
    }
    assert forall|x: Seq<char>| dq.contains(x) implies #[trigger] names.contains(x) by {}
    lemma_dir_relations_join(dirs, dirs.len() as int, names);
    lemma_file_relations_join(fs, dirs, fs.len() as int, names);
    lemma_def_relations_join(defs, fs, defs.len() as int, names);
    lemma_import_relations_join(imps, fs, dq, imps.len() as int, names);
    let pairs = call_pairs(dq, scan_calls(fs, fs.len() as int));
    lemma_call_pairs_clean(dq, scan_calls(fs, fs.len() as int));
    let cr = calls_relations(pairs);
    assert forall|i: int| 0 <= i < cr.len() implies names.contains(#[trigger] cr[i].0) && names.contains(cr[i].1) by {
        assert(cr[i] == (pairs[i].0, pairs[i].1, EntityRelationKind::Calls));
        assert(dq.contains(pairs[i].0) && dq.contains(pairs[i].1));
    }
    let a = dir_relations(dirs, dirs.len() as int);
    let b = file_relations(fs, dirs, fs.len() as int);
    let c = def_relations(defs, fs, defs.len() as int);
    let d = import_relations(imps, fs, dq, imps.len() as int);
    lemma_joins_concat(a, b, names);
    lemma_joins_concat(a + b, c, names);
    lemma_joins_concat(a + b + c, d, names);
    lemma_joins_concat(a + b + c + d, cr, names);
}

proof fn lemma_def_relations_keep(defs: Seq<Definition>, fs: Seq<FileScan>, n: int, i: int, x: RelV)
    requires
        0 <= i < n <= defs.len(),
        def_relation(defs, fs, i).contains(x),
    ensures
        def_relations(defs, fs, n).contains(x),
    decreases n,
{
    let prev = def_relations(defs, fs, n - 1);
    let here = def_relation(defs, fs, n - 1);
    if i < n - 1 {
        lemma_def_relations_keep(defs, fs, n - 1, i, x);
        let k = choose|k: int| 0 <= k < prev.len() && #[trigger] prev[k] == x;
        assert((prev + here)[k] == x);
    } else {
        let k = choose|k: int| 0 <= k < here.len() && #[trigger] here[k] == x;
        assert((prev + here)[prev.len() + k] == x);
    }
}

proof fn lemma_planned_has_def_relation(
    fs: Seq<FileScan>,
    defs: Seq<Definition>,
    imps: Seq<Import>,
    dirs: Seq<Seq<char>>,
    i: int,
    x: RelV,
)
    requires
        0 <= i < defs.len(),
        def_relation(defs, fs, i).contains(x),
    ensures
        planned_relations(fs, defs, imps, dirs).contains(x),
{
    lemma_def_relations_keep(defs, fs, defs.len() as int, i, x);
    let a = dir_relations(dirs, dirs.len() as int) + file_relations(fs, dirs, fs.len() as int);
    let d = def_relations(defs, fs, defs.len() as int);
    let rest = import_relations(imps, fs, def_qnames(defs), imps.len() as int) + calls_relations(
        call_pairs(def_qnames(defs), scan_calls(fs, fs.len() as int)),
    );
    assert(planned_relations(fs, defs, imps, dirs) =~= a + d + rest);
    let k = choose|k: int| 0 <= k < d.len() && #[trigger] d[k] == x;
    assert((a + d + rest)[a.len() + k] == x);
}

/// Members are contained in their type: a definition whose recorded parent
/// is a bare name (no `::`), such as a method with parent `T`, is contained
/// in its qualified name's parent `pq` (the name without its last `::`
/// segment, such as `m::T` for `m::T::f`), when `pq` is a definition up to
/// it or a file module.
pub proof fn lemma_members_contained_in_their_type(
    fs: Seq<FileScan>,
    defs: Seq<Definition>,
    imps: Seq<Import>,
    dirs: Seq<Seq<char>>,
    i: int,
    j: int,
)
    requires
        0 <= i < defs.len(),
        defs[i].parent matches Some(p) && !contains_text(p@, seq![':', ':']),
        spec_parent_qname(defs[i].qualified_name@) is Some,
        (0 <= j <= i && defs[j].qualified_name@ == spec_parent_qname(defs[i].qualified_name@)->0)
            || (0 <= j < fs.len() && spec_path_to_qualified(fs[j].path@) == spec_parent_qname(
            defs[i].qualified_name@,
        )->0),
    ensures
        planned_relations(fs, defs, imps, dirs).contains(
            (
                spec_parent_qname(defs[i].qualified_name@)->0,
                defs[i].qualified_name@,
                EntityRelationKind::Contains,
            ),
        ),
{
    let pq = spec_parent_qname(defs[i].qualified_name@)->0;
    assert(sep() =~= seq![':', ':']);
    assert(def_parent(defs[i], fs) == Some(pq));
    if 0 <= j <= i && defs[j].qualified_name@ == pq {
        assert(def_qnames(defs).subrange(0, i + 1)[j] == pq);
    } else {
        assert(file_qnames(fs)[j] == pq);
    }
    let x = (pq, defs[i].qualified_name@, EntityRelationKind::Contains);
    assert(def_relation(defs, fs, i)[0] == x);
    lemma_planned_has_def_relation(fs, defs, imps, dirs, i, x);
}

/// A definition whose recorded parent is a full name (with `::`) is
/// contained in that name, when it is a definition up to it or a file
/// module.
pub proof fn lemma_members_contained_in_full_parent(
    fs: Seq<FileScan>,
    defs: Seq<Definition>,
    imps: Seq<Import>,
    dirs: Seq<Seq<char>>,
    i: int,
    j: int,
)
    requires
        0 <= i < defs.len(),
        defs[i].parent matches Some(p) && contains_text(p@, seq![':', ':']),
        (0 <= j <= i && defs[j].qualified_name@ == defs[i].parent->0@) || (0 <= j < fs.len()
            && spec_path_to_qualified(fs[j].path@) == defs[i].parent->0@),
    ensures
        planned_relations(fs, defs, imps, dirs).contains(
            (defs[i].parent->0@, defs[i].qualified_name@, EntityRelationKind::Contains),
        ),
{
    let pq = defs[i].parent->0@;
    assert(sep() =~= seq![':', ':']);
    assert(def_parent(defs[i], fs) == Some(pq));
    if 0 <= j <= i && defs[j].qualified_name@ == pq {
        assert(def_qnames(defs).subrange(0, i + 1)[j] == pq);
    } else {
        assert(file_qnames(fs)[j] == pq);
    }
    let x = (pq, defs[i].qualified_name@, EntityRelationKind::Contains);
    assert(def_relation(defs, fs, i)[0] == x);
    lemma_planned_has_def_relation(fs, defs, imps, dirs, i, x);
}

proof fn lemma_dir_relations_keep(dirs: Seq<Seq<char>>, n: int, j: int, x: RelV)
    requires
        0 <= j < n <= dirs.len(),
        dir_relation(dirs, dirs[j]).contains(x),
    ensures
        dir_relations(dirs, n).contains(x),
    decreases n,
{
    let prev = dir_relations(dirs, n - 1);
    let here = dir_relation(dirs, dirs[n - 1]);
    if j < n - 1 {
        lemma_dir_relations_keep(dirs, n - 1, j, x);
        let k = choose|k: int| 0 <= k < prev.len() && #[trigger] prev[k] == x;
        assert((prev + here)[k] == x);
    } else {
        let k = choose|k: int| 0 <= k < here.len() && #[trigger] here[k] == x;
        assert((prev + here)[prev.len() + k] == x);
    }
}

proof fn lemma_file_relations_keep(fs: Seq<FileScan>, dirs: Seq<Seq<char>>, n: int, j: int, x: RelV)
    requires
        0 <= j < n <= fs.len(),
        file_relation(fs, dirs, j).contains(x),
    ensures
        file_relations(fs, dirs, n).contains(x),
    decreases n,
{
    let prev = file_relations(fs, dirs, n - 1);
    let here = file_relation(fs, dirs, n - 1);
    if j < n - 1 {
        lemma_file_relations_keep(fs, dirs, n - 1, j, x);
        let k = choose|k: int| 0 <= k < prev.len() && #[trigger] prev[k] == x;
        assert((prev + here)[k] == x);
    } else {
        let k = choose|k: int| 0 <= k < here.len() && #[trigger] here[k] == x;
        assert((prev + here)[prev.len() + k] == x);
    }
}

proof fn lemma_import_relations_keep(
    imps: Seq<Import>,
    fs: Seq<FileScan>,
    dq: Seq<Seq<char>>,
    n: int,
    j: int,
    x: RelV,
)
    requires
        0 <= j < n <= imps.len(),
        import_relation(imps[j], fs, dq).contains(x),
    ensures
        import_relations(imps, fs, dq, n).contains(x),
    decreases n,
{
    let prev = import_relations(imps, fs, dq, n - 1);
    let here = import_relation(imps[n - 1], fs, dq);
    if j < n - 1 {
        lemma_import_relations_keep(imps, fs, dq, n - 1, j, x);
        let k = choose|k: int| 0 <= k < prev.len() && #[trigger] prev[k] == x;
        assert((prev + here)[k] == x);
    } else {
        let k = choose|k: int| 0 <= k < here.len() && #[trigger] here[k] == x;
        assert((prev + here)[prev.len() + k] == x);
    }
}

/// The parts of the plan are all in it: directory, file and import
/// relations are planned relations.
proof fn lemma_planned_has_parts(
    fs: Seq<FileScan>,
    defs: Seq<Definition>,
    imps: Seq<Import>,
    dirs: Seq<Seq<char>>,
    x: RelV,
)
    requires
        dir_relations(dirs, dirs.len() as int).contains(x) || file_relations(
            fs,
            dirs,
            fs.len() as int,
        ).contains(x) || import_relations(imps, fs, def_qnames(defs), imps.len() as int).contains(x),
    ensures
        planned_relations(fs, defs, imps, dirs).contains(x),
{
    let a = dir_relations(dirs, dirs.len() as int);
    let b = file_relations(fs, dirs, fs.len() as int);
    let d = def_relations(defs, fs, defs.len() as int);
    let c = import_relations(imps, fs, def_qnames(defs), imps.len() as int);
    let e = calls_relations(call_pairs(def_qnames(defs), scan_calls(fs, fs.len() as int)));
    let all = planned_relations(fs, defs, imps, dirs);
    assert(all =~= a + b + d + c + e);
    if a.contains(x) {
        let k = choose|k: int| 0 <= k < a.len() && #[trigger] a[k] == x;
        assert(all[k] == x);
    } else if b.contains(x) {
        let k = choose|k: int| 0 <= k < b.len() && #[trigger] b[k] == x;
        assert(all[a.len() + k] == x);
    } else {
        let k = choose|k: int| 0 <= k < c.len() && #[trigger] c[k] == x;
        assert(all[a.len() + b.len() + d.len() + k] == x);
    }
}

/// Directories nest: a directory module `d` whose parent name `p` (the
/// name without its last `::` segment) is itself a directory module is
/// contained in it.
pub proof fn lemma_dirs_contained_in_parent_dir(
    fs: Seq<FileScan>,
    defs: Seq<Definition>,
    imps: Seq<Import>,
    dirs: Seq<Seq<char>>,
    j: int,
    k: int,
)
    requires
        0 <= j < dirs.len(),
        0 <= k < dirs.len(),
        spec_parent_qname(dirs[j]) == Some(dirs[k]),
        dirs[k].len() > 0,
    ensures
        planned_relations(fs, defs, imps, dirs).contains(
            (dirs[k], dirs[j], EntityRelationKind::Contains),
        ),
{
    let x = (dirs[k], dirs[j], EntityRelationKind::Contains);
    assert(dirs.contains(dirs[k]));
    assert(dir_relation(dirs, dirs[j])[0] == x);
    lemma_dir_relations_keep(dirs, dirs.len() as int, j, x);
    lemma_planned_has_parts(fs, defs, imps, dirs, x);
}

/// Files sit in their directory: the module of a file whose directory's
/// module name is not empty and is a directory module is contained in it.
pub proof fn lemma_files_contained_in_their_dir(
    fs: Seq<FileScan>,
    defs: Seq<Definition>,
    imps: Seq<Import>,
    dirs: Seq<Seq<char>>,
    j: int,
)
    requires
        0 <= j < fs.len(),
        spec_path_to_qualified(parent_path(fs[j].path@)).len() > 0,
        dirs.contains(spec_path_to_qualified(parent_path(fs[j].path@))),
    ensures
        planned_relations(fs, defs, imps, dirs).contains(
            (
                spec_path_to_qualified(parent_path(fs[j].path@)),
                spec_path_to_qualified(fs[j].path@),
                EntityRelationKind::Contains,
            ),
        ),
{
    let x = (
        spec_path_to_qualified(parent_path(fs[j].path@)),
        spec_path_to_qualified(fs[j].path@),
        EntityRelationKind::Contains,
    );
    assert(file_relation(fs, dirs, j)[0] == x);
    lemma_file_relations_keep(fs, dirs, fs.len() as int, j, x);
    lemma_planned_has_parts(fs, defs, imps, dirs, x);
}

/// Imports are uses: when file `fs[f]` imports module `m` (import `imps[j]`)
/// and no earlier file does, and `m` is a planned definition, the module of
/// `fs[f]` uses `m`.
pub proof fn lemma_imports_are_uses(
    fs: Seq<FileScan>,
    defs: Seq<Definition>,
    imps: Seq<Import>,
    dirs: Seq<Seq<char>>,
    j: int,
    f: int,
)
    requires
        0 <= j < imps.len(),
        0 <= f < fs.len(),
        exists|t: int| 0 <= t < fs[f].imports@.len() && #[trigger] fs[f].imports@[t].module@ == imps[j].module@,
        forall|g: int| 0 <= g < f ==> !imports_module(#[trigger] fs[g], imps[j].module@),
    ensures
        def_qnames(defs).contains(imps[j].module@) ==> planned_relations(fs, defs, imps, dirs).contains(
            (spec_path_to_qualified(fs[f].path@), imps[j].module@, EntityRelationKind::Uses),
        ),
{
    let m = imps[j].module@;
    let dq = def_qnames(defs);
    lemma_first_importing_at(fs, m, 0, f);
    if dq.contains(m) {
        let x = (spec_path_to_qualified(fs[f].path@), m, EntityRelationKind::Uses);
        assert(import_relation(imps[j], fs, dq)[0] == x);
        lemma_import_relations_keep(imps, fs, dq, imps.len() as int, j, x);
        lemma_planned_has_parts(fs, defs, imps, dirs, x);
    }
}

proof fn lemma_first_importing_at(fs: Seq<FileScan>, m: Seq<char>, i: int, f: int)
    requires
        0 <= i <= f < fs.len(),
        imports_module(fs[f], m),
        forall|g: int| 0 <= g < f ==> !imports_module(#[trigger] fs[g], m),
    ensures
        first_importing(fs, m, i) == f,
    decreases f - i,
{
    if i < f {
        assert(!imports_module(fs[i], m));
        lemma_first_importing_at(fs, m, i + 1, f);
    }
}

proof fn lemma_last_named_unique(dq: Seq<Seq<char>>, name: Seq<char>, n: int, j: int)
    requires
        0 <= j < n <= dq.len(),
        spec_last_segment(dq[j]) == name,
        forall|k: int| 0 <= k < n && k != j ==> spec_last_segment(#[trigger] dq[k]) != name,
    ensures
        last_named(dq, name, n) == j,
    decreases n,
{
    if n - 1 != j {
        lemma_last_named_unique(dq, name, n - 1, j);
    }
}

proof fn lemma_call_pair_kept(dq: Seq<Seq<char>>, cs: Seq<CallV>, i: int, x: (Seq<char>, Seq<char>))
    requires
        0 <= i < cs.len(),
        call_pairs(dq, cs.subrange(0, i + 1)).contains(x),
    ensures
        call_pairs(dq, cs).contains(x),
    decreases cs.len(),
{
    if i < cs.len() - 1 {
        assert(cs.drop_last().subrange(0, i + 1) =~= cs.subrange(0, i + 1));
        lemma_call_pair_kept(dq, cs.drop_last(), i, x);
        let prev = call_pairs(dq, cs.drop_last());
        let k = choose|k: int| 0 <= k < prev.len() && #[trigger] prev[k] == x;
        let r = call_pairs(dq, cs);
        assert(r == call_step(prev, dq, cs.last()));
        assert(r[k] == x);
    } else {
        assert(cs.subrange(0, i + 1) =~= cs);
    }
}

/// Calls are resolved to their definition: a call site of a defined caller
/// whose callee's simple name is the last segment of exactly one other
/// definition `d` yields the relation `caller calls d`.
pub proof fn lemma_calls_resolve_to_definition(
    fs: Seq<FileScan>,
    defs: Seq<Definition>,
    imps: Seq<Import>,
    dirs: Seq<Seq<char>>,
    i: int,
    j: int,
)
    requires
        0 <= i < scan_calls(fs, fs.len() as int).len(),
        0 <= j < defs.len(),
        def_qnames(defs).contains(scan_calls(fs, fs.len() as int)[i].1),
        spec_last_segment(defs[j].qualified_name@) == scan_calls(fs, fs.len() as int)[i].0,
        forall|k: int|
            0 <= k < defs.len() && k != j ==> spec_last_segment((#[trigger] defs[k]).qualified_name@)
                != scan_calls(fs, fs.len() as int)[i].0,
        defs[j].qualified_name@ != scan_calls(fs, fs.len() as int)[i].1,
    ensures
        planned_relations(fs, defs, imps, dirs).contains(
            (
                scan_calls(fs, fs.len() as int)[i].1,
                defs[j].qualified_name@,
                EntityRelationKind::Calls,
            ),
        ),
{
    let cs = scan_calls(fs, fs.len() as int);
    let dq = def_qnames(defs);
    let c = cs[i];
    assert forall|k: int| 0 <= k < dq.len() && k != j implies spec_last_segment(#[trigger] dq[k]) != c.0 by {
        assert(dq[k] == defs[k].qualified_name@);
    }
    lemma_last_named_unique(dq, c.0, dq.len() as int, j);
    let pre = cs.subrange(0, i + 1);
    assert(pre.last() == c);
    assert(pre.drop_last() =~= cs.subrange(0, i));
    let prev = call_pairs(dq, pre.drop_last());
    let x = (c.1, dq[j]);
    assert(call_pairs(dq, pre) == call_step(prev, dq, c));
    if !prev.contains(x) {
        assert(call_pairs(dq, pre) == prev.push(x));
        assert(call_pairs(dq, pre)[prev.len() as int] == x);
    } else {
        let k = choose|k: int| 0 <= k < prev.len() && #[trigger] prev[k] == x;
        assert(call_pairs(dq, pre)[k] == x);
    }
    lemma_call_pair_kept(dq, cs, i, x);
    let pairs = call_pairs(dq, cs);
    let t = choose|t: int| 0 <= t < pairs.len() && #[trigger] pairs[t] == x;
    let cr = calls_relations(pairs);
    let y = (c.1, defs[j].qualified_name@, EntityRelationKind::Calls);
    assert(cr[t] == y);
    let a = dir_relations(dirs, dirs.len() as int);
    let b = file_relations(fs, dirs, fs.len() as int);
    let d = def_relations(defs, fs, defs.len() as int);
    let im = import_relations(imps, fs, dq, imps.len() as int);
    let all = planned_relations(fs, defs, imps, dirs);
    assert(all =~= a + b + d + im + cr);
    assert(all[a.len() + b.len() + d.len() + im.len() + t] == y);
}

} // verus!
