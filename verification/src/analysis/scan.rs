//! Scanning a source tree: per-file extraction, and the assembly of the scan
//! report from the files a walk has found.
//!
//! Walking the file system and reading files is left to the caller, which
//! hands each file here as its path relative to the scan root (with `/`
//! separators) and its source text.

use vstd::prelude::*;
use crate::analysis::extractors::c::{extract_c, spec_extract_c};
use crate::analysis::extractors::calls::{
    calls_view, defs_view, imports_view, Call, Definition, Extracted, Import,
};
use crate::analysis::extractors::go::{extract_go, spec_extract_go};
use crate::analysis::extractors::java::{extract_java, spec_extract_java};
use crate::analysis::extractors::javascript::{extract_js, spec_extract_js};
use crate::analysis::extractors::python::{extract_python, spec_extract_python};
use crate::analysis::extractors::rust::{extract_rust, spec_extract_rust};
use crate::analysis::languages::{lowercase_of, Language};
use crate::analysis::syntax::{parse_syntax, parsed_syntax, SyntaxNode};
use crate::domain::entity::{Entity, EntityKind, EntityOrigin};
use crate::domain::metrics::EntityMetrics;
use crate::naming::{path_to_qualified, spec_path_to_qualified};
use crate::text::{chars_of, str_is};

verus! {

/// What to scan.
#[derive(Debug)]
pub struct ScanConfig {
    /// The directory the scan starts from.
    pub root: String,
    /// When set, only files of these languages are scanned.
    pub languages: Option<Vec<Language>>,
}

impl ScanConfig {
    /// Whether files of `lang` are scanned under this configuration: all
    /// languages when none are named, else the named ones.
    pub open spec fn spec_allows(self, lang: Language) -> bool {
        match self.languages {
            None => true,
            Some(v) => v@.contains(lang),
        }
    }

    /// Whether files of `lang` are scanned under this configuration.
    pub fn allows(&self, lang: Language) -> (r: bool)
        ensures
            r == self.spec_allows(lang),
    {
        match &self.languages {
            None => true,
            Some(v) => {
                let mut i: usize = 0;
                while i < v.len()
                    invariant
                        i <= v@.len(),
                        self.languages == Some(*v),
                        forall|j: int| 0 <= j < i ==> v@[j] != lang,
                    decreases v@.len() - i,
                {
                    if v[i] == lang {
                        assert(v@[i as int] == lang);
                        assert(v@.contains(lang));
                        return true;
                    }
                    i += 1;
                }
                false
            },
        }
    }
}

/// What one file yielded.
#[derive(Debug)]
pub struct FileScan {
    /// The file's path relative to the scan root, `/`-separated.
    pub path: String,
    pub definitions: Vec<Definition>,
    pub imports: Vec<Import>,
    pub calls: Vec<Call>,
}

/// The report of a whole scan.
#[derive(Debug)]
pub struct ScanReport {
    /// Number of source files parsed.
    pub files_scanned: usize,
    /// `(language name, file count)`, each name once, in order of first file.
    pub files_by_language: Vec<(String, usize)>,
    /// All definitions, file after file.
    pub definitions: Vec<Definition>,
    /// All imports, file after file.
    pub imports: Vec<Import>,
    /// Per-file detail.
    pub file_scans: Vec<FileScan>,
    /// One scan-origin entity per definition.
    pub entities: Vec<Entity>,
    /// The languages seen, in alphabetical order of their names.
    pub languages_detected: Vec<Language>,
}

impl ScanReport {
    /// The report of a scan that has found nothing yet.
    pub fn new() -> (r: Self)
        ensures
            r.files_scanned == 0,
            r.files_by_language@.len() == 0,
            r.definitions@.len() == 0,
            r.imports@.len() == 0,
            r.file_scans@.len() == 0,
            r.entities@.len() == 0,
            r.languages_detected@.len() == 0,
    {
        ScanReport {
            files_scanned: 0,
            files_by_language: Vec::new(),
            definitions: Vec::new(),
            imports: Vec::new(),
            file_scans: Vec::new(),
            entities: Vec::new(),
            languages_detected: Vec::new(),
        }
    }
}

/// Directory names a walk never enters besides hidden ones.
pub open spec fn skipped_dir_names() -> Seq<Seq<char>> {
    seq!["target"@, "node_modules"@, "__pycache__"@, "build"@, "dist"@]
}

/// The walk leaves out build output and dependencies: `target`,
/// `node_modules`, `__pycache__`, `build` and `dist` are among the skipped
/// names (besides hidden directories); `src` is not.
pub proof fn lemma_skipped_dirs()
    ensures
        skipped_dir_names().contains("target"@),
        skipped_dir_names().contains("node_modules"@),
        skipped_dir_names().contains("__pycache__"@),
        skipped_dir_names().contains("build"@),
        skipped_dir_names().contains("dist"@),
        !skipped_dir_names().contains("src"@),
{
    let s = skipped_dir_names();
    assert(s[0] == "target"@);
    assert(s[1] == "node_modules"@);
    assert(s[2] == "__pycache__"@);
    assert(s[3] == "build"@);
    assert(s[4] == "dist"@);
    reveal_strlit("src");
    reveal_strlit("target");
    reveal_strlit("node_modules");
    reveal_strlit("__pycache__");
    reveal_strlit("build");
    reveal_strlit("dist");
    assert("src"@.len() != "target"@.len());
    assert("src"@.len() != "node_modules"@.len());
    assert("src"@.len() != "__pycache__"@.len());
    assert("src"@.len() != "build"@.len());
    assert("src"@.len() != "dist"@.len());
}

/// Whether a directory walk skips the directory called `name`: hidden
/// directories and build or dependency output.
pub fn should_skip_dir(name: &str) -> (r: bool)
    ensures
        r == ((name@.len() > 0 && name@[0] == '.') || skipped_dir_names().contains(name@)),
{
    let v = chars_of(name);
    if v.len() > 0 && v[0] == '.' {
        return true;
    }
    let hit = str_is(name, "target") || str_is(name, "node_modules") || str_is(name, "__pycache__")
        || str_is(name, "build") || str_is(name, "dist");
    proof {
        let s = skipped_dir_names();
        if hit {
            if name@ == "target"@ {
                assert(s[0] == name@);
            } else if name@ == "node_modules"@ {
                assert(s[1] == name@);
            } else if name@ == "__pycache__"@ {
                assert(s[2] == name@);
            } else if name@ == "build"@ {
                assert(s[3] == name@);
            } else {
                assert(s[4] == name@);
            }
        } else {
            assert forall|i: int| 0 <= i < s.len() implies s[i] != name@ by {}
        }
    }
    hit
}

/// The module qualified name of a file: its relative path without a
/// leading `src/`, `lib/` or `pkg/` and without the extension of its file
/// name, with every `/` replaced by `::`.
pub open spec fn spec_module_qname(rel: Seq<char>) -> Seq<char> {
    spec_path_to_qualified(rel)
}

/// Exec form of [`spec_module_qname`]: `src/auth/login.rs` → `auth::login`.
pub fn qualified_name_from_path(rel: &str) -> (r: String)
    ensures
        r@ == spec_module_qname(rel@),
{
    path_to_qualified(rel)
}

/// What the extractor of `lang` yields for a syntax tree.
pub open spec fn spec_extract(root: SyntaxNode, lang: Language, m: Seq<char>) -> Extracted {
    match lang {
        Language::Python => spec_extract_python(root, m),
        Language::Rust => spec_extract_rust(root, m),
        Language::JavaScript => spec_extract_js(root, m),
        Language::C => spec_extract_c(root, m),
        Language::Go => spec_extract_go(root, m),
        Language::Java => spec_extract_java(root, m),
    }
}

/// Definitions, imports and calls of a syntax tree, by the extractor of its
/// language.
pub fn extract(root: &SyntaxNode, lang: Language, module_qname: &str) -> (r: (
    Vec<Definition>,
    Vec<Import>,
    Vec<Call>,
))
    ensures
        (defs_view(r.0@), imports_view(r.1@), calls_view(r.2@)) == spec_extract(
            *root,
            lang,
            module_qname@,
        ),
{
    match lang {
        Language::Python => extract_python(root, module_qname),
        Language::Rust => extract_rust(root, module_qname),
        Language::JavaScript => extract_js(root, module_qname),
        Language::C => extract_c(root, module_qname),
        Language::Go => extract_go(root, module_qname),
        Language::Java => extract_java(root, module_qname),
    }
}

/// Scans one file: parses `source` as `lang` and extracts its items under
/// the module name of `rel`.  `None` when the parser fails.
pub fn scan_source(rel: &str, lang: Language, source: &str) -> (r: Option<FileScan>)
    ensures
        match parsed_syntax(lang, source@) {
            None => r is None,
            Some(root) => r is Some && r->0.path@ == rel@ && (
                defs_view(r->0.definitions@),
                imports_view(r->0.imports@),
                calls_view(r->0.calls@),
            ) == spec_extract(root, lang, spec_module_qname(rel@)),
        },
{
    let root = match parse_syntax(lang, source) {
        Some(t) => t,
        None => return None,
    };
    let module_qname = qualified_name_from_path(rel);
    let (definitions, imports, calls) = extract(&root, lang, module_qname.as_str());
    Some(FileScan { path: rel.to_string(), definitions, imports, calls })
}

/// The `(name, count)` pairs as views.
pub open spec fn counts_view(v: Seq<(String, usize)>) -> Seq<(Seq<char>, usize)> {
    v.map_values(|p: (String, usize)| (p.0@, p.1))
}

/// The first index at or after `i` whose name is `k`, or -1.
pub open spec fn key_index_from(s: Seq<(Seq<char>, usize)>, k: Seq<char>, i: int) -> int
    decreases s.len() - i,
{
    if i < 0 || i >= s.len() {
        -1
    } else if s[i].0 == k {
        i
    } else {
        key_index_from(s, k, i + 1)
    }
}

/// The index of name `k` in `s`, or -1.
pub open spec fn key_index(s: Seq<(Seq<char>, usize)>, k: Seq<char>) -> int {
    key_index_from(s, k, 0)
}

/// `s` with the count of `k` raised by one (a new pair when `k` is absent).
pub open spec fn bumped(s: Seq<(Seq<char>, usize)>, k: Seq<char>) -> Seq<(Seq<char>, usize)> {
    let i = key_index(s, k);
    if i < 0 {
        s.push((k, 1usize))
    } else {
        s.update(i, (k, (s[i].1 + 1) as usize))
    }
}

proof fn lemma_key_index_bounds(s: Seq<(Seq<char>, usize)>, k: Seq<char>, i: int)
    requires
        0 <= i,
    ensures
        key_index_from(s, k, i) == -1 || (i <= key_index_from(s, k, i) < s.len() && s[key_index_from(
            s,
            k,
            i,
        )].0 == k),
        key_index_from(s, k, i) == -1 ==> forall|j: int| i <= j < s.len() ==> s[j].0 != k,
    decreases s.len() - i,
{
    if i < s.len() && s[i].0 != k {
        lemma_key_index_bounds(s, k, i + 1);
    }
}

/// The index `bumped` works at is in range, or -1.
pub proof fn lemma_key_index_in_range(s: Seq<(Seq<char>, usize)>, k: Seq<char>)
    ensures
        key_index(s, k) == -1 || (0 <= key_index(s, k) < s.len() && s[key_index(s, k)].0 == k),
{
    lemma_key_index_bounds(s, k, 0);
}

/// Raising one count of counts bounded by `b` keeps them bounded by `b + 1`.
pub proof fn lemma_bumped_bounded(s: Seq<(Seq<char>, usize)>, k: Seq<char>, b: int)
    requires
        forall|j: int| 0 <= j < s.len() ==> #[trigger] s[j].1 <= b,
        0 <= b,
        b + 1 <= usize::MAX,
    ensures
        forall|j: int| 0 <= j < bumped(s, k).len() ==> #[trigger] bumped(s, k)[j].1 <= b + 1,
{
    lemma_key_index_in_range(s, k);
    let i = key_index(s, k);
    if i >= 0 {
        assert(s[i].1 <= b);
    }
}

/// Raises the count of `key` by one, adding `(key, 1)` when it is absent.
pub fn bump_count(counts: &mut Vec<(String, usize)>, key: &str)
    requires
        forall|j: int| 0 <= j < old(counts)@.len() ==> #[trigger] old(counts)@[j].1 < usize::MAX,
    ensures
        counts_view(final(counts)@) == bumped(counts_view(old(counts)@), key@),
{
    let ghost s = counts_view(counts@);
    proof {
        lemma_key_index_bounds(s, key@, 0);
    }
    let mut i: usize = 0;
    while i < counts.len()
        invariant
            i <= counts@.len(),
            s == counts_view(counts@),
            counts@ == old(counts)@,
            key_index(s, key@) == key_index_from(s, key@, i as int),
            forall|j: int| 0 <= j < counts@.len() ==> #[trigger] counts@[j].1 < usize::MAX,
        decreases counts@.len() - i,
    {
        if str_is(counts[i].0.as_str(), key) {
            let n = counts[i].1 + 1;
            let name = key.to_string();
            counts.set(i, (name, n));
            assert(counts_view(counts@) =~= bumped(s, key@));
            return;
        }
        i += 1;
    }
    counts.push((key.to_string(), 1));
    assert(counts_view(counts@) =~= bumped(s, key@));
}

/// Copies of the definitions, in order.
pub fn clone_definitions(v: &Vec<Definition>) -> (r: Vec<Definition>)
    ensures
        defs_view(r@) == defs_view(v@),
{
    let mut out: Vec<Definition> = Vec::new();
    let mut i: usize = 0;
    while i < v.len()
        invariant
            i <= v@.len(),
            defs_view(out@) == defs_view(v@.subrange(0, i as int)),
        decreases v@.len() - i,
    {
        let d = v[i].clone();
        let ghost o0 = out@;
        out.push(d);
        assert(defs_view(out@) =~= defs_view(o0).push(v@[i as int]@));
        assert(v@.subrange(0, i + 1) =~= v@.subrange(0, i as int).push(v@[i as int]));
        assert(defs_view(out@) =~= defs_view(v@.subrange(0, i + 1)));
        i += 1;
    }
    assert(v@.subrange(0, v@.len() as int) =~= v@);
    out
}

/// Copies of the imports, in order.
pub fn clone_imports(v: &Vec<Import>) -> (r: Vec<Import>)
    ensures
        imports_view(r@) == imports_view(v@),
{
    let mut out: Vec<Import> = Vec::new();
    let mut i: usize = 0;
    while i < v.len()
        invariant
            i <= v@.len(),
            imports_view(out@) == imports_view(v@.subrange(0, i as int)),
        decreases v@.len() - i,
    {
        let d = v[i].clone();
        let ghost o0 = out@;
        out.push(d);
        assert(imports_view(out@) =~= imports_view(o0).push(v@[i as int]@));
        assert(v@.subrange(0, i + 1) =~= v@.subrange(0, i as int).push(v@[i as int]));
        assert(imports_view(out@) =~= imports_view(v@.subrange(0, i + 1)));
        i += 1;
    }
    assert(v@.subrange(0, v@.len() as int) =~= v@);
    out
}

/// Adds one scanned file of language `lang` to the report: counts it, and
/// appends its definitions and imports and the file itself.
pub fn record_file(report: &mut ScanReport, lang: Language, scan: FileScan)
    requires
        old(report).files_scanned < usize::MAX,
        forall|j: int|
            0 <= j < old(report).files_by_language@.len() ==> #[trigger] old(
                report,
            ).files_by_language@[j].1 < usize::MAX,
    ensures
        final(report).files_scanned == old(report).files_scanned + 1,
        counts_view(final(report).files_by_language@) == bumped(
            counts_view(old(report).files_by_language@),
            lang.name(),
        ),
        defs_view(final(report).definitions@) == defs_view(old(report).definitions@) + defs_view(
            scan.definitions@,
        ),
        imports_view(final(report).imports@) == imports_view(old(report).imports@) + imports_view(
            scan.imports@,
        ),
        final(report).file_scans@ == old(report).file_scans@.push(scan),
        final(report).entities@ == old(report).entities@,
        final(report).languages_detected@ == old(report).languages_detected@,
{
    bump_count(&mut report.files_by_language, lang.as_str());
    report.files_scanned = report.files_scanned + 1;
    let defs = clone_definitions(&scan.definitions);
    let imps = clone_imports(&scan.imports);
    let ghost d0 = report.definitions@;
    let ghost i0 = report.imports@;
    let mut d = defs;
    let mut m = imps;
    report.definitions.append(&mut d);
    report.imports.append(&mut m);
    assert(defs_view(report.definitions@) =~= defs_view(d0) + defs_view(scan.definitions@));
    assert(imports_view(report.imports@) =~= imports_view(i0) + imports_view(scan.imports@));
    report.file_scans.push(scan);
}

/// The languages in alphabetical order of their names.
pub open spec fn languages_by_name() -> Seq<Language> {
    seq![
        Language::C,
        Language::Go,
        Language::Java,
        Language::JavaScript,
        Language::Python,
        Language::Rust,
    ]
}

/// Whether one of the names of `counts` parses (case-insensitively) as `l`.
pub open spec fn names_language(counts: Seq<(Seq<char>, usize)>, l: Language) -> bool {
    exists|i: int|
        0 <= i < counts.len() && Language::spec_from_lower_name(lowercase_of(#[trigger] counts[i].0))
            == Some(l)
}

/// The languages named in `counts`, in alphabetical order of their names.
pub open spec fn spec_languages_detected(counts: Seq<(Seq<char>, usize)>) -> Seq<Language> {
    languages_by_name().filter(|l: Language| names_language(counts, l))
}

/// Whether any name of `counts` parses as `l`.
fn counts_name(counts: &Vec<(String, usize)>, l: Language) -> (r: bool)
    ensures
        r == names_language(counts_view(counts@), l),
{
    let ghost s = counts_view(counts@);
    let mut i: usize = 0;
    while i < counts.len()
        invariant
            i <= counts@.len(),
            s == counts_view(counts@),
            forall|j: int|
                0 <= j < i ==> Language::spec_from_lower_name(lowercase_of(#[trigger] s[j].0))
                    != Some(l),
        decreases counts@.len() - i,
    {
        match Language::parse(counts[i].0.as_str()) {
            Ok(p) => {
                if p == l {
                    assert(Language::spec_from_lower_name(lowercase_of(s[i as int].0)) == Some(l));
                    return true;
                }
            },
            Err(_) => {},
        }
        i += 1;
    }
    false
}

/// The languages named in `counts`, in alphabetical order of their names.
pub fn languages_detected(counts: &Vec<(String, usize)>) -> (r: Vec<Language>)
    ensures
        r@ == spec_languages_detected(counts_view(counts@)),
{
    let all: [Language; 6] = [
        Language::C,
        Language::Go,
        Language::Java,
        Language::JavaScript,
        Language::Python,
        Language::Rust,
    ];
    assert(all@ =~= languages_by_name());
    let ghost pred = |l: Language| names_language(counts_view(counts@), l);
    let mut out: Vec<Language> = Vec::new();
    let mut i: usize = 0;
    while i < 6
        invariant
            i <= 6,
            all@ == languages_by_name(),
            pred == (|l: Language| names_language(counts_view(counts@), l)),
            out@ == all@.subrange(0, i as int).filter(pred),
        decreases 6 - i,
    {
        let l = all[i];
        proof {
            reveal(Seq::filter);
            assert(all@.subrange(0, i + 1).drop_last() =~= all@.subrange(0, i as int));
            assert(all@.subrange(0, i + 1).last() == l);
        }
        if counts_name(counts, l) {
            out.push(l);
        }
        i += 1;
    }
    assert(all@.subrange(0, 6) =~= all@);
    out
}

/// Completes a scan report once every file is recorded: the languages seen,
/// and one scan-origin entity per definition, in order.
pub fn finish_scan(report: &mut ScanReport)
    ensures
        final(report).files_scanned == old(report).files_scanned,
        final(report).files_by_language@ == old(report).files_by_language@,
        final(report).definitions@ == old(report).definitions@,
        final(report).imports@ == old(report).imports@,
        final(report).file_scans@ == old(report).file_scans@,
        final(report).languages_detected@ == spec_languages_detected(
            counts_view(old(report).files_by_language@),
        ),
        final(report).entities@.len() == old(report).entities@.len()
            + old(report).definitions@.len(),
        forall|j: int|
            0 <= j < old(report).entities@.len() ==> final(report).entities@[j] == old(
                report,
            ).entities@[j],
        forall|j: int|
            0 <= j < old(report).definitions@.len() ==> {
                let e = #[trigger] final(report).entities@[old(report).entities@.len() + j];
                let d = old(report).definitions@[j];
                &&& e.qualified_name@ == d.qualified_name@
                &&& e.kind == d.kind
                &&& e.origin == EntityOrigin::Scan
                &&& e.metrics == EntityMetrics::spec_empty()
            },
{
    report.languages_detected = languages_detected(&report.files_by_language);
    let ghost e0 = report.entities@;
    let mut i: usize = 0;
    while i < report.definitions.len()
        invariant
            i <= report.definitions@.len(),
            report.definitions@ == old(report).definitions@,
            report.files_scanned == old(report).files_scanned,
            report.files_by_language@ == old(report).files_by_language@,
            report.imports@ == old(report).imports@,
            report.file_scans@ == old(report).file_scans@,
            report.languages_detected@ == spec_languages_detected(
                counts_view(old(report).files_by_language@),
            ),
            e0 == old(report).entities@,
            report.entities@.len() == e0.len() + i,
            forall|j: int| 0 <= j < e0.len() ==> report.entities@[j] == e0[j],
            forall|j: int|
                0 <= j < i ==> {
                    let e = #[trigger] report.entities@[e0.len() + j];
                    let d = report.definitions@[j];
                    &&& e.qualified_name@ == d.qualified_name@
                    &&& e.kind == d.kind
                    &&& e.origin == EntityOrigin::Scan
                    &&& e.metrics == EntityMetrics::spec_empty()
                },
        decreases report.definitions@.len() - i,
    {
        let name = report.definitions[i].qualified_name.clone();
        let kind = report.definitions[i].kind;
        let entity = Entity::from_scan(name, kind, EntityMetrics::empty());
        report.entities.push(entity);
        i += 1;
    }
}

/// The definitions of all scanned files, file after file.
pub open spec fn all_defs(files: Seq<(Language, FileScan)>) -> Seq<(EntityKind, Seq<char>, Option<Seq<char>>)>
    decreases files.len(),
{
    if files.len() == 0 {
        seq![]
    } else {
        all_defs(files.drop_last()) + defs_view(files.last().1.definitions@)
    }
}

/// The imports of all scanned files, file after file.
pub open spec fn all_imports(files: Seq<(Language, FileScan)>) -> Seq<(Seq<char>, Seq<Seq<char>>)>
    decreases files.len(),
{
    if files.len() == 0 {
        seq![]
    } else {
        all_imports(files.drop_last()) + imports_view(files.last().1.imports@)
    }
}

/// The `(language name, file count)` pairs of the scanned files, each name
/// once, in order of first file.
pub open spec fn language_counts(files: Seq<(Language, FileScan)>) -> Seq<(Seq<char>, usize)>
    decreases files.len(),
{
    if files.len() == 0 {
        seq![]
    } else {
        bumped(language_counts(files.drop_last()), files.last().0.name())
    }
}

/// The files of `files` whose language `config` allows, in order.
pub open spec fn allowed_files(config: ScanConfig, files: Seq<(Language, FileScan)>) -> Seq<
    (Language, FileScan),
>
    decreases files.len(),
{
    if files.len() == 0 {
        seq![]
    } else {
        (if config.spec_allows(files[0].0) {
            seq![files[0]]
        } else {
            seq![]
        }) + allowed_files(config, files.drop_first())
    }
}

/// The sum of the counts of `(name, count)` pairs.
pub open spec fn count_sum(s: Seq<(Seq<char>, usize)>) -> int
    decreases s.len(),
{
    if s.len() == 0 {
        0
    } else {
        count_sum(s.drop_last()) + s.last().1
    }
}

proof fn lemma_count_sum_update(s: Seq<(Seq<char>, usize)>, i: int, x: (Seq<char>, usize))
    requires
        0 <= i < s.len(),
    ensures
        count_sum(s.update(i, x)) == count_sum(s) - s[i].1 + x.1,
    decreases s.len(),
{
    if i == s.len() - 1 {
        assert(s.update(i, x).drop_last() =~= s.drop_last());
    } else {
        lemma_count_sum_update(s.drop_last(), i, x);
        assert(s.update(i, x).drop_last() =~= s.drop_last().update(i, x));
    }
}

/// Raising one count raises the sum of the counts by one.
proof fn lemma_count_sum_bumped(s: Seq<(Seq<char>, usize)>, k: Seq<char>)
    requires
        forall|j: int| 0 <= j < s.len() ==> #[trigger] s[j].1 < usize::MAX,
    ensures
        count_sum(bumped(s, k)) == count_sum(s) + 1,
{
    lemma_key_index_in_range(s, k);
    let i = key_index(s, k);
    if i < 0 {
        assert(s.push((k, 1usize)).drop_last() =~= s);
    } else {
        lemma_count_sum_update(s, i, (k, (s[i].1 + 1) as usize));
    }
}

/// The language counts of `files` add up to the number of files, each
/// count stays below the number of files plus one, and every name counted
/// is the name of one of the files' languages.
proof fn lemma_language_counts(files: Seq<(Language, FileScan)>)
    requires
        files.len() <= usize::MAX,
    ensures
        count_sum(language_counts(files)) == files.len(),
        forall|j: int|
            0 <= j < language_counts(files).len() ==> #[trigger] language_counts(files)[j].1
                <= files.len(),
        forall|j: int|
            #![trigger language_counts(files)[j]]
            0 <= j < language_counts(files).len() ==> exists|f: int|
                0 <= f < files.len() && (#[trigger] files[f]).0.name() == language_counts(files)[j].0,
    decreases files.len(),
{
    if files.len() > 0 {
        let prev = files.drop_last();
        lemma_language_counts(prev);
        let c = language_counts(prev);
        let k = files.last().0.name();
        lemma_count_sum_bumped(c, k);
        lemma_bumped_bounded(c, k, prev.len() as int);
        lemma_key_index_in_range(c, k);
        let r = language_counts(files);
        assert forall|j: int| #![trigger r[j]] 0 <= j < r.len() implies exists|f: int|
            0 <= f < files.len() && (#[trigger] files[f]).0.name() == r[j].0 by {
            if j < c.len() && r[j].0 == c[j].0 {
                let f = choose|f: int| 0 <= f < prev.len() && (#[trigger] prev[f]).0.name() == c[j].0;
                assert(files[f] == prev[f]);
            } else {
                assert(files[files.len() - 1] == files.last());
                assert(r[j].0 == k);
            }
        }
    }
}

/// The files `allowed_files` keeps all have an allowed language.
proof fn lemma_allowed_files_allowed(config: ScanConfig, files: Seq<(Language, FileScan)>)
    ensures
        allowed_files(config, files).len() <= files.len(),
        forall|f: int|
            0 <= f < allowed_files(config, files).len() ==> config.spec_allows(
                (#[trigger] allowed_files(config, files)[f]).0,
            ),
    decreases files.len(),
{
    if files.len() > 0 {
        lemma_allowed_files_allowed(config, files.drop_first());
        let t = allowed_files(config, files.drop_first());
        let r = allowed_files(config, files);
        assert forall|f: int| 0 <= f < r.len() implies config.spec_allows((#[trigger] r[f]).0) by {
            if config.spec_allows(files[0].0) && f > 0 {
                assert(r[f] == t[f - 1]);
            } else if !config.spec_allows(files[0].0) {
                assert(r[f] == t[f]);
            }
        }
    }
}

/// The report of a whole scan under `config`, from each parsed file with
/// its language in the order the walk met them; files of languages the
/// configuration does not allow are left out. The report holds the files
/// counted per language (the counts adding up to the files scanned, each
/// name that of an allowed language), all their definitions and imports
/// in order, the files themselves, the languages seen, and one scan-origin
/// entity per definition.
pub fn scan_report_of(config: &ScanConfig, files: Vec<(Language, FileScan)>) -> (r: ScanReport)
    ensures
        r.files_scanned == allowed_files(*config, files@).len(),
        counts_view(r.files_by_language@) == language_counts(allowed_files(*config, files@)),
        count_sum(counts_view(r.files_by_language@)) == r.files_scanned,
        forall|j: int|
            #![trigger r.files_by_language@[j]]
            0 <= j < r.files_by_language@.len() ==> exists|l: Language|
                #[trigger] config.spec_allows(l) && l.name() == r.files_by_language@[j].0@,
        defs_view(r.definitions@) == all_defs(allowed_files(*config, files@)),
        imports_view(r.imports@) == all_imports(allowed_files(*config, files@)),
        r.file_scans@ == allowed_files(*config, files@).map_values(|p: (Language, FileScan)| p.1),
        r.languages_detected@ == spec_languages_detected(
            language_counts(allowed_files(*config, files@)),
        ),
        r.entities@.len() == r.definitions@.len(),
        forall|j: int|
            0 <= j < r.definitions@.len() ==> {
                let e = #[trigger] r.entities@[j];
                let d = r.definitions@[j];
                &&& e.qualified_name@ == d.qualified_name@
                &&& e.kind == d.kind
                &&& e.origin == EntityOrigin::Scan
                &&& e.metrics == EntityMetrics::spec_empty()
            },
{
    let ghost orig = files@;
    let ghost cfg = *config;
    let n = files.len();
    let mut rest = files;
    let mut rev: Vec<(Language, FileScan)> = Vec::new();
    assert(orig.subrange(n as int, n as int) =~= Seq::<(Language, FileScan)>::empty());
    while rest.len() > 0
        invariant
            rest@.len() <= n,
            n == orig.len(),
            cfg == *config,
            rest@ == orig.subrange(0, rest@.len() as int),
            rev@.len() == allowed_files(cfg, orig.subrange(rest@.len() as int, n as int)).len(),
            forall|j: int|
                0 <= j < rev@.len() ==> #[trigger] rev@[j] == allowed_files(
                    cfg,
                    orig.subrange(rest@.len() as int, n as int),
                )[rev@.len() - 1 - j],
        decreases rest@.len(),
    {
        let ghost m = rest@.len();
        let ghost old_kept = allowed_files(cfg, orig.subrange(m as int, n as int));
        let x = rest.pop().unwrap();
        let ghost suffix = orig.subrange(m - 1, n as int);
        assert(suffix.drop_first() =~= orig.subrange(m as int, n as int));
        assert(suffix[0] == x);
        if config.allows(x.0) {
            rev.push(x);
            assert(allowed_files(cfg, suffix) =~= seq![x] + old_kept);
        } else {
            assert(allowed_files(cfg, suffix) =~= old_kept);
        }
        assert(rest@ =~= orig.subrange(0, rest@.len() as int));
    }
    assert(orig.subrange(0, n as int) =~= orig);
    let ghost ks = allowed_files(cfg, orig);
    let m = rev.len();
    proof {
        lemma_allowed_files_allowed(cfg, orig);
    }
    let mut report = ScanReport::new();
    while rev.len() > 0
        invariant
            rev@.len() <= m,
            m == ks.len(),
            forall|j: int| 0 <= j < rev@.len() ==> #[trigger] rev@[j] == ks[m - 1 - j],
            report.files_scanned == m - rev@.len(),
            counts_view(report.files_by_language@) == language_counts(ks.subrange(0, m - rev@.len())),
            forall|j: int|
                0 <= j < report.files_by_language@.len() ==> #[trigger] report.files_by_language@[j].1
                    <= m - rev@.len(),
            defs_view(report.definitions@) == all_defs(ks.subrange(0, m - rev@.len())),
            imports_view(report.imports@) == all_imports(ks.subrange(0, m - rev@.len())),
            report.file_scans@ == ks.subrange(0, m - rev@.len()).map_values(
                |p: (Language, FileScan)| p.1,
            ),
            report.entities@.len() == 0,
            report.languages_detected@.len() == 0,
        decreases rev@.len(),
    {
        let ghost k = m - rev@.len();
        let ghost before = counts_view(report.files_by_language@);
        let (lang, scan) = rev.pop().unwrap();
        assert((lang, scan) == ks[k]);
        proof {
            assert forall|j: int| 0 <= j < before.len() implies #[trigger] before[j].1 <= k by {
                assert(before[j].1 == report.files_by_language@[j].1);
            }
            lemma_bumped_bounded(before, lang.name(), k);
            assert(ks.subrange(0, k + 1).drop_last() =~= ks.subrange(0, k));
        }
        record_file(&mut report, lang, scan);
        proof {
            let after = counts_view(report.files_by_language@);
            assert forall|j: int| 0 <= j < report.files_by_language@.len() implies #[trigger] report.files_by_language@[j].1
                <= k + 1 by {
                assert(after[j].1 == report.files_by_language@[j].1);
            }
            assert(report.file_scans@ =~= ks.subrange(0, k + 1).map_values(
                |p: (Language, FileScan)| p.1,
            ));
        }
    }
    assert(ks.subrange(0, m as int) =~= ks);
    proof {
        lemma_language_counts(ks);
        let c = counts_view(report.files_by_language@);
        assert forall|j: int| #![trigger report.files_by_language@[j]] 0 <= j < report.files_by_language@.len() implies exists|l: Language|
            #[trigger] config.spec_allows(l) && l.name() == report.files_by_language@[j].0@ by {
            assert(c[j].0 == report.files_by_language@[j].0@);
            let f = choose|f: int| 0 <= f < ks.len() && (#[trigger] ks[f]).0.name() == c[j].0;
            assert(config.spec_allows(ks[f].0));
        }
    }
    let ghost e0 = report.entities@.len();
    finish_scan(&mut report);
    assert forall|j: int| 0 <= j < report.definitions@.len() implies {
        let e = #[trigger] report.entities@[j];
        let d = report.definitions@[j];
        &&& e.qualified_name@ == d.qualified_name@
        &&& e.kind == d.kind
        &&& e.origin == EntityOrigin::Scan
        &&& e.metrics == EntityMetrics::spec_empty()
    } by {
        assert(report.entities@[e0 + j] == report.entities@[j]);
    }
    report
}

} // verus!
