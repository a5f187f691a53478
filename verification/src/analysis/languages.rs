//! The source languages the scanner understands.

use vstd::prelude::*;
use crate::text::{chars_of, rfind_char, str_is, last_index_of, slice_chars, string_of};

verus! {

/// A source language.
#[derive(Debug, Clone, Copy, PartialEq, Eq, Structural, Hash)]
pub enum Language {
    Python,
    Rust,
    JavaScript,
    C,
    Go,
    Java,
}

impl Language {
    /// The language a file extension belongs to (TypeScript files are read
    /// with the JavaScript grammar).
    pub open spec fn spec_from_extension(ext: Seq<char>) -> Option<Language> {
        if ext == "py"@ {
            Some(Language::Python)
        } else if ext == "rs"@ {
            Some(Language::Rust)
        } else if ext == "js"@ || ext == "jsx"@ || ext == "mjs"@ || ext == "ts"@ || ext == "tsx"@ {
            Some(Language::JavaScript)
        } else if ext == "c"@ || ext == "h"@ {
            Some(Language::C)
        } else if ext == "go"@ {
            Some(Language::Go)
        } else if ext == "java"@ {
            Some(Language::Java)
        } else {
            None
        }
    }

    pub fn from_extension(ext: &str) -> (r: Option<Language>)
        ensures
            r == Language::spec_from_extension(ext@),
    {
        if str_is(ext, "py") {
            Some(Language::Python)
        } else if str_is(ext, "rs") {
            Some(Language::Rust)
        } else if str_is(ext, "js") || str_is(ext, "jsx") || str_is(ext, "mjs") || str_is(ext, "ts")
            || str_is(ext, "tsx") {
            Some(Language::JavaScript)
        } else if str_is(ext, "c") || str_is(ext, "h") {
            Some(Language::C)
        } else if str_is(ext, "go") {
            Some(Language::Go)
        } else if str_is(ext, "java") {
            Some(Language::Java)
        } else {
            None
        }
    }

    /// The lower-case name of the language.
    pub open spec fn name(self) -> Seq<char> {
        match self {
            Language::Python => "python"@,
            Language::Rust => "rust"@,
            Language::JavaScript => "javascript"@,
            Language::C => "c"@,
            Language::Go => "go"@,
            Language::Java => "java"@,
        }
    }

    pub fn as_str(self) -> (r: &'static str)
        ensures
            r@ == self.name(),
    {
        match self {
            Language::Python => "python",
            Language::Rust => "rust",
            Language::JavaScript => "javascript",
            Language::C => "c",
            Language::Go => "go",
            Language::Java => "java",
        }
    }

    /// The language a lower-cased name or short name stands for.
    pub open spec fn spec_from_lower_name(s: Seq<char>) -> Option<Language> {
        if s == "python"@ || s == "py"@ {
            Some(Language::Python)
        } else if s == "rust"@ || s == "rs"@ {
            Some(Language::Rust)
        } else if s == "javascript"@ || s == "js"@ || s == "jsx"@ {
            Some(Language::JavaScript)
        } else if s == "c"@ {
            Some(Language::C)
        } else if s == "go"@ {
            Some(Language::Go)
        } else if s == "java"@ {
            Some(Language::Java)
        } else {
            None
        }
    }

    /// The language named by an already lower-cased name.
    pub fn from_lower_name(s: &str) -> (r: Option<Language>)
        ensures
            r == Language::spec_from_lower_name(s@),
    {
        if str_is(s, "python") || str_is(s, "py") {
            Some(Language::Python)
        } else if str_is(s, "rust") || str_is(s, "rs") {
            Some(Language::Rust)
        } else if str_is(s, "javascript") || str_is(s, "js") || str_is(s, "jsx") {
            Some(Language::JavaScript)
        } else if str_is(s, "c") {
            Some(Language::C)
        } else if str_is(s, "go") {
            Some(Language::Go)
        } else if str_is(s, "java") {
            Some(Language::Java)
        } else {
            None
        }
    }

    /// Parses a language name, case-insensitively.
    pub fn parse(s: &str) -> (r: Result<Language, String>)
        ensures
            match r {
                Ok(l) => Language::spec_from_lower_name(lowercase_of(s@)) == Some(l),
                Err(e) => Language::spec_from_lower_name(lowercase_of(s@)) is None && e@
                    == "unknown language: "@ + lowercase_of(s@),
            },
    {
        let lower = to_lowercase(s);
        match Language::from_lower_name(lower.as_str()) {
            Some(l) => Ok(l),
            None => {
                let mut msg = chars_of("unknown language: ");
                let lv = chars_of(lower.as_str());
                crate::text::push_all(&mut msg, &lv);
                Err(string_of(&msg))
            },
        }
    }
}

impl core::str::FromStr for Language {
    type Err = String;

    fn from_str(s: &str) -> (r: Result<Language, String>)
        ensures
            match r {
                Ok(l) => Language::spec_from_lower_name(lowercase_of(s@)) == Some(l),
                Err(e) => Language::spec_from_lower_name(lowercase_of(s@)) is None && e@
                    == "unknown language: "@ + lowercase_of(s@),
            },
    {
        Language::parse(s)
    }
}

/// The Unicode lower-case mapping of `s` (std `str::to_lowercase`).
pub uninterp spec fn lowercase_of(s: Seq<char>) -> Seq<char>;

/// The ASCII lower-case form of each character of `s`.
pub open spec fn ascii_lower(s: Seq<char>) -> Seq<char> {
    s.map_values(|c: char| if 'A' <= c <= 'Z' { ((c as u32) + 32) as char } else { c })
}

/// Std `str::to_lowercase`.  On ASCII text it maps `A`..=`Z` to `a`..=`z`
/// and keeps every other character, as std documents; beyond ASCII the
/// Unicode mapping is left to the name [`lowercase_of`].
#[verifier::external_body]
pub fn to_lowercase(s: &str) -> (r: String)
    ensures
        r@ == lowercase_of(s@),
        (forall|i: int| 0 <= i < s@.len() ==> #[trigger] s@[i] < '\u{80}') ==> r@ == ascii_lower(
            s@,
        ),
{
    s.to_lowercase()
}

/// The usual source extension of each language.
pub open spec fn main_extension(l: Language) -> Seq<char> {
    match l {
        Language::Python => "py"@,
        Language::Rust => "rs"@,
        Language::JavaScript => "js"@,
        Language::C => "c"@,
        Language::Go => "go"@,
        Language::Java => "java"@,
    }
}

/// Every supported language is reached from its source extensions: `py`
/// is Python, `rs` Rust, `js`, `jsx`, `mjs`, `ts` and `tsx` JavaScript, `c`
/// and `h` C, `go` Go and `java` Java; in particular each language is
/// reached from its usual extension.
pub proof fn lemma_extensions_reach_languages()
    ensures
        Language::spec_from_extension("py"@) == Some(Language::Python),
        Language::spec_from_extension("rs"@) == Some(Language::Rust),
        Language::spec_from_extension("js"@) == Some(Language::JavaScript),
        Language::spec_from_extension("jsx"@) == Some(Language::JavaScript),
        Language::spec_from_extension("mjs"@) == Some(Language::JavaScript),
        Language::spec_from_extension("ts"@) == Some(Language::JavaScript),
        Language::spec_from_extension("tsx"@) == Some(Language::JavaScript),
        Language::spec_from_extension("c"@) == Some(Language::C),
        Language::spec_from_extension("h"@) == Some(Language::C),
        Language::spec_from_extension("go"@) == Some(Language::Go),
        Language::spec_from_extension("java"@) == Some(Language::Java),
        forall|l: Language| Language::spec_from_extension(#[trigger] main_extension(l)) == Some(l),
{
    reveal_strlit("py");
    reveal_strlit("rs");
    reveal_strlit("js");
    reveal_strlit("jsx");
    reveal_strlit("mjs");
    reveal_strlit("ts");
    reveal_strlit("tsx");
    reveal_strlit("c");
    reveal_strlit("h");
    reveal_strlit("go");
    reveal_strlit("java");
    assert("py"@[0] != "rs"@[0]);
    assert("py"@[0] != "js"@[0]);
    assert("py"@[0] != "ts"@[0]);
    assert("py"@[0] != "go"@[0]);
    assert("rs"@[0] != "js"@[0]);
    assert("rs"@[0] != "ts"@[0]);
    assert("rs"@[0] != "go"@[0]);
    assert("js"@[0] != "ts"@[0]);
    assert("js"@[0] != "go"@[0]);
    assert("jsx"@[0] != "mjs"@[0]);
    assert("jsx"@[0] != "tsx"@[0]);
    assert("mjs"@[0] != "tsx"@[0]);
    assert("ts"@[0] != "go"@[0]);
    assert("c"@[0] != "h"@[0]);
    assert("java"@.len() != "py"@.len());
    assert("java"@.len() != "rs"@.len());
    assert("java"@.len() != "js"@.len());
    assert("java"@.len() != "jsx"@.len());
    assert("java"@.len() != "mjs"@.len());
    assert("java"@.len() != "ts"@.len());
    assert("java"@.len() != "tsx"@.len());
    assert("java"@.len() != "c"@.len());
    assert("java"@.len() != "h"@.len());
    assert("java"@.len() != "go"@.len());
    assert(Language::spec_from_extension("java"@) == Some(Language::Java));
    assert forall|l: Language| Language::spec_from_extension(#[trigger] main_extension(l)) == Some(l) by {
        match l {
            Language::Python => {},
            Language::Rust => {},
            Language::JavaScript => {},
            Language::C => {},
            Language::Go => {},
            Language::Java => {},
        }
    }
}

/// Every language is found by its name and by its short name: `python`
/// and `py`, `rust` and `rs`, `javascript`, `js` and `jsx`, `c`, `go` and
/// `java`; and the name a language prints reads back as that language.
pub proof fn lemma_names_reach_languages()
    ensures
        Language::spec_from_lower_name("python"@) == Some(Language::Python),
        Language::spec_from_lower_name("py"@) == Some(Language::Python),
        Language::spec_from_lower_name("rust"@) == Some(Language::Rust),
        Language::spec_from_lower_name("rs"@) == Some(Language::Rust),
        Language::spec_from_lower_name("javascript"@) == Some(Language::JavaScript),
        Language::spec_from_lower_name("js"@) == Some(Language::JavaScript),
        Language::spec_from_lower_name("jsx"@) == Some(Language::JavaScript),
        Language::spec_from_lower_name("c"@) == Some(Language::C),
        Language::spec_from_lower_name("go"@) == Some(Language::Go),
        Language::spec_from_lower_name("java"@) == Some(Language::Java),
        forall|l: Language| Language::spec_from_lower_name(#[trigger] l.name()) == Some(l),
{
    reveal_strlit("python");
    reveal_strlit("py");
    reveal_strlit("rust");
    reveal_strlit("rs");
    reveal_strlit("javascript");
    reveal_strlit("js");
    reveal_strlit("jsx");
    reveal_strlit("c");
    reveal_strlit("go");
    reveal_strlit("java");
    assert("py"@.len() != "python"@.len());
    assert("rust"@.len() != "python"@.len());
    assert("rust"@.len() != "py"@.len());
    assert("rs"@.len() != "python"@.len());
    assert("rs"@[0] != "py"@[0]);
    assert("rs"@.len() != "rust"@.len());
    assert("javascript"@.len() != "python"@.len());
    assert("javascript"@.len() != "py"@.len());
    assert("javascript"@.len() != "rust"@.len());
    assert("javascript"@.len() != "rs"@.len());
    assert("js"@.len() != "python"@.len());
    assert("js"@[0] != "py"@[0]);
    assert("js"@.len() != "rust"@.len());
    assert("js"@[0] != "rs"@[0]);
    assert("js"@.len() != "javascript"@.len());
    assert("jsx"@.len() != "python"@.len());
    assert("jsx"@.len() != "py"@.len());
    assert("jsx"@.len() != "rust"@.len());
    assert("jsx"@.len() != "rs"@.len());
    assert("jsx"@.len() != "javascript"@.len());
    assert("jsx"@.len() != "js"@.len());
    assert("c"@.len() != "python"@.len());
    assert("c"@.len() != "py"@.len());
    assert("c"@.len() != "rust"@.len());
    assert("c"@.len() != "rs"@.len());
    assert("c"@.len() != "javascript"@.len());
    assert("c"@.len() != "js"@.len());
    assert("c"@.len() != "jsx"@.len());
    assert("go"@.len() != "python"@.len());
    assert("go"@[0] != "py"@[0]);
    assert("go"@.len() != "rust"@.len());
    assert("go"@[0] != "rs"@[0]);
    assert("go"@.len() != "javascript"@.len());
    assert("go"@[0] != "js"@[0]);
    assert("go"@.len() != "jsx"@.len());
    assert("go"@.len() != "c"@.len());
    assert("java"@.len() != "python"@.len());
    assert("java"@.len() != "py"@.len());
    assert("java"@[0] != "rust"@[0]);
    assert("java"@.len() != "rs"@.len());
    assert("java"@.len() != "javascript"@.len());
    assert("java"@.len() != "js"@.len());
    assert("java"@.len() != "jsx"@.len());
    assert("java"@.len() != "c"@.len());
    assert("java"@.len() != "go"@.len());
    assert forall|l: Language| Language::spec_from_lower_name(#[trigger] l.name()) == Some(l) by {
        match l {
            Language::Python => {},
            Language::Rust => {},
            Language::JavaScript => {},
            Language::C => {},
            Language::Go => {},
            Language::Java => {},
        }
    }
}

/// `path` without the `/` characters that end it.
pub open spec fn trim_end_slashes(path: Seq<char>) -> Seq<char>
    decreases path.len(),
{
    if path.len() > 0 && path.last() == '/' {
        trim_end_slashes(path.drop_last())
    } else {
        path
    }
}

/// Trimming the ending `/`s keeps a prefix of the path.
pub proof fn lemma_trim_end_slashes_prefix(path: Seq<char>)
    ensures
        trim_end_slashes(path).len() <= path.len(),
        path.subrange(0, trim_end_slashes(path).len() as int) == trim_end_slashes(path),
    decreases path.len(),
{
    if path.len() > 0 && path.last() == '/' {
        lemma_trim_end_slashes_prefix(path.drop_last());
        let t = trim_end_slashes(path.drop_last());
        assert(path.subrange(0, t.len() as int) =~= path.drop_last().subrange(0, t.len() as int));
    } else {
        assert(path.subrange(0, path.len() as int) =~= path);
    }
}

/// The characters of `v` without the `/`s that end them.
pub fn trimmed_end_slashes(v: &Vec<char>) -> (r: Vec<char>)
    ensures
        r@ == trim_end_slashes(v@),
{
    let mut n: usize = v.len();
    assert(v@.subrange(0, n as int) =~= v@);
    while n > 0 && v[n - 1] == '/'
        invariant
            n <= v@.len(),
            trim_end_slashes(v@) == trim_end_slashes(v@.subrange(0, n as int)),
        decreases n,
    {
        assert(v@.subrange(0, n as int).drop_last() =~= v@.subrange(0, n - 1));
        n -= 1;
    }
    slice_chars(v, 0, n)
}

/// The final `/`-separated component of a path, ending `/`s left aside.
pub open spec fn file_name_of(path: Seq<char>) -> Seq<char> {
    let t = trim_end_slashes(path);
    let k = rfind_char(t, '/', t.len() - 1);
    if k < 0 {
        t
    } else {
        t.subrange(k + 1, t.len() as int)
    }
}

/// The extension of a path: the text after the last `.` of its final
/// component, when the text before that `.` is non-empty and the component
/// is not `..`.
pub open spec fn spec_extension(path: Seq<char>) -> Option<Seq<char>> {
    let name = file_name_of(path);
    let d = rfind_char(name, '.', name.len() - 1);
    if name == ".."@ || d <= 0 {
        None
    } else {
        Some(name.subrange(d + 1, name.len() as int))
    }
}

/// An extension and the dot before it fit in the path they come from,
/// ending `/`s left aside.
pub proof fn lemma_extension_fits(path: Seq<char>)
    ensures
        match spec_extension(path) {
            Some(e) => e.len() + 1 <= trim_end_slashes(path).len(),
            None => true,
        },
{
    let t = trim_end_slashes(path);
    crate::text::lemma_rfind_char_bounds(t, '/', t.len() - 1);
    let name = file_name_of(path);
    crate::text::lemma_rfind_char_bounds(name, '.', name.len() - 1);
}

/// Exec form of [`spec_extension`].
pub fn extension_of(path: &str) -> (r: Option<String>)
    ensures
        match r {
            Some(e) => spec_extension(path@) == Some(e@),
            None => spec_extension(path@) is None,
        },
{
    let v = trimmed_end_slashes(&chars_of(path));
    let name = match last_index_of(&v, '/') {
        Some(k) => slice_chars(&v, k + 1, v.len()),
        None => v,
    };
    let dots = vec!['.', '.'];
    proof {
        reveal_strlit("..");
    }
    assert(dots@ =~= ".."@);
    if crate::text::chars_equal(&name, &dots) {
        return None;
    }
    match last_index_of(&name, '.') {
        Some(d) => {
            if d == 0 {
                None
            } else {
                Some(string_of(&slice_chars(&name, d + 1, name.len())))
            }
        },
        None => None,
    }
}

/// The language of a `/`-separated file path, by its extension.
pub fn language_for_path(path: &str) -> (r: Option<Language>)
    ensures
        r == match spec_extension(path@) {
            Some(e) => Language::spec_from_extension(e),
            None => None,
        },
{
    match extension_of(path) {
        Some(ext) => Language::from_extension(ext.as_str()),
        None => None,
    }
}

} // verus!
