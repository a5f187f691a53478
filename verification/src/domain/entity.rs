//! Entities: code constructs identified by qualified name.

use vstd::prelude::*;
use crate::domain::ids::{is_uuid_char, new_uuid_string};
use crate::domain::metrics::EntityMetrics;
use crate::domain::time::Timestamp;
use crate::naming::{last_segment, last_sep, spec_last_segment};
use crate::text::{chars_of, str_is};

verus! {

/// How an entity came into the model.
#[derive(Debug, Clone, Copy, PartialEq, Eq, Structural)]
pub enum EntityOrigin {
    Manual,
    Scan,
    /// Created by an experiment commit for a not-yet-scanned entity.
    Experiment,
}

impl Default for EntityOrigin {
    fn default() -> (r: EntityOrigin)
        ensures
            r == EntityOrigin::Manual,
    {
        EntityOrigin::Manual
    }
}

impl EntityOrigin {
    pub open spec fn text(self) -> Seq<char> {
        match self {
            EntityOrigin::Manual => "manual"@,
            EntityOrigin::Scan => "scan"@,
            EntityOrigin::Experiment => "experiment"@,
        }
    }

    pub open spec fn from_text(s: Seq<char>) -> Option<EntityOrigin> {
        if s == "manual"@ {
            Some(EntityOrigin::Manual)
        } else if s == "scan"@ {
            Some(EntityOrigin::Scan)
        } else if s == "experiment"@ {
            Some(EntityOrigin::Experiment)
        } else {
            None
        }
    }

    pub fn as_str(&self) -> (r: &'static str)
        ensures
            r@ == self.text(),
    {
        match self {
            EntityOrigin::Manual => "manual",
            EntityOrigin::Scan => "scan",
            EntityOrigin::Experiment => "experiment",
        }
    }

    pub fn parse(s: &str) -> (r: Result<EntityOrigin, &'static str>)
        ensures
            match r {
                Ok(k) => EntityOrigin::from_text(s@) == Some(k),
                Err(e) => EntityOrigin::from_text(s@) is None && e@ == "invalid entity origin"@,
            },
    {
        if str_is(s, "manual") {
            Ok(EntityOrigin::Manual)
        } else if str_is(s, "scan") {
            Ok(EntityOrigin::Scan)
        } else if str_is(s, "experiment") {
            Ok(EntityOrigin::Experiment)
        } else {
            Err("invalid entity origin")
        }
    }
}

impl core::str::FromStr for EntityOrigin {
    type Err = &'static str;

    fn from_str(s: &str) -> (r: Result<EntityOrigin, &'static str>)
        ensures
            match r {
                Ok(k) => EntityOrigin::from_text(s@) == Some(k),
                Err(e) => EntityOrigin::from_text(s@) is None && e@ == "invalid entity origin"@,
            },
    {
        EntityOrigin::parse(s)
    }
}

/// Parsing the text of an origin gives that origin back.
pub proof fn lemma_entity_origin_roundtrip(k: EntityOrigin)
    ensures
        EntityOrigin::from_text(k.text()) == Some(k),
{
    reveal_strlit("manual");
    reveal_strlit("scan");
    reveal_strlit("experiment");
    assert("manual"@[0] != "scan"@[0]);
    assert("manual"@[0] != "experiment"@[0]);
    assert("scan"@[0] != "experiment"@[0]);
}

/// The kind of code construct an entity stands for.
#[derive(Debug, Clone, Copy, PartialEq, Eq, Structural)]
pub enum EntityKind {
    Module,
    Function,
    Type,
    Field,
    Method,
    Unknown,
}

impl EntityKind {
    pub open spec fn text(self) -> Seq<char> {
        match self {
            EntityKind::Module => "module"@,
            EntityKind::Function => "function"@,
            EntityKind::Type => "type"@,
            EntityKind::Field => "field"@,
            EntityKind::Method => "method"@,
            EntityKind::Unknown => "unknown"@,
        }
    }

    pub open spec fn from_text(s: Seq<char>) -> Option<EntityKind> {
        if s == "module"@ {
            Some(EntityKind::Module)
        } else if s == "function"@ {
            Some(EntityKind::Function)
        } else if s == "type"@ {
            Some(EntityKind::Type)
        } else if s == "field"@ {
            Some(EntityKind::Field)
        } else if s == "method"@ {
            Some(EntityKind::Method)
        } else if s == "unknown"@ {
            Some(EntityKind::Unknown)
        } else {
            None
        }
    }

    pub fn as_str(&self) -> (r: &'static str)
        ensures
            r@ == self.text(),
    {
        match self {
            EntityKind::Module => "module",
            EntityKind::Function => "function",
            EntityKind::Type => "type",
            EntityKind::Field => "field",
            EntityKind::Method => "method",
            EntityKind::Unknown => "unknown",
        }
    }

    pub fn parse(s: &str) -> (r: Result<EntityKind, &'static str>)
        ensures
            match r {
                Ok(k) => EntityKind::from_text(s@) == Some(k),
                Err(e) => EntityKind::from_text(s@) is None && e@ == "invalid entity kind"@,
            },
    {
        if str_is(s, "module") {
            Ok(EntityKind::Module)
        } else if str_is(s, "function") {
            Ok(EntityKind::Function)
        } else if str_is(s, "type") {
            Ok(EntityKind::Type)
        } else if str_is(s, "field") {
            Ok(EntityKind::Field)
        } else if str_is(s, "method") {
            Ok(EntityKind::Method)
        } else if str_is(s, "unknown") {
            Ok(EntityKind::Unknown)
        } else {
            Err("invalid entity kind")
        }
    }

    /// The kind a bare qualified name suggests: a name whose last segment
    /// starts with an upper-case letter is a type; otherwise a name holding
    /// `::` is a function and a single segment is a module.
    pub open spec fn spec_infer(q: Seq<char>) -> EntityKind {
        let symbol = spec_last_segment(q);
        if symbol.len() > 0 && is_uppercase(symbol[0]) {
            EntityKind::Type
        } else if last_sep(q) >= 0 {
            EntityKind::Function
        } else {
            EntityKind::Module
        }
    }

    pub fn infer(qualified_name: &str) -> (r: EntityKind)
        ensures
            r == EntityKind::spec_infer(qualified_name@),
    {
        let symbol = chars_of(last_segment(qualified_name));
        if symbol.len() > 0 && char_is_uppercase(symbol[0]) {
            EntityKind::Type
        } else {
            let q = chars_of(qualified_name);
            if contains_sep(&q) {
                EntityKind::Function
            } else {
                EntityKind::Module
            }
        }
    }
}

impl core::str::FromStr for EntityKind {
    type Err = &'static str;

    fn from_str(s: &str) -> (r: Result<EntityKind, &'static str>)
        ensures
            match r {
                Ok(k) => EntityKind::from_text(s@) == Some(k),
                Err(e) => EntityKind::from_text(s@) is None && e@ == "invalid entity kind"@,
            },
    {
        EntityKind::parse(s)
    }
}

/// Parsing the text of a kind gives that kind back.
pub proof fn lemma_entity_kind_roundtrip(k: EntityKind)
    ensures
        EntityKind::from_text(k.text()) == Some(k),
{
    reveal_strlit("module");
    reveal_strlit("function");
    reveal_strlit("type");
    reveal_strlit("field");
    reveal_strlit("method");
    reveal_strlit("unknown");
    assert("module"@[0] != "function"@[0]);
    assert("module"@[0] != "type"@[0]);
    assert("module"@[0] != "field"@[0]);
    assert("module"@[1] != "method"@[1]);
    assert("module"@[0] != "unknown"@[0]);
    assert("function"@[0] != "type"@[0]);
    assert("function"@[1] != "field"@[1]);
    assert("function"@[0] != "method"@[0]);
    assert("function"@[0] != "unknown"@[0]);
    assert("type"@[0] != "field"@[0]);
    assert("type"@[0] != "method"@[0]);
    assert("type"@[0] != "unknown"@[0]);
    assert("field"@[0] != "method"@[0]);
    assert("field"@[0] != "unknown"@[0]);
    assert("method"@[0] != "unknown"@[0]);
}

/// Whether `c` has the Unicode `Uppercase` property (std `char::is_uppercase`).
pub uninterp spec fn is_uppercase(c: char) -> bool;

/// Std `char::is_uppercase`.  Its documentation fixes the answer on ASCII:
/// exactly `A`..=`Z` are upper-case there; beyond ASCII the answer is the
/// Unicode property, left to the name [`is_uppercase`].
#[verifier::external_body]
pub fn char_is_uppercase(c: char) -> (r: bool)
    ensures
        r == is_uppercase(c),
        ('A' <= c <= 'Z') ==> r,
        (c < '\u{80}' && !('A' <= c <= 'Z')) ==> !r,
{
    c.is_uppercase()
}

/// Whether `q` holds a `::`.
fn contains_sep(q: &[char]) -> (r: bool)
    ensures
        r == (last_sep(q@) >= 0),
{
    let mut k: usize = q.len();
    while k >= 2
        invariant
            k <= q@.len(),
            last_sep(q@) == crate::naming::rfind_sep(q@, k - 2),
        decreases k,
    {
        if q[k - 2] == ':' && q[k - 1] == ':' {
            return true;
        }
        k -= 1;
    }
    false
}

/// A code construct in the model.
#[derive(Debug, PartialEq, Eq)]
pub struct Entity {
    pub id: String,
    pub qualified_name: String,
    pub kind: EntityKind,
    pub origin: EntityOrigin,
    pub metrics: EntityMetrics,
    pub created_at: Timestamp,
}

impl Clone for Entity {
    fn clone(&self) -> (r: Self)
        ensures
            r == *self,
    {
        Entity {
            id: self.id.clone(),
            qualified_name: self.qualified_name.clone(),
            kind: self.kind,
            origin: self.origin,
            metrics: self.metrics,
            created_at: self.created_at,
        }
    }
}

impl Entity {
    /// An entity found by a scan: a fresh random id, origin `Scan`, the
    /// current time.
    pub fn from_scan(name: String, kind: EntityKind, metrics: EntityMetrics) -> (r: Self)
        ensures
            r.qualified_name == name,
            r.kind == kind,
            r.origin == EntityOrigin::Scan,
            r.metrics == metrics,
            r.id@.len() == 36,
            forall|i: int| 0 <= i < 36 ==> is_uuid_char(#[trigger] r.id@[i]),
    {
        Entity {
            id: new_uuid_string(),
            qualified_name: name,
            kind,
            origin: EntityOrigin::Scan,
            metrics,
            created_at: Timestamp::now(),
        }
    }
}

} // verus!
