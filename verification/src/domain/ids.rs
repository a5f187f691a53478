//! Identifier newtypes: entity and assertion UUIDs, and qualified names.

use vstd::prelude::*;
use vstd::string::*;
use crate::naming::{last_segment, parent_qname, segments_of, spec_last_segment, spec_parent_qname, split_segments};
use crate::text::{chars_of, string_of};

verus! {

/// Whether `c` is a lower-case hexadecimal digit or a hyphen.
pub open spec fn is_uuid_char(c: char) -> bool {
    ('0' <= c <= '9') || ('a' <= c <= 'f') || c == '-'
}

/// A fresh random UUID (uuid `Uuid::new_v4`) in its hyphenated text form.
///
/// The uuid crate renders a UUID as 32 lower-case hex digits in five
/// hyphen-separated groups of 8, 4, 4, 4 and 12 digits, 36 characters;
/// which UUID comes out is random and not stated.
#[verifier::external_body]
pub fn new_uuid_string() -> (s: String)
    ensures
        s@.len() == 36,
        forall|i: int| 0 <= i < 36 ==> is_uuid_char(#[trigger] s@[i]),
        forall|i: int|
            0 <= i < 36 ==> (#[trigger] s@[i] == '-' <==> (i == 8 || i == 13 || i == 18 || i == 23)),
{
    uuid::Uuid::new_v4().to_string()
}

/// A UUID identifying an entity in the cognitive model.
#[derive(Debug, Clone, PartialEq, Eq, Hash)]
pub struct EntityId(pub String);

impl EntityId {
    /// A fresh random id.
    pub fn new() -> (r: Self)
        ensures
            r.0@.len() == 36,
            forall|i: int| 0 <= i < 36 ==> is_uuid_char(#[trigger] r.0@[i]),
    {
        EntityId(new_uuid_string())
    }

    /// First 8 characters, for display.
    pub fn short(&self) -> (r: &str)
        requires
            self.0@.len() >= 8,
        ensures
            r@ == self.0@.subrange(0, 8),
    {
        self.0.as_str().substring_char(0, 8)
    }
}

/// A UUID identifying an assertion in the cognitive model.
#[derive(Debug, Clone, PartialEq, Eq, Hash)]
pub struct AssertionId(pub String);

impl AssertionId {
    /// A fresh random id.
    pub fn new() -> (r: Self)
        ensures
            r.0@.len() == 36,
            forall|i: int| 0 <= i < 36 ==> is_uuid_char(#[trigger] r.0@[i]),
    {
        AssertionId(new_uuid_string())
    }

    /// First 8 characters, for display.
    pub fn short(&self) -> (r: &str)
        requires
            self.0@.len() >= 8,
        ensures
            r@ == self.0@.subrange(0, 8),
    {
        self.0.as_str().substring_char(0, 8)
    }
}

/// A `::`-separated path identifying an entity, e.g.
/// `cog::repo::sqlite::SqliteRepository`.
#[derive(Debug, Clone, PartialEq, Eq, Hash, PartialOrd, Ord)]
pub struct QualifiedName(pub String);

impl QualifiedName {
    pub fn new(name: String) -> (r: Self)
        ensures
            r.0 == name,
    {
        QualifiedName(name)
    }

    /// Last segment, e.g. `SqliteRepository` from `cog::repo::sqlite::SqliteRepository`.
    pub fn last_segment(&self) -> (r: &str)
        ensures
            r@ == spec_last_segment(self.0@),
    {
        last_segment(self.0.as_str())
    }

    /// Parent path, e.g. `cog::repo::sqlite` from `cog::repo::sqlite::SqliteRepository`.
    pub fn parent(&self) -> (r: Option<&str>)
        ensures
            match r {
                Some(p) => spec_parent_qname(self.0@) == Some(p@),
                None => spec_parent_qname(self.0@) is None,
            },
    {
        parent_qname(self.0.as_str())
    }

    /// The path segments, in order.
    pub fn segments(&self) -> (r: Vec<String>)
        ensures
            r@.map_values(|x: String| x@) == segments_of(self.0@),
    {
        let v = chars_of(self.0.as_str());
        let segs = split_segments(&v);
        let mut out: Vec<String> = Vec::new();
        let mut i: usize = 0;
        while i < segs.len()
            invariant
                i <= segs@.len(),
                segs@.map_values(|x: Vec<char>| x@) == segments_of(self.0@),
                out@.map_values(|x: String| x@) == segs@.map_values(|x: Vec<char>| x@).subrange(
                    0,
                    i as int,
                ),
            decreases segs@.len() - i,
        {
            let ghost old_out = out@;
            out.push(string_of(&segs[i]));
            assert(out@.map_values(|x: String| x@) =~= old_out.map_values(|x: String| x@).push(
                segs@[i as int]@,
            ));
            assert(segs@.map_values(|x: Vec<char>| x@)[i as int] == segs@[i as int]@);
            i += 1;
            assert(out@.map_values(|x: String| x@) =~= segs@.map_values(|x: Vec<char>| x@).subrange(
                0,
                i as int,
            ));
        }
        out
    }
}

} // verus!
