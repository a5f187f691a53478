//! Per-entity metrics gathered during scanning.

use vstd::prelude::*;

verus! {

/// Visibility of a symbol.
#[derive(Debug, Clone, Copy, PartialEq, Eq, Structural)]
pub enum Visibility {
    Private,
    Public,
    /// Rust-specific: `pub(crate)`, `pub(super)`, etc.
    Restricted,
}

impl Default for Visibility {
    fn default() -> (r: Visibility)
        ensures
            r == Visibility::Private,
    {
        Visibility::Private
    }
}

impl Visibility {
    /// Whether this visibility is public.
    pub fn is_public(self) -> (r: bool)
        ensures
            r == (self == Visibility::Public),
    {
        matches!(self, Visibility::Public)
    }

    /// The display text of the visibility.
    pub open spec fn text(self) -> Seq<char> {
        match self {
            Visibility::Public => "public"@,
            Visibility::Private => "private"@,
            Visibility::Restricted => "restricted"@,
        }
    }

    pub fn as_str(&self) -> (r: &'static str)
        ensures
            r@ == self.text(),
    {
        match self {
            Visibility::Public => "public",
            Visibility::Private => "private",
            Visibility::Restricted => "restricted",
        }
    }
}

/// Metadata about an entity extracted during scanning.
#[derive(Debug, Clone, Copy, PartialEq, Eq, Structural)]
pub struct EntityMetrics {
    /// Lines of code.
    pub line_count: Option<u32>,
    /// Number of relations that point at this entity.
    pub fan_in: Option<u32>,
    /// Number of relations that start at this entity.
    pub fan_out: Option<u32>,
    /// Visibility of the symbol.
    pub visibility: Visibility,
}

impl EntityMetrics {
    /// The zero-metrics value used for manually created entities.
    pub open spec fn spec_empty() -> EntityMetrics {
        EntityMetrics {
            line_count: None,
            fan_in: None,
            fan_out: None,
            visibility: Visibility::Private,
        }
    }

    /// A zero-metrics instance used for manually created entities.
    pub fn empty() -> (r: Self)
        ensures
            r == EntityMetrics::spec_empty(),
    {
        EntityMetrics { line_count: None, fan_in: None, fan_out: None, visibility: Visibility::Private }
    }
}

impl Default for EntityMetrics {
    fn default() -> (r: EntityMetrics)
        ensures
            r == EntityMetrics::spec_empty(),
    {
        EntityMetrics::empty()
    }
}

} // verus!
