//! `depend`: the changelog detail of recording a relation between entities.

use vstd::prelude::*;
use vstd::string::*;
use crate::domain::relations::EntityRelationKind;

verus! {

/// The changelog detail of relating `from` to `to`.
pub fn depend_detail(from: &str, to: &str, kind: EntityRelationKind) -> (r: String)
    ensures
        r@ == "from="@ + from@ + " to="@ + to@ + " kind="@ + kind.text(),
{
    let mut s = String::from_str("from=");
    s.append(from);
    s.append(" to=");
    s.append(to);
    s.append(" kind=");
    s.append(kind.as_str());
    s
}

} // verus!
