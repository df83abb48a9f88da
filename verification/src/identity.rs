use vstd::prelude::*;

use crate::replay::Participant;
use crate::text::canon_eq;
use crate::text::canon_seq;

verus! {

/// A caller-supplied identity to filter wins by: either a connect code or a
/// display nickname.
pub enum Id {
    Code(String),
    Nickname(String),
}

/// Whether a participant's recorded identity matches the query: the stored
/// field selected by the query's kind (code for `Code`, name for
/// `Nickname`) and the query string must agree once both are put in
/// canonical form; a participant without a recorded identity matches
/// nothing.
pub open spec fn spec_identity_matches(p: Participant, q: Id) -> bool {
    match p.netplay {
        None => false,
        Some(net) => match q {
            Id::Code(code) => canon_seq(net.code@) == canon_seq(code@),
            Id::Nickname(name) => canon_seq(net.name@) == canon_seq(name@),
        },
    }
}

pub fn identity_matches(p: &Participant, q: &Id) -> (r: bool)
    ensures
        r == spec_identity_matches(*p, *q),
{
    match &p.netplay {
        None => false,
        Some(net) => match q {
            Id::Code(code) => canon_eq(net.code.as_str(), code.as_str()),
            Id::Nickname(name) => canon_eq(net.name.as_str(), name.as_str()),
        },
    }
}

} // verus!
