//! An in-memory catalog of archaeological artifacts.
//!
//! The catalog store owns a collection of artifact records, assigns each a
//! unique, monotonically increasing identifier on insertion, and offers
//! lookup, substring search, removal, note annotation, aggregate statistics,
//! and a structured text export. Every operation carries a contract that
//! pins down its result, and the properties the store promises are proved.

pub mod errors;
pub mod json;
pub mod model;
pub mod stats;
pub mod store;
pub mod text;

use vstd::prelude::*;
use vstd::string::StringExecFns;

verus! {

/// Builds the standard greeting for a visitor's name.
pub fn crea_saluto(nome: &str) -> (saluto: String)
    ensures
        saluto@ == "Ciao, "@ + nome@ + "!"@,
{
    let mut s = String::from_str("Ciao, ");
    s.append(nome);
    s.append("!");
    proof {
        assert(("Ciao, "@ + nome@) + "!"@ =~= "Ciao, "@ + nome@ + "!"@);
    }
    s
}

} // verus!
