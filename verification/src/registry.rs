//! The scheme registry: which schemes are under test, where their vector
//! files lie and how a record of theirs is checked.

use vstd::prelude::*;
use crate::vector::Family;

verus! {

/// How the records of a scheme are checked, one way per family.
#[derive(Clone, Copy, Debug, PartialEq, Eq, Structural)]
pub enum Routine {
    /// Open the signed message under the public key and compare what is
    /// recovered with the message.
    SignOpen,
}

/// One scheme under test.
#[derive(Clone, Copy, Debug, PartialEq, Eq)]
pub struct Registration {
    pub scheme_type: Family,
    pub scheme_id: u32,
    /// Path of the vector file, relative to the root directory.
    pub kat_file: &'static str,
    pub routine: Routine,
}

/// The table of schemes under test.
pub open spec fn registered() -> Seq<Registration> {
    seq![
        Registration {
            scheme_type: Family::Signature,
            scheme_id: 0,
            kat_file: "round3/dilithium/dilithium2/PQCsignKAT_2544.rsp",
            routine: Routine::SignOpen,
        },
    ]
}

/// Whether no two entries of a table share family and identifier.
pub open spec fn distinct_schemes(table: Seq<Registration>) -> bool {
    forall|i: int, j: int|
        0 <= i < j < table.len() ==> !(table[i].scheme_type == table[j].scheme_type
            && table[i].scheme_id == table[j].scheme_id)
}

/// The table holds no scheme twice.
pub proof fn lemma_registered_distinct()
    ensures
        distinct_schemes(registered()),
{
}

/// Builds the table. Every call gives the same entries in the same order.
pub fn registry() -> (r: Vec<Registration>)
    ensures
        r@ == registered(),
        distinct_schemes(r@),
{
    let mut table: Vec<Registration> = Vec::new();
    table.push(
        Registration {
            scheme_type: Family::Signature,
            scheme_id: 0,
            kat_file: "round3/dilithium/dilithium2/PQCsignKAT_2544.rsp",
            routine: Routine::SignOpen,
        },
    );
    assert(table@ =~= registered());
    table
}

} // verus!
