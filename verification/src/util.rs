//! Plain data records shared with the storage collaborators.

use vstd::prelude::*;

verus! {

/// A geographic region row: identifier, display name, short code and the
/// place type it is stored under.
#[derive(Clone, Debug, Eq, Hash, PartialEq)]
pub struct Region {
    pub id: i64,
    pub name: String,
    pub code: String,
    pub typ: String,
}

/// How an alias name relates to a plant.
#[derive(Debug)]
pub enum AliasType {
    Common,
    OrthVar,
    Scientific,
}

impl AliasType {
    /// The label this alias kind is stored under.
    pub fn label(&self) -> (r: &'static str)
        ensures
            *self matches AliasType::Common ==> r@ == "common"@,
            *self matches AliasType::OrthVar ==> r@ == "orth. var."@,
            *self matches AliasType::Scientific ==> r@ == "scientific"@,
    {
        match self {
            AliasType::Common => "common",
            AliasType::OrthVar => "orth. var.",
            AliasType::Scientific => "scientific",
        }
    }
}

/// An identifier/name pair for a plant species row.
#[derive(Debug, Eq, Hash, PartialEq)]
pub struct PlantSpecies {
    id: u32,
    name: String,
}

} // verus!
