//! The schema model: manifests, interfaces and data types.

pub mod interface;
pub mod load;
pub mod manifest;

pub use interface::Interface;
pub use manifest::Manifest;

use crate::table::named_views;
use interface::{Variable, VariableView};
use vstd::prelude::*;

verus! {

/// A document of named data types, sorted by name.
#[derive(Debug)]
pub struct DataTypes {
    pub description: String,
    pub types: Vec<(String, Variable)>,
}

/// The mathematical value of a [`DataTypes`].
pub struct DataTypesView {
    pub description: Seq<char>,
    pub types: Seq<(Seq<char>, VariableView)>,
}

impl View for DataTypes {
    type V = DataTypesView;

    open spec fn view(&self) -> DataTypesView {
        DataTypesView { description: self.description@, types: named_views(self.types@) }
    }
}

} // verus!
