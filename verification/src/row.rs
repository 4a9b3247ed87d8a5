//! Rows of a table.

use vstd::prelude::*;

verus! {

/// One body row of a table: the text of its data cells, in document order.
///
/// A row knows nothing of the table's headers; cells and headers are paired
/// by position when the JSON objects are built.
#[derive(PartialEq, Eq, Debug)]
pub struct Row {
    pub values: Vec<String>,
}

impl View for Row {
    type V = Seq<Seq<char>>;

    /// The cells as texts.
    open spec fn view(&self) -> Seq<Seq<char>> {
        self.values.deep_view()
    }
}

impl DeepView for Row {
    type V = Seq<Seq<char>>;

    open spec fn deep_view(&self) -> Seq<Seq<char>> {
        self.values.deep_view()
    }
}

} // verus!
