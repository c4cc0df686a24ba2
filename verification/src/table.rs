//! Plain-text tables, drawn by the `tabled` crate.
use tabled::builder::Builder;
use tabled::settings::object::Column;
use tabled::settings::{Alignment, Modify, Style};
use vstd::prelude::*;

verus! {

/// The text that `tabled` draws for rows of cells with no borders, the
/// columns of `left` aligned to the left and those of `right` to the right.
pub uninterp spec fn spec_table_text(records: Seq<Seq<Seq<char>>>, left: Seq<usize>, right: Seq<usize>) -> Seq<char>;

/// The cells of rows as plain text.
pub open spec fn spec_records_view(records: Seq<Vec<String>>) -> Seq<Seq<Seq<char>>> {
    records.map_values(|row: Vec<String>| row@.map_values(|c: String| c@))
}

/// `tabled`: `Builder::from(records).build()`, then `Style::empty()`, then
/// `Alignment::left()` on the columns of `left` and `Alignment::right()`
/// on those of `right`, drawn with `to_string`. The text is named, not
/// stated: it is a function of the cells and the alignments alone.
#[verifier::external_body]
pub(crate) fn render_table(records: Vec<Vec<String>>, left: Vec<usize>, right: Vec<usize>) -> (r: String)
    ensures
        r@ == spec_table_text(spec_records_view(records@), left@, right@),
{
    let mut table = Builder::from(records).build();
    table.with(Style::empty());
    for c in left {
        table.with(Modify::new(Column::from(c)).with(Alignment::left()));
    }
    for c in right {
        table.with(Modify::new(Column::from(c)).with(Alignment::right()));
    }
    table.to_string()
}

} // verus!
