//! Finding the table in an HTML document: the header cells of its head
//! section and the data cells of each row of its body section.

use vstd::prelude::*;
use scraper::{ElementRef, Html, Selector};
use crate::dom::{
    compile_selector, compiled_selector, document_matches, element_matches, element_text_nodes,
    parse_document, parsed_html, select_in_document, select_in_element, text_nodes,
};
use crate::row::Row;
use crate::text::{join, trim, trimmed};

verus! {

/// Selects the header cells: `th` in a `tr` in a `thead` in a `table`.
pub const HEADER_CELLS: &'static str = "table thead tr th";

/// Selects the body rows: `tr` in a `tbody` in a `table`.
pub const BODY_ROWS: &'static str = "table tbody tr";

/// Selects the data cells of a row, among its descendants.
pub const DATA_CELLS: &'static str = "td";

/// The text of an element: its text nodes one after another, with nothing
/// between them.
pub open spec fn text_of(element: ElementRef<'_>) -> Seq<char> {
    element_text_nodes(element).flatten()
}

/// The header texts of a document, one for each element that
/// `header_cells` selects, as they stand: no white space is taken away.
pub open spec fn headers_in(doc: Html, header_cells: Selector) -> Seq<Seq<char>> {
    document_matches(doc, header_cells).map_values(|cell: ElementRef<'static>| text_of(cell))
}

/// The cells of one row: the trimmed text of each element that `cells`
/// selects among the row's descendants.
pub open spec fn cells_in(row: ElementRef<'_>, cells: Selector) -> Seq<Seq<char>> {
    element_matches(row, cells).map_values(|cell: ElementRef<'static>| trimmed(text_of(cell)))
}

/// The rows of a document, one for each element that `body_rows` selects.
pub open spec fn rows_in(doc: Html, body_rows: Selector, cells: Selector) -> Seq<Seq<Seq<char>>> {
    document_matches(doc, body_rows).map_values(|row: ElementRef<'static>| cells_in(row, cells))
}

/// The text of `element`.
pub fn element_text(element: &ElementRef<'_>) -> (text: String)
    ensures
        text@ == text_of(*element),
{
    let pieces = text_nodes(element);
    join(&pieces)
}

/// The cells of `row`: the trimmed text of each element that `cells` selects
/// among its descendants, in the order of selection.
pub fn row_cells(row: &ElementRef<'_>, cells: &Selector) -> (out: Row)
    ensures
        out@ == cells_in(*row, *cells),
{
    let found = select_in_element(row, cells);
    let mut values: Vec<String> = Vec::new();
    for i in 0..found.len()
        invariant
            found@ == element_matches(*row, *cells),
            values.len() == i,
            forall|k: int| 0 <= k < i ==> (#[trigger] values[k])@ == trimmed(text_of(found[k])),
    {
        let text = element_text(&found[i]);
        values.push(trim(text.as_str()));
    }
    let out = Row { values };
    assert(out@ =~= cells_in(*row, *cells));
    out
}

/// Header texts and rows of `doc`, for selectors that are already compiled.
///
/// The headers are the texts of the elements that `header_cells` selects in
/// the document, untrimmed. There is one row for each element that
/// `body_rows` selects, and it holds the trimmed texts of the elements that
/// `cells` selects below that element. Both follow the order of selection,
/// and a selector that matches nothing gives an empty list.
pub fn extract_table(
    doc: &Html,
    header_cells: &Selector,
    body_rows: &Selector,
    cells: &Selector,
) -> (table: (Vec<String>, Vec<Row>))
    ensures
        table.0.deep_view() == headers_in(*doc, *header_cells),
        table.1.deep_view() == rows_in(*doc, *body_rows, *cells),
{
    let header_elements = select_in_document(doc, header_cells);
    let mut headers: Vec<String> = Vec::new();
    for i in 0..header_elements.len()
        invariant
            header_elements@ == document_matches(*doc, *header_cells),
            headers.len() == i,
            forall|k: int| 0 <= k < i ==> (#[trigger] headers[k])@ == text_of(header_elements[k]),
    {
        headers.push(element_text(&header_elements[i]));
    }
    let row_elements = select_in_document(doc, body_rows);
    let mut rows: Vec<Row> = Vec::new();
    for i in 0..row_elements.len()
        invariant
            row_elements@ == document_matches(*doc, *body_rows),
            rows.len() == i,
            forall|k: int|
                0 <= k < i ==> (#[trigger] rows[k])@ == cells_in(row_elements[k], *cells),
    {
        rows.push(row_cells(&row_elements[i], cells));
    }
    assert(headers.deep_view() =~= headers_in(*doc, *header_cells));
    assert(rows.deep_view() =~= rows_in(*doc, *body_rows, *cells));
    (headers, rows)
}

/// The three selectors of the library are patterns that `scraper` accepts.
pub open spec fn selectors_compile() -> bool {
    &&& compiled_selector(HEADER_CELLS@) is Some
    &&& compiled_selector(BODY_ROWS@) is Some
    &&& compiled_selector(DATA_CELLS@) is Some
}

/// The header texts of the table in the HTML text `input`.
pub open spec fn table_headers(input: Seq<char>) -> Seq<Seq<char>> {
    headers_in(parsed_html(input), compiled_selector(HEADER_CELLS@).unwrap())
}

/// The rows of the table in the HTML text `input`.
pub open spec fn table_rows(input: Seq<char>) -> Seq<Seq<Seq<char>>> {
    rows_in(
        parsed_html(input),
        compiled_selector(BODY_ROWS@).unwrap(),
        compiled_selector(DATA_CELLS@).unwrap(),
    )
}

/// Whether `scraper` accepts the three selectors of the library.
pub fn selectors_ready() -> (ready: bool)
    ensures
        ready == selectors_compile(),
{
    compile_selector(HEADER_CELLS).is_some() && compile_selector(BODY_ROWS).is_some()
        && compile_selector(DATA_CELLS).is_some()
}

/// Header texts and rows of the table in the HTML text `input`.
///
/// Any text is accepted. Where it holds no table, or a table without head
/// or body section, the list in question is empty.
///
/// The selectors are fixed patterns, so that they compile is asked of the
/// caller once and for all; `try_parse_html_table` tests it instead.
pub fn parse_html_table(input: &str) -> (table: (Vec<String>, Vec<Row>))
    requires
        selectors_compile(),
    ensures
        table.0.deep_view() == table_headers(input@),
        table.1.deep_view() == table_rows(input@),
{
    let document = parse_document(input);
    let header_cells = match compile_selector(HEADER_CELLS) {
        Some(selector) => selector,
        None => unreached(),
    };
    let body_rows = match compile_selector(BODY_ROWS) {
        Some(selector) => selector,
        None => unreached(),
    };
    let cells = match compile_selector(DATA_CELLS) {
        Some(selector) => selector,
        None => unreached(),
    };
    extract_table(&document, &header_cells, &body_rows, &cells)
}

/// As `parse_html_table`, for callers that cannot know whether the
/// selectors compile: `None` where one of them does not.
pub fn try_parse_html_table(input: &str) -> (outcome: Option<(Vec<String>, Vec<Row>)>)
    ensures
        outcome is Some <==> selectors_compile(),
        outcome matches Some(table) ==> {
            &&& table.0.deep_view() == table_headers(input@)
            &&& table.1.deep_view() == table_rows(input@)
        },
{
    if selectors_ready() {
        Some(parse_html_table(input))
    } else {
        None
    }
}

/// Extraction keeps no state: equal texts hold equal headers and equal
/// rows, so that a second call on the same text returns what the first did.
pub proof fn lemma_extraction_repeats(first: Seq<char>, second: Seq<char>)
    requires
        first == second,
    ensures
        table_headers(first) == table_headers(second),
        table_rows(first) == table_rows(second),
{
}

} // verus!
