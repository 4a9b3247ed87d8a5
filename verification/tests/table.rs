use html_table_json::extract::{
    element_text, row_cells, selectors_ready, BODY_ROWS, DATA_CELLS, HEADER_CELLS,
};
use html_table_json::text::{join, trim};
use html_table_json::{extract_table, generate_json, parse_html_table, try_parse_html_table, Row};
use scraper::{Html, Selector};
use serde_json::Value;

fn strings(items: &[&str]) -> Vec<String> {
    items.iter().map(|s| s.to_string()).collect()
}

fn row(items: &[&str]) -> Row {
    Row { values: strings(items) }
}

fn object(pairs: &[(&str, &str)]) -> Value {
    let mut map = serde_json::Map::new();
    for (key, value) in pairs {
        map.insert(key.to_string(), Value::String(value.to_string()));
    }
    Value::Object(map)
}

fn keys_of(value: &Value) -> Vec<String> {
    value.as_object().unwrap().keys().cloned().collect()
}

#[test]
fn test_parse_html_table() {
    let input = r#"
        <table>
            <thead>
                <tr>
                    <th>Name</th>
                    <th>Age</th>
                </tr>
            </thead>
            <tbody>
                <tr>
                    <td>Alice</td>
                    <td>30</td>
                </tr>
                <tr>
                    <td>Bob</td>
                    <td>25</td>
                </tr>
            </tbody>
        </table>
        "#;

    let expected_headers = vec!["Name".to_string(), "Age".to_string()];
    let expected_rows = vec![
        Row {
            values: vec!["Alice".to_string(), "30".to_string()],
        },
        Row {
            values: vec!["Bob".to_string(), "25".to_string()],
        },
    ];

    let (headers, rows) = parse_html_table(&input);

    assert_eq!(headers, expected_headers);
    assert_eq!(rows, expected_rows);
}

#[test]
fn test_generate_json() {
    let headers = vec!["Name".to_string(), "Age".to_string()];
    let rows = vec![
        Row {
            values: vec!["Alice".to_string(), "30".to_string()],
        },
        Row {
            values: vec!["Bob".to_string(), "25".to_string()],
        },
    ];

    let expected_output = Value::Array(vec![
        object(&[("Name", "Alice"), ("Age", "30")]),
        object(&[("Name", "Bob"), ("Age", "25")]),
    ]);

    let json_output = generate_json(headers, rows);

    assert_eq!(json_output, expected_output);
}

#[test]
fn cells_are_trimmed_and_headers_are_not() {
    let input = "<table><thead><tr><th> Age </th></tr></thead>\
                 <tbody><tr><td>  30 </td></tr></tbody></table>";
    let (headers, rows) = parse_html_table(input);
    assert_eq!(headers, strings(&[" Age "]));
    assert_eq!(rows, vec![row(&["30"])]);
}

#[test]
fn a_short_row_leaves_later_headers_out() {
    let document = generate_json(strings(&["Name", "Age"]), vec![row(&["Alice"])]);
    assert_eq!(document, Value::Array(vec![object(&[("Name", "Alice")])]));
    assert!(document[0].get("Age").is_none());
}

#[test]
fn cells_beyond_the_headers_are_dropped() {
    let document = generate_json(strings(&["Name", "Age"]), vec![row(&["Alice", "30", "extra"])]);
    assert_eq!(document, Value::Array(vec![object(&[("Name", "Alice"), ("Age", "30")])]));
    assert_eq!(document[0].as_object().unwrap().len(), 2);
}

#[test]
fn table_to_json_end_to_end() {
    let input = "<table><thead><tr><th>Name</th><th>Age</th></tr></thead>\n\
                 <tbody><tr><td>Alice</td><td>30</td></tr><tr><td>Bob</td><td>25</td></tr></tbody></table>";
    let (headers, rows) = parse_html_table(input);
    let document = generate_json(headers, rows);
    assert_eq!(
        serde_json::to_string(&document).unwrap(),
        r#"[{"Name":"Alice","Age":"30"},{"Name":"Bob","Age":"25"}]"#
    );
}

#[test]
fn a_table_without_sections_gives_nothing() {
    let (headers, rows) = parse_html_table("<table></table>");
    assert_eq!(headers, Vec::<String>::new());
    assert_eq!(rows, Vec::<Row>::new());
    assert_eq!(generate_json(headers, rows), Value::Array(Vec::new()));
}

#[test]
fn a_document_without_table_gives_nothing() {
    let (headers, rows) = parse_html_table("<p>hello</p>");
    assert_eq!(headers, Vec::<String>::new());
    assert_eq!(rows, Vec::<Row>::new());
    let document = generate_json(headers, rows);
    assert_eq!(serde_json::to_string(&document).unwrap(), "[]");
}

#[test]
fn empty_input_gives_nothing() {
    let (headers, rows) = parse_html_table("");
    assert!(headers.is_empty());
    assert!(rows.is_empty());
}

#[test]
fn extraction_repeats_on_the_same_text() {
    let input = "<table><thead><tr><th>A</th><th>B</th></tr></thead>\
                 <tbody><tr><td>1</td><td> 2 </td></tr><tr><td>3</td></tr></tbody></table>";
    let first = parse_html_table(input);
    let second = parse_html_table(input);
    assert_eq!(first, second);
    assert_eq!(first.0, strings(&["A", "B"]));
    assert_eq!(first.1, vec![row(&["1", "2"]), row(&["3"])]);
}

#[test]
fn one_object_for_each_row_with_keys_among_the_headers() {
    let input = "<table><thead><tr><th>A</th><th>B</th></tr></thead>\
                 <tbody><tr><td>1</td><td>2</td><td>3</td></tr><tr><td>4</td></tr><tr></tr></tbody></table>";
    let (headers, rows) = parse_html_table(input);
    let row_count = rows.len();
    let header_list = headers.clone();
    let document = generate_json(headers, rows);
    let objects = document.as_array().unwrap();
    assert_eq!(objects.len(), row_count);
    assert_eq!(row_count, 3);
    for item in objects {
        for key in keys_of(item) {
            assert!(header_list.contains(&key));
        }
    }
    assert_eq!(keys_of(&objects[0]), strings(&["A", "B"]));
    assert_eq!(keys_of(&objects[1]), strings(&["A"]));
    assert_eq!(keys_of(&objects[2]), Vec::<String>::new());
}

#[test]
fn keys_follow_header_order() {
    let document = generate_json(strings(&["z", "a", "m"]), vec![row(&["1", "2", "3"])]);
    assert_eq!(keys_of(&document[0]), strings(&["z", "a", "m"]));
    assert_eq!(serde_json::to_string(&document).unwrap(), r#"[{"z":"1","a":"2","m":"3"}]"#);
}

#[test]
fn a_repeated_header_keeps_its_place_and_takes_the_later_cell() {
    let document = generate_json(strings(&["k", "x", "k"]), vec![row(&["first", "mid", "last"])]);
    assert_eq!(document, Value::Array(vec![object(&[("k", "last"), ("x", "mid")])]));
    assert_eq!(keys_of(&document[0]), strings(&["k", "x"]));

    let short = generate_json(strings(&["k", "x", "k"]), vec![row(&["first", "mid"])]);
    assert_eq!(short, Value::Array(vec![object(&[("k", "first"), ("x", "mid")])]));
}

#[test]
fn values_are_json_strings() {
    let document = generate_json(strings(&["n"]), vec![row(&["30"])]);
    assert_eq!(document[0]["n"], Value::String("30".to_string()));
    assert!(document[0]["n"].is_string());
    assert!(document.is_array());
    assert!(document[0].is_object());
}

#[test]
fn no_rows_give_an_empty_array() {
    assert_eq!(generate_json(strings(&["Name"]), Vec::new()), Value::Array(Vec::new()));
}

#[test]
fn no_headers_give_empty_objects() {
    let document = generate_json(Vec::new(), vec![row(&["a"]), row(&[])]);
    assert_eq!(document, Value::Array(vec![object(&[]), object(&[])]));
}

#[test]
fn nested_text_is_joined_without_separators() {
    let input = "<table><thead><tr><th>First <b>and</b> last</th></tr></thead>\
                 <tbody><tr><td> a<i>b</i><span>c <em>d</em></span> </td></tr></tbody></table>";
    let (headers, rows) = parse_html_table(input);
    assert_eq!(headers, strings(&["First and last"]));
    assert_eq!(rows, vec![row(&["abc d"])]);
}

#[test]
fn header_cells_outside_the_head_section_are_not_headers() {
    let input = "<table><tbody><tr><th>H</th><td>1</td></tr></tbody></table>";
    let (headers, rows) = parse_html_table(input);
    assert!(headers.is_empty());
    assert_eq!(rows, vec![row(&["1"])]);
}

#[test]
fn rows_of_the_head_section_are_not_body_rows() {
    let input = "<table><thead><tr><th>H</th><td>x</td></tr></thead></table>";
    let (headers, rows) = parse_html_table(input);
    assert_eq!(headers, strings(&["H"]));
    assert!(rows.is_empty());
}

#[test]
fn try_parse_finds_the_same_table() {
    let input = "<table><thead><tr><th>Name</th></tr></thead>\
                 <tbody><tr><td> Alice </td></tr></tbody></table>";
    assert!(selectors_ready());
    let outcome = try_parse_html_table(input);
    assert_eq!(outcome, Some((strings(&["Name"]), vec![row(&["Alice"])])));
    assert_eq!(outcome, Some(parse_html_table(input)));
}

#[test]
fn extract_table_uses_the_selectors_it_is_given() {
    let doc = Html::parse_document(
        "<table><thead><tr><th>H</th></tr></thead><tbody><tr><td> 1 </td><td>2</td></tr></tbody></table>",
    );
    let header_cells = Selector::parse(HEADER_CELLS).unwrap();
    let body_rows = Selector::parse(BODY_ROWS).unwrap();
    let cells = Selector::parse(DATA_CELLS).unwrap();
    let table = extract_table(&doc, &header_cells, &body_rows, &cells);
    assert_eq!(table, (strings(&["H"]), vec![row(&["1", "2"])]));

    // With the selectors exchanged, the data cells come out as headers,
    // untrimmed, and the head row as the only row.
    let head_rows = Selector::parse("table thead tr").unwrap();
    let header = Selector::parse("th").unwrap();
    let data = Selector::parse("table tbody tr td").unwrap();
    let swapped = extract_table(&doc, &data, &head_rows, &header);
    assert_eq!(swapped, (strings(&[" 1 ", "2"]), vec![row(&["H"])]));
}

#[test]
fn row_cells_and_element_text_read_one_element() {
    let doc = Html::parse_document(
        "<table><tbody><tr><td> a <b>b</b> </td><td></td><td>\n c\t</td></tr></tbody></table>",
    );
    let body_rows = Selector::parse(BODY_ROWS).unwrap();
    let cells = Selector::parse(DATA_CELLS).unwrap();
    let first_row = doc.select(&body_rows).next().unwrap();
    assert_eq!(row_cells(&first_row, &cells), row(&["a b", "", "c"]));
    let first_cell = first_row.select(&cells).next().unwrap();
    assert_eq!(element_text(&first_cell), " a b ");
    assert_eq!(element_text(&first_row), " a b \n c\t");
}

#[test]
fn trim_strips_both_ends_only() {
    assert_eq!(trim("  30 "), "30");
    assert_eq!(trim("30"), "30");
    assert_eq!(trim(" a  b "), "a  b");
    assert_eq!(trim("\t\n x\r\n"), "x");
    assert_eq!(trim("x "), "x");
    assert_eq!(trim(" x"), "x");
}

#[test]
fn trim_of_blank_text_is_empty() {
    assert_eq!(trim(""), "");
    assert_eq!(trim(" "), "");
    assert_eq!(trim(" \t\n "), "");
}

#[test]
fn trim_agrees_with_std_on_unicode() {
    let samples = [
        "\u{a0}caf\u{e9}\u{2003}",
        "\u{3000}\u{8d8a}\u{3000}",
        "\u{200b}zero width is no white space\u{200b}",
        "  \u{1f600}  ",
        "\u{2028}line\u{2029}",
        "\u{85}next\u{1680}",
    ];
    for sample in samples {
        assert_eq!(trim(sample), sample.trim());
    }
    assert_eq!(trim("\u{a0}caf\u{e9}\u{2003}"), "caf\u{e9}");
}

#[test]
fn join_puts_pieces_together() {
    assert_eq!(join(&vec!["a", " b", "", "c "]), "a bc ");
    assert_eq!(join(&Vec::new()), "");
    assert_eq!(join(&vec!["only"]), "only");
}
