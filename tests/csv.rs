use heatsolve::csvgrid::{check_shape, first_bad_number, format_csv_cells, parse_csv_cells, CsvError};
use heatsolve::grid::RectGrid;

fn cells(rows: &[&[&str]]) -> Vec<Vec<String>> {
    rows.iter().map(|r| r.iter().map(|s| s.to_string()).collect()).collect()
}

#[test]
fn short_second_row_is_reported() {
    let text = "1,2,3,4,5\n1,2,3,4\n1,2,3,4,5\n";
    match parse_csv_cells(text) {
        Err(e) => assert_eq!(e, CsvError::RaggedRow { row: 2, expected: 5, actual: 4 }),
        Ok(_) => panic!("a ragged row was accepted"),
    }
}

#[test]
fn long_third_row_is_reported() {
    let text = "1,2\n3,4\n5,6,7\n";
    match parse_csv_cells(text) {
        Err(e) => assert_eq!(e, CsvError::RaggedRow { row: 3, expected: 2, actual: 3 }),
        Ok(_) => panic!("a ragged row was accepted"),
    }
}

#[test]
fn empty_text_is_reported() {
    match parse_csv_cells("") {
        Err(e) => assert_eq!(e, CsvError::Empty),
        Ok(_) => panic!("empty text was accepted"),
    }
}

#[test]
fn check_shape_counts_columns_and_rows() {
    assert_eq!(check_shape(&cells(&[&["a", "b", "c"], &["d", "e", "f"]])), Ok((3, 2)));
    assert_eq!(check_shape(&Vec::new()), Err(CsvError::Empty));
    assert_eq!(
        check_shape(&cells(&[&["a"], &["b"], &["c", "d"]])),
        Err(CsvError::RaggedRow { row: 3, expected: 1, actual: 2 })
    );
}

#[test]
fn parse_reads_cells_row_major() {
    let g = parse_csv_cells("1.5,2\n3,4.25\n5,6\n").unwrap();
    assert_eq!((g.width(), g.height()), (2, 3));
    assert_eq!(g.getarray(), &vec!["1.5", "2", "3", "4.25", "5", "6"]);
}

#[test]
fn parse_skips_empty_lines_and_takes_a_last_line_without_newline() {
    let g = parse_csv_cells("1,2\n\n3,4").unwrap();
    assert_eq!((g.width(), g.height()), (2, 2));
    assert_eq!(g.getarray(), &vec!["1", "2", "3", "4"]);
}

#[test]
fn parse_honours_quotes() {
    let g = parse_csv_cells("\"a,b\",c\n").unwrap();
    assert_eq!((g.width(), g.height()), (2, 1));
    assert_eq!(g.getarray(), &vec!["a,b", "c"]);
}

#[test]
fn format_writes_commas_and_newlines() {
    let g = RectGrid::from_cells(2, 2, vec!["1".to_string(), "2".to_string(), "3".to_string(), "4".to_string()])
        .unwrap();
    assert_eq!(format_csv_cells(&g).unwrap(), "1,2\n3,4\n");
}

#[test]
fn format_quotes_a_field_with_a_comma() {
    let g = RectGrid::from_cells(2, 1, vec!["a,b".to_string(), "c".to_string()]).unwrap();
    assert_eq!(format_csv_cells(&g).unwrap(), "\"a,b\",c\n");
}

#[test]
fn field_round_trips_through_csv() {
    let values: Vec<f32> = vec![0.0, 400.0, 1.5e-7, -3.25, 123456.78, 0.1, 2.0, 7.0, 1.0 / 3.0, 99.5, 1e10, -0.0];
    let (w, h) = (4usize, 3usize);
    let text_cells: Vec<String> = values.iter().map(|v| format!("{}", v)).collect();
    let g = RectGrid::from_cells(w, h, text_cells).unwrap();
    let text = format_csv_cells(&g).unwrap();
    let back = parse_csv_cells(&text).unwrap();
    assert_eq!((back.width(), back.height()), (w, h));
    let parsed: Vec<f32> = back.getarray().iter().map(|s| s.parse::<f32>().unwrap()).collect();
    assert_eq!(parsed, values);
}

#[test]
fn parse_drops_a_leading_byte_order_mark() {
    let g = parse_csv_cells("\u{FEFF}1,2\n").unwrap();
    assert_eq!((g.width(), g.height()), (2, 1));
    assert_eq!(g.getarray(), &vec!["1", "2"]);
}

#[test]
fn first_bad_number_counts_from_one() {
    assert_eq!(first_bad_number(3, &vec![true; 6]), None);
    assert_eq!(first_bad_number(3, &vec![true, true, true, true, false, false]), Some(CsvError::BadNumber { row: 2, column: 2 }));
    assert_eq!(first_bad_number(2, &vec![false, false]), Some(CsvError::BadNumber { row: 1, column: 1 }));
    assert_eq!(first_bad_number(4, &vec![]), None);
}
