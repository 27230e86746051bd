use hypertune::binary64::Binary64;
use hypertune::ingest::{locate_score, make_data_row, make_header_row, select_best};
use hypertune::table::read_table;

fn b(x: f64) -> Binary64 {
    Binary64 { bits: x.to_bits() }
}

fn f(x: Binary64) -> f64 {
    f64::from_bits(x.bits)
}

fn strings(v: &[&str]) -> Vec<String> {
    v.iter().map(|s| s.to_string()).collect()
}

fn scores(v: &[f64]) -> Vec<Binary64> {
    v.iter().map(|x| b(*x)).collect()
}

#[test]
fn a_table_is_split_into_header_and_records() {
    let table = read_table(b"loss,score,note\n0.25,0.5,first\n1.5,-2,\"second, quoted\"\n");
    assert_eq!(table.header, Some(strings(&["loss", "score", "note"])));
    assert_eq!(
        table.records,
        vec![
            Some(strings(&["0.25", "0.5", "first"])),
            Some(strings(&["1.5", "-2", "second, quoted"]))
        ]
    );
}

#[test]
fn a_table_may_have_no_rows_or_nothing_at_all() {
    let table = read_table(b"score\n");
    assert_eq!(table.header, Some(strings(&["score"])));
    assert!(table.records.is_empty());
    let table = read_table(b"");
    assert_eq!(table.header, Some(Vec::new()));
    assert!(table.records.is_empty());
}

#[test]
fn a_record_of_another_length_is_not_read() {
    let table = read_table(b"a,score\n1,2\n3\n4,5\n");
    assert_eq!(table.header, Some(strings(&["a", "score"])));
    assert_eq!(
        table.records,
        vec![Some(strings(&["1", "2"])), None, Some(strings(&["4", "5"]))]
    );
}

#[test]
fn text_that_is_not_utf8_is_not_read() {
    let table = read_table(b"score\n\xff\n1\n");
    assert_eq!(table.header, Some(strings(&["score"])));
    assert_eq!(table.records, vec![None, Some(strings(&["1"]))]);
    let table = read_table(b"sc\xffore\n1\n");
    assert_eq!(table.header, None);
    assert_eq!(table.records, vec![Some(strings(&["1"]))]);
}

#[test]
fn a_table_agrees_with_the_reader_it_is_read_with() {
    let bytes: &[u8] = b"x,score\n1,2\n\"a\"\"b\",3\n\n4,5\r\n";
    let table = read_table(bytes);
    let mut reader = csv::Reader::from_reader(bytes);
    let header: Vec<String> = reader.headers().unwrap().iter().map(|s| s.to_string()).collect();
    assert_eq!(table.header, Some(header));
    let rows: Vec<Option<Vec<String>>> = csv::Reader::from_reader(bytes)
        .into_records()
        .map(|r| r.ok().map(|r| r.iter().map(|s| s.to_string()).collect()))
        .collect();
    assert_eq!(table.records, rows);
    assert_eq!(table.records[1], Some(strings(&["a\"b", "3"])));
}

#[test]
fn the_score_column_is_the_first_field_named_score() {
    assert_eq!(locate_score(&strings(&["score"])), Some(0));
    assert_eq!(locate_score(&strings(&["loss", "score", "note"])), Some(1));
    assert_eq!(locate_score(&strings(&["a", "score", "score"])), Some(1));
    assert_eq!(locate_score(&strings(&["Score", "scores", " score", "scor"])), None);
    assert_eq!(locate_score(&Vec::new()), None);
}

#[test]
fn the_least_score_stands_for_the_trial() {
    assert_eq!(f(select_best(&scores(&[0.5]), false)), 0.5);
    assert_eq!(f(select_best(&scores(&[3.0, 1.0, 2.0]), false)), 1.0);
    assert_eq!(f(select_best(&scores(&[1.0, 4.0]), false)), 1.0);
    assert_eq!(f(select_best(&scores(&[-1.0, -4.0, 0.0]), false)), -4.0);
    assert_eq!(f(select_best(&scores(&[f64::INFINITY]), false)), f64::INFINITY);
    assert_eq!(f(select_best(&scores(&[f64::NEG_INFINITY, 0.0]), false)), f64::NEG_INFINITY);
}

#[test]
fn maximizing_selects_the_negative_of_the_greatest_score() {
    assert_eq!(f(select_best(&scores(&[1.0, 4.0]), true)), -4.0);
    assert_eq!(f(select_best(&scores(&[0.5]), true)), -0.5);
    assert_eq!(f(select_best(&scores(&[-3.0, -1.0, -2.0]), true)), 1.0);
    assert_eq!(f(select_best(&scores(&[f64::INFINITY, 1.0]), true)), f64::NEG_INFINITY);
}

#[test]
fn no_row_and_no_number_select_infinity() {
    assert_eq!(f(select_best(&Vec::new(), false)), f64::INFINITY);
    assert_eq!(f(select_best(&Vec::new(), true)), f64::INFINITY);
    assert_eq!(f(select_best(&scores(&[f64::NAN]), false)), f64::INFINITY);
    assert_eq!(f(select_best(&scores(&[f64::NAN, 2.0, f64::NAN]), false)), 2.0);
    assert_eq!(f(select_best(&scores(&[f64::NAN, 2.0, f64::NAN]), true)), -2.0);
}

#[test]
fn selection_agrees_with_folding_the_numbers() {
    let mut seed: u64 = 99;
    for round in 0..200 {
        let mut rows = Vec::new();
        for _ in 0..(round % 7) {
            seed = seed.wrapping_mul(6364136223846793005).wrapping_add(1442695040888963407);
            rows.push(((seed >> 11) as f64 / (1u64 << 53) as f64 - 0.5) * 1e3);
        }
        for maximize in [false, true] {
            let mut best = f64::INFINITY;
            for x in &rows {
                best = best.min(x * if maximize { -1.0 } else { 1.0 });
            }
            assert_eq!(f(select_best(&scores(&rows), maximize)), best);
        }
    }
}

#[test]
fn the_log_header_names_time_iteration_parameters_and_fields() {
    assert_eq!(
        make_header_row(&strings(&["lr", "x"]), &strings(&["loss", "score"])),
        strings(&["ts", "iter", "lr", "x", "loss", "score"])
    );
    assert_eq!(make_header_row(&Vec::new(), &Vec::new()), strings(&["ts", "iter"]));
}

#[test]
fn a_log_row_holds_time_iteration_values_and_fields() {
    assert_eq!(
        make_data_row(
            "2024-01-01 00:00:00 UTC",
            12,
            &strings(&["0.001", "2"]),
            &strings(&["0.25", "0.5"])
        ),
        strings(&["2024-01-01 00:00:00 UTC", "12", "0.001", "2", "0.25", "0.5"])
    );
    assert_eq!(make_data_row("t", 0, &Vec::new(), &Vec::new()), strings(&["t", "0"]));
    assert_eq!(
        make_data_row("t", u32::MAX, &Vec::new(), &strings(&["1"])),
        strings(&["t", "4294967295", "1"])
    );
}
