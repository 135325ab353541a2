use oxideplot::data::datetime::{
    date_pattern, detect_date_format, fix_error_timestamps, format_timestamp, parse_to_timestamp,
    reads_by, sample_of, DATE_FORMAT_COUNT, RFC3339_FORMAT,
};
use oxideplot::data::loader::{
    build_table, column_to_f64, column_to_timestamps, decode_text, file_kind, good_rows,
    is_mostly, kind_for_lowercase, load_csv, load_file, load_sheet, FileContent, FileKind,
};
use oxideplot::data::number::{is_no_number_name, parse_bytes, parse_decimal, parse_number};
use oxideplot::data::parser::{
    detect_csv_header, detect_excel_header, is_date_like, most_common_row_len,
};
use oxideplot::data::unit_inference::{infer_unit, unit_for_lowercase};
use oxideplot::fixed::NAN;

fn texts(values: &[&str]) -> Vec<String> {
    values.iter().map(|s| s.to_string()).collect()
}

fn rows(values: &[&[&str]]) -> Vec<Vec<String>> {
    values.iter().map(|r| texts(r)).collect()
}

#[test]
fn numbers_are_read_as_fixed_point() {
    assert_eq!(parse_number("12"), Some(12_000_000));
    assert_eq!(parse_number("-0.5"), Some(-500_000));
    assert_eq!(parse_number("+7"), Some(7_000_000));
    assert_eq!(parse_number(".25"), Some(250_000));
    assert_eq!(parse_number("3."), Some(3_000_000));
    assert_eq!(parse_number("0"), Some(0));
    assert_eq!(parse_number("-0"), Some(0));
    assert_eq!(parse_number("007.100"), Some(7_100_000));
    assert_eq!(parse_number("1.2345678"), Some(1_234_567));
    assert_eq!(parse_number("-1.2345678"), Some(-1_234_567));
    assert_eq!(parse_number("0.0000009"), Some(0));
    assert_eq!(parse_bytes(b"42"), Some(42_000_000));
}

#[test]
fn numbers_with_exponents() {
    assert_eq!(parse_number("1.5e-3"), Some(1_500));
    assert_eq!(parse_number("1e3"), Some(1_000_000_000));
    assert_eq!(parse_number("1E3"), Some(1_000_000_000));
    assert_eq!(parse_number("2.5e+2"), Some(250_000_000));
    assert_eq!(parse_number("123e-8"), Some(1));
    assert_eq!(parse_number("123e-9"), Some(0));
    assert_eq!(parse_number("1e-999999999999"), Some(0));
    assert_eq!(parse_number("0e999999999999"), Some(0));
    assert_eq!(parse_number("1e12"), Some(1_000_000_000_000_000_000));
    assert_eq!(parse_number("-1e12"), Some(-1_000_000_000_000_000_000));
    assert_eq!(parse_number("1000000000000.000001"), Some(1_000_000_000_000_000_001));
    assert_eq!(parse_number("1700000000000"), Some(1_700_000_000_000_000_000));
    assert_eq!(parse_number("4e12"), Some(4_000_000_000_000_000_000));
    assert_eq!(parse_number("-4000000000000"), Some(-4_000_000_000_000_000_000));
}

#[test]
fn numbers_outside_the_finite_range_are_nan() {
    assert_eq!(parse_number("1e13"), Some(NAN));
    assert_eq!(parse_number("4000000000000.000001"), Some(NAN));
    assert_eq!(parse_number("-4000000000000.000001"), Some(NAN));
    assert_eq!(parse_number("5e12"), Some(NAN));
    assert_eq!(parse_number("1e999999999999"), Some(NAN));
    assert_eq!(parse_number("-99999999999999999999999999999999999999999"), Some(NAN));
}

#[test]
fn what_is_no_number() {
    for s in ["", "-", "+", ".", "e5", "1e", "1e+", "abc", "1.2.3", " 1", "1 ", "1,5", "--1", "0x10",
        "1e5x", "na", "nan1", "in", "infi", "infinit", "infinityy", "i", "n", " nan", "+-inf",
        "\u{00e9}", "\u{0131}nf", "\u{212a}"]
    {
        assert_eq!(parse_number(s), None, "{s:?}");
    }
}

#[test]
fn names_of_what_is_no_number_are_read_as_such() {
    for s in ["nan", "NaN", "NAN", "+nan", "-NaN", "inf", "Inf", "INF", "+inf", "-inf", "infinity",
        "Infinity", "INFINITY", "-iNfInItY", "+Infinity"]
    {
        assert_eq!(parse_number(s), Some(NAN), "{s:?}");
        assert!(is_no_number_name(s.as_bytes()), "{s:?}");
        assert_eq!(parse_decimal(s.as_bytes()), None, "{s:?}");
    }
    assert!(!is_no_number_name(b"12"));
    assert!(!is_no_number_name(b""));
    assert!(!is_no_number_name(b"+"));
    assert_eq!(parse_decimal(b"-2.5"), Some(-2_500_000));
    let (values, valid) = column_to_f64(&texts(&["1", " NaN ", "inf", "x"]));
    assert_eq!(values, vec![1_000_000, NAN, NAN, NAN]);
    assert_eq!(valid, 1);
}

#[test]
fn units_are_guessed_from_names() {
    assert_eq!(infer_unit("Inclination"), "Degrees");
    assert_eq!(infer_unit("AZI"), "Degrees");
    assert_eq!(infer_unit("Tool-Face"), "Degrees");
    assert_eq!(infer_unit("angle_1"), "Degrees");
    assert_eq!(infer_unit("Vibe X"), "G");
    assert_eq!(infer_unit("Accel"), "G");
    assert_eq!(infer_unit("shock"), "G");
    assert_eq!(infer_unit("GX"), "G");
    assert_eq!(infer_unit("gy"), "G");
    assert_eq!(infer_unit("Gz"), "G");
    assert_eq!(infer_unit("Gravity"), "G");
    assert_eq!(infer_unit("Temp_Sensor"), "\u{00B0}C");
    assert_eq!(infer_unit("Gamma"), "CPS");
    assert_eq!(infer_unit("Pulse"), "Counts");
    assert_eq!(infer_unit("flow rate"), "Counts");
    assert_eq!(infer_unit("1V8"), "V");
    assert_eq!(infer_unit("5V rail"), "V");
    assert_eq!(infer_unit("3v3"), "V");
    assert_eq!(infer_unit("Battery"), "V");
    assert_eq!(infer_unit("BUS"), "V");
    assert_eq!(infer_unit("Current"), "mA");
    assert_eq!(infer_unit("Mag"), "Gauss");
    assert_eq!(infer_unit("MX"), "Gauss");
    assert_eq!(infer_unit("my"), "Gauss");
    assert_eq!(infer_unit("mz"), "Gauss");
    assert_eq!(infer_unit("RPM"), "RPM");
    assert_eq!(infer_unit("pressure"), "units");
    assert_eq!(infer_unit(""), "units");
    // the first rule that applies wins
    assert_eq!(infer_unit("vibe temp"), "G");
    assert_eq!(infer_unit("temp gamma"), "\u{00B0}C");
    assert_eq!(infer_unit("principal"), "Degrees");
}

#[test]
fn file_kinds() {
    assert_eq!(file_kind("csv"), FileKind::Csv);
    assert_eq!(file_kind("CSV"), FileKind::Csv);
    assert_eq!(file_kind("xls"), FileKind::Excel);
    assert_eq!(file_kind("XLSX"), FileKind::Excel);
    assert_eq!(file_kind("Xlsx"), FileKind::Excel);
    assert_eq!(file_kind("txt"), FileKind::Unsupported);
    assert_eq!(file_kind(""), FileKind::Unsupported);
    assert_eq!(file_kind(".csv"), FileKind::Unsupported);
    assert_eq!(file_kind("csv "), FileKind::Unsupported);
}

#[test]
fn text_is_decoded_as_utf8_or_byte_by_byte() {
    assert_eq!(decode_text("gr\u{00fc}n".as_bytes()), "gr\u{00fc}n");
    assert_eq!(decode_text(&[0x67, 0x72, 0xfc, 0x6e]), "gr\u{00fc}n");
    assert_eq!(decode_text(&[]), "");
    assert_eq!(decode_text(&[0xff, 0x41]), "\u{00ff}A");
}

#[test]
fn csv_is_loaded_column_by_column() {
    let data = load_csv("time, volts ,amps\n0,1.5,x\n1,2.5\n2,3.5,z,extra\n").unwrap();
    assert_eq!(data.columns, vec!["time", "volts", "amps"]);
    assert_eq!(data.row_count, 3);
    assert_eq!(data.column_data.len(), 3);
    assert_eq!(data.column_data[0], vec!["0", "1", "2"]);
    assert_eq!(data.column_data[1], vec!["1.5", "2.5", "3.5"]);
    assert_eq!(data.column_data[2], vec!["x", "", "z"]);
}

#[test]
fn csv_header_below_a_preamble() {
    let text = "Logger 7,,\nstarted,2020,\nt,a,b\n1,2,3\n4,5,6\n";
    let data = load_csv(text).unwrap();
    assert_eq!(data.columns, vec!["t", "a", "b"]);
    assert_eq!(data.row_count, 2);
    assert_eq!(data.column_data[2], vec!["3", "6"]);
}

#[test]
fn csv_without_records_fails() {
    match load_csv("") {
        Ok(_) => panic!("an empty text holds no table"),
        Err(e) => assert_eq!(e, "No data found in file"),
    }
}

#[test]
fn csv_quoted_fields() {
    let data = load_csv("name,value\n\"a,b\",1\n\"say \"\"hi\"\"\",2\n").unwrap();
    assert_eq!(data.columns, vec!["name", "value"]);
    assert_eq!(data.column_data[0], vec!["a,b", "say \"hi\""]);
}

#[test]
fn header_detection_on_rows() {
    let table = rows(&[&["a", "b"], &["1", "2"], &["x", "y"], &["3", "4"]]);
    assert_eq!(detect_csv_header(&table, 50), Ok(2));
    assert_eq!(detect_csv_header(&table, 2), Ok(0));
    let numbers = rows(&[&["1", "2"], &["3", "4"]]);
    assert_eq!(detect_csv_header(&numbers, 50), Ok(0));
    let blank = rows(&[&["a", " "], &["1", "2"]]);
    assert_eq!(detect_csv_header(&blank, 50), Ok(0));
    let dated = rows(&[&["t", "v"], &["01/02/2020", "v"], &["1", "2"]]);
    assert_eq!(detect_csv_header(&dated, 50), Ok(0));
    let ragged = rows(&[&["only"], &["a", "b"], &["1", "2"]]);
    assert_eq!(detect_csv_header(&ragged, 50), Ok(1));
    assert_eq!(most_common_row_len(&ragged, 3), 2);
    assert_eq!(most_common_row_len(&rows(&[&["a"], &["b", "c"]]), 2), 1);
    assert_eq!(
        detect_csv_header(&Vec::new(), 50),
        Err("No data found in file".to_string())
    );
    assert_eq!(detect_csv_header(&table, 0), Err("No data found in file".to_string()));
}

#[test]
fn date_like_texts() {
    assert!(is_date_like("01/02/2020"));
    assert!(is_date_like("2020-01-02 03:04:05"));
    assert!(is_date_like("13/01/2020 10:00:00"));
    assert!(!is_date_like("2020-01-02"));
    assert!(!is_date_like("a/b"));
    assert!(!is_date_like("12:00"));
    assert!(!is_date_like("name"));
    assert!(!is_date_like("AM"));
}

fn cells(values: &[&[Option<&str>]]) -> Vec<Vec<Option<String>>> {
    values.iter().map(|r| r.iter().map(|c| c.map(|s| s.to_string())).collect()).collect()
}

#[test]
fn sheet_header_and_table() {
    let sheet = cells(&[
        &[Some("report"), None, None],
        &[Some("t"), Some("a"), Some("b")],
        &[Some("1"), Some("2"), None],
        &[Some("4"), None, Some("6")],
    ]);
    assert_eq!(detect_excel_header(&sheet, 50), Ok(1));
    let data = load_sheet(&sheet).unwrap();
    assert_eq!(data.columns, vec!["t", "a", "b"]);
    assert_eq!(data.row_count, 2);
    assert_eq!(data.column_data[0], vec!["1", "4"]);
    assert_eq!(data.column_data[1], vec!["2", ""]);
    assert_eq!(data.column_data[2], vec!["", "6"]);
    assert_eq!(detect_excel_header(&Vec::new(), 50), Err("No data in sheet".to_string()));
    match load_sheet(&Vec::new()) {
        Ok(_) => panic!("an empty sheet holds no table"),
        Err(e) => assert_eq!(e, "No data in sheet"),
    }
}

#[test]
fn build_table_needs_the_header_row() {
    let table = rows(&[&[" a ", "b"], &["1", "2"]]);
    let data = build_table(&table, 0).unwrap();
    assert_eq!(data.columns, vec!["a", "b"]);
    assert_eq!(data.row_count, 1);
    let only_header = build_table(&table, 1).unwrap();
    assert_eq!(only_header.columns, vec!["1", "2"]);
    assert_eq!(only_header.row_count, 0);
    assert_eq!(only_header.column_data, vec![Vec::<String>::new(), Vec::new()]);
    match build_table(&table, 2) {
        Ok(_) => panic!("there is no row 2"),
        Err(e) => assert_eq!(e, "No data found after header detection"),
    }
}

#[test]
fn load_file_by_kind() {
    let csv = FileContent::Bytes(b"x,y\n1,2\n".to_vec());
    let data = load_file("csv", &csv).unwrap();
    assert_eq!(data.columns, vec!["x", "y"]);
    let sheet = FileContent::Cells(cells(&[&[Some("x")], &[Some("1")]]));
    assert_eq!(load_file("XLSX", &sheet).unwrap().columns, vec!["x"]);
    match load_file("TXT", &csv) {
        Ok(_) => panic!("text files are not read"),
        Err(e) => assert_eq!(e, "Unsupported file format: .txt"),
    }
    match load_file("", &csv) {
        Ok(_) => panic!("files without extension are not read"),
        Err(e) => assert_eq!(e, "Unsupported file format: ."),
    }
    match load_file("csv", &sheet) {
        Ok(_) => panic!("cells are no separated text"),
        Err(e) => assert_eq!(e, "File content does not match its format"),
    }
    match load_file("xls", &csv) {
        Ok(_) => panic!("bytes are no cells"),
        Err(e) => assert_eq!(e, "File content does not match its format"),
    }
    assert!(load_file("csv", &FileContent::Bytes(Vec::new())).is_err());
}

#[test]
fn columns_as_numbers() {
    let (values, valid) = column_to_f64(&texts(&[" 1.5 ", "x", "", "2e1", "1e40"]));
    assert_eq!(values, vec![1_500_000, NAN, NAN, 20_000_000, NAN]);
    assert_eq!(valid, 2);
    assert_eq!(column_to_f64(&[]), (Vec::new(), 0));
    assert!(is_mostly(8, 10));
    assert!(!is_mostly(7, 10));
    assert!(!is_mostly(0, 0));
    assert!(is_mostly(1, 1));
}

#[test]
fn timestamps_are_read_by_format() {
    assert_eq!(
        parse_to_timestamp("2020-01-01 00:00:00", "%Y-%m-%d %H:%M:%S"),
        Some(1_577_836_800_000_000)
    );
    assert_eq!(parse_to_timestamp("2020-01-01", "%Y-%m-%d"), Some(1_577_836_800_000_000));
    assert_eq!(
        parse_to_timestamp("1970-01-01T00:00:01.500", "%Y-%m-%dT%H:%M:%S%.f"),
        Some(1_500_000)
    );
    assert_eq!(parse_to_timestamp("1970-01-01T00:00:01.500Z", RFC3339_FORMAT), Some(1_500_000));
    assert_eq!(
        parse_to_timestamp("1970-01-01T01:00:00+01:00", "__rfc3339__"),
        Some(0)
    );
    assert_eq!(parse_to_timestamp("1969-12-31 23:59:59", "%Y-%m-%d %H:%M:%S"), Some(-1_000_000));
    assert_eq!(parse_to_timestamp("01/02/2020", "%m/%d/%Y"), Some(1_577_923_200_000_000));
    assert_eq!(parse_to_timestamp("01/02/2020", "%d/%m/%Y"), Some(1_580_515_200_000_000));
    assert_eq!(parse_to_timestamp("yesterday", "%Y-%m-%d"), None);
    assert_eq!(parse_to_timestamp("2020-01-01", RFC3339_FORMAT), None);
    assert_eq!(parse_to_timestamp("2020-13-01", "%Y-%m-%d"), None);
    assert!(reads_by("2020-01-01", "%Y-%m-%d"));
    assert!(!reads_by("2020-01-01", "%m/%d/%Y"));
}

#[test]
fn date_patterns() {
    assert_eq!(DATE_FORMAT_COUNT, 20);
    assert_eq!(date_pattern(0), "%Y-%m-%dT%H:%M:%S%.f");
    assert_eq!(date_pattern(2), "%Y-%m-%d %H:%M:%S");
    assert_eq!(date_pattern(14), "%Y-%m-%d");
    assert_eq!(date_pattern(19), "%d-%m-%Y");
}

#[test]
fn date_format_detection() {
    let plain = texts(&["2020-01-01 00:00:00", "", "2020-01-01 00:00:10", "n/a"]);
    assert_eq!(detect_date_format(&plain), Some("%Y-%m-%d %H:%M:%S"));
    assert_eq!(sample_of(&plain), vec![0, 2, 3]);
    let zoned = texts(&["2026-02-10T22:26:28.987Z", "2026-02-10T22:26:29.987Z"]);
    assert_eq!(detect_date_format(&zoned), Some("__rfc3339__"));
    let days = texts(&["31/12/2020", "01/02/2020"]);
    assert_eq!(detect_date_format(&days), Some("%d/%m/%Y"));
    assert_eq!(detect_date_format(&texts(&["1", "2", "x"])), None);
    assert_eq!(detect_date_format(&texts(&["", ""])), None);
    assert_eq!(detect_date_format(&[]), None);
}

#[test]
fn columns_as_timestamps() {
    let column = texts(&["2020-01-01", " 2020-01-02 ", "2020-01-03", "?"]);
    let (stamps, valid) = column_to_timestamps(&column).unwrap();
    assert_eq!(valid, 3);
    assert_eq!(
        stamps,
        vec![1_577_836_800_000_000, 1_577_923_200_000_000, 1_578_009_600_000_000, NAN]
    );
    let poor = texts(&["2020-01-01", "?", "?", "?"]);
    assert_eq!(column_to_timestamps(&poor), None);
    assert_eq!(column_to_timestamps(&texts(&["1", "2"])), None);
}

#[test]
fn error_timestamps_are_repaired() {
    let s: i64 = 1_000_000;
    let base: i64 = 1_600_000_000 * s;
    let max: i64 = 978_307_199 * s;
    // errors in the middle count on from the last good timestamp
    assert_eq!(
        fix_error_timestamps(&[base, 5 * s, 6 * s, base + 100 * s], 0, max, 10 * s),
        vec![base, base + 10 * s, base + 20 * s, base + 100 * s]
    );
    // errors at the start count back from the first good timestamp
    assert_eq!(
        fix_error_timestamps(&[1 * s, 2 * s, base, 3 * s], 0, max, 10 * s),
        vec![base - 20 * s, base - 10 * s, base, base + 10 * s]
    );
    // without a good timestamp they count back from the threshold
    assert_eq!(
        fix_error_timestamps(&[1 * s, 2 * s], 0, max, 10 * s),
        vec![max + s - 20 * s, max + s - 10 * s]
    );
    assert_eq!(fix_error_timestamps(&[], 0, max, 10 * s), Vec::<i64>::new());
    // the threshold itself is good, one step below is an error
    assert_eq!(
        fix_error_timestamps(&[max + s, max + s - 1], 0, max, 10 * s),
        vec![max + s, max + 11 * s]
    );
    // what is no number is no error, and nothing counts on from it
    assert_eq!(fix_error_timestamps(&[NAN, 5 * s], 0, max, 10 * s), vec![NAN, NAN]);
}

#[test]
fn timestamps_are_written_for_reading() {
    assert_eq!(format_timestamp(1_577_836_800_000_000), "2020-01-01 00:00:00");
    assert_eq!(format_timestamp(1_500_000), "1970-01-01 00:00:01.500");
    assert_eq!(format_timestamp(-1), "1969-12-31 23:59:59.999");
    assert_eq!(format_timestamp(0), "1970-01-01 00:00:00");
    assert_eq!(format_timestamp(NAN), "NaN");
}

#[test]
fn units_of_names_already_in_lower_case() {
    assert_eq!(unit_for_lowercase("temp board"), "\u{00B0}C");
    assert_eq!(unit_for_lowercase("gamma"), "CPS");
    assert_eq!(unit_for_lowercase("rpm"), "RPM");
    assert_eq!(unit_for_lowercase("TEMP"), "units");
    assert_eq!(unit_for_lowercase(""), "units");
}

#[test]
fn file_kinds_of_extensions_already_in_lower_case() {
    assert_eq!(kind_for_lowercase("csv"), FileKind::Csv);
    assert_eq!(kind_for_lowercase("xls"), FileKind::Excel);
    assert_eq!(kind_for_lowercase("xlsx"), FileKind::Excel);
    assert_eq!(kind_for_lowercase("CSV"), FileKind::Unsupported);
    assert_eq!(kind_for_lowercase("json"), FileKind::Unsupported);
}

#[test]
fn cells_are_trimmed_of_unicode_white_space_only() {
    let cells = texts(&[
        "\t 2.5\r\n",
        "\u{00A0}3\u{3000}",
        "\u{2003}4\u{2028}",
        "\u{200B}5",
        "6\u{180E}",
        " \u{0085} ",
        "7 8",
    ]);
    let (values, valid) = column_to_f64(&cells);
    assert_eq!(values, vec![2_500_000, 3_000_000, 4_000_000, NAN, NAN, NAN, NAN]);
    assert_eq!(valid, 3);
}

#[test]
fn records_that_were_not_read_are_left_out() {
    let records = vec![
        Some(texts(&["a", "b"])),
        None,
        Some(texts(&["1"])),
        None,
        Some(Vec::new()),
    ];
    assert_eq!(good_rows(&records), vec![texts(&["a", "b"]), texts(&["1"]), Vec::new()]);
    assert_eq!(good_rows(&Vec::new()), Vec::<Vec<String>>::new());
    assert_eq!(good_rows(&vec![None, None]), Vec::<Vec<String>>::new());
}

#[test]
fn times_in_milliseconds_are_finite_values() {
    let cells = texts(&["1700000000000", "1700000000001.5", "4000000000000", "4000000000001"]);
    let (values, valid) = column_to_f64(&cells);
    assert_eq!(
        values,
        vec![
            1_700_000_000_000_000_000,
            1_700_000_000_001_500_000,
            4_000_000_000_000_000_000,
            NAN
        ]
    );
    assert_eq!(valid, 3);
}
