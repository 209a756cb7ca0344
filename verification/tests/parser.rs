use renamer::parser::{
    build_mapping, check_input, confirmation_question, display_error, display_wide,
    get_user_input_err, incorrect_input_line, insert_record, is_wide, parse_csv, parse_record,
    split_commas, split_csv_lines, trim, Confirmation, CsvError, InputAction,
};
use renamer::paths::NameError;

fn lines_of(name: &str) -> Vec<String> {
    let text: &[&str] = match name {
        "test_files/input.csv" => &[
            "old_names,new_names",
            "test_files/valid.fastq.gz,test_files/valid_new.fastq.gz",
        ],
        "test_files/multicols_input.csv" => &[
            "old_names,new_names,notes",
            "test_files/valid2.fastq.gzip,test_files/valid_new2.fastq.gzip,checked",
        ],
        "test_files/invalid_input.csv" => &[
            "old_names,new_names",
            "test_files/valid.fastq.gz,test_files/valid_new.fastq.gz",
            "test_files/valid2.fastq.gz",
        ],
        _ => &[],
    };
    text.iter().map(|l| String::from(*l)).collect()
}

fn strings(list: &[&str]) -> Vec<String> {
    list.iter().map(|t| String::from(*t)).collect()
}

#[test]
fn split_csv_lines_test() {
    let lines = String::from("./test/old_names.fastq.gz,./test/new_names.fastq.gz");
    let lcounts = 1;
    let res = split_csv_lines(&lines, lcounts).unwrap();

    assert_eq!(2, res.len());
    assert_eq!(strings(&["./test/old_names.fastq.gz", "./test/new_names.fastq.gz"]), res);
}

#[test]
fn multicols_csv_split_test() {
    let lines = String::from(
        "./test/old_names.fastq.gz,\
            ./test/new_names.fastq.gz,\
            ./test/new_names.fastq.gz",
    );
    let lcounts = 1;
    let res = split_csv_lines(&lines, lcounts).unwrap();

    assert_eq!(3, res.len());
}

#[test]
fn split_csv_empty_col_is_refused() {
    let empty_cols = String::from("./test/old_names.fastq.gz,");
    assert_eq!(Err(CsvError::MissingColumn { line: 1 }), split_csv_lines(&empty_cols, 1));
    assert_eq!(Err(CsvError::MissingColumn { line: 9 }), split_csv_lines("a.gz,   \t", 9));
}

#[test]
fn split_csv_one_col_is_refused() {
    let one_col = String::from("./test/old_names.fastq.gz");
    assert_eq!(Err(CsvError::MissingColumn { line: 1 }), split_csv_lines(&one_col, 1));
    assert_eq!(Err(CsvError::MissingColumn { line: 4 }), split_csv_lines("", 4));
}

#[test]
fn split_csv_trims_columns() {
    assert_eq!(Ok(strings(&["a.gz", "b.gz"])), split_csv_lines("  a.gz ,\tb.gz  ", 2));
    assert_eq!(Ok(strings(&["", "b.gz", "", "c"])), split_csv_lines(" , b.gz,, c", 2));
    assert_eq!(Ok(strings(&["a b", "c d"])), split_csv_lines("a b,c d", 2));
    assert_eq!(Ok(strings(&["a", "b"])), split_csv_lines("\u{a0}a\u{2003},\u{3000}b\r", 2));
}

#[test]
fn split_at_every_comma() {
    assert_eq!(strings(&[""]), split_commas(""));
    assert_eq!(strings(&["", ""]), split_commas(","));
    assert_eq!(strings(&["a", " b", "", "c "]), split_commas("a, b,,c "));
    assert_eq!(strings(&["no comma"]), split_commas("no comma"));
    assert_eq!(strings(&["", "", ""]), split_commas(",,"));
}

#[test]
fn trim_takes_white_space_away() {
    assert_eq!("a", trim("  a\t\n"));
    assert_eq!("a  b", trim(" a  b "));
    assert_eq!("", trim(" \t\r\n"));
    assert_eq!("", trim(""));
    assert_eq!("x", trim("x"));
    assert_eq!("é", trim("\u{2028}é\u{205f}"));
}

#[test]
fn wide_lines() {
    assert!(!is_wide("a,b"));
    assert!(is_wide("a,b,c"));
    assert!(is_wide("a,b,"));
    assert!(!is_wide(""));
    assert_eq!(
        "\x1b[0;33mLINE 12 HAS MORE THAN TWO COLUMNS.ASSUMING THE FIRST TWO ARE THE FILENAMES.\x1b[0m",
        display_wide(12)
    );
}

#[test]
fn parse_csv_test() {
    let input = "test_files/input.csv";
    let old = String::from("test_files/valid.fastq.gz");
    let new = String::from("test_files/valid_new.fastq.gz");

    let filenames = parse_csv(&lines_of(input)).unwrap();

    assert_eq!(1, filenames.len());
    for (old_names, new_names) in filenames {
        assert_eq!(old, old_names);
        assert_eq!(new, new_names);
    }
}

#[test]
fn parse_multicols_csv_test() {
    let input = "test_files/multicols_input.csv";
    let old = String::from("test_files/valid2.fastq.gzip");
    let new = String::from("test_files/valid_new2.fastq.gzip");

    let filenames = parse_csv(&lines_of(input)).unwrap();

    assert_eq!(1, filenames.len());
    for (old_names, new_names) in filenames {
        assert_eq!(old, old_names);
        assert_eq!(new, new_names);
    }
}

#[test]
fn parse_csv_refuses_line_with_one_column() {
    let input = "test_files/invalid_input.csv";
    let error = parse_csv(&lines_of(input)).unwrap_err();
    assert_eq!(CsvError::MissingColumn { line: 3 }, error);
    assert_eq!("INVALID CSV INPUT! ONLY ONE COLUMN FOUND IN LINE 3.", display_error(error));
}

#[test]
fn parse_csv_reports_first_bad_line() {
    let lines = strings(&["h1,h2", "a.gz,b.gz", "c,d.gz", "e.gz", "f.gz,g.gz"]);
    assert_eq!(
        Err(CsvError::BadName { line: 3, error: NameError::NoExtension }),
        parse_csv(&lines)
    );
    let lines = strings(&["h1,h2", "a.gz,b.gz", "e.gz", "c,d.gz"]);
    assert_eq!(Err(CsvError::MissingColumn { line: 3 }), parse_csv(&lines));
    assert_eq!(
        "INVALID CSV INPUT! NO FILE NAME TO GIVE IN LINE 3.",
        display_error(CsvError::BadName { line: 3, error: NameError::NoExtension })
    );
}

#[test]
fn parse_csv_skips_header_and_keeps_order() {
    assert_eq!(Ok(Vec::new()), parse_csv(&Vec::new()));
    assert_eq!(Ok(Vec::new()), parse_csv(&strings(&["this header, has , many, columns"])));
    assert_eq!(Ok(Vec::new()), parse_csv(&strings(&["header"])));
    let lines = strings(&["h1,h2", "z/a.fq.gz, b.fq.gz", "y/c.fq.gzip ,x/d.fq.gz", "z/a.fq.gz,e.fq.gz"]);
    let wanted: Vec<(String, String)> = [
        ("z/a.fq.gz", "z/b.fq.gz"),
        ("y/c.fq.gzip", "y/d.fq.gzip"),
        ("z/a.fq.gz", "z/e.fq.gz"),
    ]
    .iter()
    .map(|p| (String::from(p.0), String::from(p.1)))
    .collect();
    assert_eq!(Ok(wanted), parse_csv(&lines));
}

#[test]
fn parse_record_anchors_the_name() {
    assert_eq!(
        Ok((String::from("data/old.fq.gz"), String::from("data/new.fq.gz"))),
        parse_record("data/old.fq.gz,elsewhere/new.fq.gz", 2)
    );
    assert_eq!(
        Err(CsvError::BadName { line: 7, error: NameError::NoFileName }),
        parse_record("data/old.fq.gz,..", 7)
    );
    assert_eq!(Err(CsvError::MissingColumn { line: 7 }), parse_record("data/old.fq.gz", 7));
}

#[test]
fn check_input_decides() {
    assert_eq!(InputAction::Proceed, check_input(0, true));
    assert_eq!(InputAction::Proceed, check_input(0, false));
    assert_eq!(InputAction::ShowErrors, check_input(1, true));
    assert_eq!(InputAction::ShowErrorsAndAsk, check_input(1, false));
    assert_eq!(InputAction::ShowErrorsAndAsk, check_input(u32::MAX, false));
}

#[test]
fn confirmation_keys() {
    assert_eq!(Some(Confirmation::Yes), get_user_input_err(b'y'));
    assert_eq!(Some(Confirmation::No), get_user_input_err(b'n'));
    for key in [b'Y', b'N', b'\n', b' ', 0u8, b'a'] {
        assert_eq!(None, get_user_input_err(key));
    }
}

fn pairs(list: &[(&str, &str)]) -> Vec<(String, String)> {
    list.iter().map(|p| (String::from(p.0), String::from(p.1))).collect()
}

#[test]
fn mapping_has_one_entry_per_origin() {
    let records = pairs(&[("a", "x"), ("b", "y"), ("a", "z"), ("c", "x"), ("b", "w"), ("a", "v")]);
    assert_eq!(pairs(&[("a", "v"), ("b", "w"), ("c", "x")]), build_mapping(&records));
    assert!(build_mapping(&Vec::new()).is_empty());
    let single = pairs(&[("a", "x")]);
    assert_eq!(single, build_mapping(&single));
}

#[test]
fn insert_replaces_or_appends() {
    let mut mapping = pairs(&[("a", "x"), ("b", "y")]);
    insert_record(&mut mapping, "c", "z");
    assert_eq!(pairs(&[("a", "x"), ("b", "y"), ("c", "z")]), mapping);
    insert_record(&mut mapping, "a", "w");
    assert_eq!(pairs(&[("a", "w"), ("b", "y"), ("c", "z")]), mapping);
    let mut doubled = pairs(&[("a", "x"), ("a", "y")]);
    insert_record(&mut doubled, "a", "z");
    assert_eq!(pairs(&[("a", "z"), ("a", "y")]), doubled);
}

#[test]
fn confirmation_lines() {
    assert_eq!("\nWould you like to continue: [y]es/[n]o? ", confirmation_question());
    assert_eq!("Incorrect input! Please, try again...", incorrect_input_line());
}
