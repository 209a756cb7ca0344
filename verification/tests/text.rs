use renamer::cli::{find_mode, no_command_line, rename_mode, FindMode, RenameMode};
use renamer::prompt::{get_user_input, Directive};
use renamer::report::{
    display_denied, display_fatal, display_not_found, display_result, display_skipping,
    display_still_denied, display_summary,
};
use renamer::text::{chars_of, decimal_string, ends_with, last_index_of, slice};

#[test]
fn characters() {
    assert_eq!(vec!['a', 'é', '/', '漢'], chars_of("aé/漢"));
    assert!(chars_of("").is_empty());
}

#[test]
fn endings() {
    assert!(ends_with("a.fastq.gz", ".gz"));
    assert!(ends_with("a.fastq.gz", "a.fastq.gz"));
    assert!(ends_with("a.fastq.gz", ""));
    assert!(ends_with("", ""));
    assert!(!ends_with("a.fastq.gz", ".fastq"));
    assert!(!ends_with("gz", ".gz"));
    assert!(!ends_with("", "a"));
    assert!(ends_with("naïve", "ïve"));
}

#[test]
fn slices_count_characters() {
    assert_eq!("é/", slice("aé/漢", 1, 3));
    assert_eq!("", slice("aé/漢", 4, 4));
    assert_eq!("aé/漢", slice("aé/漢", 0, 4));
}

#[test]
fn last_index() {
    assert_eq!(Some(7), last_index_of(&chars_of("a.fastq.gz"), '.'));
    assert_eq!(Some(0), last_index_of(&chars_of(".hidden"), '.'));
    assert_eq!(None, last_index_of(&chars_of("README"), '.'));
    assert_eq!(None, last_index_of(&chars_of(""), '.'));
}

#[test]
fn decimals() {
    assert_eq!("0", decimal_string(0));
    assert_eq!("7", decimal_string(7));
    assert_eq!("10", decimal_string(10));
    assert_eq!("1234567890", decimal_string(1234567890));
    assert_eq!("18446744073709551615", decimal_string(u64::MAX));
}

#[test]
fn directive_keys() {
    assert_eq!(Some(Directive::Retry), get_user_input(b'r'));
    assert_eq!(Some(Directive::Continue), get_user_input(b'c'));
    assert_eq!(Some(Directive::Abort), get_user_input(b'a'));
    for key in [b'R', b'C', b'A', b'y', b'\n', b'\r', b' ', 0u8, 255u8] {
        assert_eq!(None, get_user_input(key));
    }
}

#[test]
fn report_lines() {
    assert_eq!("\"a.fastq.gz\" \x1b[0;36m => \x1b[0m \"b.fastq.gz\"", display_result("a.fastq.gz", "b.fastq.gz"));
    assert_eq!("\"a \\\"b\\\"\" \x1b[0;36m => \x1b[0m \"c\\\\d\"", display_result("a \"b\"", "c\\d"));
    assert_eq!("Can't rename \"a\". It may be used by another program.", display_denied("a"));
    assert_eq!("Still can't rename \"a\". Skipping it...", display_still_denied("a"));
    assert_eq!("Skipping \"a\"", display_skipping("a"));
    assert_eq!("\"a\" \x1b[0;41mNOT FOUND!\x1b[0m", display_not_found("a"));
    assert_eq!("CAN'T RENAME THE FILE \"d/a\"", display_fatal("d/a"));
    assert_eq!("\nTotal files renamed: 0", display_summary(0));
    assert_eq!("\nTotal files renamed: 42", display_summary(42));
}

#[test]
fn command_line_modes() {
    assert_eq!(FindMode::Directory, find_mode(true, false));
    assert_eq!(FindMode::Directory, find_mode(true, true));
    assert_eq!(FindMode::Wildcard, find_mode(false, true));
    assert_eq!(FindMode::Nothing, find_mode(false, false));
    assert_eq!(RenameMode::Preview, rename_mode(true, true));
    assert_eq!(RenameMode::Apply, rename_mode(true, false));
    assert_eq!(RenameMode::Nothing, rename_mode(false, true));
    assert_eq!(RenameMode::Nothing, rename_mode(false, false));
    assert_eq!("NO COMMANDS PROVIDED!", no_command_line());
}
