use btcli::device::Device;
use btcli::layout::{compute_layout, Layout};
use btcli::registry::DeviceList;
use btcli::term::{term_cols, TermSize};
use btcli::text::{chars_of, contains_str, make_spaces, parse_decimal_bounded, str_eq, u32_to_dec,
    u32_to_dec_pad6};

fn grid(layout: Layout) -> Vec<u8> {
    match layout {
        Layout::Grid(cols) => cols,
        Layout::OnePerLine => panic!("expected a grid"),
    }
}

#[test]
fn three_names_in_width_24_make_two_columns() {
    // Names Keyboard (8), Headset (7), Mouse (5); two reserved characters
    // per column; width budget 24.
    let widths: Vec<u8> = vec![8, 7, 5];
    let cols = grid(compute_layout(&widths, 24, 2));
    assert_eq!(cols, vec![8, 7]);
}

#[test]
fn grid_rows_for_the_two_column_choice() {
    let mut list = DeviceList::new();
    list.set_print_in_color(false);
    for name in ["Keyboard", "Headset", "Mouse"] {
        list.add_device(Device::new(
            String::from("AA:00"),
            String::from(name),
            false,
            false,
            false,
            false,
            false,
        ));
    }
    let cols: Vec<u8> = vec![8, 7];
    let rows = list.grid_lines(&cols);
    // Records fill the grid row by row, each one padded to its column's
    // width and separated by two spaces.
    assert_eq!(rows, vec![String::from("Keyboard  Headset"), String::from("Mouse")]);
}

#[test]
fn engine_picks_the_maximum_fitting_column_count() {
    // Four names of width 3; 2 reserved per column; budget 20 fits all
    // four columns: 4 * (3 + 2) = 20.
    let widths: Vec<u8> = vec![3, 3, 3, 3];
    assert_eq!(grid(compute_layout(&widths, 20, 2)), vec![3, 3, 3, 3]);
    // Budget 19 does not fit four, but fits three: entries are assigned
    // round-robin, so columns see entries {0,3}, {1}, {2}.
    assert_eq!(grid(compute_layout(&widths, 19, 2)), vec![3, 3, 3]);
}

#[test]
fn narrow_terminal_falls_back_to_one_per_line() {
    // The budget is below the shortest name: nothing fits.
    let widths: Vec<u8> = vec![8, 7, 5];
    assert!(matches!(compute_layout(&widths, 4, 2), Layout::OnePerLine));
}

#[test]
fn empty_list_falls_back_to_one_per_line() {
    let widths: Vec<u8> = Vec::new();
    assert!(matches!(compute_layout(&widths, 80, 2), Layout::OnePerLine));
}

#[test]
fn reserved_characters_count_against_the_budget() {
    // One name of width 8: a single column costs 8 + extra.
    let widths: Vec<u8> = vec![8];
    assert_eq!(grid(compute_layout(&widths, 10, 2)), vec![8]);
    assert!(matches!(compute_layout(&widths, 9, 2), Layout::OnePerLine));
    assert!(matches!(compute_layout(&widths, 11, 4), Layout::OnePerLine));
    assert_eq!(grid(compute_layout(&widths, 12, 4)), vec![8]);
}

#[test]
fn column_widths_are_true_maxima() {
    // Entries 1,9,1,9 in two columns: column 0 sees {1,1}, column 1 sees
    // {9,9}.
    let widths: Vec<u8> = vec![1, 9, 1, 9];
    assert_eq!(grid(compute_layout(&widths, 20, 2)), vec![1, 9]);
    // A generous budget admits counts beyond the entry count: the extra
    // columns stay empty but their reserved characters still count, so 30
    // columns of 2 reserved characters plus the four entries use exactly
    // the 80 cells.
    let mut wide = vec![1u8, 9, 1, 9];
    wide.extend(vec![0u8; 26]);
    assert_eq!(grid(compute_layout(&widths, 80, 2)), wide);
}

#[test]
fn term_cols_defaults_to_eighty() {
    assert_eq!(term_cols(&None), 80);
    assert_eq!(term_cols(&Some(TermSize { lines: 24, cols: 132 })), 132);
}

#[test]
fn decimal_rendering() {
    assert_eq!(u32_to_dec(0), "0");
    assert_eq!(u32_to_dec(7), "7");
    assert_eq!(u32_to_dec(105), "105");
    assert_eq!(u32_to_dec(999999), "999999");
    assert_eq!(u32_to_dec_pad6(42), "000042");
    assert_eq!(u32_to_dec_pad6(123456), "123456");
    assert_eq!(u32_to_dec_pad6(1234567), "1234567");
}

#[test]
fn decimal_parsing() {
    assert_eq!(parse_decimal_bounded("0", 1000000), Some(0));
    assert_eq!(parse_decimal_bounded("123456", 1000000), Some(123456));
    assert_eq!(parse_decimal_bounded("000123", 1000000), Some(123));
    assert_eq!(parse_decimal_bounded("999999", 1000000), Some(999999));
    assert_eq!(parse_decimal_bounded("1000000", 1000000), None);
    assert_eq!(parse_decimal_bounded("", 1000000), None);
    assert_eq!(parse_decimal_bounded("12a4", 1000000), None);
    assert_eq!(parse_decimal_bounded("+123", 1000000), None);
}

#[test]
fn space_runs() {
    assert_eq!(make_spaces(0), "");
    assert_eq!(make_spaces(3), "   ");
}

#[test]
fn substring_search_edges() {
    assert!(contains_str("", ""));
    assert!(contains_str("abc", ""));
    assert!(!contains_str("", "a"));
    assert!(contains_str("abcabd", "abd"));
    assert!(!contains_str("abcabc", "abd"));
    assert!(contains_str("ab", "ab"));
}

#[test]
fn string_equality_is_by_characters() {
    assert!(str_eq("", ""));
    assert!(str_eq("gerät", "gerät"));
    assert!(!str_eq("ab", "abc"));
    assert!(!str_eq("ab", "aB"));
    assert_eq!(chars_of("héllo").len(), 5);
}
