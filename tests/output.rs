use wc_clone::count_mode;
use wc_clone::counter::{count_all, CountResult};
use wc_clone::report::render;
use wc_clone::CountMode;

#[test]
fn all_mode_with_path() {
    let r = count_all(b"alpha beta\ngamma delta\nepsilo\n");
    assert_eq!(render(CountMode::All, r, Some("notes.txt")), "  3 5 30 notes.txt");
}

#[test]
fn empty_file_line() {
    let r = count_all(b"");
    assert_eq!(render(CountMode::All, r, Some("empty.txt")), "  0 0 0 empty.txt");
}

#[test]
fn piped_line_has_no_path() {
    let r = count_all(b"a b c\n");
    assert_eq!(render(count_mode(false, false, false), r, None), "  1 3 6");
}

#[test]
fn single_field_modes() {
    let r = CountResult { bytes: 342190, lines: 7145, words: 58164 };
    assert_eq!(render(CountMode::Bytes, r, Some("src/test.txt")), "  342190 src/test.txt");
    assert_eq!(render(CountMode::Lines, r, Some("src/test.txt")), "  7145 src/test.txt");
    assert_eq!(render(CountMode::Words, r, Some("src/test.txt")), "  58164 src/test.txt");
    assert_eq!(
        render(CountMode::All, r, Some("src/test.txt")),
        "  7145 58164 342190 src/test.txt"
    );
    assert_eq!(render(CountMode::Words, r, None), "  58164");
}

#[test]
fn decimal_edges() {
    let r = CountResult { bytes: u64::MAX, lines: 10, words: 9 };
    assert_eq!(render(CountMode::All, r, None), "  10 9 18446744073709551615");
    let z = CountResult { bytes: 100, lines: 0, words: 1000 };
    assert_eq!(render(CountMode::All, z, Some("")), "  0 1000 100 ");
}

#[test]
fn path_is_copied_verbatim() {
    let r = CountResult { bytes: 1, lines: 0, words: 0 };
    assert_eq!(render(CountMode::Bytes, r, Some("dir/ünï côde.txt")), "  1 dir/ünï côde.txt");
}
