use frontmatter_compose::text::{chars_of, find_char, string_of_range, trim_range};

#[test]
fn chars_of_gives_each_character() {
    assert_eq!(chars_of(""), Vec::<char>::new());
    assert_eq!(chars_of("a\u{e9}\n"), vec!['a', '\u{e9}', '\n']);
}

#[test]
fn string_of_range_gives_the_part() {
    let v = chars_of("hello world");
    assert_eq!(string_of_range(&v, 0, 5), "hello");
    assert_eq!(string_of_range(&v, 6, 11), "world");
    assert_eq!(string_of_range(&v, 3, 3), "");
}

#[test]
fn find_char_gives_the_first_place() {
    let v = chars_of("a=b=c");
    assert_eq!(find_char(&v, 0, 5, '='), 1);
    assert_eq!(find_char(&v, 2, 5, '='), 3);
    assert_eq!(find_char(&v, 4, 5, '='), 5);
    assert_eq!(find_char(&v, 0, 1, '='), 1);
    assert_eq!(find_char(&v, 0, 5, 'z'), 5);
}

#[test]
fn trim_range_cuts_white_space_at_both_ends() {
    let v = chars_of(" \t a b \n ");
    assert_eq!(trim_range(&v, 0, v.len()), (3, 6));
    assert_eq!(trim_range(&v, 3, 6), (3, 6));
    assert_eq!(trim_range(&v, 4, 5), (5, 5));
}

#[test]
fn trim_range_of_white_space_alone_is_empty() {
    let v = chars_of("  \u{a0} ");
    let (a, b) = trim_range(&v, 0, v.len());
    assert_eq!(a, b);
}

#[test]
fn trim_range_leaves_other_characters() {
    let v = chars_of("_x_");
    assert_eq!(trim_range(&v, 0, 3), (0, 3));
    let zero_width = chars_of("\u{200b}x\u{200b}");
    assert_eq!(trim_range(&zero_width, 0, 3), (0, 3));
}
