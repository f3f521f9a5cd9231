use import_normalizer::classify::ImportType;
use import_normalizer::classify::is_import;
use import_normalizer::normalize::normalize_lines;

fn lines(v: &[&str]) -> Vec<String> {
    v.iter().map(|s| s.to_string()).collect()
}

#[test]
fn scenario_grouped_imports() {
    let input = lines(&[
        "use external_crate::Foo;",
        "use std::collections::HashMap;",
        "use crate::bar::Baz;",
        "",
        "fn main() {}",
    ]);
    let expected = lines(&[
        "use std::collections::HashMap;",
        "",
        "use external_crate::Foo;",
        "",
        "use crate::bar::Baz;",
        "",
        "",
        "fn main() {}",
    ]);
    assert_eq!(normalize_lines(&input), expected);
}

#[test]
fn scenario_multiline_block() {
    let input = lines(&["use external_crate::{", "    Foo,", "    Bar,", "};", "fn main() {}"]);
    let expected = lines(&[
        "use external_crate::{",
        "    Foo,",
        "    Bar,",
        "};",
        "",
        "fn main() {}",
    ]);
    assert_eq!(normalize_lines(&input), expected);
}

#[test]
fn scenario_no_imports() {
    let input = lines(&["fn main() {}", "let x = 5;"]);
    assert_eq!(normalize_lines(&input), input);
}

#[test]
fn empty_file() {
    let input: Vec<String> = Vec::new();
    let output = normalize_lines(&input);
    assert!(output.is_empty());
}

#[test]
fn rerun_on_import_free_file_is_identity() {
    let input = lines(&["fn main() {}", "    let y = 1;", "}"]);
    let once = normalize_lines(&input);
    let twice = normalize_lines(&once);
    assert_eq!(once, twice);
    assert_eq!(once, input);
}

#[test]
fn imports_at_end_of_file_are_flushed() {
    let input = lines(&["fn main() {}", "use std::fmt;"]);
    let expected = lines(&["fn main() {}", "use std::fmt;", ""]);
    assert_eq!(normalize_lines(&input), expected);
}

#[test]
fn unterminated_block_at_end_of_file_is_flushed() {
    let input = lines(&["use external_crate::{", "    Foo,"]);
    let expected = lines(&["use external_crate::{", "    Foo,", ""]);
    assert_eq!(normalize_lines(&input), expected);
}

#[test]
fn braces_closed_on_same_line_stay_single_line() {
    let input = lines(&["use std::{fmt, io};", "fn main() {}"]);
    let expected = lines(&["use std::{fmt, io};", "", "fn main() {}"]);
    assert_eq!(normalize_lines(&input), expected);
}

#[test]
fn block_interior_lines_follow_the_opening_category() {
    let input = lines(&[
        "use std::{",
        "    fmt,",
        "    io,",
        "};",
        "use external_crate::Foo;",
        "fn main() {}",
    ]);
    let expected = lines(&[
        "use std::{",
        "    fmt,",
        "    io,",
        "};",
        "",
        "use external_crate::Foo;",
        "",
        "fn main() {}",
    ]);
    assert_eq!(normalize_lines(&input), expected);
}

#[test]
fn two_import_regions_are_grouped_independently() {
    let input = lines(&[
        "use external_crate::Foo;",
        "use std::fmt;",
        "fn a() {}",
        "use crate::b;",
        "use std::io;",
        "fn c() {}",
    ]);
    let expected = lines(&[
        "use std::fmt;",
        "",
        "use external_crate::Foo;",
        "",
        "fn a() {}",
        "use std::io;",
        "",
        "use crate::b;",
        "",
        "fn c() {}",
    ]);
    assert_eq!(normalize_lines(&input), expected);
}

#[test]
fn order_within_a_group_is_preserved() {
    let input = lines(&[
        "use beta::B;",
        "use alpha::A;",
        "use std::fmt;",
        "use std::io;",
        "",
    ]);
    let expected = lines(&[
        "use std::fmt;",
        "use std::io;",
        "",
        "use beta::B;",
        "use alpha::A;",
        "",
        "",
    ]);
    assert_eq!(normalize_lines(&input), expected);
}

#[test]
fn classify_standard() {
    assert_eq!(is_import("use std::collections::HashMap;"), Some(ImportType::Std));
}

#[test]
fn classify_local_crate() {
    assert_eq!(is_import("use crate::bar::Baz;"), Some(ImportType::Crate));
}

#[test]
fn classify_local_self() {
    assert_eq!(is_import("use self::inner::Thing;"), Some(ImportType::Crate));
}

#[test]
fn classify_external() {
    assert_eq!(is_import("use external_crate::Foo;"), Some(ImportType::External));
}

#[test]
fn classify_pub_use() {
    assert_eq!(is_import("pub use std::fmt::Debug;"), Some(ImportType::Std));
}

#[test]
fn classify_pub_crate_use() {
    assert_eq!(is_import("pub(crate) use crate::util::helper;"), Some(ImportType::Crate));
}

#[test]
fn classify_standard_takes_priority_over_local() {
    assert_eq!(is_import("use std::x; // crate::"), Some(ImportType::Std));
}

#[test]
fn classify_non_import() {
    assert_eq!(is_import("fn main() {}"), None);
    assert_eq!(is_import(""), None);
    assert_eq!(is_import("user count"), None);
}

#[test]
fn classify_indented_line_is_not_an_import_start() {
    assert_eq!(is_import("    use std::fmt;"), None);
}
