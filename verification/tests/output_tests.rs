use abra_core::output::{check_output, expected_vs_txt, LineChange};

fn sides(d: &[LineChange]) -> (String, String) {
    let mut old = String::new();
    let mut new = String::new();
    for c in d {
        match c {
            LineChange::Same(l) => {
                old.push_str(l);
                new.push_str(l);
            }
            LineChange::Missing(l) => old.push_str(l),
            LineChange::Extra(l) => new.push_str(l),
        }
    }
    (old, new)
}

#[test]
fn equal_outputs_give_no_difference() {
    assert_eq!(check_output(&"a\nb\n".to_string(), &"a\nb\n".to_string()), None);
    assert_eq!(check_output(&String::new(), &String::new()), None);
}

#[test]
fn differing_outputs_give_their_lines() {
    let d = check_output(&"1\n2\n3\n".to_string(), &"1\n99\n3\n".to_string()).unwrap();
    assert_eq!(
        d,
        vec![
            LineChange::Same("1\n".to_string()),
            LineChange::Missing("2\n".to_string()),
            LineChange::Extra("99\n".to_string()),
            LineChange::Same("3\n".to_string()),
        ]
    );
}

#[test]
fn difference_sides_rebuild_both_texts() {
    let expected = "[\n  {\n    \"x\": 1\n  }\n]".to_string();
    let actual = "[\n  {\n    \"x\": 2\n  },\n]\n".to_string();
    let d = check_output(&expected, &actual).unwrap();
    assert_eq!(sides(&d), (expected, actual));
}

#[test]
fn file_name_markers_are_replaced() {
    let contents = "file %FILE_NAME%, again %FILE_NAME%%FILE_NAME%".to_string();
    assert_eq!(expected_vs_txt(&contents, &"t/a.abra".to_string()), "file t/a.abra, again t/a.abrat/a.abra");
    assert_eq!(expected_vs_txt(&"%FILE_NAME".to_string(), &"x".to_string()), "%FILE_NAME");
    assert_eq!(expected_vs_txt(&"%%FILE_NAME%%".to_string(), &"é".to_string()), "%é%");
    assert_eq!(expected_vs_txt(&String::new(), &"x".to_string()), "");
    let same = "no markers here".to_string();
    assert_eq!(expected_vs_txt(&same, &"x".to_string()), same);
}

#[test]
fn file_name_replacement_agrees_with_str_replace() {
    let contents = "%FILE_NAME%:1:2 %FILE_NAME% ünï %FILE_NAME".to_string();
    let path = "/tmp/p.abra".to_string();
    assert_eq!(expected_vs_txt(&contents, &path), contents.replace("%FILE_NAME%", &path));
}

#[test]
fn lines_end_at_any_line_ending() {
    let d = check_output(&"a\r\nb\rc".to_string(), &"a\r\nb\rd".to_string()).unwrap();
    assert_eq!(
        d,
        vec![
            LineChange::Same("a\r\n".to_string()),
            LineChange::Same("b\r".to_string()),
            LineChange::Missing("c".to_string()),
            LineChange::Extra("d".to_string()),
        ]
    );
}
