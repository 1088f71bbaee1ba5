use line_counter::input::{parse_answer, parse_extensions, trim};

fn strings(items: &[&str]) -> Vec<String> {
    items.iter().map(|e| e.to_string()).collect()
}

#[test]
fn extensions_are_cut_at_commas() {
    assert_eq!(parse_extensions("txt,rs,class"), strings(&["txt", "rs", "class"]));
}

#[test]
fn the_end_of_the_line_is_trimmed_away() {
    assert_eq!(parse_extensions("txt,rs,class\n"), strings(&["txt", "rs", "class"]));
    assert_eq!(parse_extensions("  txt,rs\r\n"), strings(&["txt", "rs"]));
}

#[test]
fn single_extension() {
    assert_eq!(parse_extensions("txt\n"), strings(&["txt"]));
}

#[test]
fn empty_line_asks_for_the_empty_extension() {
    assert_eq!(parse_extensions(""), strings(&[""]));
    assert_eq!(parse_extensions("\n"), strings(&[""]));
    assert_eq!(parse_extensions("   \t "), strings(&[""]));
}

#[test]
fn empty_pieces_are_kept() {
    assert_eq!(parse_extensions("a,,b"), strings(&["a", "", "b"]));
    assert_eq!(parse_extensions("a,"), strings(&["a", ""]));
    assert_eq!(parse_extensions(",a"), strings(&["", "a"]));
    assert_eq!(parse_extensions(","), strings(&["", ""]));
}

#[test]
fn white_space_inside_the_line_is_kept() {
    assert_eq!(parse_extensions(" txt, rs ,md \n"), strings(&["txt", " rs ", "md"]));
}

#[test]
fn pieces_agree_with_the_standard_split() {
    let lines = ["", ",", "a", "a,b", ",,", "a,,b,", "x y,z", "é,ü,ß", ",a,"];
    for line in lines.iter() {
        let expected: Vec<String> = line.split(',').map(String::from).collect();
        assert_eq!(parse_extensions(line), expected);
    }
}

#[test]
fn trim_removes_white_space_at_both_ends() {
    assert_eq!(trim("  a b \n"), "a b");
    assert_eq!(trim("a"), "a");
    assert_eq!(trim(""), "");
    assert_eq!(trim(" \t\r\n"), "");
    assert_eq!(trim("\u{3000}x\u{00a0}y\u{2003}"), "x\u{00a0}y");
}

#[test]
fn trim_agrees_with_the_standard_one() {
    let lines = ["", " ", "a", " a", "a ", " a ", "\ta b\n", "\u{0085}z\u{1680}", "é ", " ü"];
    for line in lines.iter() {
        assert_eq!(trim(line), line.trim());
    }
}

#[test]
fn yes() {
    assert_eq!(parse_answer("y"), Some(true));
    assert_eq!(parse_answer("Y"), Some(true));
    assert_eq!(parse_answer("y\n"), Some(true));
    assert_eq!(parse_answer("  Y \r\n"), Some(true));
}

#[test]
fn no() {
    assert_eq!(parse_answer("n"), Some(false));
    assert_eq!(parse_answer("N"), Some(false));
    assert_eq!(parse_answer("N\n"), Some(false));
}

#[test]
fn anything_else_is_no_answer() {
    assert_eq!(parse_answer(""), None);
    assert_eq!(parse_answer("\n"), None);
    assert_eq!(parse_answer("yes"), None);
    assert_eq!(parse_answer("no"), None);
    assert_eq!(parse_answer("x"), None);
    assert_eq!(parse_answer("y n"), None);
    assert_eq!(parse_answer("ý"), None);
}
