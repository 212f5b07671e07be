use mdbook_markers::tags::split_tags;
use mdbook_markers::text::contains_text;
use mdbook_markers::text::find_from;
use mdbook_markers::text::is_space_char;
use mdbook_markers::text::replace_text;
use mdbook_markers::text::to_chars;
use mdbook_markers::text::trim_range;

fn std_tags(literal: &str, delim: &str) -> Vec<String> {
    let mut out = Vec::new();
    for piece in literal.trim().split(delim) {
        let piece = piece.trim();
        if piece.len() > 0 {
            out.push(piece.to_string());
        }
    }
    out
}

#[test]
fn white_space_is_what_char_says() {
    let mut code: u32 = 0;
    while code <= 0x10ffff {
        if let Some(c) = char::from_u32(code) {
            assert_eq!(is_space_char(c), c.is_whitespace(), "U+{:04X}", code);
        }
        code += 1;
    }
}

#[test]
fn to_chars_keeps_every_character() {
    assert_eq!(to_chars("héllo ✓"), vec!['h', 'é', 'l', 'l', 'o', ' ', '✓']);
    assert_eq!(to_chars(""), Vec::<char>::new());
}

#[test]
fn find_from_gives_the_leftmost_occurrence() {
    let hay = to_chars("abcabcab");
    assert_eq!(find_from(&hay, &to_chars("ca"), 0), Some(2));
    assert_eq!(find_from(&hay, &to_chars("ca"), 3), Some(5));
    assert_eq!(find_from(&hay, &to_chars("ca"), 6), None);
    assert_eq!(find_from(&hay, &to_chars("abcabcabc"), 0), None);
    assert_eq!(find_from(&hay, &to_chars(""), 8), Some(8));
    assert_eq!(find_from(&hay, &to_chars(""), 9), None);
    assert_eq!(find_from(&hay, &to_chars("ab"), 7), None);
}

#[test]
fn trim_range_drops_white_space_at_both_ends() {
    let v = to_chars(" \t a b \u{3000}\n");
    assert_eq!(trim_range(&v, 0, v.len()), (3, 6));
    assert_eq!(trim_range(&v, 4, 5), (5, 5));
    assert_eq!(trim_range(&v, 3, 6), (3, 6));
    let blank = to_chars("   ");
    let (a, b) = trim_range(&blank, 0, 3);
    assert_eq!(a, b);
}

#[test]
fn tag_splitting_drops_empty_segments_and_white_space() {
    assert_eq!(split_tags("  a ;; b ; ;c  ", ";"), vec!["a", "b", "c"]);
}

#[test]
fn tag_splitting_keeps_order_and_duplicates() {
    assert_eq!(split_tags("x; y; x", ";"), vec!["x", "y", "x"]);
}

#[test]
fn tag_splitting_of_nothing_gives_no_tag() {
    assert_eq!(split_tags("", ";"), Vec::<String>::new());
    assert_eq!(split_tags("  \n ", ";"), Vec::<String>::new());
    assert_eq!(split_tags(" ; ;; ", ";"), Vec::<String>::new());
}

#[test]
fn tag_splitting_with_a_long_delimiter() {
    assert_eq!(split_tags("a--b---c", "--"), vec!["a", "b", "-c"]);
    assert_eq!(split_tags("aXYbXY", "XY"), vec!["a", "b"]);
}

#[test]
fn tag_splitting_with_an_empty_delimiter_cuts_between_characters() {
    assert_eq!(split_tags(" a b\tc ", ""), vec!["a", "b", "c"]);
    assert_eq!(split_tags("", ""), Vec::<String>::new());
}

#[test]
fn tag_splitting_agrees_with_trim_and_split() {
    let literals = [
        "",
        " ",
        ";",
        "a",
        " a;b ",
        "go; rust;",
        ": go; rust; ",
        "  a ;; b ; ;c  ",
        "é ; ü;\u{a0}ß\u{a0}",
        "a;;b",
        ";;;",
        "ab;a;b;aab",
        "one two; three",
        "\n x \n;\n y \n",
    ];
    let delims = [";", ";;", "a", "ab", " ", "", "; ", "é"];
    for literal in literals.iter() {
        for delim in delims.iter() {
            assert_eq!(split_tags(literal, delim), std_tags(literal, delim), "{:?} {:?}", literal, delim);
        }
    }
}

#[test]
fn contains_text_agrees_with_contains() {
    let hays = ["", "a", "abc", "<link rel=\"x\">", "aab", "ééé"];
    let pats = ["", "a", "ab", "bc", "c", "abc", "abcd", "é", "éé", "<link"];
    for hay in hays.iter() {
        for pat in pats.iter() {
            assert_eq!(contains_text(hay, pat), hay.contains(pat), "{:?} {:?}", hay, pat);
        }
    }
}

#[test]
fn replace_text_replaces_every_occurrence() {
    assert_eq!(replace_text("a.b.c", ".", "--"), "a--b--c");
    assert_eq!(replace_text("aaa", "aa", "b"), "ba");
    assert_eq!(replace_text("abc", "x", "y"), "abc");
    assert_eq!(replace_text("", "x", "y"), "");
    assert_eq!(replace_text("xx", "x", ""), "");
    assert_eq!(replace_text("ab", "", "-"), "-a-b-");
    assert_eq!(replace_text("", "", "-"), "-");
}

#[test]
fn replace_text_agrees_with_replace() {
    let texts = ["", "a", "abcabc", "aaaa", "éaé", "xyzxy"];
    let froms = ["", "a", "aa", "abc", "é", "xy", "zz"];
    let tos = ["", "a", "Q", "aa"];
    for text in texts.iter() {
        for from in froms.iter() {
            for to in tos.iter() {
                assert_eq!(replace_text(text, from, to), text.replace(from, to));
            }
        }
    }
}
