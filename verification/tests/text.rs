use mirror_store::text::{
    any_same, chars_of, contains, is_white_space, lines, same, split_stripped, split_whitespace,
    starts_with, text_of, trim, trim_start_matches, up_to_last,
};

const SAMPLES: &[&str] = &[
    "",
    " ",
    "a",
    "  a b  ",
    "\t\u{a0}x\u{3000}\u{200b} y\u{2029}",
    "one\ntwo\r\nthree\r\r\n\nfour\r",
    "\n",
    "\r\n",
    "a\n\n",
    "nixpkgs.nixpkgs.hello",
    "\"quoted\" \"\"",
    "Ünïcödé … ✓",
];

#[test]
fn white_space_agrees_with_unicode_property() {
    for n in 0..=0x10ffff_u32 {
        if let Some(c) = char::from_u32(n) {
            assert_eq!(is_white_space(c), c.is_whitespace(), "U+{:04X}", n);
        }
    }
}

#[test]
fn trim_agrees_with_std() {
    for s in SAMPLES {
        assert_eq!(trim(s), s.trim());
    }
    assert_eq!(trim("  a b  "), "a b");
}

#[test]
fn lines_agree_with_std() {
    for s in SAMPLES {
        assert_eq!(lines(s), s.lines().collect::<Vec<_>>());
    }
    assert_eq!(lines("one\r\ntwo\r"), vec!["one", "two\r"]);
}

#[test]
fn words_agree_with_std() {
    for s in SAMPLES {
        assert_eq!(split_whitespace(s), s.split_whitespace().collect::<Vec<_>>());
    }
}

#[test]
fn parts_and_prefixes_agree_with_std() {
    for s in SAMPLES {
        for p in SAMPLES {
            assert_eq!(contains(s, p), s.contains(p), "{:?} {:?}", s, p);
            assert_eq!(starts_with(s, p), s.starts_with(p), "{:?} {:?}", s, p);
            assert_eq!(same(s, p), s == p);
            if !p.is_empty() {
                assert_eq!(trim_start_matches(s, p), s.trim_start_matches(p));
            }
        }
    }
    assert_eq!(trim_start_matches("nixpkgs.nixpkgs.hello", "nixpkgs."), "hello");
    assert_eq!(trim_start_matches("hello", ""), "hello");
}

#[test]
fn split_agrees_with_std() {
    for s in ["", ", ", "a", "\"a\", \"b\", c\"", ",, , x", "\"\"a\"\"", ", a, "] {
        let expected: Vec<String> =
            s.split(", ").map(|piece| piece.trim_matches('"').to_string()).collect();
        assert_eq!(split_stripped(s, ", ", '"'), expected);
    }
    assert_eq!(split_stripped("aaa", "aa", 'x'), vec!["", "a"]);
}

#[test]
fn part_before_last_character() {
    assert_eq!(up_to_last("gimp.png", '.'), "gimp");
    assert_eq!(up_to_last("org.gimp.GIMP.svg", '.'), "org.gimp.GIMP");
    assert_eq!(up_to_last("noext", '.'), "noext");
    assert_eq!(up_to_last(".hidden", '.'), "");
    assert_eq!(up_to_last("", '.'), "");
}

#[test]
fn characters_and_back() {
    for s in SAMPLES {
        let cs = chars_of(s);
        assert_eq!(cs, s.chars().collect::<Vec<_>>());
        assert_eq!(text_of(&cs, 0, cs.len()), *s);
    }
    assert_eq!(text_of(&chars_of("abc…"), 1, 4), "bc…");
}

#[test]
fn membership_of_texts() {
    let list = vec!["a".to_string(), "b".to_string()];
    assert!(any_same(&list, "b"));
    assert!(!any_same(&list, "c"));
    assert!(!any_same(&Vec::new(), ""));
}
