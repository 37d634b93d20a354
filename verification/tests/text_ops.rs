use pm_translate::text::{
    append_chars, contains, from_chars, is_space_char, join_from, occurs_at_index, remove_all,
    same_chars, slice_chars, split_whitespace, starts_with, to_chars, trim,
};

fn chars(s: &str) -> Vec<char> {
    s.chars().collect()
}

fn text(v: &Vec<char>) -> String {
    v.iter().collect()
}

#[test]
fn white_space_is_what_the_standard_library_calls_so() {
    let mut n: u32 = 0;
    while n <= 0x10FFFF {
        if let Some(c) = char::from_u32(n) {
            assert_eq!(is_space_char(c), c.is_whitespace(), "code point {:#x}", n);
        }
        n += 1;
    }
}

#[test]
fn characters_round_trip() {
    for s in ["", "npm", "pnpm add \u{e9}t\u{e9}", "a\u{3000}b", "\u{1F600} x"] {
        let v = to_chars(s);
        assert_eq!(v, chars(s));
        assert_eq!(from_chars(&v), s);
    }
}

#[test]
fn same_chars_compares_whole_texts() {
    assert!(same_chars(&chars("yarn"), &chars("yarn")));
    assert!(!same_chars(&chars("yarn"), &chars("yarm")));
    assert!(!same_chars(&chars("yarn"), &chars("yar")));
    assert!(same_chars(&chars(""), &chars("")));
}

#[test]
fn slice_and_append() {
    let s = chars("pnpm dlx cowsay");
    assert_eq!(text(&slice_chars(&s, 5, 8)), "dlx");
    assert_eq!(text(&slice_chars(&s, 3, 3)), "");
    assert_eq!(text(&slice_chars(&s, 0, s.len())), "pnpm dlx cowsay");
    let mut head = chars("bun");
    append_chars(&mut head, &chars("x "));
    assert_eq!(text(&head), "bunx ");
    append_chars(&mut head, &chars(""));
    assert_eq!(text(&head), "bunx ");
}

#[test]
fn prefixes_and_occurrences() {
    let s = chars("npx create-next-app");
    assert!(starts_with(&s, &chars("npx ")));
    assert!(!starts_with(&s, &chars("pnpx ")));
    assert!(starts_with(&s, &chars("")));
    assert!(!starts_with(&chars("np"), &chars("npx ")));
    assert!(occurs_at_index(&s, 4, &chars("create")));
    assert!(!occurs_at_index(&s, 5, &chars("create")));
    assert!(occurs_at_index(&s, s.len(), &chars("")));
    assert!(!occurs_at_index(&s, s.len(), &chars("p")));
}

#[test]
fn contains_agrees_with_the_standard_library() {
    let texts = ["", "-g", "typescript -g", "--global ts", "a-b", "g-", "-", "xx-gxx"];
    let patterns = ["-g", "--global", "", "x", "ts"];
    for s in texts {
        for p in patterns {
            assert_eq!(contains(&chars(s), &chars(p)), s.contains(p), "{:?} in {:?}", p, s);
        }
    }
}

#[test]
fn remove_all_agrees_with_replace() {
    let texts = [
        "",
        "-g",
        "-g typescript",
        "typescript -g",
        "--global typescript",
        "-g-g-g",
        "--g",
        "-global-utils",
        "aaa",
        "aaaa",
        "--glo-gbal",
    ];
    let patterns = ["-g", "--global", "aa", "a", ""];
    for s in texts {
        for p in patterns {
            assert_eq!(
                text(&remove_all(&chars(s), &chars(p))),
                s.replace(p, ""),
                "{:?} without {:?}",
                s,
                p
            );
        }
    }
    assert_eq!(text(&remove_all(&chars("-g typescript"), &chars("-g"))), " typescript");
}

#[test]
fn trim_agrees_with_the_standard_library() {
    for s in [
        "",
        " ",
        "  \t\n",
        "npm",
        "  npm install  ",
        "\u{a0}yarn build\u{3000}",
        "a b",
        " a",
        "a ",
    ] {
        assert_eq!(text(&trim(&chars(s))), s.trim(), "{:?}", s);
    }
    assert_eq!(text(&trim(&chars("  npx x \n"))), "npx x");
}

#[test]
fn split_whitespace_agrees_with_the_standard_library() {
    for s in [
        "",
        "   ",
        "npm",
        "npm install react",
        "  npm   install\treact  react-dom \n",
        "a\u{2003}b",
        "x ",
        " x",
    ] {
        let got: Vec<String> = split_whitespace(&chars(s)).iter().map(text).collect();
        let want: Vec<String> = s.split_whitespace().map(|w| w.to_string()).collect();
        assert_eq!(got, want, "{:?}", s);
    }
    let words = split_whitespace(&chars("npm  i   react"));
    assert_eq!(words.len(), 3);
    assert_eq!(text(&words[1]), "i");
}

#[test]
fn join_puts_single_spaces_between_parts() {
    let parts = vec![chars("npm"), chars("install"), chars("react"), chars("react-dom")];
    assert_eq!(text(&join_from(&parts, 2)), "react react-dom");
    assert_eq!(text(&join_from(&parts, 3)), "react-dom");
    assert_eq!(text(&join_from(&parts, 4)), "");
    assert_eq!(text(&join_from(&parts, 0)), "npm install react react-dom");
}
