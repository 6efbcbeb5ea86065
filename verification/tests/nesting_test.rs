//! Which KDL texts are parsed, and which are too deep for it.
use cosmic_greeter::displays::{can_be_read, choose_arrangement, Arrangement, Display};
use cosmic_greeter::nesting::light_enough;

fn display() -> Display {
    Display { name: "DP-1".to_string(), make: None, model: "X".to_string() }
}

fn is_applied(document: &str) -> bool {
    let arrangement = Arrangement { document: document.to_string(), displays: vec![display()] };
    choose_arrangement(&vec![arrangement], &vec![display()]) == Some(0)
}

/// Lines that are fine on their own, and any number of times.
const FINE: [&str; 39] = [
    "a \"\"\"\n  { \"quoted\" {\n\n    } \"\"\n  \"\"\" {}",
    "a \"\"\"\r\n\r\n\\u{7b} \\\n  joined {\r\n\"\"\" { b }",
    "/-a {} #\"{\"# b {}",
    "a",
    "a {}",
    "a { b; c { d 1 } }",
    "a{b}",
    "// { { { \" /* /- ( = # \\",
    "a // { \"",
    "/* { \" } */",
    "a /* one */ /* two */ 1 /* three */ {}",
    "a/* tight */\"b\"",
    "/* outer /* inner */ outer */ a",
    "/-a { b }",
    "a /-1 /-k=2 /-{ b } { c }",
    "a {} /-{ b }",
    "a \\\n  1 \\ // comment\n  2 {\n}",
    "a \\ /* c */ \r\n 1 {}",
    "a {\r\n b\r\n}\r",
    "a \"{\" \"}\" k=\"{{{\"",
    "a \"\\\"{\" \"\\\\\" \"\\u{7b} \\u{10ffff}\" {}",
    "a \"joined \\\n   {\" {}",
    "a \"\" \"\" k=\"\" {}",
    "a #\"{\"# ##\"\"#{\"## #\"\"# #\"\"\"x\"# {}",
    "(type)a (u8)1 k=(\"{\")2 ( x ) \"y\" {}",
    "a #true #false #null #inf #-inf #nan {}",
    "a 1 -1 +1 1.5 -1.5e-10 1e5 0x1e 0xE 0o17 0b01 1_000 {}",
    "a - + -- .a a.b a-b <> {}",
    "\"a {\" \"b\" {}",
    "#\"a {\"# {}",
    "a \"k\"=1 k = 2 {}",
    "a;b;c {};",
    "a { b; }",
    "a { b }; c",
    "\u{3000}a\u{a0}1 {}",
    "a 1\u{2028}b {}",
    "grün \"ä{\" {}",
    "a {\n  /-b\n  /-c {\n    d\n  }\n  e\n}",
    "a { /* } */ }",
];

#[test]
fn well_formed_nodes_do_not_add_up() {
    for line in FINE {
        assert!(is_applied(line), "{:?}", line);
        let many = format!("{}\n", line).repeat(5000);
        assert!(light_enough(&many), "{:?}", line);
    }
    let mixed: String = FINE.iter().map(|line| format!("{}\n", line)).collect();
    assert!(is_applied(&mixed.repeat(10)));
    assert!(is_applied(&format!("\u{feff}{}", mixed)));
}

#[test]
fn an_arrangement_of_many_displays_is_applied() {
    let mut document = "// written by hand\n".repeat(200);
    for i in 1..=100 {
        document.push_str(&format!("output \"DP-{}\" enabled=#true {{\n", i));
        document.push_str("  // the one on the left { /* [ \n");
        document.push_str("  description make=\"Dell Inc.\" model=\"DELL U2720Q\"\n");
        document.push_str("  physical 600 340\n  position 0 -10\n  scale 1.50\n");
        document.push_str("  transform \"normal\"\n  serial_number \"\"\n  modes {\n");
        document.push_str("    mode 3840 2160 59997 current=#true preferred=#true\n");
        document.push_str("    mode 1920 1080 60000\n    /-mode 800 600 60000\n");
        document.push_str("  }\n}\n");
    }
    assert!(light_enough(&document));
    assert!(is_applied(&document));
}

#[test]
fn what_is_no_document_is_not_applied() {
    for text in [
        "}", "a {", "a }", "a=1", "a b=", "a b==1", "\"", "a \"", "a \"b\"c", "a \"\\q\"", "a (x)",
        "a #", "a ##", "a )", "a [", "[", "/", "a /", "/*", "a \"x\"/*b", "a \u{1}", ";", "a;;b", "(x)}", "a 0x",
        "a 1.", "a 1e", "a true", "a \\ b", "} /-{", "a {} {}", "a \"\\u{d800}\"", "a .5",
        "\u{feff}\u{feff}a", "/-", "/-/-a", "a \"\"\"b\"\"\"", "a \"\"\"\n b\n  \"\"\"", "a \"\"\"\nb\"\"\"",
    ] {
        assert!(!is_applied(text), "{:?}", text);
        assert!(!is_applied(&format!("a {{\n{}\n}}\nb {{", text)), "{:?}", text);
    }
}

#[test]
fn garbage_of_any_length_is_survived() {
    for text in [
        "}", "a=", "a)", "a .5 ", "[", "]", "\u{1}", "\"", "a\"", "(", ")", "#", "\\", ";", "=", "0x ",
        "1. ", "\"\"\"", "a\n=", "(x)}", "a {}b ", "/-\"{\";", " /-k=\"{\"", "/-/-\"{\"", "a 0x}\n",
        "9999999999999999999999999999999999999999 ", "\"}\n", "#\"}\n", "// {\n}\n",
    ] {
        let many = text.repeat(20_000);
        assert!(!can_be_read(&many), "{:?}", text);
    }
}

#[test]
fn the_deepest_texts_are_still_parsed() {
    let blocks = |n: usize| format!("{}{}", "a {\n".repeat(n), "}\n".repeat(n));
    assert!(is_applied(&blocks(42)));
    assert!(!light_enough(&blocks(43)));
    let dashed = |n: usize| format!("{}{}", "a\n/-a /-{\n".repeat(n), "}\n".repeat(n));
    assert!(is_applied(&dashed(4)));
    assert!(!light_enough(&dashed(5)));
    let comment = |n: usize| format!("a /*{}*/\n", "* ".repeat(n)).repeat(3);
    assert!(is_applied(&comment(167)));
    assert!(!light_enough(&comment(170)));
    let inner = |n: usize| format!("a {}{}\n", "/*".repeat(n), "*/".repeat(n));
    assert!(is_applied(&inner(36)));
    assert!(!light_enough(&inner(100)));
    let lost = |n: usize| format!("a\"\" {}\n", "{ ".repeat(n));
    assert!(light_enough(&lost(42)));
    assert!(!is_applied(&lost(42)));
    assert!(!light_enough(&lost(43)));
}

#[test]
fn deeper_texts_count_as_unreadable() {
    for text in [
        "a {\n".repeat(100_000),
        "a {".repeat(100_000),
        "{".repeat(100_000),
        "/*".repeat(100_000),
        format!("/*{}", "*".repeat(100_000)),
        format!("\"x\"/*b{}", "(\"{\");".repeat(20_000)),
        "\"{\n".repeat(100_000),
        "a \"}\" {\n".repeat(100_000),
        "a /* } */ {\n".repeat(100_000),
        "(x)} {".repeat(100_000),
    ] {
        assert!(!light_enough(&text));
        assert!(!is_applied(&text));
    }
}
