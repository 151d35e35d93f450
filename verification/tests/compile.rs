use rss::compile::{compiler_for, Compiler};
use rss::text::{from_chars, join2, replace_all, same_chars, same_text, to_chars};

#[test]
fn a_compiler_names_its_files() {
    let c = Compiler::new("examples/demo/fact.rss").unwrap();
    assert_eq!(c.target_name, "fact.rss");
    assert_eq!(c.output_dir, "examples/demo");
    assert_eq!(c.output_name, "fact.ll");
    assert!(c.declared_variables.is_empty());
    assert!(c.declared_functions.is_empty());
    assert!(c.used_variables.is_empty());
    assert!(c.used_functions.is_empty());
}

#[test]
fn a_compiler_for_a_file_without_a_directory() {
    let c = Compiler::new("fact.rss").unwrap();
    assert_eq!(c.target_name, "fact.rss");
    assert_eq!(c.output_dir, "");
    assert_eq!(c.output_name, "fact.ll");
}

#[test]
fn a_compiler_needs_a_file_name() {
    assert_eq!(Compiler::new(""), None);
    assert_eq!(Compiler::new("/"), None);
    assert_eq!(Compiler::new("a/.."), None);
}

#[test]
fn every_extension_in_the_name_is_replaced() {
    let c = compiler_for("a.rss.rss".to_string(), "dir".to_string());
    assert_eq!(c.output_name, "a.ll.ll");
    assert_eq!(c.target_name, "a.rss.rss");
    assert_eq!(c.output_dir, "dir");
    let plain = compiler_for("notes.txt".to_string(), "dir".to_string());
    assert_eq!(plain.output_name, "notes.txt");
}

#[test]
fn replacing_reads_from_the_left() {
    assert_eq!(replace_all("aaa", "aa", "b"), "ba");
    assert_eq!(replace_all("abcabc", "bc", ""), "aa");
    assert_eq!(replace_all("abc", "", "x"), "abc");
    assert_eq!(replace_all("", "a", "x"), "");
    assert_eq!(replace_all("aXbXc", "X", "XX"), "aXXbXXc");
    assert_eq!(replace_all("fact.rss", ".rss", ".ll"), "fact.ll");
    assert_eq!(replace_all("rss", ".rss", ".ll"), "rss");
}

#[test]
fn texts_and_characters() {
    assert_eq!(to_chars("h\u{e9}!"), vec!['h', '\u{e9}', '!']);
    assert_eq!(from_chars(&vec!['h', '\u{e9}', '!']), "h\u{e9}!");
    assert_eq!(from_chars(&Vec::new()), "");
    assert_eq!(join2("ab", "cd"), "abcd");
    assert!(same_text("abc", "abc"));
    assert!(!same_text("abc", "abd"));
    assert!(!same_text("abc", "ab"));
    assert!(same_chars(&vec!['a'], &vec!['a']));
    assert!(!same_chars(&vec!['a'], &vec!['b']));
}
