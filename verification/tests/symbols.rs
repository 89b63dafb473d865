use marlin::symbols::{extract_symbols, strip_keyword};

#[test]
fn extracts_rust_symbols() {
    let src = "fn main() {}\n\
                pub fn run(args: Vec<String>) -> Result<()> {}\n\
                struct Config {}\n\
                pub enum Mode { A, B }\n\
                trait Builder {}\n\
                impl Config {}\n\
                const MAX: usize = 10;\n";
    let syms = extract_symbols("rs", src);
    assert!(syms.contains(&"main".to_string()));
    assert!(syms.contains(&"run".to_string()));
    assert!(syms.contains(&"Config".to_string()));
    assert!(syms.contains(&"Mode".to_string()));
    assert!(syms.contains(&"Builder".to_string()));
    assert!(syms.contains(&"MAX".to_string()));
}

#[test]
fn does_not_match_keyword_inside_identifier() {
    let src = "fn handle() {}\nlet fnord = 1;\n";
    let syms = extract_symbols("rs", src);
    assert!(syms.contains(&"handle".to_string()));
    assert!(!syms.contains(&"fnord".to_string()));
}

#[test]
fn extracts_python_and_go() {
    let py = "import os\ndef parse(data):\n    return 1\nclass Widget:\n    pass\n";
    let psyms = extract_symbols("py", py);
    assert!(psyms.contains(&"parse".to_string()));
    assert!(psyms.contains(&"Widget".to_string()));

    let go = "package main\nfunc Run() {}\nfunc (s *Server) Start() {}\ntype Config struct{}\n";
    let gsyms = extract_symbols("go", go);
    assert!(gsyms.contains(&"Run".to_string()));
    assert!(gsyms.contains(&"Start".to_string()));
    assert!(gsyms.contains(&"Config".to_string()));
}

#[test]
fn symbols_come_in_the_order_of_the_lines() {
    let src = "fn b() {}\r\nfn a() {}\n";
    assert_eq!(extract_symbols("rs", src), vec!["b".to_string(), "a".to_string()]);
}

#[test]
fn a_text_without_declarations_has_no_symbols() {
    assert!(extract_symbols("rs", "").is_empty());
    assert!(extract_symbols("txt", "hello world\n").is_empty());
}

fn names(ext: &str, src: &str) -> Vec<String> {
    extract_symbols(ext, src)
}

#[test]
fn type_parameters_are_no_part_of_a_name() {
    assert_eq!(names("rs", "fn foo<T>(x: T) {}"), vec!["foo"]);
    assert_eq!(names("rs", "pub fn bar <'a, T>(x: &'a T) {}"), vec!["bar"]);
    assert_eq!(names("rs", "impl<T> Foo<T> {}"), vec!["Foo"]);
    assert_eq!(names("rs", "impl <T> Foo {}"), vec!["Foo"]);
    assert_eq!(names("rs", "impl<T: Into<Vec<u8>>> Foo<T> {}"), vec!["Foo"]);
    assert_eq!(names("rs", "impl<F: Fn(u8) -> u8> Foo<F> {}"), vec!["Foo"]);
    assert_eq!(names("rs", "impl Foo {}"), vec!["Foo"]);
    assert_eq!(names("rs", "impl(A) {}"), vec!["A)"]);
    assert_eq!(names("rs", "impl(<T as Make>::Made) {}"), vec!["T"]);
    assert_eq!(names("rs", "impl<T"), vec!["T"]);
    assert!(names("rs", "impl<T>").is_empty());
}

#[test]
fn a_keyword_is_a_whole_word() {
    let rest = |line: &str, kw: &str| {
        let v: Vec<char> = line.chars().collect();
        strip_keyword(&v, kw).map(|r| r.iter().collect::<String>())
    };
    assert_eq!(rest("fn_ptr = 1", "fn"), None);
    assert_eq!(rest("fnord", "fn"), None);
    assert_eq!(rest("fn", "fn"), Some(String::new()));
    assert_eq!(rest("fn \t x", "fn"), Some("x".to_string()));
    assert_eq!(rest("const(", "const"), Some("(".to_string()));
    assert_eq!(rest("impl<T> X", "impl"), Some("<T> X".to_string()));
    assert_eq!(rest("let x", "fn"), None);
    assert!(names("rs", "fn_ptr = 1").is_empty());
}

#[test]
fn two_texts_have_the_symbols_of_each() {
    let (a, b) = ("fn a() {}\r", "\nstruct B;\n");
    let mut both = names("rs", a);
    both.extend(names("rs", b));
    assert_eq!(both, vec!["a", "B"]);
    assert_eq!(names("rs", &format!("{a}\n{b}")), both);
}
