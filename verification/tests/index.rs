use marlin::index::{
    build, indexable, remove_file, skip_dir, skip_file, tokenize, update_file, Elapsed, FileEntry,
    Index, SourceFile, Timestamp,
};
use marlin::refresh::{diff_against, index_file, RefreshState, Scanned, Stamp};
use marlin::search::{
    evidence, extract_snippet, format_results, format_symbol_results, full_path, search,
    search_symbols, set_snippet, Score,
};
use marlin::terms::TermTable;

fn never() -> Timestamp {
    Timestamp { secs: 0, nanos: 0 }
}

fn no_time() -> Elapsed {
    Elapsed { secs: 0, nanos: 0 }
}

fn source(path: &str, text: &str) -> SourceFile {
    SourceFile { path: path.to_string(), text: Some(text.to_string()) }
}

fn entry(path: &str, tf: &[(&str, usize)], total: usize, symbols: &[&str]) -> FileEntry {
    let mut table = TermTable::new();
    for (t, n) in tf {
        table.set(t, *n);
    }
    FileEntry {
        path: path.to_string(),
        tf: table,
        total,
        symbols: symbols.iter().map(|s| s.to_string()).collect(),
    }
}

fn index_of(files: Vec<FileEntry>) -> Index {
    let n = files.len();
    Index {
        files,
        df: TermTable::new(),
        file_count: n,
        term_count: 0,
        built_at: never(),
        work_dir: ".".to_string(),
    }
}

/// The weight of each file: how often a term occurs times how rare it is, and
/// three more for a file that declares it.
fn scores(idx: &Index, query: &str) -> Vec<Score> {
    let n = idx.file_count as f64;
    let mut all = Vec::new();
    for i in 0..idx.files.len() {
        let mut score = 0.0f64;
        for e in evidence(idx, i, query) {
            let tf = if e.total == 0 { 0.0 } else { e.count as f64 / e.total as f64 };
            score += tf * (n / e.df as f64 + 1.0).ln();
            if e.declared {
                score += 3.0;
            }
        }
        let order = if score > 0.0 { score.to_bits() } else { 0 };
        all.push(Score { order, shown: format!("{:.3}", score) });
    }
    all
}

#[test]
fn search_symbols_finds_definitions() {
    let idx = index_of(vec![entry("a.rs", &[], 0, &["connect"]), entry("b.rs", &[], 0, &["other"])]);
    let hits = search_symbols(&idx, "connect", 5);
    assert_eq!(hits.len(), 1);
    assert!(hits[0].is_symbol);
    assert_eq!(hits[0].path, "a.rs");
}

#[test]
fn symbol_hits_boost_search_ranking() {
    // b.rs defines "widget"; a.rs merely mentions it once in text.
    let idx = index_of(vec![
        entry("a.rs", &[("widget", 1)], 2, &[]),
        entry("b.rs", &[], 0, &["Widget"]),
    ]);
    let all = scores(&idx, "widget");
    let results = search(&idx, "widget", 5, &all);
    assert_eq!(results[0].path, "b.rs");
}

#[test]
fn diff_detects_changed_files() {
    let scan = |size: u64| vec![Scanned { path: "a.txt".to_string(), stamp: Stamp { mtime: 1, size } }];
    let (changed, state) = diff_against(&RefreshState::default(), &scan(11));
    assert_eq!(changed.len(), 1, "initial scan should report a.txt");
    let (changed2, _) = diff_against(&state, &scan(11));
    assert!(changed2.is_empty(), "unchanged scan should report nothing");
    let (changed3, _) = diff_against(&state, &scan(17));
    assert_eq!(changed3.len(), 1, "modified file should be reported");
}

#[test]
fn a_file_that_is_gone_is_reported() {
    let found = vec![
        Scanned { path: "a.txt".to_string(), stamp: Stamp { mtime: 1, size: 1 } },
        Scanned { path: "b.txt".to_string(), stamp: Stamp { mtime: 1, size: 1 } },
    ];
    let (_, state) = diff_against(&RefreshState::default(), &found);
    let left = vec![Scanned { path: "a.txt".to_string(), stamp: Stamp { mtime: 1, size: 1 } }];
    let (changed, next) = diff_against(&state, &left);
    assert_eq!(changed, vec!["b.txt".to_string()]);
    let (again, _) = diff_against(&next, &left);
    assert!(again.is_empty());
}

#[test]
fn a_file_touched_at_another_time_is_reported() {
    let at = |mtime: i64| vec![Scanned { path: "a.txt".to_string(), stamp: Stamp { mtime, size: 5 } }];
    let (_, state) = diff_against(&RefreshState::default(), &at(1));
    assert_eq!(diff_against(&state, &at(2)).0, vec!["a.txt".to_string()]);
}

#[test]
fn tokenize_keeps_words_of_two_to_forty_bytes() {
    let long = "x".repeat(41);
    let fits = "y".repeat(40);
    let text = format!("a Foo_bar, ÉTÉ {long} {fits}");
    assert_eq!(
        tokenize(&text),
        vec!["foo_bar".to_string(), "été".to_string(), fits]
    );
}

#[test]
fn some_directories_and_files_are_left_out() {
    assert!(skip_dir("node_modules"));
    assert!(skip_dir(".git"));
    assert!(!skip_dir("src"));
    assert!(skip_file("logo.PNG"));
    assert!(!skip_file("main.rs"));
    assert!(indexable("src/main.rs"));
    assert!(!indexable("src/logo.png"));
}

#[test]
fn build_counts_files_terms_and_symbols() {
    let found = vec![
        source("a.rs", "fn connect() {}\nconnect connect\n"),
        source("b.rs", "struct Widget;\n"),
        source("empty.rs", ""),
        SourceFile { path: "unread.rs".to_string(), text: None },
        source("logo.png", "fn hidden() {}\n"),
    ];
    let (idx, stats) = build("/w", &found, never(), no_time());
    assert_eq!(stats.files, 2);
    assert_eq!(stats.symbols, 2);
    assert_eq!(stats.terms, 4);
    assert_eq!(idx.file_count, 2);
    assert_eq!(idx.term_count, 4);
    assert_eq!(idx.files[0].path, "a.rs");
    assert_eq!(idx.files[0].total, 4);
    assert_eq!(idx.files[0].tf.get("connect"), Some(3));
    assert_eq!(idx.df.get("connect"), Some(1));
    assert_eq!(idx.df.get("widget"), Some(1));
    assert_eq!(idx.work_dir, "/w");
}

#[test]
fn removing_a_file_lowers_the_frequencies() {
    let found = vec![source("a.rs", "fn shared() {}\n"), source("b.rs", "shared only\n")];
    let (mut idx, _) = build("/w", &found, never(), no_time());
    assert_eq!(idx.df.get("shared"), Some(2));
    remove_file(&mut idx, "/w/b.rs");
    assert_eq!(idx.file_count, 1);
    assert_eq!(idx.df.get("shared"), Some(1));
    assert_eq!(idx.df.get("only"), Some(0));
    assert_eq!(idx.term_count, idx.df.len());
    remove_file(&mut idx, "/w/unknown.rs");
    assert_eq!(idx.file_count, 1);
}

#[test]
fn updating_a_file_takes_the_place_of_its_entry() {
    let found = vec![source("a.rs", "alpha beta\n"), source("b.rs", "alpha\n")];
    let (mut idx, _) = build("/w", &found, never(), no_time());
    update_file(&mut idx, "/w/a.rs", &Some("gamma\n".to_string()));
    assert_eq!(idx.file_count, 2);
    assert_eq!(idx.df.get("alpha"), Some(1));
    assert_eq!(idx.df.get("beta"), Some(0));
    assert_eq!(idx.df.get("gamma"), Some(1));
    update_file(&mut idx, "/w/new.rs", &Some("delta delta\n".to_string()));
    assert_eq!(idx.file_count, 3);
    assert_eq!(idx.df.get("delta"), Some(1));
}

#[test]
fn an_exact_definition_ranks_above_one_that_holds_the_name() {
    let idx = index_of(vec![
        entry("a.rs", &[], 0, &["reconnect"]),
        entry("b.rs", &[], 0, &["Connect"]),
        entry("c.rs", &[], 0, &["close"]),
    ]);
    let hits = search_symbols(&idx, "connect", 5);
    assert_eq!(hits.len(), 2);
    assert_eq!(hits[0].path, "b.rs");
    assert_eq!(hits[0].score.shown, "10.000");
    assert_eq!(hits[1].path, "a.rs");
    assert_eq!(hits[1].score.shown, "6.000");
    assert_eq!(search_symbols(&idx, "connect", 1).len(), 1);
}

#[test]
fn a_search_without_terms_finds_nothing() {
    let idx = index_of(vec![entry("a.rs", &[("widget", 1)], 1, &[])]);
    let all = scores(&idx, "!");
    assert!(search(&idx, "!", 5, &all).is_empty());
}

#[test]
fn equal_scores_keep_the_order_of_the_index() {
    let idx = index_of(vec![
        entry("a.rs", &[("term", 1)], 2, &[]),
        entry("b.rs", &[("term", 1)], 2, &[]),
        entry("c.rs", &[("term", 2)], 2, &[]),
        entry("d.rs", &[], 2, &[]),
    ]);
    let all = scores(&idx, "term");
    let paths: Vec<String> = search(&idx, "term", 10, &all).into_iter().map(|r| r.path).collect();
    assert_eq!(paths, vec!["c.rs".to_string(), "a.rs".to_string(), "b.rs".to_string()]);
    assert_eq!(search(&idx, "term", 2, &all).len(), 2);
}

#[test]
fn results_are_shown_with_their_scores() {
    let mut idx = index_of(vec![
        entry("a.rs", &[("widget", 1)], 2, &[]),
        entry("b.rs", &[], 0, &["Widget"]),
    ]);
    idx.work_dir = "/w".to_string();
    let all = scores(&idx, "widget");
    let mut results = search(&idx, "widget", 5, &all);
    assert_eq!(full_path(&idx, &results[0]), "/w/b.rs");
    let terms = vec!["widget".to_string()];
    set_snippet(&mut results[0], &Some("use x;\n  struct Widget;\n".to_string()), &terms);
    assert_eq!(
        format_results(&results, "widget"),
        "Search results for \"widget\":\n  ⚡ [3.000] b.rs\n          struct Widget;\n     [0.549] a.rs\n"
    );
    assert_eq!(format_results(&Vec::new(), "a\"b"), "No results for \"a\\\"b\"");
}

#[test]
fn definitions_are_shown_with_their_scores() {
    let idx = index_of(vec![entry("a.rs", &[], 0, &["connect"])]);
    let hits = search_symbols(&idx, "Connect", 5);
    assert_eq!(
        format_symbol_results(&hits, "Connect"),
        "Definitions of \"Connect\":\n  [10.000] a.rs\n"
    );
    assert_eq!(format_symbol_results(&Vec::new(), "x"), "No definitions for \"x\"");
}

#[test]
fn a_snippet_is_cut_at_a_character() {
    let terms = vec!["needle".to_string()];
    assert_eq!(extract_snippet(&None, &terms), "");
    assert_eq!(extract_snippet(&Some("nothing here".to_string()), &terms), "");
    assert_eq!(extract_snippet(&Some("a\n  the NEEDLE  \n".to_string()), &terms), "the NEEDLE");
    let line = format!("needle {}é tail", "x".repeat(112));
    let cut = extract_snippet(&Some(line), &terms);
    assert_eq!(cut, format!("needle {}…", "x".repeat(112)));
}

#[test]
fn the_file_of_an_index_is_named_by_a_hash() {
    // FNV-1a of the empty text, then of "a".
    assert_eq!(index_file(""), "cbf29ce484222325.json");
    assert_eq!(index_file("a"), "af63dc4c8601ec8c.json");
}

#[test]
fn two_texts_have_the_terms_of_each() {
    let (a, b) = ("Hello, x my_name", "wörld 42!");
    let mut both = tokenize(a);
    both.extend(tokenize(b));
    assert_eq!(both, vec!["hello", "my_name", "wörld", "42"]);
    assert_eq!(tokenize(&format!("{a} {b}")), both);
}

#[test]
fn a_second_update_changes_nothing() {
    let files = vec![source("a.rs", "fn alpha() {}"), source("b.rs", "fn beta() {}")];
    let (mut idx, _) = build("/w", &files, never(), no_time());
    let look = |idx: &Index| {
        let paths: Vec<String> = idx.files.iter().map(|f| f.path.clone()).collect();
        let totals: Vec<usize> = idx.files.iter().map(|f| f.total).collect();
        let df = ["alpha", "beta", "gamma", "fn"].map(|t| idx.df.get(t));
        (paths, totals, df, idx.file_count, idx.term_count)
    };
    update_file(&mut idx, "/w/a.rs", &Some("fn gamma() {}".to_string()));
    let once = look(&idx);
    assert_eq!(once.0, vec!["b.rs", "a.rs"]);
    assert_eq!(once.2, [Some(0), Some(1), Some(1), Some(2)]);
    update_file(&mut idx, "/w/a.rs", &Some("fn gamma() {}".to_string()));
    assert_eq!(look(&idx), once);
    update_file(&mut idx, "/w/a.rs", &None);
    assert_eq!(look(&idx), once);
}

#[test]
fn the_first_scan_reports_what_is_indexed() {
    let stamp = Stamp { mtime: 1, size: 11 };
    let found = vec![
        Scanned { path: "a.txt".to_string(), stamp },
        Scanned { path: "b.png".to_string(), stamp },
    ];
    let (changed, _) = diff_against(&RefreshState::default(), &found);
    assert_eq!(changed, vec!["a.txt"]);
}
