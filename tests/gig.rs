use gig::alias::AliasTable;
use gig::args::Args;
use gig::catalog::{build_catalog, canonical_from_folded, canonical_name, completion_candidates};
use gig::output::render_output;
use gig::resolve::{folded_matches, matches_term, resolve_terms};
use gig::simpline::{split_words, SimpHighlighter, SimpHinter, SimpLineReader};

fn strings(v: &[&str]) -> Vec<String> {
    v.iter().map(|s| s.to_string()).collect()
}

#[test]
fn known_aliases_resolve() {
    let t = AliasTable::known();
    assert_eq!(t.resolve("vscode"), "visualstudiocode");
    assert_eq!(t.resolve("c#"), "csharp");
}

#[test]
fn unknown_terms_resolve_to_themselves() {
    let t = AliasTable::known();
    for term in ["rust", "VSCode", "", "c", "csharp"] {
        assert_eq!(t.resolve(term), term);
    }
}

#[test]
fn insert_replaces_an_existing_alias() {
    let mut t = AliasTable::new();
    t.insert("js".to_string(), "javascript".to_string());
    t.insert("py".to_string(), "python".to_string());
    t.insert("js".to_string(), "node".to_string());
    assert_eq!(t.resolve("js"), "node");
    assert_eq!(t.keys(), strings(&["js", "py"]));
}

#[test]
fn canonical_name_strips_suffix_and_lowercases() {
    assert_eq!(canonical_name("Node.gitignore"), Some("node".to_string()));
    assert_eq!(canonical_name("NODE.GITIGNORE"), Some("node".to_string()));
    assert_eq!(canonical_name("README.md"), None);
    assert_eq!(canonical_name(".gitignore"), Some(String::new()));
    assert_eq!(canonical_from_folded("rust.gitignore"), Some("rust".to_string()));
    assert_eq!(canonical_from_folded("Rust.GITIGNORE"), None);
}

#[test]
fn catalog_skips_other_files_and_keeps_order() {
    let files = strings(&["Zig.gitignore", "LICENSE", "Ada.gitignore"]);
    let c = build_catalog(&files);
    assert_eq!(c.len(), 2);
    assert_eq!(c[0].name, "zig");
    assert_eq!(c[0].file_name, "Zig.gitignore");
    assert_eq!(c[0].source, 0);
    assert_eq!(c[1].name, "ada");
    assert_eq!(c[1].source, 2);
}

#[test]
fn catalog_names_reconstruct_file_names() {
    let files = strings(&["Go.gitignore", "Python.GitIgnore", "notes.txt"]);
    for e in build_catalog(&files) {
        assert_eq!(format!("{}.gitignore", e.name), files[e.source].to_lowercase());
    }
}

#[test]
fn matching_ignores_case() {
    let t = AliasTable::known();
    assert!(matches_term(&t, "Node", "NODE.gitignore"));
    assert!(matches_term(&t, "node", "Node.GITIGNORE"));
    assert!(matches_term(&t, "vscode", "VisualStudioCode.gitignore"));
    assert!(!matches_term(&t, "VSCode", "VisualStudioCode.gitignore"));
    assert!(!matches_term(&t, "nod", "Node.gitignore"));
    assert!(folded_matches("node", "node.gitignore"));
    assert!(!folded_matches("node", "NODE.gitignore"));
}

#[test]
fn no_match_gives_empty_result() {
    let t = AliasTable::known();
    let c = build_catalog(&strings(&["Node.gitignore", "Rust.gitignore"]));
    let r = resolve_terms(&t, &strings(&["cobol", "fortran"]), &c);
    assert!(r.is_empty());
    assert!(resolve_terms(&t, &Vec::new(), &c).is_empty());
}

#[test]
fn resolution_order_is_file_then_term_with_duplicates() {
    let t = AliasTable::known();
    let c = build_catalog(&strings(&["Rust.gitignore", "VisualStudioCode.gitignore"]));
    let r = resolve_terms(&t, &strings(&["vscode", "rust", "visualstudiocode"]), &c);
    assert_eq!(r, vec![0, 1, 1]);
}

#[test]
fn no_hint_with_cursor_inside_line() {
    let h = SimpHinter::new(strings(&["python", "pytorch"]));
    assert_eq!(h.hint("py thon", 2), None);
}

#[test]
fn hint_is_rest_of_first_candidate() {
    let h = SimpHinter::new(strings(&["python", "pytorch"]));
    assert_eq!(h.hint("py", 2), Some("thon".to_string()));
    assert_eq!(h.hint("pyt", 3), Some("hon".to_string()));
    assert_eq!(h.hint("pyto", 4), Some("rch".to_string()));
}

#[test]
fn used_candidate_is_not_offered_again() {
    let h = SimpHinter::new(strings(&["python", "pytorch"]));
    assert_eq!(h.hint("python py", 9), Some("torch".to_string()));
    let only = SimpHinter::new(strings(&["python"]));
    assert_eq!(only.hint("python py", 9), None);
    let go = SimpHinter::new(strings(&["go"]));
    assert_eq!(go.hint("django g", 8), None);
}

#[test]
fn no_hint_on_empty_line_trailing_space_or_full_word() {
    let h = SimpHinter::new(strings(&["node", "nodejs"]));
    assert_eq!(h.hint("", 0), None);
    assert_eq!(h.hint("n ", 2), None);
    assert_eq!(h.hint("x", 1), None);
    let exact = SimpHinter::new(strings(&["node"]));
    assert_eq!(exact.hint("rust node", 9), None);
}

#[test]
fn no_hint_after_any_trailing_whitespace() {
    let h = SimpHinter::new(strings(&["rust"]));
    assert_eq!(h.hint("go\t", 3), None);
    assert_eq!(h.hint("go\n", 3), None);
    assert_eq!(h.hint("go ", 3), None);
    assert_eq!(h.hint("go\tru", 5), Some("st".to_string()));
}

#[test]
fn hint_uses_last_word_only() {
    let h = SimpHinter::new(strings(&["node", "rust"]));
    assert_eq!(h.hint("node ru", 7), Some("st".to_string()));
}

#[test]
fn split_words_by_whitespace() {
    assert_eq!(split_words("  node  vscode\trust\n"), strings(&["node", "vscode", "rust"]));
    assert_eq!(split_words(""), Vec::<String>::new());
    assert_eq!(split_words(" \t "), Vec::<String>::new());
    assert_eq!(split_words("a\u{3000}b"), strings(&["a", "b"]));
}

#[test]
fn highlight_hint_dims() {
    let h = SimpHighlighter {};
    assert_eq!(h.highlight_hint("thon"), "\x1b[90mthon\x1b[0m");
}

#[test]
fn render_output_adds_newlines() {
    assert_eq!(render_output(&strings(&["a", "b\n"])), "a\nb\n\n");
    assert_eq!(render_output(&Vec::new()), "");
}

#[test]
fn candidates_are_names_then_aliases() {
    let c = build_catalog(&strings(&["Node.gitignore", "Rust.gitignore"]));
    let r = completion_candidates(&c, &AliasTable::known());
    assert_eq!(r, strings(&["node", "rust", "vscode", "c#"]));
}

#[test]
fn reader_keeps_prompt_and_completions() {
    let r = SimpLineReader::new("gig> ".to_string(), strings(&["python"]));
    assert_eq!(r.prompt(), "gig> ");
    assert_eq!(r.hinter().hint("py", 2), Some("thon".to_string()));
}

#[test]
fn interactive_only_without_terms() {
    assert!(Args { terms: Vec::new() }.is_interactive());
    assert!(!Args { terms: strings(&["node"]) }.is_interactive());
}

#[test]
fn direct_mode_end_to_end() {
    let files = strings(&["node.gitignore", "visualstudiocode.gitignore"]);
    let contents = strings(&["node_modules/", ".vscode/"]);
    let c = build_catalog(&files);
    let r = resolve_terms(&AliasTable::known(), &strings(&["node", "vscode"]), &c);
    let picked: Vec<String> = r.iter().map(|&k| contents[c[k].source].clone()).collect();
    assert_eq!(render_output(&picked), "node_modules/\n.vscode/\n");
}

#[test]
fn aliases_are_applied_once() {
    let mut t = AliasTable::new();
    t.insert("a".to_string(), "b".to_string());
    t.insert("b".to_string(), "c".to_string());
    assert_eq!(t.resolve("a"), "b");
    let c = build_catalog(&strings(&["b.gitignore", "c.gitignore"]));
    assert_eq!(resolve_terms(&t, &strings(&["a"]), &c), vec![0]);
}
