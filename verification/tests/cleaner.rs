use spades_runner::cleaner::{
    find_files, is_result_path, marker_dir, remove_contents, removal_for, removed_header, Found,
    Removal,
};
use spades_runner::finder::DiscoveryError;

fn file(path: &str) -> Found {
    Found { path: path.to_string(), is_file: true, is_dir: false }
}

fn dir(path: &str) -> Found {
    Found { path: path.to_string(), is_file: false, is_dir: true }
}

#[test]
fn cleaning_keeps_results_and_logs() {
    let contents = vec![
        file("out/s1/contigs.fasta"),
        file("out/s1/spades.log"),
        dir("out/s1/tmp_intermediate"),
        file("out/s1/warnings.log"),
    ];
    let gone = remove_contents(&contents);
    assert_eq!(gone.len(), 1);
    assert_eq!(gone[0].path, "out/s1/tmp_intermediate");
    assert!(gone[0].recursive);
}

#[test]
fn cleaning_removes_everything_else_in_order() {
    let contents = vec![
        dir("out/s1/K21"),
        file("out/s1/assembly_graph.fastg"),
        file("out/s1/contigs.fasta"),
        file("out/s1/contigs.paths"),
        dir("out/s1/contigs.fasta.d"),
        file("out/s1/scaffolds.fasta"),
        dir("out/s1/misc"),
    ];
    let gone: Vec<(String, bool)> =
        remove_contents(&contents).into_iter().map(|d| (d.path, d.recursive)).collect();
    let want: Vec<(String, bool)> = vec![
        ("out/s1/K21".to_string(), true),
        ("out/s1/assembly_graph.fastg".to_string(), false),
        ("out/s1/contigs.paths".to_string(), false),
        ("out/s1/contigs.fasta.d".to_string(), true),
        ("out/s1/misc".to_string(), true),
    ];
    assert_eq!(gone, want);
}

#[test]
fn a_directory_goes_whatever_it_is_called() {
    assert_eq!(removal_for(&dir("out/s1/contigs.fasta")), Removal::Directory);
    assert_eq!(removal_for(&dir("out/s1/anything")), Removal::Directory);
}

#[test]
fn what_is_neither_file_nor_directory_stays() {
    let gone = Found { path: "out/s1/broken_link".to_string(), is_file: false, is_dir: false };
    assert_eq!(removal_for(&gone), Removal::Keep);
    assert_eq!(removal_for(&file("out/s1/contigs.fasta")), Removal::Keep);
    assert_eq!(removal_for(&file("out/s1/x.tmp")), Removal::File);
}

#[test]
fn results_are_known_by_their_file_name() {
    assert!(is_result_path("out/s1/contigs.fasta"));
    assert!(is_result_path("out/s1/scaffolds.fasta"));
    assert!(is_result_path("out/s1/spades.log"));
    assert!(is_result_path("out/s1/warnings.log"));
    assert!(is_result_path("contigs.fasta"));
    assert!(!is_result_path("out/s1/my_contigs.fasta"));
    assert!(!is_result_path("out/s1/contigs.fasta.bak"));
    assert!(!is_result_path("out/contigs.fasta/x"));
    assert!(!is_result_path(""));
}

#[test]
fn a_marker_at_the_top_of_the_walk_cleans_the_directory_it_is_in() {
    assert_eq!(marker_dir("spades.log"), Some(String::new()));
    assert_eq!(marker_dir("./spades.log"), Some(".".to_string()));
    let contents = vec![file("contigs.fasta"), file("spades.log"), file("x.tmp"), dir("K21")];
    let gone: Vec<String> = remove_contents(&contents).into_iter().map(|d| d.path).collect();
    assert_eq!(gone, vec!["x.tmp", "K21"]);
}

#[test]
fn a_marker_names_the_directory_to_clean() {
    assert_eq!(marker_dir("out/s1/spades.log"), Some("out/s1".to_string()));
    assert_eq!(marker_dir("out/s1/warnings.log"), None);
    assert_eq!(marker_dir("out/s1/my_spades.log"), None);
    assert_eq!(marker_dir("out/s1"), None);
}

#[test]
fn the_heading_of_a_cleaning() {
    assert_eq!(removed_header(), "\x1b[0;33mRemoved files and directories:\x1b[0m\n");
}

#[test]
fn the_entries_of_a_directory_on_disk() {
    let found = find_files("src").unwrap();
    assert!(found.contains(&"src/lib.rs".to_string()));
    assert!(found.iter().all(|p| p.starts_with("src/")));
    assert!(find_files("no_such_directory").unwrap().is_empty());
    assert_eq!(find_files("x[").err(), Some(DiscoveryError::InvalidPattern));
}
