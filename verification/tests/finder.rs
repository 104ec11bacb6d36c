use spades_runner::boundary::TreeEntry;
use spades_runner::finder::{
    auto_find_cleaned_fastq, classify, discover, find_cleaned_fastq, get_cleaned_fastq,
    keep_sample, manifest_candidates, role_in, tree_candidates, Candidate, DiscoveryError, Role,
    SeqReads,
};
use spades_runner::parser::SeqDirs;
use std::path::PathBuf;

fn names(list: &[&str]) -> Vec<String> {
    list.iter().map(|s| s.to_string()).collect()
}

#[test]
fn find_cleaned_fastq_reads_test() {
    let input = "test_files/";
    let dirname = "trimmed";

    let res = auto_find_cleaned_fastq(&input, &dirname).unwrap();

    let path = PathBuf::from(input).join("trimmed_test");
    let r1 = path.join("some_seq_ABC123_R1.fq.gz");
    let r2 = path.join("some_seq_ABC123_R2.fq.gz");
    res.iter().for_each(|e| {
        assert_eq!(r1, PathBuf::from(&e.read_1));
        assert_eq!(r2, PathBuf::from(&e.read_2));
        assert_eq!(String::from("trimmed_test"), e.id);
    })
}

#[test]
fn get_cleaned_fastq_test() {
    let dir = "test_files/trimmed_test";
    let mut res = Vec::new();

    get_cleaned_fastq(&dir, &mut res, None).unwrap();
    let path = PathBuf::from(dir);
    let r1 = path.join("some_seq_ABC123_R1.fq.gz");
    let r2 = path.join("some_seq_ABC123_R2.fq.gz");
    res.iter().for_each(|e| {
        assert_eq!(r1, PathBuf::from(&e.read_1));
        assert_eq!(r2, PathBuf::from(&e.read_2));
    })
}

#[test]
fn reads_of_a_listed_directory() {
    let dir = "test_files/trimmed_test";
    let files = names(&[
        "test_files/trimmed_test/some_seq_ABC123_R1.fq.gz",
        "test_files/trimmed_test/some_seq_ABC123_R2.fq.gz",
    ]);
    let mut res = Vec::new();
    keep_sample(dir, &files, &mut res, None).unwrap();
    assert_eq!(res.len(), 1);
    assert_eq!(res[0].dir, dir);
    assert_eq!(res[0].id, "trimmed_test");
    assert_eq!(res[0].read_1, "test_files/trimmed_test/some_seq_ABC123_R1.fq.gz");
    assert_eq!(res[0].read_2, "test_files/trimmed_test/some_seq_ABC123_R2.fq.gz");
    assert_eq!(res[0].singleton, None);
}

#[test]
fn three_roles_in_one_directory_and_none_in_its_sibling() {
    let mut res = Vec::new();
    let files = names(&["root/a/X_R1.fq.gz", "root/a/X_R2.fq.gz", "root/a/X_SINGLETON.fq.gz"]);
    keep_sample("root/a", &files, &mut res, None).unwrap();
    keep_sample("root/b", &[], &mut res, None).unwrap();
    assert_eq!(res.len(), 1);
    assert_eq!(res[0].id, "a");
    assert_eq!(res[0].read_1, "root/a/X_R1.fq.gz");
    assert_eq!(res[0].read_2, "root/a/X_R2.fq.gz");
    assert_eq!(res[0].singleton, Some("root/a/X_SINGLETON.fq.gz".to_string()));
}

#[test]
fn a_directory_without_forward_read_is_dropped() {
    let mut res = Vec::new();
    keep_sample("root/a", &names(&["root/a/X_R2.fq.gz"]), &mut res, None).unwrap();
    assert!(res.is_empty());
    let files = names(&["root/a/X_R2.fq.gz", "root/a/X_singleton.fq.gz", "root/a/notes.f.g"]);
    keep_sample("root/a", &files, &mut res, Some("x".to_string())).unwrap();
    assert!(res.is_empty());
}

#[test]
fn a_forward_read_alone_is_kept() {
    let mut res = Vec::new();
    keep_sample("root/a", &names(&["root/a/X_R1.fq.gz"]), &mut res, None).unwrap();
    assert_eq!(res.len(), 1);
    assert_eq!(res[0].read_1, "root/a/X_R1.fq.gz");
    assert_eq!(res[0].read_2, "");
}

#[test]
fn roles_are_read_in_a_fixed_order() {
    assert_eq!(role_in("X_READ1.FQ.GZ"), Some(Role::Forward));
    assert_eq!(role_in("X_R1.FQ.GZ"), Some(Role::Forward));
    assert_eq!(role_in("X_READ2.FQ.GZ"), Some(Role::Reverse));
    assert_eq!(role_in("X_R2.FQ.GZ"), Some(Role::Reverse));
    assert_eq!(role_in("X_SINGLETON.FQ.GZ"), Some(Role::Singleton));
    assert_eq!(role_in("X.FQ.GZ"), None);
    assert_eq!(role_in("R2_OF_READ1.FQ.GZ"), Some(Role::Forward));
    assert_eq!(role_in("R2_R1.FQ.GZ"), Some(Role::Forward));
    assert_eq!(role_in("SINGLETON_R2.FQ.GZ"), Some(Role::Reverse));
    assert_eq!(role_in("x_r1.fq.gz"), None);
}

#[test]
fn letter_case_does_not_count() {
    assert_eq!(classify("dir/x_r1.fq.gz"), Some(Role::Forward));
    assert_eq!(classify("dir/x_Read2.fq.gz"), Some(Role::Reverse));
    assert_eq!(classify("dir/x_singleton.fq.gz"), Some(Role::Singleton));
    assert_eq!(classify("dir/x.fq.gz"), None);
    assert_eq!(classify("r1_runs/x.fq.gz"), Some(Role::Forward));
    assert_eq!(classify("dir/\u{17f}ingleton.fq.gz"), Some(Role::Singleton));
}

#[test]
fn the_last_file_of_a_role_wins() {
    let mut reads = SeqReads::new("d");
    reads.match_reads(&names(&["d/a_R1.fq.gz", "d/b_R2.fq.gz", "d/c_R1.fq.gz", "d/other.fq.gz"]));
    assert_eq!(reads.read_1, "d/c_R1.fq.gz");
    assert_eq!(reads.read_2, "d/b_R2.fq.gz");
    assert_eq!(reads.singleton, None);
    assert_eq!(reads.dir, "d");
    assert_eq!(reads.id, "");
}

#[test]
fn the_identifier_is_the_directory_below_the_root() {
    let mut reads = SeqReads::new("root/sampleA/trimmed");
    reads.get_id(None).unwrap();
    assert_eq!(reads.id, "sampleA");
    let mut reads = SeqReads::new("root/sampleA/trimmed");
    reads.get_id(Some("given".to_string())).unwrap();
    assert_eq!(reads.id, "given");
}

#[test]
fn a_directory_of_one_component_has_no_identifier() {
    let mut reads = SeqReads::new("trimmed");
    assert_eq!(reads.get_id(None), Err(DiscoveryError::InvalidDirectoryStructure));
    assert_eq!(reads.id, "");
    let mut reads = SeqReads::new("trimmed");
    assert_eq!(reads.get_id(Some("x".to_string())), Ok(()));
    let mut res = Vec::new();
    let r = keep_sample("trimmed", &names(&["trimmed/a_R1.fq.gz"]), &mut res, None);
    assert_eq!(r, Err(DiscoveryError::InvalidDirectoryStructure));
    assert!(res.is_empty());
}

#[test]
fn candidates_of_a_walked_tree() {
    let entry = |path: &str, is_dir: bool| TreeEntry { path: path.to_string(), is_dir };
    let tree = vec![
        entry("root", true),
        entry("root/sampleA", true),
        entry("root/sampleA/trimmed", true),
        entry("root/sampleA/trimmed/a_R1.fq.gz", false),
        entry("root/sampleB", true),
        entry("root/sampleB/raw", true),
        entry("root/sampleB/my_trimmed_reads", true),
        entry("root/trimmed.txt", false),
    ];
    let found = tree_candidates(&tree, "trimmed");
    let dirs: Vec<&str> = found.iter().map(|c| c.dir.as_str()).collect();
    assert_eq!(dirs, vec!["root/sampleA/trimmed", "root/sampleB/my_trimmed_reads"]);
    assert!(found.iter().all(|c| c.target.is_none()));
}

#[test]
fn filter_driven_discovery_names_samples_after_their_directory() {
    let tree = vec![
        TreeEntry { path: "root/sampleA/trimmed".to_string(), is_dir: true },
        TreeEntry { path: "root/sampleB/trimmed".to_string(), is_dir: true },
    ];
    let mut res = Vec::new();
    for c in tree_candidates(&tree, "trimmed") {
        let files = vec![format!("{}/x_R1.fq.gz", c.dir), format!("{}/x_R2.fq.gz", c.dir)];
        keep_sample(&c.dir, &files, &mut res, c.target).unwrap();
    }
    let ids: Vec<&str> = res.iter().map(|r| r.id.as_str()).collect();
    assert_eq!(ids, vec!["sampleA", "sampleB"]);
}

#[test]
fn candidates_of_a_manifest() {
    let dirs = vec![
        SeqDirs { id: "a".to_string(), dir: "x/".to_string() },
        SeqDirs { id: "b".to_string(), dir: "y/".to_string() },
    ];
    let found = manifest_candidates(&dirs);
    assert_eq!(found.len(), 2);
    assert_eq!(found[0].dir, "x/");
    assert_eq!(found[0].target, Some("a".to_string()));
    assert_eq!(found[1].dir, "y/");
    assert_eq!(found[1].target, Some("b".to_string()));
}

#[test]
fn a_malformed_directory_name_is_refused() {
    let seq = SeqReads::new("reads[");
    assert_eq!(seq.glob_fastq(), Err(DiscoveryError::InvalidPattern));
    let mut res = Vec::new();
    assert_eq!(
        get_cleaned_fastq("reads[", &mut res, Some("x".to_string())),
        Err(DiscoveryError::InvalidPattern)
    );
    let dirs = vec![
        SeqDirs { id: "a".to_string(), dir: "no_such_directory".to_string() },
        SeqDirs { id: "b".to_string(), dir: "reads***".to_string() },
    ];
    assert!(matches!(find_cleaned_fastq(&dirs), Err(DiscoveryError::InvalidPattern)));
}

#[test]
fn a_directory_that_is_not_there_holds_no_sample() {
    let seq = SeqReads::new("no_such_directory");
    assert_eq!(seq.glob_fastq(), Ok(Vec::new()));
    let dirs = vec![SeqDirs { id: "a".to_string(), dir: "no_such_directory".to_string() }];
    assert!(find_cleaned_fastq(&dirs).unwrap().is_empty());
    let candidates = vec![Candidate { dir: "no_such/directory".to_string(), target: None }];
    assert!(discover(&candidates).unwrap().is_empty());
}

#[test]
fn the_walk_reaches_directories_on_disk() {
    assert!(auto_find_cleaned_fastq("./src", "src").unwrap().is_empty());
    assert!(auto_find_cleaned_fastq("src", "no such name").unwrap().is_empty());
    assert!(matches!(
        auto_find_cleaned_fastq("src", "src"),
        Err(DiscoveryError::InvalidDirectoryStructure)
    ));
    assert!(auto_find_cleaned_fastq("no_such_directory", "").unwrap().is_empty());
}
