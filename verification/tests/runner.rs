use spades_runner::finder::SeqReads;
use spades_runner::runner::{check_spades, get_outdir, LinkPlan, Runner};

fn reads(id: &str, singleton: Option<&str>) -> SeqReads {
    SeqReads {
        dir: "in/x".to_string(),
        id: id.to_string(),
        read_1: "in/x/a_R1.fq.gz".to_string(),
        read_2: "in/x/a_R2.fq.gz".to_string(),
        singleton: singleton.map(|s| s.to_string()),
    }
}

#[test]
fn outdir_test() {
    let path = String::from("test/assemblies/");
    let output = Some(path.clone());
    let outdir = get_outdir(&output);

    assert_eq!(String::from(&path), outdir);
}

#[test]
fn the_output_directory_defaults_to_assemblies() {
    assert_eq!(get_outdir(&None), "assemblies");
}

#[test]
fn each_sample_writes_below_the_output_directory() {
    let input = reads("s1", None);
    let run = Runner::new("assemblies", "assemblies/contig_symlinks", &input, &None, &None);
    assert_eq!(run.output, "assemblies/s1");
    assert_eq!(run.symlink_dir, "assemblies/contig_symlinks");
    assert_eq!(run.contigs(), "assemblies/s1/contigs.fasta");
}

#[test]
fn default_arguments() {
    let input = reads("s1", None);
    let run = Runner::new("out", "out/contig_symlinks", &input, &None, &None);
    assert_eq!(
        run.call_spades(),
        vec!["--pe1-1", "in/x/a_R1.fq.gz", "--pe1-2", "in/x/a_R2.fq.gz", "-o", "out/s1", "--careful"]
    );
}

#[test]
fn the_callers_flags_replace_the_default_and_stay_one_argument() {
    let input = reads("s1", None);
    let args = Some("--meta --only-assembler".to_string());
    let run = Runner::new("out", "out/contig_symlinks", &input, &None, &args);
    assert_eq!(
        run.call_spades(),
        vec![
            "--pe1-1",
            "in/x/a_R1.fq.gz",
            "--pe1-2",
            "in/x/a_R2.fq.gz",
            "-o",
            "out/s1",
            "--meta --only-assembler"
        ]
    );
}

#[test]
fn singleton_and_threads_come_last() {
    let input = reads("s1", Some("in/x/a_singleton.fq.gz"));
    let threads = Some(16);
    let run = Runner::new("out", "out/contig_symlinks", &input, &threads, &None);
    assert_eq!(
        run.call_spades(),
        vec![
            "--pe1-1",
            "in/x/a_R1.fq.gz",
            "--pe1-2",
            "in/x/a_R2.fq.gz",
            "-o",
            "out/s1",
            "--careful",
            "--pe1-s",
            "in/x/a_singleton.fq.gz",
            "--threads",
            "16"
        ]
    );
}

#[test]
fn a_sample_without_reverse_read_is_run_with_an_empty_argument() {
    let mut input = reads("s1", None);
    input.read_2 = String::new();
    let run = Runner::new("out", "out/contig_symlinks", &input, &None, &None);
    assert_eq!(
        run.call_spades(),
        vec!["--pe1-1", "in/x/a_R1.fq.gz", "--pe1-2", "", "-o", "out/s1", "--careful"]
    );
}

#[test]
fn settings_summary() {
    let input = reads("s1", None);
    let run = Runner::new("out", "out/contig_symlinks", &input, &None, &None);
    assert_eq!(
        run.print_settings(),
        "ID\t\t: s1\nInput R1\t: in/x/a_R1.fq.gz\nInput R2\t: in/x/a_R2.fq.gz\nOutput\t\t: out/s1\n\n"
    );
}

#[test]
fn settings_summary_with_singleton_and_flags() {
    let input = reads("s1", Some("in/x/a_s.fq.gz"));
    let args = Some("--meta".to_string());
    let threads = Some(4);
    let run = Runner::new("out", "out/contig_symlinks", &input, &threads, &args);
    assert_eq!(
        run.print_settings(),
        "ID\t\t: s1\nInput R1\t: in/x/a_R1.fq.gz\nInput R2\t: in/x/a_R2.fq.gz\n\
         Singleton\t: in/x/a_s.fq.gz\nOutput\t\t: out/s1\nOpt params\t: --meta\n\n"
    );
}

#[test]
fn what_is_started_for_a_sample() {
    let input = reads("s1", None);
    let run = Runner::new("out", "out/contig_symlinks", &input, &None, &None);
    let call = run.run_spades();
    assert_eq!(call.program, "spades.py");
    assert_eq!(call.args, run.call_spades());
    assert_eq!(call.settings, run.print_settings());
    let rule = "=".repeat(43);
    assert_eq!(call.header, format!("\x1b[0;33m{} Processing s1 {}=\n\x1b[0m", rule, rule));
}

#[test]
fn a_result_is_linked_under_the_samples_name() {
    let input = reads("s1", None);
    let run = Runner::new("out", "out/contig_symlinks", &input, &None, &None);
    match run.create_symlink(Some("/abs/out/s1/contigs.fasta".to_string())) {
        LinkPlan::Link { target, link, report } => {
            assert_eq!(target, "/abs/out/s1/contigs.fasta");
            assert_eq!(link, "out/contig_symlinks/s1_contigs.fasta");
            assert_eq!(
                report,
                "\x1b[0;32mDONE!\x1b[0m\n\nContig Path\nFile\t\t: out/s1/contigs.fasta\n\
                 Symlink\t\t: out/contig_symlinks/s1_contigs.fasta\n\n"
            );
        }
        LinkPlan::Missing { .. } => panic!("no link for a result that exists"),
    }
}

#[test]
fn a_missing_result_is_reported_and_not_linked() {
    let input = reads("s1", None);
    let run = Runner::new("out", "out/contig_symlinks", &input, &None, &None);
    match run.create_symlink(None) {
        LinkPlan::Missing { notice } => assert_eq!(
            notice,
            "\x1b[41m[ERROR]\x1b[0m SPAdes HAS FAILED. PLEASE CHECK SPAdes OUTPUT ABOVE FOR DETAILS.\n\n"
        ),
        LinkPlan::Link { .. } => panic!("a link for a result that is missing"),
    }
}

#[test]
fn contig_report() {
    let input = reads("s1", None);
    let run = Runner::new("out", "links", &input, &None, &None);
    assert_eq!(
        run.print_contig_path("a/contigs.fasta", "links/s1_contigs.fasta"),
        "\nContig Path\nFile\t\t: a/contigs.fasta\nSymlink\t\t: links/s1_contigs.fasta\n\n"
    );
}

#[test]
fn version_line() {
    assert_eq!(check_spades(Some("SPAdes genome assembler v3.15.2\n")), "[OK]\tSPAdes genome assembler v3.15.2\n");
    assert_eq!(check_spades(Some("")), "[OK]\t\n");
    assert_eq!(check_spades(None), "[NOT FOUND]\tSPAdes\n");
}
