use spades_runner::finder::SeqReads;
use spades_runner::supervisor::{assemble_reads, Action, Event, Phase, RunError, Supervisor};

fn sample(id: &str) -> SeqReads {
    SeqReads {
        dir: format!("in/{}", id),
        id: id.to_string(),
        read_1: format!("in/{}/x_R1.fq.gz", id),
        read_2: format!("in/{}/x_R2.fq.gz", id),
        singleton: None,
    }
}

fn batch(ids: &[&str]) -> Supervisor {
    let reads: Vec<SeqReads> = ids.iter().map(|id| sample(id)).collect();
    assemble_reads(reads, &None, &Some("out".to_string()), &None)
}

fn started(batch: &mut Supervisor) {
    assert!(matches!(batch.step(Event::Start), Action::CheckRoot { .. }));
    assert!(matches!(batch.step(Event::RootStatus { exists: false }), Action::Prepare { .. }));
}

fn run_index(action: &Action) -> Option<usize> {
    match action {
        Action::Run { index, .. } => Some(*index),
        _ => None,
    }
}

#[test]
fn a_batch_begins_by_looking_for_its_output_directory() {
    let mut b = batch(&["a"]);
    assert_eq!(b.phase, Phase::Idle);
    assert_eq!(b.root, "out");
    assert_eq!(b.links, "out/contig_symlinks");
    match b.step(Event::Start) {
        Action::CheckRoot { root } => assert_eq!(root, "out"),
        _ => panic!("wrong order"),
    }
}

#[test]
fn the_default_output_directory() {
    let b = assemble_reads(Vec::new(), &Some(2), &None, &Some("--meta".to_string()));
    assert_eq!(b.root, "assemblies");
    assert_eq!(b.links, "assemblies/contig_symlinks");
    assert_eq!(b.threads, Some(2));
    assert_eq!(b.args, Some("--meta".to_string()));
    assert_eq!(b.cursor, 0);
}

#[test]
fn an_existing_output_directory_ends_the_batch_before_any_run() {
    let mut b = batch(&["a", "b"]);
    b.step(Event::Start);
    match b.step(Event::RootStatus { exists: true }) {
        Action::Abort { error, root } => {
            assert_eq!(error, RunError::OutputDirectoryExists);
            assert_eq!(root, "out");
        }
        _ => panic!("the batch went on"),
    }
    assert_eq!(b.phase, Phase::Aborted);
    for _ in 0..3 {
        assert!(matches!(b.step(Event::Done), Action::Rest));
        assert!(matches!(b.step(Event::Start), Action::Rest));
        assert!(matches!(b.step(Event::RootStatus { exists: false }), Action::Rest));
        assert!(matches!(b.step(Event::Exited { success: true }), Action::Rest));
        assert!(matches!(b.step(Event::Located { resolved: None }), Action::Rest));
    }
    assert_eq!(b.phase, Phase::Aborted);
    assert_eq!(b.cursor, 0);
}

#[test]
fn a_fresh_output_directory_is_prepared() {
    let mut b = batch(&["a", "b"]);
    b.step(Event::Start);
    match b.step(Event::RootStatus { exists: false }) {
        Action::Prepare { root, links, notice } => {
            assert_eq!(root, "out");
            assert_eq!(links, "out/contig_symlinks");
            assert_eq!(notice, "\x1b[0;33mTotal samples: 2\n\x1b[0m\n");
        }
        _ => panic!("wrong order"),
    }
}

#[test]
fn a_result_that_exists_is_linked() {
    let mut b = batch(&["a"]);
    started(&mut b);
    match b.step(Event::Done) {
        Action::Run { index, call } => {
            assert_eq!(index, 0);
            assert_eq!(call.program, "spades.py");
            assert_eq!(
                call.args,
                vec!["--pe1-1", "in/a/x_R1.fq.gz", "--pe1-2", "in/a/x_R2.fq.gz", "-o", "out/a", "--careful"]
            );
        }
        _ => panic!("the first sample was not run"),
    }
    match b.step(Event::Exited { success: true }) {
        Action::Locate { index, path } => {
            assert_eq!(index, 0);
            assert_eq!(path, "out/a/contigs.fasta");
        }
        _ => panic!("the result was not looked for"),
    }
    match b.step(Event::Located { resolved: Some("/work/out/a/contigs.fasta".to_string()) }) {
        Action::Link { index, target, link, .. } => {
            assert_eq!(index, 0);
            assert_eq!(target, "/work/out/a/contigs.fasta");
            assert_eq!(link, "out/contig_symlinks/a_contigs.fasta");
        }
        _ => panic!("the result was not linked"),
    }
    assert!(matches!(b.step(Event::Done), Action::Finish));
    assert_eq!(b.phase, Phase::Finished);
}

#[test]
fn a_result_that_is_missing_is_reported_and_the_batch_goes_on() {
    let mut b = batch(&["a", "b"]);
    started(&mut b);
    b.step(Event::Done);
    b.step(Event::Exited { success: true });
    match b.step(Event::Located { resolved: None }) {
        Action::ReportMissing { index, notice } => {
            assert_eq!(index, 0);
            assert!(notice.contains("SPAdes HAS FAILED"));
        }
        _ => panic!("a missing result was not reported"),
    }
    assert_eq!(run_index(&b.step(Event::Done)), Some(1));
}

#[test]
fn a_failed_run_does_not_stop_the_batch() {
    let mut b = batch(&["a", "b"]);
    started(&mut b);
    assert_eq!(run_index(&b.step(Event::Done)), Some(0));
    match b.step(Event::Exited { success: false }) {
        Action::ReportFailure { index } => assert_eq!(index, 0),
        _ => panic!("the failure was not reported"),
    }
    match b.step(Event::Done) {
        Action::Run { index, call } => {
            assert_eq!(index, 1);
            assert_eq!(call.args[5], "out/b");
        }
        _ => panic!("the next sample was not run"),
    }
    b.step(Event::Exited { success: false });
    assert!(matches!(b.step(Event::Done), Action::Finish));
}

#[test]
fn every_sample_is_run_once_whatever_happens() {
    let mut b = batch(&["a", "b", "c", "d"]);
    started(&mut b);
    let mut runs = Vec::new();
    let mut action = b.step(Event::Done);
    let mut n = 0;
    while let Some(index) = run_index(&action) {
        runs.push(index);
        action = match n % 3 {
            0 => {
                b.step(Event::Exited { success: false });
                b.step(Event::Done)
            }
            1 => {
                b.step(Event::Exited { success: true });
                b.step(Event::Located { resolved: None });
                b.step(Event::Done)
            }
            _ => {
                b.step(Event::Exited { success: true });
                b.step(Event::Located { resolved: Some("/r".to_string()) });
                b.step(Event::Done)
            }
        };
        n += 1;
    }
    assert_eq!(runs, vec![0, 1, 2, 3]);
    assert!(matches!(action, Action::Finish));
    assert!(matches!(b.step(Event::Done), Action::Rest));
}

#[test]
fn a_batch_of_no_samples_is_over_at_once() {
    let mut b = batch(&[]);
    started(&mut b);
    assert!(matches!(b.step(Event::Done), Action::Finish));
}

#[test]
fn events_that_are_not_waited_for_change_nothing() {
    let mut b = batch(&["a"]);
    assert!(matches!(b.step(Event::Done), Action::Rest));
    assert!(matches!(b.step(Event::Exited { success: true }), Action::Rest));
    assert_eq!(b.phase, Phase::Idle);
    started(&mut b);
    b.step(Event::Done);
    assert!(matches!(b.step(Event::Done), Action::Rest));
    assert!(matches!(b.step(Event::Located { resolved: None }), Action::Rest));
    assert_eq!(b.phase, Phase::Running);
    assert_eq!(b.cursor, 0);
}
