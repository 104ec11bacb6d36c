//! From input to a batch: a manifest, or a tree to search, becomes the list
//! of samples, and that list becomes a batch to run or a report to print.

use vstd::prelude::*;
use vstd::string::StringExecFns;
use crate::finder::{
    auto_find_cleaned_fastq, discovered, find_cleaned_fastq, manifest_places, opt_text, outcome,
    samples, tree_places, DiscoveryError, Node, Sample, SeqReads,
};
use crate::parser::{entries, parse_manifest, parse_seqdir, ManifestError, Refusal};
use crate::runner::{check_spades, labelled, labelled_opt, version_text};
use crate::supervisor::{assemble_reads, initial, total_samples, total_text, Batch, Supervisor};

verus! {

/// Why no samples came of an input.
#[derive(Debug)]
pub enum InputError {
    /// The manifest was refused.
    Manifest(ManifestError),
    /// The search for read files was given up.
    Discovery(DiscoveryError),
}

/// What an `InputError` holds.
pub enum InputRefusal {
    Manifest(Refusal),
    Discovery(DiscoveryError),
}

impl View for InputError {
    type V = InputRefusal;

    open spec fn view(&self) -> InputRefusal {
        match self {
            InputError::Manifest(e) => InputRefusal::Manifest(e@),
            InputError::Discovery(e) => InputRefusal::Discovery(*e),
        }
    }
}

/// The samples that the manifest `text` leads to when the search of its
/// entry at index `i` finds the files `listings[i]`.
pub open spec fn manifest_samples(text: Seq<char>, listings: Seq<Seq<Seq<char>>>) -> Result<
    Seq<Sample>,
    InputRefusal,
> {
    match parse_manifest(text) {
        Err(e) => Err(InputRefusal::Manifest(e)),
        Ok(declared) => match discovered(manifest_places(declared), listings, declared.len()) {
            Ok(found) => Ok(found),
            Err(e) => Err(InputRefusal::Discovery(e)),
        },
    }
}

/// The samples that the walked tree `tree` leads to when the search of its
/// candidate at index `i` finds the files `listings[i]`.
pub open spec fn tree_samples(
    tree: Seq<Node>,
    dirname: Seq<char>,
    listings: Seq<Seq<Seq<char>>>,
) -> Result<Seq<Sample>, DiscoveryError> {
    discovered(tree_places(tree, dirname), listings, tree_places(tree, dirname).len())
}

/// The lines of a dry run for one sample.
pub open spec fn dryrun_entry(s: Sample) -> Seq<char> {
    "\x1b[0;32mID\t\t: "@ + s.id + "\x1b[0m\n"@ + labelled("Dir\t\t: "@, s.dir) + labelled(
        "Read 1\t\t: "@,
        s.read_1,
    ) + labelled("Read 2\t\t: "@, s.read_2) + labelled_opt("Singleton\t: "@, s.singleton)
        + seq!['\n']
}

/// The lines of a dry run for each of `found`, in order.
pub open spec fn dryrun_entries(found: Seq<Sample>) -> Seq<char>
    decreases found.len(),
{
    if found.len() == 0 {
        Seq::empty()
    } else {
        dryrun_entries(found.drop_last()) + dryrun_entry(found.last())
    }
}

/// The report of a dry run that found `found`.
pub open spec fn dryrun_text(found: Seq<Sample>) -> Seq<char> {
    total_text(found.len()) + dryrun_entries(found)
}

/// A report or the error in its place, over what they hold.
pub open spec fn report_of<E: View>(r: Result<String, E>) -> Result<Seq<char>, E::V> {
    match r {
        Ok(text) => Ok(text@),
        Err(e) => Err(e@),
    }
}

/// A batch or the error in its place, over what they hold.
pub open spec fn batch_of<E: View>(r: Result<Supervisor, E>) -> Result<Batch, E::V> {
    match r {
        Ok(batch) => Ok(batch@),
        Err(e) => Err(e@),
    }
}

/// The report of a dry run for samples found or not.
pub open spec fn dryrun_of<E>(found: Result<Seq<Sample>, E>) -> Result<Seq<char>, E> {
    match found {
        Ok(list) => Ok(dryrun_text(list)),
        Err(e) => Err(e),
    }
}

/// The batch, yet to begin, for samples found or not.
pub open spec fn batch_for<E>(
    found: Result<Seq<Sample>, E>,
    threads: Option<usize>,
    outdir: Option<Seq<char>>,
    args: Option<Seq<char>>,
) -> Result<Batch, E> {
    match found {
        Ok(list) => Ok(initial(list, threads, outdir, args)),
        Err(e) => Err(e),
    }
}

/// The report on the programs that a batch needs: `found` is what the
/// assembler printed when asked for its version, where it could be started.
pub open spec fn dependencies_text(found: Option<Seq<char>>) -> Seq<char> {
    "\x1b[0;33mDependencies:\x1b[0m\n"@ + version_text(found) + seq!['\n']
}

/// The report on the programs that a batch needs, ready to be written out.
pub fn check_dependencies(found: Option<&str>) -> (out: String)
    ensures
        out@ == dependencies_text(
            match found {
                Some(printed) => Some(printed@),
                None => None,
            },
        ),
{
    let mut out = "\x1b[0;33mDependencies:\x1b[0m\n".to_owned();
    out.append(check_spades(found).as_str());
    out.push('\n');
    out
}

/// The report of a dry run that found `dirs`, ready to be written out.
#[verifier::rlimit(50)]
pub fn print_dryrun(dirs: &[SeqReads]) -> (out: String)
    ensures
        out@ == dryrun_text(samples(dirs@)),
{
    let mut out = total_samples(dirs.len());
    let ghost all = samples(dirs@);
    let mut i: usize = 0;
    assert(all.take(0) == Seq::<Sample>::empty());
    while i < dirs.len()
        invariant
            i <= dirs.len(),
            all == samples(dirs@),
            out@ == total_text(dirs.len() as nat) + dryrun_entries(all.take(i as int)),
        decreases dirs.len() - i,
    {
        let e = &dirs[i];
        proof {
            let next = all.take(i as int + 1);
            assert(next.drop_last() == all.take(i as int));
            assert(next.last() == e@);
        }
        let ghost before = out@;
        out.append("\x1b[0;32mID\t\t: ");
        out.append(e.id.as_str());
        out.append("\x1b[0m\n");
        write_line(&mut out, "Dir\t\t: ", e.dir.as_str());
        write_line(&mut out, "Read 1\t\t: ", e.read_1.as_str());
        write_line(&mut out, "Read 2\t\t: ", e.read_2.as_str());
        match &e.singleton {
            Some(file) => {
                write_line(&mut out, "Singleton\t: ", file.as_str());
            },
            None => {},
        }
        out.push('\n');
        assert(out@ == before + dryrun_entry(e@));
        i += 1;
    }
    assert(all.take(dirs.len() as int) == all);
    out
}

/// Appends `label`, `value` and a line end to `out`.
fn write_line(out: &mut String, label: &str, value: &str)
    ensures
        final(out)@ == old(out)@ + labelled(label@, value@),
{
    out.append(label);
    out.append(value);
    out.push('\n');
}

/// The samples that the manifest `input` declares and the disk holds.
pub fn manifest_reads(input: &str) -> (r: Result<Vec<SeqReads>, InputError>)
    ensures
        exists|listings: Seq<Seq<Seq<char>>>|
            found_of(r) == #[trigger] manifest_samples(input@, listings),
{
    match parse_seqdir(input) {
        Err(e) => {
            assert(found_of(Err(InputError::Manifest(e))) == manifest_samples(
                input@,
                Seq::empty(),
            ));
            Err(InputError::Manifest(e))
        },
        Ok(dirs) => {
            let r = find_cleaned_fastq(dirs.as_slice());
            let ghost listings = choose|listings: Seq<Seq<Seq<char>>>|
                listings.len() == dirs.len() && outcome(r) == #[trigger] discovered(
                    manifest_places(entries(dirs@)),
                    listings,
                    dirs.len() as nat,
                );
            assert(entries(dirs@).len() == dirs.len());
            match r {
                Ok(found) => {
                    assert(found_of(Ok(found)) == manifest_samples(input@, listings));
                    Ok(found)
                },
                Err(e) => {
                    assert(found_of(Err(InputError::Discovery(e))) == manifest_samples(
                        input@,
                        listings,
                    ));
                    Err(InputError::Discovery(e))
                },
            }
        },
    }
}

/// Samples or the error in their place, over what they hold.
pub open spec fn found_of(r: Result<Vec<SeqReads>, InputError>) -> Result<
    Seq<Sample>,
    InputRefusal,
> {
    match r {
        Ok(v) => Ok(samples(v@)),
        Err(e) => Err(e@),
    }
}

/// The batch, yet to begin, of the samples below `path` whose directory's
/// path holds `dirname`.
pub fn auto_process_input(
    path: &str,
    dirname: &str,
    threads: &Option<usize>,
    outdir: &Option<String>,
    args: &Option<String>,
) -> (r: Result<Supervisor, DiscoveryError>)
    ensures
        exists|tree: Seq<Node>, listings: Seq<Seq<Seq<char>>>|
            batch_of(r) == batch_for(
                #[trigger] tree_samples(tree, dirname@, listings),
                *threads,
                opt_text(*outdir),
                opt_text(*args),
            ),
{
    let found = auto_find_cleaned_fastq(path, dirname);
    proof {
        let (tree, listings) = choose|tree: Seq<Node>, listings: Seq<Seq<Seq<char>>>|
            listings.len() == tree_places(tree, dirname@).len() && outcome(found)
                == #[trigger] discovered(
                tree_places(tree, dirname@),
                listings,
                tree_places(tree, dirname@).len(),
            );
        assert(outcome(found) == tree_samples(tree, dirname@, listings));
    }
    match found {
        Ok(reads) => Ok(assemble_reads(reads, threads, outdir, args)),
        Err(e) => Err(e),
    }
}

/// The batch, yet to begin, of the samples that the manifest `input`
/// declares.
pub fn process_input(
    input: &str,
    threads: &Option<usize>,
    outdir: &Option<String>,
    args: &Option<String>,
) -> (r: Result<Supervisor, InputError>)
    ensures
        exists|listings: Seq<Seq<Seq<char>>>|
            batch_of(r) == batch_for(
                #[trigger] manifest_samples(input@, listings),
                *threads,
                opt_text(*outdir),
                opt_text(*args),
            ),
{
    let found = manifest_reads(input);
    proof {
        let listings = choose|listings: Seq<Seq<Seq<char>>>|
            found_of(found) == #[trigger] manifest_samples(input@, listings);
        assert(found_of(found) == manifest_samples(input@, listings));
    }
    match found {
        Ok(reads) => Ok(assemble_reads(reads, threads, outdir, args)),
        Err(e) => Err(e),
    }
}

/// The report of a dry run over the tree below `path`.
pub fn auto_dryrun(path: &str, dirname: &str) -> (r: Result<String, DiscoveryError>)
    ensures
        exists|tree: Seq<Node>, listings: Seq<Seq<Seq<char>>>|
            report_of(r) == dryrun_of(#[trigger] tree_samples(tree, dirname@, listings)),
{
    let found = auto_find_cleaned_fastq(path, dirname);
    proof {
        let (tree, listings) = choose|tree: Seq<Node>, listings: Seq<Seq<Seq<char>>>|
            listings.len() == tree_places(tree, dirname@).len() && outcome(found)
                == #[trigger] discovered(
                tree_places(tree, dirname@),
                listings,
                tree_places(tree, dirname@).len(),
            );
        assert(outcome(found) == tree_samples(tree, dirname@, listings));
    }
    match found {
        Ok(reads) => Ok(print_dryrun(reads.as_slice())),
        Err(e) => Err(e),
    }
}

/// The report of a dry run over the manifest `input`.
pub fn dryrun(input: &str) -> (r: Result<String, InputError>)
    ensures
        exists|listings: Seq<Seq<Seq<char>>>|
            report_of(r) == dryrun_of(#[trigger] manifest_samples(input@, listings)),
{
    let found = manifest_reads(input);
    proof {
        let listings = choose|listings: Seq<Seq<Seq<char>>>|
            found_of(found) == #[trigger] manifest_samples(input@, listings);
        assert(found_of(found) == manifest_samples(input@, listings));
    }
    match found {
        Ok(reads) => Ok(print_dryrun(reads.as_slice())),
        Err(e) => Err(e),
    }
}

} // verus!
