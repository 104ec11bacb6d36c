//! The list of the directories that hold reads, for a look before a batch
//! is run.

use vstd::prelude::*;
use vstd::string::StringExecFns;
use crate::finder::{
    auto_find_cleaned_fastq, discovered, outcome, samples, tree_places, DiscoveryError, Node,
    Sample, SeqReads,
};
use crate::io::{report_of, tree_samples};
use crate::runner::{labelled, labelled_opt};

verus! {

/// The lines of the list for one sample.
pub open spec fn listed(s: Sample) -> Seq<char> {
    labelled("Dir\t\t: "@, s.dir) + labelled("Read 1\t\t: "@, s.read_1) + labelled(
        "Read 2\t\t: "@,
        s.read_2,
    ) + labelled_opt("Singleton\t: "@, s.singleton) + seq!['\n']
}

/// The lines of the list for each of `found`, in order.
pub open spec fn listing(found: Seq<Sample>) -> Seq<char>
    decreases found.len(),
{
    if found.len() == 0 {
        Seq::empty()
    } else {
        listing(found.drop_last()) + listed(found.last())
    }
}

/// The list of the directories `found`, under its heading.
pub open spec fn dir_list(found: Seq<Sample>) -> Seq<char> {
    "\x1b[0;33mDIR LIST:\n\x1b[0m\n"@ + listing(found)
}

/// The list of directories for samples found or not.
pub open spec fn dir_list_of<E>(found: Result<Seq<Sample>, E>) -> Result<Seq<char>, E> {
    match found {
        Ok(list) => Ok(dir_list(list)),
        Err(e) => Err(e),
    }
}

/// The list of the directories `dirs`, ready to be written out.
#[verifier::rlimit(50)]
pub fn print_dir_list(dirs: &[SeqReads]) -> (out: String)
    ensures
        out@ == dir_list(samples(dirs@)),
{
    let mut out = "\x1b[0;33mDIR LIST:\n\x1b[0m\n".to_owned();
    let ghost all = samples(dirs@);
    let mut i: usize = 0;
    assert(all.take(0) == Seq::<Sample>::empty());
    while i < dirs.len()
        invariant
            i <= dirs.len(),
            all == samples(dirs@),
            out@ == "\x1b[0;33mDIR LIST:\n\x1b[0m\n"@ + listing(all.take(i as int)),
        decreases dirs.len() - i,
    {
        let e = &dirs[i];
        proof {
            let next = all.take(i as int + 1);
            assert(next.drop_last() == all.take(i as int));
            assert(next.last() == e@);
        }
        let ghost before = out@;
        out.append("Dir\t\t: ");
        out.append(e.dir.as_str());
        out.push('\n');
        out.append("Read 1\t\t: ");
        out.append(e.read_1.as_str());
        out.push('\n');
        out.append("Read 2\t\t: ");
        out.append(e.read_2.as_str());
        out.push('\n');
        match &e.singleton {
            Some(file) => {
                out.append("Singleton\t: ");
                out.append(file.as_str());
                out.push('\n');
            },
            None => {},
        }
        out.push('\n');
        assert(out@ == before + listed(e@));
        i += 1;
    }
    assert(all.take(dirs.len() as int) == all);
    out
}

/// The list of the directories below `path` that hold the reads of a
/// sample: those whose path holds `dirname` and in which a forward read is
/// found.
pub fn auto_find_reads(path: &str, dirname: &str) -> (r: Result<String, DiscoveryError>)
    ensures
        exists|tree: Seq<Node>, listings: Seq<Seq<Seq<char>>>|
            report_of(r) == dir_list_of(#[trigger] tree_samples(tree, dirname@, listings)),
{
    let found = auto_find_cleaned_fastq(path, dirname);
    proof {
        let (tree, listings) = choose|tree: Seq<Node>, listings: Seq<Seq<Seq<char>>>|
            listings.len() == tree_places(tree, dirname@).len() && outcome(found)
                == #[trigger] discovered(
                tree_places(tree, dirname@),
                listings,
                tree_places(tree, dirname@).len(),
            );
        assert(outcome(found) == tree_samples(tree, dirname@, listings));
    }
    match found {
        Ok(reads) => Ok(print_dir_list(reads.as_slice())),
        Err(e) => Err(e),
    }
}

} // verus!
