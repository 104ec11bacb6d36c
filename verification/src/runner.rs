//! One assembler run per sample: where its output goes, the arguments it is
//! started with, what is printed before and after it, and the link that a
//! finished run leaves in the directory of results.

use vstd::prelude::*;
use vstd::string::StringExecFns;
use crate::finder::{opt_text, Sample, SeqReads};
use crate::path::{join, join_path};
use crate::text::{chars_of, decimal, decimal_chars, string_of, texts, trim, trim_chars};
use crate::utils::{banner, done_text, print_done, print_header};

verus! {

/// What a `Runner` holds.
pub struct Job {
    pub reads: Sample,
    pub output: Seq<char>,
    pub symlink_dir: Seq<char>,
    pub threads: Option<usize>,
    pub args: Option<Seq<char>>,
}

/// The directory that a batch writes to: the one asked for, else
/// `assemblies`.
pub open spec fn outdir_of(outdir: Option<Seq<char>>) -> Seq<char> {
    match outdir {
        Some(dir) => dir,
        None => "assemblies"@,
    }
}

/// The directory of links below the output directory `root`.
pub open spec fn links_dir(root: Seq<char>) -> Seq<char> {
    join(root, "contig_symlinks"@)
}

/// The job of assembling `reads` in a batch that writes to `root` and keeps
/// its links in `links`.
pub open spec fn job_of(
    root: Seq<char>,
    links: Seq<char>,
    reads: Sample,
    threads: Option<usize>,
    args: Option<Seq<char>>,
) -> Job {
    Job { reads, output: join(root, reads.id), symlink_dir: links, threads, args }
}

/// The flags that set the assembler's mode: the caller's own where given,
/// as one argument and untouched, else `--careful`.
pub open spec fn mode_args(args: Option<Seq<char>>) -> Seq<Seq<char>> {
    match args {
        Some(given) => seq![given],
        None => seq!["--careful"@],
    }
}

/// The arguments that hand over the singleton reads, where there are any.
pub open spec fn singleton_args(singleton: Option<Seq<char>>) -> Seq<Seq<char>> {
    match singleton {
        Some(file) => seq!["--pe1-s"@, file],
        None => Seq::empty(),
    }
}

/// The arguments that set the number of threads, where one is asked for.
pub open spec fn thread_args(threads: Option<usize>) -> Seq<Seq<char>> {
    match threads {
        Some(n) => seq!["--threads"@, decimal(n as nat)],
        None => Seq::empty(),
    }
}

/// The arguments that the assembler is started with for `job`.
pub open spec fn spades_args(job: Job) -> Seq<Seq<char>> {
    seq!["--pe1-1"@, job.reads.read_1, "--pe1-2"@, job.reads.read_2, "-o"@, job.output]
        + mode_args(job.args) + singleton_args(job.reads.singleton) + thread_args(job.threads)
}

/// One line of a summary: a label, a value, a line end.
pub open spec fn labelled(label: Seq<char>, value: Seq<char>) -> Seq<char> {
    label + value + seq!['\n']
}

/// The line of a summary for a value that may be absent.
pub open spec fn labelled_opt(label: Seq<char>, value: Option<Seq<char>>) -> Seq<char> {
    match value {
        Some(v) => labelled(label, v),
        None => Seq::empty(),
    }
}

/// The summary printed before `job` is run.
pub open spec fn settings_text(job: Job) -> Seq<char> {
    labelled("ID\t\t: "@, job.reads.id) + labelled("Input R1\t: "@, job.reads.read_1) + labelled(
        "Input R2\t: "@,
        job.reads.read_2,
    ) + labelled_opt("Singleton\t: "@, job.reads.singleton) + labelled(
        "Output\t\t: "@,
        job.output,
    ) + labelled_opt("Opt params\t: "@, job.args) + seq!['\n']
}

/// The assembler's primary result below the output directory `output`.
pub open spec fn contigs_path(output: Seq<char>) -> Seq<char> {
    join(output, "contigs.fasta"@)
}

/// The name of the link to the result of the sample `id`.
pub open spec fn link_name(id: Seq<char>) -> Seq<char> {
    id + "_contigs.fasta"@
}

/// Where the link to the result of `job` goes.
pub open spec fn link_path(job: Job) -> Seq<char> {
    join(job.symlink_dir, link_name(job.reads.id))
}

/// The report of a link `symlink` made to the result `path`.
pub open spec fn contig_report(path: Seq<char>, symlink: Seq<char>) -> Seq<char> {
    "\nContig Path\n"@ + labelled("File\t\t: "@, path) + labelled("Symlink\t\t: "@, symlink)
        + seq!['\n']
}

/// The notice that a run left no result.
pub open spec fn failure_text() -> Seq<char> {
    "\x1b[41m[ERROR]\x1b[0m SPAdes HAS FAILED. PLEASE CHECK SPAdes OUTPUT ABOVE FOR DETAILS.\n\n"@
}

/// What is to be done once a run has ended well and its result was looked
/// for: `resolved` is the result's absolute path, where the result exists.
pub open spec fn link_plan(job: Job, resolved: Option<Seq<char>>) -> Linking {
    match resolved {
        Some(target) => Linking::Link {
            target,
            link: link_path(job),
            report: done_text() + contig_report(contigs_path(job.output), link_path(job)),
        },
        None => Linking::Missing { notice: failure_text() },
    }
}

/// What a `LinkPlan` holds.
pub enum Linking {
    Link { target: Seq<char>, link: Seq<char>, report: Seq<char> },
    Missing { notice: Seq<char> },
}

/// What follows a run that ended well.
pub enum LinkPlan {
    /// The result exists: link `link` to `target`, then print `report`.
    Link { target: String, link: String, report: String },
    /// The result is missing: print `notice` to the error stream.
    Missing { notice: String },
}

impl View for LinkPlan {
    type V = Linking;

    open spec fn view(&self) -> Linking {
        match self {
            LinkPlan::Link { target, link, report } => Linking::Link {
                target: target@,
                link: link@,
                report: report@,
            },
            LinkPlan::Missing { notice } => Linking::Missing { notice: notice@ },
        }
    }
}

/// What is printed and started for one sample.
pub struct Invocation {
    /// The banner above the sample.
    pub header: String,
    /// The summary of the sample's settings.
    pub settings: String,
    /// The program to start.
    pub program: String,
    /// The arguments to start it with.
    pub args: Vec<String>,
}

/// What an `Invocation` holds.
pub struct Call {
    pub header: Seq<char>,
    pub settings: Seq<char>,
    pub program: Seq<char>,
    pub args: Seq<Seq<char>>,
}

impl View for Invocation {
    type V = Call;

    open spec fn view(&self) -> Call {
        Call {
            header: self.header@,
            settings: self.settings@,
            program: self.program@,
            args: texts(self.args@),
        }
    }
}

/// How `job` is started.
pub open spec fn call_of(job: Job) -> Call {
    Call {
        header: banner(job.reads.id),
        settings: settings_text(job),
        program: "spades.py"@,
        args: spades_args(job),
    }
}

/// The line that tells whether the assembler was found: `found` is what it
/// printed when asked for its version, where it could be started at all.
pub open spec fn version_text(found: Option<Seq<char>>) -> Seq<char> {
    match found {
        Some(printed) => "[OK]\t"@ + trim(printed) + seq!['\n'],
        None => "[NOT FOUND]\tSPAdes\n"@,
    }
}

/// The line that tells whether the assembler was found, ready to be
/// written out.
pub fn check_spades(found: Option<&str>) -> (out: String)
    ensures
        out@ == version_text(
            match found {
                Some(printed) => Some(printed@),
                None => None,
            },
        ),
{
    match found {
        Some(printed) => {
            let mut out = "[OK]\t".to_owned();
            out.append(string_of(&trim_chars(&chars_of(printed))).as_str());
            out.push('\n');
            out
        },
        None => "[NOT FOUND]\tSPAdes\n".to_owned(),
    }
}

/// The directory that a batch writes to.
pub fn get_outdir(outdir: &Option<String>) -> (dir: String)
    ensures
        dir@ == outdir_of(opt_text(*outdir)),
{
    match outdir {
        Some(dir) => dir.clone(),
        None => "assemblies".to_owned(),
    }
}

/// Appends `label`, `value` and a line end to `out`.
fn write_labelled(out: &mut String, label: &str, value: &str)
    ensures
        final(out)@ == old(out)@ + labelled(label@, value@),
{
    out.append(label);
    out.append(value);
    out.push('\n');
}

/// The run of one sample.
pub struct Runner<'a> {
    pub reads: &'a SeqReads,
    pub output: String,
    pub symlink_dir: &'a str,
    pub threads: &'a Option<usize>,
    pub args: &'a Option<String>,
}

impl<'a> View for Runner<'a> {
    type V = Job;

    open spec fn view(&self) -> Job {
        Job {
            reads: self.reads@,
            output: self.output@,
            symlink_dir: self.symlink_dir@,
            threads: *self.threads,
            args: opt_text(*self.args),
        }
    }
}

impl<'a> Runner<'a> {
    /// The run of `input` in a batch that writes to `dir` and keeps its
    /// links in `contig_dir`: the sample's output goes to the directory named
    /// after it, below `dir`.
    pub fn new(
        dir: &str,
        contig_dir: &'a str,
        input: &'a SeqReads,
        threads: &'a Option<usize>,
        args: &'a Option<String>,
    ) -> (run: Self)
        ensures
            run@ == job_of(dir@, contig_dir@, input@, *threads, opt_text(*args)),
    {
        Self {
            reads: input,
            output: join_path(dir, input.id.as_str()),
            symlink_dir: contig_dir,
            threads,
            args,
        }
    }

    /// What is printed and started for this sample.
    pub fn run_spades(&self) -> (call: Invocation)
        ensures
            call@ == call_of(self@),
    {
        Invocation {
            header: print_header(self.reads.id.as_str()),
            settings: self.print_settings(),
            program: "spades.py".to_owned(),
            args: self.call_spades(),
        }
    }

    /// The arguments that the assembler is started with.
    #[verifier::rlimit(50)]
    pub fn call_spades(&self) -> (out: Vec<String>)
        ensures
            texts(out@) == spades_args(self@),
    {
        let mut out: Vec<String> = Vec::new();
        out.push("--pe1-1".to_owned());
        out.push(self.reads.read_1.clone());
        out.push("--pe1-2".to_owned());
        out.push(self.reads.read_2.clone());
        out.push("-o".to_owned());
        out.push(self.output.clone());
        assert(texts(out@) == seq![
            "--pe1-1"@,
            self.reads.read_1@,
            "--pe1-2"@,
            self.reads.read_2@,
            "-o"@,
            self.output@,
        ]);
        self.get_spades_args(&mut out);
        if self.reads.singleton.is_some() {
            self.get_singleton(&mut out);
        }
        if self.threads.is_some() {
            self.get_thread_num(&mut out);
        }
        out
    }

    /// Appends the flags that set the assembler's mode.
    pub fn get_spades_args(&self, out: &mut Vec<String>)
        ensures
            texts(final(out)@) == texts(old(out)@) + mode_args(self@.args),
    {
        if self.args.is_some() {
            self.get_opt_args(out);
        } else {
            self.get_default_args(out);
        }
    }

    /// Appends the flag of the careful mode.
    pub fn get_default_args(&self, out: &mut Vec<String>)
        ensures
            texts(final(out)@) == texts(old(out)@) + seq!["--careful"@],
    {
        let flag = "--careful".to_owned();
        assert(texts(out@.push(flag)) == texts(out@).push(flag@));
        out.push(flag);
    }

    /// Appends the caller's own flags, as one argument.
    pub fn get_opt_args(&self, out: &mut Vec<String>)
        requires
            self.args is Some,
        ensures
            texts(final(out)@) == texts(old(out)@) + seq![self.args->0@],
    {
        match self.args {
            Some(given) => {
                let flags = given.clone();
                assert(texts(out@.push(flags)) == texts(out@).push(flags@));
                out.push(flags);
            },
            None => {},
        }
    }

    /// Appends the arguments that hand over the singleton reads.
    pub fn get_singleton(&self, out: &mut Vec<String>)
        requires
            self.reads.singleton is Some,
        ensures
            texts(final(out)@) == texts(old(out)@) + singleton_args(self@.reads.singleton),
    {
        match &self.reads.singleton {
            Some(file) => {
                let flag = "--pe1-s".to_owned();
                let file = file.clone();
                assert(texts(out@.push(flag).push(file)) == texts(out@).push(flag@).push(file@));
                out.push(flag);
                out.push(file);
            },
            None => {},
        }
    }

    /// Appends the arguments that set the number of threads.
    pub fn get_thread_num(&self, out: &mut Vec<String>)
        requires
            self.threads is Some,
        ensures
            texts(final(out)@) == texts(old(out)@) + thread_args(*self.threads),
    {
        match self.threads {
            Some(n) => {
                let flag = "--threads".to_owned();
                let count = string_of(&decimal_chars(*n as u64));
                assert(texts(out@.push(flag).push(count)) == texts(out@).push(flag@).push(count@));
                out.push(flag);
                out.push(count);
            },
            None => {},
        }
    }

    /// The summary printed before the run.
    #[verifier::rlimit(50)]
    pub fn print_settings(&self) -> (out: String)
        ensures
            out@ == settings_text(self@),
    {
        let mut out = String::new();
        write_labelled(&mut out, "ID\t\t: ", self.reads.id.as_str());
        write_labelled(&mut out, "Input R1\t: ", self.reads.read_1.as_str());
        write_labelled(&mut out, "Input R2\t: ", self.reads.read_2.as_str());
        match &self.reads.singleton {
            Some(file) => {
                write_labelled(&mut out, "Singleton\t: ", file.as_str());
            },
            None => {},
        }
        write_labelled(&mut out, "Output\t\t: ", self.output.as_str());
        match self.args {
            Some(given) => {
                write_labelled(&mut out, "Opt params\t: ", given.as_str());
            },
            None => {},
        }
        out.push('\n');
        assert(out@ == settings_text(self@));
        out
    }

    /// What follows a run that ended well: `resolved` is the absolute path
    /// of the run's result, where the result exists.
    pub fn create_symlink(&self, resolved: Option<String>) -> (plan: LinkPlan)
        ensures
            plan@ == link_plan(self@, opt_text(resolved)),
    {
        match resolved {
            Some(target) => {
                let contigs = join_path(self.output.as_str(), "contigs.fasta");
                let mut name = self.reads.id.clone();
                name.append("_contigs.fasta");
                let link = join_path(self.symlink_dir, name.as_str());
                let mut report = print_done();
                report.append(self.print_contig_path(contigs.as_str(), link.as_str()).as_str());
                LinkPlan::Link { target, link, report }
            },
            None => LinkPlan::Missing {
                notice: "\x1b[41m[ERROR]\x1b[0m SPAdes HAS FAILED. PLEASE CHECK SPAdes OUTPUT ABOVE FOR DETAILS.\n\n".to_owned(),
            },
        }
    }

    /// The path of the result that this run is expected to leave.
    pub fn contigs(&self) -> (path: String)
        ensures
            path@ == contigs_path(self@.output),
    {
        join_path(self.output.as_str(), "contigs.fasta")
    }

    /// The report of a link `symlink` made to the result `path`.
    pub fn print_contig_path(&self, path: &str, symlink: &str) -> (out: String)
        ensures
            out@ == contig_report(path@, symlink@),
    {
        let mut out = "\nContig Path\n".to_owned();
        write_labelled(&mut out, "File\t\t: ", path);
        write_labelled(&mut out, "Symlink\t\t: ", symlink);
        out.push('\n');
        out
    }
}

} // verus!
