//! Sample discovery: which files of a directory are the forward, the reverse
//! and the singleton reads of a sample, and under which identifier.

use vstd::prelude::*;
use crate::boundary::{glob_paths, malformed_pattern, uppercase, walk_tree, TreeEntry};
use crate::parser::{entries, Entry, SeqDirs};
use crate::path::{components, path_components};
use crate::text::{append_str, chars_of, contains_chars, occurs_in, string_of, texts};

verus! {

/// The part a read file plays in a sample.
#[derive(Clone, Copy, Debug, PartialEq, Eq, Structural)]
pub enum Role {
    /// The forward reads of a pair.
    Forward,
    /// The reverse reads of a pair.
    Reverse,
    /// Reads that lost their mate.
    Singleton,
}

/// Why discovery was given up.
#[derive(Clone, Copy, Debug, PartialEq, Eq, Structural)]
pub enum DiscoveryError {
    /// A directory has fewer than two components, so no identifier can be
    /// taken from it.
    InvalidDirectoryStructure,
    /// A directory's name does not make a pattern that can be searched for.
    InvalidPattern,
}

impl View for DiscoveryError {
    type V = DiscoveryError;

    open spec fn view(&self) -> DiscoveryError {
        *self
    }
}

/// The read files found for one sample.
pub struct SeqReads {
    /// The directory that was searched.
    pub dir: String,
    /// The sample's identifier.
    pub id: String,
    /// The forward reads; empty where none were found.
    pub read_1: String,
    /// The reverse reads; empty where none were found.
    pub read_2: String,
    /// The singleton reads, where there are any.
    pub singleton: Option<String>,
}

/// What a `SeqReads` holds.
pub struct Sample {
    pub dir: Seq<char>,
    pub id: Seq<char>,
    pub read_1: Seq<char>,
    pub read_2: Seq<char>,
    pub singleton: Option<Seq<char>>,
}

/// The text of `s`, where there is one.
pub open spec fn opt_text(s: Option<String>) -> Option<Seq<char>> {
    match s {
        Some(t) => Some(t@),
        None => None,
    }
}

impl View for SeqReads {
    type V = Sample;

    open spec fn view(&self) -> Sample {
        Sample {
            dir: self.dir@,
            id: self.id@,
            read_1: self.read_1@,
            read_2: self.read_2@,
            singleton: opt_text(self.singleton),
        }
    }
}

/// What each record of `v` holds.
pub open spec fn samples(v: Seq<SeqReads>) -> Seq<Sample> {
    v.map_values(|r: SeqReads| r@)
}

/// The role that a path plays, read from its upper-case form `upper`. The
/// marks are looked for in a fixed order and the first one found decides:
/// `READ1`, `R1`, `READ2`, `R2`, `SINGLETON`.
pub open spec fn role_of_upper(upper: Seq<char>) -> Option<Role> {
    if occurs_in("READ1"@, upper) {
        Some(Role::Forward)
    } else if occurs_in("R1"@, upper) {
        Some(Role::Forward)
    } else if occurs_in("READ2"@, upper) {
        Some(Role::Reverse)
    } else if occurs_in("R2"@, upper) {
        Some(Role::Reverse)
    } else if occurs_in("SINGLETON"@, upper) {
        Some(Role::Singleton)
    } else {
        None
    }
}

/// The role that the file at `path` plays. Letter case does not count.
pub open spec fn role_of(path: Seq<char>) -> Option<Role> {
    role_of_upper(uppercase(path))
}

/// The last of `files` that plays `role`.
pub open spec fn last_with_role(files: Seq<Seq<char>>, role: Role) -> Option<Seq<char>>
    decreases files.len(),
{
    if files.len() == 0 {
        None
    } else if role_of(files.last()) == Some(role) {
        Some(files.last())
    } else {
        last_with_role(files.drop_last(), role)
    }
}

/// `before` after the files `files` were given their roles: each role goes
/// to the last file that plays it, and stays as it was where no file does.
pub open spec fn matched(before: Sample, files: Seq<Seq<char>>) -> Sample {
    Sample {
        dir: before.dir,
        id: before.id,
        read_1: match last_with_role(files, Role::Forward) {
            Some(f) => f,
            None => before.read_1,
        },
        read_2: match last_with_role(files, Role::Reverse) {
            Some(f) => f,
            None => before.read_2,
        },
        singleton: match last_with_role(files, Role::Singleton) {
            Some(f) => Some(f),
            None => before.singleton,
        },
    }
}

/// The identifier of the sample found in `dir`: `target` where one is given,
/// else the second component of `dir`.
pub open spec fn derived_id(dir: Seq<char>, target: Option<Seq<char>>) -> Result<
    Seq<char>,
    DiscoveryError,
> {
    match target {
        Some(id) => Ok(id),
        None => if components(dir).len() > 1 {
            Ok(components(dir)[1])
        } else {
            Err(DiscoveryError::InvalidDirectoryStructure)
        },
    }
}

/// A record for `dir` with nothing found yet.
pub open spec fn fresh(dir: Seq<char>) -> Sample {
    Sample {
        dir,
        id: Seq::empty(),
        read_1: Seq::empty(),
        read_2: Seq::empty(),
        singleton: None,
    }
}

/// The record for `dir` when it holds the read files `files`.
pub open spec fn sample_of(dir: Seq<char>, files: Seq<Seq<char>>, id: Seq<char>) -> Sample {
    let found = matched(fresh(dir), files);
    Sample { id, ..found }
}

/// The list `before` after `dir`, which holds the read files `files`, was
/// looked at: its record is added where a forward read was found, and only
/// then.
pub open spec fn kept(
    dir: Seq<char>,
    files: Seq<Seq<char>>,
    target: Option<Seq<char>>,
    before: Seq<Sample>,
) -> Result<Seq<Sample>, DiscoveryError> {
    match derived_id(dir, target) {
        Err(e) => Err(e),
        Ok(id) => if sample_of(dir, files, id).read_1.len() > 0 {
            Ok(before.push(sample_of(dir, files, id)))
        } else {
            Ok(before)
        },
    }
}

/// The pattern that finds the compressed read files of `dir`: a name with
/// an extension that begins with `f`, then one that begins with `g`.
pub open spec fn fastq_pattern(dir: Seq<char>) -> Seq<char> {
    dir + "/*.f*.g*"@
}

/// The list `before` after `dir` was searched and `files` were found in it.
/// A directory whose pattern is malformed cannot be searched.
pub open spec fn collected(
    dir: Seq<char>,
    files: Seq<Seq<char>>,
    target: Option<Seq<char>>,
    before: Seq<Sample>,
) -> Result<Seq<Sample>, DiscoveryError> {
    if malformed_pattern(fastq_pattern(dir)) {
        Err(DiscoveryError::InvalidPattern)
    } else {
        kept(dir, files, target, before)
    }
}

/// Whether a step that was to turn the list `before` into `want` ended in
/// `r` and left the list as `after`: the wanted list on success, else the
/// error and the list untouched.
pub open spec fn settles(
    r: Result<(), DiscoveryError>,
    before: Seq<Sample>,
    after: Seq<Sample>,
    want: Result<Seq<Sample>, DiscoveryError>,
) -> bool {
    match want {
        Ok(list) => r is Ok && after == list,
        Err(e) => r == Err::<(), DiscoveryError>(e) && after == before,
    }
}

/// A directory to search, and the identifier to file its sample under
/// where one is fixed beforehand.
pub struct Candidate {
    pub dir: String,
    pub target: Option<String>,
}

/// What a `Candidate` holds.
pub struct Place {
    pub dir: Seq<char>,
    pub target: Option<Seq<char>>,
}

impl View for Candidate {
    type V = Place;

    open spec fn view(&self) -> Place {
        Place { dir: self.dir@, target: opt_text(self.target) }
    }
}

/// What each candidate of `v` holds.
pub open spec fn places(v: Seq<Candidate>) -> Seq<Place> {
    v.map_values(|c: Candidate| c@)
}

/// What a `TreeEntry` holds.
pub struct Node {
    pub path: Seq<char>,
    pub is_dir: bool,
}

/// What each entry of `v` holds.
pub open spec fn nodes(v: Seq<TreeEntry>) -> Seq<Node> {
    v.map_values(|e: TreeEntry| Node { path: e.path@, is_dir: e.is_dir })
}

/// The samples found in the first `n` of `places`, in order, when the
/// search of the place at index `i` finds the files `listings[i]`. The first
/// place that cannot be handled decides the result.
pub open spec fn discovered(places: Seq<Place>, listings: Seq<Seq<Seq<char>>>, n: nat) -> Result<
    Seq<Sample>,
    DiscoveryError,
>
    decreases n,
{
    if n == 0 {
        Ok(Seq::empty())
    } else {
        match discovered(places, listings, (n - 1) as nat) {
            Err(e) => Err(e),
            Ok(before) => collected(
                places[n - 1].dir,
                listings[n - 1],
                places[n - 1].target,
                before,
            ),
        }
    }
}

/// The places that a manifest names: each entry's directory, under the
/// entry's identifier.
pub open spec fn manifest_places(declared: Seq<Entry>) -> Seq<Place> {
    declared.map_values(|e: Entry| Place { dir: e.dir, target: Some(e.id) })
}

/// Whether the walk's entry `n` is to be searched: a directory whose path
/// holds `dirname`.
pub open spec fn is_candidate(n: Node, dirname: Seq<char>) -> bool {
    n.is_dir && occurs_in(dirname, n.path)
}

/// The places to search in a walked tree: its candidates in the order of
/// the walk, each to be named after its own path.
pub open spec fn tree_places(tree: Seq<Node>, dirname: Seq<char>) -> Seq<Place> {
    tree.filter(|n: Node| is_candidate(n, dirname)).map_values(|n: Node| place_of(n))
}

/// The place that the walk's entry `n` is, to be named after its own path.
pub open spec fn place_of(n: Node) -> Place {
    Place { dir: n.path, target: None }
}

/// What a discovery returned, over what its records hold.
pub open spec fn outcome(r: Result<Vec<SeqReads>, DiscoveryError>) -> Result<
    Seq<Sample>,
    DiscoveryError,
> {
    match r {
        Ok(v) => Ok(samples(v@)),
        Err(e) => Err(e),
    }
}

/// The samples of the first `n` places depend on the first `n` places and
/// listings alone.
pub proof fn lemma_discovered_prefix(
    places: Seq<Place>,
    listings: Seq<Seq<Seq<char>>>,
    other_places: Seq<Place>,
    other_listings: Seq<Seq<Seq<char>>>,
    n: nat,
)
    requires
        forall|j: int|
            0 <= j < n ==> places[j] == other_places[j] && listings[j] == other_listings[j],
    ensures
        discovered(places, listings, n) == discovered(other_places, other_listings, n),
    decreases n,
{
    if n > 0 {
        lemma_discovered_prefix(places, listings, other_places, other_listings, (n - 1) as nat);
    }
}

/// Once a place has been refused, looking at more places changes nothing.
pub proof fn lemma_discovery_refusal_stands(
    places: Seq<Place>,
    listings: Seq<Seq<Seq<char>>>,
    n: nat,
    m: nat,
)
    requires
        n <= m,
        discovered(places, listings, n) is Err,
    ensures
        discovered(places, listings, m) == discovered(places, listings, n),
    decreases m - n,
{
    if n < m {
        lemma_discovery_refusal_stands(places, listings, n, (m - 1) as nat);
    }
}

/// The marks of a path decide in a fixed order: a mark of the forward read
/// wins over every other mark, a mark of the reverse read over that of the
/// singleton, and a path without any mark plays no role.
pub proof fn lemma_marks_decide_in_order(upper: Seq<char>)
    ensures
        occurs_in("READ1"@, upper) || occurs_in("R1"@, upper) ==> role_of_upper(upper) == Some(
            Role::Forward,
        ),
        !occurs_in("READ1"@, upper) && !occurs_in("R1"@, upper) && (occurs_in("READ2"@, upper)
            || occurs_in("R2"@, upper)) ==> role_of_upper(upper) == Some(Role::Reverse),
        !occurs_in("READ1"@, upper) && !occurs_in("R1"@, upper) && !occurs_in("READ2"@, upper)
            && !occurs_in("R2"@, upper) ==> role_of_upper(upper) == if occurs_in(
            "SINGLETON"@,
            upper,
        ) {
            Some(Role::Singleton)
        } else {
            None
        },
{
}

/// Where none of `files` plays `role`, the role goes to none of them.
pub proof fn lemma_role_unfilled(files: Seq<Seq<char>>, role: Role)
    requires
        forall|i: int| 0 <= i < files.len() ==> role_of(#[trigger] files[i]) != Some(role),
    ensures
        last_with_role(files, role) is None,
    decreases files.len(),
{
    if files.len() > 0 {
        let before = files.drop_last();
        assert forall|i: int| 0 <= i < before.len() implies role_of(#[trigger] before[i]) != Some(
            role,
        ) by {
            assert(before[i] == files[i]);
        }
        lemma_role_unfilled(before, role);
    }
}

/// A role goes to the file at index `k` where that file plays it and no
/// later file does.
pub proof fn lemma_role_goes_to_last(files: Seq<Seq<char>>, role: Role, k: int)
    requires
        0 <= k < files.len(),
        role_of(files[k]) == Some(role),
        forall|i: int| k < i < files.len() ==> role_of(#[trigger] files[i]) != Some(role),
    ensures
        last_with_role(files, role) == Some(files[k]),
    decreases files.len(),
{
    if k < files.len() - 1 {
        let before = files.drop_last();
        assert(before[k] == files[k]);
        assert forall|i: int| k < i < before.len() implies role_of(#[trigger] before[i]) != Some(
            role,
        ) by {
            assert(before[i] == files[i]);
        }
        lemma_role_goes_to_last(before, role, k);
    }
}

/// A directory in which no file plays the forward read is passed over: the
/// list of samples stays as it was, whatever else the directory holds.
pub proof fn lemma_without_forward_read_dropped(
    dir: Seq<char>,
    files: Seq<Seq<char>>,
    target: Option<Seq<char>>,
    before: Seq<Sample>,
)
    requires
        forall|i: int| 0 <= i < files.len() ==> role_of(#[trigger] files[i]) != Some(Role::Forward),
        derived_id(dir, target) is Ok,
    ensures
        kept(dir, files, target, before) == Ok::<Seq<Sample>, DiscoveryError>(before),
{
    lemma_role_unfilled(files, Role::Forward);
}

/// A directory that holds nothing at all is passed over.
pub proof fn lemma_empty_directory_dropped(
    dir: Seq<char>,
    target: Option<Seq<char>>,
    before: Seq<Sample>,
)
    requires
        derived_id(dir, target) is Ok,
    ensures
        kept(dir, Seq::empty(), target, before) == Ok::<Seq<Sample>, DiscoveryError>(before),
{
}

/// A directory with a forward read adds exactly one sample to the end of
/// the list: its forward read is the last file that plays that role.
pub proof fn lemma_with_forward_read_kept(
    dir: Seq<char>,
    files: Seq<Seq<char>>,
    target: Option<Seq<char>>,
    before: Seq<Sample>,
    k: int,
)
    requires
        0 <= k < files.len(),
        files[k].len() > 0,
        role_of(files[k]) == Some(Role::Forward),
        forall|i: int| k < i < files.len() ==> role_of(#[trigger] files[i]) != Some(Role::Forward),
        derived_id(dir, target) is Ok,
    ensures
        kept(dir, files, target, before) is Ok,
        kept(dir, files, target, before)->Ok_0.len() == before.len() + 1,
        kept(dir, files, target, before)->Ok_0.drop_last() == before,
        kept(dir, files, target, before)->Ok_0.last().read_1 == files[k],
        kept(dir, files, target, before)->Ok_0.last().dir == dir,
        kept(dir, files, target, before)->Ok_0.last().id == derived_id(dir, target)->Ok_0,
{
    lemma_role_goes_to_last(files, Role::Forward, k);
}

/// A sample found by walking a tree is named after the directory right
/// below the walk's root: for a directory `root/name/...`, with `root` one
/// plain name, the identifier is `name`.
pub proof fn lemma_id_is_directory_below_root(root: Seq<char>, name: Seq<char>, rest: Seq<char>)
    requires
        root.len() > 0,
        !root.contains('/'),
        crate::path::is_plain(name),
        rest.len() > 0 ==> rest[0] == '/',
    ensures
        derived_id(root + seq!['/'] + name + rest, None) == Ok::<Seq<char>, DiscoveryError>(name),
{
    crate::path::lemma_second_component(root, name, rest);
}

/// A sample declared by a manifest keeps the identifier that the manifest
/// gives it, whatever its directory is called.
pub proof fn lemma_id_is_as_declared(dir: Seq<char>, id: Seq<char>)
    ensures
        derived_id(dir, Some(id)) == Ok::<Seq<char>, DiscoveryError>(id),
{
}

/// Every sample that discovery hands out has a forward read: a directory
/// without one never makes it into the list.
pub proof fn lemma_discovered_have_forward_reads(
    places: Seq<Place>,
    listings: Seq<Seq<Seq<char>>>,
    n: nat,
)
    requires
        discovered(places, listings, n) is Ok,
    ensures
        forall|i: int|
            0 <= i < discovered(places, listings, n)->Ok_0.len() ==> (#[trigger] discovered(
                places,
                listings,
                n,
            )->Ok_0[i]).read_1.len() > 0,
    decreases n,
{
    if n > 0 {
        lemma_discovered_have_forward_reads(places, listings, (n - 1) as nat);
    }
}

/// Discovery succeeds where every place can be searched and named: no
/// pattern is malformed and every identifier can be derived.
pub proof fn lemma_discovery_succeeds(places: Seq<Place>, listings: Seq<Seq<Seq<char>>>, n: nat)
    requires
        forall|j: int|
            0 <= j < n ==> !malformed_pattern(fastq_pattern(#[trigger] places[j].dir))
                && derived_id(places[j].dir, places[j].target) is Ok,
    ensures
        discovered(places, listings, n) is Ok,
    decreases n,
{
    if n > 0 {
        lemma_discovery_succeeds(places, listings, (n - 1) as nat);
        assert(!malformed_pattern(fastq_pattern(places[n - 1].dir)));
    }
}

/// The role read from the upper-case form of a path.
pub fn role_in(upper: &str) -> (r: Option<Role>)
    ensures
        r == role_of_upper(upper@),
{
    let hay = chars_of(upper);
    if contains_chars(&hay, &chars_of("READ1")) {
        Some(Role::Forward)
    } else if contains_chars(&hay, &chars_of("R1")) {
        Some(Role::Forward)
    } else if contains_chars(&hay, &chars_of("READ2")) {
        Some(Role::Reverse)
    } else if contains_chars(&hay, &chars_of("R2")) {
        Some(Role::Reverse)
    } else if contains_chars(&hay, &chars_of("SINGLETON")) {
        Some(Role::Singleton)
    } else {
        None
    }
}

/// The role that the file at `path` plays.
pub fn classify(path: &str) -> (r: Option<Role>)
    ensures
        r == role_of(path@),
{
    let upper = path.to_uppercase();
    role_in(upper.as_str())
}

impl SeqReads {
    /// A record for `dir` with nothing found yet.
    pub fn new(dir: &str) -> (s: Self)
        ensures
            s@ == fresh(dir@),
    {
        Self {
            dir: dir.to_owned(),
            id: String::new(),
            read_1: String::new(),
            read_2: String::new(),
            singleton: None,
        }
    }

    /// The compressed read files in this record's directory.
    pub fn glob_fastq(&self) -> (r: Result<Vec<String>, DiscoveryError>)
        ensures
            r is Err <==> malformed_pattern(fastq_pattern(self.dir@)),
            r matches Err(e) ==> e == DiscoveryError::InvalidPattern,
    {
        let mut pattern = chars_of(self.dir.as_str());
        append_str(&mut pattern, "/*.f*.g*");
        let pattern = string_of(&pattern);
        match glob_paths(pattern.as_str()) {
            Ok(found) => Ok(found),
            Err(_) => Err(DiscoveryError::InvalidPattern),
        }
    }

    /// Gives each of `dirs` its role in this record.
    pub fn match_reads(&mut self, dirs: &[String])
        ensures
            final(self)@ == matched(old(self)@, texts(dirs@)),
    {
        let mut i: usize = 0;
        assert(texts(dirs@).take(0) == Seq::<Seq<char>>::empty());
        while i < dirs.len()
            invariant
                i <= dirs.len(),
                self@ == matched(old(self)@, texts(dirs@).take(i as int)),
            decreases dirs.len() - i,
        {
            proof {
                let next = texts(dirs@).take(i as int + 1);
                assert(next.drop_last() == texts(dirs@).take(i as int));
                assert(next.last() == dirs@[i as int]@);
            }
            match classify(dirs[i].as_str()) {
                Some(Role::Forward) => {
                    self.read_1 = dirs[i].clone();
                },
                Some(Role::Reverse) => {
                    self.read_2 = dirs[i].clone();
                },
                Some(Role::Singleton) => {
                    self.singleton = Some(dirs[i].clone());
                },
                None => {},
            }
            i += 1;
        }
        assert(texts(dirs@).take(dirs.len() as int) == texts(dirs@));
    }

    /// Names the sample: after `target` where one is given, else after the
    /// second component of its directory.
    pub fn get_id(&mut self, target: Option<String>) -> (r: Result<(), DiscoveryError>)
        ensures
            match derived_id(old(self).dir@, opt_text(target)) {
                Ok(id) => r is Ok && final(self)@ == (Sample { id, ..old(self)@ }),
                Err(e) => r == Err::<(), DiscoveryError>(e) && final(self)@ == old(self)@,
            },
    {
        match target {
            Some(id) => {
                self.id = id;
                Ok(())
            },
            None => {
                let mut dirs = path_components(self.dir.as_str());
                if dirs.len() > 1 {
                    assert(texts(dirs@)[1] == dirs@[1]@);
                    self.id = dirs.swap_remove(1);
                    Ok(())
                } else {
                    Err(DiscoveryError::InvalidDirectoryStructure)
                }
            },
        }
    }
}

/// Looks at `dir`, which holds the read files `files`: its record joins
/// `entries` where a forward read was found.
pub fn keep_sample(
    dir: &str,
    files: &[String],
    entries: &mut Vec<SeqReads>,
    target: Option<String>,
) -> (r: Result<(), DiscoveryError>)
    ensures
        settles(
            r,
            samples(old(entries)@),
            samples(final(entries)@),
            kept(dir@, texts(files@), opt_text(target), samples(old(entries)@)),
        ),
{
    let mut reads = SeqReads::new(dir);
    reads.match_reads(files);
    match reads.get_id(target) {
        Err(e) => Err(e),
        Ok(_) => {
            if !reads.read_1.as_str().is_empty() {
                assert(samples(entries@.push(reads)) == samples(entries@).push(reads@));
                entries.push(reads);
            }
            Ok(())
        },
    }
}

/// Searches `dir` for read files: its record joins `entries` where a
/// forward read was found. What is found depends on what the disk holds;
/// whatever it is, the list changes as `collected` says.
pub fn get_cleaned_fastq(dir: &str, entries: &mut Vec<SeqReads>, target: Option<String>) -> (r:
    Result<(), DiscoveryError>)
    ensures
        exists|files: Seq<Seq<char>>|
            settles(
                r,
                samples(old(entries)@),
                samples(final(entries)@),
                #[trigger] collected(dir@, files, opt_text(target), samples(old(entries)@)),
            ),
{
    let ghost before = samples(entries@);
    let reads = SeqReads::new(dir);
    match reads.glob_fastq() {
        Err(e) => {
            assert(settles(
                Err(e),
                before,
                before,
                collected(dir@, Seq::empty(), opt_text(target), before),
            ));
            Err(e)
        },
        Ok(fastq) => {
            let r = keep_sample(dir, fastq.as_slice(), entries, target);
            assert(settles(
                r,
                before,
                samples(entries@),
                collected(dir@, texts(fastq@), opt_text(target), before),
            ));
            r
        },
    }
}

/// Searches each of `candidates`, in order. Whatever the disk holds, the
/// result is what `discovered` makes of some listing of each candidate.
#[verifier::rlimit(50)]
pub fn discover(candidates: &Vec<Candidate>) -> (r: Result<Vec<SeqReads>, DiscoveryError>)
    ensures
        exists|listings: Seq<Seq<Seq<char>>>|
            listings.len() == candidates.len() && outcome(r) == #[trigger] discovered(
                places(candidates@),
                listings,
                candidates.len() as nat,
            ),
{
    let mut found: Vec<SeqReads> = Vec::new();
    let ghost want = places(candidates@);
    let ghost mut listings: Seq<Seq<Seq<char>>> = Seq::empty();
    let mut i: usize = 0;
    assert(samples(found@) == Seq::<Sample>::empty());
    while i < candidates.len()
        invariant
            i <= candidates.len(),
            want == places(candidates@),
            listings.len() == i,
            discovered(want, listings, i as nat) == Ok::<Seq<Sample>, DiscoveryError>(
                samples(found@),
            ),
        decreases candidates.len() - i,
    {
        let candidate = &candidates[i];
        let target = match &candidate.target {
            Some(id) => Some(id.clone()),
            None => None,
        };
        let ghost before = samples(found@);
        let r = get_cleaned_fastq(candidate.dir.as_str(), &mut found, target);
        proof {
            assert(want[i as int] == candidate@);
            let files = choose|files: Seq<Seq<char>>|
                settles(
                    r,
                    before,
                    samples(found@),
                    #[trigger] collected(candidate.dir@, files, opt_text(target), before),
                );
            let next = listings.push(files);
            lemma_discovered_prefix(want, listings, want, next, i as nat);
            listings = next;
        }
        match r {
            Ok(_) => {},
            Err(e) => {
                proof {
                    let n = candidates.len() as nat;
                    let full = listings + Seq::new(
                        (n - i - 1) as nat,
                        |j: int| Seq::<Seq<char>>::empty(),
                    );
                    lemma_discovered_prefix(want, listings, want, full, (i + 1) as nat);
                    lemma_discovery_refusal_stands(want, full, (i + 1) as nat, n);
                    assert(full.len() == n);
                    assert(outcome(Err(e)) == discovered(want, full, n));
                }
                return Err(e);
            },
        }
        i += 1;
    }
    Ok(found)
}

/// The places that the manifest entries `dirs` name.
pub fn manifest_candidates(dirs: &[SeqDirs]) -> (out: Vec<Candidate>)
    ensures
        places(out@) == manifest_places(entries(dirs@)),
{
    let mut out: Vec<Candidate> = Vec::new();
    let mut i: usize = 0;
    let ghost want = manifest_places(entries(dirs@));
    while i < dirs.len()
        invariant
            i <= dirs.len(),
            want == manifest_places(entries(dirs@)),
            places(out@) == want.take(i as int),
        decreases dirs.len() - i,
    {
        let c = Candidate { dir: dirs[i].dir.clone(), target: Some(dirs[i].id.clone()) };
        proof {
            assert(entries(dirs@)[i as int] == dirs@[i as int]@);
            assert(places(out@.push(c)) == places(out@).push(c@));
            assert(want.take(i as int).push(want[i as int]) == want.take(i as int + 1));
        }
        out.push(c);
        i += 1;
    }
    assert(want.take(dirs.len() as int) == want);
    out
}

/// The places to search in the walked tree `tree`: the directories whose
/// path holds `dirname`.
#[verifier::rlimit(50)]
pub fn tree_candidates(tree: &Vec<TreeEntry>, dirname: &str) -> (out: Vec<Candidate>)
    ensures
        places(out@) == tree_places(nodes(tree@), dirname@),
{
    let needle = chars_of(dirname);
    let mut out: Vec<Candidate> = Vec::new();
    let mut i: usize = 0;
    let ghost all = nodes(tree@);
    let ghost wanted = |n: Node| is_candidate(n, dirname@);
    let ghost place = |n: Node| place_of(n);
    assert(all.take(0).filter(wanted).map_values(place) == Seq::<Place>::empty());
    while i < tree.len()
        invariant
            i <= tree.len(),
            needle@ == dirname@,
            all == nodes(tree@),
            wanted == |n: Node| is_candidate(n, dirname@),
            place == |n: Node| place_of(n),
            places(out@) == all.take(i as int).filter(wanted).map_values(place),
        decreases tree.len() - i,
    {
        let entry = &tree[i];
        proof {
            let next = all.take(i as int + 1);
            assert(next.drop_last() == all.take(i as int));
            assert(next.last() == (Node { path: entry.path@, is_dir: entry.is_dir }));
            reveal(Seq::filter);
        }
        if entry.is_dir && contains_chars(&chars_of(entry.path.as_str()), &needle) {
            let c = Candidate { dir: entry.path.clone(), target: None };
            proof {
                assert(places(out@.push(c)) == places(out@).push(c@));
                let kept = all.take(i as int).filter(wanted);
                assert(kept.push(all[i as int]).map_values(place) == kept.map_values(place).push(
                    place(all[i as int]),
                ));
            }
            out.push(c);
        }
        i += 1;
    }
    assert(all.take(tree.len() as int) == all);
    out
}

/// The samples of the directories that the manifest entries `dirs` name,
/// each under its entry's identifier, in the order of the entries.
pub fn find_cleaned_fastq(dirs: &[SeqDirs]) -> (r: Result<Vec<SeqReads>, DiscoveryError>)
    ensures
        exists|listings: Seq<Seq<Seq<char>>>|
            listings.len() == dirs.len() && outcome(r) == #[trigger] discovered(
                manifest_places(entries(dirs@)),
                listings,
                dirs.len() as nat,
            ),
{
    let candidates = manifest_candidates(dirs);
    assert(places(candidates@).len() == candidates.len());
    assert(entries(dirs@).len() == dirs.len());
    let r = discover(&candidates);
    proof {
        let listings = choose|listings: Seq<Seq<Seq<char>>>|
            listings.len() == candidates.len() && outcome(r) == #[trigger] discovered(
                places(candidates@),
                listings,
                candidates.len() as nat,
            );
        assert(outcome(r) == discovered(
            manifest_places(entries(dirs@)),
            listings,
            dirs.len() as nat,
        ));
    }
    r
}

/// The samples below `path`: every directory whose path holds `dirname` is
/// searched, in the order of the walk, and its sample is named after the
/// second component of its path.
pub fn auto_find_cleaned_fastq(path: &str, dirname: &str) -> (r: Result<
    Vec<SeqReads>,
    DiscoveryError,
>)
    ensures
        exists|tree: Seq<Node>, listings: Seq<Seq<Seq<char>>>|
            listings.len() == tree_places(tree, dirname@).len() && outcome(r)
                == #[trigger] discovered(
                tree_places(tree, dirname@),
                listings,
                tree_places(tree, dirname@).len(),
            ),
{
    let tree = walk_tree(path);
    let candidates = tree_candidates(&tree, dirname);
    assert(places(candidates@).len() == candidates.len());
    let r = discover(&candidates);
    proof {
        let listings = choose|listings: Seq<Seq<Seq<char>>>|
            listings.len() == candidates.len() && outcome(r) == #[trigger] discovered(
                places(candidates@),
                listings,
                candidates.len() as nat,
            );
        assert(outcome(r) == discovered(
            tree_places(nodes(tree@), dirname@),
            listings,
            tree_places(nodes(tree@), dirname@).len(),
        ));
    }
    r
}

} // verus!
