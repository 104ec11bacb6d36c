//! The sample manifest: a header line, then one `id, directory` pair per
//! line, separated by a comma or by a colon.

use vstd::prelude::*;
use crate::text::{chars_of, has_char, rows, slice_of, split, split_chars, string_of, texts, trim};
use crate::utils::split_strings;

verus! {

/// One sample as the manifest declares it.
pub struct SeqDirs {
    /// The sample's identifier.
    pub id: String,
    /// The directory that holds the sample's reads.
    pub dir: String,
}

/// What a `SeqDirs` holds.
pub struct Entry {
    pub id: Seq<char>,
    pub dir: Seq<char>,
}

impl View for SeqDirs {
    type V = Entry;

    open spec fn view(&self) -> Entry {
        Entry { id: self.id@, dir: self.dir@ }
    }
}

/// Why a manifest was refused.
#[derive(Debug)]
pub enum ManifestError {
    /// A line holds neither a comma nor a colon.
    InvalidManifestFormat { line: String },
    /// A line does not split into exactly two fields.
    InvalidManifestFields { fields: Vec<String> },
}

/// What a `ManifestError` holds.
pub enum Refusal {
    InvalidManifestFormat { line: Seq<char> },
    InvalidManifestFields { fields: Seq<Seq<char>> },
}

impl View for ManifestError {
    type V = Refusal;

    open spec fn view(&self) -> Refusal {
        match self {
            ManifestError::InvalidManifestFormat { line } => Refusal::InvalidManifestFormat {
                line: line@,
            },
            ManifestError::InvalidManifestFields { fields } => Refusal::InvalidManifestFields {
                fields: texts(fields@),
            },
        }
    }
}

/// What each entry of `v` holds.
pub open spec fn entries(v: Seq<SeqDirs>) -> Seq<Entry> {
    v.map_values(|d: SeqDirs| d@)
}

/// The trimmed fields of `line` under the separator `sep`.
pub open spec fn fields_of(line: Seq<char>, sep: char) -> Seq<Seq<char>> {
    split(line, sep).map_values(|f: Seq<char>| trim(f))
}

/// The entry that the trimmed fields `fields` declare: exactly two of them,
/// the identifier and the directory.
pub open spec fn entry_of(fields: Seq<Seq<char>>) -> Result<Entry, Refusal> {
    if fields.len() == 2 {
        Ok(Entry { id: fields[0], dir: fields[1] })
    } else {
        Err(Refusal::InvalidManifestFields { fields })
    }
}

/// The separator of `line`: a comma where the line holds one, else a colon
/// where it holds one.
pub open spec fn separator_of(line: Seq<char>) -> Option<char> {
    if line.contains(',') {
        Some(',')
    } else if line.contains(':') {
        Some(':')
    } else {
        None
    }
}

/// What one manifest line declares.
pub open spec fn parse_line(line: Seq<char>) -> Result<Entry, Refusal> {
    match separator_of(line) {
        Some(sep) => entry_of(fields_of(line, sep)),
        None => Err(Refusal::InvalidManifestFormat { line }),
    }
}

/// `line` without the carriage return that ends it, if one does.
pub open spec fn without_cr(line: Seq<char>) -> Seq<char> {
    if line.len() > 0 && line.last() == '\r' {
        line.drop_last()
    } else {
        line
    }
}

/// What the lines `lines` declare, in order. Empty lines declare nothing.
/// The first line that is refused decides the result.
pub open spec fn parse_body(lines: Seq<Seq<char>>) -> Result<Seq<Entry>, Refusal>
    decreases lines.len(),
{
    if lines.len() == 0 {
        Ok(Seq::empty())
    } else {
        match parse_body(lines.drop_last()) {
            Err(e) => Err(e),
            Ok(before) => {
                let line = without_cr(lines.last());
                if line.len() == 0 {
                    Ok(before)
                } else {
                    match parse_line(line) {
                        Ok(entry) => Ok(before.push(entry)),
                        Err(e) => Err(e),
                    }
                }
            },
        }
    }
}

/// What the manifest `text` declares: its lines end at `\n`, the first one
/// is a header and is passed over.
pub open spec fn parse_manifest(text: Seq<char>) -> Result<Seq<Entry>, Refusal> {
    parse_body(split(text, '\n').skip(1))
}

/// A refusal among the first lines of a manifest is the refusal of the whole.
pub proof fn lemma_refusal_stands(lines: Seq<Seq<char>>, k: int)
    requires
        0 <= k <= lines.len(),
        parse_body(lines.take(k)) is Err,
    ensures
        parse_body(lines) == parse_body(lines.take(k)),
    decreases lines.len() - k,
{
    if k < lines.len() {
        assert(lines.take(k + 1).drop_last() == lines.take(k));
        lemma_refusal_stands(lines, k + 1);
    } else {
        assert(lines.take(k) == lines);
    }
}

/// A line of two fields around a comma declares the entry of its trimmed
/// fields, whatever white space surrounds them.
pub proof fn lemma_comma_line_declares(id: Seq<char>, dir: Seq<char>)
    requires
        !id.contains(','),
        !dir.contains(','),
    ensures
        parse_line(id + seq![','] + dir) == Ok::<Entry, Refusal>(
            Entry { id: trim(id), dir: trim(dir) },
        ),
{
    let line = id + seq![','] + dir;
    crate::text::lemma_split_two(id, dir, ',');
    assert(line[id.len() as int] == ',');
    assert(line.contains(','));
}

/// A line of two fields around a colon, with no comma in it, declares the
/// entry of its trimmed fields, whatever white space surrounds them.
pub proof fn lemma_colon_line_declares(id: Seq<char>, dir: Seq<char>)
    requires
        !id.contains(':'),
        !dir.contains(':'),
        !id.contains(','),
        !dir.contains(','),
    ensures
        parse_line(id + seq![':'] + dir) == Ok::<Entry, Refusal>(
            Entry { id: trim(id), dir: trim(dir) },
        ),
{
    let line = id + seq![':'] + dir;
    crate::text::lemma_split_two(id, dir, ':');
    assert(line[id.len() as int] == ':');
    assert(line.contains(':'));
    if line.contains(',') {
        let k = choose|k: int| 0 <= k < line.len() && line[k] == ',';
        if k < id.len() {
            assert(id[k] == ',');
            assert(id.contains(','));
        } else {
            assert(dir[k - id.len() - 1] == ',');
            assert(dir.contains(','));
        }
    }
}

/// A line whose separator makes more or fewer than two fields is refused,
/// and the refusal holds the fields that were found.
pub proof fn lemma_wrong_field_count_is_refused(line: Seq<char>)
    requires
        separator_of(line) is Some,
        split(line, separator_of(line)->0).len() != 2,
    ensures
        parse_line(line) == Err::<Entry, Refusal>(
            Refusal::InvalidManifestFields { fields: fields_of(line, separator_of(line)->0) },
        ),
{
}

/// Three fields around two colons are one field too many.
pub proof fn lemma_three_colon_fields_are_refused(a: Seq<char>, b: Seq<char>, c: Seq<char>)
    requires
        !(a + b + c).contains(','),
        !a.contains(':'),
        !b.contains(':'),
        !c.contains(':'),
    ensures
        parse_line(a + seq![':'] + b + seq![':'] + c) is Err,
{
    let line = a + seq![':'] + b + seq![':'] + c;
    assert(line == a + seq![':'] + (b + seq![':'] + c));
    crate::text::lemma_split_first(a, b + seq![':'] + c, ':');
    crate::text::lemma_split_two(b, c, ':');
    assert(split(line, ':').len() == 3);
    assert(line[a.len() as int] == ':');
    assert(line.contains(':'));
    if line.contains(',') {
        let k = choose|k: int| 0 <= k < line.len() && line[k] == ',';
        let plain = a + b + c;
        if k < a.len() {
            assert(plain[k] == ',');
        } else if k < a.len() + 1 + b.len() {
            assert(plain[k - 1] == ',');
        } else {
            assert(plain[k - 2] == ',');
        }
        assert(plain.contains(','));
    }
}

/// One line that is refused is enough for the whole manifest to be refused:
/// no entry of it is handed out.
pub proof fn lemma_refused_line_refuses_manifest(lines: Seq<Seq<char>>, k: int)
    requires
        0 <= k < lines.len(),
        without_cr(lines[k]).len() > 0,
        parse_line(without_cr(lines[k])) is Err,
    ensures
        parse_body(lines) is Err,
{
    assert(lines.take(k + 1).drop_last() == lines.take(k));
    assert(lines.take(k + 1).last() == lines[k]);
    lemma_refusal_stands(lines, k + 1);
}

/// A manifest that is accepted declares one entry for each of its lines
/// that is not empty, in order: a line added at the end adds its entry at
/// the end.
pub proof fn lemma_accepted_line_adds_entry(lines: Seq<Seq<char>>, line: Seq<char>)
    requires
        parse_body(lines) is Ok,
        without_cr(line).len() > 0,
        parse_line(without_cr(line)) is Ok,
    ensures
        parse_body(lines.push(line)) == Ok::<Seq<Entry>, Refusal>(
            parse_body(lines)->Ok_0.push(parse_line(without_cr(line))->Ok_0),
        ),
{
    assert(lines.push(line).drop_last() == lines);
}

/// A copy of each string of `v`.
pub fn clone_strings(v: &[String]) -> (out: Vec<String>)
    ensures
        texts(out@) == texts(v@),
{
    let mut out: Vec<String> = Vec::new();
    let mut i: usize = 0;
    while i < v.len()
        invariant
            i <= v.len(),
            texts(out@) == texts(v@).take(i as int),
        decreases v.len() - i,
    {
        let s = v[i].clone();
        assert(texts(out@.push(s)) == texts(out@).push(s@));
        assert(texts(v@).take(i as int).push(v@[i as int]@) == texts(v@).take(i as int + 1));
        out.push(s);
        i += 1;
    }
    assert(texts(v@).take(v.len() as int) == texts(v@));
    out
}

impl SeqDirs {
    /// An entry with an empty identifier and an empty directory.
    pub fn new() -> (s: Self)
        ensures
            s@ == (Entry { id: Seq::empty(), dir: Seq::empty() }),
    {
        Self { id: String::new(), dir: String::new() }
    }

    /// Reads a comma-separated line into this entry.
    pub fn parse_csv(&mut self, line: &str) -> (r: Result<(), ManifestError>)
        ensures
            match r {
                Ok(_) => entry_of(fields_of(line@, ',')) == Ok::<Entry, Refusal>(final(self)@),
                Err(e) => entry_of(fields_of(line@, ',')) == Err::<Entry, Refusal>(e@)
                    && final(self)@ == old(self)@,
            },
    {
        self.parse_fields(line, ',')
    }

    /// Reads a colon-separated line into this entry.
    pub fn parse_ini(&mut self, line: &str) -> (r: Result<(), ManifestError>)
        ensures
            match r {
                Ok(_) => entry_of(fields_of(line@, ':')) == Ok::<Entry, Refusal>(final(self)@),
                Err(e) => entry_of(fields_of(line@, ':')) == Err::<Entry, Refusal>(e@)
                    && final(self)@ == old(self)@,
            },
    {
        self.parse_fields(line, ':')
    }

    /// Reads a line into this entry, under the separator `sep`.
    fn parse_fields(&mut self, line: &str, sep: char) -> (r: Result<(), ManifestError>)
        ensures
            match r {
                Ok(_) => entry_of(fields_of(line@, sep)) == Ok::<Entry, Refusal>(final(self)@),
                Err(e) => entry_of(fields_of(line@, sep)) == Err::<Entry, Refusal>(e@)
                    && final(self)@ == old(self)@,
            },
    {
        let lines = split_strings(line, sep);
        match self.check_results(lines.as_slice()) {
            Ok(_) => {
                self.parse_samples(lines.as_slice());
                Ok(())
            },
            Err(e) => Err(e),
        }
    }

    /// Takes the identifier and the directory from the first two of `lines`.
    pub fn parse_samples(&mut self, lines: &[String])
        requires
            lines.len() >= 2,
        ensures
            final(self)@ == (Entry { id: lines[0]@, dir: lines[1]@ }),
    {
        self.id = lines[0].clone();
        self.dir = lines[1].clone();
    }

    /// Accepts `lines` where they are exactly two fields.
    pub fn check_results(&self, lines: &[String]) -> (r: Result<(), ManifestError>)
        ensures
            r is Ok <==> lines.len() == 2,
            r matches Err(e) ==> e@ == (Refusal::InvalidManifestFields { fields: texts(lines@) }),
    {
        if lines.len() != 2 {
            Err(ManifestError::InvalidManifestFields { fields: clone_strings(lines) })
        } else {
            Ok(())
        }
    }
}

/// The entry that `line` declares: split at a comma where the line holds
/// one, else at a colon.
pub fn parse_sample_line(line: &str) -> (r: Result<SeqDirs, ManifestError>)
    ensures
        match r {
            Ok(s) => parse_line(line@) == Ok::<Entry, Refusal>(s@),
            Err(e) => parse_line(line@) == Err::<Entry, Refusal>(e@),
        },
{
    let chars = chars_of(line);
    let mut sample = SeqDirs::new();
    if has_char(&chars, ',') {
        match sample.parse_csv(line) {
            Ok(_) => Ok(sample),
            Err(e) => Err(e),
        }
    } else if has_char(&chars, ':') {
        match sample.parse_ini(line) {
            Ok(_) => Ok(sample),
            Err(e) => Err(e),
        }
    } else {
        Err(ManifestError::InvalidManifestFormat { line: string_of(&chars) })
    }
}

/// The samples that the manifest `text` declares, in the order of its lines,
/// or the refusal of the first line that cannot be read.
#[verifier::rlimit(50)]
pub fn parse_seqdir(text: &str) -> (r: Result<Vec<SeqDirs>, ManifestError>)
    ensures
        match r {
            Ok(v) => parse_manifest(text@) == Ok::<Seq<Entry>, Refusal>(entries(v@)),
            Err(e) => parse_manifest(text@) == Err::<Seq<Entry>, Refusal>(e@),
        },
{
    let chars = chars_of(text);
    let lines = split_chars(&chars, '\n');
    let ghost body = split(text@, '\n').skip(1);
    let mut seqdir: Vec<SeqDirs> = Vec::new();
    let mut i: usize = 1;
    proof {
        assert(split(text@, '\n').len() >= 1) by {
            crate::text::lemma_split_len(text@, '\n');
        }
        assert(rows(lines@).len() == lines.len());
        assert(body.take(0) == Seq::<Seq<char>>::empty());
        assert(entries(seqdir@) == Seq::<Entry>::empty());
    }
    while i < lines.len()
        invariant
            1 <= i <= lines.len(),
            rows(lines@) == split(text@, '\n'),
            body == split(text@, '\n').skip(1),
            parse_body(body.take(i - 1)) == Ok::<Seq<Entry>, Refusal>(entries(seqdir@)),
        decreases lines.len() - i,
    {
        let raw = &lines[i];
        let n: usize = raw.len();
        let line = if n > 0 && raw[n - 1] == '\r' {
            slice_of(raw, 0, n - 1)
        } else {
            slice_of(raw, 0, n)
        };
        proof {
            assert(rows(lines@)[i as int] == raw@);
            assert(body[i - 1] == raw@);
            assert(body.take(i as int).drop_last() == body.take(i - 1));
            assert(body.take(i as int).last() == raw@);
            assert(line@ == without_cr(raw@));
        }
        if line.len() > 0 {
            let text_line = string_of(&line);
            match parse_sample_line(text_line.as_str()) {
                Ok(sample) => {
                    assert(entries(seqdir@.push(sample)) == entries(seqdir@).push(sample@));
                    seqdir.push(sample);
                },
                Err(e) => {
                    proof {
                        lemma_refusal_stands(body, i as int);
                    }
                    return Err(e);
                },
            }
        }
        i += 1;
    }
    assert(body.take(lines.len() - 1) == body);
    Ok(seqdir)
}

} // verus!
