//! Small helpers shared by the other modules: field splitting, the banner
//! printed above each sample, and the elapsed time as a clock reading.

use vstd::prelude::*;
use vstd::string::StringExecFns;
use crate::boundary::{clock_string, clock_text};
use crate::text::{
    chars_of, decimal, decimal_chars, repeat, split, split_chars, string_of, texts, trim,
    trim_chars,
};

verus! {

/// The fields of `lines` between occurrences of `sep`, each without the
/// white space around it.
pub fn split_strings(lines: &str, sep: char) -> (fields: Vec<String>)
    ensures
        texts(fields@) == split(lines@, sep).map_values(|f: Seq<char>| trim(f)),
{
    let chars = chars_of(lines);
    let raw = split_chars(&chars, sep);
    let mut fields: Vec<String> = Vec::new();
    let mut i: usize = 0;
    let ghost want = split(lines@, sep).map_values(|f: Seq<char>| trim(f));
    while i < raw.len()
        invariant
            i <= raw.len(),
            crate::text::rows(raw@) == split(lines@, sep),
            want == split(lines@, sep).map_values(|f: Seq<char>| trim(f)),
            texts(fields@) == want.take(i as int),
        decreases raw.len() - i,
    {
        let field = string_of(&trim_chars(&raw[i]));
        proof {
            assert(crate::text::rows(raw@)[i as int] == raw@[i as int]@);
            assert(texts(fields@.push(field)) == texts(fields@).push(field@));
            assert(want.take(i as int).push(want[i as int]) == want.take(i as int + 1));
        }
        fields.push(field);
        i += 1;
    }
    assert(want.take(raw.len() as int) == want);
    fields
}

/// How many bytes `text` takes in UTF-8.
pub open spec fn byte_len(text: Seq<char>) -> nat {
    vstd::utf8::encode_utf8(text).len()
}

/// How many symbols, less one, stand on each side of a text of `text_len`
/// bytes in a banner `len` wide.
pub open spec fn side(len: nat, text_len: nat) -> nat {
    if text_len <= len {
        ((len - text_len) / 2) as nat
    } else {
        0
    }
}

/// The run of symbols on one side of a banner.
pub open spec fn rule(sym: char, sym_len: nat) -> Seq<char> {
    repeat(sym, sym_len + 1)
}

/// A banner's line: the text between two runs of `sym`, with one more
/// symbol at the end where `text_len` is odd.
pub open spec fn framed(text: Seq<char>, sym: char, text_len: nat, sym_len: nat) -> Seq<char> {
    rule(sym, sym_len) + seq![' '] + text + seq![' '] + rule(sym, sym_len) + (if text_len % 2
        != 0 {
        seq![sym]
    } else {
        Seq::<char>::empty()
    }) + seq!['\n']
}

/// A banner `len` wide, in `color`: the framed text, or the bare text where
/// it is wider than the banner.
pub open spec fn header_text(text: Seq<char>, sym: char, len: nat, color: Seq<char>) -> Seq<
    char,
> {
    color + (if byte_len(text) > len {
        text + seq!['\n']
    } else {
        framed(text, sym, byte_len(text), side(len, byte_len(text)))
    }) + "\x1b[0m"@
}

/// The banner above the sample `text`.
pub open spec fn banner(text: Seq<char>) -> Seq<char> {
    header_text("Processing "@ + text, '=', 98, "\x1b[0;33m"@)
}

/// The seconds `duration` as hours, minutes and seconds on a clock.
pub open spec fn duration_text(duration: nat) -> Seq<char> {
    clock_text(duration / 3600, (duration / 60) % 60, duration % 60)
}

/// A text set off by a run of symbols on each side.
pub struct PrettyHeader {
    pub text: String,
    pub sym: char,
    pub len: usize,
    pub text_len: usize,
    pub sym_len: usize,
    pub color: String,
}

impl PrettyHeader {
    /// A yellow banner `len` wide for `text`, its lengths not yet measured.
    pub fn new(text: &str, sym: char, len: usize) -> (h: Self)
        ensures
            h.text@ == text@,
            h.sym == sym,
            h.len == len,
            h.text_len == 0,
            h.sym_len == 0,
            h.color@ == "\x1b[0;33m"@,
    {
        Self {
            text: text.to_owned(),
            sym,
            len,
            text_len: 0,
            sym_len: 0,
            color: "\x1b[0;33m".to_owned(),
        }
    }

    /// The banner, ready to be written out.
    pub fn print_header(&mut self) -> (out: String)
        ensures
            out@ == header_text(old(self).text@, old(self).sym, old(self).len as nat, old(self).color@),
            final(self).text == old(self).text,
            final(self).sym == old(self).sym,
            final(self).len == old(self).len,
            final(self).color == old(self).color,
            final(self).text_len == byte_len(old(self).text@),
            final(self).sym_len == side(old(self).len as nat, byte_len(old(self).text@)),
    {
        self.get_len();
        let mut out = String::new();
        out.append(self.color.as_str());
        if self.text_len > self.len {
            out.append(self.text.as_str());
            out.push('\n');
        } else {
            self.print_with_symbol(&mut out);
        }
        out.append("\x1b[0m");
        assert(out@ == header_text(self.text@, self.sym, self.len as nat, self.color@));
        out
    }

    /// Writes the framed text to `handle`.
    pub fn print_with_symbol(&mut self, handle: &mut String)
        ensures
            *final(self) == *old(self),
            final(handle)@ == old(handle)@ + framed(
                old(self).text@,
                old(self).sym,
                old(self).text_len as nat,
                old(self).sym_len as nat,
            ),
    {
        self.print_symbols(handle);
        handle.push(' ');
        handle.append(self.text.as_str());
        handle.push(' ');
        self.print_symbols(handle);
        if self.text_len % 2 != 0 {
            handle.push(self.sym);
        }
        handle.push('\n');
        assert(handle@ == old(handle)@ + framed(
            self.text@,
            self.sym,
            self.text_len as nat,
            self.sym_len as nat,
        ));
    }

    /// Measures the text and the run of symbols on each side of it.
    pub fn get_len(&mut self)
        ensures
            final(self).text == old(self).text,
            final(self).sym == old(self).sym,
            final(self).len == old(self).len,
            final(self).color == old(self).color,
            final(self).text_len == byte_len(old(self).text@),
            final(self).sym_len == side(old(self).len as nat, byte_len(old(self).text@)),
    {
        self.text_len = self.text.as_str().as_bytes().len();
        self.sym_len = if self.text_len <= self.len {
            (self.len - self.text_len) / 2
        } else {
            0
        };
    }

    /// Writes one run of symbols to `io`: one symbol more than `sym_len`.
    pub fn print_symbols(&self, io: &mut String)
        ensures
            final(io)@ == old(io)@ + rule(self.sym, self.sym_len as nat),
    {
        let mut i: usize = 0;
        while i < self.sym_len
            invariant
                i <= self.sym_len,
                io@ == old(io)@ + repeat(self.sym, i as nat),
            decreases self.sym_len - i,
        {
            io.push(self.sym);
            assert(repeat(self.sym, i as nat).push(self.sym) == repeat(self.sym, (i + 1) as nat));
            i += 1;
        }
        io.push(self.sym);
        assert(repeat(self.sym, i as nat).push(self.sym) == repeat(self.sym, (i + 1) as nat));
    }
}

/// The banner above the sample `text`, ready to be written out.
pub fn print_header(text: &str) -> (out: String)
    ensures
        out@ == banner(text@),
{
    let mut title = "Processing ".to_owned();
    title.append(text);
    let mut header = PrettyHeader::new(title.as_str(), '=', 98);
    header.print_header()
}

/// The notice that a run went well.
pub open spec fn done_text() -> Seq<char> {
    "\x1b[0;32mDONE!\x1b[0m\n"@
}

/// The notice that a run went well, ready to be written out.
pub fn print_done() -> (out: String)
    ensures
        out@ == done_text(),
{
    "\x1b[0;32mDONE!\x1b[0m\n".to_owned()
}

/// The seconds `duration`, less than a day, as `HH:MM:SS`.
pub fn parse_duration(duration: u64) -> (time: String)
    requires
        duration < 86400,
    ensures
        time@ == duration_text(duration as nat),
{
    let sec: u32 = (duration % 60) as u32;
    let min: u32 = ((duration / 60) % 60) as u32;
    let hours: u32 = ((duration / 60) / 60) as u32;
    assert((duration / 60) / 60 == duration / 3600);
    clock_string(hours, min, sec)
}

/// The line that reports the run time `duration`, less than a day.
pub fn print_formatted_duration(duration: u64) -> (line: String)
    requires
        duration < 86400,
    ensures
        line@ == "Execution time (HH:MM:SS): "@ + duration_text(duration as nat) + seq!['\n'],
{
    let time = parse_duration(duration);
    let mut line = "Execution time (HH:MM:SS): ".to_owned();
    line.append(time.as_str());
    line.push('\n');
    line
}

/// What is known of the machine that a batch runs on.
pub struct SystemInfo {
    /// The operating system's name.
    pub name: String,
    /// The operating system's version.
    pub os_version: String,
    /// The kernel's version.
    pub kernel_version: String,
    /// The number of physical cores.
    pub cores: usize,
    /// The number of threads that can run at once.
    pub threads: usize,
    /// The memory of the machine, in kilobytes.
    pub total_ram: u64,
}

/// How many kilobytes make a gigabyte.
pub open spec fn kb_per_gb() -> nat {
    1048576
}

/// The report of what is known of a machine.
pub open spec fn system_text(
    name: Seq<char>,
    os_version: Seq<char>,
    kernel_version: Seq<char>,
    cores: nat,
    threads: nat,
    total_ram: nat,
) -> Seq<char> {
    "\x1b[0;33mSystem Information\x1b[0m\n"@ + "Operating system\t: "@ + name + seq![' ']
        + os_version + seq!['\n'] + "Kernel version\t\t: "@ + kernel_version + seq!['\n']
        + "Available cores\t\t: "@ + decimal(cores) + seq!['\n'] + "Available threads\t: "@
        + decimal(threads) + seq!['\n'] + "Total RAM\t\t: "@ + decimal(total_ram / kb_per_gb())
        + " Gb\n"@ + seq!['\n']
}

/// The report of what is known of the machine `info`, ready to be written
/// out. The memory is given in whole gigabytes.
#[verifier::rlimit(50)]
pub fn get_system_info(info: &SystemInfo) -> (out: String)
    ensures
        out@ == system_text(
            info.name@,
            info.os_version@,
            info.kernel_version@,
            info.cores as nat,
            info.threads as nat,
            info.total_ram as nat,
        ),
{
    let gb: u64 = 1048576;
    let mut out = "\x1b[0;33mSystem Information\x1b[0m\n".to_owned();
    out.append("Operating system\t: ");
    out.append(info.name.as_str());
    out.push(' ');
    out.append(info.os_version.as_str());
    out.push('\n');
    out.append("Kernel version\t\t: ");
    out.append(info.kernel_version.as_str());
    out.push('\n');
    out.append("Available cores\t\t: ");
    out.append(string_of(&decimal_chars(info.cores as u64)).as_str());
    out.push('\n');
    out.append("Available threads\t: ");
    out.append(string_of(&decimal_chars(info.threads as u64)).as_str());
    out.push('\n');
    out.append("Total RAM\t\t: ");
    out.append(string_of(&decimal_chars(info.total_ram / gb)).as_str());
    out.append(" Gb\n");
    out.push('\n');
    out
}

} // verus!
