//! One pass over the regions of a process: what to do with each region, and
//! the record of what was written out.

use crate::argparse::Args;
use crate::dex::{accepts, MemoryDex};
use crate::memory::{MemoryMap, ReadError, Region, RemoteMemory};
use crate::text::{decimal, hexadecimal, lemma_decimal_differs, push_decimal, push_hex};
use vstd::prelude::*;

verus! {

/// One file written out, and where it came from.
#[derive(Debug)]
pub struct DumpRecord {
    /// The name of the file.
    pub file: String,
    /// The name of the region that held it.
    pub source: String,
}

/// What a `DumpRecord` holds, as plain values.
pub struct Entry {
    pub file: Seq<char>,
    pub source: Seq<char>,
}

impl View for DumpRecord {
    type V = Entry;

    open spec fn view(&self) -> Entry {
        Entry { file: self.file@, source: self.source@ }
    }
}

/// A file to write: its name and its contents.
#[derive(Debug)]
pub struct Output {
    pub name: String,
    pub bytes: Vec<u8>,
}

/// The name of the file with the sequence number `index`.
pub open spec fn file_name(index: nat) -> Seq<char> {
    "dumped-"@ + decimal(index) + ".dex"@
}

/// The line of the manifest that stands for `e`.
pub open spec fn manifest_line(e: Entry) -> Seq<char> {
    e.file + seq![' '] + e.source
}

/// The text of the manifest: one line for each entry, in order, with a line
/// feed between two lines.
pub open spec fn manifest_text(entries: Seq<Entry>) -> Seq<char>
    decreases entries.len(),
{
    if entries.len() == 0 {
        Seq::empty()
    } else if entries.len() == 1 {
        manifest_line(entries[0])
    } else {
        manifest_text(entries.drop_last()) + seq!['\n'] + manifest_line(entries.last())
    }
}

/// The name of the file with the sequence number `index`.
pub fn output_name(index: usize) -> (r: String)
    ensures
        r@ == file_name(index as nat),
{
    let mut name = String::from_str("dumped-");
    push_decimal(&mut name, index);
    name.append(".dex");
    name
}

/// Files with different sequence numbers have different names.
pub proof fn lemma_file_names_differ(i: nat, j: nat)
    requires
        i != j,
    ensures
        file_name(i) != file_name(j),
{
    reveal_strlit("dumped-");
    reveal_strlit(".dex");
    lemma_decimal_differs(i, j);
    let a = file_name(i);
    let b = file_name(j);
    assert(decimal(i) =~= a.subrange(7, a.len() - 4));
    assert(decimal(j) =~= b.subrange(7, b.len() - 4));
}

/// The line that reports a DEX file found in `region`.
pub open spec fn found_text(region: Region) -> Seq<char> {
    "[*] Found dex at "@ + hexadecimal(region.start as nat) + " ("@ + region.perms + "): "@
        + region.name()
}

/// The line that reports a DEX file written out from `region`.
pub open spec fn dumped_text(region: Region) -> Seq<char> {
    "[*] Dumped dex at "@ + hexadecimal(region.start as nat) + ": "@ + region.name()
}

/// The line that mentions a region that holds no DEX file.
pub open spec fn skipped_text(region: Region) -> Seq<char> {
    "[*] Skipped: "@ + region.name()
}

/// The line that reports a DEX file found in `map`.
pub fn found_line(map: &MemoryMap) -> (r: String)
    ensures
        r@ == found_text(map@),
{
    let mut line = String::from_str("[*] Found dex at ");
    push_hex(&mut line, map.address());
    line.append(" (");
    line.append(map.perms.as_str());
    line.append("): ");
    line.append(map.name().as_str());
    line
}

/// The line that reports a DEX file written out from `map`.
pub fn dumped_line(map: &MemoryMap) -> (r: String)
    ensures
        r@ == dumped_text(map@),
{
    let mut line = String::from_str("[*] Dumped dex at ");
    push_hex(&mut line, map.address());
    line.append(": ");
    line.append(map.name().as_str());
    line
}

/// The line that mentions that `map` holds no DEX file.
pub fn skipped_line(map: &MemoryMap) -> (r: String)
    ensures
        r@ == skipped_text(map@),
{
    let mut line = String::from_str("[*] Skipped: ");
    line.append(map.name().as_str());
    line
}

/// What the probe of one region came to.
pub enum Probe<'a> {
    /// The region's first bytes could not be read: the region is skipped.
    Unreadable(ReadError),
    /// The region does not start with a DEX file: it is skipped, and
    /// mentioned if `log` is set.
    NotDex { log: bool },
    /// The region holds a DEX file, to be reported and no more.
    Found(MemoryDex<'a>),
    /// The region holds a DEX file, to be read in full and written out.
    Extract(MemoryDex<'a>),
}

/// The state of one pass over the regions of a process.
pub struct Dump {
    extracting: bool,
    verbose: bool,
    records: Vec<DumpRecord>,
}

impl Dump {
    /// Whether the pass writes the files it finds.
    pub closed spec fn extracting(&self) -> bool {
        self.extracting
    }

    /// Whether the pass mentions the regions that hold no DEX file.
    pub closed spec fn verbose(&self) -> bool {
        self.verbose
    }

    /// The files written so far, in the order in which they were found.
    pub closed spec fn entries(&self) -> Seq<Entry> {
        self.records@.map_values(|r: DumpRecord| r@)
    }

    /// A pass that only reports has written nothing, and the file at place
    /// `i` of the record carries the sequence number `i`.
    pub open spec fn wf(&self) -> bool {
        &&& !self.extracting() ==> self.entries().len() == 0
        &&& forall|i: int|
            0 <= i < self.entries().len() ==> (#[trigger] self.entries()[i]).file == file_name(
                i as nat,
            )
    }

    /// Starts a pass. `entries` is the number of entries that the
    /// destination directory holds, if one was asked for. A pass that would
    /// write into a directory that is not empty is refused.
    pub fn begin(args: &Args, entries: usize) -> (r: Option<Dump>)
        ensures
            r is None <==> args.extracts() && entries > 0,
            match r {
                Some(dump) => dump.wf() && dump.extracting() == args.extracts() && dump.verbose()
                    == args.verbose && dump.entries().len() == 0,
                None => true,
            },
    {
        let extracting = args.output_dir.is_some();
        if extracting && entries > 0 {
            return None;
        }
        let dump = Dump { extracting, verbose: args.verbose, records: Vec::new() };
        assert(dump.entries() =~= Seq::empty());
        Some(dump)
    }

    /// Decides what to do with the region `map`, from the outcome of a read
    /// of its first 112 bytes.
    pub fn probe<'a>(
        &self,
        memory: &'a RemoteMemory,
        map: &'a MemoryMap,
        header: Result<Vec<u8>, ReadError>,
    ) -> (r: Probe<'a>)
        requires
            map.wf(),
        ensures
            match header {
                Err(e) => r == Probe::Unreadable(e),
                Ok(bytes) => if bytes@.len() < 112 {
                    r == Probe::Unreadable(
                        ReadError::Short { wanted: 112, got: bytes@.len() as usize },
                    )
                } else if !accepts(bytes@, map@.end - map@.start) {
                    r == (Probe::NotDex { log: self.verbose() })
                } else {
                    match r {
                        Probe::Extract(dex) => self.extracting() && dex.header().decodes(bytes@)
                            && dex.map() == *map && dex.memory() == *memory,
                        Probe::Found(dex) => !self.extracting() && dex.header().decodes(bytes@)
                            && dex.map() == *map && dex.memory() == *memory,
                        _ => false,
                    }
                },
            },
    {
        let bytes = match header {
            Err(e) => {
                return Probe::Unreadable(e);
            },
            Ok(bytes) => bytes,
        };
        match MemoryDex::new(memory, map, bytes.as_slice()) {
            None => Probe::Unreadable(ReadError::Short { wanted: 112, got: bytes.len() }),
            Some(dex) => {
                if !dex.is_valid() {
                    Probe::NotDex { log: self.verbose }
                } else if self.extracting {
                    Probe::Extract(dex)
                } else {
                    Probe::Found(dex)
                }
            },
        }
    }

    /// Takes the outcome of the read of a file's full size and gives the
    /// file to write: the bytes read, under the next sequence number. The
    /// file is entered in the record. A failed or short read gives no file
    /// and leaves the record as it was.
    pub fn extract(&mut self, dex: &MemoryDex, payload: Result<Vec<u8>, ReadError>) -> (r: Result<
        Output,
        ReadError,
    >)
        requires
            old(self).wf(),
            old(self).extracting(),
        ensures
            final(self).wf(),
            final(self).extracting(),
            final(self).verbose() == old(self).verbose(),
            match r {
                Ok(output) => {
                    &&& payload is Ok
                    &&& output.bytes@ == payload->Ok_0@
                    &&& output.bytes@.len() == dex.header().file_size
                    &&& output.name@ == file_name(old(self).entries().len())
                    &&& final(self).entries() == old(self).entries().push(
                        Entry { file: output.name@, source: dex.map()@.name() },
                    )
                },
                Err(e) => {
                    &&& final(self).entries() == old(self).entries()
                    &&& match payload {
                        Err(cause) => e == cause,
                        Ok(bytes) => bytes@.len() != dex.header().file_size && e
                            == (ReadError::Short {
                            wanted: dex.header().file_size as usize,
                            got: bytes@.len() as usize,
                        }),
                    }
                },
            },
    {
        let bytes = match dex.dump(payload) {
            Err(e) => {
                return Err(e);
            },
            Ok(bytes) => bytes,
        };
        let name = output_name(self.records.len());
        let record = DumpRecord { file: name.clone(), source: dex.region().name() };
        self.records.push(record);
        proof {
            assert(final(self).entries() =~= old(self).entries().push(
                Entry { file: name@, source: dex.map()@.name() },
            ));
        }
        Ok(Output { name, bytes })
    }

    /// The files of a pass are numbered from 0 without a gap, in the order
    /// of the record, and so no two of them share a name.
    pub proof fn lemma_numbering(&self, i: int, j: int)
        requires
            self.wf(),
            0 <= i < self.entries().len(),
            0 <= j < self.entries().len(),
        ensures
            self.entries()[i].file == file_name(i as nat),
            i != j ==> self.entries()[i].file != self.entries()[j].file,
    {
        if i != j {
            lemma_file_names_differ(i as nat, j as nat);
        }
    }

    /// The number of files written so far.
    pub fn count(&self) -> (r: usize)
        ensures
            r == self.entries().len(),
    {
        self.records.len()
    }

    /// The text of the manifest, if the pass writes files: one line for each
    /// file written, in the order of their sequence numbers. A pass that only
    /// reports has no manifest.
    pub fn manifest(&self) -> (r: Option<String>)
        ensures
            r is Some <==> self.extracting(),
            r is Some ==> r->0@ == manifest_text(self.entries()),
    {
        if !self.extracting {
            return None;
        }
        let mut text = String::new();
        let n: usize = self.records.len();
        let mut i: usize = 0;
        while i < n
            invariant
                i <= n == self.records.len(),
                text@ == manifest_text(self.entries().take(i as int)),
            decreases n - i,
        {
            let ghost before = self.entries().take(i as int);
            let ghost after = self.entries().take(i + 1);
            proof {
                assert(after.drop_last() =~= before);
                assert(after.last() == self.records[i as int]@);
            }
            if i > 0 {
                text.append("\n");
            }
            text.append(self.records[i].file.as_str());
            text.append(" ");
            text.append(self.records[i].source.as_str());
            proof {
                reveal_strlit("\n");
                reveal_strlit(" ");
                assert(text@ =~= manifest_text(after));
            }
            i += 1;
        }
        proof {
            assert(self.entries().take(n as int) =~= self.entries());
        }
        Some(text)
    }
}

} // verus!
