//! The regions of a process and the reads made from them.

use crate::text::{
    blank_end, chars_of, decimal, find, hex_u64, parse_hex, push_decimal, scan_blank, scan_for,
    scan_token, token_end,
};
use vstd::prelude::*;

verus! {

/// One contiguous mapped range of the target process.
#[derive(Debug)]
pub struct MemoryMap {
    /// Where the range starts, and where it ends (exclusive).
    pub address: (u64, u64),
    /// The access flags, as the system reports them.
    pub perms: String,
    /// The file behind the range; `None` for anonymous memory.
    pub filepath: Option<String>,
}

/// What a `MemoryMap` holds, as plain values.
pub struct Region {
    pub start: u64,
    pub end: u64,
    pub perms: Seq<char>,
    pub path: Option<Seq<char>>,
}

impl Region {
    /// The name under which a region is reported.
    pub open spec fn name(self) -> Seq<char> {
        match self.path {
            Some(p) => p,
            None => "[anonymous memory]"@,
        }
    }
}

impl View for MemoryMap {
    type V = Region;

    open spec fn view(&self) -> Region {
        Region {
            start: self.address.0,
            end: self.address.1,
            perms: self.perms@,
            path: match self.filepath {
                Some(p) => Some(p@),
                None => None,
            },
        }
    }
}

impl MemoryMap {
    /// A region ends after it starts.
    pub open spec fn wf(&self) -> bool {
        self.address.0 < self.address.1
    }

    pub fn address(&self) -> (r: u64)
        ensures
            r == self.address.0,
    {
        self.address.0
    }

    pub fn start(&self) -> (r: u64)
        ensures
            r == self.address.0,
    {
        self.address.0
    }

    pub fn size(&self) -> (r: u64)
        requires
            self.wf(),
        ensures
            r == self.address.1 - self.address.0,
    {
        self.address.1 - self.address.0
    }

    pub fn name(&self) -> (r: String)
        ensures
            r@ == self@.name(),
    {
        match &self.filepath {
            Some(name) => name.clone(),
            None => String::from_str("[anonymous memory]"),
        }
    }
}

/// Where the field that follows the single space at `from` ends, if a space
/// stands at `from` and a field follows it.
pub open spec fn field_end(s: Seq<char>, from: int) -> Option<int> {
    if 0 <= from < s.len() && s[from] == ' ' && token_end(s, from + 1) > from + 1 {
        Some(token_end(s, from + 1))
    } else {
        None
    }
}

/// The region that one line of a region table describes. A line reads
/// `start-end perms offset dev inode`, its fields one space apart, then
/// white space, then the path up to the end of the line if there is one.
/// `start` and `end` are hexadecimal numerals of at most 64 bits, `start`
/// below `end`.
pub open spec fn line_region(s: Seq<char>) -> Option<Region> {
    let e1 = token_end(s, 0);
    let d = find(s, '-', 0, e1);
    if d >= e1 {
        None
    } else {
        let start = hex_u64(s.subrange(0, d));
        let end = hex_u64(s.subrange(d + 1, e1));
        let e2 = field_end(s, e1);
        let e3 = field_end(s, e2->0);
        let e4 = field_end(s, e3->0);
        let e5 = field_end(s, e4->0);
        let b = blank_end(s, e5->0);
        if start is Some && end is Some && start->0 < end->0 && e2 is Some && e3 is Some && e4 is Some
            && e5 is Some && e5->0 < s.len() {
            Some(
                Region {
                    start: start->0,
                    end: end->0,
                    perms: s.subrange(e1 + 1, e2->0),
                    path: if b < s.len() {
                        Some(s.subrange(b, s.len() as int))
                    } else {
                        None
                    },
                },
            )
        } else {
            None
        }
    }
}

fn scan_field(v: &Vec<char>, from: usize) -> (r: Option<usize>)
    requires
        from <= v.len(),
    ensures
        match r {
            Some(e) => field_end(v@, from as int) == Some(e as int) && from + 1 < e <= v.len(),
            None => field_end(v@, from as int) is None,
        },
{
    if from >= v.len() || v[from] != ' ' {
        return None;
    }
    let e: usize = scan_token(v, from + 1);
    if e == from + 1 {
        None
    } else {
        Some(e)
    }
}

/// Reads one line of a region table.
pub fn parse_line(line: &str) -> (r: Option<MemoryMap>)
    ensures
        match r {
            Some(m) => line_region(line@) == Some(m@) && m.wf(),
            None => line_region(line@) is None,
        },
{
    let v = chars_of(line);
    let n: usize = v.len();
    let e1: usize = scan_token(&v, 0);
    let d: usize = scan_for(&v, '-', 0, e1);
    if d >= e1 {
        return None;
    }
    let (start, end) = match (parse_hex(&v, 0, d), parse_hex(&v, d + 1, e1)) {
        (Some(start), Some(end)) => (start, end),
        _ => {
            return None;
        },
    };
    if start >= end {
        return None;
    }
    let e2: usize = match scan_field(&v, e1) {
        Some(e) => e,
        None => {
            return None;
        },
    };
    let e3: usize = match scan_field(&v, e2) {
        Some(e) => e,
        None => {
            return None;
        },
    };
    let e4: usize = match scan_field(&v, e3) {
        Some(e) => e,
        None => {
            return None;
        },
    };
    let e5: usize = match scan_field(&v, e4) {
        Some(e) => e,
        None => {
            return None;
        },
    };
    if e5 >= n {
        return None;
    }
    let b: usize = scan_blank(&v, e5);
    let perms = line.substring_char(e1 + 1, e2).to_owned();
    let filepath = if b < n {
        Some(line.substring_char(b, n).to_owned())
    } else {
        None
    };
    Some(MemoryMap { address: (start, end), perms, filepath })
}

/// The index of the first line feed at or after `from`, or the length of `s`.
pub open spec fn line_end(s: Seq<char>, from: int) -> int {
    find(s, '\n', from, s.len() as int)
}

/// The line that starts at `from`, without its line feed, and without the
/// carriage return before that line feed.
pub open spec fn line_at(s: Seq<char>, from: int) -> Seq<char> {
    let e = line_end(s, from);
    if e < s.len() && from < e && s[e - 1] == '\r' {
        s.subrange(from, e - 1)
    } else {
        s.subrange(from, e)
    }
}

/// The lines of `s` from index `from` on.
pub open spec fn lines_from(s: Seq<char>, from: int) -> Seq<Seq<char>>
    decreases s.len() - from,
{
    if from >= s.len() || from < 0 {
        Seq::empty()
    } else {
        proof {
            lemma_find_bounds(s, '\n', from, s.len() as int);
        }
        seq![line_at(s, from)] + if line_end(s, from) < s.len() {
            lines_from(s, line_end(s, from) + 1)
        } else {
            Seq::empty()
        }
    }
}

/// The lines of a text. Each ends at a line feed or at the end of the text;
/// after a final line feed no further line follows.
pub open spec fn lines(s: Seq<char>) -> Seq<Seq<char>> {
    lines_from(s, 0)
}

/// What `find` returns lies between the bounds it was given.
pub proof fn lemma_find_bounds(s: Seq<char>, c: char, from: int, to: int)
    requires
        0 <= from <= to <= s.len(),
    ensures
        from <= find(s, c, from, to) <= to,
    decreases to - from,
{
    if from < to && s[from] != c {
        lemma_find_bounds(s, c, from + 1, to);
    }
}

/// Why a region table was refused.
#[derive(Debug, Clone, Copy, PartialEq, Eq, Structural)]
pub struct MapsError {
    /// The index of the first line that is no region, counted from 0.
    pub line: usize,
}

/// Whether `regions` are the regions of the first `regions.len()` lines of
/// `table`, in the table's order.
pub open spec fn regions_of(regions: Seq<MemoryMap>, table: Seq<Seq<char>>) -> bool {
    &&& regions.len() <= table.len()
    &&& forall|i: int|
        0 <= i < regions.len() ==> line_region(table[i]) == Some((#[trigger] regions[i])@)
            && regions[i].wf()
}

/// Whether the lines of `table` that describe a region come in
/// non-decreasing order of their start addresses.
pub open spec fn table_ascends(table: Seq<Seq<char>>) -> bool {
    forall|i: int, j: int|
        0 <= i <= j < table.len() && line_region(table[i]) is Some && line_region(table[j]) is Some
            ==> (#[trigger] line_region(table[i]))->0.start <= (#[trigger] line_region(
            table[j],
        ))->0.start
}

/// A line that describes a region is not empty.
pub proof fn lemma_region_line_not_empty(line: Seq<char>)
    requires
        line_region(line) is Some,
    ensures
        line.len() > 0,
{
}

/// The regions read from a table whose lines ascend by start address ascend
/// by start address too; there is one region for each line, and none of
/// those lines is empty.
pub proof fn lemma_regions_follow_table(regions: Seq<MemoryMap>, table: Seq<Seq<char>>)
    requires
        regions.len() == table.len(),
        regions_of(regions, table),
        table_ascends(table),
    ensures
        forall|i: int, j: int|
            0 <= i <= j < regions.len() ==> (#[trigger] regions[i]).address.0 <= (
            #[trigger] regions[j]).address.0,
        forall|i: int| 0 <= i < table.len() ==> (#[trigger] table[i]).len() > 0,
{
    assert forall|i: int, j: int| 0 <= i <= j < regions.len() implies (
    #[trigger] regions[i]).address.0 <= (#[trigger] regions[j]).address.0 by {
        assert(line_region(table[i]) == Some(regions[i]@));
        assert(line_region(table[j]) == Some(regions[j]@));
    }
    assert forall|i: int| 0 <= i < table.len() implies (#[trigger] table[i]).len() > 0 by {
        assert(line_region(table[i]) == Some(regions[i]@));
        lemma_region_line_not_empty(table[i]);
    }
}

/// The target process of a scan.
#[derive(Debug, Clone, Copy, PartialEq, Eq, Structural)]
pub struct RemoteMemory {
    pid: i32,
}

/// Why a read from the target failed.
#[derive(Debug, Clone, Copy, PartialEq, Eq, Structural)]
pub enum ReadError {
    /// The system refused the read, with this error number.
    Os(i32),
    /// Fewer bytes than were asked for came back.
    Short { wanted: usize, got: usize },
}

impl RemoteMemory {
    pub closed spec fn spec_pid(&self) -> i32 {
        self.pid
    }

    pub fn new(pid: i32) -> (r: Self)
        ensures
            r.spec_pid() == pid,
    {
        Self { pid }
    }

    #[verifier::when_used_as_spec(spec_pid)]
    pub fn pid(&self) -> (r: i32)
        ensures
            r == self.spec_pid(),
    {
        self.pid
    }

    /// The path of the file that holds the region table of the target.
    pub fn maps_path(&self) -> (r: String)
        ensures
            r@ == maps_path_of(self.spec_pid() as int),
    {
        let mut path = String::from_str("/proc/");
        if self.pid < 0 {
            path.append("-");
            let magnitude: i64 = -(self.pid as i64);
            push_decimal(&mut path, magnitude as usize);
        } else {
            push_decimal(&mut path, self.pid as usize);
        }
        path.append("/maps");
        proof {
            reveal_strlit("-");
            assert(path@ =~= maps_path_of(self.spec_pid() as int));
        }
        path
    }

    /// Reads the region table of the target from its text: one region for
    /// each line, in the table's order. The first line that is no region
    /// fails the whole table.
    pub fn read_maps(&self, table: &str) -> (r: Result<Vec<MemoryMap>, MapsError>)
        ensures
            match r {
                Ok(regions) => regions.len() == lines(table@).len() && regions_of(
                    regions@,
                    lines(table@),
                ),
                Err(e) => e.line < lines(table@).len() && line_region(lines(table@)[e.line as int])
                    is None && forall|i: int|
                    0 <= i < e.line ==> (#[trigger] line_region(lines(table@)[i])) is Some,
            },
    {
        let v = chars_of(table);
        let n: usize = v.len();
        let mut regions: Vec<MemoryMap> = Vec::new();
        let mut from: usize = 0;
        let ghost mut done: Seq<Seq<char>> = Seq::empty();
        while from < n
            invariant
                from <= n == v.len(),
                v@ == table@,
                lines(table@) == done + lines_from(table@, from as int),
                regions.len() == done.len(),
                regions_of(regions@, done),
            decreases n - from,
        {
            let e: usize = scan_for(&v, '\n', from, n);
            let cut: usize = if e < n && from < e && v[e - 1] == '\r' {
                e - 1
            } else {
                e
            };
            let line = table.substring_char(from, cut);
            proof {
                assert(line@ == line_at(table@, from as int));
                assert(done + lines_from(table@, from as int) =~= done.push(line@) + lines_from(
                    table@,
                    e as int + 1,
                ));
            }
            match parse_line(line) {
                None => {
                    proof {
                        assert(lines(table@)[done.len() as int] == line@);
                        assert forall|i: int| 0 <= i < done.len() implies (#[trigger] line_region(
                            lines(table@)[i],
                        )) is Some by {
                            assert(lines(table@)[i] == done[i]);
                            assert(line_region(done[i]) == Some(regions@[i]@));
                        }
                    }
                    return Err(MapsError { line: regions.len() });
                },
                Some(m) => {
                    regions.push(m);
                },
            }
            proof {
                done = done.push(line@);
            }
            from = if e < n {
                e + 1
            } else {
                n
            };
        }
        proof {
            assert(lines(table@) =~= done);
        }
        Ok(regions)
    }

    /// Judges a read of `len` bytes from the start of a region. `buffer`
    /// holds what the read filled; `outcome` is the number of bytes that
    /// the system says it copied, or its error number. The read counts only
    /// if all `len` bytes came.
    pub fn read_memory(
        &self,
        len: usize,
        buffer: Vec<u8>,
        outcome: Result<usize, i32>,
    ) -> (r: Result<Vec<u8>, ReadError>)
        ensures
            r == read_result(len, buffer, outcome),
            r is Ok ==> r->Ok_0@.len() == len,
    {
        match outcome {
            Err(errno) => Err(ReadError::Os(errno)),
            Ok(got) => {
                if got == len && buffer.len() == len {
                    Ok(buffer)
                } else {
                    Err(ReadError::Short { wanted: len, got })
                }
            },
        }
    }
}

/// The decimal numeral of `i`, with a minus sign before it if `i` is below 0.
pub open spec fn signed_decimal(i: int) -> Seq<char> {
    if i < 0 {
        seq!['-'] + decimal((-i) as nat)
    } else {
        decimal(i as nat)
    }
}

/// The path of the region table of the process `pid`.
pub open spec fn maps_path_of(pid: int) -> Seq<char> {
    "/proc/"@ + signed_decimal(pid) + "/maps"@
}

/// What a read of `len` bytes comes to: the buffer, if the system copied
/// `len` bytes into a buffer of that length; else the failure.
pub open spec fn read_result(len: usize, buffer: Vec<u8>, outcome: Result<usize, i32>) -> Result<
    Vec<u8>,
    ReadError,
> {
    match outcome {
        Err(errno) => Err(ReadError::Os(errno)),
        Ok(got) => if got == len && buffer@.len() == len {
            Ok(buffer)
        } else {
            Err(ReadError::Short { wanted: len, got })
        },
    }
}

} // verus!
