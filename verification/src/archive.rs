//! The entries of an archive and the rules that an entry has to meet.
//!
//! An archive path is relative, uses `/` between its segments, names no drive
//! or root and never steps up with `..`. No path enters an archive twice, and
//! nothing enters it once it is finished. The assembler here keeps these
//! rules; writing the accepted entries to a file is left to the caller.

use crate::text::chars_of;
use vstd::prelude::*;
use vstd::string::*;

verus! {

/// How the payload of an entry is compressed. There is one method, and no
/// setting to it.
#[derive(Clone, Copy, Debug, PartialEq, Eq, Structural)]
pub enum Compression {
    Deflate,
}

/// Why the assembler refuses an entry or a call.
#[derive(Clone, Copy, Debug, PartialEq, Eq, Structural)]
pub enum ArchiveError {
    /// The archive is finished.
    Finished,
    /// The path names a drive or a root, or holds a segment `..`.
    UnsafePath,
    /// An entry with this path is in the archive already.
    DuplicatePath,
}

/// One file of the archive.
#[derive(Clone, Debug, PartialEq, Eq)]
pub struct ArchiveEntry {
    pub path: String,
    pub payload: Vec<u8>,
    pub method: Compression,
}

/// An archive entry as plain sequences.
pub struct ArchiveEntryView {
    pub path: Seq<char>,
    pub payload: Seq<u8>,
    pub method: Compression,
}

impl View for ArchiveEntry {
    type V = ArchiveEntryView;

    open spec fn view(&self) -> ArchiveEntryView {
        ArchiveEntryView { path: self.path@, payload: self.payload@, method: self.method }
    }
}

/// `c` parts the segments of a path. The backslash counts, so that a path
/// written for another system is judged as that system would read it.
pub open spec fn is_separator(c: char) -> bool {
    c == '/' || c == '\\'
}

/// `c` is one of the letters `A` to `Z` or `a` to `z`.
pub open spec fn is_drive_letter(c: char) -> bool {
    ('A' <= c && c <= 'Z') || ('a' <= c && c <= 'z')
}

/// `path` begins at a root or on a drive.
pub open spec fn begins_with_volume(path: Seq<char>) -> bool {
    ||| path.len() >= 1 && is_separator(path[0])
    ||| path.len() >= 2 && is_drive_letter(path[0]) && path[1] == ':'
}

/// A segment `..` of `path` begins at `i`.
pub open spec fn parent_segment_at(path: Seq<char>, i: int) -> bool {
    &&& 0 <= i
    &&& i + 2 <= path.len()
    &&& path[i] == '.'
    &&& path[i + 1] == '.'
    &&& (i == 0 || is_separator(path[i - 1]))
    &&& (i + 2 == path.len() || is_separator(path[i + 2]))
}

/// Some segment of `path` is `..`.
pub open spec fn has_parent_segment(path: Seq<char>) -> bool {
    exists|i: int| parent_segment_at(path, i)
}

/// `path` may name an entry: it stays below the place where the archive is
/// unpacked.
pub open spec fn is_safe_archive_path(path: Seq<char>) -> bool {
    !begins_with_volume(path) && !has_parent_segment(path)
}

fn separates(c: char) -> (b: bool)
    ensures
        b == is_separator(c),
{
    c == '/' || c == '\\'
}

fn names_drive(c: char) -> (b: bool)
    ensures
        b == is_drive_letter(c),
{
    ('A' <= c && c <= 'Z') || ('a' <= c && c <= 'z')
}

fn volume_leads(path: &Vec<char>) -> (b: bool)
    ensures
        b == begins_with_volume(path@),
{
    let n: usize = path.len();
    (n >= 1 && separates(path[0])) || (n >= 2 && names_drive(path[0]) && path[1] == ':')
}

fn parent_segment_starts(path: &Vec<char>, i: usize) -> (b: bool)
    ensures
        b == parent_segment_at(path@, i as int),
{
    let n: usize = path.len();
    if n < 2 || i > n - 2 {
        return false;
    }
    path[i] == '.' && path[i + 1] == '.' && (i == 0 || separates(path[i - 1])) && (i + 2 == n
        || separates(path[i + 2]))
}

/// Whether `path` may name an entry of an archive.
pub fn check_archive_path(path: &str) -> (safe: bool)
    ensures
        safe == is_safe_archive_path(path@),
{
    let chars = chars_of(path);
    if volume_leads(&chars) {
        return false;
    }
    let n: usize = chars.len();
    let mut i: usize = 0;
    while i < n
        invariant
            i <= n,
            n == chars.len(),
            chars@ == path@,
            forall|k: int| 0 <= k < i ==> !parent_segment_at(path@, k),
        decreases n - i,
    {
        if parent_segment_starts(&chars, i) {
            return false;
        }
        i += 1;
    }
    true
}

/// The segments joined by `/`.
pub open spec fn joined(segments: Seq<Seq<char>>) -> Seq<char>
    decreases segments.len(),
{
    if segments.len() == 0 {
        Seq::empty()
    } else if segments.len() == 1 {
        segments[0]
    } else {
        joined(segments.drop_last()) + seq!['/'] + segments.last()
    }
}

/// The texts of a list of strings.
pub open spec fn texts(strings: Seq<String>) -> Seq<Seq<char>> {
    strings.map_values(|s: String| s@)
}

/// Writes a relative path in the notation of the archive, whatever the host
/// puts between the segments.
pub fn join_segments(segments: &Vec<String>) -> (path: String)
    ensures
        path@ == joined(texts(segments@)),
{
    let mut path = String::new();
    let n: usize = segments.len();
    let mut i: usize = 0;
    while i < n
        invariant
            i <= n,
            n == segments.len(),
            path@ == joined(texts(segments@).take(i as int)),
        decreases n - i,
    {
        let ghost before = texts(segments@).take(i as int);
        let ghost after = texts(segments@).take(i + 1);
        assert(after.drop_last() =~= before);
        if i > 0 {
            path.append("/");
            proof {
                reveal_strlit("/");
            }
        }
        path.append(segments[i].as_str());
        i += 1;
    }
    assert(texts(segments@).take(n as int) =~= texts(segments@));
    path
}

/// A segment as a file system hands it out: it is not empty and not `..`,
/// and holds neither a separator nor a colon.
pub open spec fn is_plain_segment(segment: Seq<char>) -> bool {
    &&& segment.len() > 0
    &&& !(segment.len() == 2 && segment[0] == '.' && segment[1] == '.')
    &&& forall|i: int|
        0 <= i < segment.len() ==> !is_separator(#[trigger] segment[i]) && segment[i] != ':'
}

/// All of the segments are plain.
pub open spec fn are_plain_segments(segments: Seq<Seq<char>>) -> bool {
    forall|k: int| 0 <= k < segments.len() ==> is_plain_segment(#[trigger] segments[k])
}

/// What the join of plain segments looks like: it begins like a segment,
/// holds no colon, and none of its segments is `..`.
proof fn lemma_joined_shape(segments: Seq<Seq<char>>)
    requires
        are_plain_segments(segments),
    ensures
        !has_parent_segment(joined(segments)),
        forall|i: int| 0 <= i < joined(segments).len() ==> joined(segments)[i] != ':',
        segments.len() > 0 ==> joined(segments).len() > 0 && !is_separator(joined(segments)[0]),
    decreases segments.len(),
{
    if segments.len() > 1 {
        let whole = joined(segments);
        let head = joined(segments.drop_last());
        let last = segments.last();
        assert(are_plain_segments(segments.drop_last()));
        lemma_joined_shape(segments.drop_last());
        // The join is the head, a slash, and the last segment.
        assert forall|i: int| 0 <= i < whole.len() implies whole[i] == (if i < head.len() {
            head[i]
        } else if i == head.len() {
            '/'
        } else {
            last[i - head.len() - 1]
        }) by {}
        // A segment `..` of the join would lie in the head, or be the last segment.
        assert forall|i: int| !parent_segment_at(whole, i) by {
            if parent_segment_at(whole, i) && i + 2 <= head.len() {
                assert(parent_segment_at(head, i));
            }
        }
    }
}

/// Plain segments join to a path that may name an entry.
pub proof fn lemma_plain_segments_join_safely(segments: Seq<Seq<char>>)
    requires
        are_plain_segments(segments),
    ensures
        is_safe_archive_path(joined(segments)),
{
    lemma_joined_shape(segments);
}

/// Why an archive with the paths `paths` refuses an entry at `path`, if it
/// does.
pub open spec fn refusal(finished: bool, paths: Seq<Seq<char>>, path: Seq<char>) -> Option<
    ArchiveError,
> {
    if finished {
        Some(ArchiveError::Finished)
    } else if !is_safe_archive_path(path) {
        Some(ArchiveError::UnsafePath)
    } else if paths.contains(path) {
        Some(ArchiveError::DuplicatePath)
    } else {
        None
    }
}

/// Every path is safe and none occurs twice.
pub open spec fn paths_are_sound(paths: Seq<Seq<char>>) -> bool {
    &&& forall|i: int| 0 <= i < paths.len() ==> is_safe_archive_path(#[trigger] paths[i])
    &&& forall|i: int, j: int| 0 <= i < j < paths.len() ==> paths[i] != paths[j]
}

/// Keeps the rules of one archive while its entries come in.
pub struct Assembler {
    paths: Vec<String>,
    finished: bool,
}

impl Assembler {
    /// The paths of the entries accepted so far, in the order they came.
    pub closed spec fn paths(&self) -> Seq<Seq<char>> {
        texts(self.paths@)
    }

    /// Whether the archive is finished.
    pub closed spec fn is_finished(&self) -> bool {
        self.finished
    }

    /// The paths accepted so far keep the rules.
    pub open spec fn wf(&self) -> bool {
        paths_are_sound(self.paths())
    }

    /// Begins an archive without entries.
    pub fn open() -> (a: Self)
        ensures
            a.wf(),
            a.paths() == Seq::<Seq<char>>::empty(),
            !a.is_finished(),
    {
        let a = Assembler { paths: Vec::new(), finished: false };
        a
    }

    /// The number of entries accepted so far.
    pub fn len(&self) -> (n: usize)
        ensures
            n == self.paths().len(),
    {
        self.paths.len()
    }

    /// Whether the archive is finished.
    pub fn finished(&self) -> (b: bool)
        ensures
            b == self.is_finished(),
    {
        self.finished
    }

    fn holds(&self, path: &String) -> (b: bool)
        ensures
            b == self.paths().contains(path@),
    {
        let n: usize = self.paths.len();
        let mut i: usize = 0;
        while i < n
            invariant
                i <= n,
                n == self.paths.len(),
                forall|k: int| 0 <= k < i ==> self.paths()[k] != path@,
            decreases n - i,
        {
            if self.paths[i] == *path {
                assert(self.paths()[i as int] == path@);
                return true;
            }
            i += 1;
        }
        false
    }

    /// Takes the entry at `path` into the archive, or says why it cannot be
    /// taken. An accepted entry is handed back for writing, with the one
    /// compression method there is.
    pub fn write_entry(&mut self, path: String, payload: Vec<u8>) -> (r: Result<
        ArchiveEntry,
        ArchiveError,
    >)
        requires
            old(self).wf(),
        ensures
            final(self).wf(),
            final(self).is_finished() == old(self).is_finished(),
            match r {
                Ok(entry) => {
                    &&& refusal(old(self).is_finished(), old(self).paths(), path@) is None
                    &&& final(self).paths() == old(self).paths().push(path@)
                    &&& entry@ == (ArchiveEntryView {
                        path: path@,
                        payload: payload@,
                        method: Compression::Deflate,
                    })
                },
                Err(e) => {
                    &&& refusal(old(self).is_finished(), old(self).paths(), path@) == Some(e)
                    &&& final(self).paths() == old(self).paths()
                },
            },
    {
        if self.finished {
            return Err(ArchiveError::Finished);
        }
        if !check_archive_path(path.as_str()) {
            return Err(ArchiveError::UnsafePath);
        }
        if self.holds(&path) {
            return Err(ArchiveError::DuplicatePath);
        }
        let ghost before = self.paths();
        self.paths.push(path.clone());
        assert(self.paths() =~= before.push(path@));
        Ok(ArchiveEntry { path, payload, method: Compression::Deflate })
    }

    /// Finishes the archive. After this no entry is accepted.
    pub fn finish(&mut self) -> (r: Result<(), ArchiveError>)
        requires
            old(self).wf(),
        ensures
            final(self).wf(),
            final(self).is_finished(),
            final(self).paths() == old(self).paths(),
            r is Ok <==> !old(self).is_finished(),
            r is Err ==> r == Err::<(), ArchiveError>(ArchiveError::Finished),
    {
        if self.finished {
            return Err(ArchiveError::Finished);
        }
        self.finished = true;
        Ok(())
    }
}

} // verus!
