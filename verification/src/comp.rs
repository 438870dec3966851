//! The compile of a tree of files into the entries of an archive.
//!
//! Each regular file is classified by its path. With validation on, a JSON
//! file is parsed and minified, after its comments are stripped where its
//! path announces them; a file that fails is left out and counted, and the
//! compile goes on. Every other file is copied as it is. An entry that the
//! archive refuses ends the compile.

use crate::archive::{
    paths_are_sound, refusal, ArchiveEntry, ArchiveEntryView, ArchiveError, Assembler, Compression,
};
use crate::classify::{classification_of, Classification, Classifier};
use crate::validate::{normalized, validate_json, ValidationError, ValidationErrorView};
use vstd::prelude::*;
use vstd::string::*;
use vstd::utf8::*;

verus! {

/// What kind of node the traversal found.
#[derive(Clone, Copy, Debug, PartialEq, Eq, Structural)]
pub enum EntryKind {
    /// A regular file.
    File,
    /// A directory or anything else that is not packed.
    Other,
}

/// One node of the source tree.
#[derive(Clone, Debug, PartialEq, Eq)]
pub struct TreeEntry {
    /// The path relative to the source root, its segments parted by `/`.
    pub path: String,
    pub kind: EntryKind,
    /// The bytes of a regular file; empty for any other node.
    pub contents: Vec<u8>,
}

/// A tree entry as plain sequences.
pub struct TreeEntryView {
    pub path: Seq<char>,
    pub kind: EntryKind,
    pub contents: Seq<u8>,
}

impl View for TreeEntry {
    type V = TreeEntryView;

    open spec fn view(&self) -> TreeEntryView {
        TreeEntryView { path: self.path@, kind: self.kind, contents: self.contents@ }
    }
}

/// The views of the entries of a tree.
pub open spec fn tree_views(tree: Seq<TreeEntry>) -> Seq<TreeEntryView> {
    tree.map_values(|e: TreeEntry| e@)
}

/// The path under which the file at `path` enters the archive.
pub open spec fn archive_path_of(path: Seq<char>) -> Seq<char> {
    classification_of(path).archive_path(path)
}

/// The bytes that are archived for a file: the minified document where the
/// file is JSON and validation is on, the contents as they are otherwise;
/// `None` where validation fails.
pub open spec fn payload_of(path: Seq<char>, contents: Seq<u8>, validate: bool) -> Option<
    Seq<u8>,
> {
    let class = classification_of(path);
    if validate && class.is_json() {
        match normalized(contents, class.strips_comments()) {
            Some(text) => Some(encode_utf8(text)),
            None => None,
        }
    } else {
        Some(contents)
    }
}

/// The entry that a file with a payload makes.
pub open spec fn entry_of(path: Seq<char>, contents: Seq<u8>, validate: bool) -> ArchiveEntryView {
    ArchiveEntryView {
        path: archive_path_of(path),
        payload: payload_of(path, contents, validate).unwrap(),
        method: Compression::Deflate,
    }
}

/// What becomes of one file.
pub enum Admission {
    /// It enters the archive as this entry.
    Written(ArchiveEntryView),
    /// It is no valid JSON, and is left out.
    Failed,
    /// The archive refuses its path.
    Refused(ArchiveError),
}

/// What becomes of the file at `path` in an unfinished archive that holds
/// the paths `paths`.
pub open spec fn admission(
    paths: Seq<Seq<char>>,
    path: Seq<char>,
    contents: Seq<u8>,
    validate: bool,
) -> Admission {
    if payload_of(path, contents, validate) is None {
        Admission::Failed
    } else {
        match refusal(false, paths, archive_path_of(path)) {
            Some(e) => Admission::Refused(e),
            None => Admission::Written(entry_of(path, contents, validate)),
        }
    }
}

/// Compiles a pack file by file.
pub struct PackCompiler {
    classifier: Classifier,
    assembler: Assembler,
    validate: bool,
    failures: Vec<ValidationError>,
}

/// The views of a list of validation errors.
pub open spec fn failure_views(failures: Seq<ValidationError>) -> Seq<ValidationErrorView> {
    failures.map_values(|f: ValidationError| f@)
}

/// The paths of a list of validation errors.
pub open spec fn failed_paths(failures: Seq<ValidationErrorView>) -> Seq<Seq<char>> {
    failures.map_values(|f: ValidationErrorView| f.path)
}

impl PackCompiler {
    /// Whether JSON files are validated and minified.
    pub closed spec fn validates(&self) -> bool {
        self.validate
    }

    /// The paths of the entries written so far.
    pub closed spec fn paths(&self) -> Seq<Seq<char>> {
        self.assembler.paths()
    }

    /// The failures so far, in the order they came.
    pub closed spec fn failures(&self) -> Seq<ValidationErrorView> {
        failure_views(self.failures@)
    }

    /// The archive is open and its paths keep the rules.
    pub closed spec fn wf(&self) -> bool {
        self.assembler.wf() && !self.assembler.is_finished()
    }

    /// Begins a compile with nothing written and nothing failed.
    pub fn new(validate: bool) -> (c: Self)
        ensures
            c.wf(),
            c.validates() == validate,
            c.paths() == Seq::<Seq<char>>::empty(),
            c.failures() == Seq::<ValidationErrorView>::empty(),
    {
        let c = PackCompiler {
            classifier: Classifier::new(),
            assembler: Assembler::open(),
            validate,
            failures: Vec::new(),
        };
        c
    }

    /// The paths written so far are safe and distinct.
    pub proof fn lemma_paths_are_sound(&self)
        requires
            self.wf(),
        ensures
            paths_are_sound(self.paths()),
    {
    }

    /// Takes one regular file. Returns the entry to write, or `None` where
    /// the file failed validation and is left out, or the reason for which
    /// the archive refuses it.
    pub fn add_file(&mut self, path: &str, contents: Vec<u8>) -> (r: Result<
        Option<ArchiveEntry>,
        ArchiveError,
    >)
        requires
            old(self).wf(),
        ensures
            final(self).wf(),
            final(self).validates() == old(self).validates(),
            match admission(old(self).paths(), path@, contents@, old(self).validates()) {
                Admission::Written(e) => {
                    &&& r matches Ok(Some(entry))
                    &&& entry@ == e
                    &&& final(self).paths() == old(self).paths().push(e.path)
                    &&& final(self).failures() == old(self).failures()
                },
                Admission::Failed => {
                    &&& r matches Ok(None)
                    &&& final(self).paths() == old(self).paths()
                    &&& final(self).failures().len() == old(self).failures().len() + 1
                    &&& final(self).failures().drop_last() == old(self).failures()
                    &&& final(self).failures().last().path == path@
                },
                Admission::Refused(e) => {
                    &&& r matches Err(x)
                    &&& x == e
                    &&& final(self).paths() == old(self).paths()
                    &&& final(self).failures() == old(self).failures()
                },
            },
    {
        let class = self.classifier.classify(path);
        let strip = match class {
            Classification::JsonWithComments(_) => true,
            _ => false,
        };
        let is_json = match class {
            Classification::Plain => false,
            _ => true,
        };
        let verdict = if self.validate && is_json {
            match validate_json(path, contents.as_slice(), strip) {
                Ok(text) => Ok(text.as_str().as_bytes_vec()),
                Err(failure) => Err(failure),
            }
        } else {
            Ok(contents)
        };
        self.place(path, class, verdict)
    }

    /// Places a file whose classification and validation are done. A
    /// failure is recorded and the file left out. A payload is offered to
    /// the archive under the archive path of the classification; the entry
    /// to write comes back, or the reason for which the archive refuses it.
    pub fn place(
        &mut self,
        path: &str,
        class: Classification,
        verdict: Result<Vec<u8>, ValidationError>,
    ) -> (r: Result<Option<ArchiveEntry>, ArchiveError>)
        requires
            old(self).wf(),
        ensures
            final(self).wf(),
            final(self).validates() == old(self).validates(),
            match verdict {
                Err(failure) => {
                    &&& r matches Ok(None)
                    &&& final(self).paths() == old(self).paths()
                    &&& final(self).failures() == old(self).failures().push(failure@)
                },
                Ok(payload) => match refusal(
                    false,
                    old(self).paths(),
                    class@.archive_path(path@),
                ) {
                    None => {
                        &&& r matches Ok(Some(entry))
                        &&& entry@ == (ArchiveEntryView {
                            path: class@.archive_path(path@),
                            payload: payload@,
                            method: Compression::Deflate,
                        })
                        &&& final(self).paths() == old(self).paths().push(
                            class@.archive_path(path@),
                        )
                        &&& final(self).failures() == old(self).failures()
                    },
                    Some(e) => {
                        &&& r matches Err(x)
                        &&& x == e
                        &&& final(self).paths() == old(self).paths()
                        &&& final(self).failures() == old(self).failures()
                    },
                },
            },
    {
        match verdict {
            Err(failure) => {
                self.failures.push(failure);
                Ok(None)
            },
            Ok(payload) => {
                let archive_path = match class {
                    Classification::Plain => path.to_owned(),
                    Classification::Json(p) => p,
                    Classification::JsonWithComments(p) => p,
                };
                match self.assembler.write_entry(archive_path, payload) {
                    Ok(entry) => Ok(Some(entry)),
                    Err(e) => Err(e),
                }
            },
        }
    }

    /// Ends the compile: finishes the archive and hands out the count of
    /// the entries written, with the failures.
    pub fn finish(self) -> (r: (usize, Vec<ValidationError>))
        requires
            self.wf(),
        ensures
            r.0 == self.paths().len(),
            failure_views(r.1@) == self.failures(),
    {
        let mut assembler = self.assembler;
        let written: usize = assembler.len();
        let _ = assembler.finish();
        (written, self.failures)
    }
}

/// What a compile has made: the entries of the archive in the order they
/// were written, and the files that failed validation.
#[derive(Clone, Debug, PartialEq, Eq)]
pub struct Pack {
    pub entries: Vec<ArchiveEntry>,
    pub failures: Vec<ValidationError>,
}

/// A pack as plain sequences: the entries, and the paths of the files that
/// failed.
pub struct PackView {
    pub entries: Seq<ArchiveEntryView>,
    pub failures: Seq<Seq<char>>,
}

/// The views of a list of entries.
pub open spec fn entry_views(entries: Seq<ArchiveEntry>) -> Seq<ArchiveEntryView> {
    entries.map_values(|e: ArchiveEntry| e@)
}

/// The paths of a list of entries.
pub open spec fn entry_paths(entries: Seq<ArchiveEntryView>) -> Seq<Seq<char>> {
    entries.map_values(|e: ArchiveEntryView| e.path)
}

impl View for Pack {
    type V = PackView;

    open spec fn view(&self) -> PackView {
        PackView {
            entries: entry_views(self.entries@),
            failures: failed_paths(failure_views(self.failures@)),
        }
    }
}

/// The compile stopped at the node `index` of the tree, whose entry the
/// archive refused.
#[derive(Clone, Debug, PartialEq, Eq)]
pub struct CompileError {
    pub index: usize,
    pub path: String,
    pub cause: ArchiveError,
}

/// The pack that a compile of `tree` makes, node by node in the order
/// given, or the index of the first node that the archive refuses, with the
/// reason.
pub open spec fn packed(tree: Seq<TreeEntryView>, validate: bool) -> Result<
    PackView,
    (int, ArchiveError),
>
    decreases tree.len(),
{
    if tree.len() == 0 {
        Ok(PackView { entries: Seq::empty(), failures: Seq::empty() })
    } else {
        let node = tree.last();
        match packed(tree.drop_last(), validate) {
            Err(stop) => Err(stop),
            Ok(pack) => if node.kind is File {
                match admission(entry_paths(pack.entries), node.path, node.contents, validate) {
                    Admission::Written(e) => Ok(
                        PackView { entries: pack.entries.push(e), failures: pack.failures },
                    ),
                    Admission::Failed => Ok(
                        PackView { entries: pack.entries, failures: pack.failures.push(node.path) },
                    ),
                    Admission::Refused(e) => Err((tree.len() - 1, e)),
                }
            } else {
                Ok(pack)
            },
        }
    }
}

/// Compiles a tree: every regular file is classified, validated where that
/// is asked for, and made an entry of the archive; the files that fail
/// validation are left out and listed. The first entry that the archive
/// refuses ends the compile with an error, and nothing is to be written
/// then.
pub fn compile_pack(tree: Vec<TreeEntry>, validate: bool) -> (r: Result<Pack, CompileError>)
    ensures
        match r {
            Ok(pack) => packed(tree_views(tree@), validate) == Ok::<PackView, (int, ArchiveError)>(
                pack@,
            ),
            Err(e) => {
                &&& packed(tree_views(tree@), validate) == Err::<PackView, (int, ArchiveError)>(
                    (e.index as int, e.cause),
                )
                &&& e.index < tree.len()
                &&& e.path@ == tree@[e.index as int].path@
            },
        },
{
    let ghost whole = tree_views(tree@);
    let ghost nodes = tree@;
    let mut compiler = PackCompiler::new(validate);
    let mut entries: Vec<ArchiveEntry> = Vec::new();
    let mut index: usize = 0;
    assert(nodes.len() == tree.len());
    assert(entry_views(entries@) =~= Seq::<ArchiveEntryView>::empty());
    assert(failed_paths(compiler.failures()) =~= Seq::<Seq<char>>::empty());
    for node in it: tree
        invariant
            it.seq() == nodes,
            nodes.len() <= usize::MAX,
            whole == tree_views(nodes),
            index == it.index(),
            compiler.wf(),
            compiler.validates() == validate,
            compiler.paths() == entry_paths(entry_views(entries@)),
            packed(whole.take(index as int), validate) == Ok::<PackView, (int, ArchiveError)>(
                PackView {
                    entries: entry_views(entries@),
                    failures: failed_paths(compiler.failures()),
                },
            ),
    {
        let ghost before = whole.take(index as int);
        let ghost after = whole.take(index + 1);
        assert(after.drop_last() =~= before);
        let TreeEntry { path, kind, contents } = node;
        match kind {
            EntryKind::File => {
                let ghost views = entry_views(entries@);
                let ghost failed = compiler.failures();
                match compiler.add_file(path.as_str(), contents) {
                    Ok(Some(entry)) => {
                        entries.push(entry);
                        assert(entry_views(entries@) =~= views.push(entry@));
                    },
                    Ok(None) => {
                        assert(failed_paths(compiler.failures()) =~= failed_paths(failed).push(
                            path@,
                        ));
                    },
                    Err(cause) => {
                        assert(whole =~= after + whole.skip(index + 1));
                        proof {
                            lemma_refusal_stays(after, whole.skip(index + 1), validate);
                        }
                        return Err(CompileError { index, path, cause });
                    },
                }
            },
            EntryKind::Other => {},
        }
        index += 1;
    }
    assert(whole.take(index as int) =~= whole);
    let (_, failures) = compiler.finish();
    Ok(Pack { entries, failures })
}

/// Once the archive has refused a node, no node after it changes that.
proof fn lemma_refusal_stays(head: Seq<TreeEntryView>, rest: Seq<TreeEntryView>, validate: bool)
    requires
        packed(head, validate) is Err,
    ensures
        packed(head + rest, validate) == packed(head, validate),
    decreases rest.len(),
{
    if rest.len() > 0 {
        lemma_refusal_stays(head, rest.drop_last(), validate);
        assert((head + rest).drop_last() =~= head + rest.drop_last());
    }
}

/// The node is a regular file with a payload: it passes validation, or none
/// is asked of it.
pub open spec fn passes(node: TreeEntryView, validate: bool) -> bool {
    node.kind is File && payload_of(node.path, node.contents, validate) is Some
}

/// The node is a regular file that fails validation.
pub open spec fn fails(node: TreeEntryView, validate: bool) -> bool {
    node.kind is File && payload_of(node.path, node.contents, validate) is None
}

/// The entries of the files of `tree` that pass, in the order of the tree.
pub open spec fn accepted(tree: Seq<TreeEntryView>, validate: bool) -> Seq<ArchiveEntryView>
    decreases tree.len(),
{
    if tree.len() == 0 {
        Seq::empty()
    } else {
        let rest = accepted(tree.drop_last(), validate);
        let node = tree.last();
        if passes(node, validate) {
            rest.push(entry_of(node.path, node.contents, validate))
        } else {
            rest
        }
    }
}

/// The paths of the files of `tree` that fail, in the order of the tree.
pub open spec fn rejected(tree: Seq<TreeEntryView>, validate: bool) -> Seq<Seq<char>>
    decreases tree.len(),
{
    if tree.len() == 0 {
        Seq::empty()
    } else {
        let rest = rejected(tree.drop_last(), validate);
        let node = tree.last();
        if fails(node, validate) {
            rest.push(node.path)
        } else {
            rest
        }
    }
}

/// A compile that comes to its end has written exactly the files that pass,
/// in their order, and listed exactly the files that fail; the paths in the
/// archive are safe, and no two are the same.
pub proof fn lemma_pack_holds_what_passes(
    tree: Seq<TreeEntryView>,
    validate: bool,
    pack: PackView,
)
    requires
        packed(tree, validate) == Ok::<PackView, (int, ArchiveError)>(pack),
    ensures
        pack.entries == accepted(tree, validate),
        pack.failures == rejected(tree, validate),
        paths_are_sound(entry_paths(pack.entries)),
    decreases tree.len(),
{
    if tree.len() > 0 {
        let head = packed(tree.drop_last(), validate);
        lemma_pack_holds_what_passes(tree.drop_last(), validate, head->Ok_0);
        let before = accepted(tree.drop_last(), validate);
        let node = tree.last();
        if passes(node, validate) {
            let e = entry_of(node.path, node.contents, validate);
            assert(entry_paths(before.push(e)) =~= entry_paths(before).push(e.path));
        }
    }
}

/// The entry of a file that passes is among the accepted.
pub proof fn lemma_passing_file_is_accepted(tree: Seq<TreeEntryView>, validate: bool, i: int)
    requires
        0 <= i < tree.len(),
        passes(tree[i], validate),
    ensures
        accepted(tree, validate).contains(entry_of(tree[i].path, tree[i].contents, validate)),
    decreases tree.len(),
{
    let all = accepted(tree, validate);
    if i == tree.len() - 1 {
        assert(all[all.len() - 1] == entry_of(tree[i].path, tree[i].contents, validate));
    } else {
        lemma_passing_file_is_accepted(tree.drop_last(), validate, i);
        let rest = accepted(tree.drop_last(), validate);
        let k = choose|k: int|
            0 <= k < rest.len() && rest[k] == entry_of(tree[i].path, tree[i].contents, validate);
        assert(all[k] == rest[k]);
    }
}

/// The path of a file that fails is among the rejected.
pub proof fn lemma_failing_file_is_rejected(tree: Seq<TreeEntryView>, validate: bool, i: int)
    requires
        0 <= i < tree.len(),
        fails(tree[i], validate),
    ensures
        rejected(tree, validate).contains(tree[i].path),
    decreases tree.len(),
{
    let all = rejected(tree, validate);
    if i == tree.len() - 1 {
        assert(all[all.len() - 1] == tree[i].path);
    } else {
        lemma_failing_file_is_rejected(tree.drop_last(), validate, i);
        let rest = rejected(tree.drop_last(), validate);
        let k = choose|k: int| 0 <= k < rest.len() && rest[k] == tree[i].path;
        assert(all[k] == rest[k]);
    }
}

/// Every accepted entry is the entry of a file of the tree that passes. The
/// index of such a file is returned.
pub proof fn lemma_accepted_entry_has_a_source(
    tree: Seq<TreeEntryView>,
    validate: bool,
    k: int,
) -> (i: int)
    requires
        0 <= k < accepted(tree, validate).len(),
    ensures
        0 <= i < tree.len(),
        passes(tree[i], validate),
        accepted(tree, validate)[k] == entry_of(tree[i].path, tree[i].contents, validate),
    decreases tree.len(),
{
    let rest = accepted(tree.drop_last(), validate);
    if passes(tree.last(), validate) && k == rest.len() {
        tree.len() - 1
    } else {
        lemma_accepted_entry_has_a_source(tree.drop_last(), validate, k)
    }
}

/// `entry` is the entry of some file of `tree` that passes.
pub open spec fn stems_from(
    tree: Seq<TreeEntryView>,
    validate: bool,
    entry: ArchiveEntryView,
) -> bool {
    exists|i: int|
        0 <= i < tree.len() && passes(#[trigger] tree[i], validate) && entry == entry_of(
            tree[i].path,
            tree[i].contents,
            validate,
        )
}

/// Of a compile that comes to its end: a file that fails validation is
/// listed as failed, every other regular file of the tree is in the archive
/// as its entry, and nothing else is in the archive.
pub proof fn lemma_failures_spare_the_rest(
    tree: Seq<TreeEntryView>,
    validate: bool,
    pack: PackView,
)
    requires
        packed(tree, validate) == Ok::<PackView, (int, ArchiveError)>(pack),
    ensures
        forall|i: int|
            0 <= i < tree.len() && fails(#[trigger] tree[i], validate)
                ==> pack.failures.contains(tree[i].path),
        forall|i: int|
            0 <= i < tree.len() && passes(#[trigger] tree[i], validate) ==> pack.entries.contains(
                entry_of(tree[i].path, tree[i].contents, validate),
            ),
        forall|k: int|
            0 <= k < pack.entries.len() ==> stems_from(tree, validate, #[trigger] pack.entries[k]),
{
    lemma_pack_holds_what_passes(tree, validate, pack);
    assert forall|i: int| 0 <= i < tree.len() && fails(#[trigger] tree[i], validate) implies
        pack.failures.contains(tree[i].path) by {
        lemma_failing_file_is_rejected(tree, validate, i);
    }
    assert forall|i: int| 0 <= i < tree.len() && passes(#[trigger] tree[i], validate) implies
        pack.entries.contains(entry_of(tree[i].path, tree[i].contents, validate)) by {
        lemma_passing_file_is_accepted(tree, validate, i);
    }
    assert forall|k: int| 0 <= k < pack.entries.len() implies stems_from(
        tree,
        validate,
        #[trigger] pack.entries[k],
    ) by {
        let i = lemma_accepted_entry_has_a_source(tree, validate, k);
    }
}

/// The counts of a compile and the time it took.
#[derive(Clone, Copy, Debug, PartialEq, Eq, Structural)]
pub struct CompileOutcome {
    /// The number of entries written.
    pub written: usize,
    /// The number of files that failed validation.
    pub failed: usize,
    /// The time from the start of the compile to its end, in milliseconds.
    pub elapsed_ms: u64,
}

/// How a compile that reached its end is reported.
#[derive(Clone, Copy, Debug, PartialEq, Eq, Structural)]
pub enum CompileStatus {
    /// Every file is in the archive.
    Succeeded,
    /// The archive holds every file but those that failed validation.
    FailedWithErrors,
}

impl CompileOutcome {
    /// A compile has failed with errors where any file failed validation.
    pub fn status(&self) -> (s: CompileStatus)
        ensures
            s == if self.failed > 0 {
                CompileStatus::FailedWithErrors
            } else {
                CompileStatus::Succeeded
            },
    {
        if self.failed > 0 {
            CompileStatus::FailedWithErrors
        } else {
            CompileStatus::Succeeded
        }
    }
}

impl Pack {
    /// The outcome of the compile that made this pack in `elapsed_ms`
    /// milliseconds.
    pub fn outcome(&self, elapsed_ms: u64) -> (o: CompileOutcome)
        ensures
            o.written == self@.entries.len(),
            o.failed == self@.failures.len(),
            o.elapsed_ms == elapsed_ms,
    {
        CompileOutcome { written: self.entries.len(), failed: self.failures.len(), elapsed_ms }
    }
}

} // verus!
