//! Classification of a file by its relative path.
//!
//! A path that ends in `.json` or `.mcmeta` names a JSON document. The same
//! two endings followed by the marker character `c` name a JSON document that
//! may hold comments; such a file enters the archive under its path without
//! the marker. Every other path names a plain file.

use crate::text::chars_of;
use vstd::prelude::*;
use vstd::string::*;

verus! {

/// The character that, appended to a JSON ending, announces comments.
pub const COMMENT_MARKER: char = 'c';

/// What a file is taken for, with the path under which it enters the archive
/// where the file is a JSON document.
#[derive(Clone, Debug, PartialEq, Eq)]
pub enum Classification {
    /// Copied byte for byte, under the path it has.
    Plain,
    /// A JSON document, archived under the path it has.
    Json(String),
    /// A JSON document with comments, archived under its path without the
    /// marker.
    JsonWithComments(String),
}

/// A classification with its path as a sequence of characters.
pub enum ClassificationView {
    Plain,
    Json(Seq<char>),
    JsonWithComments(Seq<char>),
}

impl View for Classification {
    type V = ClassificationView;

    open spec fn view(&self) -> ClassificationView {
        match self {
            Classification::Plain => ClassificationView::Plain,
            Classification::Json(p) => ClassificationView::Json(p@),
            Classification::JsonWithComments(p) => ClassificationView::JsonWithComments(p@),
        }
    }
}

impl ClassificationView {
    /// The path under which a file at `path` with this classification enters
    /// the archive.
    pub open spec fn archive_path(self, path: Seq<char>) -> Seq<char> {
        match self {
            ClassificationView::Plain => path,
            ClassificationView::Json(p) => p,
            ClassificationView::JsonWithComments(p) => p,
        }
    }

    /// Whether the file is a JSON document, with or without comments.
    pub open spec fn is_json(self) -> bool {
        !(self is Plain)
    }

    /// Whether comments are to be stripped before the document is parsed.
    pub open spec fn strips_comments(self) -> bool {
        self is JsonWithComments
    }
}

/// `text` ends with `suffix`.
pub open spec fn ends_with(text: Seq<char>, suffix: Seq<char>) -> bool {
    &&& suffix.len() <= text.len()
    &&& text.subrange(text.len() - suffix.len(), text.len() as int) == suffix
}

/// `path` ends in `.json` or `.mcmeta`.
pub open spec fn is_json_path(path: Seq<char>) -> bool {
    ends_with(path, ".json"@) || ends_with(path, ".mcmeta"@)
}

/// `path` is a JSON path followed by the marker.
pub open spec fn is_commented_json_path(path: Seq<char>) -> bool {
    &&& path.len() > 0
    &&& path.last() == COMMENT_MARKER
    &&& is_json_path(path.drop_last())
}

/// The classification of a file at `path`.
pub open spec fn classification_of(path: Seq<char>) -> ClassificationView {
    if is_json_path(path) {
        ClassificationView::Json(path)
    } else if is_commented_json_path(path) {
        ClassificationView::JsonWithComments(path.drop_last())
    } else {
        ClassificationView::Plain
    }
}

/// Whether the first `end` characters of `text` end with `suffix`.
fn prefix_ends_with(text: &Vec<char>, end: usize, suffix: &Vec<char>) -> (b: bool)
    requires
        end <= text.len(),
    ensures
        b == ends_with(text@.take(end as int), suffix@),
{
    let m: usize = suffix.len();
    if m > end {
        return false;
    }
    let start: usize = end - m;
    let ghost head = text@.take(end as int);
    let mut i: usize = 0;
    while i < m
        invariant
            i <= m,
            m == suffix.len(),
            start + m == end,
            end <= text.len(),
            head == text@.take(end as int),
            forall|k: int| 0 <= k < i ==> text@[start + k] == suffix@[k],
        decreases m - i,
    {
        if text[start + i] != suffix[i] {
            return false;
        }
        i += 1;
    }
    assert(head.subrange(start as int, end as int) =~= suffix@);
    true
}

/// The endings that the classification looks for, prepared once.
pub struct Classifier {
    json: Vec<char>,
    mcmeta: Vec<char>,
}

impl Classifier {
    #[verifier::type_invariant]
    spec fn holds_the_endings(self) -> bool {
        &&& self.json@ == ".json"@
        &&& self.mcmeta@ == ".mcmeta"@
    }

    /// Prepares the two endings.
    pub fn new() -> (c: Self)
        ensures
            c.endings() == json_endings(),
    {
        Classifier { json: chars_of(".json"), mcmeta: chars_of(".mcmeta") }
    }

    /// The endings that this classifier looks for, in the order it tries
    /// them.
    pub closed spec fn endings(&self) -> Seq<Seq<char>> {
        seq![self.json@, self.mcmeta@]
    }

    /// Whether the first `end` characters of `path` end in `.json` or
    /// `.mcmeta`.
    fn prefix_is_json_path(&self, path: &Vec<char>, end: usize) -> (b: bool)
        requires
            end <= path.len(),
        ensures
            b == is_json_path(path@.take(end as int)),
    {
        proof {
            use_type_invariant(self);
        }
        prefix_ends_with(path, end, &self.json) || prefix_ends_with(path, end, &self.mcmeta)
    }

    /// Classifies the file at `path` by the ending of the path alone.
    pub fn classify(&self, path: &str) -> (c: Classification)
        ensures
            c@ == classification_of(path@),
    {
        let chars = chars_of(path);
        let n: usize = chars.len();
        assert(chars@.take(n as int) =~= path@);
        if self.prefix_is_json_path(&chars, n) {
            return Classification::Json(path.to_owned());
        }
        if n > 0 && chars[n - 1] == COMMENT_MARKER {
            if self.prefix_is_json_path(&chars, n - 1) {
                let stem = path.substring_char(0, n - 1);
                return Classification::JsonWithComments(stem.to_owned());
            }
        }
        Classification::Plain
    }
}

/// The endings that name a JSON document: `.json` and `.mcmeta`.
pub open spec fn json_endings() -> Seq<Seq<char>> {
    seq![".json"@, ".mcmeta"@]
}

/// A path that ends in `.json` or `.mcmeta` is classified as JSON, and its
/// archive path is the path itself.
pub proof fn lemma_json_ending_keeps_path(path: Seq<char>)
    requires
        ends_with(path, ".json"@) || ends_with(path, ".mcmeta"@),
    ensures
        classification_of(path) == ClassificationView::Json(path),
        classification_of(path).archive_path(path) == path,
{
}

/// A path that ends in `.json` or `.mcmeta`, with one more character behind
/// it that is the marker, is classified as JSON with comments, and its
/// archive path is the path without that character, otherwise unchanged.
pub proof fn lemma_marker_is_dropped(stem: Seq<char>, trailing: char)
    requires
        ends_with(stem, ".json"@) || ends_with(stem, ".mcmeta"@),
        trailing == COMMENT_MARKER,
    ensures
        classification_of(stem.push(trailing)) == ClassificationView::JsonWithComments(stem),
        classification_of(stem.push(trailing)).archive_path(stem.push(trailing)) == stem,
{
    reveal_strlit(".json");
    reveal_strlit(".mcmeta");
    let path = stem.push(trailing);
    assert(path.drop_last() =~= stem);
    assert(!ends_with(path, ".json"@)) by {
        if ends_with(path, ".json"@) {
            assert(path.subrange(path.len() - 5, path.len() as int)[4] == path.last());
        }
    }
    assert(!ends_with(path, ".mcmeta"@)) by {
        if ends_with(path, ".mcmeta"@) {
            assert(path.subrange(path.len() - 7, path.len() as int)[6] == path.last());
        }
    }
}

/// No other character behind a path announces comments.
pub proof fn lemma_only_the_marker_announces_comments(stem: Seq<char>, trailing: char)
    requires
        trailing != COMMENT_MARKER,
    ensures
        !(classification_of(stem.push(trailing)) is JsonWithComments),
{
}

} // verus!
