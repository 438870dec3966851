//! Validation and minification of JSON documents.
//!
//! A document is parsed by `serde_json` and written back in its most compact
//! form. Where comments are allowed, `json_comments` blanks them out before
//! the parser sees the text. Both crates are called as they are; what they
//! return is named here and not computed a second time.

use json_comments::StripComments;
use std::io::Read;
use vstd::prelude::*;
use vstd::string::*;

verus! {

/// A parsed JSON document of `serde_json`. It is carried from the parser to
/// the serializer and never looked into.
#[verifier::external_type_specification]
#[verifier::external_body]
pub struct ExJsonValue(serde_json::Value);

/// The error of `serde_json`.
#[verifier::external_type_specification]
#[verifier::external_body]
pub struct ExJsonError(serde_json::Error);

/// What `json_comments::StripComments` with its default settings makes of
/// `text` when it is read to the end: the text with every comment blanked
/// out (`//` and `#` to the end of the line, `/*` to `*/`, none of them
/// inside a string), or `None` where the filter reports invalid data.
pub uninterp spec fn comments_stripped(text: Seq<u8>) -> Option<Seq<u8>>;

/// The compact JSON text that `serde_json::to_string` writes for `document`,
/// or `None` where it reports an error.
pub uninterp spec fn json_text(document: serde_json::Value) -> Option<Seq<char>>;

/// The compact JSON text of the document that `serde_json::from_slice` reads
/// from `text`, or `None` where `text` is no JSON document or the document
/// cannot be written.
pub uninterp spec fn json_minified(text: Seq<u8>) -> Option<Seq<char>>;

/// Reads `json_comments::StripComments::new(text)` to its end. Assumed: the
/// outcome depends on `text` alone.
#[verifier::external_body]
fn strip_comments(text: &[u8]) -> (r: Option<Vec<u8>>)
    ensures
        r matches Some(bare) ==> comments_stripped(text@) == Some(bare@),
        r is None ==> comments_stripped(text@) is None,
{
    let mut bare: Vec<u8> = Vec::new();
    match StripComments::new(text).read_to_end(&mut bare) {
        Ok(_) => Some(bare),
        Err(_) => None,
    }
}

/// Calls `serde_json::from_slice` for a `serde_json::Value`. Assumed: the same
/// text gives the same document, so that what the serializer makes of the
/// document depends on `text` alone, and an error means that `text` is no
/// JSON document.
#[verifier::external_body]
fn parse_document(text: &[u8]) -> (r: Result<serde_json::Value, serde_json::Error>)
    ensures
        r matches Ok(document) ==> json_minified(text@) == json_text(document),
        r is Err ==> json_minified(text@) is None,
{
    serde_json::from_slice::<serde_json::Value>(text)
}

/// Calls `serde_json::to_string` on a document. Assumed: the outcome depends
/// on the document alone.
#[verifier::external_body]
fn render_document(document: &serde_json::Value) -> (r: Result<String, serde_json::Error>)
    ensures
        r matches Ok(text) ==> json_text(*document) == Some(text@),
        r is Err ==> json_text(*document) is None,
{
    serde_json::to_string(document)
}

/// The message that a `serde_json::Error` displays. Nothing is assumed of it.
#[verifier::external_body]
fn parser_message(error: &serde_json::Error) -> (message: String) {
    error.to_string()
}

/// The message of a failure that the comment filter reports.
pub const UNBALANCED_COMMENT: &'static str = "a comment or a string is malformed or not closed";

/// Why a file is no valid JSON document.
#[derive(Clone, Debug, PartialEq, Eq)]
pub struct ValidationError {
    /// The path of the file.
    pub path: String,
    /// What the parser had to say.
    pub message: String,
}

/// A validation error with its texts as sequences of characters.
pub struct ValidationErrorView {
    pub path: Seq<char>,
    pub message: Seq<char>,
}

impl View for ValidationError {
    type V = ValidationErrorView;

    open spec fn view(&self) -> ValidationErrorView {
        ValidationErrorView { path: self.path@, message: self.message@ }
    }
}

impl ValidationError {
    /// The error for the file at `path`, with what the parser had to say.
    pub fn new(path: &str, message: String) -> (e: Self)
        ensures
            e@ == (ValidationErrorView { path: path@, message: message@ }),
    {
        ValidationError { path: path.to_owned(), message }
    }
}

/// The compact form of the JSON document in `text`, after its comments are
/// stripped where `strip` is set; `None` where `text` holds no such document.
pub open spec fn normalized(text: Seq<u8>, strip: bool) -> Option<Seq<char>> {
    if strip {
        match comments_stripped(text) {
            Some(bare) => json_minified(bare),
            None => None,
        }
    } else {
        json_minified(text)
    }
}

/// Parses `text` and writes the document back in compact form.
fn minify(path: &str, text: &[u8]) -> (r: Result<String, ValidationError>)
    ensures
        match r {
            Ok(compact) => json_minified(text@) == Some(compact@),
            Err(e) => json_minified(text@) is None && e.path@ == path@,
        },
{
    match parse_document(text) {
        Ok(document) => match render_document(&document) {
            Ok(compact) => Ok(compact),
            Err(error) => Err(ValidationError::new(path, parser_message(&error))),
        },
        Err(error) => Err(ValidationError::new(path, parser_message(&error))),
    }
}

/// Validates the contents of the file at `path` as JSON, with comments
/// allowed where `jsonc` is set, and returns the document in its most
/// compact form. The path is only carried into the error.
pub fn validate_json(path: &str, contents: &[u8], jsonc: bool) -> (r: Result<
    String,
    ValidationError,
>)
    ensures
        match r {
            Ok(compact) => normalized(contents@, jsonc) == Some(compact@),
            Err(e) => {
                &&& normalized(contents@, jsonc) is None
                &&& e.path@ == path@
                &&& jsonc && comments_stripped(contents@) is None ==> e.message@
                    == UNBALANCED_COMMENT@
            },
        },
{
    if jsonc {
        match strip_comments(contents) {
            Some(bare) => minify(path, bare.as_slice()),
            None => Err(ValidationError::new(path, UNBALANCED_COMMENT.to_owned())),
        }
    } else {
        minify(path, contents)
    }
}

/// Validating a text with its comments stripped gives what validating the
/// stripped text without stripping gives.
pub proof fn lemma_stripping_first_changes_nothing(text: Seq<u8>, bare: Seq<u8>)
    requires
        comments_stripped(text) == Some(bare),
    ensures
        normalized(text, true) == normalized(bare, false),
{
}

} // verus!
