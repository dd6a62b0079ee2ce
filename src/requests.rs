use vstd::prelude::*;

verus! {

/// The answer to a request to end the review: the report that was printed
/// and the number of comments it holds.
#[derive(Debug, Clone, PartialEq)]
pub struct QuitResponse {
    pub success: bool,
    pub output: String,
    pub comments_count: usize,
}

/// A request to read a file.
#[derive(Debug, Clone, PartialEq)]
pub struct ReadFileRequest {
    pub path: String,
}

/// A request to write a file.
#[derive(Debug, Clone, PartialEq)]
pub struct WriteFileRequest {
    pub path: String,
    pub content: String,
}

/// A request to change the file under review.
#[derive(Debug, Clone, PartialEq)]
pub struct SetCurrentFileRequest {
    pub path: String,
}

/// A request to list the comments in a text.
#[derive(Debug, Clone, PartialEq)]
pub struct ParseCommentsRequest {
    pub content: String,
}

/// A request to add an inline comment; positions are UTF-16 offsets.
#[derive(Debug, Clone, PartialEq)]
pub struct InsertWrappedCommentRequest {
    pub content: String,
    pub start_pos: usize,
    pub end_pos: usize,
    pub text: String,
}

/// A request to add a line comment; positions are UTF-16 offsets.
#[derive(Debug, Clone, PartialEq)]
pub struct InsertNextlineCommentRequest {
    pub content: String,
    pub line_start_pos: usize,
    pub line_end_pos: usize,
    pub text: String,
}

/// A request to take a comment out of a text.
#[derive(Debug, Clone, PartialEq)]
pub struct RemoveCommentRequest {
    pub content: String,
    pub comment_id: String,
}

/// The answer to a request to add a comment: the new text and the
/// comment's identifier.
#[derive(Debug, Clone, PartialEq)]
pub struct InsertCommentResponse {
    pub content: String,
    pub id: String,
}

} // verus!
