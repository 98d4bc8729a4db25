use vstd::prelude::*;

verus! {

/// Everything that can go wrong while handling a request. Each variant
/// is recoverable for the request that hit it and maps to its own
/// user-visible message.
#[derive(Clone, Copy, Debug, PartialEq, Eq, Structural)]
pub enum PostError {
    /// An existing record already carries the submitted title.
    DuplicateTitle,
    /// A required form field was not supplied.
    MissingField,
    /// The uploaded file is larger than the fixed ceiling.
    MediaTooLarge,
    /// The uploaded bytes carry no accepted image, video or audio signature.
    UnsupportedMediaType,
    /// The uploaded file could not be read.
    MediaReadFailure,
    /// The metadata store or the filesystem failed.
    StorageFailure,
    /// No record exists under the requested identifier.
    NotFound,
    /// The supplied administrative credential is wrong.
    Unauthorized,
    /// The self-service grace window has elapsed.
    WindowExpired,
}

/// The user-visible message of each error.
pub open spec fn message_spec(e: PostError) -> Seq<char> {
    match e {
        PostError::DuplicateTitle => "Title already exists"@,
        PostError::MissingField => "A required field is missing"@,
        PostError::MediaTooLarge => "File size exceeds 20 MB"@,
        PostError::UnsupportedMediaType => "Invalid media file type"@,
        PostError::MediaReadFailure => "Failed to read media file"@,
        PostError::StorageFailure => "Storage failure"@,
        PostError::NotFound => "Post not found"@,
        PostError::Unauthorized => "Unauthorized"@,
        PostError::WindowExpired => "Post can no longer be deleted"@,
    }
}

impl PostError {
    /// The user-visible message for this error.
    pub fn message(&self) -> (r: &'static str)
        ensures
            r@ == message_spec(*self),
    {
        match self {
            PostError::DuplicateTitle => "Title already exists",
            PostError::MissingField => "A required field is missing",
            PostError::MediaTooLarge => "File size exceeds 20 MB",
            PostError::UnsupportedMediaType => "Invalid media file type",
            PostError::MediaReadFailure => "Failed to read media file",
            PostError::StorageFailure => "Storage failure",
            PostError::NotFound => "Post not found",
            PostError::Unauthorized => "Unauthorized",
            PostError::WindowExpired => "Post can no longer be deleted",
        }
    }
}

/// Distinct errors read as distinct messages.
pub proof fn lemma_messages_distinct(a: PostError, b: PostError)
    requires
        a != b,
    ensures
        message_spec(a) != message_spec(b),
{
    reveal_strlit("Title already exists");
    reveal_strlit("A required field is missing");
    reveal_strlit("File size exceeds 20 MB");
    reveal_strlit("Invalid media file type");
    reveal_strlit("Failed to read media file");
    reveal_strlit("Storage failure");
    reveal_strlit("Post not found");
    reveal_strlit("Unauthorized");
    reveal_strlit("Post can no longer be deleted");
    assert("Title already exists"@.len() == 20);
    assert("A required field is missing"@.len() == 27);
    assert("File size exceeds 20 MB"@.len() == 23);
    assert("Invalid media file type"@.len() == 23);
    assert("Failed to read media file"@.len() == 25);
    assert("Storage failure"@.len() == 15);
    assert("Post not found"@.len() == 14);
    assert("Unauthorized"@.len() == 12);
    assert("Post can no longer be deleted"@.len() == 29);
    assert("File size exceeds 20 MB"@[0] == 'F' && "Invalid media file type"@[0] == 'I');
}

} // verus!
