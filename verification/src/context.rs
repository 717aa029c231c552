//! Excerpts of what lies in a session's files.
use vstd::prelude::*;

verus! {

/// The longest excerpt, in bytes.
pub const MAX_EXCERPT_BYTES: usize = 8000;

/// The longest name of a file, in bytes.
pub const MAX_FILE_BYTES: usize = 256;

/// A bounded excerpt; the whole text lies in a file of the workspace.
pub struct KernelContextFragment {
    pub text: String,
    pub file: String,
}

impl KernelContextFragment {
    /// Who says it.
    pub fn role(&self) -> (role: &'static str)
        ensures
            role@ == "user"@,
    {
        "user"
    }

    /// What it is.
    pub fn content_kind(&self) -> (kind: &'static str)
        ensures
            kind@ == "kernel.evidence"@,
    {
        "kernel.evidence"
    }

    /// Whether it stands in a message of its own.
    pub fn requires_separate_message(&self) -> (separate: bool)
        ensures
            separate,
    {
        true
    }

    /// What stands before and behind it.
    pub fn markers(&self) -> (markers: (&'static str, &'static str))
        ensures
            markers.0@ == ""@,
            markers.1@ == ""@,
    {
        Self::type_markers()
    }

    /// What stands before and behind a fragment.
    pub fn type_markers() -> (markers: (&'static str, &'static str))
        ensures
            markers.0@ == ""@,
            markers.1@ == ""@,
    {
        ("", "")
    }

    /// What a session is shown, where `excerpt` is what the text is cut to and `file` what the
    /// file's name is cut to.
    pub fn body(&self, excerpt: &str, file: &str) -> (shown: String)
        ensures
            shown@ == "Complete controller-provided content: "@ + file@
                + ". Read it when this excerpt is truncated.\n"@ + excerpt@,
    {
        "Complete controller-provided content: ".to_owned().concat(file).concat(
            ". Read it when this excerpt is truncated.\n",
        ).concat(excerpt)
    }
}

} // verus!
