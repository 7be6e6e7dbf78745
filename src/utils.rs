use vstd::prelude::*;

verus! {

/// Prepares text for sending to a chat. Chat formatting is plain text, so no
/// character needs escaping and the text is passed on unchanged.
pub fn escape_chars(text: &str) -> (r: String)
    ensures
        r@ == text@,
{
    text.to_owned()
}

} // verus!
