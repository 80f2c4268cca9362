//! The verdict of the end-to-end smoke test: attach a queue, publish one
//! matching and one unrelated message, drain, and expect exactly the match.
use vstd::prelude::*;

verus! {

/// One drained message as the smoke test reads it back: its topic, and its
/// payload's text when the payload is a JSON string.
pub struct ReplyItem {
    pub topic: String,
    pub text: Option<String>,
}

/// Why a smoke test reply was not the expected one.
#[derive(Debug, Clone, Copy, PartialEq, Eq)]
pub enum SmokeFailure {
    /// The reply did not hold exactly one message.
    WrongCount,
    /// The one message had another topic or payload.
    ContentMismatch,
}

/// Whether `item` is the message on `topic` whose payload is the string `text`.
pub open spec fn is_expected(item: ReplyItem, topic: Seq<char>, text: Seq<char>) -> bool {
    &&& item.topic@ == topic
    &&& item.text matches Some(t) && t@ == text
}

/// Checks a drained reply against the one message the smoke test expects.
pub fn check_smoke_reply(reply: &Vec<ReplyItem>, topic: &str, text: &str) -> (r: Result<
    (),
    SmokeFailure,
>)
    ensures
        r == Err::<(), SmokeFailure>(SmokeFailure::WrongCount) <==> reply@.len() != 1,
        r is Ok <==> reply@.len() == 1 && is_expected(reply@[0], topic@, text@),
        r == Err::<(), SmokeFailure>(SmokeFailure::ContentMismatch) <==> reply@.len() == 1
            && !is_expected(reply@[0], topic@, text@),
{
    if reply.len() != 1 {
        return Err(SmokeFailure::WrongCount);
    }
    let item = &reply[0];
    let want_topic = topic.to_owned();
    let want_text = text.to_owned();
    if item.topic != want_topic {
        return Err(SmokeFailure::ContentMismatch);
    }
    match &item.text {
        Some(t) => {
            if *t == want_text {
                Ok(())
            } else {
                Err(SmokeFailure::ContentMismatch)
            }
        },
        None => Err(SmokeFailure::ContentMismatch),
    }
}

} // verus!
