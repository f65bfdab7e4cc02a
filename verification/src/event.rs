//! Domain events: the payload contract and the envelope, listener, store and
//! stream-consumer components built around it.
use vstd::prelude::*;

pub mod envelope;
pub mod listener;
pub mod store;
pub mod stream;

verus! {

/// Contract every domain event payload meets.
///
/// An envelope treats its payload as opaque, so the payload carries its own
/// text codec: `encode` writes the event as text, `decode` reads it back, and
/// the two are inverses. `event_type` names the payload's schema,
/// independently of its runtime type.
pub trait EventType: Sized + Clone + Copy {
    /// The payload's text encoding, as a mathematical value.
    spec fn encoded(self) -> Seq<char>;

    /// What a text decodes to, if anything.
    spec fn decoded(s: Seq<char>) -> Option<Self>;

    /// Decoding inverts encoding.
    proof fn lemma_codec_round_trip(self)
        ensures
            Self::decoded(self.encoded()) == Some(self),
    ;

    /// Name of the event's schema.
    fn event_type(&self) -> String;

    /// Writes the payload as text.
    fn encode(&self) -> (s: String)
        ensures
            s@ == self.encoded(),
    ;

    /// Reads a payload back from text.
    fn decode(s: &str) -> (r: Option<Self>)
        ensures
            r == Self::decoded(s@),
    ;
}

} // verus!
