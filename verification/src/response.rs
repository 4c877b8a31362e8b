//! The text of a response, which holds what fits into it.

use vstd::prelude::*;

use crate::text::utf8;

verus! {

/// The bytes that a response can hold.
pub const RESPONSE_CAPACITY: usize = 200;

/// A response: a `heapless::String` of at most `RESPONSE_CAPACITY` bytes.
#[verifier::external_body]
pub struct Response {
    text: heapless::String<200>,
}

/// What a response holds, in bytes.
pub uninterp spec fn response_bytes(response: Response) -> Seq<u8>;

impl View for Response {
    type V = Seq<u8>;

    open spec fn view(&self) -> Seq<u8> {
        response_bytes(*self)
    }
}

impl Response {
    /// Calls `heapless::String::new`, which makes a string that holds nothing.
    #[verifier::external_body]
    pub(crate) fn new() -> (response: Response)
        ensures
            response_bytes(response) == Seq::<u8>::empty(),
    {
        Response { text: heapless::String::new() }
    }

    /// Calls `heapless::String::push_str`. A text that fits into what room is left is
    /// appended whole and the result is true; of one that does not fit nothing is
    /// appended and the result is false.
    #[verifier::external_body]
    pub(crate) fn push_str(&mut self, text: &str) -> (pushed: bool)
        ensures
            pushed == (response_bytes(*old(self)).len() + utf8(text).len() <= RESPONSE_CAPACITY),
            response_bytes(*final(self)) == if pushed {
                response_bytes(*old(self)) + utf8(text)
            } else {
                response_bytes(*old(self))
            },
    {
        self.text.push_str(text).is_ok()
    }

    /// Calls `heapless::String::as_str`, and lends the bytes of the text.
    #[verifier::external_body]
    fn as_utf8(&self) -> (bytes: &[u8])
        ensures
            bytes@ == response_bytes(*self),
    {
        self.text.as_str().as_bytes()
    }

    /// Writes pieces one after the other, up to the first that does not fit.
    pub(crate) fn push_all(&mut self, pieces: &[&str])
        ensures
            final(self)@ == written(old(self)@, texts(pieces@)),
    {
        let ghost start = self@;
        assert(texts(pieces@).skip(0) =~= texts(pieces@));
        let mut i: usize = 0;
        while i < pieces.len()
            invariant
                i <= pieces@.len(),
                start == old(self)@,
                written(start, texts(pieces@)) == written(self@, texts(pieces@).skip(i as int)),
            decreases pieces@.len() - i,
        {
            assert(texts(pieces@).skip(i as int).drop_first() =~= texts(pieces@).skip(i + 1));
            if !self.push_str(pieces[i]) {
                return ;
            }
            i += 1;
        }
    }

    /// The bytes of the response.
    pub fn bytes(&self) -> (bytes: &[u8])
        ensures
            bytes@ == self@,
    {
        self.as_utf8()
    }
}

/// The bytes of each of some texts.
pub open spec fn texts(pieces: Seq<&str>) -> Seq<Seq<u8>> {
    Seq::new(pieces.len(), |i: int| utf8(pieces[i]))
}

/// What a text holds after some pieces are written to it one after the other. The first
/// piece that does not fit ends the writing.
pub open spec fn written(text: Seq<u8>, pieces: Seq<Seq<u8>>) -> Seq<u8>
    decreases pieces.len(),
{
    if pieces.len() == 0 || text.len() + pieces[0].len() > RESPONSE_CAPACITY {
        text
    } else {
        written(text + pieces[0], pieces.drop_first())
    }
}

/// The bytes in a row of pieces.
pub open spec fn total_len(pieces: Seq<Seq<u8>>) -> nat
    decreases pieces.len(),
{
    if pieces.len() == 0 {
        0
    } else {
        pieces[0].len() + total_len(pieces.drop_first())
    }
}

/// Pieces that fit together are written whole, one after the other.
pub proof fn law_what_fits_is_written(text: Seq<u8>, pieces: Seq<Seq<u8>>)
    requires
        text.len() + total_len(pieces) <= RESPONSE_CAPACITY,
    ensures
        written(text, pieces) == text + pieces.flatten(),
    decreases pieces.len(),
{
    if pieces.len() == 0 {
        assert(text + pieces.flatten() =~= text);
    } else {
        law_what_fits_is_written(text + pieces[0], pieces.drop_first());
        assert((text + pieces[0]) + pieces.drop_first().flatten() =~= text + (pieces[0]
            + pieces.drop_first().flatten()));
    }
}

/// Of pieces written one after the other, those before the first that does not fit into
/// 200 bytes any more are there, whole and in order, and nothing else is.
pub proof fn law_writing_stops_at_the_first_misfit(text: Seq<u8>, pieces: Seq<Seq<u8>>) -> (n: int)
    ensures
        0 <= n <= pieces.len(),
        written(text, pieces) == text + pieces.take(n).flatten(),
        n < pieces.len() ==> written(text, pieces).len() + pieces[n].len() > 200,
        text.len() <= 200 ==> written(text, pieces).len() <= 200,
    decreases pieces.len(),
{
    if pieces.len() == 0 || text.len() + pieces[0].len() > RESPONSE_CAPACITY {
        assert(text + pieces.take(0).flatten() =~= text);
        0
    } else {
        let m = law_writing_stops_at_the_first_misfit(text + pieces[0], pieces.drop_first());
        let front = pieces.take(m + 1);
        assert(front.drop_first() =~= pieces.drop_first().take(m));
        assert((text + pieces[0]) + front.drop_first().flatten() =~= text + (front[0]
            + front.drop_first().flatten()));
        m + 1
    }
}

/// No response outgrows its capacity.
pub proof fn law_written_fits(text: Seq<u8>, pieces: Seq<Seq<u8>>)
    requires
        text.len() <= RESPONSE_CAPACITY,
    ensures
        written(text, pieces).len() <= RESPONSE_CAPACITY,
    decreases pieces.len(),
{
    if pieces.len() > 0 && text.len() + pieces[0].len() <= RESPONSE_CAPACITY {
        law_written_fits(text + pieces[0], pieces.drop_first());
    }
}

} // verus!
