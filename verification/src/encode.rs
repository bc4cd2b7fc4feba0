//! The `Encode` and `Decode` capabilities, and the `Codec` that bundles them.

use vstd::prelude::*;
use crate::value::{Record, RecordV};
use crate::errors::{DecodeError, DecodeOneError, EncodeError};

pub mod json;

verus! {

/// The views of a list of records, in order.
pub open spec fn records_view(v: Seq<Record>) -> Seq<RecordV> {
    Seq::new(v.len(), |i: int| v[i]@)
}

/// A type that can encode records as text.
///
/// The three entry points all produce self-contained output: formats with
/// framing (such as a JSON array) never hand out half-finished state.
pub trait Encode {
    /// The text this encoder produces for a list of records.
    spec fn list_encoding(&self, rs: Seq<RecordV>) -> Seq<char>;

    /// The text this encoder produces for one record.
    spec fn one_encoding(&self, r: RecordV) -> Seq<char>;

    /// Encode a list of entries, assembling the output entry by entry.
    fn encode(&self, entries: &Vec<Record>) -> (r: Result<String, EncodeError>)
        ensures
            match r {
                Ok(s) => s@ == self.list_encoding(records_view(entries@)),
                Err(e) => false,
            },
    ;

    /// Encode a list of entries in one piece.
    fn encode_all(&self, entries: &Vec<Record>) -> (r: Result<String, EncodeError>)
        ensures
            match r {
                Ok(s) => s@ == self.list_encoding(records_view(entries@)),
                Err(e) => false,
            },
    ;

    /// Encode a single entry.
    fn encode_one(&self, entry: &Record) -> (r: Result<String, EncodeError>)
        ensures
            match r {
                Ok(s) => s@ == self.one_encoding(entry@),
                Err(e) => false,
            },
    ;
}

/// A type that can decode records from text.
pub trait Decode {
    /// What a text denotes as a list of records, if anything.
    spec fn list_decoding(&self, s: Seq<char>) -> Option<Seq<RecordV>>;

    /// What a text denotes as one record, if anything.
    spec fn one_decoding(&self, s: Seq<char>) -> Option<RecordV>;

    /// Decode a list of records. Fails exactly on the texts that denote no
    /// record list in this format.
    fn decode_all(&self, text: &str) -> (r: Result<Vec<Record>, DecodeError>)
        ensures
            match r {
                Ok(v) => self.list_decoding(text@) == Some(records_view(v@)),
                Err(e) => self.list_decoding(text@) is None,
            },
    ;

    /// Decode a single record, if one is there: empty input is `None`;
    /// anything else must denote one record in this format.
    fn decode_optional(&self, text: &str) -> (r: Result<Option<Record>, DecodeError>)
        ensures
            match r {
                Ok(opt) => match opt {
                    None => text@.len() == 0,
                    Some(rec) => text@.len() > 0 && self.one_decoding(text@) == Some(rec@),
                },
                Err(e) => text@.len() > 0 && self.one_decoding(text@) is None,
            },
    ;

    /// Decode a single record: empty input reports `Empty`; anything else
    /// must denote one record in this format.
    fn decode_one(&self, text: &str) -> (r: Result<Record, DecodeOneError>)
        ensures
            match r {
                Ok(rec) => text@.len() > 0 && self.one_decoding(text@) == Some(rec@),
                Err(e) => match e {
                    DecodeOneError::Empty => text@.len() == 0,
                    DecodeOneError::Decode(d) => text@.len() > 0 && self.one_decoding(text@)
                        is None,
                },
            },
    ;
}

/// A value used for encoding and decoding: either a separate encoder and
/// decoder, or one value serving as both.
pub struct Codec<E = (), D = (), C = ()> {
    inner: CodecImpl<E, D, C>,
}

/// Implementation of [`Codec`].
enum CodecImpl<E, D, C> {
    /// Separate encoder and decoder.
    Separate(E, D),
    /// One value serving as both encoder and decoder.
    Combined(C),
}

impl<E: Encode, D: Decode, C: Encode + Decode> Codec<E, D, C> {
    /// Bundle a separate encoder and decoder.
    pub fn separate(encoder: E, decoder: D) -> (r: Self)
        ensures
            forall|rs: Seq<RecordV>| #[trigger] r.enc_list(rs) == encoder.list_encoding(rs),
            forall|rec: RecordV| #[trigger] r.enc_one(rec) == encoder.one_encoding(rec),
            forall|s: Seq<char>| #[trigger] r.dec_list(s) == decoder.list_decoding(s),
            forall|s: Seq<char>| #[trigger] r.dec_one(s) == decoder.one_decoding(s),
    {
        Codec { inner: CodecImpl::Separate(encoder, decoder) }
    }

    /// Use one value as both encoder and decoder.
    pub fn combined(combined: C) -> (r: Self)
        ensures
            forall|rs: Seq<RecordV>| #[trigger] r.enc_list(rs) == combined.list_encoding(rs),
            forall|rec: RecordV| #[trigger] r.enc_one(rec) == combined.one_encoding(rec),
            forall|s: Seq<char>| #[trigger] r.dec_list(s) == combined.list_decoding(s),
            forall|s: Seq<char>| #[trigger] r.dec_one(s) == combined.one_decoding(s),
    {
        Codec { inner: CodecImpl::Combined(combined) }
    }

    /// The text this codec produces for a list of records.
    pub closed spec fn enc_list(&self, rs: Seq<RecordV>) -> Seq<char> {
        match self.inner {
            CodecImpl::Separate(e, _) => e.list_encoding(rs),
            CodecImpl::Combined(c) => c.list_encoding(rs),
        }
    }

    /// The text this codec produces for one record.
    pub closed spec fn enc_one(&self, r: RecordV) -> Seq<char> {
        match self.inner {
            CodecImpl::Separate(e, _) => e.one_encoding(r),
            CodecImpl::Combined(c) => c.one_encoding(r),
        }
    }

    /// What a text denotes to this codec as a list of records.
    pub closed spec fn dec_list(&self, s: Seq<char>) -> Option<Seq<RecordV>> {
        match self.inner {
            CodecImpl::Separate(_, d) => d.list_decoding(s),
            CodecImpl::Combined(c) => c.list_decoding(s),
        }
    }

    /// What a text denotes to this codec as one record.
    pub closed spec fn dec_one(&self, s: Seq<char>) -> Option<RecordV> {
        match self.inner {
            CodecImpl::Separate(_, d) => d.one_decoding(s),
            CodecImpl::Combined(c) => c.one_decoding(s),
        }
    }
}

impl<E: Encode, D: Decode, C: Encode + Decode> Encode for Codec<E, D, C> {
    open spec fn list_encoding(&self, rs: Seq<RecordV>) -> Seq<char> {
        self.enc_list(rs)
    }

    open spec fn one_encoding(&self, r: RecordV) -> Seq<char> {
        self.enc_one(r)
    }

    fn encode(&self, entries: &Vec<Record>) -> (r: Result<String, EncodeError>) {
        match &self.inner {
            CodecImpl::Separate(e, _) => e.encode(entries),
            CodecImpl::Combined(c) => c.encode(entries),
        }
    }

    fn encode_all(&self, entries: &Vec<Record>) -> (r: Result<String, EncodeError>) {
        match &self.inner {
            CodecImpl::Separate(e, _) => e.encode_all(entries),
            CodecImpl::Combined(c) => c.encode_all(entries),
        }
    }

    fn encode_one(&self, entry: &Record) -> (r: Result<String, EncodeError>) {
        match &self.inner {
            CodecImpl::Separate(e, _) => e.encode_one(entry),
            CodecImpl::Combined(c) => c.encode_one(entry),
        }
    }
}

impl<E: Encode, D: Decode, C: Encode + Decode> Decode for Codec<E, D, C> {
    open spec fn list_decoding(&self, s: Seq<char>) -> Option<Seq<RecordV>> {
        self.dec_list(s)
    }

    open spec fn one_decoding(&self, s: Seq<char>) -> Option<RecordV> {
        self.dec_one(s)
    }

    fn decode_all(&self, text: &str) -> (r: Result<Vec<Record>, DecodeError>) {
        match &self.inner {
            CodecImpl::Separate(_, d) => d.decode_all(text),
            CodecImpl::Combined(c) => c.decode_all(text),
        }
    }

    fn decode_optional(&self, text: &str) -> (r: Result<Option<Record>, DecodeError>) {
        match &self.inner {
            CodecImpl::Separate(_, d) => d.decode_optional(text),
            CodecImpl::Combined(c) => c.decode_optional(text),
        }
    }

    fn decode_one(&self, text: &str) -> (r: Result<Record, DecodeOneError>) {
        match &self.inner {
            CodecImpl::Separate(_, d) => d.decode_one(text),
            CodecImpl::Combined(c) => c.decode_one(text),
        }
    }
}

/// The codec of a connector slot that the builder has not filled: it encodes
/// every list to empty text and decodes nothing. It only stands in types; a
/// complete connector never calls it for real work.
pub struct NoCodec;

impl Encode for NoCodec {
    open spec fn list_encoding(&self, rs: Seq<RecordV>) -> Seq<char> {
        Seq::empty()
    }

    open spec fn one_encoding(&self, r: RecordV) -> Seq<char> {
        Seq::empty()
    }

    /// Empty text.
    fn encode(&self, entries: &Vec<Record>) -> (r: Result<String, EncodeError>) {
        Ok(String::new())
    }

    /// Empty text.
    fn encode_all(&self, entries: &Vec<Record>) -> (r: Result<String, EncodeError>) {
        Ok(String::new())
    }

    /// Empty text.
    fn encode_one(&self, entry: &Record) -> (r: Result<String, EncodeError>) {
        Ok(String::new())
    }
}

impl Decode for NoCodec {
    open spec fn list_decoding(&self, s: Seq<char>) -> Option<Seq<RecordV>> {
        None
    }

    open spec fn one_decoding(&self, s: Seq<char>) -> Option<RecordV> {
        None
    }

    /// No text denotes records here.
    fn decode_all(&self, text: &str) -> (r: Result<Vec<Record>, DecodeError>) {
        Err(DecodeError)
    }

    /// No non-empty text denotes a record here.
    fn decode_optional(&self, text: &str) -> (r: Result<Option<Record>, DecodeError>) {
        if text.is_empty() {
            Ok(None)
        } else {
            Err(DecodeError)
        }
    }

    /// No non-empty text denotes a record here.
    fn decode_one(&self, text: &str) -> (r: Result<Record, DecodeOneError>) {
        if text.is_empty() {
            Err(DecodeOneError::Empty)
        } else {
            Err(DecodeOneError::Decode(DecodeError))
        }
    }
}

} // verus!
