//! A builder assembling [`ReadOnly`], [`WriteOnly`] or [`ReadWrite`] REST
//! connectors. The set of calls made before `build` decides, at the type
//! level, which connector comes out; a combination with too few fields has no
//! `build` at all.

use vstd::prelude::*;
use crate::encode::{Codec, Decode, Encode, NoCodec};
use crate::rest::{HttpMethod, ReadOnly, ReadWrite, WriteOnly};

verus! {

/// Error raised when a URL fails the checks made at configuration time.
#[derive(Clone, Copy, Debug, Default, PartialEq, Eq, Hash, Structural)]
pub struct InvalidUrl;

/// Whether a URL is acceptable here: an `http://` or `https://` scheme with a
/// non-empty remainder. Anything finer is the transport's business.
pub open spec fn url_ok(s: Seq<char>) -> bool {
    ||| (s.len() > 7 && s.subrange(0, 7) == seq!['h', 't', 't', 'p', ':', '/', '/'])
    ||| (s.len() > 8 && s.subrange(0, 8) == seq!['h', 't', 't', 'p', 's', ':', '/', '/'])
}

/// Check a URL for an `http://` or `https://` scheme and a non-empty
/// remainder.
pub fn validate_url(url: &str) -> (r: bool)
    ensures
        r == url_ok(url@),
{
    let n = url.unicode_len();
    let http = n > 7 && url.get_char(0) == 'h' && url.get_char(1) == 't' && url.get_char(2) == 't'
        && url.get_char(3) == 'p' && url.get_char(4) == ':' && url.get_char(5) == '/'
        && url.get_char(6) == '/';
    let https = n > 8 && url.get_char(0) == 'h' && url.get_char(1) == 't' && url.get_char(2) == 't'
        && url.get_char(3) == 'p' && url.get_char(4) == 's' && url.get_char(5) == ':'
        && url.get_char(6) == '/' && url.get_char(7) == '/';
    proof {
        if url@.len() > 7 {
            assert(url@.subrange(0, 7) == seq!['h', 't', 't', 'p', ':', '/', '/'] <==> (url@[0]
                == 'h' && url@[1] == 't' && url@[2] == 't' && url@[3] == 'p' && url@[4] == ':'
                && url@[5] == '/' && url@[6] == '/')) by {
                if url@[0] == 'h' && url@[1] == 't' && url@[2] == 't' && url@[3] == 'p' && url@[4]
                    == ':' && url@[5] == '/' && url@[6] == '/' {
                    assert(url@.subrange(0, 7) =~= seq!['h', 't', 't', 'p', ':', '/', '/']);
                }
            }
        }
        if url@.len() > 8 {
            assert(url@.subrange(0, 8) == seq!['h', 't', 't', 'p', 's', ':', '/', '/'] <==> (
            url@[0] == 'h' && url@[1] == 't' && url@[2] == 't' && url@[3] == 'p' && url@[4] == 's'
                && url@[5] == ':' && url@[6] == '/' && url@[7] == '/')) by {
                if url@[0] == 'h' && url@[1] == 't' && url@[2] == 't' && url@[3] == 'p' && url@[4]
                    == 's' && url@[5] == ':' && url@[6] == '/' && url@[7] == '/' {
                    assert(url@.subrange(0, 8) =~= seq!['h', 't', 't', 'p', 's', ':', '/', '/']);
                }
            }
        }
    }
    http || https
}

/// A builder for REST connectors. Each boolean parameter records whether the
/// matching field has been set; `build` exists only for the combinations
/// that make a complete connector.
pub struct Builder<
    E,
    D,
    C,
    const SOURCE_URL: bool,
    const SOURCE_METHOD: bool,
    const SINK_URL: bool,
    const SINK_METHOD: bool,
    const ENCODER: bool,
    const DECODER: bool,
    const COMBINED: bool,
> {
    source_url: Option<String>,
    source_method: Option<HttpMethod>,
    sink_url: Option<String>,
    sink_method: Option<HttpMethod>,
    encoder: Option<E>,
    decoder: Option<D>,
    combined: Option<C>,
}

impl<
    E,
    D,
    C,
    const SOURCE_URL: bool,
    const SOURCE_METHOD: bool,
    const SINK_URL: bool,
    const SINK_METHOD: bool,
    const ENCODER: bool,
    const DECODER: bool,
    const COMBINED: bool,
> Builder<E, D, C, SOURCE_URL, SOURCE_METHOD, SINK_URL, SINK_METHOD, ENCODER, DECODER, COMBINED> {
    /// Each field is set exactly when its type-level flag says so, and the
    /// URLs that are set passed validation.
    #[verifier::type_invariant]
    pub closed spec fn wf(&self) -> bool {
        &&& self.source_url is Some <==> SOURCE_URL
        &&& self.source_method is Some <==> SOURCE_METHOD
        &&& self.sink_url is Some <==> SINK_URL
        &&& self.sink_method is Some <==> SINK_METHOD
        &&& self.encoder is Some <==> ENCODER
        &&& self.decoder is Some <==> DECODER
        &&& self.combined is Some <==> COMBINED
        &&& SOURCE_URL ==> url_ok(self.source_url->0@)
        &&& SINK_URL ==> url_ok(self.sink_url->0@)
    }

    /// The URL set for fetching, if any.
    pub closed spec fn spec_source_url(&self) -> Option<String> {
        self.source_url
    }

    /// The method set for fetching, if any.
    pub closed spec fn spec_source_method(&self) -> Option<HttpMethod> {
        self.source_method
    }

    /// The URL set for sending, if any.
    pub closed spec fn spec_sink_url(&self) -> Option<String> {
        self.sink_url
    }

    /// The method set for sending, if any.
    pub closed spec fn spec_sink_method(&self) -> Option<HttpMethod> {
        self.sink_method
    }

    /// The encoder set, if any.
    pub closed spec fn spec_encoder(&self) -> Option<E> {
        self.encoder
    }

    /// The decoder set, if any.
    pub closed spec fn spec_decoder(&self) -> Option<D> {
        self.decoder
    }

    /// The combined codec set, if any.
    pub closed spec fn spec_combined(&self) -> Option<C> {
        self.combined
    }
}

impl Builder<NoCodec, NoCodec, NoCodec, false, false, false, false, false, false, false> {
    /// A builder with no fields set.
    pub fn new() -> (b: Self)
        ensures
            b.spec_source_url() is None,
            b.spec_source_method() is None,
            b.spec_sink_url() is None,
            b.spec_sink_method() is None,
    {
        Builder {
            source_url: None,
            source_method: None,
            sink_url: None,
            sink_method: None,
            encoder: None,
            decoder: None,
            combined: None,
        }
    }
}

impl<
    E,
    D,
    C,
    const SOURCE_METHOD: bool,
    const SINK_URL: bool,
    const SINK_METHOD: bool,
    const ENCODER: bool,
    const DECODER: bool,
    const COMBINED: bool,
> Builder<E, D, C, false, SOURCE_METHOD, SINK_URL, SINK_METHOD, ENCODER, DECODER, COMBINED> {
    /// Set the URL to fetch from. Fails when the URL is not an HTTP URL.
    pub fn source_url(self, url: &str) -> (r: Result<
        Builder<E, D, C, true, SOURCE_METHOD, SINK_URL, SINK_METHOD, ENCODER, DECODER, COMBINED>,
        InvalidUrl,
    >)
        ensures
            match r {
                Ok(b) => url_ok(url@) && (b.spec_source_url() matches Some(u) && u@ == url@),
                Err(e) => !url_ok(url@),
            },
    {
        proof {
            use_type_invariant(&self);
        }
        if !validate_url(url) {
            return Err(InvalidUrl);
        }
        let Builder { source_url: _, source_method, sink_url, sink_method, encoder, decoder, combined } = self;
        Ok(
            Builder {
                source_url: Some(url.to_owned()),
                source_method,
                sink_url,
                sink_method,
                encoder,
                decoder,
                combined,
            },
        )
    }
}

impl<
    E,
    D,
    C,
    const SOURCE_URL: bool,
    const SINK_URL: bool,
    const SINK_METHOD: bool,
    const ENCODER: bool,
    const DECODER: bool,
    const COMBINED: bool,
> Builder<E, D, C, SOURCE_URL, false, SINK_URL, SINK_METHOD, ENCODER, DECODER, COMBINED> {
    /// Set the HTTP method to use when fetching. When never called, `GET` is
    /// used.
    pub fn source_method(self, method: HttpMethod) -> (r: Builder<
        E,
        D,
        C,
        SOURCE_URL,
        true,
        SINK_URL,
        SINK_METHOD,
        ENCODER,
        DECODER,
        COMBINED,
    >)
        ensures
            r.spec_source_method() == Some(method),
            r.spec_source_url() == self.spec_source_url(),
            r.spec_sink_url() == self.spec_sink_url(),
            r.spec_sink_method() == self.spec_sink_method(),
    {
        proof {
            use_type_invariant(&self);
        }
        let Builder { source_url, source_method: _, sink_url, sink_method, encoder, decoder, combined } = self;
        Builder {
            source_url,
            source_method: Some(method),
            sink_url,
            sink_method,
            encoder,
            decoder,
            combined,
        }
    }
}

impl<
    E,
    D,
    C,
    const SOURCE_URL: bool,
    const SOURCE_METHOD: bool,
    const SINK_METHOD: bool,
    const ENCODER: bool,
    const DECODER: bool,
    const COMBINED: bool,
> Builder<E, D, C, SOURCE_URL, SOURCE_METHOD, false, SINK_METHOD, ENCODER, DECODER, COMBINED> {
    /// Set the URL to send to. Fails when the URL is not an HTTP URL.
    pub fn sink_url(self, url: &str) -> (r: Result<
        Builder<E, D, C, SOURCE_URL, SOURCE_METHOD, true, SINK_METHOD, ENCODER, DECODER, COMBINED>,
        InvalidUrl,
    >)
        ensures
            match r {
                Ok(b) => url_ok(url@) && (b.spec_sink_url() matches Some(u) && u@ == url@)
                    && b.spec_source_url() == self.spec_source_url(),
                Err(e) => !url_ok(url@),
            },
    {
        proof {
            use_type_invariant(&self);
        }
        if !validate_url(url) {
            return Err(InvalidUrl);
        }
        let Builder { source_url, source_method, sink_url: _, sink_method, encoder, decoder, combined } = self;
        Ok(
            Builder {
                source_url,
                source_method,
                sink_url: Some(url.to_owned()),
                sink_method,
                encoder,
                decoder,
                combined,
            },
        )
    }
}

impl<
    E,
    D,
    C,
    const SOURCE_URL: bool,
    const SOURCE_METHOD: bool,
    const SINK_URL: bool,
    const ENCODER: bool,
    const DECODER: bool,
    const COMBINED: bool,
> Builder<E, D, C, SOURCE_URL, SOURCE_METHOD, SINK_URL, false, ENCODER, DECODER, COMBINED> {
    /// Set the HTTP method to use when sending. When never called, `PUT` is
    /// used.
    pub fn sink_method(self, method: HttpMethod) -> (r: Builder<
        E,
        D,
        C,
        SOURCE_URL,
        SOURCE_METHOD,
        SINK_URL,
        true,
        ENCODER,
        DECODER,
        COMBINED,
    >)
        ensures
            r.spec_sink_method() == Some(method),
            r.spec_source_url() == self.spec_source_url(),
            r.spec_sink_url() == self.spec_sink_url(),
            r.spec_source_method() == self.spec_source_method(),
    {
        proof {
            use_type_invariant(&self);
        }
        let Builder { source_url, source_method, sink_url, sink_method: _, encoder, decoder, combined } = self;
        Builder {
            source_url,
            source_method,
            sink_url,
            sink_method: Some(method),
            encoder,
            decoder,
            combined,
        }
    }
}

impl<
    E,
    D,
    C,
    const SOURCE_URL: bool,
    const SOURCE_METHOD: bool,
    const SINK_URL: bool,
    const SINK_METHOD: bool,
    const DECODER: bool,
> Builder<E, D, C, SOURCE_URL, SOURCE_METHOD, SINK_URL, SINK_METHOD, false, DECODER, false> {
    /// Set the encoder for outgoing data. Needed for a [`WriteOnly`], and one
    /// of the alternatives for a [`ReadWrite`].
    pub fn encoder<E2>(self, encoder: E2) -> (r: Builder<
        E2,
        D,
        C,
        SOURCE_URL,
        SOURCE_METHOD,
        SINK_URL,
        SINK_METHOD,
        true,
        DECODER,
        false,
    >)
        ensures
            r.spec_encoder() == Some(encoder),
            r.spec_decoder() == self.spec_decoder(),
            r.spec_source_url() == self.spec_source_url(),
            r.spec_source_method() == self.spec_source_method(),
            r.spec_sink_url() == self.spec_sink_url(),
            r.spec_sink_method() == self.spec_sink_method(),
    {
        proof {
            use_type_invariant(&self);
        }
        let Builder { source_url, source_method, sink_url, sink_method, encoder: _, decoder, combined } = self;
        Builder {
            source_url,
            source_method,
            sink_url,
            sink_method,
            encoder: Some(encoder),
            decoder,
            combined: None,
        }
    }
}

impl<
    E,
    D,
    C,
    const SOURCE_URL: bool,
    const SOURCE_METHOD: bool,
    const SINK_URL: bool,
    const SINK_METHOD: bool,
    const ENCODER: bool,
> Builder<E, D, C, SOURCE_URL, SOURCE_METHOD, SINK_URL, SINK_METHOD, ENCODER, false, false> {
    /// Set the decoder for received data. Needed for a [`ReadOnly`], and one
    /// of the alternatives for a [`ReadWrite`].
    pub fn decoder<D2>(self, decoder: D2) -> (r: Builder<
        E,
        D2,
        C,
        SOURCE_URL,
        SOURCE_METHOD,
        SINK_URL,
        SINK_METHOD,
        ENCODER,
        true,
        false,
    >)
        ensures
            r.spec_decoder() == Some(decoder),
            r.spec_encoder() == self.spec_encoder(),
            r.spec_source_url() == self.spec_source_url(),
            r.spec_source_method() == self.spec_source_method(),
            r.spec_sink_url() == self.spec_sink_url(),
            r.spec_sink_method() == self.spec_sink_method(),
    {
        proof {
            use_type_invariant(&self);
        }
        let Builder { source_url, source_method, sink_url, sink_method, encoder, decoder: _, combined } = self;
        Builder {
            source_url,
            source_method,
            sink_url,
            sink_method,
            encoder,
            decoder: Some(decoder),
            combined: None,
        }
    }
}

impl<
    E,
    D,
    C,
    const SOURCE_URL: bool,
    const SOURCE_METHOD: bool,
    const SINK_URL: bool,
    const SINK_METHOD: bool,
> Builder<E, D, C, SOURCE_URL, SOURCE_METHOD, SINK_URL, SINK_METHOD, false, false, false> {
    /// Set one codec for both directions. The alternative to a separate
    /// encoder and decoder when assembling a [`ReadWrite`].
    pub fn codec<C2>(self, codec: C2) -> (r: Builder<
        E,
        D,
        C2,
        SOURCE_URL,
        SOURCE_METHOD,
        SINK_URL,
        SINK_METHOD,
        false,
        false,
        true,
    >)
        ensures
            r.spec_combined() == Some(codec),
            r.spec_source_url() == self.spec_source_url(),
            r.spec_source_method() == self.spec_source_method(),
            r.spec_sink_url() == self.spec_sink_url(),
            r.spec_sink_method() == self.spec_sink_method(),
    {
        proof {
            use_type_invariant(&self);
        }
        let Builder { source_url, source_method, sink_url, sink_method, encoder: _, decoder: _, combined: _ } = self;
        Builder {
            source_url,
            source_method,
            sink_url,
            sink_method,
            encoder: None,
            decoder: None,
            combined: Some(codec),
        }
    }
}

/// A builder whose fields make a complete connector, ready to be built.
pub trait Build: Sized {
    /// The connector produced when building.
    type Output;

    /// How a built connector relates to the builder's fields.
    spec fn builds(self, out: Self::Output) -> bool;

    /// Consume the builder, returning its connector.
    fn build(self) -> (r: Self::Output)
        ensures
            self.builds(r),
    ;
}

impl<D, const SOURCE_METHOD: bool> Build for Builder<
    NoCodec,
    D,
    NoCodec,
    true,
    SOURCE_METHOD,
    false,
    false,
    false,
    true,
    false,
> {
    type Output = ReadOnly<D>;

    /// The URL and decoder are the ones set; the method defaults to `GET`.
    open spec fn builds(self, out: ReadOnly<D>) -> bool {
        &&& out.url == self.spec_source_url()->0
        &&& out.method == match self.spec_source_method() {
            Some(m) => m,
            None => HttpMethod::Get,
        }
        &&& out.decoder == self.spec_decoder()->0
    }

    /// A source URL and a decoder make a read-only connector; the method
    /// defaults to `GET`.
    fn build(self) -> (r: Self::Output) {
        proof {
            use_type_invariant(&self);
        }
        let Builder { source_url, source_method, decoder, .. } = self;
        let url = match source_url {
            Some(url) => url,
            None => unreached(),
        };
        let decoder = match decoder {
            Some(decoder) => decoder,
            None => unreached(),
        };
        let method = match source_method {
            Some(method) => method,
            None => HttpMethod::Get,
        };
        ReadOnly { url, method, decoder }
    }
}

impl<E, const SINK_METHOD: bool> Build for Builder<
    E,
    NoCodec,
    NoCodec,
    false,
    false,
    true,
    SINK_METHOD,
    true,
    false,
    false,
> {
    type Output = WriteOnly<E>;

    /// The URL and encoder are the ones set; the method defaults to `PUT`.
    open spec fn builds(self, out: WriteOnly<E>) -> bool {
        &&& out.url == self.spec_sink_url()->0
        &&& out.method == match self.spec_sink_method() {
            Some(m) => m,
            None => HttpMethod::Put,
        }
        &&& out.encoder == self.spec_encoder()->0
    }

    /// A sink URL and an encoder make a write-only connector; the method
    /// defaults to `PUT`.
    fn build(self) -> (r: Self::Output) {
        proof {
            use_type_invariant(&self);
        }
        let Builder { sink_url, sink_method, encoder, .. } = self;
        let url = match sink_url {
            Some(url) => url,
            None => unreached(),
        };
        let encoder = match encoder {
            Some(encoder) => encoder,
            None => unreached(),
        };
        let method = match sink_method {
            Some(method) => method,
            None => HttpMethod::Put,
        };
        WriteOnly { url, method, encoder }
    }
}

impl<
    E: Encode,
    D: Decode,
    const SOURCE_METHOD: bool,
    const SINK_METHOD: bool,
> Build for Builder<E, D, NoCodec, true, SOURCE_METHOD, true, SINK_METHOD, true, true, false> {
    type Output = ReadWrite<E, D, NoCodec>;

    /// The URLs are the ones set, the methods default to `GET` and `PUT`,
    /// and the codec behaves as the separate encoder and decoder that were
    /// set.
    open spec fn builds(self, out: ReadWrite<E, D, NoCodec>) -> bool {
        &&& out.source_url == self.spec_source_url()->0
        &&& out.sink_url == self.spec_sink_url()->0
        &&& out.source_method == match self.spec_source_method() {
            Some(m) => m,
            None => HttpMethod::Get,
        }
        &&& out.sink_method == match self.spec_sink_method() {
            Some(m) => m,
            None => HttpMethod::Put,
        }
        &&& forall|rs: Seq<crate::value::RecordV>| #[trigger]
            out.codec.enc_list(rs) == self.spec_encoder()->0.list_encoding(rs)
        &&& forall|rec: crate::value::RecordV| #[trigger]
            out.codec.enc_one(rec) == self.spec_encoder()->0.one_encoding(rec)
        &&& forall|s: Seq<char>| #[trigger]
            out.codec.dec_list(s) == self.spec_decoder()->0.list_decoding(s)
        &&& forall|s: Seq<char>| #[trigger]
            out.codec.dec_one(s) == self.spec_decoder()->0.one_decoding(s)
    }

    /// Both URLs, an encoder and a decoder make a read-write connector; the
    /// methods default to `GET` and `PUT`.
    fn build(self) -> (r: Self::Output) {
        proof {
            use_type_invariant(&self);
        }
        let Builder { source_url, source_method, sink_url, sink_method, encoder, decoder, .. } =
            self;
        let source_url = match source_url {
            Some(url) => url,
            None => unreached(),
        };
        let sink_url = match sink_url {
            Some(url) => url,
            None => unreached(),
        };
        let encoder = match encoder {
            Some(encoder) => encoder,
            None => unreached(),
        };
        let decoder = match decoder {
            Some(decoder) => decoder,
            None => unreached(),
        };
        ReadWrite {
            source_url,
            source_method: match source_method {
                Some(method) => method,
                None => HttpMethod::Get,
            },
            sink_url,
            sink_method: match sink_method {
                Some(method) => method,
                None => HttpMethod::Put,
            },
            codec: Codec::separate(encoder, decoder),
        }
    }
}

impl<
    C: Encode + Decode,
    const SOURCE_METHOD: bool,
    const SINK_METHOD: bool,
> Build for Builder<
    NoCodec,
    NoCodec,
    C,
    true,
    SOURCE_METHOD,
    true,
    SINK_METHOD,
    false,
    false,
    true,
> {
    type Output = ReadWrite<NoCodec, NoCodec, C>;

    /// The URLs are the ones set, the methods default to `GET` and `PUT`,
    /// and the codec behaves as the combined codec that was set.
    open spec fn builds(self, out: ReadWrite<NoCodec, NoCodec, C>) -> bool {
        &&& out.source_url == self.spec_source_url()->0
        &&& out.sink_url == self.spec_sink_url()->0
        &&& out.source_method == match self.spec_source_method() {
            Some(m) => m,
            None => HttpMethod::Get,
        }
        &&& out.sink_method == match self.spec_sink_method() {
            Some(m) => m,
            None => HttpMethod::Put,
        }
        &&& forall|rs: Seq<crate::value::RecordV>| #[trigger]
            out.codec.enc_list(rs) == self.spec_combined()->0.list_encoding(rs)
        &&& forall|rec: crate::value::RecordV| #[trigger]
            out.codec.enc_one(rec) == self.spec_combined()->0.one_encoding(rec)
        &&& forall|s: Seq<char>| #[trigger]
            out.codec.dec_list(s) == self.spec_combined()->0.list_decoding(s)
        &&& forall|s: Seq<char>| #[trigger]
            out.codec.dec_one(s) == self.spec_combined()->0.one_decoding(s)
    }

    /// Both URLs and one codec make a read-write connector; the methods
    /// default to `GET` and `PUT`.
    fn build(self) -> (r: Self::Output) {
        proof {
            use_type_invariant(&self);
        }
        let Builder { source_url, source_method, sink_url, sink_method, combined, .. } = self;
        let source_url = match source_url {
            Some(url) => url,
            None => unreached(),
        };
        let sink_url = match sink_url {
            Some(url) => url,
            None => unreached(),
        };
        let combined = match combined {
            Some(combined) => combined,
            None => unreached(),
        };
        ReadWrite {
            source_url,
            source_method: match source_method {
                Some(method) => method,
                None => HttpMethod::Get,
            },
            sink_url,
            sink_method: match sink_method {
                Some(method) => method,
                None => HttpMethod::Put,
            },
            codec: Codec::combined(combined),
        }
    }
}

} // verus!
