//! Request and response headers.
//!
//! A request header carries the API key, the API version, a correlation
//! identifier and a client identifier; a response header carries the
//! correlation identifier back. At flexible versions either header appends a
//! tagged-field block; whether a header is flexible is decided by the API
//! registry from the negotiated version, and handed in here as a flag. The
//! client identifier is a legacy nullable string in every header shape,
//! independent of flexibility.

use vstd::prelude::*;

use crate::api_key::{spec_api_key_code, spec_api_key_from_code, ApiKey};
use crate::error::Error;
use crate::primitives::{
    read_i16_be, read_i32_be, spec_i16_to_be_bytes, spec_i32_to_be_bytes, spec_read_i16_be,
    spec_read_i32_be, write_i16_be, write_i32_be, SpecRead,
};
use crate::strings::{
    read_nullable_string, spec_encode_nullable_string, spec_read_nullable_string,
    view_opt_string, write_nullable_string, WireString,
};
use crate::tagged::{
    spec_encode_tagged_fields, spec_read_tagged_fields, spec_tagged_wf, TaggedFields,
};
use crate::utf8::is_utf8;

verus! {

/// A request header.
#[derive(Clone, Debug, PartialEq, Eq)]
pub struct Request {
    /// The API key of this request.
    pub api_key: ApiKey,
    /// The API version of this request.
    pub api_version: i16,
    /// The correlation ID of this request: an opaque passthrough value.
    pub correlation_id: i32,
    /// The client ID string.
    pub client_id: Option<WireString>,
    /// This request's tagged fields; on the wire only at flexible versions.
    pub tagged_fields: TaggedFields,
}

/// The mathematical shadow of a request header.
pub struct RequestView {
    pub api_key: ApiKey,
    pub api_version: i16,
    pub correlation_id: i32,
    pub client_id: Option<Seq<u8>>,
    pub tagged_fields: Seq<(u32, Seq<u8>)>,
}

impl View for Request {
    type V = RequestView;

    open spec fn view(&self) -> RequestView {
        RequestView {
            api_key: self.api_key,
            api_version: self.api_version,
            correlation_id: self.correlation_id,
            client_id: view_opt_string(self.client_id),
            tagged_fields: self.tagged_fields@,
        }
    }
}

/// What a request header must satisfy for its encoding at the given
/// flexibility to decode back to it.
pub open spec fn spec_request_header_wf(h: RequestView, flexible: bool) -> bool {
    &&& h.client_id matches Some(b) ==> is_utf8(b) && b.len() <= i16::MAX
    &&& spec_tagged_wf(h.tagged_fields)
    &&& !flexible ==> h.tagged_fields.len() == 0
}

pub open spec fn spec_encode_request_header(h: RequestView, flexible: bool) -> Seq<u8>
    recommends
        spec_request_header_wf(h, flexible),
{
    spec_i16_to_be_bytes(spec_api_key_code(h.api_key)) + spec_i16_to_be_bytes(h.api_version)
        + spec_i32_to_be_bytes(h.correlation_id) + spec_encode_nullable_string(h.client_id) + (
    if flexible {
        spec_encode_tagged_fields(h.tagged_fields)
    } else {
        Seq::empty()
    })
}

/// Reads a request header: an API key outside the code table fails with
/// `InvalidApiKey`; the version is carried through as read, to be validated
/// against the registry's supported range by the caller.
pub open spec fn spec_read_request_header(s: Seq<u8>, pos: int, flexible: bool) -> SpecRead<
    RequestView,
> {
    match spec_read_i16_be(s, pos) {
        Ok((code, p1)) => match spec_api_key_from_code(code) {
            None => Err(Error::InvalidApiKey(code)),
            Some(api_key) => match spec_read_i16_be(s, p1) {
                Ok((api_version, p2)) => match spec_read_i32_be(s, p2) {
                    Ok((correlation_id, p3)) => match spec_read_nullable_string(s, p3) {
                        Ok((client_id, p4)) => if flexible {
                            match spec_read_tagged_fields(s, p4) {
                                Ok((tagged_fields, end)) => Ok(
                                    (
                                        RequestView {
                                            api_key,
                                            api_version,
                                            correlation_id,
                                            client_id,
                                            tagged_fields,
                                        },
                                        end,
                                    ),
                                ),
                                Err(e) => Err(e),
                            }
                        } else {
                            Ok(
                                (
                                    RequestView {
                                        api_key,
                                        api_version,
                                        correlation_id,
                                        client_id,
                                        tagged_fields: Seq::empty(),
                                    },
                                    p4,
                                ),
                            )
                        },
                        Err(e) => Err(e),
                    },
                    Err(e) => Err(e),
                },
                Err(e) => Err(e),
            },
        },
        Err(e) => Err(e),
    }
}

impl Request {
    /// Appends the header's wire form.
    pub fn write(&self, out: &mut Vec<u8>, flexible: bool)
        requires
            spec_request_header_wf(self@, flexible),
        ensures
            final(out)@ == old(out)@ + spec_encode_request_header(self@, flexible),
    {
        write_i16_be(out, self.api_key.code());
        write_i16_be(out, self.api_version);
        write_i32_be(out, self.correlation_id);
        write_nullable_string(
            out,
            match &self.client_id {
                None => None,
                Some(w) => Some(w),
            },
        );
        if flexible {
            self.tagged_fields.write(out);
        }
        assert(final(out)@ =~= old(out)@ + spec_encode_request_header(self@, flexible));
    }

    /// Reads a header.
    pub fn read(buf: &[u8], pos: usize, flexible: bool) -> (r: Result<(Request, usize), Error>)
        ensures
            match r {
                Ok((h, end)) => spec_read_request_header(buf@, pos as int, flexible) == Ok::<
                    _,
                    Error,
                >((h@, end as int)),
                Err(e) => spec_read_request_header(buf@, pos as int, flexible) == Err::<
                    (RequestView, int),
                    _,
                >(e),
            },
    {
        let (code, p1) = match read_i16_be(buf, pos) {
            Ok(x) => x,
            Err(e) => {
                return Err(e);
            },
        };
        let api_key = match ApiKey::from_code(code) {
            Ok(k) => k,
            Err(e) => {
                return Err(e);
            },
        };
        let (api_version, p2) = match read_i16_be(buf, p1) {
            Ok(x) => x,
            Err(e) => {
                return Err(e);
            },
        };
        let (correlation_id, p3) = match read_i32_be(buf, p2) {
            Ok(x) => x,
            Err(e) => {
                return Err(e);
            },
        };
        let (client_id, p4) = match read_nullable_string(buf, p3) {
            Ok(x) => x,
            Err(e) => {
                return Err(e);
            },
        };
        if flexible {
            match TaggedFields::read(buf, p4) {
                Ok((tagged_fields, end)) => Ok(
                    (Request { api_key, api_version, correlation_id, client_id, tagged_fields },
                    end),
                ),
                Err(e) => Err(e),
            }
        } else {
            let h = Request {
                api_key,
                api_version,
                correlation_id,
                client_id,
                tagged_fields: TaggedFields::empty(),
            };
            proof {
                assert(h@.tagged_fields =~= Seq::<(u32, Seq<u8>)>::empty());
            }
            Ok((h, p4))
        }
    }
}

/// Reading back an encoded well-formed request header returns exactly it.
pub proof fn lemma_request_header_roundtrip(s: Seq<u8>, pos: int, h: RequestView, flexible: bool)
    requires
        0 <= pos,
        spec_request_header_wf(h, flexible),
        pos + spec_encode_request_header(h, flexible).len() <= s.len(),
        s.subrange(pos, pos + spec_encode_request_header(h, flexible).len())
            == spec_encode_request_header(h, flexible),
    ensures
        spec_read_request_header(s, pos, flexible) == Ok::<_, Error>(
            (h, pos + spec_encode_request_header(h, flexible).len() as int),
        ),
{
    let e = spec_encode_request_header(h, flexible);
    let c0 = spec_i16_to_be_bytes(spec_api_key_code(h.api_key));
    let c1 = spec_i16_to_be_bytes(h.api_version);
    let c2 = spec_i32_to_be_bytes(h.correlation_id);
    let c3 = spec_encode_nullable_string(h.client_id);
    assert(s.subrange(pos, pos + 2) =~= e.subrange(0, 2));
    assert(e.subrange(0, 2) =~= c0);
    crate::primitives::lemma_read_i16_be_of_encoding(s, pos, spec_api_key_code(h.api_key));
    crate::api_key::lemma_api_key_table_bijective();
    assert(s.subrange(pos + 2, pos + 4) =~= e.subrange(2, 4));
    assert(e.subrange(2, 4) =~= c1);
    crate::primitives::lemma_read_i16_be_of_encoding(s, pos + 2, h.api_version);
    assert(s.subrange(pos + 4, pos + 8) =~= e.subrange(4, 8));
    assert(e.subrange(4, 8) =~= c2);
    crate::primitives::lemma_read_i32_be_of_encoding(s, pos + 4, h.correlation_id);
    let p3 = pos + 8;
    assert(s.subrange(p3, p3 + c3.len() as int) =~= e.subrange(8, 8 + c3.len() as int));
    assert(e.subrange(8, 8 + c3.len() as int) =~= c3);
    crate::strings::lemma_nullable_string_roundtrip(s, p3, h.client_id);
    let p4 = p3 + c3.len() as int;
    if flexible {
        let c4 = spec_encode_tagged_fields(h.tagged_fields);
        assert(s.subrange(p4, p4 + c4.len() as int) =~= e.subrange(
            8 + c3.len() as int,
            e.len() as int,
        ));
        assert(e.subrange(8 + c3.len() as int, e.len() as int) =~= c4);
        crate::tagged::lemma_tagged_fields_roundtrip(s, p4, h.tagged_fields);
    } else {
        assert(h.tagged_fields =~= Seq::<(u32, Seq<u8>)>::empty());
        assert(pos + e.len() == p4);
    }
}

/// A response header.
#[derive(Clone, Debug, PartialEq, Eq)]
pub struct Response {
    /// The correlation ID of this response.
    pub correlation_id: i32,
    /// This response's tagged fields; on the wire only at flexible versions.
    pub tagged_fields: TaggedFields,
}

/// The mathematical shadow of a response header.
pub struct ResponseView {
    pub correlation_id: i32,
    pub tagged_fields: Seq<(u32, Seq<u8>)>,
}

impl View for Response {
    type V = ResponseView;

    open spec fn view(&self) -> ResponseView {
        ResponseView {
            correlation_id: self.correlation_id,
            tagged_fields: self.tagged_fields@,
        }
    }
}

pub open spec fn spec_response_header_wf(h: ResponseView, flexible: bool) -> bool {
    &&& spec_tagged_wf(h.tagged_fields)
    &&& !flexible ==> h.tagged_fields.len() == 0
}

pub open spec fn spec_encode_response_header(h: ResponseView, flexible: bool) -> Seq<u8>
    recommends
        spec_response_header_wf(h, flexible),
{
    spec_i32_to_be_bytes(h.correlation_id) + (if flexible {
        spec_encode_tagged_fields(h.tagged_fields)
    } else {
        Seq::empty()
    })
}

pub open spec fn spec_read_response_header(s: Seq<u8>, pos: int, flexible: bool) -> SpecRead<
    ResponseView,
> {
    match spec_read_i32_be(s, pos) {
        Ok((correlation_id, p1)) => if flexible {
            match spec_read_tagged_fields(s, p1) {
                Ok((tagged_fields, end)) => Ok(
                    (ResponseView { correlation_id, tagged_fields }, end),
                ),
                Err(e) => Err(e),
            }
        } else {
            Ok((ResponseView { correlation_id, tagged_fields: Seq::empty() }, p1))
        },
        Err(e) => Err(e),
    }
}

impl Response {
    /// Appends the header's wire form.
    pub fn write(&self, out: &mut Vec<u8>, flexible: bool)
        requires
            spec_response_header_wf(self@, flexible),
        ensures
            final(out)@ == old(out)@ + spec_encode_response_header(self@, flexible),
    {
        write_i32_be(out, self.correlation_id);
        if flexible {
            self.tagged_fields.write(out);
        }
        assert(final(out)@ =~= old(out)@ + spec_encode_response_header(self@, flexible));
    }

    /// Reads a header.
    pub fn read(buf: &[u8], pos: usize, flexible: bool) -> (r: Result<(Response, usize), Error>)
        ensures
            match r {
                Ok((h, end)) => spec_read_response_header(buf@, pos as int, flexible) == Ok::<
                    _,
                    Error,
                >((h@, end as int)),
                Err(e) => spec_read_response_header(buf@, pos as int, flexible) == Err::<
                    (ResponseView, int),
                    _,
                >(e),
            },
    {
        let (correlation_id, p1) = match read_i32_be(buf, pos) {
            Ok(x) => x,
            Err(e) => {
                return Err(e);
            },
        };
        if flexible {
            match TaggedFields::read(buf, p1) {
                Ok((tagged_fields, end)) => Ok((Response { correlation_id, tagged_fields }, end)),
                Err(e) => Err(e),
            }
        } else {
            let h = Response { correlation_id, tagged_fields: TaggedFields::empty() };
            proof {
                assert(h@.tagged_fields =~= Seq::<(u32, Seq<u8>)>::empty());
            }
            Ok((h, p1))
        }
    }
}

/// Reading back an encoded well-formed response header returns exactly it.
pub proof fn lemma_response_header_roundtrip(s: Seq<u8>, pos: int, h: ResponseView, flexible: bool)
    requires
        0 <= pos,
        spec_response_header_wf(h, flexible),
        pos + spec_encode_response_header(h, flexible).len() <= s.len(),
        s.subrange(pos, pos + spec_encode_response_header(h, flexible).len())
            == spec_encode_response_header(h, flexible),
    ensures
        spec_read_response_header(s, pos, flexible) == Ok::<_, Error>(
            (h, pos + spec_encode_response_header(h, flexible).len() as int),
        ),
{
    let e = spec_encode_response_header(h, flexible);
    assert(s.subrange(pos, pos + 4) =~= e.subrange(0, 4));
    assert(e.subrange(0, 4) =~= spec_i32_to_be_bytes(h.correlation_id));
    crate::primitives::lemma_read_i32_be_of_encoding(s, pos, h.correlation_id);
    let p1 = pos + 4;
    if flexible {
        let c1 = spec_encode_tagged_fields(h.tagged_fields);
        assert(s.subrange(p1, p1 + c1.len() as int) =~= e.subrange(4, e.len() as int));
        assert(e.subrange(4, e.len() as int) =~= c1);
        crate::tagged::lemma_tagged_fields_roundtrip(s, p1, h.tagged_fields);
    } else {
        assert(h.tagged_fields =~= Seq::<(u32, Seq<u8>)>::empty());
        assert(pos + e.len() == p1);
    }
}

} // verus!
