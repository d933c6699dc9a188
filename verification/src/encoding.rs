//! The negotiated response encoding and the negotiation algorithm.

use crate::header::contains_token;
use crate::header::is_header_text;
use crate::header::name_eq;
use crate::header::contains_bytes;
use crate::header::header_text;
use crate::header::name_matches;
use crate::message::HttpRequest;
use vstd::prelude::*;

verus! {

/// The encoding chosen for a response body.
///
/// Negotiation picks exactly one of these per request; `Uncompressed`
/// is the fallback when no recognized token is offered.
#[derive(Copy, Clone, Debug, Eq, PartialEq, Structural)]
pub enum Encoding {
    Deflate,
    Gzip,
    Uncompressed,
}

/// The bytes of the request header name that carries the client's
/// acceptable encodings: "accept-encoding".
pub open spec fn spec_accept_encoding() -> Seq<u8> {
    seq![97u8, 99, 99, 101, 112, 116, 45, 101, 110, 99, 111, 100, 105, 110, 103]
}

/// The bytes of the response header name that announces the applied
/// encoding: "content-encoding".
pub open spec fn spec_content_encoding() -> Seq<u8> {
    seq![99u8, 111, 110, 116, 101, 110, 116, 45, 101, 110, 99, 111, 100, 105, 110, 103]
}

/// The bytes of the token "gzip".
pub open spec fn spec_gzip_token() -> Seq<u8> {
    seq![103u8, 122, 105, 112]
}

/// The bytes of the token "deflate".
pub open spec fn spec_deflate_token() -> Seq<u8> {
    seq![100u8, 101, 102, 108, 97, 116, 101]
}

/// The bytes of the token "identity".
pub open spec fn spec_identity_token() -> Seq<u8> {
    seq![105u8, 100, 101, 110, 116, 105, 116, 121]
}

/// What a single header value offers.  A value that does not read as
/// header text is skipped; otherwise "gzip" is looked for before
/// "deflate", by substring containment, and an unrecognized value
/// offers nothing.
pub open spec fn value_choice(v: Seq<u8>) -> Option<Encoding> {
    if !is_header_text(v) {
        None
    } else if contains_token(v, spec_gzip_token()) {
        Some(Encoding::Gzip)
    } else if contains_token(v, spec_deflate_token()) {
        Some(Encoding::Deflate)
    } else {
        None
    }
}

/// The negotiated encoding for a header list: the choice of the first
/// accept-encoding field whose value offers one, and `Uncompressed`
/// when none does.
pub open spec fn spec_negotiate(h: Seq<(Seq<u8>, Seq<u8>)>) -> Encoding
    decreases h.len(),
{
    if h.len() == 0 {
        Encoding::Uncompressed
    } else if name_eq(h[0].0, spec_accept_encoding()) {
        match value_choice(h[0].1) {
            Some(e) => e,
            None => spec_negotiate(h.drop_first()),
        }
    } else {
        spec_negotiate(h.drop_first())
    }
}

/// One unfolding step of `spec_negotiate` on a suffix.
pub proof fn lemma_negotiate_skip(h: Seq<(Seq<u8>, Seq<u8>)>, i: int)
    requires
        0 <= i < h.len(),
    ensures
        spec_negotiate(h.skip(i)) == if name_eq(h[i].0, spec_accept_encoding()) {
            match value_choice(h[i].1) {
                Some(e) => e,
                None => spec_negotiate(h.skip(i + 1)),
            }
        } else {
            spec_negotiate(h.skip(i + 1))
        },
{
    assert(h.skip(i).drop_first() =~= h.skip(i + 1));
    assert(h.skip(i)[0] == h[i]);
}

/// The header name "accept-encoding" as bytes.
pub fn accept_encoding_bytes() -> (v: Vec<u8>)
    ensures
        v@ == spec_accept_encoding(),
{
    let v: Vec<u8> = vec![97u8, 99, 99, 101, 112, 116, 45, 101, 110, 99, 111, 100, 105, 110, 103];
    proof {
        assert(v@ =~= spec_accept_encoding());
    }
    v
}

/// The header name "content-encoding" as bytes.
pub fn content_encoding_bytes() -> (v: Vec<u8>)
    ensures
        v@ == spec_content_encoding(),
{
    let v: Vec<u8> = vec![
        99u8,
        111,
        110,
        116,
        101,
        110,
        116,
        45,
        101,
        110,
        99,
        111,
        100,
        105,
        110,
        103,
    ];
    proof {
        assert(v@ =~= spec_content_encoding());
    }
    v
}

/// What one header value offers, if anything.
fn choose_from_value(v: &[u8]) -> (r: Option<Encoding>)
    ensures
        r == value_choice(v@),
{
    if !header_text(v) {
        return None;
    }
    let gzip: Vec<u8> = vec![103u8, 122, 105, 112];
    let deflate: Vec<u8> = vec![100u8, 101, 102, 108, 97, 116, 101];
    proof {
        assert(gzip@ =~= spec_gzip_token());
        assert(deflate@ =~= spec_deflate_token());
    }
    if contains_bytes(v, gzip.as_slice()) {
        Some(Encoding::Gzip)
    } else if contains_bytes(v, deflate.as_slice()) {
        Some(Encoding::Deflate)
    } else {
        None
    }
}

impl Encoding {
    /// The encoding a request negotiates: its accept-encoding values are
    /// scanned in order, and within one value "gzip" is recognized before
    /// "deflate"; when nothing is recognized the body stays uncompressed.
    pub fn from_request<B>(req: &HttpRequest<B>) -> (e: Encoding)
        ensures
            e == spec_negotiate(req.headers@),
    {
        let ghost h = req.headers@;
        let ae = accept_encoding_bytes();
        let n = req.headers.fields.len();
        let mut i: usize = 0;
        proof {
            assert(h.skip(0) =~= h);
        }
        while i < n
            invariant
                n == req.headers.fields@.len(),
                h == req.headers@,
                ae@ == spec_accept_encoding(),
                i <= n,
                spec_negotiate(h) == spec_negotiate(h.skip(i as int)),
            decreases n - i,
        {
            proof {
                lemma_negotiate_skip(h, i as int);
                assert(h[i as int] == req.headers.fields@[i as int]@);
            }
            let f = &req.headers.fields[i];
            if name_matches(f.name.as_slice(), ae.as_slice()) {
                match choose_from_value(f.value.as_slice()) {
                    Some(chosen) => {
                        return chosen;
                    },
                    None => {},
                }
            }
            i += 1;
        }
        proof {
            assert(h.skip(n as int) =~= Seq::<(Seq<u8>, Seq<u8>)>::empty());
        }
        Encoding::Uncompressed
    }

    /// Whether a body in this encoding is a compressed form.
    pub fn is_compressed(&self) -> (r: bool)
        ensures
            r == self.spec_is_compressed(),
    {
        match *self {
            Encoding::Uncompressed => false,
            _ => true,
        }
    }

    /// Whether this encoding counts as compressed: false only for
    /// `Uncompressed`.
    pub open spec fn spec_is_compressed(self) -> bool {
        !(self is Uncompressed)
    }

    /// The canonical header value announcing this encoding.
    pub open spec fn spec_header_value(self) -> Seq<u8> {
        match self {
            Encoding::Deflate => spec_deflate_token(),
            Encoding::Gzip => spec_gzip_token(),
            Encoding::Uncompressed => spec_identity_token(),
        }
    }

    /// The value to place in the content-encoding header for this
    /// encoding: "deflate", "gzip" or "identity".
    pub fn header_value(&self) -> (v: Vec<u8>)
        ensures
            v@ == self.spec_header_value(),
    {
        match *self {
            Encoding::Deflate => {
                let v: Vec<u8> = vec![100u8, 101, 102, 108, 97, 116, 101];
                proof {
                    assert(v@ =~= spec_deflate_token());
                }
                v
            },
            Encoding::Gzip => {
                let v: Vec<u8> = vec![103u8, 122, 105, 112];
                proof {
                    assert(v@ =~= spec_gzip_token());
                }
                v
            },
            Encoding::Uncompressed => {
                let v: Vec<u8> = vec![105u8, 100, 101, 110, 116, 105, 116, 121];
                proof {
                    assert(v@ =~= spec_identity_token());
                }
                v
            },
        }
    }
}

/// Negotiation looks at nothing but the header list, so it is
/// idempotent: two negotiations over the same unmodified headers choose
/// the same encoding.
pub proof fn lemma_negotiation_idempotent(h: Seq<(Seq<u8>, Seq<u8>)>, e1: Encoding, e2: Encoding)
    requires
        e1 == spec_negotiate(h),
        e2 == spec_negotiate(h),
    ensures
        e1 == e2,
{
}

/// When no accept-encoding value offers a recognized token — the header
/// may be absent, or every instance unrecognized — the negotiated
/// encoding is `Uncompressed`.
pub proof fn lemma_unrecognized_is_uncompressed(h: Seq<(Seq<u8>, Seq<u8>)>)
    requires
        forall|i: int|
            0 <= i < h.len() && name_eq(#[trigger] h[i].0, spec_accept_encoding())
                ==> value_choice(h[i].1) is None,
    ensures
        spec_negotiate(h) == Encoding::Uncompressed,
    decreases h.len(),
{
    if h.len() > 0 {
        assert forall|i: int|
            0 <= i < h.drop_first().len() && name_eq(
                #[trigger] h.drop_first()[i].0,
                spec_accept_encoding(),
            ) implies value_choice(h.drop_first()[i].1) is None by {
            assert(h.drop_first()[i] == h[i + 1]);
        }
        lemma_unrecognized_is_uncompressed(h.drop_first());
    }
}

/// When one accept-encoding value contains "gzip" and every other
/// accept-encoding instance is unrecognized, the negotiated encoding is
/// `Gzip`, wherever that instance stands.
pub proof fn lemma_gzip_among_unrecognized(h: Seq<(Seq<u8>, Seq<u8>)>, w: int)
    requires
        0 <= w < h.len(),
        name_eq(h[w].0, spec_accept_encoding()),
        is_header_text(h[w].1),
        contains_token(h[w].1, spec_gzip_token()),
        forall|i: int|
            0 <= i < h.len() && i != w && name_eq(#[trigger] h[i].0, spec_accept_encoding())
                ==> value_choice(h[i].1) is None,
    ensures
        spec_negotiate(h) == Encoding::Gzip,
    decreases h.len(),
{
    if w == 0 {
    } else {
        assert(h.drop_first()[w - 1] == h[w]);
        assert forall|i: int|
            0 <= i < h.drop_first().len() && i != w - 1 && name_eq(
                #[trigger] h.drop_first()[i].0,
                spec_accept_encoding(),
            ) implies value_choice(h.drop_first()[i].1) is None by {
            assert(h.drop_first()[i] == h[i + 1]);
        }
        lemma_gzip_among_unrecognized(h.drop_first(), w - 1);
        assert(!(name_eq(h[0].0, spec_accept_encoding()) && value_choice(h[0].1) is Some));
    }
}

} // verus!
