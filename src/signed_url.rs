//! Signed URLs: a URL carries the hash of its text and of the caller's token,
//! and an expiry; the server recomputes the hash to accept it.
use crate::error::CRRError;
use vstd::prelude::*;
use vstd::string::StrSliceExecFns;

verus! {

/// The SHA-256 digest of `data`.
pub uninterp spec fn sha256(data: Seq<u8>) -> Seq<u8>;

/// The digits of standard base64, by value.
pub const BASE64_ALPHABET: &'static str =
    "ABCDEFGHIJKLMNOPQRSTUVWXYZabcdefghijklmnopqrstuvwxyz0123456789+/";

/// The base64 digit of the six-bit value `v`.
pub open spec fn digit(v: int) -> char {
    BASE64_ALPHABET@[v]
}

/// The standard base64 encoding of `data`, with padding: each three bytes
/// become four digits of six bits each, and a last group of one or two
/// bytes becomes two or three digits followed by `=` up to four.
pub open spec fn base64_of(data: Seq<u8>) -> Seq<char>
    decreases data.len(),
{
    if data.len() == 0 {
        Seq::empty()
    } else if data.len() == 1 {
        let b0 = data[0] as int;
        seq![digit(b0 / 4), digit((b0 % 4) * 16), '=', '=']
    } else if data.len() == 2 {
        let b0 = data[0] as int;
        let b1 = data[1] as int;
        seq![digit(b0 / 4), digit((b0 % 4) * 16 + b1 / 16), digit((b1 % 16) * 4), '=']
    } else {
        let b0 = data[0] as int;
        let b1 = data[1] as int;
        let b2 = data[2] as int;
        seq![
            digit(b0 / 4),
            digit((b0 % 4) * 16 + b1 / 16),
            digit((b1 % 16) * 4 + b2 / 64),
            digit(b2 % 64),
        ] + base64_of(data.subrange(3, data.len() as int))
    }
}

/// Relies on `sha2::Sha256::digest` (through `digest::Digest`): the 32-byte
/// SHA-256 digest of the bytes.
#[verifier::external_body]
fn sha256_digest(data: &[u8]) -> (r: Vec<u8>)
    ensures
        r@ == sha256(data@),
        r@.len() == 32,
{
    <sha2::Sha256 as sha2::Digest>::digest(data).to_vec()
}

/// Relies on `base64::Engine::encode` of the `STANDARD` engine: the padded
/// standard base64 text of the bytes. It panics where the length of the
/// text would overflow `usize`, which the bound on the input rules out.
#[verifier::external_body]
fn base64_encode(data: &[u8]) -> (r: String)
    requires
        data@.len() <= usize::MAX / 4,
    ensures
        r@ == base64_of(data@),
{
    base64::Engine::encode(&base64::engine::general_purpose::STANDARD, data)
}

/// The signature of `url` for the holder of `token`: the base64 text of the
/// SHA-256 digest of the URL followed by the token.
pub open spec fn signature_of(url: Seq<char>, token: Seq<char>) -> Seq<char> {
    base64_of(sha256(vstd::utf8::encode_utf8(url) + vstd::utf8::encode_utf8(token)))
}

pub fn signature(url: &str, token: &str) -> (r: String)
    ensures
        r@ == signature_of(url@, token@),
{
    let mut bytes = url.as_bytes_vec();
    let mut rest = token.as_bytes_vec();
    bytes.append(&mut rest);
    let digest = sha256_digest(bytes.as_slice());
    base64_encode(digest.as_slice())
}

/// Accepts a signed request whose hash is `expected_hash`, given the
/// signature the server computed for it and the time `now` in seconds
/// since the Unix epoch: the hash must match, then the expiry `expires`
/// must not have passed.
pub fn check_signature(expected_hash: &str, computed: &str, expires: u64, now: u64) -> (r: Result<
    (),
    CRRError,
>)
    ensures
        r is Ok <==> (expected_hash@ == computed@ && expires >= now),
        expected_hash@ != computed@ ==> (r matches Err(e) && e matches CRRError::Unauthorized(m)
            && m@ == "Invalid Signed Request Hash"@),
        expected_hash@ == computed@ && expires < now ==> (r matches Err(e)
            && e matches CRRError::Unauthorized(m) && m@ == "Signed URL Expired"@),
{
    if expected_hash.to_owned() != computed.to_owned() {
        return Err(CRRError::Unauthorized("Invalid Signed Request Hash".to_owned()));
    }
    if expires < now {
        return Err(CRRError::Unauthorized("Signed URL Expired".to_owned()));
    }
    Ok(())
}

/// The query parameter that carries the hash of a signed URL.
pub const HASH_PARAMETER: &'static str = "crr-url-hash";

pub open spec fn pair_views(v: Seq<(String, String)>) -> Seq<(Seq<char>, Seq<char>)> {
    v.map_values(|p: (String, String)| (p.0@, p.1@))
}

/// Whether a query pair is not the hash.
pub open spec fn not_hash(p: (Seq<char>, Seq<char>)) -> bool {
    p.0 != HASH_PARAMETER@
}

/// The query pairs of a signed URL without its hash, in order.
pub fn without_hash(pairs: Vec<(String, String)>) -> (r: Vec<(String, String)>)
    ensures
        pair_views(r@) == pair_views(pairs@).filter(|p: (Seq<char>, Seq<char>)| not_hash(p)),
{
    let ghost all = pair_views(pairs@);
    let mut kept: Vec<(String, String)> = Vec::new();
    let mut rest = pairs;
    let hash = HASH_PARAMETER.to_owned();
    let ghost n = all.len();
    let total = rest.len();
    let mut i: usize = 0;
    while rest.len() > 0
        invariant
            n == total,
            hash@ == HASH_PARAMETER@,
            rest@.len() + i == n,
            n == all.len(),
            pair_views(rest@) == all.subrange(i as int, n as int),
            pair_views(kept@) == all.subrange(0, i as int).filter(|p: (Seq<char>, Seq<char>)| not_hash(p)),
        decreases rest@.len(),
    {
        let ghost before = kept@;
        let ghost old_rest = rest@;
        let pair = rest.remove(0);
        proof {
            assert(pair_views(old_rest)[0] == (pair.0@, pair.1@));
            assert forall|j: int| 0 <= j < rest@.len() implies #[trigger] pair_views(rest@)[j]
                == all.subrange(i + 1, n as int)[j] by {
                assert(rest@[j] == old_rest[j + 1]);
                assert(pair_views(old_rest)[j + 1] == all.subrange(i as int, n as int)[j + 1]);
            }
            assert(pair_views(rest@) =~= all.subrange(i + 1, n as int));
            all.subrange(0, i as int).lemma_filter_push((pair.0@, pair.1@), |p: (Seq<char>, Seq<char>)| not_hash(p));
            assert(all.subrange(0, i as int).push((pair.0@, pair.1@)) =~= all.subrange(0, i + 1));
        }
        if !(pair.0 == hash) {
            kept.push(pair);
            proof {
                assert(pair_views(kept@) =~= pair_views(before).push((kept@.last().0@, kept@.last().1@)));
            }
        } else {
            proof {
                assert(!not_hash((pair.0@, pair.1@)));
            }
        }
        i = i + 1;
    }
    proof {
        assert(all.subrange(0, n as int) =~= all);
    }
    kept
}

/// Checks a signed request: `url` is the request's URL without its hash,
/// `token` the token that the URL names.
pub fn validate_signed_request(
    url: &str,
    token: &str,
    expected_hash: &str,
    expires: u64,
    now: u64,
) -> (r: Result<(), CRRError>)
    ensures
        r is Ok <==> (expected_hash@ == signature_of(url@, token@) && expires >= now),
{
    let computed = signature(url, token);
    check_signature(expected_hash, computed.as_str(), expires, now)
}

} // verus!
