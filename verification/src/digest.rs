use sha1::Digest;
use vstd::prelude::*;


verus! {

/// The MD5 digest of a byte string.
pub uninterp spec fn spec_md5(data: Seq<u8>) -> Seq<u8>;

/// The SHA-1 digest of a byte string.
pub uninterp spec fn spec_sha1(data: Seq<u8>) -> Seq<u8>;

/// `md5::Md5` (crate md-5): hashes `data` in one update and returns the
/// digest. The contract names the digest and states its documented length of
/// 16 bytes; nothing else about the value is stated.
#[verifier::external_body]
pub(crate) fn md5_digest(data: &[u8]) -> (res: Vec<u8>)
    ensures
        res@ == spec_md5(data@),
        res@.len() == 16,
{
    let mut hasher = md5::Md5::new();
    hasher.update(data);
    hasher.finalize().to_vec()
}

/// `sha1::Sha1`: hashes `data` in one update and returns the digest. The
/// contract names the digest and states its documented length of 20 bytes.
#[verifier::external_body]
pub(crate) fn sha1_digest(data: &[u8]) -> (res: Vec<u8>)
    ensures
        res@ == spec_sha1(data@),
        res@.len() == 20,
{
    let mut hasher = sha1::Sha1::new();
    hasher.update(data);
    hasher.finalize().to_vec()
}

/// The shape of a hyphenated UUID string: 36 characters, dashes at 8, 13, 18
/// and 23, lowercase hexadecimal digits elsewhere.
pub open spec fn is_hyphenated_uuid(s: Seq<char>) -> bool {
    &&& s.len() == 36
    &&& forall|i: int|
        0 <= i < 36 ==> if i == 8 || i == 13 || i == 18 || i == 23 {
            s[i] == '-'
        } else {
            ('0' <= #[trigger] s[i] && s[i] <= '9') || ('a' <= s[i] && s[i] <= 'f')
        }
}

/// `uuid::Uuid::new_v4().to_string()`: a fresh random UUID in the hyphenated
/// lowercase form, with version digit `4`. Which UUID comes back is not stated
/// (it is random).
#[verifier::external_body]
pub(crate) fn new_uuid_v4() -> (res: String)
    ensures
        is_hyphenated_uuid(res@),
        res@[14] == '4',
{
    uuid::Uuid::new_v4().to_string()
}

} // verus!
