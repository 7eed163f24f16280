//! Bytes as text. The call into the standard library is believed here, not proved.
use vstd::prelude::*;
#[allow(unused_imports)]
use vstd::utf8::{decode_utf8, valid_utf8};

verus! {

/// The text that `String::from_utf8_lossy` makes of bytes that are not UTF-8.
pub uninterp spec fn utf8_repaired(bytes: Seq<u8>) -> Seq<char>;

/// The text of bytes, whether they are UTF-8 or not.
pub open spec fn utf8_lossy(bytes: Seq<u8>) -> Seq<char> {
    if valid_utf8(bytes) {
        decode_utf8(bytes)
    } else {
        utf8_repaired(bytes)
    }
}

/// `String::from_utf8_lossy` decodes bytes that are UTF-8. In any others it puts replacement
/// characters for what is not, the same ones each time: which ones and where is left unsaid.
#[verifier::external_body]
pub(crate) fn lossy_text(bytes: &[u8]) -> (text: String)
    ensures
        valid_utf8(bytes@) ==> text@ == decode_utf8(bytes@),
        !valid_utf8(bytes@) ==> text@ == utf8_repaired(bytes@),
{
    String::from_utf8_lossy(bytes).into_owned()
}

/// Bytes that are UTF-8 are read as what they stand for.
pub proof fn law_utf8_is_read_as_it_stands(bytes: Seq<u8>)
    ensures
        valid_utf8(bytes) ==> utf8_lossy(bytes) == decode_utf8(bytes),
        !valid_utf8(bytes) ==> utf8_lossy(bytes) == utf8_repaired(bytes),
{
}

} // verus!
