//! Addresses of TVs. The call into `url` is believed here, not proved.
use vstd::prelude::*;

verus! {

/// What `url::Url::parse` makes of a text: the URL in its normal form, or what is wrong with it.
pub uninterp spec fn url_parsed(text: Seq<char>) -> Result<Seq<char>, Seq<char>>;

/// `url::Url::parse` reads a URL, which is given back in its normal form, or reports an error, which
/// is given back as the text that it displays as.
#[verifier::external_body]
pub(crate) fn parse_url(text: &str) -> (result: Result<String, String>)
    ensures
        match result {
            Ok(url) => url_parsed(text@) == Ok::<Seq<char>, Seq<char>>(url@),
            Err(reason) => url_parsed(text@) == Err::<Seq<char>, Seq<char>>(reason@),
        },
{
    match url::Url::parse(text) {
        Ok(url) => Ok(String::from(url)),
        Err(e) => Err(e.to_string()),
    }
}

} // verus!
