//! Message translation through the `kalgan_i18n` collaborator.

use vstd::prelude::*;

verus! {

#[verifier::external_type_specification]
#[verifier::external_body]
pub struct ExMessages(kalgan_i18n::Messages);

/// What the message collection answers for a language and message id: the
/// stored text, or the id itself when the language or the message is
/// missing.  With no parameters the answer is a function of the
/// collection, language and id alone.
pub uninterp spec fn trans_lookup(
    messages: &kalgan_i18n::Messages,
    language: Seq<char>,
    message_id: Seq<char>,
) -> Seq<char>;

/// The message text for the given message id, with each `{key}` replaced
/// by its parameter value.
///
/// Relies on `kalgan_i18n`'s `Messages::trans`: looks the message up by
/// language and id — the id itself comes back when either is missing —
/// and applies the parameter replacements in an unspecified order, so with
/// parameters nothing further is promised.
#[verifier::external_body]
pub fn trans(
    messages: &kalgan_i18n::Messages,
    language: &str,
    message_id: &str,
    parameters: Vec<(String, String)>,
) -> (r: String)
    ensures
        parameters@.len() == 0 ==> r@ == trans_lookup(messages, language@, message_id@),
{
    let map: std::collections::HashMap<&str, String> = parameters.iter().map(
        |(k, v)| (k.as_str(), v.clone()),
    ).collect();
    messages.trans(language, message_id, map)
}

} // verus!
