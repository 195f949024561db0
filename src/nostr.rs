//! The calls into `nostr_types` that the library relies on.
use vstd::prelude::*;

verus! {

/// The error type of `nostr_types`, as its parsers and clock return it.
#[verifier::external_type_specification]
#[verifier::external_body]
pub struct ExNostrError(nostr_types::Error);

/// A signed event of `nostr_types`, carried unread in messages.
#[verifier::external_type_specification]
#[verifier::external_body]
pub struct ExEvent(nostr_types::Event);

/// An event id of `nostr_types`, carried unread in messages.
#[verifier::external_type_specification]
#[verifier::external_body]
pub struct ExId(nostr_types::Id);

/// A hex event id of `nostr_types`, carried unread in messages.
#[verifier::external_type_specification]
#[verifier::external_body]
pub struct ExIdHex(nostr_types::IdHex);

/// A public key of `nostr_types`, carried unread in messages.
#[verifier::external_type_specification]
#[verifier::external_body]
pub struct ExPublicKey(nostr_types::PublicKey);

/// Profile metadata of `nostr_types`, carried unread in messages.
#[verifier::external_type_specification]
#[verifier::external_body]
pub struct ExMetadata(nostr_types::Metadata);

/// An event tag of `nostr_types`, carried unread in messages.
#[verifier::external_type_specification]
#[verifier::external_body]
pub struct ExTag(nostr_types::Tag);

/// An unvalidated URL of `nostr_types`, carried unread in messages.
#[verifier::external_type_specification]
#[verifier::external_body]
pub struct ExUncheckedUrl(nostr_types::UncheckedUrl);

/// Relies on the derived `Clone` of `nostr_types::Event`, so that messages
/// carrying one can be copied; nothing is assumed of the copy.
pub assume_specification[ <nostr_types::Event as std::clone::Clone>::clone ](x: &nostr_types::Event) -> nostr_types::Event;

/// Relies on the derived `Clone` of `nostr_types::Id`, so that messages
/// carrying one can be copied; nothing is assumed of the copy.
pub assume_specification[ <nostr_types::Id as std::clone::Clone>::clone ](x: &nostr_types::Id) -> nostr_types::Id;

/// Relies on the derived `Clone` of `nostr_types::IdHex`, so that messages
/// carrying one can be copied; nothing is assumed of the copy.
pub assume_specification[ <nostr_types::IdHex as std::clone::Clone>::clone ](x: &nostr_types::IdHex) -> nostr_types::IdHex;

/// Relies on the derived `Clone` of `nostr_types::PublicKey`, so that messages
/// carrying one can be copied; nothing is assumed of the copy.
pub assume_specification[ <nostr_types::PublicKey as std::clone::Clone>::clone ](x: &nostr_types::PublicKey) -> nostr_types::PublicKey;

/// Relies on the derived `Clone` of `nostr_types::Metadata`, so that messages
/// carrying one can be copied; nothing is assumed of the copy.
pub assume_specification[ <nostr_types::Metadata as std::clone::Clone>::clone ](x: &nostr_types::Metadata) -> nostr_types::Metadata;

/// Relies on the derived `Clone` of `nostr_types::Tag`, so that messages
/// carrying one can be copied; nothing is assumed of the copy.
pub assume_specification[ <nostr_types::Tag as std::clone::Clone>::clone ](x: &nostr_types::Tag) -> nostr_types::Tag;

/// Relies on the derived `Clone` of `nostr_types::UncheckedUrl`, so that messages
/// carrying one can be copied; nothing is assumed of the copy.
pub assume_specification[ <nostr_types::UncheckedUrl as std::clone::Clone>::clone ](x: &nostr_types::UncheckedUrl) -> nostr_types::UncheckedUrl;

/// The canonical text that `nostr_types::RelayUrl::try_from_str` makes of a
/// text, or `None` where it refuses the text.
pub uninterp spec fn canonical_relay_url(s: Seq<char>) -> Option<Seq<char>>;

/// Relies on `nostr_types::RelayUrl::try_from_str`: it parses a websocket URL
/// and normalises it, and its outcome depends on the text alone.
#[verifier::external_body]
pub(crate) fn parse_relay_url(s: &str) -> (r: Result<String, nostr_types::Error>)
    ensures
        r is Ok <==> canonical_relay_url(s@) is Some,
        r is Ok ==> canonical_relay_url(s@) == Some(r->Ok_0@),
{
    nostr_types::RelayUrl::try_from_str(s).map(|u| u.0)
}

/// Relies on `nostr_types::Unixtime::now`: the system clock in whole seconds
/// since 1970, or an error where the clock stands before 1970.
#[verifier::external_body]
pub(crate) fn unix_now() -> (r: Result<i64, nostr_types::Error>) {
    nostr_types::Unixtime::now().map(|t| t.0)
}

} // verus!
