//! What the API answers. These are plain records: how they are written to
//! and read from JSON is not this library's matter. A record that holds a
//! value of a type defined elsewhere (a library item, a user) takes that type
//! as a parameter.

use vstd::prelude::*;
use url::Url;

verus! {

/// A parsed URL of the `url` crate, carried through as an opaque value.
#[verifier::external_type_specification]
#[verifier::external_body]
pub struct ExUrl(Url);

/// `Clone` of `url::Url`, which the derived `Clone` of the records below
/// calls. Nothing is claimed of the copy.
pub assume_specification[ <Url as Clone>::clone ](url: &Url) -> Url;

/// What every call of the API answers: the result, or the error in its
/// place.
#[derive(Debug)]
pub enum APIResult<T> {
    Failure { error: APIError },
    Success { result: T },
}

/// An error that the API reports in place of a result.
#[derive(Clone, PartialEq, Eq, Debug)]
pub struct APIError {
    pub message: String,
    pub code: u64,
}

/// A session: the key that authenticates later calls, of type `K`, and the
/// user it belongs to, of type `U`. The key is a secret.
pub struct AuthResponse<K, U> {
    pub key: K,
    pub user: U,
}

/// The handle of a requested export of the user's data.
#[derive(Debug)]
pub struct DataExportResponse {
    pub export_id: String,
}

/// The answer to a call that returns nothing but its success; `T` is the
/// type whose only value stands for `true`.
#[derive(Debug)]
pub struct SuccessResponse<T> {
    pub success: T,
}

/// A code for linking another device, with the link and its QR code.
#[derive(Clone, PartialEq, Eq, Debug)]
pub struct LinkCodeResponse {
    pub code: String,
    pub link: String,
    pub qrcode: String,
}

/// The session key that a linked device receives.
#[derive(Clone, PartialEq, Eq, Debug)]
pub struct LinkAuthKey {
    pub auth_key: String,
}

/// What reading a link code gives.
#[derive(Clone, Debug)]
pub enum LinkDataResponse {
    AuthKey(LinkAuthKey),
}

/// An addon that a modal offers to install.
#[derive(Clone, PartialEq, Eq, Debug)]
pub struct ModalAddon {
    pub name: String,
    pub manifest_url: Url,
}

/// A modal to show to the user.
#[derive(Clone, PartialEq, Eq, Debug)]
pub struct GetModalResponse {
    pub id: String,
    pub title: String,
    pub message: String,
    pub image_url: Url,
    pub addon: Option<ModalAddon>,
    pub external_url: Option<Url>,
}

/// A notification to show to the user.
#[derive(Clone, PartialEq, Eq, Debug)]
pub struct GetNotificationResponse {
    pub id: String,
    pub title: String,
    pub message: String,
    pub external_url: Option<Url>,
}

/// The library items of a response, each of type `I`.
#[derive(Debug, Clone, PartialEq, Eq)]
pub struct LibraryItemsResponse<I>(pub Vec<I>);

impl<I> LibraryItemsResponse<I> {
    /// A response without items.
    pub fn new() -> (r: Self)
        ensures
            r.0@ == Seq::<I>::empty(),
    {
        Self(Vec::new())
    }
}

impl<I> Default for LibraryItemsResponse<I> {
    /// A response without items.
    fn default() -> (r: Self)
        ensures
            r.0@ == Seq::<I>::empty(),
    {
        Self(Vec::new())
    }
}

} // verus!
