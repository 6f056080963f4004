//! The token endpoint's answer to a credential exchange, and the decision
//! it drives.
//!
//! The wire shape is ambiguous: one JSON object that means either a granted
//! token or an error, depending on which fields are present. The caller
//! decodes it into this tagged type (trying the success shape first, then
//! the failure shape) and the library decides from the tag alone.

use vstd::prelude::*;

verus! {

/// One decoded answer from the token endpoint.
#[derive(Clone, Debug, PartialEq)]
pub enum TokenResponse {
    Success {
        access_token: String,
        expires_in: usize,
        refresh_token: Option<String>,
        scope: String,
    },
    Failure { error: String, error_description: Option<String> },
}

#[verifier::ext_equal]
pub enum TokenResponseView {
    Success {
        access_token: Seq<char>,
        expires_in: usize,
        refresh_token: Option<Seq<char>>,
        scope: Seq<char>,
    },
    Failure { error: Seq<char>, error_description: Option<Seq<char>> },
}

impl View for TokenResponse {
    type V = TokenResponseView;

    open spec fn view(&self) -> TokenResponseView {
        match self {
            TokenResponse::Success { access_token, expires_in, refresh_token, scope } => {
                TokenResponseView::Success {
                    access_token: access_token@,
                    expires_in: *expires_in,
                    refresh_token: refresh_token.deep_view(),
                    scope: scope@,
                }
            },
            TokenResponse::Failure { error, error_description } => {
                TokenResponseView::Failure {
                    error: error@,
                    error_description: error_description.deep_view(),
                }
            },
        }
    }
}

impl DeepView for TokenResponse {
    type V = TokenResponseView;

    open spec fn deep_view(&self) -> TokenResponseView {
        self.view()
    }
}

/// The bearer credential a token-endpoint answer grants: the access token
/// on success, nothing on an error answer.
pub open spec fn spec_access_token(r: TokenResponseView) -> Option<Seq<char>> {
    match r {
        TokenResponseView::Success { access_token, .. } => Some(access_token),
        TokenResponseView::Failure { .. } => None,
    }
}

/// Extracts the granted bearer token, if the answer grants one. Every
/// credential exchange goes through this decision: an answer carrying an
/// error outcome yields no token, never a made-up one.
pub fn access_token(r: TokenResponse) -> (t: Option<String>)
    ensures
        t.deep_view() == spec_access_token(r@),
{
    match r {
        TokenResponse::Success { access_token, .. } => Some(access_token),
        TokenResponse::Failure { .. } => None,
    }
}

} // verus!
