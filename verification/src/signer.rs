//! User-action signing data.
//!
//! Write operations on the Dfns API require a *user action signature*: the client
//! requests a challenge, the caller's credential signs it, and the assertion is
//! exchanged for a token that the real request carries. The signing keys never
//! leave the caller.

use vstd::prelude::*;

verus! {

/// The challenge returned by `POST /auth/action/init`, to be signed by the credential.
#[derive(Debug, Clone)]
pub struct UserActionChallenge {
    pub challenge: String,
    pub challenge_identifier: String,
}

/// The content of a [`UserActionChallenge`].
#[verifier::ext_equal]
pub struct ChallengeView {
    pub challenge: Seq<char>,
    pub challenge_identifier: Seq<char>,
}

impl View for UserActionChallenge {
    type V = ChallengeView;

    open spec fn view(&self) -> ChallengeView {
        ChallengeView { challenge: self.challenge@, challenge_identifier: self.challenge_identifier@ }
    }
}

/// The credential-specific payload of a signed assertion.
#[derive(Debug, Clone)]
pub struct CredentialAssertionData {
    pub cred_id: String,
    pub client_data: String,
    pub signature: String,
}

/// A signed challenge assertion, sent as the `firstFactor` of `POST /auth/action`.
#[derive(Debug, Clone)]
pub struct CredentialAssertion {
    pub kind: String,
    pub credential_assertion: CredentialAssertionData,
}

/// The content of a [`CredentialAssertion`].
#[verifier::ext_equal]
pub struct AssertionView {
    pub kind: Seq<char>,
    pub cred_id: Seq<char>,
    pub client_data: Seq<char>,
    pub signature: Seq<char>,
}

impl View for CredentialAssertion {
    type V = AssertionView;

    open spec fn view(&self) -> AssertionView {
        AssertionView {
            kind: self.kind@,
            cred_id: self.credential_assertion.cred_id@,
            client_data: self.credential_assertion.client_data@,
            signature: self.credential_assertion.signature@,
        }
    }
}

} // verus!
