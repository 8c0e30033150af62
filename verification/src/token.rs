//! Compact signed tokens that bind a subject to an audience.
//!
//! The encoding and the keyed hash are the `jwt` crate's (HS256); this module
//! names what that crate returns and decides, from those results alone, which
//! texts count as tokens.

use crate::user_registry::Error;
use hmac::{Hmac, Mac};
use jwt::{Header, RegisteredClaims, SignWithKey, VerifyWithKey};
use sha2::Sha256;
use vstd::prelude::*;

verus! {

/// The compact text that signing the claims `subject` and `audience` under
/// `secret` yields.
pub uninterp spec fn signed_text(subject: Seq<char>, audience: Seq<char>, secret: Seq<u8>) -> Seq<char>;

/// The subject and audience claims that a compact text decodes to, each absent
/// where the claims object lacks it; `None` where the text does not decode.
pub uninterp spec fn decoded_claims(text: Seq<char>) -> Option<(Option<Seq<char>>, Option<Seq<char>>)>;

/// Whether `text` decodes and carries the integrity tag that `secret` gives
/// for its header and claims.
pub uninterp spec fn tag_valid(text: Seq<char>, secret: Seq<u8>) -> bool;

/// The two registered claims this library reads from a token.
#[derive(Debug)]
pub struct Claims {
    pub subject: Option<String>,
    pub audience: Option<String>,
}

/// The view of an optional string.
pub open spec fn opt_view(s: Option<String>) -> Option<Seq<char>> {
    match s {
        Some(s) => Some(s@),
        None => None,
    }
}

impl View for Claims {
    type V = (Option<Seq<char>>, Option<Seq<char>>);

    open spec fn view(&self) -> Self::V {
        (opt_view(self.subject), opt_view(self.audience))
    }
}

/// The view of optional claims.
pub open spec fn claims_view(c: Option<Claims>) -> Option<(Option<Seq<char>>, Option<Seq<char>>)> {
    match c {
        Some(claims) => Some(claims@),
        None => None,
    }
}

/// Signs the two claims with HMAC-SHA256 under `secret`:
/// `jwt::Token::new(..).sign_with_key(..)` with the default header and a key
/// made by `Hmac::<Sha256>::new_from_slice`.
///
/// Trusted: signing does not fail for these claim types, whatever the key's
/// length; the text is a function of the three arguments; and the crate reads
/// back what it wrote, so the text decodes to the claims it was made from and
/// carries a tag that is valid under the same secret.
#[verifier::external_body]
fn jwt_sign(subject: &str, audience: &str, secret: &[u8]) -> (r: Option<String>)
    ensures
        r is Some,
        r->Some_0@ == signed_text(subject@, audience@, secret@),
        decoded_claims(r->Some_0@) == Some((Some(subject@), Some(audience@))),
        tag_valid(r->Some_0@, secret@),
{
    let key = Hmac::<Sha256>::new_from_slice(secret).ok()?;
    let claims = RegisteredClaims {
        subject: Some(subject.to_string()),
        audience: Some(audience.to_string()),
        ..Default::default()
    };
    let signed = jwt::Token::new(Header::default(), claims).sign_with_key(&key).ok()?;
    Some(String::from(signed))
}

/// Decodes header and claims without checking the tag:
/// `jwt::Token::<Header, RegisteredClaims, _>::parse_unverified`; any error
/// becomes `None`.
///
/// Trusted: whether the text decodes, and to which subject and audience, is a
/// function of the text alone.
#[verifier::external_body]
fn jwt_decode(text: &str) -> (r: Option<Claims>)
    ensures
        claims_view(r) == decoded_claims(text@),
{
    let token = jwt::Token::<Header, RegisteredClaims, _>::parse_unverified(text).ok()?;
    let (_, claims): (Header, RegisteredClaims) = token.into();
    Some(Claims { subject: claims.subject, audience: claims.audience })
}

/// Decodes the text and checks its tag against an HMAC-SHA256 key made from
/// `secret`: `verify_with_key` on the text; any error is a failed check.
///
/// Trusted: the outcome is a function of the text and the secret alone.
#[verifier::external_body]
fn jwt_verify(text: &str, secret: &[u8]) -> (valid: bool)
    ensures
        valid == tag_valid(text@, secret@),
{
    match Hmac::<Sha256>::new_from_slice(secret) {
        Ok(key) => {
            let verified: Result<jwt::Token<Header, RegisteredClaims, jwt::Verified>, _> = text.verify_with_key(&key);
            verified.is_ok()
        },
        Err(_) => false,
    }
}

/// A decoded token: the two claims and the compact text they were read from.
/// The integrity tag is the last part of `text`.
#[derive(Debug)]
pub struct Token {
    pub subject: String,
    pub audience: String,
    pub text: String,
}

/// A token as plain values.
pub struct TokenView {
    pub subject: Seq<char>,
    pub audience: Seq<char>,
    pub text: Seq<char>,
}

impl View for Token {
    type V = TokenView;

    open spec fn view(&self) -> Self::V {
        TokenView { subject: self.subject@, audience: self.audience@, text: self.text@ }
    }
}

/// The view of an optional token.
pub open spec fn token_view(t: Option<Token>) -> Option<TokenView> {
    match t {
        Some(t) => Some(t@),
        None => None,
    }
}

/// The token that `text` stands for once it has been decoded to `decoded`:
/// one exists exactly where the text decoded and both claims are present.
pub open spec fn assembled(text: Seq<char>, decoded: Option<(Option<Seq<char>>, Option<Seq<char>>)>) -> Option<
    TokenView,
> {
    match decoded {
        Some((Some(subject), Some(audience))) => Some(TokenView { subject, audience, text }),
        _ => None,
    }
}

/// The token that `text` parses to, if it is one.
pub open spec fn parsed(text: Seq<char>) -> Option<TokenView> {
    assembled(text, decoded_claims(text))
}

/// The token issued for `subject` and `audience` under `secret`.
pub open spec fn issued(subject: Seq<char>, audience: Seq<char>, secret: Seq<u8>) -> TokenView {
    TokenView { subject, audience, text: signed_text(subject, audience, secret) }
}

/// Whether `text` is a token for `subject` and `audience` whose tag is the one
/// that `secret` gives: what holds of every token issued under `secret`.
pub open spec fn authentic(text: Seq<char>, subject: Seq<char>, audience: Seq<char>, secret: Seq<u8>) -> bool {
    parsed(text) == Some(TokenView { subject, audience, text }) && tag_valid(text, secret)
}

/// Builds the token for a text from the outcome of decoding it.
pub fn assemble(text: String, decoded: Option<Claims>) -> (token: Option<Token>)
    ensures
        token_view(token) == assembled(text@, claims_view(decoded)),
{
    match decoded {
        Some(Claims { subject: Some(subject), audience: Some(audience) }) => Some(
            Token { subject, audience, text },
        ),
        _ => None,
    }
}

/// Issues a signed token that binds `subject` to `audience`.
pub fn issue(subject: &str, audience: &str, secret: &[u8]) -> (token: Token)
    ensures
        token@ == issued(subject@, audience@, secret@),
        authentic(token@.text, subject@, audience@, secret@),
{
    match jwt_sign(subject, audience, secret) {
        Some(text) => Token { subject: subject.to_owned(), audience: audience.to_owned(), text },
        None => vstd::pervasive::unreached(),
    }
}

/// Reads a token from its compact text, without checking its tag. Fails with
/// `InvalidToken` where the text does not decode or lacks either claim.
pub fn parse(text: &str) -> (r: Result<Token, Error>)
    ensures
        match parsed(text@) {
            Some(token) => r matches Ok(t) && t@ == token,
            None => r matches Err(e) && e == Error::InvalidToken,
        },
{
    match assemble(text.to_owned(), jwt_decode(text)) {
        Some(token) => Ok(token),
        None => Err(Error::InvalidToken),
    }
}

/// Whether the token's integrity tag is the one that `secret` gives.
pub fn verify(token: &Token, secret: &[u8]) -> (valid: bool)
    ensures
        valid == tag_valid(token@.text, secret@),
{
    jwt_verify(token.text.as_str(), secret)
}

} // verus!
