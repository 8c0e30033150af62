//! A user registry and sign-in service: it keeps accounts, signs tokens for
//! users who present their credential, and checks tokens for the services
//! those tokens were issued to.

use crate::context::Address;
use crate::context::Context;
use crate::string_map::StringMap;
use crate::token;
use crate::token::Token;
use rand::RngCore;
use rand::SeedableRng;
use vstd::prelude::*;

verus! {

/// A user's login credential: a password, stored and compared as given.
pub type LoginCredential = String;

/// A registered account.
#[derive(Debug, PartialEq, Eq)]
pub struct User {
    pub name: String,
    pub login_credential: LoginCredential,
}

/// An account as plain values.
pub struct UserView {
    pub name: Seq<char>,
    pub login_credential: Seq<char>,
}

impl View for User {
    type V = UserView;

    open spec fn view(&self) -> Self::V {
        UserView { name: self.name@, login_credential: self.login_credential@ }
    }
}

impl Clone for User {
    fn clone(&self) -> (copy: Self)
        ensures
            copy@ == self@,
    {
        User { name: self.name.clone(), login_credential: self.login_credential.clone() }
    }
}

/// The verified claims of a token: the user it was issued to.
#[derive(Debug, PartialEq, Eq)]
pub struct UserInfo {
    pub name: String,
}

/// Why the registry turned a request down.
#[derive(Debug, Clone, Copy, PartialEq, Eq, Structural)]
pub enum Error {
    /// The credential is wrong, or the token was issued to another service or
    /// carries a tag that the registry's secret does not give.
    PermissionDenied,
    /// An account with this name exists.
    UsernameTaken,
    /// The text is not a token with a subject and an audience.
    InvalidToken,
}

/// The registry's state as plain values.
pub struct RegistryView {
    /// The credential of every account, by name.
    pub accounts: Map<Seq<char>, Seq<char>>,
    /// The key under which tokens are signed.
    pub secret: Seq<u8>,
}

/// The length of the signing secret that a new registry draws.
pub const SECRET_LEN: usize = 32;

/// Whether every account is filed under its own name.
pub open spec fn filed_by_name(users: Map<Seq<char>, UserView>) -> bool {
    forall|name: Seq<char>| #[trigger] users.contains_key(name) ==> users[name].name == name
}

/// The credential of every account, by name.
pub open spec fn credentials(users: Map<Seq<char>, UserView>) -> Map<Seq<char>, Seq<char>> {
    users.map_values(|u: UserView| u.login_credential)
}

/// Whether `credential` is the one stored for an account named `name`.
pub open spec fn credential_accepted(
    accounts: Map<Seq<char>, Seq<char>>,
    name: Seq<char>,
    credential: Seq<char>,
) -> bool {
    accounts.contains_key(name) && accounts[name] == credential
}

/// The state after, and the answer to, a registration.
pub open spec fn register_outcome(state: RegistryView, name: Seq<char>, credential: Seq<char>) -> (
    RegistryView,
    Result<(), Error>,
) {
    if state.accounts.contains_key(name) {
        (state, Err(Error::UsernameTaken))
    } else {
        (RegistryView { accounts: state.accounts.insert(name, credential), secret: state.secret }, Ok(()))
    }
}

/// The answer to a sign-in: the text of the token issued, or a refusal.
pub open spec fn sign_in_outcome(
    state: RegistryView,
    name: Seq<char>,
    credential: Seq<char>,
    audience: Address,
) -> Result<Seq<char>, Error> {
    if credential_accepted(state.accounts, name, credential) {
        Ok(token::signed_text(name, audience.hex(), state.secret))
    } else {
        Err(Error::PermissionDenied)
    }
}

/// The verdict on a text that parsed to `parsed`, presented by a caller whose
/// identity reads `caller`, and whose tag check gave `tag_ok`: the subject's
/// name, or a refusal.
pub open spec fn token_verdict(caller: Seq<char>, parsed: Option<token::TokenView>, tag_ok: bool) -> Result<
    Seq<char>,
    Error,
> {
    match parsed {
        None => Err(Error::InvalidToken),
        Some(token) => if token.audience == caller && tag_ok {
            Ok(token.subject)
        } else {
            Err(Error::PermissionDenied)
        },
    }
}

/// The answer to a request by `caller` to verify `text`.
pub open spec fn verify_token_outcome(state: RegistryView, caller: Address, text: Seq<char>) -> Result<
    Seq<char>,
    Error,
> {
    token_verdict(caller.hex(), token::parsed(text), token::tag_valid(text, state.secret))
}

/// An answer to a verification request as plain values.
pub open spec fn verdict_view(r: Result<UserInfo, Error>) -> Result<Seq<char>, Error> {
    match r {
        Ok(info) => Ok(info.name@),
        Err(e) => Err(e),
    }
}

/// An answer to a sign-in as plain values.
pub open spec fn text_view(r: Result<String, Error>) -> Result<Seq<char>, Error> {
    match r {
        Ok(text) => Ok(text@),
        Err(e) => Err(e),
    }
}

/// Registering a name a second time is refused with `UsernameTaken` and
/// changes nothing: the account stays as the first registration left it.
pub proof fn lemma_second_registration_refused(
    state: RegistryView,
    name: Seq<char>,
    first: Seq<char>,
    second: Seq<char>,
)
    ensures
        ({
            let (after_first, _) = register_outcome(state, name, first);
            let (after_second, answer) = register_outcome(after_first, name, second);
            &&& answer == Err::<(), Error>(Error::UsernameTaken)
            &&& after_second == after_first
            &&& after_second.accounts[name] == after_first.accounts[name]
            &&& !state.accounts.contains_key(name) ==> after_second.accounts[name] == first
        }),
{
}

/// A registration never removes an account, never changes the credential of
/// one that exists, and never touches the signing secret.
pub proof fn lemma_accounts_only_grow(state: RegistryView, name: Seq<char>, credential: Seq<char>)
    ensures
        ({
            let (after, _) = register_outcome(state, name, credential);
            &&& after.secret == state.secret
            &&& forall|other: Seq<char>| #[trigger]
                state.accounts.contains_key(other) ==> after.accounts.contains_key(other) && after.accounts[other]
                    == state.accounts[other]
        }),
{
}

/// After a registration that was accepted, the credential given signs the
/// user in, for any audience.
pub proof fn lemma_registered_user_signs_in(
    state: RegistryView,
    name: Seq<char>,
    credential: Seq<char>,
    audience: Address,
)
    requires
        register_outcome(state, name, credential).1 is Ok,
    ensures
        sign_in_outcome(register_outcome(state, name, credential).0, name, credential, audience) is Ok,
{
}

/// A sign-in with a credential other than the stored one is refused with
/// `PermissionDenied`, and so is one under a name that has no account.
pub proof fn lemma_wrong_credential_denied(
    state: RegistryView,
    name: Seq<char>,
    credential: Seq<char>,
    audience: Address,
)
    requires
        !state.accounts.contains_key(name) || state.accounts[name] != credential,
    ensures
        sign_in_outcome(state, name, credential, audience) == Err::<Seq<char>, Error>(Error::PermissionDenied),
{
}

/// A token issued under the registry's secret for one audience, as every
/// token is that `sign_in` returns, is verified for that audience, with its
/// subject as the answer, and refused with `PermissionDenied` to every other
/// caller.
pub proof fn lemma_token_bound_to_audience(
    state: RegistryView,
    text: Seq<char>,
    subject: Seq<char>,
    audience: Address,
    caller: Address,
)
    requires
        token::authentic(text, subject, audience.hex(), state.secret),
    ensures
        caller == audience ==> verify_token_outcome(state, caller, text) == Ok::<Seq<char>, Error>(subject),
        caller != audience ==> verify_token_outcome(state, caller, text) == Err::<Seq<char>, Error>(
            Error::PermissionDenied,
        ),
{
    if caller != audience {
        if caller.hex() == audience.hex() {
            crate::context::lemma_hex_encoding_injective(caller.0@, audience.0@);
            assert(caller.0 =~= audience.0);
        }
    }
}

/// A text is verified only where it parses to a token that names the caller
/// as its audience and carries the tag that the registry's secret gives; the
/// answer is then the token's subject.
pub proof fn lemma_verified_token_checks_out(state: RegistryView, caller: Address, text: Seq<char>, name: Seq<char>)
    requires
        verify_token_outcome(state, caller, text) == Ok::<Seq<char>, Error>(name),
    ensures
        token::authentic(text, name, caller.hex(), state.secret),
{
}

/// Overwrites `buffer` with bytes from a `rand_pcg::Pcg64` generator that is
/// seeded from the operating system: `from_entropy`, then `fill_bytes`.
/// `from_entropy` panics where the system cannot supply entropy; no argument
/// of this function brings that about or prevents it.
///
/// Trusted: the buffer keeps its length. Nothing is claimed of the bytes.
#[verifier::external_body]
fn fill_with_entropy(buffer: &mut Vec<u8>)
    ensures
        final(buffer)@.len() == old(buffer)@.len(),
{
    rand_pcg::Pcg64::from_entropy().fill_bytes(buffer.as_mut_slice());
}

/// Decides a verification request from the token that the text parsed to
/// and the outcome of its tag check: the token must name the caller as its
/// audience and carry the right tag.
pub fn judge_token(caller: &String, token: Token, tag_ok: bool) -> (r: Result<UserInfo, Error>)
    ensures
        verdict_view(r) == token_verdict(caller@, Some(token@), tag_ok),
{
    if token.audience != *caller || !tag_ok {
        return Err(Error::PermissionDenied);
    }
    Ok(UserInfo { name: token.subject })
}

/// The user registry: the accounts, and the secret under which it signs.
pub struct UserRegistry {
    users: StringMap<User>,
    /// The key used to sign the tokens that authenticate users.
    jwt_secret: Vec<u8>,
}

impl View for UserRegistry {
    type V = RegistryView;

    closed spec fn view(&self) -> Self::V {
        RegistryView { accounts: credentials(self.users@), secret: self.jwt_secret@ }
    }
}

impl UserRegistry {
    /// Every account is filed under its own name, and no name twice.
    pub closed spec fn wf(&self) -> bool {
        &&& self.users.wf()
        &&& filed_by_name(self.users@)
    }

    /// Puts a registry together from what `into_parts` gave. Returns `None`
    /// where an account is not filed under its own name.
    pub fn from_parts(users: StringMap<User>, jwt_secret: Vec<u8>) -> (restored: Option<Self>)
        requires
            users.wf(),
        ensures
            match restored {
                Some(registry) => {
                    &&& filed_by_name(users@)
                    &&& registry.wf()
                    &&& registry@ == (RegistryView { accounts: credentials(users@), secret: jwt_secret@ })
                },
                None => !filed_by_name(users@),
            },
    {
        let mut i: usize = 0;
        while i < users.len()
            invariant
                users.wf(),
                i <= users.keys().len(),
                forall|j: int| 0 <= j < i ==> users.values()[j].name == users.keys()[j],
            decreases users.keys().len() - i,
        {
            if users.value_at(i).name != *users.key_at(i) {
                proof {
                    users.lemma_entry(i as int);
                }
                return None;
            }
            i += 1;
        }
        proof {
            assert forall|name: Seq<char>| #[trigger] users@.contains_key(name) implies users@[name].name == name by {
                let j = users.keys().index_of(name);
                users.lemma_entry(j);
            }
        }
        Some(UserRegistry { users, jwt_secret })
    }

    /// Takes the registry apart, to be stored between calls: the accounts,
    /// and the signing secret, which must be kept as closely as the registry
    /// itself.
    pub fn into_parts(self) -> (parts: (StringMap<User>, Vec<u8>))
        requires
            self.wf(),
        ensures
            parts.0.wf(),
            filed_by_name(parts.0@),
            self@ == (RegistryView { accounts: credentials(parts.0@), secret: parts.1@ }),
    {
        (self.users, self.jwt_secret)
    }

    /// A registry without accounts, with a fresh random signing secret.
    pub fn new(_ctx: &Context) -> (registry: Self)
        ensures
            registry.wf(),
            registry@.accounts == Map::<Seq<char>, Seq<char>>::empty(),
            registry@.secret.len() == SECRET_LEN,
    {
        let mut jwt_secret: Vec<u8> = vec![0u8; SECRET_LEN];
        fill_with_entropy(&mut jwt_secret);
        Self::with_secret(jwt_secret)
    }

    /// A registry without accounts that signs under `jwt_secret`.
    pub fn with_secret(jwt_secret: Vec<u8>) -> (registry: Self)
        ensures
            registry.wf(),
            registry@ == (RegistryView { accounts: Map::empty(), secret: jwt_secret@ }),
    {
        let registry = UserRegistry { users: StringMap::new(), jwt_secret };
        assert(registry@.accounts =~= Map::empty());
        registry
    }

    /// Registers a new user. Fails with `UsernameTaken`, and changes nothing,
    /// where the name is in use.
    pub fn register(&mut self, _ctx: &Context, name: String, login_credential: LoginCredential) -> (r: Result<
        (),
        Error,
    >)
        requires
            old(self).wf(),
        ensures
            final(self).wf(),
            (final(self)@, r) == register_outcome(old(self)@, name@, login_credential@),
    {
        if self.users.contains_key(&name) {
            return Err(Error::UsernameTaken);
        }
        let key = name.clone();
        self.users.insert(key, User { name, login_credential });
        proof {
            assert(self@.accounts =~= old(self)@.accounts.insert(name@, login_credential@));
        }
        Ok(())
    }

    /// Returns a token that authenticates the user to the service at
    /// `audience`, and to no other caller. Fails with `PermissionDenied`
    /// where no account has this name or its credential is another.
    pub fn sign_in(&self, _ctx: &Context, name: String, login_credential: LoginCredential, audience: Address) -> (r:
        Result<String, Error>)
        requires
            self.wf(),
        ensures
            text_view(r) == sign_in_outcome(self@, name@, login_credential@, audience),
            r matches Ok(text) ==> {
                &&& token::authentic(text@, name@, audience.hex(), self@.secret)
                &&& verify_token_outcome(self@, audience, text@) == Ok::<Seq<char>, Error>(name@)
                &&& forall|caller: Address|
                    caller != audience ==> #[trigger] verify_token_outcome(self@, caller, text@) == Err::<
                        Seq<char>,
                        Error,
                    >(Error::PermissionDenied)
            },
    {
        match self.users.get(&name) {
            Some(user) => {
                if user.login_credential != login_credential {
                    return Err(Error::PermissionDenied);
                }
                let audience_text = audience.to_hex();
                let token = token::issue(user.name.as_str(), audience_text.as_str(), self.jwt_secret.as_slice());
                proof {
                    assert forall|caller: Address| #[trigger]
                        verify_token_outcome(self@, caller, token.text@) == (if caller == audience {
                            Ok::<Seq<char>, Error>(name@)
                        } else {
                            Err::<Seq<char>, Error>(Error::PermissionDenied)
                        }) by {
                        lemma_token_bound_to_audience(self@, token.text@, name@, audience, caller);
                    }
                }
                Ok(token.text)
            },
            None => Err(Error::PermissionDenied),
        }
    }

    /// Checks a token on behalf of the caller. Fails with `InvalidToken` where
    /// the text is no token, and with `PermissionDenied` where the token was
    /// issued to another audience than the caller or its tag is not the one
    /// this registry's secret gives. Returns the verified claims.
    pub fn verify_token(&self, ctx: &Context, token: String) -> (r: Result<UserInfo, Error>)
        ensures
            verdict_view(r) == verify_token_outcome(self@, ctx.sender, token@),
    {
        match token::parse(token.as_str()) {
            Err(e) => Err(e),
            Ok(parsed) => {
                let tag_ok = token::verify(&parsed, self.jwt_secret.as_slice());
                judge_token(&ctx.sender.to_hex(), parsed, tag_ok)
            },
        }
    }
}

} // verus!
