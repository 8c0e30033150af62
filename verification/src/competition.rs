//! The competition coordinator: it takes submissions from users whom the
//! registry has verified while the window is open, and after the deadline
//! hands its secrets to the attested evaluation program alone.

use crate::context::Address;
use crate::context::Context;
use crate::string_map::StringMap;
use crate::token;
use crate::user_registry;
use crate::user_registry::UserInfo;
use crate::user_registry::UserRegistry;
use vstd::prelude::*;

verus! {

/// A public pointer to off-system data, with the hash the data must have (or
/// the measurement, if the data is a program).
#[derive(Debug, PartialEq, Eq)]
pub struct AuthenticatedData {
    pub url: String,
    pub hash: Vec<u8>,
}

/// `AuthenticatedData` as plain values.
pub struct AuthenticatedDataView {
    pub url: Seq<char>,
    pub hash: Seq<u8>,
}

impl View for AuthenticatedData {
    type V = AuthenticatedDataView;

    open spec fn view(&self) -> Self::V {
        AuthenticatedDataView { url: self.url@, hash: self.hash@ }
    }
}

/// The key material of an AES-256-GCM ciphertext.
#[derive(Debug, PartialEq, Eq)]
pub struct Aes256GcmParams {
    pub key: Vec<u8>,
    pub iv: Vec<u8>,
    pub tag: Vec<u8>,
}

/// `Aes256GcmParams` as plain values.
pub struct Aes256GcmParamsView {
    pub key: Seq<u8>,
    pub iv: Seq<u8>,
    pub tag: Seq<u8>,
}

impl View for Aes256GcmParams {
    type V = Aes256GcmParamsView;

    open spec fn view(&self) -> Self::V {
        Aes256GcmParamsView { key: self.key@, iv: self.iv@, tag: self.tag@ }
    }
}

impl Clone for Aes256GcmParams {
    fn clone(&self) -> (copy: Self)
        ensures
            copy@ == self@,
    {
        Aes256GcmParams { key: self.key.clone(), iv: self.iv.clone(), tag: self.tag.clone() }
    }
}

/// A pointer to encrypted off-system data together with its key. The
/// coordinator never opens it; it only passes it on to whom it is owed.
#[derive(Debug, PartialEq, Eq)]
pub struct EncryptedData {
    pub url: String,
    pub cipher: Aes256GcmParams,
}

/// `EncryptedData` as plain values.
pub struct EncryptedDataView {
    pub url: Seq<char>,
    pub cipher: Aes256GcmParamsView,
}

impl View for EncryptedData {
    type V = EncryptedDataView;

    open spec fn view(&self) -> Self::V {
        EncryptedDataView { url: self.url@, cipher: self.cipher@ }
    }
}

impl Clone for EncryptedData {
    fn clone(&self) -> (copy: Self)
        ensures
            copy@ == self@,
    {
        EncryptedData { url: self.url.clone(), cipher: self.cipher.clone() }
    }
}

/// A claim by a remote program of what it is. Only the measurement is read
/// here; checking the signature over it is left to the attestation service.
#[derive(Debug, PartialEq, Eq)]
pub struct AttestationReport {
    pub measurement: Vec<u8>,
    pub signature: Vec<u8>,
}

/// What the evaluation program is given once it has been let in.
#[derive(Debug)]
pub struct EvaluationSecrets {
    pub test_dataset: EncryptedData,
    pub submissions: StringMap<EncryptedData>,
}

/// `EvaluationSecrets` as plain values.
pub struct EvaluationSecretsView {
    pub test_dataset: EncryptedDataView,
    /// The submission of every participant, by username.
    pub submissions: Map<Seq<char>, EncryptedDataView>,
    /// The usernames in the order in which the submissions are listed.
    pub participants: Seq<Seq<char>>,
}

impl View for EvaluationSecrets {
    type V = EvaluationSecretsView;

    open spec fn view(&self) -> Self::V {
        EvaluationSecretsView {
            test_dataset: self.test_dataset@,
            submissions: self.submissions@,
            participants: self.submissions.keys(),
        }
    }
}

/// Why the coordinator turned a request down.
#[derive(Debug, Clone, Copy, PartialEq, Eq, Structural)]
pub enum Error {
    /// The registry could not be asked; the caller may try again.
    ParticipantRegistryUnreachable,
    /// The registry refused the token, or the caller is not the evaluation
    /// program, or the window is still open.
    PermissionDenied,
    /// The deadline has passed.
    SubmissionsClosed,
}

/// The public record that the competition has a winner.
#[derive(Debug, PartialEq, Eq)]
pub struct CompetitionCompleted {
    /// The username of the participant who made the winning submission.
    pub winner: String,
}

/// The state of the coordinator that anyone may read.
#[derive(Debug)]
pub struct PublicState<'a> {
    pub user_registry: &'a Address,
    pub train_dataset: &'a AuthenticatedData,
    pub evaluation_program: &'a AuthenticatedData,
    pub end_timestamp: u64,
}

/// The registry could not be reached, or did not answer.
#[derive(Debug, Clone, Copy, PartialEq, Eq, Structural)]
pub struct RegistryUnavailable;

/// What came of asking the registry to verify a token: its verdict, unless
/// the call itself failed.
pub type RegistryReply = Result<Result<UserInfo, user_registry::Error>, RegistryUnavailable>;

/// How the coordinator reaches the registry it delegates to.
pub enum RegistryLink<'a> {
    /// The registry answers calls.
    Reachable(&'a UserRegistry),
    /// Calls to the registry fail.
    Unreachable,
}

/// The call that a submission has the coordinator make: to the registry at
/// `registry`, under `context`, to verify `token`.
#[derive(Debug)]
pub struct VerificationRequest {
    pub registry: Address,
    pub context: Context,
    pub token: String,
}

/// The coordinator's state as plain values.
pub struct CompetitionView {
    pub user_registry: Address,
    pub train_dataset: AuthenticatedDataView,
    pub test_dataset: EncryptedDataView,
    pub evaluation_program: AuthenticatedDataView,
    pub end_timestamp: u64,
    /// The current submission of every participant who made one, by username.
    pub submissions: Map<Seq<char>, EncryptedDataView>,
    /// The usernames that have a submission, in the order of their first.
    pub participants: Seq<Seq<char>>,
}

impl CompetitionView {
    /// The participants are exactly the users who have a submission, each
    /// named once.
    pub open spec fn consistent(self) -> bool {
        &&& self.participants.no_duplicates()
        &&& forall|name: Seq<char>| self.submissions.contains_key(name) <==> self.participants.contains(name)
    }
}

/// Whether the window is open at `now`: strictly before the deadline.
pub open spec fn window_open(state: CompetitionView, now: u64) -> bool {
    now < state.end_timestamp
}

/// Whether a caller presenting `measurement` at `now` is let in as the
/// evaluation program: the window is closed and the measurement is the
/// expected one.
pub open spec fn evaluation_authorized(state: CompetitionView, now: u64, measurement: Seq<u8>) -> bool {
    !window_open(state, now) && measurement == state.evaluation_program.hash
}

/// The answer to a caller who presents `measurement` at `now` to be let in as
/// the evaluation program. A refusal does not say which condition failed.
pub open spec fn authorize_outcome(state: CompetitionView, now: u64, measurement: Seq<u8>) -> Result<(), Error> {
    if evaluation_authorized(state, now, measurement) {
        Ok(())
    } else {
        Err(Error::PermissionDenied)
    }
}

/// The answer to a request to begin the evaluation: the test dataset and
/// every submission as they stand, or a refusal.
pub open spec fn begin_evaluation_outcome(state: CompetitionView, now: u64, measurement: Seq<u8>) -> Result<
    EvaluationSecretsView,
    Error,
> {
    match authorize_outcome(state, now, measurement) {
        Ok(_) => Ok(
            EvaluationSecretsView {
                test_dataset: state.test_dataset,
                submissions: state.submissions,
                participants: state.participants,
            },
        ),
        Err(e) => Err(e),
    }
}

/// The answer to a request to name `winner`: the name to put on record, or a
/// refusal.
pub open spec fn announce_winner_outcome(
    state: CompetitionView,
    now: u64,
    measurement: Seq<u8>,
    winner: Seq<char>,
) -> Result<Seq<char>, Error> {
    match authorize_outcome(state, now, measurement) {
        Ok(_) => Ok(winner),
        Err(e) => Err(e),
    }
}

/// An answer to a request to begin the evaluation as plain values.
pub open spec fn secrets_view(r: Result<EvaluationSecrets, Error>) -> Result<EvaluationSecretsView, Error> {
    match r {
        Ok(secrets) => Ok(secrets@),
        Err(e) => Err(e),
    }
}

/// An answer to a request to name the winner as plain values.
pub open spec fn record_view(r: Result<CompetitionCompleted, Error>) -> Result<Seq<char>, Error> {
    match r {
        Ok(fact) => Ok(fact.winner@),
        Err(e) => Err(e),
    }
}

/// A reply as plain values: the verified username, a refusal, or no answer.
pub open spec fn reply_view(reply: RegistryReply) -> Result<Result<Seq<char>, user_registry::Error>, RegistryUnavailable> {
    match reply {
        Ok(verdict) => Ok(user_registry::verdict_view(verdict)),
        Err(e) => Err(e),
    }
}

/// The participants once `name` has a submission: a user who had one keeps
/// their place, a new one goes last.
pub open spec fn joined(participants: Seq<Seq<char>>, name: Seq<char>) -> Seq<Seq<char>> {
    if participants.contains(name) {
        participants
    } else {
        participants.push(name)
    }
}

/// The state after, and the answer to, the second half of a submission, by
/// what the registry replied.
pub open spec fn recorded(
    state: CompetitionView,
    reply: Result<Result<Seq<char>, user_registry::Error>, RegistryUnavailable>,
    model: EncryptedDataView,
) -> (CompetitionView, Result<(), Error>) {
    match reply {
        Ok(Ok(name)) => (
            CompetitionView {
                submissions: state.submissions.insert(name, model),
                participants: joined(state.participants, name),
                ..state
            },
            Ok(()),
        ),
        Ok(Err(_)) => (state, Err(Error::PermissionDenied)),
        Err(_) => (state, Err(Error::ParticipantRegistryUnreachable)),
    }
}

/// The context under which the coordinator called at `ctx` calls its
/// registry: as itself, at the same time.
pub open spec fn delegated_context(state: CompetitionView, ctx: Context) -> Context {
    Context { sender: ctx.callee, callee: state.user_registry, now: ctx.now }
}

/// What a link yields when asked to verify `text` under `ctx`.
pub open spec fn link_reply(link: RegistryLink, ctx: Context, text: Seq<char>) -> Result<
    Result<Seq<char>, user_registry::Error>,
    RegistryUnavailable,
> {
    match link {
        RegistryLink::Reachable(registry) => Ok(user_registry::verify_token_outcome(registry@, ctx.sender, text)),
        RegistryLink::Unreachable => Err(RegistryUnavailable),
    }
}

/// The state after, and the answer to, a submission: refused outright once
/// the window has closed, else decided by the registry's reply.
pub open spec fn submit_outcome(
    state: CompetitionView,
    ctx: Context,
    link: RegistryLink,
    text: Seq<char>,
    model: EncryptedDataView,
) -> (CompetitionView, Result<(), Error>) {
    if window_open(state, ctx.now) {
        recorded(state, link_reply(link, delegated_context(state, ctx), text), model)
    } else {
        (state, Err(Error::SubmissionsClosed))
    }
}

/// A submission changes nothing but the submissions: the terms of the
/// competition stay as they were set, whatever the answer.
pub proof fn lemma_terms_are_fixed(
    state: CompetitionView,
    ctx: Context,
    link: RegistryLink,
    text: Seq<char>,
    model: EncryptedDataView,
)
    ensures
        ({
            let (after, _) = submit_outcome(state, ctx, link, text, model);
            &&& after.user_registry == state.user_registry
            &&& after.train_dataset == state.train_dataset
            &&& after.test_dataset == state.test_dataset
            &&& after.evaluation_program == state.evaluation_program
            &&& after.end_timestamp == state.end_timestamp
        }),
{
}

/// A submission that is refused leaves every submission as it was.
pub proof fn lemma_refused_submission_changes_nothing(
    state: CompetitionView,
    ctx: Context,
    link: RegistryLink,
    text: Seq<char>,
    model: EncryptedDataView,
)
    requires
        submit_outcome(state, ctx, link, text, model).1 is Err,
    ensures
        submit_outcome(state, ctx, link, text, model).0 == state,
{
}

/// A submission keeps the participants in step with the submissions.
pub proof fn lemma_submission_keeps_consistency(
    state: CompetitionView,
    ctx: Context,
    link: RegistryLink,
    text: Seq<char>,
    model: EncryptedDataView,
)
    requires
        state.consistent(),
    ensures
        submit_outcome(state, ctx, link, text, model).0.consistent(),
{
    let (after, answer) = submit_outcome(state, ctx, link, text, model);
    if answer is Ok {
        let name = link_reply(link, delegated_context(state, ctx), text)->Ok_0->Ok_0;
        if !state.participants.contains(name) {
            let order = state.participants.push(name);
            assert(order[state.participants.len() as int] == name);
            assert forall|k: Seq<char>| after.submissions.contains_key(k) <==> order.contains(k) by {
                if order.contains(k) {
                    let i = order.index_of(k);
                    if i < state.participants.len() {
                        assert(state.participants[i] == k);
                    }
                }
                if state.participants.contains(k) {
                    let i = state.participants.index_of(k);
                    assert(order[i] == k);
                }
            }
            assert forall|a: int, b: int| 0 <= a < order.len() && 0 <= b < order.len() && a != b implies order[a]
                != order[b] by {
                if a < state.participants.len() {
                    assert(state.participants.contains(order[a]));
                }
                if b < state.participants.len() {
                    assert(state.participants.contains(order[b]));
                }
            }
        }
    }
}

/// Once the deadline has come, a submission is refused with
/// `SubmissionsClosed` and nothing changes, whatever the token and whether or
/// not the registry can be reached.
pub proof fn lemma_closed_window_refuses_submission(
    state: CompetitionView,
    ctx: Context,
    link: RegistryLink,
    text: Seq<char>,
    model: EncryptedDataView,
)
    requires
        ctx.now >= state.end_timestamp,
    ensures
        submit_outcome(state, ctx, link, text, model) == (state, Err::<(), Error>(Error::SubmissionsClosed)),
{
}

/// While the window is open, a token whose audience is not the coordinator
/// itself is refused with `PermissionDenied` and nothing changes.
pub proof fn lemma_foreign_audience_refused(
    state: CompetitionView,
    ctx: Context,
    registry: UserRegistry,
    text: Seq<char>,
    model: EncryptedDataView,
)
    requires
        window_open(state, ctx.now),
        token::parsed(text) matches Some(t) && t.audience != ctx.callee.hex(),
    ensures
        submit_outcome(state, ctx, RegistryLink::Reachable(&registry), text, model) == (
            state,
            Err::<(), Error>(Error::PermissionDenied),
        ),
{
}

/// While the window is open, a token that the registry issued for another
/// service than the coordinator is refused with `PermissionDenied`.
pub proof fn lemma_token_for_other_service_refused(
    state: CompetitionView,
    ctx: Context,
    registry: UserRegistry,
    text: Seq<char>,
    subject: Seq<char>,
    audience: Address,
    model: EncryptedDataView,
)
    requires
        window_open(state, ctx.now),
        token::authentic(text, subject, audience.hex(), registry@.secret),
        audience != ctx.callee,
    ensures
        submit_outcome(state, ctx, RegistryLink::Reachable(&registry), text, model) == (
            state,
            Err::<(), Error>(Error::PermissionDenied),
        ),
{
    user_registry::lemma_token_bound_to_audience(registry@, text, subject, audience, ctx.callee);
}

/// While the window is open, a token that the registry verifies for the
/// coordinator gets the model stored as the submission of the user it names;
/// every other user's submission stays as it was.
pub proof fn lemma_submission_stored(
    state: CompetitionView,
    ctx: Context,
    registry: UserRegistry,
    text: Seq<char>,
    name: Seq<char>,
    model: EncryptedDataView,
)
    requires
        window_open(state, ctx.now),
        user_registry::verify_token_outcome(registry@, ctx.callee, text) == Ok::<Seq<char>, user_registry::Error>(
            name,
        ),
    ensures
        ({
            let (after, answer) = submit_outcome(state, ctx, RegistryLink::Reachable(&registry), text, model);
            &&& answer == Ok::<(), Error>(())
            &&& after.submissions == state.submissions.insert(name, model)
            &&& after.submissions[name] == model
            &&& forall|other: Seq<char>|
                other != name ==> (after.submissions.contains_key(other) <==> state.submissions.contains_key(other))
                    && after.submissions[other] == state.submissions[other]
        }),
{
}

/// Of two submissions in a row that the registry verifies for the same user
/// only the later one is kept, at the place of the earlier.
pub proof fn lemma_resubmission_overwrites(
    state: CompetitionView,
    first_ctx: Context,
    second_ctx: Context,
    registry: UserRegistry,
    name: Seq<char>,
    first_text: Seq<char>,
    first_model: EncryptedDataView,
    second_text: Seq<char>,
    second_model: EncryptedDataView,
)
    requires
        window_open(state, first_ctx.now),
        window_open(state, second_ctx.now),
        user_registry::verify_token_outcome(registry@, first_ctx.callee, first_text) == Ok::<
            Seq<char>,
            user_registry::Error,
        >(name),
        user_registry::verify_token_outcome(registry@, second_ctx.callee, second_text) == Ok::<
            Seq<char>,
            user_registry::Error,
        >(name),
    ensures
        ({
            let link = RegistryLink::Reachable(&registry);
            let (between, first_answer) = submit_outcome(state, first_ctx, link, first_text, first_model);
            let (after, second_answer) = submit_outcome(between, second_ctx, link, second_text, second_model);
            &&& first_answer == Ok::<(), Error>(())
            &&& second_answer == Ok::<(), Error>(())
            &&& after.submissions == state.submissions.insert(name, second_model)
            &&& after.submissions[name] == second_model
            &&& after.participants == between.participants
            &&& forall|later: u64|
                later >= state.end_timestamp ==> {
                    let answer = #[trigger] begin_evaluation_outcome(after, later, after.evaluation_program.hash);
                    answer is Ok && answer->Ok_0.submissions[name] == second_model
                }
        }),
{
    assert(state.submissions.insert(name, first_model).insert(name, second_model) =~= state.submissions.insert(
        name,
        second_model,
    ));
    let order = joined(state.participants, name);
    if !state.participants.contains(name) {
        assert(order[state.participants.len() as int] == name);
    }
    assert(order.contains(name));
}

/// Before the deadline the evaluation cannot begin and no winner can be
/// named: both are refused with `PermissionDenied`, the expected measurement
/// notwithstanding.
pub proof fn lemma_evaluation_waits_for_deadline(
    state: CompetitionView,
    now: u64,
    measurement: Seq<u8>,
    winner: Seq<char>,
)
    requires
        now < state.end_timestamp,
    ensures
        begin_evaluation_outcome(state, now, measurement) == Err::<EvaluationSecretsView, Error>(
            Error::PermissionDenied,
        ),
        announce_winner_outcome(state, now, measurement, winner) == Err::<Seq<char>, Error>(
            Error::PermissionDenied,
        ),
{
}

/// Another measurement than the expected one is refused with
/// `PermissionDenied` at any time.
pub proof fn lemma_wrong_measurement_refused(
    state: CompetitionView,
    now: u64,
    measurement: Seq<u8>,
    winner: Seq<char>,
)
    requires
        measurement != state.evaluation_program.hash,
    ensures
        begin_evaluation_outcome(state, now, measurement) == Err::<EvaluationSecretsView, Error>(
            Error::PermissionDenied,
        ),
        announce_winner_outcome(state, now, measurement, winner) == Err::<Seq<char>, Error>(
            Error::PermissionDenied,
        ),
{
}

/// From the deadline on, the expected measurement is given the test dataset
/// and every submission, each under its username and as it was stored.
pub proof fn lemma_evaluation_returns_submissions(state: CompetitionView, now: u64)
    requires
        now >= state.end_timestamp,
    ensures
        begin_evaluation_outcome(state, now, state.evaluation_program.hash) == Ok::<EvaluationSecretsView, Error>(
            EvaluationSecretsView {
                test_dataset: state.test_dataset,
                submissions: state.submissions,
                participants: state.participants,
            },
        ),
{
}

/// From the deadline on, the expected measurement may name any winner, and
/// the name goes on record as given, whether or not that user has a
/// submission.
pub proof fn lemma_winner_recorded_as_given(state: CompetitionView, now: u64, winner: Seq<char>)
    requires
        now >= state.end_timestamp,
    ensures
        announce_winner_outcome(state, now, state.evaluation_program.hash, winner) == Ok::<Seq<char>, Error>(
            winner,
        ),
{
}

/// A model that was submitted in time under a token the registry verifies is
/// what the evaluation program is given for that user, unless the user
/// submits again.
pub proof fn lemma_submission_reaches_evaluation(
    state: CompetitionView,
    ctx: Context,
    registry: UserRegistry,
    text: Seq<char>,
    name: Seq<char>,
    model: EncryptedDataView,
    later: u64,
)
    requires
        window_open(state, ctx.now),
        user_registry::verify_token_outcome(registry@, ctx.callee, text) == Ok::<Seq<char>, user_registry::Error>(
            name,
        ),
        later >= state.end_timestamp,
    ensures
        ({
            let (after, _) = submit_outcome(state, ctx, RegistryLink::Reachable(&registry), text, model);
            let answer = begin_evaluation_outcome(after, later, after.evaluation_program.hash);
            &&& answer is Ok
            &&& answer->Ok_0.submissions.contains_key(name)
            &&& answer->Ok_0.submissions[name] == model
            &&& answer->Ok_0.participants.contains(name)
        }),
{
    let order = joined(state.participants, name);
    if !state.participants.contains(name) {
        assert(order[state.participants.len() as int] == name);
    }
}

impl<'a> RegistryLink<'a> {
    /// A link is sound where the registry behind it is.
    pub open spec fn wf(&self) -> bool {
        match self {
            RegistryLink::Reachable(registry) => registry.wf(),
            RegistryLink::Unreachable => true,
        }
    }

    /// Asks the registry at the other end to verify `token` under `ctx`.
    pub fn verify_token(&self, ctx: &Context, token: String) -> (reply: RegistryReply)
        requires
            self.wf(),
        ensures
            reply_view(reply) == link_reply(*self, *ctx, token@),
    {
        match self {
            RegistryLink::Reachable(registry) => Ok(registry.verify_token(ctx, token)),
            RegistryLink::Unreachable => Err(RegistryUnavailable),
        }
    }
}

/// Whether two byte strings are the same, byte for byte.
pub fn same_bytes(a: &Vec<u8>, b: &Vec<u8>) -> (same: bool)
    ensures
        same == (a@ == b@),
{
    if a.len() != b.len() {
        return false;
    }
    let mut i: usize = 0;
    while i < a.len()
        invariant
            i <= a.len(),
            a.len() == b.len(),
            forall|j: int| 0 <= j < i ==> a@[j] == b@[j],
        decreases a.len() - i,
    {
        if a[i] != b[i] {
            return false;
        }
        i += 1;
    }
    assert(a@ =~= b@);
    true
}

/// A copy of the submissions, entry for entry in the same order.
pub fn snapshot(submissions: &StringMap<EncryptedData>) -> (copy: StringMap<EncryptedData>)
    requires
        submissions.wf(),
    ensures
        copy.wf(),
        copy.keys() == submissions.keys(),
        copy.values() == submissions.values(),
        copy@ == submissions@,
{
    let mut copy: StringMap<EncryptedData> = StringMap::new();
    let mut i: usize = 0;
    while i < submissions.len()
        invariant
            i <= submissions.keys().len(),
            submissions.wf(),
            copy.wf(),
            copy.keys() == submissions.keys().take(i as int),
            copy.values() == submissions.values().take(i as int),
        decreases submissions.keys().len() - i,
    {
        let key = submissions.key_at(i).clone();
        let value = submissions.value_at(i).clone();
        proof {
            if copy.keys().contains(key@) {
                let j = copy.keys().index_of(key@);
                assert(copy.keys()[j] == key@);
                assert(submissions.keys()[j] == submissions.keys()[i as int]);
            }
            assert(submissions.keys().take(i as int).push(key@) =~= submissions.keys().take(i as int + 1));
            assert(submissions.values().take(i as int).push(value@) =~= submissions.values().take(i as int + 1));
        }
        copy.insert(key, value);
        i += 1;
    }
    proof {
        assert(submissions.keys().take(i as int) =~= submissions.keys());
        assert(submissions.values().take(i as int) =~= submissions.values());
    }
    copy
}

/// The competition: its fixed terms and the submissions made so far.
pub struct Competition {
    /// The address of the registry used to authenticate participants.
    user_registry: Address,
    /// Public data used to train submitted models.
    train_dataset: AuthenticatedData,
    /// Private data by which the evaluation program scores the submissions.
    test_dataset: EncryptedData,
    /// The evaluation program. It runs on trusted hardware and, by its
    /// attestation, is the only one entitled to name the winner.
    evaluation_program: AuthenticatedData,
    /// Each participant's current submission.
    submissions: StringMap<EncryptedData>,
    /// Unix timestamp at which the competition closes and evaluation may begin.
    end_timestamp: u64,
}

/// A competition taken apart, as it is stored between calls.
#[derive(Debug)]
pub struct CompetitionParts {
    pub user_registry: Address,
    pub train_dataset: AuthenticatedData,
    pub test_dataset: EncryptedData,
    pub evaluation_program: AuthenticatedData,
    pub submissions: StringMap<EncryptedData>,
    pub end_timestamp: u64,
}

impl View for CompetitionParts {
    type V = CompetitionView;

    open spec fn view(&self) -> Self::V {
        CompetitionView {
            user_registry: self.user_registry,
            train_dataset: self.train_dataset@,
            test_dataset: self.test_dataset@,
            evaluation_program: self.evaluation_program@,
            end_timestamp: self.end_timestamp,
            submissions: self.submissions@,
            participants: self.submissions.keys(),
        }
    }
}

impl View for Competition {
    type V = CompetitionView;

    closed spec fn view(&self) -> Self::V {
        CompetitionView {
            user_registry: self.user_registry,
            train_dataset: self.train_dataset@,
            test_dataset: self.test_dataset@,
            evaluation_program: self.evaluation_program@,
            end_timestamp: self.end_timestamp,
            submissions: self.submissions@,
            participants: self.submissions.keys(),
        }
    }
}

impl Competition {
    /// No participant has two submissions.
    pub closed spec fn wf(&self) -> bool {
        self.submissions.wf()
    }

    /// In a well-formed coordinator the participants are exactly the users
    /// who have a submission.
    pub proof fn lemma_view_consistent(&self)
        requires
            self.wf(),
        ensures
            self@.consistent(),
    {
    }

    /// A competition on the given terms, with no submission yet.
    pub fn new(
        _ctx: &Context,
        user_registry: Address,
        train_dataset: AuthenticatedData,
        test_dataset: EncryptedData,
        evaluation_program: AuthenticatedData,
        end_timestamp: u64,
    ) -> (competition: Self)
        ensures
            competition.wf(),
            competition@ == (CompetitionView {
                user_registry,
                train_dataset: train_dataset@,
                test_dataset: test_dataset@,
                evaluation_program: evaluation_program@,
                end_timestamp,
                submissions: Map::empty(),
                participants: Seq::empty(),
            }),
    {
        Self {
            user_registry,
            train_dataset,
            test_dataset,
            evaluation_program,
            end_timestamp,
            submissions: StringMap::new(),
        }
    }

    /// Puts a competition together from what `into_parts` gave.
    pub fn from_parts(parts: CompetitionParts) -> (competition: Self)
        requires
            parts.submissions.wf(),
        ensures
            competition.wf(),
            competition@ == parts@,
    {
        Self {
            user_registry: parts.user_registry,
            train_dataset: parts.train_dataset,
            test_dataset: parts.test_dataset,
            evaluation_program: parts.evaluation_program,
            submissions: parts.submissions,
            end_timestamp: parts.end_timestamp,
        }
    }

    /// Takes the competition apart, to be stored between calls. The parts
    /// hold every key and submission, and are owed the same care as the
    /// coordinator itself.
    pub fn into_parts(self) -> (parts: CompetitionParts)
        requires
            self.wf(),
        ensures
            parts.submissions.wf(),
            parts@ == self@,
    {
        CompetitionParts {
            user_registry: self.user_registry,
            train_dataset: self.train_dataset,
            test_dataset: self.test_dataset,
            evaluation_program: self.evaluation_program,
            submissions: self.submissions,
            end_timestamp: self.end_timestamp,
        }
    }

    /// The terms of the competition that anyone may read.
    pub fn get_public_state(&self, _ctx: &Context) -> (state: PublicState<'_>)
        ensures
            *state.user_registry == self@.user_registry,
            state.train_dataset@ == self@.train_dataset,
            state.evaluation_program@ == self@.evaluation_program,
            state.end_timestamp == self@.end_timestamp,
    {
        PublicState {
            user_registry: &self.user_registry,
            train_dataset: &self.train_dataset,
            evaluation_program: &self.evaluation_program,
            end_timestamp: self.end_timestamp,
        }
    }

    /// Whether a submission made at the time of `ctx` is still in time.
    pub fn is_accepting_submissions(&self, ctx: &Context) -> (open: bool)
        ensures
            open == window_open(self@, ctx.now),
    {
        ctx.now < self.end_timestamp
    }

    /// The first half of a submission: refuses it once the window has closed,
    /// and otherwise says what to ask the registry.
    pub fn begin_submit(&self, ctx: &Context, participant_auth_token: String) -> (r: Result<
        VerificationRequest,
        Error,
    >)
        ensures
            match r {
                Ok(request) => {
                    &&& window_open(self@, ctx.now)
                    &&& request.registry == self@.user_registry
                    &&& request.context == delegated_context(self@, *ctx)
                    &&& request.token@ == participant_auth_token@
                },
                Err(e) => !window_open(self@, ctx.now) && e == Error::SubmissionsClosed,
            },
    {
        if !self.is_accepting_submissions(ctx) {
            return Err(Error::SubmissionsClosed);
        }
        Ok(
            VerificationRequest {
                registry: self.user_registry,
                context: Context { sender: ctx.callee, callee: self.user_registry, now: ctx.now },
                token: participant_auth_token,
            },
        )
    }

    /// The second half of a submission: stores `model` under the username the
    /// registry verified, in place of any earlier submission of that user.
    /// Any other reply leaves the submissions as they were.
    pub fn finish_submit(&mut self, reply: RegistryReply, model: EncryptedData) -> (r: Result<(), Error>)
        requires
            old(self).wf(),
        ensures
            final(self).wf(),
            (final(self)@, r) == recorded(old(self)@, reply_view(reply), model@),
    {
        match reply {
            Ok(Ok(user_info)) => {
                self.submissions.insert(user_info.name, model);
                Ok(())
            },
            Ok(Err(_)) => Err(Error::PermissionDenied),
            Err(_) => Err(Error::ParticipantRegistryUnreachable),
        }
    }

    /// Takes a participant's submission. Fails with `SubmissionsClosed` once
    /// the deadline has passed, before the registry is asked; with
    /// `ParticipantRegistryUnreachable` where the registry cannot be asked;
    /// and with `PermissionDenied` where it refuses the token. Otherwise the
    /// model becomes the current submission of the user the token names.
    pub fn submit(
        &mut self,
        ctx: &Context,
        registry: &RegistryLink<'_>,
        participant_auth_token: String,
        model: EncryptedData,
    ) -> (r: Result<(), Error>)
        requires
            old(self).wf(),
            registry.wf(),
        ensures
            final(self).wf(),
            (final(self)@, r) == submit_outcome(old(self)@, *ctx, *registry, participant_auth_token@, model@),
    {
        match self.begin_submit(ctx, participant_auth_token) {
            Err(e) => Err(e),
            Ok(request) => {
                let reply = registry.verify_token(&request.context, request.token);
                self.finish_submit(reply, model)
            },
        }
    }

    /// Lets the caller in as the evaluation program, or fails with
    /// `PermissionDenied`: while the window is open, or where the measurement
    /// is not the expected one. The two causes are not told apart.
    pub fn authorize_evaluation_program(&self, ctx: &Context, attestation: &AttestationReport) -> (r: Result<
        (),
        Error,
    >)
        ensures
            r == authorize_outcome(self@, ctx.now, attestation.measurement@),
    {
        if self.is_accepting_submissions(ctx) || !same_bytes(&attestation.measurement, &self.evaluation_program.hash) {
            return Err(Error::PermissionDenied);
        }
        Ok(())
    }

    /// Hands the attested evaluation program a copy of the test dataset's key
    /// and of every submission, as they stand.
    pub fn begin_evaluation(&self, ctx: &Context, attestation: AttestationReport) -> (r: Result<
        EvaluationSecrets,
        Error,
    >)
        requires
            self.wf(),
        ensures
            secrets_view(r) == begin_evaluation_outcome(self@, ctx.now, attestation.measurement@),
            r matches Ok(secrets) ==> secrets.submissions.wf(),
    {
        match self.authorize_evaluation_program(ctx, &attestation) {
            Err(e) => Err(e),
            Ok(()) => Ok(
                EvaluationSecrets { test_dataset: self.test_dataset.clone(), submissions: snapshot(&self.submissions) },
            ),
        }
    }

    /// Names the winner. On success returns the fact to put on public record;
    /// the name is taken as given, whether or not that user has a submission.
    pub fn announce_winner(&self, ctx: &Context, attestation: AttestationReport, winner: String) -> (r: Result<
        CompetitionCompleted,
        Error,
    >)
        ensures
            record_view(r) == announce_winner_outcome(self@, ctx.now, attestation.measurement@, winner@),
    {
        match self.authorize_evaluation_program(ctx, &attestation) {
            Err(e) => Err(e),
            Ok(()) => Ok(CompetitionCompleted { winner }),
        }
    }
}

} // verus!
