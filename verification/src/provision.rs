//! How a session comes to its bot: accounts, conversion, profiles and memberships.
use vstd::prelude::*;
use crate::directory::{bot_session, law_addresses_bind_bots, live_user, speaks_for};
use crate::error::WireError;
use crate::ident::{hyphenated_text, SessionId};
use crate::json::{Json, Tree};
use crate::model::{bound_session, law_users_are_bound, opt_property_map, property, property_map, session_from_properties, Bot, BoundChannel, Property, ProvisionalUser, User, SESSION_PROPERTY};
use crate::request::{account_body, bot_body, convert_account, create_account, fresh_password, get_view, is_random_uuid, join_channel, join_team, law_accounts_are_bound, law_profiles_hold_their_parts, password_text, post_view, put_view, update_bot, user, user_named, Method, Request, RequestView};
use crate::session::{candidate_texts, configuration_error, display_text, email_text, law_candidates, session_email, Session};
use crate::text::{glue3, listed, opt_text, same, texts};

verus! {

/// Why a session gets no bot when all its names are taken.
pub const NO_USERNAME: &'static str = "no available Mattermost username for this session";

/// Whether an account belongs to a session: by its address, or by its binding.
pub open spec fn owned(user: ProvisionalUser, session: SessionId) -> bool {
    user.email@ == email_text(session) || bound_session(opt_property_map(user.props)) == Some(
        session,
    )
}

/// The names that a session may take, of which one is being tried.
#[derive(Debug, PartialEq, Eq)]
pub struct Trial {
    pub session: Session,
    pub candidates: Vec<String>,
    pub at: usize,
}

impl Trial {
    pub open spec fn wf(self) -> bool {
        texts(self.candidates@) == candidate_texts(self.session.id, opt_text(self.session.title))
            && self.at < self.candidates@.len()
    }

    /// The name that is being tried.
    pub open spec fn name(self) -> Seq<char> {
        self.candidates@[self.at as int]@
    }
}

/// The search for an account that is, or can be made, the session's own, by what is to be done
/// next. Answers to requests go to `found` or `created`.
#[derive(Debug, PartialEq, Eq)]
pub enum Provision {
    /// Look for an account of the name that is being tried.
    LookUp { request: Request, trial: Trial },
    /// Create one.
    Create { request: Request, trial: Trial },
    /// Look again: another may have created one meanwhile.
    LookAgain { request: Request, trial: Trial },
    /// This account is to be made into the session's bot.
    Convert { user: ProvisionalUser, session: Session },
    Failed(WireError),
}

/// The search, about to look for an account of the name that is being tried.
pub open spec fn looks_up(next: Provision, session: Session, at: int) -> bool {
    &&& next is LookUp
    &&& next->LookUp_trial.wf()
    &&& next->LookUp_trial.session == session
    &&& next->LookUp_trial.at == at
    &&& next->LookUp_request@ == get_view("/users/username/"@ + next->LookUp_trial.name())
}

/// The search, once the name that is being tried is given up.
pub open spec fn moves_on(trial: Trial, next: Provision) -> bool {
    if trial.at + 1 < trial.candidates@.len() {
        looks_up(next, trial.session, trial.at + 1)
    } else {
        next is Failed && configuration_error(Err::<(), WireError>(next->Failed_0), NO_USERNAME@)
    }
}

/// The search, once an account of the name was found or created.
pub open spec fn judges(trial: Trial, user: ProvisionalUser, next: Provision) -> bool {
    if owned(user, trial.session.id) {
        next == (Provision::Convert { user, session: trial.session })
    } else {
        moves_on(trial, next)
    }
}

/// The request for a new account, with a password that nobody knows.
pub open spec fn creates(request: RequestView, trial: Trial) -> bool {
    exists|secret: u128|
        is_random_uuid(secret) && request == post_view(
            "/users"@,
            account_body(
                trial.session.id,
                opt_text(trial.session.title),
                trial.name(),
                email_text(trial.session.id),
                #[trigger] password_text(secret),
            ),
        )
}

/// What the answer to a look makes of the search.
pub open spec fn provision_found(
    search: Provision,
    result: Result<Option<ProvisionalUser>, WireError>,
    next: Provision,
) -> bool {
    match (search, result) {
        (Provision::LookUp { trial, .. }, Ok(Some(user))) => judges(trial, user, next),
        (Provision::LookUp { trial, .. }, Ok(None)) => {
            &&& next is Create
            &&& next->Create_trial == trial
            &&& creates(next->Create_request@, trial)
        },
        (Provision::LookAgain { trial, .. }, Ok(Some(user))) => judges(trial, user, next),
        (Provision::LookAgain { trial, .. }, Ok(None)) => moves_on(trial, next),
        (Provision::LookUp { .. }, Err(error)) => next == Provision::Failed(error),
        (Provision::LookAgain { .. }, Err(error)) => next == Provision::Failed(error),
        _ => next == search,
    }
}

/// What the answer to a creation makes of the search. A refusal as a bad request may mean that
/// another was faster.
pub open spec fn provision_created(
    search: Provision,
    result: Result<ProvisionalUser, WireError>,
    next: Provision,
) -> bool {
    match (search, result) {
        (Provision::Create { trial, .. }, Ok(user)) => judges(trial, user, next),
        (Provision::Create { trial, .. }, Err(error)) => if error is Response && error->status
            == 400 {
            &&& next is LookAgain
            &&& next->LookAgain_trial == trial
            &&& next->LookAgain_request@ == get_view("/users/username/"@ + trial.name())
        } else {
            next == Provision::Failed(error)
        },
        _ => next == search,
    }
}

/// The search is sound: the name that is being tried is one of the session's.
pub open spec fn sound(search: Provision) -> bool {
    match search {
        Provision::LookUp { trial, .. } => trial.wf(),
        Provision::Create { trial, .. } => trial.wf(),
        Provision::LookAgain { trial, .. } => trial.wf(),
        _ => true,
    }
}

impl Provision {
    /// A search that has not begun.
    pub fn begin(session: Session) -> (r: Provision)
        ensures
            looks_up(r, session, 0),
    {
        let candidates = session.username_candidates();
        proof {
            law_candidates(session.id, opt_text(session.title));
            assert(texts(candidates@).len() == candidates@.len());
        }
        Provision::look_up(Trial { session, candidates, at: 0 })
    }

    fn look_up(trial: Trial) -> (r: Provision)
        requires
            trial.wf(),
        ensures
            looks_up(r, trial.session, trial.at as int),
    {
        Provision::LookUp { request: user_named(trial.candidates[trial.at].as_str()), trial }
    }

    fn move_on(trial: Trial) -> (r: Provision)
        requires
            trial.wf(),
        ensures
            moves_on(trial, r),
    {
        let Trial { session, candidates, at } = trial;
        if at < candidates.len() - 1 {
            Provision::look_up(Trial { session, candidates, at: at + 1 })
        } else {
            Provision::Failed(WireError::Configuration(NO_USERNAME.to_owned()))
        }
    }

    fn judge(trial: Trial, user: ProvisionalUser) -> (r: Provision)
        requires
            trial.wf(),
        ensures
            judges(trial, user, r),
    {
        let email = trial.session.provisional_email();
        let bound = match session_from_properties(&user.props) {
            Some(id) => id == trial.session.id,
            None => false,
        };
        if same(user.email.as_str(), email.as_str()) || bound {
            Provision::Convert { user, session: trial.session }
        } else {
            Provision::move_on(trial)
        }
    }

    /// What the answer to a look makes of the search. One that does not look stays as it is.
    pub fn found(self, result: Result<Option<ProvisionalUser>, WireError>) -> (r: Provision)
        requires
            sound(self),
        ensures
            sound(r),
            provision_found(self, result, r),
    {
        match self {
            Provision::LookUp { request: _, trial } => match result {
                Ok(Some(user)) => Provision::judge(trial, user),
                Ok(None) => {
                    let email = trial.session.provisional_email();
                    let password = fresh_password();
                    let request = create_account(
                        &trial.session,
                        trial.candidates[trial.at].as_str(),
                        email.as_str(),
                        password.as_str(),
                    );
                    proof {
                        let secret = choose|secret: u128|
                            password@ == #[trigger] password_text(secret) && is_random_uuid(secret);
                        assert(password@ == password_text(secret));
                    }
                    Provision::Create { request, trial }
                },
                Err(error) => Provision::Failed(error),
            },
            Provision::LookAgain { request: _, trial } => match result {
                Ok(Some(user)) => Provision::judge(trial, user),
                Ok(None) => Provision::move_on(trial),
                Err(error) => Provision::Failed(error),
            },
            other => other,
        }
    }

    /// What the answer to a creation makes of the search. One that does not create stays as it is.
    pub fn created(self, result: Result<ProvisionalUser, WireError>) -> (r: Provision)
        requires
            sound(self),
        ensures
            sound(r),
            provision_created(self, result, r),
    {
        match self {
            Provision::Create { request: _, trial } => match result {
                Ok(user) => Provision::judge(trial, user),
                Err(error) => if error.answered(400) {
                    Provision::LookAgain {
                        request: user_named(trial.candidates[trial.at].as_str()),
                        trial,
                    }
                } else {
                    Provision::Failed(error)
                },
            },
            other => other,
        }
    }
}

/// The trial of a search that still tries names.
pub open spec fn trial_of(search: Provision) -> Option<Trial> {
    match search {
        Provision::LookUp { trial, .. } => Some(trial),
        Provision::Create { trial, .. } => Some(trial),
        Provision::LookAgain { trial, .. } => Some(trial),
        _ => None,
    }
}

/// Only an account of the session's own is ever made into its bot; names are tried in their order,
/// none is skipped, and the search gives up only after the last of them.
pub proof fn law_provisioning(
    search: Provision,
    found: Result<Option<ProvisionalUser>, WireError>,
    created: Result<ProvisionalUser, WireError>,
    next: Provision,
)
    requires
        trial_of(search) is Some,
        sound(search),
        provision_found(search, found, next) || provision_created(search, created, next),
    ensures
        ({
            let trial = trial_of(search)->Some_0;
            &&& next is Convert ==> owned(next->user, trial.session.id) && next->session
                == trial.session
            &&& trial_of(next) matches Some(later) ==> later.session == trial.session && (later.at
                == trial.at || later.at == trial.at + 1)
            &&& configuration_error(Err::<(), WireError>(next->Failed_0), NO_USERNAME@)
                && next is Failed ==> trial.at + 1 == trial.candidates@.len() || found == Err::<
                Option<ProvisionalUser>,
                WireError,
            >(next->Failed_0) || created == Err::<ProvisionalUser, WireError>(next->Failed_0)
        }),
{
}

/// Making an account into a bot, by what is to be done next. Answers go to `looked` or `converted`.
#[derive(Debug, PartialEq, Eq)]
pub enum Conversion {
    /// See whether the account is a bot already.
    Look { request: Request, user_id: String },
    /// Convert it.
    Convert { request: Request, user_id: String },
    /// See whether it became one all the same.
    LookAgain { request: Request, error: WireError },
    /// The bot is there.
    Ready(Bot),
    Failed(WireError),
}

/// A conversion that has not begun: it is seen whether the account is a bot already.
pub open spec fn conversion_begins(user_id: Seq<char>, next: Conversion) -> bool {
    &&& next is Look
    &&& next->Look_user_id@ == user_id
    &&& next->Look_request@ == get_view("/bots/"@ + user_id)
}

/// What the answer to a look makes of a conversion.
pub open spec fn conversion_looked(
    conversion: Conversion,
    result: Result<Option<Bot>, WireError>,
    next: Conversion,
) -> bool {
    match (conversion, result) {
        (Conversion::Look { .. }, Ok(Some(bot))) => next == Conversion::Ready(bot),
        (Conversion::LookAgain { .. }, Ok(Some(bot))) => next == Conversion::Ready(bot),
        (Conversion::Look { user_id, .. }, Ok(None)) => {
            &&& next is Convert
            &&& next->Convert_user_id == user_id
            &&& next->Convert_request@ == post_view(
                "/users/"@ + user_id@ + "/convert_to_bot"@,
                Tree::Object(Map::empty()),
            )
        },
        (Conversion::LookAgain { error, .. }, Ok(None)) => next == Conversion::Failed(error),
        (Conversion::Look { .. }, Err(error)) => next == Conversion::Failed(error),
        (Conversion::LookAgain { .. }, Err(error)) => next == Conversion::Failed(error),
        _ => next == conversion,
    }
}

/// What the answer to the conversion itself makes of it.
pub open spec fn conversion_converted(
    conversion: Conversion,
    result: Result<Bot, WireError>,
    next: Conversion,
) -> bool {
    match (conversion, result) {
        (Conversion::Convert { .. }, Ok(bot)) => next == Conversion::Ready(bot),
        (Conversion::Convert { user_id, .. }, Err(error)) => {
            &&& next is LookAgain
            &&& next->LookAgain_request@ == get_view("/bots/"@ + user_id@)
            &&& next->error == error
        },
        _ => next == conversion,
    }
}

impl Conversion {
    /// A conversion that has not begun.
    pub fn begin(user_id: &str) -> (r: Conversion)
        ensures
            conversion_begins(user_id@, r),
    {
        Conversion::Look { request: crate::request::bot(user_id), user_id: user_id.to_owned() }
    }

    /// What the answer to a look makes of the conversion. One that does not look stays as it is.
    pub fn looked(self, result: Result<Option<Bot>, WireError>) -> (r: Conversion)
        ensures
            conversion_looked(self, result, r),
    {
        match self {
            Conversion::Look { request: _, user_id } => match result {
                Ok(Some(bot)) => Conversion::Ready(bot),
                Ok(None) => Conversion::Convert { request: convert_account(user_id.as_str()), user_id },
                Err(error) => Conversion::Failed(error),
            },
            Conversion::LookAgain { request: _, error } => match result {
                Ok(Some(bot)) => Conversion::Ready(bot),
                Ok(None) => Conversion::Failed(error),
                Err(other) => Conversion::Failed(other),
            },
            other => other,
        }
    }

    /// What the answer to the conversion itself makes of it. One that does not convert stays as it
    /// is.
    pub fn converted(self, result: Result<Bot, WireError>) -> (r: Conversion)
        ensures
            conversion_converted(self, result, r),
    {
        match self {
            Conversion::Convert { request: _, user_id } => match result {
                Ok(bot) => Conversion::Ready(bot),
                Err(error) => Conversion::LookAgain {
                    request: crate::request::bot(user_id.as_str()),
                    error,
                },
            },
            other => other,
        }
    }
}

/// Properties as a document.
pub open spec fn properties_tree(properties: Map<Seq<char>, Seq<char>>) -> Tree {
    Tree::Object(properties.map_values(|value: Seq<char>| Tree::Text(value)))
}

/// Properties, bound to a session.
pub open spec fn bound_properties(
    properties: Map<Seq<char>, Seq<char>>,
    session: SessionId,
) -> Map<Seq<char>, Seq<char>> {
    properties.insert(SESSION_PROPERTY@, hyphenated_text(session.value))
}

fn properties_json(properties: &Option<Vec<Property>>) -> (r: Json)
    ensures
        r is Object,
        r.settled(),
        r.tree() == properties_tree(opt_property_map(*properties)),
{
    let mut out = Json::object();
    assert(Map::<Seq<char>, Tree>::empty() =~= Map::<Seq<char>, Seq<char>>::empty().map_values(
        |value: Seq<char>| Tree::Text(value),
    ));
    match properties {
        Some(list) => {
            let mut i: usize = 0;
            while i < list.len()
                invariant
                    i <= list@.len(),
                    *properties == Some(*list),
                    out is Object,
                    out.settled(),
                    out.tree() == properties_tree(property_map(list@.take(i as int))),
                decreases list@.len() - i,
            {
                assert(list@.take(i + 1).drop_last() == list@.take(i as int));
                let ghost before = property_map(list@.take(i as int));
                let ghost key = list@[i as int].key@;
                let ghost value = list@[i as int].value@;
                out = out.with(list[i].key.as_str(), Json::string(list[i].value.as_str()));
                assert(before.insert(key, value).map_values(|value: Seq<char>| Tree::Text(value))
                    =~= before.map_values(|value: Seq<char>| Tree::Text(value)).insert(
                    key,
                    Tree::Text(value),
                ));
                i += 1;
            }
            assert(list@.take(i as int) == list@);
        },
        None => {},
    }
    out
}

/// The request that binds a user to a session: by the synthetic address, and by a property beside
/// the others, which are kept.
pub open spec fn bind_view(user: User, user_id: Seq<char>, session: SessionId) -> RequestView {
    put_view(
        "/users/"@ + user_id + "/patch"@,
        Tree::Object(
            map![
                "email"@ => Tree::Text(email_text(session)),
                "props"@ => properties_tree(
                    bound_properties(opt_property_map(user.props), session),
                ),
            ],
        ),
    )
}

fn bind_user(user: &User, user_id: &str, session: SessionId) -> (r: Request)
    ensures
        r@ == bind_view(*user, user_id@, session),
{
    let props = properties_json(&user.props).with(SESSION_PROPERTY, Json::Text(session.text()));
    proof {
        let before = opt_property_map(user.props);
        let value = hyphenated_text(session.value);
        assert(before.insert(SESSION_PROPERTY@, value).map_values(
            |value: Seq<char>| Tree::Text(value),
        ) =~= before.map_values(|value: Seq<char>| Tree::Text(value)).insert(
            SESSION_PROPERTY@,
            Tree::Text(value),
        ));
    }
    Request {
        method: Method::Put,
        path: glue3("/users/", user_id, "/patch"),
        body: Some(
            Json::object().with("email", Json::Text(session_email(session))).with("props", props),
        ),
    }
}

/// Whether a user is bound to a session: it has the session's address, and its properties name the
/// session in its own form.
pub open spec fn is_bound(user: User, session: SessionId) -> bool {
    let properties = opt_property_map(user.props);
    user.email@ == email_text(session) && properties.dom().contains(SESSION_PROPERTY@) && properties[SESSION_PROPERTY@]
        == hyphenated_text(session.value)
}

/// Bringing a bot's binding and profile up to date, by what is to be done next. Answers go to
/// `user_read`, `bound`, `searched` or `updated`.
#[derive(Debug, PartialEq, Eq)]
pub enum ProfileSync {
    /// Read the bot's user.
    Read { request: Request, session: Session, bot: Bot },
    /// Bind it to the session.
    Bind { request: Request, session: Session, bot: Bot },
    /// See whether a name is free, or the bot's own.
    Search { request: Request, trial: Trial, bot: Bot },
    /// Give the bot its profile.
    Update { request: Request },
    Done(Result<Bot, WireError>),
}

/// The request that gives a bot its name and label; its description is kept.
pub open spec fn profile_view(session: Session, bot: Bot, username: Seq<char>) -> RequestView {
    put_view(
        "/bots/"@ + bot.user_id@,
        bot_body(
            username,
            display_text(session.id, opt_text(session.title)),
            match opt_text(bot.description) {
                Some(description) => description,
                None => ""@,
            },
        ),
    )
}

/// A profile, about to see whether a name is free.
pub open spec fn searches(next: ProfileSync, session: Session, bot: Bot, at: int) -> bool {
    &&& next is Search
    &&& next->Search_trial.wf()
    &&& next->Search_trial.session == session
    &&& next->Search_trial.at == at
    &&& next->Search_bot == bot
    &&& next->Search_request@ == get_view("/users/username/"@ + next->Search_trial.name())
}

/// What becomes of the profile of a bot that is bound: nothing where it is right, a new label where
/// its name is one of the session's, and otherwise a new name too.
pub open spec fn settles(next: ProfileSync, session: Session, bot: Bot) -> bool {
    let title = opt_text(session.title);
    let named = candidate_texts(session.id, title).contains(bot.username@);
    if named && bot.display_name@ == display_text(session.id, title) {
        next == ProfileSync::Done(Ok(bot))
    } else if named {
        next is Update && next->Update_request@ == profile_view(session, bot, bot.username@)
    } else {
        searches(next, session, bot, 0)
    }
}

/// Work that has not begun: the bot's user is read.
pub open spec fn sync_begins(session: Session, bot: Bot, next: ProfileSync) -> bool {
    &&& next is Read
    &&& next->Read_session == session
    &&& next->Read_bot == bot
    &&& next->Read_request@ == get_view("/users/"@ + bot.user_id@)
}

/// What the bot's user makes of the work.
pub open spec fn sync_user_read(
    sync: ProfileSync,
    result: Result<User, WireError>,
    next: ProfileSync,
) -> bool {
    match (sync, result) {
        (ProfileSync::Read { session, bot, .. }, Ok(user)) => if is_bound(user, session.id) {
            settles(next, session, bot)
        } else {
            &&& next is Bind
            &&& next->Bind_session == session
            &&& next->Bind_bot == bot
            &&& next->Bind_request@ == bind_view(user, bot.user_id@, session.id)
        },
        (ProfileSync::Read { .. }, Err(error)) => next == ProfileSync::Done(Err(error)),
        _ => next == sync,
    }
}

/// What the search for a name makes of the work. A name is free where no user has it, or the bot
/// itself.
pub open spec fn sync_searched(
    sync: ProfileSync,
    result: Result<Option<User>, WireError>,
    next: ProfileSync,
) -> bool {
    match (sync, result) {
        (ProfileSync::Search { trial, bot, .. }, Ok(holder)) => if holder is None
            || holder->Some_0.id@ == bot.user_id@ {
            next is Update && next->Update_request@ == profile_view(
                trial.session,
                bot,
                trial.name(),
            )
        } else if trial.at + 1 < trial.candidates@.len() {
            searches(next, trial.session, bot, trial.at + 1)
        } else {
            next is Done && configuration_error(next->Done_0, NO_USERNAME@)
        },
        (ProfileSync::Search { .. }, Err(error)) => next == ProfileSync::Done(Err(error)),
        _ => next == sync,
    }
}

/// The names that are searched are the session's.
pub open spec fn sync_sound(sync: ProfileSync) -> bool {
    sync is Search ==> sync->Search_trial.wf()
}

/// What the binding makes of the work.
pub open spec fn sync_bound(
    sync: ProfileSync,
    result: Result<(), WireError>,
    next: ProfileSync,
) -> bool {
    match (sync, result) {
        (ProfileSync::Bind { session, bot, .. }, Ok(_)) => settles(next, session, bot),
        (ProfileSync::Bind { .. }, Err(error)) => next == ProfileSync::Done(Err(error)),
        _ => next == sync,
    }
}

/// What the new profile makes of the work.
pub open spec fn sync_updated(
    sync: ProfileSync,
    result: Result<Bot, WireError>,
    next: ProfileSync,
) -> bool {
    if sync is Update {
        next == ProfileSync::Done(result)
    } else {
        next == sync
    }
}

fn set_profile(session: &Session, bot: &Bot, username: &str) -> (r: Request)
    ensures
        r@ == profile_view(*session, *bot, username@),
{
    let display_name = session.display_name();
    let description = match &bot.description {
        Some(description) => description.as_str(),
        None => "",
    };
    update_bot(bot.user_id.as_str(), username, display_name.as_str(), description)
}

impl ProfileSync {
    /// Work that has not begun.
    pub fn begin(session: Session, bot: Bot) -> (r: ProfileSync)
        ensures
            sync_begins(session, bot, r),
    {
        ProfileSync::Read { request: user(bot.user_id.as_str()), session, bot }
    }

    fn settle(session: Session, bot: Bot) -> (r: ProfileSync)
        ensures
            settles(r, session, bot),
            sync_sound(r),
    {
        let display_name = session.display_name();
        let candidates = session.username_candidates();
        let named = listed(&candidates, bot.username.as_str());
        if named && same(bot.display_name.as_str(), display_name.as_str()) {
            return ProfileSync::Done(Ok(bot));
        }
        if named {
            return ProfileSync::Update {
                request: set_profile(&session, &bot, bot.username.as_str()),
            };
        }
        proof {
            law_candidates(session.id, opt_text(session.title));
            assert(texts(candidates@).len() == candidates@.len());
        }
        let request = user_named(candidates[0].as_str());
        ProfileSync::Search { request, trial: Trial { session, candidates, at: 0 }, bot }
    }

    /// What the bot's user makes of the work. Work that awaits none stays as it is.
    pub fn user_read(self, result: Result<User, WireError>) -> (r: ProfileSync)
        requires
            sync_sound(self),
        ensures
            sync_sound(r),
            sync_user_read(self, result, r),
    {
        match self {
            ProfileSync::Read { request: _, session, bot } => match result {
                Ok(user) => {
                    let text = session.id.text();
                    let email = session.provisional_email();
                    let named = match property(&user.props, SESSION_PROPERTY) {
                        Some(value) => same(value.as_str(), text.as_str()),
                        None => false,
                    };
                    if named && same(user.email.as_str(), email.as_str()) {
                        ProfileSync::settle(session, bot)
                    } else {
                        ProfileSync::Bind {
                            request: bind_user(&user, bot.user_id.as_str(), session.id),
                            session,
                            bot,
                        }
                    }
                },
                Err(error) => ProfileSync::Done(Err(error)),
            },
            other => other,
        }
    }

    /// What the binding makes of the work. Work that awaits none stays as it is.
    pub fn bound(self, result: Result<(), WireError>) -> (r: ProfileSync)
        requires
            sync_sound(self),
        ensures
            sync_sound(r),
            sync_bound(self, result, r),
    {
        match self {
            ProfileSync::Bind { request: _, session, bot } => match result {
                Ok(()) => ProfileSync::settle(session, bot),
                Err(error) => ProfileSync::Done(Err(error)),
            },
            other => other,
        }
    }

    /// What the search for a name makes of the work. Work that awaits none stays as it is.
    pub fn searched(self, result: Result<Option<User>, WireError>) -> (r: ProfileSync)
        requires
            sync_sound(self),
        ensures
            sync_sound(r),
            sync_searched(self, result, r),
    {
        match self {
            ProfileSync::Search { request: _, trial, bot } => {
                let holder = match result {
                    Ok(holder) => holder,
                    Err(error) => return ProfileSync::Done(Err(error)),
                };
                let free = match &holder {
                    Some(user) => same(user.id.as_str(), bot.user_id.as_str()),
                    None => true,
                };
                if free {
                    return ProfileSync::Update {
                        request: set_profile(
                            &trial.session,
                            &bot,
                            trial.candidates[trial.at].as_str(),
                        ),
                    };
                }
                let Trial { session, candidates, at } = trial;
                if at < candidates.len() - 1 {
                    let request = user_named(candidates[at + 1].as_str());
                    ProfileSync::Search {
                        request,
                        trial: Trial { session, candidates, at: at + 1 },
                        bot,
                    }
                } else {
                    ProfileSync::Done(Err(WireError::Configuration(NO_USERNAME.to_owned())))
                }
            },
            other => other,
        }
    }

    /// What the new profile makes of the work. Work that awaits none stays as it is.
    pub fn updated(self, result: Result<Bot, WireError>) -> (r: ProfileSync)
        requires
            sync_sound(self),
        ensures
            sync_sound(r),
            sync_updated(self, result, r),
    {
        match self {
            ProfileSync::Update { request: _ } => ProfileSync::Done(result),
            other => other,
        }
    }
}

/// Binding keeps every other property, and afterwards the user is bound to the session in its own
/// form, so that no second binding follows.
pub proof fn law_binding_converges(
    properties: Map<Seq<char>, Seq<char>>,
    session: SessionId,
    key: Seq<char>,
)
    ensures
        bound_session(bound_properties(properties, session)) == Some(session),
        bound_properties(bound_properties(properties, session), session) == bound_properties(
            properties,
            session,
        ),
        key != SESSION_PROPERTY@ && properties.dom().contains(key) ==> bound_properties(
            properties,
            session,
        ).dom().contains(key) && bound_properties(properties, session)[key] == properties[key],
{
    crate::model::law_binding_reads_back(properties, session);
    assert(bound_properties(bound_properties(properties, session), session) =~= bound_properties(
        properties,
        session,
    ));
}

/// A user that has what the binding request gives it is bound, so that no second binding follows,
/// and its bot is the session's whatever its description comes to say.
pub proof fn law_bindings_hold(user: User, session: SessionId, later: User, bot: Bot, users: Seq<User>)
    requires
        later.email@ == email_text(session),
        opt_property_map(later.props) == bound_properties(opt_property_map(user.props), session),
        live_user(users, bot.user_id@) == Some(later),
    ensures
        is_bound(later, session),
        bot_session(bot, users) == Some(session),
        speaks_for(bot, users, session),
{
    law_addresses_bind_bots(bot, users, session, session);
}

/// A bot's profile is left alone until its user is bound to the session, by address and property.
pub proof fn law_binding_comes_first(
    sync: ProfileSync,
    result: Result<User, WireError>,
    next: ProfileSync,
)
    requires
        sync is Read,
        sync_user_read(sync, result, next),
        next is Search || next is Update || (next is Done && next->Done_0 is Ok),
    ensures
        result is Ok,
        is_bound(result->Ok_0, sync->Read_session.id),
{
}

/// Whatever profile a bot is given, its description is kept: only a new biography replaces it.
pub proof fn law_profiles_keep_descriptions(session: Session, bot: Bot, username: Seq<char>)
    requires
        bot.description is Some,
    ensures
        profile_view(session, bot, username).body is Some,
        profile_view(session, bot, username).body->Some_0.get("description"@) == Some(
            Tree::Text(bot.description->Some_0@),
        ),
{
    reveal_strlit("username");
    reveal_strlit("display_name");
    reveal_strlit("description");
    assert("description"@.len() == 11);
    assert("display_name"@.len() == 12);
    assert("username"@.len() == 8);
}

/// How a session comes to its bot.
#[derive(Debug, PartialEq, Eq)]
pub enum Coming {
    /// It has one, which is brought up to date.
    Known(ProfileSync),
    /// It has none yet, and one is provided.
    New(Provision),
}

/// How a session comes to its bot: the one that was found is brought up to date, and where none was
/// found one is provided.
pub open spec fn comes(found: Option<Bot>, session: Session, r: Coming) -> bool {
    match found {
        Some(bot) => {
            &&& r is Known
            &&& r->Known_0 is Read
            &&& r->Known_0->Read_session == session
            &&& r->Known_0->Read_bot == bot
            &&& r->Known_0->Read_request@ == get_view("/users/"@ + bot.user_id@)
        },
        None => r is New && looks_up(r->New_0, session, 0),
    }
}

/// How a session comes to its bot: the one that was found is brought up to date, and where none
/// was found one is provided.
pub fn ensure_bot(found: Option<Bot>, session: Session) -> (r: Coming)
    ensures
        comes(found, session, r),
{
    match found {
        Some(bot) => Coming::Known(ProfileSync::begin(session, bot)),
        None => Coming::New(Provision::begin(session)),
    }
}

/// What a bot is to belong to.
#[derive(Debug, PartialEq, Eq)]
pub enum Place {
    Team { team_id: String },
    Channel { channel_id: String },
}

/// What a bot belongs to that speaks in a channel: the team first, then the channel.
pub open spec fn places_of(channel: BoundChannel) -> (Place, Place) {
    (
        Place::Team { team_id: channel.team.id },
        Place::Channel { channel_id: channel.channel.id },
    )
}

/// What a bot belongs to that speaks in a channel: the team first, then the channel.
pub fn places(channel: &BoundChannel) -> (r: (Place, Place))
    ensures
        r == places_of(*channel),
{
    (
        Place::Team { team_id: channel.team.id.clone() },
        Place::Channel { channel_id: channel.channel.id.clone() },
    )
}

/// The request that tells whether a user belongs to a place.
pub open spec fn probe_view(place: Place, user_id: Seq<char>) -> RequestView {
    match place {
        Place::Team { team_id } => get_view("/teams/"@ + team_id@ + "/members/"@ + user_id),
        Place::Channel { channel_id } => get_view(
            "/channels/"@ + channel_id@ + "/members/"@ + user_id,
        ),
    }
}

/// The request that takes a user into a place.
pub open spec fn join_view(place: Place, user_id: Seq<char>) -> RequestView {
    match place {
        Place::Team { team_id } => post_view(
            "/teams/"@ + team_id@ + "/members"@,
            Tree::Object(
                map!["team_id"@ => Tree::Text(team_id@), "user_id"@ => Tree::Text(user_id)],
            ),
        ),
        Place::Channel { channel_id } => post_view(
            "/channels/"@ + channel_id@ + "/members"@,
            Tree::Object(
                map!["channel_id"@ => Tree::Text(channel_id@), "user_id"@ => Tree::Text(user_id)],
            ),
        ),
    }
}

fn probe(place: &Place, user_id: &str) -> (r: Request)
    ensures
        r@ == probe_view(*place, user_id@),
{
    match place {
        Place::Team { team_id } => crate::request::team_member(team_id.as_str(), user_id),
        Place::Channel { channel_id } => crate::request::channel_member(
            channel_id.as_str(),
            user_id,
        ),
    }
}

fn join(place: &Place, user_id: &str) -> (r: Request)
    ensures
        r@ == join_view(*place, user_id@),
{
    match place {
        Place::Team { team_id } => join_team(team_id.as_str(), user_id),
        Place::Channel { channel_id } => join_channel(channel_id.as_str(), user_id),
    }
}

/// Making sure that a user belongs to a place, by what is to be done next. Answers go to `probed`
/// or `joined`.
#[derive(Debug, PartialEq, Eq)]
pub enum Relation {
    /// See whether the user belongs already.
    Probe { request: Request, place: Place, user_id: String },
    /// Let the user in.
    Join { request: Request, place: Place, user_id: String },
    /// See whether the user got in all the same.
    ProbeAgain { request: Request, error: WireError },
    /// The user belongs; whether it was let in just now, or why it does not.
    Done(Result<bool, WireError>),
}

/// Work that has not begun: it is seen whether the user belongs already.
pub open spec fn relation_begins(place: Place, user_id: Seq<char>, next: Relation) -> bool {
    &&& next is Probe
    &&& next->Probe_place == place
    &&& next->Probe_user_id@ == user_id
    &&& next->Probe_request@ == probe_view(place, user_id)
}

/// What the answer to a probe makes of the work.
pub open spec fn relation_probed(
    relation: Relation,
    result: Result<bool, WireError>,
    next: Relation,
) -> bool {
    match (relation, result) {
        (Relation::Probe { .. }, Ok(true)) => next == Relation::Done(Ok(false)),
        (Relation::ProbeAgain { .. }, Ok(true)) => next == Relation::Done(Ok(false)),
        (Relation::Probe { place, user_id, .. }, Ok(false)) => {
            &&& next is Join
            &&& next->Join_place == place
            &&& next->Join_user_id == user_id
            &&& next->Join_request@ == join_view(place, user_id@)
        },
        (Relation::ProbeAgain { error, .. }, Ok(false)) => next == Relation::Done(Err(error)),
        (Relation::Probe { .. }, Err(error)) => next == Relation::Done(Err(error)),
        (Relation::ProbeAgain { .. }, Err(error)) => next == Relation::Done(Err(error)),
        _ => next == relation,
    }
}

/// What the answer to an entry makes of the work.
pub open spec fn relation_joined(
    relation: Relation,
    result: Result<(), WireError>,
    next: Relation,
) -> bool {
    match (relation, result) {
        (Relation::Join { .. }, Ok(_)) => next == Relation::Done(Ok(true)),
        (Relation::Join { place, user_id, .. }, Err(error)) => {
            &&& next is ProbeAgain
            &&& next->ProbeAgain_request@ == probe_view(place, user_id@)
            &&& next->error == error
        },
        _ => next == relation,
    }
}

impl Relation {
    /// Work that has not begun.
    pub fn begin(place: Place, user_id: &str) -> (r: Relation)
        ensures
            relation_begins(place, user_id@, r),
    {
        Relation::Probe { request: probe(&place, user_id), place, user_id: user_id.to_owned() }
    }

    /// What the answer to a probe makes of the work. Work that does not probe stays as it is.
    pub fn probed(self, result: Result<bool, WireError>) -> (r: Relation)
        ensures
            relation_probed(self, result, r),
    {
        match self {
            Relation::Probe { request: _, place, user_id } => match result {
                Ok(true) => Relation::Done(Ok(false)),
                Ok(false) => Relation::Join {
                    request: join(&place, user_id.as_str()),
                    place,
                    user_id,
                },
                Err(error) => Relation::Done(Err(error)),
            },
            Relation::ProbeAgain { request: _, error } => match result {
                Ok(true) => Relation::Done(Ok(false)),
                Ok(false) => Relation::Done(Err(error)),
                Err(other) => Relation::Done(Err(other)),
            },
            other => other,
        }
    }

    /// What the answer to an entry makes of the work. Work that lets nobody in stays as it is.
    pub fn joined(self, result: Result<(), WireError>) -> (r: Relation)
        ensures
            relation_joined(self, result, r),
    {
        match self {
            Relation::Join { request: _, place, user_id } => match result {
                Ok(()) => Relation::Done(Ok(true)),
                Err(error) => Relation::ProbeAgain {
                    request: probe(&place, user_id.as_str()),
                    error,
                },
            },
            other => other,
        }
    }
}

/// An account belongs to a session where it has the session's address, or where the last of its
/// properties `wire_session` spells the session; an account with neither belongs to another.
pub proof fn law_own_accounts(
    user: ProvisionalUser,
    properties: Vec<Property>,
    at: int,
    session: SessionId,
)
    ensures
        user.email@ == email_text(session) ==> owned(user, session),
        user.props == Some(properties) && 0 <= at < properties@.len() && properties@[at].key@
            == "wire_session"@ && properties@[at].value@ == hyphenated_text(session.value) && (
        forall|i: int|
            at < i < properties@.len() ==> (#[trigger] properties@[i]).key@ != "wire_session"@)
            ==> owned(user, session),
        user.email@ != email_text(session) && user.props is None ==> !owned(user, session),
        user.email@ != email_text(session) && user.props == Some(properties) && (forall|i: int|
            0 <= i < properties@.len() ==> (#[trigger] properties@[i]).key@ != "wire_session"@)
            ==> !owned(user, session),
{
    law_users_are_bound(properties, at, session);
}

/// A name that nobody has is taken: an account of that name is created, bound to the session and with
/// its address, and made into its bot. One that another was faster with is looked at again.
pub proof fn law_new_bots(
    trial: Trial,
    request: Request,
    creating: Provision,
    user: ProvisionalUser,
    error: WireError,
    made: Provision,
    refused: Provision,
)
    requires
        trial.wf(),
        provision_found(Provision::LookUp { request, trial }, Ok(None), creating),
        owned(user, trial.session.id),
        provision_created(creating, Ok(user), made),
        provision_created(creating, Err(error), refused),
    ensures
        creating is Create,
        creating->Create_request@.method == Method::Post,
        creating->Create_request@.path == "/users"@,
        creating->Create_request@.body is Some,
        creating->Create_request@.body->Some_0.get("username"@) == Some(
            Tree::Text(
                candidate_texts(trial.session.id, opt_text(trial.session.title))[trial.at as int],
            ),
        ),
        creating->Create_request@.body->Some_0.get("email"@) == Some(
            Tree::Text(email_text(trial.session.id)),
        ),
        creating->Create_request@.body->Some_0.at("props"@, "wire_session"@) == Some(
            Tree::Text(hyphenated_text(trial.session.id.value)),
        ),
        made is Convert && made->user == user && made->session == trial.session,
        error is Response && error->status == 400 ==> refused is LookAgain
            && refused->LookAgain_request@.path == "/users/username/"@ + trial.name(),
        !(error is Response && error->status == 400) ==> refused == Provision::Failed(error),
{
    let secret = choose|secret: u128|
        is_random_uuid(secret) && creating->Create_request@ == post_view(
            "/users"@,
            account_body(
                trial.session.id,
                opt_text(trial.session.title),
                trial.name(),
                email_text(trial.session.id),
                #[trigger] password_text(secret),
            ),
        );
    law_accounts_are_bound(
        trial.session.id,
        opt_text(trial.session.title),
        trial.name(),
        email_text(trial.session.id),
        password_text(secret),
    );
    assert(texts(trial.candidates@)[trial.at as int] == trial.name());
}

/// An account of the session's own under one of its names is made into its bot, and one of another is
/// left alone: the next name is looked at, in their order.
pub proof fn law_names_are_tried(
    trial: Trial,
    request: Request,
    user: ProvisionalUser,
    next: Provision,
)
    requires
        trial.wf(),
        provision_found(Provision::LookUp { request, trial }, Ok(Some(user)), next),
    ensures
        owned(user, trial.session.id) ==> next is Convert && next->user == user && next->session
            == trial.session,
        !owned(user, trial.session.id) && trial.at + 1 < trial.candidates@.len() ==> next is LookUp
            && next->LookUp_request@.path == "/users/username/"@ + candidate_texts(
            trial.session.id,
            opt_text(trial.session.title),
        )[trial.at + 1],
        !owned(user, trial.session.id) && trial.at + 1 == trial.candidates@.len() ==> next is Failed
            && configuration_error(
            Err::<(), WireError>(next->Failed_0),
            "no available Mattermost username for this session"@,
        ),
{
    if !owned(user, trial.session.id) && trial.at + 1 < trial.candidates@.len() {
        let later = next->LookUp_trial;
        assert(texts(later.candidates@)[trial.at + 1] == later.candidates@[trial.at + 1]@);
    }
}

/// An account is converted unless it is a bot already; where the conversion fails, it is looked at
/// once more, and the failure stands only where it did not become a bot all the same.
pub proof fn law_conversions(
    request: Request,
    user_id: String,
    bot: Bot,
    error: WireError,
    already: Conversion,
    converting: Conversion,
    converted: Conversion,
    doubting: Conversion,
    relieved: Conversion,
    end: Conversion,
)
    requires
        conversion_looked(Conversion::Look { request, user_id }, Ok(Some(bot)), already),
        conversion_looked(Conversion::Look { request, user_id }, Ok(None), converting),
        conversion_converted(converting, Ok(bot), converted),
        conversion_converted(converting, Err(error), doubting),
        conversion_looked(doubting, Ok(Some(bot)), relieved),
        conversion_looked(doubting, Ok(None), end),
    ensures
        already == Conversion::Ready(bot),
        converting is Convert,
        converting->Convert_request@.method == Method::Post,
        converting->Convert_request@.path == "/users/"@ + user_id@ + "/convert_to_bot"@,
        converted == Conversion::Ready(bot),
        doubting is LookAgain,
        doubting->LookAgain_request@.path == "/bots/"@ + user_id@,
        relieved == Conversion::Ready(bot),
        end == Conversion::Failed(error),
{
}

/// A user that is not bound to the session yet is bound by its address and by a property; the other
/// properties are kept.
pub proof fn law_binding_request(
    user: User,
    user_id: Seq<char>,
    session: SessionId,
    key: Seq<char>,
    value: Seq<char>,
)
    ensures
        bind_view(user, user_id, session).method == Method::Put,
        bind_view(user, user_id, session).path == "/users/"@ + user_id + "/patch"@,
        bind_view(user, user_id, session).body is Some,
        bind_view(user, user_id, session).body->Some_0.get("email"@) == Some(
            Tree::Text(email_text(session)),
        ),
        bind_view(user, user_id, session).body->Some_0.at("props"@, "wire_session"@) == Some(
            Tree::Text(hyphenated_text(session.value)),
        ),
        key != "wire_session"@ && opt_property_map(user.props).dom().contains(key)
            && opt_property_map(user.props)[key] == value ==> bind_view(
            user,
            user_id,
            session,
        ).body->Some_0.at("props"@, key) == Some(Tree::Text(value)),
        user.email@ == email_text(session) && opt_property_map(user.props).dom().contains(
            "wire_session"@,
        ) && opt_property_map(user.props)["wire_session"@] == hyphenated_text(session.value) <==> is_bound(
            user,
            session,
        ),
{
    reveal_strlit("email");
    reveal_strlit("props");
    assert("email"@[0] == 'e' && "props"@[0] == 'p');
}

/// A bot that is bound and rightly named and labelled is left as it is; one with the wrong label gets
/// the right one under its name; one with a wrong name gets the first of the session's names that is
/// free, or its own.
pub proof fn law_profiles_settle(
    session: Session,
    bot: Bot,
    next: ProfileSync,
    holder: Option<User>,
    chosen: ProfileSync,
)
    requires
        settles(next, session, bot),
        next is Search ==> sync_searched(next, Ok(holder), chosen),
    ensures
        ({
            let names = candidate_texts(session.id, opt_text(session.title));
            let label = display_text(session.id, opt_text(session.title));
            &&& names.contains(bot.username@) && bot.display_name@ == label ==> next
                == ProfileSync::Done(Ok(bot))
            &&& names.contains(bot.username@) && bot.display_name@ != label ==> {
                &&& next is Update
                &&& next->Update_request@.path == "/bots/"@ + bot.user_id@
                &&& next->Update_request@.body is Some
                &&& next->Update_request@.body->Some_0.get("username"@) == Some(
                    Tree::Text(bot.username@),
                )
                &&& next->Update_request@.body->Some_0.get("display_name"@) == Some(
                    Tree::Text(label),
                )
            }
            &&& !names.contains(bot.username@) ==> {
                &&& next is Search
                &&& next->Search_request@.path == "/users/username/"@ + names[0]
                &&& holder is None || holder->Some_0.id@ == bot.user_id@ ==> {
                    &&& chosen is Update
                    &&& chosen->Update_request@.path == "/bots/"@ + bot.user_id@
                    &&& chosen->Update_request@.body is Some
                    &&& chosen->Update_request@.body->Some_0.get("username"@) == Some(
                        Tree::Text(names[0]),
                    )
                    &&& chosen->Update_request@.body->Some_0.get("display_name"@) == Some(
                        Tree::Text(label),
                    )
                }
            }
        }),
{
    let label = display_text(session.id, opt_text(session.title));
    let description = match opt_text(bot.description) {
        Some(description) => description,
        None => ""@,
    };
    law_profiles_hold_their_parts(bot.username@, label, description);
    if next is Search {
        let trial = next->Search_trial;
        assert(texts(trial.candidates@)[0] == trial.name());
        law_profiles_hold_their_parts(trial.name(), label, description);
    }
}

/// A name that somebody else has is passed over for the next; after the last there is none.
pub proof fn law_taken_names(
    trial: Trial,
    bot: Bot,
    request: Request,
    holder: User,
    next: ProfileSync,
)
    requires
        trial.wf(),
        holder.id@ != bot.user_id@,
        sync_searched(ProfileSync::Search { request, trial, bot }, Ok(Some(holder)), next),
    ensures
        trial.at + 1 < trial.candidates@.len() ==> next is Search && next->Search_bot == bot
            && next->Search_request@.path == "/users/username/"@ + candidate_texts(
            trial.session.id,
            opt_text(trial.session.title),
        )[trial.at + 1],
        trial.at + 1 == trial.candidates@.len() ==> next is Done && next->Done_0 is Err,
{
    if trial.at + 1 < trial.candidates@.len() {
        let later = next->Search_trial;
        assert(texts(later.candidates@)[trial.at + 1] == later.candidates@[trial.at + 1]@);
    }
}

/// A user who belongs to a place already is left there; one who does not is let in, just there; where
/// that fails it is seen whether the user got in all the same, and the failure stands only where not.
pub proof fn law_memberships(
    place: Place,
    user_id: String,
    request: Request,
    error: WireError,
    already: Relation,
    joining: Relation,
    joined: Relation,
    doubting: Relation,
    relieved: Relation,
    end: Relation,
)
    requires
        relation_probed(Relation::Probe { request, place, user_id }, Ok(true), already),
        relation_probed(Relation::Probe { request, place, user_id }, Ok(false), joining),
        relation_joined(joining, Ok(()), joined),
        relation_joined(joining, Err(error), doubting),
        relation_probed(doubting, Ok(true), relieved),
        relation_probed(doubting, Ok(false), end),
    ensures
        already == Relation::Done(Ok(false)),
        joining is Join,
        joining->Join_request@.method == Method::Post,
        place matches Place::Team { team_id } ==> joining->Join_request@.path == "/teams/"@
            + team_id@ + "/members"@ && joining->Join_request@.body is Some
            && joining->Join_request@.body->Some_0.get("user_id"@) == Some(Tree::Text(user_id@))
            && doubting->ProbeAgain_request@.path == "/teams/"@ + team_id@ + "/members/"@ + user_id@,
        place matches Place::Channel { channel_id } ==> joining->Join_request@.path == "/channels/"@
            + channel_id@ + "/members"@ && joining->Join_request@.body is Some
            && joining->Join_request@.body->Some_0.get("user_id"@) == Some(Tree::Text(user_id@))
            && doubting->ProbeAgain_request@.path == "/channels/"@ + channel_id@ + "/members/"@
            + user_id@,
        joined == Relation::Done(Ok(true)),
        doubting is ProbeAgain && doubting->ProbeAgain_request@.method == Method::Get,
        relieved == Relation::Done(Ok(false)),
        end == Relation::Done(Err(error)),
{
}

/// A session with a bot has that bot's user read first; one without has its best name looked at.
pub proof fn law_coming_to_a_bot(bot: Bot, session: Session, known: Coming, fresh: Coming)
    requires
        comes(Some(bot), session, known),
        comes(None, session, fresh),
    ensures
        known is Known && known->Known_0 is Read,
        known->Known_0->Read_session == session && known->Known_0->Read_bot == bot,
        known->Known_0->Read_request@.path == "/users/"@ + bot.user_id@,
        fresh is New && fresh->New_0 is LookUp,
        fresh->New_0->LookUp_request@.path == "/users/username/"@ + candidate_texts(
            session.id,
            opt_text(session.title),
        )[0],
{
    let trial = fresh->New_0->LookUp_trial;
    assert(texts(trial.candidates@)[0] == trial.name());
}

/// Once its user is bound, a bot's profile is settled as if it had been before; a failure to bind ends
/// the work with just that.
pub proof fn law_bound_profiles_settle(
    request: Request,
    session: Session,
    bot: Bot,
    error: WireError,
    next: ProfileSync,
    failed: ProfileSync,
)
    requires
        sync_bound(ProfileSync::Bind { request, session, bot }, Ok(()), next),
        sync_bound(ProfileSync::Bind { request, session, bot }, Err(error), failed),
    ensures
        settles(next, session, bot),
        failed == ProfileSync::Done(Err(error)),
{
}

/// Who speaks in a channel belongs to its team first and then to it.
pub proof fn law_places(channel: BoundChannel, user_id: Seq<char>)
    ensures
        join_view(places_of(channel).0, user_id).path == "/teams/"@ + channel.team.id@ + "/members"@,
        join_view(places_of(channel).1, user_id).path == "/channels/"@ + channel.channel.id@
            + "/members"@,
        probe_view(places_of(channel).0, user_id).path == "/teams/"@ + channel.team.id@
            + "/members/"@ + user_id,
        probe_view(places_of(channel).1, user_id).path == "/channels/"@ + channel.channel.id@
            + "/members/"@ + user_id,
{
}

/// An account is looked at as a bot before it is converted, a bot's user before its profile changes,
/// and a user in a place before it is let in; a profile that was given is what comes of the work.
pub proof fn law_looks_come_first(
    user_id: Seq<char>,
    conversion: Conversion,
    session: Session,
    bot: Bot,
    sync: ProfileSync,
    place: Place,
    relation: Relation,
    request: Request,
    result: Result<Bot, WireError>,
    end: ProfileSync,
)
    requires
        conversion_begins(user_id, conversion),
        sync_begins(session, bot, sync),
        relation_begins(place, user_id, relation),
        sync_updated(ProfileSync::Update { request }, result, end),
    ensures
        conversion is Look && conversion->Look_user_id@ == user_id
            && conversion->Look_request@.method == Method::Get && conversion->Look_request@.path
            == "/bots/"@ + user_id,
        sync is Read && sync->Read_session == session && sync->Read_bot == bot
            && sync->Read_request@.path == "/users/"@ + bot.user_id@,
        relation is Probe && relation->Probe_place == place && relation->Probe_user_id@ == user_id
            && relation->Probe_request@.method == Method::Get,
        place matches Place::Team { team_id } ==> relation->Probe_request@.path == "/teams/"@
            + team_id@ + "/members/"@ + user_id,
        place matches Place::Channel { channel_id } ==> relation->Probe_request@.path
            == "/channels/"@ + channel_id@ + "/members/"@ + user_id,
        end == ProfileSync::Done(result),
{
}

/// A bot whose user has the session's address and names the session settles its profile at once; any
/// other user is bound to the session first, with what it keeps of its own.
pub proof fn law_users_are_bound_first(
    request: Request,
    session: Session,
    bot: Bot,
    user: User,
    error: WireError,
    next: ProfileSync,
    failed: ProfileSync,
)
    requires
        sync_user_read(ProfileSync::Read { request, session, bot }, Ok(user), next),
        sync_user_read(ProfileSync::Read { request, session, bot }, Err(error), failed),
    ensures
        failed == ProfileSync::Done(Err(error)),
        user.email@ == email_text(session.id) && opt_property_map(user.props).dom().contains(
            "wire_session"@,
        ) && opt_property_map(user.props)["wire_session"@] == hyphenated_text(session.id.value)
            ==> settles(next, session, bot),
        user.email@ != email_text(session.id) || !opt_property_map(user.props).dom().contains(
            "wire_session"@,
        ) || opt_property_map(user.props)["wire_session"@] != hyphenated_text(session.id.value) ==> {
            &&& next is Bind
            &&& next->Bind_session == session
            &&& next->Bind_bot == bot
            &&& next->Bind_request@.method == Method::Put
            &&& next->Bind_request@.path == "/users/"@ + bot.user_id@ + "/patch"@
            &&& next->Bind_request@ == bind_view(user, bot.user_id@, session.id)
        },
{
}

} // verus!
