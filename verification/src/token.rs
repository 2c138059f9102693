//! How a bot comes to its access token: from the keyring, or newly made.
use vstd::prelude::*;
use crate::error::WireError;
use crate::ident::{hyphenated_text, SessionId};
use crate::json::Tree;
use crate::model::{AccessToken, User};
use crate::request::{create_token, get_view, me, post_view, revoke_token, Request, RequestView};
use crate::secret::SESSION_ACCOUNT;
use crate::session::{candidate_texts, Session};
use crate::text::{opt_text, same, texts};

verus! {

/// Whose token is sought, and how far the search has come: account 0 is that of all sessions,
/// account `i + 1` the session's name `i`, under which tokens were kept formerly.
#[derive(Debug, PartialEq, Eq)]
pub struct Quest {
    pub session: Session,
    pub user_id: String,
    pub candidates: Vec<String>,
    pub at: usize,
}

impl Quest {
    pub open spec fn wf(self) -> bool {
        texts(self.candidates@) == candidate_texts(self.session.id, opt_text(self.session.title))
            && self.at <= self.candidates@.len()
    }

    /// The account that is looked at.
    pub open spec fn account(self) -> Seq<char> {
        if self.at == 0 {
            SESSION_ACCOUNT@
        } else {
            self.candidates@[self.at - 1]@
        }
    }

    fn account_name(&self) -> (r: String)
        requires
            self.wf(),
        ensures
            r@ == self.account(),
    {
        if self.at == 0 {
            SESSION_ACCOUNT.to_owned()
        } else {
            self.candidates[self.at - 1].clone()
        }
    }
}

/// The search for a token, by what is to be done next.
#[derive(Debug, PartialEq, Eq)]
pub enum TokenSearch {
    /// Look the session's secret of the account up; the answer goes to `looked_up`.
    LookUp { account: String, quest: Quest },
    /// Ask, with the token, whose it is; the answer goes to `checked`.
    Check { request: Request, token: String, quest: Quest },
    /// Store the token under the account of all sessions; the answer goes to `stored`.
    Store { token: String, quest: Quest },
    /// Clear the former account, come what may; then call `cleared`.
    Clear { account: String, owner: SessionId, token: String },
    /// Ask for a new token; the answer goes to `minted`.
    Mint { request: Request, session: Session },
    /// Store the new token; the answer goes to `kept`.
    Keep { access: AccessToken, session: Session },
    /// Revoke the new token, come what may; then call `revoked`.
    Revoke { request: Request, error: WireError },
    Done(Result<String, WireError>),
}

/// The search, about to look at an account.
pub open spec fn looks_at(next: TokenSearch, quest: Quest, at: int) -> bool {
    &&& next is LookUp
    &&& next->LookUp_quest.wf()
    &&& next->LookUp_quest.session == quest.session
    &&& next->LookUp_quest.user_id == quest.user_id
    &&& next->LookUp_quest.at == at
    &&& next->LookUp_account@ == next->LookUp_quest.account()
}

/// The request for a new token.
pub open spec fn mint_view(session: SessionId, user_id: Seq<char>) -> RequestView {
    post_view(
        "/users/"@ + user_id + "/tokens"@,
        Tree::Object(map!["description"@ => Tree::Text("wire "@ + hyphenated_text(session.value))]),
    )
}

/// The search, once the account that is looked at is given up.
pub open spec fn goes_on(quest: Quest, next: TokenSearch) -> bool {
    if quest.at < quest.candidates@.len() {
        looks_at(next, quest, quest.at + 1)
    } else {
        &&& next is Mint
        &&& next->Mint_request@ == mint_view(quest.session.id, quest.user_id@)
        &&& next->Mint_session == quest.session
    }
}

/// A search that has not begun: the account of all sessions is looked at.
pub open spec fn search_begins(session: Session, user_id: Seq<char>, next: TokenSearch) -> bool {
    &&& next is LookUp
    &&& next->LookUp_account@ == SESSION_ACCOUNT@
    &&& next->LookUp_quest.session == session
    &&& next->LookUp_quest.user_id@ == user_id
    &&& next->LookUp_quest.at == 0
}

/// What a look makes of the search.
pub open spec fn search_looked_up(
    search: TokenSearch,
    result: Result<Option<String>, WireError>,
    next: TokenSearch,
) -> bool {
    match (search, result) {
        (TokenSearch::LookUp { quest, .. }, Ok(Some(token))) => {
            &&& next is Check
            &&& next->Check_request@ == get_view("/users/me"@)
            &&& next->Check_token == token
            &&& next->Check_quest == quest
        },
        (TokenSearch::LookUp { quest, .. }, Ok(None)) => goes_on(quest, next),
        (TokenSearch::LookUp { .. }, Err(error)) => next == TokenSearch::Done(Err(error)),
        _ => next == search,
    }
}

/// What a check makes of the search. A token that Mattermost does not know is nobody's.
pub open spec fn search_checked(
    search: TokenSearch,
    result: Result<User, WireError>,
    next: TokenSearch,
) -> bool {
    match (search, result) {
        (TokenSearch::Check { token, quest, .. }, Ok(user)) => if user.id@ != quest.user_id@ {
            goes_on(quest, next)
        } else if quest.at == 0 {
            next == TokenSearch::Done(Ok(token))
        } else {
            next == (TokenSearch::Store { token, quest })
        },
        (TokenSearch::Check { quest, .. }, Err(error)) => if error is Response && error->status
            == 401 {
            goes_on(quest, next)
        } else {
            next == TokenSearch::Done(Err(error))
        },
        _ => next == search,
    }
}

/// The accounts that are looked at are the session's.
pub open spec fn search_sound(search: TokenSearch) -> bool {
    match search {
        TokenSearch::LookUp { quest, .. } => quest.wf(),
        TokenSearch::Check { quest, .. } => quest.wf(),
        TokenSearch::Store { quest, .. } => quest.wf(),
        _ => true,
    }
}

/// What storing makes of the search.
pub open spec fn search_stored(
    search: TokenSearch,
    result: Result<(), WireError>,
    next: TokenSearch,
) -> bool {
    match (search, result) {
        (TokenSearch::Store { token, quest }, Ok(_)) => {
            &&& next is Clear
            &&& next->Clear_account@ == quest.account()
            &&& next->owner == quest.session.id
            &&& next->Clear_token == token
        },
        (TokenSearch::Store { .. }, Err(error)) => next == TokenSearch::Done(Err(error)),
        _ => next == search,
    }
}

/// What the end of the former account makes of the search.
pub open spec fn search_cleared(
    search: TokenSearch,
    next: TokenSearch,
) -> bool {
    match search {
        TokenSearch::Clear { token, .. } => next == TokenSearch::Done(Ok(token)),
        _ => next == search,
    }
}

/// What a new token makes of the search.
pub open spec fn search_minted(
    search: TokenSearch,
    result: Result<AccessToken, WireError>,
    next: TokenSearch,
) -> bool {
    match (search, result) {
        (TokenSearch::Mint { session, .. }, Ok(access)) => next == (TokenSearch::Keep {
            access,
            session,
        }),
        (TokenSearch::Mint { .. }, Err(error)) => next == TokenSearch::Done(Err(error)),
        _ => next == search,
    }
}

/// What storing the new token makes of the search. A token that cannot be stored is revoked.
pub open spec fn search_kept(
    search: TokenSearch,
    result: Result<(), WireError>,
    next: TokenSearch,
) -> bool {
    match (search, result) {
        (TokenSearch::Keep { access, .. }, Ok(_)) => next == TokenSearch::Done(
            Ok(access.token),
        ),
        (TokenSearch::Keep { access, .. }, Err(error)) => {
            &&& next is Revoke
            &&& next->Revoke_request@ == post_view(
                "/users/tokens/revoke"@,
                Tree::Object(map!["token_id"@ => Tree::Text(access.id@)]),
            )
            &&& next->error == error
        },
        _ => next == search,
    }
}

/// What the end of the new token makes of the search.
pub open spec fn search_revoked(
    search: TokenSearch,
    next: TokenSearch,
) -> bool {
    match search {
        TokenSearch::Revoke { error, .. } => next == TokenSearch::Done(Err(error)),
        _ => next == search,
    }
}

impl TokenSearch {
    /// A search that has not begun.
    pub fn begin(session: Session, user_id: &str) -> (r: TokenSearch)
        ensures
            search_sound(r),
            search_begins(session, user_id@, r),
    {
        let candidates = session.username_candidates();
        TokenSearch::LookUp {
            account: SESSION_ACCOUNT.to_owned(),
            quest: Quest { session, user_id: user_id.to_owned(), candidates, at: 0 },
        }
    }

    fn go_on(quest: Quest) -> (r: TokenSearch)
        requires
            quest.wf(),
        ensures
            goes_on(quest, r),
            search_sound(r),
    {
        let Quest { session, user_id, candidates, at } = quest;
        if at < candidates.len() {
            let quest = Quest { session, user_id, candidates, at: at + 1 };
            TokenSearch::LookUp { account: quest.account_name(), quest }
        } else {
            TokenSearch::Mint { request: create_token(user_id.as_str(), session.id), session }
        }
    }

    /// What a look makes of the search. One that does not look stays as it is.
    pub fn looked_up(self, result: Result<Option<String>, WireError>) -> (r: TokenSearch)
        requires
            search_sound(self),
        ensures
            search_sound(r),
            search_looked_up(self, result, r),
    {
        match self {
            TokenSearch::LookUp { account: _, quest } => match result {
                Ok(Some(token)) => TokenSearch::Check { request: me(), token, quest },
                Ok(None) => TokenSearch::go_on(quest),
                Err(error) => TokenSearch::Done(Err(error)),
            },
            other => other,
        }
    }

    /// What a check makes of the search. One that does not check stays as it is.
    pub fn checked(self, result: Result<User, WireError>) -> (r: TokenSearch)
        requires
            search_sound(self),
        ensures
            search_sound(r),
            search_checked(self, result, r),
    {
        match self {
            TokenSearch::Check { request: _, token, quest } => match result {
                Ok(user) => if !same(user.id.as_str(), quest.user_id.as_str()) {
                    TokenSearch::go_on(quest)
                } else if quest.at == 0 {
                    TokenSearch::Done(Ok(token))
                } else {
                    TokenSearch::Store { token, quest }
                },
                Err(error) => if error.answered(401) {
                    TokenSearch::go_on(quest)
                } else {
                    TokenSearch::Done(Err(error))
                },
            },
            other => other,
        }
    }

    /// What storing makes of the search. One that does not store stays as it is.
    pub fn stored(self, result: Result<(), WireError>) -> (r: TokenSearch)
        requires
            search_sound(self),
        ensures
            search_sound(r),
            search_stored(self, result, r),
    {
        match self {
            TokenSearch::Store { token, quest } => match result {
                Ok(()) => TokenSearch::Clear {
                    account: quest.account_name(),
                    owner: quest.session.id,
                    token,
                },
                Err(error) => TokenSearch::Done(Err(error)),
            },
            other => other,
        }
    }

    /// The former account was cleared, or could not be.
    pub fn cleared(self) -> (r: TokenSearch)
        requires
            search_sound(self),
        ensures
            search_sound(r),
            search_cleared(self, r),
    {
        match self {
            TokenSearch::Clear { account: _, owner: _, token } => TokenSearch::Done(Ok(token)),
            other => other,
        }
    }

    /// What a new token makes of the search. One that asks for none stays as it is.
    pub fn minted(self, result: Result<AccessToken, WireError>) -> (r: TokenSearch)
        requires
            search_sound(self),
        ensures
            search_sound(r),
            search_minted(self, result, r),
    {
        match self {
            TokenSearch::Mint { request: _, session } => match result {
                Ok(access) => TokenSearch::Keep { access, session },
                Err(error) => TokenSearch::Done(Err(error)),
            },
            other => other,
        }
    }

    /// What storing the new token makes of the search. A token that cannot be stored is revoked.
    pub fn kept(self, result: Result<(), WireError>) -> (r: TokenSearch)
        requires
            search_sound(self),
        ensures
            search_sound(r),
            search_kept(self, result, r),
    {
        match self {
            TokenSearch::Keep { access, session: _ } => match result {
                Ok(()) => TokenSearch::Done(Ok(access.token)),
                Err(error) => TokenSearch::Revoke {
                    request: revoke_token(access.id.as_str()),
                    error,
                },
            },
            other => other,
        }
    }

    /// The new token was revoked, or could not be.
    pub fn revoked(self) -> (r: TokenSearch)
        requires
            search_sound(self),
        ensures
            search_sound(r),
            search_revoked(self, r),
    {
        match self {
            TokenSearch::Revoke { request: _, error } => TokenSearch::Done(Err(error)),
            other => other,
        }
    }
}

/// A token from the keyring is used only where Mattermost says that it is the bot's own.
pub proof fn law_found_tokens_are_the_bots_own(
    search: TokenSearch,
    looked: Result<Option<String>, WireError>,
    checked: Result<User, WireError>,
    next: TokenSearch,
)
    requires
        search is LookUp || search is Check,
        search_looked_up(search, looked, next) || search_checked(search, checked, next),
        next is Store || (next is Done && next->Done_0 is Ok),
    ensures
        search is Check,
        checked is Ok,
        checked->Ok_0.id@ == search->Check_quest.user_id@,
        next is Store ==> next->Store_token == search->Check_token,
        next is Done ==> next->Done_0->Ok_0 == search->Check_token,
{
}

/// The account of all sessions is looked at first, and then the session's names in their order; the
/// token that is found there is used where it is the bot's own. One of the account of all sessions is
/// used as it is.
pub proof fn law_tokens_are_found(
    quest: Quest,
    account: String,
    token: String,
    user: User,
    checking: TokenSearch,
    next: TokenSearch,
)
    requires
        quest.wf(),
        search_looked_up(TokenSearch::LookUp { account, quest }, Ok(Some(token)), checking),
        search_checked(checking, Ok(user), next),
    ensures
        checking is Check,
        checking->Check_request@.path == "/users/me"@,
        user.id@ == quest.user_id@ && quest.at == 0 ==> next == TokenSearch::Done(Ok(token)),
        user.id@ == quest.user_id@ && quest.at > 0 ==> next is Store && next->Store_token == token,
        user.id@ != quest.user_id@ && quest.at < quest.candidates@.len() ==> next is LookUp
            && next->LookUp_account@ == candidate_texts(
            quest.session.id,
            opt_text(quest.session.title),
        )[quest.at as int],
        user.id@ != quest.user_id@ && quest.at == quest.candidates@.len() ==> next is Mint,
{
    if user.id@ != quest.user_id@ && quest.at < quest.candidates@.len() {
        let later = next->LookUp_quest;
        assert(texts(later.candidates@)[quest.at as int] == later.candidates@[quest.at as int]@);
    }
}

/// An account that holds nothing, or a token that Mattermost does not know, is passed over; any other
/// failure ends the search with just that.
pub proof fn law_tokens_are_sought_on(
    quest: Quest,
    search: TokenSearch,
    request: Request,
    token: String,
    error: WireError,
    empty: TokenSearch,
    unknown: TokenSearch,
    failed: TokenSearch,
)
    requires
        quest.wf(),
        search is LookUp && search->LookUp_quest == quest,
        search_looked_up(search, Ok(None), empty),
        search_looked_up(search, Err(error), failed),
        search_checked(TokenSearch::Check { request, token, quest }, Err(error), unknown),
    ensures
        quest.at < quest.candidates@.len() ==> empty is LookUp && empty->LookUp_quest.at == quest.at
            + 1 && empty->LookUp_quest.user_id == quest.user_id && empty->LookUp_quest.session
            == quest.session,
        quest.at == quest.candidates@.len() ==> empty is Mint && empty->Mint_request@.path
            == "/users/"@ + quest.user_id@ + "/tokens"@ && empty->Mint_session == quest.session,
        failed == TokenSearch::Done(Err(error)),
        error is Response && error->status == 401 ==> unknown !is Done,
        !(error is Response && error->status == 401) ==> unknown == TokenSearch::Done(Err(error)),
{
}

/// A token of a former account is stored under the account of all sessions, the former account of
/// that session is cleared, and the token is used.
pub proof fn law_former_tokens_move(
    quest: Quest,
    token: String,
    clearing: TokenSearch,
    end: TokenSearch,
)
    requires
        search_stored(TokenSearch::Store { token, quest }, Ok(()), clearing),
        search_cleared(clearing, end),
    ensures
        clearing is Clear,
        clearing->Clear_account@ == quest.account(),
        clearing->owner == quest.session.id,
        end == TokenSearch::Done(Ok(token)),
{
}

/// A new token is used once it is stored; one that cannot be stored is revoked, just that one, and
/// the search fails with what kept it from being stored.
pub proof fn law_new_tokens(
    request: Request,
    session: Session,
    access: AccessToken,
    error: WireError,
    keeping: TokenSearch,
    kept: TokenSearch,
    revoking: TokenSearch,
    end: TokenSearch,
)
    requires
        search_minted(TokenSearch::Mint { request, session }, Ok(access), keeping),
        search_kept(keeping, Ok(()), kept),
        search_kept(keeping, Err(error), revoking),
        search_revoked(revoking, end),
    ensures
        keeping is Keep && keeping->access == access && keeping->Keep_session == session,
        kept == TokenSearch::Done(Ok(access.token)),
        revoking is Revoke,
        revoking->Revoke_request@.path == "/users/tokens/revoke"@,
        revoking->Revoke_request@.body is Some,
        revoking->Revoke_request@.body->Some_0.get("token_id"@) == Some(Tree::Text(access.id@)),
        end == TokenSearch::Done(Err(error)),
{
}

/// The account of all sessions is looked at first, for the session and the bot that the token is for.
pub proof fn law_first_account(session: Session, user_id: Seq<char>, search: TokenSearch)
    requires
        search_begins(session, user_id, search),
    ensures
        search is LookUp,
        search->LookUp_account@ == "session"@,
        search->LookUp_quest.session == session,
        search->LookUp_quest.user_id@ == user_id,
        search->LookUp_quest.at == 0,
{
}

} // verus!
