//! Codex sessions and the names under which they appear in Mattermost.
use vstd::prelude::*;
use crate::error::WireError;
use crate::ident::{compact_text, hyphenated_text, lemma_ascii, lemma_compact_text, law_session_id_reads_back, law_session_id_texts_differ, named_session, uuid_complaint, SessionId};
use crate::json::{opt_tree, Json, Tree};
use crate::model::copy_text;
use crate::text::{begins_with, blank, characters, assembled, clipped, dedup, deduped, glue2, glue3, glue4, is_alphanumeric, is_blank, is_digit, is_lower, is_run, is_white, join, joined, law_joined_parts, law_repetitions_are_dropped, law_trimmed_text, law_words, lower, lowered, opt_text, lemma_deduped, lemma_runs, runs, same, split_runs, strip_prefix, texts, to_lower, trim, trimmed, truncate_chars, Class};

verus! {

/// A session and its manual name, where it has one.
#[derive(Debug, PartialEq, Eq)]
pub struct Session {
    pub id: SessionId,
    pub title: Option<String>,
}

/// One row of the index in which Codex keeps thread names.
#[derive(Debug, PartialEq, Eq)]
pub struct SessionIndexRow {
    pub id: SessionId,
    pub thread_name: String,
}

/// What the process finds around it: environment variables and the index of thread names.
#[derive(Debug, PartialEq, Eq)]
pub struct Ambient {
    pub codex_thread_id: Option<String>,
    pub wire_session_id: Option<String>,
    pub codex_thread_name: Option<String>,
    pub wire_session_name: Option<String>,
    pub index: Vec<SessionIndexRow>,
}

/// The last name that the index gives a session, blank names aside.
pub open spec fn indexed(rows: Seq<SessionIndexRow>, id: SessionId) -> Option<Seq<char>>
    decreases rows.len(),
{
    if rows.len() == 0 {
        None
    } else if rows.last().id == id && !is_blank(rows.last().thread_name@) {
        Some(rows.last().thread_name@)
    } else {
        indexed(rows.drop_last(), id)
    }
}

/// The last name that the index gives a session, blank names aside.
pub fn indexed_title(rows: &Vec<SessionIndexRow>, id: SessionId) -> (r: Option<String>)
    ensures
        opt_text(r) == indexed(rows@, id),
{
    let mut i: usize = rows.len();
    assert(rows@.take(i as int) == rows@);
    while i > 0
        invariant
            i <= rows@.len(),
            indexed(rows@.take(i as int), id) == indexed(rows@, id),
        decreases i,
    {
        let ghost before = rows@.take(i as int);
        i -= 1;
        assert(before.drop_last() == rows@.take(i as int));
        if rows[i].id == id && !blank(rows[i].thread_name.as_str()) {
            return Some(rows[i].thread_name.clone());
        }
    }
    None
}

/// The first of two optional texts that is present and not blank.
pub open spec fn first_present(first: Option<Seq<char>>, second: Option<Seq<char>>) -> Option<
    Seq<char>,
> {
    match first {
        Some(text) if !is_blank(text) => Some(text),
        _ => match second {
            Some(text) if !is_blank(text) => Some(text),
            _ => None,
        },
    }
}

fn present(first: &Option<String>, second: &Option<String>) -> (r: Option<String>)
    ensures
        opt_text(r) == first_present(opt_text(*first), opt_text(*second)),
{
    if let Some(text) = first {
        if !blank(text.as_str()) {
            return Some(text.clone());
        }
    }
    if let Some(text) = second {
        if !blank(text.as_str()) {
            return Some(text.clone());
        }
    }
    None
}

/// The title of a session that the environment names.
pub open spec fn ambient_title(ambient: Ambient, id: SessionId) -> Option<Seq<char>> {
    match first_present(opt_text(ambient.codex_thread_name), opt_text(ambient.wire_session_name)) {
        Some(title) => Some(title),
        None => indexed(ambient.index@, id),
    }
}

/// The text by which the environment names a session.
pub open spec fn ambient_name(ambient: Ambient) -> Option<Seq<char>> {
    first_present(opt_text(ambient.codex_thread_id), opt_text(ambient.wire_session_id))
}

/// A configuration error with the given message.
pub open spec fn configuration_error<T>(r: Result<T, WireError>, message: Seq<char>) -> bool {
    r is Err && r->Err_0 is Configuration && r->Err_0->Configuration_0@ == message
}

/// The session on whose behalf a request is made: that of its `threadId` metadata, or else the one
/// that the environment names.
pub open spec fn identified(
    thread_id: Option<Tree>,
    ambient: Ambient,
    r: Result<Session, WireError>,
) -> bool {
    match thread_id {
        Some(Tree::Text(raw)) => match named_session(raw) {
            Some(id) => r is Ok && r->Ok_0.id == id && opt_text(r->Ok_0.title) == indexed(
                ambient.index@,
                id,
            ),
            None => configuration_error(
                r,
                "request threadId metadata is not a UUID: "@ + uuid_complaint(raw),
            ),
        },
        Some(_) => configuration_error(r, "request threadId metadata is not a string"@),
        None => match ambient_name(ambient) {
            Some(raw) => match named_session(trimmed(raw)) {
                Some(id) => r is Ok && r->Ok_0.id == id && opt_text(r->Ok_0.title)
                    == ambient_title(ambient, id),
                None => configuration_error(
                    r,
                    "session identity is not a UUID: "@ + uuid_complaint(trimmed(raw)),
                ),
            },
            None => configuration_error(
                r,
                "writes require Codex threadId request metadata, CODEX_THREAD_ID, or WIRE_SESSION_ID"@,
            ),
        },
    }
}

/// The session that the environment names, if it names one.
pub open spec fn ambient_session(
    ambient: Ambient,
    r: Result<Option<Session>, WireError>,
) -> bool {
    match ambient_name(ambient) {
        Some(raw) => match named_session(trimmed(raw)) {
            Some(id) => r is Ok && r->Ok_0 is Some && r->Ok_0->0.id == id && opt_text(
                r->Ok_0->0.title,
            ) == ambient_title(ambient, id),
            None => configuration_error(
                r,
                "session identity is not a UUID: "@ + uuid_complaint(trimmed(raw)),
            ),
        },
        None => r is Ok && r->Ok_0 is None,
    }
}

impl Session {
    /// The session on whose behalf a request is made: that of its `threadId` metadata, or else
    /// the one that the environment names.
    pub fn from_request(thread_id: Option<&Json>, ambient: &Ambient) -> (r: Result<Session, WireError>)
        ensures
            identified(opt_tree(thread_id), *ambient, r),
    {
        if let Some(value) = thread_id {
            return match value {
                Json::Text(raw) => match SessionId::parse(raw.as_str()) {
                    Ok(id) => Ok(Session::for_id(id, &ambient.index)),
                    Err(complaint) => Err(
                        WireError::Configuration(
                            glue2("request threadId metadata is not a UUID: ", complaint.as_str()),
                        ),
                    ),
                },
                _ => Err(
                    WireError::Configuration(
                        "request threadId metadata is not a string".to_owned(),
                    ),
                ),
            };
        }
        match Session::load(ambient) {
            Ok(Some(session)) => Ok(session),
            Ok(None) => Err(
                WireError::Configuration(
                    "writes require Codex threadId request metadata, CODEX_THREAD_ID, or WIRE_SESSION_ID".to_owned(),
                ),
            ),
            Err(error) => Err(error),
        }
    }

    /// The session of an identifier, under the name that the index gives it.
    pub fn for_id(id: SessionId, index: &Vec<SessionIndexRow>) -> (r: Session)
        ensures
            r.id == id,
            opt_text(r.title) == indexed(index@, id),
    {
        Session { id, title: indexed_title(index, id) }
    }

    pub fn id(&self) -> (r: SessionId)
        ensures
            r == self.id,
    {
        self.id
    }

    /// The session that the environment names, if it names one.
    pub fn load(ambient: &Ambient) -> (r: Result<Option<Session>, WireError>)
        ensures
            ambient_session(*ambient, r),
    {
        let raw = match present(&ambient.codex_thread_id, &ambient.wire_session_id) {
            Some(raw) => raw,
            None => return Ok(None),
        };
        match SessionId::parse(trim(raw.as_str()).as_str()) {
            Ok(id) => {
                let title = match present(&ambient.codex_thread_name, &ambient.wire_session_name) {
                    Some(title) => Some(title),
                    None => indexed_title(&ambient.index, id),
                };
                Ok(Some(Session { id, title }))
            },
            Err(complaint) => Err(
                WireError::Configuration(
                    glue2("session identity is not a UUID: ", complaint.as_str()),
                ),
            ),
        }
    }

    /// The title, or else the display name.
    pub fn name(&self) -> (r: String)
        ensures
            r@ == session_name(self.id, opt_text(self.title)),
    {
        match &self.title {
            Some(title) => title.clone(),
            None => self.display_name(),
        }
    }

    /// The synthetic address that binds an account to the session.
    pub fn provisional_email(&self) -> (r: String)
        ensures
            r@ == email_text(self.id),
    {
        session_email(self.id)
    }

    /// The label that people see.
    pub fn display_name(&self) -> (r: String)
        ensures
            r@ == display_text(self.id, opt_text(self.title)),
    {
        let compact = self.id.compact();
        match &self.title {
            None => {
                let head = truncate_chars(compact.as_str(), 8);
                glue2("Codex ", head.as_str())
            },
            Some(title) => {
                let label = truncate_chars(trim(title.as_str()).as_str(), 55);
                let head = truncate_chars(compact.as_str(), 4);
                glue3(label.as_str(), " · ", head.as_str())
            },
        }
    }

    /// The usernames that the session may take, the best one first.
    pub fn username_candidates(&self) -> (r: Vec<String>)
        ensures
            texts(r@) == candidate_texts(self.id, opt_text(self.title)),
    {
        let compact = self.id.compact();
        let mut candidates: Vec<String> = Vec::new();
        if let Some(title) = &self.title {
            let slug = session_slug(title.as_str());
            if !slug.as_str().is_empty() {
                let four = truncate_chars(compact.as_str(), 4);
                let eight = truncate_chars(compact.as_str(), 8);
                candidates.push(glue2("codex-", truncate_chars(slug.as_str(), 16).as_str()));
                candidates.push(
                    glue4("codex-", truncate_chars(slug.as_str(), 11).as_str(), "-", four.as_str()),
                );
                candidates.push(
                    glue4("codex-", truncate_chars(slug.as_str(), 7).as_str(), "-", eight.as_str()),
                );
            }
        }
        candidates.push(self.legacy_username());
        assert(texts(candidates@) =~= candidate_list(self.id, opt_text(self.title)));
        dedup(candidates)
    }

    /// The username that needs no title.
    pub fn legacy_username(&self) -> (r: String)
        ensures
            r@ == legacy_text(self.id),
    {
        let compact = self.id.compact();
        let head = truncate_chars(compact.as_str(), 16);
        glue2("codex-", head.as_str())
    }

    pub fn copy(&self) -> (r: Session)
        ensures
            r == *self,
    {
        Session { id: self.id, title: copy_text(&self.title) }
    }
}

pub open spec fn session_name(id: SessionId, title: Option<Seq<char>>) -> Seq<char> {
    match title {
        Some(title) => title,
        None => display_text(id, title),
    }
}

pub open spec fn email_text(id: SessionId) -> Seq<char> {
    "wire-"@ + compact_text(id.value) + "@localhost"@
}

/// The synthetic address of a session.
pub fn session_email(id: SessionId) -> (r: String)
    ensures
        r@ == email_text(id),
{
    let compact = id.compact();
    glue3("wire-", compact.as_str(), "@localhost")
}

/// The session whose synthetic address this is, if it is one's.
pub open spec fn addressed_session(email: Seq<char>) -> Option<SessionId> {
    if exists|id: SessionId| #[trigger] email_text(id) == email {
        Some(choose|id: SessionId| #[trigger] email_text(id) == email)
    } else {
        None
    }
}

/// The session whose synthetic address this is, if it is one's.
pub fn find_addressed(email: &str) -> (r: Option<SessionId>)
    ensures
        r == addressed_session(email@),
{
    let rest = match strip_prefix(email, "wire-") {
        Some(rest) => rest,
        None => {
            proof {
                lemma_address(email@);
            }
            return None;
        },
    };
    let digits = truncate_chars(rest.as_str(), 32);
    let found = SessionId::find(digits.as_str());
    proof {
        lemma_address(email@);
    }
    match found {
        Some(id) => {
            let address = session_email(id);
            if same(email, address.as_str()) {
                proof {
                    law_addresses_name_their_session(id);
                }
                Some(id)
            } else {
                None
            }
        },
        None => None,
    }
}

proof fn lemma_address(email: Seq<char>)
    ensures
        addressed_session(email) matches Some(id) ==> email == email_text(id)
            && "wire-"@.is_prefix_of(email) && clipped(email.skip("wire-"@.len() as int), 32)
            == compact_text(id.value) && named_session(compact_text(id.value)) == Some(id),
{
    if let Some(id) = addressed_session(email) {
        assert(email_text(id) == email);
        lemma_compact_text(id.value);
        law_session_id_reads_back(id);
        let from = "wire-"@.len() as int;
        assert(email.take(from) =~= "wire-"@);
        assert(email.skip(from).take(32) =~= compact_text(id.value));
    }
}

/// The address of a session names that session and no other.
pub proof fn law_addresses_name_their_session(id: SessionId)
    ensures
        addressed_session(email_text(id)) == Some(id),
{
    let other = choose|other: SessionId| #[trigger] email_text(other) == email_text(id);
    law_emails_differ(other, id);
}

pub open spec fn display_text(id: SessionId, title: Option<Seq<char>>) -> Seq<char> {
    match title {
        None => "Codex "@ + clipped(compact_text(id.value), 8),
        Some(title) => clipped(trimmed(title), 55) + " · "@ + clipped(compact_text(id.value), 4),
    }
}

pub open spec fn legacy_text(id: SessionId) -> Seq<char> {
    "codex-"@ + clipped(compact_text(id.value), 16)
}

/// The candidate usernames before repetitions are dropped.
pub open spec fn candidate_list(id: SessionId, title: Option<Seq<char>>) -> Seq<Seq<char>> {
    let compact = compact_text(id.value);
    let legacy = legacy_text(id);
    match title {
        Some(title) if slug_text(title).len() > 0 => {
            let slug = slug_text(title);
            seq![
                "codex-"@ + clipped(slug, 16),
                "codex-"@ + clipped(slug, 11) + "-"@ + clipped(compact, 4),
                "codex-"@ + clipped(slug, 7) + "-"@ + clipped(compact, 8),
                legacy,
            ]
        },
        _ => seq![legacy],
    }
}

pub open spec fn candidate_texts(id: SessionId, title: Option<Seq<char>>) -> Seq<Seq<char>> {
    deduped(candidate_list(id, title))
}

/// A title without white space at its ends and without one leading mark of the agent's kind.
pub open spec fn stem(title: Seq<char>) -> Seq<char> {
    let text = trimmed(title);
    let folded = lowered(text);
    if "coder_"@.is_prefix_of(folded) || "coder-"@.is_prefix_of(folded) || "codex_"@.is_prefix_of(
        folded,
    ) || "codex-"@.is_prefix_of(folded) {
        text.skip(6)
    } else {
        text
    }
}

/// The runs of letters and digits of a title's stem, in lower case, with hyphens between them.
pub open spec fn slug_text(title: Seq<char>) -> Seq<char> {
    joined(
        runs(stem(title), Class::Alphanumeric).map_values(|run: Seq<char>| lowered(run)),
        "-"@,
    )
}

fn lowercase(value: &str) -> (r: String)
    ensures
        r@ == lowered(value@),
{
    let mut out = String::new();
    for c in it: value.chars()
        invariant
            it.seq() == value@,
            out@ == lowered(value@.take(it.index())),
    {
        let ghost before = value@.take(it.index());
        let ghost after = value@.take(it.index() + 1);
        out.push(to_lower(c));
        assert(lowered(after) =~= lowered(before).push(lower(c)));
    }
    assert(value@.take(value@.len() as int) == value@);
    out
}

/// The part of a username that comes from a title.
pub fn session_slug(title: &str) -> (r: String)
    ensures
        r@ == slug_text(title@),
{
    let text = trim(title);
    let folded = lowercase(text.as_str());
    proof {
        reveal_strlit("coder_");
        reveal_strlit("coder-");
        reveal_strlit("codex_");
        reveal_strlit("codex-");
    }
    let marked = begins_with(folded.as_str(), "coder_") || begins_with(folded.as_str(), "coder-")
        || begins_with(folded.as_str(), "codex_") || begins_with(folded.as_str(), "codex-");
    let bare = if marked {
        let chars = characters(text.as_str());
        let count: usize = chars.len();
        assert(lowered(text@).len() == text@.len());
        assembled(&chars, 6, count)
    } else {
        text
    };
    assert(bare@ == stem(title@));
    let found = split_runs(bare.as_str(), Class::Alphanumeric);
    let mut small: Vec<String> = Vec::new();
    let mut i: usize = 0;
    while i < found.len()
        invariant
            i <= found@.len(),
            small@.len() == i,
            forall|j: int| 0 <= j < i ==> (#[trigger] small@[j])@ == lowered(found@[j]@),
        decreases found@.len() - i,
    {
        small.push(lowercase(found[i].as_str()));
        i += 1;
    }
    assert(texts(small@) =~= runs(stem(title@), Class::Alphanumeric).map_values(
        |run: Seq<char>| lowered(run),
    ));
    join(&small, "-")
}

/// Two sessions never share a synthetic address.
pub proof fn law_emails_differ(left: SessionId, right: SessionId)
    ensures
        email_text(left) == email_text(right) ==> left == right,
{
    lemma_compact_text(left.value);
    lemma_compact_text(right.value);
    law_session_id_texts_differ(left, right);
    if email_text(left) == email_text(right) {
        let from = "wire-"@.len() as int;
        assert(email_text(left).subrange(from, from + 32) =~= compact_text(left.value));
        assert(email_text(right).subrange(from, from + 32) =~= compact_text(right.value));
    }
}

/// Every candidate username starts with `codex-` and has at most 22 characters; no candidate
/// repeats the one before it, and the last one is the username that needs no title.
pub proof fn law_candidates(id: SessionId, title: Option<Seq<char>>)
    ensures
        candidate_texts(id, title).len() > 0,
        candidate_texts(id, title).last() == legacy_text(id),
        forall|i: int|
            0 <= i < candidate_texts(id, title).len() ==> {
                &&& "codex-"@.is_prefix_of(#[trigger] candidate_texts(id, title)[i])
                &&& candidate_texts(id, title)[i].len() <= 22
            },
        forall|i: int|
            0 <= i < candidate_texts(id, title).len() - 1 ==> #[trigger] candidate_texts(id, title)[i]
                != candidate_texts(id, title)[i + 1],
{
    let list = candidate_list(id, title);
    lemma_deduped(list);
    lemma_compact_text(id.value);
    reveal_strlit("codex-");
    reveal_strlit("-");
    assert forall|i: int| 0 <= i < candidate_texts(id, title).len() implies {
        &&& "codex-"@.is_prefix_of(#[trigger] candidate_texts(id, title)[i])
        &&& candidate_texts(id, title)[i].len() <= 22
    } by {
        let candidate = candidate_texts(id, title)[i];
        assert(list.contains(candidate));
        let j = choose|j: int| 0 <= j < list.len() && list[j] == candidate;
        assert("codex-"@ =~= list[j].take(6));
    }
}

/// A username stem: lower-case letters, digits and single inner hyphens.
pub open spec fn is_stem(text: Seq<char>) -> bool {
    &&& forall|i: int|
        0 <= i < text.len() ==> is_lower(#[trigger] text[i]) || is_digit(text[i]) || text[i] == '-'
    &&& text.len() > 0 ==> text[0] != '-' && text.last() != '-'
    &&& forall|i: int| 0 <= i < text.len() - 1 ==> !(#[trigger] text[i] == '-' && text[i + 1] == '-')
}

proof fn lemma_joined_stem(parts: Seq<Seq<char>>)
    requires
        forall|i: int| 0 <= i < parts.len() ==> (#[trigger] parts[i]).len() > 0,
        forall|i: int, j: int|
            #![trigger parts[i][j]]
            0 <= i < parts.len() && 0 <= j < parts[i].len() ==> is_lower(parts[i][j]) || is_digit(
                parts[i][j],
            ),
    ensures
        is_stem(joined(parts, "-"@)),
        parts.len() > 0 ==> joined(parts, "-"@).len() > 0,
    decreases parts.len(),
{
    reveal_strlit("-");
    if parts.len() > 1 {
        let before = parts.drop_last();
        assert(forall|i: int| 0 <= i < before.len() ==> before[i] == parts[i]);
        lemma_joined_stem(before);
        let left = joined(before, "-"@);
        let whole = joined(parts, "-"@);
        let word = parts.last();
        assert(whole == left + "-"@ + word);
        assert(whole[0] == left[0]);
        assert(whole.last() == word.last());
        assert(word.last() == parts[parts.len() - 1][word.len() - 1]);
        assert forall|i: int| 0 <= i < whole.len() implies is_lower(#[trigger] whole[i]) || is_digit(
            whole[i],
        ) || whole[i] == '-' by {
            if i > left.len() {
                assert(whole[i] == parts[parts.len() - 1][i - left.len() - 1]);
            } else if i < left.len() {
                assert(whole[i] == left[i]);
            }
        }
        assert forall|i: int| 0 <= i < whole.len() - 1 implies !(#[trigger] whole[i] == '-' && whole[i
            + 1] == '-') by {
            if i < left.len() - 1 {
                assert(whole[i] == left[i] && whole[i + 1] == left[i + 1]);
            } else if i == left.len() - 1 {
                assert(whole[i] == left.last());
            } else if i == left.len() {
                assert(whole[i + 1] == parts[parts.len() - 1][0]);
            } else {
                assert(whole[i] == parts[parts.len() - 1][i - left.len() - 1]);
            }
        }
    } else if parts.len() == 1 {
        let word = parts[0];
        assert(forall|j: int| 0 <= j < word.len() ==> word[j] == parts[0][j]);
        assert(word.last() == parts[0][word.len() - 1]);
    }
}

/// Whatever the title, its slug holds only lower-case letters, digits and single inner hyphens.
pub proof fn law_slug_is_stem(title: Seq<char>)
    ensures
        is_stem(slug_text(title)),
{
    let found = runs(stem(title), Class::Alphanumeric);
    lemma_runs(stem(title), Class::Alphanumeric);
    let small = found.map_values(|run: Seq<char>| lowered(run));
    assert forall|i: int, j: int|
        #![trigger small[i][j]]
        0 <= i < small.len() && 0 <= j < small[i].len() implies is_lower(small[i][j]) || is_digit(
        small[i][j],
    ) by {
        assert(is_run(found[i], Class::Alphanumeric));
        assert(small[i][j] == lower(found[i][j]));
        assert(is_alphanumeric(found[i][j]));
    }
    assert forall|i: int| 0 <= i < small.len() implies (#[trigger] small[i]).len() > 0 by {
        assert(is_run(found[i], Class::Alphanumeric));
        assert(small[i] == lowered(found[i]));
    }
    lemma_joined_stem(small);
}

/// A display name has at most 62 characters.
pub proof fn law_display_name_fits(id: SessionId, title: Option<Seq<char>>)
    ensures
        display_text(id, title).len() <= 62,
{
    lemma_compact_text(id.value);
    reveal_strlit("Codex ");
    reveal_strlit(" · ");
}

/// The last name in the index that a session has and that is not blank is its name.
pub proof fn law_last_name_counts(rows: Seq<SessionIndexRow>, id: SessionId, at: int, visible: int)
    ensures
        0 <= at < rows.len() && rows[at].id == id && 0 <= visible < rows[at].thread_name@.len()
            && !is_white(rows[at].thread_name@[visible]) && (forall|i: int|
            at < i < rows.len() && (#[trigger] rows[i]).id == id ==> is_blank(rows[i].thread_name@))
            ==> indexed(rows, id) == Some(rows[at].thread_name@),
        (forall|i: int|
            0 <= i < rows.len() && (#[trigger] rows[i]).id == id ==> is_blank(rows[i].thread_name@))
            ==> indexed(rows, id) is None,
    decreases rows.len(),
{
    if rows.len() > 0 {
        let before = rows.drop_last();
        assert(forall|i: int| 0 <= i < before.len() ==> before[i] == rows[i]);
        assert(rows[rows.len() - 1] == rows.last());
        law_last_name_counts(before, id, at, visible);
        law_trimmed_text(rows.last().thread_name@);
    }
}

/// Of two texts the first counts where anything is visible in it, and else the second where anything
/// is visible in that.
pub proof fn law_first_visible_text(first: Seq<char>, second: Seq<char>, at: int)
    ensures
        0 <= at < first.len() && !is_white(first[at]) ==> first_present(Some(first), Some(second))
            == Some(first) && first_present(Some(first), None) == Some(first),
        is_blank(first) && 0 <= at < second.len() && !is_white(second[at]) ==> first_present(
            Some(first),
            Some(second),
        ) == Some(second),
        0 <= at < second.len() && !is_white(second[at]) ==> first_present(None, Some(second)) == Some(
            second,
        ),
        is_blank(first) && is_blank(second) ==> first_present(Some(first), Some(second)) is None,
        first_present(None, None) is None,
{
    law_trimmed_text(first);
    law_trimmed_text(second);
}

/// A request that names a thread is made by that thread's session, under the name that the index has
/// for it, whatever the environment says.
pub proof fn law_requests_name_their_session(
    id: SessionId,
    ambient: Ambient,
    r: Result<Session, WireError>,
)
    requires
        identified(Some(Tree::Text(hyphenated_text(id.value))), ambient, r),
    ensures
        r is Ok,
        r->Ok_0.id == id,
        opt_text(r->Ok_0.title) == indexed(ambient.index@, id),
{
    law_session_id_reads_back(id);
}

/// A request that names no thread is made by the session that the environment names, by Codex's own
/// variable first; its title is that of the environment, by Codex's own variable first, or else that
/// of the index. Where nothing names a session, there is none.
pub proof fn law_environment_names_a_session(
    id: SessionId,
    ambient: Ambient,
    r: Result<Session, WireError>,
    found: Result<Option<Session>, WireError>,
)
    requires
        identified(None, ambient, r),
        ambient_session(ambient, found),
    ensures
        opt_text(ambient.codex_thread_id) == Some(hyphenated_text(id.value)) || (
        ambient.codex_thread_id is None && opt_text(ambient.wire_session_id) == Some(
            hyphenated_text(id.value),
        )) ==> {
            &&& r is Ok && r->Ok_0.id == id
            &&& found is Ok && found->Ok_0 is Some && found->Ok_0->Some_0.id == id
            &&& opt_text(found->Ok_0->Some_0.title) == opt_text(r->Ok_0.title)
            &&& ambient.codex_thread_name is None && ambient.wire_session_name is None ==> opt_text(
                r->Ok_0.title,
            ) == indexed(ambient.index@, id)
            &&& ambient.codex_thread_name matches Some(title) ==> (!is_blank(title@) ==> opt_text(
                r->Ok_0.title,
            ) == Some(title@))
        },
        ambient.codex_thread_id is None && ambient.wire_session_id is None ==> r is Err && found
            is Ok && found->Ok_0 is None,
{
    lemma_identifier(id);
}

proof fn lemma_identifier(id: SessionId)
    ensures
        trimmed(hyphenated_text(id.value)) == hyphenated_text(id.value),
        !is_blank(hyphenated_text(id.value)),
        named_session(hyphenated_text(id.value)) == Some(id),
{
    let text = hyphenated_text(id.value);
    lemma_ascii(id.value);
    law_session_id_reads_back(id);
    assert('-' <= text[0] <= 'f' && '-' <= text[35] <= 'f');
    assert(!is_white(text[0]) && !is_white(text[35]));
    law_trimmed_text(text);
}

/// A session is shown by its title, cut at 55 characters, and the first four digits of its
/// identifier; without a title by the first eight. It is called by its title where it has one.
pub proof fn law_names_of_sessions(id: SessionId, title: Seq<char>)
    ensures
        display_text(id, None) == "Codex "@ + compact_text(id.value).take(8),
        trimmed(title).len() <= 55 ==> display_text(id, Some(title)) == trimmed(title) + " · "@
            + compact_text(id.value).take(4),
        trimmed(title).len() > 55 ==> display_text(id, Some(title)) == trimmed(title).take(55)
            + " · "@ + compact_text(id.value).take(4),
        session_name(id, Some(title)) == title,
        session_name(id, None) == display_text(id, None),
        legacy_text(id) == "codex-"@ + compact_text(id.value).take(16),
        email_text(id) == "wire-"@ + compact_text(id.value) + "@localhost"@,
{
    lemma_compact_text(id.value);
}

/// The names that a session may take: its slug, its slug with four and with eight digits of its
/// identifier, and the name that needs no title; a session without a slug has only the last.
pub proof fn law_names_to_choose_from(id: SessionId, title: Seq<char>)
    ensures
        slug_text(title).len() > 0 ==> {
            let slug = slug_text(title);
            let names = candidate_texts(id, Some(title));
            &&& names[0] == "codex-"@ + clipped(slug, 16)
            &&& names.contains("codex-"@ + clipped(slug, 11) + "-"@ + compact_text(id.value).take(4))
            &&& names.contains("codex-"@ + clipped(slug, 7) + "-"@ + compact_text(id.value).take(8))
            &&& names.contains("codex-"@ + compact_text(id.value).take(16))
            &&& names.len() <= 4
        },
        slug_text(title).len() == 0 ==> candidate_texts(id, Some(title)) == seq![legacy_text(id)],
        candidate_texts(id, None) == seq![legacy_text(id)],
{
    lemma_compact_text(id.value);
    let none = candidate_list(id, None);
    law_repetitions_are_dropped(none);
    let list = candidate_list(id, Some(title));
    law_repetitions_are_dropped(list);
    if slug_text(title).len() > 0 {
        lemma_deduped(list);
        assert(list[1] == "codex-"@ + clipped(slug_text(title), 11) + "-"@ + clipped(
            compact_text(id.value),
            4,
        ));
        assert(list[2] == "codex-"@ + clipped(slug_text(title), 7) + "-"@ + clipped(
            compact_text(id.value),
            8,
        ));
        assert(list[3] == legacy_text(id));
        lemma_first_kept(list);
    }
}

proof fn lemma_first_kept(parts: Seq<Seq<char>>)
    requires
        parts.len() > 0,
    ensures
        deduped(parts).len() > 0,
        deduped(parts)[0] == parts[0],
        deduped(parts).len() <= parts.len(),
    decreases parts.len(),
{
    if parts.len() > 1 {
        lemma_first_kept(parts.drop_last());
    } else {
        assert(parts.drop_last() =~= Seq::<Seq<char>>::empty());
        assert(deduped(parts.drop_last()) =~= Seq::<Seq<char>>::empty());
    }
}

/// A text of letters and digits with hyphens for everything else, in lower case.
pub open spec fn hyphened(text: Seq<char>) -> Seq<char> {
    joined(runs(text, Class::Alphanumeric).map_values(|run: Seq<char>| lowered(run)), "-"@)
}

/// A slug keeps every letter and digit of the title, in lower case and in order; a word stays one
/// word, and between two words stands one hyphen, whatever stood there.
pub proof fn law_slugs_keep_words(left: Seq<char>, between: char, right: Seq<char>, title: Seq<char>)
    ensures
        slug_text(title) == hyphened(stem(title)),
        left.len() > 0 && (forall|i: int|
            0 <= i < left.len() ==> is_alphanumeric(#[trigger] left[i])) ==> hyphened(left)
            == lowered(left),
        !is_alphanumeric(between) && runs(left, Class::Alphanumeric).len() > 0 && runs(
            right,
            Class::Alphanumeric,
        ).len() > 0 ==> hyphened(left.push(between) + right) == hyphened(left) + "-"@ + hyphened(
            right,
        ),
        !is_alphanumeric(between) && runs(left, Class::Alphanumeric).len() == 0 ==> hyphened(
            left.push(between) + right,
        ) == hyphened(right),
        !is_alphanumeric(between) && runs(right, Class::Alphanumeric).len() == 0 ==> hyphened(
            left.push(between) + right,
        ) == hyphened(left),
{
    if left.len() > 0 && (forall|i: int|
        0 <= i < left.len() ==> is_alphanumeric(#[trigger] left[i])) {
        assert(forall|i: int|
            0 <= i < left.len() ==> crate::text::belongs(Class::Alphanumeric, #[trigger] left[i]));
        law_words(left, between, right, Class::Alphanumeric);
        let small = runs(left, Class::Alphanumeric).map_values(|run: Seq<char>| lowered(run));
        assert(small.len() == 1 && small[0] == lowered(left));
        law_joined_parts(small, small, "-"@);
    }
    if !is_alphanumeric(between) {
        law_words(left, between, right, Class::Alphanumeric);
        let first = runs(left, Class::Alphanumeric).map_values(|run: Seq<char>| lowered(run));
        let second = runs(right, Class::Alphanumeric).map_values(|run: Seq<char>| lowered(run));
        let whole = runs(left.push(between) + right, Class::Alphanumeric).map_values(
            |run: Seq<char>| lowered(run),
        );
        assert(whole =~= first + second);
        law_joined_parts(first, second, "-"@);
        if first.len() == 0 {
            assert(first + second =~= second);
        }
        if second.len() == 0 {
            assert(first + second =~= first);
        }
    }
}

/// A mark of the agent's kind at the beginning of a title is left out, once and whatever its case;
/// any other title is kept, but for white space at its ends.
pub proof fn law_stems(title: Seq<char>)
    ensures
        ({
            let text = trimmed(title);
            let head = lowered(text.take(6));
            let marked = text.len() >= 6 && (head == "coder_"@ || head == "coder-"@ || head
                == "codex_"@ || head == "codex-"@);
            &&& marked ==> stem(title) == text.skip(6)
            &&& !marked ==> stem(title) == text
        }),
{
    reveal_strlit("coder_");
    reveal_strlit("coder-");
    reveal_strlit("codex_");
    reveal_strlit("codex-");
    let text = trimmed(title);
    let folded = lowered(text);
    assert("coder_"@.len() == 6 && "coder-"@.len() == 6 && "codex_"@.len() == 6 && "codex-"@.len()
        == 6);
    if text.len() >= 6 {
        assert(folded.take(6) =~= lowered(text.take(6)));
    }
}

/// What names no session is told: whether the request or the environment said it, and what is wrong
/// with it.
pub proof fn law_names_of_no_session(
    raw: Seq<char>,
    tree: Tree,
    ambient: Ambient,
    named: Result<Session, WireError>,
    odd: Result<Session, WireError>,
    unnamed: Result<Session, WireError>,
    found: Result<Option<Session>, WireError>,
)
    requires
        named_session(raw) is None,
        tree !is Text,
        identified(Some(Tree::Text(raw)), ambient, named),
        identified(Some(tree), ambient, odd),
        identified(None, ambient, unnamed),
        ambient_session(ambient, found),
    ensures
        configuration_error(
            named,
            "request threadId metadata is not a UUID: "@ + uuid_complaint(raw),
        ),
        configuration_error(odd, "request threadId metadata is not a string"@),
        opt_text(ambient.codex_thread_id) == Some(raw) && !is_blank(raw) && trimmed(raw) == raw ==> {
            &&& configuration_error(
                unnamed,
                "session identity is not a UUID: "@ + uuid_complaint(raw),
            )
            &&& configuration_error(
                found,
                "session identity is not a UUID: "@ + uuid_complaint(raw),
            )
        },
        ambient.codex_thread_id is None && ambient.wire_session_id is None ==> configuration_error(
            unnamed,
            "writes require Codex threadId request metadata, CODEX_THREAD_ID, or WIRE_SESSION_ID"@,
        ),
{
}

} // verus!
