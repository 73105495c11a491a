//! What the server answers: the status code and what stands in the body, for
//! each outcome of each request.

use vstd::prelude::*;
use vstd::string::*;

use crate::sites::{opt_view, SiteData};
use crate::table::Table;
use crate::text;
use crate::text::str_contains;
use crate::vault::VaultError;

verus! {

pub const OK: u16 = 200;

pub const BAD_REQUEST: u16 = 400;

pub const UNAUTHORIZED: u16 = 401;

pub const NOT_FOUND: u16 = 404;

pub const CONFLICT: u16 = 409;

pub const PAYLOAD_TOO_LARGE: u16 = 413;

pub const LOCKED: u16 = 423;

pub const INTERNAL_SERVER_ERROR: u16 = 500;

/// The fewest bytes of a passphrase.
pub const MIN_PASSPHRASE_BYTES: usize = 8;

/// The most bytes of a note: 64 KiB.
pub const MAX_NOTE_BYTES: usize = 65_536;

/// The most bytes of the body of a request: ten mebibytes.
pub const MAX_BODY_BYTES: usize = 10_485_760;

/// How far two pictures may be apart where nothing is asked for.
pub const DEFAULT_DISTANCE: u32 = 8;

/// How far apart two pictures may be asked to be at most.
pub const MAX_DISTANCE: u32 = 32;

/// How many entries of the audit log are shown.
pub const AUDIT_LIMIT: i64 = 200;

/// What stands in the body of an answer.
#[derive(Debug)]
pub enum Body {
    /// What was asked for.
    Payload,
    /// That it was done.
    Done,
    /// That it was done, and a warning.
    Warning(String),
    /// That it was done, and to which profile.
    Profile(String),
    /// How many proposals wait, and whether the vault is locked.
    Count { count: i64, locked: bool },
    /// What went wrong.
    Error(String),
    /// What went wrong, and how to recover.
    Unrecoverable { error: String, recovery: String },
}

/// The view of a `Body`.
pub enum BodyView {
    Payload,
    Done,
    Warning(Seq<char>),
    Profile(Seq<char>),
    Count { count: i64, locked: bool },
    Error(Seq<char>),
    Unrecoverable { error: Seq<char>, recovery: Seq<char> },
}

impl View for Body {
    type V = BodyView;

    open spec fn view(&self) -> BodyView {
        match self {
            Body::Payload => BodyView::Payload,
            Body::Done => BodyView::Done,
            Body::Warning(s) => BodyView::Warning(s@),
            Body::Profile(s) => BodyView::Profile(s@),
            Body::Count { count, locked } => BodyView::Count { count: *count, locked: *locked },
            Body::Error(s) => BodyView::Error(s@),
            Body::Unrecoverable { error, recovery } => BodyView::Unrecoverable {
                error: error@,
                recovery: recovery@,
            },
        }
    }
}

/// An answer.
#[derive(Debug)]
pub struct Reply {
    pub status: u16,
    pub body: Body,
}

/// The view of a `Reply`.
pub struct ReplyView {
    pub status: u16,
    pub body: BodyView,
}

impl View for Reply {
    type V = ReplyView;

    open spec fn view(&self) -> ReplyView {
        ReplyView { status: self.status, body: self.body@ }
    }
}

/// An answer that says what went wrong.
pub open spec fn error_reply(status: u16, error: Seq<char>) -> ReplyView {
    ReplyView { status, body: BodyView::Error(error) }
}

/// The answer to what needs the vault while it is locked.
pub open spec fn locked_reply() -> ReplyView {
    error_reply(LOCKED, "vault locked"@)
}

/// The answer where something unforeseen went wrong.
pub open spec fn failure_reply(message: Seq<char>) -> ReplyView {
    error_reply(INTERNAL_SERVER_ERROR, message)
}

/// The answer that what was asked for was done.
pub open spec fn done_reply() -> ReplyView {
    ReplyView { status: OK, body: BodyView::Done }
}

fn error(status: u16, message: &str) -> (r: Reply)
    ensures
        r@ == error_reply(status, message@),
{
    Reply { status, body: Body::Error(message.to_string()) }
}

fn done() -> (r: Reply)
    ensures
        r@ == done_reply(),
{
    Reply { status: OK, body: Body::Done }
}

/// The answer to what needs the vault while it is locked.
pub fn vault_locked_response() -> (r: Reply)
    ensures
        r@ == locked_reply(),
{
    error(LOCKED, "vault locked")
}

/// The refusal of a passphrase of so many bytes for a new vault, if any.
pub open spec fn passphrase_refusal(bytes: nat) -> Option<ReplyView> {
    if bytes < MIN_PASSPHRASE_BYTES {
        Some(
            ReplyView {
                status: BAD_REQUEST,
                body: BodyView::Unrecoverable {
                    error: "passphrase must be at least 8 characters"@,
                    recovery: "none — there is no passphrase recovery; choose carefully"@,
                },
            },
        )
    } else {
        None
    }
}

/// Refuses a passphrase that is too short for a new vault.
pub fn check_passphrase(passphrase: &str) -> (r: Option<Reply>)
    ensures
        opt_view(r) == passphrase_refusal(vstd::utf8::encode_utf8(passphrase@).len()),
        match r {
            None => vstd::utf8::encode_utf8(passphrase@).len() >= MIN_PASSPHRASE_BYTES,
            Some(reply) => {
                &&& vstd::utf8::encode_utf8(passphrase@).len() < MIN_PASSPHRASE_BYTES
                &&& reply@ == (ReplyView {
                    status: BAD_REQUEST,
                    body: BodyView::Unrecoverable {
                        error: "passphrase must be at least 8 characters"@,
                        recovery: "none — there is no passphrase recovery; choose carefully"@,
                    },
                })
            },
        },
{
    if passphrase.as_bytes().len() < MIN_PASSPHRASE_BYTES {
        Some(
            Reply {
                status: BAD_REQUEST,
                body: Body::Unrecoverable {
                    error: "passphrase must be at least 8 characters".to_string(),
                    recovery: "none — there is no passphrase recovery; choose carefully".to_string(),
                },
            },
        )
    } else {
        None
    }
}

/// The answer to a request to create the vault.
pub open spec fn init_reply_of(outcome: Result<(), Seq<char>>) -> ReplyView {
    match outcome {
        Ok(()) => ReplyView {
            status: OK,
            body: BodyView::Warning(
                "Forgetting this passphrase means permanent data loss. There is no recovery."@,
            ),
        },
        Err(m) => if text::contains(m, "already initialized"@) {
            error_reply(CONFLICT, "vault already initialized"@)
        } else {
            failure_reply(m)
        },
    }
}

/// The outcome of a request, with its error in words.
pub open spec fn outcome_text<T>(o: Result<T, String>) -> Result<T, Seq<char>> {
    match o {
        Ok(t) => Ok(t),
        Err(m) => Err(m@),
    }
}

/// The answer to a request to create the vault.
pub fn init_reply(outcome: Result<(), String>) -> (r: Reply)
    ensures
        r@ == init_reply_of(outcome_text(outcome)),
{
    match outcome {
        Ok(()) => Reply {
            status: OK,
            body: Body::Warning(
                "Forgetting this passphrase means permanent data loss. There is no recovery.".to_string(),
            ),
        },
        Err(m) => if str_contains(m.as_str(), "already initialized") {
            error(CONFLICT, "vault already initialized")
        } else {
            error(INTERNAL_SERVER_ERROR, m.as_str())
        },
    }
}

/// The answer to a request to open the vault.
pub open spec fn unlock_reply_of(outcome: Result<(), Seq<char>>) -> ReplyView {
    match outcome {
        Ok(()) => done_reply(),
        Err(m) => if text::contains(m, "wrong passphrase"@) {
            error_reply(UNAUTHORIZED, "wrong passphrase"@)
        } else if text::contains(m, "not initialized"@) {
            error_reply(CONFLICT, "vault not initialized"@)
        } else {
            failure_reply(m)
        },
    }
}

/// The answer to a request to open the vault.
pub fn unlock_reply(outcome: Result<(), String>) -> (r: Reply)
    ensures
        r@ == unlock_reply_of(outcome_text(outcome)),
{
    match outcome {
        Ok(()) => done(),
        Err(m) => if str_contains(m.as_str(), "wrong passphrase") {
            error(UNAUTHORIZED, "wrong passphrase")
        } else if str_contains(m.as_str(), "not initialized") {
            error(CONFLICT, "vault not initialized")
        } else {
            error(INTERNAL_SERVER_ERROR, m.as_str())
        },
    }
}

/// The answer to a request to lock the vault.
pub open spec fn lock_reply_of(outcome: Result<(), Seq<char>>) -> ReplyView {
    match outcome {
        Ok(()) => done_reply(),
        Err(m) => failure_reply(m),
    }
}

/// The answer to a request to lock the vault.
pub fn lock_reply(outcome: Result<(), String>) -> (r: Reply)
    ensures
        r@ == lock_reply_of(outcome_text(outcome)),
        r@ == match outcome_text(outcome) {
            Ok(()) => done_reply(),
            Err(m) => failure_reply(m),
        },
{
    match outcome {
        Ok(()) => done(),
        Err(m) => error(INTERNAL_SERVER_ERROR, m.as_str()),
    }
}

/// The answer to a request for something that the vault holds: `Ok(false)` is
/// that there is no such thing, which `missing` says in words.
pub open spec fn lookup_reply_of(
    locked: bool,
    outcome: Result<bool, Seq<char>>,
    missing: Seq<char>,
    found: ReplyView,
) -> ReplyView {
    if locked {
        locked_reply()
    } else {
        match outcome {
            Ok(true) => found,
            Ok(false) => error_reply(NOT_FOUND, missing),
            Err(m) => failure_reply(m),
        }
    }
}

/// The answer with what was asked for.
pub open spec fn payload_reply() -> ReplyView {
    ReplyView { status: OK, body: BodyView::Payload }
}

/// The answer to a request for a list out of the vault.
pub open spec fn list_reply_of(locked: bool, outcome: Result<(), Seq<char>>) -> ReplyView {
    if locked {
        locked_reply()
    } else {
        match outcome {
            Ok(()) => payload_reply(),
            Err(m) => failure_reply(m),
        }
    }
}

/// The answer to a request for one thing out of the vault.
pub open spec fn detail_reply_of(locked: bool, outcome: Result<bool, Seq<char>>) -> ReplyView {
    lookup_reply_of(locked, outcome, "not found"@, payload_reply())
}

/// The answer to a request that changes or deletes a profile.
pub open spec fn profile_change_reply_of(
    locked: bool,
    outcome: Result<bool, Seq<char>>,
) -> ReplyView {
    lookup_reply_of(locked, outcome, "profile not found"@, done_reply())
}

/// The answer to a request for a list out of the vault: profiles, proposals,
/// the audit log, similar pictures.
pub fn list_reply(locked: bool, outcome: Result<(), String>) -> (r: Reply)
    ensures
        r@ == list_reply_of(locked, outcome_text(outcome)),
        r@ == if locked {
            locked_reply()
        } else {
            match outcome_text(outcome) {
                Ok(()) => payload_reply(),
                Err(m) => failure_reply(m),
            }
        },
{
    if locked {
        return vault_locked_response();
    }
    match outcome {
        Ok(()) => Reply { status: OK, body: Body::Payload },
        Err(m) => error(INTERNAL_SERVER_ERROR, m.as_str()),
    }
}

/// The answer to a request for one thing out of the vault, a profile or a
/// picture; `outcome` says whether it is there.
pub fn detail_reply(locked: bool, outcome: Result<bool, String>) -> (r: Reply)
    ensures
        r@ == lookup_reply_of(locked, outcome_text(outcome), "not found"@, payload_reply()),
        r@ == detail_reply_of(locked, outcome_text(outcome)),
{
    if locked {
        return vault_locked_response();
    }
    match outcome {
        Ok(true) => Reply { status: OK, body: Body::Payload },
        Ok(false) => error(NOT_FOUND, "not found"),
        Err(m) => error(INTERNAL_SERVER_ERROR, m.as_str()),
    }
}

/// The refusal of a note of so many bytes, if any.
pub open spec fn note_refusal(locked: bool, bytes: nat) -> Option<ReplyView> {
    if locked {
        Some(locked_reply())
    } else if bytes > MAX_NOTE_BYTES {
        Some(error_reply(PAYLOAD_TOO_LARGE, "note exceeds 64 KiB"@))
    } else {
        None
    }
}

/// Refuses a note while the vault is locked, or one that is too long.
pub fn check_note(locked: bool, note: &str) -> (r: Option<Reply>)
    ensures
        opt_view(r) == note_refusal(locked, vstd::utf8::encode_utf8(note@).len()),
        match r {
            None => !locked && vstd::utf8::encode_utf8(note@).len() <= MAX_NOTE_BYTES,
            Some(reply) => if locked {
                reply@ == locked_reply()
            } else {
                vstd::utf8::encode_utf8(note@).len() > MAX_NOTE_BYTES && reply@ == error_reply(
                    PAYLOAD_TOO_LARGE,
                    "note exceeds 64 KiB"@,
                )
            },
        },
{
    if locked {
        Some(vault_locked_response())
    } else if note.as_bytes().len() > MAX_NOTE_BYTES {
        Some(error(PAYLOAD_TOO_LARGE, "note exceeds 64 KiB"))
    } else {
        None
    }
}

/// The answer to a request that changes or deletes a profile; `outcome` says
/// whether there was one.
pub fn profile_change_reply(locked: bool, outcome: Result<bool, String>) -> (r: Reply)
    ensures
        r@ == lookup_reply_of(locked, outcome_text(outcome), "profile not found"@, done_reply()),
        r@ == profile_change_reply_of(locked, outcome_text(outcome)),
{
    if locked {
        return vault_locked_response();
    }
    match outcome {
        Ok(true) => done(),
        Ok(false) => error(NOT_FOUND, "profile not found"),
        Err(m) => error(INTERNAL_SERVER_ERROR, m.as_str()),
    }
}

/// The answer to the question how many proposals wait.
pub open spec fn count_reply_of(locked: bool, outcome: Result<i64, Seq<char>>) -> ReplyView {
    if locked {
        ReplyView { status: OK, body: BodyView::Count { count: 0, locked: true } }
    } else {
        match outcome {
            Ok(n) => ReplyView { status: OK, body: BodyView::Count { count: n, locked: false } },
            Err(m) => failure_reply(m),
        }
    }
}

/// The answer to the question how many proposals wait: none to be seen while
/// the vault is locked, which is no error.
pub fn count_reply(locked: bool, outcome: Result<i64, String>) -> (r: Reply)
    ensures
        r@ == count_reply_of(locked, outcome_text(outcome)),
        r@ == if locked {
            ReplyView { status: OK, body: BodyView::Count { count: 0, locked: true } }
        } else {
            match outcome_text(outcome) {
                Ok(n) => ReplyView { status: OK, body: BodyView::Count { count: n, locked: false } },
                Err(m) => failure_reply(m),
            }
        },
{
    if locked {
        return Reply { status: OK, body: Body::Count { count: 0, locked: true } };
    }
    match outcome {
        Ok(n) => Reply { status: OK, body: Body::Count { count: n, locked: false } },
        Err(m) => error(INTERNAL_SERVER_ERROR, m.as_str()),
    }
}

/// The answer to the acceptance of a proposal.
pub open spec fn accept_reply_of(locked: bool, outcome: Result<Seq<char>, Seq<char>>) -> ReplyView {
    if locked {
        locked_reply()
    } else {
        match outcome {
            Ok(profile_id) => ReplyView { status: OK, body: BodyView::Profile(profile_id) },
            Err(m) => if text::contains(m, "already resolved"@) {
                error_reply(CONFLICT, "already resolved"@)
            } else if text::contains(m, "not found"@) {
                error_reply(NOT_FOUND, "not found"@)
            } else {
                failure_reply(m)
            },
        }
    }
}

/// The answer to the acceptance of a proposal.
pub fn accept_reply(locked: bool, outcome: Result<String, String>) -> (r: Reply)
    ensures
        r@ == accept_reply_of(
            locked,
            match outcome {
                Ok(p) => Ok(p@),
                Err(m) => Err(m@),
            },
        ),
{
    if locked {
        return vault_locked_response();
    }
    match outcome {
        Ok(profile_id) => Reply { status: OK, body: Body::Profile(profile_id) },
        Err(m) => if str_contains(m.as_str(), "already resolved") {
            error(CONFLICT, "already resolved")
        } else if str_contains(m.as_str(), "not found") {
            error(NOT_FOUND, "not found")
        } else {
            error(INTERNAL_SERVER_ERROR, m.as_str())
        },
    }
}

/// The answer to the rejection of a proposal.
pub open spec fn reject_reply_of(locked: bool, outcome: Result<(), Seq<char>>) -> ReplyView {
    if locked {
        locked_reply()
    } else {
        match outcome {
            Ok(()) => done_reply(),
            Err(m) => if text::contains(m, "not pending"@) {
                error_reply(CONFLICT, "not pending or not found"@)
            } else {
                failure_reply(m)
            },
        }
    }
}

/// The answer to the rejection of a proposal.
pub fn reject_reply(locked: bool, outcome: Result<(), String>) -> (r: Reply)
    ensures
        r@ == reject_reply_of(locked, outcome_text(outcome)),
{
    if locked {
        return vault_locked_response();
    }
    match outcome {
        Ok(()) => done(),
        Err(m) => if str_contains(m.as_str(), "not pending") {
            error(CONFLICT, "not pending or not found")
        } else {
            error(INTERNAL_SERVER_ERROR, m.as_str())
        },
    }
}

proof fn text_contains_at(s: Seq<char>, p: Seq<char>, i: int)
    requires
        0 <= i,
        i + p.len() <= s.len(),
        s.subrange(i, i + p.len()) =~= p,
    ensures
        text::contains(s, p),
{
    assert(text::occurs_at(s, p, i));
}

proof fn character_is_missing(s: Seq<char>, p: Seq<char>, k: int)
    requires
        0 <= k < p.len(),
        forall|j: int| k <= j <= s.len() - p.len() + k ==> #[trigger] s[j] != p[k],
    ensures
        !text::contains(s, p),
{
    assert forall|i: int| !#[trigger] text::occurs_at(s, p, i) by {
        if text::occurs_at(s, p, i) {
            assert(s.subrange(i, i + p.len())[k] == s[i + k]);
        }
    }
}

proof fn creation_is_refused(e: VaultError)
    requires
        !(e is Other),
    ensures
        text::contains(e.text(), "already initialized"@) <==> e is AlreadyInitialized,
{
    reveal_strlit("vault already initialized");
    reveal_strlit("vault not initialized");
    reveal_strlit("vault.salt is not valid base64");
    reveal_strlit("vault.salt has wrong length");
    reveal_strlit("argon2 KDF failed");
    reveal_strlit("open vault db");
    reveal_strlit("run vault migrations");
    reveal_strlit("wrong passphrase");
    reveal_strlit("vault locked");
    reveal_strlit("already resolved");
    reveal_strlit("not found");
    reveal_strlit("not pending or not found");
    reveal_strlit("already initialized");
    match e {
        VaultError::AlreadyInitialized => text_contains_at(e.text(), "already initialized"@, 6),
        _ => character_is_missing(e.text(), "already initialized"@, 6),
    }
}

proof fn opening_is_refused(e: VaultError)
    requires
        !(e is Other),
    ensures
        text::contains(e.text(), "wrong passphrase"@) <==> e is WrongPassphrase,
        text::contains(e.text(), "not initialized"@) <==> e is NotInitialized,
{
    reveal_strlit("vault already initialized");
    reveal_strlit("vault not initialized");
    reveal_strlit("vault.salt is not valid base64");
    reveal_strlit("vault.salt has wrong length");
    reveal_strlit("argon2 KDF failed");
    reveal_strlit("open vault db");
    reveal_strlit("run vault migrations");
    reveal_strlit("wrong passphrase");
    reveal_strlit("vault locked");
    reveal_strlit("already resolved");
    reveal_strlit("not found");
    reveal_strlit("not pending or not found");
    reveal_strlit("wrong passphrase");
    reveal_strlit("not initialized");
    match e {
        VaultError::WrongPassphrase => text_contains_at(e.text(), "wrong passphrase"@, 0),
        _ => character_is_missing(e.text(), "wrong passphrase"@, 0),
    }
    match e {
        VaultError::NotInitialized => text_contains_at(e.text(), "not initialized"@, 6),
        VaultError::AlreadyInitialized => character_is_missing(e.text(), "not initialized"@, 0),
        _ => character_is_missing(e.text(), "not initialized"@, 12),
    }
}

proof fn review_is_refused(e: VaultError)
    requires
        !(e is Other),
    ensures
        text::contains(e.text(), "already resolved"@) <==> e is AlreadyResolved,
        text::contains(e.text(), "not found"@) <==> e is NotFound || e is NotPending,
        text::contains(e.text(), "not pending"@) <==> e is NotPending,
{
    reveal_strlit("vault already initialized");
    reveal_strlit("vault not initialized");
    reveal_strlit("vault.salt is not valid base64");
    reveal_strlit("vault.salt has wrong length");
    reveal_strlit("argon2 KDF failed");
    reveal_strlit("open vault db");
    reveal_strlit("run vault migrations");
    reveal_strlit("wrong passphrase");
    reveal_strlit("vault locked");
    reveal_strlit("already resolved");
    reveal_strlit("not found");
    reveal_strlit("not pending or not found");
    reveal_strlit("already resolved");
    reveal_strlit("not found");
    reveal_strlit("not pending");
    match e {
        VaultError::AlreadyResolved => text_contains_at(e.text(), "already resolved"@, 0),
        VaultError::AlreadyInitialized => character_is_missing(
            e.text(),
            "already resolved"@,
            13,
        ),
        _ => character_is_missing(e.text(), "already resolved"@, 6),
    }
    match e {
        VaultError::NotFound => text_contains_at(e.text(), "not found"@, 0),
        VaultError::NotPending => text_contains_at(e.text(), "not found"@, 15),
        VaultError::Kdf => character_is_missing(e.text(), "not found"@, 6),
        _ => character_is_missing(e.text(), "not found"@, 4),
    }
    match e {
        VaultError::NotPending => text_contains_at(e.text(), "not pending"@, 0),
        VaultError::WrongPassphrase => character_is_missing(e.text(), "not pending"@, 10),
        _ => character_is_missing(e.text(), "not pending"@, 4),
    }
}

/// What each refusal of the vault is answered: that there is a vault already or
/// none yet, and that a proposal was resolved before, is a conflict; a wrong
/// passphrase is not authorized; a proposal that is not there is not found;
/// anything else is a failure of the server. Left out is what something else
/// than the vault reported, which is judged by its words.
pub proof fn refusals_are_answered(e: VaultError)
    requires
        !(e is Other),
    ensures
        init_reply_of(Err(e.text())).status == if e is AlreadyInitialized {
            CONFLICT
        } else {
            INTERNAL_SERVER_ERROR
        },
        unlock_reply_of(Err(e.text())).status == if e is WrongPassphrase {
            UNAUTHORIZED
        } else if e is NotInitialized {
            CONFLICT
        } else {
            INTERNAL_SERVER_ERROR
        },
        accept_reply_of(false, Err(e.text())).status == if e is AlreadyResolved {
            CONFLICT
        } else if e is NotFound || e is NotPending {
            NOT_FOUND
        } else {
            INTERNAL_SERVER_ERROR
        },
        reject_reply_of(false, Err(e.text())).status == if e is NotPending {
            CONFLICT
        } else {
            INTERNAL_SERVER_ERROR
        },
{
    creation_is_refused(e);
    opening_is_refused(e);
    review_is_refused(e);
}

/// While the vault is locked, nothing that it holds is given out and nothing is
/// changed: each such request is answered with `423 Locked`, and the count of
/// proposals with none.
pub proof fn locked_vault_gives_nothing_out(
    found: Result<bool, Seq<char>>,
    missing: Seq<char>,
    there: ReplyView,
    accepted: Result<Seq<char>, Seq<char>>,
    rejected: Result<(), Seq<char>>,
)
    ensures
        lookup_reply_of(true, found, missing, there) == locked_reply(),
        accept_reply_of(true, accepted) == locked_reply(),
        reject_reply_of(true, rejected) == locked_reply(),
        locked_reply().status == 423,
{
}

/// How far apart two pictures may be, given what was asked for.
pub open spec fn distance_of(requested: Option<u32>) -> u32 {
    match requested {
        None => DEFAULT_DISTANCE,
        Some(d) => if d < MAX_DISTANCE {
            d
        } else {
            MAX_DISTANCE
        },
    }
}

/// How far apart two pictures may be, given what was asked for.
pub fn effective_distance(requested: Option<u32>) -> (r: u32)
    ensures
        r == distance_of(requested),
        r == match requested {
            None => DEFAULT_DISTANCE,
            Some(d) => if d < MAX_DISTANCE {
                d
            } else {
                MAX_DISTANCE
            },
        },
        r <= MAX_DISTANCE,
{
    match requested {
        None => DEFAULT_DISTANCE,
        Some(d) => if d < MAX_DISTANCE {
            d
        } else {
            MAX_DISTANCE
        },
    }
}

/// Whether sites are loaded, how many, and why not.
#[derive(Debug)]
pub struct StatusResponse {
    pub ready: bool,
    pub sites_count: usize,
    pub error: Option<String>,
}

/// Whether sites are loaded, how many, and why not.
pub fn status_response(list: Option<&Table<SiteData>>, load_error: &Option<String>) -> (r:
    StatusResponse)
    ensures
        r.ready == (list is Some),
        r.sites_count == match list {
            Some(t) => t@.len(),
            None => 0,
        },
        text::opt_text(r.error) == text::opt_text(*load_error),
{
    let error = match load_error {
        Some(e) => Some(e.clone()),
        None => None,
    };
    match list {
        Some(t) => StatusResponse { ready: true, sites_count: t.len(), error },
        None => StatusResponse { ready: false, sites_count: 0, error },
    }
}

/// What came of loading the site list anew.
#[derive(Debug)]
pub struct UpdateResponse {
    pub success: bool,
    pub sites_count: usize,
    pub error: Option<String>,
}

/// What came of loading the site list anew: how many sites there are now, or
/// why it failed.
pub fn update_response(outcome: Result<usize, String>) -> (r: UpdateResponse)
    ensures
        match outcome {
            Ok(n) => r == (UpdateResponse { success: true, sites_count: n, error: None }),
            Err(m) => r == (UpdateResponse { success: false, sites_count: 0, error: Some(m) }),
        },
{
    match outcome {
        Ok(n) => UpdateResponse { success: true, sites_count: n, error: None },
        Err(m) => UpdateResponse { success: false, sites_count: 0, error: Some(m) },
    }
}

/// The numbers that answers go by.
pub proof fn answers_go_by_these_numbers()
    ensures
        OK == 200,
        BAD_REQUEST == 400,
        UNAUTHORIZED == 401,
        NOT_FOUND == 404,
        CONFLICT == 409,
        PAYLOAD_TOO_LARGE == 413,
        LOCKED == 423,
        INTERNAL_SERVER_ERROR == 500,
        MIN_PASSPHRASE_BYTES == 8,
        MAX_NOTE_BYTES == 64 * 1024,
        MAX_BODY_BYTES == 10 * 1024 * 1024,
        DEFAULT_DISTANCE == 8,
        MAX_DISTANCE == 32,
        AUDIT_LIMIT == 200,
{
}

/// What stands in the answer to each outcome. An error that the vault foresees
/// is answered in fixed words, another in its own.
pub proof fn answers_read_so(m: Seq<char>, id: Seq<char>, missing: Seq<char>, there: ReplyView)
    ensures
        locked_reply() == (ReplyView { status: 423, body: BodyView::Error("vault locked"@) }),
        failure_reply(m) == (ReplyView { status: 500, body: BodyView::Error(m) }),
        done_reply() == (ReplyView { status: 200, body: BodyView::Done }),
        payload_reply() == (ReplyView { status: 200, body: BodyView::Payload }),
        init_reply_of(Ok(())) == (ReplyView {
            status: 200,
            body: BodyView::Warning(
                "Forgetting this passphrase means permanent data loss. There is no recovery."@,
            ),
        }),
        init_reply_of(Err(m)) == if text::contains(m, "already initialized"@) {
            ReplyView { status: 409, body: BodyView::Error("vault already initialized"@) }
        } else {
            ReplyView { status: 500, body: BodyView::Error(m) }
        },
        unlock_reply_of(Ok(())) == (ReplyView { status: 200, body: BodyView::Done }),
        unlock_reply_of(Err(m)) == if text::contains(m, "wrong passphrase"@) {
            ReplyView { status: 401, body: BodyView::Error("wrong passphrase"@) }
        } else if text::contains(m, "not initialized"@) {
            ReplyView { status: 409, body: BodyView::Error("vault not initialized"@) }
        } else {
            ReplyView { status: 500, body: BodyView::Error(m) }
        },
        lookup_reply_of(false, Ok(true), missing, there) == there,
        lookup_reply_of(false, Ok(false), missing, there) == (ReplyView {
            status: 404,
            body: BodyView::Error(missing),
        }),
        lookup_reply_of(false, Err(m), missing, there) == (ReplyView {
            status: 500,
            body: BodyView::Error(m),
        }),
        accept_reply_of(false, Ok(id)) == (ReplyView { status: 200, body: BodyView::Profile(id) }),
        accept_reply_of(false, Err(m)) == if text::contains(m, "already resolved"@) {
            ReplyView { status: 409, body: BodyView::Error("already resolved"@) }
        } else if text::contains(m, "not found"@) {
            ReplyView { status: 404, body: BodyView::Error("not found"@) }
        } else {
            ReplyView { status: 500, body: BodyView::Error(m) }
        },
        reject_reply_of(false, Ok(())) == (ReplyView { status: 200, body: BodyView::Done }),
        reject_reply_of(false, Err(m)) == if text::contains(m, "not pending"@) {
            ReplyView { status: 409, body: BodyView::Error("not pending or not found"@) }
        } else {
            ReplyView { status: 500, body: BodyView::Error(m) }
        },
{
}

/// What is answered to requests about the vault that go another way than by its
/// errors. A passphrase of eight bytes is long enough; a note of 64 KiB is not
/// too long; while the vault is locked no note is taken, nothing is listed, and
/// no proposals are counted.
pub proof fn limits_are_answered_so(
    locked: bool,
    bytes: nat,
    n: i64,
    m: Seq<char>,
    distance: u32,
)
    ensures
        bytes >= 8 ==> passphrase_refusal(bytes) is None,
        bytes < 8 ==> passphrase_refusal(bytes) == Some(
            ReplyView {
                status: 400,
                body: BodyView::Unrecoverable {
                    error: "passphrase must be at least 8 characters"@,
                    recovery: "none — there is no passphrase recovery; choose carefully"@,
                },
            },
        ),
        note_refusal(true, bytes) == Some(
            ReplyView { status: 423, body: BodyView::Error("vault locked"@) },
        ),
        bytes <= 65536 ==> note_refusal(false, bytes) is None,
        bytes > 65536 ==> note_refusal(false, bytes) == Some(
            ReplyView { status: 413, body: BodyView::Error("note exceeds 64 KiB"@) },
        ),
        lock_reply_of(Ok(())) == (ReplyView { status: 200, body: BodyView::Done }),
        lock_reply_of(Err(m)) == (ReplyView { status: 500, body: BodyView::Error(m) }),
        list_reply_of(true, Ok(())) == locked_reply(),
        list_reply_of(true, Err(m)) == locked_reply(),
        list_reply_of(false, Ok(())) == (ReplyView { status: 200, body: BodyView::Payload }),
        list_reply_of(false, Err(m)) == (ReplyView { status: 500, body: BodyView::Error(m) }),
        detail_reply_of(false, Ok(true)) == (ReplyView { status: 200, body: BodyView::Payload }),
        detail_reply_of(false, Ok(false)) == (ReplyView {
            status: 404,
            body: BodyView::Error("not found"@),
        }),
        detail_reply_of(false, Err(m)) == (ReplyView { status: 500, body: BodyView::Error(m) }),
        detail_reply_of(true, Ok(locked)) == locked_reply(),
        profile_change_reply_of(false, Ok(true)) == (ReplyView {
            status: 200,
            body: BodyView::Done,
        }),
        profile_change_reply_of(false, Ok(false)) == (ReplyView {
            status: 404,
            body: BodyView::Error("profile not found"@),
        }),
        profile_change_reply_of(false, Err(m)) == (ReplyView {
            status: 500,
            body: BodyView::Error(m),
        }),
        profile_change_reply_of(true, Ok(locked)) == locked_reply(),
        count_reply_of(true, Ok(n)) == (ReplyView {
            status: 200,
            body: BodyView::Count { count: 0, locked: true },
        }),
        count_reply_of(true, Err(m)) == count_reply_of(true, Ok(n)),
        count_reply_of(false, Ok(n)) == (ReplyView {
            status: 200,
            body: BodyView::Count { count: n, locked: false },
        }),
        count_reply_of(false, Err(m)) == (ReplyView { status: 500, body: BodyView::Error(m) }),
        distance_of(None) == 8,
        distance <= 32 ==> distance_of(Some(distance)) == distance,
        distance > 32 ==> distance_of(Some(distance)) == 32,
{
}

} // verus!
