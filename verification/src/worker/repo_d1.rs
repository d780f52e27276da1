//! Storage in D1: which statements an operation runs, and what the database's
//! answers mean. Whoever drives it prepares, binds and runs the statements.
//!
//! Multi-row state changes (signup) are one batch, which D1 runs
//! all-or-nothing.

use vstd::prelude::*;

use crate::shared::domain::entities::{
    opt_chars, personal_org_name, Database, DatabaseView, Identity, IdentityView, OAuthState,
    OAuthStateView, OrgMembership, OrgMembershipView, Organization, OrganizationView, User,
    UserView,
};
use crate::shared::domain::enums::Role;
use crate::shared::domain::ids::{DatabaseId, IdentityId, OrgId, UserId};
use crate::shared::error::{StoreError, StoreErrorView, StoreResult};
use crate::shared::repo::OrgWithRole;
use crate::text::{contains_text, join2, occurs_at, texts};
use crate::worker::services::common::{is_unique_violation, split_sql_statements, sql_statements};

verus! {

// ---------- statements ----------

/// A value bound to a placeholder.
#[derive(Debug, PartialEq, Eq)]
pub enum Param {
    Text(String),
    Integer(i32),
    /// Milliseconds since the Unix epoch. D1 binds 32-bit integers only, so a
    /// time goes over as a JS number.
    Millis(i64),
    Null,
}

/// [`Param`] over characters.
pub enum ParamView {
    Text(Seq<char>),
    Integer(i32),
    Millis(i64),
    Null,
}

impl View for Param {
    type V = ParamView;

    open spec fn view(&self) -> ParamView {
        match self {
            Param::Text(s) => ParamView::Text(s@),
            Param::Integer(i) => ParamView::Integer(*i),
            Param::Millis(x) => ParamView::Millis(*x),
            Param::Null => ParamView::Null,
        }
    }
}

/// A statement with its bound values.
#[derive(Debug, PartialEq, Eq)]
pub struct Statement {
    pub sql: &'static str,
    pub params: Vec<Param>,
}

/// [`Statement`] over characters.
pub struct StatementView {
    pub sql: Seq<char>,
    pub params: Seq<ParamView>,
}

pub open spec fn param_views(s: Seq<Param>) -> Seq<ParamView> {
    s.map_values(|p: Param| p@)
}

impl View for Statement {
    type V = StatementView;

    open spec fn view(&self) -> StatementView {
        StatementView { sql: self.sql@, params: param_views(self.params@) }
    }
}

pub open spec fn statement(sql: Seq<char>, params: Seq<ParamView>) -> StatementView {
    StatementView { sql, params }
}

pub open spec fn statement_views(s: Seq<Statement>) -> Seq<StatementView> {
    s.map_values(|x: Statement| x@)
}

fn text(s: &str) -> (r: Param)
    ensures
        r@ == ParamView::Text(s@),
{
    Param::Text(s.to_owned())
}

fn statement1(sql: &'static str, a: Param) -> (r: Statement)
    ensures
        r@ == statement(sql@, seq![a@]),
{
    let mut params: Vec<Param> = Vec::new();
    params.push(a);
    assert(param_views(params@) =~= seq![a@]);
    Statement { sql, params }
}

fn statement2(sql: &'static str, a: Param, b: Param) -> (r: Statement)
    ensures
        r@ == statement(sql@, seq![a@, b@]),
{
    let mut params: Vec<Param> = Vec::new();
    params.push(a);
    params.push(b);
    assert(param_views(params@) =~= seq![a@, b@]);
    Statement { sql, params }
}

fn statement4(sql: &'static str, a: Param, b: Param, c: Param, d: Param) -> (r: Statement)
    ensures
        r@ == statement(sql@, seq![a@, b@, c@, d@]),
{
    let mut params: Vec<Param> = Vec::new();
    params.push(a);
    params.push(b);
    params.push(c);
    params.push(d);
    assert(param_views(params@) =~= seq![a@, b@, c@, d@]);
    Statement { sql, params }
}

pub const INSERT_USER: &'static str =
    "INSERT INTO users (id, email, email_verified, created_at_ms) VALUES (?, ?, ?, ?)";

pub const INSERT_IDENTITY: &'static str =
    "INSERT INTO identities (id, user_id, provider, provider_user_id, secret, created_at_ms) VALUES (?, ?, ?, ?, ?, ?)";

pub const INSERT_PERSONAL_ORG: &'static str =
    "INSERT INTO organizations (id, display_name, personal, owner_user_id, created_at_ms) VALUES (?, ?, 1, ?, ?)";

pub const INSERT_ORG: &'static str =
    "INSERT INTO organizations (id, display_name, personal, owner_user_id, created_at_ms) VALUES (?, ?, 0, ?, ?)";

pub const INSERT_MEMBERSHIP: &'static str =
    "INSERT INTO org_memberships (user_id, org_id, role, created_at_ms) VALUES (?, ?, ?, ?)";

pub const INSERT_DATABASE: &'static str =
    "INSERT INTO databases (id, org_id, name, created_by, created_at_ms) VALUES (?, ?, ?, ?, ?)";

pub const INSERT_STATE: &'static str =
    "INSERT INTO oauth_states (state, provider, created_at_ms, expires_at_ms) VALUES (?, ?, ?, ?)";

// ---------- signup ----------

/// Inputs for the four-statement "create user + identity + personal org +
/// admin membership" batch shared by password and OAuth signup.
#[derive(Debug, PartialEq, Eq)]
pub struct SignupRecord {
    pub email: String,
    pub email_verified: bool,
    pub provider: String,
    /// `None` for password (the new user id is used as `provider_user_id`).
    pub provider_user_id: Option<String>,
    /// Argon2 hash for password identities; `None` for OAuth.
    pub secret: Option<String>,
    pub now_ms: i64,
}

/// A text, or NULL where there is none.
pub open spec fn text_or_null(s: Option<Seq<char>>) -> ParamView {
    match s {
        Some(t) => ParamView::Text(t),
        None => ParamView::Null,
    }
}

fn nullable(s: &Option<String>) -> (r: Param)
    ensures
        r@ == text_or_null(opt_chars(*s)),
{
    match s {
        Some(t) => text(t.as_str()),
        None => Param::Null,
    }
}

/// The statement that inserts an identity.
pub open spec fn identity_insert(i: IdentityView) -> StatementView {
    statement(
        INSERT_IDENTITY@,
        seq![
            ParamView::Text(i.id),
            ParamView::Text(i.user_id),
            ParamView::Text(i.provider),
            ParamView::Text(i.provider_user_id),
            text_or_null(i.secret),
            ParamView::Millis(i.created_at_ms),
        ],
    )
}

fn insert_identity(i: &Identity) -> (r: Statement)
    ensures
        r@ == identity_insert(i@),
{
    let mut params: Vec<Param> = Vec::new();
    params.push(text(i.id.as_str()));
    params.push(text(i.user_id.as_str()));
    params.push(text(i.provider.as_str()));
    params.push(text(i.provider_user_id.as_str()));
    params.push(nullable(&i.secret));
    params.push(Param::Millis(i.created_at_ms));
    assert(param_views(params@) =~= identity_insert(i@).params);
    Statement { sql: INSERT_IDENTITY, params }
}

/// The statement that inserts an admin membership.
pub open spec fn admin_insert(user: Seq<char>, org: Seq<char>, now_ms: i64) -> StatementView {
    statement(
        INSERT_MEMBERSHIP@,
        seq![
            ParamView::Text(user),
            ParamView::Text(org),
            ParamView::Text("admin"@),
            ParamView::Millis(now_ms),
        ],
    )
}

/// The batch of a signup: the user, their identity, their personal
/// organization and their admin membership of it, in this order.
pub open spec fn signup_batch(
    email: Seq<char>,
    email_verified: bool,
    provider: Seq<char>,
    provider_user_id: Option<Seq<char>>,
    secret: Option<Seq<char>>,
    now_ms: i64,
    user: Seq<char>,
    identity: Seq<char>,
    org: Seq<char>,
) -> Seq<StatementView> {
    seq![
        statement(
            INSERT_USER@,
            seq![
                ParamView::Text(user),
                ParamView::Text(email),
                ParamView::Integer(
                    if email_verified {
                        1
                    } else {
                        0
                    },
                ),
                ParamView::Millis(now_ms),
            ],
        ),
        identity_insert(
            IdentityView {
                id: identity,
                user_id: user,
                provider,
                provider_user_id: match provider_user_id {
                    Some(p) => p,
                    None => user,
                },
                secret,
                created_at_ms: now_ms,
            },
        ),
        statement(
            INSERT_PERSONAL_ORG@,
            seq![
                ParamView::Text(org),
                ParamView::Text(email + " (personal)"@),
                ParamView::Text(user),
                ParamView::Millis(now_ms),
            ],
        ),
        admin_insert(user, org, now_ms),
    ]
}

/// The batch of a signup under given ids, and the user that it creates.
pub fn signup_with_personal_org(
    rec: SignupRecord,
    user_id: UserId,
    identity_id: IdentityId,
    org_id: OrgId,
) -> (r: (Vec<Statement>, User))
    ensures
        statement_views(r.0@) == signup_batch(
            rec.email@,
            rec.email_verified,
            rec.provider@,
            opt_chars(rec.provider_user_id),
            opt_chars(rec.secret),
            rec.now_ms,
            user_id@,
            identity_id@,
            org_id@,
        ),
        r.1@ == (UserView {
            id: user_id@,
            email: rec.email@,
            email_verified: rec.email_verified,
            created_at_ms: rec.now_ms,
        }),
{
    let ghost want = signup_batch(
        rec.email@,
        rec.email_verified,
        rec.provider@,
        opt_chars(rec.provider_user_id),
        opt_chars(rec.secret),
        rec.now_ms,
        user_id@,
        identity_id@,
        org_id@,
    );
    let org_name: String = personal_org_name(rec.email.as_str());
    let verified: i32 = if rec.email_verified {
        1
    } else {
        0
    };
    let mut out: Vec<Statement> = Vec::new();
    out.push(
        statement4(
            INSERT_USER,
            text(user_id.as_str()),
            text(rec.email.as_str()),
            Param::Integer(verified),
            Param::Millis(rec.now_ms),
        ),
    );
    let provider_user_id: String = match &rec.provider_user_id {
        Some(p) => p.clone(),
        None => user_id.as_str().to_owned(),
    };
    let identity: Identity = Identity {
        id: identity_id,
        user_id: user_id.clone(),
        provider: rec.provider,
        provider_user_id,
        secret: rec.secret,
        created_at_ms: rec.now_ms,
    };
    out.push(insert_identity(&identity));
    out.push(
        statement4(
            INSERT_PERSONAL_ORG,
            text(org_id.as_str()),
            text(org_name.as_str()),
            text(user_id.as_str()),
            Param::Millis(rec.now_ms),
        ),
    );
    out.push(
        statement4(
            INSERT_MEMBERSHIP,
            text(user_id.as_str()),
            text(org_id.as_str()),
            text(Role::Admin.as_str()),
            Param::Millis(rec.now_ms),
        ),
    );
    assert(statement_views(out@) =~= want);
    let user: User = User {
        id: user_id,
        email: rec.email,
        email_verified: rec.email_verified,
        created_at_ms: rec.now_ms,
    };
    (out, user)
}

/// The statement that links an identity.
pub fn link_identity(identity: &Identity) -> (r: Statement)
    ensures
        r@ == identity_insert(identity@),
{
    insert_identity(identity)
}

/// The batch of a new organization under a given id, and the organization.
pub fn create_organization(
    id: OrgId,
    display_name: String,
    owner_user_id: UserId,
    now_ms: i64,
) -> (r: (Vec<Statement>, Organization))
    ensures
        statement_views(r.0@) == seq![
            statement(
                INSERT_ORG@,
                seq![
                    ParamView::Text(id@),
                    ParamView::Text(display_name@),
                    ParamView::Text(owner_user_id@),
                    ParamView::Millis(now_ms),
                ],
            ),
            admin_insert(owner_user_id@, id@, now_ms),
        ],
        r.1@ == (OrganizationView {
            id: id@,
            display_name: display_name@,
            personal: false,
            owner_user_id: Some(owner_user_id@),
            created_at_ms: now_ms,
        }),
{
    let mut out: Vec<Statement> = Vec::new();
    out.push(
        statement4(
            INSERT_ORG,
            text(id.as_str()),
            text(display_name.as_str()),
            text(owner_user_id.as_str()),
            Param::Millis(now_ms),
        ),
    );
    out.push(
        statement4(
            INSERT_MEMBERSHIP,
            text(owner_user_id.as_str()),
            text(id.as_str()),
            text(Role::Admin.as_str()),
            Param::Millis(now_ms),
        ),
    );
    assert(statement_views(out@) =~= seq![
        statement(
            INSERT_ORG@,
            seq![
                ParamView::Text(id@),
                ParamView::Text(display_name@),
                ParamView::Text(owner_user_id@),
                ParamView::Millis(now_ms),
            ],
        ),
        admin_insert(owner_user_id@, id@, now_ms),
    ]);
    let org: Organization = Organization {
        id,
        display_name,
        personal: false,
        owner_user_id: Some(owner_user_id),
        created_at_ms: now_ms,
    };
    (out, org)
}

/// The statement that creates a database.
pub fn create_database(db: &Database) -> (r: Statement)
    ensures
        r@ == statement(
            INSERT_DATABASE@,
            seq![
                ParamView::Text(db@.id),
                ParamView::Text(db@.org_id),
                ParamView::Text(db@.name),
                ParamView::Text(db@.created_by),
                ParamView::Millis(db@.created_at_ms),
            ],
        ),
{
    let mut params: Vec<Param> = Vec::new();
    params.push(text(db.id.as_str()));
    params.push(text(db.org_id.as_str()));
    params.push(text(db.name.as_str()));
    params.push(text(db.created_by.as_str()));
    params.push(Param::Millis(db.created_at_ms));
    assert(param_views(params@) =~= seq![
        ParamView::Text(db@.id),
        ParamView::Text(db@.org_id),
        ParamView::Text(db@.name),
        ParamView::Text(db@.created_by),
        ParamView::Millis(db@.created_at_ms),
    ]);
    Statement { sql: INSERT_DATABASE, params }
}

/// The statement that stores an OAuth state.
pub fn store_oauth_state(state: &OAuthState) -> (r: Statement)
    ensures
        r@ == statement(
            INSERT_STATE@,
            seq![
                ParamView::Text(state@.state),
                ParamView::Text(state@.provider),
                ParamView::Millis(state@.created_at_ms),
                ParamView::Millis(state@.expires_at_ms),
            ],
        ),
{
    statement4(
        INSERT_STATE,
        text(state.state.as_str()),
        text(state.provider.as_str()),
        Param::Millis(state.created_at_ms),
        Param::Millis(state.expires_at_ms),
    )
}

// ---------- lookups and single-row changes ----------

/// An operation that is one statement over texts.
#[derive(Debug, PartialEq, Eq)]
pub enum Query<'a> {
    UserById(&'a str),
    UserByEmail(&'a str),
    IdentitiesOfUser(&'a str),
    IdentityOfProvider { provider: &'a str, provider_user_id: &'a str },
    OrganizationById(&'a str),
    OrganizationsOfUser(&'a str),
    MembershipOf { user: &'a str, org: &'a str },
    DatabaseById(&'a str),
    DatabasesOfOrg(&'a str),
    SetSecret { secret: &'a str, identity: &'a str },
    DeleteDatabase(&'a str),
    /// `DELETE … RETURNING` makes lookup-and-consume atomic in one round
    /// trip: only one concurrent caller observes the row.
    ConsumeState(&'a str),
}

pub const SELECT_USER: &'static str =
    "SELECT id, email, email_verified, created_at_ms FROM users WHERE id = ?";

pub const SELECT_USER_BY_EMAIL: &'static str =
    "SELECT id, email, email_verified, created_at_ms FROM users WHERE LOWER(email) = LOWER(?)";

pub const SELECT_IDENTITIES: &'static str =
    "SELECT id, user_id, provider, provider_user_id, secret, created_at_ms FROM identities WHERE user_id = ?";

pub const SELECT_IDENTITY: &'static str =
    "SELECT id, user_id, provider, provider_user_id, secret, created_at_ms FROM identities WHERE provider = ? AND provider_user_id = ?";

pub const SELECT_ORG: &'static str =
    "SELECT id, display_name, personal, owner_user_id, created_at_ms FROM organizations WHERE id = ?";

pub const SELECT_ORGS_OF_USER: &'static str =
    "SELECT o.id, o.display_name, o.personal, o.owner_user_id, o.created_at_ms, m.role FROM organizations o JOIN org_memberships m ON m.org_id = o.id WHERE m.user_id = ? ORDER BY o.id";

pub const SELECT_MEMBERSHIP: &'static str =
    "SELECT user_id, org_id, role, created_at_ms FROM org_memberships WHERE user_id = ? AND org_id = ?";

pub const SELECT_DATABASE: &'static str =
    "SELECT id, org_id, name, created_by, created_at_ms FROM databases WHERE id = ?";

pub const SELECT_DATABASES: &'static str =
    "SELECT id, org_id, name, created_by, created_at_ms FROM databases WHERE org_id = ? ORDER BY created_at_ms";

pub const UPDATE_SECRET: &'static str = "UPDATE identities SET secret = ? WHERE id = ?";

pub const DELETE_DATABASE: &'static str = "DELETE FROM databases WHERE id = ?";

pub const CONSUME_STATE: &'static str =
    "DELETE FROM oauth_states WHERE state = ? RETURNING state, provider, created_at_ms, expires_at_ms";

/// The text and the bound texts of an operation.
pub open spec fn query_statement(q: Query<'_>) -> StatementView {
    match q {
        Query::UserById(a) => statement(SELECT_USER@, seq![ParamView::Text(a@)]),
        Query::UserByEmail(a) => statement(SELECT_USER_BY_EMAIL@, seq![ParamView::Text(a@)]),
        Query::IdentitiesOfUser(a) => statement(SELECT_IDENTITIES@, seq![ParamView::Text(a@)]),
        Query::IdentityOfProvider { provider, provider_user_id } => statement(
            SELECT_IDENTITY@,
            seq![ParamView::Text(provider@), ParamView::Text(provider_user_id@)],
        ),
        Query::OrganizationById(a) => statement(SELECT_ORG@, seq![ParamView::Text(a@)]),
        Query::OrganizationsOfUser(a) => statement(
            SELECT_ORGS_OF_USER@,
            seq![ParamView::Text(a@)],
        ),
        Query::MembershipOf { user, org } => statement(
            SELECT_MEMBERSHIP@,
            seq![ParamView::Text(user@), ParamView::Text(org@)],
        ),
        Query::DatabaseById(a) => statement(SELECT_DATABASE@, seq![ParamView::Text(a@)]),
        Query::DatabasesOfOrg(a) => statement(SELECT_DATABASES@, seq![ParamView::Text(a@)]),
        Query::SetSecret { secret, identity } => statement(
            UPDATE_SECRET@,
            seq![ParamView::Text(secret@), ParamView::Text(identity@)],
        ),
        Query::DeleteDatabase(a) => statement(DELETE_DATABASE@, seq![ParamView::Text(a@)]),
        Query::ConsumeState(a) => statement(CONSUME_STATE@, seq![ParamView::Text(a@)]),
    }
}

/// The statement of an operation.
pub fn prepare(q: Query<'_>) -> (r: Statement)
    ensures
        r@ == query_statement(q),
{
    match q {
        Query::UserById(a) => statement1(SELECT_USER, text(a)),
        Query::UserByEmail(a) => statement1(SELECT_USER_BY_EMAIL, text(a)),
        Query::IdentitiesOfUser(a) => statement1(SELECT_IDENTITIES, text(a)),
        Query::IdentityOfProvider { provider, provider_user_id } => statement2(
            SELECT_IDENTITY,
            text(provider),
            text(provider_user_id),
        ),
        Query::OrganizationById(a) => statement1(SELECT_ORG, text(a)),
        Query::OrganizationsOfUser(a) => statement1(SELECT_ORGS_OF_USER, text(a)),
        Query::MembershipOf { user, org } => statement2(SELECT_MEMBERSHIP, text(user), text(org)),
        Query::DatabaseById(a) => statement1(SELECT_DATABASE, text(a)),
        Query::DatabasesOfOrg(a) => statement1(SELECT_DATABASES, text(a)),
        Query::SetSecret { secret, identity } => statement2(
            UPDATE_SECRET,
            text(secret),
            text(identity),
        ),
        Query::DeleteDatabase(a) => statement1(DELETE_DATABASE, text(a)),
        Query::ConsumeState(a) => statement1(CONSUME_STATE, text(a)),
    }
}

// ---------- what the database's answers mean ----------

/// The error that an insertion's failure becomes.
pub open spec fn insert_fault(
    err: Seq<char>,
    taken: Seq<char>,
    stage: Seq<char>,
) -> StoreErrorView {
    if contains_text(err, "UNIQUE constraint"@) {
        StoreErrorView::AlreadyExists(taken)
    } else {
        StoreErrorView::Backend(stage + err)
    }
}

/// A failure that speaks of a UNIQUE constraint, wherever it does, means that
/// the row is there already; one too short to do so is the backend's, in its
/// own words.
pub proof fn law_insert_fault(
    head: Seq<char>,
    tail: Seq<char>,
    err: Seq<char>,
    taken: Seq<char>,
    stage: Seq<char>,
)
    ensures
        insert_fault(head + "UNIQUE constraint"@ + tail, taken, stage)
            == StoreErrorView::AlreadyExists(taken),
        insert_fault(err, taken, stage) is AlreadyExists || insert_fault(err, taken, stage)
            == StoreErrorView::Backend(stage + err),
        err.len() < 17 ==> insert_fault(err, taken, stage) == StoreErrorView::Backend(stage + err),
{
    reveal_strlit("UNIQUE constraint");
    let needle = "UNIQUE constraint"@;
    let s = head + needle + tail;
    let i = head.len() as int;
    assert(s.subrange(i, i + needle.len()) =~= needle);
    assert(occurs_at(s, needle, i));
}

/// The error of a statement that failed: a violated UNIQUE constraint means
/// that the row is there already, which `taken` names; anything else is the
/// backend's, told from elsewhere by `stage`.
pub fn insert_error(err: &str, taken: &str, stage: &str) -> (r: StoreError)
    ensures
        r@ == insert_fault(err@, taken@, stage@),
{
    if is_unique_violation(err) {
        StoreError::already_exists(taken)
    } else {
        StoreError::Backend(join2(stage, err))
    }
}

/// A change that touched no row found none.
pub fn changed(changes: usize, what: &str, id: &str) -> (r: StoreResult<()>)
    ensures
        match r {
            Ok(()) => changes > 0,
            Err(e) => changes == 0 && e@ == StoreErrorView::NotFound(what@ + " "@ + id@),
        },
{
    if changes == 0 {
        let head: String = join2(what, " ");
        return Err(StoreError::NotFound(join2(head.as_str(), id)));
    }
    Ok(())
}

/// A row of `users`.
#[derive(Debug, PartialEq, Eq)]
pub struct UserRow {
    pub id: String,
    pub email: String,
    pub email_verified: i64,
    pub created_at_ms: i64,
}

impl UserRow {
    pub fn into_user(self) -> (r: User)
        ensures
            r@ == (UserView {
                id: self.id@,
                email: self.email@,
                email_verified: self.email_verified != 0,
                created_at_ms: self.created_at_ms,
            }),
    {
        User {
            id: UserId(self.id),
            email: self.email,
            email_verified: self.email_verified != 0,
            created_at_ms: self.created_at_ms,
        }
    }
}

/// A row of `identities`.
#[derive(Debug, PartialEq, Eq)]
pub struct IdentityRow {
    pub id: String,
    pub user_id: String,
    pub provider: String,
    pub provider_user_id: String,
    pub secret: Option<String>,
    pub created_at_ms: i64,
}

impl IdentityRow {
    pub fn into_identity(self) -> (r: Identity)
        ensures
            r@ == (IdentityView {
                id: self.id@,
                user_id: self.user_id@,
                provider: self.provider@,
                provider_user_id: self.provider_user_id@,
                secret: opt_chars(self.secret),
                created_at_ms: self.created_at_ms,
            }),
    {
        Identity {
            id: IdentityId(self.id),
            user_id: UserId(self.user_id),
            provider: self.provider,
            provider_user_id: self.provider_user_id,
            secret: self.secret,
            created_at_ms: self.created_at_ms,
        }
    }
}

/// A row of `organizations`.
#[derive(Debug, PartialEq, Eq)]
pub struct OrgRow {
    pub id: String,
    pub display_name: String,
    pub personal: i64,
    pub owner_user_id: Option<String>,
    pub created_at_ms: i64,
}

/// The organization of a row.
pub open spec fn org_of(r: OrgRow) -> OrganizationView {
    OrganizationView {
        id: r.id@,
        display_name: r.display_name@,
        personal: r.personal != 0,
        owner_user_id: opt_chars(r.owner_user_id),
        created_at_ms: r.created_at_ms,
    }
}

impl OrgRow {
    pub fn into_organization(self) -> (r: Organization)
        ensures
            r@ == org_of(self),
    {
        let owner_user_id: Option<UserId> = match self.owner_user_id {
            Some(u) => Some(UserId(u)),
            None => None,
        };
        Organization {
            id: OrgId(self.id),
            display_name: self.display_name,
            personal: self.personal != 0,
            owner_user_id,
            created_at_ms: self.created_at_ms,
        }
    }
}

/// What reading a stored role comes to.
pub open spec fn stored_role(role: Seq<char>) -> Result<Role, StoreErrorView> {
    match Role::parsed(role) {
        Ok(r) => Ok(r),
        Err(e) => Err(StoreErrorView::Backend("role: "@ + e)),
    }
}

fn read_role(role: &str) -> (r: StoreResult<Role>)
    ensures
        match (stored_role(role@), r) {
            (Ok(want), Ok(got)) => want == got,
            (Err(want), Err(got)) => want == got@,
            _ => false,
        },
{
    match Role::from_str(role) {
        Ok(r) => Ok(r),
        Err(e) => Err(StoreError::Backend(join2("role: ", e.as_str()))),
    }
}

/// A row of `org_memberships`.
#[derive(Debug, PartialEq, Eq)]
pub struct OrgMembershipRow {
    pub user_id: String,
    pub org_id: String,
    pub role: String,
    pub created_at_ms: i64,
}

impl OrgMembershipRow {
    pub fn into_membership(self) -> (r: StoreResult<OrgMembership>)
        ensures
            match (stored_role(self.role@), r) {
                (Ok(role), Ok(m)) => m@ == (OrgMembershipView {
                    user_id: self.user_id@,
                    org_id: self.org_id@,
                    role,
                    created_at_ms: self.created_at_ms,
                }),
                (Err(want), Err(got)) => got@ == want,
                _ => false,
            },
    {
        match read_role(self.role.as_str()) {
            Ok(role) => Ok(
                OrgMembership {
                    user_id: UserId(self.user_id),
                    org_id: OrgId(self.org_id),
                    role,
                    created_at_ms: self.created_at_ms,
                },
            ),
            Err(e) => Err(e),
        }
    }
}

/// A row of `organizations` joined with a member's role.
#[derive(Debug, PartialEq, Eq)]
pub struct OrgRowWithRole {
    pub org: OrgRow,
    pub role: String,
}

/// The organizations of rows with the member's role, in their order; the first
/// role that cannot be read fails them all.
pub fn organizations_with_roles(rows: Vec<OrgRowWithRole>) -> (r: StoreResult<Vec<OrgWithRole>>)
    ensures
        match r {
            Ok(out) => {
                &&& out@.len() == rows@.len()
                &&& forall|i: int|
                    #![trigger out@[i]]
                    0 <= i < out@.len() ==> out@[i].0@ == org_of(rows@[i].org) && stored_role(
                        rows@[i].role@,
                    ) == Ok::<Role, StoreErrorView>(out@[i].1)
            },
            Err(e) => exists|i: int|
                #![trigger rows@[i]]
                {
                    &&& 0 <= i < rows@.len()
                    &&& stored_role(rows@[i].role@) == Err::<Role, StoreErrorView>(e@)
                    &&& forall|j: int|
                        #![trigger rows@[j]]
                        0 <= j < i ==> stored_role(rows@[j].role@) is Ok
                },
        },
{
    let mut out: Vec<OrgWithRole> = Vec::new();
    let mut i: usize = 0;
    while i < rows.len()
        invariant
            i <= rows.len(),
            out@.len() == i,
            forall|k: int|
                #![trigger out@[k]]
                0 <= k < i ==> out@[k].0@ == org_of(rows@[k].org) && stored_role(rows@[k].role@)
                    == Ok::<Role, StoreErrorView>(out@[k].1),
            forall|j: int| #![trigger rows@[j]] 0 <= j < i ==> stored_role(rows@[j].role@) is Ok,
        decreases rows.len() - i,
    {
        let row: &OrgRowWithRole = &rows[i];
        let role: Role = match read_role(row.role.as_str()) {
            Ok(role) => role,
            Err(e) => {
                assert(stored_role(rows@[i as int].role@) == Err::<Role, StoreErrorView>(e@));
                return Err(e);
            },
        };
        let owner_user_id: Option<UserId> = match &row.org.owner_user_id {
            Some(u) => Some(UserId(u.clone())),
            None => None,
        };
        let org: Organization = Organization {
            id: OrgId(row.org.id.clone()),
            display_name: row.org.display_name.clone(),
            personal: row.org.personal != 0,
            owner_user_id,
            created_at_ms: row.org.created_at_ms,
        };
        assert(org@ == org_of(row.org));
        out.push((org, role));
        i = i + 1;
    }
    Ok(out)
}

/// A row of `databases`.
#[derive(Debug, PartialEq, Eq)]
pub struct DatabaseRow {
    pub id: String,
    pub org_id: String,
    pub name: String,
    pub created_by: String,
    pub created_at_ms: i64,
}

impl DatabaseRow {
    pub fn into_database(self) -> (r: Database)
        ensures
            r@ == (DatabaseView {
                id: self.id@,
                org_id: self.org_id@,
                name: self.name@,
                created_by: self.created_by@,
                created_at_ms: self.created_at_ms,
            }),
    {
        Database {
            id: DatabaseId(self.id),
            org_id: OrgId(self.org_id),
            name: self.name,
            created_by: UserId(self.created_by),
            created_at_ms: self.created_at_ms,
        }
    }
}

/// A row of `oauth_states`.
#[derive(Debug, PartialEq, Eq)]
pub struct OAuthStateRow {
    pub state: String,
    pub provider: String,
    pub created_at_ms: i64,
    pub expires_at_ms: i64,
}

/// The state that a consumed row holds, unless its time is past.
pub open spec fn consumed(row: Option<OAuthStateRow>, now_ms: i64) -> Option<OAuthStateView> {
    match row {
        None => None,
        Some(s) => if s.expires_at_ms < now_ms {
            None
        } else {
            Some(
                OAuthStateView {
                    state: s.state@,
                    provider: s.provider@,
                    created_at_ms: s.created_at_ms,
                    expires_at_ms: s.expires_at_ms,
                },
            )
        },
    }
}

/// A row is the state, in every field, as long as its last moment has not
/// passed, and nothing afterwards; no row is no state.
pub proof fn law_consumed(s: OAuthStateRow, now_ms: i64)
    ensures
        consumed(None, now_ms) is None,
        consumed(Some(s), now_ms) is Some <==> now_ms <= s.expires_at_ms,
        consumed(Some(s), now_ms) matches Some(got) ==> got.state == s.state@ && got.provider
            == s.provider@ && got.created_at_ms == s.created_at_ms && got.expires_at_ms
            == s.expires_at_ms,
{
}

/// The state that consuming gave: nothing where there was no row, or its time
/// is past.
pub fn consumed_state(row: Option<OAuthStateRow>, now_ms: i64) -> (r: Option<OAuthState>)
    ensures
        match consumed(row, now_ms) {
            Some(due) => r matches Some(got) && got@ == due,
            None => r is None,
        },
{
    match row {
        None => None,
        Some(s) => {
            if s.expires_at_ms < now_ms {
                return None;
            }
            Some(
                OAuthState {
                    state: s.state,
                    provider: s.provider,
                    created_at_ms: s.created_at_ms,
                    expires_at_ms: s.expires_at_ms,
                },
            )
        },
    }
}

/// Strip whole-line comments and split on `;`: the schema mixes multi-line
/// DDL, and statements are prepared one by one.
pub fn normalized_statements(sql: &str) -> (r: Vec<String>)
    ensures
        texts(r@) == sql_statements(sql@),
{
    split_sql_statements(sql)
}

/// A row reads as the organization that it holds: a flag that is not zero
/// means personal.
pub proof fn law_organization_row(r: OrgRow)
    ensures
        org_of(r).id == r.id@,
        org_of(r).display_name == r.display_name@,
        org_of(r).personal <==> r.personal != 0,
        r.owner_user_id is None ==> org_of(r).owner_user_id is None,
        r.owner_user_id matches Some(u) ==> org_of(r).owner_user_id == Some(u@),
        org_of(r).created_at_ms == r.created_at_ms,
{
}

/// The texts of the two roles read as the roles; any other text is the
/// backend's fault.
pub proof fn law_stored_role(role: Seq<char>)
    ensures
        stored_role("admin"@) == Ok::<Role, StoreErrorView>(Role::Admin),
        stored_role("member"@) == Ok::<Role, StoreErrorView>(Role::Member),
        role != "admin"@ && role != "member"@ ==> stored_role(role) == Err::<Role, StoreErrorView>(
            StoreErrorView::Backend("role: "@ + ("unknown role: "@ + role)),
        ),
{
    crate::shared::domain::enums::law_role_round_trip(Role::Admin);
    crate::shared::domain::enums::law_role_round_trip(Role::Member);
}

/// Each operation binds its own values, in the order in which its statement
/// names them.
pub proof fn law_bound_values(a: &str, b: &str)
    ensures
        query_statement(Query::UserById(a)).params == seq![ParamView::Text(a@)],
        query_statement(Query::UserByEmail(a)).params == seq![ParamView::Text(a@)],
        query_statement(Query::IdentitiesOfUser(a)).params == seq![ParamView::Text(a@)],
        query_statement(
            Query::IdentityOfProvider { provider: a, provider_user_id: b },
        ).params == seq![ParamView::Text(a@), ParamView::Text(b@)],
        query_statement(Query::OrganizationById(a)).params == seq![ParamView::Text(a@)],
        query_statement(Query::OrganizationsOfUser(a)).params == seq![ParamView::Text(a@)],
        query_statement(Query::MembershipOf { user: a, org: b }).params == seq![
            ParamView::Text(a@),
            ParamView::Text(b@),
        ],
        query_statement(Query::DatabaseById(a)).params == seq![ParamView::Text(a@)],
        query_statement(Query::DatabasesOfOrg(a)).params == seq![ParamView::Text(a@)],
        query_statement(Query::SetSecret { secret: a, identity: b }).params == seq![
            ParamView::Text(a@),
            ParamView::Text(b@),
        ],
        query_statement(Query::DeleteDatabase(a)).params == seq![ParamView::Text(a@)],
        query_statement(Query::ConsumeState(a)).params == seq![ParamView::Text(a@)],
{
}

/// The identity and the admin membership that are inserted bind their values
/// in the order of the columns.
pub proof fn law_inserted_rows(i: IdentityView, user: Seq<char>, org: Seq<char>, now_ms: i64)
    ensures
        identity_insert(i).sql == INSERT_IDENTITY@,
        identity_insert(i).params.len() == 6,
        identity_insert(i).params[0] == ParamView::Text(i.id),
        identity_insert(i).params[1] == ParamView::Text(i.user_id),
        identity_insert(i).params[2] == ParamView::Text(i.provider),
        identity_insert(i).params[3] == ParamView::Text(i.provider_user_id),
        i.secret is None ==> identity_insert(i).params[4] == ParamView::Null,
        i.secret matches Some(s) ==> identity_insert(i).params[4] == ParamView::Text(s),
        identity_insert(i).params[5] == ParamView::Millis(i.created_at_ms),
        admin_insert(user, org, now_ms).sql == INSERT_MEMBERSHIP@,
        admin_insert(user, org, now_ms).params.len() == 4,
        admin_insert(user, org, now_ms).params[0] == ParamView::Text(user),
        admin_insert(user, org, now_ms).params[1] == ParamView::Text(org),
        admin_insert(user, org, now_ms).params[2] == ParamView::Text("admin"@),
        admin_insert(user, org, now_ms).params[3] == ParamView::Millis(now_ms),
{
}

} // verus!
