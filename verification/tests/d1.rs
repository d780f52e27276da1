use edgereplica::shared::domain::entities::{Database, Identity, OAuthState};
use edgereplica::shared::domain::enums::Role;
use edgereplica::shared::domain::ids::{DatabaseId, IdentityId, OrgId, UserId};
use edgereplica::worker::repo_d1::{
    changed, consumed_state, create_database, create_organization, insert_error, link_identity,
    normalized_statements, organizations_with_roles, prepare, signup_with_personal_org,
    store_oauth_state, DatabaseRow, IdentityRow, OAuthStateRow, OrgMembershipRow, OrgRow,
    OrgRowWithRole, Param, Query, SignupRecord, UserRow,
};

fn text(s: &str) -> Param {
    Param::Text(s.to_string())
}

#[test]
fn password_signup_is_four_inserts() {
    let (stmts, user) = signup_with_personal_org(
        SignupRecord {
            email: "x@y".to_string(),
            email_verified: false,
            provider: "password".to_string(),
            provider_user_id: None,
            secret: Some("phc".to_string()),
            now_ms: 9,
        },
        UserId::from("u"),
        IdentityId::from("i"),
        OrgId::from("o"),
    );
    assert_eq!(stmts.len(), 4);
    assert_eq!(
        stmts[0].sql,
        "INSERT INTO users (id, email, email_verified, created_at_ms) VALUES (?, ?, ?, ?)"
    );
    assert_eq!(
        stmts[0].params,
        vec![text("u"), text("x@y"), Param::Integer(0), Param::Millis(9)]
    );
    assert_eq!(
        stmts[1].params,
        vec![
            text("i"),
            text("u"),
            text("password"),
            text("u"),
            text("phc"),
            Param::Millis(9)
        ]
    );
    assert_eq!(
        stmts[2].params,
        vec![text("o"), text("x@y (personal)"), text("u"), Param::Millis(9)]
    );
    assert_eq!(
        stmts[3].params,
        vec![text("u"), text("o"), text("admin"), Param::Millis(9)]
    );
    assert_eq!(user.id.as_str(), "u");
    assert!(!user.email_verified);
}

#[test]
fn oauth_signup_has_no_secret() {
    let (stmts, user) = signup_with_personal_org(
        SignupRecord {
            email: "x@y".to_string(),
            email_verified: true,
            provider: "github".to_string(),
            provider_user_id: Some("42".to_string()),
            secret: None,
            now_ms: 9,
        },
        UserId::from("u"),
        IdentityId::from("i"),
        OrgId::from("o"),
    );
    assert_eq!(stmts[0].params[2], Param::Integer(1));
    assert_eq!(stmts[1].params[3], text("42"));
    assert_eq!(stmts[1].params[4], Param::Null);
    assert!(user.email_verified);
}

#[test]
fn other_writes() {
    let (stmts, org) =
        create_organization(OrgId::from("o"), "Acme".to_string(), UserId::from("u"), 3);
    assert_eq!(stmts.len(), 2);
    assert_eq!(
        stmts[0].params,
        vec![text("o"), text("Acme"), text("u"), Param::Millis(3)]
    );
    assert_eq!(stmts[1].params[2], text("admin"));
    assert!(!org.personal);

    let stmt = create_database(&Database {
        id: DatabaseId::from("d"),
        org_id: OrgId::from("o"),
        name: "main".to_string(),
        created_by: UserId::from("u"),
        created_at_ms: 4,
    });
    assert_eq!(
        stmt.params,
        vec![text("d"), text("o"), text("main"), text("u"), Param::Millis(4)]
    );

    let stmt = link_identity(&Identity {
        id: IdentityId::from("i"),
        user_id: UserId::from("u"),
        provider: "github".to_string(),
        provider_user_id: "1".to_string(),
        secret: None,
        created_at_ms: 5,
    });
    assert_eq!(stmt.params.len(), 6);

    let stmt = store_oauth_state(&OAuthState {
        state: "s".to_string(),
        provider: "github".to_string(),
        created_at_ms: 1,
        expires_at_ms: 2,
    });
    assert_eq!(
        stmt.params,
        vec![text("s"), text("github"), Param::Millis(1), Param::Millis(2)]
    );
}

#[test]
fn queries_bind_their_texts() {
    let s = prepare(Query::UserByEmail("x@y"));
    assert!(s.sql.ends_with("WHERE LOWER(email) = LOWER(?)"));
    assert_eq!(s.params, vec![text("x@y")]);
    let s = prepare(Query::MembershipOf {
        user: "u",
        org: "o",
    });
    assert_eq!(s.params, vec![text("u"), text("o")]);
    let s = prepare(Query::SetSecret {
        secret: "s",
        identity: "i",
    });
    assert_eq!(s.sql, "UPDATE identities SET secret = ? WHERE id = ?");
    assert_eq!(s.params, vec![text("s"), text("i")]);
    assert!(prepare(Query::OrganizationsOfUser("u")).sql.ends_with("ORDER BY o.id"));
    assert!(prepare(Query::ConsumeState("s")).sql.contains("RETURNING"));
}

#[test]
fn answers_are_read() {
    assert_eq!(
        insert_error("UNIQUE constraint failed", "user with email x", "batch: ").to_string(),
        "already exists: user with email x"
    );
    assert_eq!(
        insert_error("FOREIGN KEY constraint failed", "t", "").to_string(),
        "backend: FOREIGN KEY constraint failed"
    );
    assert_eq!(
        insert_error("network", "t", "batch: ").to_string(),
        "backend: batch: network"
    );
    assert!(changed(1, "database", "d").is_ok());
    assert_eq!(
        changed(0, "database", "d").unwrap_err().to_string(),
        "not found: database d"
    );
}

#[test]
fn rows_become_entities() {
    let user = UserRow {
        id: "u".to_string(),
        email: "e".to_string(),
        email_verified: 2,
        created_at_ms: 1,
    }
    .into_user();
    assert!(user.email_verified);
    let identity = IdentityRow {
        id: "i".to_string(),
        user_id: "u".to_string(),
        provider: "p".to_string(),
        provider_user_id: "q".to_string(),
        secret: None,
        created_at_ms: 1,
    }
    .into_identity();
    assert_eq!(identity.provider_user_id, "q");
    let db = DatabaseRow {
        id: "d".to_string(),
        org_id: "o".to_string(),
        name: "n".to_string(),
        created_by: "u".to_string(),
        created_at_ms: 1,
    }
    .into_database();
    assert_eq!(db.created_by.as_str(), "u");
    let membership = |role: &str| OrgMembershipRow {
        user_id: "u".to_string(),
        org_id: "o".to_string(),
        role: role.to_string(),
        created_at_ms: 1,
    };
    assert_eq!(
        membership("member").into_membership().unwrap().role,
        Role::Member
    );
    let err = membership("owner").into_membership().unwrap_err().to_string();
    assert!(err.starts_with("backend: role: "), "got {err}");
}

fn org_row(id: &str, role: &str) -> OrgRowWithRole {
    OrgRowWithRole {
        org: OrgRow {
            id: id.to_string(),
            display_name: "n".to_string(),
            personal: 1,
            owner_user_id: Some("u".to_string()),
            created_at_ms: 1,
        },
        role: role.to_string(),
    }
}

#[test]
fn joined_rows_fail_together() {
    let orgs = organizations_with_roles(vec![org_row("a", "admin"), org_row("b", "member")]).unwrap();
    assert_eq!(orgs.len(), 2);
    assert!(orgs[0].0.personal);
    assert_eq!(orgs[1].1, Role::Member);
    assert!(organizations_with_roles(vec![org_row("a", "admin"), org_row("b", "x")]).is_err());
    assert!(!org_row("a", "admin").org.into_organization().id.as_str().is_empty());
}

#[test]
fn consumed_states_expire() {
    let row = || {
        Some(OAuthStateRow {
            state: "s".to_string(),
            provider: "github".to_string(),
            created_at_ms: 1,
            expires_at_ms: 10,
        })
    };
    assert_eq!(consumed_state(row(), 10).unwrap().state, "s");
    assert!(consumed_state(row(), 11).is_none());
    assert!(consumed_state(None, 0).is_none());
}

#[test]
fn schema_is_normalized() {
    assert_eq!(normalized_statements("A;\n-- c\nB\nC;"), vec!["A", "B C"]);
}
