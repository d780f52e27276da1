use edgereplica::shared::domain::entities::{OAuthState, User};
use edgereplica::shared::domain::enums::{IdentityProvider, Role};
use edgereplica::shared::domain::ids::{DatabaseId, IdentityId, OrgId, UserId};
use edgereplica::shared::error::StoreError;
use edgereplica::shared::repo::{NewOAuthUser, NewPasswordUser, Repo};
use edgereplica::shared::repo_mem::InMemoryRepo;

fn signup(repo: &mut InMemoryRepo, email: &str, ts: i64) -> User {
    repo.create_password_user(
        NewPasswordUser {
            email: email.into(),
            password_hash: "h".into(),
        },
        ts,
    )
    .unwrap()
}

#[test]
fn signup_creates_user_identity_and_personal_org() {
    let mut repo = InMemoryRepo::new();
    let user = signup(&mut repo, "ada@example.com", 1_000);
    assert_eq!(user.email, "ada@example.com");

    let identities = repo.list_identities(&user.id).unwrap();
    assert_eq!(identities.len(), 1);
    assert_eq!(identities[0].provider, IdentityProvider::PASSWORD);

    let orgs = repo.list_organizations_for_user(&user.id).unwrap();
    assert_eq!(orgs.len(), 1);
    assert!(orgs[0].0.personal);
    assert_eq!(orgs[0].1, Role::Admin);
}

#[test]
fn duplicate_email_signup_rejected_case_insensitively() {
    let mut repo = InMemoryRepo::new();
    signup(&mut repo, "x@y", 1);
    let err = repo
        .create_password_user(
            NewPasswordUser {
                email: "X@Y".into(),
                password_hash: "h".into(),
            },
            1,
        )
        .unwrap_err();
    assert!(matches!(err, StoreError::AlreadyExists(_)));
}

#[test]
fn create_database_unique_name_per_org() {
    let mut repo = InMemoryRepo::new();
    let user = signup(&mut repo, "x@y", 1);
    let org = repo.create_organization("Acme".into(), user.id.clone(), 2).unwrap();
    repo.create_database(org.id.clone(), "main".into(), user.id.clone(), 3).unwrap();
    let err = repo
        .create_database(org.id.clone(), "main".into(), user.id.clone(), 4)
        .unwrap_err();
    assert!(matches!(err, StoreError::AlreadyExists(_)));
}

#[test]
fn delete_org_refuses_personal() {
    let mut repo = InMemoryRepo::new();
    let user = signup(&mut repo, "x@y", 1);
    let orgs = repo.list_organizations_for_user(&user.id).unwrap();
    let err = repo.delete_organization(&orgs[0].0.id).unwrap_err();
    assert!(matches!(err, StoreError::Conflict(_)));
}

#[test]
fn delete_org_refuses_when_databases_attached() {
    let mut repo = InMemoryRepo::new();
    let user = signup(&mut repo, "x@y", 1);
    let org = repo.create_organization("Acme".into(), user.id.clone(), 2).unwrap();
    repo.create_database(org.id.clone(), "main".into(), user.id.clone(), 3).unwrap();
    let err = repo.delete_organization(&org.id).unwrap_err();
    assert!(matches!(err, StoreError::Conflict(_)));
}

#[test]
fn cannot_remove_last_admin() {
    let mut repo = InMemoryRepo::new();
    let user = signup(&mut repo, "x@y", 1);
    let org = repo.create_organization("Acme".into(), user.id.clone(), 2).unwrap();
    let err = repo.remove_org_membership(&user.id, &org.id).unwrap_err();
    assert!(matches!(err, StoreError::Conflict(_)));
}

#[test]
fn oauth_state_single_use_and_expiry() {
    let mut repo = InMemoryRepo::new();
    repo.store_oauth_state(OAuthState {
        state: "s1".into(),
        provider: "github".into(),
        created_at_ms: 100,
        expires_at_ms: 200,
    })
    .unwrap();
    // First consume succeeds.
    assert!(repo.consume_oauth_state("s1", 150).unwrap().is_some());
    // Second consume of the same state returns None.
    assert!(repo.consume_oauth_state("s1", 150).unwrap().is_none());
    // Stale state returns None and is cleaned up.
    repo.store_oauth_state(OAuthState {
        state: "s2".into(),
        provider: "github".into(),
        created_at_ms: 100,
        expires_at_ms: 200,
    })
    .unwrap();
    assert!(repo.consume_oauth_state("s2", 999).unwrap().is_none());
}

#[test]
fn create_oauth_user_links_identity() {
    let mut repo = InMemoryRepo::new();
    let user = repo
        .create_oauth_user(
            NewOAuthUser {
                email: "ada@gh".into(),
                provider: IdentityProvider::GITHUB.into(),
                provider_user_id: "12345".into(),
            },
            1,
        )
        .unwrap();
    assert!(user.email_verified);
    let found = repo
        .find_identity(IdentityProvider::GITHUB, "12345")
        .unwrap()
        .unwrap();
    assert_eq!(found.user_id, user.id);
}

#[test]
fn stale_state_is_gone_after_consuming() {
    let mut repo = InMemoryRepo::new();
    repo.store_oauth_state(OAuthState {
        state: "s".into(),
        provider: "github".into(),
        created_at_ms: 0,
        expires_at_ms: 10,
    })
    .unwrap();
    assert!(repo.consume_oauth_state("s", 11).unwrap().is_none());
    assert!(repo.consume_oauth_state("s", 5).unwrap().is_none());
    // At its very end a state still counts.
    repo.store_oauth_state(OAuthState {
        state: "t".into(),
        provider: "github".into(),
        created_at_ms: 0,
        expires_at_ms: 10,
    })
    .unwrap();
    assert!(repo.consume_oauth_state("t", 10).unwrap().is_some());
}

#[test]
fn lookups_by_email_ignore_case() {
    let mut repo = InMemoryRepo::new();
    let user = signup(&mut repo, "Ada@Example.com", 1);
    let found = repo.get_user_by_email("ada@EXAMPLE.com").unwrap().unwrap();
    assert_eq!(found.id, user.id);
    assert!(repo.get_user_by_email("bob@example.com").unwrap().is_none());
    assert_eq!(repo.get_user(&user.id).unwrap().unwrap(), user);
    assert!(repo.get_user(&UserId::from("nobody")).unwrap().is_none());
}

#[test]
fn signup_under_given_ids_is_exact() {
    let mut repo = InMemoryRepo::new();
    let user = repo
        .create_password_user_with_ids(
            NewPasswordUser {
                email: "x@y".into(),
                password_hash: "phc".into(),
            },
            UserId::from("u"),
            IdentityId::from("i"),
            OrgId::from("o"),
            7,
        )
        .unwrap();
    assert_eq!(user.id.as_str(), "u");
    assert!(!user.email_verified);
    assert_eq!(user.created_at_ms, 7);
    let identity = &repo.list_identities(&user.id).unwrap()[0];
    assert_eq!(identity.id.as_str(), "i");
    assert_eq!(identity.provider_user_id, "u");
    assert_eq!(identity.secret.as_deref(), Some("phc"));
    let org = repo.get_organization(&OrgId::from("o")).unwrap().unwrap();
    assert_eq!(org.display_name, "x@y (personal)");
    assert_eq!(org.owner_user_id, Some(UserId::from("u")));
    let membership = repo
        .get_org_membership(&UserId::from("u"), &OrgId::from("o"))
        .unwrap()
        .unwrap();
    assert_eq!(membership.role, Role::Admin);
    let err = repo
        .create_oauth_user_with_ids(
            NewOAuthUser {
                email: "X@y".into(),
                provider: "github".into(),
                provider_user_id: "1".into(),
            },
            UserId::from("u2"),
            IdentityId::from("i2"),
            OrgId::from("o2"),
            8,
        )
        .unwrap_err();
    assert_eq!(err.to_string(), "already exists: user with email X@y");
    assert!(repo.get_user(&UserId::from("u2")).unwrap().is_none());
}

#[test]
fn linking_an_identity() {
    let mut repo = InMemoryRepo::new();
    let a = signup(&mut repo, "a@x", 1);
    let b = signup(&mut repo, "b@x", 1);
    let first = repo.link_identity(&a.id, "github", "42", None, 2).unwrap();
    let again = repo.link_identity(&a.id, "github", "42", None, 3).unwrap();
    assert_eq!(first, again);
    let err = repo.link_identity(&b.id, "github", "42", None, 4).unwrap_err();
    assert_eq!(
        err.to_string(),
        "conflict: identity github:42 belongs to another user"
    );
    assert_eq!(repo.list_identities(&a.id).unwrap().len(), 2);
    assert_eq!(repo.list_identities(&b.id).unwrap().len(), 1);
}

#[test]
fn secrets_are_replaced() {
    let mut repo = InMemoryRepo::new();
    let a = signup(&mut repo, "a@x", 1);
    let id = repo.list_identities(&a.id).unwrap()[0].id.clone();
    repo.update_identity_secret(&id, "new".into()).unwrap();
    assert_eq!(
        repo.list_identities(&a.id).unwrap()[0].secret.as_deref(),
        Some("new")
    );
    let err = repo
        .update_identity_secret(&IdentityId::from("none"), "x".into())
        .unwrap_err();
    assert_eq!(err.to_string(), "not found: identity none");
}

#[test]
fn organizations_are_listed_by_id() {
    let mut repo = InMemoryRepo::new();
    let a = signup(&mut repo, "a@x", 1);
    for id in ["zz", "b", "ba", "!"] {
        repo.create_organization_with_id(OrgId::from(id), id.to_string(), a.id.clone(), 2)
            .unwrap();
    }
    let ids: Vec<String> = repo
        .list_organizations_for_user(&a.id)
        .unwrap()
        .iter()
        .map(|(o, _)| o.id.as_str().to_string())
        .collect();
    let mut sorted = ids.clone();
    sorted.sort();
    assert_eq!(ids.len(), 5);
    assert_eq!(ids, sorted);
    let err = repo
        .create_organization("Ghost".into(), UserId::from("nobody"), 3)
        .unwrap_err();
    assert_eq!(err.to_string(), "not found: user nobody");
}

#[test]
fn memberships_come_and_go() {
    let mut repo = InMemoryRepo::new();
    let a = signup(&mut repo, "a@x", 1);
    let b = signup(&mut repo, "b@x", 1);
    let org = repo.create_organization("Acme".into(), a.id.clone(), 2).unwrap();
    repo.add_org_membership(&b.id, &org.id, Role::Member, 3).unwrap();
    let err = repo
        .add_org_membership(&b.id, &org.id, Role::Admin, 4)
        .unwrap_err();
    assert_eq!(
        err.to_string(),
        format!(
            "already exists: org membership {} -> {}",
            b.id.as_str(),
            org.id.as_str()
        )
    );
    let members: Vec<String> = repo
        .list_org_memberships(&org.id)
        .unwrap()
        .iter()
        .map(|(m, u)| {
            assert_eq!(m.user_id, u.id);
            u.id.as_str().to_string()
        })
        .collect();
    let mut sorted = members.clone();
    sorted.sort();
    assert_eq!(members.len(), 2);
    assert_eq!(members, sorted);
    // A member may leave; the one admin may not, until there is another.
    repo.remove_org_membership(&b.id, &org.id).unwrap();
    assert_eq!(
        repo.remove_org_membership(&b.id, &org.id).unwrap_err().to_string(),
        "not found: org membership"
    );
    repo.add_org_membership(&b.id, &org.id, Role::Admin, 5).unwrap();
    repo.remove_org_membership(&a.id, &org.id).unwrap();
    assert_eq!(
        repo.remove_org_membership(&b.id, &org.id).unwrap_err().to_string(),
        "conflict: cannot remove the last admin of an organization"
    );
}

#[test]
fn deleting_an_organization_takes_its_memberships() {
    let mut repo = InMemoryRepo::new();
    let a = signup(&mut repo, "a@x", 1);
    let org = repo.create_organization("Acme".into(), a.id.clone(), 2).unwrap();
    repo.delete_organization(&org.id).unwrap();
    assert!(repo.get_organization(&org.id).unwrap().is_none());
    assert!(repo.get_org_membership(&a.id, &org.id).unwrap().is_none());
    assert_eq!(repo.list_organizations_for_user(&a.id).unwrap().len(), 1);
    assert!(matches!(
        repo.delete_organization(&org.id),
        Err(StoreError::NotFound(_))
    ));
}

#[test]
fn databases_are_listed_oldest_first() {
    let mut repo = InMemoryRepo::new();
    let a = signup(&mut repo, "a@x", 1);
    let org = repo.create_organization("Acme".into(), a.id.clone(), 2).unwrap();
    for (name, ts) in [("late", 30), ("early", 10), ("mid", 20)] {
        repo.create_database(org.id.clone(), name.into(), a.id.clone(), ts).unwrap();
    }
    let dbs = repo.list_databases_for_org(&org.id).unwrap();
    let names: Vec<&str> = dbs.iter().map(|d| d.name.as_str()).collect();
    assert_eq!(names, vec!["early", "mid", "late"]);
    let id = dbs[0].id.clone();
    assert_eq!(repo.get_database(&id).unwrap().unwrap(), dbs[0]);
    repo.delete_database(&id).unwrap();
    assert!(repo.get_database(&id).unwrap().is_none());
    assert_eq!(
        repo.delete_database(&DatabaseId::from("gone")).unwrap_err().to_string(),
        "not found: database gone"
    );
    let err = repo
        .create_database(OrgId::from("none"), "x".into(), a.id.clone(), 1)
        .unwrap_err();
    assert_eq!(err.to_string(), "not found: organization none");
}

#[test]
fn created_rows_have_drawn_ids() {
    let mut repo = InMemoryRepo::new();
    let ada = signup(&mut repo, "ada@example.com", 1);
    let bob = signup(&mut repo, "bob@example.com", 2);
    assert_ne!(ada.id, bob.id);
    for id in [ada.id.as_str(), bob.id.as_str()] {
        assert_eq!(id.len(), 32);
        assert!(id.chars().all(|c| c.is_ascii_digit() || ('a'..='f').contains(&c)));
    }
    assert_eq!(repo.get_user(&ada.id).unwrap().unwrap().email, "ada@example.com");
}
