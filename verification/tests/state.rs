use rsground::errors::ServerMessageError;
use rsground::manager::{ProjectManager, ProjectManagerError, DEFAULT_MAX_PROJECTS};
use rsground::users::{configured_limit, UserRegistry, DEFAULT_MAX_USERS};

#[test]
fn enforces_user_capacity_without_rejecting_existing_users() {
    let mut state = UserRegistry::new(1);

    assert!(state.add_username("first".into(), "Ada".into()));
    assert!(state.add_username("first".into(), "Ada Lovelace".into()));
    assert_eq!(
        state.get_username(&"first".to_string()).as_deref(),
        Some("Ada Lovelace")
    );
    assert!(!state.add_username("second".into(), "Grace".into()));
}

#[test]
fn reports_missing_projects() {
    let state: ProjectManager<u8> = ProjectManager::new(1);

    let id = uuid::Uuid::new_v4().as_u128();
    let result = state.get_project(id);
    assert!(matches!(result, Err(ServerMessageError::ProjectNotFound(_))));
}

#[test]
fn project_limit_is_enforced() {
    let mut manager: ProjectManager<&str> = ProjectManager::new(2);
    assert!(manager.has_capacity());
    assert_eq!(manager.add_project(1, "one"), Ok(()));
    assert_eq!(manager.add_project(2, "two"), Ok(()));
    assert!(!manager.has_capacity());
    assert_eq!(manager.add_project(3, "three"), Err(ProjectManagerError::LimitReached));
    assert_eq!(manager.get_project(2), Ok(&"two"));
    assert_eq!(manager.get_project(3), Err(ServerMessageError::ProjectNotFound(3)));
}

#[test]
fn limits_come_from_positive_numbers() {
    assert_eq!(configured_limit(None, DEFAULT_MAX_PROJECTS), 64);
    assert_eq!(configured_limit(Some("12"), DEFAULT_MAX_PROJECTS), 12);
    assert_eq!(configured_limit(Some("0"), DEFAULT_MAX_USERS), 10_000);
    assert_eq!(configured_limit(Some("-3"), 5), 5);
    assert_eq!(configured_limit(Some("abc"), 5), 5);
    assert_eq!(configured_limit(Some(""), 5), 5);
}

#[test]
fn adding_a_new_project_grows_the_manager_by_one() {
    let mut manager: ProjectManager<&str> = ProjectManager::new(3);
    assert_eq!(manager.add_project(1, "one"), Ok(()));
    assert_eq!(manager.add_project(1, "uno"), Ok(()));
    assert_eq!(manager.get_project(1), Ok(&"uno"));
    assert!(manager.has_capacity());
    assert_eq!(manager.add_project(2, "two"), Ok(()));
    assert!(manager.has_capacity());
}
