use shipyard::git::checkout::managed_pull_request_checkout_path;
use shipyard::run::project_directory_name;
use shipyard::ship::records_path;

const ABC_DIGEST: &str = "ba7816bf8f01cfea414140de5dae2223b00361a396177a9cb410ff61f20015ad";

#[test]
fn names_project_directories_by_the_digest_of_their_identifier() {
    assert_eq!(project_directory_name("abc"), ABC_DIGEST);
    assert_eq!(
        project_directory_name(""),
        "e3b0c44298fc1c149afbf4c8996fb92427ae41e4649b934ca495991b7852b855"
    );
}

#[test]
fn managed_checkouts_use_a_short_digest_and_the_pull_request_number() {
    assert_eq!(
        managed_pull_request_checkout_path("/data", "abc", 42),
        "/data/pull-request-checkouts/ba7816bf8f01cfea/pr-42"
    );
    assert_eq!(
        managed_pull_request_checkout_path("/data/", "abc", 7),
        "/data/pull-request-checkouts/ba7816bf8f01cfea/pr-7"
    );
}

#[test]
fn ship_records_live_in_the_project_directory() {
    assert_eq!(records_path("/data", "abc"), format!("/data/projects/{ABC_DIGEST}/ship-state.json"));
}
