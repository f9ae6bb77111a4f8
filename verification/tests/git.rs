use fw::git::repo_name_from_url;

#[test]
fn test_repo_name_from_url() {
    let https_url = "https://github.com/mriehl/fw";
    let name = repo_name_from_url(https_url).unwrap().to_owned();
    assert_eq!(name, "fw".to_owned());
}

#[test]
fn test_repo_name_from_ssh_pragma() {
    let ssh_pragma = "git@github.com:mriehl/fw.git";
    let name = repo_name_from_url(ssh_pragma).unwrap().to_owned();
    assert_eq!(name, "fw".to_owned());
}

#[test]
fn test_repo_name_from_ssh_pragma_with_multiple_git_endings() {
    let ssh_pragma = "git@github.com:mriehl/fw.git.git";
    let name = repo_name_from_url(ssh_pragma).unwrap().to_owned();
    assert_eq!(name, "fw.git".to_owned());
}

#[test]
fn repo_name_of_a_url_without_a_slash_is_the_url() {
    assert_eq!(repo_name_from_url("fw").unwrap(), "fw");
    assert_eq!(repo_name_from_url("").unwrap(), "");
    assert_eq!(repo_name_from_url("a/b/").unwrap(), "");
    assert_eq!(repo_name_from_url(".git").unwrap(), "");
}
