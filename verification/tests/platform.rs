use batch_transfer::platform::{
    check_if_debian_or_ubuntu, line_names_debian_or_ubuntu, should_set_webkit_workaround,
};

fn lines(text: &[&str]) -> Vec<String> {
    text.iter().map(|l| l.to_string()).collect()
}

#[test]
fn id_line_names_debian() {
    assert!(line_names_debian_or_ubuntu("ID=debian"));
    assert!(line_names_debian_or_ubuntu("ID=ubuntu"));
    assert!(!line_names_debian_or_ubuntu("ID=fedora"));
}

#[test]
fn id_like_line_names_the_base() {
    assert!(line_names_debian_or_ubuntu("ID_LIKE=\"ubuntu debian\""));
    assert!(!line_names_debian_or_ubuntu("ID_LIKE=\"rhel centos fedora\""));
}

#[test]
fn other_keys_do_not_count() {
    assert!(!line_names_debian_or_ubuntu("NAME=\"Debian GNU/Linux\""));
    assert!(!line_names_debian_or_ubuntu("HOME_URL=\"https://www.debian.org/\""));
    assert!(!line_names_debian_or_ubuntu("PRETTY_NAME=ubuntu"));
    assert!(!line_names_debian_or_ubuntu(" ID=debian"));
}

#[test]
fn value_is_matched_by_case() {
    assert!(!line_names_debian_or_ubuntu("ID=Debian"));
    assert!(!line_names_debian_or_ubuntu("ID=UBUNTU"));
}

#[test]
fn line_without_equals_sign_does_not_count() {
    assert!(!line_names_debian_or_ubuntu("debian"));
    assert!(!line_names_debian_or_ubuntu(""));
}

#[test]
fn only_the_first_equals_sign_splits() {
    assert!(line_names_debian_or_ubuntu("ID=x=debian"));
    assert!(!line_names_debian_or_ubuntu("X=ID=debian"));
}

#[test]
fn mint_is_of_the_debian_family() {
    let mint = lines(&[
        "NAME=\"Linux Mint\"",
        "VERSION=\"21.3 (Virginia)\"",
        "ID=linuxmint",
        "ID_LIKE=\"ubuntu debian\"",
    ]);
    assert!(check_if_debian_or_ubuntu(&mint));
}

#[test]
fn fedora_is_not_of_the_debian_family() {
    let fedora = lines(&["NAME=\"Fedora Linux\"", "ID=fedora", "VERSION_ID=40"]);
    assert!(!check_if_debian_or_ubuntu(&fedora));
}

#[test]
fn no_description_is_not_debian() {
    assert!(!check_if_debian_or_ubuntu(&Vec::new()));
}

#[test]
fn workaround_only_for_appimage_on_other_linux() {
    let fedora = lines(&["ID=fedora"]);
    let debian = lines(&["ID=debian"]);
    assert!(should_set_webkit_workaround(true, true, &fedora));
    assert!(should_set_webkit_workaround(true, true, &Vec::new()));
    assert!(!should_set_webkit_workaround(true, true, &debian));
    assert!(!should_set_webkit_workaround(false, true, &fedora));
    assert!(!should_set_webkit_workaround(true, false, &fedora));
    assert!(!should_set_webkit_workaround(false, false, &debian));
}
