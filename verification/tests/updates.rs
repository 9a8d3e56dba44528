use galaxybook_sound::commands::fallback_command_error;
use galaxybook_sound::parse_dnf_check_update_package_names;
use galaxybook_sound::updates::{check_update_result, install_result, update_button_tooltip};

const DNF_FALLBACK: &str = "O DNF não retornou detalhes sobre a consulta de atualizações.";
const INSTALL_FALLBACK: &str = "A atualização falhou, mas não retornou saída textual.";

const PACKAGES: [&str; 3] = [
    "galaxybook-sound",
    "akmod-galaxybook-max98390",
    "galaxybook-max98390-kmod-common",
];

#[test]
fn parses_dnf4_check_update_lines() {
    let output = "\
galaxybook-sound.x86_64 1.1.0-1.fc44 caioregis
akmod-galaxybook-max98390.x86_64 1.1.0-1.fc44 caioregis
unrelated.x86_64 1.0-1 fedora
";
    assert_eq!(
        parse_dnf_check_update_package_names(
            output,
            &[
                "galaxybook-sound",
                "akmod-galaxybook-max98390",
                "galaxybook-max98390-kmod-common",
            ],
        ),
        vec!["galaxybook-sound", "akmod-galaxybook-max98390"]
    );
}

#[test]
fn parses_dnf5_table_lines() {
    let output = "\
Updating and loading repositories:
Repositories loaded.
Available upgrades
Name                          Arch   Version       Repository
galaxybook-max98390-kmod-common noarch 1.1.0-1.fc44 caioregis
galaxybook-sound              x86_64 1.1.0-1.fc44 caioregis
";
    assert_eq!(
        parse_dnf_check_update_package_names(
            output,
            &[
                "galaxybook-sound",
                "akmod-galaxybook-max98390",
                "galaxybook-max98390-kmod-common",
            ],
        ),
        vec!["galaxybook-max98390-kmod-common", "galaxybook-sound"]
    );
}

#[test]
fn package_is_listed_once_and_only_by_its_own_name() {
    let output = "galaxybook-sound.x86_64 1.0\n  galaxybook-sound 1.1\ngalaxybook-sound-extra.noarch 2.0\ngalaxybook-soundx 1.0\n\n   \n";
    assert_eq!(
        parse_dnf_check_update_package_names(output, &PACKAGES),
        vec!["galaxybook-sound"]
    );
}

#[test]
fn blank_output_names_no_package() {
    assert!(parse_dnf_check_update_package_names("", &PACKAGES).is_empty());
    assert!(parse_dnf_check_update_package_names("\n \t\n", &PACKAGES).is_empty());
}

#[test]
fn leading_whitespace_and_crlf_lines_are_read() {
    let output = "   akmod-galaxybook-max98390.x86_64 1.1\r\ngalaxybook-sound\r\n";
    assert_eq!(
        parse_dnf_check_update_package_names(output, &PACKAGES),
        vec!["galaxybook-sound", "akmod-galaxybook-max98390"]
            .into_iter()
            .rev()
            .collect::<Vec<_>>()
    );
}

#[test]
fn check_update_exit_codes() {
    let output = "galaxybook-sound.x86_64 1.1.0-1.fc44 caioregis\n".to_string();
    assert_eq!(check_update_result(Some(0), output.clone(), &PACKAGES, DNF_FALLBACK), Ok(Vec::new()));
    assert_eq!(
        check_update_result(Some(100), output.clone(), &PACKAGES, DNF_FALLBACK),
        Ok(vec!["galaxybook-sound".to_string()])
    );
    assert_eq!(
        check_update_result(Some(1), "Error: repo down".to_string(), &PACKAGES, DNF_FALLBACK),
        Err("Error: repo down".to_string())
    );
    assert_eq!(
        check_update_result(None, "  \n".to_string(), &PACKAGES, DNF_FALLBACK),
        Err("O DNF não retornou detalhes sobre a consulta de atualizações.".to_string())
    );
}

#[test]
fn install_result_keeps_output() {
    assert_eq!(install_result(true, "done".to_string(), INSTALL_FALLBACK), Ok("done".to_string()));
    assert_eq!(install_result(false, "denied".to_string(), INSTALL_FALLBACK), Err("denied".to_string()));
    assert_eq!(
        install_result(false, String::new(), INSTALL_FALLBACK),
        Err("A atualização falhou, mas não retornou saída textual.".to_string())
    );
}

#[test]
fn fallback_only_for_blank_output() {
    assert_eq!(fallback_command_error(" \n\t".to_string(), "none"), "none");
    assert_eq!(fallback_command_error(" x ".to_string(), "none"), " x ");
}

#[test]
fn tooltip_lists_packages() {
    let tooltip = update_button_tooltip(
        "Baixar e instalar atualizações: {packages}".to_string(),
        &vec![
            "galaxybook-sound".to_string(),
            "akmod-galaxybook-max98390".to_string(),
        ],
    );
    assert_eq!(
        tooltip,
        "Baixar e instalar atualizações: galaxybook-sound, akmod-galaxybook-max98390"
    );
}

#[test]
fn concatenated_outputs_report_new_names_after_first() {
    let o1 = "galaxybook-sound.x86_64 1.1\n";
    let o2 = "akmod-galaxybook-max98390.x86_64 1.1\ngalaxybook-sound.x86_64 1.1\n";
    let r1 = parse_dnf_check_update_package_names(o1, &PACKAGES);
    let r2 = parse_dnf_check_update_package_names(o2, &PACKAGES);
    let mut expected = r1.clone();
    expected.extend(r2.into_iter().filter(|name| !r1.contains(name)));
    assert_eq!(
        parse_dnf_check_update_package_names(&(o1.to_owned() + o2), &PACKAGES),
        expected
    );
    assert_eq!(expected, vec!["galaxybook-sound", "akmod-galaxybook-max98390"]);
}
