use galaxybook_sound::i18n::apply_replacements;
use galaxybook_sound::tr_mark;

#[test]
fn replacements_fill_each_placeholder() {
    assert_eq!(
        apply_replacements(
            "Perfil ativo: {preset} ({preset})".to_string(),
            &[("preset", "Cinema".to_string())]
        ),
        "Perfil ativo: Cinema (Cinema)"
    );
    assert_eq!(
        apply_replacements(
            "{a}{b}{c}".to_string(),
            &[("a", "{b}".to_string()), ("b", "x".to_string())]
        ),
        "xx{c}"
    );
    assert_eq!(apply_replacements("no placeholder".to_string(), &[("k", "v".to_string())]), "no placeholder");
    assert_eq!(apply_replacements("{{k}}".to_string(), &[("k", "v".to_string())]), "{v}");
}

#[test]
fn marked_messages_come_back_as_given() {
    assert_eq!(tr_mark("Neutro"), "Neutro");
    assert_eq!(
        apply_replacements(
            "Falha ao abrir o link: {error}".to_string(),
            &[("error", "timeout".to_string())]
        ),
        "Falha ao abrir o link: timeout"
    );
}
