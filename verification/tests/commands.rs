use galaxybook_sound::commands::{
    command_output_text, command_text_from_output, config_home, join_path_bytes,
    pipewire_filter_config_path, poll_step, restart_error_message, sound_app_config_path,
    PollStep, POLL_ATTEMPTS,
};

#[test]
fn output_text_concatenates_stdout_and_stderr() {
    assert_eq!(command_output_text(b"out\n", b"err\n"), "out\nerr\n");
    assert_eq!(command_output_text(b"", b""), "");
    assert_eq!(command_output_text(b"caf\xc3\xa9", b"\xff"), "café\u{fffd}");
}

#[test]
fn command_text_prefers_stdout() {
    assert_eq!(command_text_from_output(false, b"x", b"y"), Err(()));
    assert_eq!(command_text_from_output(true, b"  x \n", b"y"), Ok("x".to_string()));
    assert_eq!(command_text_from_output(true, b" \n", b" y\n"), Ok("y".to_string()));
    assert_eq!(command_text_from_output(true, b"", b"\n"), Err(()));
}

#[test]
fn restart_error_prefers_stderr_then_stdout() {
    assert_eq!(restart_error_message(b" failed \n", b"out", "refused"), "failed");
    assert_eq!(restart_error_message(b"  ", b" out ", "refused"), "out");
    assert_eq!(
        restart_error_message(b"", b"", "refused"),
        "refused"
    );
}

#[test]
fn polling_gives_up_after_the_last_attempt() {
    assert_eq!(poll_step(1, true), PollStep::Done);
    assert_eq!(poll_step(1, false), PollStep::SleepAndRetry);
    assert_eq!(poll_step(POLL_ATTEMPTS - 1, false), PollStep::SleepAndRetry);
    assert_eq!(poll_step(POLL_ATTEMPTS, false), PollStep::SleepAndGiveUp);
    assert_eq!(poll_step(POLL_ATTEMPTS, true), PollStep::Done);
}

fn bytes(s: &str) -> Vec<u8> {
    s.as_bytes().to_vec()
}

#[test]
fn paths_follow_xdg_then_home() {
    assert_eq!(config_home(Some(bytes("/xdg")), Some(bytes("/home/u"))), bytes("/xdg"));
    assert_eq!(config_home(None, Some(bytes("/home/u"))), bytes("/home/u/.config"));
    assert_eq!(config_home(None, Some(bytes("/home/u/"))), bytes("/home/u/.config"));
    assert_eq!(config_home(None, None), bytes("."));
    assert_eq!(
        sound_app_config_path(&bytes("/home/u/.config")),
        bytes("/home/u/.config/galaxybook-sound/config.json")
    );
    assert_eq!(
        pipewire_filter_config_path(&bytes("/xdg/")),
        bytes("/xdg/pipewire/pipewire.conf.d/99-galaxybook-sound.conf")
    );
    assert_eq!(join_path_bytes(&Vec::new(), "a"), bytes("a"));
    let odd = vec![b'/', b'h', 0xff, 0xfe];
    let mut expected = odd.clone();
    expected.extend_from_slice(b"/galaxybook-sound/config.json");
    assert_eq!(sound_app_config_path(&odd), expected);
    assert_eq!(
        sound_app_config_path(&Vec::new()),
        bytes(
            std::path::PathBuf::from("")
                .join("galaxybook-sound")
                .join("config.json")
                .to_str()
                .unwrap()
        )
    );
}
