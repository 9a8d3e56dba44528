//! Decisions on the results of external commands (`wpctl`, `pw-cli`,
//! `systemctl`, `dnf`), the polling of the audio session, and the paths of
//! the files the panel writes.

use vstd::prelude::*;
use vstd::string::StringSliceAdditionalSpecFns;
use vstd::utf8::{decode_utf8, valid_utf8};

use crate::filter_chain::PIPEWIRE_FILTER_CONFIG_NAME;
use crate::text::{is_blank, trim, trimmed};

verus! {

/// The characters that `String::from_utf8_lossy` decodes from `bytes`.
pub uninterp spec fn utf8_lossy(bytes: Seq<u8>) -> Seq<char>;

/// Decodes `bytes` with `String::from_utf8_lossy`, which replaces each
/// invalid sequence with U+FFFD. The result is named by `utf8_lossy`; std
/// documents that valid UTF-8 is decoded unchanged, which the second clause
/// states.
#[verifier::external_body]
fn decode_lossy(bytes: &[u8]) -> (r: String)
    ensures
        r@ == utf8_lossy(bytes@),
        valid_utf8(bytes@) ==> r@ == decode_utf8(bytes@),
{
    String::from_utf8_lossy(bytes).into_owned()
}

/// The text of a command's output: its standard output followed by its
/// standard error, each decoded as UTF-8 with invalid sequences replaced.
pub fn command_output_text(stdout: &[u8], stderr: &[u8]) -> (r: String)
    ensures
        r@ == utf8_lossy(stdout@) + utf8_lossy(stderr@),
        valid_utf8(stdout@) && valid_utf8(stderr@) ==> r@ == decode_utf8(stdout@) + decode_utf8(
            stderr@,
        ),
{
    let mut text = String::new();
    let out = decode_lossy(stdout);
    let err = decode_lossy(stderr);
    text.append(out.as_str());
    text.append(err.as_str());
    text
}

/// `output` unless it is blank, in which case `fallback`.
pub fn fallback_command_error(output: String, fallback: &str) -> (r: String)
    ensures
        r@ == (if trim(output@).len() == 0 {
            fallback@
        } else {
            output@
        }),
{
    if is_blank(output.as_str()) {
        fallback.to_owned()
    } else {
        output
    }
}

/// What a command that ran gives as text: nothing when it failed;
/// otherwise its trimmed standard output, or when that is empty its trimmed
/// standard error, and nothing when both are empty.
pub fn command_text_from_output(success: bool, stdout: &[u8], stderr: &[u8]) -> (r: Result<String, ()>)
    ensures
        !success ==> r is Err,
        success && trim(utf8_lossy(stdout@)).len() > 0 ==> (r matches Ok(t) && t@ == trim(
            utf8_lossy(stdout@),
        )),
        success && trim(utf8_lossy(stdout@)).len() == 0 && trim(utf8_lossy(stderr@)).len() > 0
            ==> (r matches Ok(t) && t@ == trim(utf8_lossy(stderr@))),
        success && trim(utf8_lossy(stdout@)).len() == 0 && trim(utf8_lossy(stderr@)).len() == 0
            ==> r is Err,
{
    if !success {
        return Err(());
    }
    let out = trimmed(decode_lossy(stdout).as_str());
    if out.as_str().unicode_len() == 0 {
        let err = trimmed(decode_lossy(stderr).as_str());
        if err.as_str().unicode_len() == 0 {
            Err(())
        } else {
            Ok(err)
        }
    } else {
        Ok(out)
    }
}

/// The error reported when restarting the audio services failed: the
/// trimmed standard error, or else the trimmed standard output, or else
/// `fallback` (the translated message saying that the session refused the
/// restart).
pub fn restart_error_message(stderr: &[u8], stdout: &[u8], fallback: &str) -> (r: String)
    ensures
        trim(utf8_lossy(stderr@)).len() > 0 ==> r@ == trim(utf8_lossy(stderr@)),
        trim(utf8_lossy(stderr@)).len() == 0 && trim(utf8_lossy(stdout@)).len() > 0 ==> r@ == trim(
            utf8_lossy(stdout@),
        ),
        trim(utf8_lossy(stderr@)).len() == 0 && trim(utf8_lossy(stdout@)).len() == 0 ==> r@
            == fallback@,
{
    let err = trimmed(decode_lossy(stderr).as_str());
    let out = trimmed(decode_lossy(stdout).as_str());
    if err.as_str().unicode_len() > 0 {
        err
    } else if out.as_str().unicode_len() > 0 {
        out
    } else {
        fallback.to_owned()
    }
}

/// How many times the session is checked before waiting is given up.
pub const POLL_ATTEMPTS: u32 = 30;

/// Pause between two checks of the session, in milliseconds.
pub const POLL_INTERVAL_MS: u64 = 150;

/// What to do after a check of the session.
#[derive(Clone, Copy, Debug, PartialEq, Eq, Structural)]
pub enum PollStep {
    /// The awaited state was reached.
    Done,
    /// Pause, then check again.
    SleepAndRetry,
    /// Pause, then give up.
    SleepAndGiveUp,
}

/// The step after the `checks_made`-th check, which found the awaited state
/// (`ready`) or not: done when ready; otherwise pause and check again until
/// [`POLL_ATTEMPTS`] checks were made, then pause and give up.
pub fn poll_step(checks_made: u32, ready: bool) -> (r: PollStep)
    requires
        1 <= checks_made <= POLL_ATTEMPTS,
    ensures
        ready ==> r == PollStep::Done,
        !ready && checks_made < POLL_ATTEMPTS ==> r == PollStep::SleepAndRetry,
        !ready && checks_made == POLL_ATTEMPTS ==> r == PollStep::SleepAndGiveUp,
{
    if ready {
        PollStep::Done
    } else if checks_made < POLL_ATTEMPTS {
        PollStep::SleepAndRetry
    } else {
        PollStep::SleepAndGiveUp
    }
}

/// `base` followed by the relative, non-empty component `comp`, the way
/// `PathBuf::push` joins them on Unix, byte by byte: a `/` goes between
/// them unless `base` is empty or already ends with one.
pub open spec fn join_path(base: Seq<u8>, comp: Seq<u8>) -> Seq<u8> {
    if base.len() == 0 {
        comp
    } else if base.last() == 0x2fu8 {
        base + comp
    } else {
        base + seq![0x2fu8] + comp
    }
}

/// The UTF-8 bytes of a path component.
pub open spec fn component(s: &str) -> Seq<u8> {
    s.spec_bytes()
}

/// `base` joined with the UTF-8 bytes of `comp` (see [`join_path`]).
pub fn join_path_bytes(base: &Vec<u8>, comp: &str) -> (r: Vec<u8>)
    ensures
        r@ == join_path(base@, component(comp)),
{
    let c = comp.as_bytes();
    let mut r: Vec<u8> = Vec::new();
    let mut i: usize = 0;
    while i < base.len()
        invariant
            i <= base.len(),
            r@ == base@.take(i as int),
        decreases base.len() - i,
    {
        r.push(base[i]);
        assert(base@.take(i + 1) =~= base@.take(i as int).push(base@[i as int]));
        i = i + 1;
    }
    assert(base@.take(i as int) =~= base@);
    if base.len() > 0 && base[base.len() - 1] != 0x2fu8 {
        r.push(0x2fu8);
    }
    let ghost start = r@;
    let mut k: usize = 0;
    while k < c.len()
        invariant
            k <= c.len(),
            r@ == start + c@.take(k as int),
        decreases c.len() - k,
    {
        r.push(c[k]);
        assert(c@.take(k + 1) =~= c@.take(k as int).push(c@[k as int]));
        k = k + 1;
    }
    assert(c@.take(k as int) =~= c@);
    proof {
        if base.len() == 0 {
            assert(start =~= Seq::<u8>::empty());
            assert(r@ =~= c@);
        } else if base@.last() == 0x2fu8 {
            assert(r@ =~= base@ + c@);
        } else {
            assert(start =~= base@ + seq![0x2fu8]);
        }
    }
    r
}

/// The configuration directory: `$XDG_CONFIG_HOME`, or else
/// `$HOME/.config`, or else the current directory. Paths are the bytes of
/// the environment values, unchanged.
pub open spec fn config_home_of(xdg_config_home: Option<Seq<u8>>, home: Option<Seq<u8>>) -> Seq<
    u8,
> {
    match xdg_config_home {
        Some(x) => x,
        None => match home {
            Some(h) => join_path(h, component(".config")),
            None => component("."),
        },
    }
}

/// The configuration directory from the values of `XDG_CONFIG_HOME` and
/// `HOME` (see [`config_home_of`]).
pub fn config_home(xdg_config_home: Option<Vec<u8>>, home: Option<Vec<u8>>) -> (r: Vec<u8>)
    ensures
        r@ == config_home_of(xdg_config_home.deep_view(), home.deep_view()),
{
    match xdg_config_home {
        Some(x) => {
            assert(x.deep_view() =~= x@);
            x
        },
        None => match home {
            Some(h) => {
                assert(h.deep_view() =~= h@);
                join_path_bytes(&h, ".config")
            },
            None => join_path_bytes(&Vec::new(), "."),
        },
    }
}

/// Where the panel's own configuration is saved, under the configuration
/// directory `config_home`.
pub fn sound_app_config_path(config_home: &Vec<u8>) -> (r: Vec<u8>)
    ensures
        r@ == join_path(
            join_path(config_home@, component("galaxybook-sound")),
            component("config.json"),
        ),
{
    let dir = join_path_bytes(config_home, "galaxybook-sound");
    join_path_bytes(&dir, "config.json")
}

/// Where the PipeWire drop-in of the filter is written, under the
/// configuration directory `config_home`.
pub fn pipewire_filter_config_path(config_home: &Vec<u8>) -> (r: Vec<u8>)
    ensures
        r@ == join_path(
            join_path(
                join_path(config_home@, component("pipewire")),
                component("pipewire.conf.d"),
            ),
            component(PIPEWIRE_FILTER_CONFIG_NAME),
        ),
{
    let a = join_path_bytes(config_home, "pipewire");
    let b = join_path_bytes(&a, "pipewire.conf.d");
    join_path_bytes(&b, PIPEWIRE_FILTER_CONFIG_NAME)
}

/// Joining keeps the base and the component as they are, byte for byte:
/// the joined path starts with the base and ends with the component, and
/// between them stands exactly one `/` when the base is not empty (the
/// base's own final `/`, or one added).
pub proof fn law_join_keeps_both_parts(base: Seq<u8>, comp: Seq<u8>)
    ensures
        join_path(base, comp).take(base.len() as int) == base,
        join_path(base, comp).skip(join_path(base, comp).len() - comp.len()) == comp,
        base.len() == 0 ==> join_path(base, comp) == comp,
        base.len() > 0 && base.last() == 0x2fu8 ==> join_path(base, comp).len() == base.len()
            + comp.len(),
        base.len() > 0 && base.last() != 0x2fu8 ==> join_path(base, comp).len() == base.len()
            + comp.len() + 1 && join_path(base, comp)[base.len() as int] == 0x2fu8,
{
    let j = join_path(base, comp);
    if base.len() == 0 {
        assert(j.take(0) =~= base);
        assert(j.skip(0) =~= comp);
    } else if base.last() == 0x2fu8 {
        assert(j.take(base.len() as int) =~= base);
        assert(j.skip(base.len() as int) =~= comp);
    } else {
        assert(j.take(base.len() as int) =~= base);
        assert(j.skip(base.len() + 1int) =~= comp);
    }
}

} // verus!
