//! What a loaded configuration holds, setting by setting.
use vstd::prelude::*;

use crate::audio::AudioMode;
use crate::capture::CaptureMode;
use crate::config::{
    all_digits, chosen, crosses, digit_value, digits_value, is_file_result, lemma_no_crosses,
    lemma_one_cross, number_of, problem, resolution_of, unsigned, AccessWarning, ConfigLocation,
    ConfigProblem, ConfigRead, ConfigValues, RuntimeConfig,
};
use crate::egfx::policy::EgfxCodecPolicy;
use crate::egfx::rate_control::H264RateControl;
use crate::input::KeyboardLayoutPolicy;

verus! {

/// A setting is that of the command line where that makes it, else that of the file.
pub open spec fn is_set_by<T>(value: Option<T>, args: Option<T>, file: Option<T>) -> bool {
    &&& args is Some ==> value == args
    &&& args is None ==> value == file
}

/// A text is that of the command line where that sets it, else that of the file, else
/// the default.
pub open spec fn is_text(
    value: Seq<char>,
    args: Option<String>,
    file: Option<String>,
    default: Seq<char>,
) -> bool {
    &&& args is Some ==> value == args->0@
    &&& args is None && file is Some ==> value == file->0@
    &&& args is None && file is None ==> value == default
}

/// A number is that of the command line where that sets it, else that of the file, else
/// the default.
pub open spec fn is_number_set<T>(value: T, args: Option<T>, file: Option<T>, default: T) -> bool {
    &&& args is Some ==> value == args->0
    &&& args is None && file is Some ==> value == file->0
    &&& args is None && file is None ==> value == default
}

/// Every setting that is taken over as it is comes from the setting of its own name: on
/// the command line, else in the file, else its default.
pub proof fn every_setting_has_its_own_source(
    config: RuntimeConfig,
    args: ConfigValues,
    file: ConfigValues,
    default_max_frames: u32,
)
    requires
        config.is_loaded(args, file, default_max_frames),
    ensures
        is_text(config.bind@, args.bind, file.bind, "127.0.0.1:3389"@),
        is_set_by(config.cert, args.cert, file.cert),
        is_set_by(config.key, args.key, file.key),
        is_text(config.username@, args.username, file.username, ""@),
        is_text(config.password@, args.password, file.password, ""@),
        is_number_set(config.bitrate, args.bitrate, file.bitrate, 10_000_000),
        is_number_set(config.quality, args.quality, file.quality, 23),
        is_number_set(config.fps, args.fps, file.fps, 30),
        is_number_set(
            config.max_frames_in_flight,
            args.max_frames_in_flight,
            file.max_frames_in_flight,
            default_max_frames,
        ),
        is_set_by(config.output, args.output, file.output),
        is_set_by(config.on_client_connect, args.on_client_connect, file.on_client_connect),
        is_set_by(
            config.on_client_disconnect,
            args.on_client_disconnect,
            file.on_client_disconnect,
        ),
        config.resolution_fixed <==> args.resolution is Some || file.resolution is Some,
{
    reveal_strlit("");
    assert(""@ =~= Seq::<char>::empty());
}

/// Every setting that is a name stands for what the name says.
pub proof fn every_name_has_its_meaning(
    config: RuntimeConfig,
    args: ConfigValues,
    file: ConfigValues,
    default_max_frames: u32,
    rate_control: Seq<char>,
    capture_mode: Seq<char>,
    egfx_codec: Seq<char>,
    keyboard: Seq<char>,
    audio: Seq<char>,
)
    requires
        config.is_loaded(args, file, default_max_frames),
        is_text(rate_control, args.rate_control, file.rate_control, "vbr"@),
        is_text(capture_mode, args.capture_mode, file.capture_mode, "wlr"@),
        is_text(egfx_codec, args.egfx_codec, file.egfx_codec, "avc420"@),
        is_text(keyboard, args.keyboard_layout_policy, file.keyboard_layout_policy, "client"@),
        is_text(audio, args.audio_mode, file.audio_mode, "redirect"@),
    ensures
        match config.rate_control {
            H264RateControl::Vbr => rate_control == "vbr"@,
            H264RateControl::Cqp => rate_control == "cqp"@,
        },
        match config.capture_mode {
            CaptureMode::Ext => capture_mode == "ext"@,
            CaptureMode::Wlr => capture_mode == "wlr"@,
        },
        match config.egfx_codec {
            EgfxCodecPolicy::Auto => egfx_codec == "auto"@,
            EgfxCodecPolicy::Avc420 => egfx_codec == "avc420"@,
            EgfxCodecPolicy::Avc444 => egfx_codec == "avc444"@,
        },
        match config.keyboard_layout_policy {
            KeyboardLayoutPolicy::Client => keyboard == "client"@,
            KeyboardLayoutPolicy::Compositor => keyboard == "compositor"@,
        },
        match config.audio_mode {
            AudioMode::Mirror => audio == "mirror"@,
            AudioMode::Redirect => audio == "redirect"@,
            AudioMode::Off => audio == "off"@,
        },
{
}

/// The number that a run of decimal digits stands for, the first digit counting most.
pub open spec fn numeral(s: Seq<char>) -> int
    decreases s.len(),
{
    if s.len() == 0 {
        0
    } else {
        10 * numeral(s.drop_last()) + (s.last() as int - 48)
    }
}

/// Text of one or more decimal digits.
pub open spec fn is_digits(s: Seq<char>) -> bool {
    s.len() > 0 && forall|i: int| 0 <= i < s.len() ==> 48 <= #[trigger] s[i] as int <= 57
}

proof fn lemma_numeral(s: Seq<char>)
    requires
        forall|i: int| 0 <= i < s.len() ==> 48 <= #[trigger] s[i] as int <= 57,
    ensures
        digits_value(s) == numeral(s),
        all_digits(s),
        0 <= numeral(s),
    decreases s.len(),
{
    if s.len() > 0 {
        let before = s.drop_last();
        assert forall|i: int| 0 <= i < before.len() implies 48 <= #[trigger] before[i] as int
            <= 57 by {
            assert(before[i] == s[i]);
        }
        lemma_numeral(before);
        assert(s.last() == s[s.len() - 1]);
    }
}

/// A resolution is two numbers with an x between: even ones are taken as they are, odd
/// ones without their last pixel, and both have to lie between 2 and 65535.
pub proof fn a_resolution_is_two_numbers(a: Seq<char>, b: Seq<char>)
    requires
        is_digits(a),
        is_digits(b),
        numeral(a) <= u32::MAX,
        numeral(b) <= u32::MAX,
    ensures
        ({
            let (w, h) = (numeral(a), numeral(b));
            match resolution_of(a + seq!['x'] + b) {
                Ok(size) => {
                    &&& 2 <= w <= 65535 && 2 <= h <= 65535
                    &&& size.0 == w - w % 2 && size.1 == h - h % 2
                },
                Err(ConfigProblem::ResolutionZero) => w == 0 || h == 0,
                Err(ConfigProblem::ResolutionTooLarge) => w > 0 && h > 0 && (w > 65535 || h
                    > 65535),
                Err(ConfigProblem::ResolutionTooSmall) => w == 1 || h == 1,
                Err(_) => false,
            }
        }),
{
    lemma_number(a);
    lemma_number(b);
    let s = a + seq!['x'] + b;
    assert forall|i: int| 0 <= i < a.len() implies #[trigger] a[i] != 'x' by {
        assert(48 <= a[i] as int <= 57);
    }
    assert forall|i: int| 0 <= i < b.len() implies #[trigger] b[i] != 'x' by {
        assert(48 <= b[i] as int <= 57);
    }
    lemma_one_cross(a, b);
    assert(s.take(a.len() as int) =~= a);
    assert(s.skip(a.len() as int + 1) =~= b);
}

proof fn lemma_number(s: Seq<char>)
    requires
        is_digits(s),
        numeral(s) <= u32::MAX,
    ensures
        number_of(s) is Some,
        number_of(s)->0 == numeral(s),
{
    reveal(number_of);
    lemma_numeral(s);
    assert(48 <= s[0] as int <= 57);
    assert(s[0] != '+');
}

/// Text of decimal digits, with or without a plus sign in front.
pub open spec fn is_number(s: Seq<char>) -> bool {
    is_digits(s) || (s.len() > 0 && s[0] == '+' && is_digits(s.skip(1)))
}

/// Nothing else is a resolution: what is accepted has one x, with a number on either
/// side.
pub proof fn only_two_numbers_are_a_resolution(s: Seq<char>)
    requires
        resolution_of(s) is Ok,
    ensures
        exists|at: int|
            0 <= at < s.len() && #[trigger] s[at] == 'x' && is_number(s.take(at)) && is_number(
                s.skip(at + 1),
            ),
{
    reveal(number_of);
    lemma_crosses(s);
    let at = crosses(s)[0];
    assert(s[at] == 'x');
    lemma_is_number(s.take(at));
    lemma_is_number(s.skip(at + 1));
}

proof fn lemma_crosses(s: Seq<char>)
    ensures
        forall|i: int|
            0 <= i < crosses(s).len() ==> 0 <= #[trigger] crosses(s)[i] < s.len() && s[crosses(
                s,
            )[i]] == 'x',
    decreases s.len(),
{
    if s.len() > 0 {
        let before = s.drop_last();
        lemma_crosses(before);
        assert forall|i: int| 0 <= i < crosses(s).len() implies 0 <= #[trigger] crosses(s)[i]
            < s.len() && s[crosses(s)[i]] == 'x' by {
            if i < crosses(before).len() {
                assert(crosses(s)[i] == crosses(before)[i]);
                assert(before[crosses(before)[i]] == s[crosses(before)[i]]);
            }
        }
    }
}

proof fn lemma_is_number(s: Seq<char>)
    requires
        number_of(s) is Some,
    ensures
        is_number(s),
{
    reveal(number_of);
    let d = unsigned(s);
    assert forall|i: int| 0 <= i < d.len() implies 48 <= #[trigger] d[i] as int <= 57 by {
        assert(digit_value(d[i]) is Some);
    }
}

/// The resolution is what the command line, else the file, says; without either it is
/// 1920 by 1080.
pub proof fn the_resolution_is_what_is_written(
    config: RuntimeConfig,
    args: ConfigValues,
    file: ConfigValues,
    default_max_frames: u32,
    text: Seq<char>,
    a: Seq<char>,
    b: Seq<char>,
)
    requires
        config.is_loaded(args, file, default_max_frames),
        is_text(text, args.resolution, file.resolution, "1920x1080"@),
        text == a + seq!['x'] + b,
        is_digits(a),
        is_digits(b),
        numeral(a) <= u32::MAX,
        numeral(b) <= u32::MAX,
    ensures
        config.resolution.0 == numeral(a) - numeral(a) % 2,
        config.resolution.1 == numeral(b) - numeral(b) % 2,
{
    a_resolution_is_two_numbers(a, b);
}

/// A configuration is loaded exactly where every name is known, the resolution can be
/// used, the quality is at most 51, and neither the frame rate nor the number of
/// unacknowledged frames is zero. The first that is wrong, in this order, is the error.
pub proof fn what_is_wrong_comes_first(
    args: ConfigValues,
    file: ConfigValues,
    default_max_frames: u32,
    rate_control: Seq<char>,
    egfx_codec: Seq<char>,
    keyboard: Seq<char>,
    audio: Seq<char>,
    resolution: Seq<char>,
    capture_mode: Seq<char>,
    quality: u8,
    fps: u32,
    frames: u32,
)
    requires
        is_text(rate_control, args.rate_control, file.rate_control, "vbr"@),
        is_text(egfx_codec, args.egfx_codec, file.egfx_codec, "avc420"@),
        is_text(keyboard, args.keyboard_layout_policy, file.keyboard_layout_policy, "client"@),
        is_text(audio, args.audio_mode, file.audio_mode, "redirect"@),
        is_text(resolution, args.resolution, file.resolution, "1920x1080"@),
        is_text(capture_mode, args.capture_mode, file.capture_mode, "wlr"@),
        is_number_set(quality, args.quality, file.quality, 23),
        is_number_set(fps, args.fps, file.fps, 30),
        is_number_set(
            frames,
            args.max_frames_in_flight,
            file.max_frames_in_flight,
            default_max_frames,
        ),
    ensures
        problem(chosen(args, file, default_max_frames)) == if rate_control != "vbr"@ && rate_control
            != "cqp"@ {
            Some(ConfigProblem::UnknownRateControl(rate_control))
        } else if egfx_codec != "auto"@ && egfx_codec != "avc420"@ && egfx_codec != "avc444"@ {
            Some(ConfigProblem::UnknownEgfxCodec(egfx_codec))
        } else if keyboard != "client"@ && keyboard != "compositor"@ {
            Some(ConfigProblem::UnknownKeyboardLayoutPolicy(keyboard))
        } else if audio != "mirror"@ && audio != "redirect"@ && audio != "off"@ {
            Some(ConfigProblem::UnknownAudioMode(audio))
        } else if resolution_of(resolution) is Err {
            Some(resolution_of(resolution)->Err_0)
        } else if capture_mode != "ext"@ && capture_mode != "wlr"@ {
            Some(ConfigProblem::UnknownCaptureMode(capture_mode))
        } else if quality > 51 {
            Some(ConfigProblem::QualityOutOfRange)
        } else if fps == 0 {
            Some(ConfigProblem::FpsZero)
        } else if frames == 0 {
            Some(ConfigProblem::MaxFramesInFlightZero)
        } else {
            None
        },
{
}

/// There is a warning exactly where a user name or a password is missing, a stronger one
/// where the address begins with `0.0.0.0`.
pub proof fn when_access_is_warned_of(config: RuntimeConfig, rest: Seq<char>)
    ensures
        config.warning() is None <==> config.username@.len() > 0 && config.password@.len() > 0,
        config.warning() is Some && config.bind@ == "0.0.0.0"@ + rest ==> config.warning() == Some(
            AccessWarning::NoCredentialsOnAllInterfaces,
        ),
        config.warning() == Some(AccessWarning::NoCredentialsOnAllInterfaces)
            ==> config.bind@.len() >= 7 && config.bind@.take(7) == "0.0.0.0"@,
{
    reveal_strlit("0.0.0.0");
    if config.bind@ == "0.0.0.0"@ + rest {
        assert(config.bind@.take(7) =~= "0.0.0.0"@);
    }
}

/// A file that was read sets what it sets. One that cannot be read is an error, unless it
/// is the usual one and is not there: then nothing is set. One that cannot be understood
/// is an error wherever it is. An error names the file and the cause.
pub proof fn what_comes_of_a_file(
    location: ConfigLocation,
    path: Seq<char>,
    read: ConfigRead,
    r: Result<ConfigValues, String>,
)
    requires
        is_file_result(location, path, read, r),
    ensures
        match read {
            ConfigRead::Values(values) => r is Ok && r->Ok_0 == values,
            ConfigRead::Malformed { cause } => r is Err && r->Err_0@ == "failed to parse config "@
                + path + ": "@ + cause@,
            ConfigRead::Unreadable { not_found, cause } => match location {
                ConfigLocation::Explicit(_) => r is Err && r->Err_0@ == "failed to read config "@
                    + path + ": "@ + cause@,
                _ => {
                    &&& not_found ==> r is Ok
                    &&& not_found ==> r->Ok_0.bind is None && r->Ok_0.cert is None
                        && r->Ok_0.key is None && r->Ok_0.username is None
                        && r->Ok_0.password is None && r->Ok_0.resolution is None
                        && r->Ok_0.capture_mode is None && r->Ok_0.bitrate is None
                        && r->Ok_0.quality is None && r->Ok_0.rate_control is None
                        && r->Ok_0.fps is None && r->Ok_0.max_frames_in_flight is None
                        && r->Ok_0.egfx_codec is None && r->Ok_0.keyboard_layout_policy is None
                        && r->Ok_0.audio_mode is None && r->Ok_0.output is None
                        && r->Ok_0.on_client_connect is None
                        && r->Ok_0.on_client_disconnect is None
                    &&& !not_found ==> r is Err && r->Err_0@ == "failed to read config "@ + path
                        + ": "@ + cause@
                },
            },
        },
{
}

/// A plus sign in front of a number changes nothing.
pub proof fn a_plus_sign_changes_nothing(a: Seq<char>)
    requires
        is_digits(a),
        numeral(a) <= u32::MAX,
    ensures
        number_of(seq!['+'] + a) == number_of(a),
        number_of(a) is Some && number_of(a)->0 == numeral(a),
{
    lemma_number(a);
    reveal(number_of);
    assert((seq!['+'] + a).skip(1) =~= a);
    assert(48 <= a[0] as int <= 57);
    assert(a[0] != '+');
}

/// What is not a resolution is refused for its first fault: not one x, no number in front
/// of it, or no number behind it; a number too long for 32 bits is none.
pub proof fn why_a_resolution_is_refused(a: Seq<char>, b: Seq<char>)
    requires
        forall|i: int| 0 <= i < a.len() ==> #[trigger] a[i] != 'x',
        forall|i: int| 0 <= i < b.len() ==> #[trigger] b[i] != 'x',
    ensures
        resolution_of(a) == Err::<(u32, u32), _>(ConfigProblem::ResolutionFormat),
        !is_number(a) || (is_digits(a) && numeral(a) > u32::MAX) ==> resolution_of(
            a + seq!['x'] + b,
        ) == Err::<(u32, u32), _>(ConfigProblem::ResolutionWidth),
        is_digits(a) && numeral(a) <= u32::MAX && (!is_number(b) || (is_digits(b) && numeral(b)
            > u32::MAX)) ==> resolution_of(a + seq!['x'] + b) == Err::<(u32, u32), _>(
            ConfigProblem::ResolutionHeight,
        ),
{
    lemma_no_crosses(a);
    lemma_one_cross(a, b);
    let s = a + seq!['x'] + b;
    assert(s.take(a.len() as int) =~= a);
    assert(s.skip(a.len() as int + 1) =~= b);
    lemma_no_number(a);
    lemma_no_number(b);
    if is_digits(a) && numeral(a) <= u32::MAX {
        lemma_number(a);
    }
}

proof fn lemma_no_number(s: Seq<char>)
    ensures
        !is_number(s) || (is_digits(s) && numeral(s) > u32::MAX) ==> number_of(s) is None,
{
    reveal(number_of);
    if number_of(s) is Some {
        lemma_is_number(s);
        if is_digits(s) {
            lemma_numeral(s);
            assert(48 <= s[0] as int <= 57);
            assert(s[0] != '+');
        }
    }
}

} // verus!
