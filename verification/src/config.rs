//! The server's configuration: the command line first, then the configuration
//! file, then the defaults.
use vstd::prelude::*;

use crate::audio::AudioMode;
use crate::capture::CaptureMode;
use crate::egfx::policy::EgfxCodecPolicy;
use crate::egfx::rate_control::H264RateControl;
use crate::input::KeyboardLayoutPolicy;
use crate::text::{decimal, digit_char, same_text, starts_with};

verus! {

/// What the command line or the configuration file sets.
#[derive(Debug)]
pub struct ConfigValues {
    pub bind: Option<String>,
    pub cert: Option<String>,
    pub key: Option<String>,
    pub username: Option<String>,
    pub password: Option<String>,
    pub resolution: Option<String>,
    pub capture_mode: Option<String>,
    pub bitrate: Option<u32>,
    pub quality: Option<u8>,
    pub rate_control: Option<String>,
    pub fps: Option<u32>,
    pub max_frames_in_flight: Option<u32>,
    pub egfx_codec: Option<String>,
    pub keyboard_layout_policy: Option<String>,
    pub audio_mode: Option<String>,
    pub output: Option<String>,
    pub on_client_connect: Option<String>,
    pub on_client_disconnect: Option<String>,
}

/// The configuration that the server runs with.
#[derive(Debug)]
pub struct RuntimeConfig {
    pub bind: String,
    pub cert: Option<String>,
    pub key: Option<String>,
    pub username: String,
    pub password: String,
    pub resolution: (u32, u32),
    pub capture_mode: CaptureMode,
    pub bitrate: u32,
    pub quality: u8,
    pub rate_control: H264RateControl,
    pub fps: u32,
    pub max_frames_in_flight: u32,
    pub egfx_codec: EgfxCodecPolicy,
    pub keyboard_layout_policy: KeyboardLayoutPolicy,
    pub audio_mode: AudioMode,
    pub resolution_fixed: bool,
    pub output: Option<String>,
    pub on_client_connect: Option<String>,
    pub on_client_disconnect: Option<String>,
}

/// What is wrong with a configuration.
#[derive(Debug, PartialEq, Eq)]
pub enum ConfigError {
    UnknownRateControl(String),
    UnknownCaptureMode(String),
    UnknownEgfxCodec(String),
    UnknownKeyboardLayoutPolicy(String),
    UnknownAudioMode(String),
    ResolutionFormat,
    ResolutionWidth,
    ResolutionHeight,
    ResolutionZero,
    ResolutionTooLarge,
    ResolutionTooSmall,
    QualityOutOfRange,
    FpsZero,
    MaxFramesInFlightZero,
}

/// A `ConfigError`, its text by content.
pub enum ConfigProblem {
    UnknownRateControl(Seq<char>),
    UnknownCaptureMode(Seq<char>),
    UnknownEgfxCodec(Seq<char>),
    UnknownKeyboardLayoutPolicy(Seq<char>),
    UnknownAudioMode(Seq<char>),
    ResolutionFormat,
    ResolutionWidth,
    ResolutionHeight,
    ResolutionZero,
    ResolutionTooLarge,
    ResolutionTooSmall,
    QualityOutOfRange,
    FpsZero,
    MaxFramesInFlightZero,
}

impl ConfigError {
    /// The error by its content.
    pub open spec fn view(&self) -> ConfigProblem {
        match self {
            ConfigError::UnknownRateControl(s) => ConfigProblem::UnknownRateControl(s@),
            ConfigError::UnknownCaptureMode(s) => ConfigProblem::UnknownCaptureMode(s@),
            ConfigError::UnknownEgfxCodec(s) => ConfigProblem::UnknownEgfxCodec(s@),
            ConfigError::UnknownKeyboardLayoutPolicy(s) => {
                ConfigProblem::UnknownKeyboardLayoutPolicy(s@)
            },
            ConfigError::UnknownAudioMode(s) => ConfigProblem::UnknownAudioMode(s@),
            ConfigError::ResolutionFormat => ConfigProblem::ResolutionFormat,
            ConfigError::ResolutionWidth => ConfigProblem::ResolutionWidth,
            ConfigError::ResolutionHeight => ConfigProblem::ResolutionHeight,
            ConfigError::ResolutionZero => ConfigProblem::ResolutionZero,
            ConfigError::ResolutionTooLarge => ConfigProblem::ResolutionTooLarge,
            ConfigError::ResolutionTooSmall => ConfigProblem::ResolutionTooSmall,
            ConfigError::QualityOutOfRange => ConfigProblem::QualityOutOfRange,
            ConfigError::FpsZero => ConfigProblem::FpsZero,
            ConfigError::MaxFramesInFlightZero => ConfigProblem::MaxFramesInFlightZero,
        }
    }
}

/// Whether a result is the one that is wanted, an error by its content.
pub open spec fn ends_as<T>(r: Result<T, ConfigError>, wanted: Result<T, ConfigProblem>) -> bool {
    match (r, wanted) {
        (Ok(a), Ok(b)) => a == b,
        (Err(a), Err(b)) => a@ == b,
        _ => false,
    }
}

/// The value of a decimal digit.
pub open spec fn digit_value(c: char) -> Option<int> {
    if '0' <= c <= '9' {
        Some(c as int - '0' as int)
    } else {
        None
    }
}

/// Whether text consists of decimal digits.
pub open spec fn all_digits(s: Seq<char>) -> bool {
    forall|i: int| 0 <= i < s.len() ==> digit_value(#[trigger] s[i]) is Some
}

/// The number that a run of decimal digits stands for.
pub open spec fn digits_value(s: Seq<char>) -> int
    decreases s.len(),
{
    if s.len() == 0 {
        0
    } else {
        digits_value(s.drop_last()) * 10 + digit_value(s.last())->0
    }
}

/// Text without the plus sign that a number may start with.
pub open spec fn unsigned(s: Seq<char>) -> Seq<char> {
    if s.len() > 0 && s[0] == '+' {
        s.skip(1)
    } else {
        s
    }
}

/// The number of 32 bits that text stands for.
#[verifier::opaque]
pub open spec fn number_of(s: Seq<char>) -> Option<u32> {
    let d = unsigned(s);
    if d.len() > 0 && all_digits(d) && digits_value(d) <= u32::MAX {
        Some(digits_value(d) as u32)
    } else {
        None
    }
}

/// Where the letter x stands in text.
pub open spec fn crosses(s: Seq<char>) -> Seq<int>
    decreases s.len(),
{
    if s.len() == 0 {
        seq![]
    } else if s.last() == 'x' {
        crosses(s.drop_last()).push(s.len() - 1)
    } else {
        crosses(s.drop_last())
    }
}

/// A resolution within what the wire can carry, made even.
pub open spec fn even_resolution(w: u32, h: u32) -> Result<(u32, u32), ConfigProblem> {
    if w == 0 || h == 0 {
        Err(ConfigProblem::ResolutionZero)
    } else if w > u16::MAX || h > u16::MAX {
        Err(ConfigProblem::ResolutionTooLarge)
    } else if w < 2 || h < 2 {
        Err(ConfigProblem::ResolutionTooSmall)
    } else {
        Ok(((w - w % 2) as u32, (h - h % 2) as u32))
    }
}

/// The resolution that text such as `1920x1080` stands for.
pub open spec fn resolution_of(s: Seq<char>) -> Result<(u32, u32), ConfigProblem> {
    if crosses(s).len() != 1 {
        Err(ConfigProblem::ResolutionFormat)
    } else {
        let at = crosses(s)[0];
        match (number_of(s.take(at)), number_of(s.skip(at + 1))) {
            (None, _) => Err(ConfigProblem::ResolutionWidth),
            (Some(_), None) => Err(ConfigProblem::ResolutionHeight),
            (Some(w), Some(h)) => even_resolution(w, h),
        }
    }
}

/// The rate control that a name stands for.
pub open spec fn rate_control_of(s: Seq<char>) -> Result<H264RateControl, ConfigProblem> {
    if s == "vbr"@ {
        Ok(H264RateControl::Vbr)
    } else if s == "cqp"@ {
        Ok(H264RateControl::Cqp)
    } else {
        Err(ConfigProblem::UnknownRateControl(s))
    }
}

/// The capture mode that a name stands for.
pub open spec fn capture_mode_of(s: Seq<char>) -> Result<CaptureMode, ConfigProblem> {
    if s == "ext"@ {
        Ok(CaptureMode::Ext)
    } else if s == "wlr"@ {
        Ok(CaptureMode::Wlr)
    } else {
        Err(ConfigProblem::UnknownCaptureMode(s))
    }
}

/// The codec policy that a name stands for.
pub open spec fn egfx_codec_of(s: Seq<char>) -> Result<EgfxCodecPolicy, ConfigProblem> {
    if s == "auto"@ {
        Ok(EgfxCodecPolicy::Auto)
    } else if s == "avc420"@ {
        Ok(EgfxCodecPolicy::Avc420)
    } else if s == "avc444"@ {
        Ok(EgfxCodecPolicy::Avc444)
    } else {
        Err(ConfigProblem::UnknownEgfxCodec(s))
    }
}

/// The keyboard layout policy that a name stands for.
pub open spec fn keyboard_layout_policy_of(s: Seq<char>) -> Result<
    KeyboardLayoutPolicy,
    ConfigProblem,
> {
    if s == "client"@ {
        Ok(KeyboardLayoutPolicy::Client)
    } else if s == "compositor"@ {
        Ok(KeyboardLayoutPolicy::Compositor)
    } else {
        Err(ConfigProblem::UnknownKeyboardLayoutPolicy(s))
    }
}

/// The audio mode that a name stands for.
pub open spec fn audio_mode_of(s: Seq<char>) -> Result<AudioMode, ConfigProblem> {
    if s == "mirror"@ {
        Ok(AudioMode::Mirror)
    } else if s == "redirect"@ {
        Ok(AudioMode::Redirect)
    } else if s == "off"@ {
        Ok(AudioMode::Off)
    } else {
        Err(ConfigProblem::UnknownAudioMode(s))
    }
}

/// Reads the name of a rate control.
pub fn parse_rate_control(s: &str) -> (r: Result<H264RateControl, ConfigError>)
    ensures
        ends_as(r, rate_control_of(s@)),
{
    if same_text(s, "vbr") {
        Ok(H264RateControl::Vbr)
    } else if same_text(s, "cqp") {
        Ok(H264RateControl::Cqp)
    } else {
        Err(ConfigError::UnknownRateControl(s.to_owned()))
    }
}

/// Reads the name of a capture mode.
pub fn parse_capture_mode(s: &str) -> (r: Result<CaptureMode, ConfigError>)
    ensures
        ends_as(r, capture_mode_of(s@)),
{
    if same_text(s, "ext") {
        Ok(CaptureMode::Ext)
    } else if same_text(s, "wlr") {
        Ok(CaptureMode::Wlr)
    } else {
        Err(ConfigError::UnknownCaptureMode(s.to_owned()))
    }
}

/// Reads the name of a codec policy.
pub fn parse_egfx_codec_policy(s: &str) -> (r: Result<EgfxCodecPolicy, ConfigError>)
    ensures
        ends_as(r, egfx_codec_of(s@)),
{
    if same_text(s, "auto") {
        Ok(EgfxCodecPolicy::Auto)
    } else if same_text(s, "avc420") {
        Ok(EgfxCodecPolicy::Avc420)
    } else if same_text(s, "avc444") {
        Ok(EgfxCodecPolicy::Avc444)
    } else {
        Err(ConfigError::UnknownEgfxCodec(s.to_owned()))
    }
}

/// Reads the name of a keyboard layout policy.
pub fn parse_keyboard_layout_policy(s: &str) -> (r: Result<KeyboardLayoutPolicy, ConfigError>)
    ensures
        ends_as(r, keyboard_layout_policy_of(s@)),
{
    if same_text(s, "client") {
        Ok(KeyboardLayoutPolicy::Client)
    } else if same_text(s, "compositor") {
        Ok(KeyboardLayoutPolicy::Compositor)
    } else {
        Err(ConfigError::UnknownKeyboardLayoutPolicy(s.to_owned()))
    }
}

/// Reads the name of an audio mode.
pub fn parse_audio_mode(s: &str) -> (r: Result<AudioMode, ConfigError>)
    ensures
        ends_as(r, audio_mode_of(s@)),
{
    if same_text(s, "mirror") {
        Ok(AudioMode::Mirror)
    } else if same_text(s, "redirect") {
        Ok(AudioMode::Redirect)
    } else if same_text(s, "off") {
        Ok(AudioMode::Off)
    } else {
        Err(ConfigError::UnknownAudioMode(s.to_owned()))
    }
}

proof fn lemma_digits_step(s: Seq<char>, i: int)
    requires
        0 <= i < s.len(),
    ensures
        digits_value(s.take(i + 1)) == digits_value(s.take(i)) * 10 + digit_value(s[i])->0,
{
    assert(s.take(i + 1).drop_last() =~= s.take(i));
}

/// Reads a number of 32 bits from the characters `[from, to)`.
fn parse_number(s: &str, from: usize, to: usize) -> (r: Option<u32>)
    requires
        from <= to <= s@.len(),
    ensures
        r == number_of(s@.subrange(from as int, to as int)),
{
    reveal(number_of);
    let ghost part = s@.subrange(from as int, to as int);
    let start: usize = if from < to && s.get_char(from) == '+' {
        from + 1
    } else {
        from
    };
    let ghost d = unsigned(part);
    assert(d =~= s@.subrange(start as int, to as int));
    if start == to {
        return None;
    }
    let mut value: u64 = 0;
    let mut i: usize = start;
    assert(d.take(0) =~= Seq::<char>::empty());
    while i < to
        invariant
            from <= start <= i <= to <= s@.len(),
            start < to,
            d == s@.subrange(start as int, to as int),
            d == unsigned(part),
            part == s@.subrange(from as int, to as int),
            forall|j: int| 0 <= j < i - start ==> digit_value(#[trigger] d[j]) is Some,
            if digits_value(d.take(i - start)) <= u32::MAX {
                value == digits_value(d.take(i - start))
            } else {
                value == u32::MAX + 1
            },
            0 <= digits_value(d.take(i - start)),
        decreases to - i,
    {
        let c: char = s.get_char(i);
        assert(c == d[i - start]);
        if !('0' <= c && c <= '9') {
            proof {
                reveal(number_of);
                assert(digit_value(d[i - start]) is None);
                assert(!all_digits(d));
            }
            return None;
        }
        let digit: u64 = c as u64 - '0' as u64;
        proof {
            lemma_digits_step(d, i - start);
        }
        let next: u64 = value * 10 + digit;
        value = if next > u32::MAX as u64 {
            u32::MAX as u64 + 1
        } else {
            next
        };
        i = i + 1;
    }
    assert(d.take(to - start) =~= d);
    if value > u32::MAX as u64 {
        None
    } else {
        Some(value as u32)
    }
}

/// How often the letter x stands in text, and where it does first.
fn find_cross(s: &str, n: usize) -> (r: (usize, usize))
    requires
        n == s@.len(),
    ensures
        r.0 == crosses(s@).len(),
        r.0 > 0 ==> r.1 == crosses(s@)[0] && r.1 < n,
{
    let mut count: usize = 0;
    let mut at: usize = 0;
    let mut i: usize = 0;
    assert(s@.take(0) =~= Seq::<char>::empty());
    while i < n
        invariant
            n == s@.len(),
            i <= n,
            count <= i,
            count == crosses(s@.take(i as int)).len(),
            count > 0 ==> at == crosses(s@.take(i as int))[0] && at < i,
        decreases n - i,
    {
        proof {
            assert(s@.take(i + 1).drop_last() =~= s@.take(i as int));
        }
        if s.get_char(i) == 'x' {
            if count == 0 {
                at = i;
            }
            count = count + 1;
        }
        i = i + 1;
    }
    assert(s@.take(n as int) =~= s@);
    (count, at)
}

/// Reads a resolution such as `1920x1080`.
pub fn parse_resolution(s: &str) -> (r: Result<(u32, u32), ConfigError>)
    ensures
        ends_as(r, resolution_of(s@)),
{
    let n: usize = s.unicode_len();
    let (count, at) = find_cross(s, n);
    if count != 1 {
        return Err(ConfigError::ResolutionFormat);
    }
    assert(s@.subrange(0, at as int) =~= s@.take(at as int));
    assert(s@.subrange(at + 1, n as int) =~= s@.skip(at + 1));
    let w: u32 = match parse_number(s, 0, at) {
        Some(w) => w,
        None => return Err(ConfigError::ResolutionWidth),
    };
    let h: u32 = match parse_number(s, at + 1, n) {
        Some(h) => h,
        None => return Err(ConfigError::ResolutionHeight),
    };
    if w == 0 || h == 0 {
        return Err(ConfigError::ResolutionZero);
    }
    if w > u16::MAX as u32 || h > u16::MAX as u32 {
        return Err(ConfigError::ResolutionTooLarge);
    }
    // H.264 requires even dimensions (4:2:0 chroma subsampling)
    let w: u32 = w - w % 2;
    let h: u32 = h - h % 2;
    if w == 0 || h == 0 {
        return Err(ConfigError::ResolutionTooSmall);
    }
    Ok((w, h))
}

/// The first of two settings that is made.
pub open spec fn first_set<T>(a: Option<T>, b: Option<T>) -> Option<T> {
    if a is Some {
        a
    } else {
        b
    }
}

/// The text of the first of two settings that is made, or the default.
pub open spec fn text_or(a: Option<String>, b: Option<String>, default: Seq<char>) -> Seq<char> {
    match first_set(a, b) {
        Some(s) => s@,
        None => default,
    }
}

/// The first of two settings that is made, or the default.
pub open spec fn value_or<T>(a: Option<T>, b: Option<T>, default: T) -> T {
    match first_set(a, b) {
        Some(v) => v,
        None => default,
    }
}

fn choose_first<T>(a: Option<T>, b: Option<T>) -> (r: Option<T>)
    ensures
        r == first_set(a, b),
{
    match a {
        Some(v) => Some(v),
        None => b,
    }
}

fn choose_text(a: Option<String>, b: Option<String>, default: &str) -> (r: String)
    ensures
        r@ == text_or(a, b, default@),
{
    match choose_first(a, b) {
        Some(s) => s,
        None => default.to_owned(),
    }
}

/// The codec policy where none is set.
pub fn default_egfx_codec_policy_name() -> (r: String)
    ensures
        r@ == "avc420"@,
{
    "avc420".to_owned()
}

/// The keyboard layout policy where none is set.
pub fn default_keyboard_layout_policy_name() -> (r: String)
    ensures
        r@ == "client"@,
{
    "client".to_owned()
}

/// The audio mode where none is set.
pub fn default_audio_mode_name() -> (r: String)
    ensures
        r@ == "redirect"@,
{
    "redirect".to_owned()
}

/// The codec policy of the command line, else of the file, else the default.
pub fn resolve_egfx_codec_policy(cli_value: Option<String>, config_value: Option<String>) -> (r:
    Result<EgfxCodecPolicy, ConfigError>)
    ensures
        ends_as(r, egfx_codec_of(text_or(cli_value, config_value, "avc420"@))),
{
    let default = default_egfx_codec_policy_name();
    let value = choose_text(cli_value, config_value, default.as_str());
    parse_egfx_codec_policy(value.as_str())
}

/// The keyboard layout policy of the command line, else of the file, else the
/// default.
pub fn resolve_keyboard_layout_policy(cli_value: Option<String>, config_value: Option<String>) -> (r:
    Result<KeyboardLayoutPolicy, ConfigError>)
    ensures
        ends_as(r, keyboard_layout_policy_of(text_or(cli_value, config_value, "client"@))),
{
    let default = default_keyboard_layout_policy_name();
    let value = choose_text(cli_value, config_value, default.as_str());
    parse_keyboard_layout_policy(value.as_str())
}

/// The audio mode of the command line, else of the file, else the default.
pub fn resolve_audio_mode(cli_value: Option<String>, config_value: Option<String>) -> (r: Result<
    AudioMode,
    ConfigError,
>)
    ensures
        ends_as(r, audio_mode_of(text_or(cli_value, config_value, "redirect"@))),
{
    let default = default_audio_mode_name();
    let value = choose_text(cli_value, config_value, default.as_str());
    parse_audio_mode(value.as_str())
}

/// Each setting as text or number, with the defaults filled in.
pub struct Chosen {
    pub rate_control: Seq<char>,
    pub egfx_codec: Seq<char>,
    pub keyboard_layout_policy: Seq<char>,
    pub audio_mode: Seq<char>,
    pub resolution: Seq<char>,
    pub capture_mode: Seq<char>,
    pub quality: u8,
    pub fps: u32,
    pub max_frames_in_flight: u32,
}

/// What the settings that are looked at come to.
pub open spec fn chosen(args: ConfigValues, file: ConfigValues, default_max_frames: u32) -> Chosen {
    Chosen {
        rate_control: text_or(args.rate_control, file.rate_control, "vbr"@),
        egfx_codec: text_or(args.egfx_codec, file.egfx_codec, "avc420"@),
        keyboard_layout_policy: text_or(
            args.keyboard_layout_policy,
            file.keyboard_layout_policy,
            "client"@,
        ),
        audio_mode: text_or(args.audio_mode, file.audio_mode, "redirect"@),
        resolution: text_or(args.resolution, file.resolution, "1920x1080"@),
        capture_mode: text_or(args.capture_mode, file.capture_mode, "wlr"@),
        quality: value_or(args.quality, file.quality, 23),
        fps: value_or(args.fps, file.fps, 30),
        max_frames_in_flight: value_or(
            args.max_frames_in_flight,
            file.max_frames_in_flight,
            default_max_frames,
        ),
    }
}

/// The first thing that is wrong with the settings.
pub open spec fn problem(c: Chosen) -> Option<ConfigProblem> {
    if let Err(p) = rate_control_of(c.rate_control) {
        Some(p)
    } else if let Err(p) = egfx_codec_of(c.egfx_codec) {
        Some(p)
    } else if let Err(p) = keyboard_layout_policy_of(c.keyboard_layout_policy) {
        Some(p)
    } else if let Err(p) = audio_mode_of(c.audio_mode) {
        Some(p)
    } else if let Err(p) = resolution_of(c.resolution) {
        Some(p)
    } else if let Err(p) = capture_mode_of(c.capture_mode) {
        Some(p)
    } else if c.quality > 51 {
        Some(ConfigProblem::QualityOutOfRange)
    } else if c.fps == 0 {
        Some(ConfigProblem::FpsZero)
    } else if c.max_frames_in_flight == 0 {
        Some(ConfigProblem::MaxFramesInFlightZero)
    } else {
        None
    }
}

impl RuntimeConfig {
    /// What the server runs with under settings that nothing is wrong with.
    pub open spec fn is_loaded(
        &self,
        args: ConfigValues,
        file: ConfigValues,
        default_max_frames: u32,
    ) -> bool {
        let c = chosen(args, file, default_max_frames);
        &&& self.bind@ == text_or(args.bind, file.bind, "127.0.0.1:3389"@)
        &&& self.cert == first_set(args.cert, file.cert)
        &&& self.key == first_set(args.key, file.key)
        &&& self.username@ == text_or(args.username, file.username, seq![])
        &&& self.password@ == text_or(args.password, file.password, seq![])
        &&& resolution_of(c.resolution) == Ok::<(u32, u32), ConfigProblem>(self.resolution)
        &&& capture_mode_of(c.capture_mode) == Ok::<CaptureMode, ConfigProblem>(self.capture_mode)
        &&& self.bitrate == value_or(args.bitrate, file.bitrate, 10_000_000)
        &&& self.quality == c.quality
        &&& rate_control_of(c.rate_control) == Ok::<H264RateControl, ConfigProblem>(
            self.rate_control,
        )
        &&& self.fps == c.fps
        &&& self.max_frames_in_flight == c.max_frames_in_flight
        &&& egfx_codec_of(c.egfx_codec) == Ok::<EgfxCodecPolicy, ConfigProblem>(self.egfx_codec)
        &&& keyboard_layout_policy_of(c.keyboard_layout_policy) == Ok::<
            KeyboardLayoutPolicy,
            ConfigProblem,
        >(self.keyboard_layout_policy)
        &&& audio_mode_of(c.audio_mode) == Ok::<AudioMode, ConfigProblem>(self.audio_mode)
        &&& self.resolution_fixed == (args.resolution is Some || file.resolution is Some)
        &&& self.output == first_set(args.output, file.output)
        &&& self.on_client_connect == first_set(args.on_client_connect, file.on_client_connect)
        &&& self.on_client_disconnect == first_set(
            args.on_client_disconnect,
            file.on_client_disconnect,
        )
    }

    /// Puts the command line, the configuration file and the defaults together.
    /// `default_max_frames` is the default bound on unacknowledged frames.
    pub fn load(args: ConfigValues, file: ConfigValues, default_max_frames: u32) -> (r: Result<
        RuntimeConfig,
        ConfigError,
    >)
        ensures
            match problem(chosen(args, file, default_max_frames)) {
                Some(p) => r is Err && r->Err_0@ == p,
                None => r is Ok && r->Ok_0.is_loaded(args, file, default_max_frames),
            },
    {
        let bind = choose_text(args.bind, file.bind, "127.0.0.1:3389");
        let cert = choose_first(args.cert, file.cert);
        let key = choose_first(args.key, file.key);
        let username = match choose_first(args.username, file.username) {
            Some(s) => s,
            None => String::new(),
        };
        let password = match choose_first(args.password, file.password) {
            Some(s) => s,
            None => String::new(),
        };
        let resolution_fixed = args.resolution.is_some() || file.resolution.is_some();
        let resolution_str = choose_text(args.resolution, file.resolution, "1920x1080");
        let capture_mode_str = choose_text(args.capture_mode, file.capture_mode, "wlr");
        let bitrate: u32 = choose_first(args.bitrate, file.bitrate).unwrap_or(10_000_000);
        let quality: u8 = choose_first(args.quality, file.quality).unwrap_or(23);
        let rate_control_str = choose_text(args.rate_control, file.rate_control, "vbr");
        let rate_control = match parse_rate_control(rate_control_str.as_str()) {
            Ok(v) => v,
            Err(e) => return Err(e),
        };
        let fps: u32 = choose_first(args.fps, file.fps).unwrap_or(30);
        let max_frames_in_flight: u32 = choose_first(
            args.max_frames_in_flight,
            file.max_frames_in_flight,
        ).unwrap_or(default_max_frames);
        let egfx_codec = match resolve_egfx_codec_policy(args.egfx_codec, file.egfx_codec) {
            Ok(v) => v,
            Err(e) => return Err(e),
        };
        let keyboard_layout_policy = match resolve_keyboard_layout_policy(
            args.keyboard_layout_policy,
            file.keyboard_layout_policy,
        ) {
            Ok(v) => v,
            Err(e) => return Err(e),
        };
        let audio_mode = match resolve_audio_mode(args.audio_mode, file.audio_mode) {
            Ok(v) => v,
            Err(e) => return Err(e),
        };
        let output = choose_first(args.output, file.output);
        let on_client_connect = choose_first(args.on_client_connect, file.on_client_connect);
        let on_client_disconnect = choose_first(
            args.on_client_disconnect,
            file.on_client_disconnect,
        );
        let resolution = match parse_resolution(resolution_str.as_str()) {
            Ok(v) => v,
            Err(e) => return Err(e),
        };
        let capture_mode = match parse_capture_mode(capture_mode_str.as_str()) {
            Ok(v) => v,
            Err(e) => return Err(e),
        };
        if quality > 51 {
            return Err(ConfigError::QualityOutOfRange);
        }
        if fps == 0 {
            return Err(ConfigError::FpsZero);
        }
        if max_frames_in_flight == 0 {
            return Err(ConfigError::MaxFramesInFlightZero);
        }
        Ok(
            RuntimeConfig {
                bind,
                cert,
                key,
                username,
                password,
                resolution,
                capture_mode,
                bitrate,
                quality,
                rate_control,
                fps,
                max_frames_in_flight,
                egfx_codec,
                keyboard_layout_policy,
                audio_mode,
                resolution_fixed,
                output,
                on_client_connect,
                on_client_disconnect,
            },
        )
    }
}

/// What is worth a warning about who may connect.
#[derive(Clone, Copy, Debug, PartialEq, Eq, Structural)]
pub enum AccessWarning {
    NoCredentials,
    NoCredentialsOnAllInterfaces,
}

impl RuntimeConfig {
    /// What is worth a warning about the credentials.
    pub open spec fn warning(&self) -> Option<AccessWarning> {
        if self.username@.len() > 0 && self.password@.len() > 0 {
            None
        } else if "0.0.0.0"@.is_prefix_of(self.bind@) {
            Some(AccessWarning::NoCredentialsOnAllInterfaces)
        } else {
            Some(AccessWarning::NoCredentials)
        }
    }

    /// A configuration that does not set both a user name and a password is worth
    /// a warning, the more so where the server listens on all interfaces. Clients
    /// go unasked only where neither is set: one alone still makes credentials.
    pub fn access_warning(&self) -> (r: Option<AccessWarning>)
        ensures
            r == self.warning(),
    {
        let no_name: bool = self.username.as_str().is_empty();
        let no_password: bool = self.password.as_str().is_empty();
        if no_name || no_password {
            if starts_with(self.bind.as_str(), "0.0.0.0") {
                Some(AccessWarning::NoCredentialsOnAllInterfaces)
            } else {
                Some(AccessWarning::NoCredentials)
            }
        } else {
            None
        }
    }
}

/// `before`, the unknown text in quotes, and `after`.
pub open spec fn quoted(before: Seq<char>, text: Seq<char>, after: Seq<char>) -> Seq<char> {
    before + " '"@ + text + "', expected "@ + after
}

fn quote(before: &str, text: &str, after: &str) -> (r: String)
    ensures
        r@ == quoted(before@, text@, after@),
{
    let mut out = before.to_owned();
    out.append(" '");
    out.append(text);
    out.append("', expected ");
    out.append(after);
    out
}

impl ConfigProblem {
    /// The problem in words.
    pub open spec fn words(self) -> Seq<char> {
        match self {
            ConfigProblem::UnknownRateControl(s) => quoted(
                "unknown rate control"@,
                s,
                "'vbr' or 'cqp'"@,
            ),
            ConfigProblem::UnknownCaptureMode(s) => quoted(
                "unknown capture mode"@,
                s,
                "'ext' or 'wlr'"@,
            ),
            ConfigProblem::UnknownEgfxCodec(s) => quoted(
                "unknown EGFX codec"@,
                s,
                "'auto', 'avc420', or 'avc444'"@,
            ),
            ConfigProblem::UnknownKeyboardLayoutPolicy(s) => quoted(
                "unknown keyboard layout policy"@,
                s,
                "'client' or 'compositor'"@,
            ),
            ConfigProblem::UnknownAudioMode(s) => quoted(
                "unknown audio mode"@,
                s,
                "'mirror', 'redirect', or 'off'"@,
            ),
            ConfigProblem::ResolutionFormat => {
                "invalid resolution format, expected WxH (e.g. 1920x1080)"@
            },
            ConfigProblem::ResolutionWidth => "invalid width"@,
            ConfigProblem::ResolutionHeight => "invalid height"@,
            ConfigProblem::ResolutionZero => "resolution dimensions must be non-zero"@,
            ConfigProblem::ResolutionTooLarge => "resolution dimensions must be <= 65535"@,
            ConfigProblem::ResolutionTooSmall => {
                "resolution too small (minimum 2x2 for H.264)"@
            },
            ConfigProblem::QualityOutOfRange => "quality must be 0-51"@,
            ConfigProblem::FpsZero => "fps must be > 0"@,
            ConfigProblem::MaxFramesInFlightZero => "max-frames-in-flight must be > 0"@,
        }
    }
}

impl ConfigError {
    /// The error in words.
    pub fn message(&self) -> (r: String)
        ensures
            r@ == self@.words(),
    {
        match self {
            ConfigError::UnknownRateControl(s) => quote(
                "unknown rate control",
                s.as_str(),
                "'vbr' or 'cqp'",
            ),
            ConfigError::UnknownCaptureMode(s) => quote(
                "unknown capture mode",
                s.as_str(),
                "'ext' or 'wlr'",
            ),
            ConfigError::UnknownEgfxCodec(s) => quote(
                "unknown EGFX codec",
                s.as_str(),
                "'auto', 'avc420', or 'avc444'",
            ),
            ConfigError::UnknownKeyboardLayoutPolicy(s) => quote(
                "unknown keyboard layout policy",
                s.as_str(),
                "'client' or 'compositor'",
            ),
            ConfigError::UnknownAudioMode(s) => quote(
                "unknown audio mode",
                s.as_str(),
                "'mirror', 'redirect', or 'off'",
            ),
            ConfigError::ResolutionFormat => {
                "invalid resolution format, expected WxH (e.g. 1920x1080)".to_owned()
            },
            ConfigError::ResolutionWidth => "invalid width".to_owned(),
            ConfigError::ResolutionHeight => "invalid height".to_owned(),
            ConfigError::ResolutionZero => "resolution dimensions must be non-zero".to_owned(),
            ConfigError::ResolutionTooLarge => "resolution dimensions must be <= 65535".to_owned(),
            ConfigError::ResolutionTooSmall => {
                "resolution too small (minimum 2x2 for H.264)".to_owned()
            },
            ConfigError::QualityOutOfRange => "quality must be 0-51".to_owned(),
            ConfigError::FpsZero => "fps must be > 0".to_owned(),
            ConfigError::MaxFramesInFlightZero => "max-frames-in-flight must be > 0".to_owned(),
        }
    }
}

proof fn lemma_digit_char(d: int)
    requires
        0 <= d < 10,
    ensures
        digit_value(digit_char(d)) == Some(d),
        digit_char(d) != 'x',
        digit_char(d) != '+',
{
}

proof fn lemma_decimal(n: nat)
    ensures
        decimal(n).len() > 0,
        all_digits(decimal(n)),
        digits_value(decimal(n)) == n,
        forall|i: int| 0 <= i < decimal(n).len() ==> #[trigger] decimal(n)[i] != 'x' && decimal(
            n,
        )[i] != '+',
    decreases n,
{
    if n < 10 {
        lemma_digit_char(n as int);
        assert(decimal(n).drop_last() =~= Seq::<char>::empty());
        assert(digits_value(decimal(n).drop_last()) == 0);
    } else {
        lemma_decimal(n / 10);
        lemma_digit_char((n % 10) as int);
        assert(decimal(n).drop_last() =~= decimal(n / 10));
    }
}

proof fn lemma_number_of_decimal(n: u32)
    ensures
        number_of(decimal(n as nat)) == Some(n),
{
    reveal(number_of);
    lemma_decimal(n as nat);
    assert(decimal(n as nat)[0] != '+');
}

pub(crate) proof fn lemma_no_crosses(s: Seq<char>)
    requires
        forall|i: int| 0 <= i < s.len() ==> #[trigger] s[i] != 'x',
    ensures
        crosses(s).len() == 0,
    decreases s.len(),
{
    if s.len() > 0 {
        lemma_no_crosses(s.drop_last());
    }
}

pub(crate) proof fn lemma_one_cross(a: Seq<char>, b: Seq<char>)
    requires
        forall|i: int| 0 <= i < a.len() ==> #[trigger] a[i] != 'x',
        forall|i: int| 0 <= i < b.len() ==> #[trigger] b[i] != 'x',
    ensures
        crosses(a + seq!['x'] + b) == seq![a.len() as int],
    decreases b.len(),
{
    let s = a + seq!['x'] + b;
    if b.len() == 0 {
        lemma_no_crosses(a);
        assert(s.drop_last() =~= a);
        assert(s.last() == 'x');
        assert(crosses(s) =~= seq![a.len() as int]);
    } else {
        lemma_one_cross(a, b.drop_last());
        assert(s.drop_last() =~= a + seq!['x'] + b.drop_last());
        assert(s.last() == b.last());
    }
}

/// The text of a resolution: width and height in decimal with an x between.
pub open spec fn resolution_text(w: u32, h: u32) -> Seq<char> {
    decimal(w as nat) + seq!['x'] + decimal(h as nat)
}

/// Reading the text of a resolution gives its even dimensions, or the error that
/// is due: dimensions beyond the wire's limit, and those that leave no even size,
/// are rejected.
pub proof fn a_written_resolution_is_read_back(w: u32, h: u32)
    ensures
        resolution_of(resolution_text(w, h)) == even_resolution(w, h),
{
    let a = decimal(w as nat);
    let b = decimal(h as nat);
    let s = resolution_text(w, h);
    lemma_decimal(w as nat);
    lemma_decimal(h as nat);
    lemma_one_cross(a, b);
    assert(s.take(a.len() as int) =~= a);
    assert(s.skip(a.len() as int + 1) =~= b);
    lemma_number_of_decimal(w);
    lemma_number_of_decimal(h);
}

/// Every resolution that is accepted is even, not empty, and fits the wire.
pub proof fn accepted_resolutions_are_even(s: Seq<char>)
    ensures
        match resolution_of(s) {
            Ok((w, h)) => {
                &&& w % 2 == 0 && h % 2 == 0
                &&& 2 <= w <= u16::MAX && 2 <= h <= u16::MAX
            },
            Err(_) => true,
        },
{
}

/// What the command line sets is used, whatever the file sets; what only the file
/// sets is used before the default.
pub proof fn the_command_line_comes_first(
    cli: String,
    file: Option<String>,
    file_text: String,
    default: Seq<char>,
)
    ensures
        text_or(Some(cli), file, default) == cli@,
        text_or(None, Some(file_text), default) == file_text@,
        text_or(None, None, default) == default,
{
}

/// Settings that are not made lead to a working configuration.
pub proof fn the_defaults_are_accepted(
    args: ConfigValues,
    file: ConfigValues,
    default_max_frames: u32,
)
    requires
        default_max_frames > 0,
        args.rate_control is None && file.rate_control is None,
        args.egfx_codec is None && file.egfx_codec is None,
        args.keyboard_layout_policy is None && file.keyboard_layout_policy is None,
        args.audio_mode is None && file.audio_mode is None,
        args.resolution is None && file.resolution is None,
        args.capture_mode is None && file.capture_mode is None,
        args.quality is None && file.quality is None,
        args.fps is None && file.fps is None,
        args.max_frames_in_flight is None && file.max_frames_in_flight is None,
    ensures
        problem(chosen(args, file, default_max_frames)) is None,
{
    reveal_strlit("1920x1080");
    reveal_strlit("vbr");
    reveal_strlit("cqp");
    reveal_strlit("avc420");
    reveal_strlit("auto");
    reveal_strlit("client");
    reveal_strlit("redirect");
    reveal_strlit("mirror");
    reveal_strlit("wlr");
    reveal_strlit("ext");
    reveal_with_fuel(decimal, 5);
    assert("1920x1080"@ =~= resolution_text(1920, 1080));
    a_written_resolution_is_read_back(1920, 1080);
}

/// A configuration that is loaded can be run: the quality is a quantiser, frames
/// have a rate, some frame may be in flight, and the resolution can be encoded.
pub proof fn loaded_configurations_can_be_run(
    config: RuntimeConfig,
    args: ConfigValues,
    file: ConfigValues,
    default_max_frames: u32,
)
    requires
        problem(chosen(args, file, default_max_frames)) is None,
        config.is_loaded(args, file, default_max_frames),
    ensures
        config.quality <= 51,
        config.fps > 0,
        config.max_frames_in_flight > 0,
        config.resolution.0 % 2 == 0 && config.resolution.1 % 2 == 0,
        2 <= config.resolution.0 <= u16::MAX && 2 <= config.resolution.1 <= u16::MAX,
{
    accepted_resolutions_are_even(chosen(args, file, default_max_frames).resolution);
}

/// Where the configuration file is looked for.
#[derive(Debug, PartialEq, Eq)]
pub enum ConfigLocation {
    /// The file that the command line names.
    Explicit(String),
    /// `.config/hypr-rdp/config.toml` in this home directory.
    UnderHome(String),
    /// Nowhere: the defaults are used.
    Nowhere,
}

/// What came of reading the configuration file. `cause` is what the file system,
/// or the reader of its format, said.
#[derive(Debug)]
pub enum ConfigRead {
    Unreadable { not_found: bool, cause: String },
    Malformed { cause: String },
    Values(ConfigValues),
}

/// A configuration that sets nothing.
pub open spec fn nothing_set() -> ConfigValues {
    ConfigValues {
        bind: None,
        cert: None,
        key: None,
        username: None,
        password: None,
        resolution: None,
        capture_mode: None,
        bitrate: None,
        quality: None,
        rate_control: None,
        fps: None,
        max_frames_in_flight: None,
        egfx_codec: None,
        keyboard_layout_policy: None,
        audio_mode: None,
        output: None,
        on_client_connect: None,
        on_client_disconnect: None,
    }
}

impl Default for ConfigValues {
    fn default() -> (r: Self)
        ensures
            r == nothing_set(),
    {
        ConfigValues {
            bind: None,
            cert: None,
            key: None,
            username: None,
            password: None,
            resolution: None,
            capture_mode: None,
            bitrate: None,
            quality: None,
            rate_control: None,
            fps: None,
            max_frames_in_flight: None,
            egfx_codec: None,
            keyboard_layout_policy: None,
            audio_mode: None,
            output: None,
            on_client_connect: None,
            on_client_disconnect: None,
        }
    }
}

/// A failure in words: what failed, the file, and the cause.
pub open spec fn about_file(what: Seq<char>, path: Seq<char>, cause: Seq<char>) -> Seq<char> {
    what + path + ": "@ + cause
}

fn tell_about_file(what: &str, path: &str, cause: &str) -> (r: String)
    ensures
        r@ == about_file(what@, path@, cause@),
{
    let mut out = what.to_owned();
    out.append(path);
    out.append(": ");
    out.append(cause);
    out
}

/// The file that the command line names, else the one in the home directory.
pub fn config_location(path: Option<String>, home: Option<String>) -> (r: ConfigLocation)
    ensures
        r == match (path, home) {
            (Some(p), _) => ConfigLocation::Explicit(p),
            (None, Some(h)) => ConfigLocation::UnderHome(h),
            (None, None) => ConfigLocation::Nowhere,
        },
{
    match path {
        Some(p) => ConfigLocation::Explicit(p),
        None => match home {
            Some(h) => ConfigLocation::UnderHome(h),
            None => ConfigLocation::Nowhere,
        },
    }
}

/// What comes of the configuration file.
pub open spec fn is_file_result(
    location: ConfigLocation,
    path: Seq<char>,
    read: ConfigRead,
    r: Result<ConfigValues, String>,
) -> bool {
    match read {
        ConfigRead::Values(values) => r == Ok::<ConfigValues, String>(values),
        ConfigRead::Unreadable { not_found, cause } => if !(location is Explicit) && not_found {
            r == Ok::<ConfigValues, String>(nothing_set())
        } else {
            r is Err && r->Err_0@ == about_file("failed to read config "@, path, cause@)
        },
        ConfigRead::Malformed { cause } => r is Err && r->Err_0@ == about_file(
            "failed to parse config "@,
            path,
            cause@,
        ),
    }
}

/// What the configuration file sets, or why it cannot be used, in words. A file that
/// was asked for must be there; the usual one may be missing, and then sets nothing.
pub fn config_file_values(location: &ConfigLocation, path: &str, read: ConfigRead) -> (r: Result<
    ConfigValues,
    String,
>)
    ensures
        is_file_result(*location, path@, read, r),
{
    let explicit: bool = match location {
        ConfigLocation::Explicit(_) => true,
        _ => false,
    };
    match read {
        ConfigRead::Values(values) => Ok(values),
        ConfigRead::Unreadable { not_found, cause } => {
            if !explicit && not_found {
                Ok(ConfigValues::default())
            } else {
                Err(tell_about_file("failed to read config ", path, cause.as_str()))
            }
        },
        ConfigRead::Malformed { cause } => Err(
            tell_about_file("failed to parse config ", path, cause.as_str()),
        ),
    }
}

} // verus!
