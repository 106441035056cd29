//! What the external extractor reported: turning its exit, its output and
//! its error stream into a result for the request.
use vstd::prelude::*;
use vstd::string::*;
use vstd::utf8::{decode_utf8, valid_utf8};
use crate::errors::{bad_request_view, internal_view, ApiError, ApiErrorView};
use crate::model::{strings_view, DownloadMode};
use crate::text::{
    ascii_lowercase, chars_contain, chars_of, contains_text, find_last, last_index_of, non_empty,
    non_empty_spec, opt_str_view, opt_view, skip_whitespace, skip_whitespace_back, string_of_range,
    to_ascii_lowercase, trim_end, trim_start, trimmed,
};

verus! {

/// The extractor is given this long to finish.
pub const YT_DLP_TIMEOUT_SECONDS: u64 = 180;

/// The text that `String::from_utf8_lossy` makes of a byte string.
pub uninterp spec fn utf8_lossy(bytes: Seq<u8>) -> Seq<char>;

/// `String::from_utf8_lossy` of the standard library: the text depends on
/// the bytes alone, and bytes that are valid UTF-8 decode to exactly the text
/// they encode. Invalid sequences become U+FFFD in a way not restated here.
#[verifier::external_body]
pub(crate) fn decode_utf8_lossy(bytes: &[u8]) -> (text: String)
    ensures
        text@ == utf8_lossy(bytes@),
        valid_utf8(bytes@) ==> text@ == decode_utf8(bytes@),
{
    String::from_utf8_lossy(bytes).into_owned()
}

/// The last line of `text` that holds more than whitespace, trimmed.
pub open spec fn last_non_blank_line(text: Seq<char>) -> Option<Seq<char>> {
    let body = trim_end(text);
    if body.len() == 0 {
        None
    } else {
        Some(trim_start(body.skip(last_index_of(body, '\n') + 1)))
    }
}

pub fn last_line_of(text: &str) -> (line: Option<String>)
    ensures
        opt_view(line) == last_non_blank_line(text@),
{
    let chars = chars_of(text);
    let n = chars.len();
    assert(chars@.subrange(0, n as int) =~= chars@);
    let end = skip_whitespace_back(&chars, 0, n);
    if end == 0 {
        return None;
    }
    let ghost body = chars@.subrange(0, end as int);
    let line_start: usize = match find_last(&chars, '\n', 0, end) {
        Some(newline) => newline + 1,
        None => 0,
    };
    assert(chars@.subrange(line_start as int, end as int) =~= body.skip(line_start as int));
    let start = skip_whitespace(&chars, line_start, end);
    Some(string_of_range(&chars, start, end))
}

/// The path the extractor printed: the last non-blank line of its output.
pub fn extract_printed_path(stdout: &[u8]) -> (path: Option<String>)
    ensures
        opt_view(path) == last_non_blank_line(utf8_lossy(stdout@)),
        valid_utf8(stdout@) ==> opt_view(path) == last_non_blank_line(decode_utf8(stdout@)),
{
    let text = decode_utf8_lossy(stdout);
    last_line_of(text.as_str())
}

pub open spec fn default_extractor_message() -> Seq<char> {
    "yt-dlp no pudo completar la operacion"@
}

pub open spec fn unsupported_url_message() -> Seq<char> {
    "URL no soportada o invalida para descarga."@
}

pub open spec fn metadata_unavailable_message() -> Seq<char> {
    "No se pudieron obtener metadatos de la URL. Intenta con formato automatico o reintenta mas tarde."@
}

/// The message shown for an error stream that decodes to `text`: its last
/// non-blank line, unless that line names an unsupported URL or a missing
/// metadata object, which get fixed messages.
pub open spec fn error_message_spec(text: Seq<char>) -> Seq<char> {
    let message = match last_non_blank_line(text) {
        Some(line) => line,
        None => default_extractor_message(),
    };
    let lower = ascii_lowercase(message);
    if contains_text(lower, "unsupported url"@) {
        unsupported_url_message()
    } else if contains_text(lower, "nonetype"@) {
        metadata_unavailable_message()
    } else {
        message
    }
}

/// The message for an error stream that has been decoded to `text`.
pub fn error_message_for(text: &str) -> (message: String)
    ensures
        message@ == error_message_spec(text@),
{
    let message = match last_line_of(text) {
        Some(line) => line,
        None => "yt-dlp no pudo completar la operacion".to_owned(),
    };
    let lower = to_ascii_lowercase(&chars_of(message.as_str()));
    if chars_contain(&lower, &chars_of("unsupported url")) {
        "URL no soportada o invalida para descarga.".to_owned()
    } else if chars_contain(&lower, &chars_of("nonetype")) {
        "No se pudieron obtener metadatos de la URL. Intenta con formato automatico o reintenta mas tarde.".to_owned()
    } else {
        message
    }
}

pub fn run_error_message(stderr: &[u8]) -> (message: String)
    ensures
        message@ == error_message_spec(utf8_lossy(stderr@)),
        valid_utf8(stderr@) ==> message@ == error_message_spec(decode_utf8(stderr@)),
{
    let text = decode_utf8_lossy(stderr);
    error_message_for(text.as_str())
}

/// How a run of the extractor ended.
#[derive(Debug)]
pub enum ExtractorOutcome {
    /// It did not finish within `YT_DLP_TIMEOUT_SECONDS`.
    TimedOut,
    /// The executable was not found.
    NotInstalled,
    /// It could not be started for another reason.
    SpawnFailed { detail: String },
    /// It ran and exited.
    Exited { success: bool, stdout: Vec<u8>, stderr: Vec<u8> },
}

pub open spec fn timeout_message() -> Seq<char> {
    "La descarga excedio el tiempo limite. Intenta con otra URL o formato."@
}

pub open spec fn not_installed_message() -> Seq<char> {
    "yt-dlp no esta instalado en el sistema. Instala yt-dlp y reinicia el backend."@
}

pub open spec fn spawn_failed_prefix() -> Seq<char> {
    "No se pudo ejecutar yt-dlp: "@
}

/// The error that a run of the extractor amounts to, or `None` for a run
/// that exited with success: a timeout and a failed run are the caller's to
/// retry, a missing or unstartable tool is an internal failure.
pub open spec fn extractor_failure(outcome: ExtractorOutcome) -> Option<ApiErrorView> {
    match outcome {
        ExtractorOutcome::TimedOut => Some(bad_request_view(timeout_message())),
        ExtractorOutcome::NotInstalled => Some(internal_view(not_installed_message())),
        ExtractorOutcome::SpawnFailed { detail } => Some(
            internal_view(spawn_failed_prefix() + detail@),
        ),
        ExtractorOutcome::Exited { success, stdout, stderr } => if success {
            None
        } else {
            Some(bad_request_view(error_message_spec(utf8_lossy(stderr@))))
        },
    }
}

/// The result of a run of the extractor: its output when it exited with
/// success, and otherwise the error that the run amounts to.
pub fn extractor_result(outcome: ExtractorOutcome) -> (r: Result<Vec<u8>, ApiError>)
    ensures
        match extractor_failure(outcome) {
            None => r is Ok && outcome is Exited && r->Ok_0 == outcome->stdout,
            Some(e) => r is Err && r->Err_0@ == e,
        },
        outcome is Exited && !outcome->success && valid_utf8(outcome->stderr@) ==> r is Err
            && r->Err_0@ == bad_request_view(error_message_spec(decode_utf8(outcome->stderr@))),
{
    match outcome {
        ExtractorOutcome::TimedOut => Err(
            ApiError::bad_request(
                "La descarga excedio el tiempo limite. Intenta con otra URL o formato.",
            ),
        ),
        ExtractorOutcome::NotInstalled => Err(
            ApiError::internal(
                "yt-dlp no esta instalado en el sistema. Instala yt-dlp y reinicia el backend.",
            ),
        ),
        ExtractorOutcome::SpawnFailed { detail } => Err(
            ApiError::internal_with_detail("No se pudo ejecutar yt-dlp: ", detail.as_str()),
        ),
        ExtractorOutcome::Exited { success, stdout, stderr } => {
            if success {
                Ok(stdout)
            } else {
                let message = run_error_message(stderr.as_slice());
                Err(ApiError::bad_request(message.as_str()))
            }
        },
    }
}

pub open spec fn output_template_suffix() -> Seq<char> {
    "/%(title).140B-%(id)s.%(ext)s"@
}

/// The format selector handed to the extractor.
pub open spec fn format_selector_spec(
    mode: DownloadMode,
    format_id: Option<Seq<char>>,
    has_audio: Option<bool>,
) -> Seq<char> {
    let chosen = match format_id {
        Some(id) => non_empty_spec(id),
        None => None,
    };
    match mode {
        DownloadMode::Video => match chosen {
            Some(id) => if has_audio == Some(true) {
                id
            } else {
                id + "+bestaudio/best"@
            },
            None => "bestvideo+bestaudio/best"@,
        },
        DownloadMode::Audio => match chosen {
            Some(id) => id,
            None => "bestaudio"@,
        },
    }
}

pub fn format_selector(
    mode: DownloadMode,
    format_id: Option<&str>,
    has_audio: Option<bool>,
) -> (selector: String)
    ensures
        selector@ == format_selector_spec(mode, opt_str_view(format_id), has_audio),
{
    let chosen: Option<&str> = match format_id {
        Some(id) => non_empty(id),
        None => None,
    };
    let with_audio = match has_audio {
        Some(b) => b,
        None => false,
    };
    match mode {
        DownloadMode::Video => match chosen {
            Some(id) => if with_audio {
                id.to_owned()
            } else {
                id.to_owned().concat("+bestaudio/best")
            },
            None => "bestvideo+bestaudio/best".to_owned(),
        },
        DownloadMode::Audio => match chosen {
            Some(id) => id.to_owned(),
            None => "bestaudio".to_owned(),
        },
    }
}

/// The extractor's arguments for one download into `job_dir`.
pub open spec fn download_args_spec(
    job_dir: Seq<char>,
    mode: DownloadMode,
    format_id: Option<Seq<char>>,
    has_audio: Option<bool>,
    url: Seq<char>,
) -> Seq<Seq<char>> {
    let common = seq![
        "--no-playlist"@,
        "--no-warnings"@,
        "--newline"@,
        "--print"@,
        "after_move:filepath"@,
        "-o"@,
        job_dir + output_template_suffix(),
        "-f"@,
        format_selector_spec(mode, format_id, has_audio),
    ];
    match mode {
        DownloadMode::Video => common.push(url),
        DownloadMode::Audio => (common + seq![
            "-x"@,
            "--audio-format"@,
            "mp3"@,
            "--audio-quality"@,
            "0"@,
        ]).push(url),
    }
}

/// Appends one argument.
fn push_arg(args: &mut Vec<String>, arg: String)
    ensures
        strings_view(final(args)@) == strings_view(old(args)@).push(arg@),
{
    args.push(arg);
    assert(strings_view(args@) =~= strings_view(old(args)@).push(arg@));
}

pub fn build_download_args(
    job_dir: &str,
    mode: DownloadMode,
    format_id: Option<&str>,
    has_audio: Option<bool>,
    url: &str,
) -> (args: Vec<String>)
    ensures
        strings_view(args@) == download_args_spec(
            job_dir@,
            mode,
            opt_str_view(format_id),
            has_audio,
            url@,
        ),
{
    let mut args: Vec<String> = Vec::new();
    assert(strings_view(args@) =~= Seq::<Seq<char>>::empty());
    push_arg(&mut args, "--no-playlist".to_owned());
    push_arg(&mut args, "--no-warnings".to_owned());
    push_arg(&mut args, "--newline".to_owned());
    push_arg(&mut args, "--print".to_owned());
    push_arg(&mut args, "after_move:filepath".to_owned());
    push_arg(&mut args, "-o".to_owned());
    push_arg(&mut args, job_dir.to_owned().concat("/%(title).140B-%(id)s.%(ext)s"));
    push_arg(&mut args, "-f".to_owned());
    push_arg(&mut args, format_selector(mode, format_id, has_audio));
    match mode {
        DownloadMode::Video => {},
        DownloadMode::Audio => {
            push_arg(&mut args, "-x".to_owned());
            push_arg(&mut args, "--audio-format".to_owned());
            push_arg(&mut args, "mp3".to_owned());
            push_arg(&mut args, "--audio-quality".to_owned());
            push_arg(&mut args, "0".to_owned());
        },
    }
    push_arg(&mut args, url.to_owned());
    assert(strings_view(args@) =~= download_args_spec(
        job_dir@,
        mode,
        opt_str_view(format_id),
        has_audio,
        url@,
    ));
    args
}

} // verus!
