//! What the response headers say about a delivered file: its content type,
//! an ASCII-safe name, and the `Content-Disposition` value.
use vstd::prelude::*;
use vstd::string::*;
use crate::text::{
    ascii_lowercase, chars_of, find_last, is_blank, last_index_of, str_eq, string_of, string_of_range,
    to_ascii_lowercase, trim_bounds, trimmed,
};

verus! {

/// Letters and digits of ASCII.
pub open spec fn is_ascii_alphanumeric(c: char) -> bool {
    ('0' <= c && c <= '9') || ('a' <= c && c <= 'z') || ('A' <= c && c <= 'Z')
}

/// The characters that a sanitised file name keeps.
pub open spec fn is_safe_filename_char(c: char) -> bool {
    is_ascii_alphanumeric(c) || c == '.' || c == '-' || c == '_' || c == ' ' || c == '(' || c
        == ')'
}

/// `c` if it is safe in a file name, otherwise an underscore.
pub open spec fn safe_filename_char(c: char) -> char {
    if is_safe_filename_char(c) {
        c
    } else {
        '_'
    }
}

pub open spec fn fallback_filename() -> Seq<char> {
    "download.bin"@
}

/// Every unsafe character replaced by `_`, the result trimmed, and
/// `download.bin` when nothing is left.
pub open spec fn sanitize_ascii_filename_spec(value: Seq<char>) -> Seq<char> {
    let replaced = Seq::new(value.len(), |i: int| safe_filename_char(value[i]));
    if is_blank(replaced) {
        fallback_filename()
    } else {
        trimmed(replaced)
    }
}

pub fn sanitize_ascii_filename(value: &str) -> (name: String)
    ensures
        name@ == sanitize_ascii_filename_spec(value@),
{
    let chars = chars_of(value);
    let mut replaced: Vec<char> = Vec::new();
    let mut i: usize = 0;
    while i < chars.len()
        invariant
            i <= chars.len(),
            replaced@ == Seq::new(i as nat, |k: int| safe_filename_char(chars@[k])),
        decreases chars.len() - i,
    {
        let c = chars[i];
        let safe = ('0' <= c && c <= '9') || ('a' <= c && c <= 'z') || ('A' <= c && c <= 'Z') || c
            == '.' || c == '-' || c == '_' || c == ' ' || c == '(' || c == ')';
        replaced.push(if safe { c } else { '_' });
        i += 1;
        assert(replaced@ =~= Seq::new(i as nat, |k: int| safe_filename_char(chars@[k])));
    }
    assert(replaced@ =~= Seq::new(value@.len(), |k: int| safe_filename_char(value@[k])));
    let (start, end) = trim_bounds(&replaced);
    if start == end {
        "download.bin".to_owned()
    } else {
        string_of_range(&replaced, start, end)
    }
}

/// The length of `path` once trailing separators and trailing `.`
/// components are dropped.
pub open spec fn stripped_len(path: Seq<char>) -> nat
    decreases path.len(),
{
    if path.len() > 0 && path.last() == '/' {
        stripped_len(path.drop_last())
    } else if path.len() >= 2 && path.last() == '.' && path[path.len() - 2] == '/' {
        stripped_len(path.drop_last())
    } else {
        path.len()
    }
}

/// The final component of a `/`-separated path, or `None` when the path
/// has none or ends in `..`.
pub open spec fn file_name_of(path: Seq<char>) -> Option<Seq<char>> {
    let stem = path.take(stripped_len(path) as int);
    let name = stem.skip(last_index_of(stem, '/') + 1);
    if name.len() == 0 || name == seq!['.'] || name == seq!['.', '.'] {
        None
    } else {
        Some(name)
    }
}

/// The text after the last `.` of the file name; `None` when there is no
/// file name, no `.` in it, or its only `.` is its first character.
pub open spec fn extension_of(path: Seq<char>) -> Option<Seq<char>> {
    match file_name_of(path) {
        None => None,
        Some(name) => {
            let dot = last_index_of(name, '.');
            if dot <= 0 {
                None
            } else {
                Some(name.skip(dot + 1))
            }
        },
    }
}

/// The bounds in `path` of the extension, when there is one.
pub fn extension_bounds(path: &Vec<char>) -> (r: Option<(usize, usize)>)
    ensures
        match r {
            Some((from, to)) => from <= to <= path.len() && extension_of(path@) == Some(
                path@.subrange(from as int, to as int),
            ),
            None => extension_of(path@) is None,
        },
{
    let mut end: usize = path.len();
    assert(path@.take(end as int) =~= path@);
    loop
        invariant
            end <= path.len(),
            stripped_len(path@) == stripped_len(path@.take(end as int)),
        ensures
            end <= path.len(),
            stripped_len(path@) == end,
        decreases end,
    {
        if end > 0 && path[end - 1] == '/' {
            assert(path@.take(end as int).drop_last() =~= path@.take(end as int - 1));
            end -= 1;
        } else if end >= 2 && path[end - 1] == '.' && path[end - 2] == '/' {
            assert(path@.take(end as int).drop_last() =~= path@.take(end as int - 1));
            end -= 1;
        } else {
            break;
        }
    }
    let ghost stem = path@.take(end as int);
    assert(path@.subrange(0, end as int) =~= stem);
    let start: usize = match find_last(path, '/', 0, end) {
        Some(slash) => slash + 1,
        None => 0,
    };
    let ghost name = stem.skip(start as int);
    assert(path@.subrange(start as int, end as int) =~= name);
    if start == end {
        return None;
    }
    if end - start == 1 && path[start] == '.' {
        assert(name =~= seq!['.']);
        return None;
    }
    if end - start == 2 && path[start] == '.' && path[start + 1] == '.' {
        assert(name =~= seq!['.', '.']);
        return None;
    }
    assert(name != seq!['.']) by {
        if name == seq!['.'] {
            assert(name.len() == 1 && name[0] == '.');
        }
    }
    assert(name != seq!['.', '.']) by {
        if name == seq!['.', '.'] {
            assert(name.len() == 2 && name[0] == '.' && name[1] == '.');
        }
    }
    match find_last(path, '.', start, end) {
        None => None,
        Some(dot) => {
            if dot == 0 {
                None
            } else {
                assert(name.skip(dot as int + 1) =~= path@.subrange(
                    start as int + dot as int + 1,
                    end as int,
                ));
                Some((start + dot + 1, end))
            }
        },
    }
}

pub open spec fn content_type_of_extension(ext: Seq<char>) -> Seq<char> {
    if ext == "mp4"@ {
        "video/mp4"@
    } else if ext == "webm"@ {
        "video/webm"@
    } else if ext == "mkv"@ {
        "video/x-matroska"@
    } else if ext == "mov"@ {
        "video/quicktime"@
    } else if ext == "mp3"@ {
        "audio/mpeg"@
    } else if ext == "m4a"@ {
        "audio/mp4"@
    } else if ext == "aac"@ {
        "audio/aac"@
    } else if ext == "wav"@ {
        "audio/wav"@
    } else if ext == "ogg"@ {
        "audio/ogg"@
    } else if ext == "opus"@ {
        "audio/ogg"@
    } else if ext == "flac"@ {
        "audio/flac"@
    } else {
        "application/octet-stream"@
    }
}

/// The content type for the lower-cased extension of `filename`, or
/// `application/octet-stream` when it has none or an unknown one.
pub open spec fn content_type_spec(filename: Seq<char>) -> Seq<char> {
    match extension_of(filename) {
        Some(ext) => content_type_of_extension(ascii_lowercase(ext)),
        None => content_type_of_extension(Seq::empty()),
    }
}

/// The content type for an extension that is already in lower case.
pub fn content_type_for_extension(ext: &str) -> (content_type: &'static str)
    ensures
        content_type@ == content_type_of_extension(ext@),
{
    proof {
        reveal_strlit("mp4");
        reveal_strlit("webm");
        reveal_strlit("mkv");
        reveal_strlit("mov");
        reveal_strlit("mp3");
        reveal_strlit("m4a");
        reveal_strlit("aac");
        reveal_strlit("wav");
        reveal_strlit("ogg");
        reveal_strlit("opus");
        reveal_strlit("flac");
        assert("mp4"@ =~= seq!['m', 'p', '4']);
        assert("webm"@ =~= seq!['w', 'e', 'b', 'm']);
        assert("mkv"@ =~= seq!['m', 'k', 'v']);
        assert("mov"@ =~= seq!['m', 'o', 'v']);
        assert("mp3"@ =~= seq!['m', 'p', '3']);
        assert("m4a"@ =~= seq!['m', '4', 'a']);
        assert("aac"@ =~= seq!['a', 'a', 'c']);
        assert("wav"@ =~= seq!['w', 'a', 'v']);
        assert("ogg"@ =~= seq!['o', 'g', 'g']);
        assert("opus"@ =~= seq!['o', 'p', 'u', 's']);
        assert("flac"@ =~= seq!['f', 'l', 'a', 'c']);
    }
    if str_eq(ext, "mp4") {
        "video/mp4"
    } else if str_eq(ext, "webm") {
        "video/webm"
    } else if str_eq(ext, "mkv") {
        "video/x-matroska"
    } else if str_eq(ext, "mov") {
        "video/quicktime"
    } else if str_eq(ext, "mp3") {
        "audio/mpeg"
    } else if str_eq(ext, "m4a") {
        "audio/mp4"
    } else if str_eq(ext, "aac") {
        "audio/aac"
    } else if str_eq(ext, "wav") {
        "audio/wav"
    } else if str_eq(ext, "ogg") {
        "audio/ogg"
    } else if str_eq(ext, "opus") {
        "audio/ogg"
    } else if str_eq(ext, "flac") {
        "audio/flac"
    } else {
        "application/octet-stream"
    }
}

pub fn content_type_for_filename(filename: &str) -> (content_type: &'static str)
    ensures
        content_type@ == content_type_spec(filename@),
{
    let chars = chars_of(filename);
    let extension = match extension_bounds(&chars) {
        Some((from, to)) => {
            let mut ext: Vec<char> = Vec::new();
            let mut i: usize = from;
            while i < to
                invariant
                    from <= i <= to <= chars.len(),
                    ext@ == chars@.subrange(from as int, i as int),
                decreases to - i,
            {
                ext.push(chars[i]);
                i += 1;
            }
            string_of(&to_ascii_lowercase(&ext))
        },
        None => String::new(),
    };
    content_type_for_extension(extension.as_str())
}

/// Bytes that percent-encoding leaves as they are: ASCII letters and digits,
/// `-`, `.`, `_` and `~`.
pub open spec fn is_unreserved_byte(b: u8) -> bool {
    (0x30 <= b && b <= 0x39) || (0x41 <= b && b <= 0x5A) || (0x61 <= b && b <= 0x7A) || b == 0x2D
        || b == 0x2E || b == 0x5F || b == 0x7E
}

/// The upper-case hexadecimal digit for a value below 16.
pub open spec fn hex_upper(d: u8) -> char
    recommends
        d < 16,
{
    if d < 10 {
        ((48 + d) as u8) as char
    } else {
        ((55 + d) as u8) as char
    }
}

pub open spec fn percent_encoded_byte(b: u8) -> Seq<char> {
    if is_unreserved_byte(b) {
        seq![b as char]
    } else {
        seq!['%', hex_upper(b / 16), hex_upper(b % 16)]
    }
}

/// Each byte either kept or written as `%` and two upper-case hex digits.
pub open spec fn percent_encoded(bytes: Seq<u8>) -> Seq<char>
    decreases bytes.len(),
{
    if bytes.len() == 0 {
        Seq::empty()
    } else {
        percent_encoded(bytes.drop_last()) + percent_encoded_byte(bytes.last())
    }
}

/// `urlencoding::encode`: the UTF-8 bytes of `text`, each one kept if it is an
/// ASCII letter, a digit, `-`, `.`, `_` or `~`, and otherwise written as `%`
/// followed by its two upper-case hexadecimal digits.
#[verifier::external_body]
pub(crate) fn percent_encode(text: &str) -> (encoded: String)
    ensures
        encoded@ == percent_encoded(text.spec_bytes()),
{
    urlencoding::encode(text).into_owned()
}

pub open spec fn content_disposition_spec(filename: Seq<char>) -> Seq<char> {
    "attachment; filename=\""@ + sanitize_ascii_filename_spec(filename) + "\"; filename*=UTF-8''"@
        + percent_encoded(vstd::utf8::encode_utf8(filename))
}

/// The `Content-Disposition` value: the ASCII-safe name in quotes, then the
/// full name percent-encoded as a UTF-8 extended parameter.
pub fn build_content_disposition(filename: &str) -> (value: String)
    ensures
        value@ == content_disposition_spec(filename@),
{
    let safe_ascii = sanitize_ascii_filename(filename);
    let encoded = percent_encode(filename);
    let mut value = "attachment; filename=\"".to_owned();
    value.append(safe_ascii.as_str());
    value.append("\"; filename*=UTF-8''");
    value.append(encoded.as_str());
    value
}

} // verus!
