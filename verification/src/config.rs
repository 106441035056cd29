//! Settings read from the environment when the service starts: flags,
//! numbers, the address to listen on, and the origins that may call.
use vstd::prelude::*;
use vstd::string::*;
use crate::errors::{internal_view, ApiError};
use crate::model::strings_view;
use crate::text::{
    ascii_lowercase, chars_of, decimal_digits, is_blank, non_empty, non_empty_spec, opt_str_view,
    parse_unsigned, parse_unsigned_spec, pieces_view, push_decimal, split_chars, split_on, str_eq,
    string_of, string_of_range, to_ascii_lowercase, trim, trim_bounds, trimmed,
};
use crate::urls::{normal_origin, normalize_origin, parsed_url};

verus! {

/// Number of extraction jobs allowed to run at once when nothing else is
/// configured.
pub const DEFAULT_MAX_CONCURRENT_DOWNLOADS: usize = 3;

/// What a flag says, whatever its case and the whitespace around it.
pub open spec fn bool_flag(value: Seq<char>) -> Option<bool> {
    let word = ascii_lowercase(trimmed(value));
    if word == "1"@ || word == "true"@ || word == "yes"@ || word == "on"@ {
        Some(true)
    } else if word == "0"@ || word == "false"@ || word == "no"@ || word == "off"@ {
        Some(false)
    } else {
        None
    }
}

/// Reads a flag: `None` when the variable is not set or says neither yes
/// nor no.
pub fn read_bool_env(value: Option<&str>) -> (flag: Option<bool>)
    ensures
        flag == match value {
            Some(v) => bool_flag(v@),
            None => None,
        },
{
    let raw = match value {
        Some(raw) => raw,
        None => {
            return None;
        },
    };
    let lowered = string_of(&to_ascii_lowercase(&chars_of(trim(raw))));
    let word = lowered.as_str();
    proof {
        reveal_strlit("1");
        reveal_strlit("true");
        reveal_strlit("yes");
        reveal_strlit("on");
        reveal_strlit("0");
        reveal_strlit("false");
        reveal_strlit("no");
        reveal_strlit("off");
        assert("1"@ =~= seq!['1']);
        assert("true"@ =~= seq!['t', 'r', 'u', 'e']);
        assert("yes"@ =~= seq!['y', 'e', 's']);
        assert("on"@ =~= seq!['o', 'n']);
        assert("0"@ =~= seq!['0']);
        assert("false"@ =~= seq!['f', 'a', 'l', 's', 'e']);
        assert("no"@ =~= seq!['n', 'o']);
        assert("off"@ =~= seq!['o', 'f', 'f']);
    }
    if str_eq(word, "1") || str_eq(word, "true") || str_eq(word, "yes") || str_eq(word, "on") {
        Some(true)
    } else if str_eq(word, "0") || str_eq(word, "false") || str_eq(word, "no") || str_eq(
        word,
        "off",
    ) {
        Some(false)
    } else {
        None
    }
}

/// Reads a number: `None` when the variable is not set or does not hold
/// one that fits.
pub fn read_usize_env(value: Option<&str>) -> (number: Option<usize>)
    ensures
        match value {
            Some(v) => match parse_unsigned_spec(trimmed(v@), usize::MAX as u64) {
                Some(n) => number == Some(n as usize),
                None => number is None,
            },
            None => number is None,
        },
{
    match value {
        Some(raw) => match parse_unsigned(&chars_of(trim(raw)), usize::MAX as u64) {
            Some(n) => Some(n as usize),
            None => None,
        },
        None => None,
    }
}

/// The size of the permit pool: the configured value when it is positive,
/// otherwise the default.
pub open spec fn effective_concurrency_spec(configured: Option<usize>) -> usize {
    match configured {
        Some(n) => if n > 0 {
            n
        } else {
            DEFAULT_MAX_CONCURRENT_DOWNLOADS
        },
        None => DEFAULT_MAX_CONCURRENT_DOWNLOADS,
    }
}

pub fn effective_concurrency(configured: Option<usize>) -> (n: usize)
    ensures
        n == effective_concurrency_spec(configured),
        n >= 1,
{
    match configured {
        Some(value) => if value > 0 {
            value
        } else {
            DEFAULT_MAX_CONCURRENT_DOWNLOADS
        },
        None => DEFAULT_MAX_CONCURRENT_DOWNLOADS,
    }
}

/// The address to listen on: the configured address if it holds more than
/// whitespace, else every interface at the configured port if that is a
/// port number, else the loopback address at port 8787.
pub open spec fn bind_addr(app_addr: Option<Seq<char>>, port: Option<Seq<char>>) -> Seq<char> {
    let configured = match app_addr {
        Some(a) => non_empty_spec(a),
        None => None,
    };
    let number = match port {
        Some(p) => parse_unsigned_spec(trimmed(p), 65_535),
        None => None,
    };
    match configured {
        Some(a) => a,
        None => match number {
            Some(n) => "0.0.0.0:"@ + decimal_digits(n as nat),
            None => "127.0.0.1:8787"@,
        },
    }
}

pub fn resolve_bind_addr(app_addr: Option<&str>, port: Option<&str>) -> (addr: String)
    ensures
        addr@ == bind_addr(opt_str_view(app_addr), opt_str_view(port)),
{
    let configured: Option<&str> = match app_addr {
        Some(a) => non_empty(a),
        None => None,
    };
    match configured {
        Some(a) => {
            return a.to_owned();
        },
        None => {},
    }
    let number: Option<u64> = match port {
        Some(p) => parse_unsigned(&chars_of(trim(p)), 65_535),
        None => None,
    };
    match number {
        Some(n) => {
            let mut addr = "0.0.0.0:".to_owned();
            push_decimal(&mut addr, n);
            addr
        },
        None => "127.0.0.1:8787".to_owned(),
    }
}

/// The pieces that hold more than whitespace, each trimmed.
pub open spec fn trimmed_pieces(pieces: Seq<Seq<char>>) -> Seq<Seq<char>>
    decreases pieces.len(),
{
    if pieces.len() == 0 {
        pieces
    } else {
        let before = trimmed_pieces(pieces.drop_last());
        if is_blank(pieces.last()) {
            before
        } else {
            before.push(trimmed(pieces.last()))
        }
    }
}

/// The origins used when none are configured.
pub open spec fn default_origins() -> Seq<Seq<char>> {
    seq!["http://127.0.0.1:5173"@, "http://localhost:5173"@]
}

/// The origins that the configured list names: its pieces between commas,
/// trimmed, without those that hold nothing but whitespace.
pub open spec fn listed_origins(configured: Option<Seq<char>>) -> Seq<Seq<char>> {
    match configured {
        Some(list) => trimmed_pieces(split_on(list, ',')),
        None => Seq::empty(),
    }
}

/// The origins to allow as they are written: those that the configured list
/// names, or the defaults when it names none.
pub open spec fn origin_candidates(configured: Option<Seq<char>>) -> Seq<Seq<char>> {
    if listed_origins(configured).len() == 0 {
        default_origins()
    } else {
        listed_origins(configured)
    }
}

/// The origins that the configured list names.
pub fn list_configured_origins(configured: Option<&str>) -> (candidates: Vec<String>)
    ensures
        strings_view(candidates@) == listed_origins(opt_str_view(configured)),
{
    let mut candidates: Vec<String> = Vec::new();
    assert(strings_view(candidates@) =~= Seq::<Seq<char>>::empty());
    match configured {
        Some(list) => {
            let pieces = split_chars(&chars_of(list), ',');
            let ghost all = pieces_view(pieces@);
            let mut i: usize = 0;
            assert(all.take(0) =~= Seq::<Seq<char>>::empty());
            while i < pieces.len()
                invariant
                    i <= pieces.len(),
                    all == pieces_view(pieces@),
                    strings_view(candidates@) == trimmed_pieces(all.take(i as int)),
                decreases pieces.len() - i,
            {
                let ghost before = strings_view(candidates@);
                proof {
                    assert(all.take(i as int + 1).drop_last() =~= all.take(i as int));
                    assert(all.take(i as int + 1).last() == pieces@[i as int]@);
                }
                let (start, end) = trim_bounds(&pieces[i]);
                if start != end {
                    let piece = string_of_range(&pieces[i], start, end);
                    candidates.push(piece);
                    assert(strings_view(candidates@) =~= before.push(trimmed(pieces@[i as int]@)));
                }
                i += 1;
            }
            assert(all.take(pieces.len() as int) =~= all);
        },
        None => {},
    }
    candidates
}

/// Whether the configured list names any origin.
pub fn has_configured_origins(configured: Option<&str>) -> (b: bool)
    ensures
        b == (listed_origins(opt_str_view(configured)).len() > 0),
{
    list_configured_origins(configured).len() > 0
}

pub fn list_origin_candidates(configured: Option<&str>) -> (candidates: Vec<String>)
    ensures
        strings_view(candidates@) == origin_candidates(opt_str_view(configured)),
{
    let mut candidates = list_configured_origins(configured);
    if candidates.len() == 0 {
        candidates.push("http://127.0.0.1:5173".to_owned());
        candidates.push("http://localhost:5173".to_owned());
        assert(strings_view(candidates@) =~= default_origins());
    }
    candidates
}

/// What comes of normalising the candidates in order: the normal forms,
/// each once, or the first candidate that is no origin.
pub open spec fn normalized_origins(candidates: Seq<Seq<char>>) -> Result<Seq<Seq<char>>, Seq<char>>
    decreases candidates.len(),
{
    if candidates.len() == 0 {
        Ok(Seq::empty())
    } else {
        match normalized_origins(candidates.drop_last()) {
            Err(offending) => Err(offending),
            Ok(origins) => match normal_origin(parsed_url(candidates.last())) {
                None => Err(candidates.last()),
                Some(origin) => if origins.contains(origin) {
                    Ok(origins)
                } else {
                    Ok(origins.push(origin))
                },
            },
        }
    }
}

pub open spec fn invalid_origin_message(origin: Seq<char>) -> Seq<char> {
    "Origen invalido en ALLOWED_ORIGINS: "@ + origin + ". Usa valores tipo https://dominio.com"@
}

/// Whether `origin` is among `origins`.
pub fn contains_origin(origins: &Vec<String>, origin: &str) -> (found: bool)
    ensures
        found == strings_view(origins@).contains(origin@),
{
    let ghost views = strings_view(origins@);
    let mut i: usize = 0;
    while i < origins.len()
        invariant
            i <= origins.len(),
            views == strings_view(origins@),
            forall|j: int| 0 <= j < i ==> views[j] != origin@,
        decreases origins.len() - i,
    {
        if str_eq(origins[i].as_str(), origin) {
            assert(views[i as int] == origin@);
            return true;
        }
        i += 1;
    }
    false
}

/// The allow-list of origins in normal form, without duplicates, from the
/// configured list or the defaults. One entry that is no origin makes the
/// whole configuration invalid.
pub fn allowed_origins(configured: Option<&str>) -> (r: Result<Vec<String>, ApiError>)
    ensures
        match normalized_origins(origin_candidates(opt_str_view(configured))) {
            Ok(origins) => r is Ok && strings_view(r->Ok_0@) == origins,
            Err(offending) => r is Err && r->Err_0@ == internal_view(
                invalid_origin_message(offending),
            ),
        },
{
    let candidates = list_origin_candidates(configured);
    let ghost all = strings_view(candidates@);
    let mut origins: Vec<String> = Vec::new();
    let mut i: usize = 0;
    assert(all.take(0) =~= Seq::<Seq<char>>::empty());
    assert(strings_view(origins@) =~= Seq::<Seq<char>>::empty());
    while i < candidates.len()
        invariant
            i <= candidates.len(),
            all == strings_view(candidates@),
            all == origin_candidates(opt_str_view(configured)),
            normalized_origins(all.take(i as int)) == Ok::<Seq<Seq<char>>, Seq<char>>(
                strings_view(origins@),
            ),
        decreases candidates.len() - i,
    {
        let ghost before = strings_view(origins@);
        proof {
            assert(all.take(i as int + 1).drop_last() =~= all.take(i as int));
            assert(all.take(i as int + 1).last() == candidates@[i as int]@);
        }
        match normalize_origin(candidates[i].as_str()) {
            Some(origin) => {
                if !contains_origin(&origins, origin.as_str()) {
                    origins.push(origin);
                    assert(strings_view(origins@) =~= before.push(origin@));
                }
            },
            None => {
                proof {
                    lemma_failure_is_final(all, i as int + 1);
                }
                let mut message = "Origen invalido en ALLOWED_ORIGINS: ".to_owned();
                message.append(candidates[i].as_str());
                message.append(". Usa valores tipo https://dominio.com");
                return Err(ApiError::internal(message.as_str()));
            },
        }
        i += 1;
    }
    assert(all.take(candidates.len() as int) =~= all);
    Ok(origins)
}

/// Once a candidate has been found that is no origin, later candidates do
/// not change the outcome.
pub proof fn lemma_failure_is_final(candidates: Seq<Seq<char>>, k: int)
    requires
        0 <= k <= candidates.len(),
        normalized_origins(candidates.take(k)) is Err,
    ensures
        normalized_origins(candidates) == normalized_origins(candidates.take(k)),
    decreases candidates.len() - k,
{
    if k == candidates.len() {
        assert(candidates.take(k) =~= candidates);
    } else {
        assert(candidates.take(k + 1).drop_last() =~= candidates.take(k));
        lemma_failure_is_final(candidates, k + 1);
    }
}

/// Whether a request from `origin` may be answered: its normal form is on
/// the allow-list. A request without an origin that can be normalised is
/// not allowed.
pub fn origin_is_allowed(allowed: &Vec<String>, origin: Option<&str>) -> (ok: bool)
    ensures
        ok == match origin {
            Some(o) => match normal_origin(parsed_url(o@)) {
                Some(normal) => strings_view(allowed@).contains(normal),
                None => false,
            },
            None => false,
        },
{
    match origin {
        Some(o) => match normalize_origin(o) {
            Some(normal) => contains_origin(allowed, normal.as_str()),
            None => false,
        },
        None => false,
    }
}

} // verus!
