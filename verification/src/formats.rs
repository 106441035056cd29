//! The listing of formats that a caller may choose from, and what is
//! answered when the extractor cannot describe a URL.
use vstd::prelude::*;
use vstd::string::*;
use crate::model::strings_view;
use crate::text::{
    ascii_lowercase, chars_contain, chars_of, contains_text, is_blank, non_empty, opt_str_view,
    opt_view, str_eq, to_ascii_lowercase,
};
use crate::urls::{
    is_on_domain, opt_parts_view, parse_url, parsed_url, url_is_on_domain, UrlParts, UrlPartsView,
};

verus! {

/// One format on offer.
#[derive(Debug)]
pub struct FormatOption {
    pub format_id: String,
    pub label: String,
    pub resolution: Option<String>,
    pub ext: String,
    pub has_audio: bool,
}

/// The answer to a request for the formats of a URL.
#[derive(Debug)]
pub struct FormatsResponse {
    pub title: String,
    pub thumbnail: Option<String>,
    pub video_options: Vec<FormatOption>,
    pub audio_options: Vec<FormatOption>,
}

/// A stream is present when its codec is named and is not `none`.
pub open spec fn codec_present(codec: Option<Seq<char>>) -> bool {
    match codec {
        Some(name) => name != "none"@,
        None => false,
    }
}

pub fn has_video(vcodec: Option<&str>) -> (b: bool)
    ensures
        b == codec_present(opt_str_view(vcodec)),
{
    match vcodec {
        Some(name) => !str_eq(name, "none"),
        None => false,
    }
}

pub fn has_audio(acodec: Option<&str>) -> (b: bool)
    ensures
        b == codec_present(opt_str_view(acodec)),
{
    match acodec {
        Some(name) => !str_eq(name, "none"),
        None => false,
    }
}

pub fn has_audio_only(vcodec: Option<&str>, acodec: Option<&str>) -> (b: bool)
    ensures
        b == (!codec_present(opt_str_view(vcodec)) && codec_present(opt_str_view(acodec))),
{
    !has_video(vcodec) && has_audio(acodec)
}

/// The test for having the format id `id`.
pub open spec fn has_format_id(id: Seq<char>) -> spec_fn(FormatOption) -> bool {
    |o: FormatOption| o.format_id@ == id
}

/// `options` without those whose format id occurs earlier.
pub open spec fn first_of_each_id(options: Seq<FormatOption>) -> Seq<FormatOption>
    decreases options.len(),
{
    if options.len() == 0 {
        options
    } else {
        let kept = first_of_each_id(options.drop_last());
        if kept.filter(has_format_id(options.last().format_id@)).len() > 0 {
            kept
        } else {
            kept.push(options.last())
        }
    }
}

/// Whether one of the first `upto` options has the format id `id`.
fn id_occurs_before(options: &Vec<FormatOption>, upto: usize, id: &str) -> (found: bool)
    requires
        upto <= options.len(),
    ensures
        found == (options@.take(upto as int).filter(has_format_id(id@)).len() > 0),
{
    let mut j: usize = 0;
    proof {
        options@.take(0).lemma_filter_len(has_format_id(id@));
    }
    while j < upto
        invariant
            j <= upto <= options.len(),
            options@.take(j as int).filter(has_format_id(id@)).len() == 0,
        decreases upto - j,
    {
        proof {
            options@.take(j as int).lemma_filter_push(options@[j as int], has_format_id(id@));
            assert(options@.take(j as int).push(options@[j as int]) =~= options@.take(
                j as int + 1,
            ));
        }
        if str_eq(options[j].format_id.as_str(), id) {
            proof {
                options@.take(j as int + 1).lemma_filter_len(has_format_id(id@));
                let rest = options@.take(upto as int).skip(j as int + 1);
                assert(options@.take(j as int + 1) + rest =~= options@.take(upto as int));
                Seq::filter_distributes_over_add(
                    options@.take(j as int + 1),
                    rest,
                    has_format_id(id@),
                );
            }
            return true;
        }
        j += 1;
    }
    false
}

/// Keeps the first option of each format id, in the order given.
pub fn dedup_by_format_id(options: Vec<FormatOption>) -> (deduped: Vec<FormatOption>)
    ensures
        deduped@ == first_of_each_id(options@),
{
    let mut options = options;
    let ghost all = options@;
    let ghost mut seen: int = 0;
    let mut i: usize = 0;
    assert(all.take(0) =~= Seq::<FormatOption>::empty());
    assert(first_of_each_id(all.take(0)) + all.skip(0) =~= all);
    while i < options.len()
        invariant
            0 <= seen <= all.len(),
            i == first_of_each_id(all.take(seen)).len(),
            options@ == first_of_each_id(all.take(seen)) + all.skip(seen),
        decreases all.len() - seen,
    {
        let ghost kept = first_of_each_id(all.take(seen));
        proof {
            assert(seen < all.len());
            assert(options@[i as int] == all[seen]);
            assert(all.take(seen + 1).drop_last() =~= all.take(seen));
            assert(all.take(seen + 1).last() == all[seen]);
            assert(options@.take(i as int) =~= kept);
        }
        let id = options[i].format_id.clone();
        if id_occurs_before(&options, i, id.as_str()) {
            options.remove(i);
            assert(options@ =~= kept + all.skip(seen + 1));
        } else {
            assert(options@ =~= kept.push(all[seen]) + all.skip(seen + 1));
            i += 1;
        }
        proof {
            seen = seen + 1;
        }
    }
    proof {
        assert(seen == all.len()) by {
            if seen < all.len() {
                assert(options@.len() == i + (all.len() - seen));
            }
        }
        assert(all.take(seen) =~= all);
        assert(options@ =~= first_of_each_id(all));
    }
    options
}

/// The option that lets the extractor choose the best video.
pub open spec fn is_automatic_video(o: FormatOption) -> bool {
    &&& o.format_id@ == "bestvideo+bestaudio/best"@
    &&& o.label@ == "Mejor calidad automatica"@
    &&& opt_view(o.resolution) == Some("Auto"@)
    &&& o.ext@ == "mp4"@
    &&& o.has_audio
}

/// The option that lets the extractor choose the best audio.
pub open spec fn is_automatic_audio(o: FormatOption) -> bool {
    &&& o.format_id@ == "bestaudio"@
    &&& o.label@ == "Mejor audio disponible"@
    &&& o.resolution is None
    &&& o.ext@ == "mp3"@
    &&& o.has_audio
}

pub fn automatic_video_option() -> (o: FormatOption)
    ensures
        is_automatic_video(o),
{
    FormatOption {
        format_id: "bestvideo+bestaudio/best".to_owned(),
        label: "Mejor calidad automatica".to_owned(),
        resolution: Some("Auto".to_owned()),
        ext: "mp4".to_owned(),
        has_audio: true,
    }
}

pub fn automatic_audio_option() -> (o: FormatOption)
    ensures
        is_automatic_audio(o),
{
    FormatOption {
        format_id: "bestaudio".to_owned(),
        label: "Mejor audio disponible".to_owned(),
        resolution: None,
        ext: "mp3".to_owned(),
        has_audio: true,
    }
}

/// The title of the automatic listing: it names the host of the URL, or
/// says that the source is unknown.
pub open spec fn automatic_title(parts: Option<UrlPartsView>) -> Seq<char> {
    let source = match parts {
        Some(p) => match p.host {
            Some(host) => host,
            None => "fuente-desconocida"@,
        },
        None => "fuente-desconocida"@,
    };
    "Modo automatico ("@ + source + ")"@
}

/// A listing that offers the two automatic options and nothing else.
pub open spec fn is_automatic_listing(r: FormatsResponse, title: Seq<char>) -> bool {
    &&& r.title@ == title
    &&& r.thumbnail is None
    &&& r.video_options.len() == 1
    &&& is_automatic_video(r.video_options[0])
    &&& r.audio_options.len() == 1
    &&& is_automatic_audio(r.audio_options[0])
}

/// The automatic listing for a URL with these parts.
pub fn automatic_listing_for(parts: &Option<UrlParts>) -> (r: FormatsResponse)
    ensures
        is_automatic_listing(r, automatic_title(opt_parts_view(*parts))),
{
    let mut title = "Modo automatico (".to_owned();
    match parts {
        Some(p) => match &p.host {
            Some(host) => title.append(host.as_str()),
            None => title.append("fuente-desconocida"),
        },
        None => title.append("fuente-desconocida"),
    }
    title.append(")");
    let mut video_options: Vec<FormatOption> = Vec::new();
    video_options.push(automatic_video_option());
    let mut audio_options: Vec<FormatOption> = Vec::new();
    audio_options.push(automatic_audio_option());
    FormatsResponse { title, thumbnail: None, video_options, audio_options }
}

pub fn build_automatic_formats_response(url: &str) -> (r: FormatsResponse)
    ensures
        is_automatic_listing(r, automatic_title(parsed_url(url@))),
{
    let parts = parse_url(url);
    automatic_listing_for(&parts)
}

/// The message is one that the extractor gives when it cannot read a page's
/// metadata.
pub open spec fn looks_like_metadata_error(message: Seq<char>) -> bool {
    let lower = ascii_lowercase(message);
    ||| (contains_text(lower, "failed to extract"@) && contains_text(lower, "json"@))
    ||| contains_text(lower, "unable to extract"@)
    ||| contains_text(lower, "nonetype"@)
    ||| contains_text(lower, "no se pudieron obtener metadatos"@)
}

/// The sites for which the automatic listing stands in.
pub open spec fn is_fallback_site(parts: Option<UrlPartsView>) -> bool {
    ||| is_on_domain(parts, "tiktok.com"@)
    ||| is_on_domain(parts, "vm.tiktok.com"@)
    ||| is_on_domain(parts, "vt.tiktok.com"@)
    ||| is_on_domain(parts, "bsky.app"@)
}

/// Whether the automatic listing is answered in place of an error, for a
/// URL with these parts.
pub fn fallback_applies(parts: &Option<UrlParts>, message: &str) -> (b: bool)
    ensures
        b == (looks_like_metadata_error(message@) && is_fallback_site(opt_parts_view(*parts))),
{
    let lower = to_ascii_lowercase(&chars_of(message));
    let looks = (chars_contain(&lower, &chars_of("failed to extract")) && chars_contain(
        &lower,
        &chars_of("json"),
    )) || chars_contain(&lower, &chars_of("unable to extract")) || chars_contain(
        &lower,
        &chars_of("nonetype"),
    ) || chars_contain(&lower, &chars_of("no se pudieron obtener metadatos"));
    if !looks {
        return false;
    }
    url_is_on_domain(parts, "tiktok.com") || url_is_on_domain(parts, "vm.tiktok.com")
        || url_is_on_domain(parts, "vt.tiktok.com") || url_is_on_domain(parts, "bsky.app")
}

pub fn should_use_automatic_formats_fallback(url: &str, message: &str) -> (b: bool)
    ensures
        b == (looks_like_metadata_error(message@) && is_fallback_site(parsed_url(url@))),
{
    let parts = parse_url(url);
    fallback_applies(&parts, message)
}

/// The extractor's arguments for describing `url`.
pub open spec fn metadata_args_spec(url: Seq<char>) -> Seq<Seq<char>> {
    seq!["-J"@, "--no-playlist"@, "--no-warnings"@, url]
}

pub fn metadata_args(url: &str) -> (args: Vec<String>)
    ensures
        strings_view(args@) == metadata_args_spec(url@),
{
    let mut args: Vec<String> = Vec::new();
    args.push("-J".to_owned());
    args.push("--no-playlist".to_owned());
    args.push("--no-warnings".to_owned());
    args.push(url.to_owned());
    assert(strings_view(args@) =~= metadata_args_spec(url@));
    args
}

/// The listing that is answered: the title, or `Sin titulo` when there is
/// none that holds more than whitespace; the thumbnail; and the options,
/// with the automatic option in place of an empty list.
pub fn complete_formats_response(
    title: Option<String>,
    thumbnail: Option<String>,
    video_options: Vec<FormatOption>,
    audio_options: Vec<FormatOption>,
) -> (r: FormatsResponse)
    ensures
        r.title@ == match title {
            Some(t) => if is_blank(t@) {
                "Sin titulo"@
            } else {
                t@
            },
            None => "Sin titulo"@,
        },
        r.thumbnail == thumbnail,
        video_options.len() > 0 ==> r.video_options == video_options,
        video_options.len() == 0 ==> r.video_options.len() == 1 && is_automatic_video(
            r.video_options[0],
        ),
        audio_options.len() > 0 ==> r.audio_options == audio_options,
        audio_options.len() == 0 ==> r.audio_options.len() == 1 && is_automatic_audio(
            r.audio_options[0],
        ),
{
    let mut video_options = video_options;
    let mut audio_options = audio_options;
    if video_options.len() == 0 {
        video_options.push(automatic_video_option());
    }
    if audio_options.len() == 0 {
        audio_options.push(automatic_audio_option());
    }
    let title: String = match title {
        Some(t) => {
            if non_empty(t.as_str()).is_some() {
                t
            } else {
                "Sin titulo".to_owned()
            }
        },
        None => "Sin titulo".to_owned(),
    };
    FormatsResponse { title, thumbnail, video_options, audio_options }
}

} // verus!
