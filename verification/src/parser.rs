//! Turns a feed's channel into a [`NewPodcast`] and its items into [`NewEpisode`]s.
use vstd::prelude::*;
use std::fmt::Write;
use crate::feed::{
    opt_chars, Channel, Item, NewEpisode, NewEpisodeView, NewPodcast, NewPodcastView,
};
use crate::text::{
    chars_of, extra_spaces_replaced, parse_i32, parsed_i32, replace_extra_spaces, split_chars,
    split_on, trim, trim_str, url_cleaner, url_without_query, decimal, is_digit,
    lemma_decimal_digits, lemma_parse_decimal_roundtrip, lemma_split_single,
    lemma_split_append_piece, lemma_trim_idempotent, lemma_replace_extra_spaces_idempotent,
    lemma_url_cleaner_idempotent,
};

verus! {

// ---------------------------------------------------------------------------
// Outside crates
// ---------------------------------------------------------------------------

/// What `ammonia::clean` makes of a piece of HTML: the text with every tag,
/// attribute and URL scheme outside ammonia's default whitelist removed.
pub uninterp spec fn sanitized_html(html: Seq<char>) -> Seq<char>;

/// Calls `ammonia::clean`. Claimed: the result is `sanitized_html` of the input, a
/// function of the input alone (the default `Builder` holds no state).
#[verifier::external_body]
fn clean_html(html: &str) -> (r: String)
    ensures
        r@ == sanitized_html(html@),
{
    ammonia::clean(html)
}

/// Whether `rfc822_sanitizer::parse_from_rfc2822_with_fallback` accepts the text.
pub uninterp spec fn feed_date_parses(text: Seq<char>) -> bool;

/// The RFC 2822 rendering (chrono's, as `DateTime::to_rfc2822` writes it) of the date
/// that `parse_from_rfc2822_with_fallback` reads from the text; `None` where chrono
/// cannot render it (a year outside 0 to 9999).
pub uninterp spec fn feed_date_rfc2822(text: Seq<char>) -> Option<Seq<char>>;

/// The UNIX timestamp (`DateTime::timestamp`) of the date that
/// `parse_from_rfc2822_with_fallback` reads from the text.
pub uninterp spec fn feed_date_timestamp(text: Seq<char>) -> i64;

/// Calls `rfc822_sanitizer::parse_from_rfc2822_with_fallback` and, on success, reads
/// the date back through chrono: its RFC 2822 rendering (written with the
/// `Fixed::RFC2822` item, the writer `to_rfc2822` uses, so that an unrenderable year
/// gives `None` where `to_rfc2822` would panic) and `DateTime::timestamp`. Claimed:
/// `Some` exactly when the text parses, and then the two names above. The text of the
/// UNIX epoch, `Thu, 1 Jan 1970 00:00:00 +0000`, parses, has timestamp 0 and is
/// written back unchanged.
#[verifier::external_body]
fn parse_feed_date(text: &str) -> (r: Option<(Option<String>, i64)>)
    ensures
        r is Some <==> feed_date_parses(text@),
        text@ == epoch_date_text() ==> r is Some,
        r matches Some(p) ==> (text@ == epoch_date_text() ==> p.1 == 0 && opt_chars(p.0) == Some(
            epoch_date_text(),
        )),
        r matches Some(p) ==> opt_chars(p.0) == feed_date_rfc2822(text@) && p.1
            == feed_date_timestamp(text@),
{
    match rfc822_sanitizer::parse_from_rfc2822_with_fallback(text) {
        Ok(date) => {
            let mut shown = String::new();
            let items = [chrono::format::Item::Fixed(chrono::format::Fixed::RFC2822)];
            let rendered = match write!(shown, "{}", date.format_with_items(items.iter())) {
                Ok(()) => Some(shown),
                Err(_) => None,
            };
            Some((rendered, date.timestamp()))
        },
        Err(_) => None,
    }
}

// ---------------------------------------------------------------------------
// Podcasts
// ---------------------------------------------------------------------------

/// The text that stands for a description: sanitized HTML with its blanks tidied.
pub open spec fn cleaned_description(text: Seq<char>) -> Seq<char> {
    extra_spaces_replaced(sanitized_html(text))
}

/// The image of a podcast: the iTunes image where the channel has an iTunes
/// extension (even one without an image), else the channel's own image.
pub open spec fn podcast_image(chan: Channel) -> Option<Seq<char>> {
    match chan.itunes_ext {
        Some(ext) => opt_chars(ext.image),
        None => opt_chars(chan.image_url),
    }
}

/// The podcast that `new_podcast` builds from a channel.
pub open spec fn podcast_of(chan: Channel, source_id: i32) -> NewPodcastView {
    NewPodcastView {
        title: trim(chan.title@),
        link: url_without_query(chan.link@),
        description: cleaned_description(chan.description@),
        image_uri: podcast_image(chan),
        source_id,
    }
}

fn cleaned_description_of(text: &str) -> (r: String)
    ensures
        r@ == cleaned_description(text@),
{
    let html = clean_html(text);
    replace_extra_spaces(html.as_str())
}

fn clone_opt(o: &Option<String>) -> (r: Option<String>)
    ensures
        opt_chars(r) == opt_chars(*o),
{
    match o {
        Some(s) => Some(s.clone()),
        None => None,
    }
}

/// Parses a channel into a [`NewPodcast`]: the trimmed title, the description
/// sanitized and tidied, the link without its query, and the image (see
/// `podcast_image`).
pub fn new_podcast(chan: &Channel, source_id: i32) -> (p: NewPodcast)
    ensures
        p@ == podcast_of(*chan, source_id),
{
    let title = trim_str(chan.title.as_str());
    let description = cleaned_description_of(chan.description.as_str());
    let link = url_cleaner(chan.link.as_str());
    let image_uri = match &chan.itunes_ext {
        Some(ext) => clone_opt(&ext.image),
        None => clone_opt(&chan.image_url),
    };
    NewPodcast { title, link, description, image_uri, source_id }
}


// ---------------------------------------------------------------------------
// iTunes durations
// ---------------------------------------------------------------------------

/// The number one piece of a `H:MM:SS` duration counts for: what it parses to as an
/// `i32`, else 0.
pub open spec fn clock_part(p: Seq<char>) -> int {
    match parsed_i32(p) {
        Some(v) => v as int,
        None => 0,
    }
}

/// Whether an integer fits in an `i32`.
pub open spec fn fits_i32(x: int) -> bool {
    i32::MIN <= x <= i32::MAX
}

/// The seconds of a duration written as `H:MM:SS` (three pieces) or `MM:SS` (two
/// pieces); 0 for any other number of pieces.
pub open spec fn clock_seconds(d: Seq<char>) -> int {
    let p = split_on(d, ':');
    if p.len() == 3 {
        clock_part(p[0]) * 3600 + clock_part(p[1]) * 60 + clock_part(p[2])
    } else if p.len() == 2 {
        clock_part(p[0]) * 60 + clock_part(p[1])
    } else {
        0
    }
}

/// Whether every product and partial sum of `clock_seconds`, taken in the order
/// hours, minutes, seconds, fits in an `i32`.
pub open spec fn clock_fits(d: Seq<char>) -> bool {
    let p = split_on(d, ':');
    if p.len() == 3 {
        let h = clock_part(p[0]) * 3600;
        let m = clock_part(p[1]) * 60;
        fits_i32(h) && fits_i32(m) && fits_i32(h + m) && fits_i32(h + m + clock_part(p[2]))
    } else if p.len() == 2 {
        let m = clock_part(p[0]) * 60;
        fits_i32(m) && fits_i32(m + clock_part(p[1]))
    } else {
        true
    }
}

/// The seconds an iTunes duration stands for: the number itself where it is a plain
/// `i32`, else `clock_seconds`.
pub open spec fn duration_seconds(d: Seq<char>) -> i32 {
    match parsed_i32(d) {
        Some(n) => n,
        None => clock_seconds(d) as i32,
    }
}

/// Whether computing `duration_seconds` in `i32` arithmetic stays in range.
pub open spec fn duration_fits(d: Seq<char>) -> bool {
    parsed_i32(d) is Some || clock_fits(d)
}

/// The duration of an item in seconds, where its iTunes extension gives one.
pub open spec fn item_duration(item: Item) -> Option<i32> {
    match item.itunes_ext {
        Some(ext) => match ext.duration {
            Some(d) => Some(duration_seconds(d@)),
            None => None,
        },
        None => None,
    }
}

/// Whether the duration of an item, if it has one, can be computed in `i32`.
pub open spec fn item_duration_fits(item: Item) -> bool {
    match item.itunes_ext {
        Some(ext) => match ext.duration {
            Some(d) => duration_fits(d@),
            None => true,
        },
        None => true,
    }
}

fn clock_part_of(p: &Vec<char>) -> (r: i32)
    ensures
        r as int == clock_part(p@),
{
    match parse_i32(p) {
        Some(v) => v,
        None => 0,
    }
}

fn duration_seconds_of(d: &str) -> (r: i32)
    requires
        duration_fits(d@),
    ensures
        r == duration_seconds(d@),
{
    let v = chars_of(d);
    if let Some(n) = parse_i32(&v) {
        return n;
    }
    let parts = split_chars(&v, ':');
    let ghost p = split_on(d@, ':');
    let mut seconds: i32 = 0;
    if parts.len() == 3 {
        assert(parts@[0]@ == p[0] && parts@[1]@ == p[1] && parts@[2]@ == p[2]);
        seconds += clock_part_of(&parts[0]) * 3600;
        seconds += clock_part_of(&parts[1]) * 60;
        seconds += clock_part_of(&parts[2]);
    } else if parts.len() == 2 {
        assert(parts@[0]@ == p[0] && parts@[1]@ == p[1]);
        seconds += clock_part_of(&parts[0]) * 60;
        seconds += clock_part_of(&parts[1]);
    }
    seconds
}

/// Whether an item's duration can be computed: `parse_itunes_duration` and
/// `new_episode` require it.
pub fn itunes_duration_fits(item: &Item) -> (b: bool)
    ensures
        b == item_duration_fits(*item),
{
    let d = match &item.itunes_ext {
        Some(ext) => match &ext.duration {
            Some(d) => d,
            None => return true,
        },
        None => return true,
    };
    let v = chars_of(d.as_str());
    if parse_i32(&v).is_some() {
        return true;
    }
    let parts = split_chars(&v, ':');
    let ghost p = split_on(d@, ':');
    if parts.len() == 3 {
        assert(parts@[0]@ == p[0] && parts@[1]@ == p[1] && parts@[2]@ == p[2]);
        let h = clock_part_of(&parts[0]) as i64 * 3600;
        let m = clock_part_of(&parts[1]) as i64 * 60;
        let s = clock_part_of(&parts[2]) as i64;
        fits(h) && fits(m) && fits(h + m) && fits(h + m + s)
    } else if parts.len() == 2 {
        assert(parts@[0]@ == p[0] && parts@[1]@ == p[1]);
        let m = clock_part_of(&parts[0]) as i64 * 60;
        let s = clock_part_of(&parts[1]) as i64;
        fits(m) && fits(m + s)
    } else {
        true
    }
}

fn fits(x: i64) -> (b: bool)
    ensures
        b == fits_i32(x as int),
{
    -0x8000_0000 <= x && x <= 0x7fff_ffff
}

/// Parses the iTunes duration of an item into seconds. The extension writes it either
/// as a number of seconds or as `H:MM:SS` or `MM:SS`; pieces that are not numbers
/// count as 0, and any other number of pieces gives 0.
pub fn parse_itunes_duration(item: &Item) -> (r: Option<i32>)
    requires
        item_duration_fits(*item),
    ensures
        r == item_duration(*item),
{
    match &item.itunes_ext {
        Some(ext) => match &ext.duration {
            Some(d) => Some(duration_seconds_of(d.as_str())),
            None => None,
        },
        None => None,
    }
}


// ---------------------------------------------------------------------------
// Episodes
// ---------------------------------------------------------------------------

/// Why an item cannot become an episode.
#[derive(Debug, PartialEq, Eq, Structural, Clone, Copy)]
pub enum ItemError {
    /// The item has no title.
    NoTitle,
    /// The item has neither an enclosure nor a link.
    NoUrl,
}

/// The RFC 2822 text of the UNIX epoch, which stands for a missing publication date.
pub open spec fn epoch_date_text() -> Seq<char> {
    "Thu, 1 Jan 1970 00:00:00 +0000"@
}

/// The date text of an item: its `pubDate`, else the epoch.
pub open spec fn item_date_text(item: Item) -> Seq<char> {
    match item.pub_date {
        Some(d) => d@,
        None => epoch_date_text(),
    }
}

/// The URI of an episode: the enclosure's URL, else the item's link, without query.
pub open spec fn episode_uri(item: Item) -> Option<Seq<char>> {
    match item.enclosure {
        Some(e) => Some(url_without_query(e.url@)),
        None => match item.link {
            Some(l) => Some(url_without_query(l@)),
            None => None,
        },
    }
}

/// The episode that `new_episode` builds from an item, or why it builds none.
pub open spec fn episode_of(item: Item, parent_id: i32) -> Result<NewEpisodeView, ItemError> {
    if item.title is None {
        Err(ItemError::NoTitle)
    } else if episode_uri(item) is None {
        Err(ItemError::NoUrl)
    } else {
        let date = item_date_text(item);
        Ok(
            NewEpisodeView {
                title: trim(item.title->0@),
                uri: episode_uri(item),
                description: match item.description {
                    Some(d) => Some(cleaned_description(d@)),
                    None => None,
                },
                published_date: if feed_date_parses(date) {
                    feed_date_rfc2822(date)
                } else {
                    None
                },
                length: match item.enclosure {
                    Some(e) => parsed_i32(e.length@),
                    None => None,
                },
                duration: item_duration(item),
                guid: match item.guid {
                    Some(g) => Some(trim(g@)),
                    None => None,
                },
                epoch: if feed_date_parses(date) {
                    feed_date_timestamp(date) as i32
                } else {
                    0
                },
                podcast_id: parent_id,
            },
        )
    }
}

/// Whether the date of an item, where it parses, can be written back in RFC 2822
/// (chrono's `to_rfc2822` panics on a year outside 0 to 9999).
pub open spec fn item_date_renderable(item: Item) -> bool {
    feed_date_parses(item_date_text(item)) ==> feed_date_rfc2822(item_date_text(item)) is Some
}

/// Whether an item's date, where it parses, can be written back: `new_episode`
/// requires it.
pub fn item_date_fits(item: &Item) -> (b: bool)
    ensures
        b == item_date_renderable(*item),
        item.pub_date is None ==> b,
{
    let date_text: &str = match &item.pub_date {
        Some(d) => d.as_str(),
        None => "Thu, 1 Jan 1970 00:00:00 +0000",
    };
    match parse_feed_date(date_text) {
        Some((text, _)) => text.is_some(),
        None => true,
    }
}

/// What a call of `new_episode` returned, by its contents.
pub open spec fn episode_result_view(r: Result<NewEpisode, ItemError>) -> Result<
    NewEpisodeView,
    ItemError,
> {
    match r {
        Ok(e) => Ok(e@),
        Err(err) => Err(err),
    }
}

/// Parses an item into a [`NewEpisode`]. It fails without a title or without a URL
/// (neither enclosure nor link). The description is sanitized and tidied, title and
/// guid are trimmed, the URI loses its query, the date is parsed leniently (the
/// epoch where the item has none, and an epoch of 0 where it does not parse), the
/// length is the enclosure's length where it is an `i32`, and the duration is that of
/// `parse_itunes_duration`. It requires what parsing needs to not panic: a duration
/// that fits in an `i32` and a date that can be written back (`try_new_episode`
/// tests both first).
pub fn new_episode(item: &Item, parent_id: i32) -> (r: Result<NewEpisode, ItemError>)
    requires
        item_duration_fits(*item),
        item_date_renderable(*item),
    ensures
        episode_result_view(r) == episode_of(*item, parent_id),
        item.pub_date is None ==> (r matches Ok(e) ==> e.epoch == 0 && opt_chars(e.published_date)
            == Some(epoch_date_text())),
{
    let title = match &item.title {
        Some(t) => trim_str(t.as_str()),
        None => return Err(ItemError::NoTitle),
    };
    let description = match &item.description {
        Some(d) => Some(cleaned_description_of(d.as_str())),
        None => None,
    };
    let guid = match &item.guid {
        Some(g) => Some(trim_str(g.as_str())),
        None => None,
    };
    let uri = match &item.enclosure {
        Some(e) => url_cleaner(e.url.as_str()),
        None => match &item.link {
            Some(l) => url_cleaner(l.as_str()),
            None => return Err(ItemError::NoUrl),
        },
    };
    let date_text: &str = match &item.pub_date {
        Some(d) => d.as_str(),
        None => "Thu, 1 Jan 1970 00:00:00 +0000",
    };
    let (published_date, epoch) = match parse_feed_date(date_text) {
        Some((text, timestamp)) => (text, #[verifier::truncate] (timestamp as i32)),
        None => (None, 0),
    };
    let length = match &item.enclosure {
        Some(e) => parse_i32(&chars_of(e.length.as_str())),
        None => None,
    };
    let duration = parse_itunes_duration(item);
    Ok(
        NewEpisode {
            title,
            uri: Some(uri),
            description,
            published_date,
            length,
            duration,
            guid,
            epoch,
            podcast_id: parent_id,
        },
    )
}


// ---------------------------------------------------------------------------
// Laws of durations
// ---------------------------------------------------------------------------

/// A duration written as a plain number of seconds is that number.
pub proof fn lemma_plain_duration(n: i32)
    ensures
        duration_fits(decimal(n as int)),
        duration_seconds(decimal(n as int)) == n,
{
    lemma_parse_decimal_roundtrip(n);
}

/// Text with a `:` after a leading digit is no plain number.
proof fn lemma_not_plain(d: Seq<char>, k: int)
    requires
        0 < k < d.len(),
        is_digit(d[0]),
        d[k] == ':',
    ensures
        parsed_i32(d) is None,
{
    assert(('-' as u32) == 45 && ('+' as u32) == 43 && (':' as u32) == 58);
    assert(!is_digit(d[k]));
}

/// `H:MM:SS` written with natural numbers is worth `H * 3600 + MM * 60 + SS` seconds,
/// where that sum fits in an `i32`.
pub proof fn lemma_clock_duration(h: i32, m: i32, sec: i32)
    requires
        0 <= h,
        0 <= m,
        0 <= sec,
        h * 3600 + m * 60 + sec <= i32::MAX,
    ensures
        duration_fits(decimal(h as int) + seq![':'] + decimal(m as int) + seq![':'] + decimal(
            sec as int,
        )),
        duration_seconds(
            decimal(h as int) + seq![':'] + decimal(m as int) + seq![':'] + decimal(sec as int),
        ) == h * 3600 + m * 60 + sec,
{
    let a = decimal(h as int);
    let b = decimal(m as int);
    let c = decimal(sec as int);
    let d = a + seq![':'] + b + seq![':'] + c;
    lemma_decimal_digits(h as int);
    lemma_decimal_digits(m as int);
    lemma_decimal_digits(sec as int);
    lemma_parse_decimal_roundtrip(h);
    lemma_parse_decimal_roundtrip(m);
    lemma_parse_decimal_roundtrip(sec);
    lemma_split_single(a, ':');
    lemma_split_append_piece(a, b, ':');
    lemma_split_append_piece(a + seq![':'] + b, c, ':');
    assert(split_on(d, ':') =~= seq![a, b, c]);
    assert(d[0] == a[0]);
    assert(d[a.len() as int] == ':');
    lemma_not_plain(d, a.len() as int);
    assert(h * 3600 <= i32::MAX) by (nonlinear_arith)
        requires
            0 <= h,
            0 <= m,
            0 <= sec,
            h * 3600 + m * 60 + sec <= i32::MAX,
    ;
}

/// `MM:SS` written with natural numbers is worth `MM * 60 + SS` seconds, where that
/// sum fits in an `i32`.
pub proof fn lemma_minutes_duration(m: i32, sec: i32)
    requires
        0 <= m,
        0 <= sec,
        m * 60 + sec <= i32::MAX,
    ensures
        duration_fits(decimal(m as int) + seq![':'] + decimal(sec as int)),
        duration_seconds(decimal(m as int) + seq![':'] + decimal(sec as int)) == m * 60 + sec,
{
    let a = decimal(m as int);
    let c = decimal(sec as int);
    let d = a + seq![':'] + c;
    lemma_decimal_digits(m as int);
    lemma_decimal_digits(sec as int);
    lemma_parse_decimal_roundtrip(m);
    lemma_parse_decimal_roundtrip(sec);
    lemma_split_single(a, ':');
    lemma_split_append_piece(a, c, ':');
    assert(split_on(d, ':') =~= seq![a, c]);
    assert(d[0] == a[0]);
    assert(d[a.len() as int] == ':');
    lemma_not_plain(d, a.len() as int);
}


/// `new_episode` where its inputs admit it: `None` for an item whose duration
/// overflows an `i32` or whose date cannot be written back in RFC 2822, the two
/// cases in which parsing the item panics; else what `new_episode` returns.
pub fn try_new_episode(item: &Item, parent_id: i32) -> (r: Option<Result<NewEpisode, ItemError>>)
    ensures
        r is None <==> !(item_duration_fits(*item) && item_date_renderable(*item)),
        item.pub_date is None && item_duration_fits(*item) ==> r is Some,
        item.pub_date is None ==> (r matches Some(Ok(e)) ==> e.epoch == 0 && opt_chars(
            e.published_date,
        ) == Some(epoch_date_text())),
        r matches Some(e) ==> episode_result_view(e) == episode_of(*item, parent_id),
{
    if itunes_duration_fits(item) && item_date_fits(item) {
        Some(new_episode(item, parent_id))
    } else {
        None
    }
}

// ---------------------------------------------------------------------------
// Laws of podcasts and episodes
// ---------------------------------------------------------------------------

/// An item becomes an episode exactly when it has a title and an enclosure or a link.
pub proof fn lemma_episode_success(item: Item, parent_id: i32)
    ensures
        episode_of(item, parent_id) is Ok <==> item.title is Some && (item.enclosure is Some
            || item.link is Some),
        item.title is None ==> episode_of(item, parent_id) == Err::<NewEpisodeView, ItemError>(
            ItemError::NoTitle,
        ),
        item.title is Some && item.enclosure is None && item.link is None ==> episode_of(
            item,
            parent_id,
        ) == Err::<NewEpisodeView, ItemError>(ItemError::NoUrl),
{
}

/// The text a parsed podcast holds is already clean: trimming its title, tidying its
/// description or cleaning its link again changes nothing.
pub proof fn lemma_podcast_fields_clean(chan: Channel, source_id: i32)
    ensures
        trim(podcast_of(chan, source_id).title) == podcast_of(chan, source_id).title,
        extra_spaces_replaced(podcast_of(chan, source_id).description) == podcast_of(
            chan,
            source_id,
        ).description,
        url_without_query(podcast_of(chan, source_id).link) == podcast_of(chan, source_id).link,
{
    lemma_trim_idempotent(chan.title@);
    lemma_replace_extra_spaces_idempotent(sanitized_html(chan.description@));
    lemma_url_cleaner_idempotent(chan.link@);
}

/// The text a parsed episode holds is already clean: trimming its title or guid,
/// tidying its description or cleaning its URI again changes nothing.
pub proof fn lemma_episode_fields_clean(item: Item, parent_id: i32)
    requires
        episode_of(item, parent_id) is Ok,
    ensures
        ({
            let e = episode_of(item, parent_id)->Ok_0;
            &&& trim(e.title) == e.title
            &&& e.guid matches Some(g) ==> trim(g) == g
            &&& e.description matches Some(d) ==> extra_spaces_replaced(d) == d
            &&& e.uri matches Some(u) ==> url_without_query(u) == u
        }),
{
    lemma_trim_idempotent(item.title->0@);
    if let Some(g) = item.guid {
        lemma_trim_idempotent(g@);
    }
    if let Some(d) = item.description {
        lemma_replace_extra_spaces_idempotent(sanitized_html(d@));
    }
    match item.enclosure {
        Some(e) => lemma_url_cleaner_idempotent(e.url@),
        None => if let Some(l) = item.link {
            lemma_url_cleaner_idempotent(l@);
        },
    }
}


/// Where the item's date text parses, the episode's publication date is chrono's
/// RFC 2822 rendering of the parsed date and its epoch the date's timestamp, cut to
/// an `i32`, however the feed wrote the date; where it does not parse, there is no
/// publication date and the epoch is 0. Without a `pubDate` the date text is the
/// RFC 2822 text of the UNIX epoch.
pub proof fn lemma_published_date_rendered(item: Item, parent_id: i32)
    requires
        episode_of(item, parent_id) is Ok,
    ensures
        ({
            let e = episode_of(item, parent_id)->Ok_0;
            let d = match item.pub_date {
                Some(p) => p@,
                None => "Thu, 1 Jan 1970 00:00:00 +0000"@,
            };
            &&& feed_date_parses(d) ==> e.published_date == feed_date_rfc2822(d)
                && e.epoch == feed_date_timestamp(d) as i32
            &&& !feed_date_parses(d) ==> e.published_date is None && e.epoch == 0
        }),
{
}

/// The image of a podcast is that of the channel's iTunes extension whenever the
/// channel has one, whatever the channel's own image; only a channel without an
/// iTunes extension takes its own image.
pub proof fn lemma_podcast_image(chan: Channel, source_id: i32)
    ensures
        ({
            let image = podcast_of(chan, source_id).image_uri;
            match chan.itunes_ext {
                Some(ext) => match ext.image {
                    Some(i) => image == Some(i@),
                    None => image is None,
                },
                None => match chan.image_url {
                    Some(i) => image == Some(i@),
                    None => image is None,
                },
            }
        }),
{
}

/// A piece of a clock duration that parses as an `i32` counts for exactly that
/// number; any other piece counts for 0.
pub proof fn lemma_clock_part_value(p: Seq<char>)
    ensures
        parsed_i32(p) matches Some(v) ==> clock_part(p) == v,
        parsed_i32(p) is None ==> clock_part(p) == 0,
{
}

/// Text holding a `:` is no plain number.
proof fn lemma_colon_not_plain(d: Seq<char>, k: int)
    requires
        0 <= k < d.len(),
        d[k] == ':',
    ensures
        parsed_i32(d) is None,
{
    assert(('-' as u32) == 45 && ('+' as u32) == 43 && (':' as u32) == 58);
    assert(!is_digit(d[k]));
    if k == 0 {
        assert(d[0] != '-' && d[0] != '+');
    } else {
        assert(d.drop_first()[k - 1] == ':');
    }
}

/// `H:M:S`, whatever the pieces look like (zero-padded or signed), is worth
/// `H * 3600 + M * 60 + S` seconds, where each piece parses as that `i32` and every
/// step of the sum fits in an `i32`.
pub proof fn lemma_clock_pieces(a: Seq<char>, b: Seq<char>, c: Seq<char>, h: i32, m: i32, sec: i32)
    requires
        parsed_i32(a) == Some(h),
        parsed_i32(b) == Some(m),
        parsed_i32(c) == Some(sec),
        forall|i: int| 0 <= i < a.len() ==> #[trigger] a[i] != ':',
        forall|i: int| 0 <= i < b.len() ==> #[trigger] b[i] != ':',
        forall|i: int| 0 <= i < c.len() ==> #[trigger] c[i] != ':',
        i32::MIN <= h * 3600 <= i32::MAX,
        i32::MIN <= m * 60 <= i32::MAX,
        i32::MIN <= h * 3600 + m * 60 <= i32::MAX,
        i32::MIN <= h * 3600 + m * 60 + sec <= i32::MAX,
    ensures
        duration_fits(a + seq![':'] + b + seq![':'] + c),
        duration_seconds(a + seq![':'] + b + seq![':'] + c) == h * 3600 + m * 60 + sec,
{
    let d = a + seq![':'] + b + seq![':'] + c;
    lemma_split_single(a, ':');
    lemma_split_append_piece(a, b, ':');
    lemma_split_append_piece(a + seq![':'] + b, c, ':');
    assert(split_on(d, ':') =~= seq![a, b, c]);
    assert(d[a.len() as int] == ':');
    lemma_colon_not_plain(d, a.len() as int);
}

/// `M:S`, whatever the pieces look like, is worth `M * 60 + S` seconds, where each
/// piece parses as that `i32` and every step of the sum fits in an `i32`.
pub proof fn lemma_minute_pieces(b: Seq<char>, c: Seq<char>, m: i32, sec: i32)
    requires
        parsed_i32(b) == Some(m),
        parsed_i32(c) == Some(sec),
        forall|i: int| 0 <= i < b.len() ==> #[trigger] b[i] != ':',
        forall|i: int| 0 <= i < c.len() ==> #[trigger] c[i] != ':',
        i32::MIN <= m * 60 <= i32::MAX,
        i32::MIN <= m * 60 + sec <= i32::MAX,
    ensures
        duration_fits(b + seq![':'] + c),
        duration_seconds(b + seq![':'] + c) == m * 60 + sec,
{
    let d = b + seq![':'] + c;
    lemma_split_single(b, ':');
    lemma_split_append_piece(b, c, ':');
    assert(split_on(d, ':') =~= seq![b, c]);
    assert(d[b.len() as int] == ':');
    lemma_colon_not_plain(d, b.len() as int);
}


/// What each field of an episode is made of: the title and guid trimmed, the
/// description sanitized by ammonia and tidied, the URI that of the enclosure where
/// there is one and else the link, without query, the length that of the enclosure
/// where it parses as an `i32`, the duration from the iTunes extension, and the
/// podcast id as given.
pub proof fn lemma_episode_fields(item: Item, parent_id: i32)
    requires
        item.title is Some,
        item.enclosure is Some || item.link is Some,
    ensures
        episode_of(item, parent_id) is Ok,
        ({
            let e = episode_of(item, parent_id)->Ok_0;
            &&& e.title == trim(item.title->0@)
            &&& e.guid == match item.guid {
                Some(g) => Some(trim(g@)),
                None => None::<Seq<char>>,
            }
            &&& e.description == match item.description {
                Some(d) => Some(extra_spaces_replaced(sanitized_html(d@))),
                None => None::<Seq<char>>,
            }
            &&& item.enclosure matches Some(enc) ==> e.uri == Some(url_without_query(enc.url@))
                && e.length == parsed_i32(enc.length@)
            &&& item.enclosure is None ==> e.uri == Some(url_without_query(item.link->0@))
                && e.length is None
            &&& e.duration == match item.itunes_ext {
                Some(ext) => match ext.duration {
                    Some(d) => Some(duration_seconds(d@)),
                    None => None::<i32>,
                },
                None => None::<i32>,
            }
            &&& e.podcast_id == parent_id
        }),
{
}

/// What each field of a podcast is made of: the title trimmed, the link without
/// query, the description sanitized by ammonia and tidied, and the source id as given.
pub proof fn lemma_podcast_fields(chan: Channel, source_id: i32)
    ensures
        podcast_of(chan, source_id).title == trim(chan.title@),
        podcast_of(chan, source_id).link == url_without_query(chan.link@),
        podcast_of(chan, source_id).description == extra_spaces_replaced(
            sanitized_html(chan.description@),
        ),
        podcast_of(chan, source_id).source_id == source_id,
{
}


/// A duration that is no plain number and is not made of two or three pieces between
/// `:` is worth 0 seconds; a plain number is worth itself.
pub proof fn lemma_other_durations(d: Seq<char>)
    ensures
        parsed_i32(d) matches Some(n) ==> duration_seconds(d) == n,
        parsed_i32(d) is None && split_on(d, ':').len() != 2 && split_on(d, ':').len() != 3
            ==> duration_seconds(d) == 0 && duration_fits(d),
{
}

} // verus!
