use hammond::feed::{Channel, Enclosure, Item, ItunesChannelExtension, ItunesItemExtension};
use hammond::text::{replace_extra_spaces, trim_str, url_cleaner};
use hammond::parser::{
    item_date_fits, itunes_duration_fits, new_episode, new_podcast, parse_itunes_duration,
    try_new_episode, ItemError,
};

fn s(x: &str) -> String {
    x.to_string()
}

fn channel(title: &str, link: &str, description: &str, itunes_image: Option<Option<&str>>, image: Option<&str>) -> Channel {
    Channel {
        title: s(title),
        description: s(description),
        link: s(link),
        itunes_ext: itunes_image.map(|i| ItunesChannelExtension { image: i.map(s) }),
        image_url: image.map(s),
    }
}

fn item() -> Item {
    Item {
        title: Some(s("  An episode \n")),
        description: None,
        guid: None,
        enclosure: Some(Enclosure { url: s("http://example.org/ep.mp3?src=rss"), length: s("1234") }),
        link: None,
        pub_date: None,
        itunes_ext: None,
    }
}

fn with_duration(d: &str) -> Item {
    Item { itunes_ext: Some(ItunesItemExtension { duration: Some(s(d)) }), ..item() }
}

#[test]
fn podcast_from_intercepted_channel() {
    let descr = "The people behind The Intercept’s fearless reporting and incisive \
                 commentary—Jeremy Scahill, Glenn Greenwald, Betsy Reed and others—discuss \
                 the crucial issues of our time: national security, civil liberties, foreign \
                 policy, and criminal justice. Plus interviews with artists, thinkers, and \
                 newsmakers who challenge our preconceptions about the world we live in.";
    let img = "http://static.megaphone.fm/podcasts/d5735a50-d904-11e6-8532-73c7de466ea6/image/\
               uploads_2F1484252190700-qhn5krasklbce3dh-a797539282700ea0298a3a26f7e49b0b_\
               2FIntercepted_COVER%2B_281_29.png";
    let chan = channel(
        "  Intercepted with Jeremy Scahill\n",
        "https://theintercept.com/podcasts",
        descr,
        Some(Some(img)),
        Some("http://other.example/image.png"),
    );
    let pd = new_podcast(&chan, 0);
    assert_eq!(pd.title(), "Intercepted with Jeremy Scahill");
    assert_eq!(pd.link(), "https://theintercept.com/podcasts");
    assert_eq!(pd.description(), descr);
    assert_eq!(pd.image_uri(), Some(img));
    assert_eq!(pd.source_id(), 0);
}

#[test]
fn podcast_from_r4explanation_channel() {
    let chan = channel(
        "Request For Explanation",
        "https://request-for-explanation.github.io/podcast/",
        "  A weekly   discussion of Rust RFCs\t",
        None,
        Some("https://request-for-explanation.github.io/podcast/podcast.png"),
    );
    let pd = new_podcast(&chan, 3);
    assert_eq!(pd.title(), "Request For Explanation");
    assert_eq!(pd.link(), "https://request-for-explanation.github.io/podcast/");
    assert_eq!(pd.description(), "A weekly discussion of Rust RFCs");
    assert_eq!(pd.image_uri(), Some("https://request-for-explanation.github.io/podcast/podcast.png"));
    assert_eq!(pd.source_id(), 3);
}

#[test]
fn podcast_prefers_itunes_extension_even_without_image() {
    let chan = channel("t", "http://l.org/?x=1", "d", Some(None), Some("http://img.png"));
    let pd = new_podcast(&chan, 1);
    assert_eq!(pd.image_uri(), None);
    assert_eq!(pd.link(), "http://l.org/");
}

#[test]
fn podcast_description_is_sanitized() {
    let chan = channel(
        "t",
        "l",
        "<p>Hi   there <script>alert(1)</script></p>",
        None,
        None,
    );
    let pd = new_podcast(&chan, 0);
    assert_eq!(pd.description(), "<p>Hi there </p>");
}

#[test]
fn episode_needs_a_title() {
    let it = Item { title: None, ..item() };
    assert_eq!(new_episode(&it, 0).err(), Some(ItemError::NoTitle));
}

#[test]
fn episode_needs_a_url() {
    let it = Item { enclosure: None, link: None, ..item() };
    assert_eq!(new_episode(&it, 0).err(), Some(ItemError::NoUrl));
    let it = Item { enclosure: None, link: None, title: None, ..item() };
    assert_eq!(new_episode(&it, 0).err(), Some(ItemError::NoTitle));
}

#[test]
fn episode_falls_back_to_link() {
    let it = Item { enclosure: None, link: Some(s("https://r.io/ep9/?utm=x")), ..item() };
    let ep = new_episode(&it, 7).unwrap();
    assert_eq!(ep.uri(), Some("https://r.io/ep9/"));
    assert_eq!(ep.length(), None);
    assert_eq!(ep.podcast_id(), 7);
}

#[test]
fn episode_fields() {
    let it = Item {
        description: Some(s("  Audit   your network &amp; more\n\n\n<b>now</b>  ")),
        guid: Some(s("  78A682B4-73E8-47B8-88C0-1BE62DD4EF9D ")),
        pub_date: Some(s("Tue, 12 Sep 2017 22:24:42 -0700")),
        ..item()
    };
    let ep = new_episode(&it, 2).unwrap();
    assert_eq!(ep.title(), "An episode");
    assert_eq!(ep.uri(), Some("http://example.org/ep.mp3"));
    assert_eq!(ep.description(), Some("Audit your network &amp; more\n<b>now</b>"));
    assert_eq!(ep.guid(), Some("78A682B4-73E8-47B8-88C0-1BE62DD4EF9D"));
    assert_eq!(ep.published_date(), Some("Tue, 12 Sep 2017 22:24:42 -0700"));
    assert_eq!(ep.epoch(), 1505280282);
    assert_eq!(ep.length(), Some(1234));
    assert_eq!(ep.duration(), None);
    assert_eq!(ep.podcast_id(), 2);
}

#[test]
fn episode_dates() {
    let it = Item { pub_date: Some(s("Wed, 13 Sep 2017 10:00:00 +0000")), ..item() };
    let ep = new_episode(&it, 0).unwrap();
    assert_eq!(ep.published_date(), Some("Wed, 13 Sep 2017 10:00:00 +0000"));
    assert_eq!(ep.epoch(), 1505296800);

    // A date that only the sanitizer's fallback can read (long month name).
    let it = Item { pub_date: Some(s("Wed, 13 September 2017 10:00:00 +0000")), ..item() };
    let ep = new_episode(&it, 0).unwrap();
    assert_eq!(ep.epoch(), 1505296800);

    let it = Item { pub_date: None, ..item() };
    let ep = new_episode(&it, 0).unwrap();
    assert_eq!(ep.published_date(), Some("Thu, 1 Jan 1970 00:00:00 +0000"));
    assert_eq!(ep.epoch(), 0);

    let it = Item { pub_date: Some(s("not a date")), ..item() };
    let ep = new_episode(&it, 0).unwrap();
    assert_eq!(ep.published_date(), None);
    assert_eq!(ep.epoch(), 0);
}

#[test]
fn episode_length_must_be_an_i32() {
    let it = Item { enclosure: Some(Enclosure { url: s("u"), length: s("66738886") }), ..item() };
    assert_eq!(new_episode(&it, 0).unwrap().length(), Some(66738886));
    let it = Item { enclosure: Some(Enclosure { url: s("u"), length: s("12 MB") }), ..item() };
    assert_eq!(new_episode(&it, 0).unwrap().length(), None);
    let it = Item { enclosure: Some(Enclosure { url: s("u"), length: s("3000000000") }), ..item() };
    assert_eq!(new_episode(&it, 0).unwrap().length(), None);
}

#[test]
fn itunes_durations() {
    assert_eq!(parse_itunes_duration(&item()), None);
    let no_duration = Item { itunes_ext: Some(ItunesItemExtension { duration: None }), ..item() };
    assert_eq!(parse_itunes_duration(&no_duration), None);
    assert_eq!(parse_itunes_duration(&with_duration("3600")), Some(3600));
    assert_eq!(parse_itunes_duration(&with_duration("01:02:03")), Some(3723));
    assert_eq!(parse_itunes_duration(&with_duration("1:02:03")), Some(3723));
    assert_eq!(parse_itunes_duration(&with_duration("5:30")), Some(330));
    assert_eq!(parse_itunes_duration(&with_duration("x:30")), Some(30));
    assert_eq!(parse_itunes_duration(&with_duration("1:2:3:4")), Some(0));
    assert_eq!(parse_itunes_duration(&with_duration("abc")), Some(0));
    assert_eq!(parse_itunes_duration(&with_duration("")), Some(0));
    assert_eq!(new_episode(&with_duration("45:00"), 0).unwrap().duration(), Some(2700));
}

#[test]
fn itunes_duration_range() {
    assert!(itunes_duration_fits(&item()));
    assert!(itunes_duration_fits(&with_duration("596523:14:07")));
    assert_eq!(parse_itunes_duration(&with_duration("596523:14:07")), Some(i32::MAX));
    assert!(!itunes_duration_fits(&with_duration("596524:00:00")));
    assert!(!itunes_duration_fits(&with_duration("99999999:00")));
    assert!(itunes_duration_fits(&with_duration("99999999999")));
    assert_eq!(parse_itunes_duration(&with_duration("99999999999")), Some(0));
}

#[test]
fn parsed_fields_are_already_clean() {
    let chan = channel(" \tT  ", "http://x.org/p?q#f", " a \n\n b <em>c</em> ", None, None);
    let pd = new_podcast(&chan, 0);
    assert_eq!(trim_str(pd.title()), pd.title());
    assert_eq!(replace_extra_spaces(pd.description()), pd.description());
    assert_eq!(url_cleaner(pd.link()), pd.link());
    let it = Item { description: Some(s(" x \t y ")), guid: Some(s(" g ")), ..item() };
    let ep = new_episode(&it, 0).unwrap();
    assert_eq!(trim_str(ep.title()), ep.title());
    assert_eq!(trim_str(ep.guid().unwrap()), ep.guid().unwrap());
    assert_eq!(replace_extra_spaces(ep.description().unwrap()), ep.description().unwrap());
    assert_eq!(url_cleaner(ep.uri().unwrap()), ep.uri().unwrap());
}

#[test]
fn dates_past_year_9999_are_refused() {
    assert!(item_date_fits(&item()));
    let ok = Item { pub_date: Some(s("Wed, 13 Sep 2017 10:00:00 +0000")), ..item() };
    assert!(item_date_fits(&ok));
    assert_eq!(try_new_episode(&ok, 0).unwrap().unwrap().epoch(), 1505296800);
    let unparsed = Item { pub_date: Some(s("not a date")), ..item() };
    assert!(item_date_fits(&unparsed));
    let far = Item { pub_date: Some(s("1 Jan 12345 00:00:00 +0000")), ..item() };
    assert!(!item_date_fits(&far));
    assert!(try_new_episode(&far, 0).is_none());
    assert!(try_new_episode(&with_duration("596524:00:00"), 0).is_none());
    assert_eq!(try_new_episode(&Item { title: None, ..item() }, 0).unwrap().err(), Some(ItemError::NoTitle));
}
