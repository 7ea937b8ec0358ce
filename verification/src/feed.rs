//! What the parser reads of a feed, and the podcast and episode records it builds.
use vstd::prelude::*;

verus! {

/// The characters of an optional string.
pub open spec fn opt_chars(o: Option<String>) -> Option<Seq<char>> {
    match o {
        Some(s) => Some(s@),
        None => None,
    }
}

/// The iTunes extension of a channel: the part of it the parser reads.
pub struct ItunesChannelExtension {
    /// The `itunes:image` of the channel, if it has one.
    pub image: Option<String>,
}

/// A feed's channel: the part of it the parser reads.
pub struct Channel {
    pub title: String,
    pub description: String,
    pub link: String,
    /// The channel's iTunes extension, if it has one.
    pub itunes_ext: Option<ItunesChannelExtension>,
    /// The URL of the channel's `image`, if it has one.
    pub image_url: Option<String>,
}

/// An item's enclosure: the media file of the episode.
pub struct Enclosure {
    pub url: String,
    /// The size in bytes, as the feed writes it.
    pub length: String,
}

/// The iTunes extension of an item: the part of it the parser reads.
pub struct ItunesItemExtension {
    /// The `itunes:duration` of the item, as the feed writes it.
    pub duration: Option<String>,
}

/// An item of a feed's channel: the part of it the parser reads.
pub struct Item {
    pub title: Option<String>,
    pub description: Option<String>,
    /// The value of the item's `guid`.
    pub guid: Option<String>,
    pub enclosure: Option<Enclosure>,
    pub link: Option<String>,
    pub pub_date: Option<String>,
    pub itunes_ext: Option<ItunesItemExtension>,
}

/// A podcast as the parser builds it from a channel.
pub struct NewPodcast {
    pub title: String,
    pub link: String,
    pub description: String,
    pub image_uri: Option<String>,
    pub source_id: i32,
}

/// The contents of a [`NewPodcast`].
pub struct NewPodcastView {
    pub title: Seq<char>,
    pub link: Seq<char>,
    pub description: Seq<char>,
    pub image_uri: Option<Seq<char>>,
    pub source_id: i32,
}

impl View for NewPodcast {
    type V = NewPodcastView;

    open spec fn view(&self) -> NewPodcastView {
        NewPodcastView {
            title: self.title@,
            link: self.link@,
            description: self.description@,
            image_uri: opt_chars(self.image_uri),
            source_id: self.source_id,
        }
    }
}

/// An episode as the parser builds it from an item.
pub struct NewEpisode {
    pub title: String,
    pub uri: Option<String>,
    pub description: Option<String>,
    pub published_date: Option<String>,
    pub length: Option<i32>,
    pub duration: Option<i32>,
    pub guid: Option<String>,
    pub epoch: i32,
    pub podcast_id: i32,
}

/// The contents of a [`NewEpisode`].
pub struct NewEpisodeView {
    pub title: Seq<char>,
    pub uri: Option<Seq<char>>,
    pub description: Option<Seq<char>>,
    pub published_date: Option<Seq<char>>,
    pub length: Option<i32>,
    pub duration: Option<i32>,
    pub guid: Option<Seq<char>>,
    pub epoch: i32,
    pub podcast_id: i32,
}

impl View for NewEpisode {
    type V = NewEpisodeView;

    open spec fn view(&self) -> NewEpisodeView {
        NewEpisodeView {
            title: self.title@,
            uri: opt_chars(self.uri),
            description: opt_chars(self.description),
            published_date: opt_chars(self.published_date),
            length: self.length,
            duration: self.duration,
            guid: opt_chars(self.guid),
            epoch: self.epoch,
            podcast_id: self.podcast_id,
        }
    }
}

/// Borrows the string inside an optional string.
pub fn opt_as_str(o: &Option<String>) -> (r: Option<&str>)
    ensures
        r is Some <==> o is Some,
        r matches Some(s) ==> o matches Some(t) && s@ == t@,
{
    match o {
        Some(s) => Some(s.as_str()),
        None => None,
    }
}

impl NewPodcast {
    pub fn title(&self) -> (r: &str)
        ensures
            r@ == self.title@,
    {
        self.title.as_str()
    }

    pub fn link(&self) -> (r: &str)
        ensures
            r@ == self.link@,
    {
        self.link.as_str()
    }

    pub fn description(&self) -> (r: &str)
        ensures
            r@ == self.description@,
    {
        self.description.as_str()
    }

    pub fn image_uri(&self) -> (r: Option<&str>)
        ensures
            r is Some <==> self.image_uri is Some,
            r matches Some(s) ==> s@ == self.image_uri->0@,
    {
        opt_as_str(&self.image_uri)
    }

    pub fn source_id(&self) -> (r: i32)
        ensures
            r == self.source_id,
    {
        self.source_id
    }
}

impl NewEpisode {
    pub fn title(&self) -> (r: &str)
        ensures
            r@ == self.title@,
    {
        self.title.as_str()
    }

    pub fn uri(&self) -> (r: Option<&str>)
        ensures
            r is Some <==> self.uri is Some,
            r matches Some(s) ==> s@ == self.uri->0@,
    {
        opt_as_str(&self.uri)
    }

    pub fn description(&self) -> (r: Option<&str>)
        ensures
            r is Some <==> self.description is Some,
            r matches Some(s) ==> s@ == self.description->0@,
    {
        opt_as_str(&self.description)
    }

    pub fn published_date(&self) -> (r: Option<&str>)
        ensures
            r is Some <==> self.published_date is Some,
            r matches Some(s) ==> s@ == self.published_date->0@,
    {
        opt_as_str(&self.published_date)
    }

    pub fn guid(&self) -> (r: Option<&str>)
        ensures
            r is Some <==> self.guid is Some,
            r matches Some(s) ==> s@ == self.guid->0@,
    {
        opt_as_str(&self.guid)
    }

    pub fn length(&self) -> (r: Option<i32>)
        ensures
            r == self.length,
    {
        self.length
    }

    pub fn duration(&self) -> (r: Option<i32>)
        ensures
            r == self.duration,
    {
        self.duration
    }

    pub fn epoch(&self) -> (r: i32)
        ensures
            r == self.epoch,
    {
        self.epoch
    }

    pub fn podcast_id(&self) -> (r: i32)
        ensures
            r == self.podcast_id,
    {
        self.podcast_id
    }
}

} // verus!
