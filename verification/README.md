# hammond

The feed-parsing and episode-display logic of the Hammond podcast client, written in
Verus and proved against its contracts.

- `src/text.rs`: trimming (Unicode whitespace), collapsing runs of blanks, stripping
  the query of a URL, decimal integers (parsing as `str::parse::<i32>` does, and
  writing), splitting on a separator; with their laws.
- `src/feed.rs`: what the parser reads of a feed (channel, items) and the podcast and
  episode records it builds.
- `src/parser.rs`: `new_podcast`, `new_episode`, `parse_itunes_duration`, the calls
  into ammonia and rfc822_sanitizer, and the laws of durations and parsed fields.
- `src/labels.rs`: the date, duration and size labels of an episode row, with the
  calls into chrono and humansize.
- `app/`: a command-line reader that loads an RSS file with the `rss` crate, converts
  it and prints what the library makes of it.
