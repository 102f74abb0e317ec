use vstd::prelude::*;

use crate::now_playing::{NowPlaying, NowPlayingView};

verus! {

/// The track part of a media label: "title - artist", either of them alone, else the
/// album, else the application, else nothing.
pub open spec fn track_text(np: NowPlayingView) -> Seq<char> {
    match (np.title, np.artist) {
        (Some(title), Some(artist)) => title + " - "@ + artist,
        (Some(title), None) => title,
        (None, Some(artist)) => artist,
        (None, None) => match np.album {
            Some(album) => album,
            None => match np.app {
                Some(app) => app,
                None => Seq::empty(),
            },
        },
    }
}

/// The media label: empty when there is no track text, otherwise a play (`>`) or pause
/// (`||`) mark, a space and the track text.
pub open spec fn media_label_text(np: NowPlayingView) -> Seq<char> {
    let track = track_text(np);
    if track.len() == 0 {
        Seq::empty()
    } else {
        (if np.playing {
            ">"@
        } else {
            "||"@
        }) + " "@ + track
    }
}

/// How a piece of the header is drawn.
#[derive(Clone, Copy, Debug, PartialEq, Eq)]
pub enum SpanStyle {
    /// The program name: bold cyan.
    Title,
    /// Spacing: default style.
    Plain,
    /// The audio source: magenta.
    Source,
    /// The media label: gray.
    Media,
    /// The key hint: dark gray.
    Hint,
}

/// A piece of the header line with its style.
pub struct HeaderSpan {
    pub text: String,
    pub style: SpanStyle,
}

/// The pieces of a header line as values.
pub open spec fn spans_view(spans: Seq<HeaderSpan>) -> Seq<(Seq<char>, SpanStyle)> {
    spans.map_values(|span: HeaderSpan| (span.text@, span.style))
}

/// Total number of characters of the pieces.
pub open spec fn total_chars(spans: Seq<(Seq<char>, SpanStyle)>) -> nat
    decreases spans.len(),
{
    if spans.len() == 0 {
        0
    } else {
        total_chars(spans.drop_last()) + spans.last().0.len()
    }
}

/// The header pieces before the key hint: name, source and, when there is one, the media label.
pub open spec fn header_body(np: Option<NowPlayingView>) -> Seq<(Seq<char>, SpanStyle)> {
    let base = seq![
        ("soundbar"@, SpanStyle::Title),
        ("  "@, SpanStyle::Plain),
        ("system audio"@, SpanStyle::Source),
    ];
    match np {
        Some(n) => if media_label_text(n).len() > 0 {
            base + seq![("  "@, SpanStyle::Plain), (media_label_text(n), SpanStyle::Media)]
        } else {
            base
        },
        None => base,
    }
}

/// The header line: its body, then the "q to quit" hint when the width exceeds the body's
/// characters by more than twelve.
pub open spec fn header_text(np: Option<NowPlayingView>, width: u16) -> Seq<(Seq<char>, SpanStyle)> {
    let body = header_body(np);
    if width > total_chars(body) + 12 {
        body + seq![("  "@, SpanStyle::Plain), ("q to quit"@, SpanStyle::Hint)]
    } else {
        body
    }
}

/// The label that describes the current track, or an empty text when nothing names it.
pub fn media_label(now_playing: &NowPlaying) -> (r: String)
    ensures
        r@ == media_label_text(now_playing@),
{
    let track = match (&now_playing.title, &now_playing.artist) {
        (Some(title), Some(artist)) => {
            let mut text = title.clone();
            text.append(" - ");
            text.append(artist.as_str());
            text
        },
        (Some(title), None) => title.clone(),
        (None, Some(artist)) => artist.clone(),
        (None, None) => match &now_playing.album {
            Some(album) => album.clone(),
            None => match &now_playing.app {
                Some(app) => app.clone(),
                None => String::new(),
            },
        },
    };
    if track.unicode_len() == 0 {
        String::new()
    } else {
        let mut label = if now_playing.playing {
            String::from_str(">")
        } else {
            String::from_str("||")
        };
        label.append(" ");
        label.append(track.as_str());
        label
    }
}

/// Appends a piece to the header line.
fn push_span(spans: &mut Vec<HeaderSpan>, text: &str, style: SpanStyle)
    ensures
        spans_view(final(spans)@) == spans_view(old(spans)@).push((text@, style)),
{
    spans.push(HeaderSpan { text: String::from_str(text), style });
    assert(spans_view(final(spans)@) =~= spans_view(old(spans)@).push((text@, style)));
}

/// Number of characters of all pieces of a header line.
fn count_chars(spans: &Vec<HeaderSpan>) -> (r: u128)
    ensures
        r == total_chars(spans_view(spans@)),
        r <= spans.len() * 0x1_0000_0000_0000_0000,
{
    let ghost all = spans_view(spans@);
    let mut total: u128 = 0;
    let mut index: usize = 0;
    assert(all.take(0) =~= Seq::<(Seq<char>, SpanStyle)>::empty());
    while index < spans.len()
        invariant
            all == spans_view(spans@),
            index <= spans.len(),
            total == total_chars(all.take(index as int)),
            total <= index * 0x1_0000_0000_0000_0000,
        decreases spans@.len() - index,
    {
        let count = spans[index].text.as_str().unicode_len();
        assert(all.take(index + 1).drop_last() =~= all.take(index as int));
        total = total + count as u128;
        index = index + 1;
    }
    assert(all.take(spans@.len() as int) =~= all);
    total
}

/// The pieces of the header line for the current track and terminal width.
pub fn header_line(now_playing: Option<&NowPlaying>, width: u16) -> (r: Vec<HeaderSpan>)
    ensures
        spans_view(r@) == header_text(
            match now_playing {
                Some(n) => Some(n@),
                None => None,
            },
            width,
        ),
{
    let mut spans: Vec<HeaderSpan> = Vec::new();
    push_span(&mut spans, "soundbar", SpanStyle::Title);
    push_span(&mut spans, "  ", SpanStyle::Plain);
    push_span(&mut spans, "system audio", SpanStyle::Source);
    if let Some(now_playing) = now_playing {
        let label = media_label(now_playing);
        if label.unicode_len() != 0 {
            push_span(&mut spans, "  ", SpanStyle::Plain);
            push_span(&mut spans, label.as_str(), SpanStyle::Media);
        }
    }
    let ghost body = spans_view(spans@);
    assert(body =~= header_body(
        match now_playing {
            Some(n) => Some(n@),
            None => None,
        },
    ));
    let used = count_chars(&spans);
    if (width as u128) > used + 12 {
        push_span(&mut spans, "  ", SpanStyle::Plain);
        push_span(&mut spans, "q to quit", SpanStyle::Hint);
    }
    spans
}

/// The mark that opens a media label: `>` and a space for a playing track, `||` and a
/// space for a paused one.
pub open spec fn mark_of(playing: bool) -> Seq<char> {
    if playing {
        seq!['>', ' ']
    } else {
        seq!['|', '|', ' ']
    }
}

/// A non-empty media label opens with `> ` exactly when the track is playing and with
/// `|| ` exactly when it is paused, whichever field its text comes from; toggling the
/// playing flag changes nothing but that mark.
pub proof fn law_media_label_mark(np: NowPlayingView)
    ensures
        media_label_text(np).len() > 0 ==> {
            &&& (media_label_text(np)[0] == '>' <==> np.playing)
            &&& (media_label_text(np)[0] == '|' <==> !np.playing)
            &&& media_label_text(np).take(mark_of(np.playing).len() as int) == mark_of(np.playing)
        },
        media_label_text(np).len() > 0 ==> media_label_text(np).skip(
            mark_of(np.playing).len() as int,
        ) == media_label_text(NowPlayingView { playing: !np.playing, ..np }).skip(
            mark_of(!np.playing).len() as int,
        ),
        media_label_text(np).len() == 0 <==> media_label_text(
            NowPlayingView { playing: !np.playing, ..np },
        ).len() == 0,
{
    reveal_strlit(">");
    reveal_strlit("||");
    reveal_strlit(" ");
    let label = media_label_text(np);
    if label.len() > 0 {
        assert(label.take(mark_of(np.playing).len() as int) =~= mark_of(np.playing));
        assert(label.skip(mark_of(np.playing).len() as int) =~= track_text(np));
        let other = NowPlayingView { playing: !np.playing, ..np };
        assert(track_text(other) == track_text(np));
        assert(media_label_text(other).skip(mark_of(!np.playing).len() as int) =~= track_text(np));
    }
}

/// After its mark, the media label names the track: "title - artist" when both are given,
/// else the one given, else the album, else the application; a track that names nothing
/// has an empty label.
pub proof fn law_media_label_names_the_track(np: NowPlayingView)
    ensures
        np.title matches Some(t) ==> (np.artist matches Some(a) ==> media_label_text(np) == mark_of(
            np.playing,
        ) + t + seq![' ', '-', ' '] + a),
        np.title matches Some(t) ==> (np.artist is None && t.len() > 0 ==> media_label_text(np)
            == mark_of(np.playing) + t),
        np.artist matches Some(a) ==> (np.title is None && a.len() > 0 ==> media_label_text(np)
            == mark_of(np.playing) + a),
        np.album matches Some(al) ==> (np.title is None && np.artist is None && al.len() > 0
            ==> media_label_text(np) == mark_of(np.playing) + al),
        np.app matches Some(ap) ==> (np.title is None && np.artist is None && np.album is None
            && ap.len() > 0 ==> media_label_text(np) == mark_of(np.playing) + ap),
        np.title is None && np.artist is None && np.album is None && np.app is None
            ==> media_label_text(np).len() == 0,
        np.title matches Some(t) ==> (np.artist is None && t.len() == 0 ==> media_label_text(
            np,
        ).len() == 0),
        np.artist matches Some(a) ==> (np.title is None && a.len() == 0 ==> media_label_text(
            np,
        ).len() == 0),
        np.album matches Some(al) ==> (np.title is None && np.artist is None && al.len() == 0
            ==> media_label_text(np).len() == 0),
        np.app matches Some(ap) ==> (np.title is None && np.artist is None && np.album is None
            && ap.len() == 0 ==> media_label_text(np).len() == 0),
{
    reveal_strlit(">");
    reveal_strlit("||");
    reveal_strlit(" ");
    reveal_strlit(" - ");
    let label = media_label_text(np);
    let mark = mark_of(np.playing);
    match (np.title, np.artist) {
        (Some(t), Some(a)) => {
            assert(track_text(np) =~= t + seq![' ', '-', ' '] + a);
            assert(label =~= mark + t + seq![' ', '-', ' '] + a);
        },
        (Some(t), None) => {
            if t.len() > 0 {
                assert(label =~= mark + t);
            }
        },
        (None, Some(a)) => {
            if a.len() > 0 {
                assert(label =~= mark + a);
            }
        },
        (None, None) => {
            if track_text(np).len() > 0 {
                assert(label =~= mark + track_text(np));
            }
        },
    }
}

/// The header always opens with the program name, a spacer and the audio source.
pub proof fn law_header_opens_with_name_and_source(np: Option<NowPlayingView>, width: u16)
    ensures
        header_text(np, width).len() >= 3,
        header_text(np, width)[0] == ("soundbar"@, SpanStyle::Title),
        header_text(np, width)[1] == ("  "@, SpanStyle::Plain),
        header_text(np, width)[2] == ("system audio"@, SpanStyle::Source),
{
}

/// When a track with a non-empty media label is given, that label follows the source
/// after a two-space spacer as the header's only media piece, playing or paused.
pub proof fn law_header_shows_the_media_label(np: NowPlayingView, width: u16)
    requires
        media_label_text(np).len() > 0,
    ensures
        header_text(Some(np), width).len() >= 5,
        header_text(Some(np), width)[3] == ("  "@, SpanStyle::Plain),
        header_text(Some(np), width)[4] == (media_label_text(np), SpanStyle::Media),
        forall|i: int|
            0 <= i < header_text(Some(np), width).len() && i != 4 ==> (#[trigger] header_text(
                Some(np),
                width,
            )[i]).1 != SpanStyle::Media,
{
}

/// Without a track, or with one whose label is empty, the header holds no media piece.
pub proof fn law_header_without_label(np: Option<NowPlayingView>, width: u16)
    requires
        np matches Some(n) ==> media_label_text(n).len() == 0,
    ensures
        forall|i: int|
            0 <= i < header_text(np, width).len() ==> (#[trigger] header_text(np, width)[i]).1
                != SpanStyle::Media,
        header_text(np, width).len() == 3 || header_text(np, width).len() == 5,
{
}

/// The header ends in a spacer and the "q to quit" hint exactly when the width exceeds
/// by more than twelve the characters of everything before them; otherwise it holds no hint.
pub proof fn law_header_hint_fits(np: Option<NowPlayingView>, width: u16)
    ensures
        ({
            let h = header_text(np, width);
            if h.last().1 == SpanStyle::Hint {
                &&& h.len() >= 5
                &&& h[h.len() - 2] == ("  "@, SpanStyle::Plain)
                &&& h.last().0 == "q to quit"@
                &&& width > total_chars(h.take(h.len() - 2)) + 12
            } else {
                &&& width <= total_chars(h) + 12
                &&& forall|i: int| 0 <= i < h.len() ==> (#[trigger] h[i]).1 != SpanStyle::Hint
            }
        }),
{
    let body = header_body(np);
    let h = header_text(np, width);
    if width > total_chars(body) + 12 {
        assert(h.take(h.len() - 2) =~= body);
    }
}

} // verus!
