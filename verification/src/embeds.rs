use vstd::prelude::*;
use crate::utils::{
    bold, format_duration, hyperlink, spec_bold, spec_decimal, spec_format_duration,
    spec_hyperlink, u64_to_string,
};

verus! {

/// What a playable track carries once sourced: its title, where it came
/// from, how long it runs, and an optional artwork URL.
pub struct TrackMeta {
    pub title: String,
    pub source_url: String,
    pub duration_secs: u64,
    pub thumbnail: Option<String>,
}

/// The mathematical image of a `TrackMeta`.
#[verifier::ext_equal]
pub struct TrackMetaView {
    pub title: Seq<char>,
    pub source_url: Seq<char>,
    pub duration_secs: u64,
    pub thumbnail: Option<Seq<char>>,
}

impl View for TrackMeta {
    type V = TrackMetaView;

    open spec fn view(&self) -> TrackMetaView {
        TrackMetaView {
            title: self.title@,
            source_url: self.source_url@,
            duration_secs: self.duration_secs,
            thumbnail: match self.thumbnail {
                Option::Some(t) => Option::Some(t@),
                Option::None => Option::None,
            },
        }
    }
}

/// The images of a run of tracks, in the same order.
pub open spec fn track_views(ts: Seq<TrackMeta>) -> Seq<TrackMetaView> {
    ts.map_values(|t: TrackMeta| t@)
}

/// One named field of a chat embed.
pub struct EmbedField {
    pub name: String,
    pub value: String,
    pub inline: bool,
}

/// The mathematical image of an `EmbedField`.
#[verifier::ext_equal]
pub struct EmbedFieldView {
    pub name: Seq<char>,
    pub value: Seq<char>,
    pub inline: bool,
}

impl View for EmbedField {
    type V = EmbedFieldView;

    open spec fn view(&self) -> EmbedFieldView {
        EmbedFieldView { name: self.name@, value: self.value@, inline: self.inline }
    }
}

/// A structured chat-embed payload; the transport layer turns it into the
/// gateway's wire form.
pub struct Embed {
    pub color: u32,
    pub title: Option<String>,
    pub description: Option<String>,
    pub fields: Vec<EmbedField>,
    pub thumbnail: Option<String>,
    pub image: Option<String>,
}

/// The mathematical image of an `Embed`.
#[verifier::ext_equal]
pub struct EmbedView {
    pub color: u32,
    pub title: Option<Seq<char>>,
    pub description: Option<Seq<char>>,
    pub fields: Seq<EmbedFieldView>,
    pub thumbnail: Option<Seq<char>>,
    pub image: Option<Seq<char>>,
}

impl View for Embed {
    type V = EmbedView;

    open spec fn view(&self) -> EmbedView {
        EmbedView {
            color: self.color,
            title: match self.title {
                Option::Some(t) => Option::Some(t@),
                Option::None => Option::None,
            },
            description: match self.description {
                Option::Some(d) => Option::Some(d@),
                Option::None => Option::None,
            },
            fields: self.fields@.map_values(|f: EmbedField| f@),
            thumbnail: match self.thumbnail {
                Option::Some(t) => Option::Some(t@),
                Option::None => Option::None,
            },
            image: match self.image {
                Option::Some(i) => Option::Some(i@),
                Option::None => Option::None,
            },
        }
    }
}

/// A reply a command hands back to the transport layer: plain text or an
/// embed.
pub enum Reply {
    Text(String),
    EmbedMsg(Embed),
}

/// The accent colour of the music embeds.
pub const ACCENT_COLOR: u32 = 0xA877C8;

/// The colour of the empty-queue notice.
pub const EMPTY_QUEUE_COLOR: u32 = 0xED4245;

/// The artwork shown when a track brings none of its own.
pub open spec fn spec_thumbnail_or_default(t: Option<Seq<char>>) -> Seq<char> {
    match t {
        Option::Some(s) => s,
        Option::None => "https://images.pexels.com/photos/11733110/pexels-photo-11733110.jpeg"@,
    }
}

fn thumbnail_or_default(t: &Option<String>) -> (r: String)
    ensures
        r@ == spec_thumbnail_or_default(
            match t {
                Option::Some(s) => Option::Some(s@),
                Option::None => Option::None::<Seq<char>>,
            },
        ),
{
    match t {
        Option::Some(s) => s.clone(),
        Option::None => String::from_str(
            "https://images.pexels.com/photos/11733110/pexels-photo-11733110.jpeg",
        ),
    }
}

/// The announcement for a track that was just queued up.
pub open spec fn spec_embed_queued_up(
    t: TrackMetaView,
    position_in_queue: u64,
    seconds_until: u64,
) -> EmbedView {
    EmbedView {
        color: ACCENT_COLOR,
        title: Option::Some("New song queued up"@),
        description: Option::Some(spec_bold(spec_hyperlink(t.title, t.source_url))),
        fields: seq![
            EmbedFieldView {
                name: "Duration"@,
                value: spec_format_duration(t.duration_secs),
                inline: false,
            },
            EmbedFieldView {
                name: "Position in queue"@,
                value: if position_in_queue == 1 {
                    "Next"@
                } else {
                    spec_decimal(position_in_queue as nat)
                },
                inline: false,
            },
            EmbedFieldView {
                name: "Estimated time until song is played"@,
                value: spec_format_duration(seconds_until),
                inline: false,
            },
        ],
        thumbnail: Option::Some(spec_thumbnail_or_default(t.thumbnail)),
        image: Option::None,
    }
}

/// The notice describing the track now playing, with the time it has left.
pub open spec fn spec_embed_currently_playing(t: TrackMetaView, elapsed_secs: u64) -> EmbedView
    recommends
        elapsed_secs <= t.duration_secs,
{
    EmbedView {
        color: ACCENT_COLOR,
        title: Option::None,
        description: Option::Some(
            "Now playing: "@ + spec_bold(spec_hyperlink(t.title, t.source_url)),
        ),
        fields: seq![
            EmbedFieldView {
                name: "Time remaining"@,
                value: spec_format_duration((t.duration_secs - elapsed_secs) as u64),
                inline: false,
            },
        ],
        thumbnail: Option::Some(spec_thumbnail_or_default(t.thumbnail)),
        image: Option::None,
    }
}

/// The notice shown when nothing is queued.
pub open spec fn spec_embed_empty_queue() -> EmbedView {
    EmbedView {
        color: EMPTY_QUEUE_COLOR,
        title: Option::None,
        description: Option::Some("There are no songs in the queue"@),
        fields: Seq::empty(),
        thumbnail: Option::None,
        image: Option::None,
    }
}

/// One numbered line of the queue listing; positions start at 1.
pub open spec fn spec_queue_line(t: TrackMetaView, position: int) -> Seq<char>
    recommends
        position >= 1,
{
    spec_decimal(position as nat) + ". "@ + spec_bold(spec_hyperlink(t.title, t.source_url))
        + "\n"@
}

/// The first `n` lines of the queue listing.
pub open spec fn spec_queue_lines(q: Seq<TrackMetaView>, n: int) -> Seq<char>
    recommends
        n <= q.len(),
    decreases n,
{
    if n <= 0 {
        Seq::empty()
    } else {
        spec_queue_lines(q, n - 1) + spec_queue_line(q[n - 1], n)
    }
}

/// The listing of every queued track, numbered in play order.
pub open spec fn spec_current_queue_embed(q: Seq<TrackMetaView>) -> EmbedView {
    EmbedView {
        color: ACCENT_COLOR,
        title: Option::Some("Songs queued up"@),
        description: Option::Some(spec_queue_lines(q, q.len() as int)),
        fields: Seq::empty(),
        thumbnail: Option::None,
        image: Option::None,
    }
}

/// The embed carrying one fetched inspirational image.
pub open spec fn spec_inspiration_embed(url: Seq<char>) -> EmbedView {
    EmbedView {
        color: ACCENT_COLOR,
        title: Option::None,
        description: Option::None,
        fields: Seq::empty(),
        thumbnail: Option::None,
        image: Option::Some(url),
    }
}

/// Build the announcement for a track just queued at the given position,
/// due to start playing after `seconds_until` seconds.
pub fn build_embed_queued_up(
    meta: &TrackMeta,
    position_in_queue: u64,
    seconds_until: u64,
) -> (r: Embed)
    ensures
        r@ == spec_embed_queued_up(meta@, position_in_queue, seconds_until),
{
    let mut fields: Vec<EmbedField> = Vec::new();
    fields.push(
        EmbedField {
            name: String::from_str("Duration"),
            value: format_duration(meta.duration_secs),
            inline: false,
        },
    );
    let position_text = if position_in_queue == 1 {
        String::from_str("Next")
    } else {
        u64_to_string(position_in_queue)
    };
    fields.push(
        EmbedField { name: String::from_str("Position in queue"), value: position_text, inline: false },
    );
    fields.push(
        EmbedField {
            name: String::from_str("Estimated time until song is played"),
            value: format_duration(seconds_until),
            inline: false,
        },
    );
    let r = Embed {
        color: 0xA877C8,
        title: Option::Some(String::from_str("New song queued up")),
        description: Option::Some(bold(hyperlink(meta.title.clone(), meta.source_url.clone()))),
        fields,
        thumbnail: Option::Some(thumbnail_or_default(&meta.thumbnail)),
        image: Option::None,
    };
    proof {
        assert(r@.fields =~= spec_embed_queued_up(meta@, position_in_queue, seconds_until).fields);
        assert(r@ =~= spec_embed_queued_up(meta@, position_in_queue, seconds_until));
    }
    r
}

/// Build the notice for the track now playing, `elapsed_secs` seconds in.
pub fn build_embed_currently_playing(meta: &TrackMeta, elapsed_secs: u64) -> (r: Embed)
    requires
        elapsed_secs <= meta.duration_secs,
    ensures
        r@ == spec_embed_currently_playing(meta@, elapsed_secs),
{
    let mut fields: Vec<EmbedField> = Vec::new();
    fields.push(
        EmbedField {
            name: String::from_str("Time remaining"),
            value: format_duration(meta.duration_secs - elapsed_secs),
            inline: false,
        },
    );
    let description = String::from_str("Now playing: ").concat(
        bold(hyperlink(meta.title.clone(), meta.source_url.clone())).as_str(),
    );
    let r = Embed {
        color: 0xA877C8,
        title: Option::None,
        description: Option::Some(description),
        fields,
        thumbnail: Option::Some(thumbnail_or_default(&meta.thumbnail)),
        image: Option::None,
    };
    proof {
        assert(r@.fields =~= spec_embed_currently_playing(meta@, elapsed_secs).fields);
        assert(r@ =~= spec_embed_currently_playing(meta@, elapsed_secs));
    }
    r
}

/// Build the notice shown when nothing is queued.
pub fn build_embed_empty_queue() -> (r: Embed)
    ensures
        r@ == spec_embed_empty_queue(),
{
    let r = Embed {
        color: 0xED4245,
        title: Option::None,
        description: Option::Some(String::from_str("There are no songs in the queue")),
        fields: Vec::new(),
        thumbnail: Option::None,
        image: Option::None,
    };
    proof {
        assert(r@.fields =~= spec_embed_empty_queue().fields);
        assert(r@ =~= spec_embed_empty_queue());
    }
    r
}

/// Build the listing of every queued track, numbered in play order.
pub fn build_current_queue_embed(tracks: &Vec<TrackMeta>) -> (r: Embed)
    ensures
        r@ == spec_current_queue_embed(track_views(tracks@)),
{
    let mut description = String::new();
    let mut i: usize = 0;
    while i < tracks.len()
        invariant
            i <= tracks@.len(),
            description@ == spec_queue_lines(track_views(tracks@), i as int),
        decreases tracks@.len() - i,
    {
        let t = &tracks[i];
        let line = u64_to_string(i as u64 + 1).concat(". ").concat(
            bold(hyperlink(t.title.clone(), t.source_url.clone())).as_str(),
        ).concat("\n");
        proof {
            assert(line@ =~= spec_queue_line(track_views(tracks@)[i as int], i as int + 1));
        }
        description.append(line.as_str());
        i = i + 1;
    }
    let r = Embed {
        color: 0xA877C8,
        title: Option::Some(String::from_str("Songs queued up")),
        description: Option::Some(description),
        fields: Vec::new(),
        thumbnail: Option::None,
        image: Option::None,
    };
    proof {
        assert(r@.fields =~= spec_current_queue_embed(track_views(tracks@)).fields);
        assert(r@ =~= spec_current_queue_embed(track_views(tracks@)));
    }
    r
}

} // verus!
