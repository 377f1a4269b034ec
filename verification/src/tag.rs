//! Frames as plain values, and the tag container of the `id3` crate behind
//! contracts that state what each of its operations does to the frames it
//! holds.

use vstd::prelude::*;
use vstd::string::StringSliceAdditionalSpecFns;

verus! {

/// What a frame carries, as far as this library reads it.
pub enum Content {
    /// Plain text.
    Text(String),
    /// User-defined text: several may share an id, told apart by their
    /// description.
    ExtendedText { description: String, value: String },
    /// Any other kind of content; never read and never written here.
    Other,
}

/// One field of a tag: a four-byte id and its content.
pub struct Frame {
    pub id: String,
    pub content: Content,
}

/// Mathematical value of a `Content`.
pub enum ContentView {
    Text(Seq<char>),
    ExtendedText { description: Seq<char>, value: Seq<char> },
    Other,
}

/// Mathematical value of a `Frame`.
pub struct FrameView {
    pub id: Seq<char>,
    pub content: ContentView,
}

impl View for Content {
    type V = ContentView;

    open spec fn view(&self) -> ContentView {
        match self {
            Content::Text(t) => ContentView::Text(t@),
            Content::ExtendedText { description, value } => ContentView::ExtendedText {
                description: description@,
                value: value@,
            },
            Content::Other => ContentView::Other,
        }
    }
}

impl View for Frame {
    type V = FrameView;

    open spec fn view(&self) -> FrameView {
        FrameView { id: self.id@, content: self.content@ }
    }
}

impl Content {
    /// A copy with the same value.
    pub fn duplicate(&self) -> (r: Content)
        ensures
            r@ == self@,
    {
        match self {
            Content::Text(t) => Content::Text(t.clone()),
            Content::ExtendedText { description, value } => Content::ExtendedText {
                description: description.clone(),
                value: value.clone(),
            },
            Content::Other => Content::Other,
        }
    }
}

impl Frame {
    /// A text frame.
    pub fn text(id: &str, text: &str) -> (r: Frame)
        ensures
            r@ == (FrameView { id: id@, content: ContentView::Text(text@) }),
    {
        Frame { id: String::from_str(id), content: Content::Text(String::from_str(text)) }
    }

    /// A user-defined text frame.
    pub fn extended_text(id: &str, description: &str, value: &str) -> (r: Frame)
        ensures
            r@ == (FrameView {
                id: id@,
                content: ContentView::ExtendedText { description: description@, value: value@ },
            }),
    {
        Frame {
            id: String::from_str(id),
            content: Content::ExtendedText {
                description: String::from_str(description),
                value: String::from_str(value),
            },
        }
    }

    /// A copy with the same value.
    pub fn duplicate(&self) -> (r: Frame)
        ensures
            r@ == self@,
    {
        Frame { id: self.id.clone(), content: self.content.duplicate() }
    }
}

/// The values of a list of frames, in order.
pub open spec fn frame_views(frames: Seq<Frame>) -> Seq<FrameView> {
    frames.map_values(|f: Frame| f@)
}

/// Whether `id` is encoded in four bytes, as the ids of every current tag
/// version are.
pub open spec fn is_frame_id(id: Seq<char>) -> bool {
    vstd::utf8::encode_utf8(id).len() == 4
}

/// Whether `id` is four bytes long.
pub fn check_frame_id(id: &str) -> (r: bool)
    ensures
        r == is_frame_id(id@),
{
    let bytes = id.as_bytes();
    proof {
        assert(id.spec_bytes() == vstd::utf8::encode_utf8(id@));
    }
    bytes.len() == 4
}

/// The test that a frame passes unless its id is `id`.
pub open spec fn not_id(id: Seq<char>) -> spec_fn(FrameView) -> bool {
    |f: FrameView| f.id != id
}

/// The test that a frame passes if `remove_extended_text` keeps it when
/// asked to drop the user-defined text described as `description`.
pub open spec fn outlives(description: Seq<char>) -> spec_fn(FrameView) -> bool {
    |f: FrameView| survives_description(f, description)
}

/// What is known of a tag's frames once `added` has been handed to it: the
/// new frame stands last and the frames of other ids are as before; where no
/// frame of the same id is of a kind this library does not read, the frames
/// are exactly those of `with_frame`.
pub open spec fn frame_added(
    before: Seq<FrameView>,
    added: FrameView,
    after: Seq<FrameView>,
) -> bool {
    &&& after.len() > 0
    &&& after.last() == added
    &&& after.filter(not_id(added.id)) == before.filter(not_id(added.id))
    &&& !is_link_pair_id(added.id) && !has_unread_rival(before, added.id) ==> after == with_frame(
        before,
        added,
    )
}

/// Whether a tag that holds `existing` gives it up when `added` arrives:
/// same id, and both plain text or both user-defined text with one
/// description.
pub open spec fn frames_conflict(existing: FrameView, added: FrameView) -> bool {
    existing.id == added.id && match (existing.content, added.content) {
        (ContentView::Text(_), ContentView::Text(_)) => true,
        (
            ContentView::ExtendedText { description: d1, .. },
            ContentView::ExtendedText { description: d2, .. },
        ) => d1 == d2,
        _ => false,
    }
}

/// Position of the first frame that conflicts with `added`, or the length of
/// `frames` if none does.
pub open spec fn first_conflict(frames: Seq<FrameView>, added: FrameView) -> int
    decreases frames.len(),
{
    if frames.len() == 0 {
        0
    } else if frames_conflict(frames[0], added) {
        0
    } else {
        1 + first_conflict(frames.drop_first(), added)
    }
}

/// The frames after `added` has replaced the first frame it conflicts with,
/// or has joined them if it conflicts with none. The new frame stands last
/// either way.
pub open spec fn with_frame(frames: Seq<FrameView>, added: FrameView) -> Seq<FrameView> {
    let k = first_conflict(frames, added);
    if k < frames.len() {
        frames.remove(k).push(added)
    } else {
        frames.push(added)
    }
}

/// Whether some frame with the id `id` has content this library does not
/// read.
pub open spec fn has_unread_rival(frames: Seq<FrameView>, id: Seq<char>) -> bool {
    exists|j: int|
        0 <= j < frames.len() && #[trigger] frames[j].id == id && frames[j].content is Other
}

/// Whether `id` is one of the two link ids whose frames are told apart by
/// their link, not by their kind.
pub open spec fn is_link_pair_id(id: Seq<char>) -> bool {
    id == "WCOM"@ || id == "WOAR"@
}

/// Whether `remove_extended_text` keeps a frame when asked to drop the
/// user-defined text described as `description`.
pub open spec fn survives_description(f: FrameView, description: Seq<char>) -> bool {
    f.id != "TXXX"@ || match f.content {
        ContentView::ExtendedText { description: d, .. } => d != description,
        _ => false,
    }
}

#[verifier::external_type_specification]
#[verifier::external_body]
pub struct ExTag(id3::Tag);

/// The frames that a tag holds, in the order in which the tag hands them out.
pub uninterp spec fn tag_frames(tag: id3::Tag) -> Seq<FrameView>;

/// The human-readable name that `id3` gives to a frame id.
pub uninterp spec fn frame_name_of(id: Seq<char>) -> Seq<char>;

/// `id3::Tag::new`: a tag without frames.
#[verifier::external_body]
pub(crate) fn tag_new() -> (tag: id3::Tag)
    ensures
        tag_frames(tag) == Seq::<FrameView>::empty(),
{
    id3::Tag::new()
}

/// `id3::Tag::frames`, each frame copied out as a plain value: id, and the
/// text or the description and value where the content is of those kinds.
#[verifier::external_body]
pub(crate) fn tag_read_frames(tag: &id3::Tag) -> (frames: Vec<Frame>)
    ensures
        frame_views(frames@) == tag_frames(*tag),
{
    tag.frames().map(|f| Frame {
        id: f.id().to_string(),
        content: match f.content() {
            id3::Content::Text(t) => Content::Text(t.clone()),
            id3::Content::ExtendedText(e) => Content::ExtendedText {
                description: e.description.clone(),
                value: e.value.clone(),
            },
            _ => Content::Other,
        },
    }).collect()
}

/// `id3::Frame::name` of every frame of the tag, in the tag's order. The
/// name is a function of the frame's id alone.
#[verifier::external_body]
pub(crate) fn tag_frame_names(tag: &id3::Tag) -> (names: Vec<String>)
    ensures
        names@.len() == tag_frames(*tag).len(),
        forall|i: int|
            0 <= i < names@.len() ==> (#[trigger] names@[i])@ == frame_name_of(
                tag_frames(*tag)[i].id,
            ),
{
    tag.frames().map(|f| f.name().to_string()).collect()
}

/// `id3::TagLike::add_frame` with a frame built by `id3::Frame::text` or
/// `id3::Frame::with_content`. The new frame always ends up last and frames
/// with other ids stay as they are. Which frame it replaces is stated where
/// every frame of the same id has content that this library reads.
#[verifier::external_body]
pub(crate) fn tag_add_frame(tag: &mut id3::Tag, frame: &Frame)
    requires
        is_frame_id(frame@.id),
        !(frame@.content is Other),
    ensures
        frame_added(tag_frames(*old(tag)), frame@, tag_frames(*final(tag))),
{
    match &frame.content {
        Content::Text(t) => {
            id3::TagLike::add_frame(tag, id3::Frame::text(&frame.id, t.clone()));
        },
        Content::ExtendedText { description, value } => {
            let (description, value) = (description.clone(), value.clone());
            let content = id3::Content::ExtendedText(id3::frame::ExtendedText { description, value });
            id3::TagLike::add_frame(tag, id3::Frame::with_content(&frame.id, content));
        },
        Content::Other => {},
    }
}

/// `id3::TagLike::remove`: every frame with the id leaves, the others keep
/// their order.
#[verifier::external_body]
pub(crate) fn tag_remove(tag: &mut id3::Tag, id: &str)
    ensures
        tag_frames(*final(tag)) == tag_frames(*old(tag)).filter(not_id(id@)),
{
    id3::TagLike::remove(tag, id);
}

/// `id3::TagLike::remove_extended_text` with a description and no value:
/// among the frames with the user-defined text id, those with that
/// description and those whose content is not user-defined text leave.
#[verifier::external_body]
pub(crate) fn tag_remove_extended_text(tag: &mut id3::Tag, description: &str)
    ensures
        tag_frames(*final(tag)) == tag_frames(*old(tag)).filter(outlives(description@)),
{
    id3::TagLike::remove_extended_text(tag, Some(description), None);
}

} // verus!
