//! The catalog of frame kinds that can be added to a tag, and the
//! translation between frame ids and the names used for them.

use vstd::prelude::*;
use crate::text::str_eq;

verus! {

/// One supported kind of frame.
#[derive(Debug, Clone, Copy)]
pub struct FrameData {
    pub name: &'static str,
    pub id: &'static str,
    pub description: &'static str,
}

/// Number of supported frame kinds.
pub const SUPPORTED_FRAME_COUNT: usize = 7;

/// What the content group frame is for.
pub const CONTENT_GROUP: &'static str =
    "The 'Content group description' frame is used if the sound belongs to a larger category of sounds/music. For example, classical music is often sorted in different musical sections (e.g. \"Piano Concerto\", \"Weather - Hurricane\").";

/// What the title frame is for.
pub const TITLE: &'static str =
    "The 'Title/Songname/Content description' frame is the actual name of the piece (e.g. \"Adagio\", \"Hurricane Donna\").";

/// What the album frame is for.
pub const ALBUM: &'static str =
    "The 'Album/Movie/Show title' frame is intended for the title of the recording (or source of sound) from which the audio in the file is taken.";

/// What the artist frame is for.
pub const ARTIST: &'static str =
    "The 'Lead artist/Lead performer/Soloist/Performing group' is used for the main artist.";

/// What the track frame is for.
pub const TRACK: &'static str =
    "The 'Track number/Position in set' frame is a numeric string containing the order number of the audio-file on its original recording. This MAY be extended with a \"/\" character and a numeric string containing the total number of tracks/elements on the original recording. E.g. \"4/9\".";

/// What the date frame is for.
pub const DATE: &'static str =
    "The 'Recording time' frame contains a timestamp describing when the audio was recorded.";

/// What the user-defined text frame is for.
pub const USER_DEFINED_TEXT: &'static str =
    "This frame is intended for one-string text information concerning the audio file in a similar way to the other \"T\"-frames. The frame body consists of a description of the string, represented as a terminated string, followed by the actual string. There may be more than one \"TXXX\" frame in each tag, but only one with the same description.";

/// The id of the `i`-th supported frame kind.
pub open spec fn supported_id(i: int) -> Seq<char> {
    if i == 0 {
        "TIT1"@
    } else if i == 1 {
        "TIT2"@
    } else if i == 2 {
        "TALB"@
    } else if i == 3 {
        "TPE1"@
    } else if i == 4 {
        "TRCK"@
    } else if i == 5 {
        "TDRC"@
    } else {
        "TXXX"@
    }
}

/// The name of the `i`-th supported frame kind.
pub open spec fn supported_name(i: int) -> Seq<char> {
    if i == 0 {
        "Content Group"@
    } else if i == 1 {
        "Title"@
    } else if i == 2 {
        "Album"@
    } else if i == 3 {
        "Artist"@
    } else if i == 4 {
        "Track"@
    } else if i == 5 {
        "Date"@
    } else {
        "User Defined Text"@
    }
}

/// What the `i`-th supported frame kind is for.
pub open spec fn supported_description(i: int) -> Seq<char> {
    if i == 0 {
        CONTENT_GROUP@
    } else if i == 1 {
        TITLE@
    } else if i == 2 {
        ALBUM@
    } else if i == 3 {
        ARTIST@
    } else if i == 4 {
        TRACK@
    } else if i == 5 {
        DATE@
    } else {
        USER_DEFINED_TEXT@
    }
}

/// The `i`-th supported frame kind, in the order in which the list of
/// kinds shows them.
pub fn supported_frame(i: usize) -> (r: FrameData)
    requires
        i < SUPPORTED_FRAME_COUNT,
    ensures
        r.id@ == supported_id(i as int),
        r.name@ == supported_name(i as int),
        r.description@ == supported_description(i as int),
{
    if i == 0 {
        FrameData { name: "Content Group", id: "TIT1", description: CONTENT_GROUP }
    } else if i == 1 {
        FrameData { name: "Title", id: "TIT2", description: TITLE }
    } else if i == 2 {
        FrameData { name: "Album", id: "TALB", description: ALBUM }
    } else if i == 3 {
        FrameData { name: "Artist", id: "TPE1", description: ARTIST }
    } else if i == 4 {
        FrameData { name: "Track", id: "TRCK", description: TRACK }
    } else if i == 5 {
        FrameData { name: "Date", id: "TDRC", description: DATE }
    } else {
        FrameData { name: "User Defined Text", id: "TXXX", description: USER_DEFINED_TEXT }
    }
}

/// Every supported kind has an id of four bytes, so a tag accepts it.
pub proof fn lemma_supported_ids_fit(i: int)
    ensures
        crate::tag::is_frame_id(supported_id(i)),
        supported_id(i).len() == 4,
        supported_id(i)[0] == 'T',
{
    reveal_strlit("TIT1");
    reveal_strlit("TIT2");
    reveal_strlit("TALB");
    reveal_strlit("TPE1");
    reveal_strlit("TRCK");
    reveal_strlit("TDRC");
    reveal_strlit("TXXX");
    let id = supported_id(i);
    assert(vstd::utf8::is_ascii_chars(id));
    vstd::utf8::is_ascii_chars_encode_utf8(id);
}

/// The place in the catalog, from `from` on, of the first kind with the id
/// `id`, if the catalog lists one.
pub open spec fn catalog_index(id: Seq<char>, from: int) -> Option<int>
    decreases SUPPORTED_FRAME_COUNT - from,
{
    if from < 0 || from >= SUPPORTED_FRAME_COUNT {
        None
    } else if supported_id(from) == id {
        Some(from)
    } else {
        catalog_index(id, from + 1)
    }
}

/// The display name of a frame id: the name that the catalog gives to the
/// kind with that id, and none for an id that the catalog does not list.
pub open spec fn name_of_id(id: Seq<char>) -> Option<Seq<char>> {
    match catalog_index(id, 0) {
        Some(i) => Some(supported_name(i)),
        None => None,
    }
}

/// The frame id that a template name stands for, where it stands for one.
pub open spec fn id_of_name(name: Seq<char>) -> Option<Seq<char>> {
    if name == "title"@ {
        Some("TIT2"@)
    } else if name == "track"@ {
        Some("TRCK"@)
    } else {
        None
    }
}

/// Translates a frame id to its display name, as the catalog has it; an
/// id that the catalog does not list is an error.
pub fn id_to_name(id: &str) -> (r: Result<String, String>)
    ensures
        match name_of_id(id@) {
            Some(name) => r matches Ok(s) && s@ == name,
            None => r matches Err(e) && e@ == "Frame not supported"@,
        },
{
    let mut i: usize = 0;
    while i < SUPPORTED_FRAME_COUNT
        invariant
            i <= SUPPORTED_FRAME_COUNT,
            catalog_index(id@, 0) == catalog_index(id@, i as int),
        decreases SUPPORTED_FRAME_COUNT - i,
    {
        let kind = supported_frame(i);
        if str_eq(id, kind.id) {
            return Ok(String::from_str(kind.name));
        }
        i += 1;
    }
    Err(String::from_str("Frame not supported"))
}

/// The catalog lists no id twice, so an id is translated to the name of
/// the one kind that has it, and every listed id is translated.
pub proof fn lemma_catalog_names(i: int)
    requires
        0 <= i < SUPPORTED_FRAME_COUNT,
    ensures
        catalog_index(supported_id(i), 0) == Some(i),
        name_of_id(supported_id(i)) == Some(supported_name(i)),
{
    reveal_strlit("TIT1");
    reveal_strlit("TIT2");
    reveal_strlit("TALB");
    reveal_strlit("TPE1");
    reveal_strlit("TRCK");
    reveal_strlit("TDRC");
    reveal_strlit("TXXX");
    assert("TIT1"@[3] != "TIT2"@[3]);
    assert("TIT1"@[1] != "TALB"@[1] && "TIT2"@[1] != "TALB"@[1]);
    assert("TPE1"@[1] == 'P' && "TRCK"@[1] == 'R' && "TDRC"@[1] == 'D' && "TXXX"@[1] == 'X');
    assert("TIT1"@[1] == 'I' && "TIT2"@[1] == 'I' && "TALB"@[1] == 'A');
    reveal_with_fuel(catalog_index, 8);
}

/// Translates a name used in a rename template to the frame id it stands
/// for; an unknown name is an error.
pub fn name_to_id(name: &str) -> (r: Result<String, String>)
    ensures
        match id_of_name(name@) {
            Some(id) => r matches Ok(s) && s@ == id,
            None => r matches Err(e) && e@ == "Name not recognised"@,
        },
{
    if str_eq(name, "title") {
        Ok(String::from_str("TIT2"))
    } else if str_eq(name, "track") {
        Ok(String::from_str("TRCK"))
    } else {
        Err(String::from_str("Name not recognised"))
    }
}

} // verus!
