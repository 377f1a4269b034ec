//! File names from a template: `{name}` placeholders are found with the
//! `regex` crate, each is resolved against a tag's frames, and the results
//! are put in their place.

use vstd::prelude::*;
use crate::frame_data::{id_of_name, name_to_id};
use crate::tag::{Content, ContentView, Frame, FrameView, frame_views};
use crate::text::str_eq;

verus! {

/// The values of a list of strings, in order.
pub open spec fn string_views(v: Seq<String>) -> Seq<Seq<char>> {
    v.map_values(|s: String| s@)
}

/// The non-overlapping matches of a pattern in a text, left to right, as
/// the `regex` crate finds them; `None` where it rejects the pattern.
pub uninterp spec fn regex_matches(pattern: Seq<char>, text: Seq<char>) -> Option<Seq<Seq<char>>>;

/// Whether `from` stands at the start of `text`.
pub open spec fn starts_with(text: Seq<char>, from: Seq<char>) -> bool {
    from.len() <= text.len() && text.subrange(0, from.len() as int) == from
}

/// `text` with every match of `from` given way to `to`: matches are looked
/// for from left to right, and the search goes on behind each match. It is
/// meant for a `from` that is not empty; for an empty one it is `text`.
pub open spec fn replaced(text: Seq<char>, from: Seq<char>, to: Seq<char>) -> Seq<char>
    decreases text.len(),
{
    if from.len() == 0 || text.len() == 0 {
        text
    } else if starts_with(text, from) {
        to + replaced(text.subrange(from.len() as int, text.len() as int), from, to)
    } else {
        seq![text[0]] + replaced(text.drop_first(), from, to)
    }
}

/// `regex::Regex::new` followed by `find_iter`, each match copied out as a
/// string. The result is the one that `regex_matches` names.
#[verifier::external_body]
pub(crate) fn regex_find_all(pattern: &str, text: &str) -> (r: Option<Vec<String>>)
    ensures
        match r {
            Some(v) => regex_matches(pattern@, text@) == Some(string_views(v@)),
            None => regex_matches(pattern@, text@) is None,
        },
{
    match regex::Regex::new(pattern) {
        Ok(re) => Some(re.find_iter(text).map(|m| m.as_str().to_string()).collect()),
        Err(_) => None,
    }
}

/// `str::replace` with a pattern that is not empty: every match of `from`
/// in `text`, found from left to right without overlap, gives way to `to`,
/// and the rest of the text is copied.
#[verifier::external_body]
pub(crate) fn replace_all(text: &str, from: &str, to: &str) -> (r: String)
    requires
        from@.len() > 0,
    ensures
        r@ == replaced(text@, from@, to@),
{
    text.replace(from, to)
}

/// The name inside a placeholder: the match without its first and last
/// character.
pub open spec fn placeholder_name(m: Seq<char>) -> Seq<char> {
    if m.len() >= 2 {
        m.subrange(1, m.len() - 1)
    } else {
        Seq::empty()
    }
}

/// The first frame with the id `id`, if there is one.
pub open spec fn first_with_id(frames: Seq<FrameView>, id: Seq<char>) -> Option<FrameView>
    decreases frames.len(),
{
    if frames.len() == 0 {
        None
    } else if frames[0].id == id {
        Some(frames[0])
    } else {
        first_with_id(frames.drop_first(), id)
    }
}

/// What a placeholder stands for in a tag: the text of the first frame with
/// the id that the placeholder's name translates to. There is none if the
/// name is unknown, the frame is missing or its content is not plain text.
pub open spec fn resolved_text(frames: Seq<FrameView>, m: Seq<char>) -> Option<Seq<char>> {
    match id_of_name(placeholder_name(m)) {
        Some(id) => match first_with_id(frames, id) {
            Some(f) => match f.content {
                ContentView::Text(t) => Some(t),
                _ => None,
            },
            None => None,
        },
        None => None,
    }
}

/// Whether each of the first `n` placeholders resolves in the tag.
pub open spec fn all_resolve(frames: Seq<FrameView>, matches: Seq<Seq<char>>, n: nat) -> bool
    decreases n,
{
    n == 0 || (all_resolve(frames, matches, (n - 1) as nat) && resolved_text(
        frames,
        matches[n - 1],
    ) is Some)
}

/// The template after the first `n` placeholders have given way, one after
/// the other, to what they stand for.
pub open spec fn rendered(
    template: Seq<char>,
    frames: Seq<FrameView>,
    matches: Seq<Seq<char>>,
    n: nat,
) -> Seq<char>
    decreases n,
{
    if n == 0 {
        template
    } else {
        replaced(
            rendered(template, frames, matches, (n - 1) as nat),
            matches[n - 1],
            resolved_text(frames, matches[n - 1]).unwrap(),
        )
    }
}

/// The name that the template gives to a file with these frames, if every
/// placeholder resolves.
pub open spec fn template_name(
    template: Seq<char>,
    frames: Seq<FrameView>,
    matches: Seq<Seq<char>>,
) -> Option<Seq<char>> {
    if all_resolve(frames, matches, matches.len()) {
        Some(rendered(template, frames, matches, matches.len()))
    } else {
        None
    }
}

/// The pattern of a placeholder: a word in braces.
pub fn placeholder_pattern() -> (r: &'static str)
    ensures
        r@ == "\\{[\\w]+\\}"@,
{
    "\\{[\\w]+\\}"
}

/// The position of the first frame with the id `id`, if there is one.
pub fn position_of_id(frames: &Vec<Frame>, id: &str) -> (r: Option<usize>)
    ensures
        match r {
            Some(i) => i < frames@.len() && first_with_id(frame_views(frames@), id@) == Some(
                frames@[i as int]@,
            ),
            None => first_with_id(frame_views(frames@), id@) is None,
        },
{
    let ghost fv = frame_views(frames@);
    let mut i: usize = 0;
    proof {
        assert(fv.subrange(0, fv.len() as int) =~= fv);
    }
    while i < frames.len()
        invariant
            i <= frames@.len(),
            fv == frame_views(frames@),
            first_with_id(fv, id@) == first_with_id(fv.subrange(i as int, fv.len() as int), id@),
        decreases frames@.len() - i,
    {
        let ghost rest = fv.subrange(i as int, fv.len() as int);
        assert(rest[0] == frames@[i as int]@);
        if str_eq(frames[i].id.as_str(), id) {
            return Some(i);
        }
        proof {
            assert(rest.drop_first() =~= fv.subrange(i + 1, fv.len() as int));
        }
        i += 1;
    }
    None
}

/// Looks up what one placeholder stands for in a list of frames.
pub fn resolve_placeholder(frames: &Vec<Frame>, m: &str) -> (r: Option<String>)
    ensures
        match resolved_text(frame_views(frames@), m@) {
            Some(t) => r matches Some(s) && s@ == t,
            None => r is None,
        },
{
    let len = m.unicode_len();
    let name = if len >= 2 {
        m.substring_char(1, len - 1)
    } else {
        ""
    };
    proof {
        if len < 2 {
            reveal_strlit("");
            assert(name@ =~= Seq::<char>::empty());
        }
    }
    let id = match name_to_id(name) {
        Ok(id) => id,
        Err(_) => {
            return None;
        },
    };
    match position_of_id(frames, id.as_str()) {
        Some(i) => match &frames[i].content {
            Content::Text(t) => Some(t.clone()),
            _ => None,
        },
        None => None,
    }
}

/// The file name that the template gives for these frames, or `None` if a
/// placeholder does not resolve. `matches` are the template's placeholders
/// in the order in which they were found.
pub fn render_name(template: &str, frames: &Vec<Frame>, matches: &Vec<String>) -> (r: Option<
    String,
>)
    ensures
        match template_name(template@, frame_views(frames@), string_views(matches@)) {
            Some(name) => r matches Some(s) && s@ == name,
            None => r is None,
        },
{
    let ghost fv = frame_views(frames@);
    let ghost ms = string_views(matches@);
    let mut name = String::from_str(template);
    let mut i: usize = 0;
    while i < matches.len()
        invariant
            i <= matches@.len(),
            fv == frame_views(frames@),
            ms == string_views(matches@),
            all_resolve(fv, ms, i as nat),
            name@ == rendered(template@, fv, ms, i as nat),
        decreases matches@.len() - i,
    {
        assert(ms[i as int] == matches@[i as int]@);
        match resolve_placeholder(frames, matches[i].as_str()) {
            Some(text) => {
                proof {
                    lemma_resolved_match_is_long(fv, ms[i as int]);
                }
                name = replace_all(name.as_str(), matches[i].as_str(), text.as_str());
            },
            None => {
                proof {
                    if all_resolve(fv, ms, ms.len()) {
                        lemma_all_resolve_prefix(fv, ms, (i + 1) as nat, ms.len());
                    }
                }
                return None;
            },
        }
        i += 1;
    }
    Some(name)
}

/// A placeholder that resolves has a name between its two outer
/// characters.
pub proof fn lemma_resolved_match_is_long(frames: Seq<FrameView>, m: Seq<char>)
    requires
        resolved_text(frames, m) is Some,
    ensures
        m.len() >= 3,
{
    reveal_strlit("title");
    reveal_strlit("track");
    assert(id_of_name(placeholder_name(m)) is Some);
    assert(placeholder_name(m).len() > 0);
}

proof fn lemma_all_resolve_prefix(frames: Seq<FrameView>, matches: Seq<Seq<char>>, k: nat, n: nat)
    requires
        k <= n,
        all_resolve(frames, matches, n),
    ensures
        all_resolve(frames, matches, k),
    decreases n,
{
    if k < n {
        lemma_all_resolve_prefix(frames, matches, k, (n - 1) as nat);
    }
}

/// A stretch of text that begins with a match gives way to the new text
/// there, and the search goes on behind the match.
pub proof fn lemma_replaced_hit(rest: Seq<char>, from: Seq<char>, to: Seq<char>)
    requires
        from.len() > 0,
    ensures
        replaced(from + rest, from, to) == to + replaced(rest, from, to),
{
    let text = from + rest;
    assert(text.subrange(0, from.len() as int) =~= from);
    assert(text.subrange(from.len() as int, text.len() as int) =~= rest);
}

/// A stretch of text without the first character of what is looked for is
/// copied as it is.
pub proof fn lemma_replaced_skips(a: Seq<char>, rest: Seq<char>, from: Seq<char>, to: Seq<char>)
    requires
        from.len() > 0,
        forall|i: int| 0 <= i < a.len() ==> a[i] != from[0],
    ensures
        replaced(a + rest, from, to) == a + replaced(rest, from, to),
    decreases a.len(),
{
    let text = a + rest;
    if a.len() == 0 {
        assert(text =~= rest);
        assert(a + replaced(rest, from, to) =~= replaced(rest, from, to));
    } else {
        if starts_with(text, from) {
            assert(text.subrange(0, from.len() as int)[0] == from[0]);
            assert(text[0] == a[0]);
        }
        assert(text.drop_first() =~= a.drop_first() + rest);
        lemma_replaced_skips(a.drop_first(), rest, from, to);
        assert(seq![text[0]] + (a.drop_first() + replaced(rest, from, to)) =~= a + replaced(
            rest,
            from,
            to,
        ));
    }
}

/// One piece of a template: text between placeholders, or a placeholder,
/// given by the name between its braces.
pub enum Piece {
    Text(Seq<char>),
    Hole(Seq<char>),
}

/// A placeholder as it stands in a template: the name in braces.
pub open spec fn hole_text(name: Seq<char>) -> Seq<char> {
    seq!['{'] + name + seq!['}']
}

/// The text of a piece.
pub open spec fn piece_text(p: Piece) -> Seq<char> {
    match p {
        Piece::Text(t) => t,
        Piece::Hole(n) => hole_text(n),
    }
}

/// The pieces put together.
pub open spec fn joined(pieces: Seq<Piece>) -> Seq<char>
    decreases pieces.len(),
{
    if pieces.len() == 0 {
        Seq::empty()
    } else {
        piece_text(pieces[0]) + joined(pieces.drop_first())
    }
}

/// Whether a text holds no opening brace.
pub open spec fn plain(t: Seq<char>) -> bool {
    forall|i: int| 0 <= i < t.len() ==> t[i] != '{'
}

/// Whether a name holds no brace.
pub open spec fn word(name: Seq<char>) -> bool {
    forall|i: int| 0 <= i < name.len() ==> name[i] != '{' && name[i] != '}'
}

/// Whether the text pieces hold no opening brace and the names no brace.
pub open spec fn well_formed(pieces: Seq<Piece>) -> bool {
    forall|j: int|
        0 <= j < pieces.len() ==> match #[trigger] pieces[j] {
            Piece::Text(t) => plain(t),
            Piece::Hole(n) => word(n),
        }
}

/// The names of the placeholders among the pieces, in order.
pub open spec fn hole_names(pieces: Seq<Piece>) -> Seq<Seq<char>>
    decreases pieces.len(),
{
    if pieces.len() == 0 {
        Seq::empty()
    } else {
        match pieces[0] {
            Piece::Hole(n) => seq![n] + hole_names(pieces.drop_first()),
            Piece::Text(_) => hole_names(pieces.drop_first()),
        }
    }
}

/// The placeholders with the names `names`, as they stand in a template.
pub open spec fn hole_texts(names: Seq<Seq<char>>) -> Seq<Seq<char>> {
    names.map_values(|n: Seq<char>| hole_text(n))
}

/// What the placeholder named `name` stands for in a tag.
pub open spec fn filling(frames: Seq<FrameView>, name: Seq<char>) -> Seq<char> {
    resolved_text(frames, hole_text(name)).unwrap()
}

/// The pieces with each placeholder whose name is among `done` given way
/// to what it stands for.
pub open spec fn filled_upto(
    pieces: Seq<Piece>,
    frames: Seq<FrameView>,
    done: Seq<Seq<char>>,
) -> Seq<Piece> {
    pieces.map_values(
        |p: Piece|
            match p {
                Piece::Hole(n) => if done.contains(n) {
                    Piece::Text(filling(frames, n))
                } else {
                    p
                },
                Piece::Text(_) => p,
            },
    )
}

/// The pieces with every placeholder given way to what it stands for.
pub open spec fn filled(pieces: Seq<Piece>, frames: Seq<FrameView>) -> Seq<Piece> {
    pieces.map_values(
        |p: Piece|
            match p {
                Piece::Hole(n) => Piece::Text(filling(frames, n)),
                Piece::Text(_) => p,
            },
    )
}

/// The pieces with the placeholder named `name` given way to `to`.
pub open spec fn filled_one(pieces: Seq<Piece>, name: Seq<char>, to: Seq<char>) -> Seq<Piece> {
    pieces.map_values(
        |p: Piece|
            match p {
                Piece::Hole(n) => if n == name {
                    Piece::Text(to)
                } else {
                    p
                },
                Piece::Text(_) => p,
            },
    )
}

proof fn lemma_other_hole_is_no_match(h: Seq<char>, n: Seq<char>, rest: Seq<char>)
    requires
        word(h),
        word(n),
        h != n,
    ensures
        !starts_with(hole_text(h) + rest, hole_text(n)),
{
    let a = hole_text(h) + rest;
    let b = hole_text(n);
    if starts_with(a, b) {
        let front = a.subrange(0, b.len() as int);
        assert(forall|k: int| 0 <= k < b.len() ==> front[k] == a[k]);
        if n.len() < h.len() {
            let k = n.len() as int + 1;
            assert(b[k] == '}');
            assert(a[k] == h[k - 1]);
            assert(front[k] == b[k]);
        } else if n.len() > h.len() {
            let k = h.len() as int + 1;
            assert(a[k] == '}');
            assert(b[k] == n[k - 1]);
            assert(front[k] == b[k]);
        } else {
            assert forall|i: int| 0 <= i < h.len() implies h[i] == n[i] by {
                assert(a[i + 1] == h[i]);
                assert(b[i + 1] == n[i]);
                assert(front[i + 1] == b[i + 1]);
            }
            assert(h =~= n);
        }
    }
}

proof fn lemma_replace_in_pieces(pieces: Seq<Piece>, name: Seq<char>, to: Seq<char>)
    requires
        well_formed(pieces),
        word(name),
    ensures
        replaced(joined(pieces), hole_text(name), to) == joined(filled_one(pieces, name, to)),
    decreases pieces.len(),
{
    let from = hole_text(name);
    assert(from[0] == '{');
    let after = filled_one(pieces, name, to);
    if pieces.len() > 0 {
        let rest = pieces.drop_first();
        assert forall|j: int| 0 <= j < rest.len() implies match #[trigger] rest[j] {
            Piece::Text(t) => plain(t),
            Piece::Hole(n) => word(n),
        } by {
            assert(rest[j] == pieces[j + 1]);
        }
        lemma_replace_in_pieces(rest, name, to);
        assert(after.drop_first() =~= filled_one(rest, name, to));
        let tail = joined(rest);
        match pieces[0] {
            Piece::Text(t) => {
                assert(plain(t));
                lemma_replaced_skips(t, tail, from, to);
                assert(after[0] == pieces[0]);
            },
            Piece::Hole(h) => {
                assert(word(h));
                if h == name {
                    lemma_replaced_hit(tail, from, to);
                    assert(after[0] == Piece::Text(to));
                } else {
                    lemma_other_hole_is_no_match(h, name, tail);
                    let text = hole_text(h) + tail;
                    let inner = h + seq!['}'];
                    assert(text[0] == '{');
                    assert(text.drop_first() =~= inner + tail);
                    assert forall|i: int| 0 <= i < inner.len() implies inner[i] != from[0] by {
                        if i < h.len() {
                            assert(inner[i] == h[i]);
                        }
                    }
                    lemma_replaced_skips(inner, tail, from, to);
                    assert(seq![text[0]] + (inner + replaced(tail, from, to)) =~= hole_text(h)
                        + replaced(tail, from, to));
                    assert(after[0] == pieces[0]);
                }
            },
        }
    } else {
        assert(after =~= pieces);
    }
}

proof fn lemma_holes_are_named(pieces: Seq<Piece>, j: int)
    requires
        0 <= j < pieces.len(),
        pieces[j] is Hole,
    ensures
        hole_names(pieces).contains(pieces[j]->Hole_0),
    decreases pieces.len(),
{
    let rest = pieces.drop_first();
    let names = hole_names(pieces);
    if j == 0 {
        assert(names[0] == pieces[0]->Hole_0);
    } else {
        assert(rest[j - 1] == pieces[j]);
        lemma_holes_are_named(rest, j - 1);
        let n = pieces[j]->Hole_0;
        let k = choose|k: int| 0 <= k < hole_names(rest).len() && hole_names(rest)[k] == n;
        match pieces[0] {
            Piece::Hole(m) => {
                assert(names[k + 1] == n);
            },
            Piece::Text(_) => {
                assert(names[k] == n);
            },
        }
    }
}

proof fn lemma_rendered_upto(
    template: Seq<char>,
    frames: Seq<FrameView>,
    pieces: Seq<Piece>,
    names: Seq<Seq<char>>,
    k: nat,
)
    requires
        joined(pieces) == template,
        well_formed(pieces),
        k <= names.len(),
        forall|j: int| 0 <= j < names.len() ==> word(#[trigger] names[j]),
        forall|j: int|
            0 <= j < names.len() ==> resolved_text(frames, hole_text(#[trigger] names[j])) is Some
                && plain(filling(frames, names[j])),
    ensures
        all_resolve(frames, hole_texts(names), k),
        rendered(template, frames, hole_texts(names), k) == joined(
            filled_upto(pieces, frames, names.subrange(0, k as int)),
        ),
    decreases k,
{
    let matches = hole_texts(names);
    if k == 0 {
        assert(filled_upto(pieces, frames, names.subrange(0, 0)) =~= pieces);
    } else {
        let m = (k - 1) as nat;
        lemma_rendered_upto(template, frames, pieces, names, m);
        let done = names.subrange(0, m as int);
        let more = names.subrange(0, k as int);
        let before = filled_upto(pieces, frames, done);
        let name = names[m as int];
        let to = filling(frames, name);
        assert(matches[m as int] == hole_text(name));
        assert forall|j: int| 0 <= j < before.len() implies match #[trigger] before[j] {
            Piece::Text(t) => plain(t),
            Piece::Hole(n) => word(n),
        } by {
            match pieces[j] {
                Piece::Hole(n) => {
                    if done.contains(n) {
                        let q = choose|q: int| 0 <= q < done.len() && done[q] == n;
                        assert(names[q] == n);
                    }
                },
                Piece::Text(_) => {},
            }
        }
        lemma_replace_in_pieces(before, name, to);
        assert(more =~= done.push(name));
        assert forall|j: int| 0 <= j < pieces.len() implies filled_one(before, name, to)[j]
            == filled_upto(pieces, frames, more)[j] by {
            match pieces[j] {
                Piece::Hole(n) => {
                    if done.contains(n) {
                        let q = choose|q: int| 0 <= q < done.len() && done[q] == n;
                        assert(more[q] == n);
                    } else if n == name {
                        assert(more[m as int] == n);
                    } else {
                        if more.contains(n) {
                            let q = choose|q: int| 0 <= q < more.len() && more[q] == n;
                            if q < m {
                                assert(done[q] == n);
                            }
                        }
                    }
                },
                Piece::Text(_) => {},
            }
        }
        assert(filled_one(before, name, to) =~= filled_upto(pieces, frames, more));
    }
}

/// A template made of text without an opening brace and of placeholders,
/// each of which resolves in the tag to a text without an opening brace,
/// gives the name in which every placeholder has given way to what it
/// stands for and every other character is kept. The placeholders looked
/// for are those of the template, in order.
pub proof fn lemma_template_filled(
    template: Seq<char>,
    frames: Seq<FrameView>,
    pieces: Seq<Piece>,
)
    requires
        joined(pieces) == template,
        well_formed(pieces),
        forall|j: int|
            0 <= j < pieces.len() && (#[trigger] pieces[j]) is Hole ==> resolved_text(
                frames,
                piece_text(pieces[j]),
            ) is Some && plain(filling(frames, pieces[j]->Hole_0)),
    ensures
        template_name(template, frames, hole_texts(hole_names(pieces))) == Some(
            joined(filled(pieces, frames)),
        ),
{
    let names = hole_names(pieces);
    lemma_names_are_holes(pieces);
    assert forall|j: int| 0 <= j < names.len() implies word(#[trigger] names[j])
        && resolved_text(frames, hole_text(names[j])) is Some && plain(
        filling(frames, names[j]),
    ) by {
        let q = choose|q: int| 0 <= q < pieces.len() && pieces[q] == Piece::Hole(names[j]);
        assert(pieces[q] is Hole);
    }
    lemma_rendered_upto(template, frames, pieces, names, names.len());
    assert(names.subrange(0, names.len() as int) =~= names);
    assert forall|j: int| 0 <= j < pieces.len() implies filled_upto(pieces, frames, names)[j]
        == filled(pieces, frames)[j] by {
        if pieces[j] is Hole {
            lemma_holes_are_named(pieces, j);
        }
    }
    assert(filled_upto(pieces, frames, names) =~= filled(pieces, frames));
    assert(hole_texts(names).len() == names.len());
}

proof fn lemma_names_are_holes(pieces: Seq<Piece>)
    ensures
        forall|j: int|
            0 <= j < hole_names(pieces).len() ==> exists|q: int|
                0 <= q < pieces.len() && pieces[q] == Piece::Hole(#[trigger] hole_names(pieces)[j]),
    decreases pieces.len(),
{
    let names = hole_names(pieces);
    if pieces.len() > 0 {
        let rest = pieces.drop_first();
        lemma_names_are_holes(rest);
        assert forall|j: int| 0 <= j < names.len() implies exists|q: int|
            0 <= q < pieces.len() && pieces[q] == Piece::Hole(#[trigger] names[j]) by {
            let shift: int = if pieces[0] is Hole {
                1
            } else {
                0
            };
            if pieces[0] is Hole && j == 0 {
                assert(pieces[0] == Piece::Hole(names[0]));
            } else {
                assert(names[j] == hole_names(rest)[j - shift]);
                let q = choose|q: int|
                    0 <= q < rest.len() && rest[q] == Piece::Hole(hole_names(rest)[j - shift]);
                assert(pieces[q + 1] == Piece::Hole(names[j]));
            }
        }
    }
}

} // verus!
