//! The icon resolver: which icons a piece of markup asks for, and how the
//! fetched artwork is spliced into it.
//!
//! Rendered markup marks an icon with an empty `span` of class `octicon` and
//! a second class `octicon-<name>`. Resolving takes two phases with one
//! exchange between them. The first phase reads the markup and lists the
//! icons it asks for. The caller fetches them. The second phase writes a
//! numbered placeholder into each span whose icon arrived, and replaces every
//! placeholder in the serialized markup by the artwork with that number.
//!
//! A placeholder begins with a mark. The mark is chosen anew for each markup
//! so that it does not occur in the markup as the serializer writes it: text
//! of the document that looks like a placeholder is never taken for one.

use crate::render::is_success;
use crate::store::Store;
use crate::text::{
    chars_of, decimal, digit_value, find_from, first_occurrence, law_decimal_parses_back,
    lemma_decimal_is_digits, lemma_first_occurrence, matches_at, occurs_at, parse_number,
    parse_unsigned, push_all, push_decimal, push_range, push_str, string_of, text_eq,
};
use scraper::node::Text;
use scraper::{Html, Node, Selector};
use vstd::prelude::*;

verus! {

/// For each `span` element of class `octicon` in `markup`, in the order in
/// which the parser yields them, its class names as `Element::classes` gives
/// them.
pub uninterp spec fn octicon_spans(markup: Seq<char>) -> Seq<Seq<Seq<char>>>;

/// `markup` parsed as a fragment and written out again, after `texts[i]` was
/// appended as a text node to the `i`-th `span` element of class `octicon`,
/// for each `i` that both have.
pub uninterp spec fn with_span_texts(markup: Seq<char>, texts: Seq<Seq<char>>) -> Seq<char>;

/// Parses `markup` with `scraper::Html::parse_fragment`, selects
/// `span.octicon` with `Html::select`, and copies out what
/// `Element::classes` yields for each match. The contract names that list; it
/// depends on `markup` alone, since the parser sorts the class names of an
/// element and drops repeated ones.
#[verifier::external_body]
fn span_classes(markup: &str) -> (spans: Vec<Vec<String>>)
    ensures
        spans.deep_view() == octicon_spans(markup@),
{
    let html = Html::parse_fragment(markup);
    let selector = Selector::parse("span.octicon").unwrap();
    html.select(&selector).map(
        |span| span.value().classes().map(|class| class.to_owned()).collect(),
    ).collect()
}

/// Parses `markup` as [`span_classes`] does, appends `texts[i]` as a text
/// node to the `i`-th selected span through `Html::tree`, and serializes the
/// children of the root with `ElementRef::inner_html`. The contract names the
/// text that comes out; with the parser's `deterministic` feature attributes
/// are written in source order, so it depends on the arguments alone.
#[verifier::external_body]
fn append_to_spans(markup: &str, texts: &Vec<String>) -> (html: String)
    ensures
        html@ == with_span_texts(markup@, texts.deep_view()),
{
    let mut html = Html::parse_fragment(markup);
    let selector = Selector::parse("span.octicon").unwrap();
    let spans: Vec<_> = html.select(&selector).map(|span| span.id()).collect();
    for (span, text) in spans.into_iter().zip(texts) {
        html.tree.get_mut(span).unwrap().append(Node::Text(Text { text: text.as_str().into() }));
    }
    html.root_element().inner_html()
}

/// The prefix of the class that names an icon.
pub open spec fn class_prefix() -> Seq<char> {
    "octicon-"@
}

/// What is added to the name in the class to get the name of the artwork.
pub open spec fn size_suffix() -> Seq<char> {
    "-16"@
}

/// The icon that an element with these classes asks for: the first class
/// that begins with the prefix names it.
pub open spec fn requested_icon(classes: Seq<Seq<char>>) -> Option<Seq<char>>
    decreases classes.len(),
{
    if classes.len() == 0 {
        None
    } else if occurs_at(classes[0], class_prefix(), 0) {
        Some(classes[0].skip(class_prefix().len() as int) + size_suffix())
    } else {
        requested_icon(classes.skip(1))
    }
}

/// The icons that the spans ask for, in order. A span that names no icon
/// asks for nothing.
pub open spec fn requested_icons(spans: Seq<Seq<Seq<char>>>) -> Seq<Seq<char>>
    decreases spans.len(),
{
    if spans.len() == 0 {
        Seq::empty()
    } else {
        let before = requested_icons(spans.drop_last());
        match requested_icon(spans.last()) {
            Some(name) => before.push(name),
            None => before,
        }
    }
}

/// What every mark begins with.
pub open spec fn mark_stem() -> Seq<char> {
    "__OCTICON"@
}

/// The mark with `extra` letters behind the stem. No end of a mark is also
/// its beginning, so two marks never overlap.
pub open spec fn mark_of(extra: nat) -> Seq<char> {
    mark_stem() + Seq::new(extra, |i: int| 'X')
}

/// What closes a placeholder.
pub open spec fn mark_end() -> Seq<char> {
    "__"@
}

/// Whether `pat` occurs somewhere in `text`.
pub open spec fn occurs(text: Seq<char>, pat: Seq<char>) -> bool {
    first_occurrence(text, pat, 0) < text.len()
}

/// The shortest mark with at least `extra` letters that does not occur in
/// `text`.
pub open spec fn fresh_mark_from(text: Seq<char>, extra: nat) -> Seq<char>
    decreases text.len() - extra,
    via fresh_mark_from_decreases
{
    if occurs(text, mark_of(extra)) {
        fresh_mark_from(text, extra + 1)
    } else {
        mark_of(extra)
    }
}

#[via_fn]
proof fn fresh_mark_from_decreases(text: Seq<char>, extra: nat) {
    reveal_strlit("__OCTICON");
    lemma_first_occurrence(text, mark_of(extra), 0);
}

/// The mark for a document that is written as `text`: the shortest mark that
/// does not occur in it.
pub open spec fn fresh_mark(text: Seq<char>) -> Seq<char> {
    fresh_mark_from(text, 0)
}

/// The placeholder for the artwork with the given number.
pub open spec fn placeholder(mark: Seq<char>, number: nat) -> Seq<char> {
    mark + decimal(number) + mark_end()
}

/// The artwork with the given number, if it arrived.
pub open spec fn artwork(icons: Seq<Option<Seq<char>>>, number: int) -> Option<Seq<char>> {
    if 0 <= number < icons.len() {
        icons[number]
    } else {
        None
    }
}

/// The text to append to each span: the placeholder of its icon for a span
/// whose icon arrived, nothing for any other. Icons are numbered in the order
/// in which the spans ask for them.
pub open spec fn span_texts(
    spans: Seq<Seq<Seq<char>>>,
    icons: Seq<Option<Seq<char>>>,
    mark: Seq<char>,
) -> Seq<Seq<char>>
    decreases spans.len(),
{
    if spans.len() == 0 {
        Seq::empty()
    } else {
        let before = spans.drop_last();
        let number = requested_icons(before).len();
        span_texts(before, icons, mark).push(
            if requested_icon(spans.last()) is Some && artwork(icons, number as int) is Some {
                placeholder(mark, number)
            } else {
                Seq::empty()
            },
        )
    }
}

/// The artwork that the text between a mark and its end stands for.
pub open spec fn artwork_named(icons: Seq<Option<Seq<char>>>, number: Seq<char>) -> Option<
    Seq<char>,
> {
    match parse_unsigned(number, u64::MAX as nat) {
        Ok(n) => artwork(icons, n as int),
        Err(_) => None,
    }
}

/// What replaces a mark and the text `part` that follows it, up to the next
/// mark. Where `part` begins with the number of an artwork that arrived and
/// the end of a placeholder, the artwork takes the place of the placeholder.
/// Otherwise the mark was no placeholder and stays as it is.
pub open spec fn expanded(part: Seq<char>, mark: Seq<char>, icons: Seq<Option<Seq<char>>>) -> Seq<
    char,
> {
    let end = first_occurrence(part, mark_end(), 0);
    if end < part.len() && artwork_named(icons, part.take(end)) is Some {
        artwork_named(icons, part.take(end))->0 + part.skip(end + mark_end().len())
    } else {
        mark + part
    }
}

/// `html` from `pos` on, where `pos` is just behind a mark, with every
/// placeholder replaced.
pub open spec fn substituted_from(
    html: Seq<char>,
    mark: Seq<char>,
    icons: Seq<Option<Seq<char>>>,
    pos: int,
) -> Seq<char>
    decreases html.len() - pos,
    when 0 <= pos <= html.len() && mark.len() > 0
    via substituted_from_decreases
{
    let next = first_occurrence(html, mark, pos);
    if next >= html.len() {
        expanded(html.subrange(pos, html.len() as int), mark, icons)
    } else {
        expanded(html.subrange(pos, next), mark, icons) + substituted_from(
            html,
            mark,
            icons,
            next + mark.len(),
        )
    }
}

#[via_fn]
proof fn substituted_from_decreases(
    html: Seq<char>,
    mark: Seq<char>,
    icons: Seq<Option<Seq<char>>>,
    pos: int,
) {
    lemma_first_occurrence(html, mark, pos);
}

/// `html` with every placeholder that begins with `mark` replaced by its
/// artwork. Marks are found from the left and do not overlap. Text in which
/// the mark does not occur stays as it is, and so does any text for an empty
/// mark.
pub open spec fn substituted(html: Seq<char>, mark: Seq<char>, icons: Seq<Option<Seq<char>>>) -> Seq<
    char,
> {
    let first = first_occurrence(html, mark, 0);
    if mark.len() == 0 || first >= html.len() {
        html
    } else {
        html.take(first) + substituted_from(html, mark, icons, first + mark.len())
    }
}

/// One step of a replacement: the artwork that is put in, and the text that
/// is kept behind it. Where a mark was no placeholder, nothing is put in and
/// the mark is kept with the text.
pub ghost struct Piece {
    pub artwork: Seq<char>,
    pub kept: Seq<char>,
}

/// What becomes of a mark and the text `part` that follows it.
pub open spec fn piece_of(part: Seq<char>, mark: Seq<char>, icons: Seq<Option<Seq<char>>>) -> Piece {
    let end = first_occurrence(part, mark_end(), 0);
    if end < part.len() && artwork_named(icons, part.take(end)) is Some {
        Piece {
            artwork: artwork_named(icons, part.take(end))->0,
            kept: part.skip(end + mark_end().len()),
        }
    } else {
        Piece { artwork: Seq::empty(), kept: mark + part }
    }
}

/// What becomes of `html` from `pos` on, where `pos` is just behind a mark,
/// mark by mark.
pub open spec fn pieces_from(
    html: Seq<char>,
    mark: Seq<char>,
    icons: Seq<Option<Seq<char>>>,
    pos: int,
) -> Seq<Piece>
    decreases html.len() - pos,
    when 0 <= pos <= html.len() && mark.len() > 0
    via pieces_from_decreases
{
    let next = first_occurrence(html, mark, pos);
    if next >= html.len() {
        seq![piece_of(html.subrange(pos, html.len() as int), mark, icons)]
    } else {
        seq![piece_of(html.subrange(pos, next), mark, icons)] + pieces_from(
            html,
            mark,
            icons,
            next + mark.len(),
        )
    }
}

#[via_fn]
proof fn pieces_from_decreases(
    html: Seq<char>,
    mark: Seq<char>,
    icons: Seq<Option<Seq<char>>>,
    pos: int,
) {
    lemma_first_occurrence(html, mark, pos);
}

/// The pieces in a row, each with its artwork in front.
pub open spec fn with_artwork(pieces: Seq<Piece>) -> Seq<char>
    decreases pieces.len(),
{
    if pieces.len() == 0 {
        Seq::empty()
    } else {
        pieces[0].artwork + pieces[0].kept + with_artwork(pieces.skip(1))
    }
}

/// The pieces in a row, without any artwork.
pub open spec fn without_artwork(pieces: Seq<Piece>) -> Seq<char>
    decreases pieces.len(),
{
    if pieces.len() == 0 {
        Seq::empty()
    } else {
        pieces[0].kept + without_artwork(pieces.skip(1))
    }
}

/// The markup as the serializer writes it when nothing is appended.
pub open spec fn written(markup: Seq<char>) -> Seq<char> {
    with_span_texts(markup, Seq::empty())
}

/// The icons that arrived, each with nothing for its artwork. Replacing the
/// placeholders by these takes them out of a text.
pub open spec fn blanked(icons: Seq<Option<Seq<char>>>) -> Seq<Option<Seq<char>>> {
    Seq::new(
        icons.len(),
        |i: int|
            if icons[i] is Some {
                Some(Seq::<char>::empty())
            } else {
                None
            },
    )
}

/// The markup with the icons spliced in. The placeholders are written with a
/// mark that does not occur in the markup as it is written, and every
/// placeholder is replaced by its artwork. Taking the placeholders out
/// instead gives back the markup as it is written: the artwork stands where
/// the placeholders stood, and every other character is the document's own.
/// Were that ever not so, the markup is handed out as it is written, without
/// artwork.
pub open spec fn populated(markup: Seq<char>, icons: Seq<Option<Seq<char>>>) -> Seq<char> {
    let mark = fresh_mark(written(markup));
    let marked = with_span_texts(markup, span_texts(octicon_spans(markup), icons, mark));
    if substituted(marked, mark, blanked(icons)) == written(markup) {
        substituted(marked, mark, icons)
    } else {
        written(markup)
    }
}

/// The icon that an element with these classes asks for.
pub fn icon_of(classes: &Vec<String>) -> (name: Option<String>)
    ensures
        name.deep_view() == requested_icon(classes.deep_view()),
{
    let prefix = chars_of("octicon-");
    let mut i: usize = 0;
    assert(classes.deep_view().skip(0) == classes.deep_view());
    while i < classes.len()
        invariant
            i <= classes.len(),
            prefix@ == class_prefix(),
            requested_icon(classes.deep_view()) == requested_icon(
                classes.deep_view().skip(i as int),
            ),
        decreases classes.len() - i,
    {
        let class = chars_of(classes[i].as_str());
        assert(classes.deep_view().skip(i as int)[0] == class@);
        assert(classes.deep_view().skip(i as int).skip(1) == classes.deep_view().skip(i + 1));
        if matches_at(&class, &prefix, 0) {
            let mut out: Vec<char> = Vec::new();
            push_range(&mut out, &class, prefix.len(), class.len());
            push_str(&mut out, "-16");
            assert(class@.subrange(prefix@.len() as int, class@.len() as int) == class@.skip(
                class_prefix().len() as int,
            ));
            return Some(string_of(&out));
        }
        i += 1;
    }
    None
}

/// The icons that the given spans ask for, in order.
pub fn required_icons_of(spans: &Vec<Vec<String>>) -> (names: Vec<String>)
    ensures
        names.deep_view() == requested_icons(spans.deep_view()),
{
    let mut names: Vec<String> = Vec::new();
    let mut i: usize = 0;
    assert(spans.deep_view().take(0) == Seq::<Seq<Seq<char>>>::empty());
    assert(names.deep_view() == Seq::<Seq<char>>::empty());
    while i < spans.len()
        invariant
            i <= spans.len(),
            names.deep_view() == requested_icons(spans.deep_view().take(i as int)),
        decreases spans.len() - i,
    {
        let ghost done = spans.deep_view().take(i as int);
        let ghost next = spans.deep_view().take(i + 1);
        assert(next.drop_last() == done);
        assert(next.last() == spans[i as int].deep_view());
        let ghost before = names.deep_view();
        match icon_of(&spans[i]) {
            Some(name) => {
                names.push(name);
                assert(names.deep_view() == before.push(name@));
            },
            None => {},
        }
        i += 1;
    }
    assert(spans.deep_view().take(spans.len() as int) == spans.deep_view());
    names
}

/// First phase: the icons that `markup` asks for, in the order in which the
/// parser yields their spans.
pub fn required_icons(markup: &str) -> (names: Vec<String>)
    ensures
        names.deep_view() == requested_icons(octicon_spans(markup@)),
{
    let spans = span_classes(markup);
    required_icons_of(&spans)
}

/// Chooses the mark for a document that is written as `text`.
pub fn choose_mark(text: &str) -> (mark: String)
    ensures
        mark@ == fresh_mark(text@),
{
    let chars = chars_of(text);
    let mut mark = chars_of("__OCTICON");
    let mut extra: usize = 0;
    proof {
        reveal_strlit("__OCTICON");
        assert(mark@ == mark_of(0));
    }
    let mut found = find_from(&chars, &mark, 0);
    while found < chars.len()
        invariant
            chars@ == text@,
            mark@ == mark_of(extra as nat),
            mark_stem().len() == 9,
            extra <= chars.len(),
            found == first_occurrence(chars@, mark@, 0),
            fresh_mark(text@) == fresh_mark_from(chars@, extra as nat),
        decreases chars.len() - extra,
    {
        proof {
            lemma_first_occurrence(chars@, mark@, 0);
        }
        mark.push('X');
        extra += 1;
        assert(mark@ == mark_of(extra as nat));
        found = find_from(&chars, &mark, 0);
    }
    string_of(&mark)
}

/// The text to append to each of the given spans, for the artwork that
/// arrived. Placeholders begin with `mark`.
pub fn texts_for(spans: &Vec<Vec<String>>, icons: &Vec<Option<String>>, mark: &str) -> (texts: Vec<
    String,
>)
    ensures
        texts.deep_view() == span_texts(spans.deep_view(), icons.deep_view(), mark@),
{
    let mut texts: Vec<String> = Vec::new();
    let mut number: usize = 0;
    let mut i: usize = 0;
    assert(spans.deep_view().take(0) == Seq::<Seq<Seq<char>>>::empty());
    assert(texts.deep_view() == Seq::<Seq<char>>::empty());
    while i < spans.len()
        invariant
            i <= spans.len(),
            number <= i,
            number == requested_icons(spans.deep_view().take(i as int)).len(),
            texts.deep_view() == span_texts(
                spans.deep_view().take(i as int),
                icons.deep_view(),
                mark@,
            ),
        decreases spans.len() - i,
    {
        let ghost done = spans.deep_view().take(i as int);
        let ghost next = spans.deep_view().take(i + 1);
        assert(next.drop_last() == done);
        assert(next.last() == spans[i as int].deep_view());
        let ghost before = texts.deep_view();
        let asked = icon_of(&spans[i]);
        let mut out: Vec<char> = Vec::new();
        if asked.is_some() {
            let arrived = number < icons.len() && icons[number].is_some();
            assert(arrived == (artwork(icons.deep_view(), number as int) is Some));
            if arrived {
                push_str(&mut out, mark);
                push_decimal(&mut out, number as u64);
                push_str(&mut out, "__");
            }
            number += 1;
        }
        let text = string_of(&out);
        texts.push(text);
        assert(texts.deep_view() == before.push(text@));
        i += 1;
    }
    assert(spans.deep_view().take(spans.len() as int) == spans.deep_view());
    texts
}

fn expand(out: &mut Vec<char>, part: &Vec<char>, mark: &Vec<char>, icons: &Vec<Option<String>>)
    ensures
        final(out)@ == old(out)@ + expanded(part@, mark@, icons.deep_view()),
{
    let closing = chars_of("__");
    proof {
        reveal_strlit("__");
        lemma_first_occurrence(part@, closing@, 0);
    }
    let end = find_from(part, &closing, 0);
    if end < part.len() {
        assert(part@.subrange(0, end as int) == part@.take(end as int));
        match parse_number(part, 0, end, u64::MAX) {
            Ok(n) => {
                if n < icons.len() as u64 {
                    match &icons[n as usize] {
                        Some(svg) => {
                            push_str(out, svg.as_str());
                            push_range(out, part, end + 2, part.len());
                            assert(part@.subrange(end + 2, part@.len() as int) == part@.skip(
                                end + mark_end().len(),
                            ));
                            return ;
                        },
                        None => {},
                    }
                }
            },
            Err(_) => {},
        }
    }
    push_all(out, mark);
    push_all(out, part);
}

/// `html` with every placeholder that begins with `mark` replaced by the
/// artwork of its number.
pub fn substitute(html: &str, mark: &str, icons: &Vec<Option<String>>) -> (out: String)
    ensures
        out@ == substituted(html@, mark@, icons.deep_view()),
{
    let text = chars_of(html);
    let opening = chars_of(mark);
    if opening.len() == 0 {
        return string_of(&text);
    }
    proof {
        lemma_first_occurrence(text@, opening@, 0);
    }
    let first = find_from(&text, &opening, 0);
    if first >= text.len() {
        return string_of(&text);
    }
    let mut out: Vec<char> = Vec::new();
    push_range(&mut out, &text, 0, first);
    assert(text@.subrange(0, first as int) == text@.take(first as int));
    let mut pos: usize = first + opening.len();
    let mut open = true;
    while open
        invariant
            pos <= text.len(),
            text@ == html@,
            opening@ == mark@,
            opening.len() > 0,
            open ==> out@ + substituted_from(text@, mark@, icons.deep_view(), pos as int)
                == substituted(text@, mark@, icons.deep_view()),
            !open ==> out@ == substituted(text@, mark@, icons.deep_view()),
        decreases text.len() - pos + (if open { 1int } else { 0int }),
    {
        proof {
            lemma_first_occurrence(text@, opening@, pos as int);
        }
        let next = find_from(&text, &opening, pos);
        let mut part: Vec<char> = Vec::new();
        push_range(&mut part, &text, pos, next);
        assert(part@ == text@.subrange(pos as int, next as int));
        expand(&mut out, &part, &opening, icons);
        if next >= text.len() {
            open = false;
        } else {
            pos = next + opening.len();
        }
    }
    string_of(&out)
}

/// The icons that arrived, each with nothing for its artwork.
pub fn blanks(icons: &Vec<Option<String>>) -> (blank: Vec<Option<String>>)
    ensures
        blank.deep_view() == blanked(icons.deep_view()),
{
    let mut blank: Vec<Option<String>> = Vec::new();
    let mut i: usize = 0;
    while i < icons.len()
        invariant
            i <= icons.len(),
            blank.len() == i,
            forall|j: int|
                0 <= j < i ==> (#[trigger] blank[j]).deep_view() == blanked(icons.deep_view())[j],
        decreases icons.len() - i,
    {
        let entry = if icons[i].is_some() {
            Some(String::new())
        } else {
            None
        };
        blank.push(entry);
        i += 1;
    }
    assert(blank.deep_view() =~= blanked(icons.deep_view()));
    blank
}

/// Second phase: the markup with the artwork spliced in. `icons[i]` is the
/// artwork for the `i`-th icon that the markup asks for, if it arrived. A
/// span whose icon did not arrive stays empty, and text of the document is
/// never replaced.
pub fn populate(markup: &str, icons: &Vec<Option<String>>) -> (html: String)
    ensures
        html@ == populated(markup@, icons.deep_view()),
{
    let spans = span_classes(markup);
    let nothing: Vec<String> = Vec::new();
    let plain = append_to_spans(markup, &nothing);
    assert(nothing.deep_view() == Seq::<Seq<char>>::empty());
    let mark = choose_mark(plain.as_str());
    let texts = texts_for(&spans, icons, mark.as_str());
    let marked = append_to_spans(markup, &texts);
    let taken_out = substitute(marked.as_str(), mark.as_str(), &blanks(icons));
    if text_eq(taken_out.as_str(), plain.as_str()) {
        substitute(marked.as_str(), mark.as_str(), icons)
    } else {
        plain
    }
}

/// Where the artwork of an icon is fetched from.
pub open spec fn icon_url(name: Seq<char>) -> Seq<char> {
    "https://cdn.jsdelivr.net/gh/primer/octicons@14.2.2/icons/"@ + name + ".svg"@
}

/// A lookup that found nothing and waits for the icon source.
///
/// It holds the icons exclusively until it is settled: one lookup proceeds at
/// a time.
pub struct IconMiss<'a> {
    /// The icons that will keep the artwork.
    pub icons: &'a mut Octicons,
    /// The name of the icon.
    pub name: String,
    /// Where the artwork is to be fetched from.
    pub url: String,
}

/// How the lookup of one icon starts.
pub enum IconStep<'a> {
    /// The artwork was fetched before: nothing is fetched now.
    Cached(String),
    /// The artwork is to be fetched, and the fetch settled.
    Fetch(IconMiss<'a>),
}

/// How a fetch ended.
#[derive(Debug, PartialEq, Eq)]
pub enum IconReply {
    /// The icon source could not be reached.
    Unreachable,
    /// The icon source answered. The body is missing where it was not read
    /// or could not be read.
    Answered { status: u16, body: Option<String> },
}

/// The artwork that a fetch brought: the body of a successful answer.
pub open spec fn fetched(reply: IconReply) -> Option<Seq<char>> {
    match reply {
        IconReply::Answered { status, body: Some(svg) } => if is_success(status) {
            Some(svg@)
        } else {
            None
        },
        _ => None,
    }
}

/// The icon cache after a fetch for `name` brought `artwork`. Artwork that
/// arrived is kept for good; a fetch that brought nothing leaves no trace, so
/// the icon is fetched again when it is next asked for.
pub open spec fn icons_after(
    cache: Map<Seq<char>, Seq<char>>,
    name: Seq<char>,
    artwork: Option<Seq<char>>,
) -> Map<Seq<char>, Seq<char>> {
    match artwork {
        Some(svg) => cache.insert(name, svg),
        None => cache,
    }
}

/// Whether the body of an answer with this status is worth reading.
pub fn wants_body(status: u16) -> (r: bool)
    ensures
        r == is_success(status),
{
    200 <= status && status < 300
}

/// The icons fetched so far, by name.
pub struct Octicons {
    cache: Store<String>,
}

impl View for Octicons {
    type V = Map<Seq<char>, Seq<char>>;

    closed spec fn view(&self) -> Map<Seq<char>, Seq<char>> {
        self.cache@
    }
}

impl Octicons {
    /// No icon fetched yet.
    pub fn new() -> (icons: Self)
        ensures
            icons@ == Map::<Seq<char>, Seq<char>>::empty(),
    {
        Octicons { cache: Store::new() }
    }

    /// The number of icons held.
    pub fn len(&self) -> (n: usize)
        ensures
            self@.dom().finite(),
            n == self@.len(),
    {
        self.cache.len()
    }

    /// Starts the lookup of the icon `name`: artwork that is held is handed
    /// out at once, any other is to be fetched.
    pub fn get<'a>(&'a mut self, name: &str) -> (step: IconStep<'a>)
        ensures
            match step {
                IconStep::Cached(svg) => {
                    &&& old(self)@.contains_key(name@)
                    &&& svg@ == old(self)@[name@]
                    &&& final(self)@ == old(self)@
                },
                IconStep::Fetch(miss) => {
                    &&& !old(self)@.contains_key(name@)
                    &&& miss.name@ == name@
                    &&& miss.url@ == icon_url(name@)
                    &&& miss.icons@ == old(self)@
                    &&& final(self)@ == final(miss.icons)@
                },
            },
    {
        match self.cache.get(&name.to_owned()) {
            Some(svg) => IconStep::Cached(svg),
            None => {
                let mut url: Vec<char> = Vec::new();
                push_str(&mut url, "https://cdn.jsdelivr.net/gh/primer/octicons@14.2.2/icons/");
                push_str(&mut url, name);
                push_str(&mut url, ".svg");
                IconStep::Fetch(IconMiss { icons: self, name: name.to_owned(), url: string_of(&url) })
            },
        }
    }
}

impl<'a> IconMiss<'a> {
    /// Ends the fetch. Returns the artwork if it arrived, and keeps it for
    /// later lookups.
    pub fn settle(self, reply: IconReply) -> (svg: Option<String>)
        ensures
            svg.deep_view() == fetched(reply),
            final(self.icons)@ == icons_after(old(self.icons)@, self.name@, fetched(reply)),
    {
        let IconMiss { icons, name, url } = self;
        match reply {
            IconReply::Answered { status, body: Some(svg) } => {
                if wants_body(status) {
                    icons.cache.insert(name, svg.clone());
                    Some(svg)
                } else {
                    None
                }
            },
            _ => None,
        }
    }
}

/// The mark chosen for a text occurs nowhere in it, and is not empty.
pub proof fn law_fresh_mark_is_absent(text: Seq<char>)
    ensures
        fresh_mark(text).len() > 0,
        !occurs(text, fresh_mark(text)),
        forall|at: int| !occurs_at(text, fresh_mark(text), at),
{
    reveal_strlit("__OCTICON");
    lemma_fresh_mark_from(text, 0);
    lemma_first_occurrence(text, fresh_mark(text), 0);
    assert forall|at: int| !occurs_at(text, fresh_mark(text), at) by {
        if occurs_at(text, fresh_mark(text), at) {
            assert(at < text.len());
        }
    }
}

proof fn lemma_fresh_mark_from(text: Seq<char>, extra: nat)
    ensures
        fresh_mark_from(text, extra).len() > 0,
        !occurs(text, fresh_mark_from(text, extra)),
    decreases text.len() - extra,
{
    reveal_strlit("__OCTICON");
    if occurs(text, mark_of(extra)) {
        lemma_first_occurrence(text, mark_of(extra), 0);
        lemma_fresh_mark_from(text, extra + 1);
    }
}

/// Text in which the mark does not occur comes out as it went in: nothing
/// but a placeholder is ever replaced.
pub proof fn law_unmarked_text_stays(
    html: Seq<char>,
    mark: Seq<char>,
    icons: Seq<Option<Seq<char>>>,
)
    requires
        !occurs(html, mark),
    ensures
        substituted(html, mark, icons) == html,
{
}

proof fn lemma_blanked(icons: Seq<Option<Seq<char>>>, number: Seq<char>)
    ensures
        artwork_named(blanked(icons), number) is Some <==> artwork_named(icons, number) is Some,
        artwork_named(blanked(icons), number) is Some ==> artwork_named(
            blanked(icons),
            number,
        )->0 == Seq::<char>::empty(),
{
}

proof fn lemma_piece(part: Seq<char>, mark: Seq<char>, icons: Seq<Option<Seq<char>>>)
    ensures
        expanded(part, mark, icons) == piece_of(part, mark, icons).artwork + piece_of(
            part,
            mark,
            icons,
        ).kept,
        expanded(part, mark, blanked(icons)) == piece_of(part, mark, icons).kept,
{
    let end = first_occurrence(part, mark_end(), 0);
    lemma_blanked(icons, part.take(end));
    if end < part.len() && artwork_named(icons, part.take(end)) is Some {
        assert(Seq::<char>::empty() + part.skip(end + mark_end().len()) == part.skip(
            end + mark_end().len(),
        ));
    } else {
        assert(Seq::<char>::empty() + (mark + part) == mark + part);
    }
}

/// Replacing the placeholders and taking them out cut the text into the same
/// pieces and keep the same text of each. The one puts the artwork in front
/// of each piece, the other nothing: they differ in the artwork alone.
pub proof fn law_only_placeholders_change(
    html: Seq<char>,
    mark: Seq<char>,
    icons: Seq<Option<Seq<char>>>,
    pos: int,
)
    requires
        0 <= pos <= html.len(),
        mark.len() > 0,
    ensures
        substituted_from(html, mark, icons, pos) == with_artwork(
            pieces_from(html, mark, icons, pos),
        ),
        substituted_from(html, mark, blanked(icons), pos) == without_artwork(
            pieces_from(html, mark, icons, pos),
        ),
    decreases html.len() - pos,
{
    lemma_first_occurrence(html, mark, pos);
    let next = first_occurrence(html, mark, pos);
    let empty = Seq::<Piece>::empty();
    assert(with_artwork(empty) == Seq::<char>::empty());
    assert(without_artwork(empty) == Seq::<char>::empty());
    if next >= html.len() {
        let part = html.subrange(pos, html.len() as int);
        let piece = piece_of(part, mark, icons);
        lemma_piece(part, mark, icons);
        assert(seq![piece].skip(1) == empty);
        assert(with_artwork(seq![piece]) == piece.artwork + piece.kept + Seq::<char>::empty());
        assert(without_artwork(seq![piece]) == piece.kept + Seq::<char>::empty());
    } else {
        let part = html.subrange(pos, next);
        let piece = piece_of(part, mark, icons);
        let rest = pieces_from(html, mark, icons, next + mark.len());
        lemma_piece(part, mark, icons);
        law_only_placeholders_change(html, mark, icons, next + mark.len());
        assert((seq![piece] + rest).skip(1) == rest);
        assert(with_artwork(seq![piece] + rest) == piece.artwork + piece.kept + with_artwork(rest));
        assert(without_artwork(seq![piece] + rest) == piece.kept + without_artwork(rest));
    }
}

/// Text of the document is never replaced. Either the markup comes out as
/// it is written, or the markup as it is written and what comes out are the
/// same text in front of the first placeholder and the same pieces behind
/// it, and what comes out has the artwork between the pieces.
pub proof fn law_text_of_the_document_stays(markup: Seq<char>, icons: Seq<Option<Seq<char>>>)
    ensures
        populated(markup, icons) == written(markup) || ({
            let mark = fresh_mark(written(markup));
            let marked = with_span_texts(markup, span_texts(octicon_spans(markup), icons, mark));
            let first = first_occurrence(marked, mark, 0);
            let pieces = pieces_from(marked, mark, icons, first + mark.len());
            &&& written(markup) == marked.take(first) + without_artwork(pieces)
            &&& populated(markup, icons) == marked.take(first) + with_artwork(pieces)
        }),
{
    let mark = fresh_mark(written(markup));
    let marked = with_span_texts(markup, span_texts(octicon_spans(markup), icons, mark));
    let first = first_occurrence(marked, mark, 0);
    law_fresh_mark_is_absent(written(markup));
    lemma_first_occurrence(marked, mark, 0);
    if substituted(marked, mark, blanked(icons)) == written(markup) && first < marked.len() {
        law_only_placeholders_change(marked, mark, icons, first + mark.len());
    }
}

/// A placeholder written for an artwork that arrived is replaced by that
/// artwork, and what follows it is kept.
pub proof fn law_placeholder_is_replaced(
    icons: Seq<Option<Seq<char>>>,
    mark: Seq<char>,
    number: nat,
    rest: Seq<char>,
)
    requires
        number <= u64::MAX,
        artwork(icons, number as int) is Some,
    ensures
        expanded(decimal(number) + mark_end() + rest, mark, icons) == artwork(
            icons,
            number as int,
        )->0 + rest,
{
    reveal_strlit("__");
    let digits = decimal(number);
    let part = digits + mark_end() + rest;
    let at = digits.len() as int;
    lemma_decimal_is_digits(number);
    law_decimal_parses_back(number, u64::MAX as nat);
    lemma_first_occurrence(part, mark_end(), 0);
    assert(part.subrange(at, at + mark_end().len()) == mark_end());
    assert(occurs_at(part, mark_end(), at));
    assert forall|k: int| 0 <= k < at implies !occurs_at(part, mark_end(), k) by {
        assert(part[k] == digits[k]);
        assert(digit_value(digits[k]) is Some);
        if occurs_at(part, mark_end(), k) {
            assert(part.subrange(k, k + mark_end().len())[0] == mark_end()[0]);
        }
    }
    assert(first_occurrence(part, mark_end(), 0) == at);
    assert(part.take(at) == digits);
    assert(part.skip(at + mark_end().len()) == rest);
}

} // verus!
