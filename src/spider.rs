use std::collections::BTreeMap;
use std::collections::HashMap;

use regex::Regex;
use vstd::prelude::*;
use vstd::std_specs::btree::group_btree_axioms;
use vstd::std_specs::hash::group_hash_axioms;
use vstd::string::StringSliceAdditionalSpecFns;
use vstd::utf8::{encode_utf8, group_utf8_lib, is_char_boundary};

verus! {

broadcast use group_utf8_lib;

/// `start..end` is a slice of the UTF-8 text `b`: in order, in bounds, and on
/// character boundaries at both ends.
pub open spec fn slice_ok(b: Seq<u8>, start: int, end: int) -> bool {
    &&& 0 <= start <= end <= b.len()
    &&& is_char_boundary(b, start)
    &&& is_char_boundary(b, end)
}

/// The part of `s` between byte offsets `start` and `end`, if that is a slice of it.
pub fn str_get(s: &str, start: usize, end: usize) -> (r: Option<&str>)
    ensures
        r is Some <==> slice_ok(s.spec_bytes(), start as int, end as int),
        r is Some ==> r->0.spec_bytes() == s.spec_bytes().subrange(start as int, end as int),
{
    let n = s.as_bytes().len();
    if start <= end && end <= n && s.is_char_boundary(start) && s.is_char_boundary(end) {
        let (head, _) = s.split_at(end);
        proof {
            let b = s.spec_bytes();
            let h = head.spec_bytes();
            assert(h == b.subrange(0, end as int));
            vstd::utf8::valid_utf8_split(b, end as int);
            if start < end {
                vstd::utf8::is_char_boundary_iff_not_is_continuation_byte(b, start as int);
                vstd::utf8::is_char_boundary_iff_not_is_continuation_byte(h, start as int);
            } else {
                vstd::utf8::is_char_boundary_start_end_of_seq(h);
            }
        }
        let (_, piece) = head.split_at(start);
        proof {
            assert(piece.spec_bytes() =~= s.spec_bytes().subrange(start as int, end as int));
        }
        Some(piece)
    } else {
        None
    }
}

/// A byte range `start..end` of a text.
#[derive(Clone, Copy, Debug, PartialEq, Eq, Structural)]
pub struct Span {
    pub start: usize,
    pub end: usize,
}

/// A piece of a comment, located by byte ranges in the comment's text.
#[derive(Clone, Copy, Debug, PartialEq, Eq, Structural)]
pub enum EntityRange {
    Text { range: Span },
    Img { range: Span, url: Span },
    Mention { range: Span, name: Span, id: u64 },
    Br { range: Span },
}

/// A piece of a comment, as its reader sees it.
#[derive(Debug, PartialEq, Eq)]
pub enum TextEntity<'a> {
    Text(&'a str),
    Img(&'a str),
    Mention { name: &'a str, id: u64 },
    Br,
}

impl EntityRange {
    /// The whole range the entity takes up in the text.
    pub open spec fn spec_range(&self) -> Span {
        match self {
            EntityRange::Text { range } => *range,
            EntityRange::Img { range, .. } => *range,
            EntityRange::Mention { range, .. } => *range,
            EntityRange::Br { range } => *range,
        }
    }

    /// The range of what the reader sees of the entity.
    pub open spec fn content(&self) -> Span {
        match self {
            EntityRange::Text { range } => *range,
            EntityRange::Img { url, .. } => *url,
            EntityRange::Mention { name, .. } => *name,
            EntityRange::Br { range } => *range,
        }
    }

    /// The entity may be taken from the matches in the text `b`: it is no
    /// text entity, and it fits.
    pub open spec fn eligible(&self, b: Seq<u8>) -> bool {
        !(self is Text) && self.fits(b)
    }

    /// Both ranges of the entity are slices of the text `b`, and the whole
    /// range is not empty.
    pub open spec fn fits(&self, b: Seq<u8>) -> bool {
        let r = self.spec_range();
        let c = self.content();
        &&& slice_ok(b, r.start as int, r.end as int)
        &&& r.start < r.end
        &&& slice_ok(b, c.start as int, c.end as int)
    }

    /// A copy of the entity.
    pub fn copy(&self) -> (r: EntityRange)
        ensures
            r == *self,
    {
        match self {
            EntityRange::Text { range } => EntityRange::Text {
                range: Span { start: range.start, end: range.end },
            },
            EntityRange::Img { range, url } => EntityRange::Img {
                range: Span { start: range.start, end: range.end },
                url: Span { start: url.start, end: url.end },
            },
            EntityRange::Mention { range, name, id } => EntityRange::Mention {
                range: Span { start: range.start, end: range.end },
                name: Span { start: name.start, end: name.end },
                id: *id,
            },
            EntityRange::Br { range } => EntityRange::Br {
                range: Span { start: range.start, end: range.end },
            },
        }
    }

    pub fn range(&self) -> (r: Span)
        ensures
            r == self.spec_range(),
    {
        match self {
            EntityRange::Text { range } => Span { start: range.start, end: range.end },
            EntityRange::Img { range, .. } => Span { start: range.start, end: range.end },
            EntityRange::Mention { range, .. } => Span { start: range.start, end: range.end },
            EntityRange::Br { range } => Span { start: range.start, end: range.end },
        }
    }

    /// What the reader sees of the entity in the text `s`, if its content
    /// range is a slice of `s`.
    pub fn to_text_entity<'a>(&'a self, s: &'a str) -> (r: Option<TextEntity<'a>>)
        ensures
            r is Some <==> slice_ok(
                s.spec_bytes(),
                self.content().start as int,
                self.content().end as int,
            ),
            r is Some ==> shows(r->0, *self, s.spec_bytes()),
    {
        match self {
            EntityRange::Text { range } => match str_get(s, range.start, range.end) {
                Some(t) => Some(TextEntity::Text(t)),
                None => None,
            },
            EntityRange::Img { url, .. } => match str_get(s, url.start, url.end) {
                Some(t) => Some(TextEntity::Img(t)),
                None => None,
            },
            EntityRange::Mention { name, id, .. } => match str_get(s, name.start, name.end) {
                Some(t) => Some(TextEntity::Mention { name: t, id: *id }),
                None => None,
            },
            EntityRange::Br { range } => match str_get(s, range.start, range.end) {
                Some(_) => Some(TextEntity::Br),
                None => None,
            },
        }
    }
}

/// `t` is what the reader sees of `e` in the text `b`: the same kind, with the
/// bytes of its content range.
pub open spec fn shows(t: TextEntity, e: EntityRange, b: Seq<u8>) -> bool {
    let c = e.content();
    let piece = b.subrange(c.start as int, c.end as int);
    match (t, e) {
        (TextEntity::Text(x), EntityRange::Text { .. }) => x.spec_bytes() == piece,
        (TextEntity::Img(x), EntityRange::Img { .. }) => x.spec_bytes() == piece,
        (TextEntity::Mention { name, id }, EntityRange::Mention { id: i, .. }) => name.spec_bytes()
            == piece && id == i,
        (TextEntity::Br, EntityRange::Br { .. }) => true,
        _ => false,
    }
}

/// The entities cover `0..len` one after another, without gaps or overlaps.
pub open spec fn tiles(es: Seq<EntityRange>, len: int) -> bool {
    &&& es.len() == 0 ==> len == 0
    &&& es.len() > 0 ==> es[0].spec_range().start == 0 && es.last().spec_range().end == len
    &&& forall|i: int|
        0 <= i < es.len() - 1 ==> (#[trigger] es[i]).spec_range().end == es[i + 1].spec_range().start
}

/// A comment's text, cut into the entities the reader sees.
#[derive(Debug, Clone, PartialEq)]
pub struct RichText {
    s: String,
    entities: Vec<EntityRange>,
}

impl RichText {
    /// The text.
    pub closed spec fn text(&self) -> Seq<char> {
        self.s@
    }

    /// The entities, in order.
    pub closed spec fn ranges(&self) -> Seq<EntityRange> {
        self.entities@
    }

    /// Every entity fits the text, and together they cover it.
    pub open spec fn wf(&self) -> bool {
        let b = encode_utf8(self.text());
        &&& forall|i: int| 0 <= i < self.ranges().len() ==> (#[trigger] self.ranges()[i]).fits(b)
        &&& tiles(self.ranges(), b.len() as int)
    }

    /// What the reader sees of each entity, in order.
    pub fn entities<'a>(&'a self) -> (r: Vec<TextEntity<'a>>)
        requires
            self.wf(),
        ensures
            r@.len() == self.ranges().len(),
            forall|i: int|
                0 <= i < r@.len() ==> shows(
                    #[trigger] r@[i],
                    self.ranges()[i],
                    encode_utf8(self.text()),
                ),
    {
        let s = self.s.as_str();
        let mut r: Vec<TextEntity<'a>> = Vec::new();
        let mut i: usize = 0;
        while i < self.entities.len()
            invariant
                0 <= i <= self.entities@.len(),
                r@.len() == i,
                s@ == self.s@,
                self.wf(),
                forall|k: int| 0 <= k < i ==> shows(#[trigger] r@[k], self.entities@[k], s.spec_bytes()),
            decreases self.entities@.len() - i,
        {
            assert(self.ranges()[i as int].fits(encode_utf8(self.text())));
            match self.entities[i].to_text_entity(s) {
                Some(t) => r.push(t),
                None => {
                    // Never taken: every entity fits the text.
                    proof {
                        let c = self.entities@[i as int].content();
                        assert(slice_ok(s.spec_bytes(), c.start as int, c.end as int));
                    }
                },
            }
            i = i + 1;
        }
        r
    }
}

/// The entity among `found` that may be taken in `s`, starts at or after `pos`, and
/// starts first (the earliest in `found` among equals), if there is one.
fn next_entity(found: &Vec<EntityRange>, s: &str, pos: usize) -> (r: Option<usize>)
    ensures
        match r {
            Some(k) => {
                &&& k < found@.len()
                &&& found@[k as int].eligible(s.spec_bytes())
                &&& found@[k as int].spec_range().start >= pos
                &&& forall|j: int|
                    0 <= j < found@.len() && (#[trigger] found@[j]).eligible(s.spec_bytes())
                        && found@[j].spec_range().start >= pos ==> found@[k as int].spec_range().start
                        <= found@[j].spec_range().start
            },
            None => forall|j: int|
                0 <= j < found@.len() && (#[trigger] found@[j]).eligible(s.spec_bytes()) ==> found@[j].spec_range().start
                    < pos,
        },
{
    let mut best: Option<usize> = None;
    let mut j: usize = 0;
    while j < found.len()
        invariant
            0 <= j <= found@.len(),
            match best {
                Some(k) => {
                    &&& k < j
                    &&& found@[k as int].eligible(s.spec_bytes())
                    &&& found@[k as int].spec_range().start >= pos
                    &&& forall|m: int|
                        0 <= m < j && (#[trigger] found@[m]).eligible(s.spec_bytes())
                            && found@[m].spec_range().start >= pos ==> found@[k as int].spec_range().start
                            <= found@[m].spec_range().start
                },
                None => forall|m: int|
                    0 <= m < j && (#[trigger] found@[m]).eligible(s.spec_bytes()) ==> found@[m].spec_range().start
                        < pos,
            },
        decreases found@.len() - j,
    {
        let e = &found[j];
        let r = e.range();
        let is_text = match e {
            EntityRange::Text { .. } => true,
            _ => false,
        };
        let fits = !is_text && r.start < r.end && str_get(s, r.start, r.end).is_some()
            && e.to_text_entity(s).is_some();
        if fits && r.start >= pos {
            match best {
                Some(k) => {
                    if r.start < found[k].range().start {
                        best = Some(j);
                    }
                },
                None => {
                    best = Some(j);
                },
            }
        }
        j = j + 1;
    }
    best
}

/// `e` is left out for `t`, a taken match (no text entity) that starts no
/// later and is not over before `e` starts.
pub open spec fn displaced_by(e: EntityRange, t: EntityRange) -> bool {
    &&& !(t is Text)
    &&& t.spec_range().start <= e.spec_range().start
    &&& e.spec_range().start < t.spec_range().end
}

/// `e` is one of `es`, or is left out for one of them.
pub open spec fn taken_or_displaced(e: EntityRange, es: Seq<EntityRange>) -> bool {
    exists|i: int| 0 <= i < es.len() && (es[i] == e || displaced_by(e, #[trigger] es[i]))
}

proof fn lemma_taken_after_step(
    found: Seq<EntityRange>,
    b: Seq<u8>,
    before: Seq<EntityRange>,
    after: Seq<EntityRange>,
    e: EntityRange,
    k: int,
    pos: int,
)
    requires
        0 <= k < found.len(),
        found[k] == e,
        !(e is Text),
        e.spec_range().start >= pos,
        forall|j: int|
            0 <= j < found.len() && (#[trigger] found[j]).eligible(b) && found[j].spec_range().start
                >= pos ==> e.spec_range().start <= found[j].spec_range().start,
        forall|j: int|
            0 <= j < found.len() && (#[trigger] found[j]).eligible(b) && found[j].spec_range().start
                < pos ==> taken_or_displaced(found[j], before),
        after.len() >= before.len() + 1,
        after.last() == e,
        forall|i: int| 0 <= i < before.len() ==> after[i] == before[i],
    ensures
        forall|j: int|
            0 <= j < found.len() && (#[trigger] found[j]).eligible(b) && found[j].spec_range().start
                < e.spec_range().end ==> taken_or_displaced(found[j], after),
{
    let at = after.len() - 1;
    assert forall|j: int|
        0 <= j < found.len() && (#[trigger] found[j]).eligible(b) && found[j].spec_range().start
            < e.spec_range().end implies taken_or_displaced(found[j], after) by {
        if found[j].spec_range().start < pos {
            let w = choose|w: int|
                0 <= w < before.len() && (before[w] == found[j] || displaced_by(
                    found[j],
                    #[trigger] before[w],
                ));
            assert(after[w] == before[w]);
        } else {
            assert(after[at] == e);
            assert(displaced_by(found[j], after[at]));
        }
    }
}

/// `r` is cut from the matches `found`: every entity fits its text and
/// together they cover it; every entity but the text entities comes from
/// `found`; every match that may be taken is taken or left out for an
/// earlier match; and no two text entities stand side by side.
pub open spec fn cut_from(r: RichText, found: Seq<EntityRange>) -> bool {
    let b = encode_utf8(r.text());
    &&& r.wf()
    &&& forall|i: int|
        0 <= i < r.ranges().len() ==> (#[trigger] r.ranges()[i]) is Text || found.contains(
            r.ranges()[i],
        )
    &&& forall|j: int|
        0 <= j < found.len() && (#[trigger] found[j]).eligible(b) ==> taken_or_displaced(
            found[j],
            r.ranges(),
        )
    &&& forall|i: int|
        0 <= i < r.ranges().len() - 1 ==> !((#[trigger] r.ranges()[i]) is Text && r.ranges()[i
            + 1] is Text)
}

/// Cuts `s` into entities: of `found`, those that fit the text are taken in
/// order of their start, each one that overlaps one taken before is left
/// out, and the gaps between them become text entities.
pub fn build_rich_text(s: String, found: Vec<EntityRange>) -> (r: RichText)
    ensures
        r.text() == s@,
        cut_from(r, found@),
{
    let t = s.as_str();
    let len = t.as_bytes().len();
    let mut entities: Vec<EntityRange> = Vec::new();
    let mut pos: usize = 0;
    let ghost b = t.spec_bytes();
    loop
        invariant
            b == t.spec_bytes(),
            t@ == s@,
            len == b.len(),
            0 <= pos <= len,
            is_char_boundary(b, pos as int),
            forall|i: int| 0 <= i < entities@.len() ==> (#[trigger] entities@[i]).fits(b),
            forall|i: int|
                0 <= i < entities@.len() ==> (#[trigger] entities@[i]) is Text || found@.contains(
                    entities@[i],
                ),
            entities@.len() == 0 ==> pos == 0,
            entities@.len() > 0 ==> entities@[0].spec_range().start == 0
                && entities@.last().spec_range().end == pos,
            forall|i: int|
                0 <= i < entities@.len() - 1 ==> (#[trigger] entities@[i]).spec_range().end
                    == entities@[i + 1].spec_range().start,
            forall|j: int|
                0 <= j < found@.len() && (#[trigger] found@[j]).eligible(b) && found@[j].spec_range().start
                    < pos ==> taken_or_displaced(found@[j], entities@),
            forall|i: int|
                0 <= i < entities@.len() - 1 ==> !((#[trigger] entities@[i]) is Text
                    && entities@[i + 1] is Text),
            entities@.len() > 0 ==> !(entities@.last() is Text),
        ensures
            forall|j: int|
                0 <= j < found@.len() && (#[trigger] found@[j]).eligible(b) ==> taken_or_displaced(
                    found@[j],
                    entities@,
                ),
        decreases len - pos,
    {
        match next_entity(&found, t, pos) {
            None => {
                break ;
            },
            Some(k) => {
                let ghost before = entities@;
                let e = found[k].copy();
                let er = e.range();
                if er.start > pos {
                    let gap = EntityRange::Text { range: Span { start: pos, end: er.start } };
                    entities.push(gap);
                }
                entities.push(e);
                let ghost at = entities@.len() - 1;
                proof {
                    lemma_taken_after_step(found@, b, before, entities@, e, k as int, pos as int);
                }
                pos = er.end;
            },
        }
    }
    let ghost before = entities@;
    if pos < len {
        entities.push(EntityRange::Text { range: Span { start: pos, end: len } });
        proof {
            assert forall|j: int|
                0 <= j < found@.len() && (#[trigger] found@[j]).eligible(b) implies taken_or_displaced(
                found@[j],
                entities@,
            ) by {
                let w = choose|w: int|
                    0 <= w < before.len() && (before[w] == found@[j] || displaced_by(
                        found@[j],
                        #[trigger] before[w],
                    ));
                assert(entities@[w] == before[w]);
            }
        }
    }
    RichText { s, entities }
}

/// Pattern of an inline image; its `img` group is the image url.
pub const IMG_RULE: &'static str = r#"<img src="(?P<img>[^"]+)" />"#;

/// Pattern of a mention of another comment; `at` is the shown name and `id`
/// the mentioned comment's id.
pub const MENTION_RULE: &'static str = r#"<a .*data-id="(?P<id>\d+)".*>(?P<at>[^<]*)</a>"#;

/// Pattern of a line break.
pub const BR_RULE: &'static str = "<br>";

/// Pattern of the opening tag of a mention; `id` is the mentioned comment's id.
pub const MENTION_TAG_RULE: &'static str = r#"<a .*data-id="(?P<id>\d+)".*>"#;

/// Where one match of a pattern lies: the whole match and two of its named
/// groups, as byte ranges of the haystack.
#[derive(Clone, Copy, Debug, PartialEq, Eq, Structural)]
pub struct Capture {
    pub whole: Option<Span>,
    pub first: Option<Span>,
    pub second: Option<Span>,
}

/// A byte range that the haystack `b` can be cut at.
pub open spec fn span_ok(sp: Option<Span>, b: Seq<u8>) -> bool {
    sp is Some ==> slice_ok(b, sp->0.start as int, sp->0.end as int)
}

/// The matches of `pattern` in `haystack`, in order, each with the groups
/// named `first` and `second`; `None` where the pattern does not compile.
pub uninterp spec fn captures_of(
    pattern: Seq<char>,
    haystack: Seq<char>,
    first: Seq<char>,
    second: Seq<char>,
) -> Option<Seq<Capture>>;

/// Relies on regex::Regex::new, which fails on a malformed pattern, and on
/// regex::Regex::captures_iter: the successive matches with the groups named
/// `first` and `second` where they took part. The result depends on the
/// arguments alone; every offset lies on a character boundary of the haystack.
#[verifier::external_body]
fn find_captures(pattern: &str, haystack: &str, first: &str, second: &str) -> (r: Option<
    Vec<Capture>,
>)
    ensures
        match r {
            Some(v) => captures_of(pattern@, haystack@, first@, second@) == Some(v@),
            None => captures_of(pattern@, haystack@, first@, second@) is None,
        },
        r matches Some(v) ==> forall|i: int|
            0 <= i < v@.len() ==> span_ok((#[trigger] v@[i]).whole, haystack.spec_bytes())
                && span_ok(v@[i].first, haystack.spec_bytes()) && span_ok(
                v@[i].second,
                haystack.spec_bytes(),
            ),
{
    let span = |m: regex::Match| Span { start: m.start(), end: m.end() };
    Regex::new(pattern).ok().map(|re| re.captures_iter(haystack).map(
        |c| Capture { whole: c.get(0).map(span), first: c.name(first).map(span), second: c.name(second).map(span) },
    ).collect())
}

/// Every byte of `b` is an ASCII digit.
pub open spec fn all_digits(b: Seq<u8>) -> bool {
    forall|i: int| 0 <= i < b.len() ==> 48 <= #[trigger] b[i] <= 57
}

/// The number the ASCII digits `b` spell in decimal.
pub open spec fn digits_value(b: Seq<u8>) -> nat
    decreases b.len(),
{
    if b.len() == 0 {
        0
    } else {
        digits_value(b.drop_last()) * 10 + (b.last() - 48) as nat
    }
}

/// The number spelled by `b[start..end]`, when that is a non-empty run of
/// ASCII digits whose value fits a `u64`.
pub open spec fn spec_parse_id(b: Seq<u8>, start: int, end: int) -> Option<u64> {
    let d = b.subrange(start, end);
    if 0 <= start < end <= b.len() && all_digits(d) && digits_value(d) <= u64::MAX {
        Some(digits_value(d) as u64)
    } else {
        None
    }
}

/// Reads the decimal number in `b[start..end]`.
pub fn parse_id(b: &[u8], start: usize, end: usize) -> (r: Option<u64>)
    ensures
        r == spec_parse_id(b@, start as int, end as int),
{
    if start >= end || end > b.len() {
        return None;
    }
    let mut v: u64 = 0;
    let mut i: usize = start;
    while i < end
        invariant
            start <= i <= end <= b@.len(),
            all_digits(b@.subrange(start as int, i as int)),
            v == digits_value(b@.subrange(start as int, i as int)),
        decreases end - i,
    {
        let c = b[i];
        proof {
            assert(b@.subrange(start as int, i + 1).drop_last() =~= b@.subrange(
                start as int,
                i as int,
            ));
        }
        if c < 48 || c > 57 {
            proof {
                assert(b@.subrange(start as int, end as int)[i - start] == c);
            }
            return None;
        }
        let d = (c - 48) as u64;
        if v > (u64::MAX - d) / 10 {
            proof {
                let full = b@.subrange(start as int, end as int);
                let pre = b@.subrange(start as int, i + 1);
                assert(pre.drop_last() =~= b@.subrange(start as int, i as int));
                assert(v * 10 + d > u64::MAX) by (nonlinear_arith)
                    requires
                        v > (u64::MAX - d) / 10,
                        d <= 9,
                ;
                assert(digits_value(pre) == v * 10 + d);
                if all_digits(full) {
                    lemma_digits_grow(full, i - start + 1);
                    assert(full.subrange(0, i - start + 1) =~= pre);
                }
            }
            return None;
        }
        v = v * 10 + d;
        i = i + 1;
    }
    proof {
        assert(b@.subrange(start as int, i as int) =~= b@.subrange(start as int, end as int));
    }
    Some(v)
}

/// A longer run of digits is worth at least as much as its prefix.
proof fn lemma_digits_grow(d: Seq<u8>, k: int)
    requires
        0 <= k <= d.len(),
        all_digits(d),
    ensures
        digits_value(d.subrange(0, k)) <= digits_value(d),
    decreases d.len() - k,
{
    if k < d.len() {
        lemma_digits_grow(d, k + 1);
        assert(d.subrange(0, k + 1).drop_last() =~= d.subrange(0, k));
        assert(48 <= d[k] <= 57);
        assert(d.subrange(0, k + 1).last() == d[k]);
    } else {
        assert(d.subrange(0, k) =~= d);
    }
}

/// Which pattern a match came from.
#[derive(Clone, Copy, Debug, PartialEq, Eq, Structural)]
pub enum Rule {
    Img,
    Mention,
    Br,
}

/// The entity a match of `rule` in the text `b` stands for, if it has the
/// groups the rule needs and, for a mention, a readable id.
pub open spec fn entity_of(c: Capture, rule: Rule, b: Seq<u8>) -> Option<EntityRange> {
    match rule {
        Rule::Img => match (c.whole, c.first) {
            (Some(w), Some(u)) => Some(EntityRange::Img { range: w, url: u }),
            _ => None,
        },
        Rule::Mention => match (c.whole, c.first, c.second) {
            (Some(w), Some(at), Some(id)) => match spec_parse_id(b, id.start as int, id.end as int) {
                Some(v) => Some(EntityRange::Mention { range: w, name: at, id: v }),
                None => None,
            },
            _ => None,
        },
        Rule::Br => match c.whole {
            Some(w) => Some(EntityRange::Br { range: w }),
            None => None,
        },
    }
}

/// The entities the matches `cs` of `rule` stand for, in order.
pub open spec fn gather(cs: Seq<Capture>, rule: Rule, b: Seq<u8>) -> Seq<EntityRange>
    decreases cs.len(),
{
    if cs.len() == 0 {
        seq![]
    } else {
        let rest = gather(cs.drop_last(), rule, b);
        match entity_of(cs.last(), rule, b) {
            Some(e) => rest.push(e),
            None => rest,
        }
    }
}

/// Appends to `out` the entities that the matches `cs` of `rule` in `s` stand for.
pub fn gather_entities(s: &str, cs: &Vec<Capture>, rule: Rule, out: &mut Vec<EntityRange>)
    ensures
        final(out)@ == old(out)@ + gather(cs@, rule, s.spec_bytes()),
{
    let b = s.as_bytes();
    let ghost out0 = out@;
    let mut i: usize = 0;
    while i < cs.len()
        invariant
            0 <= i <= cs@.len(),
            b@ == s.spec_bytes(),
            out@ == out0 + gather(cs@.subrange(0, i as int), rule, b@),
        decreases cs@.len() - i,
    {
        let c = cs[i];
        proof {
            assert(cs@.subrange(0, i + 1).drop_last() =~= cs@.subrange(0, i as int));
        }
        let e: Option<EntityRange> = match rule {
            Rule::Img => match (c.whole, c.first) {
                (Some(w), Some(u)) => Some(EntityRange::Img { range: w, url: u }),
                _ => None,
            },
            Rule::Mention => match (c.whole, c.first, c.second) {
                (Some(w), Some(at), Some(id)) => match parse_id(b, id.start, id.end) {
                    Some(v) => Some(EntityRange::Mention { range: w, name: at, id: v }),
                    None => None,
                },
                _ => None,
            },
            Rule::Br => match c.whole {
                Some(w) => Some(EntityRange::Br { range: w }),
                None => None,
            },
        };
        match e {
            Some(e) => {
                out.push(e);
                proof {
                    assert(out@ =~= out0 + gather(cs@.subrange(0, i + 1), rule, b@));
                }
            },
            None => {},
        }
        i = i + 1;
    }
    proof {
        assert(cs@.subrange(0, i as int) =~= cs@);
    }
}

/// The entities that the matches of `pattern` for `rule` in `s` stand for.
pub open spec fn rule_matches(
    pattern: Seq<char>,
    s: Seq<char>,
    first: Seq<char>,
    second: Seq<char>,
    rule: Rule,
) -> Seq<EntityRange> {
    match captures_of(pattern, s, first, second) {
        Some(cs) => gather(cs, rule, encode_utf8(s)),
        None => seq![],
    }
}

/// The images, mentions and line breaks that the patterns find in `s`, rule
/// by rule, each rule's in order.
pub open spec fn comment_matches(s: Seq<char>) -> Seq<EntityRange> {
    rule_matches(IMG_RULE@, s, "img"@, ""@, Rule::Img) + rule_matches(
        MENTION_RULE@,
        s,
        "at"@,
        "id"@,
        Rule::Mention,
    ) + rule_matches(BR_RULE@, s, ""@, ""@, Rule::Br)
}

fn gather_rule(
    s: &str,
    pattern: &str,
    first: &str,
    second: &str,
    rule: Rule,
    out: &mut Vec<EntityRange>,
)
    ensures
        final(out)@ == old(out)@ + rule_matches(pattern@, s@, first@, second@, rule),
{
    match find_captures(pattern, s, first, second) {
        Some(cs) => gather_entities(s, &cs, rule, out),
        None => {
            assert(out@ =~= old(out)@ + rule_matches(pattern@, s@, first@, second@, rule));
        },
    }
}

/// Reads a comment's HTML: its images, mentions and line breaks become
/// entities, and what lies between them text. A match that overlaps one
/// taken before it is left out, as is a mention whose id does not fit a `u64`.
pub fn parse_comment(s: String) -> (r: RichText)
    ensures
        r.text() == s@,
        cut_from(r, comment_matches(s@)),
{
    let mut found: Vec<EntityRange> = Vec::new();
    gather_rule(s.as_str(), IMG_RULE, "img", "", Rule::Img, &mut found);
    gather_rule(s.as_str(), MENTION_RULE, "at", "id", Rule::Mention, &mut found);
    gather_rule(s.as_str(), BR_RULE, "", "", Rule::Br, &mut found);
    assert(found@ =~= comment_matches(s@));
    build_rich_text(s, found)
}

/// The comment ids mentioned by the matches `cs` in the text `b`, in order.
pub open spec fn mentioned(cs: Seq<Capture>, b: Seq<u8>) -> Seq<u64>
    decreases cs.len(),
{
    if cs.len() == 0 {
        seq![]
    } else {
        let rest = mentioned(cs.drop_last(), b);
        match cs.last().first {
            Some(id) => match spec_parse_id(b, id.start as int, id.end as int) {
                Some(v) => rest.push(v),
                None => rest,
            },
            None => rest,
        }
    }
}

/// The comment ids that the matches `cs` of the mention tag in `s` name.
pub fn mention_ids(s: &str, cs: &Vec<Capture>) -> (r: Vec<u64>)
    ensures
        r@ == mentioned(cs@, s.spec_bytes()),
{
    let b = s.as_bytes();
    let mut r: Vec<u64> = Vec::new();
    let mut i: usize = 0;
    while i < cs.len()
        invariant
            0 <= i <= cs@.len(),
            b@ == s.spec_bytes(),
            r@ == mentioned(cs@.subrange(0, i as int), b@),
        decreases cs@.len() - i,
    {
        proof {
            assert(cs@.subrange(0, i + 1).drop_last() =~= cs@.subrange(0, i as int));
        }
        match cs[i].first {
            Some(id) => match parse_id(b, id.start, id.end) {
                Some(v) => r.push(v),
                None => {},
            },
            None => {},
        }
        i = i + 1;
    }
    proof {
        assert(cs@.subrange(0, i as int) =~= cs@);
    }
    r
}

/// The ids of the comments that the HTML `s` mentions, in order.
pub open spec fn spec_mentions(s: Seq<char>) -> Seq<u64> {
    match captures_of(MENTION_TAG_RULE@, s, "id"@, ""@) {
        Some(cs) => mentioned(cs, encode_utf8(s)),
        None => seq![],
    }
}

/// The ids of the comments that a comment's HTML mentions, in order.
pub fn extract_mentions(comment: &str) -> (r: Vec<u64>)
    ensures
        r@ == spec_mentions(comment@),
{
    match find_captures(MENTION_TAG_RULE, comment, "id", "") {
        Some(cs) => mention_ids(comment, &cs),
        None => Vec::new(),
    }
}

/// A comment as the comment service hands it out.
#[derive(Clone, Debug, PartialEq)]
pub struct Tucao {
    pub comment_id: u64,
    pub comment_author: String,
    /// The comment's HTML.
    pub comment_content: String,
    pub vote_positive: u32,
    pub vote_negative: u32,
}

impl Tucao {
    /// A copy of the comment.
    pub fn duplicate(&self) -> (r: Tucao)
        ensures
            r == *self,
    {
        Tucao {
            comment_id: self.comment_id,
            comment_author: self.comment_author.clone(),
            comment_content: self.comment_content.clone(),
            vote_positive: self.vote_positive,
            vote_negative: self.vote_negative,
        }
    }
}

/// Every mention that `x` made is recorded in `m1` or waits in `s1`, given that
/// it was recorded in `m0` or waited in `s0` before `id` was taken from the
/// top of `s0` and recorded.
proof fn lemma_still_covered(
    x: Comment,
    m0: Map<u64, Option<Comment>>,
    m1: Map<u64, Option<Comment>>,
    s0: Seq<u64>,
    base: Seq<u64>,
    s1: Seq<u64>,
    id: u64,
)
    requires
        mentions_covered(x, m0, s0),
        s0 == base.push(id),
        s1.len() >= base.len(),
        s1.subrange(0, base.len() as int) == base,
        m1.contains_key(id),
        forall|k: u64| m0.contains_key(k) ==> m1.contains_key(k),
    ensures
        mentions_covered(x, m1, s1),
{
    assert forall|j: int| 0 <= j < x.mentions@.len() implies m1.contains_key(
        #[trigger] x.mentions@[j],
    ) || s1.contains(x.mentions@[j]) by {
        let v = x.mentions@[j];
        if !m0.contains_key(v) && v != id {
            assert(s0.contains(v));
            let p = choose|p: int| 0 <= p < s0.len() && s0[p] == v;
            assert(p < base.len());
            assert(s1[p] == s1.subrange(0, base.len() as int)[p]);
        }
    }
}

/// A comment, with its text cut into entities and the comments it mentions.
#[derive(Clone, Debug, PartialEq)]
pub struct Comment {
    pub id: u64,
    pub author: String,
    pub oo: u32,
    pub xx: u32,
    pub content: RichText,
    pub mentions: Vec<u64>,
}

/// `c` is read from `t`: the same id, author and votes, its HTML cut into
/// entities at the pattern matches, and the ids that HTML mentions.
pub open spec fn read_from(c: Comment, t: Tucao) -> bool {
    &&& c.id == t.comment_id
    &&& c.author == t.comment_author
    &&& c.oo == t.vote_positive
    &&& c.xx == t.vote_negative
    &&& c.content.text() == t.comment_content@
    &&& cut_from(c.content, comment_matches(t.comment_content@))
    &&& c.mentions@ == spec_mentions(t.comment_content@)
}

/// Some comment of `ts` has the id `k`.
pub open spec fn has_id(ts: Seq<Tucao>, k: u64) -> bool {
    exists|j: int| 0 <= j < ts.len() && (#[trigger] ts[j]).comment_id == k
}

impl Comment {
    /// Reads a comment of the comment service.
    pub fn from_tucao(tucao: Tucao) -> (r: Comment)
        ensures
            read_from(r, tucao),
    {
        let mentions = extract_mentions(tucao.comment_content.as_str());
        Comment {
            id: tucao.comment_id,
            author: tucao.comment_author,
            oo: tucao.vote_positive,
            xx: tucao.vote_negative,
            content: parse_comment(tucao.comment_content),
            mentions,
        }
    }
}

/// The hot comments of a post, and every comment they mention, directly or
/// through another mentioned comment; `None` for one that could not be found.
#[derive(Clone, Debug, PartialEq)]
pub struct Comments {
    pub hot: Vec<Comment>,
    pub mentions: BTreeMap<u64, Option<Comment>>,
}

/// A post of the picture board.
#[derive(Clone, Debug, PartialEq)]
pub struct Pic {
    pub author: String,
    pub link: String,
    pub id: String,
    pub oo: u32,
    pub xx: u32,
    pub text: String,
    pub images: Vec<String>,
    pub comments: Comments,
}

/// Every id that `c` mentions is recorded in `mentions`, or still `pending`.
pub open spec fn mentions_covered(c: Comment, mentions: Map<u64, Option<Comment>>, pending: Seq<u64>) -> bool {
    forall|j: int|
        0 <= j < c.mentions@.len() ==> mentions.contains_key(#[trigger] c.mentions@[j])
            || pending.contains(c.mentions@[j])
}

/// The comments mentioned, recorded under their own ids.
pub open spec fn keyed_by_id(mentions: Map<u64, Option<Comment>>) -> bool {
    forall|k: u64|
        #[trigger] mentions.contains_key(k) && mentions[k] is Some ==> mentions[k]->0.id == k
}

/// Gathers a post's comments: the hot ones, read in order, and under its id
/// every comment they mention, directly or through another mentioned
/// comment, looked up among `tucao` (the last one with that id), or `None`
/// where it is not there.
pub fn collect_comments(hot_tucao: Vec<Tucao>, tucao: Vec<Tucao>) -> (r: Comments)
    ensures
        r.hot@.len() == hot_tucao@.len(),
        forall|i: int| 0 <= i < r.hot@.len() ==> read_from(#[trigger] r.hot@[i], hot_tucao@[i]),
        keyed_by_id(r.mentions@),
        forall|k: u64|
            #[trigger] r.mentions@.contains_key(k) ==> (r.mentions@[k] is Some <==> has_id(
                tucao@,
                k,
            )),
        forall|k: u64|
            #[trigger] r.mentions@.contains_key(k) && r.mentions@[k] is Some ==> exists|j: int|
                0 <= j < tucao@.len() && (#[trigger] tucao@[j]).comment_id == k && read_from(
                    r.mentions@[k]->0,
                    tucao@[j],
                ),
        forall|i: int|
            0 <= i < r.hot@.len() ==> mentions_covered(#[trigger] r.hot@[i], r.mentions@, seq![]),
        forall|k: u64|
            #[trigger] r.mentions@.contains_key(k) && r.mentions@[k] is Some ==> mentions_covered(
                r.mentions@[k]->0,
                r.mentions@,
                seq![],
            ),
{
    broadcast use group_hash_axioms, group_btree_axioms;

    let mut hot: Vec<Comment> = Vec::new();
    let mut stack: Vec<u64> = Vec::new();
    let mut i: usize = 0;
    while i < hot_tucao.len()
        invariant
            0 <= i <= hot_tucao@.len(),
            hot@.len() == i,
            forall|k: int|
                0 <= k < i ==> read_from(#[trigger] hot@[k], hot_tucao@[k]),
            forall|k: int|
                0 <= k < i ==> mentions_covered(#[trigger] hot@[k], Map::empty(), stack@),
        decreases hot_tucao@.len() - i,
    {
        let c = Comment::from_tucao(hot_tucao[i].duplicate());
        let ghost before = stack@;
        let mut j: usize = 0;
        while j < c.mentions.len()
            invariant
                0 <= j <= c.mentions@.len(),
                stack@ == before + c.mentions@.subrange(0, j as int),
            decreases c.mentions@.len() - j,
        {
            stack.push(c.mentions[j]);
            proof {
                assert(stack@ =~= before + c.mentions@.subrange(0, j + 1));
            }
            j = j + 1;
        }
        proof {
            assert(c.mentions@.subrange(0, j as int) =~= c.mentions@);
            assert forall|k: int| 0 <= k < i implies mentions_covered(
                #[trigger] hot@[k],
                Map::empty(),
                stack@,
            ) by {
                assert forall|m: int| 0 <= m < hot@[k].mentions@.len() implies stack@.contains(
                    #[trigger] hot@[k].mentions@[m],
                ) by {
                    assert(before.contains(hot@[k].mentions@[m]));
                    let x = choose|x: int| 0 <= x < before.len() && before[x] == hot@[k].mentions@[m];
                    assert(stack@[x] == before[x]);
                }
            }
            assert forall|m: int| 0 <= m < c.mentions@.len() implies stack@.contains(
                #[trigger] c.mentions@[m],
            ) by {
                assert(stack@[before.len() + m] == c.mentions@[m]);
            }
        }
        hot.push(c);
        i = i + 1;
    }
    let mut pool: HashMap<u64, Tucao> = HashMap::new();
    let mut k: usize = 0;
    while k < tucao.len()
        invariant
            0 <= k <= tucao@.len(),
            forall|id: u64| #[trigger] pool@.contains_key(id) ==> pool@[id].comment_id == id,
            forall|id: u64| #[trigger] pool@.contains_key(id) <==> has_id(tucao@.subrange(0, k as int), id),
            forall|id: u64|
                #[trigger] pool@.contains_key(id) ==> exists|j: int|
                    0 <= j < k && pool@[id] == #[trigger] tucao@[j],
        decreases tucao@.len() - k,
    {
        let t = tucao[k].duplicate();
        let ghost pool0 = pool@;
        pool.insert(tucao[k].comment_id, t);
        proof {
            let pre = tucao@.subrange(0, k as int);
            let post = tucao@.subrange(0, k + 1);
            assert forall|id: u64| #[trigger] pool@.contains_key(id) <==> has_id(post, id) by {
                if pool@.contains_key(id) {
                    if id == tucao@[k as int].comment_id {
                        assert(post[k as int] == tucao@[k as int]);
                    } else {
                        assert(has_id(pre, id));
                        let j = choose|j: int| 0 <= j < pre.len() && (#[trigger] pre[j]).comment_id == id;
                        assert(post[j] == pre[j]);
                    }
                }
                if has_id(post, id) {
                    let j = choose|j: int| 0 <= j < post.len() && (#[trigger] post[j]).comment_id == id;
                    if j < k {
                        assert(pre[j] == post[j]);
                        assert(has_id(pre, id));
                    }
                }
            }
            assert forall|id: u64| #[trigger] pool@.contains_key(id) implies exists|j: int|
                0 <= j < k + 1 && pool@[id] == #[trigger] tucao@[j] by {
                if id == tucao@[k as int].comment_id {
                    assert(pool@[id] == tucao@[k as int]);
                } else {
                    assert(pool0.contains_key(id));
                }
            }
        }
        k = k + 1;
    }
    proof {
        assert(tucao@.subrange(0, k as int) =~= tucao@);
    }
    let mut mentions: BTreeMap<u64, Option<Comment>> = BTreeMap::new();
    loop
        invariant
            hot@.len() == hot_tucao@.len(),
            forall|k: int|
                0 <= k < hot@.len() ==> read_from(#[trigger] hot@[k], hot_tucao@[k]),
            keyed_by_id(mentions@),
            forall|id: u64| #[trigger] pool@.contains_key(id) ==> pool@[id].comment_id == id,
            forall|id: u64|
                #[trigger] pool@.contains_key(id) ==> exists|j: int|
                    0 <= j < tucao@.len() && pool@[id] == #[trigger] tucao@[j],
            forall|id: u64|
                has_id(tucao@, id) <==> (#[trigger] pool@.contains_key(id) || (mentions@.contains_key(id)
                    && mentions@[id] is Some)),
            forall|id: u64|
                #[trigger] mentions@.contains_key(id) && mentions@[id] is None ==> !pool@.contains_key(id),
            forall|id: u64|
                #[trigger] mentions@.contains_key(id) && mentions@[id] is Some ==> exists|j: int|
                    0 <= j < tucao@.len() && (#[trigger] tucao@[j]).comment_id == id && read_from(
                        mentions@[id]->0,
                        tucao@[j],
                    ),
            forall|k: int|
                0 <= k < hot@.len() ==> mentions_covered(#[trigger] hot@[k], mentions@, stack@),
            forall|k: u64|
                #[trigger] mentions@.contains_key(k) && mentions@[k] is Some ==> mentions_covered(
                    mentions@[k]->0,
                    mentions@,
                    stack@,
                ),
        ensures
            stack@.len() == 0,
        decreases pool@.len(), stack@.len(),
    {
        let ghost stack0 = stack@;
        let ghost mentions0 = mentions@;
        match stack.pop() {
            None => {
                break ;
            },
            Some(id) => {
                proof {
                    assert(stack0 == stack@.push(id));
                }
                let ghost pool0 = pool@;
                match pool.remove(&id) {
                    Some(t) => {
                        let c = Comment::from_tucao(t);
                        let mut j: usize = 0;
                        let ghost base = stack@;
                        while j < c.mentions.len()
                            invariant
                                0 <= j <= c.mentions@.len(),
                                stack@ == base + c.mentions@.subrange(0, j as int),
                            decreases c.mentions@.len() - j,
                        {
                            stack.push(c.mentions[j]);
                            proof {
                                assert(stack@ =~= base + c.mentions@.subrange(0, j + 1));
                            }
                            j = j + 1;
                        }
                        proof {
                            assert(c.mentions@.subrange(0, j as int) =~= c.mentions@);
                            assert(stack@.subrange(0, base.len() as int) =~= base);
                            assert(pool0.contains_key(id));
                            assert(pool0.remove(id).len() < pool0.len());
                        }
                        let ghost cc = c;
                        let ghost j0 = choose|j: int| 0 <= j < tucao@.len() && pool0[id] == #[trigger] tucao@[j];
                        mentions.insert(id, Some(c));
                        proof {
                            assert(tucao@[j0].comment_id == id);
                            assert(read_from(mentions@[id]->0, tucao@[j0]));
                            assert(pool@ == pool0.remove(id));
                            assert forall|m: int| 0 <= m < cc.mentions@.len() implies stack@.contains(
                                #[trigger] cc.mentions@[m],
                            ) by {
                                assert(stack@[base.len() + m] == cc.mentions@[m]);
                            }
                            assert forall|k: int| 0 <= k < hot@.len() implies mentions_covered(
                                #[trigger] hot@[k],
                                mentions@,
                                stack@,
                            ) by {
                                lemma_still_covered(hot@[k], mentions0, mentions@, stack0, base, stack@, id);
                            }
                            assert forall|k: u64|
                                #[trigger] mentions@.contains_key(k) && mentions@[k] is Some implies mentions_covered(
                                mentions@[k]->0,
                                mentions@,
                                stack@,
                            ) by {
                                if k != id {
                                    lemma_still_covered(mentions0[k]->0, mentions0, mentions@, stack0, base, stack@, id);
                                }
                            }
                        }
                    },
                    None => {
                        proof {
                            assert(pool@ =~= pool0);
                        }
                        if !mentions.contains_key(&id) {
                            mentions.insert(id, None);
                        }
                        proof {
                            assert(stack@.subrange(0, stack@.len() as int) =~= stack@);
                            assert forall|k: int| 0 <= k < hot@.len() implies mentions_covered(
                                #[trigger] hot@[k],
                                mentions@,
                                stack@,
                            ) by {
                                lemma_still_covered(hot@[k], mentions0, mentions@, stack0, stack@, stack@, id);
                            }
                            assert forall|k: u64|
                                #[trigger] mentions@.contains_key(k) && mentions@[k] is Some implies mentions_covered(
                                mentions@[k]->0,
                                mentions@,
                                stack@,
                            ) by {
                                lemma_still_covered(mentions0[k]->0, mentions0, mentions@, stack0, stack@, stack@, id);
                            }
                        }
                    },
                }
            },
        }
    }
    proof {
        let empty: Seq<u64> = seq![];
        assert(stack@ =~= empty);
        assert forall|k: int| 0 <= k < hot@.len() implies mentions_covered(
            #[trigger] hot@[k],
            mentions@,
            empty,
        ) by {
            assert(mentions_covered(hot@[k], mentions@, stack@));
        }
        assert forall|k: u64|
            #[trigger] mentions@.contains_key(k) && mentions@[k] is Some implies mentions_covered(
            mentions@[k]->0,
            mentions@,
            empty,
        ) by {
            assert(mentions_covered(mentions@[k]->0, mentions@, stack@));
        }
    }
    Comments { hot, mentions }
}

} // verus!
