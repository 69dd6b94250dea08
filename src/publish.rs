use vstd::prelude::*;
use vstd::string::StringExecFns;

use crate::database::{message_link, Database};
use crate::spider::{shows, Comment, EntityRange, Pic, RichText, Span, TextEntity};
use vstd::string::StringSliceAdditionalSpecFns;
use vstd::utf8::{decode_utf8, encode_utf8, group_utf8_lib};
use crate::text::{contains, decimal, occurs, push_decimal, replace, replace_all, trim, trim_ws};
use vstd::string::StrSliceExecFns;

verus! {

/// Longest side, in pixels, that the messaging service shows as a photo.
pub const TG_IMAGE_DIMENSION_LIMIT: u32 = 1280;

/// Largest photo, in bytes, that the messaging service accepts.
pub const TG_IMAGE_SIZE_LIMIT: usize = 10000000;

/// Size, in bytes, under which a large image is still sent as a photo.
pub const LOW_QUALITY_IMG_SIZE: usize = 204800;

/// Longest caption, in characters.
pub const TG_CAPTION_LIMIT: usize = 1024;

/// The encodings the bot tells apart.
#[derive(Clone, Copy, Debug, PartialEq, Eq, Structural)]
pub enum ImageFormat {
    Gif,
    Other,
}

/// A downloaded image.
#[derive(Clone, Debug)]
pub struct Image {
    pub format: ImageFormat,
    pub name: String,
    pub width: u32,
    pub height: u32,
    pub data: Vec<u8>,
}

impl Image {
    pub fn is_gif(&self) -> (r: bool)
        ensures
            r == (self.format == ImageFormat::Gif),
    {
        match self.format {
            ImageFormat::Gif => true,
            ImageFormat::Other => false,
        }
    }
}

/// The image is too large to be sent as a photo: big in pixels and not
/// small in bytes, or over the photo size limit.
pub open spec fn spec_too_large(width: u32, height: u32, size: nat) -> bool {
    let side = if width >= height {
        width
    } else {
        height
    };
    (side > TG_IMAGE_DIMENSION_LIMIT && size > LOW_QUALITY_IMG_SIZE) || size > TG_IMAGE_SIZE_LIMIT
}

pub fn image_too_large(img: &Image) -> (r: bool)
    ensures
        r == spec_too_large(img.width, img.height, img.data@.len()),
{
    let side = if img.width >= img.height {
        img.width
    } else {
        img.height
    };
    side > TG_IMAGE_DIMENSION_LIMIT && img.data.len() > LOW_QUALITY_IMG_SIZE || img.data.len()
        > TG_IMAGE_SIZE_LIMIT
}

/// How an image is uploaded on its own.
#[derive(Clone, Copy, Debug, PartialEq, Eq, Structural)]
pub enum Upload {
    /// Converted to MP4 and sent as a video.
    Video,
    /// Sent as a file, uncompressed.
    Document,
    Photo,
}

pub fn upload_kind(img: &Image) -> (r: Upload)
    ensures
        r == (if img.format == ImageFormat::Gif {
            Upload::Video
        } else if spec_too_large(img.width, img.height, img.data@.len()) {
            Upload::Document
        } else {
            Upload::Photo
        }),
{
    if img.is_gif() {
        Upload::Video
    } else if image_too_large(img) {
        Upload::Document
    } else {
        Upload::Photo
    }
}

/// How a post's images are sent.
#[derive(Clone, Copy, Debug, PartialEq, Eq, Structural)]
pub enum SendMode {
    /// One message per image, then the captions.
    OneByOne,
    /// The single image as a file with the first caption.
    SingleDocument,
    /// All images in one album with the first caption.
    PhotoGroup,
}

/// Chooses how to send a post's `count` images, given whether one failed to
/// download, one is too large for a photo, and one is an animation.
pub fn send_mode(count: usize, any_failed: bool, any_too_large: bool, any_gif: bool) -> (r: SendMode)
    ensures
        r == (if count == 0 || any_failed || (any_too_large && any_gif) {
            SendMode::OneByOne
        } else if any_too_large {
            if count == 1 {
                SendMode::SingleDocument
            } else {
                SendMode::OneByOne
            }
        } else {
            SendMode::PhotoGroup
        }),
{
    if count == 0 || any_failed || any_too_large && any_gif {
        SendMode::OneByOne
    } else if any_too_large {
        if count == 1 {
            SendMode::SingleDocument
        } else {
            SendMode::OneByOne
        }
    } else {
        SendMode::PhotoGroup
    }
}

/// The url of the same image in the wanted size and on the wanted host, with
/// the referer that host wants; `None` where that would be a downgrade.
pub open spec fn spec_upgrade(url: Seq<char>, large: bool, sinaimg: bool) -> Option<(Seq<char>, Seq<char>)> {
    let is_large = occurs(url, "/large/"@);
    let is_sinaimg = occurs(url, "sinaimg.cn"@);
    if (is_large && !large) || (is_sinaimg && !sinaimg) {
        None
    } else {
        let referer = if sinaimg {
            "https://weibo.com/"@
        } else {
            "https://jandan.net/"@
        };
        let u1 = if large && !is_large {
            replace_all(replace_all(url, "/mw600/"@, "/large/"@), "/orj360/"@, "/large/"@)
        } else {
            url
        };
        let u2 = if sinaimg && !is_sinaimg {
            replace_all(replace_all(u1, "img.toto.im"@, "tva1.sinaimg.cn"@), "moyu.im"@, "sinaimg.cn"@)
        } else {
            u1
        };
        Some((u2, referer))
    }
}

/// Returns `None` if this conversion is a downgrade.
pub fn upgrade_image_url(url: &str, require_large_image: bool, require_sinaimg: bool) -> (r: Option<
    (String, &'static str),
>)
    ensures
        match spec_upgrade(url@, require_large_image, require_sinaimg) {
            Some((u, referer)) => r matches Some(p) && p.0@ == u && p.1@ == referer,
            None => r is None,
        },
{
    let is_large_image = contains(url, "/large/");
    let is_sinaimg = contains(url, "sinaimg.cn");
    if is_large_image && !require_large_image || is_sinaimg && !require_sinaimg {
        return None;
    }
    let referer = if require_sinaimg {
        "https://weibo.com/"
    } else {
        "https://jandan.net/"
    };
    let mut u = String::from_str(url);
    if require_large_image && !is_large_image {
        proof {
            reveal_strlit("/mw600/");
            reveal_strlit("/orj360/");
        }
        let a = replace(u.as_str(), "/mw600/", "/large/");
        u = replace(a.as_str(), "/orj360/", "/large/");
    }
    if require_sinaimg && !is_sinaimg {
        proof {
            reveal_strlit("img.toto.im");
            reveal_strlit("moyu.im");
        }
        let a = replace(u.as_str(), "img.toto.im", "tva1.sinaimg.cn");
        u = replace(a.as_str(), "moyu.im", "sinaimg.cn");
    }
    Some((u, referer))
}

/// A candidate as a pair of character sequences.
pub open spec fn candidate_view(c: (String, &'static str)) -> (Seq<char>, Seq<char>) {
    (c.0@, c.1@)
}

/// The candidate an upgrade gives, if any.
pub open spec fn opt_candidate(o: Option<(Seq<char>, Seq<char>)>) -> Seq<(Seq<char>, Seq<char>)> {
    match o {
        Some(c) => seq![c],
        None => seq![],
    }
}

/// The candidates tried when downloading an image, best first: large before
/// small, the image host before the board's own.
pub open spec fn spec_candidates(url: Seq<char>) -> Seq<(Seq<char>, Seq<char>)> {
    opt_candidate(spec_upgrade(url, true, true)) + opt_candidate(spec_upgrade(url, true, false))
        + opt_candidate(spec_upgrade(url, false, true)) + opt_candidate(
        spec_upgrade(url, false, false),
    )
}

fn push_candidate(r: &mut Vec<(String, &'static str)>, url: &str, large: bool, sinaimg: bool)
    ensures
        final(r)@.map_values(|c| candidate_view(c)) == old(r)@.map_values(|c| candidate_view(c))
            + opt_candidate(spec_upgrade(url@, large, sinaimg)),
{
    match upgrade_image_url(url, large, sinaimg) {
        Some(c) => {
            r.push(c);
            assert(r@.map_values(|c| candidate_view(c)) =~= old(r)@.map_values(
                |c| candidate_view(c),
            ) + opt_candidate(spec_upgrade(url@, large, sinaimg)));
        },
        None => {
            assert(r@.map_values(|c| candidate_view(c)) =~= old(r)@.map_values(
                |c| candidate_view(c),
            ) + opt_candidate(spec_upgrade(url@, large, sinaimg)));
        },
    }
}

/// The urls and referers to try, in order, when downloading the image at `url`.
pub fn image_candidates(url: &str) -> (r: Vec<(String, &'static str)>)
    ensures
        r@.map_values(|c| candidate_view(c)) == spec_candidates(url@),
{
    let mut r: Vec<(String, &'static str)> = Vec::new();
    assert(r@.map_values(|c| candidate_view(c)) =~= Seq::<(Seq<char>, Seq<char>)>::empty());
    push_candidate(&mut r, url, true, true);
    push_candidate(&mut r, url, true, false);
    push_candidate(&mut r, url, false, true);
    push_candidate(&mut r, url, false, false);
    assert(r@.map_values(|c| candidate_view(c)) =~= spec_candidates(url@));
    r
}

/// `s` with the characters that open Markdown markup escaped.
pub open spec fn spec_md_escape(s: Seq<char>) -> Seq<char> {
    replace_all(
        replace_all(replace_all(replace_all(s, "["@, "\\["@), "*"@, "\\*"@), "_"@, "\\_"@),
        "`"@,
        "\\`"@,
    )
}

pub fn telegram_md_escape(s: &str) -> (r: String)
    ensures
        r@ == spec_md_escape(s@),
{
    proof {
        reveal_strlit("[");
        reveal_strlit("*");
        reveal_strlit("_");
        reveal_strlit("`");
    }
    let a = replace(s, "[", "\\[");
    let b = replace(a.as_str(), "*", "\\*");
    let c = replace(b.as_str(), "_", "\\_");
    replace(c.as_str(), "`", "\\`")
}

/// The Markdown of one entity of a comment: images and mentions that were
/// posted before become links to their messages.
pub open spec fn spec_entity_md(db: Database, t: TextEntity) -> Seq<char> {
    match t {
        TextEntity::Text(s) => spec_md_escape(s@),
        TextEntity::Br => "\n"@,
        TextEntity::Img(url) => match db.img_id(url@) {
            Some(id) => "[［图片］]("@ + message_link(db.assets_channel@, id as nat) + ")"@,
            None => spec_md_escape(url@),
        },
        TextEntity::Mention { name, id } => match db.comment_msg(id) {
            Some(m) => "["@ + name@ + "]("@ + message_link(db.assets_channel@, m as nat) + ")"@,
            None => spec_md_escape(name@),
        },
    }
}

/// The Markdown of a comment's entities, one after another.
pub open spec fn spec_entities_md(db: Database, ts: Seq<TextEntity>) -> Seq<char>
    decreases ts.len(),
{
    if ts.len() == 0 {
        seq![]
    } else {
        spec_entities_md(db, ts.drop_last()) + spec_entity_md(db, ts.last())
    }
}

/// The Markdown of a comment's entities.
pub fn entities_to_tg_md(db: &Database, ts: &Vec<TextEntity>) -> (r: String)
    ensures
        r@ == spec_entities_md(*db, ts@),
{
    let mut r = String::new();
    let mut i: usize = 0;
    while i < ts.len()
        invariant
            0 <= i <= ts@.len(),
            r@ == spec_entities_md(*db, ts@.subrange(0, i as int)),
        decreases ts@.len() - i,
    {
        proof {
            assert(ts@.subrange(0, i + 1).drop_last() =~= ts@.subrange(0, i as int));
        }
        match &ts[i] {
            TextEntity::Text(s) => {
                let e = telegram_md_escape(s);
                r.append(e.as_str());
            },
            TextEntity::Br => {
                r.append("\n");
            },
            TextEntity::Img(url) => match db.get_img(url) {
                Some(link) => {
                    r.append("[［图片］](");
                    r.append(link.as_str());
                    r.append(")");
                },
                None => {
                    let e = telegram_md_escape(url);
                    r.append(e.as_str());
                },
            },
            TextEntity::Mention { name, id } => match db.get_comment(*id) {
                Some(link) => {
                    r.append("[");
                    r.append(name);
                    r.append("](");
                    r.append(link.as_str());
                    r.append(")");
                },
                None => {
                    let e = telegram_md_escape(name);
                    r.append(e.as_str());
                },
            },
        }
        proof {
            assert(r@ =~= spec_entities_md(*db, ts@.subrange(0, i + 1)));
        }
        i = i + 1;
    }
    proof {
        assert(ts@.subrange(0, i as int) =~= ts@);
    }
    r
}

/// The characters of the slice `c` of the UTF-8 text `b`.
pub open spec fn piece(b: Seq<u8>, c: Span) -> Seq<char> {
    decode_utf8(b.subrange(c.start as int, c.end as int))
}

/// The Markdown of the entity `e` of the UTF-8 text `b`.
pub open spec fn spec_range_md(db: Database, e: EntityRange, b: Seq<u8>) -> Seq<char> {
    match e {
        EntityRange::Text { range } => spec_md_escape(piece(b, range)),
        EntityRange::Br { .. } => "\n"@,
        EntityRange::Img { url, .. } => match db.img_id(piece(b, url)) {
            Some(id) => "[［图片］]("@ + message_link(db.assets_channel@, id as nat) + ")"@,
            None => spec_md_escape(piece(b, url)),
        },
        EntityRange::Mention { name, id, .. } => match db.comment_msg(id) {
            Some(m) => "["@ + piece(b, name) + "]("@ + message_link(db.assets_channel@, m as nat)
                + ")"@,
            None => spec_md_escape(piece(b, name)),
        },
    }
}

/// The Markdown of the entities `es` of the UTF-8 text `b`, one after another.
pub open spec fn spec_ranges_md(db: Database, es: Seq<EntityRange>, b: Seq<u8>) -> Seq<char>
    decreases es.len(),
{
    if es.len() == 0 {
        seq![]
    } else {
        spec_ranges_md(db, es.drop_last(), b) + spec_range_md(db, es.last(), b)
    }
}

/// The Markdown of a comment, without leading and trailing white space.
pub open spec fn spec_comment_md(db: Database, c: RichText) -> Seq<char> {
    trim_ws(spec_ranges_md(db, c.ranges(), encode_utf8(c.text())))
}

proof fn lemma_shown_md(db: Database, ts: Seq<TextEntity>, es: Seq<EntityRange>, b: Seq<u8>)
    requires
        ts.len() == es.len(),
        forall|i: int| 0 <= i < ts.len() ==> shows(#[trigger] ts[i], es[i], b),
    ensures
        spec_entities_md(db, ts) == spec_ranges_md(db, es, b),
    decreases ts.len(),
{
    broadcast use group_utf8_lib;

    if ts.len() > 0 {
        let k = ts.len() - 1;
        assert(shows(ts[k], es[k], b));
        lemma_shown_md(db, ts.drop_last(), es.drop_last(), b);
        match ts[k] {
            TextEntity::Text(x) => {
                assert(decode_utf8(x.spec_bytes()) == x@);
            },
            TextEntity::Img(x) => {
                assert(decode_utf8(x.spec_bytes()) == x@);
            },
            TextEntity::Mention { name, .. } => {
                assert(decode_utf8(name.spec_bytes()) == name@);
            },
            TextEntity::Br => {},
        }
    }
}

/// The Markdown of a comment, for the messaging service.
pub fn comment_to_tg_md(db: &Database, comment: &RichText) -> (r: String)
    requires
        comment.wf(),
    ensures
        r@ == spec_comment_md(*db, *comment),
{
    let ts = comment.entities();
    proof {
        lemma_shown_md(*db, ts@, comment.ranges(), encode_utf8(comment.text()));
    }
    let md = entities_to_tg_md(db, &ts);
    String::from_str(trim(md.as_str()))
}

/// The first caption of a post: author, link, text and votes.
pub open spec fn spec_caption_head(pic: Pic) -> Seq<char> {
    "*"@ + replace_all(pic.author@, "*"@, ""@) + "*: https://jandan.net/t/"@ + pic.id@ + "\n"@ + (
    if pic.text@.len() > 0 {
        spec_md_escape(pic.text@) + "\n"@
    } else {
        seq![]
    }) + "*OO*: "@ + decimal(pic.oo as nat) + " *XX*: "@ + decimal(pic.xx as nat)
}

/// The caption block of a hot comment.
pub open spec fn spec_comment_block(db: Database, c: Comment) -> Seq<char> {
    "\n*"@ + replace_all(c.author@, "*"@, ""@) + "*: "@ + spec_comment_md(db, c.content)
        + "\n*OO*: "@ + decimal(c.oo as nat) + ", *XX*: "@ + decimal(c.xx as nat)
}

/// The captions of a post whose first caption is `head` and whose hot
/// comments are `hot`: each block joins the last caption unless that would
/// take it over the caption limit, and then starts a caption of its own.
pub open spec fn spec_captions(db: Database, head: Seq<char>, hot: Seq<Comment>) -> Seq<Seq<char>>
    decreases hot.len(),
{
    if hot.len() == 0 {
        seq![head]
    } else {
        let msgs = spec_captions(db, head, hot.drop_last());
        let block = spec_comment_block(db, hot.last());
        if msgs.last().len() + block.len() > TG_CAPTION_LIMIT {
            msgs.push(block)
        } else {
            msgs.update(msgs.len() - 1, msgs.last() + block)
        }
    }
}

fn caption_head(pic: &Pic) -> (r: String)
    ensures
        r@ == spec_caption_head(*pic),
{
    proof {
        reveal_strlit("*");
    }
    let mut m = String::from_str("*");
    let author = replace(pic.author.as_str(), "*", "");
    m.append(author.as_str());
    m.append("*: https://jandan.net/t/");
    m.append(pic.id.as_str());
    m.append("\n");
    if pic.text.as_str().unicode_len() > 0 {
        let t = telegram_md_escape(pic.text.as_str());
        m.append(t.as_str());
        m.append("\n");
    }
    m.append("*OO*: ");
    push_decimal(&mut m, pic.oo as u64);
    m.append(" *XX*: ");
    push_decimal(&mut m, pic.xx as u64);
    assert(m@ =~= spec_caption_head(*pic));
    m
}

fn comment_block(db: &Database, c: &Comment) -> (r: String)
    requires
        c.content.wf(),
    ensures
        r@ == spec_comment_block(*db, *c),
{
    proof {
        reveal_strlit("*");
    }
    let mut m = String::from_str("\n*");
    let author = replace(c.author.as_str(), "*", "");
    m.append(author.as_str());
    m.append("*: ");
    let md = comment_to_tg_md(db, &c.content);
    m.append(md.as_str());
    m.append("\n*OO*: ");
    push_decimal(&mut m, c.oo as u64);
    m.append(", *XX*: ");
    push_decimal(&mut m, c.xx as u64);
    assert(m@ =~= spec_comment_block(*db, *c));
    m
}

/// The captions of a post, for the messaging service.
pub fn format_caption(db: &Database, pic: &Pic) -> (r: Vec<String>)
    requires
        forall|i: int| 0 <= i < pic.comments.hot@.len() ==> (#[trigger] pic.comments.hot@[i]).content.wf(),
    ensures
        r@.map_values(|m: String| m@) == spec_captions(*db, spec_caption_head(*pic), pic.comments.hot@),
{
    let hot = &pic.comments.hot;
    let ghost head = spec_caption_head(*pic);
    let mut msgs: Vec<String> = Vec::new();
    msgs.push(caption_head(pic));
    proof {
        assert(msgs@.map_values(|m: String| m@) =~= spec_captions(*db, head, hot@.subrange(0, 0)));
    }
    let mut i: usize = 0;
    while i < hot.len()
        invariant
            0 <= i <= hot@.len(),
            msgs@.len() >= 1,
            forall|k: int| 0 <= k < hot@.len() ==> (#[trigger] hot@[k]).content.wf(),
            msgs@.map_values(|m: String| m@) == spec_captions(*db, head, hot@.subrange(0, i as int)),
        decreases hot@.len() - i,
    {
        let ghost before = msgs@.map_values(|m: String| m@);
        proof {
            assert(hot@.subrange(0, i + 1).drop_last() =~= hot@.subrange(0, i as int));
            assert(hot@.subrange(0, i + 1).last() == hot@[i as int]);
        }
        let block = comment_block(db, &hot[i]);
        let last = msgs.pop().unwrap();
        let a = last.as_str().unicode_len();
        let b = block.as_str().unicode_len();
        if a > TG_CAPTION_LIMIT || b > TG_CAPTION_LIMIT - a {
            msgs.push(last);
            msgs.push(block);
            proof {
                assert(msgs@.map_values(|m: String| m@) =~= before.push(block@));
            }
        } else {
            let mut joined = last;
            joined.append(block.as_str());
            msgs.push(joined);
            proof {
                assert(msgs@.map_values(|m: String| m@) =~= before.update(
                    before.len() - 1,
                    before.last() + block@,
                ));
            }
        }
        i = i + 1;
    }
    proof {
        assert(hot@.subrange(0, i as int) =~= hot@);
    }
    msgs
}

} // verus!
