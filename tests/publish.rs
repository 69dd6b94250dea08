use jandan_pic::database::Database;
use jandan_pic::publish::{
    comment_to_tg_md, format_caption, image_candidates, image_too_large, send_mode,
    telegram_md_escape, upgrade_image_url, upload_kind, Image, ImageFormat, SendMode, Upload,
};
use jandan_pic::spider::{collect_comments, parse_comment, Comment, Comments, Pic, Tucao};
use jandan_pic::text::{contains, is_whitespace, replace, trim};
use std::collections::BTreeMap;

#[test]
fn test_upgrade_image_url() {
    assert_eq!(upgrade_image_url("https://img.toto.im/mw600/abcd.jpg", true, true).unwrap().0,
        "https://tva1.sinaimg.cn/large/abcd.jpg"
    );
    assert_eq!(upgrade_image_url("https://img.toto.im/mw600/abcd.jpg", true, false).unwrap().0,
        "https://img.toto.im/large/abcd.jpg"
    );
    assert_eq!(upgrade_image_url("https://img.toto.im/mw600/abcd.jpg", false, true).unwrap().0,
        "https://tva1.sinaimg.cn/mw600/abcd.jpg"
    );
    assert_eq!(upgrade_image_url("https://img.toto.im/mw600/abcd.jpg", false, false).unwrap().0,
        "https://img.toto.im/mw600/abcd.jpg"
    );
    assert!(upgrade_image_url("https://tva1.sinaimg.cn/large/abcd.jpg", true, true).is_some());
    assert!(upgrade_image_url("https://tva1.sinaimg.cn/large/abcd.jpg", false, false).is_none());
    assert!(upgrade_image_url("https://tva1.sinaimg.cn/large/abcd.jpg", true, false).is_none());
    assert!(upgrade_image_url("https://tva1.sinaimg.cn/large/abcd.jpg", false, true).is_none());
}

#[test]
fn upgrade_referers_and_other_hosts() {
    assert_eq!(upgrade_image_url("https://moyu.im/orj360/x.gif", true, true).unwrap(),
        ("https://sinaimg.cn/large/x.gif".to_string(), "https://weibo.com/"));
    assert_eq!(upgrade_image_url("https://moyu.im/orj360/x.gif", false, false).unwrap().1,
        "https://jandan.net/");
}

#[test]
fn candidates_in_order() {
    let c = image_candidates("https://img.toto.im/mw600/abcd.jpg");
    let urls: Vec<&str> = c.iter().map(|(u, _)| u.as_str()).collect();
    assert_eq!(urls, vec![
        "https://tva1.sinaimg.cn/large/abcd.jpg",
        "https://img.toto.im/large/abcd.jpg",
        "https://tva1.sinaimg.cn/mw600/abcd.jpg",
        "https://img.toto.im/mw600/abcd.jpg",
    ]);
    assert_eq!(image_candidates("https://tva1.sinaimg.cn/large/abcd.jpg").len(), 1);
}

#[test]
fn contains_and_replace() {
    assert!(contains("abcabd", "abd"));
    assert!(!contains("abcab", "abd"));
    assert!(contains("x", ""));
    assert_eq!(replace("aaa", "aa", "b"), "ba");
    assert_eq!(replace("a*b**", "*", ""), "ab");
    assert_eq!(replace("é/x/é", "/", "//"), "é//x//é");
}

#[test]
fn markdown_escape() {
    assert_eq!(telegram_md_escape("[a]*b_c`d"), "\\[a]\\*b\\_c\\`d");
    assert_eq!(telegram_md_escape("plain"), "plain");
}

fn image(format: ImageFormat, width: u32, height: u32, size: usize) -> Image {
    Image { format, name: "x".to_string(), width, height, data: vec![0; size] }
}

#[test]
fn large_images() {
    assert!(!image_too_large(&image(ImageFormat::Other, 1280, 100, 300 * 1024)));
    assert!(image_too_large(&image(ImageFormat::Other, 100, 1281, 204801)));
    assert!(!image_too_large(&image(ImageFormat::Other, 5000, 5000, 204800)));
    assert!(image_too_large(&image(ImageFormat::Other, 10, 10, 10_000_001)));
    assert_eq!(upload_kind(&image(ImageFormat::Gif, 10, 10, 10_000_001)), Upload::Video);
    assert_eq!(upload_kind(&image(ImageFormat::Other, 10, 10, 10_000_001)), Upload::Document);
    assert_eq!(upload_kind(&image(ImageFormat::Other, 10, 10, 10)), Upload::Photo);
    assert!(image(ImageFormat::Gif, 1, 1, 1).is_gif());
}

#[test]
fn send_modes() {
    assert_eq!(send_mode(0, false, false, false), SendMode::OneByOne);
    assert_eq!(send_mode(2, true, false, false), SendMode::OneByOne);
    assert_eq!(send_mode(2, false, true, true), SendMode::OneByOne);
    assert_eq!(send_mode(1, false, true, false), SendMode::SingleDocument);
    assert_eq!(send_mode(3, false, true, false), SendMode::OneByOne);
    assert_eq!(send_mode(3, false, false, true), SendMode::PhotoGroup);
}

fn db_with_assets() -> Database {
    let mut d = Database::new("t".to_string(), "@c".to_string(), "@assets".to_string());
    d.put_img("link".to_string(), 3);
    d.put_comment(123, 9);
    d
}

#[test]
fn comment_markdown_links_known_assets() {
    let s = r##"<a href="#tucao-123" data-id="123" class="tucao-link">@name</a> a_b <img src="link" /><br><img src="other_x" />"##;
    let md = comment_to_tg_md(&db_with_assets(), &parse_comment(s.to_string()));
    assert_eq!(md, "[@name](https://t.me/assets/9) a\\_b [［图片］](https://t.me/assets/3)\nother\\_x");
    let empty = Database::new("t".to_string(), "c".to_string(), "a".to_string());
    let md = comment_to_tg_md(&empty, &parse_comment(s.to_string()));
    assert_eq!(md, "@name a\\_b link\nother\\_x");
}

fn tucao(id: u64, content: &str) -> Tucao {
    Tucao {
        comment_id: id,
        comment_author: format!("a*{}", id),
        comment_content: content.to_string(),
        vote_positive: 1,
        vote_negative: 2,
    }
}

fn mention(id: u64) -> String {
    format!(r##"<a href="#tucao-{id}" data-id="{id}" class="tucao-link">@u</a>"##)
}

#[test]
fn comments_follow_mentions() {
    let hot = vec![tucao(1, &format!("{} hi", mention(2)))];
    let all = vec![tucao(2, &format!("{} re", mention(3))), tucao(4, "unrelated")];
    let c = collect_comments(hot, all);
    assert_eq!(c.hot.len(), 1);
    assert_eq!(c.hot[0].id, 1);
    assert_eq!(c.hot[0].mentions, vec![2]);
    assert_eq!(c.mentions.keys().copied().collect::<Vec<_>>(), vec![2, 3]);
    assert_eq!(c.mentions[&2].as_ref().unwrap().id, 2);
    assert!(c.mentions[&3].is_none());
    assert!(!c.mentions.contains_key(&4));
}

#[test]
fn captions_split_at_the_limit() {
    let d = db_with_assets();
    let long = "x".repeat(1000);
    let hot = vec![
        Comment::from_tucao(tucao(7, "short")),
        Comment::from_tucao(tucao(8, &long)),
    ];
    let pic = Pic {
        author: "au*thor".to_string(),
        link: "http://jandan.net/t/5".to_string(),
        id: "5".to_string(),
        oo: 10,
        xx: 0,
        text: "pic_text".to_string(),
        images: vec![],
        comments: Comments { hot, mentions: BTreeMap::new() },
    };
    let caps = format_caption(&d, &pic);
    assert_eq!(caps.len(), 2);
    assert_eq!(
        caps[0],
        "*author*: https://jandan.net/t/5\npic\\_text\n*OO*: 10 *XX*: 0\n*a7*: short\n*OO*: 1, *XX*: 2"
    );
    assert_eq!(caps[1], format!("\n*a8*: {}\n*OO*: 1, *XX*: 2", long));
}

#[test]
fn comment_markdown_is_trimmed() {
    let empty = Database::new("t".to_string(), "c".to_string(), "a".to_string());
    assert_eq!(comment_to_tg_md(&empty, &parse_comment(" a".to_string())), "a");
    assert_eq!(comment_to_tg_md(&empty, &parse_comment("<br>x <br>".to_string())), "x");
    assert_eq!(comment_to_tg_md(&empty, &parse_comment("\u{3000}y\t".to_string())), "y");
}

#[test]
fn trim_follows_unicode_white_space() {
    assert_eq!(trim("  a b \n"), "a b");
    assert_eq!(trim("\u{a0}\u{2009}x\u{85}"), "x");
    assert_eq!(trim(" \t "), "");
    assert_eq!(trim("\u{200b}x"), "\u{200b}x");
    for c in ['\t', '\n', ' ', '\u{85}', '\u{a0}', '\u{1680}', '\u{2000}', '\u{200a}', '\u{2028}', '\u{3000}', 'a', '\u{200b}'] {
        assert_eq!(is_whitespace(c), c.is_whitespace());
    }
}
