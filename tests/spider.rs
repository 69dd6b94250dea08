use jandan_pic::spider::{
    build_rich_text, extract_mentions, parse_comment, parse_id, str_get, Comment, EntityRange, Span,
    TextEntity, Tucao,
};
use jandan_pic::wayback_machine::{SaveReq, UserStatusResp};

#[test]
fn rich_text() {
    let s = r##"<a href="#tucao-123" data-id="123" class="tucao-link">@name</a> COMMENT <img src="link" /><br>"##;
    let r = parse_comment(s.to_string());
    let r = r.entities();
    assert_eq!(
        r,
        vec![
            TextEntity::Mention {
                name: "@name",
                id: 123
            },
            TextEntity::Text(" COMMENT ",),
            TextEntity::Img("link",),
            TextEntity::Br
        ]
    )
}

#[test]
fn plain_comment_is_one_text() {
    let r = parse_comment("just text".to_string());
    assert_eq!(r.entities(), vec![TextEntity::Text("just text")]);
    let r = parse_comment(String::new());
    assert_eq!(r.entities(), vec![]);
}

#[test]
fn breaks_and_text_interleave() {
    let r = parse_comment("a<br>b<br>".to_string());
    assert_eq!(
        r.entities(),
        vec![TextEntity::Text("a"), TextEntity::Br, TextEntity::Text("b"), TextEntity::Br]
    );
}

#[test]
fn overlapping_entities_keep_the_first() {
    let found = vec![
        EntityRange::Br { range: Span { start: 2, end: 6 } },
        EntityRange::Img { range: Span { start: 1, end: 4 }, url: Span { start: 2, end: 3 } },
        EntityRange::Br { range: Span { start: 40, end: 41 } },
    ];
    let r = build_rich_text("0123456789".to_string(), found);
    assert_eq!(
        r.entities(),
        vec![TextEntity::Text("0"), TextEntity::Img("2"), TextEntity::Text("456789")]
    );
}

#[test]
fn extract_mentions_reads_ids() {
    let c = r##"<a href="#tucao-12116426" data-id="12116426" class="tucao-link">@x</a> hi"##;
    assert_eq!(extract_mentions(c), vec![12116426]);
    assert_eq!(extract_mentions("no mention"), Vec::<u64>::new());
}

#[test]
fn parse_id_limits() {
    assert_eq!(parse_id(b"x123y", 1, 4), Some(123));
    assert_eq!(parse_id(b"18446744073709551615", 0, 20), Some(u64::MAX));
    assert_eq!(parse_id(b"18446744073709551616", 0, 20), None);
    assert_eq!(parse_id(b"12a", 0, 3), None);
    assert_eq!(parse_id(b"12", 1, 1), None);
    assert_eq!(parse_id(b"12", 1, 3), None);
}

#[test]
fn str_get_respects_char_boundaries() {
    let s = "aé b";
    assert_eq!(str_get(s, 0, 1), Some("a"));
    assert_eq!(str_get(s, 1, 3), Some("é"));
    assert_eq!(str_get(s, 1, 2), None);
    assert_eq!(str_get(s, 3, 2), None);
    assert_eq!(str_get(s, 0, 6), None);
    assert_eq!(str_get(s, 5, 5), Some(""));
}

#[test]
fn comment_from_tucao() {
    let c = Comment::from_tucao(Tucao {
        comment_id: 5,
        comment_author: "someone".to_string(),
        comment_content: r##"<a href="#tucao-9" data-id="9" class="tucao-link">@x</a> ok"##.to_string(),
        vote_positive: 3,
        vote_negative: 1,
    });
    assert_eq!(c.id, 5);
    assert_eq!(c.author, "someone");
    assert_eq!(c.oo, 3);
    assert_eq!(c.xx, 1);
    assert_eq!(c.mentions, vec![9]);
    assert_eq!(
        c.content.entities(),
        vec![TextEntity::Mention { name: "@x", id: 9 }, TextEntity::Text(" ok")]
    );
}

#[test]
fn archive_records() {
    let s = UserStatusResp { available: 1, daily_captures: 2, daily_captures_limit: 3, processing: 0 };
    assert!(s.daily_captures < s.daily_captures_limit);
    let r = SaveReq {
        url: "https://jandan.net/t/1".to_string(),
        capture_all: true,
        capture_outlinks: false,
        force_get: true,
        skip_first_archive: true,
    };
    assert!(r.capture_all && !r.capture_outlinks);
}
