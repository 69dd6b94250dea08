use jandan_pic::database::{link_to, Database};
use jandan_pic::text::{push_decimal, trim_start_at};

fn db() -> Database {
    Database::new("SECRET-REDACTED".to_string(), "@jandan_pic".to_string(), "@jandan_assets".to_string())
}

#[test]
fn get_img_links_into_assets_channel() {
    let mut d = db();
    assert_eq!(d.get_img("https://img.toto.im/large/a.jpg"), None);
    d.put_img("https://img.toto.im/large/a.jpg".to_string(), 42);
    assert_eq!(
        d.get_img("https://img.toto.im/large/a.jpg"),
        Some("https://t.me/jandan_assets/42".to_string())
    );
    assert_eq!(d.get_img("https://img.toto.im/large/b.jpg"), None);
}

#[test]
fn put_img_replaces_earlier_record() {
    let mut d = db();
    d.put_img("u1".to_string(), 1);
    d.put_img("u2".to_string(), 2);
    d.put_img("u1".to_string(), 10);
    assert_eq!(d.get_img("u1"), Some("https://t.me/jandan_assets/10".to_string()));
    assert_eq!(d.get_img("u2"), Some("https://t.me/jandan_assets/2".to_string()));
    assert_eq!(d.img_entries().len(), 2);
}

#[test]
fn get_comment_links_into_assets_channel() {
    let mut d = db();
    assert_eq!(d.get_comment(12116426), None);
    d.put_comment(12116426, 7);
    assert_eq!(d.get_comment(12116426), Some("https://t.me/jandan_assets/7".to_string()));
    assert_eq!(d.get_comment(1), None);
    assert_eq!(d.comment_entries().get(&12116426), Some(&7));
}

#[test]
fn links_drop_every_leading_at() {
    assert_eq!(link_to("@@chan", 0), "https://t.me/chan/0");
    assert_eq!(link_to("chan@x", 18446744073709551615), "https://t.me/chan@x/18446744073709551615");
    assert_eq!(link_to("", 5), "https://t.me//5");
}

#[test]
fn decimal_and_trim_helpers() {
    let mut s = String::from("n=");
    push_decimal(&mut s, 1090);
    assert_eq!(s, "n=1090");
    assert_eq!(trim_start_at("@@a@"), "a@");
    assert_eq!(trim_start_at("@@@"), "");
    assert_eq!(trim_start_at("é@"), "é@");
}
