use dapp_registry::text::{filter_html, filter_slug, filter_text, parse_u64, u64_to_string};
use dapp_registry::utils::unordered_map_pagination;
use dapp_registry::web4::{format_icon, Web4Response};

fn s(x: &str) -> String {
    String::from(x)
}

#[test]
fn filter_slug_keeps_the_slug_alphabet() {
    assert_eq!(filter_slug(s("Hello World!")), "HelloWorld");
    assert_eq!(filter_slug(s("a_b-c")), "a_b-c");
    assert_eq!(filter_slug(s("<script>")), "script");
    assert_eq!(filter_slug(s("")), "");
    assert_eq!(filter_slug(s("äöü1")), "äöü1");
}

#[test]
fn filter_text_replaces_newlines_and_drops_strays() {
    assert_eq!(filter_text(Some(s("a\nb"))).unwrap(), "a b");
    // filtering is idempotent: a second pass changes nothing
    let once = filter_text(Some(s("a\nb <x> 100%")));
    assert_eq!(filter_text(once.clone()), once);
    assert_eq!(filter_text(Some(s("keep _.-,!()/=:+?#%| it"))).unwrap(), "keep _.-,!()/=:+?#%| it");
    assert_eq!(filter_text(Some(s("no <tags> & \"quotes\""))).unwrap(), "no tags  quotes");
    assert!(filter_text(None).is_none());
}

#[test]
fn filter_html_escapes_angle_brackets() {
    assert_eq!(filter_html(Some(s("a<b>c"))).unwrap(), "a&lt;b&gt;c");
    assert_eq!(filter_html(Some(s("line1\nline2"))).unwrap(), "line1\nline2");
    assert_eq!(filter_html(Some(s("back\\slash"))).unwrap(), "back\\slash");
    assert!(filter_html(None).is_none());
}

#[test]
fn decimal_reader_and_writer() {
    assert_eq!(parse_u64("0"), Some(0));
    assert_eq!(parse_u64("1234"), Some(1234));
    assert_eq!(parse_u64("18446744073709551615"), Some(u64::MAX));
    assert_eq!(parse_u64("18446744073709551616"), None);
    assert_eq!(parse_u64(""), None);
    assert_eq!(parse_u64("12a"), None);
    assert_eq!(parse_u64("-1"), None);
    assert_eq!(u64_to_string(0), "0");
    assert_eq!(u64_to_string(907), "907");
    assert_eq!(u64_to_string(u64::MAX), "18446744073709551615");
    // the writer and the reader are inverse to each other
    for v in [0u64, 1, 9, 10, 99, 12345, u64::MAX] {
        assert_eq!(parse_u64(&u64_to_string(v)), Some(v));
    }
}

#[test]
fn format_icon_renders_anchors() {
    let home = format_icon(Some(s("alice")), "twitter", true);
    assert_eq!(
        home,
        "<a href=\"https://twitter.com/alice\" target=\"_blank\"><svg class=\"icon\" height=\"20\" width=\"20\"><use xlink:href=\"#icon-twitter\"></use></svg></a>"
    );
    let full = format_icon(Some(s("bob")), "telegram", false);
    assert_eq!(
        full,
        "<a href=\"https://t.me/bob\" target=\"_blank\" rel=\"noopener noreferrer\" class=\"link-item btn btn-lg btn-link\" title=\"telegram\"><svg class=\"icon icon-telegram\" height=\"20\" width=\"20\"><use xlink:href=\"#icon-telegram\"></use></svg></a>"
    );
    // the chat handle is already a full link
    let discord = format_icon(Some(s("https://discord.gg/xyz")), "discord", true);
    assert!(discord.starts_with("<a href=\"https://discord.gg/xyz\""));
    assert_eq!(format_icon(None, "twitter", true), "");
    assert_eq!(format_icon(Some(s("")), "twitter", false), "");
    // an unknown icon still renders an anchor, with an empty link
    assert!(format_icon(Some(s("x")), "unknown", true).starts_with("<a href=\"\""));
}

#[test]
fn pagination_windows() {
    let v: Vec<u32> = vec![10, 20, 30, 40];
    let page = unordered_map_pagination(&v, Some(1), Some(2));
    assert_eq!(page.len(), 2);
    assert_eq!(page[0], (1, &20));
    assert_eq!(page[1], (2, &30));
    assert_eq!(unordered_map_pagination(&v, None, None).len(), 4);
    assert_eq!(unordered_map_pagination(&v, Some(9), None).len(), 0);
    assert_eq!(unordered_map_pagination(&v, Some(3), Some(u64::MAX)).len(), 1);
    let resp = Web4Response::status(200);
    match resp {
        Web4Response::Status { status } => assert_eq!(status, 200),
        _ => panic!("expected a bare status"),
    }
}
