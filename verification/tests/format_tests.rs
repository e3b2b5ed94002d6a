use irc_announcer::format::{
    dec_of_u64, format_message, format_size, replace_all_str, strip_after_last_dot,
};
use irc_announcer::item::{ApiItem, Attributes};

fn item() -> ApiItem {
    ApiItem {
        id: "123".to_string(),
        attributes: Attributes {
            category: "Movies".to_string(),
            kind: "Encode".to_string(),
            name: "A Film 2024".to_string(),
            resolution: Some("1080p".to_string()),
            freeleech: "100%".to_string(),
            internal: 1,
            double_upload: true,
            size: 1610612736,
            uploader: "someone".to_string(),
            download_link: "https://example.org/x/torrent/123.abc".to_string(),
            bumped_at: "2024-01-01T00:00:00Z".to_string(),
        },
    }
}

#[test]
fn one_gigabyte_formats_to_one_point_zero_zero() {
    assert_eq!(format_size(1073741824).as_str(), "1.00");
}

#[test]
fn one_and_a_half_gigabytes_formats_to_one_point_five_zero() {
    assert_eq!(format_size(1610612736).as_str(), "1.50");
}

#[test]
fn small_sizes_round_to_hundredths() {
    assert_eq!(format_size(0).as_str(), "0.00");
    // half a hundredth rounds up
    assert_eq!(format_size(5368709).as_str(), "0.00");
    assert_eq!(format_size(5368710).as_str(), "0.01");
}

#[test]
fn decimal_rendering_is_exact() {
    assert_eq!(dec_of_u64(0).as_str(), "0");
    assert_eq!(dec_of_u64(7).as_str(), "7");
    assert_eq!(dec_of_u64(1234567890).as_str(), "1234567890");
    assert_eq!(dec_of_u64(u64::MAX).as_str(), "18446744073709551615");
}

#[test]
fn download_link_is_pluralized_and_stripped() {
    let plural = replace_all_str("https://example.org/x/torrent/123.abc", "torrent", "torrents");
    assert_eq!(plural.as_str(), "https://example.org/x/torrents/123.abc");
    let stripped = strip_after_last_dot(plural.as_str());
    assert_eq!(stripped.as_str(), "https://example.org/x/torrents/123");
}

#[test]
fn link_without_dot_yields_placeholder() {
    assert_eq!(strip_after_last_dot("no-dot-here").as_str(), "N/A");
}

#[test]
fn replace_handles_repeats_and_absence() {
    assert_eq!(replace_all_str("torrenttorrent", "torrent", "torrents").as_str(), "torrentstorrents");
    assert_eq!(replace_all_str("nothing", "torrent", "torrents").as_str(), "nothing");
    assert_eq!(replace_all_str("", "torrent", "torrents").as_str(), "");
}

#[test]
fn full_message_line() {
    let msg = format_message(&item());
    assert_eq!(
        msg.as_str(),
        "Category [Movies] Type [Encode] Name [A Film 2024] Resolution [1080p] \
         Freeleech [100%] Internal [Yes] Double Upload [Yes] Size [1.50 GB] \
         Uploader [someone] Url [https://example.org/x/torrents/123]"
    );
}

#[test]
fn message_placeholders_for_missing_and_unknown() {
    let mut it = item();
    it.attributes.resolution = None;
    it.attributes.internal = 2;
    it.attributes.double_upload = false;
    it.attributes.size = 1073741824;
    it.attributes.download_link = "plain".to_string();
    let msg = format_message(&it);
    assert_eq!(
        msg.as_str(),
        "Category [Movies] Type [Encode] Name [A Film 2024] Resolution [N/A] \
         Freeleech [100%] Internal [N/A] Double Upload [No] Size [1.00 GB] \
         Uploader [someone] Url [N/A]"
    );
}

#[test]
fn internal_zero_renders_no() {
    let mut it = item();
    it.attributes.internal = 0;
    let msg = format_message(&it);
    assert!(msg.as_str().contains("Internal [No]"));
}
