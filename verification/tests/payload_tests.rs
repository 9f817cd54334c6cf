use res_relay::numeral::{i32_to_dec, u32_to_dec};
use res_relay::payload::{build_payload, image_url, Payload};
use res_relay::record::Res;

fn sample_record(no: i32, oekaki_id: Option<i32>) -> Res {
    Res {
        no,
        name_and_trip: String::from("nanashi◆abc"),
        datetime: 1700000000000000,
        datetime_text: String::from("2023/11/15 07:13"),
        id: String::from("Xy12Zw34"),
        main_text: String::from("hello there"),
        main_text_html: String::from("<p>hello there</p>"),
        oekaki_id,
    }
}

#[test]
fn u32_rendering() {
    assert_eq!(u32_to_dec(0), "0");
    assert_eq!(u32_to_dec(7), "7");
    assert_eq!(u32_to_dec(10), "10");
    assert_eq!(u32_to_dec(4294967295), "4294967295");
}

#[test]
fn i32_rendering() {
    assert_eq!(i32_to_dec(0), "0");
    assert_eq!(i32_to_dec(123), "123");
    assert_eq!(i32_to_dec(-5), "-5");
    assert_eq!(i32_to_dec(i32::MIN), "-2147483648");
    assert_eq!(i32_to_dec(i32::MAX), "2147483647");
}

#[test]
fn display_line_follows_template() {
    let r = sample_record(1234, None);
    assert_eq!(
        r.display_line(),
        "### __1234 nanashi◆abc 2023/11/15 07:13 ID: Xy12Zw34__\nhello there\n"
    );
}

#[test]
fn image_url_is_prefix_number_extension() {
    assert_eq!(image_url("https://img/", 7), "https://img/7.png");
    assert_eq!(image_url("", 0), "0.png");
}

#[test]
fn payload_without_image_reference_is_text_only() {
    let r = sample_record(5, None);
    let p = build_payload(&r, "https://img/");
    match p {
        Payload::TextOnly { content } => {
            assert_eq!(
                content,
                "### __5 nanashi◆abc 2023/11/15 07:13 ID: Xy12Zw34__\nhello there\n"
            );
        }
        Payload::WithImage { .. } => panic!("expected a text-only payload"),
    }
}

#[test]
fn payload_with_image_reference_carries_the_url() {
    let r = sample_record(5, Some(7));
    let p = build_payload(&r, "https://img/");
    match p {
        Payload::WithImage { content, image_url } => {
            assert_eq!(
                content,
                "### __5 nanashi◆abc 2023/11/15 07:13 ID: Xy12Zw34__\nhello there\n"
            );
            assert_eq!(image_url, "https://img/7.png");
        }
        Payload::TextOnly { .. } => panic!("expected an image payload"),
    }
}
