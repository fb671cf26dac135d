use base64::Engine;
use image::{DynamicImage, GenericImageView, ImageBuffer, ImageFormat, Luma, Rgba};
use ozon_research::contracts::ImagePayload;
use ozon_research::failure::Failure;
use ozon_research::image_batch::{
    bind_images, finish_images_at, image_error, image_refs, plan_image, ImageBatch, ImagePlan,
};
use ozon_research::image_hosts::{
    check_doh_reply, dns_name, doh_fallback_enabled, is_public_ip, is_tun_fake_ip,
    parse_doh_addresses, parse_ipv4, resolve_public_addresses, v4, FallbackSetting, HostAddress,
    Resolution,
};
use ozon_research::images::{
    after_encoding, after_reply, append_bounded, append_doh, encode_image, exceeds_edge,
    fetch_failure, finish_encoding, finish_image, fit_picture, inspect_image, open_image,
    pixel_failure, shrink_image, supported_mime, validate_dimensions, validate_url, AfterEncoding,
    AfterReply, Color, Encoding, FetchFault, FetchedImage, Format, ImageReply, Picture, PixelFault,
    Pixels, MAX_OUTPUT_BYTES, MAX_OUTPUT_EDGE, MAX_SOURCE_BYTES,
};
use ozon_research::json::Json;
use ozon_research::ledger::StoredRef;
use sha2::{Digest, Sha256};
use std::io::Cursor;

fn json(text: &str) -> Json {
    Json::parse(text).unwrap()
}

fn fixture(format: ImageFormat, width: u32, height: u32) -> Vec<u8> {
    let image = DynamicImage::ImageRgba8(ImageBuffer::from_fn(width, height, |x, y| {
        Rgba([(x % 251) as u8, (y % 239) as u8, ((x + y) % 233) as u8, 255])
    }));
    let mut bytes = Cursor::new(Vec::new());
    image.write_to(&mut bytes, format).unwrap();
    bytes.into_inner()
}

fn png_with_dimensions(width: u32, height: u32) -> Vec<u8> {
    fn crc32(bytes: &[u8]) -> u32 {
        let mut crc = u32::MAX;
        for byte in bytes {
            crc ^= u32::from(*byte);
            for _ in 0..8 {
                crc = (crc >> 1) ^ (0xedb8_8320 & 0_u32.wrapping_sub(crc & 1));
            }
        }
        !crc
    }

    let mut png = fixture(ImageFormat::Png, 8, 6);
    png[16..20].copy_from_slice(&width.to_be_bytes());
    png[20..24].copy_from_slice(&height.to_be_bytes());
    let crc = crc32(&png[12..29]);
    png[29..33].copy_from_slice(&crc.to_be_bytes());
    png
}

#[test]
fn accepts_only_the_exact_cdn_https_origin() {
    for valid in ["https://ir.ozone.ru/image.jpg", "https://IR.OZONE.RU:443/path?q=1"] {
        assert!(validate_url(valid).is_ok(), "{valid}");
    }
    for invalid in [
        "http://ir.ozone.ru/image.jpg",
        "https://user@ir.ozone.ru/image.jpg",
        "https://ir.ozone.ru:444/image.jpg",
        "https://evil.ir.ozone.ru/image.jpg",
        "https://ir.ozone.ru.evil.test/image.jpg",
        "https://127.0.0.1/image.jpg",
    ] {
        assert!(validate_url(invalid).is_err(), "{invalid}");
    }
    assert!(validate_url(&format!("https://ir.ozone.ru/{}", "x".repeat(2048))).is_err());
}

fn ip4(a: u8, b: u8, c: u8, d: u8) -> HostAddress {
    HostAddress::V4(v4(a, b, c, d))
}

fn ip6(segments: [u16; 8]) -> HostAddress {
    HostAddress::V6(segments.iter().fold(0u128, |bits, s| bits * 0x1_0000 + u128::from(*s)))
}

#[test]
fn rejects_non_public_addresses_including_mapped_ipv4() {
    for ip in [
        ip4(0, 0, 0, 0),
        ip4(10, 0, 0, 1),
        ip4(100, 64, 0, 1),
        ip4(127, 0, 0, 1),
        ip4(169, 254, 1, 1),
        ip4(172, 16, 0, 1),
        ip4(192, 168, 1, 1),
        ip4(224, 0, 0, 1),
        ip6([0, 0, 0, 0, 0, 0, 0, 0]),
        ip6([0, 0, 0, 0, 0, 0, 0, 1]),
        ip6([0, 0, 0, 0, 0, 0xffff, 0x7f00, 1]),
        ip6([0x64, 0xff9b, 0, 0, 0, 0, 0xa00, 1]),
        ip6([0xfc00, 0, 0, 0, 0, 0, 0, 1]),
        ip6([0xfe80, 0, 0, 0, 0, 0, 0, 1]),
        ip6([0xff02, 0, 0, 0, 0, 0, 0, 1]),
        ip6([0x2001, 0xdb8, 0, 0, 0, 0, 0, 1]),
    ] {
        assert!(!is_public_ip(ip), "{ip:?}");
    }
    for ip in [
        ip4(8, 8, 8, 8),
        ip4(1, 1, 1, 1),
        ip6([0x2606, 0x4700, 0x4700, 0, 0, 0, 0, 0x1111]),
    ] {
        assert!(is_public_ip(ip), "{ip:?}");
    }
}

#[test]
fn kept_blocks_are_not_public() {
    for ip in [
        ip4(192, 0, 0, 9),
        ip4(192, 0, 2, 1),
        ip4(192, 88, 99, 1),
        ip4(198, 51, 100, 1),
        ip4(203, 0, 113, 1),
        ip4(255, 255, 255, 255),
        ip6([0x2001, 0, 0, 0, 0, 0, 0, 1]),
        ip6([0x2001, 2, 0, 0, 0, 0, 0, 1]),
        ip6([0x2002, 0, 0, 0, 0, 0, 0, 1]),
        ip6([0x3ff0, 0, 0, 0, 0, 0, 0, 1]),
        ip6([0x4000, 0, 0, 0, 0, 0, 0, 1]),
    ] {
        assert!(!is_public_ip(ip), "{ip:?}");
    }
    for ip in [
        ip4(100, 63, 0, 1),
        ip4(172, 32, 0, 1),
        ip4(192, 0, 1, 1),
        ip4(223, 255, 255, 255),
        ip6([0, 0, 0, 0, 0, 0xffff, 0x0808, 0x0808]),
        ip6([0x2001, 3, 0, 0, 0, 0, 0, 1]),
    ] {
        assert!(is_public_ip(ip), "{ip:?}");
    }
}

#[test]
fn accepts_only_valid_public_doh_cname_answers() {
    let valid = r#"{
        "Status": 0,
        "TC": false,
        "Question": [{"name": "ir.ozone.ru.", "type": 1}],
        "Answer": [
            {"name": "ir.ozone.ru.", "type": 5, "TTL": 60, "data": "cdn.example.net."},
            {"name": "cdn.example.net.", "type": 1, "TTL": 60, "data": "185.73.195.116"},
            {"name": "cdn.example.net.", "type": 1, "TTL": 60, "data": "185.73.193.119"}
        ]
    }"#;
    let addresses = parse_doh_addresses(valid).unwrap();
    assert_eq!(addresses.len(), 2);
    assert!(addresses.iter().all(|address| is_public_ip(HostAddress::V4(*address))));

    for invalid in [
        r#"{"Status": 0, "TC": false,
            "Question": [{"name": "example.com.", "type": 1}],
            "Answer": [{"name": "example.com.", "type": 1, "data": "93.184.216.34"}]}"#,
        r#"{"Status": 0, "TC": false,
            "Question": [{"name": "ir.ozone.ru.", "type": 1}],
            "Answer": [{"name": "ir.ozone.ru.", "type": 1, "data": "127.0.0.1"}]}"#,
        r#"{"Status": 0, "TC": false,
            "Question": [{"name": "ir.ozone.ru.", "type": 1}],
            "Answer": [
                {"name": "ir.ozone.ru.", "type": 1, "data": "185.73.195.116"},
                {"name": "attacker.example.", "type": 1, "data": "93.184.216.34"}
            ]}"#,
    ] {
        assert!(parse_doh_addresses(invalid).is_err());
    }
}

fn answer(records: &str) -> String {
    format!(
        r#"{{"Status":0,"TC":false,"Question":[{{"name":"IR.ozone.ru","type":1}}],"Answer":[{records}]}}"#
    )
}

#[test]
fn doh_answers_fail_by_what_is_wrong_with_them() {
    let cname = |a: &str, b: &str| format!(r#"{{"name":"{a}","type":5,"data":"{b}"}}"#);
    let record = |a: &str, ip: &str| format!(r#"{{"name":"{a}","type":1,"data":"{ip}"}}"#);
    let host = "ir.ozone.ru";
    let deep: Vec<String> = (0..9)
        .map(|i| {
            let from = if i == 0 { host.to_owned() } else { format!("a{i}.x") };
            cname(&from, &format!("a{}.x", i + 1))
        })
        .collect();
    let many: Vec<String> = (1..=17).map(|i| record(host, &format!("8.8.8.{i}"))).collect();
    for (records, detail) in [
        (String::new(), "secure image DNS returned no public address"),
        (record(host, "10.0.0.1"), "secure image DNS returned a non-public address"),
        (record(host, "08.8.8.8"), "invalid secure image DNS address"),
        (record("other.x", "8.8.8.8"), "unrelated secure image DNS answer"),
        (record("-bad.x", "8.8.8.8"), "invalid secure image DNS answer"),
        (
            r#"{"name":"ir.ozone.ru","type":28,"data":"::1"}"#.to_owned(),
            "unexpected secure image DNS answer",
        ),
        (
            format!("{},{}", cname(host, "a.x"), cname(host, "b.x")),
            "ambiguous secure image DNS answer",
        ),
        (
            format!("{},{}", cname(host, "a.x"), cname("a.x", host)),
            "cyclic secure image DNS answer",
        ),
        (
            format!("{},{}", cname(host, "a.x"), record(host, "8.8.8.8")),
            "invalid secure image DNS alias answer",
        ),
        (deep.join(","), "secure image DNS alias chain is too deep"),
        (many.join(","), "secure image DNS returned too many addresses"),
    ] {
        assert_eq!(
            parse_doh_addresses(&answer(&records)).unwrap_err().message(),
            format!("SOURCE_BLOCKED: {detail}")
        );
    }
    let twice = format!("{0},{0}", record(host, "8.8.8.8"));
    assert_eq!(parse_doh_addresses(&answer(&twice)).unwrap(), [v4(8, 8, 8, 8)]);
    assert_eq!(parse_doh_addresses(&answer(&many[..16].join(","))).unwrap().len(), 16);
    assert!(parse_doh_addresses("no json").is_err());
    assert!(parse_doh_addresses(r#"{"Status":3,"TC":false,"Question":[]}"#).is_err());
}

#[test]
fn host_names_and_addresses_are_read_exactly() {
    assert_eq!(dns_name("CDN.Example.net.").as_deref(), Some("cdn.example.net"));
    assert_eq!(dns_name("cdn.example.net").as_deref(), Some("cdn.example.net"));
    for name in ["", ".", "a..b", "-a.b", "a-.b", "a_b.c"] {
        assert_eq!(dns_name(name), None, "{name}");
    }
    assert!(dns_name(&"a".repeat(63)).is_some());
    assert!(dns_name(&"a".repeat(64)).is_none());
    assert_eq!(parse_ipv4("1.2.3.4"), Some(0x01020304));
    for text in ["1.2.3", "1.2.3.4.5", "256.0.0.1", "01.2.3.4", "1.2.3.", " 1.2.3.4", "1.2.3.x"] {
        assert_eq!(parse_ipv4(text), None, "{text}");
    }
}

#[test]
fn recognizes_only_the_tun_benchmark_range_as_fake_dns() {
    for ip in [ip4(198, 18, 0, 1), ip4(198, 19, 255, 254)] {
        assert!(is_tun_fake_ip(ip), "{ip:?}");
    }
    for ip in [
        ip4(10, 0, 0, 1),
        ip4(192, 168, 0, 1),
        ip4(198, 20, 0, 1),
        ip6([0x2001, 0xdb8, 0, 0, 0, 0, 0, 1]),
    ] {
        assert!(!is_tun_fake_ip(ip), "{ip:?}");
    }
}

#[test]
fn lookups_lead_to_public_addresses_only() {
    let found = vec![ip4(8, 8, 8, 8), ip4(1, 1, 1, 1), ip4(8, 8, 8, 8)];
    match resolve_public_addresses(&found, true).unwrap() {
        Resolution::Addresses(v) => assert_eq!(v, [ip4(8, 8, 8, 8), ip4(1, 1, 1, 1)]),
        Resolution::AskSecurely => panic!(),
    }
    let fake = vec![ip4(198, 18, 0, 1)];
    assert!(matches!(resolve_public_addresses(&fake, true), Ok(Resolution::AskSecurely)));
    for (found, secure, detail) in [
        (vec![], true, "image host has no public address"),
        (fake, false, "image host resolved through a synthetic DNS address"),
        (
            vec![ip4(8, 8, 8, 8), ip4(10, 0, 0, 1)],
            true,
            "image host resolved to a non-public address",
        ),
    ] {
        assert_eq!(
            resolve_public_addresses(&found, secure).unwrap_err().message(),
            format!("SOURCE_BLOCKED: {detail}")
        );
    }
    assert!(doh_fallback_enabled(&FallbackSetting::Absent).unwrap());
    assert!(doh_fallback_enabled(&FallbackSetting::Text("auto".to_owned())).unwrap());
    assert!(!doh_fallback_enabled(&FallbackSetting::Text("off".to_owned())).unwrap());
    assert!(doh_fallback_enabled(&FallbackSetting::Text("on".to_owned())).is_err());
    assert!(doh_fallback_enabled(&FallbackSetting::Unreadable).is_err());
    assert!(check_doh_reply(200, Some(16_384)).is_ok());
    assert!(check_doh_reply(200, Some(16_385)).is_err());
    assert!(check_doh_reply(500, None).is_err());
}

#[test]
fn rejects_forged_mime_and_decoded_bomb_dimensions() {
    let png = fixture(ImageFormat::Png, 8, 6);
    assert!(prepare_image(&png, "image/jpeg").unwrap_err().message().starts_with("SOURCE_CHANGED:"));
    assert!(validate_dimensions(5_000, 4_001)
        .unwrap_err()
        .message()
        .starts_with("RESULT_TOO_LARGE:"));
    assert!(prepare_image(&png_with_dimensions(5_000, 4_001), "image/png")
        .unwrap_err()
        .message()
        .starts_with("RESULT_TOO_LARGE:"));
    assert_eq!(inspect_image(&png, "image/png").unwrap(), Format::Png);
    assert!(validate_dimensions(5_000, 4_000).is_ok());
    assert!(validate_dimensions(0, 1).is_err());
    assert_eq!(
        inspect_image(b"GIF89a", "image/gif").unwrap_err().message(),
        "SOURCE_CHANGED: unsupported raster image format"
    );
    assert_eq!(
        inspect_image(b"nothing", "image/png").unwrap_err().message(),
        "SOURCE_CHANGED: image signature is invalid"
    );
    assert_eq!(
        inspect_image(&png[..12], "image/png").unwrap_err().message(),
        "SOURCE_CHANGED: image dimensions are invalid"
    );
}

/// The image that bytes become, with the sizes of the attempts chosen as the server does.
fn prepare_image(source: &[u8], mime: &str) -> Result<FetchedImage, Failure> {
    let (format, mut picture) = open_image(source, mime)?;
    let mut attempts = 0;
    loop {
        attempts += 1;
        match encode_image(picture, format, attempts)? {
            Encoding::Done(image) => return Ok(image),
            Encoding::Again(again, size) => {
                let ratio = ((MAX_OUTPUT_BYTES as f64 / size as f64).sqrt() * 0.92).min(0.9);
                let width = ((again.width as f64 * ratio).floor() as u32).max(1);
                let height = ((again.height as f64 * ratio).floor() as u32).max(1);
                picture = shrink_image(again, width, height);
            }
        }
    }
}

#[test]
fn normalizes_supported_formats_to_bounded_roundtrippable_payloads() {
    for (format, mime) in [
        (ImageFormat::Jpeg, "image/jpeg"),
        (ImageFormat::Png, "image/png"),
        (ImageFormat::WebP, "image/webp"),
    ] {
        let fetched = prepare_image(&fixture(format, 1_800, 1_200), mime).unwrap();
        let decoded =
            base64::engine::general_purpose::STANDARD.decode(&fetched.data).unwrap();
        assert!(decoded.len() <= MAX_OUTPUT_BYTES);
        assert_eq!(fetched.mime_type, mime);
        assert!(fetched.width <= MAX_OUTPUT_EDGE);
        assert!(fetched.height <= MAX_OUTPUT_EDGE);
        assert!(fetched.width > 0 && fetched.height > 0);
        let aspect_error = (fetched.width as f64 / fetched.height as f64 - 1.5_f64).abs();
        assert!(aspect_error < 0.002, "aspect ratio drifted by {aspect_error}");
        assert_eq!(fetched.sha256, format!("{:x}", Sha256::digest(&decoded)));
        assert_eq!(image::guess_format(&decoded).unwrap(), format);
        let roundtrip = image::load_from_memory_with_format(&decoded, format).unwrap();
        assert_eq!(roundtrip.dimensions(), (fetched.width, fetched.height));
    }
}

fn bytes_of(p: &Picture) -> &[u8] {
    match &p.pixels {
        Pixels::Bytes(v) => v,
        Pixels::Words(_) => panic!("sixteen bits"),
    }
}

#[test]
fn decoded_pictures_hold_the_samples_of_an_image() {
    for format in [ImageFormat::Png, ImageFormat::WebP] {
        let mime = if format == ImageFormat::Png { "image/png" } else { "image/webp" };
        let (_, p) = open_image(&fixture(format, 3, 2), mime).unwrap();
        assert_eq!((p.width, p.height), (3, 2));
        let expected: Vec<u8> = (0..2u8)
            .flat_map(|y| (0..3u8).flat_map(move |x| [x, y, x + y, 255]))
            .collect();
        match p.color {
            Color::Rgba => assert_eq!(bytes_of(&p), expected),
            _ => panic!("{:?}", p.color),
        }
    }
    let wide = ImageBuffer::<Luma<u16>, Vec<u16>>::from_raw(2, 1, vec![1, 0x1234]).unwrap();
    let mut bytes = Cursor::new(Vec::new());
    DynamicImage::ImageLuma16(wide).write_to(&mut bytes, ImageFormat::Png).unwrap();
    let (format, p) = open_image(&bytes.into_inner(), "image/png").unwrap();
    assert_eq!((format, p.color, p.width, p.height), (Format::Png, Color::Luma, 2, 1));
    assert!(matches!(&p.pixels, Pixels::Words(v) if v[..] == [1, 0x1234]));
    let image = match encode_image(p, format, 1).unwrap() {
        Encoding::Done(image) => image,
        Encoding::Again(..) => panic!("too large"),
    };
    let bytes = base64::engine::general_purpose::STANDARD.decode(&image.data).unwrap();
    let again = image::load_from_memory(&bytes).unwrap();
    assert_eq!(again.as_luma16().unwrap().as_raw(), &vec![1, 0x1234]);
}

/// A JPEG of 4 by 2 pixels, to be shown turned clockwise by a quarter.
fn turned_jpeg() -> Vec<u8> {
    let mut plain = Vec::new();
    DynamicImage::ImageRgb8(ImageBuffer::from_pixel(4, 2, image::Rgb([9, 8, 7])))
        .write_with_encoder(image::codecs::jpeg::JpegEncoder::new(&mut plain))
        .unwrap();
    let exif: [u8; 32] = [
        b'E', b'x', b'i', b'f', 0, 0, b'M', b'M', 0, 42, 0, 0, 0, 8, 0, 1, 0x01, 0x12, 0, 3, 0, 0,
        0, 1, 0, 6, 0, 0, 0, 0, 0, 0,
    ];
    let mut turned = plain[..2].to_vec();
    turned.extend([0xff, 0xe1, 0, 34]);
    turned.extend(exif);
    turned.extend(&plain[2..]);
    turned
}

#[test]
fn orientations_are_applied() {
    let source = turned_jpeg();
    let (format, p) = open_image(&source, "image/jpeg").unwrap();
    assert_eq!((format, p.color, p.width, p.height), (Format::Jpeg, Color::Rgb, 2, 4));
    assert_eq!(bytes_of(&p).len(), 24);
    let image = prepare_image(&source, "image/jpeg").unwrap();
    assert_eq!((image.width, image.height), (2, 4));
}

#[test]
fn undecodable_images_are_refused() {
    let png = fixture(ImageFormat::Png, 8, 6);
    assert_eq!(
        open_image(&png[..png.len() - 40], "image/png").unwrap_err().message(),
        "SOURCE_CHANGED: image decode failed"
    );
    for fault in [PixelFault::Limits, PixelFault::Decoding, PixelFault::Orientation] {
        assert_eq!(
            fit_picture(Err(fault)).unwrap_err().message(),
            pixel_failure(fault).message()
        );
    }
}

fn gray(width: u32, height: u32) -> Picture {
    Picture {
        color: Color::Luma,
        width,
        height,
        pixels: Pixels::Bytes(vec![7; (width * height) as usize]),
    }
}

#[test]
fn wide_pictures_are_made_to_fit() {
    let p = fit_picture(Ok(gray(3_072, 2))).unwrap();
    assert_eq!((p.color, p.width, p.height), (Color::Luma, 1_536, 1));
    assert_eq!(bytes_of(&p), vec![7; 1_536]);
    let p = fit_picture(Ok(gray(1_536, 3))).unwrap();
    assert_eq!((p.width, p.height), (1_536, 3));
    let p = shrink_image(gray(8, 4), 2, 2);
    assert_eq!((p.width, p.height), (2, 1));
    assert_eq!(bytes_of(&p), [7, 7]);
}

#[test]
fn encodings_are_taken_or_tried_again() {
    let large = vec![0; MAX_OUTPUT_BYTES + 1];
    match finish_encoding(gray(2, 2), Format::Png, 9, Ok(large.clone())).unwrap() {
        Encoding::Again(p, size) => {
            assert_eq!((p.width, p.height, size), (2, 2, MAX_OUTPUT_BYTES + 1));
        }
        Encoding::Done(_) => panic!("taken"),
    }
    for (picture, attempts) in [(gray(2, 2), 10), (gray(1, 1), 1)] {
        assert_eq!(
            finish_encoding(picture, Format::Png, attempts, Ok(large.clone())).unwrap_err().message(),
            "RESULT_TOO_LARGE: image cannot fit the encoded payload limit"
        );
    }
    assert_eq!(
        finish_encoding(gray(2, 2), Format::Png, 1, Err(PixelFault::Encoding))
            .unwrap_err()
            .message(),
        "SOURCE_CHANGED: image encoding failed"
    );
    match finish_encoding(gray(2, 3), Format::Webp, 1, Ok(b"abcd".to_vec())).unwrap() {
        Encoding::Done(image) => {
            assert_eq!((image.width, image.height), (2, 3));
            assert_eq!(image.data, "YWJjZA==");
        }
        Encoding::Again(..) => panic!("not taken"),
    }
}

#[test]
fn encodings_are_repeated_within_bounds() {
    assert_eq!(after_encoding(MAX_OUTPUT_BYTES, 9, 9, 10).unwrap(), AfterEncoding::Done);
    assert_eq!(after_encoding(MAX_OUTPUT_BYTES + 1, 9, 9, 9).unwrap(), AfterEncoding::Shrink);
    assert!(after_encoding(MAX_OUTPUT_BYTES + 1, 9, 9, 10).is_err());
    assert!(after_encoding(MAX_OUTPUT_BYTES + 1, 1, 1, 1).is_err());
    assert!(!exceeds_edge(1_536, 1_536));
    assert!(exceeds_edge(1, 1_537));
}

#[test]
fn finished_images_hold_their_bytes() {
    let image = finish_image(b"abcd", Format::Webp, 3, 4);
    assert_eq!(image.data, "YWJjZA==");
    assert_eq!(image.mime_type, "image/webp");
    assert_eq!(
        image.sha256,
        "88d4266fd4e6338d13b845fcf289579d209c897823b9217da3e161936f031589"
    );
    assert_eq!(image.retrieved_at.len(), 20);
    assert!(image.retrieved_at.ends_with('Z'));
}

#[test]
fn compressed_download_limit_never_appends_a_partial_chunk() {
    let mut bytes = vec![0; MAX_SOURCE_BYTES - 2];
    assert!(append_bounded(&mut bytes, &[1, 2]).is_ok());
    assert_eq!(bytes.len(), MAX_SOURCE_BYTES);
    assert!(append_bounded(&mut bytes, &[3]).is_err());
    assert_eq!(bytes.len(), MAX_SOURCE_BYTES);
}

#[test]
fn secure_dns_bodies_are_bounded() {
    let mut body = Vec::new();
    assert!(append_doh(&mut body, &[7; 16_384]).is_ok());
    assert!(append_doh(&mut body, &[7]).is_err());
    assert_eq!(body.len(), 16_384);
}

fn reply(status: u16) -> ImageReply {
    ImageReply {
        status,
        location: None,
        content_length: None,
        content_type: Some("image/PNG ; charset=x".to_owned()),
    }
}

#[test]
fn replies_are_followed_on_the_image_host() {
    let url = "https://ir.ozone.ru/a/b.jpg";
    let to = |location: &str| ImageReply { location: Some(location.to_owned()), ..reply(302) };
    match after_reply(url, 0, &to("../c.jpg")).unwrap() {
        AfterReply::Follow(next) => assert_eq!(next, "https://ir.ozone.ru/c.jpg"),
        AfterReply::Read(_) => panic!(),
    }
    assert!(after_reply(url, 0, &to("https://evil.test/c.jpg")).is_err());
    assert_eq!(
        after_reply(url, 3, &to("/c.jpg")).unwrap_err().message(),
        "SOURCE_BLOCKED: image redirect limit exceeded"
    );
    assert_eq!(
        after_reply(url, 0, &reply(301)).unwrap_err().message(),
        "SOURCE_BLOCKED: invalid image redirect"
    );
    match after_reply(url, 0, &reply(200)).unwrap() {
        AfterReply::Read(mime) => assert_eq!(mime, "image/png"),
        AfterReply::Follow(_) => panic!(),
    }
    assert_eq!(
        after_reply(url, 0, &reply(404)).unwrap_err().message(),
        "NOT_FOUND: image source was not found"
    );
    assert_eq!(
        after_reply(url, 0, &reply(500)).unwrap_err().message(),
        "SOURCE_BLOCKED: image source did not return an image"
    );
    let large = ImageReply { content_length: Some(MAX_SOURCE_BYTES as u64 + 1), ..reply(200) };
    assert_eq!(
        after_reply(url, 0, &large).unwrap_err().message(),
        "RESULT_TOO_LARGE: compressed image exceeds 4 MiB"
    );
    let untyped = ImageReply { content_type: None, ..reply(200) };
    assert_eq!(
        after_reply(url, 0, &untyped).unwrap_err().message(),
        "SOURCE_CHANGED: unsupported image content type"
    );
    assert_eq!(supported_mime(" image/JPEG"), Some("image/jpeg".to_owned()));
    assert_eq!(supported_mime("image/gif"), None);
}

#[test]
fn faults_have_their_messages() {
    assert_eq!(
        fetch_failure(FetchFault::Cancelled).message(),
        "CANCELLED: image fetch cancelled"
    );
    assert_eq!(
        fetch_failure(FetchFault::QueueFull).message(),
        "SERVER_BUSY: image processing queue is full"
    );
    assert_eq!(
        pixel_failure(PixelFault::Limits).message(),
        "RESULT_TOO_LARGE: image cannot be decoded within limits"
    );
    assert_eq!(
        pixel_failure(PixelFault::Decoding).message(),
        "SOURCE_CHANGED: image decode failed"
    );
}

fn stored(research: &str, context: &str, value: &str) -> StoredRef {
    StoredRef {
        research_id: research.to_owned(),
        context_id: context.to_owned(),
        value: json(value),
    }
}

#[test]
fn image_batches_belong_to_one_research() {
    let found = |ids: &[Option<&str>]| -> Vec<Result<StoredRef, Failure>> {
        ids.iter()
            .map(|id| match id {
                Some(id) => Ok(stored(id, "c", "{}")),
                None => Err(Failure::new("INVALID_REFERENCE: gone")),
            })
            .collect()
    };
    assert_eq!(bind_images(None, &found(&[None, Some("r"), Some("r")])).unwrap(), "r");
    assert_eq!(bind_images(Some("r"), &found(&[None])).unwrap(), "r");
    assert_eq!(
        bind_images(None, &found(&[Some("r"), Some("s")])).unwrap_err().message(),
        "INVALID_REFERENCE: mixed-research image batch"
    );
    assert_eq!(
        bind_images(None, &found(&[None])).unwrap_err().message(),
        "INVALID_REFERENCE: image references are unavailable"
    );
    assert_eq!(image_refs(&json(r#"{"imageRefs":["a",1,"b"]}"#)).unwrap(), ["a", "b"]);
    assert!(image_refs(&json("{}")).is_err());
}

#[test]
fn images_of_another_context_are_not_fetched() {
    let settled = |plan: ImagePlan| match plan {
        ImagePlan::Settled(j) => j.to_text(),
        ImagePlan::Fetch(_) => panic!(),
    };
    let here = Ok(stored("r", "c", r#"{"url":"https://ir.ozone.ru/a"}"#));
    assert!(matches!(plan_image("i", &here, "c"), Ok(ImagePlan::Fetch(url)) if url == "https://ir.ozone.ru/a"));
    assert!(settled(plan_image("i", &here, "d").unwrap()).contains("CONTEXT_CHANGED"));
    let gone: Result<StoredRef, Failure> = Err(Failure::new("RESEARCH_EXPIRED: gone"));
    assert!(settled(plan_image("i", &gone, "c").unwrap()).contains("RESEARCH_EXPIRED"));
    assert!(plan_image("i", &Ok(stored("r", "c", "{}")), "c").is_err());
    assert_eq!(
        image_error("i", "SERVER_BUSY", "m").to_text(),
        r#"{"error":{"code":"SERVER_BUSY","message":"m","retryable":true},"imageRef":"i","status":"error"}"#
    );
    assert!(image_error("i", "CANCELLED", "m").to_text().contains("SOURCE_CHANGED"));
}

fn picture(size: usize) -> FetchedImage {
    FetchedImage {
        data: "x".repeat(size),
        mime_type: "image/png".to_owned(),
        width: 2,
        height: 3,
        sha256: "s".to_owned(),
        retrieved_at: "2024-01-01T00:00:00Z".to_owned(),
    }
}

#[test]
fn image_batches_fit_on_the_wire() {
    let binding = stored(
        "r",
        "c",
        r#"{"url":"u","sourceKind":"product","sourceRef":"p","sku":"7","fieldPath":"/images/0"}"#,
    );
    let mut batch = ImageBatch::new();
    batch.add_image_as("a", &binding, "c", picture(8_388_607), "1");
    batch.add_image_as("b", &binding, "c", picture(2), "2");
    batch.add_image("c", &binding, "c", picture(1));
    batch.add_failed("d", &Failure::new("NOT_FOUND: gone"));
    batch.add_late("e");
    assert!(batch.shows_images());
    assert_eq!(batch.wire_bytes, 8_388_608);
    let answer = finish_images_at(batch, "r", &Json::object(), "2024-01-02T00:00:00Z");
    let results = answer.value.field("data").field("results").as_array().unwrap();
    assert_eq!(results.len(), 5);
    assert_eq!(results[0].field("contentIndex").as_u64(), Some(1));
    assert_eq!(results[0].field("evidenceRefs").to_text(), r#"["evidence_1"]"#);
    assert_eq!(results[1].field("error").field("code").as_str(), Some("RESULT_TOO_LARGE"));
    assert_eq!(results[2].field("contentIndex").as_u64(), Some(2));
    assert_eq!(results[3].field("error").field("code").as_str(), Some("NOT_FOUND"));
    assert_eq!(results[4].field("error").field("code").as_str(), Some("UPSTREAM_TIMEOUT"));
    let images: &Vec<ImagePayload> = &answer.images;
    assert_eq!(images.len(), 2);
    assert_eq!(images[1].data, "x");
    assert_eq!(answer.evidence.len(), 2);
    assert_eq!(answer.evidence[0].field("facts").as_array().unwrap().len(), 7);
    assert_eq!(answer.value.field("observedAt").as_str(), Some("2024-01-02T00:00:00Z"));
}

#[test]
fn doh_answers_are_read_by_their_fields() {
    let record = |extra: &str| {
        answer(&format!(r#"{{"name":"ir.ozone.ru","type":1,"data":"8.8.8.8"{extra}}}"#))
    };
    assert_eq!(parse_doh_addresses(&record("")).unwrap(), [v4(8, 8, 8, 8)]);
    assert!(parse_doh_addresses(&record(r#","type":1"#)).is_err());
    assert!(parse_doh_addresses(&record(r#","data":"8.8.8.8""#)).is_err());
    assert!(parse_doh_addresses(&record(r#","TTL":1,"TTL":2"#)).is_ok());
    let deep = format!("{}{}", "[".repeat(200), "]".repeat(200));
    for skipped in [deep.as_str(), "1e999", r#""\ud800""#] {
        assert!(parse_doh_addresses(&record(&format!(r#","TTL":{skipped}"#))).is_ok());
        let noted = answer(r#"{"name":"ir.ozone.ru","type":1,"data":"8.8.8.8"}"#)
            .replacen('{', &format!(r#"{{"Comment":{skipped},"#), 1);
        assert_eq!(parse_doh_addresses(&noted).unwrap(), [v4(8, 8, 8, 8)]);
        assert!(parse_doh_addresses(&noted.replace("8.8.8.8\"", "8.8.8.8\",\"type\":1")).is_err());
        assert!(parse_doh_addresses(&noted[..noted.len() - 1]).is_err());
    }
    assert!(parse_doh_addresses(&record(r#","TTL":1e"#)).is_err());
    assert!(parse_doh_addresses(&record(r#","\ud800":1"#)).is_err());
    let whole = r#"{"Status":0,"TC":false,"Question":[{"name":"ir.ozone.ru","type":1}],"Answer":[{"name":"ir.ozone.ru","type":1,"data":"8.8.8.8"}],"Status":0}"#;
    assert!(parse_doh_addresses(whole).is_err());
    let question = r#"{"Status":0,"TC":false,"Question":[{"name":"ir.ozone.ru","type":1,"type":1}],"Answer":[{"name":"ir.ozone.ru","type":1,"data":"8.8.8.8"}]}"#;
    assert!(parse_doh_addresses(question).is_err());
}
