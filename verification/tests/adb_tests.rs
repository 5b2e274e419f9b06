use dnf_assist::adb::{
    devices_command, parse_device_list, screenshot_from_output, select_devices, AdbCmd, Op,
};
use image::{DynamicImage, ImageFormat, Rgb, RgbImage, Rgba, RgbaImage};
use std::io::Cursor;

fn strs(v: &[&str]) -> Vec<String> {
    v.iter().map(|s| s.to_string()).collect()
}

fn device() -> AdbCmd {
    AdbCmd { device_ip: "127.0.0.1:5555".to_string() }
}

#[test]
fn screencap_command() {
    assert_eq!(
        device().screencap_device(),
        strs(&["cmd", "/C", "adb.exe", "-s", "127.0.0.1:5555", "exec-out", "screencap", "-p"])
    );
}

#[test]
fn click_command() {
    assert_eq!(
        device().adb_click("1245", "255"),
        strs(&["cmd", "/C", "adb.exe", "-s", "127.0.0.1:5555", "shell", "input", "tap", "1245", "255"])
    );
}

#[test]
fn move_command() {
    assert_eq!(
        device().adb_move("1", "2", "3", "4", "500"),
        strs(&[
            "cmd", "/C", "adb.exe", "-s", "127.0.0.1:5555", "shell", "input", "swipe", "1", "2", "3",
            "4", "500"
        ])
    );
}

#[test]
fn input_command() {
    assert_eq!(
        device().adb_input(),
        strs(&["cmd", "/C", "adb.exe", "-s", "127.0.0.1:5555", "shell", "input", "text", "999999999"])
    );
}

#[test]
fn command_for_each_op() {
    let d = device();
    assert_eq!(d.command_for(&Op::Tap { x: 1267, y: 61 }), Some(d.adb_click("1267", "61")));
    assert_eq!(
        d.command_for(&Op::TapText { x: "+640".to_string(), y: "0360".to_string() }),
        Some(d.adb_click("+640", "0360"))
    );
    assert_eq!(
        d.command_for(&Op::Swipe { x: 10, y: 20, to_x: 100, to_y: 563, duration_ms: 2000 }),
        Some(d.adb_move("10", "20", "100", "563", "2000"))
    );
    assert_eq!(d.command_for(&Op::InputText), Some(d.adb_input()));
    assert_eq!(d.command_for(&Op::Sleep { ms: 500 }), None);
}

#[test]
fn devices_listing_command() {
    assert_eq!(devices_command(), strs(&["cmd", "/C", "adb.exe", "devices"]));
}

#[test]
fn device_list_parsing() {
    let msg = "List of devices attached\r\n127.0.0.1:5555\tdevice\r\nemulator-5554\toffline\r\n\r\n";
    assert_eq!(parse_device_list(msg), strs(&["127.0.0.1:5555", "emulator-5554"]));
    assert_eq!(parse_device_list(""), Vec::<String>::new());
    assert_eq!(parse_device_list("List of devices attached\r\n\r\n"), Vec::<String>::new());
    // only "\r\n" separates entries
    assert_eq!(parse_device_list("a\tdevice\nb\tdevice"), strs(&["a"]));
    assert_eq!(parse_device_list("\tx\r\n"), strs(&[""]));
}

#[test]
fn device_list_matches_split_filter() {
    let msg = "header\r\nx\ty\tz\r\n\r\nlone\r\n1.2.3.4:5\tdevice";
    let expected: Vec<String> = msg
        .split("\r\n")
        .filter(|s| !s.is_empty() && s.find('\t').is_some())
        .map(|x| String::from(x.split('\t').next().unwrap()))
        .collect();
    assert_eq!(parse_device_list(msg), expected);
}

#[test]
fn configured_devices_win() {
    let found = strs(&["a", "b"]);
    assert_eq!(select_devices(found.clone(), &strs(&["c"])), strs(&["c"]));
    assert_eq!(select_devices(found.clone(), &Vec::new()), found);
}

fn png_bytes(img: &DynamicImage) -> Vec<u8> {
    let mut out = Cursor::new(Vec::new());
    img.write_to(&mut out, ImageFormat::Png).unwrap();
    out.into_inner()
}

#[test]
fn screenshot_decodes_rgba_png() {
    let img = RgbaImage::from_fn(3, 2, |x, y| Rgba([x as u8 * 40, y as u8 * 90, 7, 200 + x as u8]));
    let shot = screenshot_from_output(&png_bytes(&DynamicImage::ImageRgba8(img.clone()))).unwrap();
    assert_eq!((shot.width, shot.height), (3, 2));
    assert_eq!(&shot.data, img.as_raw());
}

#[test]
fn screenshot_of_rgb_png_gets_opaque_alpha() {
    let img = RgbImage::from_fn(2, 2, |x, y| Rgb([x as u8 + 1, y as u8 + 2, 3]));
    let shot = screenshot_from_output(&png_bytes(&DynamicImage::ImageRgb8(img))).unwrap();
    assert_eq!((shot.width, shot.height), (2, 2));
    assert_eq!(shot.data, vec![1, 2, 3, 255, 2, 2, 3, 255, 1, 3, 3, 255, 2, 3, 3, 255]);
}

#[test]
fn screenshot_of_other_bytes_is_none() {
    assert!(screenshot_from_output(&b"error: device offline".to_vec()).is_none());
    assert!(screenshot_from_output(&Vec::new()).is_none());
}
