use device_manager::addr::{pick_public_ip, IpAddress, PeerAddr};
use device_manager::crawl::WindowsCrawler;
use device_manager::frame::{decode_frame, encode_frame, FrameError, FrameReader, HEADER_LEN, MAX_FRAME_LEN};
use device_manager::json::Json;
use device_manager::search::intersect_rank;
use device_manager::words::{query_words, split_words};

#[test]
fn a_frame_is_its_length_and_its_payload() {
    assert_eq!(encode_frame(&vec![]), Ok(vec![0, 0, 0, 0]));
    assert_eq!(encode_frame(&b"{}".to_vec()), Ok(vec![0, 0, 0, 2, b'{', b'}']));
    let long = vec![7u8; 0x0001_0203];
    let frame = encode_frame(&long).unwrap();
    assert_eq!(&frame[..4], &[0, 1, 2, 3]);
    assert_eq!(frame.len(), HEADER_LEN + 0x0001_0203);
    assert_eq!(&frame[4..], &long[..]);
}

#[test]
fn a_frame_carries_at_least_a_mebibyte() {
    assert!(MAX_FRAME_LEN >= 1024 * 1024);
    let largest = vec![1u8; MAX_FRAME_LEN];
    let frame = encode_frame(&largest).unwrap();
    assert_eq!(&frame[..4], &[0, 128, 0, 0]);
    assert_eq!(decode_frame(&frame), Ok(Some((largest, HEADER_LEN + MAX_FRAME_LEN))));
    assert_eq!(encode_frame(&vec![1u8; MAX_FRAME_LEN + 1]), Err(FrameError::TooLarge));
    assert_eq!(decode_frame(&vec![0, 128, 0, 1]), Err(FrameError::TooLarge));
    assert_eq!(decode_frame(&vec![255, 255, 255, 255, 0]), Err(FrameError::TooLarge));
}

#[test]
fn decoding_waits_for_a_whole_frame() {
    assert_eq!(decode_frame(&vec![]), Ok(None));
    assert_eq!(decode_frame(&vec![0, 0, 0]), Ok(None));
    assert_eq!(decode_frame(&vec![0, 0, 0, 3, 1, 2]), Ok(None));
    assert_eq!(decode_frame(&vec![0, 0, 0, 3, 1, 2, 3]), Ok(Some((vec![1, 2, 3], 7))));
    assert_eq!(decode_frame(&vec![0, 0, 0, 3, 1, 2, 3, 9, 9]), Ok(Some((vec![1, 2, 3], 7))));
    assert_eq!(decode_frame(&vec![0, 0, 0, 0, 5]), Ok(Some((vec![], 4))));
    assert_eq!(decode_frame(&vec![0, 0, 1, 0]), Ok(None));
}

#[test]
fn frames_are_read_in_the_order_in_which_they_were_written() {
    let payloads: Vec<Vec<u8>> = vec![b"first".to_vec(), vec![], b"third".to_vec(), vec![0; 300]];
    let mut wire = Vec::new();
    for payload in &payloads {
        wire.extend(encode_frame(payload).unwrap());
    }
    let mut reader = FrameReader::new();
    let mut read = Vec::new();
    // The bytes arrive in pieces that know nothing of the frames.
    for piece in wire.chunks(7) {
        reader.feed(&piece.to_vec());
        while let Some(payload) = reader.next_frame().unwrap() {
            read.push(payload);
        }
    }
    assert_eq!(read, payloads);
    assert_eq!(reader.pending(), 0);
    assert_eq!(reader.next_frame(), Ok(None));
}

#[test]
fn a_reader_keeps_what_it_cannot_read() {
    let mut reader = FrameReader::new();
    reader.feed(&vec![0, 0, 0, 2, 1]);
    assert_eq!(reader.next_frame(), Ok(None));
    assert_eq!(reader.pending(), 5);
    reader.feed(&vec![2, 0, 0]);
    assert_eq!(reader.next_frame(), Ok(Some(vec![1, 2])));
    assert_eq!(reader.pending(), 2);
    reader.feed(&vec![0, 1, 9, 255, 0, 0, 0]);
    assert_eq!(reader.next_frame(), Ok(Some(vec![9])));
    assert_eq!(reader.next_frame(), Err(FrameError::TooLarge));
    assert_eq!(reader.pending(), 4);
}

#[test]
fn an_address_is_written_as_text() {
    assert_eq!(PeerAddr::v4(0x7f00_0001, 6142).to_text(), "127.0.0.1:6142");
    assert_eq!(PeerAddr::v4(0, 0).to_text(), "0.0.0.0:0");
    assert_eq!(PeerAddr::v4(0xffff_ffff, 65535).to_text(), "255.255.255.255:65535");
    assert_eq!(PeerAddr::v4(0xc0a8_010a, 80).to_text(), "192.168.1.10:80");
    assert_eq!(PeerAddr { ip: IpAddress::V6(1), port: 443 }.to_text(), "[0:0:0:0:0:0:0:1]:443");
    assert_eq!(
        PeerAddr { ip: IpAddress::V6(0x2001_0db8_0000_0000_0000_ff00_0042_8329), port: 9 }.to_text(),
        "[2001:db8:0:0:0:ff00:42:8329]:9"
    );
    assert_eq!(PeerAddr { ip: IpAddress::V6(u128::MAX), port: 1 }.to_text(), "[ffff:ffff:ffff:ffff:ffff:ffff:ffff:ffff]:1");
}

#[test]
fn json_values_are_read_by_kind() {
    let value = Json::Object(vec![
        ("name".to_string(), Json::Str("muse".to_string())),
        ("tags".to_string(), Json::Array(vec![Json::Str("rock".to_string()), Json::Null, Json::Str("uk".to_string())])),
        ("name".to_string(), Json::Str("second".to_string())),
        ("year".to_string(), Json::Number("1994".to_string())),
    ]);
    assert_eq!(value.get("name"), Some(&Json::Str("muse".to_string())));
    assert_eq!(value.get("year"), Some(&Json::Number("1994".to_string())));
    assert_eq!(value.get("missing"), None);
    assert_eq!(Json::Null.get("name"), None);
    assert_eq!(value.get("name").unwrap().as_str(), Some(&"muse".to_string()));
    assert_eq!(value.get("year").unwrap().as_str(), None);
    assert!(value.get("name").unwrap().is_string());
    assert!(!value.is_string());
    assert!(Json::Null.is_null());
    assert!(!Json::Bool(false).is_null());
    assert_eq!(value.as_array(), None);
    let tags = value.get("tags").unwrap().as_array().unwrap();
    assert_eq!(tags.len(), 3);
    assert_eq!(Json::collect_strings(tags), vec!["rock".to_string(), "uk".to_string()]);
    assert_eq!(
        Json::from_strings(&vec!["a".to_string(), "b".to_string()]),
        Json::Array(vec![Json::Str("a".to_string()), Json::Str("b".to_string())])
    );
    assert_eq!(Json::object1("k", Json::Bool(true)), Json::Object(vec![("k".to_string(), Json::Bool(true))]));
    assert_eq!(value.clone(), value);
}

#[test]
fn intersect_rank_keeps_what_every_word_found() {
    let list = |items: &[&str]| items.iter().map(|i| i.to_string()).collect::<Vec<String>>();
    assert_eq!(intersect_rank(vec![]), Vec::<String>::new());
    assert_eq!(intersect_rank(vec![list(&["a", "b", "a"])]), list(&["a", "b", "a"]));
    assert_eq!(intersect_rank(vec![list(&["a", "b", "a"]), list(&["b", "c"])]), list(&["b"]));
    assert_eq!(intersect_rank(vec![list(&["c", "a", "b", "a", "c"]), list(&["a", "c", "c"])]), list(&["c", "a"]));
    assert_eq!(
        intersect_rank(vec![list(&["x", "y", "z"]), list(&["z", "y"]), list(&["y", "q"])]),
        list(&["y"])
    );
    assert_eq!(intersect_rank(vec![list(&["x"]), list(&[])]), Vec::<String>::new());
    assert_eq!(intersect_rank(vec![list(&[]), list(&["x"])]), Vec::<String>::new());
}

#[test]
fn the_crawler_chooses_entries_and_handlers() {
    let mut crawler = WindowsCrawler::new();
    assert_eq!(crawler.handler_for("mp3"), None);
    crawler.register_handle(&vec!["mp3".to_string(), "mp4".to_string(), "m4a".to_string()], 0);
    crawler.register_handle(&vec!["txt".to_string(), "mp4".to_string()], 1);
    assert_eq!(crawler.handler_for("mp3"), Some(0));
    assert_eq!(crawler.handler_for("m4a"), Some(0));
    assert_eq!(crawler.handler_for("mp4"), Some(1));
    assert_eq!(crawler.handler_for("txt"), Some(1));
    assert_eq!(crawler.handler_for("MP3"), None);
    assert_eq!(crawler.handler_for(""), None);
    for name in ["$RECYCLE.BIN", "Windows.old", "Windows", "$GetCurrent", "AppData"] {
        assert!(!crawler.is_relevant_file(name));
    }
    for name in ["windows", "Music", "", "AppData2", "song.mp3"] {
        assert!(crawler.is_relevant_file(name));
    }
}

#[test]
fn the_public_address_is_the_first_that_is_not_the_machine_itself() {
    let localhost = IpAddress::V4(0x7f00_0001);
    let localhost6 = IpAddress::V6(1);
    let lan = IpAddress::V4(0xc0a8_0107);
    let other = IpAddress::V4(0x0a00_0001);
    assert!(localhost.localhost());
    assert!(localhost6.localhost());
    assert!(!lan.localhost());
    assert!(!IpAddress::V4(0x7f00_0002).localhost());
    assert!(!IpAddress::V6(0x7f00_0001).localhost());
    assert_eq!(pick_public_ip(&vec![]), None);
    assert_eq!(pick_public_ip(&vec![localhost, localhost6]), None);
    assert_eq!(pick_public_ip(&vec![localhost, lan, other]), Some(lan));
    assert_eq!(pick_public_ip(&vec![other, localhost, lan]), Some(other));
    assert_eq!(lan.to_text(), "192.168.1.7");
    assert_eq!(localhost6.to_text(), "0:0:0:0:0:0:0:1");
    assert_eq!(IpAddress::V4(0).to_text(), "0.0.0.0");
}

#[test]
fn a_query_is_split_into_its_words() {
    let list = |items: &[&str]| items.iter().map(|i| i.to_string()).collect::<Vec<String>>();
    assert_eq!(split_words(""), list(&[""]));
    assert_eq!(split_words("muse"), list(&["muse"]));
    assert_eq!(split_words("Dark Side of the Moon"), list(&["Dark", "Side", "of", "the", "Moon"]));
    assert_eq!(split_words(" a  b "), list(&["", "a", "", "b", ""]));
    assert_eq!(split_words("über cool"), list(&["über", "cool"]));
    assert_eq!(split_words("tab\tstays"), list(&["tab\tstays"]));
    assert_eq!(query_words("Dark Side"), list(&["dark", "side"]));
    assert_eq!(query_words("ÜBER Cool"), list(&["über", "cool"]));
    assert_eq!(query_words("MUSE"), list(&["muse"]));
}
