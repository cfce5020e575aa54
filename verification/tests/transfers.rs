use deskbridge::paths::{
    choose_folder, file_name_of, name_from, save_name, FolderChoice, NameSearch, SaveName,
};
use deskbridge::transfer::{
    cancel_file_transfer, clear_cancellation, encode_header, file_address, next_chunk,
    parse_header, received_name, sent_name, transfer_id, CancelFlag, FileHeader, Incoming,
    IncomingStep, NameError, Outgoing, OutgoingStep, Progress, Speed, TransferKind,
};

const ABC_DIGEST: [u8; 32] = [
    0xba, 0x78, 0x16, 0xbf, 0x8f, 0x01, 0xcf, 0xea, 0x41, 0x41, 0x40, 0xde, 0x5d, 0xae, 0x22, 0x23,
    0xb0, 0x03, 0x61, 0xa3, 0x96, 0x17, 0x7a, 0x9c, 0xb4, 0x10, 0xff, 0x61, 0xf2, 0x00, 0x15, 0xad,
];

const EMPTY_DIGEST: [u8; 32] = [
    0xe3, 0xb0, 0xc4, 0x42, 0x98, 0xfc, 0x1c, 0x14, 0x9a, 0xfb, 0xf4, 0xc8, 0x99, 0x6f, 0xb9, 0x24,
    0x27, 0xae, 0x41, 0xe4, 0x64, 0x9b, 0x93, 0x4c, 0xa4, 0x95, 0x99, 0x1b, 0x78, 0x52, 0xb8, 0x55,
];

fn ten(bytes: &[u8]) -> [u8; 10] {
    let mut out = [0u8; 10];
    out.copy_from_slice(&bytes[..10]);
    out
}

fn incoming(size: u64) -> Incoming {
    Incoming::new("recv_1".to_string(), "a.txt".to_string(), size)
}

fn outgoing(size: u64) -> Outgoing {
    Outgoing::new("send_1".to_string(), "a.txt".to_string(), size)
}

fn is_windows() -> bool {
    std::path::MAIN_SEPARATOR == '\\'
}

fn no_name() -> NameError {
    NameError::InvalidFileName { backslash: is_windows() }
}

fn saved(raw: &str) -> SaveName {
    save_name(raw).0.unwrap()
}

#[test]
fn header_bytes() {
    let header = encode_header(0x0102, "é.txt");
    assert_eq!(header[..10], [2, 1, 0, 0, 0, 0, 0, 0, 6, 0]);
    assert_eq!(header[10..], *"é.txt".as_bytes());
    assert_eq!(parse_header(&ten(&header)), FileHeader { file_size: 258, name_len: 6 });
}

#[test]
fn header_of_a_very_long_name() {
    let name = "n".repeat(65536 + 3);
    let header = encode_header(u64::MAX, &name);
    assert_eq!(header.len(), 10 + 65539);
    assert_eq!(parse_header(&ten(&header)), FileHeader { file_size: u64::MAX, name_len: 3 });
}

#[test]
fn a_file_that_arrives_whole() {
    let mut file = incoming(3);
    let flag = CancelFlag { cancelled: false };
    let start = file.start();
    assert_eq!(start.status, "starting");
    assert_eq!(start.progress, Progress::Start);
    assert_eq!(start.speed, Speed::Zero);
    assert_eq!(file.next(&flag), IncomingStep::Read(3));
    file.accept(b"ab");
    assert_eq!(file.next(&flag), IncomingStep::Read(1));
    assert_eq!(file.progress(199), None);
    let news = file.progress(200).unwrap();
    assert_eq!(news.status, "processing");
    assert_eq!(news.progress, Progress::Part { done: 2, total: 3 });
    assert_eq!(news.speed, Speed::Bytes(2));
    file.accept(b"c");
    assert_eq!(file.next(&flag), IncomingStep::Finished);
    let end = file.conclude(&ABC_DIGEST);
    assert_eq!(end.transfer_id, "recv_1");
    assert_eq!(end.file_name, "a.txt");
    assert_eq!(end.status, "completed");
    assert_eq!(end.progress, Progress::Full);
    assert_eq!(end.speed, Speed::Bytes(3));
    assert_eq!(end.error, None);
    assert_eq!(end.sha256_matches, Some(true));
}

#[test]
fn a_file_that_arrives_damaged() {
    let mut file = incoming(3);
    file.accept(b"abd");
    let end = file.conclude(&ABC_DIGEST);
    assert_eq!(end.status, "error");
    assert_eq!(end.error, Some("SHA-256 hash mismatch".to_string()));
    assert_eq!(end.sha256_matches, Some(false));
}

#[test]
fn an_empty_file() {
    let file = incoming(0);
    assert_eq!(file.next(&CancelFlag { cancelled: true }), IncomingStep::Finished);
    assert_eq!(file.conclude(&EMPTY_DIGEST).sha256_matches, Some(true));
}

#[test]
fn a_digest_of_the_wrong_length() {
    assert_eq!(incoming(0).conclude(&EMPTY_DIGEST[..31]).sha256_matches, Some(false));
}

#[test]
fn a_cancelled_reception() {
    let mut flag = CancelFlag { cancelled: false };
    assert_eq!(cancel_file_transfer(&mut flag), Ok("cancelled".to_string()));
    let mut file = incoming(10);
    file.accept(b"abcd");
    match file.next(&flag) {
        IncomingStep::Cancelled { update: news, error } => {
            assert_eq!(error, "cancelled");
            assert_eq!(news.status, "cancelled");
            assert_eq!(news.progress, Progress::Part { done: 4, total: 10 });
            assert_eq!(news.speed, Speed::Zero);
            assert_eq!(news.error, Some("Transfer cancelled by user".to_string()));
            assert_eq!(news.sha256_matches, None);
        }
        other => panic!("{:?}", other),
    }
    clear_cancellation(&mut flag);
    assert_eq!(file.next(&flag), IncomingStep::Read(6));
}

#[test]
fn chunks() {
    assert_eq!(next_chunk(0, 65536), 65536);
    assert_eq!(next_chunk(0, 65537), 65536);
    assert_eq!(next_chunk(65536, 65537), 1);
    assert_eq!(next_chunk(7, 7), 0);
    assert_eq!(next_chunk(0, u64::MAX), 65536);
}

#[test]
fn a_file_that_is_sent() {
    let mut file = outgoing(3);
    let flag = CancelFlag { cancelled: false };
    assert_eq!(file.head(), encode_header(3, "a.txt"));
    assert_eq!(file.start().status, "starting");
    assert_eq!(file.next(&flag), OutgoingStep::Read(65536));
    file.record(b"abc");
    assert_eq!(file.progress(0), None);
    assert_eq!(file.progress(500).unwrap().progress, Progress::Part { done: 3, total: 3 });
    let end = file.conclude();
    assert_eq!(end.digest, ABC_DIGEST.to_vec());
    assert_eq!(end.update.status, "completed");
    assert_eq!(end.update.sha256_matches, None);
    assert_eq!(end.update.error, None);
    assert_eq!(end.reply, "file_sent_successfully");
}

#[test]
fn a_cancelled_sending() {
    let mut file = outgoing(8);
    file.record(b"ab");
    match file.next(&CancelFlag { cancelled: true }) {
        OutgoingStep::Cancelled { update, error } => {
            assert_eq!(update.progress, Progress::Part { done: 2, total: 8 });
            assert_eq!(update.status, "cancelled");
            assert_eq!(error, "cancelled");
        }
        other => panic!("{:?}", other),
    }
}

#[test]
fn what_is_sent_is_received() {
    let content: Vec<u8> = (0..200_000u32).map(|i| (i * 7 % 251) as u8).collect();
    let flag = CancelFlag { cancelled: false };
    let mut out = Outgoing::new("s".to_string(), "b.bin".to_string(), content.len() as u64);
    let mut wire = out.head();
    let mut at = 0;
    while at < content.len() {
        let n = match out.next(&flag) {
            OutgoingStep::Read(n) => n.min(content.len() - at),
            other => panic!("{:?}", other),
        };
        out.record(&content[at..at + n]);
        wire.extend_from_slice(&content[at..at + n]);
        at += n;
    }
    wire.extend_from_slice(&out.conclude().digest);

    let header = parse_header(&ten(&wire));
    let name_end = 10 + header.name_len as usize;
    let name = received_name(wire[10..name_end].to_vec()).unwrap();
    assert_eq!(name.file_name, "b.bin");
    let mut file = Incoming::new("r".to_string(), name.file_name, header.file_size);
    let mut at = name_end;
    while let IncomingStep::Read(n) = file.next(&flag) {
        file.accept(&wire[at..at + n]);
        at += n;
    }
    assert_eq!(wire[name_end..at], content[..]);
    assert_eq!(file.conclude(&wire[at..]).sha256_matches, Some(true));
}

#[test]
fn identifiers_and_addresses() {
    assert_eq!(transfer_id(TransferKind::Receive, 0), "recv_0");
    assert_eq!(transfer_id(TransferKind::Send, 1234567890123), "send_1234567890123");
    assert_eq!(
        transfer_id(TransferKind::Upload, u128::MAX),
        "web_recv_340282366920938463463374607431768211455"
    );
    assert_eq!(file_address("10.0.0.9"), "10.0.0.9:53202");
}

#[test]
fn names_of_received_files() {
    assert_eq!(received_name(b"a/b/c.txt".to_vec()).unwrap().file_name, "c.txt");
    assert_eq!(received_name(b"../../etc/passwd".to_vec()).unwrap().file_name, "passwd");
    assert_eq!(received_name(b"/abs/".to_vec()).unwrap().file_name, "abs");
    assert_eq!(received_name(b"dir/./.".to_vec()).unwrap().file_name, "dir");
    assert_eq!(received_name(b"..".to_vec()), Err(no_name()));
    assert_eq!(received_name(b"a/..".to_vec()), Err(no_name()));
    assert_eq!(received_name(b"/".to_vec()), Err(no_name()));
    assert_eq!(received_name(b".".to_vec()), Err(no_name()));
    assert_eq!(received_name(Vec::new()), Err(no_name()));
    assert_eq!(received_name(vec![97, 0xff]), Err(NameError::NotUtf8));
}

#[test]
fn names_are_taken_apart() {
    let plain = saved("file.txt");
    assert_eq!((plain.stem.as_str(), plain.extension.as_str()), ("file", "txt"));
    let two = saved("x/archive.tar.gz");
    assert_eq!(two.file_name, "archive.tar.gz");
    assert_eq!((two.stem.as_str(), two.extension.as_str()), ("archive.tar", "gz"));
    let hidden = saved(".profile");
    assert_eq!((hidden.stem.as_str(), hidden.extension.as_str()), (".profile", ""));
    let bare = saved("Makefile");
    assert_eq!((bare.stem.as_str(), bare.extension.as_str()), ("Makefile", ""));
    let dot = saved("end.");
    assert_eq!((dot.stem.as_str(), dot.extension.as_str()), ("end", ""));
}

#[test]
fn taken_names_get_a_number() {
    let file = saved("file.txt");
    assert_eq!(file.candidate(0), "file.txt");
    assert_eq!(file.candidate(1), "file_1.txt");
    assert_eq!(file.candidate(12), "file_12.txt");
    assert_eq!(saved("Makefile").candidate(3), "Makefile_3");
    assert_eq!(saved(".profile").candidate(1), ".profile_1");
    assert_eq!(saved("end.").candidate(1), "end_1");
    assert_eq!(saved("a.tar.gz").candidate(u32::MAX), "a.tar_4294967295.gz");
}

#[test]
fn names_of_sent_files() {
    assert_eq!(sent_name("/home/u/report.pdf").0, Ok("report.pdf".to_string()));
    assert_eq!(sent_name("report.pdf").0, Ok("report.pdf".to_string()));
    assert_eq!(sent_name("/home/u/..").0, Err("Invalid file name".to_string()));
    assert_eq!(sent_name("/").0, Err("Invalid file name".to_string()));
    assert_eq!(file_name_of("a//b").0, Some("b".to_string()));
    assert_eq!(file_name_of("").0, None);
}

#[test]
fn names_with_drives_and_backslashes() {
    assert_eq!(sent_name("C:/d/a.txt").0, Ok("a.txt".to_string()));
    assert_eq!(received_name(b"C:/d/a.txt".to_vec()).unwrap().file_name, "a.txt");
    assert_eq!(saved("x:/y/z.tar.gz").candidate(1), "z.tar_1.gz");
    // A backslash parts components only where the system says so.
    let windows = is_windows();
    let evil = saved("..\\..\\evil.exe");
    let note = saved("d/a:b.txt");
    assert_eq!(evil.backslash, windows);
    assert_eq!(sent_name("a").1, windows);
    assert_eq!(save_name("..").1, windows);
    if windows {
        assert_eq!(evil.file_name, "evil.exe");
        assert_eq!(sent_name("C:\\d\\a.txt").0, Ok("a.txt".to_string()));
        assert_eq!((note.file_name.as_str(), note.stem.as_str()), ("b.txt", "b"));
        assert_eq!(save_name("d/a:..").0, None);
    } else {
        assert_eq!(evil.file_name, "..\\..\\evil.exe");
        assert_eq!(sent_name("C:\\d\\a.txt").0, Ok("C:\\d\\a.txt".to_string()));
        assert_eq!((note.file_name.as_str(), note.stem.as_str()), ("a:b.txt", "a:b"));
        assert_eq!(saved("d/a:..").file_name, "a:..");
        assert_eq!(saved("//a/b.txt").file_name, "b.txt");
        assert_eq!(sent_name("//a/b.txt"), (Ok("b.txt".to_string()), false));
        assert_eq!(file_name_of("//a/.."), (None, false));
    }
}

#[test]
fn names_where_drives_are_read() {
    let name = name_from("a:B:c.txt", true).unwrap();
    assert_eq!(name.file_name, "c.txt");
    assert_eq!((name.stem.as_str(), name.extension.as_str()), ("c", "txt"));
    assert_eq!(name_from("1:c", true).unwrap().file_name, "1:c");
    for bad in ["", ".", "..", "a:", "a:..", "a/b", "a\\b"] {
        assert_eq!(name_from(bad, true), None);
    }
    assert_eq!(name_from("a:B\\c", false).unwrap().file_name, "a:B\\c");
    assert_eq!(name_from("a/b", false), None);
}

#[test]
fn the_first_free_name_is_taken() {
    let taken = ["file.txt", "file_1.txt", "file_3.txt"];
    let mut search = NameSearch::new(saved("file.txt"));
    let mut tried = Vec::new();
    let chosen = loop {
        let name = search.candidate();
        let is_taken = taken.contains(&name.as_str());
        tried.push(name);
        if let Some(chosen) = search.step(is_taken) {
            break chosen;
        }
    };
    assert_eq!(chosen, "file_2.txt");
    assert_eq!(tried, vec!["file.txt", "file_1.txt", "file_2.txt"]);
}

#[test]
fn texts_of_name_errors() {
    assert_eq!(no_name().message(), "Invalid file name");
    assert_eq!(NameError::NotUtf8.message(), "The file name is not UTF-8");
}

#[test]
fn progress_stays_in_range() {
    let stop = CancelFlag { cancelled: true };
    let progress = |file: &Outgoing| match file.next(&stop) {
        OutgoingStep::Cancelled { update, .. } => update.progress,
        other => panic!("{:?}", other),
    };
    // An empty file.
    assert_eq!(progress(&outgoing(0)), Progress::Start);
    // A file that has grown since it was announced.
    let mut grown = outgoing(1);
    grown.record(b"a");
    assert_eq!(grown.progress(200).unwrap().progress, Progress::Part { done: 1, total: 1 });
    grown.record(b"b");
    assert_eq!(grown.progress(200).unwrap().progress, Progress::Part { done: 1, total: 1 });
    assert_eq!(progress(&grown), Progress::Part { done: 1, total: 1 });
    assert_eq!(grown.conclude().update.progress, Progress::Full);
    let mut filled = outgoing(0);
    filled.record(b"a");
    assert_eq!(filled.progress(200).unwrap().progress, Progress::Start);
}

#[test]
fn folders() {
    assert_eq!(choose_folder(true, true), FolderChoice::Named);
    assert_eq!(choose_folder(true, false), FolderChoice::Named);
    assert_eq!(choose_folder(false, true), FolderChoice::InHome);
    assert_eq!(choose_folder(false, false), FolderChoice::Current);
}
