use quandl_v3::code_list::{codes_from, decode_codes, split_code, unzip};
use quandl_v3::download::{decode_text, read_reply, single, Reply};
use quandl_v3::types::Code;
use quandl_v3::Error;
use std::io::{Cursor, Write};

fn zipped(files: &[(&str, &[u8])]) -> Vec<u8> {
    let mut writer = zip::ZipWriter::new(Cursor::new(Vec::new()));
    for (name, content) in files {
        writer
            .start_file(*name, zip::write::SimpleFileOptions::default())
            .unwrap();
        writer.write_all(content).unwrap();
    }
    writer.finish().unwrap().into_inner()
}

fn code(database: &str, dataset: &str, name: &str) -> Code {
    Code {
        dataset_code: dataset.to_string(),
        database_code: database.to_string(),
        name: name.to_string(),
    }
}

#[test]
fn text_from_bytes() {
    assert_eq!(decode_text("héllo".as_bytes().to_vec()), Ok("héllo".to_string()));
    assert_eq!(decode_text(vec![]), Ok(String::new()));
    assert!(matches!(decode_text(vec![0x68, 0xff]), Err(Error::ParsingFailed(_))));
}

#[test]
fn reply_by_status() {
    assert!(matches!(read_reply(vec![1, 2, 255], true), Reply::Body(body) if body == vec![1, 2, 255]));
    assert!(matches!(
        read_reply(b"{\"quandl_error\":{}}".to_vec(), false),
        Reply::Refused(text) if text == "{\"quandl_error\":{}}"
    ));
    assert!(matches!(
        read_reply(vec![0xc3, 0x28], false),
        Reply::Unreadable(Error::ParsingFailed(_))
    ));
}

#[test]
fn single_element_or_failure() {
    assert_eq!(single(vec![9]), Ok(9));
    assert_eq!(
        single(Vec::<u8>::new()),
        Err(Error::ParsingFailed("Expected a single element, got 0.".to_string()))
    );
    assert_eq!(
        single(vec![1, 2, 3]),
        Err(Error::ParsingFailed("Expected a single element, got 3.".to_string()))
    );
}

#[test]
fn full_code_has_one_slash() {
    assert_eq!(split_code("WIKI/AAPL"), Some(("WIKI".to_string(), "AAPL".to_string())));
    assert_eq!(split_code("/"), Some((String::new(), String::new())));
    assert_eq!(split_code("é/ü"), Some(("é".to_string(), "ü".to_string())));
    assert_eq!(split_code("WIKI"), None);
    assert_eq!(split_code(""), None);
    assert_eq!(split_code("A/B/C"), None);
    assert_eq!(split_code("A//"), None);
}

#[test]
fn archive_unfolds_to_the_text_of_its_files() {
    let bytes = zipped(&[("a.csv", b"one\n"), ("b.csv", b"two\n")]);
    assert_eq!(unzip(bytes), Ok("one\ntwo\n".to_string()));
    assert_eq!(unzip(zipped(&[])), Ok(String::new()));
}

#[test]
fn bytes_that_are_no_archive_fail() {
    assert!(matches!(unzip(b"code,name\n".to_vec()), Err(Error::ParsingFailed(_))));
    assert!(matches!(decode_codes(vec![]), Err(Error::ParsingFailed(_))));
}

#[test]
fn file_that_is_no_text_fails() {
    let bytes = zipped(&[("a.bin", &[0xff, 0xfe, 0x00])]);
    assert!(matches!(unzip(bytes), Err(Error::ParsingFailed(_))));
}

#[test]
fn code_list_from_an_archive() {
    let table = b"code,name\nWIKI/AAPL,Apple Inc.\nWIKI/MSFT,\"Microsoft, Corp.\"\n";
    let list = decode_codes(zipped(&[("WIKI-datasets-codes.csv", table)]));
    assert_eq!(
        list,
        Ok(vec![
            code("WIKI", "AAPL", "Apple Inc."),
            code("WIKI", "MSFT", "Microsoft, Corp."),
        ])
    );
}

#[test]
fn first_line_is_a_header() {
    let list = decode_codes(zipped(&[("codes.csv", b"WIKI/AAPL,Apple Inc.\n")]));
    assert_eq!(list, Ok(vec![]));
}

#[test]
fn code_without_slash_fails() {
    let table = b"code,name\nWIKI/AAPL,Apple\nWIKI-MSFT,Microsoft\n";
    assert_eq!(
        decode_codes(zipped(&[("codes.csv", table)])),
        Err(Error::ParsingFailed(
            "Invalid format for dataset codes in unzipped code list.".to_string()
        ))
    );
}

#[test]
fn record_of_another_width_fails() {
    let table = b"code,name\nWIKI/AAPL,Apple\nWIKI/MSFT\n";
    assert!(matches!(
        decode_codes(zipped(&[("codes.csv", table)])),
        Err(Error::ParsingFailed(message))
            if message != "Invalid format for dataset codes in unzipped code list."
    ));
}

#[test]
fn records_become_entries_in_order() {
    let records = vec![
        Ok(("A/B".to_string(), "first".to_string())),
        Ok(("C/D".to_string(), "second".to_string())),
    ];
    assert_eq!(
        codes_from(records),
        Ok(vec![code("A", "B", "first"), code("C", "D", "second")])
    );
    assert_eq!(codes_from(vec![]), Ok(vec![]));
}

#[test]
fn first_bad_record_decides_the_failure() {
    let records = vec![
        Ok(("A/B".to_string(), "first".to_string())),
        Err("line 3 is broken".to_string()),
        Ok(("CD".to_string(), "third".to_string())),
    ];
    assert_eq!(
        codes_from(records),
        Err(Error::ParsingFailed("line 3 is broken".to_string()))
    );
    let records = vec![
        Ok(("AB".to_string(), "first".to_string())),
        Err("line 3 is broken".to_string()),
    ];
    assert_eq!(
        codes_from(records),
        Err(Error::ParsingFailed(
            "Invalid format for dataset codes in unzipped code list.".to_string()
        ))
    );
}
