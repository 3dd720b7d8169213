use livelogo::db::{
    after_step, as_base64, compressed_reply, decimal, first_step, get_history, get_history_from_date,
    get_history_index, history_reply, image_query, image_reply, index_reply, init_db, save_logo, store_error,
    Error, Failure, GetHistoryOptions, HistoryIndex, Instant, LogoState, Operation, Param, Step,
    DATABASE_VARIABLE,
};
use std::io::Read;

#[test]
fn table_is_made_where_there_is_none() {
    let statement = init_db();
    assert!(statement.text.starts_with("CREATE TABLE IF NOT EXISTS timeline ("));
    assert!(statement.text.contains("created_at TIMESTAMPTZ NOT NULL DEFAULT NOW() PRIMARY KEY,"));
    assert!(statement.text.contains("image_png BYTEA NOT NULL"));
    assert!(statement.text.ends_with(")"));
    assert!(statement.params.is_empty());
}

#[test]
fn image_is_stored_as_the_only_value() {
    let statement = save_logo(&[1, 2, 3]);
    assert_eq!(statement.text, "INSERT INTO timeline (image_png) VALUES ($1)");
    assert_eq!(statement.params.len(), 1);
    match &statement.params[0] {
        Param::Image(image) => assert_eq!(image, &vec![1u8, 2, 3]),
        other => panic!("{:?}", other),
    }
    match &save_logo(&[]).params[0] {
        Param::Image(image) => assert!(image.is_empty()),
        other => panic!("{:?}", other),
    }
}

#[test]
fn history_is_asked_oldest_first() {
    let statement = get_history(GetHistoryOptions::default());
    assert_eq!(statement.text, "SELECT created_at, image_png FROM timeline ORDER BY created_at");
    assert!(statement.params.is_empty());
    assert_eq!(GetHistoryOptions::default().limit, None);
}

#[test]
fn history_is_cut_off_at_the_limit() {
    let statement = get_history(GetHistoryOptions { limit: Some(25) });
    assert_eq!(statement.text, "SELECT created_at, image_png FROM timeline ORDER BY created_at LIMIT 25");
    let statement = get_history(GetHistoryOptions { limit: Some(0) });
    assert_eq!(statement.text, "SELECT created_at, image_png FROM timeline ORDER BY created_at LIMIT 0");
    let statement = get_history(GetHistoryOptions { limit: Some(u32::MAX) });
    assert_eq!(
        statement.text,
        "SELECT created_at, image_png FROM timeline ORDER BY created_at LIMIT 4294967295"
    );
}

#[test]
fn numbers_are_written_in_decimal() {
    assert_eq!(decimal(0), "0");
    assert_eq!(decimal(7), "7");
    assert_eq!(decimal(10), "10");
    assert_eq!(decimal(109), "109");
    assert_eq!(decimal(123456789), "123456789");
    assert_eq!(decimal(u32::MAX), "4294967295");
    for n in 0..2000u32 {
        assert_eq!(decimal(n), n.to_string());
    }
}

#[test]
fn index_is_asked_oldest_first() {
    let statement = get_history_index();
    assert_eq!(statement.text, "SELECT created_at FROM timeline ORDER BY created_at");
    assert!(statement.params.is_empty());
}

#[test]
fn image_is_asked_by_its_time() {
    let statement = get_history_from_date("2019-05-17T10:20:30Z".to_string()).unwrap();
    assert_eq!(statement.text, "SELECT image_png FROM timeline WHERE created_at=$1");
    assert_eq!(statement.params.len(), 1);
    match &statement.params[0] {
        Param::Time(time) => assert_eq!(*time, Instant { secs: 1558088430, nanos: 0 }),
        other => panic!("{:?}", other),
    }
}

#[test]
fn time_is_read_with_fraction_and_offset() {
    let statement = get_history_from_date("2019-05-17 12:20:30.25+02:00".to_string()).unwrap();
    match &statement.params[0] {
        Param::Time(time) => assert_eq!(*time, Instant { secs: 1558088430, nanos: 250_000_000 }),
        other => panic!("{:?}", other),
    }
    let statement = get_history_from_date("1969-12-31T23:59:59Z".to_string()).unwrap();
    match &statement.params[0] {
        Param::Time(time) => assert_eq!(*time, Instant { secs: -1, nanos: 0 }),
        other => panic!("{:?}", other),
    }
}

#[test]
fn text_that_is_no_time_is_refused() {
    for text in ["", "yesterday", "2019-05-17", "2019-13-01T00:00:00Z", "index"] {
        match get_history_from_date(text.to_string()) {
            Err(Error::ParseDateError { source }) => assert!(!source.is_empty()),
            other => panic!("{:?}", other),
        }
    }
}

#[test]
fn image_query_follows_what_was_read() {
    let statement = image_query(Ok(Instant { secs: 5, nanos: 6 })).unwrap();
    assert_eq!(statement.text, "SELECT image_png FROM timeline WHERE created_at=$1");
    match &statement.params[0] {
        Param::Time(time) => assert_eq!(*time, Instant { secs: 5, nanos: 6 }),
        other => panic!("{:?}", other),
    }
    let refused = image_query(Err("no".to_string()));
    assert_eq!(refused.err(), Some(Error::ParseDateError { source: "no".to_string() }));
}

#[test]
fn bytes_are_written_as_base64() {
    assert_eq!(as_base64(&b"hello world".to_vec()), "aGVsbG8gd29ybGQ=");
    assert_eq!(as_base64(&vec![]), "");
    assert_eq!(as_base64(&vec![0xff]), "/w==");
    assert_eq!(as_base64(&vec![0xfb, 0xef, 0xbe]), "++++");
    let state = LogoState { time: Instant { secs: 0, nanos: 0 }, logo: vec![1, 2, 3, 4] };
    assert_eq!(state.encoded_logo(), "AQIDBA==");
    assert_eq!(HistoryIndex { time: state.time }.time, Instant { secs: 0, nanos: 0 });
}

#[test]
fn write_takes_four_steps() {
    assert_eq!(first_step(), Step::Connect);
    assert_eq!(after_step(Operation::Write, Step::Connect, Ok(())), Ok(Some(Step::Begin)));
    assert_eq!(after_step(Operation::Write, Step::Begin, Ok(())), Ok(Some(Step::Execute)));
    assert_eq!(after_step(Operation::Write, Step::Execute, Ok(())), Ok(Some(Step::Commit)));
    assert_eq!(after_step(Operation::Write, Step::Commit, Ok(())), Ok(None));
}

#[test]
fn read_takes_two_steps() {
    assert_eq!(after_step(Operation::Read, Step::Connect, Ok(())), Ok(Some(Step::Execute)));
    assert_eq!(after_step(Operation::Read, Step::Execute, Ok(())), Ok(None));
    assert_eq!(after_step(Operation::Read, Step::Begin, Ok(())), Ok(None));
    assert_eq!(after_step(Operation::Read, Step::Commit, Ok(())), Ok(None));
}

#[test]
fn failed_step_ends_the_operation_with_its_error() {
    assert_eq!(DATABASE_VARIABLE, "DATABASE_URL");
    let missing = after_step(Operation::Write, Step::Connect, Err(Failure::Variable("not present".to_string())));
    assert_eq!(
        missing,
        Err(Error::EnvVar { env: "DATABASE_URL".to_string(), source: "not present".to_string() })
    );
    for step in [Step::Connect, Step::Begin, Step::Execute, Step::Commit] {
        for operation in [Operation::Write, Operation::Read] {
            let failed = after_step(operation, step, Err(Failure::Store("down".to_string())));
            assert_eq!(failed, Err(Error::PgError { source: "down".to_string() }));
        }
    }
    assert_eq!(
        store_error(Failure::Store("x".to_string())),
        Error::PgError { source: "x".to_string() }
    );
}

#[test]
fn history_is_sent_compressed() {
    let json = br#"[{"time":"2019-05-17T10:20:30Z","logo":"AQID"}]"#.to_vec();
    let reply = history_reply(&json).unwrap();
    assert_eq!(reply.content_type, "application/json");
    assert_eq!(reply.content_encoding, Some("gzip".to_string()));
    assert_eq!(&reply.body[0..3], &[0x1f, 0x8b, 8]);
    assert_ne!(reply.body, json);
    let mut restored = Vec::new();
    flate2::read::GzDecoder::new(&reply.body[..]).read_to_end(&mut restored).unwrap();
    assert_eq!(restored, json);
}

#[test]
fn empty_history_is_sent_compressed_too() {
    let reply = history_reply(&b"[]".to_vec()).unwrap();
    let mut restored = Vec::new();
    flate2::read::GzDecoder::new(&reply.body[..]).read_to_end(&mut restored).unwrap();
    assert_eq!(restored, b"[]");
    assert_eq!(history_reply(&b"[]".to_vec()).unwrap().body, reply.body);
}

#[test]
fn compressed_reply_follows_the_compressor() {
    let reply = compressed_reply(Ok(vec![1, 2, 3])).unwrap();
    assert_eq!(reply.content_type, "application/json");
    assert_eq!(reply.content_encoding, Some("gzip".to_string()));
    assert_eq!(reply.body, vec![1, 2, 3]);
    let refused = compressed_reply(Err("full".to_string()));
    assert_eq!(refused.err(), Some(Error::EncodeError { source: "full".to_string() }));
}

#[test]
fn image_is_sent_as_png() {
    let reply = image_reply(vec![vec![5, 6, 7], vec![8]]).unwrap();
    assert_eq!(reply.content_type, "image/png");
    assert_eq!(reply.content_encoding, None);
    assert_eq!(reply.body, vec![5, 6, 7]);
}

#[test]
fn image_that_is_not_there_is_not_found() {
    assert_eq!(image_reply(vec![]).err(), Some(Error::NotFound));
}

#[test]
fn index_is_sent_as_it_is() {
    let reply = index_reply(r#"[{"time":"2019-05-17T10:20:30Z"}]"#.to_string());
    assert_eq!(reply.content_type, "application/json");
    assert_eq!(reply.content_encoding, None);
    assert_eq!(reply.body, br#"[{"time":"2019-05-17T10:20:30Z"}]"#.to_vec());
    assert_eq!(index_reply("é".to_string()).body, vec![0xc3, 0xa9]);
}
