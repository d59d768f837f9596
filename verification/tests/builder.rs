use logcat::message::{DateTime, Error, Level, MessageBuilder};

#[test]
fn builder_message_with_mandatory() {
    let m = MessageBuilder::new()
        .level(Level::Verbose)
        .tag("tag")
        .content("content")
        .build()
        .unwrap();

    assert_eq!(m.level(), Level::Verbose);
    assert_eq!(m.tag(), "tag");
    assert_eq!(m.content(), "content");
    assert_eq!(m.date(), None);
    assert_eq!(m.time(), None);
    assert_eq!(m.process_id(), None);
    assert_eq!(m.thread_id(), None);
}

#[test]
fn builder_message_with_optional() {
    let m = MessageBuilder::new()
        .level(Level::Verbose)
        .tag("tag")
        .content("content")
        .date_time(DateTime::new(2017, 8, 1, 7, 30, 0, 0).unwrap())
        .process_id(1)
        .thread_id(2)
        .build()
        .unwrap();

    assert_eq!(m.level(), Level::Verbose);
    assert_eq!(m.tag(), "tag");
    assert_eq!(m.content(), "content");

    let date = m.date().unwrap();
    assert_eq!(date.year(), 2017);
    assert_eq!(date.month(), 8);
    assert_eq!(date.day(), 1);

    let time = m.time().unwrap();
    assert_eq!(time.hour(), 7);
    assert_eq!(time.minute(), 30);
    assert_eq!(time.second(), 0);

    assert_eq!(m.process_id().unwrap(), 1);
    assert_eq!(m.thread_id().unwrap(), 2);
}

#[test]
fn message_without_mandatory_fields() {
    assert_eq!(
        MessageBuilder::new().build(),
        Err(Error::FieldNotSet("level"))
    );
    assert_eq!(
        MessageBuilder::new().level(Level::Debug).build(),
        Err(Error::FieldNotSet("tag"))
    );
    assert_eq!(
        MessageBuilder::new().level(Level::Debug).tag("tag").build(),
        Err(Error::FieldNotSet("content"))
    );
    assert_eq!(
        MessageBuilder::new().tag("tag").content("content").build(),
        Err(Error::FieldNotSet("level"))
    );
}

#[test]
fn message_message_with_mandatory() {
    let m = MessageBuilder::new()
        .level(Level::Verbose)
        .tag("tag")
        .content("content")
        .build()
        .unwrap();

    assert_eq!(m.level(), Level::Verbose);
    assert_eq!(m.tag(), "tag");
    assert_eq!(m.content(), "content");
    assert_eq!(m.date(), None);
    assert_eq!(m.time(), None);
    assert_eq!(m.process_id(), None);
    assert_eq!(m.thread_id(), None);
}

#[test]
fn message_message_with_optional() {
    let m = MessageBuilder::new()
        .level(Level::Verbose)
        .tag("tag")
        .content("content")
        .date_time(DateTime::new(2017, 8, 1, 7, 30, 0, 0).unwrap())
        .process_id(1)
        .thread_id(2)
        .build()
        .unwrap();

    assert_eq!(m.level(), Level::Verbose);
    assert_eq!(m.tag(), "tag");
    assert_eq!(m.content(), "content");

    let date = m.date().unwrap();
    assert_eq!(date.year(), 2017);
    assert_eq!(date.month(), 8);
    assert_eq!(date.day(), 1);

    let time = m.time().unwrap();
    assert_eq!(time.hour(), 7);
    assert_eq!(time.minute(), 30);
    assert_eq!(time.second(), 0);

    assert_eq!(m.process_id().unwrap(), 1);
    assert_eq!(m.thread_id().unwrap(), 2);
}

#[test]
fn builder_fields_in_any_order() {
    let m = MessageBuilder::new()
        .thread_id(7)
        .content("c")
        .process_id(6)
        .tag("t")
        .level(Level::Fatal)
        .build()
        .unwrap();

    assert_eq!(m.level(), Level::Fatal);
    assert_eq!(m.tag(), "t");
    assert_eq!(m.content(), "c");
    assert_eq!(m.date_time(), None);
    assert_eq!(m.process_id(), Some(6));
    assert_eq!(m.thread_id(), Some(7));
}

#[test]
fn date_time_rejects_out_of_range() {
    assert!(DateTime::new(2021, 13, 1, 0, 0, 0, 0).is_none());
    assert!(DateTime::new(2021, 0, 1, 0, 0, 0, 0).is_none());
    assert!(DateTime::new(2021, 2, 30, 0, 0, 0, 0).is_none());
    assert!(DateTime::new(2021, 1, 0, 0, 0, 0, 0).is_none());
    assert!(DateTime::new(2021, 1, 32, 0, 0, 0, 0).is_none());
    assert!(DateTime::new(2021, 1, 1, 24, 0, 0, 0).is_none());
    assert!(DateTime::new(2021, 1, 1, 0, 60, 0, 0).is_none());
    assert!(DateTime::new(2021, 1, 1, 0, 0, 60, 0).is_none());
    assert!(DateTime::new(2021, 1, 1, 0, 0, 0, 2000).is_none());
    assert!(DateTime::new(2021, 1, 1, 23, 59, 59, 1999).is_some());
}

#[test]
fn date_time_leap_years() {
    assert!(DateTime::new(2024, 2, 29, 0, 0, 0, 0).is_some());
    assert!(DateTime::new(2023, 2, 29, 0, 0, 0, 0).is_none());
    assert!(DateTime::new(2000, 2, 29, 0, 0, 0, 0).is_some());
    assert!(DateTime::new(1900, 2, 29, 0, 0, 0, 0).is_none());
    assert!(DateTime::new(2024, 2, 30, 0, 0, 0, 0).is_none());
}
