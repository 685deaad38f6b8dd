use logship::agent::app_config::{
    AppConfig, DEFAULT_MESSAGE_BUFFER_SIZE, DEFAULT_POLL_INTERVAL_IN_SECONDS,
};
use logship::agent::container::{Container, ContainerSummary};
use logship::agent::container_log_extractor::{ContainerLogExtractor, StreamEnd, StreamStep};
use logship::common::log::ParseLogErr;
use std::collections::HashMap;

fn listed(name: &str) -> ContainerSummary {
    ContainerSummary { names: Some(vec![format!("/{}", name)]), labels: None }
}

fn settings(selector: &str) -> AppConfig {
    AppConfig::from_settings(
        "http://gateway".to_string(),
        "secret".to_string(),
        selector.to_string(),
        None,
        None,
    )
}

fn names(containers: &Vec<Container>) -> Vec<String> {
    containers.iter().map(|c| c.name.clone()).collect()
}

fn runtime() -> tokio::runtime::Runtime {
    tokio::runtime::Builder::new_current_thread().build().unwrap()
}

#[test]
fn settings_fall_back_to_defaults() {
    let config = settings("app-");
    assert_eq!(config.message_buffer_size, 32);
    assert_eq!(config.docker_container_poll_interval_in_seconds, 2);
    assert_eq!(DEFAULT_MESSAGE_BUFFER_SIZE, 32);
    assert_eq!(DEFAULT_POLL_INTERVAL_IN_SECONDS, 2);
    assert_eq!(config.api_url, "http://gateway");
    assert_eq!(config.api_token, "secret");
    assert_eq!(config.container_selector, "app-");
    assert!(config.is_usable());
}

#[test]
fn settings_take_what_the_environment_names() {
    let config = AppConfig::from_settings(
        "u".to_string(),
        "t".to_string(),
        "s".to_string(),
        Some(7),
        Some(9),
    );
    assert_eq!(config.message_buffer_size, 7);
    assert_eq!(config.docker_container_poll_interval_in_seconds, 9);
    let same = AppConfig::from_settings(
        "u".to_string(),
        "t".to_string(),
        "s".to_string(),
        Some(7),
        Some(9),
    );
    assert!(config == same);
    assert!(config != settings("s"));
}

#[test]
fn empty_settings_are_not_usable() {
    let config = AppConfig::default();
    assert_eq!(config.api_url, "");
    assert_eq!(config.message_buffer_size, 0);
    assert!(!config.is_usable());
    let no_room = AppConfig::from_settings(
        "u".to_string(),
        "t".to_string(),
        "s".to_string(),
        Some(0),
        Some(1),
    );
    assert!(!no_room.is_usable());
    let no_period = AppConfig::from_settings(
        "u".to_string(),
        "t".to_string(),
        "s".to_string(),
        Some(1),
        Some(0),
    );
    assert!(!no_period.is_usable());
}

#[test]
fn container_name_loses_leading_slash() {
    let mut labels = HashMap::new();
    labels.insert("team".to_string(), "core".to_string());
    let summary = ContainerSummary {
        names: Some(vec!["/web-1".to_string(), "/alias".to_string()]),
        labels: Some(labels.clone()),
    };
    assert!(summary.is_well_formed());
    let container = Container::from_summary(&summary).unwrap();
    assert_eq!(container.name, "web-1");
    assert_eq!(container.labels, labels);
}

#[test]
fn container_without_names_is_none() {
    let summary = ContainerSummary { names: None, labels: None };
    assert!(summary.is_well_formed());
    assert!(Container::from_summary(&summary).is_none());
}

#[test]
fn container_without_labels_has_none() {
    let container = Container::from_summary(&listed("db")).unwrap();
    assert_eq!(container.name, "db");
    assert!(container.labels.is_empty());
}

#[test]
fn container_name_of_one_character_becomes_empty() {
    let summary = ContainerSummary { names: Some(vec!["/".to_string()]), labels: None };
    assert_eq!(Container::from_summary(&summary).unwrap().name, "");
}

#[test]
fn listing_entries_that_cannot_be_named_are_told_apart() {
    let no_name = ContainerSummary { names: Some(Vec::new()), labels: None };
    assert!(!no_name.is_well_formed());
    let empty_name = ContainerSummary { names: Some(vec![String::new()]), labels: None };
    assert!(!empty_name.is_well_formed());
    let wide_start = ContainerSummary { names: Some(vec!["\u{e9}a".to_string()]), labels: None };
    assert!(!wide_start.is_well_formed());
    let wide_later = ContainerSummary { names: Some(vec!["/\u{e9}".to_string()]), labels: None };
    assert!(wide_later.is_well_formed());
    assert_eq!(Container::from_summary(&wide_later).unwrap().name, "\u{e9}");
}

#[test]
fn new_extractor_has_no_readers() {
    let config = AppConfig::from_settings(
        "u".to_string(),
        "t".to_string(),
        "app-".to_string(),
        None,
        Some(5),
    );
    let extractor = ContainerLogExtractor::new(&config, 1_234_567);
    assert_eq!(extractor.stream_count(), 0);
    assert_eq!(extractor.container_poll_interval_in_seconds(), 5);
    assert_eq!(extractor.stream_since(), 1234);
    assert!(!extractor.is_streamed(&"app-1".to_string()));
    assert!(extractor.finished_tasks().is_empty());
}

#[test]
fn resume_point_is_cut_to_whole_seconds() {
    let config = settings("");
    assert_eq!(ContainerLogExtractor::new(&config, 0).stream_since(), 0);
    assert_eq!(ContainerLogExtractor::new(&config, 999).stream_since(), 0);
    assert_eq!(ContainerLogExtractor::new(&config, 1000).stream_since(), 1);
    assert_eq!(ContainerLogExtractor::new(&config, 1999).stream_since(), 1);
    assert_eq!(ContainerLogExtractor::new(&config, -1).stream_since(), 0);
    assert_eq!(ContainerLogExtractor::new(&config, -1500).stream_since(), -1);
    assert_eq!(
        ContainerLogExtractor::new(&config, i64::MAX).stream_since(),
        9_223_372_036_854_775
    );
}

#[test]
fn first_cycle_starts_every_matching_container() {
    let mut extractor = ContainerLogExtractor::new(&settings("app-"), 0);
    let running = vec![
        listed("app-web"),
        listed("db"),
        ContainerSummary { names: None, labels: None },
        listed("app-worker"),
        listed("xapp-"),
    ];
    let to_start = extractor.poll_cycle(&running);
    assert_eq!(names(&to_start), vec!["app-web".to_string(), "app-worker".to_string()]);
    assert_eq!(extractor.stream_count(), 0);
}

#[test]
fn empty_selector_matches_every_container() {
    let mut extractor = ContainerLogExtractor::new(&settings(""), 0);
    let to_start = extractor.poll_cycle(&vec![listed("a"), listed("b")]);
    assert_eq!(names(&to_start), vec!["a".to_string(), "b".to_string()]);
}

#[test]
fn live_reader_is_not_started_again() {
    let rt = runtime();
    rt.block_on(async {
        let mut extractor = ContainerLogExtractor::new(&settings("app-"), 0);
        let running = vec![listed("app-web")];
        let first = extractor.poll_cycle(&running);
        assert_eq!(names(&first), vec!["app-web".to_string()]);
        for container in first {
            let handle = tokio::spawn(std::future::pending::<()>());
            assert!(extractor.register(container.name, handle).is_none());
        }
        assert!(extractor.is_streamed(&"app-web".to_string()));
        tokio::task::yield_now().await;
        assert_eq!(extractor.finished_tasks(), vec![false]);
        let second = extractor.poll_cycle(&running);
        assert!(second.is_empty());
        assert_eq!(extractor.stream_count(), 1);
        assert!(extractor.is_streamed(&"app-web".to_string()));
    });
}

#[test]
fn ended_reader_is_started_exactly_once() {
    let rt = runtime();
    rt.block_on(async {
        let mut extractor = ContainerLogExtractor::new(&settings("app-"), 0);
        let running = vec![listed("app-web"), listed("app-worker")];
        let first = extractor.poll_cycle(&running);
        assert_eq!(first.len(), 2);
        let ended = tokio::spawn(async {});
        extractor.register("app-web".to_string(), ended);
        let live = tokio::spawn(std::future::pending::<()>());
        extractor.register("app-worker".to_string(), live);
        while !extractor.finished_tasks()[0] {
            tokio::task::yield_now().await;
        }
        assert_eq!(extractor.finished_tasks(), vec![true, false]);
        let second = extractor.poll_cycle(&running);
        assert_eq!(names(&second), vec!["app-web".to_string()]);
        assert!(!extractor.is_streamed(&"app-web".to_string()));
        assert!(extractor.is_streamed(&"app-worker".to_string()));
        assert_eq!(extractor.stream_count(), 1);
    });
}

#[test]
fn ended_reader_of_stopped_container_stays_registered() {
    let rt = runtime();
    rt.block_on(async {
        let mut extractor = ContainerLogExtractor::new(&settings(""), 0);
        extractor.register("gone".to_string(), tokio::spawn(async {}));
        while !extractor.finished_tasks()[0] {
            tokio::task::yield_now().await;
        }
        let to_start = extractor.poll_cycle(&vec![listed("other")]);
        assert_eq!(names(&to_start), vec!["other".to_string()]);
        assert!(extractor.is_streamed(&"gone".to_string()));
    });
}

#[test]
fn plan_follows_the_answers_it_is_given() {
    let rt = runtime();
    rt.block_on(async {
        let mut extractor = ContainerLogExtractor::new(&settings("app-"), 0);
        for name in ["app-a", "app-b", "app-c", "other"] {
            let handle = tokio::spawn(std::future::pending::<()>());
            extractor.register(name.to_string(), handle);
        }
        let running = vec![listed("app-c"), listed("app-a"), listed("app-d"), listed("other")];
        let to_start = extractor.plan_cycle(&running, &vec![true, true, false, true]);
        assert_eq!(names(&to_start), vec!["app-a".to_string(), "app-d".to_string()]);
        assert!(!extractor.is_streamed(&"app-a".to_string()));
        assert!(extractor.is_streamed(&"app-b".to_string()));
        assert!(extractor.is_streamed(&"app-c".to_string()));
        assert!(extractor.is_streamed(&"other".to_string()));
        assert_eq!(extractor.stream_count(), 3);
    });
}

#[test]
fn registering_twice_replaces_the_reader() {
    let rt = runtime();
    rt.block_on(async {
        let mut extractor = ContainerLogExtractor::new(&settings(""), 0);
        assert!(extractor.register("a".to_string(), tokio::spawn(async {})).is_none());
        assert!(extractor.register("b".to_string(), tokio::spawn(async {})).is_none());
        let replaced = extractor.register("a".to_string(), tokio::spawn(std::future::pending::<()>()));
        assert!(replaced.is_some());
        replaced.unwrap().await.unwrap();
        assert_eq!(extractor.stream_count(), 2);
        while !extractor.finished_tasks()[0] {
            tokio::task::yield_now().await;
        }
        assert_eq!(extractor.finished_tasks(), vec![true, false]);
    });
}

#[test]
fn reader_delivers_a_record() {
    let chunk = b"{\"time\": 1000, \"msg\":\"a\"}";
    match ContainerLogExtractor::handle_container_logs(Some(Ok(&chunk[..]))) {
        StreamStep::Deliver(log) => {
            assert_eq!(log.time, 1000);
            assert_eq!(&log.original_data[..], &chunk[..]);
        }
        _ => panic!("a record must be delivered"),
    }
}

#[test]
fn reader_drops_what_is_no_record() {
    let step = ContainerLogExtractor::handle_container_logs(Some(Ok(&b"plain text"[..])));
    assert!(matches!(step, StreamStep::Discard(ParseLogErr::ParseError { .. })));
    let step = ContainerLogExtractor::handle_container_logs(Some(Ok(&b"{}"[..])));
    assert!(matches!(step, StreamStep::Discard(ParseLogErr::TimeColumnMissing)));
}

#[test]
fn reader_stops_on_a_failed_read() {
    let step = ContainerLogExtractor::handle_container_logs(Some(Err("connection reset".to_string())));
    match step {
        StreamStep::Stop(StreamEnd::Failed { reason }) => assert_eq!(reason, "connection reset"),
        _ => panic!("a failed read must end the task"),
    }
}

#[test]
fn reader_stops_at_the_end_of_the_stream() {
    let step = ContainerLogExtractor::handle_container_logs(None);
    assert!(matches!(step, StreamStep::Stop(StreamEnd::Finished)));
}

#[test]
fn stream_is_asked_for_both_channels_from_the_watermark() {
    let extractor = ContainerLogExtractor::new(&settings("app-"), 1_665_622_800_655);
    let container = Container::from_summary(&listed("app-web")).unwrap();
    let request = extractor.stream_request(&container);
    assert_eq!(request.container_name, "app-web");
    assert!(request.follow);
    assert!(request.stdout);
    assert!(request.stderr);
    assert_eq!(request.since, 1_665_622_800);
}

#[test]
fn name_listed_twice_is_handed_out_twice() {
    let mut extractor = ContainerLogExtractor::new(&settings("app-"), 0);
    let to_start = extractor.poll_cycle(&vec![listed("app-web"), listed("app-web")]);
    assert_eq!(names(&to_start), vec!["app-web".to_string(), "app-web".to_string()]);
}

#[test]
fn selector_is_matched_at_the_start_of_the_name_only() {
    let mut extractor = ContainerLogExtractor::new(&settings("web"), 0);
    let running = vec![listed("web"), listed("we"), listed("my-web"), listed("webby"), listed("Web")];
    let to_start = extractor.poll_cycle(&running);
    assert_eq!(names(&to_start), vec!["web".to_string(), "webby".to_string()]);
}
