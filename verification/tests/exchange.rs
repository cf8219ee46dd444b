use gopher::{
    download_url, fetch, fetch_url, request, Action, Download, DownloadAction, DownloadEvent, Event,
    Failure, Fetch, FetchAction, FetchEvent, Key, Lookup, Request, Step, Stream,
    TCP_TIMEOUT_IN_SECS,
};

fn describe(action: Option<Action>) -> String {
    match action {
        None => "over".to_string(),
        Some(Action::NewConnector) => "connector".to_string(),
        Some(Action::Resolve(name)) => format!("resolve {}", name),
        Some(Action::Connect(secs)) => format!("connect {}", secs),
        Some(Action::SetReadTimeout(secs)) => format!("timeout {}", secs),
        Some(Action::Handshake(host)) => format!("handshake {}", host),
        Some(Action::ReadProxy) => "proxy".to_string(),
        Some(Action::ConnectTor(address)) => format!("tor {}", address),
        Some(Action::Send(text)) => format!("send {:?}", text),
    }
}

/// Runs a request and returns what it asked for and where it ended.
fn run(mut r: Request, events: Vec<Event>) -> (Vec<String>, Step) {
    let mut asked = vec![describe(r.action())];
    for event in events {
        r = r.advance(event);
        asked.push(describe(r.action()));
    }
    (asked, r.step())
}

fn found() -> Event {
    Event::Resolved(Lookup::Found)
}

#[test]
fn plain_request() {
    let (asked, step) = run(
        request("sdf.org", "70", "/find?a?b", false, false),
        vec![
            found(),
            Event::Connected(true),
            Event::TimeoutSet(true),
            Event::Sent(true),
            Event::Sent(true),
        ],
    );
    assert_eq!(
        asked,
        vec![
            "resolve sdf.org:70",
            "connect 8",
            "timeout 8",
            "send \"/find\\ta\\tb\"",
            "send \"\\r\\n\"",
            "over",
        ]
    );
    assert_eq!(step, Step::Open(Stream { tls: false }));
    assert_eq!(TCP_TIMEOUT_IN_SECS, 8);
}

#[test]
fn tls_request() {
    let (asked, step) = run(
        request("sdf.org", "7443", "", true, true),
        vec![
            Event::Connector(true),
            found(),
            Event::Connected(true),
            Event::TimeoutSet(true),
            Event::Handshaken(true),
            Event::Sent(true),
            Event::Sent(true),
        ],
    );
    assert_eq!(
        asked,
        vec![
            "connector",
            "resolve sdf.org:7443",
            "connect 8",
            "timeout 8",
            "handshake sdf.org",
            "send \"\"",
            "send \"\\r\\n\"",
            "over",
        ]
    );
    assert_eq!(step, Step::Open(Stream { tls: true }));
    assert!(Stream { tls: true }.is_tls());
    assert!(!Stream { tls: false }.is_tls());
}

#[test]
fn failed_tls_falls_back() {
    let (asked, _) = run(request("h", "1", "s", true, false), vec![Event::Connector(false)]);
    assert_eq!(asked, vec!["connector", "resolve h:1"]);

    let (asked, step) = run(
        request("h", "1", "s", true, true),
        vec![
            Event::Connector(true),
            found(),
            Event::Connected(true),
            Event::TimeoutSet(true),
            Event::Handshaken(false),
            Event::Proxy(None),
            found(),
            Event::Connected(true),
            Event::Sent(true),
            Event::Sent(true),
        ],
    );
    assert_eq!(
        asked[5..],
        vec!["proxy", "resolve 127.0.0.1:9050", "tor h:1", "send \"s\"", "send \"\\r\\n\"", "over"]
    );
    assert_eq!(step, Step::Open(Stream { tls: false }));
}

/// Every way in which the TLS attempt of a request can fail.
fn tls_failures() -> Vec<Vec<Event>> {
    vec![
        vec![Event::Connector(false)],
        vec![Event::Connector(true), Event::Resolved(Lookup::Empty)],
        vec![Event::Connector(true), Event::Resolved(Lookup::Failed)],
        vec![Event::Connector(true), found(), Event::Connected(false)],
        vec![Event::Connector(true), found(), Event::Connected(true), Event::TimeoutSet(false)],
        vec![
            Event::Connector(true),
            found(),
            Event::Connected(true),
            Event::TimeoutSet(true),
            Event::Handshaken(false),
        ],
    ]
}

#[test]
fn a_regular_connection_is_tried_whatever_fails_of_tls() {
    for mut events in tls_failures() {
        let n = events.len();
        events.extend(sent_plain());
        let (asked, step) = run(request("h", "1", "s", true, false), events);
        assert_eq!(
            asked[n..],
            vec!["resolve h:1", "connect 8", "timeout 8", "send \"s\"", "send \"\\r\\n\"", "over"]
        );
        assert_eq!(step, Step::Open(Stream { tls: false }));
    }
}

#[test]
fn tor_is_tried_whatever_fails_of_tls() {
    for mut events in tls_failures() {
        let n = events.len();
        events.extend(vec![
            Event::Proxy(None),
            found(),
            Event::Connected(true),
            Event::Sent(true),
            Event::Sent(true),
        ]);
        let (asked, step) = run(request("h", "1", "s", true, true), events);
        assert_eq!(asked[n], "proxy");
        assert_eq!(step, Step::Open(Stream { tls: false }));
    }
}

#[test]
fn a_stray_handshake_makes_no_tls_stream() {
    let mut events = vec![Event::Connector(false), Event::Handshaken(true)];
    events.extend(sent_plain());
    let (_, step) = run(request("h", "1", "s", true, false), events);
    assert_eq!(step, Step::Open(Stream { tls: false }));
}

#[test]
fn tor_without_tls_never_connects_directly() {
    let (asked, step) = run(
        request("h", "1", "s", false, true),
        vec![
            Event::Proxy(None),
            found(),
            Event::Connected(true),
            Event::Sent(true),
            Event::Sent(true),
        ],
    );
    assert!(asked.iter().all(|action| !action.starts_with("connect ")));
    assert_eq!(step, Step::Open(Stream { tls: false }));
}

#[test]
fn tor_proxy_of_the_user() {
    let (asked, _) = run(
        request("h", "1", "s", false, true),
        vec![Event::Proxy(Some("10.0.0.1:9".to_string())), found()],
    );
    assert_eq!(asked, vec!["proxy", "resolve 10.0.0.1:9", "tor h:1"]);
}

#[test]
fn request_failures() {
    let plain = || request("h", "1", "s", false, false);
    let passed = Step::Failed(Failure::Passed);
    assert_eq!(run(plain(), vec![Event::Resolved(Lookup::Failed)]).1, passed);
    assert_eq!(
        run(plain(), vec![Event::Resolved(Lookup::Empty)]).1,
        Step::Failed(Failure::NoAddress)
    );
    assert_eq!(run(plain(), vec![found(), Event::Connected(false)]).1, passed);
    assert_eq!(
        run(plain(), vec![found(), Event::Connected(true), Event::TimeoutSet(false)]).1,
        passed
    );
    let send = |events: Vec<Event>| {
        let mut all = vec![found(), Event::Connected(true), Event::TimeoutSet(true)];
        all.extend(events);
        run(plain(), all).1
    };
    assert_eq!(send(vec![Event::Sent(false)]), passed);
    assert_eq!(send(vec![Event::Sent(true), Event::Sent(false)]), passed);
    // an established TLS channel is not given up for another
    assert_eq!(
        run(
            request("h", "1", "s", true, true),
            vec![
                Event::Connector(true),
                found(),
                Event::Connected(true),
                Event::TimeoutSet(true),
                Event::Handshaken(true),
                Event::Sent(false),
            ],
        )
        .1,
        passed
    );
    assert_eq!(
        run(
            request("h", "1", "s", false, true),
            vec![Event::Proxy(None), found(), Event::Connected(false)],
        )
        .1,
        Step::Failed(Failure::Tor)
    );
    assert_eq!(
        run(
            request("h", "1", "s", false, true),
            vec![Event::Proxy(None), Event::Resolved(Lookup::Failed)],
        )
        .1,
        passed
    );
}

#[test]
fn events_that_answer_nothing_change_nothing() {
    let (asked, step) = run(
        request("h", "1", "s", false, false),
        vec![Event::Sent(true), Event::Handshaken(true), Event::Proxy(None)],
    );
    assert_eq!(asked, vec!["resolve h:1"; 4]);
    assert!(matches!(step, Step::Lookup(_)));
    let (asked, step) = run(
        request("h", "1", "s", false, false),
        vec![Event::Resolved(Lookup::Empty), found(), Event::Connected(true)],
    );
    assert_eq!(asked, vec!["resolve h:1", "over", "over", "over"]);
    assert_eq!(step, Step::Failed(Failure::NoAddress));
}

#[test]
fn failure_messages() {
    assert_eq!(Failure::Passed.message("refused"), "refused");
    assert_eq!(Failure::NoAddress.message("x"), "Can't create socket");
    assert_eq!(Failure::Tor.message("no route"), "Tor error: no route");
    assert_eq!(Failure::Filename.message("/"), "Bad download filename: /");
    assert_eq!(Failure::Cancelled.message(""), "Download cancelled");
}

fn sent_plain() -> Vec<Event> {
    vec![
        found(),
        Event::Connected(true),
        Event::TimeoutSet(true),
        Event::Sent(true),
        Event::Sent(true),
    ]
}

#[test]
fn fetch_gives_the_response() {
    let mut f = fetch_url("gopher://sdf.org/0/x?q", false, false);
    assert!(matches!(f.action(), Some(FetchAction::Request(Action::Resolve("sdf.org:70")))));
    for event in sent_plain() {
        if let Some(FetchAction::Request(Action::Send(text))) = f.action() {
            assert!(text == "/x\tq" || text == "\r\n");
        }
        f = f.advance(FetchEvent::Request(event));
    }
    assert!(matches!(f.action(), Some(FetchAction::ReadToEnd)));
    f = f.advance(FetchEvent::Body(Some(vec![b'h', 0x7f, b'i', 0xfe])));
    assert!(f.action().is_none());
    match f {
        Fetch::Finished(tls, text) => {
            assert!(!tls);
            assert_eq!(text, "hi\u{fffd}");
        }
        _ => panic!("not finished"),
    }
}

#[test]
fn fetch_over_tls() {
    let mut f = fetch("h", "70", "/", true, false);
    for event in vec![
        Event::Connector(true),
        found(),
        Event::Connected(true),
        Event::TimeoutSet(true),
        Event::Handshaken(true),
        Event::Sent(true),
        Event::Sent(true),
    ] {
        f = f.advance(FetchEvent::Request(event));
    }
    f = f.advance(FetchEvent::Body(Some(vec![])));
    assert!(matches!(f, Fetch::Finished(true, ref text) if text.is_empty()));
}

#[test]
fn fetch_failures() {
    let f = fetch("h", "70", "/", false, false);
    let f = f.advance(FetchEvent::Request(Event::Resolved(Lookup::Empty)));
    assert!(matches!(f, Fetch::Failed(Failure::NoAddress)));

    let mut f = fetch("h", "70", "/", false, false);
    for event in sent_plain() {
        f = f.advance(FetchEvent::Request(event));
    }
    f = f.advance(FetchEvent::Body(None));
    assert!(matches!(f, Fetch::Failed(Failure::Passed)));
    f = f.advance(FetchEvent::Body(Some(vec![b'x'])));
    assert!(matches!(f, Fetch::Failed(Failure::Passed)));
}

/// A download of which the request has been sent.
fn opened(url: &str) -> Download {
    let mut d = match download_url(url, false, false) {
        Ok(d) => d,
        Err(_) => panic!("no file name"),
    };
    for event in sent_plain() {
        d = d.advance(DownloadEvent::Request(event));
    }
    d
}

fn name_of(url: &str) -> Option<String> {
    match download_url(url, false, false) {
        Err(failure) => {
            assert_eq!(failure, Failure::Filename);
            None
        }
        Ok(_) => match opened(url).action() {
            Some(DownloadAction::Create(name)) => Some(name.to_string()),
            _ => panic!("no file is created"),
        },
    }
}

#[test]
fn download_file_names() {
    assert_eq!(name_of("a/9/bin/x.zip"), Some("x.zip".to_string()));
    assert_eq!(name_of("a/9/bin/x.zip/"), Some("x.zip".to_string()));
    assert_eq!(name_of("a/9x.zip"), Some("x.zip".to_string()));
    assert_eq!(name_of("a/9/"), Some("".to_string()));
    assert_eq!(name_of("a/9/x//"), Some("".to_string()));
    assert_eq!(name_of("a/9/é"), Some("é".to_string()));
    assert_eq!(name_of("a"), None);
    assert_eq!(name_of("a/9"), None);
    assert_eq!(name_of("http://x/y.zip"), Some("y.zip".to_string()));
}

/// Runs an opened download over chunks, with a key pressed after each, and returns
/// it with what was written to the file.
fn run_chunks(chunks: Vec<Vec<u8>>, key: Option<Key>) -> (Download, Vec<u8>) {
    let mut d = opened("a/9/x").advance(DownloadEvent::Created(true));
    let mut file = Vec::new();
    for chunk in chunks {
        assert!(matches!(d.action(), Some(DownloadAction::Read(1024))));
        d = d.advance(DownloadEvent::Read(Some(chunk)));
        match d.action() {
            Some(DownloadAction::Write(bytes)) => file.extend_from_slice(bytes),
            _ => panic!("nothing is written"),
        }
        d = d.advance(DownloadEvent::Written(true));
        assert!(matches!(d.action(), Some(DownloadAction::PollKey)));
        d = d.advance(DownloadEvent::Pressed(key));
    }
    (d, file)
}

#[test]
fn download_writes_and_counts_what_it_reads() {
    assert!(opened("a/9/x").outcome().is_none());
    let (d, file) = run_chunks(vec![vec![1; 1024], vec![2; 1024], vec![3, 4, 5]], None);
    let d = d.advance(DownloadEvent::Read(Some(vec![])));
    assert!(d.action().is_none());
    assert_eq!(d.outcome(), Some(Ok(("x", 2051))));
    assert_eq!(file.len(), 2051);
    assert_eq!(file[1023..1025], [1, 2]);
    assert_eq!(file[2047..], [2, 3, 4, 5]);
}

#[test]
fn download_ends_where_the_stream_cannot_be_read() {
    let (d, file) = run_chunks(vec![vec![7, 8, 9]], None);
    let d = d.advance(DownloadEvent::Read(None));
    assert_eq!(d.outcome(), Some(Ok(("x", 3))));
    assert_eq!(file, vec![7, 8, 9]);
}

#[test]
fn other_keys_change_nothing() {
    for key in vec![None, Some(Key::Other), Some(Key::Ctrl('d')), Some(Key::Ctrl('C'))] {
        let (d, file) = run_chunks(vec![vec![1], vec![2]], key);
        let d = d.advance(DownloadEvent::Read(Some(vec![])));
        assert_eq!(d.outcome(), Some(Ok(("x", 2))));
        assert_eq!(file, vec![1, 2]);
    }
}

/// A download of which the user has just been asked.
fn polling() -> Download {
    opened("a/9/x")
        .advance(DownloadEvent::Created(true))
        .advance(DownloadEvent::Read(Some(vec![1, 2, 3])))
        .advance(DownloadEvent::Written(true))
}

#[test]
fn a_key_pressed_too_early_cancels_nothing() {
    let d = opened("a/9/x")
        .advance(DownloadEvent::Created(true))
        .advance(DownloadEvent::Pressed(Some(Key::Ctrl('c'))))
        .advance(DownloadEvent::Exists(false))
        .advance(DownloadEvent::Removed(true));
    assert!(matches!(d.action(), Some(DownloadAction::Read(1024))));
}

#[test]
fn download_is_cancelled() {
    let d = polling().advance(DownloadEvent::Pressed(Some(Key::Ctrl('c'))));
    assert!(matches!(d.action(), Some(DownloadAction::Check("x"))));
    let d = d.advance(DownloadEvent::Exists(true));
    assert!(matches!(d.action(), Some(DownloadAction::Remove("x"))));
    let d = d.advance(DownloadEvent::Removed(true));
    assert_eq!(d.outcome(), Some(Err(Failure::Cancelled)));

    let d = polling()
        .advance(DownloadEvent::Pressed(Some(Key::Ctrl('c'))))
        .advance(DownloadEvent::Exists(false));
    assert_eq!(d.outcome(), Some(Err(Failure::Cancelled)));
}

#[test]
fn download_failures() {
    let d = opened("a/9/x").advance(DownloadEvent::Created(false));
    assert_eq!(d.outcome(), Some(Err(Failure::Passed)));
    let d = opened("a/9/x")
        .advance(DownloadEvent::Created(true))
        .advance(DownloadEvent::Read(Some(vec![1, 2, 3])))
        .advance(DownloadEvent::Written(false));
    assert_eq!(d.outcome(), Some(Err(Failure::Passed)));
    let d = polling()
        .advance(DownloadEvent::Pressed(Some(Key::Ctrl('c'))))
        .advance(DownloadEvent::Exists(true))
        .advance(DownloadEvent::Removed(false));
    assert_eq!(d.outcome(), Some(Err(Failure::Passed)));
    match download_url("a/9/x", false, false) {
        Ok(d) => {
            let d = d.advance(DownloadEvent::Request(Event::Resolved(Lookup::Empty)));
            assert_eq!(d.outcome(), Some(Err(Failure::NoAddress)));
        }
        Err(_) => panic!("no file name"),
    }
}
