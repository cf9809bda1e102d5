use mailpost::email::{
    attachments, body, check_sender, date, date_or, extract, find_attachments, first_of, from,
    eq_ignoring_case, find_header, find_parameter, pick_extension, pick_name, pick_title, read_post,
    resolve_generic, sender_name, validate_sender, walk, Contact, Correspondent, Field, Message,
    Part,
};
use mailpost::filenames::Filenames;
use mailpost::mishaps::Mishap;
use mailpost::settings::Settings;
use mailpost::tag::Tag;

fn field(key: &str, value: &str) -> Field {
    Field { key: key.to_string(), value: value.to_string() }
}

fn leaf(mimetype: &str, name: Option<&str>, content: &str) -> Part {
    Part {
        mimetype: mimetype.to_string(),
        params: name.iter().map(|n| field("name", n)).collect(),
        text: Ok(content.to_string()),
        raw: Ok(content.as_bytes().to_vec()),
        subparts: Vec::new(),
    }
}

fn multipart(subparts: Vec<Part>) -> Part {
    Part {
        mimetype: "multipart/mixed".to_string(),
        params: vec![field("boundary", "xyz")],
        text: Ok(String::new()),
        raw: Ok(Vec::new()),
        subparts,
    }
}

fn message(subject: Option<&str>, from: Option<&str>, date: Option<&str>, body: Part) -> Message {
    let mut headers = vec![field("Received", "by mail.example.org")];
    headers.extend(date.iter().map(|d| field("date", d)));
    headers.extend(from.iter().map(|f| field("FROM", f)));
    headers.extend(subject.iter().map(|s| field("Subject", s)));
    headers.extend(subject.iter().map(|_| field("Subject", "a second subject")));
    Message { headers, body }
}

fn settings(allowed: &[&str]) -> Settings {
    Settings {
        imap_hostname: "imap.example.org".to_string(),
        imap_port: 993,
        imap_user: "user".to_string(),
        imap_password: "pw".to_string(),
        mailbox: "INBOX".to_string(),
        expunge: false,
        allowed_domains: allowed.iter().map(|d| d.to_string()).collect(),
        github_token: "token".to_string(),
        github_repo: "user/repo".to_string(),
        github_branch: "main".to_string(),
        github_post_path: "content/posts".to_string(),
        github_media_path: "static/media/[year]/[month]".to_string(),
        web_media_path: "/media/[year]/[month]".to_string(),
    }
}

const DATE: &str = "Sun, 02 Oct 2016 07:06:22 -0700 (PDT)";

fn types(parts: &[&Part]) -> Vec<String> {
    parts.iter().map(|p| p.mimetype.clone()).collect()
}

fn nested() -> Part {
    multipart(vec![
        multipart(vec![
            leaf("text/html", None, "<p>hi</p>"),
            leaf("text/plain", None, "first text"),
        ]),
        leaf("image/png", Some("a.png"), "PNG"),
        multipart(vec![
            leaf("video/quicktime", Some("b.mov"), "MOV"),
            leaf("text/plain", None, "second text"),
            leaf("application/octet-stream", Some("IMG_1.HEIC"), "HEIC"),
        ]),
        leaf("application/pdf", Some("c.pdf"), "PDF"),
    ])
}

#[test]
fn walk_is_depth_first_and_parent_first() {
    let tree = nested();
    assert_eq!(
        types(&walk(&tree)),
        vec![
            "multipart/mixed",
            "multipart/mixed",
            "text/html",
            "text/plain",
            "image/png",
            "multipart/mixed",
            "video/quicktime",
            "text/plain",
            "application/octet-stream",
            "application/pdf",
        ]
    );
    assert_eq!(types(&walk(&leaf("text/plain", None, "x"))), vec!["text/plain"]);
}

#[test]
fn body_is_the_first_plain_text_of_the_walk() {
    assert_eq!(body(&nested()).unwrap(), Some("first text".to_string()));
    assert_eq!(body(&leaf("text/plain", None, "only")).unwrap(), Some("only".to_string()));
}

#[test]
fn a_message_without_plain_text_has_no_body() {
    assert_eq!(body(&multipart(vec![leaf("text/html", None, "<p/>")])).unwrap(), None);
    assert_eq!(body(&multipart(Vec::new())).unwrap(), None);
}

#[test]
fn an_unreadable_body_is_an_error() {
    let mut part = leaf("text/plain", None, "");
    part.text = Err("invalid utf-8".to_string());
    match body(&multipart(vec![part])) {
        Err(Mishap::Email(cause)) => assert_eq!(cause, "invalid utf-8"),
        _ => panic!("the body cannot be read"),
    }
}

#[test]
fn an_unreadable_part_behind_the_body_does_not_matter() {
    let mut later = leaf("text/plain", None, "");
    later.text = Err("broken".to_string());
    let tree = multipart(vec![leaf("text/plain", None, "fine"), later]);
    assert_eq!(body(&tree).unwrap(), Some("fine".to_string()));
}

#[test]
fn images_and_videos_are_found_in_walk_order() {
    let tree = nested();
    let found = find_attachments(&tree);
    let names: Vec<Option<String>> = found.iter().map(|p| p.name().cloned()).collect();
    assert_eq!(
        names,
        vec![
            Some("a.png".to_string()),
            Some("b.mov".to_string()),
            Some("IMG_1.HEIC".to_string())
        ]
    );
    assert!(find_attachments(&leaf("text/plain", None, "x")).is_empty());
}

#[test]
fn headers_are_found_whatever_their_case() {
    let headers = vec![field("subject", "one"), field("X-Other", "x"), field("SUBJECT", "two")];
    assert_eq!(find_header(&headers, "Subject"), Some(&"one".to_string()));
    assert_eq!(find_header(&headers, "x-other"), Some(&"x".to_string()));
    assert_eq!(find_header(&headers, "From"), None);
    assert_eq!(find_header(&Vec::new(), "From"), None);
    assert!(eq_ignoring_case("Content-Type", "content-type"));
    assert!(eq_ignoring_case("", ""));
    assert!(!eq_ignoring_case("Date", "Data"));
    assert!(!eq_ignoring_case("Date", "Dates"));
    assert!(!eq_ignoring_case("[", "{"));
    assert!(!eq_ignoring_case("\u{c9}t\u{e9}", "\u{e9}t\u{e9}"));
    for (a, b) in [("Subject", "SUBJECT"), ("a@b", "A`B"), ("Z", "z"), ("\u{e9}", "\u{e9}")] {
        assert_eq!(eq_ignoring_case(a, b), a.eq_ignore_ascii_case(b));
    }
}

#[test]
fn parameters_are_found_by_their_exact_key() {
    let params = vec![field("charset", "utf-8"), field("name", "a.png"), field("name", "b.png")];
    assert_eq!(find_parameter(&params, "name"), Some(&"a.png".to_string()));
    assert_eq!(find_parameter(&params, "Name"), None);
    assert_eq!(find_parameter(&params, "boundary"), None);
    let part = Part {
        mimetype: "image/png".to_string(),
        params,
        text: Ok(String::new()),
        raw: Ok(Vec::new()),
        subparts: Vec::new(),
    };
    assert_eq!(part.name(), Some(&"a.png".to_string()));
}

#[test]
fn detection_by_type_and_by_file_name() {
    assert!(leaf("image/png", None, "").is_image());
    assert!(leaf("imagery", None, "").is_image());
    assert!(leaf("application/octet-stream", Some("Photo.HEIC"), "").is_image());
    assert!(!leaf("application/octet-stream", Some("photo.png"), "").is_image());
    assert!(!leaf("application/octet-stream", None, "").is_image());
    assert!(leaf("video/mp4", None, "").is_video());
    assert!(leaf("application/octet-stream", Some("clip.MOV"), "").is_video());
    assert!(leaf("application/octet-stream", Some("clip.mp4"), "").is_video());
    assert!(!leaf("application/octet-stream", Some("clip.avi"), "").is_video());
    assert!(!leaf("text/plain", Some("heic.txt"), "").is_image());
}

#[test]
fn type_resolution() {
    assert_eq!(leaf("application/octet-stream", Some("IMG_1.HEIC"), "").mime(), "image/heic");
    assert_eq!(leaf("image/jpeg", Some("x.heic"), "").mime(), "image/heic");
    assert_eq!(leaf("application/octet-stream", Some("pic.png"), "").mime(), "image/png");
    assert_eq!(
        leaf("application/octet-stream", Some("mystery.zzzz"), "").mime(),
        "application/octet-stream"
    );
    assert_eq!(leaf("application/octet-stream", None, "").mime(), "application/octet-stream");
    assert_eq!(leaf("image/gif", Some("pic.png"), "").mime(), "image/gif");
    assert_eq!(leaf("application/octet-stream", Some("clip.MP4"), "").mime(), "video/mp4");
    assert_eq!(
        leaf("application/octet-stream", Some("noext"), "").mime(),
        "application/octet-stream"
    );
    assert_eq!(
        resolve_generic(&"application/octet-stream".to_string(), Some("image/png".to_string())),
        "image/png"
    );
    assert_eq!(resolve_generic(&"application/octet-stream".to_string(), None), "application/octet-stream");
}

#[test]
fn extension_resolution() {
    assert_eq!(leaf("image/png", Some("pic.PNG"), "").guess_ext(), "PNG");
    assert_eq!(leaf("image/png", Some("archive.tar.gz"), "").guess_ext(), "gz");
    assert_eq!(leaf("image/png", None, "").guess_ext(), "png");
    assert_eq!(leaf("image/png", Some("noext"), "").guess_ext(), "png");
    assert_eq!(leaf("image/x-unheard-of", None, "").guess_ext(), "");
    assert_eq!(leaf("nonsense", None, "").guess_ext(), "");
}

#[test]
fn pick_extension_takes_the_first() {
    assert_eq!(pick_extension(Some(vec!["jpe".to_string(), "jpg".to_string()])), "jpe");
    assert_eq!(pick_extension(Some(Vec::new())), "");
    assert_eq!(pick_extension(None), "");
}

#[test]
fn attachments_are_numbered_in_discovery_order() {
    let names = Filenames::new("/media/[year]", "static/[year]", "posts", 1475417182, "trip").unwrap();
    let stored = attachments(&names, &nested()).unwrap();
    let got: Vec<(&str, &str, &str, &str)> = stored
        .attachments
        .iter()
        .map(|a| {
            (a.file_path.as_str(), a.url_path.as_str(), a.github_path.as_str(), a.mime_type.as_str())
        })
        .collect();
    assert_eq!(
        got,
        vec![
            ("0.png", "/media/2016/2016-10-02-trip-0.png", "static/2016/2016-10-02-trip-0.png", "image/png"),
            (
                "1.mov",
                "/media/2016/2016-10-02-trip-1.mov",
                "static/2016/2016-10-02-trip-1.mov",
                "video/quicktime"
            ),
            (
                "2.HEIC",
                "/media/2016/2016-10-02-trip-2.HEIC",
                "static/2016/2016-10-02-trip-2.HEIC",
                "image/heic"
            ),
        ]
    );
    assert_eq!(stored.contents, vec![b"PNG".to_vec(), b"MOV".to_vec(), b"HEIC".to_vec()]);
}

#[test]
fn an_undecodable_attachment_fails_the_message() {
    let names = Filenames::new("/m", "s", "p", 0, "x").unwrap();
    let mut broken = leaf("image/png", Some("b.png"), "");
    broken.raw = Err("bad base64".to_string());
    let tree = multipart(vec![leaf("image/png", Some("a.png"), "A"), broken]);
    match attachments(&names, &tree) {
        Err(Mishap::Email(cause)) => assert_eq!(cause, "bad base64"),
        _ => panic!("the second attachment cannot be decoded"),
    }
}

#[test]
fn sender_name_prefers_the_display_name() {
    let mail = message(None, Some("John Doe <john@doe.com>"), None, multipart(Vec::new()));
    assert_eq!(sender_name(&mail), "John Doe");
    assert_eq!(from(&mail), Some("john@doe.com".to_string()));
}

#[test]
fn sender_name_falls_back_to_the_address() {
    let mail = message(None, Some("john@doe.com"), None, multipart(Vec::new()));
    assert_eq!(sender_name(&mail), "john@doe.com");
}

#[test]
fn sender_name_takes_the_first_of_several() {
    let mail = message(
        None,
        Some("Ann <ann@a.org>, Bob <bob@b.org>"),
        None,
        multipart(Vec::new()),
    );
    assert_eq!(sender_name(&mail), "Ann");
    assert_eq!(from(&mail), Some("ann@a.org".to_string()));
}

#[test]
fn sender_name_without_a_usable_header() {
    assert_eq!(sender_name(&message(None, None, None, multipart(Vec::new()))), "Someone");
    assert_eq!(sender_name(&message(None, Some(""), None, multipart(Vec::new()))), "Someone");
    assert_eq!(
        sender_name(&message(None, Some("no address here <"), None, multipart(Vec::new()))),
        "Someone"
    );
    assert_eq!(from(&message(None, None, None, multipart(Vec::new()))), None);
}

#[test]
fn first_of_reads_groups() {
    let ann = Contact { display_name: Some("Ann".to_string()), addr: "ann@a.org".to_string() };
    let bob = Contact { display_name: None, addr: "bob@b.org".to_string() };
    let list = vec![Correspondent::Group("team".to_string(), vec![bob, ann])];
    assert_eq!(first_of(&list).unwrap().addr, "bob@b.org");
    assert_eq!(pick_name(first_of(&list)), "bob@b.org");
    let empty_group = vec![Correspondent::Group("nobody".to_string(), Vec::new())];
    assert!(first_of(&empty_group).is_none());
    assert!(first_of(&Vec::new()).is_none());
    assert_eq!(pick_name(None), "Someone");
}

#[test]
fn an_empty_allow_list_accepts_everyone() {
    assert!(check_sender(&Vec::new(), None).is_ok());
    assert!(check_sender(&Vec::new(), Some("eve@evil.org".to_string())).is_ok());
}

#[test]
fn an_allow_list_asks_for_a_sender() {
    let allowed = vec!["example.org".to_string()];
    assert!(matches!(check_sender(&allowed, None), Err(Mishap::MissingSender)));
}

#[test]
fn an_allow_list_goes_by_the_end_of_the_domain() {
    let allowed = vec!["example.org".to_string(), "doe.com".to_string()];
    assert!(check_sender(&allowed, Some("john@doe.com".to_string())).is_ok());
    assert!(check_sender(&allowed, Some("ann@mail.example.org".to_string())).is_ok());
    match check_sender(&allowed, Some("eve@example.com".to_string())) {
        Err(Mishap::Unauthorised(who)) => assert_eq!(who, "eve@example.com"),
        _ => panic!("the sender is not on the list"),
    }
    assert!(matches!(
        check_sender(&allowed, Some("example.org@evil.net".to_string())),
        Err(Mishap::Unauthorised(_))
    ));
}

#[test]
fn validate_sender_reads_the_from_header() {
    let mail = message(None, Some("John Doe <john@doe.com>"), None, multipart(Vec::new()));
    assert!(validate_sender(&settings(&[]), &mail).is_ok());
    assert!(validate_sender(&settings(&["doe.com"]), &mail).is_ok());
    assert!(matches!(
        validate_sender(&settings(&["example.org"]), &mail),
        Err(Mishap::Unauthorised(_))
    ));
    let anonymous = message(None, None, None, multipart(Vec::new()));
    assert!(matches!(
        validate_sender(&settings(&["example.org"]), &anonymous),
        Err(Mishap::MissingSender)
    ));
    assert!(validate_sender(&settings(&[]), &anonymous).is_ok());
}

#[test]
fn date_is_read_from_the_header() {
    let mail = message(None, None, Some(DATE), multipart(Vec::new()));
    assert_eq!(date(&mail, 5), 1475417182);
}

#[test]
fn date_falls_back_to_now() {
    assert_eq!(date(&message(None, None, None, multipart(Vec::new())), 77), 77);
    assert_eq!(
        date(&message(None, None, Some("32 Foo 2016"), multipart(Vec::new())), 77),
        77
    );
    assert_eq!(date_or(None, 3), 3);
    assert_eq!(date_or(Some(9), 3), 9);
}

#[test]
fn title_source() {
    let some = |s: &str| Some(s.to_string());
    assert_eq!(pick_title(&some("Subject"), &some("Body")), "Subject");
    assert_eq!(pick_title(&some(""), &some("  Body\n")), "Body");
    assert_eq!(pick_title(&None, &some("Body")), "Body");
    assert_eq!(pick_title(&None, &some(" \n")), "Untitled");
    assert_eq!(pick_title(&some(""), &None), "Untitled");
    assert_eq!(pick_title(&None, &None), "Untitled");
}

#[test]
fn a_text_only_message_becomes_a_post() {
    let mail = message(
        Some("Hello #fun"),
        Some("John Doe <john@doe.com>"),
        Some(DATE),
        leaf("text/plain", None, "Dear all,\nsee you soon\n-- \nJohn"),
    );
    let x = extract(&settings(&["doe.com"]), &mail, 0).unwrap();
    assert_eq!(x.post.title, "Hello");
    assert_eq!(x.post.tags, vec![Tag::new("fun")]);
    assert_eq!(x.post.author, "John Doe");
    assert_eq!(x.post.content, Some("Dear all,\nsee you soon".to_string()));
    assert_eq!(x.post.date, 1475417182);
    assert_eq!(x.post.file_path, "content/posts/2016-10-02-hello.md");
    assert!(x.post.attachments.is_empty());
    assert!(x.contents.is_empty());
}

#[test]
fn an_empty_message_is_untitled() {
    let mail = message(None, None, None, multipart(Vec::new()));
    let x = read_post(&settings(&[]), &mail, 86400).unwrap();
    assert_eq!(x.post.title, "Untitled");
    assert_eq!(x.post.author, "Someone");
    assert_eq!(x.post.content, None);
    assert_eq!(x.post.date, 86400);
    assert_eq!(x.post.file_path, "content/posts/1970-01-02-untitled.md");
    assert!(x.post.tags.is_empty());
    assert!(x.post.attachments.is_empty());
}

#[test]
fn the_title_falls_back_to_the_body_without_its_signature() {
    let mail = message(
        Some(""),
        None,
        Some(DATE),
        leaf("text/plain", None, "  A walk #outdoors \n--\nme"),
    );
    let x = read_post(&settings(&[]), &mail, 0).unwrap();
    assert_eq!(x.post.title, "A walk");
    assert_eq!(x.post.tags, vec![Tag::new("outdoors")]);
    assert_eq!(x.post.content, Some("A walk #outdoors".to_string()));
    assert_eq!(x.post.file_path, "content/posts/2016-10-02-a-walk.md");
}

#[test]
fn extract_rejects_before_it_reads() {
    let mut unreadable = leaf("text/plain", None, "");
    unreadable.text = Err("broken".to_string());
    let mail = message(Some("S"), Some("eve@evil.org"), Some(DATE), unreadable);
    assert!(matches!(
        extract(&settings(&["doe.com"]), &mail, 0),
        Err(Mishap::Unauthorised(_))
    ));
    assert!(matches!(extract(&settings(&[]), &mail, 0), Err(Mishap::Email(_))));
}

#[test]
fn a_date_beyond_the_calendar_is_a_bad_field() {
    let mail = message(Some("S"), None, Some("1 Jan 400000 00:00:00 +0000"), multipart(Vec::new()));
    match read_post(&settings(&[]), &mail, 0) {
        Err(Mishap::EmailField(field)) => assert_eq!(field, "Date"),
        _ => panic!("the date lies outside the calendar"),
    }
    let undated = message(Some("S"), None, None, multipart(Vec::new()));
    assert!(matches!(
        read_post(&settings(&[]), &undated, i64::MAX),
        Err(Mishap::EmailField(_))
    ));
}

#[test]
fn a_broken_path_template_fails_the_naming() {
    let mail = message(Some("S"), None, Some(DATE), multipart(Vec::new()));
    let mut config = settings(&[]);
    config.web_media_path = "/media/[nonsense]".to_string();
    assert!(matches!(read_post(&config, &mail, 0), Err(Mishap::Naming)));
    let mut config = settings(&[]);
    config.github_post_path = "posts/[year".to_string();
    assert!(matches!(read_post(&config, &mail, 0), Err(Mishap::Naming)));
}
