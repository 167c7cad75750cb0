use content_sync::blogger::{
    posts_url, BloggerAuthor, BloggerBlogId, BloggerImage, BloggerPost, BloggerReplies,
    ImageCommand, ImageEvent, ImageNote, ImagePass, Pending,
};
use content_sync::sanity::{
    query_outcome, query_url, sanity_file_name, title_part, upload_url, video_query, QueryOutcome,
    SanityVideo,
};
use content_sync::webhook::{webhook_reply, Channel, WebhookEvent, WebhookInput};

fn post(title: &str, content: &str) -> BloggerPost {
    BloggerPost {
        kind: "blogger#post".to_string(),
        id: "1".to_string(),
        blog: BloggerBlogId { id: "9".to_string() },
        published: String::new(),
        updated: String::new(),
        url: String::new(),
        self_link: String::new(),
        title: title.to_string(),
        content: content.to_string(),
        author: BloggerAuthor {
            id: "a".to_string(),
            display_name: "A".to_string(),
            url: String::new(),
            image: BloggerImage { url: String::new() },
        },
        replies: BloggerReplies { total_items: "0".to_string(), self_link: String::new() },
    }
}

#[test]
fn file_name_from_title_source_and_content_type() {
    assert_eq!(
        sanity_file_name("  Hello, World!  ", "https://blogger.googleusercontent.com/img/abc/s1600/photo.jpg", "image/jpeg"),
        "Hello-World-photo.jpg.jpeg"
    );
}

#[test]
fn title_part_collapses_runs_and_keeps_a_leading_dash() {
    assert_eq!(title_part("¡Qué tal!"), "-Qu-tal");
    assert_eq!(title_part("A  --  B"), "A-B");
    assert_eq!(title_part("!!!"), "");
    assert_eq!(title_part("Top 10 $ tips"), "Top-10-tips");
}

#[test]
fn title_part_holds_only_letters_digits_and_dashes() {
    for t in ["a b", "  x__y  ", "Ünïcödé title?", "tab\tsep", "ends with -"] {
        let p = title_part(t);
        assert!(p.chars().all(|c| c.is_ascii_alphanumeric() || c == '-'), "{}", p);
        assert!(!p.ends_with('-'), "{}", p);
        assert!(!p.contains("--"), "{}", p);
    }
}

#[test]
fn sanity_urls_and_query() {
    assert_eq!(
        upload_url("proj", "production", "a-b.jpg.jpeg"),
        "https://proj.api.sanity.io/v2021-06-07/assets/images/production?filename=a-b.jpg.jpeg"
    );
    assert_eq!(
        query_url("proj", "production", "*"),
        "https://proj.api.sanity.io/v2021-06-07/data/query/production?query=*"
    );
    assert_eq!(
        video_query(),
        "*[_type == video]{\n     videoDuration,\n       views,\n        url,\n      _id\n}"
    );
    assert_eq!(
        posts_url("123", "KEY"),
        "https://www.googleapis.com/blogger/v3/blogs/123/posts?key=KEY&maxResults=500"
    );
}

#[test]
fn query_status_meaning() {
    assert_eq!(query_outcome(200), QueryOutcome::Received);
    assert_eq!(query_outcome(401), QueryOutcome::Unauthorized);
    assert_eq!(query_outcome(500), QueryOutcome::Unexpected);
}

#[test]
fn sanity_video_holds_its_fields() {
    let v = SanityVideo { url: "u".to_string(), views: 3, video_duration: 60, _id: "id".to_string() };
    assert_eq!(v.views + v.video_duration, 63);
}

fn fetch_source(cmd: &ImageCommand) -> String {
    match cmd {
        ImageCommand::Fetch { source } => source.clone(),
        _ => panic!("expected a fetch"),
    }
}

#[test]
fn pass_fetches_uploads_and_moves_on() {
    let p = post("My Trip!", r#"<p><img src="https://a.example/x/pic.png"><img alt="no src"></p>"#);
    let mut pass = p.post_images_to_sanity();
    assert_eq!(fetch_source(&pass.pending_command()), "https://a.example/x/pic.png");
    let (note, cmd) = pass.step(ImageEvent::Fetched { content_type: Some("image/png".to_string()) });
    assert_eq!(note, ImageNote::Nothing);
    match &cmd {
        ImageCommand::Upload { file_name } => assert_eq!(file_name, "My-Trip-pic.png.png"),
        _ => panic!("expected an upload"),
    }
    let (note, cmd) = pass.step(ImageEvent::Uploaded { status: 200 });
    assert_eq!(note, ImageNote::Uploaded);
    assert_eq!(fetch_source(&cmd), "unknown");
    let (note, cmd) = pass.step(ImageEvent::FetchFailed);
    assert_eq!(note, ImageNote::FetchFailed(1));
    assert!(matches!(cmd, ImageCommand::Finish));
    assert_eq!(pass.pending(), Pending::Done);
}

#[test]
fn pass_stops_at_a_missing_content_type() {
    let p = post("t", r#"<img src="a/1.jpg"><img src="a/2.jpg">"#);
    let mut pass = p.post_images_to_sanity();
    let (note, cmd) = pass.step(ImageEvent::Fetched { content_type: None });
    assert_eq!(note, ImageNote::MissingContentType(0));
    assert!(matches!(cmd, ImageCommand::Finish));
    let (note, cmd) = pass.step(ImageEvent::FetchFailed);
    assert_eq!(note, ImageNote::Nothing);
    assert!(matches!(cmd, ImageCommand::Finish));
}

#[test]
fn pass_moves_on_after_a_rejected_upload_and_aborts_on_other_statuses() {
    let p = post("t", r#"<img src="a/1.jpg"><img src="a/2.jpg">"#);
    let mut pass = p.post_images_to_sanity();
    pass.step(ImageEvent::Fetched { content_type: Some("image/jpeg".to_string()) });
    let (note, cmd) = pass.step(ImageEvent::Uploaded { status: 400 });
    assert_eq!(note, ImageNote::Rejected);
    assert_eq!(fetch_source(&cmd), "a/2.jpg");
    pass.step(ImageEvent::Fetched { content_type: Some("image/jpeg".to_string()) });
    let (_, cmd) = pass.step(ImageEvent::Uploaded { status: 503 });
    assert!(matches!(cmd, ImageCommand::Abort { status: 503 }));
    assert_eq!(pass.pending(), Pending::Aborted(503));
}

#[test]
fn pass_ignores_an_event_that_answers_nothing_pending() {
    let mut pass = ImagePass::new("t".to_string(), vec!["s".to_string()]);
    let (note, cmd) = pass.step(ImageEvent::Uploaded { status: 200 });
    assert_eq!(note, ImageNote::Nothing);
    assert_eq!(fetch_source(&cmd), "s");
    assert_eq!(pass.pending(), Pending::Fetch(0));
}

#[test]
fn pass_over_a_post_without_images_is_over() {
    let pass = post("t", "<p>text</p>").post_images_to_sanity();
    assert!(matches!(pass.pending_command(), ImageCommand::Finish));
}

#[test]
fn webhook_replies() {
    let r = webhook_reply(WebhookInput::KeyRejected { detail: "InvalidKeyFormat".to_string() });
    assert_eq!((r.status, r.body.as_str(), r.channel), (500, "Error decoding public key: InvalidKeyFormat", Channel::Stderr));
    let r = webhook_reply(WebhookInput::PayloadRejected { detail: "ExpiredSignature".to_string() });
    assert_eq!((r.status, r.body.as_str(), r.channel), (400, "Error decoding raw payload: ExpiredSignature", Channel::Stderr));
    let r = webhook_reply(WebhookInput::EventUnreadable { detail: "eof".to_string() });
    assert_eq!((r.status, r.report.as_str(), r.channel), (400, "Error parsing event: eof", Channel::ErrorLog));
    let r = webhook_reply(WebhookInput::Event { event: WebhookEvent { event_type: "AppInstalled".to_string(), data: "{}".to_string() } });
    assert_eq!((r.status, r.body.as_str(), r.report.as_str(), r.channel), (200, "", "AppInstalled event received with data: {}", Channel::InfoLog));
    let r = webhook_reply(WebhookInput::Event { event: WebhookEvent { event_type: "PaidPlanChanged".to_string(), data: "{}".to_string() } });
    assert_eq!((r.status, r.report.as_str(), r.channel), (200, "Received unknown event type: PaidPlanChanged", Channel::WarnLog));
}

#[test]
fn pass_over_n_images_ends_after_at_most_two_n_answers() {
    let sources: Vec<String> = (0..4).map(|i| format!("https://h/{}.jpg", i)).collect();
    let mut pass = ImagePass::new("T".to_string(), sources);
    let mut answers = 0;
    loop {
        let event = match pass.pending() {
            Pending::Fetch(_) => ImageEvent::Fetched { content_type: Some("image/jpeg".to_string()) },
            Pending::Upload(_) => ImageEvent::Uploaded { status: 200 },
            Pending::Done | Pending::Aborted(_) => break,
        };
        pass.step(event);
        answers += 1;
    }
    assert_eq!(answers, 8);

    let mut pass = ImagePass::new("T".to_string(), vec!["a".to_string(), "b".to_string()]);
    let mut answers = 0;
    while let Pending::Fetch(_) = pass.pending() {
        pass.step(ImageEvent::FetchFailed);
        answers += 1;
    }
    assert_eq!(answers, 2);
    assert_eq!(pass.pending(), Pending::Done);
}
