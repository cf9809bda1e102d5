use mailpost::filenames::Filenames;

const MOMENT: i64 = 1475417182;

#[test]
fn names_carry_day_slug_index_and_extension() {
    let names = Filenames::new(
        "/media/[year]/[month]",
        "static/media/[year]/[month]",
        "content/posts",
        MOMENT,
        "hello-world",
    )
    .unwrap();
    assert_eq!(
        names.attachment_markdown_url(0, "png"),
        "/media/2016/10/2016-10-02-hello-world-0.png"
    );
    assert_eq!(
        names.attachment_github_path(12, "jpg"),
        "static/media/2016/10/2016-10-02-hello-world-12.jpg"
    );
    assert_eq!(names.post_github_path(), "content/posts/2016-10-02-hello-world.md");
}

#[test]
fn templates_without_components_are_taken_literally() {
    let names = Filenames::new("/media/%Y/%m", "img", "_posts", 0, "s").unwrap();
    assert_eq!(names.attachment_markdown_url(3, ""), "/media/%Y/%m/1970-01-01-s-3.");
    assert_eq!(names.attachment_github_path(3, "x"), "img/1970-01-01-s-3.x");
    assert_eq!(names.post_github_path(), "_posts/1970-01-01-s.md");
}

#[test]
fn naming_is_repeatable() {
    let first = Filenames::new("/m/[year]", "s/[month]", "posts", MOMENT, "slug").unwrap();
    let second = Filenames::new("/m/[year]", "s/[month]", "posts", MOMENT, "slug").unwrap();
    for count in [0usize, 1, 10] {
        for ext in ["png", "mp4", ""] {
            assert_eq!(
                first.attachment_markdown_url(count, ext),
                second.attachment_markdown_url(count, ext)
            );
            assert_eq!(
                first.attachment_markdown_url(count, ext),
                first.attachment_markdown_url(count, ext)
            );
            assert_eq!(
                first.attachment_github_path(count, ext),
                second.attachment_github_path(count, ext)
            );
        }
    }
    assert_eq!(first.post_github_path(), second.post_github_path());
    assert_eq!(first.post_github_path(), "posts/2016-10-02-slug.md");
    assert_eq!(first.attachment_markdown_url(1, "png"), "/m/2016/2016-10-02-slug-1.png");
    assert_eq!(first.attachment_github_path(1, "png"), "s/10/2016-10-02-slug-1.png");
}

#[test]
fn the_post_path_may_hold_the_date() {
    let names = Filenames::new("/m", "s", "content/[year]/[month]", MOMENT, "trip").unwrap();
    assert_eq!(names.post_github_path(), "content/2016/10/2016-10-02-trip.md");
}

#[test]
fn a_broken_template_gives_no_names() {
    assert!(Filenames::new("/media", "static", "posts/[day", MOMENT, "s").is_none());
    assert!(Filenames::new("/media/[nonsense]", "static", "posts", MOMENT, "s").is_none());
    assert!(Filenames::new("/media", "static/[year", "posts", MOMENT, "s").is_none());
}

#[test]
fn a_moment_beyond_the_calendar_gives_no_names() {
    assert!(Filenames::new("/media", "static", "posts", i64::MAX, "s").is_none());
}
