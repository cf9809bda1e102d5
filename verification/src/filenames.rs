//! The naming scheme: one date and one slug give every path and URL of a
//! post, so that they are recognisable as belonging together.

use crate::text::{decimal, decimal_chars, extend, from_chars, push_str};
use vstd::prelude::*;

verus! {

/// The text that a format description gives for a moment, counted in
/// seconds since the Unix epoch and taken in UTC; `None` where the
/// description is not valid or the moment cannot be formatted with it.
pub uninterp spec fn date_text(template: Seq<char>, unix_seconds: int) -> Option<Seq<char>>;

/// `time::OffsetDateTime::from_unix_timestamp`, then
/// `time::format_description::parse_borrowed` on the template, then
/// `format`. The contract only names the result; an error of any of the
/// three calls is `None`.
#[verifier::external_body]
fn format_date(template: &str, unix_seconds: i64) -> (r: Option<String>)
    ensures
        match r {
            Some(text) => date_text(template@, unix_seconds as int) == Some(text@),
            None => date_text(template@, unix_seconds as int) is None,
        },
{
    let date = time::OffsetDateTime::from_unix_timestamp(unix_seconds).ok()?;
    let items = time::format_description::parse_borrowed::<1>(template).ok()?;
    date.format(&items).ok()
}

/// The format of the day that every name of a post carries.
pub open spec fn day_format() -> Seq<char> {
    "[year]-[month]-[day]"@
}

/// The day of a moment as year, month and day; `None` where the moment
/// lies outside the calendar.
pub fn day_text(unix_seconds: i64) -> (r: Option<String>)
    ensures
        match r {
            Some(text) => date_text(day_format(), unix_seconds as int) == Some(text@),
            None => date_text(day_format(), unix_seconds as int) is None,
        },
{
    format_date("[year]-[month]-[day]", unix_seconds)
}

/// Whether the names of a post of the given date can be made from the
/// three templates: whether the date can be formatted with each of them
/// and as a day.
pub open spec fn nameable(
    media_path: Seq<char>,
    github_media_path: Seq<char>,
    github_post_path: Seq<char>,
    date: int,
) -> bool {
    &&& date_text(media_path, date) is Some
    &&& date_text(github_media_path, date) is Some
    &&& date_text(github_post_path, date) is Some
    &&& date_text(day_format(), date) is Some
}

/// The names of one post.
pub struct Filenames {
    media_dir: String,
    github_media_dir: String,
    post_dir: String,
    day: String,
    slug: String,
}

impl Filenames {
    /// Directory part of the public URLs.
    pub closed spec fn media_dir(&self) -> Seq<char> {
        self.media_dir@
    }

    /// Directory of the media files in the repository.
    pub closed spec fn github_media_dir(&self) -> Seq<char> {
        self.github_media_dir@
    }

    /// Directory of the posts in the repository.
    pub closed spec fn post_dir(&self) -> Seq<char> {
        self.post_dir@
    }

    /// The day of the post, as year, month and day.
    pub closed spec fn day(&self) -> Seq<char> {
        self.day@
    }

    pub closed spec fn slug(&self) -> Seq<char> {
        self.slug@
    }

    /// Whether these are the names for the given templates, date and slug.
    pub open spec fn made_from(
        &self,
        media_path: Seq<char>,
        github_media_path: Seq<char>,
        github_post_path: Seq<char>,
        date: int,
        slug: Seq<char>,
    ) -> bool {
        &&& date_text(media_path, date) == Some(self.media_dir())
        &&& date_text(github_media_path, date) == Some(self.github_media_dir())
        &&& date_text(github_post_path, date) == Some(self.post_dir())
        &&& date_text(day_format(), date) == Some(self.day())
        &&& self.slug() == slug
    }

    /// Name of the attachment with index `count` and extension `ext`,
    /// without its directory.
    pub open spec fn attachment_name(&self, count: nat, ext: Seq<char>) -> Seq<char> {
        self.day() + seq!['-'] + self.slug() + seq!['-'] + decimal(count) + seq!['.'] + ext
    }

    pub open spec fn spec_attachment_markdown_url(&self, count: nat, ext: Seq<char>) -> Seq<char> {
        self.media_dir() + seq!['/'] + self.attachment_name(count, ext)
    }

    pub open spec fn spec_attachment_github_path(&self, count: nat, ext: Seq<char>) -> Seq<char> {
        self.github_media_dir() + seq!['/'] + self.attachment_name(count, ext)
    }

    pub open spec fn spec_post_github_path(&self) -> Seq<char> {
        self.post_dir() + seq!['/'] + self.day() + seq!['-'] + self.slug() + seq![
            '.',
            'm',
            'd',
        ]
    }

    fn push_attachment_name(&self, out: &mut Vec<char>, count: usize, ext: &str)
        ensures
            final(out)@ == old(out)@ + seq!['/'] + self.attachment_name(count as nat, ext@),
    {
        out.push('/');
        push_str(out, self.day.as_str());
        out.push('-');
        push_str(out, self.slug.as_str());
        out.push('-');
        let digits = decimal_chars(count);
        extend(out, &digits);
        out.push('.');
        push_str(out, ext);
    }

    /// Public URL of the attachment with index `count` and extension `ext`.
    pub fn attachment_markdown_url(&self, count: usize, ext: &str) -> (r: String)
        ensures
            r@ == self.spec_attachment_markdown_url(count as nat, ext@),
    {
        let mut out: Vec<char> = Vec::new();
        push_str(&mut out, self.media_dir.as_str());
        self.push_attachment_name(&mut out, count, ext);
        from_chars(&out)
    }

    /// Repository path of the attachment with index `count` and extension
    /// `ext`.
    pub fn attachment_github_path(&self, count: usize, ext: &str) -> (r: String)
        ensures
            r@ == self.spec_attachment_github_path(count as nat, ext@),
    {
        let mut out: Vec<char> = Vec::new();
        push_str(&mut out, self.github_media_dir.as_str());
        self.push_attachment_name(&mut out, count, ext);
        from_chars(&out)
    }

    /// Repository path of the post's document.
    pub fn post_github_path(&self) -> (r: String)
        ensures
            r@ == self.spec_post_github_path(),
    {
        let mut out: Vec<char> = Vec::new();
        push_str(&mut out, self.post_dir.as_str());
        out.push('/');
        push_str(&mut out, self.day.as_str());
        out.push('-');
        push_str(&mut out, self.slug.as_str());
        out.push('.');
        out.push('m');
        out.push('d');
        from_chars(&out)
    }

    /// The names for a post of the given date and slug. The three paths
    /// are format descriptions that may hold components of the date. `None`
    /// exactly where the date cannot be formatted with one of them or as a
    /// day.
    pub fn new(
        media_path: &str,
        github_media_path: &str,
        github_post_path: &str,
        date: i64,
        slug: &str,
    ) -> (r: Option<Filenames>)
        ensures
            match r {
                Some(names) => names.made_from(
                    media_path@,
                    github_media_path@,
                    github_post_path@,
                    date as int,
                    slug@,
                ),
                None => !nameable(media_path@, github_media_path@, github_post_path@, date as int),
            },
    {
        let media_dir = match format_date(media_path, date) {
            Some(text) => text,
            None => {
                return None;
            },
        };
        let github_media_dir = match format_date(github_media_path, date) {
            Some(text) => text,
            None => {
                return None;
            },
        };
        let post_dir = match format_date(github_post_path, date) {
            Some(text) => text,
            None => {
                return None;
            },
        };
        let day = match day_text(date) {
            Some(text) => text,
            None => {
                return None;
            },
        };
        Some(
            Filenames {
                media_dir,
                github_media_dir,
                post_dir,
                day,
                slug: slug.to_owned(),
            },
        )
    }
}

/// Naming is a function of its inputs: two sets of names made from the
/// same templates, date and slug give the same URL and the same paths for
/// every index and extension.
pub proof fn lemma_naming_deterministic(
    a: Filenames,
    b: Filenames,
    media_path: Seq<char>,
    github_media_path: Seq<char>,
    github_post_path: Seq<char>,
    date: int,
    slug: Seq<char>,
    count: nat,
    ext: Seq<char>,
)
    requires
        a.made_from(media_path, github_media_path, github_post_path, date, slug),
        b.made_from(media_path, github_media_path, github_post_path, date, slug),
    ensures
        a.spec_attachment_markdown_url(count, ext) == b.spec_attachment_markdown_url(count, ext),
        a.spec_attachment_github_path(count, ext) == b.spec_attachment_github_path(count, ext),
        a.spec_post_github_path() == b.spec_post_github_path(),
{
}

} // verus!
