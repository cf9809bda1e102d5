//! The post that a message becomes, and the document that is written
//! from it.

use crate::mishaps::Mishap;
use crate::tag::{names, Tag};
use crate::text::{from_chars, push_str, starts_with, str_starts_with, to_chars, trim, trimmed};
use vstd::prelude::*;

verus! {

/// A media file of a post.
#[derive(Debug)]
pub struct Attachment {
    /// Name of the file in working storage.
    pub file_path: String,
    /// Public URL under which the file will be served.
    pub url_path: String,
    /// Path of the file in the repository.
    pub github_path: String,
    pub mime_type: String,
}

pub ghost struct AttachmentView {
    pub file_path: Seq<char>,
    pub url_path: Seq<char>,
    pub github_path: Seq<char>,
    pub mime_type: Seq<char>,
}

impl View for Attachment {
    type V = AttachmentView;

    open spec fn view(&self) -> AttachmentView {
        AttachmentView {
            file_path: self.file_path@,
            url_path: self.url_path@,
            github_path: self.github_path@,
            mime_type: self.mime_type@,
        }
    }
}

/// The views of `atts`, in order.
pub open spec fn views_of(atts: Seq<Attachment>) -> Seq<AttachmentView> {
    Seq::new(atts.len(), |i: int| atts[i]@)
}

/// What kind of media an attachment holds, by its type.
#[derive(Debug, Clone, Copy, PartialEq, Eq, Structural)]
pub enum MediaKind {
    Image,
    Video,
    Other,
}

/// The kind of media that a MIME type stands for.
pub open spec fn kind_of(mime: Seq<char>) -> MediaKind {
    if starts_with(mime, "image/"@) {
        MediaKind::Image
    } else if starts_with(mime, "video/"@) {
        MediaKind::Video
    } else {
        MediaKind::Other
    }
}

/// The line that embeds an attachment in the body of a post, if its kind
/// has one.
pub open spec fn embed_of(a: AttachmentView) -> Option<Seq<char>> {
    match kind_of(a.mime_type) {
        MediaKind::Image => Some("![]("@ + a.url_path + ")"@),
        MediaKind::Video => Some("{{< video src=\""@ + a.url_path + "\" >}}"@),
        MediaKind::Other => None,
    }
}

impl Attachment {
    pub fn is_image(&self) -> (r: bool)
        ensures
            r == starts_with(self.mime_type@, "image/"@),
    {
        str_starts_with(self.mime_type.as_str(), "image/")
    }

    pub fn is_video(&self) -> (r: bool)
        ensures
            r == starts_with(self.mime_type@, "video/"@),
    {
        str_starts_with(self.mime_type.as_str(), "video/")
    }

    pub fn kind(&self) -> (r: MediaKind)
        ensures
            r == kind_of(self.mime_type@),
    {
        if self.is_image() {
            MediaKind::Image
        } else if self.is_video() {
            MediaKind::Video
        } else {
            MediaKind::Other
        }
    }

    /// The line that embeds this attachment in the body of a post: an
    /// image reference, a video directive, or nothing for any other kind.
    pub fn markdown(&self) -> (r: Option<String>)
        ensures
            match r {
                Some(line) => embed_of(self@) == Some(line@),
                None => embed_of(self@) is None,
            },
    {
        let mut out: Vec<char> = Vec::new();
        match self.kind() {
            MediaKind::Image => {
                push_str(&mut out, "![](");
                push_str(&mut out, self.url_path.as_str());
                push_str(&mut out, ")");
            },
            MediaKind::Video => {
                push_str(&mut out, "{{< video src=\"");
                push_str(&mut out, self.url_path.as_str());
                push_str(&mut out, "\" >}}");
            },
            MediaKind::Other => {
                return None;
            },
        }
        Some(from_chars(&out))
    }
}

/// A post: what was extracted from one message.
#[derive(Debug)]
pub struct PostInfo {
    pub title: String,
    pub author: String,
    pub content: Option<String>,
    /// Seconds since the Unix epoch, UTC.
    pub date: i64,
    pub attachments: Vec<Attachment>,
    /// Path of the post's document in the repository.
    pub file_path: String,
    pub tags: Vec<Tag>,
}

fn trim_text(s: &str) -> (r: String)
    ensures
        r@ == trimmed(s@),
{
    let chars = to_chars(s);
    let kept = trim(&chars);
    from_chars(&kept)
}

impl PostInfo {
    /// A post with the given parts; title, author and content lose their
    /// leading and trailing whitespace.
    pub fn new(
        title: String,
        author: String,
        content: Option<String>,
        date: i64,
        tags: Vec<Tag>,
        attachments: Vec<Attachment>,
        file_path: String,
    ) -> (r: PostInfo)
        ensures
            r.title@ == trimmed(title@),
            r.author@ == trimmed(author@),
            match content {
                Some(c) => r.content matches Some(t) && t@ == trimmed(c@),
                None => r.content is None,
            },
            r.date == date,
            r.tags == tags,
            r.attachments == attachments,
            r.file_path == file_path,
    {
        let content = match content {
            Some(c) => Some(trim_text(c.as_str())),
            None => None,
        };
        PostInfo {
            title: trim_text(title.as_str()),
            author: trim_text(author.as_str()),
            content,
            tags,
            date,
            attachments,
            file_path,
        }
    }

    /// The post with `f` applied to each attachment in order. The first
    /// attachment that `f` rejects ends the walk, and its error is returned:
    /// `f` has then accepted every attachment before it.
    pub fn map_attachments<F>(self, f: F) -> (r: Result<PostInfo, Mishap>) where
        F: Fn(Attachment) -> Result<Attachment, Mishap>,

        requires
            forall|a: Attachment| f.requires((a,)),
        ensures
            match r {
                Ok(post) => {
                    &&& post.title == self.title
                    &&& post.author == self.author
                    &&& post.content == self.content
                    &&& post.date == self.date
                    &&& post.file_path == self.file_path
                    &&& post.tags == self.tags
                    &&& post.attachments@.len() == self.attachments@.len()
                    &&& forall|i: int|
                        0 <= i < self.attachments@.len() ==> f.ensures(
                            (self.attachments@[i],),
                            Ok(#[trigger] post.attachments@[i]),
                        )
                },
                Err(e) => exists|done: Seq<Attachment>|
                    #![trigger done.len()]
                    {
                        &&& done.len() < self.attachments@.len()
                        &&& f.ensures((self.attachments@[done.len() as int],), Err(e))
                        &&& forall|j: int|
                            0 <= j < done.len() ==> f.ensures(
                                (self.attachments@[j],),
                                Ok(#[trigger] done[j]),
                            )
                    },
            },
    {
        let ghost all = self.attachments@;
        let mut mapped: Vec<Attachment> = Vec::new();
        for attachment in it: self.attachments.into_iter()
            invariant
                it.seq() == all,
                mapped@.len() == it.index(),
                forall|i: int|
                    0 <= i < mapped@.len() ==> f.ensures((all[i],), Ok(#[trigger] mapped@[i])),
                forall|a: Attachment| f.requires((a,)),
        {
            match f(attachment) {
                Ok(mapped_attachment) => {
                    mapped.push(mapped_attachment);
                },
                Err(e) => {
                    return Err(e);
                },
            }
        }
        Ok(
            PostInfo {
                title: self.title,
                author: self.author,
                content: self.content,
                date: self.date,
                attachments: mapped,
                file_path: self.file_path,
                tags: self.tags,
            },
        )
    }
}

/// The metadata that heads a post's document.
#[derive(Debug)]
pub struct FrontMatter {
    pub title: String,
    pub author: String,
    pub date: String,
    /// URL of the featured image; absent where the post has no attachment.
    pub image: Option<String>,
    pub post_type: String,
    pub tags: Vec<Tag>,
}

/// The date and time in ISO 8601 form, UTC, for a number of seconds since
/// the Unix epoch; `None` where the calendar cannot express the moment.
pub uninterp spec fn iso8601_text(unix_seconds: int) -> Option<Seq<char>>;

/// `time::OffsetDateTime::from_unix_timestamp`, then `format` with
/// `Iso8601::DEFAULT`. The contract only names the result; an error of
/// either call is `None`.
#[verifier::external_body]
fn format_iso8601(unix_seconds: i64) -> (r: Option<String>)
    ensures
        match r {
            Some(text) => iso8601_text(unix_seconds as int) == Some(text@),
            None => iso8601_text(unix_seconds as int) is None,
        },
{
    time::OffsetDateTime::from_unix_timestamp(unix_seconds).ok().and_then(
        |d| d.format(&time::format_description::well_known::Iso8601::DEFAULT).ok(),
    )
}

fn duplicate_tags(tags: &Vec<Tag>) -> (r: Vec<Tag>)
    ensures
        names(r@) == names(tags@),
{
    let mut out: Vec<Tag> = Vec::new();
    let mut i: usize = 0;
    while i < tags.len()
        invariant
            i <= tags.len(),
            out@.len() == i,
            forall|k: int| 0 <= k < i ==> out@[k]@ == tags@[k]@,
        decreases tags.len() - i,
    {
        out.push(tags[i].duplicate());
        i = i + 1;
    }
    out
}

/// The front matter of a post. Its image is the URL of the first
/// attachment and is absent exactly when there is no attachment; its type
/// is always `post`. `None` where the post's date cannot be written.
pub fn front_matter(post: &PostInfo) -> (r: Option<FrontMatter>)
    ensures
        match r {
            Some(fm) => {
                &&& iso8601_text(post.date as int) == Some(fm.date@)
                &&& fm.title@ == post.title@
                &&& fm.author@ == post.author@
                &&& fm.post_type@ == "post"@
                &&& names(fm.tags@) == names(post.tags@)
                &&& match fm.image {
                    Some(url) => post.attachments@.len() > 0 && url@
                        == post.attachments@[0].url_path@,
                    None => post.attachments@.len() == 0,
                }
            },
            None => iso8601_text(post.date as int) is None,
        },
{
    let date = match format_iso8601(post.date) {
        Some(date) => date,
        None => {
            return None;
        },
    };
    let image = if post.attachments.len() > 0 {
        Some(post.attachments[0].url_path.clone())
    } else {
        None
    };
    Some(
        FrontMatter {
            title: post.title.clone(),
            author: post.author.clone(),
            date,
            image,
            post_type: "post".to_owned(),
            tags: duplicate_tags(&post.tags),
        },
    )
}

/// The front-matter block: the serialised metadata between two marker
/// lines.
pub open spec fn meta_block(yaml: Seq<char>) -> Seq<char> {
    "---\n"@ + yaml + "\n---"@
}

/// The front-matter block around the serialised metadata `yaml`.
pub fn post_meta(yaml: &str) -> (r: String)
    ensures
        r@ == meta_block(yaml@),
{
    let mut out: Vec<char> = Vec::new();
    push_str(&mut out, "---\n");
    push_str(&mut out, yaml);
    push_str(&mut out, "\n---");
    from_chars(&out)
}

/// The embed lines of `atts`, in order, each followed by a blank line.
/// An attachment whose kind has no embed line adds nothing.
pub open spec fn embeds(atts: Seq<AttachmentView>) -> Seq<char>
    decreases atts.len(),
{
    if atts.len() == 0 {
        Seq::empty()
    } else {
        embeds(atts.drop_last()) + match embed_of(atts.last()) {
            Some(line) => line + "\n\n"@,
            None => Seq::empty(),
        }
    }
}

/// The text of a post's document: the front-matter block, the content if
/// there is any, then the embed lines, each section followed by a blank
/// line.
pub open spec fn document(
    yaml: Seq<char>,
    content: Option<Seq<char>>,
    atts: Seq<AttachmentView>,
) -> Seq<char> {
    meta_block(yaml) + "\n\n"@ + match content {
        Some(text) => text + "\n\n"@,
        None => Seq::empty(),
    } + embeds(atts)
}

/// The content of a post, as a sequence of characters.
pub open spec fn content_of(post: &PostInfo) -> Option<Seq<char>> {
    match post.content {
        Some(text) => Some(text@),
        None => None,
    }
}

/// Writes the document of `post`, given its serialised front matter.
pub fn write(post: &PostInfo, yaml: &str) -> (r: Result<String, Mishap>)
    ensures
        r matches Ok(text) && text@ == document(
            yaml@,
            content_of(post),
            views_of(post.attachments@),
        ),
{
    let mut out: Vec<char> = Vec::new();
    let meta = post_meta(yaml);
    push_str(&mut out, meta.as_str());
    push_str(&mut out, "\n\n");
    match &post.content {
        Some(text) => {
            push_str(&mut out, text.as_str());
            push_str(&mut out, "\n\n");
        },
        None => {},
    }
    let ghost head = out@;
    let ghost atts = views_of(post.attachments@);
    assert(head =~= meta_block(yaml@) + "\n\n"@ + match content_of(post) {
        Some(text) => text + "\n\n"@,
        None => Seq::empty(),
    });
    let mut i: usize = 0;
    while i < post.attachments.len()
        invariant
            i <= post.attachments.len(),
            atts == views_of(post.attachments@),
            out@ == head + embeds(atts.take(i as int)),
        decreases post.attachments.len() - i,
    {
        assert(atts.take(i + 1).drop_last() =~= atts.take(i as int));
        match post.attachments[i].markdown() {
            Some(line) => {
                push_str(&mut out, line.as_str());
                push_str(&mut out, "\n\n");
            },
            None => {},
        }
        i = i + 1;
    }
    assert(atts.take(post.attachments.len() as int) =~= atts);
    Ok(from_chars(&out))
}

} // verus!
