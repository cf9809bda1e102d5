//! Normalisation of media attachments: which of them are converted, to
//! what, and how their names change.

use crate::blog::{kind_of, views_of, Attachment, AttachmentView, MediaKind, PostInfo};
use crate::image::{jpeg_job, to_jpeg, Invocation, InvocationView};
use crate::text::{
    extension_start, find_extension, from_chars, lowercase, push_str, replace, replaced,
    same_text, slice, to_chars, to_lowercase,
};
use crate::video::{web_video, web_video_job};
use vstd::prelude::*;
use vstd::string::*;

verus! {

/// `s` with what follows its last `'.'` replaced by `ext`; `s` itself where
/// it holds no `'.'`.
pub open spec fn with_ext(s: Seq<char>, ext: Seq<char>) -> Seq<char> {
    match extension_start(s) {
        Some(i) => s.take(i) + ext,
        None => s,
    }
}

/// What follows the last `'.'` of `s`, if it holds one.
pub open spec fn ext_of(s: Seq<char>) -> Option<Seq<char>> {
    match extension_start(s) {
        Some(i) => Some(s.skip(i)),
        None => None,
    }
}

/// Names whose extension can be read and replaced.
pub trait RenameExt where Self: Sized {
    /// The name with what follows its last `'.'` replaced by `new_ext`; a
    /// name without a `'.'` is returned as it is.
    fn with_extension(self, new_ext: &str) -> Self;

    /// What follows the last `'.'` of the name, if it holds one.
    fn get_extension(&self) -> Option<&str>;
}

impl RenameExt for String {
    fn with_extension(self, new_ext: &str) -> (r: Self)
        ensures
            r@ == with_ext(self@, new_ext@),
    {
        let chars = to_chars(self.as_str());
        match find_extension(&chars) {
            Some(i) => {
                let mut out = slice(&chars, 0, i);
                push_str(&mut out, new_ext);
                from_chars(&out)
            },
            None => self,
        }
    }

    fn get_extension(&self) -> (r: Option<&str>)
        ensures
            match r {
                Some(e) => ext_of(self@) == Some(e@),
                None => ext_of(self@) is None,
            },
    {
        let chars = to_chars(self.as_str());
        match find_extension(&chars) {
            Some(i) => {
                let e = self.as_str().substring_char(i, chars.len());
                Some(e)
            },
            None => None,
        }
    }
}

/// Whether an attachment of this type is converted to JPEG: every image
/// type but JPEG, GIF and PNG.
pub open spec fn needs_jpeg(mime: Seq<char>) -> bool {
    &&& kind_of(mime) == MediaKind::Image
    &&& mime != "image/jpeg"@
    &&& mime != "image/gif"@
    &&& mime != "image/png"@
}

/// Whether an attachment of this type is re-encoded as MP4: every video
/// type but MP4.
pub open spec fn needs_mp4(mime: Seq<char>) -> bool {
    kind_of(mime) == MediaKind::Video && mime != "video/mp4"@
}

/// The attachment with its three names carrying the extension `ext`, and
/// with the type `mime`.
pub open spec fn converted(a: AttachmentView, ext: Seq<char>, mime: Seq<char>) -> AttachmentView {
    AttachmentView {
        file_path: with_ext(a.file_path, ext),
        url_path: with_ext(a.url_path, ext),
        github_path: with_ext(a.github_path, ext),
        mime_type: mime,
    }
}

/// What the image step makes of an attachment.
pub open spec fn as_jpeg(a: AttachmentView) -> AttachmentView {
    if needs_jpeg(a.mime_type) {
        converted(a, "jpg"@, "image/jpeg"@)
    } else {
        a
    }
}

/// What the video step makes of an attachment.
pub open spec fn as_mp4(a: AttachmentView) -> AttachmentView {
    if needs_mp4(a.mime_type) {
        converted(a, "mp4"@, "video/mp4"@)
    } else {
        a
    }
}

/// A published name in its final form: lowercase, with `.jpeg` written
/// as `.jpg`.
pub open spec fn normalized_name(s: Seq<char>) -> Seq<char> {
    replaced(lowercase(s), ".jpeg"@, ".jpg"@)
}

/// What the last step makes of an attachment: the two published names are
/// normalised, the local file and the type stay.
pub open spec fn normalized(a: AttachmentView) -> AttachmentView {
    AttachmentView {
        file_path: a.file_path,
        url_path: normalized_name(a.url_path),
        github_path: normalized_name(a.github_path),
        mime_type: a.mime_type,
    }
}

/// What the three steps together make of an attachment.
pub open spec fn transcoded(a: AttachmentView) -> AttachmentView {
    normalized(as_jpeg(as_mp4(a)))
}

fn normalize_name(s: &str) -> (r: String)
    ensures
        r@ == normalized_name(s@),
{
    let lower = to_lowercase(s);
    let chars = to_chars(lower.as_str());
    let from = to_chars(".jpeg");
    let to = to_chars(".jpg");
    let out = replace(&chars, &from, &to);
    from_chars(&out)
}

/// The last step: brings the published names of an attachment into their
/// final form.
pub fn normalize_filenames(a: Attachment) -> (r: Attachment)
    ensures
        r@ == normalized(a@),
{
    let url_path = normalize_name(a.url_path.as_str());
    let github_path = normalize_name(a.github_path.as_str());
    Attachment { file_path: a.file_path, url_path, github_path, mime_type: a.mime_type }
}

fn convert(a: Attachment, ext: &str, mime: &str) -> (r: Attachment)
    ensures
        r@ == converted(a@, ext@, mime@),
{
    Attachment {
        file_path: a.file_path.with_extension(ext),
        url_path: a.url_path.with_extension(ext),
        github_path: a.github_path.with_extension(ext),
        mime_type: mime.to_owned(),
    }
}

/// The image step. An image that is neither JPEG, GIF nor PNG is renamed
/// to `.jpg` and typed as JPEG, and the conversion that has to be run on
/// its file comes with it; any other attachment is returned as it is.
pub fn transcode_heic(a: Attachment) -> (r: (Attachment, Option<Invocation>))
    ensures
        r.0@ == as_jpeg(a@),
        match r.1 {
            Some(job) => needs_jpeg(a@.mime_type) && job@ == jpeg_job(
                a@.file_path,
                r.0@.file_path,
            ),
            None => !needs_jpeg(a@.mime_type),
        },
{
    let mime = a.mime_type.as_str();
    if a.kind() != MediaKind::Image || same_text(mime, "image/jpeg") || same_text(
        mime,
        "image/gif",
    ) || same_text(mime, "image/png") {
        (a, None)
    } else {
        let input = a.file_path.clone();
        let out = convert(a, "jpg", "image/jpeg");
        let job = to_jpeg(input.as_str(), out.file_path.as_str());
        (out, Some(job))
    }
}

/// The video step. A video that is not MP4 is renamed to `.mp4` and typed
/// as MP4, and the conversion that has to be run on its file comes with
/// it; any other attachment is returned as it is.
pub fn transcode_video_for_web(a: Attachment) -> (r: (Attachment, Option<Invocation>))
    ensures
        r.0@ == as_mp4(a@),
        match r.1 {
            Some(job) => needs_mp4(a@.mime_type) && job@ == web_video_job(
                a@.file_path,
                r.0@.file_path,
            ),
            None => !needs_mp4(a@.mime_type),
        },
{
    if a.kind() != MediaKind::Video || same_text(a.mime_type.as_str(), "video/mp4") {
        (a, None)
    } else {
        let input = a.file_path.clone();
        let out = convert(a, "mp4", "video/mp4");
        let job = web_video(input.as_str(), out.file_path.as_str());
        (out, Some(job))
    }
}

/// The views of `jobs`, in order.
pub open spec fn job_views(jobs: Seq<Invocation>) -> Seq<InvocationView> {
    Seq::new(jobs.len(), |i: int| jobs[i]@)
}

/// Each attachment after the video step.
pub open spec fn each_as_mp4(atts: Seq<AttachmentView>) -> Seq<AttachmentView> {
    Seq::new(atts.len(), |i: int| as_mp4(atts[i]))
}

/// Each attachment after the image step.
pub open spec fn each_as_jpeg(atts: Seq<AttachmentView>) -> Seq<AttachmentView> {
    Seq::new(atts.len(), |i: int| as_jpeg(atts[i]))
}

/// Each attachment after all three steps.
pub open spec fn each_transcoded(atts: Seq<AttachmentView>) -> Seq<AttachmentView> {
    Seq::new(atts.len(), |i: int| transcoded(atts[i]))
}

/// The video conversions that `atts` ask for, in the order of `atts`.
pub open spec fn video_jobs(atts: Seq<AttachmentView>) -> Seq<InvocationView>
    decreases atts.len(),
{
    if atts.len() == 0 {
        Seq::empty()
    } else {
        let a = atts.last();
        let rest = video_jobs(atts.drop_last());
        if needs_mp4(a.mime_type) {
            rest.push(web_video_job(a.file_path, with_ext(a.file_path, "mp4"@)))
        } else {
            rest
        }
    }
}

/// The image conversions that `atts` ask for, in the order of `atts`.
pub open spec fn image_jobs(atts: Seq<AttachmentView>) -> Seq<InvocationView>
    decreases atts.len(),
{
    if atts.len() == 0 {
        Seq::empty()
    } else {
        let a = atts.last();
        let rest = image_jobs(atts.drop_last());
        if needs_jpeg(a.mime_type) {
            rest.push(jpeg_job(a.file_path, with_ext(a.file_path, "jpg"@)))
        } else {
            rest
        }
    }
}

/// The conversions to run for `atts`: those of the video step, then those
/// of the image step on what the video step left.
pub open spec fn jobs_for(atts: Seq<AttachmentView>) -> Seq<InvocationView> {
    video_jobs(atts) + image_jobs(each_as_mp4(atts))
}

fn video_pass(atts: Vec<Attachment>, jobs: &mut Vec<Invocation>) -> (out: Vec<Attachment>)
    ensures
        views_of(out@) == each_as_mp4(views_of(atts@)),
        job_views(final(jobs)@) == job_views(old(jobs)@) + video_jobs(views_of(atts@)),
{
    let ghost all = views_of(atts@);
    let ghost before = job_views(jobs@);
    let mut out: Vec<Attachment> = Vec::new();
    for a in it: atts.into_iter()
        invariant
            it.seq() == atts@,
            all == views_of(atts@),
            out@.len() == it.index(),
            views_of(out@) == each_as_mp4(all.take(it.index() as int)),
            job_views(jobs@) == before + video_jobs(all.take(it.index() as int)),
    {
        let ghost k = it.index() as int;
        let ghost seen = job_views(jobs@);
        let ghost done = views_of(out@);
        assert(all.take(k + 1).drop_last() =~= all.take(k));
        let (b, job) = transcode_video_for_web(a);
        out.push(b);
        if let Some(j) = job {
            jobs.push(j);
            assert(job_views(jobs@) =~= seen.push(j@));
        }
        assert(views_of(out@) =~= done.push(b@));
    }
    assert(all.take(atts@.len() as int) =~= all);
    out
}

fn image_pass(atts: Vec<Attachment>, jobs: &mut Vec<Invocation>) -> (out: Vec<Attachment>)
    ensures
        views_of(out@) == each_as_jpeg(views_of(atts@)),
        job_views(final(jobs)@) == job_views(old(jobs)@) + image_jobs(views_of(atts@)),
{
    let ghost all = views_of(atts@);
    let ghost before = job_views(jobs@);
    let mut out: Vec<Attachment> = Vec::new();
    for a in it: atts.into_iter()
        invariant
            it.seq() == atts@,
            all == views_of(atts@),
            out@.len() == it.index(),
            views_of(out@) == each_as_jpeg(all.take(it.index() as int)),
            job_views(jobs@) == before + image_jobs(all.take(it.index() as int)),
    {
        let ghost k = it.index() as int;
        let ghost seen = job_views(jobs@);
        let ghost done = views_of(out@);
        assert(all.take(k + 1).drop_last() =~= all.take(k));
        let (b, job) = transcode_heic(a);
        out.push(b);
        if let Some(j) = job {
            jobs.push(j);
            assert(job_views(jobs@) =~= seen.push(j@));
        }
        assert(views_of(out@) =~= done.push(b@));
    }
    assert(all.take(atts@.len() as int) =~= all);
    out
}

/// Each attachment after the naming step.
pub open spec fn each_normalized(atts: Seq<AttachmentView>) -> Seq<AttachmentView> {
    Seq::new(atts.len(), |i: int| normalized(atts[i]))
}

fn normalize_pass(atts: Vec<Attachment>) -> (out: Vec<Attachment>)
    ensures
        views_of(out@) == each_normalized(views_of(atts@)),
{
    let ghost all = views_of(atts@);
    let mut out: Vec<Attachment> = Vec::new();
    for a in it: atts.into_iter()
        invariant
            it.seq() == atts@,
            all == views_of(atts@),
            out@.len() == it.index(),
            views_of(out@) == each_normalized(all.take(it.index() as int)),
    {
        let ghost done = views_of(out@);
        let b = normalize_filenames(a);
        out.push(b);
        assert(views_of(out@) =~= done.push(b@));
    }
    out
}

/// Normalises the attachments of a post. Each attachment goes through the
/// video step, the image step and the naming step; their number and order
/// stay. The conversions to run on the files in working storage come with
/// the post: the names in the post are valid once all of them have
/// succeeded.
pub fn transcode(info: PostInfo) -> (r: (PostInfo, Vec<Invocation>))
    ensures
        r.0.title == info.title,
        r.0.author == info.author,
        r.0.content == info.content,
        r.0.date == info.date,
        r.0.file_path == info.file_path,
        r.0.tags == info.tags,
        views_of(r.0.attachments@) == each_transcoded(views_of(info.attachments@)),
        job_views(r.1@) == jobs_for(views_of(info.attachments@)),
{
    let ghost all = views_of(info.attachments@);
    let mut jobs: Vec<Invocation> = Vec::new();
    let videos = video_pass(info.attachments, &mut jobs);
    let images = image_pass(videos, &mut jobs);
    let attachments = normalize_pass(images);
    assert forall|i: int| 0 <= i < all.len() implies views_of(attachments@)[i]
        == each_transcoded(all)[i] by {}
    (
        PostInfo {
            title: info.title,
            author: info.author,
            content: info.content,
            date: info.date,
            attachments,
            file_path: info.file_path,
            tags: info.tags,
        },
        jobs,
    )
}

/// Each conversion step changes nothing when applied a second time.
pub proof fn lemma_steps_idempotent(a: AttachmentView)
    ensures
        as_jpeg(as_jpeg(a)) == as_jpeg(a),
        as_mp4(as_mp4(a)) == as_mp4(a),
{
}

/// An attachment that is already of a target type (JPEG, PNG, GIF or MP4)
/// asks for no conversion, and normalising it is only the naming step.
pub proof fn lemma_target_types_pass(a: AttachmentView)
    requires
        a.mime_type == "image/jpeg"@ || a.mime_type == "image/png"@ || a.mime_type
            == "image/gif"@ || a.mime_type == "video/mp4"@,
    ensures
        !needs_jpeg(a.mime_type),
        !needs_mp4(a.mime_type),
        transcoded(a) == normalized(a),
        jobs_for(seq![a]) == Seq::<InvocationView>::empty(),
{
    reveal_strlit("image/jpeg");
    reveal_strlit("image/png");
    reveal_strlit("image/gif");
    reveal_strlit("video/mp4");
    reveal_strlit("image/");
    reveal_strlit("video/");
    assert(!needs_mp4(a.mime_type)) by {
        if a.mime_type != "video/mp4"@ {
            assert(a.mime_type.subrange(0, 6)[0] == 'i');
        }
    }
    assert(!needs_jpeg(a.mime_type)) by {
        if a.mime_type == "video/mp4"@ {
            assert(a.mime_type.subrange(0, 6)[0] == 'v');
        }
    }
    let none = Seq::<AttachmentView>::empty();
    assert(seq![a].drop_last() =~= none);
    assert(each_as_mp4(seq![a]) =~= seq![a]);
    assert(video_jobs(none) =~= Seq::<InvocationView>::empty());
    assert(image_jobs(none) =~= Seq::<InvocationView>::empty());
}

/// Normalisation keeps the number of attachments and their order: the
/// attachment at each index comes from the one that stood at that index.
pub proof fn lemma_transcode_keeps_order(atts: Seq<AttachmentView>, i: int)
    requires
        0 <= i < atts.len(),
    ensures
        each_transcoded(atts).len() == atts.len(),
        each_transcoded(atts)[i] == transcoded(atts[i]),
{
}

} // verus!
