//! Reading a message: its parts are walked for the body text and the
//! media attachments, its headers give sender, title, tags and date.

use crate::blog::{views_of, Attachment, AttachmentView, PostInfo};
use crate::filenames::{date_text, day_format, day_text, nameable, Filenames};
use crate::media::{each_transcoded, ext_of, transcoded, RenameExt};
use crate::mishaps::Mishap;
use crate::settings::Settings;
use crate::signatureblock::{remove, without_signature};
use crate::tag::{detag, tags_of, title_of};
use crate::text::{
    after_last, decimal, decimal_chars, ends_with, find_after_last, from_chars, has_suffix,
    lowercase, push_str, same_text, slice, starts_with, str_ends_with, str_starts_with, texts,
    to_chars, to_lowercase, trim, trimmed,
};
use vstd::prelude::*;

verus! {

/// A named value: a header of a message, or a parameter of a content
/// type.
#[derive(Debug)]
pub struct Field {
    pub key: String,
    pub value: String,
}

/// The code of a character, with the ASCII capitals mapped to their small
/// letters.
pub open spec fn lower_code(c: char) -> u32 {
    let n = c as u32;
    if 0x41 <= n <= 0x5A {
        (n + 0x20) as u32
    } else {
        n
    }
}

/// Whether two texts are the same but for the case of their ASCII
/// letters.
pub open spec fn same_ignoring_case(a: Seq<char>, b: Seq<char>) -> bool {
    &&& a.len() == b.len()
    &&& forall|i: int| 0 <= i < a.len() ==> lower_code(#[trigger] a[i]) == lower_code(b[i])
}

fn lower_code_of(c: char) -> (r: u32)
    ensures
        r == lower_code(c),
{
    let n: u32 = c as u32;
    if 0x41 <= n && n <= 0x5A {
        n + 0x20
    } else {
        n
    }
}

/// Whether two texts are the same but for the case of their ASCII
/// letters.
pub fn eq_ignoring_case(a: &str, b: &str) -> (r: bool)
    ensures
        r == same_ignoring_case(a@, b@),
{
    let x = to_chars(a);
    let y = to_chars(b);
    if x.len() != y.len() {
        return false;
    }
    let mut i: usize = 0;
    while i < x.len()
        invariant
            i <= x.len() == y.len(),
            x@ == a@,
            y@ == b@,
            forall|k: int| 0 <= k < i ==> lower_code(#[trigger] x@[k]) == lower_code(y@[k]),
        decreases x.len() - i,
    {
        if lower_code_of(x[i]) != lower_code_of(y[i]) {
            return false;
        }
        i = i + 1;
    }
    true
}

/// The value of the first of `fields` whose key is `name`, whatever the
/// case of its ASCII letters: headers are named without regard to case.
pub open spec fn first_header(fields: Seq<Field>, name: Seq<char>) -> Option<Seq<char>>
    decreases fields.len(),
{
    if fields.len() == 0 {
        None
    } else if same_ignoring_case(fields[0].key@, name) {
        Some(fields[0].value@)
    } else {
        first_header(fields.drop_first(), name)
    }
}

/// The value of the first of `fields` whose key is exactly `key`.
pub open spec fn parameter(fields: Seq<Field>, key: Seq<char>) -> Option<Seq<char>>
    decreases fields.len(),
{
    if fields.len() == 0 {
        None
    } else if fields[0].key@ == key {
        Some(fields[0].value@)
    } else {
        parameter(fields.drop_first(), key)
    }
}

/// The characters of an optional text.
pub open spec fn opt_ref_text(o: Option<&String>) -> Option<Seq<char>> {
    match o {
        Some(s) => Some(s@),
        None => None,
    }
}

/// Looks up a header by its name.
pub fn find_header<'a>(fields: &'a Vec<Field>, name: &str) -> (r: Option<&'a String>)
    ensures
        opt_ref_text(r) == first_header(fields@, name@),
{
    let mut i: usize = 0;
    assert(fields@.skip(0) =~= fields@);
    while i < fields.len()
        invariant
            i <= fields.len(),
            first_header(fields@, name@) == first_header(fields@.skip(i as int), name@),
        decreases fields.len() - i,
    {
        if eq_ignoring_case(fields[i].key.as_str(), name) {
            return Some(&fields[i].value);
        }
        assert(fields@.skip(i as int).drop_first() =~= fields@.skip(i + 1));
        i = i + 1;
    }
    None
}

/// Looks up a parameter by its key.
pub fn find_parameter<'a>(fields: &'a Vec<Field>, key: &str) -> (r: Option<&'a String>)
    ensures
        opt_ref_text(r) == parameter(fields@, key@),
{
    let mut i: usize = 0;
    assert(fields@.skip(0) =~= fields@);
    while i < fields.len()
        invariant
            i <= fields.len(),
            parameter(fields@, key@) == parameter(fields@.skip(i as int), key@),
        decreases fields.len() - i,
    {
        if same_text(fields[i].key.as_str(), key) {
            return Some(&fields[i].value);
        }
        assert(fields@.skip(i as int).drop_first() =~= fields@.skip(i + 1));
        i = i + 1;
    }
    None
}

/// One node of a message's content tree, with its content decoded.
#[derive(Debug)]
pub struct Part {
    /// The declared media type, without parameters.
    pub mimetype: String,
    /// The parameters of the content type, their keys in lowercase.
    pub params: Vec<Field>,
    /// The content as text, or why it cannot be read as text.
    pub text: Result<String, String>,
    /// The content as bytes, or why it cannot be decoded.
    pub raw: Result<Vec<u8>, String>,
    pub subparts: Vec<Part>,
}

/// A message: its headers, with their values decoded, and its content
/// tree.
#[derive(Debug)]
pub struct Message {
    pub headers: Vec<Field>,
    pub body: Part,
}

impl Message {
    /// The subject line, if the message has one.
    pub open spec fn subject(&self) -> Option<Seq<char>> {
        first_header(self.headers@, "Subject"@)
    }

    /// The text of the From header, if the message has one.
    pub open spec fn from_header(&self) -> Option<Seq<char>> {
        first_header(self.headers@, "From"@)
    }

    /// The text of the Date header, if the message has one.
    pub open spec fn date_header(&self) -> Option<Seq<char>> {
        first_header(self.headers@, "Date"@)
    }

    /// The value of the first header of the given name.
    pub fn header(&self, name: &str) -> (r: Option<&String>)
        ensures
            opt_ref_text(r) == first_header(self.headers@, name@),
    {
        find_header(&self.headers, name)
    }
}

/// The parts of the tree under `p`, `p` first, each part before its
/// subparts and the subparts in their order.
pub open spec fn preorder(p: Part) -> Seq<Part>
    decreases p,
{
    seq![p] + preorder_upto(p.subparts@, p.subparts@.len())
}

/// The parts of the trees under the first `n` of `ps`, tree after tree.
pub open spec fn preorder_upto(ps: Seq<Part>, n: nat) -> Seq<Part>
    decreases ps, n,
{
    if n == 0 || n > ps.len() {
        Seq::empty()
    } else {
        preorder_upto(ps, (n - 1) as nat) + preorder(ps[n - 1])
    }
}

/// The parts that `v` refers to.
pub open spec fn derefs(v: Seq<&Part>) -> Seq<Part> {
    Seq::new(v.len(), |i: int| *v[i])
}

/// Walks the tree under `part` depth first.
pub fn walk<'a>(part: &'a Part) -> (r: Vec<&'a Part>)
    ensures
        derefs(r@) == preorder(*part),
    decreases part,
{
    let mut out: Vec<&'a Part> = Vec::new();
    out.push(part);
    let mut i: usize = 0;
    while i < part.subparts.len()
        invariant
            i <= part.subparts.len(),
            derefs(out@) == seq![*part] + preorder_upto(part.subparts@, i as nat),
        decreases part.subparts.len() - i,
    {
        let sub = walk(&part.subparts[i]);
        let ghost before = derefs(out@);
        let mut k: usize = 0;
        while k < sub.len()
            invariant
                k <= sub.len(),
                derefs(out@) == before + derefs(sub@).take(k as int),
            decreases sub.len() - k,
        {
            let ghost prev = derefs(out@);
            out.push(sub[k]);
            assert(derefs(out@) =~= prev.push(*sub@[k as int]));
            assert(derefs(sub@).take(k + 1) =~= derefs(sub@).take(k as int).push(
                *sub@[k as int],
            ));
            k = k + 1;
        }
        i = i + 1;
    }
    out
}

/// The type that marks a part as the body text.
pub open spec fn is_plain_text(p: Part) -> bool {
    p.mimetype@ == "text/plain"@
}

/// The first part of `parts` that is plain text.
pub open spec fn first_text(parts: Seq<Part>) -> Option<Part>
    decreases parts.len(),
{
    if parts.len() == 0 {
        None
    } else if is_plain_text(parts[0]) {
        Some(parts[0])
    } else {
        first_text(parts.drop_first())
    }
}

/// The part that holds the body text of a message: the first plain-text
/// part of the walk.
pub open spec fn body_part(mail: Part) -> Option<Part> {
    first_text(preorder(mail))
}

/// The body text of a message: the text of the first plain-text part that
/// the walk meets. A message without such a part has no body, which is no
/// error; a body part whose text cannot be read is one.
pub fn body(mail: &Part) -> (r: Result<Option<String>, Mishap>)
    ensures
        match body_part(*mail) {
            None => r matches Ok(None),
            Some(p) => match p.text {
                Ok(text) => r matches Ok(Some(found)) && found@ == text@,
                Err(why) => r matches Err(Mishap::Email(cause)) && cause@ == why@,
            },
        },
{
    let all = walk(mail);
    let ghost parts = derefs(all@);
    let mut i: usize = 0;
    assert(parts.skip(0) =~= parts);
    while i < all.len()
        invariant
            i <= all.len(),
            parts == derefs(all@),
            parts == preorder(*mail),
            first_text(parts) == first_text(parts.skip(i as int)),
        decreases all.len() - i,
    {
        let part = all[i];
        if same_text(part.mimetype.as_str(), "text/plain") {
            return match &part.text {
                Ok(text) => Ok(Some(text.clone())),
                Err(why) => Err(Mishap::Email(why.clone())),
            };
        }
        assert(parts.skip(i as int).drop_first() =~= parts.skip(i + 1));
        i = i + 1;
    }
    Ok(None)
}

/// The MIME type that `mime_guess` gives for a file extension; `None`
/// where it knows none.
pub uninterp spec fn guessed_mime(ext: Seq<char>) -> Option<Seq<char>>;

/// `mime_guess::from_ext`, then `first_raw`: the first media type that
/// the crate's table lists for the extension. The contract only names the
/// result.
#[verifier::external_body]
fn guess_mime(ext: &str) -> (r: Option<String>)
    ensures
        match r {
            Some(mime) => guessed_mime(ext@) == Some(mime@),
            None => guessed_mime(ext@) is None,
        },
{
    mime_guess::from_ext(ext).first_raw().map(|mime| mime.to_string())
}

/// The file extensions that `mime_guess` lists for a MIME type, in the
/// order of its table; `None` where it does not know the type.
pub uninterp spec fn known_extensions(mime: Seq<char>) -> Option<Seq<Seq<char>>>;

/// `mime_guess::get_mime_extensions_str`. The contract only names the
/// result.
#[verifier::external_body]
fn mime_extensions(mime: &str) -> (r: Option<Vec<String>>)
    ensures
        match r {
            Some(exts) => known_extensions(mime@) == Some(texts(exts@)),
            None => known_extensions(mime@) is None,
        },
{
    mime_guess::get_mime_extensions_str(mime).map(
        |exts| exts.iter().map(|ext| ext.to_string()).collect(),
    )
}

/// The type that the extension of a file name stands for; `None` for a
/// name without an extension or with one that is not known.
pub open spec fn mime_by_name(name: Seq<char>) -> Option<Seq<char>> {
    match ext_of(name) {
        Some(ext) => guessed_mime(ext),
        None => None,
    }
}

/// The type to give a part whose declared type is the generic one, when
/// the guess from its name is `guess`.
pub open spec fn generic_resolved(declared: Seq<char>, guess: Option<Seq<char>>) -> Seq<char> {
    match guess {
        Some(mime) => mime,
        None => declared,
    }
}

/// Picks the type of a part whose declared type is the generic one.
pub fn resolve_generic(declared: &String, guess: Option<String>) -> (r: String)
    ensures
        r@ == generic_resolved(declared@, opt_text(guess)),
{
    match guess {
        Some(mime) => mime,
        None => declared.clone(),
    }
}

/// The first of the known extensions, or the empty text where none is
/// known.
pub open spec fn first_extension(known: Option<Seq<Seq<char>>>) -> Seq<char> {
    match known {
        Some(exts) => if exts.len() > 0 {
            exts[0]
        } else {
            Seq::empty()
        },
        None => Seq::empty(),
    }
}

/// Picks the extension for a type from the extensions known for it.
pub fn pick_extension(known: Option<Vec<String>>) -> (r: String)
    ensures
        r@ == first_extension(
            match known {
                Some(exts) => Some(texts(exts@)),
                None => None,
            },
        ),
{
    match known {
        Some(exts) => {
            if exts.len() > 0 {
                exts[0].clone()
            } else {
                String::new()
            }
        },
        None => String::new(),
    }
}

impl Part {
    /// The file name that the content type declares, if it declares one.
    pub open spec fn filename(&self) -> Option<Seq<char>> {
        parameter(self.params@, "name"@)
    }

    /// The file name that the content type declares, if it declares one.
    pub fn name(&self) -> (r: Option<&String>)
        ensures
            opt_ref_text(r) == self.filename(),
    {
        find_parameter(&self.params, "name")
    }

    /// Whether the part declares a file name that ends with `suffix`,
    /// whatever the case of its letters.
    pub open spec fn name_ends_with(&self, suffix: Seq<char>) -> bool {
        self.filename() matches Some(name) && ends_with(lowercase(name), suffix)
    }

    fn has_name_ending(&self, suffix: &str) -> (r: bool)
        ensures
            r == self.name_ends_with(suffix@),
    {
        match self.name() {
            Some(name) => {
                let lower = to_lowercase(name.as_str());
                str_ends_with(lower.as_str(), suffix)
            },
            None => false,
        }
    }

    /// A part is taken for an image when its declared type begins with
    /// `image`, or when its file name ends with `heic`: photos in that
    /// format often arrive under the generic binary type.
    pub open spec fn spec_is_image(&self) -> bool {
        starts_with(self.mimetype@, "image"@) || self.name_ends_with("heic"@)
    }

    /// A part is taken for a video when its declared type begins with
    /// `video`, or when its file name ends with `mp4` or `mov`.
    pub open spec fn spec_is_video(&self) -> bool {
        ||| starts_with(self.mimetype@, "video"@)
        ||| self.name_ends_with("mp4"@)
        ||| self.name_ends_with("mov"@)
    }

    /// Whether the part is taken for an image.
    pub fn is_image(&self) -> (r: bool)
        ensures
            r == self.spec_is_image(),
    {
        str_starts_with(self.mimetype.as_str(), "image") || self.has_name_ending("heic")
    }

    /// Whether the part is taken for a video.
    pub fn is_video(&self) -> (r: bool)
        ensures
            r == self.spec_is_video(),
    {
        str_starts_with(self.mimetype.as_str(), "video") || self.has_name_ending("mp4")
            || self.has_name_ending("mov")
    }

    /// The resolved type of the part: `image/heic` for a file name that
    /// ends with `heic`; else the declared type, unless that is the generic
    /// binary type and the extension of the file name stands for a type.
    pub open spec fn spec_mime(&self) -> Seq<char> {
        if self.name_ends_with("heic"@) {
            "image/heic"@
        } else if self.mimetype@ == "application/octet-stream"@ {
            match self.filename() {
                Some(name) => generic_resolved(self.mimetype@, mime_by_name(name)),
                None => self.mimetype@,
            }
        } else {
            self.mimetype@
        }
    }

    /// Resolves the type of the part.
    pub fn mime(&self) -> (r: String)
        ensures
            r@ == self.spec_mime(),
    {
        if self.has_name_ending("heic") {
            "image/heic".to_owned()
        } else if same_text(self.mimetype.as_str(), "application/octet-stream") {
            match self.name() {
                Some(name) => {
                    let guess = match name.get_extension() {
                        Some(ext) => guess_mime(ext),
                        None => None,
                    };
                    resolve_generic(&self.mimetype, guess)
                },
                None => self.mimetype.clone(),
            }
        } else {
            self.mimetype.clone()
        }
    }

    /// The extension of the part's file: that of its file name where the
    /// name has one, else the first extension known for its resolved type,
    /// else the empty text.
    pub open spec fn spec_ext(&self) -> Seq<char> {
        match self.filename() {
            Some(name) => match ext_of(name) {
                Some(ext) => ext,
                None => first_extension(known_extensions(self.spec_mime())),
            },
            None => first_extension(known_extensions(self.spec_mime())),
        }
    }

    /// Resolves the extension of the part's file.
    pub fn guess_ext(&self) -> (r: String)
        ensures
            r@ == self.spec_ext(),
    {
        if let Some(name) = self.name() {
            if let Some(ext) = name.get_extension() {
                return ext.to_owned();
            }
        }
        let mime = self.mime();
        pick_extension(mime_extensions(mime.as_str()))
    }
}

/// The parts that become attachments: images and videos.
pub open spec fn attachable() -> spec_fn(Part) -> bool {
    |p: Part| p.spec_is_image() || p.spec_is_video()
}

/// The attachments of a message in the order of their discovery, which is
/// the order of the walk.
pub open spec fn attachment_parts(mail: Part) -> Seq<Part> {
    preorder(mail).filter(attachable())
}

/// Finds the parts of a message that become attachments.
pub fn find_attachments<'a>(mail: &'a Part) -> (r: Vec<&'a Part>)
    ensures
        derefs(r@) == attachment_parts(*mail),
{
    let all = walk(mail);
    let ghost parts = derefs(all@);
    let mut out: Vec<&'a Part> = Vec::new();
    let mut i: usize = 0;
    assert(parts.take(0).filter(attachable()) =~= Seq::<Part>::empty()) by {
        reveal(Seq::filter);
    }
    while i < all.len()
        invariant
            i <= all.len(),
            parts == derefs(all@),
            derefs(out@) == parts.take(i as int).filter(attachable()),
        decreases all.len() - i,
    {
        let part = all[i];
        proof {
            assert(parts.take(i + 1) =~= parts.take(i as int).push(*part));
            parts.take(i as int).lemma_filter_push(*part, attachable());
        }
        if part.is_image() || part.is_video() {
            out.push(part);
        }
        i = i + 1;
    }
    assert(parts.take(all.len() as int) =~= parts);
    out
}

/// The attachment that the part `p` becomes when it is the one with index
/// `count`.
pub open spec fn materialized(names: &Filenames, p: Part, count: nat) -> AttachmentView {
    AttachmentView {
        file_path: decimal(count) + seq!['.'] + p.spec_ext(),
        url_path: names.spec_attachment_markdown_url(count, p.spec_ext()),
        github_path: names.spec_attachment_github_path(count, p.spec_ext()),
        mime_type: p.spec_mime(),
    }
}

/// The attachments of a message, and for each of them the content to
/// store under its file name.
#[derive(Debug)]
pub struct Materialized {
    pub attachments: Vec<Attachment>,
    pub contents: Vec<Vec<u8>>,
}

/// Whether `atts` and `contents` are what `parts` become under `names`:
/// one attachment per part, in the same order, each numbered by its place,
/// and with it the content of its part.
pub open spec fn stored_as(
    names: &Filenames,
    parts: Seq<Part>,
    atts: Seq<Attachment>,
    contents: Seq<Vec<u8>>,
) -> bool {
    &&& atts.len() == parts.len()
    &&& contents.len() == parts.len()
    &&& forall|i: int|
        0 <= i < parts.len() ==> {
            &&& (#[trigger] atts[i])@ == materialized(names, parts[i], i as nat)
            &&& parts[i].raw matches Ok(bytes) && contents[i]@ == bytes@
        }
}

impl Materialized {
    /// Whether these are the attachments that `parts` become under `names`.
    pub open spec fn holds(&self, names: &Filenames, parts: Seq<Part>) -> bool {
        stored_as(names, parts, self.attachments@, self.contents@)
    }
}

fn copy_bytes(v: &Vec<u8>) -> (r: Vec<u8>)
    ensures
        r@ == v@,
{
    let mut r: Vec<u8> = Vec::new();
    let mut i: usize = 0;
    while i < v.len()
        invariant
            i <= v.len(),
            r@ == v@.take(i as int),
        decreases v.len() - i,
    {
        r.push(v[i]);
        i = i + 1;
    }
    r
}

/// Whether `i` is the first of `parts` whose content cannot be decoded,
/// and `e` reports that failure.
pub open spec fn first_undecodable(parts: Seq<Part>, i: int, e: Mishap) -> bool {
    &&& 0 <= i < parts.len()
    &&& forall|j: int| 0 <= j < i ==> (#[trigger] parts[j]).raw is Ok
    &&& match (parts[i].raw, e) {
        (Err(why), Mishap::Email(cause)) => cause@ == why@,
        _ => false,
    }
}

/// Materialises the attachments of a message under the given names. The
/// result holds one attachment per discovered part, in discovery order.
/// The first part whose content cannot be decoded fails the whole message.
pub fn attachments(conventions: &Filenames, mail: &Part) -> (r: Result<Materialized, Mishap>)
    ensures
        match r {
            Ok(m) => m.holds(conventions, attachment_parts(*mail)),
            Err(e) => exists|i: int| first_undecodable(attachment_parts(*mail), i, e),
        },
{
    let found = find_attachments(mail);
    let ghost parts = derefs(found@);
    let mut images: Vec<Attachment> = Vec::new();
    let mut contents: Vec<Vec<u8>> = Vec::new();
    let mut count: usize = 0;
    while count < found.len()
        invariant
            count <= found.len(),
            parts == derefs(found@),
            parts == attachment_parts(*mail),
            images@.len() == count,
            contents@.len() == count,
            forall|j: int| 0 <= j < count ==> (#[trigger] parts[j]).raw is Ok,
            forall|i: int|
                0 <= i < count ==> {
                    &&& (#[trigger] images@[i])@ == materialized(conventions, parts[i], i as nat)
                    &&& parts[i].raw matches Ok(bytes) && contents@[i]@ == bytes@
                },
        decreases found.len() - count,
    {
        let part = found[count];
        let ext = part.guess_ext();
        let mut filename = decimal_chars(count);
        filename.push('.');
        push_str(&mut filename, ext.as_str());
        let bytes = match &part.raw {
            Ok(bytes) => copy_bytes(bytes),
            Err(why) => {
                let e = Mishap::Email(why.clone());
                assert(first_undecodable(parts, count as int, e));
                return Err(e);
            },
        };
        let img = Attachment {
            file_path: from_chars(&filename),
            url_path: conventions.attachment_markdown_url(count, ext.as_str()),
            github_path: conventions.attachment_github_path(count, ext.as_str()),
            mime_type: part.mime(),
        };
        assert(img@ =~= materialized(conventions, parts[count as int], count as nat)) by {
            assert(filename@ =~= decimal(count as nat) + seq!['.'] + part.spec_ext());
        }
        images.push(img);
        contents.push(bytes);
        count = count + 1;
    }
    Ok(Materialized { attachments: images, contents })
}

/// A mailbox of an address header: a routing address and, where the
/// header gives one, a display name.
#[derive(Debug)]
pub struct Contact {
    pub display_name: Option<String>,
    pub addr: String,
}

pub ghost struct ContactView {
    pub display_name: Option<Seq<char>>,
    pub addr: Seq<char>,
}

/// The characters of an optional text.
pub open spec fn opt_text(o: Option<String>) -> Option<Seq<char>> {
    match o {
        Some(s) => Some(s@),
        None => None,
    }
}

impl View for Contact {
    type V = ContactView;

    open spec fn view(&self) -> ContactView {
        ContactView { display_name: opt_text(self.display_name), addr: self.addr@ }
    }
}

impl Contact {
    /// A contact with copies of the given name and address.
    pub fn of(display_name: &Option<String>, addr: &String) -> (r: Contact)
        ensures
            r@ == (ContactView { display_name: opt_text(*display_name), addr: addr@ }),
    {
        let display_name = match display_name {
            Some(name) => Some(name.clone()),
            None => None,
        };
        Contact { display_name, addr: addr.clone() }
    }
}

/// An entry of an address header: one mailbox, or a named group of them.
#[derive(Debug)]
pub enum Correspondent {
    Single(Contact),
    Group(String, Vec<Contact>),
}

pub ghost enum CorrespondentView {
    Single(ContactView),
    Group(Seq<char>, Seq<ContactView>),
}

impl View for Correspondent {
    type V = CorrespondentView;

    open spec fn view(&self) -> CorrespondentView {
        match self {
            Correspondent::Single(c) => CorrespondentView::Single(c@),
            Correspondent::Group(name, members) => CorrespondentView::Group(
                name@,
                Seq::new(members@.len(), |i: int| members@[i]@),
            ),
        }
    }
}

/// The views of `list`, in order.
pub open spec fn entries(list: Seq<Correspondent>) -> Seq<CorrespondentView> {
    Seq::new(list.len(), |i: int| list[i]@)
}

/// The entries that `mailparse` reads from the text of an address header;
/// `None` where it cannot parse the text.
pub uninterp spec fn parsed_addresses(header: Seq<char>) -> Option<Seq<CorrespondentView>>;

/// `mailparse::addrparse`. The contract only names the result; each entry
/// is handed over as it is, a mailbox as `Single` and a group as `Group`,
/// and a parse error is `None`.
#[verifier::external_body]
fn parse_addresses(header: &str) -> (r: Option<Vec<Correspondent>>)
    ensures
        match r {
            Some(list) => parsed_addresses(header@) == Some(entries(list@)),
            None => parsed_addresses(header@) is None,
        },
{
    let list = mailparse::addrparse(header).ok()?;
    Some(list.iter().map(|entry| match entry {
        mailparse::MailAddr::Single(s) => Correspondent::Single(Contact::of(&s.display_name, &s.addr)),
        mailparse::MailAddr::Group(g) => Correspondent::Group(
            g.group_name.clone(),
            g.addrs.iter().map(|s| Contact::of(&s.display_name, &s.addr)).collect(),
        ),
    }).collect())
}

/// The first mailbox of an address list: the first entry where that is a
/// mailbox, the first member of the first entry where that is a group.
pub open spec fn first_contact(list: Seq<CorrespondentView>) -> Option<ContactView> {
    if list.len() == 0 {
        None
    } else {
        match list[0] {
            CorrespondentView::Single(c) => Some(c),
            CorrespondentView::Group(_, members) => if members.len() > 0 {
                Some(members[0])
            } else {
                None
            },
        }
    }
}

/// The first mailbox of an address list.
pub fn first_of(list: &Vec<Correspondent>) -> (r: Option<&Contact>)
    ensures
        match r {
            Some(c) => first_contact(entries(list@)) == Some(c@),
            None => first_contact(entries(list@)) is None,
        },
{
    if list.len() == 0 {
        None
    } else {
        match &list[0] {
            Correspondent::Single(c) => Some(c),
            Correspondent::Group(_, members) => {
                if members.len() > 0 {
                    Some(&members[0])
                } else {
                    None
                }
            },
        }
    }
}

/// The sender that a From header names: its first mailbox. A message
/// without the header, or with one that cannot be parsed, has none.
pub open spec fn sender_in(from: Option<Seq<char>>) -> Option<ContactView> {
    match from {
        Some(header) => match parsed_addresses(header) {
            Some(list) => first_contact(list),
            None => None,
        },
        None => None,
    }
}

fn sender(mail: &Message) -> (r: Option<Contact>)
    ensures
        match r {
            Some(c) => sender_in(mail.from_header()) == Some(c@),
            None => sender_in(mail.from_header()) is None,
        },
{
    match mail.header("From") {
        Some(header) => match parse_addresses(header.as_str()) {
            Some(list) => match first_of(&list) {
                Some(c) => Some(Contact::of(&c.display_name, &c.addr)),
                None => None,
            },
            None => None,
        },
        None => None,
    }
}

/// The name to show for a sender: the display name, else the address, and
/// `Someone` where there is no sender.
pub open spec fn name_for(sender: Option<ContactView>) -> Seq<char> {
    match sender {
        Some(c) => match c.display_name {
            Some(name) => name,
            None => c.addr,
        },
        None => "Someone"@,
    }
}

/// The name to show for a sender.
pub fn pick_name(sender: Option<&Contact>) -> (r: String)
    ensures
        r@ == name_for(
            match sender {
                Some(c) => Some(c@),
                None => None,
            },
        ),
{
    match sender {
        Some(c) => match &c.display_name {
            Some(name) => name.clone(),
            None => c.addr.clone(),
        },
        None => "Someone".to_owned(),
    }
}

/// The name of the sender of a message.
pub fn sender_name(mail: &Message) -> (r: String)
    ensures
        r@ == name_for(sender_in(mail.from_header())),
{
    let found = sender(mail);
    pick_name(found.as_ref())
}

/// The address of a sender, if there is one.
pub open spec fn address_of(sender: Option<ContactView>) -> Option<Seq<char>> {
    match sender {
        Some(c) => Some(c.addr),
        None => None,
    }
}

/// The address of the sender of a message.
pub fn from(mail: &Message) -> (r: Option<String>)
    ensures
        opt_text(r) == address_of(sender_in(mail.from_header())),
{
    match sender(mail) {
        Some(c) => Some(c.addr),
        None => None,
    }
}

/// The domain of an address: what follows its last `@`, or all of it
/// where it holds none.
pub open spec fn domain_of(addr: Seq<char>) -> Seq<char> {
    match after_last(addr, '@') {
        Some(i) => addr.skip(i),
        None => addr,
    }
}

/// Whether the domain of `addr` ends with one of `domains`.
pub open spec fn allows(domains: Seq<String>, addr: Seq<char>) -> bool {
    ends_with_any(domains, domain_of(addr))
}

/// Whether a sender passes the allow-list: an empty list lets every
/// message pass, also one without a sender.
pub open spec fn accepts(domains: Seq<String>, address: Option<Seq<char>>) -> bool {
    domains.len() == 0 || (address matches Some(a) && allows(domains, a))
}

/// Whether `r` is the verdict of the allow-list `domains` on a sender
/// address.
pub open spec fn verdict(
    domains: Seq<String>,
    address: Option<Seq<char>>,
    r: Result<(), Mishap>,
) -> bool {
    if domains.len() == 0 {
        r is Ok
    } else {
        match address {
            None => r matches Err(Mishap::MissingSender),
            Some(a) => if allows(domains, a) {
                r is Ok
            } else {
                r matches Err(Mishap::Unauthorised(who)) && who@ == a
            },
        }
    }
}

/// Whether `domain` ends with one of `domains`.
pub open spec fn ends_with_any(domains: Seq<String>, domain: Seq<char>) -> bool {
    exists|k: int| 0 <= k < domains.len() && ends_with(domain, (#[trigger] domains[k])@)
}

fn matches_any(domains: &Vec<String>, domain: &Vec<char>) -> (r: bool)
    ensures
        r == ends_with_any(domains@, domain@),
{
    let mut k: usize = 0;
    while k < domains.len()
        invariant
            k <= domains.len(),
            forall|j: int| 0 <= j < k ==> !ends_with(domain@, (#[trigger] domains@[j])@),
        decreases domains.len() - k,
    {
        let suffix = to_chars(domains[k].as_str());
        if has_suffix(domain, &suffix) {
            return true;
        }
        k = k + 1;
    }
    false
}

/// Holds a sender address against the allow-list.
pub fn check_sender(allowed_domains: &Vec<String>, address: Option<String>) -> (r: Result<
    (),
    Mishap,
>)
    ensures
        verdict(allowed_domains@, opt_text(address), r),
{
    if allowed_domains.len() == 0 {
        return Ok(());
    }
    match address {
        None => Err(Mishap::MissingSender),
        Some(email) => {
            let chars = to_chars(email.as_str());
            let domain = match find_after_last(&chars, '@') {
                Some(i) => slice(&chars, i, chars.len()),
                None => chars,
            };
            if matches_any(allowed_domains, &domain) {
                Ok(())
            } else {
                Err(Mishap::Unauthorised(email))
            }
        },
    }
}

/// Checks the sender of a message against the configured allow-list.
pub fn validate_sender(settings: &Settings, mail: &Message) -> (r: Result<(), Mishap>)
    ensures
        verdict(settings.allowed_domains@, address_of(sender_in(mail.from_header())), r),
{
    let from_address = from(mail);
    check_sender(&settings.allowed_domains, from_address)
}

/// The moment that `mailparse` reads from the text of a Date header, in
/// seconds since the Unix epoch; `None` where it cannot parse the text.
pub uninterp spec fn parsed_date(text: Seq<char>) -> Option<int>;

/// `mailparse::dateparse`. The contract only names the result; a parse
/// error is `None`.
#[verifier::external_body]
fn parse_date(text: &str) -> (r: Option<i64>)
    ensures
        match r {
            Some(seconds) => parsed_date(text@) == Some(seconds as int),
            None => parsed_date(text@) is None,
        },
{
    mailparse::dateparse(text).ok()
}

/// The date of a message with the given Date header, read at the moment
/// `now`: what the header says, or `now` where it is absent or cannot be
/// parsed.
pub open spec fn date_of(header: Option<Seq<char>>, now: int) -> int {
    match header {
        Some(text) => match parsed_date(text) {
            Some(seconds) => seconds,
            None => now,
        },
        None => now,
    }
}

/// The date to give a post: the parsed date, or `now` without one.
pub fn date_or(parsed: Option<i64>, now: i64) -> (r: i64)
    ensures
        r == match parsed {
            Some(seconds) => seconds,
            None => now,
        },
{
    match parsed {
        Some(seconds) => seconds,
        None => now,
    }
}

/// The date of a message, read at the moment `now`.
pub fn date(mail: &Message, now: i64) -> (r: i64)
    ensures
        r == date_of(mail.date_header(), now as int),
{
    match mail.header("Date") {
        Some(text) => date_or(parse_date(text.as_str()), now),
        None => now,
    }
}

/// The slug that `slug` makes of a title.
pub uninterp spec fn slug_of(title: Seq<char>) -> Seq<char>;

/// Whether `c` may stand in a slug: a lowercase ASCII letter, a digit or
/// a hyphen.
pub open spec fn is_slug_char(c: char) -> bool {
    ('a' <= c && c <= 'z') || ('0' <= c && c <= '9') || c == '-'
}

/// The form of a slug: lowercase ASCII letters and digits joined by
/// single hyphens, with no hyphen at either end.
pub open spec fn is_slug(s: Seq<char>) -> bool {
    &&& forall|i: int| 0 <= i < s.len() ==> is_slug_char(#[trigger] s[i])
    &&& forall|i: int| 0 <= i < s.len() - 1 ==> !(#[trigger] s[i] == '-' && s[i + 1] == '-')
    &&& s.len() > 0 ==> s[0] != '-' && s.last() != '-'
}

/// `slug::slugify`. The contract names the result and states the form
/// that the crate documents for every slug.
#[verifier::external_body]
fn slugify(title: &str) -> (r: String)
    ensures
        r@ == slug_of(title@),
        is_slug(r@),
{
    slug::slugify(title)
}

/// The text that title and tags are read from: the subject where it is
/// not empty, else the body where it holds more than whitespace, else
/// `Untitled`.
pub open spec fn raw_title(subject: Option<Seq<char>>, content: Option<Seq<char>>) -> Seq<char> {
    if subject is Some && subject->0.len() > 0 {
        subject->0
    } else if content is Some && trimmed(content->0).len() > 0 {
        trimmed(content->0)
    } else {
        "Untitled"@
    }
}

/// Picks the text that title and tags are read from.
pub fn pick_title(subject: &Option<String>, content: &Option<String>) -> (r: String)
    ensures
        r@ == raw_title(opt_text(*subject), opt_text(*content)),
{
    if let Some(s) = subject {
        if !s.as_str().is_empty() {
            return s.clone();
        }
    }
    if let Some(c) = content {
        let chars = to_chars(c.as_str());
        let kept = trim(&chars);
        if kept.len() > 0 {
            return from_chars(&kept);
        }
    }
    "Untitled".to_owned()
}

/// The body of a message without its signature block, where the message
/// has a body that can be read.
pub open spec fn content_in(mail: Part) -> Option<Seq<char>> {
    match body_part(mail) {
        Some(p) => match p.text {
            Ok(text) => Some(without_signature(text@)),
            Err(_) => None,
        },
        None => None,
    }
}

/// What is extracted from a message: the post, and for each of its
/// attachments the content to store under the attachment's file name.
#[derive(Debug)]
pub struct Extracted {
    pub post: PostInfo,
    pub contents: Vec<Vec<u8>>,
}

/// Whether the names of a post of the given date can be made from the
/// configured templates.
pub open spec fn settings_nameable(settings: &Settings, date: int) -> bool {
    nameable(
        settings.web_media_path@,
        settings.github_media_path@,
        settings.github_post_path@,
        date,
    )
}

/// Whether `x` is what the message `mail`, read at the moment `now`,
/// yields under the names `names`.
pub open spec fn extracted_as(
    settings: &Settings,
    mail: &Message,
    now: int,
    names: &Filenames,
    x: Extracted,
) -> bool {
    let content = content_in(mail.body);
    let source = raw_title(mail.subject(), content);
    let date = date_of(mail.date_header(), now);
    &&& names.made_from(
        settings.web_media_path@,
        settings.github_media_path@,
        settings.github_post_path@,
        date,
        slug_of(title_of(source)),
    )
    &&& is_slug(slug_of(title_of(source)))
    &&& x.post.title@ == trimmed(title_of(source))
    &&& crate::tag::names(x.post.tags@) == tags_of(source)
    &&& x.post.author@ == trimmed(name_for(sender_in(mail.from_header())))
    &&& opt_text(x.post.content) == match content {
        Some(text) => Some(trimmed(text)),
        None => None,
    }
    &&& x.post.date == date
    &&& x.post.file_path@ == names.spec_post_github_path()
    &&& stored_as(names, attachment_parts(mail.body), x.post.attachments@, x.contents@)
}

/// Whether `r` is the outcome of reading the message `mail` at the moment
/// `now`. A body that cannot be read fails first, then a date outside the
/// calendar, then a path template that cannot take the date, then the
/// first attachment whose content cannot be decoded; otherwise the post is
/// made.
pub open spec fn reads_as(
    settings: &Settings,
    mail: &Message,
    now: int,
    r: Result<Extracted, Mishap>,
) -> bool {
    let unreadable = match body_part(mail.body) {
        Some(p) => match p.text {
            Ok(_) => None,
            Err(why) => Some(why@),
        },
        None => None,
    };
    match unreadable {
        Some(why) => r matches Err(Mishap::Email(cause)) && cause@ == why,
        None => if date_text(day_format(), date_of(mail.date_header(), now)) is None {
            r matches Err(Mishap::EmailField(field)) && field@ == "Date"@
        } else if !settings_nameable(settings, date_of(mail.date_header(), now)) {
            r matches Err(Mishap::Naming)
        } else {
            match r {
                Ok(x) => exists|names: &Filenames| extracted_as(settings, mail, now, names, x),
                Err(e) => exists|i: int| first_undecodable(attachment_parts(mail.body), i, e),
            }
        },
    }
}

/// Makes the post of a message, read at the moment `now`.
pub fn read_post(settings: &Settings, mail: &Message, now: i64) -> (r: Result<Extracted, Mishap>)
    ensures
        reads_as(settings, mail, now as int, r),
{
    let sender: String = sender_name(mail);
    let content: Option<String> = match body(&mail.body) {
        Ok(Some(text)) => Some(remove(text)),
        Ok(None) => None,
        Err(e) => {
            return Err(e);
        },
    };
    let date: i64 = date(mail, now);
    let subject: Option<String> = match mail.header("Subject") {
        Some(text) => Some(text.clone()),
        None => None,
    };
    let raw_title = pick_title(&subject, &content);
    let (title, tags) = detag(raw_title.as_str());
    let slug = slugify(title.as_str());
    let conventions = match Filenames::new(
        settings.web_media_path.as_str(),
        settings.github_media_path.as_str(),
        settings.github_post_path.as_str(),
        date,
        slug.as_str(),
    ) {
        Some(names) => names,
        None => {
            return Err(
                match day_text(date) {
                    Some(_) => Mishap::Naming,
                    None => Mishap::EmailField("Date".to_owned()),
                },
            );
        },
    };
    let stored = match attachments(&conventions, &mail.body) {
        Ok(stored) => stored,
        Err(e) => {
            return Err(e);
        },
    };
    let file_path = conventions.post_github_path();
    let post = PostInfo::new(title, sender, content, date, tags, stored.attachments, file_path);
    let x = Extracted { post, contents: stored.contents };
    assert(extracted_as(settings, mail, now as int, &conventions, x));
    Ok(x)
}

/// Makes the post of a message, read at the moment `now`, once its sender
/// has passed the allow-list.
pub fn extract(settings: &Settings, mail: &Message, now: i64) -> (r: Result<Extracted, Mishap>)
    ensures
        if accepts(settings.allowed_domains@, address_of(sender_in(mail.from_header()))) {
            reads_as(settings, mail, now as int, r)
        } else {
            r matches Err(e) && verdict(
                settings.allowed_domains@,
                address_of(sender_in(mail.from_header())),
                Err(e),
            )
        },
{
    match validate_sender(settings, mail) {
        Ok(()) => read_post(settings, mail, now),
        Err(e) => Err(e),
    }
}

/// From discovery to the normalised post the attachments keep their
/// number and their order: the attachment at each index is what the part
/// discovered at that index becomes.
pub proof fn lemma_attachment_order(
    names: &Filenames,
    parts: Seq<Part>,
    atts: Seq<Attachment>,
    contents: Seq<Vec<u8>>,
    i: int,
)
    requires
        stored_as(names, parts, atts, contents),
        0 <= i < parts.len(),
    ensures
        atts.len() == parts.len(),
        each_transcoded(views_of(atts)).len() == parts.len(),
        views_of(atts)[i] == materialized(names, parts[i], i as nat),
        each_transcoded(views_of(atts))[i] == transcoded(materialized(names, parts[i], i as nat)),
{
}

} // verus!
