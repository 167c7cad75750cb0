//! Blogger posts and the pass that uploads the images of a post to Sanity:
//! a state machine that says which image to fetch next, under which name to
//! upload it, and when to stop, from what the fetches and uploads answered.
use vstd::prelude::*;
use vstd::string::*;

use crate::html::{ElementData, HtmlElement, document_select, select_in_document};
use crate::sanity::{file_name_spec, sanity_file_name, title_part_spec};
use crate::text::last_piece;

verus! {

pub struct BloggerReplies {
    pub total_items: String,
    pub self_link: String,
}

pub struct BloggerImage {
    pub url: String,
}

pub struct BloggerAuthor {
    pub id: String,
    pub display_name: String,
    pub url: String,
    pub image: BloggerImage,
}

pub struct BloggerBlogId {
    pub id: String,
}

/// A post of a Blogger blog.
pub struct BloggerPost {
    pub kind: String,
    pub id: String,
    pub blog: BloggerBlogId,
    pub published: String,
    pub updated: String,
    pub url: String,
    pub self_link: String,
    pub title: String,
    pub content: String,
    pub author: BloggerAuthor,
    pub replies: BloggerReplies,
}

/// A page of the post list of a blog.
pub struct BloggerPostRes {
    pub kind: String,
    pub items: Vec<BloggerPost>,
}

/// The URL of the post list of the blog `blog_id`, up to 500 posts.
pub open spec fn posts_url_spec(blog_id: Seq<char>, api_key: Seq<char>) -> Seq<char> {
    "https://www.googleapis.com/blogger/v3/blogs/"@ + blog_id + "/posts?key="@ + api_key
        + "&maxResults=500"@
}

/// The URL of the post list of the blog `blog_id`, up to 500 posts.
pub fn posts_url(blog_id: &str, api_key: &str) -> (res: String)
    ensures
        res@ == posts_url_spec(blog_id@, api_key@),
{
    let mut url = String::from_str("https://www.googleapis.com/blogger/v3/blogs/");
    url.append(blog_id);
    url.append("/posts?key=");
    url.append(api_key);
    url.append("&maxResults=500");
    url
}

/// The source of an image element: its `src` attribute, or "unknown".
pub open spec fn source_of(e: ElementData) -> Seq<char> {
    match e.2 {
        Some(src) => src,
        None => "unknown"@,
    }
}

pub open spec fn sources_spec(images: Seq<ElementData>) -> Seq<Seq<char>> {
    images.map_values(|e: ElementData| source_of(e))
}

/// The sources of the matched `img` elements, in document order, "unknown"
/// for one without a `src` attribute.
pub fn image_sources(images: &Vec<HtmlElement>) -> (res: Vec<String>)
    ensures
        res@.map_values(|t: String| t@) == sources_spec(crate::html::elements_view(images@)),
        res@.len() == images@.len(),
        forall|k: int|
            0 <= k < images@.len() ==> #[trigger] res@[k]@ == match images@[k].attr {
                Some(a) => a@,
                None => "unknown"@,
            },
{
    let mut out: Vec<String> = Vec::new();
    let mut i: usize = 0;
    while i < images.len()
        invariant
            i <= images.len(),
            out@.map_values(|t: String| t@) == sources_spec(
                crate::html::elements_view(images@),
            ).take(i as int),
        decreases images.len() - i,
    {
        assert(crate::html::elements_view(images@)[i as int] == images@[i as int]@);
        let src = match &images[i].attr {
            Some(a) => a.clone(),
            None => String::from_str("unknown"),
        };
        let ghost before = out@;
        out.push(src);
        assert(out@.map_values(|t: String| t@) =~= before.map_values(|t: String| t@).push(src@));
        i += 1;
        assert(out@.map_values(|t: String| t@) =~= sources_spec(
            crate::html::elements_view(images@),
        ).take(i as int));
    }
    assert(sources_spec(crate::html::elements_view(images@)).take(i as int) =~= sources_spec(
        crate::html::elements_view(images@),
    ));
    assert forall|k: int| 0 <= k < images@.len() implies #[trigger] out@[k]@ == match images@[k].attr {
        Some(a) => a@,
        None => "unknown"@,
    } by {
        assert(out@.map_values(|t: String| t@)[k] == out@[k]@);
        assert(crate::html::elements_view(images@)[k] == images@[k]@);
    }
    out
}

/// What the pass waits for.
#[derive(PartialEq, Eq, Structural, Debug, Clone, Copy)]
pub enum Pending {
    /// The fetch of the image at this position.
    Fetch(usize),
    /// The upload of the image at this position.
    Upload(usize),
    /// Nothing: the pass is over.
    Done,
    /// Nothing: an upload got this unexpected status and the pass gave up.
    Aborted(u16),
}

/// What the fetch or the upload that the pass waits for answered.
pub enum ImageEvent {
    /// The image could not be fetched.
    FetchFailed,
    /// The image was fetched, with this `Content-Type` header, if any.
    Fetched { content_type: Option<String> },
    /// The upload was answered with this HTTP status.
    Uploaded { status: u16 },
}

/// What to do next.
pub enum ImageCommand {
    /// Fetch the image at `source`.
    Fetch { source: String },
    /// Upload the image just fetched under `file_name`.
    Upload { file_name: String },
    /// The pass is over.
    Finish,
    /// The pass gave up: an upload was answered with `status`.
    Abort { status: u16 },
}

/// What the answer just handled is to be reported as.
#[derive(PartialEq, Eq, Structural, Debug, Clone, Copy)]
pub enum ImageNote {
    Nothing,
    /// The image at the position could not be fetched.
    FetchFailed(usize),
    /// The image at the position came without a content type; the pass stops.
    MissingContentType(usize),
    /// The upload succeeded (200).
    Uploaded,
    /// The upload was refused as a bad request (400).
    Rejected,
}

pub enum EventView {
    FetchFailed,
    Fetched(Option<Seq<char>>),
    Uploaded(u16),
}

pub enum CommandView {
    Fetch(Seq<char>),
    Upload(Seq<char>),
    Finish,
    Abort(u16),
}

impl View for ImageEvent {
    type V = EventView;

    open spec fn view(&self) -> EventView {
        match self {
            ImageEvent::FetchFailed => EventView::FetchFailed,
            ImageEvent::Fetched { content_type } => EventView::Fetched(
                crate::html::opt_string_view(*content_type),
            ),
            ImageEvent::Uploaded { status } => EventView::Uploaded(*status),
        }
    }
}

impl View for ImageCommand {
    type V = CommandView;

    open spec fn view(&self) -> CommandView {
        match self {
            ImageCommand::Fetch { source } => CommandView::Fetch(source@),
            ImageCommand::Upload { file_name } => CommandView::Upload(file_name@),
            ImageCommand::Finish => CommandView::Finish,
            ImageCommand::Abort { status } => CommandView::Abort(*status),
        }
    }
}

/// The pass that uploads the images of one post, one after the other.
pub struct ImagePass {
    title: String,
    sources: Vec<String>,
    pending: Pending,
    upload_name: String,
}

/// The abstract state of a pass.
pub struct PassView {
    pub title: Seq<char>,
    pub sources: Seq<Seq<char>>,
    pub pending: Pending,
    /// The file name of the upload that the pass waits for, or last waited for.
    pub upload_name: Seq<char>,
}

impl View for ImagePass {
    type V = PassView;

    closed spec fn view(&self) -> PassView {
        PassView {
            title: self.title@,
            sources: self.sources@.map_values(|t: String| t@),
            pending: self.pending,
            upload_name: self.upload_name@,
        }
    }
}

/// A state whose position, if any, names one of the sources.
pub open spec fn pass_wf(p: PassView) -> bool {
    &&& p.sources.len() <= usize::MAX
    &&& match p.pending {
        Pending::Fetch(i) => i < p.sources.len(),
        Pending::Upload(i) => i < p.sources.len(),
        _ => true,
    }
}

/// What the pass waits for once the images before position `i` are dealt
/// with: the fetch of image `i`, or nothing when there is none.
pub open spec fn fetch_from(sources: Seq<Seq<char>>, i: int) -> Pending {
    if 0 <= i < sources.len() {
        Pending::Fetch(i as usize)
    } else {
        Pending::Done
    }
}

/// The state after `event` answers what the pass waits for. An event that
/// does not answer it changes nothing.
pub open spec fn next_pending(p: PassView, event: EventView) -> Pending {
    match (p.pending, event) {
        (Pending::Fetch(i), EventView::FetchFailed) => fetch_from(p.sources, i + 1),
        (Pending::Fetch(i), EventView::Fetched(None)) => Pending::Done,
        (Pending::Fetch(i), EventView::Fetched(Some(ct))) => Pending::Upload(i),
        (Pending::Upload(i), EventView::Uploaded(status)) => if status == 200 || status == 400 {
            fetch_from(p.sources, i + 1)
        } else {
            Pending::Aborted(status)
        },
        _ => p.pending,
    }
}

/// The note on the answer `event`.
pub open spec fn note_of(p: PassView, event: EventView) -> ImageNote {
    match (p.pending, event) {
        (Pending::Fetch(i), EventView::FetchFailed) => ImageNote::FetchFailed(i),
        (Pending::Fetch(i), EventView::Fetched(None)) => ImageNote::MissingContentType(i),
        (Pending::Upload(i), EventView::Uploaded(status)) => if status == 200 {
            ImageNote::Uploaded
        } else if status == 400 {
            ImageNote::Rejected
        } else {
            ImageNote::Nothing
        },
        _ => ImageNote::Nothing,
    }
}

/// The file name of the upload after `event`: the name built from the post
/// title, the source of the image and its content type, once an image is
/// fetched with a content type.
pub open spec fn next_upload_name(p: PassView, event: EventView) -> Seq<char> {
    match (p.pending, event) {
        (Pending::Fetch(i), EventView::Fetched(Some(ct))) => file_name_spec(
            p.title,
            p.sources[i as int],
            ct,
        ),
        _ => p.upload_name,
    }
}

/// The state of the pass after `event`.
pub open spec fn next_state(p: PassView, event: EventView) -> PassView {
    PassView {
        title: p.title,
        sources: p.sources,
        pending: next_pending(p, event),
        upload_name: next_upload_name(p, event),
    }
}

/// The command that the pass issues in the state `p`.
pub open spec fn command_of(p: PassView) -> CommandView {
    match p.pending {
        Pending::Fetch(i) => CommandView::Fetch(p.sources[i as int]),
        Pending::Upload(_) => CommandView::Upload(p.upload_name),
        Pending::Done => CommandView::Finish,
        Pending::Aborted(status) => CommandView::Abort(status),
    }
}

/// How far a pass has come: it grows with every answer that the pass
/// handles, and is largest once the pass is over.
pub open spec fn progress(p: PassView) -> int {
    match p.pending {
        Pending::Fetch(i) => 2 * i,
        Pending::Upload(i) => 2 * i + 1,
        Pending::Done => 2 * p.sources.len() as int,
        Pending::Aborted(_) => 2 * p.sources.len() as int,
    }
}

/// Whether `event` answers what the pass waits for.
pub open spec fn answers(p: PassView, event: EventView) -> bool {
    match (p.pending, event) {
        (Pending::Fetch(_), EventView::FetchFailed) => true,
        (Pending::Fetch(_), EventView::Fetched(_)) => true,
        (Pending::Upload(_), EventView::Uploaded(_)) => true,
        _ => false,
    }
}

impl ImagePass {
    #[verifier::type_invariant]
    spec fn well_formed(self) -> bool {
        pass_wf(self@)
    }

    /// The pass over the images at `sources`, of the post titled `title`:
    /// it starts with the fetch of the first image.
    pub fn new(title: String, sources: Vec<String>) -> (res: ImagePass)
        ensures
            res@.title == title@,
            res@.sources == sources@.map_values(|t: String| t@),
            res@.pending == fetch_from(res@.sources, 0),
            res@.upload_name == Seq::<char>::empty(),
            pass_wf(res@),
    {
        let pending = if sources.len() > 0 {
            Pending::Fetch(0)
        } else {
            Pending::Done
        };
        ImagePass { title, sources, pending, upload_name: String::new() }
    }

    /// What the pass waits for.
    pub fn pending(&self) -> (res: Pending)
        ensures
            res == self@.pending,
    {
        self.pending
    }

    /// The command that the pass issues while it waits: the fetch or the
    /// upload it waits for, or the end of the pass.
    pub fn pending_command(&self) -> (res: ImageCommand)
        ensures
            res@ == command_of(self@),
    {
        proof {
            use_type_invariant(self);
        }
        match self.pending {
            Pending::Fetch(i) => {
                assert(self.sources@.map_values(|t: String| t@)[i as int] == self.sources@[i as int]@);
                ImageCommand::Fetch { source: self.sources[i].clone() }
            },
            Pending::Upload(_) => ImageCommand::Upload { file_name: self.upload_name.clone() },
            Pending::Done => ImageCommand::Finish,
            Pending::Aborted(status) => ImageCommand::Abort { status },
        }
    }

    /// Handles the answer `event` to what the pass waits for, and says what
    /// to report and what to do next.
    ///
    /// A failed fetch moves on to the next image; a fetched image without a
    /// content type stops the pass; one with a content type is uploaded
    /// under the file name built from the post title, its source and its
    /// content type; an upload answered 200 or 400 moves on to the next
    /// image; any other status ends the pass with an abort. An event that
    /// does not answer what the pass waits for changes nothing.
    pub fn step(&mut self, event: ImageEvent) -> (res: (ImageNote, ImageCommand))
        ensures
            final(self)@ == next_state(old(self)@, event@),
            res.0 == note_of(old(self)@, event@),
            res.1@ == command_of(final(self)@),
            answers(old(self)@, event@) ==> progress(final(self)@) > progress(old(self)@),
            !answers(old(self)@, event@) ==> final(self)@ == old(self)@,
            progress(final(self)@) <= 2 * final(self)@.sources.len(),
            final(self)@.title == old(self)@.title,
            final(self)@.sources == old(self)@.sources,
            (old(self)@.pending, event@) matches (Pending::Fetch(i), EventView::FetchFailed) ==> {
                &&& res.0 == ImageNote::FetchFailed(i)
                &&& i + 1 < old(self)@.sources.len() ==> final(self)@.pending == Pending::Fetch(
                    (i + 1) as usize,
                )
                &&& i + 1 >= old(self)@.sources.len() ==> final(self)@.pending == Pending::Done
            },
            (old(self)@.pending, event@) matches (Pending::Fetch(i), EventView::Fetched(None)) ==> {
                &&& res.0 == ImageNote::MissingContentType(i)
                &&& final(self)@.pending == Pending::Done
                &&& res.1 is Finish
            },
            (old(self)@.pending, event@) matches (Pending::Fetch(i), EventView::Fetched(Some(ct)))
                ==> {
                &&& final(self)@.pending == Pending::Upload(i)
                &&& final(self)@.upload_name == title_part_spec(old(self)@.title) + "-"@ + last_piece(
                    old(self)@.sources[i as int],
                    '/',
                ) + "."@ + last_piece(ct, '/')
                &&& res.1@ == CommandView::Upload(final(self)@.upload_name)
            },
            (old(self)@.pending, event@) matches (Pending::Upload(i), EventView::Uploaded(status))
                ==> {
                &&& status == 200 ==> res.0 == ImageNote::Uploaded
                &&& status == 400 ==> res.0 == ImageNote::Rejected
                &&& (status == 200 || status == 400) && i + 1 < old(self)@.sources.len()
                    ==> final(self)@.pending == Pending::Fetch((i + 1) as usize)
                &&& (status == 200 || status == 400) && i + 1 >= old(self)@.sources.len()
                    ==> final(self)@.pending == Pending::Done
                &&& status != 200 && status != 400 ==> final(self)@.pending == Pending::Aborted(
                    status,
                ) && res.1@ == CommandView::Abort(status)
            },
    {
        proof {
            use_type_invariant(&*self);
        }
        let ghost sv = self.sources@.map_values(|t: String| t@);
        assert(sv.len() == self.sources@.len());
        let (note, next) = match (self.pending, &event) {
            (Pending::Fetch(i), ImageEvent::FetchFailed) => {
                assert(self@.pending == Pending::Fetch(i));
                assert(i < self.sources.len());
                let next = if i + 1 < self.sources.len() {
                    Pending::Fetch(i + 1)
                } else {
                    Pending::Done
                };
                (ImageNote::FetchFailed(i), next)
            },
            (Pending::Fetch(i), ImageEvent::Fetched { content_type }) => {
                match content_type {
                    None => (ImageNote::MissingContentType(i), Pending::Done),
                    Some(ct) => {
                        assert(sv[i as int] == self.sources@[i as int]@);
                        let name = sanity_file_name(
                            self.title.as_str(),
                            self.sources[i].as_str(),
                            ct.as_str(),
                        );
                        self.upload_name = name;
                        (ImageNote::Nothing, Pending::Upload(i))
                    },
                }
            },
            (Pending::Upload(i), ImageEvent::Uploaded { status }) => {
                let status = *status;
                assert(self@.pending == Pending::Upload(i));
                assert(i < self.sources.len());
                if status == 200 || status == 400 {
                    let next = if i + 1 < self.sources.len() {
                        Pending::Fetch(i + 1)
                    } else {
                        Pending::Done
                    };
                    let note = if status == 200 {
                        ImageNote::Uploaded
                    } else {
                        ImageNote::Rejected
                    };
                    (note, next)
                } else {
                    (ImageNote::Nothing, Pending::Aborted(status))
                }
            },
            _ => (ImageNote::Nothing, self.pending),
        };
        self.pending = next;
        let command = match next {
            Pending::Fetch(i) => {
                assert(sv[i as int] == self.sources@[i as int]@);
                ImageCommand::Fetch { source: self.sources[i].clone() }
            },
            Pending::Upload(_) => ImageCommand::Upload { file_name: self.upload_name.clone() },
            Pending::Done => ImageCommand::Finish,
            Pending::Aborted(status) => ImageCommand::Abort { status },
        };
        (note, command)
    }
}

/// The image sources of a post's content: the `src` of every `img`
/// element, in document order ("unknown" for one without it).
pub open spec fn pass_sources_spec(content: Seq<char>) -> Seq<Seq<char>> {
    sources_spec(document_select(content, "img"@, "src"@)->0)
}

/// The state of a pass after the events `events`, one after the other.
pub open spec fn run_pass(p: PassView, events: Seq<EventView>) -> PassView
    decreases events.len(),
{
    if events.len() == 0 {
        p
    } else {
        run_pass(next_state(p, events[0]), events.drop_first())
    }
}

/// Whether each of `events` answers what the pass waits for when it comes.
pub open spec fn all_answered(p: PassView, events: Seq<EventView>) -> bool
    decreases events.len(),
{
    if events.len() == 0 {
        true
    } else {
        answers(p, events[0]) && all_answered(next_state(p, events[0]), events.drop_first())
    }
}

/// Whether the pass is over.
pub open spec fn is_over(p: PassView) -> bool {
    p.pending is Done || p.pending is Aborted
}

/// A well-formed pass has made at most `2 * n` progress over `n` images,
/// and exactly that much once it is over.
pub proof fn lemma_progress_bound(p: PassView)
    requires
        pass_wf(p),
    ensures
        0 <= progress(p) <= 2 * p.sources.len(),
        progress(p) == 2 * p.sources.len() <==> is_over(p),
{
}

/// An answer keeps a pass well formed and its images unchanged, and makes
/// it progress.
pub proof fn lemma_answer_progresses(p: PassView, e: EventView)
    requires
        pass_wf(p),
        answers(p, e),
    ensures
        pass_wf(next_state(p, e)),
        next_state(p, e).sources == p.sources,
        next_state(p, e).title == p.title,
        progress(next_state(p, e)) > progress(p),
{
}

/// A pass over `n` images handles at most `2 * n` answers before it is
/// over: every answer makes it progress, and its progress never passes
/// `2 * n`.
pub proof fn lemma_pass_ends(p: PassView, events: Seq<EventView>)
    requires
        pass_wf(p),
        all_answered(p, events),
    ensures
        pass_wf(run_pass(p, events)),
        run_pass(p, events).sources == p.sources,
        progress(p) + events.len() <= progress(run_pass(p, events)),
        events.len() <= 2 * p.sources.len() - progress(p),
        events.len() == 2 * p.sources.len() - progress(p) ==> is_over(run_pass(p, events)),
    decreases events.len(),
{
    lemma_progress_bound(p);
    if events.len() > 0 {
        lemma_answer_progresses(p, events[0]);
        lemma_pass_ends(next_state(p, events[0]), events.drop_first());
    }
    lemma_progress_bound(run_pass(p, events));
}

/// The first image that the pass has not fetched yet.
pub open spec fn next_unfetched(p: PassView) -> int {
    match p.pending {
        Pending::Fetch(i) => i as int,
        Pending::Upload(i) => i + 1,
        Pending::Done => p.sources.len() as int,
        Pending::Aborted(_) => p.sources.len() as int,
    }
}

/// The positions of the images fetched over `events`: the image whose fetch
/// each event answers, in order.
pub open spec fn fetched(p: PassView, events: Seq<EventView>) -> Seq<int>
    decreases events.len(),
{
    if events.len() == 0 {
        Seq::empty()
    } else {
        let rest = fetched(next_state(p, events[0]), events.drop_first());
        match p.pending {
            Pending::Fetch(i) => seq![i as int] + rest,
            _ => rest,
        }
    }
}

/// The positions of the images fetched over `events` with a content type.
pub open spec fn fetched_with_type(p: PassView, events: Seq<EventView>) -> Seq<int>
    decreases events.len(),
{
    if events.len() == 0 {
        Seq::empty()
    } else {
        let rest = fetched_with_type(next_state(p, events[0]), events.drop_first());
        match (p.pending, events[0]) {
            (Pending::Fetch(i), EventView::Fetched(Some(_))) => seq![i as int] + rest,
            _ => rest,
        }
    }
}

/// The positions of the images whose upload is answered over `events`.
pub open spec fn uploaded(p: PassView, events: Seq<EventView>) -> Seq<int>
    decreases events.len(),
{
    if events.len() == 0 {
        Seq::empty()
    } else {
        let rest = uploaded(next_state(p, events[0]), events.drop_first());
        match p.pending {
            Pending::Upload(i) => seq![i as int] + rest,
            _ => rest,
        }
    }
}

/// The image whose upload the pass waits for, if any.
pub open spec fn pending_upload(p: PassView) -> Seq<int> {
    match p.pending {
        Pending::Upload(i) => seq![i as int],
        _ => Seq::empty(),
    }
}

/// The lowest position that an upload answered from `p` on can have.
pub open spec fn upload_floor(p: PassView) -> int {
    match p.pending {
        Pending::Upload(i) => i as int,
        _ => next_unfetched(p),
    }
}

/// The pass fetches its images in order, one after the other, each once,
/// from the first it has not fetched: the `k`-th fetch is of the image at
/// `next_unfetched(p) + k`. From a new pass, the fetches are of the images
/// `0, 1, 2, ...`, and the fetch command for image `i` names `sources[i]`.
pub proof fn lemma_fetches_in_order(p: PassView, events: Seq<EventView>)
    requires
        pass_wf(p),
        all_answered(p, events),
    ensures
        forall|k: int| 0 <= k < fetched(p, events).len() ==> #[trigger] fetched(p, events)[k]
            == next_unfetched(p) + k,
        next_unfetched(p) + fetched(p, events).len() <= p.sources.len(),
    decreases events.len(),
{
    if events.len() > 0 {
        let q = next_state(p, events[0]);
        lemma_answer_progresses(p, events[0]);
        lemma_fetches_in_order(q, events.drop_first());
        let rest = fetched(q, events.drop_first());
        if rest.len() > 0 {
            assert(!is_over(q));
        }
        match p.pending {
            Pending::Fetch(i) => {
                assert(fetched(p, events) == seq![i as int] + rest);
                assert(rest.len() > 0 ==> next_unfetched(q) == i + 1);
                assert forall|k: int| 0 <= k < fetched(p, events).len() implies #[trigger] fetched(
                    p,
                    events,
                )[k] == next_unfetched(p) + k by {
                    if k > 0 {
                        assert(fetched(p, events)[k] == rest[k - 1]);
                    }
                }
            },
            _ => {
                assert(fetched(p, events) == rest);
            },
        }
    }
}

/// What answered each fetch over `events`, in the order of `fetched`.
pub open spec fn fetch_answers(p: PassView, events: Seq<EventView>) -> Seq<EventView>
    decreases events.len(),
{
    if events.len() == 0 {
        Seq::empty()
    } else {
        let rest = fetch_answers(next_state(p, events[0]), events.drop_first());
        match p.pending {
            Pending::Fetch(_) => seq![events[0]] + rest,
            _ => rest,
        }
    }
}

/// A pass stops fetching before its last image only at a fetch that came
/// back without a content type (or at an unexpected upload status): every
/// fetch but the last came back otherwise, and a pass that is done with
/// images left unfetched ended at such a fetch.
proof fn lemma_fetches_stop_at_missing_type(p: PassView, events: Seq<EventView>)
    requires
        pass_wf(p),
        all_answered(p, events),
    ensures
        fetch_answers(p, events).len() == fetched(p, events).len(),
        forall|k: int|
            0 <= k < fetch_answers(p, events).len() - 1 ==> #[trigger] fetch_answers(p, events)[k]
                != EventView::Fetched(None),
        run_pass(p, events).pending is Done && next_unfetched(p) + fetched(p, events).len()
            < p.sources.len() ==> fetched(p, events).len() > 0 && fetch_answers(p, events).last()
            == EventView::Fetched(None),
    decreases events.len(),
{
    if events.len() > 0 {
        let e = events[0];
        let q = next_state(p, e);
        let rest = events.drop_first();
        lemma_answer_progresses(p, e);
        lemma_fetches_stop_at_missing_type(q, rest);
        assert(all_answered(q, rest));
        if is_over(q) && rest.len() > 0 {
            assert(!answers(q, rest[0]));
        }
        assert(run_pass(p, events) == run_pass(q, rest));
        let fa = fetch_answers(q, rest);
        match p.pending {
            Pending::Fetch(i) => {
                assert(fetch_answers(p, events) == seq![e] + fa);
                assert(fetched(p, events) == seq![i as int] + fetched(q, rest));
                if e == EventView::Fetched(None) {
                    assert(rest.len() == 0);
                    assert(fa =~= Seq::<EventView>::empty());
                }
                assert forall|k: int|
                    0 <= k < fetch_answers(p, events).len() - 1 implies #[trigger] fetch_answers(
                    p,
                    events,
                )[k] != EventView::Fetched(None) by {
                    if k > 0 {
                        assert(fetch_answers(p, events)[k] == fa[k - 1]);
                    }
                }
                if fa.len() > 0 {
                    assert(fetch_answers(p, events).last() == fa.last());
                }
            },
            _ => {
                assert(fetch_answers(p, events) == fa);
                assert(fetched(p, events) == fetched(q, rest));
            },
        }
    }
}

/// The fetches of a new pass over `n` images: images `0, 1, 2, ...`, in
/// order, one fetch each, at most `n`; every fetch but the last came back
/// with a content type or failed; and a pass that is done having fetched
/// fewer than `n` images stopped at a fetch without a content type.
pub proof fn lemma_new_pass_fetches(p: PassView, events: Seq<EventView>)
    requires
        pass_wf(p),
        p.pending == fetch_from(p.sources, 0),
        all_answered(p, events),
    ensures
        forall|k: int| 0 <= k < fetched(p, events).len() ==> #[trigger] fetched(p, events)[k] == k,
        fetched(p, events).len() <= p.sources.len(),
        forall|k: int|
            0 <= k < fetch_answers(p, events).len() - 1 ==> #[trigger] fetch_answers(p, events)[k]
                != EventView::Fetched(None),
        run_pass(p, events).pending is Done && fetched(p, events).len() < p.sources.len()
            ==> fetched(p, events).len() > 0 && fetch_answers(p, events).last()
            == EventView::Fetched(None),
{
    lemma_fetches_in_order(p, events);
    lemma_fetches_stop_at_missing_type(p, events);
    assert(next_unfetched(p) == 0);
}

/// A fetched image without a content type ends the pass: no answer comes
/// after it.
pub proof fn lemma_missing_type_ends(p: PassView, events: Seq<EventView>)
    requires
        pass_wf(p),
        p.pending is Fetch,
        all_answered(p, events),
        events.len() > 0,
        events[0] == EventView::Fetched(None),
    ensures
        is_over(next_state(p, events[0])),
        events.len() == 1,
        fetched(p, events) == seq![p.pending->Fetch_0 as int],
{
    let q = next_state(p, events[0]);
    if events.len() > 1 {
        assert(all_answered(q, events.drop_first()));
        assert(!answers(q, events.drop_first()[0]));
    }
    assert(events.drop_first().len() == 0);
    assert(fetched(q, events.drop_first()) =~= Seq::<int>::empty());
    assert(fetched(p, events) =~= seq![p.pending->Fetch_0 as int]);
}

/// Every image fetched with a content type is uploaded, and nothing else
/// is: the uploads answered are the fetches with a content type, bar the
/// upload still awaited at the end (and with the one awaited at the start).
pub proof fn lemma_uploads_follow_typed_fetches(p: PassView, events: Seq<EventView>)
    requires
        pass_wf(p),
        all_answered(p, events),
    ensures
        pending_upload(p) + fetched_with_type(p, events) == uploaded(p, events) + pending_upload(
            run_pass(p, events),
        ),
    decreases events.len(),
{
    if events.len() == 0 {
        assert(pending_upload(p) + Seq::<int>::empty() =~= Seq::<int>::empty() + pending_upload(
            p,
        ));
    } else {
        let e = events[0];
        let q = next_state(p, e);
        lemma_answer_progresses(p, e);
        lemma_uploads_follow_typed_fetches(q, events.drop_first());
        let t = fetched_with_type(q, events.drop_first());
        let u = uploaded(q, events.drop_first());
        let last = pending_upload(run_pass(q, events.drop_first()));
        assert(run_pass(p, events) == run_pass(q, events.drop_first()));
        match (p.pending, e) {
            (Pending::Upload(i), _) => {
                assert(pending_upload(q) =~= Seq::<int>::empty());
                assert(fetched_with_type(p, events) == t);
                assert(uploaded(p, events) == seq![i as int] + u);
                assert(pending_upload(p) + t =~= seq![i as int] + (Seq::<int>::empty() + t));
                assert(uploaded(p, events) + last =~= seq![i as int] + (u + last));
            },
            (Pending::Fetch(i), EventView::Fetched(Some(_))) => {
                assert(pending_upload(q) =~= seq![i as int]);
                assert(fetched_with_type(p, events) == seq![i as int] + t);
                assert(uploaded(p, events) == u);
                assert(pending_upload(p) + (seq![i as int] + t) =~= seq![i as int] + t);
            },
            _ => {
                assert(pending_upload(q) =~= Seq::<int>::empty());
                assert(pending_upload(p) =~= Seq::<int>::empty());
                assert(fetched_with_type(p, events) == t);
                assert(uploaded(p, events) == u);
                assert(Seq::<int>::empty() + t =~= t);
            },
        }
    }
}

/// The uploads follow the order of the images, at most one per image.
pub proof fn lemma_uploads_in_order(p: PassView, events: Seq<EventView>)
    requires
        pass_wf(p),
        all_answered(p, events),
    ensures
        forall|k: int|
            0 <= k < uploaded(p, events).len() ==> upload_floor(p) <= #[trigger] uploaded(
                p,
                events,
            )[k] < p.sources.len(),
        forall|k: int, l: int|
            0 <= k < l < uploaded(p, events).len() ==> #[trigger] uploaded(p, events)[k]
                < #[trigger] uploaded(p, events)[l],
    decreases events.len(),
{
    if events.len() > 0 {
        let e = events[0];
        let q = next_state(p, e);
        lemma_answer_progresses(p, e);
        lemma_uploads_in_order(q, events.drop_first());
        let u = uploaded(q, events.drop_first());
        assert(all_answered(q, events.drop_first()));
        if is_over(q) && events.drop_first().len() > 0 {
            assert(!answers(q, events.drop_first()[0]));
        }
        if u.len() > 0 {
            assert(events.drop_first().len() > 0);
            assert(!is_over(q));
        }
        match p.pending {
            Pending::Upload(i) => {
                assert(uploaded(p, events) == seq![i as int] + u);
                assert(u.len() > 0 ==> upload_floor(q) == i + 1);
                assert forall|k: int|
                    0 <= k < uploaded(p, events).len() implies upload_floor(p) <= #[trigger] uploaded(
                    p,
                    events,
                )[k] < p.sources.len() by {
                    if k > 0 {
                        assert(uploaded(p, events)[k] == u[k - 1]);
                    }
                }
                assert forall|k: int, l: int|
                    0 <= k < l < uploaded(p, events).len() implies #[trigger] uploaded(
                    p,
                    events,
                )[k] < #[trigger] uploaded(p, events)[l] by {
                    assert(uploaded(p, events)[l] == u[l - 1]);
                    if k > 0 {
                        assert(uploaded(p, events)[k] == u[k - 1]);
                    }
                }
            },
            _ => {
                assert(uploaded(p, events) == u);
                assert(u.len() > 0 ==> upload_floor(q) >= upload_floor(p));
            },
        }
    }
}

proof fn lemma_run_keeps(p: PassView, events: Seq<EventView>)
    ensures
        run_pass(p, events).title == p.title,
        run_pass(p, events).sources == p.sources,
    decreases events.len(),
{
    if events.len() > 0 {
        lemma_run_keeps(next_state(p, events[0]), events.drop_first());
    }
}

proof fn lemma_run_push(p: PassView, events: Seq<EventView>, e: EventView)
    ensures
        run_pass(p, events.push(e)) == next_state(run_pass(p, events), e),
    decreases events.len(),
{
    if events.len() == 0 {
        assert(events.push(e)[0] == e);
        assert(events.push(e).drop_first() =~= Seq::<EventView>::empty());
        assert(run_pass(p, events) == p);
        assert(run_pass(next_state(p, e), Seq::<EventView>::empty()) == next_state(p, e));
    } else {
        assert(events.push(e)[0] == events[0]);
        assert(events.push(e).drop_first() =~= events.drop_first().push(e));
        lemma_run_push(next_state(p, events[0]), events.drop_first(), e);
    }
}

/// Every image fetched with a content type is uploaded under the name made
/// of the post title, the image's source and that content type: after the
/// `k`-th event, if it is such a fetch of image `i`, the command is that
/// upload.
pub proof fn lemma_upload_names(p: PassView, events: Seq<EventView>, k: int, ct: Seq<char>)
    requires
        0 <= k < events.len(),
        run_pass(p, events.take(k)).pending is Fetch,
        events[k] == EventView::Fetched(Some(ct)),
    ensures
        command_of(run_pass(p, events.take(k + 1))) == CommandView::Upload(
            file_name_spec(
                p.title,
                p.sources[run_pass(p, events.take(k)).pending->Fetch_0 as int],
                ct,
            ),
        ),
{
    assert(events.take(k + 1) =~= events.take(k).push(events[k]));
    lemma_run_push(p, events.take(k), events[k]);
    lemma_run_keeps(p, events.take(k));
}

impl BloggerPost {
    /// The pass that uploads the images of this post: over the `src` of every
    /// `img` element of its content, in document order ("unknown" for an
    /// element without one), starting with the fetch of the first.
    pub fn post_images_to_sanity(&self) -> (res: ImagePass)
        ensures
            res@.sources == pass_sources_spec(self.content@),
            res@.title == self.title@,
            res@.pending == fetch_from(res@.sources, 0),
            res@.upload_name == Seq::<char>::empty(),
            pass_wf(res@),
    {
        let images = select_in_document(self.content.as_str(), "img", "src").unwrap();
        let sources = image_sources(&images);
        ImagePass::new(self.title.clone(), sources)
    }
}

} // verus!
