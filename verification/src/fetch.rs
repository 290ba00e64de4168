//! The decisions around a fetch: where to connect, whether to follow a
//! redirect, what a response becomes in the browser, where a download is
//! saved, which inline images to fetch.
use vstd::prelude::*;
use vstd::string::{StrSliceExecFns, StringExecFns};

use crate::browser::AppMessage;
use crate::client::{Error, Status};
use crate::config::{PageContent, PageStatus};
use crate::model::AppModel;
use crate::tab::{Block, TabContent};
use crate::text::{contains_seq, starts_with, str_chars, str_contains, trim, trim_str};
use crate::urlparse::{
    join_url, parse_url_parts, parse_url_text, url_components, url_join_result, url_serialization,
};

verus! {

/// The default Gemini port.
pub const DEFAULT_PORT: u16 = 1965;

/// Redirects followed before giving up.
pub const MAX_REDIRECT: u8 = 5;

/// The largest inline image fetched, in bytes.
pub const MAX_IMAGE_SIZE: usize = 10485760;

/// The errors the decisions here give, with their texts as sequences.
pub enum ErrorView {
    InvalidUrl(Seq<char>),
    SchemeNotSupported,
    InvalidHost,
    TooManyRedirects(Seq<char>),
    Other,
}

pub open spec fn error_view(e: Error) -> ErrorView {
    match e {
        Error::InvalidUrl(m) => ErrorView::InvalidUrl(m@),
        Error::SchemeNotSupported => ErrorView::SchemeNotSupported,
        Error::InvalidHost => ErrorView::InvalidHost,
        Error::TooManyRedirects(m) => ErrorView::TooManyRedirects(m@),
        _ => ErrorView::Other,
    }
}

/// Where a Gemini URL is fetched from: its host, and its port (1965 unless
/// the URL gives one). Other schemes and URLs without a host are refused.
pub open spec fn connect_target_spec(url: Seq<char>) -> Result<(Seq<char>, u16), ErrorView> {
    match url_components(url) {
        Err(e) => Err(ErrorView::InvalidUrl(e)),
        Ok((scheme, host, port, _)) => if scheme != "gemini"@ {
            Err(ErrorView::SchemeNotSupported)
        } else {
            match host {
                None => Err(ErrorView::InvalidHost),
                Some(h) => Ok(
                    (
                        h,
                        match port {
                            Some(p) => p,
                            None => DEFAULT_PORT,
                        },
                    ),
                ),
            }
        },
    }
}

pub fn connect_target(url: &str) -> (r: Result<(String, u16), Error>)
    ensures
        match (r, connect_target_spec(url@)) {
            (Ok((h, p)), Ok((h2, p2))) => h@ == h2 && p == p2,
            (Err(e), Err(e2)) => error_view(e) == e2,
            _ => false,
        },
{
    match parse_url_parts(url) {
        Err(e) => Err(Error::InvalidUrl(e)),
        Ok(parts) => {
            if !crate::strmap::str_eq(parts.scheme.as_str(), "gemini") {
                return Err(Error::SchemeNotSupported);
            }
            match parts.host {
                None => Err(Error::InvalidHost),
                Some(h) => Ok(
                    (
                        h,
                        match parts.port {
                            Some(p) => p,
                            None => DEFAULT_PORT,
                        },
                    ),
                ),
            }
        },
    }
}

/// How many redirects a fetch follows.
pub fn max_redirects(follow_redirects: bool) -> (n: u8)
    ensures
        n == (if follow_redirects {
            MAX_REDIRECT
        } else {
            1u8
        }),
{
    if follow_redirects {
        MAX_REDIRECT
    } else {
        1
    }
}

/// What to do after the `i`-th response of a fetch.
#[derive(Debug)]
pub enum RedirectStep {
    /// The response is the answer.
    Done,
    /// Fetch this URL next.
    Follow(String),
}

/// The next step after a response with `status` and `meta` to a request
/// for `current`, as the `i`-th of at most `max` redirects: a redirect is
/// followed to its (trimmed) target, resolved against `current` unless it
/// is a URL itself; one redirect too many is an error.
pub open spec fn redirect_spec(current: Seq<char>, status: Status, meta: Seq<char>, i: u8, max: u8) -> Result<
    Seq<char>,
    ErrorView,
> {
    let target = trim(meta);
    if status is Redirect {
        if i < max {
            if url_serialization(target) is Some {
                Ok(target)
            } else {
                match url_join_result(current, target) {
                    Ok(u) => Ok(u),
                    Err(e) => Err(ErrorView::InvalidUrl(e)),
                }
            }
        } else {
            Err(ErrorView::TooManyRedirects(meta))
        }
    } else {
        Ok(Seq::empty())
    }
}

pub fn redirect_step(current: &str, status: Status, meta: &str, i: u8, max: u8) -> (r: Result<RedirectStep, Error>)
    ensures
        match (r, redirect_spec(current@, status, meta@, i, max)) {
            (Ok(RedirectStep::Done), Ok(_)) => !(status is Redirect),
            (Ok(RedirectStep::Follow(u)), Ok(u2)) => status is Redirect && u@ == u2,
            (Err(e), Err(e2)) => error_view(e) == e2,
            _ => false,
        },
{
    match status {
        Status::Redirect(_) => {
            if i < max {
                let target = trim_str(meta);
                if parse_url_text(target).is_some() {
                    Ok(RedirectStep::Follow(target.to_owned()))
                } else {
                    match join_url(current, target) {
                        Ok(u) => Ok(RedirectStep::Follow(u)),
                        Err(e) => Err(Error::InvalidUrl(e)),
                    }
                }
            } else {
                Err(Error::TooManyRedirects(String::from_str(meta)))
            }
        },
        _ => Ok(RedirectStep::Done),
    }
}

/// What a response status means for the page: an input prompt (code 11
/// asks for sensitive input), success, a redirect to `meta`, a failure,
/// or a request for a client certificate.
pub fn page_status(status: Status, meta: &str) -> (p: PageStatus)
    ensures
        match (p, status) {
            (PageStatus::Input { sensitive }, Status::Input(c)) => sensitive == (c == 11),
            (PageStatus::Success, Status::Success(_)) => true,
            (PageStatus::Redirect(m), Status::Redirect(_)) => m@ == meta@,
            (PageStatus::TempFail, Status::TempFail(_)) => true,
            (PageStatus::PermFail, Status::PermFail(_)) => true,
            (PageStatus::CertRequired, Status::CertRequired(_)) => true,
            _ => false,
        },
{
    match status {
        Status::Input(c) => PageStatus::Input { sensitive: c == 11 },
        Status::Success(_) => PageStatus::Success,
        Status::Redirect(_) => PageStatus::Redirect(String::from_str(meta)),
        Status::TempFail(_) => PageStatus::TempFail,
        Status::PermFail(_) => PageStatus::PermFail,
        Status::CertRequired(_) => PageStatus::CertRequired,
    }
}

/// A successful response that is not text (and says what it is) is saved
/// as a download rather than shown.
pub fn is_download(status: Status, meta: &str) -> (b: bool)
    ensures
        b == (status is Success && !starts_with(meta@, "text/"@) && meta@.len() > 0),
{
    let success = match status {
        Status::Success(_) => true,
        _ => false,
    };
    success && !crate::browser::has_prefix(meta, "text/") && meta.unicode_len() > 0
}

/// What the browser is told of a fetch that failed with `err`: a warning
/// when the server's certificate changed or was refused, else an error
/// page.
pub fn fetch_failure(url: String, err: String) -> (m: AppMessage)
    ensures
        if contains_seq(err@, "changed"@) || contains_seq(err@, "BadIdentity"@) {
            m matches AppMessage::CertWarning { url: u, error: e } && u == url && e == err
        } else {
            m matches AppMessage::PageLoaded(Err(e)) && e == err
        },
{
    if str_contains(err.as_str(), "changed") || str_contains(err.as_str(), "BadIdentity") {
        AppMessage::CertWarning { url, error: err }
    } else {
        AppMessage::PageLoaded(Err(err))
    }
}

/// The page message for a fetched response (`body` read only for a
/// success).
pub fn page_loaded(url: String, status: Status, meta: String, body: Option<String>) -> (m: AppMessage)
    ensures
        m matches AppMessage::PageLoaded(Ok(p)) && p.url == url && p.meta == meta && p.body == body,
{
    let status = page_status(status, meta.as_str());
    AppMessage::PageLoaded(Ok(PageContent { url, status, meta, body }))
}

// ---------------------------------------------------------------------
// Downloads
// ---------------------------------------------------------------------

/// The characters after the last `/` of `p` (all of `p` without one).
pub open spec fn last_segment(p: Seq<char>) -> Seq<char>
    decreases p.len(),
{
    if p.len() == 0 {
        p
    } else if p.last() == '/' {
        Seq::empty()
    } else {
        last_segment(p.drop_last()).push(p.last())
    }
}

fn last_segment_exec(p: &str) -> (r: String)
    ensures
        r@ == last_segment(p@),
{
    let c = str_chars(p);
    let mut k: usize = c.len();
    assert(c@.take(k as int) =~= c@);
    assert(c@ + c@.skip(k as int) =~= c@);
    while k > 0 && c[k - 1] != '/'
        invariant
            k <= c@.len(),
            c@ == p@,
            last_segment(p@) == last_segment(c@.take(k as int)) + c@.skip(k as int),
        decreases k,
    {
        proof {
            let t = c@.take(k as int);
            assert(t.drop_last() =~= c@.take(k - 1));
            assert(last_segment(t) == last_segment(t.drop_last()).push(t.last()));
            assert(last_segment(t.drop_last()).push(t.last()) + c@.skip(k as int) =~= last_segment(
                c@.take(k - 1),
            ) + c@.skip(k - 1));
        }
        k = k - 1;
    }
    proof {
        if k > 0 {
            assert(c@.take(k as int).last() == '/');
        }
        assert(last_segment(c@.take(k as int)) =~= Seq::<char>::empty());
        assert(Seq::<char>::empty() + c@.skip(k as int) =~= c@.skip(k as int));
    }
    let r = p.substring_char(k, c.len());
    assert(r@ =~= c@.skip(k as int));
    r.to_owned()
}

/// The name a download of `url` is saved under: the last segment of its
/// path, else its host, else "download".
pub open spec fn url_filename_spec(url: Seq<char>) -> Seq<char> {
    match url_components(url) {
        Ok((_, host, _, path)) => if last_segment(path).len() > 0 {
            last_segment(path)
        } else {
            match host {
                Some(h) => h,
                None => "download"@,
            }
        },
        Err(_) => "download"@,
    }
}

pub fn url_to_filename(url: &str) -> (r: String)
    ensures
        r@ == url_filename_spec(url@),
{
    match parse_url_parts(url) {
        Ok(parts) => {
            let name = last_segment_exec(parts.path.as_str());
            if name.as_str().unicode_len() > 0 {
                name
            } else {
                match parts.host {
                    Some(h) => h,
                    None => String::from_str("download"),
                }
            }
        },
        Err(_) => String::from_str("download"),
    }
}

/// A file name split as `Path::file_stem` and `Path::extension` split it:
/// at the last dot, unless that dot starts the name ("download" for "..").
pub open spec fn stem_ext(name: Seq<char>) -> (Seq<char>, Seq<char>) {
    let k = last_dot(name, name.len() as int);
    if name == ".."@ {
        ("download"@, Seq::empty())
    } else if k <= 0 {
        (name, Seq::empty())
    } else {
        (name.take(k), name.skip(k + 1))
    }
}

/// The position of the last `.` before `end`, or -1.
pub open spec fn last_dot(s: Seq<char>, end: int) -> int
    decreases end,
{
    if end <= 0 {
        -1
    } else if s[end - 1] == '.' {
        end - 1
    } else {
        last_dot(s, end - 1)
    }
}

/// The `i`-th name tried for a download called `name`: the name itself,
/// then `stem_i.ext` (or `stem_i` without an extension).
pub open spec fn candidate_spec(name: Seq<char>, i: nat) -> Seq<char> {
    let (stem, ext) = stem_ext(name);
    if i == 0 {
        name
    } else if ext.len() == 0 {
        stem + "_"@ + crate::num::decimal(i)
    } else {
        stem + "_"@ + crate::num::decimal(i) + "."@ + ext
    }
}

fn last_dot_exec(c: &Vec<char>) -> (k: Option<usize>)
    ensures
        match k {
            Some(j) => j as int == last_dot(c@, c@.len() as int) && j < c@.len(),
            None => last_dot(c@, c@.len() as int) == -1,
        },
{
    let mut e: usize = c.len();
    while e > 0
        invariant
            e <= c@.len(),
            last_dot(c@, c@.len() as int) == last_dot(c@, e as int),
        decreases e,
    {
        if c[e - 1] == '.' {
            return Some(e - 1);
        }
        e = e - 1;
    }
    None
}

/// The `i`-th file name to try for a download called `name` (the
/// application tries them in turn until one is free).
pub fn download_candidate(name: &str, i: u64) -> (r: String)
    ensures
        r@ == candidate_spec(name@, i as nat),
{
    if i == 0 {
        return String::from_str(name);
    }
    let c = str_chars(name);
    let is_dotdot = crate::strmap::str_eq(name, "..");
    let (stem, ext) = if is_dotdot {
        (String::from_str("download"), String::new())
    } else {
        let found = last_dot_exec(&c);
        match found {
            Some(k) if k > 0 => {
                let n = c.len();
                assert(k < n);
                let s = name.substring_char(0, k);
                let e = name.substring_char(k + 1, n);
                assert(s@ =~= name@.take(k as int));
                assert(e@ =~= name@.skip(k + 1));
                (s.to_owned(), e.to_owned())
            },
            _ => (String::from_str(name), String::new()),
        }
    };
    let mut r = stem;
    r.append("_");
    crate::num::push_decimal(&mut r, i);
    if ext.as_str().unicode_len() > 0 {
        r.append(".");
        r.append(ext.as_str());
    }
    proof {
        reveal_strlit("_");
        reveal_strlit(".");
    }
    r
}

// ---------------------------------------------------------------------
// Inline images
// ---------------------------------------------------------------------

/// The images of tab `ti` still to fetch: (block index, URL) of each image
/// block without data, in order.
pub open spec fn pending_images(blocks: Seq<Block>) -> Seq<(usize, Seq<char>)>
    decreases blocks.len(),
{
    if blocks.len() == 0 {
        Seq::empty()
    } else {
        let rest = pending_images(blocks.drop_last());
        match blocks.last() {
            Block::Image { url, data: None, .. } => rest.push(((blocks.len() - 1) as usize, url@)),
            _ => rest,
        }
    }
}

pub open spec fn requests_view(v: Seq<(usize, String)>) -> Seq<(usize, Seq<char>)> {
    v.map_values(|p: (usize, String)| (p.0, p.1@))
}

/// The image fetches to start for tab `tab_index` (none when it shows no
/// document).
pub fn image_requests(model: &AppModel, tab_index: usize) -> (r: Vec<(usize, String)>)
    ensures
        requests_view(r@) == (if tab_index < model.tabs@.len() {
            match model.tabs@[tab_index as int].content {
                TabContent::Document(b) => pending_images(b@),
                _ => Seq::empty(),
            }
        } else {
            Seq::empty()
        }),
{
    let mut r: Vec<(usize, String)> = Vec::new();
    if tab_index >= model.tabs.len() {
        assert(requests_view(r@) =~= Seq::<(usize, Seq<char>)>::empty());
        return r;
    }
    match &model.tabs[tab_index].content {
        TabContent::Document(blocks) => {
            let mut i: usize = 0;
            while i < blocks.len()
                invariant
                    i <= blocks@.len(),
                    requests_view(r@) == pending_images(blocks@.take(i as int)),
                decreases blocks@.len() - i,
            {
                let ghost r0 = r@;
                proof {
                    let t = blocks@.take(i + 1);
                    assert(t.drop_last() =~= blocks@.take(i as int));
                    assert(t.last() == blocks@[i as int]);
                }
                match &blocks[i] {
                    Block::Image { url, data: None, .. } => {
                        r.push((i, url.clone()));
                        assert(requests_view(r@) =~= requests_view(r0).push((i, url@)));
                    },
                    _ => {},
                }
                i = i + 1;
            }
            assert(blocks@.take(blocks@.len() as int) =~= blocks@);
            r
        },
        _ => {
            assert(requests_view(r@) =~= Seq::<(usize, Seq<char>)>::empty());
            r
        },
    }
}

/// An image of `len` bytes is kept only up to the size limit.
pub fn check_image_size(len: usize) -> (r: Result<(), String>)
    ensures
        r is Ok <==> len <= MAX_IMAGE_SIZE,
        r matches Err(m) ==> m@ == "Image exceeds 10MB limit"@,
{
    if len > MAX_IMAGE_SIZE {
        Err(String::from_str("Image exceeds 10MB limit"))
    } else {
        Ok(())
    }
}

} // verus!
