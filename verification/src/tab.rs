//! Browser tabs: what a tab shows and where it has been.
use vstd::prelude::*;
use vstd::string::StringExecFns;

verus! {

/// One block of rendered gemtext.
#[derive(Debug)]
pub enum Block {
    Heading { level: u8, text: String },
    Paragraph(String),
    Link { href: String, label: String },
    PreBlock { lines: Vec<String> },
    Quote(String),
    ListItem(String),
    Image { alt: String, url: String, data: Option<Vec<u8>> },
    Blank,
}

/// Mathematical form of a [`Block`].
pub enum BlockView {
    Heading { level: u8, text: Seq<char> },
    Paragraph(Seq<char>),
    Link { href: Seq<char>, label: Seq<char> },
    PreBlock { lines: Seq<Seq<char>> },
    Quote(Seq<char>),
    ListItem(Seq<char>),
    Image { alt: Seq<char>, url: Seq<char>, data: Option<Seq<u8>> },
    Blank,
}

impl View for Block {
    type V = BlockView;

    open spec fn view(&self) -> BlockView {
        match self {
            Block::Heading { level, text } => BlockView::Heading { level: *level, text: text@ },
            Block::Paragraph(t) => BlockView::Paragraph(t@),
            Block::Link { href, label } => BlockView::Link { href: href@, label: label@ },
            Block::PreBlock { lines } => BlockView::PreBlock {
                lines: lines@.map_values(|l: String| l@),
            },
            Block::Quote(t) => BlockView::Quote(t@),
            Block::ListItem(t) => BlockView::ListItem(t@),
            Block::Image { alt, url, data } => BlockView::Image {
                alt: alt@,
                url: url@,
                data: match data {
                    Some(d) => Some(d@),
                    None => None,
                },
            },
            Block::Blank => BlockView::Blank,
        }
    }
}

/// The views of a list of blocks.
pub open spec fn blocks_view(b: Seq<Block>) -> Seq<BlockView> {
    b.map_values(|x: Block| x@)
}

pub(crate) fn copy_strings(v: &Vec<String>) -> (r: Vec<String>)
    ensures
        r@ == v@,
{
    let mut r: Vec<String> = Vec::new();
    let mut i: usize = 0;
    while i < v.len()
        invariant
            i <= v@.len(),
            r@ == v@.take(i as int),
        decreases v@.len() - i,
    {
        r.push(v[i].clone());
        i = i + 1;
        assert(r@ =~= v@.take(i as int));
    }
    assert(r@ =~= v@);
    r
}

fn copy_bytes(v: &Vec<u8>) -> (r: Vec<u8>)
    ensures
        r@ == v@,
{
    let mut r: Vec<u8> = Vec::new();
    let mut i: usize = 0;
    while i < v.len()
        invariant
            i <= v@.len(),
            r@ == v@.take(i as int),
        decreases v@.len() - i,
    {
        r.push(v[i]);
        i = i + 1;
        assert(r@ =~= v@.take(i as int));
    }
    assert(r@ =~= v@);
    r
}

impl Clone for Block {
    fn clone(&self) -> (r: Self)
        ensures
            r@ == self@,
    {
        match self {
            Block::Heading { level, text } => Block::Heading { level: *level, text: text.clone() },
            Block::Paragraph(t) => Block::Paragraph(t.clone()),
            Block::Link { href, label } => Block::Link { href: href.clone(), label: label.clone() },
            Block::PreBlock { lines } => {
                let l = copy_strings(lines);
                assert(l@.map_values(|x: String| x@) =~= lines@.map_values(|x: String| x@));
                Block::PreBlock { lines: l }
            },
            Block::Quote(t) => Block::Quote(t.clone()),
            Block::ListItem(t) => Block::ListItem(t.clone()),
            Block::Image { alt, url, data } => Block::Image {
                alt: alt.clone(),
                url: url.clone(),
                data: match data {
                    Some(d) => Some(copy_bytes(d)),
                    None => None,
                },
            },
            Block::Blank => Block::Blank,
        }
    }
}

/// A copy of a list of blocks.
pub fn clone_blocks(v: &Vec<Block>) -> (r: Vec<Block>)
    ensures
        blocks_view(r@) == blocks_view(v@),
{
    let mut r: Vec<Block> = Vec::new();
    let mut i: usize = 0;
    while i < v.len()
        invariant
            i <= v@.len(),
            r@.len() == i,
            forall|k: int| 0 <= k < i ==> (#[trigger] r@[k])@ == v@[k]@,
        decreases v@.len() - i,
    {
        r.push(v[i].clone());
        i = i + 1;
    }
    assert(blocks_view(r@) =~= blocks_view(v@));
    r
}

/// What a tab currently shows.
#[derive(Debug, Clone)]
pub enum TabContent {
    Loading,
    Document(Vec<Block>),
    Error(String),
    Input { prompt: String, sensitive: bool, value: String },
    CertWarning { url: String, error: String },
    Download { filename: String, bytes_downloaded: u64, complete: bool, path: Option<String> },
    /// Identities offered for a page that asks for one: (id, name, fingerprint).
    IdentityRequired { url: String, identities: Vec<(String, String, String)> },
    /// Identities as (id, name, fingerprint, created, expires), and the
    /// hosts bound to each identity id.
    IdentityManager {
        identities: Vec<(String, String, String, String, String)>,
        bindings: Vec<(String, Vec<String>)>,
        new_identity_name: String,
    },
    TitanUpload { url: String, mime: String, text: String, token: String },
    /// A message being written; identities are (id, name).
    MisfinCompose {
        recipient: String,
        message: String,
        identity_id: Option<String>,
        char_count: usize,
        identities: Vec<(String, String)>,
    },
    MisfinSent { recipient: String, status: String },
    HydraPanel { new_peer_address: String },
    Blank,
}

/// A page in a tab's history.
#[derive(Debug, Clone)]
pub struct HistoryEntry {
    pub url: String,
    pub title: String,
    pub content: Option<Vec<Block>>,
}

/// One browser tab.
#[derive(Debug, Clone)]
pub struct TabState {
    pub url: String,
    pub title: String,
    pub content: TabContent,
    pub history: Vec<HistoryEntry>,
    pub history_index: Option<usize>,
}

/// History after a page is pushed while the cursor is at `idx`: the pages
/// after the cursor are dropped and the new page goes last.
pub open spec fn history_after_push(h: Seq<HistoryEntry>, idx: Option<usize>, e: HistoryEntry) -> Seq<
    HistoryEntry,
> {
    match idx {
        Some(i) => if i + 1 < h.len() {
            h.take(i + 1).push(e)
        } else {
            h.push(e)
        },
        None => h.push(e),
    }
}

/// The cursor after a push.
pub open spec fn index_after_push(idx: Option<usize>) -> Option<int> {
    match idx {
        Some(i) => Some(i + 1),
        None => Some(0),
    }
}

/// Whether the cursor can move back.
pub open spec fn can_back(idx: Option<usize>) -> bool {
    idx matches Some(i) && i > 0
}

/// Whether the cursor can move forward.
pub open spec fn can_forward(h: Seq<HistoryEntry>, idx: Option<usize>) -> bool {
    idx matches Some(i) && i + 1 < h.len()
}

impl TabState {
    /// A fresh tab showing nothing.
    pub fn new_blank() -> (t: Self)
        ensures
            t.url@ == Seq::<char>::empty(),
            t.title@ == "New Tab"@,
            t.content is Blank,
            t.history@.len() == 0,
            t.history_index is None,
    {
        TabState {
            url: String::new(),
            title: String::from_str("New Tab"),
            content: TabContent::Blank,
            history: Vec::new(),
            history_index: None,
        }
    }

    pub fn can_go_back(&self) -> (b: bool)
        ensures
            b == can_back(self.history_index),
    {
        match self.history_index {
            Some(i) => i > 0,
            None => false,
        }
    }

    pub fn can_go_forward(&self) -> (b: bool)
        ensures
            b == can_forward(self.history@, self.history_index),
    {
        match self.history_index {
            Some(i) => self.history.len() > 0 && i < self.history.len() - 1,
            None => false,
        }
    }

    /// Push a page onto the history, dropping the pages after the cursor.
    pub fn push_history(&mut self, url: &str, title: &str, content: Option<Vec<Block>>)
        requires
            old(self).history_index matches Some(i) ==> i < usize::MAX,
        ensures
            final(self).history@ == history_after_push(
                old(self).history@,
                old(self).history_index,
                final(self).history@.last(),
            ),
            final(self).history@.last().url@ == url@,
            final(self).history@.last().title@ == title@,
            final(self).history@.last().content == content,
            final(self).history_index matches Some(j) && index_after_push(old(self).history_index)
                == Some(j as int),
            final(self).url == old(self).url,
            final(self).title == old(self).title,
            final(self).content == old(self).content,
    {
        let new_index = match self.history_index {
            Some(i) => {
                self.history.truncate(i + 1);
                i + 1
            },
            None => 0,
        };
        let entry = HistoryEntry { url: url.to_owned(), title: title.to_owned(), content };
        self.history.push(entry);
        self.history_index = Some(new_index);
    }

    /// Move the cursor back one page; the page there, if the history holds
    /// it.
    pub fn go_back(&mut self) -> (r: Option<&HistoryEntry>)
        ensures
            final(self).history == old(self).history,
            final(self).url == old(self).url,
            final(self).title == old(self).title,
            final(self).content == old(self).content,
            can_back(old(self).history_index) ==> {
                let i = old(self).history_index->0 - 1;
                &&& final(self).history_index == Some(i as usize)
                &&& r == (if i < old(self).history@.len() {
                    Some(&old(self).history@[i])
                } else {
                    None
                })
            },
            !can_back(old(self).history_index) ==> r is None && final(self).history_index
                == old(self).history_index,
            ({
                let i = old(self).history_index->0 as int;
                old(self).history_index is Some && i > 0 ==> final(self).history_index == Some(
                    (i - 1) as usize,
                ) && (i - 1 < old(self).history@.len() ==> r == Some(&old(self).history@[i - 1]))
            }),
            (old(self).history_index is None || old(self).history_index == Some(0usize)) ==> r is None
                && final(self).history_index == old(self).history_index,
    {
        if let Some(i) = self.history_index {
            if i > 0 {
                self.history_index = Some(i - 1);
                return self.history.get(i - 1);
            }
        }
        None
    }

    /// Move the cursor forward one page; the page there.
    pub fn go_forward(&mut self) -> (r: Option<&HistoryEntry>)
        ensures
            final(self).history == old(self).history,
            final(self).url == old(self).url,
            final(self).title == old(self).title,
            final(self).content == old(self).content,
            can_forward(old(self).history@, old(self).history_index) ==> {
                let i = old(self).history_index->0 + 1;
                &&& final(self).history_index == Some(i as usize)
                &&& r == Some(&old(self).history@[i])
            },
            !can_forward(old(self).history@, old(self).history_index) ==> r is None
                && final(self).history_index == old(self).history_index,
            ({
                let i = old(self).history_index->0 as int;
                &&& old(self).history_index is Some && i + 1 < old(self).history@.len() ==> (final(self).history_index
                    == Some((i + 1) as usize) && r == Some(&old(self).history@[i + 1]))
                &&& old(self).history_index is Some && i + 1 >= old(self).history@.len() ==> r is None
                    && final(self).history_index == old(self).history_index
            }),
            old(self).history_index is None ==> r is None && final(self).history_index is None,
    {
        if let Some(i) = self.history_index {
            if self.history.len() > 0 && i < self.history.len() - 1 {
                self.history_index = Some(i + 1);
                return self.history.get(i + 1);
            }
        }
        None
    }
}

/// Pushing a page and then going back lands on the page that was current
/// before the push.
pub proof fn lemma_back_after_push(h: Seq<HistoryEntry>, i: usize, e: HistoryEntry)
    requires
        i < h.len(),
        i < usize::MAX,
    ensures
        ({
            let h2 = history_after_push(h, Some(i), e);
            let j = index_after_push(Some(i))->0;
            &&& j == i + 1
            &&& can_back(Some(j as usize))
            &&& j - 1 < h2.len()
            &&& h2[j - 1] == h[i as int]
            &&& h2[j] == e
        }),
{
}

/// Pushing a page with the cursor on a page of the history keeps the pages
/// up to the cursor, drops those after it, and puts the new page last with
/// the cursor on it; with no cursor (and so no history) the new page is the
/// first, under the cursor.
pub proof fn lemma_push_history_result(h: Seq<HistoryEntry>, idx: Option<usize>, e: HistoryEntry)
    requires
        idx matches Some(i) ==> i < h.len(),
        idx is None ==> h.len() == 0,
    ensures
        index_after_push(idx) is Some,
        index_after_push(idx)->0 == history_after_push(h, idx, e).len() - 1,
        history_after_push(h, idx, e)[index_after_push(idx)->0] == e,
        forall|k: int|
            0 <= k < index_after_push(idx)->0 ==> #[trigger] history_after_push(h, idx, e)[k] == h[k],
        idx is None ==> index_after_push(idx)->0 == h.len(),
        idx is Some ==> index_after_push(idx)->0 == idx->0 + 1,
{
    let h2 = history_after_push(h, idx, e);
    match idx {
        Some(i) => {
            if i + 1 < h.len() {
                assert(h2 =~= h.take(i + 1).push(e));
                assert forall|k: int| 0 <= k < i + 1 implies h2[k] == h[k] by {
                    assert(h.take(i + 1)[k] == h[k]);
                }
            }
        },
        None => {},
    }
}

/// Going back and then forward returns to the page the cursor was on.
pub proof fn lemma_forward_after_back(h: Seq<HistoryEntry>, i: usize)
    requires
        0 < i < h.len(),
    ensures
        can_back(Some(i)),
        can_forward(h, Some((i - 1) as usize)),
        (i - 1) + 1 == i,
{
}

} // verus!
