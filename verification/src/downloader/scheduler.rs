//! The decisions of a download run: which item comes next, which transfers
//! run, when the run is over, and how much of a file is accepted. The
//! transfers themselves are made by the caller, which reports back.
use vstd::prelude::*;
use super::{
    DownloadableItem, ItemView, items_view, links_have_extensions, item_path, item_url, item_label,
    description_path, download_url, after_last_dot, CMS_HOST,
};
use crate::parser::models::content::content_type_label;
use crate::text::trim;
use crate::config::{DownloadOptions, DEFAULT_MAX_CONCURRENCY};

verus! {

broadcast use vstd::string::group_string_axioms;

/// What the caller does next.
pub enum DownloadAction {
    /// Fetch `url` into the file `path`; the transfer is known by `token`
    /// and shown as `label`.
    Start { token: usize, url: String, path: String, label: String },
    /// Write `text` into the file `path`.
    WriteDescription { path: String, text: String },
    /// Nothing to do for the item just taken.
    Skip,
    /// Run the transfers and report those that finish.
    Wait,
    /// Every item is handled and no transfer runs.
    Done,
}

/// An action as plain values.
pub enum ActionView {
    Start { token: usize, url: Seq<char>, path: Seq<char>, label: Seq<char> },
    WriteDescription { path: Seq<char>, text: Seq<char> },
    Skip,
    Wait,
    Done,
}

impl View for DownloadAction {
    type V = ActionView;

    open spec fn view(&self) -> ActionView {
        match self {
            DownloadAction::Start { token, url, path, label } => ActionView::Start {
                token: *token,
                url: url@,
                path: path@,
                label: label@,
            },
            DownloadAction::WriteDescription { path, text } => ActionView::WriteDescription {
                path: path@,
                text: text@,
            },
            DownloadAction::Skip => ActionView::Skip,
            DownloadAction::Wait => ActionView::Wait,
            DownloadAction::Done => ActionView::Done,
        }
    }
}

/// What handling the item `item` is: a transfer, known by `token`, when it has
/// a link; else writing its description when it has one; else nothing.
pub open spec fn item_action(item: ItemView, base: Seq<char>, token: usize) -> ActionView {
    match item.download_link {
        Some(link) => ActionView::Start {
            token,
            url: item_url(link),
            path: item_path(item, base)->0,
            label: item_label(item),
        },
        None => match item.description {
            Some(text) => ActionView::WriteDescription { path: description_path(item, base), text },
            None => ActionView::Skip,
        },
    }
}

/// The next action: the first pending item is handled when fewer than
/// `max_concurrent` transfers run; with nothing pending and nothing running
/// the run is over; otherwise the caller waits for transfers to finish.
pub open spec fn next_action_spec(
    pending: Seq<ItemView>,
    running: nat,
    max_concurrent: usize,
    base: Seq<char>,
    token: usize,
) -> ActionView {
    if pending.len() > 0 && running < max_concurrent {
        item_action(pending[0], base, token)
    } else if pending.len() == 0 && running == 0 {
        ActionView::Done
    } else {
        ActionView::Wait
    }
}

/// What the caller does with the file of a finished transfer.
pub enum FinishAction {
    /// No such transfer ran.
    NotRunning,
    /// The file stays as written.
    Keep,
    /// The transfer was stopped for its size: the file at `path` is removed.
    Remove { path: String },
}

/// A finishing action as plain values.
pub enum FinishView {
    NotRunning,
    Keep,
    Remove { path: Seq<char> },
}

impl View for FinishAction {
    type V = FinishView;

    open spec fn view(&self) -> FinishView {
        match self {
            FinishAction::NotRunning => FinishView::NotRunning,
            FinishAction::Keep => FinishView::Keep,
            FinishAction::Remove { path } => FinishView::Remove { path: path@ },
        }
    }
}

/// The state of a download run.
pub struct DownloadScheduler {
    queue: Vec<DownloadableItem>,
    next: usize,
    active: Vec<usize>,
    targets: Vec<String>,
    next_token: usize,
    max_concurrent: usize,
    base: String,
}

impl DownloadScheduler {
    /// The state's invariant: at most `max_concurrent` transfers run, their
    /// tokens are distinct and were handed out, and each token is handed out once.
    pub closed spec fn wf(&self) -> bool {
        &&& self.next <= self.queue.len()
        &&& self.next_token <= self.next
        &&& self.active@.len() <= self.max_concurrent
        &&& self.targets@.len() == self.active@.len()
        &&& self.active@.no_duplicates()
        &&& forall|i: int| 0 <= i < self.active@.len() ==> #[trigger] self.active@[i] < self.next_token
        &&& links_have_extensions(items_view(self.queue@))
    }

    /// The items not handled yet, in order.
    pub closed spec fn pending(&self) -> Seq<ItemView> {
        items_view(self.queue@).skip(self.next as int)
    }

    /// The tokens of the transfers that run.
    pub closed spec fn running(&self) -> Seq<usize> {
        self.active@
    }

    /// The files that the running transfers write, in the order of `running`.
    pub closed spec fn running_targets(&self) -> Seq<Seq<char>> {
        self.targets@.map_values(|t: String| t@)
    }

    /// The token that the next transfer gets.
    pub closed spec fn token(&self) -> usize {
        self.next_token
    }

    /// How many transfers may run at a time.
    pub closed spec fn capacity(&self) -> usize {
        self.max_concurrent
    }

    /// The directory everything is stored in.
    pub closed spec fn base_path(&self) -> Seq<char> {
        self.base@
    }

    /// A run over `queue`, whose links all name an extension, with the
    /// concurrency and download path of `options`; nothing runs yet.
    pub fn new(queue: Vec<DownloadableItem>, options: &DownloadOptions) -> (s: Self)
        requires
            links_have_extensions(items_view(queue@)),
        ensures
            s.wf(),
            s.pending() == items_view(queue@),
            s.running() == Seq::<usize>::empty(),
            s.running_targets() == Seq::<Seq<char>>::empty(),
            s.token() == 0,
            s.capacity() == match options.max_concurrency {
                Some(n) => n,
                None => DEFAULT_MAX_CONCURRENCY,
            },
            s.base_path() == options.save_path@,
    {
        let s = DownloadScheduler {
            queue,
            next: 0,
            active: Vec::new(),
            targets: Vec::new(),
            next_token: 0,
            max_concurrent: options.concurrency(),
            base: options.save_path.clone(),
        };
        assert(items_view(s.queue@).skip(0) == items_view(s.queue@));
        assert(s.running_targets() =~= Seq::<Seq<char>>::empty());
        s
    }

    /// Whether the run is over: every item handled and no transfer running.
    pub fn is_done(&self) -> (b: bool)
        requires
            self.wf(),
        ensures
            b == (self.pending().len() == 0 && self.running().len() == 0),
    {
        self.next == self.queue.len() && self.active.len() == 0
    }

    /// Decides what the caller does next, and records it: a handled item leaves
    /// the pending items, and a started transfer runs under a fresh token,
    /// writing the file that the action names.
    pub fn next_action(&mut self) -> (a: DownloadAction)
        requires
            old(self).wf(),
        ensures
            final(self).wf(),
            a@ == next_action_spec(
                old(self).pending(),
                old(self).running().len(),
                old(self).capacity(),
                old(self).base_path(),
                old(self).token(),
            ),
            final(self).capacity() == old(self).capacity(),
            final(self).base_path() == old(self).base_path(),
            final(self).pending() == if a@ is Wait || a@ is Done {
                old(self).pending()
            } else {
                old(self).pending().drop_first()
            },
            final(self).running() == if a@ is Start {
                old(self).running().push(old(self).token())
            } else {
                old(self).running()
            },
            final(self).running_targets() == match a@ {
                ActionView::Start { path, .. } => old(self).running_targets().push(path),
                _ => old(self).running_targets(),
            },
            final(self).token() == if a@ is Start {
                (old(self).token() + 1) as usize
            } else {
                old(self).token()
            },
    {
        let ghost iv = items_view(self.queue@);
        if self.next < self.queue.len() && self.active.len() < self.max_concurrent {
            let i = self.next;
            assert(iv.skip(i as int)[0] == iv[i as int]);
            assert(iv.skip(i + 1) =~= iv.skip(i as int).drop_first());
            let ghost item = iv[i as int];
            assert(links_have_extensions(iv));
            assert(super::link_has_extension(iv[i as int].download_link));
            self.next = i + 1;
            let it = &self.queue[i];
            match &it.download_link {
                Some(link) => {
                    let path = match it.path(self.base.as_str()) {
                        Some(p) => p,
                        None => String::new(),
                    };
                    let url = download_url(link.as_str());
                    let label = it.label();
                    let token = self.next_token;
                    let ghost prev_targets = self.targets@;
                    self.targets.push(path.clone());
                    assert(self.targets@.map_values(|t: String| t@) =~= prev_targets.map_values(|t: String| t@).push(path@));
                    self.active.push(token);
                    self.next_token = token + 1;
                    proof {
                        assert forall|k: int| 0 <= k < self.active@.len() implies #[trigger] self.active@[k] < self.next_token by {
                            if k < self.active@.len() - 1 {
                                assert(self.active@[k] == old(self).active@[k]);
                            }
                        }
                        assert forall|x: int, y: int| 0 <= x < y < self.active@.len() implies self.active@[x] != self.active@[y] by {
                            if y == self.active@.len() - 1 {
                                assert(old(self).active@[x] < token);
                            } else {
                                assert(self.active@[x] == old(self).active@[x]);
                                assert(self.active@[y] == old(self).active@[y]);
                            }
                        }
                    }
                    DownloadAction::Start { token, url, path, label }
                },
                None => {
                    match &it.description {
                        Some(text) => {
                            let path = it.description_path(self.base.as_str());
                            DownloadAction::WriteDescription { path, text: text.clone() }
                        },
                        None => DownloadAction::Skip,
                    }
                },
            }
        } else if self.next == self.queue.len() && self.active.len() == 0 {
            DownloadAction::Done
        } else {
            DownloadAction::Wait
        }
    }

    /// Records that the transfer `token` finished. When it ran, it stops
    /// running; its file stays when the transfer was not stopped for its size
    /// (`too_large` false), and is to be removed when it was, so that nothing
    /// of a file over the size limit is left at its target. When no such
    /// transfer ran, nothing changes.
    pub fn finish(&mut self, token: usize, too_large: bool) -> (r: FinishAction)
        requires
            old(self).wf(),
        ensures
            final(self).wf(),
            !(r@ is NotRunning) == old(self).running().contains(token),
            r@ is NotRunning ==> final(self).running() == old(self).running()
                && final(self).running_targets() == old(self).running_targets(),
            !(r@ is NotRunning) ==> exists|i: int|
                0 <= i < old(self).running().len() && old(self).running()[i] == token
                    && final(self).running() == old(self).running().remove(i)
                    && final(self).running_targets() == old(self).running_targets().remove(i)
                    && r@ == (if too_large {
                        FinishView::Remove { path: old(self).running_targets()[i] }
                    } else {
                        FinishView::Keep
                    }),
            final(self).pending() == old(self).pending(),
            final(self).token() == old(self).token(),
            final(self).capacity() == old(self).capacity(),
            final(self).base_path() == old(self).base_path(),
    {
        let mut i: usize = 0;
        while i < self.active.len()
            invariant
                i <= self.active@.len(),
                *self == *old(self),
                old(self).wf(),
                forall|k: int| 0 <= k < i ==> self.active@[k] != token,
            decreases self.active.len() - i,
        {
            if self.active[i] == token {
                let ghost before = self.active@;
                let ghost before_targets = self.targets@;
                self.active.remove(i);
                let path = self.targets.remove(i);
                proof {
                    assert(before.remove(i as int) == self.active@);
                    assert(self.targets@.map_values(|t: String| t@) =~= before_targets.map_values(|t: String| t@).remove(i as int));
                    assert forall|k: int| 0 <= k < self.active@.len() implies #[trigger] self.active@[k] < self.next_token by {
                        if k < i {
                            assert(self.active@[k] == before[k]);
                        } else {
                            assert(self.active@[k] == before[k + 1]);
                        }
                    }
                    assert forall|x: int, y: int| 0 <= x < y < self.active@.len() implies self.active@[x] != self.active@[y] by {
                        let bx = if x < i { x } else { x + 1 };
                        let by = if y < i { y } else { y + 1 };
                        assert(self.active@[x] == before[bx]);
                        assert(self.active@[y] == before[by]);
                    }
                }
                if too_large {
                    return FinishAction::Remove { path };
                } else {
                    return FinishAction::Keep;
                }
            }
            i += 1;
        }
        FinishAction::NotRunning
    }
}

/// A run never has more transfers running than its capacity, and no token
/// runs twice.
pub proof fn lemma_running_bounded(s: DownloadScheduler)
    requires
        s.wf(),
    ensures
        s.running().len() <= s.capacity(),
        s.running_targets().len() == s.running().len(),
        s.running().no_duplicates(),
        forall|i: int| 0 <= i < s.running().len() ==> #[trigger] s.running()[i] < s.token(),
{
}

/// A run that may start a transfer never waits while nothing runs: with
/// capacity for one transfer and none running, the next action handles the
/// first pending item, or ends the run when none is pending.
pub proof fn lemma_no_idle_wait(pending: Seq<ItemView>, capacity: usize, base: Seq<char>, token: usize)
    requires
        capacity >= 1,
    ensures
        !(next_action_spec(pending, 0, capacity, base, token) is Wait),
        pending.len() == 0 ==> next_action_spec(pending, 0, capacity, base, token) is Done,
{
}

/// An item with a download link is always fetched, whatever its description:
/// when the first pending item has a link and a transfer may start, the next
/// action starts one under the next token, from the host followed by the
/// link, into `base/course title/type label/title.extension` (trimmed, the
/// extension following the last `.` of the trimmed link), shown as
/// `course title -| title`. A description is written only for an item
/// without a link, into `base/course title/title.txt`.
pub proof fn lemma_linked_item_starts(
    pending: Seq<ItemView>,
    running: nat,
    capacity: usize,
    base: Seq<char>,
    token: usize,
)
    ensures
        pending.len() > 0 && running < capacity && pending[0].download_link is Some ==> next_action_spec(
            pending,
            running,
            capacity,
            base,
            token,
        ) == (ActionView::Start {
            token,
            url: CMS_HOST@ + pending[0].download_link->0,
            path: trim(
                base + "/"@ + pending[0].course.title + "/"@ + content_type_label(pending[0].content_type) + "/"@
                    + pending[0].title + "."@ + after_last_dot(trim(pending[0].download_link->0)),
            ),
            label: pending[0].course.title + " -| "@ + pending[0].title,
        }),
        next_action_spec(pending, running, capacity, base, token) matches ActionView::WriteDescription { path, text } ==> {
            &&& pending.len() > 0
            &&& running < capacity
            &&& pending[0].download_link is None
            &&& pending[0].description == Some(text)
            &&& path == base + "/"@ + pending[0].course.title + "/"@ + pending[0].title + ".txt"@
        },
{
}

/// The message of a transfer stopped for its size.
pub const FILE_TOO_LARGE: &'static str = "file exceeds the maximum file size";

/// How much of a file has arrived, against the size limit of the configuration.
pub struct TransferLimit {
    pub max_file_size: Option<usize>,
    pub downloaded_size: usize,
    pub error_msg: Option<String>,
}

impl TransferLimit {
    /// Nothing arrived yet, under this limit.
    pub fn new(max_file_size: Option<usize>) -> (t: Self)
        ensures
            t.max_file_size == max_file_size,
            t.downloaded_size == 0,
            t.error_msg is None,
    {
        TransferLimit { max_file_size, downloaded_size: 0, error_msg: None }
    }

    /// Takes `len` more bytes, unless the file would then exceed the limit:
    /// then the transfer stops, with `FILE_TOO_LARGE` as its message.
    pub fn accept(&mut self, len: usize) -> (ok: bool)
        ensures
            ok == !(old(self).max_file_size matches Some(m) && old(self).downloaded_size + len > m),
            ok ==> final(self).downloaded_size == if old(self).downloaded_size + len > usize::MAX {
                usize::MAX as int
            } else {
                old(self).downloaded_size + len
            },
            ok ==> final(self).error_msg == old(self).error_msg,
            !ok ==> final(self).downloaded_size == old(self).downloaded_size,
            !ok ==> (final(self).error_msg matches Some(m) && m@ == FILE_TOO_LARGE@),
            final(self).max_file_size == old(self).max_file_size,
    {
        let total: u128 = self.downloaded_size as u128 + len as u128;
        match self.max_file_size {
            Some(m) => {
                if total > m as u128 {
                    self.error_msg = Some(String::from_str(FILE_TOO_LARGE));
                    return false;
                }
            },
            None => {},
        }
        self.downloaded_size = self.downloaded_size.saturating_add(len);
        true
    }
}

} // verus!
