//! Replaying one source channel into its destination channel.
//!
//! A [`Replay`] is a state machine: the driver performs each [`Action`] it is
//! given (a store or network call, a pause) and hands the outcome back as an
//! [`Event`]. The machine decides everything else: which messages were already
//! migrated, where each one goes, and what the ledger records.
use vstd::prelude::*;

use crate::archive::{sorted_by_ts, SlackChannel};
use crate::cache::{DbError, DbErrorView, FileRow, FileRowView};
use crate::provision::find_channel;
use crate::discord::{ChannelGet, ChannelId, FilePost, MessageGet, MessageId, MessagePost};
use crate::ledger::{key_of, opt_view, Ledger, LedgerKey, PostRecord, RecordView};
use crate::render::{framed_text, pairs_view, rename_all, render_message};
use crate::slack::{tokyo_rfc2822, ts_lt, File, Message, TimeStamp};

verus! {

/// The pause after each successful post, in milliseconds.
pub const POST_INTERVAL_MILLIS: u64 = 1000;

/// The name given to a thread opened on a thread root.
pub const THREAD_NAME: &'static str = "slack thread";

/// How a message stands in a thread.
pub enum Kind {
    /// A reply to the root with this timestamp.
    Reply((int, int)),
    /// A thread root; a thread is opened when it has replies.
    Root(bool),
    /// Neither.
    Plain,
}

pub open spec fn kind_of(m: Message) -> Kind {
    match m {
        Message::Message { reply_count, thread_ts, .. } => {
            if thread_ts is Some && reply_count is None {
                Kind::Reply(thread_ts->0@)
            } else if reply_count is Some {
                Kind::Root(reply_count->0 > 0)
            } else {
                Kind::Plain
            }
        },
    }
}

/// What is to be done with one message, given the ledger.
pub enum Plan {
    /// Already migrated.
    Skip,
    /// A reply whose root was never migrated.
    OrphanReply,
    /// A reply whose root has no thread.
    MissingThread,
    /// Post into this destination thread.
    Reply(Seq<char>),
    /// Post into the channel, then open a thread if asked.
    Root(bool),
    /// Post into the channel.
    Plain,
}

pub open spec fn message_key(source: Seq<char>, m: Message) -> LedgerKey {
    (source, m.spec_ts())
}

pub open spec fn plan_of(ledger: Map<LedgerKey, RecordView>, source: Seq<char>, m: Message) -> Plan {
    if ledger.contains_key(message_key(source, m)) {
        Plan::Skip
    } else {
        match kind_of(m) {
            Kind::Reply(parent) => {
                if !ledger.contains_key((source, parent)) {
                    Plan::OrphanReply
                } else {
                    match ledger[(source, parent)].thread {
                        Some(t) => Plan::Reply(t),
                        None => Plan::MissingThread,
                    }
                }
            },
            Kind::Root(open) => Plan::Root(open),
            Kind::Plain => Plan::Plain,
        }
    }
}

pub open spec fn posts(p: Plan) -> bool {
    p is Reply || p is Root || p is Plain
}

/// The destination channel (or thread) a posting plan posts into.
pub open spec fn post_channel_of(p: Plan, target: Seq<char>) -> Seq<char> {
    match p {
        Plan::Reply(t) => t,
        _ => target,
    }
}

pub open spec fn files_of(m: Message) -> Seq<File> {
    match m {
        Message::Message { files, .. } => match files {
            Some(v) => v@,
            None => Seq::empty(),
        },
    }
}

/// The first hosted attachment at or after `k`, or the length if none is.
pub open spec fn next_hosted(fs: Seq<File>, k: int) -> int
    decreases fs.len() - k,
{
    if k < 0 || k >= fs.len() {
        fs.len() as int
    } else if fs[k] is Hosted {
        k
    } else {
        next_hosted(fs, k + 1)
    }
}

pub open spec fn url_of(f: File) -> Seq<char> {
    match f {
        File::Hosted { url_private_download, .. } => url_private_download@,
        _ => Seq::empty(),
    }
}

pub struct FilePostView {
    pub mime: Seq<char>,
    pub title: Seq<char>,
    pub body: Seq<u8>,
}

pub open spec fn file_post_view(f: FilePost) -> FilePostView {
    FilePostView { mime: f.mime@, title: f.title@, body: f.body@ }
}

pub open spec fn files_view(v: Seq<(String, FilePost)>) -> Seq<(Seq<char>, FilePostView)> {
    v.map_values(|p: (String, FilePost)| (p.0@, file_post_view(p.1)))
}

/// Why a replay stopped.
#[derive(Debug)]
pub enum ReplayError {
    /// A reply's root has no ledger entry.
    OrphanReply,
    /// A reply's root has a ledger entry but no thread.
    MissingThread,
    /// An attachment could not be had.
    Fetch(DbError),
    /// Posting failed.
    Post(String),
    /// Opening a thread failed.
    StartThread(String),
    /// Writing the ledger entry failed.
    Record(String),
    /// An answer came that the replay was not waiting for.
    UnexpectedEvent,
}

pub enum ReplayErrorView {
    OrphanReply,
    MissingThread,
    Fetch(DbErrorView),
    Post(Seq<char>),
    StartThread(Seq<char>),
    Record(Seq<char>),
    UnexpectedEvent,
}

impl View for ReplayError {
    type V = ReplayErrorView;

    open spec fn view(&self) -> ReplayErrorView {
        match self {
            ReplayError::OrphanReply => ReplayErrorView::OrphanReply,
            ReplayError::MissingThread => ReplayErrorView::MissingThread,
            ReplayError::Fetch(e) => ReplayErrorView::Fetch(e@),
            ReplayError::Post(e) => ReplayErrorView::Post(e@),
            ReplayError::StartThread(e) => ReplayErrorView::StartThread(e@),
            ReplayError::Record(e) => ReplayErrorView::Record(e@),
            ReplayError::UnexpectedEvent => ReplayErrorView::UnexpectedEvent,
        }
    }
}

/// What the driver reports back after an action.
pub enum Event {
    /// Go on: at the start, and after a pause.
    Ready,
    /// The attachment asked for, through the content cache.
    Fetched(Result<FileRow, DbError>),
    /// The message was posted (or not).
    Posted(Result<MessageGet, String>),
    /// The thread was opened (or not); its channel id.
    ThreadStarted(Result<ChannelId, String>),
    /// The ledger entry was written (or not).
    Recorded(Result<(), String>),
}

pub enum EventView {
    Ready,
    Fetched(Result<FileRowView, DbErrorView>),
    Posted(Result<Seq<char>, Seq<char>>),
    ThreadStarted(Result<Seq<char>, Seq<char>>),
    Recorded(Result<(), Seq<char>>),
}

impl View for Event {
    type V = EventView;

    /// A posted message reads as its message id.
    open spec fn view(&self) -> EventView {
        match self {
            Event::Ready => EventView::Ready,
            Event::Fetched(Ok(r)) => EventView::Fetched(Ok(r@)),
            Event::Fetched(Err(e)) => EventView::Fetched(Err(e@)),
            Event::Posted(Ok(m)) => EventView::Posted(Ok(m.id@)),
            Event::Posted(Err(e)) => EventView::Posted(Err(e@)),
            Event::ThreadStarted(Ok(t)) => EventView::ThreadStarted(Ok(t@)),
            Event::ThreadStarted(Err(e)) => EventView::ThreadStarted(Err(e@)),
            Event::Recorded(Ok(())) => EventView::Recorded(Ok(())),
            Event::Recorded(Err(e)) => EventView::Recorded(Err(e@)),
        }
    }
}

/// What the driver does next.
#[derive(Debug)]
pub enum Action {
    /// Fetch an attachment through the content cache. Answer with `Fetched`.
    FetchFile { url: String },
    /// Post a message with its attachments. Answer with `Posted`.
    PostMessage { channel: ChannelId, message: MessagePost, files: Vec<(String, FilePost)> },
    /// Open a thread on a posted message. Answer with `ThreadStarted`.
    StartThread { channel: ChannelId, message: MessageId, name: String },
    /// Write a ledger entry durably. Answer with `Recorded`.
    Record { record: PostRecord },
    /// Wait before going on. Answer with `Ready`.
    Pause { millis: u64 },
    /// Every message of the channel is migrated.
    Finished,
    /// The replay of the channel stops; `ts` is the message it stopped at.
    Failed { error: ReplayError, ts: Option<TimeStamp> },
}

pub enum ActionView {
    FetchFile(Seq<char>),
    PostMessage { channel: Seq<char>, content: Seq<char>, files: Seq<(Seq<char>, FilePostView)> },
    StartThread { channel: Seq<char>, message: Seq<char>, name: Seq<char> },
    Record(RecordView),
    Pause(int),
    Finished,
    Failed(ReplayErrorView, Option<(int, int)>),
}

impl View for Action {
    type V = ActionView;

    open spec fn view(&self) -> ActionView {
        match self {
            Action::FetchFile { url } => ActionView::FetchFile(url@),
            Action::PostMessage { channel, message, files } => ActionView::PostMessage {
                channel: channel@,
                content: message.content@,
                files: files_view(files@),
            },
            Action::StartThread { channel, message, name } => ActionView::StartThread {
                channel: channel@,
                message: message@,
                name: name@,
            },
            Action::Record { record } => ActionView::Record(record@),
            Action::Pause { millis } => ActionView::Pause(*millis as int),
            Action::Finished => ActionView::Finished,
            Action::Failed { error, ts } => ActionView::Failed(
                error@,
                match ts {
                    Some(t) => Some(t@),
                    None => None,
                },
            ),
        }
    }
}

enum Stage {
    Examine,
    Fetch { content: String, files: Vec<(String, FilePost)>, k: usize },
    Post,
    Open { message: MessageId },
    Record { record: PostRecord },
    Pause,
    Finished,
    Failed,
}

pub enum StageView {
    /// Looking for the next message to post.
    Examine,
    /// Waiting for attachment `k` of the current message.
    Fetch { content: Seq<char>, files: Seq<(Seq<char>, FilePostView)>, k: int },
    /// Waiting for the post of the current message.
    Post,
    /// Waiting for the thread opened on the posted message.
    Open(Seq<char>),
    /// Waiting for the ledger entry to be written.
    Record(RecordView),
    /// Waiting out the pause after a post.
    Pause,
    Finished,
    Failed,
}

/// The replay of one source channel.
pub struct Replay {
    source: String,
    target: ChannelId,
    names: Vec<(String, String)>,
    messages: Vec<Message>,
    ledger: Ledger,
    next: usize,
    stage: Stage,
    recorded: Ghost<Seq<int>>,
}

pub struct ReplayView {
    /// The source channel's id.
    pub source: Seq<char>,
    /// The destination channel.
    pub target: Seq<char>,
    /// User ids and the names they are shown as.
    pub names: Seq<(Seq<char>, Seq<char>)>,
    /// The channel's messages, in the order they are replayed.
    pub messages: Seq<Message>,
    pub ledger: Map<LedgerKey, RecordView>,
    /// The message being handled.
    pub next: int,
    pub stage: StageView,
    /// The positions of the messages posted and recorded so far, in order.
    pub recorded: Seq<int>,
}

impl View for Replay {
    type V = ReplayView;

    closed spec fn view(&self) -> ReplayView {
        ReplayView {
            source: self.source@,
            target: self.target@,
            names: pairs_view(self.names@),
            messages: self.messages@,
            ledger: self.ledger@,
            next: self.next as int,
            stage: match &self.stage {
                Stage::Examine => StageView::Examine,
                Stage::Fetch { content, files, k } => StageView::Fetch {
                    content: content@,
                    files: files_view(files@),
                    k: *k as int,
                },
                Stage::Post => StageView::Post,
                Stage::Open { message } => StageView::Open(message@),
                Stage::Record { record } => StageView::Record(record@),
                Stage::Pause => StageView::Pause,
                Stage::Finished => StageView::Finished,
                Stage::Failed => StageView::Failed,
            },
            recorded: self.recorded@,
        }
    }
}

pub open spec fn current(s: ReplayView) -> Message {
    s.messages[s.next]
}

pub open spec fn plan_now(s: ReplayView) -> Plan {
    plan_of(s.ledger, s.source, current(s))
}

/// The text posted for `m`.
pub open spec fn rendered(names: Seq<(Seq<char>, Seq<char>)>, m: Message) -> Seq<char> {
    match m {
        Message::Message { user, ts, text, .. } => rename_all(
            names,
            framed_text(user@, tokyo_rfc2822(ts@.0 as i64, ts@.1 as u32), text@),
        ),
    }
}

pub open spec fn failed(s: ReplayView, e: ReplayErrorView) -> (ReplayView, ActionView) {
    (
        ReplayView { stage: StageView::Failed, ..s },
        ActionView::Failed(
            e,
            if 0 <= s.next < s.messages.len() {
                Some(current(s).spec_ts())
            } else {
                None
            },
        ),
    )
}

/// Asks for the next hosted attachment from `k` on, or posts when none is left.
pub open spec fn fetch_from(
    s: ReplayView,
    content: Seq<char>,
    files: Seq<(Seq<char>, FilePostView)>,
    k: int,
) -> (ReplayView, ActionView) {
    let fs = files_of(current(s));
    let j = next_hosted(fs, k);
    if j < fs.len() {
        (ReplayView { stage: StageView::Fetch { content, files, k: j }, ..s }, ActionView::FetchFile(url_of(fs[j])))
    } else {
        (
            ReplayView { stage: StageView::Post, ..s },
            ActionView::PostMessage { channel: post_channel_of(plan_now(s), s.target), content, files },
        )
    }
}

/// Walks from the current message past those already migrated, to the next
/// failure, attachment fetch or post; or to the end.
pub open spec fn examine(s: ReplayView) -> (ReplayView, ActionView)
    decreases s.messages.len() - s.next,
{
    if !(0 <= s.next < s.messages.len()) {
        (ReplayView { stage: StageView::Finished, ..s }, ActionView::Finished)
    } else {
        match plan_now(s) {
            Plan::Skip => examine(ReplayView { next: s.next + 1, stage: StageView::Examine, ..s }),
            Plan::OrphanReply => failed(s, ReplayErrorView::OrphanReply),
            Plan::MissingThread => failed(s, ReplayErrorView::MissingThread),
            _ => fetch_from(s, rendered(s.names, current(s)), Seq::empty(), 0),
        }
    }
}

/// The ledger entry for the current message.
pub open spec fn record_for(s: ReplayView, message: Seq<char>, thread: Option<Seq<char>>) -> RecordView {
    RecordView {
        message,
        source_channel: s.source,
        dest_channel: s.target,
        ts: current(s).spec_ts(),
        thread,
    }
}

/// The thread recorded for a message that opened none of its own: a reply's
/// thread is its root's.
pub open spec fn inherited_thread(p: Plan) -> Option<Seq<char>> {
    match p {
        Plan::Reply(t) => Some(t),
        _ => None,
    }
}

/// The next state and action of a replay in state `s` on answer `e`.
pub open spec fn replay_next(s: ReplayView, e: EventView) -> (ReplayView, ActionView) {
    match (s.stage, e) {
        (StageView::Examine, EventView::Ready) => examine(s),
        (StageView::Pause, EventView::Ready) => examine(ReplayView { next: s.next + 1, stage: StageView::Examine, ..s }),
        (StageView::Fetch { content, files, k }, EventView::Fetched(Ok(row))) => match files_of(current(s))[k] {
            File::Hosted { name, title, .. } => fetch_from(
                s,
                content,
                files.push((name@, FilePostView { mime: row.mime, title: title@, body: row.inner })),
                k + 1,
            ),
            _ => failed(s, ReplayErrorView::UnexpectedEvent),
        },
        (StageView::Fetch { .. }, EventView::Fetched(Err(err))) => failed(s, ReplayErrorView::Fetch(err)),
        (StageView::Post, EventView::Posted(Ok(id))) => {
            if plan_now(s) == Plan::Root(true) {
                (
                    ReplayView { stage: StageView::Open(id), ..s },
                    ActionView::StartThread { channel: s.target, message: id, name: THREAD_NAME@ },
                )
            } else {
                let rec = record_for(s, id, inherited_thread(plan_now(s)));
                (ReplayView { stage: StageView::Record(rec), ..s }, ActionView::Record(rec))
            }
        },
        (StageView::Post, EventView::Posted(Err(err))) => failed(s, ReplayErrorView::Post(err)),
        (StageView::Open(id), EventView::ThreadStarted(Ok(thread))) => {
            let rec = record_for(s, id, Some(thread));
            (ReplayView { stage: StageView::Record(rec), ..s }, ActionView::Record(rec))
        },
        (StageView::Open(_), EventView::ThreadStarted(Err(err))) => failed(s, ReplayErrorView::StartThread(err)),
        (StageView::Record(rec), EventView::Recorded(Ok(()))) => (
            ReplayView {
                ledger: s.ledger.insert(key_of(rec), rec),
                stage: StageView::Pause,
                recorded: s.recorded.push(s.next),
                ..s
            },
            ActionView::Pause(POST_INTERVAL_MILLIS as int),
        ),
        (StageView::Record(_), EventView::Recorded(Err(err))) => failed(s, ReplayErrorView::Record(err)),
        (StageView::Finished, _) => (s, ActionView::Finished),
        _ => failed(s, ReplayErrorView::UnexpectedEvent),
    }
}

/// What holds of every state a replay reaches.
pub open spec fn replay_inv(s: ReplayView) -> bool {
    &&& 0 <= s.next <= s.messages.len()
    &&& forall|j: int| 0 <= j < s.next ==> s.ledger.contains_key(#[trigger] message_key(s.source, s.messages[j]))
    &&& (s.stage is Fetch || s.stage is Post || s.stage is Open || s.stage is Record) ==> (s.next < s.messages.len() && posts(plan_now(s)))
    &&& (s.stage is Open) ==> plan_now(s) == Plan::Root(true)
    &&& (s.stage matches StageView::Fetch { k, .. } ==> 0 <= k < files_of(current(s)).len() && files_of(current(s))[k] is Hosted)
    &&& (s.stage matches StageView::Record(rec) ==> key_of(rec) == message_key(s.source, current(s)))
    &&& (s.stage is Pause) ==> (s.next < s.messages.len() && s.ledger.contains_key(message_key(s.source, current(s))))
    &&& (s.stage is Finished) ==> s.next == s.messages.len()
    &&& forall|i: int, j: int| 0 <= i < j < s.recorded.len() ==> s.recorded[i] < s.recorded[j]
    &&& forall|i: int| 0 <= i < s.recorded.len() ==> {
        &&& 0 <= #[trigger] s.recorded[i] <= s.next
        &&& s.recorded[i] < s.messages.len()
        &&& s.ledger.contains_key(message_key(s.source, s.messages[s.recorded[i]]))
    }
}

proof fn lemma_next_hosted(fs: Seq<File>, k: int, j: int)
    requires
        0 <= k <= j <= fs.len(),
        forall|i: int| k <= i < j ==> !(fs[i] is Hosted),
        j == fs.len() || fs[j] is Hosted,
    ensures
        next_hosted(fs, k) == j,
    decreases j - k,
{
    if k < j {
        lemma_next_hosted(fs, k + 1, j);
    }
}

enum Decision {
    Skip,
    OrphanReply,
    MissingThread,
    Reply(ChannelId),
    Root(bool),
    Plain,
}

spec fn decision_view(d: Decision) -> Plan {
    match d {
        Decision::Skip => Plan::Skip,
        Decision::OrphanReply => Plan::OrphanReply,
        Decision::MissingThread => Plan::MissingThread,
        Decision::Reply(t) => Plan::Reply(t@),
        Decision::Root(o) => Plan::Root(o),
        Decision::Plain => Plan::Plain,
    }
}

fn is_hosted(f: &File) -> (r: bool)
    ensures
        r == (*f is Hosted),
{
    match f {
        File::Hosted { .. } => true,
        _ => false,
    }
}

impl Replay {
    /// The machine's invariant.
    pub closed spec fn wf(&self) -> bool {
        self.ledger.wf() && replay_inv(self@)
    }

    /// A replay of `messages` of the source channel `source` into the
    /// destination channel `target`, against `ledger`. `names` maps user ids
    /// to the names shown for them. The first event to hand it is `Ready`.
    pub fn new(
        source: String,
        target: ChannelId,
        names: Vec<(String, String)>,
        messages: Vec<Message>,
        ledger: Ledger,
    ) -> (r: Replay)
        requires
            ledger.wf(),
        ensures
            r.wf(),
            r@ == (ReplayView {
                source: source@,
                target: target@,
                names: pairs_view(names@),
                messages: messages@,
                ledger: ledger@,
                next: 0,
                stage: StageView::Examine,
                recorded: Seq::empty(),
            }),
    {
        Replay {
            source,
            target,
            names,
            messages,
            ledger,
            next: 0,
            stage: Stage::Examine,
            recorded: Ghost(Seq::empty()),
        }
    }

    /// The replay of `channel` into the destination channel of the same name
    /// among `destinations`, or `None` where there is none: an unconfigured
    /// channel is skipped, with no call to the destination and no ledger
    /// entry.
    pub fn for_channel(
        destinations: &Vec<ChannelGet>,
        channel: SlackChannel,
        names: Vec<(String, String)>,
        ledger: Ledger,
    ) -> (r: Option<Replay>)
        requires
            ledger.wf(),
        ensures
            r is None <==> forall|j: int| 0 <= j < destinations@.len() ==> (#[trigger] destinations@[j]).name@ != channel.name@,
            r is Some ==> exists|i: int| {
                &&& 0 <= i < destinations@.len()
                &&& (#[trigger] destinations@[i]).name@ == channel.name@
                &&& forall|j: int| 0 <= j < i ==> (#[trigger] destinations@[j]).name@ != channel.name@
                &&& r->0.wf()
                &&& r->0@ == (ReplayView {
                    source: channel.id@,
                    target: destinations@[i].id@,
                    names: pairs_view(names@),
                    messages: channel.messages@,
                    ledger: ledger@,
                    next: 0,
                    stage: StageView::Examine,
                    recorded: Seq::empty(),
                })
            },
    {
        match find_channel(destinations, &channel.name) {
            None => None,
            Some(i) => {
                let target = destinations[i].id.duplicate();
                Some(Replay::new(channel.id, target, names, channel.messages, ledger))
            },
        }
    }

    /// The ledger as the replay left it.
    pub fn ledger(&self) -> (r: &Ledger)
        requires
            self.wf(),
        ensures
            r.wf(),
            r@ == self@.ledger,
    {
        &self.ledger
    }

    /// Hands the ledger back.
    pub fn into_ledger(self) -> (r: Ledger)
        requires
            self.wf(),
        ensures
            r.wf(),
            r@ == self@.ledger,
    {
        self.ledger
    }

    fn decide(&self) -> (d: Decision)
        requires
            self.wf(),
            self@.next < self@.messages.len(),
        ensures
            decision_view(d) == plan_now(self@),
    {
        let m = &self.messages[self.next];
        match m {
            Message::Message { ts, reply_count, thread_ts, .. } => {
                if self.ledger.lookup(&self.source, ts).is_some() {
                    return Decision::Skip;
                }
                match (thread_ts, reply_count) {
                    (Some(parent), None) => match self.ledger.lookup(&self.source, parent) {
                        None => Decision::OrphanReply,
                        Some(rec) => match &rec.discord_thread_id {
                            None => Decision::MissingThread,
                            Some(t) => Decision::Reply(t.duplicate()),
                        },
                    },
                    (_, Some(count)) => Decision::Root(*count > 0),
                    (None, None) => Decision::Plain,
                }
            },
        }
    }

    fn fail(&mut self, error: ReplayError) -> (r: Action)
        requires
            old(self).wf(),
        ensures
            final(self).wf(),
            (final(self)@, r@) == failed(old(self)@, error@),
    {
        let ts = if self.next < self.messages.len() {
            Some(self.messages[self.next].ts())
        } else {
            None
        };
        self.stage = Stage::Failed;
        assert(self@ == ReplayView { stage: StageView::Failed, ..old(self)@ });
        Action::Failed { error, ts }
    }

    fn fetch_from(&mut self, content: String, files: Vec<(String, FilePost)>, k: usize) -> (r: Action)
        requires
            old(self).wf(),
            old(self)@.next < old(self)@.messages.len(),
            posts(plan_now(old(self)@)),
            k <= files_of(current(old(self)@)).len(),
        ensures
            final(self).wf(),
            (final(self)@, r@) == fetch_from(old(self)@, content@, files_view(files@), k as int),
    {
        let ghost fs = files_of(current(self@));
        let mut j: usize = k;
        let mut url: Option<String> = None;
        match &self.messages[self.next] {
            Message::Message { files: attached, .. } => match attached {
                Some(v) => {
                    while j < v.len() && !is_hosted(&v[j])
                        invariant
                            fs == v@,
                            k <= j <= v.len(),
                            forall|i: int| k <= i < j ==> !(fs[i] is Hosted),
                        decreases v.len() - j,
                    {
                        j = j + 1;
                    }
                    if j < v.len() {
                        match &v[j] {
                            File::Hosted { url_private_download, .. } => {
                                url = Some(url_private_download.clone());
                            },
                            _ => {},
                        }
                    }
                },
                None => {},
            },
        }
        proof {
            lemma_next_hosted(fs, k as int, j as int);
        }
        assert(url is Some ==> j < fs.len() && fs[j as int] is Hosted && url->0@ == url_of(fs[j as int]));
        assert(url is None ==> j == fs.len());
        match url {
            Some(u) => {
                let ghost fv = files_view(files@);
                self.stage = Stage::Fetch { content, files, k: j };
                assert(self@ == ReplayView {
                    stage: StageView::Fetch { content: content@, files: fv, k: j as int },
                    ..old(self)@
                });
                Action::FetchFile { url: u }
            },
            None => {
                let channel = match self.decide() {
                    Decision::Reply(t) => t,
                    _ => self.target.duplicate(),
                };
                self.stage = Stage::Post;
                assert(self@ == ReplayView { stage: StageView::Post, ..old(self)@ });
                Action::PostMessage { channel, message: MessagePost { content }, files }
            },
        }
    }

    fn examine(&mut self) -> (r: Action)
        requires
            old(self).wf(),
            old(self)@.stage is Examine,
        ensures
            final(self).wf(),
            (final(self)@, r@) == examine(old(self)@),
    {
        loop
            invariant
                self.wf(),
                self@.stage is Examine,
                examine(self@) == examine(old(self)@),
            decreases self.messages.len() - self.next,
        {
            if self.next >= self.messages.len() {
                self.stage = Stage::Finished;
                return Action::Finished;
            }
            match self.decide() {
                Decision::Skip => {
                    self.next = self.next + 1;
                },
                Decision::OrphanReply => {
                    return self.fail(ReplayError::OrphanReply);
                },
                Decision::MissingThread => {
                    return self.fail(ReplayError::MissingThread);
                },
                _ => {
                    let content = match &self.messages[self.next] {
                        Message::Message { user, ts, text, .. } => render_message(
                            &self.names,
                            user.as_str(),
                            ts,
                            text.as_str(),
                        ),
                    };
                    let files: Vec<(String, FilePost)> = Vec::new();
                    assert(files_view(files@) =~= Seq::empty());
                    return self.fetch_from(content, files, 0);
                },
            }
        }
    }

    fn record_current(&mut self, message: MessageId, thread: Option<ChannelId>) -> (r: Action)
        requires
            old(self).wf(),
            old(self)@.next < old(self)@.messages.len(),
            posts(plan_now(old(self)@)),
        ensures
            final(self).wf(),
            ({
                let rec = record_for(old(self)@, message@, opt_view(thread));
                &&& final(self)@ == (ReplayView { stage: StageView::Record(rec), ..old(self)@ })
                &&& r@ == ActionView::Record(rec)
            }),
    {
        let record = PostRecord {
            id: message,
            slack_channel_id: self.source.clone(),
            discord_channel_id: self.target.duplicate(),
            slack_ts: self.messages[self.next].ts(),
            discord_thread_id: thread,
        };
        let copy = record.duplicate();
        let ghost rec = record@;
        self.stage = Stage::Record { record };
        assert(self@ == ReplayView { stage: StageView::Record(rec), ..old(self)@ });
        Action::Record { record: copy }
    }

    /// Takes the answer to the last action and gives the next action.
    pub fn step(&mut self, event: Event) -> (r: Action)
        requires
            old(self).wf(),
        ensures
            final(self).wf(),
            (final(self)@, r@) == replay_next(old(self)@, event@),
    {
        let ghost s0 = self@;
        assert(replay_inv(s0));
        let mut stage = Stage::Failed;
        core::mem::swap(&mut stage, &mut self.stage);
        assert(self@ == ReplayView { stage: StageView::Failed, ..s0 });
        match (stage, event) {
            (Stage::Examine, Event::Ready) => {
                self.stage = Stage::Examine;
                assert(self@ == s0);
                self.examine()
            },
            (Stage::Pause, Event::Ready) => {
                assert(s0.stage == StageView::Pause);
                assert(self.next < self.messages.len());
                self.next = self.next + 1;
                self.stage = Stage::Examine;
                assert(self@ == ReplayView { next: s0.next + 1, stage: StageView::Examine, ..s0 });
                self.examine()
            },
            (Stage::Fetch { content, mut files, k }, Event::Fetched(Ok(row))) => {
                assert(s0.stage == StageView::Fetch { content: content@, files: files_view(files@), k: k as int });
                assert(k < files_of(current(s0)).len());
                let named = match &self.messages[self.next] {
                    Message::Message { files: attached, .. } => match attached {
                        Some(v) => {
                            let n = v.len();
                            match &v[k] {
                                File::Hosted { name, title, .. } => {
                                    assert(k < n);
                                    Some((name.clone(), title.clone(), k + 1))
                                },
                                _ => None,
                            }
                        },
                        None => None,
                    },
                };
                match named {
                    Some((name, title, after)) => {
                        let ghost before = files@;
                        files.push((name, FilePost { mime: row.mime, title, body: row.inner }));
                        assert(files_view(files@) =~= files_view(before).push(
                            (name@, FilePostView { mime: row@.mime, title: title@, body: row@.inner }),
                        ));
                        self.fetch_from(content, files, after)
                    },
                    None => self.fail(ReplayError::UnexpectedEvent),
                }
            },
            (Stage::Fetch { .. }, Event::Fetched(Err(e))) => self.fail(ReplayError::Fetch(e)),
            (Stage::Post, Event::Posted(Ok(posted))) => {
                match self.decide() {
                    Decision::Root(true) => {
                        let message = posted.id.duplicate();
                        self.stage = Stage::Open { message };
                        assert(self@ == ReplayView { stage: StageView::Open(posted.id@), ..s0 });
                        Action::StartThread {
                            channel: self.target.duplicate(),
                            message: posted.id,
                            name: String::from_str(THREAD_NAME),
                        }
                    },
                    Decision::Reply(t) => self.record_current(posted.id, Some(t)),
                    _ => self.record_current(posted.id, None),
                }
            },
            (Stage::Post, Event::Posted(Err(e))) => self.fail(ReplayError::Post(e)),
            (Stage::Open { message }, Event::ThreadStarted(Ok(thread))) => {
                self.record_current(message, Some(thread))
            },
            (Stage::Open { .. }, Event::ThreadStarted(Err(e))) => self.fail(ReplayError::StartThread(e)),
            (Stage::Record { record }, Event::Recorded(Ok(()))) => {
                let ghost rec = record@;
                let _ = self.ledger.record(record);
                self.recorded = Ghost(self.recorded@.push(self.next as int));
                self.stage = Stage::Pause;
                assert(self@ == ReplayView {
                    ledger: s0.ledger.insert(key_of(rec), rec),
                    stage: StageView::Pause,
                    recorded: s0.recorded.push(s0.next),
                    ..s0
                });
                Action::Pause { millis: POST_INTERVAL_MILLIS }
            },
            (Stage::Record { .. }, Event::Recorded(Err(e))) => self.fail(ReplayError::Record(e)),
            (Stage::Finished, _) => {
                self.stage = Stage::Finished;
                assert(self@ == s0);
                Action::Finished
            },
            (_, _) => self.fail(ReplayError::UnexpectedEvent),
        }
    }
}

/// The part of the invariant that posting relies on: while a message is
/// being posted it has no ledger entry, and the entry to write is its own.
/// Every step keeps it ([`lemma_posting_inv_step`]), and [`replay_inv`]
/// implies it.
pub open spec fn posting_inv(s: ReplayView) -> bool {
    &&& 0 <= s.next
    &&& (s.stage is Fetch || s.stage is Post || s.stage is Open || s.stage is Record) ==> (s.next < s.messages.len() && posts(plan_now(s)))
    &&& (s.stage matches StageView::Record(rec) ==> key_of(rec) == message_key(s.source, current(s)))
}

/// Views of the replay that a step leaves unchanged.
pub open spec fn same_channel(a: ReplayView, b: ReplayView) -> bool {
    &&& a.source == b.source
    &&& a.target == b.target
    &&& a.names == b.names
    &&& a.messages == b.messages
}

proof fn lemma_fetch_from(s: ReplayView, content: Seq<char>, files: Seq<(Seq<char>, FilePostView)>, k: int)
    ensures
        ({
            let (t, a) = fetch_from(s, content, files, k);
            &&& same_channel(t, s)
            &&& t.ledger == s.ledger
            &&& t.recorded == s.recorded
            &&& t.next == s.next
            &&& (a matches ActionView::PostMessage { channel, .. } ==> channel == post_channel_of(plan_now(s), s.target))
            &&& (a is PostMessage || a is FetchFile)
            &&& (t.stage is Fetch || t.stage is Post)
        }),
{
}

proof fn lemma_examine(s: ReplayView)
    requires
        0 <= s.next,
    ensures
        ({
            let (t, a) = examine(s);
            &&& same_channel(t, s)
            &&& t.ledger == s.ledger
            &&& t.recorded == s.recorded
            &&& s.next <= t.next
            &&& forall|j: int| s.next <= j < t.next ==> s.ledger.contains_key(#[trigger] message_key(s.source, s.messages[j]))
            &&& (a is Finished ==> t.next >= s.messages.len())
            &&& (a is PostMessage ==> t.next < s.messages.len() && posts(plan_now(t)))
            &&& ((t.stage is Fetch || t.stage is Post) ==> t.next < s.messages.len() && posts(plan_now(t)))
            &&& !(t.stage is Open || t.stage is Record)
            &&& (a matches ActionView::PostMessage { channel, .. } ==> channel == post_channel_of(plan_now(t), s.target))
        }),
    decreases s.messages.len() - s.next,
{
    if 0 <= s.next < s.messages.len() {
        match plan_now(s) {
            Plan::Skip => {
                lemma_examine(ReplayView { next: s.next + 1, stage: StageView::Examine, ..s });
            },
            Plan::OrphanReply => {},
            Plan::MissingThread => {},
            _ => {
                lemma_fetch_from(s, rendered(s.names, current(s)), Seq::empty(), 0);
            },
        }
    }
}

/// A replay posts a message only while the ledger has no entry for it, and
/// once the entry for a posted message is written the message is skipped
/// from then on: across any number of replays against the same ledger, each
/// message is posted at most once.
pub proof fn law_message_posted_at_most_once(s: ReplayView, e: EventView)
    requires
        posting_inv(s),
    ensures
        ({
            let (t, a) = replay_next(s, e);
            &&& a is PostMessage ==> !s.ledger.contains_key(message_key(s.source, current(t)))
            &&& (s.stage is Record && e == EventView::Recorded(Ok(()))) ==> plan_of(t.ledger, s.source, current(s)) is Skip
        }),
{
    match (s.stage, e) {
        (StageView::Examine, EventView::Ready) => lemma_examine(s),
        (StageView::Pause, EventView::Ready) => lemma_examine(ReplayView { next: s.next + 1, stage: StageView::Examine, ..s }),
        (StageView::Fetch { content, files, k }, EventView::Fetched(Ok(row))) => {
            if files_of(current(s))[k] is Hosted {
                let f = files_of(current(s))[k];
                let name = f->Hosted_name;
                let title = f->Hosted_title;
                lemma_fetch_from(s, content, files.push((name@, FilePostView { mime: row.mime, title: title@, body: row.inner })), k + 1);
            }
        },
        _ => {},
    }
}

/// A step keeps [`posting_inv`], keeps the channel, and keeps every ledger
/// entry.
pub proof fn lemma_posting_inv_step(s: ReplayView, e: EventView)
    requires
        posting_inv(s),
    ensures
        ({
            let t = replay_next(s, e).0;
            &&& posting_inv(t)
            &&& same_channel(t, s)
            &&& forall|k: LedgerKey| s.ledger.contains_key(k) ==> #[trigger] t.ledger.contains_key(k)
        }),
{
    match (s.stage, e) {
        (StageView::Examine, EventView::Ready) => lemma_examine(s),
        (StageView::Pause, EventView::Ready) => lemma_examine(ReplayView { next: s.next + 1, stage: StageView::Examine, ..s }),
        (StageView::Fetch { content, files, k }, EventView::Fetched(Ok(row))) => {
            if files_of(current(s))[k] is Hosted {
                let f = files_of(current(s))[k];
                let name = f->Hosted_name;
                let title = f->Hosted_title;
                lemma_fetch_from(s, content, files.push((name@, FilePostView { mime: row.mime, title: title@, body: row.inner })), k + 1);
            }
        },
        _ => {},
    }
}

/// A finite run of the machine: each state and action is what
/// [`replay_next`] gives for the state before it and the event handed in.
pub open spec fn is_run(states: Seq<ReplayView>, events: Seq<EventView>, actions: Seq<ActionView>) -> bool {
    &&& states.len() == events.len() + 1
    &&& actions.len() == events.len()
    &&& forall|i: int| 0 <= i < events.len() ==> #[trigger] replay_next(states[i], events[i]) == (states[i + 1], actions[i])
}

proof fn lemma_run_keeps(states: Seq<ReplayView>, events: Seq<EventView>, actions: Seq<ActionView>, key: LedgerKey, n: int)
    requires
        is_run(states, events, actions),
        posting_inv(states[0]),
        states[0].ledger.contains_key(key),
        0 <= n < states.len(),
    ensures
        posting_inv(states[n]),
        states[n].ledger.contains_key(key),
        same_channel(states[n], states[0]),
    decreases n,
{
    if n > 0 {
        lemma_run_keeps(states, events, actions, key, n - 1);
        assert(replay_next(states[n - 1], events[n - 1]) == (states[n], actions[n - 1]));
        lemma_posting_inv_step(states[n - 1], events[n - 1]);
    }
}

/// Exactly once, across runs: the ledger only grows, so once a message has
/// an entry (its post and its entry written, in this run or an earlier one
/// against the same ledger) no later step of any run posts it again. With
/// [`law_finished_replay_ledgers_every_message`], a run that finishes leaves
/// every message posted exactly once.
pub proof fn law_ledgered_message_never_posted(
    states: Seq<ReplayView>,
    events: Seq<EventView>,
    actions: Seq<ActionView>,
    key: LedgerKey,
)
    requires
        is_run(states, events, actions),
        posting_inv(states[0]),
        states[0].ledger.contains_key(key),
    ensures
        forall|i: int| 0 <= i < states.len() ==> (#[trigger] states[i]).ledger.contains_key(key),
        forall|i: int| 0 <= i < actions.len() && (#[trigger] actions[i]) is PostMessage ==> message_key(
            states[0].source,
            current(states[i + 1]),
        ) != key,
{
    assert forall|i: int| 0 <= i < states.len() implies (#[trigger] states[i]).ledger.contains_key(key) by {
        lemma_run_keeps(states, events, actions, key, i);
    }
    assert forall|i: int| 0 <= i < actions.len() && (#[trigger] actions[i]) is PostMessage implies message_key(
        states[0].source,
        current(states[i + 1]),
    ) != key by {
        lemma_run_keeps(states, events, actions, key, i);
        assert(replay_next(states[i], events[i]) == (states[i + 1], actions[i]));
        law_message_posted_at_most_once(states[i], events[i]);
    }
}

/// Replaying a channel whose every message already has a ledger entry
/// finishes at once: no post, no thread, no ledger entry, no call at all.
pub proof fn law_replay_of_migrated_channel_posts_nothing(s: ReplayView)
    requires
        0 <= s.next,
        s.stage is Examine,
        forall|j: int| 0 <= j < s.messages.len() ==> s.ledger.contains_key(#[trigger] message_key(s.source, s.messages[j])),
    ensures
        ({
            let (t, a) = replay_next(s, EventView::Ready);
            &&& a is Finished
            &&& t.ledger == s.ledger
            &&& t.recorded == s.recorded
            &&& t.stage is Finished
        }),
    decreases s.messages.len() - s.next,
{
    if 0 <= s.next < s.messages.len() {
        assert(s.ledger.contains_key(message_key(s.source, s.messages[s.next])));
        let u = ReplayView { next: s.next + 1, stage: StageView::Examine, ..s };
        law_replay_of_migrated_channel_posts_nothing(u);
    }
}

/// Once a replay has finished, every message of the channel has a ledger entry.
pub proof fn law_finished_replay_ledgers_every_message(r: &Replay)
    requires
        r.wf(),
        r@.stage is Finished,
    ensures
        forall|j: int| 0 <= j < r@.messages.len() ==> r@.ledger.contains_key(#[trigger] message_key(r@.source, r@.messages[j])),
{
}

/// The invariant of a replay, as the laws over views assume it.
pub proof fn lemma_replay_inv(r: &Replay)
    requires
        r.wf(),
    ensures
        replay_inv(r@),
        posting_inv(r@),
{
}

/// In a channel in ascending timestamp order, of two recorded messages the
/// one with the earlier timestamp was recorded first.
pub proof fn law_earlier_message_recorded_first(r: &Replay, x: int, y: int)
    requires
        r.wf(),
        sorted_by_ts(r@.messages),
        0 <= x < r@.recorded.len(),
        0 <= y < r@.recorded.len(),
        ts_lt(r@.messages[r@.recorded[x]].spec_ts(), r@.messages[r@.recorded[y]].spec_ts()),
    ensures
        x < y,
{
    if y < x {
        assert(r@.recorded[y] < r@.recorded[x]);
    }
}

/// Where the channel's messages are in strictly ascending timestamp order,
/// the ledger entries of a replay are written in strictly ascending timestamp
/// order too.
pub proof fn law_records_follow_timestamp_order(r: &Replay)
    requires
        r.wf(),
        forall|i: int, j: int| 0 <= i < j < r@.messages.len() ==> ts_lt(r@.messages[i].spec_ts(), r@.messages[j].spec_ts()),
    ensures
        forall|i: int, j: int| 0 <= i < j < r@.recorded.len() ==> ts_lt(
            r@.messages[r@.recorded[i]].spec_ts(),
            r@.messages[r@.recorded[j]].spec_ts(),
        ),
{
    assert forall|i: int, j: int| 0 <= i < j < r@.recorded.len() implies ts_lt(
        r@.messages[r@.recorded[i]].spec_ts(),
        r@.messages[r@.recorded[j]].spec_ts(),
    ) by {
        assert(0 <= r@.recorded[i] < r@.recorded[j] < r@.messages.len());
    }
}

/// A reply is posted into the destination thread that its root's ledger
/// entry names, and only when that entry names one.
pub proof fn law_reply_posts_into_root_thread(s: ReplayView, e: EventView)
    requires
        posting_inv(s),
    ensures
        ({
            let (t, a) = replay_next(s, e);
            a matches ActionView::PostMessage { channel, .. } ==> match kind_of(current(t)) {
                Kind::Reply(p) => s.ledger.contains_key((s.source, p)) && s.ledger[(s.source, p)].thread == Some(channel),
                _ => channel == s.target,
            }
        }),
{
    law_message_posted_at_most_once(s, e);
    match (s.stage, e) {
        (StageView::Examine, EventView::Ready) => lemma_examine(s),
        (StageView::Pause, EventView::Ready) => lemma_examine(ReplayView { next: s.next + 1, stage: StageView::Examine, ..s }),
        (StageView::Fetch { content, files, k }, EventView::Fetched(Ok(row))) => {
            if files_of(current(s))[k] is Hosted {
                let f = files_of(current(s))[k];
                let name = f->Hosted_name;
                let title = f->Hosted_title;
                lemma_fetch_from(s, content, files.push((name@, FilePostView { mime: row.mime, title: title@, body: row.inner })), k + 1);
            }
        },
        _ => {},
    }
}

} // verus!
