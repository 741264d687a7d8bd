//! Threads, comments, announcements, events and likes held in memory, and the
//! content flows run against them. Who may write is decided by the memberships
//! of the club registry.

use vstd::prelude::*;
use crate::text::decimal_text;
use crate::club_registry::{level_of, ClubRegistry};
use crate::thread_comment::{
    after_like_insert, already_liked_text, created_reply, denial_text, gate_write, write_refusal,
    ContentKind, LikeInsert, Likeable, StatusResponse, StatusResponseView,
};

verus! {

/// A thread of a club.
#[derive(Debug)]
pub struct Thread {
    pub id: i32,
    pub title: String,
    pub content: String,
    pub created_at: i64,
    pub club_id: i32,
    pub likes: i32,
}

/// Mathematical form of a `Thread`.
pub struct ThreadView {
    pub id: int,
    pub title: Seq<char>,
    pub content: Seq<char>,
    pub created_at: i64,
    pub club_id: i32,
    pub likes: int,
}

impl View for Thread {
    type V = ThreadView;

    open spec fn view(&self) -> ThreadView {
        ThreadView {
            id: self.id as int,
            title: self.title@,
            content: self.content@,
            created_at: self.created_at,
            club_id: self.club_id,
            likes: self.likes as int,
        }
    }
}

impl Thread {
    /// A copy of the thread.
    pub fn duplicate(&self) -> (copy: Thread)
        ensures
            copy@ == self@,
    {
        Thread {
            id: self.id,
            title: self.title.clone(),
            content: self.content.clone(),
            created_at: self.created_at,
            club_id: self.club_id,
            likes: self.likes,
        }
    }
}

/// A comment on a thread.
#[derive(Debug)]
pub struct Comment {
    pub id: i32,
    pub content: String,
    pub thread_id: i32,
    pub user_id: i32,
    pub likes: i32,
    pub created_at: i64,
}

/// Mathematical form of a `Comment`.
pub struct CommentView {
    pub id: int,
    pub content: Seq<char>,
    pub thread_id: i32,
    pub user_id: i32,
    pub likes: int,
    pub created_at: i64,
}

impl View for Comment {
    type V = CommentView;

    open spec fn view(&self) -> CommentView {
        CommentView {
            id: self.id as int,
            content: self.content@,
            thread_id: self.thread_id,
            user_id: self.user_id,
            likes: self.likes as int,
            created_at: self.created_at,
        }
    }
}

impl Comment {
    /// A copy of the comment.
    pub fn duplicate(&self) -> (copy: Comment)
        ensures
            copy@ == self@,
    {
        Comment {
            id: self.id,
            content: self.content.clone(),
            thread_id: self.thread_id,
            user_id: self.user_id,
            likes: self.likes,
            created_at: self.created_at,
        }
    }
}

/// An announcement of a club.
#[derive(Debug)]
pub struct Announcement {
    pub id: i32,
    pub title: String,
    pub content: String,
    pub club_id: i32,
    pub created_at: i64,
}

/// Mathematical form of an `Announcement`.
pub struct AnnouncementView {
    pub id: int,
    pub title: Seq<char>,
    pub content: Seq<char>,
    pub club_id: i32,
    pub created_at: i64,
}

impl View for Announcement {
    type V = AnnouncementView;

    open spec fn view(&self) -> AnnouncementView {
        AnnouncementView {
            id: self.id as int,
            title: self.title@,
            content: self.content@,
            club_id: self.club_id,
            created_at: self.created_at,
        }
    }
}

impl Announcement {
    /// A copy of the announcement.
    pub fn duplicate(&self) -> (copy: Announcement)
        ensures
            copy@ == self@,
    {
        Announcement {
            id: self.id,
            title: self.title.clone(),
            content: self.content.clone(),
            club_id: self.club_id,
            created_at: self.created_at,
        }
    }
}

/// An event of a club.
#[derive(Debug)]
pub struct Event {
    pub id: i32,
    pub title: String,
    pub description: String,
    pub user_id: i32,
    pub club_id: i32,
    pub starts_at: i64,
    pub venue: String,
}

/// Mathematical form of an `Event`.
pub struct EventView {
    pub id: int,
    pub title: Seq<char>,
    pub description: Seq<char>,
    pub user_id: i32,
    pub club_id: i32,
    pub starts_at: i64,
    pub venue: Seq<char>,
}

impl View for Event {
    type V = EventView;

    open spec fn view(&self) -> EventView {
        EventView {
            id: self.id as int,
            title: self.title@,
            description: self.description@,
            user_id: self.user_id,
            club_id: self.club_id,
            starts_at: self.starts_at,
            venue: self.venue@,
        }
    }
}

impl Event {
    /// A copy of the event.
    pub fn duplicate(&self) -> (copy: Event)
        ensures
            copy@ == self@,
    {
        Event {
            id: self.id,
            title: self.title.clone(),
            description: self.description.clone(),
            user_id: self.user_id,
            club_id: self.club_id,
            starts_at: self.starts_at,
            venue: self.venue.clone(),
        }
    }
}

/// One like: the user likes the thread or comment `target_id`.
#[derive(Clone, Copy, Debug, PartialEq, Eq, Structural)]
pub struct Like {
    pub user_id: i32,
    pub target_id: i32,
}

/// Whether `likes` holds the like `like`.
pub open spec fn has_like(likes: Seq<Like>, like: Like) -> bool {
    likes.contains(like)
}

/// Mathematical form of a `Board`: its tables, each in insertion order.
pub struct BoardView {
    pub threads: Seq<ThreadView>,
    pub comments: Seq<CommentView>,
    pub announcements: Seq<AnnouncementView>,
    pub events: Seq<EventView>,
    pub thread_likes: Seq<Like>,
    pub comment_likes: Seq<Like>,
}

impl BoardView {
    /// The invariant of the board: in each table the ids count up from 1 in
    /// insertion order.
    pub open spec fn wf(self) -> bool {
        &&& self.threads.len() <= i32::MAX
        &&& self.comments.len() <= i32::MAX
        &&& self.announcements.len() <= i32::MAX
        &&& self.events.len() <= i32::MAX
        &&& forall|i: int| 0 <= i < self.threads.len() ==> (#[trigger] self.threads[i]).id == i + 1
        &&& forall|i: int| 0 <= i < self.comments.len() ==> (#[trigger] self.comments[i]).id == i + 1
        &&& forall|i: int|
            0 <= i < self.announcements.len() ==> (#[trigger] self.announcements[i]).id == i + 1
        &&& forall|i: int| 0 <= i < self.events.len() ==> (#[trigger] self.events[i]).id == i + 1
    }
}

/// What the creation of content of the kind `kind` comes to, where the author's
/// membership lookup gave `level` and the table holds `rows` rows: the id of the
/// new row, or the answer that ends the request.
pub open spec fn creation_of(kind: ContentKind, level: Option<i32>, rows: nat) -> Result<
    int,
    StatusResponseView,
> {
    match write_refusal(kind, level) {
        Some(refusal) => Err(refusal),
        None => if rows + 1 > i32::MAX {
            Err(StatusResponseView::ServerError)
        } else {
            Ok(rows as int + 1)
        },
    }
}

/// Whether `answer` acknowledges the creation of the row `id` of the kind `kind`:
/// a thread is acknowledged plainly, an announcement or event with its id in
/// decimal.
pub open spec fn acknowledges(answer: StatusResponse, kind: ContentKind, id: int) -> bool {
    match kind {
        ContentKind::Thread => answer@ == StatusResponseView::Success,
        _ => answer@ == StatusResponseView::SuccessWithData(decimal_text(id)),
    }
}

/// Content is created only by members whose privilege level exceeds 1: at level
/// 0 or 1 the request is refused with the reason of its kind, and from level 2 on
/// it is carried out and gives the next id of its table.
pub proof fn lemma_write_gate(kind: ContentKind, level: i32, rows: nat)
    ensures
        level <= 1 ==> creation_of(kind, Some(level), rows) == Err::<int, StatusResponseView>(
            StatusResponseView::UserError(denial_text(kind)),
        ),
        level >= 2 && rows < i32::MAX ==> creation_of(kind, Some(level), rows) == Ok::<
            int,
            StatusResponseView,
        >(rows as int + 1),
{
}

/// The rows of a table as a list query shows them that puts the newest first.
pub open spec fn newest_first<T>(rows: Seq<T>) -> Seq<T> {
    Seq::new(rows.len(), |i: int| rows[rows.len() - 1 - i])
}

/// The number of announcements that the public list shows at most.
pub const PUBLIC_ANNOUNCEMENTS: usize = 5;

/// The rows that the public list of announcements shows: the newest five, newest
/// first.
pub open spec fn latest<T>(rows: Seq<T>) -> Seq<T> {
    if rows.len() <= PUBLIC_ANNOUNCEMENTS {
        newest_first(rows)
    } else {
        newest_first(rows).take(PUBLIC_ANNOUNCEMENTS as int)
    }
}

/// A row that was just added to a table is shown by every list query on the
/// table: it is in the table, and it comes first where the newest come first.
pub proof fn lemma_new_row_is_listed<T>(rows: Seq<T>, row: T)
    ensures
        rows.push(row).contains(row),
        newest_first(rows.push(row))[0] == row,
        latest(rows.push(row))[0] == row,
{
    let next = rows.push(row);
    assert(next[rows.len() as int] == row);
}

/// What a like of `target_id` by `user_id` comes to, where `exists` says whether
/// the target is there, `likes` are the likes so far and `count` is the target's
/// counter.
pub open spec fn like_outcome(
    what: Likeable,
    exists: bool,
    likes: Seq<Like>,
    like: Like,
    count: int,
) -> StatusResponseView {
    if !exists {
        StatusResponseView::ServerError
    } else if has_like(likes, like) {
        StatusResponseView::UserError(already_liked_text(what))
    } else if count + 1 > i32::MAX {
        StatusResponseView::ServerError
    } else {
        StatusResponseView::Success
    }
}

/// The content tables of the platform.
pub struct Board {
    threads: Vec<Thread>,
    comments: Vec<Comment>,
    announcements: Vec<Announcement>,
    events: Vec<Event>,
    thread_likes: Vec<Like>,
    comment_likes: Vec<Like>,
}

impl View for Board {
    type V = BoardView;

    closed spec fn view(&self) -> BoardView {
        BoardView {
            threads: Seq::new(self.threads@.len(), |i: int| self.threads@[i]@),
            comments: Seq::new(self.comments@.len(), |i: int| self.comments@[i]@),
            announcements: Seq::new(self.announcements@.len(), |i: int| self.announcements@[i]@),
            events: Seq::new(self.events@.len(), |i: int| self.events@[i]@),
            thread_likes: self.thread_likes@,
            comment_likes: self.comment_likes@,
        }
    }
}

/// The mathematical form of each thread of a list.
pub open spec fn threads_view(list: Seq<Thread>) -> Seq<ThreadView> {
    Seq::new(list.len(), |i: int| list[i]@)
}

/// The mathematical form of each comment of a list.
pub open spec fn comments_view(list: Seq<Comment>) -> Seq<CommentView> {
    Seq::new(list.len(), |i: int| list[i]@)
}

/// The mathematical form of each announcement of a list.
pub open spec fn announcements_view(list: Seq<Announcement>) -> Seq<AnnouncementView> {
    Seq::new(list.len(), |i: int| list[i]@)
}

/// The mathematical form of each event of a list.
pub open spec fn events_view(list: Seq<Event>) -> Seq<EventView> {
    Seq::new(list.len(), |i: int| list[i]@)
}

/// Whether `likes` holds the like `like`.
fn liked(likes: &Vec<Like>, like: Like) -> (held: bool)
    ensures
        held == has_like(likes@, like),
{
    let mut i: usize = 0;
    while i < likes.len()
        invariant
            i <= likes@.len(),
            forall|j: int| 0 <= j < i ==> likes@[j] != like,
        decreases likes@.len() - i,
    {
        if likes[i].user_id == like.user_id && likes[i].target_id == like.target_id {
            assert(likes@[i as int] == like);
            return true;
        }
        i += 1;
    }
    false
}

impl Board {
    /// A board without rows.
    pub fn new() -> (board: Board)
        ensures
            board@.wf(),
            board@.threads.len() == 0,
            board@.comments.len() == 0,
            board@.announcements.len() == 0,
            board@.events.len() == 0,
            board@.thread_likes.len() == 0,
            board@.comment_likes.len() == 0,
    {
        Board {
            threads: Vec::new(),
            comments: Vec::new(),
            announcements: Vec::new(),
            events: Vec::new(),
            thread_likes: Vec::new(),
            comment_likes: Vec::new(),
        }
    }

    /// Creates a thread in `club_id` in the name of `user_id`.
    pub fn create_thread(
        &mut self,
        registry: &ClubRegistry,
        user_id: i32,
        club_id: i32,
        title: String,
        content: String,
        now: i64,
    ) -> (answer: StatusResponse)
        requires
            old(self)@.wf(),
            registry@.wf(),
        ensures
            final(self)@.wf(),
            match creation_of(
                ContentKind::Thread,
                level_of(registry@.memberships, user_id, club_id),
                old(self)@.threads.len(),
            ) {
                Ok(id) => acknowledges(answer, ContentKind::Thread, id) && final(self)@ == (
                BoardView {
                    threads: old(self)@.threads.push(
                        ThreadView {
                            id,
                            title: title@,
                            content: content@,
                            created_at: now,
                            club_id,
                            likes: 0,
                        },
                    ),
                    ..old(self)@
                }),
                Err(refusal) => answer@ == refusal && final(self)@ == old(self)@,
            },
    {
        if let Err(answer) = gate_write(
            ContentKind::Thread,
            registry.privilege_level(user_id, club_id),
        ) {
            return answer;
        }
        let n: usize = self.threads.len();
        if n >= 2147483647 {
            return created_reply(ContentKind::Thread, None);
        }
        let id: i32 = (n + 1) as i32;
        let ghost before = self@;
        let row = Thread { id, title, content, created_at: now, club_id, likes: 0 };
        let ghost added = row@;
        self.threads.push(row);
        assert(self@.threads =~= before.threads.push(added));
        assert(self@.comments =~= before.comments);
        assert(self@.announcements =~= before.announcements);
        assert(self@.events =~= before.events);
        created_reply(ContentKind::Thread, Some(id))
    }

    /// Creates an announcement of `club_id` in the name of `user_id`.
    pub fn create_announcement(
        &mut self,
        registry: &ClubRegistry,
        user_id: i32,
        club_id: i32,
        title: String,
        content: String,
        now: i64,
    ) -> (answer: StatusResponse)
        requires
            old(self)@.wf(),
            registry@.wf(),
        ensures
            final(self)@.wf(),
            match creation_of(
                ContentKind::Announcement,
                level_of(registry@.memberships, user_id, club_id),
                old(self)@.announcements.len(),
            ) {
                Ok(id) => acknowledges(answer, ContentKind::Announcement, id) && final(self)@ == (
                BoardView {
                    announcements: old(self)@.announcements.push(
                        AnnouncementView {
                            id,
                            title: title@,
                            content: content@,
                            club_id,
                            created_at: now,
                        },
                    ),
                    ..old(self)@
                }),
                Err(refusal) => answer@ == refusal && final(self)@ == old(self)@,
            },
    {
        if let Err(answer) = gate_write(
            ContentKind::Announcement,
            registry.privilege_level(user_id, club_id),
        ) {
            return answer;
        }
        let n: usize = self.announcements.len();
        if n >= 2147483647 {
            return created_reply(ContentKind::Announcement, None);
        }
        let id: i32 = (n + 1) as i32;
        let ghost before = self@;
        let row = Announcement { id, title, content, club_id, created_at: now };
        let ghost added = row@;
        self.announcements.push(row);
        assert(self@.announcements =~= before.announcements.push(added));
        assert(self@.comments =~= before.comments);
        assert(self@.threads =~= before.threads);
        assert(self@.events =~= before.events);
        created_reply(ContentKind::Announcement, Some(id))
    }

    /// Creates an event of `club_id` in the name of `user_id`.
    pub fn create_event(
        &mut self,
        registry: &ClubRegistry,
        user_id: i32,
        club_id: i32,
        title: String,
        description: String,
        starts_at: i64,
        venue: String,
    ) -> (answer: StatusResponse)
        requires
            old(self)@.wf(),
            registry@.wf(),
        ensures
            final(self)@.wf(),
            match creation_of(
                ContentKind::Event,
                level_of(registry@.memberships, user_id, club_id),
                old(self)@.events.len(),
            ) {
                Ok(id) => acknowledges(answer, ContentKind::Event, id) && final(self)@ == (
                BoardView {
                    events: old(self)@.events.push(
                        EventView {
                            id,
                            title: title@,
                            description: description@,
                            user_id,
                            club_id,
                            starts_at,
                            venue: venue@,
                        },
                    ),
                    ..old(self)@
                }),
                Err(refusal) => answer@ == refusal && final(self)@ == old(self)@,
            },
    {
        if let Err(answer) = gate_write(
            ContentKind::Event,
            registry.privilege_level(user_id, club_id),
        ) {
            return answer;
        }
        let n: usize = self.events.len();
        if n >= 2147483647 {
            return created_reply(ContentKind::Event, None);
        }
        let id: i32 = (n + 1) as i32;
        let ghost before = self@;
        let row = Event { id, title, description, user_id, club_id, starts_at, venue };
        let ghost added = row@;
        self.events.push(row);
        assert(self@.events =~= before.events.push(added));
        assert(self@.comments =~= before.comments);
        assert(self@.threads =~= before.threads);
        assert(self@.announcements =~= before.announcements);
        created_reply(ContentKind::Event, Some(id))
    }

    /// Writes a comment of `user_id` on the thread `thread_id`. Any user may
    /// comment; the thread must exist.
    pub fn create_comment(&mut self, user_id: i32, thread_id: i32, content: String, now: i64) -> (answer:
        StatusResponse)
        requires
            old(self)@.wf(),
        ensures
            final(self)@.wf(),
            if 1 <= thread_id <= old(self)@.threads.len() && old(self)@.comments.len() < i32::MAX {
                &&& answer@ == StatusResponseView::Success
                &&& final(self)@ == (BoardView {
                    comments: old(self)@.comments.push(
                        CommentView {
                            id: old(self)@.comments.len() as int + 1,
                            content: content@,
                            thread_id,
                            user_id,
                            likes: 0,
                            created_at: now,
                        },
                    ),
                    ..old(self)@
                })
            } else {
                answer@ == StatusResponseView::ServerError && final(self)@ == old(self)@
            },
    {
        let n: usize = self.comments.len();
        if thread_id < 1 || self.threads.len() < thread_id as usize || n >= 2147483647 {
            return StatusResponse::of_statement(false);
        }
        let ghost before = self@;
        let row = Comment {
            id: (n + 1) as i32,
            content,
            thread_id,
            user_id,
            likes: 0,
            created_at: now,
        };
        let ghost added = row@;
        self.comments.push(row);
        assert(self@.comments =~= before.comments.push(added));
        assert(self@.events =~= before.events);
        assert(self@.threads =~= before.threads);
        assert(self@.announcements =~= before.announcements);
        StatusResponse::of_statement(true)
    }

    /// Records that `user_id` likes the thread `thread_id` and raises the
    /// thread's counter, both or neither. A user likes a thread once.
    pub fn like_thread(&mut self, user_id: i32, thread_id: i32) -> (answer: StatusResponse)
        requires
            old(self)@.wf(),
        ensures
            final(self)@.wf(),
            answer@ == like_outcome(
                Likeable::Thread,
                1 <= thread_id <= old(self)@.threads.len(),
                old(self)@.thread_likes,
                Like { user_id, target_id: thread_id },
                old(self)@.threads[thread_id - 1].likes,
            ),
            final(self)@ == (if answer@ is Success {
                BoardView {
                    thread_likes: old(self)@.thread_likes.push(
                        Like { user_id, target_id: thread_id },
                    ),
                    threads: old(self)@.threads.update(
                        thread_id - 1,
                        ThreadView {
                            likes: old(self)@.threads[thread_id - 1].likes + 1,
                            ..old(self)@.threads[thread_id - 1]
                        },
                    ),
                    ..old(self)@
                }
            } else {
                old(self)@
            }),
    {
        let like = Like { user_id, target_id: thread_id };
        let inserted = if thread_id < 1 || self.threads.len() < thread_id as usize {
            LikeInsert::Failed
        } else if liked(&self.thread_likes, like) {
            LikeInsert::UniqueViolation
        } else {
            LikeInsert::Recorded
        };
        if let Some(answer) = after_like_insert(Likeable::Thread, inserted) {
            return answer;
        }
        let at: usize = (thread_id - 1) as usize;
        if self.threads[at].likes >= 2147483647 {
            return StatusResponse::of_statement(false);
        }
        let ghost before = self@;
        let mut row = self.threads[at].duplicate();
        row.likes = row.likes + 1;
        self.threads.set(at, row);
        self.thread_likes.push(like);
        assert(self@.threads =~= before.threads.update(
            at as int,
            ThreadView { likes: before.threads[at as int].likes + 1, ..before.threads[at as int] },
        ));
        assert(self@.comments =~= before.comments);
        assert(self@.events =~= before.events);
        assert(self@.announcements =~= before.announcements);
        StatusResponse::of_statement(true)
    }

    /// Records that `user_id` likes the comment `comment_id` and raises the
    /// comment's counter, both or neither. A user likes a comment once.
    pub fn like_comment(&mut self, user_id: i32, comment_id: i32) -> (answer: StatusResponse)
        requires
            old(self)@.wf(),
        ensures
            final(self)@.wf(),
            answer@ == like_outcome(
                Likeable::Comment,
                1 <= comment_id <= old(self)@.comments.len(),
                old(self)@.comment_likes,
                Like { user_id, target_id: comment_id },
                old(self)@.comments[comment_id - 1].likes,
            ),
            final(self)@ == (if answer@ is Success {
                BoardView {
                    comment_likes: old(self)@.comment_likes.push(
                        Like { user_id, target_id: comment_id },
                    ),
                    comments: old(self)@.comments.update(
                        comment_id - 1,
                        CommentView {
                            likes: old(self)@.comments[comment_id - 1].likes + 1,
                            ..old(self)@.comments[comment_id - 1]
                        },
                    ),
                    ..old(self)@
                }
            } else {
                old(self)@
            }),
    {
        let like = Like { user_id, target_id: comment_id };
        let inserted = if comment_id < 1 || self.comments.len() < comment_id as usize {
            LikeInsert::Failed
        } else if liked(&self.comment_likes, like) {
            LikeInsert::UniqueViolation
        } else {
            LikeInsert::Recorded
        };
        if let Some(answer) = after_like_insert(Likeable::Comment, inserted) {
            return answer;
        }
        let at: usize = (comment_id - 1) as usize;
        if self.comments[at].likes >= 2147483647 {
            return StatusResponse::of_statement(false);
        }
        let ghost before = self@;
        let mut row = self.comments[at].duplicate();
        row.likes = row.likes + 1;
        self.comments.set(at, row);
        self.comment_likes.push(like);
        assert(self@.comments =~= before.comments.update(
            at as int,
            CommentView {
                likes: before.comments[at as int].likes + 1,
                ..before.comments[at as int]
            },
        ));
        assert(self@.threads =~= before.threads);
        assert(self@.events =~= before.events);
        assert(self@.announcements =~= before.announcements);
        StatusResponse::of_statement(true)
    }

    /// All threads, oldest first.
    pub fn threads(&self) -> (list: Vec<Thread>)
        ensures
            threads_view(list@) == self@.threads,
    {
        let mut list: Vec<Thread> = Vec::new();
        let mut i: usize = 0;
        while i < self.threads.len()
            invariant
                i <= self.threads@.len(),
                threads_view(list@) == self@.threads.take(i as int),
            decreases self.threads@.len() - i,
        {
            let ghost so_far = threads_view(list@);
            list.push(self.threads[i].duplicate());
            assert(threads_view(list@) =~= so_far.push(self@.threads[i as int]));
            assert(self@.threads.take(i + 1) =~= self@.threads.take(i as int).push(
                self@.threads[i as int],
            ));
            i += 1;
        }
        assert(self@.threads.take(i as int) =~= self@.threads);
        list
    }

    /// The comments on the thread `thread_id`, oldest first.
    pub fn comments(&self, thread_id: i32) -> (list: Vec<Comment>)
        ensures
            comments_view(list@) == self@.comments.filter(
                |c: CommentView| c.thread_id == thread_id,
            ),
    {
        let mut list: Vec<Comment> = Vec::new();
        let mut i: usize = 0;
        let ghost wanted = |c: CommentView| c.thread_id == thread_id;
        assert(comments_view(list@) =~= Seq::empty());
        assert(self@.comments.take(0).filter(wanted) =~= Seq::empty()) by {
            reveal(Seq::filter);
        }
        while i < self.comments.len()
            invariant
                i <= self.comments@.len(),
                wanted == |c: CommentView| c.thread_id == thread_id,
                comments_view(list@) == self@.comments.take(i as int).filter(wanted),
            decreases self.comments@.len() - i,
        {
            proof {
                let upto = self@.comments.take(i + 1);
                assert(upto.drop_last() =~= self@.comments.take(i as int));
                assert(upto.last() == self@.comments[i as int]);
                reveal(Seq::filter);
            }
            if self.comments[i].thread_id == thread_id {
                let ghost so_far = comments_view(list@);
                list.push(self.comments[i].duplicate());
                assert(comments_view(list@) =~= so_far.push(self@.comments[i as int]));
            }
            i += 1;
        }
        assert(self@.comments.take(i as int) =~= self@.comments);
        list
    }

    /// All announcements, newest first.
    pub fn announcements_full(&self) -> (list: Vec<Announcement>)
        ensures
            announcements_view(list@) == newest_first(self@.announcements),
    {
        let n: usize = self.announcements.len();
        let mut list: Vec<Announcement> = Vec::new();
        let mut i: usize = 0;
        while i < n
            invariant
                n == self.announcements@.len(),
                i <= n,
                list@.len() == i,
                forall|j: int|
                    0 <= j < i ==> (#[trigger] list@[j])@ == self@.announcements[n - 1 - j],
            decreases n - i,
        {
            list.push(self.announcements[n - 1 - i].duplicate());
            i += 1;
        }
        assert(announcements_view(list@) =~= newest_first(self@.announcements));
        list
    }

    /// The public list of announcements: the newest five, newest first.
    pub fn announcements(&self) -> (list: Vec<Announcement>)
        ensures
            announcements_view(list@) == latest(self@.announcements),
    {
        let n: usize = self.announcements.len();
        let shown: usize = if n <= PUBLIC_ANNOUNCEMENTS {
            n
        } else {
            PUBLIC_ANNOUNCEMENTS
        };
        let mut list: Vec<Announcement> = Vec::new();
        let mut i: usize = 0;
        while i < shown
            invariant
                n == self.announcements@.len(),
                shown <= n,
                i <= shown,
                list@.len() == i,
                forall|j: int|
                    0 <= j < i ==> (#[trigger] list@[j])@ == self@.announcements[n - 1 - j],
            decreases shown - i,
        {
            list.push(self.announcements[n - 1 - i].duplicate());
            i += 1;
        }
        assert(announcements_view(list@) =~= latest(self@.announcements));
        list
    }

    /// All events, newest first.
    pub fn events(&self) -> (list: Vec<Event>)
        ensures
            events_view(list@) == newest_first(self@.events),
    {
        let n: usize = self.events.len();
        let mut list: Vec<Event> = Vec::new();
        let mut i: usize = 0;
        while i < n
            invariant
                n == self.events@.len(),
                i <= n,
                list@.len() == i,
                forall|j: int| 0 <= j < i ==> (#[trigger] list@[j])@ == self@.events[n - 1 - j],
            decreases n - i,
        {
            list.push(self.events[n - 1 - i].duplicate());
            i += 1;
        }
        assert(events_view(list@) =~= newest_first(self@.events));
        list
    }
}

} // verus!
