use vstd::prelude::*;

use crate::attendance_store::Mark;
use crate::attendance_store::Post;
use crate::attendance_store::PostState;
use crate::attendance_store::Season;
use crate::failure::Failure;
use crate::ids::ChannelId;
use crate::ids::GuildId;
use crate::ids::Ping;
use crate::ids::RoleId;
use crate::ids::Snowflake;
use crate::ids::UserId;
use crate::render::digits;
use crate::schedule::first_after;
use crate::schedule::Hour;
use crate::schedule::Night;
use crate::schedule::Range;

verus! {

#[derive(Debug, Clone, Copy, PartialEq, Eq, Structural)]
pub enum Removal {
    Deleted,
    Gone,
}

/// Whether a sign-up post is new, and so pings, or redraws one that was removed.
#[derive(Debug, Clone, Copy, PartialEq, Eq, Structural)]
pub enum Delivery {
    New,
    Redraw,
}

#[derive(Debug, Clone, Copy, PartialEq, Eq, Structural)]
pub enum ClearScope {
    All,
    OutsideRange,
}

#[derive(Debug, Clone, Copy, PartialEq, Eq, Structural)]
pub struct PostsReport {
    pub touched: usize,
    pub failures: usize,
}

impl Default for PostsReport {
    fn default() -> (report: Self)
        ensures
            report == (PostsReport { touched: 0, failures: 0 }),
    {
        PostsReport { touched: 0, failures: 0 }
    }
}

/// Which season's post for which night.
#[derive(Debug, Clone, Copy, PartialEq, Eq, Structural)]
pub struct PostTag {
    pub season: i64,
    pub night: Night,
}

/// One player's answer for one hour, as the roster shows it.
#[derive(Debug, Clone, Copy, PartialEq, Eq, Structural)]
pub enum Cell {
    In,
    Out,
}

#[derive(Debug, Clone, Copy, PartialEq, Eq, Structural)]
pub struct HourTally {
    pub hour: Hour,
    pub attending: u32,
    pub nope: u32,
}

#[derive(Debug, Clone, Copy, PartialEq, Eq)]
pub struct RosterRow {
    pub user: UserId,
    pub cells: [Cell; 4],
}

/// Everything a sign-up post shows.
#[derive(Debug, Clone, PartialEq, Eq)]
pub struct SignupView {
    pub season: i64,
    pub number: u32,
    pub codename: Option<String>,
    pub night: Night,
    pub open: bool,
    pub pings: Vec<Ping>,
    pub hours: [HourTally; 4],
    pub rows: Vec<RosterRow>,
    pub hidden: usize,
}

#[derive(Debug, Clone, PartialEq, Eq)]
pub struct Sent {
    pub message: Snowflake,
    pub unheard: Vec<Ping>,
}

/// Which hours a sign-up click answers.
#[derive(Debug, Clone, Copy, PartialEq, Eq, Structural)]
pub enum Target {
    All,
    One(Hour),
}

#[derive(Debug, Clone, Copy, PartialEq, Eq, Structural)]
pub struct Click {
    pub guild: GuildId,
    pub channel: ChannelId,
    pub message: Snowflake,
    pub user: UserId,
    pub season: i64,
    pub night: Night,
    pub target: Target,
    pub attending: bool,
}

#[derive(Debug, Clone, PartialEq, Eq)]
pub enum ClickOutcome {
    Recorded,
    Closed { start_unix: i64 },
    UnknownSeason,
    Failed(Failure),
}

#[derive(Debug, Clone, PartialEq, Eq)]
pub enum RepostPing {
    Quiet,
    Again { checked: Vec<RoleId> },
}

#[derive(Debug, Clone, PartialEq, Eq)]
pub enum RepostOutcome {
    Reposted {
        night: Night,
        previous: Snowflake,
        message: Snowflake,
        adopted: bool,
        pinged: Vec<Ping>,
        unheard: Vec<Ping>,
    },
    NotFound,
    NothingOpen { next_post_at: Option<i64>, nights_left: usize },
    PingsChanged,
    Superseded,
    Failed(Failure),
}

/// What one beat of the sign-up clock did.
#[derive(Debug, Clone, PartialEq, Eq)]
pub struct TickReport {
    pub posted: Vec<PostTag>,
    pub adopted: Vec<PostTag>,
    pub closed: Vec<PostTag>,
    pub removed: Vec<PostTag>,
    pub failures: usize,
}

impl Default for TickReport {
    fn default() -> (report: Self)
        ensures
            report.posted@.len() == 0 && report.adopted@.len() == 0 && report.closed@.len() == 0
                && report.removed@.len() == 0 && report.failures == 0,
    {
        TickReport {
            posted: Vec::new(),
            adopted: Vec::new(),
            closed: Vec::new(),
            removed: Vec::new(),
            failures: 0,
        }
    }
}

impl TickReport {
    /// Both reports' work, this one's first.
    pub fn joined(self, other: Self) -> (both: Self)
        requires
            self.failures + other.failures <= usize::MAX,
        ensures
            both.posted@ == self.posted@ + other.posted@,
            both.adopted@ == self.adopted@ + other.adopted@,
            both.closed@ == self.closed@ + other.closed@,
            both.removed@ == self.removed@ + other.removed@,
            both.failures == self.failures + other.failures,
    {
        let TickReport { mut posted, mut adopted, mut closed, mut removed, failures } = self;
        let TickReport {
            posted: mut more_posted,
            adopted: mut more_adopted,
            closed: mut more_closed,
            removed: mut more_removed,
            failures: more_failures,
        } = other;
        posted.append(&mut more_posted);
        adopted.append(&mut more_adopted);
        closed.append(&mut more_closed);
        removed.append(&mut more_removed);
        TickReport { posted, adopted, closed, removed, failures: failures + more_failures }
    }
}

/// What clearing a server's seasons for a rehearsal reset did.
#[derive(Debug, Clone, Copy, PartialEq, Eq, Structural)]
pub struct PurgeReport {
    pub seasons: usize,
    pub messages: usize,
    pub answers: usize,
    pub failures: usize,
}

impl Default for PurgeReport {
    fn default() -> (report: Self)
        ensures
            report == (PurgeReport { seasons: 0, messages: 0, answers: 0, failures: 0 }),
    {
        PurgeReport { seasons: 0, messages: 0, answers: 0, failures: 0 }
    }
}

/// A sign-up post shows at most this many players.
pub const ROSTER_LIMIT: usize = 60;

const MILLIS_PER_SECOND: i64 = 1000;

// ---------------------------------------------------------------------------
// Picking posts.

/// The posts that `keep` keeps, in order.
pub open spec fn select(posts: Seq<Post>, keep: spec_fn(Post) -> bool) -> Seq<Post>
    decreases posts.len(),
{
    if posts.len() == 0 {
        Seq::empty()
    } else {
        let earlier = select(posts.drop_last(), keep);
        if keep(posts.last()) {
            earlier.push(posts.last())
        } else {
            earlier
        }
    }
}

pub open spec fn due_for_removal(now_unix: int) -> spec_fn(Post) -> bool {
    |post: Post| post.state != PostState::Removed && post.night.remove_at() <= now_unix
}

/// The posts still up whose night ended long enough ago that they come down.
pub fn due_removals(posts: &[Post], now_unix: i64) -> (due: Vec<Post>)
    ensures
        due@ == select(posts@, due_for_removal(now_unix as int)),
{
    let ghost keep = due_for_removal(now_unix as int);
    let mut due: Vec<Post> = Vec::new();
    let mut index: usize = 0;
    while index < posts.len()
        invariant
            keep == due_for_removal(now_unix as int),
            index <= posts.len(),
            due@ == select(posts@.take(index as int), keep),
        decreases posts.len() - index,
    {
        let post = posts[index];
        assert(posts@.take(index + 1).drop_last() == posts@.take(index as int));
        if post.state != PostState::Removed && post.night.remove_at_unix() <= now_unix {
            due.push(post);
        }
        index = index + 1;
    }
    assert(posts@.take(posts.len() as int) == posts@);
    due
}

pub open spec fn due_for_closing(swept: Seq<Night>, now_unix: int) -> spec_fn(Post) -> bool {
    |post: Post|
        post.state == PostState::Open && post.night.start() <= now_unix && !swept.contains(
            post.night,
        )
}

fn holds_night(nights: &[Night], night: Night) -> (found: bool)
    ensures
        found == nights@.contains(night),
{
    let mut index: usize = 0;
    while index < nights.len()
        invariant
            index <= nights.len(),
            forall|i: int| 0 <= i < index ==> nights@[i] != night,
        decreases nights.len() - index,
    {
        if nights[index] == night {
            return true;
        }
        index = index + 1;
    }
    false
}

/// The open posts whose night has started, except those just removed.
pub fn due_closures(posts: &[Post], swept: &[Night], now_unix: i64) -> (due: Vec<Post>)
    ensures
        due@ == select(posts@, due_for_closing(swept@, now_unix as int)),
{
    let ghost keep = due_for_closing(swept@, now_unix as int);
    let mut due: Vec<Post> = Vec::new();
    let mut index: usize = 0;
    while index < posts.len()
        invariant
            keep == due_for_closing(swept@, now_unix as int),
            index <= posts.len(),
            due@ == select(posts@.take(index as int), keep),
        decreases posts.len() - index,
    {
        let post = posts[index];
        assert(posts@.take(index + 1).drop_last() == posts@.take(index as int));
        if post.state == PostState::Open && post.night.start_unix() <= now_unix && !holds_night(
            swept,
            post.night,
        ) {
            due.push(post);
        }
        index = index + 1;
    }
    assert(posts@.take(posts.len() as int) == posts@);
    due
}

pub open spec fn clearable(range: Range, scope: ClearScope) -> spec_fn(Post) -> bool {
    |post: Post|
        post.state != PostState::Removed && match scope {
            ClearScope::All => true,
            ClearScope::OutsideRange => !range.holds_day(post.night.day()),
        }
}

/// The posts still up that a clear takes down: all of them, or those outside the range.
pub fn clear_targets(posts: &[Post], range: Range, scope: ClearScope) -> (targets: Vec<Post>)
    ensures
        targets@ == select(posts@, clearable(range, scope)),
{
    let ghost keep = clearable(range, scope);
    let mut targets: Vec<Post> = Vec::new();
    let mut index: usize = 0;
    while index < posts.len()
        invariant
            keep == clearable(range, scope),
            index <= posts.len(),
            targets@ == select(posts@.take(index as int), keep),
        decreases posts.len() - index,
    {
        let post = posts[index];
        assert(posts@.take(index + 1).drop_last() == posts@.take(index as int));
        let wanted = match scope {
            ClearScope::All => true,
            ClearScope::OutsideRange => !range.holds(post.night),
        };
        if post.state != PostState::Removed && wanted {
            targets.push(post);
        }
        index = index + 1;
    }
    assert(posts@.take(posts.len() as int) == posts@);
    targets
}

/// How a night's post goes out, given the post already recorded for it: a night with no post
/// gets a new one, a night whose post was removed gets it redrawn, and any other is left be.
pub open spec fn delivery_of(existing: Option<Post>) -> Option<Delivery> {
    match existing {
        Some(post) => if post.state != PostState::Removed {
            None
        } else {
            Some(Delivery::Redraw)
        },
        None => Some(Delivery::New),
    }
}

/// A repost that pings again goes out as new; a quiet one as a redraw.
pub open spec fn repost_delivery_of(ping: RepostPing) -> Delivery {
    match ping {
        RepostPing::Again { .. } => Delivery::New,
        RepostPing::Quiet => Delivery::Redraw,
    }
}

/// Whom a post delivered this way pings.
pub open spec fn pinged_by(delivery: Delivery, pings: Seq<Ping>) -> Seq<Ping> {
    match delivery {
        Delivery::New => pings,
        Delivery::Redraw => Seq::empty(),
    }
}

/// How a due night's post goes out, given the stored post for it: a post still up means there
/// is nothing to do; one that was removed is redrawn without pinging; none at all is new.
pub fn delivery_for(existing: Option<Post>) -> (delivery: Option<Delivery>)
    ensures
        delivery == delivery_of(existing),
{
    match existing {
        Some(post) => if post.state != PostState::Removed {
            None
        } else {
            Some(Delivery::Redraw)
        },
        None => Some(Delivery::New),
    }
}

/// The first open post whose night starts after `instant`.
pub open spec fn repostable(posts: Seq<Post>, instant: int, from: int) -> Option<Post>
    decreases posts.len() - from,
{
    if from < 0 || from >= posts.len() {
        None
    } else if posts[from].state == PostState::Open && instant < posts[from].night.start() {
        Some(posts[from])
    } else {
        repostable(posts, instant, from + 1)
    }
}

/// The post a repost replaces.
pub fn repost_candidate(posts: &[Post], instant: i64) -> (post: Option<Post>)
    ensures
        post == repostable(posts@, instant as int, 0),
{
    let mut index: usize = 0;
    while index < posts.len()
        invariant
            index <= posts.len(),
            repostable(posts@, instant as int, index as int) == repostable(
                posts@,
                instant as int,
                0,
            ),
        decreases posts.len() - index,
    {
        let post = posts[index];
        if post.state == PostState::Open && instant < post.night.start_unix() {
            return Some(post);
        }
        index = index + 1;
    }
    None
}

/// Whether the roles a repost was confirmed for differ from the season's roles now.
pub fn pings_changed(ping: &RepostPing, roles: &Vec<RoleId>) -> (changed: bool)
    ensures
        changed == match *ping {
            RepostPing::Again { checked } => checked@ != roles@,
            RepostPing::Quiet => false,
        },
{
    match ping {
        RepostPing::Quiet => false,
        RepostPing::Again { checked } => !same_roles(checked, roles),
    }
}

/// Whether two role lists hold the same roles in the same order.
fn same_roles(a: &Vec<RoleId>, b: &Vec<RoleId>) -> (same: bool)
    ensures
        same == (a@ == b@),
{
    if a.len() != b.len() {
        assert(a@.len() != b@.len());
        return false;
    }
    let mut index: usize = 0;
    while index < a.len()
        invariant
            a.len() == b.len(),
            index <= a.len(),
            forall|i: int| 0 <= i < index ==> a@[i] == b@[i],
        decreases a.len() - index,
    {
        if a[index] != b[index] {
            assert(a@[index as int] != b@[index as int]);
            return false;
        }
        index = index + 1;
    }
    assert(a@ =~= b@);
    true
}

/// A repost that pings again goes out as new; a quiet one as a redraw.
pub fn repost_delivery(ping: &RepostPing) -> (delivery: Delivery)
    ensures
        delivery == repost_delivery_of(*ping),
{
    match ping {
        RepostPing::Again { .. } => Delivery::New,
        RepostPing::Quiet => Delivery::Redraw,
    }
}

/// Whom a post delivered this way pings: the view's pings when it is new, nobody otherwise.
pub fn pinged(delivery: Delivery, pings: &Vec<Ping>) -> (pinged: Vec<Ping>)
    ensures
        pinged@ == pinged_by(delivery, pings@),
{
    match delivery {
        Delivery::New => {
            let copy = pings.clone();
            assert(copy@ =~= pings@);
            copy
        },
        Delivery::Redraw => Vec::new(),
    }
}

/// Which hours a click answers.
pub fn click_hours(target: Target) -> (hours: Vec<Hour>)
    ensures
        match target {
            Target::All => hours@.len() == 4 && forall|i: int|
                0 <= i < 4 ==> (#[trigger] hours@[i]).number() == i + 1,
            Target::One(hour) => hours@ == seq![hour],
        },
{
    match target {
        Target::All => {
            let all = Hour::all();
            let mut hours: Vec<Hour> = Vec::new();
            hours.push(all[0]);
            hours.push(all[1]);
            hours.push(all[2]);
            hours.push(all[3]);
            hours
        },
        Target::One(hour) => {
            let mut hours: Vec<Hour> = Vec::new();
            hours.push(hour);
            assert(hours@ =~= seq![hour]);
            hours
        },
    }
}

/// Why a click is not recorded, if it is not: its season is in another server, has ended or
/// does not hold the night, or the night has started by `now_unix`.
pub fn click_refusal(season: &Season, click: &Click, now_unix: i64) -> (refusal: Option<
    ClickOutcome,
>)
    ensures
        refusal == if season.guild != click.guild || season.ended_at_ms is Some
            || !season.range.holds_day(click.night.day()) {
            Some(ClickOutcome::UnknownSeason)
        } else if click.night.start() <= now_unix {
            Some(ClickOutcome::Closed { start_unix: click.night.start() as i64 })
        } else {
            None
        },
{
    if season.guild != click.guild || season.ended_at_ms.is_some() || !season.range.holds(
        click.night,
    ) {
        return Some(ClickOutcome::UnknownSeason);
    }
    if click.night.start_unix() <= now_unix {
        return Some(ClickOutcome::Closed { start_unix: click.night.start_unix() });
    }
    None
}

// ---------------------------------------------------------------------------
// Times.

pub open spec fn next_post_moment(range: Range, now_unix: int) -> Option<int> {
    match first_after(range.night_list(), now_unix, 0) {
        Some(next) => if next.post_at() <= now_unix {
            None
        } else {
            Some(next.post_at())
        },
        None => None,
    }
}

/// Whether a season still needs the timer: one of its nights has a post yet to come down
/// after `now`, or a post of it is still up.
pub open spec fn season_live(range: Range, now: int, post_up: bool) -> bool {
    ||| (range.night_list().len() > 0 && range.night_list().last().remove_at() > now)
    ||| post_up
}

pub fn is_live(range: Range, now_unix: i64, post_up: bool) -> (live: bool)
    ensures
        live == season_live(range, now_unix as int, post_up),
{
    if post_up {
        return true;
    }
    match range.last_moment_unix() {
        Some(moment) => moment > now_unix,
        None => false,
    }
}

/// When the next sign-up post goes up, when none is due now.
pub fn next_post_at(range: Range, now_unix: i64) -> (at: Option<i64>)
    ensures
        match at {
            Some(at) => next_post_moment(range, now_unix as int) == Some(at as int),
            None => next_post_moment(range, now_unix as int) is None,
        },
{
    if range.due_night(now_unix).is_some() {
        return None;
    }
    match range.next_night(now_unix) {
        Some(night) => Some(night.post_at_unix()),
        None => None,
    }
}

/// A clock moved by `offset` seconds, in seconds and in milliseconds, when both stay in range.
pub fn shifted(now_unix: i64, now_ms: u64, offset: i64) -> (moved: Option<(i64, u64)>)
    ensures
        moved == if i64::MIN <= now_unix + offset <= i64::MAX && i64::MIN <= offset * 1000
            <= i64::MAX && 0 <= now_ms + offset * 1000 <= u64::MAX {
            Some(((now_unix + offset) as i64, (now_ms + offset * 1000) as u64))
        } else {
            None
        },
{
    let instant = match now_unix.checked_add(offset) {
        Some(instant) => instant,
        None => return None,
    };
    let offset_ms = match offset.checked_mul(MILLIS_PER_SECOND) {
        Some(offset_ms) => offset_ms,
        None => return None,
    };
    let instant_ms = match now_ms.checked_add_signed(offset_ms) {
        Some(instant_ms) => instant_ms,
        None => return None,
    };
    Some((instant, instant_ms))
}

/// What a post's removal, closing and publishing are due at.
pub open spec fn removal_moments(posts: Seq<Post>) -> Seq<int>
    decreases posts.len(),
{
    if posts.len() == 0 {
        Seq::empty()
    } else {
        removal_moments(posts.drop_last()) + if posts.last().state != PostState::Removed {
            seq![posts.last().night.remove_at()]
        } else {
            Seq::empty()
        }
    }
}

pub open spec fn closing_moments(posts: Seq<Post>) -> Seq<int>
    decreases posts.len(),
{
    if posts.len() == 0 {
        Seq::empty()
    } else {
        closing_moments(posts.drop_last()) + if posts.last().state == PostState::Open {
            seq![posts.last().night.start()]
        } else {
            Seq::empty()
        }
    }
}

pub open spec fn posted_for(posts: Seq<Post>, night: Night) -> bool {
    exists|i: int|
        0 <= i < posts.len() && (#[trigger] posts[i]).night == night && posts[i].state
            != PostState::Removed
}

pub open spec fn posting_moments(nights: Seq<Night>, posts: Seq<Post>, now_unix: int) -> Seq<int>
    decreases nights.len(),
{
    if nights.len() == 0 {
        Seq::empty()
    } else {
        let night = nights.last();
        posting_moments(nights.drop_last(), posts, now_unix) + if night.start() > now_unix
            && !posted_for(posts, night) {
            seq![night.post_at()]
        } else {
            Seq::empty()
        }
    }
}

/// Everything that is due for a season: posts coming down, closing, and going up.
pub open spec fn season_moments(season: Season, posts: Seq<Post>, now_unix: int) -> Seq<int> {
    removal_moments(posts) + closing_moments(posts) + posting_moments(
        season.range.night_list(),
        posts,
        now_unix,
    )
}

fn posted_night(posts: &[Post], night: Night) -> (found: bool)
    ensures
        found == posted_for(posts@, night),
{
    let mut index: usize = 0;
    while index < posts.len()
        invariant
            index <= posts.len(),
            forall|i: int|
                0 <= i < index ==> !((#[trigger] posts@[i]).night == night && posts@[i].state
                    != PostState::Removed),
        decreases posts.len() - index,
    {
        if posts[index].night == night && posts[index].state != PostState::Removed {
            return true;
        }
        index = index + 1;
    }
    false
}

/// The moments at which something is due for a season.
pub fn moments(season: &Season, posts: &[Post], now_unix: i64) -> (due: Vec<i64>)
    ensures
        due@.map_values(|moment: i64| moment as int) == season_moments(
            *season,
            posts@,
            now_unix as int,
        ),
{
    let mut removals: Vec<i64> = Vec::new();
    let mut closes: Vec<i64> = Vec::new();
    let mut index: usize = 0;
    while index < posts.len()
        invariant
            index <= posts.len(),
            removals@.map_values(|moment: i64| moment as int) == removal_moments(
                posts@.take(index as int),
            ),
            closes@.map_values(|moment: i64| moment as int) == closing_moments(
                posts@.take(index as int),
            ),
        decreases posts.len() - index,
    {
        let post = posts[index];
        assert(posts@.take(index + 1).drop_last() == posts@.take(index as int));
        if post.state != PostState::Removed {
            removals.push(post.night.remove_at_unix());
        }
        if post.state == PostState::Open {
            closes.push(post.night.start_unix());
        }
        assert(removals@.map_values(|moment: i64| moment as int) =~= removal_moments(
            posts@.take(index + 1),
        ));
        assert(closes@.map_values(|moment: i64| moment as int) =~= closing_moments(
            posts@.take(index + 1),
        ));
        index = index + 1;
    }
    assert(posts@.take(posts.len() as int) == posts@);
    let nights = season.range.nights();
    let mut postings: Vec<i64> = Vec::new();
    let mut index: usize = 0;
    while index < nights.len()
        invariant
            nights@ == season.range.night_list(),
            index <= nights.len(),
            postings@.map_values(|moment: i64| moment as int) == posting_moments(
                nights@.take(index as int),
                posts@,
                now_unix as int,
            ),
        decreases nights.len() - index,
    {
        let night = nights[index];
        assert(nights@.take(index + 1).drop_last() == nights@.take(index as int));
        if night.start_unix() > now_unix && !posted_night(posts, night) {
            postings.push(night.post_at_unix());
        }
        assert(postings@.map_values(|moment: i64| moment as int) =~= posting_moments(
            nights@.take(index + 1),
            posts@,
            now_unix as int,
        ));
        index = index + 1;
    }
    assert(nights@.take(nights.len() as int) == nights@);
    let ghost first = removals@;
    let ghost second = closes@;
    let ghost third = postings@;
    removals.append(&mut closes);
    removals.append(&mut postings);
    assert(removals@.map_values(|moment: i64| moment as int) =~= first.map_values(
        |moment: i64| moment as int,
    ) + second.map_values(|moment: i64| moment as int) + third.map_values(
        |moment: i64| moment as int,
    ));
    removals
}

/// The posts stored for a season.
pub open spec fn posts_of(posts: Seq<(i64, Vec<Post>)>, season: i64, from: int) -> Seq<Post>
    decreases posts.len() - from,
{
    if from < 0 || from >= posts.len() {
        Seq::empty()
    } else if posts[from].0 == season {
        posts[from].1@
    } else {
        posts_of(posts, season, from + 1)
    }
}

/// The earliest of the moments after `now_unix`.
pub open spec fn earliest_after(moments: Seq<int>, now_unix: int) -> Option<int>
    decreases moments.len(),
{
    if moments.len() == 0 {
        None
    } else {
        let earlier = earliest_after(moments.drop_last(), now_unix);
        let last = moments.last();
        if last > now_unix {
            match earlier {
                Some(best) => if best <= last {
                    Some(best)
                } else {
                    Some(last)
                },
                None => Some(last),
            }
        } else {
            earlier
        }
    }
}

/// Every season's moments, season by season.
pub open spec fn all_moments(
    seasons: Seq<Season>,
    posts: Seq<(i64, Vec<Post>)>,
    now_unix: int,
) -> Seq<int>
    decreases seasons.len(),
{
    if seasons.len() == 0 {
        Seq::empty()
    } else {
        all_moments(seasons.drop_last(), posts, now_unix) + season_moments(
            seasons.last(),
            posts_of(posts, seasons.last().id, 0),
            now_unix,
        )
    }
}

proof fn lemma_earliest_after_append(a: Seq<int>, b: Seq<int>, now_unix: int)
    ensures
        earliest_after(a + b, now_unix) == match (
            earliest_after(a, now_unix),
            earliest_after(b, now_unix),
        ) {
            (Some(x), Some(y)) => Some(
                if x <= y {
                    x
                } else {
                    y
                },
            ),
            (Some(x), None) => Some(x),
            (None, y) => y,
        },
    decreases b.len(),
{
    if b.len() == 0 {
        assert(a + b == a);
    } else {
        lemma_earliest_after_append(a, b.drop_last(), now_unix);
        assert((a + b).drop_last() == a + b.drop_last());
        assert((a + b).last() == b.last());
    }
}

fn find_posts<'a>(posts: &'a [(i64, Vec<Post>)], season: i64) -> (found: &'a [Post])
    ensures
        found@ == posts_of(posts@, season, 0),
{
    let mut index: usize = 0;
    while index < posts.len()
        invariant
            index <= posts.len(),
            posts_of(posts@, season, index as int) == posts_of(posts@, season, 0),
        decreases posts.len() - index,
    {
        if posts[index].0 == season {
            return posts[index].1.as_slice();
        }
        index = index + 1;
    }
    &[]
}

/// When the next thing is due across the seasons, if anything is.
pub fn next_moment(seasons: &[Season], posts: &[(i64, Vec<Post>)], now_unix: i64) -> (next: Option<
    i64,
>)
    ensures
        match next {
            Some(next) => earliest_after(all_moments(seasons@, posts@, now_unix as int), now_unix as int)
                == Some(next as int),
            None => earliest_after(all_moments(seasons@, posts@, now_unix as int), now_unix as int)
                is None,
        },
{
    let mut best: Option<i64> = None;
    let mut index: usize = 0;
    while index < seasons.len()
        invariant
            index <= seasons.len(),
            match best {
                Some(best) => earliest_after(
                    all_moments(seasons@.take(index as int), posts@, now_unix as int),
                    now_unix as int,
                ) == Some(best as int),
                None => earliest_after(
                    all_moments(seasons@.take(index as int), posts@, now_unix as int),
                    now_unix as int,
                ) is None,
            },
        decreases seasons.len() - index,
    {
        let season = &seasons[index];
        let posted = find_posts(posts, season.id);
        let due = moments(season, posted, now_unix);
        let ghost done = all_moments(seasons@.take(index as int), posts@, now_unix as int);
        let ghost fresh = due@.map_values(|moment: i64| moment as int);
        assert(seasons@.take(index + 1).drop_last() == seasons@.take(index as int));
        assert(all_moments(seasons@.take(index + 1), posts@, now_unix as int) == done + fresh);
        let mut local: Option<i64> = None;
        let mut at: usize = 0;
        while at < due.len()
            invariant
                at <= due.len(),
                fresh == due@.map_values(|moment: i64| moment as int),
                match local {
                    Some(local) => earliest_after(fresh.take(at as int), now_unix as int) == Some(
                        local as int,
                    ),
                    None => earliest_after(fresh.take(at as int), now_unix as int) is None,
                },
            decreases due.len() - at,
        {
            let moment = due[at];
            assert(fresh.take(at + 1).drop_last() == fresh.take(at as int));
            assert(fresh.take(at + 1).last() == moment as int);
            if moment > now_unix {
                local = match local {
                    Some(known) => if known <= moment {
                        Some(known)
                    } else {
                        Some(moment)
                    },
                    None => Some(moment),
                };
            }
            at = at + 1;
        }
        assert(fresh.take(due.len() as int) == fresh);
        proof {
            lemma_earliest_after_append(done, fresh, now_unix as int);
        }
        best = match (best, local) {
            (Some(x), Some(y)) => if x <= y {
                Some(x)
            } else {
                Some(y)
            },
            (Some(x), None) => Some(x),
            (None, y) => y,
        };
        index = index + 1;
    }
    assert(seasons@.take(seasons.len() as int) == seasons@);
    best
}

// ---------------------------------------------------------------------------
// The roster.

pub open spec fn mark_users(marks: Seq<Mark>) -> Seq<UserId> {
    marks.map_values(|mark: Mark| mark.user)
}

/// Each user once, in the order they first answered.
pub open spec fn first_seen(users: Seq<UserId>) -> Seq<UserId>
    decreases users.len(),
{
    if users.len() == 0 {
        Seq::empty()
    } else {
        let earlier = first_seen(users.drop_last());
        if earlier.contains(users.last()) {
            earlier
        } else {
            earlier.push(users.last())
        }
    }
}

pub open spec fn cell_for(attending: bool) -> Cell {
    if attending {
        Cell::In
    } else {
        Cell::Out
    }
}

/// What the roster shows for a user in an hour: their last answer for it, or out.
pub open spec fn cell_of(marks: Seq<Mark>, user: UserId, hour: int) -> Cell
    decreases marks.len(),
{
    if marks.len() == 0 {
        Cell::Out
    } else if marks.last().user == user && marks.last().hour.number() == hour {
        cell_for(marks.last().attending)
    } else {
        cell_of(marks.drop_last(), user, hour)
    }
}

/// The roster: one row per user in the order they first answered.
pub open spec fn roster_of(marks: Seq<Mark>, rows: Seq<RosterRow>) -> bool {
    let users = first_seen(mark_users(marks));
    &&& rows.len() == users.len()
    &&& forall|r: int|
        0 <= r < rows.len() ==> {
            &&& (#[trigger] rows[r]).user == users[r]
            &&& forall|k: int| 0 <= k < 4 ==> rows[r].cells[k] == cell_of(marks, users[r], k + 1)
        }
}

proof fn lemma_first_seen_contains(users: Seq<UserId>, user: UserId)
    ensures
        first_seen(users).contains(user) == users.contains(user),
    decreases users.len(),
{
    if users.len() > 0 {
        let prefix = users.drop_last();
        let last = users.last();
        let earlier = first_seen(prefix);
        lemma_first_seen_contains(prefix, user);
        assert(users.contains(user) == (prefix.contains(user) || last == user)) by {
            if prefix.contains(user) {
                let i = choose|i: int| 0 <= i < prefix.len() && prefix[i] == user;
                assert(users[i] == user);
            }
            if last == user {
                assert(users[users.len() - 1] == user);
            }
            if users.contains(user) && last != user {
                let i = choose|i: int| 0 <= i < users.len() && users[i] == user;
                assert(prefix[i] == user);
            }
        }
        if !earlier.contains(last) {
            assert(earlier.push(last).contains(user) == (earlier.contains(user) || last == user))
                by {
                if earlier.contains(user) {
                    let i = choose|i: int| 0 <= i < earlier.len() && earlier[i] == user;
                    assert(earlier.push(last)[i] == user);
                }
                if last == user {
                    assert(earlier.push(last)[earlier.len() as int] == user);
                }
                if earlier.push(last).contains(user) && last != user {
                    let i = choose|i: int|
                        0 <= i < earlier.push(last).len() && earlier.push(last)[i] == user;
                    assert(earlier[i] == user);
                }
            }
        }
    }
}

proof fn lemma_first_seen_distinct(users: Seq<UserId>)
    ensures
        first_seen(users).no_duplicates(),
    decreases users.len(),
{
    if users.len() > 0 {
        lemma_first_seen_distinct(users.drop_last());
    }
}

proof fn lemma_unseen_is_out(marks: Seq<Mark>, user: UserId, hour: int)
    requires
        !mark_users(marks).contains(user),
    ensures
        cell_of(marks, user, hour) == Cell::Out,
    decreases marks.len(),
{
    if marks.len() > 0 {
        assert(mark_users(marks)[marks.len() - 1] == marks.last().user);
        assert(mark_users(marks.drop_last()) =~= mark_users(marks).drop_last());
        if mark_users(marks.drop_last()).contains(user) {
            let i = choose|i: int|
                0 <= i < mark_users(marks.drop_last()).len() && mark_users(marks.drop_last())[i]
                    == user;
            assert(mark_users(marks)[i] == user);
        }
        lemma_unseen_is_out(marks.drop_last(), user, hour);
    }
}

fn cells_with(cells: [Cell; 4], hour: usize, cell: Cell) -> (updated: [Cell; 4])
    requires
        hour < 4,
    ensures
        forall|k: int| 0 <= k < 4 ==> updated[k] == if k == hour {
            cell
        } else {
            cells[k]
        },
{
    [
        if hour == 0 {
            cell
        } else {
            cells[0]
        },
        if hour == 1 {
            cell
        } else {
            cells[1]
        },
        if hour == 2 {
            cell
        } else {
            cells[2]
        },
        if hour == 3 {
            cell
        } else {
            cells[3]
        },
    ]
}

/// One roster row per player, in the order they first answered, each hour showing their last
/// answer for it.
pub fn roster_rows(marks: &[Mark]) -> (rows: Vec<RosterRow>)
    ensures
        roster_of(marks@, rows@),
{
    let mut rows: Vec<RosterRow> = Vec::new();
    let mut index: usize = 0;
    while index < marks.len()
        invariant
            index <= marks.len(),
            roster_of(marks@.take(index as int), rows@),
        decreases marks.len() - index,
    {
        let mark = marks[index];
        let ghost done = marks@.take(index as int);
        let ghost next = marks@.take(index + 1);
        assert(next.drop_last() == done);
        assert(next.last() == mark);
        assert(mark_users(next) =~= mark_users(done).push(mark.user));
        let mut at: usize = 0;
        while at < rows.len() && rows[at].user != mark.user
            invariant
                at <= rows.len(),
                forall|r: int| 0 <= r < at ==> rows@[r].user != mark.user,
            decreases rows.len() - at,
        {
            at = at + 1;
        }
        let ghost users = first_seen(mark_users(done));
        if at == rows.len() {
            proof {
                assert(!users.contains(mark.user)) by {
                    if users.contains(mark.user) {
                        let r = choose|r: int| 0 <= r < users.len() && users[r] == mark.user;
                        assert(rows@[r].user == mark.user);
                    }
                }
                lemma_first_seen_contains(mark_users(done), mark.user);
                assert forall|k: int| 0 <= k < 4 implies #[trigger] cell_of(done, mark.user, k + 1)
                    == Cell::Out by {
                    lemma_unseen_is_out(done, mark.user, k + 1);
                }
            }
            rows.push(RosterRow { user: mark.user, cells: [Cell::Out, Cell::Out, Cell::Out, Cell::Out] });
        } else {
            proof {
                assert(users.contains(mark.user)) by {
                    assert(users[at as int] == mark.user);
                }
            }
        }
        let hour = (mark.hour.get() - 1) as usize;
        let cell = if mark.attending {
            Cell::In
        } else {
            Cell::Out
        };
        let row = rows[at];
        rows.set(at, RosterRow { user: row.user, cells: cells_with(row.cells, hour, cell) });
        proof {
            let seen = first_seen(mark_users(next));
            assert(mark_users(next).drop_last() == mark_users(done));
            assert(mark_users(next).last() == mark.user);
            assert(seen == if users.contains(mark.user) {
                users
            } else {
                users.push(mark.user)
            });
            assert(seen.len() == rows@.len());
            assert(seen[at as int] == mark.user);
            lemma_first_seen_distinct(mark_users(next));
            assert(mark.hour.number() == hour + 1);
            assert forall|r: int| 0 <= r < rows@.len() implies {
                &&& (#[trigger] rows@[r]).user == seen[r]
                &&& forall|k: int| 0 <= k < 4 ==> rows@[r].cells[k] == cell_of(next, seen[r], k + 1)
            } by {
                assert forall|k: int| 0 <= k < 4 implies rows@[r].cells[k] == cell_of(
                    next,
                    seen[r],
                    k + 1,
                ) by {
                    if r == at && k == hour {
                        assert(cell_of(next, seen[r], k + 1) == cell_for(mark.attending));
                    } else {
                        assert(cell_of(next, seen[r], k + 1) == cell_of(done, seen[r], k + 1));
                    }
                }
            }
        }
        index = index + 1;
    }
    assert(marks@.take(marks.len() as int) == marks@);
    rows
}

/// How many marks say a player attends the hour.
pub open spec fn attending_in(marks: Seq<Mark>, hour: Hour) -> nat
    decreases marks.len(),
{
    if marks.len() == 0 {
        0
    } else {
        attending_in(marks.drop_last(), hour) + if marks.last().hour == hour
            && marks.last().attending {
            1nat
        } else {
            0nat
        }
    }
}

pub open spec fn capped(count: int) -> u32 {
    if count > u32::MAX {
        u32::MAX
    } else {
        count as u32
    }
}

pub open spec fn tally_of(hour: Hour, marks: Seq<Mark>) -> HourTally {
    let players = first_seen(mark_users(marks)).len() as int;
    let attending = attending_in(marks, hour) as int;
    HourTally {
        hour,
        attending: capped(attending),
        nope: capped(
            if players > attending {
                players - attending
            } else {
                0
            },
        ),
    }
}

proof fn lemma_attending_at_most(marks: Seq<Mark>, hour: Hour)
    ensures
        attending_in(marks, hour) <= marks.len(),
    decreases marks.len(),
{
    if marks.len() > 0 {
        lemma_attending_at_most(marks.drop_last(), hour);
    }
}

/// The number of players, and how many of them attend the hour.
pub fn tally(hour: Hour, marks: &[Mark]) -> (counted: HourTally)
    ensures
        counted == tally_of(hour, marks@),
{
    let rows = roster_rows(marks);
    let players = rows.len();
    let mut attending: usize = 0;
    let mut index: usize = 0;
    while index < marks.len()
        invariant
            index <= marks.len(),
            attending == attending_in(marks@.take(index as int), hour),
            attending <= index,
        decreases marks.len() - index,
    {
        assert(marks@.take(index + 1).drop_last() == marks@.take(index as int));
        if marks[index].hour == hour && marks[index].attending {
            attending = attending + 1;
        }
        index = index + 1;
    }
    assert(marks@.take(marks.len() as int) == marks@);
    let nope = players.saturating_sub(attending);
    HourTally {
        hour,
        attending: if attending > u32::MAX as usize {
            u32::MAX
        } else {
            attending as u32
        },
        nope: if nope > u32::MAX as usize {
            u32::MAX
        } else {
            nope as u32
        },
    }
}

pub open spec fn pings_of(guild: GuildId, roles: Seq<RoleId>) -> Seq<Ping> {
    roles.map_values(|role: RoleId| Ping::spec_of(guild, role))
}

/// What a season's sign-up post for `night` shows at `now_unix`, given the night's marks.
pub fn build_view(season: &Season, night: Night, now_unix: i64, marks: &[Mark]) -> (view:
    SignupView)
    ensures
        view.season == season.id,
        view.number == season.number,
        view.codename == season.codename,
        view.night == night,
        view.open == (now_unix < night.start()),
        view.pings@ == pings_of(season.guild, season.ping_roles@),
        forall|k: int|
            0 <= k < 4 ==> #[trigger] view.hours[k] == tally_of(view.hours[k].hour, marks@)
                && view.hours[k].hour.number() == k + 1,
        ({
            let users = first_seen(mark_users(marks@));
            &&& view.hidden == if users.len() > ROSTER_LIMIT {
                users.len() - ROSTER_LIMIT
            } else {
                0
            }
            &&& view.rows@.len() == if users.len() > ROSTER_LIMIT {
                ROSTER_LIMIT as nat
            } else {
                users.len()
            }
            &&& forall|r: int|
                0 <= r < view.rows@.len() ==> {
                    &&& (#[trigger] view.rows@[r]).user == users[r]
                    &&& forall|k: int|
                        0 <= k < 4 ==> view.rows@[r].cells[k] == cell_of(marks@, users[r], k + 1)
                }
        }),
{
    let all_rows = roster_rows(marks);
    let hidden = all_rows.len().saturating_sub(ROSTER_LIMIT);
    let mut rows: Vec<RosterRow> = Vec::new();
    let mut index: usize = 0;
    while index < all_rows.len() && index < ROSTER_LIMIT
        invariant
            index <= all_rows.len(),
            index <= ROSTER_LIMIT,
            rows@ == all_rows@.take(index as int),
        decreases all_rows.len() - index,
    {
        rows.push(all_rows[index]);
        assert(all_rows@.take(index + 1) == all_rows@.take(index as int).push(all_rows@[index as int]));
        index = index + 1;
    }
    let mut pings: Vec<Ping> = Vec::new();
    let mut at: usize = 0;
    while at < season.ping_roles.len()
        invariant
            at <= season.ping_roles.len(),
            pings@ == pings_of(season.guild, season.ping_roles@.take(at as int)),
        decreases season.ping_roles.len() - at,
    {
        pings.push(Ping::of(season.guild, season.ping_roles[at]));
        assert(pings_of(season.guild, season.ping_roles@.take(at + 1)) =~= pings_of(
            season.guild,
            season.ping_roles@.take(at as int),
        ).push(Ping::spec_of(season.guild, season.ping_roles@[at as int])));
        at = at + 1;
    }
    assert(season.ping_roles@.take(season.ping_roles.len() as int) == season.ping_roles@);
    let all = Hour::all();
    SignupView {
        season: season.id,
        number: season.number,
        codename: season.codename.clone(),
        night,
        open: now_unix < night.start_unix(),
        pings,
        hours: [
            tally(all[0], marks),
            tally(all[1], marks),
            tally(all[2], marks),
            tally(all[3], marks),
        ],
        rows,
        hidden,
    }
}

pub open spec fn target_text(target: Target) -> Seq<char> {
    match target {
        Target::All => "all"@,
        Target::One(hour) => digits(hour.number() as nat),
    }
}

/// How a click's target is named in the log: `all` or the hour's number.
pub fn target_name(target: Target) -> (name: String)
    ensures
        name@ == target_text(target),
{
    match target {
        Target::All => String::from_str("all"),
        Target::One(hour) => crate::render::nat_text(hour.get() as u64),
    }
}

/// How a click's answer is named in the log.
pub fn choice_name(attending: bool) -> (name: &'static str)
    ensures
        name@ == if attending {
            "attend"@
        } else {
            "nope"@
        },
{
    if attending {
        "attend"
    } else {
        "nope"
    }
}

/// What a purge reports when some posts could not be cleared, so nothing was deleted.
pub fn purge_blocked(cleared: PostsReport) -> (report: Option<PurgeReport>)
    ensures
        report == if cleared.failures != 0 {
            Some(
                PurgeReport {
                    seasons: 0,
                    messages: cleared.touched,
                    answers: 0,
                    failures: cleared.failures,
                },
            )
        } else {
            None
        },
{
    if cleared.failures != 0 {
        Some(
            PurgeReport {
                seasons: 0,
                messages: cleared.touched,
                answers: 0,
                failures: cleared.failures,
            },
        )
    } else {
        None
    }
}

/// A night is pinged once, the first time its post appears: once a post is recorded for it,
/// whatever becomes of the post, the night's post never goes out pinging again, and neither
/// does a repost that does not ask to ping again.
pub proof fn law_night_pinged_once(post: Post, pings: Seq<Ping>)
    ensures
        match delivery_of(Some(post)) {
            Some(delivery) => pinged_by(delivery, pings).len() == 0,
            None => true,
        },
        pinged_by(repost_delivery_of(RepostPing::Quiet), pings).len() == 0,
        delivery_of(None) == Some(Delivery::New) && pinged_by(Delivery::New, pings) == pings,
{
}


// ---------------------------------------------------------------------------
// Grouping seasons by their server's clock.

/// The positions among the first `count` offsets that hold `key`, in order.
pub open spec fn holding(offsets: Seq<Option<i64>>, key: i64, count: int) -> Seq<usize>
    decreases count,
{
    if count <= 0 {
        Seq::empty()
    } else {
        let rest = holding(offsets, key, count - 1);
        if offsets[count - 1] == Some(key) {
            rest.push((count - 1) as usize)
        } else {
            rest
        }
    }
}

/// How many of the first `count` offsets are unknown.
pub open spec fn unknown_count(offsets: Seq<Option<i64>>, count: int) -> nat
    decreases count,
{
    if count <= 0 {
        0
    } else {
        unknown_count(offsets, count - 1) + if offsets[count - 1] is None {
            1nat
        } else {
            0nat
        }
    }
}

/// Seasons grouped by the clock offset of their server: the offsets in increasing order, the
/// positions of the seasons at each, and how many seasons had no offset to go by.
pub struct OffsetGroups {
    pub keys: Vec<i64>,
    pub members: Vec<Vec<usize>>,
    pub skipped: usize,
}

proof fn lemma_holding_absent(offsets: Seq<Option<i64>>, key: i64, count: int)
    requires
        0 <= count <= offsets.len(),
        forall|j: int| 0 <= j < count ==> offsets[j] != Some(key),
    ensures
        holding(offsets, key, count) == Seq::<usize>::empty(),
    decreases count,
{
    if count > 0 {
        lemma_holding_absent(offsets, key, count - 1);
    }
}

proof fn lemma_holding_bounds(offsets: Seq<Option<i64>>, key: i64, count: int)
    requires
        0 <= count <= offsets.len(),
        offsets.len() <= usize::MAX,
    ensures
        forall|k: int| 0 <= k < holding(offsets, key, count).len() ==> {
            let at = #[trigger] holding(offsets, key, count)[k];
            &&& at < count
            &&& offsets[at as int] == Some(key)
        },
    decreases count,
{
    if count > 0 {
        lemma_holding_bounds(offsets, key, count - 1);
    }
}

/// Groups the seasons whose server clocks are `offsets` (unknown where the clock could not be
/// read) by offset, in increasing order of offset, and counts those with none.
pub fn offset_groups(offsets: &[Option<i64>]) -> (groups: OffsetGroups)
    ensures
        groups.keys.len() == groups.members.len(),
        forall|a: int, b: int|
            0 <= a < b < groups.keys.len() ==> groups.keys[a] < groups.keys[b],
        forall|a: int|
            0 <= a < groups.keys.len() ==> (#[trigger] groups.members[a])@ == holding(
                offsets@,
                groups.keys[a],
                offsets.len() as int,
            ) && groups.members[a]@.len() > 0,
        forall|j: int|
            0 <= j < offsets.len() ==> (#[trigger] offsets[j] matches Some(offset) ==> groups.keys@.contains(offset)),
        groups.skipped == unknown_count(offsets@, offsets.len() as int),
{
    let mut keys: Vec<i64> = Vec::new();
    let mut members: Vec<Vec<usize>> = Vec::new();
    let mut skipped: usize = 0;
    let mut index: usize = 0;
    while index < offsets.len()
        invariant
            index <= offsets.len(),
            keys.len() == members.len(),
            forall|a: int, b: int| 0 <= a < b < keys.len() ==> keys[a] < keys[b],
            forall|a: int|
                0 <= a < keys.len() ==> (#[trigger] members[a])@ == holding(
                    offsets@,
                    keys[a],
                    index as int,
                ) && members[a]@.len() > 0,
            forall|j: int|
                0 <= j < index ==> (#[trigger] offsets[j] matches Some(offset) ==> keys@.contains(offset)),
            skipped == unknown_count(offsets@, index as int),
            skipped <= index,
        decreases offsets.len() - index,
    {
        let ghost old_keys = keys@;
        let ghost old_members = members@;
        match offsets[index] {
            None => {
                skipped = skipped + 1;
                assert forall|a: int| 0 <= a < keys.len() implies (#[trigger] members[a])@ == holding(
                    offsets@,
                    keys[a],
                    index + 1,
                ) && members[a]@.len() > 0 by {}
            },
            Some(offset) => {
                let mut pos: usize = 0;
                while pos < keys.len() && keys[pos] < offset
                    invariant
                        pos <= keys.len(),
                        keys@ == old_keys,
                        forall|a: int| 0 <= a < pos ==> keys[a] < offset,
                    decreases keys.len() - pos,
                {
                    pos = pos + 1;
                }
                if pos < keys.len() && keys[pos] == offset {
                    let mut list = members.remove(pos);
                    list.push(index);
                    members.insert(pos, list);
                    assert(keys@.contains(offset)) by {
                        assert(keys[pos as int] == offset);
                    }
                    assert forall|a: int| 0 <= a < keys.len() implies (#[trigger] members[a])@
                        == holding(offsets@, keys[a], index + 1) && members[a]@.len() > 0 by {
                        if a == pos {
                            assert(members[a]@ == old_members[a]@.push(index));
                        } else {
                            assert(members[a] == old_members[a]);
                            assert(keys[a] != offset) by {
                                if a < pos {
                                } else {
                                    assert(keys[pos as int] < keys[a]);
                                }
                            }
                        }
                    }
                } else {
                    proof {
                        assert(!old_keys.contains(offset)) by {
                            if old_keys.contains(offset) {
                                let a = old_keys.index_of(offset);
                                if a < pos {
                                } else {
                                    assert(keys[pos as int] <= keys[a]);
                                }
                            }
                        }
                        assert forall|j: int| 0 <= j < index implies offsets@[j] != Some(offset) by {
                            if offsets@[j] == Some(offset) {
                                assert(offsets[j] matches Some(o) ==> keys@.contains(o));
                            }
                        }
                        lemma_holding_absent(offsets@, offset, index as int);
                    }
                    let mut list: Vec<usize> = Vec::new();
                    list.push(index);
                    keys.insert(pos, offset);
                    members.insert(pos, list);
                    assert(keys@.contains(offset)) by {
                        assert(keys[pos as int] == offset);
                    }
                    assert forall|x: i64| old_keys.contains(x) implies keys@.contains(x) by {
                        let a = old_keys.index_of(x);
                        if a < pos {
                            assert(keys[a] == x);
                        } else {
                            assert(keys[a + 1] == x);
                        }
                    }
                    assert forall|a: int, b: int| 0 <= a < b < keys.len() implies keys[a] < keys[b] by {
                        if b < pos {
                            assert(keys[a] == old_keys[a] && keys[b] == old_keys[b]);
                        } else if b == pos {
                            assert(keys[a] == old_keys[a]);
                        } else if a < pos {
                            assert(keys[a] == old_keys[a] && keys[b] == old_keys[b - 1]);
                            assert(old_keys[pos as int] >= offset);
                            if b - 1 > pos {
                                assert(old_keys[pos as int] < old_keys[b - 1]);
                            }
                        } else if a == pos {
                            assert(keys[b] == old_keys[b - 1]);
                            if b - 1 > pos {
                                assert(old_keys[pos as int] < old_keys[b - 1]);
                            }
                        } else {
                            assert(keys[a] == old_keys[a - 1] && keys[b] == old_keys[b - 1]);
                        }
                    }
                    assert forall|a: int| 0 <= a < keys.len() implies (#[trigger] members[a])@
                        == holding(offsets@, keys[a], index + 1) && members[a]@.len() > 0 by {
                        if a < pos {
                            assert(members[a] == old_members[a] && keys[a] == old_keys[a]);
                            assert(keys[a] != offset);
                        } else if a == pos {
                            assert(members[a]@ == seq![index]);
                        } else {
                            assert(members[a] == old_members[a - 1] && keys[a] == old_keys[a - 1]);
                            assert(keys[a] != offset) by {
                                assert(old_keys[a - 1] >= offset);
                                assert(old_keys[a - 1] != offset);
                            }
                        }
                    }
                }
            },
        }
        assert forall|j: int| 0 <= j < index + 1 implies (#[trigger] offsets[j] matches Some(o) ==> keys@.contains(o)) by {
            if j < index {
                if let Some(o) = offsets[j] {
                    assert(old_keys.contains(o));
                }
            }
        }
        index = index + 1;
    }
    OffsetGroups { keys, members, skipped }
}


// ---------------------------------------------------------------------------
// Laws of the tally, the timer's moments and clearing.

proof fn lemma_attending_counts(marks: Seq<Mark>, hour: Hour)
    ensures
        attending_in(marks, hour) == marks.filter(|mark: Mark| mark.hour == hour && mark.attending).len(),
    decreases marks.len(),
{
    reveal(Seq::filter);
    if marks.len() > 0 {
        lemma_attending_counts(marks.drop_last(), hour);
    }
}

/// An hour's attending count is the number of marks for that hour that answer attending, up
/// to the most a count holds; a mark for another hour leaves it as it is.
pub proof fn law_tally_counts_its_hour(hour: Hour, marks: Seq<Mark>, other: Mark)
    ensures
        marks.filter(|mark: Mark| mark.hour == hour && mark.attending).len() <= u32::MAX ==> tally_of(
            hour,
            marks,
        ).attending == marks.filter(|mark: Mark| mark.hour == hour && mark.attending).len(),
        marks.filter(|mark: Mark| mark.hour == hour && mark.attending).len() > u32::MAX ==> tally_of(
            hour,
            marks,
        ).attending == u32::MAX,
        tally_of(hour, marks).hour == hour,
        other.hour != hour ==> tally_of(hour, marks.push(other)).attending == tally_of(
            hour,
            marks,
        ).attending,
{
    lemma_attending_counts(marks, hour);
    lemma_attending_counts(marks.push(other), hour);
    assert(marks.push(other).drop_last() == marks);
}


proof fn lemma_removal_listed(posts: Seq<Post>, i: int)
    requires
        0 <= i < posts.len(),
        posts[i].state != PostState::Removed,
    ensures
        removal_moments(posts).contains(posts[i].night.remove_at()),
    decreases posts.len(),
{
    let moment = posts[i].night.remove_at();
    if i == posts.len() - 1 {
        let tail = seq![moment];
        assert(removal_moments(posts) == removal_moments(posts.drop_last()) + tail);
        assert(removal_moments(posts)[removal_moments(posts.drop_last()).len() as int] == moment);
    } else {
        lemma_removal_listed(posts.drop_last(), i);
        let earlier = removal_moments(posts.drop_last());
        let k = earlier.index_of(moment);
        assert(removal_moments(posts)[k] == moment);
    }
}

proof fn lemma_season_moment_listed(seasons: Seq<Season>, posts: Seq<(i64, Vec<Post>)>, now: int, s: int, x: int)
    requires
        0 <= s < seasons.len(),
        season_moments(seasons[s], posts_of(posts, seasons[s].id, 0), now).contains(x),
    ensures
        all_moments(seasons, posts, now).contains(x),
    decreases seasons.len(),
{
    let here = season_moments(seasons.last(), posts_of(posts, seasons.last().id, 0), now);
    let earlier = all_moments(seasons.drop_last(), posts, now);
    if s == seasons.len() - 1 {
        let k = here.index_of(x);
        assert(all_moments(seasons, posts, now)[earlier.len() + k] == x);
    } else {
        assert(seasons.drop_last()[s] == seasons[s]);
        lemma_season_moment_listed(seasons.drop_last(), posts, now, s, x);
        let k = earlier.index_of(x);
        assert(all_moments(seasons, posts, now)[k] == x);
    }
}

proof fn lemma_earliest_at_most(moments: Seq<int>, now: int, x: int)
    requires
        moments.contains(x),
        x > now,
    ensures
        earliest_after(moments, now) matches Some(m) && now < m <= x,
    decreases moments.len(),
{
    let earlier = moments.drop_last();
    if moments.last() != x {
        let k = moments.index_of(x);
        assert(earlier[k] == x);
        lemma_earliest_at_most(earlier, now, x);
    } else if earlier.contains(x) {
        lemma_earliest_at_most(earlier, now, x);
    } else {
        lemma_earliest_positive(earlier, now);
    }
}

proof fn lemma_earliest_positive(moments: Seq<int>, now: int)
    ensures
        earliest_after(moments, now) matches Some(m) ==> m > now,
    decreases moments.len(),
{
    if moments.len() > 0 {
        lemma_earliest_positive(moments.drop_last(), now);
    }
}

/// A post still up, whether open or closed, keeps the timer waiting for its removal: when that
/// removal lies after `now`, there is a next moment, after `now` and no later than it.
pub proof fn law_posts_up_wait_for_removal(
    seasons: Seq<Season>,
    posts: Seq<(i64, Vec<Post>)>,
    now: int,
    s: int,
    i: int,
)
    requires
        0 <= s < seasons.len(),
        0 <= i < posts_of(posts, seasons[s].id, 0).len(),
        posts_of(posts, seasons[s].id, 0)[i].state != PostState::Removed,
        posts_of(posts, seasons[s].id, 0)[i].night.remove_at() > now,
    ensures
        earliest_after(all_moments(seasons, posts, now), now) matches Some(m) && now < m
            <= posts_of(posts, seasons[s].id, 0)[i].night.remove_at(),
{
    let stored = posts_of(posts, seasons[s].id, 0);
    let removal = stored[i].night.remove_at();
    lemma_removal_listed(stored, i);
    let removals = removal_moments(stored);
    let k = removals.index_of(removal);
    let all = season_moments(seasons[s], stored, now);
    assert(all[k] == removal);
    lemma_season_moment_listed(seasons, posts, now, s, removal);
    lemma_earliest_at_most(all_moments(seasons, posts, now), now, removal);
}


proof fn lemma_select_contains(posts: Seq<Post>, keep: spec_fn(Post) -> bool, post: Post)
    ensures
        select(posts, keep).contains(post) <==> posts.contains(post) && keep(post),
    decreases posts.len(),
{
    if posts.len() > 0 {
        let earlier = posts.drop_last();
        lemma_select_contains(earlier, keep, post);
        let chosen = select(earlier, keep);
        if keep(posts.last()) {
            let grown = chosen.push(posts.last());
            if grown.contains(post) {
                let k = grown.index_of(post);
                if k < chosen.len() {
                    assert(chosen[k] == post);
                    let j = earlier.index_of(post);
                    assert(posts[j] == post);
                } else {
                    assert(posts[posts.len() - 1] == post);
                }
            }
            if posts.contains(post) && keep(post) {
                let j = posts.index_of(post);
                if j < posts.len() - 1 {
                    assert(earlier[j] == post);
                    let k = chosen.index_of(post);
                    assert(grown[k] == post);
                } else {
                    assert(grown[chosen.len() as int] == post);
                }
            }
        } else {
            if chosen.contains(post) {
                let j = earlier.index_of(post);
                assert(posts[j] == post);
            }
            if posts.contains(post) && keep(post) {
                let j = posts.index_of(post);
                assert(j < posts.len() - 1);
                assert(earlier[j] == post);
            }
        }
    }
}

/// A clear takes down exactly the posts still up: all of them, or, outside the range, those
/// whose night falls before its first day or after its last.
pub proof fn law_clear_targets_outside_range(posts: Seq<Post>, range: Range, post: Post)
    ensures
        select(posts, clearable(range, ClearScope::OutsideRange)).contains(post) <==> posts.contains(post)
            && post.state != PostState::Removed && (post.night.day().key() < range.first().key()
            || post.night.day().key() > range.last().key()),
        select(posts, clearable(range, ClearScope::All)).contains(post) <==> posts.contains(post)
            && post.state != PostState::Removed,
{
    lemma_select_contains(posts, clearable(range, ClearScope::OutsideRange), post);
    lemma_select_contains(posts, clearable(range, ClearScope::All), post);
}


/// The timer takes down exactly the posts still up whose removal time has come, and closes
/// exactly the open posts whose night has started, unless it is taking them down in the same
/// beat.
pub proof fn law_timer_steps(posts: Seq<Post>, swept: Seq<Night>, now: int, post: Post)
    ensures
        select(posts, due_for_removal(now)).contains(post) <==> posts.contains(post) && post.state
            != PostState::Removed && post.night.remove_at() <= now,
        select(posts, due_for_closing(swept, now)).contains(post) <==> posts.contains(post)
            && post.state == PostState::Open && post.night.start() <= now && !swept.contains(
            post.night,
        ),
{
    lemma_select_contains(posts, due_for_removal(now), post);
    lemma_select_contains(posts, due_for_closing(swept, now), post);
}

} // verus!
