//! Project uploads and downloads over SFTP, as a state machine: the caller
//! performs each action (connecting, authenticating, listing, copying) and
//! reports what came of it as an event; the machine decides the next step.
//!
//! A transfer connects to the host, performs the SSH handshake, logs in with
//! the SSH agent or a password, opens SFTP and then walks the source tree
//! depth first: each directory's entries are taken in listing order, a
//! subdirectory is walked completely before the next entry, and the first
//! error ends the transfer with that error.

use vstd::prelude::*;

use crate::text::{join_path, join_path_text};

verus! {

/// Moves project files between this machine and a remote host.
pub struct ProjectUnify {}

/// How to log in to the remote host.
#[derive(Debug, Clone)]
pub enum Password {
    /// With the keys of the SSH agent.
    Sshkey,
    /// With this password.
    Password(String),
}

/// Where to connect, as whom, and how to log in.
pub struct Auth<'a> {
    pub addr: &'a str,
    pub user: &'a str,
    pub auth: Password,
}

/// Which way files go.
#[derive(Debug, Clone, Copy, PartialEq, Eq, Structural)]
pub enum Direction {
    /// From a local directory to the remote host.
    Upload,
    /// From the remote host to a local directory.
    Download,
}

/// One entry of a directory listing.
#[derive(Debug)]
pub enum Entry {
    /// An entry with its file name (if it has one) and whether it is a directory.
    Item { name: Option<String>, is_dir: bool },
    /// An entry that could not be read, with the error.
    Broken(String),
}

/// What came of the last action.
#[derive(Debug)]
pub enum TransferEvent {
    /// The action succeeded.
    Done,
    /// The action failed with this error.
    Failed(String),
    /// The directory was listed.
    Listed(Vec<Entry>),
}

/// What the caller does next. Paths are on the remote host or on this
/// machine as the direction says: an upload lists and reads local paths and
/// creates remote ones, a download the other way round.
#[derive(Debug, PartialEq, Eq)]
pub enum TransferAction {
    /// Open a TCP connection to `addr` and start an SSH session on it.
    Connect { addr: String },
    /// Perform the SSH handshake.
    Handshake,
    /// Log in as `user` with the SSH agent.
    AuthAgent { user: String },
    /// Log in as `user` with `password`.
    AuthPassword { user: String, password: String },
    /// Open the SFTP channel.
    OpenSftp,
    /// Create the destination directory `path`; what comes of it is not
    /// looked at.
    MakeDir { path: String },
    /// List the source directory `path`; report `Listed` or `Failed`.
    List { path: String },
    /// Copy the source file `src` to the destination file `dst`.
    Copy { src: String, dst: String },
    /// The transfer is over, with this outcome.
    Finish(Result<(), String>),
}

/// Work left to do, kept on a stack.
enum Job {
    Enter { src: String, dst: String, make_dst: bool },
    Copy { src: String, dst: String },
    Fail(String),
}

/// The step a transfer is at.
enum Phase {
    Connecting,
    Handshaking,
    Authenticating,
    OpeningSftp,
    Preparing { src: String, dst: String },
    Listing { src: String, dst: String },
    Copying { src: String, dst: String },
    Finished(Result<(), String>),
}

/// One upload or download in progress.
pub struct Transfer {
    direction: Direction,
    addr: String,
    user: String,
    password: Option<String>,
    phase: Phase,
    jobs: Vec<Job>,
}

/// The mathematical form of a listing entry.
pub enum EntryView {
    Item(Option<Seq<char>>, bool),
    Broken(Seq<char>),
}

/// The mathematical form of an event.
pub enum EventView {
    Done,
    Failed(Seq<char>),
    Listed(Seq<EntryView>),
}

/// The mathematical form of an action.
pub enum ActionView {
    Connect(Seq<char>),
    Handshake,
    AuthAgent(Seq<char>),
    AuthPassword(Seq<char>, Seq<char>),
    OpenSftp,
    MakeDir(Seq<char>),
    List(Seq<char>),
    Copy(Seq<char>, Seq<char>),
    Finish(Result<(), Seq<char>>),
}

/// The mathematical form of a job: enter a directory (creating the
/// destination first when the flag says so), copy a file, or fail.
pub enum JobView {
    Enter(Seq<char>, Seq<char>, bool),
    Copy(Seq<char>, Seq<char>),
    Fail(Seq<char>),
}

/// The mathematical form of a step.
pub enum PhaseView {
    Connecting,
    Handshaking,
    Authenticating,
    OpeningSftp,
    Preparing(Seq<char>, Seq<char>),
    Listing(Seq<char>, Seq<char>),
    Copying(Seq<char>, Seq<char>),
    Finished(Result<(), Seq<char>>),
}

/// The mathematical state of a transfer; `jobs` is a stack whose top is its
/// last element.
pub struct TransferView {
    pub direction: Direction,
    pub addr: Seq<char>,
    pub user: Seq<char>,
    pub password: Option<Seq<char>>,
    pub phase: PhaseView,
    pub jobs: Seq<JobView>,
}

/// The text of an optional string.
pub open spec fn string_opt(s: Option<String>) -> Option<Seq<char>> {
    match s {
        Some(v) => Some(v@),
        None => None,
    }
}

/// The mathematical form of an outcome.
pub open spec fn result_view(r: Result<(), String>) -> Result<(), Seq<char>> {
    match r {
        Ok(()) => Ok(()),
        Err(e) => Err(e@),
    }
}

impl View for Entry {
    type V = EntryView;

    open spec fn view(&self) -> EntryView {
        match self {
            Entry::Item { name, is_dir } => EntryView::Item(string_opt(*name), *is_dir),
            Entry::Broken(e) => EntryView::Broken(e@),
        }
    }
}

impl View for TransferEvent {
    type V = EventView;

    open spec fn view(&self) -> EventView {
        match self {
            TransferEvent::Done => EventView::Done,
            TransferEvent::Failed(e) => EventView::Failed(e@),
            TransferEvent::Listed(es) => EventView::Listed(es@.map_values(|e: Entry| e@)),
        }
    }
}

impl View for TransferAction {
    type V = ActionView;

    open spec fn view(&self) -> ActionView {
        match self {
            TransferAction::Connect { addr } => ActionView::Connect(addr@),
            TransferAction::Handshake => ActionView::Handshake,
            TransferAction::AuthAgent { user } => ActionView::AuthAgent(user@),
            TransferAction::AuthPassword { user, password } => ActionView::AuthPassword(
                user@,
                password@,
            ),
            TransferAction::OpenSftp => ActionView::OpenSftp,
            TransferAction::MakeDir { path } => ActionView::MakeDir(path@),
            TransferAction::List { path } => ActionView::List(path@),
            TransferAction::Copy { src, dst } => ActionView::Copy(src@, dst@),
            TransferAction::Finish(r) => ActionView::Finish(result_view(*r)),
        }
    }
}

impl View for Job {
    type V = JobView;

    closed spec fn view(&self) -> JobView {
        match self {
            Job::Enter { src, dst, make_dst } => JobView::Enter(src@, dst@, *make_dst),
            Job::Copy { src, dst } => JobView::Copy(src@, dst@),
            Job::Fail(e) => JobView::Fail(e@),
        }
    }
}

impl View for Phase {
    type V = PhaseView;

    closed spec fn view(&self) -> PhaseView {
        match self {
            Phase::Connecting => PhaseView::Connecting,
            Phase::Handshaking => PhaseView::Handshaking,
            Phase::Authenticating => PhaseView::Authenticating,
            Phase::OpeningSftp => PhaseView::OpeningSftp,
            Phase::Preparing { src, dst } => PhaseView::Preparing(src@, dst@),
            Phase::Listing { src, dst } => PhaseView::Listing(src@, dst@),
            Phase::Copying { src, dst } => PhaseView::Copying(src@, dst@),
            Phase::Finished(r) => PhaseView::Finished(result_view(*r)),
        }
    }
}

impl View for Transfer {
    type V = TransferView;

    closed spec fn view(&self) -> TransferView {
        TransferView {
            direction: self.direction,
            addr: self.addr@,
            user: self.user@,
            password: string_opt(self.password),
            phase: self.phase@,
            jobs: self.jobs@.map_values(|j: Job| j@),
        }
    }
}

/// The job for one listing entry of the directory `src` (copied to `dst`):
/// a subdirectory is entered, creating its destination; a file is copied;
/// an entry without a name is skipped; an unreadable entry fails.
pub open spec fn job_of(src: Seq<char>, dst: Seq<char>, e: EntryView) -> Seq<JobView> {
    match e {
        EntryView::Item(Some(name), is_dir) => if is_dir {
            seq![JobView::Enter(join_path(src, name), join_path(dst, name), true)]
        } else {
            seq![JobView::Copy(join_path(src, name), join_path(dst, name))]
        },
        EntryView::Item(None, _) => Seq::empty(),
        EntryView::Broken(err) => seq![JobView::Fail(err)],
    }
}

/// The jobs for a listing, in stack order: the first entry's job on top.
pub open spec fn entry_jobs(src: Seq<char>, dst: Seq<char>, entries: Seq<EntryView>) -> Seq<
    JobView,
>
    decreases entries.len(),
{
    if entries.len() == 0 {
        Seq::empty()
    } else {
        entry_jobs(src, dst, entries.drop_first()) + job_of(src, dst, entries[0])
    }
}

/// `t` at step `phase` with job stack `jobs`.
pub open spec fn with_phase(t: TransferView, phase: PhaseView, jobs: Seq<JobView>) -> TransferView {
    TransferView {
        direction: t.direction,
        addr: t.addr,
        user: t.user,
        password: t.password,
        phase,
        jobs,
    }
}

/// How to log in: with the agent when there is no password.
pub open spec fn auth_action(t: TransferView) -> ActionView {
    match t.password {
        None => ActionView::AuthAgent(t.user),
        Some(p) => ActionView::AuthPassword(t.user, p),
    }
}

/// The transfer ends with error `m`.
pub open spec fn fail_with(t: TransferView, m: Seq<char>) -> (TransferView, ActionView) {
    (with_phase(t, PhaseView::Finished(Err(m)), t.jobs), ActionView::Finish(Err(m)))
}

/// Takes the job on top of `jobs`, or finishes successfully when none is left.
pub open spec fn advance(t: TransferView, jobs: Seq<JobView>) -> (TransferView, ActionView) {
    if jobs.len() == 0 {
        (with_phase(t, PhaseView::Finished(Ok(())), jobs), ActionView::Finish(Ok(())))
    } else {
        let rest = jobs.drop_last();
        match jobs.last() {
            JobView::Enter(src, dst, make_dst) => if make_dst {
                (with_phase(t, PhaseView::Preparing(src, dst), rest), ActionView::MakeDir(dst))
            } else {
                (with_phase(t, PhaseView::Listing(src, dst), rest), ActionView::List(src))
            },
            JobView::Copy(src, dst) => (
                with_phase(t, PhaseView::Copying(src, dst), rest),
                ActionView::Copy(src, dst),
            ),
            JobView::Fail(e) => (
                with_phase(t, PhaseView::Finished(Err(e)), rest),
                ActionView::Finish(Err(e)),
            ),
        }
    }
}

/// One step of a transfer: the next state and action after event `e`. An
/// event that does not belong to the step changes nothing and repeats the
/// action the step waits on; the outcome of creating a directory is not
/// looked at.
pub open spec fn transfer_next(t: TransferView, e: EventView) -> (TransferView, ActionView) {
    match t.phase {
        PhaseView::Connecting => match e {
            EventView::Done => (with_phase(t, PhaseView::Handshaking, t.jobs), ActionView::Handshake),
            EventView::Failed(m) => fail_with(t, m),
            _ => (t, ActionView::Connect(t.addr)),
        },
        PhaseView::Handshaking => match e {
            EventView::Done => (with_phase(t, PhaseView::Authenticating, t.jobs), auth_action(t)),
            EventView::Failed(m) => fail_with(t, m),
            _ => (t, ActionView::Handshake),
        },
        PhaseView::Authenticating => match e {
            EventView::Done => (with_phase(t, PhaseView::OpeningSftp, t.jobs), ActionView::OpenSftp),
            EventView::Failed(m) => fail_with(t, m),
            _ => (t, auth_action(t)),
        },
        PhaseView::OpeningSftp => match e {
            EventView::Done => advance(t, t.jobs),
            EventView::Failed(m) => fail_with(t, m),
            _ => (t, ActionView::OpenSftp),
        },
        PhaseView::Preparing(src, dst) => (
            with_phase(t, PhaseView::Listing(src, dst), t.jobs),
            ActionView::List(src),
        ),
        PhaseView::Listing(src, dst) => match e {
            EventView::Listed(entries) => advance(t, t.jobs + entry_jobs(src, dst, entries)),
            EventView::Failed(m) => fail_with(t, m),
            _ => (t, ActionView::List(src)),
        },
        PhaseView::Copying(src, dst) => match e {
            EventView::Done => advance(t, t.jobs),
            EventView::Failed(m) => fail_with(t, m),
            _ => (t, ActionView::Copy(src, dst)),
        },
        PhaseView::Finished(r) => (t, ActionView::Finish(r)),
    }
}


/// How a login choice reads as an optional password.
pub open spec fn password_view(p: Password) -> Option<Seq<char>> {
    match p {
        Password::Sshkey => None,
        Password::Password(s) => Some(s@),
    }
}

/// A transfer that has not connected yet and will walk `src` into `dst`.
pub open spec fn fresh_transfer(
    direction: Direction,
    auth: Auth,
    src: Seq<char>,
    dst: Seq<char>,
    make_dst: bool,
) -> TransferView {
    TransferView {
        direction,
        addr: auth.addr@,
        user: auth.user@,
        password: password_view(auth.auth),
        phase: PhaseView::Connecting,
        jobs: seq![JobView::Enter(src, dst, make_dst)],
    }
}

fn password_of(p: &Password) -> (r: Option<String>)
    ensures
        string_opt(r) == password_view(*p),
{
    match p {
        Password::Sshkey => None,
        Password::Password(s) => Some(s.clone()),
    }
}

fn job_for_entry(src: &String, dst: &String, e: Entry) -> (r: Option<Job>)
    ensures
        job_of(src@, dst@, e@) == match r {
            Some(j) => seq![j@],
            None => Seq::<JobView>::empty(),
        },
{
    match e {
        Entry::Item { name: Some(name), is_dir } => {
            let child_src = join_path_text(src.as_str(), name.as_str());
            let child_dst = join_path_text(dst.as_str(), name.as_str());
            if is_dir {
                Some(Job::Enter { src: child_src, dst: child_dst, make_dst: true })
            } else {
                Some(Job::Copy { src: child_src, dst: child_dst })
            }
        },
        Entry::Item { name: None, is_dir: _ } => None,
        Entry::Broken(err) => Some(Job::Fail(err)),
    }
}

/// Pushes the jobs for a listing of `src` (copied to `dst`), the first
/// entry's job last, so that it is on top.
fn push_entry_jobs(jobs: &mut Vec<Job>, src: &String, dst: &String, entries: Vec<Entry>)
    ensures
        final(jobs)@.map_values(|j: Job| j@) == old(jobs)@.map_values(|j: Job| j@) + entry_jobs(
            src@,
            dst@,
            entries@.map_values(|e: Entry| e@),
        ),
{
    let mut entries = entries;
    let ghost all = entries@.map_values(|e: Entry| e@);
    let ghost start = jobs@.map_values(|j: Job| j@);
    assert(all.skip(all.len() as int) =~= Seq::<EntryView>::empty());
    assert(jobs@.map_values(|j: Job| j@) =~= start + entry_jobs(src@, dst@, all.skip(all.len() as int)));
    while entries.len() > 0
        invariant
            entries@.len() <= all.len(),
            entries@.map_values(|e: Entry| e@) =~= all.take(entries@.len() as int),
            jobs@.map_values(|j: Job| j@) == start + entry_jobs(
                src@,
                dst@,
                all.skip(entries@.len() as int),
            ),
        decreases entries@.len(),
    {
        let ghost k = entries@.len() - 1;
        let ghost before = jobs@.map_values(|j: Job| j@);
        let ghost cur = entries@;
        assert(cur.map_values(|e: Entry| e@)[k] == cur[k]@);
        assert(all.take(k + 1)[k] == all[k]);
        let e = entries.pop().unwrap();
        assert(e == cur[k]);
        assert(e@ == all[k]);
        assert(entries@.map_values(|e: Entry| e@) =~= all.take(k));
        assert(all.skip(k).drop_first() =~= all.skip(k + 1));
        assert(all.skip(k)[0] == all[k]);
        let job = job_for_entry(src, dst, e);
        match job {
            Some(j) => {
                jobs.push(j);
                assert(jobs@.map_values(|j: Job| j@) =~= before + job_of(src@, dst@, all[k]));
            },
            None => {
                assert(before + job_of(src@, dst@, all[k]) =~= before);
            },
        }
        assert(start + entry_jobs(src@, dst@, all.skip(k)) =~= start + entry_jobs(
            src@,
            dst@,
            all.skip(k + 1),
        ) + job_of(src@, dst@, all[k]));
    }
    assert(all.skip(0) =~= all);
}

impl ProjectUnify {
    /// Starts uploading the local directory `local_dir` to `remote_path` on
    /// the host of `auth`: every remote directory is created before its
    /// local counterpart is listed, and failing to create one is not an error.
    pub fn upload(auth: &Auth, local_dir: &str, remote_path: &str) -> (r: (Transfer, TransferAction))
        ensures
            r.0@ == fresh_transfer(Direction::Upload, *auth, local_dir@, remote_path@, true),
            r.1@ == ActionView::Connect(auth.addr@),
    {
        Transfer::start(Direction::Upload, auth, local_dir, remote_path, true)
    }

    /// Starts downloading `remote_path` on the host of `auth` into the local
    /// directory `local_dir`, which must exist; local subdirectories are
    /// created as they are reached.
    pub fn download(auth: &Auth, remote_path: &str, local_dir: &str) -> (r: (
        Transfer,
        TransferAction,
    ))
        ensures
            r.0@ == fresh_transfer(Direction::Download, *auth, remote_path@, local_dir@, false),
            r.1@ == ActionView::Connect(auth.addr@),
    {
        Transfer::start(Direction::Download, auth, remote_path, local_dir, false)
    }
}

impl Transfer {
    fn start(direction: Direction, auth: &Auth, src: &str, dst: &str, make_dst: bool) -> (r: (
        Transfer,
        TransferAction,
    ))
        ensures
            r.0@ == fresh_transfer(direction, *auth, src@, dst@, make_dst),
            r.1@ == ActionView::Connect(auth.addr@),
    {
        let mut jobs: Vec<Job> = Vec::new();
        jobs.push(Job::Enter { src: src.to_owned(), dst: dst.to_owned(), make_dst });
        let t = Transfer {
            direction,
            addr: auth.addr.to_owned(),
            user: auth.user.to_owned(),
            password: password_of(&auth.auth),
            phase: Phase::Connecting,
            jobs,
        };
        assert(t@.jobs =~= seq![JobView::Enter(src@, dst@, make_dst)]);
        (t, TransferAction::Connect { addr: auth.addr.to_owned() })
    }

    /// Which way this transfer moves files.
    pub fn direction(&self) -> (r: Direction)
        ensures
            r == self@.direction,
    {
        self.direction
    }

    /// Whether this transfer is over.
    pub fn is_finished(&self) -> (r: bool)
        ensures
            r == (self@.phase is Finished),
    {
        match self.phase {
            Phase::Finished(_) => true,
            _ => false,
        }
    }

    fn auth_step(&self) -> (r: TransferAction)
        ensures
            r@ == auth_action(self@),
    {
        match &self.password {
            None => TransferAction::AuthAgent { user: self.user.clone() },
            Some(p) => TransferAction::AuthPassword { user: self.user.clone(), password: p.clone() },
        }
    }

    fn fail(&mut self, m: String) -> (r: TransferAction)
        ensures
            (final(self)@, r@) == fail_with(old(self)@, m@),
    {
        self.phase = Phase::Finished(Err(m.clone()));
        TransferAction::Finish(Err(m))
    }

    fn take_job(&mut self) -> (r: TransferAction)
        ensures
            (final(self)@, r@) == advance(old(self)@, old(self)@.jobs),
    {
        let ghost before = self.jobs@;
        let job = self.jobs.pop();
        proof {
            if before.len() > 0 {
                assert(self.jobs@.map_values(|j: Job| j@) =~= before.map_values(|j: Job| j@).drop_last());
            }
        }
        match job {
            None => {
                self.phase = Phase::Finished(Ok(()));
                TransferAction::Finish(Ok(()))
            },
            Some(Job::Enter { src, dst, make_dst }) => {
                if make_dst {
                    let path = dst.clone();
                    self.phase = Phase::Preparing { src, dst };
                    TransferAction::MakeDir { path }
                } else {
                    let path = src.clone();
                    self.phase = Phase::Listing { src, dst };
                    TransferAction::List { path }
                }
            },
            Some(Job::Copy { src, dst }) => {
                self.phase = Phase::Copying { src: src.clone(), dst: dst.clone() };
                TransferAction::Copy { src, dst }
            },
            Some(Job::Fail(e)) => {
                self.phase = Phase::Finished(Err(e.clone()));
                TransferAction::Finish(Err(e))
            },
        }
    }

    /// Takes in what came of the last action and gives the next one.
    pub fn step(&mut self, event: TransferEvent) -> (r: TransferAction)
        ensures
            (final(self)@, r@) == transfer_next(old(self)@, event@),
    {
        let mut phase = Phase::Connecting;
        std::mem::swap(&mut phase, &mut self.phase);
        match phase {
            Phase::Connecting => match event {
                TransferEvent::Done => {
                    self.phase = Phase::Handshaking;
                    TransferAction::Handshake
                },
                TransferEvent::Failed(m) => self.fail(m),
                _ => {
                    self.phase = Phase::Connecting;
                    TransferAction::Connect { addr: self.addr.clone() }
                },
            },
            Phase::Handshaking => match event {
                TransferEvent::Done => {
                    self.phase = Phase::Authenticating;
                    self.auth_step()
                },
                TransferEvent::Failed(m) => self.fail(m),
                _ => {
                    self.phase = Phase::Handshaking;
                    TransferAction::Handshake
                },
            },
            Phase::Authenticating => match event {
                TransferEvent::Done => {
                    self.phase = Phase::OpeningSftp;
                    TransferAction::OpenSftp
                },
                TransferEvent::Failed(m) => self.fail(m),
                _ => {
                    self.phase = Phase::Authenticating;
                    self.auth_step()
                },
            },
            Phase::OpeningSftp => match event {
                TransferEvent::Done => self.take_job(),
                TransferEvent::Failed(m) => self.fail(m),
                _ => {
                    self.phase = Phase::OpeningSftp;
                    TransferAction::OpenSftp
                },
            },
            Phase::Preparing { src, dst } => {
                let path = src.clone();
                self.phase = Phase::Listing { src, dst };
                TransferAction::List { path }
            },
            Phase::Listing { src, dst } => match event {
                TransferEvent::Listed(entries) => {
                    push_entry_jobs(&mut self.jobs, &src, &dst, entries);
                    self.take_job()
                },
                TransferEvent::Failed(m) => self.fail(m),
                _ => {
                    let path = src.clone();
                    self.phase = Phase::Listing { src, dst };
                    TransferAction::List { path }
                },
            },
            Phase::Copying { src, dst } => match event {
                TransferEvent::Done => self.take_job(),
                TransferEvent::Failed(m) => self.fail(m),
                _ => {
                    let action = TransferAction::Copy { src: src.clone(), dst: dst.clone() };
                    self.phase = Phase::Copying { src, dst };
                    action
                },
            },
            Phase::Finished(r) => {
                let action = match &r {
                    Ok(()) => TransferAction::Finish(Ok(())),
                    Err(e) => TransferAction::Finish(Err(e.clone())),
                };
                self.phase = Phase::Finished(r);
                action
            },
        }
    }
}


/// A finished transfer stays finished with the same outcome, whatever comes.
pub proof fn law_finished_is_final(t: TransferView, e: EventView)
    requires
        t.phase is Finished,
    ensures
        transfer_next(t, e) == (t, ActionView::Finish(t.phase->Finished_0)),
{
}

/// The first error ends the transfer with that error: at every step that
/// waits on an outcome, a failure finishes the transfer with its message.
pub proof fn law_failure_ends_transfer(t: TransferView, m: Seq<char>)
    requires
        !(t.phase is Finished),
        !(t.phase is Preparing),
    ensures
        transfer_next(t, EventView::Failed(m)).1 == ActionView::Finish(Err(m)),
        transfer_next(t, EventView::Failed(m)).0.phase == PhaseView::Finished(Err(m)),
{
}

/// A new transfer connects, shakes hands and then logs in with the SSH agent
/// when `auth` has no password, and with the password otherwise.
pub proof fn law_login_method(direction: Direction, auth: Auth, src: Seq<char>, dst: Seq<char>, make_dst: bool)
    ensures
        ({
            let t0 = fresh_transfer(direction, auth, src, dst, make_dst);
            let t1 = transfer_next(t0, EventView::Done).0;
            transfer_next(t1, EventView::Done).1 == match auth.auth {
                Password::Sshkey => ActionView::AuthAgent(auth.user@),
                Password::Password(p) => ActionView::AuthPassword(auth.user@, p@),
            }
        }),
{
}

proof fn lemma_entry_jobs_cons(src: Seq<char>, dst: Seq<char>, e: EntryView, rest: Seq<EntryView>)
    ensures
        entry_jobs(src, dst, seq![e] + rest) == entry_jobs(src, dst, rest) + job_of(src, dst, e),
{
    assert((seq![e] + rest).drop_first() =~= rest);
    assert((seq![e] + rest)[0] == e);
}

/// A directory's entries are taken in listing order, with the rest of the
/// listing kept beneath: when the listing of `src` starts with the file
/// `name`, that file is copied next, and when it starts with the
/// subdirectory `name`, its destination is created and it is entered next,
/// before any later entry.
pub proof fn law_listing_order(
    t: TransferView,
    src: Seq<char>,
    dst: Seq<char>,
    name: Seq<char>,
    is_dir: bool,
    rest: Seq<EntryView>,
)
    requires
        t.phase == PhaseView::Listing(src, dst),
    ensures
        ({
            let (t2, a) = transfer_next(
                t,
                EventView::Listed(seq![EntryView::Item(Some(name), is_dir)] + rest),
            );
            &&& t2.jobs == t.jobs + entry_jobs(src, dst, rest)
            &&& is_dir ==> a == ActionView::MakeDir(join_path(dst, name)) && t2.phase
                == PhaseView::Preparing(join_path(src, name), join_path(dst, name))
            &&& !is_dir ==> a == ActionView::Copy(join_path(src, name), join_path(dst, name))
        }),
{
    let e = EntryView::Item(Some(name), is_dir);
    lemma_entry_jobs_cons(src, dst, e, rest);
    let all = t.jobs + entry_jobs(src, dst, seq![e] + rest);
    assert(all.drop_last() =~= t.jobs + entry_jobs(src, dst, rest));
}

/// An upload creates each destination directory before it lists the source
/// directory, and goes on whatever came of creating it.
pub proof fn law_prepare_then_list(t: TransferView, src: Seq<char>, dst: Seq<char>, e: EventView)
    requires
        t.phase == PhaseView::Preparing(src, dst),
    ensures
        transfer_next(t, e) == (
            with_phase(t, PhaseView::Listing(src, dst), t.jobs),
            ActionView::List(src),
        ),
{
}


/// Whether `j` is a file copy.
pub open spec fn is_copy_job(j: JobView) -> bool {
    j is Copy
}

/// The action that performs the file copy `j`.
pub open spec fn copy_action(j: JobView) -> ActionView {
    match j {
        JobView::Copy(src, dst) => ActionView::Copy(src, dst),
        _ => ActionView::Handshake,
    }
}

/// The jobs that event `e` adds in state `t`: the entries of a listing.
pub open spec fn listed_jobs(t: TransferView, e: EventView) -> Seq<JobView> {
    match (t.phase, e) {
        (PhaseView::Listing(src, dst), EventView::Listed(entries)) => entry_jobs(src, dst, entries),
        _ => Seq::empty(),
    }
}

/// A transfer that starts in `t` and meets `events` in order: its last
/// state, the actions it gave, and every job that a listing added.
pub open spec fn transfer_run(t: TransferView, events: Seq<EventView>) -> (
    TransferView,
    Seq<ActionView>,
    Seq<JobView>,
)
    decreases events.len(),
{
    if events.len() == 0 {
        (t, Seq::empty(), Seq::empty())
    } else {
        let (mid, acts, added) = transfer_run(t, events.drop_last());
        let (last, a) = transfer_next(mid, events.last());
        (last, acts.push(a), added + listed_jobs(mid, events.last()))
    }
}

/// Every file copy that was added has been performed or is still to do; a
/// copy in progress has been asked for; a success leaves no work.
spec fn walk_invariant(t: TransferView, acts: Seq<ActionView>, added: Seq<JobView>) -> bool {
    &&& forall|i: int|
        0 <= i < added.len() && is_copy_job(#[trigger] added[i]) ==> acts.contains(
            copy_action(added[i]),
        ) || t.jobs.contains(added[i])
    &&& t.phase matches PhaseView::Copying(src, dst) ==> acts.contains(ActionView::Copy(src, dst))
    &&& t.phase == PhaseView::Finished(Ok::<(), Seq<char>>(())) ==> t.jobs.len() == 0
}

proof fn lemma_contains_push<A>(s: Seq<A>, x: A, a: A)
    requires
        s.contains(x),
    ensures
        s.push(a).contains(x),
{
    let i = choose|i: int| 0 <= i < s.len() && s[i] == x;
    assert(s.push(a)[i] == x);
}

proof fn lemma_advance_keeps_walk(
    t: TransferView,
    jobs: Seq<JobView>,
    acts: Seq<ActionView>,
    added: Seq<JobView>,
)
    requires
        forall|i: int|
            0 <= i < added.len() && is_copy_job(#[trigger] added[i]) ==> acts.contains(
                copy_action(added[i]),
            ) || jobs.contains(added[i]),
    ensures
        walk_invariant(advance(t, jobs).0, acts.push(advance(t, jobs).1), added),
{
    let (t2, a) = advance(t, jobs);
    let acts2 = acts.push(a);
    assert(acts2.last() == a);
    assert forall|i: int| 0 <= i < added.len() && is_copy_job(#[trigger] added[i]) implies acts2.contains(
        copy_action(added[i]),
    ) || t2.jobs.contains(added[i]) by {
        let j = added[i];
        if acts.contains(copy_action(j)) {
            lemma_contains_push(acts, copy_action(j), a);
        } else {
            let k = choose|k: int| 0 <= k < jobs.len() && jobs[k] == j;
            if k == jobs.len() - 1 {
                assert(a == copy_action(j));
                assert(acts2[acts.len() as int] == a);
            } else {
                assert(t2.jobs == jobs.drop_last());
                assert(t2.jobs[k] == j);
            }
        }
    }
    if t2.phase is Copying {
        assert(acts2[acts.len() as int] == a);
    }
}

proof fn lemma_step_keeps_walk(t: TransferView, e: EventView, acts: Seq<ActionView>, added: Seq<JobView>)
    requires
        walk_invariant(t, acts, added),
    ensures
        walk_invariant(
            transfer_next(t, e).0,
            acts.push(transfer_next(t, e).1),
            added + listed_jobs(t, e),
        ),
{
    let (t2, a) = transfer_next(t, e);
    let acts2 = acts.push(a);
    let added2 = added + listed_jobs(t, e);
    match (t.phase, e) {
        (PhaseView::OpeningSftp, EventView::Done) => {
            assert(added2 =~= added);
            lemma_advance_keeps_walk(t, t.jobs, acts, added);
        },
        (PhaseView::Listing(src, dst), EventView::Listed(entries)) => {
            let jobs = t.jobs + entry_jobs(src, dst, entries);
            assert forall|i: int|
                0 <= i < added2.len() && is_copy_job(#[trigger] added2[i]) implies acts.contains(
                copy_action(added2[i]),
            ) || jobs.contains(added2[i]) by {
                if i < added.len() {
                    assert(added2[i] == added[i]);
                    if !acts.contains(copy_action(added[i])) {
                        let k = choose|k: int| 0 <= k < t.jobs.len() && t.jobs[k] == added[i];
                        assert(jobs[k] == added[i]);
                    }
                } else {
                    let k = t.jobs.len() + (i - added.len());
                    assert(jobs[k] == added2[i]);
                }
            }
            lemma_advance_keeps_walk(t, jobs, acts, added2);
        },
        (PhaseView::Copying(_, _), EventView::Done) => {
            assert(added2 =~= added);
            lemma_advance_keeps_walk(t, t.jobs, acts, added);
        },
        _ => {
            assert(added2 =~= added);
            assert forall|i: int| 0 <= i < added2.len() && is_copy_job(#[trigger] added2[i]) implies acts2.contains(
                copy_action(added2[i]),
            ) || t2.jobs.contains(added2[i]) by {
                if acts.contains(copy_action(added2[i])) {
                    lemma_contains_push(acts, copy_action(added2[i]), a);
                }
            }
            match t2.phase {
                PhaseView::Copying(src, dst) => {
                    if t.phase is Copying {
                        lemma_contains_push(acts, ActionView::Copy(src, dst), a);
                    } else {
                        assert(acts2[acts.len() as int] == a);
                    }
                },
                _ => {},
            }
        },
    }
}

proof fn lemma_run_keeps_walk(t: TransferView, events: Seq<EventView>)
    requires
        walk_invariant(t, Seq::empty(), Seq::empty()),
    ensures
        walk_invariant(transfer_run(t, events).0, transfer_run(t, events).1, transfer_run(t, events).2),
    decreases events.len(),
{
    if events.len() > 0 {
        lemma_run_keeps_walk(t, events.drop_last());
        let (mid, acts, added) = transfer_run(t, events.drop_last());
        lemma_step_keeps_walk(mid, events.last(), acts, added);
    }
}

/// A transfer that succeeds has copied every file that a listing reported:
/// for every run of a new upload or download, when it has finished
/// successfully, each file copy added by a listing was asked for by a
/// `Copy` action of the run.
pub proof fn law_success_copies_every_listed_file(
    direction: Direction,
    auth: Auth,
    src: Seq<char>,
    dst: Seq<char>,
    make_dst: bool,
    events: Seq<EventView>,
    i: int,
)
    requires
        transfer_run(fresh_transfer(direction, auth, src, dst, make_dst), events).0.phase
            == PhaseView::Finished(Ok::<(), Seq<char>>(())),
        0 <= i < transfer_run(fresh_transfer(direction, auth, src, dst, make_dst), events).2.len(),
        is_copy_job(transfer_run(fresh_transfer(direction, auth, src, dst, make_dst), events).2[i]),
    ensures
        transfer_run(fresh_transfer(direction, auth, src, dst, make_dst), events).1.contains(
            copy_action(transfer_run(fresh_transfer(direction, auth, src, dst, make_dst), events).2[i]),
        ),
{
    let t = fresh_transfer(direction, auth, src, dst, make_dst);
    assert(walk_invariant(t, Seq::empty(), Seq::empty()));
    lemma_run_keeps_walk(t, events);
    let (last, acts, added) = transfer_run(t, events);
    assert(added[i] == transfer_run(t, events).2[i]);
    if last.jobs.contains(added[i]) {
        let k = choose|k: int| 0 <= k < last.jobs.len() && last.jobs[k] == added[i];
        assert(false);
    }
}

/// Whether `e` reports a success: the action was done, or the directory was
/// listed and every entry of the listing could be read.
pub open spec fn succeeded(e: EventView) -> bool {
    match e {
        EventView::Done => true,
        EventView::Failed(_) => false,
        EventView::Listed(entries) => forall|k: int|
            0 <= k < entries.len() ==> !(#[trigger] entries[k] is Broken),
    }
}

/// Whether every action of a run succeeded.
pub open spec fn all_succeeded(events: Seq<EventView>) -> bool {
    forall|i: int| 0 <= i < events.len() ==> succeeded(#[trigger] events[i])
}

/// Whether `a` ends a transfer with an error.
pub open spec fn is_error_finish(a: ActionView) -> bool {
    a matches ActionView::Finish(Err(_))
}

/// No failure is pending and the transfer has not failed.
spec fn no_failure(t: TransferView) -> bool {
    &&& forall|k: int| 0 <= k < t.jobs.len() ==> !(#[trigger] t.jobs[k] is Fail)
    &&& t.phase is Finished ==> t.phase == PhaseView::Finished(Ok::<(), Seq<char>>(()))
}

proof fn lemma_entry_jobs_no_fail(src: Seq<char>, dst: Seq<char>, entries: Seq<EntryView>)
    requires
        forall|k: int| 0 <= k < entries.len() ==> !(#[trigger] entries[k] is Broken),
    ensures
        forall|k: int|
            0 <= k < entry_jobs(src, dst, entries).len() ==> !(#[trigger] entry_jobs(
                src,
                dst,
                entries,
            )[k] is Fail),
    decreases entries.len(),
{
    if entries.len() > 0 {
        let rest = entries.drop_first();
        assert forall|k: int| 0 <= k < rest.len() implies !(#[trigger] rest[k] is Broken) by {
            assert(rest[k] == entries[k + 1]);
        }
        lemma_entry_jobs_no_fail(src, dst, rest);
        assert(!(entries[0] is Broken));
        let a = entry_jobs(src, dst, rest);
        let b = job_of(src, dst, entries[0]);
        assert forall|k: int| 0 <= k < (a + b).len() implies !(#[trigger] (a + b)[k] is Fail) by {
            if k >= a.len() {
                assert((a + b)[k] == b[k - a.len()]);
            } else {
                assert((a + b)[k] == a[k]);
            }
        }
    }
}

proof fn lemma_advance_no_failure(t: TransferView, jobs: Seq<JobView>)
    requires
        forall|k: int| 0 <= k < jobs.len() ==> !(#[trigger] jobs[k] is Fail),
    ensures
        no_failure(advance(t, jobs).0),
        !is_error_finish(advance(t, jobs).1),
{
    if jobs.len() > 0 {
        assert(!(jobs[jobs.len() - 1] is Fail));
        let rest = jobs.drop_last();
        assert forall|k: int| 0 <= k < rest.len() implies !(#[trigger] rest[k] is Fail) by {
            assert(rest[k] == jobs[k]);
        }
    }
}

proof fn lemma_step_no_failure(t: TransferView, e: EventView)
    requires
        no_failure(t),
        succeeded(e),
    ensures
        no_failure(transfer_next(t, e).0),
        !is_error_finish(transfer_next(t, e).1),
{
    match (t.phase, e) {
        (PhaseView::OpeningSftp, EventView::Done) => lemma_advance_no_failure(t, t.jobs),
        (PhaseView::Copying(_, _), EventView::Done) => lemma_advance_no_failure(t, t.jobs),
        (PhaseView::Listing(src, dst), EventView::Listed(entries)) => {
            lemma_entry_jobs_no_fail(src, dst, entries);
            let a = t.jobs;
            let b = entry_jobs(src, dst, entries);
            assert forall|k: int| 0 <= k < (a + b).len() implies !(#[trigger] (a + b)[k] is Fail) by {
                if k >= a.len() {
                    assert((a + b)[k] == b[k - a.len()]);
                } else {
                    assert((a + b)[k] == a[k]);
                }
            }
            lemma_advance_no_failure(t, a + b);
        },
        _ => {},
    }
}

proof fn lemma_run_no_failure(t: TransferView, events: Seq<EventView>)
    requires
        no_failure(t),
        all_succeeded(events),
    ensures
        no_failure(transfer_run(t, events).0),
        transfer_run(t, events).1.len() == events.len(),
        forall|i: int|
            0 <= i < transfer_run(t, events).1.len() ==> !is_error_finish(
                #[trigger] transfer_run(t, events).1[i],
            ),
    decreases events.len(),
{
    if events.len() > 0 {
        let prev = events.drop_last();
        assert forall|i: int| 0 <= i < prev.len() implies succeeded(#[trigger] prev[i]) by {
            assert(prev[i] == events[i]);
        }
        lemma_run_no_failure(t, prev);
        let (mid, acts, _) = transfer_run(t, prev);
        assert(succeeded(events[events.len() - 1]));
        lemma_step_no_failure(mid, events.last());
        let all = acts.push(transfer_next(mid, events.last()).1);
        assert forall|i: int| 0 <= i < all.len() implies !is_error_finish(#[trigger] all[i]) by {
            if i < acts.len() {
                assert(all[i] == acts[i]);
            }
        }
    }
}

/// A transfer in which every action succeeds ends with success: for every
/// run of a new upload or download in which no action fails and no listing
/// holds an unreadable entry, no action of the run ends it with an error, a
/// finished run has finished with `Ok`, and once no work is left the next
/// success finishes it with `Ok`.
pub proof fn law_all_success_finishes_ok(
    direction: Direction,
    auth: Auth,
    src: Seq<char>,
    dst: Seq<char>,
    make_dst: bool,
    events: Seq<EventView>,
)
    requires
        all_succeeded(events),
    ensures
        ({
            let (last, acts, _) = transfer_run(
                fresh_transfer(direction, auth, src, dst, make_dst),
                events,
            );
            &&& forall|i: int| 0 <= i < acts.len() ==> !is_error_finish(#[trigger] acts[i])
            &&& last.phase is Finished ==> last.phase == PhaseView::Finished(Ok::<(), Seq<char>>(()))
            &&& last.jobs.len() == 0 && last.phase is Copying ==> transfer_next(
                last,
                EventView::Done,
            ) == (
                with_phase(last, PhaseView::Finished(Ok::<(), Seq<char>>(())), last.jobs),
                ActionView::Finish(Ok::<(), Seq<char>>(())),
            )
            &&& last.jobs.len() == 0 && last.phase is Listing ==> transfer_next(
                last,
                EventView::Listed(Seq::empty()),
            ).1 == ActionView::Finish(Ok::<(), Seq<char>>(()))
        }),
{
    let t = fresh_transfer(direction, auth, src, dst, make_dst);
    assert(t.jobs.len() == 1);
    assert(!(t.jobs[0] is Fail));
    lemma_run_no_failure(t, events);
    let (last, acts, _) = transfer_run(t, events);
    if last.jobs.len() == 0 && last.phase is Listing {
        let (s, d) = (last.phase->Listing_0, last.phase->Listing_1);
        assert(entry_jobs(s, d, Seq::<EntryView>::empty()) =~= Seq::<JobView>::empty());
        assert(last.jobs + entry_jobs(s, d, Seq::<EntryView>::empty()) =~= Seq::<JobView>::empty());
    }
}

} // verus!
