//! Cloning a remote project directory into the local save directory, as a
//! state machine: the caller performs each action (parsing the host,
//! connecting, listing, copying, reporting progress, writing the project
//! record) and reports what came of it as an event.
//!
//! The clone parses the host address, logs in with the configured password,
//! opens SFTP, creates the local project directory and lists the remote one.
//! Each top-level entry is then cloned in listing order (a directory with
//! its whole tree, depth first) and reported with its position and the
//! number of entries; last, the project record is written into the project
//! directory. A failure before the walk ends the clone with its error;
//! failures inside the walk only change the reported text.

use vstd::prelude::*;

use crate::structs::{AsyncGitClone, Project, SSHLoginType};
use crate::text::{file_name, file_name_of, join_path, join_path_text};

verus! {

/// What came of copying one remote file to a local file.
#[derive(Debug)]
pub enum CopyOutcome {
    /// The remote file could not be opened; the SFTP error message.
    OpenFailed(String),
    /// The local file could not be created; the error text.
    CreateFailed(String),
    /// Writing the local file failed.
    WriteFailed,
    /// The file was copied (a failed read ends the copy early).
    Copied,
}

/// The mathematical form of a copy outcome.
pub enum CopyOutcomeView {
    OpenFailed(Seq<char>),
    CreateFailed(Seq<char>),
    WriteFailed,
    Copied,
}

impl View for CopyOutcome {
    type V = CopyOutcomeView;

    open spec fn view(&self) -> CopyOutcomeView {
        match self {
            CopyOutcome::OpenFailed(m) => CopyOutcomeView::OpenFailed(m@),
            CopyOutcome::CreateFailed(m) => CopyOutcomeView::CreateFailed(m@),
            CopyOutcome::WriteFailed => CopyOutcomeView::WriteFailed,
            CopyOutcome::Copied => CopyOutcomeView::Copied,
        }
    }
}

/// The text that reports copying the file `name` to the local file `dst`.
pub open spec fn copy_message_of(o: CopyOutcomeView, dst: Seq<char>, name: Seq<char>) -> Seq<char> {
    match o {
        CopyOutcomeView::OpenFailed(m) => "faild: "@ + m,
        CopyOutcomeView::CreateFailed(m) => "faild: create file "@ + dst + " => "@ + m,
        CopyOutcomeView::WriteFailed => "faild: write file "@ + dst,
        CopyOutcomeView::Copied => "sucessfully: downloaded file "@ + name,
    }
}

/// The text that reports copying the file `name` to the local file `dst`.
pub fn copy_message(o: &CopyOutcome, dst: &str, name: &str) -> (r: String)
    ensures
        r@ == copy_message_of(o@, dst@, name@),
{
    let mut r = String::new();
    match o {
        CopyOutcome::OpenFailed(m) => {
            r.append("faild: ");
            r.append(m.as_str());
        },
        CopyOutcome::CreateFailed(m) => {
            r.append("faild: create file ");
            r.append(dst);
            r.append(" => ");
            r.append(m.as_str());
        },
        CopyOutcome::WriteFailed => {
            r.append("faild: write file ");
            r.append(dst);
        },
        CopyOutcome::Copied => {
            r.append("sucessfully: downloaded file ");
            r.append(name);
        },
    }
    r
}

/// The mathematical form of a login choice.
pub enum LoginView {
    Key(Seq<char>),
    Password(Seq<char>),
}

/// The mathematical form of a login choice.
pub open spec fn login_view(l: SSHLoginType) -> LoginView {
    match l {
        SSHLoginType::SSHKEY(k) => LoginView::Key(k@),
        SSHLoginType::SSHPASSWORD(p) => LoginView::Password(p@),
    }
}

/// The mathematical form of a project record.
pub struct ProjectView {
    pub user: Seq<char>,
    pub remote: Seq<char>,
    pub login: LoginView,
}

/// The mathematical form of a project record.
pub open spec fn project_view(p: Project) -> ProjectView {
    ProjectView { user: p.user@, remote: p.remote@, login: login_view(p.login) }
}

/// A copy of a login choice.
pub fn copy_login(l: &SSHLoginType) -> (r: SSHLoginType)
    ensures
        login_view(r) == login_view(*l),
{
    match l {
        SSHLoginType::SSHKEY(k) => SSHLoginType::SSHKEY(k.clone()),
        SSHLoginType::SSHPASSWORD(p) => SSHLoginType::SSHPASSWORD(p.clone()),
    }
}

/// One entry of a remote directory listing: its name and whether it is a
/// directory.
#[derive(Debug)]
pub struct CloneEntry {
    pub name: String,
    pub is_dir: bool,
}

/// The mathematical form of a listing entry.
pub struct CloneEntryView {
    pub name: Seq<char>,
    pub is_dir: bool,
}

impl View for CloneEntry {
    type V = CloneEntryView;

    open spec fn view(&self) -> CloneEntryView {
        CloneEntryView { name: self.name@, is_dir: self.is_dir }
    }
}

/// What came of the last action.
#[derive(Debug)]
pub enum CloneEvent {
    /// The host text read as an address: its IP text and port, or the error text.
    HostParsed(Result<(String, u16), String>),
    /// The action succeeded.
    Done,
    /// The action failed with this error text.
    Failed(String),
    /// The remote directory was listed.
    Listed(Vec<CloneEntry>),
    /// A file copy ended this way.
    Copied(CopyOutcome),
}

/// The mathematical form of an event.
pub enum CloneEventView {
    HostParsed(Result<(Seq<char>, u16), Seq<char>>),
    Done,
    Failed(Seq<char>),
    Listed(Seq<CloneEntryView>),
    Copied(CopyOutcomeView),
}

impl View for CloneEvent {
    type V = CloneEventView;

    open spec fn view(&self) -> CloneEventView {
        match self {
            CloneEvent::HostParsed(Ok((ip, port))) => CloneEventView::HostParsed(Ok((ip@, *port))),
            CloneEvent::HostParsed(Err(m)) => CloneEventView::HostParsed(Err(m@)),
            CloneEvent::Done => CloneEventView::Done,
            CloneEvent::Failed(m) => CloneEventView::Failed(m@),
            CloneEvent::Listed(es) => CloneEventView::Listed(es@.map_values(|e: CloneEntry| e@)),
            CloneEvent::Copied(o) => CloneEventView::Copied(o@),
        }
    }
}

/// What the caller does next.
#[derive(Debug, PartialEq, Eq)]
pub enum CloneAction {
    /// Read `text` as a socket address (`ip:port`); report `HostParsed`.
    ParseHost { text: String },
    /// Open an SSH session to `ip` and `port` and log in as `user`.
    Connect { ip: String, port: u16, user: String, login: SSHLoginType },
    /// Open the SFTP channel.
    OpenSftp,
    /// Create the local directory `path`.
    MakeDir { path: String },
    /// List the remote directory `path`; report `Listed` or `Failed`.
    List { path: String },
    /// Copy the remote file `src` to the local file `dst`; report `Copied`.
    CopyFile { src: String, dst: String },
    /// Report progress: `msg` about the `index`-th of `count` entries.
    Notify { msg: String, index: u32, count: u32 },
    /// Write `project` as the project record at `path`.
    WriteRecord { path: String, project: Project },
    /// The clone is over, with this outcome.
    Finish(Result<(), String>),
}

/// The mathematical form of an action.
pub enum CloneActionView {
    ParseHost(Seq<char>),
    Connect(Seq<char>, u16, Seq<char>, LoginView),
    OpenSftp,
    MakeDir(Seq<char>),
    List(Seq<char>),
    CopyFile(Seq<char>, Seq<char>),
    Notify(Seq<char>, u32, u32),
    WriteRecord(Seq<char>, ProjectView),
    Finish(Result<(), Seq<char>>),
}

impl View for CloneAction {
    type V = CloneActionView;

    open spec fn view(&self) -> CloneActionView {
        match self {
            CloneAction::ParseHost { text } => CloneActionView::ParseHost(text@),
            CloneAction::Connect { ip, port, user, login } => CloneActionView::Connect(
                ip@,
                *port,
                user@,
                login_view(*login),
            ),
            CloneAction::OpenSftp => CloneActionView::OpenSftp,
            CloneAction::MakeDir { path } => CloneActionView::MakeDir(path@),
            CloneAction::List { path } => CloneActionView::List(path@),
            CloneAction::CopyFile { src, dst } => CloneActionView::CopyFile(src@, dst@),
            CloneAction::Notify { msg, index, count } => CloneActionView::Notify(msg@, *index, *count),
            CloneAction::WriteRecord { path, project } => CloneActionView::WriteRecord(
                path@,
                project_view(*project),
            ),
            CloneAction::Finish(Ok(())) => CloneActionView::Finish(Ok(())),
            CloneAction::Finish(Err(e)) => CloneActionView::Finish(Err(e@)),
        }
    }
}

/// Work left to do, kept on a stack.
enum CloneJob {
    Top { src: String, dst: String, name: String, index: u32, is_dir: bool },
    Enter { src: String, dst: String },
    Copy { src: String, dst: String },
    Announce { name: String, index: u32 },
}

/// The mathematical form of a job: clone the `index`-th top-level entry and
/// report it; enter a nested directory; copy a nested file; report a cloned
/// top-level directory.
pub enum CloneJobView {
    Top(Seq<char>, Seq<char>, Seq<char>, u32, bool),
    Enter(Seq<char>, Seq<char>),
    Copy(Seq<char>, Seq<char>),
    Announce(Seq<char>, u32),
}

impl View for CloneJob {
    type V = CloneJobView;

    closed spec fn view(&self) -> CloneJobView {
        match self {
            CloneJob::Top { src, dst, name, index, is_dir } => CloneJobView::Top(
                src@,
                dst@,
                name@,
                *index,
                *is_dir,
            ),
            CloneJob::Enter { src, dst } => CloneJobView::Enter(src@, dst@),
            CloneJob::Copy { src, dst } => CloneJobView::Copy(src@, dst@),
            CloneJob::Announce { name, index } => CloneJobView::Announce(name@, *index),
        }
    }
}

/// The step a clone is at.
enum ClonePhase {
    ParsingHost,
    Connecting { ip: String, port: u16 },
    OpeningSftp,
    MakingSaveDir,
    ListingTop,
    Preparing { src: String, dst: String },
    Listing { src: String, dst: String },
    CopyingTop { src: String, dst: String, name: String, index: u32 },
    CopyingNested { src: String, dst: String },
    Notifying,
    WritingRecord,
    Finished(Result<(), String>),
}

/// The mathematical form of a step.
pub enum ClonePhaseView {
    ParsingHost,
    Connecting(Seq<char>, u16),
    OpeningSftp,
    MakingSaveDir,
    ListingTop,
    Preparing(Seq<char>, Seq<char>),
    Listing(Seq<char>, Seq<char>),
    CopyingTop(Seq<char>, Seq<char>, Seq<char>, u32),
    CopyingNested(Seq<char>, Seq<char>),
    Notifying,
    WritingRecord,
    Finished(Result<(), Seq<char>>),
}

impl View for ClonePhase {
    type V = ClonePhaseView;

    closed spec fn view(&self) -> ClonePhaseView {
        match self {
            ClonePhase::ParsingHost => ClonePhaseView::ParsingHost,
            ClonePhase::Connecting { ip, port } => ClonePhaseView::Connecting(ip@, *port),
            ClonePhase::OpeningSftp => ClonePhaseView::OpeningSftp,
            ClonePhase::MakingSaveDir => ClonePhaseView::MakingSaveDir,
            ClonePhase::ListingTop => ClonePhaseView::ListingTop,
            ClonePhase::Preparing { src, dst } => ClonePhaseView::Preparing(src@, dst@),
            ClonePhase::Listing { src, dst } => ClonePhaseView::Listing(src@, dst@),
            ClonePhase::CopyingTop { src, dst, name, index } => ClonePhaseView::CopyingTop(
                src@,
                dst@,
                name@,
                *index,
            ),
            ClonePhase::CopyingNested { src, dst } => ClonePhaseView::CopyingNested(src@, dst@),
            ClonePhase::Notifying => ClonePhaseView::Notifying,
            ClonePhase::WritingRecord => ClonePhaseView::WritingRecord,
            ClonePhase::Finished(Ok(())) => ClonePhaseView::Finished(Ok(())),
            ClonePhase::Finished(Err(e)) => ClonePhaseView::Finished(Err(e@)),
        }
    }
}

/// One project clone in progress.
pub struct CloneRun {
    host: String,
    user: String,
    password: String,
    path: String,
    named: bool,
    save_dir: String,
    count: u32,
    phase: ClonePhase,
    jobs: Vec<CloneJob>,
}

/// The mathematical state of a clone: the request's host, user, password and
/// remote path, whether that path has a last component to name the local
/// project directory, the local project directory, the number of top-level
/// entries, the step, and the job stack (its top is its last element).
pub struct CloneView {
    pub host: Seq<char>,
    pub user: Seq<char>,
    pub password: Seq<char>,
    pub path: Seq<char>,
    pub named: bool,
    pub save_dir: Seq<char>,
    pub count: u32,
    pub phase: ClonePhaseView,
    pub jobs: Seq<CloneJobView>,
}

impl View for CloneRun {
    type V = CloneView;

    closed spec fn view(&self) -> CloneView {
        CloneView {
            host: self.host@,
            user: self.user@,
            password: self.password@,
            path: self.path@,
            named: self.named,
            save_dir: self.save_dir@,
            count: self.count,
            phase: self.phase@,
            jobs: self.jobs@.map_values(|j: CloneJob| j@),
        }
    }
}

/// The name of the local project directory: the last component of the
/// remote path (nothing when it has none, and then the clone fails before
/// the directory is used).
pub open spec fn project_name_of(path: Seq<char>) -> Seq<char> {
    match file_name_of(path) {
        Some(n) => n,
        None => Seq::empty(),
    }
}

/// The local project directory: the save directory joined with the last
/// component of the remote path.
pub open spec fn clone_save_dir(conf: AsyncGitClone) -> Seq<char> {
    join_path(conf.save_dir@, project_name_of(conf.path@))
}

/// The error that ends a clone whose remote path has no last component.
pub open spec fn unnamed_path_text() -> Seq<char> {
    "faild: the remote path has no file name"@
}

/// A clone that has not started yet.
pub open spec fn clone_start(conf: AsyncGitClone) -> CloneView {
    CloneView {
        host: conf.host@,
        user: conf.user@,
        password: conf.password@,
        path: conf.path@,
        named: file_name_of(conf.path@) is Some,
        save_dir: clone_save_dir(conf),
        count: 0,
        phase: ClonePhaseView::ParsingHost,
        jobs: Seq::empty(),
    }
}

/// The first thing a clone does: read the host text.
pub open spec fn clone_first(conf: AsyncGitClone) -> CloneActionView {
    CloneActionView::ParseHost(conf.host@)
}

/// The project record a clone writes: the user, the host text and the
/// password login.
pub open spec fn clone_record(v: CloneView) -> ProjectView {
    ProjectView { user: v.user, remote: v.host, login: LoginView::Password(v.password) }
}

/// Where a clone writes its project record.
pub open spec fn clone_record_path(v: CloneView) -> Seq<char> {
    join_path(v.save_dir, ".project.json"@)
}

/// `v` at step `phase` with job stack `jobs`.
pub open spec fn clone_with(v: CloneView, phase: ClonePhaseView, jobs: Seq<CloneJobView>) -> CloneView {
    CloneView {
        host: v.host,
        user: v.user,
        password: v.password,
        path: v.path,
        named: v.named,
        save_dir: v.save_dir,
        count: v.count,
        phase,
        jobs,
    }
}

/// The jobs for the top-level listing `es` of `path` (cloned into `save_dir`),
/// numbered from `first`, in stack order: the first entry's job on top.
pub open spec fn top_jobs(path: Seq<char>, save_dir: Seq<char>, es: Seq<CloneEntryView>, first: int) -> Seq<
    CloneJobView,
>
    decreases es.len(),
{
    if es.len() == 0 {
        Seq::empty()
    } else {
        top_jobs(path, save_dir, es.drop_first(), first + 1) + seq![
            CloneJobView::Top(
                join_path(path, es[0].name),
                join_path(save_dir, es[0].name),
                es[0].name,
                first as u32,
                es[0].is_dir,
            ),
        ]
    }
}

/// The jobs for the listing `es` of the nested directory `src` (cloned into
/// `dst`), in stack order: the first entry's job on top.
pub open spec fn child_jobs(src: Seq<char>, dst: Seq<char>, es: Seq<CloneEntryView>) -> Seq<
    CloneJobView,
>
    decreases es.len(),
{
    if es.len() == 0 {
        Seq::empty()
    } else {
        child_jobs(src, dst, es.drop_first()) + seq![
            if es[0].is_dir {
                CloneJobView::Enter(join_path(src, es[0].name), join_path(dst, es[0].name))
            } else {
                CloneJobView::Copy(join_path(src, es[0].name), join_path(dst, es[0].name))
            },
        ]
    }
}

/// The clone ends with error `m`.
pub open spec fn clone_fail(v: CloneView, m: Seq<char>) -> (CloneView, CloneActionView) {
    (clone_with(v, ClonePhaseView::Finished(Err(m)), v.jobs), CloneActionView::Finish(Err(m)))
}

/// Takes the job on top of `jobs`, or writes the project record when none is left.
pub open spec fn clone_advance(v: CloneView, jobs: Seq<CloneJobView>) -> (CloneView, CloneActionView) {
    if jobs.len() == 0 {
        (
            clone_with(v, ClonePhaseView::WritingRecord, jobs),
            CloneActionView::WriteRecord(clone_record_path(v), clone_record(v)),
        )
    } else {
        let rest = jobs.drop_last();
        match jobs.last() {
            CloneJobView::Top(src, dst, name, index, is_dir) => if is_dir {
                (
                    clone_with(
                        v,
                        ClonePhaseView::Preparing(src, dst),
                        rest.push(CloneJobView::Announce(name, index)),
                    ),
                    CloneActionView::MakeDir(dst),
                )
            } else {
                (
                    clone_with(v, ClonePhaseView::CopyingTop(src, dst, name, index), rest),
                    CloneActionView::CopyFile(src, dst),
                )
            },
            CloneJobView::Enter(src, dst) => (
                clone_with(v, ClonePhaseView::Preparing(src, dst), rest),
                CloneActionView::MakeDir(dst),
            ),
            CloneJobView::Copy(src, dst) => (
                clone_with(v, ClonePhaseView::CopyingNested(src, dst), rest),
                CloneActionView::CopyFile(src, dst),
            ),
            CloneJobView::Announce(name, index) => (
                clone_with(v, ClonePhaseView::Notifying, rest),
                CloneActionView::Notify("sucessfully: downloaded file "@ + name, index, v.count),
            ),
        }
    }
}

/// One step of a clone: the next state and action after event `e`. An event
/// that does not belong to the step changes nothing and repeats the action
/// the step waits on; creating a directory and reporting progress have no
/// outcome to look at, and the outcome of a nested copy is not reported.
pub open spec fn clone_next(v: CloneView, e: CloneEventView) -> (CloneView, CloneActionView) {
    match v.phase {
        ClonePhaseView::ParsingHost => match e {
            CloneEventView::HostParsed(Ok((ip, port))) => (
                clone_with(v, ClonePhaseView::Connecting(ip, port), v.jobs),
                CloneActionView::Connect(ip, port, v.user, LoginView::Password(v.password)),
            ),
            CloneEventView::HostParsed(Err(m)) => clone_fail(v, m),
            _ => (v, CloneActionView::ParseHost(v.host)),
        },
        ClonePhaseView::Connecting(ip, port) => match e {
            CloneEventView::Done => (
                clone_with(v, ClonePhaseView::OpeningSftp, v.jobs),
                CloneActionView::OpenSftp,
            ),
            CloneEventView::Failed(m) => clone_fail(v, m),
            _ => (v, CloneActionView::Connect(ip, port, v.user, LoginView::Password(v.password))),
        },
        ClonePhaseView::OpeningSftp => match e {
            CloneEventView::Done => if v.named {
                (clone_with(v, ClonePhaseView::MakingSaveDir, v.jobs), CloneActionView::MakeDir(v.save_dir))
            } else {
                clone_fail(v, unnamed_path_text())
            },
            CloneEventView::Failed(m) => clone_fail(v, m),
            _ => (v, CloneActionView::OpenSftp),
        },
        ClonePhaseView::MakingSaveDir => (
            clone_with(v, ClonePhaseView::ListingTop, v.jobs),
            CloneActionView::List(v.path),
        ),
        ClonePhaseView::ListingTop => match e {
            CloneEventView::Listed(es) => clone_advance(
                CloneView { count: es.len() as u32, ..v },
                v.jobs + top_jobs(v.path, v.save_dir, es, 1),
            ),
            CloneEventView::Failed(m) => clone_fail(v, m),
            _ => (v, CloneActionView::List(v.path)),
        },
        ClonePhaseView::Preparing(src, dst) => (
            clone_with(v, ClonePhaseView::Listing(src, dst), v.jobs),
            CloneActionView::List(src),
        ),
        ClonePhaseView::Listing(src, dst) => match e {
            CloneEventView::Listed(es) => clone_advance(v, v.jobs + child_jobs(src, dst, es)),
            CloneEventView::Failed(m) => clone_fail(v, m),
            _ => (v, CloneActionView::List(src)),
        },
        ClonePhaseView::CopyingTop(src, dst, name, index) => match e {
            CloneEventView::Copied(o) => (
                clone_with(v, ClonePhaseView::Notifying, v.jobs),
                CloneActionView::Notify(copy_message_of(o, dst, name), index, v.count),
            ),
            _ => (v, CloneActionView::CopyFile(src, dst)),
        },
        ClonePhaseView::CopyingNested(src, dst) => match e {
            CloneEventView::Copied(_) => clone_advance(v, v.jobs),
            _ => (v, CloneActionView::CopyFile(src, dst)),
        },
        ClonePhaseView::Notifying => clone_advance(v, v.jobs),
        ClonePhaseView::WritingRecord => match e {
            CloneEventView::Done => (
                clone_with(v, ClonePhaseView::Finished(Ok(())), v.jobs),
                CloneActionView::Finish(Ok(())),
            ),
            CloneEventView::Failed(m) => clone_fail(v, m),
            _ => (v, CloneActionView::WriteRecord(clone_record_path(v), clone_record(v))),
        },
        ClonePhaseView::Finished(r) => (v, CloneActionView::Finish(r)),
    }
}


fn push_top_jobs(
    jobs: &mut Vec<CloneJob>,
    path: &String,
    save_dir: &String,
    entries: Vec<CloneEntry>,
)
    ensures
        final(jobs)@.map_values(|j: CloneJob| j@) == old(jobs)@.map_values(|j: CloneJob| j@)
            + top_jobs(path@, save_dir@, entries@.map_values(|e: CloneEntry| e@), 1),
{
    let mut entries = entries;
    let ghost all = entries@.map_values(|e: CloneEntry| e@);
    let ghost start = jobs@.map_values(|j: CloneJob| j@);
    assert(all.skip(all.len() as int) =~= Seq::<CloneEntryView>::empty());
    assert(jobs@.map_values(|j: CloneJob| j@) =~= start + top_jobs(
        path@,
        save_dir@,
        all.skip(all.len() as int),
        (all.len() + 1) as int,
    ));
    while entries.len() > 0
        invariant
            entries@.len() <= all.len(),
            entries@.map_values(|e: CloneEntry| e@) =~= all.take(entries@.len() as int),
            jobs@.map_values(|j: CloneJob| j@) == start + top_jobs(
                path@,
                save_dir@,
                all.skip(entries@.len() as int),
                (entries@.len() + 1) as int,
            ),
        decreases entries@.len(),
    {
        let ghost k = entries@.len() - 1;
        let ghost cur = entries@;
        let ghost before = jobs@.map_values(|j: CloneJob| j@);
        assert(cur.map_values(|e: CloneEntry| e@)[k] == cur[k]@);
        assert(all.take(k + 1)[k] == all[k]);
        let e = entries.pop().unwrap();
        assert(e == cur[k]);
        assert(entries@.map_values(|e: CloneEntry| e@) =~= all.take(k));
        assert(all.skip(k).drop_first() =~= all.skip(k + 1));
        assert(all.skip(k)[0] == all[k]);
        let index = (entries.len() + 1) as u32;
        let src = join_path_text(path.as_str(), e.name.as_str());
        let dst = join_path_text(save_dir.as_str(), e.name.as_str());
        jobs.push(CloneJob::Top { src, dst, name: e.name, index, is_dir: e.is_dir });
        assert(jobs@.map_values(|j: CloneJob| j@) =~= before.push(
            CloneJobView::Top(
                join_path(path@, all[k].name),
                join_path(save_dir@, all[k].name),
                all[k].name,
                (k + 1) as u32,
                all[k].is_dir,
            ),
        ));
    }
    assert(all.skip(0) =~= all);
}

fn push_child_jobs(jobs: &mut Vec<CloneJob>, src: &String, dst: &String, entries: Vec<CloneEntry>)
    ensures
        final(jobs)@.map_values(|j: CloneJob| j@) == old(jobs)@.map_values(|j: CloneJob| j@)
            + child_jobs(src@, dst@, entries@.map_values(|e: CloneEntry| e@)),
{
    let mut entries = entries;
    let ghost all = entries@.map_values(|e: CloneEntry| e@);
    let ghost start = jobs@.map_values(|j: CloneJob| j@);
    assert(all.skip(all.len() as int) =~= Seq::<CloneEntryView>::empty());
    assert(jobs@.map_values(|j: CloneJob| j@) =~= start + child_jobs(
        src@,
        dst@,
        all.skip(all.len() as int),
    ));
    while entries.len() > 0
        invariant
            entries@.len() <= all.len(),
            entries@.map_values(|e: CloneEntry| e@) =~= all.take(entries@.len() as int),
            jobs@.map_values(|j: CloneJob| j@) == start + child_jobs(
                src@,
                dst@,
                all.skip(entries@.len() as int),
            ),
        decreases entries@.len(),
    {
        let ghost k = entries@.len() - 1;
        let ghost cur = entries@;
        let ghost before = jobs@.map_values(|j: CloneJob| j@);
        assert(cur.map_values(|e: CloneEntry| e@)[k] == cur[k]@);
        assert(all.take(k + 1)[k] == all[k]);
        let e = entries.pop().unwrap();
        assert(e == cur[k]);
        assert(entries@.map_values(|e: CloneEntry| e@) =~= all.take(k));
        assert(all.skip(k).drop_first() =~= all.skip(k + 1));
        assert(all.skip(k)[0] == all[k]);
        let child_src = join_path_text(src.as_str(), e.name.as_str());
        let child_dst = join_path_text(dst.as_str(), e.name.as_str());
        if e.is_dir {
            jobs.push(CloneJob::Enter { src: child_src, dst: child_dst });
        } else {
            jobs.push(CloneJob::Copy { src: child_src, dst: child_dst });
        }
        assert(jobs@.map_values(|j: CloneJob| j@) =~= before.push(
            if all[k].is_dir {
                CloneJobView::Enter(join_path(src@, all[k].name), join_path(dst@, all[k].name))
            } else {
                CloneJobView::Copy(join_path(src@, all[k].name), join_path(dst@, all[k].name))
            },
        ));
    }
    assert(all.skip(0) =~= all);
}

impl CloneRun {
    /// Starts cloning the project that `conf` describes; the last component
    /// of the remote path names the local project directory.
    pub fn start(conf: &AsyncGitClone) -> (r: (CloneRun, CloneAction))
        ensures
            r.0@ == clone_start(*conf),
            r.1@ == clone_first(*conf),
    {
        let (named, name) = match file_name(conf.path.as_str()) {
            Some(n) => (true, n),
            None => (false, String::new()),
        };
        let run = CloneRun {
            host: conf.host.clone(),
            user: conf.user.clone(),
            password: conf.password.clone(),
            path: conf.path.clone(),
            named,
            save_dir: join_path_text(conf.save_dir.as_str(), name.as_str()),
            count: 0,
            phase: ClonePhase::ParsingHost,
            jobs: Vec::new(),
        };
        assert(run@.jobs =~= Seq::<CloneJobView>::empty());
        (run, CloneAction::ParseHost { text: conf.host.clone() })
    }

    /// Whether this clone is over.
    pub fn is_finished(&self) -> (r: bool)
        ensures
            r == (self@.phase is Finished),
    {
        match self.phase {
            ClonePhase::Finished(_) => true,
            _ => false,
        }
    }

    fn connect_action(&self, ip: &String, port: u16) -> (r: CloneAction)
        ensures
            r@ == CloneActionView::Connect(ip@, port, self@.user, LoginView::Password(self@.password)),
    {
        CloneAction::Connect {
            ip: ip.clone(),
            port,
            user: self.user.clone(),
            login: SSHLoginType::SSHPASSWORD(self.password.clone()),
        }
    }

    fn record_action(&self) -> (r: CloneAction)
        ensures
            r@ == CloneActionView::WriteRecord(clone_record_path(self@), clone_record(self@)),
    {
        let project = Project {
            user: self.user.clone(),
            remote: self.host.clone(),
            login: SSHLoginType::SSHPASSWORD(self.password.clone()),
        };
        CloneAction::WriteRecord {
            path: join_path_text(self.save_dir.as_str(), ".project.json"),
            project,
        }
    }

    fn fail(&mut self, m: String) -> (r: CloneAction)
        ensures
            (final(self)@, r@) == clone_fail(old(self)@, m@),
    {
        self.phase = ClonePhase::Finished(Err(m.clone()));
        CloneAction::Finish(Err(m))
    }

    fn take_job(&mut self) -> (r: CloneAction)
        ensures
            (final(self)@, r@) == clone_advance(old(self)@, old(self)@.jobs),
    {
        let ghost before = self.jobs@;
        let job = self.jobs.pop();
        proof {
            if before.len() > 0 {
                assert(self.jobs@.map_values(|j: CloneJob| j@) =~= before.map_values(
                    |j: CloneJob| j@,
                ).drop_last());
            }
        }
        match job {
            None => {
                self.phase = ClonePhase::WritingRecord;
                self.record_action()
            },
            Some(CloneJob::Top { src, dst, name, index, is_dir }) => {
                if is_dir {
                    let ghost rest = self.jobs@.map_values(|j: CloneJob| j@);
                    self.jobs.push(CloneJob::Announce { name, index });
                    assert(self.jobs@.map_values(|j: CloneJob| j@) =~= rest.push(
                        CloneJobView::Announce(name@, index),
                    ));
                    let path = dst.clone();
                    self.phase = ClonePhase::Preparing { src, dst };
                    CloneAction::MakeDir { path }
                } else {
                    let action = CloneAction::CopyFile { src: src.clone(), dst: dst.clone() };
                    self.phase = ClonePhase::CopyingTop { src, dst, name, index };
                    action
                }
            },
            Some(CloneJob::Enter { src, dst }) => {
                let path = dst.clone();
                self.phase = ClonePhase::Preparing { src, dst };
                CloneAction::MakeDir { path }
            },
            Some(CloneJob::Copy { src, dst }) => {
                let action = CloneAction::CopyFile { src: src.clone(), dst: dst.clone() };
                self.phase = ClonePhase::CopyingNested { src, dst };
                action
            },
            Some(CloneJob::Announce { name, index }) => {
                let mut msg = String::new();
                msg.append("sucessfully: downloaded file ");
                msg.append(name.as_str());
                self.phase = ClonePhase::Notifying;
                CloneAction::Notify { msg, index, count: self.count }
            },
        }
    }

    /// Takes in what came of the last action and gives the next one.
    pub fn step(&mut self, e: CloneEvent) -> (r: CloneAction)
        ensures
            (final(self)@, r@) == clone_next(old(self)@, e@),
    {
        let mut phase = ClonePhase::ParsingHost;
        std::mem::swap(&mut phase, &mut self.phase);
        match phase {
            ClonePhase::ParsingHost => match e {
                CloneEvent::HostParsed(Ok((ip, port))) => {
                    let action = self.connect_action(&ip, port);
                    self.phase = ClonePhase::Connecting { ip, port };
                    action
                },
                CloneEvent::HostParsed(Err(m)) => self.fail(m),
                _ => {
                    self.phase = ClonePhase::ParsingHost;
                    CloneAction::ParseHost { text: self.host.clone() }
                },
            },
            ClonePhase::Connecting { ip, port } => match e {
                CloneEvent::Done => {
                    self.phase = ClonePhase::OpeningSftp;
                    CloneAction::OpenSftp
                },
                CloneEvent::Failed(m) => self.fail(m),
                _ => {
                    let action = self.connect_action(&ip, port);
                    self.phase = ClonePhase::Connecting { ip, port };
                    action
                },
            },
            ClonePhase::OpeningSftp => match e {
                CloneEvent::Done => {
                    if self.named {
                        self.phase = ClonePhase::MakingSaveDir;
                        CloneAction::MakeDir { path: self.save_dir.clone() }
                    } else {
                        self.fail("faild: the remote path has no file name".to_owned())
                    }
                },
                CloneEvent::Failed(m) => self.fail(m),
                _ => {
                    self.phase = ClonePhase::OpeningSftp;
                    CloneAction::OpenSftp
                },
            },
            ClonePhase::MakingSaveDir => {
                self.phase = ClonePhase::ListingTop;
                CloneAction::List { path: self.path.clone() }
            },
            ClonePhase::ListingTop => match e {
                CloneEvent::Listed(entries) => {
                    self.count = entries.len() as u32;
                    let path = self.path.clone();
                    let save_dir = self.save_dir.clone();
                    push_top_jobs(&mut self.jobs, &path, &save_dir, entries);
                    self.take_job()
                },
                CloneEvent::Failed(m) => self.fail(m),
                _ => {
                    self.phase = ClonePhase::ListingTop;
                    CloneAction::List { path: self.path.clone() }
                },
            },
            ClonePhase::Preparing { src, dst } => {
                let path = src.clone();
                self.phase = ClonePhase::Listing { src, dst };
                CloneAction::List { path }
            },
            ClonePhase::Listing { src, dst } => match e {
                CloneEvent::Listed(entries) => {
                    push_child_jobs(&mut self.jobs, &src, &dst, entries);
                    self.take_job()
                },
                CloneEvent::Failed(m) => self.fail(m),
                _ => {
                    let path = src.clone();
                    self.phase = ClonePhase::Listing { src, dst };
                    CloneAction::List { path }
                },
            },
            ClonePhase::CopyingTop { src, dst, name, index } => match e {
                CloneEvent::Copied(o) => {
                    let msg = copy_message(&o, dst.as_str(), name.as_str());
                    self.phase = ClonePhase::Notifying;
                    CloneAction::Notify { msg, index, count: self.count }
                },
                _ => {
                    let action = CloneAction::CopyFile { src: src.clone(), dst: dst.clone() };
                    self.phase = ClonePhase::CopyingTop { src, dst, name, index };
                    action
                },
            },
            ClonePhase::CopyingNested { src, dst } => match e {
                CloneEvent::Copied(_) => self.take_job(),
                _ => {
                    let action = CloneAction::CopyFile { src: src.clone(), dst: dst.clone() };
                    self.phase = ClonePhase::CopyingNested { src, dst };
                    action
                },
            },
            ClonePhase::Notifying => self.take_job(),
            ClonePhase::WritingRecord => match e {
                CloneEvent::Done => {
                    self.phase = ClonePhase::Finished(Ok(()));
                    CloneAction::Finish(Ok(()))
                },
                CloneEvent::Failed(m) => self.fail(m),
                _ => {
                    self.phase = ClonePhase::WritingRecord;
                    self.record_action()
                },
            },
            ClonePhase::Finished(r) => {
                let action = match &r {
                    Ok(()) => CloneAction::Finish(Ok(())),
                    Err(m) => CloneAction::Finish(Err(m.clone())),
                };
                self.phase = ClonePhase::Finished(r);
                action
            },
        }
    }
}


/// What came of the last action of a push.
#[derive(Debug)]
pub enum PushEvent {
    /// The host text read as an address: its IP text and port, or the error text.
    HostParsed(Result<(String, u16), String>),
    /// The action succeeded.
    Done,
    /// The action failed with this error text.
    Failed(String),
    /// The local directory was listed: each entry's path or the error that
    /// reading it gave, in order, and the number of entries a second listing
    /// counted.
    LocalListed { entries: Vec<Result<String, String>>, count: u32 },
    /// An entry was pushed, with the text that reports it.
    Pushed(String),
}

/// The mathematical form of a push event.
pub enum PushEventView {
    HostParsed(Result<(Seq<char>, u16), Seq<char>>),
    Done,
    Failed(Seq<char>),
    LocalListed(Seq<Result<Seq<char>, Seq<char>>>, u32),
    Pushed(Seq<char>),
}

/// The text of a path or of the error reading it.
pub open spec fn entry_view(e: Result<String, String>) -> Result<Seq<char>, Seq<char>> {
    match e {
        Ok(p) => Ok(p@),
        Err(m) => Err(m@),
    }
}

impl View for PushEvent {
    type V = PushEventView;

    open spec fn view(&self) -> PushEventView {
        match self {
            PushEvent::HostParsed(Ok((ip, port))) => PushEventView::HostParsed(Ok((ip@, *port))),
            PushEvent::HostParsed(Err(m)) => PushEventView::HostParsed(Err(m@)),
            PushEvent::Done => PushEventView::Done,
            PushEvent::Failed(m) => PushEventView::Failed(m@),
            PushEvent::LocalListed { entries, count } => PushEventView::LocalListed(
                entries@.map_values(|e: Result<String, String>| entry_view(e)),
                *count,
            ),
            PushEvent::Pushed(m) => PushEventView::Pushed(m@),
        }
    }
}

/// What the caller of a push does next.
#[derive(Debug, PartialEq, Eq)]
pub enum PushAction {
    /// Read `text` as a socket address (`ip:port`); report `HostParsed`.
    ParseHost { text: String },
    /// Open an SSH session to `ip` and `port` and log in as `user`.
    Connect { ip: String, port: u16, user: String, login: SSHLoginType },
    /// Open the SFTP channel.
    OpenSftp,
    /// List the local directory `path` (and count its entries); report
    /// `LocalListed` or `Failed`.
    ListLocal { path: String },
    /// Push the local entry `path` towards `to`; report `Pushed`.
    PushEntry { path: String, to: String },
    /// Report progress: `msg` about the `index`-th of `count` entries.
    Notify { msg: String, index: u32, count: u32 },
    /// The push is over, with this outcome.
    Finish(Result<(), String>),
}

/// The mathematical form of a push action.
pub enum PushActionView {
    ParseHost(Seq<char>),
    Connect(Seq<char>, u16, Seq<char>, LoginView),
    OpenSftp,
    ListLocal(Seq<char>),
    PushEntry(Seq<char>, Seq<char>),
    Notify(Seq<char>, u32, u32),
    Finish(Result<(), Seq<char>>),
}

impl View for PushAction {
    type V = PushActionView;

    open spec fn view(&self) -> PushActionView {
        match self {
            PushAction::ParseHost { text } => PushActionView::ParseHost(text@),
            PushAction::Connect { ip, port, user, login } => PushActionView::Connect(
                ip@,
                *port,
                user@,
                login_view(*login),
            ),
            PushAction::OpenSftp => PushActionView::OpenSftp,
            PushAction::ListLocal { path } => PushActionView::ListLocal(path@),
            PushAction::PushEntry { path, to } => PushActionView::PushEntry(path@, to@),
            PushAction::Notify { msg, index, count } => PushActionView::Notify(msg@, *index, *count),
            PushAction::Finish(Ok(())) => PushActionView::Finish(Ok(())),
            PushAction::Finish(Err(e)) => PushActionView::Finish(Err(e@)),
        }
    }
}

/// The step a push is at.
enum PushPhase {
    ParsingHost,
    Connecting { ip: String, port: u16 },
    OpeningSftp,
    Listing,
    Pushing { path: String },
    Notifying,
    Closing,
    Finished(Result<(), String>),
}

/// The mathematical form of a push step.
pub enum PushPhaseView {
    ParsingHost,
    Connecting(Seq<char>, u16),
    OpeningSftp,
    Listing,
    Pushing(Seq<char>),
    Notifying,
    Closing,
    Finished(Result<(), Seq<char>>),
}

impl View for PushPhase {
    type V = PushPhaseView;

    closed spec fn view(&self) -> PushPhaseView {
        match self {
            PushPhase::ParsingHost => PushPhaseView::ParsingHost,
            PushPhase::Connecting { ip, port } => PushPhaseView::Connecting(ip@, *port),
            PushPhase::OpeningSftp => PushPhaseView::OpeningSftp,
            PushPhase::Listing => PushPhaseView::Listing,
            PushPhase::Pushing { path } => PushPhaseView::Pushing(path@),
            PushPhase::Notifying => PushPhaseView::Notifying,
            PushPhase::Closing => PushPhaseView::Closing,
            PushPhase::Finished(Ok(())) => PushPhaseView::Finished(Ok(())),
            PushPhase::Finished(Err(e)) => PushPhaseView::Finished(Err(e@)),
        }
    }
}

/// One push of a local project directory in progress.
pub struct PushRun {
    host: String,
    user: String,
    login: SSHLoginType,
    path: String,
    phase: PushPhase,
    pending: Vec<Result<String, String>>,
    index: u32,
    count: u32,
}

/// The mathematical state of a push: the project's host, user and login,
/// the local directory, the step, the entries still to push (a stack whose
/// top is its last element), the number pushed and the counted total.
pub struct PushView {
    pub host: Seq<char>,
    pub user: Seq<char>,
    pub login: LoginView,
    pub path: Seq<char>,
    pub phase: PushPhaseView,
    pub pending: Seq<Result<Seq<char>, Seq<char>>>,
    pub index: u32,
    pub count: u32,
}

impl View for PushRun {
    type V = PushView;

    closed spec fn view(&self) -> PushView {
        PushView {
            host: self.host@,
            user: self.user@,
            login: login_view(self.login),
            path: self.path@,
            phase: self.phase@,
            pending: self.pending@.map_values(|e: Result<String, String>| entry_view(e)),
            index: self.index,
            count: self.count,
        }
    }
}

/// `v` at step `phase` with the entries `pending` still to push.
pub open spec fn push_with(v: PushView, phase: PushPhaseView, pending: Seq<Result<Seq<char>, Seq<char>>>) -> PushView {
    PushView {
        host: v.host,
        user: v.user,
        login: v.login,
        path: v.path,
        phase,
        pending,
        index: v.index,
        count: v.count,
    }
}

/// The push ends with error `m`.
pub open spec fn push_fail(v: PushView, m: Seq<char>) -> (PushView, PushActionView) {
    (push_with(v, PushPhaseView::Finished(Err(m)), v.pending), PushActionView::Finish(Err(m)))
}

/// Takes the next entry: an unreadable one ends the push with its error, a
/// readable one is pushed; with none left the final report goes out.
pub open spec fn push_advance(v: PushView) -> (PushView, PushActionView) {
    if v.pending.len() == 0 {
        (push_with(v, PushPhaseView::Closing, v.pending), PushActionView::Notify(Seq::empty(), 100, 100))
    } else {
        match v.pending.last() {
            Ok(p) => (
                push_with(v, PushPhaseView::Pushing(p), v.pending.drop_last()),
                PushActionView::PushEntry(p, v.path),
            ),
            Err(m) => (
                push_with(v, PushPhaseView::Finished(Err(m)), v.pending.drop_last()),
                PushActionView::Finish(Err(m)),
            ),
        }
    }
}

/// The entry count after one more entry (wrapping as a `u32` counter does).
pub open spec fn next_index(i: u32) -> u32 {
    if i == u32::MAX {
        0
    } else {
        (i + 1) as u32
    }
}

/// A push that has not started yet.
pub open spec fn push_start(conf: Project, path: Seq<char>) -> PushView {
    PushView {
        host: conf.remote@,
        user: conf.user@,
        login: login_view(conf.login),
        path,
        phase: PushPhaseView::ParsingHost,
        pending: Seq::empty(),
        index: 0,
        count: 0,
    }
}

/// One step of a push: the next state and action after event `e`. An event
/// that does not belong to the step changes nothing and repeats the action
/// the step waits on; progress reports have no outcome to look at.
pub open spec fn push_next(v: PushView, e: PushEventView) -> (PushView, PushActionView) {
    match v.phase {
        PushPhaseView::ParsingHost => match e {
            PushEventView::HostParsed(Ok((ip, port))) => (
                push_with(v, PushPhaseView::Connecting(ip, port), v.pending),
                PushActionView::Connect(ip, port, v.user, v.login),
            ),
            PushEventView::HostParsed(Err(m)) => push_fail(v, m),
            _ => (v, PushActionView::ParseHost(v.host)),
        },
        PushPhaseView::Connecting(ip, port) => match e {
            PushEventView::Done => (
                push_with(v, PushPhaseView::OpeningSftp, v.pending),
                PushActionView::OpenSftp,
            ),
            PushEventView::Failed(m) => push_fail(v, m),
            _ => (v, PushActionView::Connect(ip, port, v.user, v.login)),
        },
        PushPhaseView::OpeningSftp => match e {
            PushEventView::Done => (
                push_with(v, PushPhaseView::Listing, v.pending),
                PushActionView::ListLocal(v.path),
            ),
            PushEventView::Failed(m) => push_fail(v, m),
            _ => (v, PushActionView::OpenSftp),
        },
        PushPhaseView::Listing => match e {
            PushEventView::LocalListed(entries, count) => push_advance(
                PushView { pending: entries.reverse(), count, ..v },
            ),
            PushEventView::Failed(m) => push_fail(v, m),
            _ => (v, PushActionView::ListLocal(v.path)),
        },
        PushPhaseView::Pushing(p) => match e {
            PushEventView::Pushed(msg) => (
                PushView {
                    phase: PushPhaseView::Notifying,
                    index: next_index(v.index),
                    ..v
                },
                PushActionView::Notify(msg, next_index(v.index), v.count),
            ),
            _ => (v, PushActionView::PushEntry(p, v.path)),
        },
        PushPhaseView::Notifying => push_advance(v),
        PushPhaseView::Closing => (
            push_with(v, PushPhaseView::Finished(Ok(())), v.pending),
            PushActionView::Finish(Ok(())),
        ),
        PushPhaseView::Finished(r) => (v, PushActionView::Finish(r)),
    }
}

fn reversed<T>(v: Vec<T>) -> (r: Vec<T>)
    ensures
        r@ == v@.reverse(),
{
    let mut v = v;
    let ghost all = v@;
    let mut r: Vec<T> = Vec::new();
    while v.len() > 0
        invariant
            v@.len() <= all.len(),
            v@ =~= all.take(v@.len() as int),
            r@ =~= all.skip(v@.len() as int).reverse(),
        decreases v@.len(),
    {
        let ghost k = v@.len() - 1;
        let ghost cur = v@;
        let x = v.pop().unwrap();
        assert(x == all[k]);
        assert(v@ =~= all.take(k));
        r.push(x);
        assert(all.skip(k).reverse() =~= all.skip(k + 1).reverse().push(all[k]));
    }
    assert(all.skip(0) =~= all);
    r
}

impl PushRun {
    /// Starts pushing the local project directory `path` to the host of the
    /// project record `conf`.
    pub fn start(conf: &Project, path: &str) -> (r: (PushRun, PushAction))
        ensures
            r.0@ == push_start(*conf, path@),
            r.1@ == PushActionView::ParseHost(conf.remote@),
    {
        let run = PushRun {
            host: conf.remote.clone(),
            user: conf.user.clone(),
            login: copy_login(&conf.login),
            path: path.to_owned(),
            phase: PushPhase::ParsingHost,
            pending: Vec::new(),
            index: 0,
            count: 0,
        };
        assert(run@.pending =~= Seq::<Result<Seq<char>, Seq<char>>>::empty());
        (run, PushAction::ParseHost { text: conf.remote.clone() })
    }

    /// Whether this push is over.
    pub fn is_finished(&self) -> (r: bool)
        ensures
            r == (self@.phase is Finished),
    {
        match self.phase {
            PushPhase::Finished(_) => true,
            _ => false,
        }
    }

    fn connect_action(&self, ip: &String, port: u16) -> (r: PushAction)
        ensures
            r@ == PushActionView::Connect(ip@, port, self@.user, self@.login),
    {
        PushAction::Connect { ip: ip.clone(), port, user: self.user.clone(), login: copy_login(&self.login) }
    }

    fn fail(&mut self, m: String) -> (r: PushAction)
        ensures
            (final(self)@, r@) == push_fail(old(self)@, m@),
    {
        self.phase = PushPhase::Finished(Err(m.clone()));
        PushAction::Finish(Err(m))
    }

    fn take_entry(&mut self) -> (r: PushAction)
        ensures
            (final(self)@, r@) == push_advance(old(self)@),
    {
        let ghost before = self.pending@;
        let next = self.pending.pop();
        proof {
            if before.len() > 0 {
                assert(self.pending@.map_values(|e: Result<String, String>| entry_view(e)) =~= before.map_values(
                    |e: Result<String, String>| entry_view(e),
                ).drop_last());
            }
        }
        match next {
            None => {
                self.phase = PushPhase::Closing;
                PushAction::Notify { msg: String::new(), index: 100, count: 100 }
            },
            Some(Ok(p)) => {
                let path = p.clone();
                self.phase = PushPhase::Pushing { path: p };
                PushAction::PushEntry { path, to: self.path.clone() }
            },
            Some(Err(m)) => {
                self.phase = PushPhase::Finished(Err(m.clone()));
                PushAction::Finish(Err(m))
            },
        }
    }

    /// Takes in what came of the last action and gives the next one.
    pub fn step(&mut self, e: PushEvent) -> (r: PushAction)
        ensures
            (final(self)@, r@) == push_next(old(self)@, e@),
    {
        let mut phase = PushPhase::ParsingHost;
        std::mem::swap(&mut phase, &mut self.phase);
        match phase {
            PushPhase::ParsingHost => match e {
                PushEvent::HostParsed(Ok((ip, port))) => {
                    let action = self.connect_action(&ip, port);
                    self.phase = PushPhase::Connecting { ip, port };
                    action
                },
                PushEvent::HostParsed(Err(m)) => self.fail(m),
                _ => {
                    self.phase = PushPhase::ParsingHost;
                    PushAction::ParseHost { text: self.host.clone() }
                },
            },
            PushPhase::Connecting { ip, port } => match e {
                PushEvent::Done => {
                    self.phase = PushPhase::OpeningSftp;
                    PushAction::OpenSftp
                },
                PushEvent::Failed(m) => self.fail(m),
                _ => {
                    let action = self.connect_action(&ip, port);
                    self.phase = PushPhase::Connecting { ip, port };
                    action
                },
            },
            PushPhase::OpeningSftp => match e {
                PushEvent::Done => {
                    self.phase = PushPhase::Listing;
                    PushAction::ListLocal { path: self.path.clone() }
                },
                PushEvent::Failed(m) => self.fail(m),
                _ => {
                    self.phase = PushPhase::OpeningSftp;
                    PushAction::OpenSftp
                },
            },
            PushPhase::Listing => match e {
                PushEvent::LocalListed { entries, count } => {
                    let ghost listed = entries@.map_values(|e: Result<String, String>| entry_view(e));
                    let entries = reversed(entries);
                    assert(entries@.map_values(|e: Result<String, String>| entry_view(e)) =~= listed.reverse());
                    self.pending = entries;
                    self.count = count;
                    self.take_entry()
                },
                PushEvent::Failed(m) => self.fail(m),
                _ => {
                    self.phase = PushPhase::Listing;
                    PushAction::ListLocal { path: self.path.clone() }
                },
            },
            PushPhase::Pushing { path } => match e {
                PushEvent::Pushed(msg) => {
                    self.index = if self.index == u32::MAX {
                        0
                    } else {
                        self.index + 1
                    };
                    self.phase = PushPhase::Notifying;
                    PushAction::Notify { msg, index: self.index, count: self.count }
                },
                _ => {
                    let action = PushAction::PushEntry { path: path.clone(), to: self.path.clone() };
                    self.phase = PushPhase::Pushing { path };
                    action
                },
            },
            PushPhase::Notifying => self.take_entry(),
            PushPhase::Closing => {
                self.phase = PushPhase::Finished(Ok(()));
                PushAction::Finish(Ok(()))
            },
            PushPhase::Finished(r) => {
                let action = match &r {
                    Ok(()) => PushAction::Finish(Ok(())),
                    Err(m) => PushAction::Finish(Err(m.clone())),
                };
                self.phase = PushPhase::Finished(r);
                action
            },
        }
    }
}


/// A finished clone stays finished with the same outcome, whatever comes.
pub proof fn law_clone_finished_is_final(v: CloneView, e: CloneEventView)
    requires
        v.phase is Finished,
    ensures
        clone_next(v, e) == (v, CloneActionView::Finish(v.phase->Finished_0)),
{
}

/// A failure while parsing the host, connecting, opening SFTP, listing or
/// writing the record ends the clone with that error.
pub proof fn law_clone_failure_ends(v: CloneView, m: Seq<char>)
    requires
        v.phase is Connecting || v.phase is OpeningSftp || v.phase is ListingTop || v.phase is Listing
            || v.phase is WritingRecord,
    ensures
        clone_next(v, CloneEventView::Failed(m)) == clone_fail(v, m),
        clone_next(
            clone_with(v, ClonePhaseView::ParsingHost, v.jobs),
            CloneEventView::HostParsed(Err(m)),
        ).1 == CloneActionView::Finish(Err(m)),
{
}

proof fn lemma_top_jobs_cons(
    path: Seq<char>,
    save_dir: Seq<char>,
    e: CloneEntryView,
    rest: Seq<CloneEntryView>,
    first: int,
)
    ensures
        top_jobs(path, save_dir, seq![e] + rest, first) == top_jobs(path, save_dir, rest, first + 1)
            + seq![
            CloneJobView::Top(
                join_path(path, e.name),
                join_path(save_dir, e.name),
                e.name,
                first as u32,
                e.is_dir,
            ),
        ],
{
    assert((seq![e] + rest).drop_first() =~= rest);
    assert((seq![e] + rest)[0] == e);
}

/// The first top-level entry of a listing is cloned first and reported as
/// the first of all the listed entries: for a file, it is copied and the
/// report says how the copy went.
pub proof fn law_clone_reports_first_file(
    v: CloneView,
    name: Seq<char>,
    rest: Seq<CloneEntryView>,
    o: CopyOutcomeView,
)
    requires
        v.phase == ClonePhaseView::ListingTop,
    ensures
        ({
            let es = seq![CloneEntryView { name, is_dir: false }] + rest;
            let (v1, a1) = clone_next(v, CloneEventView::Listed(es));
            let (v2, a2) = clone_next(v1, CloneEventView::Copied(o));
            &&& a1 == CloneActionView::CopyFile(join_path(v.path, name), join_path(v.save_dir, name))
            &&& a2 == CloneActionView::Notify(
                copy_message_of(o, join_path(v.save_dir, name), name),
                1,
                es.len() as u32,
            )
        }),
{
    let e = CloneEntryView { name, is_dir: false };
    lemma_top_jobs_cons(v.path, v.save_dir, e, rest, 1);
    let es = seq![e] + rest;
    let jobs = v.jobs + top_jobs(v.path, v.save_dir, es, 1);
    assert(jobs.last() == CloneJobView::Top(
        join_path(v.path, name),
        join_path(v.save_dir, name),
        name,
        1u32,
        false,
    ));
}

/// After SFTP is open, a clone whose remote path has a last component
/// creates its local project directory; one whose path has none ends with
/// an error before anything is created.
pub proof fn law_clone_needs_project_name(v: CloneView)
    requires
        v.phase == ClonePhaseView::OpeningSftp,
    ensures
        v.named ==> clone_next(v, CloneEventView::Done).1 == CloneActionView::MakeDir(v.save_dir),
        !v.named ==> clone_next(v, CloneEventView::Done).1 == CloneActionView::Finish(
            Err(unnamed_path_text()),
        ),
{
}

/// When the walk has no work left, the clone writes the project record
/// (user, host text and password login) into the project directory.
pub proof fn law_clone_writes_record(v: CloneView)
    requires
        v.phase == ClonePhaseView::Notifying,
        v.jobs.len() == 0,
    ensures
        clone_next(v, CloneEventView::Done).1 == CloneActionView::WriteRecord(
            join_path(v.save_dir, ".project.json"@),
            ProjectView { user: v.user, remote: v.host, login: LoginView::Password(v.password) },
        ),
{
}

/// A pushed entry is reported with the next position and the counted total.
pub proof fn law_push_reports_entry(v: PushView, p: Seq<char>, msg: Seq<char>)
    requires
        v.phase == PushPhaseView::Pushing(p),
    ensures
        push_next(v, PushEventView::Pushed(msg)).1 == PushActionView::Notify(
            msg,
            next_index(v.index),
            v.count,
        ),
{
}

/// After a report, an unreadable next entry ends the push with its error,
/// and with no entry left the push sends its final report and then succeeds.
pub proof fn law_push_after_report(v: PushView, e: PushEventView)
    requires
        v.phase == PushPhaseView::Notifying,
    ensures
        v.pending.len() > 0 && v.pending.last() is Err ==> push_next(v, e).1
            == PushActionView::Finish(Err(v.pending.last()->Err_0)),
        v.pending.len() == 0 ==> push_next(v, e).1 == PushActionView::Notify(Seq::empty(), 100, 100)
            && push_next(push_next(v, e).0, e).1 == PushActionView::Finish(Ok(())),
{
}

/// What a push does with its local listing, for every listing: with no
/// entry it sends the final 100/100 report and then finishes with `Ok`;
/// otherwise it takes the first entry, pushing it towards the project
/// directory (and keeping the other entries, in order, for later) when it
/// could be read, and ending with its error when it could not.
pub proof fn law_push_listing(
    v: PushView,
    entries: Seq<Result<Seq<char>, Seq<char>>>,
    count: u32,
    e: PushEventView,
)
    requires
        v.phase == PushPhaseView::Listing,
    ensures
        ({
            let (v1, a1) = push_next(v, PushEventView::LocalListed(entries, count));
            &&& entries.len() == 0 ==> a1 == PushActionView::Notify(Seq::empty(), 100, 100)
                && push_next(v1, e).1 == PushActionView::Finish(Ok(()))
                && push_next(v1, e).0.phase == PushPhaseView::Finished(Ok::<(), Seq<char>>(()))
            &&& entries.len() > 0 && entries[0] is Ok ==> a1 == PushActionView::PushEntry(
                entries[0]->Ok_0,
                v.path,
            ) && v1.pending.reverse() == entries.drop_first() && v1.count == count
            &&& entries.len() > 0 && entries[0] is Err ==> a1 == PushActionView::Finish(
                Err(entries[0]->Err_0),
            )
        }),
{
    let r = entries.reverse();
    if entries.len() > 0 {
        assert(r.last() == entries[0]);
        assert(r.drop_last().reverse() =~= entries.drop_first());
    }
}

/// A clone that starts in `v` and meets `events` in order: its last state
/// and the actions it gave.
pub open spec fn clone_run(v: CloneView, events: Seq<CloneEventView>) -> (CloneView, Seq<CloneActionView>)
    decreases events.len(),
{
    if events.len() == 0 {
        (v, Seq::empty())
    } else {
        let (mid, acts) = clone_run(v, events.drop_last());
        let (last, a) = clone_next(mid, events.last());
        (last, acts.push(a))
    }
}

/// The position and total of each progress report among `acts`, in order.
pub open spec fn reports(acts: Seq<CloneActionView>) -> Seq<(u32, u32)>
    decreases acts.len(),
{
    if acts.len() == 0 {
        Seq::empty()
    } else {
        match acts.last() {
            CloneActionView::Notify(_, index, count) => reports(acts.drop_last()).push((index, count)),
            _ => reports(acts.drop_last()),
        }
    }
}

spec fn is_top_at(j: CloneJobView, idx: int) -> bool {
    j matches CloneJobView::Top(_, _, _, i, _) && i as int == idx
}

/// The bottom `len` jobs are the top-level entries numbered `n`, `n - 1`, ...
spec fn tops_below(jobs: Seq<CloneJobView>, n: int, len: int) -> bool {
    forall|i: int| 0 <= i < len ==> is_top_at(#[trigger] jobs[i], n - i)
}

/// The jobs from position `from` on belong to a nested walk.
spec fn nested_from(jobs: Seq<CloneJobView>, from: int) -> bool {
    forall|i: int| from <= i < jobs.len() ==> (#[trigger] jobs[i] is Enter || jobs[i] is Copy)
}

/// While inside the walk of a top-level directory: the entries after it
/// lie beneath its announcement, and the nested work above it.
spec fn inside_entry(jobs: Seq<CloneJobView>, n: int, m: int) -> bool {
    &&& 0 <= m < n
    &&& jobs.len() >= n - m
    &&& tops_below(jobs, n, n - m - 1)
    &&& jobs[n - m - 1] matches CloneJobView::Announce(_, i) && i as int == m + 1
    &&& nested_from(jobs, n - m)
}

/// Between top-level entries: only the entries after the `m`-th are left.
spec fn between_entries(jobs: Seq<CloneJobView>, n: int, m: int) -> bool {
    &&& 0 <= m <= n
    &&& jobs.len() == n - m
    &&& tops_below(jobs, n, n - m)
}

/// What holds of a clone walking its listing after `m` reports.
spec fn report_inv(v: CloneView, m: int) -> bool {
    let n = v.count as int;
    &&& 0 <= m <= n
    &&& match v.phase {
        ClonePhaseView::CopyingTop(_, _, _, idx) => idx as int == m + 1 && m < n && between_entries(
            v.jobs,
            n,
            m + 1,
        ),
        ClonePhaseView::Notifying => between_entries(v.jobs, n, m),
        ClonePhaseView::Preparing(_, _) => inside_entry(v.jobs, n, m),
        ClonePhaseView::Listing(_, _) => inside_entry(v.jobs, n, m),
        ClonePhaseView::CopyingNested(_, _) => inside_entry(v.jobs, n, m),
        ClonePhaseView::WritingRecord => m == n,
        ClonePhaseView::Finished(Ok(())) => m == n,
        ClonePhaseView::Finished(Err(_)) => true,
        _ => false,
    }
}

proof fn lemma_advance_reports(v: CloneView, jobs: Seq<CloneJobView>, m: int)
    requires
        between_entries(jobs, v.count as int, m) || inside_entry(jobs, v.count as int, m),
    ensures
        clone_advance(v, jobs).0.count == v.count,
        clone_advance(v, jobs).1 matches CloneActionView::Notify(_, i, c) ==> i as int == m + 1
            && c == v.count && report_inv(clone_advance(v, jobs).0, m + 1),
        !(clone_advance(v, jobs).1 is Notify) ==> report_inv(clone_advance(v, jobs).0, m),
{
    let n = v.count as int;
    if jobs.len() > 0 {
        let rest = jobs.drop_last();
        let k = jobs.len() - 1;
        assert(forall|i: int| 0 <= i < rest.len() ==> rest[i] == jobs[i]);
        let (v2, a) = clone_advance(v, jobs);
        if between_entries(jobs, n, m) {
            assert(k == n - m - 1);
            assert(is_top_at(jobs[k], n - k));
            assert(tops_below(rest, n, n - m - 1));
            if jobs.last()->Top_4 {
                let s = rest.push(CloneJobView::Announce(jobs.last()->Top_2, jobs.last()->Top_3));
                assert(v2.jobs == s);
                assert(forall|i: int| 0 <= i < rest.len() ==> s[i] == jobs[i]);
                assert(tops_below(s, n, n - m - 1));
                assert(s[n - m - 1] == CloneJobView::Announce(jobs.last()->Top_2, jobs.last()->Top_3));
                assert(nested_from(s, n - m));
                assert(inside_entry(s, n, m));
                assert(v2.phase is Preparing);
                assert(report_inv(v2, m));
            } else {
                assert(v2.jobs == rest);
                assert(between_entries(rest, n, m + 1));
                assert(report_inv(v2, m));
            }
        } else {
            if k >= n - m {
                assert(jobs[k] is Enter || jobs[k] is Copy);
                assert(v2.jobs == rest);
                assert(tops_below(rest, n, n - m - 1));
                assert(rest[n - m - 1] == jobs[n - m - 1]);
                assert(nested_from(rest, n - m));
                assert(inside_entry(rest, n, m));
                assert(v2.count == v.count);
                if jobs[k] is Enter {
                    assert(v2.phase == ClonePhaseView::Preparing(jobs[k]->Enter_0, jobs[k]->Enter_1));
                } else {
                    assert(v2.phase == ClonePhaseView::CopyingNested(jobs[k]->Copy_0, jobs[k]->Copy_1));
                }
                assert(report_inv(v2, m));
            } else {
                assert(k == n - m - 1);
                assert(v2.jobs == rest);
                assert(tops_below(rest, n, n - m - 1));
                assert(between_entries(rest, n, m + 1));
            }
        }
    }
}

proof fn lemma_child_jobs_nested(src: Seq<char>, dst: Seq<char>, es: Seq<CloneEntryView>)
    ensures
        forall|i: int|
            0 <= i < child_jobs(src, dst, es).len() ==> (#[trigger] child_jobs(src, dst, es)[i] is Enter
                || child_jobs(src, dst, es)[i] is Copy),
    decreases es.len(),
{
    if es.len() > 0 {
        lemma_child_jobs_nested(src, dst, es.drop_first());
        let a = child_jobs(src, dst, es.drop_first());
        assert(forall|i: int| 0 <= i < a.len() ==> child_jobs(src, dst, es)[i] == a[i]);
    }
}

proof fn lemma_step_reports(v: CloneView, e: CloneEventView, m: int)
    requires
        report_inv(v, m),
    ensures
        clone_next(v, e).0.count == v.count,
        clone_next(v, e).1 matches CloneActionView::Notify(_, i, c) ==> i as int == m + 1 && c
            == v.count && report_inv(clone_next(v, e).0, m + 1),
        !(clone_next(v, e).1 is Notify) ==> report_inv(clone_next(v, e).0, m),
{
    let n = v.count as int;
    match v.phase {
        ClonePhaseView::Notifying => lemma_advance_reports(v, v.jobs, m),
        ClonePhaseView::Listing(src, dst) => {
            if let CloneEventView::Listed(es) = e {
                let all = v.jobs + child_jobs(src, dst, es);
                lemma_child_jobs_nested(src, dst, es);
                assert(forall|i: int| 0 <= i < v.jobs.len() ==> all[i] == v.jobs[i]);
                assert forall|i: int| n - m <= i < all.len() implies (#[trigger] all[i] is Enter
                    || all[i] is Copy) by {
                    if i >= v.jobs.len() {
                        assert(all[i] == child_jobs(src, dst, es)[i - v.jobs.len()]);
                    }
                }
                assert(tops_below(all, n, n - m - 1));
                assert(inside_entry(all, n, m));
                lemma_advance_reports(v, all, m);
            }
        },
        ClonePhaseView::CopyingNested(_, _) => {
            if let CloneEventView::Copied(_) = e {
                lemma_advance_reports(v, v.jobs, m);
            }
        },
        _ => {},
    }
}

proof fn lemma_top_jobs_numbered(path: Seq<char>, save_dir: Seq<char>, es: Seq<CloneEntryView>, first: int)
    requires
        1 <= first,
        first + es.len() - 1 <= u32::MAX,
    ensures
        top_jobs(path, save_dir, es, first).len() == es.len(),
        forall|i: int|
            0 <= i < es.len() ==> is_top_at(
                #[trigger] top_jobs(path, save_dir, es, first)[i],
                first + es.len() - 1 - i,
            ),
    decreases es.len(),
{
    if es.len() > 0 {
        lemma_top_jobs_numbered(path, save_dir, es.drop_first(), first + 1);
        let a = top_jobs(path, save_dir, es.drop_first(), first + 1);
        let all = top_jobs(path, save_dir, es, first);
        assert(forall|i: int| 0 <= i < a.len() ==> all[i] == a[i]);
        assert(is_top_at(all[es.len() - 1], first));
    }
}

proof fn lemma_run_reports(v: CloneView, es: Seq<CloneEntryView>, events: Seq<CloneEventView>)
    requires
        v.phase == ClonePhaseView::ListingTop,
        v.jobs.len() == 0,
        es.len() <= u32::MAX,
    ensures
        ({
            let (last, acts) = clone_run(v, seq![CloneEventView::Listed(es)] + events);
            let rs = reports(acts);
            &&& last.count as int == es.len()
            &&& report_inv(last, rs.len() as int)
            &&& forall|k: int| 0 <= k < rs.len() ==> #[trigger] rs[k] == ((k + 1) as u32, es.len() as u32)
        }),
    decreases events.len(),
{
    let l = CloneEventView::Listed(es);
    let all = seq![l] + events;
    if events.len() == 0 {
        assert(all =~= seq![l]);
        assert(all.drop_last() =~= Seq::<CloneEventView>::empty());
        assert(all.last() == l);
        assert(clone_run(v, Seq::<CloneEventView>::empty()) == (v, Seq::<CloneActionView>::empty()));
        let v1 = CloneView { count: es.len() as u32, ..v };
        let jobs = v.jobs + top_jobs(v.path, v.save_dir, es, 1);
        lemma_top_jobs_numbered(v.path, v.save_dir, es, 1);
        assert(jobs =~= top_jobs(v.path, v.save_dir, es, 1));
        assert(between_entries(jobs, v1.count as int, 0));
        lemma_advance_reports(v1, jobs, 0);
        let (last, a) = clone_next(v, l);
        let acts = Seq::<CloneActionView>::empty().push(a);
        assert(acts.drop_last() =~= Seq::<CloneActionView>::empty());
        assert(clone_run(v, all) == (last, acts));
        assert(reports(Seq::<CloneActionView>::empty()) =~= Seq::<(u32, u32)>::empty());
        assert(v1.count as int == es.len());
        if let CloneActionView::Notify(_, i, c) = a {
            assert(reports(acts) =~= seq![(i, c)]);
            assert(i == 1u32);
            assert(c == es.len() as u32);
        } else {
            assert(reports(acts) =~= Seq::<(u32, u32)>::empty());
        }
    } else {
        let prev = events.drop_last();
        lemma_run_reports(v, es, prev);
        assert(all.drop_last() =~= seq![l] + prev);
        assert(all.last() == events.last());
        let (mid, acts) = clone_run(v, seq![l] + prev);
        let rs = reports(acts);
        lemma_step_reports(mid, events.last(), rs.len() as int);
        let (last, a) = clone_next(mid, events.last());
        assert(clone_run(v, all) == (last, acts.push(a)));
        let acts2 = acts.push(a);
        assert(acts2.drop_last() =~= acts);
        let rs2 = reports(acts2);
        assert(forall|k: int| 0 <= k < rs.len() ==> rs2[k] == rs[k]);
        if let CloneActionView::Notify(_, i, c) = a {
            assert(rs2 == rs.push((i, c)));
            assert(i as int == rs.len() + 1);
            assert(c == mid.count);
            assert(rs2[rs.len() as int] == ((rs.len() + 1) as u32, es.len() as u32));
            assert(report_inv(last, rs2.len() as int));
        } else {
            assert(rs2 == rs);
        }
        assert(last.count == mid.count);
    }
}

/// A clone reports each top-level entry of its listing, in listing order,
/// with its position and the listing's length: for every listing of at
/// most `u32::MAX` entries and every run after it, the `k`-th progress
/// report of the run (counting from 1) says `k` of the number of entries,
/// whether that entry is a file or a directory walked first; there are
/// never more reports than entries, and a clone that has walked its
/// listing (and writes the record, or has finished successfully) has
/// reported every entry.
pub proof fn law_clone_reports_each_entry_in_order(
    v: CloneView,
    es: Seq<CloneEntryView>,
    events: Seq<CloneEventView>,
)
    requires
        v.phase == ClonePhaseView::ListingTop,
        v.jobs.len() == 0,
        es.len() <= u32::MAX,
    ensures
        ({
            let (last, acts) = clone_run(v, seq![CloneEventView::Listed(es)] + events);
            let rs = reports(acts);
            &&& rs.len() <= es.len()
            &&& forall|k: int| 0 <= k < rs.len() ==> #[trigger] rs[k] == ((k + 1) as u32, es.len() as u32)
            &&& (last.phase is WritingRecord || last.phase == ClonePhaseView::Finished(
                Ok::<(), Seq<char>>(()),
            )) ==> rs.len() == es.len()
        }),
{
    lemma_run_reports(v, es, events);
}

/// A push that starts in `v` and meets `events` in order: its last state
/// and the actions it gave.
pub open spec fn push_run(v: PushView, events: Seq<PushEventView>) -> (PushView, Seq<PushActionView>)
    decreases events.len(),
{
    if events.len() == 0 {
        (v, Seq::empty())
    } else {
        let (mid, acts) = push_run(v, events.drop_last());
        let (last, a) = push_next(mid, events.last());
        (last, acts.push(a))
    }
}

/// Whether `e` is an outcome of `a`: a pushed entry is answered by the
/// report of its push; the other actions take any event.
pub open spec fn push_answers(a: PushActionView, e: PushEventView) -> bool {
    a is PushEntry ==> e is Pushed
}

/// Whether every event of `events` is an outcome of the action before it,
/// for a push that starts in `v` waiting on the action `a0`.
pub open spec fn push_answered(v: PushView, a0: PushActionView, events: Seq<PushEventView>) -> bool
    decreases events.len(),
{
    if events.len() == 0 {
        true
    } else {
        let prev = events.drop_last();
        push_answered(v, a0, prev) && push_answers(
            if prev.len() == 0 {
                a0
            } else {
                push_run(v, prev).1.last()
            },
            events.last(),
        )
    }
}

/// The entry and target of each push among `acts`, in order.
pub open spec fn pushed_entries(acts: Seq<PushActionView>) -> Seq<(Seq<char>, Seq<char>)>
    decreases acts.len(),
{
    if acts.len() == 0 {
        Seq::empty()
    } else {
        match acts.last() {
            PushActionView::PushEntry(p, to) => pushed_entries(acts.drop_last()).push((p, to)),
            _ => pushed_entries(acts.drop_last()),
        }
    }
}

/// The position and total of each progress report among `acts`, in order.
pub open spec fn push_reports(acts: Seq<PushActionView>) -> Seq<(u32, u32)>
    decreases acts.len(),
{
    if acts.len() == 0 {
        Seq::empty()
    } else {
        match acts.last() {
            PushActionView::Notify(_, index, count) => push_reports(acts.drop_last()).push((index, count)),
            _ => push_reports(acts.drop_last()),
        }
    }
}

/// The listing of the readable entries `paths`.
pub open spec fn readable(paths: Seq<Seq<char>>) -> Seq<Result<Seq<char>, Seq<char>>> {
    Seq::new(paths.len(), |i: int| Ok::<Seq<char>, Seq<char>>(paths[i]))
}

/// The entries still to push, after the first `p` of `paths`.
spec fn pending_after(v: PushView, paths: Seq<Seq<char>>, p: int) -> bool {
    &&& 0 <= p <= paths.len()
    &&& v.pending.len() == paths.len() - p
    &&& forall|j: int|
        0 <= j < paths.len() - p ==> #[trigger] v.pending[j] == Ok::<Seq<char>, Seq<char>>(
            paths[paths.len() - 1 - j],
        )
}

/// What holds of a push walking `paths` after `p` pushes and `r` reports.
spec fn push_inv(v: PushView, paths: Seq<Seq<char>>, c: u32, p: int, r: int) -> bool {
    &&& v.count == c
    &&& pending_after(v, paths, p)
    &&& match v.phase {
        PushPhaseView::Pushing(path) => 1 <= p && r == p - 1 && path == paths[p - 1] && v.index as int == r,
        PushPhaseView::Notifying => r == p && v.index as int == r,
        PushPhaseView::Closing => p == paths.len() && r == paths.len() + 1,
        PushPhaseView::Finished(outcome) => outcome == Ok::<(), Seq<char>>(()) && p == paths.len() && r
            == paths.len() + 1,
        _ => false,
    }
}

proof fn lemma_push_advance_walk(v: PushView, paths: Seq<Seq<char>>, c: u32, p: int)
    requires
        v.count == c,
        pending_after(v, paths, p),
        v.index as int == p,
        paths.len() < u32::MAX,
    ensures
        ({
            let (v2, a) = push_advance(v);
            &&& p < paths.len() ==> a == PushActionView::PushEntry(paths[p], v.path) && push_inv(
                v2,
                paths,
                c,
                p + 1,
                p,
            )
            &&& p == paths.len() ==> a == PushActionView::Notify(Seq::empty(), 100, 100) && push_inv(
                v2,
                paths,
                c,
                p,
                p + 1,
            )
        }),
{
    if p < paths.len() {
        let k = paths.len() - p - 1;
        assert(v.pending[k] == Ok::<Seq<char>, Seq<char>>(paths[paths.len() - 1 - k]));
        let (v2, a) = push_advance(v);
        assert(v2.pending == v.pending.drop_last());
        assert(pending_after(v2, paths, p + 1));
    }
}

proof fn lemma_push_step_walk(
    v: PushView,
    e: PushEventView,
    paths: Seq<Seq<char>>,
    c: u32,
    p: int,
    r: int,
)
    requires
        push_inv(v, paths, c, p, r),
        paths.len() < u32::MAX,
        v.phase is Pushing ==> e is Pushed,
    ensures
        ({
            let (v2, a) = push_next(v, e);
            &&& a matches PushActionView::PushEntry(x, to) ==> x == paths[p] && to == v.path && push_inv(
                v2,
                paths,
                c,
                p + 1,
                r,
            )
            &&& a matches PushActionView::Notify(_, i, n) ==> push_inv(v2, paths, c, p, r + 1) && (
            if r < paths.len() {
                i as int == r + 1 && n == c
            } else {
                i == 100 && n == 100
            })
            &&& !(a is PushEntry) && !(a is Notify) ==> push_inv(v2, paths, c, p, r)
            &&& !(a matches PushActionView::Finish(Err(_)))
            &&& v2.phase is Pushing ==> a is PushEntry
            &&& v2.path == v.path
        }),
{
    match v.phase {
        PushPhaseView::Notifying => lemma_push_advance_walk(v, paths, c, p),
        _ => {},
    }
}

proof fn lemma_push_run_walk(v: PushView, paths: Seq<Seq<char>>, c: u32, events: Seq<PushEventView>)
    requires
        v.phase == PushPhaseView::Listing,
        v.index == 0,
        paths.len() < u32::MAX,
        push_answered(
            v,
            PushActionView::ListLocal(v.path),
            seq![PushEventView::LocalListed(readable(paths), c)] + events,
        ),
    ensures
        ({
            let (last, acts) = push_run(v, seq![PushEventView::LocalListed(readable(paths), c)] + events);
            let ps = pushed_entries(acts);
            let rs = push_reports(acts);
            &&& push_inv(last, paths, c, ps.len() as int, rs.len() as int)
            &&& last.path == v.path
            &&& acts.len() > 0
            &&& last.phase is Pushing ==> acts.last() is PushEntry
            &&& forall|k: int| 0 <= k < ps.len() ==> #[trigger] ps[k] == (paths[k], v.path)
            &&& forall|k: int|
                0 <= k < rs.len() ==> #[trigger] rs[k] == if k < paths.len() {
                    ((k + 1) as u32, c)
                } else {
                    (100u32, 100u32)
                }
            &&& forall|i: int| 0 <= i < acts.len() ==> !(#[trigger] acts[i] matches PushActionView::Finish(Err(_)))
        }),
    decreases events.len(),
{
    let l = PushEventView::LocalListed(readable(paths), c);
    let all = seq![l] + events;
    if events.len() == 0 {
        assert(all =~= seq![l]);
        assert(all.drop_last() =~= Seq::<PushEventView>::empty());
        assert(all.last() == l);
        assert(push_run(v, Seq::<PushEventView>::empty()) == (v, Seq::<PushActionView>::empty()));
        let listed = readable(paths);
        let v1 = PushView { pending: listed.reverse(), count: c, ..v };
        assert(pending_after(v1, paths, 0));
        lemma_push_advance_walk(v1, paths, c, 0);
        let (last, a) = push_next(v, l);
        let acts = Seq::<PushActionView>::empty().push(a);
        assert(acts.drop_last() =~= Seq::<PushActionView>::empty());
        assert(push_run(v, all) == (last, acts));
        assert(pushed_entries(Seq::<PushActionView>::empty()) =~= Seq::<(Seq<char>, Seq<char>)>::empty());
        assert(push_reports(Seq::<PushActionView>::empty()) =~= Seq::<(u32, u32)>::empty());
        if paths.len() > 0 {
            assert(pushed_entries(acts) =~= seq![(paths[0], v.path)]);
            assert(push_reports(acts) =~= Seq::<(u32, u32)>::empty());
        } else {
            assert(pushed_entries(acts) =~= Seq::<(Seq<char>, Seq<char>)>::empty());
            assert(push_reports(acts) =~= seq![(100u32, 100u32)]);
        }
        assert(acts[0] == a);
    } else {
        let prev = events.drop_last();
        assert(all.drop_last() =~= seq![l] + prev);
        assert(all.last() == events.last());
        lemma_push_run_walk(v, paths, c, prev);
        let (mid, acts) = push_run(v, seq![l] + prev);
        let ps = pushed_entries(acts);
        let rs = push_reports(acts);
        assert((seq![l] + prev).len() > 0);
        lemma_push_step_walk(mid, events.last(), paths, c, ps.len() as int, rs.len() as int);
        let (last, a) = push_next(mid, events.last());
        assert(push_run(v, all) == (last, acts.push(a)));
        let acts2 = acts.push(a);
        assert(acts2.drop_last() =~= acts);
        assert(acts2.last() == a);
        let ps2 = pushed_entries(acts2);
        let rs2 = push_reports(acts2);
        assert(forall|k: int| 0 <= k < ps.len() ==> ps2[k] == ps[k]);
        assert(forall|k: int| 0 <= k < rs.len() ==> rs2[k] == rs[k]);
        assert(forall|i: int| 0 <= i < acts.len() ==> acts2[i] == acts[i]);
    }
}

/// A push whose local listing can be read entirely pushes each entry once,
/// in listing order, towards the project directory, reports the `k`-th
/// push as `k` of the counted total, then sends the final 100/100 report
/// and finishes with `Ok`; it never ends with an error. This holds for
/// every listing shorter than `u32::MAX` entries (an empty one included)
/// and every run after it in which each push is answered by its report.
pub proof fn law_push_pushes_each_entry(
    v: PushView,
    paths: Seq<Seq<char>>,
    c: u32,
    events: Seq<PushEventView>,
)
    requires
        v.phase == PushPhaseView::Listing,
        v.index == 0,
        paths.len() < u32::MAX,
        push_answered(
            v,
            PushActionView::ListLocal(v.path),
            seq![PushEventView::LocalListed(readable(paths), c)] + events,
        ),
    ensures
        ({
            let (last, acts) = push_run(v, seq![PushEventView::LocalListed(readable(paths), c)] + events);
            let ps = pushed_entries(acts);
            let rs = push_reports(acts);
            &&& ps.len() <= paths.len()
            &&& forall|k: int| 0 <= k < ps.len() ==> #[trigger] ps[k] == (paths[k], v.path)
            &&& rs.len() <= paths.len() + 1
            &&& forall|k: int|
                0 <= k < rs.len() ==> #[trigger] rs[k] == if k < paths.len() {
                    ((k + 1) as u32, c)
                } else {
                    (100u32, 100u32)
                }
            &&& forall|i: int| 0 <= i < acts.len() ==> !(#[trigger] acts[i] matches PushActionView::Finish(Err(_)))
            &&& last.phase is Finished ==> last.phase == PushPhaseView::Finished(Ok::<(), Seq<char>>(()))
                && ps.len() == paths.len() && rs.len() == paths.len() + 1
        }),
{
    lemma_push_run_walk(v, paths, c, events);
    let (last, acts) = push_run(v, seq![PushEventView::LocalListed(readable(paths), c)] + events);
    let ps = pushed_entries(acts);
    let rs = push_reports(acts);
    assert(push_inv(last, paths, c, ps.len() as int, rs.len() as int));
    if last.phase is Finished {
        assert(last.phase == PushPhaseView::Finished(Ok::<(), Seq<char>>(())));
    }
}

/// A clone logs in with the request's user and password at the address its
/// host text reads as, and ends with the reading's error when it does not
/// read as one.
pub proof fn law_clone_connects_as_requested(v: CloneView, ip: Seq<char>, port: u16, m: Seq<char>)
    requires
        v.phase == ClonePhaseView::ParsingHost,
    ensures
        clone_next(v, CloneEventView::HostParsed(Ok((ip, port)))).1 == CloneActionView::Connect(
            ip,
            port,
            v.user,
            LoginView::Password(v.password),
        ),
        clone_next(v, CloneEventView::HostParsed(Err(m))).1 == CloneActionView::Finish(Err(m)),
        clone_next(v, CloneEventView::HostParsed(Err(m))).0.phase == ClonePhaseView::Finished(
            Err(m),
        ),
{
}

/// How each copy outcome is reported, for every outcome, local path and
/// name: a file that could not be opened gives its error, a local file
/// that could not be created names it with the error, a failed write names
/// the local file, and a copied file is reported downloaded by its name.
pub proof fn law_copy_message_texts(m: Seq<char>, dst: Seq<char>, name: Seq<char>)
    ensures
        copy_message_of(CopyOutcomeView::OpenFailed(m), dst, name) == "faild: "@ + m,
        copy_message_of(CopyOutcomeView::CreateFailed(m), dst, name) == "faild: create file "@ + dst
            + " => "@ + m,
        copy_message_of(CopyOutcomeView::WriteFailed, dst, name) == "faild: write file "@ + dst,
        copy_message_of(CopyOutcomeView::Copied, dst, name) == "sucessfully: downloaded file "@
            + name,
{
}

} // verus!
