//! The directory-watch lifecycle and the event pump.
//!
//! The `Monitor` owns the loaded settings and the one armed watch. Every
//! transition returns the steps the surrounding binary must perform, in
//! order — tear a watch down, establish one, persist the settings, hand a
//! replay file to the parser — so the decisions are made and checked here
//! while the OS work stays outside.

use vstd::prelude::*;
use crate::events::EventKind;
use crate::events::FsEvent;
use crate::events::WatchError;
use crate::events::dir_of;
use crate::events::has_replay_extension;
use crate::events::in_directory;
use crate::events::is_replay_path;
use crate::settings::Settings;
use crate::settings::valid_path;

verus! {

/// One step the surrounding binary performs on the core's behalf. A
/// transition returns these in the order they must run.
#[derive(Clone, Debug, PartialEq, Eq)]
pub enum WatchAction {
    /// Stop watching this directory. Best effort: a failure here is logged
    /// and not propagated.
    Disarm(Vec<u8>),
    /// Begin watching this directory, non-recursively. The outcome is
    /// reported back through `arm_succeeded`.
    Arm(Vec<u8>),
    /// Persist the current settings to the configuration file.
    SaveSettings,
    /// Hand this freshly created replay file to the replay parser.
    Dispatch(Vec<u8>),
}

/// The paths among `paths` that lie directly in `dir` and name a replay
/// file, kept in arrival order.
pub open spec fn selected_paths(paths: Seq<Seq<u8>>, dir: Seq<u8>) -> Seq<Seq<u8>>
    decreases paths.len(),
{
    if paths.len() == 0 {
        Seq::empty()
    } else {
        let rest = selected_paths(paths.drop_last(), dir);
        if dir_of(paths.last()) == Option::Some(dir) && is_replay_path(paths.last()) {
            rest.push(paths.last())
        } else {
            rest
        }
    }
}

/// What one polled notification dispatches to the replay parser: nothing
/// unless a watch is armed and the notification reports creations; otherwise
/// exactly the created replay files lying in the armed directory.
pub open spec fn dispatch_paths(
    kind: EventKind,
    paths: Seq<Seq<u8>>,
    armed: Option<Seq<u8>>,
) -> Seq<Seq<u8>> {
    match armed {
        Option::None => Seq::empty(),
        Option::Some(d) => if kind == EventKind::Created {
            selected_paths(paths, d)
        } else {
            Seq::empty()
        },
    }
}

/// Every path the selection keeps lies directly in `dir` and names a replay
/// file.
pub proof fn lemma_selected_paths_sound(paths: Seq<Seq<u8>>, dir: Seq<u8>)
    ensures
        forall|i: int|
            0 <= i < selected_paths(paths, dir).len() ==> dir_of(
                #[trigger] selected_paths(paths, dir)[i],
            ) == Option::Some(dir) && is_replay_path(selected_paths(paths, dir)[i]),
    decreases paths.len(),
{
    if paths.len() > 0 {
        lemma_selected_paths_sound(paths.drop_last(), dir);
    }
}

/// An armed watch is exclusive: while directory `b` is armed, a pump tick
/// never dispatches a path lying in any other directory `a`. So after
/// switching from `a` to `b`, notifications still in flight from `a` are
/// dropped, not delivered.
pub proof fn lemma_no_dispatch_outside_armed(
    kind: EventKind,
    paths: Seq<Seq<u8>>,
    a: Seq<u8>,
    b: Seq<u8>,
)
    requires
        a != b,
    ensures
        forall|i: int|
            0 <= i < dispatch_paths(kind, paths, Option::Some(b)).len() ==> dir_of(
                #[trigger] dispatch_paths(kind, paths, Option::Some(b))[i],
            ) != Option::Some(a),
{
    if kind == EventKind::Created {
        lemma_selected_paths_sound(paths, b);
    }
}

/// A created file in the armed directory whose extension is the recognized
/// one is dispatched exactly once; one whose extension is anything else is
/// never dispatched.
pub proof fn lemma_single_create_dispatch(p: Seq<u8>, d: Seq<u8>)
    ensures
        dir_of(p) == Option::Some(d) && is_replay_path(p) ==> dispatch_paths(
            EventKind::Created,
            seq![p],
            Option::Some(d),
        ) =~= seq![p],
        !is_replay_path(p) ==> dispatch_paths(
            EventKind::Created,
            seq![p],
            Option::Some(d),
        ).len() == 0,
{
    let s = seq![p];
    assert(s.drop_last() =~= Seq::<Seq<u8>>::empty());
    assert(s.last() == p);
    assert(selected_paths(Seq::<Seq<u8>>::empty(), d) =~= Seq::<Seq<u8>>::empty());
    if dir_of(p) == Option::Some(d) && is_replay_path(p) {
        assert(selected_paths(s, d) =~= Seq::<Seq<u8>>::empty().push(p));
        assert(Seq::<Seq<u8>>::empty().push(p) =~= seq![p]);
    }
}

/// A notification that does not report creations dispatches nothing,
/// whatever its paths and their extensions.
pub proof fn lemma_non_create_never_dispatches(
    kind: EventKind,
    paths: Seq<Seq<u8>>,
    armed: Option<Seq<u8>>,
)
    requires
        kind != EventKind::Created,
    ensures
        dispatch_paths(kind, paths, armed).len() == 0,
{
}

/// Copies a byte vector.
fn clone_bytes(v: &Vec<u8>) -> (r: Vec<u8>)
    ensures
        r@ == v@,
{
    let r = v.clone();
    proof {
        assert(r@ =~= v@);
    }
    r
}

/// The root state of the core: the loaded settings and the at-most-one
/// armed directory watch. Arming another directory always goes through
/// `select_directory`, which tears the previous watch down first, so a
/// second watch can never exist beside the first.
pub struct Monitor {
    settings: Settings,
    armed: Option<Vec<u8>>,
}

impl Monitor {
    /// The persisted value: the directory recorded in the settings.
    pub closed spec fn saved_path(&self) -> Option<Seq<u8>> {
        self.settings.path_view()
    }

    /// The directory whose watch is currently established, if any.
    pub closed spec fn armed_dir(&self) -> Option<Seq<u8>> {
        match self.armed {
            Option::None => Option::None,
            Option::Some(d) => Option::Some(d@),
        }
    }

    /// The settings stay persistable throughout.
    pub closed spec fn wf(&self) -> bool {
        self.settings.wf()
    }

    /// A monitor before any settings are loaded: nothing saved, nothing
    /// armed.
    pub fn new() -> (m: Monitor)
        ensures
            m.wf(),
            m.saved_path() is None,
            m.armed_dir() is None,
    {
        Monitor { settings: Settings::default(), armed: Option::None }
    }

    /// The settings as currently held, and as persisted on the next save.
    pub fn current_settings(&self) -> (s: &Settings)
        ensures
            s.path_view() == self.saved_path(),
            s.wf() == self.wf(),
    {
        &self.settings
    }

    /// The directory whose watch is currently established, if any.
    pub fn armed_directory(&self) -> (d: &Option<Vec<u8>>)
        ensures
            match d {
                Option::Some(v) => self.armed_dir() == Option::Some(v@),
                Option::None => self.armed_dir() is None,
            },
    {
        &self.armed
    }

    /// Adopts the settings loaded at startup. No watch is armed yet: the
    /// returned actions ask the caller to arm the recorded directory, and
    /// the outcome comes back through `arm_succeeded` — a failure to arm is
    /// surfaced to the user, never fatal.
    pub fn startup(settings: Settings) -> (r: (Monitor, Vec<WatchAction>))
        requires
            settings.wf(),
        ensures
            r.0.wf(),
            r.0.saved_path() == settings.path_view(),
            r.0.armed_dir() is None,
            match settings.path_view() {
                Option::None => r.1@.len() == 0,
                Option::Some(p) => r.1@.len() == 1 && (r.1@[0] matches WatchAction::Arm(d) && d@
                    == p),
            },
    {
        let mut acts: Vec<WatchAction> = Vec::new();
        match &settings.replays_path {
            Option::None => {},
            Option::Some(p) => {
                acts.push(WatchAction::Arm(clone_bytes(p)));
            },
        }
        (Monitor { settings, armed: Option::None }, acts)
    }

    /// Records that the watch the caller was asked to arm is now
    /// established.
    pub fn arm_succeeded(&mut self, dir: Vec<u8>)
        requires
            old(self).armed_dir() is None,
        ensures
            final(self).armed_dir() == Option::Some(dir@),
            final(self).saved_path() == old(self).saved_path(),
            final(self).wf() == old(self).wf(),
    {
        self.armed = Option::Some(dir);
    }

    /// The user picked a directory (or cancelled: `None`, a no-op). On a
    /// pick, the previous watch — if one is armed — is torn down before the
    /// new directory is armed, the settings are updated, and they are
    /// persisted; the returned actions hold exactly those steps in exactly
    /// that order.
    pub fn select_directory(&mut self, picked: Option<Vec<u8>>) -> (acts: Vec<WatchAction>)
        requires
            old(self).wf(),
            picked matches Option::Some(p) ==> valid_path(p@),
        ensures
            final(self).wf(),
            picked is None ==> final(self).saved_path() == old(self).saved_path() && final(self).armed_dir() == old(self).armed_dir() && acts@.len() == 0,
            picked matches Option::Some(d) ==> final(self).saved_path() == Option::Some(d@)
                && final(self).armed_dir() is None && (match old(self).armed_dir() {
                Option::Some(a) => acts@.len() == 3 && (acts@[0] matches WatchAction::Disarm(x)
                    && x@ == a) && (acts@[1] matches WatchAction::Arm(x) && x@ == d@) && acts@[2]
                    is SaveSettings,
                Option::None => acts@.len() == 2 && (acts@[0] matches WatchAction::Arm(x) && x@
                    == d@) && acts@[1] is SaveSettings,
            }),
    {
        match picked {
            Option::None => Vec::new(),
            Option::Some(d) => {
                let mut acts: Vec<WatchAction> = Vec::new();
                let prev = self.armed.take();
                match prev {
                    Option::Some(a) => {
                        acts.push(WatchAction::Disarm(a));
                    },
                    Option::None => {},
                }
                acts.push(WatchAction::Arm(clone_bytes(&d)));
                acts.push(WatchAction::SaveSettings);
                self.settings = Settings { replays_path: Option::Some(d) };
                acts
            },
        }
    }

    /// One pump tick: at most one notification was polled from the event
    /// queue, without blocking. Nothing polled is a quiet tick. A
    /// notification dispatches exactly the created replay files that lie in
    /// the armed directory — notifications of any other kind, for any other
    /// path, or arriving while nothing is armed dispatch nothing. An error
    /// means the running watch has gone stale: the watch is cleared and torn
    /// down, and the settings are left alone.
    pub fn tick(&mut self, polled: Option<Result<FsEvent, WatchError>>) -> (acts: Vec<WatchAction>)
        ensures
            final(self).saved_path() == old(self).saved_path(),
            final(self).wf() == old(self).wf(),
            match polled {
                Option::None => final(self).armed_dir() == old(self).armed_dir() && acts@.len()
                    == 0,
                Option::Some(res) => match res {
                    Result::Ok(e) => final(self).armed_dir() == old(self).armed_dir() && ({
                        let sel = dispatch_paths(e.kind, e.paths.deep_view(), old(self).armed_dir());
                        acts@.len() == sel.len() && forall|i: int|
                            0 <= i < sel.len() ==> ((#[trigger] acts@[i]) matches
                                WatchAction::Dispatch(q) && q@ == sel[i])
                    }),
                    Result::Err(_) => final(self).armed_dir() is None && (match old(self).armed_dir() {
                        Option::Some(a) => acts@.len() == 1 && (acts@[0] matches
                            WatchAction::Disarm(x) && x@ == a),
                        Option::None => acts@.len() == 0,
                    }),
                },
            },
    {
        match polled {
            Option::None => Vec::new(),
            Option::Some(res) => match res {
                Result::Ok(e) => self.dispatch_created(&e),
                Result::Err(_) => {
                    let mut acts: Vec<WatchAction> = Vec::new();
                    let prev = self.armed.take();
                    match prev {
                        Option::Some(a) => {
                            acts.push(WatchAction::Disarm(a));
                        },
                        Option::None => {},
                    }
                    acts
                },
            },
        }
    }

    /// The replay-intake pass over one notification: a dispatch for each
    /// created replay file in the armed directory, in arrival order.
    fn dispatch_created(&self, e: &FsEvent) -> (acts: Vec<WatchAction>)
        ensures
            ({
                let sel = dispatch_paths(e.kind, e.paths.deep_view(), self.armed_dir());
                acts@.len() == sel.len() && forall|i: int|
                    0 <= i < sel.len() ==> ((#[trigger] acts@[i]) matches WatchAction::Dispatch(q)
                        && q@ == sel[i])
            }),
    {
        let mut acts: Vec<WatchAction> = Vec::new();
        if !(e.kind == EventKind::Created) {
            return acts;
        }
        match &self.armed {
            Option::None => acts,
            Option::Some(d) => {
                let ghost dp = e.paths.deep_view();
                let mut i: usize = 0;
                while i < e.paths.len()
                    invariant
                        0 <= i <= e.paths@.len(),
                        dp == e.paths.deep_view(),
                        dp.len() == e.paths@.len(),
                        ({
                            let sel = selected_paths(dp.subrange(0, i as int), d@);
                            acts@.len() == sel.len() && forall|k: int|
                                0 <= k < sel.len() ==> ((#[trigger] acts@[k]) matches
                                    WatchAction::Dispatch(q) && q@ == sel[k])
                        }),
                    decreases e.paths@.len() - i,
                {
                    let q = &e.paths[i];
                    proof {
                        assert(dp[i as int] =~= q@);
                        assert(dp.subrange(0, i as int + 1).drop_last() =~= dp.subrange(
                            0,
                            i as int,
                        ));
                        assert(dp.subrange(0, i as int + 1).last() == dp[i as int]);
                    }
                    if in_directory(q, d) && has_replay_extension(q) {
                        acts.push(WatchAction::Dispatch(clone_bytes(q)));
                    }
                    i = i + 1;
                }
                proof {
                    assert(dp.subrange(0, dp.len() as int) =~= dp);
                }
                acts
            },
        }
    }
}

} // verus!
