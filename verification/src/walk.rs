//! The recursive listing of a key-value mount, as a state machine.
//!
//! Listing a folder is a request to the server. The walk decides, after
//! each answer, which folder to list next, and gathers the secrets it
//! meets, each by its path relative to the mount point (the start folder
//! followed by the keys that lead to it), in the order of a depth-first walk
//! that visits the keys of each folder in the order the server gave them.
use vstd::prelude::*;

use crate::version::{kv_version_of, parse_kv_version, KvVersion};

verus! {

/// A key names a folder when it ends with `/`.
pub open spec fn is_folder(key: Seq<char>) -> bool {
    key.len() > 0 && key.last() == '/'
}

/// The secrets below `path`, relative to it, found by listing `keys` (the
/// answer for `path`) and, for each folder key, the folder itself; the
/// server answers `listing(p)` for a path `p`. `None` where folders nest
/// deeper than `depth`.
pub open spec fn secrets_below(
    listing: spec_fn(Seq<char>) -> Seq<Seq<char>>,
    path: Seq<char>,
    keys: Seq<Seq<char>>,
    depth: nat,
) -> Option<Seq<Seq<char>>>
    decreases depth, keys.len(),
{
    if keys.len() == 0 {
        Some(Seq::empty())
    } else {
        let key = keys[0];
        let rest = secrets_below(listing, path, keys.drop_first(), depth);
        if is_folder(key) {
            if depth == 0 {
                None
            } else {
                let inner = secrets_below(listing, path + key, listing(path + key), (depth - 1) as nat);
                match (inner, rest) {
                    (Some(a), Some(b)) => Some(a.map_values(|s: Seq<char>| key + s) + b),
                    _ => None,
                }
            }
        } else {
            match rest {
                Some(b) => Some(seq![key] + b),
                None => None,
            }
        }
    }
}

/// The secrets under `path`, relative to it, when the server answers
/// `listing(p)` for each path `p` and folders nest at most `depth` deep.
pub open spec fn listed_secrets(
    listing: spec_fn(Seq<char>) -> Seq<Seq<char>>,
    path: Seq<char>,
    depth: nat,
) -> Option<Seq<Seq<char>>> {
    secrets_below(listing, path, listing(path), depth)
}

/// The secrets under `path` by their paths in the mount: `path` followed
/// by each secret's path relative to it.
pub open spec fn mount_paths(path: Seq<char>, names: Seq<Seq<char>>) -> Seq<Seq<char>> {
    names.map_values(|s: Seq<char>| path + s)
}

/// How many folders below `path` the recursive listing of `keys` (the
/// answer for `path`) lists, each once, within `depth` levels.
pub open spec fn folders_below(
    listing: spec_fn(Seq<char>) -> Seq<Seq<char>>,
    path: Seq<char>,
    keys: Seq<Seq<char>>,
    depth: nat,
) -> nat
    decreases depth, keys.len(),
{
    if keys.len() == 0 {
        0
    } else {
        let key = keys[0];
        let rest = folders_below(listing, path, keys.drop_first(), depth);
        if is_folder(key) && depth > 0 {
            1 + folders_below(listing, path + key, listing(path + key), (depth - 1) as nat) + rest
        } else {
            rest
        }
    }
}

/// A listed folder whose keys are not all handled yet.
pub struct FrameModel {
    /// The folder's path relative to the start of the walk.
    pub prefix: Seq<char>,
    /// Its keys still to handle, first one first.
    pub keys: Seq<Seq<char>>,
}

/// The state of a walk.
pub struct WalkModel {
    pub version: Option<KvVersion>,
    /// The folder the walk started from, ending with `/` unless empty.
    pub base: Seq<char>,
    /// Folders being handled; the last one is the innermost.
    pub frames: Seq<FrameModel>,
    /// Secrets met so far, by their paths in the mount.
    pub found: Seq<Seq<char>>,
    /// The folder (relative to `base`) whose listing is awaited.
    pub waiting: Option<Seq<char>>,
}

/// What the walk asks of its caller.
pub enum ActionModel {
    /// List this full path on a mount of this layout.
    List(KvVersion, Seq<char>),
    /// The walk is over; these are the secrets.
    Finished(Seq<Seq<char>>),
}

/// The number of keys still to handle in all frames.
pub open spec fn pending_keys(frames: Seq<FrameModel>) -> nat
    decreases frames.len(),
{
    if frames.len() == 0 {
        0
    } else {
        pending_keys(frames.drop_last()) + frames.last().keys.len()
    }
}

/// Handles keys until a folder must be listed or nothing is left.
pub open spec fn advance(w: WalkModel) -> (WalkModel, ActionModel)
    decreases pending_keys(w.frames), w.frames.len(),
{
    if w.frames.len() == 0 {
        (w, ActionModel::Finished(w.found))
    } else {
        let top = w.frames.last();
        if top.keys.len() == 0 {
            advance(WalkModel { frames: w.frames.drop_last(), ..w })
        } else {
            let key = top.keys[0];
            let frames = w.frames.update(
                w.frames.len() - 1,
                FrameModel { prefix: top.prefix, keys: top.keys.drop_first() },
            );
            proof {
                assert(frames.drop_last() =~= w.frames.drop_last());
            }
            let name = top.prefix + key;
            if is_folder(key) {
                (
                    WalkModel { frames, waiting: Some(name), ..w },
                    ActionModel::List(w.version.unwrap(), w.base + name),
                )
            } else {
                advance(WalkModel { frames, found: w.found.push(w.base + name), ..w })
            }
        }
    }
}

/// The folder that a start path names: the path itself when it is empty
/// or ends with `/`, else the path followed by `/`.
pub open spec fn start_dir(path: Seq<char>) -> Seq<char> {
    if path.len() > 0 && !is_folder(path) {
        path + "/"@
    } else {
        path
    }
}

/// The walk that starts at the folder named by `path` on a mount whose
/// layout is spelled `kvv`.
pub open spec fn start_model(path: Seq<char>, kvv: Seq<char>) -> (WalkModel, ActionModel) {
    let base = start_dir(path);
    match kv_version_of(kvv) {
        Some(v) => (
            WalkModel {
                version: Some(v),
                base,
                frames: Seq::empty(),
                found: Seq::empty(),
                waiting: Some(Seq::empty()),
            },
            ActionModel::List(v, base),
        ),
        None => (
            WalkModel {
                version: None,
                base,
                frames: Seq::empty(),
                found: Seq::empty(),
                waiting: None,
            },
            ActionModel::Finished(Seq::empty()),
        ),
    }
}

/// The walk after the awaited folder was listed with `keys`.
pub open spec fn receive_model(w: WalkModel, keys: Seq<Seq<char>>) -> (WalkModel, ActionModel) {
    advance(
        WalkModel {
            frames: w.frames.push(FrameModel { prefix: w.waiting.unwrap(), keys }),
            waiting: None,
            ..w
        },
    )
}

/// Runs a walk for at most `steps` listings, the server answering
/// `listing(p)` for a path `p`; `None` when it has not finished by then.
pub open spec fn drive(
    listing: spec_fn(Seq<char>) -> Seq<Seq<char>>,
    w: WalkModel,
    a: ActionModel,
    steps: nat,
) -> Option<Seq<Seq<char>>>
    decreases steps,
{
    match a {
        ActionModel::Finished(found) => Some(found),
        ActionModel::List(_, path) => {
            if steps == 0 {
                None
            } else {
                let (w2, a2) = receive_model(w, listing(path));
                drive(listing, w2, a2, (steps - 1) as nat)
            }
        },
    }
}

pub open spec fn string_views(v: Seq<String>) -> Seq<Seq<char>> {
    v.map_values(|s: String| s@)
}

/// A folder being handled: its keys from `next` on are still to handle.
struct Frame {
    prefix: String,
    keys: Vec<String>,
    next: usize,
}

impl Frame {
    spec fn model(self) -> FrameModel {
        FrameModel {
            prefix: self.prefix@,
            keys: string_views(self.keys@.subrange(self.next as int, self.keys@.len() as int)),
        }
    }
}

/// The recursive listing of the secrets under a path.
pub struct SecretWalk {
    version: Option<KvVersion>,
    base: String,
    frames: Vec<Frame>,
    found: Vec<String>,
    waiting: Option<String>,
}

/// What the walk asks of its caller.
pub enum WalkAction {
    /// List `path` on a mount of layout `version`, and hand the keys to
    /// [`SecretWalk::receive`].
    List { version: KvVersion, path: String },
    /// The walk is over; these are the secrets, by their paths in the mount.
    Finished(Vec<String>),
}

impl View for WalkAction {
    type V = ActionModel;

    open spec fn view(&self) -> ActionModel {
        match self {
            WalkAction::List { version, path } => ActionModel::List(*version, path@),
            WalkAction::Finished(found) => ActionModel::Finished(string_views(found@)),
        }
    }
}

impl View for SecretWalk {
    type V = WalkModel;

    closed spec fn view(&self) -> WalkModel {
        WalkModel {
            version: self.version,
            base: self.base@,
            frames: self.frames@.map_values(|f: Frame| f.model()),
            found: string_views(self.found@),
            waiting: match self.waiting {
                Some(p) => Some(p@),
                None => None,
            },
        }
    }
}

fn copy_strings(v: &Vec<String>) -> (res: Vec<String>)
    ensures
        string_views(res@) == string_views(v@),
{
    let mut res: Vec<String> = Vec::new();
    let n = v.len();
    for i in 0..n
        invariant
            n == v.len(),
            res@.len() == i,
            forall|j: int| 0 <= j < i ==> #[trigger] res@[j]@ == v@[j]@,
    {
        res.push(v[i].clone());
    }
    assert(string_views(res@) =~= string_views(v@));
    res
}

fn ends_with_slash(s: &str) -> (res: bool)
    ensures
        res == is_folder(s@),
{
    let n = s.unicode_len();
    n > 0 && s.get_char(n - 1) == '/'
}

impl SecretWalk {
    /// The walk is consistent: frames point inside their keys, and a walk
    /// with work left knows its mount layout.
    pub closed spec fn wf(&self) -> bool {
        &&& forall|i: int|
            0 <= i < self.frames@.len() ==> #[trigger] self.frames@[i].next <= self.frames@[i].keys@.len()
        &&& (self.waiting is Some || self.frames@.len() > 0) ==> self.version is Some
    }

    /// Starts listing the secrets under `path` on a mount of layout `kvv`;
    /// a non-empty `path` without a trailing `/` names the folder `path/`.
    /// An unknown layout finishes at once with no secret.
    pub fn start(path: &str, kvv: &str) -> (res: (SecretWalk, WalkAction))
        ensures
            res.0.wf(),
            (res.0@, res.1@) == start_model(path@, kvv@),
    {
        let version = parse_kv_version(kvv);
        let base = if path.unicode_len() > 0 && !ends_with_slash(path) {
            String::from_str(path).concat("/")
        } else {
            String::from_str(path)
        };
        match version {
            Some(v) => {
                let first = base.clone();
                let walk = SecretWalk {
                    version,
                    base,
                    frames: Vec::new(),
                    found: Vec::new(),
                    waiting: Some(String::new()),
                };
                proof {
                    assert(walk@.frames =~= Seq::<FrameModel>::empty());
                    assert(walk@.found =~= Seq::<Seq<char>>::empty());
                }
                (walk, WalkAction::List { version: v, path: first })
            },
            None => {
                let walk = SecretWalk {
                    version,
                    base,
                    frames: Vec::new(),
                    found: Vec::new(),
                    waiting: None,
                };
                let none: Vec<String> = Vec::new();
                proof {
                    assert(walk@.frames =~= Seq::<FrameModel>::empty());
                    assert(walk@.found =~= Seq::<Seq<char>>::empty());
                    assert(string_views(none@) =~= Seq::<Seq<char>>::empty());
                }
                (walk, WalkAction::Finished(none))
            },
        }
    }

    /// Whether the walk waits for the keys of a folder.
    pub fn is_waiting(&self) -> (res: bool)
        ensures
            res == self@.waiting is Some,
    {
        self.waiting.is_some()
    }

    /// Hands the walk the keys of the folder it asked for.
    pub fn receive(&mut self, keys: Vec<String>) -> (action: WalkAction)
        requires
            old(self).wf(),
            old(self)@.waiting is Some,
        ensures
            final(self).wf(),
            (final(self)@, action@) == receive_model(old(self)@, string_views(keys@)),
    {
        let prefix = self.waiting.take().unwrap();
        let ghost before = self@;
        let frame = Frame { prefix, keys, next: 0 };
        proof {
            assert(keys@.subrange(0, keys@.len() as int) =~= keys@);
        }
        self.frames.push(frame);
        proof {
            assert(self@.frames =~= before.frames.push(frame.model()));
        }
        self.advance()
    }

    fn advance(&mut self) -> (action: WalkAction)
        requires
            old(self).wf(),
            old(self)@.waiting is None,
        ensures
            final(self).wf(),
            (final(self)@, action@) == advance(old(self)@),
    {
        loop
            invariant
                self.wf(),
                self@.waiting is None,
                advance(self@) == advance(old(self)@),
            decreases pending_keys(self@.frames), self@.frames.len(),
        {
            let ghost w = self@;
            let n = self.frames.len();
            if n == 0 {
                let found = copy_strings(&self.found);
                return WalkAction::Finished(found);
            }
            let mut top = self.frames.pop().unwrap();
            proof {
                assert(self@.frames =~= w.frames.drop_last());
                assert(top.model() == w.frames.last());
            }
            if top.next >= top.keys.len() {
                assert(w.frames.last().keys.len() == 0);
                continue;
            }
            let key = top.keys[top.next].clone();
            let ghost old_top = top.model();
            proof {
                assert(old_top.keys[0] == key@);
            }
            top.next = top.next + 1;
            proof {
                assert(top.model().keys =~= old_top.keys.drop_first());
            }
            let name = top.prefix.clone().concat(key.as_str());
            self.frames.push(top);
            proof {
                assert(self@.frames =~= w.frames.update(
                    w.frames.len() - 1,
                    FrameModel { prefix: old_top.prefix, keys: old_top.keys.drop_first() },
                ));
                assert(self@.frames.drop_last() =~= w.frames.drop_last());
                assert(pending_keys(self@.frames) < pending_keys(w.frames));
            }
            if ends_with_slash(key.as_str()) {
                let path = self.base.clone().concat(name.as_str());
                proof {
                    assert(path@ =~= w.base + (old_top.prefix + key@));
                }
                self.waiting = Some(name);
                let version = self.version.unwrap();
                return WalkAction::List { version, path };
            } else {
                let full = self.base.clone().concat(name.as_str());
                self.found.push(full);
                proof {
                    assert(string_views(self.found@) =~= w.found.push(
                        w.base + (old_top.prefix + key@),
                    ));
                }
            }
        }
    }
}

} // verus!
