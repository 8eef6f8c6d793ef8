//! What a whole walk computes: run against a server, it returns exactly
//! the secrets that the recursive listing defines, and it ends.
use vstd::prelude::*;

use crate::version::kv_version_of;
use crate::walk::{
    advance, drive, folders_below, is_folder, listed_secrets, mount_paths, receive_model,
    secrets_below, start_dir, start_model, ActionModel, FrameModel, WalkModel,
};

verus! {

/// The secrets below the folder `prefix` (relative to `base`) whose keys
/// are `keys`, each by its path in the mount (`base`, `prefix`, then its
/// path below the folder).
spec fn gather(
    listing: spec_fn(Seq<char>) -> Seq<Seq<char>>,
    base: Seq<char>,
    prefix: Seq<char>,
    keys: Seq<Seq<char>>,
    depth: nat,
) -> Option<Seq<Seq<char>>>
    decreases depth, keys.len(),
{
    if keys.len() == 0 {
        Some(Seq::empty())
    } else {
        let key = keys[0];
        let rest = gather(listing, base, prefix, keys.drop_first(), depth);
        if is_folder(key) {
            if depth == 0 {
                None
            } else {
                let inner = gather(
                    listing,
                    base,
                    prefix + key,
                    listing(base + (prefix + key)),
                    (depth - 1) as nat,
                );
                match (inner, rest) {
                    (Some(a), Some(b)) => Some(a + b),
                    _ => None,
                }
            }
        } else {
            match rest {
                Some(b) => Some(seq![base + (prefix + key)] + b),
                None => None,
            }
        }
    }
}

/// How many folders below the folder `prefix` are still to list.
spec fn folders(
    listing: spec_fn(Seq<char>) -> Seq<Seq<char>>,
    base: Seq<char>,
    prefix: Seq<char>,
    keys: Seq<Seq<char>>,
    depth: nat,
) -> nat
    decreases depth, keys.len(),
{
    if keys.len() == 0 {
        0
    } else {
        let key = keys[0];
        let rest = folders(listing, base, prefix, keys.drop_first(), depth);
        if is_folder(key) && depth > 0 {
            1 + folders(
                listing,
                base,
                prefix + key,
                listing(base + (prefix + key)),
                (depth - 1) as nat,
            ) + rest
        } else {
            rest
        }
    }
}

spec fn frames_yield(
    listing: spec_fn(Seq<char>) -> Seq<Seq<char>>,
    base: Seq<char>,
    frames: Seq<FrameModel>,
    depth: nat,
) -> Option<Seq<Seq<char>>>
    decreases frames.len(),
{
    if frames.len() == 0 {
        Some(Seq::empty())
    } else {
        let top = frames.last();
        match (
            gather(listing, base, top.prefix, top.keys, depth),
            frames_yield(listing, base, frames.drop_last(), depth),
        ) {
            (Some(a), Some(b)) => Some(a + b),
            _ => None,
        }
    }
}

spec fn frames_folders(
    listing: spec_fn(Seq<char>) -> Seq<Seq<char>>,
    base: Seq<char>,
    frames: Seq<FrameModel>,
    depth: nat,
) -> nat
    decreases frames.len(),
{
    if frames.len() == 0 {
        0
    } else {
        let top = frames.last();
        folders(listing, base, top.prefix, top.keys, depth) + frames_folders(
            listing,
            base,
            frames.drop_last(),
            depth,
        )
    }
}

/// The walk, continued against `listing`, still produces `target`.
spec fn on_track(
    listing: spec_fn(Seq<char>) -> Seq<Seq<char>>,
    w: WalkModel,
    depth: nat,
    target: Seq<Seq<char>>,
) -> bool {
    &&& w.version is Some
    &&& match w.waiting {
        None => match frames_yield(listing, w.base, w.frames, depth) {
            Some(y) => w.found + y == target,
            None => false,
        },
        Some(p) => match (
            gather(listing, w.base, p, listing(w.base + p), depth),
            frames_yield(listing, w.base, w.frames, depth),
        ) {
            (Some(g), Some(y)) => w.found + g + y == target,
            _ => false,
        },
    }
}

/// The listings the walk still has to ask for.
spec fn remaining_listings(
    listing: spec_fn(Seq<char>) -> Seq<Seq<char>>,
    w: WalkModel,
    depth: nat,
) -> nat {
    frames_folders(listing, w.base, w.frames, depth) + match w.waiting {
        Some(p) => 1 + folders(listing, w.base, p, listing(w.base + p), depth),
        None => 0,
    }
}

spec fn consistent(
    listing: spec_fn(Seq<char>) -> Seq<Seq<char>>,
    w: WalkModel,
    a: ActionModel,
    depth: nat,
    target: Seq<Seq<char>>,
) -> bool {
    match a {
        ActionModel::Finished(found) => found == target,
        ActionModel::List(v, path) => {
            &&& w.waiting is Some
            &&& path == w.base + w.waiting.unwrap()
            &&& on_track(listing, w, depth, target)
            &&& w.version == Some(v)
        },
    }
}

spec fn steps_needed(
    listing: spec_fn(Seq<char>) -> Seq<Seq<char>>,
    w: WalkModel,
    a: ActionModel,
    depth: nat,
) -> nat {
    match a {
        ActionModel::Finished(_) => 0,
        ActionModel::List(_, _) => remaining_listings(listing, w, depth),
    }
}

proof fn lemma_gather_deeper(
    listing: spec_fn(Seq<char>) -> Seq<Seq<char>>,
    base: Seq<char>,
    prefix: Seq<char>,
    keys: Seq<Seq<char>>,
    depth: nat,
)
    requires
        gather(listing, base, prefix, keys, depth) is Some,
    ensures
        gather(listing, base, prefix, keys, depth + 1) == gather(listing, base, prefix, keys, depth),
        folders(listing, base, prefix, keys, depth + 1) == folders(listing, base, prefix, keys, depth),
    decreases depth, keys.len(),
{
    if keys.len() > 0 {
        let key = keys[0];
        lemma_gather_deeper(listing, base, prefix, keys.drop_first(), depth);
        if is_folder(key) {
            lemma_gather_deeper(
                listing,
                base,
                prefix + key,
                listing(base + (prefix + key)),
                (depth - 1) as nat,
            );
        }
    }
}

proof fn lemma_gather_shape(
    listing: spec_fn(Seq<char>) -> Seq<Seq<char>>,
    base: Seq<char>,
    prefix: Seq<char>,
    keys: Seq<Seq<char>>,
    depth: nat,
)
    ensures
        gather(listing, base, prefix, keys, depth) == match secrets_below(
            listing,
            base + prefix,
            keys,
            depth,
        ) {
            Some(r) => Some(mount_paths(base + prefix, r)),
            None => None,
        },
        folders(listing, base, prefix, keys, depth) == folders_below(
            listing,
            base + prefix,
            keys,
            depth,
        ),
    decreases depth, keys.len(),
{
    let dir = base + prefix;
    if keys.len() == 0 {
        assert(mount_paths(dir, Seq::<Seq<char>>::empty()) =~= Seq::empty());
    } else {
        let key = keys[0];
        lemma_gather_shape(listing, base, prefix, keys.drop_first(), depth);
        let rest_s = secrets_below(listing, dir, keys.drop_first(), depth);
        assert(base + (prefix + key) =~= dir + key);
        if is_folder(key) {
            if depth > 0 {
                let d1 = (depth - 1) as nat;
                lemma_gather_shape(listing, base, prefix + key, listing(base + (prefix + key)), d1);
                let inner_s = secrets_below(listing, dir + key, listing(dir + key), d1);
                if inner_s is Some && rest_s is Some {
                    let a = inner_s.unwrap();
                    let b = rest_s.unwrap();
                    let lhs = mount_paths(base + (prefix + key), a) + mount_paths(dir, b);
                    let rhs = mount_paths(dir, a.map_values(|s: Seq<char>| key + s) + b);
                    assert forall|i: int| 0 <= i < a.len() implies (dir + key) + a[i] == dir + (key
                        + a[i]) by {
                        assert((dir + key) + a[i] =~= dir + (key + a[i]));
                    }
                    assert(lhs =~= rhs);
                }
            }
        } else {
            if rest_s is Some {
                let b = rest_s.unwrap();
                assert(seq![base + (prefix + key)] + mount_paths(dir, b) =~= mount_paths(
                    dir,
                    seq![key] + b,
                ));
            }
        }
    }
}

proof fn lemma_advance_on_track(
    listing: spec_fn(Seq<char>) -> Seq<Seq<char>>,
    w: WalkModel,
    depth: nat,
    target: Seq<Seq<char>>,
)
    requires
        w.waiting is None,
        on_track(listing, w, depth, target),
    ensures
        ({
            let (w2, a) = advance(w);
            &&& consistent(listing, w2, a, depth, target)
            &&& a is Finished ==> remaining_listings(listing, w, depth) == 0
            &&& a is List ==> {
                &&& w2.base == w.base
                &&& remaining_listings(listing, w2, depth) == remaining_listings(listing, w, depth)
            }
        }),
    decreases crate::walk::pending_keys(w.frames), w.frames.len(),
{
    if w.frames.len() == 0 {
        assert(w.found + Seq::<Seq<char>>::empty() =~= w.found);
    } else {
        let top = w.frames.last();
        let y0 = frames_yield(listing, w.base, w.frames.drop_last(), depth).unwrap();
        if top.keys.len() == 0 {
            let w1 = WalkModel { frames: w.frames.drop_last(), ..w };
            assert(Seq::<Seq<char>>::empty() + y0 =~= y0);
            lemma_advance_on_track(listing, w1, depth, target);
        } else {
            let key = top.keys[0];
            let top1 = FrameModel { prefix: top.prefix, keys: top.keys.drop_first() };
            let frames = w.frames.update(w.frames.len() - 1, top1);
            assert(frames.drop_last() =~= w.frames.drop_last());
            assert(frames.last() == top1);
            let name = top.prefix + key;
            let b = gather(listing, w.base, top.prefix, top.keys.drop_first(), depth).unwrap();
            if is_folder(key) {
                let d1 = (depth - 1) as nat;
                let inner = listing(w.base + name);
                let a = gather(listing, w.base, name, inner, d1).unwrap();
                lemma_gather_deeper(listing, w.base, name, inner, d1);
                let w2 = WalkModel { frames, waiting: Some(name), ..w };
                assert(w.found + (a + b + y0) == w.found + a + (b + y0)) by {
                    assert(w.found + (a + b + y0) =~= w.found + a + (b + y0));
                }
                assert(on_track(listing, w2, depth, target));
            } else {
                let full = w.base + name;
                let w2 = WalkModel { frames, found: w.found.push(full), ..w };
                assert(w.found + (seq![full] + b + y0) =~= w.found.push(full) + (b + y0));
                lemma_advance_on_track(listing, w2, depth, target);
            }
        }
    }
}

proof fn lemma_receive_on_track(
    listing: spec_fn(Seq<char>) -> Seq<Seq<char>>,
    w: WalkModel,
    depth: nat,
    target: Seq<Seq<char>>,
)
    requires
        w.waiting is Some,
        on_track(listing, w, depth, target),
    ensures
        ({
            let p = w.waiting.unwrap();
            let w1 = WalkModel {
                frames: w.frames.push(FrameModel { prefix: p, keys: listing(w.base + p) }),
                waiting: None,
                ..w
            };
            &&& on_track(listing, w1, depth, target)
            &&& remaining_listings(listing, w1, depth) + 1 == remaining_listings(listing, w, depth)
        }),
{
    let p = w.waiting.unwrap();
    let frames = w.frames.push(FrameModel { prefix: p, keys: listing(w.base + p) });
    assert(frames.drop_last() =~= w.frames);
    let g = gather(listing, w.base, p, listing(w.base + p), depth).unwrap();
    let y = frames_yield(listing, w.base, w.frames, depth).unwrap();
    assert(w.found + g + y =~= w.found + (g + y));
}

proof fn lemma_drive_on_track(
    listing: spec_fn(Seq<char>) -> Seq<Seq<char>>,
    w: WalkModel,
    a: ActionModel,
    depth: nat,
    target: Seq<Seq<char>>,
    steps: nat,
)
    requires
        consistent(listing, w, a, depth, target),
    ensures
        drive(listing, w, a, steps) is Some ==> drive(listing, w, a, steps) == Some(target),
        steps >= steps_needed(listing, w, a, depth) ==> drive(listing, w, a, steps) == Some(target),
        steps < steps_needed(listing, w, a, depth) ==> drive(listing, w, a, steps) is None,
    decreases steps,
{
    match a {
        ActionModel::Finished(_) => {},
        ActionModel::List(_, path) => {
            if steps > 0 {
                let p = w.waiting.unwrap();
                let w1 = WalkModel {
                    frames: w.frames.push(FrameModel { prefix: p, keys: listing(w.base + p) }),
                    waiting: None,
                    ..w
                };
                lemma_receive_on_track(listing, w, depth, target);
                assert(receive_model(w, listing(path)) == advance(w1));
                lemma_advance_on_track(listing, w1, depth, target);
                let (w2, a2) = advance(w1);
                lemma_drive_on_track(listing, w2, a2, depth, target, (steps - 1) as nat);
            }
        },
    }
}

/// Listing the secrets under `path`, with the server answering
/// `listing(p)` for each path `p` it is asked, returns exactly the secrets
/// of the recursive listing of the folder that `path` names (`path` with a
/// `/` added when it lacks one), each by its path in the mount, in the
/// order of a depth-first walk that keeps the server's order of keys. It
/// takes exactly one listing for that folder and one for each folder
/// below it: with fewer it has not ended, and no run that ends returns
/// anything else.
pub proof fn lemma_walk_finds_listed_secrets(
    listing: spec_fn(Seq<char>) -> Seq<Seq<char>>,
    path: Seq<char>,
    kvv: Seq<char>,
    depth: nat,
)
    requires
        kv_version_of(kvv) is Some,
        listed_secrets(listing, start_dir(path), depth) is Some,
    ensures
        ({
            let dir = start_dir(path);
            let (w0, a0) = start_model(path, kvv);
            let secrets = mount_paths(dir, listed_secrets(listing, dir, depth).unwrap());
            let listings = 1 + folders_below(listing, dir, listing(dir), depth);
            &&& drive(listing, w0, a0, listings) == Some(secrets)
            &&& forall|steps: nat|
                steps < listings ==> #[trigger] drive(listing, w0, a0, steps) is None
            &&& forall|steps: nat|
                #[trigger] drive(listing, w0, a0, steps) is Some ==> drive(listing, w0, a0, steps)
                    == Some(secrets)
        }),
{
    let dir = start_dir(path);
    let target = mount_paths(dir, listed_secrets(listing, dir, depth).unwrap());
    let (w0, a0) = start_model(path, kvv);
    let empty = Seq::<char>::empty();
    assert(dir + empty =~= dir);
    lemma_gather_shape(listing, dir, empty, listing(dir), depth);
    assert(Seq::<Seq<char>>::empty() + target + Seq::<Seq<char>>::empty() =~= target);
    assert(frames_folders(listing, dir, Seq::<FrameModel>::empty(), depth) == 0);
    assert(consistent(listing, w0, a0, depth, target));
    let n = steps_needed(listing, w0, a0, depth);
    assert(n == 1 + folders_below(listing, dir, listing(dir), depth));
    lemma_drive_on_track(listing, w0, a0, depth, target, n);
    assert forall|steps: nat| steps < n implies #[trigger] drive(listing, w0, a0, steps) is None by {
        lemma_drive_on_track(listing, w0, a0, depth, target, steps);
    }
    assert forall|steps: nat|
        #[trigger] drive(listing, w0, a0, steps) is Some implies drive(listing, w0, a0, steps)
        == Some(target) by {
        lemma_drive_on_track(listing, w0, a0, depth, target, steps);
    }
}

/// Handling keys never forgets a secret already found, keeps the start
/// path and the layout, and asks only for paths under the start path: the
/// path asked for is the start path followed by the awaited folder.
pub proof fn lemma_advance_extends_found(w: WalkModel)
    ensures
        ({
            let (w2, a) = advance(w);
            &&& w2.base == w.base
            &&& w2.version == w.version
            &&& w.found.len() <= w2.found.len()
            &&& w2.found.subrange(0, w.found.len() as int) == w.found
            &&& a matches ActionModel::List(_, p) ==> (w2.waiting is Some && p == w2.base
                + w2.waiting.unwrap())
            &&& a matches ActionModel::Finished(x) ==> x == w2.found
        }),
    decreases crate::walk::pending_keys(w.frames), w.frames.len(),
{
    if w.frames.len() == 0 {
        assert(w.found.subrange(0, w.found.len() as int) =~= w.found);
    } else {
        let top = w.frames.last();
        if top.keys.len() == 0 {
            lemma_advance_extends_found(WalkModel { frames: w.frames.drop_last(), ..w });
        } else {
            let key = top.keys[0];
            let frames = w.frames.update(
                w.frames.len() - 1,
                FrameModel { prefix: top.prefix, keys: top.keys.drop_first() },
            );
            assert(frames.drop_last() =~= w.frames.drop_last());
            if is_folder(key) {
                assert(w.found.subrange(0, w.found.len() as int) =~= w.found);
            } else {
                let w1 = WalkModel { frames, found: w.found.push(w.base + (top.prefix + key)), ..w };
                lemma_advance_extends_found(w1);
                let f2 = advance(w1).0.found;
                assert(f2.subrange(0, w.found.len() as int) =~= f2.subrange(
                    0,
                    w1.found.len() as int,
                ).subrange(0, w.found.len() as int));
                assert(w1.found.subrange(0, w.found.len() as int) =~= w.found);
            }
        }
    }
}


/// A walk lists first the folder its start path names: a non-empty path
/// whose last character is not `/` gets a `/` added, any other path is
/// listed as it is; that folder is what every secret found starts with.
/// An unknown layout lists nothing.
pub proof fn lemma_start_lists_named_folder(path: Seq<char>, kvv: Seq<char>)
    ensures
        start_dir(path) == (if path.len() > 0 && path.last() != '/' {
            path + seq!['/']
        } else {
            path
        }),
        kv_version_of(kvv) is Some ==> start_model(path, kvv).1 == ActionModel::List(
            kv_version_of(kvv).unwrap(),
            start_dir(path),
        ),
        kv_version_of(kvv) is Some ==> start_model(path, kvv).0.base == start_dir(path),
        kv_version_of(kvv) is None ==> start_model(path, kvv).1 == ActionModel::Finished(
            Seq::empty(),
        ),
{
    reveal_strlit("/");
    assert("/"@ =~= seq!['/']);
}

} // verus!
