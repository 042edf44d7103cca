use vstd::prelude::*;

use crate::components::Facing;

verus! {

/// The unit step of a direction: North is +y, East is +x.
pub open spec fn facing_delta_spec(dir: Facing) -> (int, int) {
    match dir {
        Facing::North => (0, 1),
        Facing::South => (0, -1),
        Facing::East => (1, 0),
        Facing::West => (-1, 0),
    }
}

/// The grid offset of one step in `dir`.
pub fn facing_delta(dir: Facing) -> (r: (i32, i32))
    ensures
        (r.0 as int, r.1 as int) == facing_delta_spec(dir),
{
    match dir {
        Facing::North => (0, 1),
        Facing::South => (0, -1),
        Facing::East => (1, 0),
        Facing::West => (-1, 0),
    }
}

} // verus!

verus! {

/// State of one key on this tick.
#[derive(Clone, Copy, Debug, PartialEq, Eq, Structural)]
pub struct KeyState {
    /// The key is down now.
    pub pressed: bool,
    /// The key went down on this tick.
    pub just_pressed: bool,
}

/// The four arrow keys on this tick.
#[derive(Clone, Copy, Debug, PartialEq, Eq, Structural)]
pub struct DirectionKeys {
    pub up: KeyState,
    pub down: KeyState,
    pub left: KeyState,
    pub right: KeyState,
}

/// The key that moves an actor in `dir`.
pub open spec fn key_for(keys: DirectionKeys, dir: Facing) -> KeyState {
    match dir {
        Facing::North => keys.up,
        Facing::South => keys.down,
        Facing::East => keys.right,
        Facing::West => keys.left,
    }
}

fn is_down(keys: &DirectionKeys, dir: Facing) -> (r: bool)
    ensures
        r == key_for(*keys, dir).pressed,
{
    match dir {
        Facing::North => keys.up.pressed,
        Facing::South => keys.down.pressed,
        Facing::East => keys.right.pressed,
        Facing::West => keys.left.pressed,
    }
}

fn just_down(keys: &DirectionKeys, dir: Facing) -> (r: bool)
    ensures
        r == key_for(*keys, dir).just_pressed,
{
    match dir {
        Facing::North => keys.up.just_pressed,
        Facing::South => keys.down.just_pressed,
        Facing::East => keys.right.just_pressed,
        Facing::West => keys.left.just_pressed,
    }
}

/// Whether the key for `facing` is down.
pub fn facing_pressed(keys: &DirectionKeys, facing: Facing) -> (r: bool)
    ensures
        r == key_for(*keys, facing).pressed,
{
    is_down(keys, facing)
}

/// `s` with every occurrence of `d` taken out, order kept.
pub open spec fn without(s: Seq<Facing>, d: Facing) -> Seq<Facing>
    decreases s.len(),
{
    if s.len() == 0 {
        s
    } else if s.last() == d {
        without(s.drop_last(), d)
    } else {
        without(s.drop_last(), d).push(s.last())
    }
}

pub proof fn lemma_without_contains(s: Seq<Facing>, d: Facing, e: Facing)
    ensures
        without(s, d).contains(e) <==> (s.contains(e) && e != d),
    decreases s.len(),
{
    if s.len() > 0 {
        lemma_without_contains(s.drop_last(), d, e);
        assert(s == s.drop_last().push(s.last()));
        if s.last() != d {
            assert(without(s, d).last() == s.last());
            assert(without(s, d).drop_last() == without(s.drop_last(), d));
        }
        if s.contains(e) && e != d {
            let i = choose|i: int| 0 <= i < s.len() && s[i] == e;
            if i < s.len() - 1 {
                assert(s.drop_last()[i] == e);
            }
        }
        if without(s, d).contains(e) && s.last() != d {
            let w = without(s, d);
            let j = choose|j: int| 0 <= j < w.len() && w[j] == e;
            if j < w.len() - 1 {
                assert(w.drop_last()[j] == e);
            }
        }
        if s.drop_last().contains(e) {
            let k = choose|k: int| 0 <= k < s.drop_last().len() && s.drop_last()[k] == e;
            assert(s[k] == e);
        }
    }
}

pub proof fn lemma_without_no_duplicates(s: Seq<Facing>, d: Facing)
    requires
        s.no_duplicates(),
    ensures
        without(s, d).no_duplicates(),
    decreases s.len(),
{
    if s.len() > 0 {
        let p = s.drop_last();
        assert(p.no_duplicates());
        lemma_without_no_duplicates(p, d);
        if s.last() != d {
            lemma_without_contains(p, d, s.last());
            if p.contains(s.last()) {
                let k = choose|k: int| 0 <= k < p.len() && p[k] == s.last();
                assert(s[k] == s[s.len() - 1]);
            }
            let w = without(p, d);
            assert forall|i: int, j: int|
                0 <= i < w.push(s.last()).len() && 0 <= j < w.push(s.last()).len() && i != j
                    implies w.push(s.last())[i] != w.push(s.last())[j] by {
                if i == w.len() && j < w.len() {
                    assert(w.contains(w[j]));
                }
                if j == w.len() && i < w.len() {
                    assert(w.contains(w[i]));
                }
            }
        }
    }
}

/// `s` after the key for `d` went down: `d` moves to the front.
pub open spec fn pressed_first(s: Seq<Facing>, d: Facing) -> Seq<Facing> {
    seq![d] + without(s, d)
}

/// One direction's part of the press pass.
pub open spec fn press_step(s: Seq<Facing>, keys: DirectionKeys, d: Facing) -> Seq<Facing> {
    if key_for(keys, d).just_pressed {
        pressed_first(s, d)
    } else {
        s
    }
}

/// One direction's part of the release pass.
pub open spec fn release_step(s: Seq<Facing>, keys: DirectionKeys, d: Facing) -> Seq<Facing> {
    if !key_for(keys, d).pressed {
        without(s, d)
    } else {
        s
    }
}

/// The buffer after one tick: every new press goes to the front (North,
/// South, East, West in turn), then every direction no longer down leaves.
pub open spec fn held_after(s: Seq<Facing>, keys: DirectionKeys) -> Seq<Facing> {
    let p = press_step(
        press_step(press_step(press_step(s, keys, Facing::North), keys, Facing::South), keys, Facing::East),
        keys,
        Facing::West,
    );
    release_step(
        release_step(release_step(release_step(p, keys, Facing::North), keys, Facing::South), keys, Facing::East),
        keys,
        Facing::West,
    )
}

/// The first direction of `s`, if any.
pub open spec fn front(s: Seq<Facing>) -> Option<Facing> {
    if s.len() == 0 {
        None
    } else {
        Some(s[0])
    }
}

/// The held directions, most recently pressed first, each at most once.
pub struct HeldDirs {
    dirs: Vec<Facing>,
}

impl View for HeldDirs {
    type V = Seq<Facing>;

    closed spec fn view(&self) -> Seq<Facing> {
        self.dirs@
    }
}

impl HeldDirs {
    pub open spec fn wf(&self) -> bool {
        self@.no_duplicates()
    }

    /// An empty buffer.
    pub fn new() -> (r: Self)
        ensures
            r.wf(),
            r@ == Seq::<Facing>::empty(),
    {
        HeldDirs { dirs: Vec::new() }
    }

    /// The direction that wins among those held: the most recently pressed.
    pub fn active(&self) -> (r: Option<Facing>)
        ensures
            r == front(self@),
    {
        if self.dirs.len() == 0 {
            None
        } else {
            Some(self.dirs[0])
        }
    }

    fn remove(&mut self, dir: Facing)
        requires
            old(self).wf(),
        ensures
            final(self).wf(),
            final(self)@ == without(old(self)@, dir),
    {
        let mut kept: Vec<Facing> = Vec::new();
        let mut i: usize = 0;
        while i < self.dirs.len()
            invariant
                i <= self.dirs@.len(),
                kept@ == without(self.dirs@.subrange(0, i as int), dir),
            decreases self.dirs@.len() - i,
        {
            let d = self.dirs[i];
            if d != dir {
                kept.push(d);
            }
            assert(self.dirs@.subrange(0, i + 1).drop_last() == self.dirs@.subrange(0, i as int));
            i = i + 1;
        }
        assert(self.dirs@.subrange(0, self.dirs@.len() as int) == self.dirs@);
        proof {
            lemma_without_no_duplicates(self.dirs@, dir);
        }
        self.dirs = kept;
    }

    fn push_front(&mut self, dir: Facing)
        requires
            old(self).wf(),
        ensures
            final(self).wf(),
            final(self)@ == pressed_first(old(self)@, dir),
    {
        self.remove(dir);
        self.dirs.insert(0, dir);
        proof {
            let w = without(old(self)@, dir);
            lemma_without_contains(old(self)@, dir, dir);
            assert(self.dirs@ == seq![dir] + w);
            assert forall|i: int, j: int|
                0 <= i < self.dirs@.len() && 0 <= j < self.dirs@.len() && i != j
                    implies self.dirs@[i] != self.dirs@[j] by {
                if i == 0 {
                    assert(w.contains(self.dirs@[j]));
                } else if j == 0 {
                    assert(w.contains(self.dirs@[i]));
                } else {
                    assert(self.dirs@[i] == w[i - 1]);
                    assert(self.dirs@[j] == w[j - 1]);
                }
            }
        }
    }

    fn press_if(&mut self, keys: &DirectionKeys, dir: Facing)
        requires
            old(self).wf(),
        ensures
            final(self).wf(),
            final(self)@ == press_step(old(self)@, *keys, dir),
    {
        if just_down(keys, dir) {
            self.push_front(dir);
        }
    }

    fn release_if(&mut self, keys: &DirectionKeys, dir: Facing)
        requires
            old(self).wf(),
        ensures
            final(self).wf(),
            final(self)@ == release_step(old(self)@, *keys, dir),
    {
        if !is_down(keys, dir) {
            self.remove(dir);
        }
    }
}

/// Reconciles the buffer with this tick's keys: new presses go to the
/// front, released directions leave. Afterwards every buffered direction
/// is down, so the active one is too.
pub fn update_held_dirs(keys: &DirectionKeys, held: &mut HeldDirs)
    requires
        old(held).wf(),
    ensures
        final(held).wf(),
        final(held)@ == held_after(old(held)@, *keys),
        forall|i: int| 0 <= i < final(held)@.len() ==> #[trigger] key_for(*keys, final(held)@[i]).pressed,
{
    held.press_if(keys, Facing::North);
    held.press_if(keys, Facing::South);
    held.press_if(keys, Facing::East);
    held.press_if(keys, Facing::West);
    let ghost pressed = held@;
    held.release_if(keys, Facing::North);
    held.release_if(keys, Facing::South);
    held.release_if(keys, Facing::East);
    held.release_if(keys, Facing::West);
    proof {
        let r = held@;
        assert forall|i: int| 0 <= i < r.len() implies #[trigger] key_for(*keys, r[i]).pressed by {
            let e = r[i];
            assert(r.contains(e));
            let s1 = release_step(pressed, *keys, Facing::North);
            let s2 = release_step(s1, *keys, Facing::South);
            let s3 = release_step(s2, *keys, Facing::East);
            lemma_without_contains(pressed, Facing::North, e);
            lemma_without_contains(s1, Facing::South, e);
            lemma_without_contains(s2, Facing::East, e);
            lemma_without_contains(s3, Facing::West, e);
        }
    }
}

} // verus!
