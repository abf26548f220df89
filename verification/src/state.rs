//! What the compiler keeps track of while it reads the acts of a play: the
//! acts and scenes so far with their titles, the act and scene numbers, the
//! scenes compiled so far, who is on stage and who speaks.

use vstd::prelude::*;
use crate::text::same_chars;
use crate::lexicon::{texts, is_listed};
use crate::program::{Scene, SpecScene, Statement, SpecStatement, CompileError, scenes_view,
    statements_view};

verus! {

/// An act: its title, and the titles of its scenes so far.
pub struct SpecAct {
    pub name: Seq<char>,
    pub scenes: Seq<Seq<char>>,
}

/// The compiler's state, with texts for names.
pub struct SpecState {
    pub acts: Seq<SpecAct>,
    pub act_num: nat,
    pub scene_num: nat,
    pub scenes: Seq<SpecScene>,
    pub stage: Seq<Seq<char>>,
    pub current: Seq<char>,
}

/// The state before the first act: nothing read, nobody on stage.
pub open spec fn initial_state() -> SpecState {
    SpecState {
        acts: Seq::empty(),
        act_num: 0,
        scene_num: 0,
        scenes: Seq::empty(),
        stage: Seq::empty(),
        current: Seq::empty(),
    }
}

/// The characters on stage other than the one speaking.
pub open spec fn others_on_stage(st: SpecState) -> Seq<Seq<char>> {
    st.stage.filter(|n: Seq<char>| n != st.current)
}

/// The character spoken to: the one character on stage other than the one
/// speaking; there must be exactly one.
pub open spec fn spoken_to(st: SpecState) -> Result<Seq<char>, CompileError> {
    if others_on_stage(st).len() == 1 {
        Ok(others_on_stage(st)[0])
    } else {
        Err(CompileError::NotTwoOnStage)
    }
}

/// The state with a statement added to the last scene.
pub open spec fn with_statement(st: SpecState, s: SpecStatement) -> SpecState {
    let last = st.scenes.last();
    SpecState {
        scenes: st.scenes.update(
            st.scenes.len() - 1,
            SpecScene { act: last.act, number: last.number, body: last.body.push(s) },
        ),
        ..st
    }
}

/// Adds a statement to the last scene; there must be one.
pub open spec fn add_statement(st: SpecState, s: SpecStatement) -> Result<SpecState, CompileError> {
    if st.scenes.len() == 0 {
        Err(CompileError::NoScene)
    } else {
        Ok(with_statement(st, s))
    }
}

/// The stage with a character entered: unchanged if it is there already.
pub open spec fn stage_enter(stage: Seq<Seq<char>>, n: Seq<char>) -> Seq<Seq<char>> {
    if stage.contains(n) {
        stage
    } else {
        stage.push(n)
    }
}

/// Whether a name is other than `n`.
pub open spec fn other_than(n: Seq<char>) -> spec_fn(Seq<char>) -> bool {
    |x: Seq<char>| x != n
}

/// The stage with a character gone.
pub open spec fn stage_leave(stage: Seq<Seq<char>>, n: Seq<char>) -> Seq<Seq<char>> {
    stage.filter(other_than(n))
}

/// Keeping only some names of a list without repetitions leaves no
/// repetitions.
pub proof fn lemma_filter_keeps_distinct(s: Seq<Seq<char>>, pred: spec_fn(Seq<char>) -> bool)
    requires
        s.no_duplicates(),
    ensures
        s.filter(pred).no_duplicates(),
    decreases s.len(),
{
    reveal(Seq::filter);
    if s.len() > 0 {
        let rest = s.drop_last();
        assert(rest.no_duplicates());
        lemma_filter_keeps_distinct(rest, pred);
        if pred(s.last()) {
            let f = rest.filter(pred);
            if f.contains(s.last()) {
                rest.lemma_filter_contains_rev(pred, s.last());
                let j = choose|j: int| 0 <= j < rest.len() && rest[j] == s.last();
                assert(s[j] == s[s.len() - 1]);
            }
            assert(f.push(s.last()).no_duplicates());
        }
    }
}

/// An act so far.
pub struct Act {
    pub name: Vec<char>,
    pub scenes: Vec<Vec<char>>,
}

/// The texts of a sequence of character vectors.
pub open spec fn char_views(v: Seq<Vec<char>>) -> Seq<Seq<char>> {
    v.map_values(|x: Vec<char>| x@)
}

impl View for Act {
    type V = SpecAct;

    open spec fn view(&self) -> SpecAct {
        SpecAct { name: self.name@, scenes: char_views(self.scenes@) }
    }
}

/// The views of a sequence of acts.
pub open spec fn acts_view(v: Seq<Act>) -> Seq<SpecAct> {
    v.map_values(|x: Act| x@)
}

/// The views of the acts a jump by title is looked up among, where they are
/// known.
pub open spec fn titles_view(titles: Option<Vec<Act>>) -> Option<Seq<SpecAct>> {
    match titles {
        Some(acts) => Some(acts_view(acts@)),
        None => None,
    }
}

/// The compiler's state.
pub struct State {
    pub acts: Vec<Act>,
    pub act_num: u32,
    pub scene_num: u32,
    pub scenes: Vec<Scene>,
    pub stage: Vec<String>,
    pub current: String,
}

impl View for State {
    type V = SpecState;

    open spec fn view(&self) -> SpecState {
        SpecState {
            acts: acts_view(self.acts@),
            act_num: self.act_num as nat,
            scene_num: self.scene_num as nat,
            scenes: scenes_view(self.scenes@),
            stage: texts(self.stage@),
            current: self.current@,
        }
    }
}

impl State {
    /// The state before the first act.
    pub fn new() -> (st: State)
        ensures
            st@ == initial_state(),
    {
        let st = State {
            acts: Vec::new(),
            act_num: 0,
            scene_num: 0,
            scenes: Vec::new(),
            stage: Vec::new(),
            current: String::new(),
        };
        proof {
            assert(st@.acts =~= Seq::<SpecAct>::empty());
            assert(st@.scenes =~= Seq::<SpecScene>::empty());
            assert(st@.stage =~= Seq::<Seq<char>>::empty());
        }
        st
    }

    /// The character spoken to (see `spoken_to`).
    pub fn spoken_to(&self) -> (r: Result<String, CompileError>)
        ensures
            match r {
                Ok(n) => spoken_to(self@) == Ok::<Seq<char>, CompileError>(n@),
                Err(e) => spoken_to(self@) == Err::<Seq<char>, CompileError>(e),
            },
    {
        let ghost pred = |n: Seq<char>| n != self@.current;
        let mut others: Vec<String> = Vec::new();
        let mut i: usize = 0;
        while i < self.stage.len()
            invariant
                i <= self.stage.len(),
                pred == (|n: Seq<char>| n != self@.current),
                texts(others@) == texts(self.stage@).take(i as int).filter(pred),
            decreases self.stage.len() - i,
        {
            let ghost before = texts(others@);
            proof {
                assert(texts(self.stage@).take(i + 1) =~= texts(self.stage@).take(i as int).push(
                    self.stage@[i as int]@,
                ));
                texts(self.stage@).take(i as int).lemma_filter_push(self.stage@[i as int]@, pred);
            }
            if !self.stage[i].eq(&self.current) {
                others.push(self.stage[i].clone());
                proof {
                    assert(texts(others@) =~= before.push(self.stage@[i as int]@));
                }
            }
            i = i + 1;
        }
        proof {
            assert(texts(self.stage@).take(self.stage.len() as int) =~= texts(self.stage@));
        }
        if others.len() == 1 {
            let n = others[0].clone();
            proof {
                assert(texts(others@)[0] == others@[0]@);
            }
            Ok(n)
        } else {
            Err(CompileError::NotTwoOnStage)
        }
    }

    /// Adds a statement to the last scene, which must be there.
    pub fn push_statement(&mut self, s: Statement)
        requires
            old(self).scenes.len() > 0,
        ensures
            final(self)@ == with_statement(old(self)@, s@),
    {
        let ghost sv = s@;
        let mut last = self.scenes.pop().unwrap();
        let ghost before = last.body@;
        last.body.push(s);
        proof {
            assert(statements_view(last.body@) =~= statements_view(before).push(sv));
        }
        self.scenes.push(last);
        proof {
            assert(scenes_view(self.scenes@) =~= scenes_view(old(self).scenes@).update(
                old(self).scenes.len() - 1,
                SpecScene {
                    act: old(self)@.scenes.last().act,
                    number: old(self)@.scenes.last().number,
                    body: old(self)@.scenes.last().body.push(sv),
                },
            ));
        }
    }

    /// Adds a statement to the last scene (see `add_statement`).
    pub fn add_statement(&mut self, s: Statement) -> (r: Result<(), CompileError>)
        ensures
            match r {
                Ok(()) => add_statement(old(self)@, s@) == Ok::<SpecState, CompileError>(
                    final(self)@,
                ),
                Err(e) => add_statement(old(self)@, s@) == Err::<SpecState, CompileError>(e),
            },
    {
        if self.scenes.len() == 0 {
            return Err(CompileError::NoScene);
        }
        self.push_statement(s);
        Ok(())
    }

    /// Enters a character (see `stage_enter`).
    pub fn enter(&mut self, n: &String)
        ensures
            final(self)@ == (SpecState { stage: stage_enter(old(self)@.stage, n@), ..old(self)@ }),
            old(self)@.stage.no_duplicates() ==> final(self)@.stage.no_duplicates(),
    {
        proof {
            if texts(self.stage@).contains(n@) {
                let j = choose|j: int| 0 <= j < texts(self.stage@).len() && texts(self.stage@)[j] == n@;
                assert(self.stage@[j]@ == n@);
            }
        }
        if !is_listed(&self.stage, n) {
            let ghost before = texts(self.stage@);
            self.stage.push(n.clone());
            proof {
                assert(texts(self.stage@) =~= before.push(n@));
            }
        } else {
            proof {
                let j = choose|j: int| 0 <= j < self.stage@.len() && #[trigger] self.stage@[j]@ == n@;
                assert(texts(self.stage@)[j] == n@);
            }
        }
    }

    /// Makes a character leave (see `stage_leave`).
    pub fn leave(&mut self, n: &String)
        ensures
            final(self)@ == (SpecState { stage: stage_leave(old(self)@.stage, n@), ..old(self)@ }),
            old(self)@.stage.no_duplicates() ==> final(self)@.stage.no_duplicates(),
    {
        let ghost pred = other_than(n@);
        let ghost old_stage = texts(self.stage@);
        let mut kept: Vec<String> = Vec::new();
        let mut i: usize = 0;
        while i < self.stage.len()
            invariant
                i <= self.stage.len(),
                old_stage == texts(self.stage@),
                self@ == old(self)@,
                pred == other_than(n@),
                texts(kept@) == old_stage.take(i as int).filter(pred),
            decreases self.stage.len() - i,
        {
            let ghost before = texts(kept@);
            proof {
                assert(old_stage.take(i + 1) =~= old_stage.take(i as int).push(
                    self.stage@[i as int]@,
                ));
                old_stage.take(i as int).lemma_filter_push(self.stage@[i as int]@, pred);
            }
            if !self.stage[i].eq(n) {
                kept.push(self.stage[i].clone());
                proof {
                    assert(texts(kept@) =~= before.push(self.stage@[i as int]@));
                }
            }
            i = i + 1;
        }
        proof {
            assert(old_stage.take(self.stage.len() as int) =~= old_stage);
            if old_stage.no_duplicates() {
                lemma_filter_keeps_distinct(old_stage, pred);
            }
        }
        self.stage = kept;
    }
}

/// The first scene of an act, from the `j`-th on, with the given title.
pub open spec fn scene_titled(scenes: Seq<Seq<char>>, t: Seq<char>, j: nat) -> Option<nat>
    decreases scenes.len() - j,
{
    if j >= scenes.len() {
        None
    } else if scenes[j as int] == t {
        Some(j)
    } else {
        scene_titled(scenes, t, j + 1)
    }
}

/// Where a jump by title goes, looking from the `i`-th act on: to the first
/// scene of the first act with that title, or to the first scene with that
/// title in the first act that has one, whichever comes first. Acts and
/// scenes are counted from 1.
pub open spec fn jump_target(acts: Seq<SpecAct>, t: Seq<char>, i: nat) -> Option<(nat, nat)>
    decreases acts.len() - i,
{
    if i >= acts.len() {
        None
    } else if acts[i as int].name == t {
        Some((i + 1, 1))
    } else {
        match scene_titled(acts[i as int].scenes, t, 0) {
            Some(j) => Some((i + 1, j + 1)),
            None => jump_target(acts, t, i + 1),
        }
    }
}

/// Where a jump to the given title goes (see `jump_target`).
pub fn find_jump_target(acts: &Vec<Act>, t: &Vec<char>) -> (r: Option<(usize, usize)>)
    ensures
        match r {
            Some((a, s)) => jump_target(acts_view(acts@), t@, 0) == Some((a as nat, s as nat)),
            None => jump_target(acts_view(acts@), t@, 0) is None,
        },
{
    let ghost av = acts_view(acts@);
    let mut i: usize = 0;
    while i < acts.len()
        invariant
            i <= acts.len(),
            av == acts_view(acts@),
            jump_target(av, t@, 0) == jump_target(av, t@, i as nat),
        decreases acts.len() - i,
    {
        proof {
            assert(av[i as int].name == acts@[i as int].name@);
        }
        if same_chars(&acts[i].name, t) {
            return Some((i + 1, 1));
        }
        let scenes = &acts[i].scenes;
        let mut j: usize = 0;
        while j < scenes.len()
            invariant
                j <= scenes.len(),
                i < acts.len(),
                scenes == &acts@[i as int].scenes,
                av == acts_view(acts@),
                jump_target(av, t@, 0) == jump_target(av, t@, i as nat),
                av[i as int].name != t@,
                scene_titled(av[i as int].scenes, t@, 0) == scene_titled(
                    av[i as int].scenes,
                    t@,
                    j as nat,
                ),
            decreases scenes.len() - j,
        {
            proof {
                assert(av[i as int].scenes[j as int] == scenes@[j as int]@);
            }
            if same_chars(&scenes[j], t) {
                proof {
                    assert(av[i as int].name == acts@[i as int].name@);
                    assert(scene_titled(av[i as int].scenes, t@, j as nat) == Some(j as nat));
                }
                return Some((i + 1, j + 1));
            }
            j = j + 1;
        }
        i = i + 1;
    }
    None
}

} // verus!
