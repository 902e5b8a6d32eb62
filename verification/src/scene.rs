//! The scene abstraction: the closed set of gameplay modes, the
//! transition request a scene hands its stack, and the per-frame input
//! snapshot the unverified rim distils from the window events.

use vstd::prelude::*;

use crate::classic_game_scene::ClassicGameScene;
use crate::error::FatalError;
use crate::hit_and_dodge_scene::HitAndDodgeGameScene;
use crate::hit_and_dodge_score_scene::HitAndDodgeScoreScene;
use crate::message::{Message, MessageValue};
use crate::render_objects::RenderObjects;
use crate::timer::Timer;

verus! {

/// The optional payload of a scene transition.
pub type MaybeMessage = Option<Message>;

/// How long the pre-round countdown runs, milliseconds.
pub const PREPARE_DURATION_MS: u32 = 3000;

/// How long the time-out banner is shown before the score scene comes,
/// milliseconds.
pub const FINISHING_DURATION_MS: u32 = 2000;

/// How far a hit-scan ray reaches, millimetres.
pub const MAX_RAYCAST_DISTANCE_MM: i32 = 1000000;

/// One frame's worth of input, as plain flags.
#[derive(Clone, Copy, PartialEq, Eq, Structural, Debug)]
pub struct FrameInput {
    pub left_mouse_pressed: bool,
    pub any_mouse_pressed: bool,
    pub escape_pressed: bool,
    pub confirm_pressed: bool,
}

/// The difficulty a round is played at.
#[derive(Clone, Copy, PartialEq, Eq, Structural, Debug)]
pub enum GameDifficulty {
    Easy,
    Medium,
    Hard,
}

impl GameDifficulty {
    /// The wire index of this difficulty in a transition message.
    pub open spec fn spec_index(self) -> i64 {
        match self {
            GameDifficulty::Easy => 0,
            GameDifficulty::Medium => 1,
            GameDifficulty::Hard => 2,
        }
    }

    pub fn index(&self) -> (r: i64)
        ensures
            r == self.spec_index(),
    {
        match self {
            GameDifficulty::Easy => 0,
            GameDifficulty::Medium => 1,
            GameDifficulty::Hard => 2,
        }
    }

    /// Read a difficulty back from its wire index; any other index is a
    /// malformed payload, which is fatal.
    pub fn from_index(index: i64) -> (r: Result<GameDifficulty, FatalError>)
        ensures
            match r {
                Ok(d) => d.spec_index() == index,
                Err(e) => {
                    &&& e == FatalError::MessageTypeMismatch
                    &&& !(0 <= index <= 2)
                },
            },
    {
        if index == 0 {
            Ok(GameDifficulty::Easy)
        } else if index == 1 {
            Ok(GameDifficulty::Medium)
        } else if index == 2 {
            Ok(GameDifficulty::Hard)
        } else {
            Err(FatalError::MessageTypeMismatch)
        }
    }
}

/// The round flow of the hit-and-dodge mode.
#[derive(Clone, Copy, Debug)]
pub enum GameState {
    Preround,
    Prepare(Timer),
    Round,
    Finishing(Timer),
}

/// What the main menu hands the stack when a button is pressed.
#[derive(Clone, Copy, PartialEq, Eq, Structural, Debug)]
pub enum MenuSelection {
    Nothing,
    PlayClassic,
    PlayHitAndDodge(GameDifficulty),
}

/// The transition request a scene returns from its update: nothing, a
/// scene pushed on top, a number of scenes popped, or the top replaced.
pub enum SceneOp {
    NoOp,
    Push(Box<Scene>, MaybeMessage),
    Pop(u32, MaybeMessage),
    Replace(Box<Scene>, MaybeMessage),
}

/// The main menu: the rim draws its buttons and reports which was chosen.
pub struct MainMenuScene {}

impl MainMenuScene {
    pub fn new() -> (r: MainMenuScene)
        ensures
            r == (MainMenuScene {  }),
    {
        MainMenuScene {  }
    }

    /// The menu's only decision: start the chosen mode.
    pub fn update(&mut self, selection: MenuSelection) -> (op: SceneOp)
        ensures
            match selection {
                MenuSelection::Nothing => op is NoOp,
                MenuSelection::PlayClassic => op is Push && op->Push_1 is None && match (
                *op->Push_0) {
                    Scene::Classic(c) => c.wf(),
                    _ => false,
                },
                MenuSelection::PlayHitAndDodge(d) => op is Push && op->Push_1 is None && match (
                *op->Push_0) {
                    Scene::HitAndDodge(h) => h.wf() && h.difficulty == d,
                    _ => false,
                },
            },
    {
        match selection {
            MenuSelection::Nothing => SceneOp::NoOp,
            MenuSelection::PlayClassic => SceneOp::Push(
                Box::new(Scene::Classic(Box::new(ClassicGameScene::new()))),
                None,
            ),
            MenuSelection::PlayHitAndDodge(difficulty) => SceneOp::Push(
                Box::new(Scene::HitAndDodge(Box::new(HitAndDodgeGameScene::new(difficulty)))),
                None,
            ),
        }
    }
}

/// The pause overlay. It remembers the difficulty of the round below it,
/// so resuming can hand it back in the transition message.
pub struct PauseScene {
    pub difficulty: Option<GameDifficulty>,
}

impl PauseScene {
    pub fn new(difficulty: Option<GameDifficulty>) -> (r: PauseScene)
        ensures
            r.difficulty == difficulty,
    {
        PauseScene { difficulty }
    }

    /// Resume on confirm or escape: pop back to the round, tagging the
    /// message so the round restarts its prepare countdown, and handing
    /// the difficulty back when one is held.
    pub fn update(&mut self, input: &FrameInput) -> (op: SceneOp)
        ensures
            match op {
                SceneOp::Pop(n, msg) => {
                    &&& (input.confirm_pressed || input.escape_pressed)
                    &&& n == 1
                    &&& msg is Some
                    &&& msg.unwrap().wf()
                    &&& msg.unwrap().spec_get("from_pause"@) == Some(MessageValue::I64(1))
                    &&& (old(self).difficulty is Some ==> msg.unwrap().spec_get("difficulty"@)
                        == Some(MessageValue::I64(old(self).difficulty.unwrap().spec_index())))
                },
                SceneOp::NoOp => !(input.confirm_pressed || input.escape_pressed),
                _ => false,
            },
    {
        if input.confirm_pressed || input.escape_pressed {
            let mut msg = Message::new();
            msg.insert("from_pause", MessageValue::I64(1));
            match &self.difficulty {
                Some(d) => {
                    let idx = d.index();
                    msg.insert("difficulty", MessageValue::I64(idx));
                    proof {
                        reveal_strlit("from_pause");
                        reveal_strlit("difficulty");
                        assert("from_pause"@[0] != "difficulty"@[0]);
                        assert("from_pause"@ != "difficulty"@);
                    }
                },
                None => {},
            }
            SceneOp::Pop(1, Some(msg))
        } else {
            SceneOp::NoOp
        }
    }
}

/// One gameplay mode, dispatched as a closed set of variants.
pub enum Scene {
    MainMenu(MainMenuScene),
    Classic(Box<ClassicGameScene>),
    HitAndDodge(Box<HitAndDodgeGameScene>),
    Pause(PauseScene),
    Score(HitAndDodgeScoreScene),
}

impl Scene {
    /// One-time setup when the scene becomes the top of the stack. The
    /// gameplay rounds push their static backdrop and restart their
    /// countdowns; only the hit-and-dodge round reads the message, and
    /// only a malformed one is fatal — each variant's exact effect is
    /// forwarded from its own `spec_inited`.
    pub fn init(&mut self, message: &MaybeMessage, queue: &mut RenderObjects) -> (r: Result<
        (),
        FatalError,
    >)
        requires
            message is Some ==> message.unwrap().wf(),
            match *old(self) {
                Scene::Classic(c) => c.wf(),
                Scene::HitAndDodge(h) => h.wf(),
                _ => true,
            },
        ensures
            match (*old(self), *final(self)) {
                (Scene::MainMenu(a), Scene::MainMenu(b)) => {
                    &&& r is Ok
                    &&& a == b
                    &&& *final(queue) == *old(queue)
                },
                (Scene::Classic(c), Scene::Classic(c2)) => {
                    &&& r is Ok
                    &&& *c2 == (*c).spec_inited()
                    &&& final(queue).render_objects@ == old(queue).render_objects@
                    &&& final(queue).render_objects_static@ == old(
                        queue,
                    ).render_objects_static@.push(
                        crate::classic_game_scene::spec_backdrop_record(),
                    )
                },
                (Scene::HitAndDodge(h), Scene::HitAndDodge(h2)) => {
                    &&& h2.wf()
                    &&& final(queue).render_objects@ == old(queue).render_objects@
                    &&& final(queue).render_objects_static@ == old(
                        queue,
                    ).render_objects_static@.push(
                        crate::hit_and_dodge_scene::spec_floor_record(),
                    )
                    &&& match crate::hit_and_dodge_scene::spec_rejects(*message) {
                        None => r is Ok && *h2 == (*h).spec_inited(*message),
                        Some(e) => r == Err::<(), FatalError>(e),
                    }
                },
                (Scene::Pause(a), Scene::Pause(b)) => {
                    &&& r is Ok
                    &&& a == b
                    &&& *final(queue) == *old(queue)
                },
                (Scene::Score(a), Scene::Score(b)) => {
                    &&& r is Ok
                    &&& a == b
                    &&& *final(queue) == *old(queue)
                },
                _ => false,
            },
            r is Err ==> (*old(self)) is HitAndDodge && (r->Err_0 == FatalError::MessageKeyMissing
                || r->Err_0 == FatalError::MessageTypeMismatch),
    {
        match self {
            Scene::MainMenu(_) => Ok(()),
            Scene::Classic(c) => {
                c.init(queue);
                Ok(())
            },
            Scene::HitAndDodge(h) => h.init(message, queue),
            Scene::Pause(_) => Ok(()),
            Scene::Score(_) => Ok(()),
        }
    }

    /// Teardown when the scene leaves the stack: a gameplay round clears
    /// every drawable record it owned.
    pub fn deinit(&mut self, queue: &mut RenderObjects)
        ensures
            match (*old(self), *final(self)) {
                (Scene::MainMenu(a), Scene::MainMenu(b)) => a == b,
                (Scene::Classic(a), Scene::Classic(b)) => a == b,
                (Scene::HitAndDodge(a), Scene::HitAndDodge(b)) => a == b,
                (Scene::Pause(a), Scene::Pause(b)) => a == b,
                (Scene::Score(a), Scene::Score(b)) => a == b,
                _ => false,
            },
            ((*old(self)) is Classic || (*old(self)) is HitAndDodge) ==> {
                &&& final(queue).render_objects@.len() == 0
                &&& final(queue).render_objects_static@.len() == 0
            },
            !((*old(self)) is Classic || (*old(self)) is HitAndDodge) ==> *final(queue) == *old(queue),
    {
        match self {
            Scene::MainMenu(_) => {},
            Scene::Classic(_) => {
                queue.clear();
            },
            Scene::HitAndDodge(_) => {
                queue.clear();
            },
            Scene::Pause(_) => {},
            Scene::Score(_) => {},
        }
    }
}

} // verus!
